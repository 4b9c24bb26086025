use hls_proxy::detect::detect_manifest;

fn det(requested: &str, final_url: &str, content_type: &str) -> bool {
    detect_manifest(
        requested.as_bytes(),
        final_url.as_bytes(),
        content_type.as_bytes(),
    )
}

#[test]
fn ts_segment_is_opaque() {
    let u = "https://cdn.example.com/live/seg001.ts";
    assert!(!det(u, u, "video/mp2t"));
}

#[test]
fn m3u8_suffix_wins_over_content_type() {
    let u = "https://cdn.example.com/live/master.m3u8";
    assert!(det(u, u, "text/plain"));
}

#[test]
fn m3u8_with_query_is_manifest() {
    let u = "https://cdn.example.com/live/master.m3u8?token=abc";
    assert!(det(u, u, "application/octet-stream"));
}

#[test]
fn m3u_suffix_is_manifest() {
    let u = "https://cdn.example.com/radio/list.m3u";
    assert!(det(u, u, "application/octet-stream"));
}

#[test]
fn mpegurl_content_type_is_manifest() {
    let u = "https://cdn.example.com/live/playlist";
    assert!(det(u, u, "application/vnd.apple.MPEGURL"));
}

#[test]
fn m3u_content_type_is_manifest() {
    let u = "https://cdn.example.com/live/playlist";
    assert!(det(u, u, "audio/x-M3U"));
}

#[test]
fn final_url_suffix_counts() {
    assert!(det(
        "https://cdn.example.com/start",
        "https://cdn.example.com/real/master.m3u8",
        "application/octet-stream"
    ));
}

#[test]
fn plain_binary_is_opaque() {
    let u = "https://cdn.example.com/media/clip.mp4";
    assert!(!det(u, u, "video/mp4"));
}
