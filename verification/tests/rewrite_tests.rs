use hls_proxy::rewrite::rewrite_manifest;
use hls_proxy::locator::proxy_locator;

fn rw(content: &str, base: &str, port: u16) -> String {
    String::from_utf8(rewrite_manifest(content.as_bytes(), base.as_bytes(), port)).unwrap()
}

/// The decoded `url` query parameter of a locator line.
fn decoded_target(line: &str) -> String {
    let pos = line.find("url=").expect("no url parameter");
    let enc = &line[pos + 4..];
    urlencoding::decode(enc).expect("bad encoding").into_owned()
}

#[test]
fn relative_reference_resolved() {
    let out = rw("chunk1.ts", "https://cdn.example.com/live/master.m3u8", 8080);
    assert_eq!(
        out,
        "http://127.0.0.1:8080/proxy?url=https%3A%2F%2Fcdn.example.com%2Flive%2Fchunk1.ts"
    );
    assert_eq!(decoded_target(&out), "https://cdn.example.com/live/chunk1.ts");
}

#[test]
fn absolute_reference_kept() {
    let out = rw(
        "https://other.example.com/seg.ts",
        "https://cdn.example.com/live/master.m3u8",
        8080,
    );
    assert!(out.starts_with("http://127.0.0.1:8080/proxy?url="));
    assert_eq!(decoded_target(&out), "https://other.example.com/seg.ts");
}

#[test]
fn attribute_line_rewritten() {
    let out = rw(
        "#EXT-X-MAP:URI=\"init.mp4\"",
        "https://cdn.example.com/live/master.m3u8",
        4242,
    );
    assert_eq!(
        out,
        "#EXT-X-MAP:URI=\"http://127.0.0.1:4242/proxy?url=https%3A%2F%2Fcdn.example.com%2Flive%2Finit.mp4\""
    );
}

#[test]
fn line_structure_kept() {
    let input = "#EXTM3U\n#EXT-X-VERSION:3\nhttps://a.example.com/one.ts\n\nhttps://a.example.com/two.ts";
    let out = rw(input, "https://cdn.example.com/live/master.m3u8", 9001);
    let in_lines: Vec<&str> = input.lines().collect();
    let out_lines: Vec<&str> = out.lines().collect();
    assert_eq!(out_lines.len(), in_lines.len());
    assert_eq!(out_lines[0], "#EXTM3U");
    assert_eq!(out_lines[1], "#EXT-X-VERSION:3");
    assert_eq!(out_lines[3], "");
    assert_eq!(decoded_target(out_lines[2]), "https://a.example.com/one.ts");
    assert_eq!(decoded_target(out_lines[4]), "https://a.example.com/two.ts");
}

#[test]
fn unparsable_base_leaves_manifest() {
    let input = "#EXTM3U\nchunk1.ts";
    let out = rw(input, "not a url", 8080);
    assert_eq!(out, input);
}

#[test]
fn unjoinable_reference_wrapped_as_itself() {
    // mailto: parses but cannot serve as a base, so the join fails and the
    // raw reference is wrapped unchanged.
    let out = rw("seg.ts", "mailto:someone@example.com", 8080);
    assert!(out.starts_with("http://127.0.0.1:8080/proxy?url="));
    assert_eq!(decoded_target(&out), "seg.ts");
}

#[test]
fn attribute_without_closing_quote_kept() {
    let input = "#EXT-X-MAP:URI=\"init.mp4";
    let out = rw(input, "https://cdn.example.com/live/master.m3u8", 8080);
    assert_eq!(out, input);
}

#[test]
fn only_first_attribute_rewritten() {
    let input = "#EXT-X-KEY:METHOD=AES-128,URI=\"k.key\",IV=0x1,URI=\"other.key\"";
    let out = rw(input, "https://cdn.example.com/live/master.m3u8", 8080);
    assert!(out.starts_with("#EXT-X-KEY:METHOD=AES-128,URI=\"http://127.0.0.1:8080/proxy?url="));
    assert!(out.ends_with("\",IV=0x1,URI=\"other.key\""));
    let pos = out.find("url=").unwrap();
    let end = out[pos..].find('"').unwrap() + pos;
    let target = urlencoding::decode(&out[pos + 4..end]).unwrap().into_owned();
    assert_eq!(target, "https://cdn.example.com/live/k.key");
}

#[test]
fn crlf_lines_normalized() {
    let out = rw(
        "#EXTM3U\r\nseg.ts\r\n",
        "https://cdn.example.com/live/master.m3u8",
        8080,
    );
    assert_eq!(
        out,
        "#EXTM3U\nhttp://127.0.0.1:8080/proxy?url=https%3A%2F%2Fcdn.example.com%2Flive%2Fseg.ts"
    );
}

#[test]
fn redirect_target_is_the_base() {
    // The base handed to the rewriter is the final URL after redirects;
    // relative references resolve under its path, not the requested one.
    let out = rw("seg.ts", "https://cdn.example.com/moved/master.m3u8", 8080);
    assert_eq!(decoded_target(&out), "https://cdn.example.com/moved/seg.ts");
}

#[test]
fn dot_segments_normalized() {
    let out = rw(
        "../audio/a1.ts",
        "https://cdn.example.com/live/video/master.m3u8",
        8080,
    );
    assert_eq!(decoded_target(&out), "https://cdn.example.com/live/audio/a1.ts");
}

#[test]
fn locator_round_trip_exact_bytes() {
    let target = "https://cdn.example.com/live/ch 1/se+g?tok=a/b&x=\u{00e9}";
    let loc = proxy_locator(65535, target.as_bytes());
    let loc = String::from_utf8(loc).unwrap();
    assert!(loc.starts_with("http://127.0.0.1:65535/proxy?url="));
    let enc = &loc["http://127.0.0.1:65535/proxy?url=".len()..];
    let back = urlencoding::decode(enc).unwrap().into_owned();
    assert_eq!(back, target);
}

#[test]
fn locator_for_smallest_port() {
    let loc = proxy_locator(0, "https://x.example.com/a".as_bytes());
    let loc = String::from_utf8(loc).unwrap();
    assert!(loc.starts_with("http://127.0.0.1:0/proxy?url="));
}

#[test]
fn empty_manifest_stays_empty() {
    let out = rw("", "https://cdn.example.com/live/master.m3u8", 8080);
    assert_eq!(out, "");
}

#[test]
fn trailing_newline_dropped_like_line_iteration() {
    let out = rw("#EXTM3U\n", "https://cdn.example.com/live/master.m3u8", 8080);
    assert_eq!(out, "#EXTM3U");
}

#[test]
fn whitespace_only_line_kept() {
    let input = "#EXTM3U\n   \n#EXT-X-ENDLIST";
    let out = rw(input, "https://cdn.example.com/live/master.m3u8", 8080);
    assert_eq!(out, input);
}
