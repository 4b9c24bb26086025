use hls_proxy::reply::{
    fetch_error_reply, fetch_failure_message, manifest_reply, network_error_message,
    read_error_reply, status_is_success, stream_reply, ReplyBody, BAD_GATEWAY,
};
use hls_proxy::rewrite::rewrite_manifest;

#[test]
fn fetch_error_is_contained_bad_gateway() {
    let r = fetch_error_reply("connection refused".as_bytes());
    assert_eq!(r.status, BAD_GATEWAY);
    assert_eq!(r.status, 502);
    assert!(r.allow_origin);
    assert!(!r.allow_methods_and_headers);
    assert!(r.content_type.is_none());
    match r.body {
        ReplyBody::Buffered(b) => {
            let msg = String::from_utf8(b).unwrap();
            assert!(!msg.is_empty());
            assert_eq!(msg, "Proxy error: connection refused");
        }
        ReplyBody::Streamed => panic!("error reply must carry a diagnostic body"),
    }
}

#[test]
fn read_error_is_bad_gateway() {
    let r = read_error_reply("timed out".as_bytes());
    assert_eq!(r.status, 502);
    assert!(r.allow_origin);
    match r.body {
        ReplyBody::Buffered(b) => {
            assert_eq!(String::from_utf8(b).unwrap(), "Failed to read response: timed out");
        }
        ReplyBody::Streamed => panic!("error reply must carry a diagnostic body"),
    }
}

#[test]
fn manifest_reply_mirrors_and_rewrites() {
    let base = "https://cdn.example.com/live/master.m3u8";
    let content = "#EXTM3U\nchunk1.ts";
    let r = manifest_reply(201, "application/vnd.apple.mpegurl".as_bytes(), content.as_bytes(), base.as_bytes(), 8080);
    assert_eq!(r.status, 201);
    assert!(r.allow_origin);
    assert!(r.allow_methods_and_headers);
    assert_eq!(
        String::from_utf8(r.content_type.unwrap()).unwrap(),
        "application/vnd.apple.mpegurl"
    );
    let expected = rewrite_manifest(content.as_bytes(), base.as_bytes(), 8080);
    match r.body {
        ReplyBody::Buffered(b) => assert_eq!(b, expected),
        ReplyBody::Streamed => panic!("manifest reply must be buffered"),
    }
}

#[test]
fn stream_reply_is_not_buffered() {
    let r = stream_reply(200, "video/mp2t".as_bytes());
    assert_eq!(r.status, 200);
    assert!(r.allow_origin);
    assert!(r.allow_methods_and_headers);
    assert_eq!(String::from_utf8(r.content_type.unwrap()).unwrap(), "video/mp2t");
    assert!(matches!(r.body, ReplyBody::Streamed));
}

#[test]
fn success_status_bounds() {
    assert!(status_is_success(200));
    assert!(status_is_success(204));
    assert!(status_is_success(299));
    assert!(!status_is_success(199));
    assert!(!status_is_success(300));
    assert!(!status_is_success(404));
    assert!(!status_is_success(502));
}

#[test]
fn fetch_failure_message_format() {
    let m = fetch_failure_message(404, "Not Found".as_bytes());
    assert_eq!(String::from_utf8(m).unwrap(), "Failed to fetch: 404 Not Found");
}

#[test]
fn network_error_message_format() {
    let m = network_error_message("dns failure".as_bytes());
    assert_eq!(String::from_utf8(m).unwrap(), "Network error: dns failure");
}
