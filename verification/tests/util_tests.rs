use hls_proxy::bytes::{contains_sub, ends_with, starts_with, to_ascii_lower, trim_bytes};
use hls_proxy::lines::{find_byte_exec, split_lines};
use hls_proxy::numfmt::u16_to_dec;
use hls_proxy::port::ProxyPort;
use hls_proxy::resolve::resolve_url;

#[test]
fn trim_removes_surrounding_whitespace() {
    assert_eq!(trim_bytes("  seg.ts \r\n".as_bytes()), "seg.ts".as_bytes());
    assert_eq!(trim_bytes("\t".as_bytes()), Vec::<u8>::new());
    assert_eq!(trim_bytes("".as_bytes()), Vec::<u8>::new());
    assert_eq!(trim_bytes("a b".as_bytes()), "a b".as_bytes());
}

#[test]
fn prefix_suffix_and_search() {
    let s = "#EXT-X-MAP:URI=\"init.mp4\"".as_bytes();
    assert!(starts_with(s, "#EXT".as_bytes()));
    assert!(!starts_with(s, "EXT".as_bytes()));
    assert!(ends_with(s, "\"".as_bytes()));
    assert!(contains_sub(s, "URI=\"".as_bytes()));
    assert!(!contains_sub(s, "uri=\"".as_bytes()));
    assert!(starts_with(s, "".as_bytes()));
    assert!(contains_sub(s, "".as_bytes()));
}

#[test]
fn lowercase_is_ascii_only() {
    assert_eq!(
        to_ascii_lower("Video/MP2T".as_bytes()),
        "video/mp2t".as_bytes()
    );
}

#[test]
fn decimal_rendering() {
    assert_eq!(u16_to_dec(0), "0".as_bytes());
    assert_eq!(u16_to_dec(7), "7".as_bytes());
    assert_eq!(u16_to_dec(8080), "8080".as_bytes());
    assert_eq!(u16_to_dec(65535), "65535".as_bytes());
}

#[test]
fn splitting_lines() {
    let ls = split_lines("a\nbb\r\n\nc".as_bytes());
    let ls: Vec<String> = ls
        .into_iter()
        .map(|l| String::from_utf8(l).unwrap())
        .collect();
    assert_eq!(ls, vec!["a", "bb", "", "c"]);
    assert!(split_lines("".as_bytes()).is_empty());
    let tail = split_lines("a\n".as_bytes());
    assert_eq!(tail.len(), 1);
}

#[test]
fn finding_bytes() {
    assert_eq!(find_byte_exec("abc".as_bytes(), 99), Some(2));
    assert_eq!(find_byte_exec("abc".as_bytes(), 100), None);
}

#[test]
fn port_cell_publishes_once() {
    let mut p = ProxyPort::new();
    assert_eq!(p.current(), 0);
    p.publish(8080);
    assert_eq!(p.current(), 8080);
}

#[test]
fn resolver_best_effort() {
    let base = "https://cdn.example.com/live/master.m3u8".as_bytes();
    assert_eq!(
        resolve_url(base, "chunk1.ts".as_bytes()),
        "https://cdn.example.com/live/chunk1.ts".as_bytes()
    );
    assert_eq!(
        resolve_url(base, "/root.ts".as_bytes()),
        "https://cdn.example.com/root.ts".as_bytes()
    );
    assert_eq!(
        resolve_url(base, "http://plain.example.com/x".as_bytes()),
        "http://plain.example.com/x".as_bytes()
    );
    assert_eq!(
        resolve_url(base, "other.m3u8?tok=1".as_bytes()),
        "https://cdn.example.com/live/other.m3u8?tok=1".as_bytes()
    );
    assert_eq!(
        resolve_url("mailto:a@example.com".as_bytes(), "seg.ts".as_bytes()),
        "seg.ts".as_bytes()
    );
    assert_eq!(
        resolve_url("junk base".as_bytes(), "seg.ts".as_bytes()),
        "seg.ts".as_bytes()
    );
}
