//! Classifying a proxied response as a rewritable manifest or as opaque
//! binary to stream through. The requested and the final (post-redirect)
//! URL are checked for playlist suffixes first; otherwise the declared
//! content type decides, case-insensitively.

use vstd::prelude::*;
use crate::bytes::{ascii_lower, contains_sub, ends_with, has_sub, is_suffix, to_ascii_lower};

verus! {

/// The bytes of `".m3u8"`.
pub open spec fn suffix_m3u8() -> Seq<u8> {
    seq![46u8, 109, 51, 117, 56]
}

/// The bytes of `".m3u8?"`.
pub open spec fn infix_m3u8_query() -> Seq<u8> {
    seq![46u8, 109, 51, 117, 56, 63]
}

/// The bytes of `".m3u"`.
pub open spec fn suffix_m3u() -> Seq<u8> {
    seq![46u8, 109, 51, 117]
}

/// The bytes of `"mpegurl"`.
pub open spec fn ct_mpegurl() -> Seq<u8> {
    seq![109u8, 112, 101, 103, 117, 114, 108]
}

/// The bytes of `"m3u"`.
pub open spec fn ct_m3u() -> Seq<u8> {
    seq![109u8, 51, 117]
}

/// A URL whose path marks it as a playlist manifest.
pub open spec fn url_marks_manifest(u: Seq<u8>) -> bool {
    is_suffix(u, suffix_m3u8()) || has_sub(u, infix_m3u8_query()) || is_suffix(u, suffix_m3u())
}

/// A content type that marks the body as a playlist manifest.
pub open spec fn content_type_marks_manifest(ct: Seq<u8>) -> bool {
    has_sub(ascii_lower(ct), ct_mpegurl()) || has_sub(ascii_lower(ct), ct_m3u())
}

/// Whether a response is a manifest to rewrite: a playlist suffix on the
/// requested or the final URL wins; else the content type decides; else the
/// body is opaque and streamed unmodified.
pub open spec fn manifest_detected(requested: Seq<u8>, final_url: Seq<u8>, content_type: Seq<u8>) -> bool {
    url_marks_manifest(requested) || url_marks_manifest(final_url)
        || content_type_marks_manifest(content_type)
}

fn suffix_m3u8_bytes() -> (r: Vec<u8>)
    ensures
        r@ == suffix_m3u8(),
{
    let mut v: Vec<u8> = Vec::new();
    v.push(46);
    v.push(109);
    v.push(51);
    v.push(117);
    v.push(56);
    proof {
        assert(v@ =~= suffix_m3u8());
    }
    v
}

fn infix_m3u8_query_bytes() -> (r: Vec<u8>)
    ensures
        r@ == infix_m3u8_query(),
{
    let mut v = suffix_m3u8_bytes();
    v.push(63);
    proof {
        assert(v@ =~= infix_m3u8_query());
    }
    v
}

fn suffix_m3u_bytes() -> (r: Vec<u8>)
    ensures
        r@ == suffix_m3u(),
{
    let mut v: Vec<u8> = Vec::new();
    v.push(46);
    v.push(109);
    v.push(51);
    v.push(117);
    proof {
        assert(v@ =~= suffix_m3u());
    }
    v
}

fn ct_mpegurl_bytes() -> (r: Vec<u8>)
    ensures
        r@ == ct_mpegurl(),
{
    let mut v: Vec<u8> = Vec::new();
    v.push(109);
    v.push(112);
    v.push(101);
    v.push(103);
    v.push(117);
    v.push(114);
    v.push(108);
    proof {
        assert(v@ =~= ct_mpegurl());
    }
    v
}

fn ct_m3u_bytes() -> (r: Vec<u8>)
    ensures
        r@ == ct_m3u(),
{
    let mut v: Vec<u8> = Vec::new();
    v.push(109);
    v.push(51);
    v.push(117);
    proof {
        assert(v@ =~= ct_m3u());
    }
    v
}

fn url_marks_manifest_exec(u: &[u8]) -> (r: bool)
    ensures
        r == url_marks_manifest(u@),
{
    let s8 = suffix_m3u8_bytes();
    if ends_with(u, s8.as_slice()) {
        return true;
    }
    let q8 = infix_m3u8_query_bytes();
    if contains_sub(u, q8.as_slice()) {
        return true;
    }
    let s = suffix_m3u_bytes();
    ends_with(u, s.as_slice())
}

/// Classify a response; `true` means manifest, to buffer and rewrite,
/// `false` means opaque, to stream through untouched.
pub fn detect_manifest(requested: &[u8], final_url: &[u8], content_type: &[u8]) -> (r: bool)
    ensures
        r == manifest_detected(requested@, final_url@, content_type@),
{
    if url_marks_manifest_exec(requested) {
        return true;
    }
    if url_marks_manifest_exec(final_url) {
        return true;
    }
    let lower = to_ascii_lower(content_type);
    let mp = ct_mpegurl_bytes();
    if contains_sub(lower.as_slice(), mp.as_slice()) {
        return true;
    }
    let m3 = ct_m3u_bytes();
    contains_sub(lower.as_slice(), m3.as_slice())
}

} // verus!
