//! Planning the HTTP response for one proxied request, and the diagnostic
//! messages of the fetch helper. Every reply carries the permissive
//! cross-origin header; a successful reply mirrors the upstream status and
//! content type and either holds rewritten manifest text or marks the body
//! as a pass-through stream.

use vstd::prelude::*;
use crate::bytes::SPACE;
use crate::numfmt::{dec_rep, u16_to_dec};
use crate::rewrite::{rewrite_manifest, rewrite_manifest_spec};

verus! {

pub const BAD_GATEWAY: u16 = 502;

/// A success status in the HTTP sense.
pub open spec fn is_success_status(code: u16) -> bool {
    200 <= code < 300
}

pub fn status_is_success(code: u16) -> (r: bool)
    ensures
        r == is_success_status(code),
{
    200 <= code && code < 300
}

/// How the body of a planned reply is carried: rewritten manifest text held
/// in memory, or an upstream byte stream forwarded chunk by chunk without
/// whole-body buffering.
pub enum ReplyBody {
    Buffered(Vec<u8>),
    Streamed,
}

/// One planned HTTP reply: status, mirrored content type, which cross-origin
/// headers to attach, and the body.
pub struct ProxyReply {
    pub status: u16,
    pub content_type: Option<Vec<u8>>,
    pub allow_origin: bool,
    pub allow_methods_and_headers: bool,
    pub body: ReplyBody,
}

/// The bytes of `"Proxy error: "`.
pub open spec fn proxy_error_prefix() -> Seq<u8> {
    seq![80u8, 114, 111, 120, 121, 32, 101, 114, 114, 111, 114, 58, 32]
}

/// The bytes of `"Failed to read response: "`.
pub open spec fn read_error_prefix() -> Seq<u8> {
    seq![70u8, 97, 105, 108, 101, 100, 32, 116, 111, 32, 114, 101, 97, 100, 32, 114, 101, 115, 112, 111, 110, 115, 101, 58, 32]
}

/// The bytes of `"Network error: "`.
pub open spec fn network_error_prefix() -> Seq<u8> {
    seq![78u8, 101, 116, 119, 111, 114, 107, 32, 101, 114, 114, 111, 114, 58, 32]
}

/// The bytes of `"Failed to fetch: "`.
pub open spec fn fetch_failure_prefix() -> Seq<u8> {
    seq![70u8, 97, 105, 108, 101, 100, 32, 116, 111, 32, 102, 101, 116, 99, 104, 58, 32]
}

fn proxy_error_prefix_bytes() -> (r: Vec<u8>)
    ensures
        r@ == proxy_error_prefix(),
{
    let mut v: Vec<u8> = Vec::new();
    v.push(80);
    v.push(114);
    v.push(111);
    v.push(120);
    v.push(121);
    v.push(32);
    v.push(101);
    v.push(114);
    v.push(114);
    v.push(111);
    v.push(114);
    v.push(58);
    v.push(32);
    proof {
        assert(v@ =~= proxy_error_prefix());
    }
    v
}

fn read_error_prefix_bytes() -> (r: Vec<u8>)
    ensures
        r@ == read_error_prefix(),
{
    let mut v: Vec<u8> = Vec::new();
    v.push(70);
    v.push(97);
    v.push(105);
    v.push(108);
    v.push(101);
    v.push(100);
    v.push(32);
    v.push(116);
    v.push(111);
    v.push(32);
    v.push(114);
    v.push(101);
    v.push(97);
    v.push(100);
    v.push(32);
    v.push(114);
    v.push(101);
    v.push(115);
    v.push(112);
    v.push(111);
    v.push(110);
    v.push(115);
    v.push(101);
    v.push(58);
    v.push(32);
    proof {
        assert(v@ =~= read_error_prefix());
    }
    v
}

fn network_error_prefix_bytes() -> (r: Vec<u8>)
    ensures
        r@ == network_error_prefix(),
{
    let mut v: Vec<u8> = Vec::new();
    v.push(78);
    v.push(101);
    v.push(116);
    v.push(119);
    v.push(111);
    v.push(114);
    v.push(107);
    v.push(32);
    v.push(101);
    v.push(114);
    v.push(114);
    v.push(111);
    v.push(114);
    v.push(58);
    v.push(32);
    proof {
        assert(v@ =~= network_error_prefix());
    }
    v
}

fn fetch_failure_prefix_bytes() -> (r: Vec<u8>)
    ensures
        r@ == fetch_failure_prefix(),
{
    let mut v: Vec<u8> = Vec::new();
    v.push(70);
    v.push(97);
    v.push(105);
    v.push(108);
    v.push(101);
    v.push(100);
    v.push(32);
    v.push(116);
    v.push(111);
    v.push(32);
    v.push(102);
    v.push(101);
    v.push(116);
    v.push(99);
    v.push(104);
    v.push(58);
    v.push(32);
    proof {
        assert(v@ =~= fetch_failure_prefix());
    }
    v
}

/// The `"Network error: <detail>"` message of a failed direct fetch.
pub fn network_error_message(detail: &[u8]) -> (r: Vec<u8>)
    ensures
        r@ == network_error_prefix() + detail@,
        r@.len() > 0,
{
    let mut v = network_error_prefix_bytes();
    v.extend_from_slice(detail);
    v
}

/// The `"Failed to fetch: <status> <reason>"` message of a non-success
/// upstream status.
pub fn fetch_failure_message(code: u16, reason: &[u8]) -> (r: Vec<u8>)
    ensures
        r@ == fetch_failure_prefix() + dec_rep(code as nat) + seq![SPACE] + reason@,
        r@.len() > 0,
{
    let mut v = fetch_failure_prefix_bytes();
    let digits = u16_to_dec(code);
    v.extend_from_slice(digits.as_slice());
    v.push(SPACE);
    v.extend_from_slice(reason);
    v
}

/// The gateway-error reply for a failed outbound fetch: bad-gateway status,
/// the cross-origin allow header, and a non-empty diagnostic body.
pub fn fetch_error_reply(detail: &[u8]) -> (r: ProxyReply)
    ensures
        r.status == BAD_GATEWAY,
        r.content_type is None,
        r.allow_origin,
        !r.allow_methods_and_headers,
        (r.body matches ReplyBody::Buffered(b) && b@ == proxy_error_prefix() + detail@),
        (r.body matches ReplyBody::Buffered(b) ==> b@.len() > 0),
{
    let mut msg = proxy_error_prefix_bytes();
    msg.extend_from_slice(detail);
    ProxyReply {
        status: BAD_GATEWAY,
        content_type: None,
        allow_origin: true,
        allow_methods_and_headers: false,
        body: ReplyBody::Buffered(msg),
    }
}

/// The gateway-error reply for a manifest body that could not be read.
pub fn read_error_reply(detail: &[u8]) -> (r: ProxyReply)
    ensures
        r.status == BAD_GATEWAY,
        r.content_type is None,
        r.allow_origin,
        !r.allow_methods_and_headers,
        (r.body matches ReplyBody::Buffered(b) && b@ == read_error_prefix() + detail@),
        (r.body matches ReplyBody::Buffered(b) ==> b@.len() > 0),
{
    let mut msg = read_error_prefix_bytes();
    msg.extend_from_slice(detail);
    ProxyReply {
        status: BAD_GATEWAY,
        content_type: None,
        allow_origin: true,
        allow_methods_and_headers: false,
        body: ReplyBody::Buffered(msg),
    }
}

/// The reply for a response classified as a manifest: upstream status and
/// content type kept, full cross-origin headers, and the rewritten text as
/// the body.
pub fn manifest_reply(status: u16, content_type: &[u8], content: &[u8], final_url: &[u8], port: u16) -> (r: ProxyReply)
    ensures
        r.status == status,
        (r.content_type matches Some(c) && c@ == content_type@),
        r.allow_origin,
        r.allow_methods_and_headers,
        (r.body matches ReplyBody::Buffered(b)
            && b@ == rewrite_manifest_spec(content@, final_url@, port)),
{
    let rewritten = rewrite_manifest(content, final_url, port);
    ProxyReply {
        status,
        content_type: Some(vstd::slice::slice_to_vec(content_type)),
        allow_origin: true,
        allow_methods_and_headers: true,
        body: ReplyBody::Buffered(rewritten),
    }
}

/// The reply for an opaque response: upstream status and content type kept,
/// full cross-origin headers, body streamed through without buffering.
pub fn stream_reply(status: u16, content_type: &[u8]) -> (r: ProxyReply)
    ensures
        r.status == status,
        (r.content_type matches Some(c) && c@ == content_type@),
        r.allow_origin,
        r.allow_methods_and_headers,
        r.body is Streamed,
{
    ProxyReply {
        status,
        content_type: Some(vstd::slice::slice_to_vec(content_type)),
        allow_origin: true,
        allow_methods_and_headers: true,
        body: ReplyBody::Streamed,
    }
}

} // verus!
