//! Resolution of a possibly-relative manifest reference against the base
//! URL of the manifest it came from. A reference that already carries an
//! `http://` or `https://` scheme is kept as it is; anything else is joined
//! onto the base; when the base cannot be parsed or the join fails, the
//! reference passes through unchanged.

use vstd::prelude::*;
use crate::bytes::{is_prefix, starts_with};

verus! {

/// Whether the url crate accepts this byte string as an absolute URL.
pub uninterp spec fn url_parses(s: Seq<u8>) -> bool;

/// The standard relative-reference resolution of `raw` against `base`
/// performed by the url crate, or nothing where the base does not parse or
/// the join fails.
pub uninterp spec fn url_resolution(base: Seq<u8>, raw: Seq<u8>) -> Option<Seq<u8>>;

/// Relies on url::Url::parse: whether a byte string is a well-formed
/// absolute URL depends on the bytes alone.
#[verifier::external_body]
pub(crate) fn base_parses(s: &[u8]) -> (r: bool)
    ensures
        r == url_parses(s@),
{
    match core::str::from_utf8(s) {
        Ok(t) => url::Url::parse(t).is_ok(),
        Err(_) => false,
    }
}

/// Relies on url::Url::parse and url::Url::join: RFC 3986 relative-reference
/// resolution (scheme, host and path inheritance, `.`/`..` normalization,
/// query replacement), a function of the two byte strings alone.
#[verifier::external_body]
fn join_url(base: &[u8], raw: &[u8]) -> (r: Option<Vec<u8>>)
    ensures
        match r {
            Some(v) => url_resolution(base@, raw@) == Some(v@),
            None => url_resolution(base@, raw@) is None,
        },
{
    let base_str = core::str::from_utf8(base).ok()?;
    let raw_str = core::str::from_utf8(raw).ok()?;
    let parsed = url::Url::parse(base_str).ok()?;
    let joined = parsed.join(raw_str).ok()?;
    Some(joined.to_string().into_bytes())
}

/// The bytes of `"http://"`.
pub open spec fn scheme_http() -> Seq<u8> {
    seq![104u8, 116, 116, 112, 58, 47, 47]
}

/// The bytes of `"https://"`.
pub open spec fn scheme_https() -> Seq<u8> {
    seq![104u8, 116, 116, 112, 115, 58, 47, 47]
}

/// A reference that already names its scheme and is left alone by resolution.
pub open spec fn is_absolute_ref(raw: Seq<u8>) -> bool {
    is_prefix(raw, scheme_http()) || is_prefix(raw, scheme_https())
}

/// What resolution returns: an absolute reference unchanged, the join of a
/// relative one onto the base, or, where parsing or joining fails, the
/// reference unchanged.
pub open spec fn resolution_of(base: Seq<u8>, raw: Seq<u8>) -> Seq<u8> {
    if is_absolute_ref(raw) {
        raw
    } else {
        match url_resolution(base, raw) {
            Some(v) => v,
            None => raw,
        }
    }
}

fn http_scheme_bytes() -> (r: Vec<u8>)
    ensures
        r@ == scheme_http(),
{
    let mut v: Vec<u8> = Vec::new();
    v.push(104);
    v.push(116);
    v.push(116);
    v.push(112);
    v.push(58);
    v.push(47);
    v.push(47);
    proof {
        assert(v@ =~= scheme_http());
    }
    v
}

fn https_scheme_bytes() -> (r: Vec<u8>)
    ensures
        r@ == scheme_https(),
{
    let mut v: Vec<u8> = Vec::new();
    v.push(104);
    v.push(116);
    v.push(116);
    v.push(112);
    v.push(115);
    v.push(58);
    v.push(47);
    v.push(47);
    proof {
        assert(v@ =~= scheme_https());
    }
    v
}

/// Resolve a possibly-relative reference against a base URL; best-effort,
/// never an error.
pub fn resolve_url(base: &[u8], raw: &[u8]) -> (r: Vec<u8>)
    ensures
        r@ == resolution_of(base@, raw@),
        is_absolute_ref(raw@) ==> r@ == raw@,
{
    let http = http_scheme_bytes();
    let https = https_scheme_bytes();
    if starts_with(raw, http.as_slice()) || starts_with(raw, https.as_slice()) {
        return vstd::slice::slice_to_vec(raw);
    }
    match join_url(base, raw) {
        Some(v) => v,
        None => vstd::slice::slice_to_vec(raw),
    }
}

} // verus!
