//! Building the locator that replaces a manifest reference: a URL on the
//! local proxy that carries the original absolute target, percent-encoded,
//! as its `url` query parameter.

use vstd::prelude::*;
use crate::numfmt::{dec_rep, u16_to_dec};
use crate::lines::no_newline;
use crate::percent::{percent_decoding, percent_encode, percent_encoding, lemma_percent_round_trip};

verus! {

/// The bytes of `"http://127.0.0.1:"`.
pub open spec fn http_head() -> Seq<u8> {
    seq![104u8, 116, 116, 112, 58, 47, 47, 49, 50, 55, 46, 48, 46, 48, 46, 49, 58]
}

/// The bytes of `"/proxy?url="`.
pub open spec fn proxy_path() -> Seq<u8> {
    seq![47u8, 112, 114, 111, 120, 121, 63, 117, 114, 108, 61]
}

/// Everything of a locator before the encoded target.
pub open spec fn locator_prefix(port: u16) -> Seq<u8> {
    http_head() + dec_rep(port as nat) + proxy_path()
}

/// The locator built for `target`: `http://127.0.0.1:<port>/proxy?url=<enc>`.
pub open spec fn locator_of(port: u16, target: Seq<u8>) -> Seq<u8> {
    locator_prefix(port) + percent_encoding(target)
}

fn http_head_bytes() -> (r: Vec<u8>)
    ensures
        r@ == http_head(),
{
    let mut v: Vec<u8> = Vec::new();
    v.push(104);
    v.push(116);
    v.push(116);
    v.push(112);
    v.push(58);
    v.push(47);
    v.push(47);
    v.push(49);
    v.push(50);
    v.push(55);
    v.push(46);
    v.push(48);
    v.push(46);
    v.push(48);
    v.push(46);
    v.push(49);
    v.push(58);
    proof {
        assert(v@ =~= http_head());
    }
    v
}

fn proxy_path_bytes() -> (r: Vec<u8>)
    ensures
        r@ == proxy_path(),
{
    let mut v: Vec<u8> = Vec::new();
    v.push(47);
    v.push(112);
    v.push(114);
    v.push(111);
    v.push(120);
    v.push(121);
    v.push(63);
    v.push(117);
    v.push(114);
    v.push(108);
    v.push(61);
    proof {
        assert(v@ =~= proxy_path());
    }
    v
}

/// Build the locator for an absolute target URL.
pub fn proxy_locator(port: u16, target: &[u8]) -> (r: Vec<u8>)
    ensures
        r@ == locator_of(port, target@),
{
    let mut out = http_head_bytes();
    let digits = u16_to_dec(port);
    out.extend_from_slice(digits.as_slice());
    let path = proxy_path_bytes();
    out.extend_from_slice(path.as_slice());
    let enc = percent_encode(target);
    out.extend_from_slice(enc.as_slice());
    proof {
        assert(out@ =~= locator_of(port, target@));
    }
    out
}

/// A locator is never empty and never contains a newline, whatever its
/// target: its fixed parts are newline-free and so is any percent-encoding.
pub proof fn lemma_locator_line_shape(port: u16, target: Seq<u8>)
    ensures
        no_newline(locator_of(port, target)),
        locator_of(port, target).len() > 0,
{
    let l = locator_of(port, target);
    crate::numfmt::lemma_dec_rep_digits(port as nat);
    crate::percent::lemma_percent_encoding_bytes(target);
    assert forall|j: int| 0 <= j < l.len() implies l[j] != crate::bytes::NEWLINE by {
        let a = http_head();
        let b = dec_rep(port as nat);
        let c = proxy_path();
        let d = percent_encoding(target);
        assert(l == a + b + c + d);
        if j < a.len() {
            assert(l[j] == a[j]);
        } else if j < a.len() + b.len() {
            assert(l[j] == b[j - a.len()]);
        } else if j < a.len() + b.len() + c.len() {
            assert(l[j] == c[j - a.len() - b.len()]);
        } else {
            assert(l[j] == d[j - a.len() - b.len() - c.len()]);
        }
    }
}

/// Round trip: past the fixed prefix, a locator holds exactly the
/// percent-encoding of its target, and decoding that part gives the target
/// back unchanged.
pub proof fn lemma_locator_round_trip(port: u16, target: Seq<u8>)
    ensures
        locator_of(port, target).skip(locator_prefix(port).len() as int) == percent_encoding(target),
        percent_decoding(locator_of(port, target).skip(locator_prefix(port).len() as int))
            == Some(target),
{
    assert(locator_of(port, target).skip(locator_prefix(port).len() as int)
        =~= percent_encoding(target));
    lemma_percent_round_trip(target);
}

} // verus!
