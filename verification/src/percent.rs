//! Percent-encoding of resolved targets for embedding in a locator's `url`
//! query parameter, and the proof that decoding gives the target back.

use vstd::prelude::*;
use crate::bytes::{DIGIT_0, DIGIT_9, LOWER_A, LOWER_F, LOWER_Z, PERCENT_MARK, UPPER_A, UPPER_F, UPPER_Z};

verus! {

pub const DASH: u8 = 45;
pub const DOT: u8 = 46;
pub const UNDERSCORE: u8 = 95;
pub const TILDE: u8 = 126;

/// Bytes that percent-encoding leaves as they are: ASCII alphanumerics and
/// `-`, `.`, `_`, `~`.
pub open spec fn is_unreserved(b: u8) -> bool {
    (DIGIT_0 <= b <= DIGIT_9) || (UPPER_A <= b <= UPPER_Z) || (LOWER_A <= b <= LOWER_Z)
        || b == DASH || b == DOT || b == UNDERSCORE || b == TILDE
}

/// Uppercase hexadecimal digit for a value below 16.
pub open spec fn upper_hex_digit(n: u8) -> u8 {
    if n < 10 {
        (DIGIT_0 + n) as u8
    } else {
        (UPPER_A + (n - 10)) as u8
    }
}

/// How one byte is percent-encoded.
pub open spec fn enc_byte(b: u8) -> Seq<u8> {
    if is_unreserved(b) {
        seq![b]
    } else {
        seq![PERCENT_MARK, upper_hex_digit(b / 16), upper_hex_digit(b % 16)]
    }
}

/// Percent-encoding of a whole byte string.
pub open spec fn percent_encoding(s: Seq<u8>) -> Seq<u8>
    decreases s.len(),
{
    if s.len() == 0 {
        Seq::empty()
    } else {
        enc_byte(s[0]) + percent_encoding(s.drop_first())
    }
}

/// Value of one hexadecimal digit byte, either case.
pub open spec fn hex_value(b: u8) -> Option<u8> {
    if DIGIT_0 <= b <= DIGIT_9 {
        Some((b - DIGIT_0) as u8)
    } else if UPPER_A <= b <= UPPER_F {
        Some((b - UPPER_A + 10) as u8)
    } else if LOWER_A <= b <= LOWER_F {
        Some((b - LOWER_A + 10) as u8)
    } else {
        None
    }
}

/// Strict percent-decoding: every `%` must be followed by two hexadecimal
/// digits, all other bytes stand for themselves.
pub open spec fn percent_decoding(s: Seq<u8>) -> Option<Seq<u8>>
    decreases s.len(),
{
    if s.len() == 0 {
        Some(Seq::empty())
    } else if s[0] == PERCENT_MARK {
        if s.len() >= 3 {
            match (hex_value(s[1]), hex_value(s[2])) {
                (Some(h), Some(l)) => match percent_decoding(s.skip(3)) {
                    Some(r) => Some(seq![(h * 16 + l) as u8] + r),
                    None => None,
                },
                _ => None,
            }
        } else {
            None
        }
    } else {
        match percent_decoding(s.drop_first()) {
            Some(r) => Some(seq![s[0]] + r),
            None => None,
        }
    }
}

/// Relies on urlencoding::encode_binary: percent-encodes every byte except
/// ASCII alphanumerics and `-`, `.`, `_`, `~`, using uppercase hexadecimal
/// digits, and keeps the bytes in order.
#[verifier::external_body]
pub(crate) fn percent_encode(s: &[u8]) -> (r: Vec<u8>)
    ensures
        r@ == percent_encoding(s@),
{
    urlencoding::encode_binary(s).into_owned().into_bytes()
}

/// Decoding a percent-encoded string gives back exactly the bytes that were
/// encoded.
pub proof fn lemma_percent_round_trip(s: Seq<u8>)
    ensures
        percent_decoding(percent_encoding(s)) == Some(s),
    decreases s.len(),
{
    if s.len() == 0 {
        assert(percent_encoding(s) =~= Seq::<u8>::empty());
    } else {
        let b = s[0];
        let rest = s.drop_first();
        lemma_percent_round_trip(rest);
        let e = percent_encoding(s);
        if is_unreserved(b) {
            assert(b != PERCENT_MARK);
            assert(e.drop_first() =~= percent_encoding(rest));
            assert(seq![b] + rest =~= s);
        } else {
            let h = upper_hex_digit(b / 16);
            let l = upper_hex_digit(b % 16);
            assert(e.len() >= 3);
            assert(e[0] == PERCENT_MARK && e[1] == h && e[2] == l);
            assert(hex_value(h) == Some((b / 16) as u8));
            assert(hex_value(l) == Some((b % 16) as u8));
            assert(e.skip(3) =~= percent_encoding(rest));
            assert(b / 16 * 16 + b % 16 == b) by {
                vstd::arithmetic::div_mod::lemma_fundamental_div_mod(b as int, 16);
            }
            assert(seq![b] + rest =~= s);
        }
    }
}

/// Every byte of a percent-encoding is unreserved, a `%`, or an uppercase
/// hexadecimal digit; in particular no whitespace and no quote ever appears.
pub proof fn lemma_percent_encoding_bytes(s: Seq<u8>)
    ensures
        forall|i: int| 0 <= i < percent_encoding(s).len()
            ==> (#[trigger] percent_encoding(s)[i] == PERCENT_MARK
                || is_unreserved(percent_encoding(s)[i])),
    decreases s.len(),
{
    if s.len() > 0 {
        lemma_percent_encoding_bytes(s.drop_first());
        let e = enc_byte(s[0]);
        let rest = percent_encoding(s.drop_first());
        assert(percent_encoding(s) == e + rest);
        assert forall|i: int| 0 <= i < percent_encoding(s).len() implies
            (#[trigger] percent_encoding(s)[i] == PERCENT_MARK
                || is_unreserved(percent_encoding(s)[i])) by {
            if i < e.len() {
                assert(percent_encoding(s)[i] == e[i]);
                if !is_unreserved(s[0]) {
                    assert(s[0] / 16 < 16 && s[0] % 16 < 16);
                }
            } else {
                assert(percent_encoding(s)[i] == rest[i - e.len()]);
            }
        }
    }
}

} // verus!
