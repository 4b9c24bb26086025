//! Decimal rendering of port and status numbers for locator strings and
//! diagnostic messages.

use vstd::prelude::*;
use crate::bytes::DIGIT_0;

verus! {

/// The usual decimal digit string of `n`, most significant digit first,
/// without leading zeros (`0` itself is rendered as one digit).
pub open spec fn dec_rep(n: nat) -> Seq<u8>
    decreases n,
{
    if n < 10 {
        seq![(DIGIT_0 + n) as u8]
    } else {
        dec_rep(n / 10) + seq![(DIGIT_0 + n % 10) as u8]
    }
}

/// Every byte of a decimal rendering is a digit.
pub proof fn lemma_dec_rep_digits(n: nat)
    ensures
        forall|i: int| 0 <= i < dec_rep(n).len()
            ==> DIGIT_0 <= #[trigger] dec_rep(n)[i] <= DIGIT_0 + 9,
    decreases n,
{
    if n >= 10 {
        lemma_dec_rep_digits(n / 10);
        let d = dec_rep(n);
        let head = dec_rep(n / 10);
        assert forall|i: int| 0 <= i < d.len() implies
            DIGIT_0 <= #[trigger] d[i] <= DIGIT_0 + 9 by {
            if i < head.len() {
                assert(d[i] == head[i]);
            } else {
                assert(d[i] == (DIGIT_0 + n % 10) as u8);
            }
        }
    }
}

pub fn u16_to_dec(n: u16) -> (r: Vec<u8>)
    ensures
        r@ == dec_rep(n as nat),
    decreases n,
{
    if n < 10 {
        let mut v: Vec<u8> = Vec::new();
        v.push(DIGIT_0 + (n as u8));
        proof {
            assert(v@ =~= dec_rep(n as nat));
        }
        v
    } else {
        let mut v = u16_to_dec(n / 10);
        v.push(DIGIT_0 + ((n % 10) as u8));
        proof {
            assert(v@ =~= dec_rep(n as nat));
        }
        v
    }
}

} // verus!
