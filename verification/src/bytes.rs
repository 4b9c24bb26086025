//! Byte-sequence tools shared by the manifest rewriter and detector:
//! whitespace trimming, prefix/suffix tests, substring search, and
//! ASCII lowercasing.

use vstd::prelude::*;

verus! {

/// Byte values the code spells out by name.
pub const NEWLINE: u8 = 10;
pub const CARRIAGE: u8 = 13;
pub const SPACE: u8 = 32;
pub const TAB: u8 = 9;
pub const VTAB: u8 = 11;
pub const FORMFEED: u8 = 12;
pub const HASH_MARK: u8 = 35;
pub const QUOTE_MARK: u8 = 34;
pub const PERCENT_MARK: u8 = 37;
pub const UPPER_A: u8 = 65;
pub const UPPER_F: u8 = 70;
pub const UPPER_Z: u8 = 90;
pub const LOWER_A: u8 = 97;
pub const LOWER_F: u8 = 102;
pub const LOWER_Z: u8 = 122;
pub const DIGIT_0: u8 = 48;
pub const DIGIT_9: u8 = 57;

/// The ASCII whitespace bytes that line trimming removes.
pub open spec fn is_ascii_ws(b: u8) -> bool {
    b == SPACE || b == TAB || b == NEWLINE || b == CARRIAGE || b == VTAB || b == FORMFEED
}

fn byte_is_ws(b: u8) -> (r: bool)
    ensures
        r == is_ascii_ws(b),
{
    b == SPACE || b == TAB || b == NEWLINE || b == CARRIAGE || b == VTAB || b == FORMFEED
}

pub open spec fn trim_front(s: Seq<u8>) -> Seq<u8>
    decreases s.len(),
{
    if s.len() > 0 && is_ascii_ws(s[0]) {
        trim_front(s.drop_first())
    } else {
        s
    }
}

pub open spec fn trim_back(s: Seq<u8>) -> Seq<u8>
    decreases s.len(),
{
    if s.len() > 0 && is_ascii_ws(s[s.len() - 1]) {
        trim_back(s.drop_last())
    } else {
        s
    }
}

/// A line with its leading and trailing ASCII whitespace removed.
pub open spec fn trimmed(s: Seq<u8>) -> Seq<u8> {
    trim_back(trim_front(s))
}

pub fn trim_bytes(s: &[u8]) -> (r: Vec<u8>)
    ensures
        r@ == trimmed(s@),
{
    let n: usize = s.len();
    proof {
        assert(s@.skip(0) =~= s@);
    }
    let mut lo: usize = 0;
    while lo < n && byte_is_ws(s[lo])
        invariant
            0 <= lo <= n,
            n == s@.len(),
            trim_front(s@) == trim_front(s@.skip(lo as int)),
        decreases n - lo,
    {
        proof {
            assert(s@.skip(lo as int).drop_first() =~= s@.skip(lo as int + 1));
        }
        lo = lo + 1;
    }
    proof {
        if lo < n {
            assert(trim_front(s@.skip(lo as int)) == s@.skip(lo as int));
        } else {
            assert(s@.skip(lo as int) =~= Seq::<u8>::empty());
        }
        assert(trim_front(s@) == s@.skip(lo as int));
    }
    proof {
        assert(s@.subrange(lo as int, n as int) =~= s@.skip(lo as int));
    }
    let mut hi: usize = n;
    while hi > lo && byte_is_ws(s[hi - 1])
        invariant
            lo <= hi <= n,
            n == s@.len(),
            trim_front(s@) == s@.skip(lo as int),
            trim_back(s@.skip(lo as int)) == trim_back(s@.subrange(lo as int, hi as int)),
        decreases hi,
    {
        proof {
            let t = s@.subrange(lo as int, hi as int);
            assert(t[t.len() - 1] == s@[hi as int - 1]);
            assert(t.drop_last() =~= s@.subrange(lo as int, hi as int - 1));
        }
        hi = hi - 1;
    }
    proof {
        let t = s@.subrange(lo as int, hi as int);
        if hi > lo {
            assert(t[t.len() - 1] == s@[hi as int - 1]);
            assert(trim_back(t) == t);
        } else {
            assert(t =~= Seq::<u8>::empty());
        }
        assert(trimmed(s@) == s@.subrange(lo as int, hi as int));
    }
    let part: &[u8] = &s[lo..hi];
    vstd::slice::slice_to_vec(part)
}

/// `p` occurs in `s` starting at index `i`.
pub open spec fn match_at(s: Seq<u8>, p: Seq<u8>, i: int) -> bool {
    0 <= i && i + p.len() <= s.len() && s.subrange(i, i + p.len()) == p
}

pub open spec fn is_prefix(s: Seq<u8>, p: Seq<u8>) -> bool {
    p.len() <= s.len() && s.subrange(0, p.len() as int) == p
}

pub open spec fn is_suffix(s: Seq<u8>, p: Seq<u8>) -> bool {
    p.len() <= s.len() && s.subrange(s.len() - p.len(), s.len() as int) == p
}

fn match_at_exec(s: &[u8], p: &[u8], i: usize) -> (r: bool)
    requires
        i + p@.len() <= s@.len(),
    ensures
        r == match_at(s@, p@, i as int),
{
    let m: usize = p.len();
    let n: usize = s.len();
    let mut j: usize = 0;
    while j < m
        invariant
            0 <= j <= m,
            m == p@.len(),
            n == s@.len(),
            i + m <= n,
            forall|k: int| 0 <= k < j ==> s@[i + k] == p@[k],
        decreases m - j,
    {
        if s[i + j] != p[j] {
            proof {
                assert(s@.subrange(i as int, i + p@.len())[j as int] != p@[j as int]);
            }
            return false;
        }
        j = j + 1;
    }
    proof {
        assert(s@.subrange(i as int, i + p@.len()) =~= p@);
    }
    true
}

pub fn starts_with(s: &[u8], p: &[u8]) -> (r: bool)
    ensures
        r == is_prefix(s@, p@),
{
    if p.len() > s.len() {
        return false;
    }
    match_at_exec(s, p, 0)
}

pub fn ends_with(s: &[u8], p: &[u8]) -> (r: bool)
    ensures
        r == is_suffix(s@, p@),
{
    if p.len() > s.len() {
        return false;
    }
    match_at_exec(s, p, s.len() - p.len())
}

/// Index of the first occurrence of `p` in `s`, if any.
pub open spec fn find_sub(s: Seq<u8>, p: Seq<u8>) -> Option<int>
    decreases s.len(),
{
    if p.len() > s.len() {
        None
    } else if match_at(s, p, 0) {
        Some(0int)
    } else if s.len() == 0 {
        None
    } else {
        match find_sub(s.drop_first(), p) {
            Some(i) => Some(i + 1),
            None => None,
        }
    }
}

pub open spec fn has_sub(s: Seq<u8>, p: Seq<u8>) -> bool {
    find_sub(s, p) is Some
}

/// What `find_sub` returns: the first match position, or no match at all.
pub proof fn lemma_find_sub(s: Seq<u8>, p: Seq<u8>)
    ensures
        match find_sub(s, p) {
            Some(i) => match_at(s, p, i) && forall|j: int| 0 <= j < i ==> !match_at(s, p, j),
            None => forall|j: int| !match_at(s, p, j),
        },
    decreases s.len(),
{
    if p.len() > s.len() {
        assert(forall|j: int| !match_at(s, p, j));
    } else if match_at(s, p, 0) {
    } else if s.len() == 0 {
        assert(!match_at(s, p, 0));
    } else {
        lemma_find_sub(s.drop_first(), p);
        let t = s.drop_first();
        assert forall|j: int| 0 <= j && j + p.len() <= t.len() implies
            (match_at(t, p, j) <==> match_at(s, p, j + 1)) by {
            assert(t.subrange(j, j + p.len()) =~= s.subrange(j + 1, j + 1 + p.len()));
        }
        match find_sub(t, p) {
            Some(i) => {
                assert(match_at(s, p, i + 1));
                assert forall|j: int| 0 <= j < i + 1 implies !match_at(s, p, j) by {
                    if j > 0 {
                        assert(!match_at(t, p, j - 1));
                    }
                }
            },
            None => {
                assert forall|j: int| !match_at(s, p, j) by {
                    if j > 0 {
                        assert(!match_at(t, p, j - 1));
                    }
                }
            },
        }
    }
}

pub fn find_sub_exec(s: &[u8], p: &[u8]) -> (r: Option<usize>)
    ensures
        match r {
            Some(i) => Some(i as int) == find_sub(s@, p@),
            None => find_sub(s@, p@) is None,
        },
{
    proof {
        lemma_find_sub(s@, p@);
    }
    if p.len() > s.len() {
        return None;
    }
    if p.len() == 0 {
        proof {
            assert(s@.subrange(0, 0) =~= p@);
        }
        return Some(0);
    }
    let n: usize = s.len();
    let stop: usize = n - p.len();
    let mut i: usize = 0;
    while i <= stop
        invariant
            0 <= i <= stop + 1,
            n == s@.len(),
            stop == s@.len() - p@.len(),
            0 < p@.len() <= s@.len(),
            forall|j: int| 0 <= j < i ==> !match_at(s@, p@, j),
        decreases stop + 1 - i,
    {
        if match_at_exec(s, p, i) {
            proof {
                lemma_find_sub(s@, p@);
                match find_sub(s@, p@) {
                    Some(k) => {
                        assert(!(k < i));
                        assert(!(k > i));
                    },
                    None => {
                        assert(!match_at(s@, p@, i as int));
                    },
                }
            }
            return Some(i);
        }
        i = i + 1;
    }
    proof {
        lemma_find_sub(s@, p@);
        match find_sub(s@, p@) {
            Some(k) => {
                assert(match_at(s@, p@, k));
                assert(!(k <= stop));
            },
            None => {},
        }
    }
    None
}

pub fn contains_sub(s: &[u8], p: &[u8]) -> (r: bool)
    ensures
        r == has_sub(s@, p@),
{
    find_sub_exec(s, p).is_some()
}

/// ASCII lowercase of one byte.
pub open spec fn lower_byte(b: u8) -> u8 {
    if UPPER_A <= b <= UPPER_Z {
        (b + 32) as u8
    } else {
        b
    }
}

/// ASCII lowercase of a byte string, other bytes untouched.
pub open spec fn ascii_lower(s: Seq<u8>) -> Seq<u8> {
    s.map_values(|b: u8| lower_byte(b))
}

pub fn to_ascii_lower(s: &[u8]) -> (r: Vec<u8>)
    ensures
        r@ == ascii_lower(s@),
{
    let mut out: Vec<u8> = Vec::new();
    let n: usize = s.len();
    let mut i: usize = 0;
    while i < n
        invariant
            0 <= i <= n,
            n == s@.len(),
            out@ == ascii_lower(s@.take(i as int)),
        decreases n - i,
    {
        let b: u8 = s[i];
        if UPPER_A <= b && b <= UPPER_Z {
            out.push(b + 32);
        } else {
            out.push(b);
        }
        proof {
            assert(s@.take(i as int + 1).map_values(|x: u8| lower_byte(x))
                =~= s@.take(i as int).map_values(|x: u8| lower_byte(x)).push(lower_byte(s@[i as int])));
        }
        i = i + 1;
    }
    proof {
        assert(s@.take(n as int) =~= s@);
    }
    out
}

} // verus!
