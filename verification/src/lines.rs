//! Splitting manifest text into lines and joining rewritten lines back
//! together. Splitting follows the usual text-line convention: lines are
//! separated by `\n`, each line sheds one trailing `\r`, and a final
//! newline does not open an empty last line. Joined output uses a single
//! `\n` between lines.

use vstd::prelude::*;
use crate::bytes::{CARRIAGE, NEWLINE};

verus! {

/// One trailing carriage return removed.
pub open spec fn strip_cr(s: Seq<u8>) -> Seq<u8> {
    if s.len() > 0 && s[s.len() - 1] == CARRIAGE {
        s.drop_last()
    } else {
        s
    }
}

/// Index of the first `b` in `s`, if any.
pub open spec fn find_byte(s: Seq<u8>, b: u8) -> Option<int>
    decreases s.len(),
{
    if s.len() == 0 {
        None
    } else if s[0] == b {
        Some(0int)
    } else {
        match find_byte(s.drop_first(), b) {
            Some(i) => Some(i + 1),
            None => None,
        }
    }
}

pub proof fn lemma_find_byte(s: Seq<u8>, b: u8)
    ensures
        match find_byte(s, b) {
            Some(i) => 0 <= i < s.len() && s[i] == b && forall|j: int| 0 <= j < i ==> s[j] != b,
            None => forall|j: int| 0 <= j < s.len() ==> s[j] != b,
        },
    decreases s.len(),
{
    if s.len() == 0 {
    } else if s[0] == b {
    } else {
        let t = s.drop_first();
        lemma_find_byte(t, b);
        assert(forall|j: int| 0 <= j < t.len() ==> t[j] == s[j + 1]);
        match find_byte(t, b) {
            Some(i) => {
                assert(s[i + 1] == b);
                assert forall|j: int| 0 <= j < i + 1 implies s[j] != b by {
                    if j > 0 {
                        assert(t[j - 1] != b);
                    }
                }
            },
            None => {
                assert forall|j: int| 0 <= j < s.len() implies s[j] != b by {
                    if j > 0 {
                        assert(t[j - 1] != b);
                    }
                }
            },
        }
    }
}

pub fn find_byte_exec(s: &[u8], b: u8) -> (r: Option<usize>)
    ensures
        match r {
            Some(i) => Some(i as int) == find_byte(s@, b),
            None => find_byte(s@, b) is None,
        },
{
    let n: usize = s.len();
    let mut i: usize = 0;
    while i < n
        invariant
            0 <= i <= n,
            n == s@.len(),
            forall|j: int| 0 <= j < i ==> s@[j] != b,
        decreases n - i,
    {
        if s[i] == b {
            proof {
                lemma_find_byte(s@, b);
                match find_byte(s@, b) {
                    Some(k) => {
                        if k < i {
                            assert(s@[k] != b);
                        }
                        if k > i {
                            assert(s@[i as int] != b);
                        }
                    },
                    None => {
                        assert(s@[i as int] != b);
                    },
                }
            }
            return Some(i);
        }
        i = i + 1;
    }
    proof {
        lemma_find_byte(s@, b);
        match find_byte(s@, b) {
            Some(k) => {
                assert(s@[k] != b);
            },
            None => {},
        }
    }
    None
}

/// The lines of a byte string.
pub open spec fn line_split(s: Seq<u8>) -> Seq<Seq<u8>>
    decreases s.len(),
{
    if s.len() == 0 {
        Seq::empty()
    } else {
        match find_byte(s, NEWLINE) {
            None => seq![strip_cr(s)],
            Some(i) => {
                if 0 <= i < s.len() {
                    seq![strip_cr(s.take(i))] + line_split(s.skip(i + 1))
                } else {
                    Seq::empty()
                }
            },
        }
    }
}

/// Lines joined with a single newline between them.
pub open spec fn join_lines(xs: Seq<Seq<u8>>) -> Seq<u8>
    decreases xs.len(),
{
    if xs.len() == 0 {
        Seq::empty()
    } else if xs.len() == 1 {
        xs[0]
    } else {
        xs[0] + seq![NEWLINE] + join_lines(xs.drop_first())
    }
}

pub open spec fn no_newline(s: Seq<u8>) -> bool {
    forall|j: int| 0 <= j < s.len() ==> s[j] != NEWLINE
}

/// Splitting after a newline-free prefix and its separator starts with that
/// prefix as the first line.
pub proof fn lemma_line_split_step(a: Seq<u8>, rest: Seq<u8>)
    requires
        no_newline(a),
    ensures
        line_split(a + seq![NEWLINE] + rest) == seq![strip_cr(a)] + line_split(rest),
{
    let s = a + seq![NEWLINE] + rest;
    lemma_find_byte(s, NEWLINE);
    assert(s[a.len() as int] == NEWLINE);
    match find_byte(s, NEWLINE) {
        Some(i) => {
            assert(forall|j: int| 0 <= j < a.len() ==> s[j] == a[j] && s[j] != NEWLINE);
            assert(i == a.len());
            assert(s.take(i) =~= a);
            assert(s.skip(i + 1) =~= rest);
            assert(line_split(s) =~= seq![strip_cr(a)] + line_split(rest));
        },
        None => {
            assert(false);
        },
    }
}

pub proof fn lemma_no_newline_concat(a: Seq<u8>, b: Seq<u8>)
    requires
        no_newline(a),
        no_newline(b),
    ensures
        no_newline(a + b),
{
    assert forall|j: int| 0 <= j < (a + b).len() implies (a + b)[j] != NEWLINE by {
        if j < a.len() {
            assert((a + b)[j] == a[j]);
        } else {
            assert((a + b)[j] == b[j - a.len()]);
        }
    }
}

/// No line that splitting produces contains a newline.
pub proof fn lemma_line_split_no_newline(s: Seq<u8>)
    ensures
        forall|i: int| 0 <= i < line_split(s).len() ==> no_newline(#[trigger] line_split(s)[i]),
    decreases s.len(),
{
    if s.len() > 0 {
        lemma_find_byte(s, NEWLINE);
        match find_byte(s, NEWLINE) {
            None => {
                assert(no_newline(s));
                assert(no_newline(strip_cr(s)));
                assert(line_split(s) == seq![strip_cr(s)]);
                assert(line_split(s)[0] == strip_cr(s));
            },
            Some(i) => {
                lemma_line_split_no_newline(s.skip(i + 1));
                let head = s.take(i);
                assert(no_newline(head));
                assert(no_newline(strip_cr(head)));
                let rest = line_split(s.skip(i + 1));
                assert(line_split(s) == seq![strip_cr(head)] + rest);
                assert forall|k: int| 0 <= k < line_split(s).len() implies
                    no_newline(#[trigger] line_split(s)[k]) by {
                    if k == 0 {
                        assert(line_split(s)[0] == strip_cr(head));
                    } else {
                        assert(line_split(s)[k] == rest[k - 1]);
                    }
                }
            },
        }
    }
}

/// Splitting undoes joining, line for line, when no line holds a newline
/// and the last line is not empty: the line count comes back unchanged.
pub proof fn lemma_split_of_join_count(xs: Seq<Seq<u8>>)
    requires
        forall|i: int| 0 <= i < xs.len() ==> no_newline(#[trigger] xs[i]),
        xs.len() > 0 ==> xs.last().len() > 0,
    ensures
        line_split(join_lines(xs)).len() == xs.len(),
    decreases xs.len(),
{
    if xs.len() == 0 {
    } else if xs.len() == 1 {
        let l = xs[0];
        assert(join_lines(xs) == l);
        assert(l.len() > 0);
        lemma_find_byte(l, NEWLINE);
        match find_byte(l, NEWLINE) {
            Some(k) => {
                assert(l[k] == NEWLINE);
                assert(false);
            },
            None => {},
        }
        assert(line_split(l) == seq![strip_cr(l)]);
    } else {
        let rest = xs.drop_first();
        assert(forall|i: int| 0 <= i < rest.len() ==> #[trigger] rest[i] == xs[i + 1]);
        assert(rest.last() == xs.last());
        lemma_split_of_join_count(rest);
        lemma_line_split_step(xs[0], join_lines(rest));
        assert(join_lines(xs) == xs[0] + seq![NEWLINE] + join_lines(rest));
        assert(line_split(join_lines(xs))
            == seq![strip_cr(xs[0])] + line_split(join_lines(rest)));
    }
}

pub fn split_lines(s: &[u8]) -> (r: Vec<Vec<u8>>)
    ensures
        r.deep_view() == line_split(s@),
{
    let n: usize = s.len();
    let mut out: Vec<Vec<u8>> = Vec::new();
    let mut cur: Vec<u8> = Vec::new();
    let mut i: usize = 0;
    proof {
        assert(cur@ + s@.skip(0) =~= s@);
    }
    while i < n
        invariant
            0 <= i <= n,
            n == s@.len(),
            no_newline(cur@),
            line_split(s@) == out.deep_view() + line_split(cur@ + s@.skip(i as int)),
        decreases n - i,
    {
        let b: u8 = s[i];
        if b == NEWLINE {
            let ghost prev_cur = cur@;
            let ghost rest = s@.skip(i as int + 1);
            proof {
                lemma_line_split_step(prev_cur, rest);
                assert(prev_cur + seq![NEWLINE] + rest =~= prev_cur + s@.skip(i as int));
            }
            let mut done = cur;
            if done.len() > 0 && done[done.len() - 1] == CARRIAGE {
                done.pop();
            }
            proof {
                assert(done@ =~= strip_cr(prev_cur));
            }
            let ghost old_out = out.deep_view();
            out.push(done);
            cur = Vec::new();
            proof {
                assert(out.deep_view() =~~= old_out.push(strip_cr(prev_cur)));
                assert(cur@ + rest =~= rest);
                assert(out.deep_view() + line_split(rest)
                    =~~= old_out + (seq![strip_cr(prev_cur)] + line_split(rest)));
            }
        } else {
            let ghost prev = cur@;
            cur.push(b);
            proof {
                assert(cur@ + s@.skip(i as int + 1) =~= prev + s@.skip(i as int));
            }
        }
        i = i + 1;
    }
    proof {
        assert(cur@ + s@.skip(n as int) =~= cur@);
    }
    if cur.len() > 0 {
        let last_idx: usize = cur.len() - 1;
        let ghost pre = cur@;
        if cur[last_idx] == CARRIAGE {
            cur.pop();
        }
        proof {
            assert(cur@ =~= strip_cr(pre));
            lemma_find_byte(pre, NEWLINE);
            match find_byte(pre, NEWLINE) {
                Some(k) => {
                    assert(pre[k] == NEWLINE);
                    assert(false);
                },
                None => {},
            }
            assert(line_split(pre) =~= seq![strip_cr(pre)]);
        }
        let ghost old_out = out.deep_view();
        out.push(cur);
        proof {
            assert(out.deep_view() =~~= old_out + seq![strip_cr(pre)]);
        }
        out
    } else {
        proof {
            assert(line_split(cur@) =~= Seq::<Seq<u8>>::empty());
            assert(out.deep_view() =~= out.deep_view() + Seq::<Seq<u8>>::empty());
        }
        out
    }
}

/// Append the joined lines to `out`.
pub fn join_into(out: &mut Vec<u8>, xs: &Vec<Vec<u8>>)
    ensures
        final(out)@ == old(out)@ + join_lines(xs.deep_view()),
{
    let n: usize = xs.len();
    let mut i: usize = 0;
    proof {
        assert(xs.deep_view().len() == n);
    }
    while i < n
        invariant
            0 <= i <= n,
            n == xs.deep_view().len(),
            n == xs@.len(),
            i == 0 ==> out@ == old(out)@,
            i > 0 ==> out@ == old(out)@ + join_lines(xs.deep_view().take(i as int))
                + if i < n { seq![NEWLINE] } else { Seq::<u8>::empty() },
        decreases n - i,
    {
        let ghost before = out@;
        out.extend_from_slice(xs[i].as_slice());
        proof {
            assert(xs[i as int]@ =~= xs.deep_view()[i as int]);
            lemma_join_take(xs.deep_view(), i as int + 1);
        }
        if i + 1 < n {
            out.push(NEWLINE);
        }
        i = i + 1;
    }
    proof {
        if n > 0 {
            assert(xs.deep_view().take(n as int) =~= xs.deep_view());
        } else {
            assert(join_lines(xs.deep_view()) =~= Seq::<u8>::empty());
            assert(out@ =~= old(out)@ + join_lines(xs.deep_view()));
        }
    }
}

/// Unrolling `join_lines` one line at a time from the front.
pub proof fn lemma_join_take(xs: Seq<Seq<u8>>, i: int)
    requires
        0 < i <= xs.len(),
    ensures
        i == 1 ==> join_lines(xs.take(i)) == xs[0],
        i > 1 ==> join_lines(xs.take(i))
            == join_lines(xs.take(i - 1)) + seq![NEWLINE] + xs[i - 1],
    decreases i,
{
    if i == 1 {
        assert(xs.take(1).len() == 1);
        assert(join_lines(xs.take(1)) == xs.take(1)[0]);
    } else {
        lemma_join_push(xs.take(i - 1), xs[i - 1]);
        assert(xs.take(i - 1).push(xs[i - 1]) =~= xs.take(i));
    }
}

/// Joining after appending one more line.
pub proof fn lemma_join_push(ys: Seq<Seq<u8>>, y: Seq<u8>)
    requires
        ys.len() > 0,
    ensures
        join_lines(ys.push(y)) == join_lines(ys) + seq![NEWLINE] + y,
    decreases ys.len(),
{
    if ys.len() == 1 {
        let zs = ys.push(y);
        assert(zs.len() == 2);
        assert(zs.drop_first() =~= seq![y]);
        assert(join_lines(zs.drop_first()) == y);
        assert(join_lines(zs) == zs[0] + seq![NEWLINE] + y);
        assert(join_lines(ys) == ys[0]);
        assert(zs[0] == ys[0]);
    } else {
        lemma_join_push(ys.drop_first(), y);
        let zs = ys.push(y);
        assert(zs.drop_first() =~= ys.drop_first().push(y));
        assert(join_lines(zs) == zs[0] + seq![NEWLINE] + join_lines(zs.drop_first()));
        assert(zs[0] == ys[0]);
        assert(join_lines(ys) + seq![NEWLINE] + y
            =~= ys[0] + seq![NEWLINE] + (join_lines(ys.drop_first()) + seq![NEWLINE] + y));
    }
}

} // verus!
