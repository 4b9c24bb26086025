//! The manifest rewriter. Each line of a playlist manifest is rewritten
//! independently: a blank or directive line keeps every byte, except that a
//! first quoted `URI="..."` attribute value is replaced by a locator; any
//! other line is one reference, resolved against the manifest's base URL and
//! replaced whole by its locator. A base URL that does not parse leaves the
//! whole manifest untouched.

use vstd::prelude::*;
use crate::bytes::{HASH_MARK, NEWLINE, QUOTE_MARK, find_sub, find_sub_exec, has_sub, lemma_find_sub, match_at, trim_bytes, trimmed};
use crate::lines::{find_byte, find_byte_exec, join_into, join_lines, lemma_find_byte, lemma_line_split_no_newline, lemma_no_newline_concat, lemma_split_of_join_count, line_split, no_newline, split_lines};
use crate::locator::{lemma_locator_line_shape, lemma_locator_round_trip, locator_of, locator_prefix, proxy_locator};
use crate::percent::percent_decoding;
use crate::resolve::{base_parses, is_absolute_ref, resolution_of, resolve_url, url_parses};

verus! {

/// The bytes of `URI="`.
pub open spec fn uri_attr() -> Seq<u8> {
    seq![85u8, 82, 73, 61, 34]
}

/// A line whose trimmed form is empty or starts with the `#` marker.
pub open spec fn is_directive_or_blank(line: Seq<u8>) -> bool {
    trimmed(line).len() == 0 || trimmed(line)[0] == HASH_MARK
}

/// Rewriting of a directive line around its first `URI="..."` attribute:
/// the quoted value is resolved and replaced by its locator, every byte
/// before the attribute and after the closing quote stays. Without a
/// closing quote the line stays whole.
pub open spec fn rewrite_attr_line(line: Seq<u8>, base: Seq<u8>, port: u16) -> Seq<u8> {
    match find_sub(line, uri_attr()) {
        Some(st) => {
            let vstart = st + uri_attr().len();
            match find_byte(line.skip(vstart), QUOTE_MARK) {
                Some(e) => {
                    let uri = line.subrange(vstart, vstart + e);
                    line.subrange(0, st) + uri_attr()
                        + locator_of(port, resolution_of(base, uri))
                        + seq![QUOTE_MARK] + line.skip(vstart + e + 1)
                },
                None => line,
            }
        },
        None => line,
    }
}

/// How one manifest line is rewritten.
pub open spec fn rewrite_line_spec(line: Seq<u8>, base: Seq<u8>, port: u16) -> Seq<u8> {
    if is_directive_or_blank(line) {
        if has_sub(line, uri_attr()) {
            rewrite_attr_line(line, base, port)
        } else {
            line
        }
    } else {
        locator_of(port, resolution_of(base, trimmed(line)))
    }
}

/// How a whole manifest is rewritten: line by line, in order, joined with
/// single newlines; or byte-for-byte unchanged when the base URL does not
/// parse.
pub open spec fn rewrite_manifest_spec(content: Seq<u8>, base: Seq<u8>, port: u16) -> Seq<u8> {
    if url_parses(base) {
        join_lines(line_split(content).map_values(|l: Seq<u8>| rewrite_line_spec(l, base, port)))
    } else {
        content
    }
}

fn uri_attr_bytes() -> (r: Vec<u8>)
    ensures
        r@ == uri_attr(),
{
    let mut v: Vec<u8> = Vec::new();
    v.push(85);
    v.push(82);
    v.push(73);
    v.push(61);
    v.push(34);
    proof {
        assert(v@ =~= uri_attr());
    }
    v
}

/// Rewrite one manifest line against the given base URL.
pub fn rewrite_line(line: &[u8], base: &[u8], port: u16) -> (r: Vec<u8>)
    ensures
        r@ == rewrite_line_spec(line@, base@, port),
{
    let t = trim_bytes(line);
    if t.len() == 0 || t[0] == HASH_MARK {
        let pat = uri_attr_bytes();
        match find_sub_exec(line, pat.as_slice()) {
            Some(st) => {
                let line_len: usize = line.len();
                proof {
                    lemma_find_sub(line@, uri_attr());
                    assert(match_at(line@, uri_attr(), st as int));
                    assert(st + 5 <= line_len);
                }
                let vstart: usize = st + 5;
                let tail: &[u8] = &line[vstart..line_len];
                proof {
                    assert(tail@ =~= line@.skip(vstart as int));
                }
                match find_byte_exec(tail, QUOTE_MARK) {
                    Some(e) => {
                        proof {
                            lemma_find_byte(tail@, QUOTE_MARK);
                        }
                        let uri: &[u8] = &line[vstart..vstart + e];
                        let abs = resolve_url(base, uri);
                        let mut out = vstd::slice::slice_to_vec(&line[0..st]);
                        out.extend_from_slice(pat.as_slice());
                        let loc = proxy_locator(port, abs.as_slice());
                        out.extend_from_slice(loc.as_slice());
                        out.push(QUOTE_MARK);
                        out.extend_from_slice(&line[vstart + e + 1..line_len]);
                        proof {
                            assert(out@ =~= rewrite_attr_line(line@, base@, port));
                        }
                        out
                    },
                    None => vstd::slice::slice_to_vec(line),
                }
            },
            None => vstd::slice::slice_to_vec(line),
        }
    } else {
        let abs = resolve_url(base, t.as_slice());
        proxy_locator(port, abs.as_slice())
    }
}

/// Rewriting works line by line and never reorders or drops a line: with a
/// parsable base the output is exactly the per-line rewrites of the input's
/// lines, in their order, joined with single newlines, and there are as many
/// rewritten lines as input lines. A blank or directive line without a
/// quoted URI attribute comes through byte-for-byte unchanged, so a rewrite
/// touches reference text only.
pub proof fn lemma_rewrite_line_by_line(content: Seq<u8>, base: Seq<u8>, port: u16)
    requires
        url_parses(base),
    ensures
        ({
            let ls = line_split(content);
            let rs = ls.map_values(|l: Seq<u8>| rewrite_line_spec(l, base, port));
            rewrite_manifest_spec(content, base, port) == join_lines(rs)
                && rs.len() == ls.len()
                && (forall|i: int| 0 <= i < ls.len()
                    ==> #[trigger] rs[i] == rewrite_line_spec(ls[i], base, port))
                && (forall|i: int| 0 <= i < ls.len()
                    && is_directive_or_blank(#[trigger] ls[i]) && !has_sub(ls[i], uri_attr())
                    ==> rs[i] == ls[i])
        }),
{
}

/// A rewritten line never gains a newline, and a non-empty line never
/// becomes empty.
pub proof fn lemma_rewrite_line_shape(line: Seq<u8>, base: Seq<u8>, port: u16)
    requires
        no_newline(line),
    ensures
        no_newline(rewrite_line_spec(line, base, port)),
        line.len() > 0 ==> rewrite_line_spec(line, base, port).len() > 0,
{
    if is_directive_or_blank(line) {
        if has_sub(line, uri_attr()) {
            lemma_find_sub(line, uri_attr());
            match find_sub(line, uri_attr()) {
                Some(st) => {
                    let vstart = st + uri_attr().len();
                    match find_byte(line.skip(vstart), QUOTE_MARK) {
                        Some(e) => {
                            let head = line.subrange(0, st);
                            let loc = locator_of(port, resolution_of(base, line.subrange(vstart, vstart + e)));
                            let tail = line.skip(vstart + e + 1);
                            lemma_find_byte(line.skip(vstart), QUOTE_MARK);
                            assert(no_newline(head));
                            assert forall|j: int| 0 <= j < tail.len() implies tail[j] != NEWLINE by {
                                assert(tail[j] == line[j + vstart + e + 1]);
                            }
                            assert(no_newline(uri_attr()));
                            lemma_locator_line_shape(port, resolution_of(base, line.subrange(vstart, vstart + e)));
                            lemma_no_newline_concat(head, uri_attr());
                            lemma_no_newline_concat(head + uri_attr(), loc);
                            assert(no_newline(seq![QUOTE_MARK]));
                            lemma_no_newline_concat(head + uri_attr() + loc, seq![QUOTE_MARK]);
                            lemma_no_newline_concat(head + uri_attr() + loc + seq![QUOTE_MARK], tail);
                            assert(rewrite_line_spec(line, base, port)
                                == head + uri_attr() + loc + seq![QUOTE_MARK] + tail);
                        },
                        None => {},
                    }
                },
                None => {},
            }
        }
    } else {
        lemma_locator_line_shape(port, resolution_of(base, trimmed(line)));
    }
}

/// Line count is preserved exactly: as long as the manifest does not end in
/// a wholly empty line, splitting the rewritten text gives exactly as many
/// lines as the input had.
pub proof fn lemma_rewrite_preserves_line_count(content: Seq<u8>, base: Seq<u8>, port: u16)
    requires
        url_parses(base),
        line_split(content).len() > 0 ==> line_split(content).last().len() > 0,
    ensures
        line_split(rewrite_manifest_spec(content, base, port)).len()
            == line_split(content).len(),
{
    let ls = line_split(content);
    let f = |l: Seq<u8>| rewrite_line_spec(l, base, port);
    let rs = ls.map_values(f);
    lemma_line_split_no_newline(content);
    assert forall|i: int| 0 <= i < rs.len() implies no_newline(#[trigger] rs[i]) by {
        assert(rs[i] == f(ls[i]));
        lemma_rewrite_line_shape(ls[i], base, port);
    }
    if ls.len() > 0 {
        assert(rs.last() == f(ls.last()));
        lemma_rewrite_line_shape(ls.last(), base, port);
        assert(rs.last().len() > 0);
    }
    lemma_split_of_join_count(rs);
    assert(rewrite_manifest_spec(content, base, port) == join_lines(rs));
}

/// A reference line already carrying an absolute `http://` or `https://`
/// URL is wrapped exactly as it stands: it is not re-resolved against the
/// base, and the locator's decoded target is the line's own trimmed content.
pub proof fn lemma_absolute_reference_kept(line: Seq<u8>, base: Seq<u8>, port: u16)
    requires
        !is_directive_or_blank(line),
        is_absolute_ref(trimmed(line)),
    ensures
        rewrite_line_spec(line, base, port) == locator_of(port, trimmed(line)),
        percent_decoding(rewrite_line_spec(line, base, port)
            .skip(locator_prefix(port).len() as int)) == Some(trimmed(line)),
{
    lemma_locator_round_trip(port, trimmed(line));
}

/// Any reference line's rewritten form decodes back to the target that
/// resolution chose for it.
pub proof fn lemma_reference_round_trip(line: Seq<u8>, base: Seq<u8>, port: u16)
    requires
        !is_directive_or_blank(line),
    ensures
        percent_decoding(rewrite_line_spec(line, base, port)
            .skip(locator_prefix(port).len() as int))
            == Some(resolution_of(base, trimmed(line))),
{
    lemma_locator_round_trip(port, resolution_of(base, trimmed(line)));
}

/// Rewrite a whole manifest so every reference routes through the proxy.
pub fn rewrite_manifest(content: &[u8], manifest_url: &[u8], proxy_port: u16) -> (r: Vec<u8>)
    ensures
        r@ == rewrite_manifest_spec(content@, manifest_url@, proxy_port),
{
    if !base_parses(manifest_url) {
        return vstd::slice::slice_to_vec(content);
    }
    let ls = split_lines(content);
    let n: usize = ls.len();
    let ghost f = |l: Seq<u8>| rewrite_line_spec(l, manifest_url@, proxy_port);
    let mut outlines: Vec<Vec<u8>> = Vec::new();
    let mut i: usize = 0;
    proof {
        assert(outlines.deep_view() =~= line_split(content@).take(0).map_values(f));
    }
    while i < n
        invariant
            0 <= i <= n,
            n == ls@.len(),
            n == ls.deep_view().len(),
            ls.deep_view() == line_split(content@),
            f == (|l: Seq<u8>| rewrite_line_spec(l, manifest_url@, proxy_port)),
            outlines.deep_view() == line_split(content@).take(i as int).map_values(f),
        decreases n - i,
    {
        proof {
            assert(ls[i as int]@ =~= ls.deep_view()[i as int]);
        }
        let rl = rewrite_line(ls[i].as_slice(), manifest_url, proxy_port);
        let ghost old_lines = outlines.deep_view();
        outlines.push(rl);
        proof {
            assert(outlines.deep_view() =~~= old_lines.push(rl@));
            assert(line_split(content@).take(i as int + 1).map_values(f)
                =~= line_split(content@).take(i as int).map_values(f).push(
                    f(line_split(content@)[i as int])));
        }
        i = i + 1;
    }
    proof {
        assert(line_split(content@).take(n as int) =~= line_split(content@));
    }
    let mut out: Vec<u8> = Vec::new();
    join_into(&mut out, &outlines);
    out
}

} // verus!
