//! Applying replacements to a source text.
//!
//! Replacements are taken in order of their start (a stable order: among
//! equal starts, the given order), and each one that starts at or after
//! the end of the last applied one replaces its byte span; the others are
//! skipped. Offsets are byte offsets into the UTF-8 text.

use crate::report::{ConfidenceReport, Diagnostic, FailureReason};
use crate::source::class_usage::Span;
use vstd::prelude::*;
use vstd::string::StringSliceAdditionalSpecFns;
use vstd::utf8::{encode_utf8, is_char_boundary, valid_utf8};

verus! {

broadcast use {
    vstd::utf8::encode_utf8_valid_utf8,
    vstd::utf8::valid_utf8_concat,
    vstd::utf8::is_char_boundary_start_end_of_seq,
};

/// A single replacement in a source file.
#[derive(Debug, Clone)]
pub struct Replacement {
    /// The span of the source text to be replaced.
    pub span: Span,
    /// The text that is replaced.
    pub before: String,
    /// The new text content.
    pub after: String,
    /// Confidence score and reasons for this replacement.
    pub confidence: ConfidenceReport,
    /// Human-readable reasons for this specific mapping.
    pub reasons: Vec<String>,
    /// Step-by-step trace of how this replacement was determined.
    pub trace: Vec<String>,
    /// Raw CSS properties associated with this class.
    pub raw_css: Option<String>,
    /// Actionable suggestion for the user or agent.
    pub suggestion: Option<String>,
    /// Why the class could not be converted, where it could not.
    pub failure_reason: Option<FailureReason>,
    /// Diagnostics about this replacement.
    pub diagnostics: Vec<Diagnostic>,
}

/// What applying a replacement reads of it: start, end, and new text.
pub open spec fn edit_of(r: Replacement) -> (int, int, Seq<char>) {
    (r.span.start as int, r.span.end as int, r.after@)
}

pub open spec fn edits(rs: Seq<Replacement>) -> Seq<(int, int, Seq<char>)> {
    rs.map_values(|r: Replacement| edit_of(r))
}

/// `x` put into `sorted` after every edit whose start is not greater.
pub open spec fn insert_edit(sorted: Seq<(int, int, Seq<char>)>, x: (int, int, Seq<char>)) -> Seq<
    (int, int, Seq<char>),
>
    decreases sorted.len(),
{
    if sorted.len() == 0 || sorted.last().0 <= x.0 {
        sorted.push(x)
    } else {
        insert_edit(sorted.drop_last(), x).push(sorted.last())
    }
}

/// The edits in order of their start; among equal starts, in the given order.
pub open spec fn sort_edits(es: Seq<(int, int, Seq<char>)>) -> Seq<(int, int, Seq<char>)>
    decreases es.len(),
{
    if es.len() == 0 {
        es
    } else {
        insert_edit(sort_edits(es.drop_last()), es.last())
    }
}

/// The output so far and the end of the last applied edit, after taking
/// the edits `es` in order from the start of `src`.
pub open spec fn run(src: Seq<u8>, es: Seq<(int, int, Seq<char>)>) -> (Seq<u8>, int)
    decreases es.len(),
{
    if es.len() == 0 {
        (Seq::empty(), 0)
    } else {
        let (out, last) = run(src, es.drop_last());
        let e = es.last();
        if e.0 >= last {
            (out + src.subrange(last, e.0) + encode_utf8(e.2), e.1)
        } else {
            (out, last)
        }
    }
}

/// `src` with the edits `es` applied in order.
pub open spec fn patched(src: Seq<u8>, es: Seq<(int, int, Seq<char>)>) -> Seq<u8> {
    let (out, last) = run(src, es);
    if last < src.len() {
        out + src.subrange(last, src.len() as int)
    } else {
        out
    }
}

/// Every slice that applying `es` in order takes of `src` starts and ends
/// on character boundaries.
pub open spec fn patch_ok(src: Seq<u8>, es: Seq<(int, int, Seq<char>)>) -> bool {
    &&& forall|k: int|
        0 <= k < es.len() ==> {
            let last = (#[trigger] run(src, es.subrange(0, k))).1;
            es[k].0 >= last ==> is_char_boundary(src, last) && is_char_boundary(src, es[k].0)
        }
    &&& run(src, es).1 < src.len() ==> is_char_boundary(src, run(src, es).1)
}

/// `String::from_utf8`: the string whose UTF-8 encoding is `bytes`; it
/// succeeds exactly on valid UTF-8.
#[verifier::external_body]
fn string_from_utf8(bytes: Vec<u8>) -> (r: Option<String>)
    ensures
        r is Some <==> valid_utf8(bytes@),
        r matches Some(s) ==> encode_utf8(s@) == bytes@,
{
    String::from_utf8(bytes).ok()
}

proof fn lemma_boundary_le(src: Seq<u8>, i: int)
    requires
        valid_utf8(src),
        is_char_boundary(src, i),
    ensures
        0 <= i <= src.len(),
{
    reveal_with_fuel(is_char_boundary, 1);
}

/// A slice of valid UTF-8 between two character boundaries is valid UTF-8.
proof fn lemma_valid_slice(src: Seq<u8>, a: int, b: int)
    requires
        valid_utf8(src),
        is_char_boundary(src, a),
        is_char_boundary(src, b),
        a <= b,
    ensures
        0 <= a <= b <= src.len(),
        valid_utf8(src.subrange(a, b)),
{
    lemma_boundary_le(src, a);
    lemma_boundary_le(src, b);
    vstd::utf8::valid_utf8_split(src, b);
    let pre = src.subrange(0, b);
    if a < b {
        vstd::utf8::is_char_boundary_iff_not_is_continuation_byte(src, a);
        vstd::utf8::is_char_boundary_iff_not_is_continuation_byte(pre, a);
        assert(pre[a] == src[a]);
        vstd::utf8::valid_utf8_split(pre, a);
        assert(pre.subrange(a, pre.len() as int) =~= src.subrange(a, b));
    } else {
        assert(src.subrange(a, b) =~= Seq::<u8>::empty());
    }
}

proof fn lemma_insert_at(s: Seq<(int, int, Seq<char>)>, x: (int, int, Seq<char>), pos: int)
    requires
        0 <= pos <= s.len(),
        forall|k: int| pos <= k < s.len() ==> s[k].0 > x.0,
        pos > 0 ==> s[pos - 1].0 <= x.0,
    ensures
        insert_edit(s, x) == s.subrange(0, pos) + seq![x] + s.subrange(pos, s.len() as int),
    decreases s.len(),
{
    if s.len() == 0 {
        assert(s.subrange(0, pos) + seq![x] + s.subrange(pos, s.len() as int) =~= s.push(x));
    } else if pos == s.len() {
        assert(s.subrange(0, pos) + seq![x] + s.subrange(pos, s.len() as int) =~= s.push(x));
    } else {
        lemma_insert_at(s.drop_last(), x, pos);
        assert(insert_edit(s, x) =~= s.subrange(0, pos) + seq![x] + s.subrange(pos, s.len() as int));
    }
}

/// The order in which the replacements are applied: indices sorted by start,
/// stably.
fn sorted_order(reps: &[Replacement]) -> (order: Vec<usize>)
    ensures
        order@.len() == reps@.len(),
        forall|k: int| 0 <= k < order@.len() ==> (#[trigger] order@[k]) < reps@.len(),
        order@.map_values(|i: usize| edits(reps@)[i as int]) == sort_edits(edits(reps@)),
{
    let ghost es = edits(reps@);
    let mut order: Vec<usize> = Vec::new();
    assert(es.subrange(0, 0) =~= Seq::<(int, int, Seq<char>)>::empty());
    assert(order@.map_values(|i: usize| es[i as int]) =~= Seq::empty());
    for i in 0..reps.len()
        invariant
            es == edits(reps@),
            order@.len() == i,
            forall|k: int| 0 <= k < order@.len() ==> (#[trigger] order@[k]) < i,
            order@.map_values(|j: usize| es[j as int]) == sort_edits(es.subrange(0, i as int)),
    {
        let ghost sorted = order@.map_values(|j: usize| es[j as int]);
        let key = reps[i].span.start;
        let mut pos = order.len();
        while pos > 0 && reps[order[pos - 1]].span.start > key
            invariant
                pos <= order@.len(),
                order@.len() == i,
                i < reps@.len(),
                key == reps@[i as int].span.start,
                es == edits(reps@),
                sorted == order@.map_values(|j: usize| es[j as int]),
                forall|k: int| 0 <= k < order@.len() ==> (#[trigger] order@[k]) < i,
                forall|k: int| pos <= k < sorted.len() ==> sorted[k].0 > key,
            decreases pos,
        {
            pos = pos - 1;
        }
        proof {
            assert(es.subrange(0, i + 1).drop_last() =~= es.subrange(0, i as int));
            assert(es[i as int].0 == key);
            lemma_insert_at(sorted, es[i as int], pos as int);
        }
        order.insert(pos, i);
        assert(order@.map_values(|j: usize| es[j as int]) =~= sorted.subrange(0, pos as int) + seq![es[i as int]] + sorted.subrange(pos as int, sorted.len() as int));
    }
    assert(es.subrange(0, reps@.len() as int) =~= es);
    order
}

fn push_bytes(out: &mut Vec<u8>, b: &[u8], from: usize, to: usize)
    requires
        from <= to <= b@.len(),
    ensures
        final(out)@ == old(out)@ + b@.subrange(from as int, to as int),
{
    let ghost start = out@;
    let mut i = from;
    while i < to
        invariant
            from <= i <= to <= b@.len(),
            out@ == start + b@.subrange(from as int, i as int),
        decreases to - i,
    {
        out.push(b[i]);
        i = i + 1;
        assert(out@ =~= start + b@.subrange(from as int, i as int));
    }
}

/// Whether `apply_patches` can take the replacements: `patch_ok` of the
/// source's bytes and the sorted edits.
pub fn patches_fit(source: &str, replacements: &[Replacement]) -> (r: bool)
    ensures
        r == patch_ok(source.spec_bytes(), sort_edits(edits(replacements@))),
{
    let ghost src = source.spec_bytes();
    let ghost sorted = sort_edits(edits(replacements@));
    let order = sorted_order(replacements);
    let mut last: usize = 0;
    assert(sorted.subrange(0, 0) =~= Seq::<(int, int, Seq<char>)>::empty());
    for k in 0..order.len()
        invariant
            src == source.spec_bytes(),
            sorted == sort_edits(edits(replacements@)),
            order@.len() == replacements@.len(),
            forall|t: int| 0 <= t < order@.len() ==> (#[trigger] order@[t]) < replacements@.len(),
            order@.map_values(|i: usize| edits(replacements@)[i as int]) == sorted,
            last as int == run(src, sorted.subrange(0, k as int)).1,
            forall|t: int| 0 <= t < k ==> {
                let l = (#[trigger] run(src, sorted.subrange(0, t))).1;
                sorted[t].0 >= l ==> is_char_boundary(src, l) && is_char_boundary(src, sorted[t].0)
            },
    {
        let rep = &replacements[order[k]];
        proof {
            assert(sorted[k as int] == edit_of(*rep));
            assert(sorted.subrange(0, k + 1).drop_last() =~= sorted.subrange(0, k as int));
            assert(sorted.subrange(0, k + 1).last() == sorted[k as int]);
        }
        if rep.span.start >= last {
            if !(source.is_char_boundary(last) && source.is_char_boundary(rep.span.start)) {
                proof {
                    let l = run(src, sorted.subrange(0, k as int)).1;
                    assert(!(sorted[k as int].0 >= l ==> is_char_boundary(src, l) && is_char_boundary(src, sorted[k as int].0)));
                }
                return false;
            }
            last = rep.span.end;
        }
    }
    assert(sorted.subrange(0, order@.len() as int) =~= sorted);
    if last < source.as_bytes().len() {
        source.is_char_boundary(last)
    } else {
        true
    }
}

/// Applies the replacements to a source text, in order of their start
/// (stably); one that starts before the end of the last applied one is
/// skipped. The result's UTF-8 encoding is `patched` of the source's.
pub fn apply_patches(source: &str, replacements: &[Replacement]) -> (r: String)
    requires
        patch_ok(source.spec_bytes(), sort_edits(edits(replacements@))),
    ensures
        encode_utf8(r@) == patched(source.spec_bytes(), sort_edits(edits(replacements@))),
        replacements@.len() == 0 ==> r@ == source@,
{
    let ghost src = source.spec_bytes();
    let ghost sorted = sort_edits(edits(replacements@));
    let order = sorted_order(replacements);
    let bytes = source.as_bytes();
    let mut out: Vec<u8> = Vec::new();
    let mut last: usize = 0;
    proof {
        vstd::utf8::encode_utf8_valid_utf8(source@);
        assert(sorted.subrange(0, 0) =~= Seq::<(int, int, Seq<char>)>::empty());
    }
    for k in 0..order.len()
        invariant
            src == source.spec_bytes(),
            bytes@ == src,
            valid_utf8(src),
            sorted == sort_edits(edits(replacements@)),
            order@.len() == replacements@.len(),
            forall|t: int| 0 <= t < order@.len() ==> (#[trigger] order@[t]) < replacements@.len(),
            order@.map_values(|i: usize| edits(replacements@)[i as int]) == sorted,
            patch_ok(src, sorted),
            (out@, last as int) == run(src, sorted.subrange(0, k as int)),
            valid_utf8(out@),
    {
        let rep = &replacements[order[k]];
        proof {
            assert(sorted[k as int] == edit_of(*rep));
            assert(sorted.subrange(0, k + 1).drop_last() =~= sorted.subrange(0, k as int));
            assert(sorted.subrange(0, k + 1).last() == sorted[k as int]);
        }
        if rep.span.start >= last {
            proof {
                lemma_valid_slice(src, last as int, rep.span.start as int);
            }
            push_bytes(&mut out, bytes, last, rep.span.start);
            let ab = rep.after.as_str().as_bytes();
            push_bytes(&mut out, ab, 0, ab.len());
            proof {
                assert(ab@.subrange(0, ab@.len() as int) =~= ab@);
                assert(ab@ == encode_utf8(rep.after@));
            }
            last = rep.span.end;
        }
    }
    proof {
        assert(sorted.subrange(0, order@.len() as int) =~= sorted);
    }
    if last < bytes.len() {
        proof {
            lemma_valid_slice(src, last as int, src.len() as int);
        }
        push_bytes(&mut out, bytes, last, bytes.len());
    }
    match string_from_utf8(out) {
        Some(s) => {
            proof {
                if replacements@.len() == 0 {
                    law_no_edits(src);
                    assert(sort_edits(edits(replacements@)) =~= Seq::empty());
                    vstd::utf8::encode_utf8_decode_utf8(s@);
                    vstd::utf8::encode_utf8_decode_utf8(source@);
                }
            }
            s
        },
        None => {
            proof {
                assert(false);
            }
            String::new()
        },
    }
}

/// With no replacements the text stays as it is.
pub proof fn law_no_edits(src: Seq<u8>)
    ensures
        patched(src, Seq::empty()) == src,
{
    assert(src.subrange(0, src.len() as int) =~= src);
    assert(Seq::<u8>::empty() + src =~= src);
}

/// One replacement of the bytes `e.0..e.1` by `e.2` keeps the text before
/// and after the span.
pub proof fn law_single_edit(src: Seq<u8>, e: (int, int, Seq<char>))
    requires
        0 <= e.0 <= e.1 <= src.len(),
    ensures
        patched(src, seq![e]) == src.subrange(0, e.0) + encode_utf8(e.2) + src.subrange(
            e.1,
            src.len() as int,
        ),
{
    let es = seq![e];
    assert(es.drop_last() =~= Seq::<(int, int, Seq<char>)>::empty());
    assert(run(src, Seq::empty()) == (Seq::<u8>::empty(), 0int));
    assert(Seq::<u8>::empty() + src.subrange(0, e.0) =~= src.subrange(0, e.0));
    assert(run(src, es) == (src.subrange(0, e.0) + encode_utf8(e.2), e.1));
    if e.1 == src.len() {
        assert(src.subrange(e.1, src.len() as int) =~= Seq::<u8>::empty());
        assert(src.subrange(0, e.0) + encode_utf8(e.2) + Seq::<u8>::empty() =~= src.subrange(0, e.0) + encode_utf8(e.2));
    }
}

/// A replacement that starts before the end of the one applied before it
/// is skipped.
pub proof fn law_overlap_skipped(src: Seq<u8>, a: (int, int, Seq<char>), b: (int, int, Seq<char>))
    requires
        a.0 >= 0,
        b.0 < a.1,
    ensures
        patched(src, seq![a, b]) == patched(src, seq![a]),
{
    assert(seq![a, b].drop_last() =~= seq![a]);
    assert(seq![a].drop_last() =~= Seq::<(int, int, Seq<char>)>::empty());
    assert(run(src, Seq::empty()) == (Seq::<u8>::empty(), 0int));
    assert(run(src, seq![a]).1 == a.1);
    assert(run(src, seq![a, b]) == run(src, seq![a]));
}

/// Replacements are applied in order of their start, whatever order they
/// are given in; among equal starts the given order is kept.
pub proof fn law_sorted_by_start(a: (int, int, Seq<char>), b: (int, int, Seq<char>))
    ensures
        a.0 < b.0 ==> sort_edits(seq![a, b]) == seq![a, b] && sort_edits(seq![b, a]) == seq![a, b],
        a.0 == b.0 ==> sort_edits(seq![a, b]) == seq![a, b],
{
    assert(seq![a, b].drop_last() =~= seq![a]);
    assert(seq![b, a].drop_last() =~= seq![b]);
    assert(seq![a].drop_last() =~= Seq::<(int, int, Seq<char>)>::empty());
    assert(seq![b].drop_last() =~= Seq::<(int, int, Seq<char>)>::empty());
    assert(sort_edits(Seq::<(int, int, Seq<char>)>::empty()) =~= Seq::<(int, int, Seq<char>)>::empty());
    assert(insert_edit(Seq::<(int, int, Seq<char>)>::empty(), a) =~= seq![a]);
    assert(insert_edit(Seq::<(int, int, Seq<char>)>::empty(), b) =~= seq![b]);
    assert(sort_edits(seq![a]) =~= seq![a]);
    assert(sort_edits(seq![b]) =~= seq![b]);
    assert(seq![b].drop_last() =~= Seq::<(int, int, Seq<char>)>::empty());
    assert(insert_edit(Seq::<(int, int, Seq<char>)>::empty(), a) =~= seq![a]);
    assert(seq![a].push(b) =~= seq![a, b]);
    assert(seq![a].push(b) =~= seq![a, b]);
    if a.0 < b.0 {
        assert(insert_edit(seq![b], a) =~= seq![a, b]);
    }
}

/// The starts of the edits strictly increase.
pub open spec fn strictly_by_start(s: Seq<(int, int, Seq<char>)>) -> bool {
    forall|i: int, j: int| 0 <= i < j < s.len() ==> s[i].0 < s[j].0
}

/// No two edits start at the same place.
pub open spec fn distinct_starts(s: Seq<(int, int, Seq<char>)>) -> bool {
    forall|i: int, j: int| 0 <= i < s.len() && 0 <= j < s.len() && i != j ==> s[i].0 != s[j].0
}

proof fn lemma_insert_edit(s: Seq<(int, int, Seq<char>)>, x: (int, int, Seq<char>))
    requires
        strictly_by_start(s),
        forall|k: int| 0 <= k < s.len() ==> s[k].0 != x.0,
    ensures
        insert_edit(s, x).to_multiset() =~= s.to_multiset().insert(x),
        strictly_by_start(insert_edit(s, x)),
    decreases s.len(),
{
    broadcast use vstd::seq_lib::group_to_multiset_ensures;
    if s.len() == 0 || s.last().0 <= x.0 {
    } else {
        let d = s.drop_last();
        assert(s =~= d.push(s.last()));
        lemma_insert_edit(d, x);
        let r = insert_edit(d, x);
        assert forall|k: int| 0 <= k < r.len() implies r[k].0 < s.last().0 by {
            assert(r.to_multiset().count(r[k]) > 0);
            if r[k] != x {
                assert(d.to_multiset().count(r[k]) > 0);
                assert(d.contains(r[k]));
                let m = choose|m: int| 0 <= m < d.len() && d[m] == r[k];
                assert(s[m] == d[m]);
            }
        }
        assert(insert_edit(s, x) == r.push(s.last()));
    }
}

proof fn lemma_sort_edits(es: Seq<(int, int, Seq<char>)>)
    requires
        distinct_starts(es),
    ensures
        sort_edits(es).to_multiset() =~= es.to_multiset(),
        strictly_by_start(sort_edits(es)),
    decreases es.len(),
{
    broadcast use vstd::seq_lib::group_to_multiset_ensures;
    if es.len() > 0 {
        let d = es.drop_last();
        assert(es =~= d.push(es.last()));
        lemma_sort_edits(d);
        let sd = sort_edits(d);
        assert forall|k: int| 0 <= k < sd.len() implies sd[k].0 != es.last().0 by {
            assert(sd.to_multiset().count(sd[k]) > 0);
            assert(d.contains(sd[k]));
            let m = choose|m: int| 0 <= m < d.len() && d[m] == sd[k];
            assert(es[m] == d[m]);
        }
        lemma_insert_edit(sd, es.last());
    }
}

proof fn lemma_sorted_unique(a: Seq<(int, int, Seq<char>)>, b: Seq<(int, int, Seq<char>)>)
    requires
        strictly_by_start(a),
        strictly_by_start(b),
        a.to_multiset() =~= b.to_multiset(),
    ensures
        a == b,
    decreases a.len(),
{
    broadcast use vstd::seq_lib::group_to_multiset_ensures;
    broadcast use vstd::multiset::group_multiset_axioms;
    assert(a.to_multiset().len() == b.to_multiset().len());
    assert(a.len() == b.len());
    if a.len() == 0 {
        assert(a =~= b);
    } else {
        let n = a.len() - 1;
        assert(a.to_multiset().count(b.last()) > 0);
        assert(a.contains(b.last()));
        let i = choose|i: int| 0 <= i < a.len() && a[i] == b.last();
        assert(b.to_multiset().count(a.last()) > 0);
        assert(b.contains(a.last()));
        let j = choose|j: int| 0 <= j < b.len() && b[j] == a.last();
        if i < n {
            assert(a[i].0 < a[n].0);
            assert(b[j].0 <= b[n].0);
            assert(false);
        }
        assert(a.last() == b.last());
        let ad = a.drop_last();
        let bd = b.drop_last();
        assert(a =~= ad.push(a.last()));
        assert(b =~= bd.push(b.last()));
        assert(ad.to_multiset() =~= a.to_multiset().remove(a.last())) by {
            assert(a.to_multiset() =~= ad.to_multiset().insert(a.last()));
        }
        assert(bd.to_multiset() =~= b.to_multiset().remove(b.last())) by {
            assert(b.to_multiset() =~= bd.to_multiset().insert(b.last()));
        }
        lemma_sorted_unique(ad, bd);
        assert(a =~= b);
    }
}

/// The order in which replacements are given does not matter when no two
/// start at the same place: two orderings of the same edits are applied in
/// the same order, so they give the same text.
pub proof fn law_order_independent(src: Seq<u8>, es1: Seq<(int, int, Seq<char>)>, es2: Seq<(int, int, Seq<char>)>)
    requires
        es1.to_multiset() == es2.to_multiset(),
        distinct_starts(es1),
    ensures
        sort_edits(es1) == sort_edits(es2),
        patched(src, sort_edits(es1)) == patched(src, sort_edits(es2)),
{
    broadcast use vstd::seq_lib::group_to_multiset_ensures;
    assert forall|i: int, j: int| 0 <= i < es2.len() && 0 <= j < es2.len() && i != j implies es2[i].0 != es2[j].0 by {
        assert(es2.to_multiset().count(es2[i]) > 0);
        assert(es2.to_multiset().count(es2[j]) > 0);
        assert(es1.contains(es2[i]));
        assert(es1.contains(es2[j]));
        let p = choose|p: int| 0 <= p < es1.len() && es1[p] == es2[i];
        let q = choose|q: int| 0 <= q < es1.len() && es1[q] == es2[j];
        if es2[i].0 == es2[j].0 {
            assert(p == q);
            assert(es2[i] == es2[j]);
            assert(es2.remove(i).to_multiset() =~= es2.to_multiset().remove(es2[i]));
            let k = if j < i { j } else { j - 1 };
            assert(es2.remove(i)[k] == es2[j]);
            assert(es2.remove(i).contains(es2[j]));
            assert(es2.remove(i).to_multiset().count(es2[i]) > 0);
            assert(es2.to_multiset().count(es2[i]) >= 2);
            assert(es1.remove(p).to_multiset() =~= es1.to_multiset().remove(es1[p]));
            assert(es1.remove(p).to_multiset().count(es1[p]) > 0);
            assert(es1.remove(p).contains(es1[p]));
            let r = choose|r: int| 0 <= r < es1.remove(p).len() && es1.remove(p)[r] == es1[p];
            let r2 = if r < p { r } else { r + 1 };
            assert(es1[r2] == es1[p]);
            assert(false);
        }
    }
    lemma_sort_edits(es1);
    lemma_sort_edits(es2);
    lemma_sorted_unique(sort_edits(es1), sort_edits(es2));
}

/// `apply_patches` does not depend on the order in which replacements are
/// given when no two start at the same place: two lists of the same
/// replacements (the same edits, in any order) are accepted alike, and the
/// texts they give (`out1`, `out2`, as `apply_patches` ensures) are equal.
pub proof fn law_apply_order_independent(
    src: Seq<char>,
    r1: Seq<Replacement>,
    r2: Seq<Replacement>,
    out1: Seq<char>,
    out2: Seq<char>,
)
    requires
        edits(r1).to_multiset() == edits(r2).to_multiset(),
        distinct_starts(edits(r1)),
        encode_utf8(out1) == patched(encode_utf8(src), sort_edits(edits(r1))),
        encode_utf8(out2) == patched(encode_utf8(src), sort_edits(edits(r2))),
    ensures
        patch_ok(encode_utf8(src), sort_edits(edits(r1))) == patch_ok(encode_utf8(src), sort_edits(edits(r2))),
        out1 == out2,
{
    law_order_independent(encode_utf8(src), edits(r1), edits(r2));
    vstd::utf8::encode_utf8_decode_utf8(out1);
    vstd::utf8::encode_utf8_decode_utf8(out2);
}

} // verus!
