//! Class attributes in markup: `class="..."` (and, where asked for,
//! `className="..."`) in any letter case, after a word boundary, with
//! optional white space around `=` and a single- or double-quoted value
//! (the pattern `(?i)\b(?:class|className)\s*=\s*(?:"([^"]*)"|'([^']*)')`),
//! and the class names in their values with their byte spans.
//!
//! A word character here is an alphanumeric character or `_`; letters
//! match in either case, and `s` also matches the long s `ſ`.

use crate::css::selector::{alphanumeric, is_alphanumeric};
use crate::source::class_usage::{ClassUsage, Span};
use crate::source::{byte_offsets, is_offsets, utf8_len};
use crate::tailwind::vars::{lemma_ws_end, ws_end, ws_end_exec};
use crate::text::{
    chars_of, find, find_chars, find_chars_from, find_from, is_whitespace, is_ws, slice_chars,
    string_of,
};
use vstd::prelude::*;

verus! {

/// A word character: alphanumeric or `_`.
pub open spec fn is_word(c: char) -> bool {
    alphanumeric(c) || c == '_'
}

/// `c` is the lower-case ASCII letter `l` in either case (or `ſ` for `s`).
pub open spec fn ci_eq(c: char, l: char) -> bool {
    c == l || (c as u32) + 32 == (l as u32) || (l == 's' && c == '\u{17f}')
}

/// The keyword `kw` (lower-case ASCII) stands at `i`, in any case.
pub open spec fn kw_at(s: Seq<char>, i: int, kw: Seq<char>) -> bool {
    0 <= i && i + kw.len() <= s.len() && forall|k: int| 0 <= k < kw.len() ==> ci_eq(#[trigger] s[i + k], kw[k])
}

/// A quoted value at `b`: the range of its characters between the quotes.
pub open spec fn quoted_at(s: Seq<char>, b: int) -> Option<(int, int)> {
    if 0 <= b < s.len() && (s[b] == '"' || s[b] == '\'') {
        match find_from(s, seq![s[b]], b + 1) {
            Some(e) => Some((b + 1, e)),
            None => None,
        }
    } else {
        None
    }
}

/// `=` and a quoted value, with optional white space, from `j`.
pub open spec fn assign_at(s: Seq<char>, j: int) -> Option<(int, int)> {
    let a = ws_end(s, j);
    if 0 <= a < s.len() && s[a] == '=' {
        quoted_at(s, ws_end(s, a + 1))
    } else {
        None
    }
}

/// The value range of a class attribute that starts at `i`.
pub open spec fn attr_at(s: Seq<char>, i: int, with_class_name: bool) -> Option<(int, int)> {
    if (i == 0 || (0 < i <= s.len() && !is_word(s[i - 1]))) && kw_at(s, i, "class"@) {
        match assign_at(s, i + 5) {
            Some(v) => Some(v),
            None => if with_class_name && kw_at(s, i + 5, "name"@) {
                assign_at(s, i + 9)
            } else {
                None
            },
        }
    } else {
        None
    }
}

/// The value ranges of the class attributes at or after `from`, left to
/// right, each search going on after the end of the last attribute.
pub open spec fn attr_values(s: Seq<char>, from: int, with_class_name: bool) -> Seq<(int, int)>
    decreases s.len() + 1 - from,
{
    if from < 0 || from > s.len() {
        Seq::empty()
    } else {
        match attr_at(s, from, with_class_name) {
            Some((vs, ve)) => if from <= ve < s.len() {
                seq![(vs, ve)] + attr_values(s, ve + 1, with_class_name)
            } else {
                Seq::empty()
            },
            None => attr_values(s, from + 1, with_class_name),
        }
    }
}

/// The end of the run of characters other than white space from `i`.
pub open spec fn word_end(v: Seq<char>, i: int) -> int
    decreases v.len() - i,
{
    if i < 0 || i >= v.len() || is_ws(v[i]) {
        i
    } else {
        word_end(v, i + 1)
    }
}

/// The words of `v` from `i` on: its runs of characters other than white
/// space (`split_whitespace`).
pub open spec fn words_from(v: Seq<char>, i: int) -> Seq<Seq<char>>
    decreases v.len() + 1 - i,
{
    let a = ws_end(v, i);
    if i < 0 || a < i || a >= v.len() {
        Seq::empty()
    } else {
        let b = word_end(v, a);
        if b <= a || b > v.len() {
            Seq::empty()
        } else {
            seq![v.subrange(a, b)] + words_from(v, b)
        }
    }
}

/// A word that looks like a template tag: it holds `{{`, `{%`, `<%` or `@`.
pub open spec fn template_like(p: Seq<char>) -> bool {
    find(p, "{{"@) is Some || find(p, "{%"@) is Some || find(p, "<%"@) is Some || find(p, "@"@) is Some
}

/// The words placed in `v`: each (unless skipped as template-like) at its
/// first occurrence from `cur`, the search going on after it.
pub open spec fn place_words(v: Seq<char>, ws: Seq<Seq<char>>, cur: int, skip_templates: bool) -> Seq<(Seq<char>, int)>
    decreases ws.len(),
{
    if ws.len() == 0 {
        Seq::empty()
    } else {
        let p = ws[0];
        if skip_templates && template_like(p) {
            place_words(v, ws.drop_first(), cur, skip_templates)
        } else {
            match find_from(v, p, cur) {
                Some(r) => seq![(p, r)] + place_words(v, ws.drop_first(), r + p.len(), skip_templates),
                None => place_words(v, ws.drop_first(), cur, skip_templates),
            }
        }
    }
}

/// The class names of the attribute values `vals` of `s`, with their
/// character ranges in `s`.
pub open spec fn value_classes(s: Seq<char>, vals: Seq<(int, int)>, skip_templates: bool) -> Seq<(Seq<char>, int, int)>
    decreases vals.len(),
{
    if vals.len() == 0 {
        Seq::empty()
    } else {
        let (vs, ve) = vals.last();
        let v = s.subrange(vs, ve);
        value_classes(s, vals.drop_last(), skip_templates) + place_words(v, words_from(v, 0), 0, skip_templates).map_values(
            |x: (Seq<char>, int)| (x.0, vs + x.1, vs + x.1 + x.0.len()),
        )
    }
}

/// The class names of the class attributes of `s`, with their character
/// ranges.
pub open spec fn class_uses(s: Seq<char>, with_class_name: bool, skip_templates: bool) -> Seq<(Seq<char>, int, int)> {
    value_classes(s, attr_values(s, 0, with_class_name), skip_templates)
}

/// Uses of classes given as (name, first character, end character) over
/// plain values, with their spans in bytes.
pub open spec fn uses_match(s: Seq<char>, r: Seq<ClassUsage>, spec: Seq<(Seq<char>, int, int)>) -> bool {
    &&& r.len() == spec.len()
    &&& forall|i: int| 0 <= i < r.len() ==> {
        &&& (#[trigger] r[i]).class_name@ == spec[i].0
        &&& r[i].span.start == utf8_len(s.subrange(0, spec[i].1))
        &&& r[i].span.end == utf8_len(s.subrange(0, spec[i].2))
    }
}

fn ci_eq_exec(c: char, l: char) -> (r: bool)
    ensures
        r == ci_eq(c, l),
{
    c == l || (c as u32) as u64 + 32 == (l as u32) as u64 || (l == 's' && c == '\u{17f}')
}

fn kw_at_exec(s: &[char], i: usize, kw: &str) -> (r: bool)
    ensures
        r == kw_at(s@, i as int, kw@),
{
    let k = chars_of(kw);
    if k.len() > s.len() || i > s.len() - k.len() {
        return false;
    }
    for t in 0..k.len()
        invariant
            k@ == kw@,
            i + k@.len() <= s@.len(),
            forall|u: int| 0 <= u < t ==> ci_eq(#[trigger] s@[i + u], kw@[u]),
    {
        assert(i + t < s.len());
        if !ci_eq_exec(s[i + t], k[t]) {
            return false;
        }
    }
    true
}

fn quoted_at_exec(s: &[char], b: usize) -> (r: Option<(usize, usize)>)
    ensures
        match r {
            Some((x, y)) => quoted_at(s@, b as int) == Some((x as int, y as int)) && b < x <= y < s@.len(),
            None => quoted_at(s@, b as int) is None,
        },
{
    if b < s.len() && (s[b] == '"' || s[b] == '\'') {
        let mut q: Vec<char> = Vec::new();
        q.push(s[b]);
        assert(q@ =~= seq![s@[b as int]]);
        match find_chars_from(s, q.as_slice(), b + 1) {
            Some(e) => {
                proof {
                    crate::text::lemma_find_occurs(s@, q@, (b + 1) as int);
                }
                Some((b + 1, e))
            },
            None => None,
        }
    } else {
        None
    }
}

fn assign_at_exec(s: &[char], j: usize) -> (r: Option<(usize, usize)>)
    requires
        j <= s@.len(),
    ensures
        match r {
            Some((x, y)) => assign_at(s@, j as int) == Some((x as int, y as int)) && j < x <= y < s@.len(),
            None => assign_at(s@, j as int) is None,
        },
{
    proof {
        lemma_ws_end(s@, j as int);
    }
    let a = ws_end_exec(s, j);
    if a < s.len() && s[a] == '=' {
        proof {
            lemma_ws_end(s@, a + 1);
        }
        let b = ws_end_exec(s, a + 1);
        quoted_at_exec(s, b)
    } else {
        None
    }
}

fn attr_at_exec(s: &[char], i: usize, with_class_name: bool) -> (r: Option<(usize, usize)>)
    requires
        i <= s@.len(),
    ensures
        match r {
            Some((x, y)) => attr_at(s@, i as int, with_class_name) == Some((x as int, y as int)) && i < x <= y < s@.len(),
            None => attr_at(s@, i as int, with_class_name) is None,
        },
{
    let boundary = i == 0 || !(is_alphanumeric(s[i - 1]) || s[i - 1] == '_');
    if !boundary || !kw_at_exec(s, i, "class") {
        return None;
    }
    proof {
        reveal_strlit("class");
    }
    match assign_at_exec(s, i + 5) {
        Some(v) => Some(v),
        None => if with_class_name && kw_at_exec(s, i + 5, "name") {
            proof {
                reveal_strlit("name");
            }
            assign_at_exec(s, i + 9)
        } else {
            None
        },
    }
}

fn attr_values_exec(s: &[char], with_class_name: bool) -> (r: Vec<(usize, usize)>)
    ensures
        r@.map_values(|x: (usize, usize)| (x.0 as int, x.1 as int)) == attr_values(s@, 0, with_class_name),
        forall|k: int| 0 <= k < r@.len() ==> (#[trigger] r@[k]).0 <= r@[k].1 < s@.len(),
{
    let mut out: Vec<(usize, usize)> = Vec::new();
    let mut from: usize = 0;
    while from < s.len()
        invariant
            from <= s@.len(),
            out@.map_values(|x: (usize, usize)| (x.0 as int, x.1 as int)) + attr_values(s@, from as int, with_class_name) == attr_values(s@, 0, with_class_name),
            forall|k: int| 0 <= k < out@.len() ==> (#[trigger] out@[k]).0 <= out@[k].1 < s@.len(),
        decreases s@.len() + 1 - from,
    {
        let ghost before = out@;
        match attr_at_exec(s, from, with_class_name) {
            Some((vs, ve)) => {
                out.push((vs, ve));
                assert(out@.map_values(|x: (usize, usize)| (x.0 as int, x.1 as int)) =~= before.map_values(|x: (usize, usize)| (x.0 as int, x.1 as int)).push((vs as int, ve as int)));
                from = ve + 1;
            },
            None => {
                from = from + 1;
            },
        }
    }
    assert(attr_at(s@, from as int, with_class_name) is None);
    assert(attr_values(s@, from + 1, with_class_name) =~= Seq::empty());
    assert(attr_values(s@, from as int, with_class_name) =~= Seq::empty());
    assert(out@.map_values(|x: (usize, usize)| (x.0 as int, x.1 as int)) =~= out@.map_values(|x: (usize, usize)| (x.0 as int, x.1 as int)) + Seq::<(int, int)>::empty());
    out
}

proof fn lemma_word_end(v: Seq<char>, i: int)
    requires
        0 <= i <= v.len(),
    ensures
        i <= word_end(v, i) <= v.len(),
    decreases v.len() - i,
{
    if !(i >= v.len() || is_ws(v[i])) {
        lemma_word_end(v, i + 1);
    }
}

proof fn lemma_ws_end_stop(v: Seq<char>, i: int)
    requires
        0 <= i <= v.len(),
    ensures
        ws_end(v, i) < v.len() ==> !is_ws(v[ws_end(v, i)]),
    decreases v.len() - i,
{
    if !(i >= v.len() || !is_ws(v[i])) {
        lemma_ws_end_stop(v, i + 1);
    }
}

fn word_end_exec(v: &[char], i: usize) -> (r: usize)
    requires
        i <= v@.len(),
    ensures
        r == word_end(v@, i as int),
{
    let mut k = i;
    while k < v.len() && !is_whitespace(v[k])
        invariant
            i <= k <= v@.len(),
            word_end(v@, i as int) == word_end(v@, k as int),
        decreases v.len() - k,
    {
        k = k + 1;
    }
    k
}

/// The character ranges of the words of `v`, as `words_from` gives them.
pub(crate) fn word_ranges(v: &[char]) -> (r: Vec<(usize, usize)>)
    ensures
        r@.map_values(|x: (usize, usize)| v@.subrange(x.0 as int, x.1 as int)) == words_from(v@, 0),
        forall|k: int| 0 <= k < r@.len() ==> (#[trigger] r@[k]).0 <= r@[k].1 <= v@.len(),
{
    let mut out: Vec<(usize, usize)> = Vec::new();
    let mut i: usize = 0;
    loop
        invariant
            i <= v@.len(),
            out@.map_values(|x: (usize, usize)| v@.subrange(x.0 as int, x.1 as int)) + words_from(v@, i as int) == words_from(v@, 0),
            forall|k: int| 0 <= k < out@.len() ==> (#[trigger] out@[k]).0 <= out@[k].1 <= v@.len(),
        decreases v@.len() - i,
    {
        proof {
            lemma_ws_end(v@, i as int);
        }
        let a = ws_end_exec(v, i);
        if a >= v.len() {
            assert(words_from(v@, i as int) =~= Seq::empty());
            assert(out@.map_values(|x: (usize, usize)| v@.subrange(x.0 as int, x.1 as int)) =~= out@.map_values(|x: (usize, usize)| v@.subrange(x.0 as int, x.1 as int)) + Seq::<Seq<char>>::empty());
            return out;
        }
        proof {
            lemma_word_end(v@, a as int);
        }
        let b = word_end_exec(v, a);
        proof {
            lemma_ws_end_stop(v@, i as int);
            lemma_word_end(v@, a + 1);
        }
        assert(b > a);
        let ghost before = out@;
        out.push((a, b));
        assert(out@.map_values(|x: (usize, usize)| v@.subrange(x.0 as int, x.1 as int)) =~= before.map_values(|x: (usize, usize)| v@.subrange(x.0 as int, x.1 as int)).push(v@.subrange(a as int, b as int)));
        i = b;
    }
}

fn template_like_exec(p: &[char]) -> (r: bool)
    ensures
        r == template_like(p@),
{
    let a = chars_of("{{");
    let b = chars_of("{%");
    let c = chars_of("<%");
    let d = chars_of("@");
    find_chars(p, a.as_slice()).is_some() || find_chars(p, b.as_slice()).is_some()
        || find_chars(p, c.as_slice()).is_some() || find_chars(p, d.as_slice()).is_some()
}

/// The words of `v` placed as `place_words` says, as (start, end) ranges in `v`.
pub(crate) fn placed_ranges(v: &[char], skip_templates: bool) -> (r: Vec<(usize, usize)>)
    ensures
        r@.map_values(|x: (usize, usize)| (v@.subrange(x.0 as int, x.1 as int), x.0 as int)) == place_words(v@, words_from(v@, 0), 0, skip_templates),
        forall|k: int| 0 <= k < r@.len() ==> (#[trigger] r@[k]).0 <= r@[k].1 <= v@.len(),
{
    let ws = word_ranges(v);
    let ghost words = words_from(v@, 0);
    let mut out: Vec<(usize, usize)> = Vec::new();
    let mut cur: usize = 0;
    assert(words.subrange(0, words.len() as int) =~= words);
    for k in 0..ws.len()
        invariant
            ws@.map_values(|x: (usize, usize)| v@.subrange(x.0 as int, x.1 as int)) == words,
            forall|t: int| 0 <= t < ws@.len() ==> (#[trigger] ws@[t]).0 <= ws@[t].1 <= v@.len(),
            cur <= v@.len(),
            out@.map_values(|x: (usize, usize)| (v@.subrange(x.0 as int, x.1 as int), x.0 as int)) + place_words(v@, words.subrange(k as int, words.len() as int), cur as int, skip_templates)
                == place_words(v@, words, 0, skip_templates),
            forall|t: int| 0 <= t < out@.len() ==> (#[trigger] out@[t]).0 <= out@[t].1 <= v@.len(),
    {
        let (a, b) = ws[k];
        let p = slice_chars(v, a, b);
        assert(p@ == words[k as int]);
        assert(words.subrange(k as int, words.len() as int).drop_first() =~= words.subrange(k + 1, words.len() as int));
        assert(words.subrange(k as int, words.len() as int)[0] == words[k as int]);
        if skip_templates && template_like_exec(p.as_slice()) {
        } else {
            match find_chars_from(v, p.as_slice(), cur) {
                Some(r) => {
                    proof {
                        crate::text::lemma_find_occurs(v@, p@, cur as int);
                    }
                    assert(v@.subrange(r as int, r + p@.len()) == p@);
                    assert(r + p.len() <= v.len());
                    let ghost before = out@;
                    out.push((r, r + p.len()));
                    assert(out@.map_values(|x: (usize, usize)| (v@.subrange(x.0 as int, x.1 as int), x.0 as int)) =~= before.map_values(|x: (usize, usize)| (v@.subrange(x.0 as int, x.1 as int), x.0 as int)).push((p@, r as int)));
                    cur = r + p.len();
                },
                None => {},
            }
        }
    }
    assert(place_words(v@, words.subrange(ws@.len() as int, words.len() as int), cur as int, skip_templates) =~= Seq::empty());
    assert(out@.map_values(|x: (usize, usize)| (v@.subrange(x.0 as int, x.1 as int), x.0 as int)) =~= out@.map_values(|x: (usize, usize)| (v@.subrange(x.0 as int, x.1 as int), x.0 as int)) + Seq::<(Seq<char>, int)>::empty());
    out
}

/// The class names in the class attributes of `content`, as `class_uses`
/// says, with their byte spans.
pub fn extract_class_uses(content: &str, with_class_name: bool, skip_templates: bool) -> (r: Vec<ClassUsage>)
    ensures
        uses_match(content@, r@, class_uses(content@, with_class_name, skip_templates)),
{
    let s = chars_of(content);
    let offsets = byte_offsets(content);
    let vals = attr_values_exec(s.as_slice(), with_class_name);
    let ghost vv = vals@.map_values(|x: (usize, usize)| (x.0 as int, x.1 as int));
    let mut out: Vec<ClassUsage> = Vec::new();
    assert(vv.subrange(0, 0) =~= Seq::<(int, int)>::empty());
    for k in 0..vals.len()
        invariant
            s@ == content@,
            is_offsets(content@, offsets@),
            vv == vals@.map_values(|x: (usize, usize)| (x.0 as int, x.1 as int)),
            forall|t: int| 0 <= t < vals@.len() ==> (#[trigger] vals@[t]).0 <= vals@[t].1 < s@.len(),
            uses_match(content@, out@, value_classes(content@, vv.subrange(0, k as int), skip_templates)),
    {
        let (vs, ve) = vals[k];
        let v = slice_chars(s.as_slice(), vs, ve);
        let placed = placed_ranges(v.as_slice(), skip_templates);
        let ghost pw = place_words(v@, words_from(v@, 0), 0, skip_templates);
        let ghost shifted = pw.map_values(|x: (Seq<char>, int)| (x.0, vs + x.1, vs + x.1 + x.0.len()));
        let ghost base = value_classes(content@, vv.subrange(0, k as int), skip_templates);
        proof {
            assert(vv.subrange(0, k + 1).drop_last() =~= vv.subrange(0, k as int));
            assert(vv.subrange(0, k + 1).last() == (vs as int, ve as int));
            assert(value_classes(content@, vv.subrange(0, k + 1), skip_templates) == base + shifted);
        }
        let ghost out0 = out@;
        for j in 0..placed.len()
            invariant
                s@ == content@,
                is_offsets(content@, offsets@),
                vs <= ve < s@.len(),
                v@ == s@.subrange(vs as int, ve as int),
                placed@.map_values(|x: (usize, usize)| (v@.subrange(x.0 as int, x.1 as int), x.0 as int)) == pw,
                forall|t: int| 0 <= t < placed@.len() ==> (#[trigger] placed@[t]).0 <= placed@[t].1 <= v@.len(),
                shifted == pw.map_values(|x: (Seq<char>, int)| (x.0, vs + x.1, vs + x.1 + x.0.len())),
                uses_match(content@, out0, base),
                out@.len() == out0.len() + j,
                forall|t: int| 0 <= t < out0.len() ==> out@[t] == out0[t],
                uses_match(content@, out@, base + shifted.subrange(0, j as int)),
        {
            let (a, b) = placed[j];
            let name = slice_chars(v.as_slice(), a, b);
            proof {
                assert(pw[j as int] == (v@.subrange(a as int, b as int), a as int));
                assert(shifted[j as int] == (v@.subrange(a as int, b as int), vs + a, vs + a + (b - a)));
            }
            let usage = ClassUsage {
                class_name: string_of(name.as_slice()),
                span: Span { start: offsets[vs + a], end: offsets[vs + b] },
            };
            let ghost before = out@;
            out.push(usage);
            proof {
                assert(base + shifted.subrange(0, j + 1) =~= (base + shifted.subrange(0, j as int)).push(shifted[j as int]));
            }
        }
        proof {
            assert(shifted.subrange(0, placed@.len() as int) =~= shifted);
        }
    }
    assert(vv.subrange(0, vals@.len() as int) =~= vv);
    out
}

} // verus!
