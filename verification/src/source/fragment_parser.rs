//! Template fragments (PHP, Blade, Jinja2, ...): class names from their
//! class attributes, and a plan that protects template tags while the
//! markup around them is parsed.
//!
//! Template tags are the texts that these patterns match, taken one
//! pattern after the other, each match leftmost and shortest-closing:
//! `<?php ... ?>`, `<?= ... ?>`, `{{ ... }}`, `{% ... %}`, `{# ... #}`,
//! `{!! ... !!}`, `@word(...)` up to the first `)`, and `@word`. Each is
//! replaced by the placeholder `___CSS2TW_TPL_<n>___`, `n` counting from 0,
//! and the search goes on after the placeholder.

use crate::number::{nat_chars, nat_text, Decimal};
use crate::css::parser::mapping_views;
use crate::css::resolver::{tailwind_spec, StyleResolver};
use crate::css::dom::{dom_element_class, dom_element_count, element_class, element_count, element_name, Document};
use crate::css::parser::{rwc_views, variable_entries};
use crate::source::html::dom_element_view;
use crate::tailwind::vars::VariableMap;
use crate::error::Css2TwError;
use crate::report::{ConfidenceReason, ConfidenceReport};
use crate::rewrite::patch::Replacement;
use crate::source::attrs::{class_uses, extract_class_uses, uses_match};
use crate::source::class_usage::{ClassUsage, Span};
use crate::source::html::{tag_end_from, ElementPlan};
use crate::source::{byte_offsets, is_offsets, utf8_len, ClassUsageParser, SourceFile};
use crate::css::classes::join_with;
use crate::css::lightning::ComponentKind;
use crate::css::parser::{RuleWithContext, SelectorComponent, StyleRule};
use crate::source::attrs::{assign_at, ci_eq, is_word, kw_at, word_ranges, words_from};
use crate::css::parser::plain_rules;
use crate::number::{all_digits, digits_value, digit_value, is_digit};
use crate::tailwind::vars::{lemma_ws_end, ws_end, ws_end_exec};
use crate::tailwind::values::{ends_with_lit, starts_with_lit};
use crate::css::classes::join_chars;
use crate::text::{eq_chars, find_chars, replace_all_chars, string_of};
use crate::text::{ends_with, find, replace_all, starts_with};
use crate::text::{chars_of, find_chars_from, find_from, lemma_find_occurs, matches_at, occurs_at, push_all, push_str, slice_chars};
use crate::css::selector::is_alphanumeric;
use vstd::prelude::*;

verus! {

/// The end of the run of word characters from `i`.
pub open spec fn word_run(s: Seq<char>, i: int) -> int
    decreases s.len() - i,
{
    if i < 0 || i >= s.len() || !is_word(s[i]) {
        i
    } else {
        word_run(s, i + 1)
    }
}

/// The end of a delimited tag `open ... close` that starts at `i`: the
/// first `close` after `open`.
pub open spec fn delimited_at(s: Seq<char>, i: int, open: Seq<char>, close: Seq<char>) -> Option<int> {
    if occurs_at(s, open, i) {
        match find_from(s, close, i + open.len()) {
            Some(c) => Some(c + close.len()),
            None => None,
        }
    } else {
        None
    }
}

/// The end of a tag of the `p`th pattern that starts at `i`.
pub open spec fn pattern_at(s: Seq<char>, i: int, p: int) -> Option<int> {
    if p == 0 {
        delimited_at(s, i, "<?php"@, "?>"@)
    } else if p == 1 {
        delimited_at(s, i, "<?="@, "?>"@)
    } else if p == 2 {
        delimited_at(s, i, "{{"@, "}}"@)
    } else if p == 3 {
        delimited_at(s, i, "{%"@, "%}"@)
    } else if p == 4 {
        delimited_at(s, i, "{#"@, "#}"@)
    } else if p == 5 {
        delimited_at(s, i, "{!!"@, "!!}"@)
    } else if 0 <= i < s.len() && s[i] == '@' && word_run(s, i + 1) > i + 1 {
        let w = word_run(s, i + 1);
        if p == 6 {
            if w < s.len() && s[w] == '(' {
                match find_from(s, ")"@, w + 1) {
                    Some(c) => Some(c + 1),
                    None => None,
                }
            } else {
                None
            }
        } else {
            Some(w)
        }
    } else {
        None
    }
}

/// The leftmost tag of the `p`th pattern at or after `k`: (start, end).
pub open spec fn first_tag(s: Seq<char>, k: int, p: int) -> Option<(int, int)>
    decreases s.len() + 1 - k,
{
    if k < 0 || k > s.len() {
        None
    } else {
        match pattern_at(s, k, p) {
            Some(e) => Some((k, e)),
            None => first_tag(s, k + 1, p),
        }
    }
}

/// The placeholder of the `n`th protected tag.
pub open spec fn placeholder(n: nat) -> Seq<char> {
    "___CSS2TW_TPL_"@ + nat_text(n) + "___"@
}

/// `s` with the tags of the `p`th pattern from `offset` on replaced by
/// placeholders numbered on from `ph.len()`, and the protected texts
/// appended to `ph`.
pub open spec fn protect_pattern(s: Seq<char>, offset: int, p: int, ph: Seq<Seq<char>>) -> (Seq<char>, Seq<Seq<char>>)
    decreases s.len() - offset,
{
    match first_tag(s, offset, p) {
        Some((a, b)) => if offset <= a < b <= s.len() {
            let h = placeholder(ph.len());
            let t = s.subrange(0, a) + h + s.subrange(b, s.len() as int);
            protect_pattern(t, a + h.len(), p, ph.push(s.subrange(a, b)))
        } else {
            (s, ph)
        },
        None => (s, ph),
    }
}

/// `s` with the tags of the patterns from the `p`th on protected.
pub open spec fn protect_from(s: Seq<char>, p: int, ph: Seq<Seq<char>>) -> (Seq<char>, Seq<Seq<char>>)
    decreases 8 - p,
{
    if p >= 8 || p < 0 {
        (s, ph)
    } else {
        let (t, ph2) = protect_pattern(s, 0, p, ph);
        protect_from(t, p + 1, ph2)
    }
}

/// The text with its template tags replaced by placeholders, and the tags.
pub open spec fn protect_spec(s: Seq<char>) -> (Seq<char>, Seq<Seq<char>>) {
    protect_from(s, 0, Seq::empty())
}

proof fn lemma_word_run(s: Seq<char>, i: int)
    requires
        0 <= i <= s.len(),
    ensures
        i <= word_run(s, i) <= s.len(),
    decreases s.len() - i,
{
    if !(i >= s.len() || !is_word(s[i])) {
        lemma_word_run(s, i + 1);
    }
}

fn word_run_exec(s: &[char], i: usize) -> (r: usize)
    requires
        i <= s@.len(),
    ensures
        r == word_run(s@, i as int),
{
    let mut k = i;
    while k < s.len() && (is_alphanumeric(s[k]) || s[k] == '_')
        invariant
            i <= k <= s@.len(),
            word_run(s@, i as int) == word_run(s@, k as int),
        decreases s.len() - k,
    {
        k = k + 1;
    }
    k
}

fn delimited_at_exec(s: &[char], i: usize, open: &str, close: &str) -> (r: Option<usize>)
    requires
        i <= s@.len(),
        open@.len() > 0,
    ensures
        match r {
            Some(e) => delimited_at(s@, i as int, open@, close@) == Some(e as int) && i < e <= s@.len(),
            None => delimited_at(s@, i as int, open@, close@) is None,
        },
{
    let o = chars_of(open);
    let c = chars_of(close);
    if !matches_at(s, o.as_slice(), i) {
        return None;
    }
    assert(i + o.len() <= s.len());
    match find_chars_from(s, c.as_slice(), i + o.len()) {
        Some(k) => {
            proof {
                lemma_find_occurs(s@, c@, i + o@.len());
            }
            assert(k + c.len() <= s.len());
            Some(k + c.len())
        },
        None => None,
    }
}

proof fn lemma_open_nonempty()
    ensures
        "<?php"@.len() == 5,
        "<?="@.len() == 3,
        "{{"@.len() == 2,
        "{%"@.len() == 2,
        "{#"@.len() == 2,
        "{!!"@.len() == 3,
{
    reveal_strlit("<?php");
    reveal_strlit("<?=");
    reveal_strlit("{{");
    reveal_strlit("{%");
    reveal_strlit("{#");
    reveal_strlit("{!!");
}

fn pattern_at_exec(s: &[char], i: usize, p: usize) -> (r: Option<usize>)
    requires
        i <= s@.len(),
        p < 8,
    ensures
        match r {
            Some(e) => pattern_at(s@, i as int, p as int) == Some(e as int) && i < e <= s@.len(),
            None => pattern_at(s@, i as int, p as int) is None,
        },
{
    proof {
        lemma_open_nonempty();
    }
    if p == 0 {
        delimited_at_exec(s, i, "<?php", "?>")
    } else if p == 1 {
        delimited_at_exec(s, i, "<?=", "?>")
    } else if p == 2 {
        delimited_at_exec(s, i, "{{", "}}")
    } else if p == 3 {
        delimited_at_exec(s, i, "{%", "%}")
    } else if p == 4 {
        delimited_at_exec(s, i, "{#", "#}")
    } else if p == 5 {
        delimited_at_exec(s, i, "{!!", "!!}")
    } else {
        if !(i < s.len() && s[i] == '@') {
            return None;
        }
        proof {
            lemma_word_run(s@, i + 1);
        }
        let w = word_run_exec(s, i + 1);
        if w <= i + 1 {
            return None;
        }
        if p == 6 {
            if w < s.len() && s[w] == '(' {
                let close = chars_of(")");
                match find_chars_from(s, close.as_slice(), w + 1) {
                    Some(c) => {
                        proof {
                            reveal_strlit(")");
                            lemma_find_occurs(s@, close@, w + 1);
                        }
                        Some(c + 1)
                    },
                    None => None,
                }
            } else {
                None
            }
        } else {
            Some(w)
        }
    }
}

fn first_tag_exec(s: &[char], k: usize, p: usize) -> (r: Option<(usize, usize)>)
    requires
        k <= s@.len(),
        p < 8,
    ensures
        match r {
            Some((a, b)) => first_tag(s@, k as int, p as int) == Some((a as int, b as int)) && k <= a < b <= s@.len(),
            None => first_tag(s@, k as int, p as int) is None,
        },
{
    let mut i = k;
    while i <= s.len()
        invariant
            k <= i <= s@.len() + 1,
            p < 8,
            first_tag(s@, k as int, p as int) == first_tag(s@, i as int, p as int),
        decreases s@.len() + 1 - i,
    {
        if let Some(e) = pattern_at_exec(s, i, p) {
            return Some((i, e));
        }
        if i == s.len() {
            assert(first_tag(s@, i + 1, p as int) is None);
            return None;
        }
        i = i + 1;
    }
    None
}

fn placeholder_exec(n: usize) -> (r: Vec<char>)
    ensures
        r@ == placeholder(n as nat),
{
    let mut r = chars_of("___CSS2TW_TPL_");
    let d = nat_chars(n as u128);
    push_all(&mut r, d.as_slice());
    push_str(&mut r, "___");
    r
}

/// Replaces the template tags of `content` by placeholders, as
/// `protect_spec` says: the protected text and the tags, in the order of
/// their placeholders.
pub fn protect_templates(content: &str) -> (r: (Vec<char>, Vec<Vec<char>>))
    ensures
        (r.0@, r.1@.map_values(|v: Vec<char>| v@)) == protect_spec(content@),
{
    let mut s = chars_of(content);
    let mut ph: Vec<Vec<char>> = Vec::new();
    assert(ph@.map_values(|v: Vec<char>| v@) =~= Seq::<Seq<char>>::empty());
    for p in 0..8usize
        invariant
            protect_from(s@, p as int, ph@.map_values(|v: Vec<char>| v@)) == protect_spec(content@),
    {
        let mut offset: usize = 0;
        let ghost start = (s@, ph@.map_values(|v: Vec<char>| v@));
        loop
            invariant
                p < 8,
                offset <= s@.len(),
                protect_pattern(s@, offset as int, p as int, ph@.map_values(|v: Vec<char>| v@)) == protect_pattern(start.0, 0, p as int, start.1),
                protect_from(start.0, p as int, start.1) == protect_spec(content@),
            ensures
                protect_pattern(start.0, 0, p as int, start.1) == (s@, ph@.map_values(|v: Vec<char>| v@)),
                protect_from(start.0, p as int, start.1) == protect_spec(content@),
            decreases s@.len() - offset,
        {
            match first_tag_exec(s.as_slice(), offset, p) {
                Some((a, b)) => {
                    let h = placeholder_exec(ph.len());
                    let tag = slice_chars(s.as_slice(), a, b);
                    let mut t = slice_chars(s.as_slice(), 0, a);
                    push_all(&mut t, h.as_slice());
                    let tail = slice_chars(s.as_slice(), b, s.len());
                    push_all(&mut t, tail.as_slice());
                    let ghost before = ph@;
                    ph.push(tag);
                    proof {
                        assert(ph@.map_values(|v: Vec<char>| v@) =~= before.map_values(|v: Vec<char>| v@).push(s@.subrange(a as int, b as int)));
                        assert(before.map_values(|v: Vec<char>| v@).len() == before.len());
                    }
                    assert(a + h.len() <= t.len());
                    offset = a + h.len();
                    s = t;
                },
                None => {
                    break;
                },
            }
        }
        proof {
            assert(protect_from(start.0, p as int, start.1) == protect_from(s@, p + 1, ph@.map_values(|v: Vec<char>| v@)));
        }
    }
    (s, ph)
}

/// Letters are compared in either case: ASCII letters, and `ſ` with `s`
/// and the Kelvin sign with `k`.
pub open spec fn fold(c: char) -> char {
    if 'A' <= c && c <= 'Z' {
        ((c as u8) + 32) as char
    } else if c == '\u{17f}' {
        's'
    } else if c == '\u{212a}' {
        'k'
    } else {
        c
    }
}

/// `s` holds `v` at `i`, letters compared in either case.
pub open spec fn ci_occurs_at(s: Seq<char>, v: Seq<char>, i: int) -> bool {
    0 <= i && i + v.len() <= s.len() && forall|k: int| 0 <= k < v.len() ==> fold(#[trigger] s[i + k]) == fold(v[k])
}

/// A value `v` quoted at `b` (letters in either case): its range.
pub open spec fn quoted_value_at(s: Seq<char>, b: int, v: Seq<char>) -> Option<(int, int)> {
    if 0 <= b < s.len() && (s[b] == '"' || s[b] == '\'') && ci_occurs_at(s, v, b + 1) && b + 1 + v.len() < s.len()
        && s[b + 1 + v.len()] == s[b] {
        Some((b + 1, b + 1 + v.len()))
    } else {
        None
    }
}

/// `=` and the quoted value `v`, with optional white space, from `j`.
pub open spec fn assign_value_at(s: Seq<char>, j: int, v: Seq<char>) -> Option<(int, int)> {
    let a = ws_end(s, j);
    if 0 <= a < s.len() && s[a] == '=' {
        quoted_value_at(s, ws_end(s, a + 1), v)
    } else {
        None
    }
}

/// A `class` or `className` attribute with the value `v` (letters in
/// either case) that starts at `i`: its value's range.
pub open spec fn attr_value_at(s: Seq<char>, i: int, v: Seq<char>) -> Option<(int, int)> {
    if (i == 0 || (0 < i <= s.len() && !is_word(s[i - 1]))) && kw_at(s, i, "class"@) {
        match assign_value_at(s, i + 5, v) {
            Some(r) => Some(r),
            None => if kw_at(s, i + 5, "name"@) {
                assign_value_at(s, i + 9, v)
            } else {
                None
            },
        }
    } else {
        None
    }
}

/// The leftmost such attribute at or after `k`: its start and the end of
/// the match (after the closing quote).
pub open spec fn first_attr_value(s: Seq<char>, k: int, v: Seq<char>) -> Option<(int, int)>
    decreases s.len() + 1 - k,
{
    if k < 0 || k > s.len() {
        None
    } else {
        match attr_value_at(s, k, v) {
            Some((vs, ve)) => Some((k, ve + 1)),
            None => first_attr_value(s, k + 1, v),
        }
    }
}

/// The first place in `s[from..to]` where `v` stands exactly between two
/// equal quotes: the range of `v`.
pub open spec fn exact_value_in(s: Seq<char>, from: int, to: int, v: Seq<char>) -> Option<(int, int)>
    decreases to - from,
{
    if from < 0 || from + v.len() + 2 > to || to > s.len() {
        None
    } else if occurs_at(s, "\""@ + v + "\""@, from) || occurs_at(s, "'"@ + v + "'"@, from) {
        Some((from + 1, from + 1 + v.len()))
    } else {
        exact_value_in(s, from + 1, to, v)
    }
}

/// The value of a class attribute with the value `v`, found from `k` on:
/// the leftmost attribute (letters in either case) and in it the value
/// written exactly.
pub open spec fn find_class_value(s: Seq<char>, k: int, v: Seq<char>) -> Option<(int, int)> {
    match first_attr_value(s, k, v) {
        Some((i, end)) => exact_value_in(s, i, end, v),
        None => None,
    }
}

/// A word in the shape of a placeholder.
pub open spec fn placeholder_shaped(w: Seq<char>) -> bool {
    starts_with(w, "___CSS2TW_TPL_"@) && ends_with(w, "___"@)
}

/// An unsigned number as `usize::from_str` reads it: an optional `+` and
/// one or more digits, no larger than `usize::MAX`.
pub open spec fn parse_index(t: Seq<char>) -> Option<nat> {
    let d = if t.len() > 0 && t[0] == '+' { t.drop_first() } else { t };
    if d.len() > 0 && crate::number::all_digits(d) && crate::number::digits_value(d) <= usize::MAX {
        Some(crate::number::digits_value(d))
    } else {
        None
    }
}

/// The text a placeholder-shaped word stands for, if any.
pub open spec fn restored_word(w: Seq<char>, ph: Seq<Seq<char>>) -> Option<Seq<char>> {
    match parse_index(w.subrange(14, w.len() - 3)) {
        Some(n) => if n < ph.len() {
            Some(ph[n as int])
        } else {
            None
        },
        None => None,
    }
}

/// The component is the class `w`.
pub open spec fn is_class(c: SelectorComponent, w: Seq<char>) -> bool {
    c.kind matches ComponentKind::Class(n) && n@ == w
}

/// The rightmost compound selector of `cs` (the components before the
/// first combinator) has the class `w`.
pub open spec fn rightmost_class(cs: Seq<SelectorComponent>, w: Seq<char>) -> bool {
    exists|i: int| 0 <= i < cs.len() && (forall|k: int| 0 <= k < i ==> !(cs[k].kind is Combinator)) && is_class(#[trigger] cs[i], w)
}

/// Some rule's selector names the class `w` in its rightmost compound.
pub open spec fn was_matched(w: Seq<char>, rules: Seq<StyleRule>) -> bool {
    exists|r: int, k: int| 0 <= r < rules.len() && 0 <= k < rules[r].selectors@.len() && rightmost_class(#[trigger] rules[r].selectors@[k].components@, w)
}

/// What stays of the words of a class attribute: a word that is a
/// placeholder is restored to its template tag; a class name that a rule
/// names is dropped (it is among the new classes); any other word is kept
/// with the placeholders inside it restored (`restore_upto`), so a tag
/// glued to other text, as in `btn-{{ x }}`, comes back as it was.
pub open spec fn kept_words(ws: Seq<Seq<char>>, ph: Seq<Seq<char>>, rules: Seq<StyleRule>) -> Seq<Seq<char>>
    decreases ws.len(),
{
    if ws.len() == 0 {
        Seq::empty()
    } else {
        let w = ws.last();
        kept_words(ws.drop_last(), ph, rules) + if placeholder_shaped(w) {
            match restored_word(w, ph) {
                Some(t) => seq![t],
                None => Seq::empty(),
            }
        } else if was_matched(w, rules) {
            Seq::empty()
        } else {
            seq![restore_upto(w, ph, ph.len() as int)]
        }
    }
}

/// The new value of a class attribute `cs`: the Tailwind classes `tw`
/// (when there are any) and the kept words, joined with spaces.
pub open spec fn fragment_after(tw: Seq<char>, cs: Seq<char>, ph: Seq<Seq<char>>, rules: Seq<StyleRule>) -> Seq<char> {
    let head: Seq<Seq<char>> = if tw.len() > 0 { seq![tw] } else { Seq::empty() };
    join_with(head + kept_words(words_from(cs, 0), ph, rules), " "@)
}

/// `t` with the placeholders `0..n` replaced by the texts they stand for,
/// in that order.
pub open spec fn restore_upto(t: Seq<char>, ph: Seq<Seq<char>>, n: int) -> Seq<char>
    decreases n,
{
    if n <= 0 || n > ph.len() {
        t
    } else {
        replace_all(restore_upto(t, ph, n - 1), placeholder((n - 1) as nat), ph[n - 1])
    }
}

/// No word of a class attribute is placeholder-shaped and shorter than a
/// placeholder can be.
pub open spec fn words_ok(cs: Seq<char>) -> bool {
    forall|i: int| 0 <= i < words_from(cs, 0).len() ==> !(placeholder_shaped(#[trigger] words_from(cs, 0)[i]) && words_from(cs, 0)[i].len() < 17)
}

fn fold_exec(c: char) -> (r: char)
    ensures
        r == fold(c),
{
    if 'A' <= c && c <= 'Z' {
        ((c as u8) + 32u8) as char
    } else if c == '\u{17f}' {
        's'
    } else if c == '\u{212a}' {
        'k'
    } else {
        c
    }
}

fn ci_occurs_at_exec(s: &[char], v: &[char], i: usize) -> (r: bool)
    ensures
        r == ci_occurs_at(s@, v@, i as int),
{
    if i > s.len() || v.len() > s.len() - i {
        return false;
    }
    for k in 0..v.len()
        invariant
            i + v@.len() <= s@.len(),
            forall|t: int| 0 <= t < k ==> fold(#[trigger] s@[i + t]) == fold(v@[t]),
    {
        assert(i + k < s.len());
        if fold_exec(s[i + k]) != fold_exec(v[k]) {
            return false;
        }
    }
    true
}

fn quoted_value_at_exec(s: &[char], b: usize, v: &[char]) -> (r: Option<(usize, usize)>)
    ensures
        match r {
            Some((x, y)) => quoted_value_at(s@, b as int, v@) == Some((x as int, y as int)) && b < x <= y < s@.len(),
            None => quoted_value_at(s@, b as int, v@) is None,
        },
{
    if b < s.len() && (s[b] == '"' || s[b] == '\'') && ci_occurs_at_exec(s, v, b + 1) {
        assert(b + 1 + v.len() <= s.len());
        if b + 1 + v.len() < s.len() && s[b + 1 + v.len()] == s[b] {
            return Some((b + 1, b + 1 + v.len()));
        }
    }
    None
}

fn assign_value_at_exec(s: &[char], j: usize, v: &[char]) -> (r: Option<(usize, usize)>)
    requires
        j <= s@.len(),
    ensures
        match r {
            Some((x, y)) => assign_value_at(s@, j as int, v@) == Some((x as int, y as int)) && j < x <= y < s@.len(),
            None => assign_value_at(s@, j as int, v@) is None,
        },
{
    proof {
        lemma_ws_end(s@, j as int);
    }
    let a = ws_end_exec(s, j);
    if a < s.len() && s[a] == '=' {
        proof {
            lemma_ws_end(s@, a + 1);
        }
        let b = ws_end_exec(s, a + 1);
        quoted_value_at_exec(s, b, v)
    } else {
        None
    }
}

fn kw_at_fold(s: &[char], i: usize, kw: &str) -> (r: bool)
    ensures
        r == kw_at(s@, i as int, kw@),
{
    let k = chars_of(kw);
    if k.len() > s.len() || i > s.len() - k.len() {
        return false;
    }
    for t in 0..k.len()
        invariant
            k@ == kw@,
            i + k@.len() <= s@.len(),
            forall|u: int| 0 <= u < t ==> ci_eq(#[trigger] s@[i + u], kw@[u]),
    {
        assert(i + t < s.len());
        let c = s[i + t];
        let l = k[t];
        if !(c == l || (c as u32) as u64 + 32 == (l as u32) as u64 || (l == 's' && c == '\u{17f}')) {
            return false;
        }
    }
    true
}

fn attr_value_at_exec(s: &[char], i: usize, v: &[char]) -> (r: Option<(usize, usize)>)
    requires
        i <= s@.len(),
    ensures
        match r {
            Some((x, y)) => attr_value_at(s@, i as int, v@) == Some((x as int, y as int)) && i < x <= y < s@.len(),
            None => attr_value_at(s@, i as int, v@) is None,
        },
{
    let boundary = i == 0 || !(is_alphanumeric(s[i - 1]) || s[i - 1] == '_');
    if !boundary || !kw_at_fold(s, i, "class") {
        return None;
    }
    proof {
        reveal_strlit("class");
    }
    match assign_value_at_exec(s, i + 5, v) {
        Some(r) => Some(r),
        None => if kw_at_fold(s, i + 5, "name") {
            proof {
                reveal_strlit("name");
            }
            assign_value_at_exec(s, i + 9, v)
        } else {
            None
        },
    }
}

fn first_attr_value_exec(s: &[char], k: usize, v: &[char]) -> (r: Option<(usize, usize)>)
    requires
        k <= s@.len(),
    ensures
        match r {
            Some((x, y)) => first_attr_value(s@, k as int, v@) == Some((x as int, y as int)) && k <= x < y <= s@.len(),
            None => first_attr_value(s@, k as int, v@) is None,
        },
{
    let mut i = k;
    while i < s.len()
        invariant
            k <= i <= s@.len(),
            first_attr_value(s@, k as int, v@) == first_attr_value(s@, i as int, v@),
        decreases s@.len() - i,
    {
        if let Some((_vs, ve)) = attr_value_at_exec(s, i, v) {
            return Some((i, ve + 1));
        }
        i = i + 1;
    }
    assert(attr_value_at(s@, i as int, v@) is None);
    assert(first_attr_value(s@, i + 1, v@) is None);
    None
}

fn exact_value_in_exec(s: &[char], from: usize, to: usize, v: &[char]) -> (r: Option<(usize, usize)>)
    requires
        to <= s@.len(),
    ensures
        match r {
            Some((x, y)) => exact_value_in(s@, from as int, to as int, v@) == Some((x as int, y as int)) && y < s@.len() && x <= y,
            None => exact_value_in(s@, from as int, to as int, v@) is None,
        },
{
    let mut d = chars_of("\"");
    push_all(&mut d, v);
    push_str(&mut d, "\"");
    let mut q = chars_of("'");
    push_all(&mut q, v);
    push_str(&mut q, "'");
    proof {
        reveal_strlit("\"");
        reveal_strlit("'");
    }
    let mut i = from;
    while i <= to && v.len() <= to - i && 2 <= to - i - v.len()
        invariant
            to <= s@.len(),
            d@ == "\""@ + v@ + "\""@,
            q@ == "'"@ + v@ + "'"@,
            from <= i,
            exact_value_in(s@, from as int, to as int, v@) == exact_value_in(s@, i as int, to as int, v@),
        decreases to - i,
    {
        if matches_at(s, d.as_slice(), i) || matches_at(s, q.as_slice(), i) {
            return Some((i + 1, i + 1 + v.len()));
        }
        i = i + 1;
    }
    None
}

fn find_class_value_exec(s: &[char], k: usize, v: &[char]) -> (r: Option<(usize, usize)>)
    requires
        k <= s@.len(),
    ensures
        match r {
            Some((x, y)) => find_class_value(s@, k as int, v@) == Some((x as int, y as int)) && x <= y < s@.len(),
            None => find_class_value(s@, k as int, v@) is None,
        },
{
    match first_attr_value_exec(s, k, v) {
        Some((i, end)) => exact_value_in_exec(s, i, end, v),
        None => None,
    }
}

proof fn lemma_digits_prefix(s: Seq<char>, k: int)
    requires
        0 <= k <= s.len(),
    ensures
        digits_value(s.subrange(0, k)) <= digits_value(s),
    decreases s.len() - k,
{
    if k < s.len() {
        lemma_digits_prefix(s.drop_last(), k);
        assert(s.drop_last().subrange(0, k) =~= s.subrange(0, k));
    } else {
        assert(s.subrange(0, k) =~= s);
    }
}

fn parse_index_exec(t: &[char]) -> (r: Option<usize>)
    ensures
        match r {
            Some(n) => parse_index(t@) == Some(n as nat),
            None => parse_index(t@) is None,
        },
{
    let start: usize = if t.len() > 0 && t[0] == '+' { 1 } else { 0 };
    let d = slice_chars(t, start, t.len());
    assert(d@ == (if t@.len() > 0 && t@[0] == '+' { t@.drop_first() } else { t@ }));
    if d.len() == 0 {
        return None;
    }
    let mut v: u128 = 0;
    assert(d@.subrange(0, 0) =~= Seq::<char>::empty());
    for i in 0..d.len()
        invariant
            d@ == (if t@.len() > 0 && t@[0] == '+' { t@.drop_first() } else { t@ }),
            d@.len() > 0,
            v == digits_value(d@.subrange(0, i as int)),
            v <= usize::MAX,
            all_digits(d@.subrange(0, i as int)),
    {
        assert(d@.subrange(0, i + 1).drop_last() =~= d@.subrange(0, i as int));
        if !('0' <= d[i] && d[i] <= '9') {
            assert(!is_digit(d@[i as int]));
            assert(!all_digits(d@));
            return None;
        }
        let nv: u128 = v * 10 + ((d[i] as u32) - 48) as u128;
        assert(nv == digits_value(d@.subrange(0, i + 1)));
        if nv > usize::MAX as u128 {
            proof {
                if all_digits(d@) {
                    lemma_digits_prefix(d@, i + 1);
                }
            }
            return None;
        }
        v = nv;
        assert(all_digits(d@.subrange(0, i + 1)));
    }
    assert(d@.subrange(0, d@.len() as int) =~= d@);
    Some(v as usize)
}

fn placeholder_shaped_exec(w: &[char]) -> (r: bool)
    ensures
        r == placeholder_shaped(w@),
{
    starts_with_lit(w, "___CSS2TW_TPL_") && ends_with_lit(w, "___")
}

fn rightmost_class_exec(cs: &Vec<SelectorComponent>, w: &[char]) -> (r: bool)
    ensures
        r == rightmost_class(cs@, w@),
{
    for i in 0..cs.len()
        invariant
            forall|k: int| 0 <= k < i ==> !(cs@[k].kind is Combinator),
            forall|k: int| 0 <= k < i ==> !is_class(#[trigger] cs@[k], w@),
    {
        match &cs[i].kind {
            ComponentKind::Combinator => {
                assert forall|j: int| 0 <= j < cs@.len() && (forall|k: int| 0 <= k < j ==> !(cs@[k].kind is Combinator)) implies !is_class(#[trigger] cs@[j], w@) by {
                    if j > i {
                        assert(cs@[i as int].kind is Combinator);
                    }
                }
                return false;
            },
            ComponentKind::Class(n) => {
                let nc = chars_of(n);
                if eq_chars(nc.as_slice(), w) {
                    assert(is_class(cs@[i as int], w@));
                    return true;
                }
            },
            _ => {},
        }
    }
    false
}

/// Some selector of the rule names the class `w` in its rightmost compound.
pub open spec fn rule_names_class(rule: StyleRule, w: Seq<char>) -> bool {
    exists|k: int| 0 <= k < rule.selectors@.len() && rightmost_class(#[trigger] rule.selectors@[k].components@, w)
}

fn rule_names_class_exec(rule: &StyleRule, w: &[char]) -> (r: bool)
    ensures
        r == rule_names_class(*rule, w@),
{
    for k in 0..rule.selectors.len()
        invariant
            forall|b: int| 0 <= b < k ==> !rightmost_class(#[trigger] rule.selectors@[b].components@, w@),
    {
        if rightmost_class_exec(&rule.selectors[k].components, w) {
            return true;
        }
    }
    false
}

fn was_matched_exec(w: &[char], rules: &[RuleWithContext]) -> (r: bool)
    ensures
        r == was_matched(w@, plain_rules(rules@)),
{
    let ghost rs = plain_rules(rules@);
    for r in 0..rules.len()
        invariant
            rs == plain_rules(rules@),
            rs.len() == rules@.len(),
            forall|a: int| 0 <= a < r ==> !rule_names_class(#[trigger] rs[a], w@),
    {
        if rule_names_class_exec(rules[r].rule, w) {
            assert(rs[r as int] == *rules@[r as int].rule);
            let ghost k = choose|k: int| 0 <= k < rs[r as int].selectors@.len() && rightmost_class(#[trigger] rs[r as int].selectors@[k].components@, w@);
            assert(rightmost_class(rs[r as int].selectors@[k].components@, w@));
            return true;
        }
        assert(rs[r as int] == *rules@[r as int].rule);
    }
    assert forall|a: int, k: int| 0 <= a < rs.len() && 0 <= k < rs[a].selectors@.len() implies !rightmost_class(#[trigger] rs[a].selectors@[k].components@, w@) by {
        assert(!rule_names_class(rs[a], w@));
    }
    false
}

fn restored_word_exec(w: &[char], ph: &Vec<Vec<char>>) -> (r: Option<Vec<char>>)
    requires
        w@.len() >= 17,
    ensures
        match r {
            Some(t) => restored_word(w@, ph@.map_values(|v: Vec<char>| v@)) == Some(t@),
            None => restored_word(w@, ph@.map_values(|v: Vec<char>| v@)) is None,
        },
{
    let inner = slice_chars(w, 14, w.len() - 3);
    match parse_index_exec(inner.as_slice()) {
        Some(n) => if n < ph.len() {
            Some(slice_chars(ph[n].as_slice(), 0, ph[n].len()))
        } else {
            None
        },
        None => None,
    }
}

/// The new value of a class attribute, as `fragment_after` says.
fn fragment_after_exec(tw: &[char], cs: &[char], ph: &Vec<Vec<char>>, rules: &[RuleWithContext]) -> (r: Vec<char>)
    requires
        words_ok(cs@),
    ensures
        r@ == fragment_after(tw@, cs@, ph@.map_values(|v: Vec<char>| v@), plain_rules(rules@)),
{
    let ghost phv = ph@.map_values(|v: Vec<char>| v@);
    let ghost rs = plain_rules(rules@);
    let mut parts: Vec<Vec<char>> = Vec::new();
    let ghost head: Seq<Seq<char>> = if tw@.len() > 0 { seq![tw@] } else { Seq::empty() };
    if tw.len() > 0 {
        let c = slice_chars(tw, 0, tw.len());
        assert(c@ =~= tw@);
        parts.push(c);
        assert(parts@.map_values(|v: Vec<char>| v@) =~= head);
    } else {
        assert(parts@.map_values(|v: Vec<char>| v@) =~= head);
    }
    let ws = word_ranges(cs);
    let ghost words = words_from(cs@, 0);
    assert(words.subrange(0, 0) =~= Seq::<Seq<char>>::empty());
    assert(head + kept_words(Seq::<Seq<char>>::empty(), phv, rs) =~= head);
    for k in 0..ws.len()
        invariant
            phv == ph@.map_values(|v: Vec<char>| v@),
            rs == plain_rules(rules@),
            words == words_from(cs@, 0),
            words_ok(cs@),
            ws@.map_values(|x: (usize, usize)| cs@.subrange(x.0 as int, x.1 as int)) == words,
            forall|t: int| 0 <= t < ws@.len() ==> (#[trigger] ws@[t]).0 <= ws@[t].1 <= cs@.len(),
            parts@.map_values(|v: Vec<char>| v@) == head + kept_words(words.subrange(0, k as int), phv, rs),
            head == (if tw@.len() > 0 { seq![tw@] } else { Seq::<Seq<char>>::empty() }),
    {
        let (a, b) = ws[k];
        let w = slice_chars(cs, a, b);
        proof {
            assert(w@ == words[k as int]);
            assert(words.subrange(0, k + 1).drop_last() =~= words.subrange(0, k as int));
            assert(words.subrange(0, k + 1).last() == words[k as int]);
        }
        let ghost before = parts@.map_values(|v: Vec<char>| v@);
        if placeholder_shaped_exec(w.as_slice()) {
            assert(!(placeholder_shaped(words[k as int]) && words[k as int].len() < 17));
            match restored_word_exec(w.as_slice(), ph) {
                Some(t) => {
                    let ghost tv = t@;
                    parts.push(t);
                    assert(parts@.map_values(|v: Vec<char>| v@) =~= before.push(tv));
                },
                None => {},
            }
        } else if was_matched_exec(w.as_slice(), rules) {
        } else {
            let rw = restore_exec(w.as_slice(), ph);
            let ghost wv = rw@;
            parts.push(rw);
            assert(parts@.map_values(|v: Vec<char>| v@) =~= before.push(wv));
        }
        assert(parts@.map_values(|v: Vec<char>| v@) =~= head + kept_words(words.subrange(0, k + 1), phv, rs));
    }
    assert(words.subrange(0, ws@.len() as int) =~= words);
    join_chars(&parts, " ")
}

fn restore_exec(t: &[char], ph: &Vec<Vec<char>>) -> (r: Vec<char>)
    ensures
        r@ == restore_upto(t@, ph@.map_values(|v: Vec<char>| v@), ph@.len() as int),
{
    let ghost phv = ph@.map_values(|v: Vec<char>| v@);
    let mut cur = slice_chars(t, 0, t.len());
    for i in 0..ph.len()
        invariant
            phv == ph@.map_values(|v: Vec<char>| v@),
            cur@ == restore_upto(t@, phv, i as int),
    {
        let h = placeholder_exec(i);
        proof {
            reveal_strlit("___CSS2TW_TPL_");
        }
        cur = replace_all_chars(cur.as_slice(), h.as_slice(), ph[i].as_slice());
    }
    cur
}

/// An element over plain values, for fragments: tag name, class
/// attribute, Tailwind classes.
pub open spec fn fragment_view(e: ElementPlan, rem: Decimal) -> (Seq<char>, Option<Seq<char>>, Seq<char>) {
    (
        e.name@,
        match e.class_attr {
            Some(c) => Some(c@),
            None => None,
        },
        tailwind_spec(mapping_views(e.style.properties@), rem, *e.style.variable_map),
    )
}

pub open spec fn fragment_views(es: Seq<ElementPlan>, rem: Decimal) -> Seq<(Seq<char>, Option<Seq<char>>, Seq<char>)> {
    es.map_values(|e: ElementPlan| fragment_view(e, rem))
}

/// What planning one element `e` of a fragment does, from the character
/// `cur` of `prot` on: the edit it makes, if any (start, end, new text, old
/// text, in characters of the source `src`), and where the search goes on.
/// `prot` is the source with its template tags protected (`ph`).
///
/// An element with neither classes nor a class attribute is passed over.
/// An element's class attribute is found in `prot` (see
/// `find_class_value`); its new value is `fragment_after`; where that
/// differs, the attribute with the restored value is found in `src` and its
/// value replaced. An element without a class attribute gets
/// ` class="..."` after the first `<tag` of `src`, when `prot` has the tag
/// from `cur` on.
pub open spec fn fragment_step(
    src: Seq<char>,
    prot: Seq<char>,
    ph: Seq<Seq<char>>,
    rules: Seq<StyleRule>,
    e: (Seq<char>, Option<Seq<char>>, Seq<char>),
    cur: int,
) -> (Option<(int, int, Seq<char>, Seq<char>)>, int) {
    if e.2.len() == 0 && e.1 is None {
        (None, cur)
    } else {
        match e.1 {
            Some(cs) => match find_class_value(prot, cur, cs) {
                None => (None, cur),
                Some((a, b)) => {
                    let after = fragment_after(e.2, cs, ph, rules);
                    if after == cs {
                        (None, b)
                    } else {
                        let orig = restore_upto(cs, ph, ph.len() as int);
                        match find_class_value(src, 0, orig) {
                            Some((x, y)) => (Some((x, y, after, orig)), b),
                            None => (None, b),
                        }
                    }
                },
            },
            None => {
                let pat = "<"@ + e.0;
                match find(src, pat) {
                    None => (None, cur),
                    Some(o) => match tag_end_from(prot, pat, cur) {
                        Some(t) => (Some((o + pat.len(), o + pat.len(), " class=\""@ + e.2 + "\""@, Seq::empty())), t),
                        None => (None, cur),
                    },
                }
            },
        }
    }
}

/// The edits that planning the elements `els` of a fragment makes, each
/// as `fragment_step` says, the search going on where the last left it.
pub open spec fn fragment_steps(
    src: Seq<char>,
    prot: Seq<char>,
    ph: Seq<Seq<char>>,
    rules: Seq<StyleRule>,
    els: Seq<(Seq<char>, Option<Seq<char>>, Seq<char>)>,
    cur: int,
) -> Seq<(int, int, Seq<char>, Seq<char>)>
    decreases els.len(),
{
    if els.len() == 0 {
        Seq::empty()
    } else {
        let (edit, next) = fragment_step(src, prot, ph, rules, els[0], cur);
        let head: Seq<(int, int, Seq<char>, Seq<char>)> = match edit {
            Some(x) => seq![x],
            None => Seq::empty(),
        };
        head + fragment_steps(src, prot, ph, rules, els.drop_first(), next)
    }
}

/// The element's class attribute, if any, passes `words_ok`.
pub open spec fn class_attr_ok(e: ElementPlan) -> bool {
    match e.class_attr {
        Some(c) => words_ok(c@),
        None => true,
    }
}

/// The replacements carry the edits of a fragment, in bytes of `s`.
pub open spec fn fragment_match(s: Seq<char>, r: Seq<Replacement>, steps: Seq<(int, int, Seq<char>, Seq<char>)>) -> bool {
    &&& r.len() == steps.len()
    &&& forall|i: int| 0 <= i < r.len() ==> {
        &&& (#[trigger] r[i]).span.start == utf8_len(s.subrange(0, steps[i].0))
        &&& r[i].span.end == utf8_len(s.subrange(0, steps[i].1))
        &&& r[i].after@ == steps[i].2
        &&& r[i].before@ == steps[i].3
        &&& r[i].failure_reason is None
    }
}

fn full_match(before: Vec<char>, after: Vec<char>, span: Span, trace: &str) -> (r: Replacement)
    ensures
        r.span == span,
        r.before@ == before@,
        r.after@ == after@,
        r.failure_reason is None,
{
    let mut reasons: Vec<ConfidenceReason> = Vec::new();
    reasons.push(ConfidenceReason::FullMatch);
    let mut t: Vec<String> = Vec::new();
    t.push(String::from_str(trace));
    Replacement {
        span,
        before: string_of(before.as_slice()),
        after: string_of(after.as_slice()),
        confidence: ConfidenceReport { score: Decimal { negative: false, digits: 1, scale: 0 }, reasons },
        reasons: Vec::new(),
        trace: t,
        raw_css: None,
        suggestion: None,
        failure_reason: None,
        diagnostics: Vec::new(),
    }
}

/// One step of `plan_fragment_elements`, as `fragment_step` says.
fn plan_fragment_element(
    s: &Vec<char>,
    offsets: &Vec<usize>,
    prot: &[char],
    ph: &Vec<Vec<char>>,
    rules: &[RuleWithContext],
    e: &ElementPlan,
    cur: usize,
    rem_scale: &Decimal,
) -> (r: (Option<Replacement>, usize))
    requires
        is_offsets(s@, offsets@),
        cur <= prot@.len(),
        rem_scale.wf(),
        forall|k: int| 0 <= k < e.style.properties@.len() ==> (#[trigger] e.style.properties@[k]).property.wf(),
        class_attr_ok(*e),
    ensures
        r.1 <= prot@.len(),
        ({
            let (edit, next) = fragment_step(s@, prot@, ph@.map_values(|v: Vec<char>| v@), plain_rules(rules@), fragment_view(*e, *rem_scale), cur as int);
            &&& next == r.1
            &&& match (edit, r.0) {
                (Some(x), Some(rep)) => rep.span.start == utf8_len(s@.subrange(0, x.0)) && rep.span.end == utf8_len(s@.subrange(0, x.1))
                    && rep.after@ == x.2 && rep.before@ == x.3 && rep.failure_reason is None,
                (None, None) => true,
                _ => false,
            }
        }),
{
    let tw = e.style.to_tailwind_string(rem_scale);
    let twc = chars_of(&tw);
    if twc.len() == 0 && e.class_attr.is_none() {
        return (None, cur);
    }
    match &e.class_attr {
        Some(cs) => {
            let cc = chars_of(cs);
            match find_class_value_exec(prot, cur, cc.as_slice()) {
                None => (None, cur),
                Some((_a, b)) => {
                    let after = fragment_after_exec(twc.as_slice(), cc.as_slice(), ph, rules);
                    if eq_chars(after.as_slice(), cc.as_slice()) {
                        return (None, b);
                    }
                    let orig = restore_exec(cc.as_slice(), ph);
                    match find_class_value_exec(s.as_slice(), 0, orig.as_slice()) {
                        Some((x, y)) => {
                            let rep = full_match(orig, after, Span { start: offsets[x], end: offsets[y] }, "Matched fragment element with template tag protection");
                            (Some(rep), b)
                        },
                        None => (None, b),
                    }
                },
            }
        },
        None => {
            let mut pat = chars_of("<");
            let nc = chars_of(&e.name);
            push_all(&mut pat, nc.as_slice());
            match find_chars(s.as_slice(), pat.as_slice()) {
                None => (None, cur),
                Some(o) => {
                    proof {
                        lemma_find_occurs(s@, pat@, 0);
                    }
                    match crate::source::html::tag_end_from_exec(prot, pat.as_slice(), cur) {
                        Some(t) => {
                            assert(o + pat.len() <= s.len());
                            let at = o + pat.len();
                            let mut a = chars_of(" class=\"");
                            push_all(&mut a, twc.as_slice());
                            push_str(&mut a, "\"");
                            let rep = full_match(Vec::new(), a, Span { start: offsets[at], end: offsets[at] }, "Inserted new class attribute in fragment");
                            (Some(rep), t)
                        },
                        None => (None, cur),
                    }
                },
            }
        },
    }
}

/// Plans the replacements of the elements of a fragment, as
/// `fragment_steps` says.
#[verifier::rlimit(50)]
#[verifier::spinoff_prover]
pub fn plan_fragment_elements(
    src: &str,
    prot: &[char],
    ph: &Vec<Vec<char>>,
    rules: &[RuleWithContext],
    els: &Vec<ElementPlan>,
    rem_scale: &Decimal,
) -> (r: Vec<Replacement>)
    requires
        rem_scale.wf(),
        forall|i: int, k: int| 0 <= i < els@.len() && 0 <= k < els@[i].style.properties@.len() ==> (#[trigger] els@[i].style.properties@[k]).property.wf(),
        forall|i: int| 0 <= i < els@.len() ==> class_attr_ok(#[trigger] els@[i]),
    ensures
        fragment_match(src@, r@, fragment_steps(src@, prot@, ph@.map_values(|v: Vec<char>| v@), plain_rules(rules@), fragment_views(els@, *rem_scale), 0)),
{
    let s = chars_of(src);
    let offsets = byte_offsets(src);
    let ghost phv = ph@.map_values(|v: Vec<char>| v@);
    let ghost rs = plain_rules(rules@);
    let ghost ev = fragment_views(els@, *rem_scale);
    let ghost total = fragment_steps(src@, prot@, phv, rs, ev, 0);
    let mut out: Vec<Replacement> = Vec::new();
    let mut cur: usize = 0;
    assert(ev.subrange(0, ev.len() as int) =~= ev);
    for i in 0..els.len()
        invariant
            s@ == src@,
            is_offsets(src@, offsets@),
            phv == ph@.map_values(|v: Vec<char>| v@),
            rs == plain_rules(rules@),
            ev == fragment_views(els@, *rem_scale),
            rem_scale.wf(),
            forall|a: int, k: int| 0 <= a < els@.len() && 0 <= k < els@[a].style.properties@.len() ==> (#[trigger] els@[a].style.properties@[k]).property.wf(),
            forall|a: int| 0 <= a < els@.len() ==> class_attr_ok(#[trigger] els@[a]),
            cur <= prot@.len(),
            total == fragment_steps(src@, prot@, phv, rs, ev, 0),
            fragment_match(src@, out@, total.subrange(0, out@.len() as int)),
            out@.len() <= total.len(),
            total.subrange(out@.len() as int, total.len() as int) == fragment_steps(src@, prot@, phv, rs, ev.subrange(i as int, ev.len() as int), cur as int),
    {
        let e = &els[i];
        let ghost rest = ev.subrange(i + 1, ev.len() as int);
        proof {
            assert(ev.subrange(i as int, ev.len() as int).drop_first() =~= rest);
            assert(ev.subrange(i as int, ev.len() as int)[0] == fragment_view(*e, *rem_scale));
            assert forall|k: int| 0 <= k < e.style.properties@.len() implies (#[trigger] e.style.properties@[k]).property.wf() by {
                assert(els@[i as int].style.properties@[k].property.wf());
            }
            assert(class_attr_ok(els@[i as int]));
        }
        let ghost done = out@.len();
        let (rep, next) = plan_fragment_element(&s, &offsets, prot, ph, rules, e, cur, rem_scale);
        let ghost step = fragment_step(src@, prot@, phv, rs, fragment_view(*e, *rem_scale), cur as int);
        match rep {
            Some(rep) => {
                let ghost x = step.0->0;
                out.push(rep);
                proof {
                    assert(total.subrange(done as int, total.len() as int) =~= seq![x] + fragment_steps(src@, prot@, phv, rs, rest, next as int));
                    assert(total[done as int] == total.subrange(done as int, total.len() as int)[0]);
                    assert(total.subrange(0, out@.len() as int) =~= total.subrange(0, done as int).push(total[done as int]));
                    assert(total.subrange(out@.len() as int, total.len() as int) =~= total.subrange(done as int, total.len() as int).drop_first());
                }
            },
            None => {
                assert(total.subrange(done as int, total.len() as int) =~= fragment_steps(src@, prot@, phv, rs, rest, next as int));
            },
        }
        cur = next;
    }
    assert(total.subrange(0, total.len() as int) =~= total);
    assert(ev.subrange(els@.len() as int, ev.len() as int) =~= Seq::<(Seq<char>, Option<Seq<char>>, Seq<char>)>::empty());
    out
}

fn words_ok_exec(cs: &[char]) -> (r: bool)
    ensures
        r == words_ok(cs@),
{
    let ws = word_ranges(cs);
    let ghost words = words_from(cs@, 0);
    for k in 0..ws.len()
        invariant
            ws@.map_values(|x: (usize, usize)| cs@.subrange(x.0 as int, x.1 as int)) == words,
            words == words_from(cs@, 0),
            forall|t: int| 0 <= t < ws@.len() ==> (#[trigger] ws@[t]).0 <= ws@[t].1 <= cs@.len(),
            forall|t: int| 0 <= t < k ==> !(placeholder_shaped(#[trigger] words[t]) && words[t].len() < 17),
    {
        let (a, b) = ws[k];
        let w = slice_chars(cs, a, b);
        assert(w@ == words[k as int]);
        if placeholder_shaped_exec(w.as_slice()) && w.len() < 17 {
            return false;
        }
    }
    true
}

/// A parser for template fragments (PHP, Blade, Jinja2, ...).
pub struct FragmentParser;

impl ClassUsageParser for FragmentParser {
    fn extract_classes(&self, source: &SourceFile) -> (r: Result<Vec<ClassUsage>, Css2TwError>)
        ensures
            r matches Ok(v) && uses_match(source.content@, v@, class_uses(source.content@, true, true)),
    {
        Ok(extract_class_uses(source.content.as_str(), true, true))
    }
}

/// The elements of the protected text read as a fragment, in document
/// order, as `fragment_view` reads an element: name, class attribute, and
/// the Tailwind classes of the styles the rules give it (see
/// `dom_element_view`).
pub open spec fn fragment_element_views(
    text: Seq<char>,
    rules: Seq<(StyleRule, Seq<(int, Seq<char>)>)>,
    include_tags: bool,
    rem: Decimal,
    vars: VariableMap,
) -> Seq<(Seq<char>, Option<Seq<char>>, Seq<char>)> {
    Seq::new(dom_element_count(text, true) as nat, |i: int| {
        let d = dom_element_view(text, true, i as usize, rules, include_tags, rem, vars);
        (d.0, d.1, d.2)
    })
}

/// Every class attribute of the protected text, read as a fragment, passes
/// `words_ok`.
pub open spec fn fragment_classes_ok(text: Seq<char>) -> bool {
    forall|i: usize| i < dom_element_count(text, true) ==> match #[trigger] dom_element_class(text, true, i) {
        Some(c) => words_ok(c),
        None => true,
    }
}

/// What planning the fragment `s` gives with the rules: its template tags
/// protected (`protect_spec`), the protected text read as a fragment, its
/// elements resolved against the rules with the variables they define and
/// planned as `fragment_steps` says.
pub open spec fn fragment_plan_ok(
    s: Seq<char>,
    rules: Seq<RuleWithContext>,
    include_tags: bool,
    rem: Decimal,
    v: Seq<Replacement>,
) -> bool {
    let (prot, ph) = protect_spec(s);
    exists|vars: VariableMap| {
        &&& vars.pairs() == variable_entries(plain_rules(rules))
        &&& fragment_match(s, v, fragment_steps(s, prot, ph, plain_rules(rules), fragment_element_views(prot, rwc_views(rules), include_tags, rem, vars), 0))
    }
}

impl FragmentParser {
    /// Plans the conversion of a template fragment: its template tags are
    /// protected by placeholders (`protect_spec`), the protected text is
    /// parsed as an HTML fragment, and each element is planned as
    /// `fragment_step` says for what scraper reads of it
    /// (`fragment_plan_ok`).
    ///
    /// An element whose class attribute holds a word that begins with
    /// `___CSS2TW_TPL_` and ends with `___` but is too short to hold a
    /// number gives `Css2TwError::Internal` (see `fragment_classes_ok`).
    pub fn plan_fragment(
        &self,
        source: &SourceFile,
        style_rules: &[RuleWithContext],
        rem_scale: &Decimal,
        include_tag_selectors: bool,
    ) -> (r: Result<Vec<Replacement>, Css2TwError>)
        requires
            rem_scale.wf(),
            forall|i: int| 0 <= i < style_rules@.len() ==> (#[trigger] style_rules@[i]).rule.wf(),
        ensures
            match r {
                Ok(v) => fragment_classes_ok(protect_spec(source.content@).0)
                    && fragment_plan_ok(source.content@, style_rules@, include_tag_selectors, *rem_scale, v@),
                Err(e) => e is Internal && !fragment_classes_ok(protect_spec(source.content@).0),
            },
    {
        let (prot, ph) = protect_templates(source.content.as_str());
        assert(prot@ == protect_spec(source.content@).0);
        let prot_text = string_of(prot.as_slice());
        let doc = Document::fragment(prot_text.as_str());
        let resolver = StyleResolver::new(style_rules, include_tag_selectors);
        let n = element_count(&doc);
        let ghost rules = rwc_views(style_rules@);
        let ghost want = fragment_element_views(prot@, rules, include_tag_selectors, *rem_scale, resolver.variable_map);
        let mut els: Vec<ElementPlan> = Vec::new();
        for i in 0..n
            invariant
                n == dom_element_count(prot@, true),
                prot@ == protect_spec(source.content@).0,
                doc.source() == prot@,
                doc.is_fragment(),
                resolver.style_rules == style_rules,
                resolver.include_tag_selectors == include_tag_selectors,
                rules == rwc_views(style_rules@),
                want == fragment_element_views(prot@, rules, include_tag_selectors, *rem_scale, resolver.variable_map),
                resolver.rules_wf(),
                els@.len() == i,
                forall|a: int| 0 <= a < i ==> fragment_view(#[trigger] els@[a], *rem_scale) == want[a],
                forall|j: usize| j < i ==> match #[trigger] dom_element_class(prot@, true, j) {
                    Some(c) => words_ok(c),
                    None => true,
                },
                forall|a: int, k: int| 0 <= a < els@.len() && 0 <= k < els@[a].style.properties@.len() ==> (#[trigger] els@[a].style.properties@[k]).property.wf(),
                forall|a: int| 0 <= a < els@.len() ==> class_attr_ok(#[trigger] els@[a]),
        {
            let class_attr = element_class(&doc, i);
            match &class_attr {
                Some(c) => {
                    let cc = chars_of(c);
                    if !words_ok_exec(cc.as_slice()) {
                        assert(!fragment_classes_ok(prot@)) by {
                            assert(match dom_element_class(prot@, true, i) {
                                Some(c) => words_ok(c),
                                None => true,
                            } == false);
                        }
                        return Err(Css2TwError::Internal(String::from_str("a class attribute holds a truncated template placeholder")));
                    }
                },
                None => {},
            }
            let style = resolver.resolve_styles(&doc, i);
            let e = ElementPlan { name: element_name(&doc, i), class_attr, style };
            assert(fragment_view(e, *rem_scale) == want[i as int]);
            els.push(e);
        }
        assert(fragment_views(els@, *rem_scale) =~= want);
        let r = plan_fragment_elements(source.content.as_str(), prot.as_slice(), &ph, style_rules, &els, rem_scale);
        assert(fragment_match(source.content@, r@, fragment_steps(source.content@, protect_spec(source.content@).0, protect_spec(source.content@).1, plain_rules(style_rules@), want, 0)));
        Ok(r)
    }
}

} // verus!
