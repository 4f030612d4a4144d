//! HTML files: class names from their `class` attributes, and a plan that
//! resolves each element of the document against the stylesheet.

use crate::css::dom::{dom_element_class, dom_element_count, dom_element_name, element_class, element_count, element_name, Document};
use crate::css::parser::{mapping_views, plain_rules, rwc_views, variable_entries, RuleWithContext, StyleRule};
use crate::css::resolver::{element_matched, resolved_views, tailwind_spec, ResolvedElementStyle, StyleResolver};
use crate::tailwind::vars::VariableMap;
use crate::error::Css2TwError;
use crate::number::Decimal;
use crate::rewrite::patch::Replacement;
use crate::source::attrs::{class_uses, extract_class_uses, uses_match};
use crate::source::class_usage::{ClassUsage, Span};
use crate::source::{byte_offsets, is_offsets, utf8_len, ClassUsageParser, SourceFile};
use crate::text::{chars_of, find_chars_from, find_from, is_whitespace, is_ws, lemma_find_occurs, occurs_at, push_all, push_str, string_of};
use crate::report::FailureReason;
use crate::source::jsx::{dynamic_replacement, dynamic_report};
use vstd::prelude::*;

verus! {

/// A parser for HTML files.
pub struct HtmlParser;

impl ClassUsageParser for HtmlParser {
    fn extract_classes(&self, source: &SourceFile) -> (r: Result<Vec<ClassUsage>, Css2TwError>)
        ensures
            r matches Ok(v) && uses_match(source.content@, v@, class_uses(source.content@, false, false)),
    {
        Ok(extract_class_uses(source.content.as_str(), false, false))
    }
}

/// What planning reads of an element: its tag name, its class attribute,
/// and the styles that apply to it.
pub struct ElementPlan<'v> {
    pub name: String,
    pub class_attr: Option<String>,
    pub style: ResolvedElementStyle<'v>,
}

/// An element over plain values: tag name, class attribute, Tailwind
/// classes, and whether any declaration applies to it.
pub open spec fn element_view(e: ElementPlan, rem: Decimal) -> (Seq<char>, Option<Seq<char>>, Seq<char>, bool) {
    (
        e.name@,
        match e.class_attr {
            Some(c) => Some(c@),
            None => None,
        },
        tailwind_spec(mapping_views(e.style.properties@), rem, *e.style.variable_map),
        e.style.properties@.len() > 0,
    )
}

pub open spec fn element_views(es: Seq<ElementPlan>, rem: Decimal) -> Seq<(Seq<char>, Option<Seq<char>>, Seq<char>, bool)> {
    es.map_values(|e: ElementPlan| element_view(e, rem))
}

/// The end of the first occurrence of `pat` at or after `k` that the next
/// character closes as a tag name (white space, `>` or `/`).
pub open spec fn tag_end_from(s: Seq<char>, pat: Seq<char>, k: int) -> Option<int>
    decreases s.len() + 1 - k,
{
    if k < 0 || k > s.len() || pat.len() == 0 {
        None
    } else {
        match find_from(s, pat, k) {
            Some(o) => {
                let e = o + pat.len();
                if e < s.len() && (is_ws(s[e]) || s[e] == '>' || s[e] == '/') {
                    Some(e)
                } else if k < e <= s.len() {
                    tag_end_from(s, pat, e)
                } else {
                    None
                }
            },
            None => None,
        }
    }
}

/// The first place at or after `k` where the attribute `class="cs"` (else
/// `class='cs'`) is written.
pub open spec fn class_attr_at(s: Seq<char>, cs: Seq<char>, k: int) -> Option<int> {
    match find_from(s, "class=\""@ + cs + "\""@, k) {
        Some(o) => Some(o),
        None => find_from(s, "class='"@ + cs + "'"@, k),
    }
}

/// The edits that planning the elements `els` of the text `s` makes, from
/// the character `cur` on: (start, end, new text), in characters.
///
/// An element to which nothing applies, or (when only existing classes are
/// migrated) one without a class attribute, is passed over. The value of an
/// element's class attribute, found as written from `cur` on, is replaced
/// by its classes; an element without one gets ` class="..."` after its tag
/// name when it has classes. The search goes on after each edit.
pub open spec fn html_steps(s: Seq<char>, els: Seq<(Seq<char>, Option<Seq<char>>, Seq<char>, bool)>, cur: int, migrate_only: bool) -> Seq<(int, int, Seq<char>)>
    decreases els.len(),
{
    if els.len() == 0 {
        Seq::empty()
    } else {
        let e = els[0];
        let rest = els.drop_first();
        if (e.2.len() == 0 && !e.3) || (migrate_only && e.1 is None) {
            html_steps(s, rest, cur, migrate_only)
        } else {
            match e.1 {
                Some(cs) => match class_attr_at(s, cs, cur) {
                    Some(o) => {
                        let vs = o + 7;
                        let ve = vs + cs.len();
                        seq![(vs, ve, e.2)] + html_steps(s, rest, ve, migrate_only)
                    },
                    None => html_steps(s, rest, cur, migrate_only),
                },
                None => if e.2.len() > 0 {
                    match tag_end_from(s, "<"@ + e.0, cur) {
                        Some(t) => seq![(t, t, " class=\""@ + e.2 + "\""@)] + html_steps(s, rest, t, migrate_only),
                        None => html_steps(s, rest, cur, migrate_only),
                    }
                } else {
                    html_steps(s, rest, cur, migrate_only)
                },
            }
        }
    }
}

/// The step writes the Tailwind classes of the element `e`, which has a
/// class attribute, in place of a text as long as that attribute's value.
pub open spec fn writes_class_value(step: (int, int, Seq<char>), e: (Seq<char>, Option<Seq<char>>, Seq<char>, bool)) -> bool {
    &&& e.1 matches Some(cs)
    &&& step.2 == e.2
    &&& step.1 - step.0 == cs.len()
}

/// The step writes the Tailwind classes of one of the elements, which has
/// a class attribute, in place of that attribute's value.
pub open spec fn writes_some_value(step: (int, int, Seq<char>), els: Seq<(Seq<char>, Option<Seq<char>>, Seq<char>, bool)>) -> bool {
    exists|j: int| 0 <= j < els.len() && #[trigger] writes_class_value(step, els[j])
}

/// Law: when only existing classes are migrated, planning an HTML file
/// never inserts a class attribute: every edit puts the Tailwind classes
/// of an element that has a class attribute in place of that attribute's
/// value.
pub proof fn law_html_migrate_only(s: Seq<char>, els: Seq<(Seq<char>, Option<Seq<char>>, Seq<char>, bool)>, cur: int)
    ensures
        forall|k: int| 0 <= k < html_steps(s, els, cur, true).len() ==> writes_some_value(#[trigger] html_steps(s, els, cur, true)[k], els),
    decreases els.len(),
{
    if els.len() > 0 {
        let e = els[0];
        let rest = els.drop_first();
        let steps = html_steps(s, els, cur, true);
        let next = if (e.2.len() == 0 && !e.3) || e.1 is None {
            cur
        } else {
            match class_attr_at(s, e.1->0, cur) {
                Some(o) => o + 7 + e.1->0.len(),
                None => cur,
            }
        };
        law_html_migrate_only(s, rest, next);
        let tail = html_steps(s, rest, next, true);
        let h: int = steps.len() - tail.len();
        if (e.2.len() == 0 && !e.3) || e.1 is None {
            assert(steps == tail);
        } else {
            match class_attr_at(s, e.1->0, cur) {
                Some(o) => {
                    assert(steps == seq![(o + 7, next, e.2)] + tail);
                    assert(writes_class_value(steps[0], els[0]));
                },
                None => {
                    assert(steps == tail);
                },
            }
        }
        assert forall|k: int| 0 <= k < steps.len() implies writes_some_value(#[trigger] steps[k], els) by {
            if k < h {
                assert(writes_class_value(steps[0], els[0]));
            } else {
                assert(steps[k] == tail[k - h]);
                assert(writes_some_value(tail[k - h], rest));
                let j = choose|j: int| 0 <= j < rest.len() && #[trigger] writes_class_value(tail[k - h], rest[j]);
                assert(rest[j] == els[j + 1]);
                assert(writes_class_value(steps[k], els[j + 1]));
            }
        }
    }
}

/// The replacements carry the edits, in bytes.
pub open spec fn steps_match(s: Seq<char>, r: Seq<Replacement>, steps: Seq<(int, int, Seq<char>)>) -> bool {
    &&& r.len() == steps.len()
    &&& forall|i: int| 0 <= i < r.len() ==> {
        &&& (#[trigger] r[i]).span.start == utf8_len(s.subrange(0, steps[i].0))
        &&& r[i].span.end == utf8_len(s.subrange(0, steps[i].1))
        &&& r[i].after@ == steps[i].2
    }
}

pub(crate) fn tag_end_from_exec(s: &[char], pat: &[char], k: usize) -> (r: Option<usize>)
    requires
        k <= s@.len(),
    ensures
        match r {
            Some(t) => tag_end_from(s@, pat@, k as int) == Some(t as int) && k < t < s@.len(),
            None => tag_end_from(s@, pat@, k as int) is None,
        },
    decreases s@.len() + 1 - k,
{
    if pat.len() == 0 {
        return None;
    }
    match find_chars_from(s, pat, k) {
        Some(o) => {
            proof {
                lemma_find_occurs(s@, pat@, k as int);
            }
            assert(o + pat.len() <= s.len());
            let e = o + pat.len();
            if e < s.len() && (is_whitespace(s[e]) || s[e] == '>' || s[e] == '/') {
                Some(e)
            } else if k < e {
                tag_end_from_exec(s, pat, e)
            } else {
                None
            }
        },
        None => None,
    }
}

fn class_attr_at_exec(s: &[char], cs: &[char], k: usize) -> (r: Option<usize>)
    requires
        k <= s@.len(),
    ensures
        match r {
            Some(o) => class_attr_at(s@, cs@, k as int) == Some(o as int) && o + 7 + cs@.len() + 1 <= s@.len()
                && k <= o,
            None => class_attr_at(s@, cs@, k as int) is None,
        },
{
    let mut p1 = chars_of("class=\"");
    push_all(&mut p1, cs);
    push_str(&mut p1, "\"");
    proof {
        reveal_strlit("class=\"");
        reveal_strlit("\"");
    }
    match find_chars_from(s, p1.as_slice(), k) {
        Some(o) => {
            proof {
                lemma_find_occurs(s@, p1@, k as int);
            }
            return Some(o);
        },
        None => {},
    }
    let mut p2 = chars_of("class='");
    push_all(&mut p2, cs);
    push_str(&mut p2, "'");
    proof {
        reveal_strlit("class='");
        reveal_strlit("'");
    }
    match find_chars_from(s, p2.as_slice(), k) {
        Some(o) => {
            proof {
                lemma_find_occurs(s@, p2@, k as int);
            }
            Some(o)
        },
        None => None,
    }
}

/// Plans the replacements of the elements `els` of the text `content`, as
/// `html_steps` says; each replacement of a class attribute, or insertion
/// of one, is made by `create_replacement`.
#[verifier::rlimit(40)]
pub fn plan_elements(content: &str, els: &Vec<ElementPlan>, rem_scale: &Decimal, migrate_only_existing_classes: bool) -> (r: Vec<Replacement>)
    requires
        rem_scale.wf(),
        forall|i: int, k: int| 0 <= i < els@.len() && 0 <= k < els@[i].style.properties@.len() ==> (#[trigger] els@[i].style.properties@[k]).property.wf(),
    ensures
        steps_match(content@, r@, html_steps(content@, element_views(els@, *rem_scale), 0, migrate_only_existing_classes)),
{
    let s = chars_of(content);
    let offsets = byte_offsets(content);
    let ghost ev = element_views(els@, *rem_scale);
    let mut out: Vec<Replacement> = Vec::new();
    let mut cur: usize = 0;
    assert(ev.subrange(0, ev.len() as int) =~= ev);
    let ghost total = html_steps(content@, ev, 0, migrate_only_existing_classes);
    for i in 0..els.len()
        invariant
            s@ == content@,
            is_offsets(content@, offsets@),
            ev == element_views(els@, *rem_scale),
            rem_scale.wf(),
            forall|a: int, k: int| 0 <= a < els@.len() && 0 <= k < els@[a].style.properties@.len() ==> (#[trigger] els@[a].style.properties@[k]).property.wf(),
            cur <= s@.len(),
            total == html_steps(content@, ev, 0, migrate_only_existing_classes),
            steps_match(content@, out@, total.subrange(0, out@.len() as int)),
            out@.len() <= total.len(),
            total.subrange(out@.len() as int, total.len() as int) == html_steps(content@, ev.subrange(i as int, ev.len() as int), cur as int, migrate_only_existing_classes),
    {
        let e = &els[i];
        let ghost rest = ev.subrange(i + 1, ev.len() as int);
        proof {
            assert(ev.subrange(i as int, ev.len() as int).drop_first() =~= rest);
            assert(ev.subrange(i as int, ev.len() as int)[0] == element_view(*e, *rem_scale));
            assert forall|k: int| 0 <= k < e.style.properties@.len() implies (#[trigger] e.style.properties@[k]).property.wf() by {
                assert(els@[i as int].style.properties@[k].property.wf());
            }
        }
        let new_classes = e.style.to_tailwind_string(rem_scale);
        let has_props = e.style.properties.len() > 0;
        let skip = (new_classes.unicode_len() == 0 && !has_props) || (migrate_only_existing_classes && e.class_attr.is_none());
        let ghost done = out@.len();
        if !skip {
            match &e.class_attr {
                Some(cs) => {
                    let cc = chars_of(cs);
                    match class_attr_at_exec(s.as_slice(), cc.as_slice(), cur) {
                        Some(o) => {
                            assert(o + 7 + cc.len() < s.len());
                            let vs = o + 7;
                            let ve = vs + cc.len();
                            let rep = e.style.create_replacement(
                                Span { start: offsets[vs], end: offsets[ve] },
                                cs.clone(),
                                rem_scale,
                                vec![String::from_str("Matched element in HTML document")],
                            );
                            out.push(rep);
                            proof {
                                assert(total.subrange(done as int, total.len() as int) =~= seq![(vs as int, ve as int, new_classes@)] + html_steps(content@, rest, ve as int, migrate_only_existing_classes));
                                assert(total[done as int] == total.subrange(done as int, total.len() as int)[0]);
                                assert(total[done as int] == (vs as int, ve as int, new_classes@));
                                assert(out@[done as int].span.start == utf8_len(content@.subrange(0, vs as int)));
                                assert(total.subrange(0, out@.len() as int) =~= total.subrange(0, done as int).push(total[done as int]));
                                assert(total.subrange(out@.len() as int, total.len() as int) =~= total.subrange(done as int, total.len() as int).drop_first());
                            }
                            cur = ve;
                        },
                        None => {},
                    }
                },
                None => {
                    if new_classes.unicode_len() > 0 {
                        let mut pat = chars_of("<");
                        let nc = chars_of(&e.name);
                        push_all(&mut pat, nc.as_slice());
                        match tag_end_from_exec(s.as_slice(), pat.as_slice(), cur) {
                            Some(t) => {
                                let mut rep = e.style.create_replacement(
                                    Span { start: offsets[t], end: offsets[t] },
                                    String::new(),
                                    rem_scale,
                                    vec![String::from_str("Injected new class attribute for element")],
                                );
                                let mut a = chars_of(" class=\"");
                                push_str(&mut a, new_classes.as_str());
                                push_str(&mut a, "\"");
                                rep.after = string_of(a.as_slice());
                                out.push(rep);
                                proof {
                                    assert(total.subrange(done as int, total.len() as int) =~= seq![(t as int, t as int, " class=\""@ + new_classes@ + "\""@)] + html_steps(content@, rest, t as int, migrate_only_existing_classes));
                                    assert(total[done as int] == total.subrange(done as int, total.len() as int)[0]);
                                    assert(total.subrange(0, out@.len() as int) =~= total.subrange(0, done as int).push(total[done as int]));
                                    assert(total.subrange(out@.len() as int, total.len() as int) =~= total.subrange(done as int, total.len() as int).drop_first());
                                }
                                cur = t;
                            },
                            None => {},
                        }
                    }
                },
            }
        }
    }
    assert(total.subrange(0, total.len() as int) =~= total);
    assert(ev.subrange(els@.len() as int, ev.len() as int) =~= Seq::<(Seq<char>, Option<Seq<char>>, Seq<char>, bool)>::empty());
    out
}

/// The attributes that bind classes at run time in component templates:
/// Vue's `:class` (also as `v-bind:class`) and Angular's `[class]` and
/// `[ngClass]`.
pub open spec fn binding_name(i: int) -> Seq<char> {
    if i == 0 {
        ":class"@
    } else if i == 1 {
        "[class]"@
    } else {
        "[ngClass]"@
    }
}

/// The binding of the `i`th name whose `name=` starts at `k`, with a
/// quoted value: (value start, value end), the quotes left out.
pub open spec fn binding_value_at(s: Seq<char>, k: int, i: int) -> Option<(int, int)> {
    let n = binding_name(i) + "="@;
    let q = k + n.len();
    if occurs_at(s, n, k) && q < s.len() && (s[q] == '"' || s[q] == '\'') {
        match find_from(s, seq![s[q]], q + 1) {
            Some(e) => Some((q + 1, e)),
            None => None,
        }
    } else {
        None
    }
}

/// The binding that starts at `k`, if any: (name index, value start,
/// value end).
pub open spec fn binding_at(s: Seq<char>, k: int) -> Option<(int, int, int)> {
    match binding_value_at(s, k, 0) {
        Some((a, b)) => Some((0, a, b)),
        None => match binding_value_at(s, k, 1) {
            Some((a, b)) => Some((1, a, b)),
            None => match binding_value_at(s, k, 2) {
                Some((a, b)) => Some((2, a, b)),
                None => None,
            },
        },
    }
}

/// The class bindings of the text from `k` on, in order, each searched for
/// after the end of the one before.
pub open spec fn bindings_from(s: Seq<char>, k: int) -> Seq<(int, int, int)>
    decreases s.len() - k,
{
    if k < 0 || k >= s.len() {
        Seq::empty()
    } else {
        match binding_at(s, k) {
            Some((i, a, b)) => if k < b < s.len() {
                seq![(i, a, b)] + bindings_from(s, b + 1)
            } else {
                Seq::empty()
            },
            None => bindings_from(s, k + 1),
        }
    }
}

fn binding_value_at_exec(s: &[char], k: usize, i: usize) -> (r: Option<(usize, usize)>)
    requires
        k < s@.len(),
        i < 3,
    ensures
        match r {
            Some((a, b)) => binding_value_at(s@, k as int, i as int) == Some((a as int, b as int)) && k < a <= b < s@.len(),
            None => binding_value_at(s@, k as int, i as int) is None,
        },
{
    let mut n = if i == 0 {
        chars_of(":class")
    } else if i == 1 {
        chars_of("[class]")
    } else {
        chars_of("[ngClass]")
    };
    push_str(&mut n, "=");
    proof {
        reveal_strlit(":class");
        reveal_strlit("[class]");
        reveal_strlit("[ngClass]");
        reveal_strlit("=");
    }
    assert(n@ == binding_name(i as int) + "="@);
    if !crate::text::matches_at(s, n.as_slice(), k) {
        return None;
    }
    assert(k + n@.len() <= s@.len());
    let sl = s.len();
    let nl = n.len();
    assert(k + nl <= sl);
    let q = k + nl;
    if q < s.len() && (s[q] == '"' || s[q] == '\'') {
        let quote: Vec<char> = vec![s[q]];
        assert(quote@ =~= seq![s@[q as int]]);
        match find_chars_from(s, quote.as_slice(), q + 1) {
            Some(e) => {
                proof {
                    lemma_find_occurs(s@, quote@, q + 1);
                }
                Some((q + 1, e))
            },
            None => None,
        }
    } else {
        None
    }
}

/// The replacements report the class bindings of `s`, in order (see
/// `detect_dynamic_bindings`).
pub open spec fn bindings_reported(s: Seq<char>, r: Seq<Replacement>) -> bool {
    &&& r.len() == bindings_from(s, 0).len()
    &&& forall|j: int| 0 <= j < r.len() ==> {
        let b = bindings_from(s, 0)[j];
        dynamic_report(
            #[trigger] r[j],
            utf8_len(s.subrange(0, b.1)) as usize,
            utf8_len(s.subrange(0, b.2)) as usize,
            "Dynamic class binding detected: "@ + binding_name(b.0),
            FailureReason::DynamicClass,
        )
    }
}

/// The reports of the class bindings of `content`: each as a dynamic class
/// (see `dynamic_report`) at its value's byte span, with the message
/// `Dynamic class binding detected: ` and the attribute's name.
pub fn detect_dynamic_bindings(content: &str) -> (r: Vec<Replacement>)
    ensures
        bindings_reported(content@, r@),
{
    let s = chars_of(content);
    let offsets = byte_offsets(content);
    let ghost all = bindings_from(content@, 0);
    let mut out: Vec<Replacement> = Vec::new();
    let mut k: usize = 0;
    while k < s.len()
        invariant
            s@ == content@,
            is_offsets(content@, offsets@),
            k <= s@.len() + 1,
            all == bindings_from(content@, 0),
            out@.len() <= all.len(),
            all.subrange(out@.len() as int, all.len() as int) == bindings_from(content@, k as int),
            forall|j: int| 0 <= j < out@.len() ==> {
                let b = all[j];
                dynamic_report(
                    #[trigger] out@[j],
                    utf8_len(content@.subrange(0, b.1)) as usize,
                    utf8_len(content@.subrange(0, b.2)) as usize,
                    "Dynamic class binding detected: "@ + binding_name(b.0),
                    FailureReason::DynamicClass,
                )
            },
        decreases s@.len() + 1 - k,
    {
        let mut found: Option<(usize, usize, usize)> = None;
        let mut i: usize = 0;
        while i < 3
            invariant
                k < s@.len(),
                i <= 3,
                found is None ==> forall|t: int| 0 <= t < i ==> binding_value_at(s@, k as int, t) is None,
                found matches Some((t, a, b)) ==> t < i && binding_value_at(s@, k as int, t as int) == Some((a as int, b as int))
                    && k < a <= b < s@.len() && forall|u: int| 0 <= u < t ==> binding_value_at(s@, k as int, u) is None,
            decreases 3 - i,
        {
            if found.is_none() {
                match binding_value_at_exec(s.as_slice(), k, i) {
                    Some((a, b)) => {
                        found = Some((i, a, b));
                    },
                    None => {},
                }
            }
            i = i + 1;
        }
        let ghost before = out@;
        match found {
            Some((t, a, b)) => {
                assert(binding_at(content@, k as int) == Some((t as int, a as int, b as int)));
                let mut m = chars_of("Dynamic class binding detected: ");
                let name = if t == 0 {
                    ":class"
                } else if t == 1 {
                    "[class]"
                } else {
                    "[ngClass]"
                };
                push_str(&mut m, name);
                proof {
                    reveal_strlit(":class");
                    reveal_strlit("[class]");
                    reveal_strlit("[ngClass]");
                }
                assert(name@ == binding_name(t as int));
                let rep = dynamic_replacement(offsets[a], offsets[b], string_of(m.as_slice()), FailureReason::DynamicClass);
                out.push(rep);
                proof {
                    assert(bindings_from(content@, k as int) == seq![(t as int, a as int, b as int)] + bindings_from(content@, b + 1));
                    let rest_start = before.len() as int;
                    assert(bindings_from(content@, k as int).len() >= 1);
                    assert(all.subrange(rest_start, all.len() as int).len() >= 1);
                    assert(rest_start < all.len());
                    assert(all.subrange(rest_start, all.len() as int)[0] == (t as int, a as int, b as int));
                    assert(all[rest_start] == (t as int, a as int, b as int));
                    assert(all.subrange(out@.len() as int, all.len() as int) =~= all.subrange(rest_start, all.len() as int).drop_first());
                    assert forall|j: int| 0 <= j < out@.len() implies {
                        let bb = all[j];
                        dynamic_report(
                            #[trigger] out@[j],
                            utf8_len(content@.subrange(0, bb.1)) as usize,
                            utf8_len(content@.subrange(0, bb.2)) as usize,
                            "Dynamic class binding detected: "@ + binding_name(bb.0),
                            FailureReason::DynamicClass,
                        )
                    } by {
                        if j < before.len() {
                            assert(out@[j] == before[j]);
                        }
                    }
                }
                k = b + 1;
            },
            None => {
                assert(binding_at(content@, k as int) is None);
                assert(bindings_from(content@, k as int) == bindings_from(content@, k + 1));
                k = k + 1;
            },
        }
    }
    assert(bindings_from(content@, k as int) =~= Seq::<(int, int, int)>::empty());
    assert(all.subrange(0, all.len() as int) =~= all);
    out
}

/// What planning an HTML file gives for the resolution `ev` of its
/// elements: the edits of `html_steps`, then the reports of its class
/// bindings.
pub open spec fn html_planned(s: Seq<char>, v: Seq<Replacement>, ev: Seq<(Seq<char>, Option<Seq<char>>, Seq<char>, bool)>, migrate_only: bool) -> bool {
    let n = html_steps(s, ev, 0, migrate_only).len();
    &&& n <= v.len()
    &&& steps_match(s, v.subrange(0, n as int), html_steps(s, ev, 0, migrate_only))
    &&& bindings_reported(s, v.subrange(n as int, v.len() as int))
}

/// The `i`th element of the text (read as a fragment or a document) over
/// plain values, as `element_view` reads an element: its name and class
/// attribute as scraper reads them, and the Tailwind classes of the styles
/// that the rules give it (see `element_matched`), with the variables `vars`.
pub open spec fn dom_element_view(
    text: Seq<char>,
    fragment: bool,
    i: usize,
    rules: Seq<(StyleRule, Seq<(int, Seq<char>)>)>,
    include_tags: bool,
    rem: Decimal,
    vars: VariableMap,
) -> (Seq<char>, Option<Seq<char>>, Seq<char>, bool) {
    let ms = resolved_views(rules, element_matched(text, fragment, i, rules, include_tags), include_tags);
    (dom_element_name(text, fragment, i), dom_element_class(text, fragment, i), tailwind_spec(ms, rem, vars), ms.len() > 0)
}

/// Every element of the text, in document order, as `dom_element_view`.
pub open spec fn dom_element_views(
    text: Seq<char>,
    fragment: bool,
    rules: Seq<(StyleRule, Seq<(int, Seq<char>)>)>,
    include_tags: bool,
    rem: Decimal,
    vars: VariableMap,
) -> Seq<(Seq<char>, Option<Seq<char>>, Seq<char>, bool)> {
    Seq::new(
        dom_element_count(text, fragment) as nat,
        |i: int| dom_element_view(text, fragment, i as usize, rules, include_tags, rem, vars),
    )
}

/// What planning the HTML file `s` gives with the rules: its elements read
/// as a document and resolved against the rules, with the variables they
/// define, then planned as `html_planned` says.
pub open spec fn html_plan_ok(
    s: Seq<char>,
    rules: Seq<RuleWithContext>,
    include_tags: bool,
    rem: Decimal,
    v: Seq<Replacement>,
    migrate_only: bool,
) -> bool {
    exists|vars: VariableMap| {
        &&& vars.pairs() == variable_entries(plain_rules(rules))
        &&& html_planned(s, v, dom_element_views(s, false, rwc_views(rules), include_tags, rem, vars), migrate_only)
    }
}

impl HtmlParser {
    /// Plans the conversion of an HTML file: each element of the document
    /// (the root first, then the others in document order) is resolved
    /// against the rules, and its class attribute replaced, or one inserted,
    /// as `html_steps` says for what scraper reads of the elements; then the
    /// class bindings of component templates are reported as dynamic
    /// classes (see `html_plan_ok`).
    pub fn plan_html(
        &self,
        source: &SourceFile,
        style_rules: &[RuleWithContext],
        rem_scale: &Decimal,
        migrate_only_existing_classes: bool,
        include_tag_selectors: bool,
    ) -> (r: Result<Vec<Replacement>, Css2TwError>)
        requires
            rem_scale.wf(),
            forall|i: int| 0 <= i < style_rules@.len() ==> (#[trigger] style_rules@[i]).rule.wf(),
        ensures
            r matches Ok(v) && html_plan_ok(source.content@, style_rules@, include_tag_selectors, *rem_scale, v@, migrate_only_existing_classes),
    {
        let html = Document::document(source.content.as_str());
        let resolver = StyleResolver::new(style_rules, include_tag_selectors);
        let n = element_count(&html);
        let ghost rules = rwc_views(style_rules@);
        let ghost want = dom_element_views(source.content@, false, rules, include_tag_selectors, *rem_scale, resolver.variable_map);
        let mut els: Vec<ElementPlan> = Vec::new();
        for i in 0..n
            invariant
                n == dom_element_count(source.content@, false),
                html.source() == source.content@,
                !html.is_fragment(),
                resolver.style_rules == style_rules,
                resolver.include_tag_selectors == include_tag_selectors,
                rules == rwc_views(style_rules@),
                want == dom_element_views(source.content@, false, rules, include_tag_selectors, *rem_scale, resolver.variable_map),
                resolver.rules_wf(),
                els@.len() == i,
                forall|a: int| 0 <= a < i ==> element_view(#[trigger] els@[a], *rem_scale) == want[a],
                forall|a: int, k: int| 0 <= a < els@.len() && 0 <= k < els@[a].style.properties@.len() ==> (#[trigger] els@[a].style.properties@[k]).property.wf(),
        {
            let style = resolver.resolve_styles(&html, i);
            let e = ElementPlan { name: element_name(&html, i), class_attr: element_class(&html, i), style };
            assert(element_view(e, *rem_scale) == want[i as int]);
            els.push(e);
        }
        assert(element_views(els@, *rem_scale) =~= want);
        let mut v = plan_elements(source.content.as_str(), &els, rem_scale, migrate_only_existing_classes);
        let ghost planned = v@;
        let mut dynamic = detect_dynamic_bindings(source.content.as_str());
        let ghost reported = dynamic@;
        v.append(&mut dynamic);
        proof {
            let ev = element_views(els@, *rem_scale);
            assert(v@.subrange(0, planned.len() as int) =~= planned);
            assert(v@.subrange(planned.len() as int, v@.len() as int) =~= reported);
            assert(html_planned(source.content@, v@, ev, migrate_only_existing_classes));
        }
        Ok(v)
    }
}

} // verus!
