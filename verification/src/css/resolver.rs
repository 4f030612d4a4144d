//! The styles that apply to an element, and the Tailwind classes they make.

use crate::css::classes::{
    insert_sorted, join_chars, join_with, lemma_sorted_list, sorted_list, strictly_sorted,
};
use crate::css::dom::{dom_element_count, dom_matches, element_count, element_matches, Document};
use crate::css::lightning::ComponentKind;
use crate::css::parser::{
    clone_variants, decl_views, extract_variables, keys, lemma_views_push, mapping_view, mapping_views,
    plain_rules, props_wf, rwc_views, variable_entries, RuleWithContext, SelectorComponent,
    SelectorInfo, StyleRule, TailwindMapping,
};
use crate::css::selector::{pseudo_key, pseudo_variant};
use crate::report::FailureReason;
use crate::rewrite::patch::Replacement;
use crate::rewrite::planner::{confidence_of, confidence_ok};
use crate::source::class_usage::Span;
use crate::number::Decimal;
use crate::tailwind::mapping::{lemma_variants_prefix_keys, map_property, map_spec, CssProperty};
use crate::tailwind::vars::VariableMap;
use crate::text::{
    chars_of, eq_chars, index_of, index_of_char, push_all, push_str, slice_chars, string_of, trim,
    trim_chars,
};
use crate::variant::{keys_prefix, TailwindVariant};
use vstd::prelude::*;

verus! {

/// The name part of a printed declaration: the text before its first `:`.
pub open spec fn decl_name(css: Seq<char>) -> Seq<char> {
    match index_of(css, ':') {
        Some(i) => css.subrange(0, i),
        None => css,
    }
}

/// What two mappings of one element compete on: the property's name and
/// the variants.
pub open spec fn mkey(m: (CssProperty, Seq<(int, Seq<char>)>, u32, bool)) -> (Seq<char>, Seq<(int, Seq<char>)>) {
    (decl_name(m.0.css@), m.1)
}

/// The last place in `b` of a mapping with the key `k`.
pub open spec fn key_index(b: Seq<(CssProperty, Seq<(int, Seq<char>)>, u32, bool)>, k: (Seq<char>, Seq<(int, Seq<char>)>)) -> Option<int>
    decreases b.len(),
{
    if b.len() == 0 {
        None
    } else if mkey(b.last()) == k {
        Some(b.len() - 1)
    } else {
        key_index(b.drop_last(), k)
    }
}

/// The mappings that win, one per key, in the order their keys first
/// appear: a later mapping replaces the one of its key when its specificity
/// is at least as high.
pub open spec fn best_views(ms: Seq<(CssProperty, Seq<(int, Seq<char>)>, u32, bool)>) -> Seq<(CssProperty, Seq<(int, Seq<char>)>, u32, bool)>
    decreases ms.len(),
{
    if ms.len() == 0 {
        Seq::empty()
    } else {
        let b = best_views(ms.drop_last());
        let x = ms.last();
        match key_index(b, mkey(x)) {
            Some(j) => if x.2 >= b[j].2 {
                b.update(j, x)
            } else {
                b
            },
            None => b.push(x),
        }
    }
}

/// The classes that the mappings give.
pub open spec fn class_set(best: Seq<(CssProperty, Seq<(int, Seq<char>)>, u32, bool)>, rem: Decimal, vars: VariableMap) -> Set<Seq<char>>
    decreases best.len(),
{
    if best.len() == 0 {
        Set::empty()
    } else {
        let m = best.last();
        let rest = class_set(best.drop_last(), rem, vars);
        match map_spec(m.0, m.3, keys_prefix(m.1), rem, vars) {
            Some(c) => rest.insert(c),
            None => rest,
        }
    }
}

/// The Tailwind classes of an element's mappings: those of the winning
/// mapping of each property and variants, without repeats, sorted, and
/// joined with spaces.
pub open spec fn tailwind_spec(ms: Seq<(CssProperty, Seq<(int, Seq<char>)>, u32, bool)>, rem: Decimal, vars: VariableMap) -> Seq<char> {
    join_with(sorted_list(class_set(best_views(ms), rem, vars)), " "@)
}

/// The raw CSS of the mappings: their declarations joined with `; `, or
/// nothing when there are none.
pub open spec fn raw_css_spec(ms: Seq<(CssProperty, Seq<(int, Seq<char>)>, u32, bool)>) -> Option<Seq<char>> {
    if ms.len() == 0 {
        None
    } else {
        Some(join_with(ms.map_values(|m: (CssProperty, Seq<(int, Seq<char>)>, u32, bool)| m.0.css@), "; "@))
    }
}

/// The styles that apply to an element: its mappings, and the CSS
/// variables to resolve them with.
pub struct ResolvedElementStyle<'v> {
    pub properties: Vec<TailwindMapping>,
    pub variable_map: &'v VariableMap,
}

fn decl_name_chars(css: &[char]) -> (r: Vec<char>)
    ensures
        r@ == decl_name(css@),
{
    match index_of_char(css, ':') {
        Some(i) => slice_chars(css, 0, i),
        None => slice_chars(css, 0, css.len()),
    }
}

fn same_key(a: &TailwindMapping, b: &TailwindMapping) -> (r: bool)
    ensures
        r == (mkey(mapping_view(*a)) == mkey(mapping_view(*b))),
{
    let ac = chars_of(&a.property.css);
    let bc = chars_of(&b.property.css);
    let an = decl_name_chars(ac.as_slice());
    let bn = decl_name_chars(bc.as_slice());
    if !eq_chars(an.as_slice(), bn.as_slice()) {
        return false;
    }
    if a.variants.len() != b.variants.len() {
        assert(keys(a.variants@).len() != keys(b.variants@).len());
        return false;
    }
    for i in 0..a.variants.len()
        invariant
            a.variants@.len() == b.variants@.len(),
            forall|k: int| 0 <= k < i ==> keys(a.variants@)[k] == keys(b.variants@)[k],
    {
        if !a.variants[i].same_as(&b.variants[i]) {
            assert(keys(a.variants@)[i as int] != keys(b.variants@)[i as int]);
            return false;
        }
    }
    assert(keys(a.variants@) =~= keys(b.variants@));
    true
}

fn find_key(props: &Vec<TailwindMapping>, best: &Vec<usize>, i: usize) -> (r: Option<usize>)
    requires
        i < props@.len(),
        forall|k: int| 0 <= k < best@.len() ==> (#[trigger] best@[k]) < props@.len(),
    ensures
        ({
            let b = best@.map_values(|j: usize| mapping_view(props@[j as int]));
            match r {
                Some(j) => key_index(b, mkey(mapping_view(props@[i as int]))) == Some(j as int) && j < best@.len(),
                None => key_index(b, mkey(mapping_view(props@[i as int]))) is None,
            }
        }),
{
    let ghost b = best@.map_values(|j: usize| mapping_view(props@[j as int]));
    let ghost k = mkey(mapping_view(props@[i as int]));
    let mut pos = best.len();
    assert(b.subrange(0, b.len() as int) =~= b);
    while pos > 0
        invariant
            pos <= best@.len(),
            i < props@.len(),
            k == mkey(mapping_view(props@[i as int])),
            b == best@.map_values(|j: usize| mapping_view(props@[j as int])),
            forall|t: int| 0 <= t < best@.len() ==> (#[trigger] best@[t]) < props@.len(),
            key_index(b, k) == key_index(b.subrange(0, pos as int), k),
        decreases pos,
    {
        assert(b.subrange(0, pos as int).drop_last() =~= b.subrange(0, pos - 1));
        assert(b.subrange(0, pos as int).last() == mapping_view(props@[best@[pos - 1] as int]));
        if same_key(&props[best[pos - 1]], &props[i]) {
            return Some(pos - 1);
        }
        pos = pos - 1;
    }
    assert(b.subrange(0, 0) =~= Seq::<(CssProperty, Seq<(int, Seq<char>)>, u32, bool)>::empty());
    None
}

impl<'v> ResolvedElementStyle<'v> {
    /// The Tailwind classes of the element, as `tailwind_spec` says: for each
    /// property name and variants the mapping with the highest specificity
    /// (the later one among equals), mapped, without repeats, sorted and
    /// joined with spaces; empty when nothing maps.
    pub fn to_tailwind_string(&self, rem_scale: &Decimal) -> (r: String)
        requires
            rem_scale.wf(),
            forall|k: int| 0 <= k < self.properties@.len() ==> (#[trigger] self.properties@[k]).property.wf(),
        ensures
            r@ == tailwind_spec(mapping_views(self.properties@), *rem_scale, *self.variable_map),
    {
        let props = &self.properties;
        let ghost views = mapping_views(props@);
        let mut best: Vec<usize> = Vec::new();
        assert(views.subrange(0, 0) =~= Seq::<(CssProperty, Seq<(int, Seq<char>)>, u32, bool)>::empty());
        assert(best@.map_values(|j: usize| mapping_view(props@[j as int])) =~= Seq::empty());
        for i in 0..props.len()
            invariant
                views == mapping_views(props@),
                forall|k: int| 0 <= k < best@.len() ==> (#[trigger] best@[k]) < i,
                best@.map_values(|j: usize| mapping_view(props@[j as int])) == best_views(views.subrange(0, i as int)),
        {
            let ghost b = best@.map_values(|j: usize| mapping_view(props@[j as int]));
            proof {
                assert(views.subrange(0, i + 1).drop_last() =~= views.subrange(0, i as int));
                assert(views.subrange(0, i + 1).last() == mapping_view(props@[i as int]));
            }
            match find_key(props, &best, i) {
                Some(j) => {
                    if props[i].specificity >= props[best[j]].specificity {
                        best.set(j, i);
                        assert(best@.map_values(|t: usize| mapping_view(props@[t as int])) =~= b.update(j as int, mapping_view(props@[i as int])));
                    }
                },
                None => {
                    best.push(i);
                    assert(best@.map_values(|t: usize| mapping_view(props@[t as int])) =~= b.push(mapping_view(props@[i as int])));
                },
            }
        }
        assert(views.subrange(0, props@.len() as int) =~= views);
        let ghost bv = best_views(views);
        let mut list: Vec<Vec<char>> = Vec::new();
        assert(list@.map_values(|v: Vec<char>| v@) =~= Seq::<Seq<char>>::empty());
        assert(bv.subrange(0, 0) =~= Seq::<(CssProperty, Seq<(int, Seq<char>)>, u32, bool)>::empty());
        assert(Seq::<Seq<char>>::empty().to_set() =~= Set::<Seq<char>>::empty());
        for j in 0..best.len()
            invariant
                bv == best_views(views),
                views == mapping_views(props@),
                forall|k: int| 0 <= k < best@.len() ==> (#[trigger] best@[k]) < props@.len(),
                best@.map_values(|t: usize| mapping_view(props@[t as int])) == bv,
                strictly_sorted(list@.map_values(|v: Vec<char>| v@)),
                list@.map_values(|v: Vec<char>| v@).to_set() == class_set(bv.subrange(0, j as int), *rem_scale, *self.variable_map),
                rem_scale.wf(),
                forall|k: int| 0 <= k < self.properties@.len() ==> (#[trigger] self.properties@[k]).property.wf(),
                props == &self.properties,
        {
            let m = &props[best[j]];
            proof {
                assert(bv.subrange(0, j + 1).drop_last() =~= bv.subrange(0, j as int));
                assert(bv.subrange(0, j + 1).last() == mapping_view(*m));
                lemma_variants_prefix_keys(m.variants@);
                assert(keys(m.variants@) =~= m.variants@.map_values(|v: TailwindVariant| v.key()));
            }
            match map_property(&m.property, m.important, m.variants.as_slice(), rem_scale, self.variable_map) {
                Some(c) => {
                    let cc = chars_of(&c);
                    insert_sorted(&mut list, cc);
                },
                None => {},
            }
        }
        assert(bv.subrange(0, best@.len() as int) =~= bv);
        proof {
            lemma_sorted_list(list@.map_values(|v: Vec<char>| v@));
        }
        let joined = join_chars(&list, " ");
        string_of(joined.as_slice())
    }

    /// A replacement of the text at `span` (which held `before`) by the
    /// element's Tailwind classes, with the element's raw CSS, the
    /// confidence of `confidence_of`, the given reasons, and a trace. When
    /// no class comes out, it records `NoMappingFound` with a suggestion to
    /// migrate the raw CSS by hand.
    pub fn create_replacement(&self, span: Span, before: String, rem_scale: &Decimal, reasons: Vec<String>) -> (r: Replacement)
        requires
            rem_scale.wf(),
            forall|k: int| 0 <= k < self.properties@.len() ==> (#[trigger] self.properties@[k]).property.wf(),
        ensures
            r.span == span,
            r.before == before,
            r.after@ == tailwind_spec(mapping_views(self.properties@), *rem_scale, *self.variable_map),
            confidence_ok(r.confidence, mapping_views(self.properties@)),
            r.reasons == reasons,
            r.trace@.len() == 1,
            r.trace@[0]@ == "Resolved Tailwind utility: "@ + r.after@,
            match r.raw_css {
                Some(c) => raw_css_spec(mapping_views(self.properties@)) == Some(c@),
                None => raw_css_spec(mapping_views(self.properties@)) is None,
            },
            r.after@.len() == 0 <==> r.failure_reason == Some(FailureReason::NoMappingFound),
            r.after@.len() > 0 <==> r.failure_reason is None,
            r.suggestion is Some <==> r.after@.len() == 0,
            r.diagnostics@.len() == 0,
    {
        let after = self.to_tailwind_string(rem_scale);
        let mut t = chars_of("Resolved Tailwind utility: ");
        push_str(&mut t, after.as_str());
        let mut trace: Vec<String> = Vec::new();
        trace.push(string_of(t.as_slice()));
        let empty = after.unicode_len() == 0;
        Replacement {
            span,
            before,
            after,
            confidence: confidence_of(&self.properties),
            reasons,
            trace,
            raw_css: self.get_raw_css(),
            suggestion: if empty {
                Some(String::from_str("No Tailwind utility matches these declarations; migrate the raw CSS by hand."))
            } else {
                None
            },
            failure_reason: if empty {
                Some(FailureReason::NoMappingFound)
            } else {
                None
            },
            diagnostics: Vec::new(),
        }
    }

    /// The element's declarations as written, joined with `; `; nothing
    /// when none applies.
    pub fn get_raw_css(&self) -> (r: Option<String>)
        ensures
            match r {
                Some(s) => raw_css_spec(mapping_views(self.properties@)) == Some(s@),
                None => raw_css_spec(mapping_views(self.properties@)) is None,
            },
    {
        if self.properties.len() == 0 {
            return None;
        }
        let mut l: Vec<Vec<char>> = Vec::new();
        for i in 0..self.properties.len()
            invariant
                l@.map_values(|v: Vec<char>| v@) == self.properties@.subrange(0, i as int).map_values(|m: TailwindMapping| m.property.css@),
        {
            let c = chars_of(&self.properties[i].property.css);
            let ghost before = l@;
            let ghost cv = c@;
            l.push(c);
            assert(l@.map_values(|v: Vec<char>| v@) =~= before.map_values(|v: Vec<char>| v@).push(cv));
            assert(self.properties@.subrange(0, i + 1).map_values(|m: TailwindMapping| m.property.css@) =~= self.properties@.subrange(0, i as int).map_values(|m: TailwindMapping| m.property.css@).push(self.properties@[i as int].property.css@));
        }
        assert(self.properties@.subrange(0, self.properties@.len() as int) =~= self.properties@);
        assert(mapping_views(self.properties@).map_values(|m: (CssProperty, Seq<(int, Seq<char>)>, u32, bool)| m.0.css@) =~= self.properties@.map_values(|m: TailwindMapping| m.property.css@));
        let j = join_chars(&l, "; ");
        Some(string_of(j.as_slice()))
    }
}

/// After reading the characters of `s`: the kept characters, the
/// parenthesis depth, and whether characters are being skipped. A `:` at
/// depth 0 starts skipping (pseudo-classes and pseudo-elements); a space,
/// `>`, `+` or `~` at depth 0 ends it.
pub open spec fn clean_run(s: Seq<char>) -> (Seq<char>, int, bool)
    decreases s.len(),
{
    if s.len() == 0 {
        (Seq::empty(), 0, false)
    } else {
        let (out, depth, skip) = clean_run(s.drop_last());
        let c = s.last();
        let d1 = if c == '(' { depth + 1 } else { depth };
        let d2 = if c == ')' { d1 - 1 } else { d1 };
        let sk1 = if d2 == 0 && c == ':' { true } else { skip };
        let sk2 = if sk1 && d2 == 0 && (c == ' ' || c == '>' || c == '+' || c == '~') {
            false
        } else {
            sk1
        };
        (if !sk2 { out.push(c) } else { out }, d2, sk2)
    }
}

/// A printed selector without its pseudo-classes and pseudo-elements,
/// trimmed; `*` when nothing is left.
pub open spec fn clean_selector_spec(s: Seq<char>) -> Seq<char> {
    let t = trim(clean_run(s).0);
    if t.len() == 0 {
        "*"@
    } else {
        t
    }
}

/// Whether a selector has a class or id component.
pub open spec fn has_class_or_id(cs: Seq<SelectorComponent>) -> bool {
    exists|i: int| 0 <= i < cs.len() && ((#[trigger] cs[i]).kind is Class || cs[i].kind is Id)
}

/// The variant of a selector's pseudo-class or pseudo-element: that of its
/// last component, in match order, that `pseudo_key` gives one.
pub open spec fn component_variant(cs: Seq<SelectorComponent>) -> Option<(int, Seq<char>)>
    decreases cs.len(),
{
    if cs.len() == 0 {
        None
    } else {
        match pseudo_key(cs.last().text@) {
            Some(k) => Some(k),
            None => component_variant(cs.drop_last()),
        }
    }
}

/// The mappings that a matching selector of `rule` gives an element:
/// the rule's declarations under its context and the selector's variant.
pub open spec fn selector_views(rule: StyleRule, ctx: Seq<(int, Seq<char>)>, sel: SelectorInfo) -> Seq<(CssProperty, Seq<(int, Seq<char>)>, u32, bool)> {
    let vs = match component_variant(sel.components@) {
        Some(k) => ctx.push(k),
        None => ctx,
    };
    decl_views(rule.declarations.declarations@, vs, sel.specificity, false) + decl_views(
        rule.declarations.important_declarations@,
        vs,
        sel.specificity,
        true,
    )
}

/// Whether the `k`th entry of `ms` is `true`.
pub open spec fn flag(ms: Seq<bool>, k: int) -> bool {
    0 <= k < ms.len() && ms[k]
}

/// A selector is considered when tag selectors are included or it has a
/// class or id.
pub open spec fn considered(sel: SelectorInfo, include_tags: bool) -> bool {
    include_tags || has_class_or_id(sel.components@)
}

/// The mappings from the first `n` selectors of a rule, where `ms` tells
/// which selectors match the element.
pub open spec fn rule_views(rule: StyleRule, ctx: Seq<(int, Seq<char>)>, ms: Seq<bool>, include_tags: bool, n: int) -> Seq<(CssProperty, Seq<(int, Seq<char>)>, u32, bool)>
    decreases n,
{
    if n <= 0 {
        Seq::empty()
    } else {
        let sel = rule.selectors@[n - 1];
        rule_views(rule, ctx, ms, include_tags, n - 1) + if considered(sel, include_tags) && flag(ms, n - 1) {
            selector_views(rule, ctx, sel)
        } else {
            Seq::empty()
        }
    }
}

/// The mappings that the rules give an element, where `matched[r][s]`
/// tells whether the `s`th selector of the `r`th rule matches it.
pub open spec fn resolved_views(rules: Seq<(StyleRule, Seq<(int, Seq<char>)>)>, matched: Seq<Seq<bool>>, include_tags: bool) -> Seq<(CssProperty, Seq<(int, Seq<char>)>, u32, bool)>
    decreases rules.len(),
{
    if rules.len() == 0 {
        Seq::empty()
    } else {
        let r = rules.last();
        let ms = if rules.len() - 1 < matched.len() { matched[rules.len() - 1] } else { Seq::empty() };
        resolved_views(rules.drop_last(), matched, include_tags) + rule_views(r.0, r.1, ms, include_tags, r.0.selectors@.len() as int)
    }
}

/// The row of `matched` for the `r`th rule; empty when there is none.
pub open spec fn matched_row(matched: Seq<Seq<bool>>, r: int) -> Seq<bool> {
    if 0 <= r < matched.len() {
        matched[r]
    } else {
        Seq::empty()
    }
}

proof fn lemma_rule_views_tags(rule: StyleRule, ctx: Seq<(int, Seq<char>)>, a: Seq<bool>, b: Seq<bool>, n: int)
    requires
        n <= rule.selectors@.len(),
        forall|s: int| 0 <= s < rule.selectors@.len() && has_class_or_id(#[trigger] rule.selectors@[s].components@)
            ==> flag(a, s) == flag(b, s),
    ensures
        rule_views(rule, ctx, a, false, n) == rule_views(rule, ctx, b, false, n),
    decreases n,
{
    if n > 0 {
        lemma_rule_views_tags(rule, ctx, a, b, n - 1);
        let sel = rule.selectors@[n - 1];
        if has_class_or_id(sel.components@) {
            assert(flag(a, n - 1) == flag(b, n - 1));
        }
    }
}

/// Law: without tag selectors, the styles of an element depend only on
/// which selectors with a class or an id match it; selectors such as
/// `div`, `*` or `:root` are ignored, whether they match or not.
pub proof fn law_tag_selectors_ignored(rules: Seq<(StyleRule, Seq<(int, Seq<char>)>)>, m1: Seq<Seq<bool>>, m2: Seq<Seq<bool>>)
    requires
        forall|r: int, s: int|
            0 <= r < rules.len() && 0 <= s < rules[r].0.selectors@.len() && has_class_or_id(#[trigger] rules[r].0.selectors@[s].components@)
            ==> flag(matched_row(m1, r), s) == flag(matched_row(m2, r), s),
    ensures
        resolved_views(rules, m1, false) == resolved_views(rules, m2, false),
    decreases rules.len(),
{
    if rules.len() > 0 {
        let init = rules.drop_last();
        assert forall|r: int, s: int|
            0 <= r < init.len() && 0 <= s < init[r].0.selectors@.len() && has_class_or_id(#[trigger] init[r].0.selectors@[s].components@)
            implies flag(matched_row(m1, r), s) == flag(matched_row(m2, r), s) by {
            assert(init[r] == rules[r]);
        }
        law_tag_selectors_ignored(init, m1, m2);
        let k = rules.len() - 1;
        let rl = rules.last();
        assert forall|s: int| 0 <= s < rl.0.selectors@.len() && has_class_or_id(#[trigger] rl.0.selectors@[s].components@)
            implies flag(matched_row(m1, k), s) == flag(matched_row(m2, k), s) by {
            assert(rules[k] == rl);
        }
        lemma_rule_views_tags(rl.0, rl.1, matched_row(m1, k), matched_row(m2, k), rl.0.selectors@.len() as int);
        assert((if k < m1.len() { m1[k] } else { Seq::<bool>::empty() }) == matched_row(m1, k));
        assert((if k < m2.len() { m2[k] } else { Seq::<bool>::empty() }) == matched_row(m2, k));
    }
}

/// A printed selector without its pseudo-classes and pseudo-elements, as
/// `clean_selector_spec` says: what scraper can match against an element.
pub fn clean_selector(sel: &str) -> (r: String)
    ensures
        r@ == clean_selector_spec(sel@),
{
    let s = chars_of(sel);
    let mut out: Vec<char> = Vec::new();
    let mut depth: i128 = 0;
    let mut skip = false;
    for i in 0..s.len()
        invariant
            s@ == sel@,
            -(i as int) <= depth <= i,
            (out@, depth as int, skip) == clean_run(s@.subrange(0, i as int)),
    {
        assert(s@.subrange(0, i + 1).drop_last() =~= s@.subrange(0, i as int));
        let c = s[i];
        if c == '(' {
            depth = depth + 1;
        }
        if c == ')' {
            depth = depth - 1;
        }
        if depth == 0 && c == ':' {
            skip = true;
        }
        if skip && depth == 0 && (c == ' ' || c == '>' || c == '+' || c == '~') {
            skip = false;
        }
        if !skip {
            out.push(c);
        }
    }
    assert(s@.subrange(0, s@.len() as int) =~= s@);
    let t = trim_chars(out.as_slice());
    if t.len() == 0 {
        String::from_str("*")
    } else {
        string_of(t.as_slice())
    }
}

/// The variant of a selector's pseudo-class or pseudo-element, as
/// `component_variant` says.
pub fn extract_variant(sel: &SelectorInfo) -> (r: Option<TailwindVariant>)
    ensures
        match r {
            Some(v) => component_variant(sel.components@) == Some(v.key()),
            None => component_variant(sel.components@) is None,
        },
{
    let cs = &sel.components;
    let mut i = cs.len();
    assert(cs@.subrange(0, i as int) =~= cs@);
    while i > 0
        invariant
            i <= cs@.len(),
            cs@ == sel.components@,
            component_variant(cs@) == component_variant(cs@.subrange(0, i as int)),
        decreases i,
    {
        assert(cs@.subrange(0, i as int).drop_last() =~= cs@.subrange(0, i - 1));
        assert(cs@.subrange(0, i as int).last() == cs@[i - 1]);
        let t = chars_of(&cs[i - 1].text);
        assert(t@ == cs@[i - 1].text@);
        if let Some(v) = pseudo_variant(t.as_slice()) {
            assert(pseudo_key(cs@.subrange(0, i as int).last().text@) == Some(v.key()));
            assert(component_variant(cs@.subrange(0, i as int)) == Some(v.key()));
            return Some(v);
        }
        i = i - 1;
    }
    assert(cs@.subrange(0, 0) =~= Seq::<SelectorComponent>::empty());
    None
}

fn has_class_or_id_exec(sel: &SelectorInfo) -> (r: bool)
    ensures
        r == has_class_or_id(sel.components@),
{
    for i in 0..sel.components.len()
        invariant
            forall|k: int| 0 <= k < i ==> !((#[trigger] sel.components@[k]).kind is Class || sel.components@[k].kind is Id),
    {
        match &sel.components[i].kind {
            ComponentKind::Class(_) => return true,
            ComponentKind::Id => return true,
            _ => {},
        }
    }
    false
}

/// Resolves which style rules apply to the elements of a document.
pub struct StyleResolver<'a> {
    pub style_rules: &'a [RuleWithContext<'a>],
    pub variable_map: VariableMap,
    /// Whether selectors without a class or id (such as `div` or `:root`)
    /// are taken into account.
    pub include_tag_selectors: bool,
}

fn push_selector_mappings(
    rule: &StyleRule,
    ctx: &Vec<TailwindVariant>,
    sel: &SelectorInfo,
    out: &mut Vec<TailwindMapping>,
)
    ensures
        mapping_views(final(out)@) == mapping_views(old(out)@) + selector_views(*rule, keys(ctx@), *sel),
        props_wf(rule.declarations.declarations@) && props_wf(rule.declarations.important_declarations@)
            && (forall|k: int| 0 <= k < old(out)@.len() ==> (#[trigger] old(out)@[k]).property.wf())
            ==> (forall|k: int| 0 <= k < final(out)@.len() ==> (#[trigger] final(out)@[k]).property.wf()),
{
    let mut vs = clone_variants(ctx);
    match extract_variant(sel) {
        Some(v) => {
            let ghost before = vs@;
            let ghost k = v.key();
            vs.push(v);
            assert(keys(vs@) =~= keys(before).push(k));
        },
        None => {},
    }
    let ghost start = out@;
    push_decl_mappings(&rule.declarations.declarations, &vs, sel.specificity, false, out);
    push_decl_mappings(&rule.declarations.important_declarations, &vs, sel.specificity, true, out);
    assert(mapping_views(out@) =~= mapping_views(start) + selector_views(*rule, keys(ctx@), *sel));
}

fn push_decl_mappings(
    ps: &Vec<CssProperty>,
    vs: &Vec<TailwindVariant>,
    specificity: u32,
    important: bool,
    out: &mut Vec<TailwindMapping>,
)
    ensures
        mapping_views(final(out)@) == mapping_views(old(out)@) + decl_views(ps@, keys(vs@), specificity, important),
        props_wf(ps@) && (forall|k: int| 0 <= k < old(out)@.len() ==> (#[trigger] old(out)@[k]).property.wf())
            ==> (forall|k: int| 0 <= k < final(out)@.len() ==> (#[trigger] final(out)@[k]).property.wf()),
{
    let ghost start = out@;
    for j in 0..ps.len()
        invariant
            mapping_views(out@) == mapping_views(start) + decl_views(ps@.subrange(0, j as int), keys(vs@), specificity, important),
            out@.len() == start.len() + j,
            forall|k: int| 0 <= k < start.len() ==> out@[k] == start[k],
            forall|k: int| start.len() <= k < out@.len() ==> (#[trigger] out@[k]).property == ps@[k - start.len()],
    {
        let m = TailwindMapping {
            property: ps[j].clone(),
            variants: clone_variants(vs),
            specificity,
            important,
        };
        let ghost before = out@;
        out.push(m);
        proof {
            lemma_views_push(before, m);
            assert(decl_views(ps@.subrange(0, j + 1), keys(vs@), specificity, important) =~= decl_views(ps@.subrange(0, j as int), keys(vs@), specificity, important).push(mapping_view(m)));
            assert(out@[before.len() as int] == m);
        }
    }
    assert(ps@.subrange(0, ps@.len() as int) =~= ps@);
    proof {
        if props_wf(ps@) && (forall|k: int| 0 <= k < start.len() ==> (#[trigger] start[k]).property.wf()) {
            assert forall|k: int| 0 <= k < out@.len() implies (#[trigger] out@[k]).property.wf() by {
                if k < start.len() {
                    assert(out@[k] == start[k]);
                } else {
                    assert(out@[k].property == ps@[k - start.len()]);
                }
            }
        }
    }
}

impl<'a> StyleResolver<'a> {
    /// A resolver over the rules, with the CSS variables they define.
    pub fn new(style_rules: &'a [RuleWithContext<'a>], include_tag_selectors: bool) -> (r: StyleResolver<'a>)
        ensures
            r.style_rules == style_rules,
            r.include_tag_selectors == include_tag_selectors,
            r.variable_map.pairs() == variable_entries(plain_rules(style_rules@)),
    {
        let variable_map = extract_variables(style_rules);
        StyleResolver { style_rules, variable_map, include_tag_selectors }
    }

    /// Every declaration of the rules is well formed.
    pub open spec fn rules_wf(&self) -> bool {
        forall|i: int| 0 <= i < self.style_rules@.len() ==> (#[trigger] self.style_rules@[i]).rule.wf()
    }

    /// The styles of an element given which selectors match it:
    /// `matched[r][s]` for the `s`th selector of the `r`th rule. For each
    /// rule in order, each of its considered, matching selectors contributes
    /// the rule's declarations (normal, then important) under the rule's
    /// variants and the selector's pseudo variant.
    pub fn resolve_matched(&self, matched: &Vec<Vec<bool>>) -> (r: ResolvedElementStyle<'_>)
        ensures
            mapping_views(r.properties@) == resolved_views(rwc_views(self.style_rules@), matched@.map_values(|v: Vec<bool>| v@), self.include_tag_selectors),
            *r.variable_map == self.variable_map,
            self.rules_wf() ==> forall|k: int| 0 <= k < r.properties@.len() ==> (#[trigger] r.properties@[k]).property.wf(),
    {
        let ghost mv = matched@.map_values(|v: Vec<bool>| v@);
        let ghost rules = rwc_views(self.style_rules@);
        let mut out: Vec<TailwindMapping> = Vec::new();
        assert(mapping_views(out@) =~= Seq::empty());
        assert(rules.subrange(0, 0) =~= Seq::<(StyleRule, Seq<(int, Seq<char>)>)>::empty());
        for ri in 0..self.style_rules.len()
            invariant
                mv == matched@.map_values(|v: Vec<bool>| v@),
                rules == rwc_views(self.style_rules@),
                mapping_views(out@) == resolved_views(rules.subrange(0, ri as int), mv, self.include_tag_selectors),
                self.rules_wf() ==> forall|k: int| 0 <= k < out@.len() ==> (#[trigger] out@[k]).property.wf(),
        {
            proof {
                assert(rules.subrange(0, ri + 1).drop_last() =~= rules.subrange(0, ri as int));
                assert(rules.subrange(0, ri + 1).last() == rules[ri as int]);
            }
            let rc = &self.style_rules[ri];
            let rule = rc.rule;
            let ghost ms: Seq<bool> = if ri < mv.len() { mv[ri as int] } else { Seq::empty() };
            let ghost base = mapping_views(out@);
            for si in 0..rule.selectors.len()
                invariant
                    mv == matched@.map_values(|v: Vec<bool>| v@),
                    ms == (if ri < mv.len() { mv[ri as int] } else { Seq::<bool>::empty() }),
                    rule == rc.rule,
                    rc == &self.style_rules@[ri as int],
                    ri < self.style_rules@.len(),
                    mapping_views(out@) == base + rule_views(*rule, keys(rc.context_variants@), ms, self.include_tag_selectors, si as int),
                    self.rules_wf() ==> forall|k: int| 0 <= k < out@.len() ==> (#[trigger] out@[k]).property.wf(),
            {
                let sel = &rule.selectors[si];
                let m = ri < matched.len() && si < matched[ri].len() && matched[ri][si];
                assert(m == flag(ms, si as int));
                if m && (self.include_tag_selectors || has_class_or_id_exec(sel)) {
                    proof {
                        if self.rules_wf() {
                            assert(self.style_rules@[ri as int].rule.wf());
                        }
                    }
                    push_selector_mappings(rule, &rc.context_variants, sel, &mut out);
                }
                assert(mapping_views(out@) =~= base + rule_views(*rule, keys(rc.context_variants@), ms, self.include_tag_selectors, si + 1));
            }
            assert(mapping_views(out@) =~= resolved_views(rules.subrange(0, ri + 1), mv, self.include_tag_selectors));
        }
        assert(rules.subrange(0, self.style_rules@.len() as int) =~= rules);
        ResolvedElementStyle { properties: out, variable_map: &self.variable_map }
    }

    /// The styles that apply to the `element`th element of `doc` (document
    /// order, root first): scraper decides which selectors, with their
    /// pseudo-classes and pseudo-elements taken off, match it (see
    /// `element_matched`).
    pub fn resolve_styles(&self, doc: &Document, element: usize) -> (r: ResolvedElementStyle<'_>)
        ensures
            mapping_views(r.properties@) == resolved_views(
                rwc_views(self.style_rules@),
                element_matched(doc.source(), doc.is_fragment(), element, rwc_views(self.style_rules@), self.include_tag_selectors),
                self.include_tag_selectors,
            ),
            *r.variable_map == self.variable_map,
            self.rules_wf() ==> forall|k: int| 0 <= k < r.properties@.len() ==> (#[trigger] r.properties@[k]).property.wf(),
    {
        let ghost rules = rwc_views(self.style_rules@);
        let ghost want = element_matched(doc.source(), doc.is_fragment(), element, rules, self.include_tag_selectors);
        let mut matched: Vec<Vec<bool>> = Vec::new();
        for ri in 0..self.style_rules.len()
            invariant
                rules == rwc_views(self.style_rules@),
                want == element_matched(doc.source(), doc.is_fragment(), element, rules, self.include_tag_selectors),
                matched@.len() == ri,
                forall|k: int| 0 <= k < ri ==> (#[trigger] matched@[k])@ == want[k],
        {
            let rule = self.style_rules[ri].rule;
            assert(rules[ri as int].0 == *rule);
            let mut ms: Vec<bool> = Vec::new();
            for si in 0..rule.selectors.len()
                invariant
                    rule == self.style_rules@[ri as int].rule,
                    ri < self.style_rules@.len(),
                    rules == rwc_views(self.style_rules@),
                    rules[ri as int].0 == *rule,
                    ms@.len() == si,
                    forall|k: int| 0 <= k < si ==> ms@[k] == selector_matched(doc.source(), doc.is_fragment(), element, rule.selectors@[k], self.include_tag_selectors),
            {
                let sel = &rule.selectors[si];
                let m = if self.include_tag_selectors || has_class_or_id_exec(sel) {
                    let clean = clean_selector(&sel.text);
                    match element_matches(doc, element, &clean) {
                        Some(true) => true,
                        _ => false,
                    }
                } else {
                    false
                };
                ms.push(m);
            }
            assert(ms@ =~= want[ri as int]);
            matched.push(ms);
        }
        assert(matched@.map_values(|v: Vec<bool>| v@) =~= want);
        self.resolve_matched(&matched)
    }
}

/// Whether the selector is tried against the `element`th element of the
/// text (read as a fragment or not) and matches it: it is considered, and
/// scraper matches it, pseudo-classes and pseudo-elements taken off.
pub open spec fn selector_matched(text: Seq<char>, fragment: bool, element: usize, sel: SelectorInfo, include_tags: bool) -> bool {
    considered(sel, include_tags) && dom_matches(text, fragment, element, clean_selector_spec(sel.text@)) == Some(true)
}

/// For each rule and each of its selectors, `selector_matched`.
pub open spec fn element_matched(
    text: Seq<char>,
    fragment: bool,
    element: usize,
    rules: Seq<(StyleRule, Seq<(int, Seq<char>)>)>,
    include_tags: bool,
) -> Seq<Seq<bool>> {
    rules.map_values(|r: (StyleRule, Seq<(int, Seq<char>)>)| r.0.selectors@.map_values(|sel: SelectorInfo| selector_matched(text, fragment, element, sel, include_tags)))
}

/// The first element, from the `k`th on, of the text (read as a fragment
/// or not) that scraper matches with the selector.
pub open spec fn first_match(text: Seq<char>, fragment: bool, selector: Seq<char>, k: int) -> Option<usize>
    decreases dom_element_count(text, fragment) - k,
{
    if k < 0 || k >= dom_element_count(text, fragment) {
        None
    } else if dom_matches(text, fragment, k as usize, selector) == Some(true) {
        Some(k as usize)
    } else {
        first_match(text, fragment, selector, k + 1)
    }
}

/// The index (document order, root first) of the first element of `doc`
/// that the selector matches, as scraper decides (`first_match`).
pub fn find_element(doc: &Document, selector: &str) -> (r: Option<usize>)
    ensures
        r == first_match(doc.source(), doc.is_fragment(), selector@, 0),
{
    let n = element_count(doc);
    for i in 0..n
        invariant
            n == dom_element_count(doc.source(), doc.is_fragment()),
            first_match(doc.source(), doc.is_fragment(), selector@, 0) == first_match(doc.source(), doc.is_fragment(), selector@, i as int),
    {
        if let Some(true) = element_matches(doc, i, selector) {
            return Some(i);
        }
    }
    None
}

/// The mapping at `i` wins the cascade among `ms`: no mapping of the same
/// property name and variants has a higher specificity, and none that comes
/// after it has the same.
pub open spec fn wins(ms: Seq<(CssProperty, Seq<(int, Seq<char>)>, u32, bool)>, i: int) -> bool {
    &&& 0 <= i < ms.len()
    &&& forall|j: int|
        0 <= j < ms.len() && #[trigger] mkey(ms[j]) == mkey(ms[i]) ==> ms[j].2 <= ms[i].2 && (j > i
            ==> ms[j].2 < ms[i].2)
}

proof fn lemma_key_index(b: Seq<(CssProperty, Seq<(int, Seq<char>)>, u32, bool)>, k: (Seq<char>, Seq<(int, Seq<char>)>))
    ensures
        key_index(b, k) matches Some(j) ==> 0 <= j < b.len() && mkey(b[j]) == k,
        key_index(b, k) is None ==> forall|p: int| 0 <= p < b.len() ==> #[trigger] mkey(b[p]) != k,
    decreases b.len(),
{
    if b.len() > 0 && mkey(b.last()) != k {
        lemma_key_index(b.drop_last(), k);
        assert forall|p: int| 0 <= p < b.len() - 1 implies #[trigger] b[p] == b.drop_last()[p] by {}
    }
}

/// Where each kept mapping comes from: `w[p]` is the place in `ms` of the
/// `p`-th mapping of `best_views(ms)`, and it wins; every key of `ms` is
/// kept, and no key twice.
proof fn lemma_best_views_sources(ms: Seq<(CssProperty, Seq<(int, Seq<char>)>, u32, bool)>) -> (w: Seq<int>)
    ensures
        w.len() == best_views(ms).len(),
        forall|p: int| 0 <= p < w.len() ==> wins(ms, #[trigger] w[p]) && best_views(ms)[p] == ms[w[p]],
        forall|i: int| 0 <= i < ms.len() ==> key_index(best_views(ms), #[trigger] mkey(ms[i])) is Some,
        forall|p: int, q: int|
            0 <= p < best_views(ms).len() && 0 <= q < best_views(ms).len() && p != q ==> mkey(
                #[trigger] best_views(ms)[p],
            ) != mkey(#[trigger] best_views(ms)[q]),
    decreases ms.len(),
{
    if ms.len() == 0 {
        Seq::empty()
    } else {
        let pre = ms.drop_last();
        let b = best_views(pre);
        let w0 = lemma_best_views_sources(pre);
        let x = ms.last();
        let n = ms.len() - 1;
        let bb = best_views(ms);
        assert forall|i: int| 0 <= i < n implies #[trigger] ms[i] == pre[i] by {}
        lemma_key_index(b, mkey(x));
        // A winner among the earlier mappings whose key is not `x`'s still wins.
        assert forall|i: int| wins(pre, i) && mkey(pre[i]) != mkey(x) implies wins(ms, i) by {
            assert forall|j: int| 0 <= j < ms.len() && #[trigger] mkey(ms[j]) == mkey(ms[i]) implies ms[j].2
                <= ms[i].2 && (j > i ==> ms[j].2 < ms[i].2) by {
                if j < n {
                    assert(mkey(pre[j]) == mkey(pre[i]));
                }
            }
        }
        match key_index(b, mkey(x)) {
            Some(j) => {
                let src = w0[j];
                assert(wins(pre, src));
                assert(mkey(pre[src]) == mkey(x));
                if x.2 >= b[j].2 {
                    let w = w0.update(j, n);
                    assert(bb == b.update(j, x));
                    assert(wins(ms, n)) by {
                        assert forall|t: int| 0 <= t < ms.len() && #[trigger] mkey(ms[t]) == mkey(ms[n]) implies ms[t].2
                            <= ms[n].2 && (t > n ==> ms[t].2 < ms[n].2) by {
                            if t < n {
                                assert(mkey(pre[t]) == mkey(pre[src]));
                            }
                        }
                    }
                    assert forall|p: int| 0 <= p < w.len() implies wins(ms, #[trigger] w[p]) && bb[p] == ms[w[p]] by {
                        if p != j {
                            assert(mkey(b[p]) != mkey(b[j]));
                            assert(wins(pre, w0[p]));
                        }
                    }
                    assert forall|i: int| 0 <= i < ms.len() implies key_index(bb, #[trigger] mkey(ms[i])) is Some by {
                        if i < n {
                            let k = mkey(pre[i]);
                            lemma_key_index(b, k);
                            let q = key_index(b, k)->0;
                            lemma_key_index(bb, k);
                            assert(mkey(bb[q]) == k);
                        } else {
                            lemma_key_index(bb, mkey(x));
                            assert(mkey(bb[j]) == mkey(x));
                        }
                    }
                    w
                } else {
                    assert(bb == b);
                    assert(wins(ms, src)) by {
                        assert forall|t: int| 0 <= t < ms.len() && #[trigger] mkey(ms[t]) == mkey(ms[src]) implies ms[t].2
                            <= ms[src].2 && (t > src ==> ms[t].2 < ms[src].2) by {
                            if t < n {
                                assert(mkey(pre[t]) == mkey(pre[src]));
                            }
                        }
                    }
                    assert forall|p: int| 0 <= p < w0.len() implies wins(ms, #[trigger] w0[p]) && bb[p] == ms[w0[p]] by {
                        if p != j {
                            assert(mkey(b[p]) != mkey(b[j]));
                            assert(wins(pre, w0[p]));
                        }
                    }
                    assert forall|i: int| 0 <= i < ms.len() implies key_index(bb, #[trigger] mkey(ms[i])) is Some by {
                        if i < n {
                            assert(mkey(ms[i]) == mkey(pre[i]));
                        }
                    }
                    w0
                }
            },
            None => {
                let w = w0.push(n);
                assert(bb == b.push(x));
                assert(wins(ms, n)) by {
                    assert forall|t: int| 0 <= t < ms.len() && #[trigger] mkey(ms[t]) == mkey(ms[n]) implies ms[t].2
                        <= ms[n].2 && (t > n ==> ms[t].2 < ms[n].2) by {
                        if t < n {
                            let k = mkey(pre[t]);
                            lemma_key_index(b, k);
                            let q = key_index(b, k)->0;
                            assert(mkey(b[q]) == mkey(x));
                        }
                    }
                }
                assert forall|p: int| 0 <= p < w.len() implies wins(ms, #[trigger] w[p]) && bb[p] == ms[w[p]] by {
                    if p < b.len() {
                        assert(mkey(b[p]) != mkey(x));
                        assert(wins(pre, w0[p]));
                        assert(bb[p] == b[p]);
                    }
                }
                assert forall|i: int| 0 <= i < ms.len() implies key_index(bb, #[trigger] mkey(ms[i])) is Some by {
                    if i < n {
                        let k = mkey(pre[i]);
                        lemma_key_index(b, k);
                        let q = key_index(b, k)->0;
                        lemma_key_index(bb, k);
                        assert(mkey(bb[q]) == k);
                    } else {
                        lemma_key_index(bb, mkey(x));
                        assert(mkey(bb[b.len() as int]) == mkey(x));
                    }
                }
                w
            },
        }
    }
}

/// Two winners of one property name and variants are one mapping.
proof fn lemma_one_winner(ms: Seq<(CssProperty, Seq<(int, Seq<char>)>, u32, bool)>, i: int, j: int)
    requires
        wins(ms, i),
        wins(ms, j),
        mkey(ms[i]) == mkey(ms[j]),
    ensures
        i == j,
{
    assert(mkey(ms[j]) == mkey(ms[i]));
    assert(mkey(ms[i]) == mkey(ms[j]));
}

/// The classes of the mappings hold the class of each of them that maps.
proof fn lemma_class_set_has(best: Seq<(CssProperty, Seq<(int, Seq<char>)>, u32, bool)>, p: int, rem: Decimal, vars: VariableMap)
    requires
        0 <= p < best.len(),
        map_spec(best[p].0, best[p].3, keys_prefix(best[p].1), rem, vars) is Some,
    ensures
        class_set(best, rem, vars).contains(
            map_spec(best[p].0, best[p].3, keys_prefix(best[p].1), rem, vars)->0,
        ),
    decreases best.len(),
{
    if p < best.len() - 1 {
        assert(best.drop_last()[p] == best[p]);
        lemma_class_set_has(best.drop_last(), p, rem, vars);
    }
}

/// The place in `ms` of the `p`-th mapping that the cascade keeps.
pub open spec fn kept_source(ms: Seq<(CssProperty, Seq<(int, Seq<char>)>, u32, bool)>, p: int) -> int {
    choose|i: int| wins(ms, i) && best_views(ms)[p] == ms[i]
}

/// The cascade: among the mappings of one element with the same property
/// name and variants, the one with the highest specificity wins, and among
/// those of equal specificity the one that comes last in stylesheet order.
/// The mappings kept are exactly the winners: each winner is kept, each
/// kept mapping is a winner, every property name and variants of the
/// element is kept, and none twice.
#[verifier::spinoff_prover]
pub proof fn law_cascade_winner(ms: Seq<(CssProperty, Seq<(int, Seq<char>)>, u32, bool)>)
    ensures
        forall|i: int| #[trigger] wins(ms, i) ==> best_views(ms).contains(ms[i]),
        forall|p: int|
            0 <= p < best_views(ms).len() ==> wins(ms, #[trigger] kept_source(ms, p))
                && best_views(ms)[p] == ms[kept_source(ms, p)],
        forall|i: int|
            0 <= i < ms.len() ==> key_index(best_views(ms), #[trigger] mkey(ms[i])) is Some,
        forall|p: int, q: int|
            0 <= p < q < best_views(ms).len() ==> mkey(#[trigger] best_views(ms)[p]) != mkey(
                #[trigger] best_views(ms)[q],
            ),
{
    let b = best_views(ms);
    let w = lemma_best_views_sources(ms);
    assert forall|i: int| #[trigger] wins(ms, i) implies b.contains(ms[i]) by {
        let k = mkey(ms[i]);
        lemma_key_index(b, k);
        let p = key_index(b, k)->0;
        assert(wins(ms, w[p]));
        assert(mkey(ms[w[p]]) == mkey(ms[i]));
        lemma_one_winner(ms, i, w[p]);
        assert(b[p] == ms[i]);
    }
    assert forall|p: int| 0 <= p < b.len() implies wins(ms, #[trigger] kept_source(ms, p))
        && b[p] == ms[kept_source(ms, p)] by {
        assert(wins(ms, w[p]) && b[p] == ms[w[p]]);
    }
}

/// The class of the mapping that wins the cascade for its property name and
/// variants is among the element's classes.
pub proof fn law_winner_class_kept(ms: Seq<(CssProperty, Seq<(int, Seq<char>)>, u32, bool)>, i: int, rem: Decimal, vars: VariableMap)
    requires
        wins(ms, i),
        map_spec(ms[i].0, ms[i].3, keys_prefix(ms[i].1), rem, vars) is Some,
    ensures
        class_set(best_views(ms), rem, vars).contains(
            map_spec(ms[i].0, ms[i].3, keys_prefix(ms[i].1), rem, vars)->0,
        ),
{
    law_cascade_winner(ms);
    let b = best_views(ms);
    assert(b.contains(ms[i]));
    let p = choose|p: int| 0 <= p < b.len() && b[p] == ms[i];
    lemma_class_set_has(b, p, rem, vars);
}

} // verus!
