//! Planning the replacement of CSS classes by Tailwind utilities.

use crate::css::parser::{clone_mappings, mapping_views, RuleMap, TailwindMapping};
use crate::css::resolver::{raw_css_spec, tailwind_spec, ResolvedElementStyle};
use crate::error::Css2TwError;
use crate::number::{nat_chars, nat_text, pow10, Decimal};
use crate::report::{ConfidenceReason, ConfidenceReport};
use crate::rewrite::patch::{edit_of, edits, Replacement};
use crate::source::class_usage::{ClassUsage, Span};
use crate::tailwind::mapping::CssProperty;
use crate::tailwind::vars::VariableMap;
use crate::text::{chars_of, find, find_chars, push_all, push_str, string_of};
use vstd::prelude::*;

verus! {

/// A mapping over plain values (see `mapping_view`).
pub type MappingView = (CssProperty, Seq<(int, Seq<char>)>, u32, bool);

/// The confidence left after `k` resolved variables: 1 multiplied by 0.9
/// `k` times, exact while it fits 18 decimal places and from then on cut
/// to 18 places at each step.
pub open spec fn decay(k: nat) -> Decimal
    decreases k,
{
    if k == 0 {
        Decimal { negative: false, digits: 1, scale: 0 }
    } else {
        let d = decay((k - 1) as nat);
        if d.scale < 18 {
            Decimal { negative: false, digits: (d.digits * 9) as u128, scale: (d.scale + 1) as u32 }
        } else {
            Decimal { negative: false, digits: (d.digits * 9 / 10) as u128, scale: 18 }
        }
    }
}

pub proof fn lemma_decay_bounds(k: nat)
    ensures
        decay(k).wf(),
        decay(k).digits <= pow10(decay(k).scale as nat),
        !decay(k).negative,
    decreases k,
{
    crate::number::lemma_pow10_18();
    if k > 0 {
        lemma_decay_bounds((k - 1) as nat);
        let d = decay((k - 1) as nat);
        crate::number::lemma_pow10_mono(d.scale as nat, 18);
        if d.scale < 18 {
            assert(pow10((d.scale + 1) as nat) == 10 * pow10(d.scale as nat));
            crate::number::lemma_pow10_mono((d.scale + 1) as nat, 18);
        }
    }
}

/// Whether a printed declaration refers to a variable.
pub open spec fn has_var(css: Seq<char>) -> bool {
    find(css, "var("@) is Some
}

/// The printed declarations among the mappings that refer to a variable.
pub open spec fn var_decls(ms: Seq<MappingView>) -> Seq<Seq<char>>
    decreases ms.len(),
{
    if ms.len() == 0 {
        Seq::empty()
    } else if has_var(ms.last().0.css@) {
        var_decls(ms.drop_last()).push(ms.last().0.css@)
    } else {
        var_decls(ms.drop_last())
    }
}

/// `r` is `VariableResolved` with the declaration `d`.
pub open spec fn resolved_reason(r: ConfidenceReason, d: Seq<char>) -> bool {
    r matches ConfidenceReason::VariableResolved(x) && x@ == d
}

/// The confidence of a conversion of the mappings: `FullMatch`, then one
/// `VariableResolved` for each declaration that refers to a variable, and
/// a score of 0.9 to the power of their number (see `decay`).
pub open spec fn confidence_ok(c: ConfidenceReport, ms: Seq<MappingView>) -> bool {
    let vs = var_decls(ms);
    &&& c.score == decay(vs.len())
    &&& c.reasons@.len() == vs.len() + 1
    &&& c.reasons@[0] is FullMatch
    &&& forall|i: int| 0 <= i < vs.len() ==> resolved_reason(#[trigger] c.reasons@[i + 1], vs[i])
}

fn decay_step(d: Decimal) -> (r: Decimal)
    requires
        d.wf(),
        d.digits <= pow10(d.scale as nat),
    ensures
        r == (if d.scale < 18 {
            Decimal { negative: false, digits: (d.digits * 9) as u128, scale: (d.scale + 1) as u32 }
        } else {
            Decimal { negative: false, digits: (d.digits * 9 / 10) as u128, scale: 18 }
        }),
{
    proof {
        crate::number::lemma_pow10_18();
        crate::number::lemma_pow10_mono(d.scale as nat, 18);
    }
    if d.scale < 18 {
        Decimal { negative: false, digits: d.digits * 9, scale: d.scale + 1 }
    } else {
        Decimal { negative: false, digits: d.digits * 9 / 10, scale: 18 }
    }
}

/// Law: the confidence score of every conversion lies between 0 and 1.
pub proof fn law_confidence_range(c: ConfidenceReport, ms: Seq<MappingView>)
    requires
        confidence_ok(c, ms),
    ensures
        0 <= c.score.numer() <= c.score.denom(),
{
    lemma_decay_bounds(var_decls(ms).len());
}

/// The confidence of converting the mappings, as `confidence_ok` says.
pub fn confidence_of(ms: &Vec<TailwindMapping>) -> (r: ConfidenceReport)
    ensures
        confidence_ok(r, mapping_views(ms@)),
{
    let ghost views = mapping_views(ms@);
    let mut reasons: Vec<ConfidenceReason> = Vec::new();
    reasons.push(ConfidenceReason::FullMatch);
    let mut score = Decimal { negative: false, digits: 1, scale: 0 };
    let mut count: usize = 0;
    let var = chars_of("var(");
    assert(views.subrange(0, 0) =~= Seq::<MappingView>::empty());
    for i in 0..ms.len()
        invariant
            views == mapping_views(ms@),
            var@ == "var("@,
            count == var_decls(views.subrange(0, i as int)).len(),
            count <= i,
            score == decay(count as nat),
            reasons@.len() == count + 1,
            reasons@[0] is FullMatch,
            forall|t: int| 0 <= t < count ==> resolved_reason(#[trigger] reasons@[t + 1], var_decls(views.subrange(0, i as int))[t]),
    {
        proof {
            assert(views.subrange(0, i + 1).drop_last() =~= views.subrange(0, i as int));
            assert(views.subrange(0, i + 1).last().0 == ms@[i as int].property);
        }
        let css = chars_of(&ms[i].property.css);
        if find_chars(css.as_slice(), var.as_slice()).is_some() {
            proof {
                lemma_decay_bounds(count as nat);
            }
            score = decay_step(score);
            let ghost before = reasons@;
            reasons.push(ConfidenceReason::VariableResolved(ms[i].property.css.clone()));
            count = count + 1;
            proof {
                assert forall|t: int| 0 <= t < count implies resolved_reason(#[trigger] reasons@[t + 1], var_decls(views.subrange(0, i + 1))[t]) by {
                    if t < count - 1 {
                        assert(reasons@[t + 1] == before[t + 1]);
                    }
                }
            }
        }
    }
    assert(views.subrange(0, ms@.len() as int) =~= views);
    ConfidenceReport { score, reasons }
}

/// Plans the conversion of CSS classes to Tailwind utilities.
pub struct ConversionPlanner;

/// The replacement text that `explain` gives the class `name`: its
/// Tailwind classes, when it has mappings and they give any.
pub open spec fn explained(name: Seq<char>, rule_map: RuleMap, vars: VariableMap, rem: Decimal) -> Option<Seq<char>> {
    match rule_map.lookup(name) {
        Some(ms) => {
            let t = tailwind_spec(ms, rem, vars);
            if t.len() > 0 {
                Some(t)
            } else {
                None
            }
        },
        None => None,
    }
}

/// Whether `plan` keeps the use of the class `name`: it has a replacement
/// whose confidence reaches the threshold.
pub open spec fn planned(name: Seq<char>, rule_map: RuleMap, vars: VariableMap, rem: Decimal, threshold: Decimal) -> bool {
    &&& explained(name, rule_map, vars, rem) is Some
    &&& decay(var_decls(rule_map.lookup(name)->0).len()).ge_spec(threshold)
}

/// The edits of the uses that `plan` keeps, in order: each use's span and
/// its class's replacement text.
pub open spec fn plan_edits(uses: Seq<ClassUsage>, rule_map: RuleMap, vars: VariableMap, rem: Decimal, threshold: Decimal) -> Seq<(int, int, Seq<char>)>
    decreases uses.len(),
{
    if uses.len() == 0 {
        Seq::empty()
    } else {
        let u = uses.last();
        let rest = plan_edits(uses.drop_last(), rule_map, vars, rem, threshold);
        if planned(u.class_name@, rule_map, vars, rem, threshold) {
            rest.push((u.span.start as int, u.span.end as int, explained(u.class_name@, rule_map, vars, rem)->0))
        } else {
            rest
        }
    }
}

/// The uses that `plan` keeps, in order (see `planned`).
pub open spec fn planned_uses(uses: Seq<ClassUsage>, rule_map: RuleMap, vars: VariableMap, rem: Decimal, threshold: Decimal) -> Seq<ClassUsage>
    decreases uses.len(),
{
    if uses.len() == 0 {
        Seq::empty()
    } else {
        let rest = planned_uses(uses.drop_last(), rule_map, vars, rem, threshold);
        if planned(uses.last().class_name@, rule_map, vars, rem, threshold) {
            rest.push(uses.last())
        } else {
            rest
        }
    }
}

/// The replacement that `explain` gives the class `name`, whatever its
/// span: the class's Tailwind classes (`explained`), the name as old text,
/// the confidence of its mappings, a trace of two lines, the raw CSS, and
/// no failure, reasons or diagnostics.
pub open spec fn explains(rep: Replacement, name: Seq<char>, rule_map: RuleMap, vars: VariableMap, rem: Decimal) -> bool {
    &&& explained(name, rule_map, vars, rem) == Some(rep.after@)
    &&& rep.before@ == name
    &&& confidence_ok(rep.confidence, rule_map.lookup(name)->0)
    &&& rep.trace@.len() == 2
    &&& rep.trace@[0]@ == "Found "@ + nat_text(rule_map.lookup(name)->0.len()) + " mappings for class ."@ + name
    &&& rep.trace@[1]@ == "Resolved Tailwind utility: "@ + rep.after@
    &&& (match rep.raw_css {
        Some(c) => raw_css_spec(rule_map.lookup(name)->0) == Some(c@),
        None => raw_css_spec(rule_map.lookup(name)->0) is None,
    })
    &&& rep.failure_reason is None
    &&& rep.reasons@.len() == 0
    &&& rep.diagnostics@.len() == 0
}

impl ConversionPlanner {
    /// Explains how the class `class_name` would be converted: its Tailwind
    /// classes (as `explained` says), a trace, the raw CSS, and the
    /// confidence (see `confidence_ok`). `None` when the class has no
    /// mappings or they give no class.
    pub fn explain(class_name: &str, rule_map: &RuleMap, variable_map: &VariableMap, rem_scale: &Decimal) -> (r: Option<Replacement>)
        requires
            rule_map.wf(),
            rule_map.props_wf(),
            rem_scale.wf(),
        ensures
            match r {
                Some(rep) => explains(rep, class_name@, *rule_map, *variable_map, *rem_scale)
                    && rep.span == (Span { start: 0, end: 0 }),
                None => explained(class_name@, *rule_map, *variable_map, *rem_scale) is None,
            },
    {
        let mappings = match rule_map.get(class_name) {
            Some(m) => m,
            None => return None,
        };
        let props = clone_mappings(mappings);
        let resolved = ResolvedElementStyle { properties: props, variable_map };
        proof {
            assert forall|k: int| 0 <= k < resolved.properties@.len() implies (#[trigger] resolved.properties@[k]).property.wf() by {
                assert(mapping_views(resolved.properties@)[k].0 == mapping_views(mappings@)[k].0);
                assert(mappings@[k].property.wf());
            }
        }
        let new_classes = resolved.to_tailwind_string(rem_scale);
        if new_classes.unicode_len() == 0 {
            return None;
        }
        let mut t0 = chars_of("Found ");
        let n = nat_chars(mappings.len() as u128);
        push_all(&mut t0, n.as_slice());
        push_str(&mut t0, " mappings for class .");
        push_str(&mut t0, class_name);
        let mut t1 = chars_of("Resolved Tailwind utility: ");
        push_str(&mut t1, new_classes.as_str());
        let mut trace: Vec<String> = Vec::new();
        trace.push(string_of(t0.as_slice()));
        trace.push(string_of(t1.as_slice()));
        let confidence = confidence_of(&resolved.properties);
        let raw_css = resolved.get_raw_css();
        Some(Replacement {
            span: Span { start: 0, end: 0 },
            before: String::from_str(class_name),
            after: new_classes,
            confidence,
            reasons: Vec::new(),
            trace,
            raw_css,
            suggestion: None,
            failure_reason: None,
            diagnostics: Vec::new(),
        })
    }

    /// The replacements for the class uses: each use whose class `explain`
    /// converts with a confidence that reaches `confidence_threshold`, at
    /// the use's span (see `plan_edits`).
    pub fn plan(
        classes: &[ClassUsage],
        rule_map: &RuleMap,
        variable_map: &VariableMap,
        rem_scale: &Decimal,
        confidence_threshold: &Decimal,
    ) -> (r: Result<Vec<Replacement>, Css2TwError>)
        requires
            rule_map.wf(),
            rule_map.props_wf(),
            rem_scale.wf(),
            confidence_threshold.wf(),
        ensures
            r matches Ok(v) && edits(v@) == plan_edits(classes@, *rule_map, *variable_map, *rem_scale, *confidence_threshold)
                && v@.len() == planned_uses(classes@, *rule_map, *variable_map, *rem_scale, *confidence_threshold).len()
                && forall|i: int| 0 <= i < v@.len() ==> {
                    let u = planned_uses(classes@, *rule_map, *variable_map, *rem_scale, *confidence_threshold)[i];
                    &&& (#[trigger] v@[i]).span == u.span
                    &&& explains(v@[i], u.class_name@, *rule_map, *variable_map, *rem_scale)
                    &&& v@[i].confidence.score.ge_spec(*confidence_threshold)
                },
    {
        let mut replacements: Vec<Replacement> = Vec::new();
        assert(edits(replacements@) =~= Seq::empty());
        for i in 0..classes.len()
            invariant
                rule_map.wf(),
                rule_map.props_wf(),
                rem_scale.wf(),
                confidence_threshold.wf(),
                edits(replacements@) == plan_edits(classes@.subrange(0, i as int), *rule_map, *variable_map, *rem_scale, *confidence_threshold),
                replacements@.len() == planned_uses(classes@.subrange(0, i as int), *rule_map, *variable_map, *rem_scale, *confidence_threshold).len(),
                forall|k: int| 0 <= k < replacements@.len() ==> {
                    let u = planned_uses(classes@.subrange(0, i as int), *rule_map, *variable_map, *rem_scale, *confidence_threshold)[k];
                    &&& (#[trigger] replacements@[k]).span == u.span
                    &&& explains(replacements@[k], u.class_name@, *rule_map, *variable_map, *rem_scale)
                    &&& replacements@[k].confidence.score.ge_spec(*confidence_threshold)
                },
        {
            assert(classes@.subrange(0, i + 1).drop_last() =~= classes@.subrange(0, i as int));
            assert(classes@.subrange(0, i + 1).last() == classes@[i as int]);
            let usage = &classes[i];
            if let Some(rep) = Self::explain(usage.class_name.as_str(), rule_map, variable_map, rem_scale) {
                proof {
                    lemma_decay_bounds(var_decls(rule_map.lookup(usage.class_name@)->0).len());
                }
                if rep.confidence.score.ge(confidence_threshold) {
                    let mut rep = rep;
                    rep.span = usage.span;
                    let ghost before = replacements@;
                    replacements.push(rep);
                    assert(edits(replacements@) =~= edits(before).push(edit_of(rep)));
                    assert(replacements@[before.len() as int] == rep);
                }
            }
        }
        assert(classes@.subrange(0, classes@.len() as int) =~= classes@);
        Ok(replacements)
    }
}

} // verus!
