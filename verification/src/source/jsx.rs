//! JSX and TSX files.
//!
//! The syntax tree is walked outside the library: each opening element comes
//! in as a `JsxOpeningElement`, in the order of the walk (document order),
//! with the byte spans that the parser gave. Planning decides from those.

use crate::css::dom::Document;
use crate::css::parser::{mapping_views, plain_rules, rwc_views, variable_entries, RuleWithContext, StyleRule};
use crate::css::resolver::{element_matched, find_element, first_match, resolved_views, tailwind_spec, ResolvedElementStyle, StyleResolver};
use crate::tailwind::mapping::CssProperty;
use crate::tailwind::vars::VariableMap;
use crate::error::Css2TwError;
use crate::number::Decimal;
use crate::report::{ConfidenceReport, Diagnostic, FailureReason, Severity};
use crate::rewrite::patch::Replacement;
use crate::source::attrs::{place_words, placed_ranges, words_from};
use crate::source::class_usage::{ClassUsage, Span};
use crate::source::{byte_offsets, is_offsets, lemma_encode_concat, utf8_len};
use crate::text::{chars_of, push_str, string_of};
use vstd::prelude::*;
use vstd::utf8::encode_utf8;

verus! {

/// A parser for JSX and TSX files.
pub struct JsxParser;

/// What the `{...}` value of an attribute holds.
#[derive(Debug, Clone)]
pub enum JsxExpressionKind {
    /// A call; the callee's name when the callee is a plain identifier.
    Call(Option<String>),
    TemplateLiteral,
    Conditional,
    Array,
    Object,
    /// Nothing but perhaps a comment.
    Empty,
    /// Any other expression, such as an identifier.
    Other,
}

/// The expression of an attribute value, with its byte span.
#[derive(Debug, Clone)]
pub struct JsxExpression {
    pub kind: JsxExpressionKind,
    pub start: usize,
    pub end: usize,
}

/// The value of an attribute.
#[derive(Debug, Clone)]
pub enum JsxAttrValue {
    /// A string literal: its text, and the byte span of that text (between
    /// the quotes).
    StringLiteral { value: String, value_start: usize, value_end: usize },
    /// `{...}`.
    Expression(JsxExpression),
    /// An element or a fragment.
    Other,
}

/// An attribute of an opening element.
#[derive(Debug, Clone)]
pub struct JsxAttribute {
    /// The name, when it is a plain identifier (not `ns:name`).
    pub name: Option<String>,
    pub value: Option<JsxAttrValue>,
}

/// An opening element.
#[derive(Debug, Clone)]
pub struct JsxOpeningElement {
    /// The tag name, when it is a plain lower-case identifier such as `div`
    /// (not a component, a member expression or a namespaced name).
    pub tag: Option<String>,
    /// The byte offset where the element's name ends.
    pub name_end: usize,
    /// The attributes in order; spread attributes are left out.
    pub attributes: Vec<JsxAttribute>,
}

/// `className` or `class`.
pub open spec fn is_class_name(n: Seq<char>) -> bool {
    n == "className"@ || n == "class"@
}

pub open spec fn is_class_attr(a: JsxAttribute) -> bool {
    a.name matches Some(n) && is_class_name(n@)
}

pub open spec fn has_class_attr(attrs: Seq<JsxAttribute>) -> bool {
    exists|k: int| 0 <= k < attrs.len() && #[trigger] is_class_attr(attrs[k])
}

/// The class-name libraries whose calls are reported: `clsx`,
/// `classNames` and `cva`.
pub open spec fn is_class_library(n: Seq<char>) -> bool {
    n == "clsx"@ || n == "classNames"@ || n == "cva"@
}

/// What a dynamic class expression is reported as: a message and a reason.
/// Calls of other functions and empty expressions are not reported.
pub open spec fn dynamic_pattern(k: JsxExpressionKind) -> Option<(Seq<char>, FailureReason)> {
    match k {
        JsxExpressionKind::Call(callee) => match callee {
            Some(n) => if is_class_library(n@) {
                Some(("Dynamic class library detected: "@ + n@, FailureReason::DynamicClass))
            } else {
                None
            },
            None => None,
        },
        JsxExpressionKind::TemplateLiteral => Some(
            ("Dynamic template literal detected in className"@, FailureReason::DynamicTemplateLiteral),
        ),
        JsxExpressionKind::Conditional => Some(
            ("Conditional JSX className detected"@, FailureReason::ConditionalClassExpression),
        ),
        JsxExpressionKind::Array => Some(("Array join pattern detected in className"@, FailureReason::DynamicClass)),
        JsxExpressionKind::Object => Some(
            ("Object of conditional classes detected in className"@, FailureReason::RuntimeClassGeneration),
        ),
        JsxExpressionKind::Empty => None,
        JsxExpressionKind::Other => Some(("Complex dynamic expression detected in className"@, FailureReason::DynamicClass)),
    }
}

/// The replacement that reports a dynamic class expression at
/// `start..end`: nothing is rewritten, confidence 0, the message as reason
/// and in the trace, a suggestion to migrate by hand, and a warning that
/// asks for manual action.
pub open spec fn dynamic_report(r: Replacement, start: usize, end: usize, msg: Seq<char>, reason: FailureReason) -> bool {
    &&& r.span == (Span { start, end })
    &&& r.before@ == Seq::<char>::empty()
    &&& r.after@ == Seq::<char>::empty()
    &&& r.confidence.score == Decimal::from_int_spec(0)
    &&& r.confidence.reasons@.len() == 0
    &&& r.reasons@.len() == 1
    &&& r.reasons@[0]@ == msg
    &&& r.trace@.len() == 1
    &&& r.trace@[0]@ == "Dynamic detection: "@ + msg
    &&& r.raw_css is None
    &&& r.suggestion matches Some(s) && s@ == "Manually migrate dynamic classes to Tailwind utilities."@
    &&& r.failure_reason == Some(reason)
    &&& r.diagnostics@.len() == 1
    &&& r.diagnostics@[0].severity == Severity::Warning
    &&& !r.diagnostics@[0].recoverable
    &&& r.diagnostics@[0].manual_action_required
    &&& r.diagnostics@[0].reason@ == reason.name_spec()
    &&& r.diagnostics@[0].message@ == msg
}

fn is_class_name_exec(n: &String) -> (r: bool)
    ensures
        r == is_class_name(n@),
{
    let c = chars_of(n.as_str());
    let a = chars_of("className");
    let b = chars_of("class");
    crate::text::eq_chars(c.as_slice(), a.as_slice()) || crate::text::eq_chars(c.as_slice(), b.as_slice())
}

fn is_class_library_exec(n: &String) -> (r: bool)
    ensures
        r == is_class_library(n@),
{
    let c = chars_of(n.as_str());
    let a = chars_of("clsx");
    let b = chars_of("classNames");
    let d = chars_of("cva");
    crate::text::eq_chars(c.as_slice(), a.as_slice()) || crate::text::eq_chars(c.as_slice(), b.as_slice())
        || crate::text::eq_chars(c.as_slice(), d.as_slice())
}

pub(crate) fn dynamic_replacement(start: usize, end: usize, message: String, reason: FailureReason) -> (r: Replacement)
    ensures
        dynamic_report(r, start, end, message@, reason),
{
    let mut t = chars_of("Dynamic detection: ");
    push_str(&mut t, message.as_str());
    let mut reasons: Vec<String> = Vec::new();
    reasons.push(message.clone());
    let mut trace: Vec<String> = Vec::new();
    trace.push(string_of(t.as_slice()));
    let before = String::new();
    let after = String::new();
    assert(before@ =~= Seq::<char>::empty());
    assert(after@ =~= Seq::<char>::empty());
    let mut diagnostics: Vec<Diagnostic> = Vec::new();
    diagnostics.push(Diagnostic {
        severity: Severity::Warning,
        recoverable: false,
        manual_action_required: true,
        reason: reason.name(),
        message,
    });
    Replacement {
        span: Span { start, end },
        before,
        after,
        confidence: ConfidenceReport { score: Decimal::from_int(0), reasons: Vec::new() },
        reasons,
        trace,
        raw_css: None,
        suggestion: Some(String::from_str("Manually migrate dynamic classes to Tailwind utilities.")),
        failure_reason: Some(reason),
        diagnostics,
    }
}


/// A planned edit: byte span, old text, new text, failure reason, and the
/// one reason given for it.
pub type JsxEdit = (int, int, Seq<char>, Seq<char>, Option<FailureReason>, Seq<char>);

/// What the styles of an element give: its Tailwind classes, and whether
/// any declaration applies to it.
pub type StyleResult = (Seq<char>, bool);

pub open spec fn no_mapping(after: Seq<char>) -> Option<FailureReason> {
    if after.len() == 0 {
        Some(FailureReason::NoMappingFound)
    } else {
        None
    }
}

/// The edit that one attribute makes, given what the styles of the element
/// with that attribute's classes give. A `className` or `class` string
/// literal is replaced by the Tailwind classes when any come out or any
/// declaration applies; a dynamic expression is reported; anything else
/// is left alone.
pub open spec fn attr_edits(a: JsxAttribute, res: StyleResult) -> Seq<JsxEdit> {
    if !is_class_attr(a) {
        Seq::empty()
    } else {
        match a.value {
            Some(JsxAttrValue::StringLiteral { value, value_start, value_end }) => if res.0.len() > 0 || res.1 {
                seq![(value_start as int, value_end as int, value@, res.0, no_mapping(res.0),
                    "Matched JSX opening element and resolved via OXC AST"@)]
            } else {
                Seq::empty()
            },
            Some(JsxAttrValue::Expression(x)) => match dynamic_pattern(x.kind) {
                Some(p) => seq![(x.start as int, x.end as int, Seq::<char>::empty(), Seq::<char>::empty(), Some(p.1), p.0)],
                None => Seq::empty(),
            },
            _ => Seq::empty(),
        }
    }
}

/// The edits of the attributes, in order.
pub open spec fn attrs_edits(attrs: Seq<JsxAttribute>, res: Seq<StyleResult>) -> Seq<JsxEdit>
    decreases attrs.len(),
{
    if attrs.len() == 0 {
        Seq::empty()
    } else {
        attrs_edits(attrs.drop_last(), res) + attr_edits(attrs.last(), res[attrs.len() - 1])
    }
}

/// The edits of an opening element: none for one that is not a plain tag;
/// else those of its attributes, and, when it has no class attribute and
/// not only existing classes are migrated, ` className="..."` after its
/// name when the element without classes (`inj`) gets Tailwind classes.
pub open spec fn element_edits(e: JsxOpeningElement, res: Seq<StyleResult>, inj: Seq<char>, migrate_only: bool) -> Seq<JsxEdit> {
    if e.tag is None {
        Seq::empty()
    } else {
        attrs_edits(e.attributes@, res) + if !has_class_attr(e.attributes@) && !migrate_only && inj.len() > 0 {
            seq![(e.name_end as int, e.name_end as int, Seq::<char>::empty(), " className=\""@ + inj + "\""@, None::<FailureReason>,
                "Injected new className for JSX element"@)]
        } else {
            Seq::empty()
        }
    }
}

/// The edits of the elements, in order; `ev[i]` is what the styles give
/// for the `i`th element's attributes and for it without classes.
pub open spec fn jsx_edits(es: Seq<JsxOpeningElement>, ev: Seq<(Seq<StyleResult>, Seq<char>)>, migrate_only: bool) -> Seq<JsxEdit>
    decreases es.len(),
{
    if es.len() == 0 {
        Seq::empty()
    } else {
        jsx_edits(es.drop_last(), ev, migrate_only) + element_edits(es.last(), ev[es.len() - 1].0, ev[es.len() - 1].1, migrate_only)
    }
}

pub open spec fn edit_matches(r: Replacement, e: JsxEdit) -> bool {
    &&& r.span.start == e.0
    &&& r.span.end == e.1
    &&& r.before@ == e.2
    &&& r.after@ == e.3
    &&& r.failure_reason == e.4
    &&& r.reasons@.len() == 1
    &&& r.reasons@[0]@ == e.5
}

/// The replacements carry the edits.
pub open spec fn edits_match(rs: Seq<Replacement>, es: Seq<JsxEdit>) -> bool {
    &&& rs.len() == es.len()
    &&& forall|i: int| 0 <= i < rs.len() ==> edit_matches(#[trigger] rs[i], es[i])
}

proof fn lemma_edits_push(rs: Seq<Replacement>, es: Seq<JsxEdit>, r: Replacement, e: JsxEdit)
    requires
        edits_match(rs, es),
        edit_matches(r, e),
    ensures
        edits_match(rs.push(r), es.push(e)),
{
    assert forall|i: int| 0 <= i < rs.len() + 1 implies edit_matches(#[trigger] rs.push(r)[i], es.push(e)[i]) by {
        if i < rs.len() {
            assert(rs.push(r)[i] == rs[i]);
        }
    }
}

/// The edits of the attributes of the elements that are plain tags, in
/// order: `jsx_edits` without any inserted attribute.
pub open spec fn jsx_attr_edits(es: Seq<JsxOpeningElement>, ev: Seq<(Seq<StyleResult>, Seq<char>)>) -> Seq<JsxEdit>
    decreases es.len(),
{
    if es.len() == 0 {
        Seq::empty()
    } else {
        jsx_attr_edits(es.drop_last(), ev) + if es.last().tag is None {
            Seq::empty()
        } else {
            attrs_edits(es.last().attributes@, ev[es.len() - 1].0)
        }
    }
}

/// Law: when only existing classes are migrated, planning a JSX file never
/// inserts a `className` attribute; its edits are exactly those of the
/// elements' attributes, whatever the styles of the elements.
pub proof fn law_jsx_migrate_only(es: Seq<JsxOpeningElement>, ev: Seq<(Seq<StyleResult>, Seq<char>)>)
    ensures
        jsx_edits(es, ev, true) == jsx_attr_edits(es, ev),
    decreases es.len(),
{
    if es.len() > 0 {
        law_jsx_migrate_only(es.drop_last(), ev);
        let e = es.last();
        if e.tag is Some {
            assert(element_edits(e, ev[es.len() - 1].0, ev[es.len() - 1].1, true) =~= attrs_edits(e.attributes@, ev[es.len() - 1].0));
        }
    }
}

/// The styles of an element as planning takes them: for each attribute,
/// the styles of the element with that attribute's classes (where they
/// were resolved), and the styles of the element without classes.
pub struct JsxElementStyles<'v> {
    pub attributes: Vec<Option<ResolvedElementStyle<'v>>>,
    pub tag: Option<ResolvedElementStyle<'v>>,
}

pub open spec fn style_result(s: Option<ResolvedElementStyle>, rem: Decimal) -> StyleResult {
    match s {
        Some(st) => (tailwind_spec(mapping_views(st.properties@), rem, *st.variable_map), st.properties@.len() > 0),
        None => (Seq::empty(), false),
    }
}

pub open spec fn styles_view(s: JsxElementStyles, rem: Decimal) -> (Seq<StyleResult>, Seq<char>) {
    (s.attributes@.map_values(|a: Option<ResolvedElementStyle>| style_result(a, rem)), style_result(s.tag, rem).0)
}

pub open spec fn style_wf(s: Option<ResolvedElementStyle>) -> bool {
    match s {
        Some(st) => forall|k: int| 0 <= k < st.properties@.len() ==> (#[trigger] st.properties@[k]).property.wf(),
        None => true,
    }
}

/// Plans the edits of the elements given their styles, as `jsx_edits`
/// says for what the styles give.
pub fn plan_jsx_elements(
    elements: &[JsxOpeningElement],
    styles: &Vec<JsxElementStyles>,
    rem_scale: &Decimal,
    migrate_only_existing_classes: bool,
) -> (r: Vec<Replacement>)
    requires
        rem_scale.wf(),
        styles@.len() == elements@.len(),
        forall|i: int| 0 <= i < styles@.len() ==> (#[trigger] styles@[i]).attributes@.len() == elements@[i].attributes@.len(),
        forall|i: int, k: int| 0 <= i < styles@.len() && 0 <= k < styles@[i].attributes@.len() ==> style_wf(#[trigger] styles@[i].attributes@[k]),
        forall|i: int| 0 <= i < styles@.len() ==> style_wf(#[trigger] styles@[i].tag),
    ensures
        edits_match(r@, jsx_edits(elements@, styles@.map_values(|s: JsxElementStyles| styles_view(s, *rem_scale)), migrate_only_existing_classes)),
{
    let ghost ev = styles@.map_values(|s: JsxElementStyles| styles_view(s, *rem_scale));
    let mut out: Vec<Replacement> = Vec::new();
    assert(elements@.subrange(0, 0) =~= Seq::<JsxOpeningElement>::empty());
    for i in 0..elements.len()
        invariant
            rem_scale.wf(),
            ev == styles@.map_values(|s: JsxElementStyles| styles_view(s, *rem_scale)),
            styles@.len() == elements@.len(),
            forall|a: int| 0 <= a < styles@.len() ==> (#[trigger] styles@[a]).attributes@.len() == elements@[a].attributes@.len(),
            forall|a: int, k: int| 0 <= a < styles@.len() && 0 <= k < styles@[a].attributes@.len() ==> style_wf(#[trigger] styles@[a].attributes@[k]),
            forall|a: int| 0 <= a < styles@.len() ==> style_wf(#[trigger] styles@[a].tag),
            edits_match(out@, jsx_edits(elements@.subrange(0, i as int), ev, migrate_only_existing_classes)),
    {
        let e = &elements[i];
        let st = &styles[i];
        let ghost base = jsx_edits(elements@.subrange(0, i as int), ev, migrate_only_existing_classes);
        let ghost res = ev[i as int].0;
        proof {
            assert(elements@.subrange(0, i + 1).drop_last() =~= elements@.subrange(0, i as int));
            assert(styles@[i as int] == *st);
            assert(res == st.attributes@.map_values(|a: Option<ResolvedElementStyle>| style_result(a, *rem_scale)));
        }
        if e.tag.is_some() {
            let mut found = false;
            assert(e.attributes@.subrange(0, 0) =~= Seq::<JsxAttribute>::empty());
            for k in 0..e.attributes.len()
                invariant
                    rem_scale.wf(),
                    e == &elements@[i as int],
                    st == &styles@[i as int],
                    st.attributes@.len() == e.attributes@.len(),
                    forall|t: int| 0 <= t < st.attributes@.len() ==> style_wf(#[trigger] st.attributes@[t]),
                    res == st.attributes@.map_values(|a: Option<ResolvedElementStyle>| style_result(a, *rem_scale)),
                    found == has_class_attr(e.attributes@.subrange(0, k as int)),
                    edits_match(out@, base + attrs_edits(e.attributes@.subrange(0, k as int), res)),
            {
                let a = &e.attributes[k];
                let ghost before = out@;
                let ghost sub = e.attributes@.subrange(0, k + 1);
                proof {
                    assert(sub.drop_last() =~= e.attributes@.subrange(0, k as int));
                    assert(sub.last() == *a);
                    assert(base + attrs_edits(sub, res) =~= base + attrs_edits(e.attributes@.subrange(0, k as int), res) + attr_edits(*a, res[k as int]));
                    assert(style_wf(st.attributes@[k as int]));
                }
                let is_class = match &a.name {
                    Some(n) => is_class_name_exec(n),
                    None => false,
                };
                proof {
                    if is_class {
                        assert(is_class_attr(sub[k as int]));
                    } else {
                        assert forall|t: int| 0 <= t < sub.len() && is_class_attr(#[trigger] sub[t]) implies has_class_attr(e.attributes@.subrange(0, k as int)) by {
                            assert(e.attributes@.subrange(0, k as int)[t] == sub[t]);
                        }
                    }
                }
                if is_class {
                    found = true;
                    match &a.value {
                        Some(JsxAttrValue::StringLiteral { value, value_start, value_end }) => {
                            match &st.attributes[k] {
                                Some(style) => {
                                    let new_classes = style.to_tailwind_string(rem_scale);
                                    if new_classes.unicode_len() > 0 || style.properties.len() > 0 {
                                        let mut reasons: Vec<String> = Vec::new();
                                        reasons.push(String::from_str("Matched JSX opening element and resolved via OXC AST"));
                                        let rep = style.create_replacement(
                                            Span { start: *value_start, end: *value_end },
                                            value.clone(),
                                            rem_scale,
                                            reasons,
                                        );
                                        proof {
                                            assert(st.attributes@[k as int] == Some(*style));
                                            assert(res[k as int] == style_result(st.attributes@[k as int], *rem_scale));
                                            assert(rep.before@ == value@);
                                            assert(rep.reasons@[0]@ == "Matched JSX opening element and resolved via OXC AST"@);
                                            assert(edit_matches(rep, attr_edits(*a, res[k as int])[0]));
                                        }
                                        out.push(rep);
                                        proof {
                                            lemma_edits_push(before, base + attrs_edits(e.attributes@.subrange(0, k as int), res), rep, attr_edits(*a, res[k as int])[0]);
                                        }
                                    }
                                },
                                None => {},
                            }
                        },
                        Some(JsxAttrValue::Expression(x)) => {
                            match JsxParser::detect_dynamic_pattern(x) {
                                Some(rep) => {
                                    proof {
                                        assert(a.value == Some(JsxAttrValue::Expression(*x)));
                                        let p = dynamic_pattern(x.kind);
                                        assert(p is Some);
                                        let q = p.unwrap();
                                        assert(attr_edits(*a, res[k as int]) == seq![(x.start as int, x.end as int, Seq::<char>::empty(), Seq::<char>::empty(), Some(q.1), q.0)]);
                                        assert(edit_matches(rep, attr_edits(*a, res[k as int])[0]));
                                    }
                                    out.push(rep);
                                    proof {
                                        lemma_edits_push(before, base + attrs_edits(e.attributes@.subrange(0, k as int), res), rep, attr_edits(*a, res[k as int])[0]);
                                    }
                                },
                                None => {},
                            }
                        },
                        _ => {},
                    }
                }
                assert(base + attrs_edits(sub, res) =~= base + attrs_edits(e.attributes@.subrange(0, k as int), res) + attr_edits(*a, res[k as int]));
            }
            assert(e.attributes@.subrange(0, e.attributes@.len() as int) =~= e.attributes@);
            let ghost mid = out@;
            if !found && !migrate_only_existing_classes {
                match &st.tag {
                    Some(style) => {
                        let new_classes = style.to_tailwind_string(rem_scale);
                        if new_classes.unicode_len() > 0 {
                            let mut reasons: Vec<String> = Vec::new();
                            reasons.push(String::from_str("Injected new className for JSX element"));
                            let mut rep = style.create_replacement(
                                Span { start: e.name_end, end: e.name_end },
                                String::new(),
                                rem_scale,
                                reasons,
                            );
                            let mut t = chars_of(" className=\"");
                            push_str(&mut t, new_classes.as_str());
                            push_str(&mut t, "\"");
                            rep.after = string_of(t.as_slice());
                            out.push(rep);
                            proof {
                                reveal_strlit(" className=\"");
                                reveal_strlit("\"");
                                lemma_edits_push(mid, base + attrs_edits(e.attributes@, res),
                                    rep, element_edits(*e, res, ev[i as int].1, migrate_only_existing_classes)[attrs_edits(e.attributes@, res).len() as int]);
                            }
                        }
                    },
                    None => {},
                }
            }
            assert(jsx_edits(elements@.subrange(0, i + 1), ev, migrate_only_existing_classes) =~= base + element_edits(*e, res, ev[i as int].1, migrate_only_existing_classes));
        } else {
            assert(jsx_edits(elements@.subrange(0, i + 1), ev, migrate_only_existing_classes) =~= base);
        }
    }
    assert(elements@.subrange(0, elements@.len() as int) =~= elements@);
    out
}


/// The class names of a string literal value that starts at the byte
/// `start`: its words (`split_whitespace`), each found from the end of the
/// one before, with their byte spans.
pub open spec fn literal_uses(value: Seq<char>, start: int) -> Seq<(Seq<char>, int, int)> {
    place_words(value, words_from(value, 0), 0, false).map_values(
        |w: (Seq<char>, int)| (w.0, start + utf8_len(value.subrange(0, w.1)), start + utf8_len(value.subrange(0, w.1 + w.0.len()))),
    )
}

/// The class names that an attribute holds: those of a `className` or
/// `class` string literal.
pub open spec fn attr_uses(a: JsxAttribute) -> Seq<(Seq<char>, int, int)> {
    if is_class_attr(a) {
        match a.value {
            Some(JsxAttrValue::StringLiteral { value, value_start, value_end }) => literal_uses(value@, value_start as int),
            _ => Seq::empty(),
        }
    } else {
        Seq::empty()
    }
}

pub open spec fn attrs_uses(attrs: Seq<JsxAttribute>) -> Seq<(Seq<char>, int, int)>
    decreases attrs.len(),
{
    if attrs.len() == 0 {
        Seq::empty()
    } else {
        attrs_uses(attrs.drop_last()) + attr_uses(attrs.last())
    }
}

/// The class names of all the elements' attributes, in order.
pub open spec fn jsx_uses(es: Seq<JsxOpeningElement>) -> Seq<(Seq<char>, int, int)>
    decreases es.len(),
{
    if es.len() == 0 {
        Seq::empty()
    } else {
        jsx_uses(es.drop_last()) + attrs_uses(es.last().attributes@)
    }
}

/// Every string literal value ends at a byte offset that fits in `usize`.
pub open spec fn literals_fit(es: Seq<JsxOpeningElement>) -> bool {
    forall|i: int, k: int| 0 <= i < es.len() && 0 <= k < es[i].attributes@.len() ==>
        match (#[trigger] es[i].attributes@[k]).value {
            Some(JsxAttrValue::StringLiteral { value, value_start, value_end }) => value_start + utf8_len(value@) <= usize::MAX,
            _ => true,
        }
}

/// The class uses carry the names and spans.
pub open spec fn usages_are(r: Seq<ClassUsage>, spec: Seq<(Seq<char>, int, int)>) -> bool {
    &&& r.len() == spec.len()
    &&& forall|i: int| 0 <= i < r.len() ==> {
        &&& (#[trigger] r[i]).class_name@ == spec[i].0
        &&& r[i].span.start == spec[i].1
        &&& r[i].span.end == spec[i].2
    }
}

proof fn lemma_usages_concat(a: Seq<ClassUsage>, x: Seq<(Seq<char>, int, int)>, b: Seq<ClassUsage>, y: Seq<(Seq<char>, int, int)>)
    requires
        usages_are(a, x),
        usages_are(b, y),
    ensures
        usages_are(a + b, x + y),
{
    assert forall|i: int| 0 <= i < a.len() + b.len() implies {
        &&& (#[trigger] (a + b)[i]).class_name@ == (x + y)[i].0
        &&& (a + b)[i].span.start == (x + y)[i].1
        &&& (a + b)[i].span.end == (x + y)[i].2
    } by {
        if i >= a.len() {
            assert((a + b)[i] == b[i - a.len()]);
        }
    }
}

proof fn lemma_prefix_utf8(s: Seq<char>, b: int)
    requires
        0 <= b <= s.len(),
    ensures
        utf8_len(s.subrange(0, b)) <= utf8_len(s),
{
    assert(s =~= s.subrange(0, b) + s.subrange(b, s.len() as int));
    lemma_encode_concat(s.subrange(0, b), s.subrange(b, s.len() as int));
}

/// The class uses of one string literal value that starts at the byte
/// `value_start`, as `literal_uses` says.
fn literal_usages(value: &String, value_start: usize) -> (r: Vec<ClassUsage>)
    requires
        value_start + utf8_len(value@) <= usize::MAX,
    ensures
        usages_are(r@, literal_uses(value@, value_start as int)),
{
    let v = chars_of(value.as_str());
    let offsets = byte_offsets(value.as_str());
    let placed = placed_ranges(v.as_slice(), false);
    let ghost pw = place_words(v@, words_from(v@, 0), 0, false);
    let ghost spec = literal_uses(value@, value_start as int);
    let mut out: Vec<ClassUsage> = Vec::new();
    for j in 0..placed.len()
        invariant
            v@ == value@,
            is_offsets(value@, offsets@),
            value_start + utf8_len(value@) <= usize::MAX,
            placed@.map_values(|x: (usize, usize)| (v@.subrange(x.0 as int, x.1 as int), x.0 as int)) == pw,
            forall|t: int| 0 <= t < placed@.len() ==> (#[trigger] placed@[t]).0 <= placed@[t].1 <= v@.len(),
            spec == literal_uses(value@, value_start as int),
            pw == place_words(v@, words_from(v@, 0), 0, false),
            usages_are(out@, spec.subrange(0, j as int)),
    {
        let (a, b) = placed[j];
        proof {
            assert(pw[j as int] == (v@.subrange(a as int, b as int), a as int));
            lemma_prefix_utf8(value@, a as int);
            lemma_prefix_utf8(value@, b as int);
            assert(spec[j as int] == (v@.subrange(a as int, b as int), value_start + utf8_len(value@.subrange(0, a as int)),
                value_start + utf8_len(value@.subrange(0, b as int))));
        }
        let name = crate::text::slice_chars(v.as_slice(), a, b);
        let u = ClassUsage {
            class_name: string_of(name.as_slice()),
            span: Span { start: value_start + offsets[a], end: value_start + offsets[b] },
        };
        let ghost before = out@;
        out.push(u);
        proof {
            assert(spec.subrange(0, j + 1) =~= spec.subrange(0, j as int).push(spec[j as int]));
            assert forall|t: int| 0 <= t < out@.len() implies {
                &&& (#[trigger] out@[t]).class_name@ == spec.subrange(0, j + 1)[t].0
                &&& out@[t].span.start == spec.subrange(0, j + 1)[t].1
                &&& out@[t].span.end == spec.subrange(0, j + 1)[t].2
            } by {
                if t < before.len() {
                    assert(out@[t] == before[t]);
                }
            }
        }
    }
    assert(spec.subrange(0, placed@.len() as int) =~= spec);
    out
}

/// The HTML text of the element `<tag class="classes"></tag>`, or
/// `<tag></tag>` without classes.
pub open spec fn tag_html(tag: Seq<char>, classes: Option<Seq<char>>) -> Seq<char> {
    "<"@ + tag + match classes {
        Some(c) => " class=\""@ + c + "\""@,
        None => Seq::empty(),
    } + "></"@ + tag + ">"@
}

/// The styles that the rules give the element `tag_html(tag, classes)`,
/// read as a fragment: the first element there that `tag` matches as a
/// selector, resolved as `resolved_views` says.
pub open spec fn tag_styles(
    tag: Seq<char>,
    classes: Option<Seq<char>>,
    rules: Seq<(StyleRule, Seq<(int, Seq<char>)>)>,
    include_tags: bool,
) -> Option<Seq<(CssProperty, Seq<(int, Seq<char>)>, u32, bool)>> {
    let text = tag_html(tag, classes);
    match first_match(text, true, tag, 0) {
        Some(i) => Some(resolved_views(rules, element_matched(text, true, i, rules, include_tags), include_tags)),
        None => None,
    }
}

/// What the styles of `tag_styles` give (as `style_result` reads them).
pub open spec fn tag_result(
    tag: Seq<char>,
    classes: Option<Seq<char>>,
    rules: Seq<(StyleRule, Seq<(int, Seq<char>)>)>,
    include_tags: bool,
    rem: Decimal,
    vars: VariableMap,
) -> StyleResult {
    match tag_styles(tag, classes, rules, include_tags) {
        Some(ms) => (tailwind_spec(ms, rem, vars), ms.len() > 0),
        None => (Seq::empty(), false),
    }
}

/// What the styles of the element's `k`th attribute give: a class string
/// literal of a plain tag is resolved with its classes; anything else
/// gives nothing.
pub open spec fn attr_result(
    e: JsxOpeningElement,
    k: int,
    rules: Seq<(StyleRule, Seq<(int, Seq<char>)>)>,
    include_tags: bool,
    rem: Decimal,
    vars: VariableMap,
) -> StyleResult {
    let a = e.attributes@[k];
    if is_class_attr(a) && e.tag is Some && a.value matches Some(JsxAttrValue::StringLiteral { .. }) {
        match a.value {
            Some(JsxAttrValue::StringLiteral { value, .. }) => tag_result(e.tag->0@, Some(value@), rules, include_tags, rem, vars),
            _ => (Seq::empty(), false),
        }
    } else {
        (Seq::empty(), false)
    }
}

/// What the styles give for an element: for each attribute (`attr_result`),
/// and for the plain tag without classes when it has no class attribute
/// and not only existing classes are migrated.
pub open spec fn element_result(
    e: JsxOpeningElement,
    rules: Seq<(StyleRule, Seq<(int, Seq<char>)>)>,
    include_tags: bool,
    rem: Decimal,
    vars: VariableMap,
    migrate_only: bool,
) -> (Seq<StyleResult>, Seq<char>) {
    (
        Seq::new(e.attributes@.len(), |k: int| attr_result(e, k, rules, include_tags, rem, vars)),
        if e.tag is Some && !has_class_attr(e.attributes@) && !migrate_only {
            tag_result(e.tag->0@, None, rules, include_tags, rem, vars).0
        } else {
            Seq::empty()
        },
    )
}

/// What the styles give for each element, as `element_result`.
pub open spec fn jsx_results(
    es: Seq<JsxOpeningElement>,
    rules: Seq<(StyleRule, Seq<(int, Seq<char>)>)>,
    include_tags: bool,
    rem: Decimal,
    vars: VariableMap,
    migrate_only: bool,
) -> Seq<(Seq<StyleResult>, Seq<char>)> {
    es.map_values(|e: JsxOpeningElement| element_result(e, rules, include_tags, rem, vars, migrate_only))
}

/// What planning a JSX file gives with the rules: the edits of `jsx_edits`
/// for what the styles give its elements, resolved with the variables the
/// rules define.
pub open spec fn jsx_plan_ok(
    es: Seq<JsxOpeningElement>,
    rules: Seq<RuleWithContext>,
    include_tags: bool,
    rem: Decimal,
    v: Seq<Replacement>,
    migrate_only: bool,
) -> bool {
    exists|vars: VariableMap| {
        &&& vars.pairs() == variable_entries(plain_rules(rules))
        &&& edits_match(v, jsx_edits(es, jsx_results(es, rwc_views(rules), include_tags, rem, vars, migrate_only), migrate_only))
    }
}

/// The attribute's string literal, if it has one, is the text of the
/// source's bytes `src` at its span.
pub open spec fn literal_in(src: Seq<u8>, a: JsxAttribute) -> bool {
    match a.value {
        Some(JsxAttrValue::StringLiteral { value, value_start, value_end }) => {
            &&& value_start <= value_end <= src.len()
            &&& src.subrange(value_start as int, value_end as int) == encode_utf8(value@)
        },
        _ => true,
    }
}

/// The opening elements belong to the source with the bytes `src`: each
/// name ends within it, and each string literal is its text at its span.
pub open spec fn elements_in(src: Seq<u8>, es: Seq<JsxOpeningElement>) -> bool {
    forall|i: int| 0 <= i < es.len() ==> {
        &&& (#[trigger] es[i]).name_end <= src.len()
        &&& forall|k: int| 0 <= k < es[i].attributes@.len() ==> literal_in(src, #[trigger] es[i].attributes@[k])
    }
}

fn same_bytes_at(src: &[u8], start: usize, end: usize, v: &[u8]) -> (r: bool)
    requires
        start <= end <= src@.len(),
    ensures
        r == (src@.subrange(start as int, end as int) == v@),
{
    if end - start != v.len() {
        assert(src@.subrange(start as int, end as int).len() != v@.len());
        return false;
    }
    for k in 0..v.len()
        invariant
            end - start == v@.len(),
            start <= end <= src@.len(),
            forall|t: int| 0 <= t < k ==> src@[start + t] == v@[t],
    {
        if src[start + k] != v[k] {
            assert(src@.subrange(start as int, end as int)[k as int] != v@[k as int]);
            return false;
        }
    }
    assert(src@.subrange(start as int, end as int) =~= v@);
    true
}

/// Whether the opening elements belong to the source text, as
/// `elements_in` says.
pub fn elements_fit(content: &str, elements: &[JsxOpeningElement]) -> (r: bool)
    ensures
        r == elements_in(encode_utf8(content@), elements@),
{
    let src = content.as_bytes();
    for i in 0..elements.len()
        invariant
            src@ == encode_utf8(content@),
            forall|a: int| 0 <= a < i ==> {
                &&& (#[trigger] elements@[a]).name_end <= src@.len()
                &&& forall|k: int| 0 <= k < elements@[a].attributes@.len() ==> literal_in(src@, #[trigger] elements@[a].attributes@[k])
            },
    {
        let e = &elements[i];
        if e.name_end > src.len() {
            return false;
        }
        for k in 0..e.attributes.len()
            invariant
                src@ == encode_utf8(content@),
                i < elements@.len(),
                e == &elements@[i as int],
                forall|t: int| 0 <= t < k ==> literal_in(src@, #[trigger] e.attributes@[t]),
        {
            match &e.attributes[k].value {
                Some(JsxAttrValue::StringLiteral { value, value_start, value_end }) => {
                    if !(*value_start <= *value_end && *value_end <= src.len()) {
                        assert(!literal_in(src@, e.attributes@[k as int]));
                        assert(!elements_in(src@, elements@)) by {
                            assert(elements@[i as int].attributes@[k as int] == e.attributes@[k as int]);
                        }
                        return false;
                    }
                    if !same_bytes_at(src, *value_start, *value_end, value.as_str().as_bytes()) {
                        assert(!literal_in(src@, e.attributes@[k as int]));
                        assert(!elements_in(src@, elements@)) by {
                            assert(elements@[i as int].attributes@[k as int] == e.attributes@[k as int]);
                        }
                        return false;
                    }
                },
                _ => {},
            }
        }
    }
    true
}

/// The text of an optional string.
pub open spec fn opt_text(c: Option<&String>) -> Option<Seq<char>> {
    match c {
        Some(t) => Some(t@),
        None => None,
    }
}

/// The styles of the element `<tag class="classes"></tag>` (`<tag></tag>`
/// without classes), read as an HTML fragment; nothing when no element of
/// the fragment matches `tag` as a selector (see `tag_styles`).
fn resolve_tag<'v>(resolver: &'v StyleResolver<'_>, tag: &String, classes: Option<&String>) -> (r: Option<ResolvedElementStyle<'v>>)
    ensures
        match r {
            Some(st) => {
                &&& *st.variable_map == resolver.variable_map
                &&& (resolver.rules_wf() ==> style_wf(Some(st)))
                &&& tag_styles(tag@, opt_text(classes), rwc_views(resolver.style_rules@), resolver.include_tag_selectors) == Some(mapping_views(st.properties@))
            },
            None => tag_styles(tag@, opt_text(classes), rwc_views(resolver.style_rules@), resolver.include_tag_selectors) is None,
        },
{
    let mut h = chars_of("<");
    push_str(&mut h, tag.as_str());
    match classes {
        Some(c) => {
            push_str(&mut h, " class=\"");
            push_str(&mut h, c.as_str());
            push_str(&mut h, "\"");
        },
        None => {},
    }
    push_str(&mut h, "></");
    push_str(&mut h, tag.as_str());
    push_str(&mut h, ">");
    assert(h@ =~= tag_html(tag@, opt_text(classes)));
    let html = string_of(h.as_slice());
    let doc = Document::fragment(html.as_str());
    match find_element(&doc, tag.as_str()) {
        Some(i) => Some(resolver.resolve_styles(&doc, i)),
        None => None,
    }
}

impl JsxParser {

    /// Plans the conversion of a JSX file from its opening elements, as
    /// `jsx_edits` says: a class string literal is resolved as the element
    /// `<tag class="...">`, an element without a class attribute as
    /// `<tag>`, where scraper decides which selectors match
    /// (`jsx_plan_ok`).
    pub fn plan_jsx(
        &self,
        elements: &[JsxOpeningElement],
        style_rules: &[RuleWithContext],
        rem_scale: &Decimal,
        migrate_only_existing_classes: bool,
        include_tag_selectors: bool,
    ) -> (r: Result<Vec<Replacement>, Css2TwError>)
        requires
            rem_scale.wf(),
            forall|i: int| 0 <= i < style_rules@.len() ==> (#[trigger] style_rules@[i]).rule.wf(),
        ensures
            r matches Ok(v) && jsx_plan_ok(elements@, style_rules@, include_tag_selectors, *rem_scale, v@, migrate_only_existing_classes),
    {
        let resolver = StyleResolver::new(style_rules, include_tag_selectors);
        let ghost rules = rwc_views(style_rules@);
        let ghost want = jsx_results(elements@, rules, include_tag_selectors, *rem_scale, resolver.variable_map, migrate_only_existing_classes);
        let mut styles: Vec<JsxElementStyles> = Vec::new();
        for i in 0..elements.len()
            invariant
                resolver.style_rules == style_rules,
                resolver.include_tag_selectors == include_tag_selectors,
                rules == rwc_views(style_rules@),
                want == jsx_results(elements@, rules, include_tag_selectors, *rem_scale, resolver.variable_map, migrate_only_existing_classes),
                resolver.rules_wf(),
                styles@.len() == i,
                forall|a: int| 0 <= a < styles@.len() ==> (#[trigger] styles@[a]).attributes@.len() == elements@[a].attributes@.len(),
                forall|a: int, k: int| 0 <= a < styles@.len() && 0 <= k < styles@[a].attributes@.len() ==> style_wf(#[trigger] styles@[a].attributes@[k]),
                forall|a: int| 0 <= a < styles@.len() ==> style_wf(#[trigger] styles@[a].tag),
                forall|a: int| 0 <= a < styles@.len() ==> styles_view(#[trigger] styles@[a], *rem_scale) == want[a],
        {
            let e = &elements[i];
            let ghost er = element_result(*e, rules, include_tag_selectors, *rem_scale, resolver.variable_map, migrate_only_existing_classes);
            let mut attrs: Vec<Option<ResolvedElementStyle>> = Vec::new();
            let mut found = false;
            for k in 0..e.attributes.len()
                invariant
                    resolver.style_rules == style_rules,
                    resolver.include_tag_selectors == include_tag_selectors,
                    rules == rwc_views(style_rules@),
                    resolver.rules_wf(),
                    e == &elements@[i as int],
                    er == element_result(*e, rules, include_tag_selectors, *rem_scale, resolver.variable_map, migrate_only_existing_classes),
                    attrs@.len() == k,
                    forall|t: int| 0 <= t < attrs@.len() ==> style_wf(#[trigger] attrs@[t]),
                    forall|t: int| 0 <= t < attrs@.len() ==> style_result(#[trigger] attrs@[t], *rem_scale) == er.0[t],
                    found == exists|t: int| 0 <= t < k && #[trigger] is_class_attr(e.attributes@[t]),
            {
                let a = &e.attributes[k];
                let is_class = match &a.name {
                    Some(n) => is_class_name_exec(n),
                    None => false,
                };
                assert(is_class == is_class_attr(e.attributes@[k as int]));
                let mut st: Option<ResolvedElementStyle> = None;
                if is_class {
                    found = true;
                    match (&e.tag, &a.value) {
                        (Some(tag), Some(JsxAttrValue::StringLiteral { value, value_start, value_end })) => {
                            st = resolve_tag(&resolver, tag, Some(value));
                        },
                        _ => {},
                    }
                }
                assert(style_result(st, *rem_scale) == er.0[k as int]);
                attrs.push(st);
            }
            assert(found == has_class_attr(e.attributes@));
            let tag_style = match &e.tag {
                Some(tag) => if !found && !migrate_only_existing_classes {
                    resolve_tag(&resolver, tag, None)
                } else {
                    None
                },
                None => None,
            };
            assert(style_result(tag_style, *rem_scale).0 == er.1);
            let es = JsxElementStyles { attributes: attrs, tag: tag_style };
            assert(styles_view(es, *rem_scale).0 =~= er.0);
            styles.push(es);
        }
        let v = plan_jsx_elements(elements, &styles, rem_scale, migrate_only_existing_classes);
        assert(styles@.map_values(|s: JsxElementStyles| styles_view(s, *rem_scale)) =~= want);
        assert(edits_match(v@, jsx_edits(elements@, want, migrate_only_existing_classes)));
        Ok(v)
    }

    /// The class names of the elements' `className` and `class` string
    /// literals, with their byte spans, as `jsx_uses` says.
    pub fn extract_classes(&self, elements: &[JsxOpeningElement]) -> (r: Vec<ClassUsage>)
        requires
            literals_fit(elements@),
        ensures
            usages_are(r@, jsx_uses(elements@)),
    {
        let mut out: Vec<ClassUsage> = Vec::new();
        assert(elements@.subrange(0, 0) =~= Seq::<JsxOpeningElement>::empty());
        for i in 0..elements.len()
            invariant
                literals_fit(elements@),
                usages_are(out@, jsx_uses(elements@.subrange(0, i as int))),
        {
            let e = &elements[i];
            let ghost base = jsx_uses(elements@.subrange(0, i as int));
            proof {
                assert(elements@.subrange(0, i + 1).drop_last() =~= elements@.subrange(0, i as int));
            }
            assert(e.attributes@.subrange(0, 0) =~= Seq::<JsxAttribute>::empty());
            assert(base + attrs_uses(e.attributes@.subrange(0, 0)) =~= base);
            for k in 0..e.attributes.len()
                invariant
                    literals_fit(elements@),
                    e == &elements@[i as int],
                    i < elements@.len(),
                    usages_are(out@, base + attrs_uses(e.attributes@.subrange(0, k as int))),
            {
                let a = &e.attributes[k];
                let ghost sub = e.attributes@.subrange(0, k + 1);
                proof {
                    assert(sub.drop_last() =~= e.attributes@.subrange(0, k as int));
                    assert(sub.last() == *a);
                    assert(elements@[i as int].attributes@[k as int] == *a);
                }
                let is_class = match &a.name {
                    Some(n) => is_class_name_exec(n),
                    None => false,
                };
                let ghost before = out@;
                if is_class {
                    match &a.value {
                        Some(JsxAttrValue::StringLiteral { value, value_start, value_end }) => {
                            let mut u = literal_usages(value, *value_start);
                            let ghost uv = u@;
                            out.append(&mut u);
                            proof {
                                lemma_usages_concat(before, base + attrs_uses(e.attributes@.subrange(0, k as int)), uv, attr_uses(*a));
                            }
                        },
                        _ => {},
                    }
                }
                assert(base + attrs_uses(sub) =~= base + attrs_uses(e.attributes@.subrange(0, k as int)) + attr_uses(*a));
                proof {
                    if !is_class || !(a.value matches Some(JsxAttrValue::StringLiteral { .. })) {
                        assert(attr_uses(*a) =~= Seq::empty());
                        assert(base + attrs_uses(sub) =~= base + attrs_uses(e.attributes@.subrange(0, k as int)));
                    }
                }
            }
            assert(e.attributes@.subrange(0, e.attributes@.len() as int) =~= e.attributes@);
            assert(jsx_uses(elements@.subrange(0, i + 1)) == base + attrs_uses(e.attributes@));
        }
        assert(elements@.subrange(0, elements@.len() as int) =~= elements@);
        out
    }

    /// The report of a dynamic class expression, as `dynamic_pattern` says
    /// (see `dynamic_report`); nothing for the expressions it passes over.
    pub fn detect_dynamic_pattern(expr: &JsxExpression) -> (r: Option<Replacement>)
        ensures
            match dynamic_pattern(expr.kind) {
                Some(p) => r matches Some(rep) && dynamic_report(rep, expr.start, expr.end, p.0, p.1),
                None => r is None,
            },
    {
        match &expr.kind {
            JsxExpressionKind::Call(callee) => match callee {
                Some(n) => if is_class_library_exec(n) {
                    let mut m = chars_of("Dynamic class library detected: ");
                    push_str(&mut m, n.as_str());
                    Some(dynamic_replacement(expr.start, expr.end, string_of(m.as_slice()), FailureReason::DynamicClass))
                } else {
                    None
                },
                None => None,
            },
            JsxExpressionKind::TemplateLiteral => Some(dynamic_replacement(
                expr.start,
                expr.end,
                String::from_str("Dynamic template literal detected in className"),
                FailureReason::DynamicTemplateLiteral,
            )),
            JsxExpressionKind::Conditional => Some(dynamic_replacement(
                expr.start,
                expr.end,
                String::from_str("Conditional JSX className detected"),
                FailureReason::ConditionalClassExpression,
            )),
            JsxExpressionKind::Array => Some(dynamic_replacement(
                expr.start,
                expr.end,
                String::from_str("Array join pattern detected in className"),
                FailureReason::DynamicClass,
            )),
            JsxExpressionKind::Object => Some(dynamic_replacement(
                expr.start,
                expr.end,
                String::from_str("Object of conditional classes detected in className"),
                FailureReason::RuntimeClassGeneration,
            )),
            JsxExpressionKind::Empty => None,
            JsxExpressionKind::Other => Some(dynamic_replacement(
                expr.start,
                expr.end,
                String::from_str("Complex dynamic expression detected in className"),
                FailureReason::DynamicClass,
            )),
        }
    }
}

} // verus!
