//! The calls into lightningcss that read a parsed stylesheet.
//!
//! A parsed stylesheet keeps the text it was parsed from, and each rule
//! and declaration handed out keeps that text and its place in the tree:
//! the path of rule indices from the top-level list down through `@media`
//! blocks (and, for a declaration, which block and its index). lightningcss
//! parses and prints deterministically, so what each call returns is a
//! function of the text and the place. Those functions are named here (the
//! `css_` names); nothing more of them is stated. The plain model that
//! `parser` builds from them is what the rest of the library reads.

use lightningcss::printer::{Printer, PrinterOptions};
use lightningcss::properties::Property;
use lightningcss::rules::CssRule;
use lightningcss::selector::Component;
use lightningcss::stylesheet::{ParserOptions, StyleSheet};
use vstd::prelude::*;

verus! {

/// A parsed stylesheet. lightningcss's `StyleSheet` takes as a type
/// parameter its `DefaultAtRule`, which it keeps private, so the type cannot
/// be declared by its path; it is held here, out of Verus's sight.
#[verifier::external_body]
pub struct Sheet<'i> {
    sheet: StyleSheet<'i>,
}

/// A rule of a parsed stylesheet (held for the reason given at `Sheet`).
#[verifier::external_body]
pub struct RawRule<'a, 'i> {
    rule: &'a CssRule<'i>,
}

/// A parsed stylesheet and the text it was parsed from. Only
/// `parse_stylesheet` makes one.
pub struct CssSheet<'i> {
    text: &'i str,
    sheet: Sheet<'i>,
}

impl<'i> CssSheet<'i> {
    /// The text the stylesheet was parsed from.
    pub closed spec fn source(&self) -> Seq<char> {
        self.text@
    }
}

/// A rule of a parsed stylesheet, with the text of the stylesheet and the
/// rule's path in it. Only `top_rules` and `media_rules` make one.
pub struct RuleRef<'a, 'i> {
    raw: RawRule<'a, 'i>,
    text: &'i str,
    path: Vec<usize>,
}

impl<'a, 'i> RuleRef<'a, 'i> {
    /// The text of the stylesheet the rule belongs to.
    pub closed spec fn source(&self) -> Seq<char> {
        self.text@
    }

    /// The rule's path: its index in the top-level list, then its index in
    /// each `@media` block below.
    pub closed spec fn path(&self) -> Seq<usize> {
        self.path@
    }
}

/// A declaration of a style rule, with the rule's text and path, the block
/// (`!important` or not) and its index there. Only `declarations` makes one.
pub struct PropRef<'a, 'i> {
    prop: &'a Property<'i>,
    text: &'i str,
    path: Vec<usize>,
    important: bool,
    index: usize,
}

impl<'a, 'i> PropRef<'a, 'i> {
    pub closed spec fn source(&self) -> Seq<char> {
        self.text@
    }

    pub closed spec fn path(&self) -> Seq<usize> {
        self.path@
    }

    pub closed spec fn important(&self) -> bool {
        self.important
    }

    pub closed spec fn index(&self) -> usize {
        self.index
    }
}

#[verifier::external_type_specification]
#[verifier::external_body]
pub struct ExProperty<'i>(Property<'i>);

/// Which kind of rule a parsed rule is.
pub enum RuleKind {
    Style,
    Media,
    Other,
}

/// What a component of a selector is.
#[derive(Debug)]
pub enum ComponentKind {
    /// A combinator between compound selectors (descendant, `>`, `+`, `~`, ...).
    Combinator,
    /// A class selector, with the class name.
    Class(String),
    /// An id selector such as `#main`.
    Id,
    /// A pseudo-class such as `:hover`.
    PseudoClass,
    Other,
}

/// What a component of a selector is, with the class name as text.
pub enum ComponentSort {
    Combinator,
    Class(Seq<char>),
    Id,
    PseudoClass,
    Other,
}

impl View for ComponentKind {
    type V = ComponentSort;

    open spec fn view(&self) -> ComponentSort {
        match self {
            ComponentKind::Combinator => ComponentSort::Combinator,
            ComponentKind::Class(n) => ComponentSort::Class(n@),
            ComponentKind::Id => ComponentSort::Id,
            ComponentKind::PseudoClass => ComponentSort::PseudoClass,
            ComponentKind::Other => ComponentSort::Other,
        }
    }
}

/// The debug text of lightningcss's parse error for the text; none when
/// the text parses.
pub uninterp spec fn stylesheet_error(css: Seq<char>) -> Option<Seq<char>>;

/// `StyleSheet::parse` with the default options. The error, when there is
/// one, comes back as its debug text (`{:?}`), named `stylesheet_error`;
/// the stylesheet keeps the text.
#[verifier::external_body]
pub(crate) fn parse_stylesheet<'i>(css: &'i str) -> (r: Result<CssSheet<'i>, String>)
    ensures
        match r {
            Ok(s) => s.source() == css@ && stylesheet_error(css@) is None,
            Err(e) => stylesheet_error(css@) == Some(e@),
        },
{
    match StyleSheet::parse(css, ParserOptions::default()) {
        Ok(sheet) => Ok(CssSheet { text: css, sheet: Sheet { sheet } }),
        Err(e) => Err(format!("{:?}", e)),
    }
}

/// The number of top-level rules of the stylesheet parsed from the text.
pub uninterp spec fn top_rule_count(css: Seq<char>) -> usize;

/// The top-level rules of a stylesheet (`rules.0`), in order, the `k`th
/// with the path `[k]`. Their number is named `top_rule_count`.
#[verifier::external_body]
pub(crate) fn top_rules<'a, 'i>(s: &'a CssSheet<'i>) -> (r: Vec<RuleRef<'a, 'i>>)
    ensures
        r@.len() == top_rule_count(s.source()),
        forall|k: int| 0 <= k < r@.len() ==> (#[trigger] r@[k]).source() == s.source() && r@[k].path() == seq![k as usize],
{
    s.sheet.sheet.rules.0.iter().enumerate().map(|(k, rule)| RuleRef { raw: RawRule { rule }, text: s.text, path: vec![k] }).collect()
}

/// The number of rules inside the `@media` rule at the path (none for a
/// rule of another kind).
pub uninterp spec fn media_rule_count(css: Seq<char>, path: Seq<usize>) -> usize;

/// The rules inside an `@media` rule (`rules.0`), in order, the `k`th with
/// the rule's path and `k` after it; none for a rule of another kind.
/// Their number is named `media_rule_count`.
#[verifier::external_body]
pub(crate) fn media_rules<'a, 'i>(r: &RuleRef<'a, 'i>) -> (v: Vec<RuleRef<'a, 'i>>)
    ensures
        v@.len() == media_rule_count(r.source(), r.path()),
        forall|k: int| 0 <= k < v@.len() ==> (#[trigger] v@[k]).source() == r.source() && v@[k].path() == r.path().push(k as usize),
{
    match r.raw.rule {
        CssRule::Media(m) => m.rules.0.iter().enumerate().map(|(k, rule)| RuleRef {
            raw: RawRule { rule },
            text: r.text,
            path: r.path.iter().copied().chain(std::iter::once(k)).collect(),
        }).collect(),
        _ => Vec::new(),
    }
}

/// The kind of the rule at the path.
pub uninterp spec fn css_rule_kind(css: Seq<char>, path: Seq<usize>) -> RuleKind;

/// The variant of a rule, named `css_rule_kind`.
#[verifier::external_body]
pub(crate) fn rule_kind(r: &RuleRef) -> (k: RuleKind)
    ensures
        k == css_rule_kind(r.source(), r.path()),
{
    match r.raw.rule {
        CssRule::Style(_) => RuleKind::Style,
        CssRule::Media(_) => RuleKind::Media,
        _ => RuleKind::Other,
    }
}

/// The printed media query list of the `@media` rule at the path.
pub uninterp spec fn css_media_query(css: Seq<char>, path: Seq<usize>) -> Seq<char>;

/// The media query list of an `@media` rule as printed (`ToCss::to_css`),
/// named `css_media_query`; empty for a rule of another kind.
#[verifier::external_body]
pub(crate) fn media_query_text(r: &RuleRef) -> (t: String)
    ensures
        t@ == css_media_query(r.source(), r.path()),
{
    let mut s = String::new();
    if let CssRule::Media(m) = r.raw.rule {
        let mut printer = Printer::new(&mut s, PrinterOptions::default());
        let _ = lightningcss::traits::ToCss::to_css(&m.query, &mut printer);
    }
    s
}

/// The number of declarations of the style rule at the path, in the
/// `!important` block or the other.
pub uninterp spec fn css_declaration_count(css: Seq<char>, path: Seq<usize>, important: bool) -> usize;

/// The declarations of a style rule, `!important` ones or the others, in
/// order, the `d`th with index `d`; none for a rule of another kind. Their
/// number is named `css_declaration_count`.
#[verifier::external_body]
pub(crate) fn declarations<'a, 'i>(r: &RuleRef<'a, 'i>, important: bool) -> (v: Vec<PropRef<'a, 'i>>)
    ensures
        v@.len() == css_declaration_count(r.source(), r.path(), important),
        forall|d: int| 0 <= d < v@.len() ==> {
            &&& (#[trigger] v@[d]).source() == r.source()
            &&& v@[d].path() == r.path()
            &&& v@[d].important() == important
            &&& v@[d].index() == d
        },
{
    match r.raw.rule {
        CssRule::Style(s) => {
            let list = if important { &s.declarations.important_declarations } else { &s.declarations.declarations };
            list.iter().enumerate().map(|(index, prop)| PropRef { prop, text: r.text, path: r.path.clone(), important, index }).collect()
        },
        _ => Vec::new(),
    }
}

/// The number of selectors of the style rule at the path.
pub uninterp spec fn css_selector_count(css: Seq<char>, path: Seq<usize>) -> usize;

/// The number of selectors of a style rule, named `css_selector_count`;
/// 0 for a rule of another kind.
#[verifier::external_body]
pub(crate) fn selector_count(r: &RuleRef) -> (n: usize)
    ensures
        n == css_selector_count(r.source(), r.path()),
{
    match r.raw.rule {
        CssRule::Style(s) => s.selectors.0.len(),
        _ => 0,
    }
}

/// The `i`th selector of the style rule at the path, as printed.
pub uninterp spec fn css_selector_text(css: Seq<char>, path: Seq<usize>, i: usize) -> Seq<char>;

/// The `i`th selector of a style rule as printed (`ToCss::to_css`), named
/// `css_selector_text`.
#[verifier::external_body]
pub(crate) fn selector_text(r: &RuleRef, i: usize) -> (t: String)
    ensures
        t@ == css_selector_text(r.source(), r.path(), i),
{
    let mut s = String::new();
    if let CssRule::Style(rule) = r.raw.rule {
        if let Some(sel) = rule.selectors.0.get(i) {
            let mut printer = Printer::new(&mut s, PrinterOptions::default());
            let _ = lightningcss::traits::ToCss::to_css(sel, &mut printer);
        }
    }
    s
}

/// The specificity of the `i`th selector of the style rule at the path.
pub uninterp spec fn css_specificity(css: Seq<char>, path: Seq<usize>, i: usize) -> u32;

/// The specificity of the `i`th selector of a style rule, named
/// `css_specificity`.
#[verifier::external_body]
pub(crate) fn selector_specificity(r: &RuleRef, i: usize) -> (n: u32)
    ensures
        n == css_specificity(r.source(), r.path(), i),
{
    match r.raw.rule {
        CssRule::Style(rule) => rule.selectors.0.get(i).map_or(0, |sel| sel.specificity()),
        _ => 0,
    }
}

/// The number of components of the `i`th selector of the style rule at
/// the path.
pub uninterp spec fn css_component_count(css: Seq<char>, path: Seq<usize>, i: usize) -> usize;

/// The number of components of the `i`th selector of a style rule, in
/// raw match order (`iter_raw_match_order`), named `css_component_count`.
#[verifier::external_body]
pub(crate) fn component_count(r: &RuleRef, i: usize) -> (n: usize)
    ensures
        n == css_component_count(r.source(), r.path(), i),
{
    match r.raw.rule {
        CssRule::Style(rule) => rule.selectors.0.get(i).map_or(0, |sel| sel.iter_raw_match_order().len()),
        _ => 0,
    }
}

/// The `j`th component of the `i`th selector of the style rule at the path,
/// as printed.
pub uninterp spec fn css_component_text(css: Seq<char>, path: Seq<usize>, i: usize, j: usize) -> Seq<char>;

/// The `j`th component, in raw match order, of the `i`th selector of a
/// style rule, as printed (`cssparser::ToCss::to_css_string`), named
/// `css_component_text`.
#[verifier::external_body]
pub(crate) fn component_text(r: &RuleRef, i: usize, j: usize) -> (t: String)
    ensures
        t@ == css_component_text(r.source(), r.path(), i, j),
{
    if let CssRule::Style(rule) = r.raw.rule {
        if let Some(c) = rule.selectors.0.get(i).and_then(|sel| sel.iter_raw_match_order().nth(j)) {
            return cssparser::ToCss::to_css_string(c);
        }
    }
    String::new()
}

/// What the `j`th component of the `i`th selector of the style rule at the
/// path is.
pub uninterp spec fn css_component_sort(css: Seq<char>, path: Seq<usize>, i: usize, j: usize) -> ComponentSort;

/// What the `j`th component, in raw match order, of the `i`th selector of
/// a style rule is, named `css_component_sort` (by its view).
#[verifier::external_body]
pub(crate) fn component_kind(r: &RuleRef, i: usize, j: usize) -> (k: ComponentKind)
    ensures
        k@ == css_component_sort(r.source(), r.path(), i, j),
{
    if let CssRule::Style(rule) = r.raw.rule {
        match rule.selectors.0.get(i).and_then(|sel| sel.iter_raw_match_order().nth(j)) {
            Some(Component::Combinator(_)) => return ComponentKind::Combinator,
            Some(Component::Class(c)) => return ComponentKind::Class(c.0.to_string()),
            Some(Component::ID(_)) => return ComponentKind::Id,
            Some(Component::NonTSPseudoClass(_)) => return ComponentKind::PseudoClass,
            _ => {},
        }
    }
    ComponentKind::Other
}

/// The property name of the declaration at the place, without vendor prefix.
pub uninterp spec fn css_property_name(css: Seq<char>, path: Seq<usize>, important: bool, d: usize) -> Seq<char>;

/// The property's name without vendor prefix (`property_id().name()`),
/// named `css_property_name`.
#[verifier::external_body]
pub(crate) fn property_name(p: &PropRef) -> (t: String)
    ensures
        t@ == css_property_name(p.source(), p.path(), p.important(), p.index()),
{
    p.prop.property_id().name().to_string()
}

/// Whether the declaration at the place was parsed as a value of its
/// property.
pub uninterp spec fn css_property_parsed(css: Seq<char>, path: Seq<usize>, important: bool, d: usize) -> bool;

/// Whether the value was parsed as a value of its property: not an
/// unparsed, custom or `all` declaration. Named `css_property_parsed`.
#[verifier::external_body]
pub(crate) fn property_parsed(p: &PropRef) -> (b: bool)
    ensures
        b == css_property_parsed(p.source(), p.path(), p.important(), p.index()),
{
    match p.prop {
        Property::Unparsed(_) => false,
        Property::Custom(_) => false,
        Property::All(_) => false,
        _ => true,
    }
}

/// Whether the declaration at the place defines a custom property.
pub uninterp spec fn css_property_custom(css: Seq<char>, path: Seq<usize>, important: bool, d: usize) -> bool;

/// Whether the declaration defines a custom property, named
/// `css_property_custom`.
#[verifier::external_body]
pub(crate) fn property_custom(p: &PropRef) -> (b: bool)
    ensures
        b == css_property_custom(p.source(), p.path(), p.important(), p.index()),
{
    match p.prop {
        Property::Custom(_) => true,
        _ => false,
    }
}

/// The declaration at the place, printed without `!important`.
pub uninterp spec fn css_property_css(css: Seq<char>, path: Seq<usize>, important: bool, d: usize) -> Seq<char>;

/// The declaration printed without `!important` (`Property::to_css`),
/// named `css_property_css`.
#[verifier::external_body]
pub(crate) fn property_css(p: &PropRef) -> (t: String)
    ensures
        t@ == css_property_css(p.source(), p.path(), p.important(), p.index()),
{
    let mut s = String::new();
    let mut printer = Printer::new(&mut s, PrinterOptions::default());
    let _ = p.prop.to_css(&mut printer, false);
    s
}

/// The value of the declaration at the place, as printed.
pub uninterp spec fn css_property_value(css: Seq<char>, path: Seq<usize>, important: bool, d: usize) -> Option<Seq<char>>;

/// The declaration's value as printed (`value_to_css_string`), named
/// `css_property_value`.
#[verifier::external_body]
pub(crate) fn property_value(p: &PropRef) -> (t: Option<String>)
    ensures
        match t {
            Some(v) => css_property_value(p.source(), p.path(), p.important(), p.index()) == Some(v@),
            None => css_property_value(p.source(), p.path(), p.important(), p.index()) is None,
        },
{
    p.prop.value_to_css_string(PrinterOptions::default()).ok()
}

/// The printed row and column of the `gap` declaration at the place.
pub uninterp spec fn css_property_gap(css: Seq<char>, path: Seq<usize>, important: bool, d: usize) -> Option<(Seq<char>, Seq<char>)>;

/// The row and column of a `gap` declaration, each as printed, named
/// `css_property_gap`.
#[verifier::external_body]
pub(crate) fn property_gap(p: &PropRef) -> (t: Option<(String, String)>)
    ensures
        match t {
            Some((a, b)) => css_property_gap(p.source(), p.path(), p.important(), p.index()) == Some((a@, b@)),
            None => css_property_gap(p.source(), p.path(), p.important(), p.index()) is None,
        },
{
    match p.prop {
        Property::Gap(g) => match (
            lightningcss::traits::ToCss::to_css_string(&g.row, PrinterOptions::default()),
            lightningcss::traits::ToCss::to_css_string(&g.column, PrinterOptions::default()),
        ) {
            (Ok(row), Ok(col)) => Some((row, col)),
            _ => None,
        },
        _ => None,
    }
}

/// The number of the `flex-grow` or `flex-shrink` declaration at the place.
pub uninterp spec fn css_property_factor(css: Seq<char>, path: Seq<usize>, important: bool, d: usize) -> Option<Seq<char>>;

/// The number of a `flex-grow` or `flex-shrink` declaration, formatted
/// with `{}`, named `css_property_factor`.
#[verifier::external_body]
pub(crate) fn property_factor(p: &PropRef) -> (t: Option<String>)
    ensures
        match t {
            Some(v) => css_property_factor(p.source(), p.path(), p.important(), p.index()) == Some(v@),
            None => css_property_factor(p.source(), p.path(), p.important(), p.index()) is None,
        },
{
    match p.prop {
        Property::FlexGrow(v, _) => Some(format!("{}", v)),
        Property::FlexShrink(v, _) => Some(format!("{}", v)),
        _ => None,
    }
}

} // verus!
