//! Parsing stylesheets into rules, and the maps that the planner reads:
//! rules with the variants of their `@media` blocks, CSS variables, and
//! the declarations of each class.

use crate::css::lightning::{
    component_count, component_kind, component_text, css_component_count, css_component_sort,
    css_component_text, css_declaration_count, css_media_query, css_property_css,
    css_property_custom, css_property_factor, css_property_gap, css_property_name,
    css_property_parsed, css_property_value, css_rule_kind, css_selector_count,
    css_selector_text, css_specificity, declarations, media_query_text, media_rule_count,
    media_rules, parse_stylesheet, property_css, property_custom, property_factor, property_gap,
    property_name, property_parsed, property_value, rule_kind, selector_count,
    selector_specificity, selector_text, stylesheet_error, top_rule_count, top_rules,
    ComponentKind, PropRef, RuleKind, RuleRef,
};
use crate::error::Css2TwError;
use crate::tailwind::mapping::CssProperty;
use crate::css::media::{map_media_query, media_key};
use crate::css::selector::{class_of_selector, selector_class};
use crate::tailwind::mapping::{split_declaration, split_declaration_chars};
use crate::tailwind::vars::VariableMap;
use crate::text::{
    chars_of, ends_with, index_of, index_of_char, push_all, push_str, slice_chars, starts_with,
    string_of,
};
use crate::tailwind::mapping::chars_opt;
use crate::variant::TailwindVariant;
use crate::tailwind::values::{ends_with_lit, starts_with_lit};
use vstd::prelude::*;

verus! {

/// One component of a selector, in match order: as printed, and what it is.
#[derive(Debug)]
pub struct SelectorComponent {
    pub text: String,
    pub kind: ComponentKind,
}

/// A selector of a style rule: as printed, its specificity, and its
/// components in match order (right to left, combinators included).
#[derive(Debug)]
pub struct SelectorInfo {
    pub text: String,
    pub specificity: u32,
    pub components: Vec<SelectorComponent>,
}

/// The declarations of a style rule.
#[derive(Debug)]
pub struct DeclarationBlock {
    pub declarations: Vec<CssProperty>,
    pub important_declarations: Vec<CssProperty>,
}

/// A style rule: its selectors and its declarations.
#[derive(Debug)]
pub struct StyleRule {
    pub selectors: Vec<SelectorInfo>,
    pub declarations: DeclarationBlock,
}

/// A rule of a stylesheet.
#[derive(Debug)]
pub enum Rule {
    Style(StyleRule),
    /// An `@media` rule: the printed query and the rules inside.
    Media { query: String, rules: Vec<Rule> },
    /// Any other at-rule.
    Other,
}

/// A parsed stylesheet: its top-level rules.
#[derive(Debug)]
pub struct ParsedStylesheet {
    pub rules: Vec<Rule>,
}

/// Every declaration in the sequence is well formed.
pub open spec fn props_wf(ps: Seq<CssProperty>) -> bool {
    forall|i: int| 0 <= i < ps.len() ==> #[trigger] ps[i].wf()
}

impl StyleRule {
    pub open spec fn wf(&self) -> bool {
        props_wf(self.declarations.declarations@) && props_wf(
            self.declarations.important_declarations@,
        )
    }
}

impl Rule {
    /// Every declaration in the rule, at any depth, is well formed.
    pub open spec fn wf(self) -> bool
        decreases self,
    {
        match self {
            Rule::Style(s) => s.wf(),
            Rule::Media { query, rules } => forall|i: int|
                0 <= i < rules@.len() ==> (#[trigger] rules@[i]).wf(),
            Rule::Other => true,
        }
    }
}

impl ParsedStylesheet {
    pub open spec fn wf(&self) -> bool {
        forall|i: int| 0 <= i < self.rules@.len() ==> (#[trigger] self.rules@[i]).wf()
    }
}


/// The declaration read from the place `d` of the block (`important` or
/// not) of the style rule at `path` in the stylesheet parsed from `css`.
pub open spec fn property_is(q: CssProperty, css: Seq<char>, path: Seq<usize>, important: bool, d: usize) -> bool {
    &&& q.name@ == css_property_name(css, path, important, d)
    &&& q.parsed == css_property_parsed(css, path, important, d)
    &&& q.custom == css_property_custom(css, path, important, d)
    &&& q.css@ == css_property_css(css, path, important, d)
    &&& css_property_value(css, path, important, d) == (match q.value {
        Some(v) => Some(v@),
        None => None,
    })
    &&& css_property_gap(css, path, important, d) == (match q.gap {
        Some((a, b)) => Some((a@, b@)),
        None => None,
    })
    &&& css_property_factor(css, path, important, d) == (match q.factor {
        Some(v) => Some(v@),
        None => None,
    })
}

/// The declaration at the place is well formed (`CssProperty::wf`): a
/// parsed `transform` whose value begins with `scale(` ends with `)`.
pub open spec fn property_ok(css: Seq<char>, path: Seq<usize>, important: bool, d: usize) -> bool {
    (css_property_parsed(css, path, important, d) && css_property_name(css, path, important, d) == "transform"@) ==> match css_property_value(css, path, important, d) {
        Some(v) => starts_with(v, "scale("@) ==> ends_with(v, ")"@),
        None => true,
    }
}

/// The declarations of the block are those of the place, in order.
pub open spec fn properties_are(ps: Seq<CssProperty>, css: Seq<char>, path: Seq<usize>, important: bool) -> bool {
    &&& ps.len() == css_declaration_count(css, path, important)
    &&& forall|d: int| 0 <= d < ps.len() ==> property_is(#[trigger] ps[d], css, path, important, d as usize)
}

/// Every declaration of the block is well formed.
pub open spec fn properties_ok(css: Seq<char>, path: Seq<usize>, important: bool) -> bool {
    forall|d: usize| d < css_declaration_count(css, path, important) ==> #[trigger] property_ok(css, path, important, d)
}

/// The `i`th selector of the style rule at `path`: its text, specificity
/// and components.
pub open spec fn selector_is(x: SelectorInfo, css: Seq<char>, path: Seq<usize>, i: usize) -> bool {
    &&& x.text@ == css_selector_text(css, path, i)
    &&& x.specificity == css_specificity(css, path, i)
    &&& x.components@.len() == css_component_count(css, path, i)
    &&& forall|j: int| 0 <= j < x.components@.len() ==> {
        &&& (#[trigger] x.components@[j]).text@ == css_component_text(css, path, i, j as usize)
        &&& x.components@[j].kind@ == css_component_sort(css, path, i, j as usize)
    }
}

/// The style rule at `path`: its selectors and both blocks of declarations.
pub open spec fn style_is(s: StyleRule, css: Seq<char>, path: Seq<usize>) -> bool {
    &&& s.selectors@.len() == css_selector_count(css, path)
    &&& forall|i: int| 0 <= i < s.selectors@.len() ==> selector_is(#[trigger] s.selectors@[i], css, path, i as usize)
    &&& properties_are(s.declarations.declarations@, css, path, false)
    &&& properties_are(s.declarations.important_declarations@, css, path, true)
}

/// The rule at `path`, with `@media` blocks read down to `depth` levels.
pub open spec fn rule_is(r: Rule, css: Seq<char>, path: Seq<usize>, depth: nat) -> bool
    decreases r,
{
    match r {
        Rule::Style(s) => css_rule_kind(css, path) == RuleKind::Style && style_is(s, css, path),
        Rule::Media { query, rules } => {
            &&& css_rule_kind(css, path) == RuleKind::Media
            &&& depth > 0
            &&& query@ == css_media_query(css, path)
            &&& rules@.len() == media_rule_count(css, path)
            &&& forall|k: int| 0 <= k < rules@.len() ==> rule_is(#[trigger] rules@[k], css, path.push(k as usize), (depth - 1) as nat)
        },
        Rule::Other => css_rule_kind(css, path) == RuleKind::Other,
    }
}

/// The first `k` rules of the list at `path` (children at `path` and
/// their index) can be read: their declarations are well formed and their
/// `@media` blocks nest at most `depth` levels.
pub open spec fn rules_ok(css: Seq<char>, path: Seq<usize>, depth: nat, k: int) -> bool
    decreases depth, k,
{
    if k <= 0 {
        true
    } else {
        rules_ok(css, path, depth, k - 1) && rule_ok(css, path.push((k - 1) as usize), depth)
    }
}

/// The rule at `path` can be read with `@media` blocks down to `depth`.
pub open spec fn rule_ok(css: Seq<char>, path: Seq<usize>, depth: nat) -> bool
    decreases depth, 0int,
{
    match css_rule_kind(css, path) {
        RuleKind::Style => properties_ok(css, path, false) && properties_ok(css, path, true),
        RuleKind::Media => if depth == 0 {
            false
        } else {
            rules_ok(css, path, (depth - 1) as nat, media_rule_count(css, path) as int)
        },
        RuleKind::Other => true,
    }
}

proof fn lemma_rules_ok_prefix(css: Seq<char>, path: Seq<usize>, depth: nat, k: int, n: int)
    requires
        0 <= k <= n,
        rules_ok(css, path, depth, n),
    ensures
        rules_ok(css, path, depth, k),
    decreases n - k,
{
    if k < n {
        lemma_rules_ok_prefix(css, path, depth, k, n - 1);
    }
}

/// The text parses and all its rules can be read, `@media` blocks nested
/// no deeper than the text is long.
pub open spec fn css_parses(css: Seq<char>) -> bool {
    stylesheet_error(css) is None && rules_ok(css, Seq::empty(), css.len(), top_rule_count(css) as int)
}

/// The stylesheet read from the text: its top-level rules, in order.
pub open spec fn sheet_is(s: ParsedStylesheet, css: Seq<char>) -> bool {
    &&& s.rules@.len() == top_rule_count(css)
    &&& forall|k: int| 0 <= k < s.rules@.len() ==> rule_is(#[trigger] s.rules@[k], css, Seq::<usize>::empty().push(k as usize), css.len())
}

/// Whether a declaration is well formed (`CssProperty::wf`).
pub fn property_wf(p: &CssProperty) -> (r: bool)
    ensures
        r == p.wf(),
{
    if p.parsed {
        let n = chars_of(&p.name);
        if crate::tailwind::values::is_lit(n.as_slice(), "transform") {
            if let Some(d) = &p.value {
                let dc = chars_of(d);
                if starts_with_lit(dc.as_slice(), "scale(") {
                    return ends_with_lit(dc.as_slice(), ")");
                }
            }
        }
    }
    true
}

fn property_of(p: &PropRef) -> (r: Result<CssProperty, Css2TwError>)
    ensures
        match r {
            Ok(q) => property_is(q, p.source(), p.path(), p.important(), p.index()) && q.wf()
                && property_ok(p.source(), p.path(), p.important(), p.index()),
            Err(e) => e is Internal && !property_ok(p.source(), p.path(), p.important(), p.index()),
        },
{
    let q = CssProperty {
        name: property_name(p),
        parsed: property_parsed(p),
        custom: property_custom(p),
        css: property_css(p),
        value: property_value(p),
        gap: property_gap(p),
        factor: property_factor(p),
    };
    if property_wf(&q) {
        Ok(q)
    } else {
        Err(Css2TwError::Internal(String::from_str("a printed scale() transform lacks its `)`")))
    }
}

fn properties_of(
    ps: &[PropRef],
    Ghost(css): Ghost<Seq<char>>,
    Ghost(path): Ghost<Seq<usize>>,
    Ghost(important): Ghost<bool>,
) -> (r: Result<Vec<CssProperty>, Css2TwError>)
    requires
        ps@.len() == css_declaration_count(css, path, important),
        forall|d: int| 0 <= d < ps@.len() ==> {
            &&& (#[trigger] ps@[d]).source() == css
            &&& ps@[d].path() == path
            &&& ps@[d].important() == important
            &&& ps@[d].index() == d
        },
    ensures
        match r {
            Ok(v) => properties_are(v@, css, path, important) && props_wf(v@) && properties_ok(css, path, important),
            Err(e) => e is Internal && !properties_ok(css, path, important),
        },
{
    let mut out: Vec<CssProperty> = Vec::new();
    for i in 0..ps.len()
        invariant
            ps@.len() == css_declaration_count(css, path, important),
            forall|d: int| 0 <= d < ps@.len() ==> {
                &&& (#[trigger] ps@[d]).source() == css
                &&& ps@[d].path() == path
                &&& ps@[d].important() == important
                &&& ps@[d].index() == d
            },
            out@.len() == i,
            props_wf(out@),
            forall|d: int| 0 <= d < i ==> property_is(#[trigger] out@[d], css, path, important, d as usize),
            forall|d: usize| d < i ==> #[trigger] property_ok(css, path, important, d),
    {
        assert(ps@[i as int].index() == i);
        let q = match property_of(&ps[i]) {
            Ok(q) => q,
            Err(e) => return Err(e),
        };
        out.push(q);
    }
    Ok(out)
}

fn selector_of(r: &RuleRef, i: usize) -> (s: SelectorInfo)
    ensures
        selector_is(s, r.source(), r.path(), i),
{
    let n = component_count(r, i);
    let mut components: Vec<SelectorComponent> = Vec::new();
    for j in 0..n
        invariant
            n == css_component_count(r.source(), r.path(), i),
            components@.len() == j,
            forall|t: int| 0 <= t < j ==> {
                &&& (#[trigger] components@[t]).text@ == css_component_text(r.source(), r.path(), i, t as usize)
                &&& components@[t].kind@ == css_component_sort(r.source(), r.path(), i, t as usize)
            },
    {
        components.push(SelectorComponent { text: component_text(r, i, j), kind: component_kind(r, i, j) });
    }
    SelectorInfo { text: selector_text(r, i), specificity: selector_specificity(r, i), components }
}

fn style_rule_of(r: &RuleRef) -> (s: Result<StyleRule, Css2TwError>)
    ensures
        match s {
            Ok(x) => style_is(x, r.source(), r.path()) && x.wf()
                && properties_ok(r.source(), r.path(), false) && properties_ok(r.source(), r.path(), true),
            Err(e) => e is Internal && !(properties_ok(r.source(), r.path(), false) && properties_ok(r.source(), r.path(), true)),
        },
{
    let n = selector_count(r);
    let mut selectors: Vec<SelectorInfo> = Vec::new();
    for i in 0..n
        invariant
            n == css_selector_count(r.source(), r.path()),
            selectors@.len() == i,
            forall|t: int| 0 <= t < i ==> selector_is(#[trigger] selectors@[t], r.source(), r.path(), t as usize),
    {
        selectors.push(selector_of(r, i));
    }
    let plain = declarations(r, false);
    let declarations = properties_of(plain.as_slice(), Ghost(r.source()), Ghost(r.path()), Ghost(false))?;
    let marked = crate::css::lightning::declarations(r, true);
    let important_declarations = properties_of(marked.as_slice(), Ghost(r.source()), Ghost(r.path()), Ghost(true))?;
    Ok(StyleRule { selectors, declarations: DeclarationBlock { declarations, important_declarations } })
}

/// The rules of a rule list, `@media` blocks nested up to `depth` levels:
/// the list at `base` in the stylesheet parsed from `css`.
fn rules_of(
    list: &[RuleRef],
    depth: usize,
    Ghost(css): Ghost<Seq<char>>,
    Ghost(base): Ghost<Seq<usize>>,
) -> (r: Result<Vec<Rule>, Css2TwError>)
    requires
        forall|k: int| 0 <= k < list@.len() ==> (#[trigger] list@[k]).source() == css && list@[k].path() == base.push(k as usize),
    ensures
        match r {
            Ok(v) => {
                &&& v@.len() == list@.len()
                &&& forall|k: int| 0 <= k < v@.len() ==> (#[trigger] v@[k]).wf()
                &&& forall|k: int| 0 <= k < v@.len() ==> rule_is(#[trigger] v@[k], css, base.push(k as usize), depth as nat)
                &&& rules_ok(css, base, depth as nat, list@.len() as int)
            },
            Err(e) => e is Internal && !rules_ok(css, base, depth as nat, list@.len() as int),
        },
    decreases depth,
{
    let mut out: Vec<Rule> = Vec::new();
    for i in 0..list.len()
        invariant
            forall|k: int| 0 <= k < list@.len() ==> (#[trigger] list@[k]).source() == css && list@[k].path() == base.push(k as usize),
            out@.len() == i,
            forall|k: int| 0 <= k < out@.len() ==> (#[trigger] out@[k]).wf(),
            forall|k: int| 0 <= k < out@.len() ==> rule_is(#[trigger] out@[k], css, base.push(k as usize), depth as nat),
            rules_ok(css, base, depth as nat, i as int),
    {
        let r = &list[i];
        let ghost p = base.push(i as usize);
        assert(r.source() == css && r.path() == p);
        assert(p == base.push(((i + 1) - 1) as usize));
        match rule_kind(r) {
            RuleKind::Style => {
                match style_rule_of(r) {
                    Ok(s) => {
                        assert(rule_ok(css, p, depth as nat));
                        out.push(Rule::Style(s));
                    },
                    Err(e) => {
                        assert(!rule_ok(css, p, depth as nat));
                        proof {
                            if rules_ok(css, base, depth as nat, list@.len() as int) {
                                lemma_rules_ok_prefix(css, base, depth as nat, i + 1, list@.len() as int);
                            }
                        }
                        return Err(e);
                    },
                }
            },
            RuleKind::Media => {
                if depth == 0 {
                    assert(!rule_ok(css, p, depth as nat));
                    proof {
                        if rules_ok(css, base, depth as nat, list@.len() as int) {
                            lemma_rules_ok_prefix(css, base, depth as nat, i + 1, list@.len() as int);
                        }
                    }
                    return Err(Css2TwError::Internal(String::from_str("@media blocks nested deeper than the source is long")));
                }
                let nested = media_rules(r);
                match rules_of(nested.as_slice(), depth - 1, Ghost(css), Ghost(p)) {
                    Ok(inner) => {
                        assert(rule_ok(css, p, depth as nat));
                        let query = media_query_text(r);
                        let m = Rule::Media { query, rules: inner };
                        out.push(m);
                    },
                    Err(e) => {
                        assert(!rule_ok(css, p, depth as nat));
                        proof {
                            if rules_ok(css, base, depth as nat, list@.len() as int) {
                                lemma_rules_ok_prefix(css, base, depth as nat, i + 1, list@.len() as int);
                            }
                        }
                        return Err(e);
                    },
                }
            },
            RuleKind::Other => {
                assert(rule_ok(css, p, depth as nat));
                out.push(Rule::Other);
            },
        }
        assert(rule_ok(css, p, depth as nat));
        assert(rules_ok(css, base, depth as nat, i + 1));
    }
    Ok(out)
}

/// Parses a CSS text into its rules (see `sheet_is`).
///
/// A text that lightningcss cannot parse gives `Css2TwError::Parse` with
/// `Failed to parse CSS: ` and lightningcss's error. A declaration the model cannot hold, or
/// `@media` blocks nested deeper than the text is long (every level takes
/// at least one character), gives `Internal`.
pub fn parse_css(css_content: &str) -> (r: Result<ParsedStylesheet, Css2TwError>)
    ensures
        r is Ok <==> css_parses(css_content@),
        r matches Ok(s) ==> s.wf() && sheet_is(s, css_content@),
        r matches Err(e) ==> (e is Parse || e is Internal) && (e is Parse <==> stylesheet_error(css_content@) is Some),
        r matches Err(Css2TwError::Parse(m)) ==> m@ == "Failed to parse CSS: "@ + stylesheet_error(css_content@)->0,
{
    match parse_stylesheet(css_content) {
        Ok(sheet) => {
            let top = top_rules(&sheet);
            proof {
                assert forall|k: int| 0 <= k < top@.len() implies (#[trigger] top@[k]).source() == css_content@
                    && top@[k].path() == Seq::<usize>::empty().push(k as usize) by {
                    assert(seq![k as usize] =~= Seq::<usize>::empty().push(k as usize));
                }
            }
            let rules = rules_of(top.as_slice(), css_content.unicode_len(), Ghost(css_content@), Ghost(Seq::empty()))?;
            Ok(ParsedStylesheet { rules })
        },
        Err(e) => {
            let mut m = chars_of("Failed to parse CSS: ");
            push_str(&mut m, e.as_str());
            Err(Css2TwError::Parse(string_of(m.as_slice())))
        },
    }
}

/// A style rule with the variants of the `@media` blocks around it,
/// outermost first.
pub struct RuleWithContext<'a> {
    pub rule: &'a StyleRule,
    pub context_variants: Vec<TailwindVariant>,
}

/// The variants as `TailwindVariant::key` gives them.
pub open spec fn keys(vs: Seq<TailwindVariant>) -> Seq<(int, Seq<char>)> {
    vs.map_values(|v: TailwindVariant| v.key())
}

/// A rule with its context, over plain values.
pub open spec fn rwc_view(r: RuleWithContext) -> (StyleRule, Seq<(int, Seq<char>)>) {
    (*r.rule, keys(r.context_variants@))
}

pub open spec fn rwc_views(rs: Seq<RuleWithContext>) -> Seq<(StyleRule, Seq<(int, Seq<char>)>)> {
    rs.map_values(|r: RuleWithContext| rwc_view(r))
}

/// The style rules of `rules` in order, each with the context `ctx` and the
/// variants of the `@media` blocks between `rules` and it.
pub open spec fn flatten_rules(rules: Seq<Rule>, ctx: Seq<(int, Seq<char>)>) -> Seq<
    (StyleRule, Seq<(int, Seq<char>)>),
>
    decreases rules,
{
    if rules.len() == 0 {
        Seq::empty()
    } else {
        flatten_rules(rules.drop_last(), ctx) + match rules.last() {
            Rule::Style(s) => seq![(s, ctx)],
            Rule::Media { query, rules: inner } => flatten_rules(
                inner@,
                ctx.push(media_key(query@)),
            ),
            Rule::Other => Seq::empty(),
        }
    }
}

/// A copy of a list of variants.
pub fn clone_variants(vs: &Vec<TailwindVariant>) -> (r: Vec<TailwindVariant>)
    ensures
        r@ == vs@,
{
    let mut r: Vec<TailwindVariant> = Vec::new();
    for i in 0..vs.len()
        invariant
            r@ == vs@.subrange(0, i as int),
    {
        r.push(vs[i].clone());
        assert(r@ =~= vs@.subrange(0, i + 1));
    }
    assert(vs@.subrange(0, vs@.len() as int) =~= vs@);
    r
}

fn extract_rules_recursive<'a>(
    rules: &'a Vec<Rule>,
    current: &Vec<TailwindVariant>,
    out: &mut Vec<RuleWithContext<'a>>,
)
    ensures
        rwc_views(final(out)@) == rwc_views(old(out)@) + flatten_rules(rules@, keys(current@)),
    decreases rules@,
{
    let ghost start = rwc_views(out@);
    let ghost ctx = keys(current@);
    assert(rules@.subrange(0, 0) =~= Seq::<Rule>::empty());
    for i in 0..rules.len()
        invariant
            ctx == keys(current@),
            rwc_views(out@) == start + flatten_rules(rules@.subrange(0, i as int), ctx),
    {
        assert(rules@.subrange(0, i + 1).drop_last() =~= rules@.subrange(0, i as int));
        assert(rules@.subrange(0, i + 1).last() == rules@[i as int]);
        let ghost before = out@;
        match &rules[i] {
            Rule::Style(s) => {
                out.push(RuleWithContext { rule: s, context_variants: clone_variants(current) });
                assert(rwc_views(out@) =~= rwc_views(before) + seq![(*s, ctx)]);
            },
            Rule::Media { query, rules: inner } => {
                let mut next = clone_variants(current);
                next.push(map_media_query(query));
                assert(keys(next@) =~= ctx.push(media_key(query@)));
                proof {
                    assert(decreases_to!(rules@ => rules@[i as int]));
                }
                extract_rules_recursive(inner, &next, out);
            },
            Rule::Other => {},
        }
        assert(rwc_views(out@) =~= start + flatten_rules(rules@.subrange(0, i + 1), ctx));
    }
    assert(rules@.subrange(0, rules@.len() as int) =~= rules@);
}

/// The style rules of a stylesheet in order, those inside `@media` blocks
/// included, each with the variants of the blocks around it.
pub fn extract_style_rules<'a>(stylesheet: &'a ParsedStylesheet) -> (r: Vec<RuleWithContext<'a>>)
    ensures
        rwc_views(r@) == flatten_rules(stylesheet.rules@, Seq::empty()),
        stylesheet.wf() ==> forall|i: int| 0 <= i < r@.len() ==> (#[trigger] r@[i]).rule.wf(),
{
    let mut out: Vec<RuleWithContext<'a>> = Vec::new();
    let empty: Vec<TailwindVariant> = Vec::new();
    assert(keys(empty@) =~= Seq::empty());
    assert(rwc_views(out@) =~= Seq::empty());
    extract_rules_recursive(&stylesheet.rules, &empty, &mut out);
    assert(rwc_views(out@) =~= flatten_rules(stylesheet.rules@, Seq::empty()));
    proof {
        if stylesheet.wf() {
            lemma_flatten_wf(stylesheet.rules@, Seq::empty());
            assert forall|i: int| 0 <= i < out@.len() implies (#[trigger] out@[i]).rule.wf() by {
                assert(rwc_views(out@)[i] == rwc_view(out@[i]));
            }
        }
    }
    out
}

/// Every style rule that flattening gives is well formed when the rules are.
pub proof fn lemma_flatten_wf(rules: Seq<Rule>, ctx: Seq<(int, Seq<char>)>)
    requires
        forall|i: int| 0 <= i < rules.len() ==> (#[trigger] rules[i]).wf(),
    ensures
        forall|k: int| 0 <= k < flatten_rules(rules, ctx).len() ==> (#[trigger] flatten_rules(rules, ctx)[k]).0.wf(),
    decreases rules,
{
    if rules.len() > 0 {
        let init = rules.drop_last();
        assert forall|i: int| 0 <= i < init.len() implies (#[trigger] init[i]).wf() by {
            assert(init[i] == rules[i]);
        }
        lemma_flatten_wf(init, ctx);
        let last = rules.last();
        assert(last.wf());
        let a = flatten_rules(init, ctx);
        let f = flatten_rules(rules, ctx);
        match last {
            Rule::Style(st) => {
                assert(f == a + seq![(st, ctx)]);
                assert forall|k: int| 0 <= k < f.len() implies (#[trigger] f[k]).0.wf() by {
                    if k < a.len() {
                        assert(f[k] == a[k]);
                    }
                }
            },
            Rule::Media { query, rules: inner } => {
                assert(decreases_to!(rules => rules[rules.len() - 1]));
                let c2 = ctx.push(media_key(query@));
                lemma_flatten_wf(inner@, c2);
                let b = flatten_rules(inner@, c2);
                assert(f == a + b);
                assert forall|k: int| 0 <= k < f.len() implies (#[trigger] f[k]).0.wf() by {
                    if k < a.len() {
                        assert(f[k] == a[k]);
                    } else {
                        assert(f[k] == b[k - a.len()]);
                    }
                }
            },
            Rule::Other => {
                assert(f =~= a);
            },
        }
    }
}

/// The (name, value) pairs that the custom property definitions among
/// `ps` give, in order.
pub open spec fn custom_entries(ps: Seq<CssProperty>) -> Seq<(Seq<char>, Seq<char>)>
    decreases ps.len(),
{
    if ps.len() == 0 {
        Seq::empty()
    } else {
        custom_entries(ps.drop_last()) + if ps.last().custom {
            match split_declaration(ps.last().css@) {
                Some(nv) => seq![nv],
                None => Seq::empty(),
            }
        } else {
            Seq::empty()
        }
    }
}

/// The variable definitions of the normal declarations of `rules`, in order.
pub open spec fn variable_entries(rules: Seq<StyleRule>) -> Seq<(Seq<char>, Seq<char>)>
    decreases rules.len(),
{
    if rules.len() == 0 {
        Seq::empty()
    } else {
        variable_entries(rules.drop_last()) + custom_entries(
            rules.last().declarations.declarations@,
        )
    }
}

/// The style rules of rules with context.
pub open spec fn plain_rules(rs: Seq<RuleWithContext>) -> Seq<StyleRule> {
    rs.map_values(|r: RuleWithContext| *r.rule)
}

/// Collects the CSS custom properties (variables) defined in the normal
/// declarations of the rules; a later definition of a name replaces an
/// earlier one.
pub fn extract_variables(style_rules: &[RuleWithContext]) -> (r: VariableMap)
    ensures
        r.pairs() == variable_entries(plain_rules(style_rules@)),
{
    let mut map = VariableMap::new();
    assert(map.pairs() =~= Seq::empty());
    for i in 0..style_rules.len()
        invariant
            map.pairs() == variable_entries(plain_rules(style_rules@.subrange(0, i as int))),
    {
        assert(plain_rules(style_rules@.subrange(0, i + 1)).drop_last() =~= plain_rules(
            style_rules@.subrange(0, i as int),
        ));
        let decls = &style_rules[i].rule.declarations.declarations;
        let ghost base = map.pairs();
        for j in 0..decls.len()
            invariant
                map.pairs() == base + custom_entries(decls@.subrange(0, j as int)),
        {
            assert(decls@.subrange(0, j + 1).drop_last() =~= decls@.subrange(0, j as int));
            let p = &decls[j];
            if p.custom {
                let css = chars_of(&p.css);
                if let Some((n, v)) = split_declaration_chars(css.as_slice()) {
                    map.insert(string_of(n.as_slice()), string_of(v.as_slice()));
                }
            }
            assert(map.pairs() =~= base + custom_entries(decls@.subrange(0, j + 1)));
        }
        assert(decls@.subrange(0, decls@.len() as int) =~= decls@);
    }
    assert(style_rules@.subrange(0, style_rules@.len() as int) =~= style_rules@);
    map
}

/// A declaration of a class's rule, with what the mapping needs: the
/// variants it applies under, its selector's specificity, and whether it
/// is `!important`.
#[derive(Debug)]
pub struct TailwindMapping {
    pub property: CssProperty,
    pub variants: Vec<TailwindVariant>,
    pub specificity: u32,
    pub important: bool,
}

/// A mapping over plain values: the property, the variants' keys, the
/// specificity and the importance.
pub open spec fn mapping_view(m: TailwindMapping) -> (CssProperty, Seq<(int, Seq<char>)>, u32, bool) {
    (m.property, keys(m.variants@), m.specificity, m.important)
}

pub open spec fn mapping_views(ms: Seq<TailwindMapping>) -> Seq<
    (CssProperty, Seq<(int, Seq<char>)>, u32, bool),
> {
    ms.map_values(|m: TailwindMapping| mapping_view(m))
}

pub(crate) proof fn lemma_views_push(s: Seq<TailwindMapping>, x: TailwindMapping)
    ensures
        mapping_views(s.push(x)) == mapping_views(s).push(mapping_view(x)),
{
    assert(mapping_views(s.push(x)) =~= mapping_views(s).push(mapping_view(x)));
}

proof fn lemma_views_prefix(s: Seq<TailwindMapping>, i: int)
    requires
        0 <= i < s.len(),
    ensures
        mapping_views(s.subrange(0, i + 1)) == mapping_views(s.subrange(0, i)).push(mapping_view(s[i])),
{
    assert(s.subrange(0, i + 1) =~= s.subrange(0, i).push(s[i]));
    lemma_views_push(s.subrange(0, i), s[i]);
}

impl Clone for TailwindMapping {
    fn clone(&self) -> (r: Self)
        ensures
            mapping_view(r) == mapping_view(*self),
            r.property == self.property,
    {
        TailwindMapping {
            property: self.property.clone(),
            variants: clone_variants(&self.variants),
            specificity: self.specificity,
            important: self.important,
        }
    }
}

/// A copy of a list of mappings.
pub fn clone_mappings(ms: &Vec<TailwindMapping>) -> (r: Vec<TailwindMapping>)
    ensures
        mapping_views(r@) == mapping_views(ms@),
{
    let mut r: Vec<TailwindMapping> = Vec::new();
    for i in 0..ms.len()
        invariant
            mapping_views(r@) == mapping_views(ms@.subrange(0, i as int)),
    {
        let c = ms[i].clone();
        let ghost before = r@;
        r.push(c);
        proof {
            lemma_views_push(before, c);
            lemma_views_prefix(ms@, i as int);
        }
    }
    assert(ms@.subrange(0, ms@.len() as int) =~= ms@);
    r
}

/// The mappings of class names: for each name, its mappings in order.
pub struct RuleMap {
    pub entries: Vec<(String, Vec<TailwindMapping>)>,
}

/// The mappings that a list of entries gives `name`: those of its last entry.
pub open spec fn entries_mappings(es: Seq<(String, Vec<TailwindMapping>)>, name: Seq<char>) -> Option<
    Seq<(CssProperty, Seq<(int, Seq<char>)>, u32, bool)>,
>
    decreases es.len(),
{
    if es.len() == 0 {
        None
    } else if es.last().0@ == name {
        Some(mapping_views(es.last().1@))
    } else {
        entries_mappings(es.drop_last(), name)
    }
}

impl RuleMap {
    /// The mappings of the class `name`, if it has any entry.
    pub open spec fn lookup(&self, name: Seq<char>) -> Option<
        Seq<(CssProperty, Seq<(int, Seq<char>)>, u32, bool)>,
    > {
        entries_mappings(self.entries@, name)
    }

    /// No name has two entries.
    pub open spec fn wf(&self) -> bool {
        forall|i: int, j: int|
            0 <= i < j < self.entries@.len() ==> #[trigger] self.entries@[i].0@
                != #[trigger] self.entries@[j].0@
    }

    /// Every mapped declaration is well formed.
    pub open spec fn props_wf(&self) -> bool {
        forall|i: int, k: int|
            0 <= i < self.entries@.len() && 0 <= k < self.entries@[i].1@.len() ==> (
            #[trigger] self.entries@[i].1@[k]).property.wf()
    }

    /// A map with no names.
    pub fn new() -> (r: RuleMap)
        ensures
            r.wf(),
            r.props_wf(),
            forall|n: Seq<char>| r.lookup(n) is None,
    {
        RuleMap { entries: Vec::new() }
    }

    fn position(&self, name: &[char]) -> (r: Option<usize>)
        requires
            self.wf(),
        ensures
            match r {
                Some(i) => i < self.entries@.len() && self.entries@[i as int].0@ == name@,
                None => forall|i: int|
                    0 <= i < self.entries@.len() ==> self.entries@[i].0@ != name@,
            },
    {
        for i in 0..self.entries.len()
            invariant
                forall|k: int| 0 <= k < i ==> self.entries@[k].0@ != name@,
        {
            let k = chars_of(&self.entries[i].0);
            if crate::text::eq_chars(k.as_slice(), name) {
                return Some(i);
            }
        }
        None
    }

    /// The mappings of the class `name`.
    pub fn get(&self, name: &str) -> (r: Option<&Vec<TailwindMapping>>)
        requires
            self.wf(),
        ensures
            match r {
                Some(v) => self.lookup(name@) == Some(mapping_views(v@)) && (self.props_wf() ==> forall|k: int|
                    0 <= k < v@.len() ==> (#[trigger] v@[k]).property.wf()),
                None => self.lookup(name@) is None,
            },
    {
        let n = chars_of(name);
        match self.position(n.as_slice()) {
            Some(i) => {
                proof {
                    lemma_lookup_at(self.entries@, i as int, name@);
                    if self.props_wf() {
                        assert forall|k: int| 0 <= k < self.entries@[i as int].1@.len() implies (#[trigger] self.entries@[i as int].1@[k]).property.wf() by {
                        }
                    }
                }
                Some(&self.entries[i].1)
            },
            None => {
                proof {
                    lemma_lookup_absent(self.entries@, name@);
                }
                None
            },
        }
    }

    /// Whether the class `name` has mappings.
    pub fn contains_key(&self, name: &str) -> (r: bool)
        requires
            self.wf(),
        ensures
            r == self.lookup(name@) is Some,
    {
        self.get(name).is_some()
    }

    /// Appends `ms` to the mappings of the class `name`.
    pub fn append(&mut self, name: String, ms: Vec<TailwindMapping>)
        requires
            old(self).wf(),
        ensures
            final(self).wf(),
            final(self).lookup(name@) == Some(
                match old(self).lookup(name@) {
                    Some(prev) => prev,
                    None => Seq::empty(),
                } + mapping_views(ms@),
            ),
            forall|n: Seq<char>| n != name@ ==> final(self).lookup(n) == old(self).lookup(n),
            old(self).props_wf() && (forall|k: int| 0 <= k < ms@.len() ==> (#[trigger] ms@[k]).property.wf())
                ==> final(self).props_wf(),
    {
        let n = chars_of(&name);
        match self.position(n.as_slice()) {
            Some(i) => {
                proof {
                    lemma_lookup_at(self.entries@, i as int, name@);
                }
                let ghost old_entries = self.entries@;
                let (k, mut v) = self.entries.remove(i);
                let ghost prev = v@;
                for j in 0..ms.len()
                    invariant
                        v@.len() == prev.len() + j,
                        mapping_views(v@) == mapping_views(prev) + mapping_views(ms@.subrange(0, j as int)),
                        forall|t: int| 0 <= t < prev.len() ==> v@[t] == prev[t],
                        forall|t: int| 0 <= t < j ==> (#[trigger] v@[prev.len() + t]).property == ms@[t].property,
                {
                    let c = ms[j].clone();
                    let ghost before = v@;
                    v.push(c);
                    proof {
                        lemma_views_push(before, c);
                        lemma_views_prefix(ms@, j as int);
                        assert(v@[prev.len() + j] == c);
                        assert(mapping_views(v@) =~= mapping_views(prev) + mapping_views(ms@.subrange(0, j + 1)));
                    }
                }
                assert(ms@.subrange(0, ms@.len() as int) =~= ms@);
                self.entries.insert(i, (k, v));
                proof {
                    assert forall|a: int, b: int| 0 <= a < b < self.entries@.len() implies #[trigger] self.entries@[a].0@
                        != #[trigger] self.entries@[b].0@ by {
                        assert(self.entries@[a].0@ == old_entries[a].0@);
                        assert(self.entries@[b].0@ == old_entries[b].0@);
                    }
                    lemma_lookup_at(self.entries@, i as int, name@);
                    assert forall|m: Seq<char>| m != name@ implies entries_mappings(self.entries@, m) == entries_mappings(old_entries, m) by {
                        lemma_lookup_same(self.entries@, old_entries, i as int, m);
                    }
                    if old(self).props_wf() && (forall|t: int| 0 <= t < ms@.len() ==> (#[trigger] ms@[t]).property.wf()) {
                        assert forall|a: int, b: int|
                            0 <= a < self.entries@.len() && 0 <= b < self.entries@[a].1@.len() implies (
                            #[trigger] self.entries@[a].1@[b]).property.wf() by {
                            if a == i {
                                if b < prev.len() {
                                    assert(prev[b] == old_entries[i as int].1@[b]);
                                } else {
                                    let t = b - prev.len();
                                    assert(self.entries@[a].1@ == v@);
                                    assert(v@[prev.len() + t].property == ms@[t].property);
                                }
                            } else {
                                assert(self.entries@[a] == old_entries[a]);
                            }
                        }
                    }
                }
            },
            None => {
                proof {
                    lemma_lookup_absent(self.entries@, name@);
                }
                let ghost old_entries = self.entries@;
                self.entries.push((name, ms));
                assert(self.entries@.drop_last() =~= old_entries);
                assert(forall|a: int| 0 <= a < old_entries.len() ==> self.entries@[a] == old_entries[a]);
                assert(mapping_views(ms@) =~= Seq::empty() + mapping_views(ms@));
            },
        }
    }
}

/// The mappings of the declarations `ps` under the variants `vs`.
pub open spec fn decl_views(ps: Seq<CssProperty>, vs: Seq<(int, Seq<char>)>, specificity: u32, important: bool) -> Seq<
    (CssProperty, Seq<(int, Seq<char>)>, u32, bool),
> {
    ps.map_values(|p: CssProperty| (p, vs, specificity, important))
}

/// The class name and the mappings that a style rule with the context
/// `ctx` contributes: by its first selector, whose class and pseudo variant
/// `selector_class` gives; normal declarations first, then important ones.
pub open spec fn rule_entry(rule: StyleRule, ctx: Seq<(int, Seq<char>)>) -> Option<
    (Seq<char>, Seq<(CssProperty, Seq<(int, Seq<char>)>, u32, bool)>),
> {
    if rule.selectors@.len() == 0 {
        None
    } else {
        let sel = rule.selectors@[0];
        match selector_class(sel.text@) {
            Some((name, extra)) => {
                let vs = match extra {
                    Some(k) => ctx.push(k),
                    None => ctx,
                };
                Some(
                    (
                        name,
                        decl_views(rule.declarations.declarations@, vs, sel.specificity, false)
                            + decl_views(
                            rule.declarations.important_declarations@,
                            vs,
                            sel.specificity,
                            true,
                        ),
                    ),
                )
            },
            None => None,
        }
    }
}

/// The mappings that the rules give the class `name`: the contributions of
/// the rules that target it, in order.
pub open spec fn rule_map_lookup(rules: Seq<(StyleRule, Seq<(int, Seq<char>)>)>, name: Seq<char>) -> Option<
    Seq<(CssProperty, Seq<(int, Seq<char>)>, u32, bool)>,
>
    decreases rules.len(),
{
    if rules.len() == 0 {
        None
    } else {
        let prev = rule_map_lookup(rules.drop_last(), name);
        match rule_entry(rules.last().0, rules.last().1) {
            Some((n, ms)) => if n == name {
                Some(
                    match prev {
                        Some(p) => p + ms,
                        None => ms,
                    },
                )
            } else {
                prev
            },
            None => prev,
        }
    }
}

fn push_mappings(
    ps: &Vec<CssProperty>,
    vs: &Vec<TailwindVariant>,
    specificity: u32,
    important: bool,
    out: &mut Vec<TailwindMapping>,
)
    ensures
        mapping_views(final(out)@) == mapping_views(old(out)@) + decl_views(ps@, keys(vs@), specificity, important),
        forall|k: int| 0 <= k < old(out)@.len() ==> final(out)@[k] == old(out)@[k],
        forall|k: int|
            old(out)@.len() <= k < final(out)@.len() ==> (#[trigger] final(out)@[k]).property == ps@[k
                - old(out)@.len()],
        final(out)@.len() == old(out)@.len() + ps@.len(),
{
    let ghost start = out@;
    for j in 0..ps.len()
        invariant
            out@.len() == start.len() + j,
            mapping_views(out@) == mapping_views(start) + decl_views(ps@.subrange(0, j as int), keys(vs@), specificity, important),
            forall|k: int| 0 <= k < start.len() ==> out@[k] == start[k],
            forall|k: int| start.len() <= k < out@.len() ==> (#[trigger] out@[k]).property == ps@[k - start.len()],
    {
        let m = TailwindMapping {
            property: ps[j].clone(),
            variants: clone_variants(vs),
            specificity,
            important,
        };
        let ghost before = out@;
        out.push(m);
        proof {
            lemma_views_push(before, m);
            assert(decl_views(ps@.subrange(0, j + 1), keys(vs@), specificity, important) =~= decl_views(ps@.subrange(0, j as int), keys(vs@), specificity, important).push(mapping_view(m)));
            assert(out@[before.len() as int] == m);
        }
    }
    assert(ps@.subrange(0, ps@.len() as int) =~= ps@);
}

/// Builds, for each class name, the mappings of the rules that target it:
/// by each rule's first selector, the class after its first `.`, with the
/// variants of its `@media` blocks and of a pseudo-class after the class.
pub fn build_rule_map(style_rules: &[RuleWithContext]) -> (r: RuleMap)
    ensures
        r.wf(),
        forall|n: Seq<char>| #[trigger] r.lookup(n) == rule_map_lookup(rwc_views(style_rules@), n),
        (forall|i: int| 0 <= i < style_rules@.len() ==> (#[trigger] style_rules@[i]).rule.wf()) ==> r.props_wf(),
{
    let mut map = RuleMap::new();
    for i in 0..style_rules.len()
        invariant
            map.wf(),
            forall|n: Seq<char>| #[trigger] map.lookup(n) == rule_map_lookup(rwc_views(style_rules@.subrange(0, i as int)), n),
            (forall|k: int| 0 <= k < style_rules@.len() ==> (#[trigger] style_rules@[k]).rule.wf()) ==> map.props_wf(),
    {
        let ghost prefix = rwc_views(style_rules@.subrange(0, i + 1));
        assert(prefix.drop_last() =~= rwc_views(style_rules@.subrange(0, i as int)));
        assert(prefix.last() == rwc_view(style_rules@[i as int]));
        let rc = &style_rules[i];
        if rc.rule.selectors.len() > 0 {
            let sel = &rc.rule.selectors[0];
            let st = chars_of(&sel.text);
            if let Some((name, extra)) = class_of_selector(st.as_slice()) {
                let mut vs = clone_variants(&rc.context_variants);
                match extra {
                    Some(v) => {
                        let ghost k = v.key();
                        let ghost before = vs@;
                        vs.push(v);
                        assert(keys(vs@) =~= keys(before).push(k));
                    },
                    None => {},
                }
                let mut ms: Vec<TailwindMapping> = Vec::new();
                assert(mapping_views(ms@) =~= Seq::empty());
                push_mappings(&rc.rule.declarations.declarations, &vs, sel.specificity, false, &mut ms);
                let ghost half = ms@;
                push_mappings(&rc.rule.declarations.important_declarations, &vs, sel.specificity, true, &mut ms);
                proof {
                    assert(mapping_views(ms@) =~= decl_views(rc.rule.declarations.declarations@, keys(vs@), sel.specificity, false) + decl_views(rc.rule.declarations.important_declarations@, keys(vs@), sel.specificity, true));
                    if forall|k: int| 0 <= k < style_rules@.len() ==> (#[trigger] style_rules@[k]).rule.wf() {
                        assert(style_rules@[i as int].rule.wf());
                        assert forall|k: int| 0 <= k < ms@.len() implies (#[trigger] ms@[k]).property.wf() by {
                            if k < half.len() {
                                assert(ms@[k] == half[k]);
                                assert(half[k].property == rc.rule.declarations.declarations@[k]);
                            } else {
                                assert(ms@[k].property == rc.rule.declarations.important_declarations@[k - half.len()]);
                            }
                        }
                    }
                }
                map.append(string_of(name.as_slice()), ms);
            }
        }
        assert forall|n: Seq<char>| #[trigger] map.lookup(n) == rule_map_lookup(prefix, n) by {}
    }
    assert(style_rules@.subrange(0, style_rules@.len() as int) =~= style_rules@);
    map
}

proof fn lemma_lookup_at(es: Seq<(String, Vec<TailwindMapping>)>, i: int, name: Seq<char>)
    requires
        0 <= i < es.len(),
        es[i].0@ == name,
        forall|a: int, b: int| 0 <= a < b < es.len() ==> #[trigger] es[a].0@ != #[trigger] es[b].0@,
    ensures
        entries_mappings(es, name) == Some(mapping_views(es[i].1@)),
    decreases es.len(),
{
    if i < es.len() - 1 {
        assert(es.last().0@ != name);
        lemma_lookup_at(es.drop_last(), i, name);
    }
}

proof fn lemma_lookup_absent(es: Seq<(String, Vec<TailwindMapping>)>, name: Seq<char>)
    requires
        forall|i: int| 0 <= i < es.len() ==> es[i].0@ != name,
    ensures
        entries_mappings(es, name) is None,
    decreases es.len(),
{
    if es.len() > 0 {
        lemma_lookup_absent(es.drop_last(), name);
    }
}

proof fn lemma_lookup_same(
    es: Seq<(String, Vec<TailwindMapping>)>,
    fs: Seq<(String, Vec<TailwindMapping>)>,
    i: int,
    name: Seq<char>,
)
    requires
        es.len() == fs.len(),
        0 <= i < es.len(),
        es[i].0@ == fs[i].0@,
        es[i].0@ != name,
        forall|k: int| 0 <= k < es.len() && k != i ==> es[k] == fs[k],
    ensures
        entries_mappings(es, name) == entries_mappings(fs, name),
    decreases es.len(),
{
    if es.len() > 0 {
        if es.len() - 1 != i {
            assert(es.last() == fs.last());
        }
        if es.len() - 1 > i {
            lemma_lookup_same(es.drop_last(), fs.drop_last(), i, name);
        } else {
            assert(es.drop_last() =~= fs.drop_last());
        }
    }
}

} // verus!
