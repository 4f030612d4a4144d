//! The entry point of a conversion: a source file and stylesheets in,
//! planned replacements or the rewritten text out.

use crate::config::{Config, ParserTable, ParserType};
use crate::css::parser::{
    build_rule_map, css_parses, extract_style_rules, extract_variables, flatten_rules, parse_css,
    plain_rules, rule_map_lookup, rwc_views, sheet_is, variable_entries, ParsedStylesheet, RuleMap,
    RuleWithContext, StyleRule,
};
use crate::error::Css2TwError;
use crate::rewrite::patch::{apply_patches, edits, patch_ok, patched, patches_fit, sort_edits, Replacement};
use crate::rewrite::planner::{plan_edits, ConversionPlanner};
use crate::source::attrs::{class_uses, uses_match};
use crate::source::class_usage::ClassUsage;
use crate::source::fragment_parser::{fragment_classes_ok, fragment_plan_ok, protect_spec, FragmentParser};
use crate::source::generic::GenericRegexParser;
use crate::source::html::{html_plan_ok, HtmlParser};
use crate::source::jsx::{dynamic_report, elements_fit, elements_in, jsx_plan_ok, JsxOpeningElement, JsxParser};
use crate::report::FailureReason;
use crate::source::{ClassUsageParser, SourceFile};
use crate::tailwind::vars::VariableMap;
use vstd::prelude::*;
use vstd::utf8::encode_utf8;

verus! {

/// The index of the last `.` of a text.
pub open spec fn last_dot(p: Seq<char>) -> Option<int>
    decreases p.len(),
{
    if p.len() == 0 {
        None
    } else if p.last() == '.' {
        Some(p.len() - 1)
    } else {
        last_dot(p.drop_last())
    }
}

/// The index of the last `/` of a text.
pub open spec fn last_slash(p: Seq<char>) -> Option<int>
    decreases p.len(),
{
    if p.len() == 0 {
        None
    } else if p.last() == '/' {
        Some(p.len() - 1)
    } else {
        last_slash(p.drop_last())
    }
}

/// The last component of a path split at `/`, repeated separators and
/// `.` components left out (as `Path::components` normalizes them).
pub open spec fn last_segment(p: Seq<char>) -> Option<Seq<char>>
    decreases p.len(),
{
    match last_slash(p) {
        Some(i) => if 0 <= i < p.len() {
            let seg = p.subrange(i + 1, p.len() as int);
            if seg.len() == 0 || seg == "."@ {
                last_segment(p.subrange(0, i))
            } else {
                Some(seg)
            }
        } else {
            None
        },
        None => if p.len() == 0 || p == "."@ {
            None
        } else {
            Some(p)
        },
    }
}

/// A path whose components are the same on every platform: no `\\`
/// (a separator on Windows), no `:` (a drive prefix there), and not
/// beginning with two `/` (a network prefix there).
pub open spec fn portable_path(p: Seq<char>) -> bool {
    &&& !p.contains('\\')
    &&& !p.contains(':')
    &&& !(p.len() >= 2 && p[0] == '/' && p[1] == '/')
}

/// The file name of a portable path (`Path::file_name`): its last
/// component, none when there is none or it is `..`.
pub open spec fn path_file_name(p: Seq<char>) -> Option<Seq<char>> {
    match last_segment(p) {
        Some(n) => if n == ".."@ {
            None
        } else {
            Some(n)
        },
        None => None,
    }
}

/// The extension of a portable path: that of its file name.
pub open spec fn path_extension(p: Seq<char>) -> Option<Seq<char>> {
    match path_file_name(p) {
        Some(n) => name_extension(n),
        None => None,
    }
}

/// The extension of a file name, as `Path::extension` documents it: what
/// follows its last `.`; none when it has no `.` or its only `.` begins it.
pub open spec fn name_extension(p: Seq<char>) -> Option<Seq<char>> {
    match last_dot(p) {
        Some(i) => if i == 0 {
            None
        } else {
            Some(p.subrange(i + 1, p.len() as int))
        },
        None => None,
    }
}

/// The extension as text, empty when there is none.
pub open spec fn ext_text(e: Option<Seq<char>>) -> Seq<char> {
    match e {
        Some(t) => t,
        None => Seq::empty(),
    }
}

/// `std::path::Path::extension` of a path, as text. The standard library
/// documents it as the part of the path's file name after the last `.`,
/// and nothing when the file name has no `.` (or only a leading one), or
/// when there is no file name; the file name is the last component, which
/// `Path::components` finds after normalizing repeated separators and `.`
/// components away. Separators and prefixes differ between platforms, so
/// the result is stated for a path that reads the same on all of them
/// (`portable_path`, `path_extension`); of any other path, only that what
/// comes back holds no `.`, and that a path without any `.` has no
/// extension.
#[verifier::external_body]
fn file_extension(path: &str) -> (r: Option<String>)
    ensures
        r matches Some(e) ==> !e@.contains('.'),
        !path@.contains('.') ==> r is None,
        portable_path(path@) ==> match r {
            Some(e) => path_extension(path@) == Some(e@),
            None => path_extension(path@) is None,
        },
{
    std::path::Path::new(path).extension().and_then(|e| e.to_str()).map(|e| e.to_string())
}

/// What is stated of the extension `ext` that planning reads of a path
/// (empty for none): that of `path_extension` for a portable path, empty
/// for a path without `.`.
pub open spec fn path_ext_ok(path: Seq<char>, ext: Seq<char>) -> bool {
    &&& (portable_path(path) ==> ext == ext_text(path_extension(path)))
    &&& (!path.contains('.') ==> ext.len() == 0)
}

/// The parser that a table names for the extension `ext`; the generic one
/// when it names none.
pub open spec fn parser_choice(parsers: ParserTable, ext: Seq<char>) -> ParserType {
    match parsers.lookup_spec(ext) {
        Some(p) => p,
        None => ParserType::Generic,
    }
}

/// What planning with the parser `p` gives for the rules `rules`:
/// - HTML: the document's elements resolved against the rules and planned
///   as `html_steps` says, then the reports of class bindings
///   (`html_plan_ok`);
/// - JSX: the edits of `jsx_edits` for the opening elements `jsx`, each
///   class literal resolved as its element (`jsx_plan_ok`), when the
///   elements belong to the source text (`elements_in`); nothing otherwise;
/// - template fragments: the steps of `fragment_steps` for the elements of
///   the protected text (`fragment_plan_ok`), or nothing when a class
///   attribute holds a truncated placeholder;
/// - any other file: the uses of classes in `class="..."` and
///   `className="..."` attributes, each replaced as the planner says with
///   the class map and the CSS variables of the rules.
pub open spec fn planned_by(
    c: Config,
    p: ParserType,
    source: SourceFile,
    rules: Seq<RuleWithContext>,
    jsx: Seq<JsxOpeningElement>,
    v: Seq<Replacement>,
) -> bool {
    let s = source.content@;
    match p {
        ParserType::Html => html_plan_ok(s, rules, c.rewrite.include_tag_selectors, c.tailwind.rem_scale, v, c.rewrite.migrate_only_existing_classes),
        ParserType::Jsx => if elements_in(encode_utf8(s), jsx) {
            jsx_plan_ok(jsx, rules, c.rewrite.include_tag_selectors, c.tailwind.rem_scale, v, c.rewrite.migrate_only_existing_classes)
        } else {
            v.len() == 0
        },
        ParserType::Fragment => if fragment_classes_ok(protect_spec(s).0) {
            fragment_plan_ok(s, rules, c.rewrite.include_tag_selectors, c.tailwind.rem_scale, v)
        } else {
            v.len() == 0
        },
        ParserType::Generic => exists|classes: Seq<ClassUsage>, rm: RuleMap, vm: VariableMap| {
            &&& uses_match(s, classes, class_uses(s, true, true))
            &&& rm.wf()
            &&& forall|n: Seq<char>| #[trigger] rm.lookup(n) == rule_map_lookup(rwc_views(rules), n)
            &&& vm.pairs() == variable_entries(plain_rules(rules))
            &&& edits(v) == plan_edits(classes, rm, vm, c.tailwind.rem_scale, c.confidence_threshold)
        },
    }
}

/// The stylesheets that the texts give, in order: one for each text that
/// parses (`css_parses`), read as `sheet_is` says; the others give none.
pub open spec fn sheets_of(texts: Seq<Seq<char>>, sheets: Seq<ParsedStylesheet>) -> bool
    decreases texts.len(),
{
    if texts.len() == 0 {
        sheets.len() == 0
    } else if css_parses(texts.last()) {
        &&& sheets.len() > 0
        &&& sheet_is(sheets.last(), texts.last())
        &&& sheets_of(texts.drop_last(), sheets.drop_last())
    } else {
        sheets_of(texts.drop_last(), sheets)
    }
}

/// The style rules of the stylesheets, in order, as `extract_style_rules`
/// reads each.
pub open spec fn sheets_rules(sheets: Seq<ParsedStylesheet>) -> Seq<(StyleRule, Seq<(int, Seq<char>)>)>
    decreases sheets.len(),
{
    if sheets.len() == 0 {
        Seq::empty()
    } else {
        sheets_rules(sheets.drop_last()) + flatten_rules(sheets.last().rules@, Seq::empty())
    }
}

/// What `plan_file` gives: the planning, with the parser of the path's
/// extension (as far as `file_extension` states it), over the style rules
/// of the stylesheets that the texts `css` give.
pub open spec fn file_plan(
    c: Config,
    source: SourceFile,
    css: Seq<Seq<char>>,
    jsx: Seq<JsxOpeningElement>,
    v: Seq<Replacement>,
) -> bool {
    exists|ext: Seq<char>, sheets: Seq<ParsedStylesheet>, rules: Seq<RuleWithContext>| {
        &&& path_ext_ok(source.path@, ext)
        &&& sheets_of(css, sheets)
        &&& rwc_views(rules) == sheets_rules(sheets)
        &&& forall|i: int| 0 <= i < rules.len() ==> (#[trigger] rules[i]).rule.wf()
        &&& planned_by(c, parser_choice(c.parsers, ext), source, rules, jsx, v)
    }
}

/// The replacements that convert something: those with a non-empty new
/// text, in order. The others (no mapping, dynamic classes) are reported,
/// not applied.
pub open spec fn convertible(v: Seq<Replacement>) -> Seq<Replacement>
    decreases v.len(),
{
    if v.len() == 0 {
        Seq::empty()
    } else if v.last().after@.len() > 0 {
        convertible(v.drop_last()).push(v.last())
    } else {
        convertible(v.drop_last())
    }
}

/// Reports are never applied: every replacement that a conversion applies
/// (`convertible`) has a new text, so none of them is the report of a
/// dynamic class expression (`dynamic_report`), which rewrites nothing.
pub proof fn law_reports_not_applied(v: Seq<Replacement>, start: usize, end: usize, msg: Seq<char>, reason: FailureReason)
    ensures
        forall|k: int| 0 <= k < convertible(v).len() ==> (#[trigger] convertible(v)[k]).after@.len() > 0
            && !dynamic_report(convertible(v)[k], start, end, msg, reason),
    decreases v.len(),
{
    if v.len() > 0 {
        law_reports_not_applied(v.drop_last(), start, end, msg, reason);
        let c = convertible(v.drop_last());
        if v.last().after@.len() > 0 {
            assert forall|k: int| 0 <= k < convertible(v).len() implies (#[trigger] convertible(v)[k]).after@.len() > 0
                && !dynamic_report(convertible(v)[k], start, end, msg, reason) by {
                if k < c.len() {
                    assert(convertible(v)[k] == c[k]);
                }
            }
        }
    }
}

/// The replacements that convert something, as `convertible` says.
pub fn convertible_replacements(v: Vec<Replacement>) -> (r: Vec<Replacement>)
    ensures
        r@ == convertible(v@),
{
    let ghost all = v@;
    let mut rest = v;
    let mut out: Vec<Replacement> = Vec::new();
    let ghost mut i: int = 0;
    assert(rest@ =~= all.subrange(0, all.len() as int));
    assert(all.subrange(0, 0) =~= Seq::<Replacement>::empty());
    while rest.len() > 0
        invariant
            0 <= i <= all.len(),
            rest@ == all.subrange(i, all.len() as int),
            out@ == convertible(all.subrange(0, i)),
        decreases rest@.len(),
    {
        let x = rest.remove(0);
        proof {
            assert(x == all[i]);
            assert(all.subrange(0, i + 1).drop_last() =~= all.subrange(0, i));
            assert(all.subrange(0, i + 1).last() == x);
        }
        if x.after.unicode_len() > 0 {
            out.push(x);
        }
        proof {
            i = i + 1;
            assert(rest@ =~= all.subrange(i, all.len() as int));
        }
    }
    assert(all.subrange(0, all.len() as int) =~= all);
    out
}

/// The main entry point for CSS to Tailwind conversion.
pub struct Converter {
    pub config: Config,
}

impl Converter {
    /// The numbers of the configuration are well formed.
    pub open spec fn wf(&self) -> bool {
        self.config.tailwind.rem_scale.wf() && self.config.confidence_threshold.wf()
    }

    /// A converter with the given configuration.
    pub fn new(config: Config) -> (r: Converter)
        ensures
            r.config == config,
    {
        Converter { config }
    }

    /// The parser for a file extension (`""` for none): the one the
    /// configuration names for it, else the generic one.
    pub fn parser_for(&self, ext: &str) -> (r: ParserType)
        ensures
            r == parser_choice(self.config.parsers, ext@),
    {
        match self.config.parsers.get(ext) {
            Some(p) => p,
            None => ParserType::Generic,
        }
    }

    /// Plans the replacements of a source file with the parser `parser`
    /// over the style rules, as `planned_by` says. A planning error gives no
    /// replacements.
    pub fn plan_rules(
        &self,
        parser: ParserType,
        source: &SourceFile,
        style_rules: &[RuleWithContext],
        jsx_elements: &[JsxOpeningElement],
    ) -> (r: Vec<Replacement>)
        requires
            self.wf(),
            forall|i: int| 0 <= i < style_rules@.len() ==> (#[trigger] style_rules@[i]).rule.wf(),
        ensures
            planned_by(self.config, parser, *source, style_rules@, jsx_elements@, r@),
    {
        let rem = &self.config.tailwind.rem_scale;
        let mo = self.config.rewrite.migrate_only_existing_classes;
        let it = self.config.rewrite.include_tag_selectors;
        match parser {
            ParserType::Html => {
                let p = HtmlParser;
                match p.plan_html(source, style_rules, rem, mo, it) {
                    Ok(v) => v,
                    Err(_) => Vec::new(),
                }
            },
            ParserType::Jsx => {
                if elements_fit(source.content.as_str(), jsx_elements) {
                    let p = JsxParser;
                    match p.plan_jsx(jsx_elements, style_rules, rem, mo, it) {
                        Ok(v) => v,
                        Err(_) => Vec::new(),
                    }
                } else {
                    Vec::new()
                }
            },
            ParserType::Fragment => {
                let p = FragmentParser;
                match p.plan_fragment(source, style_rules, rem, it) {
                    Ok(v) => v,
                    Err(_) => Vec::new(),
                }
            },
            ParserType::Generic => {
                let p = GenericRegexParser;
                let classes = match p.extract_classes(source) {
                    Ok(c) => c,
                    Err(_) => Vec::new(),
                };
                let rule_map = build_rule_map(style_rules);
                let variable_map = extract_variables(style_rules);
                let v = match ConversionPlanner::plan(
                    classes.as_slice(),
                    &rule_map,
                    &variable_map,
                    rem,
                    &self.config.confidence_threshold,
                ) {
                    Ok(v) => v,
                    Err(_) => Vec::new(),
                };
                proof {
                    let s = source.content@;
                    assert(uses_match(s, classes@, class_uses(s, true, true)));
                    assert(edits(v@) == plan_edits(classes@, rule_map, variable_map, *rem, self.config.confidence_threshold));
                }
                v
            },
        }
    }

    /// Plans the replacements of a source file: the stylesheets that parse
    /// are read (the others are passed over), and the file is planned with
    /// the parser for its extension, as `file_plan` says; `jsx_elements` are
    /// the opening elements of a JSX file.
    pub fn plan_file(
        &self,
        source: &SourceFile,
        css_contents: &[String],
        jsx_elements: &[JsxOpeningElement],
    ) -> (r: Result<Vec<Replacement>, Css2TwError>)
        requires
            self.wf(),
        ensures
            r matches Ok(v) && file_plan(self.config, *source, css_contents@.map_values(|t: String| t@), jsx_elements@, v@),
    {
        let ghost texts = css_contents@.map_values(|t: String| t@);
        let mut sheets: Vec<ParsedStylesheet> = Vec::new();
        assert(texts.subrange(0, 0) =~= Seq::<Seq<char>>::empty());
        for i in 0..css_contents.len()
            invariant
                texts == css_contents@.map_values(|t: String| t@),
                forall|k: int| 0 <= k < sheets@.len() ==> (#[trigger] sheets@[k]).wf(),
                sheets_of(texts.subrange(0, i as int), sheets@),
        {
            proof {
                assert(texts.subrange(0, i + 1).drop_last() =~= texts.subrange(0, i as int));
                assert(texts.subrange(0, i + 1).last() == css_contents@[i as int]@);
            }
            let ghost before = sheets@;
            match parse_css(css_contents[i].as_str()) {
                Ok(s) => {
                    sheets.push(s);
                    assert(sheets@.drop_last() =~= before);
                },
                Err(_) => {},
            }
        }
        assert(texts.subrange(0, css_contents@.len() as int) =~= texts);
        let mut rules: Vec<RuleWithContext> = Vec::new();
        assert(rwc_views(rules@) =~= sheets_rules(sheets@.subrange(0, 0)));
        for i in 0..sheets.len()
            invariant
                forall|k: int| 0 <= k < sheets@.len() ==> (#[trigger] sheets@[k]).wf(),
                forall|k: int| 0 <= k < rules@.len() ==> (#[trigger] rules@[k]).rule.wf(),
                rwc_views(rules@) == sheets_rules(sheets@.subrange(0, i as int)),
        {
            let mut more = extract_style_rules(&sheets[i]);
            let ghost before = rules@;
            let ghost added = more@;
            rules.append(&mut more);
            assert forall|k: int| 0 <= k < rules@.len() implies (#[trigger] rules@[k]).rule.wf() by {
                if k < before.len() {
                    assert(rules@[k] == before[k]);
                } else {
                    assert(rules@[k] == added[k - before.len()]);
                }
            }
            proof {
                assert(sheets@.subrange(0, i + 1).drop_last() =~= sheets@.subrange(0, i as int));
                assert(rules@ =~= before + added);
                assert(rwc_views(rules@) =~= rwc_views(before) + rwc_views(added));
            }
        }
        assert(sheets@.subrange(0, sheets@.len() as int) =~= sheets@);
        let parser = self.parser_for_path(source.path.as_str());
        let ghost ext = choose|ext: Seq<char>| path_ext_ok(source.path@, ext) && parser == parser_choice(self.config.parsers, ext);
        let v = self.plan_rules(parser, source, rules.as_slice(), jsx_elements);
        assert(planned_by(self.config, parser_choice(self.config.parsers, ext), *source, rules@, jsx_elements@, v@));
        assert(sheets_of(texts, sheets@));
        Ok(v)
    }

    /// The parser that planning uses for a file at `path`: the one the
    /// configuration names for the path's extension (`file_extension`), or
    /// the generic one (see `path_ext_ok` for what is stated of the
    /// extension).
    pub fn parser_for_path(&self, path: &str) -> (r: ParserType)
        ensures
            exists|ext: Seq<char>| path_ext_ok(path@, ext) && r == parser_choice(self.config.parsers, ext),
            portable_path(path@) ==> r == parser_choice(self.config.parsers, ext_text(path_extension(path@))),
            !path@.contains('.') ==> r == parser_choice(self.config.parsers, Seq::empty()),
    {
        let ext = match file_extension(path) {
            Some(e) => e,
            None => String::new(),
        };
        let r = self.parser_for(ext.as_str());
        assert(path_ext_ok(path@, ext@));
        r
    }

    /// Converts a source file: plans it (see `plan_file`) and applies the
    /// replacements that convert something (see `convertible` and
    /// `apply_patches`); the others are left for the report. Replacements
    /// whose spans do not fall on character boundaries of the text give
    /// `Internal`.
    pub fn convert_file(
        &self,
        source: &SourceFile,
        css_contents: &[String],
        jsx_elements: &[JsxOpeningElement],
    ) -> (r: Result<String, Css2TwError>)
        requires
            self.wf(),
        ensures
            match r {
                Ok(s) => exists|v: Seq<Replacement>| {
                    &&& file_plan(self.config, *source, css_contents@.map_values(|t: String| t@), jsx_elements@, v)
                    &&& patch_ok(encode_utf8(source.content@), sort_edits(edits(convertible(v))))
                    &&& encode_utf8(s@) == patched(encode_utf8(source.content@), sort_edits(edits(convertible(v))))
                },
                Err(e) => e is Internal && exists|v: Seq<Replacement>| {
                    &&& file_plan(self.config, *source, css_contents@.map_values(|t: String| t@), jsx_elements@, v)
                    &&& !patch_ok(encode_utf8(source.content@), sort_edits(edits(convertible(v))))
                },
            },
    {
        let planned = match self.plan_file(source, css_contents, jsx_elements) {
            Ok(v) => v,
            Err(e) => return Err(e),
        };
        let ghost pv = planned@;
        assert(file_plan(self.config, *source, css_contents@.map_values(|t: String| t@), jsx_elements@, pv));
        let v = convertible_replacements(planned);
        if patches_fit(source.content.as_str(), v.as_slice()) {
            let s = apply_patches(source.content.as_str(), v.as_slice());
            Ok(s)
        } else {
            Err(Css2TwError::Internal(String::from_str("a replacement does not fall on character boundaries of the source")))
        }
    }
}

} // verus!
