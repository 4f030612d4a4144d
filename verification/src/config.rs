//! Configuration: which parser handles which file type, the Tailwind
//! settings, rewrite options and agent output options, with their defaults.

use crate::number::Decimal;
use crate::text::{chars_of, same_text};
use vstd::prelude::*;

verus! {

/// Supported parser types for source file analysis.
#[derive(Debug, Clone, Copy, PartialEq, Eq)]
pub enum ParserType {
    Html,
    Jsx,
    Generic,
    /// Any template fragment (HTML, Blade, Jinja, ...).
    Fragment,
}

/// The entries of the default parser table, in order: HTML, JSX and
/// TypeScript, then the template fragment types.
pub open spec fn default_entries() -> Seq<(Seq<char>, ParserType)> {
    seq![
        ("html"@, ParserType::Html),
        ("js"@, ParserType::Jsx),
        ("jsx"@, ParserType::Jsx),
        ("ts"@, ParserType::Jsx),
        ("tsx"@, ParserType::Jsx),
        ("php"@, ParserType::Fragment),
        ("phtml"@, ParserType::Fragment),
        ("blade.php"@, ParserType::Fragment),
        ("jinja"@, ParserType::Fragment),
        ("j2"@, ParserType::Fragment),
        ("djhtml"@, ParserType::Fragment),
        ("erb"@, ParserType::Fragment),
        ("html.erb"@, ParserType::Fragment),
        ("hbs"@, ParserType::Fragment),
        ("handlebars"@, ParserType::Fragment),
        ("mustache"@, ParserType::Fragment),
        ("gohtml"@, ParserType::Fragment),
        ("tmpl"@, ParserType::Fragment),
        ("cshtml"@, ParserType::Fragment),
        ("vue"@, ParserType::Fragment),
        ("svelte"@, ParserType::Fragment),
        ("lit"@, ParserType::Fragment),
    ]
}

/// The parser that a list of (extension, parser) pairs names for `ext`:
/// the last pair for it.
pub open spec fn pairs_lookup(pairs: Seq<(Seq<char>, ParserType)>, ext: Seq<char>) -> Option<
    ParserType,
>
    decreases pairs.len(),
{
    if pairs.len() == 0 {
        None
    } else if pairs.last().0 == ext {
        Some(pairs.last().1)
    } else {
        pairs_lookup(pairs.drop_last(), ext)
    }
}

/// The parser that the default configuration names for a file extension.
pub open spec fn default_parser_for(ext: Seq<char>) -> Option<ParserType> {
    pairs_lookup(default_entries(), ext)
}

/// A table from file extension to parser; a later entry for an extension
/// replaces an earlier one.
#[derive(Debug, Clone)]
pub struct ParserTable {
    pub entries: Vec<(String, ParserType)>,
}

/// The parser that a list of entries names for `ext`: the last entry for it.
pub open spec fn table_lookup(entries: Seq<(String, ParserType)>, ext: Seq<char>) -> Option<
    ParserType,
>
    decreases entries.len(),
{
    if entries.len() == 0 {
        None
    } else if entries.last().0@ == ext {
        Some(entries.last().1)
    } else {
        table_lookup(entries.drop_last(), ext)
    }
}

/// The entries of a table as plain values.
pub open spec fn entry_views(entries: Seq<(String, ParserType)>) -> Seq<(Seq<char>, ParserType)> {
    entries.map_values(|e: (String, ParserType)| (e.0@, e.1))
}

proof fn lemma_lookup_views(entries: Seq<(String, ParserType)>, ext: Seq<char>)
    ensures
        table_lookup(entries, ext) == pairs_lookup(entry_views(entries), ext),
    decreases entries.len(),
{
    if entries.len() > 0 {
        assert(entry_views(entries).drop_last() =~= entry_views(entries.drop_last()));
        lemma_lookup_views(entries.drop_last(), ext);
    }
}

impl ParserTable {
    pub open spec fn lookup_spec(&self, ext: Seq<char>) -> Option<ParserType> {
        table_lookup(self.entries@, ext)
    }

    /// An empty table.
    pub fn new() -> (r: ParserTable)
        ensures
            forall|e: Seq<char>| r.lookup_spec(e) is None,
    {
        ParserTable { entries: Vec::new() }
    }

    /// Names `parser` for `ext`, replacing what was named for it before.
    pub fn insert(&mut self, ext: String, parser: ParserType)
        ensures
            final(self).lookup_spec(ext@) == Some(parser),
            forall|e: Seq<char>| e != ext@ ==> final(self).lookup_spec(e) == old(self).lookup_spec(e),
    {
        let ghost old_entries = self.entries@;
        self.entries.push((ext, parser));
        assert(self.entries@.drop_last() =~= old_entries);
    }

    /// The parser named for `ext`, if any.
    pub fn get(&self, ext: &str) -> (r: Option<ParserType>)
        ensures
            r == self.lookup_spec(ext@),
    {
        let e = chars_of(ext);
        let mut i = self.entries.len();
        assert(self.entries@.subrange(0, i as int) =~= self.entries@);
        while i > 0
            invariant
                i <= self.entries.len(),
                e@ == ext@,
                self.lookup_spec(ext@) == table_lookup(self.entries@.subrange(0, i as int), ext@),
            decreases i,
        {
            let ghost prefix = self.entries@.subrange(0, i as int);
            assert(prefix.drop_last() =~= self.entries@.subrange(0, i - 1));
            if same_text(&self.entries[i - 1].0, &e) {
                return Some(self.entries[i - 1].1);
            }
            i = i - 1;
        }
        None
    }
}

/// The default parser table: HTML, JSX/TypeScript, and template fragments.
pub fn default_parsers() -> (r: ParserTable)
    ensures
        entry_views(r.entries@) == default_entries(),
        forall|e: Seq<char>| r.lookup_spec(e) == default_parser_for(e),
{
    let mut v: Vec<(String, ParserType)> = Vec::new();
    v.push((String::from_str("html"), ParserType::Html));
    v.push((String::from_str("js"), ParserType::Jsx));
    v.push((String::from_str("jsx"), ParserType::Jsx));
    v.push((String::from_str("ts"), ParserType::Jsx));
    v.push((String::from_str("tsx"), ParserType::Jsx));
    v.push((String::from_str("php"), ParserType::Fragment));
    v.push((String::from_str("phtml"), ParserType::Fragment));
    v.push((String::from_str("blade.php"), ParserType::Fragment));
    v.push((String::from_str("jinja"), ParserType::Fragment));
    v.push((String::from_str("j2"), ParserType::Fragment));
    v.push((String::from_str("djhtml"), ParserType::Fragment));
    v.push((String::from_str("erb"), ParserType::Fragment));
    v.push((String::from_str("html.erb"), ParserType::Fragment));
    v.push((String::from_str("hbs"), ParserType::Fragment));
    v.push((String::from_str("handlebars"), ParserType::Fragment));
    v.push((String::from_str("mustache"), ParserType::Fragment));
    v.push((String::from_str("gohtml"), ParserType::Fragment));
    v.push((String::from_str("tmpl"), ParserType::Fragment));
    v.push((String::from_str("cshtml"), ParserType::Fragment));
    v.push((String::from_str("vue"), ParserType::Fragment));
    v.push((String::from_str("svelte"), ParserType::Fragment));
    v.push((String::from_str("lit"), ParserType::Fragment));
    let r = ParserTable { entries: v };
    assert(entry_views(r.entries@) =~= default_entries());
    proof {
        assert forall|e: Seq<char>| r.lookup_spec(e) == default_parser_for(e) by {
            lemma_lookup_views(r.entries@, e);
        }
    }
    r
}

/// Configuration for Tailwind CSS generation and theme matching.
#[derive(Debug, Clone)]
pub struct TailwindConfig {
    pub version: String,
    pub config_path: Option<String>,
    pub prefer_theme_scale: bool,
    pub allow_arbitrary_values: bool,
    /// How many Tailwind spacing units one `rem` is.
    pub rem_scale: Decimal,
    /// Custom theme entries, name and value.
    pub custom_theme: Vec<(String, String)>,
}

impl TailwindConfig {
    /// The defaults: Tailwind 4, `tailwind.config.js`, theme scale and
    /// arbitrary values on, 4 units per rem, no custom theme.
    pub fn default() -> (r: TailwindConfig)
        ensures
            r.version@ == "4"@,
            r.config_path matches Some(p) && p@ == "tailwind.config.js"@,
            r.prefer_theme_scale,
            r.allow_arbitrary_values,
            r.rem_scale == Decimal::from_int_spec(4),
            r.custom_theme@.len() == 0,
    {
        TailwindConfig {
            version: String::from_str("4"),
            config_path: Some(String::from_str("tailwind.config.js")),
            prefer_theme_scale: true,
            allow_arbitrary_values: true,
            rem_scale: Decimal::from_int(4),
            custom_theme: Vec::new(),
        }
    }
}

/// Configuration for how source files are rewritten.
#[derive(Debug, Clone, Copy)]
pub struct RewriteConfig {
    pub preserve_unknown_css: bool,
    pub remove_converted_css: bool,
    pub sort_tailwind_classes: bool,
    pub migrate_only_existing_classes: bool,
    pub include_tag_selectors: bool,
}

impl RewriteConfig {
    /// The defaults: keep unknown CSS, sort classes, only rewrite existing
    /// class attributes, ignore tag selectors.
    pub fn default() -> (r: RewriteConfig)
        ensures
            r == (RewriteConfig {
                preserve_unknown_css: true,
                remove_converted_css: false,
                sort_tailwind_classes: true,
                migrate_only_existing_classes: true,
                include_tag_selectors: false,
            }),
    {
        RewriteConfig {
            preserve_unknown_css: true,
            remove_converted_css: false,
            sort_tailwind_classes: true,
            migrate_only_existing_classes: true,
            include_tag_selectors: false,
        }
    }
}

/// Configuration for AI agent integration and output size.
#[derive(Debug, Clone, Copy)]
pub struct AgentConfig {
    pub deterministic: bool,
    pub compact: bool,
    pub include_trace: bool,
    pub include_reasons: bool,
}

/// The default of a flag that is on unless said otherwise.
pub fn default_true() -> (r: bool)
    ensures
        r,
{
    true
}

impl AgentConfig {
    /// The defaults: deterministic, compact, no trace, no reasons.
    pub fn default() -> (r: AgentConfig)
        ensures
            r == (AgentConfig {
                deterministic: true,
                compact: true,
                include_trace: false,
                include_reasons: false,
            }),
    {
        AgentConfig {
            deterministic: true,
            compact: default_true(),
            include_trace: false,
            include_reasons: false,
        }
    }
}

/// Main configuration of the converter.
#[derive(Debug, Clone)]
pub struct Config {
    /// Glob patterns of the files to take in.
    pub include_patterns: Vec<String>,
    pub exclude: Vec<String>,
    /// The lowest confidence score at which a replacement is planned.
    pub confidence_threshold: Decimal,
    pub tailwind: TailwindConfig,
    pub rewrite: RewriteConfig,
    pub agent: AgentConfig,
    pub parsers: ParserTable,
}

/// The default confidence threshold, 0.9.
pub fn default_threshold() -> (r: Decimal)
    ensures
        r == (Decimal { negative: false, digits: 9, scale: 1 }),
{
    Decimal::new(9, 1)
}

impl Config {
    /// The default configuration.
    pub fn default() -> (r: Config)
        ensures
            r.include_patterns@.len() == 1,
            r.include_patterns@[0]@ == "src/**/*.{html,js,jsx,ts,tsx,vue,svelte,css}"@,
            r.exclude@.len() == 3,
            r.exclude@[0]@ == "node_modules/**"@,
            r.exclude@[1]@ == "dist/**"@,
            r.exclude@[2]@ == "build/**"@,
            r.confidence_threshold == (Decimal { negative: false, digits: 9, scale: 1 }),
            r.tailwind.version@ == "4"@,
            r.tailwind.config_path matches Some(p) && p@ == "tailwind.config.js"@,
            r.tailwind.prefer_theme_scale,
            r.tailwind.allow_arbitrary_values,
            r.tailwind.rem_scale == Decimal::from_int_spec(4),
            r.tailwind.custom_theme@.len() == 0,
            r.rewrite == (RewriteConfig {
                preserve_unknown_css: true,
                remove_converted_css: false,
                sort_tailwind_classes: true,
                migrate_only_existing_classes: true,
                include_tag_selectors: false,
            }),
            r.agent == (AgentConfig {
                deterministic: true,
                compact: true,
                include_trace: false,
                include_reasons: false,
            }),
            entry_views(r.parsers.entries@) == default_entries(),
            forall|e: Seq<char>| r.parsers.lookup_spec(e) == default_parser_for(e),
    {
        let mut include_patterns = Vec::new();
        include_patterns.push(String::from_str("src/**/*.{html,js,jsx,ts,tsx,vue,svelte,css}"));
        let mut exclude = Vec::new();
        exclude.push(String::from_str("node_modules/**"));
        exclude.push(String::from_str("dist/**"));
        exclude.push(String::from_str("build/**"));
        Config {
            include_patterns,
            exclude,
            confidence_threshold: default_threshold(),
            tailwind: TailwindConfig::default(),
            rewrite: RewriteConfig::default(),
            agent: AgentConfig::default(),
            parsers: default_parsers(),
        }
    }
}

} // verus!
