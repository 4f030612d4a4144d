//! The decisions of a migration run: its mode and what it is called, the
//! custom theme given as `key=value` pairs, and what each planned file adds
//! to the report.

use crate::config::AgentConfig;
use crate::converter::convertible;
use crate::css::classes::{join_chars, join_with};
use crate::number::Decimal;
use crate::report::{
    ChangeFile, ConfidenceReport, Diagnostic, FailureReason, Patch, RangeReport, Report, ReplacementReport,
    Summary, Unconverted,
};
use crate::rewrite::diff::{generate_diff, unified_hunks};
use crate::rewrite::patch::{apply_patches, edit_of, edits, patch_ok, patched, patches_fit, sort_edits};
use crate::source::class_usage::Span;
use crate::source::SourceFile;
use crate::text::push_str;
use vstd::utf8::encode_utf8;
use crate::css::parser::{RuleMap, TailwindMapping};
use crate::rewrite::patch::Replacement;
use crate::rewrite::planner::{explained, lemma_decay_bounds, planned, var_decls, ConversionPlanner};
use crate::tailwind::vars::VariableMap;
use crate::text::{chars_of, eq_chars, index_of, index_of_char, slice_chars, string_of};
use vstd::prelude::*;

verus! {

/// What a run does: scan (read only), plan without writing, or write.
#[derive(Debug, Clone, Copy, PartialEq, Eq)]
pub enum RunMode {
    ReadOnly,
    DryRun,
    Write,
}

impl RunMode {
    pub open spec fn name_spec(self) -> Seq<char> {
        match self {
            RunMode::ReadOnly => "read_only"@,
            RunMode::DryRun => "dry_run"@,
            RunMode::Write => "write"@,
        }
    }

    /// The mode's name in reports: `read_only`, `dry_run` or `write`.
    pub fn name(&self) -> (r: String)
        ensures
            r@ == self.name_spec(),
    {
        match self {
            RunMode::ReadOnly => String::from_str("read_only"),
            RunMode::DryRun => String::from_str("dry_run"),
            RunMode::Write => String::from_str("write"),
        }
    }

    pub open spec fn command_spec(self) -> Seq<char> {
        match self {
            RunMode::ReadOnly => "scan"@,
            _ => "convert"@,
        }
    }

    /// The command that runs in this mode: `scan` or `convert`.
    pub fn command(&self) -> (r: String)
        ensures
            r@ == self.command_spec(),
    {
        match self {
            RunMode::ReadOnly => String::from_str("scan"),
            _ => String::from_str("convert"),
        }
    }

    /// The mode of `convert`: writing when asked to and not asked for a dry
    /// run, else a dry run.
    pub fn for_convert(write: bool, dry_run: bool) -> (r: RunMode)
        ensures
            r == (if write && !dry_run {
                RunMode::Write
            } else {
                RunMode::DryRun
            }),
    {
        if write && !dry_run {
            RunMode::Write
        } else {
            RunMode::DryRun
        }
    }

    pub open spec fn status_spec(self, is_stdin: bool) -> Seq<char> {
        if is_stdin {
            "streamed"@
        } else {
            match self {
                RunMode::ReadOnly => "found"@,
                RunMode::DryRun => "planned"@,
                RunMode::Write => "modified"@,
            }
        }
    }

    /// The status of a file with replacements: `streamed` when read from
    /// standard input, else `found`, `planned` or `modified` by mode.
    pub fn file_status(&self, is_stdin: bool) -> (r: String)
        ensures
            r@ == self.status_spec(is_stdin),
    {
        if is_stdin {
            String::from_str("streamed")
        } else {
            match self {
                RunMode::ReadOnly => String::from_str("found"),
                RunMode::DryRun => String::from_str("planned"),
                RunMode::Write => String::from_str("modified"),
            }
        }
    }
}

/// Whether the patched text of a file is written back: in write mode, and
/// only for a file that was not read from standard input.
pub open spec fn writes_file_spec(mode: RunMode, is_stdin: bool) -> bool {
    mode is Write && !is_stdin
}

/// Whether the patched text of a file is written back, as
/// `writes_file_spec` says.
pub fn writes_file(mode: RunMode, is_stdin: bool) -> (r: bool)
    ensures
        r == writes_file_spec(mode, is_stdin),
{
    match mode {
        RunMode::Write => !is_stdin,
        _ => false,
    }
}

/// Whether the patched text of a file with replacements is made: when it
/// is asked for in the report, when a diff is asked for, or in write mode.
pub fn needs_patched(mode: RunMode, include_patched: bool, diff: bool) -> (r: bool)
    ensures
        r == (include_patched || mode is Write || diff),
{
    include_patched || diff || match mode {
        RunMode::Write => true,
        _ => false,
    }
}

/// Whether a file's changes go into the detailed report: when no file
/// filter is given, or when the filter names the file's path.
pub open spec fn reported_spec(file_only: Seq<String>, path: Seq<char>) -> bool {
    file_only.len() == 0 || exists|i: int| 0 <= i < file_only.len() && (#[trigger] file_only[i])@ == path
}

/// Whether a file's changes go into the detailed report, as
/// `reported_spec` says.
pub fn reported_file(file_only: &[String], path: &str) -> (r: bool)
    ensures
        r == reported_spec(file_only@, path@),
{
    if file_only.len() == 0 {
        return true;
    }
    let p = chars_of(path);
    for i in 0..file_only.len()
        invariant
            p@ == path@,
            forall|k: int| 0 <= k < i ==> (#[trigger] file_only@[k])@ != path@,
    {
        let f = chars_of(file_only[i].as_str());
        if eq_chars(f.as_slice(), p.as_slice()) {
            return true;
        }
    }
    false
}

/// Keeps only the summary of a report, as `--summary-only` asks: the
/// detailed changes and unconverted classes are dropped; the rest stays.
pub fn keep_summary_only(report: &mut Report)
    ensures
        final(report).changes@.len() == 0,
        final(report).unconverted@.len() == 0,
        final(report).version == old(report).version,
        final(report).command == old(report).command,
        final(report).mode == old(report).mode,
        final(report).summary == old(report).summary,
        final(report).warnings == old(report).warnings,
        final(report).errors == old(report).errors,
{
    report.changes = Vec::new();
    report.unconverted = Vec::new();
}

/// An empty report of a run in `mode` by the tool's `version`.
pub fn new_report(version: String, mode: RunMode) -> (r: Report)
    ensures
        r.version == version,
        r.command@ == mode.command_spec(),
        r.mode@ == mode.name_spec(),
        r.summary == Summary::zero_spec(),
        r.changes@.len() == 0,
        r.unconverted@.len() == 0,
        r.warnings@.len() == 0,
        r.errors@.len() == 0,
{
    Report {
        version,
        command: mode.command(),
        mode: mode.name(),
        summary: Summary::zero(),
        changes: Vec::new(),
        unconverted: Vec::new(),
        warnings: Vec::new(),
        errors: Vec::new(),
    }
}

/// A `key=value` pair, split at its first `=`; nothing without one.
pub open spec fn theme_pair(s: Seq<char>) -> Option<(Seq<char>, Seq<char>)> {
    match index_of(s, '=') {
        Some(i) => Some((s.subrange(0, i), s.subrange(i + 1, s.len() as int))),
        None => None,
    }
}

/// The pairs of a list of `key=value` texts, in order; texts without `=`
/// are left out.
pub open spec fn theme_pairs(ps: Seq<Seq<char>>) -> Seq<(Seq<char>, Seq<char>)>
    decreases ps.len(),
{
    if ps.len() == 0 {
        Seq::empty()
    } else {
        theme_pairs(ps.drop_last()) + match theme_pair(ps.last()) {
            Some(p) => seq![p],
            None => Seq::empty(),
        }
    }
}

/// The custom theme entries of `key=value` texts, as `theme_pairs` says.
pub fn parse_custom_theme(pairs: &[String]) -> (r: Vec<(String, String)>)
    ensures
        r@.map_values(|e: (String, String)| (e.0@, e.1@)) == theme_pairs(pairs@.map_values(|s: String| s@)),
{
    let ghost ps = pairs@.map_values(|s: String| s@);
    let mut out: Vec<(String, String)> = Vec::new();
    assert(ps.subrange(0, 0) =~= Seq::<Seq<char>>::empty());
    assert(out@.map_values(|e: (String, String)| (e.0@, e.1@)) =~= Seq::<(Seq<char>, Seq<char>)>::empty());
    for i in 0..pairs.len()
        invariant
            ps == pairs@.map_values(|s: String| s@),
            out@.map_values(|e: (String, String)| (e.0@, e.1@)) == theme_pairs(ps.subrange(0, i as int)),
    {
        proof {
            assert(ps.subrange(0, i + 1).drop_last() =~= ps.subrange(0, i as int));
            assert(ps.subrange(0, i + 1).last() == pairs@[i as int]@);
        }
        let c = chars_of(pairs[i].as_str());
        let ghost before = out@;
        match index_of_char(c.as_slice(), '=') {
            Some(k) => {
                assert(k < c@.len());
                let cl = c.len();
                assert(k < cl);
                let key = slice_chars(c.as_slice(), 0, k);
                let value = slice_chars(c.as_slice(), k + 1, cl);
                out.push((string_of(key.as_slice()), string_of(value.as_slice())));
                assert(out@.map_values(|e: (String, String)| (e.0@, e.1@)) =~= before.map_values(|e: (String, String)| (e.0@, e.1@)).push(
                    (c@.subrange(0, k as int), c@.subrange(k + 1, c@.len() as int)),
                ));
            },
            None => {},
        }
    }
    assert(ps.subrange(0, pairs@.len() as int) =~= ps);
    out
}

/// The replacements that convert nothing (an empty new text), in order.
pub open spec fn unconvertible(v: Seq<Replacement>) -> Seq<Replacement>
    decreases v.len(),
{
    if v.len() == 0 {
        Seq::empty()
    } else if v.last().after@.len() == 0 {
        unconvertible(v.drop_last()).push(v.last())
    } else {
        unconvertible(v.drop_last())
    }
}

/// How a replacement that converts something is reported: its range, texts,
/// confidence and raw CSS, its reasons and trace only where the agent
/// configuration asks for them.
pub open spec fn reports(p: ReplacementReport, r: Replacement, agent: AgentConfig) -> bool {
    &&& p.range == (RangeReport { start_byte: r.span.start, end_byte: r.span.end })
    &&& p.before == r.before
    &&& p.after == r.after
    &&& p.confidence == r.confidence
    &&& p.source_selector@.len() == 0
    &&& p.reasons@ == (if agent.include_reasons { r.reasons@ } else { Seq::empty() })
    &&& p.trace@ == (if agent.include_trace { r.trace@ } else { Seq::empty() })
    &&& p.raw_css == r.raw_css
    &&& p.suggestion == r.suggestion
    &&& p.diagnostics@.len() == 0
}

/// How a replacement that converts nothing is reported: its old text as the
/// selector, its failure reason (`NoMappingFound` when it has none), its
/// trace joined with `; ` as details, its confidence, range, raw CSS and
/// suggestion, and its diagnostics where asked for.
pub open spec fn reports_unconverted(u: Unconverted, r: Replacement, with_diagnostics: bool) -> bool {
    &&& u.selector == r.before
    &&& u.reason == (match r.failure_reason {
        Some(f) => f,
        None => FailureReason::NoMappingFound,
    })
    &&& u.details@ == join_with(r.trace@.map_values(|t: String| t@), "; "@)
    &&& u.confidence == r.confidence.score
    &&& u.range == Some(RangeReport { start_byte: r.span.start, end_byte: r.span.end })
    &&& u.raw_css == r.raw_css
    &&& u.suggestion == r.suggestion
    &&& u.diagnostics@ == (if with_diagnostics { r.diagnostics@ } else { Seq::empty() })
}

fn join_trace(trace: &Vec<String>) -> (r: String)
    ensures
        r@ == join_with(trace@.map_values(|t: String| t@), "; "@),
{
    let mut l: Vec<Vec<char>> = Vec::new();
    for i in 0..trace.len()
        invariant
            l@.map_values(|v: Vec<char>| v@) == trace@.subrange(0, i as int).map_values(|t: String| t@),
    {
        let ghost before = l@;
        let c = chars_of(trace[i].as_str());
        let ghost cv = c@;
        l.push(c);
        assert(l@.map_values(|v: Vec<char>| v@) =~= before.map_values(|v: Vec<char>| v@).push(cv));
        assert(trace@.subrange(0, i + 1).map_values(|t: String| t@) =~= trace@.subrange(0, i as int).map_values(|t: String| t@).push(trace@[i as int]@));
    }
    assert(trace@.subrange(0, trace@.len() as int) =~= trace@);
    let j = join_chars(&l, "; ");
    string_of(j.as_slice())
}

/// Records the replacements of a file in a report: each one that converts
/// something becomes a reported patch (returned, in order) and counts as
/// convertible and planned; each other one is added to `unconverted`, in
/// order, and counts as unconvertible. The other counts are kept.
pub fn record_replacements(
    summary: &mut Summary,
    unconverted: &mut Vec<Unconverted>,
    reps: Vec<Replacement>,
    agent: &AgentConfig,
    with_diagnostics: bool,
) -> (r: Vec<ReplacementReport>)
    requires
        old(summary).classes_convertible + reps@.len() <= usize::MAX,
        old(summary).replacements_planned + reps@.len() <= usize::MAX,
        old(summary).classes_unconvertible + reps@.len() <= usize::MAX,
    ensures
        r@.len() == convertible(reps@).len(),
        forall|i: int| 0 <= i < r@.len() ==> reports(#[trigger] r@[i], convertible(reps@)[i], *agent),
        final(unconverted)@.len() == old(unconverted)@.len() + unconvertible(reps@).len(),
        forall|i: int| 0 <= i < old(unconverted)@.len() ==> final(unconverted)@[i] == old(unconverted)@[i],
        forall|j: int| 0 <= j < unconvertible(reps@).len() ==> reports_unconverted(
            #[trigger] final(unconverted)@[old(unconverted)@.len() + j],
            unconvertible(reps@)[j],
            with_diagnostics,
        ),
        final(summary).classes_convertible == old(summary).classes_convertible + convertible(reps@).len(),
        final(summary).replacements_planned == old(summary).replacements_planned + convertible(reps@).len(),
        final(summary).classes_unconvertible == old(summary).classes_unconvertible + unconvertible(reps@).len(),
        final(summary).files_scanned == old(summary).files_scanned,
        final(summary).css_files_scanned == old(summary).css_files_scanned,
        final(summary).source_files_scanned == old(summary).source_files_scanned,
        final(summary).classes_found == old(summary).classes_found,
        final(summary).classes_partially_convertible == old(summary).classes_partially_convertible,
        final(summary).files_changed == old(summary).files_changed,
        final(summary).warnings == old(summary).warnings,
        final(summary).errors == old(summary).errors,
{
    let ghost all = reps@;
    let ghost s0 = *summary;
    let ghost u0 = unconverted@;
    let mut rest = reps;
    let mut out: Vec<ReplacementReport> = Vec::new();
    let ghost mut i: int = 0;
    assert(rest@ =~= all.subrange(0, all.len() as int));
    assert(all.subrange(0, 0) =~= Seq::<Replacement>::empty());
    while rest.len() > 0
        invariant
            0 <= i <= all.len(),
            rest@ == all.subrange(i, all.len() as int),
            s0.classes_convertible + all.len() <= usize::MAX,
            s0.replacements_planned + all.len() <= usize::MAX,
            s0.classes_unconvertible + all.len() <= usize::MAX,
            convertible(all.subrange(0, i)).len() + unconvertible(all.subrange(0, i)).len() == i,
            out@.len() == convertible(all.subrange(0, i)).len(),
            forall|t: int| 0 <= t < out@.len() ==> reports(#[trigger] out@[t], convertible(all.subrange(0, i))[t], *agent),
            unconverted@.len() == u0.len() + unconvertible(all.subrange(0, i)).len(),
            forall|t: int| 0 <= t < u0.len() ==> unconverted@[t] == u0[t],
            forall|j: int| 0 <= j < unconvertible(all.subrange(0, i)).len() ==> reports_unconverted(
                #[trigger] unconverted@[u0.len() + j],
                unconvertible(all.subrange(0, i))[j],
                with_diagnostics,
            ),
            summary.classes_convertible == s0.classes_convertible + convertible(all.subrange(0, i)).len(),
            summary.replacements_planned == s0.replacements_planned + convertible(all.subrange(0, i)).len(),
            summary.classes_unconvertible == s0.classes_unconvertible + unconvertible(all.subrange(0, i)).len(),
            summary.files_scanned == s0.files_scanned,
            summary.css_files_scanned == s0.css_files_scanned,
            summary.source_files_scanned == s0.source_files_scanned,
            summary.classes_found == s0.classes_found,
            summary.classes_partially_convertible == s0.classes_partially_convertible,
            summary.files_changed == s0.files_changed,
            summary.warnings == s0.warnings,
            summary.errors == s0.errors,
        decreases rest@.len(),
    {
        let x = rest.remove(0);
        let ghost pre = all.subrange(0, i);
        proof {
            assert(x == all[i]);
            assert(all.subrange(0, i + 1).drop_last() =~= pre);
            assert(all.subrange(0, i + 1).last() == x);
        }
        if x.after.unicode_len() > 0 {
            let ghost xv = x;
            let p = ReplacementReport {
                range: RangeReport { start_byte: x.span.start, end_byte: x.span.end },
                before: x.before,
                after: x.after,
                confidence: x.confidence,
                source_selector: String::new(),
                reasons: if agent.include_reasons { x.reasons } else { Vec::new() },
                trace: if agent.include_trace { x.trace } else { Vec::new() },
                raw_css: x.raw_css,
                suggestion: x.suggestion,
                diagnostics: Vec::new(),
            };
            let ghost before = out@;
            out.push(p);
            summary.classes_convertible = summary.classes_convertible + 1;
            summary.replacements_planned = summary.replacements_planned + 1;
            proof {
                assert(convertible(all.subrange(0, i + 1)) == convertible(pre).push(xv));
                assert(unconvertible(all.subrange(0, i + 1)) == unconvertible(pre));
                assert forall|t: int| 0 <= t < out@.len() implies reports(#[trigger] out@[t], convertible(all.subrange(0, i + 1))[t], *agent) by {
                    if t < before.len() {
                        assert(out@[t] == before[t]);
                    }
                }
            }
        } else {
            let ghost xv = x;
            let details = join_trace(&x.trace);
            let u = Unconverted {
                selector: x.before,
                reason: match x.failure_reason {
                    Some(f) => f,
                    None => FailureReason::NoMappingFound,
                },
                details,
                confidence: x.confidence.score,
                range: Some(RangeReport { start_byte: x.span.start, end_byte: x.span.end }),
                raw_css: x.raw_css,
                suggestion: x.suggestion,
                diagnostics: if with_diagnostics { x.diagnostics } else { Vec::new() },
            };
            let ghost before = unconverted@;
            unconverted.push(u);
            summary.classes_unconvertible = summary.classes_unconvertible + 1;
            proof {
                assert(convertible(all.subrange(0, i + 1)) == convertible(pre));
                assert(unconvertible(all.subrange(0, i + 1)) == unconvertible(pre).push(xv));
                assert forall|j: int| 0 <= j < unconvertible(all.subrange(0, i + 1)).len() implies reports_unconverted(
                    #[trigger] unconverted@[u0.len() + j],
                    unconvertible(all.subrange(0, i + 1))[j],
                    with_diagnostics,
                ) by {
                    if j < unconvertible(pre).len() {
                        assert(unconverted@[u0.len() + j] == before[u0.len() + j]);
                    }
                }
            }
        }
        proof {
            i = i + 1;
            assert(rest@ =~= all.subrange(i, all.len() as int));
        }
    }
    assert(all.subrange(0, all.len() as int) =~= all);
    out
}

/// What `record_replacements` does to the summary and the unconverted
/// list, with the reported patches `ps`.
pub open spec fn recorded(
    s0: Summary,
    s1: Summary,
    u0: Seq<Unconverted>,
    u1: Seq<Unconverted>,
    ps: Seq<ReplacementReport>,
    reps: Seq<Replacement>,
    agent: AgentConfig,
    with_diagnostics: bool,
) -> bool {
    &&& ps.len() == convertible(reps).len()
    &&& forall|i: int| 0 <= i < ps.len() ==> reports(#[trigger] ps[i], convertible(reps)[i], agent)
    &&& u1.len() == u0.len() + unconvertible(reps).len()
    &&& forall|i: int| 0 <= i < u0.len() ==> u1[i] == u0[i]
    &&& forall|j: int| 0 <= j < unconvertible(reps).len() ==> reports_unconverted(#[trigger] u1[u0.len() + j], unconvertible(reps)[j], with_diagnostics)
    &&& s1 == (Summary {
        classes_convertible: (s0.classes_convertible + convertible(reps).len()) as usize,
        replacements_planned: (s0.replacements_planned + convertible(reps).len()) as usize,
        classes_unconvertible: (s0.classes_unconvertible + unconvertible(reps).len()) as usize,
        ..s0
    })
}

/// What a run does with one planned file besides counting it: the file's
/// entry in the report, the text to write to it, and an error to report.
pub struct FileStep {
    pub change: Option<ChangeFile>,
    pub write: Option<String>,
    pub error: Option<String>,
}

/// The message of a file whose replacements do not fall on character
/// boundaries.
pub open spec fn boundary_error(path: Seq<char>) -> Seq<char> {
    "Error planning "@ + path + ": replacements do not fall on character boundaries"@
}

/// The step of a migration run for one source file with the planned
/// replacements `reps`: they are recorded (`recorded`); when some convert
/// something:
/// - when the patched text is needed (`needs_patched`) and the converting
///   replacements do not fit the text (`patch_ok`), an error and nothing
///   else;
/// - else the file's entry, when the file is reported (`reported_file`):
///   its path, status (`status_spec`), patches, the patched text when
///   asked for, and its unified diff when asked for; and the patched text
///   to write, when the run writes the file (`writes_file`).
/// The patched text is what `apply_patches` gives for the converting
/// replacements.
pub fn migrate_file(
    summary: &mut Summary,
    unconverted: &mut Vec<Unconverted>,
    source: &SourceFile,
    reps: Vec<Replacement>,
    agent: &AgentConfig,
    mode: RunMode,
    is_stdin: bool,
    include_patched: bool,
    diff: bool,
    file_only: &[String],
) -> (r: FileStep)
    requires
        old(summary).classes_convertible + reps@.len() <= usize::MAX,
        old(summary).replacements_planned + reps@.len() <= usize::MAX,
        old(summary).classes_unconvertible + reps@.len() <= usize::MAX,
    ensures
        exists|ps: Seq<ReplacementReport>| {
            &&& recorded(*old(summary), *final(summary), old(unconverted)@, final(unconverted)@, ps, reps@, *agent, false)
            &&& ({
                let src = encode_utf8(source.content@);
                let es = sort_edits(edits(convertible(reps@)));
                if ps.len() == 0 {
                    r.change is None && r.write is None && r.error is None
                } else if (include_patched || mode is Write || diff) && !patch_ok(src, es) {
                    r.change is None && r.write is None && (r.error matches Some(e) && e@ == boundary_error(source.path@))
                } else {
                    &&& r.error is None
                    &&& (match r.write {
                        Some(t) => writes_file_spec(mode, is_stdin) && encode_utf8(t@) == patched(src, es),
                        None => !writes_file_spec(mode, is_stdin),
                    })
                    &&& (match r.change {
                        Some(c) => {
                            &&& reported_spec(file_only@, source.path@)
                            &&& c.file@ == source.path@
                            &&& c.status@ == mode.status_spec(is_stdin)
                            &&& c.patches@ == ps
                            &&& (match c.patched_content {
                                Some(t) => include_patched && encode_utf8(t@) == patched(src, es),
                                None => !include_patched,
                            })
                            &&& (match c.patch {
                                Some(d) => diff && d.format@ == "unified"@ && exists|t: Seq<char>|
                                    encode_utf8(t) == patched(src, es) && d.content@ == unified_hunks(source.content@, t, 3, source.path@),
                                None => !diff,
                            })
                        },
                        None => !reported_spec(file_only@, source.path@),
                    })
                }
            })
        },
{
    let ghost s0 = *summary;
    let ghost u0 = unconverted@;
    let ghost reps_v = reps@;
    let ps = record_replacements(summary, unconverted, reps, agent, false);
    assert(recorded(s0, *summary, u0, unconverted@, ps@, reps_v, *agent, false));
    if ps.len() == 0 {
        return FileStep { change: None, write: None, error: None };
    }
    let mut to_apply: Vec<Replacement> = Vec::new();
    for i in 0..ps.len()
        invariant
            ps@.len() == convertible(reps_v).len(),
            forall|k: int| 0 <= k < ps@.len() ==> reports(#[trigger] ps@[k], convertible(reps_v)[k], *agent),
            to_apply@.len() == i,
            forall|k: int| 0 <= k < i ==> edit_of(#[trigger] to_apply@[k]) == edit_of(convertible(reps_v)[k]),
    {
        let p = &ps[i];
        to_apply.push(Replacement {
            span: Span { start: p.range.start_byte, end: p.range.end_byte },
            before: String::new(),
            after: p.after.clone(),
            confidence: ConfidenceReport { score: Decimal::from_int(1), reasons: Vec::new() },
            reasons: Vec::new(),
            trace: Vec::new(),
            raw_css: None,
            suggestion: None,
            failure_reason: None,
            diagnostics: Vec::new(),
        });
    }
    assert(edits(to_apply@) =~= edits(convertible(reps_v)));
    let text = source.content.as_str();
    let need = needs_patched(mode, include_patched, diff);
    let mut patched_text: Option<String> = None;
    if need {
        if !patches_fit(text, to_apply.as_slice()) {
            let mut m = chars_of("Error planning ");
            push_str(&mut m, source.path.as_str());
            push_str(&mut m, ": replacements do not fall on character boundaries");
            return FileStep { change: None, write: None, error: Some(string_of(m.as_slice())) };
        }
        patched_text = Some(apply_patches(text, to_apply.as_slice()));
    }
    let write = if writes_file(mode, is_stdin) {
        match &patched_text {
            Some(t) => Some(t.clone()),
            None => None,
        }
    } else {
        None
    };
    let change = if reported_file(file_only, source.path.as_str()) {
        let patch = if diff {
            match &patched_text {
                Some(t) => Some(Patch { format: String::from_str("unified"), content: generate_diff(text, t.as_str(), source.path.as_str()) }),
                None => None,
            }
        } else {
            None
        };
        let patched_content = if include_patched {
            patched_text
        } else {
            None
        };
        Some(ChangeFile {
            file: source.path.clone(),
            status: mode.file_status(is_stdin),
            patches: ps,
            patched_content,
            patch,
        })
    } else {
        None
    };
    FileStep { change, write, error: None }
}

/// How a class of a stylesheet fares in a benchmark: 0 when it converts
/// with full confidence, 1 when it converts with less, 2 when it does not
/// convert.
pub open spec fn bench_outcome(name: Seq<char>, rule_map: RuleMap, vars: VariableMap, rem: Decimal) -> int {
    if planned(name, rule_map, vars, rem, Decimal::from_int_spec(1)) {
        0
    } else if explained(name, rule_map, vars, rem) is Some {
        1
    } else {
        2
    }
}

/// The number of the names whose outcome is `o`.
pub open spec fn outcome_count(names: Seq<Seq<char>>, rule_map: RuleMap, vars: VariableMap, rem: Decimal, o: int) -> nat
    decreases names.len(),
{
    if names.len() == 0 {
        0
    } else {
        outcome_count(names.drop_last(), rule_map, vars, rem, o) + if bench_outcome(names.last(), rule_map, vars, rem) == o {
            1nat
        } else {
            0nat
        }
    }
}

/// The outcome counts of a benchmark over the classes of a stylesheet.
#[derive(Debug, Clone, Copy, PartialEq, Eq)]
pub struct RuleMapBenchmark {
    pub total: usize,
    pub safe: usize,
    pub partial: usize,
    pub failed: usize,
}

/// Explains every class of the map, in order, and counts how they fare
/// (see `bench_outcome`): with full confidence, with less, or not at all.
pub fn benchmark_rule_map(rule_map: &RuleMap, variable_map: &VariableMap, rem_scale: &Decimal) -> (r: RuleMapBenchmark)
    requires
        rule_map.wf(),
        rule_map.props_wf(),
        rem_scale.wf(),
    ensures
        ({
            let names = rule_map.entries@.map_values(|e: (String, Vec<TailwindMapping>)| e.0@);
            &&& r.total == names.len()
            &&& r.safe == outcome_count(names, *rule_map, *variable_map, *rem_scale, 0)
            &&& r.partial == outcome_count(names, *rule_map, *variable_map, *rem_scale, 1)
            &&& r.failed == outcome_count(names, *rule_map, *variable_map, *rem_scale, 2)
        }),
{
    let ghost names = rule_map.entries@.map_values(|e: (String, Vec<TailwindMapping>)| e.0@);
    let one = Decimal::from_int(1);
    let mut safe: usize = 0;
    let mut partial: usize = 0;
    let mut failed: usize = 0;
    assert(names.subrange(0, 0) =~= Seq::<Seq<char>>::empty());
    for i in 0..rule_map.entries.len()
        invariant
            names == rule_map.entries@.map_values(|e: (String, Vec<TailwindMapping>)| e.0@),
            rule_map.wf(),
            rule_map.props_wf(),
            rem_scale.wf(),
            one == Decimal::from_int_spec(1),
            safe == outcome_count(names.subrange(0, i as int), *rule_map, *variable_map, *rem_scale, 0),
            partial == outcome_count(names.subrange(0, i as int), *rule_map, *variable_map, *rem_scale, 1),
            failed == outcome_count(names.subrange(0, i as int), *rule_map, *variable_map, *rem_scale, 2),
            safe + partial + failed == i,
    {
        let name = rule_map.entries[i].0.as_str();
        proof {
            assert(names.subrange(0, i + 1).drop_last() =~= names.subrange(0, i as int));
            assert(names.subrange(0, i + 1).last() == name@);
        }
        match ConversionPlanner::explain(name, rule_map, variable_map, rem_scale) {
            Some(rep) => {
                proof {
                    lemma_decay_bounds(var_decls(rule_map.lookup(name@)->0).len());
                }
                if rep.after.unicode_len() > 0 && rep.failure_reason.is_none() && rep.confidence.score.ge(&one) {
                    safe = safe + 1;
                } else if rep.after.unicode_len() > 0 {
                    partial = partial + 1;
                } else {
                    failed = failed + 1;
                }
            },
            None => {
                failed = failed + 1;
            },
        }
    }
    assert(names.subrange(0, names.len() as int) =~= names);
    RuleMapBenchmark { total: rule_map.entries.len(), safe, partial, failed }
}

/// A replacement counts as converted in a benchmark when it has no failure
/// reason and its (well-formed) confidence reaches the threshold.
pub open spec fn converted_by(r: Replacement, threshold: Decimal) -> bool {
    r.failure_reason is None && r.confidence.score.wf() && r.confidence.score.ge_spec(threshold)
}

pub open spec fn converted_count(v: Seq<Replacement>, threshold: Decimal) -> nat
    decreases v.len(),
{
    if v.len() == 0 {
        0
    } else {
        converted_count(v.drop_last(), threshold) + if converted_by(v.last(), threshold) {
            1nat
        } else {
            0nat
        }
    }
}

/// The number of replacements that failed for the reason at place `i`.
pub open spec fn failure_count(v: Seq<Replacement>, i: int) -> nat
    decreases v.len(),
{
    if v.len() == 0 {
        0
    } else {
        failure_count(v.drop_last(), i) + match v.last().failure_reason {
            Some(f) => if f.index_spec() == i {
                1nat
            } else {
                0nat
            },
            None => 0nat,
        }
    }
}

/// The number of diagnostics of the replacements.
pub open spec fn diagnostics_total(v: Seq<Replacement>) -> nat
    decreases v.len(),
{
    if v.len() == 0 {
        0
    } else {
        diagnostics_total(v.drop_last()) + v.last().diagnostics@.len()
    }
}

/// What a benchmark counts of the replacements planned for a file.
#[derive(Debug, Clone)]
pub struct ReplacementTally {
    pub found: usize,
    pub converted: usize,
    /// The failures for each reason, by the reason's place (`FailureReason::index`).
    pub failures: Vec<usize>,
    /// The number of diagnostics, at most `usize::MAX`.
    pub diagnostics: usize,
}

/// Counts the replacements of a file for a benchmark: all of them, those
/// converted at the threshold (`converted_by`), the failures by reason, and
/// the diagnostics (saturating at `usize::MAX`).
pub fn tally_replacements(reps: &[Replacement], threshold: &Decimal) -> (r: ReplacementTally)
    requires
        threshold.wf(),
    ensures
        r.found == reps@.len(),
        r.converted == converted_count(reps@, *threshold),
        r.failures@.len() == 7,
        forall|i: int| 0 <= i < 7 ==> #[trigger] r.failures@[i] == failure_count(reps@, i),
        r.diagnostics == (if diagnostics_total(reps@) <= usize::MAX { diagnostics_total(reps@) } else { usize::MAX as nat }),
{
    let mut failures: Vec<usize> = vec![0, 0, 0, 0, 0, 0, 0];
    let mut converted: usize = 0;
    let mut diagnostics: usize = 0;
    assert(reps@.subrange(0, 0) =~= Seq::<Replacement>::empty());
    for k in 0..reps.len()
        invariant
            threshold.wf(),
            failures@.len() == 7,
            forall|i: int| 0 <= i < 7 ==> #[trigger] failures@[i] == failure_count(reps@.subrange(0, k as int), i),
            converted == converted_count(reps@.subrange(0, k as int), *threshold),
            converted <= k,
            forall|i: int| 0 <= i < 7 ==> #[trigger] failures@[i] <= k,
            diagnostics == (if diagnostics_total(reps@.subrange(0, k as int)) <= usize::MAX {
                diagnostics_total(reps@.subrange(0, k as int))
            } else {
                usize::MAX as nat
            }),
    {
        let r = &reps[k];
        let ghost pre = reps@.subrange(0, k as int);
        proof {
            assert(reps@.subrange(0, k + 1).drop_last() =~= pre);
            assert(reps@.subrange(0, k + 1).last() == *r);
        }
        let ghost before = failures@;
        if r.failure_reason.is_none() && r.confidence.score.is_wf() && r.confidence.score.ge(threshold) {
            converted = converted + 1;
        } else {
            match r.failure_reason {
                Some(f) => {
                    let i = f.index();
                    failures.set(i, failures[i] + 1);
                },
                None => {},
            }
        }
        assert forall|i: int| 0 <= i < 7 implies #[trigger] failures@[i] == failure_count(reps@.subrange(0, k + 1), i) by {
            assert(before[i] == failure_count(pre, i));
        }
        diagnostics = diagnostics.saturating_add(r.diagnostics.len());
    }
    assert(reps@.subrange(0, reps@.len() as int) =~= reps@);
    ReplacementTally { found: reps.len(), converted, failures, diagnostics }
}

/// The number of replacements that convert something (`convertible`).
pub fn count_convertible(reps: &[Replacement]) -> (r: usize)
    ensures
        r == convertible(reps@).len(),
{
    let mut n: usize = 0;
    assert(reps@.subrange(0, 0) =~= Seq::<Replacement>::empty());
    for k in 0..reps.len()
        invariant
            n == convertible(reps@.subrange(0, k as int)).len(),
            n <= k,
    {
        proof {
            assert(reps@.subrange(0, k + 1).drop_last() =~= reps@.subrange(0, k as int));
            assert(reps@.subrange(0, k + 1).last() == reps@[k as int]);
        }
        if reps[k].after.unicode_len() > 0 {
            n = n + 1;
        }
    }
    assert(reps@.subrange(0, reps@.len() as int) =~= reps@);
    n
}

} // verus!
