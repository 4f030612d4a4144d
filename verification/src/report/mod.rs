//! The structured report of a scan or conversion run.

use crate::number::Decimal;
use vstd::prelude::*;

verus! {

/// The report of one run of the tool.
#[derive(Debug, Clone)]
pub struct Report {
    pub version: String,
    pub command: String,
    pub mode: String,
    pub summary: Summary,
    pub changes: Vec<ChangeFile>,
    pub unconverted: Vec<Unconverted>,
    pub warnings: Vec<String>,
    pub errors: Vec<String>,
}

/// A statistical summary of the conversion process.
#[derive(Debug, Clone, Copy, PartialEq, Eq)]
pub struct Summary {
    pub files_scanned: usize,
    pub css_files_scanned: usize,
    pub source_files_scanned: usize,
    pub classes_found: usize,
    pub classes_convertible: usize,
    pub classes_partially_convertible: usize,
    pub classes_unconvertible: usize,
    pub files_changed: usize,
    pub replacements_planned: usize,
    pub warnings: usize,
    pub errors: usize,
}

impl Summary {
    /// Every count at zero.
    pub open spec fn zero_spec() -> Summary {
        Summary {
            files_scanned: 0,
            css_files_scanned: 0,
            source_files_scanned: 0,
            classes_found: 0,
            classes_convertible: 0,
            classes_partially_convertible: 0,
            classes_unconvertible: 0,
            files_changed: 0,
            replacements_planned: 0,
            warnings: 0,
            errors: 0,
        }
    }

    /// A summary with every count at zero.
    pub fn zero() -> (r: Summary)
        ensures
            r == Summary::zero_spec(),
            r == (Summary {
                files_scanned: 0,
                css_files_scanned: 0,
                source_files_scanned: 0,
                classes_found: 0,
                classes_convertible: 0,
                classes_partially_convertible: 0,
                classes_unconvertible: 0,
                files_changed: 0,
                replacements_planned: 0,
                warnings: 0,
                errors: 0,
            }),
    {
        Summary {
            files_scanned: 0,
            css_files_scanned: 0,
            source_files_scanned: 0,
            classes_found: 0,
            classes_convertible: 0,
            classes_partially_convertible: 0,
            classes_unconvertible: 0,
            files_changed: 0,
            replacements_planned: 0,
            warnings: 0,
            errors: 0,
        }
    }
}

/// A unified diff of one file.
#[derive(Debug, Clone)]
pub struct Patch {
    pub format: String,
    pub content: String,
}

/// The changes made or planned for one source file.
#[derive(Debug, Clone)]
pub struct ChangeFile {
    pub file: String,
    pub status: String,
    pub patches: Vec<ReplacementReport>,
    pub patched_content: Option<String>,
    pub patch: Option<Patch>,
}

/// One class replacement as the report shows it.
#[derive(Debug, Clone)]
pub struct ReplacementReport {
    pub range: RangeReport,
    pub before: String,
    pub after: String,
    pub confidence: ConfidenceReport,
    pub source_selector: String,
    pub reasons: Vec<String>,
    pub trace: Vec<String>,
    pub raw_css: Option<String>,
    pub suggestion: Option<String>,
    pub diagnostics: Vec<Diagnostic>,
}

/// The confidence score of a replacement and the reasons for it.
#[derive(Debug, Clone)]
pub struct ConfidenceReport {
    /// A fraction of one.
    pub score: Decimal,
    pub reasons: Vec<ConfidenceReason>,
}

/// A reason that influenced a confidence score.
#[derive(Debug, Clone, PartialEq, Eq)]
pub enum ConfidenceReason {
    FullMatch,
    PartialMatch(Vec<String>),
    AmbiguousSelector(String),
    VariableResolved(String),
    ThemeMapping,
    ArbitraryValue,
    LowConfidenceProperty(String),
}

/// A byte range of a source file.
#[derive(Debug, Clone, Copy, PartialEq, Eq)]
pub struct RangeReport {
    pub start_byte: usize,
    pub end_byte: usize,
}

/// Why a class or an expression was not converted.
#[derive(Debug, Clone, Copy, PartialEq, Eq)]
pub enum FailureReason {
    NoMappingFound,
    DynamicClass,
    DynamicTemplateLiteral,
    /// A class attribute whose value is chosen by a condition.
    ConditionalClassExpression,
    /// A class attribute whose classes are computed at run time, such as an
    /// object of class names and flags.
    RuntimeClassGeneration,
    UnsupportedSelector,
    LowConfidence,
}

impl FailureReason {
    /// The variant's name.
    pub open spec fn name_spec(self) -> Seq<char> {
        match self {
            FailureReason::NoMappingFound => "NoMappingFound"@,
            FailureReason::DynamicClass => "DynamicClass"@,
            FailureReason::DynamicTemplateLiteral => "DynamicTemplateLiteral"@,
            FailureReason::ConditionalClassExpression => "ConditionalClassExpression"@,
            FailureReason::RuntimeClassGeneration => "RuntimeClassGeneration"@,
            FailureReason::UnsupportedSelector => "UnsupportedSelector"@,
            FailureReason::LowConfidence => "LowConfidence"@,
        }
    }

    /// The variant's place in declaration order.
    pub open spec fn index_spec(self) -> int {
        match self {
            FailureReason::NoMappingFound => 0,
            FailureReason::DynamicClass => 1,
            FailureReason::DynamicTemplateLiteral => 2,
            FailureReason::ConditionalClassExpression => 3,
            FailureReason::RuntimeClassGeneration => 4,
            FailureReason::UnsupportedSelector => 5,
            FailureReason::LowConfidence => 6,
        }
    }

    /// The variant's place in declaration order, `0..7`.
    pub fn index(&self) -> (r: usize)
        ensures
            r == self.index_spec(),
            r < 7,
    {
        match self {
            FailureReason::NoMappingFound => 0,
            FailureReason::DynamicClass => 1,
            FailureReason::DynamicTemplateLiteral => 2,
            FailureReason::ConditionalClassExpression => 3,
            FailureReason::RuntimeClassGeneration => 4,
            FailureReason::UnsupportedSelector => 5,
            FailureReason::LowConfidence => 6,
        }
    }

    /// The variant at place `i` in declaration order.
    pub fn from_index(i: usize) -> (r: Option<FailureReason>)
        ensures
            match r {
                Some(f) => f.index_spec() == i,
                None => i >= 7,
            },
    {
        if i == 0 {
            Some(FailureReason::NoMappingFound)
        } else if i == 1 {
            Some(FailureReason::DynamicClass)
        } else if i == 2 {
            Some(FailureReason::DynamicTemplateLiteral)
        } else if i == 3 {
            Some(FailureReason::ConditionalClassExpression)
        } else if i == 4 {
            Some(FailureReason::RuntimeClassGeneration)
        } else if i == 5 {
            Some(FailureReason::UnsupportedSelector)
        } else if i == 6 {
            Some(FailureReason::LowConfidence)
        } else {
            None
        }
    }

    /// The variant's name, as `Debug` writes it.
    pub fn name(&self) -> (r: String)
        ensures
            r@ == self.name_spec(),
    {
        match self {
            FailureReason::NoMappingFound => String::from_str("NoMappingFound"),
            FailureReason::DynamicClass => String::from_str("DynamicClass"),
            FailureReason::DynamicTemplateLiteral => String::from_str("DynamicTemplateLiteral"),
            FailureReason::ConditionalClassExpression => String::from_str("ConditionalClassExpression"),
            FailureReason::RuntimeClassGeneration => String::from_str("RuntimeClassGeneration"),
            FailureReason::UnsupportedSelector => String::from_str("UnsupportedSelector"),
            FailureReason::LowConfidence => String::from_str("LowConfidence"),
        }
    }
}

/// How serious a diagnostic is.
#[derive(Debug, Clone, Copy, PartialEq, Eq)]
pub enum Severity {
    Info,
    Warning,
    Error,
}

/// A note about something that was not converted automatically.
#[derive(Debug, Clone)]
pub struct Diagnostic {
    pub severity: Severity,
    pub recoverable: bool,
    pub manual_action_required: bool,
    pub reason: String,
    pub message: String,
}

/// A class, selector or expression that could not be converted.
#[derive(Debug, Clone)]
pub struct Unconverted {
    pub selector: String,
    pub reason: FailureReason,
    pub details: String,
    /// A fraction of one.
    pub confidence: Decimal,
    pub range: Option<RangeReport>,
    pub raw_css: Option<String>,
    pub suggestion: Option<String>,
    pub diagnostics: Vec<Diagnostic>,
}

} // verus!
