//! A class name and where it stands in a source file.

use vstd::prelude::*;

verus! {

/// A byte range `start..end` of a source file.
#[derive(Debug, Clone, Copy, PartialEq, Eq)]
pub struct Span {
    pub start: usize,
    pub end: usize,
}

/// One use of a class name in a source file.
#[derive(Debug, Clone)]
pub struct ClassUsage {
    pub class_name: String,
    pub span: Span,
}

} // verus!
