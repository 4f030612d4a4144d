//! Finding class names in any text file.

use crate::error::Css2TwError;
use crate::source::attrs::{class_uses, extract_class_uses, uses_match};
use crate::source::class_usage::ClassUsage;
use crate::source::{ClassUsageParser, SourceFile};
use vstd::prelude::*;

verus! {

/// A parser for file types without a specialised one: it reads the class
/// names of `class="..."` and `className="..."` attributes, leaving out
/// words that look like template tags.
pub struct GenericRegexParser;

impl ClassUsageParser for GenericRegexParser {
    fn extract_classes(&self, source: &SourceFile) -> (r: Result<Vec<ClassUsage>, Css2TwError>)
        ensures
            r matches Ok(v) && uses_match(source.content@, v@, class_uses(source.content@, true, true)),
    {
        Ok(extract_class_uses(source.content.as_str(), true, true))
    }
}

} // verus!
