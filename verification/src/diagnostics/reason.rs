//! Why a conversion gained or lost confidence.

use vstd::prelude::*;

verus! {

/// A reason that moves the confidence of a conversion up or down.
#[derive(Debug, Clone, Copy, PartialEq, Eq)]
pub enum Reason {
    ComplexSelector,
    CascadeDependent,
    SpecificityConflict,
    MediaQueryConflict,
    UnsupportedProperty,
    UnsupportedValue,
    CssVariableUnresolved,
    KeyframesUnsupported,
    AnimationUnsupported,
    PseudoElementUnsupported,
    DynamicClassUsage,
    MultipleClassDependency,
    UnknownTailwindThemeValue,
    ParseError,
    AllDeclarationsMapped,
    SimpleClassSelector,
    PseudoClassHoverMapped,
}

} // verus!
