//! Confidence scores, kept in hundredths: 100 is full confidence.

use crate::diagnostics::reason::Reason;
use crate::number::Decimal;
use vstd::prelude::*;

verus! {

/// The confidence of a conversion.
#[derive(Debug, Clone)]
pub struct Confidence {
    /// The score in hundredths; between 0 and 100 once clamped.
    pub score: i32,
    /// The reasons that moved the score, in the order they applied.
    pub reasons: Vec<Reason>,
}

/// `s` limited to `0..=100`.
pub open spec fn clamp_score(s: int) -> int {
    if s < 0 {
        0
    } else if s > 100 {
        100
    } else {
        s
    }
}

impl Confidence {
    /// Zero confidence, no reasons.
    pub fn new() -> (r: Confidence)
        ensures
            r.score == 0,
            r.reasons@ == Seq::<Reason>::empty(),
    {
        Confidence { score: 0, reasons: Vec::new() }
    }

    /// Adds `score_change` hundredths to the score and records `reason`.
    pub fn apply_modifier(&mut self, score_change: i32, reason: Reason)
        requires
            -1000000 <= old(self).score <= 1000000,
            -1000000 <= score_change <= 1000000,
        ensures
            final(self).score == old(self).score + score_change,
            final(self).reasons@ == old(self).reasons@.push(reason),
    {
        self.score = self.score + score_change;
        self.reasons.push(reason);
    }

    /// Limits the score to `0..=100`.
    pub fn clamp(&mut self)
        ensures
            final(self).score == clamp_score(old(self).score as int),
            final(self).reasons@ == old(self).reasons@,
    {
        if self.score < 0 {
            self.score = 0;
        } else if self.score > 100 {
            self.score = 100;
        }
    }

    /// The score as a decimal fraction of one.
    pub fn to_decimal(&self) -> (r: Decimal)
        requires
            0 <= self.score <= 100,
        ensures
            r == (Decimal { negative: false, digits: self.score as u128, scale: 2 }),
    {
        Decimal::new(self.score as u64, 2)
    }
}

/// A utility to calculate confidence scores from the shape of a conversion.
pub struct ConfidenceCalculator;

/// The score, before clamping, that `calculate` sums up.
pub open spec fn raw_score(
    is_simple_class: bool,
    all_mapped: bool,
    is_complex_selector: bool,
    partial_mapping: bool,
    has_media_query: bool,
) -> int {
    (if is_simple_class {
        30int
    } else if is_complex_selector {
        -30int
    } else {
        0int
    }) + (if all_mapped {
        20int
    } else {
        0int
    }) + (if partial_mapping {
        -25int
    } else {
        0int
    }) + (if has_media_query {
        -20int
    } else {
        0int
    })
}

/// The reasons that `calculate` records, in order.
pub open spec fn calculated_reasons(
    is_simple_class: bool,
    all_mapped: bool,
    is_complex_selector: bool,
    partial_mapping: bool,
    has_media_query: bool,
) -> Seq<Reason> {
    (if is_simple_class {
        seq![Reason::SimpleClassSelector]
    } else if is_complex_selector {
        seq![Reason::ComplexSelector]
    } else {
        Seq::empty()
    }) + (if all_mapped {
        seq![Reason::AllDeclarationsMapped]
    } else {
        Seq::empty()
    }) + (if partial_mapping {
        seq![Reason::UnsupportedProperty]
    } else {
        Seq::empty()
    }) + (if has_media_query {
        seq![Reason::MediaQueryConflict]
    } else {
        Seq::empty()
    })
}

impl ConfidenceCalculator {
    /// Scores a conversion: +0.30 for a simple class selector (else -0.30 for a
    /// complex one), +0.20 when every declaration mapped, -0.25 for a partial
    /// mapping, -0.20 under a media query; the sum is clamped to `0..=1`.
    pub fn calculate(
        is_simple_class: bool,
        all_mapped: bool,
        is_complex_selector: bool,
        partial_mapping: bool,
        has_media_query: bool,
    ) -> (r: Confidence)
        ensures
            r.score == clamp_score(
                raw_score(is_simple_class, all_mapped, is_complex_selector, partial_mapping, has_media_query),
            ),
            r.reasons@ == calculated_reasons(
                is_simple_class,
                all_mapped,
                is_complex_selector,
                partial_mapping,
                has_media_query,
            ),
    {
        let mut conf = Confidence::new();
        if is_simple_class {
            conf.apply_modifier(30, Reason::SimpleClassSelector);
        } else if is_complex_selector {
            conf.apply_modifier(-30, Reason::ComplexSelector);
        }
        if all_mapped {
            conf.apply_modifier(20, Reason::AllDeclarationsMapped);
        }
        if partial_mapping {
            conf.apply_modifier(-25, Reason::UnsupportedProperty);
        }
        if has_media_query {
            conf.apply_modifier(-20, Reason::MediaQueryConflict);
        }
        conf.clamp();
        assert(conf.reasons@ =~= calculated_reasons(
            is_simple_class,
            all_mapped,
            is_complex_selector,
            partial_mapping,
            has_media_query,
        ));
        conf
    }
}

} // verus!
