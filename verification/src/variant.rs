//! Tailwind variants (hover:, md:, before:, ...) and their class prefixes.

use vstd::prelude::*;

verus! {

/// A Tailwind variant that qualifies a utility class.
#[derive(Debug, PartialEq, Eq)]
pub enum TailwindVariant {
    /// No variant: the class applies unconditionally.
    Base,
    Hover,
    Focus,
    Active,
    Before,
    After,
    Disabled,
    Checked,
    Valid,
    Invalid,
    Required,
    First,
    Last,
    Odd,
    Even,
    Placeholder,
    Marker,
    Selection,
    /// A responsive breakpoint or media condition, e.g. `md` or `max-[1120px]`.
    Media(String),
    /// Any other variant, written out, e.g. `nth-[2n]` or `[&:focus-within]`.
    Arbitrary(String),
}

/// The class prefix of the variant with the key `k`.
pub open spec fn prefix_of_key(k: (int, Seq<char>)) -> Seq<char> {
    if k.0 == 0 {
        Seq::empty()
    } else if k.0 == 1 {
        "hover:"@
    } else if k.0 == 2 {
        "focus:"@
    } else if k.0 == 3 {
        "active:"@
    } else if k.0 == 4 {
        "before:"@
    } else if k.0 == 5 {
        "after:"@
    } else if k.0 == 6 {
        "disabled:"@
    } else if k.0 == 7 {
        "checked:"@
    } else if k.0 == 8 {
        "valid:"@
    } else if k.0 == 9 {
        "invalid:"@
    } else if k.0 == 10 {
        "required:"@
    } else if k.0 == 11 {
        "first:"@
    } else if k.0 == 12 {
        "last:"@
    } else if k.0 == 13 {
        "odd:"@
    } else if k.0 == 14 {
        "even:"@
    } else if k.0 == 15 {
        "placeholder:"@
    } else if k.0 == 16 {
        "marker:"@
    } else if k.0 == 17 {
        "selection:"@
    } else {
        k.1 + ":"@
    }
}

/// The prefixes of the variants with the keys `ks`, in order.
pub open spec fn keys_prefix(ks: Seq<(int, Seq<char>)>) -> Seq<char>
    decreases ks.len(),
{
    if ks.len() == 0 {
        Seq::empty()
    } else {
        keys_prefix(ks.drop_last()) + prefix_of_key(ks.last())
    }
}

impl TailwindVariant {
    /// The text that this variant puts in front of a utility class.
    pub open spec fn prefix_spec(self) -> Seq<char> {
        match self {
            TailwindVariant::Base => Seq::empty(),
            TailwindVariant::Hover => "hover:"@,
            TailwindVariant::Focus => "focus:"@,
            TailwindVariant::Active => "active:"@,
            TailwindVariant::Before => "before:"@,
            TailwindVariant::After => "after:"@,
            TailwindVariant::Disabled => "disabled:"@,
            TailwindVariant::Checked => "checked:"@,
            TailwindVariant::Valid => "valid:"@,
            TailwindVariant::Invalid => "invalid:"@,
            TailwindVariant::Required => "required:"@,
            TailwindVariant::First => "first:"@,
            TailwindVariant::Last => "last:"@,
            TailwindVariant::Odd => "odd:"@,
            TailwindVariant::Even => "even:"@,
            TailwindVariant::Placeholder => "placeholder:"@,
            TailwindVariant::Marker => "marker:"@,
            TailwindVariant::Selection => "selection:"@,
            TailwindVariant::Media(s) => s@ + ":"@,
            TailwindVariant::Arbitrary(s) => s@ + ":"@,
        }
    }

    /// An identity of the variant over plain values: its tag and its text.
    pub open spec fn key(self) -> (int, Seq<char>) {
        match self {
            TailwindVariant::Base => (0, Seq::empty()),
            TailwindVariant::Hover => (1, Seq::empty()),
            TailwindVariant::Focus => (2, Seq::empty()),
            TailwindVariant::Active => (3, Seq::empty()),
            TailwindVariant::Before => (4, Seq::empty()),
            TailwindVariant::After => (5, Seq::empty()),
            TailwindVariant::Disabled => (6, Seq::empty()),
            TailwindVariant::Checked => (7, Seq::empty()),
            TailwindVariant::Valid => (8, Seq::empty()),
            TailwindVariant::Invalid => (9, Seq::empty()),
            TailwindVariant::Required => (10, Seq::empty()),
            TailwindVariant::First => (11, Seq::empty()),
            TailwindVariant::Last => (12, Seq::empty()),
            TailwindVariant::Odd => (13, Seq::empty()),
            TailwindVariant::Even => (14, Seq::empty()),
            TailwindVariant::Placeholder => (15, Seq::empty()),
            TailwindVariant::Marker => (16, Seq::empty()),
            TailwindVariant::Selection => (17, Seq::empty()),
            TailwindVariant::Media(s) => (18, s@),
            TailwindVariant::Arbitrary(s) => (19, s@),
        }
    }

    /// The prefix is a function of the key.
    pub proof fn lemma_prefix_of_key(self)
        ensures
            self.prefix_spec() == prefix_of_key(self.key()),
    {
    }

    /// The class prefix of this variant, e.g. `hover:`; empty for `Base`.
    pub fn to_prefix(&self) -> (r: String)
        ensures
            r@ == self.prefix_spec(),
    {
        match self {
            TailwindVariant::Base => String::new(),
            TailwindVariant::Hover => String::from_str("hover:"),
            TailwindVariant::Focus => String::from_str("focus:"),
            TailwindVariant::Active => String::from_str("active:"),
            TailwindVariant::Before => String::from_str("before:"),
            TailwindVariant::After => String::from_str("after:"),
            TailwindVariant::Disabled => String::from_str("disabled:"),
            TailwindVariant::Checked => String::from_str("checked:"),
            TailwindVariant::Valid => String::from_str("valid:"),
            TailwindVariant::Invalid => String::from_str("invalid:"),
            TailwindVariant::Required => String::from_str("required:"),
            TailwindVariant::First => String::from_str("first:"),
            TailwindVariant::Last => String::from_str("last:"),
            TailwindVariant::Odd => String::from_str("odd:"),
            TailwindVariant::Even => String::from_str("even:"),
            TailwindVariant::Placeholder => String::from_str("placeholder:"),
            TailwindVariant::Marker => String::from_str("marker:"),
            TailwindVariant::Selection => String::from_str("selection:"),
            TailwindVariant::Media(s) => s.clone().concat(":"),
            TailwindVariant::Arbitrary(s) => s.clone().concat(":"),
        }
    }

    /// Whether two variants are the same variant.
    pub fn same_as(&self, other: &TailwindVariant) -> (r: bool)
        ensures
            r == (self.key() == other.key()),
    {
        if self.tag() != other.tag() {
            return false;
        }
        match self {
            TailwindVariant::Media(a) => match other {
                TailwindVariant::Media(b) => a.eq(b),
                _ => false,
            },
            TailwindVariant::Arbitrary(a) => match other {
                TailwindVariant::Arbitrary(b) => a.eq(b),
                _ => false,
            },
            _ => true,
        }
    }

    fn tag(&self) -> (t: u8)
        ensures
            t == self.key().0,
    {
        match self {
            TailwindVariant::Base => 0,
            TailwindVariant::Hover => 1,
            TailwindVariant::Focus => 2,
            TailwindVariant::Active => 3,
            TailwindVariant::Before => 4,
            TailwindVariant::After => 5,
            TailwindVariant::Disabled => 6,
            TailwindVariant::Checked => 7,
            TailwindVariant::Valid => 8,
            TailwindVariant::Invalid => 9,
            TailwindVariant::Required => 10,
            TailwindVariant::First => 11,
            TailwindVariant::Last => 12,
            TailwindVariant::Odd => 13,
            TailwindVariant::Even => 14,
            TailwindVariant::Placeholder => 15,
            TailwindVariant::Marker => 16,
            TailwindVariant::Selection => 17,
            TailwindVariant::Media(_) => 18,
            TailwindVariant::Arbitrary(_) => 19,
        }
    }
}

impl Clone for TailwindVariant {
    fn clone(&self) -> (r: Self)
        ensures
            r == *self,
    {
        match self {
            TailwindVariant::Base => TailwindVariant::Base,
            TailwindVariant::Hover => TailwindVariant::Hover,
            TailwindVariant::Focus => TailwindVariant::Focus,
            TailwindVariant::Active => TailwindVariant::Active,
            TailwindVariant::Before => TailwindVariant::Before,
            TailwindVariant::After => TailwindVariant::After,
            TailwindVariant::Disabled => TailwindVariant::Disabled,
            TailwindVariant::Checked => TailwindVariant::Checked,
            TailwindVariant::Valid => TailwindVariant::Valid,
            TailwindVariant::Invalid => TailwindVariant::Invalid,
            TailwindVariant::Required => TailwindVariant::Required,
            TailwindVariant::First => TailwindVariant::First,
            TailwindVariant::Last => TailwindVariant::Last,
            TailwindVariant::Odd => TailwindVariant::Odd,
            TailwindVariant::Even => TailwindVariant::Even,
            TailwindVariant::Placeholder => TailwindVariant::Placeholder,
            TailwindVariant::Marker => TailwindVariant::Marker,
            TailwindVariant::Selection => TailwindVariant::Selection,
            TailwindVariant::Media(s) => TailwindVariant::Media(s.clone()),
            TailwindVariant::Arbitrary(s) => TailwindVariant::Arbitrary(s.clone()),
        }
    }
}

impl Default for TailwindVariant {
    fn default() -> (r: Self)
        ensures
            r == TailwindVariant::Base,
    {
        TailwindVariant::Base
    }
}

} // verus!
