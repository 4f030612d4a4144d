//! Reading selectors: the class a selector targets, the variant of its
//! pseudo-class or pseudo-element, and its overall shape.

use crate::css::lightning::ComponentKind;
use crate::css::parser::{SelectorComponent, SelectorInfo};
use crate::tailwind::values::{is_lit, starts_with_lit, ends_with_lit};
use crate::text::{chars_of, ends_with, index_of, index_of_char, push_all, push_str, slice_chars, starts_with, string_of};
use crate::variant::{prefix_of_key, TailwindVariant};
use vstd::prelude::*;

verus! {

/// What `char::is_alphanumeric` answers for `c`.
pub uninterp spec fn alphanumeric(c: char) -> bool;

/// `char::is_alphanumeric`: whether `c` is alphabetic or numeric in Unicode.
/// Among ASCII characters these are the letters and the digits.
#[verifier::external_body]
pub(crate) fn is_alphanumeric(c: char) -> (r: bool)
    ensures
        r == alphanumeric(c),
        (c as u32) < 128 ==> r == (('a' <= c && c <= 'z') || ('A' <= c && c <= 'Z') || ('0' <= c
            && c <= '9')),
{
    c.is_alphanumeric()
}

/// A character that may stand in a class name here: alphanumeric, `-` or `_`.
pub open spec fn is_name_char(c: char) -> bool {
    alphanumeric(c) || c == '-' || c == '_'
}

/// The end of the run of name characters that starts at `i`.
pub open spec fn name_run(s: Seq<char>, i: int) -> int
    decreases s.len() - i,
{
    if i < 0 || i >= s.len() || !is_name_char(s[i]) {
        i
    } else {
        name_run(s, i + 1)
    }
}

/// The variant of a pseudo-class or pseudo-element written after a class
/// (from its first `:` on), as `TailwindVariant::key` gives it.
pub open spec fn pseudo_key(p: Seq<char>) -> Option<(int, Seq<char>)> {
    if p == ":hover"@ {
        Some((1, Seq::empty()))
    } else if p == ":focus"@ {
        Some((2, Seq::empty()))
    } else if p == ":active"@ {
        Some((3, Seq::empty()))
    } else if p == ":disabled"@ {
        Some((6, Seq::empty()))
    } else if p == ":checked"@ {
        Some((7, Seq::empty()))
    } else if p == ":valid"@ {
        Some((8, Seq::empty()))
    } else if p == ":invalid"@ {
        Some((9, Seq::empty()))
    } else if p == ":required"@ {
        Some((10, Seq::empty()))
    } else if p == ":first-child"@ {
        Some((11, Seq::empty()))
    } else if p == ":last-child"@ {
        Some((12, Seq::empty()))
    } else if p == ":nth-child(odd)"@ || p == ":nth-child(2n+1)"@ {
        Some((13, Seq::empty()))
    } else if p == ":nth-child(even)"@ || p == ":nth-child(2n)"@ {
        Some((14, Seq::empty()))
    } else if p == "::before"@ || p == ":before"@ {
        Some((4, Seq::empty()))
    } else if p == "::after"@ || p == ":after"@ {
        Some((5, Seq::empty()))
    } else if p == "::placeholder"@ || p == ":placeholder"@ {
        Some((15, Seq::empty()))
    } else if p == "::marker"@ {
        Some((16, Seq::empty()))
    } else if p == "::selection"@ {
        Some((17, Seq::empty()))
    } else if starts_with(p, ":nth-child("@) {
        if ends_with(p, ")"@) {
            Some((19, "nth-["@ + p.subrange(11, p.len() - 1) + "]"@))
        } else {
            None
        }
    } else if starts_with(p, "::"@) {
        Some((19, "[&::"@ + p.subrange(2, p.len() as int) + "]"@))
    } else if starts_with(p, ":"@) {
        Some((19, "[&:"@ + p.subrange(1, p.len() as int) + "]"@))
    } else {
        None
    }
}

fn arbitrary_variant(head: &str, body: &[char]) -> (r: TailwindVariant)
    ensures
        r.key() == (19int, head@ + body@ + "]"@),
{
    let mut t = chars_of(head);
    push_all(&mut t, body);
    push_str(&mut t, "]");
    TailwindVariant::Arbitrary(string_of(t.as_slice()))
}

/// The variant of a pseudo-class or pseudo-element, as `pseudo_key` says.
pub fn pseudo_variant(p: &[char]) -> (r: Option<TailwindVariant>)
    ensures
        match r {
            Some(v) => pseudo_key(p@) == Some(v.key()),
            None => pseudo_key(p@) is None,
        },
{
    if is_lit(p, ":hover") {
        Some(TailwindVariant::Hover)
    } else if is_lit(p, ":focus") {
        Some(TailwindVariant::Focus)
    } else if is_lit(p, ":active") {
        Some(TailwindVariant::Active)
    } else if is_lit(p, ":disabled") {
        Some(TailwindVariant::Disabled)
    } else if is_lit(p, ":checked") {
        Some(TailwindVariant::Checked)
    } else if is_lit(p, ":valid") {
        Some(TailwindVariant::Valid)
    } else if is_lit(p, ":invalid") {
        Some(TailwindVariant::Invalid)
    } else if is_lit(p, ":required") {
        Some(TailwindVariant::Required)
    } else if is_lit(p, ":first-child") {
        Some(TailwindVariant::First)
    } else if is_lit(p, ":last-child") {
        Some(TailwindVariant::Last)
    } else if is_lit(p, ":nth-child(odd)") || is_lit(p, ":nth-child(2n+1)") {
        Some(TailwindVariant::Odd)
    } else if is_lit(p, ":nth-child(even)") || is_lit(p, ":nth-child(2n)") {
        Some(TailwindVariant::Even)
    } else if is_lit(p, "::before") || is_lit(p, ":before") {
        Some(TailwindVariant::Before)
    } else if is_lit(p, "::after") || is_lit(p, ":after") {
        Some(TailwindVariant::After)
    } else if is_lit(p, "::placeholder") || is_lit(p, ":placeholder") {
        Some(TailwindVariant::Placeholder)
    } else if is_lit(p, "::marker") {
        Some(TailwindVariant::Marker)
    } else if is_lit(p, "::selection") {
        Some(TailwindVariant::Selection)
    } else if starts_with_lit(p, ":nth-child(") {
        if ends_with_lit(p, ")") {
            proof {
                reveal_strlit(":nth-child(");
                reveal_strlit(")");
                assert(p@.subrange(0, 11)[10] == '(');
                assert(p@.subrange(p@.len() - 1, p@.len() as int)[0] == ')');
            }
            let inner = slice_chars(p, 11, p.len() - 1);
            Some(arbitrary_variant("nth-[", inner.as_slice()))
        } else {
            None
        }
    } else if starts_with_lit(p, "::") {
        proof {
            reveal_strlit("::");
        }
        let inner = slice_chars(p, 2, p.len());
        Some(arbitrary_variant("[&::", inner.as_slice()))
    } else if starts_with_lit(p, ":") {
        proof {
            reveal_strlit(":");
        }
        let inner = slice_chars(p, 1, p.len());
        Some(arbitrary_variant("[&:", inner.as_slice()))
    } else {
        None
    }
}

/// The class that a printed selector targets, with the variant of what
/// follows it, if anything does.
///
/// The text from the first `.` is split at its first `:`; the part before
/// names the class (the run of name characters after the dot), and the part
/// from the colon on gives the variant as `pseudo_key` says.
pub open spec fn selector_class(sel: Seq<char>) -> Option<(Seq<char>, Option<(int, Seq<char>)>)> {
    match index_of(sel, '.') {
        None => None,
        Some(d) => {
            let from_dot = sel.subrange(d, sel.len() as int);
            let (base, extra) = match index_of(from_dot, ':') {
                Some(c) => (from_dot.subrange(0, c), pseudo_key(from_dot.subrange(c, from_dot.len() as int))),
                None => (from_dot, None),
            };
            let stripped = base.subrange(1, base.len() as int);
            let name = stripped.subrange(0, name_run(stripped, 0));
            if name.len() > 0 {
                Some((name, extra))
            } else {
                None
            }
        },
    }
}

proof fn lemma_name_run(s: Seq<char>, i: int)
    requires
        0 <= i <= s.len(),
    ensures
        i <= name_run(s, i) <= s.len(),
    decreases s.len() - i,
{
    if !(i >= s.len() || !is_name_char(s[i])) {
        lemma_name_run(s, i + 1);
    }
}

fn name_run_exec(s: &[char]) -> (r: usize)
    ensures
        r == name_run(s@, 0),
{
    proof {
        lemma_name_run(s@, 0);
    }
    let mut k: usize = 0;
    while k < s.len() && (is_alphanumeric(s[k]) || s[k] == '-' || s[k] == '_')
        invariant
            k <= s@.len(),
            name_run(s@, 0) == name_run(s@, k as int),
        decreases s.len() - k,
    {
        k = k + 1;
    }
    k
}

/// The class that a printed selector targets and the variant after it, as
/// `selector_class` says.
pub fn class_of_selector(sel: &[char]) -> (r: Option<(Vec<char>, Option<TailwindVariant>)>)
    ensures
        match r {
            Some((n, v)) => selector_class(sel@) == Some(
                (
                    n@,
                    match v {
                        Some(t) => Some(t.key()),
                        None => None,
                    },
                ),
            ),
            None => selector_class(sel@) is None,
        },
{
    let d = match index_of_char(sel, '.') {
        Some(d) => d,
        None => return None,
    };
    let from_dot = slice_chars(sel, d, sel.len());
    let (base, extra) = match index_of_char(from_dot.as_slice(), ':') {
        Some(c) => {
            let p = slice_chars(from_dot.as_slice(), c, from_dot.len());
            (slice_chars(from_dot.as_slice(), 0, c), pseudo_variant(p.as_slice()))
        },
        None => (from_dot, None),
    };
    if base.len() == 0 {
        return None;
    }
    let stripped = slice_chars(base.as_slice(), 1, base.len());
    let e = name_run_exec(stripped.as_slice());
    proof {
        lemma_name_run(stripped@, 0);
    }
    let name = slice_chars(stripped.as_slice(), 0, e);
    if name.len() > 0 {
        Some((name, extra))
    } else {
        None
    }
}

/// The shape of a selector.
#[derive(Debug)]
pub enum SelectorType {
    /// A single class selector, e.g. `.btn`.
    SimpleClass(String),
    /// A single class selector with pseudo-classes, e.g. `.btn:hover`.
    ClassWithPseudo(String, Vec<String>),
    /// Anything else, e.g. `.btn .icon`, `div.btn`.
    Complex,
}

/// After reading the components `cs` in order: whether the selector is
/// complex (a second class, a combinator, or any other component), its
/// class, and the pseudo-classes seen.
pub open spec fn classify_state(cs: Seq<SelectorComponent>) -> (bool, Option<Seq<char>>, Seq<Seq<char>>)
    decreases cs.len(),
{
    if cs.len() == 0 {
        (false, None, Seq::empty())
    } else {
        let (complex, class, pseudos) = classify_state(cs.drop_last());
        match cs.last().kind {
            ComponentKind::Class(n) => if class is Some {
                (true, class, pseudos)
            } else {
                (complex, Some(n@), pseudos)
            },
            ComponentKind::PseudoClass => (complex, class, pseudos.push(cs.last().text@)),
            _ => (true, class, pseudos),
        }
    }
}

/// Classifies a selector: one class alone, one class with pseudo-classes,
/// or anything else.
pub fn classify_selector(selector: &SelectorInfo) -> (r: SelectorType)
    ensures
        ({
            let (complex, class, pseudos) = classify_state(selector.components@);
            match r {
                SelectorType::SimpleClass(n) => !complex && class == Some(n@) && pseudos.len() == 0,
                SelectorType::ClassWithPseudo(n, ps) => !complex && class == Some(n@) && pseudos.len() > 0
                    && ps@.map_values(|x: String| x@) == pseudos,
                SelectorType::Complex => complex || class is None,
            }
        }),
{
    let cs = &selector.components;
    let mut class_name: Option<String> = None;
    let mut pseudo_classes: Vec<String> = Vec::new();
    let mut is_complex = false;
    for i in 0..cs.len()
        invariant
            ({
                let (complex, class, pseudos) = classify_state(cs@.subrange(0, i as int));
                &&& is_complex == complex
                &&& match class_name {
                    Some(n) => class == Some(n@),
                    None => class is None,
                }
                &&& pseudo_classes@.map_values(|x: String| x@) == pseudos
            }),
    {
        assert(cs@.subrange(0, i + 1).drop_last() =~= cs@.subrange(0, i as int));
        let ghost before = pseudo_classes@;
        match &cs[i].kind {
            ComponentKind::Class(c) => {
                if class_name.is_some() {
                    is_complex = true;
                } else {
                    class_name = Some(c.clone());
                }
            },
            ComponentKind::PseudoClass => {
                pseudo_classes.push(cs[i].text.clone());
                assert(pseudo_classes@.map_values(|x: String| x@) =~= before.map_values(
                    |x: String| x@,
                ).push(cs@[i as int].text@));
            },
            _ => {
                is_complex = true;
            },
        }
    }
    assert(cs@.subrange(0, cs@.len() as int) =~= cs@);
    if is_complex {
        return SelectorType::Complex;
    }
    match class_name {
        Some(name) => if pseudo_classes.len() == 0 {
            SelectorType::SimpleClass(name)
        } else {
            SelectorType::ClassWithPseudo(name, pseudo_classes)
        },
        None => SelectorType::Complex,
    }
}

/// The state pseudo-classes that Tailwind names after themselves.
pub open spec fn is_state_pseudo_class(x: Seq<char>) -> bool {
    ||| x == "hover"@
    ||| x == "focus"@
    ||| x == "active"@
    ||| x == "disabled"@
    ||| x == "checked"@
    ||| x == "valid"@
    ||| x == "invalid"@
    ||| x == "required"@
}

/// The pseudo-elements that Tailwind names after themselves.
pub open spec fn is_named_pseudo_element(x: Seq<char>) -> bool {
    ||| x == "before"@
    ||| x == "after"@
    ||| x == "placeholder"@
    ||| x == "marker"@
    ||| x == "selection"@
}

/// A state pseudo-class `:x` (hover, focus, active, disabled, checked,
/// valid, invalid, required) is read as the variant of the same name: the
/// prefix of its variant is `x:`.
pub proof fn law_pseudo_class_named(x: Seq<char>)
    requires
        is_state_pseudo_class(x),
    ensures
        pseudo_key(":"@ + x) is Some,
        prefix_of_key(pseudo_key(":"@ + x)->0) == x + ":"@,
{
    reveal_strlit(":");
    reveal_strlit(":hover");
    reveal_strlit(":focus");
    reveal_strlit(":active");
    reveal_strlit(":disabled");
    reveal_strlit(":checked");
    reveal_strlit(":valid");
    reveal_strlit(":invalid");
    reveal_strlit(":required");
    reveal_strlit("hover");
    reveal_strlit("focus");
    reveal_strlit("active");
    reveal_strlit("disabled");
    reveal_strlit("checked");
    reveal_strlit("valid");
    reveal_strlit("invalid");
    reveal_strlit("required");
    reveal_strlit("hover:");
    reveal_strlit("focus:");
    reveal_strlit("active:");
    reveal_strlit("disabled:");
    reveal_strlit("checked:");
    reveal_strlit("valid:");
    reveal_strlit("invalid:");
    reveal_strlit("required:");
    let p = ":"@ + x;
    if x == "hover"@ {
        assert(p =~= ":hover"@);
        assert(x + ":"@ =~= "hover:"@);
    } else if x == "focus"@ {
        assert(p =~= ":focus"@);
        assert(p != ":hover"@) by { assert(p[1] != ":hover"@[1]); }
        assert(x + ":"@ =~= "focus:"@);
    } else if x == "active"@ {
        assert(p =~= ":active"@);
        assert(p != ":hover"@) by { assert(p[1] != ":hover"@[1]); }
        assert(p != ":focus"@) by { assert(p[1] != ":focus"@[1]); }
        assert(x + ":"@ =~= "active:"@);
    } else if x == "disabled"@ {
        assert(p =~= ":disabled"@);
        assert(x + ":"@ =~= "disabled:"@);
    } else if x == "checked"@ {
        assert(p =~= ":checked"@);
        assert(p != ":disabled"@) by { assert(p[1] != ":disabled"@[1]); }
        assert(x + ":"@ =~= "checked:"@);
    } else if x == "valid"@ {
        assert(p =~= ":valid"@);
        assert(p != ":hover"@) by { assert(p[1] != ":hover"@[1]); }
        assert(p != ":focus"@) by { assert(p[1] != ":focus"@[1]); }
        assert(x + ":"@ =~= "valid:"@);
    } else if x == "invalid"@ {
        assert(p =~= ":invalid"@);
        assert(p != ":checked"@) by { assert(p[1] != ":checked"@[1]); }
        assert(x + ":"@ =~= "invalid:"@);
    } else {
        assert(p =~= ":required"@);
        assert(p != ":disabled"@) by { assert(p[1] != ":disabled"@[1]); }
        assert(p != ":checked"@) by { assert(p[1] != ":checked"@[1]); }
        assert(p != ":invalid"@) by { assert(p[1] != ":invalid"@[1]); }
        assert(x + ":"@ =~= "required:"@);
    }
}

/// A pseudo-element `::x` (before, after, placeholder, marker, selection)
/// is read as the variant of the same name: the prefix of its variant is
/// `x:`.
pub proof fn law_pseudo_element_named(x: Seq<char>)
    requires
        is_named_pseudo_element(x),
    ensures
        pseudo_key("::"@ + x) is Some,
        prefix_of_key(pseudo_key("::"@ + x)->0) == x + ":"@,
{
    reveal_strlit(":");
    reveal_strlit("::");
    reveal_strlit("::after");
    reveal_strlit("::before");
    reveal_strlit("::marker");
    reveal_strlit("::placeholder");
    reveal_strlit("::selection");
    reveal_strlit(":active");
    reveal_strlit(":after");
    reveal_strlit(":before");
    reveal_strlit(":checked");
    reveal_strlit(":disabled");
    reveal_strlit(":first-child");
    reveal_strlit(":focus");
    reveal_strlit(":hover");
    reveal_strlit(":invalid");
    reveal_strlit(":last-child");
    reveal_strlit(":nth-child(2n)");
    reveal_strlit(":nth-child(2n+1)");
    reveal_strlit(":nth-child(even)");
    reveal_strlit(":nth-child(odd)");
    reveal_strlit(":placeholder");
    reveal_strlit(":required");
    reveal_strlit(":valid");
    reveal_strlit("after");
    reveal_strlit("after:");
    reveal_strlit("before");
    reveal_strlit("before:");
    reveal_strlit("marker");
    reveal_strlit("marker:");
    reveal_strlit("placeholder");
    reveal_strlit("placeholder:");
    reveal_strlit("selection");
    reveal_strlit("selection:");
    let p = "::"@ + x;
    if x == "before"@ {
        assert(p =~= "::before"@);
        assert(p[1] == ':');
        assert(p != ":hover"@) by { assert(p[1] != ":hover"@[1]); }
        assert(p != ":focus"@) by { assert(p[1] != ":focus"@[1]); }
        assert(p != ":active"@) by { assert(p[1] != ":active"@[1]); }
        assert(p != ":disabled"@) by { assert(p[1] != ":disabled"@[1]); }
        assert(p != ":checked"@) by { assert(p[1] != ":checked"@[1]); }
        assert(p != ":valid"@) by { assert(p[1] != ":valid"@[1]); }
        assert(p != ":invalid"@) by { assert(p[1] != ":invalid"@[1]); }
        assert(p != ":required"@) by { assert(p[1] != ":required"@[1]); }
        assert(p != ":first-child"@) by { assert(p[1] != ":first-child"@[1]); }
        assert(p != ":last-child"@) by { assert(p[1] != ":last-child"@[1]); }
        assert(p != ":nth-child(odd)"@) by { assert(p[1] != ":nth-child(odd)"@[1]); }
        assert(p != ":nth-child(2n+1)"@) by { assert(p[1] != ":nth-child(2n+1)"@[1]); }
        assert(p != ":nth-child(even)"@) by { assert(p[1] != ":nth-child(even)"@[1]); }
        assert(p != ":nth-child(2n)"@) by { assert(p[1] != ":nth-child(2n)"@[1]); }
        assert(x + ":"@ =~= "before:"@);
    } else if x == "after"@ {
        assert(p =~= "::after"@);
        assert(p[1] == ':');
        assert(p != ":hover"@) by { assert(p[1] != ":hover"@[1]); }
        assert(p != ":focus"@) by { assert(p[1] != ":focus"@[1]); }
        assert(p != ":active"@) by { assert(p[1] != ":active"@[1]); }
        assert(p != ":disabled"@) by { assert(p[1] != ":disabled"@[1]); }
        assert(p != ":checked"@) by { assert(p[1] != ":checked"@[1]); }
        assert(p != ":valid"@) by { assert(p[1] != ":valid"@[1]); }
        assert(p != ":invalid"@) by { assert(p[1] != ":invalid"@[1]); }
        assert(p != ":required"@) by { assert(p[1] != ":required"@[1]); }
        assert(p != ":first-child"@) by { assert(p[1] != ":first-child"@[1]); }
        assert(p != ":last-child"@) by { assert(p[1] != ":last-child"@[1]); }
        assert(p != ":nth-child(odd)"@) by { assert(p[1] != ":nth-child(odd)"@[1]); }
        assert(p != ":nth-child(2n+1)"@) by { assert(p[1] != ":nth-child(2n+1)"@[1]); }
        assert(p != ":nth-child(even)"@) by { assert(p[1] != ":nth-child(even)"@[1]); }
        assert(p != ":nth-child(2n)"@) by { assert(p[1] != ":nth-child(2n)"@[1]); }
        assert(p != "::before"@) by { assert(p.len() != "::before"@.len()); }
        assert(p != ":before"@) by { assert(p[2] != ":before"@[2]); }
        assert(x + ":"@ =~= "after:"@);
    } else if x == "placeholder"@ {
        assert(p =~= "::placeholder"@);
        assert(p[1] == ':');
        assert(p != ":hover"@) by { assert(p[1] != ":hover"@[1]); }
        assert(p != ":focus"@) by { assert(p[1] != ":focus"@[1]); }
        assert(p != ":active"@) by { assert(p[1] != ":active"@[1]); }
        assert(p != ":disabled"@) by { assert(p[1] != ":disabled"@[1]); }
        assert(p != ":checked"@) by { assert(p[1] != ":checked"@[1]); }
        assert(p != ":valid"@) by { assert(p[1] != ":valid"@[1]); }
        assert(p != ":invalid"@) by { assert(p[1] != ":invalid"@[1]); }
        assert(p != ":required"@) by { assert(p[1] != ":required"@[1]); }
        assert(p != ":first-child"@) by { assert(p[1] != ":first-child"@[1]); }
        assert(p != ":last-child"@) by { assert(p[1] != ":last-child"@[1]); }
        assert(p != ":nth-child(odd)"@) by { assert(p[1] != ":nth-child(odd)"@[1]); }
        assert(p != ":nth-child(2n+1)"@) by { assert(p[1] != ":nth-child(2n+1)"@[1]); }
        assert(p != ":nth-child(even)"@) by { assert(p[1] != ":nth-child(even)"@[1]); }
        assert(p != ":nth-child(2n)"@) by { assert(p[1] != ":nth-child(2n)"@[1]); }
        assert(p != "::before"@) by { assert(p.len() != "::before"@.len()); }
        assert(p != ":before"@) by { assert(p.len() != ":before"@.len()); }
        assert(p != "::after"@) by { assert(p.len() != "::after"@.len()); }
        assert(p != ":after"@) by { assert(p.len() != ":after"@.len()); }
        assert(x + ":"@ =~= "placeholder:"@);
    } else if x == "marker"@ {
        assert(p =~= "::marker"@);
        assert(p[1] == ':');
        assert(p != ":hover"@) by { assert(p[1] != ":hover"@[1]); }
        assert(p != ":focus"@) by { assert(p[1] != ":focus"@[1]); }
        assert(p != ":active"@) by { assert(p[1] != ":active"@[1]); }
        assert(p != ":disabled"@) by { assert(p[1] != ":disabled"@[1]); }
        assert(p != ":checked"@) by { assert(p[1] != ":checked"@[1]); }
        assert(p != ":valid"@) by { assert(p[1] != ":valid"@[1]); }
        assert(p != ":invalid"@) by { assert(p[1] != ":invalid"@[1]); }
        assert(p != ":required"@) by { assert(p[1] != ":required"@[1]); }
        assert(p != ":first-child"@) by { assert(p[1] != ":first-child"@[1]); }
        assert(p != ":last-child"@) by { assert(p[1] != ":last-child"@[1]); }
        assert(p != ":nth-child(odd)"@) by { assert(p[1] != ":nth-child(odd)"@[1]); }
        assert(p != ":nth-child(2n+1)"@) by { assert(p[1] != ":nth-child(2n+1)"@[1]); }
        assert(p != ":nth-child(even)"@) by { assert(p[1] != ":nth-child(even)"@[1]); }
        assert(p != ":nth-child(2n)"@) by { assert(p[1] != ":nth-child(2n)"@[1]); }
        assert(p != "::before"@) by { assert(p[2] != "::before"@[2]); }
        assert(p != ":before"@) by { assert(p.len() != ":before"@.len()); }
        assert(p != "::after"@) by { assert(p.len() != "::after"@.len()); }
        assert(p != ":after"@) by { assert(p.len() != ":after"@.len()); }
        assert(p != "::placeholder"@) by { assert(p.len() != "::placeholder"@.len()); }
        assert(p != ":placeholder"@) by { assert(p.len() != ":placeholder"@.len()); }
        assert(x + ":"@ =~= "marker:"@);
    } else {
        assert(p =~= "::selection"@);
        assert(p[1] == ':');
        assert(p != ":hover"@) by { assert(p[1] != ":hover"@[1]); }
        assert(p != ":focus"@) by { assert(p[1] != ":focus"@[1]); }
        assert(p != ":active"@) by { assert(p[1] != ":active"@[1]); }
        assert(p != ":disabled"@) by { assert(p[1] != ":disabled"@[1]); }
        assert(p != ":checked"@) by { assert(p[1] != ":checked"@[1]); }
        assert(p != ":valid"@) by { assert(p[1] != ":valid"@[1]); }
        assert(p != ":invalid"@) by { assert(p[1] != ":invalid"@[1]); }
        assert(p != ":required"@) by { assert(p[1] != ":required"@[1]); }
        assert(p != ":first-child"@) by { assert(p[1] != ":first-child"@[1]); }
        assert(p != ":last-child"@) by { assert(p[1] != ":last-child"@[1]); }
        assert(p != ":nth-child(odd)"@) by { assert(p[1] != ":nth-child(odd)"@[1]); }
        assert(p != ":nth-child(2n+1)"@) by { assert(p[1] != ":nth-child(2n+1)"@[1]); }
        assert(p != ":nth-child(even)"@) by { assert(p[1] != ":nth-child(even)"@[1]); }
        assert(p != ":nth-child(2n)"@) by { assert(p[1] != ":nth-child(2n)"@[1]); }
        assert(p != "::before"@) by { assert(p.len() != "::before"@.len()); }
        assert(p != ":before"@) by { assert(p.len() != ":before"@.len()); }
        assert(p != "::after"@) by { assert(p.len() != "::after"@.len()); }
        assert(p != ":after"@) by { assert(p.len() != ":after"@.len()); }
        assert(p != "::placeholder"@) by { assert(p.len() != "::placeholder"@.len()); }
        assert(p != ":placeholder"@) by { assert(p.len() != ":placeholder"@.len()); }
        assert(p != "::marker"@) by { assert(p.len() != "::marker"@.len()); }
        assert(x + ":"@ =~= "selection:"@);
    }
}

/// The structural pseudo-classes and the one-colon pseudo-elements with a
/// Tailwind variant, each with the prefix of its variant.
pub open spec fn pseudo_prefix_pair(p: Seq<char>, prefix: Seq<char>) -> bool {
    ||| p == ":first-child"@ && prefix == "first:"@
    ||| p == ":last-child"@ && prefix == "last:"@
    ||| p == ":nth-child(odd)"@ && prefix == "odd:"@
    ||| p == ":nth-child(2n+1)"@ && prefix == "odd:"@
    ||| p == ":nth-child(even)"@ && prefix == "even:"@
    ||| p == ":nth-child(2n)"@ && prefix == "even:"@
    ||| p == ":before"@ && prefix == "before:"@
    ||| p == ":after"@ && prefix == "after:"@
    ||| p == ":placeholder"@ && prefix == "placeholder:"@
}

/// `:first-child` is read as `first:`, `:last-child` as `last:`,
/// `:nth-child(odd)` and `:nth-child(2n+1)` as `odd:`, `:nth-child(even)`
/// and `:nth-child(2n)` as `even:`, and the one-colon `:before`, `:after`
/// and `:placeholder` as their pseudo-elements.
pub proof fn law_pseudo_structural(p: Seq<char>, prefix: Seq<char>)
    requires
        pseudo_prefix_pair(p, prefix),
    ensures
        pseudo_key(p) is Some,
        prefix_of_key(pseudo_key(p)->0) == prefix,
{
    reveal_strlit("::after");
    reveal_strlit("::before");
    reveal_strlit("::marker");
    reveal_strlit("::placeholder");
    reveal_strlit("::selection");
    reveal_strlit(":active");
    reveal_strlit(":after");
    reveal_strlit(":before");
    reveal_strlit(":checked");
    reveal_strlit(":disabled");
    reveal_strlit(":first-child");
    reveal_strlit(":focus");
    reveal_strlit(":hover");
    reveal_strlit(":invalid");
    reveal_strlit(":last-child");
    reveal_strlit(":nth-child(2n)");
    reveal_strlit(":nth-child(2n+1)");
    reveal_strlit(":nth-child(even)");
    reveal_strlit(":nth-child(odd)");
    reveal_strlit(":placeholder");
    reveal_strlit(":required");
    reveal_strlit(":valid");
    reveal_strlit("after:");
    reveal_strlit("before:");
    reveal_strlit("even:");
    reveal_strlit("first:");
    reveal_strlit("last:");
    reveal_strlit("odd:");
    reveal_strlit("placeholder:");
    if p == ":first-child"@ {
        assert(p != ":hover"@) by { assert(p.len() != ":hover"@.len()); }
        assert(p != ":focus"@) by { assert(p.len() != ":focus"@.len()); }
        assert(p != ":active"@) by { assert(p.len() != ":active"@.len()); }
        assert(p != ":disabled"@) by { assert(p.len() != ":disabled"@.len()); }
        assert(p != ":checked"@) by { assert(p.len() != ":checked"@.len()); }
        assert(p != ":valid"@) by { assert(p.len() != ":valid"@.len()); }
        assert(p != ":invalid"@) by { assert(p.len() != ":invalid"@.len()); }
        assert(p != ":required"@) by { assert(p.len() != ":required"@.len()); }
        assert(p != ":last-child"@) by { assert(p.len() != ":last-child"@.len()); }
        assert(p != ":nth-child(odd)"@) by { assert(p.len() != ":nth-child(odd)"@.len()); }
        assert(p != ":nth-child(2n+1)"@) by { assert(p.len() != ":nth-child(2n+1)"@.len()); }
        assert(p != ":nth-child(even)"@) by { assert(p.len() != ":nth-child(even)"@.len()); }
        assert(p != ":nth-child(2n)"@) by { assert(p.len() != ":nth-child(2n)"@.len()); }
        assert(p != ":before"@) by { assert(p.len() != ":before"@.len()); }
        assert(p != ":after"@) by { assert(p.len() != ":after"@.len()); }
        assert(p != ":placeholder"@) by { assert(p[1] != ":placeholder"@[1]); }
        assert(prefix == "first:"@);
    } else if p == ":last-child"@ {
        assert(p != ":hover"@) by { assert(p.len() != ":hover"@.len()); }
        assert(p != ":focus"@) by { assert(p.len() != ":focus"@.len()); }
        assert(p != ":active"@) by { assert(p.len() != ":active"@.len()); }
        assert(p != ":disabled"@) by { assert(p.len() != ":disabled"@.len()); }
        assert(p != ":checked"@) by { assert(p.len() != ":checked"@.len()); }
        assert(p != ":valid"@) by { assert(p.len() != ":valid"@.len()); }
        assert(p != ":invalid"@) by { assert(p.len() != ":invalid"@.len()); }
        assert(p != ":required"@) by { assert(p.len() != ":required"@.len()); }
        assert(p != ":first-child"@) by { assert(p.len() != ":first-child"@.len()); }
        assert(p != ":nth-child(odd)"@) by { assert(p.len() != ":nth-child(odd)"@.len()); }
        assert(p != ":nth-child(2n+1)"@) by { assert(p.len() != ":nth-child(2n+1)"@.len()); }
        assert(p != ":nth-child(even)"@) by { assert(p.len() != ":nth-child(even)"@.len()); }
        assert(p != ":nth-child(2n)"@) by { assert(p.len() != ":nth-child(2n)"@.len()); }
        assert(p != ":before"@) by { assert(p.len() != ":before"@.len()); }
        assert(p != ":after"@) by { assert(p.len() != ":after"@.len()); }
        assert(p != ":placeholder"@) by { assert(p.len() != ":placeholder"@.len()); }
        assert(prefix == "last:"@);
    } else if p == ":nth-child(odd)"@ {
        assert(p != ":hover"@) by { assert(p.len() != ":hover"@.len()); }
        assert(p != ":focus"@) by { assert(p.len() != ":focus"@.len()); }
        assert(p != ":active"@) by { assert(p.len() != ":active"@.len()); }
        assert(p != ":disabled"@) by { assert(p.len() != ":disabled"@.len()); }
        assert(p != ":checked"@) by { assert(p.len() != ":checked"@.len()); }
        assert(p != ":valid"@) by { assert(p.len() != ":valid"@.len()); }
        assert(p != ":invalid"@) by { assert(p.len() != ":invalid"@.len()); }
        assert(p != ":required"@) by { assert(p.len() != ":required"@.len()); }
        assert(p != ":first-child"@) by { assert(p.len() != ":first-child"@.len()); }
        assert(p != ":last-child"@) by { assert(p.len() != ":last-child"@.len()); }
        assert(p != ":nth-child(2n+1)"@) by { assert(p.len() != ":nth-child(2n+1)"@.len()); }
        assert(p != ":nth-child(even)"@) by { assert(p.len() != ":nth-child(even)"@.len()); }
        assert(p != ":nth-child(2n)"@) by { assert(p.len() != ":nth-child(2n)"@.len()); }
        assert(p != ":before"@) by { assert(p.len() != ":before"@.len()); }
        assert(p != ":after"@) by { assert(p.len() != ":after"@.len()); }
        assert(p != ":placeholder"@) by { assert(p.len() != ":placeholder"@.len()); }
        assert(prefix == "odd:"@);
    } else if p == ":nth-child(2n+1)"@ {
        assert(p != ":hover"@) by { assert(p.len() != ":hover"@.len()); }
        assert(p != ":focus"@) by { assert(p.len() != ":focus"@.len()); }
        assert(p != ":active"@) by { assert(p.len() != ":active"@.len()); }
        assert(p != ":disabled"@) by { assert(p.len() != ":disabled"@.len()); }
        assert(p != ":checked"@) by { assert(p.len() != ":checked"@.len()); }
        assert(p != ":valid"@) by { assert(p.len() != ":valid"@.len()); }
        assert(p != ":invalid"@) by { assert(p.len() != ":invalid"@.len()); }
        assert(p != ":required"@) by { assert(p.len() != ":required"@.len()); }
        assert(p != ":first-child"@) by { assert(p.len() != ":first-child"@.len()); }
        assert(p != ":last-child"@) by { assert(p.len() != ":last-child"@.len()); }
        assert(p != ":nth-child(odd)"@) by { assert(p.len() != ":nth-child(odd)"@.len()); }
        assert(p != ":nth-child(even)"@) by { assert(p[11] != ":nth-child(even)"@[11]); }
        assert(p != ":nth-child(2n)"@) by { assert(p.len() != ":nth-child(2n)"@.len()); }
        assert(p != ":before"@) by { assert(p.len() != ":before"@.len()); }
        assert(p != ":after"@) by { assert(p.len() != ":after"@.len()); }
        assert(p != ":placeholder"@) by { assert(p.len() != ":placeholder"@.len()); }
        assert(prefix == "odd:"@);
    } else if p == ":nth-child(even)"@ {
        assert(p != ":hover"@) by { assert(p.len() != ":hover"@.len()); }
        assert(p != ":focus"@) by { assert(p.len() != ":focus"@.len()); }
        assert(p != ":active"@) by { assert(p.len() != ":active"@.len()); }
        assert(p != ":disabled"@) by { assert(p.len() != ":disabled"@.len()); }
        assert(p != ":checked"@) by { assert(p.len() != ":checked"@.len()); }
        assert(p != ":valid"@) by { assert(p.len() != ":valid"@.len()); }
        assert(p != ":invalid"@) by { assert(p.len() != ":invalid"@.len()); }
        assert(p != ":required"@) by { assert(p.len() != ":required"@.len()); }
        assert(p != ":first-child"@) by { assert(p.len() != ":first-child"@.len()); }
        assert(p != ":last-child"@) by { assert(p.len() != ":last-child"@.len()); }
        assert(p != ":nth-child(odd)"@) by { assert(p.len() != ":nth-child(odd)"@.len()); }
        assert(p != ":nth-child(2n+1)"@) by { assert(p[11] != ":nth-child(2n+1)"@[11]); }
        assert(p != ":nth-child(2n)"@) by { assert(p.len() != ":nth-child(2n)"@.len()); }
        assert(p != ":before"@) by { assert(p.len() != ":before"@.len()); }
        assert(p != ":after"@) by { assert(p.len() != ":after"@.len()); }
        assert(p != ":placeholder"@) by { assert(p.len() != ":placeholder"@.len()); }
        assert(prefix == "even:"@);
    } else if p == ":nth-child(2n)"@ {
        assert(p != ":hover"@) by { assert(p.len() != ":hover"@.len()); }
        assert(p != ":focus"@) by { assert(p.len() != ":focus"@.len()); }
        assert(p != ":active"@) by { assert(p.len() != ":active"@.len()); }
        assert(p != ":disabled"@) by { assert(p.len() != ":disabled"@.len()); }
        assert(p != ":checked"@) by { assert(p.len() != ":checked"@.len()); }
        assert(p != ":valid"@) by { assert(p.len() != ":valid"@.len()); }
        assert(p != ":invalid"@) by { assert(p.len() != ":invalid"@.len()); }
        assert(p != ":required"@) by { assert(p.len() != ":required"@.len()); }
        assert(p != ":first-child"@) by { assert(p.len() != ":first-child"@.len()); }
        assert(p != ":last-child"@) by { assert(p.len() != ":last-child"@.len()); }
        assert(p != ":nth-child(odd)"@) by { assert(p.len() != ":nth-child(odd)"@.len()); }
        assert(p != ":nth-child(2n+1)"@) by { assert(p.len() != ":nth-child(2n+1)"@.len()); }
        assert(p != ":nth-child(even)"@) by { assert(p.len() != ":nth-child(even)"@.len()); }
        assert(p != ":before"@) by { assert(p.len() != ":before"@.len()); }
        assert(p != ":after"@) by { assert(p.len() != ":after"@.len()); }
        assert(p != ":placeholder"@) by { assert(p.len() != ":placeholder"@.len()); }
        assert(prefix == "even:"@);
    } else if p == ":before"@ {
        assert(p != ":hover"@) by { assert(p.len() != ":hover"@.len()); }
        assert(p != ":focus"@) by { assert(p.len() != ":focus"@.len()); }
        assert(p != ":active"@) by { assert(p[1] != ":active"@[1]); }
        assert(p != ":disabled"@) by { assert(p.len() != ":disabled"@.len()); }
        assert(p != ":checked"@) by { assert(p.len() != ":checked"@.len()); }
        assert(p != ":valid"@) by { assert(p.len() != ":valid"@.len()); }
        assert(p != ":invalid"@) by { assert(p.len() != ":invalid"@.len()); }
        assert(p != ":required"@) by { assert(p.len() != ":required"@.len()); }
        assert(p != ":first-child"@) by { assert(p.len() != ":first-child"@.len()); }
        assert(p != ":last-child"@) by { assert(p.len() != ":last-child"@.len()); }
        assert(p != ":nth-child(odd)"@) by { assert(p.len() != ":nth-child(odd)"@.len()); }
        assert(p != ":nth-child(2n+1)"@) by { assert(p.len() != ":nth-child(2n+1)"@.len()); }
        assert(p != ":nth-child(even)"@) by { assert(p.len() != ":nth-child(even)"@.len()); }
        assert(p != ":nth-child(2n)"@) by { assert(p.len() != ":nth-child(2n)"@.len()); }
        assert(p != "::before"@) by { assert(p.len() != "::before"@.len()); }
        assert(p != ":after"@) by { assert(p.len() != ":after"@.len()); }
        assert(p != ":placeholder"@) by { assert(p.len() != ":placeholder"@.len()); }
        assert(prefix == "before:"@);
    } else if p == ":after"@ {
        assert(p != ":hover"@) by { assert(p[1] != ":hover"@[1]); }
        assert(p != ":focus"@) by { assert(p[1] != ":focus"@[1]); }
        assert(p != ":active"@) by { assert(p.len() != ":active"@.len()); }
        assert(p != ":disabled"@) by { assert(p.len() != ":disabled"@.len()); }
        assert(p != ":checked"@) by { assert(p.len() != ":checked"@.len()); }
        assert(p != ":valid"@) by { assert(p[1] != ":valid"@[1]); }
        assert(p != ":invalid"@) by { assert(p.len() != ":invalid"@.len()); }
        assert(p != ":required"@) by { assert(p.len() != ":required"@.len()); }
        assert(p != ":first-child"@) by { assert(p.len() != ":first-child"@.len()); }
        assert(p != ":last-child"@) by { assert(p.len() != ":last-child"@.len()); }
        assert(p != ":nth-child(odd)"@) by { assert(p.len() != ":nth-child(odd)"@.len()); }
        assert(p != ":nth-child(2n+1)"@) by { assert(p.len() != ":nth-child(2n+1)"@.len()); }
        assert(p != ":nth-child(even)"@) by { assert(p.len() != ":nth-child(even)"@.len()); }
        assert(p != ":nth-child(2n)"@) by { assert(p.len() != ":nth-child(2n)"@.len()); }
        assert(p != "::before"@) by { assert(p.len() != "::before"@.len()); }
        assert(p != ":before"@) by { assert(p.len() != ":before"@.len()); }
        assert(p != "::after"@) by { assert(p.len() != "::after"@.len()); }
        assert(p != ":placeholder"@) by { assert(p.len() != ":placeholder"@.len()); }
        assert(prefix == "after:"@);
    } else {
        assert(p == ":placeholder"@);
        assert(p != ":hover"@) by { assert(p.len() != ":hover"@.len()); }
        assert(p != ":focus"@) by { assert(p.len() != ":focus"@.len()); }
        assert(p != ":active"@) by { assert(p.len() != ":active"@.len()); }
        assert(p != ":disabled"@) by { assert(p.len() != ":disabled"@.len()); }
        assert(p != ":checked"@) by { assert(p.len() != ":checked"@.len()); }
        assert(p != ":valid"@) by { assert(p.len() != ":valid"@.len()); }
        assert(p != ":invalid"@) by { assert(p.len() != ":invalid"@.len()); }
        assert(p != ":required"@) by { assert(p.len() != ":required"@.len()); }
        assert(p != ":first-child"@) by { assert(p[1] != ":first-child"@[1]); }
        assert(p != ":last-child"@) by { assert(p.len() != ":last-child"@.len()); }
        assert(p != ":nth-child(odd)"@) by { assert(p.len() != ":nth-child(odd)"@.len()); }
        assert(p != ":nth-child(2n+1)"@) by { assert(p.len() != ":nth-child(2n+1)"@.len()); }
        assert(p != ":nth-child(even)"@) by { assert(p.len() != ":nth-child(even)"@.len()); }
        assert(p != ":nth-child(2n)"@) by { assert(p.len() != ":nth-child(2n)"@.len()); }
        assert(p != "::before"@) by { assert(p.len() != "::before"@.len()); }
        assert(p != ":before"@) by { assert(p.len() != ":before"@.len()); }
        assert(p != "::after"@) by { assert(p.len() != "::after"@.len()); }
        assert(p != ":after"@) by { assert(p.len() != ":after"@.len()); }
        assert(p != "::placeholder"@) by { assert(p.len() != "::placeholder"@.len()); }
        assert(prefix == "placeholder:"@);
    }
}


} // verus!
