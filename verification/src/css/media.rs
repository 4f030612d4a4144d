//! The Tailwind variant of an `@media` query.
//!
//! Tailwind's breakpoints (`sm` to `2xl`) are recognised in both the
//! `(min-width: 640px)` and the `(width >= 640px)` syntax. Other bounds
//! become `max-[...]` or a bare breakpoint value, following the patterns
//! `(?:max-width:\s*|width\s*<=\s*)([^)]+)` and
//! `(?:min-width:\s*|width\s*>=\s*)([^)]+)` (the captured value trimmed);
//! anything else becomes an arbitrary `[@media_...]` variant.

use crate::tailwind::mapping::chars_opt;
use crate::tailwind::values::is_lit;
use crate::tailwind::vars::{lemma_paren_end, lemma_paren_end_at, lemma_ws_end, paren_end, paren_end_exec, ws_end, ws_end_exec};
use crate::text::{
    is_ws, trim_end, trim_start,
    chars_of, matches_at, occurs_at, push_all, push_str, replace_char, replace_char_chars,
    slice_chars, string_of, trim, trim_chars,
};
use crate::variant::{prefix_of_key, TailwindVariant};
use vstd::prelude::*;

verus! {

/// The value that `[^)]+` captures after optional white space from `base`,
/// trimmed; `None` where nothing but `)` or the end follows.
pub open spec fn capture_after(q: Seq<char>, base: int) -> Option<Seq<char>> {
    let k = ws_end(q, base);
    let e = paren_end(q, k);
    if e > k {
        Some(trim(q.subrange(k, e)))
    } else if k > base {
        Some(Seq::empty())
    } else {
        None
    }
}

/// The bound matched at `i`: `kw` (such as `max-width:`), or `width`, white
/// space and `op` (such as `<=`), then the captured value.
pub open spec fn bound_at(q: Seq<char>, i: int, kw: Seq<char>, op: Seq<char>) -> Option<Seq<char>> {
    if occurs_at(q, kw, i) {
        capture_after(q, i + kw.len())
    } else if occurs_at(q, "width"@, i) {
        let a = ws_end(q, i + 5);
        if occurs_at(q, op, a) {
            capture_after(q, a + op.len())
        } else {
            None
        }
    } else {
        None
    }
}

/// The leftmost bound at or after `i`.
pub open spec fn first_bound(q: Seq<char>, i: int, kw: Seq<char>, op: Seq<char>) -> Option<Seq<char>>
    decreases q.len() + 1 - i,
{
    if i < 0 || i > q.len() {
        None
    } else {
        match bound_at(q, i, kw, op) {
            Some(v) => Some(v),
            None => first_bound(q, i + 1, kw, op),
        }
    }
}

/// The variant of a printed media query, as `TailwindVariant::key` gives it.
pub open spec fn media_key(q: Seq<char>) -> (int, Seq<char>) {
    if q == "(min-width: 640px)"@ || q == "(width >= 640px)"@ {
        (18, "sm"@)
    } else if q == "(min-width: 768px)"@ || q == "(width >= 768px)"@ {
        (18, "md"@)
    } else if q == "(min-width: 1024px)"@ || q == "(width >= 1024px)"@ {
        (18, "lg"@)
    } else if q == "(min-width: 1280px)"@ || q == "(width >= 1280px)"@ {
        (18, "xl"@)
    } else if q == "(min-width: 1536px)"@ || q == "(width >= 1536px)"@ {
        (18, "2xl"@)
    } else {
        match first_bound(q, 0, "max-width:"@, "<="@) {
            Some(v) => (18, "max-["@ + v + "]"@),
            None => match first_bound(q, 0, "min-width:"@, ">="@) {
                Some(v) => (18, v),
                None => (19, "[@media_"@ + replace_char(q, ' ', '_') + "]"@),
            },
        }
    }
}

fn capture_after_exec(q: &[char], base: usize) -> (r: Option<Vec<char>>)
    requires
        base <= q@.len(),
    ensures
        chars_opt(r) == capture_after(q@, base as int),
{
    proof {
        lemma_ws_end(q@, base as int);
    }
    let k = ws_end_exec(q, base);
    proof {
        lemma_paren_end(q@, k as int);
    }
    let e = paren_end_exec(q, k);
    if e > k {
        let v = slice_chars(q, k, e);
        Some(trim_chars(v.as_slice()))
    } else if k > base {
        Some(Vec::new())
    } else {
        None
    }
}

fn bound_at_exec(q: &[char], i: usize, kw: &[char], op: &[char]) -> (r: Option<Vec<char>>)
    requires
        i <= q@.len(),
    ensures
        chars_opt(r) == bound_at(q@, i as int, kw@, op@),
{
    let width = chars_of("width");
    proof {
        reveal_strlit("width");
    }
    if matches_at(q, kw, i) {
        assert(i + kw.len() <= q.len());
        capture_after_exec(q, i + kw.len())
    } else if matches_at(q, width.as_slice(), i) {
        assert(i + 5 <= q.len());
        proof {
            lemma_ws_end(q@, i + 5);
        }
        let a = ws_end_exec(q, i + 5);
        if matches_at(q, op, a) {
            assert(a + op.len() <= q.len());
            capture_after_exec(q, a + op.len())
        } else {
            None
        }
    } else {
        None
    }
}

fn first_bound_exec(q: &[char], kw: &str, op: &str) -> (r: Option<Vec<char>>)
    ensures
        chars_opt(r) == first_bound(q@, 0, kw@, op@),
{
    let k = chars_of(kw);
    let o = chars_of(op);
    let mut i: usize = 0;
    while i <= q.len()
        invariant
            i <= q@.len() + 1,
            k@ == kw@,
            o@ == op@,
            first_bound(q@, 0, kw@, op@) == first_bound(q@, i as int, kw@, op@),
        decreases q@.len() + 1 - i,
    {
        if let Some(v) = bound_at_exec(q, i, k.as_slice(), o.as_slice()) {
            return Some(v);
        }
        if i == q.len() {
            assert(first_bound(q@, i + 1, kw@, op@) is None);
            return None;
        }
        i = i + 1;
    }
    None
}

/// The Tailwind variant of a printed `@media` query: a breakpoint such as
/// `md` for `(min-width: 768px)`, `max-[1120px]` for `(max-width: 1120px)`,
/// else an arbitrary `[@media_...]` variant.
pub fn map_media_query(query: &str) -> (r: TailwindVariant)
    ensures
        r.key() == media_key(query@),
{
    let q = chars_of(query);
    let s = q.as_slice();
    if is_lit(s, "(min-width: 640px)") || is_lit(s, "(width >= 640px)") {
        return TailwindVariant::Media(String::from_str("sm"));
    } else if is_lit(s, "(min-width: 768px)") || is_lit(s, "(width >= 768px)") {
        return TailwindVariant::Media(String::from_str("md"));
    } else if is_lit(s, "(min-width: 1024px)") || is_lit(s, "(width >= 1024px)") {
        return TailwindVariant::Media(String::from_str("lg"));
    } else if is_lit(s, "(min-width: 1280px)") || is_lit(s, "(width >= 1280px)") {
        return TailwindVariant::Media(String::from_str("xl"));
    } else if is_lit(s, "(min-width: 1536px)") || is_lit(s, "(width >= 1536px)") {
        return TailwindVariant::Media(String::from_str("2xl"));
    }
    match first_bound_exec(s, "max-width:", "<=") {
        Some(v) => {
            let mut t = chars_of("max-[");
            push_all(&mut t, v.as_slice());
            push_str(&mut t, "]");
            TailwindVariant::Media(string_of(t.as_slice()))
        },
        None => match first_bound_exec(s, "min-width:", ">=") {
            Some(v) => TailwindVariant::Media(string_of(v.as_slice())),
            None => {
                let mut t = chars_of("[@media_");
                let u = replace_char_chars(s, ' ', '_');
                push_all(&mut t, u.as_slice());
                push_str(&mut t, "]");
                TailwindVariant::Arbitrary(string_of(t.as_slice()))
            },
        },
    }
}

/// Tailwind's default breakpoints: the width `w` of each and its name.
pub open spec fn default_breakpoint(w: Seq<char>, name: Seq<char>) -> bool {
    ||| w == "640px"@ && name == "sm"@
    ||| w == "768px"@ && name == "md"@
    ||| w == "1024px"@ && name == "lg"@
    ||| w == "1280px"@ && name == "xl"@
    ||| w == "1536px"@ && name == "2xl"@
}

/// Each of Tailwind's default breakpoints maps to its own name, in both
/// query syntaxes: `(min-width: W)` and `(width >= W)` give the prefix
/// `name:`.
pub proof fn law_breakpoint_named(w: Seq<char>, name: Seq<char>)
    requires
        default_breakpoint(w, name),
    ensures
        prefix_of_key(media_key("(min-width: "@ + w + ")"@)) == name + ":"@,
        prefix_of_key(media_key("(width >= "@ + w + ")"@)) == name + ":"@,
{
    reveal_strlit("(min-width: ");
    reveal_strlit("(min-width: 1024px)");
    reveal_strlit("(min-width: 1280px)");
    reveal_strlit("(min-width: 1536px)");
    reveal_strlit("(min-width: 640px)");
    reveal_strlit("(min-width: 768px)");
    reveal_strlit("(width >= ");
    reveal_strlit("(width >= 1024px)");
    reveal_strlit("(width >= 1280px)");
    reveal_strlit("(width >= 1536px)");
    reveal_strlit("(width >= 640px)");
    reveal_strlit("(width >= 768px)");
    reveal_strlit(")");
    reveal_strlit("1024px");
    reveal_strlit("1280px");
    reveal_strlit("1536px");
    reveal_strlit("2xl");
    reveal_strlit("2xl:");
    reveal_strlit("640px");
    reveal_strlit("768px");
    reveal_strlit(":");
    reveal_strlit("lg");
    reveal_strlit("lg:");
    reveal_strlit("md");
    reveal_strlit("md:");
    reveal_strlit("sm");
    reveal_strlit("sm:");
    reveal_strlit("xl");
    reveal_strlit("xl:");
    let a = "(min-width: "@ + w + ")"@;
    let b = "(width >= "@ + w + ")"@;
    if w == "640px"@ {
        assert(a =~= "(min-width: 640px)"@);
        assert(b =~= "(width >= 640px)"@);
        assert(w != "768px"@) by { assert(w[0] != "768px"@[0]); }
        assert(w != "1024px"@) by { assert(w.len() != "1024px"@.len()); }
        assert(w != "1280px"@) by { assert(w.len() != "1280px"@.len()); }
        assert(w != "1536px"@) by { assert(w.len() != "1536px"@.len()); }
        assert(name == "sm"@);
        assert(name + ":"@ =~= "sm:"@);
    } else if w == "768px"@ {
        assert(a =~= "(min-width: 768px)"@);
        assert(b =~= "(width >= 768px)"@);
        assert(a != "(min-width: 640px)"@) by { assert(a[12] != "(min-width: 640px)"@[12]); }
        assert(a != "(width >= 640px)"@) by { assert(a.len() != "(width >= 640px)"@.len()); }
        assert(b != "(min-width: 640px)"@) by { assert(b.len() != "(min-width: 640px)"@.len()); }
        assert(b != "(width >= 640px)"@) by { assert(b[10] != "(width >= 640px)"@[10]); }
        assert(w != "640px"@) by { assert(w[0] != "640px"@[0]); }
        assert(w != "1024px"@) by { assert(w.len() != "1024px"@.len()); }
        assert(w != "1280px"@) by { assert(w.len() != "1280px"@.len()); }
        assert(w != "1536px"@) by { assert(w.len() != "1536px"@.len()); }
        assert(name == "md"@);
        assert(name + ":"@ =~= "md:"@);
    } else if w == "1024px"@ {
        assert(a =~= "(min-width: 1024px)"@);
        assert(b =~= "(width >= 1024px)"@);
        assert(a != "(min-width: 640px)"@) by { assert(a.len() != "(min-width: 640px)"@.len()); }
        assert(a != "(width >= 640px)"@) by { assert(a.len() != "(width >= 640px)"@.len()); }
        assert(a != "(min-width: 768px)"@) by { assert(a.len() != "(min-width: 768px)"@.len()); }
        assert(a != "(width >= 768px)"@) by { assert(a.len() != "(width >= 768px)"@.len()); }
        assert(b != "(min-width: 640px)"@) by { assert(b.len() != "(min-width: 640px)"@.len()); }
        assert(b != "(width >= 640px)"@) by { assert(b.len() != "(width >= 640px)"@.len()); }
        assert(b != "(min-width: 768px)"@) by { assert(b.len() != "(min-width: 768px)"@.len()); }
        assert(b != "(width >= 768px)"@) by { assert(b.len() != "(width >= 768px)"@.len()); }
        assert(w != "640px"@) by { assert(w.len() != "640px"@.len()); }
        assert(w != "768px"@) by { assert(w.len() != "768px"@.len()); }
        assert(w != "1280px"@) by { assert(w[1] != "1280px"@[1]); }
        assert(w != "1536px"@) by { assert(w[1] != "1536px"@[1]); }
        assert(name == "lg"@);
        assert(name + ":"@ =~= "lg:"@);
    } else if w == "1280px"@ {
        assert(a =~= "(min-width: 1280px)"@);
        assert(b =~= "(width >= 1280px)"@);
        assert(a != "(min-width: 640px)"@) by { assert(a.len() != "(min-width: 640px)"@.len()); }
        assert(a != "(width >= 640px)"@) by { assert(a.len() != "(width >= 640px)"@.len()); }
        assert(a != "(min-width: 768px)"@) by { assert(a.len() != "(min-width: 768px)"@.len()); }
        assert(a != "(width >= 768px)"@) by { assert(a.len() != "(width >= 768px)"@.len()); }
        assert(a != "(min-width: 1024px)"@) by { assert(a[13] != "(min-width: 1024px)"@[13]); }
        assert(a != "(width >= 1024px)"@) by { assert(a.len() != "(width >= 1024px)"@.len()); }
        assert(b != "(min-width: 640px)"@) by { assert(b.len() != "(min-width: 640px)"@.len()); }
        assert(b != "(width >= 640px)"@) by { assert(b.len() != "(width >= 640px)"@.len()); }
        assert(b != "(min-width: 768px)"@) by { assert(b.len() != "(min-width: 768px)"@.len()); }
        assert(b != "(width >= 768px)"@) by { assert(b.len() != "(width >= 768px)"@.len()); }
        assert(b != "(min-width: 1024px)"@) by { assert(b.len() != "(min-width: 1024px)"@.len()); }
        assert(b != "(width >= 1024px)"@) by { assert(b[11] != "(width >= 1024px)"@[11]); }
        assert(w != "640px"@) by { assert(w.len() != "640px"@.len()); }
        assert(w != "768px"@) by { assert(w.len() != "768px"@.len()); }
        assert(w != "1024px"@) by { assert(w[1] != "1024px"@[1]); }
        assert(w != "1536px"@) by { assert(w[1] != "1536px"@[1]); }
        assert(name == "xl"@);
        assert(name + ":"@ =~= "xl:"@);
    } else {
        assert(a =~= "(min-width: 1536px)"@);
        assert(b =~= "(width >= 1536px)"@);
        assert(a != "(min-width: 640px)"@) by { assert(a.len() != "(min-width: 640px)"@.len()); }
        assert(a != "(width >= 640px)"@) by { assert(a.len() != "(width >= 640px)"@.len()); }
        assert(a != "(min-width: 768px)"@) by { assert(a.len() != "(min-width: 768px)"@.len()); }
        assert(a != "(width >= 768px)"@) by { assert(a.len() != "(width >= 768px)"@.len()); }
        assert(a != "(min-width: 1024px)"@) by { assert(a[13] != "(min-width: 1024px)"@[13]); }
        assert(a != "(width >= 1024px)"@) by { assert(a.len() != "(width >= 1024px)"@.len()); }
        assert(a != "(min-width: 1280px)"@) by { assert(a[13] != "(min-width: 1280px)"@[13]); }
        assert(a != "(width >= 1280px)"@) by { assert(a.len() != "(width >= 1280px)"@.len()); }
        assert(b != "(min-width: 640px)"@) by { assert(b.len() != "(min-width: 640px)"@.len()); }
        assert(b != "(width >= 640px)"@) by { assert(b.len() != "(width >= 640px)"@.len()); }
        assert(b != "(min-width: 768px)"@) by { assert(b.len() != "(min-width: 768px)"@.len()); }
        assert(b != "(width >= 768px)"@) by { assert(b.len() != "(width >= 768px)"@.len()); }
        assert(b != "(min-width: 1024px)"@) by { assert(b.len() != "(min-width: 1024px)"@.len()); }
        assert(b != "(width >= 1024px)"@) by { assert(b[11] != "(width >= 1024px)"@[11]); }
        assert(b != "(min-width: 1280px)"@) by { assert(b.len() != "(min-width: 1280px)"@.len()); }
        assert(b != "(width >= 1280px)"@) by { assert(b[11] != "(width >= 1280px)"@[11]); }
        assert(w != "640px"@) by { assert(w.len() != "640px"@.len()); }
        assert(w != "768px"@) by { assert(w.len() != "768px"@.len()); }
        assert(w != "1024px"@) by { assert(w[1] != "1024px"@[1]); }
        assert(w != "1280px"@) by { assert(w[1] != "1280px"@[1]); }
        assert(name == "2xl"@);
        assert(name + ":"@ =~= "2xl:"@);
    }
}

/// A bound that a query can hold: not empty, without white space at
/// either end, and without `)`.
pub open spec fn is_bound_value(w: Seq<char>) -> bool {
    &&& w.len() > 0
    &&& !is_ws(w[0])
    &&& !is_ws(w.last())
    &&& forall|k: int| 0 <= k < w.len() ==> w[k] != ')'
}

proof fn lemma_trim_bound(w: Seq<char>)
    requires
        is_bound_value(w),
    ensures
        trim(w) == w,
{
    assert(trim_start(w) == w);
    assert(trim_end(w) == w);
}

/// The query `head`, then `w`, then `)`: where `w` lies in it.
proof fn lemma_query_parts(head: Seq<char>, w: Seq<char>)
    requires
        is_bound_value(w),
    ensures
        ({
            let q = head + w + ")"@;
            &&& q.len() == head.len() + w.len() + 1
            &&& q.subrange(0, head.len() as int) == head
            &&& q.subrange(head.len() as int, (head.len() + w.len()) as int) == w
            &&& paren_end(q, head.len() as int) == head.len() + w.len()
        }),
{
    reveal_strlit(")");
    let q = head + w + ")"@;
    let a = head.len() as int;
    assert forall|k: int| a <= k < a + w.len() implies q[k] != ')' by {
        assert(q[k] == w[k - a]);
    }
    assert(q[a + w.len()] == ')');
    lemma_paren_end_at(q, a, a + w.len());
    assert(q.subrange(0, a) =~= head);
    assert(q.subrange(a, a + w.len()) =~= w);
}

/// An upper bound other than a breakpoint becomes the arbitrary variant
/// `max-[w]`: `(max-width: w)` and `(width <= w)` give the prefix
/// `max-[w]:`.
#[verifier::spinoff_prover]
pub proof fn law_max_width_bound(w: Seq<char>)
    requires
        is_bound_value(w),
    ensures
        prefix_of_key(media_key("(max-width: "@ + w + ")"@)) == "max-["@ + w + "]:"@,
        prefix_of_key(media_key("(width <= "@ + w + ")"@)) == "max-["@ + w + "]:"@,
{
    reveal_strlit("(max-width: ");
    reveal_strlit("(width <= ");
    reveal_strlit("max-width:");
    reveal_strlit("width");
    reveal_strlit("<=");
    reveal_strlit(")");
    reveal_strlit("max-[");
    reveal_strlit("]");
    reveal_strlit(":");
    reveal_strlit("]:");
    reveal_strlit("(min-width: 640px)");
    reveal_strlit("(width >= 640px)");
    reveal_strlit("(min-width: 768px)");
    reveal_strlit("(width >= 768px)");
    reveal_strlit("(min-width: 1024px)");
    reveal_strlit("(width >= 1024px)");
    reveal_strlit("(min-width: 1280px)");
    reveal_strlit("(width >= 1280px)");
    reveal_strlit("(min-width: 1536px)");
    reveal_strlit("(width >= 1536px)");
    lemma_trim_bound(w);
    assert("max-["@ + w + "]"@ + ":"@ =~= "max-["@ + w + "]:"@);
    // (max-width: w)
    let q = "(max-width: "@ + w + ")"@;
    lemma_query_parts("(max-width: "@, w);
    assert(q[0] == '(' && q[1] == 'm' && q[2] == 'a');
    assert(q != "(min-width: 640px)"@) by { assert(q[2] != "(min-width: 640px)"@[2]); }
    assert(q != "(width >= 640px)"@) by { assert(q[1] != "(width >= 640px)"@[1]); }
    assert(q != "(min-width: 768px)"@) by { assert(q[2] != "(min-width: 768px)"@[2]); }
    assert(q != "(width >= 768px)"@) by { assert(q[1] != "(width >= 768px)"@[1]); }
    assert(q != "(min-width: 1024px)"@) by { assert(q[2] != "(min-width: 1024px)"@[2]); }
    assert(q != "(width >= 1024px)"@) by { assert(q[1] != "(width >= 1024px)"@[1]); }
    assert(q != "(min-width: 1280px)"@) by { assert(q[2] != "(min-width: 1280px)"@[2]); }
    assert(q != "(width >= 1280px)"@) by { assert(q[1] != "(width >= 1280px)"@[1]); }
    assert(q != "(min-width: 1536px)"@) by { assert(q[2] != "(min-width: 1536px)"@[2]); }
    assert(q != "(width >= 1536px)"@) by { assert(q[1] != "(width >= 1536px)"@[1]); }
    assert(!occurs_at(q, "max-width:"@, 0)) by { assert(q.subrange(0, 10)[0] != "max-width:"@[0]); }
    assert(!occurs_at(q, "width"@, 0)) by { assert(q.subrange(0, 5)[0] != "width"@[0]); }
    assert(bound_at(q, 0, "max-width:"@, "<="@) is None);
    assert(occurs_at(q, "max-width:"@, 1)) by { assert(q.subrange(1, 11) =~= "max-width:"@); }
    assert(is_ws(q[11]));
    assert(ws_end(q, 12) == 12);
    assert(ws_end(q, 11) == 12);
    assert(capture_after(q, 11) == Some(w));
    assert(first_bound(q, 1, "max-width:"@, "<="@) == Some(w));
    assert(first_bound(q, 0, "max-width:"@, "<="@) == Some(w));
    // (width <= w)
    let r = "(width <= "@ + w + ")"@;
    lemma_query_parts("(width <= "@, w);
    assert(r[0] == '(' && r[1] == 'w' && r[7] == '<');
    assert(r != "(min-width: 640px)"@) by { assert(r[1] != "(min-width: 640px)"@[1]); }
    assert(r != "(width >= 640px)"@) by { assert(r[7] != "(width >= 640px)"@[7]); }
    assert(r != "(min-width: 768px)"@) by { assert(r[1] != "(min-width: 768px)"@[1]); }
    assert(r != "(width >= 768px)"@) by { assert(r[7] != "(width >= 768px)"@[7]); }
    assert(r != "(min-width: 1024px)"@) by { assert(r[1] != "(min-width: 1024px)"@[1]); }
    assert(r != "(width >= 1024px)"@) by { assert(r[7] != "(width >= 1024px)"@[7]); }
    assert(r != "(min-width: 1280px)"@) by { assert(r[1] != "(min-width: 1280px)"@[1]); }
    assert(r != "(width >= 1280px)"@) by { assert(r[7] != "(width >= 1280px)"@[7]); }
    assert(r != "(min-width: 1536px)"@) by { assert(r[1] != "(min-width: 1536px)"@[1]); }
    assert(r != "(width >= 1536px)"@) by { assert(r[7] != "(width >= 1536px)"@[7]); }
    assert(!occurs_at(r, "max-width:"@, 0)) by { assert(r.subrange(0, 10)[0] != "max-width:"@[0]); }
    assert(!occurs_at(r, "width"@, 0)) by { assert(r.subrange(0, 5)[0] != "width"@[0]); }
    assert(bound_at(r, 0, "max-width:"@, "<="@) is None);
    assert(!occurs_at(r, "max-width:"@, 1)) by { assert(r.subrange(1, 11)[0] != "max-width:"@[0]); }
    assert(occurs_at(r, "width"@, 1)) by { assert(r.subrange(1, 6) =~= "width"@); }
    assert(is_ws(r[6]));
    assert(ws_end(r, 7) == 7);
    assert(ws_end(r, 6) == 7);
    assert(occurs_at(r, "<="@, 7)) by { assert(r.subrange(7, 9) =~= "<="@); }
    assert(is_ws(r[9]));
    assert(ws_end(r, 10) == 10);
    assert(ws_end(r, 9) == 10);
    assert(capture_after(r, 9) == Some(w));
    assert(first_bound(r, 1, "max-width:"@, "<="@) == Some(w));
    assert(first_bound(r, 0, "max-width:"@, "<="@) == Some(w));
}

/// Where `width` can occur in `(min-width: w)` when `w` holds no `width`:
/// only in `min-width` itself.
proof fn lemma_width_once(w: Seq<char>)
    requires
        is_bound_value(w),
        forall|k: int| !occurs_at(w, "width"@, k),
    ensures
        forall|j: int| occurs_at("(min-width: "@ + w + ")"@, "width"@, j) ==> j == 5,
{
    reveal_strlit("(min-width: ");
    reveal_strlit("width");
    reveal_strlit(")");
    let q = "(min-width: "@ + w + ")"@;
    let z = (12 + w.len()) as int;
    assert(q.len() == z + 1);
    assert(q[z] == ')');
    assert forall|j: int| occurs_at(q, "width"@, j) implies j == 5 by {
        assert(q.subrange(j, j + 5)[0] == q[j]);
        assert(q[j] == 'w');
        if j < 12 {
            assert(q[j] == "(min-width: "@[j]);
        } else if j + 5 <= z {
            assert(q.subrange(j, j + 5) =~= w.subrange(j - 12, j - 7));
            assert(occurs_at(w, "width"@, j - 12));
        } else {
            assert(q.subrange(j, j + 5)[z - j] == ')');
        }
    }
}

proof fn lemma_first_bound_none(q: Seq<char>, i: int, kw: Seq<char>, op: Seq<char>)
    requires
        forall|j: int| i <= j <= q.len() ==> bound_at(q, j, kw, op) is None,
    ensures
        first_bound(q, i, kw, op) is None,
    decreases q.len() + 1 - i,
{
    if 0 <= i <= q.len() {
        lemma_first_bound_none(q, i + 1, kw, op);
    }
}

/// A lower bound other than a breakpoint, holding no `width` of its own,
/// becomes a variant named by the bound itself: `(min-width: w)` gives the
/// prefix `w:`.
#[verifier::spinoff_prover]
pub proof fn law_min_width_bound(w: Seq<char>)
    requires
        is_bound_value(w),
        forall|k: int| !occurs_at(w, "width"@, k),
        forall|name: Seq<char>| !default_breakpoint(w, name),
    ensures
        prefix_of_key(media_key("(min-width: "@ + w + ")"@)) == w + ":"@,
{
    reveal_strlit("(min-width: 1024px)");
    reveal_strlit("(min-width: 1280px)");
    reveal_strlit("(min-width: 1536px)");
    reveal_strlit("(min-width: 640px)");
    reveal_strlit("(min-width: 768px)");
    reveal_strlit("(width >= 1024px)");
    reveal_strlit("(width >= 1280px)");
    reveal_strlit("(width >= 1536px)");
    reveal_strlit("(width >= 640px)");
    reveal_strlit("(width >= 768px)");
    reveal_strlit("1024px");
    reveal_strlit("1280px");
    reveal_strlit("1536px");
    reveal_strlit("2xl");
    reveal_strlit("640px");
    reveal_strlit("768px");
    reveal_strlit("lg");
    reveal_strlit("md");
    reveal_strlit("sm");
    reveal_strlit("xl");
    reveal_strlit("(min-width: ");
    reveal_strlit("max-width:");
    reveal_strlit("min-width:");
    reveal_strlit("width");
    reveal_strlit("<=");
    reveal_strlit(">=");
    reveal_strlit(")");
    reveal_strlit(":");
    lemma_trim_bound(w);
    let q = "(min-width: "@ + w + ")"@;
    lemma_query_parts("(min-width: "@, w);
    assert(q[0] == '(' && q[1] == 'm' && q[2] == 'i' && q[10] == ':');
    assert(q != "(min-width: 640px)"@) by {
        if q == "(min-width: 640px)"@ {
            assert(q.subrange(12, 12 + w.len() as int) =~= "(min-width: 640px)"@.subrange(12, 17));
            assert("(min-width: 640px)"@.subrange(12, 17) =~= "640px"@);
            assert(default_breakpoint(w, "sm"@));
        }
    }
    assert(q != "(width >= 640px)"@) by { assert(q[1] != "(width >= 640px)"@[1]); }
    assert(q != "(min-width: 768px)"@) by {
        if q == "(min-width: 768px)"@ {
            assert(q.subrange(12, 12 + w.len() as int) =~= "(min-width: 768px)"@.subrange(12, 17));
            assert("(min-width: 768px)"@.subrange(12, 17) =~= "768px"@);
            assert(default_breakpoint(w, "md"@));
        }
    }
    assert(q != "(width >= 768px)"@) by { assert(q[1] != "(width >= 768px)"@[1]); }
    assert(q != "(min-width: 1024px)"@) by {
        if q == "(min-width: 1024px)"@ {
            assert(q.subrange(12, 12 + w.len() as int) =~= "(min-width: 1024px)"@.subrange(12, 18));
            assert("(min-width: 1024px)"@.subrange(12, 18) =~= "1024px"@);
            assert(default_breakpoint(w, "lg"@));
        }
    }
    assert(q != "(width >= 1024px)"@) by { assert(q[1] != "(width >= 1024px)"@[1]); }
    assert(q != "(min-width: 1280px)"@) by {
        if q == "(min-width: 1280px)"@ {
            assert(q.subrange(12, 12 + w.len() as int) =~= "(min-width: 1280px)"@.subrange(12, 18));
            assert("(min-width: 1280px)"@.subrange(12, 18) =~= "1280px"@);
            assert(default_breakpoint(w, "xl"@));
        }
    }
    assert(q != "(width >= 1280px)"@) by { assert(q[1] != "(width >= 1280px)"@[1]); }
    assert(q != "(min-width: 1536px)"@) by {
        if q == "(min-width: 1536px)"@ {
            assert(q.subrange(12, 12 + w.len() as int) =~= "(min-width: 1536px)"@.subrange(12, 18));
            assert("(min-width: 1536px)"@.subrange(12, 18) =~= "1536px"@);
            assert(default_breakpoint(w, "2xl"@));
        }
    }
    assert(q != "(width >= 1536px)"@) by { assert(q[1] != "(width >= 1536px)"@[1]); }
    lemma_width_once(w);
    assert forall|j: int| 0 <= j <= q.len() implies bound_at(q, j, "max-width:"@, "<="@) is None by {
        if occurs_at(q, "max-width:"@, j) {
            assert(q.subrange(j + 4, j + 9) =~= q.subrange(j, j + 10).subrange(4, 9));
            assert("max-width:"@.subrange(4, 9) =~= "width"@);
            assert(occurs_at(q, "width"@, j + 4));
            assert(j == 1);
            assert(q.subrange(1, 11)[1] != "max-width:"@[1]);
        } else if occurs_at(q, "width"@, j) {
            assert(j == 5);
            assert(ws_end(q, 10) == 10);
            assert(q.subrange(10, 12)[0] != "<="@[0]);
            assert(!occurs_at(q, "<="@, 10));
        }
    }
    lemma_first_bound_none(q, 0, "max-width:"@, "<="@);
    assert(!occurs_at(q, "min-width:"@, 0)) by { assert(q.subrange(0, 10)[0] != "min-width:"@[0]); }
    assert(!occurs_at(q, "width"@, 0)) by { assert(q.subrange(0, 5)[0] != "width"@[0]); }
    assert(bound_at(q, 0, "min-width:"@, ">="@) is None);
    assert(occurs_at(q, "min-width:"@, 1)) by { assert(q.subrange(1, 11) =~= "min-width:"@); }
    assert(is_ws(q[11]));
    assert(ws_end(q, 12) == 12);
    assert(ws_end(q, 11) == 12);
    assert(capture_after(q, 11) == Some(w));
    assert(first_bound(q, 1, "min-width:"@, ">="@) == Some(w));
    assert(first_bound(q, 0, "min-width:"@, ">="@) == Some(w));
}

} // verus!
