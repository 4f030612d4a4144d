//! Lists of class names: ordered as strings are (by character), without
//! repeats, and joined with spaces.

use crate::text::{push_all, push_str};
use vstd::prelude::*;

verus! {

/// `a` comes before `b` in the order of strings: at the first place where
/// they differ the character of `a` is smaller, or `a` is a proper prefix
/// of `b`. (The byte order of UTF-8 texts is this order.)
pub open spec fn lex_lt(a: Seq<char>, b: Seq<char>) -> bool
    decreases a.len(),
{
    if a.len() == 0 {
        b.len() > 0
    } else if b.len() == 0 {
        false
    } else if a[0] != b[0] {
        a[0] < b[0]
    } else {
        lex_lt(a.drop_first(), b.drop_first())
    }
}

/// Each element comes before every later one.
pub open spec fn strictly_sorted(l: Seq<Seq<char>>) -> bool {
    forall|i: int, j: int| 0 <= i < j < l.len() ==> lex_lt(#[trigger] l[i], #[trigger] l[j])
}

/// The list, in order and without repeats, of the strings of a finite set.
pub open spec fn sorted_list(s: Set<Seq<char>>) -> Seq<Seq<char>> {
    choose|l: Seq<Seq<char>>| strictly_sorted(l) && l.to_set() == s
}

/// The strings joined with `sep` between neighbours.
pub open spec fn join_with(l: Seq<Seq<char>>, sep: Seq<char>) -> Seq<char>
    decreases l.len(),
{
    if l.len() == 0 {
        Seq::empty()
    } else if l.len() == 1 {
        l[0]
    } else {
        join_with(l.drop_last(), sep) + sep + l.last()
    }
}

pub proof fn lemma_lex_irreflexive(a: Seq<char>)
    ensures
        !lex_lt(a, a),
    decreases a.len(),
{
    if a.len() > 0 {
        lemma_lex_irreflexive(a.drop_first());
    }
}

pub proof fn lemma_lex_asymmetric(a: Seq<char>, b: Seq<char>)
    ensures
        lex_lt(a, b) ==> !lex_lt(b, a),
    decreases a.len(),
{
    if a.len() > 0 && b.len() > 0 && a[0] == b[0] {
        lemma_lex_asymmetric(a.drop_first(), b.drop_first());
    }
}

pub proof fn lemma_lex_transitive(a: Seq<char>, b: Seq<char>, c: Seq<char>)
    ensures
        lex_lt(a, b) && lex_lt(b, c) ==> lex_lt(a, c),
    decreases a.len(),
{
    if a.len() > 0 && b.len() > 0 && c.len() > 0 && a[0] == b[0] && b[0] == c[0] {
        lemma_lex_transitive(a.drop_first(), b.drop_first(), c.drop_first());
    }
}

pub proof fn lemma_lex_total(a: Seq<char>, b: Seq<char>)
    ensures
        a != b ==> lex_lt(a, b) || lex_lt(b, a),
    decreases a.len(),
{
    if a.len() > 0 && b.len() > 0 && a[0] == b[0] {
        lemma_lex_total(a.drop_first(), b.drop_first());
        if a.drop_first() == b.drop_first() {
            assert(a =~= seq![a[0]] + a.drop_first());
            assert(b =~= seq![b[0]] + b.drop_first());
        }
    } else if a.len() == 0 && b.len() == 0 {
        assert(a =~= b);
    }
}

/// Two sorted lists without repeats that hold the same strings are equal.
pub proof fn lemma_sorted_unique(a: Seq<Seq<char>>, b: Seq<Seq<char>>)
    requires
        strictly_sorted(a),
        strictly_sorted(b),
        a.to_set() == b.to_set(),
    ensures
        a == b,
    decreases a.len(),
{
    if a.len() == 0 {
        if b.len() > 0 {
            assert(b.to_set().contains(b[0]));
        }
        assert(a =~= b);
    } else {
        assert(a.to_set().contains(a[0]));
        assert(b.to_set().contains(a[0]));
        let j = choose|j: int| 0 <= j < b.len() && b[j] == a[0];
        assert(b.to_set().contains(b[0]));
        let i = choose|i: int| 0 <= i < a.len() && a[i] == b[0];
        if j > 0 {
            assert(lex_lt(b[0], b[j]));
            if i > 0 {
                assert(lex_lt(a[0], a[i]));
                lemma_lex_asymmetric(a[0], a[i]);
            } else {
                lemma_lex_irreflexive(a[0]);
            }
        }
        let ta = a.drop_first();
        let tb = b.drop_first();
        assert forall|x: Seq<char>| ta.to_set().contains(x) <==> tb.to_set().contains(x) by {
            if ta.to_set().contains(x) {
                let k = choose|k: int| 0 <= k < ta.len() && ta[k] == x;
                assert(a[k + 1] == x);
                assert(lex_lt(a[0], x));
                lemma_lex_irreflexive(x);
                assert(a.to_set().contains(x));
                let m = choose|m: int| 0 <= m < b.len() && b[m] == x;
                assert(m != 0);
                assert(tb[m - 1] == x);
            }
            if tb.to_set().contains(x) {
                let k = choose|k: int| 0 <= k < tb.len() && tb[k] == x;
                assert(b[k + 1] == x);
                assert(lex_lt(b[0], x));
                lemma_lex_irreflexive(x);
                assert(b.to_set().contains(x));
                let m = choose|m: int| 0 <= m < a.len() && a[m] == x;
                assert(m != 0);
                assert(ta[m - 1] == x);
            }
        }
        assert(ta.to_set() =~= tb.to_set());
        lemma_sorted_unique(ta, tb);
        assert(a =~= seq![a[0]] + ta);
        assert(b =~= seq![b[0]] + tb);
    }
}

/// A sorted list without repeats is the `sorted_list` of its strings.
pub proof fn lemma_sorted_list(l: Seq<Seq<char>>)
    requires
        strictly_sorted(l),
    ensures
        sorted_list(l.to_set()) == l,
{
    let c = sorted_list(l.to_set());
    assert(strictly_sorted(c) && c.to_set() == l.to_set());
    lemma_sorted_unique(c, l);
}

/// Whether `a` comes before `b` in the order of strings.
pub fn lex_less(a: &[char], b: &[char]) -> (r: bool)
    ensures
        r == lex_lt(a@, b@),
{
    let mut i: usize = 0;
    assert(a@.subrange(0, a@.len() as int) =~= a@);
    assert(b@.subrange(0, b@.len() as int) =~= b@);
    while i < a.len() && i < b.len() && a[i] == b[i]
        invariant
            i <= a@.len(),
            i <= b@.len(),
            lex_lt(a@, b@) == lex_lt(a@.subrange(i as int, a@.len() as int), b@.subrange(i as int, b@.len() as int)),
        decreases a.len() - i,
    {
        assert(a@.subrange(i as int, a@.len() as int).drop_first() =~= a@.subrange(i + 1, a@.len() as int));
        assert(b@.subrange(i as int, b@.len() as int).drop_first() =~= b@.subrange(i + 1, b@.len() as int));
        i = i + 1;
    }
    if i == a.len() {
        i < b.len()
    } else if i == b.len() {
        false
    } else {
        a[i] < b[i]
    }
}

/// Puts `x` into the sorted list `l` unless it is there already.
pub fn insert_sorted(l: &mut Vec<Vec<char>>, x: Vec<char>)
    requires
        strictly_sorted(old(l)@.map_values(|v: Vec<char>| v@)),
    ensures
        strictly_sorted(final(l)@.map_values(|v: Vec<char>| v@)),
        final(l)@.map_values(|v: Vec<char>| v@).to_set() == old(l)@.map_values(|v: Vec<char>| v@).to_set().insert(x@),
{
    let ghost views = l@.map_values(|v: Vec<char>| v@);
    let mut p: usize = 0;
    while p < l.len() && lex_less(l[p].as_slice(), x.as_slice())
        invariant
            p <= l@.len(),
            views == l@.map_values(|v: Vec<char>| v@),
            forall|k: int| 0 <= k < p ==> lex_lt(#[trigger] views[k], x@),
        decreases l.len() - p,
    {
        p = p + 1;
    }
    if p < l.len() && crate::text::eq_chars(l[p].as_slice(), x.as_slice()) {
        assert(views.to_set().contains(x@)) by {
            assert(views[p as int] == x@);
        }
        assert(views.to_set().insert(x@) =~= views.to_set());
        return;
    }
    let ghost xv = x@;
    l.insert(p, x);
    let ghost nv = l@.map_values(|v: Vec<char>| v@);
    assert(nv =~= views.subrange(0, p as int) + seq![xv] + views.subrange(p as int, views.len() as int));
    proof {
        if p < views.len() {
            lemma_lex_total(views[p as int], xv);
        }
        assert forall|i: int, j: int| 0 <= i < j < nv.len() implies lex_lt(#[trigger] nv[i], #[trigger] nv[j]) by {
            if j < p {
            } else if j == p {
            } else if i < p {
                if i < p && j == p + 1 {
                }
                lemma_lex_transitive(nv[i], xv, nv[j]);
                if j > p + 1 {
                    assert(lex_lt(views[p as int], views[j - 1]));
                    lemma_lex_transitive(xv, views[p as int], views[j - 1]);
                }
            } else if i == p {
                if j > p + 1 {
                    lemma_lex_transitive(xv, views[p as int], views[j - 1]);
                }
            } else {
            }
        }
        assert forall|y: Seq<char>| nv.to_set().contains(y) <==> views.to_set().insert(xv).contains(y) by {
            if nv.to_set().contains(y) {
                let k = choose|k: int| 0 <= k < nv.len() && nv[k] == y;
                if k < p {
                    assert(views[k] == y);
                } else if k > p {
                    assert(views[k - 1] == y);
                }
            }
            if views.to_set().contains(y) {
                let k = choose|k: int| 0 <= k < views.len() && views[k] == y;
                if k < p {
                    assert(nv[k] == y);
                } else {
                    assert(nv[k + 1] == y);
                }
            }
            if y == xv {
                assert(nv[p as int] == y);
            }
        }
        assert(nv.to_set() =~= views.to_set().insert(xv));
    }
}

/// The strings joined with `sep` between neighbours.
pub fn join_chars(l: &Vec<Vec<char>>, sep: &str) -> (r: Vec<char>)
    ensures
        r@ == join_with(l@.map_values(|v: Vec<char>| v@), sep@),
{
    let ghost views = l@.map_values(|v: Vec<char>| v@);
    let mut r: Vec<char> = Vec::new();
    for i in 0..l.len()
        invariant
            views == l@.map_values(|v: Vec<char>| v@),
            r@ == join_with(views.subrange(0, i as int), sep@),
    {
        assert(views.subrange(0, i + 1).drop_last() =~= views.subrange(0, i as int));
        if i > 0 {
            push_str(&mut r, sep);
        } else {
            assert(r@ =~= Seq::<char>::empty());
        }
        push_all(&mut r, l[i].as_slice());
        assert(views.subrange(0, i + 1).last() == l@[i as int]@);
        if i == 0 {
            assert(r@ =~= views.subrange(0, 1)[0]);
        }
    }
    assert(views.subrange(0, l@.len() as int) =~= views);
    r
}

} // verus!
