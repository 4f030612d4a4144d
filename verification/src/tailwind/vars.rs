//! CSS custom properties and the substitution of `var()` references.
//!
//! A reference is what the pattern `var\((--[^,)]+)(?:,\s*([^)]+))?\)`
//! matches: `var(`, a name that starts with `--` and runs up to the first
//! `,` or `)`, then either `)` or a comma, optional white space, a fallback
//! value that runs up to the first `)`, and `)`.

use crate::text::{chars_of, eq_chars, is_whitespace, is_ws, push_all, slice_chars, string_of};
use vstd::prelude::*;

verus! {

/// Values of CSS custom properties by name; a later value for a name
/// replaces an earlier one.
#[derive(Debug, Clone)]
pub struct VariableMap {
    pub entries: Vec<(String, String)>,
}

/// The value that a list of (name, value) entries gives `name`: the last one.
pub open spec fn entries_lookup(entries: Seq<(String, String)>, name: Seq<char>) -> Option<
    Seq<char>,
>
    decreases entries.len(),
{
    if entries.len() == 0 {
        None
    } else if entries.last().0@ == name {
        Some(entries.last().1@)
    } else {
        entries_lookup(entries.drop_last(), name)
    }
}

impl VariableMap {
    /// The value of the variable `name`, if it has one.
    pub open spec fn lookup(&self, name: Seq<char>) -> Option<Seq<char>> {
        entries_lookup(self.entries@, name)
    }

    /// The (name, value) entries, in the order they were given.
    pub open spec fn pairs(&self) -> Seq<(Seq<char>, Seq<char>)> {
        self.entries@.map_values(|e: (String, String)| (e.0@, e.1@))
    }

    /// A map with no variables.
    pub fn new() -> (r: VariableMap)
        ensures
            forall|n: Seq<char>| r.lookup(n) is None,
            r.pairs() == Seq::<(Seq<char>, Seq<char>)>::empty(),
    {
        let r = VariableMap { entries: Vec::new() };
        assert(r.pairs() =~= Seq::empty());
        r
    }

    /// Gives `name` the value `value`.
    pub fn insert(&mut self, name: String, value: String)
        ensures
            final(self).lookup(name@) == Some(value@),
            forall|n: Seq<char>| n != name@ ==> final(self).lookup(n) == old(self).lookup(n),
            final(self).pairs() == old(self).pairs().push((name@, value@)),
    {
        let ghost before = self.entries@;
        let ghost pn = name@;
        let ghost pv = value@;
        self.entries.push((name, value));
        assert(self.entries@.drop_last() =~= before);
        assert(self.pairs() =~= old(self).pairs().push((pn, pv)));
    }

    /// Gives each variable of `other` its value there.
    pub fn extend(&mut self, other: &VariableMap)
        ensures
            forall|n: Seq<char>| #[trigger]
                final(self).lookup(n) == if other.lookup(n) is Some {
                    other.lookup(n)
                } else {
                    old(self).lookup(n)
                },
    {
        let ghost before = self.entries@;
        let mut i: usize = 0;
        while i < other.entries.len()
            invariant
                i <= other.entries.len(),
                forall|n: Seq<char>| #[trigger]
                    self.lookup(n) == if entries_lookup(other.entries@.subrange(0, i as int), n) is Some {
                        entries_lookup(other.entries@.subrange(0, i as int), n)
                    } else {
                        entries_lookup(before, n)
                    },
            decreases other.entries.len() - i,
        {
            let (k, v) = (other.entries[i].0.clone(), other.entries[i].1.clone());
            proof {
                assert(other.entries@.subrange(0, i + 1).drop_last() =~= other.entries@.subrange(0, i as int));
            }
            self.insert(k, v);
            i = i + 1;
        }
        assert(other.entries@.subrange(0, other.entries@.len() as int) =~= other.entries@);
    }

    /// The value of the variable named by the characters `name`.
    pub fn get_chars(&self, name: &[char]) -> (r: Option<&String>)
        ensures
            r matches Some(v) ==> self.lookup(name@) == Some(v@),
            r is None ==> self.lookup(name@) is None,
    {
        let mut i = self.entries.len();
        assert(self.entries@.subrange(0, i as int) =~= self.entries@);
        while i > 0
            invariant
                i <= self.entries.len(),
                self.lookup(name@) == entries_lookup(self.entries@.subrange(0, i as int), name@),
            decreases i,
        {
            assert(self.entries@.subrange(0, i as int).drop_last() =~= self.entries@.subrange(0, i - 1));
            let k = chars_of(&self.entries[i - 1].0);
            if eq_chars(k.as_slice(), name) {
                return Some(&self.entries[i - 1].1);
            }
            i = i - 1;
        }
        None
    }

    /// The value of the variable `name`, if it has one.
    pub fn get(&self, name: &str) -> (r: Option<&String>)
        ensures
            r matches Some(v) ==> self.lookup(name@) == Some(v@),
            r is None ==> self.lookup(name@) is None,
    {
        let n = chars_of(name);
        self.get_chars(n.as_slice())
    }
}

/// The first index at or after `i` whose character is `,` or `)`, else the end.
pub open spec fn name_end(s: Seq<char>, i: int) -> int
    decreases s.len() - i,
{
    if i >= s.len() || s[i] == ',' || s[i] == ')' {
        i
    } else {
        name_end(s, i + 1)
    }
}

/// The first index at or after `i` that is not white space, else the end.
pub open spec fn ws_end(s: Seq<char>, i: int) -> int
    decreases s.len() - i,
{
    if i >= s.len() || !is_ws(s[i]) {
        i
    } else {
        ws_end(s, i + 1)
    }
}

/// The first index at or after `i` holding `)`, else the end.
pub open spec fn paren_end(s: Seq<char>, i: int) -> int
    decreases s.len() - i,
{
    if i >= s.len() || s[i] == ')' {
        i
    } else {
        paren_end(s, i + 1)
    }
}

/// A `var()` reference found in a text: where it ends (exclusive), where
/// its name starts and ends, and where its fallback value lies, if it has one.
pub struct VarMatch {
    pub end: usize,
    pub name_start: usize,
    pub name_end: usize,
    pub fallback: Option<(usize, usize)>,
}

/// The reference that starts at `i`, as (end, name range, fallback range).
pub open spec fn var_at(s: Seq<char>, i: int) -> Option<(int, int, int, Option<(int, int)>)> {
    if 0 <= i && i + 6 <= s.len() && s.subrange(i, i + 6) == seq!['v', 'a', 'r', '(', '-', '-'] {
        let n = name_end(s, i + 6);
        if n <= i + 6 || n >= s.len() {
            None
        } else if s[n] == ')' {
            Some((n + 1, i + 4, n, None))
        } else {
            let w = ws_end(s, n + 1);
            let r = paren_end(s, w);
            if r >= s.len() {
                None
            } else if r > w {
                Some((r + 1, i + 4, n, Some((w, r))))
            } else if w > n + 1 {
                Some((r + 1, i + 4, n, Some((w - 1, r))))
            } else {
                None
            }
        }
    } else {
        None
    }
}

/// The first start at or after `i` of a reference.
pub open spec fn next_var(s: Seq<char>, i: int) -> Option<int>
    decreases s.len() - i,
{
    if i < 0 || i >= s.len() {
        None
    } else if var_at(s, i) is Some {
        Some(i)
    } else {
        next_var(s, i + 1)
    }
}

/// What replaces the reference at `i`: the variable's value, else the
/// fallback, else the reference itself; and whether it was replaced.
pub open spec fn substitute(s: Seq<char>, i: int, vars: VariableMap) -> (Seq<char>, bool) {
    let (e, ns, ne, fb) = var_at(s, i)->0;
    match vars.lookup(s.subrange(ns, ne)) {
        Some(v) => (v, true),
        None => match fb {
            Some((fs, fe)) => (s.subrange(fs, fe), true),
            None => (s.subrange(i, e), false),
        },
    }
}

/// One pass over `s[i..]`: every reference replaced as `substitute` says,
/// and whether any was.
pub open spec fn resolve_pass(s: Seq<char>, i: int, vars: VariableMap) -> (Seq<char>, bool)
    decreases s.len() - i,
{
    if i < 0 || i > s.len() {
        (Seq::empty(), false)
    } else {
        match next_var(s, i) {
            None => (s.subrange(i, s.len() as int), false),
            Some(j) => {
                let (piece, changed) = substitute(s, j, vars);
                let found = var_at(s, j)->0;
                let e = found.0;
                if e <= i || e > s.len() {
                    (Seq::empty(), false)
                } else {
                    let (rest, more) = resolve_pass(s, e, vars);
                    (s.subrange(i, j) + piece + rest, changed || more)
                }
            },
        }
    }
}

/// `s` after up to `rounds` passes, stopping after a pass that replaced nothing.
pub open spec fn resolve_rounds(s: Seq<char>, vars: VariableMap, rounds: nat) -> Seq<char>
    decreases rounds,
{
    if rounds == 0 {
        s
    } else {
        let (t, changed) = resolve_pass(s, 0, vars);
        if changed {
            resolve_rounds(t, vars, (rounds - 1) as nat)
        } else {
            t
        }
    }
}

/// `s` with its `var()` references resolved, up to five levels deep.
pub open spec fn resolve_spec(s: Seq<char>, vars: VariableMap) -> Seq<char> {
    resolve_rounds(s, vars, 5)
}

proof fn lemma_name_end(s: Seq<char>, i: int)
    requires
        0 <= i <= s.len(),
    ensures
        i <= name_end(s, i) <= s.len(),
        forall|k: int| i <= k < name_end(s, i) ==> s[k] != ',' && s[k] != ')',
    decreases s.len() - i,
{
    if !(i >= s.len() || s[i] == ',' || s[i] == ')') {
        lemma_name_end(s, i + 1);
    }
}

pub(crate) proof fn lemma_ws_end(s: Seq<char>, i: int)
    requires
        0 <= i <= s.len(),
    ensures
        i <= ws_end(s, i) <= s.len(),
    decreases s.len() - i,
{
    if !(i >= s.len() || !is_ws(s[i])) {
        lemma_ws_end(s, i + 1);
    }
}

pub(crate) proof fn lemma_paren_end(s: Seq<char>, i: int)
    requires
        0 <= i <= s.len(),
    ensures
        i <= paren_end(s, i) <= s.len(),
    decreases s.len() - i,
{
    if !(i >= s.len() || s[i] == ')') {
        lemma_paren_end(s, i + 1);
    }
}

fn name_end_exec(s: &[char], i: usize) -> (r: usize)
    requires
        i <= s@.len(),
    ensures
        r == name_end(s@, i as int),
{
    let mut k = i;
    while k < s.len() && s[k] != ',' && s[k] != ')'
        invariant
            i <= k <= s@.len(),
            name_end(s@, i as int) == name_end(s@, k as int),
        decreases s.len() - k,
    {
        k = k + 1;
    }
    k
}

pub(crate) fn ws_end_exec(s: &[char], i: usize) -> (r: usize)
    requires
        i <= s@.len(),
    ensures
        r == ws_end(s@, i as int),
{
    let mut k = i;
    while k < s.len() && is_whitespace(s[k])
        invariant
            i <= k <= s@.len(),
            ws_end(s@, i as int) == ws_end(s@, k as int),
        decreases s.len() - k,
    {
        k = k + 1;
    }
    k
}

pub(crate) fn paren_end_exec(s: &[char], i: usize) -> (r: usize)
    requires
        i <= s@.len(),
    ensures
        r == paren_end(s@, i as int),
{
    let mut k = i;
    while k < s.len() && s[k] != ')'
        invariant
            i <= k <= s@.len(),
            paren_end(s@, i as int) == paren_end(s@, k as int),
        decreases s.len() - k,
    {
        k = k + 1;
    }
    k
}

/// The `var()` reference that starts at `i`, if one does.
pub fn var_at_exec(s: &[char], i: usize) -> (r: Option<VarMatch>)
    ensures
        r matches Some(m) ==> var_at(s@, i as int) == Some(
            (
                m.end as int,
                m.name_start as int,
                m.name_end as int,
                match m.fallback {
                    Some((a, b)) => Some((a as int, b as int)),
                    None => None,
                },
            ),
        ),
        r is None ==> var_at(s@, i as int) is None,
        r matches Some(m) ==> i < m.end <= s@.len() && i <= m.name_start <= m.name_end <= m.end
            && (m.fallback matches Some((a, b)) ==> m.name_end <= a <= b <= m.end),
{
    if i > s.len() || s.len() - i < 6 {
        return None;
    }
    if !(s[i] == 'v' && s[i + 1] == 'a' && s[i + 2] == 'r' && s[i + 3] == '(' && s[i + 4] == '-'
        && s[i + 5] == '-') {
        proof {
            if s@.subrange(i as int, i + 6) == seq!['v', 'a', 'r', '(', '-', '-'] {
                assert(s@.subrange(i as int, i + 6)[0] == 'v');
                assert(s@.subrange(i as int, i + 6)[1] == 'a');
                assert(s@.subrange(i as int, i + 6)[2] == 'r');
                assert(s@.subrange(i as int, i + 6)[3] == '(');
                assert(s@.subrange(i as int, i + 6)[4] == '-');
                assert(s@.subrange(i as int, i + 6)[5] == '-');
            }
        }
        return None;
    }
    assert(s@.subrange(i as int, i + 6) =~= seq!['v', 'a', 'r', '(', '-', '-']);
    proof {
        lemma_name_end(s@, i + 6);
    }
    let n = name_end_exec(s, i + 6);
    if n <= i + 6 || n >= s.len() {
        return None;
    }
    if s[n] == ')' {
        return Some(VarMatch { end: n + 1, name_start: i + 4, name_end: n, fallback: None });
    }
    proof {
        lemma_ws_end(s@, n + 1);
    }
    let w = ws_end_exec(s, n + 1);
    proof {
        lemma_paren_end(s@, w as int);
    }
    let r = paren_end_exec(s, w);
    if r >= s.len() {
        None
    } else if r > w {
        Some(VarMatch { end: r + 1, name_start: i + 4, name_end: n, fallback: Some((w, r)) })
    } else if w > n + 1 {
        Some(VarMatch { end: r + 1, name_start: i + 4, name_end: n, fallback: Some((w - 1, r)) })
    } else {
        None
    }
}

proof fn lemma_next_var_skip(s: Seq<char>, i: int, j: int)
    requires
        0 <= i <= j,
        forall|k: int| i <= k < j ==> var_at(s, k) is None,
    ensures
        next_var(s, i) == next_var(s, j) || (j > s.len() && next_var(s, i) is None),
    decreases j - i,
{
    if i < j {
        lemma_next_var_skip(s, i + 1, j);
    }
}

proof fn lemma_next_var_found(s: Seq<char>, i: int)
    ensures
        next_var(s, i) matches Some(j) ==> i <= j < s.len() && var_at(s, j) is Some,
    decreases s.len() - i,
{
    if !(i < 0 || i >= s.len()) && var_at(s, i) is None {
        lemma_next_var_found(s, i + 1);
    }
}

/// One pass of substitution over `s`, as `resolve_pass` says.
fn resolve_pass_exec(s: &[char], vars: &VariableMap) -> (r: (Vec<char>, bool))
    ensures
        (r.0@, r.1) == resolve_pass(s@, 0, *vars),
{
    let mut out: Vec<char> = Vec::new();
    let mut changed = false;
    let mut last: usize = 0;
    let mut i: usize = 0;
    while i < s.len()
        invariant
            last <= i <= s@.len(),
            forall|k: int| last <= k < i ==> var_at(s@, k) is None,
            ({
                let (rest, more) = resolve_pass(s@, last as int, *vars);
                (out@ + rest, changed || more) == resolve_pass(s@, 0, *vars)
            }),
        decreases s.len() - i,
    {
        match var_at_exec(s, i) {
            Some(m) => {
                proof {
                    lemma_next_var_skip(s@, last as int, i as int);
                    assert(next_var(s@, i as int) == Some(i as int));
                }
                let ghost before = out@;
                let head = slice_chars(s, last, i);
                push_all(&mut out, head.as_slice());
                let name = slice_chars(s, m.name_start, m.name_end);
                match vars.get_chars(name.as_slice()) {
                    Some(v) => {
                        let vc = chars_of(v);
                        push_all(&mut out, vc.as_slice());
                        changed = true;
                    },
                    None => match m.fallback {
                        Some((a, b)) => {
                            let f = slice_chars(s, a, b);
                            push_all(&mut out, f.as_slice());
                            changed = true;
                        },
                        None => {
                            let f = slice_chars(s, i, m.end);
                            push_all(&mut out, f.as_slice());
                        },
                    },
                }
                proof {
                    let (piece, ch) = substitute(s@, i as int, *vars);
                    assert(out@ =~= before + s@.subrange(last as int, i as int) + piece);
                }
                last = m.end;
                i = m.end;
            },
            None => {
                i = i + 1;
            },
        }
    }
    proof {
        lemma_next_var_skip(s@, last as int, s@.len() as int);
    }
    let tail = slice_chars(s, last, s.len());
    push_all(&mut out, tail.as_slice());
    (out, changed)
}

/// Resolves the `var()` references in `value` from `vars`: a known variable
/// gives its value, an unknown one its fallback, and a reference with
/// neither stays; repeated up to five levels deep.
pub fn resolve_vars(value: &str, vars: &VariableMap) -> (r: String)
    ensures
        r@ == resolve_spec(value@, *vars),
{
    let mut cur = chars_of(value);
    let mut round: usize = 0;
    while round < 5
        invariant
            round <= 5,
            resolve_rounds(cur@, *vars, (5 - round) as nat) == resolve_spec(value@, *vars),
        decreases 5 - round,
    {
        let (next, changed) = resolve_pass_exec(cur.as_slice(), vars);
        if !changed {
            return string_of(next.as_slice());
        }
        cur = next;
        round = round + 1;
    }
    string_of(cur.as_slice())
}

/// A text that holds no `var()` reference comes back from resolving
/// unchanged.
pub proof fn law_no_reference_unchanged(s: Seq<char>, vars: VariableMap)
    requires
        next_var(s, 0) is None,
    ensures
        resolve_pass(s, 0, vars) == (s, false),
        resolve_spec(s, vars) == s,
{
    assert(s.subrange(0, s.len() as int) =~= s);
}

/// `name_end` stops at the first `,` or `)` at or after `i`.
proof fn lemma_name_end_at(s: Seq<char>, i: int, j: int)
    requires
        0 <= i <= j < s.len(),
        s[j] == ',' || s[j] == ')',
        forall|k: int| i <= k < j ==> s[k] != ',' && s[k] != ')',
    ensures
        name_end(s, i) == j,
    decreases j - i,
{
    if i < j {
        lemma_name_end_at(s, i + 1, j);
    }
}

/// `paren_end` stops at the first `)` at or after `i`.
pub(crate) proof fn lemma_paren_end_at(s: Seq<char>, i: int, j: int)
    requires
        0 <= i <= j < s.len(),
        s[j] == ')',
        forall|k: int| i <= k < j ==> s[k] != ')',
    ensures
        paren_end(s, i) == j,
    decreases j - i,
{
    if i < j {
        lemma_paren_end_at(s, i + 1, j);
    }
}

/// A name that a reference can hold: `--`, then at least one character,
/// none of them `,` or `)`.
pub open spec fn is_reference_name(n: Seq<char>) -> bool {
    &&& n.len() > 2
    &&& n[0] == '-' && n[1] == '-'
    &&& forall|k: int| 0 <= k < n.len() ==> n[k] != ',' && n[k] != ')'
}

/// A fallback that a reference can hold after `, `: not empty, not
/// starting with white space, and without `)`.
pub open spec fn is_reference_fallback(f: Seq<char>) -> bool {
    &&& f.len() > 0
    &&& !is_ws(f[0])
    &&& forall|k: int| 0 <= k < f.len() ==> f[k] != ')'
}

/// The text `h`, then the reference `var(n, f)`, then `t`.
pub open spec fn with_reference(h: Seq<char>, n: Seq<char>, f: Seq<char>, t: Seq<char>) -> Seq<char> {
    h + seq!['v', 'a', 'r', '('] + n + seq![',', ' '] + f + seq![')'] + t
}

/// Where the parts of `with_reference(h, n, f, t)` lie: the reference at
/// `h.len()` holds the name `n` and the fallback `f`, and `t` follows it.
#[verifier::spinoff_prover]
proof fn lemma_reference_parts(h: Seq<char>, n: Seq<char>, f: Seq<char>, t: Seq<char>)
    requires
        is_reference_name(n),
        is_reference_fallback(f),
    ensures
        ({
            let s = with_reference(h, n, f, t);
            let a = h.len() as int;
            let ne = a + 4 + n.len();
            let fs = ne + 2;
            let fe = fs + f.len();
            &&& var_at(s, a) == Some((fe + 1, a + 4, ne, Some((fs, fe))))
            &&& s.subrange(a + 4, ne) == n
            &&& s.subrange(fs, fe) == f
            &&& s.subrange(0, a) == h
            &&& s.subrange(fe + 1, s.len() as int) == t
        }),
{
    let s = with_reference(h, n, f, t);
    let a = h.len() as int;
    let ne = a + 4 + n.len();
    let fs = ne + 2;
    let fe = fs + f.len();
    let e = fe + 1;
    assert(s.len() == e + t.len());
    assert forall|k: int| 0 <= k < n.len() implies s[a + 4 + k] == n[k] by {}
    assert forall|k: int| 0 <= k < f.len() implies s[fs + k] == f[k] by {}
    assert forall|k: int| 0 <= k < t.len() implies s[e + k] == t[k] by {}
    assert(s.subrange(a, a + 6) =~= seq!['v', 'a', 'r', '(', '-', '-']);
    assert(s[ne] == ',');
    assert(s[ne + 1] == ' ');
    assert(s[fe] == ')');
    assert forall|k: int| a + 6 <= k < ne implies s[k] != ',' && s[k] != ')' by {
        assert(s[k] == n[k - a - 4]);
    }
    lemma_name_end_at(s, a + 6, ne);
    assert(is_ws(' '));
    assert(ws_end(s, ne + 2) == fs);
    assert(ws_end(s, ne + 1) == fs);
    assert forall|k: int| fs <= k < fe implies s[k] != ')' by {
        assert(s[k] == f[k - fs]);
    }
    lemma_paren_end_at(s, fs, fe);
    assert(s.subrange(a + 4, ne) =~= n);
    assert(s.subrange(fs, fe) =~= f);
    assert(s.subrange(0, a) =~= h);
    assert(s.subrange(e, s.len() as int) =~= t);
}

/// A defined variable's value wins over the fallback: in a text whose one
/// reference is `var(n, f)`, between `h` and `t`, resolving gives
/// `h + v + t` where the map gives `n` the value `v`, whatever `f` is; the
/// fallback `f` takes its place only where the map does not define `n`.
#[verifier::spinoff_prover]
pub proof fn law_defined_variable_wins(
    h: Seq<char>,
    n: Seq<char>,
    f: Seq<char>,
    t: Seq<char>,
    vars: VariableMap,
)
    requires
        is_reference_name(n),
        is_reference_fallback(f),
        next_var(with_reference(h, n, f, t), 0) == Some(h.len() as int),
        next_var(with_reference(h, n, f, t), (h.len() + n.len() + f.len() + 7) as int) is None,
    ensures
        vars.lookup(n) matches Some(v) ==> resolve_pass(with_reference(h, n, f, t), 0, vars) == (
        h + v + t, true),
        vars.lookup(n) is None ==> resolve_pass(with_reference(h, n, f, t), 0, vars) == (h + f
            + t, true),
        vars.lookup(n) matches Some(v) ==> (next_var(h + v + t, 0) is None ==> resolve_spec(
            with_reference(h, n, f, t),
            vars,
        ) == h + v + t),
        vars.lookup(n) is None ==> (next_var(h + f + t, 0) is None ==> resolve_spec(
            with_reference(h, n, f, t),
            vars,
        ) == h + f + t),
{
    let s = with_reference(h, n, f, t);
    let e = (h.len() + n.len() + f.len() + 7) as int;
    lemma_reference_parts(h, n, f, t);
    assert(s.len() == e + t.len());
    assert(resolve_pass(s, e, vars) == (t, false));
    match vars.lookup(n) {
        Some(v) => {
            assert(substitute(s, h.len() as int, vars) == (v, true));
            assert(resolve_pass(s, 0, vars) == (h + v + t, true));
            if next_var(h + v + t, 0) is None {
                law_no_reference_unchanged(h + v + t, vars);
                assert(resolve_rounds(h + v + t, vars, 4) == h + v + t);
            }
        },
        None => {
            assert(substitute(s, h.len() as int, vars) == (f, true));
            assert(resolve_pass(s, 0, vars) == (h + f + t, true));
            if next_var(h + f + t, 0) is None {
                law_no_reference_unchanged(h + f + t, vars);
                assert(resolve_rounds(h + f + t, vars, 4) == h + f + t);
            }
        },
    }
}

/// The text `h`, then the reference `var(n)` without a fallback, then `t`.
pub open spec fn with_plain_reference(h: Seq<char>, n: Seq<char>, t: Seq<char>) -> Seq<char> {
    h + seq!['v', 'a', 'r', '('] + n + seq![')'] + t
}

#[verifier::spinoff_prover]
proof fn lemma_plain_reference_parts(h: Seq<char>, n: Seq<char>, t: Seq<char>)
    requires
        is_reference_name(n),
    ensures
        ({
            let s = with_plain_reference(h, n, t);
            let a = h.len() as int;
            let ne = a + 4 + n.len();
            &&& var_at(s, a) == Some((ne + 1, a + 4, ne, None::<(int, int)>))
            &&& s.subrange(a + 4, ne) == n
            &&& s.subrange(0, a) == h
            &&& s.subrange(a, ne + 1) == seq!['v', 'a', 'r', '('] + n + seq![')']
            &&& s.subrange(ne + 1, s.len() as int) == t
        }),
{
    let s = with_plain_reference(h, n, t);
    let a = h.len() as int;
    let ne = a + 4 + n.len();
    let e = ne + 1;
    assert(s.len() == e + t.len());
    assert forall|k: int| 0 <= k < n.len() implies s[a + 4 + k] == n[k] by {}
    assert forall|k: int| 0 <= k < t.len() implies s[e + k] == t[k] by {}
    assert(s.subrange(a, a + 6) =~= seq!['v', 'a', 'r', '(', '-', '-']);
    assert(s[ne] == ')');
    assert forall|k: int| a + 6 <= k < ne implies s[k] != ',' && s[k] != ')' by {
        assert(s[k] == n[k - a - 4]);
    }
    lemma_name_end_at(s, a + 6, ne);
    assert(s.subrange(a + 4, ne) =~= n);
    assert(s.subrange(0, a) =~= h);
    assert(s.subrange(a, e) =~= seq!['v', 'a', 'r', '('] + n + seq![')']);
    assert(s.subrange(e, s.len() as int) =~= t);
}

/// A reference without a fallback, `var(n)`, in a text where it is the one
/// reference, between `h` and `t`: where the map gives `n` the value `v`,
/// resolving gives `h + v + t`; where it does not, the text stays as it is
/// and nothing counts as replaced.
#[verifier::spinoff_prover]
pub proof fn law_plain_reference(h: Seq<char>, n: Seq<char>, t: Seq<char>, vars: VariableMap)
    requires
        is_reference_name(n),
        next_var(with_plain_reference(h, n, t), 0) == Some(h.len() as int),
        next_var(with_plain_reference(h, n, t), (h.len() + n.len() + 5) as int) is None,
    ensures
        vars.lookup(n) matches Some(v) ==> resolve_pass(with_plain_reference(h, n, t), 0, vars)
            == (h + v + t, true),
        vars.lookup(n) is None ==> resolve_pass(with_plain_reference(h, n, t), 0, vars) == (
        with_plain_reference(h, n, t), false),
        vars.lookup(n) is None ==> resolve_spec(with_plain_reference(h, n, t), vars)
            == with_plain_reference(h, n, t),
{
    let s = with_plain_reference(h, n, t);
    let e = (h.len() + n.len() + 5) as int;
    lemma_plain_reference_parts(h, n, t);
    assert(s.len() == e + t.len());
    assert(resolve_pass(s, e, vars) == (t, false));
    match vars.lookup(n) {
        Some(v) => {
            assert(substitute(s, h.len() as int, vars) == (v, true));
            assert(resolve_pass(s, 0, vars) == (h + v + t, true));
        },
        None => {
            let r = seq!['v', 'a', 'r', '('] + n + seq![')'];
            assert(substitute(s, h.len() as int, vars) == (r, false));
            assert(h + r + t =~= s);
            assert(resolve_pass(s, 0, vars) == (s, false));
        },
    }
}

} // verus!
