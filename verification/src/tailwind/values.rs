//! Value helpers for arbitrary values and the spacing and type scales.

use crate::number::{Decimal, parse_number, product, fits, normalize, plain_text, lemma_normalize_value, lemma_pow10_18};
use crate::text::{chars_of, ends_with, ends_with_chars, eq_chars, starts_with, starts_with_chars, is_whitespace, is_ws, push_all, remove_char, remove_char_chars, slice_chars, string_of, push_str};
use vstd::prelude::*;

verus! {

pub open spec fn is_ascii_digit(c: char) -> bool {
    '0' <= c && c <= '9'
}

/// Whether `ensure_leading_zero` puts a `0` in front of `s[i]`: a `.` at the
/// start or after `_`, a space or `-`, followed by a digit.
pub open spec fn needs_zero(s: Seq<char>, i: int) -> bool {
    s[i] == '.' && (i == 0 || s[i - 1] == '_' || s[i - 1] == ' ' || s[i - 1] == '-') && i + 1
        < s.len() && is_ascii_digit(s[i + 1])
}

/// `ensure_leading_zero` applied to the first `n` characters of `s`.
pub open spec fn leading_zero_upto(s: Seq<char>, n: int) -> Seq<char>
    decreases n,
{
    if n <= 0 {
        Seq::empty()
    } else {
        leading_zero_upto(s, n - 1) + if needs_zero(s, n - 1) {
            seq!['0', s[n - 1]]
        } else {
            seq![s[n - 1]]
        }
    }
}

/// `s` with a `0` put before every `.` that starts a number: `.5` becomes
/// `0.5`, `-.5rem` becomes `-0.5rem`.
pub open spec fn leading_zero(s: Seq<char>) -> Seq<char> {
    leading_zero_upto(s, s.len() as int)
}

/// `s` with every white space character turned into `_`.
pub open spec fn underscore_ws(s: Seq<char>) -> Seq<char> {
    s.map_values(|c: char| if is_ws(c) { '_' } else { c })
}

/// A value made fit for a Tailwind arbitrary value `[...]`: leading zeros
/// added, white space turned into `_`, double quotes removed.
pub open spec fn escape_spec(s: Seq<char>) -> Seq<char> {
    remove_char(underscore_ws(leading_zero(s)), '"')
}

pub fn leading_zero_chars(s: &[char]) -> (r: Vec<char>)
    ensures
        r@ == leading_zero(s@),
{
    let mut r: Vec<char> = Vec::new();
    let mut i: usize = 0;
    while i < s.len()
        invariant
            i <= s.len(),
            r@ == leading_zero_upto(s@, i as int),
        decreases s.len() - i,
    {
        let c = s[i];
        if c == '.' && (i == 0 || s[i - 1] == '_' || s[i - 1] == ' ' || s[i - 1] == '-') && i + 1
            < s.len() && '0' <= s[i + 1] && s[i + 1] <= '9' {
            r.push('0');
        }
        r.push(c);
        i = i + 1;
        assert(r@ =~= leading_zero_upto(s@, i as int));
    }
    r
}

/// Puts a leading zero in front of every decimal point that starts a
/// number, as Tailwind arbitrary values need (`.5` becomes `0.5`).
pub fn ensure_leading_zero(value: &str) -> (r: String)
    ensures
        r@ == leading_zero(value@),
{
    let v = chars_of(value);
    let r = leading_zero_chars(v.as_slice());
    string_of(r.as_slice())
}

pub fn escape_chars(s: &[char]) -> (r: Vec<char>)
    ensures
        r@ == escape_spec(s@),
{
    let fixed = leading_zero_chars(s);
    let mut u: Vec<char> = Vec::new();
    let mut i: usize = 0;
    while i < fixed.len()
        invariant
            i <= fixed.len(),
            u@ == underscore_ws(fixed@.subrange(0, i as int)),
        decreases fixed.len() - i,
    {
        let c = fixed[i];
        u.push(if is_whitespace(c) { '_' } else { c });
        i = i + 1;
        assert(u@ =~= underscore_ws(fixed@.subrange(0, i as int)));
    }
    assert(fixed@.subrange(0, fixed@.len() as int) =~= fixed@);
    remove_char_chars(u.as_slice(), '"')
}

/// A character after which a `.` starts a number: `_`, a space or `-`.
pub open spec fn zero_lead(c: char) -> bool {
    c == '_' || c == ' ' || c == '-'
}

/// The shape of `leading_zero_upto(s, n)`: at least `n` long, ending with
/// `s[n - 1]`, with a `0` before it where one was put, else `s[n - 2]`; and
/// no character but the last is a `.` that would need a zero.
proof fn lemma_leading_zero_shape(s: Seq<char>, n: int)
    requires
        0 <= n <= s.len(),
    ensures
        ({
            let u = leading_zero_upto(s, n);
            &&& u.len() >= n
            &&& n > 0 ==> u.last() == s[n - 1]
            &&& n > 0 && needs_zero(s, n - 1) ==> u.len() >= 2 && u[u.len() - 2] == '0'
            &&& n > 1 && !needs_zero(s, n - 1) ==> u.len() >= 2 && u[u.len() - 2] == s[n - 2]
            &&& forall|k: int| 0 <= k && k + 1 < u.len() ==> !(#[trigger] u[k] == '.' && (k == 0 || zero_lead(u[k - 1])) && is_ascii_digit(u[k + 1]))
        }),
    decreases n,
{
    if n > 0 {
        lemma_leading_zero_shape(s, n - 1);
        let p = leading_zero_upto(s, n - 1);
        let u = leading_zero_upto(s, n);
        let piece = if needs_zero(s, n - 1) { seq!['0', s[n - 1]] } else { seq![s[n - 1]] };
        assert(u == p + piece);
        assert forall|k: int| 0 <= k && k + 1 < u.len() implies !(#[trigger] u[k] == '.' && (k == 0 || zero_lead(u[k - 1])) && is_ascii_digit(u[k + 1])) by {
            if k + 1 < p.len() {
                assert(u[k] == p[k] && u[k + 1] == p[k + 1]);
                if k > 0 {
                    assert(u[k - 1] == p[k - 1]);
                }
            } else if k + 1 == p.len() {
                // the last of p, before the new piece
                assert(u[k] == p.last());
                assert(n >= 2);
                if u[k] == '.' && (k == 0 || zero_lead(u[k - 1])) && is_ascii_digit(u[k + 1]) {
                    assert(u[k + 1] == piece[0]);
                    if needs_zero(s, n - 1) {
                        assert(zero_lead(s[n - 2]));
                        assert(false);
                    } else {
                        assert(u[k + 1] == s[n - 1]);
                        if needs_zero(s, n - 2) {
                            assert(p[p.len() - 2] == '0');
                            assert(u[k - 1] == p[p.len() - 2]);
                        } else if n - 2 == 0 {
                            assert(needs_zero(s, n - 2));
                        } else {
                            assert(!zero_lead(s[n - 3]));
                            assert(u[k - 1] == p[p.len() - 2]);
                        }
                    }
                }
            } else {
                // inside the new piece: a `0` before `s[n - 1]`
                assert(u[k] == '0');
            }
        }
    }
}

/// A text in which no `.` needs a zero is its own `leading_zero`.
proof fn lemma_leading_zero_none_needed(t: Seq<char>, n: int)
    requires
        0 <= n <= t.len(),
        forall|k: int| 0 <= k < t.len() ==> !#[trigger] needs_zero(t, k),
    ensures
        leading_zero_upto(t, n) == t.subrange(0, n),
    decreases n,
{
    if n > 0 {
        lemma_leading_zero_none_needed(t, n - 1);
        assert(!needs_zero(t, n - 1));
        assert(t.subrange(0, n) =~= t.subrange(0, n - 1).push(t[n - 1]));
    } else {
        assert(t.subrange(0, 0) =~= Seq::<char>::empty());
    }
}

/// No `.` of `leading_zero(s)` needs a zero.
proof fn lemma_leading_zero_done(s: Seq<char>)
    ensures
        forall|k: int| 0 <= k < leading_zero(s).len() ==> !#[trigger] needs_zero(leading_zero(s), k),
{
    lemma_leading_zero_shape(s, s.len() as int);
    let t = leading_zero(s);
    assert forall|k: int| 0 <= k < t.len() implies !#[trigger] needs_zero(t, k) by {
        if k + 1 < t.len() {
            assert(!(t[k] == '.' && (k == 0 || zero_lead(t[k - 1])) && is_ascii_digit(t[k + 1])));
        }
    }
}

/// Putting leading zeros in is idempotent: once every `.` that starts a
/// number has its `0`, none needs another.
pub proof fn law_leading_zero_idempotent(s: Seq<char>)
    ensures
        leading_zero(leading_zero(s)) == leading_zero(s),
{
    let t = leading_zero(s);
    lemma_leading_zero_done(s);
    lemma_leading_zero_none_needed(t, t.len() as int);
    assert(t.subrange(0, t.len() as int) =~= t);
}

proof fn lemma_remove_absent(s: Seq<char>, c: char)
    requires
        !s.contains(c),
    ensures
        remove_char(s, c) == s,
    decreases s.len(),
{
    if s.len() > 0 {
        assert(!s.drop_last().contains(c)) by {
            if s.drop_last().contains(c) {
                let i = choose|i: int| 0 <= i < s.drop_last().len() && s.drop_last()[i] == c;
                assert(s[i] == c);
            }
        }
        lemma_remove_absent(s.drop_last(), c);
        assert(s.drop_last().push(s.last()) =~= s);
    }
}

proof fn lemma_leading_zero_chars(s: Seq<char>, n: int)
    requires
        0 <= n <= s.len(),
    ensures
        forall|c: char| c != '0' && (#[trigger] leading_zero_upto(s, n).contains(c)) ==> s.contains(c),
    decreases n,
{
    if n > 0 {
        lemma_leading_zero_chars(s, n - 1);
        let p = leading_zero_upto(s, n - 1);
        let piece = if needs_zero(s, n - 1) { seq!['0', s[n - 1]] } else { seq![s[n - 1]] };
        assert forall|c: char| c != '0' && (#[trigger] leading_zero_upto(s, n).contains(c)) implies s.contains(c) by {
            let u = leading_zero_upto(s, n);
            assert(u == p + piece);
            let i = choose|i: int| 0 <= i < u.len() && u[i] == c;
            if i < p.len() {
                assert(p[i] == c);
                assert(p.contains(c));
            } else {
                assert(c == s[n - 1]);
            }
        }
    }
}

/// Escaping a value twice gives what escaping it once gives, for a value
/// without double quotes whose only white space is the space.
pub proof fn law_escape_idempotent(s: Seq<char>)
    requires
        !s.contains('"'),
        forall|i: int| 0 <= i < s.len() && is_ws(#[trigger] s[i]) ==> s[i] == ' ',
    ensures
        escape_spec(escape_spec(s)) == escape_spec(s),
{
    let t = leading_zero(s);
    lemma_leading_zero_chars(s, s.len() as int);
    assert(!t.contains('"'));
    let e = underscore_ws(t);
    assert(!e.contains('"')) by {
        if e.contains('"') {
            let i = choose|i: int| 0 <= i < e.len() && e[i] == '"';
            assert(t[i] == '"');
        }
    }
    lemma_remove_absent(e, '"');
    assert(escape_spec(s) == e);
    lemma_leading_zero_done(s);
    assert forall|k: int| 0 <= k < e.len() implies !#[trigger] needs_zero(e, k) by {
        assert(!needs_zero(t, k));
        if k > 0 {
            assert(zero_lead(e[k - 1]) == zero_lead(t[k - 1])) by {
                if is_ws(t[k - 1]) {
                    if t[k - 1] != '0' {
                        assert(t.contains(t[k - 1]));
                        let j = choose|j: int| 0 <= j < s.len() && s[j] == t[k - 1];
                        assert(s[j] == ' ');
                    }
                }
            }
        }
        if k + 1 < e.len() {
            assert(is_ascii_digit(e[k + 1]) == is_ascii_digit(t[k + 1]));
        }
    }
    lemma_leading_zero_none_needed(e, e.len() as int);
    assert(e.subrange(0, e.len() as int) =~= e);
    assert(leading_zero(e) == e);
    assert(underscore_ws(e) =~= e);
    lemma_remove_absent(e, '"');
}

/// Escapes a value for a Tailwind arbitrary value `[...]`: white space
/// becomes `_`, double quotes go, and leading dots get a zero.
pub fn escape_arbitrary_value(value: &str) -> (r: String)
    ensures
        r@ == escape_spec(value@),
{
    let v = chars_of(value);
    let r = escape_chars(v.as_slice());
    string_of(r.as_slice())
}

/// A spacing class with its sign in front: `("ml", "-3.75")` gives `-ml-3.75`.
pub open spec fn spacing_spec(prop: Seq<char>, value: Seq<char>) -> Seq<char> {
    if value.len() > 0 && value[0] == '-' {
        seq!['-'] + prop + seq!['-'] + value.drop_first()
    } else {
        prop + seq!['-'] + value
    }
}

pub fn spacing_chars(prop: &[char], value: &[char]) -> (r: Vec<char>)
    ensures
        r@ == spacing_spec(prop@, value@),
{
    let mut r: Vec<char> = Vec::new();
    if value.len() > 0 && value[0] == '-' {
        r.push('-');
        push_all(&mut r, prop);
        r.push('-');
        let rest = slice_chars(value, 1, value.len());
        push_all(&mut r, rest.as_slice());
        assert(rest@ =~= value@.drop_first());
    } else {
        push_all(&mut r, prop);
        r.push('-');
        push_all(&mut r, value);
    }
    assert(r@ =~= spacing_spec(prop@, value@));
    r
}

/// Formats a spacing class with its sign in front: `("ml", "-3.75")` gives
/// `-ml-3.75`, `("ml", "4")` gives `ml-4`.
pub fn format_spacing(prop: &str, value: &str) -> (r: String)
    ensures
        r@ == spacing_spec(prop@, value@),
{
    let p = chars_of(prop);
    let v = chars_of(value);
    let r = spacing_chars(p.as_slice(), v.as_slice());
    string_of(r.as_slice())
}

/// One sixteenth, the rem size of a pixel at the default 16px root size.
pub open spec fn sixteenth() -> Decimal {
    Decimal { negative: false, digits: 625, scale: 4 }
}

/// The number that `text` writes, as a `Decimal`, when it parses.
pub open spec fn parsed(text: Seq<char>) -> Option<Decimal> {
    match parse_number(text) {
        Some((neg, d, s)) => Some(Decimal { negative: neg, digits: d as u128, scale: s as u32 }),
        None => None,
    }
}

/// The text of a product of two decimals that fits, else `None`.
pub open spec fn product_text(a: Decimal, b: Decimal) -> Option<Seq<char>> {
    let p = product(a, b);
    if fits(p) {
        Some(plain_text(p.0, p.1, p.2))
    } else {
        None
    }
}

/// The product of two decimals as a `Decimal`, when it fits.
pub open spec fn product_decimal(a: Decimal, b: Decimal) -> Option<Decimal> {
    let p = product(a, b);
    if fits(p) {
        Some(Decimal { negative: p.0, digits: p.1 as u128, scale: p.2 as u32 })
    } else {
        None
    }
}

/// `value` in rem units scaled by `rem_scale`, as text, when `value` is a
/// number written before `suffix_len` unit characters.
pub open spec fn scaled_rem(dest: Seq<char>, rem_scale: Decimal) -> Option<Seq<char>> {
    match parsed(dest.subrange(0, dest.len() - 3)) {
        Some(v) => product_text(v, rem_scale),
        None => None,
    }
}

/// `value` in px converted to rem (divided by 16) and scaled by `rem_scale`.
pub open spec fn scaled_px(dest: Seq<char>, rem_scale: Decimal) -> Option<Seq<char>> {
    match parsed(dest.subrange(0, dest.len() - 2)) {
        Some(v) => match product_decimal(v, sixteenth()) {
            Some(r) => product_text(r, rem_scale),
            None => None,
        },
        None => None,
    }
}

/// The Tailwind spacing value of a printed CSS length: `auto`, a scaled
/// number for `rem` and `px`, `full` and `1/2` for 100% and 50%, else an
/// arbitrary value `[...]`.
pub open spec fn length_spec(dest: Seq<char>, rem_scale: Decimal) -> Seq<char> {
    if dest == "auto"@ {
        "auto"@
    } else if ends_with(dest, "rem"@) && scaled_rem(dest, rem_scale) is Some {
        scaled_rem(dest, rem_scale)->0
    } else if ends_with(dest, "px"@) && scaled_px(dest, rem_scale) is Some {
        scaled_px(dest, rem_scale)->0
    } else if ends_with(dest, "%"@) && dest == "100%"@ {
        "full"@
    } else if ends_with(dest, "%"@) && dest == "50%"@ {
        "1/2"@
    } else {
        seq!['['] + leading_zero(dest) + seq![']']
    }
}

proof fn lemma_normalized_fixed(d: nat, s: nat)
    requires
        s == 0 || d % 10 != 0,
    ensures
        normalize(d, s) == (d, s),
{
}

/// The text of the product of two decimals, when it fits.
fn product_text_exec(a: &Decimal, b: &Decimal) -> (r: Option<Vec<char>>)
    requires
        a.wf(),
        b.wf(),
    ensures
        r matches Some(t) ==> product_text(*a, *b) == Some(t@),
        r is None ==> product_text(*a, *b) is None,
        r is None ==> product_decimal(*a, *b) is None,
{
    match a.mul(b) {
        Some(p) => {
            proof {
                lemma_normalize_value(a.digits as nat * b.digits as nat, a.scale as nat + b.scale as nat);
                lemma_normalized_fixed(p.digits as nat, p.scale as nat);
            }
            let t = p.to_text();
            Some(t)
        },
        None => None,
    }
}

/// The scaled number of a `rem` length, as in `scaled_rem`.
fn scaled_rem_exec(dest: &[char], rem_scale: &Decimal) -> (r: Option<Vec<char>>)
    requires
        rem_scale.wf(),
        dest@.len() >= 3,
    ensures
        r matches Some(t) ==> scaled_rem(dest@, *rem_scale) == Some(t@),
        r is None ==> scaled_rem(dest@, *rem_scale) is None,
{
    let num = slice_chars(dest, 0, dest.len() - 3);
    match Decimal::parse(num.as_slice()) {
        Some(v) => product_text_exec(&v, rem_scale),
        None => None,
    }
}

/// The scaled number of a `px` length, as in `scaled_px`.
fn scaled_px_exec(dest: &[char], rem_scale: &Decimal) -> (r: Option<Vec<char>>)
    requires
        rem_scale.wf(),
        dest@.len() >= 2,
    ensures
        r matches Some(t) ==> scaled_px(dest@, *rem_scale) == Some(t@),
        r is None ==> scaled_px(dest@, *rem_scale) is None,
{
    let num = slice_chars(dest, 0, dest.len() - 2);
    match Decimal::parse(num.as_slice()) {
        Some(v) => {
            let sixteenth = Decimal::new(625, 4);
            proof {
                lemma_pow10_18();
            }
            match v.mul(&sixteenth) {
                Some(rem) => {
                    proof {
                        lemma_normalize_value(v.digits as nat * 625, v.scale as nat + 4);
                    }
                    product_text_exec(&rem, rem_scale)
                },
                None => None,
            }
        },
        None => None,
    }
}

/// Whether `v` holds exactly the characters of `lit`.
pub fn is_lit(v: &[char], lit: &str) -> (r: bool)
    ensures
        r == (v@ == lit@),
{
    let l = chars_of(lit);
    eq_chars(v, l.as_slice())
}

/// Whether `v` ends with the characters of `lit`.
pub fn ends_with_lit(v: &[char], lit: &str) -> (r: bool)
    ensures
        r == ends_with(v@, lit@),
{
    let l = chars_of(lit);
    ends_with_chars(v, l.as_slice())
}

/// Whether `v` starts with the characters of `lit`.
pub fn starts_with_lit(v: &[char], lit: &str) -> (r: bool)
    ensures
        r == starts_with(v@, lit@),
{
    let l = chars_of(lit);
    starts_with_chars(v, l.as_slice())
}

/// `[` + the value with leading zeros fixed + `]`.
fn bracketed_leading_zero(dest: &[char]) -> (r: Vec<char>)
    ensures
        r@ == seq!['['] + leading_zero(dest@) + seq![']'],
{
    let mut r: Vec<char> = Vec::new();
    r.push('[');
    let z = leading_zero_chars(dest);
    push_all(&mut r, z.as_slice());
    r.push(']');
    r
}

/// The Tailwind spacing value of a printed CSS length, as `length_spec` says.
pub fn length_chars(dest: &[char], rem_scale: &Decimal) -> (r: Vec<char>)
    requires
        rem_scale.wf(),
    ensures
        r@ == length_spec(dest@, *rem_scale),
{
    if is_lit(dest, "auto") {
        return chars_of("auto");
    }
    if ends_with_lit(dest, "rem") {
        proof {
            reveal_strlit("rem");
        }
        if let Some(t) = scaled_rem_exec(dest, rem_scale) {
            return t;
        }
    }
    if ends_with_lit(dest, "px") {
        proof {
            reveal_strlit("px");
        }
        if let Some(t) = scaled_px_exec(dest, rem_scale) {
            return t;
        }
    }
    if ends_with_lit(dest, "%") {
        if is_lit(dest, "100%") {
            return chars_of("full");
        }
        if is_lit(dest, "50%") {
            return chars_of("1/2");
        }
    }
    bracketed_leading_zero(dest)
}

/// Converts a printed CSS length (px, rem, %) to a Tailwind spacing value:
/// `16px` is `4` at 4 units per rem, `1rem` is `4`, `100%` is `full`.
pub fn length_to_tw(dest: &str, rem_scale: &Decimal) -> (r: String)
    requires
        rem_scale.wf(),
    ensures
        r@ == length_spec(dest@, *rem_scale),
{
    let d = chars_of(dest);
    let r = length_chars(d.as_slice(), rem_scale);
    string_of(r.as_slice())
}

/// Whether `num / den` lies within 0.001 of `c1000 / 1000`.
pub open spec fn near(num: int, den: int, c1000: int) -> bool {
    let d = num * 1000 - c1000 * den;
    -den < d && d < den
}

/// The Tailwind font size keyword of a size of `num / den` rem, if it is
/// within 0.001 of one of the scale's sizes.
pub open spec fn rem_keyword(num: int, den: int) -> Option<Seq<char>> {
    if near(num, den, 750) {
        Some("xs"@)
    } else if near(num, den, 875) {
        Some("sm"@)
    } else if near(num, den, 1000) {
        Some("base"@)
    } else if near(num, den, 1125) {
        Some("lg"@)
    } else if near(num, den, 1250) {
        Some("xl"@)
    } else if near(num, den, 1500) {
        Some("2xl"@)
    } else if near(num, den, 1875) {
        Some("3xl"@)
    } else if near(num, den, 2250) {
        Some("4xl"@)
    } else if near(num, den, 3000) {
        Some("5xl"@)
    } else if near(num, den, 3750) {
        Some("6xl"@)
    } else if near(num, den, 4500) {
        Some("7xl"@)
    } else if near(num, den, 6000) {
        Some("8xl"@)
    } else if near(num, den, 8000) {
        Some("9xl"@)
    } else {
        None
    }
}

/// The font size keyword of a `rem` length, if it has one.
pub open spec fn rem_size_keyword(dest: Seq<char>) -> Option<Seq<char>> {
    match parsed(dest.subrange(0, dest.len() - 3)) {
        Some(v) => rem_keyword(v.numer(), v.denom() as int),
        None => None,
    }
}

/// The font size keyword of a `px` length (16px to the rem), if it has one.
pub open spec fn px_size_keyword(dest: Seq<char>) -> Option<Seq<char>> {
    match parsed(dest.subrange(0, dest.len() - 2)) {
        Some(v) => rem_keyword(v.numer(), 16 * v.denom() as int),
        None => None,
    }
}

/// The Tailwind font size value of a printed CSS length: a keyword of the
/// type scale (`sm` for 14px) where one fits, else an arbitrary value.
pub open spec fn font_size_spec(dest: Seq<char>) -> Seq<char> {
    if ends_with(dest, "rem"@) && rem_size_keyword(dest) is Some {
        rem_size_keyword(dest)->0
    } else if ends_with(dest, "px"@) && px_size_keyword(dest) is Some {
        px_size_keyword(dest)->0
    } else {
        seq!['['] + leading_zero(dest) + seq![']']
    }
}

fn near_exec(num: i128, den: i128, c1000: i128) -> (r: bool)
    requires
        -1000000000000000000000 <= num <= 1000000000000000000000,
        0 < den <= 100000000000000000000,
        0 <= c1000 <= 10000,
    ensures
        r == near(num as int, den as int, c1000 as int),
{
    assert(-1000000000000000000000000000000 <= c1000 * den <= 1000000000000000000000000000000) by (nonlinear_arith)
        requires
            0 < den <= 100000000000000000000,
            0 <= c1000 <= 10000,
    ;
    let d = num * 1000 - c1000 * den;
    -den < d && d < den
}

fn rem_keyword_exec(num: i128, den: i128) -> (r: Option<Vec<char>>)
    requires
        -1000000000000000000000 <= num <= 1000000000000000000000,
        0 < den <= 100000000000000000000,
    ensures
        r matches Some(k) ==> rem_keyword(num as int, den as int) == Some(k@),
        r is None ==> rem_keyword(num as int, den as int) is None,
{
    if near_exec(num, den, 750) {
        Some(chars_of("xs"))
    } else if near_exec(num, den, 875) {
        Some(chars_of("sm"))
    } else if near_exec(num, den, 1000) {
        Some(chars_of("base"))
    } else if near_exec(num, den, 1125) {
        Some(chars_of("lg"))
    } else if near_exec(num, den, 1250) {
        Some(chars_of("xl"))
    } else if near_exec(num, den, 1500) {
        Some(chars_of("2xl"))
    } else if near_exec(num, den, 1875) {
        Some(chars_of("3xl"))
    } else if near_exec(num, den, 2250) {
        Some(chars_of("4xl"))
    } else if near_exec(num, den, 3000) {
        Some(chars_of("5xl"))
    } else if near_exec(num, den, 3750) {
        Some(chars_of("6xl"))
    } else if near_exec(num, den, 4500) {
        Some(chars_of("7xl"))
    } else if near_exec(num, den, 6000) {
        Some(chars_of("8xl"))
    } else if near_exec(num, den, 8000) {
        Some(chars_of("9xl"))
    } else {
        None
    }
}

/// The size keyword of the number in `num_text` read as `1/unit` rem.
fn size_keyword_exec(num_text: &[char], per_rem: i128) -> (r: Option<Vec<char>>)
    requires
        per_rem == 1 || per_rem == 16,
    ensures
        r matches Some(k) ==> parsed(num_text@) matches Some(v) && rem_keyword(v.numer(), per_rem * v.denom()) == Some(k@),
        r is None ==> parsed(num_text@) is None || (parsed(num_text@) matches Some(v) && rem_keyword(v.numer(), per_rem * v.denom()) is None),
{
    match Decimal::parse(num_text) {
        Some(v) => {
            let p = crate::number::pow10_exec(v.scale);
            proof {
                lemma_pow10_18();
                crate::number::lemma_pow10_mono(v.scale as nat, 18);
                crate::number::lemma_pow10_positive(v.scale as nat);
            }
            let num: i128 = if v.negative { -(v.digits as i128) } else { v.digits as i128 };
            let den: i128 = per_rem * (p as i128);
            rem_keyword_exec(num, den)
        },
        None => None,
    }
}

/// The Tailwind font size value of a printed length, as `font_size_spec` says.
pub fn font_size_chars(dest: &[char]) -> (r: Vec<char>)
    ensures
        r@ == font_size_spec(dest@),
{
    if ends_with_lit(dest, "rem") {
        proof {
            reveal_strlit("rem");
        }
        let num = slice_chars(dest, 0, dest.len() - 3);
        if let Some(k) = size_keyword_exec(num.as_slice(), 1) {
            return k;
        }
    }
    if ends_with_lit(dest, "px") {
        proof {
            reveal_strlit("px");
        }
        let num = slice_chars(dest, 0, dest.len() - 2);
        if let Some(k) = size_keyword_exec(num.as_slice(), 16) {
            return k;
        }
    }
    bracketed_leading_zero(dest)
}

/// Maps a printed font size to a Tailwind keyword (`14px` gives `sm`,
/// `1rem` gives `base`) or an arbitrary value (`[15px]`).
pub fn map_font_size(dest: &str) -> (r: String)
    ensures
        r@ == font_size_spec(dest@),
{
    let d = chars_of(dest);
    let r = font_size_chars(d.as_slice());
    string_of(r.as_slice())
}

/// The class of a printed font weight.
pub open spec fn font_weight_spec(dest: Seq<char>) -> Seq<char> {
    if dest == "bold"@ || dest == "700"@ {
        "font-bold"@
    } else if dest == "normal"@ || dest == "400"@ {
        "font-normal"@
    } else if dest == "medium"@ || dest == "500"@ {
        "font-medium"@
    } else if dest == "semibold"@ || dest == "600"@ {
        "font-semibold"@
    } else {
        "font-["@ + dest + "]"@
    }
}

pub fn font_weight_chars(dest: &[char]) -> (r: Vec<char>)
    ensures
        r@ == font_weight_spec(dest@),
{
    if is_lit(dest, "bold") || is_lit(dest, "700") {
        chars_of("font-bold")
    } else if is_lit(dest, "normal") || is_lit(dest, "400") {
        chars_of("font-normal")
    } else if is_lit(dest, "medium") || is_lit(dest, "500") {
        chars_of("font-medium")
    } else if is_lit(dest, "semibold") || is_lit(dest, "600") {
        chars_of("font-semibold")
    } else {
        let mut r = chars_of("font-[");
        push_all(&mut r, dest);
        push_str(&mut r, "]");
        r
    }
}

/// Maps a printed font weight to a Tailwind class: `bold`/`700` give
/// `font-bold`, other values an arbitrary `font-[...]`.
pub fn map_font_weight(dest: &str) -> (r: String)
    ensures
        r@ == font_weight_spec(dest@),
{
    let d = chars_of(dest);
    let r = font_weight_chars(d.as_slice());
    string_of(r.as_slice())
}

} // verus!
