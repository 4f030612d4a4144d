//! Exact decimal numbers: CSS numbers, the rem scale and confidence scores.
//!
//! A `Decimal` is `±digits / 10^scale`. Arithmetic on it is exact; the text
//! form is the shortest plain decimal notation of the value (no exponent,
//! no trailing fractional zeros), as Rust prints a number.

use vstd::prelude::*;

verus! {

/// The largest number of significant digits that a `Decimal` keeps.
pub const MAX_DIGITS: u32 = 18;

/// `10^n`.
pub open spec fn pow10(n: nat) -> nat
    decreases n,
{
    if n == 0 {
        1
    } else {
        10 * pow10((n - 1) as nat)
    }
}

pub proof fn lemma_pow10_positive(n: nat)
    ensures
        pow10(n) >= 1,
    decreases n,
{
    if n > 0 {
        lemma_pow10_positive((n - 1) as nat);
    }
}

pub proof fn lemma_pow10_mono(a: nat, b: nat)
    requires
        a <= b,
    ensures
        pow10(a) <= pow10(b),
    decreases b,
{
    if a < b {
        lemma_pow10_mono(a, (b - 1) as nat);
        lemma_pow10_positive((b - 1) as nat);
    }
}

pub proof fn lemma_pow10_18()
    ensures
        pow10(18) == 1000000000000000000,
{
    reveal_with_fuel(pow10, 19);
}

pub open spec fn is_digit(c: char) -> bool {
    '0' <= c && c <= '9'
}

pub open spec fn digit_value(c: char) -> nat {
    (c as int - '0' as int) as nat
}

pub open spec fn digit_char(d: nat) -> char {
    (d + '0' as int) as char
}

pub open spec fn all_digits(s: Seq<char>) -> bool {
    forall|i: int| 0 <= i < s.len() ==> is_digit(#[trigger] s[i])
}

/// The number that a string of decimal digits denotes.
pub open spec fn digits_value(s: Seq<char>) -> nat
    decreases s.len(),
{
    if s.len() == 0 {
        0
    } else {
        digits_value(s.drop_last()) * 10 + digit_value(s.last())
    }
}

pub proof fn lemma_digits_value_bound(s: Seq<char>)
    requires
        all_digits(s),
    ensures
        digits_value(s) < pow10(s.len()),
    decreases s.len(),
{
    if s.len() > 0 {
        assert(all_digits(s.drop_last()));
        lemma_digits_value_bound(s.drop_last());
        assert(is_digit(s[s.len() - 1]));
    }
}

/// The digits of `n` in base ten, without leading zeros ("0" for zero).
pub open spec fn nat_text(n: nat) -> Seq<char>
    decreases n,
{
    if n < 10 {
        seq![digit_char(n)]
    } else {
        nat_text(n / 10).push(digit_char(n % 10))
    }
}

/// `n` zeros.
pub open spec fn zeros(n: nat) -> Seq<char> {
    Seq::new(n, |i: int| '0')
}

/// `(digits, scale)` with trailing fractional zeros removed.
pub open spec fn normalize(digits: nat, scale: nat) -> (nat, nat)
    decreases scale,
{
    if scale > 0 && digits % 10 == 0 {
        normalize(digits / 10, (scale - 1) as nat)
    } else {
        (digits, scale)
    }
}

/// The decimal text of `±digits / 10^scale`, for a value already normalized.
pub open spec fn plain_text(negative: bool, digits: nat, scale: nat) -> Seq<char> {
    let t = nat_text(digits);
    let padded = if t.len() <= scale {
        zeros((scale + 1 - t.len()) as nat) + t
    } else {
        t
    };
    let cut = padded.len() - scale;
    let sign = if negative {
        seq!['-']
    } else {
        Seq::<char>::empty()
    };
    if scale == 0 {
        sign + padded
    } else {
        sign + padded.subrange(0, cut) + seq!['.'] + padded.subrange(cut, padded.len() as int)
    }
}

/// Reads the digits and at most one point of `s`, left to right: the digits
/// read as one integer, how many digits there are, and how many of them
/// follow the point (`None` without a point); `None` on any other character
/// or a second point.
pub open spec fn scan_number(s: Seq<char>) -> Option<(nat, nat, Option<nat>)>
    decreases s.len(),
{
    if s.len() == 0 {
        Some((0, 0, None))
    } else {
        match scan_number(s.drop_last()) {
            None => None,
            Some((d, n, f)) => {
                let c = s.last();
                if c == '.' {
                    if f is Some {
                        None
                    } else {
                        Some((d, n, Some(0)))
                    }
                } else if is_digit(c) {
                    Some(
                        (
                            d * 10 + digit_value(c),
                            n + 1,
                            match f {
                                Some(k) => Some(k + 1),
                                None => None,
                            },
                        ),
                    )
                } else {
                    None
                }
            },
        }
    }
}

/// The parse of a number written `[+|-] digits [. digits]` (at least one
/// digit and at most `MAX_DIGITS`): its sign, its digits read as one
/// integer, and the number of digits after the point.
pub open spec fn parse_number(s: Seq<char>) -> Option<(bool, nat, nat)> {
    let negative = s.len() > 0 && s[0] == '-';
    let body = if s.len() > 0 && (s[0] == '-' || s[0] == '+') {
        s.drop_first()
    } else {
        s
    };
    match scan_number(body) {
        Some((d, n, f)) => if 1 <= n <= MAX_DIGITS {
            Some(
                (
                    negative,
                    d,
                    match f {
                        Some(k) => k,
                        None => 0,
                    },
                ),
            )
        } else {
            None
        },
        None => None,
    }
}

/// A decimal number `±digits / 10^scale`.
#[derive(Debug, Clone, Copy, PartialEq, Eq)]
pub struct Decimal {
    pub negative: bool,
    pub digits: u128,
    pub scale: u32,
}

impl Decimal {
    /// The bounds within which arithmetic on the number cannot overflow.
    pub open spec fn wf(self) -> bool {
        self.digits < pow10(MAX_DIGITS as nat) && self.scale <= MAX_DIGITS
    }

    /// The numerator of the value.
    pub open spec fn numer(self) -> int {
        if self.negative {
            -(self.digits as int)
        } else {
            self.digits as int
        }
    }

    /// The denominator of the value.
    pub open spec fn denom(self) -> nat {
        pow10(self.scale as nat)
    }

    /// The text of the value, as Rust prints a number.
    pub open spec fn text(self) -> Seq<char> {
        let (d, s) = normalize(self.digits as nat, self.scale as nat);
        plain_text(self.negative, d, s)
    }

    /// Whether `self >= other` as numbers.
    pub open spec fn ge_spec(self, other: Decimal) -> bool {
        self.numer() * other.denom() >= other.numer() * self.denom()
    }

    /// The whole number `n`, as `from_int` builds it.
    pub open spec fn from_int_spec(n: u64) -> Decimal {
        Decimal { negative: false, digits: n as u128, scale: 0 }
    }

    /// The whole number `n`.
    pub fn from_int(n: u64) -> (r: Decimal)
        ensures
            r == Decimal::from_int_spec(n),
            r.numer() == n,
            r.denom() == 1,
    {
        Decimal { negative: false, digits: n as u128, scale: 0 }
    }

    /// `digits / 10^scale`.
    pub fn new(digits: u64, scale: u32) -> (r: Decimal)
        ensures
            r.digits == digits,
            r.scale == scale,
            !r.negative,
    {
        Decimal { negative: false, digits: digits as u128, scale }
    }

    /// Reads a number written `[+|-] digits [. digits]`.
    #[verifier::rlimit(40)]
    pub fn parse(s: &[char]) -> (r: Option<Decimal>)
        ensures
            r matches Some(d) ==> parse_number(s@) == Some(
                (d.negative, d.digits as nat, d.scale as nat),
            ) && d.wf(),
            r is None ==> parse_number(s@) is None,
    {
        let n = s.len();
        let mut start: usize = 0;
        let mut negative = false;
        if n > 0 && (s[0] == '-' || s[0] == '+') {
            negative = s[0] == '-';
            start = 1;
        }
        let ghost body = if s@.len() > 0 && (s@[0] == '-' || s@[0] == '+') {
            s@.drop_first()
        } else {
            s@
        };
        assert(body =~= s@.subrange(start as int, n as int));
        let mut digits: u128 = 0;
        let mut count: u32 = 0;
        let mut frac: Option<u32> = None;
        let mut i = start;
        assert(s@.subrange(start as int, start as int) =~= Seq::<char>::empty());
        while i < n
            invariant
                start <= i <= n,
                n == s@.len(),
                body =~= s@.subrange(start as int, n as int),
                scan_number(body) is None ==> parse_number(s@) is None,
                (scan_number(body) matches Some((d, nn, f)) && nn > MAX_DIGITS) ==> parse_number(
                    s@,
                ) is None,
                count <= MAX_DIGITS,
                scan_number(s@.subrange(start as int, i as int)) == Some(
                    (
                        digits as nat,
                        count as nat,
                        match frac {
                            Some(k) => Some(k as nat),
                            None => None,
                        },
                    ),
                ),
                frac matches Some(k) ==> k <= count,
                digits < pow10(count as nat),
            decreases n - i,
        {
            let c = s[i];
            let ghost pre = s@.subrange(start as int, i as int);
            assert(s@.subrange(start as int, i + 1) =~= pre.push(c));
            proof {
                lemma_scan_step(pre, c);
            }
            if c == '.' {
                if frac.is_some() {
                    proof {
                        lemma_scan_none_extends(s@.subrange(start as int, i + 1), body);
                    }
                    return None;
                }
                frac = Some(0);
            } else if '0' <= c && c <= '9' {
                if count == MAX_DIGITS {
                    proof {
                        lemma_scan_count_grows(s@.subrange(start as int, i + 1), body);
                    }
                    return None;
                }
                proof {
                    lemma_pow10_mono(count as nat, MAX_DIGITS as nat);
                    lemma_pow10_18();
                }
                let d = (c as u32 - '0' as u32) as u128;
                digits = digits * 10 + d;
                count = count + 1;
                frac = match frac {
                    Some(k) => Some(k + 1),
                    None => None,
                };
            } else {
                proof {
                    lemma_scan_none_extends(s@.subrange(start as int, i + 1), body);
                }
                return None;
            }
            i = i + 1;
        }
        if count == 0 {
            return None;
        }
        proof {
            lemma_pow10_mono(count as nat, MAX_DIGITS as nat);
        }
        let scale = match frac {
            Some(k) => k,
            None => 0,
        };
        Some(Decimal { negative, digits, scale })
    }

    /// The text of the value, as Rust prints a number: `-` for a negative
    /// sign, no trailing fractional zeros, no point for whole numbers.
    pub fn to_text(&self) -> (r: Vec<char>)
        requires
            self.wf(),
        ensures
            r@ == self.text(),
    {
        let mut d = self.digits;
        let mut s = self.scale;
        while s > 0 && d % 10 == 0
            invariant
                normalize(d as nat, s as nat) == normalize(self.digits as nat, self.scale as nat),
                s <= self.scale,
            decreases s,
        {
            d = d / 10;
            s = s - 1;
        }
        let t = nat_chars(d);
        let mut padded: Vec<char> = Vec::new();
        if t.len() <= s as usize {
            let z = s as usize + 1 - t.len();
            let mut k: usize = 0;
            while k < z
                invariant
                    k <= z,
                    padded@ == zeros(k as nat),
                decreases z - k,
            {
                padded.push('0');
                k = k + 1;
                assert(padded@ =~= zeros(k as nat));
            }
        }
        let ghost pre = padded@;
        assert(t@.len() <= s as nat ==> pre == zeros((s as nat + 1 - t@.len()) as nat));
        assert(t@.len() > s as nat ==> pre =~= Seq::<char>::empty());
        let mut k: usize = 0;
        while k < t.len()
            invariant
                k <= t.len(),
                padded@ == pre + t@.subrange(0, k as int),
            decreases t.len() - k,
        {
            padded.push(t[k]);
            k = k + 1;
            assert(padded@ =~= pre + t@.subrange(0, k as int));
        }
        let ghost tp = if t@.len() <= s as nat {
            zeros((s as nat + 1 - t@.len()) as nat) + t@
        } else {
            t@
        };
        assert(padded@ =~= tp) by {
            assert(t@.subrange(0, t@.len() as int) =~= t@);
        }
        let cut = padded.len() - s as usize;
        let mut r: Vec<char> = Vec::new();
        if self.negative {
            r.push('-');
        }
        let ghost sign = r@;
        let mut k: usize = 0;
        while k < cut
            invariant
                k <= cut <= padded.len(),
                r@ == sign + padded@.subrange(0, k as int),
            decreases cut - k,
        {
            r.push(padded[k]);
            k = k + 1;
            assert(r@ =~= sign + padded@.subrange(0, k as int));
        }
        if s > 0 {
            r.push('.');
            let ghost head = r@;
            let mut k: usize = cut;
            while k < padded.len()
                invariant
                    cut <= k <= padded.len(),
                    r@ == head + padded@.subrange(cut as int, k as int),
                decreases padded.len() - k,
            {
                r.push(padded[k]);
                k = k + 1;
                assert(r@ =~= head + padded@.subrange(cut as int, k as int));
            }
        }
        assert(r@ =~= self.text());
        r
    }

    /// The exact product of two decimals, normalized; `None` when it does
    /// not fit the bounds of a `Decimal`.
    pub fn mul(&self, other: &Decimal) -> (r: Option<Decimal>)
        requires
            self.wf(),
            other.wf(),
        ensures
            r matches Some(p) ==> p.wf() && (p.negative, p.digits as nat, p.scale as nat)
                == product(*self, *other),
            r is None ==> !fits(product(*self, *other)),
    {
        proof {
            lemma_pow10_18();
            assert(self.digits * other.digits < 1000000000000000000000000000000000000) by (nonlinear_arith)
                requires
                    self.digits < 1000000000000000000,
                    other.digits < 1000000000000000000,
            ;
        }
        let mut d: u128 = self.digits * other.digits;
        let mut s: u32 = self.scale + other.scale;
        while s > 0 && d % 10 == 0
            invariant
                normalize(d as nat, s as nat) == normalize(
                    self.digits as nat * other.digits as nat,
                    self.scale as nat + other.scale as nat,
                ),
            decreases s,
        {
            d = d / 10;
            s = s - 1;
        }
        if d >= 1000000000000000000 || s > MAX_DIGITS {
            return None;
        }
        Some(Decimal { negative: self.negative != other.negative, digits: d, scale: s })
    }

    /// Whether the number is within the bounds of `wf`.
    pub fn is_wf(&self) -> (r: bool)
        ensures
            r == self.wf(),
    {
        proof {
            lemma_pow10_18();
        }
        self.digits < 1000000000000000000 && self.scale <= MAX_DIGITS
    }

    /// Whether `self >= other` as numbers.
    pub fn ge(&self, other: &Decimal) -> (r: bool)
        requires
            self.wf(),
            other.wf(),
        ensures
            r == self.ge_spec(*other),
    {
        let pa = pow10_exec(self.scale);
        let pb = pow10_exec(other.scale);
        proof {
            lemma_pow10_18();
            lemma_pow10_mono(self.scale as nat, 18);
            lemma_pow10_mono(other.scale as nat, 18);
            lemma_pow10_positive(self.scale as nat);
            lemma_pow10_positive(other.scale as nat);
            assert(self.digits * pb <= 1000000000000000000 * 1000000000000000000) by (nonlinear_arith)
                requires
                    self.digits < 1000000000000000000,
                    pb <= 1000000000000000000,
            ;
            assert(other.digits * pa <= 1000000000000000000 * 1000000000000000000) by (nonlinear_arith)
                requires
                    other.digits < 1000000000000000000,
                    pa <= 1000000000000000000,
            ;
        }
        let x = self.digits * pb;
        let y = other.digits * pa;
        proof {
            if self.negative {
                assert(self.numer() * other.denom() == -(x as int)) by (nonlinear_arith)
                    requires
                        self.numer() == -(self.digits as int),
                        other.denom() == pb,
                        x == self.digits * pb,
                ;
            }
            if other.negative {
                assert(other.numer() * self.denom() == -(y as int)) by (nonlinear_arith)
                    requires
                        other.numer() == -(other.digits as int),
                        self.denom() == pa,
                        y == other.digits * pa,
                ;
            }
        }
        if !self.negative && !other.negative {
            x >= y
        } else if self.negative && other.negative {
            x <= y
        } else if self.negative {
            x == 0 && y == 0
        } else {
            true
        }
    }
}

proof fn lemma_scan_step(p: Seq<char>, c: char)
    ensures
        scan_number(p.push(c)) == match scan_number(p) {
            None => None,
            Some((d, n, f)) => {
                if c == '.' {
                    if f is Some {
                        None
                    } else {
                        Some((d, n, Some(0nat)))
                    }
                } else if is_digit(c) {
                    Some(
                        (
                            d * 10 + digit_value(c),
                            n + 1,
                            match f {
                                Some(k) => Some(k + 1),
                                None => None,
                            },
                        ),
                    )
                } else {
                    None
                }
            },
        },
{
    assert(p.push(c).drop_last() =~= p);
}

/// `normalize` keeps the value: `d / 10^s == d2 / 10^s2`.
pub proof fn lemma_normalize_value(d: nat, s: nat)
    ensures
        ({
            let (d2, s2) = normalize(d, s);
            &&& d * pow10(s2) == d2 * pow10(s)
            &&& s2 <= s
            &&& d2 <= d
            &&& (s2 == 0 || d2 % 10 != 0)
        }),
    decreases s,
{
    if s > 0 && d % 10 == 0 {
        lemma_normalize_value(d / 10, (s - 1) as nat);
        let (d2, s2) = normalize(d / 10, (s - 1) as nat);
        assert(d == (d / 10) * 10);
        assert((d / 10) * pow10(s2) == d2 * pow10((s - 1) as nat));
        assert(d * pow10(s2) == 10 * ((d / 10) * pow10(s2))) by (nonlinear_arith)
            requires
                d == (d / 10) * 10,
        ;
        assert(d2 * pow10(s) == 10 * (d2 * pow10((s - 1) as nat))) by (nonlinear_arith)
            requires
                pow10(s) == 10 * pow10((s - 1) as nat),
        ;
    }
}

/// The product of two decimals before it is normalized: sign, digits, scale.
pub open spec fn product(a: Decimal, b: Decimal) -> (bool, nat, nat) {
    let (d, s) = normalize(a.digits as nat * b.digits as nat, a.scale as nat + b.scale as nat);
    (a.negative != b.negative, d, s)
}

/// Whether a normalized product fits the bounds of a `Decimal`.
pub open spec fn fits(p: (bool, nat, nat)) -> bool {
    p.1 < pow10(MAX_DIGITS as nat) && p.2 <= MAX_DIGITS
}

/// The digits of `n`, most significant first.
pub(crate) fn nat_chars(n: u128) -> (v: Vec<char>)
    ensures
        v@ == nat_text(n as nat),
    decreases n,
{
    let c = digit_char_of((n % 10) as u8);
    if n < 10 {
        let mut v = Vec::new();
        v.push(c);
        v
    } else {
        let mut v = nat_chars(n / 10);
        v.push(c);
        v
    }
}

fn digit_char_of(d: u8) -> (c: char)
    requires
        d < 10,
    ensures
        c == digit_char(d as nat),
{
    (d + 48u8) as char
}

/// `10^n` as a machine integer.
pub fn pow10_exec(n: u32) -> (r: u128)
    requires
        n <= 18,
    ensures
        r == pow10(n as nat),
{
    let mut r: u128 = 1;
    let mut k: u32 = 0;
    while k < n
        invariant
            k <= n <= 18,
            r == pow10(k as nat),
        decreases n - k,
    {
        proof {
            lemma_pow10_mono(k as nat, 18);
            lemma_pow10_18();
        }
        r = r * 10;
        k = k + 1;
    }
    r
}

/// Once the scan of a prefix fails, the scan of the whole fails.
proof fn lemma_scan_none_extends(p: Seq<char>, s: Seq<char>)
    requires
        scan_number(p) is None,
        p.len() <= s.len(),
        p =~= s.subrange(0, p.len() as int),
    ensures
        scan_number(s) is None,
    decreases s.len() - p.len(),
{
    if p.len() < s.len() {
        let q = s.subrange(0, p.len() + 1 as int);
        assert(q.drop_last() =~= p);
        lemma_scan_none_extends(q, s);
    } else {
        assert(p =~= s);
    }
}

/// The digit count of a scan never drops as the text grows; past the limit the parse fails.
proof fn lemma_scan_count_grows(p: Seq<char>, s: Seq<char>)
    requires
        scan_number(p) matches Some((d, n, f)) && n > MAX_DIGITS || scan_number(p) is None,
        p.len() <= s.len(),
        p =~= s.subrange(0, p.len() as int),
    ensures
        scan_number(s) matches Some((d, n, f)) && n > MAX_DIGITS || scan_number(s) is None,
    decreases s.len() - p.len(),
{
    if p.len() < s.len() {
        let q = s.subrange(0, p.len() + 1 as int);
        assert(q.drop_last() =~= p);
        lemma_scan_count_grows(q, s);
    } else {
        assert(p =~= s);
    }
}

} // verus!
