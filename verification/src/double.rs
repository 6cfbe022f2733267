//! Double-precision numbers, held and computed with in integers.
//!
//! A number is its 64 bits. What it is worth, how a quotient is rounded and how
//! it prints to a few decimal places are stated over integers, so that a text
//! made of a measured number is fixed to the last digit.
use vstd::arithmetic::power2::{
    lemma2_to64, lemma2_to64_rest, lemma_pow2_adds, lemma_pow2_pos, lemma_pow2_strictly_increases,
    lemma_pow2_unfold, pow2,
};
use vstd::prelude::*;

use crate::text;

verus! {

/// The magnitude of a number.
#[derive(Debug, Clone, Copy, PartialEq, Eq, Structural)]
pub enum Size {
    /// `mantissa * 2^exponent`.
    Finite {
        /// At most 53 bits.
        mantissa: u64,
        /// From -1074 to 971.
        exponent: i32,
    },
    /// Beyond every finite number.
    Infinite,
    /// No number at all.
    NotANumber,
}

/// A double-precision number, as its bits: sign, exponent, fraction.
#[derive(Debug, Clone, Copy, PartialEq, Eq, Hash, Structural)]
pub struct Double {
    /// The bits.
    pub bits: u64,
}

/// `2^52`, the least mantissa that fills its bits.
pub const FULL: u64 = 0x10_0000_0000_0000;

// ----------------------------------------------------------------- meaning --

/// `n / d * 2^k` as a fraction of integers.
pub open spec fn scaled(n: nat, d: nat, k: int) -> (nat, nat) {
    if k >= 0 {
        (n * pow2(k as nat), d)
    } else {
        (n, d * pow2((-k) as nat))
    }
}

/// `n / d * 2^k` is less than one.
pub open spec fn below_one(n: nat, d: nat, k: int) -> bool {
    scaled(n, d, k).0 < scaled(n, d, k).1
}

/// The least exponent, from `x` up, at which 53 bits hold `n / d * 2^e`.
pub open spec fn exponent_from(n: nat, d: nat, e: int, x: int) -> int
    decreases 972 - x,
{
    if x >= 972 || below_one(n, d, e - 53 - x) {
        x
    } else {
        exponent_from(n, d, e, x + 1)
    }
}

/// The double nearest to `n / d * 2^e`, a tie going to the even mantissa.
pub open spec fn nearest(n: nat, d: nat, e: int) -> Size {
    let x = exponent_from(n, d, e, -1074);
    let f = scaled(n, d, e - x);
    let m = text::round_half_even(f.0, f.1);
    if x > 971 || (x == 971 && m == 2 * FULL) {
        Size::Infinite
    } else if m == 2 * FULL {
        Size::Finite { mantissa: FULL, exponent: (x + 1) as i32 }
    } else {
        Size::Finite { mantissa: m as u64, exponent: x as i32 }
    }
}

impl Size {
    /// The bits of a double can hold it.
    pub open spec fn wf(self) -> bool {
        self matches Size::Finite { mantissa, exponent } ==> {
            &&& mantissa < 2 * FULL
            &&& -1074 <= exponent <= 971
            &&& mantissa >= FULL || exponent == -1074
        }
    }

    /// The double nearest to a whole number.
    pub open spec fn whole(n: nat) -> Size {
        nearest(n, 1, 0)
    }

    /// One number divided by another.
    pub open spec fn over(self, other: Size) -> Size {
        match (self, other) {
            (Size::NotANumber, _) => Size::NotANumber,
            (_, Size::NotANumber) => Size::NotANumber,
            (Size::Infinite, Size::Infinite) => Size::NotANumber,
            (Size::Infinite, _) => Size::Infinite,
            (_, Size::Infinite) => Size::Finite { mantissa: 0, exponent: -1074i32 },
            (
                Size::Finite { mantissa: a, exponent: x },
                Size::Finite { mantissa: b, exponent: y },
            ) => if b > 0 {
                nearest(a as nat, b as nat, x - y)
            } else if a > 0 {
                Size::Infinite
            } else {
                Size::NotANumber
            },
        }
    }

    /// One whole number divided by another, each as a double.
    pub open spec fn ratio(n: nat, d: nat) -> Size {
        Size::whole(n).over(Size::whole(d))
    }

    /// A number a hundred times over.
    pub open spec fn percent(self) -> Size {
        match self {
            Size::Finite { mantissa, exponent } => nearest(
                mantissa as nat * 100,
                1,
                exponent as int,
            ),
            _ => self,
        }
    }

    /// No less than another. What is no number is neither more nor less.
    pub open spec fn reaches(self, other: Size) -> bool {
        match (self, other) {
            (Size::NotANumber, _) => false,
            (_, Size::NotANumber) => false,
            (Size::Infinite, _) => true,
            (_, Size::Infinite) => false,
            (
                Size::Finite { mantissa: a, exponent: x },
                Size::Finite { mantissa: b, exponent: y },
            ) => !below_one(a as nat, b as nat, x - y),
        }
    }

    /// How many `unit`ths of one the number is, to the nearest, a tie going to
    /// the even one.
    pub open spec fn parts(self, unit: nat) -> nat {
        match self {
            Size::Finite { mantissa, exponent } => {
                let f = scaled(mantissa as nat * unit, 1, exponent as int);
                text::round_half_even(f.0, f.1)
            },
            _ => 0,
        }
    }

    /// The number without decimal places.
    pub open spec fn rounded(self) -> Seq<char> {
        match self {
            Size::Finite { .. } => text::dec(self.parts(1)),
            Size::Infinite => "inf"@,
            Size::NotANumber => "NaN"@,
        }
    }

    /// The number to one decimal place.
    pub open spec fn tenths(self) -> Seq<char> {
        match self {
            Size::Finite { .. } => text::one_decimal(self.parts(10)),
            _ => self.rounded(),
        }
    }

    /// The number to two decimal places.
    pub open spec fn hundredths(self) -> Seq<char> {
        match self {
            Size::Finite { .. } => text::two_decimals(self.parts(100)),
            _ => self.rounded(),
        }
    }
}

impl Double {
    /// Below zero, or the zero that prints a sign.
    pub open spec fn negative(self) -> bool {
        self.bits >= 0x8000_0000_0000_0000
    }

    /// What the bits are worth, but for the sign.
    pub open spec fn size(self) -> Size {
        let field = self.bits / FULL % 2048;
        let fraction = self.bits % FULL;
        if field == 2047 {
            if fraction == 0 {
                Size::Infinite
            } else {
                Size::NotANumber
            }
        } else if field == 0 {
            Size::Finite { mantissa: fraction, exponent: -1074i32 }
        } else {
            Size::Finite { mantissa: (FULL + fraction) as u64, exponent: (field - 1075) as i32 }
        }
    }

    /// One of the two zeros.
    pub open spec fn is_zero(self) -> bool {
        self.size() matches Size::Finite { mantissa, .. } && mantissa == 0
    }

    /// More than zero.
    pub open spec fn is_positive(self) -> bool {
        !self.negative() && !self.is_zero() && !(self.size() is NotANumber)
    }

    /// Zero or less.
    pub open spec fn is_not_positive(self) -> bool {
        self.is_zero() || (self.negative() && !(self.size() is NotANumber))
    }

    /// No less than another.
    pub open spec fn reaches(self, other: Double) -> bool {
        if self.negative() && other.negative() {
            other.size().reaches(self.size())
        } else if self.negative() {
            self.is_zero() && other.is_zero()
        } else if other.negative() {
            !(self.size() is NotANumber) && !(other.size() is NotANumber)
        } else {
            self.size().reaches(other.size())
        }
    }

    /// The sign a number prints with.
    pub open spec fn sign(self) -> Seq<char> {
        if self.negative() && !(self.size() is NotANumber) {
            "-"@
        } else {
            Seq::empty()
        }
    }

    /// The number without decimal places.
    pub open spec fn rounded(self) -> Seq<char> {
        self.sign() + self.size().rounded()
    }

    /// The number to one decimal place.
    pub open spec fn tenths(self) -> Seq<char> {
        self.sign() + self.size().tenths()
    }
}

// --------------------------------------------------------------- rounding --

proof fn lemma_round_split(n: nat, d: nat, p: nat, q: nat, r: nat)
    requires
        d > 0,
        p > 0,
        n == q * d + r,
        r < d,
    ensures
        n / (d * p) == q / p,
        n % (d * p) == (q % p) * d + r,
{
    let w = q / p;
    let s = q % p;
    assert(q == w * p + s) by {
        vstd::arithmetic::div_mod::lemma_fundamental_div_mod(q as int, p as int);
        assert(p * w == w * p) by (nonlinear_arith);
    }
    assert(n == w * (d * p) + (s * d + r)) by (nonlinear_arith)
        requires
            n == q * d + r,
            q == w * p + s,
    ;
    assert(s * d + r < d * p) by (nonlinear_arith)
        requires
            s + 1 <= p,
            r < d,
    ;
    vstd::arithmetic::div_mod::lemma_fundamental_div_mod_converse(
        n as int,
        (d * p) as int,
        w as int,
        (s * d + r) as int,
    );
}

/// Half of a unit, judged on what a division left.
proof fn lemma_half(d: nat, h: nat, s: nat, r: nat)
    requires
        d > 0,
        r < d,
    ensures
        (s * d + r) * 2 > d * (2 * h) <==> s > h || (s == h && r > 0),
        (s * d + r) * 2 == d * (2 * h) <==> s == h && r == 0,
{
    assert(d * (2 * h) == 2 * (h * d)) by (nonlinear_arith);
    if s > h {
        assert(s * d >= h * d + d) by (nonlinear_arith)
            requires
                s >= h + 1,
        ;
    } else if s < h {
        assert(s * d + d <= h * d) by (nonlinear_arith)
            requires
                s + 1 <= h,
        ;
    }
}

proof fn lemma_round_scale(a: nat, b: nat, c: nat)
    requires
        b > 0,
        c > 0,
    ensures
        b * c > 0,
        text::round_half_even(a * c, b * c) == text::round_half_even(a, b),
{
    let w = a / b;
    let s = a % b;
    vstd::arithmetic::div_mod::lemma_fundamental_div_mod(a as int, b as int);
    assert(b * c > 0 && a * c == w * (b * c) + s * c && s * c < b * c) by (nonlinear_arith)
        requires
            a == b * w + s,
            s < b,
            c > 0,
    ;
    vstd::arithmetic::div_mod::lemma_fundamental_div_mod_converse(
        (a * c) as int,
        (b * c) as int,
        w as int,
        (s * c) as int,
    );
    assert((s * c) * 2 > b * c <==> s * 2 > b) by (nonlinear_arith)
        requires
            c > 0,
    ;
    assert((s * c) * 2 == b * c <==> s * 2 == b) by (nonlinear_arith)
        requires
            c > 0,
    ;
}

proof fn lemma_round_ratio(a: nat, b: nat, c: nat, d: nat)
    requires
        b > 0,
        d > 0,
        a * d == c * b,
    ensures
        text::round_half_even(a, b) == text::round_half_even(c, d),
        (a < b) == (c < d),
{
    lemma_round_scale(a, b, d);
    lemma_round_scale(c, d, b);
    assert(b * d == d * b) by (nonlinear_arith);
    assert((a < b) == (a * d < b * d)) by (nonlinear_arith)
        requires
            d > 0,
    ;
    assert((c < d) == (c * b < d * b)) by (nonlinear_arith)
        requires
            b > 0,
    ;
}

/// Powers of two move freely between the number and its exponent.
proof fn lemma_shifted(n: nat, d: nat, k: int, j: nat)
    requires
        d > 0,
    ensures
        ({
            let f = scaled(n, d, k);
            let g = scaled(n * pow2(j), d, k - j);
            &&& f.1 > 0
            &&& g.1 > 0
            &&& f.0 * g.1 == g.0 * f.1
        }),
{
    let f = scaled(n, d, k);
    let g = scaled(n * pow2(j), d, k - j);
    lemma_pow2_pos(j);
    let pj = pow2(j);
    if k >= 0 {
        let pk = pow2(k as nat);
        if k - j >= 0 {
            let pd = pow2((k - j) as nat);
            lemma_pow2_adds((k - j) as nat, j);
            assert(pk == pd * pj);
            assert(f.0 * g.1 == g.0 * f.1) by (nonlinear_arith)
                requires
                    pk == pd * pj,
                    f.0 == n * pk,
                    f.1 == d,
                    g.0 == n * pj * pd,
                    g.1 == d,
            ;
        } else {
            let pd = pow2((j - k) as nat);
            lemma_pow2_pos((j - k) as nat);
            lemma_pow2_adds(k as nat, (j - k) as nat);
            assert(pj == pk * pd);
            assert(f.0 * g.1 == g.0 * f.1 && g.1 > 0) by (nonlinear_arith)
                requires
                    pj == pk * pd,
                    f.0 == n * pk,
                    f.1 == d,
                    g.0 == n * pj,
                    g.1 == d * pd,
                    d > 0,
                    pd > 0,
            ;
        }
    } else {
        let pk = pow2((-k) as nat);
        let pd = pow2((j - k) as nat);
        lemma_pow2_pos((-k) as nat);
        lemma_pow2_pos((j - k) as nat);
        lemma_pow2_adds((-k) as nat, j);
        assert(pd == pk * pj);
        assert(f.0 * g.1 == g.0 * f.1 && g.1 > 0 && f.1 > 0) by (nonlinear_arith)
            requires
                pd == pk * pj,
                f.0 == n,
                f.1 == d * pk,
                g.0 == n * pj,
                g.1 == d * pd,
                d > 0,
                pd > 0,
                pk > 0,
        ;
    }
}

proof fn lemma_exponent_shifted(n: nat, d: nat, e: int, j: nat, x: int)
    requires
        d > 0,
    ensures
        exponent_from(n * pow2(j), d, e - j, x) == exponent_from(n, d, e, x),
    decreases 972 - x,
{
    let k = e - 53 - x;
    lemma_shifted(n, d, k, j);
    let f = scaled(n, d, k);
    let g = scaled(n * pow2(j), d, k - j);
    lemma_round_ratio(f.0, f.1, g.0, g.1);
    assert((e - j) - 53 - x == k - j);
    if x < 972 && !below_one(n, d, k) {
        lemma_exponent_shifted(n, d, e, j, x + 1);
    }
}

proof fn lemma_nearest_shifted(n: nat, d: nat, e: int, j: nat)
    requires
        d > 0,
    ensures
        nearest(n * pow2(j), d, e - j) == nearest(n, d, e),
{
    lemma_exponent_shifted(n, d, e, j, -1074);
    let x = exponent_from(n, d, e, -1074);
    let k = e - x;
    lemma_shifted(n, d, k, j);
    let f = scaled(n, d, k);
    let g = scaled(n * pow2(j), d, k - j);
    lemma_round_ratio(f.0, f.1, g.0, g.1);
    assert((e - j) - x == k - j);
}

proof fn lemma_below_steps(n: nat, d: nat, k: int)
    requires
        d > 0,
        !below_one(n, d, k),
    ensures
        !below_one(n, d, k + 1),
{
    if k >= 0 {
        lemma_pow2_unfold((k + 1) as nat);
        let p = pow2(k as nat);
        assert(n * (2 * p) >= n * p) by (nonlinear_arith);
    } else {
        let p = pow2((-k - 1) as nat);
        lemma_pow2_unfold((-k) as nat);
        lemma_pow2_pos((-k - 1) as nat);
        assert(d * (2 * p) >= d * p) by (nonlinear_arith);
        if k == -1 {
            lemma2_to64();
            assert(p == 1);
            assert(n * pow2(0) == n) by (nonlinear_arith)
                requires
                    pow2(0) == 1,
            ;
            assert(d * p == d) by (nonlinear_arith)
                requires
                    p == 1,
            ;
        }
    }
}

proof fn lemma_exponent_climbs(n: nat, d: nat, e: int, y: int, x: int)
    requires
        d > 0,
        y <= x <= 972,
        x == 972 || below_one(n, d, e - 53 - x),
        x == y || !below_one(n, d, e - 53 - (x - 1)),
    ensures
        exponent_from(n, d, e, y) == x,
    decreases x - y,
{
    if y < x {
        lemma_still_above(n, d, e - 53 - (x - 1), (x - 1 - y) as nat);
        assert(e - 53 - (x - 1) + (x - 1 - y) == e - 53 - y);
        lemma_exponent_climbs(n, d, e, y + 1, x);
    }
}

proof fn lemma_still_above(n: nat, d: nat, k: int, j: nat)
    requires
        d > 0,
        !below_one(n, d, k),
    ensures
        !below_one(n, d, k + j),
    decreases j,
{
    if j > 0 {
        lemma_still_above(n, d, k, (j - 1) as nat);
        lemma_below_steps(n, d, k + j - 1);
    }
}

/// A quotient is below a power of two where its whole part is.
proof fn lemma_below_by_quotient(n: nat, d: nat, q: nat, r: nat, p: nat)
    requires
        d > 0,
        n == q * d + r,
        r < d,
    ensures
        (n < d * p) == (q < p),
{
    if q < p {
        assert(q * d + r < d * p) by (nonlinear_arith)
            requires
                q + 1 <= p,
                r < d,
        ;
    } else {
        assert(q * d >= d * p) by (nonlinear_arith)
            requires
                q >= p,
        ;
    }
}

fn power(t: u32) -> (p: u128)
    requires
        t <= 127,
    ensures
        p == pow2(t as nat),
{
    let mut p: u128 = 1;
    let mut i: u32 = 0;
    proof {
        lemma2_to64();
    }
    while i < t
        invariant
            i <= t <= 127,
            p == pow2(i as nat),
        decreases t - i,
    {
        proof {
            lemma_pow2_unfold((i + 1) as nat);
            lemma_at_most(i as nat + 1, 127);
            lemma_top();
        }
        p = p * 2;
        i += 1;
    }
    p
}

proof fn lemma_at_most(a: nat, b: nat)
    requires
        a <= b,
    ensures
        pow2(a) <= pow2(b),
{
    if a < b {
        lemma_pow2_strictly_increases(a, b);
    }
}

proof fn lemma_top()
    ensures
        pow2(52) == FULL,
        pow2(53) == 2 * FULL,
        pow2(64) == 0x1_0000_0000_0000_0000,
        pow2(127) == 0x8000_0000_0000_0000_0000_0000_0000_0000,
{
    lemma2_to64();
    lemma2_to64_rest();
    lemma_pow2_adds(64, 63);
    assert(0x1_0000_0000_0000_0000 * 0x8000_0000_0000_0000
        == 0x8000_0000_0000_0000_0000_0000_0000_0000) by (nonlinear_arith);
}

/// How many bits a number takes.
fn bit_length(q: u128) -> (l: u32)
    requires
        q < 0x8000_0000_0000_0000_0000_0000_0000_0000,
    ensures
        l <= 127,
        q < pow2(l as nat),
        l > 0 ==> pow2((l - 1) as nat) <= q,
{
    let mut l: u32 = 0;
    let mut p: u128 = 1;
    proof {
        lemma2_to64();
        lemma_top();
    }
    while p <= q
        invariant
            l <= 127,
            p == pow2(l as nat),
            l > 0 ==> pow2((l - 1) as nat) <= q,
            q < 0x8000_0000_0000_0000_0000_0000_0000_0000,
            pow2(127) == 0x8000_0000_0000_0000_0000_0000_0000_0000,
        decreases 127 - l,
    {
        proof {
            lemma_pow2_unfold((l + 1) as nat);
        }
        p = p * 2;
        l += 1;
    }
    l
}

/// The mantissa of `n / d` in units of `2^t`: its whole part, and one more where
/// more than half a unit is left, or half a unit and the whole part is odd.
fn in_units(q: u128, r: u64, t: u32, Ghost(n): Ghost<nat>, d: u64) -> (m: u128)
    requires
        d > 0,
        0 < t <= 127,
        n == q * d + r,
        r < d,
        q < 0x8000_0000_0000_0000_0000_0000_0000_0000,
    ensures
        m == text::round_half_even(n, d as nat * pow2(t as nat)),
        m == q as nat / pow2(t as nat) || m == q as nat / pow2(t as nat) + 1,
{
    let p: u128 = power(t);
    let h: u128 = power(t - 1);
    proof {
        lemma_pow2_unfold(t as nat);
        lemma_pow2_pos(t as nat);
        lemma_round_split(n, d as nat, p as nat, q as nat, r as nat);
        lemma_half(d as nat, h as nat, (q % p) as nat, r as nat);
    }
    let whole: u128 = q / p;
    let rest: u128 = q % p;
    assert(whole <= q) by (nonlinear_arith)
        requires
            whole == q / p,
            p > 0,
    ;
    if rest > h || (rest == h && (r > 0 || whole % 2 == 1)) {
        whole + 1
    } else {
        whole
    }
}

/// The double nearest to `n / d * 2^e`.
fn nearest_to(n: u128, d: u64, e: i32) -> (r: Size)
    requires
        d > 0,
        d == 1 || n / d as u128 >= 2 * FULL,
        n < 0x8000_0000_0000_0000_0000_0000_0000_0000,
        -3000 <= e <= 3000,
    ensures
        r == nearest(n as nat, d as nat, e as int),
        r.wf(),
{
    let q: u128 = n / d as u128;
    let r: u64 = (n % d as u128) as u64;
    assert(n == q * d + r) by {
        vstd::arithmetic::div_mod::lemma_fundamental_div_mod(n as int, d as int);
        assert(d * q == q * d) by (nonlinear_arith);
    }
    assert(q <= n) by (nonlinear_arith)
        requires
            q == n / d as u128,
            d > 0,
    ;
    let l: u32 = bit_length(q);
    proof {
        lemma_top();
    }
    if l == 0 {
        proof {
            lemma2_to64();
            assert(n == 0);
            lemma_nothing(1, e as int);
        }
        return Size::Finite { mantissa: 0, exponent: -1074 };
    }
    let own: i32 = l as i32 + e - 53;
    let x: i32 = if own < -1074 {
        -1074
    } else if own > 972 {
        972
    } else {
        own
    };
    proof {
        lemma_exponent_is(n as nat, d as nat, e as int, q as nat, r as nat, l as nat);
    }
    if x > 971 {
        return Size::Infinite;
    }
    let t: i32 = x - e;
    assert(t + 53 >= l && (x > -1074 ==> t + 53 == l));
    let m: u128 = if t <= 0 {
        proof {
            if d != 1 {
                if l <= 53 {
                    lemma_at_most(l as nat, 53);
                }
            }
            lemma_exact(n as nat, (-t) as nat, l as nat);
        }
        let m: u128 = q * power((-t) as u32);
        assert(m == n as nat * pow2((-t) as nat));
        m
    } else if t <= 127 {
        let m: u128 = in_units(q, r, t as u32, Ghost(n as nat), d);
        proof {
            lemma_mantissa_bounds(q as nat, l as nat, t as nat, m as nat);
        }
        m
    } else {
        proof {
            lemma_too_small(n as nat, d as nat, t as nat);
        }
        0
    };
    assert(m <= 2 * FULL && (x > -1074 ==> m >= FULL));
    if m == 2 * FULL as u128 {
        if x == 971 {
            Size::Infinite
        } else {
            Size::Finite { mantissa: FULL, exponent: x + 1 }
        }
    } else {
        Size::Finite { mantissa: m as u64, exponent: x }
    }
}

proof fn lemma_nothing(d: nat, e: int)
    requires
        d > 0,
    ensures
        nearest(0, d, e) == (Size::Finite { mantissa: 0, exponent: -1074i32 }),
{
    lemma_scaled_nothing(d, e - 53 + 1074);
    lemma_scaled_nothing(d, e + 1074);
    assert(below_one(0, d, e - 53 + 1074));
    assert(exponent_from(0, d, e, -1074) == -1074);
    let f = scaled(0, d, e + 1074);
    vstd::arithmetic::div_mod::lemma_fundamental_div_mod_converse(0, f.1 as int, 0, 0);
}

proof fn lemma_scaled_nothing(d: nat, k: int)
    requires
        d > 0,
    ensures
        scaled(0, d, k).0 == 0,
        scaled(0, d, k).1 > 0,
{
    if k >= 0 {
        assert(0 * pow2(k as nat) == 0);
    } else {
        lemma_pow2_pos((-k) as nat);
        let p = pow2((-k) as nat);
        assert(d * p > 0) by (nonlinear_arith)
            requires
                d > 0,
                p > 0,
        ;
    }
}

proof fn lemma_exponent_is(n: nat, d: nat, e: int, q: nat, r: nat, l: nat)
    requires
        d > 0,
        n == q * d + r,
        r < d,
        0 < l <= 127,
        q < pow2(l),
        pow2((l - 1) as nat) <= q,
    ensures
        exponent_from(n, d, e, -1074) == (if l + e - 53 < -1074 {
            -1074
        } else if l + e - 53 > 972 {
            972
        } else {
            l + e - 53
        }),
{
    let own = l + e - 53;
    lemma_below_by_quotient(n, d, q, r, pow2(l));
    lemma_below_by_quotient(n, d, q, r, pow2((l - 1) as nat));
    assert(below_one(n, d, -(l as int)));
    assert(!below_one(n, d, -(l - 1))) by {
        if l == 1 {
            lemma2_to64();
            assert(n * pow2(0) == n) by (nonlinear_arith)
                requires
                    pow2(0) == 1,
            ;
            assert(d * pow2(0) == d) by (nonlinear_arith)
                requires
                    pow2(0) == 1,
            ;
        }
    }
    if own < -1074 {
        let k = e - 53 + 1074;
        assert(k < -(l as int));
        lemma_at_most(l, (-k) as nat);
        lemma_below_by_quotient(n, d, q, r, pow2((-k) as nat));
        assert(below_one(n, d, k));
        lemma_exponent_climbs(n, d, e, -1074, -1074);
    } else if own > 972 {
        assert(e - 53 - 971 == -(l - 1) + (own - 972));
        lemma_still_above(n, d, -(l - 1), (own - 972) as nat);
        lemma_exponent_climbs(n, d, e, -1074, 972);
    } else {
        assert(e - 53 - own == -(l as int));
        assert(e - 53 - (own - 1) == -(l - 1));
        lemma_exponent_climbs(n, d, e, -1074, own);
    }
}

/// A number of at most 53 bits is held as it is.
proof fn lemma_exact(n: nat, k: nat, l: nat)
    requires
        0 < l,
        n < pow2(l),
        pow2((l - 1) as nat) <= n,
        k + l <= 53,
    ensures
        n * pow2(k) < 2 * FULL,
        k + l == 53 ==> n * pow2(k) >= FULL,
        pow2(k) <= 2 * FULL,
        text::round_half_even(n * pow2(k), 1) == n * pow2(k),
{
    lemma_top();
    lemma_pow2_pos(k);
    lemma_pow2_adds(l, k);
    lemma_at_most(l + k, 53);
    lemma_at_most(k, 53);
    let p = pow2(k);
    assert(n * p < pow2(l) * p) by (nonlinear_arith)
        requires
            n < pow2(l),
            p > 0,
    ;
    if k + l == 53 {
        lemma_pow2_adds((l - 1) as nat, k);
        assert((l - 1) as nat + k == 52);
        assert(n * p >= pow2((l - 1) as nat) * p) by (nonlinear_arith)
            requires
                n >= pow2((l - 1) as nat),
        ;
    }
    let a = n * p;
    assert(a / 1 == a && a % 1 == 0);
}

/// What is left of a number above 53 bits fills them.
proof fn lemma_mantissa_bounds(q: nat, l: nat, t: nat, m: nat)
    requires
        m == q / pow2(t) || m == q / pow2(t) + 1,
        0 < l,
        q < pow2(l),
        pow2((l - 1) as nat) <= q,
        t > 0,
        t + 53 >= l,
    ensures
        m <= 2 * FULL,
        t + 53 == l ==> m >= FULL,
{
    lemma_top();
    lemma_pow2_pos(t);
    let p = pow2(t);
    lemma_pow2_adds(53, t);
    lemma_at_most(l, t + 53);
    assert(q / p < 2 * FULL) by (nonlinear_arith)
        requires
            q < (2 * FULL) * p,
            p > 0,
    ;
    if t + 53 == l {
        lemma_pow2_adds(52, t);
        assert((l - 1) as nat == 52 + t);
        assert(q / p >= FULL) by (nonlinear_arith)
            requires
                q >= FULL * p,
                p > 0,
        ;
    }
}

/// Less than half a unit is nothing.
proof fn lemma_too_small(n: nat, d: nat, t: nat)
    requires
        d > 0,
        t > 127,
        n < 0x8000_0000_0000_0000_0000_0000_0000_0000,
    ensures
        text::round_half_even(n, d * pow2(t)) == 0,
{
    lemma_top();
    lemma_pow2_unfold(128);
    lemma_at_most(128, t);
    let u = d * pow2(t);
    assert(u >= pow2(t)) by (nonlinear_arith)
        requires
            u == d * pow2(t),
            d > 0,
    ;
    vstd::arithmetic::div_mod::lemma_fundamental_div_mod_converse(n as int, u as int, 0, n as int);
}

// -------------------------------------------------------------- arithmetic --

impl Size {
    /// The double nearest to a whole number.
    pub fn of_whole(n: u64) -> (r: Size)
        ensures
            r == Size::whole(n as nat),
            r.wf(),
    {
        nearest_to(n as u128, 1, 0)
    }

    /// One number divided by another.
    pub fn divided(self, other: Size) -> (r: Size)
        requires
            self.wf(),
            other.wf(),
        ensures
            r == self.over(other),
            r.wf(),
    {
        match (self, other) {
            (Size::NotANumber, _) => Size::NotANumber,
            (_, Size::NotANumber) => Size::NotANumber,
            (Size::Infinite, Size::Infinite) => Size::NotANumber,
            (Size::Infinite, _) => Size::Infinite,
            (_, Size::Infinite) => Size::Finite { mantissa: 0, exponent: -1074 },
            (
                Size::Finite { mantissa: a, exponent: x },
                Size::Finite { mantissa: b, exponent: y },
            ) => {
                if b == 0 {
                    return if a > 0 {
                        Size::Infinite
                    } else {
                        Size::NotANumber
                    };
                }
                if a == 0 {
                    proof {
                        lemma_nothing(b as nat, x - y);
                    }
                    return Size::Finite { mantissa: 0, exponent: -1074 };
                }
                quotient(a, b, x - y)
            },
        }
    }

    /// One whole number divided by another, each as a double.
    pub fn of_ratio(n: u64, d: u64) -> (r: Size)
        ensures
            r == Size::ratio(n as nat, d as nat),
            r.wf(),
    {
        Size::of_whole(n).divided(Size::of_whole(d))
    }

    /// A number a hundred times over.
    pub fn as_percent(self) -> (r: Size)
        requires
            self.wf(),
        ensures
            r == self.percent(),
            r.wf(),
    {
        match self {
            Size::Finite { mantissa, exponent } => nearest_to(mantissa as u128 * 100, 1, exponent),
            _ => self,
        }
    }

    /// Whether a number is no less than another.
    pub fn is_at_least(self, other: Size) -> (r: bool)
        requires
            self.wf(),
            other.wf(),
        ensures
            r == self.reaches(other),
    {
        match (self, other) {
            (Size::NotANumber, _) => false,
            (_, Size::NotANumber) => false,
            (Size::Infinite, _) => true,
            (_, Size::Infinite) => false,
            (
                Size::Finite { mantissa: a, exponent: x },
                Size::Finite { mantissa: b, exponent: y },
            ) => {
                proof {
                    lemma_order(a as nat, b as nat, x - y);
                }
                x > y || (x == y && a >= b)
            },
        }
    }

    /// Append the number without decimal places.
    pub fn push_rounded(self, s: &mut String)
        requires
            self.wf(),
        ensures
            final(s)@ == old(s)@ + self.rounded(),
    {
        match self {
            Size::Finite { mantissa, exponent } => {
                if exponent >= 0 {
                    proof {
                        lemma_whole_parts(mantissa, exponent, 1);
                    }
                    push_shifted(s, mantissa, exponent as u32);
                } else {
                    text::push_u128(s, fraction_parts(mantissa, exponent, 1));
                }
            },
            Size::Infinite => {
                s.append("inf");
            },
            Size::NotANumber => {
                s.append("NaN");
            },
        }
    }

    /// Append the number to one decimal place.
    pub fn push_tenths(self, s: &mut String)
        requires
            self.wf(),
        ensures
            final(s)@ == old(s)@ + self.tenths(),
    {
        match self {
            Size::Finite { mantissa, exponent } => {
                if exponent >= 0 {
                    proof {
                        lemma_whole_parts(mantissa, exponent, 10);
                    }
                    push_shifted(s, mantissa, exponent as u32);
                    s.push('.');
                    s.push('0');
                    assert(s@ =~= old(s)@ + self.tenths());
                } else {
                    text::push_tenths(s, fraction_parts(mantissa, exponent, 10));
                }
            },
            _ => self.push_rounded(s),
        }
    }

    /// Append the number to two decimal places.
    pub fn push_hundredths(self, s: &mut String)
        requires
            self.wf(),
        ensures
            final(s)@ == old(s)@ + self.hundredths(),
    {
        match self {
            Size::Finite { mantissa, exponent } => {
                if exponent >= 0 {
                    proof {
                        lemma_whole_parts(mantissa, exponent, 100);
                    }
                    push_shifted(s, mantissa, exponent as u32);
                    s.push('.');
                    s.push('0');
                    s.push('0');
                    assert(s@ =~= old(s)@ + self.hundredths());
                } else {
                    text::push_hundredths(s, fraction_parts(mantissa, exponent, 100));
                }
            },
            _ => self.push_rounded(s),
        }
    }
}

fn quotient(a: u64, b: u64, e: i32) -> (r: Size)
    requires
        0 < a < 2 * FULL,
        0 < b < 2 * FULL,
        -2100 <= e <= 2100,
    ensures
        r == nearest(a as nat, b as nat, e as int),
        r.wf(),
{
    let mut m: u64 = a;
    let mut up: i32 = 0;
    proof {
        lemma2_to64();
        assert(a * pow2(0) == a) by (nonlinear_arith)
            requires
                pow2(0) == 1,
        ;
    }
    while m < FULL
        invariant
            0 < m < 2 * FULL,
            0 <= up <= 53,
            m == a * pow2(up as nat),
            a > 0,
        decreases 2 * FULL - m,
    {
        proof {
            let p = pow2(up as nat);
            lemma_pow2_unfold((up + 1) as nat);
            assert(a * (2 * p) == 2 * (a * p)) by (nonlinear_arith);
            assert(p <= a * p) by (nonlinear_arith)
                requires
                    a > 0,
            ;
            lemma_top();
            if up >= 53 {
                assert(p == 2 * FULL);
            }
        }
        m = m * 2;
        up += 1;
    }
    let n: u128 = m as u128 * 0x1_0000_0000_0000_0000;
    proof {
        lemma_top();
        let j = (up + 64) as nat;
        lemma_pow2_adds(up as nat, 64);
        let p = pow2(up as nat);
        let c = pow2(64);
        assert(a * (p * c) == (a * p) * c) by (nonlinear_arith);
        assert(n == a as nat * pow2(j));
        lemma_nearest_shifted(a as nat, b as nat, e as int, j);
        assert(n / b as u128 >= 2 * FULL) by (nonlinear_arith)
            requires
                n >= 0x10_0000_0000_0000 * 0x1_0000_0000_0000_0000,
                0 < b < 0x20_0000_0000_0000,
                FULL == 0x10_0000_0000_0000,
        ;
    }
    nearest_to(n, b, e - up - 64)
}

/// Full mantissas are ordered by their exponents.
proof fn lemma_order(a: nat, b: nat, k: int)
    requires
        a < 2 * FULL,
        b < 2 * FULL,
        k > 0 ==> a >= FULL,
        k < 0 ==> b >= FULL,
    ensures
        below_one(a, b, k) == (k < 0 || (k == 0 && a < b)),
{
    lemma2_to64();
    if k > 0 {
        let p = pow2(k as nat);
        lemma_at_most(1, k as nat);
        assert(a * p >= 2 * FULL) by (nonlinear_arith)
            requires
                a >= FULL,
                p >= 2,
        ;
    } else if k < 0 {
        let p = pow2((-k) as nat);
        lemma_at_most(1, (-k) as nat);
        assert(b * p >= 2 * FULL) by (nonlinear_arith)
            requires
                b >= FULL,
                p >= 2,
        ;
    } else {
        assert(a * pow2(0) == a) by (nonlinear_arith)
            requires
                pow2(0) == 1,
        ;
    }
}

// ---------------------------------------------------------------- printing --

/// A number without a fraction has no parts of one but whole ones.
proof fn lemma_whole_parts(m: u64, e: i32, unit: nat)
    requires
        e >= 0,
    ensures
        ({
            let n = m as nat * pow2(e as nat);
            let parts = (Size::Finite { mantissa: m, exponent: e }).parts(unit);
            &&& parts == n * unit
            &&& unit == 10 ==> parts / 10 == n && parts % 10 == 0
            &&& unit == 100 ==> parts / 100 == n && parts % 100 == 0 && parts / 10 % 10 == 0
                && parts % 10 == 0
        }),
{
    let p = pow2(e as nat);
    let a = m as nat * unit * p;
    assert(a / 1 == a && a % 1 == 0);
    assert(m as nat * unit * p == m as nat * p * unit) by (nonlinear_arith);
}

/// The parts of one in a number with a fraction.
fn fraction_parts(m: u64, e: i32, unit: u64) -> (r: u128)
    requires
        m < 2 * FULL,
        -1074 <= e < 0,
        unit <= 100,
    ensures
        r == (Size::Finite { mantissa: m, exponent: e }).parts(unit as nat),
{
    assert(m * unit < 0x4000_0000_0000_0000) by (nonlinear_arith)
        requires
            m < 0x20_0000_0000_0000,
            unit <= 100,
    ;
    let n: u128 = m as u128 * unit as u128;
    let k: u32 = (-e) as u32;
    if k <= 120 {
        let p: u128 = power(k);
        proof {
            lemma_at_most(k as nat, 120);
            lemma_pow2_adds(64, 56);
            lemma2_to64_rest();
            lemma_top();
            lemma_pow2_pos(k as nat);
            assert(0x1_0000_0000_0000_0000 * 0x100_0000_0000_0000
                == 0x100_0000_0000_0000_0000_0000_0000_0000) by (nonlinear_arith);
        }
        text::rounded(n, p)
    } else {
        proof {
            lemma_top();
            lemma_at_most(64, k as nat);
            let u = pow2(k as nat);
            assert(1 * u == u);
            vstd::arithmetic::div_mod::lemma_fundamental_div_mod_converse(
                n as int,
                u as int,
                0,
                n as int,
            );
        }
        0
    }
}

/// The number that decimal digits spell, the lowest first.
spec fn spelled(v: Seq<u64>) -> nat
    decreases v.len(),
{
    if v.len() == 0 {
        0
    } else {
        v[0] as nat + 10 * spelled(v.skip(1))
    }
}

/// Every entry is a decimal digit.
spec fn digits(v: Seq<u64>) -> bool {
    forall|i: int| 0 <= i < v.len() ==> #[trigger] v[i] < 10
}

fn digits_of(n: u64) -> (r: Vec<u64>)
    ensures
        digits(r@),
        spelled(r@) == n,
        r@.len() > 0,
        r@.len() > 1 ==> r@.last() > 0,
    decreases n,
{
    if n < 10 {
        let r: Vec<u64> = vec![n];
        assert(r@.skip(1) =~= Seq::<u64>::empty());
        assert(spelled(r@.skip(1)) == 0);
        return r;
    }
    let high = digits_of(n / 10);
    let mut r: Vec<u64> = vec![n % 10];
    let mut i: usize = 0;
    while i < high.len()
        invariant
            i <= high@.len(),
            r@ == seq![n % 10] + high@.take(i as int),
        decreases high.len() - i,
    {
        r.push(high[i]);
        i += 1;
        assert(r@ =~= seq![n % 10] + high@.take(i as int));
    }
    assert(high@.take(i as int) =~= high@);
    assert(r@.skip(1) =~= high@);
    assert(r@.last() == high@.last());
    if high.len() == 1 {
        assert(high@.skip(1) =~= Seq::<u64>::empty());
        assert(spelled(high@.skip(1)) == 0);
        assert(high@[0] == n / 10);
    }
    assert forall|j: int| 0 <= j < r@.len() implies #[trigger] r@[j] < 10 by {
        if j > 0 {
            assert(r@[j] == high@[j - 1]);
        }
    }
    r
}

proof fn lemma_spelled_push(v: Seq<u64>, x: u64)
    ensures
        spelled(v.push(x)) == spelled(v) + x * tens(v.len()),
    decreases v.len(),
{
    let w = v.push(x);
    if v.len() == 0 {
        assert(w.skip(1) =~= Seq::<u64>::empty());
        assert(spelled(w.skip(1)) == 0);
        assert(x * tens(0) == x) by (nonlinear_arith)
            requires
                tens(0) == 1,
        ;
    } else {
        assert(w.skip(1) =~= v.skip(1).push(x));
        lemma_spelled_push(v.skip(1), x);
        let t = tens((v.len() - 1) as nat);
        assert(10 * (x * t) == x * (10 * t)) by (nonlinear_arith);
    }
}

spec fn tens(n: nat) -> nat
    decreases n,
{
    if n == 0 {
        1
    } else {
        10 * tens((n - 1) as nat)
    }
}

/// The digits of twice the number.
fn twice(v: &Vec<u64>) -> (r: Vec<u64>)
    requires
        digits(v@),
        v@.len() > 0,
        v@.len() > 1 ==> v@.last() > 0,
    ensures
        digits(r@),
        spelled(r@) == 2 * spelled(v@),
        r@.len() > 0,
        r@.len() > 1 ==> r@.last() > 0,
{
    let mut r: Vec<u64> = Vec::new();
    let mut carry: u64 = 0;
    let mut i: usize = 0;
    assert(v@.take(0) =~= Seq::<u64>::empty());
    assert(carry * tens(0) == 0);
    while i < v.len()
        invariant
            i <= v@.len(),
            digits(v@),
            digits(r@),
            r@.len() == i,
            carry <= 1,
            spelled(r@) + carry * tens(i as nat) == 2 * spelled(v@.take(i as int)),
            i == v@.len() && i > 1 && v@.last() > 0 ==> r@.last() > 0 || carry > 0,
        decreases v.len() - i,
    {
        let x: u64 = v[i] * 2 + carry;
        let ghost was = r@;
        let ghost old_carry = carry;
        let low: u64 = x % 10;
        let next: u64 = x / 10;
        r.push(low);
        proof {
            lemma_spelled_push(was, low);
            lemma_spelled_push(v@.take(i as int), v@[i as int]);
            assert(v@.take(i + 1) =~= v@.take(i as int).push(v@[i as int]));
            let t = tens(i as nat);
            let d = v@[i as int];
            assert(low * t + next * (10 * t) == x * t) by (nonlinear_arith)
                requires
                    x == low + 10 * next,
            ;
            assert(x * t == 2 * (d * t) + old_carry * t) by (nonlinear_arith)
                requires
                    x == d * 2 + old_carry,
            ;
            assert(tens((i + 1) as nat) == 10 * t);
        }
        carry = next;
        i += 1;
    }
    assert(v@.take(i as int) =~= v@);
    let ghost was = r@;
    if carry > 0 {
        r.push(carry);
        proof {
            lemma_spelled_push(was, carry);
        }
    } else {
        assert(carry * tens(i as nat) == 0) by (nonlinear_arith)
            requires
                carry == 0,
        ;
    }
    r
}

fn push_digits(s: &mut String, v: &Vec<u64>, from: usize)
    requires
        digits(v@),
        from < v@.len(),
        from + 1 < v@.len() ==> v@.last() > 0,
    ensures
        final(s)@ == old(s)@ + text::dec(spelled(v@.skip(from as int))),
    decreases v.len() - from,
{
    let ghost here = v@.skip(from as int);
    assert(here[0] == v@[from as int]);
    assert(here.skip(1) =~= v@.skip(from + 1));
    if from + 1 < v.len() {
        push_digits(s, v, from + 1);
        proof {
            lemma_spelled_positive(here.skip(1));
        }
    } else {
        assert(here.skip(1) =~= Seq::<u64>::empty());
        assert(spelled(here.skip(1)) == 0);
    }
    text::push_digit(s, v[from]);
    assert(s@ =~= old(s)@ + text::dec(spelled(here)));
}

proof fn lemma_spelled_positive(v: Seq<u64>)
    requires
        v.len() > 0,
        v.last() > 0,
    ensures
        spelled(v) > 0,
    decreases v.len(),
{
    if v.len() > 1 {
        assert(v.skip(1).last() == v.last());
        lemma_spelled_positive(v.skip(1));
    }
}

/// Append `m * 2^e`.
fn push_shifted(s: &mut String, m: u64, e: u32)
    ensures
        final(s)@ == old(s)@ + text::dec(m as nat * pow2(e as nat)),
{
    let mut v = digits_of(m);
    let mut i: u32 = 0;
    proof {
        lemma2_to64();
        assert(m * pow2(0) == m) by (nonlinear_arith)
            requires
                pow2(0) == 1,
        ;
    }
    while i < e
        invariant
            i <= e,
            digits(v@),
            v@.len() > 0,
            v@.len() > 1 ==> v@.last() > 0,
            spelled(v@) == m as nat * pow2(i as nat),
        decreases e - i,
    {
        proof {
            lemma_pow2_unfold((i + 1) as nat);
            let p = pow2(i as nat);
            assert(m as nat * (2 * p) == 2 * (m as nat * p)) by (nonlinear_arith);
        }
        v = twice(&v);
        i += 1;
    }
    assert(v@.skip(0) =~= v@);
    push_digits(s, &v, 0);
}

// ------------------------------------------------------------------- bits --

impl Double {
    /// What the bits are worth, but for the sign.
    pub fn magnitude(&self) -> (r: Size)
        ensures
            r == self.size(),
            r.wf(),
    {
        let field: u64 = self.bits / FULL % 2048;
        let fraction: u64 = self.bits % FULL;
        if field == 2047 {
            if fraction == 0 {
                Size::Infinite
            } else {
                Size::NotANumber
            }
        } else if field == 0 {
            Size::Finite { mantissa: fraction, exponent: -1074 }
        } else {
            Size::Finite { mantissa: FULL + fraction, exponent: field as i32 - 1075 }
        }
    }

    /// The number of a magnitude, without a sign.
    pub fn of_size(size: Size) -> (r: Double)
        requires
            size.wf(),
        ensures
            r.size() == size,
            !r.negative(),
    {
        match size {
            Size::Finite { mantissa, exponent } => {
                if mantissa < FULL {
                    Double { bits: mantissa }
                } else {
                    let field: u64 = (exponent + 1075) as u64;
                    let bits: u64 = field * FULL + (mantissa - FULL);
                    assert(bits / FULL == field && bits % FULL == mantissa - FULL);
                    Double { bits }
                }
            },
            Size::Infinite => Double { bits: 0x7ff0_0000_0000_0000 },
            Size::NotANumber => Double { bits: 0x7ff8_0000_0000_0000 },
        }
    }

    /// Whether the number prints a sign.
    pub fn is_negative(&self) -> (r: bool)
        ensures
            r == self.negative(),
    {
        self.bits >= 0x8000_0000_0000_0000
    }

    fn zero(&self) -> (r: bool)
        ensures
            r == self.is_zero(),
    {
        match self.magnitude() {
            Size::Finite { mantissa, .. } => mantissa == 0,
            _ => false,
        }
    }

    /// Whether the number is more than zero.
    pub fn above_zero(&self) -> (r: bool)
        ensures
            r == self.is_positive(),
    {
        !self.is_negative() && !self.zero() && !matches!(self.magnitude(), Size::NotANumber)
    }

    /// Whether the number is zero or less.
    pub fn at_most_zero(&self) -> (r: bool)
        ensures
            r == self.is_not_positive(),
    {
        self.zero() || (self.is_negative() && !matches!(self.magnitude(), Size::NotANumber))
    }

    /// Whether a number is no less than another.
    pub fn is_at_least(&self, other: &Double) -> (r: bool)
        ensures
            r == self.reaches(*other),
    {
        let a = self.magnitude();
        let b = other.magnitude();
        if self.is_negative() && other.is_negative() {
            b.is_at_least(a)
        } else if self.is_negative() {
            self.zero() && other.zero()
        } else if other.is_negative() {
            !matches!(a, Size::NotANumber) && !matches!(b, Size::NotANumber)
        } else {
            a.is_at_least(b)
        }
    }

    fn push_sign(&self, s: &mut String)
        ensures
            final(s)@ == old(s)@ + self.sign(),
    {
        if self.is_negative() && !matches!(self.magnitude(), Size::NotANumber) {
            s.append("-");
        } else {
            assert(s@ =~= old(s)@ + self.sign());
        }
    }

    /// Append the number without decimal places.
    pub fn push_rounded(&self, s: &mut String)
        ensures
            final(s)@ == old(s)@ + self.rounded(),
    {
        self.push_sign(s);
        self.magnitude().push_rounded(s);
        assert(s@ =~= old(s)@ + self.rounded());
    }

    /// Append the number to one decimal place.
    pub fn push_tenths(&self, s: &mut String)
        ensures
            final(s)@ == old(s)@ + self.tenths(),
    {
        self.push_sign(s);
        self.magnitude().push_tenths(s);
        assert(s@ =~= old(s)@ + self.tenths());
    }
}

// ------------------------------------------------------------------- laws --

/// What a double's bits mean. Of a finite one the mantissa is the fraction, with
/// a leading one where the exponent field is not zero; the largest exponent field
/// stands for infinity and for what is not a number; the top bit is the sign.
pub proof fn law_what_the_bits_mean(d: Double, field: u64, fraction: u64, sign: bool)
    requires
        field < 2048,
        fraction < 4503599627370496,
        d.bits == field * 4503599627370496 + fraction + (if sign {
            0x8000_0000_0000_0000
        } else {
            0int
        }),
    ensures
        d.negative() == sign,
        field == 2047 && fraction == 0 ==> d.size() is Infinite,
        field == 2047 && fraction > 0 ==> d.size() is NotANumber,
        field == 0 ==> d.size() == (Size::Finite { mantissa: fraction, exponent: -1074i32 }),
        0 < field < 2047 ==> d.size() == (Size::Finite {
            mantissa: (4503599627370496 + fraction) as u64,
            exponent: (field - 1075) as i32,
        }),
        d.is_zero() <==> field == 0 && fraction == 0,
{
    let top: int = if sign {
        2048
    } else {
        0
    };
    assert(d.bits == (field + top) * 4503599627370496 + fraction);
    assert(d.bits / FULL == field + top && d.bits % FULL == fraction) by {
        vstd::arithmetic::div_mod::lemma_fundamental_div_mod_converse(
            d.bits as int,
            4503599627370496,
            field + top,
            fraction as int,
        );
    }
    assert((field + top) % 2048 == field);
}

/// One finite size reaches another exactly where its value is no smaller: the
/// mantissas are compared once they are brought to one exponent.
pub proof fn law_what_it_is_to_reach(a: u64, x: i32, b: u64, y: i32)
    ensures
        ({
            let s = Size::Finite { mantissa: a, exponent: x };
            let t = Size::Finite { mantissa: b, exponent: y };
            &&& x >= y ==> (s.reaches(t) <==> a * pow2((x - y) as nat) >= b)
            &&& x < y ==> (s.reaches(t) <==> a >= b * pow2((y - x) as nat))
            &&& s.reaches(s)
            &&& s.reaches(t) || t.reaches(s)
            &&& Size::Infinite.reaches(s)
            &&& !s.reaches(Size::Infinite)
            &&& !s.reaches(Size::NotANumber)
            &&& !Size::NotANumber.reaches(s)
        }),
{
    vstd::arithmetic::power2::lemma2_to64();
    assert(a as nat * pow2(0) == a && b as nat * pow2(0) == b) by (nonlinear_arith)
        requires
            pow2(0) == 1,
    ;
}

/// Two doubles are compared by their signs first: a negative one reaches none
/// that is not, zero aside, and what is not a number reaches nothing and is
/// reached by nothing.
pub proof fn law_signs_are_compared_first(a: Double, b: Double)
    ensures
        !a.negative() && !b.negative() ==> (a.reaches(b) <==> a.size().reaches(b.size())),
        a.negative() && b.negative() ==> (a.reaches(b) <==> b.size().reaches(a.size())),
        a.negative() && !b.negative() ==> (a.reaches(b) <==> a.is_zero() && b.is_zero()),
        a.size() is NotANumber || b.size() is NotANumber ==> !a.reaches(b),
        !a.negative() && b.negative() && !(a.size() is NotANumber) && !(b.size() is NotANumber)
            ==> a.reaches(b),
{
}

/// A double is above zero, at most zero, or not a number: one of the three.
pub proof fn law_a_double_has_one_sign(d: Double)
    ensures
        d.size() is NotANumber ==> !d.is_positive() && !d.is_not_positive(),
        !(d.size() is NotANumber) ==> d.is_positive() == !d.is_not_positive(),
        d.is_positive() ==> !d.negative() && !d.is_zero(),
        d.is_zero() ==> d.is_not_positive(),
{
}

/// A whole mantissa times a power of two is within half a unit of a quotient.
pub open spec fn within_half(n: nat, d: nat, e: int, m: nat, x: int) -> bool {
    let f = scaled(n, d, e - x);
    2 * f.0 <= 2 * (m * f.1) + f.1 && 2 * (m * f.1) <= 2 * f.0 + f.1
}

/// What is rounded to a double is off by half a unit in the last place at the
/// most.
pub proof fn law_the_nearest_is_near(n: nat, d: nat, e: int)
    requires
        d > 0,
    ensures
        nearest(n, d, e) matches Size::Finite { mantissa, exponent } ==> within_half(
            n,
            d,
            e,
            mantissa as nat,
            exponent as int,
        ) || mantissa == 4503599627370496 && within_half(
            n,
            d,
            e,
            9007199254740992,
            exponent - 1,
        ),
{
    let x = exponent_from(n, d, e, -1074);
    let f = scaled(n, d, e - x);
    if e - x >= 0 {
    } else {
        vstd::arithmetic::power2::lemma_pow2_pos((x - e) as nat);
        assert(f.1 > 0) by (nonlinear_arith)
            requires
                f.1 == d * pow2((x - e) as nat),
                d > 0,
                pow2((x - e) as nat) > 0,
        ;
    }
    text::law_rounding_takes_the_nearest(f.0, f.1);
    lemma_exponent_range(n, d, e, -1074);
    if x < 972 {
        lemma_mantissa_fits(n, d, e - x);
    }
}

proof fn lemma_mantissa_fits(n: nat, d: nat, k: int)
    requires
        d > 0,
        below_one(n, d, k - 53),
    ensures
        scaled(n, d, k).1 > 0,
        text::round_half_even(scaled(n, d, k).0, scaled(n, d, k).1) <= 2 * FULL,
{
    let f = scaled(n, d, k);
    let h = scaled(n, d, k - 53);
    let g = scaled(n * pow2(53), d, k - 53);
    lemma2_to64();
    lemma2_to64_rest();
    lemma_shifted(n, d, k, 53);
    let p = pow2(53);
    assert(p == 2 * FULL);
    assert(g.1 == h.1);
    if k - 53 >= 0 {
        let q = pow2((k - 53) as nat);
        assert(n * p * q == n * q * p) by (nonlinear_arith);
    }
    assert(g.0 == h.0 * p);
    assert(f.0 < p * f.1) by (nonlinear_arith)
        requires
            f.0 * g.1 == g.0 * f.1,
            g.0 == h.0 * p,
            g.1 == h.1,
            h.0 < h.1,
            f.1 > 0,
            p > 0,
    ;
    let w = f.0 / f.1;
    assert(w < p) by (nonlinear_arith)
        requires
            w == f.0 / f.1,
            f.0 < p * f.1,
            f.1 > 0,
    ;
}

proof fn lemma_exponent_range(n: nat, d: nat, e: int, x: int)
    requires
        x <= 972,
    ensures
        x <= exponent_from(n, d, e, x) <= 972,
        exponent_from(n, d, e, x) < 972 ==> below_one(
            n,
            d,
            e - 53 - exponent_from(n, d, e, x),
        ),
    decreases 972 - x,
{
    if x < 972 && !below_one(n, d, e - 53 - x) {
        lemma_exponent_range(n, d, e, x + 1);
    }
}

/// Dividing by nothing, by infinity and by what is not a number.
pub proof fn law_what_division_makes(a: u64, x: i32, b: u64, y: i32)
    ensures
        ({
            let s = Size::Finite { mantissa: a, exponent: x };
            let t = Size::Finite { mantissa: b, exponent: y };
            &&& b > 0 ==> s.over(t) == nearest(a as nat, b as nat, x - y)
            &&& b == 0 && a > 0 ==> s.over(t) is Infinite
            &&& b == 0 && a == 0 ==> s.over(t) is NotANumber
            &&& Size::Infinite.over(s) is Infinite
            &&& s.over(Size::Infinite) == (Size::Finite { mantissa: 0, exponent: -1074i32 })
            &&& Size::Infinite.over(Size::Infinite) is NotANumber
            &&& s.over(Size::NotANumber) is NotANumber
            &&& Size::NotANumber.over(s) is NotANumber
        }),
{
}

/// A size is told as its value, rounded to a whole number, to tenths or to
/// hundredths; what is not finite is told in a word, and a negative number has
/// its sign before it.
pub proof fn law_how_a_size_is_told(s: Size, d: Double)
    ensures
        s matches Size::Finite { mantissa, exponent } ==> {
            &&& exponent >= 0 ==> s.parts(1) == mantissa * pow2(exponent as nat)
            &&& exponent < 0 ==> s.parts(10) == text::round_half_even(
                mantissa as nat * 10,
                1 * pow2((-exponent) as nat),
            )
            &&& s.rounded() == text::dec(s.parts(1))
            &&& s.tenths() == text::one_decimal(s.parts(10))
            &&& s.hundredths() == text::two_decimals(s.parts(100))
        },
        s is Infinite ==> s.rounded() == "inf"@ && s.tenths() == "inf"@ && s.hundredths() == "inf"@,
        s is NotANumber ==> s.rounded() == "NaN"@ && s.tenths() == "NaN"@ && s.hundredths()
            == "NaN"@,
        d.negative() && !(d.size() is NotANumber) ==> d.tenths() == "-"@ + d.size().tenths()
            && d.rounded() == "-"@ + d.size().rounded(),
        !d.negative() || d.size() is NotANumber ==> d.tenths() == d.size().tenths() && d.rounded()
            == d.size().rounded(),
{
    assert(!d.negative() || d.size() is NotANumber ==> d.tenths() =~= d.size().tenths()
        && d.rounded() =~= d.size().rounded());
    if let Size::Finite { mantissa, exponent } = s {
        if exponent >= 0 {
            assert(mantissa as nat * 1 == mantissa as nat);
            let v = mantissa as nat * 1 * pow2(exponent as nat);
            assert(v / 1 == v && v % 1 == 0);
        }
    }
}

/// A percentage is a hundred times its share, rounded to the nearest; what is not
/// finite stays what it is.
pub proof fn law_what_a_percentage_is(m: u64, x: i32)
    ensures
        (Size::Finite { mantissa: m, exponent: x }).percent() == nearest(
            m as nat * 100,
            1,
            x as int,
        ),
        Size::Infinite.percent() is Infinite,
        Size::NotANumber.percent() is NotANumber,
{
}

/// A ratio is one whole number over another.
pub proof fn law_what_a_ratio_is(n: nat, d: nat)
    ensures
        Size::ratio(n, d) == nearest(n, 1, 0).over(nearest(d, 1, 0)),
        Size::whole(n) == nearest(n, 1, 0),
{
}

} // verus!
