//! Numbers of the binary64 format of IEEE 754, held as their bits, and the arithmetic that the
//! scores of the timeline need: sums and quotients, each rounded to the nearest number of the
//! format, and of two that are as near to the one whose last bit is zero.
use vstd::arithmetic::div_mod::{lemma_fundamental_div_mod, lemma_fundamental_div_mod_converse};
use vstd::arithmetic::power2::{
    lemma2_to64, lemma2_to64_rest, lemma_pow2_adds, lemma_pow2_pos, lemma_pow2_strictly_increases,
    lemma_pow2_unfold, pow2,
};
use vstd::prelude::*;

verus! {

/// The bit that says that a number is negative.
pub const SIGN_BIT: u64 = 0x8000_0000_0000_0000;

/// The bits of infinity; greater ones are those of no number.
pub const INFINITE: u64 = 0x7ff0_0000_0000_0000;

/// Two to the power of 52: the bits of a number hold that many binary places beside its exponent.
pub const HIDDEN_BIT: u64 = 0x10_0000_0000_0000;

/// A number of the format.
#[derive(Clone, Copy, Debug, PartialEq, Eq, Structural)]
pub struct Binary64 {
    pub bits: u64,
}

impl DeepView for Binary64 {
    type V = Binary64;

    open spec fn deep_view(&self) -> Binary64 {
        *self
    }
}

impl Binary64 {
    /// Whether the number has a minus sign.
    pub open spec fn negative(self) -> bool {
        self.bits >= SIGN_BIT
    }

    /// The bits without the sign. They grow with the number.
    pub open spec fn magnitude(self) -> int {
        if self.negative() {
            self.bits - SIGN_BIT
        } else {
            self.bits as int
        }
    }

    /// The power of two by which the digits of the number are multiplied.
    pub open spec fn scale(self) -> nat {
        let exponent = self.magnitude() / (HIDDEN_BIT as int);
        if exponent <= 0 {
            0
        } else {
            (exponent - 1) as nat
        }
    }

    /// The digits of the number.
    pub open spec fn digits(self) -> int {
        self.magnitude() - self.scale() * HIDDEN_BIT
    }

    /// The number as a multiple of the smallest positive one, which is two to the power of -1074.
    /// Bits of infinity, or of no number, are none.
    pub open spec fn units(self) -> int {
        if self.negative() {
            -(self.digits() * pow2(self.scale()))
        } else {
            self.digits() * pow2(self.scale())
        }
    }

    /// Whether the bits are those of a number or of infinity.
    pub open spec fn is_number(self) -> bool {
        self.magnitude() <= INFINITE
    }

    /// The place of the bits in the order of numbers, in which the two zeros are one.
    pub open spec fn place(self) -> int {
        if self.negative() {
            -self.magnitude()
        } else {
            self.magnitude()
        }
    }

    /// The place of the bits in the order of all bits, in which the negative zero comes before
    /// the other.
    pub open spec fn total_place(self) -> int {
        if self.negative() {
            -self.magnitude() - 1
        } else {
            self.magnitude()
        }
    }

    /// Whether the number is at least another: never if one of them is no number.
    pub open spec fn reaches(self, other: Binary64) -> bool {
        self.is_number() && other.is_number() && self.place() >= other.place()
    }

    /// Whether the number is greater than another: never if one of them is no number.
    pub open spec fn exceeds(self, other: Binary64) -> bool {
        self.is_number() && other.is_number() && self.place() > other.place()
    }

    /// Whether the bits come after others in the order of all bits.
    pub open spec fn follows(self, other: Binary64) -> bool {
        self.total_place() > other.total_place()
    }
}

/// A quotient as a whole number: the nearest, and of two that are as near the even one.
pub open spec fn half_even(n: nat, d: nat) -> nat {
    if 2 * (n % d) > d || (2 * (n % d) == d && (n / d) % 2 == 1) {
        n / d + 1
    } else {
        n / d
    }
}

/// The power of two by which a quotient is divided for its whole part to have at most 53 digits.
pub open spec fn scale_for(n: nat, d: nat) -> nat
    decreases n - d,
{
    if d == 0 || n < 2 * HIDDEN_BIT * d {
        0
    } else {
        proof {
            assert(2 * HIDDEN_BIT * d >= 2 * d) by (nonlinear_arith)
                requires
                    d > 0,
            ;
        }
        1 + scale_for(n, 2 * d)
    }
}

/// The bits, but for the sign, of the number that is nearest to a quotient of units.
pub open spec fn nearest_magnitude(n: nat, d: nat) -> int {
    let scale = scale_for(n, d);
    scale * HIDDEN_BIT + half_even(n, d * pow2(scale))
}

/// The number that is nearest to a quotient of units, with a sign; infinity if it is too great.
pub open spec fn nearest(negative: bool, n: nat, d: nat) -> Binary64 {
    let magnitude = if nearest_magnitude(n, d) >= INFINITE {
        INFINITE as int
    } else {
        nearest_magnitude(n, d)
    };
    Binary64 {
        bits: (if negative {
            SIGN_BIT + magnitude
        } else {
            magnitude
        }) as u64,
    }
}

/// The distance of an integer from zero.
pub open spec fn distance(n: int) -> nat {
    if n < 0 {
        (-n) as nat
    } else {
        n as nat
    }
}

/// The sum of two finite numbers. A sum of zero is negative only if both numbers are.
pub open spec fn sum(a: Binary64, b: Binary64) -> Binary64 {
    let units = a.units() + b.units();
    nearest(
        units < 0 || (units == 0 && a.negative() && b.negative()),
        distance(units),
        1,
    )
}

/// The quotient of two integers.
pub open spec fn fraction(n: int, d: int) -> Binary64 {
    nearest((n < 0) != (d < 0), distance(n) * pow2(1074), distance(d))
}

/// An integer.
pub open spec fn whole(n: int) -> Binary64 {
    fraction(n, 1)
}

/// The smaller of two numbers.
pub open spec fn smaller(a: Binary64, b: Binary64) -> Binary64 {
    if b.reaches(a) {
        a
    } else {
        b
    }
}

/// A quotient between two powers of two has one scale.
proof fn lemma_scale_for(n: nat, d: nat, k: nat)
    requires
        d > 0,
        n < pow2(53 + k) * d,
        k == 0 || pow2(52 + k) * d <= n,
    ensures
        scale_for(n, d) == k,
    decreases k,
{
    lemma2_to64_rest();
    if k > 0 {
        let less = (k - 1) as nat;
        lemma_pow2_unfold(53 + k);
        lemma_pow2_unfold(52 + k);
        assert(pow2(53 + k) * d == pow2(53 + less) * (2 * d)) by (nonlinear_arith)
            requires
                pow2(53 + k) == 2 * pow2(53 + less),
        ;
        assert(pow2(52 + k) * d == pow2(52 + less) * (2 * d)) by (nonlinear_arith)
            requires
                pow2(52 + k) == 2 * pow2(52 + less),
        ;
        if less > 0 {
            lemma_pow2_strictly_increases(53, 52 + k);
        }
        assert(pow2(53) * d <= pow2(52 + k) * d) by (nonlinear_arith)
            requires
                pow2(53) <= pow2(52 + k),
        ;
        lemma_scale_for(n, 2 * d, less);
    }
}

/// A common factor does not change how a quotient is rounded.
proof fn lemma_half_even_factor(n: nat, d: nat, c: nat)
    requires
        d > 0,
        c > 0,
    ensures
        half_even(n * c, d * c) == half_even(n, d),
{
    let (q, r) = (n / d, n % d);
    lemma_fundamental_div_mod(n as int, d as int);
    assert(n * c == q * (d * c) + r * c && 0 <= r * c < d * c) by (nonlinear_arith)
        requires
            n == d * q + r,
            0 <= r < d,
            c > 0,
    ;
    lemma_fundamental_div_mod_converse(
        (n * c) as int,
        (d * c) as int,
        q as int,
        (r * c) as int,
    );
    assert((2 * (r * c) > d * c) == (2 * r > d)) by (nonlinear_arith)
        requires
            c > 0,
    ;
    assert((2 * (r * c) == d * c) == (2 * r == d)) by (nonlinear_arith)
        requires
            c > 0,
    ;
}

/// Rounding goes no further than the bounds of a quotient that are whole.
proof fn lemma_half_even_bounds(n: nat, d: nat, low: nat, high: nat)
    requires
        d > 0,
        low * d <= n <= high * d,
    ensures
        low <= half_even(n, d) <= high,
{
    let (q, r) = (n / d, n % d);
    lemma_fundamental_div_mod(n as int, d as int);
    assert(low <= q) by (nonlinear_arith)
        requires
            low * d <= n,
            n == d * q + r,
            0 <= r < d,
    ;
    assert(q <= high && (q == high ==> r == 0)) by (nonlinear_arith)
        requires
            n <= high * d,
            n == d * q + r,
            0 <= r < d,
    ;
}

/// What is less than half a step away from a whole number of steps is rounded to it.
proof fn lemma_half_even_near(m: nat, d: nat, off: int)
    requires
        d > 0,
        m > 0,
        -(d as int) < 2 * off < d,
    ensures
        m * d + off >= 0,
        half_even((m * d + off) as nat, d) == m,
{
    assert(m * d >= d) by (nonlinear_arith)
        requires
            m > 0,
            d > 0,
    ;
    let n = m * d + off;
    if off >= 0 {
        lemma_fundamental_div_mod_converse(n, d as int, m as int, off);
    } else {
        assert(n == (m - 1) * d + (d + off)) by (nonlinear_arith)
            requires
                n == m * d + off,
        ;
        lemma_fundamental_div_mod_converse(n, d as int, m - 1, d + off);
    }
}

/// What a number is made of.
proof fn lemma_parts(a: Binary64)
    ensures
        0 <= a.magnitude() < SIGN_BIT,
        0 <= a.digits() < 2 * HIDDEN_BIT,
        a.scale() > 0 ==> a.digits() >= HIDDEN_BIT,
        a.magnitude() == a.scale() * HIDDEN_BIT + a.digits(),
        a.scale() <= 2046,
{
}

/// A number to which less than a quarter of its last place is added stays as it is.
proof fn lemma_small_change_is_lost(m: nat, k: nat, off: int)
    requires
        k >= 2,
        HIDDEN_BIT <= m < 2 * HIDDEN_BIT,
        -(pow2((k - 2) as nat) as int) < off < pow2((k - 2) as nat),
    ensures
        m * pow2(k) + off > 0,
        nearest_magnitude((m * pow2(k) + off) as nat, 1) == k * HIDDEN_BIT + m,
{
    lemma2_to64_rest();
    let p = pow2(k);
    let less = (k - 1) as nat;
    lemma_pow2_pos(k);
    lemma_pow2_unfold(k);
    lemma_pow2_unfold(less);
    lemma_pow2_adds(53, k);
    lemma_pow2_adds(52, k);
    assert(m * p >= HIDDEN_BIT * p && (m + 1) * p <= 2 * HIDDEN_BIT * p && (m + 1) * p == m * p
        + p) by (nonlinear_arith)
        requires
            HIDDEN_BIT <= m < 2 * HIDDEN_BIT,
            p > 0,
    ;
    assert(HIDDEN_BIT * p >= p) by (nonlinear_arith)
        requires
            p > 0,
    ;
    let n = (m * p + off) as nat;
    assert(n < pow2(53 + k) * 1);
    if n >= pow2(52 + k) {
        assert(pow2(52 + k) * 1 <= n);
        lemma_scale_for(n, 1, k);
        lemma_half_even_near(m, p, off);
        assert(1 * pow2(k) == p);
    } else {
        let h = pow2(less);
        lemma_pow2_adds(53, less);
        lemma_pow2_adds(52, less);
        lemma_pow2_unfold(52 + k);
        assert(m == HIDDEN_BIT) by (nonlinear_arith)
            requires
                m * p + off < HIDDEN_BIT * p,
                HIDDEN_BIT <= m,
                -p < off,
                p > 0,
        ;
        assert(n == (2 * HIDDEN_BIT) * h + off) by (nonlinear_arith)
            requires
                n == HIDDEN_BIT * p + off,
                p == 2 * h,
        ;
        assert(pow2(52 + less) <= n) by (nonlinear_arith)
            requires
                n == (2 * HIDDEN_BIT) * h + off,
                pow2(52 + less) == HIDDEN_BIT * h,
                -h < off,
                h > 0,
        ;
        assert(pow2(52 + less) * 1 <= n && n < pow2(53 + less) * 1);
        lemma_scale_for(n, 1, less);
        lemma_half_even_near((2 * HIDDEN_BIT) as nat, h, off);
        assert(1 * pow2(less) == h);
    }
}

/// How great a rounded quotient can be.
proof fn lemma_nearest_bound(n: nat, d: nat, k: nat)
    requires
        d > 0,
        n < pow2(53 + k) * d,
    ensures
        0 <= nearest_magnitude(n, d) <= (k + 2) * HIDDEN_BIT,
    decreases k,
{
    lemma2_to64_rest();
    if k == 0 || pow2(52 + k) * d <= n {
        lemma_scale_for(n, d, k);
        lemma_pow2_adds(53, k);
        lemma_pow2_pos(k);
        let p = pow2(k);
        assert(d * p > 0 && (0x20_0000_0000_0000 * p) * d == 0x20_0000_0000_0000 * (d * p))
            by (nonlinear_arith)
            requires
                d > 0,
                p > 0,
        ;
        lemma_half_even_bounds(n, d * p, 0, (2 * HIDDEN_BIT) as nat);
    } else {
        lemma_nearest_bound(n, d, (k - 1) as nat);
    }
}

/// The number that is nearest to a quotient times a power of two, in units.
fn round_quotient(negative: bool, n: u128, d: u128, shift: u64) -> (r: Binary64)
    requires
        0 < d <= 0x1_0000_0000_0000,
        n < 0x1000_0000_0000_0000_0000_0000_0000_0000,
        shift <= 1900,
    ensures
        r == nearest(negative, (n as nat) * pow2(shift as nat), d as nat),
{
    let (mut top, mut bottom, mut left, mut raised): (u128, u128, u64, u64) = (n, d, shift, 0);
    let ghost all = (n as nat) * pow2(shift as nat);
    proof {
        lemma2_to64();
        lemma2_to64_rest();
    }
    while top < 0x10_0000_0000_0000 * bottom && left > 0
        invariant
            0 < d <= 0x1_0000_0000_0000,
            bottom == d,
            top < 0x1000_0000_0000_0000_0000_0000_0000_0000,
            left <= shift <= 1900,
            (top as nat) * pow2(left as nat) == all,
        decreases left,
    {
        proof {
            lemma_pow2_unfold(left as nat);
            let half = pow2((left - 1) as nat);
            assert((top as nat) * (2 * half) == (2 * top as nat) * half) by (nonlinear_arith);
        }
        top = 2 * top;
        left = left - 1;
    }
    assert(bottom as nat == d as nat * pow2(0)) by (nonlinear_arith)
        requires
            bottom == d,
            pow2(0) == 1,
    ;
    while top >= 0x20_0000_0000_0000 * bottom
        invariant
            0 < d <= bottom,
            bottom <= 0x1_0000_0000_0000 || 0x10_0000_0000_0000 * bottom <= top,
            top < 0x1000_0000_0000_0000_0000_0000_0000_0000,
            bottom as nat == d as nat * pow2(raised as nat),
            raised == 0 ==> left == 0 || top >= 0x10_0000_0000_0000 * bottom,
            raised > 0 ==> top >= 0x10_0000_0000_0000 * bottom,
            raised <= 124,
            pow2(raised as nat) <= bottom,
        decreases top - bottom,
    {
        proof {
            lemma_pow2_unfold((raised + 1) as nat);
            assert(d as nat * (2 * pow2(raised as nat)) == 2 * (d as nat * pow2(raised as nat)))
                by (nonlinear_arith);
            if raised >= 124 {
                lemma2_to64_rest();
                lemma_pow2_adds(62, 62);
                assert(pow2(62) * pow2(62) == 0x1000_0000_0000_0000_0000_0000_0000_0000)
                    by (nonlinear_arith)
                    requires
                        pow2(62) == 0x4000_0000_0000_0000,
                ;
            }
        }
        bottom = 2 * bottom;
        raised = raised + 1;
    }
    let whole_part: u128 = top / bottom;
    let rest: u128 = top % bottom;
    let digits: u128 = if 2 * rest > bottom || (2 * rest == bottom && whole_part % 2 == 1) {
        whole_part + 1
    } else {
        whole_part
    };
    let scale: u64 = left + raised;
    proof {
        let (l, h) = (pow2(left as nat), pow2(raised as nat));
        lemma_pow2_pos(left as nat);
        lemma_pow2_adds(left as nat, raised as nat);
        lemma_pow2_adds(53, scale as nat);
        lemma_pow2_adds(52, scale as nat);
        let p = pow2(scale as nat);
        assert(all < (0x20_0000_0000_0000 * p) * d as nat) by (nonlinear_arith)
            requires
                all == top * l,
                top < 0x20_0000_0000_0000 * bottom,
                bottom == d * h,
                p == l * h,
                l > 0,
        ;
        if scale > 0 {
            assert((0x10_0000_0000_0000 * p) * d as nat <= all) by (nonlinear_arith)
                requires
                    all == top * l,
                    top >= 0x10_0000_0000_0000 * bottom,
                    bottom == d * h,
                    p == l * h,
                    l > 0,
            ;
        }
        lemma_scale_for(all, d as nat, scale as nat);
        assert(d as nat * p == bottom as nat * l) by (nonlinear_arith)
            requires
                bottom == d * h,
                p == l * h,
        ;
        lemma_half_even_factor(top as nat, bottom as nat, l);
        lemma_half_even_bounds(
            top as nat,
            bottom as nat,
            0,
            0x20_0000_0000_0000,
        );
    }
    let magnitude: u64 = scale * HIDDEN_BIT + digits as u64;
    Binary64 { bits: if negative { SIGN_BIT + magnitude } else { magnitude } }
}

/// A number times a power of two.
fn doubled(m: u64, times: u64) -> (r: i128)
    requires
        m < 0x20_0000_0000_0000,
        times <= 70,
    ensures
        r == m * pow2(times as nat),
        0 <= r < 0x800_0000_0000_0000_0000_0000_0000_0000,
{
    let mut r: i128 = m as i128;
    let mut i: u64 = 0;
    proof {
        lemma2_to64();
        lemma2_to64_rest();
        lemma_pow2_adds(35, 35);
        lemma_pow2_strictly_increases(0, 70);
        assert(pow2(35) * pow2(35) == 0x40_0000_0000_0000_0000) by (nonlinear_arith)
            requires
                pow2(35) == 0x8_0000_0000,
        ;
        assert(m * pow2(0) == m);
    }
    while i < times
        invariant
            i <= times <= 70,
            m < 0x20_0000_0000_0000,
            r == m * pow2(i as nat),
            0 <= r,
            r < 0x20_0000_0000_0000 * pow2(i as nat),
            pow2(i as nat) <= pow2(70),
            pow2(70) == 0x40_0000_0000_0000_0000,
        decreases times - i,
    {
        proof {
            lemma_pow2_unfold((i + 1) as nat);
            let p = pow2(i as nat);
            assert(m * (2 * p) == 2 * (m * p)) by (nonlinear_arith);
            if i + 1 < 70 {
                lemma_pow2_strictly_increases((i + 1) as nat, 70);
            }
        }
        r = 2 * r;
        i = i + 1;
    }
    r
}

impl Binary64 {
    /// The integer quotient.
    pub fn of_fraction(n: i64, d: i64) -> (r: Self)
        requires
            d != 0,
            -0x1_0000_0000_0000 <= d <= 0x1_0000_0000_0000,
        ensures
            r == fraction(n as int, d as int),
    {
        let top: u128 = if n < 0 { -(n as i128) } else { n as i128 } as u128;
        let bottom: u128 = if d < 0 { -(d as i128) } else { d as i128 } as u128;
        round_quotient((n < 0) != (d < 0), top, bottom, 1074)
    }

    /// The integer.
    pub fn of_integer(n: i64) -> (r: Self)
        ensures
            r == whole(n as int),
    {
        Binary64::of_fraction(n, 1)
    }

    /// Whether the number has a minus sign, its digits and its scale.
    fn parts(self) -> (r: (bool, u64, u64))
        ensures
            r.0 == self.negative(),
            r.1 == self.digits(),
            r.2 == self.scale(),
    {
        let negative = self.bits >= SIGN_BIT;
        let magnitude: u64 = if negative { self.bits - SIGN_BIT } else { self.bits };
        let exponent: u64 = magnitude / HIDDEN_BIT;
        let scale: u64 = if exponent == 0 { 0 } else { exponent - 1 };
        (negative, magnitude - scale * HIDDEN_BIT, scale)
    }

    /// The sum with another number.
    pub fn plus(self, other: Binary64) -> (r: Self)
        requires
            self.scale() <= 1900,
            other.scale() <= 1900,
        ensures
            r == sum(self, other),
    {
        let (first, second) = (self.parts(), other.parts());
        if first.2 >= second.2 {
            add_ordered(self, other)
        } else {
            add_ordered(other, self)
        }
    }

    /// Whether the number is at least another.
    pub fn is_at_least(self, other: Binary64) -> (r: bool)
        ensures
            r == self.reaches(other),
    {
        let (a, b) = (self.signed(), other.signed());
        let limit: i128 = INFINITE as i128;
        -limit <= a && a <= limit && -limit <= b && b <= limit && a >= b
    }

    /// Whether the number is greater than another.
    pub fn is_above(self, other: Binary64) -> (r: bool)
        ensures
            r == self.exceeds(other),
    {
        let (a, b) = (self.signed(), other.signed());
        let limit: i128 = INFINITE as i128;
        -limit <= a && a <= limit && -limit <= b && b <= limit && a > b
    }

    /// Whether the bits come after others in the order of all bits.
    pub fn is_after(self, other: Binary64) -> (r: bool)
        ensures
            r == self.follows(other),
    {
        let a: i128 = if self.bits >= SIGN_BIT { self.signed() - 1 } else { self.signed() };
        let b: i128 = if other.bits >= SIGN_BIT { other.signed() - 1 } else { other.signed() };
        a > b
    }

    /// The place of the bits in the order of numbers.
    fn signed(self) -> (r: i128)
        ensures
            r == self.place(),
            -(SIGN_BIT as int) < r < SIGN_BIT,
    {
        if self.bits >= SIGN_BIT {
            -((self.bits - SIGN_BIT) as i128)
        } else {
            self.bits as i128
        }
    }
}

/// The smaller of two numbers.
pub fn smaller_of(a: Binary64, b: Binary64) -> (r: Binary64)
    ensures
        r == smaller(a, b),
{
    if b.is_at_least(a) {
        a
    } else {
        b
    }
}

/// The sum of two numbers of which the first has no smaller scale.
fn add_ordered(a: Binary64, b: Binary64) -> (r: Binary64)
    requires
        b.scale() <= a.scale() <= 1900,
    ensures
        r == sum(a, b),
        r == sum(b, a),
{
    let (first, second) = (a.parts(), b.parts());
    proof {
        lemma_parts(a);
        lemma_parts(b);
    }
    let gap: u64 = first.2 - second.2;
    let ghost (p, q) = (pow2(first.2 as nat), pow2(second.2 as nat));
    proof {
        lemma_pow2_pos(first.2 as nat);
        lemma_pow2_pos(second.2 as nat);
        lemma_pow2_adds(gap as nat, second.2 as nat);
    }
    if gap > 70 {
        proof {
            lemma_lost_sum(a, b);
        }
        return a;
    }
    let raised = doubled(first.1, gap);
    let left: i128 = if first.0 { -raised } else { raised };
    let right: i128 = if second.0 { -(second.1 as i128) } else { second.1 as i128 };
    let total: i128 = left + right;
    let size: u128 = if total < 0 { -total } else { total } as u128;
    proof {
        let g = pow2(gap as nat);
        assert(first.1 * p == (first.1 * g) * q) by (nonlinear_arith)
            requires
                p == g * q,
        ;
        assert((-raised) * q == -(raised * q)) by (nonlinear_arith);
        assert((-(second.1 as int)) * q == -(second.1 * q)) by (nonlinear_arith);
        assert(a.units() + b.units() == total * q) by (nonlinear_arith)
            requires
                total == left + right,
                a.units() == left * q,
                b.units() == right * q,
        ;
        assert((total < 0) == (total * q < 0) && (total == 0) == (total * q == 0) && distance(
            total * q,
        ) == size as nat * q) by (nonlinear_arith)
            requires
                q > 0,
                size == (if total < 0 {
                    -total
                } else {
                    total as int
                }),
                distance(total * q) == (if total * q < 0 {
                    -(total * q)
                } else {
                    total * q
                }),
        ;
    }
    round_quotient(total < 0 || (total == 0 && first.0 && second.0), size, 1, second.2)
}

/// A number that is much smaller than another is lost when both are added.
proof fn lemma_lost_sum(a: Binary64, b: Binary64)
    requires
        b.scale() + 70 < a.scale() <= 1900,
    ensures
        sum(a, b) == a,
{
    lemma_parts(a);
    lemma_parts(b);
    let (k, j) = (a.scale(), b.scale());
    lemma2_to64_rest();
    lemma_pow2_adds(53, j);
    lemma_pow2_pos(j);
    if 53 + j < k - 2 {
        lemma_pow2_strictly_increases(53 + j, (k - 2) as nat);
    }
    let q = pow2(j);
    assert(0 <= b.digits() * q <= 0x20_0000_0000_0000 * q) by (nonlinear_arith)
        requires
            0 <= b.digits() < 0x20_0000_0000_0000,
            q > 0,
    ;
    lemma_absorbed(a, b);
}

/// Adding less than a quarter of the last place changes nothing.
proof fn lemma_absorbed(a: Binary64, b: Binary64)
    requires
        2 <= a.scale() <= 1900,
        -(pow2((a.scale() - 2) as nat) as int) < b.units() < pow2((a.scale() - 2) as nat),
    ensures
        sum(a, b) == a,
{
    lemma_parts(a);
    let off = if a.negative() {
        -b.units()
    } else {
        b.units()
    };
    let m = a.digits() as nat;
    lemma_small_change_is_lost(m, a.scale(), off);
}

/// How far from zero a number is whose bits have a bound.
pub proof fn lemma_units_bound(a: Binary64, e: nat)
    requires
        e > 0,
        a.magnitude() <= e * HIDDEN_BIT,
    ensures
        -(pow2(51 + e) as int) <= a.units() <= pow2(51 + e),
{
    lemma_parts(a);
    lemma2_to64_rest();
    let k = a.scale();
    let p = pow2(k);
    lemma_pow2_pos(k);
    lemma_pow2_adds(53, k);
    lemma_pow2_adds(52, k);
    if k + 1 < e {
        if k + 2 < e {
            lemma_pow2_strictly_increases(53 + k, 51 + e);
        }
        assert(0 <= a.digits() * p <= 0x20_0000_0000_0000 * p) by (nonlinear_arith)
            requires
                0 <= a.digits() < 0x20_0000_0000_0000,
                p > 0,
        ;
    } else {
        assert(52 + k == 51 + e);
        assert(0 <= a.digits() * p <= 0x10_0000_0000_0000 * p) by (nonlinear_arith)
            requires
                0 <= a.digits() <= 0x10_0000_0000_0000,
                p > 0,
        ;
    }
}

/// How great a sum can be.
pub proof fn lemma_sum_bound(a: Binary64, b: Binary64, e: nat)
    requires
        0 < e <= 1900,
        a.magnitude() <= e * HIDDEN_BIT,
        b.magnitude() <= e * HIDDEN_BIT,
    ensures
        sum(a, b).magnitude() <= (e + 2) * HIDDEN_BIT,
{
    lemma_units_bound(a, e);
    lemma_units_bound(b, e);
    lemma_pow2_unfold(52 + e);
    lemma_pow2_unfold(53 + e);
    lemma_pow2_pos(52 + e);
    let n = distance(a.units() + b.units());
    assert(n < pow2(53 + e) * 1);
    lemma_nearest_bound(n, 1, e);
}

/// How great a quotient can be.
pub proof fn lemma_fraction_bound(n: int, d: int)
    requires
        -4096 < n < 4096,
        d != 0,
    ensures
        fraction(n, d).magnitude() <= 1035 * HIDDEN_BIT,
{
    lemma2_to64();
    lemma_pow2_adds(12, 1074);
    lemma_pow2_pos(1074);
    let (m, q, p) = (distance(n), distance(d), pow2(1074));
    assert(m * p < (4096 * p) * q) by (nonlinear_arith)
        requires
            m < 4096,
            q > 0,
            p > 0,
    ;
    lemma_nearest_bound(m * p, q, 1033);
}

/// A number that has grown beyond two to the power of sixty grows no further when little is added.
pub proof fn lemma_small_steps_end(a: Binary64, n: int)
    requires
        a.magnitude() <= 1084 * HIDDEN_BIT,
        0 <= n < 32,
    ensures
        sum(a, whole(n)).magnitude() <= 1084 * HIDDEN_BIT,
{
    lemma2_to64();
    let b = whole(n);
    let p = pow2(1074);
    lemma_pow2_adds(5, 1074);
    lemma_pow2_pos(1074);
    assert(distance(n) * p < (32 * p) * 1) by (nonlinear_arith)
        requires
            distance(n) < 32,
            p > 0,
    ;
    lemma_nearest_bound(distance(n) * p, distance(1), 1026);
    lemma_units_bound(b, 1028);
    lemma_pow2_strictly_increases(1079, 1080);
    lemma_parts(a);
    if a.magnitude() >= 1083 * HIDDEN_BIT {
        if a.scale() > 1082 {
            lemma_pow2_strictly_increases(1080, (a.scale() - 2) as nat);
        }
        lemma_absorbed(a, b);
    } else {
        lemma_units_bound(a, 1083);
        lemma_pow2_strictly_increases(1079, 1134);
        lemma_pow2_unfold(1135);
        let total = distance(a.units() + b.units());
        assert(total < pow2(1135) * 1);
        lemma_nearest_bound(total, 1, 1082);
    }
}

/// The bounds of a quotient that its scale gives.
proof fn lemma_scale_bounds(n: nat, d: nat)
    requires
        d > 0,
    ensures
        n < pow2(53 + scale_for(n, d)) * d,
        scale_for(n, d) == 0 || pow2(52 + scale_for(n, d)) * d <= n,
    decreases n - d,
{
    lemma2_to64_rest();
    if n >= 2 * HIDDEN_BIT * d {
        assert(2 * HIDDEN_BIT * d >= 2 * d) by (nonlinear_arith)
            requires
                d > 0,
        ;
        lemma_scale_bounds(n, 2 * d);
        let less = scale_for(n, 2 * d);
        let k = less + 1;
        lemma_pow2_unfold(53 + k);
        lemma_pow2_unfold(52 + k);
        assert(pow2(53 + k) * d == pow2(53 + less) * (2 * d)) by (nonlinear_arith)
            requires
                pow2(53 + k) == 2 * pow2(53 + less),
        ;
        assert(pow2(52 + k) * d == pow2(52 + less) * (2 * d)) by (nonlinear_arith)
            requires
                pow2(52 + k) == 2 * pow2(52 + less),
        ;
    }
}

/// Of two numbers of units the greater is not rounded to less.
proof fn lemma_nearest_keeps_order(n: nat, m: nat)
    requires
        n <= m,
    ensures
        0 <= nearest_magnitude(n, 1) <= nearest_magnitude(m, 1),
{
    lemma2_to64_rest();
    let (j, k) = (scale_for(n, 1), scale_for(m, 1));
    lemma_scale_bounds(n, 1);
    lemma_scale_bounds(m, 1);
    lemma_pow2_pos(j);
    lemma_pow2_pos(k);
    lemma_pow2_adds(53, j);
    lemma_pow2_adds(52, k);
    let (p, q) = (pow2(j), pow2(k));
    assert(1 * p == p && 1 * q == q);
    if j == k {
        lemma_fundamental_div_mod(n as int, p as int);
        lemma_fundamental_div_mod(m as int, p as int);
        assert(n / p <= m / p && (n / p == m / p ==> n % p <= m % p)) by (nonlinear_arith)
            requires
                n <= m,
                n == p * (n / p) + n % p,
                m == p * (m / p) + m % p,
                0 <= n % p < p,
                0 <= m % p < p,
        ;
    } else {
        if j > k {
            if 53 + k < 52 + j {
                lemma_pow2_strictly_increases(53 + k, 52 + j);
            }
        }
        assert(j < k);
        lemma_half_even_bounds(n, p, 0, 0x20_0000_0000_0000);
        lemma_pow2_strictly_increases(52 + k, 54 + k);
        lemma_pow2_adds(53, k);
        lemma_half_even_bounds(m, q, 0x10_0000_0000_0000, 0x20_0000_0000_0000);
        assert((j + 2) * HIDDEN_BIT <= (k + 1) * HIDDEN_BIT) by (nonlinear_arith)
            requires
                j < k,
        ;
    }
}

/// Of two numbers the one whose place is not lower is not the smaller one.
proof fn lemma_places_order_units(a: Binary64, b: Binary64)
    requires
        0 <= a.magnitude() <= b.magnitude(),
    ensures
        0 <= a.digits() * pow2(a.scale()) <= b.digits() * pow2(b.scale()),
{
    lemma_parts(a);
    lemma_parts(b);
    let (j, k) = (a.scale(), b.scale());
    let (p, q) = (pow2(j), pow2(k));
    lemma_pow2_pos(j);
    lemma_pow2_pos(k);
    if j == k {
        assert(0 <= a.digits() * p <= b.digits() * p) by (nonlinear_arith)
            requires
                0 <= a.digits() <= b.digits(),
                p > 0,
        ;
    } else {
        lemma_pow2_unfold(j + 1);
        if j + 1 < k {
            lemma_pow2_strictly_increases(j + 1, k);
        }
        assert(0 <= a.digits() * p <= b.digits() * q) by (nonlinear_arith)
            requires
                0 <= a.digits() < 0x20_0000_0000_0000,
                b.digits() >= 0x10_0000_0000_0000,
                q >= 2 * p,
                p > 0,
        ;
    }
}

/// Of two numbers the one that is not smaller gives a sum with a third that is not smaller.
pub proof fn law_sums_keep_order(a: Binary64, b: Binary64, c: Binary64)
    requires
        a.magnitude() < INFINITE,
        b.magnitude() < INFINITE,
        b.reaches(a),
    ensures
        sum(b, c).reaches(sum(a, c)),
{
    if !a.negative() && !b.negative() {
        lemma_places_order_units(a, b);
    } else if a.negative() && b.negative() {
        lemma_places_order_units(b, a);
    } else if a.negative() {
        lemma_places_order_units(a, a);
        lemma_places_order_units(b, b);
    } else {
        lemma_parts(a);
        lemma_parts(b);
        assert(0 * pow2(a.scale()) == 0 && 0 * pow2(b.scale()) == 0);
    }
    assert(a.units() <= b.units());
    let (n, m) = (a.units() + c.units(), b.units() + c.units());
    if n < 0 && m < 0 {
        lemma_nearest_keeps_order(distance(m), distance(n));
    } else if n >= 0 {
        lemma_nearest_keeps_order(distance(n), distance(m));
    } else {
        lemma_nearest_keeps_order(distance(n), distance(n));
        lemma_nearest_keeps_order(distance(m), distance(m));
    }
    lemma_nearest_keeps_order(0, distance(n));
    lemma_nearest_keeps_order(0, distance(m));
    if n == 0 || m == 0 {
        lemma_nearest_of_zero();
    }
}

/// Nothing is rounded to zero.
proof fn lemma_nearest_of_zero()
    ensures
        nearest_magnitude(0, 1) == 0,
{
    lemma2_to64();
    assert(1 * pow2(0) == 1);
}

/// A whole number of fewer than 54 binary digits is held as it is.
pub proof fn law_whole_numbers_are_exact(n: int)
    requires
        -(2 * HIDDEN_BIT) < n < 2 * HIDDEN_BIT,
    ensures
        whole(n).units() == n * pow2(1074),
        whole(n).negative() == (n < 0),
        whole(n).magnitude() < INFINITE,
{
    lemma2_to64();
    lemma2_to64_rest();
    let m = distance(n);
    let p = pow2(1074);
    let all = m * p;
    lemma_pow2_pos(1074);
    lemma_scale_bounds(all, 1);
    let k = scale_for(all, 1);
    lemma_pow2_pos(k);
    lemma_pow2_adds(52, k);
    lemma_pow2_adds(53, k);
    if k > 1074 {
        lemma_pow2_adds(52, 1074);
        if k > 1075 {
            lemma_pow2_strictly_increases(52 + 1075, 52 + k);
        }
        lemma_pow2_unfold(52 + 1075);
        assert(false) by (nonlinear_arith)
            requires
                m < 0x20_0000_0000_0000,
                all == m * p,
                2 * (0x10_0000_0000_0000 * p) <= all,
                p > 0,
        ;
    }
    let g = pow2((1074 - k) as nat);
    let q = pow2(k);
    lemma_pow2_adds(k, (1074 - k) as nat);
    lemma_pow2_pos((1074 - k) as nat);
    let d = m * g;
    assert(all == d * q) by (nonlinear_arith)
        requires
            all == m * p,
            p == q * g,
            d == m * g,
    ;
    assert(1 * q == q);
    lemma_fundamental_div_mod_converse(all as int, q as int, d as int, 0);
    assert(half_even(all, q) == d);
    assert(d < 0x20_0000_0000_0000) by (nonlinear_arith)
        requires
            d * q < 0x20_0000_0000_0000 * q,
            q > 0,
    ;
    if k > 0 {
        assert(d >= 0x10_0000_0000_0000) by (nonlinear_arith)
            requires
                d * q >= 0x10_0000_0000_0000 * q,
                q > 0,
        ;
    }
    let r = whole(n);
    assert(nearest_magnitude(all, 1) == k * HIDDEN_BIT + d);
    assert(m * p == distance(n) * pow2(1074));
    assert(distance(1) == 1);
    assert(r.magnitude() == k * HIDDEN_BIT + d);
    assert(r.scale() == k);
    assert(r.digits() == d);
    if n < 0 {
        assert(n * p == -(m * p)) by (nonlinear_arith)
            requires
                m == -n,
        ;
    }
}

/// Whole numbers of fewer than 54 binary digits are added without rounding.
pub proof fn law_whole_sums_are_exact(a: int, b: int)
    requires
        -(2 * HIDDEN_BIT) < a < 2 * HIDDEN_BIT,
        -(2 * HIDDEN_BIT) < b < 2 * HIDDEN_BIT,
    ensures
        sum(whole(a), whole(b)) == whole(a + b),
{
    law_whole_numbers_are_exact(a);
    law_whole_numbers_are_exact(b);
    let p = pow2(1074);
    lemma_pow2_pos(1074);
    let units = a * p + b * p;
    assert(units == (a + b) * p && (units < 0 <==> a + b < 0) && (units == 0 <==> a + b == 0))
        by (nonlinear_arith)
        requires
            units == a * p + b * p,
            p > 0,
    ;
    if a + b < 0 {
        assert((-(a + b)) * p == -units) by (nonlinear_arith)
            requires
                units == (a + b) * p,
        ;
    }
    assert(distance(units) == distance(a + b) * p);
    assert(distance(1) == 1);
}

/// Of two whole numbers the greater one is the greater number.
pub proof fn law_whole_numbers_keep_their_order(a: int, b: int)
    requires
        -(2 * HIDDEN_BIT) < a < 2 * HIDDEN_BIT,
        -(2 * HIDDEN_BIT) < b < 2 * HIDDEN_BIT,
    ensures
        whole(a).reaches(whole(b)) <==> a >= b,
{
    law_whole_numbers_are_exact(a);
    law_whole_numbers_are_exact(b);
    let (l, r) = (whole(a), whole(b));
    let p = pow2(1074);
    lemma_pow2_pos(1074);
    if a >= b && !(l.place() >= r.place()) || a < b && l.place() >= r.place() {
        let (low, high) = if a >= b {
            (l, r)
        } else {
            (r, l)
        };
        lemma_units_keep_places(low, high);
        assert(false) by (nonlinear_arith)
            requires
                a >= b ==> a * p <= b * p && l.place() < r.place(),
                a < b ==> b * p <= a * p,
                p > 0,
                l.place() < r.place() ==> a != b,
        ;
    }
}

/// A number whose place is not higher is not greater.
proof fn lemma_units_keep_places(low: Binary64, high: Binary64)
    requires
        low.place() <= high.place(),
    ensures
        low.units() <= high.units(),
{
    lemma_parts(low);
    lemma_parts(high);
    if !low.negative() && !high.negative() {
        lemma_places_order_units(low, high);
    } else if low.negative() && high.negative() {
        lemma_places_order_units(high, low);
    } else {
        lemma_places_order_units(low, low);
        lemma_places_order_units(high, high);
        assert(0 * pow2(low.scale()) == 0 && 0 * pow2(high.scale()) == 0);
    }
}

/// A quotient of positive numbers that is no more than a whole number is the smaller one of both.
pub proof fn law_small_quotients_are_smaller(n: int, d: int, most: int)
    requires
        0 < n < 4096,
        0 < most < 4096,
        0 < d,
        n <= most * d,
    ensures
        smaller(fraction(n, d), whole(most)) == fraction(n, d),
{
    lemma_quotient_bound(n as nat, d as nat, most as nat);
}

/// A quotient is rounded to no more than a whole number that it does not exceed.
proof fn lemma_quotient_bound(n: nat, d: nat, most: nat)
    requires
        0 < n < 4096,
        0 < most < 4096,
        0 < d,
        n <= most * d,
    ensures
        whole(most as int).reaches(fraction(n as int, d as int)),
{
    lemma_fraction_bound(n as int, d as int);
    lemma_fraction_bound(most as int, 1);
    let p = pow2(1074);
    lemma_pow2_pos(1074);
    let (a, b) = (n * p, most * p);
    assert(a <= b * d) by (nonlinear_arith)
        requires
            n <= most * d,
            a == n * p,
            b == most * p,
            p > 0,
    ;
    lemma_nearest_of_quotients(a, d, b);
    assert(distance(1) == 1 && distance(n as int) == n && distance(d as int) == d && distance(
        most as int,
    ) == most);
}

/// A quotient that does not exceed a whole number of units is rounded to no more than it.
proof fn lemma_nearest_of_quotients(a: nat, d: nat, b: nat)
    requires
        d > 0,
        a <= b * d,
    ensures
        0 <= nearest_magnitude(a, d) <= nearest_magnitude(b, 1),
{
    lemma2_to64_rest();
    let (j, k) = (scale_for(a, d), scale_for(b, 1));
    lemma_scale_bounds(a, d);
    lemma_scale_bounds(b, 1);
    lemma_pow2_pos(j);
    lemma_pow2_pos(k);
    lemma_pow2_adds(53, j);
    lemma_pow2_adds(52, j);
    lemma_pow2_adds(52, k);
    lemma_pow2_adds(53, k);
    let (p, q) = (pow2(j), pow2(k));
    assert(1 * q == q);
    let m = d * p;
    assert(m > 0) by (nonlinear_arith)
        requires
            d > 0,
            p > 0,
            m == d * p,
    ;
    if j > k {
        if 53 + k < 52 + j {
            lemma_pow2_strictly_increases(53 + k, 52 + j);
        }
        assert(false) by (nonlinear_arith)
            requires
                pow2(52 + j) * d <= a,
                a <= b * d,
                b < pow2(53 + k),
                pow2(53 + k) <= pow2(52 + j),
                d > 0,
        ;
    } else if j == k {
        lemma_fundamental_div_mod(b as int, q as int);
        let (y, r) = (b / q, b % q);
        let x = half_even(b, q);
        // Both are rounded with steps of one size, and rounding keeps the order.
        lemma_fundamental_div_mod(a as int, m as int);
        let (z, t) = (a / m, a % m);
        assert(z <= y && (z == y ==> t <= r * d)) by (nonlinear_arith)
            requires
                a <= b * d,
                b == q * y + r,
                a == m * z + t,
                m == d * q,
                0 <= r < q,
                0 <= t < m,
                d > 0,
                q > 0,
        ;
        if z == y {
            assert((2 * t > m ==> 2 * r > q) && (2 * t == m ==> 2 * r >= q)) by (nonlinear_arith)
                requires
                    t <= r * d,
                    m == d * q,
                    d > 0,
            ;
        }
        assert(half_even(a, m) <= x);
    } else {
        assert((0x20_0000_0000_0000 * p) * d == 0x20_0000_0000_0000 * m) by (nonlinear_arith)
            requires
                m == d * p,
        ;
        lemma_half_even_bounds(a, m, 0, 0x20_0000_0000_0000);
        lemma_half_even_bounds(b, q, 0x10_0000_0000_0000, 0x20_0000_0000_0000);
        assert((j + 2) * HIDDEN_BIT <= (k + 1) * HIDDEN_BIT) by (nonlinear_arith)
            requires
                j < k,
        ;
    }
}

/// A quotient is rounded to the nearest whole number: no other is nearer, and of two that are as
/// near the even one is taken.
pub proof fn law_quotients_are_rounded_to_the_nearest(n: nat, d: nat)
    requires
        d > 0,
    ensures
        ({
            let off = half_even(n, d) * d - n;
            &&& -(d as int) <= 2 * off <= d
            &&& 2 * off == d || 2 * off == -(d as int) ==> half_even(n, d) % 2 == 0
        }),
{
    let (q, r) = (n / d, n % d);
    lemma_fundamental_div_mod(n as int, d as int);
    assert(d * q == q * d) by (nonlinear_arith);
    assert((q + 1) * d == q * d + d) by (nonlinear_arith);
}

} // verus!
