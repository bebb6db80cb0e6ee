//! Decimal fixed-point numbers.
//!
//! A [`Scalar`] holds a signed count of billionths in an `i64`. Every
//! operation is total: a result that does not fit is clamped to the nearest
//! representable value, products and quotients are rounded toward zero, and a
//! square root is rounded down. The largest and smallest values stand for an
//! unbounded distance.

use vstd::prelude::*;

verus! {

/// Raw units in one whole unit.
pub const SCALE: i64 = 1_000_000_000;

/// The nearest `i64` to `x`.
pub open spec fn saturate(x: int) -> int {
    if x > i64::MAX {
        i64::MAX as int
    } else if x < i64::MIN {
        i64::MIN as int
    } else {
        x
    }
}

/// The distance of `x` from zero.
pub open spec fn magnitude(x: int) -> int {
    if x < 0 {
        -x
    } else {
        x
    }
}

/// `n / d` rounded toward zero, for `d != 0`.
pub open spec fn quotient(n: int, d: int) -> int {
    if (n < 0) == (d < 0) {
        magnitude(n) / magnitude(d)
    } else {
        -(magnitude(n) / magnitude(d))
    }
}

/// `r` is the square root of `n` rounded down.
pub open spec fn is_root(n: int, r: int) -> bool {
    0 <= r && r * r <= n < (r + 1) * (r + 1)
}

/// The square root of `n` rounded down, for `n >= 0`.
pub open spec fn root(n: int) -> int {
    choose|r: int| is_root(n, r)
}

/// A number has at most one rounded-down square root.
pub proof fn lemma_root_unique(n: int, r: int)
    requires
        is_root(n, r),
    ensures
        root(n) == r,
{
    let c = root(n);
    assert(is_root(n, c));
    assert(c == r) by (nonlinear_arith)
        requires
            0 <= r,
            r * r <= n < (r + 1) * (r + 1),
            0 <= c,
            c * c <= n < (c + 1) * (c + 1),
    ;
}

/// Every number that is not negative has a rounded-down square root.
pub proof fn lemma_root_exists(n: int)
    requires
        n >= 0,
    ensures
        is_root(n, root(n)),
    decreases n,
{
    if n == 0 {
        assert(is_root(0, 0));
    } else {
        lemma_root_exists(n - 1);
        let r = root(n - 1);
        if n < (r + 1) * (r + 1) {
            assert(is_root(n, r));
        } else {
            assert(n == (r + 1) * (r + 1));
            assert((r + 1) * (r + 1) < (r + 2) * (r + 2)) by (nonlinear_arith)
                requires
                    r >= 0,
            ;
            assert(is_root(n, r + 1));
        }
    }
}

/// Rounding toward zero keeps the order of numerators over a positive
/// denominator.
pub proof fn lemma_quotient_monotonic(m: int, n: int, d: int)
    requires
        m <= n,
        d > 0,
    ensures
        quotient(m, d) <= quotient(n, d),
{
    let a = magnitude(m);
    let b = magnitude(n);
    if m >= 0 {
        assert(a / d <= b / d) by (nonlinear_arith)
            requires
                0 <= a <= b,
                d > 0,
        ;
    } else if n < 0 {
        assert(b / d <= a / d) by (nonlinear_arith)
            requires
                0 <= b <= a,
                d > 0,
        ;
    } else {
        assert(a / d >= 0 && b / d >= 0) by (nonlinear_arith)
            requires
                0 <= a,
                0 <= b,
                d > 0,
        ;
    }
}

/// Dividing a multiple of `d` by `d` is exact.
pub proof fn lemma_quotient_exact(k: int, d: int)
    requires
        d > 0,
    ensures
        quotient(k * d, d) == k,
{
    if k >= 0 {
        assert(k * d >= 0 && (k * d) / d == k) by (nonlinear_arith)
            requires
                k >= 0,
                d > 0,
        ;
    } else {
        assert(k * d < 0 && (-(k * d)) / d == -k) by (nonlinear_arith)
            requires
                k < 0,
                d > 0,
        ;
    }
}

/// A product that fits is the exact product cut off below the last
/// billionth: it has the exact product's sign and is less than one
/// billionth nearer to zero.
pub proof fn lemma_times_rounding(a: Scalar, b: Scalar)
    requires
        magnitude(a.raw * b.raw) <= i64::MAX * SCALE,
    ensures
        magnitude(a.times(b).raw as int) * SCALE <= magnitude(a.raw * b.raw) < (magnitude(
            a.times(b).raw as int,
        ) + 1) * SCALE,
        a.raw * b.raw >= 0 ==> a.times(b).raw >= 0,
        a.raw * b.raw <= 0 ==> a.times(b).raw <= 0,
{
    let m = magnitude(a.raw * b.raw);
    let q = m / (SCALE as int);
    assert(q * SCALE <= m < (q + 1) * SCALE);
    assert(0 <= q <= i64::MAX);
}

/// A quotient that fits is the exact quotient cut off below the last
/// billionth: multiplied back by the divisor it is within one divisor of
/// the numerator, on the side of zero.
pub proof fn lemma_over_rounding(a: Scalar, d: Scalar)
    requires
        d.raw != 0,
        magnitude(a.raw as int) * SCALE <= i64::MAX * magnitude(d.raw as int),
    ensures
        magnitude(a.over(d).raw as int) * magnitude(d.raw as int) <= magnitude(a.raw as int)
            * SCALE < (magnitude(a.over(d).raw as int) + 1) * magnitude(d.raw as int),
        (a.raw >= 0) == (d.raw > 0) ==> a.over(d).raw >= 0,
        (a.raw <= 0) == (d.raw > 0) ==> a.over(d).raw <= 0,
{
    let n = magnitude(a.raw * SCALE);
    let m = magnitude(d.raw as int);
    let q = n / m;
    assert(n == magnitude(a.raw as int) * SCALE);
    assert(q * m <= n < (q + 1) * m && 0 <= q) by (nonlinear_arith)
        requires
            q == n / m,
            m > 0,
            n >= 0,
    ;
    assert(q <= i64::MAX) by (nonlinear_arith)
        requires
            q * m <= n,
            n <= i64::MAX * m,
            m > 0,
    ;
}

/// A component divided by the length of its vector lies between minus one
/// and one, whatever the vector.
pub proof fn lemma_component_over_norm(x: Scalar, a: Scalar, b: Scalar, c: Scalar)
    requires
        x == a || x == b || x == c,
    ensures
        -SCALE <= x.over(Scalar::spec_norm(a, b, c)).raw <= SCALE,
{
    let n = a.raw * a.raw + b.raw * b.raw + c.raw * c.raw;
    assert(a.raw * a.raw >= 0 && b.raw * b.raw >= 0 && c.raw * c.raw >= 0) by (nonlinear_arith);
    lemma_root_exists(n);
    let r = root(n);
    let length = Scalar::spec_norm(a, b, c);
    let m = magnitude(x.raw as int);
    assert(m * m == x.raw * x.raw) by (nonlinear_arith)
        requires
            m == magnitude(x.raw as int),
    ;
    assert(m <= r) by (nonlinear_arith)
        requires
            0 <= m,
            0 <= r,
            m * m <= n,
            n < (r + 1) * (r + 1),
    ;
    if x.raw != 0 {
        let l = length.raw as int;
        assert(1 <= l && m <= l + 1 && (m <= l || l == i64::MAX));
        assert(m * SCALE <= i64::MAX * l && m * SCALE < (SCALE + 1) * l) by (nonlinear_arith)
            requires
                1 <= l <= i64::MAX,
                0 <= m <= l + 1,
                m <= l || l == i64::MAX,
        ;
        lemma_over_rounding(x, length);
        let q = magnitude(x.over(length).raw as int);
        assert(q <= SCALE) by (nonlinear_arith)
            requires
                q * l <= m * SCALE,
                m * SCALE < (SCALE + 1) * l,
                l >= 1,
                q >= 0,
        ;
    }
}

/// A square is not negative, rounded or not.
pub proof fn lemma_square_not_negative(a: Scalar)
    ensures
        a.times(a).raw >= 0,
{
    let p = a.raw * a.raw;
    assert(p >= 0) by (nonlinear_arith)
        requires
            p == a.raw * a.raw,
    ;
    assert(p / (SCALE as int) >= 0) by (nonlinear_arith)
        requires
            p >= 0,
    ;
}

/// Over a divisor that is not negative, the quotient keeps the order of
/// the numerators.
pub proof fn lemma_over_monotonic(m: Scalar, n: Scalar, d: Scalar)
    requires
        m.raw <= n.raw,
        d.raw >= 0,
    ensures
        m.over(d).raw <= n.over(d).raw,
{
    if d.raw > 0 {
        assert(m.raw * SCALE <= n.raw * SCALE);
        lemma_quotient_monotonic(m.raw * SCALE, n.raw * SCALE, d.raw as int);
    }
}

/// The square root of a positive value is the rounded-down root of its
/// count of billionths times the scale, and no square root is negative.
pub proof fn lemma_sqrt_is_root(x: Scalar)
    ensures
        x.spec_sqrt().raw >= 0,
        x.raw > 0 ==> is_root(x.raw * SCALE, x.spec_sqrt().raw as int),
{
    if x.raw > 0 {
        let n = x.raw * SCALE;
        lemma_root_exists(n);
        let r = root(n);
        assert(r < 0x8000_0000_0000) by (nonlinear_arith)
            requires
                r * r <= n,
                n < 0x4000_0000_0000_0000_0000_0000,
                0 <= r,
        ;
    }
}

/// A count of billionths.
#[derive(Clone, Copy, Debug, PartialEq, Eq, Structural)]
pub struct Scalar {
    pub raw: i64,
}

impl View for Scalar {
    type V = int;

    open spec fn view(&self) -> int {
        self.raw as int
    }
}

fn narrow(x: i128) -> (r: i64)
    ensures
        r == saturate(x as int),
{
    if x > i64::MAX as i128 {
        i64::MAX
    } else if x < i64::MIN as i128 {
        i64::MIN
    } else {
        x as i64
    }
}

fn quotient_wide(n: i128, d: i128) -> (r: i128)
    requires
        d != 0,
        i128::MIN < n,
        i128::MIN < d,
    ensures
        r == quotient(n as int, d as int),
{
    let un: u128 = if n < 0 {
        (-n) as u128
    } else {
        n as u128
    };
    let ud: u128 = if d < 0 {
        (-d) as u128
    } else {
        d as u128
    };
    let q: u128 = un / ud;
    assert(q <= un) by (nonlinear_arith)
        requires
            q == un / ud,
            ud > 0,
    ;
    if (n < 0) == (d < 0) {
        q as i128
    } else {
        -(q as i128)
    }
}

fn root_wide(n: u128) -> (r: u128)
    ensures
        is_root(n as int, r as int),
        r < 0x1_0000_0000_0000_0000,
{
    let mut lo: u128 = 0;
    let mut hi: u128 = 0x1_0000_0000_0000_0000;
    assert(0x1_0000_0000_0000_0000int * 0x1_0000_0000_0000_0000int
        == 0x1_0000_0000_0000_0000_0000_0000_0000_0000int);
    while hi - lo > 1
        invariant
            lo < hi <= 0x1_0000_0000_0000_0000,
            lo * lo <= n < hi * hi,
        decreases hi - lo,
    {
        let mid: u128 = lo + (hi - lo) / 2;
        assert(mid * mid < 0x1_0000_0000_0000_0000_0000_0000_0000_0000) by (nonlinear_arith)
            requires
                mid < 0x1_0000_0000_0000_0000,
        ;
        if mid * mid <= n {
            lo = mid;
        } else {
            hi = mid;
        }
    }
    lo
}

fn square_wide(a: i64) -> (r: u128)
    ensures
        r == a * a,
        r <= 0x4000_0000_0000_0000_0000_0000_0000_0000,
{
    let m: u128 = if a < 0 {
        (-(a as i128)) as u128
    } else {
        a as u128
    };
    assert(m * m == a * a && m * m <= 0x4000_0000_0000_0000_0000_0000_0000_0000)
        by (nonlinear_arith)
        requires
            m == magnitude(a as int),
            0 <= m <= 0x8000_0000_0000_0000,
    ;
    m * m
}

impl Scalar {
    /// The sum, clamped.
    pub open spec fn plus(self, other: Scalar) -> Scalar {
        Scalar { raw: saturate(self.raw + other.raw) as i64 }
    }

    /// The difference, clamped.
    pub open spec fn minus(self, other: Scalar) -> Scalar {
        Scalar { raw: saturate(self.raw - other.raw) as i64 }
    }

    /// The product, rounded toward zero and clamped.
    pub open spec fn times(self, other: Scalar) -> Scalar {
        Scalar { raw: saturate(quotient(self.raw * other.raw, SCALE as int)) as i64 }
    }

    /// The quotient, rounded toward zero and clamped. A division by zero
    /// gives the largest value for a positive numerator, the smallest for a
    /// negative one, and zero for zero.
    pub open spec fn over(self, other: Scalar) -> Scalar {
        if other.raw == 0 {
            Scalar { raw: if self.raw > 0 { i64::MAX } else if self.raw < 0 { i64::MIN } else { 0 } }
        } else {
            Scalar { raw: saturate(quotient(self.raw * SCALE, other.raw as int)) as i64 }
        }
    }

    /// The opposite value, clamped.
    pub open spec fn negated(self) -> Scalar {
        Scalar { raw: saturate(-self.raw) as i64 }
    }

    /// The distance from zero, clamped.
    pub open spec fn spec_abs(self) -> Scalar {
        Scalar { raw: saturate(magnitude(self.raw as int)) as i64 }
    }

    /// The square root rounded down; zero for a value that is not positive.
    pub open spec fn spec_sqrt(self) -> Scalar {
        if self.raw <= 0 {
            Scalar { raw: 0 }
        } else {
            Scalar { raw: root(self.raw * SCALE) as i64 }
        }
    }

    /// The length of the vector with the components `a`, `b` and `c`: the
    /// square root of the exact sum of their squares, rounded down and
    /// clamped.
    pub open spec fn spec_norm(a: Scalar, b: Scalar, c: Scalar) -> Scalar {
        Scalar { raw: saturate(root(a.raw * a.raw + b.raw * b.raw + c.raw * c.raw)) as i64 }
    }

    /// The smaller of two values.
    pub open spec fn spec_min(self, other: Scalar) -> Scalar {
        if other.raw < self.raw {
            other
        } else {
            self
        }
    }

    /// The fifth power, each product rounded in turn.
    pub open spec fn spec_pow5(self) -> Scalar {
        let square = self.times(self);
        square.times(square).times(self)
    }

    /// Whole units, clamped.
    pub open spec fn spec_from_int(n: int) -> Scalar {
        Scalar { raw: saturate(n * SCALE) as i64 }
    }

    /// The whole part: the value rounded toward zero.
    pub open spec fn spec_trunc(self) -> int {
        quotient(self.raw as int, SCALE as int)
    }

    /// A value from its count of billionths.
    pub fn new(raw: i64) -> (r: Scalar)
        ensures
            r.raw == raw,
    {
        Scalar { raw }
    }

    pub fn zero() -> (r: Scalar)
        ensures
            r.raw == 0,
    {
        Scalar { raw: 0 }
    }

    pub fn one() -> (r: Scalar)
        ensures
            r.raw == SCALE,
    {
        Scalar { raw: SCALE }
    }

    /// The largest value, which stands for an unbounded distance.
    pub fn max_value() -> (r: Scalar)
        ensures
            r.raw == i64::MAX,
    {
        Scalar { raw: i64::MAX }
    }

    /// The smallest value.
    pub fn min_value() -> (r: Scalar)
        ensures
            r.raw == i64::MIN,
    {
        Scalar { raw: i64::MIN }
    }

    /// `n` whole units.
    pub fn from_int(n: i64) -> (r: Scalar)
        ensures
            r == Scalar::spec_from_int(n as int),
    {
        assert(-0x8000_0000_0000_0000 * 1_000_000_000 <= n * SCALE <= 0x8000_0000_0000_0000
            * 1_000_000_000);
        Scalar { raw: narrow(n as i128 * SCALE as i128) }
    }

    /// The ratio `num / den` of two whole numbers: `from_int(num)` divided
    /// by `from_int(den)`.
    pub fn from_ratio(num: i64, den: i64) -> (r: Scalar)
        ensures
            r == Scalar::spec_from_int(num as int).over(Scalar::spec_from_int(den as int)),
    {
        Scalar::from_int(num) / Scalar::from_int(den)
    }

    /// The whole part: the value rounded toward zero.
    pub fn trunc(self) -> (r: i64)
        ensures
            r == self.spec_trunc(),
    {
        let q = quotient_wide(self.raw as i128, SCALE as i128);
        assert(magnitude(self.raw as int) / (SCALE as int) <= magnitude(self.raw as int));
        q as i64
    }

    pub fn abs(self) -> (r: Scalar)
        ensures
            r == self.spec_abs(),
    {
        if self.raw < 0 {
            Scalar { raw: narrow(-(self.raw as i128)) }
        } else {
            self
        }
    }

    pub fn sqrt(self) -> (r: Scalar)
        ensures
            r == self.spec_sqrt(),
            self.raw > 0 ==> is_root(self.raw * SCALE, r.raw as int),
    {
        if self.raw <= 0 {
            Scalar { raw: 0 }
        } else {
            assert(0 < self.raw * SCALE < 0x4000_0000_0000_0000_0000_0000);
            let n: u128 = self.raw as u128 * SCALE as u128;
            let r = root_wide(n);
            proof {
                lemma_root_unique(n as int, r as int);
                assert(r < 0x8000_0000_0000) by (nonlinear_arith)
                    requires
                        r * r <= n,
                        n < 0x4000_0000_0000_0000_0000_0000,
                        0 <= r,
                ;
            }
            Scalar { raw: r as i64 }
        }
    }

    /// The length of the vector with the components `a`, `b` and `c`.
    pub fn norm(a: Scalar, b: Scalar, c: Scalar) -> (r: Scalar)
        ensures
            r == Scalar::spec_norm(a, b, c),
    {
        let n: u128 = square_wide(a.raw) + square_wide(b.raw) + square_wide(c.raw);
        let r = root_wide(n);
        proof {
            lemma_root_unique(n as int, r as int);
        }
        if r > i64::MAX as u128 {
            Scalar { raw: i64::MAX }
        } else {
            Scalar { raw: r as i64 }
        }
    }

    pub fn min(self, other: Scalar) -> (r: Scalar)
        ensures
            r == self.spec_min(other),
    {
        if other.raw < self.raw {
            other
        } else {
            self
        }
    }

    pub fn pow5(self) -> (r: Scalar)
        ensures
            r == self.spec_pow5(),
    {
        let square = self * self;
        square * square * self
    }
}

impl core::ops::Add for Scalar {
    type Output = Scalar;

    fn add(self, rhs: Scalar) -> (r: Scalar)
        ensures
            r == self.plus(rhs),
    {
        Scalar { raw: narrow(self.raw as i128 + rhs.raw as i128) }
    }
}

impl vstd::std_specs::ops::AddSpecImpl for Scalar {
    open spec fn obeys_add_spec() -> bool {
        true
    }

    open spec fn add_req(self, rhs: Scalar) -> bool {
        true
    }

    open spec fn add_spec(self, rhs: Scalar) -> Scalar {
        self.plus(rhs)
    }
}

impl core::ops::Sub for Scalar {
    type Output = Scalar;

    fn sub(self, rhs: Scalar) -> (r: Scalar)
        ensures
            r == self.minus(rhs),
    {
        Scalar { raw: narrow(self.raw as i128 - rhs.raw as i128) }
    }
}

impl vstd::std_specs::ops::SubSpecImpl for Scalar {
    open spec fn obeys_sub_spec() -> bool {
        true
    }

    open spec fn sub_req(self, rhs: Scalar) -> bool {
        true
    }

    open spec fn sub_spec(self, rhs: Scalar) -> Scalar {
        self.minus(rhs)
    }
}

impl core::ops::Mul for Scalar {
    type Output = Scalar;

    fn mul(self, rhs: Scalar) -> (r: Scalar)
        ensures
            r == self.times(rhs),
    {
        let a = self.raw;
        let b = rhs.raw;
        assert(-0x8000_0000_0000_0000 * 0x8000_0000_0000_0000 <= a * b <= 0x8000_0000_0000_0000
            * 0x8000_0000_0000_0000) by (nonlinear_arith)
            requires
                -0x8000_0000_0000_0000 <= a < 0x8000_0000_0000_0000,
                -0x8000_0000_0000_0000 <= b < 0x8000_0000_0000_0000,
        ;
        let p: i128 = a as i128 * b as i128;
        Scalar { raw: narrow(quotient_wide(p, SCALE as i128)) }
    }
}

impl vstd::std_specs::ops::MulSpecImpl for Scalar {
    open spec fn obeys_mul_spec() -> bool {
        true
    }

    open spec fn mul_req(self, rhs: Scalar) -> bool {
        true
    }

    open spec fn mul_spec(self, rhs: Scalar) -> Scalar {
        self.times(rhs)
    }
}

impl core::ops::Div for Scalar {
    type Output = Scalar;

    fn div(self, rhs: Scalar) -> (r: Scalar)
        ensures
            r == self.over(rhs),
    {
        if rhs.raw == 0 {
            if self.raw > 0 {
                Scalar { raw: i64::MAX }
            } else if self.raw < 0 {
                Scalar { raw: i64::MIN }
            } else {
                Scalar { raw: 0 }
            }
        } else {
            assert(-0x8000_0000_0000_0000 * 1_000_000_000 <= self.raw * SCALE
                <= 0x8000_0000_0000_0000 * 1_000_000_000);
            let n: i128 = self.raw as i128 * SCALE as i128;
            Scalar { raw: narrow(quotient_wide(n, rhs.raw as i128)) }
        }
    }
}

impl vstd::std_specs::ops::DivSpecImpl for Scalar {
    open spec fn obeys_div_spec() -> bool {
        true
    }

    open spec fn div_req(self, rhs: Scalar) -> bool {
        true
    }

    open spec fn div_spec(self, rhs: Scalar) -> Scalar {
        self.over(rhs)
    }
}

impl core::ops::Neg for Scalar {
    type Output = Scalar;

    fn neg(self) -> (r: Scalar)
        ensures
            r == self.negated(),
    {
        Scalar { raw: narrow(-(self.raw as i128)) }
    }
}

impl vstd::std_specs::ops::NegSpecImpl for Scalar {
    open spec fn obeys_neg_spec() -> bool {
        true
    }

    open spec fn neg_req(self) -> bool {
        true
    }

    open spec fn neg_spec(self) -> Scalar {
        self.negated()
    }
}

} // verus!
