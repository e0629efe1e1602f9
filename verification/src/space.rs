//! The scalar/vector algebra the simulation runs on.
//!
//! Quantities are fixed-point numbers: a `Scalar` stores its value times
//! `SCALE` in an `i64`. Products and quotients round toward zero and results
//! outside the `i64` range saturate, so every operation is total and its
//! outcome is stated exactly in its contract.

use vstd::prelude::*;

verus! {

/// Fixed-point steps per whole unit: a `Scalar` holding the value `v` stores
/// `v * SCALE` in its `raw` field.
pub const SCALE: i64 = 65536;

/// Clamp an unbounded integer into the `i64` range.
pub open spec fn sat64(x: int) -> int {
    if x > i64::MAX {
        i64::MAX as int
    } else if x < i64::MIN {
        i64::MIN as int
    } else {
        x
    }
}

/// Division rounding toward zero; total, with a zero divisor mapped to zero.
pub open spec fn tz_div(a: int, b: int) -> int {
    if b == 0 {
        0
    } else if a == 0 {
        0
    } else if a > 0 && b > 0 {
        a / b
    } else if a < 0 && b < 0 {
        (a * -1) / (b * -1)
    } else if a < 0 {
        ((a * -1) / b) * -1
    } else {
        (a / (b * -1)) * -1
    }
}

/// A fixed-point scalar: the represented value times `SCALE`.
#[derive(Clone, Copy, Debug, PartialEq, Eq, Structural)]
pub struct Scalar {
    pub raw: i64,
}

/// Saturate an `i128` intermediate back into an `i64`.
fn clamp64(x: i128) -> (r: i64)
    ensures
        r as int == sat64(x as int),
{
    if x > i64::MAX as i128 {
        i64::MAX
    } else if x < i64::MIN as i128 {
        i64::MIN
    } else {
        x as i64
    }
}

/// Divide an `i128` by a nonzero `i128`, rounding toward zero.
fn div128(a: i128, b: i128) -> (r: i128)
    requires
        b != 0,
        a != i128::MIN,
    ensures
        r as int == tz_div(a as int, b as int),
{
    match a.checked_div(b) {
        Some(q) => q,
        None => {
            proof {
                lemma_tz_div_in_range(a as int, b as int);
            }
            0
        },
    }
}

/// The absolute value of an unbounded integer.
pub open spec fn abs_int(x: int) -> int {
    if x < 0 {
        -x
    } else {
        x
    }
}

/// The magnitude of a quotient never exceeds the magnitude of the dividend.
proof fn lemma_tz_div_in_range(a: int, b: int)
    requires
        b != 0,
    ensures
        -abs_int(a) <= tz_div(a, b) <= abs_int(a),
{
    if a != 0 {
        let ua: int = abs_int(a);
        let ub: int = abs_int(b);
        assert(0 <= ua / ub <= ua) by (nonlinear_arith)
            requires
                ua > 0,
                ub >= 1,
        ;
    }
}

/// Division toward zero is odd in the dividend.
pub proof fn lemma_tz_div_odd(a: int, b: int)
    ensures
        tz_div(-a, b) == -tz_div(a, b),
{
    if b != 0 && a != 0 {
        if a > 0 && b > 0 {
            assert(tz_div(-a, b) == ((-a * -1) / b) * -1);
            assert(-a * -1 == a);
        } else if a < 0 && b < 0 {
            assert(tz_div(-a, b) == (-a / (b * -1)) * -1);
            assert(tz_div(a, b) == (a * -1) / (b * -1));
            assert(-a == a * -1);
        } else if a < 0 {
            assert(tz_div(-a, b) == -a / b);
            assert(tz_div(a, b) == ((a * -1) / b) * -1);
            assert(-a == a * -1);
        } else {
            assert(tz_div(-a, b) == (-a * -1) / (b * -1));
            assert(tz_div(a, b) == (a / (b * -1)) * -1);
            assert(-a * -1 == a);
        }
    }
}

/// When the divisor is positive and divides the dividend exactly, division
/// toward zero agrees with Euclidean division.
pub proof fn lemma_tz_div_exact(a: int, b: int)
    requires
        b > 0,
        a % b == 0,
    ensures
        tz_div(a, b) == a / b,
        b * (a / b) == a,
{
    vstd::arithmetic::div_mod::lemma_fundamental_div_mod(a, b);
    let k: int = a / b;
    assert(a == b * k);
    if a < 0 {
        assert(a * -1 == b * (-k)) by (nonlinear_arith)
            requires
                a == b * k,
        ;
        vstd::arithmetic::div_mod::lemma_div_multiples_vanish(-k, b);
        assert((a * -1) / b == -k);
        assert(tz_div(a, b) == ((a * -1) / b) * -1);
    }
}

/// For a nonnegative dividend no larger than `c` times the positive divisor,
/// the quotient is at most `c`.
pub proof fn lemma_div_at_most(a: int, b: int, c: int)
    requires
        0 <= a,
        0 < b,
        0 <= c,
        a <= b * c,
    ensures
        0 <= a / b <= c,
{
    assert(0 <= a / b <= c) by (nonlinear_arith)
        requires
            0 <= a,
            0 < b,
            0 <= c,
            a <= b * c,
    ;
}

/// Division toward zero lands within one divisor of the exact quotient and
/// never overshoots the dividend's side of zero.
pub proof fn lemma_tz_div_near(a: int, b: int)
    requires
        0 < b,
    ensures
        a - b < b * tz_div(a, b),
        b * tz_div(a, b) < a + b,
        a >= 0 ==> b * tz_div(a, b) <= a,
        a <= 0 ==> b * tz_div(a, b) >= a,
{
    if a > 0 {
        vstd::arithmetic::div_mod::lemma_fundamental_div_mod(a, b);
        vstd::arithmetic::div_mod::lemma_mod_bound(a, b);
        assert(b * tz_div(a, b) == a - a % b);
    } else if a < 0 {
        let n: int = -a;
        vstd::arithmetic::div_mod::lemma_fundamental_div_mod(n, b);
        vstd::arithmetic::div_mod::lemma_mod_bound(n, b);
        assert(n == b * (n / b) + n % b);
        assert(a * -1 == n);
        assert(tz_div(a, b) == (n / b) * -1);
        assert(b * ((n / b) * -1) == -(b * (n / b))) by (nonlinear_arith);
        assert(b * tz_div(a, b) == -(n - n % b));
    } else {
        let q: int = tz_div(a, b);
        assert(q == 0);
        assert(b * q == 0) by (nonlinear_arith)
            requires
                q == 0,
        ;
    }
}

/// A dividend within `c` times the positive divisor, in either direction,
/// gives a quotient within `c` toward zero.
pub proof fn lemma_tz_div_bounded(a: int, b: int, c: int)
    requires
        0 < b,
        0 <= c,
        -(b * c) <= a <= b * c,
    ensures
        -c <= tz_div(a, b) <= c,
{
    if a > 0 {
        lemma_div_at_most(a, b, c);
    } else if a < 0 {
        assert(a * -1 == -a);
        lemma_div_at_most(-a, b, c);
    }
}

/// The product of two `i64` values stays well inside the `i128` range.
proof fn lemma_i64_mul_bounds(a: int, b: int)
    requires
        -9223372036854775808 <= a <= 9223372036854775807,
        -9223372036854775808 <= b <= 9223372036854775807,
    ensures
        -85070591730234615865843651857942052864 <= a * b
            <= 85070591730234615865843651857942052864,
{
    assert(-85070591730234615865843651857942052864 <= a * b
        <= 85070591730234615865843651857942052864) by (nonlinear_arith)
        requires
            -9223372036854775808 <= a <= 9223372036854775807,
            -9223372036854775808 <= b <= 9223372036854775807,
    ;
}

impl Scalar {
    pub open spec fn spec_zero() -> Scalar {
        Scalar { raw: 0 }
    }

    pub fn zero() -> (r: Scalar)
        ensures
            r == Self::spec_zero(),
    {
        Scalar { raw: 0 }
    }

    pub open spec fn spec_from_int(i: int) -> Scalar {
        Scalar { raw: sat64(i * SCALE) as i64 }
    }

    /// The scalar holding the whole number `i`, saturated at the type's range.
    pub fn from_int(i: i64) -> (r: Scalar)
        ensures
            r == Self::spec_from_int(i as int),
    {
        proof {
            lemma_i64_mul_bounds(i as int, SCALE as int);
        }
        let x: i128 = (i as i128) * (SCALE as i128);
        Scalar { raw: clamp64(x) }
    }

    pub open spec fn spec_from_micros(us: int) -> Scalar {
        Scalar { raw: sat64(tz_div(us * 65536, 1000000)) as i64 }
    }

    /// The scalar holding `us` microseconds as seconds.
    pub fn from_micros(us: u64) -> (r: Scalar)
        ensures
            r == Self::spec_from_micros(us as int),
    {
        proof {
            assert((us as int) * 65536 <= 1208925819614629174706176int) by (nonlinear_arith)
                requires
                    0 <= us <= 18446744073709551615int,
            ;
        }
        let n: i128 = (us as i128) * 65536;
        let q: i128 = div128(n, 1000000);
        Scalar { raw: clamp64(q) }
    }

    pub open spec fn spec_add(self, o: Scalar) -> Scalar {
        Scalar { raw: sat64(self.raw + o.raw) as i64 }
    }

    /// Saturating addition.
    #[verifier::when_used_as_spec(spec_add)]
    pub fn add(self, o: Scalar) -> (r: Scalar)
        ensures
            r == self.spec_add(o),
    {
        Scalar { raw: clamp64(self.raw as i128 + o.raw as i128) }
    }

    pub open spec fn spec_sub(self, o: Scalar) -> Scalar {
        Scalar { raw: sat64(self.raw - o.raw) as i64 }
    }

    /// Saturating subtraction.
    #[verifier::when_used_as_spec(spec_sub)]
    pub fn sub(self, o: Scalar) -> (r: Scalar)
        ensures
            r == self.spec_sub(o),
    {
        Scalar { raw: clamp64(self.raw as i128 - o.raw as i128) }
    }

    pub open spec fn spec_neg(self) -> Scalar {
        Scalar { raw: sat64(-self.raw) as i64 }
    }

    /// Saturating negation.
    #[verifier::when_used_as_spec(spec_neg)]
    pub fn neg(self) -> (r: Scalar)
        ensures
            r == self.spec_neg(),
    {
        if self.raw == i64::MIN {
            Scalar { raw: i64::MAX }
        } else {
            Scalar { raw: -self.raw }
        }
    }

    pub open spec fn spec_mul(self, o: Scalar) -> Scalar {
        Scalar { raw: sat64(tz_div(self.raw * o.raw, SCALE as int)) as i64 }
    }

    /// Fixed-point product, rounded toward zero and saturated.
    #[verifier::when_used_as_spec(spec_mul)]
    pub fn mul(self, o: Scalar) -> (r: Scalar)
        ensures
            r == self.spec_mul(o),
    {
        proof {
            lemma_i64_mul_bounds(self.raw as int, o.raw as int);
        }
        let p: i128 = (self.raw as i128) * (o.raw as i128);
        let q: i128 = div128(p, SCALE as i128);
        Scalar { raw: clamp64(q) }
    }

    pub open spec fn spec_div(self, o: Scalar) -> Scalar {
        if o.raw == 0 {
            Scalar { raw: 0 }
        } else {
            Scalar { raw: sat64(tz_div(self.raw * SCALE, o.raw as int)) as i64 }
        }
    }

    /// Fixed-point quotient, rounded toward zero and saturated; division by
    /// zero yields zero.
    #[verifier::when_used_as_spec(spec_div)]
    pub fn div(self, o: Scalar) -> (r: Scalar)
        ensures
            r == self.spec_div(o),
    {
        if o.raw == 0 {
            Scalar { raw: 0 }
        } else {
            proof {
                lemma_i64_mul_bounds(self.raw as int, SCALE as int);
            }
            let n: i128 = (self.raw as i128) * (SCALE as i128);
            let q: i128 = div128(n, o.raw as i128);
            Scalar { raw: clamp64(q) }
        }
    }

    pub open spec fn spec_min(self, o: Scalar) -> Scalar {
        if self.raw <= o.raw {
            self
        } else {
            o
        }
    }

    #[verifier::when_used_as_spec(spec_min)]
    pub fn min(self, o: Scalar) -> (r: Scalar)
        ensures
            r == self.spec_min(o),
    {
        if self.raw <= o.raw {
            self
        } else {
            o
        }
    }

    pub open spec fn spec_max(self, o: Scalar) -> Scalar {
        if self.raw >= o.raw {
            self
        } else {
            o
        }
    }

    #[verifier::when_used_as_spec(spec_max)]
    pub fn max(self, o: Scalar) -> (r: Scalar)
        ensures
            r == self.spec_max(o),
    {
        if self.raw >= o.raw {
            self
        } else {
            o
        }
    }

    pub open spec fn spec_abs(self) -> Scalar {
        if self.raw < 0 {
            self.spec_neg()
        } else {
            self
        }
    }

    /// Saturating absolute value.
    #[verifier::when_used_as_spec(spec_abs)]
    pub fn abs(self) -> (r: Scalar)
        ensures
            r == self.spec_abs(),
    {
        if self.raw < 0 {
            self.neg()
        } else {
            self
        }
    }

    pub open spec fn spec_trunc(self) -> Scalar {
        Scalar { raw: sat64(tz_div(self.raw as int, SCALE as int) * SCALE) as i64 }
    }

    /// Round toward zero to a whole number of units.
    #[verifier::when_used_as_spec(spec_trunc)]
    pub fn trunc(self) -> (r: Scalar)
        ensures
            r == self.spec_trunc(),
    {
        let q: i128 = div128(self.raw as i128, SCALE as i128);
        Scalar { raw: clamp64(q * (SCALE as i128)) }
    }
}

/// A two-dimensional fixed-point vector.
#[derive(Clone, Copy, Debug, PartialEq, Eq, Structural)]
pub struct Vec2 {
    pub x: Scalar,
    pub y: Scalar,
}

impl Vec2 {
    pub open spec fn spec_zero() -> Vec2 {
        Vec2 { x: Scalar::spec_zero(), y: Scalar::spec_zero() }
    }

    pub fn zero() -> (r: Vec2)
        ensures
            r == Self::spec_zero(),
    {
        Vec2 { x: Scalar::zero(), y: Scalar::zero() }
    }

    pub fn new(x: Scalar, y: Scalar) -> (r: Vec2)
        ensures
            r == (Vec2 { x, y }),
    {
        Vec2 { x, y }
    }

    pub open spec fn spec_add(self, o: Vec2) -> Vec2 {
        Vec2 { x: self.x.add(o.x), y: self.y.add(o.y) }
    }

    /// Componentwise saturating addition.
    #[verifier::when_used_as_spec(spec_add)]
    pub fn add(self, o: Vec2) -> (r: Vec2)
        ensures
            r == self.spec_add(o),
    {
        Vec2 { x: self.x.add(o.x), y: self.y.add(o.y) }
    }

    pub open spec fn spec_sub(self, o: Vec2) -> Vec2 {
        Vec2 { x: self.x.sub(o.x), y: self.y.sub(o.y) }
    }

    /// Componentwise saturating subtraction.
    #[verifier::when_used_as_spec(spec_sub)]
    pub fn sub(self, o: Vec2) -> (r: Vec2)
        ensures
            r == self.spec_sub(o),
    {
        Vec2 { x: self.x.sub(o.x), y: self.y.sub(o.y) }
    }

    pub open spec fn spec_neg(self) -> Vec2 {
        Vec2 { x: self.x.neg(), y: self.y.neg() }
    }

    /// Componentwise saturating negation.
    #[verifier::when_used_as_spec(spec_neg)]
    pub fn neg(self) -> (r: Vec2)
        ensures
            r == self.spec_neg(),
    {
        Vec2 { x: self.x.neg(), y: self.y.neg() }
    }

    pub open spec fn spec_scale(self, s: Scalar) -> Vec2 {
        Vec2 { x: self.x.mul(s), y: self.y.mul(s) }
    }

    /// Componentwise fixed-point scaling.
    #[verifier::when_used_as_spec(spec_scale)]
    pub fn scale(self, s: Scalar) -> (r: Vec2)
        ensures
            r == self.spec_scale(s),
    {
        Vec2 { x: self.x.mul(s), y: self.y.mul(s) }
    }
}

/// Whether `r` is the floor of the square root of `n`.
pub open spec fn is_sqrt_floor(n: int, r: int) -> bool {
    0 <= r && r * r <= n && n < (r + 1) * (r + 1)
}

/// The floor of the square root of a nonnegative integer.
pub open spec fn sqrt_floor(n: int) -> int {
    choose|r: int| is_sqrt_floor(n, r)
}

/// Every nonnegative integer has a floor square root.
pub proof fn lemma_sqrt_floor_exists(n: int)
    requires
        n >= 0,
    ensures
        is_sqrt_floor(n, sqrt_floor(n)),
    decreases n,
{
    if n == 0 {
        assert(is_sqrt_floor(0, 0));
    } else {
        lemma_sqrt_floor_exists(n - 1);
        let r: int = sqrt_floor(n - 1);
        if (r + 1) * (r + 1) <= n {
            assert(n < (r + 2) * (r + 2)) by (nonlinear_arith)
                requires
                    r >= 0,
                    n - 1 < (r + 1) * (r + 1),
            ;
            assert(is_sqrt_floor(n, r + 1));
        } else {
            assert(is_sqrt_floor(n, r));
        }
    }
}

/// The floor square root is unique.
pub proof fn lemma_sqrt_floor_unique(n: int, r: int)
    requires
        is_sqrt_floor(n, r),
    ensures
        r == sqrt_floor(n),
{
    let s: int = sqrt_floor(n);
    assert(n >= 0) by (nonlinear_arith)
        requires
            is_sqrt_floor(n, r),
    ;
    lemma_sqrt_floor_exists(n);
    assert(r == s) by (nonlinear_arith)
        requires
            is_sqrt_floor(n, r),
            is_sqrt_floor(n, s),
    ;
}

/// The floor square root of a `u128`, by bisection.
fn isqrt128(n: u128) -> (r: u64)
    ensures
        r as int == sqrt_floor(n as int),
{
    let mut lo: u128 = 0;
    let mut hi: u128 = 18446744073709551616;
    proof {
        assert((18446744073709551616int) * (18446744073709551616int) > n as int);
    }
    while lo + 1 < hi
        invariant
            0 <= lo < hi <= 18446744073709551616,
            (lo as int) * (lo as int) <= n as int,
            (n as int) < (hi as int) * (hi as int),
        decreases hi - lo,
    {
        let mid: u128 = lo + (hi - lo) / 2;
        proof {
            assert((mid as int) * (mid as int) < 340282366920938463463374607431768211455int)
                by (nonlinear_arith)
                requires
                    0 <= mid < 18446744073709551616int,
            ;
        }
        if mid * mid <= n {
            lo = mid;
        } else {
            hi = mid;
        }
    }
    proof {
        assert(is_sqrt_floor(n as int, lo as int));
        lemma_sqrt_floor_unique(n as int, lo as int);
    }
    lo as u64
}

/// A vector's magnitude is at least each coordinate's magnitude: the root
/// of the squared sum dominates each square's root, and saturation can only
/// pin the magnitude at the scalar ceiling, which still dominates. (The
/// range's low rim is excluded: its negation exceeds the ceiling.)
pub proof fn lemma_magnitude_dominates(v: Vec2)
    requires
        v.x.raw != i64::MIN,
        v.y.raw != i64::MIN,
    ensures
        Space2D::spec_magnitude(v).raw >= v.x.raw,
        Space2D::spec_magnitude(v).raw >= -v.x.raw,
        Space2D::spec_magnitude(v).raw >= v.y.raw,
        Space2D::spec_magnitude(v).raw >= -v.y.raw,
{
    let x: int = v.x.raw as int;
    let y: int = v.y.raw as int;
    let n: int = x * x + y * y;
    assert(x * x >= 0 && y * y >= 0) by (nonlinear_arith);
    lemma_sqrt_floor_exists(n);
    let ms: int = sqrt_floor(n);
    assert(-ms <= x <= ms && -ms <= y <= ms) by (nonlinear_arith)
        requires
            0 <= ms,
            n < (ms + 1) * (ms + 1),
            n == x * x + y * y,
            x * x >= 0,
            y * y >= 0,
    ;
}

impl Scalar {
    pub open spec fn spec_sqrt(self) -> Scalar {
        if self.raw <= 0 {
            Scalar::spec_zero()
        } else {
            Scalar { raw: sat64(sqrt_floor(self.raw * 65536)) as i64 }
        }
    }

    /// The square root of a nonnegative scalar, rounded down to the nearest
    /// representable value; nonpositive scalars map to zero.
    pub fn sqrt(self) -> (r: Scalar)
        ensures
            r == self.spec_sqrt(),
    {
        if self.raw <= 0 {
            Scalar::zero()
        } else {
            let n: u128 = (self.raw as u128) * 65536;
            let root: u64 = isqrt128(n);
            if root > i64::MAX as u64 {
                Scalar { raw: i64::MAX }
            } else {
                Scalar { raw: root as i64 }
            }
        }
    }
}

/// The smaller of two scalars.
pub fn at_most(a: Scalar, b: Scalar) -> (r: Scalar)
    ensures
        r == a.spec_min(b),
{
    a.min(b)
}

/// The larger of two scalars.
pub fn at_least(a: Scalar, b: Scalar) -> (r: Scalar)
    ensures
        r == a.spec_max(b),
{
    a.max(b)
}

/// Region widths at or below this raw value are treated as a single point:
/// the resolution floor that stops subdivision.
pub const EPSILON_RAW: i64 = 1;

/// Squared distances at or below this raw value (one squared unit) contribute
/// no gravity: the softening floor that suppresses self-interaction.
pub const MIN_GRAVITY_DISTANCE_SQUARED_RAW: i64 = 65536;

/// The two-dimensional instantiation of the space algebra: square regions
/// split into four quadrants about a pivot.
#[derive(Clone, Copy, Debug, Default, PartialEq, Eq, Structural)]
pub struct Space2D;

impl Space2D {
    pub open spec fn spec_magnitude_squared(v: Vec2) -> Scalar {
        v.x.mul(v.x).add(v.y.mul(v.y))
    }

    /// The squared length of a vector, in fixed-point scalar units.
    #[verifier::when_used_as_spec(spec_magnitude_squared)]
    pub fn magnitude_squared(v: Vec2) -> (r: Scalar)
        ensures
            r == Self::spec_magnitude_squared(v),
    {
        v.x.mul(v.x).add(v.y.mul(v.y))
    }

    pub open spec fn spec_magnitude(v: Vec2) -> Scalar {
        Scalar { raw: sat64(sqrt_floor(v.x.raw * v.x.raw + v.y.raw * v.y.raw)) as i64 }
    }

    /// The length of a vector: the floor square root of the exact sum of
    /// squared raw components, saturated into the scalar range.
    #[verifier::when_used_as_spec(spec_magnitude)]
    pub fn magnitude(v: Vec2) -> (r: Scalar)
        ensures
            r == Self::spec_magnitude(v),
    {
        proof {
            lemma_i64_mul_bounds(v.x.raw as int, v.x.raw as int);
            lemma_i64_mul_bounds(v.y.raw as int, v.y.raw as int);
            assert((v.x.raw as int) * (v.x.raw as int) >= 0) by (nonlinear_arith);
            assert((v.y.raw as int) * (v.y.raw as int) >= 0) by (nonlinear_arith);
        }
        let xx: i128 = (v.x.raw as i128) * (v.x.raw as i128);
        let yy: i128 = (v.y.raw as i128) * (v.y.raw as i128);
        let sum: u128 = (xx as u128) + (yy as u128);
        let root: u64 = isqrt128(sum);
        if root > i64::MAX as u64 {
            Scalar { raw: i64::MAX }
        } else {
            Scalar { raw: root as i64 }
        }
    }

    pub open spec fn spec_normalize(v: Vec2) -> Vec2 {
        let m = Self::spec_magnitude(v);
        if m.raw > 0 {
            Vec2 { x: v.x.div(m), y: v.y.div(m) }
        } else {
            Vec2::spec_zero()
        }
    }

    /// The unit vector in the direction of `v`; the zero vector normalizes to
    /// the zero vector.
    #[verifier::when_used_as_spec(spec_normalize)]
    pub fn normalize(v: Vec2) -> (r: Vec2)
        ensures
            r == Self::spec_normalize(v),
    {
        let m: Scalar = Self::magnitude(v);
        if m.raw > 0 {
            Vec2 { x: v.x.div(m), y: v.y.div(m) }
        } else {
            Vec2::zero()
        }
    }

    pub open spec fn spec_max_abs_dimension(v: Vec2) -> Scalar {
        v.x.abs().max(v.y.abs())
    }

    /// The largest coordinate magnitude of a vector.
    #[verifier::when_used_as_spec(spec_max_abs_dimension)]
    pub fn max_abs_dimension(v: Vec2) -> (r: Scalar)
        ensures
            r == Self::spec_max_abs_dimension(v),
    {
        v.x.abs().max(v.y.abs())
    }

    pub open spec fn spec_subdivision_index(pivot: Vec2, point: Vec2) -> int {
        if point.x.raw >= pivot.x.raw {
            if point.y.raw >= pivot.y.raw {
                0
            } else {
                1
            }
        } else {
            if point.y.raw >= pivot.y.raw {
                2
            } else {
                3
            }
        }
    }

    /// Which quadrant about `pivot` contains `point`; coordinates equal to
    /// the pivot's route toward the quadrant of larger coordinates.
    pub fn subdivision_index(pivot: Vec2, point: Vec2) -> (i: usize)
        ensures
            i < 4,
            i as int == Self::spec_subdivision_index(pivot, point),
    {
        match (point.x.raw >= pivot.x.raw, point.y.raw >= pivot.y.raw) {
            (true, true) => 0,
            (true, false) => 1,
            (false, true) => 2,
            (false, false) => 3,
        }
    }

    pub open spec fn spec_subtree_width_pivot(i: int, width: Scalar, pivot: Vec2) -> (Scalar, Vec2) {
        let half = width.div(Scalar::spec_from_int(2));
        let quarter = half.div(Scalar::spec_from_int(2));
        let offset = if i == 0 {
            Vec2 { x: quarter, y: quarter }
        } else if i == 1 {
            Vec2 { x: quarter, y: quarter.neg() }
        } else if i == 2 {
            Vec2 { x: quarter.neg(), y: quarter }
        } else {
            Vec2 { x: quarter.neg(), y: quarter.neg() }
        };
        (half, pivot.add(offset))
    }

    /// The width and pivot of the quadrant with index `i` inside a region of
    /// the given width about the given pivot: the quadrant's width is half
    /// the region's, and its pivot is the midpoint of that halved region —
    /// a quarter of the parent width from the parent pivot along each axis.
    pub fn subtree_width_pivot(i: usize, width: Scalar, pivot: Vec2) -> (r: (Scalar, Vec2))
        requires
            i < 4,
        ensures
            r == Self::spec_subtree_width_pivot(i as int, width, pivot),
    {
        let half: Scalar = width.div(Scalar::from_int(2));
        let quarter: Scalar = half.div(Scalar::from_int(2));
        let offset: Vec2 = if i == 0 {
            Vec2 { x: quarter, y: quarter }
        } else if i == 1 {
            Vec2 { x: quarter, y: quarter.neg() }
        } else if i == 2 {
            Vec2 { x: quarter.neg(), y: quarter }
        } else {
            Vec2 { x: quarter.neg(), y: quarter.neg() }
        };
        (half, pivot.add(offset))
    }
}

} // verus!
