//! Three-component fixed-point vectors: points and directions in space.
use vstd::prelude::*;
use vstd::string::StringExecFns;
use crate::text::{fixed_text, push_fixed};
use crate::arith::{floor_div, isqrt, lemma_root_le, lemma_scale_div_range, root, SCALE};

verus! {

/// Largest magnitude of a raw component for which products stay exact.
pub const COORD_LIMIT: i64 = 0x10_0000_0000;

/// `v` is representable as a raw `i64` component.
pub open spec fn fits(v: int) -> bool {
    i64::MIN <= v <= i64::MAX
}

/// `e / SCALE`, rounded toward zero.
pub open spec fn trunc_scale(e: int) -> int {
    if e >= 0 {
        e / (SCALE as int)
    } else {
        -((-e) / (SCALE as int))
    }
}

/// Fixed-point product of two raw values, rounded down.
pub open spec fn fx_mul(a: int, b: int) -> int {
    (a * b) / (SCALE as int)
}

/// Fixed-point quotient `k / c` of two raw values, rounded down (`c != 0`).
pub open spec fn fx_div(k: int, c: int) -> int {
    if c > 0 {
        (k * SCALE) / c
    } else {
        (-k * SCALE) / (-c)
    }
}

/// Component `c` of a vector whose squared raw length is `q`, scaled to unit
/// length: `c * SCALE / sqrt(q)` truncated toward zero.
pub open spec fn unit_part(c: int, q: int) -> int {
    if c >= 0 {
        root((c * c * SCALE * SCALE) / q)
    } else {
        -root((c * c * SCALE * SCALE) / q)
    }
}

/// Raised when a zero vector would have to be scaled to unit length.
#[derive(Clone, Copy, Debug, PartialEq, Eq, Structural)]
pub enum VecError {
    DegenerateVector,
}

/// A point or a direction; each component counts `1 / SCALE` steps.
#[derive(Clone, Copy, Debug, PartialEq, Eq, Structural)]
pub struct Vec3 {
    pub x: i64,
    pub y: i64,
    pub z: i64,
}

impl Vec3 {
    /// Every component lies within `COORD_LIMIT`.
    pub open spec fn in_range(&self) -> bool {
        -COORD_LIMIT <= self.x <= COORD_LIMIT && -COORD_LIMIT <= self.y <= COORD_LIMIT
            && -COORD_LIMIT <= self.z <= COORD_LIMIT
    }

    /// Sum of the squared raw components.
    pub open spec fn sq_raw(&self) -> int {
        self.x * self.x + self.y * self.y + self.z * self.z
    }

    /// Raw dot product, before rescaling.
    pub open spec fn dot_raw(a: Vec3, b: Vec3) -> int {
        a.x * b.x + a.y * b.y + a.z * b.z
    }

    /// Componentwise sum.
    pub open spec fn sum(a: Vec3, b: Vec3) -> Vec3 {
        Vec3 { x: (a.x + b.x) as i64, y: (a.y + b.y) as i64, z: (a.z + b.z) as i64 }
    }

    /// Both vectors add up without leaving `i64`.
    pub open spec fn sum_fits(a: Vec3, b: Vec3) -> bool {
        fits(a.x + b.x) && fits(a.y + b.y) && fits(a.z + b.z)
    }

    /// Right-handed cross product, each component rounded toward zero.
    pub open spec fn cross_spec(a: Vec3, b: Vec3) -> Vec3 {
        Vec3 {
            x: trunc_scale(a.y * b.z - a.z * b.y) as i64,
            y: trunc_scale(a.z * b.x - a.x * b.z) as i64,
            z: trunc_scale(a.x * b.y - a.y * b.x) as i64,
        }
    }

    /// The vector scaled to unit length, components truncated toward zero.
    pub open spec fn unit_spec(&self) -> Vec3 {
        Vec3 {
            x: unit_part(self.x as int, self.sq_raw()) as i64,
            y: unit_part(self.y as int, self.sq_raw()) as i64,
            z: unit_part(self.z as int, self.sq_raw()) as i64,
        }
    }

    pub open spec fn is_zero_spec(&self) -> bool {
        self.x == 0 && self.y == 0 && self.z == 0
    }

    /// A vector from three raw components.
    pub fn from(x: i64, y: i64, z: i64) -> (r: Vec3)
        ensures
            r.x == x && r.y == y && r.z == z,
    {
        Vec3 { x, y, z }
    }

    /// A vector from three whole numbers of units.
    pub fn from_i32(x: i32, y: i32, z: i32) -> (r: Vec3)
        ensures
            r.x == x * SCALE && r.y == y * SCALE && r.z == z * SCALE,
    {
        Vec3 { x: x as i64 * SCALE, y: y as i64 * SCALE, z: z as i64 * SCALE }
    }

    /// Takes the first three values in order; missing ones are zero, extra
    /// ones are ignored.
    pub fn from_iter(values: &[i64]) -> (r: Vec3)
        ensures
            r.x == (if values@.len() > 0 { values@[0] } else { 0 }),
            r.y == (if values@.len() > 1 { values@[1] } else { 0 }),
            r.z == (if values@.len() > 2 { values@[2] } else { 0 }),
    {
        let mut x: i64 = 0;
        let mut y: i64 = 0;
        let mut z: i64 = 0;
        let mut i: usize = 0;
        while i < values.len() && i < 3
            invariant
                i <= values@.len(),
                i <= 3,
                x == (if i > 0 { values@[0] } else { 0 }),
                y == (if i > 1 { values@[1] } else { 0 }),
                z == (if i > 2 { values@[2] } else { 0 }),
            decreases 3 - i,
        {
            if i == 0 {
                x = values[i];
            } else if i == 1 {
                y = values[i];
            } else {
                z = values[i];
            }
            i = i + 1;
        }
        Vec3 { x, y, z }
    }

    /// The origin.
    pub fn zero() -> (r: Vec3)
        ensures
            r.x == 0 && r.y == 0 && r.z == 0,
    {
        Vec3 { x: 0, y: 0, z: 0 }
    }

    /// One unit along every axis.
    pub fn one() -> (r: Vec3)
        ensures
            r.x == SCALE && r.y == SCALE && r.z == SCALE,
    {
        Vec3 { x: SCALE, y: SCALE, z: SCALE }
    }

    pub fn x(&self) -> (r: i64)
        ensures
            r == self.x,
    {
        self.x
    }

    pub fn y(&self) -> (r: i64)
        ensures
            r == self.y,
    {
        self.y
    }

    pub fn z(&self) -> (r: i64)
        ensures
            r == self.z,
    {
        self.z
    }

    pub fn is_zero(&self) -> (r: bool)
        ensures
            r == self.is_zero_spec(),
    {
        self.x == 0 && self.y == 0 && self.z == 0
    }

    /// The three components as exact decimals separated by single spaces.
    pub fn to_string(&self) -> (r: String)
        ensures
            r@ == fixed_text(self.x as int) + seq![' '] + fixed_text(self.y as int) + seq![' ']
                + fixed_text(self.z as int),
    {
        let mut out = String::new();
        push_fixed(&mut out, self.x);
        proof { reveal_strlit(" "); }
        out.append(" ");
        push_fixed(&mut out, self.y);
        out.append(" ");
        push_fixed(&mut out, self.z);
        assert(out@ =~= fixed_text(self.x as int) + seq![' '] + fixed_text(self.y as int) + seq![' ']
            + fixed_text(self.z as int));
        out
    }

    /// Componentwise sum.
    pub fn add(self, rhs: Vec3) -> (r: Vec3)
        requires
            Vec3::sum_fits(self, rhs),
        ensures
            r.x == self.x + rhs.x && r.y == self.y + rhs.y && r.z == self.z + rhs.z,
            r == Vec3::sum(self, rhs),
    {
        Vec3 { x: self.x + rhs.x, y: self.y + rhs.y, z: self.z + rhs.z }
    }

    /// Componentwise difference.
    pub fn sub(self, rhs: Vec3) -> (r: Vec3)
        requires
            fits(self.x - rhs.x) && fits(self.y - rhs.y) && fits(self.z - rhs.z),
        ensures
            r.x == self.x - rhs.x && r.y == self.y - rhs.y && r.z == self.z - rhs.z,
    {
        Vec3 { x: self.x - rhs.x, y: self.y - rhs.y, z: self.z - rhs.z }
    }

    /// Componentwise negation.
    pub fn neg(self) -> (r: Vec3)
        requires
            fits(-self.x) && fits(-self.y) && fits(-self.z),
        ensures
            r.x == -self.x && r.y == -self.y && r.z == -self.z,
    {
        Vec3 { x: -self.x, y: -self.y, z: -self.z }
    }

    /// Adds the scalar `k` to every component.
    pub fn offset(self, k: i64) -> (r: Vec3)
        requires
            fits(self.x + k) && fits(self.y + k) && fits(self.z + k),
        ensures
            r.x == self.x + k && r.y == self.y + k && r.z == self.z + k,
    {
        Vec3 { x: self.x + k, y: self.y + k, z: self.z + k }
    }

    /// Scales every component by the fixed-point scalar `k`, rounding down.
    pub fn mul(k: i64, v: Vec3) -> (r: Vec3)
        requires
            fits(fx_mul(k as int, v.x as int)) && fits(fx_mul(k as int, v.y as int)) && fits(
                fx_mul(k as int, v.z as int),
            ),
        ensures
            r.x == fx_mul(k as int, v.x as int),
            r.y == fx_mul(k as int, v.y as int),
            r.z == fx_mul(k as int, v.z as int),
    {
        Vec3 { x: Self::mul_part(k, v.x), y: Self::mul_part(k, v.y), z: Self::mul_part(k, v.z) }
    }

    fn mul_part(k: i64, c: i64) -> (r: i64)
        requires
            fits(fx_mul(k as int, c as int)),
        ensures
            r == fx_mul(k as int, c as int),
    {
        assert(i64::MIN * i64::MIN >= k * c >= i64::MIN * i64::MAX) by (nonlinear_arith)
            requires
                i64::MIN <= k <= i64::MAX,
                i64::MIN <= c <= i64::MAX,
        ;
        floor_div(k as i128 * c as i128, SCALE as i128) as i64
    }

    /// Divides the scalar `k` by every component: `k / c` for each component
    /// `c`, rounded down. `None` when a component is zero: unlike floating
    /// point, a fixed-point value has no infinity to stand for `k / 0`, so this
    /// one operation is partial.
    pub fn div(k: i64, v: Vec3) -> (r: Option<Vec3>)
        requires
            v.x != 0 ==> fits(fx_div(k as int, v.x as int)),
            v.y != 0 ==> fits(fx_div(k as int, v.y as int)),
            v.z != 0 ==> fits(fx_div(k as int, v.z as int)),
        ensures
            r is None <==> (v.x == 0 || v.y == 0 || v.z == 0),
            r matches Some(w) ==> w.x == fx_div(k as int, v.x as int) && w.y == fx_div(
                k as int,
                v.y as int,
            ) && w.z == fx_div(k as int, v.z as int),
    {
        if v.x == 0 || v.y == 0 || v.z == 0 {
            None
        } else {
            Some(Vec3 { x: Self::div_part(k, v.x), y: Self::div_part(k, v.y), z: Self::div_part(k, v.z) })
        }
    }

    fn div_part(k: i64, c: i64) -> (r: i64)
        requires
            c != 0,
            fits(fx_div(k as int, c as int)),
        ensures
            r == fx_div(k as int, c as int),
    {
        assert(-0x8_0000_0000_0000_0000_0000 <= k * SCALE <= 0x8_0000_0000_0000_0000_0000) by (nonlinear_arith)
            requires
                i64::MIN <= k <= i64::MAX,
                SCALE == 0x10_0000,
        ;
        let n: i128 = k as i128 * SCALE as i128;
        if c > 0 {
            floor_div(n, c as i128) as i64
        } else {
            floor_div(-n, -(c as i128)) as i64
        }
    }

    /// Sum of the squared components, as a fixed-point value rounded down.
    pub fn square_len(&self) -> (r: i64)
        requires
            self.in_range(),
        ensures
            r == self.sq_raw() / (SCALE as int),
    {
        Self::dot_product(*self, *self)
    }

    /// Length, rounded down: the integer square root of the raw squared length.
    pub fn len(&self) -> (r: i64)
        requires
            self.in_range(),
        ensures
            r == root(self.sq_raw()),
    {
        let q: u128 = self.sq_raw_exec();
        let r: u64 = isqrt(q);
        proof { lemma_root_le(r as int, q as int, 2 * COORD_LIMIT); }
        r as i64
    }

    fn sq_raw_exec(&self) -> (r: u128)
        requires
            self.in_range(),
        ensures
            r == self.sq_raw(),
            r <= 3 * COORD_LIMIT * COORD_LIMIT,
    {
        let x: i128 = self.x as i128;
        let y: i128 = self.y as i128;
        let z: i128 = self.z as i128;
        proof {
            lemma_square_bound(x as int);
            lemma_square_bound(y as int);
            lemma_square_bound(z as int);
        }
        (x * x + y * y + z * z) as u128
    }

    /// The vector scaled to unit length, each component truncated toward
    /// zero. Fails on the zero vector.
    pub fn to_unit(&self) -> (r: Result<Vec3, VecError>)
        requires
            self.in_range(),
        ensures
            r is Err <==> self.is_zero_spec(),
            r matches Ok(u) ==> u.x == unit_part(self.x as int, self.sq_raw()) && u.y == unit_part(
                self.y as int,
                self.sq_raw(),
            ) && u.z == unit_part(self.z as int, self.sq_raw()),
            r matches Ok(u) ==> u == self.unit_spec(),
    {
        if self.is_zero() {
            return Err(VecError::DegenerateVector);
        }
        let q: u128 = self.sq_raw_exec();
        proof {
            lemma_square_bound(self.x as int);
            lemma_square_bound(self.y as int);
            lemma_square_bound(self.z as int);
        }
        assert(q > 0) by (nonlinear_arith)
            requires
                q == self.x * self.x + self.y * self.y + self.z * self.z,
                !(self.x == 0 && self.y == 0 && self.z == 0),
        ;
        Ok(Vec3 {
            x: Self::unit_part_exec(self.x, q),
            y: Self::unit_part_exec(self.y, q),
            z: Self::unit_part_exec(self.z, q),
        })
    }

    fn unit_part_exec(c: i64, q: u128) -> (r: i64)
        requires
            -COORD_LIMIT <= c <= COORD_LIMIT,
            c * c <= q,
            q > 0,
        ensures
            r == unit_part(c as int, q as int),
    {
        let m: u128 = if c >= 0 { c as u128 } else { (-c) as u128 };
        assert(m * m == c * c) by (nonlinear_arith)
            requires
                m == c || m == -c,
        ;
        assert(m * m * (SCALE as u128) * (SCALE as u128) <= COORD_LIMIT * COORD_LIMIT * SCALE * SCALE) by (nonlinear_arith)
            requires
                0 <= m <= COORD_LIMIT,
        ;
        let num: u128 = m * m * (SCALE as u128) * (SCALE as u128);
        let quot: u128 = num / q;
        assert(quot <= num) by (nonlinear_arith)
            requires
                quot == num / q,
                q > 0,
                num >= 0,
        ;
        assert(c * c * SCALE * SCALE == num) by (nonlinear_arith)
            requires
                m * m == c * c,
                num == m * m * SCALE * SCALE,
        ;
        let s: u64 = isqrt(quot);
        proof { lemma_root_le(s as int, quot as int, COORD_LIMIT * SCALE); }
        if c >= 0 {
            s as i64
        } else {
            -(s as i64)
        }
    }

    /// Fixed-point dot product, rounded down.
    pub fn dot_product(a: Vec3, b: Vec3) -> (r: i64)
        requires
            a.in_range(),
            b.in_range(),
        ensures
            r == Vec3::dot_raw(a, b) / (SCALE as int),
    {
        proof {
            lemma_product_bound(a.x as int, b.x as int);
            lemma_product_bound(a.y as int, b.y as int);
            lemma_product_bound(a.z as int, b.z as int);
        }
        let s: i128 = a.x as i128 * b.x as i128 + a.y as i128 * b.y as i128 + a.z as i128 * b.z as i128;
        let r: i128 = floor_div(s, SCALE as i128);
        proof { lemma_div_bound(s as int); }
        r as i64
    }

    /// Right-handed cross product, each component rounded toward zero, so
    /// that swapping the factors negates the result exactly.
    pub fn cross_product(a: Vec3, b: Vec3) -> (r: Vec3)
        requires
            a.in_range(),
            b.in_range(),
        ensures
            r.x == trunc_scale(a.y * b.z - a.z * b.y),
            r.y == trunc_scale(a.z * b.x - a.x * b.z),
            r.z == trunc_scale(a.x * b.y - a.y * b.x),
            r == Vec3::cross_spec(a, b),
    {
        Vec3 {
            x: Self::cross_part(a.y, b.z, a.z, b.y),
            y: Self::cross_part(a.z, b.x, a.x, b.z),
            z: Self::cross_part(a.x, b.y, a.y, b.x),
        }
    }

    fn cross_part(p: i64, q: i64, s: i64, t: i64) -> (r: i64)
        requires
            -COORD_LIMIT <= p <= COORD_LIMIT,
            -COORD_LIMIT <= q <= COORD_LIMIT,
            -COORD_LIMIT <= s <= COORD_LIMIT,
            -COORD_LIMIT <= t <= COORD_LIMIT,
        ensures
            r == trunc_scale(p * q - s * t),
    {
        proof {
            lemma_product_bound(p as int, q as int);
            lemma_product_bound(s as int, t as int);
        }
        let d: i128 = p as i128 * q as i128 - s as i128 * t as i128;
        proof {
            lemma_div_bound(d as int);
            lemma_div_bound(-d);
        }
        if d >= 0 {
            (d / SCALE as i128) as i64
        } else {
            -((-d) / SCALE as i128) as i64
        }
    }
}

/// Each squared component is part of the squared length, which is positive
/// for a nonzero vector.
pub proof fn lemma_sq_raw_parts(v: Vec3)
    ensures
        v.x * v.x <= v.sq_raw(),
        v.y * v.y <= v.sq_raw(),
        v.z * v.z <= v.sq_raw(),
        !v.is_zero_spec() ==> v.sq_raw() > 0,
{
    assert(v.x * v.x >= 0 && v.y * v.y >= 0 && v.z * v.z >= 0) by (nonlinear_arith);
    if v.x != 0 {
        assert(v.x * v.x > 0) by (nonlinear_arith)
            requires
                v.x != 0,
        ;
    }
    if v.y != 0 {
        assert(v.y * v.y > 0) by (nonlinear_arith)
            requires
                v.y != 0,
        ;
    }
    if v.z != 0 {
        assert(v.z * v.z > 0) by (nonlinear_arith)
            requires
                v.z != 0,
        ;
    }
}

proof fn lemma_square_bound(c: int)
    requires
        -COORD_LIMIT <= c <= COORD_LIMIT,
    ensures
        0 <= c * c <= COORD_LIMIT * COORD_LIMIT,
        c != 0 ==> c * c > 0,
{
    if c != 0 {
        assert(c * c > 0) by (nonlinear_arith)
            requires
                c != 0,
        ;
    }
    assert(0 <= c * c <= COORD_LIMIT * COORD_LIMIT) by (nonlinear_arith)
        requires
            -COORD_LIMIT <= c <= COORD_LIMIT,
    ;
}

proof fn lemma_product_bound(a: int, b: int)
    requires
        -COORD_LIMIT <= a <= COORD_LIMIT,
        -COORD_LIMIT <= b <= COORD_LIMIT,
    ensures
        -COORD_LIMIT * COORD_LIMIT <= a * b <= COORD_LIMIT * COORD_LIMIT,
{
    assert(-COORD_LIMIT * COORD_LIMIT <= a * b <= COORD_LIMIT * COORD_LIMIT) by (nonlinear_arith)
        requires
            -COORD_LIMIT <= a <= COORD_LIMIT,
            -COORD_LIMIT <= b <= COORD_LIMIT,
    ;
}

/// Rescaling a sum of at most three coordinate products lands in `i64`.
proof fn lemma_div_bound(s: int)
    requires
        -3 * COORD_LIMIT * COORD_LIMIT <= s <= 3 * COORD_LIMIT * COORD_LIMIT,
    ensures
        fits(s / (SCALE as int)),
{
    lemma_scale_div_range(s, -0x30_0000_0000_0000, 0x30_0000_0000_0000);
}

} // verus!
