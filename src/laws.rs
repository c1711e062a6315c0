//! Algebraic facts about vectors and rays, proved over the models that the
//! operations' contracts use.
use vstd::prelude::*;
use vstd::arithmetic::div_mod::{lemma_fundamental_div_mod, lemma_mod_bound};
use crate::arith::{is_isqrt, lemma_root, root, SCALE};
use crate::ray::Ray;
use crate::sphere::{discriminant, hit_spec, oc_of, quad_a, quad_b, Sphere};
use crate::vec3::{fits, fx_mul, trunc_scale, unit_part, Vec3, COORD_LIMIT};

verus! {

/// Vector addition is commutative.
pub proof fn lemma_add_commutes(a: Vec3, b: Vec3)
    ensures
        Vec3::sum(a, b) == Vec3::sum(b, a),
{
}

/// The dot product is symmetric.
pub proof fn lemma_dot_symmetric(a: Vec3, b: Vec3)
    ensures
        Vec3::dot_raw(a, b) / (SCALE as int) == Vec3::dot_raw(b, a) / (SCALE as int),
{
    assert(Vec3::dot_raw(a, b) == Vec3::dot_raw(b, a)) by (nonlinear_arith);
}

/// The squared length and the square of the length agree up to rounding:
/// with `l = len(a)` and `q = square_len(a)`, `l * l` is below `(q + 1)` in
/// fixed-point steps and `(l + 1) * (l + 1)` above `q`.
pub proof fn lemma_len_squared(a: Vec3)
    ensures
        root(a.sq_raw()) * root(a.sq_raw()) < (a.sq_raw() / (SCALE as int) + 1) * SCALE,
        (a.sq_raw() / (SCALE as int)) * SCALE < (root(a.sq_raw()) + 1) * (root(a.sq_raw()) + 1),
{
    let q = a.sq_raw();
    crate::vec3::lemma_sq_raw_parts(a);
    lemma_root(q);
    lemma_fundamental_div_mod(q, SCALE as int);
    lemma_mod_bound(q, SCALE as int);
}

/// Magnitude of an integer.
pub open spec fn mag(v: int) -> int {
    if v >= 0 {
        v
    } else {
        -v
    }
}

/// Sum of the magnitudes of the raw components.
pub open spec fn l1(v: Vec3) -> int {
    mag(v.x as int) + mag(v.y as int) + mag(v.z as int)
}

/// Rounding `e / SCALE` toward zero lands within one step of it.
proof fn lemma_trunc_close(e: int)
    ensures
        -1048575 <= 1048576 * trunc_scale(e) - e <= 1048575,
{
    if e >= 0 {
        lemma_fundamental_div_mod(e, 1048576);
        lemma_mod_bound(e, 1048576);
    } else {
        lemma_fundamental_div_mod(-e, 1048576);
        lemma_mod_bound(-e, 1048576);
    }
}

/// Moving `e` to a multiple `SCALE * c` less than one step away changes
/// `e * w` by less than `SCALE` steps of `|w|`.
proof fn lemma_round_weight(e: int, c: int, w: int)
    requires
        -1048575 <= 1048576 * c - e <= 1048575,
    ensures
        -1048575 * mag(w) <= 1048576 * (c * w) - e * w <= 1048575 * mag(w),
{
    let r = 1048576 * c - e;
    assert(-1048575 * mag(w) <= 1048576 * (c * w) - e * w <= 1048575 * mag(w)) by (nonlinear_arith)
        requires
            r == 1048576 * c - e,
            -1048575 <= r <= 1048575,
            mag(w) == w || mag(w) == -w,
            mag(w) >= 0,
    ;
}

/// The cross product is orthogonal to both factors: exactly before
/// rounding; after rounding, its raw dot product with either factor is at
/// most that factor's summed raw component magnitudes, so `dot` of the two
/// is within `1 + l1 / SCALE` steps of zero.
pub proof fn lemma_cross_orthogonal(a: Vec3, b: Vec3)
    requires
        a.in_range(),
        b.in_range(),
    ensures
        (a.y * b.z - a.z * b.y) * a.x + (a.z * b.x - a.x * b.z) * a.y + (a.x * b.y - a.y * b.x) * a.z == 0,
        (a.y * b.z - a.z * b.y) * b.x + (a.z * b.x - a.x * b.z) * b.y + (a.x * b.y - a.y * b.x) * b.z == 0,
        -l1(a) <= Vec3::dot_raw(Vec3::cross_spec(a, b), a) <= l1(a),
        -l1(b) <= Vec3::dot_raw(Vec3::cross_spec(a, b), b) <= l1(b),
{
    let ex = a.y * b.z - a.z * b.y;
    let ey = a.z * b.x - a.x * b.z;
    let ez = a.x * b.y - a.y * b.x;
    assert(ex * a.x + ey * a.y + ez * a.z == 0) by (nonlinear_arith)
        requires
            ex == a.y * b.z - a.z * b.y,
            ey == a.z * b.x - a.x * b.z,
            ez == a.x * b.y - a.y * b.x,
    ;
    assert(ex * b.x + ey * b.y + ez * b.z == 0) by (nonlinear_arith)
        requires
            ex == a.y * b.z - a.z * b.y,
            ey == a.z * b.x - a.x * b.z,
            ez == a.x * b.y - a.y * b.x,
    ;
    lemma_cross_fits(a, b);
    let c = Vec3::cross_spec(a, b);
    let cx = trunc_scale(ex);
    let cy = trunc_scale(ey);
    let cz = trunc_scale(ez);
    assert(c.x == cx && c.y == cy && c.z == cz);
    lemma_trunc_close(ex);
    lemma_trunc_close(ey);
    lemma_trunc_close(ez);
    lemma_round_weight(ex, cx, a.x as int);
    lemma_round_weight(ey, cy, a.y as int);
    lemma_round_weight(ez, cz, a.z as int);
    lemma_round_weight(ex, cx, b.x as int);
    lemma_round_weight(ey, cy, b.y as int);
    lemma_round_weight(ez, cz, b.z as int);
    let da = cx * a.x + cy * a.y + cz * a.z;
    let db = cx * b.x + cy * b.y + cz * b.z;
    assert(1048576 * da == 1048576 * (cx * a.x) + 1048576 * (cy * a.y) + 1048576 * (cz * a.z)) by (nonlinear_arith)
        requires
            da == cx * a.x + cy * a.y + cz * a.z,
    ;
    assert(1048576 * db == 1048576 * (cx * b.x) + 1048576 * (cy * b.y) + 1048576 * (cz * b.z)) by (nonlinear_arith)
        requires
            db == cx * b.x + cy * b.y + cz * b.z,
    ;
    lemma_scaled_le(da, l1(a));
    lemma_scaled_le(db, l1(b));
}

/// For vectors in range the rounded cross components fit in `i64`.
proof fn lemma_cross_fits(a: Vec3, b: Vec3)
    requires
        a.in_range(),
        b.in_range(),
    ensures
        fits(trunc_scale(a.y * b.z - a.z * b.y)),
        fits(trunc_scale(a.z * b.x - a.x * b.z)),
        fits(trunc_scale(a.x * b.y - a.y * b.x)),
{
    lemma_part_fits(a.y as int, b.z as int, a.z as int, b.y as int);
    lemma_part_fits(a.z as int, b.x as int, a.x as int, b.z as int);
    lemma_part_fits(a.x as int, b.y as int, a.y as int, b.x as int);
}

proof fn lemma_part_fits(p: int, q: int, s: int, t: int)
    requires
        -COORD_LIMIT <= p <= COORD_LIMIT,
        -COORD_LIMIT <= q <= COORD_LIMIT,
        -COORD_LIMIT <= s <= COORD_LIMIT,
        -COORD_LIMIT <= t <= COORD_LIMIT,
    ensures
        fits(trunc_scale(p * q - s * t)),
{
    crate::arith::lemma_mul_abs_le(p, q, COORD_LIMIT as int, COORD_LIMIT as int);
    crate::arith::lemma_mul_abs_le(s, t, COORD_LIMIT as int, COORD_LIMIT as int);
    let e = p * q - s * t;
    lemma_trunc_close(e);
}

/// Swapping the factors of the cross product negates it exactly.
pub proof fn lemma_cross_antisymmetric(a: Vec3, b: Vec3)
    requires
        a.in_range(),
        b.in_range(),
    ensures
        Vec3::cross_spec(a, b).x == -Vec3::cross_spec(b, a).x,
        Vec3::cross_spec(a, b).y == -Vec3::cross_spec(b, a).y,
        Vec3::cross_spec(a, b).z == -Vec3::cross_spec(b, a).z,
{
    lemma_cross_fits(a, b);
    lemma_cross_fits(b, a);
    assert(b.y * a.z - b.z * a.y == -(a.y * b.z - a.z * b.y)) by (nonlinear_arith);
    assert(b.z * a.x - b.x * a.z == -(a.z * b.x - a.x * b.z)) by (nonlinear_arith);
    assert(b.x * a.y - b.y * a.x == -(a.x * b.y - a.y * b.x)) by (nonlinear_arith);
}

/// `|SCALE * d| <= (SCALE - 1) * m` bounds `|d|` by `m`.
proof fn lemma_scaled_le(d: int, m: int)
    requires
        m >= 0,
        -1048575 * m <= 1048576 * d <= 1048575 * m,
    ensures
        -m <= d <= m,
{
}

/// `point_at(0)` is the origin; `point_at(1)` is origin plus direction.
pub proof fn lemma_point_at_ends(ray: Ray)
    ensures
        ray.point_at_spec(0) == ray.origin,
        Vec3::sum_fits(ray.origin, ray.direction) ==> ray.point_at_spec(SCALE as int) == Vec3::sum(
            ray.origin,
            ray.direction,
        ),
{
    assert(fx_mul(0, ray.direction.x as int) == 0);
    assert(fx_mul(0, ray.direction.y as int) == 0);
    assert(fx_mul(0, ray.direction.z as int) == 0);
    vstd::arithmetic::div_mod::lemma_div_multiples_vanish(ray.direction.x as int, SCALE as int);
    vstd::arithmetic::div_mod::lemma_div_multiples_vanish(ray.direction.y as int, SCALE as int);
    vstd::arithmetic::div_mod::lemma_div_multiples_vanish(ray.direction.z as int, SCALE as int);
}

/// One unit component `m = |unit_part(c, q)|` satisfies
/// `m^2 * q <= c^2 * SCALE^2 < (m + 1)^2 * q`.
proof fn lemma_unit_part_sq(c: int, q: int)
    requires
        q > 0,
        c * c <= q,
    ensures
        mag(unit_part(c, q)) * mag(unit_part(c, q)) * q <= c * c * SCALE * SCALE,
        c * c * SCALE * SCALE < (mag(unit_part(c, q)) + 1) * (mag(unit_part(c, q)) + 1) * q,
{
    let n = c * c * SCALE * SCALE;
    assert(n >= 0) by (nonlinear_arith)
        requires
            n == c * c * SCALE * SCALE,
    ;
    let k = n / q;
    lemma_fundamental_div_mod(n, q);
    lemma_mod_bound(n, q);
    let r = n % q;
    assert(k >= 0) by (nonlinear_arith)
        requires
            n == q * k + r,
            0 <= r < q,
            n >= 0,
    ;
    lemma_root(k);
    let m = root(k);
    assert(mag(unit_part(c, q)) == m);
    assert(m * m * q <= n && n < (m + 1) * (m + 1) * q) by (nonlinear_arith)
        requires
            is_isqrt(k, m),
            n == q * k + r,
            0 <= r < q,
    ;
}

proof fn lemma_cancel_le(a: int, b: int, q: int)
    requires
        q > 0,
        a * q <= b * q,
    ensures
        a <= b,
{
    assert(a <= b) by (nonlinear_arith)
        requires
            q > 0,
            a * q <= b * q,
    ;
}

proof fn lemma_cancel_lt(a: int, b: int, q: int)
    requires
        q > 0,
        a * q < b * q,
    ensures
        a < b,
{
    assert(a < b) by (nonlinear_arith)
        requires
            q > 0,
            a * q < b * q,
    ;
}

/// Scaling a nonzero vector to unit length lands on or just inside the unit
/// sphere: its squared raw length is at most `SCALE^2`, and moving every
/// component one step away from zero takes it outside.
pub proof fn lemma_unit_length(v: Vec3)
    requires
        !v.is_zero_spec(),
    ensures
        ({
            let u = v.unit_spec();
            &&& u.sq_raw() <= SCALE * SCALE
            &&& SCALE * SCALE < (mag(u.x as int) + 1) * (mag(u.x as int) + 1) + (mag(u.y as int) + 1) * (
            mag(u.y as int) + 1) + (mag(u.z as int) + 1) * (mag(u.z as int) + 1)
        }),
{
    let q = v.sq_raw();
    crate::vec3::lemma_sq_raw_parts(v);
    crate::ray::lemma_unit_part_bound(v.x as int, q);
    crate::ray::lemma_unit_part_bound(v.y as int, q);
    crate::ray::lemma_unit_part_bound(v.z as int, q);
    lemma_unit_part_sq(v.x as int, q);
    lemma_unit_part_sq(v.y as int, q);
    lemma_unit_part_sq(v.z as int, q);
    let u = v.unit_spec();
    let mx = mag(u.x as int);
    let my = mag(u.y as int);
    let mz = mag(u.z as int);
    assert(mx * mx == u.x * u.x && my * my == u.y * u.y && mz * mz == u.z * u.z) by (nonlinear_arith)
        requires
            mx == u.x || mx == -u.x,
            my == u.y || my == -u.y,
            mz == u.z || mz == -u.z,
    ;
    let x2 = v.x * v.x;
    let y2 = v.y * v.y;
    let z2 = v.z * v.z;
    let ss = SCALE * SCALE;
    let lo = mx * mx + my * my + mz * mz;
    let hi = (mx + 1) * (mx + 1) + (my + 1) * (my + 1) + (mz + 1) * (mz + 1);
    assert(lo * q == mx * mx * q + my * my * q + mz * mz * q) by (nonlinear_arith)
        requires
            lo == mx * mx + my * my + mz * mz,
    ;
    assert(hi * q == (mx + 1) * (mx + 1) * q + (my + 1) * (my + 1) * q + (mz + 1) * (mz + 1) * q) by (nonlinear_arith)
        requires
            hi == (mx + 1) * (mx + 1) + (my + 1) * (my + 1) + (mz + 1) * (mz + 1),
    ;
    assert(ss * q == x2 * SCALE * SCALE + y2 * SCALE * SCALE + z2 * SCALE * SCALE) by (nonlinear_arith)
        requires
            q == x2 + y2 + z2,
            ss == SCALE * SCALE,
    ;
    lemma_cancel_le(lo, ss, q);
    lemma_cancel_lt(ss, hi, q);
}

/// A ray whose direction points away from the sphere's center (positive dot
/// product with `origin - center`) never reports a hit in front of its
/// origin.
pub proof fn lemma_aimed_away_misses(s: Sphere, ray: Ray)
    requires
        Vec3::dot_raw(oc_of(s, ray), ray.direction) > 0,
    ensures
        hit_spec(s, ray) matches Some(t) ==> t < 0,
{
    if hit_spec(s, ray) is Some {
        crate::vec3::lemma_sq_raw_parts(ray.direction);
        let d = discriminant(s, ray);
        lemma_root(d);
        let num = SCALE * (-quad_b(s, ray) - root(d));
        let den = 2 * quad_a(ray);
        assert(num < 0);
        lemma_fundamental_div_mod(num, den);
        lemma_mod_bound(num, den);
        let q = num / den;
        assert(q < 0) by (nonlinear_arith)
            requires
                num == den * q + num % den,
                0 <= num % den < den,
                num < 0,
                den > 0,
        ;
    }
}

} // verus!
