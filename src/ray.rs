//! Rays: the parametric line `origin + t * direction`.
use vstd::prelude::*;
use crate::arith::SCALE;
use crate::vec3::{fits, fx_mul, unit_part, Vec3, VecError};

verus! {

/// The background value of one color channel at unit-direction height `uy`:
/// `(1 - t) + t * tenths / 10` with `t = (uy + 1) / 2`, as a fixed-point
/// value rounded down.
pub open spec fn sky_part(uy: int, tenths: int) -> int {
    (20 * SCALE - (uy + SCALE) * (10 - tenths)) / 20
}

/// Height of the unit direction of `d` (truncated toward zero).
pub open spec fn unit_y(d: Vec3) -> int {
    unit_part(d.y as int, d.sq_raw())
}

#[derive(Clone, Copy, Debug, PartialEq, Eq, Structural)]
pub struct Ray {
    pub origin: Vec3,
    pub direction: Vec3,
}

impl Ray {
    pub fn from(origin: Vec3, direction: Vec3) -> (r: Ray)
        ensures
            r.origin == origin && r.direction == direction,
    {
        Ray { origin, direction }
    }

    pub fn origin(&self) -> (r: Vec3)
        ensures
            r == self.origin,
    {
        self.origin
    }

    pub fn direction(&self) -> (r: Vec3)
        ensures
            r == self.direction,
    {
        self.direction
    }

    /// The point reached at parameter `t` (fixed-point), for any sign of `t`.
    pub open spec fn point_at_spec(&self, t: int) -> Vec3 {
        Vec3 {
            x: (self.origin.x + fx_mul(t, self.direction.x as int)) as i64,
            y: (self.origin.y + fx_mul(t, self.direction.y as int)) as i64,
            z: (self.origin.z + fx_mul(t, self.direction.z as int)) as i64,
        }
    }

    /// `point_at(t)` stays within `i64`.
    pub open spec fn point_at_fits(&self, t: int) -> bool {
        fits(fx_mul(t, self.direction.x as int)) && fits(fx_mul(t, self.direction.y as int))
            && fits(fx_mul(t, self.direction.z as int)) && fits(
            self.origin.x + fx_mul(t, self.direction.x as int),
        ) && fits(self.origin.y + fx_mul(t, self.direction.y as int)) && fits(
            self.origin.z + fx_mul(t, self.direction.z as int),
        )
    }

    /// `origin + t * direction`, the product rounded down per component.
    pub fn point_at(&self, t: i64) -> (r: Vec3)
        requires
            self.point_at_fits(t as int),
        ensures
            r.x == self.origin.x + fx_mul(t as int, self.direction.x as int),
            r.y == self.origin.y + fx_mul(t as int, self.direction.y as int),
            r.z == self.origin.z + fx_mul(t as int, self.direction.z as int),
            r == self.point_at_spec(t as int),
    {
        self.origin.add(Vec3::mul(t, self.direction))
    }

    /// The background sky color for this ray, as fixed-point fractions of
    /// full intensity: white straight down, sky blue `(0.5, 0.7, 1.0)`
    /// straight up, blended linearly in the height of the unit direction.
    pub open spec fn sky_spec(&self) -> Vec3 {
        Vec3 {
            x: sky_part(unit_y(self.direction), 5) as i64,
            y: sky_part(unit_y(self.direction), 7) as i64,
            z: sky_part(unit_y(self.direction), 10) as i64,
        }
    }

    /// The background color seen along this ray; the direction is scaled to
    /// unit length first, so it fails on a zero direction.
    pub fn pixel(&self) -> (r: Result<Vec3, VecError>)
        requires
            self.direction.in_range(),
        ensures
            r is Err <==> self.direction.is_zero_spec(),
            r matches Ok(c) ==> c == self.sky_spec(),
            r matches Ok(c) ==> 0 <= c.x <= SCALE && 0 <= c.y <= SCALE && 0 <= c.z <= SCALE,
    {
        let u = self.direction.to_unit()?;
        proof {
            crate::vec3::lemma_sq_raw_parts(self.direction);
            lemma_unit_part_bound(self.direction.y as int, self.direction.sq_raw());
        }
        let uy: i64 = u.y;
        Ok(Vec3 { x: sky_part_exec(uy, 5), y: sky_part_exec(uy, 7), z: sky_part_exec(uy, 10) })
    }
}

fn sky_part_exec(uy: i64, tenths: i64) -> (r: i64)
    requires
        -SCALE <= uy <= SCALE,
        0 <= tenths <= 10,
    ensures
        r == sky_part(uy as int, tenths as int),
        0 <= r <= SCALE,
{
    assert(0 <= (uy + SCALE) * (10 - tenths) <= 2 * SCALE * 10) by (nonlinear_arith)
        requires
            -SCALE <= uy <= SCALE,
            0 <= tenths <= 10,
    ;
    (20 * SCALE - (uy + SCALE) * (10 - tenths)) / 20
}

/// A unit component never exceeds one unit in magnitude.
pub proof fn lemma_unit_part_bound(c: int, q: int)
    requires
        c * c <= q,
        q > 0,
    ensures
        -SCALE <= unit_part(c, q) <= SCALE,
{
    let n = c * c * SCALE * SCALE;
    assert(n / q <= SCALE * SCALE) by (nonlinear_arith)
        requires
            n == c * c * SCALE * SCALE,
            c * c <= q,
            q > 0,
    ;
    assert(n >= 0) by (nonlinear_arith)
        requires
            n == c * c * SCALE * SCALE,
    ;
    assert(n / q >= 0) by (nonlinear_arith)
        requires
            n >= 0,
            q > 0,
    ;
    crate::arith::lemma_root(n / q);
    crate::arith::lemma_root_le(crate::arith::root(n / q), n / q, SCALE as int);
}

} // verus!
