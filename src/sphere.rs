//! Spheres and the analytic ray/sphere intersection test.
use vstd::prelude::*;
use crate::arith::{floor_div, isqrt, lemma_div_abs_le, lemma_mul_abs_le, lemma_root, lemma_root_le, root, SCALE};
use crate::ray::Ray;
use crate::vec3::Vec3;

verus! {

/// Largest magnitude of a raw scene coordinate (256 units). It is set by
/// the discriminant of the hit test, a fourth-degree expression in scene
/// coordinates that must stay within `i128`.
pub const SCENE_LIMIT: i64 = 0x1000_0000;

/// Why a sphere cannot be part of a scene.
#[derive(Clone, Copy, Debug, PartialEq, Eq, Structural)]
pub enum SceneError {
    NonPositiveRadius,
    OutOfRange,
}

/// Every component of `v` lies within `SCENE_LIMIT`.
pub open spec fn in_scene(v: Vec3) -> bool {
    -SCENE_LIMIT <= v.x <= SCENE_LIMIT && -SCENE_LIMIT <= v.y <= SCENE_LIMIT && -SCENE_LIMIT
        <= v.z <= SCENE_LIMIT
}

/// Origin and direction of `ray` lie within the scene limits.
pub open spec fn ray_in_scene(ray: Ray) -> bool {
    in_scene(ray.origin) && in_scene(ray.direction)
}

#[derive(Clone, Copy, Debug, PartialEq, Eq, Structural)]
pub struct Sphere {
    pub center: Vec3,
    pub radius: i64,
}

/// `ray.origin - center`, componentwise.
pub open spec fn oc_of(s: Sphere, ray: Ray) -> Vec3 {
    Vec3 {
        x: (ray.origin.x - s.center.x) as i64,
        y: (ray.origin.y - s.center.y) as i64,
        z: (ray.origin.z - s.center.z) as i64,
    }
}

/// Quadratic coefficient `a = dot(direction, direction)`, in raw squared steps.
pub open spec fn quad_a(ray: Ray) -> int {
    ray.direction.sq_raw()
}

/// Linear coefficient `b = 2 * dot(origin - center, direction)`.
pub open spec fn quad_b(s: Sphere, ray: Ray) -> int {
    2 * Vec3::dot_raw(oc_of(s, ray), ray.direction)
}

/// Constant coefficient `c = dot(origin - center, origin - center) - radius^2`.
pub open spec fn quad_c(s: Sphere, ray: Ray) -> int {
    oc_of(s, ray).sq_raw() - s.radius * s.radius
}

/// The discriminant `b^2 - 4ac`.
pub open spec fn discriminant(s: Sphere, ray: Ray) -> int {
    quad_b(s, ray) * quad_b(s, ray) - 4 * quad_a(ray) * quad_c(s, ray)
}

/// The near root `(-b - sqrt(disc)) / (2a)` as a fixed-point ray parameter,
/// with the integer square root of the discriminant, rounded down; `None` for
/// a negative discriminant or a zero direction.
pub open spec fn hit_spec(s: Sphere, ray: Ray) -> Option<int> {
    if quad_a(ray) == 0 || discriminant(s, ray) < 0 {
        None
    } else {
        Some((SCALE * (-quad_b(s, ray) - root(discriminant(s, ray)))) / (2 * quad_a(ray)))
    }
}

impl Sphere {
    /// A usable sphere: positive radius, all values within the scene limits.
    pub open spec fn wf(&self) -> bool {
        0 < self.radius <= SCENE_LIMIT && in_scene(self.center)
    }

    /// A sphere, rejected when its radius is not positive or a value lies
    /// outside the scene limits.
    pub fn from(center: Vec3, radius: i64) -> (r: Result<Sphere, SceneError>)
        ensures
            radius <= 0 <==> r == Err::<Sphere, SceneError>(SceneError::NonPositiveRadius),
            radius > 0 && !(radius <= SCENE_LIMIT && in_scene(center)) <==> r == Err::<
                Sphere,
                SceneError,
            >(SceneError::OutOfRange),
            r matches Ok(s) ==> s.center == center && s.radius == radius && s.wf(),
    {
        if radius <= 0 {
            Err(SceneError::NonPositiveRadius)
        } else if radius > SCENE_LIMIT || center.x < -SCENE_LIMIT || center.x > SCENE_LIMIT
            || center.y < -SCENE_LIMIT || center.y > SCENE_LIMIT || center.z < -SCENE_LIMIT
            || center.z > SCENE_LIMIT {
            Err(SceneError::OutOfRange)
        } else {
            Ok(Sphere { center, radius })
        }
    }

    /// Ray parameter of the nearer intersection with the sphere, or `None`
    /// when the ray's line misses it. A tangent line counts as a hit.
    pub fn hit(&self, ray: Ray) -> (r: Option<i128>)
        requires
            self.wf(),
            ray_in_scene(ray),
        ensures
            r is Some <==> hit_spec(*self, ray) is Some,
            r matches Some(t) ==> hit_spec(*self, ray) == Some(t as int),
            r matches Some(t) ==> -0x4_0000_0000_0000_0000_0000 <= t <= 0x4_0000_0000_0000_0000_0000,
    {
        let ox: i128 = ray.origin.x as i128 - self.center.x as i128;
        let oy: i128 = ray.origin.y as i128 - self.center.y as i128;
        let oz: i128 = ray.origin.z as i128 - self.center.z as i128;
        let dx: i128 = ray.direction.x as i128;
        let dy: i128 = ray.direction.y as i128;
        let dz: i128 = ray.direction.z as i128;
        let r: i128 = self.radius as i128;
        proof {
            lemma_mul_abs_le(dx as int, dx as int, 0x1000_0000, 0x1000_0000);
            lemma_mul_abs_le(dy as int, dy as int, 0x1000_0000, 0x1000_0000);
            lemma_mul_abs_le(dz as int, dz as int, 0x1000_0000, 0x1000_0000);
            lemma_mul_abs_le(ox as int, dx as int, 0x2000_0000, 0x1000_0000);
            lemma_mul_abs_le(oy as int, dy as int, 0x2000_0000, 0x1000_0000);
            lemma_mul_abs_le(oz as int, dz as int, 0x2000_0000, 0x1000_0000);
            lemma_mul_abs_le(ox as int, ox as int, 0x2000_0000, 0x2000_0000);
            lemma_mul_abs_le(oy as int, oy as int, 0x2000_0000, 0x2000_0000);
            lemma_mul_abs_le(oz as int, oz as int, 0x2000_0000, 0x2000_0000);
            lemma_mul_abs_le(r as int, r as int, 0x1000_0000, 0x1000_0000);
            crate::vec3::lemma_sq_raw_parts(ray.direction);
            crate::vec3::lemma_sq_raw_parts(oc_of(*self, ray));
        }
        let a: i128 = dx * dx + dy * dy + dz * dz;
        let b: i128 = 2 * (ox * dx + oy * dy + oz * dz);
        let c: i128 = ox * ox + oy * oy + oz * oz - r * r;
        assert(a == quad_a(ray));
        assert(b == quad_b(*self, ray));
        assert(c == quad_c(*self, ray));
        if a == 0 {
            return None;
        }
        proof {
            lemma_mul_abs_le(b as int, b as int, 0xC00_0000_0000_0000, 0xC00_0000_0000_0000);
            lemma_mul_abs_le(a as int, c as int, 0x300_0000_0000_0000, 0xC00_0000_0000_0000);
        }
        let ac: i128 = a * c;
        let disc: i128 = b * b - 4 * ac;
        assert(disc == discriminant(*self, ray)) by (nonlinear_arith)
            requires
                ac == a * c,
                disc == b * b - 4 * ac,
                a == quad_a(ray),
                b == quad_b(*self, ray),
                c == quad_c(*self, ray),
        ;
        if disc < 0 {
            return None;
        }
        let s: u64 = isqrt(disc as u128);
        proof {
            lemma_root(disc as int);
            lemma_root_le(s as int, disc as int, 0x2000_0000_0000_0000);
        }
        let num: i128 = SCALE as i128 * (-b - s as i128);
        let t: i128 = floor_div(num, 2 * a);
        proof {
            lemma_div_abs_le(num as int, 2 * a, 0x4_0000_0000_0000_0000_0000);
        }
        Some(t)
    }
}

} // verus!
