//! Resolving a ray to a pixel color: nearest sphere hit or sky background.
use vstd::prelude::*;
use crate::arith::{floor_div, lemma_div_abs_le, lemma_mul_abs_le, SCALE};
use crate::ray::lemma_unit_part_bound;
use crate::color::{Color, RgbScale};
use crate::ray::Ray;
use crate::sphere::{hit_spec, ray_in_scene, Sphere, SCENE_LIMIT};
use crate::vec3::{fx_mul, Vec3, VecError, COORD_LIMIT};

verus! {

/// Every sphere of `scene` is usable.
pub open spec fn scene_wf(scene: Seq<Sphere>) -> bool {
    forall|i: int| 0 <= i < scene.len() ==> (#[trigger] scene[i]).wf()
}

/// Index and ray parameter of the sphere hit at the smallest positive
/// parameter; on a tie the earlier sphere wins.
pub open spec fn nearest(scene: Seq<Sphere>, ray: Ray) -> Option<(int, int)>
    decreases scene.len(),
{
    if scene.len() == 0 {
        None
    } else {
        let prev = nearest(scene.drop_last(), ray);
        let i = scene.len() - 1;
        match hit_spec(scene[i], ray) {
            Some(t) => {
                if t > 0 && (match prev {
                    Some(p) => t < p.1,
                    None => true,
                }) {
                    Some((i, t))
                } else {
                    prev
                }
            },
            None => prev,
        }
    }
}

/// One component of the offset of the hit point `o + t * d` (the product
/// rounded down, as in `point_at`) from the center component `c`.
pub open spec fn offset_part(o: int, d: int, c: int, t: int) -> int {
    o + fx_mul(t, d) - c
}

/// The offset of the hit point at parameter `t` from the sphere's center.
pub open spec fn hit_offset(s: Sphere, ray: Ray, t: int) -> Vec3 {
    Vec3 {
        x: offset_part(ray.origin.x as int, ray.direction.x as int, s.center.x as int, t) as i64,
        y: offset_part(ray.origin.y as int, ray.direction.y as int, s.center.y as int, t) as i64,
        z: offset_part(ray.origin.z as int, ray.direction.z as int, s.center.z as int, t) as i64,
    }
}

/// The hit offset can be scaled to unit length: it is nonzero and every
/// component lies within `COORD_LIMIT`. Points on or near the surface of a
/// sphere within the scene limits always qualify.
pub open spec fn offset_usable(s: Sphere, ray: Ray, t: int) -> bool {
    let (x, y, z) = (
        offset_part(ray.origin.x as int, ray.direction.x as int, s.center.x as int, t),
        offset_part(ray.origin.y as int, ray.direction.y as int, s.center.y as int, t),
        offset_part(ray.origin.z as int, ray.direction.z as int, s.center.z as int, t),
    );
    -COORD_LIMIT <= x <= COORD_LIMIT && -COORD_LIMIT <= y <= COORD_LIMIT && -COORD_LIMIT <= z
        <= COORD_LIMIT && !(x == 0 && y == 0 && z == 0)
}

/// Color of the hit on sphere `s` at ray parameter `t`: the surface normal
/// `n = normalize(hit point - center)`, remapped by `0.5 * (n + 1)` (rounded
/// down) to intensity fractions.
pub open spec fn hit_color(s: Sphere, ray: Ray, t: int) -> Color {
    let n = hit_offset(s, ray, t).unit_spec();
    Color::from_scale_spec(
        Vec3 {
            x: ((n.x + SCALE) / 2) as i64,
            y: ((n.y + SCALE) / 2) as i64,
            z: ((n.z + SCALE) / 2) as i64,
        },
    )
}

/// The sky color along `ray`, or the error for a zero direction.
pub open spec fn sky_spec(ray: Ray) -> Result<Color, VecError> {
    if ray.direction.is_zero_spec() {
        Err(VecError::DegenerateVector)
    } else {
        Ok(Color::from_scale_spec(ray.sky_spec()))
    }
}

/// The color seen along `ray`: the nearest hit's normal color, else the sky.
/// A hit whose offset from the center is not usable (which no point near a
/// sphere's surface is) is shaded as the sky.
pub open spec fn shade_spec(ray: Ray, scene: Seq<Sphere>) -> Result<Color, VecError> {
    match nearest(scene, ray) {
        Some(h) => if offset_usable(scene[h.0], ray, h.1) {
            Ok(hit_color(scene[h.0], ray, h.1))
        } else {
            sky_spec(ray)
        },
        None => sky_spec(ray),
    }
}

/// The nearest positive hit of `ray` among the spheres of `scene`.
pub fn nearest_hit(ray: Ray, scene: &[Sphere]) -> (r: Option<(usize, i128)>)
    requires
        scene_wf(scene@),
        ray_in_scene(ray),
    ensures
        r is Some <==> nearest(scene@, ray) is Some,
        r matches Some(h) ==> nearest(scene@, ray) == Some((h.0 as int, h.1 as int)),
        r matches Some(h) ==> h.0 < scene@.len() && -0x4_0000_0000_0000_0000_0000 <= h.1
            <= 0x4_0000_0000_0000_0000_0000,
{
    let mut best: Option<(usize, i128)> = None;
    let mut i: usize = 0;
    while i < scene.len()
        invariant
            i <= scene@.len(),
            scene_wf(scene@),
            ray_in_scene(ray),
            best is Some <==> nearest(scene@.subrange(0, i as int), ray) is Some,
            best matches Some(h) ==> nearest(scene@.subrange(0, i as int), ray) == Some(
                (h.0 as int, h.1 as int),
            ),
            best matches Some(h) ==> h.0 < i && -0x4_0000_0000_0000_0000_0000 <= h.1
                <= 0x4_0000_0000_0000_0000_0000,
        decreases scene@.len() - i,
    {
        let h = scene[i].hit(ray);
        proof {
            let next = scene@.subrange(0, i + 1);
            assert(next.drop_last() =~= scene@.subrange(0, i as int));
            assert(next[i as int] == scene@[i as int]);
        }
        match h {
            Some(t) => {
                let closer = match best {
                    Some(b) => t < b.1,
                    None => true,
                };
                if t > 0 && closer {
                    best = Some((i, t));
                }
            },
            None => {},
        }
        i = i + 1;
    }
    assert(scene@.subrange(0, scene@.len() as int) =~= scene@);
    best
}

/// One component of the hit offset, computed.
fn offset_exec(o: i64, d: i64, c: i64, t: i128) -> (r: i128)
    requires
        -SCENE_LIMIT <= o <= SCENE_LIMIT,
        -SCENE_LIMIT <= d <= SCENE_LIMIT,
        -SCENE_LIMIT <= c <= SCENE_LIMIT,
        -0x4_0000_0000_0000_0000_0000 <= t <= 0x4_0000_0000_0000_0000_0000,
    ensures
        r == offset_part(o as int, d as int, c as int, t as int),
{
    proof {
        lemma_mul_abs_le(t as int, d as int, 0x4_0000_0000_0000_0000_0000, 0x1000_0000);
    }
    let td: i128 = t * d as i128;
    let step: i128 = floor_div(td, SCALE as i128);
    proof {
        lemma_div_abs_le(td as int, SCALE as int, 0x4000_0000_0000_0000_0000_0000_0000);
    }
    o as i128 + step - c as i128
}

fn in_coord_range(v: i128) -> (r: bool)
    ensures
        r == (-COORD_LIMIT <= v <= COORD_LIMIT),
{
    -(COORD_LIMIT as i128) <= v && v <= COORD_LIMIT as i128
}

/// `(n + SCALE) / 2` for a unit component `n`.
fn half_up(n: i64) -> (r: i64)
    requires
        -SCALE <= n <= SCALE,
    ensures
        r == (n + SCALE) / 2,
{
    (n + SCALE) / 2
}

/// The pixel color for `ray`: the nearest positive hit among the spheres of
/// `scene` is shaded by its surface normal, remapped from `[-1, 1]` to
/// `[0, 1]`; with no hit, the sky gradient of the ray's unit direction.
/// Fails only on a zero direction.
pub fn pixel_color(ray: Ray, scene: &[Sphere]) -> (r: Result<Color, VecError>)
    requires
        scene_wf(scene@),
        ray_in_scene(ray),
    ensures
        r == shade_spec(ray, scene@),
        r is Err <==> ray.direction.is_zero_spec(),
{
    proof {
        lemma_nearest_bounds(scene@, ray);
        crate::vec3::lemma_sq_raw_parts(ray.direction);
    }
    if let Some(h) = nearest_hit(ray, scene) {
        let s = scene[h.0];
        let t = h.1;
        proof {
            assert(s.wf());
        }
        let x = offset_exec(ray.origin.x, ray.direction.x, s.center.x, t);
        let y = offset_exec(ray.origin.y, ray.direction.y, s.center.y, t);
        let z = offset_exec(ray.origin.z, ray.direction.z, s.center.z, t);
        if in_coord_range(x) && in_coord_range(y) && in_coord_range(z) && !(x == 0 && y == 0
            && z == 0) {
            let off = Vec3 { x: x as i64, y: y as i64, z: z as i64 };
            assert(off == hit_offset(s, ray, t as int));
            if let Ok(n) = off.to_unit() {
                proof {
                    crate::vec3::lemma_sq_raw_parts(off);
                    lemma_unit_part_bound(off.x as int, off.sq_raw());
                    lemma_unit_part_bound(off.y as int, off.sq_raw());
                    lemma_unit_part_bound(off.z as int, off.sq_raw());
                }
                let scale = Vec3 { x: half_up(n.x), y: half_up(n.y), z: half_up(n.z) };
                return Ok(Color::from_scale(RgbScale(scale)));
            }
        }
    }
    let sky = ray.pixel()?;
    Ok(Color::from_scale(RgbScale(sky)))
}

/// A nearest hit names a sphere of the scene at a positive parameter that
/// the sphere's own test reports; a zero direction hits nothing.
pub proof fn lemma_nearest_bounds(scene: Seq<Sphere>, ray: Ray)
    ensures
        nearest(scene, ray) matches Some(h) ==> 0 <= h.0 < scene.len() && h.1 > 0 && hit_spec(
            scene[h.0],
            ray,
        ) == Some(h.1),
        ray.direction.is_zero_spec() ==> nearest(scene, ray) is None,
    decreases scene.len(),
{
    if scene.len() > 0 {
        lemma_nearest_bounds(scene.drop_last(), ray);
    }
    if ray.direction.is_zero_spec() {
        assert(crate::sphere::quad_a(ray) == 0);
    }
}

/// The nearest hit is the smallest positive one: every sphere of the scene
/// that the ray hits at a positive parameter `t` makes `nearest` report a
/// hit at a parameter no larger than `t`.
pub proof fn lemma_nearest_is_smallest(scene: Seq<Sphere>, ray: Ray)
    ensures
        forall|i: int|
            0 <= i < scene.len() && (#[trigger] hit_spec(scene[i], ray)) is Some && hit_spec(
                scene[i],
                ray,
            )->Some_0 > 0 ==> nearest(scene, ray) is Some && nearest(scene, ray)->Some_0.1
                <= hit_spec(scene[i], ray)->Some_0,
    decreases scene.len(),
{
    if scene.len() > 0 {
        let prev = scene.drop_last();
        lemma_nearest_is_smallest(prev, ray);
        assert forall|i: int|
            0 <= i < scene.len() && (#[trigger] hit_spec(scene[i], ray)) is Some && hit_spec(
                scene[i],
                ray,
            )->Some_0 > 0 implies nearest(scene, ray) is Some && nearest(scene, ray)->Some_0.1
                <= hit_spec(scene[i], ray)->Some_0 by {
            if i < scene.len() - 1 {
                assert(prev[i] == scene[i]);
                assert(hit_spec(prev[i], ray) is Some);
            }
        }
    }
}

} // verus!
