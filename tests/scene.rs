use raytracer::arith::SCALE;
use raytracer::color::{Color, RgbScale};
use raytracer::ray::Ray;
use raytracer::sphere::{SceneError, Sphere};
use raytracer::shade::pixel_color;
use raytracer::vec3::{Vec3, VecError};

#[test]
fn ray_point_at() {
    let ray = Ray::from(Vec3::zero(), Vec3::from_i32(2, 2, 2));
    let t = SCALE / 2;
    assert_eq!(Vec3::one(), ray.point_at(t));
}

#[test]
fn point_at_zero_and_one() {
    let ray = Ray::from(Vec3::from(7, -3, 11), Vec3::from(-100, 250, 3));
    assert_eq!(ray.origin(), ray.point_at(0));
    assert_eq!(ray.origin().add(ray.direction()), ray.point_at(SCALE));
    assert_eq!(Vec3::from(107, -253, 8), ray.point_at(-SCALE));
}

#[test]
fn hits_true() {
    let ray = Ray::from(Vec3::from_i32(0, 0, 0), Vec3::from_i32(1, 1, 0));
    let sphere = Sphere::from(Vec3::from_i32(1, 1, 1), SCALE).unwrap();
    let actual = sphere.hit(ray);
    assert!(actual.unwrap() > 0)
}

#[test]
fn near_hit_lies_on_sphere() {
    let sphere = Sphere::from(Vec3::from_i32(0, 0, -1), SCALE / 2).unwrap();
    let ray = Ray::from(Vec3::zero(), Vec3::from_i32(0, 0, -1));
    let t = sphere.hit(ray).unwrap();
    assert_eq!((SCALE / 2) as i128, t);
    let p = ray.point_at(t as i64);
    assert_eq!(SCALE / 2, p.sub(sphere.center).len());
}

#[test]
fn ray_aimed_away_misses() {
    let sphere = Sphere::from(Vec3::from_i32(5, 5, 5), SCALE / 10).unwrap();
    let ray = Ray::from(Vec3::zero(), Vec3::from_i32(0, 0, -1));
    assert_eq!(None, sphere.hit(ray));
}

#[test]
fn sphere_behind_origin_reports_negative_parameter() {
    let sphere = Sphere::from(Vec3::from_i32(0, 0, 3), SCALE).unwrap();
    let ray = Ray::from(Vec3::zero(), Vec3::from_i32(0, 0, -1));
    assert_eq!(Some(-4 * SCALE as i128), sphere.hit(ray));
}

#[test]
fn sphere_rejects_bad_configuration() {
    assert_eq!(Err(SceneError::NonPositiveRadius), Sphere::from(Vec3::zero(), 0));
    assert_eq!(Err(SceneError::NonPositiveRadius), Sphere::from(Vec3::zero(), -5));
    assert_eq!(Err(SceneError::OutOfRange), Sphere::from(Vec3::from_i32(1000, 0, 0), SCALE));
    assert_eq!(Err(SceneError::OutOfRange), Sphere::from(Vec3::zero(), 1000 * SCALE));
}

#[test]
fn color_from_scale_floors_and_clamps() {
    assert_eq!(Color::from(127, 255, 0), Color::from_scale(RgbScale(Vec3::from(SCALE / 2, SCALE, 0))));
    assert_eq!(Color::from(255, 0, 25), Color::from_scale(RgbScale(Vec3::from(2 * SCALE, -SCALE, SCALE / 10))));
}

#[test]
fn sky_straight_up_and_down() {
    let up = Ray::from(Vec3::zero(), Vec3::from_i32(0, 3, 0));
    assert_eq!(Ok(Vec3::from(SCALE / 2, 734003, SCALE)), up.pixel());
    let down = Ray::from(Vec3::zero(), Vec3::from_i32(0, -1, 0));
    assert_eq!(Ok(Vec3::from(SCALE, SCALE, SCALE)), down.pixel());
    let none = Ray::from(Vec3::zero(), Vec3::zero());
    assert_eq!(Err(VecError::DegenerateVector), none.pixel());
}

#[test]
fn shading_hit_and_miss() {
    let sphere = Sphere::from(Vec3::from_i32(0, 0, -1), SCALE / 2).unwrap();
    let scene = vec![sphere];
    let toward = Ray::from(Vec3::zero(), Vec3::from_i32(0, 0, -1));
    assert_eq!(Ok(Color::from(127, 127, 255)), pixel_color(toward, &scene));
    let up = Ray::from(Vec3::zero(), Vec3::from_i32(0, 1, 0));
    assert_eq!(Ok(Color::from(127, 179, 255)), pixel_color(up, &scene));
    let none = Ray::from(Vec3::zero(), Vec3::zero());
    assert_eq!(Err(VecError::DegenerateVector), pixel_color(none, &scene));
}

#[test]
fn nearest_sphere_wins() {
    let far = Sphere::from(Vec3::from_i32(0, 0, -5), SCALE).unwrap();
    let near = Sphere::from(Vec3::from_i32(0, 0, -2), SCALE / 2).unwrap();
    let scene = vec![far, near];
    let ray = Ray::from(Vec3::zero(), Vec3::from_i32(0, 0, -1));
    assert_eq!(Some((1, (3 * SCALE / 2) as i128)), raytracer::shade::nearest_hit(ray, &scene));
}
