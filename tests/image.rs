use raytracer::color::Color;
use raytracer::ppm::ppm;
use raytracer::render::{
    demo_camera, gradient, gradient_image, hello_world_gradient, render, white_to_blue, white_to_blue_gradient,
    white_to_blue_with_sphere_units, Camera,
};
use raytracer::sphere::Sphere;
use raytracer::vec3::{Vec3, VecError};

fn sky_channel(dir: (f64, f64, f64), tenths: f64) -> i32 {
    let len = (dir.0 * dir.0 + dir.1 * dir.1 + dir.2 * dir.2).sqrt();
    let t = 0.5 * (dir.1 / len + 1.0);
    (255.99 * ((1.0 - t) + t * tenths / 10.0)) as i32
}

#[test]
fn two_by_one_sky_render() {
    let cam = demo_camera();
    let scene: Vec<Sphere> = Vec::new();
    let img = render(&cam, 2, 1, &scene).unwrap();
    let text = String::from_utf8(ppm(2, 1, &img)).unwrap();
    let lines: Vec<&str> = text.lines().collect();
    assert!(text.starts_with("P3\n2 1\n255\n"));
    assert_eq!(5, lines.len());
    for (x, line) in lines[3..].iter().enumerate() {
        let dir = (-2.0 + 4.0 * x as f64 / 2.0, -1.0, -1.0);
        let expected = format!("{} {} {}", sky_channel(dir, 5.0), sky_channel(dir, 7.0), sky_channel(dir, 10.0));
        assert_eq!(expected, *line);
    }
    assert_eq!("P3\n2 1\n255\n218 233 255\n237 244 255\n", text);
}

#[test]
fn pixel_map_text() {
    let colors = vec![Color::from(-5, 0, 12), Color::from(255, 1000, 7)];
    let text = String::from_utf8(ppm(1, 2, &colors)).unwrap();
    assert_eq!("P3\n1 2\n255\n-5 0 12\n255 1000 7\n", text);
}

#[test]
fn gradient_rows_run_top_down() {
    let img = gradient_image(4, 2);
    assert_eq!(8, img.len());
    assert_eq!(Color::from(0, 127, 51), img[0]);
    assert_eq!(Color::from(191, 127, 51), img[3]);
    assert_eq!(Color::from(63, 0, 51), img[5]);
}

#[test]
fn demo_gradients() {
    let a = hello_world_gradient();
    let b = gradient();
    assert_eq!(20000, a.len());
    assert_eq!(a, b);
    assert_eq!(Color::from(0, 253, 51), a[0]);
    assert_eq!(Color::from(254, 0, 51), a[19999]);
}

#[test]
fn demo_sky_and_sphere() {
    let sky = white_to_blue();
    assert_eq!(sky, white_to_blue_gradient());
    assert_eq!(20000, sky.len());
    let with_sphere = white_to_blue_with_sphere_units();
    assert_eq!(20000, with_sphere.len());
    let center = 49 * 200 + 100;
    assert_eq!(Color::from(127, 127, 255), with_sphere[center]);
    assert_eq!(sky[0], with_sphere[0]);
    assert_ne!(sky[center], with_sphere[center]);
}

#[test]
fn render_fails_on_zero_direction() {
    let cam = Camera {
        origin: Vec3::zero(),
        lower_left: Vec3::zero(),
        horizontal: Vec3::from_i32(1, 0, 0),
        vertical: Vec3::from_i32(0, 1, 0),
    };
    let scene: Vec<Sphere> = Vec::new();
    assert_eq!(Err(VecError::DegenerateVector), render(&cam, 2, 2, &scene));
}
