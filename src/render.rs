//! The render pipeline: one camera ray per pixel, rows from top to bottom,
//! pixels left to right within a row.
use vstd::prelude::*;
use vstd::arithmetic::div_mod::lemma_fundamental_div_mod_converse;
use crate::arith::{floor_div, lemma_div_abs_le, lemma_mul_abs_le, SCALE};
use crate::color::{channel, channel_exec, Color};
use crate::ray::Ray;
use crate::shade::{lemma_nearest_bounds, pixel_color, scene_wf, shade_spec};
use crate::sphere::{ray_in_scene, Sphere};
use crate::vec3::{Vec3, VecError};

verus! {

/// Largest magnitude of a raw camera coordinate (64 units): three of them
/// added up stay within the scene limit that the hit test needs.
pub const CAMERA_LIMIT: i64 = 0x400_0000;

/// A pinhole camera: rays leave `origin` through the viewport spanned by
/// `horizontal` and `vertical` from its `lower_left` corner.
#[derive(Clone, Copy, Debug, PartialEq, Eq, Structural)]
pub struct Camera {
    pub origin: Vec3,
    pub lower_left: Vec3,
    pub horizontal: Vec3,
    pub vertical: Vec3,
}

pub open spec fn in_camera_range(v: Vec3) -> bool {
    -CAMERA_LIMIT <= v.x <= CAMERA_LIMIT && -CAMERA_LIMIT <= v.y <= CAMERA_LIMIT && -CAMERA_LIMIT
        <= v.z <= CAMERA_LIMIT
}

/// Component of the viewport point at `u = x / width`, `v = y / height`.
pub open spec fn view_part(corner: int, hor: int, ver: int, x: int, y: int, width: int, height: int) -> int {
    corner + (x * hor) / width + (y * ver) / height
}

impl Camera {
    /// All four vectors lie within `CAMERA_LIMIT`.
    pub open spec fn wf(&self) -> bool {
        in_camera_range(self.origin) && in_camera_range(self.lower_left) && in_camera_range(
            self.horizontal,
        ) && in_camera_range(self.vertical)
    }

    /// The ray through the viewport at `(x / width, y / height)`, measured
    /// from the lower left corner.
    pub open spec fn ray_spec(&self, x: int, y: int, width: int, height: int) -> Ray {
        Ray {
            origin: self.origin,
            direction: Vec3 {
                x: view_part(
                    self.lower_left.x as int,
                    self.horizontal.x as int,
                    self.vertical.x as int,
                    x,
                    y,
                    width,
                    height,
                ) as i64,
                y: view_part(
                    self.lower_left.y as int,
                    self.horizontal.y as int,
                    self.vertical.y as int,
                    x,
                    y,
                    width,
                    height,
                ) as i64,
                z: view_part(
                    self.lower_left.z as int,
                    self.horizontal.z as int,
                    self.vertical.z as int,
                    x,
                    y,
                    width,
                    height,
                ) as i64,
            },
        }
    }

    /// The camera ray of pixel column `x` and height `y` (zero at the bottom).
    pub fn ray(&self, x: u32, y: u32, width: u32, height: u32) -> (r: Ray)
        requires
            self.wf(),
            x < width,
            y < height,
        ensures
            r == self.ray_spec(x as int, y as int, width as int, height as int),
            ray_in_scene(r),
    {
        Ray {
            origin: self.origin,
            direction: Vec3 {
                x: view_part_exec(
                    self.lower_left.x,
                    self.horizontal.x,
                    self.vertical.x,
                    x,
                    y,
                    width,
                    height,
                ),
                y: view_part_exec(
                    self.lower_left.y,
                    self.horizontal.y,
                    self.vertical.y,
                    x,
                    y,
                    width,
                    height,
                ),
                z: view_part_exec(
                    self.lower_left.z,
                    self.horizontal.z,
                    self.vertical.z,
                    x,
                    y,
                    width,
                    height,
                ),
            },
        }
    }
}

fn view_part_exec(corner: i64, hor: i64, ver: i64, x: u32, y: u32, width: u32, height: u32) -> (r: i64)
    requires
        -CAMERA_LIMIT <= corner <= CAMERA_LIMIT,
        -CAMERA_LIMIT <= hor <= CAMERA_LIMIT,
        -CAMERA_LIMIT <= ver <= CAMERA_LIMIT,
        x < width,
        y < height,
    ensures
        r == view_part(corner as int, hor as int, ver as int, x as int, y as int, width as int, height as int),
        -3 * CAMERA_LIMIT <= r <= 3 * CAMERA_LIMIT,
{
    proof {
        lemma_mul_abs_le(x as int, hor as int, x as int, CAMERA_LIMIT as int);
        lemma_mul_abs_le(y as int, ver as int, y as int, CAMERA_LIMIT as int);
    }
    let a: i128 = x as i128 * hor as i128;
    let b: i128 = y as i128 * ver as i128;
    proof {
        lemma_scaled_below(a as int, x as int, width as int);
        lemma_scaled_below(b as int, y as int, height as int);
    }
    let pa: i128 = floor_div(a, width as i128);
    let pb: i128 = floor_div(b, height as i128);
    (corner as i128 + pa + pb) as i64
}

/// `n / d` stays within the limit when `|n| <= x * CAMERA_LIMIT` with `x < d`.
proof fn lemma_scaled_below(n: int, x: int, d: int)
    requires
        0 <= x < d,
        -(x * CAMERA_LIMIT) <= n <= x * CAMERA_LIMIT,
    ensures
        -CAMERA_LIMIT <= n / d <= CAMERA_LIMIT,
{
    assert(x * CAMERA_LIMIT <= d * CAMERA_LIMIT) by (nonlinear_arith)
        requires
            0 <= x < d,
    ;
    vstd::arithmetic::div_mod::lemma_fundamental_div_mod(n, d);
    vstd::arithmetic::div_mod::lemma_mod_bound(n, d);
    let q = n / d;
    let r = n % d;
    assert(-CAMERA_LIMIT <= q <= CAMERA_LIMIT) by (nonlinear_arith)
        requires
            n == d * q + r,
            0 <= r < d,
            -(d * CAMERA_LIMIT) <= n <= d * CAMERA_LIMIT,
            CAMERA_LIMIT > 0,
    ;
}

/// Height (zero at the bottom) of image position `k` in a row-major image
/// written from the top row down.
pub open spec fn pixel_y(k: int, width: int, height: int) -> int {
    height - 1 - k / width
}

/// Column of image position `k`.
pub open spec fn pixel_x(k: int, width: int) -> int {
    k % width
}

/// The color expected at image position `k` of a render.
pub open spec fn render_pixel(cam: Camera, width: int, height: int, scene: Seq<Sphere>, k: int) -> Result<Color, VecError> {
    shade_spec(cam.ray_spec(pixel_x(k, width), pixel_y(k, width, height), width, height), scene)
}

/// Position `row * width + x` lies in row `row` and column `x`.
pub proof fn lemma_index(row: int, x: int, width: int)
    requires
        0 <= row,
        0 <= x < width,
    ensures
        (row * width + x) / width == row,
        (row * width + x) % width == x,
{
    lemma_fundamental_div_mod_converse(row * width + x, width, row, x);
}

/// Renders `width * height` pixels, rows from the top of the viewport down
/// and left to right within a row. Fails on a pixel whose ray direction is zero.
pub fn render(cam: &Camera, width: u32, height: u32, scene: &[Sphere]) -> (r: Result<Vec<Color>, VecError>)
    requires
        cam.wf(),
        scene_wf(scene@),
        width * height <= usize::MAX,
    ensures
        r matches Ok(img) ==> img@.len() == width * height && forall|k: int|
            0 <= k < width * height ==> render_pixel(*cam, width as int, height as int, scene@, k)
                == Ok::<Color, VecError>(#[trigger] img@[k]),
        r is Err ==> exists|k: int|
            0 <= k < width * height && (#[trigger] render_pixel(
                *cam,
                width as int,
                height as int,
                scene@,
                k,
            )) is Err,
{
    let mut img: Vec<Color> = Vec::new();
    let mut row: u32 = 0;
    while row < height
        invariant
            cam.wf(),
            scene_wf(scene@),
            row <= height,
            img@.len() == row * width,
            width * height <= usize::MAX,
            forall|k: int|
                0 <= k < row * width ==> render_pixel(*cam, width as int, height as int, scene@, k)
                    == Ok::<Color, VecError>(#[trigger] img@[k]),
        decreases height - row,
    {
        let y: u32 = height - 1 - row;
        let mut x: u32 = 0;
        while x < width
            invariant
                cam.wf(),
                scene_wf(scene@),
                row < height,
                y == height - 1 - row,
                x <= width,
                img@.len() == row * width + x,
                width * height <= usize::MAX,
                forall|k: int|
                    0 <= k < row * width + x ==> render_pixel(*cam, width as int, height as int, scene@, k)
                        == Ok::<Color, VecError>(#[trigger] img@[k]),
            decreases width - x,
        {
            proof {
                lemma_index(row as int, x as int, width as int);
                assert(row * width + x < width * height) by (nonlinear_arith)
                    requires
                        row < height,
                        x < width,
                ;
            }
            let ray = cam.ray(x, y, width, height);
            match pixel_color(ray, scene) {
                Ok(c) => {
                    img.push(c);
                },
                Err(e) => {
                    assert(render_pixel(*cam, width as int, height as int, scene@, row * width + x) is Err);
                    return Err(e);
                },
            }
            x = x + 1;
        }
        assert((row + 1) * width == row * width + width) by (nonlinear_arith);
        row = row + 1;
    }
    assert(row * width == width * height) by (nonlinear_arith)
        requires
            row == height,
    ;
    Ok(img)
}

/// A ray is shaded to an error exactly when its direction is zero.
pub proof fn lemma_shade_err(ray: Ray, scene: Seq<Sphere>)
    ensures
        shade_spec(ray, scene) is Err <==> ray.direction.is_zero_spec(),
{
    lemma_nearest_bounds(scene, ray);
}

/// Color of image position `k` of the test gradient: red grows from left
/// to right, green from bottom to top, blue stays at `0.2`.
pub open spec fn gradient_pixel(width: int, height: int, k: int) -> Color {
    Color {
        r: channel(pixel_x(k, width), width) as i32,
        g: channel(pixel_y(k, width, height), height) as i32,
        b: channel(1, 5) as i32,
    }
}

/// The test gradient of `width * height` pixels, in render order.
pub fn gradient_image(width: u32, height: u32) -> (r: Vec<Color>)
    requires
        width * height <= usize::MAX,
    ensures
        r@.len() == width * height,
        forall|k: int| 0 <= k < width * height ==> #[trigger] r@[k] == gradient_pixel(width as int, height as int, k),
{
    let mut img: Vec<Color> = Vec::new();
    let mut row: u32 = 0;
    while row < height
        invariant
            row <= height,
            img@.len() == row * width,
            width * height <= usize::MAX,
            forall|k: int| 0 <= k < row * width ==> #[trigger] img@[k] == gradient_pixel(width as int, height as int, k),
        decreases height - row,
    {
        let y: u32 = height - 1 - row;
        let mut x: u32 = 0;
        while x < width
            invariant
                row < height,
                y == height - 1 - row,
                x <= width,
                img@.len() == row * width + x,
                width * height <= usize::MAX,
                forall|k: int| 0 <= k < row * width + x ==> #[trigger] img@[k] == gradient_pixel(width as int, height as int, k),
            decreases width - x,
        {
            proof {
                lemma_index(row as int, x as int, width as int);
                assert(row * width + x < width * height) by (nonlinear_arith)
                    requires
                        row < height,
                        x < width,
                ;
            }
            img.push(Color {
                r: channel_exec(x as i128, width as i128),
                g: channel_exec(y as i128, height as i128),
                b: channel_exec(1, 5),
            });
            x = x + 1;
        }
        assert((row + 1) * width == row * width + width) by (nonlinear_arith);
        row = row + 1;
    }
    assert(row * width == width * height) by (nonlinear_arith)
        requires
            row == height,
    ;
    img
}

/// Width of the fixed demo images.
pub const DEMO_WIDTH: u32 = 200;

/// Height of the fixed demo images.
pub const DEMO_HEIGHT: u32 = 100;

/// The test gradient at the demo size.
pub fn hello_world_gradient() -> (r: Vec<Color>)
    ensures
        r@.len() == DEMO_WIDTH * DEMO_HEIGHT,
        forall|k: int|
            0 <= k < DEMO_WIDTH * DEMO_HEIGHT ==> #[trigger] r@[k] == gradient_pixel(
                DEMO_WIDTH as int,
                DEMO_HEIGHT as int,
                k,
            ),
{
    gradient_image(DEMO_WIDTH, DEMO_HEIGHT)
}

/// The test gradient at the demo size.
pub fn gradient() -> (r: Vec<Color>)
    ensures
        r@.len() == DEMO_WIDTH * DEMO_HEIGHT,
        forall|k: int|
            0 <= k < DEMO_WIDTH * DEMO_HEIGHT ==> #[trigger] r@[k] == gradient_pixel(
                DEMO_WIDTH as int,
                DEMO_HEIGHT as int,
                k,
            ),
{
    gradient_image(DEMO_WIDTH, DEMO_HEIGHT)
}

/// The demo camera at the origin, looking down the negative z axis through
/// a viewport from `(-2, -1, -1)` spanning four units across and two up.
pub open spec fn demo_camera_spec() -> Camera {
    Camera {
        origin: Vec3 { x: 0, y: 0, z: 0 },
        lower_left: Vec3 { x: -0x20_0000i64, y: -0x10_0000i64, z: -0x10_0000i64 },
        horizontal: Vec3 { x: 0x40_0000, y: 0, z: 0 },
        vertical: Vec3 { x: 0, y: 0x20_0000, z: 0 },
    }
}

pub fn demo_camera() -> (r: Camera)
    ensures
        r == demo_camera_spec(),
        r.wf(),
{
    Camera {
        origin: Vec3::zero(),
        lower_left: Vec3::from_i32(-2, -1, -1),
        horizontal: Vec3::from_i32(4, 0, 0),
        vertical: Vec3::from_i32(0, 2, 0),
    }
}

/// The sphere of the demo scene: center `(0, 0, -1)`, radius `0.5`.
pub open spec fn demo_sphere_spec() -> Sphere {
    Sphere { center: Vec3 { x: 0, y: 0, z: -0x10_0000i64 }, radius: 0x8_0000 }
}

/// Renders the demo camera's view of `scene`, which cannot fail: every
/// demo ray points one unit down the negative z axis.
pub fn render_demo(scene: &[Sphere]) -> (r: Vec<Color>)
    requires
        scene_wf(scene@),
    ensures
        r@.len() == DEMO_WIDTH * DEMO_HEIGHT,
        forall|k: int|
            0 <= k < DEMO_WIDTH * DEMO_HEIGHT ==> render_pixel(
                demo_camera_spec(),
                DEMO_WIDTH as int,
                DEMO_HEIGHT as int,
                scene@,
                k,
            ) == Ok::<Color, VecError>(#[trigger] r@[k]),
{
    let cam = demo_camera();
    match render(&cam, DEMO_WIDTH, DEMO_HEIGHT, scene) {
        Ok(img) => img,
        Err(_) => {
            proof {
                let k = choose|k: int|
                    0 <= k < DEMO_WIDTH * DEMO_HEIGHT && (#[trigger] render_pixel(
                        cam,
                        DEMO_WIDTH as int,
                        DEMO_HEIGHT as int,
                        scene@,
                        k,
                    )) is Err;
                let w = DEMO_WIDTH as int;
                let h = DEMO_HEIGHT as int;
                let ray = cam.ray_spec(pixel_x(k, w), pixel_y(k, w, h), w, h);
                lemma_shade_err(ray, scene@);
                assert(ray.direction.z == -SCALE);
            }
            Vec::new()
        },
    }
}

/// The sky gradient seen by the demo camera, with nothing in the scene.
pub fn white_to_blue() -> (r: Vec<Color>)
    ensures
        r@.len() == DEMO_WIDTH * DEMO_HEIGHT,
        forall|k: int|
            0 <= k < DEMO_WIDTH * DEMO_HEIGHT ==> render_pixel(
                demo_camera_spec(),
                DEMO_WIDTH as int,
                DEMO_HEIGHT as int,
                Seq::empty(),
                k,
            ) == Ok::<Color, VecError>(#[trigger] r@[k]),
{
    let scene: Vec<Sphere> = Vec::new();
    render_demo(scene.as_slice())
}

/// The sky gradient seen by the demo camera, with nothing in the scene.
pub fn white_to_blue_gradient() -> (r: Vec<Color>)
    ensures
        r@.len() == DEMO_WIDTH * DEMO_HEIGHT,
        forall|k: int|
            0 <= k < DEMO_WIDTH * DEMO_HEIGHT ==> render_pixel(
                demo_camera_spec(),
                DEMO_WIDTH as int,
                DEMO_HEIGHT as int,
                Seq::empty(),
                k,
            ) == Ok::<Color, VecError>(#[trigger] r@[k]),
{
    white_to_blue()
}

/// The demo camera's view of the demo sphere in front of the sky.
pub fn white_to_blue_with_sphere_units() -> (r: Vec<Color>)
    ensures
        r@.len() == DEMO_WIDTH * DEMO_HEIGHT,
        forall|k: int|
            0 <= k < DEMO_WIDTH * DEMO_HEIGHT ==> render_pixel(
                demo_camera_spec(),
                DEMO_WIDTH as int,
                DEMO_HEIGHT as int,
                seq![demo_sphere_spec()],
                k,
            ) == Ok::<Color, VecError>(#[trigger] r@[k]),
{
    let sphere = Sphere { center: Vec3::from_i32(0, 0, -1), radius: SCALE / 2 };
    let scene: Vec<Sphere> = vec![sphere];
    assert(scene@ =~= seq![demo_sphere_spec()]);
    render_demo(scene.as_slice())
}

} // verus!
