//! Pixel colors and the mapping from fractional intensities to channels.
use vstd::prelude::*;
use crate::arith::{floor_div, SCALE};
use crate::vec3::Vec3;

verus! {

/// Brightness scale `255.99`, in hundredths: a fraction `f` of full intensity
/// becomes channel `floor(255.99 * f)`.
pub const BRIGHTNESS_HUNDREDTHS: i64 = 25599;

/// Channel value of the fraction `num / den` of full intensity:
/// `floor(255.99 * num / den)`, clamped to `0..=255` so that fractions
/// outside `[0, 1]` cannot leave the channel range.
pub open spec fn channel(num: int, den: int) -> int {
    let v = (BRIGHTNESS_HUNDREDTHS * num) / (100 * den);
    if v < 0 {
        0
    } else if v > 255 {
        255
    } else {
        v
    }
}

/// Fractions of full intensity per channel, as fixed-point values.
#[derive(Clone, Copy, Debug, PartialEq, Eq, Structural)]
pub struct RgbScale(pub Vec3);

/// A color with integer channels.
#[derive(Clone, Copy, Debug, PartialEq, Eq, Structural)]
pub struct Color {
    pub r: i32,
    pub g: i32,
    pub b: i32,
}

impl Color {
    pub fn from(r: i32, g: i32, b: i32) -> (c: Color)
        ensures
            c.r == r && c.g == g && c.b == b,
    {
        Color { r, g, b }
    }

    /// The color of fixed-point intensity fractions.
    pub open spec fn from_scale_spec(s: Vec3) -> Color {
        Color {
            r: channel(s.x as int, SCALE as int) as i32,
            g: channel(s.y as int, SCALE as int) as i32,
            b: channel(s.z as int, SCALE as int) as i32,
        }
    }

    pub fn from_scale(scales: RgbScale) -> (c: Color)
        ensures
            c == Color::from_scale_spec(scales.0),
    {
        Color {
            r: channel_exec(scales.0.x as i128, SCALE as i128),
            g: channel_exec(scales.0.y as i128, SCALE as i128),
            b: channel_exec(scales.0.z as i128, SCALE as i128),
        }
    }
}

/// `channel(num, den)`, computed.
pub fn channel_exec(num: i128, den: i128) -> (r: i32)
    requires
        den > 0,
        -0x4000_0000_0000_0000_0000_0000_0000 <= num <= 0x4000_0000_0000_0000_0000_0000_0000,
        den <= 0x4000_0000_0000_0000_0000_0000_0000,
    ensures
        r == channel(num as int, den as int),
{
    assert(-25599 * 0x4000_0000_0000_0000_0000_0000_0000 <= 25599 * num
        <= 25599 * 0x4000_0000_0000_0000_0000_0000_0000) by (nonlinear_arith)
        requires
            -0x4000_0000_0000_0000_0000_0000_0000 <= num <= 0x4000_0000_0000_0000_0000_0000_0000,
    ;
    let v: i128 = floor_div(BRIGHTNESS_HUNDREDTHS as i128 * num, 100 * den);
    if v < 0 {
        0
    } else if v > 255 {
        255
    } else {
        v as i32
    }
}

} // verus!
