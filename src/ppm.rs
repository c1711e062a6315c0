//! The plain-text pixel map: a `P3` header, then one `r g b` line per pixel.
use vstd::prelude::*;
use crate::color::Color;

verus! {

pub const NEWLINE: u8 = 10;

pub const SPACE: u8 = 32;

pub const MINUS: u8 = 45;

pub const DIGIT_ZERO: u8 = 48;

/// Decimal digits of `n`, most significant first, without leading zeros.
pub open spec fn digits(n: nat) -> Seq<u8>
    decreases n,
{
    if n < 10 {
        seq![(DIGIT_ZERO + n) as u8]
    } else {
        digits(n / 10) + seq![(DIGIT_ZERO + n % 10) as u8]
    }
}

/// Decimal text of `v`, with a leading minus sign when negative.
pub open spec fn int_text(v: int) -> Seq<u8> {
    if v < 0 {
        seq![MINUS] + digits((-v) as nat)
    } else {
        digits(v as nat)
    }
}

/// The line `"<r> <g> <b>\n"` of one pixel.
pub open spec fn color_line(c: Color) -> Seq<u8> {
    int_text(c.r as int) + seq![SPACE] + int_text(c.g as int) + seq![SPACE] + int_text(c.b as int)
        + seq![NEWLINE]
}

/// The header `"P3\n<width> <height>\n255\n"`.
pub open spec fn header(width: nat, height: nat) -> Seq<u8> {
    seq![80u8, 51u8, NEWLINE] + digits(width) + seq![SPACE] + digits(height) + seq![
        NEWLINE,
        50u8,
        53u8,
        53u8,
        NEWLINE,
    ]
}

/// One line per pixel, in order.
pub open spec fn pixel_lines(colors: Seq<Color>) -> Seq<u8>
    decreases colors.len(),
{
    if colors.len() == 0 {
        Seq::empty()
    } else {
        pixel_lines(colors.drop_last()) + color_line(colors.last())
    }
}

/// The whole pixel map.
pub open spec fn ppm_spec(width: nat, height: nat, colors: Seq<Color>) -> Seq<u8> {
    header(width, height) + pixel_lines(colors)
}

fn push_digits(out: &mut Vec<u8>, n: u64)
    ensures
        final(out)@ == old(out)@ + digits(n as nat),
    decreases n,
{
    if n >= 10 {
        push_digits(out, n / 10);
    }
    out.push((DIGIT_ZERO as u64 + n % 10) as u8);
    assert(out@ =~= old(out)@ + digits(n as nat));
}

fn push_int(out: &mut Vec<u8>, v: i32)
    ensures
        final(out)@ == old(out)@ + int_text(v as int),
{
    if v < 0 {
        out.push(MINUS);
        push_digits(out, (-(v as i64)) as u64);
    } else {
        push_digits(out, v as u64);
    }
    assert(out@ =~= old(out)@ + int_text(v as int));
}

/// Serializes an image of `width * height` colors given in row order.
pub fn ppm(width: u32, height: u32, colors: &[Color]) -> (r: Vec<u8>)
    requires
        colors@.len() == width * height,
    ensures
        r@ == ppm_spec(width as nat, height as nat, colors@),
{
    let mut out: Vec<u8> = Vec::new();
    out.push(80u8);
    out.push(51u8);
    out.push(NEWLINE);
    push_digits(&mut out, width as u64);
    out.push(SPACE);
    push_digits(&mut out, height as u64);
    out.push(NEWLINE);
    out.push(50u8);
    out.push(53u8);
    out.push(53u8);
    out.push(NEWLINE);
    assert(out@ =~= header(width as nat, height as nat));
    let mut i: usize = 0;
    while i < colors.len()
        invariant
            i <= colors@.len(),
            out@ == header(width as nat, height as nat) + pixel_lines(colors@.subrange(0, i as int)),
        decreases colors@.len() - i,
    {
        let c = colors[i];
        push_int(&mut out, c.r);
        out.push(SPACE);
        push_int(&mut out, c.g);
        out.push(SPACE);
        push_int(&mut out, c.b);
        out.push(NEWLINE);
        proof {
            let next = colors@.subrange(0, i + 1);
            assert(next.drop_last() =~= colors@.subrange(0, i as int));
            assert(next.last() == c);
        }
        assert(out@ =~= header(width as nat, height as nat) + pixel_lines(colors@.subrange(0, i + 1)));
        i = i + 1;
    }
    assert(colors@.subrange(0, colors@.len() as int) =~= colors@);
    out
}

} // verus!
