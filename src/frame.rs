//! The fixed-length 8-bit frame that is handed to the strip.

use vstd::prelude::*;
use crate::color::{background, Color, CHANNEL_MAX, FACTOR_MAX};

verus! {

/// The strip's pixel type, a plain triple of public channel fields.
#[verifier::external_type_specification]
#[verifier::reject_recursive_types(T)]
pub struct ExRgb<T>(rgb::RGB<T>);

/// A channel scaled to `0..=255` and truncated.
pub open spec fn channel_byte(c: u16) -> u8 {
    (c as int * FACTOR_MAX / CHANNEL_MAX as int) as u8
}

pub open spec fn to_rgb_spec(c: Color) -> rgb::RGB8 {
    rgb::RGB8 { r: channel_byte(c.red), g: channel_byte(c.green), b: channel_byte(c.blue) }
}

/// The frame pixel `i` of a frame built from `pixels`: the converted pixel, or
/// background past the end of `pixels`.
pub open spec fn frame_pixel(pixels: Seq<Color>, i: int) -> rgb::RGB8 {
    if i < pixels.len() {
        to_rgb_spec(pixels[i])
    } else {
        to_rgb_spec(background())
    }
}

fn channel_to_byte(c: u16) -> (b: u8)
    ensures
        b == channel_byte(c),
{
    assert(c as int * FACTOR_MAX / CHANNEL_MAX as int <= 255) by (nonlinear_arith)
        requires c <= 65535;
    assert(c as int * FACTOR_MAX / CHANNEL_MAX as int >= 0) by (nonlinear_arith)
        requires c >= 0;
    (c as u64 * FACTOR_MAX / CHANNEL_MAX) as u8
}

/// Converts a color to 8 bits per channel without gamma correction.
pub fn to_rgb(c: &Color) -> (p: rgb::RGB8)
    ensures
        p == to_rgb_spec(*c),
{
    rgb::RGB8 { r: channel_to_byte(c.red), g: channel_to_byte(c.green), b: channel_to_byte(c.blue) }
}

/// Converts `pixels` and pads or truncates them to exactly `total` pixels,
/// filling the rest with the background.
pub fn to_array(pixels: &Vec<Color>, total: usize) -> (frame: Vec<rgb::RGB8>)
    ensures
        frame@.len() == total,
        forall|i: int| 0 <= i < total ==> #[trigger] frame@[i] == frame_pixel(pixels@, i),
{
    let mut frame: Vec<rgb::RGB8> = Vec::with_capacity(total);
    let mut i: usize = 0;
    while i < total
        invariant
            i <= total,
            frame@.len() == i,
            forall|k: int| 0 <= k < i ==> #[trigger] frame@[k] == frame_pixel(pixels@, k),
        decreases total - i,
    {
        if i < pixels.len() {
            frame.push(to_rgb(&pixels[i]));
        } else {
            frame.push(to_rgb(&Color::background()));
        }
        i = i + 1;
    }
    frame
}

} // verus!
