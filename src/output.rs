//! What is written to the LED string: a frame gamma-corrected for the eye and scaled by the
//! global brightness.

use vstd::prelude::*;

use crate::colour::Rgb;
use crate::configuration::LED_STRING_SIZE;
use smart_leds::RGB8;

verus! {

/// The gamma-corrected value of one channel, as smart-leds' 8-bit gamma table gives it.
pub uninterp spec fn gamma_of(c: u8) -> u8;

/// A pixel with each channel gamma-corrected.
pub open spec fn gamma_pixel(p: Rgb) -> Rgb {
    Rgb { r: gamma_of(p.r), g: gamma_of(p.g), b: gamma_of(p.b) }
}

/// One channel at global brightness `level`: scaled by `(level + 1) / 256`, rounded down.
pub open spec fn dim_channel(c: u8, level: u8) -> u8 {
    (c as int * (level as int + 1) / 256) as u8
}

/// A pixel at global brightness `level`.
pub open spec fn dimmed(p: Rgb, level: u8) -> Rgb {
    Rgb { r: dim_channel(p.r, level), g: dim_channel(p.g, level), b: dim_channel(p.b, level) }
}

/// Relies on smart-leds' `gamma`: each pixel's channels mapped through its gamma table, one
/// pixel out for each pixel in.
#[verifier::external_body]
fn gamma_frame(frame: &Vec<Rgb>) -> (r: Vec<Rgb>)
    ensures
        r@.len() == frame@.len(),
        forall|i: int|
            0 <= i < r@.len() ==> {
                &&& #[trigger] r@[i].r == gamma_of(frame@[i].r)
                &&& r@[i].g == gamma_of(frame@[i].g)
                &&& r@[i].b == gamma_of(frame@[i].b)
            },
{
    smart_leds::gamma(frame.iter().map(|c| RGB8::new(c.r, c.g, c.b))).map(
        |p| Rgb { r: p.r, g: p.g, b: p.b },
    ).collect()
}

/// Relies on smart-leds' `brightness`: each channel `c` becomes `c * (level + 1) / 256`, one
/// pixel out for each pixel in.
#[verifier::external_body]
fn brightness_frame(frame: &Vec<Rgb>, level: u8) -> (r: Vec<Rgb>)
    ensures
        r@.len() == frame@.len(),
        forall|i: int| 0 <= i < r@.len() ==> #[trigger] r@[i] == dimmed(frame@[i], level),
{
    smart_leds::brightness(frame.iter().map(|c| RGB8::new(c.r, c.g, c.b)), level).map(
        |p| Rgb { r: p.r, g: p.g, b: p.b },
    ).collect()
}

/// Scales an already gamma-corrected frame to global brightness `level`.
pub fn dim_frame(corrected: &Vec<Rgb>, level: u8) -> (r: Vec<Rgb>)
    ensures
        r@.len() == corrected@.len(),
        forall|i: int| 0 <= i < r@.len() ==> #[trigger] r@[i] == dimmed(corrected@[i], level),
{
    brightness_frame(corrected, level)
}

/// The frame to write for `frame` at global brightness `level`: each pixel gamma-corrected,
/// then scaled.
pub fn output_frame(frame: &Vec<Rgb>, level: u8) -> (r: Vec<Rgb>)
    ensures
        r@.len() == frame@.len(),
        forall|i: int| 0 <= i < r@.len() ==> #[trigger] r@[i] == dimmed(gamma_pixel(frame@[i]), level),
{
    let corrected = gamma_frame(frame);
    assert forall|i: int| 0 <= i < corrected@.len() implies #[trigger] corrected@[i] == gamma_pixel(
        frame@[i],
    ) by {
        assert(corrected@[i].r == gamma_of(frame@[i].r));
    }
    dim_frame(&corrected, level)
}

/// A frame of the string's length with every pixel `c`.
pub fn solid_frame(c: Rgb) -> (r: Vec<Rgb>)
    ensures
        r@.len() == LED_STRING_SIZE,
        forall|i: int| 0 <= i < r@.len() ==> #[trigger] r@[i] == c,
{
    let mut out: Vec<Rgb> = Vec::new();
    let mut i: usize = 0;
    while i < LED_STRING_SIZE
        invariant
            0 <= i <= LED_STRING_SIZE,
            out@.len() == i,
            forall|j: int| 0 <= j < i ==> #[trigger] out@[j] == c,
        decreases LED_STRING_SIZE - i,
    {
        out.push(c);
        i = i + 1;
    }
    out
}

} // verus!
