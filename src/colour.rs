//! Colours and brightness scaling.

use vstd::prelude::*;

use crate::utils::{clip, clip_min_spec};

verus! {

/// An 8-bit-per-channel RGB colour.
#[derive(Clone, Copy, PartialEq, Eq, Structural, Debug, Default)]
pub struct Rgb {
    pub r: u8,
    pub g: u8,
    pub b: u8,
}

impl Rgb {
    pub fn new(r: u8, g: u8, b: u8) -> (c: Rgb)
        ensures
            c == (Rgb { r, g, b }),
    {
        Rgb { r, g, b }
    }

    /// All channels off.
    pub fn black() -> (c: Rgb)
        ensures
            c == (Rgb { r: 0, g: 0, b: 0 }),
    {
        Rgb { r: 0, g: 0, b: 0 }
    }
}

/// One channel scaled by `brightness / 255`, rounded down.
pub open spec fn scale_channel(c: u8, brightness: u8) -> u8 {
    (c as int * brightness as int / 255) as u8
}

/// A colour with every channel scaled by `brightness / 255`.
pub open spec fn scaled(pixel: Rgb, brightness: u8) -> Rgb {
    Rgb {
        r: scale_channel(pixel.r, brightness),
        g: scale_channel(pixel.g, brightness),
        b: scale_channel(pixel.b, brightness),
    }
}

/// A scaled channel stays a byte and never exceeds the unscaled one.
pub proof fn lemma_scale_channel_bounds(c: u8, brightness: u8)
    ensures
        0 <= c as int * brightness as int / 255 <= c,
        brightness == 0 ==> scale_channel(c, brightness) == 0,
        brightness == 255 ==> scale_channel(c, brightness) == c,
{
    assert(0 <= c as int * brightness as int <= c as int * 255) by (nonlinear_arith);
    assert(c as int * brightness as int / 255 <= c) by (nonlinear_arith)
        requires
            0 <= c as int * brightness as int <= c as int * 255,
    ;
    assert(c as int * 255 / 255 == c) by (nonlinear_arith);
}

fn scale_u8(c: u8, brightness: u8) -> (r: u8)
    ensures
        r == scale_channel(c, brightness),
{
    proof {
        lemma_scale_channel_bounds(c, brightness);
    }
    ((c as u16 * brightness as u16) / 255) as u8
}

/// Scales a pixel by `brightness / 255`: 0 turns it off, 255 leaves it unchanged.
pub fn set_brightness(brightness: u8, pixel: Rgb) -> (r: Rgb)
    ensures
        r == scaled(pixel, brightness),
        brightness == 0 ==> r == Rgb::black_spec(),
        brightness == 255 ==> r == pixel,
{
    proof {
        lemma_scale_channel_bounds(pixel.r, brightness);
        lemma_scale_channel_bounds(pixel.g, brightness);
        lemma_scale_channel_bounds(pixel.b, brightness);
    }
    if brightness == 0 {
        return Rgb::black();
    }
    if brightness == 255 {
        return pixel;
    }
    Rgb::new(scale_u8(pixel.r, brightness), scale_u8(pixel.g, brightness), scale_u8(pixel.b, brightness))
}

impl Rgb {
    pub open spec fn black_spec() -> Rgb {
        Rgb { r: 0, g: 0, b: 0 }
    }
}

/// The brightness used for a peer heard at `rssi` dBm: `brightness` mapped linearly so that
/// -100 dBm gives 0, saturating at 255.
pub open spec fn rssi_level(rssi: i8, brightness: u8) -> u8 {
    if rssi as int + 100 <= 0 {
        0
    } else {
        clip_min_spec(brightness as int * (rssi as int + 100) * 3 / 255, 0) as u8
    }
}

/// Dims a colour according to how strongly its peer is heard.
pub fn adjust_brightness_for_rssi(colour: Rgb, rssi: i8, brightness: u8) -> (r: Rgb)
    ensures
        r == scaled(colour, rssi_level(rssi, brightness)),
{
    let level: u8 = if rssi as i16 + 100 <= 0 {
        0
    } else {
        let span: u32 = (rssi as i16 + 100) as u32;
        proof {
            assert(brightness as int * span * 3 <= 255 * 228 * 3) by (nonlinear_arith)
                requires
                    brightness <= 255,
                    span <= 228,
            ;
            assert(brightness as int * span * 3 / 255 <= 255 * 228 * 3 / 255) by (nonlinear_arith)
                requires
                    brightness as int * span * 3 <= 255 * 228 * 3,
            ;
        }
        clip((brightness as u32 * span * 3 / 255) as i16)
    };
    set_brightness(level, colour)
}

} // verus!
