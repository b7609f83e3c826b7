use vstd::prelude::*;

use crate::color::Rgb8;

use palette::FromColor;
use palette::ShiftHue;

verus! {

/// Relies on `palette`'s `Srgb`/`Lch` conversions and `ShiftHue::shift_hue`:
/// the color is taken to the cylindrical Lch space, its hue angle advanced
/// by the given step (tenths of a degree, wrapping modulo a full turn) with
/// lightness and chroma held, and brought back to 8-bit sRGB.  Those
/// conversions are floating point whose rounding the outside crate does not
/// pin down, so nothing is promised of the channels that come back; every
/// outcome is a color in gamut, which `Rgb8` already guarantees.
#[verifier::external_body]
pub(crate) fn rotate_channels(r: u8, g: u8, b: u8, step_tenths_deg: i16) -> (out: (u8, u8, u8)) {
    let linear: palette::Srgb = palette::Srgb::new(r, g, b).into_format();
    let lch: palette::Lch = palette::Lch::from_color(linear);
    let step = <palette::Lch as ShiftHue>::Scalar::from(step_tenths_deg) / <palette::Lch as ShiftHue>::Scalar::from(10i16);
    let rotated: palette::Srgb = palette::Srgb::from_color(lch.shift_hue(step));
    let back: palette::Srgb<u8> = rotated.into_format();
    (back.red, back.green, back.blue)
}

/// One color with its hue advanced by a step given in tenths of a degree.
/// The exact channels of the result are left open: the rotation runs through
/// the outside crate's floating-point color spaces, whose rounding is not
/// specified, so callers may rely only on getting some in-gamut color.
pub fn rotate_rgb(c: Rgb8, step_tenths_deg: i16) -> (out: Rgb8) {
    let channels = rotate_channels(c.r, c.g, c.b, step_tenths_deg);
    Rgb8 { r: channels.0, g: channels.1, b: channels.2 }
}

} // verus!
