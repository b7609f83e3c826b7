use hue_cycler::color::Rgb8;
use hue_cycler::rotate::rotate_rgb;
use hue_cycler::theme::{ColorPair, Theme};

use palette::{FromColor, Lch, Srgb};

fn lch_of(c: Rgb8) -> Lch {
    let rgb: Srgb = Srgb::new(c.r, c.g, c.b).into_format();
    Lch::from_color(rgb)
}

fn channel_delta(a: Rgb8, b: Rgb8) -> u8 {
    let dr = a.r.abs_diff(b.r);
    let dg = a.g.abs_diff(b.g);
    let db = a.b.abs_diff(b.b);
    dr.max(dg).max(db)
}

fn hue_delta_degrees(a: f32, b: f32) -> f32 {
    let mut d = (b - a) % 360.0;
    if d > 180.0 {
        d -= 360.0;
    }
    if d < -180.0 {
        d += 360.0;
    }
    d
}

#[test]
fn rotation_preserves_names_and_order() {
    let theme = Theme {
        colors: vec![
            ColorPair { name: String::from("background"), value: Rgb8 { r: 0x1d, g: 0x1f, b: 0x21 } },
            ColorPair { name: String::from("foreground"), value: Rgb8 { r: 0xc5, g: 0xc8, b: 0xc6 } },
            ColorPair { name: String::from("cursor"), value: Rgb8 { r: 0xc3, g: 0x06, b: 0x70 } },
        ],
    };
    let rotated = theme.rotate(11);
    assert_eq!(rotated.colors.len(), theme.colors.len());
    for (a, b) in theme.colors.iter().zip(rotated.colors.iter()) {
        assert_eq!(a.name, b.name);
    }
}

#[test]
fn zero_step_leaves_values_unchanged_within_rounding() {
    let samples = [
        Rgb8 { r: 0xc3, g: 0x06, b: 0x70 },
        Rgb8 { r: 0x1d, g: 0x1f, b: 0x21 },
        Rgb8 { r: 0x80, g: 0x80, b: 0x80 },
        Rgb8 { r: 0x20, g: 0xa0, b: 0x40 },
        Rgb8 { r: 0xf0, g: 0xe0, b: 0x10 },
    ];
    for &c in samples.iter() {
        let out = rotate_rgb(c, 0);
        assert!(channel_delta(c, out) <= 1, "{:?} moved to {:?}", c, out);
    }
}

#[test]
fn rotating_twice_matches_the_summed_step_within_tolerance() {
    let samples = [
        Rgb8 { r: 0xc3, g: 0x06, b: 0x70 },
        Rgb8 { r: 0x20, g: 0xa0, b: 0x40 },
        Rgb8 { r: 0x46, g: 0x32, b: 0xb4 },
    ];
    for &c in samples.iter() {
        let two_steps = rotate_rgb(rotate_rgb(c, 21), 11);
        let one_step = rotate_rgb(c, 32);
        assert!(
            channel_delta(two_steps, one_step) <= 3,
            "{:?}: {:?} vs {:?}",
            c,
            two_steps,
            one_step
        );
    }
}

#[test]
fn end_to_end_single_step_shifts_hue_only() {
    let theme = Theme::parse("color1 #c30670");
    let rotated = theme.rotate(21);
    let dumped = rotated.dump();
    assert!(dumped.starts_with("color1 #"));

    let before = lch_of(theme.colors[0].value);
    let reparsed = Theme::parse(&dumped);
    assert_eq!(reparsed.colors.len(), 1);
    let after = lch_of(reparsed.colors[0].value);

    let shift = hue_delta_degrees(before.hue.into_positive_degrees(), after.hue.into_positive_degrees());
    assert!((shift - 2.1).abs() < 0.5, "hue moved by {} degrees", shift);
    assert!((before.l - after.l).abs() < 1.0, "lightness moved from {} to {}", before.l, after.l);
    assert!(
        (before.chroma - after.chroma).abs() < 1.0,
        "chroma moved from {} to {}",
        before.chroma,
        after.chroma
    );
}
