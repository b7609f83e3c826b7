use hue_cycler::color::Rgb8;
use hue_cycler::theme::{ColorPair, Theme};

#[test]
fn parse_well_formed_hex_line() {
    let t = Theme::parse("color1 #c30670");
    assert_eq!(t.colors.len(), 1);
    assert_eq!(t.colors[0].name, "color1");
    assert_eq!(t.colors[0].value, Rgb8 { r: 0xc3, g: 0x06, b: 0x70 });
}

#[test]
fn parse_upper_case_hex_line() {
    let t = Theme::parse("cursor #C30670");
    assert_eq!(t.colors.len(), 1);
    assert_eq!(t.colors[0].value, Rgb8 { r: 0xc3, g: 0x06, b: 0x70 });
}

#[test]
fn parse_extreme_hex_values() {
    let t = Theme::parse("black #000000\nwhite #ffffff");
    assert_eq!(t.colors.len(), 2);
    assert_eq!(t.colors[0].value, Rgb8 { r: 0, g: 0, b: 0 });
    assert_eq!(t.colors[1].value, Rgb8 { r: 255, g: 255, b: 255 });
}

#[test]
fn parse_named_color_through_decoder() {
    let t = Theme::parse("foreground red");
    assert_eq!(t.colors.len(), 1);
    assert_eq!(t.colors[0].value, Rgb8 { r: 255, g: 0, b: 0 });
}

#[test]
fn parse_skips_empty_and_one_field_lines() {
    let t = Theme::parse("\nonlyname\n   \ncolor1 #102030\n");
    assert_eq!(t.colors.len(), 1);
    assert_eq!(t.colors[0].name, "color1");
    assert_eq!(t.colors[0].value, Rgb8 { r: 0x10, g: 0x20, b: 0x30 });
}

#[test]
fn parse_skips_undecodable_color_tokens() {
    let t = Theme::parse("bad #12345g\nworse notacolor\ngood #abcdef");
    assert_eq!(t.colors.len(), 1);
    assert_eq!(t.colors[0].name, "good");
    assert_eq!(t.colors[0].value, Rgb8 { r: 0xab, g: 0xcd, b: 0xef });
}

#[test]
fn parse_drops_function_notation_tokens() {
    let t = Theme::parse("a rgb(255,0,0)\nb hsl(120,100%,50%)\nc #102030");
    assert_eq!(t.colors.len(), 1);
    assert_eq!(t.colors[0].name, "c");
}

#[test]
fn parse_survives_malformed_function_notation() {
    // these argument shapes can abort the css decoder; the parser must drop
    // them instead
    let t = Theme::parse("a cmyk(0,0,0,0)\nb rgb(50%,0,0)\nc #c30670");
    assert_eq!(t.colors.len(), 1);
    assert_eq!(t.colors[0].name, "c");
    assert_eq!(t.colors[0].value, Rgb8 { r: 0xc3, g: 0x06, b: 0x70 });
}

#[test]
fn parse_keeps_input_line_order() {
    let t = Theme::parse("a #010101\nb #020202\nc #030303");
    let names: Vec<&str> = t.colors.iter().map(|p| p.name.as_str()).collect();
    assert_eq!(names, vec!["a", "b", "c"]);
}

#[test]
fn parse_ignores_fields_after_the_second() {
    let t = Theme::parse("name #0a0b0c trailing junk");
    assert_eq!(t.colors.len(), 1);
    assert_eq!(t.colors[0].value, Rgb8 { r: 0x0a, g: 0x0b, b: 0x0c });
}

#[test]
fn parse_splits_fields_on_any_whitespace() {
    let t = Theme::parse("tabbed\t#010203\nwide\u{3000}#040506");
    assert_eq!(t.colors.len(), 2);
    assert_eq!(t.colors[0].name, "tabbed");
    assert_eq!(t.colors[0].value, Rgb8 { r: 1, g: 2, b: 3 });
    assert_eq!(t.colors[1].name, "wide");
    assert_eq!(t.colors[1].value, Rgb8 { r: 4, g: 5, b: 6 });
}

#[test]
fn parse_alpha_hex_keeps_the_color_channels() {
    let t = Theme::parse("translucent #c3067080");
    assert_eq!(t.colors.len(), 1);
    assert_eq!(t.colors[0].value, Rgb8 { r: 0xc3, g: 0x06, b: 0x70 });
}

#[test]
fn parse_handles_crlf_line_endings() {
    let t = Theme::parse("a #010101\r\nb #020202\r\n");
    assert_eq!(t.colors.len(), 2);
    assert_eq!(t.colors[1].name, "b");
}

#[test]
fn to_hex_is_upper_case_rrggbb() {
    let pair = ColorPair { name: String::from("x"), value: Rgb8 { r: 0xc3, g: 0x06, b: 0x70 } };
    assert_eq!(pair.to_hex(), "#C30670");
}

#[test]
fn dump_joins_lines_without_trailing_newline() {
    let theme = Theme {
        colors: vec![
            ColorPair { name: String::from("one"), value: Rgb8 { r: 0x0a, g: 0x0b, b: 0x0c } },
            ColorPair { name: String::from("two"), value: Rgb8 { r: 0xff, g: 0x00, b: 0x7f } },
        ],
    };
    assert_eq!(theme.dump(), "one #0A0B0C\ntwo #FF007F");
}

#[test]
fn dump_of_empty_theme_is_empty() {
    let theme = Theme { colors: vec![] };
    assert_eq!(theme.dump(), "");
}

#[test]
fn dump_then_parse_reproduces_the_palette() {
    let theme = Theme {
        colors: vec![
            ColorPair { name: String::from("background"), value: Rgb8 { r: 0x1d, g: 0x1f, b: 0x21 } },
            ColorPair { name: String::from("foreground"), value: Rgb8 { r: 0xc5, g: 0xc8, b: 0xc6 } },
            ColorPair { name: String::from("color0"), value: Rgb8 { r: 0x00, g: 0x00, b: 0x00 } },
            ColorPair { name: String::from("color15"), value: Rgb8 { r: 0xff, g: 0xff, b: 0xff } },
        ],
    };
    let reparsed = Theme::parse(&theme.dump());
    assert_eq!(reparsed.colors.len(), theme.colors.len());
    for (a, b) in theme.colors.iter().zip(reparsed.colors.iter()) {
        assert_eq!(a.name, b.name);
        assert_eq!(a.value, b.value);
    }
}

#[test]
fn assignments_are_name_equals_hex() {
    let theme = Theme {
        colors: vec![
            ColorPair { name: String::from("background"), value: Rgb8 { r: 0x1d, g: 0x1f, b: 0x21 } },
            ColorPair { name: String::from("cursor"), value: Rgb8 { r: 0xc3, g: 0x06, b: 0x70 } },
        ],
    };
    assert_eq!(theme.assignments(), vec!["background=#1D1F21", "cursor=#C30670"]);
}
