use whiskers2::filters::{self, FilterArgs};
use whiskers2::hex::{format_hex, parse_hex};
use whiskers2::models::{rgb_to_hex, rgb_to_hsl, Color, HSL, RGB};

fn sample(h: u16, s: u8, l: u8, opacity: u8) -> Color {
    Color {
        name: "Sample".to_string(),
        identifier: "sample".to_string(),
        accent: true,
        hex: rgb_to_hex(&RGB { r: 10, g: 20, b: 30 }, opacity),
        rgb: RGB { r: 10, g: 20, b: 30 },
        hsl: HSL { h, s, l },
        opacity,
        capitalize_hex: false,
        hex_prefix: String::new(),
    }
}

fn with_rgb(r: u8, g: u8, b: u8, opacity: u8) -> Color {
    let mut c = sample(0, 0, 0, opacity);
    c.rgb = RGB { r, g, b };
    c.hex = rgb_to_hex(&c.rgb, opacity);
    c
}

fn no_args() -> FilterArgs {
    FilterArgs { hue: None, saturation: None, lightness: None, opacity: None }
}

#[test]
fn hex_has_six_digits_when_opaque() {
    assert_eq!(rgb_to_hex(&RGB { r: 220, g: 138, b: 120 }, 255), "dc8a78");
    assert_eq!(rgb_to_hex(&RGB { r: 0, g: 0, b: 0 }, 255), "000000");
    assert_eq!(rgb_to_hex(&RGB { r: 255, g: 255, b: 255 }, 255), "ffffff");
}

#[test]
fn hex_has_eight_digits_when_translucent() {
    assert_eq!(rgb_to_hex(&RGB { r: 220, g: 138, b: 120 }, 128), "dc8a7880");
    assert_eq!(rgb_to_hex(&RGB { r: 1, g: 2, b: 3 }, 0), "01020300");
    assert_eq!(rgb_to_hex(&RGB { r: 1, g: 2, b: 3 }, 254), "010203fe");
}

#[test]
fn format_hex_applies_case_and_prefix() {
    assert_eq!(format_hex(220, 138, 120, 255, true, "#"), "#DC8A78");
    assert_eq!(format_hex(220, 138, 120, 255, false, "0x"), "0xdc8a78");
    assert_eq!(format_hex(171, 205, 239, 16, true, ""), "ABCDEF10");
}

#[test]
fn hex_shape_holds_for_every_opacity() {
    for opacity in 0..=255u8 {
        for upper in [false, true] {
            let hex = format_hex(0xab, 0xcd, 0xef, opacity, upper, "");
            assert_eq!(hex.len(), if opacity == 255 { 6 } else { 8 });
            for c in hex.chars() {
                assert!(c.is_ascii_hexdigit());
                assert!(c.is_ascii_digit() || c.is_ascii_uppercase() == upper);
            }
        }
    }
}

#[test]
fn parse_hex_reads_six_and_eight_digits() {
    assert_eq!(parse_hex("dc8a78"), Some((220, 138, 120, 255)));
    assert_eq!(parse_hex("DC8A78"), Some((220, 138, 120, 255)));
    assert_eq!(parse_hex("dc8a7880"), Some((220, 138, 120, 128)));
    assert_eq!(parse_hex("00000000"), Some((0, 0, 0, 0)));
}

#[test]
fn parse_hex_refuses_other_strings() {
    assert_eq!(parse_hex(""), None);
    assert_eq!(parse_hex("#dc8a78"), None);
    assert_eq!(parse_hex("dc8a7"), None);
    assert_eq!(parse_hex("dc8a788"), None);
    assert_eq!(parse_hex("dc8a78800"), None);
    assert_eq!(parse_hex("dc8g78"), None);
    assert_eq!(parse_hex("dc8a7é"), None);
}

#[test]
fn parse_hex_inverts_format_hex() {
    for v in 0..=255u8 {
        let w = v.wrapping_mul(7).wrapping_add(3);
        assert_eq!(parse_hex(&format_hex(v, w, 255 - v, 255, false, "")), Some((v, w, 255 - v, 255)));
        let expected = if w == 255 { (w, v, v, 255) } else { (w, v, v, w) };
        assert_eq!(parse_hex(&format_hex(w, v, v, w, true, "")), Some(expected));
    }
}

#[test]
fn mod_hue_sets_every_hue_on_the_circle() {
    let c = sample(200, 40, 60, 255);
    for h in 0..360 {
        assert_eq!(c.mod_hue(h).hsl.h, h as u16);
    }
}

#[test]
fn mod_hue_wraps_angles_outside_the_circle() {
    let c = sample(200, 40, 60, 255);
    assert_eq!(c.mod_hue(-90).hsl.h, 270);
    assert_eq!(c.mod_hue(540).hsl.h, 180);
    assert_eq!(c.mod_hue(360).hsl.h, 0);
    assert_eq!(c.mod_hue(-360).hsl.h, 0);
    assert_eq!(c.mod_hue(-1).hsl.h, 359);
}

#[test]
fn add_hue_rotates_and_wraps() {
    let c = sample(350, 40, 60, 255);
    assert_eq!(c.add_hue(20).hsl.h, 10);
    assert_eq!(c.add_hue(0).hsl.h, 350);
    assert_eq!(c.add_hue(-20).hsl.h, 330);
    assert_eq!(c.add_hue(730).hsl.h, 0);
    assert_eq!(c.add_hue(20).hsl.s, 40);
    assert_eq!(c.add_hue(20).hsl.l, 60);
}

#[test]
fn sub_hue_rotates_backward_and_wraps() {
    let c = sample(10, 40, 60, 255);
    assert_eq!(c.sub_hue(20).hsl.h, 350);
    assert_eq!(c.sub_hue(0).hsl.h, 10);
    assert_eq!(c.sub_hue(-20).hsl.h, 30);
    assert_eq!(c.sub_hue(370).hsl.h, 0);
}

#[test]
fn hue_rotation_round_trips() {
    for start in [0u16, 1, 59, 180, 299, 359] {
        let c = sample(start, 40, 60, 255);
        for h in -800..800 {
            assert_eq!(c.add_hue(h).sub_hue(h).hsl.h, start);
        }
    }
}

#[test]
fn saturation_adjustments_stay_within_bounds() {
    for s in 0..=100u8 {
        let c = sample(120, s, 50, 255);
        for a in 0..=255u8 {
            let up = c.add_saturation(a).hsl;
            let down = c.sub_saturation(a).hsl;
            assert_eq!(up.s as u16, (s as u16 + a as u16).min(100));
            assert_eq!(down.s, s.saturating_sub(a));
            assert_eq!((up.h, up.l), (120, 50));
            assert_eq!((down.h, down.l), (120, 50));
        }
    }
}

#[test]
fn lightness_adjustments_stay_within_bounds() {
    for l in 0..=100u8 {
        let c = sample(120, 50, l, 255);
        for a in 0..=255u8 {
            let up = c.add_lightness(a).hsl;
            let down = c.sub_lightness(a).hsl;
            assert_eq!(up.l as u16, (l as u16 + a as u16).min(100));
            assert_eq!(down.l, l.saturating_sub(a));
            assert_eq!((up.h, up.s), (120, 50));
            assert_eq!((down.h, down.s), (120, 50));
        }
    }
}

#[test]
fn mod_saturation_and_lightness_clamp_to_one_hundred() {
    let c = sample(120, 50, 50, 255);
    assert_eq!(c.mod_saturation(30).hsl, HSL { h: 120, s: 30, l: 50 });
    assert_eq!(c.mod_saturation(100).hsl.s, 100);
    assert_eq!(c.mod_saturation(101).hsl.s, 100);
    assert_eq!(c.mod_saturation(255).hsl.s, 100);
    assert_eq!(c.mod_lightness(0).hsl, HSL { h: 120, s: 50, l: 0 });
    assert_eq!(c.mod_lightness(200).hsl.l, 100);
}

#[test]
fn grey_keeps_equal_channels() {
    let c = sample(0, 50, 50, 255).mod_saturation(0);
    assert_eq!(c.rgb, RGB { r: 128, g: 128, b: 128 });
    assert_eq!(c.hex, "808080");
    let white = c.mod_lightness(100);
    assert_eq!(white.rgb, RGB { r: 255, g: 255, b: 255 });
    let black = c.mod_lightness(0);
    assert_eq!(black.rgb, RGB { r: 0, g: 0, b: 0 });
    assert_eq!(black.hex, "000000");
}

#[test]
fn hsl_operation_keeps_identity_and_recomputes_hex() {
    let mut c = sample(0, 0, 50, 128);
    c.capitalize_hex = true;
    c.hex_prefix = "#".to_string();
    let d = c.add_lightness(50);
    assert_eq!(d.name, "Sample");
    assert_eq!(d.identifier, "sample");
    assert!(d.accent);
    assert_eq!(d.opacity, 128);
    assert_eq!(d.rgb, RGB { r: 255, g: 255, b: 255 });
    assert_eq!(d.hex, "#FFFFFF80");
    assert_eq!(d.mod_opacity(255).hex, "#FFFFFF");
    assert!(d.capitalize_hex);
    assert_eq!(d.hex_prefix, "#");
    assert_eq!(c.hsl, HSL { h: 0, s: 0, l: 50 });
}

#[test]
fn from_rgba_converts_to_hsl() {
    let blueprint = sample(0, 0, 0, 255);
    let red = Color::from_rgba(RGB { r: 255, g: 0, b: 0 }, 255, &blueprint);
    assert_eq!(red.hsl, HSL { h: 0, s: 100, l: 50 });
    assert_eq!(red.hex, "ff0000");
    let grey = Color::from_rgba(RGB { r: 128, g: 128, b: 128 }, 64, &blueprint);
    assert_eq!(grey.hsl, HSL { h: 0, s: 0, l: 50 });
    assert_eq!(grey.hex, "80808040");
    assert_eq!(grey.opacity, 64);
    let blue = Color::from_rgba(RGB { r: 0, g: 0, b: 255 }, 255, &blueprint);
    assert_eq!(blue.hsl.h, 240);
    let green = Color::from_rgba(RGB { r: 0, g: 255, b: 0 }, 255, &blueprint);
    assert_eq!(green.hsl.h, 120);
}

#[test]
fn from_hsla_converts_to_rgb() {
    let blueprint = sample(0, 0, 0, 10);
    let c = Color::from_hsla(HSL { h: 0, s: 0, l: 100 }, 255, &blueprint);
    assert_eq!(c.rgb, RGB { r: 255, g: 255, b: 255 });
    assert_eq!(c.opacity, 255);
    assert_eq!(c.hex, "ffffff");
    let faint = Color::from_hsla(HSL { h: 0, s: 0, l: 0 }, 16, &blueprint);
    assert_eq!(faint.hex, "00000010");
    assert_eq!(c.hsl, HSL { h: 0, s: 0, l: 100 });
    let red = Color::from_hsla(HSL { h: 0, s: 100, l: 50 }, 255, &blueprint);
    assert_eq!(red.rgb.r, 255);
    assert!(red.rgb.g <= 2 && red.rgb.b <= 2);
}

#[test]
fn with_channels_encodes_what_it_is_given() {
    let blueprint = sample(0, 0, 0, 255);
    let c = Color::with_channels(&blueprint, RGB { r: 1, g: 2, b: 3 }, HSL { h: 4, s: 5, l: 6 }, 7);
    assert_eq!(c.rgb, RGB { r: 1, g: 2, b: 3 });
    assert_eq!(c.hsl, HSL { h: 4, s: 5, l: 6 });
    assert_eq!(c.opacity, 7);
    assert_eq!(c.hex, "01020307");
    assert_eq!(c.identifier, "sample");
}

#[test]
fn hsl_operations_keep_the_opacity() {
    let c = sample(10, 20, 30, 77);
    assert_eq!(c.mod_hue(1).opacity, 77);
    assert_eq!(c.add_hue(1).opacity, 77);
    assert_eq!(c.sub_hue(1).opacity, 77);
    assert_eq!(c.mod_saturation(1).opacity, 77);
    assert_eq!(c.add_saturation(1).opacity, 77);
    assert_eq!(c.sub_saturation(1).opacity, 77);
    assert_eq!(c.mod_lightness(1).opacity, 77);
    assert_eq!(c.add_lightness(1).opacity, 77);
    assert_eq!(c.sub_lightness(1).opacity, 77);
    assert_eq!(c.mod_hue(1).hex.len(), 8);
}

#[test]
fn mod_opacity_sets_the_byte() {
    let c = with_rgb(220, 138, 120, 255);
    let d = c.mod_opacity(128);
    assert_eq!(d.opacity, 128);
    assert_eq!(d.hex, "dc8a7880");
    assert_eq!(d.rgb, c.rgb);
    assert_eq!(d.hsl, c.hsl);
    assert_eq!(d.mod_opacity(255).hex, "dc8a78");
    assert_eq!(c.mod_opacity(0).hex, "dc8a7800");
}

#[test]
fn opacity_adjustments_saturate() {
    let c = with_rgb(220, 138, 120, 200);
    assert_eq!(c.add_opacity(55).opacity, 255);
    assert_eq!(c.add_opacity(56).opacity, 255);
    assert_eq!(c.add_opacity(255).opacity, 255);
    assert_eq!(c.add_opacity(10).opacity, 210);
    assert_eq!(c.add_opacity(55).hex, "dc8a78");
    assert_eq!(c.sub_opacity(200).opacity, 0);
    assert_eq!(c.sub_opacity(201).opacity, 0);
    assert_eq!(c.sub_opacity(72).opacity, 128);
    assert_eq!(c.sub_opacity(72).hex, "dc8a7880");
    assert_eq!(c.sub_opacity(0).opacity, 200);
}

#[test]
fn mix_reproduces_the_ends() {
    let pairs = [
        (with_rgb(10, 200, 30, 255), with_rgb(250, 3, 77, 255)),
        (with_rgb(0, 0, 0, 0), with_rgb(255, 255, 255, 255)),
        (with_rgb(255, 255, 255, 255), with_rgb(0, 0, 0, 0)),
        (with_rgb(1, 2, 3, 40), with_rgb(200, 100, 50, 90)),
    ];
    for (a, b) in pairs.iter() {
        let at_base = Color::mix(a, b, 0);
        assert_eq!(at_base.rgb, a.rgb);
        assert_eq!(at_base.opacity, a.opacity);
        assert_eq!(at_base.hex, a.hex);
        let at_blend = Color::mix(a, b, 100);
        assert_eq!(at_blend.rgb, b.rgb);
        assert_eq!(at_blend.opacity, b.opacity);
        assert_eq!(at_blend.identifier, a.identifier);
    }
}

#[test]
fn mix_of_black_and_white_is_grey() {
    let black = with_rgb(0, 0, 0, 255);
    let white = with_rgb(255, 255, 255, 255);
    let grey = Color::mix(&black, &white, 50);
    assert_eq!(grey.rgb, RGB { r: 128, g: 128, b: 128 });
    assert_eq!(grey.opacity, 255);
    assert_eq!(grey.hex, "808080");
    assert_eq!(grey.hsl, HSL { h: 0, s: 0, l: 50 });
    let light = Color::mix(&black, &white, 75);
    let dark = Color::mix(&black, &white, 25);
    assert!(light.rgb.r > grey.rgb.r);
    assert!(dark.rgb.r < grey.rgb.r);
}

#[test]
fn filters_without_argument_pass_through() {
    let c = sample(10, 20, 30, 255);
    assert!(filters::modify(&c, &no_args()).is_none());
    assert!(filters::add(&c, &no_args()).is_none());
    assert!(filters::sub(&c, &no_args()).is_none());
}

#[test]
fn filters_dispatch_on_the_argument() {
    let c = sample(10, 20, 30, 200);
    let hue = FilterArgs { hue: Some(90), ..no_args() };
    assert_eq!(filters::modify(&c, &hue).unwrap().hsl.h, 90);
    assert_eq!(filters::add(&c, &hue).unwrap().hsl.h, 100);
    assert_eq!(filters::sub(&c, &hue).unwrap().hsl.h, 280);
    let saturation = FilterArgs { saturation: Some(15), ..no_args() };
    assert_eq!(filters::modify(&c, &saturation).unwrap().hsl.s, 15);
    assert_eq!(filters::add(&c, &saturation).unwrap().hsl.s, 35);
    assert_eq!(filters::sub(&c, &saturation).unwrap().hsl.s, 5);
    let lightness = FilterArgs { lightness: Some(40), ..no_args() };
    assert_eq!(filters::modify(&c, &lightness).unwrap().hsl.l, 40);
    assert_eq!(filters::add(&c, &lightness).unwrap().hsl.l, 70);
    assert_eq!(filters::sub(&c, &lightness).unwrap().hsl.l, 0);
    let opacity = FilterArgs { opacity: Some(100), ..no_args() };
    assert_eq!(filters::modify(&c, &opacity).unwrap().opacity, 100);
    assert_eq!(filters::add(&c, &opacity).unwrap().opacity, 255);
    assert_eq!(filters::sub(&c, &opacity).unwrap().opacity, 100);
}

#[test]
fn filters_prefer_hue_over_the_other_arguments() {
    let c = sample(10, 20, 30, 200);
    let all = FilterArgs { hue: Some(90), saturation: Some(1), lightness: Some(2), opacity: Some(3) };
    let r = filters::modify(&c, &all).unwrap();
    assert_eq!(r.hsl, HSL { h: 90, s: 20, l: 30 });
    let rest = FilterArgs { hue: None, saturation: None, lightness: Some(2), opacity: Some(3) };
    let r = filters::modify(&c, &rest).unwrap();
    assert_eq!(r.hsl, HSL { h: 10, s: 20, l: 2 });
    assert_eq!(r.opacity, 200);
}

fn css_refuses(darkest: u8) -> bool {
    (darkest < 64 && darkest % 2 == 1) || (darkest >= 130 && darkest % 4 == 2)
}

#[test]
fn every_color_outside_the_bright_ones_converts() {
    for r in 0..=255u8 {
        for g in 0..=255u8 {
            for b in [0u8, 1, 2, 63, 127, 128, 130, 254, 255, r, g] {
                let hsl = rgb_to_hsl(RGB { r, g, b });
                assert!(hsl.h < 360 && hsl.s <= 100 && hsl.l <= 100);
                if r == g && g == b {
                    assert_eq!((hsl.h, hsl.s), (0, 0));
                }
            }
        }
    }
}

#[test]
fn bright_saturated_colors_convert() {
    assert_eq!(rgb_to_hsl(RGB { r: 255, g: 1, b: 1 }), HSL { h: 0, s: 100, l: 50 });
    assert_eq!(rgb_to_hsl(RGB { r: 255, g: 128, b: 128 }), HSL { h: 0, s: 100, l: 75 });
    assert_eq!(rgb_to_hsl(RGB { r: 255, g: 255, b: 128 }), HSL { h: 60, s: 100, l: 75 });
    assert_eq!(rgb_to_hsl(RGB { r: 128, g: 255, b: 128 }), HSL { h: 120, s: 100, l: 75 });
    assert_eq!(rgb_to_hsl(RGB { r: 128, g: 255, b: 255 }), HSL { h: 180, s: 100, l: 75 });
    assert_eq!(rgb_to_hsl(RGB { r: 128, g: 128, b: 255 }), HSL { h: 240, s: 100, l: 75 });
    assert_eq!(rgb_to_hsl(RGB { r: 255, g: 128, b: 255 }), HSL { h: 300, s: 100, l: 75 });
    assert_eq!(rgb_to_hsl(RGB { r: 255, g: 130, b: 200 }), HSL { h: 326, s: 100, l: 76 });
    assert_eq!(rgb_to_hsl(RGB { r: 255, g: 254, b: 254 }), HSL { h: 0, s: 100, l: 100 });
    assert_eq!(rgb_to_hsl(RGB { r: 200, g: 255, b: 1 }), HSL { h: 73, s: 100, l: 50 });
}

#[test]
fn bright_saturated_colors_agree_with_the_general_conversion() {
    for darkest in 1..255u8 {
        if css_refuses(darkest) {
            continue;
        }
        for other in darkest..=255u8 {
            for (r, g, b) in [
                (255, other, darkest),
                (255, darkest, other),
                (other, 255, darkest),
                (darkest, 255, other),
                (other, darkest, 255),
                (darkest, other, 255),
            ] {
                let ours = rgb_to_hsl(RGB { r, g, b });
                let theirs = css_colors::Color::to_hsl(css_colors::rgb(r, g, b));
                assert_eq!(ours.s, 100);
                assert_eq!(theirs.s.as_percentage(), 100);
                let turn = (ours.h + 360 - theirs.h.degrees()) % 360;
                assert!(turn <= 1 || turn == 359, "hue of {r} {g} {b}");
                let l = theirs.l.as_percentage();
                assert!(ours.l == l || ours.l + 1 == l || ours.l == l + 1, "lightness of {r} {g} {b}");
            }
        }
    }
}

fn convert_hues(from: u16, to: u16) {
    let blueprint = sample(0, 0, 0, 255);
    for h in from..to {
        for s in 0..=100u8 {
            for l in 0..=100u8 {
                let c = Color::from_hsla(HSL { h, s, l }, 255, &blueprint);
                assert_eq!(c.hsl, HSL { h, s, l });
                if s == 0 || l == 0 || l == 100 {
                    assert!(c.rgb.r == c.rgb.g && c.rgb.g == c.rgb.b);
                }
            }
        }
    }
}

#[test]
fn every_hsl_triple_converts_from_red_to_yellow() {
    convert_hues(0, 60);
}

#[test]
fn every_hsl_triple_converts_from_yellow_to_green() {
    convert_hues(60, 120);
}

#[test]
fn every_hsl_triple_converts_from_green_to_cyan() {
    convert_hues(120, 180);
}

#[test]
fn every_hsl_triple_converts_from_cyan_to_blue() {
    convert_hues(180, 240);
}

#[test]
fn every_hsl_triple_converts_from_blue_to_magenta() {
    convert_hues(240, 300);
}

#[test]
fn every_hsl_triple_converts_from_magenta_to_red() {
    convert_hues(300, 360);
}

#[test]
fn mix_accepts_every_amount() {
    for amount in 0..=100u8 {
        for a in (0..=255u8).step_by(15) {
            for b in (0..=255u8).step_by(17) {
                let base = with_rgb(a, 255 - a, 7, a);
                let blend = with_rgb(b, 3, 255 - b, b);
                let mixed = Color::mix(&base, &blend, amount);
                assert_eq!(mixed.identifier, "sample");
                assert_eq!(mixed.hex, rgb_to_hex(&mixed.rgb, mixed.opacity));
                assert!(mixed.rgb.r >= a.min(b).saturating_sub(1) && mixed.rgb.r <= a.max(b).saturating_add(1));
            }
        }
    }
}
