use whiskers2::cli::ColorOverrides;
use whiskers2::models::{HSL, RGB};
use whiskers2::palette::{build_palette, PaletteError};

fn entries(items: &[(&str, &str)]) -> Vec<(String, String)> {
    items.iter().map(|(k, v)| (k.to_string(), v.to_string())).collect()
}

fn overrides() -> ColorOverrides {
    ColorOverrides { all: vec![], latte: vec![], frappe: vec![], macchiato: vec![], mocha: vec![] }
}

const IDENTIFIERS: [&str; 26] = [
    "rosewater", "flamingo", "pink", "mauve", "red", "maroon", "peach", "yellow", "green", "teal",
    "sky", "sapphire", "blue", "lavender", "text", "subtext1", "subtext0", "overlay2", "overlay1",
    "overlay0", "surface2", "surface1", "surface0", "base", "mantle", "crust",
];

#[test]
fn palette_holds_the_four_flavors_in_order() {
    let palette = build_palette(false, None, None).unwrap();
    let flavors = palette.iter();
    let keys: Vec<&str> = flavors.iter().map(|(k, _)| k.as_str()).collect();
    assert_eq!(keys, vec!["latte", "frappe", "macchiato", "mocha"]);
    let names: Vec<&str> = flavors.iter().map(|(_, f)| f.name.as_str()).collect();
    assert_eq!(names, vec!["Latte", "Frappé", "Macchiato", "Mocha"]);
    for (key, flavor) in flavors {
        assert_eq!(*key, flavor.identifier);
        assert_eq!(flavor.dark, key != "latte");
        assert_eq!(flavor.light, !flavor.dark);
    }
}

#[test]
fn every_flavor_holds_the_colors_in_order() {
    let palette = build_palette(false, None, None).unwrap();
    for (_, flavor) in palette.iter() {
        let colors = flavor.iter();
        assert_eq!(colors.len(), 26);
        for (i, (key, color)) in colors.iter().enumerate() {
            assert_eq!(key.as_str(), IDENTIFIERS[i]);
            assert_eq!(color.identifier, IDENTIFIERS[i]);
            assert_eq!(color.accent, i < 14);
            assert_eq!(color.opacity, 255);
            assert_eq!(color.hex.len(), 6);
            assert!(color.hsl.h < 360 && color.hsl.s <= 100 && color.hsl.l <= 100);
        }
    }
}

#[test]
fn palette_has_the_canonical_values() {
    let palette = build_palette(false, None, None).unwrap();
    let latte = palette.get("latte").unwrap();
    let rosewater = latte.get("rosewater").unwrap();
    assert_eq!(rosewater.name, "Rosewater");
    assert_eq!(rosewater.hex, "dc8a78");
    assert_eq!(rosewater.rgb, RGB { r: 220, g: 138, b: 120 });
    assert_eq!(rosewater.hsl, HSL { h: 11, s: 59, l: 67 });
    assert!(rosewater.accent);
    let mocha = palette.get("mocha").unwrap();
    assert_eq!(mocha.get("base").unwrap().hex, "1e1e2e");
    assert_eq!(mocha.get("text").unwrap().hex, "cdd6f4");
    assert!(!mocha.get("base").unwrap().accent);
    assert!(palette.get("espresso").is_none());
    assert!(latte.get("magenta").is_none());
}

#[test]
fn palette_applies_case_and_prefix() {
    let palette = build_palette(true, Some("#"), None).unwrap();
    let color = palette.get("latte").unwrap().get("rosewater").unwrap().clone();
    assert_eq!(color.hex, "#DC8A78");
    assert_eq!(color.mod_opacity(128).hex, "#DC8A7880");
    assert_eq!(color.mod_saturation(0).hex.len(), 7);
    assert_eq!(color.mod_opacity(1).add_hue(30).hex.len(), 9);
    let palette = build_palette(true, None, None).unwrap();
    assert_eq!(palette.get("mocha").unwrap().get("base").unwrap().hex, "1E1E2E");
    let palette = build_palette(false, Some("0x"), None).unwrap();
    assert_eq!(palette.get("mocha").unwrap().get("base").unwrap().hex, "0x1e1e2e");
}

#[test]
fn override_for_all_flavors_replaces_the_color() {
    let mut o = overrides();
    o.all = entries(&[("base", "ff0000")]);
    let palette = build_palette(false, None, Some(&o)).unwrap();
    for (_, flavor) in palette.iter() {
        let base = flavor.get("base").unwrap();
        assert_eq!(base.hex, "ff0000");
        assert_eq!(base.rgb, RGB { r: 255, g: 0, b: 0 });
        assert_eq!(base.hsl, HSL { h: 0, s: 100, l: 50 });
        assert_eq!(base.opacity, 255);
        assert_eq!(base.name, "Base");
        assert_eq!(flavor.iter().len(), 26);
        assert_eq!(flavor.iter()[23].0, "base");
    }
    assert_eq!(palette.get("mocha").unwrap().get("mantle").unwrap().hex, "181825");
}

#[test]
fn override_for_one_flavor_takes_precedence() {
    let mut o = overrides();
    o.all = entries(&[("base", "ff0000"), ("text", "00ff00")]);
    o.mocha = entries(&[("base", "0000FF")]);
    let palette = build_palette(false, None, Some(&o)).unwrap();
    assert_eq!(palette.get("mocha").unwrap().get("base").unwrap().hex, "0000ff");
    assert_eq!(palette.get("mocha").unwrap().get("text").unwrap().hex, "00ff00");
    assert_eq!(palette.get("latte").unwrap().get("base").unwrap().hex, "ff0000");
    assert_eq!(palette.get("frappe").unwrap().get("base").unwrap().hex, "ff0000");
}

#[test]
fn override_with_alpha_sets_the_opacity() {
    let mut o = overrides();
    o.latte = entries(&[("crust", "80808040")]);
    let palette = build_palette(true, None, Some(&o)).unwrap();
    let crust = palette.get("latte").unwrap().get("crust").unwrap();
    assert_eq!(crust.opacity, 64);
    assert_eq!(crust.hex, "80808040");
    assert_eq!(crust.rgb, RGB { r: 128, g: 128, b: 128 });
    assert_eq!(crust.hsl, HSL { h: 0, s: 0, l: 50 });
    assert_eq!(palette.get("mocha").unwrap().get("crust").unwrap().opacity, 255);
}

#[test]
fn later_override_of_a_color_counts() {
    let mut o = overrides();
    o.all = entries(&[("base", "111111"), ("base", "222222")]);
    let palette = build_palette(false, None, Some(&o)).unwrap();
    assert_eq!(palette.get("latte").unwrap().get("base").unwrap().hex, "222222");
}

#[test]
fn unknown_color_identifier_is_refused() {
    let mut o = overrides();
    o.all = entries(&[("base", "ff0000"), ("magenta", "ff00ff")]);
    assert!(matches!(build_palette(false, None, Some(&o)), Err(PaletteError::UnknownColorIdentifier)));
    let mut o = overrides();
    o.macchiato = entries(&[("Base", "ff0000")]);
    assert!(matches!(build_palette(false, None, Some(&o)), Err(PaletteError::UnknownColorIdentifier)));
    let mut o = overrides();
    o.latte = entries(&[("magenta", "not hex")]);
    assert!(matches!(build_palette(false, None, Some(&o)), Err(PaletteError::UnknownColorIdentifier)));
}

#[test]
fn malformed_override_value_is_refused() {
    for bad in ["", "#ff0000", "ff00", "red", "ff0000f"] {
        let mut o = overrides();
        o.frappe = entries(&[("base", bad)]);
        assert!(matches!(build_palette(false, None, Some(&o)), Err(PaletteError::OverrideDecodeError)));
    }
}

#[test]
fn empty_overrides_change_nothing() {
    let o = overrides();
    let with = build_palette(false, None, Some(&o)).unwrap();
    let without = build_palette(false, None, None).unwrap();
    for ((_, a), (_, b)) in with.iter().into_iter().zip(without.iter()) {
        for ((_, x), (_, y)) in a.iter().into_iter().zip(b.iter()) {
            assert_eq!(x, y);
        }
    }
}
