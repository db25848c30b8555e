//! Colours and the operations that derive one colour from another.

use vstd::prelude::*;
use vstd::string::*;
use indexmap::IndexMap;
use crate::css::{
    css_darken, css_deg, css_desaturate, css_hsl_to_rgb, css_lighten, css_mix, css_neg,
    css_rgb_to_hsl, css_saturate, css_spin, hsl_to_rgb_channels, is_bright_saturated,
    mix_channels, rgb_to_hsl_channels,
};
pub use crate::palette::{build_palette, PaletteError};
use crate::ordered::{
    color_entries, colors_get, colors_get_index, colors_len, flavor_entries, flavors_get,
    flavors_get_index, flavors_len, looked_up,
};
use crate::hex::{format_hex, hex_digits, is_hex_char, lemma_hex_digits_shape};

verus! {

/// Red, green and blue channels.
#[derive(Clone, Copy, Debug, PartialEq, Eq, Structural)]
pub struct RGB {
    pub r: u8,
    pub g: u8,
    pub b: u8,
}

/// Hue in degrees, saturation and lightness in percent.
#[derive(Clone, Copy, Debug, PartialEq, Eq, Structural)]
pub struct HSL {
    pub h: u16,
    pub s: u8,
    pub l: u8,
}

impl HSL {
    /// The hue lies on the circle and both percentages are at most 100.
    pub open spec fn wf(&self) -> bool {
        self.h < 360 && self.s <= 100 && self.l <= 100
    }
}

/// One named colour of a flavor. `hex` is always the encoding of `rgb` and
/// `opacity` in the letter case and behind the prefix that the colour carries.
#[derive(Clone, Debug, PartialEq, Eq)]
pub struct Color {
    pub name: String,
    pub identifier: String,
    pub accent: bool,
    pub hex: String,
    pub rgb: RGB,
    pub hsl: HSL,
    pub opacity: u8,
    pub capitalize_hex: bool,
    pub hex_prefix: String,
}

/// One flavor of the palette: its display name, its stable key, whether it
/// is dark or light, and its colours by identifier in canonical order.
#[derive(Clone, Debug)]
pub struct Flavor {
    pub name: String,
    pub identifier: String,
    pub dark: bool,
    pub light: bool,
    pub colors: IndexMap<String, Color>,
}

/// The flavors by identifier, in canonical order.
#[derive(Clone, Debug)]
pub struct Palette {
    pub flavors: IndexMap<String, Flavor>,
}

/// A number of degrees brought into `0..360`.
pub open spec fn normalized_degrees(degrees: i32) -> int {
    (degrees as int) % 360
}

/// The hue reached from `h` by turning `degrees` forward around the circle.
pub open spec fn rotated_hue(h: u16, degrees: i32) -> int {
    (h + normalized_degrees(degrees)) % 360
}

/// The hue reached from `h` by turning `degrees` backward around the circle.
pub open spec fn counter_rotated_hue(h: u16, degrees: i32) -> int {
    (h + (360 - normalized_degrees(degrees)) % 360) % 360
}

/// A percentage raised by `amount`, stopping at 100.
pub open spec fn raised_percent(p: u8, amount: u8) -> int {
    if p + amount > 100 {
        100
    } else {
        p + amount
    }
}

/// A percentage or byte lowered by `amount`, stopping at 0.
pub open spec fn lowered_value(p: u8, amount: u8) -> int {
    if p < amount {
        0
    } else {
        p - amount
    }
}

/// A byte raised by `amount`, stopping at 255.
pub open spec fn raised_byte(v: u8, amount: u8) -> int {
    if v + amount > 255 {
        255
    } else {
        v + amount
    }
}

/// The whole number nearest to `n / d` for a positive `d`, a half counting
/// away from zero.
pub open spec fn rounded_quotient(n: int, d: int) -> int {
    if n >= 0 {
        (2 * n + d) / (2 * d)
    } else {
        -((2 * (-n) + d) / (2 * d))
    }
}

/// The smallest of the three channels.
pub open spec fn darkest(c: RGB) -> u8 {
    if c.r <= c.g && c.r <= c.b {
        c.r
    } else if c.g <= c.b {
        c.g
    } else {
        c.b
    }
}

/// The hue of a colour whose brightest channel is full: sixty degrees for
/// each sixth of the circle, measured from the full channel by the
/// difference of the other two over the spread of the colour.
pub open spec fn bright_hue(c: RGB) -> int {
    let spread = 255 - darkest(c);
    let turn = if c.r == 255 {
        rounded_quotient(60 * (c.g - c.b), spread)
    } else if c.g == 255 {
        120 + rounded_quotient(60 * (c.b - c.r), spread)
    } else {
        240 + rounded_quotient(60 * (c.r - c.g), spread)
    };
    (turn + 360) % 360
}

/// The lightness in percent of a colour whose brightest channel is full:
/// the mean of the brightest and the darkest channel, rounded to a byte
/// and then to a percentage.
pub open spec fn bright_lightness(c: RGB) -> int {
    let mean = (255 + darkest(c) + 1) / 2;
    (200 * mean + 255) / 510
}

/// The HSL triple of a colour: for a bright and fully saturated colour the
/// saturation is 100 and hue and lightness follow from the channels; for
/// every other colour the triple is the one that `css_colors` computes.
pub open spec fn hsl_of(c: RGB) -> (u16, u8, u8) {
    if is_bright_saturated(c) {
        (bright_hue(c) as u16, 100u8, bright_lightness(c) as u8)
    } else {
        rgb_to_hsl_channels(c.r, c.g, c.b)
    }
}

fn rounded_sixth(a: u8, b: u8, spread: u8) -> (r: (bool, u32))
    requires
        spread > 0,
        a - b <= spread,
        b - a <= spread,
    ensures
        r.1 <= 60,
        rounded_quotient(60 * (a - b), spread as int) == if r.0 {
            -(r.1 as int)
        } else {
            r.1 as int
        },
{
    let negative = a < b;
    let distance: u32 = if negative { (b - a) as u32 } else { (a - b) as u32 };
    let d: u32 = spread as u32;
    let q: u32 = (2 * 60 * distance + d) / (2 * d);
    proof {
        assert(q <= 60) by (nonlinear_arith)
            requires
                q == (2 * 60 * distance + d) / (2 * d),
                distance <= d,
                d > 0,
        ;
        assert(2 * (60 * distance) + d == 2 * 60 * distance + d);
        if negative {
            assert(-(60 * (a - b)) == 60 * distance);
        } else {
            assert(60 * (a - b) == 60 * distance);
        }
    }
    (negative && q > 0, q)
}

/// Converts red, green and blue into hue, saturation and lightness.
pub fn rgb_to_hsl(c: RGB) -> (r: HSL)
    ensures
        (r.h, r.s, r.l) == hsl_of(c),
        r.wf(),
{
    let full = c.r == 255 || c.g == 255 || c.b == 255;
    let faded = c.r < 255 || c.g < 255 || c.b < 255;
    if full && faded && c.r > 0 && c.g > 0 && c.b > 0 {
        let low: u8 = if c.r <= c.g && c.r <= c.b {
            c.r
        } else if c.g <= c.b {
            c.g
        } else {
            c.b
        };
        let spread: u8 = 255 - low;
        let (base, sixth): (u32, (bool, u32)) = if c.r == 255 {
            (360, rounded_sixth(c.g, c.b, spread))
        } else if c.g == 255 {
            (480, rounded_sixth(c.b, c.r, spread))
        } else {
            (600, rounded_sixth(c.r, c.g, spread))
        };
        let turn: u32 = if sixth.0 { base - sixth.1 } else { base + sixth.1 };
        let h: u32 = turn % 360;
        let mean: u32 = (255 + low as u32 + 1) / 2;
        let l: u32 = (200 * mean + 255) / 510;
        HSL { h: h as u16, s: 100, l: l as u8 }
    } else {
        css_rgb_to_hsl(c)
    }
}

/// Lower-case hexadecimal digits of the channels: six when `opacity` is 255,
/// eight otherwise, the alpha byte last.
pub fn rgb_to_hex(rgb: &RGB, opacity: u8) -> (s: String)
    ensures
        s@ == hex_digits(rgb.r, rgb.g, rgb.b, opacity, false),
        opacity == 255 ==> s@.len() == 6,
        opacity < 255 ==> s@.len() == 8,
{
    let s = format_hex(rgb.r, rgb.g, rgb.b, opacity, false, "");
    proof {
        reveal_strlit("");
        assert(""@ + hex_digits(rgb.r, rgb.g, rgb.b, opacity, false) =~= hex_digits(
            rgb.r,
            rgb.g,
            rgb.b,
            opacity,
            false,
        ));
        lemma_hex_digits_shape(rgb.r, rgb.g, rgb.b, opacity, false);
    }
    s
}

impl Color {
    /// The digits that `hex` must hold behind the prefix.
    pub open spec fn digits(&self) -> Seq<char> {
        hex_digits(self.rgb.r, self.rgb.g, self.rgb.b, self.opacity, self.capitalize_hex)
    }

    /// The colour's invariant: a valid HSL triple, and `hex` in step with
    /// `rgb`, `opacity` and the carried formatting options.
    pub open spec fn wf(&self) -> bool {
        self.hsl.wf() && self.hex@ == self.hex_prefix@ + self.digits()
    }

    /// What a transformation never changes: name, identifier, accent flag and
    /// the hex formatting options.
    pub open spec fn same_identity(&self, other: &Color) -> bool {
        &&& self.name@ == other.name@
        &&& self.identifier@ == other.identifier@
        &&& self.accent == other.accent
        &&& self.capitalize_hex == other.capitalize_hex
        &&& self.hex_prefix@ == other.hex_prefix@
    }

    /// The colour is `source` moved to the HSL triple `hsl`: with the same
    /// opacity, and with the red, green and blue that correspond to `hsl`.
    pub open spec fn is_hsl_variant_of(&self, source: &Color, hsl: HSL) -> bool {
        &&& self.same_identity(source)
        &&& self.hsl == hsl
        &&& self.opacity == source.opacity
        &&& (self.rgb.r, self.rgb.g, self.rgb.b) == hsl_to_rgb_channels(hsl.h, hsl.s, hsl.l)
        &&& self.hex@ == self.hex_prefix@ + self.digits()
    }

    /// The colour is `source` with another opacity and nothing else changed
    /// but the hex string, which follows.
    pub open spec fn is_opacity_variant_of(&self, source: &Color, opacity: int) -> bool {
        &&& self.same_identity(source)
        &&& self.hsl == source.hsl
        &&& self.rgb == source.rgb
        &&& self.opacity == opacity
        &&& self.hex@ == self.hex_prefix@ + self.digits()
    }

    /// Builds a colour from its parts and encodes its hex string in the given
    /// letter case behind the given prefix.
    pub fn new(
        name: String,
        identifier: String,
        accent: bool,
        rgb: RGB,
        hsl: HSL,
        opacity: u8,
        capitalize_hex: bool,
        hex_prefix: &str,
    ) -> (c: Color)
        ensures
            c.name@ == name@,
            c.identifier@ == identifier@,
            c.accent == accent,
            c.rgb == rgb,
            c.hsl == hsl,
            c.opacity == opacity,
            c.capitalize_hex == capitalize_hex,
            c.hex_prefix@ == hex_prefix@,
            c.hex@ == hex_prefix@ + hex_digits(rgb.r, rgb.g, rgb.b, opacity, capitalize_hex),
            hsl.wf() ==> c.wf(),
    {
        let hex = format_hex(rgb.r, rgb.g, rgb.b, opacity, capitalize_hex, hex_prefix);
        Color {
            name,
            identifier,
            accent,
            hex,
            rgb,
            hsl,
            opacity,
            capitalize_hex,
            hex_prefix: String::from_str(hex_prefix),
        }
    }

    /// Builds a colour with the identity and formatting of `blueprint` and
    /// the given channels, and encodes its hex string.
    pub fn with_channels(blueprint: &Color, rgb: RGB, hsl: HSL, opacity: u8) -> (c: Color)
        ensures
            c.same_identity(blueprint),
            c.rgb == rgb,
            c.hsl == hsl,
            c.opacity == opacity,
            c.hex@ == blueprint.hex_prefix@ + hex_digits(
                rgb.r,
                rgb.g,
                rgb.b,
                opacity,
                blueprint.capitalize_hex,
            ),
            hsl.wf() ==> c.wf(),
    {
        let hex = format_hex(
            rgb.r,
            rgb.g,
            rgb.b,
            opacity,
            blueprint.capitalize_hex,
            blueprint.hex_prefix.as_str(),
        );
        Color {
            name: blueprint.name.clone(),
            identifier: blueprint.identifier.clone(),
            accent: blueprint.accent,
            hex,
            rgb,
            hsl,
            opacity,
            capitalize_hex: blueprint.capitalize_hex,
            hex_prefix: blueprint.hex_prefix.clone(),
        }
    }

    /// The colour with the given HSL triple and opacity and the identity of
    /// `blueprint`; red, green and blue are converted from the triple.
    pub fn from_hsla(hsl: HSL, opacity: u8, blueprint: &Color) -> (c: Color)
        requires
            hsl.wf(),
        ensures
            c.same_identity(blueprint),
            c.hsl == hsl,
            c.opacity == opacity,
            (c.rgb.r, c.rgb.g, c.rgb.b) == hsl_to_rgb_channels(hsl.h, hsl.s, hsl.l),
            c.wf(),
    {
        let rgb = css_hsl_to_rgb(hsl);
        Color::with_channels(blueprint, rgb, hsl, opacity)
    }

    /// The colour with the given red, green, blue and opacity and the
    /// identity of `blueprint`; the HSL triple is converted from the channels.
    pub fn from_rgba(rgb: RGB, opacity: u8, blueprint: &Color) -> (c: Color)
        ensures
            c.same_identity(blueprint),
            c.rgb == rgb,
            c.opacity == opacity,
            (c.hsl.h, c.hsl.s, c.hsl.l) == hsl_of(rgb),
            c.wf(),
    {
        let hsl = rgb_to_hsl(rgb);
        Color::with_channels(blueprint, rgb, hsl, opacity)
    }

    /// Blends `blend` into `base`: `amount` percent of the result comes from
    /// `blend`, the rest from `base`, whose identity the result keeps. At 0
    /// the channels are those of `base`, at 100 those of `blend`.
    pub fn mix(base: &Color, blend: &Color, amount: u8) -> (c: Color)
        requires
            amount <= 100,
        ensures
            c.same_identity(base),
            (c.rgb.r, c.rgb.g, c.rgb.b, c.opacity) == mix_channels(
                blend.rgb.r,
                blend.rgb.g,
                blend.rgb.b,
                blend.opacity,
                base.rgb.r,
                base.rgb.g,
                base.rgb.b,
                base.opacity,
                amount,
            ),
            (c.hsl.h, c.hsl.s, c.hsl.l) == hsl_of(c.rgb),
            c.wf(),
            amount == 0 ==> c.rgb == base.rgb && c.opacity == base.opacity,
            amount == 100 ==> c.rgb == blend.rgb && c.opacity == blend.opacity,
    {
        let mixed = css_mix(blend.rgb, blend.opacity, base.rgb, base.opacity, amount);
        Color::from_rgba(mixed.0, mixed.1, base)
    }

    /// Sets the hue to `hue` degrees, taken around the circle.
    pub fn mod_hue(&self, hue: i32) -> (c: Color)
        requires
            self.hsl.wf(),
        ensures
            c.hsl.h == normalized_degrees(hue),
            0 <= hue < 360 ==> c.hsl.h == hue,
            c.is_hsl_variant_of(
                self,
                (HSL { h: normalized_degrees(hue) as u16, s: self.hsl.s, l: self.hsl.l }),
            ),
            c.wf(),
    {
        let hsl = HSL { h: css_deg(hue), s: self.hsl.s, l: self.hsl.l };
        Color::from_hsla(hsl, self.opacity, self)
    }

    /// Turns the hue forward by `hue` degrees; it wraps around at 360.
    pub fn add_hue(&self, hue: i32) -> (c: Color)
        requires
            self.hsl.wf(),
        ensures
            c.hsl.h == rotated_hue(self.hsl.h, hue),
            c.is_hsl_variant_of(
                self,
                (HSL { h: rotated_hue(self.hsl.h, hue) as u16, s: self.hsl.s, l: self.hsl.l }),
            ),
            c.wf(),
    {
        let hsl = css_spin(self.hsl, css_deg(hue));
        Color::from_hsla(hsl, self.opacity, self)
    }

    /// Turns the hue backward by `hue` degrees; it wraps around at 0.
    pub fn sub_hue(&self, hue: i32) -> (c: Color)
        requires
            self.hsl.wf(),
        ensures
            c.hsl.h == counter_rotated_hue(self.hsl.h, hue),
            c.is_hsl_variant_of(
                self,
                (HSL {
                    h: counter_rotated_hue(self.hsl.h, hue) as u16,
                    s: self.hsl.s,
                    l: self.hsl.l,
                }),
            ),
            c.wf(),
    {
        let hsl = css_spin(self.hsl, css_neg(css_deg(hue)));
        Color::from_hsla(hsl, self.opacity, self)
    }

    /// Sets the saturation to `saturation` percent, at most 100.
    pub fn mod_saturation(&self, saturation: u8) -> (c: Color)
        requires
            self.hsl.wf(),
        ensures
            c.hsl.s == if saturation > 100 { 100u8 } else { saturation },
            c.is_hsl_variant_of(
                self,
                (HSL {
                    h: self.hsl.h,
                    s: if saturation > 100 { 100u8 } else { saturation },
                    l: self.hsl.l,
                }),
            ),
            c.wf(),
    {
        let s: u8 = if saturation > 100 { 100 } else { saturation };
        Color::from_hsla(HSL { h: self.hsl.h, s, l: self.hsl.l }, self.opacity, self)
    }

    /// Raises the saturation by `saturation` percent; it stops at 100.
    pub fn add_saturation(&self, saturation: u8) -> (c: Color)
        requires
            self.hsl.wf(),
        ensures
            c.hsl.s == raised_percent(self.hsl.s, saturation),
            c.hsl.s <= 100,
            c.is_hsl_variant_of(
                self,
                (HSL {
                    h: self.hsl.h,
                    s: raised_percent(self.hsl.s, saturation) as u8,
                    l: self.hsl.l,
                }),
            ),
            c.wf(),
    {
        let amount: u8 = if saturation > 100 { 100 } else { saturation };
        Color::from_hsla(css_saturate(self.hsl, amount), self.opacity, self)
    }

    /// Lowers the saturation by `saturation` percent; it stops at 0.
    pub fn sub_saturation(&self, saturation: u8) -> (c: Color)
        requires
            self.hsl.wf(),
        ensures
            c.hsl.s == lowered_value(self.hsl.s, saturation),
            c.hsl.s <= 100,
            c.is_hsl_variant_of(
                self,
                (HSL {
                    h: self.hsl.h,
                    s: lowered_value(self.hsl.s, saturation) as u8,
                    l: self.hsl.l,
                }),
            ),
            c.wf(),
    {
        let amount: u8 = if saturation > 100 { 100 } else { saturation };
        Color::from_hsla(css_desaturate(self.hsl, amount), self.opacity, self)
    }

    /// Sets the lightness to `lightness` percent, at most 100.
    pub fn mod_lightness(&self, lightness: u8) -> (c: Color)
        requires
            self.hsl.wf(),
        ensures
            c.hsl.l == if lightness > 100 { 100u8 } else { lightness },
            c.is_hsl_variant_of(
                self,
                (HSL {
                    h: self.hsl.h,
                    s: self.hsl.s,
                    l: if lightness > 100 { 100u8 } else { lightness },
                }),
            ),
            c.wf(),
    {
        let l: u8 = if lightness > 100 { 100 } else { lightness };
        Color::from_hsla(HSL { h: self.hsl.h, s: self.hsl.s, l }, self.opacity, self)
    }

    /// Raises the lightness by `lightness` percent; it stops at 100.
    pub fn add_lightness(&self, lightness: u8) -> (c: Color)
        requires
            self.hsl.wf(),
        ensures
            c.hsl.l == raised_percent(self.hsl.l, lightness),
            c.hsl.l <= 100,
            c.is_hsl_variant_of(
                self,
                (HSL {
                    h: self.hsl.h,
                    s: self.hsl.s,
                    l: raised_percent(self.hsl.l, lightness) as u8,
                }),
            ),
            c.wf(),
    {
        let amount: u8 = if lightness > 100 { 100 } else { lightness };
        Color::from_hsla(css_lighten(self.hsl, amount), self.opacity, self)
    }

    /// Lowers the lightness by `lightness` percent; it stops at 0.
    pub fn sub_lightness(&self, lightness: u8) -> (c: Color)
        requires
            self.hsl.wf(),
        ensures
            c.hsl.l == lowered_value(self.hsl.l, lightness),
            c.hsl.l <= 100,
            c.is_hsl_variant_of(
                self,
                (HSL {
                    h: self.hsl.h,
                    s: self.hsl.s,
                    l: lowered_value(self.hsl.l, lightness) as u8,
                }),
            ),
            c.wf(),
    {
        let amount: u8 = if lightness > 100 { 100 } else { lightness };
        Color::from_hsla(css_darken(self.hsl, amount), self.opacity, self)
    }

    /// Sets the opacity byte; red, green, blue and the HSL triple stay.
    pub fn mod_opacity(&self, opacity: u8) -> (c: Color)
        ensures
            c.is_opacity_variant_of(self, opacity as int),
            self.hsl.wf() ==> c.wf(),
    {
        Color::with_channels(self, self.rgb, self.hsl, opacity)
    }

    /// Raises the opacity byte by `opacity`; it stops at 255.
    pub fn add_opacity(&self, opacity: u8) -> (c: Color)
        ensures
            c.is_opacity_variant_of(self, raised_byte(self.opacity, opacity)),
            self.hsl.wf() ==> c.wf(),
    {
        let value: u8 = if opacity > 255 - self.opacity { 255 } else { self.opacity + opacity };
        Color::with_channels(self, self.rgb, self.hsl, value)
    }

    /// Lowers the opacity byte by `opacity`; it stops at 0.
    pub fn sub_opacity(&self, opacity: u8) -> (c: Color)
        ensures
            c.is_opacity_variant_of(self, lowered_value(self.opacity, opacity)),
            self.hsl.wf() ==> c.wf(),
    {
        let value: u8 = if opacity > self.opacity { 0 } else { self.opacity - opacity };
        Color::with_channels(self, self.rgb, self.hsl, value)
    }
}

impl Flavor {
    /// The colours of the flavor by identifier, in canonical order.
    pub open spec fn entries(&self) -> Seq<(Seq<char>, Color)> {
        color_entries(self.colors)
    }

    /// The flavor's invariant: it is either dark or light, and each colour
    /// is well-formed and stored under its own identifier.
    pub open spec fn wf(&self) -> bool {
        &&& self.dark != self.light
        &&& forall|i: int|
            0 <= i < self.entries().len() ==> (#[trigger] self.entries()[i]).1.wf()
                && self.entries()[i].0 == self.entries()[i].1.identifier@
    }

    /// The colours of the flavor with their identifiers, in canonical order.
    pub fn iter(&self) -> (r: Vec<(&String, &Color)>)
        ensures
            r@.len() == self.entries().len(),
            forall|i: int|
                0 <= i < r@.len() ==> (#[trigger] r@[i]).0@ == self.entries()[i].0 && *r@[i].1
                    == self.entries()[i].1,
    {
        let n = colors_len(&self.colors);
        let mut out: Vec<(&String, &Color)> = Vec::new();
        let mut i: usize = 0;
        while i < n
            invariant
                n == self.entries().len(),
                i <= n,
                out@.len() == i,
                forall|j: int|
                    0 <= j < i ==> (#[trigger] out@[j]).0@ == self.entries()[j].0 && *out@[j].1
                        == self.entries()[j].1,
            decreases n - i,
        {
            match colors_get_index(&self.colors, i) {
                Some(entry) => out.push(entry),
                None => {},
            }
            i += 1;
        }
        out
    }

    /// The colour stored under an identifier, if the flavor has one.
    pub fn get(&self, identifier: &str) -> (r: Option<&Color>)
        ensures
            looked_up(self.entries(), identifier@, r),
    {
        colors_get(&self.colors, identifier)
    }
}

impl Palette {
    /// The flavors of the palette by identifier, in canonical order.
    pub open spec fn entries(&self) -> Seq<(Seq<char>, Flavor)> {
        flavor_entries(self.flavors)
    }

    /// The palette's invariant: each flavor is well-formed and stored under
    /// its own identifier.
    pub open spec fn wf(&self) -> bool {
        forall|i: int|
            0 <= i < self.entries().len() ==> (#[trigger] self.entries()[i]).1.wf()
                && self.entries()[i].0 == self.entries()[i].1.identifier@
    }

    /// The flavors of the palette with their identifiers, in canonical order.
    pub fn iter(&self) -> (r: Vec<(&String, &Flavor)>)
        ensures
            r@.len() == self.entries().len(),
            forall|i: int|
                0 <= i < r@.len() ==> (#[trigger] r@[i]).0@ == self.entries()[i].0 && *r@[i].1
                    == self.entries()[i].1,
    {
        let n = flavors_len(&self.flavors);
        let mut out: Vec<(&String, &Flavor)> = Vec::new();
        let mut i: usize = 0;
        while i < n
            invariant
                n == self.entries().len(),
                i <= n,
                out@.len() == i,
                forall|j: int|
                    0 <= j < i ==> (#[trigger] out@[j]).0@ == self.entries()[j].0 && *out@[j].1
                        == self.entries()[j].1,
            decreases n - i,
        {
            match flavors_get_index(&self.flavors, i) {
                Some(entry) => out.push(entry),
                None => {},
            }
            i += 1;
        }
        out
    }

    /// The flavor stored under an identifier, if the palette has one.
    pub fn get(&self, identifier: &str) -> (r: Option<&Flavor>)
        ensures
            looked_up(self.entries(), identifier@, r),
    {
        flavors_get(&self.flavors, identifier)
    }
}

/// Turning a hue forward and then backward by the same number of degrees
/// gives the hue back, whatever the number.
pub proof fn lemma_hue_rotation_round_trip(h: u16, degrees: i32)
    requires
        h < 360,
    ensures
        0 <= rotated_hue(h, degrees) < 360,
        counter_rotated_hue(rotated_hue(h, degrees) as u16, degrees) == h,
{
}

/// A well-formed colour shows six digits behind its prefix when it is fully
/// opaque and eight otherwise, each in the letter case that the colour carries.
pub proof fn lemma_color_hex_shape(c: Color)
    requires
        c.wf(),
    ensures
        c.opacity == 255 ==> c.hex@.len() == c.hex_prefix@.len() + 6,
        c.opacity < 255 ==> c.hex@.len() == c.hex_prefix@.len() + 8,
        c.hex@.subrange(0, c.hex_prefix@.len() as int) == c.hex_prefix@,
        forall|i: int|
            c.hex_prefix@.len() <= i < c.hex@.len() ==> is_hex_char(
                #[trigger] c.hex@[i],
                c.capitalize_hex,
            ),
{
    lemma_hex_digits_shape(c.rgb.r, c.rgb.g, c.rgb.b, c.opacity, c.capitalize_hex);
    let d = c.digits();
    let p = c.hex_prefix@;
    assert(c.hex@.subrange(0, p.len() as int) =~= p);
    assert forall|i: int| p.len() <= i < c.hex@.len() implies is_hex_char(
        #[trigger] c.hex@[i],
        c.capitalize_hex,
    ) by {
        assert(c.hex@[i] == d[i - p.len()]);
    }
}

} // verus!
