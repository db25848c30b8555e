//! The boundary to the `css_colors` crate: each function here makes one call
//! into it on plain channel values, and its contract is taken on trust.

use vstd::prelude::*;
use crate::models::{HSL, RGB};

verus! {

/// The red, green and blue bytes that `css_colors` computes for a hue in
/// degrees and a saturation and lightness in percent.
pub uninterp spec fn hsl_to_rgb_channels(h: u16, s: u8, l: u8) -> (u8, u8, u8);

/// The hue in degrees and the saturation and lightness in percent that
/// `css_colors` computes for red, green and blue bytes.
pub uninterp spec fn rgb_to_hsl_channels(r: u8, g: u8, b: u8) -> (u16, u8, u8);

/// The red, green, blue and alpha bytes that `css_colors` computes when it
/// mixes a first colour with a second, the first weighted by `weight` percent.
pub uninterp spec fn mix_channels(
    r1: u8,
    g1: u8,
    b1: u8,
    a1: u8,
    r2: u8,
    g2: u8,
    b2: u8,
    a2: u8,
    weight: u8,
) -> (u8, u8, u8, u8);

/// `css_colors::deg`: normalises any number of degrees into `0..360` by
/// adding or subtracting whole turns.
#[verifier::external_body]
pub(crate) fn css_deg(degrees: i32) -> (r: u16)
    ensures
        r as int == (degrees as int) % 360,
{
    css_colors::deg(degrees).degrees()
}

/// Negation of a `css_colors::Angle`: the angle that completes a full turn.
#[verifier::external_body]
pub(crate) fn css_neg(angle: u16) -> (r: u16)
    requires
        angle < 360,
    ensures
        r as int == (360 - angle) % 360,
{
    (-css_colors::Angle::new(angle)).degrees()
}

/// `css_colors::Color::spin` on an HSL colour: the hue moves forward by
/// `angle` degrees around the circle; saturation and lightness stay.
#[verifier::external_body]
pub(crate) fn css_spin(c: HSL, angle: u16) -> (r: HSL)
    requires
        c.wf(),
        angle < 360,
    ensures
        r.h as int == (c.h + angle) % 360,
        r.s == c.s,
        r.l == c.l,
{
    let x = css_colors::Color::spin(
        css_colors::HSL {
            h: css_colors::Angle::new(c.h),
            s: css_colors::percent(c.s),
            l: css_colors::percent(c.l),
        },
        css_colors::Angle::new(angle),
    );
    HSL { h: x.h.degrees(), s: x.s.as_percentage(), l: x.l.as_percentage() }
}

/// `css_colors::Color::saturate` on an HSL colour: the saturation rises by
/// `amount` percent and stops at 100; hue and lightness stay.
#[verifier::external_body]
pub(crate) fn css_saturate(c: HSL, amount: u8) -> (r: HSL)
    requires
        c.wf(),
        amount <= 100,
    ensures
        r.h == c.h,
        r.s as int == if c.s + amount > 100 { 100 } else { c.s + amount },
        r.l == c.l,
{
    let x = css_colors::Color::saturate(
        css_colors::HSL {
            h: css_colors::Angle::new(c.h),
            s: css_colors::percent(c.s),
            l: css_colors::percent(c.l),
        },
        css_colors::percent(amount),
    );
    HSL { h: x.h.degrees(), s: x.s.as_percentage(), l: x.l.as_percentage() }
}

/// `css_colors::Color::desaturate` on an HSL colour: the saturation falls by
/// `amount` percent and stops at 0; hue and lightness stay.
#[verifier::external_body]
pub(crate) fn css_desaturate(c: HSL, amount: u8) -> (r: HSL)
    requires
        c.wf(),
        amount <= 100,
    ensures
        r.h == c.h,
        r.s as int == if c.s < amount { 0 } else { c.s - amount },
        r.l == c.l,
{
    let x = css_colors::Color::desaturate(
        css_colors::HSL {
            h: css_colors::Angle::new(c.h),
            s: css_colors::percent(c.s),
            l: css_colors::percent(c.l),
        },
        css_colors::percent(amount),
    );
    HSL { h: x.h.degrees(), s: x.s.as_percentage(), l: x.l.as_percentage() }
}

/// `css_colors::Color::lighten` on an HSL colour: the lightness rises by
/// `amount` percent and stops at 100; hue and saturation stay.
#[verifier::external_body]
pub(crate) fn css_lighten(c: HSL, amount: u8) -> (r: HSL)
    requires
        c.wf(),
        amount <= 100,
    ensures
        r.h == c.h,
        r.s == c.s,
        r.l as int == if c.l + amount > 100 { 100 } else { c.l + amount },
{
    let x = css_colors::Color::lighten(
        css_colors::HSL {
            h: css_colors::Angle::new(c.h),
            s: css_colors::percent(c.s),
            l: css_colors::percent(c.l),
        },
        css_colors::percent(amount),
    );
    HSL { h: x.h.degrees(), s: x.s.as_percentage(), l: x.l.as_percentage() }
}

/// `css_colors::Color::darken` on an HSL colour: the lightness falls by
/// `amount` percent and stops at 0; hue and saturation stay.
#[verifier::external_body]
pub(crate) fn css_darken(c: HSL, amount: u8) -> (r: HSL)
    requires
        c.wf(),
        amount <= 100,
    ensures
        r.h == c.h,
        r.s == c.s,
        r.l as int == if c.l < amount { 0 } else { c.l - amount },
{
    let x = css_colors::Color::darken(
        css_colors::HSL {
            h: css_colors::Angle::new(c.h),
            s: css_colors::percent(c.s),
            l: css_colors::percent(c.l),
        },
        css_colors::percent(amount),
    );
    HSL { h: x.h.degrees(), s: x.s.as_percentage(), l: x.l.as_percentage() }
}

/// `css_colors::Color::to_rgb` on an HSL colour. The conversion runs in
/// floating point, so the contract only gives its result a name.
#[verifier::external_body]
pub(crate) fn css_hsl_to_rgb(c: HSL) -> (r: RGB)
    requires
        c.wf(),
    ensures
        (r.r, r.g, r.b) == hsl_to_rgb_channels(c.h, c.s, c.l),
{
    let x = css_colors::Color::to_rgb(
        css_colors::HSL {
            h: css_colors::Angle::new(c.h),
            s: css_colors::percent(c.s),
            l: css_colors::percent(c.l),
        },
    );
    RGB { r: x.r.as_u8(), g: x.g.as_u8(), b: x.b.as_u8() }
}

/// Whether the brightest channel is at its maximum while the darkest is
/// neither empty nor full. The saturation of such a colour is exactly one,
/// and `css_colors`, which computes it as a quotient in floating point, may
/// find it slightly above one and refuse it.
pub open spec fn is_bright_saturated(c: RGB) -> bool {
    (c.r == 255 || c.g == 255 || c.b == 255) && c.r > 0 && c.g > 0 && c.b > 0 && (c.r < 255
        || c.g < 255 || c.b < 255)
}

/// `css_colors::Color::to_hsl` on an RGB colour. The conversion runs in
/// floating point, so the contract gives its result a name; the crate's
/// angle and ratio types keep the hue below 360 and the percentages at
/// most 100. Colours on which the crate's saturation quotient can leave
/// its range are left out.
#[verifier::external_body]
pub(crate) fn css_rgb_to_hsl(c: RGB) -> (r: HSL)
    requires
        !is_bright_saturated(c),
    ensures
        (r.h, r.s, r.l) == rgb_to_hsl_channels(c.r, c.g, c.b),
        r.wf(),
{
    let x = css_colors::Color::to_hsl(
        css_colors::RGB {
            r: css_colors::Ratio::from_u8(c.r),
            g: css_colors::Ratio::from_u8(c.g),
            b: css_colors::Ratio::from_u8(c.b),
        },
    );
    HSL { h: x.h.degrees(), s: x.s.as_percentage(), l: x.l.as_percentage() }
}

/// `css_colors::Color::mix` on two RGBA colours, the first weighted by
/// `weight` percent. The weighting runs in floating point, so the contract
/// gives its result a name; at the two ends of the scale the crate hands
/// back the second colour (weight 0) or the first (weight 100) unchanged.
#[verifier::external_body]
pub(crate) fn css_mix(first: RGB, first_alpha: u8, second: RGB, second_alpha: u8, weight: u8) -> (r:
    (RGB, u8))
    requires
        weight <= 100,
    ensures
        (r.0.r, r.0.g, r.0.b, r.1) == mix_channels(
            first.r,
            first.g,
            first.b,
            first_alpha,
            second.r,
            second.g,
            second.b,
            second_alpha,
            weight,
        ),
        weight == 0 ==> r == (second, second_alpha),
        weight == 100 ==> r == (first, first_alpha),
{
    let alpha = css_colors::Ratio::from_u8(first_alpha);
    let a = css_colors::Color::fade(css_colors::rgb(first.r, first.g, first.b), alpha);
    let alpha = css_colors::Ratio::from_u8(second_alpha);
    let b = css_colors::Color::fade(css_colors::rgb(second.r, second.g, second.b), alpha);
    let x = css_colors::Color::mix(a, b, css_colors::percent(weight));
    (RGB { r: x.r.as_u8(), g: x.g.as_u8(), b: x.b.as_u8() }, x.a.as_u8())
}

} // verus!
