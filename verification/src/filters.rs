//! The three colour filters: each applies one channel operation, chosen by
//! the argument that is present.

use vstd::prelude::*;
use crate::models::{
    counter_rotated_hue, lowered_value, normalized_degrees, raised_byte, raised_percent, Color,
    HSL,
};

verus! {

/// The named arguments of a filter. Where several are present the first of
/// hue, saturation, lightness and opacity counts. Opacity is a byte.
#[derive(Clone, Copy, Debug, PartialEq, Eq, Structural)]
pub struct FilterArgs {
    pub hue: Option<i32>,
    pub saturation: Option<u8>,
    pub lightness: Option<u8>,
    pub opacity: Option<u8>,
}

/// A percentage cut off at 100.
pub open spec fn capped_percent(p: u8) -> u8 {
    if p > 100 {
        100u8
    } else {
        p
    }
}

/// Sets one channel of the colour to the value of the argument that is
/// present; without any argument the colour passes through and the result
/// is `None`.
pub fn modify(color: &Color, args: &FilterArgs) -> (r: Option<Color>)
    requires
        color.hsl.wf(),
    ensures
        match (args.hue, args.saturation, args.lightness, args.opacity) {
            (Some(hue), _, _, _) => r is Some && r->Some_0.is_hsl_variant_of(
                color,
                (HSL { h: normalized_degrees(hue) as u16, s: color.hsl.s, l: color.hsl.l }),
            ),
            (None, Some(s), _, _) => r is Some && r->Some_0.is_hsl_variant_of(
                color,
                (HSL { h: color.hsl.h, s: capped_percent(s), l: color.hsl.l }),
            ),
            (None, None, Some(l), _) => r is Some && r->Some_0.is_hsl_variant_of(
                color,
                (HSL { h: color.hsl.h, s: color.hsl.s, l: capped_percent(l) }),
            ),
            (None, None, None, Some(o)) => r is Some && r->Some_0.is_opacity_variant_of(
                color,
                o as int,
            ),
            (None, None, None, None) => r is None,
        },
        r is Some ==> r->Some_0.wf(),
{
    if let Some(hue) = args.hue {
        Some(color.mod_hue(hue))
    } else if let Some(saturation) = args.saturation {
        Some(color.mod_saturation(saturation))
    } else if let Some(lightness) = args.lightness {
        Some(color.mod_lightness(lightness))
    } else if let Some(opacity) = args.opacity {
        Some(color.mod_opacity(opacity))
    } else {
        None
    }
}

/// Raises one channel of the colour by the value of the argument that is
/// present; without any argument the colour passes through and the result
/// is `None`.
pub fn add(color: &Color, args: &FilterArgs) -> (r: Option<Color>)
    requires
        color.hsl.wf(),
    ensures
        match (args.hue, args.saturation, args.lightness, args.opacity) {
            (Some(hue), _, _, _) => r is Some && r->Some_0.is_hsl_variant_of(
                color,
                (HSL {
                    h: crate::models::rotated_hue(color.hsl.h, hue) as u16,
                    s: color.hsl.s,
                    l: color.hsl.l,
                }),
            ),
            (None, Some(s), _, _) => r is Some && r->Some_0.is_hsl_variant_of(
                color,
                (HSL {
                    h: color.hsl.h,
                    s: raised_percent(color.hsl.s, s) as u8,
                    l: color.hsl.l,
                }),
            ),
            (None, None, Some(l), _) => r is Some && r->Some_0.is_hsl_variant_of(
                color,
                (HSL {
                    h: color.hsl.h,
                    s: color.hsl.s,
                    l: raised_percent(color.hsl.l, l) as u8,
                }),
            ),
            (None, None, None, Some(o)) => r is Some && r->Some_0.is_opacity_variant_of(
                color,
                raised_byte(color.opacity, o),
            ),
            (None, None, None, None) => r is None,
        },
        r is Some ==> r->Some_0.wf(),
{
    if let Some(hue) = args.hue {
        Some(color.add_hue(hue))
    } else if let Some(saturation) = args.saturation {
        Some(color.add_saturation(saturation))
    } else if let Some(lightness) = args.lightness {
        Some(color.add_lightness(lightness))
    } else if let Some(opacity) = args.opacity {
        Some(color.add_opacity(opacity))
    } else {
        None
    }
}

/// Lowers one channel of the colour by the value of the argument that is
/// present; without any argument the colour passes through and the result
/// is `None`.
pub fn sub(color: &Color, args: &FilterArgs) -> (r: Option<Color>)
    requires
        color.hsl.wf(),
    ensures
        match (args.hue, args.saturation, args.lightness, args.opacity) {
            (Some(hue), _, _, _) => r is Some && r->Some_0.is_hsl_variant_of(
                color,
                (HSL {
                    h: counter_rotated_hue(color.hsl.h, hue) as u16,
                    s: color.hsl.s,
                    l: color.hsl.l,
                }),
            ),
            (None, Some(s), _, _) => r is Some && r->Some_0.is_hsl_variant_of(
                color,
                (HSL {
                    h: color.hsl.h,
                    s: lowered_value(color.hsl.s, s) as u8,
                    l: color.hsl.l,
                }),
            ),
            (None, None, Some(l), _) => r is Some && r->Some_0.is_hsl_variant_of(
                color,
                (HSL {
                    h: color.hsl.h,
                    s: color.hsl.s,
                    l: lowered_value(color.hsl.l, l) as u8,
                }),
            ),
            (None, None, None, Some(o)) => r is Some && r->Some_0.is_opacity_variant_of(
                color,
                lowered_value(color.opacity, o),
            ),
            (None, None, None, None) => r is None,
        },
        r is Some ==> r->Some_0.wf(),
{
    if let Some(hue) = args.hue {
        Some(color.sub_hue(hue))
    } else if let Some(saturation) = args.saturation {
        Some(color.sub_saturation(saturation))
    } else if let Some(lightness) = args.lightness {
        Some(color.sub_lightness(lightness))
    } else if let Some(opacity) = args.opacity {
        Some(color.sub_opacity(opacity))
    } else {
        None
    }
}

} // verus!
