//! The boundary to the `catppuccin` crate, which holds the canonical
//! definition of the four flavors and their colours.

use vstd::prelude::*;
use crate::models::RGB;

verus! {

/// The number of flavors in the canonical definition.
pub const FLAVOR_COUNT: usize = 4;

/// The number of colours in each flavor of the canonical definition.
pub const COLOR_COUNT: usize = 26;

/// The identifier of the colour at a position of the canonical order.
pub open spec fn canonical_identifier(index: int) -> Seq<char> {
    if index == 0 {
        "rosewater"@
    } else if index == 1 {
        "flamingo"@
    } else if index == 2 {
        "pink"@
    } else if index == 3 {
        "mauve"@
    } else if index == 4 {
        "red"@
    } else if index == 5 {
        "maroon"@
    } else if index == 6 {
        "peach"@
    } else if index == 7 {
        "yellow"@
    } else if index == 8 {
        "green"@
    } else if index == 9 {
        "teal"@
    } else if index == 10 {
        "sky"@
    } else if index == 11 {
        "sapphire"@
    } else if index == 12 {
        "blue"@
    } else if index == 13 {
        "lavender"@
    } else if index == 14 {
        "text"@
    } else if index == 15 {
        "subtext1"@
    } else if index == 16 {
        "subtext0"@
    } else if index == 17 {
        "overlay2"@
    } else if index == 18 {
        "overlay1"@
    } else if index == 19 {
        "overlay0"@
    } else if index == 20 {
        "surface2"@
    } else if index == 21 {
        "surface1"@
    } else if index == 22 {
        "surface0"@
    } else if index == 23 {
        "base"@
    } else if index == 24 {
        "mantle"@
    } else {
        "crust"@
    }
}

/// The display name of the flavor at a position of the canonical order.
pub open spec fn canonical_flavor_name(flavor: int) -> Seq<char> {
    if flavor == 0 {
        "Latte"@
    } else if flavor == 1 {
        "Frappé"@
    } else if flavor == 2 {
        "Macchiato"@
    } else {
        "Mocha"@
    }
}

/// The display name that `catppuccin` gives the colour at a position.
pub uninterp spec fn canonical_color_name(index: int) -> Seq<char>;

/// Whether `catppuccin` marks the colour at a position of a flavor as an accent.
pub uninterp spec fn canonical_accent(flavor: int, index: int) -> bool;

/// The red, green and blue bytes that `catppuccin` defines for the colour
/// at a position of a flavor.
pub uninterp spec fn canonical_rgb(flavor: int, index: int) -> (u8, u8, u8);

/// Whether a string is the identifier of a canonical colour.
pub open spec fn is_canonical_identifier(id: Seq<char>) -> bool {
    exists|i: int| 0 <= i < COLOR_COUNT && id == #[trigger] canonical_identifier(i)
}

/// The first, third and last character of a string of three or more.
pub open spec fn signature(s: Seq<char>) -> (char, char, char) {
    (s[0], s[2], s[s.len() - 1])
}

/// No two positions of the canonical order share an identifier.
pub proof fn lemma_identifiers_distinct()
    ensures
        forall|i: int, j: int|
            0 <= i < j < COLOR_COUNT ==> canonical_identifier(i) != canonical_identifier(j),
{
    reveal_strlit("rosewater");
    reveal_strlit("flamingo");
    reveal_strlit("pink");
    reveal_strlit("mauve");
    reveal_strlit("red");
    reveal_strlit("maroon");
    reveal_strlit("peach");
    reveal_strlit("yellow");
    reveal_strlit("green");
    reveal_strlit("teal");
    reveal_strlit("sky");
    reveal_strlit("sapphire");
    reveal_strlit("blue");
    reveal_strlit("lavender");
    reveal_strlit("text");
    reveal_strlit("subtext1");
    reveal_strlit("subtext0");
    reveal_strlit("overlay2");
    reveal_strlit("overlay1");
    reveal_strlit("overlay0");
    reveal_strlit("surface2");
    reveal_strlit("surface1");
    reveal_strlit("surface0");
    reveal_strlit("base");
    reveal_strlit("mantle");
    reveal_strlit("crust");
    assert(signature(canonical_identifier(0)) == ('r', 's', 'r'));
    assert(signature(canonical_identifier(1)) == ('f', 'a', 'o'));
    assert(signature(canonical_identifier(2)) == ('p', 'n', 'k'));
    assert(signature(canonical_identifier(3)) == ('m', 'u', 'e'));
    assert(signature(canonical_identifier(4)) == ('r', 'd', 'd'));
    assert(signature(canonical_identifier(5)) == ('m', 'r', 'n'));
    assert(signature(canonical_identifier(6)) == ('p', 'a', 'h'));
    assert(signature(canonical_identifier(7)) == ('y', 'l', 'w'));
    assert(signature(canonical_identifier(8)) == ('g', 'e', 'n'));
    assert(signature(canonical_identifier(9)) == ('t', 'a', 'l'));
    assert(signature(canonical_identifier(10)) == ('s', 'y', 'y'));
    assert(signature(canonical_identifier(11)) == ('s', 'p', 'e'));
    assert(signature(canonical_identifier(12)) == ('b', 'u', 'e'));
    assert(signature(canonical_identifier(13)) == ('l', 'v', 'r'));
    assert(signature(canonical_identifier(14)) == ('t', 'x', 't'));
    assert(signature(canonical_identifier(15)) == ('s', 'b', '1'));
    assert(signature(canonical_identifier(16)) == ('s', 'b', '0'));
    assert(signature(canonical_identifier(17)) == ('o', 'e', '2'));
    assert(signature(canonical_identifier(18)) == ('o', 'e', '1'));
    assert(signature(canonical_identifier(19)) == ('o', 'e', '0'));
    assert(signature(canonical_identifier(20)) == ('s', 'r', '2'));
    assert(signature(canonical_identifier(21)) == ('s', 'r', '1'));
    assert(signature(canonical_identifier(22)) == ('s', 'r', '0'));
    assert(signature(canonical_identifier(23)) == ('b', 's', 'e'));
    assert(signature(canonical_identifier(24)) == ('m', 'n', 'e'));
    assert(signature(canonical_identifier(25)) == ('c', 'u', 't'));
    assert forall|i: int, j: int| 0 <= i < j < COLOR_COUNT implies canonical_identifier(i)
        != canonical_identifier(j) by {
        assert(signature(canonical_identifier(i)) != signature(canonical_identifier(j)));
    }
}

/// `ColorName::identifier` of `catppuccin`, on the colour at a position of
/// the canonical order.
#[verifier::external_body]
pub(crate) fn source_identifier(index: usize) -> (r: String)
    requires
        index < COLOR_COUNT,
    ensures
        r@ == canonical_identifier(index as int),
{
    catppuccin::PALETTE.latte.colors.all_colors()[index].name.identifier().to_string()
}

/// The display form of `catppuccin::ColorName`, on the colour at a position
/// of the canonical order.
#[verifier::external_body]
pub(crate) fn source_color_name(index: usize) -> (r: String)
    requires
        index < COLOR_COUNT,
    ensures
        r@ == canonical_color_name(index as int),
{
    catppuccin::PALETTE.latte.colors.all_colors()[index].name.to_string()
}

/// The display form of `catppuccin::FlavorName`, on the flavor at a
/// position of the canonical order.
#[verifier::external_body]
pub(crate) fn source_flavor_name(flavor: usize) -> (r: String)
    requires
        flavor < FLAVOR_COUNT,
    ensures
        r@ == canonical_flavor_name(flavor as int),
{
    catppuccin::PALETTE.all_flavors()[flavor].name.to_string()
}

/// The `dark` field of a `catppuccin::Flavor`: the first flavor is the
/// light one, the other three are dark.
#[verifier::external_body]
pub(crate) fn source_dark(flavor: usize) -> (r: bool)
    requires
        flavor < FLAVOR_COUNT,
    ensures
        r == (flavor != 0),
{
    catppuccin::PALETTE.all_flavors()[flavor].dark
}

/// The `accent` field of a `catppuccin::Color`.
#[verifier::external_body]
pub(crate) fn source_accent(flavor: usize, index: usize) -> (r: bool)
    requires
        flavor < FLAVOR_COUNT,
        index < COLOR_COUNT,
    ensures
        r == canonical_accent(flavor as int, index as int),
{
    catppuccin::PALETTE.all_flavors()[flavor].colors.all_colors()[index].accent
}

/// The `rgb` field of a `catppuccin::Color`.
#[verifier::external_body]
pub(crate) fn source_rgb(flavor: usize, index: usize) -> (r: RGB)
    requires
        flavor < FLAVOR_COUNT,
        index < COLOR_COUNT,
    ensures
        (r.r, r.g, r.b) == canonical_rgb(flavor as int, index as int),
{
    let c = catppuccin::PALETTE.all_flavors()[flavor].colors.all_colors()[index];
    RGB { r: c.rgb.r, g: c.rgb.g, b: c.rgb.b }
}

} // verus!
