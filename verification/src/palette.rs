//! Building the palette from the canonical definition, the hex formatting
//! options and the colour overrides.

use vstd::prelude::*;
use vstd::string::*;
use crate::cli::ColorOverrides;
use crate::hex::{parse_hex, parsed_hex};
use crate::models::{hsl_of, rgb_to_hsl, Color, Palette, RGB};
use crate::ordered::{
    color_entries, colors_insert, colors_new, flavor_entries, flavors_insert, flavors_new,
};
use crate::source::{
    canonical_accent, canonical_color_name, canonical_flavor_name, canonical_identifier,
    canonical_rgb, is_canonical_identifier, lemma_identifiers_distinct, source_accent,
    source_color_name, source_dark, source_flavor_name, source_identifier, source_rgb,
    COLOR_COUNT, FLAVOR_COUNT,
};

verus! {

/// Why a palette cannot be built.
#[derive(Clone, Copy, Debug, PartialEq, Eq, Structural)]
pub enum PaletteError {
    /// An override names a colour that the canonical definition does not have.
    UnknownColorIdentifier,
    /// An override value is not a hex string of six or eight digits.
    OverrideDecodeError,
}

/// The flavor identifier at a position of the canonical order.
pub open spec fn flavor_identifier_at(flavor: int) -> Seq<char> {
    if flavor == 0 {
        "latte"@
    } else if flavor == 1 {
        "frappe"@
    } else if flavor == 2 {
        "macchiato"@
    } else {
        "mocha"@
    }
}

/// The position of the last entry of an override list with the given key.
pub open spec fn last_index(list: Seq<(String, String)>, id: Seq<char>) -> Option<int>
    decreases list.len(),
{
    if list.len() == 0 {
        None
    } else if list.last().0@ == id {
        Some(list.len() - 1)
    } else {
        last_index(list.drop_last(), id)
    }
}

/// The hex string that an override list gives a colour, if any; of several
/// entries for one colour the last counts.
pub open spec fn listed_hex(list: Seq<(String, String)>, id: Seq<char>) -> Option<Seq<char>> {
    match last_index(list, id) {
        Some(i) => Some(list[i].1@),
        None => None,
    }
}

/// Whether some key of an override list is no canonical colour identifier.
pub open spec fn has_unknown_key(list: Seq<(String, String)>) -> bool {
    exists|j: int| 0 <= j < list.len() && !is_canonical_identifier((#[trigger] list[j]).0@)
}

/// Whether some value of an override list is no hex string.
pub open spec fn has_bad_hex(list: Seq<(String, String)>) -> bool {
    exists|j: int| 0 <= j < list.len() && parsed_hex((#[trigger] list[j]).1@) is None
}

impl ColorOverrides {
    /// The override list of the flavor at a position of the canonical order.
    pub open spec fn list_for(&self, flavor: int) -> Seq<(String, String)> {
        if flavor == 0 {
            self.latte@
        } else if flavor == 1 {
            self.frappe@
        } else if flavor == 2 {
            self.macchiato@
        } else {
            self.mocha@
        }
    }

    /// The hex string that replaces a colour of a flavor, if any: the
    /// flavor's own override where there is one, else the one for all flavors.
    pub open spec fn hex_for(&self, flavor: int, id: Seq<char>) -> Option<Seq<char>> {
        match listed_hex(self.list_for(flavor), id) {
            Some(h) => Some(h),
            None => listed_hex(self.all@, id),
        }
    }

    /// Whether some override names an unknown colour.
    pub open spec fn names_unknown_color(&self) -> bool {
        has_unknown_key(self.all@) || has_unknown_key(self.latte@) || has_unknown_key(
            self.frappe@,
        ) || has_unknown_key(self.macchiato@) || has_unknown_key(self.mocha@)
    }

    /// Whether some override value is no hex string.
    pub open spec fn holds_bad_hex(&self) -> bool {
        has_bad_hex(self.all@) || has_bad_hex(self.latte@) || has_bad_hex(self.frappe@)
            || has_bad_hex(self.macchiato@) || has_bad_hex(self.mocha@)
    }
}

/// Whether overrides are given and one of them names an unknown colour.
pub open spec fn names_unknown_color(overrides: Option<&ColorOverrides>) -> bool {
    overrides is Some && overrides->Some_0.names_unknown_color()
}

/// Whether overrides are given and one of their values is no hex string.
pub open spec fn holds_bad_hex(overrides: Option<&ColorOverrides>) -> bool {
    overrides is Some && overrides->Some_0.holds_bad_hex()
}

/// The hex string that replaces a colour of a flavor under the given
/// overrides, if any.
pub open spec fn override_hex(overrides: Option<&ColorOverrides>, flavor: int, id: Seq<char>) -> Option<
    Seq<char>,
> {
    match overrides {
        Some(o) => o.hex_for(flavor, id),
        None => None,
    }
}

/// The hex prefix that an optional string stands for.
pub open spec fn prefix_view(hex_prefix: Option<&str>) -> Seq<char> {
    match hex_prefix {
        Some(p) => p@,
        None => Seq::empty(),
    }
}

/// The colour at a position of a flavor as the palette must hold it: name,
/// identifier and accent flag from the canonical definition; channels from
/// the override where one applies, else canonical and fully opaque; the HSL
/// triple converted from the channels; hex in the given format.
pub open spec fn is_palette_color(
    c: Color,
    flavor: int,
    index: int,
    capitalize_hex: bool,
    prefix: Seq<char>,
    replacement: Option<Seq<char>>,
) -> bool {
    &&& c.name@ == canonical_color_name(index)
    &&& c.identifier@ == canonical_identifier(index)
    &&& c.accent == canonical_accent(flavor, index)
    &&& c.capitalize_hex == capitalize_hex
    &&& c.hex_prefix@ == prefix
    &&& (c.rgb.r, c.rgb.g, c.rgb.b, c.opacity) == match replacement {
        Some(h) => parsed_hex(h)->Some_0,
        None => (
            canonical_rgb(flavor, index).0,
            canonical_rgb(flavor, index).1,
            canonical_rgb(flavor, index).2,
            255u8,
        ),
    }
    &&& (c.hsl.h, c.hsl.s, c.hsl.l) == hsl_of(c.rgb)
    &&& c.wf()
}

/// The flavor at a position of the canonical order as the palette must hold it.
pub open spec fn is_palette_flavor(
    f: crate::models::Flavor,
    flavor: int,
    capitalize_hex: bool,
    prefix: Seq<char>,
    overrides: Option<&ColorOverrides>,
) -> bool {
    &&& f.name@ == canonical_flavor_name(flavor)
    &&& f.identifier@ == flavor_identifier_at(flavor)
    &&& f.dark == (flavor != 0)
    &&& f.light == !f.dark
    &&& f.entries().len() == COLOR_COUNT
    &&& forall|i: int|
        0 <= i < COLOR_COUNT ==> {
            &&& (#[trigger] f.entries()[i]).0 == canonical_identifier(i)
            &&& is_palette_color(
                f.entries()[i].1,
                flavor,
                i,
                capitalize_hex,
                prefix,
                override_hex(overrides, flavor, canonical_identifier(i)),
            )
        }
}

/// The palette as `build_palette` must return it: the four flavors under
/// their identifiers, in canonical order.
pub open spec fn is_built_palette(
    p: Palette,
    capitalize_hex: bool,
    prefix: Seq<char>,
    overrides: Option<&ColorOverrides>,
) -> bool {
    &&& p.entries().len() == FLAVOR_COUNT
    &&& forall|f: int|
        0 <= f < FLAVOR_COUNT ==> {
            &&& (#[trigger] p.entries()[f]).0 == flavor_identifier_at(f)
            &&& is_palette_flavor(p.entries()[f].1, f, capitalize_hex, prefix, overrides)
        }
}

/// No two flavors share an identifier.
pub proof fn lemma_flavor_identifiers_distinct()
    ensures
        forall|i: int, j: int|
            0 <= i < j < FLAVOR_COUNT ==> flavor_identifier_at(i) != flavor_identifier_at(j),
{
    reveal_strlit("latte");
    reveal_strlit("frappe");
    reveal_strlit("macchiato");
    reveal_strlit("mocha");
    assert(flavor_identifier_at(0)[0] == 'l' && flavor_identifier_at(0).len() == 5);
    assert(flavor_identifier_at(1)[0] == 'f' && flavor_identifier_at(1).len() == 6);
    assert(flavor_identifier_at(2)[0] == 'm' && flavor_identifier_at(2).len() == 9);
    assert(flavor_identifier_at(3)[0] == 'm' && flavor_identifier_at(3).len() == 5);
}

fn flavor_identifier(flavor: usize) -> (r: &'static str)
    requires
        flavor < FLAVOR_COUNT,
    ensures
        r@ == flavor_identifier_at(flavor as int),
{
    if flavor == 0 {
        "latte"
    } else if flavor == 1 {
        "frappe"
    } else if flavor == 2 {
        "macchiato"
    } else {
        "mocha"
    }
}

fn is_known_identifier(key: &String) -> (r: bool)
    ensures
        r == is_canonical_identifier(key@),
{
    let mut i: usize = 0;
    while i < COLOR_COUNT
        invariant
            i <= COLOR_COUNT,
            forall|j: int| 0 <= j < i ==> key@ != canonical_identifier(j),
        decreases COLOR_COUNT - i,
    {
        let id = source_identifier(i);
        if id == *key {
            return true;
        }
        i += 1;
    }
    false
}

fn list_has_unknown_key(list: &Vec<(String, String)>) -> (r: bool)
    ensures
        r == has_unknown_key(list@),
{
    let mut j: usize = 0;
    while j < list.len()
        invariant
            j <= list@.len(),
            forall|k: int| 0 <= k < j ==> is_canonical_identifier((#[trigger] list@[k]).0@),
        decreases list@.len() - j,
    {
        if !is_known_identifier(&list[j].0) {
            return true;
        }
        j += 1;
    }
    false
}

fn list_has_bad_hex(list: &Vec<(String, String)>) -> (r: bool)
    ensures
        r == has_bad_hex(list@),
{
    let mut j: usize = 0;
    while j < list.len()
        invariant
            j <= list@.len(),
            forall|k: int| 0 <= k < j ==> parsed_hex((#[trigger] list@[k]).1@) is Some,
        decreases list@.len() - j,
    {
        if parse_hex(list[j].1.as_str()).is_none() {
            return true;
        }
        j += 1;
    }
    false
}

fn find_listed<'a>(list: &'a Vec<(String, String)>, id: &String) -> (r: Option<&'a String>)
    ensures
        match r {
            Some(h) => listed_hex(list@, id@) == Some(h@) && exists|j: int|
                0 <= j < list@.len() && (#[trigger] list@[j]).1@ == h@,
            None => listed_hex(list@, id@) is None,
        },
{
    let mut found: Option<usize> = None;
    let mut j: usize = 0;
    proof {
        assert(list@.take(0) =~= Seq::empty());
    }
    while j < list.len()
        invariant
            j <= list@.len(),
            match found {
                Some(i) => i < j && last_index(list@.take(j as int), id@) == Some(i as int),
                None => last_index(list@.take(j as int), id@) is None,
            },
        decreases list@.len() - j,
    {
        proof {
            assert(list@.take(j + 1).drop_last() =~= list@.take(j as int));
        }
        if list[j].0 == *id {
            found = Some(j);
        }
        j += 1;
    }
    proof {
        assert(list@.take(j as int) =~= list@);
    }
    match found {
        Some(i) => Some(&list[i].1),
        None => None,
    }
}

impl ColorOverrides {
    /// The override list of the flavor at a position of the canonical order.
    pub fn flavor_list(&self, flavor: usize) -> (r: &Vec<(String, String)>)
        ensures
            r@ == self.list_for(flavor as int),
    {
        if flavor == 0 {
            &self.latte
        } else if flavor == 1 {
            &self.frappe
        } else if flavor == 2 {
            &self.macchiato
        } else {
            &self.mocha
        }
    }

    /// Whether every override names a canonical colour.
    pub fn check_identifiers(&self) -> (r: bool)
        ensures
            r == !self.names_unknown_color(),
    {
        !(list_has_unknown_key(&self.all) || list_has_unknown_key(&self.latte)
            || list_has_unknown_key(&self.frappe) || list_has_unknown_key(&self.macchiato)
            || list_has_unknown_key(&self.mocha))
    }

    /// Whether every override value is a hex string of six or eight digits.
    pub fn check_values(&self) -> (r: bool)
        ensures
            r == !self.holds_bad_hex(),
    {
        !(list_has_bad_hex(&self.all) || list_has_bad_hex(&self.latte) || list_has_bad_hex(
            &self.frappe,
        ) || list_has_bad_hex(&self.macchiato) || list_has_bad_hex(&self.mocha))
    }
}

fn find_override<'a>(overrides: Option<&'a ColorOverrides>, flavor: usize, id: &String) -> (r:
    Option<&'a String>)
    requires
        flavor < FLAVOR_COUNT,
        !holds_bad_hex(overrides),
    ensures
        match r {
            Some(h) => override_hex(overrides, flavor as int, id@) == Some(h@) && parsed_hex(h@)
                is Some,
            None => override_hex(overrides, flavor as int, id@) is None,
        },
{
    match overrides {
        Some(o) => {
            match find_listed(o.flavor_list(flavor), id) {
                Some(h) => Some(h),
                None => find_listed(&o.all, id),
            }
        },
        None => None,
    }
}

fn build_color(
    flavor: usize,
    index: usize,
    capitalize_hex: bool,
    prefix: &str,
    overrides: Option<&ColorOverrides>,
) -> (c: Color)
    requires
        flavor < FLAVOR_COUNT,
        index < COLOR_COUNT,
        !holds_bad_hex(overrides),
    ensures
        is_palette_color(
            c,
            flavor as int,
            index as int,
            capitalize_hex,
            prefix@,
            override_hex(overrides, flavor as int, canonical_identifier(index as int)),
        ),
{
    let identifier = source_identifier(index);
    let channels = match find_override(overrides, flavor, &identifier) {
        Some(h) => {
            let parsed = parse_hex(h.as_str()).unwrap();
            (RGB { r: parsed.0, g: parsed.1, b: parsed.2 }, parsed.3)
        },
        None => (source_rgb(flavor, index), 255u8),
    };
    let hsl = rgb_to_hsl(channels.0);
    Color::new(
        source_color_name(index),
        identifier,
        source_accent(flavor, index),
        channels.0,
        hsl,
        channels.1,
        capitalize_hex,
        prefix,
    )
}

fn build_flavor(
    flavor: usize,
    capitalize_hex: bool,
    prefix: &str,
    overrides: Option<&ColorOverrides>,
) -> (f: crate::models::Flavor)
    requires
        flavor < FLAVOR_COUNT,
        !holds_bad_hex(overrides),
    ensures
        is_palette_flavor(f, flavor as int, capitalize_hex, prefix@, overrides),
{
    let mut colors = colors_new();
    let mut i: usize = 0;
    while i < COLOR_COUNT
        invariant
            flavor < FLAVOR_COUNT,
            !holds_bad_hex(overrides),
            i <= COLOR_COUNT,
            color_entries(colors).len() == i,
            forall|j: int|
                0 <= j < i ==> {
                    &&& (#[trigger] color_entries(colors)[j]).0 == canonical_identifier(j)
                    &&& is_palette_color(
                        color_entries(colors)[j].1,
                        flavor as int,
                        j,
                        capitalize_hex,
                        prefix@,
                        override_hex(overrides, flavor as int, canonical_identifier(j)),
                    )
                },
        decreases COLOR_COUNT - i,
    {
        let color = build_color(flavor, i, capitalize_hex, prefix, overrides);
        let key = source_identifier(i);
        proof {
            lemma_identifiers_distinct();
        }
        colors_insert(&mut colors, key, color);
        i += 1;
    }
    let dark = source_dark(flavor);
    crate::models::Flavor {
        name: source_flavor_name(flavor),
        identifier: String::from_str(flavor_identifier(flavor)),
        dark,
        light: !dark,
        colors,
    }
}

/// Builds the palette: the four canonical flavors in canonical order, each
/// with the full canonical colour set in canonical order, every hex string
/// in the requested letter case behind the requested prefix. An override
/// replaces a colour's channels; one for a single flavor takes precedence
/// over one for all flavors. The build fails when an override names an
/// unknown colour, and otherwise when an override value is no hex string.
pub fn build_palette(
    capitalize_hex: bool,
    hex_prefix: Option<&str>,
    color_overrides: Option<&ColorOverrides>,
) -> (r: Result<Palette, PaletteError>)
    ensures
        names_unknown_color(color_overrides) <==> r == Err::<Palette, PaletteError>(
            PaletteError::UnknownColorIdentifier,
        ),
        !names_unknown_color(color_overrides) && holds_bad_hex(color_overrides) <==> r == Err::<
            Palette,
            PaletteError,
        >(PaletteError::OverrideDecodeError),
        r is Ok ==> is_built_palette(
            r->Ok_0,
            capitalize_hex,
            prefix_view(hex_prefix),
            color_overrides,
        ),
        r is Ok ==> r->Ok_0.wf(),
{
    match color_overrides {
        Some(o) => {
            if !o.check_identifiers() {
                return Err(PaletteError::UnknownColorIdentifier);
            }
            if !o.check_values() {
                return Err(PaletteError::OverrideDecodeError);
            }
        },
        None => {},
    }
    let prefix = match hex_prefix {
        Some(p) => p,
        None => "",
    };
    proof {
        reveal_strlit("");
        assert(prefix@ =~= prefix_view(hex_prefix));
    }
    let mut flavors = flavors_new();
    let mut f: usize = 0;
    while f < FLAVOR_COUNT
        invariant
            !holds_bad_hex(color_overrides),
            f <= FLAVOR_COUNT,
            flavor_entries(flavors).len() == f,
            forall|j: int|
                0 <= j < f ==> {
                    &&& (#[trigger] flavor_entries(flavors)[j]).0 == flavor_identifier_at(j)
                    &&& is_palette_flavor(
                        flavor_entries(flavors)[j].1,
                        j,
                        capitalize_hex,
                        prefix@,
                        color_overrides,
                    )
                },
        decreases FLAVOR_COUNT - f,
    {
        let flavor = build_flavor(f, capitalize_hex, prefix, color_overrides);
        proof {
            lemma_flavor_identifiers_distinct();
        }
        flavors_insert(&mut flavors, String::from_str(flavor_identifier(f)), flavor);
        f += 1;
    }
    Ok(Palette { flavors })
}

} // verus!
