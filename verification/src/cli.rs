//! Plain values that a caller selects: a single flavor, colour overrides and
//! an output format.

use vstd::prelude::*;
use vstd::string::*;

verus! {

/// The four flavors, in canonical order.
#[derive(Clone, Copy, Debug, PartialEq, Eq, Structural)]
pub enum Flavor {
    Latte,
    Frappe,
    Macchiato,
    Mocha,
}

impl Flavor {
    /// The stable lower-case key of the flavor.
    pub open spec fn identifier_spec(self) -> Seq<char> {
        match self {
            Flavor::Latte => "latte"@,
            Flavor::Frappe => "frappe"@,
            Flavor::Macchiato => "macchiato"@,
            Flavor::Mocha => "mocha"@,
        }
    }

    /// The stable lower-case key of the flavor.
    pub fn identifier(&self) -> (r: &'static str)
        ensures
            r@ == self.identifier_spec(),
    {
        match self {
            Flavor::Latte => "latte",
            Flavor::Frappe => "frappe",
            Flavor::Macchiato => "macchiato",
            Flavor::Mocha => "mocha",
        }
    }
}

/// The flavor that a string names: one of the four identifiers, or the
/// accented spelling of the second; any other string names none.
pub open spec fn parsed_flavor(s: Seq<char>) -> Option<Flavor> {
    if s == "latte"@ {
        Some(Flavor::Latte)
    } else if s == "frappe"@ || s == "frappé"@ {
        Some(Flavor::Frappe)
    } else if s == "macchiato"@ {
        Some(Flavor::Macchiato)
    } else if s == "mocha"@ {
        Some(Flavor::Mocha)
    } else {
        None
    }
}

/// `FromStr` of `catppuccin::FlavorName`: accepts exactly the four flavor
/// identifiers and the accented spelling of the second.
#[verifier::external_body]
pub(crate) fn parse_flavor_name(s: &str) -> (r: Option<Flavor>)
    ensures
        r == parsed_flavor(s@),
{
    match s.parse::<catppuccin::FlavorName>() {
        Ok(catppuccin::FlavorName::Latte) => Some(Flavor::Latte),
        Ok(catppuccin::FlavorName::Frappe) => Some(Flavor::Frappe),
        Ok(catppuccin::FlavorName::Macchiato) => Some(Flavor::Macchiato),
        Ok(catppuccin::FlavorName::Mocha) => Some(Flavor::Mocha),
        Err(_) => None,
    }
}

/// Replacement hex strings by colour identifier: `all` for every flavor, the
/// others for one flavor each, where they take precedence over `all`.
#[derive(Clone, Debug)]
pub struct ColorOverrides {
    pub all: Vec<(String, String)>,
    pub latte: Vec<(String, String)>,
    pub frappe: Vec<(String, String)>,
    pub macchiato: Vec<(String, String)>,
    pub mocha: Vec<(String, String)>,
}

/// The format in which the list of filters and functions is printed.
#[derive(Clone, Copy, Debug, PartialEq, Eq, Structural)]
pub enum OutputFormat {
    Json,
    Yaml,
    Markdown,
    MarkdownTable,
}

} // verus!
