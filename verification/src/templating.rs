//! What a template gets to see: the options that its frontmatter declares
//! and the render context of each artifact.

use vstd::prelude::*;
use vstd::string::*;
use crate::cli::{parse_flavor_name, parsed_flavor};
use crate::matrix::{from_values, Dimension, Matrix, MatrixError};
use crate::models::{Color, Flavor, Palette};
use crate::ordered::{has_key, looked_up};

verus! {

/// The generation options of a template after validation.
#[derive(Clone, Debug)]
pub struct TemplateOptions {
    pub version: Option<String>,
    pub matrix: Option<Matrix>,
    pub filename: Option<String>,
}

/// Whether a template can be rendered by the running version.
#[derive(Clone, Copy, Debug, PartialEq, Eq, Structural)]
pub enum Compatibility {
    /// The template states a requirement and the running version meets it.
    Compatible,
    /// The template states a requirement and the running version fails it.
    Incompatible,
    /// The template states no requirement.
    Unspecified,
    /// The requirement or the running version cannot be read.
    Malformed,
}

/// What `semver` finds when it holds a version against a requirement:
/// whether the version meets it, or nothing where either cannot be read.
pub uninterp spec fn requirement_outcome(requirement: Seq<char>, version: Seq<char>) -> Option<bool>;

/// `VersionReq::matches` of `semver`, on a requirement and a version that
/// the crate parses from text; `None` where either does not parse.
#[verifier::external_body]
fn requirement_matches(requirement: &str, version: &str) -> (r: Option<bool>)
    ensures
        r == requirement_outcome(requirement@, version@),
{
    match (semver::VersionReq::parse(requirement), semver::Version::parse(version)) {
        (Ok(wanted), Ok(running)) => Some(wanted.matches(&running)),
        _ => None,
    }
}

/// The verdict for a template, given whether it states a requirement and
/// what the comparison with the running version found.
pub open spec fn verdict(outcome: Option<Option<bool>>) -> Compatibility {
    match outcome {
        None => Compatibility::Unspecified,
        Some(None) => Compatibility::Malformed,
        Some(Some(true)) => Compatibility::Compatible,
        Some(Some(false)) => Compatibility::Incompatible,
    }
}

/// Turns the outcome of a version comparison into a verdict.
pub fn compatibility_of(outcome: Option<Option<bool>>) -> (r: Compatibility)
    ensures
        r == verdict(outcome),
{
    match outcome {
        None => Compatibility::Unspecified,
        Some(None) => Compatibility::Malformed,
        Some(Some(true)) => Compatibility::Compatible,
        Some(Some(false)) => Compatibility::Incompatible,
    }
}

/// Holds the running version against the requirement that a template
/// states, if it states one.
pub fn verify_template_compatibility(requirement: Option<&str>, version: &str) -> (r: Compatibility)
    ensures
        requirement is None ==> r == Compatibility::Unspecified,
        requirement is Some ==> r == verdict(
            Some(requirement_outcome(requirement->Some_0@, version@)),
        ),
{
    match requirement {
        Some(wanted) => compatibility_of(Some(requirement_matches(wanted, version))),
        None => compatibility_of(None),
    }
}

/// How a template is rendered: once, or once per combination of a matrix
/// with a filename template that names each artifact.
#[derive(Debug)]
pub enum RenderMode<'a> {
    SingleFile,
    MultiFile { matrix: &'a Matrix, filename: &'a String },
}

/// A value of the render context.
#[derive(Debug)]
pub enum ContextValue<'a> {
    Text(String),
    Color(&'a Color),
    Flavor(&'a Flavor),
    Palette(&'a Palette),
}

/// A named value of the render context.
#[derive(Debug)]
pub struct ContextEntry<'a> {
    pub key: String,
    pub value: ContextValue<'a>,
}

/// Whether a pair of a combination asks for a flavor that cannot be had:
/// its key is `flavor` and its value names no flavor, or none of the palette.
pub open spec fn is_invalid_flavor_pair(pair: (String, String), palette: &Palette) -> bool {
    pair.0@ == "flavor"@ && match parsed_flavor(pair.1@) {
        Some(f) => !has_key(palette.entries(), f.identifier_spec()),
        None => true,
    }
}

/// Whether a context entry is what a pair of a combination contributes:
/// under the same key, the flavor of the palette that the value names where
/// the key is `flavor`, and the value as text otherwise.
pub open spec fn is_entry_for(entry: ContextEntry, pair: (String, String), palette: &Palette) -> bool {
    &&& entry.key@ == pair.0@
    &&& if pair.0@ == "flavor"@ {
        &&& entry.value is Flavor
        &&& parsed_flavor(pair.1@) is Some
        &&& looked_up(
            palette.entries(),
            parsed_flavor(pair.1@)->Some_0.identifier_spec(),
            Some(entry.value->Flavor_0),
        )
    } else {
        entry.value is Text && entry.value->Text_0@ == pair.1@
    }
}

impl TemplateOptions {
    /// Validates the declared options: the matrix, if any, is built under
    /// the single-flavor request; the filename template is kept as given.
    pub fn from_frontmatter(
        version: Option<String>,
        matrix: Option<Vec<Dimension>>,
        filename: Option<String>,
        only_flavor: Option<crate::cli::Flavor>,
    ) -> (r: Result<TemplateOptions, MatrixError>)
        ensures
            r is Err <==> matrix is Some && exists|d: int|
                0 <= d < matrix->Some_0@.len() && (#[trigger] matrix->Some_0@[d]).conflicts_with(
                    only_flavor,
                ),
            r is Err ==> r->Err_0 == MatrixError::FlavorNotInMatrix,
            r is Ok ==> {
                let o = r->Ok_0;
                &&& o.filename == filename
                &&& o.version == version
                &&& o.matrix is Some <==> matrix is Some
                &&& matrix is Some ==> {
                    let dims = matrix->Some_0;
                    let m = o.matrix->Some_0;
                    &&& m.dimensions@.len() == dims@.len()
                    &&& forall|d: int|
                        0 <= d < dims@.len() ==> {
                            &&& (#[trigger] m.dimensions@[d]).key@ == dims@[d].key@
                            &&& m.dimensions@[d].values_view() == dims@[d].restricted_values(
                                only_flavor,
                            )
                        }
                }
            },
    {
        match matrix {
            Some(dims) => match from_values(dims, only_flavor) {
                Ok(m) => Ok(TemplateOptions { version, matrix: Some(m), filename }),
                Err(e) => Err(e),
            },
            None => Ok(TemplateOptions { version, matrix: None, filename }),
        }
    }

    /// Decides how the template is rendered. A matrix asks for one artifact
    /// per combination and needs a filename template; without a matrix the
    /// template is rendered once.
    pub fn render_mode(&self) -> (r: Result<RenderMode<'_>, MatrixError>)
        ensures
            r is Err <==> self.matrix is Some && self.filename is None,
            r is Err ==> r->Err_0 == MatrixError::MatrixFilenameMissing,
            self.matrix is None ==> r is Ok && r->Ok_0 is SingleFile,
            self.matrix is Some && self.filename is Some ==> r is Ok && r->Ok_0 is MultiFile
                && *r->Ok_0->matrix == self.matrix->Some_0 && *r->Ok_0->filename
                == self.filename->Some_0,
    {
        match &self.matrix {
            Some(matrix) => match &self.filename {
                Some(filename) => Ok(RenderMode::MultiFile { matrix, filename }),
                None => Err(MatrixError::MatrixFilenameMissing),
            },
            None => Ok(RenderMode::SingleFile),
        }
    }
}

/// The context entries of one combination, one per pair and in the same
/// order: a pair keyed `flavor` contributes the full flavor of the palette
/// that its value names, any other pair its value as text. The whole
/// combination is refused when a flavor value names no flavor of the palette.
pub fn combination_context<'a>(combination: &Vec<(String, String)>, palette: &'a Palette) -> (r:
    Result<Vec<ContextEntry<'a>>, MatrixError>)
    ensures
        r is Err <==> exists|d: int|
            0 <= d < combination@.len() && is_invalid_flavor_pair(
                #[trigger] combination@[d],
                palette,
            ),
        r is Err ==> r->Err_0 == MatrixError::InvalidFlavorValue,
        r is Ok ==> r->Ok_0@.len() == combination@.len() && forall|d: int|
            0 <= d < combination@.len() ==> is_entry_for(
                #[trigger] r->Ok_0@[d],
                combination@[d],
                palette,
            ),
{
    let flavor_key = String::from_str("flavor");
    let mut out: Vec<ContextEntry<'a>> = Vec::new();
    let mut d: usize = 0;
    while d < combination.len()
        invariant
            d <= combination@.len(),
            out@.len() == d,
            flavor_key@ == "flavor"@,
            forall|j: int|
                0 <= j < d ==> !is_invalid_flavor_pair(#[trigger] combination@[j], palette),
            forall|j: int|
                0 <= j < d ==> is_entry_for(#[trigger] out@[j], combination@[j], palette),
        decreases combination@.len() - d,
    {
        let pair = &combination[d];
        let value = if pair.0 == flavor_key {
            let found = match parse_flavor_name(pair.1.as_str()) {
                Some(name) => palette.get(name.identifier()),
                None => None,
            };
            match found {
                Some(flavor) => ContextValue::Flavor(flavor),
                None => {
                    assert(is_invalid_flavor_pair(combination@[d as int], palette));
                    return Err(MatrixError::InvalidFlavorValue);
                },
            }
        } else {
            ContextValue::Text(pair.1.clone())
        };
        out.push(ContextEntry { key: pair.0.clone(), value });
        d += 1;
    }
    Ok(out)
}

/// The context entries of a single render: the whole palette under
/// `flavors`; where a flavor is selected and the palette holds it, that
/// flavor under `flavor`, followed by each of its colours under the colour's
/// own identifier, in canonical order.
pub fn single_file_context<'a>(palette: &'a Palette, flavor: Option<crate::cli::Flavor>) -> (r:
    Vec<ContextEntry<'a>>)
    ensures
        r@.len() >= 1,
        r@[0].key@ == "flavors"@,
        r@[0].value == ContextValue::Palette(palette),
        flavor is None || !has_key(palette.entries(), flavor->Some_0.identifier_spec())
            ==> r@.len() == 1,
        flavor is Some && has_key(palette.entries(), flavor->Some_0.identifier_spec()) ==> {
            &&& r@.len() >= 2
            &&& r@[1].key@ == "flavor"@
            &&& r@[1].value is Flavor
            &&& looked_up(
                palette.entries(),
                flavor->Some_0.identifier_spec(),
                Some(r@[1].value->Flavor_0),
            )
            &&& r@.len() == 2 + r@[1].value->Flavor_0.entries().len()
            &&& forall|i: int|
                0 <= i < r@[1].value->Flavor_0.entries().len() ==> {
                    &&& (#[trigger] r@[2 + i]).value is Color
                    &&& *r@[2 + i].value->Color_0 == r@[1].value->Flavor_0.entries()[i].1
                    &&& r@[2 + i].key@ == r@[2 + i].value->Color_0.identifier@
                }
        },
{
    let mut out: Vec<ContextEntry<'a>> = Vec::new();
    out.push(ContextEntry { key: String::from_str("flavors"), value: ContextValue::Palette(palette) });
    let selected = match flavor {
        Some(name) => palette.get(name.identifier()),
        None => None,
    };
    if let Some(found) = selected {
        out.push(ContextEntry { key: String::from_str("flavor"), value: ContextValue::Flavor(found) });
        let colors = found.iter();
        let mut i: usize = 0;
        while i < colors.len()
            invariant
                i <= colors@.len(),
                colors@.len() == found.entries().len(),
                forall|j: int|
                    0 <= j < colors@.len() ==> *(#[trigger] colors@[j]).1 == found.entries()[j].1,
                out@.len() == 2 + i,
                out@[0].key@ == "flavors"@,
                out@[0].value == ContextValue::Palette(palette),
                out@[1].key@ == "flavor"@,
                out@[1].value == ContextValue::Flavor(found),
                forall|j: int|
                    0 <= j < i ==> {
                        &&& (#[trigger] out@[2 + j]).value is Color
                        &&& *out@[2 + j].value->Color_0 == found.entries()[j].1
                        &&& out@[2 + j].key@ == out@[2 + j].value->Color_0.identifier@
                    },
            decreases colors@.len() - i,
        {
            let color = colors[i].1;
            out.push(ContextEntry { key: color.identifier.clone(), value: ContextValue::Color(color) });
            i += 1;
        }
    }
    out
}

} // verus!
