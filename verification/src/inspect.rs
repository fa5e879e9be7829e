//! Inspecting one catalog entry: deciding what an id denotes — a
//! collection, a feature, or a template — and when the lookup is ambiguous
//! or empty. Rendering the tables is a collaborator outside the library.

use vstd::prelude::*;

use crate::registry::{
    spec_find_collection, spec_find_feature, spec_find_template, spec_iter_features,
    spec_iter_templates, Collection, DevcontainerIndex, Feature, Template,
};

verus! {

/// How an inspected entry is rendered; the rendering itself is outside the
/// library.
#[derive(Debug, Clone, Copy, PartialEq, Eq, Structural)]
pub enum InspectDisplay {
    Table,
    Json,
    NoOutput,
}

/// The arguments of an inspect invocation.
#[derive(Debug, Clone)]
pub struct InspectArgs {
    pub id: String,
    pub tag_name: String,
    pub display_as: InspectDisplay,
    pub install_sh: bool,
    pub show_files: bool,
}

/// What an id denotes in the catalog.
#[derive(Debug)]
pub enum InspectTarget<'a> {
    Collection(&'a Collection),
    Feature(&'a Feature),
    Template(&'a Template),
}

/// Why an id cannot be inspected.
#[derive(Debug, Clone, Copy, PartialEq, Eq, Structural)]
pub enum InspectError {
    /// Nothing in the catalog carries this id.
    NotFound,
    /// More than one kind of entry carries this id.
    Ambiguous,
}

/// Decides what the given id denotes: the one collection, feature or
/// template that carries it — an id carried by none is not found, one
/// carried by more than one kind is ambiguous. Deprecated entries take part
/// in the lookup.
pub fn inspect_target<'a>(index: &'a DevcontainerIndex, id: &str) -> (r: Result<
    InspectTarget<'a>,
    InspectError,
>)
    ensures
        ({
            let c = spec_find_collection(index@, id@);
            let f = spec_find_feature(spec_iter_features(index@, true), id@);
            let t = spec_find_template(spec_iter_templates(index@, true), id@);
            match (c, f, t) {
                (Some(cv), None, None) => r matches Ok(InspectTarget::Collection(x)) && x@ == cv,
                (None, Some(fv), None) => r matches Ok(InspectTarget::Feature(x)) && x@ == fv,
                (None, None, Some(tv)) => r matches Ok(InspectTarget::Template(x)) && x@ == tv,
                (None, None, None) => r matches Err(InspectError::NotFound),
                _ => r matches Err(InspectError::Ambiguous),
            }
        }),
{
    let collection = index.get_collection(id);
    let feature = index.get_feature(id);
    let template = index.get_template(id);
    match (collection, feature, template) {
        (Some(c), None, None) => Ok(InspectTarget::Collection(c)),
        (None, Some(f), None) => Ok(InspectTarget::Feature(f)),
        (None, None, Some(t)) => Ok(InspectTarget::Template(t)),
        (None, None, None) => Err(InspectError::NotFound),
        _ => Err(InspectError::Ambiguous),
    }
}

} // verus!
