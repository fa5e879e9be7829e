//! References into an artifact registry, modelled by the parts the library
//! reads: registry host, repository, and tag. Parsing the reference grammar
//! is the registry client's work, behind a trusted wrapper.

use vstd::prelude::*;
use vstd::string::StringExecFns;

verus! {

/// A parsed registry reference.
#[derive(Debug, Clone)]
pub struct OciReference {
    pub registry: String,
    pub repository: String,
    pub tag: Option<String>,
}

#[verifier::ext_equal]
pub ghost struct OciReferenceV {
    pub registry: Seq<char>,
    pub repository: Seq<char>,
    pub tag: Option<Seq<char>>,
}

impl View for OciReference {
    type V = OciReferenceV;

    open spec fn view(&self) -> OciReferenceV {
        OciReferenceV {
            registry: self.registry@,
            repository: self.repository@,
            tag: crate::registry::opt_str_view(self.tag),
        }
    }
}

/// What parsing the given text as a registry reference yields, if it is
/// well formed: the registry, the repository, and the tag — `latest` is
/// filled in when neither tag nor digest was written.
pub uninterp spec fn oci_parse_of(s: Seq<char>) -> Option<(Seq<char>, Seq<char>, Option<Seq<char>>)>;

/// Relies on `oci_client::Reference::from_str` and its `registry`,
/// `repository` and `tag` accessors: the parse is a function of the text
/// alone.
#[verifier::external_body]
pub fn parse_oci_reference(s: &str) -> (r: Option<OciReference>)
    ensures
        match r {
            Some(o) => oci_parse_of(s@) == Some((o.registry@, o.repository@, crate::registry::opt_str_view(o.tag))),
            None => oci_parse_of(s@) is None,
        },
{
    match <oci_client::Reference as std::str::FromStr>::from_str(s) {
        Ok(reference) => Some(
            OciReference {
                registry: reference.registry().to_string(),
                repository: reference.repository().to_string(),
                tag: reference.tag().map(|t| t.to_string()),
            },
        ),
        Err(_) => None,
    }
}

impl OciReference {
    /// The identity the index is keyed by: `registry/repository`.
    pub fn id(&self) -> (r: String)
        ensures
            r@ == self.registry@ + "/"@ + self.repository@,
    {
        self.registry.clone().concat("/").concat(self.repository.as_str())
    }

    /// The tag to pull, `latest` when none was given.
    pub fn tag_name(&self) -> (r: String)
        ensures
            r@ == (match self@.tag {
                Some(t) => t,
                None => "latest"@,
            }),
    {
        match &self.tag {
            Some(t) => t.clone(),
            None => "latest".to_owned(),
        }
    }

    /// The whole reference as text: the id, with the tag when one is held.
    pub fn reference_string(&self) -> (r: String)
        ensures
            r@ == (match self@.tag {
                Some(t) => self.registry@ + "/"@ + self.repository@ + ":"@ + t,
                None => self.registry@ + "/"@ + self.repository@,
            }),
    {
        let id = self.id();
        match &self.tag {
            Some(t) => id.concat(":").concat(t.as_str()),
            None => id,
        }
    }
}

} // verus!
