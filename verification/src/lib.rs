//! Management of devcontainer configuration files: a typed catalog of the
//! community index, option resolution, and the template materialization
//! pipeline (tar walk, placeholder substitution, feature merge).

pub mod configuration;
pub mod init;
pub mod inspect;
pub mod json;
pub mod list;
pub mod oci_ref;
pub mod registry;
pub mod search;
pub mod subst;
pub mod tarball;
pub mod textmatch;
