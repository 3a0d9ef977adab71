//! Mapping of recorded commit identities to canonical ones, driven by
//! mailmap rules.
mod error;
pub mod laws;
pub mod mailmap;
pub mod parse;
pub mod repository;
pub mod signature;
pub mod text;

pub use error::Error;
pub use mailmap::{EntryModel, Mailmap};
pub use repository::{mailmap_blob, Repository, Source};
pub use signature::{Signature, SignatureModel};
