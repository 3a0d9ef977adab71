//! What a repository supplies to build a mailmap from.
use vstd::prelude::*;

verus! {

/// One mailmap source, as the repository reports it.
pub enum Source {
    /// Not configured, or not present.
    Absent,
    /// The bytes of the source.
    Contents(Vec<u8>),
    /// The repository failed while reading it.
    Failed,
}

/// The mailmap sources of a repository, in the order they are applied:
/// the `.mailmap` file of the working tree, the blob that `mailmap.blob`
/// names, and the file that `mailmap.file` names.
pub struct Repository {
    pub workdir: Source,
    pub blob: Source,
    pub file: Source,
}

/// The blob reference to read rules from: the configured one, or
/// `HEAD:.mailmap` for a repository without a working tree.
pub fn mailmap_blob(has_workdir: bool, configured: Option<&str>) -> (r: Option<String>)
    ensures
        match configured {
            Some(c) => r is Some && r->0@ == c@,
            None => if has_workdir {
                r is None
            } else {
                r is Some && r->0@ == "HEAD:.mailmap"@
            },
        },
{
    match configured {
        Some(c) => Some(c.to_owned()),
        None => if has_workdir {
            None
        } else {
            Some("HEAD:.mailmap".to_owned())
        },
    }
}

} // verus!
