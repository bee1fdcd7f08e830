use vstd::prelude::*;

verus! {

/// What can go wrong while filing an item.
#[derive(Debug, Clone, PartialEq, Eq)]
pub enum Error {
    /// The file could not be moved to the path held.
    UnableToMove(String),
    /// The directory held could not be created.
    UnableToCreateDirectory(String),
    /// The file at the path held is not a manageable media file.
    UnsupportedFile(String),
    /// The file at the path held lacks the tag named.
    MissingRequiredTag(String, String),
    /// The tag-reading helper is not available.
    HelperNotFound,
}

} // verus!
