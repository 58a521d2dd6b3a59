use vstd::prelude::*;

verus! {

/// What can go wrong in the address synthesis and the projections.
#[derive(Debug, Clone, Copy, PartialEq, Eq, Structural)]
pub enum HitomiError {
    /// A search pattern was refused by the pattern engine.
    Pattern,
    /// The routing script does not have the expected shape.
    Scrape,
    /// A hash too short to take the routing characters from.
    InvalidHash,
    /// The routing characters of a hash are no hexadecimal number.
    InvalidNumber,
    /// The routing table gives a bucket that stands for no character.
    InvalidCharacter,
    /// A thumbnail address was asked for without a directory.
    MissingDir,
    /// A thumbnail address was asked for without an extension.
    MissingExt,
    /// The gallery has no files.
    EmptyGallery,
    /// No download task has the given id.
    NotFound,
    /// The directory name template could not be rendered.
    Template,
    /// The comic has no directory name.
    MissingDirName,
    /// The service answered 503 to an image request.
    ServiceUnavailable,
    /// The service answered with a status other than 200.
    UnexpectedStatus,
    /// A text is no JSON document, or lacks what is read from it.
    Json,
    /// A value that should be a number is neither a number nor a string.
    NotNumeric,
}

} // verus!
