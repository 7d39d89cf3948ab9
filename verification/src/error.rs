//! What can go wrong in a session with the editing API.

use vstd::prelude::*;

verus! {

/// The ways in which an operation of the OSM client fails.
#[derive(Debug, Clone, Copy, PartialEq, Eq)]
pub enum OsmError {
    /// A base address or a sub-path does not make a URL.
    UrlParse,
    /// The connection failed or timed out.
    Transport,
    /// The server answered a read with a status other than 200.
    HttpStatus(u16),
    /// A response body that should be XML is not well-formed.
    XmlParse,
    /// The changeset ID was asked for before a changeset was opened.
    ChangesetIdNotSet,
    /// The document could not be written out.
    IoError,
}

} // verus!
