//! Client-side helpers for two OpenStreetMap web services: the editing API,
//! for which a session collects node edits in an osmChange document, and
//! the Overpass API, for which a query string is put together.
//!
//! Nothing here touches the network or the file system: the library builds
//! what is to be sent and interprets what came back.
//!
//! - [`osmapi`]: a session with the editing API, its requests and responses.
//! - [`changeset`]: the osmChange document and what recording an edit
//!   does to it.
//! - [`overpass`]: queries for the Overpass API.
//! - [`error`]: the errors of a session.
//! - [`xml`], [`address`], [`clock`]: what is taken on trust about the
//!   crates that hold the XML tree, parse addresses and tell the time.

pub mod address;
pub mod changeset;
pub mod clock;
pub mod error;
pub mod osmapi;
pub mod overpass;
pub mod xml;
