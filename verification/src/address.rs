//! Web addresses, as the verifier sees them.
//!
//! Parsing and joining are the work of the `url` crate. What it computes is
//! named here and not spelled out: the address that a text parses to, and
//! the address that a reference resolves to against a base.

use vstd::prelude::*;
use url::Url;

verus! {

/// `url::Url`, a parsed address. It is carried around, never looked into.
#[verifier::external_type_specification]
#[verifier::external_body]
pub struct ExUrl(url::Url);

/// `url::ParseError`, the reason why a text is no address.
#[verifier::external_type_specification]
#[verifier::external_body]
pub struct ExUrlParseError(url::ParseError);

/// The serialization of an address: the text that `as_str` gives.
pub uninterp spec fn url_text(u: Url) -> Seq<char>;

/// The serialization of the absolute address that `input` parses to, if it
/// parses to one.
pub uninterp spec fn parsed_url(input: Seq<char>) -> Option<Seq<char>>;

/// The serialization of the address that `reference` resolves to against
/// the address serialized as `base`, if it resolves.
pub uninterp spec fn joined_url(base: Seq<char>, reference: Seq<char>) -> Option<Seq<char>>;

/// `Url::parse`: the address that `input` parses to, or an error if it does
/// not parse to an absolute address. The outcome depends on `input` alone.
pub assume_specification[ Url::parse ](input: &str) -> (parsed: Result<Url, url::ParseError>)
    ensures
        match parsed {
            Ok(u) => parsed_url(input@) == Some(url_text(u)),
            Err(_) => parsed_url(input@) is None,
        },
;

/// `Url::join`: the address that `input` resolves to with `base` as the
/// base address, or an error if it does not resolve. The outcome depends on
/// `input` and on the serialization of `base` alone.
pub assume_specification[ Url::join ](base: &Url, input: &str) -> (joined: Result<
    Url,
    url::ParseError,
>)
    ensures
        match joined {
            Ok(u) => joined_url(url_text(*base), input@) == Some(url_text(u)),
            Err(_) => joined_url(url_text(*base), input@) is None,
        },
;

} // verus!
