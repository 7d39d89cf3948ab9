//! Queries for the Overpass API, a read-only service for mining
//! OpenStreetMap data.

use vstd::prelude::*;
use vstd::string::*;

verus! {

/// The formats in which an Overpass server can answer.
pub enum Responseformat {
    GEOJSON,
    JSON,
    XML,
    CSV,
}

/// An Overpass endpoint and the time allowed for one request to it.
pub struct API {
    url: String,
    timeout: u32,
}

/// Whether `c` has the Unicode property `White_Space`.
pub open spec fn is_whitespace(c: char) -> bool {
    let n = c as u32;
    ||| 0x09 <= n <= 0x0D
    ||| n == 0x20
    ||| n == 0x85
    ||| n == 0xA0
    ||| n == 0x1680
    ||| 0x2000 <= n <= 0x200A
    ||| n == 0x2028
    ||| n == 0x2029
    ||| n == 0x202F
    ||| n == 0x205F
    ||| n == 0x3000
}

/// `s` without its leading whitespace.
pub open spec fn trim_start(s: Seq<char>) -> Seq<char>
    decreases s.len(),
{
    if s.len() > 0 && is_whitespace(s.first()) {
        trim_start(s.drop_first())
    } else {
        s
    }
}

/// `s` without its trailing whitespace.
pub open spec fn trim_end(s: Seq<char>) -> Seq<char>
    decreases s.len(),
{
    if s.len() > 0 && is_whitespace(s.last()) {
        trim_end(s.drop_last())
    } else {
        s
    }
}

/// `s` without leading and trailing whitespace.
pub open spec fn trimmed(s: Seq<char>) -> Seq<char> {
    trim_end(trim_start(s))
}

/// The statement part of a query: trimmed, and closed by a semicolon if it
/// was not closed already.
pub open spec fn terminated(query: Seq<char>) -> Seq<char> {
    let q = trimmed(query);
    if ";"@.is_suffix_of(q) {
        q
    } else {
        q + ";"@
    }
}

/// The word by which the query language knows a response format.
pub open spec fn format_name(f: Responseformat) -> Seq<char> {
    match f {
        Responseformat::GEOJSON => "geojson"@,
        Responseformat::JSON => "json"@,
        Responseformat::XML => "xml"@,
        Responseformat::CSV => "csv"@,
    }
}

/// The complete Overpass QL text for a bare query.
pub open spec fn ql_query_text(
    query: Seq<char>,
    f: Responseformat,
    verbosity: Seq<char>,
) -> Seq<char> {
    "[out:"@ + format_name(f) + "];"@ + terminated(query) + "out "@ + verbosity + ";"@
}

/// `str::trim`: the slice of `s` that is left when the whitespace at both
/// ends is taken away, whitespace being the characters with the Unicode
/// property `White_Space`.
#[verifier::external_body]
fn trim(s: &str) -> (t: &str)
    ensures
        t@ == trimmed(s@),
{
    s.trim()
}

/// `str::ends_with` for a string pattern: whether the last characters of `s`
/// are exactly those of `suffix`.
#[verifier::external_body]
fn ends_with(s: &str, suffix: &str) -> (b: bool)
    ensures
        b == suffix@.is_suffix_of(s@),
{
    s.ends_with(suffix)
}

impl API {
    /// The endpoint that requests go to.
    pub closed spec fn endpoint(&self) -> Seq<char> {
        self.url@
    }

    /// The seconds allowed for one request.
    pub closed spec fn timeout_seconds(&self) -> u32 {
        self.timeout
    }

    /// A client for the Overpass instance at `url`. Neither argument is
    /// validated.
    pub fn new(url: &str, timeout: u32) -> (api: Self)
        ensures
            api.endpoint() == url@,
            api.timeout_seconds() == timeout,
    {
        Self { url: String::from_str(url), timeout }
    }

    /// The endpoint that requests go to.
    pub fn url(&self) -> (url: &str)
        ensures
            url@ == self.endpoint(),
    {
        self.url.as_str()
    }

    /// The seconds allowed for one request.
    pub fn timeout(&self) -> (timeout: u32)
        ensures
            timeout == self.timeout_seconds(),
    {
        self.timeout
    }

    /// The text to post for `query`: the query as it stands, or, for a bare
    /// query, the query wrapped in the output settings.
    pub fn request_body(
        query: &str,
        responseformat: Responseformat,
        verbosity: &str,
        pure_query: bool,
    ) -> (body: String)
        ensures
            body@ == if pure_query {
                ql_query_text(query@, responseformat, verbosity@)
            } else {
                query@
            },
    {
        if pure_query {
            API::construct_ql_query(query, responseformat, verbosity)
        } else {
            String::from_str(query)
        }
    }

    /// Wraps a bare query in the output settings: the response format in
    /// front, the verbosity behind, the query between them closed by
    /// exactly one semicolon.
    pub fn construct_ql_query(query: &str, responseformat: Responseformat, verbosity: &str) -> (full:
        String)
        ensures
            full@ == ql_query_text(query@, responseformat, verbosity@),
    {
        let mut ql_query = String::from_str(trim(query));
        if !ends_with(ql_query.as_str(), ";") {
            ql_query.append(";");
        }
        let mut full = String::from_str("[out:");
        full.append(API::response_format_to_string(responseformat).as_str());
        full.append("];");
        full.append(ql_query.as_str());
        full.append("out ");
        full.append(verbosity);
        full.append(";");
        full
    }

    /// The word by which the query language knows `f`.
    pub fn response_format_to_string(f: Responseformat) -> (name: String)
        ensures
            name@ == format_name(f),
    {
        match f {
            Responseformat::GEOJSON => String::from_str("geojson"),
            Responseformat::JSON => String::from_str("json"),
            Responseformat::XML => String::from_str("xml"),
            Responseformat::CSV => String::from_str("csv"),
        }
    }
}

} // verus!
