//! A session with the OpenStreetMap editing API.
//!
//! A session holds the credentials of an account, the changeset that was
//! opened for it on the server, and the osmChange document in which node
//! edits are collected for upload. The library prepares each request and
//! reads each response; sending is left to the caller.

use vstd::prelude::*;
use vstd::string::*;
use url::Url;
use xmltree::Element;
use xmltree::ParseError;
use crate::address::joined_url;
use crate::address::parsed_url;
use crate::address::url_text;
use crate::changeset::API_VERSION;
use crate::changeset::creation;
use crate::changeset::is_change_document;
use crate::changeset::is_new_document;
use crate::changeset::lemma_edit_keeps_document;
use crate::changeset::modification;
use crate::changeset::new_document;
use crate::changeset::record_edit;
use crate::changeset::records_edit;
use crate::clock::now_rfc3339;
use crate::error::OsmError;
use crate::xml::element_attributes;
use crate::xml::parse_element;
use crate::xml::parsed_element;
use crate::xml::write_element;
use crate::xml::written_element;

verus! {

/// The server to try edits out on.
pub const OSM_DEVEL_API_URL: &'static str = "https://master.apis.dev.openstreetmap.org";

/// The server that holds the map.
pub const OSM_API_URL: &'static str = "https://api.openstreetmap.org";

/// What the request to open a changeset holds before the comment.
pub const CHANGESET_BODY_HEAD: &'static str =
    "<osm>\n                            <changeset>\n                                <tag k=\"created_by\" v=\"RUST OSM API\"/>\n                                <tag k=\"comment\" v=\"";

/// What the request to open a changeset holds after the comment.
pub const CHANGESET_BODY_TAIL: &'static str =
    "\"/>\n                            </changeset>\n                        </osm>\n                        ";

/// The server that a session talks to.
pub open spec fn api_base(devel: bool) -> Seq<char> {
    if devel {
        OSM_DEVEL_API_URL@
    } else {
        OSM_API_URL@
    }
}

/// What `reference` resolves to against `base`, where there is a base.
pub open spec fn resolved(base: Option<Seq<char>>, reference: Seq<char>) -> Option<Seq<char>> {
    match base {
        Some(b) => joined_url(b, reference),
        None => None,
    }
}

/// The address of `sub_url` in the API: the server, then `api/`, then the
/// version as a directory, then `sub_url`, each step resolved against the
/// one before as a link is against the page it stands on.
pub open spec fn api_url(devel: bool, sub_url: Seq<char>) -> Option<Seq<char>> {
    resolved(
        resolved(resolved(parsed_url(api_base(devel)), "api/"@), API_VERSION@ + "/"@),
        sub_url,
    )
}

/// An address that was parsed or resolved, or the error that stands for
/// every way in which that can fail.
pub fn url_or_error(outcome: Result<Url, url::ParseError>) -> (url: Result<Url, OsmError>)
    ensures
        match outcome {
            Ok(u) => url == Ok::<Url, OsmError>(u),
            Err(_) => url == Err::<Url, OsmError>(OsmError::UrlParse),
        },
{
    match outcome {
        Ok(u) => Ok(u),
        Err(_) => Err(OsmError::UrlParse),
    }
}

/// The address of `sub_url` on the development server or on the production
/// server.
pub fn create_url(devel: bool, sub_url: &str) -> (url: Result<Url, OsmError>)
    ensures
        match api_url(devel, sub_url@) {
            Some(text) => url is Ok && url_text(url.unwrap()) == text,
            None => url == Err::<Url, OsmError>(OsmError::UrlParse),
        },
{
    let base = if devel {
        OSM_DEVEL_API_URL
    } else {
        OSM_API_URL
    };
    let server = url_or_error(Url::parse(base))?;
    let api = url_or_error(server.join("api/"))?;
    let mut directory = String::from_str(API_VERSION);
    directory.append("/");
    let versioned = url_or_error(api.join(directory.as_str()))?;
    url_or_error(versioned.join(sub_url))
}

/// The body of the request that opens a changeset: the name of this
/// client and the comment, as the two tags of a changeset. The comment is put
/// in as it is.
pub open spec fn changeset_body(comment: Seq<char>) -> Seq<char> {
    CHANGESET_BODY_HEAD@ + comment + CHANGESET_BODY_TAIL@
}

/// The body of the request that opens a changeset with the given comment.
pub fn changeset_create_body(comment: &str) -> (body: String)
    ensures
        body@ == changeset_body(comment@),
{
    let mut body = String::from_str(CHANGESET_BODY_HEAD);
    body.append(comment);
    body.append(CHANGESET_BODY_TAIL);
    body
}

/// A parsed response, or the error that stands for every way in which a
/// text can fail to be XML.
pub fn xml_or_error(outcome: Result<Element, ParseError>) -> (xml: Result<Element, OsmError>)
    ensures
        match outcome {
            Ok(e) => xml == Ok::<Element, OsmError>(e),
            Err(_) => xml == Err::<Element, OsmError>(OsmError::XmlParse),
        },
{
    match outcome {
        Ok(e) => Ok(e),
        Err(_) => Err(OsmError::XmlParse),
    }
}

/// The root element of a response body.
pub fn parse_response(resp: &str) -> (xml: Result<Element, OsmError>)
    ensures
        match parsed_element(resp@) {
            Some(e) => xml == Ok::<Element, OsmError>(e),
            None => xml == Err::<Element, OsmError>(OsmError::XmlParse),
        },
{
    xml_or_error(parse_element(resp))
}

/// Whether the server answered a read with success: status 200 and no
/// other.
pub fn check_status(status: u16) -> (outcome: Result<(), OsmError>)
    ensures
        status == 200 ==> outcome == Ok::<(), OsmError>(()),
        status != 200 ==> outcome == Err::<(), OsmError>(OsmError::HttpStatus(status)),
{
    if status == 200 {
        Ok(())
    } else {
        Err(OsmError::HttpStatus(status))
    }
}

/// What a read comes to, given the status and the body that the server
/// answered with: the root element of the body if the status is 200, and
/// else the status as an error, whatever the body.
pub fn read_response(status: u16, body: &str) -> (xml: Result<Element, OsmError>)
    ensures
        status != 200 ==> xml == Err::<Element, OsmError>(OsmError::HttpStatus(status)),
        status == 200 ==> match parsed_element(body@) {
            Some(e) => xml == Ok::<Element, OsmError>(e),
            None => xml == Err::<Element, OsmError>(OsmError::XmlParse),
        },
{
    match check_status(status) {
        Ok(_) => parse_response(body),
        Err(e) => Err(e),
    }
}

/// The bytes of a written document, or the error that stands for every way
/// in which writing can fail.
pub fn written_or_error(outcome: Result<Vec<u8>, xmltree::Error>) -> (bytes: Result<
    Vec<u8>,
    OsmError,
>)
    ensures
        match outcome {
            Ok(b) => bytes == Ok::<Vec<u8>, OsmError>(b),
            Err(_) => bytes == Err::<Vec<u8>, OsmError>(OsmError::IoError),
        },
{
    match outcome {
        Ok(b) => Ok(b),
        Err(_) => Err(OsmError::IoError),
    }
}

/// Reserved for reading a single tag. It has no effect.
pub fn get_tag(devel: bool, tag: &str) {
}

/// What the server answered to a request, if the request got that far.
pub open spec fn answer<E>(response: Result<String, E>) -> Option<Seq<char>> {
    match response {
        Ok(body) => Some(body@),
        Err(_) => None,
    }
}

/// The changeset ID that a session holds after the answer to one request
/// to open a changeset: the body of the answer, or, if the request failed
/// and there is no answer, the ID that it held before.
pub open spec fn id_with(id: Seq<char>, answer: Option<Seq<char>>) -> Seq<char> {
    match answer {
        Some(body) => body,
        None => id,
    }
}

/// The changeset ID that a new session holds after the answers to its
/// requests to open a changeset, in their order.
pub open spec fn id_after(answers: Seq<Option<Seq<char>>>) -> Seq<char>
    decreases answers.len(),
{
    if answers.len() == 0 {
        Seq::empty()
    } else {
        id_with(id_after(answers.drop_last()), answers.last())
    }
}

/// The changeset ID is missing exactly as long as no changeset was opened.
/// Provided that the server never answers with an empty body, the ID that a
/// session holds is empty, and asking for it an error, if and only if none
/// of its requests to open a changeset succeeded.
pub proof fn lemma_id_missing_until_opened(answers: Seq<Option<Seq<char>>>)
    requires
        forall|k: int|
            0 <= k < answers.len() && (#[trigger] answers[k]) is Some ==> answers[k].unwrap().len()
                > 0,
    ensures
        id_after(answers).len() == 0 <==> forall|k: int|
            0 <= k < answers.len() ==> (#[trigger] answers[k]) is None,
    decreases answers.len(),
{
    if answers.len() > 0 {
        let earlier = answers.drop_last();
        assert forall|k: int| 0 <= k < earlier.len() implies (#[trigger] earlier[k]) == answers[k] by {}
        lemma_id_missing_until_opened(earlier);
        if answers.last() is None {
            if forall|k: int| 0 <= k < earlier.len() ==> (#[trigger] earlier[k]) is None {
                assert forall|k: int| 0 <= k < answers.len() implies (#[trigger] answers[k]) is None by {
                    if k < earlier.len() {
                        assert(earlier[k] is None);
                    }
                }
            } else {
                let k = choose|k: int| 0 <= k < earlier.len() && !((#[trigger] earlier[k]) is None);
                assert(!(answers[k] is None));
            }
        } else {
            assert(!(answers[answers.len() - 1] is None));
        }
    }
}

/// An account with the editing API, the changeset that is open for it, and
/// the edits collected so far.
pub struct OsmAccount {
    username: String,
    password: String,
    dev_api: bool,
    changeset_id: String,
    changeset: Element,
}

/// What a session holds.
pub struct Session {
    pub username: Seq<char>,
    pub password: Seq<char>,
    pub dev_api: bool,
    /// The ID of the open changeset; empty as long as none was opened.
    pub changeset_id: Seq<char>,
    /// The osmChange document.
    pub document: Element,
}

impl View for OsmAccount {
    type V = Session;

    closed spec fn view(&self) -> Session {
        Session {
            username: self.username@,
            password: self.password@,
            dev_api: self.dev_api,
            changeset_id: self.changeset_id@,
            document: self.changeset,
        }
    }
}

/// An authenticated upload, ready to be sent with `PUT`.
pub struct PutRequest {
    pub url: Url,
    pub username: String,
    pub password: String,
    pub body: String,
}

impl OsmAccount {
    /// Whether the document of this session is an osmChange document as
    /// this library builds them. It is so from the start, and no operation
    /// on a session ends it.
    pub open spec fn well_formed(&self) -> bool {
        is_change_document(self@.document)
    }

    /// A session for the given account, with a document dated now and no
    /// changeset open.
    pub fn new(username: String, password: String, dev_api: bool) -> (account: Self)
        ensures
            account@.username == username@,
            account@.password == password@,
            account@.dev_api == dev_api,
            account@.changeset_id == Seq::<char>::empty(),
            is_new_document(account@.document, element_attributes(account@.document)["date"@]),
            account.well_formed(),
    {
        let date = now_rfc3339();
        Self::new_with_date(username, password, dev_api, date.as_str())
    }

    /// A session for the given account, with a document dated `date` and no
    /// changeset open.
    pub fn new_with_date(username: String, password: String, dev_api: bool, date: &str) -> (account:
        Self)
        ensures
            account@.username == username@,
            account@.password == password@,
            account@.dev_api == dev_api,
            account@.changeset_id == Seq::<char>::empty(),
            is_new_document(account@.document, date@),
            account.well_formed(),
    {
        Self {
            username,
            password,
            dev_api,
            changeset_id: String::new(),
            changeset: new_document(date),
        }
    }

    /// Records the modification of a node that the server knows at
    /// `version`. The node is stamped with the open changeset and with
    /// `version`, and is added at the end of the `modify` group. Whether
    /// `version` is the version that the server has is for the caller to
    /// know.
    pub fn add_modify_node_changeset(&mut self, node: Element, version: &str)
        ensures
            final(self)@.username == old(self)@.username,
            final(self)@.password == old(self)@.password,
            final(self)@.dev_api == old(self)@.dev_api,
            final(self)@.changeset_id == old(self)@.changeset_id,
            records_edit(
                old(self)@.document,
                final(self)@.document,
                modification(node, old(self)@.changeset_id, version@),
            ),
            old(self).well_formed() ==> final(self).well_formed(),
    {
        record_edit(&mut self.changeset, "modify", node, self.changeset_id.as_str(), version);
        proof {
            if old(self).well_formed() {
                lemma_edit_keeps_document(
                    old(self).changeset,
                    self.changeset,
                    modification(node, old(self)@.changeset_id, version@),
                );
            }
        }
    }

    /// Records the creation of a node. The node is stamped with the open
    /// changeset and with version 1, and is added at the end of the
    /// `create` group. Nothing about the node is checked, and it is recorded
    /// also while no changeset is open: its changeset stamp is empty then.
    pub fn add_create_node_changeset(&mut self, node: Element)
        ensures
            final(self)@.username == old(self)@.username,
            final(self)@.password == old(self)@.password,
            final(self)@.dev_api == old(self)@.dev_api,
            final(self)@.changeset_id == old(self)@.changeset_id,
            records_edit(
                old(self)@.document,
                final(self)@.document,
                creation(node, old(self)@.changeset_id),
            ),
            old(self).well_formed() ==> final(self).well_formed(),
    {
        record_edit(&mut self.changeset, "create", node, self.changeset_id.as_str(), "1");
        proof {
            if old(self).well_formed() {
                lemma_edit_keeps_document(
                    old(self).changeset,
                    self.changeset,
                    creation(node, old(self)@.changeset_id),
                );
            }
        }
    }

    /// The ID of the open changeset. Edits recorded while there is none
    /// carry an empty changeset attribute, so this is to be asked first.
    pub fn changeset_id(&mut self) -> (id: Result<&String, OsmError>)
        ensures
            *final(self) == *old(self),
            match id {
                Ok(open) => open@ == old(self)@.changeset_id && open@.len() > 0,
                Err(e) => e == OsmError::ChangesetIdNotSet && old(self)@.changeset_id.len() == 0,
            },
    {
        if self.changeset_id.as_str().is_empty() {
            return Err(OsmError::ChangesetIdNotSet);
        }
        Ok(&self.changeset_id)
    }

    /// The name of the account.
    pub fn username(&self) -> (name: &str)
        ensures
            name@ == self@.username,
    {
        self.username.as_str()
    }

    /// The password of the account.
    pub fn password(&self) -> (password: &str)
        ensures
            password@ == self@.password,
    {
        self.password.as_str()
    }

    /// Whether the session talks to the development server.
    pub fn dev_api(&self) -> (devel: bool)
        ensures
            devel == self@.dev_api,
    {
        self.dev_api
    }

    /// The osmChange document with the edits recorded so far.
    pub fn changeset(&self) -> (document: &Element)
        ensures
            *document == self@.document,
    {
        &self.changeset
    }

    /// The document as XML, indented and with special characters escaped,
    /// ready to be written to a file: the whole document with both groups,
    /// as the emitter writes it with these two settings on.
    pub fn changeset_xml(&self) -> (bytes: Result<Vec<u8>, OsmError>)
        ensures
            match written_element(self@.document, true, true) {
                Some(xml) => bytes is Ok && bytes.unwrap()@ == xml,
                None => bytes == Err::<Vec<u8>, OsmError>(OsmError::IoError),
            },
    {
        written_or_error(write_element(&self.changeset, true, true))
    }

    /// The upload of `body` to `sub_url`, authenticated as this account.
    pub fn put_request(&self, sub_url: &str, body: &str) -> (request: Result<PutRequest, OsmError>)
        ensures
            match api_url(self@.dev_api, sub_url@) {
                Some(text) => {
                    &&& request is Ok
                    &&& url_text(request.unwrap().url) == text
                    &&& request.unwrap().username@ == self@.username
                    &&& request.unwrap().password@ == self@.password
                    &&& request.unwrap().body@ == body@
                },
                None => request == Err::<PutRequest, OsmError>(OsmError::UrlParse),
            },
    {
        let url = create_url(self.dev_api, sub_url)?;
        Ok(
            PutRequest {
                url,
                username: self.username.clone(),
                password: self.password.clone(),
                body: String::from_str(body),
            },
        )
    }

    /// The request that opens a changeset with the given comment. What the
    /// server answers is to be handed to `create_changeset_response`.
    pub fn create_changeset_request(&self, comment: &str) -> (request: Result<PutRequest, OsmError>)
        ensures
            match api_url(self@.dev_api, "changeset/create"@) {
                Some(text) => {
                    &&& request is Ok
                    &&& url_text(request.unwrap().url) == text
                    &&& request.unwrap().username@ == self@.username
                    &&& request.unwrap().password@ == self@.password
                    &&& request.unwrap().body@ == changeset_body(comment@)
                },
                None => request == Err::<PutRequest, OsmError>(OsmError::UrlParse),
            },
    {
        let body = changeset_create_body(comment);
        self.put_request("changeset/create", body.as_str())
    }

    /// Takes note of how the request to open a changeset went. The body of
    /// an answer becomes the changeset ID, unexamined. A failure is handed
    /// back and changes nothing.
    pub fn create_changeset_response<E>(&mut self, response: Result<String, E>) -> (outcome: Result<
        (),
        E,
    >)
        ensures
            final(self)@.username == old(self)@.username,
            final(self)@.password == old(self)@.password,
            final(self)@.dev_api == old(self)@.dev_api,
            final(self)@.document == old(self)@.document,
            final(self)@.changeset_id == id_with(old(self)@.changeset_id, answer(response)),
            match response {
                Ok(_) => outcome is Ok,
                Err(e) => outcome == Err::<(), E>(e) && *final(self) == *old(self),
            },
    {
        match response {
            Ok(body) => {
                self.changeset_id = body;
                Ok(())
            },
            Err(e) => Err(e),
        }
    }
}

} // verus!
