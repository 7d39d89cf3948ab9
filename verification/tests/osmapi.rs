use osm_client::error::OsmError;
use osm_client::osmapi::changeset_create_body;
use osm_client::osmapi::check_status;
use osm_client::osmapi::create_url;
use osm_client::osmapi::get_tag;
use osm_client::osmapi::parse_response;
use osm_client::osmapi::read_response;
use osm_client::osmapi::url_or_error;
use osm_client::osmapi::written_or_error;
use osm_client::osmapi::xml_or_error;
use osm_client::osmapi::OsmAccount;
use url::Url;
use xmltree::Element;
use xmltree::XMLNode;

fn session(dev: bool) -> OsmAccount {
    OsmAccount::new_with_date(
        String::from("Username"),
        String::from("Password"),
        dev,
        "2024-05-01T12:00:00+00:00",
    )
}

fn open_session(id: &str) -> OsmAccount {
    let mut account = session(true);
    let answer: Result<String, OsmError> = Ok(String::from(id));
    assert_eq!(account.create_changeset_response(answer), Ok(()));
    account
}

fn node(id: &str, lat: &str, lon: &str) -> Element {
    let mut node = Element::new("node");
    node.attributes.insert(String::from("id"), String::from(id));
    node.attributes.insert(String::from("lat"), String::from(lat));
    node.attributes.insert(String::from("lon"), String::from(lon));
    node
}

fn tagged_node(id: &str, key: &str, value: &str) -> Element {
    let mut tag = Element::new("tag");
    tag.attributes.insert(String::from("k"), String::from(key));
    tag.attributes.insert(String::from("v"), String::from(value));
    let mut node = node(id, "47.1", "9.5");
    node.children.push(XMLNode::Element(tag));
    node
}

fn elements(parent: &Element) -> Vec<&Element> {
    let mut found = Vec::new();
    for child in &parent.children {
        match child {
            XMLNode::Element(e) => found.push(e),
            other => panic!("unexpected node {:?}", other),
        }
    }
    found
}

fn attribute<'a>(e: &'a Element, key: &str) -> &'a str {
    match e.attributes.get(key) {
        Some(value) => value.as_str(),
        None => panic!("no attribute {}", key),
    }
}

#[test]
fn account() {
    let dev = true;
    let account = OsmAccount::new(String::from("Username"), String::from("Password"), dev);
    assert!(account.username() == "Username");
    assert!(account.password() == "Password");
    assert!(account.dev_api());
    assert_eq!(attribute(account.changeset(), "date").is_empty(), false);

    let dev = false;
    let account = OsmAccount::new(String::from("Username"), String::from("Password"), dev);
    assert!(account.username() == "Username");
    assert!(account.password() == "Password");
    assert!(!account.dev_api());
}

#[test]
#[allow(non_snake_case)]
fn getNode() {
    let node_id = "885094266";
    let url = create_url(false, &(String::from("node/") + node_id)).unwrap();
    assert_eq!(url.as_str(), "https://api.openstreetmap.org/api/0.6/node/885094266");

    let body = "<?xml version=\"1.0\" encoding=\"UTF-8\"?>\n<osm version=\"0.6\">\n <node id=\"885094266\" lat=\"47.1\" lon=\"9.5\" version=\"3\"/>\n</osm>";
    let osm = read_response(200, body).unwrap();
    assert_eq!(osm.name, "osm");
    let nodes = elements(&osm);
    assert_eq!(nodes.len(), 1);
    assert_eq!(nodes[0].name, "node");
    assert_eq!(attribute(nodes[0], "id"), node_id);
}

#[test]
fn new_session_has_dated_empty_document() {
    let account = session(true);
    let doc = account.changeset();
    assert_eq!(doc.name, "osmChange");
    assert_eq!(doc.attributes.len(), 4);
    assert_eq!(attribute(doc, "version"), "0.6");
    assert_eq!(attribute(doc, "generator"), "Rust OSM API");
    assert_eq!(attribute(doc, "date"), "2024-05-01T12:00:00+00:00");
    assert_eq!(attribute(doc, "author"), "Martin Marmsoler");
    assert!(doc.children.is_empty());
    assert_eq!(doc.prefix, None);
    assert_eq!(doc.namespace, None);
}

#[test]
fn new_session_is_dated_in_rfc3339() {
    let account = OsmAccount::new(String::from("u"), String::from("p"), false);
    let doc = account.changeset();
    assert_eq!(doc.name, "osmChange");
    assert_eq!(doc.attributes.len(), 4);
    assert_eq!(attribute(doc, "version"), "0.6");
    let date = attribute(doc, "date");
    let bytes = date.as_bytes();
    assert!(bytes.len() >= 25);
    assert_eq!(bytes[4], b'-');
    assert_eq!(bytes[7], b'-');
    assert_eq!(bytes[10], b'T');
    assert_eq!(bytes[13], b':');
    assert_eq!(bytes[16], b':');
    assert!(date.ends_with("+00:00"));
    assert!(doc.children.is_empty());
}

#[test]
fn changeset_id_is_missing_at_first() {
    let mut account = session(true);
    assert_eq!(account.changeset_id(), Err(OsmError::ChangesetIdNotSet));
}

#[test]
fn changeset_id_is_the_answer_of_the_server() {
    let mut account = session(true);
    let answer: Result<String, OsmError> = Ok(String::from("4711"));
    assert_eq!(account.create_changeset_response(answer), Ok(()));
    assert_eq!(account.changeset_id(), Ok(&String::from("4711")));
    assert_eq!(account.changeset_id(), Ok(&String::from("4711")));
}

#[test]
fn changeset_id_is_taken_unexamined() {
    let mut account = session(false);
    let answer: Result<String, OsmError> = Ok(String::from("<html>no number</html>\n"));
    assert_eq!(account.create_changeset_response(answer), Ok(()));
    assert_eq!(account.changeset_id(), Ok(&String::from("<html>no number</html>\n")));
}

#[test]
fn failed_request_leaves_the_session_alone() {
    let mut account = session(true);
    let failure: Result<String, OsmError> = Err(OsmError::Transport);
    assert_eq!(account.create_changeset_response(failure), Err(OsmError::Transport));
    assert_eq!(account.changeset_id(), Err(OsmError::ChangesetIdNotSet));

    let mut account = open_session("12");
    let before = account.changeset().clone();
    let failure: Result<String, String> = Err(String::from("connection reset"));
    assert_eq!(account.create_changeset_response(failure), Err(String::from("connection reset")));
    assert_eq!(account.changeset_id(), Ok(&String::from("12")));
    assert_eq!(account.changeset(), &before);
    assert_eq!(account.username(), "Username");
    assert_eq!(account.password(), "Password");
    assert!(account.dev_api());
}

#[test]
fn later_answer_replaces_the_id() {
    let mut account = open_session("1");
    let answer: Result<String, OsmError> = Ok(String::from("2"));
    assert_eq!(account.create_changeset_response(answer), Ok(()));
    assert_eq!(account.changeset_id(), Ok(&String::from("2")));
}

#[test]
fn empty_answer_leaves_the_id_missing() {
    let mut account = session(true);
    let answer: Result<String, OsmError> = Ok(String::new());
    assert_eq!(account.create_changeset_response(answer), Ok(()));
    assert_eq!(account.changeset_id(), Err(OsmError::ChangesetIdNotSet));
}

#[test]
fn opening_a_changeset_keeps_the_document() {
    let mut account = session(true);
    account.add_create_node_changeset(node("-1", "1", "2"));
    let before = account.changeset().clone();
    let answer: Result<String, OsmError> = Ok(String::from("9"));
    assert_eq!(account.create_changeset_response(answer), Ok(()));
    assert_eq!(account.changeset(), &before);
}

#[test]
fn created_nodes_stand_in_call_order() {
    let mut account = open_session("555");
    account.add_create_node_changeset(node("-1", "47.0", "9.0"));
    account.add_create_node_changeset(tagged_node("-2", "sport", "free_flying"));
    account.add_create_node_changeset(node("-3", "47.2", "9.2"));

    let groups = elements(account.changeset());
    assert_eq!(groups.len(), 1);
    let create = groups[0];
    assert_eq!(create.name, "create");
    assert!(create.attributes.is_empty());
    let members = elements(create);
    assert_eq!(members.len(), 3);
    assert_eq!(attribute(members[0], "id"), "-1");
    assert_eq!(attribute(members[1], "id"), "-2");
    assert_eq!(attribute(members[2], "id"), "-3");
    for member in &members {
        assert_eq!(member.name, "node");
        assert_eq!(attribute(member, "version"), "1");
        assert_eq!(attribute(member, "changeset"), "555");
        assert_eq!(member.attributes.len(), 5);
    }
    assert_eq!(attribute(members[0], "lat"), "47.0");
    assert_eq!(attribute(members[0], "lon"), "9.0");
    assert!(members[0].children.is_empty());
    let tags = elements(members[1]);
    assert_eq!(tags.len(), 1);
    assert_eq!(tags[0].name, "tag");
    assert_eq!(attribute(tags[0], "k"), "sport");
    assert_eq!(attribute(tags[0], "v"), "free_flying");
}

#[test]
fn created_node_carries_the_id_of_its_time() {
    let mut account = session(true);
    account.add_create_node_changeset(node("-1", "1", "1"));
    let answer: Result<String, OsmError> = Ok(String::from("10"));
    assert_eq!(account.create_changeset_response(answer), Ok(()));
    account.add_create_node_changeset(node("-2", "2", "2"));
    let answer: Result<String, OsmError> = Ok(String::from("11"));
    assert_eq!(account.create_changeset_response(answer), Ok(()));
    account.add_create_node_changeset(node("-3", "3", "3"));

    let groups = elements(account.changeset());
    assert_eq!(groups.len(), 1);
    let members = elements(groups[0]);
    assert_eq!(members.len(), 3);
    assert_eq!(attribute(members[0], "changeset"), "");
    assert_eq!(attribute(members[1], "changeset"), "10");
    assert_eq!(attribute(members[2], "changeset"), "11");
}

#[test]
fn modified_node_carries_the_given_version() {
    let mut account = open_session("77");
    account.add_modify_node_changeset(node("885094266", "47.1", "9.5"), "3");
    let groups = elements(account.changeset());
    assert_eq!(groups.len(), 1);
    assert_eq!(groups[0].name, "modify");
    assert!(groups[0].attributes.is_empty());
    let members = elements(groups[0]);
    assert_eq!(members.len(), 1);
    assert_eq!(members[0].name, "node");
    assert_eq!(attribute(members[0], "id"), "885094266");
    assert_eq!(attribute(members[0], "version"), "3");
    assert_eq!(attribute(members[0], "changeset"), "77");
    assert_eq!(members[0].attributes.len(), 5);
}

#[test]
fn stamps_replace_what_the_node_brought() {
    let mut stale = node("5", "1", "1");
    stale.attributes.insert(String::from("version"), String::from("2"));
    stale.attributes.insert(String::from("changeset"), String::from("1"));
    let mut account = open_session("8");
    account.add_modify_node_changeset(stale.clone(), "4");
    account.add_create_node_changeset(stale);
    let groups = elements(account.changeset());
    let modified = elements(groups[0]);
    assert_eq!(attribute(modified[0], "version"), "4");
    assert_eq!(attribute(modified[0], "changeset"), "8");
    assert_eq!(modified[0].attributes.len(), 5);
    let created = elements(groups[1]);
    assert_eq!(attribute(created[0], "version"), "1");
    assert_eq!(attribute(created[0], "changeset"), "8");
    assert_eq!(created[0].attributes.len(), 5);
}

#[test]
fn version_is_not_checked() {
    let mut account = open_session("8");
    account.add_modify_node_changeset(node("5", "1", "1"), "not a number");
    account.add_modify_node_changeset(node("6", "1", "1"), "");
    let modified = elements(elements(account.changeset())[0]);
    assert_eq!(attribute(modified[0], "version"), "not a number");
    assert_eq!(attribute(modified[1], "version"), "");
}

#[test]
fn node_content_is_not_checked() {
    let mut odd = Element::new("way");
    odd.children.push(XMLNode::Text(String::from("free text")));
    odd.children.push(XMLNode::Comment(String::from("a comment")));
    let mut account = open_session("8");
    account.add_create_node_changeset(odd);
    let created = elements(elements(account.changeset())[0]);
    assert_eq!(created.len(), 1);
    assert_eq!(created[0].name, "way");
    assert_eq!(created[0].children.len(), 2);
    assert_eq!(created[0].children[0], XMLNode::Text(String::from("free text")));
    assert_eq!(created[0].children[1], XMLNode::Comment(String::from("a comment")));
    assert_eq!(attribute(created[0], "version"), "1");
    assert_eq!(attribute(created[0], "changeset"), "8");
}

#[test]
fn groups_stay_apart_and_keep_their_order() {
    let mut account = open_session("42");
    account.add_create_node_changeset(node("-1", "1", "1"));
    account.add_modify_node_changeset(node("100", "2", "2"), "7");
    account.add_create_node_changeset(node("-2", "3", "3"));
    account.add_modify_node_changeset(node("200", "4", "4"), "2");
    account.add_modify_node_changeset(node("300", "5", "5"), "9");
    account.add_create_node_changeset(node("-3", "6", "6"));

    let groups = elements(account.changeset());
    assert_eq!(groups.len(), 2);
    assert_eq!(groups[0].name, "create");
    assert_eq!(groups[1].name, "modify");

    let created = elements(groups[0]);
    assert_eq!(created.len(), 3);
    assert_eq!(attribute(created[0], "id"), "-1");
    assert_eq!(attribute(created[1], "id"), "-2");
    assert_eq!(attribute(created[2], "id"), "-3");
    for member in &created {
        assert_eq!(attribute(member, "version"), "1");
        assert_eq!(attribute(member, "changeset"), "42");
    }

    let modified = elements(groups[1]);
    assert_eq!(modified.len(), 3);
    assert_eq!(attribute(modified[0], "id"), "100");
    assert_eq!(attribute(modified[0], "version"), "7");
    assert_eq!(attribute(modified[1], "id"), "200");
    assert_eq!(attribute(modified[1], "version"), "2");
    assert_eq!(attribute(modified[2], "id"), "300");
    assert_eq!(attribute(modified[2], "version"), "9");
    for member in &modified {
        assert_eq!(attribute(member, "changeset"), "42");
    }
}

#[test]
fn group_that_came_first_stays_first() {
    let mut account = open_session("42");
    account.add_modify_node_changeset(node("100", "2", "2"), "7");
    account.add_create_node_changeset(node("-1", "1", "1"));
    account.add_modify_node_changeset(node("200", "4", "4"), "2");
    let groups = elements(account.changeset());
    assert_eq!(groups.len(), 2);
    assert_eq!(groups[0].name, "modify");
    assert_eq!(groups[1].name, "create");
    assert_eq!(elements(groups[0]).len(), 2);
    assert_eq!(elements(groups[1]).len(), 1);
}

#[test]
fn edits_keep_account_and_metadata() {
    let mut account = open_session("42");
    account.add_create_node_changeset(node("-1", "1", "1"));
    account.add_modify_node_changeset(node("100", "2", "2"), "7");
    assert_eq!(account.username(), "Username");
    assert_eq!(account.password(), "Password");
    assert!(account.dev_api());
    assert_eq!(account.changeset_id(), Ok(&String::from("42")));
    let doc = account.changeset();
    assert_eq!(doc.name, "osmChange");
    assert_eq!(doc.attributes.len(), 4);
    assert_eq!(attribute(doc, "version"), "0.6");
    assert_eq!(attribute(doc, "date"), "2024-05-01T12:00:00+00:00");
}

#[test]
fn urls_of_both_servers() {
    let url = create_url(true, "node/123").unwrap();
    assert_eq!(url.as_str(), "https://master.apis.dev.openstreetmap.org/api/0.6/node/123");
    let url = create_url(false, "node/123").unwrap();
    assert_eq!(url.as_str(), "https://api.openstreetmap.org/api/0.6/node/123");
}

#[test]
fn url_of_changeset_creation() {
    let url = create_url(false, "changeset/create").unwrap();
    assert_eq!(url.as_str(), "https://api.openstreetmap.org/api/0.6/changeset/create");
}

#[test]
fn empty_sub_url_is_the_api_directory() {
    let url = create_url(true, "").unwrap();
    assert_eq!(url.as_str(), "https://master.apis.dev.openstreetmap.org/api/0.6/");
}

#[test]
fn leading_slash_resets_the_path() {
    let url = create_url(false, "/node/123").unwrap();
    assert_eq!(url.as_str(), "https://api.openstreetmap.org/node/123");
}

#[test]
fn absolute_sub_url_replaces_the_base() {
    let url = create_url(false, "http://example.org/x").unwrap();
    assert_eq!(url.as_str(), "http://example.org/x");
}

#[test]
fn malformed_sub_url_is_an_error() {
    assert_eq!(create_url(false, "http://[::1").err(), Some(OsmError::UrlParse));
    assert_eq!(create_url(true, "//exa mple.org/").err(), Some(OsmError::UrlParse));
}

#[test]
fn url_outcomes_map_to_the_library_error() {
    let good = Url::parse("https://example.org/a");
    assert_eq!(url_or_error(good).unwrap().as_str(), "https://example.org/a");
    let bad = Url::parse("no scheme");
    assert!(bad.is_err());
    assert_eq!(url_or_error(bad).err(), Some(OsmError::UrlParse));
}

#[test]
fn changeset_body_names_client_and_comment() {
    let expected = "<osm>
                            <changeset>
                                <tag k=\"created_by\" v=\"RUST OSM API\"/>
                                <tag k=\"comment\" v=\"Added paragliding sites\"/>
                            </changeset>
                        </osm>
                        ";
    assert_eq!(changeset_create_body("Added paragliding sites"), expected);
}

#[test]
fn changeset_body_takes_the_comment_as_it_is() {
    let body = changeset_create_body("a \"quoted\" <comment> & more");
    assert!(body.contains("<tag k=\"comment\" v=\"a \"quoted\" <comment> & more\"/>"));
    let empty = changeset_create_body("");
    assert!(empty.contains("<tag k=\"comment\" v=\"\"/>"));
    assert!(empty.starts_with("<osm>\n"));
    assert_eq!(empty.len() + 3, changeset_create_body("abc").len());
}

#[test]
fn changeset_body_is_wellformed_xml() {
    let osm = parse_response(&changeset_create_body("survey")).unwrap();
    assert_eq!(osm.name, "osm");
    let changesets = elements(&osm);
    assert_eq!(changesets.len(), 1);
    assert_eq!(changesets[0].name, "changeset");
    let tags = elements(changesets[0]);
    assert_eq!(tags.len(), 2);
    assert_eq!(attribute(tags[0], "k"), "created_by");
    assert_eq!(attribute(tags[0], "v"), "RUST OSM API");
    assert_eq!(attribute(tags[1], "k"), "comment");
    assert_eq!(attribute(tags[1], "v"), "survey");
}

#[test]
fn put_request_is_addressed_and_authenticated() {
    let account = session(true);
    let request = account.put_request("node/create", "<osm/>").unwrap();
    assert_eq!(
        request.url.as_str(),
        "https://master.apis.dev.openstreetmap.org/api/0.6/node/create"
    );
    assert_eq!(request.username, "Username");
    assert_eq!(request.password, "Password");
    assert_eq!(request.body, "<osm/>");

    let account = session(false);
    let request = account.put_request("node/1", "").unwrap();
    assert_eq!(request.url.as_str(), "https://api.openstreetmap.org/api/0.6/node/1");
    assert_eq!(request.body, "");
}

#[test]
fn put_request_fails_on_a_malformed_sub_url() {
    let account = session(true);
    assert_eq!(account.put_request("http://[::1", "x").err(), Some(OsmError::UrlParse));
}

#[test]
fn request_to_open_a_changeset() {
    let account = session(false);
    let request = account.create_changeset_request("first edit").unwrap();
    assert_eq!(request.url.as_str(), "https://api.openstreetmap.org/api/0.6/changeset/create");
    assert_eq!(request.username, "Username");
    assert_eq!(request.password, "Password");
    assert_eq!(request.body, changeset_create_body("first edit"));
}

#[test]
fn status_other_than_200_is_an_error() {
    assert_eq!(check_status(200), Ok(()));
    assert_eq!(check_status(404), Err(OsmError::HttpStatus(404)));
    assert_eq!(check_status(201), Err(OsmError::HttpStatus(201)));
    assert_eq!(check_status(500), Err(OsmError::HttpStatus(500)));
    assert_eq!(check_status(0), Err(OsmError::HttpStatus(0)));
    assert_eq!(check_status(199), Err(OsmError::HttpStatus(199)));
    assert_eq!(check_status(u16::MAX), Err(OsmError::HttpStatus(u16::MAX)));
}

#[test]
fn response_with_bad_status_is_not_parsed() {
    assert_eq!(read_response(404, "<osm/>").err(), Some(OsmError::HttpStatus(404)));
    assert_eq!(read_response(410, "gone").err(), Some(OsmError::HttpStatus(410)));
    assert_eq!(read_response(204, "").err(), Some(OsmError::HttpStatus(204)));
}

#[test]
fn response_with_status_200_is_parsed() {
    let osm = read_response(200, "<osm version=\"0.6\"><node id=\"1\"/></osm>").unwrap();
    assert_eq!(osm.name, "osm");
    assert_eq!(attribute(&osm, "version"), "0.6");
    assert_eq!(elements(&osm).len(), 1);
    assert_eq!(read_response(200, "not xml").err(), Some(OsmError::XmlParse));
    assert_eq!(read_response(200, "").err(), Some(OsmError::XmlParse));
}

#[test]
fn malformed_response_is_an_error() {
    assert_eq!(parse_response("").err(), Some(OsmError::XmlParse));
    assert_eq!(parse_response("12345").err(), Some(OsmError::XmlParse));
    assert_eq!(parse_response("<a><b></a>").err(), Some(OsmError::XmlParse));
    assert_eq!(parse_response("<a>").err(), Some(OsmError::XmlParse));
    assert_eq!(parse_response("<!-- only a comment -->").err(), Some(OsmError::XmlParse));
}

#[test]
fn wellformed_response_is_its_root_element() {
    let root = parse_response("<a x=\"1\"><b/>text<c y=\"2\"/></a>").unwrap();
    assert_eq!(root.name, "a");
    assert_eq!(attribute(&root, "x"), "1");
    assert_eq!(root.children.len(), 3);
    assert_eq!(root.children[1], XMLNode::Text(String::from("text")));
}

#[test]
fn parse_outcomes_map_to_the_library_error() {
    let good = Element::parse("<a/>".as_bytes());
    assert_eq!(xml_or_error(good).unwrap().name, "a");
    let bad = Element::parse("<a".as_bytes());
    assert!(bad.is_err());
    assert_eq!(xml_or_error(bad).err(), Some(OsmError::XmlParse));
    assert_eq!(xml_or_error(Err(xmltree::ParseError::CannotParse)).err(), Some(OsmError::XmlParse));
}

#[test]
fn write_outcomes_map_to_the_library_error() {
    assert_eq!(written_or_error(Ok(vec![1, 2, 3])), Ok(vec![1, 2, 3]));
    assert_eq!(written_or_error(Ok(Vec::new())), Ok(Vec::new()));
    assert_eq!(
        written_or_error(Err(xmltree::Error::DocumentStartAlreadyEmitted)),
        Err(OsmError::IoError)
    );
    assert_eq!(
        written_or_error(Err(xmltree::Error::LastElementNameNotAvailable)),
        Err(OsmError::IoError)
    );
}

#[test]
fn written_document_reads_back_the_same() {
    let mut account = open_session("31337");
    account.add_create_node_changeset(tagged_node("-1", "name", "A & B <\"C\">"));
    account.add_modify_node_changeset(node("885094266", "47.1", "9.5"), "3");

    let bytes = account.changeset_xml().unwrap();
    let text = String::from_utf8(bytes).unwrap();
    let read = parse_response(&text).unwrap();

    let doc = account.changeset();
    assert_eq!(&read, doc);
    assert_eq!(read.name, "osmChange");
    assert_eq!(read.attributes, doc.attributes);
    let groups = elements(&read);
    assert_eq!(groups.len(), 2);
    assert_eq!(groups[0].name, "create");
    assert_eq!(groups[1].name, "modify");
    let created = elements(groups[0]);
    assert_eq!(created.len(), 1);
    assert_eq!(created[0].name, "node");
    assert_eq!(created[0].attributes.len(), 5);
    assert_eq!(attribute(created[0], "id"), "-1");
    assert_eq!(attribute(created[0], "version"), "1");
    assert_eq!(attribute(created[0], "changeset"), "31337");
    let tags = elements(created[0]);
    assert_eq!(tags.len(), 1);
    assert_eq!(tags[0].name, "tag");
    assert_eq!(attribute(tags[0], "k"), "name");
    assert_eq!(attribute(tags[0], "v"), "A & B <\"C\">");
    let modified = elements(groups[1]);
    assert_eq!(modified.len(), 1);
    assert_eq!(modified[0].name, "node");
    assert_eq!(attribute(modified[0], "id"), "885094266");
    assert_eq!(attribute(modified[0], "version"), "3");
    assert_eq!(attribute(modified[0], "changeset"), "31337");
}

#[test]
fn written_document_is_indented_and_escaped() {
    let mut account = open_session("1");
    account.add_create_node_changeset(tagged_node("-1", "name", "A & B"));
    let text = String::from_utf8(account.changeset_xml().unwrap()).unwrap();
    assert!(text.starts_with("<?xml version=\"1.0\" encoding=\"UTF-8\"?>"));
    assert!(text.contains("\n  <create>\n    <node "));
    assert!(text.contains("\n      <tag "));
    assert!(text.contains("A &amp; B"));
    assert!(!text.contains("A & B"));
    assert!(text.ends_with("</osmChange>"));
}

#[test]
fn writing_does_not_change_the_document() {
    let mut account = open_session("1");
    account.add_modify_node_changeset(node("1", "1", "1"), "2");
    let before = account.changeset().clone();
    let first = account.changeset_xml().unwrap();
    let second = account.changeset_xml().unwrap();
    assert_eq!(account.changeset(), &before);
    assert_eq!(first, second);
}

#[test]
fn written_document_byte_for_byte() {
    let mut account = open_session("1");
    account.add_create_node_changeset(tagged_node("-1", "name", "A & B"));
    account.add_modify_node_changeset(node("7", "1.5", "2.5"), "3");
    let text = String::from_utf8(account.changeset_xml().unwrap()).unwrap();
    let expected = "<?xml version=\"1.0\" encoding=\"UTF-8\"?>
<osmChange author=\"Martin Marmsoler\" date=\"2024-05-01T12:00:00+00:00\" generator=\"Rust OSM API\" version=\"0.6\">
  <create>
    <node changeset=\"1\" id=\"-1\" lat=\"47.1\" lon=\"9.5\" version=\"1\">
      <tag k=\"name\" v=\"A &amp; B\" />
    </node>
  </create>
  <modify>
    <node changeset=\"1\" id=\"7\" lat=\"1.5\" lon=\"2.5\" version=\"3\" />
  </modify>
</osmChange>";
    assert_eq!(text, expected);
}

#[test]
fn written_empty_document_byte_for_byte() {
    let account = session(false);
    let text = String::from_utf8(account.changeset_xml().unwrap()).unwrap();
    let expected = "<?xml version=\"1.0\" encoding=\"UTF-8\"?>
<osmChange author=\"Martin Marmsoler\" date=\"2024-05-01T12:00:00+00:00\" generator=\"Rust OSM API\" version=\"0.6\" />";
    assert_eq!(text, expected);
}

#[test]
fn equal_documents_are_written_alike() {
    let mut forth = open_session("5");
    let mut a = Element::new("node");
    a.attributes.insert(String::from("lon"), String::from("2"));
    a.attributes.insert(String::from("id"), String::from("9"));
    a.attributes.insert(String::from("lat"), String::from("1"));
    forth.add_create_node_changeset(a);
    let mut back = open_session("5");
    back.add_create_node_changeset(node("9", "1", "2"));
    assert_eq!(forth.changeset(), back.changeset());
    assert_eq!(forth.changeset_xml(), back.changeset_xml());
}

#[test]
fn empty_document_can_be_written() {
    let account = session(true);
    let text = String::from_utf8(account.changeset_xml().unwrap()).unwrap();
    let read = parse_response(&text).unwrap();
    assert_eq!(read.name, "osmChange");
    assert!(read.children.is_empty());
    assert_eq!(read.attributes.len(), 4);
}

#[test]
fn get_tag_does_nothing() {
    get_tag(true, "highway");
    get_tag(false, "");
}
