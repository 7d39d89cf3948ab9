//! The XML tree that documents are built from, as the verifier sees it.
//!
//! The tree itself is `xmltree::Element`. Its fields are out of the
//! verifier's sight, so this module names what an element holds and gives a
//! contract to each operation that the library performs on one. Those
//! contracts are taken on trust; everything else in the crate is proved from
//! them.

use vstd::prelude::*;
use xmltree::Element;
use xmltree::EmitterConfig;
use xmltree::ParseError;
use xmltree::XMLNode;

verus! {

/// `xmltree::Element`, an XML element with all that stands below it.
#[verifier::external_type_specification]
#[verifier::external_body]
pub struct ExElement(xmltree::Element);

/// `xmltree::ParseError`, the reason why a text is no XML document.
#[verifier::external_type_specification]
#[verifier::external_body]
pub struct ExParseError(xmltree::ParseError);

/// `xmltree::Error`, the reason why an element could not be written out.
#[verifier::external_type_specification]
#[verifier::external_body]
pub struct ExEmitError(xmltree::Error);

/// The tag name of an element, without prefix or namespace.
pub uninterp spec fn element_name(e: Element) -> Seq<char>;

/// The attributes of an element, each name with its value. The element
/// keeps them sorted by name.
pub uninterp spec fn element_attributes(e: Element) -> Map<Seq<char>, Seq<char>>;

/// The child nodes of an element in document order: a child element as
/// `Some`, a node of any other kind (text, comment, ...) as `None`.
pub uninterp spec fn element_children(e: Element) -> Seq<Option<Element>>;

/// The element that a text parses to, if it is well-formed XML.
pub uninterp spec fn parsed_element(text: Seq<char>) -> Option<Element>;

/// The bytes that an element is written out as, as the root of a document
/// of its own, with the emitter's settings for indentation and escaping as
/// given; none if the emitter refuses.
pub uninterp spec fn written_element(e: Element, indent: bool, escape: bool) -> Option<Seq<u8>>;

/// Whether the node at `i` is a child element called `name`.
pub open spec fn is_child_named(children: Seq<Option<Element>>, i: int, name: Seq<char>) -> bool {
    &&& 0 <= i < children.len()
    &&& children[i] is Some
    &&& element_name(children[i].unwrap()) == name
}

/// The position of the first child element called `name`.
pub open spec fn first_child_named(children: Seq<Option<Element>>, name: Seq<char>) -> Option<int>
    decreases children.len(),
{
    if children.len() == 0 {
        None
    } else if is_child_named(children, 0, name) {
        Some(0)
    } else {
        match first_child_named(children.drop_first(), name) {
            Some(i) => Some(i + 1),
            None => None,
        }
    }
}

/// Where `first_child_named` points, there is a child element of that
/// name and none before it; where it points nowhere, there is none at all.
pub proof fn lemma_first_child_named(children: Seq<Option<Element>>, name: Seq<char>)
    ensures
        match first_child_named(children, name) {
            Some(i) => {
                &&& is_child_named(children, i, name)
                &&& forall|j: int| 0 <= j < i ==> !is_child_named(children, j, name)
            },
            None => forall|j: int| !is_child_named(children, j, name),
        },
    decreases children.len(),
{
    if children.len() > 0 && !is_child_named(children, 0, name) {
        let rest = children.drop_first();
        lemma_first_child_named(rest, name);
        assert forall|j: int| 1 <= j < children.len() implies is_child_named(children, j, name)
            == is_child_named(rest, j - 1, name) by {
            assert(rest[j - 1] == children[j]);
        }
        match first_child_named(rest, name) {
            Some(i) => {
                assert forall|j: int| 0 <= j < i + 1 implies !is_child_named(children, j, name) by {
                    if j >= 1 {
                        assert(!is_child_named(rest, j - 1, name));
                    }
                }
            },
            None => {
                assert forall|j: int| !is_child_named(children, j, name) by {
                    if 1 <= j < children.len() {
                        assert(!is_child_named(rest, j - 1, name));
                    }
                }
            },
        }
    }
}

/// A child element called `name` with none of that name before it is the
/// first of that name.
pub proof fn lemma_first_child_named_is(children: Seq<Option<Element>>, name: Seq<char>, i: int)
    requires
        is_child_named(children, i, name),
        forall|j: int| 0 <= j < i ==> !is_child_named(children, j, name),
    ensures
        first_child_named(children, name) == Some(i),
{
    lemma_first_child_named(children, name);
}

/// Two lists of children that have elements of a given name at the same
/// places have their first such element at the same place.
pub proof fn lemma_first_child_named_agrees(
    a: Seq<Option<Element>>,
    b: Seq<Option<Element>>,
    name: Seq<char>,
)
    requires
        forall|j: int| is_child_named(a, j, name) == is_child_named(b, j, name),
    ensures
        first_child_named(a, name) == first_child_named(b, name),
{
    lemma_first_child_named(a, name);
    lemma_first_child_named(b, name);
}

/// `Element::new`: an element with the given name and nothing else.
pub assume_specification[ Element::new ](name: &str) -> (e: Element)
    ensures
        element_name(e) == name@,
        element_attributes(e) == (Map::<Seq<char>, Seq<char>>::empty()),
        element_children(e) == Seq::<Option<Element>>::empty(),
;

/// `insert` on the element's attribute map: the attribute `key` has the
/// value `value` afterwards, whether or not it was there before. Name,
/// other attributes and children stay.
#[verifier::external_body]
pub(crate) fn set_attribute(e: &mut Element, key: &str, value: &str)
    ensures
        element_name(*final(e)) == element_name(*old(e)),
        element_attributes(*final(e)) == element_attributes(*old(e)).insert(key@, value@),
        element_children(*final(e)) == element_children(*old(e)),
{
    e.attributes.insert(key.to_string(), value.to_string());
}

/// `push` on the element's list of children, with the child wrapped as
/// `XMLNode::Element`: the child becomes the last node. Name, attributes and
/// earlier children stay.
#[verifier::external_body]
pub(crate) fn push_child(parent: &mut Element, child: Element)
    ensures
        element_name(*final(parent)) == element_name(*old(parent)),
        element_attributes(*final(parent)) == element_attributes(*old(parent)),
        element_children(*final(parent)) == element_children(*old(parent)).push(Some(child)),
{
    parent.children.push(XMLNode::Element(child));
}

/// `Element::get_mut_child` with a name: the first child element that has
/// this name, borrowed from its parent. Without such a child the parent is
/// left as it was. With one, the parent ends up with whatever the borrower
/// makes of that child in that child's place, and is otherwise unchanged.
#[verifier::external_body]
pub(crate) fn find_child_mut<'a>(parent: &'a mut Element, name: &str) -> (found: Option<
    &'a mut Element,
>)
    ensures
        match first_child_named(element_children(*old(parent)), name@) {
            None => found is None && *final(parent) == *old(parent),
            Some(i) => {
                &&& found is Some
                &&& element_children(*old(parent))[i] == Some(*found.unwrap())
                &&& element_name(*final(parent)) == element_name(*old(parent))
                &&& element_attributes(*final(parent)) == element_attributes(*old(parent))
                &&& element_children(*final(parent)) == element_children(*old(parent)).update(
                    i,
                    Some(*final(found.unwrap())),
                )
            },
        },
{
    parent.get_mut_child(name)
}

/// `Element::parse` on the bytes of a text: the root element of the
/// document, or an error for a text that is not well-formed XML. The outcome
/// depends on the text alone.
#[verifier::external_body]
pub(crate) fn parse_element(text: &str) -> (parsed: Result<Element, ParseError>)
    ensures
        match parsed {
            Ok(e) => parsed_element(text@) == Some(e),
            Err(_) => parsed_element(text@) is None,
        },
{
    Element::parse(text.as_bytes())
}

/// `Element::write_with_config` into a fresh buffer, with the emitter's
/// settings for indentation and escaping as given and its other settings
/// as they are by default. The attributes of an element are kept sorted by
/// name and are written in that order, so the outcome depends on the
/// element and the two settings alone.
#[verifier::external_body]
pub(crate) fn write_element(e: &Element, indent: bool, escape: bool) -> (written: Result<
    Vec<u8>,
    xmltree::Error,
>)
    ensures
        match written {
            Ok(bytes) => written_element(*e, indent, escape) == Some(bytes@),
            Err(_) => written_element(*e, indent, escape) is None,
        },
{
    let mut config = EmitterConfig::new();
    config.perform_indent = indent;
    config.perform_escaping = escape;
    let mut buffer: Vec<u8> = Vec::new();
    e.write_with_config(&mut buffer, config).map(|_| buffer)
}

} // verus!
