//! The osmChange document: how node edits come to stand in it.
//!
//! An osmChange document groups edits by kind. Each kind has at most one
//! group element, made when the first edit of that kind arrives; later
//! edits of the kind are appended to it. Servers work through a document
//! from top to bottom, so the order of arrival is kept.

use vstd::prelude::*;
use xmltree::Element;
use crate::xml::element_attributes;
use crate::xml::element_children;
use crate::xml::element_name;
use crate::xml::find_child_mut;
use crate::xml::first_child_named;
use crate::xml::is_child_named;
use crate::xml::lemma_first_child_named;
use crate::xml::lemma_first_child_named_agrees;
use crate::xml::lemma_first_child_named_is;
use crate::xml::push_child;
use crate::xml::set_attribute;

verus! {

/// The version of the editing API that documents are written for.
pub const API_VERSION: &'static str = "0.6";

/// The name under which this library signs its documents.
pub const GENERATOR: &'static str = "Rust OSM API";

/// The author that documents are signed with.
pub const AUTHOR: &'static str = "Martin Marmsoler";

/// One edit of a node as it was asked for: the group it belongs to, the
/// node as the caller built it, and the two stamps it is to carry.
pub struct Edit {
    pub group: Seq<char>,
    pub node: Element,
    pub changeset: Seq<char>,
    pub version: Seq<char>,
}

impl Edit {
    /// Whether `member` is this edit's node with the two stamps on it and
    /// nothing else changed.
    pub open spec fn is_borne_by(self, member: Option<Element>) -> bool {
        &&& member is Some
        &&& element_name(member.unwrap()) == element_name(self.node)
        &&& element_children(member.unwrap()) == element_children(self.node)
        &&& element_attributes(member.unwrap()) == element_attributes(self.node).insert(
            "changeset"@,
            self.changeset,
        ).insert("version"@, self.version)
    }

    /// Whether `after` is `before` with this edit added at the end.
    pub open spec fn extends(self, before: Seq<Option<Element>>, after: Seq<Option<Element>>) -> bool {
        &&& after.len() == before.len() + 1
        &&& after.drop_last() == before
        &&& self.is_borne_by(after.last())
    }
}

/// The creation of `node` under the changeset `changeset`: it goes to the
/// group `create`, and a node that is new has version 1.
pub open spec fn creation(node: Element, changeset: Seq<char>) -> Edit {
    Edit { group: "create"@, node: node, changeset: changeset, version: "1"@ }
}

/// The modification of `node`, known to the server at `version`, under the
/// changeset `changeset`: it goes to the group `modify`.
pub open spec fn modification(node: Element, changeset: Seq<char>, version: Seq<char>) -> Edit {
    Edit { group: "modify"@, node: node, changeset: changeset, version: version }
}

/// The edits that a document holds in the group called `group`, in document
/// order; none if it has no such group.
pub open spec fn group_members(doc: Element, group: Seq<char>) -> Seq<Option<Element>> {
    let children = element_children(doc);
    match first_child_named(children, group) {
        Some(i) => element_children(children[i].unwrap()),
        None => Seq::empty(),
    }
}

/// Whether `post` is `pre` after `edit` was recorded: appended to its group
/// if `pre` has that group, and else as the only member of a new group that
/// comes after the groups of `pre`.
pub open spec fn records_edit(pre: Element, post: Element, edit: Edit) -> bool {
    let before = element_children(pre);
    let after = element_children(post);
    &&& element_name(post) == element_name(pre)
    &&& element_attributes(post) == element_attributes(pre)
    &&& match first_child_named(before, edit.group) {
        Some(i) => {
            &&& after.len() == before.len()
            &&& forall|j: int| 0 <= j < before.len() && j != i ==> after[j] == before[j]
            &&& after[i] is Some
            &&& element_name(after[i].unwrap()) == edit.group
            &&& element_attributes(after[i].unwrap()) == element_attributes(before[i].unwrap())
            &&& edit.extends(
                element_children(before[i].unwrap()),
                element_children(after[i].unwrap()),
            )
        },
        None => {
            &&& after.len() == before.len() + 1
            &&& after.drop_last() == before
            &&& after.last() is Some
            &&& element_name(after.last().unwrap()) == edit.group
            &&& element_attributes(after.last().unwrap()) == Map::<Seq<char>, Seq<char>>::empty()
            &&& edit.extends(Seq::empty(), element_children(after.last().unwrap()))
        },
    }
}

/// The attributes of the root of a document that was begun at `date`.
pub open spec fn metadata(date: Seq<char>) -> Map<Seq<char>, Seq<char>> {
    Map::<Seq<char>, Seq<char>>::empty().insert("version"@, API_VERSION@).insert(
        "generator"@,
        GENERATOR@,
    ).insert("date"@, date).insert("author"@, AUTHOR@)
}

/// Whether `doc` is a document begun at `date` in which no edit stands yet.
pub open spec fn is_new_document(doc: Element, date: Seq<char>) -> bool {
    &&& element_name(doc) == "osmChange"@
    &&& element_attributes(doc) == metadata(date)
    &&& element_children(doc) == Seq::<Option<Element>>::empty()
}

/// Whether `child` is a group of edits: an element called `create` or
/// `modify`, without attributes, that holds at least one node and nothing
/// but elements.
pub open spec fn is_group(child: Option<Element>) -> bool {
    &&& child is Some
    &&& (element_name(child.unwrap()) == "create"@ || element_name(child.unwrap()) == "modify"@)
    &&& element_attributes(child.unwrap()) == Map::<Seq<char>, Seq<char>>::empty()
    &&& element_children(child.unwrap()).len() > 0
    &&& forall|k: int|
        0 <= k < element_children(child.unwrap()).len() ==> (#[trigger] element_children(
            child.unwrap(),
        )[k]) is Some
}

/// Whether `doc` is an osmChange document as this library builds them: the
/// root carries the metadata, its children are groups, and no two groups
/// have the same name, so that there is at most one of each kind.
pub open spec fn is_change_document(doc: Element) -> bool {
    let groups = element_children(doc);
    &&& element_name(doc) == "osmChange"@
    &&& element_attributes(doc) == metadata(element_attributes(doc)["date"@])
    &&& forall|i: int| 0 <= i < groups.len() ==> is_group(#[trigger] groups[i])
    &&& forall|i: int, j: int|
        0 <= i < j < groups.len() ==> element_name((#[trigger] groups[i]).unwrap()) != element_name(
            (#[trigger] groups[j]).unwrap(),
        )
}

/// The metadata of a document tells when it was begun.
pub proof fn lemma_metadata_date(date: Seq<char>)
    ensures
        metadata(date)["date"@] == date,
{
    reveal_strlit("date");
    reveal_strlit("author");
    assert("date"@.len() != "author"@.len());
}

/// The root of a document begun at `date`, with no edits in it.
pub(crate) fn new_document(date: &str) -> (doc: Element)
    ensures
        is_new_document(doc, date@),
        is_change_document(doc),
{
    let mut doc = Element::new("osmChange");
    set_attribute(&mut doc, "version", API_VERSION);
    set_attribute(&mut doc, "generator", GENERATOR);
    set_attribute(&mut doc, "date", date);
    set_attribute(&mut doc, "author", AUTHOR);
    proof {
        lemma_metadata_date(date@);
    }
    doc
}

/// Stamps `node` with the changeset and the version and records it in the
/// group called `group`.
pub(crate) fn record_edit(
    doc: &mut Element,
    group: &str,
    node: Element,
    changeset: &str,
    version: &str,
)
    ensures
        records_edit(
            *old(doc),
            *final(doc),
            (Edit { group: group@, node: node, changeset: changeset@, version: version@ }),
        ),
{
    let ghost edit = Edit { group: group@, node: node, changeset: changeset@, version: version@ };
    let mut member = node;
    set_attribute(&mut member, "changeset", changeset);
    set_attribute(&mut member, "version", version);
    assert(edit.is_borne_by(Some(member)));
    proof {
        lemma_first_child_named(element_children(*doc), group@);
    }
    match find_child_mut(doc, group) {
        Some(e) => {
            let ghost members = element_children(*e);
            push_child(e, member);
            assert(element_children(*e).drop_last() == members);
        },
        None => {
            let ghost groups = element_children(*doc);
            let mut e = Element::new(group);
            push_child(&mut e, member);
            assert(element_children(e).drop_last() == Seq::<Option<Element>>::empty());
            push_child(doc, e);
            assert(element_children(*doc).drop_last() == groups);
        },
    }
}

/// A member that bears an edit shows both stamps of the edit, and every
/// other attribute as the node had it.
pub proof fn lemma_member_shows_stamps(edit: Edit, member: Option<Element>)
    requires
        edit.is_borne_by(member),
    ensures
        element_attributes(member.unwrap()).contains_pair("changeset"@, edit.changeset),
        element_attributes(member.unwrap()).contains_pair("version"@, edit.version),
        forall|key: Seq<char>, value: Seq<char>|
            key != "changeset"@ && key != "version"@ ==> (element_attributes(
                member.unwrap(),
            ).contains_pair(key, value) <==> element_attributes(edit.node).contains_pair(
                key,
                value,
            )),
{
    reveal_strlit("changeset");
    reveal_strlit("version");
    assert("changeset"@.len() != "version"@.len());
}

/// An edit that is recorded joins the end of its own group.
pub proof fn lemma_edit_joins_its_group(pre: Element, post: Element, edit: Edit)
    requires
        records_edit(pre, post, edit),
    ensures
        edit.extends(group_members(pre, edit.group), group_members(post, edit.group)),
{
    let before = element_children(pre);
    let after = element_children(post);
    lemma_first_child_named(before, edit.group);
    match first_child_named(before, edit.group) {
        Some(i) => {
            assert forall|j: int| 0 <= j < i implies !is_child_named(after, j, edit.group) by {
                assert(!is_child_named(before, j, edit.group));
            }
            lemma_first_child_named_is(after, edit.group, i);
        },
        None => {
            let n = before.len() as int;
            assert forall|j: int| 0 <= j < n implies !is_child_named(after, j, edit.group) by {
                assert(!is_child_named(before, j, edit.group));
                assert(after.drop_last()[j] == after[j]);
            }
            lemma_first_child_named_is(after, edit.group, n);
        },
    }
}

/// An edit that is recorded leaves every group but its own as it was.
pub proof fn lemma_edit_spares_other_groups(
    pre: Element,
    post: Element,
    edit: Edit,
    other: Seq<char>,
)
    requires
        records_edit(pre, post, edit),
        other != edit.group,
    ensures
        group_members(post, other) == group_members(pre, other),
{
    let before = element_children(pre);
    let after = element_children(post);
    lemma_first_child_named(before, edit.group);
    lemma_first_child_named(before, other);
    lemma_first_child_named(after, other);
    match first_child_named(before, edit.group) {
        Some(i) => {
            assert forall|j: int| is_child_named(after, j, other) == is_child_named(
                before,
                j,
                other,
            ) by {}
            lemma_first_child_named_agrees(after, before, other);
        },
        None => {
            let n = before.len() as int;
            assert forall|j: int| 0 <= j < n implies after[j] == before[j] by {
                assert(after.drop_last()[j] == after[j]);
            }
            match first_child_named(before, other) {
                Some(k) => {
                    assert forall|j: int| 0 <= j < k implies !is_child_named(after, j, other) by {
                        assert(!is_child_named(before, j, other));
                    }
                    lemma_first_child_named_is(after, other, k);
                },
                None => {
                    assert forall|j: int| !is_child_named(after, j, other) by {
                        if 0 <= j < n {
                            assert(!is_child_named(before, j, other));
                        }
                    }
                },
            }
        },
    }
}

/// A document stays a document when an edit is recorded in one of the two
/// groups.
pub proof fn lemma_edit_keeps_document(pre: Element, post: Element, edit: Edit)
    requires
        is_change_document(pre),
        records_edit(pre, post, edit),
        edit.group == "create"@ || edit.group == "modify"@,
    ensures
        is_change_document(post),
{
    let before = element_children(pre);
    let after = element_children(post);
    lemma_first_child_named(before, edit.group);
    match first_child_named(before, edit.group) {
        Some(i) => {
            let old_members = element_children(before[i].unwrap());
            let members = element_children(after[i].unwrap());
            assert(is_group(before[i]));
            assert forall|k: int| 0 <= k < members.len() implies (#[trigger] members[k]) is Some by {
                if k < members.len() - 1 {
                    assert(members.drop_last()[k] == members[k]);
                    assert(old_members[k] is Some);
                }
            }
            assert(is_group(after[i]));
            assert forall|j: int| 0 <= j < after.len() implies is_group(#[trigger] after[j]) by {
                if j != i {
                    assert(is_group(before[j]));
                }
            }
            assert forall|a: int, b: int| 0 <= a < b < after.len() implies element_name(
                (#[trigger] after[a]).unwrap(),
            ) != element_name((#[trigger] after[b]).unwrap()) by {
                assert(element_name(after[a].unwrap()) == element_name(before[a].unwrap()));
                assert(element_name(after[b].unwrap()) == element_name(before[b].unwrap()));
            }
        },
        None => {
            let n = before.len() as int;
            let members = element_children(after.last().unwrap());
            assert forall|j: int| 0 <= j < n implies after[j] == before[j] by {
                assert(after.drop_last()[j] == after[j]);
            }
            assert(members[0] == members.last());
            assert(is_group(after[n]));
            assert forall|j: int| 0 <= j < after.len() implies is_group(#[trigger] after[j]) by {
                if j < n {
                    assert(is_group(before[j]));
                }
            }
            assert forall|a: int, b: int| 0 <= a < b < after.len() implies element_name(
                (#[trigger] after[a]).unwrap(),
            ) != element_name((#[trigger] after[b]).unwrap()) by {
                assert(is_group(before[a]));
                if b == n {
                    assert(!is_child_named(before, a, edit.group));
                } else {
                    assert(is_group(before[b]));
                }
            }
        },
    }
}

/// A document has at most one group of each kind: no two of its children
/// have the same name, and there are no more than two of them.
pub proof fn lemma_one_group_of_each_kind(doc: Element)
    requires
        is_change_document(doc),
    ensures
        element_children(doc).len() <= 2,
        forall|name: Seq<char>, i: int, j: int|
            is_child_named(element_children(doc), i, name) && is_child_named(
                element_children(doc),
                j,
                name,
            ) ==> i == j,
{
    let groups = element_children(doc);
    if groups.len() > 2 {
        assert(is_group(groups[0]));
        assert(is_group(groups[1]));
        assert(is_group(groups[2]));
        assert(element_name(groups[0].unwrap()) != element_name(groups[1].unwrap()));
        assert(element_name(groups[0].unwrap()) != element_name(groups[2].unwrap()));
        assert(element_name(groups[1].unwrap()) != element_name(groups[2].unwrap()));
    }
    assert forall|name: Seq<char>, i: int, j: int|
        is_child_named(groups, i, name) && is_child_named(groups, j, name) implies i == j by {
        if i < j {
            assert(element_name(groups[i].unwrap()) != element_name(groups[j].unwrap()));
        } else if j < i {
            assert(element_name(groups[j].unwrap()) != element_name(groups[i].unwrap()));
        }
    }
}

/// The edits among `edits` that belong to `group`, in their order.
pub open spec fn edits_of(edits: Seq<Edit>, group: Seq<char>) -> Seq<Edit> {
    edits.filter(|e: Edit| e.group == group)
}

/// Whether `after` is `before` followed by one member for each of `edits`,
/// in the order of `edits`.
pub open spec fn follows_with(
    before: Seq<Option<Element>>,
    after: Seq<Option<Element>>,
    edits: Seq<Edit>,
) -> bool {
    &&& after.len() == before.len() + edits.len()
    &&& after.subrange(0, before.len() as int) == before
    &&& forall|k: int|
        0 <= k < edits.len() ==> (#[trigger] edits[k]).is_borne_by(after[before.len() + k])
}

/// Whether `docs` are the states that a document goes through while
/// `edits` are recorded one after the other.
pub open spec fn is_history(docs: Seq<Element>, edits: Seq<Edit>) -> bool {
    &&& docs.len() == edits.len() + 1
    &&& forall|k: int|
        0 <= k < edits.len() ==> records_edit(docs[k], docs[k + 1], #[trigger] edits[k])
}

/// Edits of different groups do not get in each other's way. However
/// creations and modifications are mixed, a group ends up with what it held
/// before, followed by the edits that were meant for it and by no others,
/// in the order in which they were recorded.
pub proof fn lemma_groups_keep_call_order(docs: Seq<Element>, edits: Seq<Edit>, group: Seq<char>)
    requires
        is_history(docs, edits),
    ensures
        follows_with(
            group_members(docs.first(), group),
            group_members(docs.last(), group),
            edits_of(edits, group),
        ),
    decreases edits.len(),
{
    reveal(Seq::filter);
    let start = group_members(docs.first(), group);
    if edits.len() == 0 {
        assert(start.subrange(0, start.len() as int) == start);
    } else {
        let n = edits.len() as int;
        let edit = edits.last();
        let earlier = edits.drop_last();
        let pre = docs[n - 1];
        let post = docs[n];
        assert forall|k: int| 0 <= k < earlier.len() implies records_edit(
            docs.drop_last()[k],
            docs.drop_last()[k + 1],
            #[trigger] earlier[k],
        ) by {
            assert(records_edit(docs[k], docs[k + 1], edits[k]));
        }
        lemma_groups_keep_call_order(docs.drop_last(), earlier, group);
        let middle = group_members(pre, group);
        let end = group_members(post, group);
        let own = edits_of(earlier, group);
        assert(records_edit(pre, post, edits[n - 1]));
        if edit.group == group {
            lemma_edit_joins_its_group(pre, post, edit);
            assert(edits_of(edits, group) == own.push(edit));
            assert(end.subrange(0, start.len() as int) == start) by {
                assert forall|k: int| 0 <= k < start.len() implies end[k] == start[k] by {
                    assert(end.drop_last()[k] == end[k]);
                    assert(middle.subrange(0, start.len() as int)[k] == middle[k]);
                }
            }
            assert forall|k: int| 0 <= k < own.len() + 1 implies (#[trigger] own.push(
                edit,
            )[k]).is_borne_by(end[start.len() + k]) by {
                if k < own.len() {
                    assert(own[k].is_borne_by(middle[start.len() + k]));
                    assert(end.drop_last()[start.len() + k] == end[start.len() + k]);
                }
            }
        } else {
            lemma_edit_spares_other_groups(pre, post, edit, group);
            assert(edits_of(edits, group) == own);
        }
    }
}

/// However many creations and modifications are recorded in a document, it
/// stays a document, with at most one group of each kind.
pub proof fn lemma_history_keeps_document(docs: Seq<Element>, edits: Seq<Edit>)
    requires
        is_history(docs, edits),
        is_change_document(docs.first()),
        forall|k: int|
            0 <= k < edits.len() ==> (#[trigger] edits[k]).group == "create"@ || edits[k].group
                == "modify"@,
    ensures
        is_change_document(docs.last()),
    decreases edits.len(),
{
    if edits.len() > 0 {
        let n = edits.len() as int;
        let earlier = edits.drop_last();
        assert forall|k: int| 0 <= k < earlier.len() implies records_edit(
            docs.drop_last()[k],
            docs.drop_last()[k + 1],
            #[trigger] earlier[k],
        ) by {
            assert(records_edit(docs[k], docs[k + 1], edits[k]));
        }
        assert forall|k: int| 0 <= k < earlier.len() implies (#[trigger] earlier[k]).group
            == "create"@ || earlier[k].group == "modify"@ by {
            assert(earlier[k] == edits[k]);
        }
        lemma_history_keeps_document(docs.drop_last(), earlier);
        assert(records_edit(docs[n - 1], docs[n], edits[n - 1]));
        lemma_edit_keeps_document(docs[n - 1], docs[n], edits[n - 1]);
    }
}

/// A filter that every item passes leaves the sequence as it is.
proof fn lemma_filter_keeps_all(edits: Seq<Edit>, pred: spec_fn(Edit) -> bool)
    requires
        forall|k: int| 0 <= k < edits.len() ==> pred(#[trigger] edits[k]),
    ensures
        edits.filter(pred) == edits,
    decreases edits.len(),
{
    reveal(Seq::filter);
    if edits.len() > 0 {
        lemma_filter_keeps_all(edits.drop_last(), pred);
        assert(edits.drop_last().push(edits.last()) == edits);
    }
}

/// Creations come to stand in the order of the calls. When nothing but
/// nodes are created in a document whose `create` group is empty, the group
/// ends up with exactly one member for each call, in call order, each with
/// version 1 and with the changeset ID that was current at its call.
pub proof fn lemma_creations_in_call_order(
    docs: Seq<Element>,
    nodes: Seq<Element>,
    ids: Seq<Seq<char>>,
)
    requires
        docs.len() == nodes.len() + 1,
        ids.len() == nodes.len(),
        group_members(docs.first(), "create"@).len() == 0,
        forall|k: int|
            0 <= k < nodes.len() ==> records_edit(
                docs[k],
                docs[k + 1],
                #[trigger] creation(nodes[k], ids[k]),
            ),
    ensures
        group_members(docs.last(), "create"@).len() == nodes.len(),
        forall|k: int|
            0 <= k < nodes.len() ==> (#[trigger] creation(nodes[k], ids[k])).is_borne_by(
                group_members(docs.last(), "create"@)[k],
            ),
        forall|k: int|
            0 <= k < nodes.len() ==> {
                let member = (#[trigger] group_members(docs.last(), "create"@)[k]).unwrap();
                &&& element_attributes(member).contains_pair("version"@, "1"@)
                &&& element_attributes(member).contains_pair("changeset"@, ids[k])
            },
{
    let edits = Seq::new(nodes.len(), |k: int| creation(nodes[k], ids[k]));
    assert forall|k: int| 0 <= k < edits.len() implies records_edit(
        docs[k],
        docs[k + 1],
        #[trigger] edits[k],
    ) by {
        assert(records_edit(docs[k], docs[k + 1], creation(nodes[k], ids[k])));
    }
    lemma_groups_keep_call_order(docs, edits, "create"@);
    lemma_filter_keeps_all(edits, |e: Edit| e.group == "create"@);
    let end = group_members(docs.last(), "create"@);
    assert forall|k: int| 0 <= k < nodes.len() implies (#[trigger] creation(
        nodes[k],
        ids[k],
    )).is_borne_by(end[k]) by {
        assert(edits[k].is_borne_by(end[0 + k]));
    }
    assert forall|k: int| 0 <= k < nodes.len() implies {
        let member = (#[trigger] end[k]).unwrap();
        &&& element_attributes(member).contains_pair("version"@, "1"@)
        &&& element_attributes(member).contains_pair("changeset"@, ids[k])
    } by {
        assert(creation(nodes[k], ids[k]).is_borne_by(end[k]));
        lemma_member_shows_stamps(creation(nodes[k], ids[k]), end[k]);
    }
}

} // verus!
