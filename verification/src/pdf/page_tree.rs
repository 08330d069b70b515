//! The page tree of a document, and whether lopdf has room to list its pages.
//!
//! As lopdf renumbers a document it makes room for the pages that the nodes of the
//! page tree claim, whether or not they are there. What it makes room for is added
//! up here beforehand.

use crate::bytes::same_bytes;
use crate::pdf::documents::{
    array_items, as_dictionary, as_integer, as_items, as_reference, dereferenced_entry,
    dictionary_entries, dictionary_of, dictionary_type, document_entries, document_object,
    document_objects, document_root, entries_map, find_entry, find_object, get_entry, integer_value,
    object_count, optional_entry, reference_target, root_id, type_of, ObjectId, MAX_OBJECTS,
};
use crate::pdf::key;
use lopdf::{Dictionary, Document, Object};
use std::collections::HashSet;
use vstd::prelude::*;
use vstd::string::*;

verus! {

broadcast use vstd::std_specs::hash::group_hash_axioms;

/// The most lists of children that lopdf has open at once as it walks a page tree.
pub const MAX_OPEN_LISTS: usize = 257;

/// The dictionary under an id.
pub open spec fn node_dictionary(document: Document, id: ObjectId) -> Option<Dictionary> {
    match document_object(document, id) {
        Ok(object) => match dictionary_of(object) {
            Ok(dictionary) => Some(dictionary),
            Err(_) => None,
        },
        Err(_) => None,
    }
}

/// The dictionary under an id, where it is that of a page tree node.
pub open spec fn pages_dictionary(document: Document, id: ObjectId) -> Option<Dictionary> {
    match node_dictionary(document, id) {
        Some(dictionary) => if dictionary_type(dictionary) == Some(key("Pages"@)) {
            Some(dictionary)
        } else {
            None
        },
        None => None,
    }
}

/// The root of the page tree: what the `Pages` of the catalog refer to.
pub open spec fn tree_root(document: Document) -> Option<ObjectId> {
    match document_root(document) {
        None => None,
        Some(id) => match node_dictionary(document, id) {
            None => None,
            Some(catalog) => match optional_entry(dictionary_entries(catalog), key("Pages"@)) {
                None => None,
                Some(pages) => reference_target(pages),
            },
        },
    }
}

/// The children of a node.
pub open spec fn children(document: Document, id: ObjectId) -> Seq<Object> {
    match node_dictionary(document, id) {
        None => Seq::empty(),
        Some(dictionary) => match dereferenced_entry(document, dictionary, key("Kids"@)) {
            None => Seq::empty(),
            Some(kids) => match array_items(kids) {
                None => Seq::empty(),
                Some(items) => items,
            },
        },
    }
}

/// Whether `child` is a page tree node and one of the children of a node.
pub open spec fn is_child(document: Document, id: ObjectId, child: ObjectId) -> bool {
    &&& pages_dictionary(document, child) is Some
    &&& exists|i: int|
        0 <= i < children(document, id).len() && reference_target(
            #[trigger] children(document, id)[i],
        ) == Some(child)
}

/// Whether a path leads from the root of the page tree from node to node.
pub open spec fn is_path(document: Document, path: Seq<ObjectId>) -> bool {
    &&& path.len() > 0
    &&& tree_root(document) == Some(path[0])
    &&& forall|i: int| 0 < i < path.len() ==> is_child(document, path[i - 1], #[trigger] path[i])
}

/// Whether the page tree reaches a node.
pub open spec fn is_reached(document: Document, id: ObjectId) -> bool {
    exists|path: Seq<ObjectId>| #[trigger] is_path(document, path) && path.last() == id
}

/// The pages that lopdf expects of a child of a node: what a page tree node claims,
/// and one of anything else.
pub open spec fn expected_pages(document: Document, child: Object) -> nat {
    match reference_target(child) {
        None => 1,
        Some(id) => match pages_dictionary(document, id) {
            None => 1,
            Some(dictionary) => match dereferenced_entry(document, dictionary, key("Count"@)) {
                None => 0,
                Some(count) => match integer_value(count) {
                    None => 0,
                    Some(claim) => if claim > 0 {
                        claim as nat
                    } else {
                        0
                    },
                },
            },
        },
    }
}

/// The pages that lopdf expects of the children of a node.
pub open spec fn expected_of_all(document: Document, kids: Seq<Object>) -> nat
    decreases kids.len(),
{
    if kids.len() == 0 {
        0
    } else {
        expected_of_all(document, kids.drop_last()) + expected_pages(document, kids.last())
    }
}

/// Whether there is room to list the pages that the children of a node claim, for
/// as many nodes as lopdf has open at once.
pub open spec fn has_room_for(document: Document, kids: Seq<Object>) -> bool {
    &&& expected_of_all(document, kids) <= MAX_OBJECTS
    &&& MAX_OPEN_LISTS * expected_of_all(document, kids) <= usize::MAX / 32
}

/// Whether no node that the page tree reaches has children that claim more pages
/// than can be listed.
pub open spec fn claims_fit(document: Document) -> bool {
    forall|id: ObjectId| #[trigger]
        is_reached(document, id) ==> has_room_for(document, children(document, id))
}

/// Whether the objects of a document can be renumbered from `start` on: the new
/// numbers exist, and the pages can be counted and listed.
pub open spec fn can_renumber(document: Document, start: u32) -> bool {
    &&& start >= 1
    &&& document_entries(document).len() <= MAX_OBJECTS
    &&& start + document_entries(document).len() <= u32::MAX
    &&& claims_fit(document)
}

fn find_node(document: &Document, id: ObjectId) -> (dictionary: Option<Dictionary>)
    ensures
        dictionary == node_dictionary(*document, id),
        dictionary is Some ==> document_objects(*document).contains_key(id),
{
    match find_object(document, id) {
        Ok(object) => match as_dictionary(&object) {
            Ok(dictionary) => Some(dictionary),
            Err(_) => None,
        },
        Err(_) => None,
    }
}

fn find_pages_node(document: &Document, id: ObjectId) -> (dictionary: Option<Dictionary>)
    ensures
        dictionary == pages_dictionary(*document, id),
        dictionary is Some ==> document_objects(*document).contains_key(id),
{
    let dictionary = match find_node(document, id) {
        Some(dictionary) => dictionary,
        None => return None,
    };
    match type_of(&dictionary) {
        Some(name) => {
            if same_bytes(name.as_slice(), "Pages".as_bytes()) {
                Some(dictionary)
            } else {
                None
            }
        },
        None => None,
    }
}

fn find_tree_root(document: &Document) -> (id: Option<ObjectId>)
    ensures
        id == tree_root(*document),
{
    let root = match root_id(document) {
        Some(root) => root,
        None => return None,
    };
    let catalog = match find_node(document, root) {
        Some(catalog) => catalog,
        None => return None,
    };
    match get_entry(&catalog, "Pages".as_bytes()) {
        Some(pages) => as_reference(&pages),
        None => None,
    }
}

fn find_children(document: &Document, id: ObjectId) -> (kids: Vec<Object>)
    ensures
        kids@ == children(*document, id),
{
    let dictionary = match find_node(document, id) {
        Some(dictionary) => dictionary,
        None => return Vec::new(),
    };
    let kids = match find_entry(document, &dictionary, "Kids".as_bytes()) {
        Some(kids) => kids,
        None => return Vec::new(),
    };
    match as_items(&kids) {
        Some(items) => items,
        None => Vec::new(),
    }
}

fn find_expected_pages(document: &Document, child: &Object) -> (pages: u64)
    ensures
        pages == expected_pages(*document, *child),
        pages <= i64::MAX,
{
    let id = match as_reference(child) {
        Some(id) => id,
        None => return 1,
    };
    let dictionary = match find_pages_node(document, id) {
        Some(dictionary) => dictionary,
        None => return 1,
    };
    let count = match find_entry(document, &dictionary, "Count".as_bytes()) {
        Some(count) => count,
        None => return 0,
    };
    match as_integer(&count) {
        Some(claim) => {
            if claim > 0 {
                claim as u64
            } else {
                0
            }
        },
        None => 0,
    }
}

proof fn lemma_first_children(document: Document, kids: Seq<Object>, count: int)
    requires
        0 <= count <= kids.len(),
    ensures
        expected_of_all(document, kids.take(count)) <= expected_of_all(document, kids),
    decreases kids.len() - count,
{
    if count == kids.len() {
        assert(kids.take(count) == kids);
    } else {
        lemma_first_children(document, kids, count + 1);
        assert(kids.take(count + 1).drop_last() == kids.take(count));
    }
}

/// Whether there is room to list the pages that the children of a node claim.
fn check_room(document: &Document, kids: &Vec<Object>) -> (fit: bool)
    ensures
        fit == has_room_for(*document, kids@),
{
    let mut sum: u64 = 0;
    assert(kids@.take(0) == Seq::<Object>::empty());
    for i in 0..kids.len()
        invariant
            sum == expected_of_all(*document, kids@.take(i as int)),
            sum <= MAX_OBJECTS,
    {
        let pages: u64 = find_expected_pages(document, &kids[i]);
        sum = sum + pages;
        assert(kids@.take(i + 1).drop_last() == kids@.take(i as int));
        if sum > MAX_OBJECTS as u64 {
            proof {
                lemma_first_children(*document, kids@, i + 1);
            }
            return false;
        }
    }
    assert(kids@.take(kids@.len() as int) == kids@);
    let lists: u64 = MAX_OPEN_LISTS as u64;
    assert(lists * sum <= 257 * 0x7fff_ffff) by (nonlinear_arith)
        requires
            lists == 257,
            sum <= 0x7fff_ffff,
    ;
    lists * sum <= (usize::MAX / 32) as u64
}

/// An id as one number.
spec fn id_number(id: ObjectId) -> int {
    id.0 * 0x1_0000 + id.1
}

fn number_of(id: ObjectId) -> (number: u64)
    ensures
        number == id_number(id),
{
    id.0 as u64 * 0x1_0000 + id.1 as u64
}

/// Whether a set of numbers stands for a set of ids.
spec fn stands_for(numbers: Set<u64>, ids: Set<ObjectId>) -> bool {
    forall|id: ObjectId|
        #![trigger ids.contains(id)]
        numbers.contains(id_number(id) as u64) <==> ids.contains(id)
}

/// Whether a node was seen to: there is room for its children, and the nodes among
/// them are known.
spec fn is_settled(document: Document, id: ObjectId, known: Set<ObjectId>) -> bool {
    &&& has_room_for(document, children(document, id))
    &&& forall|child: ObjectId| #[trigger] is_child(document, id, child) ==> known.contains(child)
}

proof fn lemma_reached_child(document: Document, id: ObjectId, child: ObjectId)
    requires
        is_reached(document, id),
        is_child(document, id, child),
    ensures
        is_reached(document, child),
{
    let path = choose|path: Seq<ObjectId>| #[trigger] is_path(document, path) && path.last() == id;
    let longer = path.push(child);
    assert forall|i: int| 0 < i < longer.len() implies is_child(
        document,
        longer[i - 1],
        #[trigger] longer[i],
    ) by {
        if i < path.len() {
            assert(path[i] == longer[i]);
        }
    }
    assert(is_path(document, longer));
    assert(longer.last() == child);
}

proof fn lemma_path_is_known(document: Document, known: Set<ObjectId>, path: Seq<ObjectId>)
    requires
        is_path(document, path),
        known.contains(path[0]),
        forall|id: ObjectId| #[trigger] known.contains(id) ==> is_settled(document, id, known),
    ensures
        known.contains(path.last()),
    decreases path.len(),
{
    if path.len() > 1 {
        let front = path.drop_last();
        assert forall|i: int| 0 < i < front.len() implies is_child(
            document,
            front[i - 1],
            #[trigger] front[i],
        ) by {
            assert(path[i] == front[i]);
        }
        lemma_path_is_known(document, known, front);
        assert(is_child(document, path[path.len() - 2], path[path.len() - 1]));
        assert(is_settled(document, front.last(), known));
    }
}

proof fn lemma_objects_are_finite(entries: Seq<(ObjectId, Object)>)
    ensures
        entries_map(entries).dom().finite(),
    decreases entries.len(),
{
    if entries.len() > 0 {
        lemma_objects_are_finite(entries.drop_last());
    }
}

/// Whether no node that the page tree reaches has children that claim more pages
/// than can be listed.
fn check_claims(document: &Document) -> (fit: bool)
    ensures
        fit == claims_fit(*document),
{
    let root = match find_tree_root(document) {
        Some(root) => root,
        None => return true,
    };
    let ghost places = document_objects(*document).dom().insert(root);
    let ghost mut known: Set<ObjectId> = Set::empty().insert(root);
    let mut numbers: HashSet<u64> = HashSet::new();
    numbers.insert(number_of(root));
    let mut waiting: Vec<ObjectId> = Vec::new();
    waiting.push(root);
    proof {
        lemma_objects_are_finite(document_entries(*document));
        let path = seq![root];
        assert(is_path(*document, path));
        assert(path.last() == root);
        assert(waiting@[0] == root);
        assert(is_reached(*document, root));
    }
    while waiting.len() > 0
        invariant
            tree_root(*document) == Some(root),
            places == document_objects(*document).dom().insert(root),
            places.finite(),
            known.subset_of(places),
            known.contains(root),
            stands_for(numbers@, known),
            forall|id: ObjectId| #[trigger] known.contains(id) ==> is_reached(*document, id),
            forall|i: int| 0 <= i < waiting@.len() ==> known.contains(#[trigger] waiting@[i]),
            forall|id: ObjectId| #[trigger]
                known.contains(id) && !waiting@.contains(id) ==> is_settled(*document, id, known),
        decreases places.len() - known.len(), waiting.len(),
    {
        let ghost known_before = known;
        let ghost waiting_before = waiting@;
        let id = match waiting.pop() {
            Some(id) => id,
            None => return true,
        };
        assert(waiting_before.last() == id);
        assert(known.contains(id));
        let kids = find_children(document, id);
        if !check_room(document, &kids) {
            assert(is_reached(*document, id));
            return false;
        }
        assert forall|a: ObjectId| #[trigger]
            known.contains(a) && !waiting@.contains(a) && a != id implies is_settled(
            *document,
            a,
            known,
        ) by {
            if waiting_before.contains(a) {
                let k = choose|k: int| 0 <= k < waiting_before.len() && waiting_before[k] == a;
                assert(waiting@[k] == a);
            }
        }
        for i in 0..kids.len()
            invariant
                kids@ == children(*document, id),
                places == document_objects(*document).dom().insert(root),
                places.finite(),
                known.subset_of(places),
                known.contains(root),
                known_before.subset_of(known),
                is_reached(*document, id),
                stands_for(numbers@, known),
                forall|a: ObjectId| #[trigger] known.contains(a) ==> is_reached(*document, a),
                forall|k: int| 0 <= k < waiting@.len() ==> known.contains(#[trigger] waiting@[k]),
                forall|a: ObjectId| #[trigger]
                    known.contains(a) && !waiting@.contains(a) && a != id ==> is_settled(
                        *document,
                        a,
                        known,
                    ),
                forall|k: int, child: ObjectId|
                    0 <= k < i && reference_target(#[trigger] kids@[k]) == Some(child)
                        && #[trigger] pages_dictionary(*document, child) is Some
                        ==> known.contains(child),
                known == known_before && waiting@.len() == waiting_before.len() - 1
                    || known.len() > known_before.len(),
        {
            match as_reference(&kids[i]) {
                Some(child) => {
                    if find_pages_node(document, child).is_some() {
                        let number: u64 = number_of(child);
                        if !numbers.contains(&number) {
                            let ghost known_now = known;
                            let ghost waiting_now = waiting@;
                            numbers.insert(number);
                            waiting.push(child);
                            proof {
                                known = known_now.insert(child);
                                assert(!known_now.contains(child));
                                assert(is_child(*document, id, child));
                                lemma_reached_child(*document, id, child);
                                assert forall|a: ObjectId| #[trigger]
                                    known.contains(a) && !waiting@.contains(a) && a
                                        != id implies is_settled(*document, a, known) by {
                                    assert(waiting@[waiting_now.len() as int] == child);
                                    if waiting_now.contains(a) {
                                        let k = choose|k: int|
                                            0 <= k < waiting_now.len() && waiting_now[k] == a;
                                        assert(waiting@[k] == a);
                                    }
                                    assert(known_now.contains(a));
                                    assert(is_settled(*document, a, known_now));
                                }
                            }
                        }
                    }
                },
                None => {},
            }
        }
        proof {
            assert(is_settled(*document, id, known));
            if known != known_before {
                vstd::set_lib::lemma_len_subset(known, places);
            }
        }
    }
    proof {
        assert forall|id: ObjectId| #[trigger] is_reached(*document, id) implies has_room_for(
            *document,
            children(*document, id),
        ) by {
            let path = choose|path: Seq<ObjectId>| #[trigger]
                is_path(*document, path) && path.last() == id;
            lemma_path_is_known(*document, known, path);
        }
    }
    true
}

/// Whether the objects of a document can be renumbered.
pub(crate) fn check_renumber(document: &Document, start: u32) -> (fit: bool)
    requires
        start >= 1,
    ensures
        fit == can_renumber(*document, start),
{
    let count: usize = object_count(document);
    count <= MAX_OBJECTS && count as u64 + start as u64 <= u32::MAX as u64 && check_claims(document)
}

} // verus!
