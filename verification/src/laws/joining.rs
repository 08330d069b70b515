//! A joined file holds all pages of all files, in their order, and all that they
//! show.

use crate::paths::shown_path;
use crate::pdf::documents::{
    array_items, ascending, dereferenced_entry, dictionary_entries, dictionary_of, dictionary_type, document_entries,
    document_max_id, document_object, document_objects, document_pages, document_root,
    document_version, extended_dictionary, id_before, integer_value, opens_as, reference_target, renumbered_document,
    saved_document, stream_dictionary, ObjectId,
};
use crate::pdf::page_tree::{
    can_renumber, children, expected_of_all, has_room_for, is_child, is_path, is_reached,
};
use crate::pdf::saving::{save_progress, temporary_name, SaveStep, SaveView, StepOutcome};
use crate::pdf::{
    are_read, has_page, has_type, holds_pages, is_joined, is_joined_catalog, is_joined_root,
    is_joining_result, is_kept, is_last_of_its_id, is_merge_result, is_written, join_fault,
    joined_catalog, joined_pages_root, kept_objects, overwrite_fault, page_fault, page_objects,
    reading, refusal, sources_of, InputView, MergedPdf, OpenedView, PdfSource, Reading,
};
use lopdf::{Dictionary, Document, Object};
use std::path::PathBuf;
use vstd::prelude::*;
use vstd::string::*;
use vstd::utf8::encode_utf8;

verus! {

/// Whether an object is called by a name: it is a dictionary of that type, or a
/// stream whose dictionary is.
pub open spec fn is_called(object: Object, name: Seq<char>) -> bool {
    match dictionary_of(object) {
        Ok(dictionary) => dictionary_type(dictionary) == Some(encode_utf8(name)),
        Err(_) => match stream_dictionary(object) {
            Some(dictionary) => dictionary_type(dictionary) == Some(encode_utf8(name)),
            None => false,
        },
    }
}

/// Whether an object is a part of what is made anew: the catalog, the page tree, a
/// page or an outline.
pub open spec fn is_made_anew(object: Object) -> bool {
    ||| is_called(object, "Catalog"@)
    ||| is_called(object, "Pages"@)
    ||| is_called(object, "Page"@)
    ||| is_called(object, "Outlines"@)
    ||| is_called(object, "Outline"@)
}

/// Whether some page has an id.
pub open spec fn is_page_id(pages: Seq<(ObjectId, Object)>, id: ObjectId) -> bool {
    exists|p: int| 0 <= p < pages.len() && (#[trigger] pages[p]).0 == id
}

proof fn lemma_called(object: Object, name: Seq<char>)
    ensures
        is_called(object, name) == has_type(object, name),
{
}

proof fn lemma_names_differ(object: Object)
    ensures
        !(is_called(object, "Catalog"@) && is_called(object, "Pages"@)),
{
    reveal_strlit("Catalog");
    reveal_strlit("Pages");
    assert("Catalog"@[0] == 'C' && "Pages"@[0] == 'P');
    vstd::utf8::encode_utf8_decode_utf8("Catalog"@);
    vstd::utf8::encode_utf8_decode_utf8("Pages"@);
}

proof fn lemma_kept(objects: Seq<(ObjectId, Object)>, i: int)
    requires
        ascending(objects),
        0 <= i < objects.len(),
        is_kept(objects[i].1),
    ensures
        kept_objects(objects).contains_key(objects[i].0),
        kept_objects(objects)[objects[i].0] == objects[i].1,
    decreases objects.len(),
{
    let front = objects.drop_last();
    if i < front.len() {
        assert forall|a: int, b: int| 0 <= a < b < front.len() implies id_before(
            (#[trigger] front[a]).0,
            (#[trigger] front[b]).0,
        ) by {
            assert(front[a] == objects[a] && front[b] == objects[b]);
        }
        assert(front[i] == objects[i]);
        lemma_kept(front, i);
        assert(id_before(objects[i].0, objects[objects.len() - 1].0));
    }
}

proof fn lemma_root_is_a_tree_node(objects: Seq<(ObjectId, Object)>)
    requires
        joined_pages_root(objects) is Some,
    ensures
        exists|j: int|
            0 <= j < objects.len() && (#[trigger] objects[j]).0 == (joined_pages_root(
                objects,
            )->0).0 && is_called(objects[j].1, "Pages"@),
    decreases objects.len(),
{
    let front = objects.drop_last();
    if joined_pages_root(front) is Some {
        lemma_root_is_a_tree_node(front);
        let j = choose|j: int|
            0 <= j < front.len() && (#[trigger] front[j]).0 == (joined_pages_root(front)->0).0
                && is_called(front[j].1, "Pages"@);
        assert(objects[j] == front[j]);
    } else {
        lemma_called(objects.last().1, "Pages"@);
        assert(objects[objects.len() - 1] == objects.last());
    }
}

proof fn lemma_catalog_is_a_catalog(objects: Seq<(ObjectId, Object)>)
    requires
        joined_catalog(objects) is Some,
    ensures
        exists|j: int|
            0 <= j < objects.len() && (#[trigger] objects[j]).0 == (joined_catalog(objects)->0).0
                && is_called(objects[j].1, "Catalog"@),
    decreases objects.len(),
{
    let front = objects.drop_last();
    if joined_catalog(front) is Some {
        lemma_catalog_is_a_catalog(front);
        let j = choose|j: int|
            0 <= j < front.len() && (#[trigger] front[j]).0 == (joined_catalog(front)->0).0
                && is_called(front[j].1, "Catalog"@);
        assert(objects[j] == front[j]);
    } else {
        lemma_called(objects.last().1, "Catalog"@);
        assert(objects[objects.len() - 1] == objects.last());
    }
}

proof fn lemma_one_object_of_an_id(objects: Seq<(ObjectId, Object)>, i: int, j: int)
    requires
        ascending(objects),
        0 <= i < objects.len(),
        0 <= j < objects.len(),
        objects[i].0 == objects[j].0,
    ensures
        i == j,
{
    if i < j {
        assert(id_before(objects[i].0, objects[j].0));
    } else if j < i {
        assert(id_before(objects[j].0, objects[i].0));
    }
}

/// The id of the page tree and that of the catalog belong to no object that has to
/// be kept.
proof fn lemma_new_ids(objects: Seq<(ObjectId, Object)>, i: int)
    requires
        ascending(objects),
        0 <= i < objects.len(),
        joined_pages_root(objects) is Some,
        joined_catalog(objects) is Some,
    ensures
        !is_called(objects[i].1, "Pages"@) ==> objects[i].0 != (joined_pages_root(objects)->0).0,
        !is_called(objects[i].1, "Catalog"@) ==> objects[i].0 != (joined_catalog(objects)->0).0,
{
    lemma_root_is_a_tree_node(objects);
    lemma_catalog_is_a_catalog(objects);
    let j = choose|j: int|
        0 <= j < objects.len() && (#[trigger] objects[j]).0 == (joined_pages_root(objects)->0).0
            && is_called(objects[j].1, "Pages"@);
    let k = choose|k: int|
        0 <= k < objects.len() && (#[trigger] objects[k]).0 == (joined_catalog(objects)->0).0
            && is_called(objects[k].1, "Catalog"@);
    if objects[i].0 == objects[j].0 {
        lemma_one_object_of_an_id(objects, i, j);
    }
    if objects[i].0 == objects[k].0 {
        lemma_one_object_of_an_id(objects, i, k);
    }
}

/// Every object of the files is in the joined document under its id, as it was,
/// unless it is a catalog, a part of a page tree, a page or an outline. So all that
/// the pages refer to, such as their images and fonts, is there.
pub proof fn every_other_object_is_kept(
    document: Document,
    pages: Seq<(ObjectId, Object)>,
    objects: Seq<(ObjectId, Object)>,
    i: int,
)
    requires
        is_joined(document, pages, objects),
        ascending(objects),
        0 <= i < objects.len(),
        !is_called(objects[i].1, "Catalog"@),
        !is_called(objects[i].1, "Pages"@),
        !is_called(objects[i].1, "Page"@),
        !is_called(objects[i].1, "Outlines"@),
        !is_called(objects[i].1, "Outline"@),
        !is_page_id(pages, objects[i].0),
    ensures
        document_objects(document).contains_key(objects[i].0),
        document_objects(document)[objects[i].0] == objects[i].1,
{
    lemma_called(objects[i].1, "Catalog"@);
    lemma_called(objects[i].1, "Pages"@);
    lemma_called(objects[i].1, "Page"@);
    lemma_called(objects[i].1, "Outlines"@);
    lemma_called(objects[i].1, "Outline"@);
    lemma_kept(objects, i);
    lemma_new_ids(objects, i);
    let (pages_id, root) = joined_pages_root(objects)->0;
    let (catalog_id, catalog) = joined_catalog(objects)->0;
    let (leaves, tree, top) = choose|leaves: Map<ObjectId, Object>, tree: Object, top: Object|
        {
            &&& #[trigger] holds_pages(leaves, pages, kept_objects(objects), pages_id)
            &&& #[trigger] is_joined_root(tree, root, pages)
            &&& #[trigger] is_joined_catalog(top, catalog, pages_id)
            &&& document_objects(document) == leaves.insert(pages_id, tree).insert(catalog_id, top)
        };
    if has_page(pages, objects[i].0) {
        let p = choose|p: int| 0 <= p < pages.len() && (#[trigger] pages[p]).0 == objects[i].0;
        assert(is_page_id(pages, objects[i].0));
    }
    assert(leaves.contains_key(objects[i].0));
    assert(leaves[objects[i].0] == objects[i].1);
}

/// Nothing is in the joined document but the kept objects, the pages, the page tree
/// and the catalog.
pub proof fn nothing_else_is_added(
    document: Document,
    pages: Seq<(ObjectId, Object)>,
    objects: Seq<(ObjectId, Object)>,
    id: ObjectId,
)
    requires
        is_joined(document, pages, objects),
        document_objects(document).contains_key(id),
    ensures
        is_page_id(pages, id) || document_root(document) == Some(id) || exists|j: int|
            0 <= j < objects.len() && (#[trigger] objects[j]).0 == id && (is_called(
                objects[j].1,
                "Pages"@,
            ) || !is_made_anew(objects[j].1)),
{
    let (pages_id, root) = joined_pages_root(objects)->0;
    let (catalog_id, catalog) = joined_catalog(objects)->0;
    let (leaves, tree, top) = choose|leaves: Map<ObjectId, Object>, tree: Object, top: Object|
        {
            &&& #[trigger] holds_pages(leaves, pages, kept_objects(objects), pages_id)
            &&& #[trigger] is_joined_root(tree, root, pages)
            &&& #[trigger] is_joined_catalog(top, catalog, pages_id)
            &&& document_objects(document) == leaves.insert(pages_id, tree).insert(catalog_id, top)
        };
    if id == catalog_id {
    } else if id == pages_id {
        lemma_root_is_a_tree_node(objects);
    } else {
        assert(leaves.contains_key(id));
        if has_page(pages, id) {
            let p = choose|p: int| 0 <= p < pages.len() && (#[trigger] pages[p]).0 == id;
            assert(pages[p].0 == id);
        } else {
            lemma_kept_are_objects(objects, id);
        }
    }
}

proof fn lemma_kept_are_objects(objects: Seq<(ObjectId, Object)>, id: ObjectId)
    requires
        kept_objects(objects).contains_key(id),
    ensures
        exists|j: int|
            0 <= j < objects.len() && (#[trigger] objects[j]).0 == id && !is_made_anew(
                objects[j].1,
            ),
    decreases objects.len(),
{
    let last = objects.last();
    if is_kept(last.1) && last.0 == id {
        lemma_called(last.1, "Catalog"@);
        lemma_called(last.1, "Pages"@);
        lemma_called(last.1, "Page"@);
        lemma_called(last.1, "Outlines"@);
        lemma_called(last.1, "Outline"@);
        assert(objects[objects.len() - 1] == last);
    } else {
        let front = objects.drop_last();
        lemma_kept_are_objects(front, id);
        let j = choose|j: int|
            0 <= j < front.len() && (#[trigger] front[j]).0 == id && !is_made_anew(front[j].1);
        assert(objects[j] == front[j]);
    }
}

/// The entries of a dictionary object.
pub open spec fn entries_of(object: Object) -> Map<Seq<u8>, Object> {
    dictionary_entries(dictionary_of(object)->Ok_0)
}

/// Whether two dictionaries have the same entry, or both none, under a key.
pub open spec fn agree_on(a: Map<Seq<u8>, Object>, b: Map<Seq<u8>, Object>, key: Seq<u8>) -> bool {
    a.contains_key(key) == b.contains_key(key) && (a.contains_key(key) ==> a[key] == b[key])
}

/// The page tree of a joined document, as its catalog gives it.
pub open spec fn tree_id(document: Document) -> ObjectId {
    reference_target(
        entries_of(document_objects(document)[document_root(document)->0])[encode_utf8("Pages"@)],
    )->0
}

/// The catalog leads to the page tree, which lists the pages one after the other,
/// each once for each time that it occurs, and counts them.
pub proof fn the_page_tree_lists_all_pages_in_order(
    document: Document,
    pages: Seq<(ObjectId, Object)>,
    objects: Seq<(ObjectId, Object)>,
)
    requires
        is_joined(document, pages, objects),
        ascending(objects),
    ensures
        document_root(document) is Some,
        document_objects(document).contains_key(document_root(document)->0),
        dictionary_of(document_objects(document)[document_root(document)->0]) is Ok,
        document_objects(document).contains_key(tree_id(document)),
        dictionary_of(document_objects(document)[tree_id(document)]) is Ok,
        ({
            let tree = entries_of(document_objects(document)[tree_id(document)]);
            let kids = array_items(tree[encode_utf8("Kids"@)])->0;
            &&& tree.contains_key(encode_utf8("Kids"@))
            &&& tree.contains_key(encode_utf8("Count"@))
            &&& array_items(tree[encode_utf8("Kids"@)]) is Some
            &&& kids.len() == pages.len()
            &&& forall|p: int|
                0 <= p < pages.len() ==> reference_target(#[trigger] kids[p]) == Some(pages[p].0)
            &&& pages.len() <= u32::MAX ==> integer_value(tree[encode_utf8("Count"@)]) == Some(
                pages.len() as i64,
            )
        }),
        !entries_of(document_objects(document)[document_root(document)->0]).contains_key(
            encode_utf8("Outlines"@),
        ),
        document_version(document) == "1.5"@,
{
    let (pages_id, root) = joined_pages_root(objects)->0;
    let (catalog_id, catalog) = joined_catalog(objects)->0;
    let (leaves, tree, top) = choose|leaves: Map<ObjectId, Object>, tree: Object, top: Object|
        {
            &&& #[trigger] holds_pages(leaves, pages, kept_objects(objects), pages_id)
            &&& #[trigger] is_joined_root(tree, root, pages)
            &&& #[trigger] is_joined_catalog(top, catalog, pages_id)
            &&& document_objects(document) == leaves.insert(pages_id, tree).insert(catalog_id, top)
        };
    lemma_root_is_a_tree_node(objects);
    let j = choose|j: int|
        0 <= j < objects.len() && (#[trigger] objects[j]).0 == pages_id && is_called(
            objects[j].1,
            "Pages"@,
        );
    lemma_new_ids(objects, j);
    lemma_names_differ(objects[j].1);
    assert(pages_id != catalog_id);
    assert(document_objects(document)[catalog_id] == top);
    assert(document_objects(document)[pages_id] == tree);
    assert(tree_id(document) == pages_id);
}

/// Each page stands in the joined document under its id with all that it had, and
/// hangs under the page tree.
pub proof fn pages_keep_what_they_have(
    document: Document,
    pages: Seq<(ObjectId, Object)>,
    objects: Seq<(ObjectId, Object)>,
    p: int,
    key: Seq<u8>,
)
    requires
        is_joined(document, pages, objects),
        ascending(objects),
        0 <= p < pages.len(),
        forall|q: int| p < q < pages.len() ==> (#[trigger] pages[q]).0 != pages[p].0,
        forall|i: int|
            0 <= i < objects.len() && (#[trigger] objects[i]).0 == pages[p].0 ==> !is_called(
                objects[i].1,
                "Catalog"@,
            ) && !is_called(objects[i].1, "Pages"@),
        key != encode_utf8("Parent"@),
    ensures
        document_objects(document).contains_key(pages[p].0),
        dictionary_of(document_objects(document)[pages[p].0]) is Ok,
        agree_on(entries_of(document_objects(document)[pages[p].0]), entries_of(pages[p].1), key),
        entries_of(document_objects(document)[pages[p].0]).contains_key(encode_utf8("Parent"@)),
        reference_target(
            entries_of(document_objects(document)[pages[p].0])[encode_utf8("Parent"@)],
        ) == Some(tree_id(document)),
{
    the_page_tree_lists_all_pages_in_order(document, pages, objects);
    let (pages_id, root) = joined_pages_root(objects)->0;
    let (catalog_id, catalog) = joined_catalog(objects)->0;
    let (leaves, tree, top) = choose|leaves: Map<ObjectId, Object>, tree: Object, top: Object|
        {
            &&& #[trigger] holds_pages(leaves, pages, kept_objects(objects), pages_id)
            &&& #[trigger] is_joined_root(tree, root, pages)
            &&& #[trigger] is_joined_catalog(top, catalog, pages_id)
            &&& document_objects(document) == leaves.insert(pages_id, tree).insert(catalog_id, top)
        };
    lemma_root_is_a_tree_node(objects);
    lemma_catalog_is_a_catalog(objects);
    let j = choose|j: int|
        0 <= j < objects.len() && (#[trigger] objects[j]).0 == pages_id && is_called(
            objects[j].1,
            "Pages"@,
        );
    lemma_new_ids(objects, j);
    lemma_names_differ(objects[j].1);
    assert(pages[p].0 != pages_id && pages[p].0 != catalog_id);
    assert(document_objects(document)[catalog_id] == top);
    assert(tree_id(document) == pages_id);
    assert(is_last_of_its_id(pages, p));
    assert(has_page(pages, pages[p].0));
    let entries = entries_of(leaves[pages[p].0]);
    let source = entries_of(pages[p].1);
    let parent = encode_utf8("Parent"@);
    assert(entries.remove(parent) == source.remove(parent));
    assert(entries.remove(parent).contains_key(key) == entries.contains_key(key));
    assert(source.remove(parent).contains_key(key) == source.contains_key(key));
    if entries.contains_key(key) {
        assert(entries.remove(parent)[key] == source.remove(parent)[key]);
    }
}

/// The catalog keeps what the last catalog of the files has, but for the page tree
/// and the outlines, and stands under the id of the first.
pub proof fn the_last_catalog_is_kept(
    document: Document,
    pages: Seq<(ObjectId, Object)>,
    objects: Seq<(ObjectId, Object)>,
    first: int,
    last: int,
    key: Seq<u8>,
)
    requires
        is_joined(document, pages, objects),
        0 <= first <= last < objects.len(),
        is_called(objects[first].1, "Catalog"@),
        is_called(objects[last].1, "Catalog"@),
        forall|i: int|
            0 <= i < first || last < i < objects.len() ==> !is_called(
                (#[trigger] objects[i]).1,
                "Catalog"@,
            ),
        key != encode_utf8("Pages"@),
        key != encode_utf8("Outlines"@),
    ensures
        document_root(document) == Some(objects[first].0),
        agree_on(
            entries_of(document_objects(document)[objects[first].0]),
            entries_of(objects[last].1),
            key,
        ),
{
    lemma_joined_catalog(objects, first, last);
    let (pages_id, root) = joined_pages_root(objects)->0;
    let (catalog_id, catalog) = joined_catalog(objects)->0;
    let (leaves, tree, top) = choose|leaves: Map<ObjectId, Object>, tree: Object, top: Object|
        {
            &&& #[trigger] holds_pages(leaves, pages, kept_objects(objects), pages_id)
            &&& #[trigger] is_joined_root(tree, root, pages)
            &&& #[trigger] is_joined_catalog(top, catalog, pages_id)
            &&& document_objects(document) == leaves.insert(pages_id, tree).insert(catalog_id, top)
        };
    let entries = entries_of(top);
    let source = entries_of(catalog);
    let tree_key = encode_utf8("Pages"@);
    let rest = source.remove(encode_utf8("Outlines"@));
    assert(entries.remove(tree_key) == rest.remove(tree_key));
    assert(entries.remove(tree_key).contains_key(key) == entries.contains_key(key));
    assert(rest.remove(tree_key).contains_key(key) == source.contains_key(key));
    if entries.contains_key(key) {
        assert(entries.remove(tree_key)[key] == rest.remove(tree_key)[key]);
    }
}

proof fn lemma_joined_catalog(objects: Seq<(ObjectId, Object)>, first: int, last: int)
    requires
        0 <= first <= last < objects.len(),
        is_called(objects[first].1, "Catalog"@),
        is_called(objects[last].1, "Catalog"@),
        forall|i: int|
            0 <= i < first || last < i < objects.len() ==> !is_called(
                (#[trigger] objects[i]).1,
                "Catalog"@,
            ),
    ensures
        joined_catalog(objects) == Some((objects[first].0, objects[last].1)),
    decreases objects.len(),
{
    let front = objects.drop_last();
    lemma_called(objects.last().1, "Catalog"@);
    if last < front.len() {
        assert(!is_called(objects[objects.len() - 1].1, "Catalog"@));
        assert forall|i: int| 0 <= i < first || last < i < front.len() implies !is_called(
            (#[trigger] front[i]).1,
            "Catalog"@,
        ) by {
            assert(front[i] == objects[i]);
        }
        lemma_joined_catalog(front, first, last);
    } else if first == last {
        lemma_no_catalog(front);
    } else {
        lemma_first_catalog(front, first);
    }
}

proof fn lemma_no_catalog(objects: Seq<(ObjectId, Object)>)
    requires
        forall|i: int|
            0 <= i < objects.len() ==> !is_called((#[trigger] objects[i]).1, "Catalog"@),
    ensures
        joined_catalog(objects) is None,
    decreases objects.len(),
{
    if objects.len() > 0 {
        lemma_called(objects.last().1, "Catalog"@);
        assert(!is_called(objects[objects.len() - 1].1, "Catalog"@));
        assert forall|i: int| 0 <= i < objects.drop_last().len() implies !is_called(
            (#[trigger] objects.drop_last()[i]).1,
            "Catalog"@,
        ) by {
            assert(objects.drop_last()[i] == objects[i]);
        }
        lemma_no_catalog(objects.drop_last());
    }
}

proof fn lemma_first_catalog(objects: Seq<(ObjectId, Object)>, first: int)
    requires
        0 <= first < objects.len(),
        is_called(objects[first].1, "Catalog"@),
        forall|i: int| 0 <= i < first ==> !is_called((#[trigger] objects[i]).1, "Catalog"@),
    ensures
        joined_catalog(objects) is Some,
        (joined_catalog(objects)->0).0 == objects[first].0,
    decreases objects.len(),
{
    let front = objects.drop_last();
    lemma_called(objects.last().1, "Catalog"@);
    if first < front.len() {
        assert forall|i: int| 0 <= i < first implies !is_called(
            (#[trigger] front[i]).1,
            "Catalog"@,
        ) by {
            assert(front[i] == objects[i]);
        }
        lemma_first_catalog(front, first);
    } else {
        assert forall|i: int| 0 <= i < front.len() implies !is_called(
            (#[trigger] front[i]).1,
            "Catalog"@,
        ) by {
            assert(front[i] == objects[i]);
        }
        lemma_no_catalog(front);
    }
}

/// The number that the objects of file `i` begin with: one after those of the file
/// before it.
pub open spec fn first_number(files: Seq<OpenedView>, i: int) -> u32
    decreases i, 0int,
{
    if i <= 0 {
        1
    } else {
        (document_max_id(numbered(files, i - 1)) + 1) as u32
    }
}

/// The document of file `i`, renumbered to follow the files before it.
pub open spec fn numbered(files: Seq<OpenedView>, i: int) -> Document
    decreases i, 1int,
{
    renumbered_document(files[i].document->Ok_0, first_number(files, i))
}

/// The objects of the first `count` files, one file after the other.
pub open spec fn objects_of_files(files: Seq<OpenedView>, count: int) -> Seq<(ObjectId, Object)>
    decreases count,
{
    if count <= 0 {
        Seq::empty()
    } else {
        objects_of_files(files, count - 1) + document_entries(numbered(files, count - 1))
    }
}

/// The pages of the first `count` files, one file after the other, each with what
/// stands under its id in its own file.
pub open spec fn pages_of_files(files: Seq<OpenedView>, count: int) -> Seq<(ObjectId, Object)>
    decreases count,
{
    if count <= 0 {
        Seq::empty()
    } else {
        let document = numbered(files, count - 1);
        pages_of_files(files, count - 1) + document_pages(document).map_values(
            |id: ObjectId| (id, document_object(document, id)->Ok_0),
        )
    }
}

proof fn lemma_page_objects(document: Document, pages: Seq<ObjectId>)
    requires
        page_objects(document, pages) is Ok,
    ensures
        page_objects(document, pages)->Ok_0 =~= pages.map_values(
            |id: ObjectId| (id, document_object(document, id)->Ok_0),
        ),
        forall|p: int|
            0 <= p < pages.len() ==> document_object(document, #[trigger] pages[p]) is Ok,
    decreases pages.len(),
{
    if pages.len() > 0 {
        lemma_page_objects(document, pages.drop_last());
        assert forall|p: int| 0 <= p < pages.len() implies document_object(
            document,
            #[trigger] pages[p],
        ) is Ok by {
            if p < pages.len() - 1 {
                assert(pages.drop_last()[p] == pages[p]);
            }
        }
    }
}

/// Reading goes through all files: where it is done, every file could be opened and
/// has pages, all of them could be read, and all pages and all objects of all files
/// are there, in their order.
pub proof fn reading_takes_in_everything(files: Seq<OpenedView>, count: int)
    requires
        0 <= count <= files.len(),
        reading(files) is Done,
    ensures
        reading(files.take(count)) is Done,
        reading(files.take(count))->Done_0.pages == pages_of_files(files, count),
        reading(files.take(count))->Done_0.objects == objects_of_files(files, count),
        reading(files.take(count))->Done_0.next_id == first_number(files, count),
        forall|i: int|
            0 <= i < count ==> (#[trigger] files[i]).document is Ok && document_pages(
                numbered(files, i),
            ).len() > 0,
    decreases count,
{
    lemma_earlier_files_are_done(files, count);
    let part = files.take(count);
    if count > 0 {
        reading_takes_in_everything(files, count - 1);
        assert(part.drop_last() =~= files.take(count - 1));
        assert(part.last() == files[count - 1]);
        let before = reading(files.take(count - 1))->Done_0;
        let document = renumbered_document(files[count - 1].document->Ok_0, before.next_id);
        assert(document == numbered(files, count - 1));
        lemma_page_objects(document, document_pages(document));
    }
}

proof fn lemma_earlier_files_are_done(files: Seq<OpenedView>, count: int)
    requires
        0 <= count <= files.len(),
        reading(files) is Done,
    ensures
        reading(files.take(count)) is Done,
    decreases files.len() - count,
{
    if count == files.len() {
        assert(files.take(count) =~= files);
    } else {
        lemma_earlier_files_are_done(files, count + 1);
        assert(files.take(count + 1).drop_last() =~= files.take(count));
    }
}

/// The first file that cannot be opened, has no pages or has a page that cannot be
/// read stops the joining with an error that names it; later files do not matter.
pub proof fn the_first_bad_file_is_named(files: Seq<OpenedView>, i: int, error: Seq<char>)
    requires
        0 <= i < files.len(),
        reading(files.take(i)) is Done,
    ensures
        files[i].document == Err::<Document, Seq<char>>(error) ==> reading(files)
            == Reading::Failed("Could not read "@ + shown_path(files[i].path) + ": "@ + error),
        files[i].document is Ok && can_renumber(
            files[i].document->Ok_0,
            reading(files.take(i))->Done_0.next_id,
        ) && document_pages(numbered(files, i)).len() == 0 ==> reading(files) == Reading::Failed(
            "No pages found in "@ + shown_path(files[i].path),
        ),
        files[i].document is Ok && !can_renumber(
            files[i].document->Ok_0,
            reading(files.take(i))->Done_0.next_id,
        ) ==> reading(files) is TooLarge,
{
    reading_takes_in_everything(files.take(i), i);
    assert(files.take(i).take(i) =~= files.take(i));
    lemma_same_numbers(files, files.take(i), i);
    let part = files.take(i + 1);
    assert(part.drop_last() =~= files.take(i));
    assert(part.last() == files[i]);
    if !(reading(part) is Done) {
        lemma_bad_files_stop(files, i + 1);
    }
}

proof fn lemma_same_numbers(files: Seq<OpenedView>, part: Seq<OpenedView>, i: int)
    requires
        0 <= i <= part.len() <= files.len(),
        part =~= files.take(part.len() as int),
    ensures
        first_number(files, i) == first_number(part, i),
    decreases i,
{
    if i > 0 {
        lemma_same_numbers(files, part, i - 1);
        assert(files[i - 1] == part[i - 1]);
    }
}

proof fn lemma_bad_files_stop(files: Seq<OpenedView>, i: int)
    requires
        0 <= i <= files.len(),
        !(reading(files.take(i)) is Done),
    ensures
        reading(files) == reading(files.take(i)),
    decreases files.len() - i,
{
    if i == files.len() {
        assert(files.take(i) =~= files);
    } else {
        assert(files.take(i + 1).drop_last() =~= files.take(i));
        lemma_bad_files_stop(files, i + 1);
    }
}

proof fn lemma_overwrite_first(sources: Seq<PdfSource>, i: int)
    requires
        0 <= i < sources.len(),
        sources[i].is_output,
        forall|j: int| 0 <= j < i ==> !(#[trigger] sources[j]).is_output,
    ensures
        overwrite_fault(sources) == Some(
            "Output file cannot be one of the selected source files: "@ + shown_path(
                sources[i].path,
            ),
        ),
    decreases sources.len(),
{
    let front = sources.drop_last();
    if i < front.len() {
        assert forall|j: int| 0 <= j < i implies !(#[trigger] front[j]).is_output by {
            assert(front[j] == sources[j]);
        }
        lemma_overwrite_first(front, i);
    } else {
        lemma_no_overwrite(front);
    }
}

proof fn lemma_no_overwrite(sources: Seq<PdfSource>)
    requires
        forall|j: int| 0 <= j < sources.len() ==> !(#[trigger] sources[j]).is_output,
    ensures
        overwrite_fault(sources) is None,
    decreases sources.len(),
{
    if sources.len() > 0 {
        let front = sources.drop_last();
        assert forall|j: int| 0 <= j < front.len() implies !(#[trigger] front[j]).is_output by {
            assert(front[j] == sources[j]);
        }
        lemma_no_overwrite(front);
        assert(!sources[sources.len() - 1].is_output);
    }
}

/// A selection is refused exactly where it holds fewer than two files, or one that
/// is to be written; the first such file is named.
pub proof fn selections_are_refused_for_a_reason(sources: Seq<PdfSource>)
    ensures
        refusal(sources) is Some <==> sources.len() < 2 || exists|i: int|
            0 <= i < sources.len() && (#[trigger] sources[i]).is_output,
        forall|i: int|
            0 <= i < sources.len() && sources.len() >= 2 && (#[trigger] sources[i]).is_output && (
            forall|j: int| 0 <= j < i ==> !(#[trigger] sources[j]).is_output) ==> refusal(sources)
                == Some(
                "Output file cannot be one of the selected source files: "@ + shown_path(
                    sources[i].path,
                ),
            ),
{
    if exists|i: int| 0 <= i < sources.len() && (#[trigger] sources[i]).is_output {
        let i = lemma_first_output(sources, 0);
        lemma_overwrite_first(sources, i);
    } else {
        lemma_no_overwrite(sources);
    }
    assert forall|i: int|
        0 <= i < sources.len() && sources.len() >= 2 && (#[trigger] sources[i]).is_output && (
        forall|j: int| 0 <= j < i ==> !(#[trigger] sources[j]).is_output) implies refusal(sources)
        == Some(
        "Output file cannot be one of the selected source files: "@ + shown_path(sources[i].path),
    ) by {
        lemma_overwrite_first(sources, i);
    }
}

proof fn lemma_first_output(sources: Seq<PdfSource>, from: int) -> (first: int)
    requires
        0 <= from <= sources.len(),
        exists|i: int| 0 <= i < sources.len() && (#[trigger] sources[i]).is_output,
        forall|j: int| 0 <= j < from ==> !(#[trigger] sources[j]).is_output,
    ensures
        0 <= first < sources.len(),
        sources[first].is_output,
        forall|j: int| 0 <= j < first ==> !(#[trigger] sources[j]).is_output,
    decreases sources.len() - from,
{
    if from == sources.len() {
        from
    } else if sources[from].is_output {
        from
    } else {
        lemma_first_output(sources, from + 1)
    }
}

/// Whether opened files, the pages and objects read from them, and the document made
/// of these stand behind a joined file.
pub open spec fn is_made_of(
    merged: MergedPdf,
    inputs: Seq<InputView>,
    files: Seq<OpenedView>,
    document: Document,
) -> bool {
    let count = files.len() as int;
    &&& files.len() == inputs.len()
    &&& forall|i: int|
        0 <= i < inputs.len() ==> (#[trigger] files[i]).path == inputs[i].source.path && opens_as(
            inputs[i].content,
            files[i].document,
        )
    &&& forall|i: int| 0 <= i < inputs.len() ==> (#[trigger] files[i]).document is Ok
    &&& ascending(objects_of_files(files, count))
    &&& is_joined(document, pages_of_files(files, count), objects_of_files(files, count))
    &&& saved_document(renumbered_document(document, 1)) == Ok::<Seq<u8>, Seq<char>>(
        merged.bytes@,
    )
    &&& merged.summary.total_pages == pages_of_files(files, count).len()
    &&& merged.summary.input_count == inputs.len()
}

/// A file that joining gives is the written form of a document with all pages and
/// all objects of every input, and the summary tells how many pages and files that
/// are and where they go.
pub proof fn joined_files_hold_every_input(
    result: Option<Result<MergedPdf, String>>,
    inputs: Seq<InputView>,
    output_path: PathBuf,
    temp_path: PathBuf,
)
    requires
        is_merge_result(result, inputs, output_path, temp_path),
        result is Some,
        result->0 is Ok,
    ensures
        inputs.len() >= 2,
        forall|i: int| 0 <= i < inputs.len() ==> !(#[trigger] inputs[i]).source.is_output,
        result->0->Ok_0.summary.output_path == output_path,
        exists|files: Seq<OpenedView>, document: Document| #[trigger]
            is_made_of(result->0->Ok_0, inputs, files, document),
{
    let sources = sources_of(inputs);
    selections_are_refused_for_a_reason(sources);
    assert forall|i: int| 0 <= i < inputs.len() implies !(#[trigger] inputs[i]).source.is_output by {
        assert(sources[i] == inputs[i].source);
    }
    let files = choose|files: Seq<OpenedView>| #[trigger]
        are_read(inputs, files) && is_joining_result(
            result,
            files,
            output_path,
            temp_path,
        );
    let gathered = reading(files)->Done_0;
    let count = files.len() as int;
    assert(files.take(count) =~= files);
    reading_takes_in_everything(files, count);
    let document = choose|document: Document|
        {
            &&& #[trigger] is_joined(document, gathered.pages, gathered.objects)
            &&& is_written(
                result,
                document,
                output_path,
                temp_path,
                files.len(),
                gathered.pages.len(),
            )
        };
    assert(is_made_of(result->0->Ok_0, inputs, files, document));
}

proof fn lemma_object_of_file(files: Seq<OpenedView>, count: int, i: int, e: int)
    requires
        0 <= i < count,
        0 <= e < document_entries(numbered(files, i)).len(),
    ensures
        exists|k: int|
            0 <= k < objects_of_files(files, count).len() && #[trigger] objects_of_files(
                files,
                count,
            )[k] == document_entries(numbered(files, i))[e],
    decreases count,
{
    let before = objects_of_files(files, count - 1);
    let all = objects_of_files(files, count);
    if i < count - 1 {
        lemma_object_of_file(files, count - 1, i, e);
        let k = choose|k: int|
            0 <= k < before.len() && #[trigger] before[k] == document_entries(
                numbered(files, i),
            )[e];
        assert(all[k] == before[k]);
    } else {
        assert(all[before.len() + e] == document_entries(numbered(files, i))[e]);
    }
}

/// Every object of every input, but for catalogs, page trees, pages and outlines, is
/// in the document behind the joined file, under the number that it has after the
/// inputs before it. So every image and font that a page shows is there.
pub proof fn every_object_of_every_input_is_kept(
    merged: MergedPdf,
    inputs: Seq<InputView>,
    files: Seq<OpenedView>,
    document: Document,
    i: int,
    e: int,
)
    requires
        is_made_of(merged, inputs, files, document),
        0 <= i < inputs.len(),
        0 <= e < document_entries(numbered(files, i)).len(),
        !is_made_anew(document_entries(numbered(files, i))[e].1),
        !is_page_id(
            pages_of_files(files, files.len() as int),
            document_entries(numbered(files, i))[e].0,
        ),
    ensures
        ({
            let (id, object) = document_entries(numbered(files, i))[e];
            &&& document_objects(document).contains_key(id)
            &&& document_objects(document)[id] == object
        }),
{
    let count = files.len() as int;
    lemma_object_of_file(files, count, i, e);
    let objects = objects_of_files(files, count);
    let k = choose|k: int|
        0 <= k < objects.len() && #[trigger] objects[k] == document_entries(numbered(files, i))[e];
    every_other_object_is_kept(document, pages_of_files(files, count), objects, k);
}

/// The dictionary under an id.
pub open spec fn dictionary_at(document: Document, id: ObjectId) -> Option<Dictionary> {
    if document_object(document, id) is Ok && dictionary_of(document_object(document, id)->Ok_0) is Ok {
        Some(dictionary_of(document_object(document, id)->Ok_0)->Ok_0)
    } else {
        None
    }
}

/// Whether a document claims, anywhere, no more pages than a list can have: under
/// every dictionary, the children claim fewer than `limit` pages together.
pub open spec fn claims_at_most(document: Document, limit: nat) -> bool {
    forall|id: ObjectId| #[trigger] claimed(document, children_at(document, id)) <= limit
}

/// What stands in the `Kids` of the dictionary under an id.
pub open spec fn children_at(document: Document, id: ObjectId) -> Seq<Object> {
    match dictionary_at(document, id) {
        Some(dictionary) => match dereferenced_entry(document, dictionary, encode_utf8("Kids"@)) {
            Some(kids) => match array_items(kids) {
                Some(items) => items,
                None => Seq::empty(),
            },
            None => Seq::empty(),
        },
        None => Seq::empty(),
    }
}

/// The pages that children claim: a page tree node what its `Count` says, and
/// anything else one.
pub open spec fn claimed(document: Document, kids: Seq<Object>) -> nat
    decreases kids.len(),
{
    if kids.len() == 0 {
        0
    } else {
        claimed(document, kids.drop_last()) + claimed_by(document, kids.last())
    }
}

/// The pages that a child claims.
pub open spec fn claimed_by(document: Document, kid: Object) -> nat {
    match reference_target(kid) {
        None => 1,
        Some(id) => match dictionary_at(document, id) {
            None => 1,
            Some(dictionary) => if dictionary_type(dictionary) == Some(encode_utf8("Pages"@)) {
                match dereferenced_entry(document, dictionary, encode_utf8("Count"@)) {
                    None => 0,
                    Some(count) => match integer_value(count) {
                        Some(claim) => if claim > 0 {
                            claim as nat
                        } else {
                            0
                        },
                        None => 0,
                    },
                }
            } else {
                1
            },
        },
    }
}

proof fn lemma_claimed(document: Document, kids: Seq<Object>)
    ensures
        claimed(document, kids) == expected_of_all(document, kids),
    decreases kids.len(),
{
    if kids.len() > 0 {
        lemma_claimed(document, kids.drop_last());
    }
}

/// Files are not turned away for their size, unless they hold more objects than can
/// be numbered or claim more pages than can be listed.
pub proof fn ordinary_files_are_not_too_large(document: Document, start: u32)
    requires
        start >= 1,
        document_entries(document).len() <= 0x7fff_ffff,
        start + document_entries(document).len() <= 0xffff_ffff,
        claims_at_most(document, 0x7fff_ffff),
        usize::MAX >= 0xffff_ffff_ffff_ffff,
    ensures
        can_renumber(document, start),
{
    assert forall|id: ObjectId| #[trigger] is_reached(document, id) implies has_room_for(
        document,
        children(document, id),
    ) by {
        assert(children(document, id) == children_at(document, id));
        lemma_claimed(document, children_at(document, id));
        assert(claimed(document, children_at(document, id)) <= 0x7fff_ffff);
    }
}

/// Where a document is taken for renumbering, no node that its page tree reaches has
/// children that claim more pages than can be listed.
pub proof fn taken_files_claim_no_more_than_can_be_listed(
    document: Document,
    start: u32,
    path: Seq<ObjectId>,
)
    requires
        can_renumber(document, start),
        path.len() > 0,
        document_root(document) is Some,
        dictionary_at(document, document_root(document)->0) is Some,
        ({
            let catalog = dictionary_entries(dictionary_at(document, document_root(document)->0)->0);
            &&& catalog.contains_key(encode_utf8("Pages"@))
            &&& reference_target(catalog[encode_utf8("Pages"@)]) == Some(path[0])
        }),
        forall|i: int|
            0 < i < path.len() ==> dictionary_at(document, #[trigger] path[i]) is Some
                && dictionary_type(dictionary_at(document, path[i])->0) == Some(
                encode_utf8("Pages"@),
            ) && exists|k: int|
                0 <= k < children_at(document, path[i - 1]).len() && reference_target(
                    #[trigger] children_at(document, path[i - 1])[k],
                ) == Some(path[i]),
    ensures
        claimed(document, children_at(document, path.last())) <= 0x7fff_ffff,
        document_entries(document).len() <= 0x7fff_ffff,
        start + document_entries(document).len() <= 0xffff_ffff,
{
    assert(is_path(document, path)) by {
        assert forall|i: int| 0 < i < path.len() implies is_child(
            document,
            path[i - 1],
            #[trigger] path[i],
        ) by {
            assert(children(document, path[i - 1]) == children_at(document, path[i - 1]));
            let k = choose|k: int|
                0 <= k < children_at(document, path[i - 1]).len() && reference_target(
                    #[trigger] children_at(document, path[i - 1])[k],
                ) == Some(path[i]);
            assert(reference_target(children(document, path[i - 1])[k]) == Some(path[i]));
        }
    }
    assert(is_reached(document, path.last()));
    lemma_claimed(document, children_at(document, path.last()));
    assert(children(document, path.last()) == children_at(document, path.last()));
}

/// Reading is done where every file could be opened, fits, has pages, and has all of
/// them.
pub proof fn readable_files_are_read(files: Seq<OpenedView>, count: int)
    requires
        0 <= count <= files.len(),
        forall|i: int|
            0 <= i < files.len() ==> {
                &&& (#[trigger] files[i]).document is Ok
                &&& can_renumber(files[i].document->Ok_0, first_number(files, i))
                &&& document_pages(numbered(files, i)).len() > 0
                &&& forall|p: int|
                    0 <= p < document_pages(numbered(files, i)).len() ==> document_object(
                        numbered(files, i),
                        #[trigger] document_pages(numbered(files, i))[p],
                    ) is Ok
            },
    ensures
        reading(files.take(count)) is Done,
        reading(files.take(count))->Done_0.next_id == first_number(files, count),
    decreases count,
{
    let part = files.take(count);
    if count > 0 {
        readable_files_are_read(files, count - 1);
        assert(part.drop_last() =~= files.take(count - 1));
        assert(part.last() == files[count - 1]);
        let document = numbered(files, count - 1);
        lemma_all_pages_found(document, document_pages(document));
    }
}

proof fn lemma_all_pages_found(document: Document, pages: Seq<ObjectId>)
    requires
        forall|p: int|
            0 <= p < pages.len() ==> document_object(document, #[trigger] pages[p]) is Ok,
    ensures
        page_objects(document, pages) is Ok,
    decreases pages.len(),
{
    if pages.len() > 0 {
        assert(document_object(document, pages[pages.len() - 1]) is Ok);
        assert forall|p: int| 0 <= p < pages.drop_last().len() implies document_object(
            document,
            #[trigger] pages.drop_last()[p],
        ) is Ok by {
            assert(pages.drop_last()[p] == pages[p]);
        }
        lemma_all_pages_found(document, pages.drop_last());
    }
}

/// Pages and objects make a joined document exactly where there is a page tree node
/// and a catalog among them, the last catalog is a dictionary, and every page is.
pub proof fn complete_files_can_be_joined(
    pages: Seq<(ObjectId, Object)>,
    objects: Seq<(ObjectId, Object)>,
    tree: int,
    catalog: int,
)
    requires
        0 <= tree < objects.len(),
        dictionary_of(objects[tree].1) is Ok,
        is_called(objects[tree].1, "Pages"@),
        0 <= catalog < objects.len(),
        dictionary_of(objects[catalog].1) is Ok,
        is_called(objects[catalog].1, "Catalog"@),
        forall|i: int|
            catalog < i < objects.len() ==> !is_called((#[trigger] objects[i]).1, "Catalog"@),
    ensures
        join_fault(pages, objects) is None <==> forall|p: int|
            0 <= p < pages.len() ==> dictionary_of((#[trigger] pages[p]).1) is Ok,
{
    lemma_tree_found(objects, tree);
    lemma_last_catalog(objects, catalog);
    lemma_page_fault(pages);
}

proof fn lemma_page_fault(pages: Seq<(ObjectId, Object)>)
    ensures
        page_fault(pages) is None <==> forall|p: int|
            0 <= p < pages.len() ==> dictionary_of((#[trigger] pages[p]).1) is Ok,
    decreases pages.len(),
{
    if pages.len() > 0 {
        let front = pages.drop_last();
        lemma_page_fault(front);
        if page_fault(front) is None && dictionary_of(pages.last().1) is Ok {
            assert forall|p: int| 0 <= p < pages.len() implies dictionary_of(
                (#[trigger] pages[p]).1,
            ) is Ok by {
                if p < front.len() {
                    assert(front[p] == pages[p]);
                }
            }
        }
        if forall|p: int|
            0 <= p < pages.len() ==> dictionary_of((#[trigger] pages[p]).1) is Ok {
            assert(dictionary_of(pages[pages.len() - 1].1) is Ok);
            assert forall|p: int| 0 <= p < front.len() implies dictionary_of(
                (#[trigger] front[p]).1,
            ) is Ok by {
                assert(front[p] == pages[p]);
            }
        }
    }
}

proof fn lemma_tree_found(objects: Seq<(ObjectId, Object)>, tree: int)
    requires
        0 <= tree < objects.len(),
        dictionary_of(objects[tree].1) is Ok,
        is_called(objects[tree].1, "Pages"@),
    ensures
        joined_pages_root(objects) is Some,
    decreases objects.len(),
{
    if tree < objects.len() - 1 {
        assert(objects.drop_last()[tree] == objects[tree]);
        lemma_tree_found(objects.drop_last(), tree);
    } else {
        lemma_names_differ(objects[tree].1);
        lemma_called(objects[tree].1, "Pages"@);
        lemma_called(objects[tree].1, "Catalog"@);
    }
}

proof fn lemma_last_catalog(objects: Seq<(ObjectId, Object)>, last: int)
    requires
        0 <= last < objects.len(),
        is_called(objects[last].1, "Catalog"@),
        forall|i: int|
            last < i < objects.len() ==> !is_called((#[trigger] objects[i]).1, "Catalog"@),
    ensures
        joined_catalog(objects) is Some,
        (joined_catalog(objects)->0).1 == objects[last].1,
    decreases objects.len(),
{
    lemma_called(objects.last().1, "Catalog"@);
    if last < objects.len() - 1 {
        let front = objects.drop_last();
        assert(!is_called(objects[objects.len() - 1].1, "Catalog"@));
        assert(front[last] == objects[last]);
        assert forall|i: int| last < i < front.len() implies !is_called(
            (#[trigger] front[i]).1,
            "Catalog"@,
        ) by {
            assert(front[i] == objects[i]);
        }
        lemma_last_catalog(front, last);
    }
}

/// Files that were read, can be joined, fit and can be written are joined: nothing
/// else keeps them from it.
pub proof fn files_that_can_be_joined_are_joined(
    result: Option<Result<MergedPdf, String>>,
    files: Seq<OpenedView>,
    output_path: PathBuf,
    temp_path: PathBuf,
)
    requires
        is_joining_result(result, files, output_path, temp_path),
        reading(files) is Done,
        join_fault(reading(files)->Done_0.pages, reading(files)->Done_0.objects) is None,
        forall|document: Document| #[trigger]
            is_joined(
                document,
                reading(files)->Done_0.pages,
                reading(files)->Done_0.objects,
            ) ==> can_renumber(document, 1) && saved_document(
                renumbered_document(document, 1),
            ) is Ok,
    ensures
        result is Some,
        result->0 is Ok,
        result->0->Ok_0.summary.total_pages == reading(files)->Done_0.pages.len(),
        result->0->Ok_0.summary.input_count == files.len(),
        result->0->Ok_0.summary.output_path == output_path,
{
}

/// The dictionaries of the page tree nodes among objects, in their order.
pub open spec fn tree_nodes(objects: Seq<(ObjectId, Object)>) -> Seq<Dictionary>
    decreases objects.len(),
{
    if objects.len() == 0 {
        Seq::empty()
    } else {
        let found = tree_nodes(objects.drop_last());
        let object = objects.last().1;
        if is_called(object, "Pages"@) && dictionary_of(object) is Ok {
            found.push(dictionary_of(object)->Ok_0)
        } else {
            found
        }
    }
}

/// What becomes of dictionaries where each takes in what was made of those before it.
pub open spec fn taken_in(nodes: Seq<Dictionary>) -> Dictionary
    recommends
        nodes.len() > 0,
    decreases nodes.len(),
{
    if nodes.len() <= 1 {
        nodes[0]
    } else {
        extended_dictionary(nodes.last(), taken_in(nodes.drop_last()))
    }
}

proof fn lemma_tree_nodes(objects: Seq<(ObjectId, Object)>)
    ensures
        joined_pages_root(objects) is Some <==> tree_nodes(objects).len() > 0,
        joined_pages_root(objects) is Some ==> (joined_pages_root(objects)->0).1 == taken_in(
            tree_nodes(objects),
        ),
    decreases objects.len(),
{
    if objects.len() > 0 {
        lemma_tree_nodes(objects.drop_last());
        lemma_names_differ(objects.last().1);
        lemma_called(objects.last().1, "Pages"@);
        lemma_called(objects.last().1, "Catalog"@);
        let found = tree_nodes(objects.drop_last());
        let all = tree_nodes(objects);
        if all.len() > found.len() {
            assert(all.drop_last() =~= found);
        }
    }
}

/// The page tree keeps what the page trees of the files have, such as what their
/// pages inherit, but for their children and their counts.
pub proof fn the_page_tree_keeps_what_pages_inherit(
    document: Document,
    pages: Seq<(ObjectId, Object)>,
    objects: Seq<(ObjectId, Object)>,
    key: Seq<u8>,
)
    requires
        is_joined(document, pages, objects),
        ascending(objects),
        key != encode_utf8("Kids"@),
        key != encode_utf8("Count"@),
    ensures
        agree_on(
            entries_of(document_objects(document)[tree_id(document)]),
            dictionary_entries(taken_in(tree_nodes(objects))),
            key,
        ),
{
    the_page_tree_lists_all_pages_in_order(document, pages, objects);
    lemma_tree_nodes(objects);
    let (pages_id, root) = joined_pages_root(objects)->0;
    let (catalog_id, catalog) = joined_catalog(objects)->0;
    let (leaves, tree, top) = choose|leaves: Map<ObjectId, Object>, tree: Object, top: Object|
        {
            &&& #[trigger] holds_pages(leaves, pages, kept_objects(objects), pages_id)
            &&& #[trigger] is_joined_root(tree, root, pages)
            &&& #[trigger] is_joined_catalog(top, catalog, pages_id)
            &&& document_objects(document) == leaves.insert(pages_id, tree).insert(catalog_id, top)
        };
    lemma_root_is_a_tree_node(objects);
    let j = choose|j: int|
        0 <= j < objects.len() && (#[trigger] objects[j]).0 == pages_id && is_called(
            objects[j].1,
            "Pages"@,
        );
    lemma_new_ids(objects, j);
    lemma_names_differ(objects[j].1);
    assert(document_objects(document)[catalog_id] == top);
    assert(document_objects(document)[pages_id] == tree);
    assert(tree_id(document) == pages_id);
    let kids = encode_utf8("Kids"@);
    let count = encode_utf8("Count"@);
    let entries = entries_of(tree);
    let source = dictionary_entries(root);
    let counted = source.insert(count, entries[count]);
    assert(entries.remove(kids) == counted.remove(kids));
    assert(entries.remove(kids).contains_key(key) == entries.contains_key(key));
    assert(counted.remove(kids).contains_key(key) == source.contains_key(key));
    if entries.contains_key(key) {
        assert(entries.remove(kids)[key] == counted.remove(kids)[key]);
    }
}

/// Saving goes from step to step until the new file is in its place: what stands in
/// the way is removed first, and nothing is done twice.
pub proof fn saving_reaches_its_end(temp: PathBuf, output: PathBuf)
    ensures
        save_progress(SaveStep::CheckTemp, StepOutcome::Done, temp, output) == SaveView::Next(
            SaveStep::RemoveTemp,
        ),
        save_progress(SaveStep::CheckTemp, StepOutcome::Absent, temp, output) == SaveView::Next(
            SaveStep::WriteTemp,
        ),
        save_progress(SaveStep::RemoveTemp, StepOutcome::Done, temp, output) == SaveView::Next(
            SaveStep::WriteTemp,
        ),
        save_progress(SaveStep::WriteTemp, StepOutcome::Done, temp, output) == SaveView::Next(
            SaveStep::CheckOutput,
        ),
        save_progress(SaveStep::CheckOutput, StepOutcome::Done, temp, output) == SaveView::Next(
            SaveStep::RemoveOutput,
        ),
        save_progress(SaveStep::CheckOutput, StepOutcome::Absent, temp, output) == SaveView::Next(
            SaveStep::MoveIntoPlace,
        ),
        save_progress(SaveStep::RemoveOutput, StepOutcome::Done, temp, output) == SaveView::Next(
            SaveStep::MoveIntoPlace,
        ),
        save_progress(SaveStep::MoveIntoPlace, StepOutcome::Done, temp, output) is Saved,
{
}

/// The temporary name is never the name of the file itself.
pub proof fn temporary_names_are_other_names(name: Seq<char>)
    ensures
        temporary_name(Some(name)) != name,
        temporary_name(Some(name)).len() > name.len(),
{
    reveal_strlit(".printltools-");
    reveal_strlit(".tmp");
    assert(temporary_name(Some(name)).len() == 13 + name.len() + 4);
}

/// Whether something that was found in opened files keeps them from being joined.
pub open spec fn is_kept_from_joining(
    files: Seq<OpenedView>,
    result: Option<Result<MergedPdf, String>>,
    temp_path: PathBuf,
) -> bool {
    match reading(files) {
        Reading::TooLarge => result is None,
        Reading::Failed(error) => result is Some && result->0 is Err && result->0->Err_0@ == error,
        Reading::Done(read) => match join_fault(read.pages, read.objects) {
            Some(error) => result is Some && result->0 is Err && result->0->Err_0@ == error,
            None => exists|document: Document| #[trigger]
                is_joined(document, read.pages, read.objects) && match saved_document(
                    renumbered_document(document, 1),
                ) {
                    _ if !can_renumber(document, 1) => result is None,
                    Err(error) => result is Some && result->0 is Err && result->0->Err_0@
                        == "Could not write temporary PDF "@ + shown_path(temp_path) + ": "@
                        + error,
                    Ok(_) => false,
                },
        },
    }
}

/// Joining fails only for a reason: the selection is refused, a file cannot be read,
/// the files make no document, it is too large, or it cannot be written; and the
/// reason is the one that is given.
pub proof fn joining_fails_only_for_a_reason(
    result: Option<Result<MergedPdf, String>>,
    inputs: Seq<InputView>,
    output_path: PathBuf,
    temp_path: PathBuf,
)
    requires
        is_merge_result(result, inputs, output_path, temp_path),
        result is None || result->0 is Err,
    ensures
        (result is Some && refusal(sources_of(inputs)) == Some(result->0->Err_0@)) || exists|
            files: Seq<OpenedView>,
        | #[trigger] are_read(inputs, files) && is_kept_from_joining(files, result, temp_path),
{
    if refusal(sources_of(inputs)) is None {
        let files = choose|files: Seq<OpenedView>| #[trigger]
            are_read(inputs, files) && is_joining_result(result, files, output_path, temp_path);
        assert(is_kept_from_joining(files, result, temp_path));
    }
}

/// The files that are read are the inputs, opened as what they hold, in their order.
pub proof fn the_inputs_are_what_is_read(
    inputs: Seq<InputView>,
    files: Seq<OpenedView>,
    i: int,
)
    requires
        are_read(inputs, files),
        0 <= i < files.len(),
    ensures
        files.len() <= inputs.len(),
        reading(files) is Done ==> files.len() == inputs.len(),
        files[i].path == inputs[i].source.path,
        opens_as(inputs[i].content, files[i].document),
        sources_of(inputs).len() == inputs.len(),
        sources_of(inputs)[i] == inputs[i].source,
{
}

} // verus!
