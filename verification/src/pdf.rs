//! Joining PDF files into one.

pub mod documents;
pub mod page_tree;
pub mod saving;

use crate::bytes::same_bytes;
use crate::pdf::documents::{
    array_items, array_object, as_dictionary, ascending, bytes_result, dictionary_entries, dictionary_object, dictionary_of, document_entries,
    document_max_id, document_object, document_objects, document_pages, document_root,
    document_version, extend_dictionary, extended_dictionary, find_object, insert_object,
    integer_object, integer_value, max_id, new_document, object_type,
    open_document, opens_as, optional_bytes, page_ids, reference_object, reference_target,
    remove_entry, renumber, renumbered_document, save_document, saved_document, set_entry,
    set_root, take_entries, type_of_object, ObjectId,
};
use crate::pdf::page_tree::{can_renumber, check_renumber};
use crate::paths::shown_path;
use crate::results::display_path;
use crate::text::{decimal, decimal_text, error_text, optional_text};
use lopdf::{Dictionary, Document, Object};
use std::path::PathBuf;
use vstd::prelude::*;
use vstd::string::*;
use vstd::utf8::encode_utf8;

verus! {

/// What joining gave.
#[derive(Debug, Clone, PartialEq, Eq)]
pub struct PdfMergeSummary {
    pub output_path: PathBuf,
    pub input_count: usize,
    pub total_pages: usize,
}

/// A file that was selected to be joined.
#[derive(Debug)]
pub struct PdfSource {
    pub path: PathBuf,
    /// Whether the path leads to the file that is to be written.
    pub is_output: bool,
}

/// A file that is to be joined.
#[derive(Debug)]
pub struct PdfInput {
    pub source: PdfSource,
    /// The bytes of the file, or what lopdf says of a file that cannot be read.
    pub content: Result<Vec<u8>, String>,
}

/// A joined file that is ready to be written.
#[derive(Debug, Clone)]
pub struct MergedPdf {
    pub summary: PdfMergeSummary,
    pub bytes: Vec<u8>,
}

/// A file that is to be joined, as plain values.
pub ghost struct InputView {
    pub source: PdfSource,
    pub content: Result<Seq<u8>, Seq<char>>,
}

impl View for PdfInput {
    type V = InputView;

    open spec fn view(&self) -> InputView {
        InputView { source: self.source, content: bytes_result(self.content) }
    }
}

/// The views of a list of inputs.
pub open spec fn input_views(inputs: Seq<PdfInput>) -> Seq<InputView> {
    inputs.map_values(|input: PdfInput| input@)
}

/// A file that was opened: its document, or why there is none.
pub ghost struct OpenedView {
    pub path: PathBuf,
    pub document: Result<Document, Seq<char>>,
}

/// Whether `files` are what may come of opening the first inputs.
pub open spec fn are_opened(inputs: Seq<InputView>, files: Seq<OpenedView>) -> bool {
    &&& files.len() <= inputs.len()
    &&& forall|i: int|
        0 <= i < files.len() ==> (#[trigger] files[i]).path == inputs[i].source.path && opens_as(
            inputs[i].content,
            files[i].document,
        )
}

/// What was read from the files so far: the pages in their order, all objects,
/// and the number that the next file's objects begin with.
pub ghost struct GatheredView {
    pub next_id: u32,
    pub pages: Seq<(ObjectId, Object)>,
    pub objects: Seq<(ObjectId, Object)>,
}

/// How reading the files ended.
pub ghost enum Reading {
    /// They were read.
    Done(GatheredView),
    /// One of them stops the joining, and this is said of it.
    Failed(Seq<char>),
    /// The objects of one do not fit in the numbers that are left, or its page
    /// tree claims more pages than can be listed.
    TooLarge,
}

/// What was read from the files so far.
pub struct Gathered {
    pub next_id: u32,
    pub pages: Vec<(ObjectId, Object)>,
    pub objects: Vec<(ObjectId, Object)>,
}

impl View for Gathered {
    type V = GatheredView;

    open spec fn view(&self) -> GatheredView {
        GatheredView { next_id: self.next_id, pages: self.pages@, objects: self.objects@ }
    }
}

impl GatheredView {
    /// The ids of the objects ascend and are below the next number.
    pub open spec fn well_formed(self) -> bool {
        &&& self.next_id >= 1
        &&& ascending(self.objects)
        &&& forall|i: int| 0 <= i < self.objects.len() ==> (#[trigger] self.objects[i]).0.0 < self.next_id
    }
}

/// The objects of the pages of a document, first page first. The first page that
/// cannot be read decides the error.
pub open spec fn page_objects(document: Document, pages: Seq<ObjectId>) -> Result<
    Seq<(ObjectId, Object)>,
    Seq<char>,
>
    decreases pages.len(),
{
    if pages.len() == 0 {
        Ok(Seq::empty())
    } else {
        match page_objects(document, pages.drop_last()) {
            Err(error) => Err(error),
            Ok(front) => match document_object(document, pages.last()) {
                Err(error) => Err(error),
                Ok(object) => Ok(front.push((pages.last(), object))),
            },
        }
    }
}

/// What is read once the document of one more file is added.
pub open spec fn with_document(
    gathered: GatheredView,
    document: Document,
    path: PathBuf,
) -> Result<GatheredView, Seq<char>> {
    let numbered = renumbered_document(document, gathered.next_id);
    let pages = document_pages(numbered);
    if pages.len() == 0 {
        Err("No pages found in "@ + shown_path(path))
    } else {
        match page_objects(numbered, pages) {
            Err(error) => Err("Could not read page object in "@ + shown_path(path) + ": "@ + error),
            Ok(found) => Ok(
                GatheredView {
                    next_id: (document_max_id(numbered) + 1) as u32,
                    pages: gathered.pages + found,
                    objects: gathered.objects + document_entries(numbered),
                },
            ),
        }
    }
}

/// What is read once one more file is added.
pub open spec fn with_file(gathered: GatheredView, file: OpenedView) -> Reading {
    match file.document {
        Err(error) => Reading::Failed("Could not read "@ + shown_path(file.path) + ": "@ + error),
        Ok(document) => if !can_renumber(document, gathered.next_id) {
            Reading::TooLarge
        } else {
            match with_document(gathered, document, file.path) {
                Ok(next) => Reading::Done(next),
                Err(error) => Reading::Failed(error),
            }
        },
    }
}

/// What is read from files, in order.
pub open spec fn reading(files: Seq<OpenedView>) -> Reading
    decreases files.len(),
{
    if files.len() == 0 {
        Reading::Done(GatheredView { next_id: 1, pages: Seq::empty(), objects: Seq::empty() })
    } else {
        match reading(files.drop_last()) {
            Reading::Done(gathered) => with_file(gathered, files.last()),
            other => other,
        }
    }
}

/// Whether `files` are what may come of opening the inputs, one after the other
/// until one of them ends the reading.
pub open spec fn are_read(inputs: Seq<InputView>, files: Seq<OpenedView>) -> bool {
    &&& are_opened(inputs, files)
    &&& reading(files) is Done ==> files.len() == inputs.len()
}

/// Adds the document of one more file.
pub fn gather_document(gathered: Gathered, document: Document, path: &PathBuf) -> (result: Result<
    Gathered,
    String,
>)
    requires
        gathered@.well_formed(),
        can_renumber(document, gathered.next_id),
    ensures
        match result {
            Ok(next) => with_document(gathered@, document, *path) == Ok::<GatheredView, Seq<char>>(
                next@,
            ) && next@.well_formed(),
            Err(error) => with_document(gathered@, document, *path) == Err::<
                GatheredView,
                Seq<char>,
            >(error@),
        },
{
    let mut numbered = document;
    renumber(&mut numbered, gathered.next_id);
    let next_id: u32 = max_id(&numbered) + 1;
    let pages = page_ids(&numbered);
    if pages.len() == 0 {
        let mut message = "No pages found in ".to_owned();
        let shown = display_path(path);
        message.append(shown.as_str());
        return Err(message);
    }
    let mut found: Vec<(ObjectId, Object)> = Vec::new();
    assert(pages@.take(0) == Seq::<ObjectId>::empty());
    for i in 0..pages.len()
        invariant
            pages@ == document_pages(numbered),
            numbered == renumbered_document(document, gathered.next_id),
            pages@.len() > 0,
            page_objects(numbered, pages@.take(i as int)) == Ok::<
                Seq<(ObjectId, Object)>,
                Seq<char>,
            >(found@),
    {
        let id = pages[i];
        assert(pages@.take(i + 1).drop_last() == pages@.take(i as int));
        match find_object(&numbered, id) {
            Ok(object) => {
                found.push((id, object));
            },
            Err(error) => {
                proof {
                    lemma_page_error(numbered, pages@, i + 1);
                }
                let mut message = "Could not read page object in ".to_owned();
                let shown = display_path(path);
                message.append(shown.as_str());
                message.append(": ");
                message.append(error.as_str());
                return Err(message);
            },
        }
    }
    assert(pages@.take(pages@.len() as int) == pages@);
    let mut entries = take_entries(numbered);
    let mut next = gathered;
    next.next_id = next_id;
    next.pages.append(&mut found);
    next.objects.append(&mut entries);
    Ok(next)
}

proof fn lemma_page_error(document: Document, pages: Seq<ObjectId>, i: int)
    requires
        0 <= i <= pages.len(),
        page_objects(document, pages.take(i)) is Err,
    ensures
        page_objects(document, pages) == page_objects(document, pages.take(i)),
    decreases pages.len() - i,
{
    if i == pages.len() {
        assert(pages.take(i) == pages);
    } else {
        assert(pages.take(i + 1).drop_last() == pages.take(i));
        lemma_page_error(document, pages, i + 1);
    }
}

/// How reading the files ended, in executable form.
pub enum ReadInputs {
    Done(Gathered),
    Failed(String),
    TooLarge,
}

impl View for ReadInputs {
    type V = Reading;

    open spec fn view(&self) -> Reading {
        match self {
            ReadInputs::Done(gathered) => Reading::Done(gathered@),
            ReadInputs::Failed(error) => Reading::Failed(error@),
            ReadInputs::TooLarge => Reading::TooLarge,
        }
    }
}

proof fn lemma_reading_stops(files: Seq<OpenedView>, i: int)
    requires
        0 <= i <= files.len(),
        !(reading(files.take(i)) is Done),
    ensures
        reading(files) == reading(files.take(i)),
    decreases files.len() - i,
{
    if i == files.len() {
        assert(files.take(i) == files);
    } else {
        assert(files.take(i + 1).drop_last() == files.take(i));
        lemma_reading_stops(files, i + 1);
    }
}

/// Reads files in order. Their objects come out in the ascending order of their
/// ids.
pub fn read_inputs(inputs: &Vec<PdfInput>) -> (result: ReadInputs)
    ensures
        exists|files: Seq<OpenedView>| #[trigger]
            are_read(input_views(inputs@), files) && result@ == reading(files),
        result@ is Done ==> result@->Done_0.well_formed(),
{
    let ghost views = input_views(inputs@);
    let ghost mut files: Seq<OpenedView> = Seq::empty();
    let mut gathered = Gathered { next_id: 1, pages: Vec::new(), objects: Vec::new() };
    for i in 0..inputs.len()
        invariant
            views == input_views(inputs@),
            files.len() == i,
            are_opened(views, files),
            reading(files) == Reading::Done(gathered@),
            gathered@.well_formed(),
    {
        let input = &inputs[i];
        let opened = open_document(&input.content);
        let ghost file = OpenedView { path: input.source.path, document: error_text(opened) };
        proof {
            let before = files;
            files = before.push(file);
            assert(files.drop_last() == before);
            assert(views[i as int] == input@);
            assert forall|k: int| 0 <= k < files.len() implies (#[trigger] files[k]).path
                == views[k].source.path && opens_as(views[k].content, files[k].document) by {
                if k < i {
                    assert(files[k] == before[k]);
                }
            }
        }
        let document = match opened {
            Ok(document) => document,
            Err(error) => {
                let mut message = "Could not read ".to_owned();
                let path = display_path(&input.source.path);
                message.append(path.as_str());
                message.append(": ");
                message.append(error.as_str());
                assert(are_read(views, files));
                return ReadInputs::Failed(message);
            },
        };
        if !check_renumber(&document, gathered.next_id) {
            assert(are_read(views, files));
            return ReadInputs::TooLarge;
        }
        match gather_document(gathered, document, &input.source.path) {
            Ok(next) => {
                gathered = next;
            },
            Err(error) => {
                assert(are_read(views, files));
                return ReadInputs::Failed(error);
            },
        }
    }
    assert(are_read(views, files));
    ReadInputs::Done(gathered)
}

/// Whether an object is of a type.
pub open spec fn has_type(object: Object, name: Seq<char>) -> bool {
    object_type(object) == Some(encode_utf8(name))
}

/// Whether an object goes into the joined document as it is: page tree, pages,
/// catalogs and outlines do not.
pub open spec fn is_kept(object: Object) -> bool {
    !has_type(object, "Catalog"@) && !has_type(object, "Pages"@) && !has_type(object, "Page"@)
        && !has_type(object, "Outlines"@) && !has_type(object, "Outline"@)
}

/// The catalog of the joined document: the id of the first catalog, with the
/// last catalog under it.
pub open spec fn joined_catalog(objects: Seq<(ObjectId, Object)>) -> Option<(ObjectId, Object)>
    decreases objects.len(),
{
    if objects.len() == 0 {
        None
    } else {
        let found = joined_catalog(objects.drop_last());
        if has_type(objects.last().1, "Catalog"@) {
            match found {
                Some((id, _)) => Some((id, objects.last().1)),
                None => Some(objects.last()),
            }
        } else {
            found
        }
    }
}

/// The root of the joined page tree: the id of the first page tree node, with
/// each further node's dictionary taking in what was there before.
pub open spec fn joined_pages_root(objects: Seq<(ObjectId, Object)>) -> Option<
    (ObjectId, Dictionary),
>
    decreases objects.len(),
{
    if objects.len() == 0 {
        None
    } else {
        let found = joined_pages_root(objects.drop_last());
        let object = objects.last().1;
        if !has_type(object, "Catalog"@) && has_type(object, "Pages"@) {
            match dictionary_of(object) {
                Ok(dictionary) => match found {
                    Some((id, before)) => Some((id, extended_dictionary(dictionary, before))),
                    None => Some((objects.last().0, dictionary)),
                },
                Err(_) => found,
            }
        } else {
            found
        }
    }
}

/// The objects that go into the joined document as they are.
pub open spec fn kept_objects(objects: Seq<(ObjectId, Object)>) -> Map<ObjectId, Object>
    decreases objects.len(),
{
    if objects.len() == 0 {
        Map::empty()
    } else {
        let found = kept_objects(objects.drop_last());
        if is_kept(objects.last().1) {
            found.insert(objects.last().0, objects.last().1)
        } else {
            found
        }
    }
}

/// How an id is shown.
pub open spec fn id_text(id: ObjectId) -> Seq<char> {
    "("@ + decimal(id.0 as nat) + ", "@ + decimal(id.1 as nat) + ")"@
}

/// What is said of the first page that is no dictionary.
pub open spec fn page_fault(pages: Seq<(ObjectId, Object)>) -> Option<Seq<char>>
    decreases pages.len(),
{
    if pages.len() == 0 {
        None
    } else {
        match page_fault(pages.drop_last()) {
            Some(error) => Some(error),
            None => match dictionary_of(pages.last().1) {
                Ok(_) => None,
                Err(error) => Some(
                    "Page object "@ + id_text(pages.last().0) + " is not a page dictionary: "@
                        + error,
                ),
            },
        }
    }
}

/// Why pages and objects make no joined document, if they do not.
pub open spec fn join_fault(
    pages: Seq<(ObjectId, Object)>,
    objects: Seq<(ObjectId, Object)>,
) -> Option<Seq<char>> {
    if joined_pages_root(objects) is None {
        Some("Pages root not found in selected PDFs."@)
    } else {
        match joined_catalog(objects) {
            None => Some("Catalog root not found in selected PDFs."@),
            Some((_, catalog)) => match page_fault(pages) {
                Some(error) => Some(error),
                None => match dictionary_of(catalog) {
                    Ok(_) => None,
                    Err(error) => Some("Catalog root is not a dictionary: "@ + error),
                },
            },
        }
    }
}

/// The key of a dictionary entry.
pub open spec fn key(name: Seq<char>) -> Seq<u8> {
    encode_utf8(name)
}

/// Whether `entries` are those of `source` but for the entry `name`.
pub open spec fn same_but_for(
    entries: Map<Seq<u8>, Object>,
    source: Map<Seq<u8>, Object>,
    name: Seq<char>,
) -> bool {
    entries.contains_key(key(name)) && entries.remove(key(name)) == source.remove(key(name))
}

/// Whether `object` is the page `source`, hung under `parent`.
pub open spec fn is_joined_page(object: Object, source: Object, parent: ObjectId) -> bool {
    &&& dictionary_of(object) is Ok
    &&& dictionary_of(source) is Ok
    &&& {
        let entries = dictionary_entries(dictionary_of(object)->Ok_0);
        &&& same_but_for(entries, dictionary_entries(dictionary_of(source)->Ok_0), "Parent"@)
        &&& reference_target(entries[key("Parent"@)]) == Some(parent)
    }
}

/// Whether an object lists references to pages, in their order.
pub open spec fn lists_pages(object: Object, pages: Seq<(ObjectId, Object)>) -> bool {
    match array_items(object) {
        Some(items) => {
            &&& items.len() == pages.len()
            &&& forall|i: int|
                0 <= i < pages.len() ==> reference_target(#[trigger] items[i]) == Some(pages[i].0)
        },
        None => false,
    }
}

/// Whether `object` is the page tree root `root` that holds `pages` and no other.
pub open spec fn is_joined_root(
    object: Object,
    root: Dictionary,
    pages: Seq<(ObjectId, Object)>,
) -> bool {
    &&& dictionary_of(object) is Ok
    &&& {
        let entries = dictionary_entries(dictionary_of(object)->Ok_0);
        let counted = dictionary_entries(root).insert(key("Count"@), entries[key("Count"@)]);
        &&& entries.contains_key(key("Count"@))
        &&& integer_value(entries[key("Count"@)]) == Some(pages.len() as u32 as i64)
        &&& same_but_for(entries, counted, "Kids"@)
        &&& lists_pages(entries[key("Kids"@)], pages)
    }
}

/// Whether `object` is the catalog `source` with the page tree `pages_id` and
/// without outlines.
pub open spec fn is_joined_catalog(object: Object, source: Object, pages_id: ObjectId) -> bool {
    &&& dictionary_of(object) is Ok
    &&& dictionary_of(source) is Ok
    &&& {
        let entries = dictionary_entries(dictionary_of(object)->Ok_0);
        let catalog = dictionary_entries(dictionary_of(source)->Ok_0);
        &&& same_but_for(entries, catalog.remove(key("Outlines"@)), "Pages"@)
        &&& reference_target(entries[key("Pages"@)]) == Some(pages_id)
        &&& !entries.contains_key(key("Outlines"@))
    }
}

/// Whether some page has an id.
pub open spec fn has_page(pages: Seq<(ObjectId, Object)>, id: ObjectId) -> bool {
    exists|i: int| 0 <= i < pages.len() && (#[trigger] pages[i]).0 == id
}

/// Whether no later page has the id of page `i`.
pub open spec fn is_last_of_its_id(pages: Seq<(ObjectId, Object)>, i: int) -> bool {
    forall|j: int| i < j < pages.len() ==> (#[trigger] pages[j]).0 != pages[i].0
}

/// Whether `found` holds the kept objects and the pages, hung under `parent`.
pub open spec fn holds_pages(
    found: Map<ObjectId, Object>,
    pages: Seq<(ObjectId, Object)>,
    kept: Map<ObjectId, Object>,
    parent: ObjectId,
) -> bool {
    &&& forall|id: ObjectId| #[trigger]
        found.contains_key(id) <==> kept.contains_key(id) || has_page(pages, id)
    &&& forall|i: int|
        0 <= i < pages.len() && #[trigger] is_last_of_its_id(pages, i) ==> is_joined_page(
            found[pages[i].0],
            pages[i].1,
            parent,
        )
    &&& forall|id: ObjectId|
        #![trigger found[id]]
        kept.contains_key(id) && !has_page(pages, id) ==> found[id] == kept[id]
}

/// Whether `document` joins `pages`, in their order, with the other `objects`.
pub open spec fn is_joined(
    document: Document,
    pages: Seq<(ObjectId, Object)>,
    objects: Seq<(ObjectId, Object)>,
) -> bool {
    &&& joined_pages_root(objects) is Some
    &&& joined_catalog(objects) is Some
    &&& {
        let (pages_id, root) = joined_pages_root(objects)->0;
        let (catalog_id, catalog) = joined_catalog(objects)->0;
        &&& document_version(document) == "1.5"@
        &&& document_root(document) == Some(catalog_id)
        &&& exists|leaves: Map<ObjectId, Object>, tree: Object, top: Object|
            {
                &&& #[trigger] holds_pages(leaves, pages, kept_objects(objects), pages_id)
                &&& #[trigger] is_joined_root(tree, root, pages)
                &&& #[trigger] is_joined_catalog(top, catalog, pages_id)
                &&& document_objects(document) == leaves.insert(pages_id, tree).insert(
                    catalog_id,
                    top,
                )
            }
    }
}

fn type_is(name: &Option<Vec<u8>>, text: &str) -> (same: bool)
    ensures
        same == (optional_bytes(*name) == Some(encode_utf8(text@))),
{
    match name {
        Some(bytes) => same_bytes(bytes.as_slice(), text.as_bytes()),
        None => false,
    }
}

fn show_id(id: ObjectId) -> (text: String)
    ensures
        text@ == id_text(id),
{
    let number = decimal_text(id.0 as u128);
    let generation = decimal_text(id.1 as u128);
    let mut text = "(".to_owned();
    text.append(number.as_str());
    text.append(", ");
    text.append(generation.as_str());
    text.append(")");
    text
}

/// The objects of the files, sorted by what becomes of them.
struct Sorted {
    catalog: Option<(ObjectId, Object)>,
    root: Option<(ObjectId, Dictionary)>,
    document: Document,
}

/// Puts the kept objects into a new document and picks the catalog and the page
/// tree root.
fn sort_objects(objects: Vec<(ObjectId, Object)>) -> (sorted: Sorted)
    ensures
        sorted.catalog == joined_catalog(objects@),
        sorted.root == joined_pages_root(objects@),
        document_objects(sorted.document) == kept_objects(objects@),
        document_version(sorted.document) == "1.5"@,
{
    let mut document = new_document("1.5");
    let mut catalog: Option<(ObjectId, Object)> = None;
    let mut root: Option<(ObjectId, Dictionary)> = None;
    assert(objects@.take(0) == Seq::<(ObjectId, Object)>::empty());
    for entry in it: objects
        invariant
            it.seq() == objects@,
            catalog == joined_catalog(objects@.take(it.index())),
            root == joined_pages_root(objects@.take(it.index())),
            document_objects(document) == kept_objects(objects@.take(it.index())),
            document_version(document) == "1.5"@,
    {
        let ghost part = objects@.take(it.index() + 1);
        assert(part.drop_last() == objects@.take(it.index()));
        assert(part.last() == entry);
        let (id, object) = entry;
        let name = type_of_object(&object);
        if type_is(&name, "Catalog") {
            let first_id = match &catalog {
                Some((first_id, _)) => *first_id,
                None => id,
            };
            catalog = Some((first_id, object));
        } else if type_is(&name, "Pages") {
            match as_dictionary(&object) {
                Ok(dictionary) => {
                    root =
                    match root {
                        Some((first_id, before)) => {
                            let mut dictionary = dictionary;
                            extend_dictionary(&mut dictionary, &before);
                            Some((first_id, dictionary))
                        },
                        None => Some((id, dictionary)),
                    };
                },
                Err(_) => {},
            }
        } else if !(type_is(&name, "Page") || type_is(&name, "Outlines") || type_is(
            &name,
            "Outline",
        )) {
            insert_object(&mut document, id, object);
        }
    }
    assert(objects@.take(objects@.len() as int) == objects@);
    Sorted { catalog, root, document }
}

proof fn lemma_page_fault_stays(pages: Seq<(ObjectId, Object)>, i: int)
    requires
        0 <= i <= pages.len(),
        page_fault(pages.take(i)) is Some,
    ensures
        page_fault(pages) == page_fault(pages.take(i)),
    decreases pages.len() - i,
{
    if i == pages.len() {
        assert(pages.take(i) == pages);
    } else {
        assert(pages.take(i + 1).drop_last() == pages.take(i));
        lemma_page_fault_stays(pages, i + 1);
    }
}

proof fn lemma_hang_page(
    before: Map<ObjectId, Object>,
    pages: Seq<(ObjectId, Object)>,
    kept: Map<ObjectId, Object>,
    parent: ObjectId,
    page: (ObjectId, Object),
    object: Object,
)
    requires
        holds_pages(before, pages, kept, parent),
        is_joined_page(object, page.1, parent),
    ensures
        holds_pages(before.insert(page.0, object), pages.push(page), kept, parent),
{
    let found = before.insert(page.0, object);
    let all = pages.push(page);
    assert(all[pages.len() as int] == page);
    assert forall|id: ObjectId| #[trigger] has_page(all, id) == (has_page(pages, id) || id
        == page.0) by {
        if has_page(pages, id) {
            let i = choose|i: int| 0 <= i < pages.len() && (#[trigger] pages[i]).0 == id;
            assert(all[i].0 == id);
        }
        if has_page(all, id) {
            let i = choose|i: int| 0 <= i < all.len() && (#[trigger] all[i]).0 == id;
            if i < pages.len() {
                assert(pages[i].0 == id);
            }
        }
    }
    assert forall|i: int|
        0 <= i < all.len() && #[trigger] is_last_of_its_id(all, i) implies is_joined_page(
        found[all[i].0],
        all[i].1,
        parent,
    ) by {
        if i < pages.len() {
            assert(all[pages.len() as int].0 != all[i].0);
            assert forall|j: int| i < j < pages.len() implies (#[trigger] pages[j]).0
                != pages[i].0 by {
                assert(all[j].0 != all[i].0);
            }
            assert(is_last_of_its_id(pages, i));
        }
    }
}

/// Hangs the pages under the page tree root.
fn hang_pages(
    document: &mut Document,
    pages: &Vec<(ObjectId, Object)>,
    parent: ObjectId,
) -> (result: Result<(), String>)
    ensures
        document_version(*final(document)) == document_version(*old(document)),
        match result {
            Ok(_) => page_fault(pages@) is None && holds_pages(
                document_objects(*final(document)),
                pages@,
                document_objects(*old(document)),
                parent,
            ),
            Err(error) => page_fault(pages@) == Some(error@),
        },
{
    let ghost kept = document_objects(*document);
    assert(pages@.take(0) == Seq::<(ObjectId, Object)>::empty());
    for i in 0..pages.len()
        invariant
            kept == document_objects(*old(document)),
            document_version(*document) == document_version(*old(document)),
            page_fault(pages@.take(i as int)) is None,
            holds_pages(document_objects(*document), pages@.take(i as int), kept, parent),
    {
        let ghost part = pages@.take(i as int);
        let ghost before = document_objects(*document);
        assert(pages@.take(i + 1).drop_last() == part);
        assert(pages@.take(i + 1) == part.push(pages@[i as int]));
        let page = &pages[i];
        match as_dictionary(&page.1) {
            Err(error) => {
                let id = show_id(page.0);
                let mut message = "Page object ".to_owned();
                message.append(id.as_str());
                message.append(" is not a page dictionary: ");
                message.append(error.as_str());
                proof {
                    lemma_page_fault_stays(pages@, i + 1);
                }
                return Err(message);
            },
            Ok(dictionary) => {
                let mut dictionary = dictionary;
                let ghost source = dictionary_entries(dictionary);
                set_entry(&mut dictionary, "Parent".as_bytes(), reference_object(parent));
                assert(dictionary_entries(dictionary).remove(key("Parent"@)) == source.remove(
                    key("Parent"@),
                ));
                let object = dictionary_object(dictionary);
                assert(is_joined_page(object, page.1, parent));
                proof {
                    lemma_hang_page(before, part, kept, parent, *page, object);
                }
                insert_object(document, page.0, object);
            },
        }
    }
    assert(pages@.take(pages@.len() as int) == pages@);
    Ok(())
}

/// Makes the page tree root of the joined document.
fn make_root(root: Dictionary, pages: &Vec<(ObjectId, Object)>) -> (object: Object)
    ensures
        is_joined_root(object, root, pages@),
{
    let mut dictionary = root;
    let total: usize = pages.len();
    #[verifier::truncate]
    let count: u32 = total as u32;
    set_entry(&mut dictionary, "Count".as_bytes(), integer_object(count));
    let ghost counted = dictionary_entries(dictionary);
    let mut kids: Vec<Object> = Vec::new();
    for i in 0..pages.len()
        invariant
            kids@.len() == i,
            forall|j: int|
                0 <= j < i ==> reference_target(#[trigger] kids@[j]) == Some(pages@[j].0),
    {
        kids.push(reference_object(pages[i].0));
    }
    set_entry(&mut dictionary, "Kids".as_bytes(), array_object(kids));
    proof {
        let entries = dictionary_entries(dictionary);
        lemma_keys_differ();
        assert(entries[key("Count"@)] == counted[key("Count"@)]);
        assert(dictionary_entries(root).insert(key("Count"@), entries[key("Count"@)])
            == counted);
        assert(entries.remove(key("Kids"@)) == counted.remove(key("Kids"@)));
    }
    dictionary_object(dictionary)
}

proof fn lemma_keys_differ()
    ensures
        key("Count"@) != key("Kids"@),
        key("Pages"@) != key("Outlines"@),
{
    reveal_strlit("Count");
    reveal_strlit("Kids");
    reveal_strlit("Pages");
    reveal_strlit("Outlines");
    assert("Count"@[0] == 'C' && "Kids"@[0] == 'K');
    assert("Pages"@[0] == 'P' && "Outlines"@[0] == 'O');
    vstd::utf8::encode_utf8_decode_utf8("Count"@);
    vstd::utf8::encode_utf8_decode_utf8("Kids"@);
    vstd::utf8::encode_utf8_decode_utf8("Pages"@);
    vstd::utf8::encode_utf8_decode_utf8("Outlines"@);
}

/// Makes the catalog of the joined document.
fn make_catalog(source: &Object, pages_id: ObjectId) -> (result: Result<Object, String>)
    ensures
        match result {
            Ok(object) => is_joined_catalog(object, *source, pages_id),
            Err(error) => match dictionary_of(*source) {
                Ok(_) => false,
                Err(reason) => error@ == "Catalog root is not a dictionary: "@ + reason,
            },
        },
{
    match as_dictionary(source) {
        Err(error) => {
            let mut message = "Catalog root is not a dictionary: ".to_owned();
            message.append(error.as_str());
            Err(message)
        },
        Ok(dictionary) => {
            let mut dictionary = dictionary;
            let ghost catalog = dictionary_entries(dictionary);
            set_entry(&mut dictionary, "Pages".as_bytes(), reference_object(pages_id));
            remove_entry(&mut dictionary, "Outlines".as_bytes());
            proof {
                lemma_keys_differ();
                assert(dictionary_entries(dictionary).remove(key("Pages"@)) == catalog.remove(
                    key("Outlines"@),
                ).remove(key("Pages"@)));
            }
            Ok(dictionary_object(dictionary))
        },
    }
}

/// Joins pages, in their order, and the other objects of their files into one
/// document.
pub fn join_documents(
    pages: &Vec<(ObjectId, Object)>,
    objects: Vec<(ObjectId, Object)>,
) -> (result: Result<Document, String>)
    ensures
        match result {
            Ok(document) => join_fault(pages@, objects@) is None && is_joined(
                document,
                pages@,
                objects@,
            ),
            Err(error) => join_fault(pages@, objects@) == Some(error@),
        },
{
    let sorted = sort_objects(objects);
    let ghost kept = document_objects(sorted.document);
    let mut document = sorted.document;
    let (pages_id, root) = match sorted.root {
        Some(found) => found,
        None => return Err("Pages root not found in selected PDFs.".to_owned()),
    };
    let (catalog_id, catalog) = match sorted.catalog {
        Some(found) => found,
        None => return Err("Catalog root not found in selected PDFs.".to_owned()),
    };
    match hang_pages(&mut document, pages, pages_id) {
        Ok(_) => {},
        Err(error) => return Err(error),
    }
    let ghost leaves = document_objects(document);
    let tree = make_root(root, pages);
    insert_object(&mut document, pages_id, tree);
    let top = match make_catalog(&catalog, pages_id) {
        Ok(top) => top,
        Err(error) => return Err(error),
    };
    insert_object(&mut document, catalog_id, top);
    set_root(&mut document, catalog_id);
    proof {
        assert(holds_pages(leaves, pages@, kept_objects(objects@), pages_id));
        assert(is_joined_root(tree, root, pages@));
        assert(is_joined_catalog(top, catalog, pages_id));
        assert(document_objects(document) == leaves.insert(pages_id, tree).insert(
            catalog_id,
            top,
        ));
    }
    Ok(document)
}

/// What is said when the joined document cannot be written.
pub open spec fn write_fault(temp_path: PathBuf, error: Seq<char>) -> Seq<char> {
    "Could not write temporary PDF "@ + shown_path(temp_path) + ": "@ + error
}

/// Turns the outcome of writing the joined document into the result.
pub fn finish_merge(
    saved: Result<Vec<u8>, String>,
    output_path: &PathBuf,
    temp_path: &PathBuf,
    input_count: usize,
    total_pages: usize,
) -> (result: Result<MergedPdf, String>)
    ensures
        match saved {
            Ok(bytes) => result is Ok && result->Ok_0.bytes@ == bytes@
                && result->Ok_0.summary.output_path == *output_path
                && result->Ok_0.summary.input_count == input_count
                && result->Ok_0.summary.total_pages == total_pages,
            Err(error) => result is Err && result->Err_0@ == write_fault(*temp_path, error@),
        },
{
    match saved {
        Ok(bytes) => Ok(
            MergedPdf {
                summary: PdfMergeSummary {
                    output_path: output_path.clone(),
                    input_count,
                    total_pages,
                },
                bytes,
            },
        ),
        Err(error) => {
            let mut message = "Could not write temporary PDF ".to_owned();
            let path = display_path(temp_path);
            message.append(path.as_str());
            message.append(": ");
            message.append(error.as_str());
            Err(message)
        },
    }
}

/// What is said of the first file that is the file to be written.
pub open spec fn overwrite_fault(sources: Seq<PdfSource>) -> Option<Seq<char>>
    decreases sources.len(),
{
    if sources.len() == 0 {
        None
    } else {
        match overwrite_fault(sources.drop_last()) {
            Some(error) => Some(error),
            None => if sources.last().is_output {
                Some(
                    "Output file cannot be one of the selected source files: "@
                        + shown_path(sources.last().path),
                )
            } else {
                None
            },
        }
    }
}

/// Why a selection of files is not joined, whatever they hold: there are too few, or
/// one of them is the file to be written.
pub open spec fn refusal(sources: Seq<PdfSource>) -> Option<Seq<char>> {
    if sources.len() < 2 {
        Some("Select at least two PDF files to join."@)
    } else {
        overwrite_fault(sources)
    }
}

/// The selected files.
pub open spec fn sources_of(inputs: Seq<InputView>) -> Seq<PdfSource> {
    inputs.map_values(|input: InputView| input.source)
}

/// Whether `result` is what joining opened files gives: nothing where their
/// objects cannot be renumbered, an error where one of the steps fails, and
/// otherwise the written document.
pub open spec fn is_joining_result(
    result: Option<Result<MergedPdf, String>>,
    files: Seq<OpenedView>,
    output_path: PathBuf,
    temp_path: PathBuf,
) -> bool {
    match reading(files) {
        Reading::TooLarge => result is None,
        Reading::Failed(error) => fails_with(result, error),
        Reading::Done(gathered) => gathered.well_formed() && match join_fault(
            gathered.pages,
            gathered.objects,
        ) {
            Some(error) => fails_with(result, error),
            None => exists|document: Document|
                {
                    &&& #[trigger] is_joined(document, gathered.pages, gathered.objects)
                    &&& is_written(
                        result,
                        document,
                        output_path,
                        temp_path,
                        files.len(),
                        gathered.pages.len(),
                    )
                },
        },
    }
}

/// Whether `result` is what joining inputs gives: an error where the selection is
/// refused, and otherwise what joining the opened files gives.
pub open spec fn is_merge_result(
    result: Option<Result<MergedPdf, String>>,
    inputs: Seq<InputView>,
    output_path: PathBuf,
    temp_path: PathBuf,
) -> bool {
    match refusal(sources_of(inputs)) {
        Some(error) => fails_with(result, error),
        None => exists|files: Seq<OpenedView>| #[trigger]
            are_read(inputs, files) && is_joining_result(result, files, output_path, temp_path),
    }
}

/// Whether joining failed, and what is said then.
pub open spec fn fails_with(
    result: Option<Result<MergedPdf, String>>,
    error: Seq<char>,
) -> bool {
    result is Some && result->0 is Err && result->0->Err_0@ == error
}

/// Whether `result` holds the renumbered and written `document`.
pub open spec fn is_written(
    result: Option<Result<MergedPdf, String>>,
    document: Document,
    output_path: PathBuf,
    temp_path: PathBuf,
    input_count: nat,
    total_pages: nat,
) -> bool {
    if !can_renumber(document, 1) {
        result is None
    } else {
        match saved_document(renumbered_document(document, 1)) {
            Err(error) => fails_with(result, write_fault(temp_path, error)),
            Ok(bytes) => {
                &&& result is Some
                &&& result->0 is Ok
                &&& result->0->Ok_0.bytes@ == bytes
                &&& result->0->Ok_0.summary.output_path == output_path
                &&& result->0->Ok_0.summary.input_count == input_count
                &&& result->0->Ok_0.summary.total_pages == total_pages
            },
        }
    }
}

proof fn lemma_overwrite_fault_stays(sources: Seq<PdfSource>, i: int)
    requires
        0 <= i <= sources.len(),
        overwrite_fault(sources.take(i)) is Some,
    ensures
        overwrite_fault(sources) == overwrite_fault(sources.take(i)),
    decreases sources.len() - i,
{
    if i == sources.len() {
        assert(sources.take(i) == sources);
    } else {
        assert(sources.take(i + 1).drop_last() == sources.take(i));
        lemma_overwrite_fault_stays(sources, i + 1);
    }
}

/// Says why a selection of files is not joined, before any of them is read.
pub fn refuse_sources(sources: &Vec<PdfSource>) -> (fault: Option<String>)
    ensures
        optional_text(fault) == refusal(sources@),
{
    if sources.len() < 2 {
        return Some("Select at least two PDF files to join.".to_owned());
    }
    assert(sources@.take(0) == Seq::<PdfSource>::empty());
    for i in 0..sources.len()
        invariant
            sources@.len() >= 2,
            overwrite_fault(sources@.take(i as int)) is None,
    {
        assert(sources@.take(i + 1).drop_last() == sources@.take(i as int));
        if sources[i].is_output {
            let mut message =
                "Output file cannot be one of the selected source files: ".to_owned();
            let path = display_path(&sources[i].path);
            message.append(path.as_str());
            proof {
                lemma_overwrite_fault_stays(sources@, i + 1);
            }
            return Some(message);
        }
    }
    assert(sources@.take(sources@.len() as int) == sources@);
    None
}

/// Copies the selected files out of the inputs.
fn copy_sources(inputs: &Vec<PdfInput>) -> (sources: Vec<PdfSource>)
    ensures
        sources@ == sources_of(input_views(inputs@)),
{
    let mut sources: Vec<PdfSource> = Vec::new();
    for i in 0..inputs.len()
        invariant
            sources@ == sources_of(input_views(inputs@)).take(i as int),
    {
        let source = &inputs[i].source;
        sources.push(PdfSource { path: source.path.clone(), is_output: source.is_output });
        assert(sources@ =~= sources_of(input_views(inputs@)).take(i + 1));
    }
    sources
}

/// Joins PDF files, first file first, into the bytes of one file. There is no
/// result where the objects of the files do not fit in the numbers that a
/// document has, or a page tree claims more pages than can be listed.
pub fn merge_pdfs(inputs: &Vec<PdfInput>, output_path: &PathBuf, temp_path: &PathBuf) -> (result: Option<
    Result<MergedPdf, String>,
>)
    ensures
        is_merge_result(result, input_views(inputs@), *output_path, *temp_path),
{
    let sources = copy_sources(inputs);
    match refuse_sources(&sources) {
        Some(error) => return Some(Err(error)),
        None => {},
    }
    let gathered = match read_inputs(inputs) {
        ReadInputs::TooLarge => return None,
        ReadInputs::Failed(error) => return Some(Err(error)),
        ReadInputs::Done(gathered) => gathered,
    };
    let ghost views = input_views(inputs@);
    let ghost files = choose|files: Seq<OpenedView>| #[trigger]
        are_read(views, files) && reading(files) == Reading::Done(gathered@);
    let total_pages: usize = gathered.pages.len();
    let mut document = match join_documents(&gathered.pages, gathered.objects) {
        Ok(document) => document,
        Err(error) => return Some(Err(error)),
    };
    let ghost joined = document;
    if !check_renumber(&document, 1) {
        assert(is_joined(joined, gathered.pages@, gathered.objects@));
        assert(is_joining_result(None, files, *output_path, *temp_path));
        return None;
    }
    renumber(&mut document, 1);
    let saved = save_document(document);
    let result = Some(finish_merge(saved, output_path, temp_path, inputs.len(), total_pages));
    proof {
        assert(is_joined(joined, gathered.pages@, gathered.objects@));
        assert(is_written(
            result,
            joined,
            *output_path,
            *temp_path,
            files.len(),
            gathered.pages@.len(),
        ));
        assert(is_joining_result(result, files, *output_path, *temp_path));
    }
    result
}

/// The ids of a list of pages.
pub open spec fn ids(pages: Seq<(ObjectId, Object)>) -> Seq<ObjectId> {
    pages.map_values(|page: (ObjectId, Object)| page.0)
}

/// The pages of file `i`, renumbered to follow the files before it.
pub open spec fn file_pages(files: Seq<OpenedView>, i: int) -> Seq<ObjectId> {
    document_pages(
        renumbered_document(
            files[i].document->Ok_0,
            reading(files.take(i))->Done_0.next_id,
        ),
    )
}

/// The pages of the first `count` files, one file after the other.
pub open spec fn pages_in_order(files: Seq<OpenedView>, count: int) -> Seq<ObjectId>
    decreases count,
{
    if count <= 0 {
        Seq::empty()
    } else {
        pages_in_order(files, count - 1) + file_pages(files, count - 1)
    }
}

proof fn lemma_page_ids(document: Document, pages: Seq<ObjectId>)
    requires
        page_objects(document, pages) is Ok,
    ensures
        ids(page_objects(document, pages)->Ok_0) == pages,
    decreases pages.len(),
{
    let found = page_objects(document, pages)->Ok_0;
    if pages.len() > 0 {
        lemma_page_ids(document, pages.drop_last());
        assert(ids(found) =~= ids(page_objects(document, pages.drop_last())->Ok_0).push(
            pages.last(),
        ));
        assert(pages.drop_last().push(pages.last()) == pages);
    } else {
        assert(ids(found) =~= pages);
    }
}

proof fn lemma_reading_prefix(files: Seq<OpenedView>, i: int)
    requires
        0 <= i <= files.len(),
        reading(files) is Done,
    ensures
        reading(files.take(i)) is Done,
{
    if !(reading(files.take(i)) is Done) {
        lemma_reading_stops(files, i);
    }
}

/// The joined document has the pages of every file, in the order of the files
/// and of the pages in each. Every file adds at least one.
pub proof fn joining_keeps_the_order_of_pages(files: Seq<OpenedView>, count: int)
    requires
        0 <= count <= files.len(),
        reading(files) is Done,
    ensures
        reading(files.take(count)) is Done,
        ids(reading(files.take(count))->Done_0.pages) == pages_in_order(files, count),
        reading(files.take(count))->Done_0.pages.len() >= count,
    decreases count,
{
    lemma_reading_prefix(files, count);
    let part = files.take(count);
    if count > 0 {
        joining_keeps_the_order_of_pages(files, count - 1);
        assert(part.drop_last() == files.take(count - 1));
        assert(part.last() == files[count - 1]);
        let before = reading(files.take(count - 1))->Done_0;
        let after = reading(part)->Done_0;
        let document = part.last().document->Ok_0;
        let numbered = renumbered_document(document, before.next_id);
        let found = page_objects(numbered, document_pages(numbered))->Ok_0;
        lemma_page_ids(numbered, document_pages(numbered));
        assert(found.len() == document_pages(numbered).len()) by {
            assert(ids(found).len() == found.len());
        }
        assert(ids(after.pages) =~= ids(before.pages) + ids(found));
    } else {
        assert(ids(reading(part)->Done_0.pages) =~= Seq::empty());
    }
}

} // verus!
