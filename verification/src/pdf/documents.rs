//! PDF documents as lopdf holds them, and what its functions do to them.
//!
//! The parser, the renumbering and the writer are named here by what they give
//! back; their other effects are stated over the objects of a document and the
//! entries of a dictionary.
//!
//! That the memory of the machine holds out is not stated here, nor that its stack
//! does. lopdf walks nested objects by recursion, and reads none of more than a
//! hundred levels.

use crate::pdf::page_tree::can_renumber;
use crate::text::error_text;
use lopdf::{Dictionary, Document, Object};
use vstd::prelude::*;

verus! {

/// The number and the generation of an object.
pub type ObjectId = (u32, u16);

/// A PDF document of lopdf.
#[verifier::external_type_specification]
#[verifier::external_body]
pub struct ExDocument(Document);

/// A PDF object of lopdf.
#[verifier::external_type_specification]
#[verifier::external_body]
pub struct ExObject(Object);

/// A PDF dictionary of lopdf.
#[verifier::external_type_specification]
#[verifier::external_body]
pub struct ExDictionary(Dictionary);

/// The most objects a document may hold to be renumbered: lopdf counts pages,
/// of which it finds no more than there are objects, in an `i32`.
pub const MAX_OBJECTS: usize = 0x7fff_ffff;

/// What `Document::load_mem` makes of the bytes of a file. Of a document that it
/// decrypts, this is one of those that it may give.
pub uninterp spec fn loaded_document(bytes: Seq<u8>) -> Result<Document, Seq<char>>;

/// The objects of a document in ascending order of their ids.
pub uninterp spec fn document_entries(document: Document) -> Seq<(ObjectId, Object)>;

/// The `max_id` of a document.
pub uninterp spec fn document_max_id(document: Document) -> u32;

/// The version that a document is written with.
pub uninterp spec fn document_version(document: Document) -> Seq<char>;

/// The object that the trailer's `Root` refers to.
pub uninterp spec fn document_root(document: Document) -> Option<ObjectId>;

/// What `Document::is_encrypted` says of a document.
pub uninterp spec fn document_encrypted(document: Document) -> bool;

/// Whether `Document::was_encrypted` says that a document was decrypted as it was
/// read.
pub uninterp spec fn document_decrypted(document: Document) -> bool;

/// Whether a document is one of those that `Document::load_mem` may give for the
/// bytes of a file that it decrypts.
pub uninterp spec fn decrypts_to(bytes: Seq<u8>, document: Document) -> bool;

/// What `Dictionary::get_deref` finds in a dictionary of a document under a key.
pub uninterp spec fn dereferenced_entry(
    document: Document,
    dictionary: Dictionary,
    key: Seq<u8>,
) -> Option<Object>;

/// What `Document::renumber_objects_with` makes of a document.
pub uninterp spec fn renumbered_document(document: Document, start: u32) -> Document;

/// The page ids that `Document::page_iter` gives, first page first. These are the
/// pages that `Document::get_pages` numbers.
pub uninterp spec fn document_pages(document: Document) -> Seq<ObjectId>;

/// What `Document::get_object` finds under an id.
pub uninterp spec fn document_object(document: Document, id: ObjectId) -> Result<Object, Seq<char>>;

/// What `Document::save_to` writes.
pub uninterp spec fn saved_document(document: Document) -> Result<Seq<u8>, Seq<char>>;

/// What `Object::as_dict` gives of an object.
pub uninterp spec fn dictionary_of(object: Object) -> Result<Dictionary, Seq<char>>;

/// The dictionary of the stream that `Object::as_stream` gives of an object.
pub uninterp spec fn stream_dictionary(object: Object) -> Option<Dictionary>;

/// The id that `Object::as_reference` gives of an object.
pub uninterp spec fn reference_target(object: Object) -> Option<ObjectId>;

/// The number that `Object::as_i64` gives of an object.
pub uninterp spec fn integer_value(object: Object) -> Option<i64>;

/// The items that `Object::as_array` gives of an object.
pub uninterp spec fn array_items(object: Object) -> Option<Seq<Object>>;

/// The entries of a dictionary.
pub uninterp spec fn dictionary_entries(dictionary: Dictionary) -> Map<Seq<u8>, Object>;

/// What `Dictionary::get_type` gives of a dictionary.
pub uninterp spec fn dictionary_type(dictionary: Dictionary) -> Option<Seq<u8>>;

/// What `Dictionary::extend` makes of a dictionary and one whose entries it
/// takes in.
pub uninterp spec fn extended_dictionary(dictionary: Dictionary, other: Dictionary) -> Dictionary;

/// Whether `a` comes before `b` in the order of ids.
pub open spec fn id_before(a: ObjectId, b: ObjectId) -> bool {
    a.0 < b.0 || (a.0 == b.0 && a.1 < b.1)
}

/// Whether the ids of a list of objects ascend.
pub open spec fn ascending(entries: Seq<(ObjectId, Object)>) -> bool {
    forall|i: int, j: int|
        0 <= i < j < entries.len() ==> id_before((#[trigger] entries[i]).0, (
        #[trigger] entries[j]).0)
}

/// The objects of a list by their ids; of two with one id, the later.
pub open spec fn entries_map(entries: Seq<(ObjectId, Object)>) -> Map<ObjectId, Object>
    decreases entries.len(),
{
    if entries.len() == 0 {
        Map::empty()
    } else {
        entries_map(entries.drop_last()).insert(entries.last().0, entries.last().1)
    }
}

/// The objects of a document by their ids.
pub open spec fn document_objects(document: Document) -> Map<ObjectId, Object> {
    entries_map(document_entries(document))
}

/// Whether an object is a dictionary, and which.
pub open spec fn is_dictionary(object: Object, dictionary: Dictionary) -> bool {
    dictionary_of(object) == Ok::<Dictionary, Seq<char>>(dictionary)
}

/// Bytes, or the text of an error.
pub open spec fn bytes_result(result: Result<Vec<u8>, String>) -> Result<Seq<u8>, Seq<char>> {
    match result {
        Ok(bytes) => Ok(bytes@),
        Err(error) => Err(error@),
    }
}

/// The bytes of an optional name.
pub open spec fn optional_bytes(value: Option<Vec<u8>>) -> Option<Seq<u8>> {
    match value {
        Some(bytes) => Some(bytes@),
        None => None,
    }
}

/// The items of an optional list.
pub open spec fn optional_items(value: Option<Vec<Object>>) -> Option<Seq<Object>> {
    match value {
        Some(items) => Some(items@),
        None => None,
    }
}

/// The entry under a key, where there is one.
pub open spec fn optional_entry(entries: Map<Seq<u8>, Object>, key: Seq<u8>) -> Option<Object> {
    if entries.contains_key(key) {
        Some(entries[key])
    } else {
        None
    }
}

/// Whether `document` is a document that was decrypted as it was read.
pub open spec fn is_decrypted(document: Result<Document, Seq<char>>) -> bool {
    document is Ok && document_decrypted(document->Ok_0)
}

/// Whether `document` is what reading a document from bytes may give.
pub open spec fn loads_as(bytes: Seq<u8>, document: Result<Document, Seq<char>>) -> bool {
    if is_decrypted(loaded_document(bytes)) {
        is_decrypted(document) && decrypts_to(bytes, document->Ok_0)
    } else {
        document == loaded_document(bytes)
    }
}

/// Whether `document` is what may come of a file, given its bytes or why they
/// could not be read.
pub open spec fn opens_as(
    content: Result<Seq<u8>, Seq<char>>,
    document: Result<Document, Seq<char>>,
) -> bool {
    match content {
        Err(error) => document == Err::<Document, Seq<char>>(error),
        Ok(bytes) => loads_as(bytes, document),
    }
}

/// Reads a document with `Document::load_mem`. Its error is handed on as the text
/// that it displays. Whether it is an error, and whether the document was
/// decrypted, is a function of the bytes, and so is a document that was not
/// decrypted. To decrypt one, lopdf walks its object streams in the order of a
/// hash map, which tells where one of them holds an object with the number of
/// another: such a document is only stated to be one of those that may come of
/// the bytes. Which bytes are taken for a document, and what is found in them, is
/// not stated. Where the length of a stream is given by another stream, and the
/// length of that one by a third, lopdf follows them by recursion, as far as there
/// are objects; that the stack suffices for it is not stated.
#[verifier::external_body]
pub(crate) fn load_document(bytes: &[u8]) -> (result: Result<Document, String>)
    ensures
        is_decrypted(loaded_document(bytes@)) || error_text(result) == loaded_document(bytes@),
        is_decrypted(loaded_document(bytes@)) ==> result is Ok && document_decrypted(result->Ok_0)
            && decrypts_to(bytes@, result->Ok_0),
{
    Document::load_mem(bytes).map_err(|error| error.to_string())
}

/// Reads the document of a file, given its bytes or why they could not be read.
pub(crate) fn open_document(content: &Result<Vec<u8>, String>) -> (result: Result<Document, String>)
    ensures
        opens_as(bytes_result(*content), error_text(result)),
{
    match content {
        Ok(bytes) => load_document(bytes.as_slice()),
        Err(error) => Err(error.as_str().to_owned()),
    }
}

/// A file that needs no decryption is read alike each time.
pub proof fn plain_files_open_in_one_way(
    content: Result<Seq<u8>, Seq<char>>,
    a: Result<Document, Seq<char>>,
    b: Result<Document, Seq<char>>,
)
    requires
        opens_as(content, a),
        opens_as(content, b),
        !is_decrypted(a),
    ensures
        a == b,
{
}

/// Asks `Document::is_encrypted`.
#[verifier::external_body]
pub(crate) fn is_encrypted(document: &Document) -> (encrypted: bool)
    ensures
        encrypted == document_encrypted(*document),
{
    document.is_encrypted()
}

/// Counts the entries of the field `Document::objects`.
#[verifier::external_body]
pub(crate) fn object_count(document: &Document) -> (count: usize)
    ensures
        count == document_entries(*document).len(),
{
    document.objects.len()
}

/// Reads the field `Document::max_id`.
#[verifier::external_body]
pub(crate) fn max_id(document: &Document) -> (id: u32)
    ensures
        id == document_max_id(*document),
{
    document.max_id
}

/// Reads the trailer's `Root` with `Dictionary::get` and `Object::as_reference`.
#[verifier::external_body]
pub(crate) fn root_id(document: &Document) -> (id: Option<ObjectId>)
    ensures
        id == document_root(*document),
{
    document.trailer.get(b"Root").ok()?.as_reference().ok()
}

/// Copies what `Dictionary::get_deref` finds under a key.
#[verifier::external_body]
pub(crate) fn find_entry(document: &Document, dictionary: &Dictionary, key: &[u8]) -> (entry: Option<
    Object,
>)
    ensures
        entry == dereferenced_entry(*document, *dictionary, key@),
{
    dictionary.get_deref(key, document).ok().cloned()
}

/// Copies what `Dictionary::get` finds under a key.
#[verifier::external_body]
pub(crate) fn get_entry(dictionary: &Dictionary, key: &[u8]) -> (entry: Option<Object>)
    ensures
        entry == optional_entry(dictionary_entries(*dictionary), key@),
{
    dictionary.get(key).ok().cloned()
}

/// Reads a number with `Object::as_i64`.
#[verifier::external_body]
pub(crate) fn as_integer(object: &Object) -> (value: Option<i64>)
    ensures
        value == integer_value(*object),
{
    object.as_i64().ok()
}

/// Reads a reference with `Object::as_reference`.
#[verifier::external_body]
pub(crate) fn as_reference(object: &Object) -> (id: Option<ObjectId>)
    ensures
        id == reference_target(*object),
{
    object.as_reference().ok()
}

/// Copies the items that `Object::as_array` gives.
#[verifier::external_body]
pub(crate) fn as_items(object: &Object) -> (items: Option<Vec<Object>>)
    ensures
        optional_items(items) == array_items(*object),
{
    object.as_array().ok().cloned()
}

/// Renumbers with `Document::renumber_objects_with`: afterwards the numbers of
/// the objects run from `start` to `max_id`, each once. Objects may be lost, none
/// are added. The bounds keep its counters from overflowing, and the room that it
/// reserves for the list of pages within what a list may have: room for as many
/// pages, of twelve bytes each, as the children in the open lists of the page tree
/// claim.
#[verifier::external_body]
pub(crate) fn renumber(document: &mut Document, start: u32)
    requires
        can_renumber(*old(document), start),
    ensures
        *final(document) == renumbered_document(*old(document), start),
        ascending(document_entries(*final(document))),
        document_entries(*final(document)).len() <= document_entries(*old(document)).len(),
        document_max_id(*final(document)) + 1 == start + document_entries(*final(document)).len(),
        forall|i: int|
            0 <= i < document_entries(*final(document)).len() ==> start <= (
            #[trigger] document_entries(*final(document))[i]).0.0 <= document_max_id(
                *final(document),
            ),
{
    document.renumber_objects_with(start)
}

/// Lists the page ids that `Document::page_iter` gives. They are taken one at a
/// time: room is made for the pages that there are, not for those that the page
/// tree claims.
#[verifier::external_body]
pub(crate) fn page_ids(document: &Document) -> (ids: Vec<ObjectId>)
    ensures
        ids@ == document_pages(*document),
{
    let mut ids = Vec::new();
    for id in document.page_iter() {
        ids.push(id);
    }
    ids
}

/// Finds an object with `Document::get_object` and copies it. There is none under
/// an id that the document does not have.
#[verifier::external_body]
pub(crate) fn find_object(document: &Document, id: ObjectId) -> (result: Result<Object, String>)
    ensures
        error_text(result) == document_object(*document, id),
        result is Ok ==> document_objects(*document).contains_key(id),
{
    document.get_object(id).cloned().map_err(|error| error.to_string())
}

/// Moves the objects out of the field `Document::objects`, a `BTreeMap`, in the
/// ascending order of their ids.
#[verifier::external_body]
pub(crate) fn take_entries(document: Document) -> (entries: Vec<(ObjectId, Object)>)
    ensures
        entries@ == document_entries(document),
        ascending(entries@),
{
    document.objects.into_iter().collect()
}

/// Makes a document without objects with `Document::with_version`.
#[verifier::external_body]
pub(crate) fn new_document(version: &str) -> (document: Document)
    ensures
        document_entries(document) == Seq::<(ObjectId, Object)>::empty(),
        document_version(document) == version@,
{
    Document::with_version(version)
}

/// Puts an object into the field `Document::objects` with `BTreeMap::insert`, in
/// place of the one that had its id.
#[verifier::external_body]
pub(crate) fn insert_object(document: &mut Document, id: ObjectId, object: Object)
    ensures
        document_objects(*final(document)) == document_objects(*old(document)).insert(id, object),
        ascending(document_entries(*final(document))),
        document_version(*final(document)) == document_version(*old(document)),
{
    let _ = document.objects.insert(id, object);
}

/// Sets the trailer's `Root` with `Dictionary::set`.
#[verifier::external_body]
pub(crate) fn set_root(document: &mut Document, id: ObjectId)
    ensures
        document_root(*final(document)) == Some(id),
        document_entries(*final(document)) == document_entries(*old(document)),
        document_version(*final(document)) == document_version(*old(document)),
{
    document.trailer.set("Root", id)
}

/// Writes a document with `Document::save_to`, which is a function of the
/// document. It numbers one object more than there are, so that the two numbers
/// after `max_id` have to exist. That a reader finds the same pages in the bytes is
/// not stated.
#[verifier::external_body]
pub(crate) fn save_document(mut document: Document) -> (result: Result<Vec<u8>, String>)
    requires
        document_max_id(document) + 2 <= u32::MAX,
    ensures
        bytes_result(result) == saved_document(document),
{
    let mut bytes = Vec::new();
    match document.save_to(&mut bytes) {
        Ok(()) => Ok(bytes),
        Err(error) => Err(error.to_string()),
    }
}

/// Copies the dictionary that `Object::as_dict` gives.
#[verifier::external_body]
pub(crate) fn as_dictionary(object: &Object) -> (result: Result<Dictionary, String>)
    ensures
        error_text(result) == dictionary_of(*object),
{
    object.as_dict().cloned().map_err(|error| error.to_string())
}

/// Copies the dictionary of the stream that `Object::as_stream` gives.
#[verifier::external_body]
pub(crate) fn as_stream_dictionary(object: &Object) -> (dictionary: Option<Dictionary>)
    ensures
        dictionary == stream_dictionary(*object),
{
    object.as_stream().ok().map(|stream| stream.dict.clone())
}

/// Copies the name that `Dictionary::get_type` gives.
#[verifier::external_body]
pub(crate) fn type_of(dictionary: &Dictionary) -> (name: Option<Vec<u8>>)
    ensures
        optional_bytes(name) == dictionary_type(*dictionary),
{
    dictionary.get_type().ok().map(|name| name.to_vec())
}

/// Takes the entries of another dictionary in with `Dictionary::extend`.
#[verifier::external_body]
pub(crate) fn extend_dictionary(dictionary: &mut Dictionary, other: &Dictionary)
    ensures
        *final(dictionary) == extended_dictionary(*old(dictionary), *other),
{
    dictionary.extend(other)
}

/// Sets an entry with `Dictionary::set`.
#[verifier::external_body]
pub(crate) fn set_entry(dictionary: &mut Dictionary, key: &[u8], value: Object)
    ensures
        dictionary_entries(*final(dictionary)) == dictionary_entries(*old(dictionary)).insert(
            key@,
            value,
        ),
{
    dictionary.set(key, value)
}

/// Takes an entry out with `Dictionary::remove`.
#[verifier::external_body]
pub(crate) fn remove_entry(dictionary: &mut Dictionary, key: &[u8])
    ensures
        dictionary_entries(*final(dictionary)) == dictionary_entries(*old(dictionary)).remove(key@),
{
    let _ = dictionary.remove(key);
}

/// Makes an `Object::Dictionary`.
#[verifier::external_body]
pub(crate) fn dictionary_object(dictionary: Dictionary) -> (object: Object)
    ensures
        is_dictionary(object, dictionary),
{
    Object::Dictionary(dictionary)
}

/// Makes an `Object::Reference`.
#[verifier::external_body]
pub(crate) fn reference_object(id: ObjectId) -> (object: Object)
    ensures
        reference_target(object) == Some(id),
{
    Object::Reference(id)
}

/// Makes an `Object::Integer`.
#[verifier::external_body]
pub(crate) fn integer_object(value: u32) -> (object: Object)
    ensures
        integer_value(object) == Some(value as i64),
{
    Object::from(value)
}

/// Makes an `Object::Array`.
#[verifier::external_body]
pub(crate) fn array_object(items: Vec<Object>) -> (object: Object)
    ensures
        array_items(object) == Some(items@),
{
    Object::Array(items)
}

/// The name of what an object is: the type of a dictionary or of a stream's
/// dictionary.
pub open spec fn object_type(object: Object) -> Option<Seq<u8>> {
    match dictionary_of(object) {
        Ok(dictionary) => dictionary_type(dictionary),
        Err(_) => match stream_dictionary(object) {
            Some(dictionary) => dictionary_type(dictionary),
            None => None,
        },
    }
}

/// The name of what an object is.
pub fn type_of_object(object: &Object) -> (name: Option<Vec<u8>>)
    ensures
        optional_bytes(name) == object_type(*object),
{
    match as_dictionary(object) {
        Ok(dictionary) => type_of(&dictionary),
        Err(_) => match as_stream_dictionary(object) {
            Some(dictionary) => type_of(&dictionary),
            None => None,
        },
    }
}

} // verus!
