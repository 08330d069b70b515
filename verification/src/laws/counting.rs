//! Every file of a folder is found, taken for what it is, and counted once.

use crate::page_counter::files::{
    collected, entry_count, extension_text, file_kind, files_of, is_docx_name, is_lock_name,
    last_dot, FileKind, FileView, FolderEntry, FolderListing,
};
use crate::page_counter::office::{DocumentBackend, DocumentPageCount};
use crate::page_counter::{
    all_count_as, counts_as, first_count_as, folder_count, pdf_page_count, task_of, total_exceeds,
    CountedFile, FileInput, FileTask, NoteView, PageCounterOptions,
};
use crate::pdf::documents::{
    bytes_result, decrypts_to, document_decrypted, document_encrypted, document_pages,
    loaded_document, opens_as,
};
use crate::text::lower;
use lopdf::Document;
use vstd::prelude::*;
use vstd::string::*;
use vstd::utf8::{decode_utf8, valid_utf8};

verus! {

/// How often a file stands among the first `count` entries of a folder, or anywhere
/// below them.
pub open spec fn times_in_tree(listing: FolderListing, file: FileView, count: nat) -> nat
    decreases listing, count,
{
    match listing.entries {
        Err(_) => 0,
        Ok(entries) => if count == 0 || count > entries@.len() {
            0
        } else {
            times_in_tree(listing, file, (count - 1) as nat) + match entries@[count - 1] {
                FolderEntry::File(found) => if found@ == file {
                    1nat
                } else {
                    0nat
                },
                FolderEntry::Folder(inner) => times_in_tree(inner, file, entry_count(inner)),
                FolderEntry::Other => 0nat,
                FolderEntry::Failed(_) => 0nat,
            }
        },
    }
}

/// How often a file stands among the first `count` entries of a folder itself.
pub open spec fn times_in_folder(listing: FolderListing, file: FileView, count: nat) -> nat
    decreases count,
{
    if listing.entries is Err || count == 0 || count > listing.entries->Ok_0@.len() {
        0
    } else {
        times_in_folder(listing, file, (count - 1) as nat) + match listing.entries->Ok_0@[count
            - 1] {
            FolderEntry::File(found) => if found@ == file {
                1nat
            } else {
                0nat
            },
            _ => 0nat,
        }
    }
}

/// How often a file stands in a list.
pub open spec fn times_in_list(files: Seq<FileView>, file: FileView) -> nat
    decreases files.len(),
{
    if files.len() == 0 {
        0
    } else {
        times_in_list(files.drop_last(), file) + if files.last() == file {
            1nat
        } else {
            0nat
        }
    }
}

proof fn lemma_times_append(a: Seq<FileView>, b: Seq<FileView>, file: FileView)
    ensures
        times_in_list(a + b, file) == times_in_list(a, file) + times_in_list(b, file),
    decreases b.len(),
{
    if b.len() == 0 {
        assert(a + b =~= a);
    } else {
        lemma_times_append(a, b.drop_last(), file);
        assert((a + b).drop_last() =~= a + b.drop_last());
    }
}

proof fn lemma_times_push(a: Seq<FileView>, last: FileView, file: FileView)
    ensures
        times_in_list(a.push(last), file) == times_in_list(a, file) + if last == file {
            1nat
        } else {
            0nat
        },
{
    assert(a.push(last).drop_last() =~= a);
}

proof fn lemma_tree(listing: FolderListing, file: FileView, count: nat)
    requires
        collected(listing, true, count) is Ok,
    ensures
        times_in_list(collected(listing, true, count)->Ok_0, file) == times_in_tree(
            listing,
            file,
            count,
        ),
    decreases listing, count,
{
    match listing.entries {
        Err(_) => {},
        Ok(entries) => {
            if count > 0 && count <= entries@.len() {
                let n = (count - 1) as nat;
                lemma_tree(listing, file, n);
                let front = collected(listing, true, n)->Ok_0;
                match entries@[count - 1] {
                    FolderEntry::File(found) => {
                        lemma_times_push(front, found@, file);
                    },
                    FolderEntry::Folder(inner) => {
                        lemma_tree(inner, file, entry_count(inner));
                        lemma_times_append(
                            front,
                            collected(inner, true, entry_count(inner))->Ok_0,
                            file,
                        );
                    },
                    _ => {},
                }
            }
        },
    }
}

/// With subfolders, every file that stands in a folder or anywhere below it, at any
/// depth, is found, as often as it stands there, and nothing else is.
pub proof fn every_file_of_the_tree_is_found(listing: FolderListing, file: FileView)
    requires
        files_of(listing, true) is Ok,
    ensures
        times_in_list(files_of(listing, true)->Ok_0, file) == times_in_tree(
            listing,
            file,
            entry_count(listing),
        ),
{
    lemma_tree(listing, file, entry_count(listing));
}

proof fn lemma_folder(listing: FolderListing, file: FileView, count: nat)
    requires
        collected(listing, false, count) is Ok,
    ensures
        times_in_list(collected(listing, false, count)->Ok_0, file) == times_in_folder(
            listing,
            file,
            count,
        ),
    decreases count,
{
    if listing.entries is Ok && count > 0 && count <= listing.entries->Ok_0@.len() {
        let n = (count - 1) as nat;
        lemma_folder(listing, file, n);
        match listing.entries->Ok_0@[count - 1] {
            FolderEntry::File(found) => {
                lemma_times_push(collected(listing, false, n)->Ok_0, found@, file);
            },
            _ => {},
        }
    }
}

/// Without subfolders, the files of the folder itself are found, as often as they
/// stand there, and nothing else is.
pub proof fn every_file_of_the_folder_is_found(listing: FolderListing, file: FileView)
    requires
        files_of(listing, false) is Ok,
    ensures
        times_in_list(files_of(listing, false)->Ok_0, file) == times_in_folder(
            listing,
            file,
            entry_count(listing),
        ),
{
    lemma_folder(listing, file, entry_count(listing));
}

/// Whether the first `count` entries of a folder could be read, and where subfolders
/// count, all folders below them.
pub open spec fn is_readable(listing: FolderListing, below: bool, count: nat) -> bool
    decreases listing, count,
{
    match listing.entries {
        Err(_) => false,
        Ok(entries) => if count == 0 || count > entries@.len() {
            true
        } else {
            is_readable(listing, below, (count - 1) as nat) && match entries@[count - 1] {
                FolderEntry::Failed(_) => false,
                FolderEntry::Folder(inner) => !below || is_readable(inner, true, entry_count(inner)),
                _ => true,
            }
        },
    }
}

proof fn lemma_readable(listing: FolderListing, below: bool, count: nat)
    ensures
        collected(listing, below, count) is Ok <==> is_readable(listing, below, count),
    decreases listing, count,
{
    match listing.entries {
        Err(_) => {},
        Ok(entries) => {
            if count > 0 && count <= entries@.len() {
                lemma_readable(listing, below, (count - 1) as nat);
                match entries@[count - 1] {
                    FolderEntry::Folder(inner) => {
                        lemma_readable(inner, true, entry_count(inner));
                    },
                    _ => {},
                }
            }
        },
    }
}

/// Files are found exactly where every folder and every entry that has to be looked
/// into could be read.
pub proof fn unreadable_folders_are_not_passed_over(listing: FolderListing, below: bool)
    ensures
        files_of(listing, below) is Ok <==> is_readable(listing, below, entry_count(listing)),
{
    lemma_readable(listing, below, entry_count(listing));
}

proof fn lemma_last_dot(stem: Seq<u8>, extension: Seq<u8>)
    requires
        !extension.contains(46u8),
    ensures
        last_dot(stem + seq![46u8] + extension) == Some(stem.len() as int),
    decreases extension.len(),
{
    let name = stem + seq![46u8] + extension;
    if extension.len() == 0 {
        assert(name.last() == 46);
    } else {
        assert(extension.contains(extension.last()));
        assert(name.last() == extension.last());
        let shorter = extension.drop_last();
        assert forall|i: int| 0 <= i < shorter.len() implies shorter[i] != 46 by {
            assert(extension.contains(extension[i]));
        }
        assert(name.drop_last() =~= stem + seq![46u8] + shorter);
        lemma_last_dot(stem, shorter);
    }
}

proof fn lemma_extension(stem: Seq<u8>, extension: Seq<u8>)
    requires
        stem.len() > 0,
        extension.len() > 0,
        !extension.contains(46u8),
        valid_utf8(extension),
    ensures
        extension_text(stem + seq![46u8] + extension) == Some(decode_utf8(extension)),
{
    let name = stem + seq![46u8] + extension;
    lemma_last_dot(stem, extension);
    if name == seq![46u8, 46u8] {
        assert(name.len() == 2);
        assert(extension[0] == name[1]);
        assert(extension.contains(extension[0]));
    }
    assert(name.skip(stem.len() as int + 1) =~= extension);
}

/// A file is taken for what stands after the last dot of its name, whatever stands
/// before it and whether or not it is written in capitals.
pub proof fn files_are_taken_for_what_they_are_called(stem: Seq<u8>, extension: Seq<u8>)
    requires
        stem.len() > 0,
        extension.len() > 0,
        !extension.contains(46u8),
        valid_utf8(extension),
    ensures
        ({
            let kind = file_kind(stem + seq![46u8] + extension);
            let word = lower(decode_utf8(extension));
            &&& kind == FileKind::Pdf <==> word == "pdf"@
            &&& kind == FileKind::PowerPoint <==> word == "ppt"@ || word == "pptx"@ || word
                == "pptm"@ || word == "pps"@ || word == "ppsx"@
            &&& kind == FileKind::Document <==> word == "doc"@ || word == "docx"@ || word
                == "docm"@ || word == "rtf"@ || word == "odt"@
            &&& kind == FileKind::Spreadsheet <==> word == "xls"@ || word == "xlsx"@ || word
                == "xlsm"@ || word == "xlsb"@ || word == "ods"@ || word == "csv"@
            &&& is_docx_name(stem + seq![46u8] + extension) <==> word == "docx"@ || word == "docm"@
        }),
{
    lemma_extension(stem, extension);
    lemma_words_differ();
}

proof fn lemma_words_differ()
    ensures
        "pdf"@ =~= seq!['p', 'd', 'f'],
        "ppt"@ =~= seq!['p', 'p', 't'],
        "pptx"@ =~= seq!['p', 'p', 't', 'x'],
        "pptm"@ =~= seq!['p', 'p', 't', 'm'],
        "pps"@ =~= seq!['p', 'p', 's'],
        "ppsx"@ =~= seq!['p', 'p', 's', 'x'],
        "doc"@ =~= seq!['d', 'o', 'c'],
        "docx"@ =~= seq!['d', 'o', 'c', 'x'],
        "docm"@ =~= seq!['d', 'o', 'c', 'm'],
        "rtf"@ =~= seq!['r', 't', 'f'],
        "odt"@ =~= seq!['o', 'd', 't'],
        "xls"@ =~= seq!['x', 'l', 's'],
        "xlsx"@ =~= seq!['x', 'l', 's', 'x'],
        "xlsm"@ =~= seq!['x', 'l', 's', 'm'],
        "xlsb"@ =~= seq!['x', 'l', 's', 'b'],
        "ods"@ =~= seq!['o', 'd', 's'],
        "csv"@ =~= seq!['c', 's', 'v'],
{
    reveal_strlit("pdf");
    reveal_strlit("ppt");
    reveal_strlit("pptx");
    reveal_strlit("pptm");
    reveal_strlit("pps");
    reveal_strlit("ppsx");
    reveal_strlit("doc");
    reveal_strlit("docx");
    reveal_strlit("docm");
    reveal_strlit("rtf");
    reveal_strlit("odt");
    reveal_strlit("xls");
    reveal_strlit("xlsx");
    reveal_strlit("xlsm");
    reveal_strlit("xlsb");
    reveal_strlit("ods");
    reveal_strlit("csv");
}

/// A name without a dot, or with its only dot in front, has no extension.
pub proof fn names_without_extension_are_unsupported(name: Seq<u8>)
    requires
        !name.contains(46u8),
    ensures
        file_kind(name) == FileKind::Unsupported,
        file_kind(seq![46u8] + name) == FileKind::Unsupported,
        !is_docx_name(name),
{
    lemma_no_dot(name);
    lemma_last_dot(Seq::empty(), name);
    assert(Seq::<u8>::empty() + seq![46u8] + name =~= seq![46u8] + name);
}

proof fn lemma_no_dot(name: Seq<u8>)
    requires
        !name.contains(46u8),
    ensures
        last_dot(name) is None,
    decreases name.len(),
{
    if name.len() > 0 {
        assert(name.contains(name.last()));
        assert forall|i: int| 0 <= i < name.drop_last().len() implies name.drop_last()[i] != 46 by {
            assert(name.contains(name[i]));
        }
        lemma_no_dot(name.drop_last());
    }
}

/// A lock file is one whose name begins with a tilde and a dollar sign.
pub proof fn lock_files_begin_with_tilde_and_dollar(name: Seq<u8>)
    ensures
        is_lock_name(name) <==> valid_utf8(name) && decode_utf8(name).len() >= 2 && decode_utf8(
            name,
        )[0] == '~' && decode_utf8(name)[1] == '$',
{
    reveal_strlit("~$");
    let text = decode_utf8(name);
    assert("~$"@ =~= seq!['~', '$']);
    if text.len() >= 2 {
        assert(text.subrange(0, 2) =~= seq![text[0], text[1]]);
        if "~$"@.is_prefix_of(text) {
            assert("~$"@[0] == text.subrange(0, 2)[0]);
            assert("~$"@[1] == text.subrange(0, 2)[1]);
        }
    }
}

/// What has to be read of a file is what it takes to count it: a PDF is read, a
/// document is counted by a program, and nothing else is touched.
pub proof fn only_what_is_counted_is_read(name: Seq<u8>)
    ensures
        task_of(name) == FileTask::ReadPdf <==> !is_lock_name(name) && file_kind(name)
            == FileKind::Pdf,
        task_of(name) == FileTask::CountDocument <==> !is_lock_name(name) && file_kind(name)
            == FileKind::Document,
{
}

/// A PDF that is open to all has as many pages as lopdf finds in it; one that is
/// encrypted or cannot be read has none, and the reason is given.
pub proof fn pdfs_have_the_pages_that_they_have(document: Document, error: Seq<char>)
    ensures
        !document_encrypted(document) ==> pdf_page_count(Ok(document)) == Ok::<nat, Seq<char>>(
            document_pages(document).len(),
        ),
        document_encrypted(document) ==> pdf_page_count(Ok(document)) is Err,
        pdf_page_count(Err(error)) == Err::<nat, Seq<char>>("Could not read PDF: "@ + error),
{
}

/// Whether a file is a PDF that is to be counted.
pub open spec fn is_pdf(counted: CountedFile) -> bool {
    !is_lock_name(counted.file.name) && file_kind(counted.file.name) == FileKind::Pdf
        && counted.content is Pdf
}

/// Whether a file is a document that is to be counted.
pub open spec fn is_document(counted: CountedFile) -> bool {
    !is_lock_name(counted.file.name) && file_kind(counted.file.name) == FileKind::Document
        && counted.content is Document
}

/// The pages that were counted of a file.
pub open spec fn counted_pages(counted: CountedFile) -> Option<nat> {
    if is_pdf(counted) {
        match counted.content->Pdf_0 {
            Ok(pages) => Some(pages),
            Err(_) => None,
        }
    } else if is_document(counted) {
        match counted.content->Document_0 {
            Ok(count) => Some(count.pages as nat),
            Err(_) => None,
        }
    } else {
        None
    }
}

/// Whether a document was counted by a program.
pub open spec fn counted_by(counted: CountedFile, backend: DocumentBackend) -> bool {
    is_document(counted) && counted.content->Document_0 is Ok
        && counted.content->Document_0->Ok_0.backend == backend
}

/// What is noted of a file that is left out on purpose.
pub open spec fn skipped_note(counted: CountedFile) -> Option<NoteView> {
    if is_lock_name(counted.file.name) {
        None
    } else if file_kind(counted.file.name) == FileKind::PowerPoint {
        Some(
            NoteView {
                path: counted.file.path,
                reason: "PowerPoint slide counting starts in Epic C5."@,
            },
        )
    } else if file_kind(counted.file.name) == FileKind::Spreadsheet {
        Some(
            NoteView {
                path: counted.file.path,
                reason: "Excel and spreadsheet files are explicitly unsupported."@,
            },
        )
    } else {
        None
    }
}

/// What is noted of a file that could not be counted.
pub open spec fn failed_note(counted: CountedFile) -> Option<NoteView> {
    if is_pdf(counted) && counted.content->Pdf_0 is Err {
        Some(NoteView { path: counted.file.path, reason: counted.content->Pdf_0->Err_0 })
    } else if is_document(counted) && counted.content->Document_0 is Err {
        Some(NoteView { path: counted.file.path, reason: counted.content->Document_0->Err_0 })
    } else {
        None
    }
}

/// How many files of a list are so.
pub open spec fn how_many(files: Seq<CountedFile>, so: spec_fn(CountedFile) -> bool) -> nat
    decreases files.len(),
{
    if files.len() == 0 {
        0
    } else {
        how_many(files.drop_last(), so) + if so(files.last()) {
            1nat
        } else {
            0nat
        }
    }
}

/// The sum of what the files of a list come to.
pub open spec fn sum_over(files: Seq<CountedFile>, amount: spec_fn(CountedFile) -> nat) -> nat
    decreases files.len(),
{
    if files.len() == 0 {
        0
    } else {
        sum_over(files.drop_last(), amount) + amount(files.last())
    }
}

/// The notes on the files of a list, in their order.
pub open spec fn notes_on(
    files: Seq<CountedFile>,
    note: spec_fn(CountedFile) -> Option<NoteView>,
) -> Seq<NoteView>
    decreases files.len(),
{
    if files.len() == 0 {
        Seq::empty()
    } else {
        match note(files.last()) {
            Some(found) => notes_on(files.drop_last(), note).push(found),
            None => notes_on(files.drop_last(), note),
        }
    }
}

/// A count adds up what was counted of every file, tells the PDFs, the documents and
/// the programs apart, and notes every file that was left out or failed, in its
/// order and with its reason.
pub proof fn counts_are_exact(options: PageCounterOptions, files: Seq<CountedFile>)
    ensures
        ({
            let count = folder_count(options, files);
            &&& count.folder == options.folder
            &&& count.include_subfolders == options.include_subfolders
            &&& count.powerpoint_slides_per_page == options.powerpoint_slides_per_page
            &&& count.total_pages == sum_over(
                files,
                |f: CountedFile|
                    match counted_pages(f) {
                        Some(pages) => pages,
                        None => 0nat,
                    },
            )
            &&& count.counted_files == how_many(files, |f: CountedFile| counted_pages(f) is Some)
            &&& count.pdf_files == how_many(files, |f: CountedFile| is_pdf(f))
            &&& count.document_files == how_many(files, |f: CountedFile| is_document(f))
            &&& count.word_counted_files == how_many(
                files,
                |f: CountedFile| counted_by(f, DocumentBackend::MicrosoftWord),
            )
            &&& count.libreoffice_fallback_files == how_many(
                files,
                |f: CountedFile| counted_by(f, DocumentBackend::LibreOfficeFallback),
            )
            &&& count.skipped_files == notes_on(files, |f: CountedFile| skipped_note(f))
            &&& count.failed_files == notes_on(files, |f: CountedFile| failed_note(f))
        }),
    decreases files.len(),
{
    if files.len() > 0 {
        counts_are_exact(options, files.drop_last());
    }
}

/// What counting a file may give speaks of that file, of what was read of it, and of
/// nothing else.
pub proof fn each_file_is_counted_for_itself(input: FileInput, counted: CountedFile)
    requires
        counts_as(input, counted),
    ensures
        counted.file.path == input.file.path,
        counted.file.name == input.file.name@,
        is_document(counted) ==> input.content is Document && match input.content->Document_0 {
            Ok(count) => counted.content->Document_0 == Ok::<DocumentPageCount, Seq<char>>(count),
            Err(error) => counted.content->Document_0 == Err::<DocumentPageCount, Seq<char>>(
                error@,
            ),
        },
        is_pdf(counted) ==> input.content is Pdf,
{
}

/// What a file may open as is settled by its bytes: the document that lopdf makes of
/// them, or the error that it gives. Only a document that had to be decrypted may
/// come out in more ways than one.
pub proof fn files_open_as_what_they_hold(
    content: Result<Seq<u8>, Seq<char>>,
    document: Result<Document, Seq<char>>,
)
    requires
        opens_as(content, document),
    ensures
        match content {
            Err(error) => document == Err::<Document, Seq<char>>(error),
            Ok(bytes) => {
                ||| document == loaded_document(bytes)
                ||| document is Ok && document_decrypted(document->Ok_0) && decrypts_to(
                    bytes,
                    document->Ok_0,
                ) && loaded_document(bytes) is Ok && document_decrypted(
                    loaded_document(bytes)->Ok_0,
                )
            },
        },
{
}

/// The pages of a PDF are those of a document that its bytes open as.
pub proof fn pdfs_are_counted_by_their_bytes(input: FileInput, counted: CountedFile)
    requires
        counts_as(input, counted),
        is_pdf(counted),
    ensures
        exists|document: Result<Document, Seq<char>>| #[trigger]
            opens_as(bytes_result(input.content->Pdf_0), document) && match document {
                Err(error) => counted.content->Pdf_0 == Err::<nat, Seq<char>>(
                    "Could not read PDF: "@ + error,
                ),
                Ok(found) => if document_encrypted(found) {
                    counted.content->Pdf_0 is Err
                } else {
                    counted.content->Pdf_0 == Ok::<nat, Seq<char>>(document_pages(found).len())
                },
            },
{
    let document = choose|document: Result<Document, Seq<char>>| #[trigger]
        opens_as(bytes_result(input.content->Pdf_0), document) && counted.content->Pdf_0
            == pdf_page_count(document);
    assert(opens_as(bytes_result(input.content->Pdf_0), document));
}

/// Every file that is counted is one of the files, each once and in its place.
pub proof fn no_file_is_left_out_of_the_count(
    files: Seq<FileInput>,
    counted: Seq<CountedFile>,
    i: int,
)
    requires
        all_count_as(files, counted),
    ensures
        counted.len() == files.len(),
        0 <= i < files.len() ==> counts_as(files[i], counted[i]),
{
}

/// There is no count only where the pages of the files are more than can be counted.
pub proof fn counts_are_refused_only_for_their_size(
    options: PageCounterOptions,
    files: Seq<FileInput>,
)
    requires
        total_exceeds(options, files),
    ensures
        exists|counted: Seq<CountedFile>| #[trigger]
            first_count_as(files, counted) && counted.len() <= files.len() && sum_over(
                counted,
                |f: CountedFile|
                    match counted_pages(f) {
                        Some(pages) => pages,
                        None => 0nat,
                    },
            ) > usize::MAX,
{
    let counted = choose|counted: Seq<CountedFile>| #[trigger]
        first_count_as(files, counted) && folder_count(options, counted).total_pages > usize::MAX;
    counts_are_exact(options, counted);
}

} // verus!
