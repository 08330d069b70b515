//! Counting the pages of the files in a folder.

pub mod docx;
pub mod files;
pub mod office;
pub mod subfolders;

use crate::page_counter::docx::count_result;
use crate::page_counter::files::{
    classify_file, file_kind, is_lock_name, is_office_lock_file, FileKind, FileView, FoundFile,
};
use crate::page_counter::office::{DocumentBackend, DocumentPageCount};
use crate::pdf::documents::{
    bytes_result, document_encrypted, document_pages, is_encrypted, open_document, opens_as, page_ids,
};
use lopdf::Document;
use std::path::PathBuf;
use crate::text::error_text;
use vstd::prelude::*;
use vstd::string::*;

verus! {

/// What is to be counted, and how.
#[derive(Debug, Clone, PartialEq, Eq)]
pub struct PageCounterOptions {
    pub folder: PathBuf,
    pub include_subfolders: bool,
    pub powerpoint_slides_per_page: u32,
}

/// What was counted.
#[derive(Debug, Clone, PartialEq, Eq)]
pub struct PageCountSummary {
    pub folder: PathBuf,
    pub include_subfolders: bool,
    pub powerpoint_slides_per_page: u32,
    pub total_pages: usize,
    pub counted_files: usize,
    pub pdf_files: usize,
    pub document_files: usize,
    pub word_counted_files: usize,
    pub libreoffice_fallback_files: usize,
    pub skipped_files: Vec<FileNote>,
    pub failed_files: Vec<FileNote>,
}

/// A file that was not counted, and why.
#[derive(Debug, Clone, PartialEq, Eq)]
pub struct FileNote {
    pub path: PathBuf,
    pub reason: String,
}

/// A file that was not counted, with the reason as a text.
pub ghost struct NoteView {
    pub path: PathBuf,
    pub reason: Seq<char>,
}

/// What was counted, as plain values.
pub ghost struct CountView {
    pub folder: PathBuf,
    pub include_subfolders: bool,
    pub powerpoint_slides_per_page: u32,
    pub total_pages: nat,
    pub counted_files: nat,
    pub pdf_files: nat,
    pub document_files: nat,
    pub word_counted_files: nat,
    pub libreoffice_fallback_files: nat,
    pub skipped_files: Seq<NoteView>,
    pub failed_files: Seq<NoteView>,
}

impl View for FileNote {
    type V = NoteView;

    open spec fn view(&self) -> NoteView {
        NoteView { path: self.path, reason: self.reason@ }
    }
}

/// The views of a list of notes.
pub open spec fn note_views(notes: Seq<FileNote>) -> Seq<NoteView> {
    notes.map_values(|n: FileNote| n@)
}

impl View for PageCountSummary {
    type V = CountView;

    open spec fn view(&self) -> CountView {
        CountView {
            folder: self.folder,
            include_subfolders: self.include_subfolders,
            powerpoint_slides_per_page: self.powerpoint_slides_per_page,
            total_pages: self.total_pages as nat,
            counted_files: self.counted_files as nat,
            pdf_files: self.pdf_files as nat,
            document_files: self.document_files as nat,
            word_counted_files: self.word_counted_files as nat,
            libreoffice_fallback_files: self.libreoffice_fallback_files as nat,
            skipped_files: note_views(self.skipped_files@),
            failed_files: note_views(self.failed_files@),
        }
    }
}

/// What is said of a PDF that needs a password.
pub open spec fn encrypted_fault() -> Seq<char> {
    "Encrypted PDFs require password handling, which is still an open spec question."@
}

/// The number of pages of a PDF, given its document or why there is none.
pub open spec fn pdf_page_count(document: Result<Document, Seq<char>>) -> Result<nat, Seq<char>> {
    match document {
        Err(error) => Err("Could not read PDF: "@ + error),
        Ok(document) => if document_encrypted(document) {
            Err(encrypted_fault())
        } else {
            Ok(document_pages(document).len())
        },
    }
}

/// Whether `count` is what counting a PDF may give, given its bytes or what lopdf
/// says of a file that cannot be read.
pub open spec fn pdf_counts_as(
    content: Result<Seq<u8>, Seq<char>>,
    count: Result<nat, Seq<char>>,
) -> bool {
    exists|document: Result<Document, Seq<char>>| #[trigger]
        opens_as(content, document) && count == pdf_page_count(document)
}

/// The result for a PDF, given what lopdf says of it: whether it is encrypted,
/// and its number of pages.
pub fn pdf_result(facts: Result<(bool, usize), String>) -> (result: Result<usize, String>)
    ensures
        count_result(result) == match facts {
            Err(error) => Err::<nat, Seq<char>>("Could not read PDF: "@ + error@),
            Ok((encrypted, pages)) => if encrypted {
                Err(encrypted_fault())
            } else {
                Ok(pages as nat)
            },
        },
{
    match facts {
        Err(error) => {
            let mut message = "Could not read PDF: ".to_owned();
            message.append(error.as_str());
            Err(message)
        },
        Ok((encrypted, pages)) => {
            if encrypted {
                Err(
                    "Encrypted PDFs require password handling, which is still an open spec question.".to_owned(),
                )
            } else {
                Ok(pages)
            }
        },
    }
}

/// Counts the pages of a PDF file, given its bytes or what lopdf says of a file
/// that cannot be read.
pub fn count_pdf_pages(content: &Result<Vec<u8>, String>) -> (result: Result<usize, String>)
    ensures
        pdf_counts_as(bytes_result(*content), count_result(result)),
{
    let opened = open_document(content);
    let ghost document = error_text(opened);
    let result = match opened {
        Ok(document) => pdf_result(Ok((is_encrypted(&document), page_ids(&document).len()))),
        Err(error) => pdf_result(Err(error)),
    };
    assert(count_result(result) == pdf_page_count(document));
    result
}

/// What was read of a file in order to count it.
#[derive(Debug)]
pub enum FileContent {
    /// Nothing: the file is not counted.
    Unread,
    /// The bytes of a PDF, or what lopdf says of a file that cannot be read.
    Pdf(Result<Vec<u8>, String>),
    /// The pages of a document, or why they could not be counted.
    Document(Result<DocumentPageCount, String>),
}

/// A file of the folder, with what was read of it.
#[derive(Debug)]
pub struct FileInput {
    pub file: FoundFile,
    pub content: FileContent,
}

/// What has to be read of a file in order to count it.
#[derive(Debug, Clone, Copy, PartialEq, Eq, Structural)]
pub enum FileTask {
    Nothing,
    ReadPdf,
    CountDocument,
}

/// What has to be read of a file, by its name.
pub open spec fn task_of(name: Seq<u8>) -> FileTask {
    if is_lock_name(name) {
        FileTask::Nothing
    } else {
        match file_kind(name) {
            FileKind::Pdf => FileTask::ReadPdf,
            FileKind::Document => FileTask::CountDocument,
            _ => FileTask::Nothing,
        }
    }
}

/// What has to be read of a file, by its name.
pub fn file_task(name: &Vec<u8>) -> (task: FileTask)
    ensures
        task == task_of(name@),
{
    if is_office_lock_file(name) {
        FileTask::Nothing
    } else {
        match classify_file(name) {
            FileKind::Pdf => FileTask::ReadPdf,
            FileKind::Document => FileTask::CountDocument,
            _ => FileTask::Nothing,
        }
    }
}

/// Whether what was read of a file is what its name asks for.
pub open spec fn content_fits(input: FileInput) -> bool {
    match task_of(input.file@.name) {
        FileTask::Nothing => true,
        FileTask::ReadPdf => input.content is Pdf,
        FileTask::CountDocument => input.content is Document,
    }
}

/// What counting a file gave.
pub ghost enum ContentView {
    Unread,
    Pdf(Result<nat, Seq<char>>),
    Document(Result<DocumentPageCount, Seq<char>>),
}

/// A file of the folder, with what counting it gave.
pub ghost struct CountedFile {
    pub file: FileView,
    pub content: ContentView,
}

/// Whether `counted` is what counting a file may give. Only what its name asks for
/// is looked at.
pub open spec fn counts_as(input: FileInput, counted: CountedFile) -> bool {
    &&& counted.file == input.file@
    &&& match (task_of(input.file@.name), input.content, counted.content) {
        (FileTask::Nothing, _, ContentView::Unread) => true,
        (FileTask::ReadPdf, FileContent::Pdf(bytes), ContentView::Pdf(count)) => pdf_counts_as(
            bytes_result(bytes),
            count,
        ),
        (
            FileTask::CountDocument,
            FileContent::Document(pages),
            ContentView::Document(count),
        ) => count == error_text(pages),
        _ => false,
    }
}

/// Whether `counted` is what counting the first files, in their order, may give.
pub open spec fn first_count_as(files: Seq<FileInput>, counted: Seq<CountedFile>) -> bool {
    &&& counted.len() <= files.len()
    &&& forall|i: int| 0 <= i < counted.len() ==> counts_as(files[i], #[trigger] counted[i])
}

/// Whether `counted` is what counting files, in their order, may give.
pub open spec fn all_count_as(files: Seq<FileInput>, counted: Seq<CountedFile>) -> bool {
    counted.len() == files.len() && first_count_as(files, counted)
}

/// Whether the total of some of the first files, which is part of the total of all
/// of them, does not fit in a `usize`.
pub open spec fn total_exceeds(options: PageCounterOptions, files: Seq<FileInput>) -> bool {
    exists|counted: Seq<CountedFile>| #[trigger]
        first_count_as(files, counted) && folder_count(options, counted).total_pages > usize::MAX
}

impl CountView {
    pub open spec fn skipping(self, path: PathBuf, reason: Seq<char>) -> CountView {
        CountView { skipped_files: self.skipped_files.push(NoteView { path, reason }), ..self }
    }

    pub open spec fn failing(self, path: PathBuf, reason: Seq<char>) -> CountView {
        CountView { failed_files: self.failed_files.push(NoteView { path, reason }), ..self }
    }

    pub open spec fn counting(self, pages: nat) -> CountView {
        CountView {
            total_pages: self.total_pages + pages,
            counted_files: self.counted_files + 1,
            ..self
        }
    }

    /// The count after one PDF.
    pub open spec fn after_pdf(self, path: PathBuf, count: Result<nat, Seq<char>>) -> CountView {
        let seen = CountView { pdf_files: self.pdf_files + 1, ..self };
        match count {
            Ok(pages) => seen.counting(pages),
            Err(reason) => seen.failing(path, reason),
        }
    }

    /// The count after one document.
    pub open spec fn after_document(
        self,
        path: PathBuf,
        count: Result<DocumentPageCount, Seq<char>>,
    ) -> CountView {
        let seen = CountView { document_files: self.document_files + 1, ..self };
        match count {
            Ok(count) => {
                let counted = seen.counting(count.pages as nat);
                match count.backend {
                    DocumentBackend::MicrosoftWord => CountView {
                        word_counted_files: counted.word_counted_files + 1,
                        ..counted
                    },
                    DocumentBackend::LibreOfficeFallback => CountView {
                        libreoffice_fallback_files: counted.libreoffice_fallback_files + 1,
                        ..counted
                    },
                }
            },
            Err(reason) => seen.failing(path, reason),
        }
    }

    /// The count after one more file. Lock files and unsupported files change
    /// nothing; presentations and spreadsheets are skipped.
    pub open spec fn after_file(self, file: FileView, content: ContentView) -> CountView {
        if is_lock_name(file.name) {
            self
        } else {
            match file_kind(file.name) {
                FileKind::Pdf => match content {
                    ContentView::Pdf(count) => self.after_pdf(file.path, count),
                    _ => self,
                },
                FileKind::PowerPoint => self.skipping(
                    file.path,
                    "PowerPoint slide counting starts in Epic C5."@,
                ),
                FileKind::Document => match content {
                    ContentView::Document(count) => self.after_document(file.path, count),
                    _ => self,
                },
                FileKind::Spreadsheet => self.skipping(
                    file.path,
                    "Excel and spreadsheet files are explicitly unsupported."@,
                ),
                FileKind::Unsupported => self,
            }
        }
    }
}

/// The count before any file.
pub open spec fn no_count(options: PageCounterOptions) -> CountView {
    CountView {
        folder: options.folder,
        include_subfolders: options.include_subfolders,
        powerpoint_slides_per_page: options.powerpoint_slides_per_page,
        total_pages: 0,
        counted_files: 0,
        pdf_files: 0,
        document_files: 0,
        word_counted_files: 0,
        libreoffice_fallback_files: 0,
        skipped_files: Seq::empty(),
        failed_files: Seq::empty(),
    }
}

/// The count of files, in their order.
pub open spec fn folder_count(options: PageCounterOptions, files: Seq<CountedFile>) -> CountView
    decreases files.len(),
{
    if files.len() == 0 {
        no_count(options)
    } else {
        folder_count(options, files.drop_last()).after_file(
            files.last().file,
            files.last().content,
        )
    }
}

impl PageCountSummary {
    fn skip(&mut self, path: PathBuf, reason: &str)
        ensures
            final(self)@ == old(self)@.skipping(path, reason@),
    {
        let note = FileNote { path, reason: reason.to_owned() };
        self.skipped_files.push(note);
        assert(self@.skipped_files =~= old(self)@.skipped_files.push(note@));
    }

    fn fail(&mut self, path: PathBuf, reason: String)
        ensures
            final(self)@ == old(self)@.failing(path, reason@),
    {
        let note = FileNote { path, reason };
        self.failed_files.push(note);
        assert(self@.failed_files =~= old(self)@.failed_files.push(note@));
    }

    /// Whether the counters and the total have room for one more file.
    pub open spec fn has_room(self, pages: nat) -> bool {
        &&& self.total_pages + pages <= usize::MAX
        &&& self.counted_files < usize::MAX
        &&& self.pdf_files < usize::MAX
        &&& self.document_files < usize::MAX
        &&& self.word_counted_files < usize::MAX
        &&& self.libreoffice_fallback_files < usize::MAX
    }

    /// Takes in the count of one PDF.
    pub fn record_pdf(&mut self, path: PathBuf, count: Result<usize, String>)
        requires
            old(self).has_room(
                match count {
                    Ok(pages) => pages as nat,
                    Err(_) => 0,
                },
            ),
        ensures
            final(self)@ == old(self)@.after_pdf(path, count_result(count)),
    {
        self.pdf_files = self.pdf_files + 1;
        match count {
            Ok(pages) => {
                self.total_pages = self.total_pages + pages;
                self.counted_files = self.counted_files + 1;
            },
            Err(reason) => {
                self.fail(path, reason);
            },
        }
    }

    /// Takes in the count of one document.
    pub fn record_document(&mut self, path: PathBuf, count: Result<DocumentPageCount, String>)
        requires
            old(self).has_room(
                match count {
                    Ok(count) => count.pages as nat,
                    Err(_) => 0,
                },
            ),
        ensures
            final(self)@ == old(self)@.after_document(path, error_text(count)),
    {
        self.document_files = self.document_files + 1;
        match count {
            Ok(count) => {
                self.total_pages = self.total_pages + count.pages;
                self.counted_files = self.counted_files + 1;
                match count.backend {
                    DocumentBackend::MicrosoftWord => {
                        self.word_counted_files = self.word_counted_files + 1;
                    },
                    DocumentBackend::LibreOfficeFallback => {
                        self.libreoffice_fallback_files = self.libreoffice_fallback_files + 1;
                    },
                }
            },
            Err(reason) => {
                self.fail(path, reason);
            },
        }
    }
}

/// No counter exceeds the number of files.
proof fn lemma_counters_bounded(options: PageCounterOptions, files: Seq<CountedFile>)
    ensures
        folder_count(options, files).counted_files <= files.len(),
        folder_count(options, files).pdf_files <= files.len(),
        folder_count(options, files).document_files <= files.len(),
        folder_count(options, files).word_counted_files <= files.len(),
        folder_count(options, files).libreoffice_fallback_files <= files.len(),
    decreases files.len(),
{
    if files.len() > 0 {
        lemma_counters_bounded(options, files.drop_last());
    }
}

/// Counts the files of a folder, in their order. There is no result where the
/// total does not fit in a `usize`.
pub fn count_folder(options: &PageCounterOptions, files: Vec<FileInput>) -> (summary: Option<
    PageCountSummary,
>)
    requires
        forall|i: int| 0 <= i < files.len() ==> content_fits(#[trigger] files[i]),
    ensures
        match summary {
            Some(summary) => exists|counted: Seq<CountedFile>| #[trigger]
                all_count_as(files@, counted) && summary@ == folder_count(*options, counted),
            None => total_exceeds(*options, files@),
        },
{
    let mut summary = PageCountSummary {
        folder: options.folder.clone(),
        include_subfolders: options.include_subfolders,
        powerpoint_slides_per_page: options.powerpoint_slides_per_page,
        total_pages: 0,
        counted_files: 0,
        pdf_files: 0,
        document_files: 0,
        word_counted_files: 0,
        libreoffice_fallback_files: 0,
        skipped_files: Vec::new(),
        failed_files: Vec::new(),
    };
    assert(summary@.skipped_files =~= Seq::empty());
    assert(summary@.failed_files =~= Seq::empty());
    let count: usize = files.len();
    let ghost mut counted: Seq<CountedFile> = Seq::empty();
    for input in it: files
        invariant
            it.seq() == files@,
            count == files@.len(),
            forall|i: int| 0 <= i < files.len() ==> content_fits(#[trigger] files[i]),
            counted.len() == it.index(),
            first_count_as(files@, counted),
            summary@ == folder_count(*options, counted),
    {
        let ghost index = it.index();
        let ghost before = counted;
        proof {
            assert(files@[index] == input);
            assert(content_fits(files@[index]));
            lemma_counters_bounded(*options, before);
        }
        let kind = if is_office_lock_file(&input.file.name) {
            FileKind::Unsupported
        } else {
            classify_file(&input.file.name)
        };
        let pdf_pages = match (&kind, &input.content) {
            (FileKind::Pdf, FileContent::Pdf(bytes)) => Some(count_pdf_pages(bytes)),
            _ => None,
        };
        let ghost content_view = if pdf_pages is Some {
            ContentView::Pdf(count_result(pdf_pages->0))
        } else if kind is Document {
            ContentView::Document(error_text(input.content->Document_0))
        } else {
            ContentView::Unread
        };
        proof {
            counted = before.push(CountedFile { file: input.file@, content: content_view });
            assert(counted.drop_last() == before);
            assert(counts_as(input, counted.last()));
            assert forall|i: int| 0 <= i < counted.len() implies counts_as(
                files@[i],
                #[trigger] counted[i],
            ) by {
                if i < index {
                    assert(counted[i] == before[i]);
                }
            }
            assert(first_count_as(files@, counted));
        }
        let FileInput { file, content } = input;
        match kind {
            FileKind::Pdf => match pdf_pages {
                Some(pages) => {
                    match &pages {
                        Ok(pages) => {
                            if *pages > usize::MAX - summary.total_pages {
                                assert(total_exceeds(*options, files@));
                                return None;
                            }
                        },
                        Err(_) => {},
                    }
                    summary.record_pdf(file.path, pages);
                },
                None => {},
            },
            FileKind::PowerPoint => {
                summary.skip(file.path, "PowerPoint slide counting starts in Epic C5.");
            },
            FileKind::Document => match content {
                FileContent::Document(pages) => {
                    match &pages {
                        Ok(count) => {
                            if count.pages > usize::MAX - summary.total_pages {
                                assert(total_exceeds(*options, files@));
                                return None;
                            }
                        },
                        Err(_) => {},
                    }
                    summary.record_document(file.path, pages);
                },
                _ => {},
            },
            FileKind::Spreadsheet => {
                summary.skip(
                    file.path,
                    "Excel and spreadsheet files are explicitly unsupported.",
                );
            },
            FileKind::Unsupported => {},
        }
    }
    assert(all_count_as(files@, counted));
    Some(summary)
}

/// Every PDF and every document is either counted or noted as failed, and every
/// counted document was counted in one of the two ways.
pub proof fn every_file_is_accounted_for(
    options: PageCounterOptions,
    files: Seq<FileInput>,
    counted: Seq<CountedFile>,
)
    requires
        all_count_as(files, counted),
    ensures
        folder_count(options, counted).counted_files + folder_count(
            options,
            counted,
        ).failed_files.len() == folder_count(options, counted).pdf_files + folder_count(
            options,
            counted,
        ).document_files,
        folder_count(options, counted).word_counted_files + folder_count(
            options,
            counted,
        ).libreoffice_fallback_files <= folder_count(options, counted).counted_files,
        folder_count(options, counted).pdf_files + folder_count(options, counted).document_files
            + folder_count(options, counted).skipped_files.len() <= files.len(),
    decreases files.len(),
{
    if files.len() > 0 {
        let front = files.drop_last();
        assert forall|i: int| 0 <= i < front.len() implies counts_as(
            front[i],
            #[trigger] counted.drop_last()[i],
        ) by {
            assert(counts_as(files[i], counted[i]));
        }
        every_file_is_accounted_for(options, front, counted.drop_last());
        assert(counts_as(files.last(), counted.last()));
    }
}

/// A file that cannot be counted leaves the total, and all that was noted before
/// it, as they were.
pub proof fn failures_do_not_change_the_total(
    count: CountView,
    path: PathBuf,
    reason: Seq<char>,
)
    ensures
        count.after_pdf(path, Err(reason)).total_pages == count.total_pages,
        count.after_document(path, Err(reason)).total_pages == count.total_pages,
        count.after_pdf(path, Err(reason)).counted_files == count.counted_files,
        count.after_document(path, Err(reason)).counted_files == count.counted_files,
        count.after_pdf(path, Err(reason)).failed_files == count.failed_files.push(
            NoteView { path, reason },
        ),
        count.after_document(path, Err(reason)).failed_files == count.failed_files.push(
            NoteView { path, reason },
        ),
{
}

/// Lock files, presentations, spreadsheets and unsupported files are not counted,
/// whatever they hold.
pub proof fn other_files_are_not_counted(count: CountView, file: FileView, content: ContentView)
    requires
        is_lock_name(file.name) || (file_kind(file.name) != FileKind::Pdf && file_kind(file.name)
            != FileKind::Document),
    ensures
        count.after_file(file, content).total_pages == count.total_pages,
        count.after_file(file, content).counted_files == count.counted_files,
        count.after_file(file, content).failed_files == count.failed_files,
        is_lock_name(file.name) ==> count.after_file(file, content) == count,
{
}

/// The pages that a file adds to the total.
pub open spec fn pages_of(counted: CountedFile) -> nat {
    if is_lock_name(counted.file.name) {
        0
    } else {
        match (file_kind(counted.file.name), counted.content) {
            (FileKind::Pdf, ContentView::Pdf(Ok(pages))) => pages,
            (FileKind::Document, ContentView::Document(Ok(count))) => count.pages as nat,
            _ => 0,
        }
    }
}

/// The pages that files add to the total.
pub open spec fn sum_of_pages(files: Seq<CountedFile>) -> nat
    decreases files.len(),
{
    if files.len() == 0 {
        0
    } else {
        sum_of_pages(files.drop_last()) + pages_of(files.last())
    }
}

/// The total is the sum of the pages of the files that could be counted.
pub proof fn total_is_the_sum_of_the_files(options: PageCounterOptions, files: Seq<CountedFile>)
    ensures
        folder_count(options, files).total_pages == sum_of_pages(files),
    decreases files.len(),
{
    if files.len() > 0 {
        total_is_the_sum_of_the_files(options, files.drop_last());
    }
}

} // verus!
