//! Counting the pages of documents with LibreOffice and Microsoft Word.

use crate::commands::{last_line, last_output_line, powershell_single_quoted, single_quoted};
use crate::page_counter::files::{extension_of, extension_text};
use crate::text::{
    decimal, decimal_text, error_text, join, join_texts, lines, lower, lower_text, optional_text,
    same_text, text_result, texts,
};
use vstd::prelude::*;
use vstd::string::*;

verus! {

/// The program that counted a document.
#[derive(Debug, Clone, Copy, PartialEq, Eq, Structural)]
pub enum DocumentBackend {
    MicrosoftWord,
    LibreOfficeFallback,
}

/// The pages of a document, and the program that counted them.
#[derive(Debug, Clone, Copy, PartialEq, Eq, Structural)]
pub struct DocumentPageCount {
    pub pages: usize,
    pub backend: DocumentBackend,
}

/// What is said of a document that no program could count: the page number that
/// it was saved with, and what became of each program, each on its own line.
pub open spec fn count_errors(
    estimate: Option<usize>,
    libreoffice: Option<Seq<char>>,
    word: Option<Seq<char>>,
) -> Seq<Seq<char>> {
    (match estimate {
        Some(pages) => seq![
            "DOCX saved metadata says "@ + decimal(pages as nat)
                + " pages, but it was not used because that value can be stale."@,
        ],
        None => Seq::empty(),
    }) + (match libreoffice {
        Some(error) => seq!["LibreOffice failed: "@ + error],
        None => Seq::empty(),
    }) + (match word {
        Some(error) => seq!["Microsoft Word fallback failed: "@ + error],
        None => Seq::empty(),
    })
}

/// What is said of a document that no program could count.
pub fn format_document_count_errors(
    docx_metadata_estimate: Option<usize>,
    libreoffice_error: Option<String>,
    word_error: Option<String>,
) -> (text: String)
    ensures
        text@ == join(
            count_errors(
                docx_metadata_estimate,
                optional_text(libreoffice_error),
                optional_text(word_error),
            ),
            "\n"@,
        ),
{
    let mut errors: Vec<String> = Vec::new();
    match docx_metadata_estimate {
        Some(pages) => {
            let number = decimal_text(pages as u128);
            let mut message = "DOCX saved metadata says ".to_owned();
            message.append(number.as_str());
            message.append(" pages, but it was not used because that value can be stale.");
            errors.push(message);
        },
        None => {},
    }
    match &libreoffice_error {
        Some(error) => {
            let mut message = "LibreOffice failed: ".to_owned();
            message.append(error.as_str());
            errors.push(message);
        },
        None => {},
    }
    match &word_error {
        Some(error) => {
            let mut message = "Microsoft Word fallback failed: ".to_owned();
            message.append(error.as_str());
            errors.push(message);
        },
        None => {},
    }
    assert(texts(errors@) =~= count_errors(
        docx_metadata_estimate,
        optional_text(libreoffice_error),
        optional_text(word_error),
    ));
    join_texts(&errors, "\n")
}

/// The pages of a document: as Word counts them, where the system has it, and
/// else as LibreOffice does, which is the fallback.
pub open spec fn document_pages_result(
    estimate: Option<usize>,
    word: Option<Result<usize, Seq<char>>>,
    libreoffice: Result<usize, Seq<char>>,
) -> Result<DocumentPageCount, Seq<char>> {
    match word {
        Some(Ok(pages)) => Ok(DocumentPageCount { pages, backend: DocumentBackend::MicrosoftWord }),
        _ => match libreoffice {
            Ok(pages) => Ok(
                DocumentPageCount { pages, backend: DocumentBackend::LibreOfficeFallback },
            ),
            Err(error) => Err(
                join(count_errors(estimate, Some(error), word_fault(word)), "\n"@),
            ),
        },
    }
}

/// Why Word did not count a document, where the system has it.
pub open spec fn word_fault(word: Option<Result<usize, Seq<char>>>) -> Option<Seq<char>> {
    match word {
        Some(Err(error)) => Some(error),
        _ => None,
    }
}

/// What Word answered, as plain values. There is no answer where the system has no
/// Word.
pub open spec fn word_answer(word: Option<Result<usize, String>>) -> Option<
    Result<usize, Seq<char>>,
> {
    match word {
        Some(result) => Some(error_text(result)),
        None => None,
    }
}

/// A document that Word did not count.
#[derive(Debug, PartialEq, Eq)]
pub struct UncountedDocument {
    pub docx_metadata_estimate: Option<usize>,
    pub word_error: Option<String>,
}

impl UncountedDocument {
    /// What Word answered.
    pub open spec fn answer(self) -> Option<Result<usize, Seq<char>>> {
        match self.word_error {
            Some(error) => Some(Err(error@)),
            None => None,
        }
    }
}

/// How the counting of a document goes on once Word answered.
#[derive(Debug, PartialEq, Eq)]
pub enum DocumentStep {
    /// Word counted the pages: nothing is left to do.
    Finished(DocumentPageCount),
    /// LibreOffice is to be asked.
    AskLibreOffice(UncountedDocument),
}

/// Takes the pages from Word, or has LibreOffice asked where Word gave none. Where
/// Word gave them, they are the result whatever LibreOffice would say.
pub fn count_document_pages_from_word(
    docx_metadata_estimate: Option<usize>,
    word: Option<Result<usize, String>>,
) -> (step: DocumentStep)
    ensures
        match step {
            DocumentStep::Finished(count) => forall|libreoffice: Result<usize, Seq<char>>|
                #[trigger] document_pages_result(
                    docx_metadata_estimate,
                    word_answer(word),
                    libreoffice,
                ) == Ok::<DocumentPageCount, Seq<char>>(count),
            DocumentStep::AskLibreOffice(document) => document.docx_metadata_estimate
                == docx_metadata_estimate && document.answer() == word_answer(word),
        },
{
    match word {
        Some(Ok(pages)) => DocumentStep::Finished(
            DocumentPageCount { pages, backend: DocumentBackend::MicrosoftWord },
        ),
        Some(Err(error)) => DocumentStep::AskLibreOffice(
            UncountedDocument { docx_metadata_estimate, word_error: Some(error) },
        ),
        None => DocumentStep::AskLibreOffice(
            UncountedDocument { docx_metadata_estimate, word_error: None },
        ),
    }
}

/// Settles the pages of a document that Word did not count.
pub fn count_document_pages(
    document: UncountedDocument,
    libreoffice: Result<usize, String>,
) -> (result: Result<DocumentPageCount, String>)
    ensures
        error_text(result) == document_pages_result(
            document.docx_metadata_estimate,
            document.answer(),
            error_text(libreoffice),
        ),
{
    match libreoffice {
        Ok(pages) => Ok(
            DocumentPageCount { pages, backend: DocumentBackend::LibreOfficeFallback },
        ),
        Err(error) => Err(
            format_document_count_errors(
                document.docx_metadata_estimate,
                Some(error),
                document.word_error,
            ),
        ),
    }
}

/// Word is preferred: where it counts the pages, LibreOffice does not matter, and
/// LibreOffice is named exactly where it was the fallback.
pub proof fn word_is_preferred(
    estimate: Option<usize>,
    word: Option<Result<usize, Seq<char>>>,
    libreoffice: Result<usize, Seq<char>>,
)
    ensures
        word is Some && word->0 is Ok ==> document_pages_result(estimate, word, libreoffice)
            == Ok::<DocumentPageCount, Seq<char>>(
            DocumentPageCount {
                pages: word->0->Ok_0,
                backend: DocumentBackend::MicrosoftWord,
            },
        ),
        (word is None || word->0 is Err) && libreoffice is Ok ==> document_pages_result(
            estimate,
            word,
            libreoffice,
        ) == Ok::<DocumentPageCount, Seq<char>>(
            DocumentPageCount {
                pages: libreoffice->Ok_0,
                backend: DocumentBackend::LibreOfficeFallback,
            },
        ),
        document_pages_result(estimate, word, libreoffice) is Err <==> (word is None
            || word->0 is Err) && libreoffice is Err,
{
}

/// A page number that was saved in a document is never taken for its pages.
pub proof fn saved_page_number_is_never_the_result(
    estimate: Option<usize>,
    other: Option<usize>,
    word: Option<Result<usize, Seq<char>>>,
    libreoffice: Result<usize, Seq<char>>,
)
    ensures
        document_pages_result(estimate, word, libreoffice) is Ok ==> document_pages_result(
            other,
            word,
            libreoffice,
        ) == document_pages_result(estimate, word, libreoffice),
        document_pages_result(estimate, word, libreoffice) is Err ==> document_pages_result(
            other,
            word,
            libreoffice,
        ) is Err,
{
}

/// The programs that may be LibreOffice, in the order in which they are tried.
pub open spec fn libreoffice_programs() -> Seq<Seq<char>> {
    seq![
        r"C:\Program Files\LibreOffice\program\soffice.com"@,
        r"C:\Program Files\LibreOffice\program\soffice.exe"@,
        r"C:\Program Files (x86)\LibreOffice\program\soffice.com"@,
        r"C:\Program Files (x86)\LibreOffice\program\soffice.exe"@,
        "soffice.com"@,
        "soffice.exe"@,
    ]
}

/// The programs that may be LibreOffice, in the order in which they are tried.
pub fn libreoffice_candidates() -> (candidates: Vec<String>)
    ensures
        texts(candidates@) == libreoffice_programs(),
{
    let mut candidates: Vec<String> = Vec::new();
    candidates.push(r"C:\Program Files\LibreOffice\program\soffice.com".to_owned());
    candidates.push(r"C:\Program Files\LibreOffice\program\soffice.exe".to_owned());
    candidates.push(r"C:\Program Files (x86)\LibreOffice\program\soffice.com".to_owned());
    candidates.push(r"C:\Program Files (x86)\LibreOffice\program\soffice.exe".to_owned());
    candidates.push("soffice.com".to_owned());
    candidates.push("soffice.exe".to_owned());
    assert(texts(candidates@) =~= libreoffice_programs());
    candidates
}

/// What came of trying one program.
#[derive(Debug)]
pub enum ConversionOutcome {
    /// The program is not there.
    Missing,
    /// It failed, and how.
    Failed(String),
    /// It ended well. The pages of the PDF that it made, or why there are none.
    Converted(Result<usize, String>),
}

/// A conversion that tries one program after the other.
#[derive(Debug)]
pub struct ConversionRun {
    pub attempts: Vec<String>,
}

/// How a conversion goes on.
#[derive(Debug)]
pub enum ConversionProgress {
    /// The next program is to be tried.
    Continue(ConversionRun),
    Finished(Result<usize, String>),
}

/// How a conversion goes on, as plain values.
pub ghost enum ConversionView {
    Continue(Seq<Seq<char>>),
    Finished(Result<usize, Seq<char>>),
}

impl View for ConversionProgress {
    type V = ConversionView;

    open spec fn view(&self) -> ConversionView {
        match self {
            ConversionProgress::Continue(run) => ConversionView::Continue(texts(run.attempts@)),
            ConversionProgress::Finished(result) => ConversionView::Finished(error_text(*result)),
        }
    }
}

/// A conversion after one more failed attempt.
pub open spec fn after_attempt(attempts: Seq<Seq<char>>) -> ConversionView {
    if attempts.len() < libreoffice_programs().len() {
        ConversionView::Continue(attempts)
    } else {
        ConversionView::Finished(
            Err("LibreOffice could not convert the document. Attempts: "@ + join(attempts, " | "@)),
        )
    }
}

/// A conversion after the program `libreoffice_programs()[attempts.len()]` was
/// tried. A program that ended well settles it.
pub open spec fn after_program(
    attempts: Seq<Seq<char>>,
    outcome: ConversionOutcome,
) -> ConversionView {
    let program = libreoffice_programs()[attempts.len() as int];
    match outcome {
        ConversionOutcome::Missing => after_attempt(attempts.push(program + " does not exist"@)),
        ConversionOutcome::Failed(error) => after_attempt(
            attempts.push(program + " failed: "@ + error@),
        ),
        ConversionOutcome::Converted(result) => ConversionView::Finished(error_text(result)),
    }
}

impl ConversionRun {
    /// A conversion that has tried nothing yet.
    pub fn new() -> (run: Self)
        ensures
            texts(run.attempts@) == Seq::<Seq<char>>::empty(),
    {
        let run = ConversionRun { attempts: Vec::new() };
        assert(texts(run.attempts@) =~= Seq::empty());
        run
    }

    /// The program to try next.
    pub fn program(&self) -> (program: Option<String>)
        ensures
            optional_text(program) == if self.attempts@.len() < libreoffice_programs().len() {
                Some(libreoffice_programs()[self.attempts@.len() as int])
            } else {
                None
            },
    {
        let mut candidates = libreoffice_candidates();
        assert(texts(candidates@).len() == candidates@.len());
        let i: usize = self.attempts.len();
        if i < candidates.len() {
            assert(texts(candidates@)[i as int] == candidates@[i as int]@);
            Some(candidates.swap_remove(i))
        } else {
            None
        }
    }

    /// Goes on after the next program was tried.
    pub fn advance(self, outcome: ConversionOutcome) -> (progress: ConversionProgress)
        requires
            self.attempts@.len() < libreoffice_programs().len(),
        ensures
            progress@ == after_program(texts(self.attempts@), outcome),
    {
        let program = self.program();
        let mut attempts = self.attempts;
        let ghost before = texts(attempts@);
        match outcome {
            ConversionOutcome::Converted(result) => return ConversionProgress::Finished(result),
            ConversionOutcome::Missing => {
                let mut attempt = match program {
                    Some(program) => program,
                    None => String::new(),
                };
                attempt.append(" does not exist");
                attempts.push(attempt);
                assert(texts(attempts@) =~= before.push(attempt@));
            },
            ConversionOutcome::Failed(error) => {
                let mut attempt = match program {
                    Some(program) => program,
                    None => String::new(),
                };
                attempt.append(" failed: ");
                attempt.append(error.as_str());
                attempts.push(attempt);
                assert(texts(attempts@) =~= before.push(attempt@));
            },
        }
        if attempts.len() < 6 {
            ConversionProgress::Continue(ConversionRun { attempts })
        } else {
            let list = join_texts(&attempts, " | ");
            let mut message = "LibreOffice could not convert the document. Attempts: ".to_owned();
            message.append(list.as_str());
            ConversionProgress::Finished(Err(message))
        }
    }
}

/// The pages of a converted PDF.
pub fn converted_pages(pages: Result<usize, String>) -> (result: Result<usize, String>)
    ensures
        error_text(result) == match pages {
            Ok(pages) => Ok::<usize, Seq<char>>(pages),
            Err(error) => Err("Converted PDF could not be counted: "@ + error@),
        },
{
    match pages {
        Ok(pages) => Ok(pages),
        Err(error) => {
            let mut message = "Converted PDF could not be counted: ".to_owned();
            message.append(error.as_str());
            Err(message)
        },
    }
}

/// The pages of the PDF that Word exported.
pub fn exported_pages(pages: Result<usize, String>) -> (result: Result<usize, String>)
    ensures
        error_text(result) == match pages {
            Ok(pages) => Ok::<usize, Seq<char>>(pages),
            Err(error) => Err(
                "Word exported a PDF, but the exported PDF could not be counted: "@ + error@,
            ),
        },
{
    match pages {
        Ok(pages) => Ok(pages),
        Err(error) => {
            let mut message =
                "Word exported a PDF, but the exported PDF could not be counted: ".to_owned();
            message.append(error.as_str());
            Err(message)
        },
    }
}

/// Where Word says that it exported a PDF to: the last line of its output that is
/// not blank.
pub fn exported_pdf(output: &str) -> (result: Result<String, String>)
    ensures
        text_result(result) == match last_line(lines(output@)) {
            Some(line) => Ok::<Seq<char>, Seq<char>>(line),
            None => Err("Word did not return a PDF export path."@),
        },
{
    match last_output_line(output) {
        Some(line) => Ok(line),
        None => Err("Word did not return a PDF export path.".to_owned()),
    }
}

/// Whether a name is that of a PDF.
pub open spec fn is_pdf_name(name: Seq<u8>) -> bool {
    match extension_text(name) {
        Some(extension) => lower(extension) == lower("pdf"@),
        None => false,
    }
}

fn named_pdf(name: &Vec<u8>) -> (pdf: bool)
    ensures
        pdf == is_pdf_name(name@),
{
    match extension_of(name) {
        Some(extension) => {
            let extension = lower_text(extension.as_str());
            let pdf = lower_text("pdf");
            same_text(extension.as_str(), pdf.as_str())
        },
        None => false,
    }
}

/// The indices of the PDFs among the first `count` names.
pub open spec fn pdf_indices(names: Seq<Vec<u8>>, count: int) -> Seq<int>
    decreases count,
{
    if count <= 0 {
        Seq::empty()
    } else {
        let front = pdf_indices(names, count - 1);
        if is_pdf_name(names[count - 1]@) {
            front.push(count - 1)
        } else {
            front
        }
    }
}

/// The only PDF in the folder that LibreOffice wrote to.
pub open spec fn only_pdf(names: Result<Seq<Vec<u8>>, Seq<char>>) -> Result<int, Seq<char>> {
    match names {
        Err(error) => Err("Could not read LibreOffice output folder: "@ + error),
        Ok(names) => {
            let found = pdf_indices(names, names.len() as int);
            if found.len() == 1 {
                Ok(found[0])
            } else if found.len() == 0 {
                Err("LibreOffice did not create a PDF output file."@)
            } else {
                Err("LibreOffice created more than one PDF output file."@)
            }
        },
    }
}

/// The names in a folder or an error, as plain values.
pub open spec fn names_result(names: Result<Vec<Vec<u8>>, String>) -> Result<
    Seq<Vec<u8>>,
    Seq<char>,
> {
    match names {
        Ok(names) => Ok(names@),
        Err(error) => Err(error@),
    }
}

/// Finds the only PDF in the folder that LibreOffice wrote to, by the names in it
/// or why they could not be read.
pub fn find_converted_pdf(names: Result<Vec<Vec<u8>>, String>) -> (result: Result<usize, String>)
    ensures
        match result {
            Ok(i) => only_pdf(names_result(names)) == Ok::<int, Seq<char>>(i as int) && names is Ok
                && i < names->Ok_0@.len(),
            Err(error) => only_pdf(names_result(names)) == Err::<int, Seq<char>>(error@),
        },
{
    let names = match names {
        Ok(names) => names,
        Err(error) => {
            let mut message = "Could not read LibreOffice output folder: ".to_owned();
            message.append(error.as_str());
            return Err(message);
        },
    };
    let mut count: usize = 0;
    let mut first: usize = 0;
    for i in 0..names.len()
        invariant
            count <= i,
            count == pdf_indices(names@, i as int).len(),
            count > 0 ==> first == pdf_indices(names@, i as int)[0] && first < i,
    {
        if named_pdf(&names[i]) {
            if count == 0 {
                first = i;
            }
            count = count + 1;
        }
    }
    if count == 1 {
        Ok(first)
    } else if count == 0 {
        Err("LibreOffice did not create a PDF output file.".to_owned())
    } else {
        Err("LibreOffice created more than one PDF output file.".to_owned())
    }
}

/// The name of the local copy of a document, which keeps its extension.
pub open spec fn local_copy_text(name: Seq<u8>) -> Seq<char> {
    "document."@ + match extension_text(name) {
        Some(extension) => if extension.len() > 0 {
            extension
        } else {
            "doc"@
        },
        None => "doc"@,
    }
}

/// The name of the local copy of a document.
pub fn local_copy_name(name: &Vec<u8>) -> (copy: String)
    ensures
        copy@ == local_copy_text(name@),
{
    let mut copy = "document.".to_owned();
    match extension_of(name) {
        Some(extension) => {
            if extension.as_str().unicode_len() > 0 {
                copy.append(extension.as_str());
            } else {
                copy.append("doc");
            }
        },
        None => {
            copy.append("doc");
        },
    }
    copy
}

/// What is said of a document that could not be copied.
pub fn copy_failure(source: &str, error: &str) -> (message: String)
    ensures
        message@ == "Could not copy document "@ + source@ + " to a local temporary file: "@
            + error@,
{
    let mut message = "Could not copy document ".to_owned();
    message.append(source);
    message.append(" to a local temporary file: ");
    message.append(error);
    message
}

/// What is said of a document whose path could not be resolved.
pub fn resolve_failure(error: &str) -> (message: String)
    ensures
        message@ == "Could not resolve document path: "@ + error@,
{
    let mut message = "Could not resolve document path: ".to_owned();
    message.append(error);
    message
}

/// The name of a temporary folder.
pub fn temporary_folder_name(prefix: &str, process: u32, stamp: u128) -> (name: String)
    ensures
        name@ == prefix@ + "-"@ + decimal(process as nat) + "-"@ + decimal(stamp as nat),
{
    let process = decimal_text(process as u128);
    let stamp = decimal_text(stamp);
    let mut name = prefix.to_owned();
    name.append("-");
    name.append(process.as_str());
    name.append("-");
    name.append(stamp.as_str());
    name
}

/// What is said of a temporary folder that could not be made.
pub fn temporary_folder_failure(path: &str, error: &str) -> (message: String)
    ensures
        message@ == "Could not create temporary folder "@ + path@ + ": "@ + error@,
{
    let mut message = "Could not create temporary folder ".to_owned();
    message.append(path);
    message.append(": ");
    message.append(error);
    message
}

/// The beginning of the script with which Word exports a document.
pub const WORD_EXPORT_1: &'static str = r#"
$ErrorActionPreference = 'Stop'
$path = '"#;

/// A middle part of the script with which Word exports a document.
pub const WORD_EXPORT_2: &'static str = r#"'
$pdfPath = '"#;

/// The end of the script with which Word exports a document.
pub const WORD_EXPORT_3: &'static str = r#"'
$word = $null
$doc = $null
try {
    $word = New-Object -ComObject Word.Application
    $word.Visible = $false
    $word.DisplayAlerts = 0
    try { $word.AutomationSecurity = 3 } catch { }
    try { $word.Options.UpdateLinksAtOpen = $false } catch { }
    try { $word.Options.SaveNormalPrompt = $false } catch { }
    $documents = $word.Documents
    $openErrors = New-Object System.Collections.Generic.List[string]
    try {
        $doc = $documents.OpenNoRepairDialog($path, $false, $true, $false)
    } catch {
        $openErrors.Add($_.Exception.Message)
    }
    if ($null -eq $doc) {
        try { $doc = $word.ActiveDocument } catch { }
    }
    if ($null -eq $doc) {
        try {
            $doc = $documents.Open($path, $false, $true, $false)
        } catch {
            $openErrors.Add($_.Exception.Message)
        }
    }
    if ($null -eq $doc) {
        try { $doc = $word.ActiveDocument } catch { }
    }
    if ($null -eq $doc) {
        try {
            $doc = $documents.Open($path)
        } catch {
            $openErrors.Add($_.Exception.Message)
        }
    }
    if ($null -eq $doc) {
        try { $doc = $word.ActiveDocument } catch { }
    }
    if ($null -eq $doc) {
        throw "Microsoft Word did not open the local temporary document copy. Attempts: $($openErrors -join ' | ')"
    }
    try { $doc.Repaginate() | Out-Null } catch { }
    if (Test-Path -LiteralPath $pdfPath) {
        Remove-Item -LiteralPath $pdfPath -Force
    }
    $doc.ExportAsFixedFormat($pdfPath, 17)
    if (-not (Test-Path -LiteralPath $pdfPath)) {
        throw "Microsoft Word did not create the PDF export at $pdfPath."
    }
    Write-Output $pdfPath
} finally {
    if ($null -ne $doc) {
        try { $doc.Close($false) | Out-Null } catch { }
        try { [System.Runtime.InteropServices.Marshal]::FinalReleaseComObject($doc) | Out-Null } catch { }
    }
    if ($null -ne $word) {
        try { $word.Quit() | Out-Null } catch { }
        try { [System.Runtime.InteropServices.Marshal]::FinalReleaseComObject($word) | Out-Null } catch { }
    }
    [GC]::Collect()
    [GC]::WaitForPendingFinalizers()
}
"#;

/// The script with which Word exports a document.
pub open spec fn word_export_text(path: Seq<char>, pdf_path: Seq<char>) -> Seq<char> {
    WORD_EXPORT_1@ + single_quoted(path) + WORD_EXPORT_2@ + single_quoted(pdf_path)
        + WORD_EXPORT_3@
}

/// Writes the script with which Word exports a document.
pub fn word_export_script(path: &str, pdf_path: &str) -> (script: String)
    ensures
        script@ == word_export_text(path@, pdf_path@),
{
    let path = powershell_single_quoted(path);
    let pdf_path = powershell_single_quoted(pdf_path);
    let mut script = WORD_EXPORT_1.to_owned();
    script.append(path.as_str());
    script.append(WORD_EXPORT_2);
    script.append(pdf_path.as_str());
    script.append(WORD_EXPORT_3);
    script
}

} // verus!
