use std::io::Write;
use std::path::PathBuf;

use flate2::write::DeflateEncoder;
use flate2::Compression;
use lopdf::{Dictionary, Document, Object};
use printltools::page_counter::docx::{
    count_docx_pages_from_metadata, decompressed_entry, find_end_of_central_directory,
    pages_from_app_xml, read_u16, read_u32, read_zip_entry, read_zip_local_entry,
    xml_local_element_text,
};
use printltools::page_counter::files::{
    classify_file, collect_files, extension_of, is_docx_package, is_office_lock_file, FileKind,
    FolderEntry, FolderListing, FoundFile,
};
use printltools::page_counter::office::{
    converted_pages, copy_failure, count_document_pages, count_document_pages_from_word,
    exported_pages, exported_pdf, find_converted_pdf, format_document_count_errors,
    libreoffice_candidates, local_copy_name, resolve_failure, temporary_folder_failure,
    temporary_folder_name, word_export_script, ConversionOutcome, ConversionProgress,
    ConversionRun, DocumentBackend, DocumentPageCount, DocumentStep, UncountedDocument,
};
use printltools::page_counter::{
    count_folder, file_task, FileContent, FileInput, FileNote, FileTask, PageCountSummary,
    PageCounterOptions,
};

fn dictionary(entries: Vec<(&str, Object)>) -> Dictionary {
    let mut dictionary = Dictionary::new();
    for (key, value) in entries {
        dictionary.set(key, value);
    }
    dictionary
}

fn test_pdf(pages: usize) -> Vec<u8> {
    let mut document = Document::with_version("1.5");
    let pages_id = document.new_object_id();
    let mut kids: Vec<Object> = Vec::new();
    for _ in 0..pages {
        let page_id = document.add_object(dictionary(vec![
            ("Type", "Page".into()),
            ("Parent", pages_id.into()),
        ]));
        kids.push(page_id.into());
    }
    let count = kids.len() as u32;
    document.objects.insert(
        pages_id,
        Object::Dictionary(dictionary(vec![
            ("Type", "Pages".into()),
            ("Kids", kids.into()),
            ("Count", count.into()),
        ])),
    );
    let catalog_id = document.add_object(dictionary(vec![
        ("Type", "Catalog".into()),
        ("Pages", pages_id.into()),
    ]));
    document.trailer.set("Root", catalog_id);
    let mut bytes = Vec::new();
    document.save_to(&mut bytes).unwrap();
    bytes
}

fn file(path: &str) -> FoundFile {
    let path = PathBuf::from(path);
    let name = path.file_name().unwrap().as_encoded_bytes().to_vec();
    FoundFile { path, name }
}

fn count_listing(
    listing: FolderListing,
    include_subfolders: bool,
    content: fn(&FoundFile) -> FileContent,
) -> Result<PageCountSummary, String> {
    let options = PageCounterOptions {
        folder: listing.path.clone(),
        include_subfolders,
        powerpoint_slides_per_page: 4,
    };
    let mut files = Vec::new();
    collect_files(listing, include_subfolders, &mut files)?;
    let mut inputs = Vec::new();
    for file in files {
        let content = match file_task(&file.name) {
            FileTask::Nothing => FileContent::Unread,
            _ => content(&file),
        };
        inputs.push(FileInput { file, content });
    }
    Ok(count_folder(&options, inputs).expect("the total fits"))
}

fn workspace() -> FolderListing {
    FolderListing {
        path: PathBuf::from("workspace"),
        entries: Ok(vec![
            FolderEntry::File(file("workspace/root.pdf")),
            FolderEntry::Folder(FolderListing {
                path: PathBuf::from("workspace/nested"),
                entries: Ok(vec![FolderEntry::File(file("workspace/nested/nested.pdf"))]),
            }),
            FolderEntry::Other,
            FolderEntry::File(file("workspace/sheet.xlsx")),
        ]),
    }
}

fn one_page(_: &FoundFile) -> FileContent {
    FileContent::Pdf(Ok(test_pdf(1)))
}

#[test]
fn counts_pdf_pages_and_respects_subfolder_option() {
    let root_only = count_listing(workspace(), false, one_page).unwrap();

    assert_eq!(root_only.total_pages, 1);
    assert_eq!(root_only.counted_files, 1);
    assert_eq!(root_only.pdf_files, 1);
    assert_eq!(root_only.skipped_files.len(), 1);

    let recursive = count_listing(workspace(), true, one_page).unwrap();

    assert_eq!(recursive.total_pages, 2);
    assert_eq!(recursive.counted_files, 2);
    assert_eq!(recursive.pdf_files, 2);
}

#[test]
fn reads_docx_pages_from_metadata_without_office() {
    assert_eq!(
        count_docx_pages_from_metadata(Ok(test_docx(7))).unwrap(),
        7
    );
}

fn app_xml(pages: &str) -> String {
    format!(
        r#"<?xml version="1.0" encoding="UTF-8" standalone="yes"?>
<Properties xmlns="http://schemas.openxmlformats.org/officeDocument/2006/extended-properties">
  <Pages>{pages}</Pages>
</Properties>"#
    )
}

fn test_docx(pages: usize) -> Vec<u8> {
    zip_with("docProps/app.xml", app_xml(&pages.to_string()).as_bytes(), 0, 0)
}

fn push_u16(output: &mut Vec<u8>, value: u16) {
    output.extend_from_slice(&value.to_le_bytes());
}

fn push_u32(output: &mut Vec<u8>, value: u32) {
    output.extend_from_slice(&value.to_le_bytes());
}

fn zip_with(name: &str, data: &[u8], method: u16, flags: u16) -> Vec<u8> {
    let mut zip = Vec::new();
    let name = name.as_bytes();

    push_u32(&mut zip, 0x0403_4b50);
    push_u16(&mut zip, 20);
    push_u16(&mut zip, flags);
    push_u16(&mut zip, method);
    push_u16(&mut zip, 0);
    push_u16(&mut zip, 0);
    push_u32(&mut zip, 0);
    push_u32(&mut zip, data.len() as u32);
    push_u32(&mut zip, data.len() as u32);
    push_u16(&mut zip, name.len() as u16);
    push_u16(&mut zip, 0);
    zip.extend_from_slice(name);
    zip.extend_from_slice(data);

    let central_directory_offset = zip.len();
    push_u32(&mut zip, 0x0201_4b50);
    push_u16(&mut zip, 20);
    push_u16(&mut zip, 20);
    push_u16(&mut zip, flags);
    push_u16(&mut zip, method);
    push_u16(&mut zip, 0);
    push_u16(&mut zip, 0);
    push_u32(&mut zip, 0);
    push_u32(&mut zip, data.len() as u32);
    push_u32(&mut zip, data.len() as u32);
    push_u16(&mut zip, name.len() as u16);
    push_u16(&mut zip, 0);
    push_u16(&mut zip, 0);
    push_u16(&mut zip, 0);
    push_u16(&mut zip, 0);
    push_u32(&mut zip, 0);
    push_u32(&mut zip, 0);
    zip.extend_from_slice(name);

    let central_directory_size = zip.len() - central_directory_offset;
    push_u32(&mut zip, 0x0605_4b50);
    push_u16(&mut zip, 0);
    push_u16(&mut zip, 0);
    push_u16(&mut zip, 1);
    push_u16(&mut zip, 1);
    push_u32(&mut zip, central_directory_size as u32);
    push_u32(&mut zip, central_directory_offset as u32);
    push_u16(&mut zip, 0);
    zip
}

fn deflated(data: &[u8]) -> Vec<u8> {
    let mut encoder = DeflateEncoder::new(Vec::new(), Compression::default());
    encoder.write_all(data).unwrap();
    encoder.finish().unwrap()
}

#[test]
fn deflated_entries_are_decompressed() {
    let xml = app_xml("12");
    let zip = zip_with("DOCPROPS/App.xml", &deflated(xml.as_bytes()), 8, 0);
    assert_eq!(read_zip_entry(&zip, "docProps/app.xml"), Ok(xml.into_bytes()));
    assert_eq!(count_docx_pages_from_metadata(Ok(zip)), Ok(12));
}

#[test]
fn broken_entries_are_reported() {
    let zip = zip_with("a", &[0xff, 0xff], 8, 0);
    assert!(read_zip_entry(&zip, "a")
        .unwrap_err()
        .starts_with("Could not decompress DOCX metadata: "));
    assert_eq!(decompressed_entry(Ok(vec![1])), Ok(vec![1]));
    assert_eq!(
        decompressed_entry(Err("torn".to_string())),
        Err("Could not decompress DOCX metadata: torn".to_string())
    );
    assert_eq!(
        read_zip_entry(&zip_with("a", b"x", 12, 0), "a"),
        Err("DOCX metadata uses unsupported ZIP compression method 12.".to_string())
    );
    assert_eq!(
        read_zip_entry(&zip_with("a", b"x", 0, 1), "a"),
        Err("DOCX package entry is encrypted.".to_string())
    );
    assert_eq!(
        read_zip_entry(&zip_with("b", b"x", 0, 0), "a"),
        Err("DOCX package does not contain a.".to_string())
    );
}

#[test]
fn broken_packages_are_reported() {
    assert_eq!(
        read_zip_entry(b"short", "a"),
        Err("DOCX package is too small to be a ZIP file.".to_string())
    );
    assert_eq!(
        read_zip_entry(&[0u8; 100], "a"),
        Err("DOCX package is missing the ZIP end record.".to_string())
    );
    let good = zip_with("a", b"x", 0, 0);
    let record = find_end_of_central_directory(&good).unwrap();
    assert_eq!(record, good.len() - 22);

    let mut past = good.clone();
    past[record + 12] = 0xff;
    assert_eq!(
        read_zip_entry(&past, "a"),
        Err("DOCX ZIP central directory points past the end of the file.".to_string())
    );
    let mut wrong = good.clone();
    let offset = read_u32(&good, record + 16).unwrap() as usize;
    wrong[offset] = 0;
    assert_eq!(
        read_zip_entry(&wrong, "a"),
        Err("DOCX ZIP central directory is invalid.".to_string())
    );
    let mut long_name = good.clone();
    long_name[offset + 29] = 0xff;
    assert_eq!(
        read_zip_entry(&long_name, "a"),
        Err("DOCX ZIP file name points past the end of the file.".to_string())
    );
    let mut local = good.clone();
    local[0] = 0;
    assert_eq!(
        read_zip_entry(&local, "a"),
        Err("DOCX ZIP local file header is invalid.".to_string())
    );
    let mut long_entry = good.clone();
    long_entry[offset + 21] = 0xff;
    assert_eq!(
        read_zip_entry(&long_entry, "a"),
        Err("DOCX ZIP entry points past the end of the file.".to_string())
    );
}

#[test]
fn end_record_is_the_last_one() {
    let mut zip = zip_with("a", b"x", 0, 0);
    let mut copy = vec![0x50, 0x4b, 0x05, 0x06];
    copy.extend_from_slice(&zip);
    assert_eq!(find_end_of_central_directory(&copy), Ok(copy.len() - 22));
    zip.extend_from_slice(&[0u8; 70_000]);
    assert_eq!(
        find_end_of_central_directory(&zip),
        Err("DOCX package is missing the ZIP end record.".to_string())
    );
}

#[test]
fn numbers_are_read_low_byte_first() {
    let bytes = [1u8, 2, 3, 4, 5];
    assert_eq!(read_u16(&bytes, 1), Ok(0x0302));
    assert_eq!(read_u32(&bytes, 1), Ok(0x0504_0302));
    assert_eq!(read_u32(&[0xff; 4], 0), Ok(u32::MAX));
    assert_eq!(
        read_u16(&bytes, 4),
        Err("DOCX ZIP field points past the end of the file.".to_string())
    );
    assert_eq!(
        read_u32(&bytes, 2),
        Err("DOCX ZIP field points past the end of the file.".to_string())
    );
    assert_eq!(
        read_u16(&bytes, usize::MAX - 1),
        Err("DOCX ZIP offset overflowed.".to_string())
    );
    assert_eq!(
        read_u32(&bytes, usize::MAX),
        Err("DOCX ZIP offset overflowed.".to_string())
    );
    assert_eq!(
        read_zip_local_entry(&bytes, 9, 1, 0),
        Err("DOCX ZIP field points past the end of the file.".to_string())
    );
}

#[test]
fn elements_are_found_by_local_name() {
    let text = |xml: &str| xml_local_element_text(xml, "Pages");
    assert_eq!(text("<a><ns:Pages x='1'> 5 </ns:Pages></a>"), Some(" 5 ".to_string()));
    assert_eq!(text("</Pages><Pages>1</Pages>"), Some("1".to_string()));
    assert_eq!(text("<Pages/>1</Pages>"), Some("1".to_string()));
    assert_eq!(text("< Pages >1</Pages>"), Some("1".to_string()));
    assert_eq!(text("<Pages>1"), None);
    assert_eq!(text("<Pages"), None);
    assert_eq!(text("<"), None);
    assert_eq!(text("<x:Pages>1</Pages></x:Pages>"), Some("1</Pages>".to_string()));
    assert_eq!(text("<é><Pages>ü</Pages></é>"), Some("ü".to_string()));
    assert_eq!(text("plain"), None);
    assert_eq!(text(""), None);
}

#[test]
fn page_metadata_is_checked() {
    assert_eq!(pages_from_app_xml(&app_xml(" 3 ")), Ok(3));
    assert_eq!(pages_from_app_xml(&app_xml("+3")), Ok(3));
    assert_eq!(
        pages_from_app_xml("<a/>"),
        Err("docProps/app.xml does not contain Pages metadata.".to_string())
    );
    for text in ["", "x", "-1", "+", "99999999999999999999999"] {
        let error = text.parse::<usize>().unwrap_err();
        assert_eq!(
            pages_from_app_xml(&app_xml(text)),
            Err(format!("DOCX Pages metadata is not a valid number: {error}"))
        );
    }
    assert_eq!(
        pages_from_app_xml(&app_xml("0")),
        Err("DOCX Pages metadata is zero, so it is probably stale.".to_string())
    );
    assert_eq!(
        count_docx_pages_from_metadata(Err("gone".to_string())),
        Err("Could not read DOCX package: gone".to_string())
    );
    let error = String::from_utf8(vec![0xff]).unwrap_err();
    assert_eq!(
        count_docx_pages_from_metadata(Ok(zip_with("docProps/app.xml", &[0xff], 0, 0))),
        Err(format!("docProps/app.xml is not valid UTF-8: {error}"))
    );
}

#[test]
fn files_are_classed_by_extension() {
    let kind = |name: &str| classify_file(&name.as_bytes().to_vec());
    assert_eq!(kind("a.PDF"), FileKind::Pdf);
    for name in ["a.ppt", "a.pptx", "a.pptm", "a.pps", "a.ppsx"] {
        assert_eq!(kind(name), FileKind::PowerPoint);
    }
    for name in ["a.doc", "a.DocX", "a.docm", "a.rtf", "a.odt"] {
        assert_eq!(kind(name), FileKind::Document);
    }
    for name in ["a.xls", "a.xlsx", "a.xlsm", "a.xlsb", "a.ods", "a.csv"] {
        assert_eq!(kind(name), FileKind::Spreadsheet);
    }
    for name in ["pdf", ".pdf", "a.pdf.txt", "a.", "..", ".", "a.pdf "] {
        assert_eq!(kind(name), FileKind::Unsupported);
    }
    assert_eq!(classify_file(&vec![b'a', b'.', 0xff]), FileKind::Unsupported);
}

#[test]
fn extensions_are_those_of_paths() {
    for name in ["a.b.c", ".b", "a.", "..", ".a.b", "a", "...", "..a", ".é.Ü"] {
        let expected = PathBuf::from(name)
            .extension()
            .map(|extension| extension.to_str().unwrap().to_string());
        assert_eq!(extension_of(&name.as_bytes().to_vec()), expected, "{name}");
    }
}

#[test]
fn special_names_are_recognised() {
    assert!(is_office_lock_file(&b"~$report.docx".to_vec()));
    assert!(!is_office_lock_file(&b"$~report.docx".to_vec()));
    assert!(!is_office_lock_file(&vec![b'~', b'$', 0xff]));
    assert!(is_docx_package(&b"a.DOCX".to_vec()));
    assert!(is_docx_package(&b"a.docm".to_vec()));
    assert!(!is_docx_package(&b"a.doc".to_vec()));
    assert_eq!(file_task(&b"~$a.pdf".to_vec()), FileTask::Nothing);
    assert_eq!(file_task(&b"a.pdf".to_vec()), FileTask::ReadPdf);
    assert_eq!(file_task(&b"a.odt".to_vec()), FileTask::CountDocument);
    assert_eq!(file_task(&b"a.csv".to_vec()), FileTask::Nothing);
}

#[test]
fn unreadable_folders_stop_the_collecting() {
    let mut files = Vec::new();
    let failed = FolderListing {
        path: PathBuf::from("x"),
        entries: Err("denied".to_string()),
    };
    assert_eq!(
        collect_files(failed, true, &mut files),
        Err("Could not read folder x: denied".to_string())
    );
    let failed = FolderListing {
        path: PathBuf::from("x"),
        entries: Ok(vec![
            FolderEntry::Folder(FolderListing {
                path: PathBuf::from("x/y"),
                entries: Ok(vec![FolderEntry::Failed("torn".to_string())]),
            }),
            FolderEntry::File(file("x/a")),
        ]),
    };
    assert_eq!(
        collect_files(failed, true, &mut files),
        Err("Could not read an entry in x/y: torn".to_string())
    );
}

fn mixed(found: &FoundFile) -> FileContent {
    match found.path.to_str().unwrap() {
        "f/a.pdf" => FileContent::Pdf(Ok(test_pdf(3))),
        "f/b.pdf" => FileContent::Pdf(Err("denied".to_string())),
        "f/c.docx" => FileContent::Document(Ok(DocumentPageCount {
            pages: 4,
            backend: DocumentBackend::MicrosoftWord,
        })),
        "f/d.odt" => FileContent::Document(Ok(DocumentPageCount {
            pages: 5,
            backend: DocumentBackend::LibreOfficeFallback,
        })),
        _ => FileContent::Document(Err("no program".to_string())),
    }
}

#[test]
fn every_file_is_counted_skipped_or_failed() {
    let entries = [
        "f/a.pdf", "f/b.pdf", "f/c.docx", "f/d.odt", "f/e.rtf", "f/s.pptx", "f/t.csv", "f/~$c.docx",
        "f/u.txt",
    ];
    let listing = FolderListing {
        path: PathBuf::from("f"),
        entries: Ok(entries.iter().map(|path| FolderEntry::File(file(path))).collect()),
    };
    let summary = count_listing(listing, false, mixed).unwrap();
    let note = |path: &str, reason: &str| FileNote {
        path: PathBuf::from(path),
        reason: reason.to_string(),
    };
    assert_eq!(
        summary,
        PageCountSummary {
            folder: PathBuf::from("f"),
            include_subfolders: false,
            powerpoint_slides_per_page: 4,
            total_pages: 12,
            counted_files: 3,
            pdf_files: 2,
            document_files: 3,
            word_counted_files: 1,
            libreoffice_fallback_files: 1,
            skipped_files: vec![
                note("f/s.pptx", "PowerPoint slide counting starts in Epic C5."),
                note("f/t.csv", "Excel and spreadsheet files are explicitly unsupported."),
            ],
            failed_files: vec![
                note("f/b.pdf", "Could not read PDF: denied"),
                note("f/e.rtf", "no program"),
            ],
        }
    );
    assert_eq!(
        summary.counted_files + summary.failed_files.len(),
        summary.pdf_files + summary.document_files
    );
}

fn nested() -> FolderListing {
    let inner = ["f/g/x.pdf", "f/g/b.pdf", "f/g/y.pptx"];
    FolderListing {
        path: PathBuf::from("f"),
        entries: Ok(vec![
            FolderEntry::File(file("f/a.pdf")),
            FolderEntry::Folder(FolderListing {
                path: PathBuf::from("f/g"),
                entries: Ok(inner.iter().map(|path| FolderEntry::File(file(path))).collect()),
            }),
            FolderEntry::File(file("f/b.pdf")),
            FolderEntry::File(file("f/s.pptx")),
            FolderEntry::File(file("f/c.docx")),
        ]),
    }
}

fn nested_content(found: &FoundFile) -> FileContent {
    match found.path.to_str().unwrap() {
        "f/g/x.pdf" => FileContent::Pdf(Ok(test_pdf(2))),
        "f/g/b.pdf" => FileContent::Pdf(Err("torn".to_string())),
        _ => mixed(found),
    }
}

#[test]
fn subfolders_only_add_to_the_count() {
    let own = count_listing(nested(), false, nested_content).unwrap();
    let all = count_listing(nested(), true, nested_content).unwrap();
    assert_eq!((own.total_pages, all.total_pages), (7, 9));
    assert_eq!((own.counted_files, all.counted_files), (2, 3));
    assert_eq!((own.pdf_files, all.pdf_files), (2, 4));
    assert_eq!((own.document_files, all.document_files), (1, 1));
    assert_eq!((own.failed_files.len(), all.failed_files.len()), (1, 2));
    assert_eq!((own.skipped_files.len(), all.skipped_files.len()), (1, 2));
    for note in &own.failed_files {
        assert!(all.failed_files.contains(note));
        assert_eq!(note.path.parent(), Some(PathBuf::from("f").as_path()));
    }
    for note in &own.skipped_files {
        assert!(all.skipped_files.contains(note));
        assert_eq!(note.path.parent(), Some(PathBuf::from("f").as_path()));
    }

    let flat = |include_subfolders| {
        let listing = FolderListing {
            path: PathBuf::from("f"),
            entries: Ok(vec![
                FolderEntry::File(file("f/a.pdf")),
                FolderEntry::Other,
                FolderEntry::File(file("f/b.pdf")),
            ]),
        };
        count_listing(listing, include_subfolders, mixed).unwrap()
    };
    assert_eq!(
        flat(true),
        PageCountSummary {
            include_subfolders: true,
            ..flat(false)
        }
    );
}

#[test]
fn totals_that_do_not_fit_have_no_result() {
    let options = PageCounterOptions {
        folder: PathBuf::from("f"),
        include_subfolders: false,
        powerpoint_slides_per_page: 1,
    };
    let huge = |name: &str| FileInput {
        file: file(name),
        content: FileContent::Document(Ok(DocumentPageCount {
            pages: usize::MAX,
            backend: DocumentBackend::MicrosoftWord,
        })),
    };
    assert_eq!(
        count_folder(&options, vec![huge("a.doc")]).unwrap().total_pages,
        usize::MAX
    );
    assert_eq!(count_folder(&options, vec![huge("a.doc"), huge("b.doc")]), None);
}

#[test]
fn word_is_preferred_and_libreoffice_is_the_fallback() {
    let uncounted = |docx_metadata_estimate: Option<usize>, word_error: Option<&str>| UncountedDocument {
        docx_metadata_estimate,
        word_error: word_error.map(str::to_string),
    };
    assert_eq!(
        count_document_pages_from_word(Some(9), Some(Ok(3))),
        DocumentStep::Finished(DocumentPageCount {
            pages: 3,
            backend: DocumentBackend::MicrosoftWord,
        })
    );
    assert_eq!(
        count_document_pages_from_word(Some(9), Some(Err("w".to_string()))),
        DocumentStep::AskLibreOffice(uncounted(Some(9), Some("w")))
    );
    assert_eq!(
        count_document_pages_from_word(None, None),
        DocumentStep::AskLibreOffice(uncounted(None, None))
    );

    let counted = count_document_pages(uncounted(Some(9), Some("w")), Ok(2)).unwrap();
    assert_eq!(counted.backend, DocumentBackend::LibreOfficeFallback);
    assert_eq!(counted.pages, 2);
    assert_eq!(
        count_document_pages(uncounted(Some(9), Some("w")), Err("l".to_string())),
        Err("DOCX saved metadata says 9 pages, but it was not used because that value can be stale.\nLibreOffice failed: l\nMicrosoft Word fallback failed: w".to_string())
    );
    assert_eq!(
        count_document_pages(uncounted(None, None), Err("l".to_string())),
        Err("LibreOffice failed: l".to_string())
    );
    assert_eq!(format_document_count_errors(None, None, None), "");
}

#[test]
fn conversion_tries_every_program() {
    let candidates = libreoffice_candidates();
    assert_eq!(candidates.len(), 6);
    assert_eq!(candidates[0], r"C:\Program Files\LibreOffice\program\soffice.com");
    assert_eq!(candidates[5], "soffice.exe");

    let mut run = ConversionRun::new();
    for candidate in &candidates[..5] {
        assert_eq!(run.program().as_ref(), Some(candidate));
        run = match run.advance(ConversionOutcome::Missing) {
            ConversionProgress::Continue(run) => run,
            ConversionProgress::Finished(_) => panic!("a program is left"),
        };
    }
    match run.advance(ConversionOutcome::Failed("crash".to_string())) {
        ConversionProgress::Finished(Err(error)) => {
            assert!(error.starts_with(
                r"LibreOffice could not convert the document. Attempts: C:\Program Files\LibreOffice\program\soffice.com does not exist | C:\Program Files\LibreOffice\program\soffice.exe does not exist | "
            ));
            assert!(error.ends_with(" | soffice.com does not exist | soffice.exe failed: crash"));
        }
        _ => panic!("no program is left"),
    }
    match ConversionRun::new().advance(ConversionOutcome::Converted(Ok(8))) {
        ConversionProgress::Finished(result) => assert_eq!(result, Ok(8)),
        ConversionProgress::Continue(_) => panic!("the conversion is done"),
    }
}

#[test]
fn converted_pdf_has_to_be_the_only_one() {
    let names = |names: &[&str]| {
        Ok(names.iter().map(|name| name.as_bytes().to_vec()).collect::<Vec<Vec<u8>>>())
    };
    assert_eq!(find_converted_pdf(names(&["a.txt", "b.PDF", "pdf"])), Ok(1));
    assert_eq!(
        find_converted_pdf(names(&["a.txt"])),
        Err("LibreOffice did not create a PDF output file.".to_string())
    );
    assert_eq!(
        find_converted_pdf(names(&["a.pdf", "b.pdf"])),
        Err("LibreOffice created more than one PDF output file.".to_string())
    );
    assert_eq!(
        find_converted_pdf(Err("denied".to_string())),
        Err("Could not read LibreOffice output folder: denied".to_string())
    );
}

#[test]
fn exported_pdf_is_the_last_line() {
    assert_eq!(exported_pdf("x\n C:\\a.pdf \r\n\n"), Ok("C:\\a.pdf".to_string()));
    assert_eq!(
        exported_pdf(" \n"),
        Err("Word did not return a PDF export path.".to_string())
    );
    assert_eq!(converted_pages(Ok(3)), Ok(3));
    assert_eq!(
        converted_pages(Err("x".to_string())),
        Err("Converted PDF could not be counted: x".to_string())
    );
    assert_eq!(exported_pages(Ok(3)), Ok(3));
    assert_eq!(
        exported_pages(Err("x".to_string())),
        Err("Word exported a PDF, but the exported PDF could not be counted: x".to_string())
    );
}

#[test]
fn local_copies_keep_the_extension() {
    assert_eq!(local_copy_name(&b"a.DocX".to_vec()), "document.DocX");
    assert_eq!(local_copy_name(&b"a.".to_vec()), "document.doc");
    assert_eq!(local_copy_name(&b"a".to_vec()), "document.doc");
    assert_eq!(
        copy_failure("s", "e"),
        "Could not copy document s to a local temporary file: e"
    );
    assert_eq!(resolve_failure("e"), "Could not resolve document path: e");
    assert_eq!(temporary_folder_name("p", 3, 44), "p-3-44");
    assert_eq!(
        temporary_folder_failure("p", "e"),
        "Could not create temporary folder p: e"
    );
}

#[test]
fn word_script_holds_quoted_paths() {
    let script = word_export_script("C:\\it's.doc", "C:\\o.pdf");
    assert!(script.starts_with(
        "\n$ErrorActionPreference = 'Stop'\n$path = 'C:\\it''s.doc'\n$pdfPath = 'C:\\o.pdf'\n$word = $null\n"
    ));
    assert!(script.contains("$doc.ExportAsFixedFormat($pdfPath, 17)"));
    assert!(script.ends_with("    [GC]::WaitForPendingFinalizers()\n}\n"));
}
