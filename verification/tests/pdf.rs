use std::path::PathBuf;

use lopdf::content::{Content, Operation};
use lopdf::{
    Dictionary, Document, EncryptionState, EncryptionVersion, Object, Permissions, Stream,
};
use printltools::page_counter::{count_pdf_pages, pdf_result};
use printltools::pdf::documents::type_of_object;
use printltools::pdf::saving::{
    after_save_step, first_save_step, temporary_file_name, SaveProgress, SaveStep, StepOutcome,
};
use printltools::pdf::{
    finish_merge, gather_document, join_documents, merge_pdfs, read_inputs, Gathered, MergedPdf,
    refuse_sources, PdfInput, PdfSource, ReadInputs,
};

fn dictionary(entries: Vec<(&str, Object)>) -> Dictionary {
    let mut dictionary = Dictionary::new();
    for (key, value) in entries {
        dictionary.set(key, value);
    }
    dictionary
}

fn test_pdf(labels: &[&str]) -> Vec<u8> {
    let mut document = Document::with_version("1.5");
    let pages_id = document.new_object_id();
    let font_id = document.add_object(dictionary(vec![
        ("Type", "Font".into()),
        ("Subtype", "Type1".into()),
        ("BaseFont", "Courier".into()),
    ]));
    let resources_id = document.add_object(dictionary(vec![(
        "Font",
        Object::Dictionary(dictionary(vec![("F1", font_id.into())])),
    )]));
    let mut kids: Vec<Object> = Vec::new();
    for label in labels {
        let content = Content {
            operations: vec![
                Operation::new("BT", vec![]),
                Operation::new("Tf", vec!["F1".into(), 24.into()]),
                Operation::new("Td", vec![100.into(), 600.into()]),
                Operation::new("Tj", vec![Object::string_literal(*label)]),
                Operation::new("ET", vec![]),
            ],
        };
        let content_id =
            document.add_object(Stream::new(Dictionary::new(), content.encode().unwrap()));
        let page_id = document.add_object(dictionary(vec![
            ("Type", "Page".into()),
            ("Parent", pages_id.into()),
            ("Contents", content_id.into()),
            ("Resources", resources_id.into()),
            (
                "MediaBox",
                vec![0.into(), 0.into(), 595.into(), 842.into()].into(),
            ),
        ]));
        kids.push(page_id.into());
    }
    let count = kids.len() as u32;
    document.objects.insert(
        pages_id,
        Object::Dictionary(dictionary(vec![
            ("Type", "Pages".into()),
            ("Kids", kids.into()),
            ("Count", count.into()),
        ])),
    );
    let outlines_id = document.add_object(dictionary(vec![("Type", "Outlines".into())]));
    let catalog_id = document.add_object(dictionary(vec![
        ("Type", "Catalog".into()),
        ("Pages", pages_id.into()),
        ("Outlines", outlines_id.into()),
    ]));
    document.trailer.set("Root", catalog_id);
    let mut bytes = Vec::new();
    document.save_to(&mut bytes).unwrap();
    bytes
}

fn input(path: &str, content: Result<Vec<u8>, String>) -> PdfInput {
    PdfInput {
        source: PdfSource {
            path: PathBuf::from(path),
            is_output: false,
        },
        content,
    }
}

fn merge(inputs: Vec<PdfInput>) -> Result<MergedPdf, String> {
    merge_pdfs(
        &inputs,
        &PathBuf::from("joined.pdf"),
        &PathBuf::from(".printltools-joined.pdf.tmp"),
    )
    .expect("the objects fit")
}

fn page_text(document: &Document, page: u32) -> String {
    let id = document.get_pages()[&page];
    String::from_utf8(document.get_page_content(id)).unwrap()
}

#[test]
fn merges_two_single_page_pdfs() {
    let first = input("first.pdf", Ok(test_pdf(&["First"])));
    let second = input("second.pdf", Ok(test_pdf(&["Second"])));

    let joined = merge(vec![first, second]).unwrap();

    assert_eq!(joined.summary.input_count, 2);
    assert_eq!(joined.summary.total_pages, 2);
    assert_eq!(joined.summary.output_path, PathBuf::from("joined.pdf"));

    let merged = Document::load_mem(&joined.bytes).unwrap();
    assert_eq!(merged.get_pages().len(), 2);
}

#[test]
fn joined_pages_keep_their_order() {
    let joined = merge(vec![
        input("a.pdf", Ok(test_pdf(&["One", "Two"]))),
        input("b.pdf", Ok(test_pdf(&["Three"]))),
        input("c.pdf", Ok(test_pdf(&["Four", "Five"]))),
    ])
    .unwrap();

    assert_eq!(joined.summary.total_pages, 5);
    let merged = Document::load_mem(&joined.bytes).unwrap();
    assert_eq!(merged.version, "1.5");
    for (i, label) in ["One", "Two", "Three", "Four", "Five"].iter().enumerate() {
        assert!(page_text(&merged, i as u32 + 1).contains(*label));
    }
    let catalog = merged.catalog().unwrap();
    assert!(catalog.get(b"Outlines").is_err());
    let root_id = catalog.get(b"Pages").unwrap().as_reference().unwrap();
    let root = merged.get_dictionary(root_id).unwrap();
    assert_eq!(root.get(b"Count").unwrap().as_i64().unwrap(), 5);
    for id in merged.get_pages().into_values() {
        let page = merged.get_dictionary(id).unwrap();
        assert_eq!(page.get(b"Parent").unwrap().as_reference().unwrap(), root_id);
    }
}

#[test]
fn joining_needs_two_files() {
    assert_eq!(
        merge(vec![]).unwrap_err(),
        "Select at least two PDF files to join."
    );
    assert_eq!(
        merge(vec![input("a.pdf", Ok(test_pdf(&["A"])))]).unwrap_err(),
        "Select at least two PDF files to join."
    );
}

#[test]
fn output_cannot_be_an_input() {
    let mut own = input("b.pdf", Ok(test_pdf(&["B"])));
    own.source.is_output = true;
    assert_eq!(
        merge(vec![input("a.pdf", Err("never read".to_string())), own]).unwrap_err(),
        "Output file cannot be one of the selected source files: b.pdf"
    );
}

#[test]
fn selections_are_refused_before_reading() {
    let source = |path: &str, is_output: bool| PdfSource {
        path: PathBuf::from(path),
        is_output,
    };
    assert_eq!(
        refuse_sources(&vec![source("a.pdf", true)]),
        Some("Select at least two PDF files to join.".to_string())
    );
    assert_eq!(
        refuse_sources(&vec![source("a", false), source("b", true), source("c", true)]),
        Some("Output file cannot be one of the selected source files: b".to_string())
    );
    assert_eq!(refuse_sources(&vec![source("a", false), source("b", false)]), None);
}

#[test]
fn files_that_cannot_be_read_stop_the_joining() {
    assert_eq!(
        merge(vec![
            input("a.pdf", Ok(test_pdf(&["A"]))),
            input("b.pdf", Err("access denied".to_string())),
        ])
        .unwrap_err(),
        "Could not read b.pdf: access denied"
    );
    let error = merge(vec![
        input("a.pdf", Ok(b"no pdf".to_vec())),
        input("b.pdf", Ok(test_pdf(&["B"]))),
    ])
    .unwrap_err();
    let expected = Document::load_mem(b"no pdf").unwrap_err().to_string();
    assert_eq!(error, format!("Could not read a.pdf: {expected}"));
}

#[test]
fn files_without_pages_stop_the_joining() {
    let empty = test_pdf(&[]);
    assert_eq!(
        merge(vec![
            input("a.pdf", Ok(test_pdf(&["A"]))),
            input("empty.pdf", Ok(empty)),
        ])
        .unwrap_err(),
        "No pages found in empty.pdf"
    );
}

#[test]
fn objects_of_the_files_follow_each_other() {
    let read = read_inputs(&vec![
        input("a.pdf", Ok(test_pdf(&["A"]))),
        input("b.pdf", Ok(test_pdf(&["B", "C"]))),
    ]);
    match read {
        ReadInputs::Done(gathered) => {
            assert_eq!(gathered.pages.len(), 3);
            let numbers: Vec<u32> = gathered.objects.iter().map(|(id, _)| id.0).collect();
            let expected: Vec<u32> = (1..gathered.next_id).collect();
            assert_eq!(numbers, expected);
        }
        _ => panic!("the files can be read"),
    }
}

fn odd_pdf() -> Vec<u8> {
    let page = |number: i64| {
        Object::Dictionary(dictionary(vec![("Type", "Page".into()), ("Number", number.into())]))
    };
    let mut document = Document::with_version("1.5");
    document.objects.insert((20, 0), page(1));
    document.objects.insert((5, 3), page(2));
    document.objects.insert((9, 0), page(3));
    document.objects.insert((5, 0), Object::Integer(7));
    let kids: Vec<Object> = vec![
        Object::Reference((20, 0)),
        Object::Reference((5, 3)),
        Object::Reference((9, 0)),
        Object::Reference((20, 0)),
    ];
    document.objects.insert(
        (30, 0),
        Object::Dictionary(dictionary(vec![
            ("Type", "Pages".into()),
            ("Kids", kids.into()),
            ("Count", 4.into()),
        ])),
    );
    document.objects.insert(
        (40, 0),
        Object::Dictionary(dictionary(vec![
            ("Type", "Catalog".into()),
            ("Pages", Object::Reference((30, 0))),
        ])),
    );
    document.trailer.set("Root", Object::Reference((40, 0)));
    document.max_id = 40;
    let mut bytes = Vec::new();
    document.save_to(&mut bytes).unwrap();
    bytes
}

#[test]
fn odd_numbers_are_renumbered_without_gaps() {
    let mut document = Document::load_mem(&odd_pdf()).unwrap();
    let before = document.objects.len();
    document.renumber_objects_with(100);
    assert!(document.objects.len() <= before);
    let numbers: Vec<u32> = document.objects.keys().map(|id| id.0).collect();
    let expected: Vec<u32> = (100..=document.max_id).collect();
    assert_eq!(numbers, expected);

    let gathered = Gathered {
        next_id: 100,
        pages: Vec::new(),
        objects: Vec::new(),
    };
    let source = Document::load_mem(&odd_pdf()).unwrap();
    let gathered = gather_document(gathered, source, &PathBuf::from("odd.pdf")).unwrap();
    assert_eq!(gathered.next_id, document.max_id + 1);
    let ids: Vec<(u32, u16)> = gathered.pages.iter().map(|page| page.0).collect();
    let expected: Vec<(u32, u16)> = document.get_pages().into_values().collect();
    assert_eq!(ids, expected);
}

#[test]
fn documents_are_gathered_after_each_other() {
    let document = Document::load_mem(&test_pdf(&["A"])).unwrap();
    let count = document.objects.len() as u32;
    let gathered = Gathered {
        next_id: 41,
        pages: Vec::new(),
        objects: Vec::new(),
    };
    let next = gather_document(gathered, document, &PathBuf::from("a.pdf")).unwrap();
    assert_eq!(next.next_id, 41 + count);
    assert_eq!(next.pages.len(), 1);
    assert!(next.objects.iter().all(|(id, _)| id.0 >= 41 && id.0 < 41 + count));

    let gathered = Gathered {
        next_id: 1,
        pages: Vec::new(),
        objects: Vec::new(),
    };
    let error = gather_document(gathered, Document::new(), &PathBuf::from("b.pdf"))
        .err()
        .unwrap();
    assert_eq!(error, "No pages found in b.pdf");
}

fn named(name: &str) -> Object {
    Object::Dictionary(dictionary(vec![("Type", name.into())]))
}

#[test]
fn joining_needs_a_page_tree_and_a_catalog() {
    let pages = vec![((3u32, 0u16), named("Page"))];
    assert_eq!(
        join_documents(&pages, vec![((1, 0), named("Catalog"))])
            .err()
            .unwrap(),
        "Pages root not found in selected PDFs."
    );
    assert_eq!(
        join_documents(&pages, vec![((1, 0), named("Pages"))])
            .err()
            .unwrap(),
        "Catalog root not found in selected PDFs."
    );
}

#[test]
fn pages_and_catalogs_have_to_be_dictionaries() {
    let objects = || vec![((1, 0), named("Catalog")), ((2, 0), named("Pages"))];
    assert_eq!(
        join_documents(&vec![((3, 5), Object::Null)], objects())
            .err()
            .unwrap(),
        "Page object (3, 5) is not a page dictionary: object has wrong type; expected type Dictionary but found type Null"
    );
    let stream = Object::Stream(Stream::new(
        dictionary(vec![("Type", "Catalog".into())]),
        Vec::new(),
    ));
    assert_eq!(
        join_documents(
            &vec![((3, 0), named("Page"))],
            vec![((1, 0), stream), ((2, 0), named("Pages"))],
        )
        .err()
        .unwrap(),
        "Catalog root is not a dictionary: object has wrong type; expected type Dictionary but found type Stream"
    );
}

#[test]
fn joined_document_keeps_other_objects_and_merges_roots() {
    let first_catalog = Object::Dictionary(dictionary(vec![
        ("Type", "Catalog".into()),
        ("Lang", "first".into()),
    ]));
    let last_catalog = Object::Dictionary(dictionary(vec![
        ("Type", "Catalog".into()),
        ("Lang", "last".into()),
        ("Outlines", 7.into()),
    ]));
    let first_root = Object::Dictionary(dictionary(vec![
        ("Type", "Pages".into()),
        ("Count", 1.into()),
        ("Rotate", 90.into()),
    ]));
    let last_root = Object::Dictionary(dictionary(vec![
        ("Type", "Pages".into()),
        ("Count", 1.into()),
    ]));
    let page = |n: i64| {
        Object::Dictionary(dictionary(vec![("Type", "Page".into()), ("Number", n.into())]))
    };
    let document = join_documents(
        &vec![((4, 0), page(1)), ((9, 0), page(2))],
        vec![
            ((1, 0), first_catalog),
            ((2, 0), first_root),
            ((3, 0), named("Font")),
            ((4, 0), page(1)),
            ((5, 0), named("Outlines")),
            ((6, 0), named("Outline")),
            ((7, 0), last_catalog),
            ((8, 0), last_root),
            ((9, 0), page(2)),
            ((10, 0), Object::Integer(5)),
        ],
    )
    .unwrap();

    let ids: Vec<(u32, u16)> = document.objects.keys().copied().collect();
    assert_eq!(ids, vec![(1, 0), (2, 0), (3, 0), (4, 0), (9, 0), (10, 0)]);
    assert_eq!(document.objects[&(3, 0)], named("Font"));
    assert_eq!(document.objects[&(10, 0)], Object::Integer(5));
    let catalog = document.objects[&(1, 0)].as_dict().unwrap();
    assert_eq!(catalog.get(b"Lang").unwrap().as_name().unwrap(), b"last");
    assert_eq!(catalog.get(b"Pages").unwrap().as_reference().unwrap(), (2, 0));
    assert!(catalog.get(b"Outlines").is_err());
    let root = document.objects[&(2, 0)].as_dict().unwrap();
    assert_eq!(root.get(b"Rotate").unwrap().as_i64().unwrap(), 90);
    assert_eq!(root.get(b"Count").unwrap().as_i64().unwrap(), 2);
    let kids: Vec<(u32, u16)> = root
        .get(b"Kids")
        .unwrap()
        .as_array()
        .unwrap()
        .iter()
        .map(|kid| kid.as_reference().unwrap())
        .collect();
    assert_eq!(kids, vec![(4, 0), (9, 0)]);
    let second = document.objects[&(9, 0)].as_dict().unwrap();
    assert_eq!(second.get(b"Parent").unwrap().as_reference().unwrap(), (2, 0));
    assert_eq!(second.get(b"Number").unwrap().as_i64().unwrap(), 2);
    assert_eq!(document.trailer.get(b"Root").unwrap().as_reference().unwrap(), (1, 0));
    assert_eq!(document.version, "1.5");
}

#[test]
fn type_of_an_object_is_that_of_its_dictionary() {
    assert_eq!(type_of_object(&named("Font")), Some(b"Font".to_vec()));
    let stream = Object::Stream(Stream::new(
        dictionary(vec![("Type", "XObject".into())]),
        Vec::new(),
    ));
    assert_eq!(type_of_object(&stream), Some(b"XObject".to_vec()));
    assert_eq!(type_of_object(&Object::Null), None);
    assert_eq!(type_of_object(&Object::Dictionary(Dictionary::new())), None);
}

#[test]
fn written_documents_become_results() {
    let output = PathBuf::from("out.pdf");
    let temp = PathBuf::from("tmp.pdf");
    let merged = finish_merge(Ok(vec![1, 2]), &output, &temp, 3, 9).unwrap();
    assert_eq!(merged.bytes, vec![1, 2]);
    assert_eq!(merged.summary.output_path, output);
    assert_eq!(merged.summary.input_count, 3);
    assert_eq!(merged.summary.total_pages, 9);
    assert_eq!(
        finish_merge(Err("disk full".to_string()), &output, &temp, 3, 9)
            .err()
            .unwrap(),
        "Could not write temporary PDF tmp.pdf: disk full"
    );
}

#[test]
fn pdf_pages_are_counted() {
    assert_eq!(count_pdf_pages(&Ok(test_pdf(&["A", "B", "C"]))), Ok(3));
    assert_eq!(
        count_pdf_pages(&Err("gone".to_string())),
        Err("Could not read PDF: gone".to_string())
    );
    let expected = Document::load_mem(b"").unwrap_err().to_string();
    assert_eq!(
        count_pdf_pages(&Ok(Vec::new())),
        Err(format!("Could not read PDF: {expected}"))
    );
    assert_eq!(
        pdf_result(Ok((true, 4))),
        Err(
            "Encrypted PDFs require password handling, which is still an open spec question."
                .to_string()
        )
    );
    assert_eq!(pdf_result(Ok((false, 4))), Ok(4));
    assert_eq!(
        pdf_result(Err("torn".to_string())),
        Err("Could not read PDF: torn".to_string())
    );
}

#[test]
fn encrypted_pdfs_are_not_counted() {
    let mut document = Document::load_mem(&test_pdf(&["A"])).unwrap();
    let encrypt = document.add_object(dictionary(vec![("Filter", "Unknown".into())]));
    document.trailer.set("Encrypt", encrypt);
    assert!(document.is_encrypted());
    let mut bytes = Vec::new();
    document.save_to(&mut bytes).unwrap();
    assert!(Document::load_mem(&bytes).unwrap().is_encrypted());
    assert_eq!(count_pdf_pages(&Ok(bytes)), pdf_result(Ok((true, 1))));
}

#[test]
fn pdfs_without_a_password_are_decrypted() {
    let mut document = Document::load_mem(&test_pdf(&["A", "B"])).unwrap();
    let id = Object::string_literal("0123456789abcdef");
    document.trailer.set("ID", vec![id.clone(), id]);
    let state = EncryptionState::try_from(EncryptionVersion::V2 {
        document: &document,
        owner_password: "owner",
        user_password: "",
        key_length: 40,
        permissions: Permissions::all(),
    })
    .unwrap();
    document.encrypt(&state).unwrap();
    let mut bytes = Vec::new();
    document.save_to(&mut bytes).unwrap();
    assert!(Document::load_mem(&bytes).unwrap().was_encrypted());
    assert_eq!(count_pdf_pages(&Ok(bytes.clone())), Ok(2));

    let joined = merge(vec![
        input("a.pdf", Ok(bytes)),
        input("b.pdf", Ok(test_pdf(&["C"]))),
    ])
    .unwrap();
    let merged = Document::load_mem(&joined.bytes).unwrap();
    assert_eq!(merged.get_pages().len(), 3);
    assert!(page_text(&merged, 1).contains("(A)"));
    assert!(page_text(&merged, 3).contains("(C)"));
}

/// A PDF with two pages, of which the second hangs under a node of its own.
fn pdf_with_claim(claim: i64) -> Vec<u8> {
    let mut document = Document::with_version("1.5");
    let root_id = document.new_object_id();
    let node_id = document.new_object_id();
    let mut pages: Vec<Object> = Vec::new();
    for parent in [root_id, node_id] {
        let page_id = document.add_object(dictionary(vec![
            ("Type", "Page".into()),
            ("Parent", parent.into()),
        ]));
        pages.push(page_id.into());
    }
    let second = pages.remove(1);
    pages.push(node_id.into());
    document.objects.insert(
        root_id,
        Object::Dictionary(dictionary(vec![
            ("Type", "Pages".into()),
            ("Kids", pages.into()),
            ("Count", 2.into()),
        ])),
    );
    document.objects.insert(
        node_id,
        Object::Dictionary(dictionary(vec![
            ("Type", "Pages".into()),
            ("Parent", root_id.into()),
            ("Kids", vec![second].into()),
            ("Count", claim.into()),
        ])),
    );
    let catalog_id = document.add_object(dictionary(vec![
        ("Type", "Catalog".into()),
        ("Pages", root_id.into()),
    ]));
    document.trailer.set("Root", catalog_id);
    let mut bytes = Vec::new();
    document.save_to(&mut bytes).unwrap();
    bytes
}

#[test]
fn claimed_page_counts_are_not_believed() {
    let other = || input("b.pdf", Ok(test_pdf(&["B"])));
    for claim in [1, 7, 0, -3] {
        assert_eq!(count_pdf_pages(&Ok(pdf_with_claim(claim))), Ok(2));
        let joined = merge(vec![input("a.pdf", Ok(pdf_with_claim(claim))), other()]).unwrap();
        assert_eq!(joined.summary.total_pages, 3);
    }
    assert_eq!(count_pdf_pages(&Ok(pdf_with_claim(i64::MAX))), Ok(2));
    for inputs in [
        vec![input("a.pdf", Ok(pdf_with_claim(i64::MAX))), other()],
        vec![other(), input("a.pdf", Ok(pdf_with_claim(i64::MAX)))],
    ] {
        assert!(matches!(read_inputs(&inputs), ReadInputs::TooLarge));
        assert!(merge_pdfs(&inputs, &PathBuf::from("o"), &PathBuf::from("t")).is_none());
    }
}

#[test]
fn claims_outside_the_page_tree_do_not_matter() {
    let mut document = Document::load_mem(&test_pdf(&["A", "B"])).unwrap();
    let bold = document.add_object(dictionary(vec![
        ("Type", "Pages".into()),
        ("Count", i64::MAX.into()),
    ]));
    document.add_object(dictionary(vec![
        ("Type", "Font".into()),
        ("Kids", vec![bold.into()].into()),
    ]));
    let page = document.get_pages()[&2];
    document.get_dictionary_mut(page).unwrap().set("Count", i64::MAX);
    let mut bytes = Vec::new();
    document.save_to(&mut bytes).unwrap();
    assert_eq!(count_pdf_pages(&Ok(bytes.clone())), Ok(2));
    let joined = merge(vec![
        input("a.pdf", Ok(bytes)),
        input("b.pdf", Ok(test_pdf(&["C"]))),
    ])
    .unwrap();
    assert_eq!(joined.summary.total_pages, 3);
    assert_eq!(Document::load_mem(&joined.bytes).unwrap().get_pages().len(), 3);
}

#[test]
fn page_trees_that_lead_back_to_themselves_are_survived() {
    let mut document = Document::load_mem(&test_pdf(&["A", "B"])).unwrap();
    let catalog = document.catalog().unwrap();
    let root = catalog.get(b"Pages").unwrap().as_reference().unwrap();
    let tree = document.get_dictionary_mut(root).unwrap();
    let mut kids = tree.get(b"Kids").unwrap().as_array().unwrap().clone();
    kids.push(root.into());
    tree.set("Kids", kids);
    let mut bytes = Vec::new();
    document.save_to(&mut bytes).unwrap();
    let pages = Document::load_mem(&bytes).unwrap().get_pages().len();
    assert_eq!(count_pdf_pages(&Ok(bytes.clone())), Ok(pages));
    let joined = merge(vec![
        input("a.pdf", Ok(bytes)),
        input("b.pdf", Ok(test_pdf(&["C"]))),
    ])
    .unwrap();
    assert!(joined.summary.total_pages > 3);
}

#[test]
fn deeply_nested_objects_are_survived() {
    let depth = 200_000;
    let mut objects = vec![
        b"<</Type/Catalog/Pages 2 0 R>>".to_vec(),
        b"<</Type/Pages/Kids[3 0 R]/Count 1>>".to_vec(),
        b"<</Type/Page/Parent 2 0 R>>".to_vec(),
    ];
    let mut nested = vec![b'['; depth];
    nested.extend(vec![b']'; depth]);
    objects.push(nested);
    let mut bytes = b"%PDF-1.5\n".to_vec();
    let mut table = "xref\n0 5\n0000000000 65535 f \n".to_string();
    for (index, object) in objects.iter().enumerate() {
        table.push_str(&format!("{:010} 00000 n \n", bytes.len()));
        bytes.extend(format!("{} 0 obj\n", index + 1).into_bytes());
        bytes.extend(object);
        bytes.extend(b"\nendobj\n");
    }
    let start = bytes.len();
    bytes.extend(table.into_bytes());
    bytes.extend(
        format!("trailer\n<</Root 1 0 R/Size 5>>\nstartxref\n{start}\n%%EOF").into_bytes(),
    );
    assert_eq!(count_pdf_pages(&Ok(bytes.clone())), Ok(1));
    let joined = merge(vec![
        input("a.pdf", Ok(bytes)),
        input("b.pdf", Ok(test_pdf(&["B"]))),
    ])
    .unwrap();
    assert_eq!(joined.summary.total_pages, 2);
}

#[test]
fn temporary_name_stands_beside_the_output() {
    assert_eq!(
        temporary_file_name(Some("out.pdf".to_string())),
        ".printltools-out.pdf.tmp"
    );
    assert_eq!(temporary_file_name(None), ".printltools-joined.pdf.tmp");
}

fn next_of(step: SaveStep, outcome: StepOutcome) -> Result<Option<SaveStep>, (bool, String)> {
    let temp = PathBuf::from("t");
    let output = PathBuf::from("o");
    match after_save_step(step, outcome, &temp, &output) {
        SaveProgress::Next(step) => Ok(Some(step)),
        SaveProgress::Saved => Ok(None),
        SaveProgress::Failed(discard, error) => Err((discard, error)),
    }
}

#[test]
fn saving_replaces_the_output_last() {
    assert_eq!(first_save_step(), SaveStep::CheckTemp);
    assert_eq!(next_of(SaveStep::CheckTemp, StepOutcome::Absent), Ok(Some(SaveStep::WriteTemp)));
    assert_eq!(next_of(SaveStep::CheckTemp, StepOutcome::Done), Ok(Some(SaveStep::RemoveTemp)));
    assert_eq!(next_of(SaveStep::RemoveTemp, StepOutcome::Done), Ok(Some(SaveStep::WriteTemp)));
    assert_eq!(next_of(SaveStep::WriteTemp, StepOutcome::Done), Ok(Some(SaveStep::CheckOutput)));
    assert_eq!(next_of(SaveStep::CheckOutput, StepOutcome::Done), Ok(Some(SaveStep::RemoveOutput)));
    assert_eq!(next_of(SaveStep::CheckOutput, StepOutcome::Absent), Ok(Some(SaveStep::MoveIntoPlace)));
    assert_eq!(next_of(SaveStep::RemoveOutput, StepOutcome::Done), Ok(Some(SaveStep::MoveIntoPlace)));
    assert_eq!(next_of(SaveStep::MoveIntoPlace, StepOutcome::Done), Ok(None));
}

#[test]
fn failed_saving_discards_the_temporary_file() {
    let failed = || StepOutcome::Failed("no".to_string());
    assert_eq!(
        next_of(SaveStep::RemoveTemp, failed()),
        Err((false, "Could not remove stale temporary file t: no".to_string()))
    );
    assert_eq!(
        next_of(SaveStep::WriteTemp, failed()),
        Err((true, "Could not write temporary PDF t: no".to_string()))
    );
    assert_eq!(
        next_of(SaveStep::RemoveOutput, failed()),
        Err((true, "Could not replace existing output file o: no".to_string()))
    );
    assert_eq!(
        next_of(SaveStep::MoveIntoPlace, failed()),
        Err((true, "Could not move temporary PDF into place at o: no".to_string()))
    );
}
