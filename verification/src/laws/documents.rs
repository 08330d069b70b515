//! Documents are counted by the program that is there, and what they say of
//! themselves is read as it is written.

use crate::page_counter::docx::{
    directory_entry, element_text, end_record, index_from, is_end_record, last_end_record, le16,
    le32, leading_word, local_entry, metadata_pages, saved_pages, tag_name, text_from,
    without_end_slashes, zip_entry,
};
use crate::page_counter::files::extension_text;
use crate::page_counter::office::{
    after_program, count_errors, document_pages_result, DocumentPageCount, is_pdf_name, libreoffice_programs, local_copy_text, only_pdf,
    pdf_indices, ConversionOutcome, ConversionView,
};
use crate::text::{
    decimal, is_whitespace, lower, parse_undoes_decimal, split, trim, trim_end, trim_start,
};
use vstd::prelude::*;
use vstd::string::*;
use vstd::utf8::{decode_utf8, valid_utf8};

verus! {

/// Whether a name has the extension of a PDF, in capitals or not.
pub open spec fn ends_like_a_pdf(name: Seq<u8>) -> bool {
    match extension_text(name) {
        Some(extension) => lower(extension) == seq!['p', 'd', 'f'],
        None => false,
    }
}

proof fn lemma_pdf_name(name: Seq<u8>)
    ensures
        is_pdf_name(name) == ends_like_a_pdf(name),
{
    reveal_strlit("pdf");
    assert(lower("pdf"@) =~= seq!['p', 'd', 'f']);
}

proof fn lemma_indices(names: Seq<Vec<u8>>, count: int, j: int)
    requires
        0 <= count <= names.len(),
    ensures
        0 <= j < count && ends_like_a_pdf(names[j]@) ==> pdf_indices(names, count).contains(j),
        forall|k: int|
            0 <= k < pdf_indices(names, count).len() ==> 0 <= #[trigger] pdf_indices(
                names,
                count,
            )[k] < count && ends_like_a_pdf(names[pdf_indices(names, count)[k]]@),
        forall|a: int, b: int|
            0 <= a < b < pdf_indices(names, count).len() ==> #[trigger] pdf_indices(names, count)[a]
                < #[trigger] pdf_indices(names, count)[b],
    decreases count,
{
    if count > 0 {
        lemma_indices(names, count - 1, j);
        lemma_pdf_name(names[count - 1]@);
        let front = pdf_indices(names, count - 1);
        let all = pdf_indices(names, count);
        if 0 <= j < count - 1 && ends_like_a_pdf(names[j]@) {
            let k = choose|k: int| 0 <= k < front.len() && front[k] == j;
            assert(all[k] == j);
        }
        if j == count - 1 && ends_like_a_pdf(names[j]@) {
            assert(all[front.len() as int] == j);
        }
    }
}

/// The PDF that LibreOffice made is found exactly where it is the only one.
pub proof fn the_only_pdf_is_found(names: Seq<Vec<u8>>, i: int)
    ensures
        only_pdf(Ok(names)) == Ok::<int, Seq<char>>(i) <==> 0 <= i < names.len()
            && ends_like_a_pdf(names[i]@) && forall|j: int|
            0 <= j < names.len() && j != i ==> !ends_like_a_pdf(#[trigger] names[j]@),
{
    let n = names.len() as int;
    let found = pdf_indices(names, n);
    lemma_indices(names, n, i);
    if only_pdf(Ok(names)) == Ok::<int, Seq<char>>(i) {
        assert(found[0] == i);
        assert forall|j: int| 0 <= j < names.len() && j != i implies !ends_like_a_pdf(
            #[trigger] names[j]@,
        ) by {
            lemma_indices(names, n, j);
            if ends_like_a_pdf(names[j]@) {
                let k = choose|k: int| 0 <= k < found.len() && found[k] == j;
                assert(k == 0);
            }
        }
    }
    if 0 <= i < names.len() && ends_like_a_pdf(names[i]@) && (forall|j: int|
        0 <= j < names.len() && j != i ==> !ends_like_a_pdf(#[trigger] names[j]@)) {
        let k = choose|k: int| 0 <= k < found.len() && found[k] == i;
        if found.len() > 1 {
            let other: int = if k == 0 {
                1
            } else {
                0
            };
            assert(found[other] != i) by {
                if k == 0 {
                    assert(found[0] < found[1]);
                } else {
                    assert(found[0] < found[k]);
                }
            }
            assert(ends_like_a_pdf(names[found[other]]@));
        }
        assert(found.len() == 1);
        assert(found[0] == i);
    }
}

/// LibreOffice is tried under each of its names, one after the other, until one of
/// them ends well. What that one counted is the result; where none does, every one
/// that was tried is named with what became of it.
pub proof fn programs_are_tried_one_after_the_other(
    attempts: Seq<Seq<char>>,
    outcome: ConversionOutcome,
)
    requires
        attempts.len() < 6,
    ensures
        libreoffice_programs().len() == 6,
        match outcome {
            ConversionOutcome::Converted(Ok(pages)) => after_program(attempts, outcome)
                == ConversionView::Finished(Ok(pages)),
            ConversionOutcome::Converted(Err(error)) => after_program(attempts, outcome)
                == ConversionView::Finished(Err(error@)),
            ConversionOutcome::Missing => {
                let tried = attempts.push(
                    libreoffice_programs()[attempts.len() as int] + " does not exist"@,
                );
                if attempts.len() < 5 {
                    after_program(attempts, outcome) == ConversionView::Continue(tried)
                } else {
                    after_program(attempts, outcome) is Finished && after_program(
                        attempts,
                        outcome,
                    )->Finished_0 is Err
                }
            },
            ConversionOutcome::Failed(error) => {
                let tried = attempts.push(
                    libreoffice_programs()[attempts.len() as int] + " failed: "@ + error@,
                );
                if attempts.len() < 5 {
                    after_program(attempts, outcome) == ConversionView::Continue(tried)
                } else {
                    after_program(attempts, outcome) is Finished && after_program(
                        attempts,
                        outcome,
                    )->Finished_0 is Err
                }
            },
        },
{
}

/// A document that no program could count is reported with what became of each of
/// them, and with the page number that it was saved with, where it has one.
pub proof fn uncounted_documents_are_explained(
    estimate: Option<usize>,
    libreoffice: Seq<char>,
    word: Seq<char>,
)
    ensures
        ({
            let lines = count_errors(estimate, Some(libreoffice), Some(word));
            let first: int = if estimate is Some {
                1
            } else {
                0
            };
            &&& lines.len() == first + 2
            &&& lines[first] == "LibreOffice failed: "@ + libreoffice
            &&& lines[first + 1] == "Microsoft Word fallback failed: "@ + word
            &&& estimate is Some ==> lines[0] == "DOCX saved metadata says "@ + decimal(
                estimate->0 as nat,
            ) + " pages, but it was not used because that value can be stale."@
        }),
{
}

/// The copy of a document that the programs are given keeps its extension, so that
/// they take it for what it is.
pub proof fn copies_keep_their_extension(name: Seq<u8>)
    ensures
        extension_text(name) is Some && extension_text(name)->0.len() > 0 ==> local_copy_text(name)
            == "document."@ + extension_text(name)->0,
        extension_text(name) is None ==> local_copy_text(name) == "document."@ + "doc"@,
{
}

proof fn lemma_first_index(s: Seq<char>, c: char, start: int, at: int)
    requires
        0 <= start <= at < s.len(),
        s[at] == c,
        forall|i: int| start <= i < at ==> s[i] != c,
    ensures
        index_from(s, c, start) == Some(at),
    decreases at - start,
{
    if start < at {
        lemma_first_index(s, c, start + 1, at);
    }
}

proof fn lemma_first_text(s: Seq<char>, pattern: Seq<char>, start: int, at: int)
    requires
        0 <= start <= at,
        at + pattern.len() <= s.len(),
        pattern.len() > 0,
        s.subrange(at, at + pattern.len()) =~= pattern,
        forall|i: int| start <= i < at ==> s[i] != pattern[0],
    ensures
        text_from(s, pattern, start) == Some(at),
    decreases at - start,
{
    if start == at {
        assert(s.skip(at).subrange(0, pattern.len() as int) =~= pattern);
    } else {
        if pattern.is_prefix_of(s.skip(start)) {
            assert(s.skip(start)[0] == s[start]);
            assert(s.skip(start).subrange(0, pattern.len() as int)[0] == pattern[0]);
        }
        lemma_first_text(s, pattern, start + 1, at);
    }
}

proof fn lemma_word(word: Seq<char>)
    requires
        forall|i: int| 0 <= i < word.len() ==> !is_whitespace(#[trigger] word[i]),
    ensures
        leading_word(word) == word,
    decreases word.len(),
{
    if word.len() > 0 {
        assert forall|i: int| 0 <= i < word.skip(1).len() implies !is_whitespace(
            #[trigger] word.skip(1)[i],
        ) by {
            assert(word.skip(1)[i] == word[i + 1]);
        }
        lemma_word(word.skip(1));
        assert(!is_whitespace(word[0]));
        assert(seq![word[0]] + word.skip(1) =~= word);
    } else {
        assert(leading_word(word) =~= word);
    }
}

/// Whether a text is the name of an element: without white space, slashes and angle
/// brackets.
pub open spec fn is_element_name(name: Seq<char>) -> bool {
    name.len() > 0 && forall|i: int|
        0 <= i < name.len() ==> !is_whitespace(#[trigger] name[i]) && name[i] != '/' && name[i]
            != '<' && name[i] != '>'
}

proof fn lemma_tag_name(name: Seq<char>)
    requires
        is_element_name(name),
    ensures
        tag_name(name) == name,
{
    assert(!is_whitespace(name[0]) && name[0] != '/');
    assert(!is_whitespace(name[name.len() - 1]) && name[name.len() - 1] != '/');
    assert(trim_start(name) == name);
    assert(trim_end(name) == name);
    lemma_word(name);
    assert(without_end_slashes(name) == name);
}

/// The text of the first element of a document is what stands between its tags, where
/// it has the name that is looked for, with or without a prefix.
pub proof fn elements_are_read_as_written(
    front: Seq<char>,
    full: Seq<char>,
    body: Seq<char>,
    back: Seq<char>,
)
    requires
        is_element_name(full),
        forall|i: int| 0 <= i < front.len() ==> front[i] != '<',
        forall|i: int| 0 <= i < body.len() ==> body[i] != '<',
    ensures
        element_text(
            front + seq!['<'] + full + seq!['>'] + body + seq!['<', '/'] + full + seq!['>'] + back,
            split(full, ':').last(),
            0,
        ) == Some(body),
{
    let close = seq!['<', '/'] + full + seq!['>'];
    let xml = front + seq!['<'] + full + seq!['>'] + body + seq!['<', '/'] + full + seq!['>']
        + back;
    let start = front.len() as int;
    let end = start + 1 + full.len();
    let at = end + 1 + body.len();
    assert(xml =~= front + seq!['<'] + full + seq!['>'] + body + close + back);
    assert(xml[start] == '<');
    assert forall|i: int| 0 <= i < start implies xml[i] != '<' by {
        assert(xml[i] == front[i]);
    }
    lemma_first_index(xml, '<', 0, start);
    assert(xml[start + 1] == full[0]);
    assert(full[0] != '/');
    assert(xml[end] == '>');
    assert forall|i: int| start + 1 <= i < end implies xml[i] != '>' by {
        assert(xml[i] == full[i - start - 1]);
    }
    lemma_first_index(xml, '>', start + 1, end);
    assert(xml.subrange(start + 1, end) =~= full);
    lemma_tag_name(full);
    assert(xml.subrange(at, at + close.len()) =~= close);
    assert forall|i: int| end + 1 <= i < at implies xml[i] != close[0] by {
        assert(xml[i] == body[i - end - 1]);
    }
    lemma_first_text(xml, close, end + 1, at);
    assert(xml.subrange(end + 1, at) =~= body);
}

/// The page number that a document was saved with is the number in its `Pages`
/// element; none, zero, or no number at all is an error.
pub proof fn saved_page_numbers_are_read_as_written(
    front: Seq<char>,
    pages: usize,
    back: Seq<char>,
)
    requires
        forall|i: int| 0 <= i < front.len() ==> front[i] != '<',
    ensures
        ({
            let name = seq!['P', 'a', 'g', 'e', 's'];
            let xml = front + seq!['<'] + name + seq!['>'] + decimal(pages as nat) + seq![
                '<',
                '/',
            ] + name + seq!['>'] + back;
            &&& pages > 0 ==> saved_pages(xml) == Ok::<nat, Seq<char>>(pages as nat)
            &&& pages == 0 ==> saved_pages(xml) is Err
        }),
        saved_pages(front) is Err,
{
    let name = seq!['P', 'a', 'g', 'e', 's'];
    reveal_strlit("Pages");
    assert("Pages"@ =~= name);
    assert(is_element_name(name)) by {
        assert forall|i: int| 0 <= i < name.len() implies !is_whitespace(#[trigger] name[i])
            && name[i] != '/' && name[i] != '<' && name[i] != '>' by {
            assert(i == 0 || i == 1 || i == 2 || i == 3 || i == 4);
        }
    }
    let digits = decimal(pages as nat);
    crate::text::lemma_decimal_digits(pages as nat);
    assert forall|i: int| 0 <= i < digits.len() implies digits[i] != '<' by {
        assert(crate::text::is_digit(digits[i]));
    }
    elements_are_read_as_written(front, name, digits, back);
    assert(!name.contains(':')) by {
        assert forall|i: int| 0 <= i < name.len() implies name[i] != ':' by {
            assert(i == 0 || i == 1 || i == 2 || i == 3 || i == 4);
        }
    }
    crate::text::lemma_split_append(Seq::empty(), name, ':');
    assert(Seq::<char>::empty() + name =~= name);
    assert(split(name, ':').last() =~= name);
    parse_undoes_decimal(pages as nat, usize::MAX as nat);
    assert(trim(digits) == digits) by {
        assert(crate::text::is_digit(digits[0]));
        assert(crate::text::is_digit(digits[digits.len() - 1]));
        assert(trim_start(digits) == digits);
        assert(trim_end(digits) == digits);
    }
    lemma_no_tag(front, 0);
}

proof fn lemma_no_tag(s: Seq<char>, start: int)
    requires
        0 <= start <= s.len(),
        forall|i: int| 0 <= i < s.len() ==> s[i] != '<',
    ensures
        index_from(s, '<', start) is None,
    decreases s.len() - start,
{
    if start < s.len() {
        lemma_no_tag(s, start + 1);
    }
}

/// The end record of a package is the last one that leaves room for itself, however
/// long the comment after it is.
pub proof fn the_last_end_record_is_found(zip: Seq<u8>, i: int)
    requires
        zip.len() >= 22,
        0 <= i <= zip.len() - 22,
        zip.len() - 22 - i <= 65535,
        zip[i] == 0x50,
        zip[i + 1] == 0x4b,
        zip[i + 2] == 0x05,
        zip[i + 3] == 0x06,
        forall|j: int| i < j <= zip.len() - 22 ==> !#[trigger] is_end_record(zip, j),
    ensures
        end_record(zip) == Ok::<int, Seq<char>>(i),
{
    let low = if zip.len() < 65557 {
        0
    } else {
        zip.len() - 65557
    };
    lemma_last_record(zip, low, zip.len() - 22, i);
}

proof fn lemma_last_record(zip: Seq<u8>, low: int, from: int, i: int)
    requires
        low <= i <= from,
        is_end_record(zip, i),
        forall|j: int| i < j <= from ==> !#[trigger] is_end_record(zip, j),
    ensures
        last_end_record(zip, low, from) == Some(i),
    decreases from - i,
{
    if i < from {
        assert(!is_end_record(zip, from));
        lemma_last_record(zip, low, from - 1, i);
    }
}

/// Numbers in a package are read with their low byte first.
pub proof fn numbers_are_read_low_byte_first(a: u8, b: u8, c: u8, d: u8, front: Seq<u8>, back: Seq<u8>)
    ensures
        le16(front + seq![a, b] + back, front.len() as int) == a + 0x100 * b,
        le32(front + seq![a, b, c, d] + back, front.len() as int) == a + 0x100 * b + 0x1_0000 * c
            + 0x100_0000 * d,
{
}

/// An entry that is stored as it is reads as the bytes that stand after its header,
/// its name and its extra field.
pub proof fn stored_entries_are_read_as_stored(
    front: Seq<u8>,
    header: Seq<u8>,
    names: Seq<u8>,
    data: Seq<u8>,
    back: Seq<u8>,
)
    requires
        header.len() == 30,
        header[0] == 0x50,
        header[1] == 0x4b,
        header[2] == 0x03,
        header[3] == 0x04,
        names.len() == header[26] + 0x100 * header[27] + (header[28] + 0x100 * header[29]),
        front.len() + header.len() + names.len() + data.len() + back.len() <= usize::MAX,
    ensures
        local_entry(
            front + header + names + data + back,
            front.len() as int,
            data.len() as int,
            0,
        ) == Ok::<Seq<u8>, Seq<char>>(data),
{
    let zip = front + header + names + data + back;
    let at = front.len() as int;
    assert forall|i: int| 0 <= i < 30 implies zip[at + i] == header[i] by {}
    assert(zip[at + 0] == header[0] && zip[at + 1] == header[1] && zip[at + 2] == header[2] && zip[at
        + 3] == header[3]);
    assert(zip[at + 26] == header[26] && zip[at + 27] == header[27] && zip[at + 28] == header[28]
        && zip[at + 29] == header[29]);
    assert(le16(zip, at) == 0x4b50);
    assert(le16(zip, at + 2) == 0x0403);
    let one = seq![(0int, 4int)];
    let two = seq![(26int, 2int), (28int, 2int)];
    assert(one.drop_last() =~= Seq::<(int, int)>::empty());
    assert(two.drop_last() =~= seq![(26int, 2int)]);
    assert(seq![(26int, 2int)].drop_last() =~= Seq::<(int, int)>::empty());
    reveal_with_fuel(crate::page_counter::docx::fields_fault, 4);
    let start = at + 30 + names.len();
    assert(zip.subrange(start, start + data.len()) =~= data);
}

/// Whether a header of the directory of a package stands at an index, with room for
/// its name.
pub open spec fn is_directory_header(zip: Seq<u8>, at: int) -> bool {
    &&& 0 <= at
    &&& at + 46 <= zip.len()
    &&& zip.len() <= usize::MAX
    &&& zip[at] == 0x50 && zip[at + 1] == 0x4b && zip[at + 2] == 0x01 && zip[at + 3] == 0x02
    &&& at + 46 + (zip[at + 28] + 0x100 * zip[at + 29]) <= zip.len()
}

/// The number in two bytes of a package.
pub open spec fn two_bytes(zip: Seq<u8>, at: int) -> int {
    zip[at] + 0x100 * zip[at + 1]
}

/// The number in four bytes of a package.
pub open spec fn four_bytes(zip: Seq<u8>, at: int) -> int {
    zip[at] + 0x100 * zip[at + 1] + 0x1_0000 * zip[at + 2] + 0x100_0000 * zip[at + 3]
}

/// The directory of a package is gone through header by header: an entry with the
/// name that is looked for is read from where its header says, and any other is
/// passed over. Where the directory ends, the entry is missing.
pub proof fn directories_are_gone_through(zip: Seq<u8>, name: Seq<char>, at: int, end: int)
    requires
        is_directory_header(zip, at),
        at < end,
    ensures
        ({
            let name_end = at + 46 + two_bytes(zip, at + 28);
            let next = name_end + two_bytes(zip, at + 30) + two_bytes(zip, at + 32);
            let found = crate::commands::lossy_text(zip.subrange(at + 46, name_end));
            &&& lower(found) != lower(name) && next <= usize::MAX ==> directory_entry(
                zip,
                name,
                at,
                end,
            ) == directory_entry(zip, name, next, end)
            &&& lower(found) == lower(name) && zip[at + 8] % 2 == 0 ==> directory_entry(
                zip,
                name,
                at,
                end,
            ) == local_entry(
                zip,
                four_bytes(zip, at + 42),
                four_bytes(zip, at + 20),
                two_bytes(zip, at + 10),
            )
            &&& lower(found) == lower(name) && zip[at + 8] % 2 == 1 ==> directory_entry(
                zip,
                name,
                at,
                end,
            ) is Err
        }),
        directory_entry(zip, name, end, end) is Err,
{
    let one = seq![(0int, 4int)];
    assert(one.drop_last() =~= Seq::<(int, int)>::empty());
    let fields = crate::page_counter::docx::directory_fields();
    lemma_all_fields(zip, at, fields, 7);
    reveal_with_fuel(crate::page_counter::docx::fields_fault, 2);
}

proof fn lemma_all_fields(zip: Seq<u8>, at: int, fields: Seq<(int, int)>, count: int)
    requires
        0 <= at,
        at + 46 <= zip.len() <= usize::MAX,
        fields == crate::page_counter::docx::directory_fields(),
        0 <= count <= 7,
    ensures
        crate::page_counter::docx::fields_fault(zip, at, fields.take(count)) is None,
        fields.take(7) == fields,
    decreases count,
{
    assert(fields.take(7) =~= fields);
    if count > 0 {
        lemma_all_fields(zip, at, fields, count - 1);
        assert(fields.take(count).drop_last() =~= fields.take(count - 1));
        assert(fields.take(count).last() == fields[count - 1]);
    }
}

/// A package is read from where its end record says that its directory is, and the
/// page number from the text of its `docProps/app.xml`.
pub proof fn packages_are_read_where_they_say(zip: Seq<u8>, name: Seq<char>, record: int)
    requires
        end_record(zip) == Ok::<int, Seq<char>>(record),
        0 <= record,
        record + 22 <= zip.len() <= usize::MAX,
    ensures
        ({
            let size = four_bytes(zip, record + 12);
            let offset = four_bytes(zip, record + 16);
            &&& offset + size <= zip.len() ==> zip_entry(zip, name) == directory_entry(
                zip,
                name,
                offset,
                offset + size,
            )
            &&& offset + size > zip.len() ==> zip_entry(zip, name) is Err
        }),
        zip_entry(zip, "docProps/app.xml"@) is Ok && valid_utf8(
            zip_entry(zip, "docProps/app.xml"@)->Ok_0,
        ) ==> metadata_pages(Ok(zip)) == saved_pages(
            decode_utf8(zip_entry(zip, "docProps/app.xml"@)->Ok_0),
        ),
        zip_entry(zip, "docProps/app.xml"@) is Err ==> metadata_pages(Ok(zip)) is Err,
{
}

/// Text, closing tags and elements of other names are passed over on the way to the
/// element that is looked for, however many there are.
pub proof fn other_elements_are_passed_over(xml: Seq<char>, name: Seq<char>, at: int, end: int)
    requires
        0 <= at < xml.len(),
    ensures
        xml[at] != '<' ==> element_text(xml, name, at) == element_text(xml, name, at + 1),
        xml[at] == '<' && at + 1 < xml.len() && xml[at + 1] == '/' ==> element_text(xml, name, at)
            == element_text(xml, name, at + 2),
        at + 1 < end < xml.len() && xml[at] == '<' && xml[at + 1] != '/' && xml[end] == '>' && (
        forall|i: int| at < i < end ==> xml[i] != '>') && is_element_name(
            xml.subrange(at + 1, end),
        ) && split(xml.subrange(at + 1, end), ':').last() != name ==> element_text(xml, name, at)
            == element_text(xml, name, end + 1),
        element_text(xml, name, xml.len() as int) is None,
{
    if xml[at] != '<' {
        assert(index_from(xml, '<', at) == index_from(xml, '<', at + 1));
    } else {
        assert(index_from(xml, '<', at) == Some(at));
    }
    if at + 1 < end < xml.len() && xml[at] == '<' && xml[at + 1] != '/' && xml[end] == '>' && (
    forall|i: int| at < i < end ==> xml[i] != '>') && is_element_name(xml.subrange(at + 1, end)) {
        lemma_first_index(xml, '>', at + 1, end);
        lemma_tag_name(xml.subrange(at + 1, end));
    }
}

/// A document that neither program could count is an error; where the system has no
/// Word, only LibreOffice is spoken of.
pub proof fn only_what_was_tried_is_spoken_of(estimate: Option<usize>, error: Seq<char>)
    ensures
        document_pages_result(None, None, Err(error)) == Err::<DocumentPageCount, Seq<char>>(
            "LibreOffice failed: "@ + error,
        ),
        count_errors(estimate, Some(error), None).last() == "LibreOffice failed: "@ + error,
        count_errors(estimate, Some(error), None).len() == if estimate is Some {
            2int
        } else {
            1int
        },
{
    assert(count_errors(None, Some(error), None) =~= seq!["LibreOffice failed: "@ + error]);
}

} // verus!
