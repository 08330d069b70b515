//! The page number that a DOCX package was saved with.
//!
//! A package is a ZIP file. Its entry `docProps/app.xml` holds an element `Pages`.

use crate::commands::{lossy_text, text_from_utf8, text_from_utf8_lossy, utf8_text};
use crate::pdf::documents::bytes_result;
use crate::text::{
    char_texts, chars_are, copy_range, decimal, decimal_text, from_chars, is_whitespace,
    lemma_split_nonempty, lower, lower_text, number_error_message, number_error_text, optional_text,
    parse_unsigned, same_text, split, split_chars, stands_at, to_chars, trim, trim_chars,
    unsigned_value, whitespace,
};
use flate2::read::DeflateDecoder;
use std::io::Read;
use vstd::prelude::*;
use vstd::string::*;

verus! {

/// What flate2's `DeflateDecoder` makes of compressed bytes.
pub uninterp spec fn inflated(data: Seq<u8>) -> Result<Seq<u8>, Seq<char>>;

/// Decompresses with flate2: a `DeflateDecoder` over the bytes, read to its end.
/// Its error is handed on as the text that it displays.
#[verifier::external_body]
pub(crate) fn inflate(data: &[u8]) -> (result: Result<Vec<u8>, String>)
    ensures
        bytes_result(result) == inflated(data@),
{
    let mut output = Vec::new();
    match DeflateDecoder::new(data).read_to_end(&mut output) {
        Ok(_) => Ok(output),
        Err(error) => Err(error.to_string()),
    }
}

/// What is said of a field that the bytes do not hold.
pub open spec fn field_fault(bytes: Seq<u8>, offset: int, size: int) -> Option<Seq<char>> {
    if offset + size > usize::MAX {
        Some("DOCX ZIP offset overflowed."@)
    } else if offset + size > bytes.len() {
        Some("DOCX ZIP field points past the end of the file."@)
    } else {
        None
    }
}

/// What is said of the first field that the bytes do not hold. A field is an
/// offset from `base` and a size.
pub open spec fn fields_fault(bytes: Seq<u8>, base: int, fields: Seq<(int, int)>) -> Option<
    Seq<char>,
>
    decreases fields.len(),
{
    if fields.len() == 0 {
        None
    } else {
        match fields_fault(bytes, base, fields.drop_last()) {
            Some(error) => Some(error),
            None => field_fault(bytes, base + fields.last().0, fields.last().1),
        }
    }
}

/// The number in two bytes, the low byte first.
pub open spec fn le16(bytes: Seq<u8>, offset: int) -> int {
    bytes[offset] + 256 * bytes[offset + 1]
}

/// The number in four bytes, the low byte first.
pub open spec fn le32(bytes: Seq<u8>, offset: int) -> int {
    le16(bytes, offset) + 65536 * le16(bytes, offset + 2)
}

/// Reads a number of two bytes.
pub fn read_u16(bytes: &[u8], offset: usize) -> (result: Result<u16, String>)
    ensures
        match result {
            Ok(value) => field_fault(bytes@, offset as int, 2) is None && value == le16(
                bytes@,
                offset as int,
            ),
            Err(error) => field_fault(bytes@, offset as int, 2) == Some(error@),
        },
{
    if offset > usize::MAX - 2 {
        return Err("DOCX ZIP offset overflowed.".to_owned());
    }
    if offset + 2 > bytes.len() {
        return Err("DOCX ZIP field points past the end of the file.".to_owned());
    }
    Ok(bytes[offset] as u16 + 256 * (bytes[offset + 1] as u16))
}

/// Reads a number of four bytes.
pub fn read_u32(bytes: &[u8], offset: usize) -> (result: Result<u32, String>)
    ensures
        match result {
            Ok(value) => field_fault(bytes@, offset as int, 4) is None && value == le32(
                bytes@,
                offset as int,
            ),
            Err(error) => field_fault(bytes@, offset as int, 4) == Some(error@),
        },
{
    if offset > usize::MAX - 4 {
        return Err("DOCX ZIP offset overflowed.".to_owned());
    }
    if offset + 4 > bytes.len() {
        return Err("DOCX ZIP field points past the end of the file.".to_owned());
    }
    Ok(
        bytes[offset] as u32 + 256 * (bytes[offset + 1] as u32) + 65536 * (bytes[offset + 2] as u32
            + 256 * (bytes[offset + 3] as u32)),
    )
}

fn read_u16_from(bytes: &[u8], base: usize, offset: usize) -> (result: Result<u16, String>)
    ensures
        match result {
            Ok(value) => field_fault(bytes@, base + offset, 2) is None && value == le16(
                bytes@,
                base + offset,
            ),
            Err(error) => field_fault(bytes@, base + offset, 2) == Some(error@),
        },
{
    if base > usize::MAX - offset {
        return Err("DOCX ZIP offset overflowed.".to_owned());
    }
    read_u16(bytes, base + offset)
}

fn read_u32_from(bytes: &[u8], base: usize, offset: usize) -> (result: Result<u32, String>)
    ensures
        match result {
            Ok(value) => field_fault(bytes@, base + offset, 4) is None && value == le32(
                bytes@,
                base + offset,
            ),
            Err(error) => field_fault(bytes@, base + offset, 4) == Some(error@),
        },
{
    if base > usize::MAX - offset {
        return Err("DOCX ZIP offset overflowed.".to_owned());
    }
    read_u32(bytes, base + offset)
}

/// The fault of the first `k` fields decides where there is one.
proof fn lemma_fields_fault(bytes: Seq<u8>, base: int, fields: Seq<(int, int)>, k: int)
    requires
        0 <= k <= fields.len(),
        forall|j: int|
            0 <= j < k ==> field_fault(
                bytes,
                base + (#[trigger] fields[j]).0,
                fields[j].1,
            ) is None,
        k < fields.len() ==> field_fault(bytes, base + fields[k].0, fields[k].1) is Some,
    ensures
        fields_fault(bytes, base, fields) == if k < fields.len() {
            field_fault(bytes, base + fields[k].0, fields[k].1)
        } else {
            None
        },
    decreases fields.len(),
{
    if fields.len() > 0 {
        let front = fields.drop_last();
        assert forall|j: int| 0 <= j < k && j < front.len() implies field_fault(
            bytes,
            base + (#[trigger] front[j]).0,
            front[j].1,
        ) is None by {
            assert(front[j] == fields[j]);
        }
        if k < front.len() {
            assert(front[k] == fields[k]);
            lemma_fields_fault(bytes, base, front, k);
        } else {
            lemma_fields_fault(bytes, base, front, front.len() as int);
        }
    }
}

/// Whether the bytes of an end record begin at an index.
pub open spec fn is_end_record(zip: Seq<u8>, i: int) -> bool {
    0 <= i && i + 4 <= zip.len() && zip[i] == 0x50 && zip[i + 1] == 0x4b && zip[i + 2] == 0x05
        && zip[i + 3] == 0x06
}

/// The last end record at or before `i` and not before `low`.
pub open spec fn last_end_record(zip: Seq<u8>, low: int, i: int) -> Option<int>
    decreases i - low + 1,
{
    if i < low {
        None
    } else if is_end_record(zip, i) {
        Some(i)
    } else {
        last_end_record(zip, low, i - 1)
    }
}

/// Where the end record of a package is: the last one that leaves room for
/// itself, with no more than a full comment after it.
pub open spec fn end_record(zip: Seq<u8>) -> Result<int, Seq<char>> {
    if zip.len() < 22 {
        Err("DOCX package is too small to be a ZIP file."@)
    } else {
        let low = if zip.len() < 65557 {
            0
        } else {
            zip.len() - 65557
        };
        match last_end_record(zip, low, zip.len() - 22) {
            Some(i) => Ok(i),
            None => Err("DOCX package is missing the ZIP end record."@),
        }
    }
}

/// Finds the end record of a package.
pub fn find_end_of_central_directory(zip: &[u8]) -> (result: Result<usize, String>)
    ensures
        match result {
            Ok(i) => end_record(zip@) == Ok::<int, Seq<char>>(i as int) && i + 22 <= zip@.len(),
            Err(error) => end_record(zip@) == Err::<int, Seq<char>>(error@),
        },
{
    let n: usize = zip.len();
    if n < 22 {
        return Err("DOCX package is too small to be a ZIP file.".to_owned());
    }
    let low: usize = if n < 65557 {
        0
    } else {
        n - 65557
    };
    let mut end: usize = n - 22 + 1;
    while end > low
        invariant
            n == zip@.len(),
            22 <= n,
            low <= end <= n - 21,
            low == if n < 65557 {
                0
            } else {
                n - 65557
            },
            last_end_record(zip@, low as int, end - 1) == last_end_record(
                zip@,
                low as int,
                n - 22,
            ),
        decreases end,
    {
        let i: usize = end - 1;
        if zip[i] == 0x50 && zip[i + 1] == 0x4b && zip[i + 2] == 0x05 && zip[i + 3] == 0x06 {
            return Ok(i);
        }
        end = i;
    }
    Err("DOCX package is missing the ZIP end record.".to_owned())
}

/// What the bytes of an entry hold, for a compression method.
pub open spec fn entry_content(
    data: Seq<u8>,
    method: int,
    decompressed: Result<Seq<u8>, Seq<char>>,
) -> Result<Seq<u8>, Seq<char>> {
    if method == 0 {
        Ok(data)
    } else if method == 8 {
        match decompressed {
            Ok(content) => Ok(content),
            Err(error) => Err("Could not decompress DOCX metadata: "@ + error),
        }
    } else {
        Err("DOCX metadata uses unsupported ZIP compression method "@ + decimal(method as nat)
            + "."@)
    }
}

/// The entry whose local header is at an offset.
pub open spec fn local_entry(zip: Seq<u8>, offset: int, size: int, method: int) -> Result<
    Seq<u8>,
    Seq<char>,
> {
    if fields_fault(zip, offset, seq![(0int, 4int)]) is Some {
        Err(fields_fault(zip, offset, seq![(0int, 4int)])->0)
    } else if le32(zip, offset) != 0x0403_4b50 {
        Err("DOCX ZIP local file header is invalid."@)
    } else if fields_fault(zip, offset, seq![(26int, 2int), (28int, 2int)]) is Some {
        Err(fields_fault(zip, offset, seq![(26int, 2int), (28int, 2int)])->0)
    } else {
        let start = offset + 30 + le16(zip, offset + 26) + le16(zip, offset + 28);
        if start > usize::MAX {
            Err("DOCX ZIP local file header length overflowed."@)
        } else if start + size > usize::MAX {
            Err("DOCX ZIP compressed entry length overflowed."@)
        } else if start + size > zip.len() {
            Err("DOCX ZIP entry points past the end of the file."@)
        } else {
            let data = zip.subrange(start, start + size);
            entry_content(data, method, inflated(data))
        }
    }
}

/// Names the outcome of decompressing.
pub fn decompressed_entry(result: Result<Vec<u8>, String>) -> (content: Result<Vec<u8>, String>)
    ensures
        bytes_result(content) == match bytes_result(result) {
            Ok(content) => Ok::<Seq<u8>, Seq<char>>(content),
            Err(error) => Err("Could not decompress DOCX metadata: "@ + error),
        },
{
    match result {
        Ok(content) => Ok(content),
        Err(error) => {
            let mut message = "Could not decompress DOCX metadata: ".to_owned();
            message.append(error.as_str());
            Err(message)
        },
    }
}

/// Reads the entry whose local header is at an offset.
pub fn read_zip_local_entry(
    zip: &[u8],
    local_header_offset: usize,
    compressed_size: usize,
    compression_method: u16,
) -> (result: Result<Vec<u8>, String>)
    ensures
        bytes_result(result) == local_entry(
            zip@,
            local_header_offset as int,
            compressed_size as int,
            compression_method as int,
        ),
{
    let ghost offset = local_header_offset as int;
    let ghost first = seq![(0int, 4int)];
    let ghost second = seq![(26int, 2int), (28int, 2int)];
    match read_u32_from(zip, local_header_offset, 0) {
        Ok(signature) => {
            proof {
                lemma_fields_fault(zip@, offset, first, 1);
            }
            if signature != 0x0403_4b50 {
                return Err("DOCX ZIP local file header is invalid.".to_owned());
            }
        },
        Err(error) => {
            proof {
                lemma_fields_fault(zip@, offset, first, 0);
            }
            return Err(error);
        },
    }
    let file_name_length: u16 = match read_u16_from(zip, local_header_offset, 26) {
        Ok(value) => value,
        Err(error) => {
            proof {
                lemma_fields_fault(zip@, offset, second, 0);
            }
            return Err(error);
        },
    };
    let extra_field_length: u16 = match read_u16_from(zip, local_header_offset, 28) {
        Ok(value) => value,
        Err(error) => {
            proof {
                lemma_fields_fault(zip@, offset, second, 1);
            }
            return Err(error);
        },
    };
    proof {
        lemma_fields_fault(zip@, offset, second, 2);
    }
    let header: usize = local_header_offset + 30;
    let names: usize = file_name_length as usize + extra_field_length as usize;
    if header > usize::MAX - names {
        return Err("DOCX ZIP local file header length overflowed.".to_owned());
    }
    let data_start: usize = header + names;
    if data_start > usize::MAX - compressed_size {
        return Err("DOCX ZIP compressed entry length overflowed.".to_owned());
    }
    let data_end: usize = data_start + compressed_size;
    if data_end > zip.len() {
        return Err("DOCX ZIP entry points past the end of the file.".to_owned());
    }
    let data = copy_bytes(zip, data_start, data_end);
    if compression_method == 0 {
        Ok(data)
    } else if compression_method == 8 {
        decompressed_entry(inflate(data.as_slice()))
    } else {
        let method = decimal_text(compression_method as u128);
        let mut message = "DOCX metadata uses unsupported ZIP compression method ".to_owned();
        message.append(method.as_str());
        message.append(".");
        Err(message)
    }
}

fn copy_bytes(bytes: &[u8], start: usize, end: usize) -> (copy: Vec<u8>)
    requires
        start <= end <= bytes@.len(),
    ensures
        copy@ == bytes@.subrange(start as int, end as int),
{
    let mut copy: Vec<u8> = Vec::new();
    for i in start..end
        invariant
            start <= end <= bytes@.len(),
            copy@ == bytes@.subrange(start as int, i as int),
    {
        copy.push(bytes[i]);
        assert(bytes@.subrange(start as int, i + 1) == bytes@.subrange(
            start as int,
            i as int,
        ).push(bytes@[i as int]));
    }
    copy
}

/// The fields of a header in the central directory that are read.
pub open spec fn directory_fields() -> Seq<(int, int)> {
    seq![
        (8int, 2int),
        (10int, 2int),
        (20int, 4int),
        (28int, 2int),
        (30int, 2int),
        (32int, 2int),
        (42int, 4int),
    ]
}

/// The content of the first entry with a name, from a place in the central
/// directory on. Capitals do not matter in the name.
pub open spec fn directory_entry(zip: Seq<u8>, name: Seq<char>, cursor: int, end: int) -> Result<
    Seq<u8>,
    Seq<char>,
>
    decreases
            if cursor < end {
                end - cursor
            } else {
                0
            },
{
    if cursor >= end {
        Err("DOCX package does not contain "@ + name + "."@)
    } else if fields_fault(zip, cursor, seq![(0int, 4int)]) is Some {
        Err(fields_fault(zip, cursor, seq![(0int, 4int)])->0)
    } else if le32(zip, cursor) != 0x0201_4b50 {
        Err("DOCX ZIP central directory is invalid."@)
    } else if fields_fault(zip, cursor, directory_fields()) is Some {
        Err(fields_fault(zip, cursor, directory_fields())->0)
    } else {
        let name_end = cursor + 46 + le16(zip, cursor + 28);
        let next = name_end + le16(zip, cursor + 30) + le16(zip, cursor + 32);
        if name_end > usize::MAX {
            Err("DOCX ZIP file name length overflowed."@)
        } else if name_end > zip.len() {
            Err("DOCX ZIP file name points past the end of the file."@)
        } else if lower(lossy_text(zip.subrange(cursor + 46, name_end))) == lower(name) {
            if le16(zip, cursor + 8) % 2 == 1 {
                Err("DOCX package entry is encrypted."@)
            } else {
                local_entry(
                    zip,
                    le32(zip, cursor + 42),
                    le32(zip, cursor + 20),
                    le16(zip, cursor + 10),
                )
            }
        } else if next > usize::MAX {
            Err("DOCX ZIP central directory entry length overflowed."@)
        } else {
            directory_entry(zip, name, next, end)
        }
    }
}

/// The content of an entry of a package.
pub open spec fn zip_entry(zip: Seq<u8>, name: Seq<char>) -> Result<Seq<u8>, Seq<char>> {
    match end_record(zip) {
        Err(error) => Err(error),
        Ok(record) => {
            let size = le32(zip, record + 12);
            let offset = le32(zip, record + 16);
            if offset + size > usize::MAX {
                Err("DOCX ZIP central directory size overflowed."@)
            } else if offset + size > zip.len() {
                Err("DOCX ZIP central directory points past the end of the file."@)
            } else {
                directory_entry(zip, name, offset, offset + size)
            }
        },
    }
}

/// The header of an entry in the central directory.
struct DirectoryHeader {
    flags: u16,
    method: u16,
    compressed_size: u32,
    name_length: u16,
    extra_length: u16,
    comment_length: u16,
    local_offset: u32,
}

fn read_directory_header(zip: &[u8], cursor: usize) -> (result: Result<DirectoryHeader, String>)
    ensures
        match result {
            Ok(header) => {
                &&& fields_fault(zip@, cursor as int, directory_fields()) is None
                &&& cursor + 46 <= zip@.len()
                &&& header.flags == le16(zip@, cursor + 8)
                &&& header.method == le16(zip@, cursor + 10)
                &&& header.compressed_size == le32(zip@, cursor + 20)
                &&& header.name_length == le16(zip@, cursor + 28)
                &&& header.extra_length == le16(zip@, cursor + 30)
                &&& header.comment_length == le16(zip@, cursor + 32)
                &&& header.local_offset == le32(zip@, cursor + 42)
            },
            Err(error) => fields_fault(zip@, cursor as int, directory_fields()) == Some(error@),
        },
{
    let ghost fields = directory_fields();
    let ghost at = cursor as int;
    let flags: u16 = match read_u16_from(zip, cursor, 8) {
        Ok(value) => value,
        Err(error) => {
            proof {
                lemma_fields_fault(zip@, at, fields, 0);
            }
            return Err(error);
        },
    };
    let method: u16 = match read_u16_from(zip, cursor, 10) {
        Ok(value) => value,
        Err(error) => {
            proof {
                lemma_fields_fault(zip@, at, fields, 1);
            }
            return Err(error);
        },
    };
    let compressed_size: u32 = match read_u32_from(zip, cursor, 20) {
        Ok(value) => value,
        Err(error) => {
            proof {
                lemma_fields_fault(zip@, at, fields, 2);
            }
            return Err(error);
        },
    };
    let name_length: u16 = match read_u16_from(zip, cursor, 28) {
        Ok(value) => value,
        Err(error) => {
            proof {
                lemma_fields_fault(zip@, at, fields, 3);
            }
            return Err(error);
        },
    };
    let extra_length: u16 = match read_u16_from(zip, cursor, 30) {
        Ok(value) => value,
        Err(error) => {
            proof {
                lemma_fields_fault(zip@, at, fields, 4);
            }
            return Err(error);
        },
    };
    let comment_length: u16 = match read_u16_from(zip, cursor, 32) {
        Ok(value) => value,
        Err(error) => {
            proof {
                lemma_fields_fault(zip@, at, fields, 5);
            }
            return Err(error);
        },
    };
    let local_offset: u32 = match read_u32_from(zip, cursor, 42) {
        Ok(value) => value,
        Err(error) => {
            proof {
                lemma_fields_fault(zip@, at, fields, 6);
            }
            return Err(error);
        },
    };
    proof {
        lemma_fields_fault(zip@, at, fields, 7);
    }
    Ok(
        DirectoryHeader {
            flags,
            method,
            compressed_size,
            name_length,
            extra_length,
            comment_length,
            local_offset,
        },
    )
}

/// Reads the content of an entry of a package.
pub fn read_zip_entry(zip: &[u8], expected_name: &str) -> (result: Result<Vec<u8>, String>)
    ensures
        bytes_result(result) == zip_entry(zip@, expected_name@),
{
    let length: usize = zip.len();
    let record: usize = match find_end_of_central_directory(zip) {
        Ok(record) => record,
        Err(error) => return Err(error),
    };
    let directory_size: u32 = match read_u32(zip, record + 12) {
        Ok(value) => value,
        Err(error) => return Err(error),
    };
    let directory_offset: u32 = match read_u32(zip, record + 16) {
        Ok(value) => value,
        Err(error) => return Err(error),
    };
    if directory_offset as u64 + directory_size as u64 > usize::MAX as u64 {
        return Err("DOCX ZIP central directory size overflowed.".to_owned());
    }
    let directory_end: usize = directory_offset as usize + directory_size as usize;
    if directory_end > length {
        return Err("DOCX ZIP central directory points past the end of the file.".to_owned());
    }
    let wanted = lower_text(expected_name);
    let mut cursor: usize = directory_offset as usize;
    while cursor < directory_end
        invariant
            directory_end <= zip@.len(),
            wanted@ == lower(expected_name@),
            zip_entry(zip@, expected_name@) == directory_entry(
                zip@,
                expected_name@,
                cursor as int,
                directory_end as int,
            ),
        decreases
                if cursor < directory_end {
                    directory_end - cursor
                } else {
                    0
                },
    {
        match read_u32_from(zip, cursor, 0) {
            Ok(signature) => {
                proof {
                    lemma_fields_fault(zip@, cursor as int, seq![(0int, 4int)], 1);
                }
                if signature != 0x0201_4b50 {
                    return Err("DOCX ZIP central directory is invalid.".to_owned());
                }
            },
            Err(error) => {
                proof {
                    lemma_fields_fault(zip@, cursor as int, seq![(0int, 4int)], 0);
                }
                return Err(error);
            },
        }
        let header = match read_directory_header(zip, cursor) {
            Ok(header) => header,
            Err(error) => return Err(error),
        };
        let name_start: usize = cursor + 46;
        if name_start > usize::MAX - header.name_length as usize {
            return Err("DOCX ZIP file name length overflowed.".to_owned());
        }
        let name_end: usize = name_start + header.name_length as usize;
        if name_end > zip.len() {
            return Err("DOCX ZIP file name points past the end of the file.".to_owned());
        }
        let name_bytes = copy_bytes(zip, name_start, name_end);
        let name = text_from_utf8_lossy(name_bytes.as_slice());
        let name = lower_text(name.as_str());
        if same_text(name.as_str(), wanted.as_str()) {
            if header.flags % 2 == 1 {
                return Err("DOCX package entry is encrypted.".to_owned());
            }
            return read_zip_local_entry(
                zip,
                header.local_offset as usize,
                header.compressed_size as usize,
                header.method,
            );
        }
        let rest: usize = header.extra_length as usize + header.comment_length as usize;
        if name_end > usize::MAX - rest {
            return Err("DOCX ZIP central directory entry length overflowed.".to_owned());
        }
        cursor = name_end + rest;
    }
    let mut message = "DOCX package does not contain ".to_owned();
    message.append(expected_name);
    message.append(".");
    Err(message)
}

/// The first index from `start` on at which `c` stands.
pub open spec fn index_from(s: Seq<char>, c: char, start: int) -> Option<int>
    decreases s.len() - start,
{
    if start >= s.len() {
        None
    } else if s[start] == c {
        Some(start)
    } else {
        index_from(s, c, start + 1)
    }
}

/// The first index from `start` on at which `pattern` stands.
pub open spec fn text_from(s: Seq<char>, pattern: Seq<char>, start: int) -> Option<int>
    decreases s.len() - start + 1,
{
    if start > s.len() {
        None
    } else if pattern.is_prefix_of(s.skip(start)) {
        Some(start)
    } else {
        text_from(s, pattern, start + 1)
    }
}

/// The run of characters that are not white space at the beginning of `s`.
pub open spec fn leading_word(s: Seq<char>) -> Seq<char>
    decreases s.len(),
{
    if s.len() == 0 || is_whitespace(s[0]) {
        Seq::empty()
    } else {
        seq![s[0]] + leading_word(s.skip(1))
    }
}

/// `s` without the slashes at its end.
pub open spec fn without_end_slashes(s: Seq<char>) -> Seq<char>
    decreases s.len(),
{
    if s.len() > 0 && s.last() == '/' {
        without_end_slashes(s.drop_last())
    } else {
        s
    }
}

/// The name in a tag: its first word, without slashes at the end and without one
/// at the beginning.
pub open spec fn tag_name(tag: Seq<char>) -> Seq<char> {
    let word = without_end_slashes(leading_word(trim(tag)));
    if word.len() > 0 && word[0] == '/' {
        word.skip(1)
    } else {
        word
    }
}

/// A name without its prefix.
pub open spec fn local_part(name: Seq<char>) -> Seq<char> {
    split(name, ':').last()
}

/// What stands between the first opening tag of a local name, from `offset` on,
/// and the first closing tag of the same full name after it.
pub open spec fn element_text(xml: Seq<char>, name: Seq<char>, offset: int) -> Option<Seq<char>>
    decreases xml.len() - offset,
    when 0 <= offset
    via element_text_decreases
{
    match index_from(xml, '<', offset) {
        None => None,
        Some(start) => if start + 1 < xml.len() && xml[start + 1] == '/' {
            element_text(xml, name, start + 2)
        } else {
            match index_from(xml, '>', start + 1) {
                None => None,
                Some(end) => {
                    let full = tag_name(xml.subrange(start + 1, end));
                    if local_part(full) == name {
                        match text_from(xml, seq!['<', '/'] + full + seq!['>'], end + 1) {
                            None => None,
                            Some(close) => Some(xml.subrange(end + 1, close)),
                        }
                    } else {
                        element_text(xml, name, end + 1)
                    }
                },
            }
        },
    }
}

#[via_fn]
proof fn element_text_decreases(xml: Seq<char>, name: Seq<char>, offset: int) {
    if let Some(start) = index_from(xml, '<', offset) {
        lemma_index_from(xml, '<', offset);
        lemma_index_from(xml, '>', start + 1);
    }
}

proof fn lemma_index_from(s: Seq<char>, c: char, start: int)
    requires
        0 <= start,
    ensures
        match index_from(s, c, start) {
            Some(i) => start <= i < s.len() && s[i] == c,
            None => true,
        },
    decreases s.len() - start,
{
    if start < s.len() && s[start] != c {
        lemma_index_from(s, c, start + 1);
    }
}

fn find_char(chars: &[char], c: char, start: usize) -> (found: Option<usize>)
    requires
        start <= chars@.len(),
    ensures
        match found {
            Some(i) => index_from(chars@, c, start as int) == Some(i as int) && start <= i
                < chars@.len(),
            None => index_from(chars@, c, start as int) is None,
        },
{
    let mut i: usize = start;
    while i < chars.len()
        invariant
            start <= i <= chars@.len(),
            index_from(chars@, c, start as int) == index_from(chars@, c, i as int),
        decreases chars@.len() - i,
    {
        if chars[i] == c {
            return Some(i);
        }
        i = i + 1;
    }
    None
}

fn find_text(chars: &[char], pattern: &[char], start: usize) -> (found: Option<usize>)
    requires
        start <= chars@.len(),
    ensures
        match found {
            Some(i) => text_from(chars@, pattern@, start as int) == Some(i as int) && start <= i
                <= chars@.len(),
            None => text_from(chars@, pattern@, start as int) is None,
        },
{
    let n: usize = chars.len();
    let mut i: usize = start;
    loop
        invariant
            n == chars@.len(),
            start <= i <= n,
            text_from(chars@, pattern@, start as int) == text_from(chars@, pattern@, i as int),
        decreases n - i,
    {
        if stands_at(chars, i, pattern) {
            return Some(i);
        }
        if i == n {
            assert(text_from(chars@, pattern@, n + 1) is None);
            return None;
        }
        i = i + 1;
    }
}

fn word_of(chars: &[char]) -> (word: Vec<char>)
    ensures
        word@ == leading_word(chars@),
{
    let mut word: Vec<char> = Vec::new();
    let mut i: usize = 0;
    assert(chars@.skip(0) == chars@);
    assert(Seq::<char>::empty() + leading_word(chars@) == leading_word(chars@));
    while i < chars.len() && !whitespace(chars[i])
        invariant
            i <= chars@.len(),
            word@ + leading_word(chars@.skip(i as int)) == leading_word(chars@),
        decreases chars@.len() - i,
    {
        let ghost before = word@;
        let ghost rest = chars@.skip(i as int);
        assert(rest.skip(1) == chars@.skip(i + 1));
        word.push(chars[i]);
        assert(before + (seq![rest[0]] + leading_word(rest.skip(1))) == word@ + leading_word(
            rest.skip(1),
        ));
        i = i + 1;
    }
    assert(leading_word(chars@.skip(i as int)) == Seq::<char>::empty());
    assert(word@ + Seq::<char>::empty() == word@);
    word
}

fn name_of_tag(tag: &[char]) -> (name: Vec<char>)
    ensures
        name@ == tag_name(tag@),
{
    let trimmed = trim_chars(tag);
    let word = word_of(trimmed.as_slice());
    let ghost all = word@;
    let mut n: usize = word.len();
    assert(all.take(n as int) == all);
    while n > 0 && word[n - 1] == '/'
        invariant
            all == word@,
            n <= word@.len(),
            without_end_slashes(all.take(n as int)) == without_end_slashes(all),
        decreases n,
    {
        assert(all.take(n as int).drop_last() == all.take(n - 1));
        n = n - 1;
    }
    assert(without_end_slashes(all) == all.take(n as int));
    let start: usize = if n > 0 && word[0] == '/' {
        1
    } else {
        0
    };
    let mut name: Vec<char> = Vec::new();
    copy_range(word.as_slice(), start, n, &mut name);
    assert(name@ =~= tag_name(tag@));
    name
}

fn local_part_is(name: &[char], expected: &str) -> (same: bool)
    ensures
        same == (local_part(name@) == expected@),
{
    let pieces = split_chars(name, ':');
    proof {
        lemma_split_nonempty(name@, ':');
        assert(char_texts(pieces@).len() == pieces@.len());
    }
    let last: usize = pieces.len() - 1;
    assert(char_texts(pieces@)[last as int] == pieces@[last as int]@);
    chars_are(pieces[last].as_slice(), expected)
}

/// Finds the text of the first element with a local name.
pub fn xml_local_element_text(xml: &str, local_name: &str) -> (found: Option<String>)
    ensures
        optional_text(found) == element_text(xml@, local_name@, 0),
{
    let chars = to_chars(xml);
    let n: usize = chars.len();
    let mut offset: usize = 0;
    while offset <= n
        invariant
            chars@ == xml@,
            n == chars@.len(),
            offset <= n,
            element_text(xml@, local_name@, offset as int) == element_text(xml@, local_name@, 0),
        decreases n - offset,
    {
        let start: usize = match find_char(chars.as_slice(), '<', offset) {
            Some(start) => start,
            None => return None,
        };
        if start + 1 < n && chars[start + 1] == '/' {
            offset = start + 2;
            continue ;
        }
        let end: usize = match find_char(chars.as_slice(), '>', start + 1) {
            Some(end) => end,
            None => return None,
        };
        let mut tag: Vec<char> = Vec::new();
        copy_range(chars.as_slice(), start + 1, end, &mut tag);
        assert(tag@ =~= xml@.subrange(start + 1, end as int));
        let full = name_of_tag(tag.as_slice());
        if local_part_is(full.as_slice(), local_name) {
            let mut close_tag: Vec<char> = Vec::new();
            close_tag.push('<');
            close_tag.push('/');
            copy_range(full.as_slice(), 0, full.len(), &mut close_tag);
            close_tag.push('>');
            assert(close_tag@ =~= seq!['<', '/'] + full@ + seq!['>']);
            let close: usize = match find_text(chars.as_slice(), close_tag.as_slice(), end + 1) {
                Some(close) => close,
                None => return None,
            };
            let mut content: Vec<char> = Vec::new();
            copy_range(chars.as_slice(), end + 1, close, &mut content);
            assert(content@ =~= xml@.subrange(end + 1, close as int));
            return Some(from_chars(content.as_slice()));
        }
        offset = end + 1;
    }
    None
}

/// The page number in the text of `docProps/app.xml`.
pub open spec fn saved_pages(xml: Seq<char>) -> Result<nat, Seq<char>> {
    match element_text(xml, "Pages"@, 0) {
        None => Err("docProps/app.xml does not contain Pages metadata."@),
        Some(text) => match unsigned_value(trim(text), usize::MAX as nat) {
            Err(error) => Err(
                "DOCX Pages metadata is not a valid number: "@ + number_error_text(error),
            ),
            Ok(pages) => if pages == 0 {
                Err("DOCX Pages metadata is zero, so it is probably stale."@)
            } else {
                Ok(pages)
            },
        },
    }
}

/// A page number or an error, as plain values.
pub open spec fn count_result(result: Result<usize, String>) -> Result<nat, Seq<char>> {
    match result {
        Ok(pages) => Ok(pages as nat),
        Err(error) => Err(error@),
    }
}

/// Reads the page number in the text of `docProps/app.xml`.
pub fn pages_from_app_xml(xml: &str) -> (result: Result<usize, String>)
    ensures
        count_result(result) == saved_pages(xml@),
{
    let text = match xml_local_element_text(xml, "Pages") {
        Some(text) => text,
        None => return Err("docProps/app.xml does not contain Pages metadata.".to_owned()),
    };
    let chars = to_chars(text.as_str());
    let trimmed = trim_chars(chars.as_slice());
    match parse_unsigned(trimmed.as_slice(), usize::MAX as u64) {
        Ok(pages) => {
            if pages == 0 {
                Err("DOCX Pages metadata is zero, so it is probably stale.".to_owned())
            } else {
                Ok(pages as usize)
            }
        },
        Err(error) => {
            let mut message = "DOCX Pages metadata is not a valid number: ".to_owned();
            message.append(number_error_message(error));
            Err(message)
        },
    }
}

/// The page number that a package was saved with.
pub open spec fn metadata_pages(content: Result<Seq<u8>, Seq<char>>) -> Result<nat, Seq<char>> {
    match content {
        Err(error) => Err("Could not read DOCX package: "@ + error),
        Ok(bytes) => match zip_entry(bytes, "docProps/app.xml"@) {
            Err(error) => Err(error),
            Ok(entry) => match utf8_text(entry) {
                Err(error) => Err("docProps/app.xml is not valid UTF-8: "@ + error),
                Ok(xml) => saved_pages(xml),
            },
        },
    }
}

/// Reads the page number that a package was saved with. The content is the bytes
/// of the file, or why they could not be read.
pub fn count_docx_pages_from_metadata(content: Result<Vec<u8>, String>) -> (result: Result<
    usize,
    String,
>)
    ensures
        count_result(result) == metadata_pages(bytes_result(content)),
{
    let bytes = match content {
        Ok(bytes) => bytes,
        Err(error) => {
            let mut message = "Could not read DOCX package: ".to_owned();
            message.append(error.as_str());
            return Err(message);
        },
    };
    let entry = match read_zip_entry(bytes.as_slice(), "docProps/app.xml") {
        Ok(entry) => entry,
        Err(error) => return Err(error),
    };
    match text_from_utf8(entry) {
        Ok(xml) => pages_from_app_xml(xml.as_str()),
        Err(error) => {
            let mut message = "docProps/app.xml is not valid UTF-8: ".to_owned();
            message.append(error.as_str());
            Err(message)
        },
    }
}

} // verus!
