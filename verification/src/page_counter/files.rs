//! The files of a folder and what they are.

use crate::commands::text_from_utf8;
use crate::paths::shown_path;
use crate::results::display_path;
use crate::text::{lower, lower_text, optional_text, same_text, starts_with};
use std::path::PathBuf;
use vstd::prelude::*;
use vstd::string::*;
use vstd::utf8::{decode_utf8, valid_utf8};

verus! {

/// A file in a folder.
#[derive(Debug, Clone, PartialEq, Eq)]
pub struct FoundFile {
    pub path: PathBuf,
    /// The bytes of the file's name, which is UTF-8 where it is a text.
    pub name: Vec<u8>,
}

/// A file as plain values.
pub ghost struct FileView {
    pub path: PathBuf,
    pub name: Seq<u8>,
}

impl View for FoundFile {
    type V = FileView;

    open spec fn view(&self) -> FileView {
        FileView { path: self.path, name: self.name@ }
    }
}

/// The views of a list of files.
pub open spec fn file_views(files: Seq<FoundFile>) -> Seq<FileView> {
    files.map_values(|f: FoundFile| f@)
}

/// What a folder holds.
#[derive(Debug)]
pub struct FolderListing {
    pub path: PathBuf,
    /// The entries, or why the folder could not be read.
    pub entries: Result<Vec<FolderEntry>, String>,
}

/// One entry of a folder.
#[derive(Debug)]
pub enum FolderEntry {
    File(FoundFile),
    Folder(FolderListing),
    /// Neither a file nor a folder.
    Other,
    /// The entry could not be read, and why.
    Failed(String),
}

/// What a file is, by its extension.
#[derive(Debug, Clone, Copy, PartialEq, Eq, Structural)]
pub enum FileKind {
    Pdf,
    PowerPoint,
    Document,
    Spreadsheet,
    Unsupported,
}

/// How many entries a folder holds.
pub open spec fn entry_count(listing: FolderListing) -> nat {
    match listing.entries {
        Ok(entries) => entries@.len(),
        Err(_) => 0,
    }
}

/// The files among the first `count` entries of a folder, in order, and where
/// subfolders count, those in them. The first entry or folder that could not be
/// read decides the error.
pub open spec fn collected(listing: FolderListing, include_subfolders: bool, count: nat) -> Result<
    Seq<FileView>,
    Seq<char>,
>
    decreases listing, count,
{
    match listing.entries {
        Err(error) => Err("Could not read folder "@ + shown_path(listing.path) + ": "@ + error@),
        Ok(entries) => if count == 0 || count > entries@.len() {
            Ok(Seq::empty())
        } else {
            match collected(listing, include_subfolders, (count - 1) as nat) {
                Err(error) => Err(error),
                Ok(front) => match entries@[count - 1] {
                    FolderEntry::File(file) => Ok(front.push(file@)),
                    FolderEntry::Other => Ok(front),
                    FolderEntry::Failed(error) => Err(
                        "Could not read an entry in "@ + shown_path(listing.path) + ": "@ + error@,
                    ),
                    FolderEntry::Folder(inner) => if include_subfolders {
                        match collected(inner, true, entry_count(inner)) {
                            Err(error) => Err(error),
                            Ok(found) => Ok(front + found),
                        }
                    } else {
                        Ok(front)
                    },
                },
            }
        },
    }
}

/// The files of a folder.
pub open spec fn files_of(listing: FolderListing, include_subfolders: bool) -> Result<
    Seq<FileView>,
    Seq<char>,
> {
    collected(listing, include_subfolders, entry_count(listing))
}

proof fn lemma_collected_error(listing: FolderListing, include_subfolders: bool, i: nat, n: nat)
    requires
        i <= n <= entry_count(listing),
        collected(listing, include_subfolders, i) is Err,
    ensures
        collected(listing, include_subfolders, n) == collected(listing, include_subfolders, i),
    decreases n - i,
{
    if i < n {
        lemma_collected_error(listing, include_subfolders, i, (n - 1) as nat);
    }
}

/// Adds the files of a folder to `output`.
pub fn collect_files(
    listing: FolderListing,
    include_subfolders: bool,
    output: &mut Vec<FoundFile>,
) -> (result: Result<(), String>)
    ensures
        match result {
            Ok(_) => files_of(listing, include_subfolders) is Ok && file_views(final(output)@)
                == file_views(old(output)@) + files_of(listing, include_subfolders)->Ok_0,
            Err(error) => files_of(listing, include_subfolders) == Err::<Seq<FileView>, Seq<char>>(
                error@,
            ),
        },
    decreases listing,
{
    let ghost whole = listing;
    let path = display_path(&listing.path);
    let entries = match listing.entries {
        Ok(entries) => entries,
        Err(error) => {
            let mut message = "Could not read folder ".to_owned();
            message.append(path.as_str());
            message.append(": ");
            message.append(error.as_str());
            return Err(message);
        },
    };
    let ghost before = file_views(output@);
    assert(before + Seq::<FileView>::empty() == before);
    for entry in it: entries
        invariant
            whole == listing,
            whole.entries is Ok,
            whole.entries->Ok_0 == entries,
            path@ == shown_path(whole.path),
            it.seq() == entries@,
            before == file_views(old(output)@),
            collected(whole, include_subfolders, it.index() as nat) is Ok,
            file_views(output@) == before + collected(
                whole,
                include_subfolders,
                it.index() as nat,
            )->Ok_0,
    {
        let ghost index = it.index();
        let ghost front = collected(whole, include_subfolders, index as nat)->Ok_0;
        let ghost now = file_views(output@);
        assert(entries@[index] == entry);
        match entry {
            FolderEntry::File(file) => {
                output.push(file);
                assert(file_views(output@) =~= now.push(file@));
                assert(now.push(file@) =~= before + front.push(file@));
            },
            FolderEntry::Other => {},
            FolderEntry::Failed(error) => {
                let mut message = "Could not read an entry in ".to_owned();
                message.append(path.as_str());
                message.append(": ");
                message.append(error.as_str());
                proof {
                    lemma_collected_error(
                        whole,
                        include_subfolders,
                        (index + 1) as nat,
                        entry_count(whole),
                    );
                }
                return Err(message);
            },
            FolderEntry::Folder(inner) => {
                if include_subfolders {
                    match collect_files(inner, true, output) {
                        Ok(_) => {
                            let ghost found = files_of(inner, true)->Ok_0;
                            assert((before + front) + found =~= before + (front + found));
                        },
                        Err(error) => {
                            proof {
                                lemma_collected_error(
                                    whole,
                                    include_subfolders,
                                    (index + 1) as nat,
                                    entry_count(whole),
                                );
                            }
                            return Err(error);
                        },
                    }
                }
            },
        }
    }
    Ok(())
}

/// The index of the last dot, if there is one.
pub open spec fn last_dot(name: Seq<u8>) -> Option<int>
    decreases name.len(),
{
    if name.len() == 0 {
        None
    } else if name.last() == 46 {
        Some(name.len() - 1)
    } else {
        last_dot(name.drop_last())
    }
}

/// What stands after the last dot of a file's name. A name that begins with its
/// only dot has no extension.
pub open spec fn extension_bytes(name: Seq<u8>) -> Option<Seq<u8>> {
    match last_dot(name) {
        Some(dot) => if dot == 0 || name == seq![46u8, 46u8] {
            None
        } else {
            Some(name.skip(dot + 1))
        },
        None => None,
    }
}

/// The extension of a file's name as a text, where it is one.
pub open spec fn extension_text(name: Seq<u8>) -> Option<Seq<char>> {
    match extension_bytes(name) {
        Some(bytes) => if valid_utf8(bytes) {
            Some(decode_utf8(bytes))
        } else {
            None
        },
        None => None,
    }
}

/// The extension of a file's name as a text, where it is one.
pub fn extension_of(name: &Vec<u8>) -> (extension: Option<String>)
    ensures
        optional_text(extension) == extension_text(name@),
{
    let n: usize = name.len();
    let mut end: usize = n;
    assert(name@.take(n as int) == name@);
    while end > 0 && name[end - 1] != 46
        invariant
            n == name@.len(),
            end <= n,
            last_dot(name@) == last_dot(name@.take(end as int)),
        decreases end,
    {
        assert(name@.take(end as int).drop_last() == name@.take(end - 1));
        end = end - 1;
    }
    if end == 0 {
        return None;
    }
    if end == 1 {
        return None;
    }
    if n == 2 && name[0] == 46 && name[1] == 46 {
        assert(name@ =~= seq![46u8, 46u8]);
        return None;
    }
    let mut bytes: Vec<u8> = Vec::new();
    for i in end..n
        invariant
            n == name@.len(),
            end <= n,
            bytes@ == name@.subrange(end as int, i as int),
    {
        bytes.push(name[i]);
        assert(name@.subrange(end as int, i + 1) == name@.subrange(end as int, i as int).push(
            name@[i as int],
        ));
    }
    assert(name@.subrange(end as int, n as int) == name@.skip(end as int));
    match text_from_utf8(bytes) {
        Ok(text) => Some(text),
        Err(_) => None,
    }
}

/// What a file is, by its extension in small letters.
pub open spec fn kind_of_extension(extension: Seq<char>) -> FileKind {
    if extension == "pdf"@ {
        FileKind::Pdf
    } else if extension == "ppt"@ || extension == "pptx"@ || extension == "pptm"@ || extension
        == "pps"@ || extension == "ppsx"@ {
        FileKind::PowerPoint
    } else if extension == "doc"@ || extension == "docx"@ || extension == "docm"@ || extension
        == "rtf"@ || extension == "odt"@ {
        FileKind::Document
    } else if extension == "xls"@ || extension == "xlsx"@ || extension == "xlsm"@ || extension
        == "xlsb"@ || extension == "ods"@ || extension == "csv"@ {
        FileKind::Spreadsheet
    } else {
        FileKind::Unsupported
    }
}

/// What a file is, by its name.
pub open spec fn file_kind(name: Seq<u8>) -> FileKind {
    match extension_text(name) {
        Some(extension) => kind_of_extension(lower(extension)),
        None => FileKind::Unsupported,
    }
}

/// What a file is, by its name.
pub fn classify_file(name: &Vec<u8>) -> (kind: FileKind)
    ensures
        kind == file_kind(name@),
{
    let extension = match extension_of(name) {
        Some(extension) => lower_text(extension.as_str()),
        None => return FileKind::Unsupported,
    };
    let extension = extension.as_str();
    if same_text(extension, "pdf") {
        FileKind::Pdf
    } else if same_text(extension, "ppt") || same_text(extension, "pptx") || same_text(
        extension,
        "pptm",
    ) || same_text(extension, "pps") || same_text(extension, "ppsx") {
        FileKind::PowerPoint
    } else if same_text(extension, "doc") || same_text(extension, "docx") || same_text(
        extension,
        "docm",
    ) || same_text(extension, "rtf") || same_text(extension, "odt") {
        FileKind::Document
    } else if same_text(extension, "xls") || same_text(extension, "xlsx") || same_text(
        extension,
        "xlsm",
    ) || same_text(extension, "xlsb") || same_text(extension, "ods") || same_text(
        extension,
        "csv",
    ) {
        FileKind::Spreadsheet
    } else {
        FileKind::Unsupported
    }
}

/// Whether a name is that of a file with which Office locks a document.
pub open spec fn is_lock_name(name: Seq<u8>) -> bool {
    valid_utf8(name) && "~$"@.is_prefix_of(decode_utf8(name))
}

/// Whether a name is that of a file with which Office locks a document.
pub fn is_office_lock_file(name: &Vec<u8>) -> (locks: bool)
    ensures
        locks == is_lock_name(name@),
{
    match text_from_utf8(name.clone()) {
        Ok(text) => starts_with(text.as_str(), "~$"),
        Err(_) => false,
    }
}

/// Whether a name is that of a DOCX package.
pub open spec fn is_docx_name(name: Seq<u8>) -> bool {
    match extension_text(name) {
        Some(extension) => lower(extension) == "docx"@ || lower(extension) == "docm"@,
        None => false,
    }
}

/// Whether a name is that of a DOCX package.
pub fn is_docx_package(name: &Vec<u8>) -> (docx: bool)
    ensures
        docx == is_docx_name(name@),
{
    match extension_of(name) {
        Some(extension) => {
            let extension = lower_text(extension.as_str());
            same_text(extension.as_str(), "docx") || same_text(extension.as_str(), "docm")
        },
        None => false,
    }
}

/// A DOCX package is a document.
pub proof fn docx_packages_are_documents(name: Seq<u8>)
    requires
        is_docx_name(name),
    ensures
        file_kind(name) == FileKind::Document,
{
    reveal_strlit("pdf");
    reveal_strlit("ppt");
    reveal_strlit("pptx");
    reveal_strlit("pptm");
    reveal_strlit("pps");
    reveal_strlit("ppsx");
    reveal_strlit("docx");
    reveal_strlit("docm");
    assert("docx"@[0] == 'd' && "docm"@[0] == 'd');
    assert("pdf"@[0] == 'p' && "ppt"@[0] == 'p' && "pptx"@[0] == 'p' && "pptm"@[0] == 'p'
        && "pps"@[0] == 'p' && "ppsx"@[0] == 'p');
}

/// With subfolders, a folder that can be read keeps the files that it has
/// without them.
pub proof fn subfolders_only_add_files(listing: FolderListing, count: nat)
    requires
        count <= entry_count(listing),
        collected(listing, true, count) is Ok,
    ensures
        collected(listing, false, count) is Ok,
        forall|file: FileView|
            collected(listing, false, count)->Ok_0.contains(file) ==> #[trigger] collected(
                listing,
                true,
                count,
            )->Ok_0.contains(file),
    decreases count,
{
    if count > 0 {
        let n = (count - 1) as nat;
        subfolders_only_add_files(listing, n);
        let direct = collected(listing, false, n)->Ok_0;
        let all = collected(listing, true, n)->Ok_0;
        let direct_now = collected(listing, false, count)->Ok_0;
        let all_now = collected(listing, true, count)->Ok_0;
        assert forall|file: FileView| direct_now.contains(file) implies #[trigger] all_now.contains(
            file,
        ) by {
            let k = choose|k: int| 0 <= k < direct_now.len() && direct_now[k] == file;
            if k < direct.len() {
                assert(direct[k] == file);
                assert(all.contains(file));
                let j = choose|j: int| 0 <= j < all.len() && all[j] == file;
                assert(all_now[j] == file);
            } else {
                assert(all_now[all.len() as int] == file);
            }
        }
    }
}

} // verus!
