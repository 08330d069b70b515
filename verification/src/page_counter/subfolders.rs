//! What including subfolders changes in a count.

use crate::page_counter::files::{
    collected, entry_count, files_of, FileView, FolderEntry, FolderListing,
};
use crate::page_counter::{
    folder_count, ContentView, CountView, CountedFile, NoteView, PageCounterOptions,
};
use std::path::PathBuf;
use vstd::prelude::*;

verus! {

/// Files, with what counting each of them gives.
pub open spec fn counted_files(
    files: Seq<FileView>,
    counts: spec_fn(FileView) -> ContentView,
) -> Seq<CountedFile> {
    files.map_values(|file: FileView| CountedFile { file, content: counts(file) })
}

/// Options that ask for subfolders, or for none.
pub open spec fn with_subfolders(options: PageCounterOptions, chosen: bool) -> PageCounterOptions {
    PageCounterOptions { include_subfolders: chosen, ..options }
}

/// The count of a folder whose files can be listed, with or without subfolders.
pub open spec fn listing_count(
    options: PageCounterOptions,
    listing: FolderListing,
    chosen: bool,
    counts: spec_fn(FileView) -> ContentView,
) -> CountView {
    folder_count(
        with_subfolders(options, chosen),
        counted_files(files_of(listing, chosen)->Ok_0, counts),
    )
}

/// Whether every note of one list stands in another.
pub open spec fn notes_within(a: Seq<NoteView>, b: Seq<NoteView>) -> bool {
    forall|note: NoteView| #[trigger] a.contains(note) ==> b.contains(note)
}

/// Whether one count reaches no further than another: no number is greater, and no
/// file is noted that the other does not note for the same reason.
pub open spec fn is_within(a: CountView, b: CountView) -> bool {
    &&& a.total_pages <= b.total_pages
    &&& a.counted_files <= b.counted_files
    &&& a.pdf_files <= b.pdf_files
    &&& a.document_files <= b.document_files
    &&& a.word_counted_files <= b.word_counted_files
    &&& a.libreoffice_fallback_files <= b.libreoffice_fallback_files
    &&& notes_within(a.skipped_files, b.skipped_files)
    &&& notes_within(a.failed_files, b.failed_files)
}

/// Whether a file lies in a folder itself.
pub open spec fn lies_directly_in(listing: FolderListing, path: PathBuf) -> bool {
    exists|i: int|
        0 <= i < entry_count(listing) && match #[trigger] listing.entries->Ok_0@[i] {
            FolderEntry::File(file) => file.path == path,
            _ => false,
        }
}

/// Whether all files of a list of notes lie in a folder itself.
pub open spec fn notes_lie_directly_in(listing: FolderListing, notes: Seq<NoteView>) -> bool {
    forall|i: int| 0 <= i < notes.len() ==> lies_directly_in(listing, (#[trigger] notes[i]).path)
}

/// Whether a folder has no subfolder.
pub open spec fn has_no_subfolder(listing: FolderListing) -> bool {
    forall|i: int| 0 <= i < entry_count(listing) ==> !(#[trigger] listing.entries->Ok_0@[i] is Folder)
}

proof fn lemma_push_within(a: Seq<NoteView>, b: Seq<NoteView>, note: NoteView)
    requires
        notes_within(a, b),
    ensures
        notes_within(a, b.push(note)),
        notes_within(a.push(note), b.push(note)),
{
    assert forall|other: NoteView| b.contains(other) implies #[trigger] b.push(note).contains(
        other,
    ) by {
        let i = choose|i: int| 0 <= i < b.len() && b[i] == other;
        assert(b.push(note)[i] == other);
    }
    assert(b.push(note)[b.len() as int] == note);
    assert forall|other: NoteView| #[trigger] a.push(note).contains(other) implies b.push(
        note,
    ).contains(other) by {
        let i = choose|i: int| 0 <= i < a.push(note).len() && a.push(note)[i] == other;
        if i < a.len() {
            assert(a[i] == other);
            assert(a.contains(other));
        }
    }
    assert forall|other: NoteView| #[trigger] a.contains(other) implies b.push(note).contains(
        other,
    ) by {
        assert(b.contains(other));
    }
}

/// One more file leaves a count within another, where the other takes it in too,
/// and also where only the other does.
proof fn lemma_file_within(a: CountView, b: CountView, counted: CountedFile)
    requires
        is_within(a, b),
    ensures
        is_within(a, b.after_file(counted.file, counted.content)),
        is_within(
            a.after_file(counted.file, counted.content),
            b.after_file(counted.file, counted.content),
        ),
{
    let after = b.after_file(counted.file, counted.content);
    if after.skipped_files.len() > b.skipped_files.len() {
        lemma_push_within(a.skipped_files, b.skipped_files, after.skipped_files.last());
    }
    if after.failed_files.len() > b.failed_files.len() {
        lemma_push_within(a.failed_files, b.failed_files, after.failed_files.last());
    }
}

proof fn lemma_more_files_within(
    a: CountView,
    options: PageCounterOptions,
    files: Seq<CountedFile>,
    more: Seq<CountedFile>,
)
    requires
        is_within(a, folder_count(options, files)),
    ensures
        is_within(a, folder_count(options, files + more)),
    decreases more.len(),
{
    if more.len() == 0 {
        assert(files + more =~= files);
    } else {
        lemma_more_files_within(a, options, files, more.drop_last());
        assert((files + more).drop_last() =~= files + more.drop_last());
        lemma_file_within(a, folder_count(options, files + more.drop_last()), more.last());
    }
}

proof fn lemma_first_entries_within(
    options: PageCounterOptions,
    listing: FolderListing,
    counts: spec_fn(FileView) -> ContentView,
    count: nat,
)
    requires
        count <= entry_count(listing),
        collected(listing, true, count) is Ok,
    ensures
        collected(listing, false, count) is Ok,
        is_within(
            folder_count(
                with_subfolders(options, false),
                counted_files(collected(listing, false, count)->Ok_0, counts),
            ),
            folder_count(
                with_subfolders(options, true),
                counted_files(collected(listing, true, count)->Ok_0, counts),
            ),
        ),
    decreases count,
{
    let direct = collected(listing, false, count)->Ok_0;
    let all = collected(listing, true, count)->Ok_0;
    if count == 0 {
        assert(counted_files(direct, counts).len() == 0);
        assert(counted_files(all, counts).len() == 0);
    } else {
        let n = (count - 1) as nat;
        lemma_first_entries_within(options, listing, counts, n);
        let direct_before = collected(listing, false, n)->Ok_0;
        let all_before = collected(listing, true, n)->Ok_0;
        let a = folder_count(with_subfolders(options, false), counted_files(direct_before, counts));
        let b = folder_count(with_subfolders(options, true), counted_files(all_before, counts));
        match listing.entries->Ok_0@[n as int] {
            FolderEntry::File(file) => {
                lemma_file_within(a, b, CountedFile { file: file@, content: counts(file@) });
                assert(counted_files(direct, counts).drop_last() =~= counted_files(
                    direct_before,
                    counts,
                ));
                assert(counted_files(all, counts).drop_last() =~= counted_files(
                    all_before,
                    counts,
                ));
            },
            FolderEntry::Folder(inner) => {
                let found = files_of(inner, true)->Ok_0;
                assert(counted_files(all, counts) =~= counted_files(all_before, counts)
                    + counted_files(found, counts));
                lemma_more_files_within(
                    a,
                    with_subfolders(options, true),
                    counted_files(all_before, counts),
                    counted_files(found, counts),
                );
            },
            _ => {},
        }
    }
}

proof fn lemma_notes_of_first_entries(
    options: PageCounterOptions,
    listing: FolderListing,
    counts: spec_fn(FileView) -> ContentView,
    count: nat,
)
    requires
        count <= entry_count(listing),
        collected(listing, false, count) is Ok,
    ensures
        notes_lie_directly_in(
            listing,
            folder_count(
                options,
                counted_files(collected(listing, false, count)->Ok_0, counts),
            ).skipped_files,
        ),
        notes_lie_directly_in(
            listing,
            folder_count(
                options,
                counted_files(collected(listing, false, count)->Ok_0, counts),
            ).failed_files,
        ),
    decreases count,
{
    let files = collected(listing, false, count)->Ok_0;
    if count == 0 {
        assert(counted_files(files, counts).len() == 0);
    } else {
        let n = (count - 1) as nat;
        lemma_notes_of_first_entries(options, listing, counts, n);
        let before = collected(listing, false, n)->Ok_0;
        match listing.entries->Ok_0@[n as int] {
            FolderEntry::File(file) => {
                assert(counted_files(files, counts).drop_last() =~= counted_files(before, counts));
                assert(lies_directly_in(listing, file.path));
            },
            _ => {},
        }
    }
}

proof fn lemma_same_files(listing: FolderListing, count: nat)
    requires
        count <= entry_count(listing),
        has_no_subfolder(listing),
    ensures
        collected(listing, true, count) == collected(listing, false, count),
    decreases count,
{
    if count > 0 && listing.entries is Ok {
        lemma_same_files(listing, (count - 1) as nat);
        assert(!(listing.entries->Ok_0@[count - 1] is Folder));
    }
}

/// Including subfolders only adds to a count, as long as each file counts for the
/// same: no number becomes smaller, and every file that is noted without them is
/// noted with them for the same reason.
pub proof fn subfolders_only_add_to_a_count(
    options: PageCounterOptions,
    listing: FolderListing,
    counts: spec_fn(FileView) -> ContentView,
)
    requires
        files_of(listing, true) is Ok,
    ensures
        files_of(listing, false) is Ok,
        is_within(
            listing_count(options, listing, false, counts),
            listing_count(options, listing, true, counts),
        ),
{
    lemma_first_entries_within(options, listing, counts, entry_count(listing));
}

/// Without subfolders, only files of the folder itself are noted.
pub proof fn without_subfolders_only_own_files_are_noted(
    options: PageCounterOptions,
    listing: FolderListing,
    counts: spec_fn(FileView) -> ContentView,
)
    requires
        files_of(listing, false) is Ok,
    ensures
        notes_lie_directly_in(
            listing,
            listing_count(options, listing, false, counts).skipped_files,
        ),
        notes_lie_directly_in(listing, listing_count(options, listing, false, counts).failed_files),
{
    lemma_notes_of_first_entries(
        with_subfolders(options, false),
        listing,
        counts,
        entry_count(listing),
    );
}

proof fn lemma_flag_alone_differs(options: PageCounterOptions, files: Seq<CountedFile>)
    ensures
        folder_count(with_subfolders(options, true), files) == (CountView {
            include_subfolders: true,
            ..folder_count(with_subfolders(options, false), files)
        }),
    decreases files.len(),
{
    if files.len() > 0 {
        lemma_flag_alone_differs(options, files.drop_last());
    }
}

/// For a folder without subfolders, it makes no difference whether they are
/// included.
pub proof fn without_subfolders_the_counts_agree(
    options: PageCounterOptions,
    listing: FolderListing,
    counts: spec_fn(FileView) -> ContentView,
)
    requires
        has_no_subfolder(listing),
    ensures
        files_of(listing, true) == files_of(listing, false),
        listing_count(options, listing, true, counts) == (CountView {
            include_subfolders: true,
            ..listing_count(options, listing, false, counts)
        }),
{
    lemma_same_files(listing, entry_count(listing));
    lemma_flag_alone_differs(options, counted_files(files_of(listing, false)->Ok_0, counts));
}

} // verus!
