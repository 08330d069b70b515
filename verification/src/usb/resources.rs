//! The files of a drive, as they are handed to the Restart Manager.
//!
//! Folders and files are held by numbers that the caller gives them. Folders are
//! visited in the order in which they are found.

use crate::text::texts;
use std::collections::VecDeque;
use vstd::prelude::*;
use vstd::string::*;

verus! {

/// The most files that are handed to the Restart Manager.
pub const MAX_RESTART_MANAGER_RESOURCES: usize = 4096;

/// What a folder holds under a name.
#[derive(Debug, Clone, Copy, PartialEq, Eq, Structural)]
pub enum EntryKind {
    Folder,
    File,
    Other,
}

/// A walk through the folders of a drive.
#[derive(Debug)]
pub struct ResourceScan {
    pub resources: Vec<usize>,
    pub notes: Vec<String>,
    pub limited: bool,
    pub queue: VecDeque<usize>,
}

/// A walk as plain values.
pub ghost struct ScanView {
    pub resources: Seq<usize>,
    pub notes: Seq<Seq<char>>,
    pub limited: bool,
    pub queue: Seq<usize>,
}

impl View for ResourceScan {
    type V = ScanView;

    open spec fn view(&self) -> ScanView {
        ScanView {
            resources: self.resources@,
            notes: texts(self.notes@),
            limited: self.limited,
            queue: self.queue@,
        }
    }
}

impl ScanView {
    /// There are no more files than the limit, and the limit was only felt where
    /// there are that many.
    pub open spec fn well_formed(self) -> bool {
        &&& 0 < self.resources.len() <= MAX_RESTART_MANAGER_RESOURCES
        &&& self.limited ==> self.resources.len() == MAX_RESTART_MANAGER_RESOURCES
    }

    /// The walk after one entry of a folder.
    pub open spec fn with_entry(self, entry: (usize, EntryKind)) -> ScanView {
        if self.resources.len() >= MAX_RESTART_MANAGER_RESOURCES {
            ScanView { limited: true, ..self }
        } else {
            match entry.1 {
                EntryKind::Folder => ScanView { queue: self.queue.push(entry.0), ..self },
                EntryKind::File => ScanView { resources: self.resources.push(entry.0), ..self },
                EntryKind::Other => self,
            }
        }
    }

    /// The walk after the entries of a folder.
    pub open spec fn with_entries(self, entries: Seq<(usize, EntryKind)>) -> ScanView
        decreases entries.len(),
    {
        if entries.len() == 0 {
            self
        } else {
            self.with_entries(entries.drop_last()).with_entry(entries.last())
        }
    }

    /// The walk after a folder that could not be read.
    pub open spec fn with_failure(self, folder: Seq<char>, error: Seq<char>) -> ScanView {
        ScanView {
            notes: self.notes.push("Could not scan "@ + folder + ": "@ + error),
            ..self
        }
    }

    /// The walk after the next folder is taken up.
    pub open spec fn taken(self) -> ScanView {
        if self.queue.len() == 0 {
            self
        } else if self.resources.len() >= MAX_RESTART_MANAGER_RESOURCES {
            ScanView { limited: true, queue: self.queue.skip(1), ..self }
        } else {
            ScanView { queue: self.queue.skip(1), ..self }
        }
    }

    /// The folder to visit next. There is none at the end or at the limit.
    pub open spec fn next(self) -> Option<usize> {
        if self.queue.len() == 0 || self.resources.len() >= MAX_RESTART_MANAGER_RESOURCES {
            None
        } else {
            Some(self.queue[0])
        }
    }
}

/// A walk that begins at the root.
pub open spec fn begun(root: usize) -> ScanView {
    ScanView {
        resources: seq![root],
        notes: Seq::empty(),
        limited: false,
        queue: seq![root],
    }
}

impl ResourceScan {
    /// A walk that begins at the root.
    pub fn new(root: usize) -> (scan: Self)
        ensures
            scan@ == begun(root),
            scan@.well_formed(),
    {
        let mut resources: Vec<usize> = Vec::new();
        resources.push(root);
        let mut queue: VecDeque<usize> = VecDeque::new();
        queue.push_back(root);
        let scan = ResourceScan { resources, notes: Vec::new(), limited: false, queue };
        assert(scan@.resources =~= seq![root]);
        assert(scan@.queue =~= seq![root]);
        assert(scan@.notes =~= Seq::empty());
        scan
    }

    /// Takes up the next folder. The walk is over where there is none.
    pub fn next_folder(&mut self) -> (folder: Option<usize>)
        requires
            old(self)@.well_formed(),
        ensures
            folder == old(self)@.next(),
            final(self)@ == old(self)@.taken(),
            final(self)@.well_formed(),
    {
        match self.queue.pop_front() {
            None => None,
            Some(folder) => {
                assert(self@.queue =~= old(self)@.queue.skip(1));
                if self.resources.len() >= MAX_RESTART_MANAGER_RESOURCES {
                    self.limited = true;
                    None
                } else {
                    Some(folder)
                }
            },
        }
    }

    /// Notes that a folder could not be read.
    pub fn folder_failed(&mut self, folder: &str, error: &str)
        requires
            old(self)@.well_formed(),
        ensures
            final(self)@ == old(self)@.with_failure(folder@, error@),
            final(self)@.well_formed(),
    {
        let mut note = "Could not scan ".to_owned();
        note.append(folder);
        note.append(": ");
        note.append(error);
        self.notes.push(note);
        assert(self@.notes =~= old(self)@.notes.push(note@));
    }

    /// Takes in the entries of a folder, up to the limit.
    pub fn folder_read(&mut self, entries: &Vec<(usize, EntryKind)>)
        requires
            old(self)@.well_formed(),
        ensures
            final(self)@ == old(self)@.with_entries(entries@),
            final(self)@.well_formed(),
    {
        let ghost start = self@;
        assert(entries@.take(0) == Seq::<(usize, EntryKind)>::empty());
        for i in 0..entries.len()
            invariant
                start == old(self)@,
                self@ == start.with_entries(entries@.take(i as int)),
                self@.well_formed(),
        {
            let ghost before = self@;
            assert(entries@.take(i + 1).drop_last() == entries@.take(i as int));
            if self.resources.len() >= MAX_RESTART_MANAGER_RESOURCES {
                self.limited = true;
                proof {
                    lemma_full_scan(start, entries@, i + 1);
                    assert(self@ == before.with_entry(entries@[i as int]));
                }
                return ;
            }
            let (path, kind) = entries[i];
            match kind {
                EntryKind::Folder => {
                    self.queue.push_back(path);
                },
                EntryKind::File => {
                    self.resources.push(path);
                },
                EntryKind::Other => {},
            }
            assert(self@ == before.with_entry(entries@[i as int]));
        }
        assert(entries@.take(entries@.len() as int) == entries@);
    }
}

/// Once the limit is felt, further entries change nothing.
proof fn lemma_full_scan(start: ScanView, entries: Seq<(usize, EntryKind)>, i: int)
    requires
        0 <= i <= entries.len(),
        start.with_entries(entries.take(i)).limited,
        start.with_entries(entries.take(i)).resources.len() >= MAX_RESTART_MANAGER_RESOURCES,
    ensures
        start.with_entries(entries) == start.with_entries(entries.take(i)),
    decreases entries.len() - i,
{
    if i == entries.len() {
        assert(entries.take(i) == entries);
    } else {
        assert(entries.take(i + 1).drop_last() == entries.take(i));
        lemma_full_scan(start, entries, i + 1);
    }
}

/// What was found before a folder stays found, in its order.
pub proof fn scanning_keeps_what_was_found(scan: ScanView, entries: Seq<(usize, EntryKind)>)
    ensures
        scan.resources.is_prefix_of(scan.with_entries(entries).resources),
        scan.queue.is_prefix_of(scan.with_entries(entries).queue),
        scan.with_entries(entries).notes == scan.notes,
    decreases entries.len(),
{
    if entries.len() == 0 {
        assert(scan.resources =~= scan.resources.subrange(0, scan.resources.len() as int));
        assert(scan.queue =~= scan.queue.subrange(0, scan.queue.len() as int));
    } else {
        scanning_keeps_what_was_found(scan, entries.drop_last());
        let before = scan.with_entries(entries.drop_last());
        let after = scan.with_entries(entries);
        assert(scan.resources =~= after.resources.subrange(0, scan.resources.len() as int));
        assert(scan.queue =~= after.queue.subrange(0, scan.queue.len() as int));
    }
}

/// What came of visiting a folder.
pub ghost enum Visit {
    /// Its entries.
    Read(Seq<(usize, EntryKind)>),
    /// It could not be read: how it is shown, and why.
    Failed(Seq<char>, Seq<char>),
}

/// The files among the entries of a folder.
pub open spec fn files_among(entries: Seq<(usize, EntryKind)>) -> Seq<usize>
    decreases entries.len(),
{
    if entries.len() == 0 {
        Seq::empty()
    } else if entries.last().1 is File {
        files_among(entries.drop_last()).push(entries.last().0)
    } else {
        files_among(entries.drop_last())
    }
}

/// The folders among the entries of a folder.
pub open spec fn folders_among(entries: Seq<(usize, EntryKind)>) -> Seq<usize>
    decreases entries.len(),
{
    if entries.len() == 0 {
        Seq::empty()
    } else if entries.last().1 is Folder {
        folders_among(entries.drop_last()).push(entries.last().0)
    } else {
        folders_among(entries.drop_last())
    }
}

/// The files of all folders that were read, in the order of the visits.
pub open spec fn files_found(visits: Seq<Visit>) -> Seq<usize>
    decreases visits.len(),
{
    if visits.len() == 0 {
        Seq::empty()
    } else {
        match visits.last() {
            Visit::Read(entries) => files_found(visits.drop_last()) + files_among(entries),
            Visit::Failed(_, _) => files_found(visits.drop_last()),
        }
    }
}

/// The folders in all folders that were read, in the order of the visits.
pub open spec fn folders_found(visits: Seq<Visit>) -> Seq<usize>
    decreases visits.len(),
{
    if visits.len() == 0 {
        Seq::empty()
    } else {
        match visits.last() {
            Visit::Read(entries) => folders_found(visits.drop_last()) + folders_among(entries),
            Visit::Failed(_, _) => folders_found(visits.drop_last()),
        }
    }
}

/// One line for each folder that could not be read.
pub open spec fn failures_found(visits: Seq<Visit>) -> Seq<Seq<char>>
    decreases visits.len(),
{
    if visits.len() == 0 {
        Seq::empty()
    } else {
        match visits.last() {
            Visit::Read(_) => failures_found(visits.drop_last()),
            Visit::Failed(folder, error) => failures_found(visits.drop_last()).push(
                "Could not scan "@ + folder + ": "@ + error,
            ),
        }
    }
}

/// A walk from the root after visits.
pub open spec fn walk(root: usize, visits: Seq<Visit>) -> ScanView
    decreases visits.len(),
{
    if visits.len() == 0 {
        begun(root)
    } else {
        let before = walk(root, visits.drop_last()).taken();
        match visits.last() {
            Visit::Read(entries) => before.with_entries(entries),
            Visit::Failed(folder, error) => before.with_failure(folder, error),
        }
    }
}

/// Whether there was a folder to visit each time.
pub open spec fn is_walk(root: usize, visits: Seq<Visit>) -> bool
    decreases visits.len(),
{
    visits.len() > 0 ==> is_walk(root, visits.drop_last()) && walk(
        root,
        visits.drop_last(),
    ).next() is Some
}

/// The folders that were visited, in order.
pub open spec fn folders_visited(root: usize, visits: Seq<Visit>) -> Seq<usize>
    decreases visits.len(),
{
    if visits.len() == 0 {
        Seq::empty()
    } else {
        folders_visited(root, visits.drop_last()).push(walk(root, visits.drop_last()).next()->0)
    }
}

proof fn lemma_entries_found(scan: ScanView, entries: Seq<(usize, EntryKind)>)
    ensures
        scan.limited ==> scan.with_entries(entries).limited,
        scan.with_entries(entries).notes == scan.notes,
        scan.with_entries(entries).resources.is_prefix_of(scan.resources + files_among(entries)),
        scan.with_entries(entries).resources.len() < MAX_RESTART_MANAGER_RESOURCES || !scan.with_entries(
            entries,
        ).limited ==> scan.with_entries(entries).resources == scan.resources + files_among(entries),
        !scan.with_entries(entries).limited ==> scan.with_entries(entries).queue == scan.queue
            + folders_among(entries),
    decreases entries.len(),
{
    if entries.len() == 0 {
        assert(scan.resources + files_among(entries) =~= scan.resources);
        assert(scan.queue + folders_among(entries) =~= scan.queue);
    } else {
        let front = entries.drop_last();
        let before = scan.with_entries(front);
        let after = scan.with_entries(entries);
        lemma_entries_found(scan, front);
        if entries.last().1 is File {
            assert(scan.resources + files_among(entries) =~= (scan.resources + files_among(
                front,
            )).push(entries.last().0));
        }
        if entries.last().1 is Folder {
            assert(scan.queue + folders_among(entries) =~= (scan.queue + folders_among(
                front,
            )).push(entries.last().0));
        }
        if before.resources.len() < MAX_RESTART_MANAGER_RESOURCES {
            assert(after.resources =~= scan.resources + files_among(entries));
        } else {
            assert(after.resources == before.resources);
            assert forall|i: int| 0 <= i < after.resources.len() implies after.resources[i] == (
            scan.resources + files_among(entries))[i] by {
                assert(before.resources[i] == (scan.resources + files_among(front))[i]);
            }
        }
    }
}

proof fn lemma_walk(root: usize, visits: Seq<Visit>)
    requires
        is_walk(root, visits),
    ensures
        walk(root, visits).notes == failures_found(visits),
        walk(root, visits).resources.is_prefix_of(seq![root] + files_found(visits)),
        walk(root, visits).resources.len() < MAX_RESTART_MANAGER_RESOURCES || !walk(
            root,
            visits,
        ).limited ==> walk(root, visits).resources == seq![root] + files_found(visits),
        !walk(root, visits).limited ==> folders_visited(root, visits) + walk(root, visits).queue
            == seq![root] + folders_found(visits),
    decreases visits.len(),
{
    if visits.len() == 0 {
        assert(seq![root] + files_found(visits) =~= seq![root]);
        assert(folders_visited(root, visits) + seq![root] =~= seq![root] + folders_found(visits));
    } else {
        let front = visits.drop_last();
        let before = walk(root, front);
        lemma_walk(root, front);
        let visited = folders_visited(root, front);
        assert(visited.push(before.queue[0]) + before.queue.skip(1) =~= visited + before.queue);
        match visits.last() {
            Visit::Read(entries) => {
                lemma_entries_found(before.taken(), entries);
                assert((seq![root] + files_found(front)) + files_among(entries) =~= seq![root] + (
                files_found(front) + files_among(entries)));
                assert((seq![root] + folders_found(front)) + folders_among(entries) =~= seq![root]
                    + (folders_found(front) + folders_among(entries)));
                assert(visited.push(before.queue[0]) + (before.queue.skip(1) + folders_among(
                    entries,
                )) =~= (visited.push(before.queue[0]) + before.queue.skip(1)) + folders_among(
                    entries,
                ));
            },
            Visit::Failed(_, _) => {},
        }
    }
}

/// A walk that ends without feeling the limit has visited the root and every folder
/// that it found, each once and in the order in which they were found. It holds the
/// root and every file of the folders that could be read, and one note for each
/// folder that could not.
pub proof fn unlimited_walks_find_everything(root: usize, visits: Seq<Visit>)
    requires
        is_walk(root, visits),
        walk(root, visits).next() is None,
        !walk(root, visits).taken().limited,
    ensures
        folders_visited(root, visits) == seq![root] + folders_found(visits),
        walk(root, visits).taken().resources == seq![root] + files_found(visits),
        walk(root, visits).taken().notes == failures_found(visits),
        walk(root, visits).taken().queue.len() == 0,
{
    lemma_walk(root, visits);
    assert(walk(root, visits).queue.len() == 0);
    assert(folders_visited(root, visits) + walk(root, visits).queue =~= folders_visited(
        root,
        visits,
    ));
}

/// A walk that feels the limit holds the first files that it found, as many as the
/// limit allows, and still one note for each folder that could not be read.
pub proof fn limited_walks_keep_the_first_files(root: usize, visits: Seq<Visit>)
    requires
        is_walk(root, visits),
        walk(root, visits).taken().limited,
    ensures
        walk(root, visits).taken().resources == (seq![root] + files_found(visits)).take(
            MAX_RESTART_MANAGER_RESOURCES as int,
        ),
        walk(root, visits).taken().notes == failures_found(visits),
{
    lemma_walk(root, visits);
    lemma_walk_is_well_formed(root, visits);
    let found = walk(root, visits).resources;
    assert(found =~= (seq![root] + files_found(visits)).take(found.len() as int));
}

proof fn lemma_walk_is_well_formed(root: usize, visits: Seq<Visit>)
    ensures
        walk(root, visits).well_formed(),
        walk(root, visits).taken().well_formed(),
    decreases visits.len(),
{
    if visits.len() > 0 {
        lemma_walk_is_well_formed(root, visits.drop_last());
        match visits.last() {
            Visit::Read(entries) => {
                lemma_entries_keep_the_limit(walk(root, visits.drop_last()).taken(), entries);
            },
            Visit::Failed(_, _) => {},
        }
    }
}

proof fn lemma_entries_keep_the_limit(scan: ScanView, entries: Seq<(usize, EntryKind)>)
    requires
        scan.well_formed(),
    ensures
        scan.with_entries(entries).well_formed(),
    decreases entries.len(),
{
    if entries.len() > 0 {
        lemma_entries_keep_the_limit(scan, entries.drop_last());
    }
}

} // verus!
