//! A drive is ejected only when everything that holds it was closed, and the drive
//! is the one that was asked for.

use crate::text::{
    decimal, join, lemma_decimal_digits, lemma_split_join, lines, parse_undoes_decimal, trim,
    trim_end, trim_start,
};
use crate::usb::actions::{
    first_actions, four_fields, index_of_pid, lemma_index_bounds, locking_actions, merged_actions,
    reported_action, reported_actions, with_action, LockingProcess,
};
use crate::usb::codec::field_or;
use crate::usb::drives::{ejectable_drives, helper_drive, DriveFacts};
use crate::commands::last_line;
use crate::usb::eject::{
    begun, elevated_outcome, helper_report_text, paths_are_writable, report_reaches_the_caller,
    run_summary, EjectStage, EventView, RunView,
};
use crate::usb::locks::{
    call_result, lock_progress, registrations_cover_all, registrations_from, LockErrorView,
    LockOutcome, LockStep, ProgressView,
};
use crate::usb::resources::{walk, EntryKind, ScanView, Visit};
use crate::usb::{ActionView, DriveKind, DriveView, EjectMethod, SummaryView};
use crate::wide::{before_zero, utf16, utf16_text};
use vstd::prelude::*;
use vstd::string::*;

verus! {

/// The letter of a drive and a colon: `A:` for the first, `B:` for the second.
pub open spec fn drive_letter(i: int) -> Seq<char> {
    seq![(65 + i) as u8 as char, ':']
}

/// Whether the system has a drive under a letter, and calls it removable.
pub open spec fn is_removable_drive(mask: u32, facts: Seq<DriveFacts>, i: int) -> bool {
    (mask >> (i as u32)) & 1u32 == 1u32 && facts[i].drive_type == 2u32
}

/// Whether `drive` is the drive under a letter, with the label and the sizes that
/// the system gives.
pub open spec fn is_drive_at(drive: DriveView, facts: Seq<DriveFacts>, i: int) -> bool {
    &&& drive.letter == drive_letter(i)
    &&& drive.root == drive_letter(i) + seq!['\\']
    &&& drive.drive_type == DriveKind::Removable
    &&& facts[i].label is None ==> drive.label.len() == 0
    &&& facts[i].label is Some ==> drive.label == utf16_text(before_zero(facts[i].label->0@))
    &&& match facts[i].space {
        None => drive.total_bytes is None && drive.free_bytes is None,
        Some((total, free)) => drive.total_bytes == Some(total) && drive.free_bytes == Some(free),
    }
}

/// Whether `drive` is one of the removable drives under the first letters.
pub open spec fn is_one_of(drive: DriveView, mask: u32, facts: Seq<DriveFacts>, count: int) -> bool {
    exists|i: int|
        0 <= i < count && #[trigger] is_removable_drive(mask, facts, i) && is_drive_at(
            drive,
            facts,
            i,
        )
}

/// Whether the drive under a letter is in a list.
pub open spec fn is_among(drives: Seq<DriveView>, facts: Seq<DriveFacts>, i: int) -> bool {
    exists|k: int| 0 <= k < drives.len() && is_drive_at(#[trigger] drives[k], facts, i)
}

proof fn lemma_listed(mask: u32, facts: Seq<DriveFacts>, count: int, i: int)
    requires
        0 <= i < count <= 26,
        facts.len() == 26,
        is_removable_drive(mask, facts, i),
    ensures
        is_among(ejectable_drives(mask, facts, count), facts, i),
    decreases count,
{
    let front = ejectable_drives(mask, facts, count - 1);
    let all = ejectable_drives(mask, facts, count);
    let last = count - 1;
    if i < last {
        lemma_listed(mask, facts, last, i);
        let k = choose|k: int| 0 <= k < front.len() && is_drive_at(#[trigger] front[k], facts, i);
        assert(all[k] == front[k]);
        assert(is_drive_at(all[k], facts, i));
    } else {
        let drive = all[front.len() as int];
        assert(drive.root =~= drive_letter(last) + seq!['\\']);
        assert(is_drive_at(drive, facts, i));
    }
}

proof fn lemma_listed_only(mask: u32, facts: Seq<DriveFacts>, count: int, k: int)
    requires
        0 <= count <= 26,
        facts.len() == 26,
        0 <= k < ejectable_drives(mask, facts, count).len(),
    ensures
        is_one_of(ejectable_drives(mask, facts, count)[k], mask, facts, count),
    decreases count,
{
    let front = ejectable_drives(mask, facts, count - 1);
    let all = ejectable_drives(mask, facts, count);
    let last = count - 1;
    if k < front.len() {
        lemma_listed_only(mask, facts, last, k);
        assert(all[k] == front[k]);
        let i = choose|i: int|
            0 <= i < last && #[trigger] is_removable_drive(mask, facts, i) && is_drive_at(
                front[k],
                facts,
                i,
            );
        assert(is_removable_drive(mask, facts, i));
    } else {
        assert(is_removable_drive(mask, facts, last));
        assert(all[k].root =~= drive_letter(last) + seq!['\\']);
        assert(is_drive_at(all[k], facts, last));
    }
}

/// Every removable drive that the system has is listed under its letter, with its
/// label and sizes, whichever of the twenty-six letters it has.
pub proof fn every_removable_drive_is_listed(mask: u32, facts: Seq<DriveFacts>, i: int)
    requires
        facts.len() == 26,
        0 <= i < 26,
        (mask >> (i as u32)) & 1u32 == 1u32,
        facts[i].drive_type == 2u32,
    ensures
        is_among(ejectable_drives(mask, facts, 26), facts, i),
{
    lemma_listed(mask, facts, 26, i);
}

/// Nothing is listed but removable drives that the system has.
pub proof fn only_removable_drives_are_listed(mask: u32, facts: Seq<DriveFacts>, k: int)
    requires
        facts.len() == 26,
        0 <= k < ejectable_drives(mask, facts, 26).len(),
    ensures
        is_one_of(ejectable_drives(mask, facts, 26)[k], mask, facts, 26),
{
    lemma_listed_only(mask, facts, 26, k);
}

/// A run after a number of events.
pub open spec fn run_through(run: RunView, events: Seq<EventView>) -> RunView
    decreases events.len(),
{
    if events.len() == 0 {
        run
    } else {
        run_through(run, events.drop_last()).after(events.last())
    }
}

/// Whether a process in a list is said not to have been closed.
pub open spec fn failed_at(actions: Seq<ActionView>, i: int) -> bool {
    0 <= i < actions.len() && actions[i].action.len() >= 6 && actions[i].action.take(6)
        =~= seq!['f', 'a', 'i', 'l', 'e', 'd']
}

/// Whether a process in a list is said to hold the drive still.
pub open spec fn remains_at(actions: Seq<ActionView>, i: int) -> bool {
    0 <= i < actions.len() && actions[i].action == "still locking after cleanup"@
}

/// What holds of every run, stated without reference to how it is decided.
pub open spec fn is_safe(run: RunView) -> bool {
    (run.stage == EjectStage::RequestEject || run.ejected) ==> {
        &&& !run.admin_required
        &&& !run.lock_check_failed
        &&& forall|i: int| !#[trigger] failed_at(run.process_scan_actions, i)
        &&& forall|i: int| !#[trigger] remains_at(run.restart_manager_processes, i)
    }
}

/// Whether the stages of a run from the cleanup on know what the cleanup said.
spec fn knows_failures(run: RunView) -> bool {
    (run.stage == EjectStage::InspectLocks || run.stage == EjectStage::RequestEject || run.stage
        == EjectStage::Finished || run.ejected) && (exists|i: int| #[trigger]
        failed_at(run.process_scan_actions, i)) ==> run.process_cleanup_failed
}

proof fn lemma_failed_word()
    ensures
        "failed"@ =~= seq!['f', 'a', 'i', 'l', 'e', 'd'],
{
    reveal_strlit("failed");
}

proof fn lemma_failed_prefix(actions: Seq<ActionView>, i: int)
    requires
        0 <= i < actions.len(),
    ensures
        failed_at(actions, i) <==> "failed"@.is_prefix_of(actions[i].action),
{
    lemma_failed_word();
    let word = seq!['f', 'a', 'i', 'l', 'e', 'd'];
    let action = actions[i].action;
    assert(word.len() == 6);
    if action.len() >= 6 {
        assert(action.take(6) == action.subrange(0, 6));
    }
}

proof fn lemma_step_is_safe(run: RunView, event: EventView)
    requires
        run.eject_method == EjectMethod::NotEjected || run.ejected,
        is_safe(run),
        knows_failures(run),
        run.ejected ==> run.stage == EjectStage::Finished,
    ensures
        is_safe(run.after(event)),
        knows_failures(run.after(event)),
        run.after(event).ejected ==> run.after(event).stage == EjectStage::Finished,
{
    let next = run.after(event);
    assert forall|i: int| #[trigger] failed_at(next.process_scan_actions, i) implies
        crate::usb::eject::has_failed_action(next.process_scan_actions) by {
        lemma_failed_prefix(next.process_scan_actions, i);
    }
    assert forall|i: int| #[trigger] remains_at(next.restart_manager_processes, i) implies
        crate::usb::eject::has_remaining_lock(next.restart_manager_processes) by {
        assert(next.restart_manager_processes[i].action == "still locking after cleanup"@);
    }
    if run.stage == EjectStage::InspectLocks && event is LocksInspected {
        assert(next.process_scan_actions == run.process_scan_actions);
        assert(next.process_cleanup_failed == run.process_cleanup_failed);
    }
}

/// In every run, whatever comes of its steps, the drive is not asked to eject and
/// not reported as ejected while a process is said not to have been closed, while
/// one is said to lock the drive still, while rights are missing, or while the
/// remaining locks are not known.
pub proof fn nothing_unclosed_is_ejected(
    drive: DriveView,
    root: Seq<char>,
    allow_elevation: bool,
    events: Seq<EventView>,
)
    ensures
        is_safe(run_through(begun(drive, root, allow_elevation), events)),
    decreases events.len(),
{
    lemma_runs_are_safe(drive, root, allow_elevation, events);
}

proof fn lemma_runs_are_safe(
    drive: DriveView,
    root: Seq<char>,
    allow_elevation: bool,
    events: Seq<EventView>,
)
    ensures
        ({
            let run = run_through(begun(drive, root, allow_elevation), events);
            &&& is_safe(run)
            &&& knows_failures(run)
            &&& run.ejected ==> run.stage == EjectStage::Finished
            &&& run.eject_method == EjectMethod::NotEjected || run.ejected
        }),
    decreases events.len(),
{
    if events.len() > 0 {
        lemma_runs_are_safe(drive, root, allow_elevation, events.drop_last());
        let run = run_through(begun(drive, root, allow_elevation), events.drop_last());
        lemma_step_is_safe(run, events.last());
    }
}

/// Where the cleanup says of any process, at any place of its output, that it was
/// not closed, the run is never asked to eject, whatever comes afterwards.
pub proof fn one_unclosed_process_stops_the_eject(
    run: RunView,
    output: Seq<char>,
    i: int,
    later: Seq<EventView>,
)
    requires
        run.stage == EjectStage::CloseProcesses,
        !run.ejected,
        failed_at(reported_actions(lines(output)), i),
    ensures
        ({
            let cleaned = run.after(EventView::ProcessesClosed(Ok(output)));
            &&& run_through(cleaned, later).stage != EjectStage::RequestEject
            &&& !run_through(cleaned, later).ejected
        }),
    decreases later.len(),
{
    lemma_unclosed_stays(run, output, i, later);
}

proof fn lemma_unclosed_stays(run: RunView, output: Seq<char>, i: int, later: Seq<EventView>)
    requires
        run.stage == EjectStage::CloseProcesses,
        !run.ejected,
        failed_at(reported_actions(lines(output)), i),
    ensures
        ({
            let end = run_through(run.after(EventView::ProcessesClosed(Ok(output))), later);
            is_stopped(end, reported_actions(lines(output)))
        }),
    decreases later.len(),
{
    let actions = reported_actions(lines(output));
    lemma_failed_prefix(actions, i);
    assert(crate::usb::eject::has_failed_action(actions));
    let cleaned = run.after(EventView::ProcessesClosed(Ok(output)));
    assert(is_stopped(cleaned, actions));
    if later.len() > 0 {
        lemma_unclosed_stays(run, output, i, later.drop_last());
        lemma_stopped_stays(run_through(cleaned, later.drop_last()), actions, later.last());
    }
}

/// Whether a run with these actions will not eject.
spec fn is_stopped(run: RunView, actions: Seq<ActionView>) -> bool {
    &&& !run.ejected
    &&& run.process_scan_actions == actions
    &&& run.stage == EjectStage::RelaunchExplorer || run.process_cleanup_failed
    &&& run.stage == EjectStage::RelaunchExplorer || run.stage == EjectStage::InspectLocks
        || run.stage == EjectStage::Finished || run.stage == EjectStage::Elevate
}

proof fn lemma_stopped_stays(run: RunView, actions: Seq<ActionView>, event: EventView)
    requires
        is_stopped(run, actions),
        crate::usb::eject::has_failed_action(actions),
    ensures
        is_stopped(run.after(event), actions),
{
}

/// Processes that still lock the drive at the last look stop the eject, and the run
/// ends without it.
pub proof fn remaining_locks_stop_the_eject(run: RunView, remaining: Seq<ActionView>)
    requires
        run.stage == EjectStage::InspectLocks,
        !run.ejected,
        remaining.len() > 0,
        forall|i: int| 0 <= i < remaining.len() ==> #[trigger] remains_at(remaining, i),
    ensures
        run.after(EventView::LocksInspected(Ok(remaining))).stage == EjectStage::Finished,
        !run.after(EventView::LocksInspected(Ok(remaining))).ejected,
{
    let merged = merged_actions(run.restart_manager_processes, remaining);
    let last = remaining.len() - 1;
    assert(remains_at(remaining, last));
    newer_actions_replace_older_ones(run.restart_manager_processes, remaining, last);
    let k = choose|k: int|
        0 <= k < merged.len() && (#[trigger] merged[k]).pid == remaining[last].pid
            && merged[k].action == remaining[last].action;
    assert(merged[k].action == "still locking after cleanup"@);
    assert(crate::usb::eject::has_remaining_lock(merged));
}

/// A last look that fails stops the eject.
pub proof fn failed_looks_stop_the_eject(run: RunView, error: LockErrorView)
    requires
        run.stage == EjectStage::InspectLocks,
        !run.ejected,
    ensures
        ({
            let next = run.after(EventView::LocksInspected(Err(error)));
            &&& !next.ejected
            &&& next.stage == if error is AccessDenied && run.allow_elevation {
                EjectStage::Elevate
            } else {
                EjectStage::Finished
            }
            &&& error is AccessDenied && !run.allow_elevation ==> next.admin_required
        }),
{
}

/// Where nothing stands against it, the drive is asked to eject, and an eject that
/// succeeds is reported as such.
pub proof fn free_drives_are_ejected(run: RunView, output: Seq<char>)
    requires
        run.well_formed(),
        run.stage == EjectStage::InspectLocks,
        !run.admin_required,
        forall|i: int| !#[trigger] failed_at(run.process_scan_actions, i),
        forall|i: int| !#[trigger] remains_at(run.restart_manager_processes, i),
    ensures
        ({
            let asked = run.after(EventView::LocksInspected(Ok(Seq::empty())));
            let done = asked.after(EventView::EjectRequested(Ok(output)));
            &&& asked.stage == EjectStage::RequestEject
            &&& done.stage == EjectStage::Finished
            &&& done.ejected
            &&& done.eject_method == EjectMethod::Shell
            &&& run_summary(done).ejected
            &&& run_summary(done).drive == run.drive
        }),
{
    if crate::usb::eject::has_failed_action(run.process_scan_actions) {
        let i = choose|i: int|
            0 <= i < run.process_scan_actions.len() && "failed"@.is_prefix_of(
                (#[trigger] run.process_scan_actions[i]).action,
            );
        lemma_failed_prefix(run.process_scan_actions, i);
        assert(failed_at(run.process_scan_actions, i));
    }
    if crate::usb::eject::has_remaining_lock(run.restart_manager_processes) {
        let i = choose|i: int|
            0 <= i < run.restart_manager_processes.len() && (
            #[trigger] run.restart_manager_processes[i]).action == "still locking after cleanup"@;
        assert(remains_at(run.restart_manager_processes, i));
    }
}

/// An eject that fails is not reported as one, and the reason is noted last.
pub proof fn failed_ejects_are_not_faked(run: RunView, error: Seq<char>)
    requires
        run.stage == EjectStage::RequestEject,
        !run.ejected,
    ensures
        ({
            let done = run.after(EventView::EjectRequested(Err(error)));
            &&& !done.ejected
            &&& done.eject_method == run.eject_method
            &&& done.stage == EjectStage::Finished
            &&& done.notes == run.notes.push(error)
        }),
{
}

/// Each step follows the one before it, and none is left out: a run goes on only by
/// what came of its own step, and only to the next one.
pub proof fn steps_follow_in_their_order(run: RunView, event: EventView)
    ensures
        ({
            let next = run.after(event).stage;
            match run.stage {
                EjectStage::ScanResources => if event is ResourcesScanned {
                    next == EjectStage::CloseLocks
                } else {
                    run.after(event) == run
                },
                EjectStage::CloseLocks => if event is LocksClosed {
                    next == EjectStage::CloseWindows || next == EjectStage::Elevate
                } else {
                    run.after(event) == run
                },
                EjectStage::CloseWindows => if event is WindowsClosed {
                    next == EjectStage::CloseProcesses
                } else {
                    run.after(event) == run
                },
                EjectStage::CloseProcesses => if event is ProcessesClosed {
                    next == EjectStage::RelaunchExplorer || next == EjectStage::InspectLocks
                } else {
                    run.after(event) == run
                },
                EjectStage::RelaunchExplorer => if event is ExplorerRelaunched {
                    next == EjectStage::InspectLocks
                } else {
                    run.after(event) == run
                },
                EjectStage::InspectLocks => if event is LocksInspected {
                    next == EjectStage::RequestEject || next == EjectStage::Finished || next
                        == EjectStage::Elevate
                } else {
                    run.after(event) == run
                },
                EjectStage::RequestEject => if event is EjectRequested {
                    next == EjectStage::Finished
                } else {
                    run.after(event) == run
                },
                EjectStage::Elevate => run.after(event) == run,
                EjectStage::Finished => run.after(event) == run,
            }
        }),
{
}

/// What the steps found is kept as it was found and ends up in the summary.
pub proof fn findings_reach_the_summary(
    run: RunView,
    count: usize,
    limited: bool,
    notes: Seq<Seq<char>>,
    locks: Seq<ActionView>,
    output: Seq<char>,
)
    ensures
        run.stage == EjectStage::ScanResources ==> ({
            let next = run.after(EventView::ResourcesScanned(count, limited, notes));
            next.resources_registered == count && next.resource_scan_limited == limited
                && next.notes == notes
        }),
        run.stage == EjectStage::CloseLocks ==> run.after(
            EventView::LocksClosed(Ok(locks)),
        ).restart_manager_processes == locks,
        run.stage == EjectStage::CloseProcesses ==> run.after(
            EventView::ProcessesClosed(Ok(output)),
        ).process_scan_actions == reported_actions(lines(output)),
        run_summary(run).drive == run.drive,
        run_summary(run).resources_registered == run.resources_registered,
        run_summary(run).resource_scan_limited == run.resource_scan_limited,
        run_summary(run).restart_manager_processes == run.restart_manager_processes,
        run_summary(run).process_scan_actions == run.process_scan_actions,
        run_summary(run).notes == run.notes,
        run_summary(run).ejected == run.ejected,
        run_summary(run).admin_required == run.admin_required,
        run_summary(run).eject_method == run.eject_method,
{
}

/// Explorer is started again exactly where the cleanup closed it.
pub proof fn closed_explorers_are_started_again(run: RunView, output: Seq<char>)
    requires
        run.stage == EjectStage::CloseProcesses,
    ensures
        run.after(EventView::ProcessesClosed(Ok(output))).stage == EjectStage::RelaunchExplorer
            <==> exists|i: int|
            0 <= i < reported_actions(lines(output)).len() && ({
                let action = #[trigger] reported_actions(lines(output))[i];
                &&& action.name.len() == 12
                &&& crate::text::lower(action.name) == "explorer.exe"@
                &&& action.action == "closed"@ || action.action == "terminated"@
            }),
{
    reveal_strlit("explorer.exe");
    assert(crate::text::lower("explorer.exe"@) =~= "explorer.exe"@);
    let actions = reported_actions(lines(output));
    assert forall|i: int| 0 <= i < actions.len() implies (crate::usb::eject::closed_explorer(
        #[trigger] actions[i],
    ) == (actions[i].name.len() == 12 && crate::text::lower(actions[i].name) == "explorer.exe"@ && (
    actions[i].action == "closed"@ || actions[i].action == "terminated"@))) by {
        assert(crate::text::lower(actions[i].name).len() == actions[i].name.len());
    }
}

/// Every line of a report is read: a report made of two parts gives the actions of
/// the first and then those of the second.
pub proof fn every_reported_line_is_read(first: Seq<Seq<char>>, second: Seq<Seq<char>>)
    ensures
        reported_actions(first + second) == reported_actions(first) + reported_actions(second),
    decreases second.len(),
{
    if second.len() == 0 {
        assert(first + second =~= first);
        assert(reported_actions(first) + reported_actions(second) =~= reported_actions(first));
    } else {
        every_reported_line_is_read(first, second.drop_last());
        assert((first + second).drop_last() =~= first + second.drop_last());
        assert((first + second).last() == second.last());
        match reported_action(second.last()) {
            Some(action) => {
                assert(reported_actions(first) + reported_actions(second.drop_last()).push(action)
                    =~= (reported_actions(first) + reported_actions(second.drop_last())).push(
                    action,
                ));
            },
            None => {},
        }
    }
}

/// Whether a text has no tabs and no white space at its ends.
pub open spec fn is_plain_field(field: Seq<char>) -> bool {
    !field.contains('\t') && trim(field) == field
}

proof fn lemma_digits_are_plain(n: nat)
    ensures
        is_plain_field(decimal(n)),
{
    lemma_decimal_digits(n);
    let s = decimal(n);
    assert(!crate::text::is_whitespace(s[0])) by {
        assert(crate::text::is_digit(s[0]));
    }
    assert(!crate::text::is_whitespace(s.last())) by {
        assert(crate::text::is_digit(s[s.len() - 1]));
    }
    assert(trim_start(s) == s);
    assert(trim_end(s) == s);
    assert forall|i: int| 0 <= i < s.len() implies s[i] != '\t' by {
        assert(crate::text::is_digit(s[i]));
    }
}

/// A line with the number, the name and the path of a process and what was done
/// about it is read as just that.
pub proof fn reported_lines_are_read_as_written(
    pid: u32,
    name: Seq<char>,
    path: Seq<char>,
    action: Seq<char>,
)
    requires
        is_plain_field(name),
        is_plain_field(path),
        is_plain_field(action),
    ensures
        ({
            let line = decimal(pid as nat) + seq!['\t'] + name + seq!['\t'] + path + seq!['\t']
                + action;
            reported_actions(seq![line]) == seq![
                ActionView {
                    pid,
                    name,
                    path: if path.len() > 0 {
                        Some(path)
                    } else {
                        None
                    },
                    action,
                },
            ]
        }),
{
    let fields = seq![decimal(pid as nat), name, path, action];
    let line = decimal(pid as nat) + seq!['\t'] + name + seq!['\t'] + path + seq!['\t'] + action;
    lemma_digits_are_plain(pid as nat);
    parse_undoes_decimal(pid as nat, u32::MAX as nat);
    let tab = seq!['\t'];
    assert(fields.drop_last() =~= seq![decimal(pid as nat), name, path]);
    assert(fields.drop_last().drop_last() =~= seq![decimal(pid as nat), name]);
    assert(fields.drop_last().drop_last().drop_last() =~= seq![decimal(pid as nat)]);
    assert(join(seq![decimal(pid as nat)], tab) == decimal(pid as nat));
    assert(join(seq![decimal(pid as nat), name], tab) == decimal(pid as nat) + tab + name);
    assert(join(seq![decimal(pid as nat), name, path], tab) == decimal(pid as nat) + tab + name + tab
        + path);
    assert(join(fields, tab) == line);
    assert forall|i: int| 0 <= i < fields.len() implies !(#[trigger] fields[i]).contains('\t') by {
        assert(i == 0 || i == 1 || i == 2 || i == 3);
    }
    lemma_split_join(fields, '\t');
    assert(four_fields(line) == fields);
    assert(field_or(fields, 1, Seq::empty()) == name);
    assert(field_or(fields, 2, Seq::empty()) == path);
    assert(field_or(fields, 3, Seq::empty()) == action);
    assert(seq![line].drop_last() =~= Seq::<Seq<char>>::empty());
    assert(reported_actions(seq![line].drop_last()) =~= Seq::empty());
    assert(reported_actions(seq![line]) =~= seq![reported_action(line)->0]);
}

/// After bringing a list up to date, the newest action of each process is the one
/// that stands.
pub proof fn newer_actions_replace_older_ones(
    actions: Seq<ActionView>,
    newer: Seq<ActionView>,
    i: int,
)
    requires
        0 <= i < newer.len(),
        forall|j: int| i < j < newer.len() ==> (#[trigger] newer[j]).pid != newer[i].pid,
    ensures
        exists|k: int|
            0 <= k < merged_actions(actions, newer).len() && (#[trigger] merged_actions(
                actions,
                newer,
            )[k]).pid == newer[i].pid && merged_actions(actions, newer)[k].action
                == newer[i].action,
    decreases newer.len(),
{
    let front = newer.drop_last();
    let before = merged_actions(actions, front);
    let after = merged_actions(actions, newer);
    let last = newer.last();
    let at = index_of_pid(before, last.pid);
    lemma_index_bounds(before, last.pid);
    assert(after == with_action(before, last));
    if i == newer.len() - 1 {
        if at < before.len() {
            assert(after[at].pid == last.pid && after[at].action == last.action);
        } else {
            assert(after[before.len() as int] == last);
        }
    } else {
        assert(front[i] == newer[i]);
        assert forall|j: int| i < j < front.len() implies (#[trigger] front[j]).pid
            != front[i].pid by {
            assert(front[j] == newer[j]);
        }
        newer_actions_replace_older_ones(actions, front, i);
        let k = choose|k: int|
            0 <= k < before.len() && (#[trigger] before[k]).pid == newer[i].pid
                && before[k].action == newer[i].action;
        assert(newer[newer.len() - 1].pid != newer[i].pid);
        assert(k != at);
        assert(after[k] == before[k]);
    }
}

/// Processes of which nothing newer is known stay as they were.
pub proof fn other_actions_stay_as_they_were(
    actions: Seq<ActionView>,
    newer: Seq<ActionView>,
    k: int,
)
    requires
        0 <= k < actions.len(),
        forall|j: int| 0 <= j < newer.len() ==> (#[trigger] newer[j]).pid != actions[k].pid,
    ensures
        k < merged_actions(actions, newer).len(),
        merged_actions(actions, newer)[k] == actions[k],
    decreases newer.len(),
{
    if newer.len() > 0 {
        let front = newer.drop_last();
        assert forall|j: int| 0 <= j < front.len() implies (#[trigger] front[j]).pid
            != actions[k].pid by {
            assert(front[j] == newer[j]);
        }
        other_actions_stay_as_they_were(actions, front, k);
        let before = merged_actions(actions, front);
        lemma_index_bounds(before, newer.last().pid);
        assert(newer[newer.len() - 1].pid != actions[k].pid);
    }
}

/// Of several actions of one process the first is kept, and no process is lost.
pub proof fn the_first_action_of_each_process_is_kept(actions: Seq<ActionView>, i: int)
    requires
        0 <= i < actions.len(),
        forall|j: int| 0 <= j < i ==> (#[trigger] actions[j]).pid != actions[i].pid,
    ensures
        first_actions(actions).contains(actions[i]),
    decreases actions.len(),
{
    let front = actions.drop_last();
    let kept = first_actions(front);
    if i < front.len() {
        assert(front[i] == actions[i]);
        assert forall|j: int| 0 <= j < i implies (#[trigger] front[j]).pid != front[i].pid by {
            assert(front[j] == actions[j]);
        }
        the_first_action_of_each_process_is_kept(front, i);
        let k = choose|k: int| 0 <= k < kept.len() && kept[k] == actions[i];
        assert(first_actions(actions)[k] == actions[i]);
    } else {
        lemma_kept_are_from(front);
        lemma_index_bounds(kept, actions[i].pid);
        if index_of_pid(kept, actions[i].pid) < kept.len() {
            let k = index_of_pid(kept, actions[i].pid);
            assert(front.contains(kept[k]));
            let j = choose|j: int| 0 <= j < front.len() && front[j] == kept[k];
            assert(actions[j].pid != actions[i].pid);
        }
        assert(first_actions(actions)[kept.len() as int] == actions[i]);
    }
}

proof fn lemma_kept_are_from(actions: Seq<ActionView>)
    ensures
        forall|k: int|
            0 <= k < first_actions(actions).len() ==> actions.contains(
                #[trigger] first_actions(actions)[k],
            ),
    decreases actions.len(),
{
    if actions.len() > 0 {
        let front = actions.drop_last();
        lemma_kept_are_from(front);
        let kept = first_actions(actions);
        assert forall|k: int| 0 <= k < kept.len() implies actions.contains(#[trigger] kept[k]) by {
            if k < first_actions(front).len() {
                assert(kept[k] == first_actions(front)[k]);
                assert(front.contains(kept[k]));
                let j = choose|j: int| 0 <= j < front.len() && front[j] == kept[k];
                assert(actions[j] == kept[k]);
            } else {
                assert(kept[k] == actions[actions.len() - 1]);
            }
        }
    }
}

/// Every process that the Restart Manager lists is listed here, in its order, under
/// its number and its name.
pub proof fn every_locking_process_is_listed(
    processes: Seq<LockingProcess>,
    action: Seq<char>,
    i: int,
)
    requires
        0 <= i < processes.len(),
    ensures
        locking_actions(processes, action).len() == processes.len(),
        locking_actions(processes, action)[i].pid == processes[i].pid,
        locking_actions(processes, action)[i].name == utf16_text(
            before_zero(processes[i].app_name@),
        ),
        locking_actions(processes, action)[i].path is None,
        locking_actions(processes, action)[i].action == action,
{
}

/// A session asks the processes that were listed to close, looks again, forces those
/// that remain, and looks a last time; a call that fails ends it with its error.
pub proof fn locks_are_closed_step_by_step(
    step: LockStep,
    actions: Seq<ActionView>,
    outcome: LockOutcome,
)
    ensures
        match (step, outcome) {
            (LockStep::Start, LockOutcome::Called(Ok(_))) => lock_progress(step, actions, outcome)
                == ProgressView::Continue(LockStep::Register, actions),
            (LockStep::Register, LockOutcome::Called(Ok(_))) => lock_progress(
                step,
                actions,
                outcome,
            ) == ProgressView::Continue(LockStep::ListFirst, actions),
            (LockStep::ShutDown, LockOutcome::Called(Ok(_))) => lock_progress(
                step,
                actions,
                outcome,
            ) == ProgressView::Continue(LockStep::ListAgain, actions),
            (LockStep::ForceShutDown, LockOutcome::Called(Ok(_))) => lock_progress(
                step,
                actions,
                outcome,
            ) == ProgressView::Continue(LockStep::ListLast, actions),
            (
                LockStep::Start | LockStep::Register | LockStep::ShutDown | LockStep::ForceShutDown,
                LockOutcome::Called(Err(error)),
            ) => lock_progress(step, actions, outcome) == ProgressView::Finished(
                Err(LockErrorView::Other(error@)),
            ),
            (
                LockStep::ListFirst | LockStep::ListAgain | LockStep::ListLast,
                LockOutcome::Listed(Err(error)),
            ) => lock_progress(step, actions, outcome) == ProgressView::Finished(Err(error@)),
            (LockStep::ListFirst, LockOutcome::Listed(Ok(processes))) => if processes@.len() == 0 {
                lock_progress(step, actions, outcome) is Finished
            } else {
                &&& lock_progress(step, actions, outcome) is Continue
                &&& lock_progress(step, actions, outcome)->Continue_0 == LockStep::ShutDown
                &&& lock_progress(step, actions, outcome)->Continue_1.len() == processes@.len()
                &&& forall|i: int|
                    0 <= i < processes@.len() ==> (#[trigger] lock_progress(
                        step,
                        actions,
                        outcome,
                    )->Continue_1[i]).pid == processes@[i].pid
            },
            (LockStep::ListAgain, LockOutcome::Listed(Ok(processes))) => lock_progress(
                step,
                actions,
                outcome,
            ) == ProgressView::Continue(
                if processes@.len() == 0 {
                    LockStep::ListLast
                } else {
                    LockStep::ForceShutDown
                },
                actions,
            ),
            (LockStep::ListLast, LockOutcome::Listed(Ok(processes))) => {
                &&& lock_progress(step, actions, outcome) is Finished
                &&& lock_progress(step, actions, outcome)->Finished_0 is Ok
                &&& lock_progress(step, actions, outcome)->Finished_0->Ok_0.len() == actions.len()
                &&& forall|i: int|
                    #![trigger lock_progress(step, actions, outcome)->Finished_0->Ok_0[i]]
                    0 <= i < actions.len() ==> {
                        let marked = lock_progress(step, actions, outcome)->Finished_0->Ok_0[i];
                        &&& marked.pid == actions[i].pid
                        &&& marked.name == actions[i].name
                        &&& marked.path == actions[i].path
                        &&& (exists|j: int|
                            0 <= j < processes@.len() && (#[trigger] processes@[j]).pid
                                == actions[i].pid) ==> marked.action
                            == "still locking after Restart Manager shutdown"@
                        &&& !(exists|j: int|
                            0 <= j < processes@.len() && (#[trigger] processes@[j]).pid
                                == actions[i].pid) ==> marked.action == "closed by Restart Manager"@
                    }
            },
            _ => lock_progress(step, actions, outcome) == ProgressView::Continue(step, actions),
        },
{
}

/// A call of the Restart Manager succeeded exactly where its code is zero; any other
/// code is told.
pub proof fn failed_calls_are_told(name: Seq<char>, code: u32)
    ensures
        call_result(name, 0) is Ok,
        code != 0 ==> call_result(name, code) == Err::<(), Seq<char>>(
            name + " failed: "@ + decimal(code as nat),
        ),
{
}

/// The files of a drive are handed over in parts that together hold every one of
/// them, in its order and with a zero at its end.
pub proof fn every_file_is_registered(paths: Seq<String>, i: int)
    requires
        0 <= i < paths.len(),
    ensures
        registrations_from(paths, 0).flatten().len() == paths.len(),
        registrations_from(paths, 0).flatten()[i] == utf16(paths[i]@).push(0),
{
    registrations_cover_all(paths, 0);
    assert(paths.skip(0) =~= paths);
}

/// At most 4096 files are handed over.
pub proof fn walks_keep_to_their_limit(root: usize, visits: Seq<Visit>)
    ensures
        0 < walk(root, visits).resources.len() <= 4096,
        walk(root, visits).limited ==> walk(root, visits).resources.len() == 4096,
    decreases visits.len(),
{
    if visits.len() > 0 {
        walks_keep_to_their_limit(root, visits.drop_last());
        match visits.last() {
            Visit::Read(entries) => {
                lemma_entries_keep_to_the_limit(walk(root, visits.drop_last()).taken(), entries);
            },
            Visit::Failed(_, _) => {},
        }
    }
}

proof fn lemma_entries_keep_to_the_limit(scan: ScanView, entries: Seq<(usize, EntryKind)>)
    requires
        0 < scan.resources.len() <= 4096,
        scan.limited ==> scan.resources.len() == 4096,
    ensures
        0 < scan.with_entries(entries).resources.len() <= 4096,
        scan.with_entries(entries).limited ==> scan.with_entries(entries).resources.len() == 4096,
    decreases entries.len(),
{
    if entries.len() > 0 {
        lemma_entries_keep_to_the_limit(scan, entries.drop_last());
    }
}

/// The helper works on the drive that it is handed.
pub proof fn the_helper_works_on_its_drive(root: Seq<char>)
    requires
        root.len() > 0,
        'A' <= root[0] <= 'Z',
    ensures
        helper_drive(root).root == seq![root[0], ':', '\\'],
        helper_drive(root).letter == seq![root[0], ':'],
        helper_drive(root).drive_type == DriveKind::Removable,
{
}

/// A run begins with nothing done, for the drive that was chosen.
pub proof fn runs_begin_with_nothing_done(drive: DriveView, root: Seq<char>, allow: bool)
    ensures
        begun(drive, root, allow).drive == drive,
        begun(drive, root, allow).root == root,
        begun(drive, root, allow).allow_elevation == allow,
        begun(drive, root, allow).stage == EjectStage::ScanResources,
        !begun(drive, root, allow).ejected,
        !begun(drive, root, allow).admin_required,
        begun(drive, root, allow).process_scan_actions.len() == 0,
        begun(drive, root, allow).restart_manager_processes.len() == 0,
        begun(drive, root, allow).notes.len() == 0,
{
}

/// A run that is denied a look at the locks calls for a helper where there is one,
/// and otherwise notes that rights are missing and never ejects.
pub proof fn denied_looks_call_for_rights(run: RunView, error: Seq<char>)
    requires
        run.stage == EjectStage::CloseLocks,
    ensures
        ({
            let next = run.after(EventView::LocksClosed(Err(LockErrorView::AccessDenied(error))));
            &&& run.allow_elevation ==> next.stage == EjectStage::Elevate
            &&& !run.allow_elevation ==> next.admin_required && next.stage
                == EjectStage::CloseWindows && next.notes.len() == run.notes.len() + 2
                && next.notes[run.notes.len() as int] == error
        }),
        ({
            let next = run.after(EventView::LocksClosed(Err(LockErrorView::Other(error))));
            &&& next.stage == EjectStage::CloseWindows
            &&& next.notes == run.notes.push("Restart Manager could not close locks: "@ + error)
        }),
{
}

/// Closing the windows and the processes is noted: how many windows were closed, what
/// failed, and what the drive said last.
pub proof fn the_cleanup_is_noted(run: RunView, output: Seq<char>, error: Seq<char>)
    ensures
        run.stage == EjectStage::CloseWindows ==> ({
            let count = reported_actions(lines(output)).len();
            let notes = run.after(EventView::WindowsClosed(Ok(output))).notes;
            &&& count == 0 ==> notes == run.notes
            &&& count > 0 ==> notes == run.notes.push(
                "Closed "@ + decimal(count) + " Explorer window(s) open on the selected drive."@,
            )
            &&& run.after(EventView::WindowsClosed(Err(error))).notes == run.notes.push(
                "Explorer window cleanup failed: "@ + error,
            )
        }),
        run.stage == EjectStage::CloseProcesses ==> ({
            let next = run.after(EventView::ProcessesClosed(Err(error)));
            &&& next.stage == EjectStage::InspectLocks
            &&& next.process_scan_actions.len() == 0
            &&& next.notes.len() > run.notes.len()
            &&& next.notes[run.notes.len() as int] == "Process scan failed: "@ + error
        }),
        run.stage == EjectStage::RelaunchExplorer ==> ({
            let next = run.after(EventView::ExplorerRelaunched(Err(error)));
            &&& next.notes.len() > run.notes.len()
            &&& next.notes[run.notes.len() as int] == "Explorer relaunch failed: "@ + error
        }),
        run.stage == EjectStage::RequestEject ==> ({
            let next = run.after(EventView::EjectRequested(Ok(output)));
            &&& next.notes.len() == run.notes.len() + 1
            &&& last_line(lines(output)) is Some ==> next.notes.last() == last_line(
                lines(output),
            )->0
        }),
{
}

/// The report of the helper comes back to the caller as the helper gave it: what was
/// closed, what was noted and whether the drive was ejected.
pub proof fn the_helper_is_believed(summary: SummaryView, drive: DriveView)
    requires
        paths_are_writable(summary.restart_manager_processes),
        paths_are_writable(summary.process_scan_actions),
    ensures
        ({
            let told = elevated_outcome(helper_report_text(Ok(summary)), drive);
            &&& told is Ok
            &&& told->Ok_0.drive == drive
            &&& told->Ok_0.ejected == summary.ejected
            &&& told->Ok_0.admin_required == summary.admin_required
            &&& told->Ok_0.eject_method == summary.eject_method
            &&& told->Ok_0.resources_registered == summary.resources_registered
            &&& told->Ok_0.resource_scan_limited == summary.resource_scan_limited
            &&& told->Ok_0.restart_manager_processes == summary.restart_manager_processes
            &&& told->Ok_0.process_scan_actions == summary.process_scan_actions
            &&& told->Ok_0.notes.len() == summary.notes.len() + 1
            &&& told->Ok_0.notes.skip(1) =~= summary.notes
        }),
{
    report_reaches_the_caller(Ok(summary), drive);
}

/// What is newly known of a process goes to the process of that number: its action is
/// the newer one, and its name and path are the newer ones where there were none. A
/// process that was not known comes last, as it is.
pub proof fn news_go_to_their_process(actions: Seq<ActionView>, newer: ActionView, k: int)
    requires
        0 <= k <= actions.len(),
        forall|j: int| 0 <= j < k ==> (#[trigger] actions[j]).pid != newer.pid,
        k < actions.len() ==> actions[k].pid == newer.pid,
    ensures
        ({
            let merged = merged_actions(actions, seq![newer]);
            if k < actions.len() {
                &&& merged.len() == actions.len()
                &&& merged[k].pid == newer.pid
                &&& merged[k].action == newer.action
                &&& actions[k].name.len() > 0 ==> merged[k].name == actions[k].name
                &&& actions[k].name.len() == 0 ==> merged[k].name == newer.name
                &&& actions[k].path is Some ==> merged[k].path == actions[k].path
                &&& actions[k].path is None ==> merged[k].path == newer.path
                &&& forall|j: int|
                    0 <= j < actions.len() && j != k ==> #[trigger] merged[j] == actions[j]
            } else {
                merged == actions.push(newer)
            }
        }),
{
    let one = seq![newer];
    assert(one.drop_last() =~= Seq::<ActionView>::empty());
    assert(merged_actions(actions, one.drop_last()) == actions);
    assert(merged_actions(actions, one) == with_action(actions, newer));
    lemma_first_of_pid(actions, newer.pid, k);
}

proof fn lemma_first_of_pid(actions: Seq<ActionView>, pid: u32, k: int)
    requires
        0 <= k <= actions.len(),
        forall|j: int| 0 <= j < k ==> (#[trigger] actions[j]).pid != pid,
        k < actions.len() ==> actions[k].pid == pid,
    ensures
        index_of_pid(actions, pid) == k,
    decreases k,
{
    if k > 0 {
        let rest = actions.skip(1);
        assert(actions[0].pid != pid);
        assert forall|j: int| 0 <= j < k - 1 implies (#[trigger] rest[j]).pid != pid by {
            assert(rest[j] == actions[j + 1]);
        }
        lemma_first_of_pid(rest, pid, k - 1);
    }
}

} // verus!
