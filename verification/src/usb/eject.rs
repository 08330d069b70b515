//! Ejecting a drive: what is done in which order, and what is noted of it.
//!
//! A run is a state. The caller does what the stage asks for and hands back what
//! came of it.

use crate::commands::{last_line, last_output_line};
use crate::text::{
    decimal, decimal_text, error_text, lines, lower, lower_text, same_text, starts_with,
    text_result, texts,
};
use crate::usb::actions::{
    index_of_pid, lemma_index_bounds, locking_actions, merge_process_actions, merged_actions,
    parse_process_actions, reported_actions, LockingProcess,
};
use crate::usb::codec::{
    decode_summary, decode_undoes_encode_error, decode_undoes_encode_summary, decoded_summary,
    encode_error, encode_summary, encoded_error, encoded_summary, has_writable_path, summary_result,
};
use crate::usb::drives::{normalize_drive_root, normalized_root};
use crate::usb::locks::{actions_result, marked_actions, LockErrorView, RestartManagerError};
use crate::usb::{
    action_views, ActionView, DriveInfo, DriveView, EjectMethod, ProcessAction, SummaryView,
    UsbEjectSummary,
};
use vstd::prelude::*;
use vstd::string::*;

verus! {

/// What is to be done next.
#[derive(Debug, Clone, Copy, PartialEq, Eq, Structural)]
pub enum EjectStage {
    ScanResources,
    CloseLocks,
    CloseWindows,
    CloseProcesses,
    RelaunchExplorer,
    InspectLocks,
    RequestEject,
    /// The run ends here, and an elevated helper makes another one.
    Elevate,
    Finished,
}

/// A run of ejecting a drive.
#[derive(Debug)]
pub struct EjectRun {
    pub stage: EjectStage,
    pub drive: DriveInfo,
    pub allow_elevation: bool,
    pub root: String,
    pub resources_registered: usize,
    pub resource_scan_limited: bool,
    pub notes: Vec<String>,
    pub restart_manager_processes: Vec<ProcessAction>,
    pub process_scan_actions: Vec<ProcessAction>,
    pub admin_required: bool,
    pub process_cleanup_failed: bool,
    pub lock_check_failed: bool,
    pub ejected: bool,
    pub eject_method: EjectMethod,
}

/// What came of a stage.
#[derive(Debug)]
pub enum EjectEvent {
    /// The number of files, whether the limit was felt, and the notes of the walk.
    ResourcesScanned(usize, bool, Vec<String>),
    LocksClosed(Result<Vec<ProcessAction>, RestartManagerError>),
    /// The output of the script that closes Explorer windows.
    WindowsClosed(Result<String, String>),
    /// The output of the script that closes processes.
    ProcessesClosed(Result<String, String>),
    ExplorerRelaunched(Result<(), String>),
    LocksInspected(Result<Vec<ProcessAction>, RestartManagerError>),
    /// The output of the script that ejects the drive.
    EjectRequested(Result<String, String>),
}

/// A run as plain values.
pub ghost struct RunView {
    pub stage: EjectStage,
    pub drive: DriveView,
    pub allow_elevation: bool,
    pub root: Seq<char>,
    pub resources_registered: usize,
    pub resource_scan_limited: bool,
    pub notes: Seq<Seq<char>>,
    pub restart_manager_processes: Seq<ActionView>,
    pub process_scan_actions: Seq<ActionView>,
    pub admin_required: bool,
    pub process_cleanup_failed: bool,
    pub lock_check_failed: bool,
    pub ejected: bool,
    pub eject_method: EjectMethod,
}

/// What came of a stage, as plain values.
pub ghost enum EventView {
    ResourcesScanned(usize, bool, Seq<Seq<char>>),
    LocksClosed(Result<Seq<ActionView>, LockErrorView>),
    WindowsClosed(Result<Seq<char>, Seq<char>>),
    ProcessesClosed(Result<Seq<char>, Seq<char>>),
    ExplorerRelaunched(Result<(), Seq<char>>),
    LocksInspected(Result<Seq<ActionView>, LockErrorView>),
    EjectRequested(Result<Seq<char>, Seq<char>>),
}

impl View for EjectRun {
    type V = RunView;

    open spec fn view(&self) -> RunView {
        RunView {
            stage: self.stage,
            drive: self.drive@,
            allow_elevation: self.allow_elevation,
            root: self.root@,
            resources_registered: self.resources_registered,
            resource_scan_limited: self.resource_scan_limited,
            notes: texts(self.notes@),
            restart_manager_processes: action_views(self.restart_manager_processes@),
            process_scan_actions: action_views(self.process_scan_actions@),
            admin_required: self.admin_required,
            process_cleanup_failed: self.process_cleanup_failed,
            lock_check_failed: self.lock_check_failed,
            ejected: self.ejected,
            eject_method: self.eject_method,
        }
    }
}

impl View for EjectEvent {
    type V = EventView;

    open spec fn view(&self) -> EventView {
        match self {
            EjectEvent::ResourcesScanned(count, limited, notes) => EventView::ResourcesScanned(
                *count,
                *limited,
                texts(notes@),
            ),
            EjectEvent::LocksClosed(result) => EventView::LocksClosed(actions_result(*result)),
            EjectEvent::WindowsClosed(result) => EventView::WindowsClosed(text_result(*result)),
            EjectEvent::ProcessesClosed(result) => EventView::ProcessesClosed(text_result(*result)),
            EjectEvent::ExplorerRelaunched(result) => EventView::ExplorerRelaunched(
                error_text(*result),
            ),
            EjectEvent::LocksInspected(result) => EventView::LocksInspected(actions_result(*result)),
            EjectEvent::EjectRequested(result) => EventView::EjectRequested(text_result(*result)),
        }
    }
}

/// Whether a process could not be closed.
pub open spec fn has_failed_action(actions: Seq<ActionView>) -> bool {
    exists|i: int|
        0 <= i < actions.len() && "failed"@.is_prefix_of((#[trigger] actions[i]).action)
}

/// Whether a process still locks the drive.
pub open spec fn has_remaining_lock(actions: Seq<ActionView>) -> bool {
    exists|i: int|
        0 <= i < actions.len() && (#[trigger] actions[i]).action == "still locking after cleanup"@
}

/// Whether an action closed Explorer.
pub open spec fn closed_explorer(action: ActionView) -> bool {
    lower(action.name) == lower("explorer.exe"@) && (action.action == "closed"@ || action.action
        == "terminated"@)
}

/// Whether one of the actions closed Explorer.
pub open spec fn has_closed_explorer(actions: Seq<ActionView>) -> bool {
    exists|i: int| 0 <= i < actions.len() && closed_explorer(#[trigger] actions[i])
}

impl RunView {
    pub open spec fn noted(self, note: Seq<char>) -> RunView {
        RunView { notes: self.notes.push(note), ..self }
    }

    pub open spec fn at(self, stage: EjectStage) -> RunView {
        RunView { stage, ..self }
    }

    /// Whether nothing stands against ejecting the drive.
    pub open spec fn may_eject(self) -> bool {
        &&& !self.admin_required
        &&& !self.process_cleanup_failed
        &&& !self.lock_check_failed
        &&& !has_remaining_lock(self.restart_manager_processes)
    }

    pub open spec fn after_locks_closed(
        self,
        result: Result<Seq<ActionView>, LockErrorView>,
    ) -> RunView {
        match result {
            Ok(actions) => (RunView { restart_manager_processes: actions, ..self }).at(
                EjectStage::CloseWindows,
            ),
            Err(LockErrorView::AccessDenied(error)) => if self.allow_elevation {
                self.at(EjectStage::Elevate)
            } else {
                (RunView { admin_required: true, ..self }).noted(error).noted(
                    "Restart Manager could not inspect protected locking processes even in the elevated helper."@,
                ).at(EjectStage::CloseWindows)
            },
            Err(LockErrorView::Other(error)) => self.noted(
                "Restart Manager could not close locks: "@ + error,
            ).at(EjectStage::CloseWindows),
        }
    }

    pub open spec fn after_windows_closed(self, result: Result<Seq<char>, Seq<char>>) -> RunView {
        match result {
            Ok(output) => {
                let count = reported_actions(lines(output)).len();
                if count == 0 {
                    self.at(EjectStage::CloseProcesses)
                } else {
                    self.noted(
                        "Closed "@ + decimal(count)
                            + " Explorer window(s) open on the selected drive."@,
                    ).at(EjectStage::CloseProcesses)
                }
            },
            Err(error) => self.noted("Explorer window cleanup failed: "@ + error).at(
                EjectStage::CloseProcesses,
            ),
        }
    }

    /// The run once the processes are closed as far as they can be.
    pub open spec fn after_cleanup(self) -> RunView {
        if has_failed_action(self.process_scan_actions) {
            (RunView { process_cleanup_failed: true, ..self }).noted(
                "Eject was not requested because one or more matched processes could not be closed."@,
            ).at(EjectStage::InspectLocks)
        } else {
            (RunView { process_cleanup_failed: false, ..self }).at(EjectStage::InspectLocks)
        }
    }

    pub open spec fn after_processes_closed(
        self,
        result: Result<Seq<char>, Seq<char>>,
    ) -> RunView {
        match result {
            Ok(output) => {
                let actions = reported_actions(lines(output));
                let next = RunView { process_scan_actions: actions, ..self };
                if has_closed_explorer(actions) {
                    next.at(EjectStage::RelaunchExplorer)
                } else {
                    next.after_cleanup()
                }
            },
            Err(error) => (RunView { process_scan_actions: Seq::empty(), ..self }).noted(
                "Process scan failed: "@ + error,
            ).after_cleanup(),
        }
    }

    pub open spec fn after_relaunch(self, result: Result<(), Seq<char>>) -> RunView {
        match result {
            Ok(_) => self.noted(
                "Explorer was relaunched after USB process cleanup."@,
            ).after_cleanup(),
            Err(error) => self.noted("Explorer relaunch failed: "@ + error).after_cleanup(),
        }
    }

    /// The run once it is known what still stands against ejecting.
    pub open spec fn after_checks(self) -> RunView {
        if self.may_eject() {
            self.at(EjectStage::RequestEject)
        } else {
            self.at(EjectStage::Finished)
        }
    }

    pub open spec fn after_locks_inspected(
        self,
        result: Result<Seq<ActionView>, LockErrorView>,
    ) -> RunView {
        match result {
            Ok(remaining) => if remaining.len() == 0 {
                (RunView { lock_check_failed: false, ..self }).after_checks()
            } else {
                (RunView {
                    lock_check_failed: false,
                    restart_manager_processes: merged_actions(
                        self.restart_manager_processes,
                        remaining,
                    ),
                    ..self
                }).noted(
                    "Eject was not requested because Restart Manager still reports processes locking the drive."@,
                ).after_checks()
            },
            Err(LockErrorView::AccessDenied(error)) => if self.allow_elevation {
                self.at(EjectStage::Elevate)
            } else {
                (RunView { admin_required: true, lock_check_failed: true, ..self }).noted(
                    error,
                ).noted(
                    "Eject was not requested because remaining drive locks could not be inspected."@,
                ).after_checks()
            },
            Err(LockErrorView::Other(error)) => (RunView { lock_check_failed: true, ..self }).noted(
                "Final lock check failed: "@ + error,
            ).noted(
                "Eject was not requested because remaining drive locks could not be verified."@,
            ).after_checks(),
        }
    }

    pub open spec fn after_eject(self, result: Result<Seq<char>, Seq<char>>) -> RunView {
        match result {
            Ok(output) => (RunView {
                ejected: true,
                eject_method: EjectMethod::Shell,
                ..self
            }).noted(eject_note(output)).at(EjectStage::Finished),
            Err(error) => self.noted(error).at(EjectStage::Finished),
        }
    }

    /// The run after what came of its stage. What cannot have come of the stage
    /// changes nothing.
    pub open spec fn after(self, event: EventView) -> RunView {
        match event {
            EventView::ResourcesScanned(count, limited, notes) => if self.stage
                == EjectStage::ScanResources {
                (RunView {
                    resources_registered: count,
                    resource_scan_limited: limited,
                    notes,
                    ..self
                }).at(EjectStage::CloseLocks)
            } else {
                self
            },
            EventView::LocksClosed(result) => if self.stage == EjectStage::CloseLocks {
                self.after_locks_closed(result)
            } else {
                self
            },
            EventView::WindowsClosed(result) => if self.stage == EjectStage::CloseWindows {
                self.after_windows_closed(result)
            } else {
                self
            },
            EventView::ProcessesClosed(result) => if self.stage == EjectStage::CloseProcesses {
                self.after_processes_closed(result)
            } else {
                self
            },
            EventView::ExplorerRelaunched(result) => if self.stage == EjectStage::RelaunchExplorer {
                self.after_relaunch(result)
            } else {
                self
            },
            EventView::LocksInspected(result) => if self.stage == EjectStage::InspectLocks {
                self.after_locks_inspected(result)
            } else {
                self
            },
            EventView::EjectRequested(result) => if self.stage == EjectStage::RequestEject {
                self.after_eject(result)
            } else {
                self
            },
        }
    }

    /// What every state of a run keeps.
    pub open spec fn well_formed(self) -> bool {
        &&& self.eject_method == if self.ejected {
            EjectMethod::Shell
        } else {
            EjectMethod::NotEjected
        }
        &&& self.ejected ==> self.stage == EjectStage::Finished && self.may_eject()
        &&& self.stage == EjectStage::RequestEject ==> self.may_eject()
        &&& self.stage == EjectStage::Elevate ==> self.allow_elevation
        &&& self.stage == EjectStage::InspectLocks || self.stage == EjectStage::RequestEject
            || self.stage == EjectStage::Finished ==> self.process_cleanup_failed
            == has_failed_action(self.process_scan_actions)
        &&& normalized_root(self.drive.root) == Ok::<Seq<char>, Seq<char>>(self.root)
    }
}

/// What is noted of an eject that succeeded: the last line of the script.
pub open spec fn eject_note(output: Seq<char>) -> Seq<char> {
    match last_line(lines(output)) {
        Some(line) => line,
        None => "Eject request completed."@,
    }
}

/// A run that has just begun.
pub open spec fn begun(drive: DriveView, root: Seq<char>, allow_elevation: bool) -> RunView {
    RunView {
        stage: EjectStage::ScanResources,
        drive,
        allow_elevation,
        root,
        resources_registered: 0,
        resource_scan_limited: false,
        notes: Seq::empty(),
        restart_manager_processes: Seq::empty(),
        process_scan_actions: Seq::empty(),
        admin_required: false,
        process_cleanup_failed: false,
        lock_check_failed: false,
        ejected: false,
        eject_method: EjectMethod::NotEjected,
    }
}

/// A run or an error, as plain values.
pub open spec fn run_result(result: Result<EjectRun, String>) -> Result<RunView, Seq<char>> {
    match result {
        Ok(run) => Ok(run@),
        Err(error) => Err(error@),
    }
}

/// Begins to eject a drive, with or without an elevated helper at hand.
pub fn safe_eject_impl(drive: DriveInfo, allow_elevation: bool) -> (result: Result<
    EjectRun,
    String,
>)
    ensures
        run_result(result) == match normalized_root(drive@.root) {
            Ok(root) => Ok::<RunView, Seq<char>>(begun(drive@, root, allow_elevation)),
            Err(error) => Err(error),
        },
        result is Ok ==> result->Ok_0@.well_formed(),
{
    let root = match normalize_drive_root(drive.root.as_str()) {
        Ok(root) => root,
        Err(error) => return Err(error),
    };
    let run = EjectRun {
        stage: EjectStage::ScanResources,
        drive,
        allow_elevation,
        root,
        resources_registered: 0,
        resource_scan_limited: false,
        notes: Vec::new(),
        restart_manager_processes: Vec::new(),
        process_scan_actions: Vec::new(),
        admin_required: false,
        process_cleanup_failed: false,
        lock_check_failed: false,
        ejected: false,
        eject_method: EjectMethod::NotEjected,
    };
    assert(run@.notes =~= Seq::empty());
    assert(run@.restart_manager_processes =~= Seq::empty());
    assert(run@.process_scan_actions =~= Seq::empty());
    Ok(run)
}

/// Begins to eject a drive. An elevated helper may be called in.
pub fn safe_eject(drive: DriveInfo) -> (result: Result<EjectRun, String>)
    ensures
        run_result(result) == match normalized_root(drive@.root) {
            Ok(root) => Ok::<RunView, Seq<char>>(begun(drive@, root, true)),
            Err(error) => Err(error),
        },
        result is Ok ==> result->Ok_0@.well_formed(),
{
    safe_eject_impl(drive, true)
}

fn any_failed(actions: &Vec<ProcessAction>) -> (found: bool)
    ensures
        found == has_failed_action(action_views(actions@)),
{
    let ghost views = action_views(actions@);
    for i in 0..actions.len()
        invariant
            views == action_views(actions@),
            forall|j: int| 0 <= j < i ==> !"failed"@.is_prefix_of((#[trigger] views[j]).action),
    {
        assert(views[i as int] == actions@[i as int]@);
        if starts_with(actions[i].action.as_str(), "failed") {
            return true;
        }
    }
    false
}

fn any_remaining(actions: &Vec<ProcessAction>) -> (found: bool)
    ensures
        found == has_remaining_lock(action_views(actions@)),
{
    let ghost views = action_views(actions@);
    for i in 0..actions.len()
        invariant
            views == action_views(actions@),
            forall|j: int|
                0 <= j < i ==> (#[trigger] views[j]).action != "still locking after cleanup"@,
    {
        assert(views[i as int] == actions@[i as int]@);
        if same_text(actions[i].action.as_str(), "still locking after cleanup") {
            return true;
        }
    }
    false
}

/// Whether Explorer was closed with the other processes, so that it has to be
/// started again.
pub fn explorer_was_handled(actions: &Vec<ProcessAction>) -> (found: bool)
    ensures
        found == has_closed_explorer(action_views(actions@)),
{
    let ghost views = action_views(actions@);
    let explorer = lower_text("explorer.exe");
    for i in 0..actions.len()
        invariant
            explorer@ == lower("explorer.exe"@),
            views == action_views(actions@),
            forall|j: int| 0 <= j < i ==> !closed_explorer(#[trigger] views[j]),
    {
        assert(views[i as int] == actions@[i as int]@);
        let name = lower_text(actions[i].name.as_str());
        if same_text(name.as_str(), explorer.as_str()) && (same_text(
            actions[i].action.as_str(),
            "closed",
        ) || same_text(actions[i].action.as_str(), "terminated")) {
            return true;
        }
    }
    false
}

impl EjectRun {
    fn note(&mut self, note: String)
        ensures
            final(self)@ == old(self)@.noted(note@),
    {
        self.notes.push(note);
        assert(self@.notes =~= old(self)@.notes.push(note@));
    }

    fn note_with(&mut self, start: &str, end: &str)
        ensures
            final(self)@ == old(self)@.noted(start@ + end@),
    {
        let mut note = start.to_owned();
        note.append(end);
        self.note(note);
    }

    fn finish_cleanup(&mut self)
        ensures
            final(self)@ == old(self)@.after_cleanup(),
    {
        self.process_cleanup_failed = any_failed(&self.process_scan_actions);
        if self.process_cleanup_failed {
            self.note(
                "Eject was not requested because one or more matched processes could not be closed.".to_owned(),
            );
        }
        self.stage = EjectStage::InspectLocks;
    }

    fn finish_checks(&mut self)
        ensures
            final(self)@ == old(self)@.after_checks(),
    {
        let remaining = any_remaining(&self.restart_manager_processes);
        self.stage =
        if !self.admin_required && !self.process_cleanup_failed && !self.lock_check_failed
            && !remaining {
            EjectStage::RequestEject
        } else {
            EjectStage::Finished
        };
    }

    fn locks_closed(&mut self, result: Result<Vec<ProcessAction>, RestartManagerError>)
        ensures
            final(self)@ == old(self)@.after_locks_closed(actions_result(result)),
    {
        match result {
            Ok(actions) => {
                self.restart_manager_processes = actions;
                self.stage = EjectStage::CloseWindows;
            },
            Err(RestartManagerError::AccessDenied(error)) => {
                if self.allow_elevation {
                    self.stage = EjectStage::Elevate;
                } else {
                    self.admin_required = true;
                    self.note(error);
                    self.note(
                        "Restart Manager could not inspect protected locking processes even in the elevated helper.".to_owned(),
                    );
                    self.stage = EjectStage::CloseWindows;
                }
            },
            Err(RestartManagerError::Other(error)) => {
                self.note_with("Restart Manager could not close locks: ", error.as_str());
                self.stage = EjectStage::CloseWindows;
            },
        }
    }

    fn windows_closed(&mut self, result: Result<String, String>)
        ensures
            final(self)@ == old(self)@.after_windows_closed(text_result(result)),
    {
        match result {
            Ok(output) => {
                let actions = parse_process_actions(output.as_str());
                assert(action_views(actions@).len() == actions@.len());
                if actions.len() > 0 {
                    let count = decimal_text(actions.len() as u128);
                    let mut note = "Closed ".to_owned();
                    note.append(count.as_str());
                    note.append(" Explorer window(s) open on the selected drive.");
                    self.note(note);
                }
            },
            Err(error) => {
                self.note_with("Explorer window cleanup failed: ", error.as_str());
            },
        }
        self.stage = EjectStage::CloseProcesses;
    }

    fn processes_closed(&mut self, result: Result<String, String>)
        ensures
            final(self)@ == old(self)@.after_processes_closed(text_result(result)),
    {
        match result {
            Ok(output) => {
                let actions = parse_process_actions(output.as_str());
                let explorer = explorer_was_handled(&actions);
                self.process_scan_actions = actions;
                if explorer {
                    self.stage = EjectStage::RelaunchExplorer;
                } else {
                    self.finish_cleanup();
                }
            },
            Err(error) => {
                self.process_scan_actions = Vec::new();
                assert(self@.process_scan_actions =~= Seq::empty());
                self.note_with("Process scan failed: ", error.as_str());
                self.finish_cleanup();
            },
        }
    }

    fn explorer_relaunched(&mut self, result: Result<(), String>)
        ensures
            final(self)@ == old(self)@.after_relaunch(error_text(result)),
    {
        match result {
            Ok(_) => {
                self.note("Explorer was relaunched after USB process cleanup.".to_owned());
            },
            Err(error) => {
                self.note_with("Explorer relaunch failed: ", error.as_str());
            },
        }
        self.finish_cleanup();
    }

    fn locks_inspected(&mut self, result: Result<Vec<ProcessAction>, RestartManagerError>)
        ensures
            final(self)@ == old(self)@.after_locks_inspected(actions_result(result)),
    {
        match result {
            Ok(remaining) => {
                assert(action_views(remaining@).len() == remaining@.len());
                self.lock_check_failed = false;
                if remaining.len() > 0 {
                    merge_process_actions(&mut self.restart_manager_processes, remaining);
                    self.note(
                        "Eject was not requested because Restart Manager still reports processes locking the drive.".to_owned(),
                    );
                }
            },
            Err(RestartManagerError::AccessDenied(error)) => {
                if self.allow_elevation {
                    self.stage = EjectStage::Elevate;
                    return ;
                }
                self.admin_required = true;
                self.lock_check_failed = true;
                self.note(error);
                self.note(
                    "Eject was not requested because remaining drive locks could not be inspected.".to_owned(),
                );
            },
            Err(RestartManagerError::Other(error)) => {
                self.lock_check_failed = true;
                self.note_with("Final lock check failed: ", error.as_str());
                self.note(
                    "Eject was not requested because remaining drive locks could not be verified.".to_owned(),
                );
            },
        }
        self.finish_checks();
    }

    fn eject_requested(&mut self, result: Result<String, String>)
        ensures
            final(self)@ == old(self)@.after_eject(text_result(result)),
    {
        match result {
            Ok(output) => {
                self.ejected = true;
                self.eject_method = EjectMethod::Shell;
                let note = match last_output_line(output.as_str()) {
                    Some(line) => line,
                    None => "Eject request completed.".to_owned(),
                };
                self.note(note);
            },
            Err(error) => {
                self.note(error);
            },
        }
        self.stage = EjectStage::Finished;
    }

    /// Goes on after what came of the stage.
    pub fn advance(&mut self, event: EjectEvent)
        ensures
            final(self)@ == old(self)@.after(event@),
    {
        match event {
            EjectEvent::ResourcesScanned(count, limited, notes) => {
                if self.stage == EjectStage::ScanResources {
                    self.resources_registered = count;
                    self.resource_scan_limited = limited;
                    self.notes = notes;
                    self.stage = EjectStage::CloseLocks;
                }
            },
            EjectEvent::LocksClosed(result) => {
                if self.stage == EjectStage::CloseLocks {
                    self.locks_closed(result);
                }
            },
            EjectEvent::WindowsClosed(result) => {
                if self.stage == EjectStage::CloseWindows {
                    self.windows_closed(result);
                }
            },
            EjectEvent::ProcessesClosed(result) => {
                if self.stage == EjectStage::CloseProcesses {
                    self.processes_closed(result);
                }
            },
            EjectEvent::ExplorerRelaunched(result) => {
                if self.stage == EjectStage::RelaunchExplorer {
                    self.explorer_relaunched(result);
                }
            },
            EjectEvent::LocksInspected(result) => {
                if self.stage == EjectStage::InspectLocks {
                    self.locks_inspected(result);
                }
            },
            EjectEvent::EjectRequested(result) => {
                if self.stage == EjectStage::RequestEject {
                    self.eject_requested(result);
                }
            },
        }
    }

    /// What the run did.
    pub fn into_summary(self) -> (summary: UsbEjectSummary)
        ensures
            summary@ == run_summary(self@),
    {
        UsbEjectSummary {
            drive: self.drive,
            resources_registered: self.resources_registered,
            resource_scan_limited: self.resource_scan_limited,
            restart_manager_processes: self.restart_manager_processes,
            process_scan_actions: self.process_scan_actions,
            notes: self.notes,
            ejected: self.ejected,
            admin_required: self.admin_required,
            eject_method: self.eject_method,
        }
    }
}

/// What a run did.
pub open spec fn run_summary(run: RunView) -> SummaryView {
    SummaryView {
        drive: run.drive,
        resources_registered: run.resources_registered,
        resource_scan_limited: run.resource_scan_limited,
        restart_manager_processes: run.restart_manager_processes,
        process_scan_actions: run.process_scan_actions,
        notes: run.notes,
        ejected: run.ejected,
        admin_required: run.admin_required,
        eject_method: run.eject_method,
    }
}

/// Whatever comes of its stages, a run stays well formed, and its drive and root
/// stay what they were.
pub proof fn runs_stay_well_formed(run: RunView, event: EventView)
    requires
        run.well_formed(),
    ensures
        run.after(event).well_formed(),
        run.after(event).drive == run.drive,
        run.after(event).root == run.root,
        run.after(event).allow_elevation == run.allow_elevation,
{
}

/// A drive is reported as ejected only where no process was left unclosed, none
/// still locks the drive, and no rights were missing; the way is then the Shell.
pub proof fn ejected_means_nothing_stood_against_it(run: RunView)
    requires
        run.well_formed(),
    ensures
        run_summary(run).ejected ==> !run_summary(run).admin_required && !has_failed_action(
            run_summary(run).process_scan_actions,
        ) && !has_remaining_lock(run_summary(run).restart_manager_processes),
        run_summary(run).ejected <==> run_summary(run).eject_method == EjectMethod::Shell,
        run_summary(run).eject_method != EjectMethod::Mountvol,
{
}

/// A drive is ejected only in answer to the request, and the request is made only
/// where nothing stands against it.
pub proof fn ejecting_takes_a_request(run: RunView, event: EventView)
    requires
        run.well_formed(),
        !run.ejected,
        run.after(event).ejected,
    ensures
        run.stage == EjectStage::RequestEject,
        run.may_eject(),
        event is EjectRequested,
        event->EjectRequested_0 is Ok,
{
}

/// After the walk through the drive, notes are only added.
pub proof fn notes_are_only_added(run: RunView, event: EventView)
    requires
        run.stage != EjectStage::ScanResources,
    ensures
        run.notes.is_prefix_of(run.after(event).notes),
{
    let notes = run.after(event).notes;
    assert(run.notes =~= notes.subrange(0, run.notes.len() as int));
}

/// What a run with an elevated helper gives: what the helper reports, with a note
/// of it in front.
pub open spec fn elevated_outcome(encoded: Seq<char>, drive: DriveView) -> Result<
    SummaryView,
    Seq<char>,
> {
    match decoded_summary(encoded, drive) {
        Ok(summary) => Ok(
            SummaryView {
                notes: seq!["USB operation was completed by an elevated helper."@] + summary.notes,
                ..summary
            },
        ),
        Err(error) => Err(error),
    }
}

/// Reads the report of the elevated helper.
pub fn elevated_summary(encoded: &str, drive: DriveInfo) -> (result: Result<
    UsbEjectSummary,
    String,
>)
    ensures
        summary_result(result) == elevated_outcome(encoded@, drive@),
{
    match decode_summary(encoded, drive) {
        Ok(summary) => {
            let mut summary = summary;
            let ghost before = summary@;
            summary.notes.insert(
                0,
                "USB operation was completed by an elevated helper.".to_owned(),
            );
            assert(summary@.notes
                =~= seq!["USB operation was completed by an elevated helper."@] + before.notes);
            Ok(summary)
        },
        Err(error) => Err(error),
    }
}

/// The report of the elevated helper on its own run.
pub open spec fn helper_report_text(result: Result<SummaryView, Seq<char>>) -> Seq<char> {
    match result {
        Ok(summary) => encoded_summary(summary),
        Err(error) => encoded_error(error),
    }
}

/// Writes the report of the elevated helper on its own run.
pub fn helper_report(result: Result<UsbEjectSummary, String>) -> (report: String)
    ensures
        report@ == helper_report_text(summary_result(result)),
{
    match result {
        Ok(summary) => encode_summary(&summary),
        Err(error) => encode_error(error.as_str()),
    }
}

/// Whether every path that is there can be told from none in a report.
pub open spec fn paths_are_writable(actions: Seq<ActionView>) -> bool {
    forall|i: int| 0 <= i < actions.len() ==> has_writable_path(#[trigger] actions[i])
}

proof fn lemma_reported_paths(reported: Seq<Seq<char>>)
    ensures
        paths_are_writable(reported_actions(reported)),
    decreases reported.len(),
{
    if reported.len() > 0 {
        lemma_reported_paths(reported.drop_last());
    }
}

proof fn lemma_merged_paths(actions: Seq<ActionView>, newer: Seq<ActionView>)
    requires
        paths_are_writable(actions),
        paths_are_writable(newer),
    ensures
        paths_are_writable(merged_actions(actions, newer)),
    decreases newer.len(),
{
    if newer.len() > 0 {
        lemma_merged_paths(actions, newer.drop_last());
        let before = merged_actions(actions, newer.drop_last());
        let at = index_of_pid(before, newer.last().pid);
        if at < before.len() {
            lemma_index_bounds(before, newer.last().pid);
            assert(has_writable_path(before[at]));
            assert(has_writable_path(newer.last()));
        }
    }
}

/// Whatever comes of its stages, the report of a run can be read back, as long as
/// the processes that the Restart Manager lists are listed as they are here.
pub proof fn runs_keep_readable_reports(run: RunView, event: EventView)
    requires
        paths_are_writable(run.restart_manager_processes),
        paths_are_writable(run.process_scan_actions),
        match event {
            EventView::LocksClosed(Ok(actions)) => paths_are_writable(actions),
            EventView::LocksInspected(Ok(actions)) => paths_are_writable(actions),
            _ => true,
        },
    ensures
        paths_are_writable(run.after(event).restart_manager_processes),
        paths_are_writable(run.after(event).process_scan_actions),
{
    match event {
        EventView::ProcessesClosed(Ok(output)) => {
            lemma_reported_paths(lines(output));
        },
        EventView::LocksInspected(Ok(actions)) => {
            lemma_merged_paths(run.restart_manager_processes, actions);
        },
        _ => {},
    }
}

/// Locking processes are listed without paths, so that a report of them can be
/// read back.
pub proof fn listed_locks_have_readable_reports(
    processes: Seq<LockingProcess>,
    action: Seq<char>,
    remaining: Seq<LockingProcess>,
)
    ensures
        paths_are_writable(locking_actions(processes, action)),
        paths_are_writable(marked_actions(locking_actions(processes, action), remaining)),
{
}

/// The caller learns from the helper's report what the helper's run did, with its
/// own drive and a note in front, or the helper's error.
pub proof fn report_reaches_the_caller(
    result: Result<SummaryView, Seq<char>>,
    drive: DriveView,
)
    requires
        result is Ok ==> paths_are_writable(result->Ok_0.restart_manager_processes)
            && paths_are_writable(result->Ok_0.process_scan_actions),
    ensures
        elevated_outcome(helper_report_text(result), drive) == match result {
            Ok(summary) => Ok::<SummaryView, Seq<char>>(
                SummaryView {
                    drive,
                    notes: seq!["USB operation was completed by an elevated helper."@]
                        + summary.notes,
                    ..summary
                },
            ),
            Err(error) => Err(error),
        },
{
    match result {
        Ok(summary) => decode_undoes_encode_summary(summary, drive),
        Err(error) => decode_undoes_encode_error(error, drive),
    }
}

/// The argument that asks for the helper.
pub open spec fn helper_argument() -> Seq<char> {
    "--usb-eject-helper"@
}

/// Whether the arguments of a process ask for the helper: there are four, and the
/// second says so.
pub fn is_helper_call(args: &Vec<Option<String>>) -> (asked: bool)
    ensures
        asked == (args@.len() == 4 && args@[1] is Some && args@[1]->0@ == helper_argument()),
{
    if args.len() != 4 {
        return false;
    }
    match &args[1] {
        Some(value) => same_text(value.as_str(), "--usb-eject-helper"),
        None => false,
    }
}

/// The exit code of the helper: zero where its report was written.
pub fn helper_exit_code(written: bool) -> (code: i32)
    ensures
        code == if written {
            0i32
        } else {
            1i32
        },
{
    if written {
        0
    } else {
        1
    }
}

/// What is said where the report of the helper cannot be read.
pub fn helper_report_failure(error: &str) -> (message: String)
    ensures
        message@ == "Could not read elevated helper result: "@ + error@,
{
    let mut message = "Could not read elevated helper result: ".to_owned();
    message.append(error);
    message
}

/// The name of the file that the helper reports in.
pub fn helper_report_name(process: u32, stamp: u128) -> (name: String)
    ensures
        name@ == "printltools-usb-eject-"@ + decimal(process as nat) + "-"@ + decimal(stamp as nat)
            + ".txt"@,
{
    let process = decimal_text(process as u128);
    let stamp = decimal_text(stamp);
    let mut name = "printltools-usb-eject-".to_owned();
    name.append(process.as_str());
    name.append("-");
    name.append(stamp.as_str());
    name.append(".txt");
    name
}

} // verus!
