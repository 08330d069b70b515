use printltools::usb::actions::LockingProcess;
use printltools::usb::eject::{
    explorer_was_handled, helper_exit_code, helper_report_failure, helper_report_name,
    is_helper_call, safe_eject, safe_eject_impl, EjectEvent, EjectRun, EjectStage,
};
use printltools::usb::locks::{
    first_listing, inspected_locks, processes_shut_down, registration_chunks,
    resources_registered, second_listing, session_started, FirstListing, LockClosing, LockOutcome,
    LockProgress, LockStep, RestartManagerError,
};
use printltools::usb::resources::{EntryKind, ResourceScan, MAX_RESTART_MANAGER_RESOURCES};
use printltools::usb::scripts::{
    elevation_script, explorer_cleanup_script, process_cleanup_script, shell_eject_script,
    trim_end_backslashes,
};
use printltools::usb::unsupported;
use printltools::usb::{DriveInfo, DriveKind, EjectMethod, ProcessAction};

fn action(pid: u32, name: &str, what: &str) -> ProcessAction {
    ProcessAction {
        pid,
        name: name.to_string(),
        path: None,
        action: what.to_string(),
    }
}

fn drive(root: &str) -> DriveInfo {
    DriveInfo {
        root: root.to_string(),
        letter: "E:".to_string(),
        label: String::new(),
        drive_type: DriveKind::Removable,
        total_bytes: None,
        free_bytes: None,
    }
}

fn run_to_locks(allow_elevation: bool) -> EjectRun {
    let mut run = safe_eject_impl(drive("e:\\folder"), allow_elevation).unwrap();
    assert_eq!(run.stage, EjectStage::ScanResources);
    assert_eq!(run.root, "E:\\");
    run.advance(EjectEvent::ResourcesScanned(3, false, vec!["scan".to_string()]));
    assert_eq!(run.stage, EjectStage::CloseLocks);
    run
}

fn ok(text: &str) -> Result<String, String> {
    Ok(text.to_string())
}

#[test]
fn drives_without_a_letter_are_refused() {
    assert_eq!(
        safe_eject(drive("")).err().unwrap(),
        "Selected drive path is empty."
    );
    assert_eq!(
        safe_eject(drive("\\\\server\\share")).err().unwrap(),
        "Selected path `\\\\server\\share` does not start with a drive letter."
    );
}

#[test]
fn clean_run_ejects_through_the_shell() {
    let mut run = run_to_locks(true);
    run.advance(EjectEvent::LocksClosed(Ok(vec![action(1, "a", "closed by Restart Manager")])));
    assert_eq!(run.stage, EjectStage::CloseWindows);
    run.advance(EjectEvent::WindowsClosed(ok("0\texplorer.exe\tE:\\\tclosed Explorer window\n")));
    assert_eq!(run.stage, EjectStage::CloseProcesses);
    run.advance(EjectEvent::ProcessesClosed(ok("5\tapp.exe\t\tclosed\n")));
    assert_eq!(run.stage, EjectStage::InspectLocks);
    run.advance(EjectEvent::LocksInspected(Ok(Vec::new())));
    assert_eq!(run.stage, EjectStage::RequestEject);
    run.advance(EjectEvent::EjectRequested(ok("one\n  Shell eject completed.  \n\n")));
    assert_eq!(run.stage, EjectStage::Finished);

    let summary = run.into_summary();
    assert!(summary.ejected);
    assert_eq!(summary.eject_method, EjectMethod::Shell);
    assert_eq!(summary.resources_registered, 3);
    assert_eq!(
        summary.notes,
        vec![
            "scan".to_string(),
            "Closed 1 Explorer window(s) open on the selected drive.".to_string(),
            "Shell eject completed.".to_string(),
        ]
    );
    assert_eq!(summary.process_scan_actions, vec![action(5, "app.exe", "closed")]);
}

#[test]
fn silent_eject_gets_a_note() {
    let mut run = run_to_locks(false);
    run.advance(EjectEvent::LocksClosed(Ok(Vec::new())));
    run.advance(EjectEvent::WindowsClosed(ok("")));
    run.advance(EjectEvent::ProcessesClosed(ok("")));
    run.advance(EjectEvent::LocksInspected(Ok(Vec::new())));
    run.advance(EjectEvent::EjectRequested(ok(" \n")));
    let summary = run.into_summary();
    assert_eq!(summary.notes[1..], ["Eject request completed.".to_string()]);
}

#[test]
fn failed_request_is_noted() {
    let mut run = run_to_locks(false);
    run.advance(EjectEvent::LocksClosed(Ok(Vec::new())));
    run.advance(EjectEvent::WindowsClosed(Err("timeout".to_string())));
    run.advance(EjectEvent::ProcessesClosed(Err("denied".to_string())));
    run.advance(EjectEvent::LocksInspected(Ok(Vec::new())));
    run.advance(EjectEvent::EjectRequested(Err("still mounted".to_string())));
    let summary = run.into_summary();
    assert!(!summary.ejected);
    assert_eq!(summary.eject_method, EjectMethod::NotEjected);
    assert_eq!(
        summary.notes[1..],
        [
            "Explorer window cleanup failed: timeout".to_string(),
            "Process scan failed: denied".to_string(),
            "still mounted".to_string(),
        ]
    );
}

#[test]
fn unclosed_process_stops_the_eject() {
    let mut run = run_to_locks(false);
    run.advance(EjectEvent::LocksClosed(Err(RestartManagerError::Other("x".to_string()))));
    run.advance(EjectEvent::WindowsClosed(ok("")));
    run.advance(EjectEvent::ProcessesClosed(ok("5\tapp.exe\t\tfailed: denied\n")));
    run.advance(EjectEvent::LocksInspected(Ok(Vec::new())));
    assert_eq!(run.stage, EjectStage::Finished);
    let summary = run.into_summary();
    assert!(!summary.ejected);
    assert_eq!(
        summary.notes[1..],
        [
            "Restart Manager could not close locks: x".to_string(),
            "Eject was not requested because one or more matched processes could not be closed."
                .to_string(),
        ]
    );
}

#[test]
fn remaining_lock_stops_the_eject() {
    let mut run = run_to_locks(true);
    run.advance(EjectEvent::LocksClosed(Ok(vec![action(4, "a", "closed by Restart Manager")])));
    run.advance(EjectEvent::WindowsClosed(ok("")));
    run.advance(EjectEvent::ProcessesClosed(ok("")));
    run.advance(EjectEvent::LocksInspected(Ok(vec![action(
        4,
        "b",
        "still locking after cleanup",
    )])));
    assert_eq!(run.stage, EjectStage::Finished);
    let summary = run.into_summary();
    assert_eq!(
        summary.restart_manager_processes,
        vec![action(4, "a", "still locking after cleanup")]
    );
    assert_eq!(
        summary.notes[1..],
        ["Eject was not requested because Restart Manager still reports processes locking the drive.".to_string()]
    );
}

#[test]
fn denied_inspection_calls_for_elevation() {
    let denied = || Err(RestartManagerError::AccessDenied("denied".to_string()));
    let mut run = run_to_locks(true);
    run.advance(EjectEvent::LocksClosed(denied()));
    assert_eq!(run.stage, EjectStage::Elevate);

    let mut run = run_to_locks(true);
    run.advance(EjectEvent::LocksClosed(Ok(Vec::new())));
    run.advance(EjectEvent::WindowsClosed(ok("")));
    run.advance(EjectEvent::ProcessesClosed(ok("")));
    run.advance(EjectEvent::LocksInspected(denied()));
    assert_eq!(run.stage, EjectStage::Elevate);
}

#[test]
fn denied_inspection_in_the_helper_needs_an_administrator() {
    let denied = || Err(RestartManagerError::AccessDenied("denied".to_string()));
    let mut run = run_to_locks(false);
    run.advance(EjectEvent::LocksClosed(denied()));
    assert_eq!(run.stage, EjectStage::CloseWindows);
    run.advance(EjectEvent::WindowsClosed(ok("")));
    run.advance(EjectEvent::ProcessesClosed(ok("")));
    run.advance(EjectEvent::LocksInspected(denied()));
    assert_eq!(run.stage, EjectStage::Finished);
    let summary = run.into_summary();
    assert!(summary.admin_required);
    assert_eq!(
        summary.notes[1..],
        [
            "denied".to_string(),
            "Restart Manager could not inspect protected locking processes even in the elevated helper.".to_string(),
            "denied".to_string(),
            "Eject was not requested because remaining drive locks could not be inspected.".to_string(),
        ]
    );
}

#[test]
fn failed_final_check_stops_the_eject() {
    let mut run = run_to_locks(true);
    run.advance(EjectEvent::LocksClosed(Ok(Vec::new())));
    run.advance(EjectEvent::WindowsClosed(ok("")));
    run.advance(EjectEvent::ProcessesClosed(ok("")));
    run.advance(EjectEvent::LocksInspected(Err(RestartManagerError::Other("y".to_string()))));
    assert_eq!(run.stage, EjectStage::Finished);
    assert_eq!(
        run.into_summary().notes[1..],
        [
            "Final lock check failed: y".to_string(),
            "Eject was not requested because remaining drive locks could not be verified.".to_string(),
        ]
    );
}

#[test]
fn closed_explorer_is_relaunched() {
    let mut run = run_to_locks(true);
    run.advance(EjectEvent::LocksClosed(Ok(Vec::new())));
    run.advance(EjectEvent::WindowsClosed(ok("")));
    run.advance(EjectEvent::ProcessesClosed(ok("5\tExplorer.EXE\t\tterminated\n")));
    assert_eq!(run.stage, EjectStage::RelaunchExplorer);
    run.advance(EjectEvent::ExplorerRelaunched(Ok(())));
    assert_eq!(run.stage, EjectStage::InspectLocks);
    assert_eq!(run.notes[1], "Explorer was relaunched after USB process cleanup.");

    let mut run = run_to_locks(true);
    run.advance(EjectEvent::LocksClosed(Ok(Vec::new())));
    run.advance(EjectEvent::WindowsClosed(ok("")));
    run.advance(EjectEvent::ProcessesClosed(ok("5\texplorer.exe\t\tclosed\n")));
    run.advance(EjectEvent::ExplorerRelaunched(Err("gone".to_string())));
    assert_eq!(run.notes[1], "Explorer relaunch failed: gone");

    assert!(!explorer_was_handled(&vec![action(1, "explorer.exe", "failed: x")]));
    assert!(!explorer_was_handled(&vec![action(1, "other.exe", "closed")]));
}

#[test]
fn events_of_other_stages_change_nothing() {
    let mut run = run_to_locks(true);
    run.advance(EjectEvent::EjectRequested(ok("done")));
    assert_eq!(run.stage, EjectStage::CloseLocks);
    assert!(!run.ejected);
    run.advance(EjectEvent::ResourcesScanned(9, true, Vec::new()));
    assert_eq!(run.resources_registered, 3);
}

#[test]
fn helper_is_recognised_by_its_argument() {
    let some = |text: &str| Some(text.to_string());
    assert!(is_helper_call(&vec![some("exe"), some("--usb-eject-helper"), some("E:"), None]));
    assert!(!is_helper_call(&vec![some("exe"), some("--usb-eject-helper"), some("E:")]));
    assert!(!is_helper_call(&vec![some("exe"), None, some("E:"), some("out")]));
    assert!(!is_helper_call(&vec![some("exe"), some("--other"), some("E:"), some("out")]));
    assert_eq!(helper_exit_code(true), 0);
    assert_eq!(helper_exit_code(false), 1);
    assert_eq!(helper_report_name(12, 345), "printltools-usb-eject-12-345.txt");
    assert_eq!(
        helper_report_failure("gone"),
        "Could not read elevated helper result: gone"
    );
}

#[test]
fn ejecting_is_unsupported_elsewhere() {
    let message = "USB safe eject is only implemented on Windows.";
    assert_eq!(unsupported::list_drives().unwrap_err(), message);
    assert_eq!(unsupported::safe_eject(drive("E:\\")).unwrap_err(), message);
    assert_eq!(unsupported::run_eject_helper_from_args(&Vec::new()), None);
}

fn process(pid: u32) -> LockingProcess {
    LockingProcess {
        pid,
        app_name: vec![65, 0],
    }
}

fn continued(progress: LockProgress) -> LockClosing {
    match progress {
        LockProgress::Continue(closing) => closing,
        LockProgress::Finished(_) => panic!("the session goes on"),
    }
}

fn finished(progress: LockProgress) -> Result<Vec<ProcessAction>, RestartManagerError> {
    match progress {
        LockProgress::Continue(_) => panic!("the session is over"),
        LockProgress::Finished(result) => result,
    }
}

#[test]
fn lock_session_asks_then_forces() {
    let closing = LockClosing::new();
    let closing = continued(closing.advance(LockOutcome::Called(Ok(()))));
    assert_eq!(closing.step, LockStep::Register);
    let closing = continued(closing.advance(LockOutcome::Called(Ok(()))));
    assert_eq!(closing.step, LockStep::ListFirst);
    let closing = continued(closing.advance(LockOutcome::Listed(Ok(vec![process(1), process(2)]))));
    assert_eq!(closing.step, LockStep::ShutDown);
    assert_eq!(closing.actions[0], action(1, "A", "detected by Restart Manager"));
    let closing = continued(closing.advance(LockOutcome::Called(Ok(()))));
    assert_eq!(closing.step, LockStep::ListAgain);
    let closing = continued(closing.advance(LockOutcome::Listed(Ok(vec![process(2)]))));
    assert_eq!(closing.step, LockStep::ForceShutDown);
    let closing = continued(closing.advance(LockOutcome::Called(Ok(()))));
    assert_eq!(closing.step, LockStep::ListLast);
    assert_eq!(
        finished(closing.advance(LockOutcome::Listed(Ok(vec![process(2)])))),
        Ok(vec![
            action(1, "A", "closed by Restart Manager"),
            action(2, "A", "still locking after Restart Manager shutdown"),
        ])
    );
}

#[test]
fn lock_session_ends_without_locks_or_on_errors() {
    let at = |step: LockStep| LockClosing {
        step,
        actions: Vec::new(),
    };
    assert_eq!(
        finished(at(LockStep::ListFirst).advance(LockOutcome::Listed(Ok(Vec::new())))),
        Ok(Vec::new())
    );
    assert_eq!(
        finished(at(LockStep::ShutDown).advance(LockOutcome::Called(Err("no".to_string())))),
        Err(RestartManagerError::Other("no".to_string()))
    );
    let denied = RestartManagerError::AccessDenied("d".to_string());
    assert_eq!(
        finished(at(LockStep::ListAgain).advance(LockOutcome::Listed(Err(denied.clone())))),
        Err(denied)
    );
    let closing = continued(at(LockStep::ListAgain).advance(LockOutcome::Listed(Ok(Vec::new()))));
    assert_eq!(closing.step, LockStep::ListLast);
    let closing = continued(at(LockStep::Start).advance(LockOutcome::Listed(Ok(Vec::new()))));
    assert_eq!(closing.step, LockStep::Start);
}

#[test]
fn codes_of_calls_have_meanings() {
    assert_eq!(session_started(0), Ok(()));
    assert_eq!(session_started(5), Err("RmStartSession failed: 5".to_string()));
    assert_eq!(
        resources_registered(87),
        Err("RmRegisterResources failed: 87".to_string())
    );
    assert_eq!(processes_shut_down(351), Err("RmShutdown failed: 351".to_string()));
    assert_eq!(first_listing(0), FirstListing::Empty);
    assert_eq!(first_listing(234), FirstListing::Fetch);
    assert_eq!(
        first_listing(5),
        FirstListing::Failed(RestartManagerError::AccessDenied(
            "RmGetList failed with access denied while inspecting protected locking processes."
                .to_string()
        ))
    );
    assert_eq!(
        first_listing(6),
        FirstListing::Failed(RestartManagerError::Other("RmGetList failed: 6".to_string()))
    );
    assert_eq!(
        second_listing(0, vec![process(1), process(2)], 1),
        Ok(vec![process(1)])
    );
    assert_eq!(second_listing(0, vec![process(1)], 9), Ok(vec![process(1)]));
    assert_eq!(
        second_listing(5, vec![process(1)], 1),
        Err(RestartManagerError::Other("RmGetList failed: 5".to_string()))
    );
    assert_eq!(
        inspected_locks(Ok(vec![process(3)])),
        Ok(vec![action(3, "A", "still locking after cleanup")])
    );
}

#[test]
fn resources_are_registered_in_chunks() {
    let paths: Vec<String> = (0..1100).map(|n| format!("p{n}")).collect();
    let chunks = registration_chunks(&paths);
    assert_eq!(chunks.iter().map(|chunk| chunk.len()).collect::<Vec<_>>(), vec![512, 512, 76]);
    let mut expected: Vec<u16> = "p512".encode_utf16().collect();
    expected.push(0);
    assert_eq!(chunks[1][0], expected);
    assert!(registration_chunks(&Vec::new()).is_empty());
}

#[test]
fn resources_are_collected_breadth_first() {
    let mut scan = ResourceScan::new(0);
    assert_eq!(scan.next_folder(), Some(0));
    scan.folder_read(&vec![
        (1, EntryKind::Folder),
        (2, EntryKind::File),
        (3, EntryKind::Other),
        (4, EntryKind::Folder),
    ]);
    assert_eq!(scan.next_folder(), Some(1));
    scan.folder_failed("E:\\one", "denied");
    assert_eq!(scan.next_folder(), Some(4));
    scan.folder_read(&vec![(5, EntryKind::File)]);
    assert_eq!(scan.next_folder(), None);
    assert_eq!(scan.resources, vec![0, 2, 5]);
    assert_eq!(scan.notes, vec!["Could not scan E:\\one: denied".to_string()]);
    assert!(!scan.limited);
}

#[test]
fn resources_stop_at_their_limit() {
    let mut scan = ResourceScan::new(0);
    assert_eq!(scan.next_folder(), Some(0));
    let mut entries = vec![(1, EntryKind::Folder)];
    for n in 2..MAX_RESTART_MANAGER_RESOURCES + 1 {
        entries.push((n, EntryKind::File));
    }
    scan.folder_read(&entries);
    assert_eq!(scan.resources.len(), MAX_RESTART_MANAGER_RESOURCES);
    assert!(!scan.limited);
    assert_eq!(scan.next_folder(), None);
    assert!(scan.limited);

    let mut scan = ResourceScan::new(0);
    entries.push((9999, EntryKind::File));
    assert_eq!(scan.next_folder(), Some(0));
    scan.folder_read(&entries);
    assert!(scan.limited);
    assert_eq!(scan.resources.len(), MAX_RESTART_MANAGER_RESOURCES);
}

#[test]
fn scripts_hold_quoted_roots() {
    let script = explorer_cleanup_script("E:\\");
    assert!(script.starts_with(
        "\n$ErrorActionPreference = 'Stop'\n$root = 'E:\\'\n$altRoot = 'E:/'\nfunction Clean"
    ));
    assert!(script.contains("Write-Output (\"0`texplorer.exe`t{0}`tclosed Explorer window\""));
    let script = process_cleanup_script("E:\\it's");
    assert!(script.starts_with(
        "\n$ErrorActionPreference = 'Stop'\n$root = 'E:\\it''s'\n$altRoot = 'E:/it''s'\n$currentPid"
    ));
    assert!(script.contains("$status = 'terminated'"));
    let script = shell_eject_script("E:\\");
    assert!(script.starts_with(
        "\n$ErrorActionPreference = 'Stop'\n$root = 'E:\\'\n$drive = 'E:'\n$shell ="
    ));
    assert!(script.contains("'Eject|Safely Remove|Uitwerpen|Éjecter|Auswerfen'"));
    let script = elevation_script("C:\\a'b.exe", "E:\\", "C:\\out.txt");
    assert!(script.contains(
        "$exe = 'C:\\a''b.exe'\n$root = 'E:'\n$out = 'C:\\out.txt'\n$args = @('--usb-eject-helper', $root, $out)"
    ));
    assert_eq!(trim_end_backslashes("E:\\\\\\"), "E:");
    assert_eq!(trim_end_backslashes("\\"), "");
}
