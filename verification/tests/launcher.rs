use std::path::PathBuf;

use printltools::app::appearance::{
    color_css, drive_select_handler, full_repaint_marker, hides_drives, next_repaint_frames,
    result_level_label, result_panel_class, slide_handler, slide_options, toggle_label,
    tool_accent_base, tool_button_variant_class, tool_handler, tool_icon_class, tool_status_label,
    Rgb,
};
use printltools::app::icons::{icon_app_brand, icon_folder, icon_pdf_document, icon_usb};
use printltools::app::markup::{AccentPart, Markup, UiToken};
use printltools::app::profile::{
    format_element_path, profile_file_name, ElementPath, FrameProfile, FrameStats, Interaction,
    PROFILE_HEADER,
};
use printltools::app::reports::{
    eject_method_label, format_process_action, merge_pdfs_result, run_page_counter,
    usb_eject_result,
};
use printltools::app::views::view;
use printltools::app::{
    gather_messages, Effect, Message, PrintLTools, Screen, Step, UiCommand,
};
use printltools::page_counter::{FileNote, PageCountSummary, PageCounterOptions};
use printltools::pdf::PdfMergeSummary;
use printltools::registry::{all_tools, ToolId, ToolStatus};
use printltools::results::{display_path, display_paths, ResultLevel, ToolResult};
use printltools::tray::TrayEvent;
use printltools::usb::{DriveInfo, DriveKind, EjectMethod, ProcessAction, UsbEjectSummary};

fn started() -> PrintLTools {
    PrintLTools::new(Ok(()))
}

fn drive(letter: &str) -> DriveInfo {
    DriveInfo {
        root: format!("{letter}\\"),
        letter: letter.to_string(),
        label: String::new(),
        drive_type: DriveKind::Removable,
        total_bytes: None,
        free_bytes: None,
    }
}

fn quiet(step: Step) -> bool {
    assert!(matches!(step.effect, Effect::Nothing));
    step.changed
}

fn report(state: &PrintLTools) -> (ResultLevel, String, String, Vec<String>) {
    let result = state.last_result.as_ref().expect("a report");
    (
        result.level,
        result.title.clone(),
        result.summary.clone(),
        result.details.clone(),
    )
}

#[test]
fn tools_are_offered_once_each() {
    let tools = all_tools();
    assert_eq!(
        tools.iter().map(|tool| tool.id).collect::<Vec<_>>(),
        vec![ToolId::FolderPageCounter, ToolId::UsbSafeEject, ToolId::PdfJoiner]
    );
    assert!(tools.iter().all(|tool| tool.status == ToolStatus::Ready));
    assert_eq!(tools[0].name, "Folder page counter");
    assert_eq!(tools[1].short_name, "USB eject");
    assert_eq!(tools[2].description, "Select PDF files and prepare a merged output.");
}

#[test]
fn results_have_levels() {
    let details = || vec!["d".to_string()];
    assert_eq!(ToolResult::info("t", "s", details()).level, ResultLevel::Info);
    assert_eq!(ToolResult::warning("t", "s", details()).level, ResultLevel::Warning);
    let error = ToolResult::error("t", "s", details());
    assert_eq!(error.level, ResultLevel::Error);
    assert_eq!((error.title, error.summary, error.details), ("t".to_string(), "s".to_string(), details()));
}

#[test]
fn paths_are_shown_as_texts() {
    assert_eq!(display_path(&PathBuf::from("a/b c")), "a/b c");
    assert_eq!(
        display_paths(&vec![PathBuf::from("x"), PathBuf::from("é")]),
        vec!["x".to_string(), "é".to_string()]
    );
}

#[test]
fn launcher_starts_with_defaults() {
    let state = started();
    assert_eq!(state.screen, Screen::Launcher);
    assert!(!state.include_subfolders);
    assert!(state.remember_last_folders);
    assert!(state.open_launcher_on_tray_click);
    assert_eq!(state.powerpoint_slides_per_page, 4);
    assert!(state.tray_available);
    assert!(state.last_result.is_none());
}

#[test]
fn missing_tray_is_reported_at_the_start() {
    let mut state = PrintLTools::new(Err("no tray".to_string()));
    assert_eq!(state.screen, Screen::ShowResult);
    assert_eq!(
        report(&state),
        (
            ResultLevel::Warning,
            "Tray integration".to_string(),
            "The app started, but the Windows tray icon could not be initialized.".to_string(),
            vec!["no tray".to_string()],
        )
    );
    assert!(quiet(state.handle_message(Message::Minimize)));
    assert_eq!(
        report(&state).2,
        "The app could not be minimized because tray integration is unavailable."
    );
}

#[test]
fn minimizing_hides_the_window() {
    let mut state = started();
    let step = state.handle_message(Message::Minimize);
    assert!(matches!(step.effect, Effect::HideWindow));
    assert!(!step.changed);
    assert!(!state.finish_hide(Ok(())));
    assert_eq!(state.screen, Screen::Launcher);
    assert!(state.finish_hide(Err("stuck".to_string())));
    assert_eq!(
        report(&state),
        (
            ResultLevel::Warning,
            "Minimize to tray".to_string(),
            "The app could not hide its window.".to_string(),
            vec!["stuck".to_string()],
        )
    );
}

#[test]
fn tray_events_are_handled() {
    let mut state = started();
    assert!(quiet(state.handle_message(Message::Tray(TrayEvent::OpenSettings))));
    assert_eq!(state.screen, Screen::Settings);
    assert!(quiet(state.handle_message(Message::Tray(TrayEvent::OpenLauncher))));
    assert_eq!(state.screen, Screen::Launcher);
    state.handle_message(Message::ToggleOpenOnTrayClick);
    state.handle_message(Message::OpenSettings);
    assert!(!quiet(state.handle_message(Message::Tray(TrayEvent::OpenLauncher))));
    assert_eq!(state.screen, Screen::Settings);
    let step = state.handle_message(Message::Tray(TrayEvent::HideLauncher));
    assert!(matches!(step.effect, Effect::HideWindow));
    assert!(quiet(state.handle_message(Message::Tray(TrayEvent::Error("e".to_string())))));
    assert_eq!(
        report(&state),
        (
            ResultLevel::Error,
            "Tray integration".to_string(),
            "The app is running, but the Windows tray icon could not be initialized.".to_string(),
            vec!["e".to_string()],
        )
    );
}

#[test]
fn page_count_is_prompted_and_runs_once() {
    let mut state = started();
    let step = state.handle_message(Message::ToolPressed(ToolId::FolderPageCounter));
    assert!(matches!(step.effect, Effect::PickFolder));
    state.handle_message(Message::ToggleIncludeSubfolders);
    assert!(quiet(state.handle_message(Message::FolderPicked(Some(PathBuf::from("docs"))))));
    assert_eq!(state.screen, Screen::PageCounterPrompt);
    state.handle_message(Message::ToggleIncludeSubfolders);
    state.handle_message(Message::PowerPointSlidesPerPageChanged(6));
    let step = state.handle_message(Message::RunPendingPageCounter);
    assert!(step.changed);
    match step.effect {
        Effect::CountPages(options) => assert_eq!(
            options,
            PageCounterOptions {
                folder: PathBuf::from("docs"),
                include_subfolders: true,
                powerpoint_slides_per_page: 6,
            }
        ),
        _ => panic!("the pages are to be counted"),
    }
    assert_eq!(state.screen, Screen::Processing);
    assert_eq!(state.processing_title.as_deref(), Some("Counting pages"));
    assert!(!quiet(state.handle_message(Message::RunPendingPageCounter)));
    assert!(!state.finish_spawn(Ok(())));
    let done = ToolResult::info("t", "s", Vec::new());
    assert!(quiet(state.handle_message(Message::PageCounterFinished(done))));
    assert_eq!(state.screen, Screen::ShowResult);
    assert_eq!(state.processing_title, None);
}

#[test]
fn canceled_dialogs_are_reported() {
    let mut state = started();
    assert!(quiet(state.handle_message(Message::FolderPicked(None))));
    assert_eq!(report(&state).2, "Folder selection was canceled.");
    assert_eq!(state.screen, Screen::Launcher);
    assert!(quiet(state.handle_message(Message::PdfFilesPicked(None))));
    assert_eq!(report(&state).2, "PDF selection was canceled.");
    assert_eq!(state.screen, Screen::Launcher);
    assert!(quiet(state.handle_message(Message::PdfFilesPicked(Some(Vec::new())))));
    assert_eq!(report(&state).0, ResultLevel::Warning);
    assert_eq!(report(&state).2, "No PDF files were selected.");
    let files = vec![PathBuf::from("a")];
    assert!(quiet(state.handle_message(Message::PdfOutputPicked(files, None))));
    assert_eq!(report(&state).2, "Output selection was canceled.");
    assert!(quiet(state.handle_message(Message::DismissResult)));
    assert_eq!(state.screen, Screen::Launcher);
    assert!(state.last_result.is_none());
}

#[test]
fn picked_pdfs_are_joined() {
    let mut state = started();
    let step = state.handle_message(Message::ToolPressed(ToolId::PdfJoiner));
    assert!(matches!(step.effect, Effect::PickPdfFiles));
    let files = vec![PathBuf::from("a"), PathBuf::from("b")];
    let step = state.handle_message(Message::PdfFilesPicked(Some(files.clone())));
    assert!(!step.changed);
    match step.effect {
        Effect::PickPdfOutput(picked) => assert_eq!(picked, files),
        _ => panic!("the output is to be picked"),
    }
    let output = PathBuf::from("c");
    let step = state.handle_message(Message::PdfOutputPicked(files.clone(), Some(output.clone())));
    match step.effect {
        Effect::MergePdfs(inputs, target) => assert_eq!((inputs, target), (files, output)),
        _ => panic!("the files are to be joined"),
    }
    assert_eq!(state.processing_detail.as_deref(), Some("Merging 2 selected PDF files."));
    assert!(state.finish_spawn(Err("no thread".to_string())));
    assert_eq!(
        report(&state),
        (
            ResultLevel::Error,
            "Background task".to_string(),
            "The operation could not start.".to_string(),
            vec!["Error: no thread".to_string()],
        )
    );
}

#[test]
fn listed_drives_are_chosen_by_index() {
    let mut state = started();
    let step = state.handle_message(Message::ToolPressed(ToolId::UsbSafeEject));
    assert!(matches!(step.effect, Effect::ListDrives));
    assert_eq!(state.screen, Screen::Processing);
    assert_eq!(state.processing_title.as_deref(), Some("Loading drives"));
    let drives = vec![drive("E:"), drive("F:")];
    assert!(quiet(state.handle_message(Message::UsbDrivesLoaded(Ok(drives)))));
    assert_eq!(state.screen, Screen::UsbDriveSelect);
    assert_eq!(state.processing_title, None);
    let step = state.handle_message(Message::UsbDriveSelected(1));
    match step.effect {
        Effect::EjectDrive(chosen) => assert_eq!(chosen, drive("F:")),
        _ => panic!("the drive is to be ejected"),
    }
    assert_eq!(
        state.processing_detail.as_deref(),
        Some("Closing processes and ejecting F:.")
    );
    let done = ToolResult::info("t", "s", Vec::new());
    state.handle_message(Message::UsbEjectFinished(done));
    assert!(state.usb_drives.is_empty());
    assert!(quiet(state.handle_message(Message::UsbDriveSelected(0))));
    assert_eq!(report(&state).2, "The selected drive is no longer available.");
}

#[test]
fn missing_drives_are_reported() {
    let mut state = started();
    state.handle_message(Message::UsbDrivesLoaded(Ok(Vec::new())));
    assert_eq!(report(&state).2, "No eligible removable drives were found.");
    state.handle_message(Message::UsbDrivesLoaded(Err("x".to_string())));
    assert_eq!(
        report(&state),
        (
            ResultLevel::Error,
            "USB safe eject".to_string(),
            "Drive scan failed.".to_string(),
            vec!["Error: x".to_string()],
        )
    );
}

#[test]
fn canceling_drops_what_is_pending() {
    let mut state = started();
    state.handle_message(Message::FolderPicked(Some(PathBuf::from("docs"))));
    state.handle_message(Message::UsbDrivesLoaded(Ok(vec![drive("E:")])));
    assert!(quiet(state.handle_message(Message::CancelPendingTool)));
    assert_eq!(state.screen, Screen::Launcher);
    assert_eq!(state.page_counter_prompt, None);
    assert!(state.usb_drives.is_empty());
}

#[test]
fn messages_keep_their_order() {
    let messages = gather_messages(
        vec![TrayEvent::OpenSettings],
        vec![Message::FolderPicked(None)],
        &vec![UiCommand::Minimize, UiCommand::UsbDriveSelected(3)],
    );
    assert_eq!(messages.len(), 4);
    assert!(matches!(messages[0], Message::Tray(TrayEvent::OpenSettings)));
    assert!(matches!(messages[1], Message::FolderPicked(None)));
    assert!(matches!(messages[2], Message::Minimize));
    assert!(matches!(messages[3], Message::UsbDriveSelected(3)));
    assert!(matches!(
        Message::from(UiCommand::ToolPressed(ToolId::PdfJoiner)),
        Message::ToolPressed(ToolId::PdfJoiner)
    ));
}

#[test]
fn joins_are_reported() {
    let files = vec![PathBuf::from("a.pdf"), PathBuf::from("b.pdf")];
    let output = PathBuf::from("o.pdf");
    let done = merge_pdfs_result(
        &files,
        &output,
        Ok(PdfMergeSummary {
            output_path: output.clone(),
            input_count: 2,
            total_pages: 5,
        }),
    );
    assert_eq!(done.level, ResultLevel::Info);
    assert_eq!(done.details, vec!["Output: o.pdf", "Input files: 2", "Total pages: 5"]);
    let failed = merge_pdfs_result(&files, &output, Err("torn".to_string()));
    assert_eq!(failed.level, ResultLevel::Error);
    assert_eq!(failed.summary, "PDF merge failed.");
    assert_eq!(
        failed.details,
        vec!["Output: o.pdf", "Input files: 2", "a.pdf", "b.pdf", "Error: torn"]
    );
}

fn eject_summary() -> UsbEjectSummary {
    UsbEjectSummary {
        drive: drive("E:"),
        resources_registered: 12,
        resource_scan_limited: true,
        restart_manager_processes: vec![ProcessAction {
            pid: 4,
            name: "a".to_string(),
            path: None,
            action: "closed".to_string(),
        }],
        process_scan_actions: vec![ProcessAction {
            pid: 5,
            name: "b".to_string(),
            path: Some("p".to_string()),
            action: "terminated".to_string(),
        }],
        notes: vec!["n".to_string()],
        ejected: true,
        admin_required: false,
        eject_method: EjectMethod::Shell,
    }
}

#[test]
fn ejects_are_reported() {
    let done = usb_eject_result(Ok(eject_summary()));
    assert_eq!(done.level, ResultLevel::Info);
    assert_eq!(done.summary, "Windows accepted the eject request.");
    assert_eq!(
        done.details,
        vec![
            "Drive: E: Untitled - unknown total, unknown free (removable)",
            "Restart Manager resources registered: 12",
            "Restart Manager processes affected: 1",
            "Process scan actions: 1",
            "Administrator rights required: no",
            "Eject method: Windows Shell eject",
            "Resource scan hit its limit before every file on the drive was registered.",
            "Restart Manager: PID 4 a - closed (path unavailable)",
            "Process scan: PID 5 b - terminated (p)",
            "Note: n",
        ]
    );
    let mut summary = eject_summary();
    summary.ejected = false;
    summary.resource_scan_limited = false;
    summary.eject_method = EjectMethod::NotEjected;
    let mounted = usb_eject_result(Ok(summary));
    assert_eq!(mounted.level, ResultLevel::Warning);
    assert_eq!(
        mounted.summary,
        "Processes were handled, but Windows still reports the drive as mounted."
    );
    assert_eq!(mounted.details[5], "Eject method: none");
    assert_eq!(mounted.details.len(), 9);
    let mut summary = eject_summary();
    summary.eject_method = EjectMethod::Mountvol;
    assert_eq!(
        usb_eject_result(Ok(summary)).summary,
        "The volume was dismounted with mountvol, but Windows Shell safe eject was not confirmed."
    );
    let mut summary = eject_summary();
    summary.admin_required = true;
    assert_eq!(
        usb_eject_result(Ok(summary)).summary,
        "Administrator rights are required before this drive can be safely inspected."
    );
    let failed = usb_eject_result(Err("no".to_string()));
    assert_eq!(failed.level, ResultLevel::Error);
    assert_eq!(failed.details, vec!["Error: no"]);
    assert_eq!(eject_method_label(EjectMethod::Mountvol), "mountvol /p dismount");
    assert_eq!(
        format_process_action("S", &eject_summary().process_scan_actions[0]),
        "S: PID 5 b - terminated (p)"
    );
}

#[test]
fn counts_are_reported() {
    let note = |path: &str| FileNote {
        path: PathBuf::from(path),
        reason: "why".to_string(),
    };
    let done = run_page_counter(Ok(PageCountSummary {
        folder: PathBuf::from("f"),
        include_subfolders: true,
        powerpoint_slides_per_page: 4,
        total_pages: 20,
        counted_files: 3,
        pdf_files: 2,
        document_files: 2,
        word_counted_files: 1,
        libreoffice_fallback_files: 1,
        skipped_files: vec![note("s")],
        failed_files: vec![note("x")],
    }));
    assert_eq!(done.level, ResultLevel::Info);
    assert_eq!(done.summary, "Total counted pages: 20");
    assert_eq!(
        done.details,
        vec![
            "Folder: f",
            "Include subfolders: yes",
            "PowerPoint slides per printed page: 4",
            "Counted files: 3",
            "PDF files discovered: 2",
            "Document files discovered: 2",
            "Microsoft Word files counted: 1",
            "LibreOffice fallback files counted: 1",
            "Skipped files: 1",
            "Failed files: 1",
            "Skipped: s (why)",
            "Failed: x (why)",
        ]
    );
    let failed = run_page_counter(Err("Could not read folder f: x".to_string()));
    assert_eq!(failed.summary, "Page counting could not start.");
    assert_eq!(failed.details, vec!["Could not read folder f: x"]);
}

#[test]
fn full_repaint_marker_changes_the_root_surface_style() {
    let background = Some(Rgb {
        r: 224,
        g: 239,
        b: 247,
    });
    let marked = Rgb {
        r: 224,
        g: 239,
        b: 246,
    };

    assert_eq!(full_repaint_marker(background), marked);
    assert_eq!(full_repaint_marker(None), marked);
    for b in 0..=255u8 {
        let colour = Rgb { r: 1, g: 2, b };
        let marked = full_repaint_marker(Some(colour));
        assert_eq!(marked, Rgb { b: b ^ 1, ..colour });
        assert_eq!(full_repaint_marker(Some(marked)), colour);
    }
}

#[test]
fn repaint_frames_run_down() {
    assert_eq!(next_repaint_frames(0, 0), 0);
    assert_eq!(next_repaint_frames(3, 0), 2);
    assert_eq!(next_repaint_frames(1, 1), 1);
    assert_eq!(next_repaint_frames(9, 1), 8);
}

#[test]
fn controls_have_names_and_commands() {
    assert_eq!(tool_button_variant_class(ToolId::UsbSafeEject), "tool-usb");
    assert_eq!(tool_icon_class(ToolId::PdfJoiner), "pdf");
    assert_eq!(
        tool_accent_base(ToolId::FolderPageCounter),
        Rgb {
            r: 34,
            g: 135,
            b: 214
        }
    );
    assert_eq!(color_css(tool_accent_base(ToolId::UsbSafeEject)), "rgb(30, 180, 132)");
    assert_eq!(tool_status_label(ToolStatus::Planned), "Planned");
    assert_eq!(result_panel_class(ResultLevel::Warning), "result-panel-warning");
    assert_eq!(result_level_label(ResultLevel::Error), "Error");
    assert_eq!(toggle_label(true), "ON");
    assert_eq!(tool_handler(ToolId::PdfJoiner), UiCommand::ToolPressed(ToolId::PdfJoiner));
    assert_eq!(slide_options(), vec![1, 2, 3, 4, 6, 9]);
    for value in slide_options() {
        assert_eq!(slide_handler(value), UiCommand::PowerPointSlidesPerPageChanged(value));
    }
    assert_eq!(slide_handler(5), UiCommand::PowerPointSlidesPerPageChanged(4));
    assert_eq!(drive_select_handler(15), Some(UiCommand::UsbDriveSelected(15)));
    assert_eq!(drive_select_handler(16), None);
    assert!(!hides_drives(16));
    assert!(hides_drives(17));
}

fn path(root: usize, children: &[usize]) -> Option<ElementPath> {
    Some(ElementPath {
        root,
        children: children.to_vec(),
    })
}

fn frame() -> FrameStats {
    FrameStats {
        elapsed_ms: 1,
        frame_index: 2,
        delta_us: 3,
        view_us: 4,
        render_tree_us: 5,
        scene_swap_us: 6,
        transition_us: 7,
        structural_update_us: 8,
        interaction_us: 9,
        style_resolution_us: 10,
        layout_sync_us: 11,
        render_extraction_us: 12,
        rerendered: true,
        transition_active: false,
        update_us: 13,
        scene_prep_us: 14,
        paint_us: 15,
        present_us: 16,
        total_us: 17,
        render_workers: 18,
        dirty_regions: 19,
        dirty_jobs: 20,
        damage_pixels: 21,
        painted_pixels: 22,
        scene_passes: 23,
        paint_mode: "Full".to_string(),
        paint_reason: "Resize".to_string(),
    }
}

#[test]
fn frames_become_rows() {
    assert_eq!(format_element_path(&None), "");
    assert_eq!(format_element_path(&path(3, &[])), "3");
    assert_eq!(format_element_path(&path(3, &[0, 12])), "3.0.12");

    let mut profile = FrameProfile::new();
    profile.record_interaction(Interaction {
        hovered: None,
        active: None,
    });
    assert!(!profile.interaction_changed);
    profile.record_interaction(Interaction {
        hovered: path(0, &[1]),
        active: None,
    });
    assert!(profile.interaction_changed);
    assert_eq!(
        profile.frame_row(frame()),
        "0,1,2,3,0.1,,true,4,5,6,7,8,9,10,11,12,true,false,13,14,15,16,17,18,19,20,21,22,23,Full,Resize"
    );
    assert!(!profile.interaction_changed);
    profile.record_interaction(Interaction {
        hovered: path(0, &[1]),
        active: None,
    });
    assert!(!profile.interaction_changed);
    assert_eq!(
        profile.frame_row(frame()).split(',').count(),
        PROFILE_HEADER.split(',').count()
    );
    let flushes: Vec<u64> = (1..=180).filter(|_| profile.row_written()).collect();
    assert_eq!(flushes, vec![60, 120, 180]);
    assert_eq!(profile.sample_index, 180);
    profile.sample_index = u64::MAX;
    profile.row_written();
    assert_eq!(profile.sample_index, u64::MAX);
    assert_eq!(profile_file_name(77), "printltools-frame-profile-77.csv");
}

fn texts(state: &PrintLTools) -> Vec<String> {
    let mut texts = Vec::new();
    for token in view(state).tokens {
        if let UiToken::Text(text) = token {
            texts.push(text);
        }
    }
    texts
}

fn commands(state: &PrintLTools) -> Vec<UiCommand> {
    let mut commands = Vec::new();
    for token in view(state).tokens {
        if let UiToken::Command(command) = token {
            commands.push(command);
        }
    }
    commands
}

fn opened_and_closed(state: &PrintLTools) {
    let mut depth = 0;
    let tokens = view(state).tokens;
    let count = tokens.len();
    for (i, token) in tokens.into_iter().enumerate() {
        match token {
            UiToken::Open(_) => depth += 1,
            UiToken::Close => {
                depth -= 1;
                assert!(depth > 0 || i == count - 1);
            }
            _ => {}
        }
    }
    assert_eq!(depth, 0);
}

#[test]
fn topbar_minimizes_and_does_not_quit() {
    let state = started();
    let shown = texts(&state);
    assert!(shown.contains(&"Minimize".to_string()));
    assert!(!shown.contains(&"Quit".to_string()));
    assert_eq!(
        commands(&state),
        vec![
            UiCommand::OpenLauncher,
            UiCommand::OpenSettings,
            UiCommand::Minimize,
            UiCommand::ToolPressed(ToolId::FolderPageCounter),
            UiCommand::ToolPressed(ToolId::UsbSafeEject),
            UiCommand::ToolPressed(ToolId::PdfJoiner),
            UiCommand::ToggleIncludeSubfolders,
        ]
    );
    opened_and_closed(&state);
}

#[test]
fn screens_show_their_state() {
    let mut state = started();
    state.handle_message(Message::OpenSettings);
    assert!(texts(&state).contains(&"Remember last folders".to_string()));
    opened_and_closed(&state);

    state.handle_message(Message::FolderPicked(Some(PathBuf::from("docs"))));
    let shown = texts(&state);
    assert!(shown.contains(&"Folder: docs".to_string()));
    assert!(shown.contains(&"Include subfolders: no".to_string()));
    let options: Vec<UiCommand> = commands(&state)
        .into_iter()
        .filter(|command| matches!(command, UiCommand::PowerPointSlidesPerPageChanged(_)))
        .collect();
    assert_eq!(options.len(), 6);
    opened_and_closed(&state);

    state.handle_message(Message::RunPendingPageCounter);
    assert!(texts(&state).contains(&"Counting pages".to_string()));
    opened_and_closed(&state);

    let result = ToolResult::warning("Title", "Summary", vec!["one".to_string(), "two".to_string()]);
    state.handle_message(Message::PageCounterFinished(result));
    let shown = texts(&state);
    for text in ["Warning", "Title", "Summary", "one", "two", "Keep result"] {
        assert!(shown.contains(&text.to_string()));
    }
    opened_and_closed(&state);

    state.handle_message(Message::OpenLauncher);
    assert!(texts(&state).contains(&"Dismiss".to_string()));
    opened_and_closed(&state);

    state.last_result = None;
    state.screen = Screen::ShowResult;
    assert!(texts(&state).contains(&"No result".to_string()));
    state.screen = Screen::PageCounterPrompt;
    assert!(texts(&state).contains(&"No folder selected".to_string()));
    state.screen = Screen::Processing;
    assert!(texts(&state).contains(&"Processing".to_string()));
    state.record_result(ToolResult::info("t", "s", Vec::new()));
    assert!(texts(&state).contains(&"No additional details.".to_string()));
}

#[test]
fn only_the_first_drives_have_buttons() {
    let mut state = started();
    let drives: Vec<DriveInfo> = (0..18).map(|n| drive(&format!("{n}:"))).collect();
    state.handle_message(Message::UsbDrivesLoaded(Ok(drives)));
    let chosen: Vec<UiCommand> = commands(&state)
        .into_iter()
        .filter(|command| matches!(command, UiCommand::UsbDriveSelected(_)))
        .collect();
    let expected: Vec<UiCommand> = (0..16).map(UiCommand::UsbDriveSelected).collect();
    assert_eq!(chosen, expected);
    assert!(texts(&state).contains(&"Only the first 16 detected drives are shown.".to_string()));
    opened_and_closed(&state);

    state.handle_message(Message::UsbDrivesLoaded(Ok(vec![drive("E:")])));
    let shown = texts(&state);
    assert!(shown.contains(&"Root: E:\\".to_string()));
    assert!(!shown.contains(&"Only the first 16 detected drives are shown.".to_string()));
}

#[test]
fn tool_icons_use_their_accents() {
    let tokens = view(&started()).tokens;
    let mut stops = Vec::new();
    for token in tokens {
        if let UiToken::StopColour(tool, part) = token {
            stops.push((tool, part));
        }
    }
    assert_eq!(stops.len(), 18);
    assert_eq!(stops[0], (ToolId::FolderPageCounter, AccentPart::Shadow));
    assert_eq!(stops[9], (ToolId::UsbSafeEject, AccentPart::Saturated));
    assert_eq!(stops[17], (ToolId::PdfJoiner, AccentPart::End));
}

struct DrawnPath {
    data: String,
    fill: String,
    stroke: String,
    width: String,
}

fn drawn(draw: fn(&mut Markup)) -> (Vec<&'static str>, Vec<AccentPart>, Vec<DrawnPath>) {
    let mut markup = Markup::new();
    draw(&mut markup);
    let mut ids = Vec::new();
    let mut stops = Vec::new();
    let mut paths: Vec<DrawnPath> = Vec::new();
    for token in markup.tokens {
        match token {
            UiToken::Id(id) => ids.push(id),
            UiToken::StopColour(_, part) => stops.push(part),
            UiToken::Open("path") => paths.push(DrawnPath {
                data: String::new(),
                fill: String::new(),
                stroke: String::new(),
                width: String::new(),
            }),
            UiToken::Attribute(name, value) => {
                if let Some(path) = paths.last_mut() {
                    match name {
                        "d" => path.data = value,
                        "fill" => path.fill = value,
                        "stroke" => path.stroke = value,
                        "stroke-width" => path.width = value,
                        _ => {}
                    }
                }
            }
            _ => {}
        }
    }
    (ids, stops, paths)
}

fn accent_parts() -> Vec<AccentPart> {
    vec![
        AccentPart::Shadow,
        AccentPart::Body,
        AccentPart::Body,
        AccentPart::Saturated,
        AccentPart::Shifted,
        AccentPart::End,
    ]
}

#[test]
fn brand_icon_is_flat() {
    let (ids, stops, paths) = drawn(icon_app_brand);
    assert!(ids.is_empty());
    assert!(stops.is_empty());
    assert_eq!(paths.len(), 4);
    assert_eq!(paths[0].fill, "rgb(20, 106, 158)");
    assert_eq!(paths[0].stroke, "none");
    for path in &paths[1..] {
        assert_eq!(path.fill, "none");
        assert_eq!(path.stroke, "rgb(255, 255, 255)");
    }
}

#[test]
fn folder_icon_is_drawn_in_its_accent() {
    let (ids, stops, paths) = drawn(icon_folder);
    assert_eq!(ids, vec!["folder-accent-gradient"]);
    assert_eq!(stops, accent_parts());
    assert_eq!(paths.len(), 2);
    for path in &paths {
        assert_eq!(path.fill, "none");
        assert_eq!(path.stroke, "url(#folder-accent-gradient)");
        assert_eq!(path.width, "1.15");
    }
}

#[test]
fn usb_icon_is_filled_with_its_accent() {
    let (ids, stops, paths) = drawn(icon_usb);
    assert_eq!(ids, vec!["usb-accent-gradient"]);
    assert_eq!(stops, accent_parts());
    assert_eq!(paths.len(), 4);
    for path in &paths {
        assert_eq!(path.stroke, "none");
        assert_eq!(path.fill, "url(#usb-accent-gradient)");
        assert!(path.data.starts_with('M') && path.data.ends_with('Z'));
    }
}

#[test]
fn pdf_icon_has_a_filled_badge() {
    let (ids, stops, paths) = drawn(icon_pdf_document);
    assert_eq!(ids, vec!["pdf-accent-gradient"]);
    assert_eq!(stops, accent_parts());
    assert_eq!(paths.len(), 3);
    for path in &paths[0..2] {
        assert_eq!(path.fill, "none");
        assert_eq!(path.stroke, "url(#pdf-accent-gradient)");
        assert_eq!(path.width, "1.35");
    }
    assert_eq!(paths[2].fill, "url(#pdf-accent-gradient)");
    assert_eq!(paths[2].stroke, "none");
    assert!(paths[2].data.matches('M').count() >= 6);
}
