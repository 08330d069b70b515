//! The launcher acts on what was chosen.

use crate::app::{
    command_message, frame_messages, started, Effect, EffectView, Message, MessageView, PageCounterPrompt,
    PrintLTools, Screen, StateView, UiCommand,
};
use crate::page_counter::PageCounterOptions;
use crate::registry::ToolId;
use crate::results::{ResultLevel, ResultView};
use crate::tray::{is_duplicate, TrayEvent, TrayView};
use crate::usb::{DriveInfo, DriveView};
use crate::window_control::edge_position;
use std::path::PathBuf;
use vstd::prelude::*;
use vstd::string::*;

verus! {

/// Whether two states have the same settings: the choices that the user made and
/// whether there is a tray.
pub open spec fn same_settings(a: StateView, b: StateView) -> bool {
    &&& a.include_subfolders == b.include_subfolders
    &&& a.remember_last_folders == b.remember_last_folders
    &&& a.open_launcher_on_tray_click == b.open_launcher_on_tray_click
    &&& a.powerpoint_slides_per_page == b.powerpoint_slides_per_page
    &&& a.tray_available == b.tray_available
}

/// The drives that a message brought are the ones that can be chosen, and choosing
/// one asks for that one to be ejected, and names it.
pub proof fn the_chosen_drive_is_ejected(
    state: StateView,
    drives: Seq<DriveView>,
    index: usize,
)
    requires
        index < drives.len(),
    ensures
        ({
            let shown = state.after(MessageView::UsbDrivesLoaded(Ok(drives))).state;
            let chosen = shown.after(MessageView::UsbDriveSelected(index));
            &&& shown.screen == Screen::UsbDriveSelect
            &&& shown.usb_drives == drives
            &&& chosen.effect == EffectView::EjectDrive(drives[index as int])
            &&& chosen.changed
            &&& chosen.state.screen == Screen::Processing
            &&& chosen.state.processing_title == Some("Preparing USB eject"@)
            &&& chosen.state.processing_detail == Some(
                "Closing processes and ejecting "@ + drives[index as int].letter + "."@,
            )
        }),
{
}

/// In every state, choosing a drive ejects the drive at that place in the list, and
/// no other choice ejects anything.
pub proof fn drives_are_ejected_only_by_choice(state: StateView, message: MessageView)
    ensures
        match message {
            MessageView::UsbDriveSelected(index) => if index < state.usb_drives.len() {
                state.after(message).effect == EffectView::EjectDrive(
                    state.usb_drives[index as int],
                )
            } else {
                state.after(message).effect is Nothing && state.after(message).state.screen
                    == Screen::ShowResult && state.after(message).state.last_result->0.level
                    == ResultLevel::Warning
            },
            _ => !(state.after(message).effect is EjectDrive),
        },
{
}

/// Where no drive was found, or the search failed, nothing can be chosen, and the
/// launcher says so.
pub proof fn without_drives_there_is_no_choice(state: StateView, error: Seq<char>)
    ensures
        ({
            let none = state.after(MessageView::UsbDrivesLoaded(Ok(Seq::empty())));
            let failed = state.after(MessageView::UsbDrivesLoaded(Err(error)));
            &&& none.effect is Nothing
            &&& none.state.screen == Screen::ShowResult
            &&& none.state.usb_drives.len() == 0
            &&& none.state.last_result->0.level == ResultLevel::Warning
            &&& failed.effect is Nothing
            &&& failed.state.screen == Screen::ShowResult
            &&& failed.state.usb_drives.len() == 0
            &&& failed.state.last_result->0.level == ResultLevel::Error
            &&& failed.state.last_result->0.details == seq!["Error: "@ + error]
        }),
{
}

/// The files that were picked, all of them and in their order, are joined into the
/// file that was picked for the output.
pub proof fn the_picked_files_are_joined(
    state: StateView,
    files: Seq<PathBuf>,
    output: PathBuf,
)
    requires
        files.len() > 0,
    ensures
        state.after(MessageView::ToolPressed(ToolId::PdfJoiner)).effect is PickPdfFiles,
        state.after(MessageView::PdfFilesPicked(Some(files))).effect == EffectView::PickPdfOutput(
            files,
        ),
        state.after(MessageView::PdfOutputPicked(files, Some(output))).effect
            == EffectView::MergePdfs(files, output),
        state.after(MessageView::PdfOutputPicked(files, Some(output))).state.screen
            == Screen::Processing,
{
}

/// Files are joined only once an output was picked.
pub proof fn files_are_joined_only_into_a_picked_output(state: StateView, message: MessageView)
    ensures
        state.after(message).effect is MergePdfs <==> message is PdfOutputPicked
            && message->PdfOutputPicked_1 is Some,
        state.after(message).effect is PickPdfOutput <==> message is PdfFilesPicked
            && message->PdfFilesPicked_0 is Some && message->PdfFilesPicked_0->0.len() > 0,
{
}

/// The folder that was picked is shown with the choice of subfolders as it stands,
/// and is counted once that is confirmed, with that choice and the slides on a page
/// as they stand then.
pub proof fn the_picked_folder_is_counted(
    state: StateView,
    folder: PathBuf,
    slides: u32,
)
    ensures
        state.after(MessageView::ToolPressed(ToolId::FolderPageCounter)).effect is PickFolder,
        ({
            let prompted = state.after(MessageView::FolderPicked(Some(folder)));
            let changed = prompted.state.after(MessageView::PowerPointSlidesPerPageChanged(slides));
            let run = changed.state.after(MessageView::RunPendingPageCounter);
            &&& prompted.effect is Nothing
            &&& prompted.state.screen == Screen::PageCounterPrompt
            &&& prompted.state.page_counter_prompt == Some(
                PageCounterPrompt { folder, include_subfolders: state.include_subfolders },
            )
            &&& changed.state.screen == Screen::PageCounterPrompt
            &&& run.effect == EffectView::CountPages(
                PageCounterOptions {
                    folder,
                    include_subfolders: state.include_subfolders,
                    powerpoint_slides_per_page: slides,
                },
            )
            &&& run.state.screen == Screen::Processing
            &&& run.state.page_counter_prompt is None
        }),
{
}

/// Pages are counted exactly where a count that waits is confirmed.
pub proof fn only_confirmed_folders_are_counted(state: StateView, message: MessageView)
    ensures
        state.after(message).effect is CountPages <==> message is RunPendingPageCounter
            && state.page_counter_prompt is Some,
{
}

/// What a tool reports is shown as it is, and nothing stays pending.
pub proof fn reports_are_shown(state: StateView, result: ResultView)
    ensures
        ({
            let shown = state.after(MessageView::Finished(result));
            &&& shown.effect is Nothing
            &&& shown.changed
            &&& shown.state.screen == Screen::ShowResult
            &&& shown.state.last_result == Some(result)
            &&& shown.state.processing_title is None
            &&& shown.state.processing_detail is None
            &&& same_settings(shown.state, state)
            &&& shown.state.after(MessageView::OpenLauncher).state.last_result == Some(result)
            &&& shown.state.after(MessageView::DismissResult).state.last_result is None
            &&& shown.state.after(MessageView::DismissResult).state.screen == Screen::Launcher
        }),
{
}

/// A drive search is asked for by the tool that ejects drives, and each tool by its
/// own button only.
pub proof fn buttons_start_their_own_tools(state: StateView, message: MessageView)
    ensures
        state.after(message).effect is PickFolder <==> message == MessageView::ToolPressed(
            ToolId::FolderPageCounter,
        ),
        state.after(message).effect is ListDrives <==> message == MessageView::ToolPressed(
            ToolId::UsbSafeEject,
        ),
        state.after(message).effect is PickPdfFiles <==> message == MessageView::ToolPressed(
            ToolId::PdfJoiner,
        ),
{
}

/// A setting changes to what was chosen, and no other setting does.
pub proof fn settings_change_as_chosen(state: StateView, slides: u32)
    ensures
        ({
            let a = state.after(MessageView::ToggleIncludeSubfolders).state;
            let b = state.after(MessageView::ToggleRememberLastFolders).state;
            let c = state.after(MessageView::ToggleOpenOnTrayClick).state;
            let d = state.after(MessageView::PowerPointSlidesPerPageChanged(slides)).state;
            &&& a.include_subfolders != state.include_subfolders
            &&& b.remember_last_folders != state.remember_last_folders
            &&& c.open_launcher_on_tray_click != state.open_launcher_on_tray_click
            &&& d.powerpoint_slides_per_page == slides
            &&& a == (StateView { include_subfolders: a.include_subfolders, ..state })
            &&& b == (StateView { remember_last_folders: b.remember_last_folders, ..state })
            &&& c == (StateView {
                open_launcher_on_tray_click: c.open_launcher_on_tray_click,
                ..state
            })
            &&& d == (StateView { powerpoint_slides_per_page: slides, ..state })
        }),
{
}

/// Canceling drops all that is pending and leads back to the launcher.
pub proof fn canceling_drops_all_that_is_pending(state: StateView)
    ensures
        ({
            let left = state.after(MessageView::CancelPendingTool);
            &&& left.effect is Nothing
            &&& left.state.screen == Screen::Launcher
            &&& left.state.page_counter_prompt is None
            &&& left.state.usb_drives.len() == 0
            &&& left.state.processing_title is None
            &&& left.state.processing_detail is None
            &&& left.state.last_result == state.last_result
            &&& same_settings(left.state, state)
            &&& left.state.after(MessageView::RunPendingPageCounter).effect is Nothing
            &&& forall|index: usize| !(#[trigger] left.state.after(
                MessageView::UsbDriveSelected(index),
            ).effect is EjectDrive)
        }),
{
}

/// The window is hidden exactly where it is asked for and there is a tray to bring
/// it back from; where there is none, the user is told.
pub proof fn the_window_hides_only_into_a_tray(state: StateView, message: MessageView)
    ensures
        state.after(message).effect is HideWindow <==> state.tray_available && (
        message is Minimize || message == MessageView::Tray(TrayView::HideLauncher)),
        !state.tray_available && message is Minimize ==> state.after(message).state.screen
            == Screen::ShowResult && state.after(message).state.last_result is Some,
{
}

/// The tray opens the settings always, and the launcher where the user wants that.
pub proof fn the_tray_opens_what_it_says(state: StateView, error: Seq<char>)
    ensures
        state.after(MessageView::Tray(TrayView::OpenSettings)).state.screen == Screen::Settings,
        state.open_launcher_on_tray_click ==> state.after(
            MessageView::Tray(TrayView::OpenLauncher),
        ).state.screen == Screen::Launcher,
        !state.open_launcher_on_tray_click ==> state.after(
            MessageView::Tray(TrayView::OpenLauncher),
        ).state == state,
        state.after(MessageView::OpenLauncher).state == (StateView {
            screen: Screen::Launcher,
            ..state
        }),
        state.after(MessageView::OpenSettings).state == (StateView {
            screen: Screen::Settings,
            ..state
        }),
        state.after(MessageView::Tray(TrayView::Error(error))).state.last_result->0.level
            == ResultLevel::Error,
        state.after(MessageView::Tray(TrayView::Error(error))).state.last_result->0.details
            == seq![error],
{
}

/// A task that did not start and a window that did not hide are reported with the
/// reason; what went well changes nothing.
pub proof fn failed_effects_are_reported(state: StateView, error: Seq<char>)
    ensures
        state.after_spawn(Ok(())) == state,
        state.after_hide(Ok(())) == state,
        state.after_spawn(Err(error)).screen == Screen::ShowResult,
        state.after_spawn(Err(error)).last_result->0.level == ResultLevel::Error,
        state.after_spawn(Err(error)).last_result->0.details == seq!["Error: "@ + error],
        state.after_spawn(Err(error)).processing_title is None,
        state.after_hide(Err(error)).screen == Screen::ShowResult,
        state.after_hide(Err(error)).last_result->0.level == ResultLevel::Warning,
        state.after_hide(Err(error)).last_result->0.details == seq![error],
{
}

/// A command that the user gave becomes the message of the same name, with the
/// same choice.
pub proof fn commands_become_their_messages(command: UiCommand)
    ensures
        match command {
            UiCommand::OpenLauncher => command_message(command) is OpenLauncher,
            UiCommand::OpenSettings => command_message(command) is OpenSettings,
            UiCommand::Minimize => command_message(command) is Minimize,
            UiCommand::ToolPressed(id) => command_message(command) == MessageView::ToolPressed(id),
            UiCommand::UsbDriveSelected(index) => command_message(command)
                == MessageView::UsbDriveSelected(index),
            UiCommand::ToggleIncludeSubfolders => command_message(
                command,
            ) is ToggleIncludeSubfolders,
            UiCommand::PowerPointSlidesPerPageChanged(value) => command_message(command)
                == MessageView::PowerPointSlidesPerPageChanged(value),
            UiCommand::RunPendingPageCounter => command_message(command) is RunPendingPageCounter,
            UiCommand::CancelPendingTool => command_message(command) is CancelPendingTool,
            UiCommand::ToggleRememberLastFolders => command_message(
                command,
            ) is ToggleRememberLastFolders,
            UiCommand::ToggleOpenOnTrayClick => command_message(command) is ToggleOpenOnTrayClick,
            UiCommand::DismissResult => command_message(command) is DismissResult,
        },
{
}

/// Every event of the tray, every message of a task and every command of a frame is
/// handled, once and in its order: the tray first, then the tasks, then the user.
pub proof fn no_message_of_a_frame_is_lost(
    tray: Seq<TrayEvent>,
    background: Seq<Message>,
    commands: Seq<UiCommand>,
    i: int,
)
    ensures
        frame_messages(tray, background, commands).len() == tray.len() + background.len()
            + commands.len(),
        0 <= i < tray.len() ==> frame_messages(tray, background, commands)[i]
            == MessageView::Tray(tray[i]@),
        0 <= i < background.len() ==> frame_messages(tray, background, commands)[tray.len() + i]
            == background[i]@,
        0 <= i < commands.len() ==> frame_messages(tray, background, commands)[tray.len()
            + background.len() + i] == command_message(commands[i]),
{
}

/// What the state of the launcher stands for: the drives that are held are the
/// drives that are shown, one for one.
pub proof fn held_drives_are_the_shown_drives(state: PrintLTools, drive: DriveInfo, index: int)
    ensures
        state@.usb_drives.len() == state.usb_drives@.len(),
        0 <= index < state.usb_drives@.len() ==> state@.usb_drives[index]
            == state.usb_drives@[index]@,
        Effect::EjectDrive(drive)@ == EffectView::EjectDrive(drive@),
        drive@.root == drive.root@,
        drive@.letter == drive.letter@,
{
}

/// Two notifications of one click are one click: the second is passed over where it
/// comes within a quarter of a second on a clock that may start anew in between, and
/// is of the other kind.
pub proof fn one_click_counts_once(code: u32, other: u32, time: u32, later: u32)
    ensures
        is_duplicate(Some((code, time)), other, later) <==> code != other && (if later >= time {
            later - time <= 250
        } else {
            later + 0x1_0000_0000 - time <= 250
        }),
        !is_duplicate(None, code, time),
{
}

/// The launcher starts with subfolders left out, and reports a missing tray.
pub proof fn the_launcher_starts_without_subfolders(error: Seq<char>)
    ensures
        !started(Ok(())).include_subfolders,
        started(Ok(())).screen == Screen::Launcher,
        started(Ok(())).tray_available,
        started(Ok(())).usb_drives.len() == 0,
        started(Ok(())).page_counter_prompt is None,
        started(Ok(())).last_result is None,
        !started(Err(error)).include_subfolders,
        !started(Err(error)).tray_available,
        started(Err(error)).screen == Screen::ShowResult,
        started(Err(error)).last_result->0.details == seq![error],
{
}

/// A window goes to the bottom right of the work area, a margin away from its edges,
/// wherever it was before.
pub proof fn windows_go_to_the_corner(
    near: int,
    far: int,
    start: int,
    size: int,
    margin: int,
)
    requires
        i32::MIN <= near <= far <= i32::MAX,
        i32::MIN <= start,
        0 <= size,
        start + size <= i32::MAX,
        size <= i32::MAX,
        0 <= margin <= i32::MAX,
    ensures
        near <= far - size - margin ==> edge_position(near, far, start, start + size, margin)
            == far - size - margin,
        near > far - size - margin ==> edge_position(near, far, start, start + size, margin)
            == near,
{
}

} // verus!
