//! The launcher as a state: what each message changes, and what it asks to be
//! done outside.

pub mod appearance;
pub mod icons;
pub mod markup;
pub mod profile;
pub mod reports;
pub mod views;

use crate::page_counter::PageCounterOptions;
use crate::registry::ToolId;
use crate::results::{ResultLevel, ResultView, ToolResult};
use crate::text::{decimal, decimal_text, error_text, optional_text, texts};
use crate::tray::{TrayEvent, TrayView};
use crate::usb::drives::drive_views;
use crate::usb::{DriveInfo, DriveView};
use std::path::PathBuf;
use vstd::prelude::*;
use vstd::string::*;

verus! {

/// What the window shows.
#[derive(Debug, Clone, Copy, PartialEq, Eq, Structural)]
pub enum Screen {
    Launcher,
    Settings,
    PageCounterPrompt,
    UsbDriveSelect,
    Processing,
    ShowResult,
}

/// A page count that waits to be confirmed.
#[derive(Debug, Clone, PartialEq, Eq)]
pub struct PageCounterPrompt {
    pub folder: PathBuf,
    pub include_subfolders: bool,
}

/// The state of the launcher.
#[derive(Debug)]
pub struct PrintLTools {
    pub screen: Screen,
    pub include_subfolders: bool,
    pub remember_last_folders: bool,
    pub open_launcher_on_tray_click: bool,
    pub powerpoint_slides_per_page: u32,
    pub page_counter_prompt: Option<PageCounterPrompt>,
    pub processing_title: Option<String>,
    pub processing_detail: Option<String>,
    pub usb_drives: Vec<DriveInfo>,
    pub last_result: Option<ToolResult>,
    /// Whether there is a tray to minimize to.
    pub tray_available: bool,
}

/// What happened.
#[derive(Debug)]
pub enum Message {
    Tray(TrayEvent),
    OpenLauncher,
    OpenSettings,
    Minimize,
    ToolPressed(ToolId),
    FolderPicked(Option<PathBuf>),
    PdfFilesPicked(Option<Vec<PathBuf>>),
    PdfOutputPicked(Vec<PathBuf>, Option<PathBuf>),
    PdfMergeFinished(ToolResult),
    UsbDrivesLoaded(Result<Vec<DriveInfo>, String>),
    UsbDriveSelected(usize),
    UsbEjectFinished(ToolResult),
    ToggleIncludeSubfolders,
    PowerPointSlidesPerPageChanged(u32),
    RunPendingPageCounter,
    PageCounterFinished(ToolResult),
    CancelPendingTool,
    ToggleRememberLastFolders,
    ToggleOpenOnTrayClick,
    DismissResult,
}

/// What the user pressed.
#[derive(Debug, Clone, Copy, PartialEq, Eq, Structural)]
pub enum UiCommand {
    OpenLauncher,
    OpenSettings,
    Minimize,
    ToolPressed(ToolId),
    UsbDriveSelected(usize),
    ToggleIncludeSubfolders,
    PowerPointSlidesPerPageChanged(u32),
    RunPendingPageCounter,
    CancelPendingTool,
    ToggleRememberLastFolders,
    ToggleOpenOnTrayClick,
    DismissResult,
}

/// What is to be done outside. What comes of the hiding goes to `finish_hide`,
/// and what comes of starting any other task to `finish_spawn`.
#[derive(Debug)]
pub enum Effect {
    Nothing,
    HideWindow,
    PickFolder,
    PickPdfFiles,
    PickPdfOutput(Vec<PathBuf>),
    ListDrives,
    MergePdfs(Vec<PathBuf>, PathBuf),
    EjectDrive(DriveInfo),
    CountPages(PageCounterOptions),
}

/// Whether the window has to be laid out anew, and what is to be done outside.
#[derive(Debug)]
pub struct Step {
    pub changed: bool,
    pub effect: Effect,
}

/// The state of the launcher as plain values.
pub ghost struct StateView {
    pub screen: Screen,
    pub include_subfolders: bool,
    pub remember_last_folders: bool,
    pub open_launcher_on_tray_click: bool,
    pub powerpoint_slides_per_page: u32,
    pub page_counter_prompt: Option<PageCounterPrompt>,
    pub processing_title: Option<Seq<char>>,
    pub processing_detail: Option<Seq<char>>,
    pub usb_drives: Seq<DriveView>,
    pub last_result: Option<ResultView>,
    pub tray_available: bool,
}

/// What happened, as plain values.
pub ghost enum MessageView {
    Tray(TrayView),
    OpenLauncher,
    OpenSettings,
    Minimize,
    ToolPressed(ToolId),
    FolderPicked(Option<PathBuf>),
    PdfFilesPicked(Option<Seq<PathBuf>>),
    PdfOutputPicked(Seq<PathBuf>, Option<PathBuf>),
    Finished(ResultView),
    UsbDrivesLoaded(Result<Seq<DriveView>, Seq<char>>),
    UsbDriveSelected(usize),
    ToggleIncludeSubfolders,
    PowerPointSlidesPerPageChanged(u32),
    RunPendingPageCounter,
    CancelPendingTool,
    ToggleRememberLastFolders,
    ToggleOpenOnTrayClick,
    DismissResult,
}

/// What is to be done outside, as plain values.
pub ghost enum EffectView {
    Nothing,
    HideWindow,
    PickFolder,
    PickPdfFiles,
    PickPdfOutput(Seq<PathBuf>),
    ListDrives,
    MergePdfs(Seq<PathBuf>, PathBuf),
    EjectDrive(DriveView),
    CountPages(PageCounterOptions),
}

/// A state, whether it has to be laid out anew, and what is to be done outside.
pub ghost struct StepView {
    pub state: StateView,
    pub changed: bool,
    pub effect: EffectView,
}

impl View for PrintLTools {
    type V = StateView;

    open spec fn view(&self) -> StateView {
        StateView {
            screen: self.screen,
            include_subfolders: self.include_subfolders,
            remember_last_folders: self.remember_last_folders,
            open_launcher_on_tray_click: self.open_launcher_on_tray_click,
            powerpoint_slides_per_page: self.powerpoint_slides_per_page,
            page_counter_prompt: self.page_counter_prompt,
            processing_title: optional_text(self.processing_title),
            processing_detail: optional_text(self.processing_detail),
            usb_drives: drive_views(self.usb_drives@),
            last_result: match self.last_result {
                Some(result) => Some(result@),
                None => None,
            },
            tray_available: self.tray_available,
        }
    }
}

/// Drives or an error, as plain values.
pub open spec fn drives_result(result: Result<Vec<DriveInfo>, String>) -> Result<
    Seq<DriveView>,
    Seq<char>,
> {
    match result {
        Ok(drives) => Ok(drive_views(drives@)),
        Err(error) => Err(error@),
    }
}

impl View for Message {
    type V = MessageView;

    open spec fn view(&self) -> MessageView {
        match self {
            Message::Tray(event) => MessageView::Tray(event@),
            Message::OpenLauncher => MessageView::OpenLauncher,
            Message::OpenSettings => MessageView::OpenSettings,
            Message::Minimize => MessageView::Minimize,
            Message::ToolPressed(id) => MessageView::ToolPressed(*id),
            Message::FolderPicked(folder) => MessageView::FolderPicked(*folder),
            Message::PdfFilesPicked(files) => MessageView::PdfFilesPicked(
                match files {
                    Some(files) => Some(files@),
                    None => None,
                },
            ),
            Message::PdfOutputPicked(files, output) => MessageView::PdfOutputPicked(
                files@,
                *output,
            ),
            Message::PdfMergeFinished(result) => MessageView::Finished(result@),
            Message::UsbDrivesLoaded(result) => MessageView::UsbDrivesLoaded(
                drives_result(*result),
            ),
            Message::UsbDriveSelected(index) => MessageView::UsbDriveSelected(*index),
            Message::UsbEjectFinished(result) => MessageView::Finished(result@),
            Message::ToggleIncludeSubfolders => MessageView::ToggleIncludeSubfolders,
            Message::PowerPointSlidesPerPageChanged(value) =>
            MessageView::PowerPointSlidesPerPageChanged(*value),
            Message::RunPendingPageCounter => MessageView::RunPendingPageCounter,
            Message::PageCounterFinished(result) => MessageView::Finished(result@),
            Message::CancelPendingTool => MessageView::CancelPendingTool,
            Message::ToggleRememberLastFolders => MessageView::ToggleRememberLastFolders,
            Message::ToggleOpenOnTrayClick => MessageView::ToggleOpenOnTrayClick,
            Message::DismissResult => MessageView::DismissResult,
        }
    }
}

impl View for Effect {
    type V = EffectView;

    open spec fn view(&self) -> EffectView {
        match self {
            Effect::Nothing => EffectView::Nothing,
            Effect::HideWindow => EffectView::HideWindow,
            Effect::PickFolder => EffectView::PickFolder,
            Effect::PickPdfFiles => EffectView::PickPdfFiles,
            Effect::PickPdfOutput(files) => EffectView::PickPdfOutput(files@),
            Effect::ListDrives => EffectView::ListDrives,
            Effect::MergePdfs(files, output) => EffectView::MergePdfs(files@, *output),
            Effect::EjectDrive(drive) => EffectView::EjectDrive(drive@),
            Effect::CountPages(options) => EffectView::CountPages(*options),
        }
    }
}

/// A report with a title, a summary and details.
pub open spec fn report(
    level: ResultLevel,
    title: Seq<char>,
    summary: Seq<char>,
    details: Seq<Seq<char>>,
) -> ResultView {
    ResultView { title, level, summary, details }
}

impl StateView {
    /// What every state keeps: the window shows nothing that is not there.
    pub open spec fn well_formed(self) -> bool {
        &&& self.screen == Screen::ShowResult ==> self.last_result is Some
        &&& self.screen == Screen::PageCounterPrompt ==> self.page_counter_prompt is Some
        &&& self.screen == Screen::UsbDriveSelect ==> self.usb_drives.len() > 0
        &&& self.screen == Screen::Processing ==> self.processing_title is Some
        &&& self.processing_title is Some <==> self.processing_detail is Some
    }

    pub open spec fn at(self, screen: Screen) -> StateView {
        StateView { screen, ..self }
    }

    /// The state after a report: it is shown, and nothing else is pending.
    pub open spec fn reporting(self, result: ResultView) -> StateView {
        StateView {
            screen: Screen::ShowResult,
            last_result: Some(result),
            processing_title: None,
            processing_detail: None,
            usb_drives: Seq::empty(),
            ..self
        }
    }

    /// The state while a task runs.
    pub open spec fn processing(self, title: Seq<char>, detail: Seq<char>) -> StateView {
        StateView {
            screen: Screen::Processing,
            processing_title: Some(title),
            processing_detail: Some(detail),
            ..self
        }
    }

    pub open spec fn stepping(self, changed: bool, effect: EffectView) -> StepView {
        StepView { state: self, changed, effect }
    }

    /// The step that shows a report.
    pub open spec fn report_step(self, result: ResultView) -> StepView {
        self.reporting(result).stepping(true, EffectView::Nothing)
    }

    /// The step back to the launcher after a selection was canceled. The report on
    /// it is kept.
    pub open spec fn canceled_step(self, result: ResultView) -> StepView {
        self.reporting(result).at(Screen::Launcher).stepping(true, EffectView::Nothing)
    }

    pub open spec fn minimize_step(self) -> StepView {
        if self.tray_available {
            self.stepping(false, EffectView::HideWindow)
        } else {
            self.report_step(
                report(
                    ResultLevel::Warning,
                    "Minimize to tray"@,
                    "The app could not be minimized because tray integration is unavailable."@,
                    Seq::empty(),
                ),
            )
        }
    }

    pub open spec fn tray_step(self, event: TrayView) -> StepView {
        match event {
            TrayView::HideLauncher => self.minimize_step(),
            TrayView::OpenLauncher => if self.open_launcher_on_tray_click {
                self.at(Screen::Launcher).stepping(true, EffectView::Nothing)
            } else {
                self.stepping(false, EffectView::Nothing)
            },
            TrayView::OpenSettings => self.at(Screen::Settings).stepping(
                true,
                EffectView::Nothing,
            ),
            TrayView::Error(error) => self.report_step(
                report(
                    ResultLevel::Error,
                    "Tray integration"@,
                    "The app is running, but the Windows tray icon could not be initialized."@,
                    seq![error],
                ),
            ),
        }
    }

    pub open spec fn tool_step(self, id: ToolId) -> StepView {
        match id {
            ToolId::FolderPageCounter => self.stepping(false, EffectView::PickFolder),
            ToolId::UsbSafeEject => self.processing(
                "Loading drives"@,
                "Scanning removable drives."@,
            ).stepping(true, EffectView::ListDrives),
            ToolId::PdfJoiner => self.stepping(false, EffectView::PickPdfFiles),
        }
    }

    pub open spec fn folder_step(self, folder: Option<PathBuf>) -> StepView {
        match folder {
            None => self.canceled_step(
                report(
                    ResultLevel::Info,
                    "Folder page counter"@,
                    "Folder selection was canceled."@,
                    Seq::empty(),
                ),
            ),
            Some(folder) => (StateView {
                page_counter_prompt: Some(
                    PageCounterPrompt { folder, include_subfolders: self.include_subfolders },
                ),
                ..self
            }).at(Screen::PageCounterPrompt).stepping(true, EffectView::Nothing),
        }
    }

    pub open spec fn pdf_files_step(self, files: Option<Seq<PathBuf>>) -> StepView {
        match files {
            None => self.canceled_step(
                report(
                    ResultLevel::Info,
                    "PDF joiner"@,
                    "PDF selection was canceled."@,
                    Seq::empty(),
                ),
            ),
            Some(files) => if files.len() == 0 {
                self.report_step(
                    report(
                        ResultLevel::Warning,
                        "PDF joiner"@,
                        "No PDF files were selected."@,
                        Seq::empty(),
                    ),
                )
            } else {
                self.stepping(false, EffectView::PickPdfOutput(files))
            },
        }
    }

    pub open spec fn pdf_output_step(
        self,
        files: Seq<PathBuf>,
        output: Option<PathBuf>,
    ) -> StepView {
        match output {
            None => self.report_step(
                report(
                    ResultLevel::Info,
                    "PDF joiner"@,
                    "Output selection was canceled."@,
                    Seq::empty(),
                ),
            ),
            Some(output) => self.processing(
                "Joining PDFs"@,
                "Merging "@ + decimal(files.len()) + " selected PDF files."@,
            ).stepping(true, EffectView::MergePdfs(files, output)),
        }
    }

    pub open spec fn drives_step(self, result: Result<Seq<DriveView>, Seq<char>>) -> StepView {
        match result {
            Err(error) => self.report_step(
                report(
                    ResultLevel::Error,
                    "USB safe eject"@,
                    "Drive scan failed."@,
                    seq!["Error: "@ + error],
                ),
            ),
            Ok(drives) => if drives.len() == 0 {
                self.report_step(
                    report(
                        ResultLevel::Warning,
                        "USB safe eject"@,
                        "No eligible removable drives were found."@,
                        Seq::empty(),
                    ),
                )
            } else {
                (StateView {
                    usb_drives: drives,
                    processing_title: None,
                    processing_detail: None,
                    ..self
                }).at(Screen::UsbDriveSelect).stepping(true, EffectView::Nothing)
            },
        }
    }

    pub open spec fn drive_selected_step(self, index: int) -> StepView {
        if 0 <= index < self.usb_drives.len() {
            let drive = self.usb_drives[index];
            self.processing(
                "Preparing USB eject"@,
                "Closing processes and ejecting "@ + drive.letter + "."@,
            ).stepping(true, EffectView::EjectDrive(drive))
        } else {
            self.report_step(
                report(
                    ResultLevel::Warning,
                    "USB safe eject"@,
                    "The selected drive is no longer available."@,
                    Seq::empty(),
                ),
            )
        }
    }

    pub open spec fn run_step(self) -> StepView {
        match self.page_counter_prompt {
            None => self.stepping(false, EffectView::Nothing),
            Some(prompt) => (StateView { page_counter_prompt: None, ..self }).processing(
                "Counting pages"@,
                "Counting PDF and document pages in the selected folder."@,
            ).stepping(
                true,
                EffectView::CountPages(
                    PageCounterOptions {
                        folder: prompt.folder,
                        include_subfolders: prompt.include_subfolders,
                        powerpoint_slides_per_page: self.powerpoint_slides_per_page,
                    },
                ),
            ),
        }
    }

    /// The state after everything pending is dropped.
    pub open spec fn canceled(self) -> StateView {
        StateView {
            screen: Screen::Launcher,
            page_counter_prompt: None,
            processing_title: None,
            processing_detail: None,
            usb_drives: Seq::empty(),
            ..self
        }
    }

    /// What a message changes, and what it asks to be done outside.
    pub open spec fn after(self, message: MessageView) -> StepView {
        match message {
            MessageView::Tray(event) => self.tray_step(event),
            MessageView::OpenLauncher => self.at(Screen::Launcher).stepping(
                true,
                EffectView::Nothing,
            ),
            MessageView::OpenSettings => self.at(Screen::Settings).stepping(
                true,
                EffectView::Nothing,
            ),
            MessageView::Minimize => self.minimize_step(),
            MessageView::ToolPressed(id) => self.tool_step(id),
            MessageView::FolderPicked(folder) => self.folder_step(folder),
            MessageView::PdfFilesPicked(files) => self.pdf_files_step(files),
            MessageView::PdfOutputPicked(files, output) => self.pdf_output_step(files, output),
            MessageView::Finished(result) => self.report_step(result),
            MessageView::UsbDrivesLoaded(result) => self.drives_step(result),
            MessageView::UsbDriveSelected(index) => self.drive_selected_step(index as int),
            MessageView::ToggleIncludeSubfolders => (StateView {
                include_subfolders: !self.include_subfolders,
                ..self
            }).stepping(true, EffectView::Nothing),
            MessageView::PowerPointSlidesPerPageChanged(value) => (StateView {
                powerpoint_slides_per_page: value,
                ..self
            }).stepping(true, EffectView::Nothing),
            MessageView::RunPendingPageCounter => self.run_step(),
            MessageView::CancelPendingTool => self.canceled().stepping(true, EffectView::Nothing),
            MessageView::ToggleRememberLastFolders => (StateView {
                remember_last_folders: !self.remember_last_folders,
                ..self
            }).stepping(true, EffectView::Nothing),
            MessageView::ToggleOpenOnTrayClick => (StateView {
                open_launcher_on_tray_click: !self.open_launcher_on_tray_click,
                ..self
            }).stepping(true, EffectView::Nothing),
            MessageView::DismissResult => (StateView { last_result: None, ..self }).at(
                Screen::Launcher,
            ).stepping(true, EffectView::Nothing),
        }
    }

    /// The state once it is known whether the window was hidden.
    pub open spec fn after_hide(self, result: Result<(), Seq<char>>) -> StateView {
        match result {
            Ok(_) => self,
            Err(error) => self.reporting(
                report(
                    ResultLevel::Warning,
                    "Minimize to tray"@,
                    "The app could not hide its window."@,
                    seq![error],
                ),
            ),
        }
    }

    /// The state once it is known whether a task was started.
    pub open spec fn after_spawn(self, result: Result<(), Seq<char>>) -> StateView {
        match result {
            Ok(_) => self,
            Err(error) => self.reporting(
                report(
                    ResultLevel::Error,
                    "Background task"@,
                    "The operation could not start."@,
                    seq!["Error: "@ + error],
                ),
            ),
        }
    }
}

/// The state at the start, given what came of starting the tray.
pub open spec fn started(tray: Result<(), Seq<char>>) -> StateView {
    let state = StateView {
        screen: Screen::Launcher,
        include_subfolders: false,
        remember_last_folders: true,
        open_launcher_on_tray_click: true,
        powerpoint_slides_per_page: 4,
        page_counter_prompt: None,
        processing_title: None,
        processing_detail: None,
        usb_drives: Seq::empty(),
        last_result: None,
        tray_available: tray is Ok,
    };
    match tray {
        Ok(_) => state,
        Err(error) => state.reporting(
            report(
                ResultLevel::Warning,
                "Tray integration"@,
                "The app started, but the Windows tray icon could not be initialized."@,
                seq![error],
            ),
        ),
    }
}

fn one_detail(detail: String) -> (details: Vec<String>)
    ensures
        texts(details@) == seq![detail@],
{
    let mut details: Vec<String> = Vec::new();
    details.push(detail);
    assert(texts(details@) =~= seq![detail@]);
    details
}

fn no_details() -> (details: Vec<String>)
    ensures
        texts(details@) == Seq::<Seq<char>>::empty(),
{
    let details: Vec<String> = Vec::new();
    assert(texts(details@) =~= Seq::empty());
    details
}

fn error_detail(error: &str) -> (details: Vec<String>)
    ensures
        texts(details@) == seq!["Error: "@ + error@],
{
    let mut detail = "Error: ".to_owned();
    detail.append(error);
    one_detail(detail)
}

impl PrintLTools {
    /// The state at the start, given what came of starting the tray.
    pub fn new(tray: Result<(), String>) -> (state: Self)
        ensures
            state@ == started(error_text(tray)),
            state@.well_formed(),
    {
        let mut state = PrintLTools {
            screen: Screen::Launcher,
            include_subfolders: false,
            remember_last_folders: true,
            open_launcher_on_tray_click: true,
            powerpoint_slides_per_page: 4,
            page_counter_prompt: None,
            processing_title: None,
            processing_detail: None,
            usb_drives: Vec::new(),
            last_result: None,
            tray_available: tray.is_ok(),
        };
        assert(state@.usb_drives =~= Seq::empty());
        match tray {
            Ok(_) => {},
            Err(error) => {
                state.record_result(
                    ToolResult::warning(
                        "Tray integration",
                        "The app started, but the Windows tray icon could not be initialized.",
                        one_detail(error),
                    ),
                );
            },
        }
        state
    }

    /// Shows a report, and drops what was pending.
    pub fn record_result(&mut self, result: ToolResult)
        ensures
            final(self)@ == old(self)@.reporting(result@),
    {
        self.last_result = Some(result);
        self.processing_title = None;
        self.processing_detail = None;
        self.usb_drives = Vec::new();
        assert(self@.usb_drives =~= Seq::empty());
        self.screen = Screen::ShowResult;
    }

    fn report(&mut self, result: ToolResult) -> (step: Step)
        ensures
            (StepView { state: final(self)@, changed: step.changed, effect: step.effect@ })
                == old(self)@.report_step(result@),
    {
        self.record_result(result);
        Step { changed: true, effect: Effect::Nothing }
    }

    fn cancel(&mut self, result: ToolResult) -> (step: Step)
        ensures
            (StepView { state: final(self)@, changed: step.changed, effect: step.effect@ })
                == old(self)@.canceled_step(result@),
    {
        self.record_result(result);
        self.screen = Screen::Launcher;
        Step { changed: true, effect: Effect::Nothing }
    }

    fn show_processing(&mut self, title: &str, detail: String)
        ensures
            final(self)@ == old(self)@.processing(title@, detail@),
    {
        self.processing_title = Some(title.to_owned());
        self.processing_detail = Some(detail);
        self.screen = Screen::Processing;
    }

    /// Goes to the tray, where there is one.
    pub fn minimize_to_tray(&mut self) -> (step: Step)
        ensures
            (StepView { state: final(self)@, changed: step.changed, effect: step.effect@ })
                == old(self)@.minimize_step(),
    {
        if self.tray_available {
            Step { changed: false, effect: Effect::HideWindow }
        } else {
            self.report(
                ToolResult::warning(
                    "Minimize to tray",
                    "The app could not be minimized because tray integration is unavailable.",
                    no_details(),
                ),
            )
        }
    }

    /// Does what the tray asks for.
    pub fn handle_tray_event(&mut self, event: TrayEvent) -> (step: Step)
        ensures
            (StepView { state: final(self)@, changed: step.changed, effect: step.effect@ })
                == old(self)@.tray_step(event@),
    {
        match event {
            TrayEvent::HideLauncher => self.minimize_to_tray(),
            TrayEvent::OpenLauncher => {
                if self.open_launcher_on_tray_click {
                    self.screen = Screen::Launcher;
                    Step { changed: true, effect: Effect::Nothing }
                } else {
                    Step { changed: false, effect: Effect::Nothing }
                }
            },
            TrayEvent::OpenSettings => {
                self.screen = Screen::Settings;
                Step { changed: true, effect: Effect::Nothing }
            },
            TrayEvent::Error(error) => self.report(
                ToolResult::error(
                    "Tray integration",
                    "The app is running, but the Windows tray icon could not be initialized.",
                    one_detail(error),
                ),
            ),
        }
    }

    /// Starts a tool.
    pub fn start_tool(&mut self, id: ToolId) -> (step: Step)
        ensures
            (StepView { state: final(self)@, changed: step.changed, effect: step.effect@ })
                == old(self)@.tool_step(id),
    {
        match id {
            ToolId::FolderPageCounter => Step { changed: false, effect: Effect::PickFolder },
            ToolId::UsbSafeEject => {
                self.show_processing(
                    "Loading drives",
                    "Scanning removable drives.".to_owned(),
                );
                Step { changed: true, effect: Effect::ListDrives }
            },
            ToolId::PdfJoiner => Step { changed: false, effect: Effect::PickPdfFiles },
        }
    }

    /// Asks to confirm a page count of the picked folder.
    pub fn handle_folder_picked(&mut self, folder: Option<PathBuf>) -> (step: Step)
        ensures
            (StepView { state: final(self)@, changed: step.changed, effect: step.effect@ })
                == old(self)@.folder_step(folder),
    {
        match folder {
            None => self.cancel(
                ToolResult::info(
                    "Folder page counter",
                    "Folder selection was canceled.",
                    no_details(),
                ),
            ),
            Some(folder) => {
                self.page_counter_prompt = Some(
                    PageCounterPrompt { folder, include_subfolders: self.include_subfolders },
                );
                self.screen = Screen::PageCounterPrompt;
                Step { changed: true, effect: Effect::Nothing }
            },
        }
    }

    /// Asks where to write the joined PDF.
    pub fn handle_pdf_files_picked(&mut self, files: Option<Vec<PathBuf>>) -> (step: Step)
        ensures
            (StepView { state: final(self)@, changed: step.changed, effect: step.effect@ })
                == old(self)@.pdf_files_step(
                match files {
                    Some(files) => Some(files@),
                    None => None,
                },
            ),
    {
        match files {
            None => self.cancel(
                ToolResult::info("PDF joiner", "PDF selection was canceled.", no_details()),
            ),
            Some(files) => {
                if files.len() == 0 {
                    self.report(
                        ToolResult::warning(
                            "PDF joiner",
                            "No PDF files were selected.",
                            no_details(),
                        ),
                    )
                } else {
                    Step { changed: false, effect: Effect::PickPdfOutput(files) }
                }
            },
        }
    }

    /// Joins the picked files.
    pub fn handle_pdf_output_picked(
        &mut self,
        files: Vec<PathBuf>,
        output: Option<PathBuf>,
    ) -> (step: Step)
        ensures
            (StepView { state: final(self)@, changed: step.changed, effect: step.effect@ })
                == old(self)@.pdf_output_step(files@, output),
    {
        match output {
            None => self.report(
                ToolResult::info("PDF joiner", "Output selection was canceled.", no_details()),
            ),
            Some(output) => {
                let count = decimal_text(files.len() as u128);
                let mut detail = "Merging ".to_owned();
                detail.append(count.as_str());
                detail.append(" selected PDF files.");
                self.show_processing("Joining PDFs", detail);
                Step { changed: true, effect: Effect::MergePdfs(files, output) }
            },
        }
    }

    /// Offers the drives to choose from.
    pub fn handle_usb_drives_loaded(
        &mut self,
        result: Result<Vec<DriveInfo>, String>,
    ) -> (step: Step)
        ensures
            (StepView { state: final(self)@, changed: step.changed, effect: step.effect@ })
                == old(self)@.drives_step(drives_result(result)),
    {
        match result {
            Err(error) => self.report(
                ToolResult::error(
                    "USB safe eject",
                    "Drive scan failed.",
                    error_detail(error.as_str()),
                ),
            ),
            Ok(drives) => {
                assert(drive_views(drives@).len() == drives@.len());
                if drives.len() == 0 {
                    self.report(
                        ToolResult::warning(
                            "USB safe eject",
                            "No eligible removable drives were found.",
                            no_details(),
                        ),
                    )
                } else {
                    self.usb_drives = drives;
                    self.processing_title = None;
                    self.processing_detail = None;
                    self.screen = Screen::UsbDriveSelect;
                    Step { changed: true, effect: Effect::Nothing }
                }
            },
        }
    }

    /// Ejects the chosen drive.
    pub fn handle_usb_drive_selected(&mut self, index: usize) -> (step: Step)
        ensures
            (StepView { state: final(self)@, changed: step.changed, effect: step.effect@ })
                == old(self)@.drive_selected_step(index as int),
    {
        assert(self@.usb_drives.len() == self.usb_drives@.len());
        if index < self.usb_drives.len() {
            let drive = self.usb_drives[index].duplicate();
            assert(self@.usb_drives[index as int] == drive@);
            let mut detail = "Closing processes and ejecting ".to_owned();
            detail.append(drive.letter.as_str());
            detail.append(".");
            self.show_processing("Preparing USB eject", detail);
            Step { changed: true, effect: Effect::EjectDrive(drive) }
        } else {
            self.report(
                ToolResult::warning(
                    "USB safe eject",
                    "The selected drive is no longer available.",
                    no_details(),
                ),
            )
        }
    }

    /// Counts the pages of the folder that was confirmed.
    pub fn run_pending_page_counter(&mut self) -> (step: Step)
        ensures
            (StepView { state: final(self)@, changed: step.changed, effect: step.effect@ })
                == old(self)@.run_step(),
    {
        match self.page_counter_prompt.take() {
            None => Step { changed: false, effect: Effect::Nothing },
            Some(prompt) => {
                let options = PageCounterOptions {
                    folder: prompt.folder,
                    include_subfolders: prompt.include_subfolders,
                    powerpoint_slides_per_page: self.powerpoint_slides_per_page,
                };
                self.show_processing(
                    "Counting pages",
                    "Counting PDF and document pages in the selected folder.".to_owned(),
                );
                Step { changed: true, effect: Effect::CountPages(options) }
            },
        }
    }

    /// Drops everything pending.
    pub fn cancel_pending_tool(&mut self)
        ensures
            final(self)@ == old(self)@.canceled(),
    {
        self.page_counter_prompt = None;
        self.processing_title = None;
        self.processing_detail = None;
        self.usb_drives = Vec::new();
        assert(self@.usb_drives =~= Seq::empty());
        self.screen = Screen::Launcher;
    }

    /// Takes in a message.
    pub fn handle_message(&mut self, message: Message) -> (step: Step)
        ensures
            (StepView { state: final(self)@, changed: step.changed, effect: step.effect@ })
                == old(self)@.after(message@),
    {
        match message {
            Message::Tray(event) => return self.handle_tray_event(event),
            Message::OpenLauncher => {
                self.screen = Screen::Launcher;
            },
            Message::OpenSettings => {
                self.screen = Screen::Settings;
            },
            Message::Minimize => return self.minimize_to_tray(),
            Message::ToolPressed(id) => return self.start_tool(id),
            Message::FolderPicked(folder) => return self.handle_folder_picked(folder),
            Message::PdfFilesPicked(files) => return self.handle_pdf_files_picked(files),
            Message::PdfOutputPicked(files, output) => return self.handle_pdf_output_picked(
                files,
                output,
            ),
            Message::PdfMergeFinished(result) => return self.report(result),
            Message::UsbDrivesLoaded(result) => return self.handle_usb_drives_loaded(result),
            Message::UsbDriveSelected(index) => return self.handle_usb_drive_selected(index),
            Message::UsbEjectFinished(result) => return self.report(result),
            Message::ToggleIncludeSubfolders => {
                self.include_subfolders = !self.include_subfolders;
            },
            Message::PowerPointSlidesPerPageChanged(value) => {
                self.powerpoint_slides_per_page = value;
            },
            Message::RunPendingPageCounter => return self.run_pending_page_counter(),
            Message::PageCounterFinished(result) => return self.report(result),
            Message::CancelPendingTool => {
                self.cancel_pending_tool();
            },
            Message::ToggleRememberLastFolders => {
                self.remember_last_folders = !self.remember_last_folders;
            },
            Message::ToggleOpenOnTrayClick => {
                self.open_launcher_on_tray_click = !self.open_launcher_on_tray_click;
            },
            Message::DismissResult => {
                self.last_result = None;
                self.screen = Screen::Launcher;
            },
        }
        Step { changed: true, effect: Effect::Nothing }
    }

    /// Takes in whether the window was hidden. Says whether the window has to be
    /// laid out anew.
    pub fn finish_hide(&mut self, result: Result<(), String>) -> (changed: bool)
        ensures
            final(self)@ == old(self)@.after_hide(error_text(result)),
            changed == result is Err,
    {
        match result {
            Ok(_) => false,
            Err(error) => {
                self.record_result(
                    ToolResult::warning(
                        "Minimize to tray",
                        "The app could not hide its window.",
                        one_detail(error),
                    ),
                );
                true
            },
        }
    }

    /// Takes in whether a task was started. Says whether the window has to be laid
    /// out anew.
    pub fn finish_spawn(&mut self, result: Result<(), String>) -> (changed: bool)
        ensures
            final(self)@ == old(self)@.after_spawn(error_text(result)),
            changed == result is Err,
    {
        match result {
            Ok(_) => false,
            Err(error) => {
                self.record_result(
                    ToolResult::error(
                        "Background task",
                        "The operation could not start.",
                        error_detail(error.as_str()),
                    ),
                );
                true
            },
        }
    }
}

/// Whatever happens, the window shows nothing that is not there.
pub proof fn states_stay_well_formed(state: StateView, message: MessageView)
    requires
        state.well_formed(),
    ensures
        state.after(message).state.well_formed(),
{
    match message {
        MessageView::Tray(event) => {
            assert(state.tray_step(event).state.well_formed());
        },
        MessageView::Minimize => {
            assert(state.minimize_step().state.well_formed());
        },
        MessageView::FolderPicked(folder) => {
            assert(state.folder_step(folder).state.well_formed());
        },
        MessageView::PdfFilesPicked(files) => {
            assert(state.pdf_files_step(files).state.well_formed());
        },
        MessageView::PdfOutputPicked(files, output) => {
            assert(state.pdf_output_step(files, output).state.well_formed());
        },
        MessageView::UsbDrivesLoaded(result) => {
            assert(state.drives_step(result).state.well_formed());
        },
        MessageView::UsbDriveSelected(index) => {
            assert(state.drive_selected_step(index as int).state.well_formed());
        },
        _ => {},
    }
}

/// Whatever comes of hiding the window or of starting a task, the window shows
/// nothing that is not there.
pub proof fn outcomes_keep_states_well_formed(state: StateView, outcome: Result<(), Seq<char>>)
    requires
        state.well_formed(),
    ensures
        state.after_hide(outcome).well_formed(),
        state.after_spawn(outcome).well_formed(),
{
}

/// The window is laid out anew whenever the state changes.
pub proof fn changes_are_announced(state: StateView, message: MessageView)
    requires
        !state.after(message).changed,
    ensures
        state.after(message).state == state,
{
}

/// A dialog that was canceled starts nothing, and changes nothing but what is
/// shown and pending. A canceled selection leads back to the launcher.
pub proof fn canceled_dialogs_start_nothing(state: StateView, files: Seq<PathBuf>)
    ensures
        state.after(MessageView::FolderPicked(None)).effect is Nothing,
        state.after(MessageView::PdfFilesPicked(None)).effect is Nothing,
        state.after(MessageView::PdfOutputPicked(files, None)).effect is Nothing,
        state.after(MessageView::FolderPicked(None)).state.screen == Screen::Launcher,
        state.after(MessageView::PdfFilesPicked(None)).state.screen == Screen::Launcher,
        state.after(MessageView::FolderPicked(None)).state == state.reporting(
            state.after(MessageView::FolderPicked(None)).state.last_result->0,
        ).at(Screen::Launcher),
        state.after(MessageView::PdfFilesPicked(None)).state == state.reporting(
            state.after(MessageView::PdfFilesPicked(None)).state.last_result->0,
        ).at(Screen::Launcher),
        state.after(MessageView::PdfOutputPicked(files, None)).state == state.reporting(
            state.after(MessageView::PdfOutputPicked(files, None)).state.last_result->0,
        ),
{
}

/// Only the toggles change the settings.
pub proof fn tools_keep_the_settings(state: StateView, message: MessageView)
    requires
        !(message is ToggleIncludeSubfolders),
        !(message is ToggleRememberLastFolders),
        !(message is ToggleOpenOnTrayClick),
        !(message is PowerPointSlidesPerPageChanged),
    ensures
        state.after(message).state.include_subfolders == state.include_subfolders,
        state.after(message).state.remember_last_folders == state.remember_last_folders,
        state.after(message).state.open_launcher_on_tray_click == state.open_launcher_on_tray_click,
        state.after(message).state.powerpoint_slides_per_page == state.powerpoint_slides_per_page,
{
}

/// A toggle pressed twice leaves the state as it was.
pub proof fn toggles_undo_themselves(state: StateView)
    ensures
        state.after(MessageView::ToggleIncludeSubfolders).state.after(
            MessageView::ToggleIncludeSubfolders,
        ).state == state,
        state.after(MessageView::ToggleRememberLastFolders).state.after(
            MessageView::ToggleRememberLastFolders,
        ).state == state,
        state.after(MessageView::ToggleOpenOnTrayClick).state.after(
            MessageView::ToggleOpenOnTrayClick,
        ).state == state,
{
}

/// A page count runs with the folder and the choice that were confirmed, and runs
/// once.
pub proof fn confirmed_counts_run_once(state: StateView, folder: PathBuf)
    ensures
        ({
            let prompted = state.after(MessageView::FolderPicked(Some(folder))).state;
            let run = prompted.after(MessageView::RunPendingPageCounter);
            &&& run.effect == EffectView::CountPages(
                PageCounterOptions {
                    folder,
                    include_subfolders: state.include_subfolders,
                    powerpoint_slides_per_page: state.powerpoint_slides_per_page,
                },
            )
            &&& run.state.after(MessageView::RunPendingPageCounter).effect is Nothing
        }),
{
}

impl vstd::std_specs::convert::FromSpecImpl<UiCommand> for Message {
    open spec fn obeys_from_spec() -> bool {
        true
    }

    open spec fn from_spec(command: UiCommand) -> Message {
        match command {
            UiCommand::OpenLauncher => Message::OpenLauncher,
            UiCommand::OpenSettings => Message::OpenSettings,
            UiCommand::Minimize => Message::Minimize,
            UiCommand::ToolPressed(id) => Message::ToolPressed(id),
            UiCommand::UsbDriveSelected(index) => Message::UsbDriveSelected(index),
            UiCommand::ToggleIncludeSubfolders => Message::ToggleIncludeSubfolders,
            UiCommand::PowerPointSlidesPerPageChanged(value) =>
            Message::PowerPointSlidesPerPageChanged(value),
            UiCommand::RunPendingPageCounter => Message::RunPendingPageCounter,
            UiCommand::CancelPendingTool => Message::CancelPendingTool,
            UiCommand::ToggleRememberLastFolders => Message::ToggleRememberLastFolders,
            UiCommand::ToggleOpenOnTrayClick => Message::ToggleOpenOnTrayClick,
            UiCommand::DismissResult => Message::DismissResult,
        }
    }
}

impl From<UiCommand> for Message {
    /// The message for a command.
    fn from(command: UiCommand) -> (message: Message) {
        match command {
            UiCommand::OpenLauncher => Message::OpenLauncher,
            UiCommand::OpenSettings => Message::OpenSettings,
            UiCommand::Minimize => Message::Minimize,
            UiCommand::ToolPressed(id) => Message::ToolPressed(id),
            UiCommand::UsbDriveSelected(index) => Message::UsbDriveSelected(index),
            UiCommand::ToggleIncludeSubfolders => Message::ToggleIncludeSubfolders,
            UiCommand::PowerPointSlidesPerPageChanged(value) =>
            Message::PowerPointSlidesPerPageChanged(value),
            UiCommand::RunPendingPageCounter => Message::RunPendingPageCounter,
            UiCommand::CancelPendingTool => Message::CancelPendingTool,
            UiCommand::ToggleRememberLastFolders => Message::ToggleRememberLastFolders,
            UiCommand::ToggleOpenOnTrayClick => Message::ToggleOpenOnTrayClick,
            UiCommand::DismissResult => Message::DismissResult,
        }
    }
}

/// The message for a command, as plain values.
pub open spec fn command_message(command: UiCommand) -> MessageView {
    <Message as vstd::std_specs::convert::FromSpec<UiCommand>>::from_spec(command)@
}

/// The views of a list of messages.
pub open spec fn message_views(messages: Seq<Message>) -> Seq<MessageView> {
    messages.map_values(|m: Message| m@)
}

/// The messages of one frame: first those of the tray, then those of tasks that
/// ended, then the commands.
pub open spec fn frame_messages(
    tray: Seq<TrayEvent>,
    background: Seq<Message>,
    commands: Seq<UiCommand>,
) -> Seq<MessageView> {
    tray.map_values(|e: TrayEvent| MessageView::Tray(e@)) + message_views(background)
        + commands.map_values(|c: UiCommand| command_message(c))
}

/// Lines up the messages of one frame.
pub fn gather_messages(
    tray: Vec<TrayEvent>,
    background: Vec<Message>,
    commands: &Vec<UiCommand>,
) -> (messages: Vec<Message>)
    ensures
        message_views(messages@) == frame_messages(tray@, background@, commands@),
{
    let mut messages: Vec<Message> = Vec::new();
    let ghost first = tray@.map_values(|e: TrayEvent| MessageView::Tray(e@));
    let ghost second = message_views(background@);
    let ghost third = commands@.map_values(|c: UiCommand| command_message(c));
    assert(message_views(messages@) =~= first.take(0));
    for event in it: tray
        invariant
            it.seq() == tray@,
            first == tray@.map_values(|e: TrayEvent| MessageView::Tray(e@)),
            message_views(messages@) == first.take(it.index()),
    {
        let ghost before = message_views(messages@);
        let ghost index = it.index();
        assert(first[index] == MessageView::Tray(event@));
        messages.push(Message::Tray(event));
        assert(message_views(messages@) =~= before.push(MessageView::Tray(event@)));
        assert(first.take(index + 1) =~= before.push(first[index]));
    }
    assert(first.take(first.len() as int) == first);
    let mut background = background;
    messages.append(&mut background);
    assert(message_views(messages@) =~= first + second);
    assert(third.take(0) =~= Seq::empty());
    assert(first + second + third.take(0) =~= first + second);
    for i in 0..commands.len()
        invariant
            third == commands@.map_values(|c: UiCommand| command_message(c)),
            message_views(messages@) == first + second + third.take(i as int),
    {
        let ghost before = message_views(messages@);
        let message = Message::from(commands[i]);
        messages.push(message);
        assert(message_views(messages@) =~= before.push(message@));
        assert(first + second + third.take(i + 1) =~= (first + second + third.take(i as int)).push(
            third[i as int],
        ));
    }
    assert(third.take(third.len() as int) == third);
    messages
}

} // verus!
