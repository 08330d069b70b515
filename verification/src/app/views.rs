//! What the window shows for each state.

use crate::app::appearance::{
    drive_select_handler, hides_drives, result_level_label, result_panel_class, slide_handler,
    slide_options, toggle_label, tool_button_variant_class, tool_handler, tool_icon_class,
    tool_status_label, MAX_USB_DRIVE_BUTTONS,
};
use crate::app::icons::{
    icon_app_brand, icon_chevron, icon_folder, icon_history, icon_launch, icon_minimize,
    icon_pdf_document, icon_sliders, icon_usb,
};
use crate::app::markup::{lemma_depth, Markup, MarkupView};
use crate::app::reports::{yes_no, yes_or_no};
use crate::app::{PageCounterPrompt, PrintLTools, Screen, StateView, UiCommand};
use crate::paths::shown_path;
use crate::registry::{
    all_tools, page_counter_tool, pdf_joiner_tool, usb_eject_tool, ToolDefinition, ToolId,
    ToolStatus, ToolView,
};
use crate::results::{display_path, ResultLevel, ResultView, ToolResult};
use crate::text::{decimal, decimal_text, texts};
use crate::usb::drives::{drive_text, drive_views};
use crate::usb::{DriveInfo, DriveView};
use vstd::prelude::*;
use vstd::string::*;

verus! {

impl MarkupView {
    /// A heading over an explanation.
    pub open spec fn heading(self, title: Seq<char>, detail: Seq<char>) -> MarkupView {
        self.begin("div"@, "section-heading"@).element("h2"@, title).element("p"@, detail).close()
    }

    pub open spec fn selected_if(self, selected: bool) -> MarkupView {
        if selected {
            self.class("selected"@)
        } else {
            self
        }
    }

    /// A button with a class and a command, opened.
    pub open spec fn button_start(self, class: Seq<char>, command: UiCommand) -> MarkupView {
        self.begin("button"@, class).attribute("type"@, "button"@).command(command)
    }

    pub open spec fn action_button(self, label: Seq<char>, command: UiCommand) -> MarkupView {
        self.button_start("action-button"@, command).element_in(
            "span"@,
            "button-text"@,
            label,
        ).close()
    }

    #[verifier::opaque]
    pub open spec fn toggle_button(
        self,
        label: Seq<char>,
        selected: bool,
        command: UiCommand,
    ) -> MarkupView {
        self.button_start("toggle-button"@, command).selected_if(selected).begin(
            "span"@,
            "toggle-track"@,
        ).begin("span"@, "toggle-knob"@).close().element_in(
            "span"@,
            "toggle-state"@,
            if selected {
                "ON"@
            } else {
                "OFF"@
            },
        ).close().element_in("span"@, "toggle-label"@, label).close()
    }

    pub open spec fn launcher_button(self, selected: bool) -> MarkupView {
        self.button_start("nav-button"@, UiCommand::OpenLauncher).selected_if(selected).begin(
            "span"@,
            "button-icon"@,
        ).icon_launch().close().element_in("span"@, "button-text"@, "Launcher"@).close()
    }

    pub open spec fn settings_button(self, selected: bool) -> MarkupView {
        self.button_start("nav-button"@, UiCommand::OpenSettings).selected_if(selected).begin(
            "span"@,
            "button-icon"@,
        ).icon_sliders().close().element_in("span"@, "button-text"@, "Settings"@).close()
    }

    pub open spec fn minimize_button(self) -> MarkupView {
        self.button_start("nav-button"@, UiCommand::Minimize).class("minimize"@).begin(
            "span"@,
            "button-icon"@,
        ).icon_minimize().close().element_in("span"@, "button-text"@, "Minimize"@).close()
    }

    /// The buttons of the top bar.
    pub open spec fn top_actions(self, screen: Screen) -> MarkupView {
        self.begin("div"@, "top-actions"@).launcher_button(
            screen == Screen::Launcher,
        ).settings_button(screen == Screen::Settings).minimize_button().close()
    }

    #[verifier::opaque]
    pub open spec fn tool_icon(self, id: ToolId) -> MarkupView {
        match id {
            ToolId::FolderPageCounter => self.begin("span"@, "tool-icon"@).class(
                "folder"@,
            ).icon_folder().close(),
            ToolId::UsbSafeEject => self.begin("span"@, "tool-icon"@).class(
                "usb"@,
            ).icon_usb().close(),
            ToolId::PdfJoiner => self.begin("span"@, "tool-icon"@).class(
                "pdf"@,
            ).icon_pdf_document().close(),
        }
    }

    /// What a tool's button holds.
    #[verifier::opaque]
    pub open spec fn tool_content(self, tool: ToolView) -> MarkupView {
        self.begin("span"@, "tool-accent"@).close().begin("span"@, "tool-surface"@).close().tool_icon(
            tool.id,
        ).begin("span"@, "tool-copy"@).element_in("span"@, "tool-title"@, tool.name).element_in(
            "span"@,
            "tool-description"@,
            tool.description,
        ).element_in("span"@, "tool-meta"@, tool.short_name + " - "@ + status_word(
            tool.status,
        )).close().begin("span"@, "tool-chevron"@).icon_chevron().close()
    }

    /// The button of a tool. One that is only planned has no command.
    #[verifier::opaque]
    pub open spec fn tool_button(self, tool: ToolView) -> MarkupView {
        let start = self.begin("button"@, "tool-button"@).attribute("type"@, "button"@);
        let given = match tool.status {
            ToolStatus::Ready => start.command(UiCommand::ToolPressed(tool.id)).class(
                variant_class(tool.id),
            ).accent(tool.id),
            ToolStatus::Planned => start.class(variant_class(tool.id)).accent(tool.id).class(
                "disabled"@,
            ),
        };
        given.tool_content(tool).close()
    }

    pub open spec fn result_panel(self, result: ResultView) -> MarkupView {
        self.begin("div"@, panel_class(result.level)).element_in(
            "p"@,
            "eyebrow"@,
            level_word(result.level),
        ).element("h3"@, result.title).element("p"@, result.summary).action_button(
            "Dismiss"@,
            UiCommand::DismissResult,
        ).close()
    }

    pub open spec fn latest_result_panel(self, result: Option<ResultView>) -> MarkupView {
        match result {
            None => self.begin("div"@, "empty-state"@).class(
                "empty-result"@,
            ).icon_history().close(),
            Some(result) => self.result_panel(result),
        }
    }

    /// The lines of a report's details.
    pub open spec fn detail_lines(self, details: Seq<Seq<char>>) -> MarkupView
        decreases details.len(),
    {
        if details.len() == 0 {
            self
        } else {
            self.detail_lines(details.drop_last()).element_in(
                "p"@,
                "detail-line"@,
                details.last(),
            )
        }
    }

    pub open spec fn result_detail_list(self, details: Seq<Seq<char>>) -> MarkupView {
        if details.len() == 0 {
            self.begin("div"@, "detail-list"@).element_in(
                "p"@,
                "muted-line"@,
                "No additional details."@,
            ).close()
        } else {
            self.begin("div"@, "detail-list"@).detail_lines(details).close()
        }
    }

    /// The button of a number of slides on a page.
    pub open spec fn slide_button(self, value: u32, selected: u32) -> MarkupView {
        self.button_start(
            "segment-button"@,
            UiCommand::PowerPointSlidesPerPageChanged(value),
        ).selected_if(selected == value).element_in(
            "span"@,
            "button-text"@,
            decimal(value as nat),
        ).close()
    }

    pub open spec fn slide_options(self, selected: u32) -> MarkupView {
        self.begin("div"@, "segmented"@).slide_button(1, selected).slide_button(
            2,
            selected,
        ).slide_button(3, selected).slide_button(4, selected).slide_button(
            6,
            selected,
        ).slide_button(9, selected).close()
    }

    pub open spec fn drive_button(self, drive: DriveView, index: int) -> MarkupView {
        self.button_start("drive-button"@, UiCommand::UsbDriveSelected(index as usize)).begin(
            "span"@,
            "drive-icon"@,
        ).icon_usb().close().begin("span"@, "drive-copy"@).element_in(
            "span"@,
            "drive-title"@,
            drive_text(drive),
        ).element_in("span"@, "drive-root"@, "Root: "@ + drive.root).close().begin(
            "span"@,
            "tool-chevron"@,
        ).icon_chevron().close().close()
    }

    /// The buttons of the first `count` drives.
    pub open spec fn drive_buttons(self, drives: Seq<DriveView>, count: int) -> MarkupView
        decreases count,
    {
        if count <= 0 {
            self
        } else {
            self.drive_buttons(drives, count - 1).drive_button(drives[count - 1], count - 1)
        }
    }

    pub open spec fn drive_list(self, drives: Seq<DriveView>) -> MarkupView {
        let start = self.begin("div"@, "drive-list"@);
        if drives.len() > MAX_USB_DRIVE_BUTTONS {
            start.drive_buttons(drives, MAX_USB_DRIVE_BUTTONS as int).element_in(
                "p"@,
                "muted-line"@,
                "Only the first 16 detected drives are shown."@,
            ).close()
        } else {
            start.drive_buttons(drives, drives.len() as int).close()
        }
    }

    pub open spec fn launcher_view(self, state: StateView) -> MarkupView {
        self.begin("div"@, "view"@).begin("section"@, "panel"@).heading(
            "Tools"@,
            "Choose a utility to start."@,
        ).begin("div"@, "tool-list"@).tool_button(page_counter_tool()).tool_button(
            usb_eject_tool(),
        ).tool_button(pdf_joiner_tool()).close().close().begin("section"@, "panel"@).heading(
            "Folder options"@,
            "Used by the folder page counter."@,
        ).toggle_button(
            "Include subfolders"@,
            state.include_subfolders,
            UiCommand::ToggleIncludeSubfolders,
        ).close().begin("section"@, "panel"@).heading(
            "Latest result"@,
            "Most recent completed operation."@,
        ).latest_result_panel(state.last_result).close().close()
    }

    pub open spec fn settings_view(self, state: StateView) -> MarkupView {
        self.begin("div"@, "view"@).begin("section"@, "panel"@).heading(
            "Settings"@,
            "Local application preferences."@,
        ).begin("div"@, "settings-list"@).toggle_button(
            "Open launcher when restoring from tray"@,
            state.open_launcher_on_tray_click,
            UiCommand::ToggleOpenOnTrayClick,
        ).toggle_button(
            "Remember last folders"@,
            state.remember_last_folders,
            UiCommand::ToggleRememberLastFolders,
        ).close().element_in(
            "p"@,
            "muted-line"@,
            "Start with Windows and persisted settings are planned for Epic F."@,
        ).close().close()
    }

    pub open spec fn result_view(self, result: Option<ResultView>) -> MarkupView {
        match result {
            None => self.begin("div"@, "view"@).begin("section"@, "panel"@).element(
                "h2"@,
                "No result"@,
            ).action_button("Back to launcher"@, UiCommand::DismissResult).close().close(),
            Some(result) => self.begin("div"@, "view"@).begin(
                "section"@,
                panel_class(result.level),
            ).element_in("p"@, "eyebrow"@, level_word(result.level)).element(
                "h2"@,
                result.title,
            ).element_in("p"@, "result-summary"@, result.summary).result_detail_list(
                result.details,
            ).begin("div"@, "button-row"@).action_button(
                "Back to launcher"@,
                UiCommand::DismissResult,
            ).action_button("Keep result"@, UiCommand::OpenLauncher).close().close().close(),
        }
    }

    pub open spec fn prompt_view(
        self,
        prompt: Option<PageCounterPrompt>,
        slides: u32,
    ) -> MarkupView {
        match prompt {
            None => self.begin("div"@, "view"@).begin("section"@, "panel"@).element(
                "h2"@,
                "No folder selected"@,
            ).action_button("Back to launcher"@, UiCommand::CancelPendingTool).close().close(),
            Some(prompt) => self.begin("div"@, "view"@).begin("section"@, "panel"@).heading(
                "Folder page counter"@,
                "Confirm options before counting pages."@,
            ).begin("div"@, "fact-list"@).element("p"@, "Folder: "@ + shown_path(prompt.folder)).element(
                "p"@,
                "Include subfolders: "@ + yes_or_no(prompt.include_subfolders),
            ).close().element("h3"@, "PowerPoint slides per printed page"@).slide_options(
                slides,
            ).begin("div"@, "button-row"@).action_button(
                "Count pages"@,
                UiCommand::RunPendingPageCounter,
            ).action_button("Cancel"@, UiCommand::CancelPendingTool).close().close().close(),
        }
    }

    pub open spec fn drive_select_view(self, drives: Seq<DriveView>) -> MarkupView {
        self.begin("div"@, "view"@).begin("section"@, "panel"@).heading(
            "USB safe eject"@,
            "Select the drive to close locking processes and request safe eject."@,
        ).drive_list(drives).begin("div"@, "button-row"@).action_button(
            "Cancel"@,
            UiCommand::CancelPendingTool,
        ).close().close().close()
    }

    pub open spec fn processing_view(
        self,
        title: Option<Seq<char>>,
        detail: Option<Seq<char>>,
    ) -> MarkupView {
        self.begin("div"@, "view"@).begin("section"@, "panel"@).class(
            "processing-panel"@,
        ).element_in("p"@, "eyebrow"@, "Working"@).element(
            "h2"@,
            match title {
                Some(title) => title,
                None => "Processing"@,
            },
        ).element(
            "p"@,
            match detail {
                Some(detail) => detail,
                None => "The selected operation is still running."@,
            },
        ).element_in(
            "p"@,
            "muted-line"@,
            "You can leave this window open while the background worker finishes."@,
        ).close().close()
    }

    /// What stands below the top bar.
    pub open spec fn screen_view(self, state: StateView) -> MarkupView {
        match state.screen {
            Screen::Launcher => self.launcher_view(state),
            Screen::Settings => self.settings_view(state),
            Screen::PageCounterPrompt => self.prompt_view(
                state.page_counter_prompt,
                state.powerpoint_slides_per_page,
            ),
            Screen::UsbDriveSelect => self.drive_select_view(state.usb_drives),
            Screen::Processing => self.processing_view(
                state.processing_title,
                state.processing_detail,
            ),
            Screen::ShowResult => self.result_view(state.last_result),
        }
    }

    /// What the window shows.
    pub open spec fn window(self, state: StateView) -> MarkupView {
        self.open("div"@).id("app"@).begin("section"@, "shell"@).begin("header"@, "topbar"@).begin(
            "div"@,
            "brand"@,
        ).begin("span"@, "brand-mark"@).icon_app_brand().close().begin(
            "div"@,
            "brand-copy"@,
        ).element("h1"@, "PrintLTools"@).element(
            "p"@,
            "Print and file utilities"@,
        ).close().close().top_actions(state.screen).close().begin("main"@, "content"@).screen_view(
            state,
        ).close().close().close()
    }
}

/// Whether a tool can be used, in a word.
pub open spec fn status_word(status: ToolStatus) -> Seq<char> {
    match status {
        ToolStatus::Ready => "Ready"@,
        ToolStatus::Planned => "Planned"@,
    }
}

/// The class of a tool's button.
pub open spec fn variant_class(id: ToolId) -> Seq<char> {
    match id {
        ToolId::FolderPageCounter => "tool-folder"@,
        ToolId::UsbSafeEject => "tool-usb"@,
        ToolId::PdfJoiner => "tool-pdf"@,
    }
}

/// The class of a panel with a report.
pub open spec fn panel_class(level: ResultLevel) -> Seq<char> {
    match level {
        ResultLevel::Info => "result-panel-info"@,
        ResultLevel::Warning => "result-panel-warning"@,
        ResultLevel::Error => "result-panel-error"@,
    }
}

/// How a tool ended, in a word.
pub open spec fn level_word(level: ResultLevel) -> Seq<char> {
    match level {
        ResultLevel::Info => "Info"@,
        ResultLevel::Warning => "Warning"@,
        ResultLevel::Error => "Error"@,
    }
}

fn heading(markup: &mut Markup, title: &str, detail: &str)
    ensures
        final(markup)@ == old(markup)@.heading(title@, detail@),
        final(markup)@.depth() == old(markup)@.depth(),
{
    broadcast use lemma_depth;
    markup.begin("div", "section-heading");
    markup.element("h2", title);
    markup.element("p", detail);
    markup.close();
}

fn select_if(markup: &mut Markup, selected: bool)
    ensures
        final(markup)@ == old(markup)@.selected_if(selected),
        final(markup)@.depth() == old(markup)@.depth(),
{
    broadcast use lemma_depth;
    if selected {
        markup.class("selected");
    }
}

fn button_start(markup: &mut Markup, class: &'static str, command: UiCommand)
    ensures
        final(markup)@ == old(markup)@.button_start(class@, command),
        final(markup)@.depth() == old(markup)@.depth() + 1,
{
    broadcast use lemma_depth;
    markup.begin("button", class);
    markup.attribute("type", "button");
    markup.command(command);
}

/// Writes a button with a label.
pub fn action_button(markup: &mut Markup, label: &str, command: UiCommand)
    ensures
        final(markup)@ == old(markup)@.action_button(label@, command),
        final(markup)@.depth() == old(markup)@.depth(),
{
    broadcast use lemma_depth;
    button_start(markup, "action-button", command);
    markup.element_in("span", "button-text", label);
    markup.close();
}

/// Writes a toggle.
pub fn toggle_button(markup: &mut Markup, label: &str, selected: bool, command: UiCommand)
    ensures
        final(markup)@ == old(markup)@.toggle_button(label@, selected, command),
        final(markup)@.depth() == old(markup)@.depth(),
{
    broadcast use lemma_depth;
    reveal(MarkupView::toggle_button);
    button_start(markup, "toggle-button", command);
    select_if(markup, selected);
    markup.begin("span", "toggle-track");
    markup.begin("span", "toggle-knob");
    markup.close();
    markup.element_in("span", "toggle-state", toggle_label(selected));
    markup.close();
    markup.element_in("span", "toggle-label", label);
    markup.close();
}

/// Writes the buttons of the top bar.
pub fn top_actions(markup: &mut Markup, screen: Screen)
    ensures
        final(markup)@ == old(markup)@.top_actions(screen),
        final(markup)@.depth() == old(markup)@.depth(),
{
    broadcast use lemma_depth;
    markup.begin("div", "top-actions");
    button_start(markup, "nav-button", UiCommand::OpenLauncher);
    select_if(markup, screen == Screen::Launcher);
    markup.begin("span", "button-icon");
    icon_launch(markup);
    markup.close();
    markup.element_in("span", "button-text", "Launcher");
    markup.close();
    button_start(markup, "nav-button", UiCommand::OpenSettings);
    select_if(markup, screen == Screen::Settings);
    markup.begin("span", "button-icon");
    icon_sliders(markup);
    markup.close();
    markup.element_in("span", "button-text", "Settings");
    markup.close();
    button_start(markup, "nav-button", UiCommand::Minimize);
    markup.class("minimize");
    markup.begin("span", "button-icon");
    icon_minimize(markup);
    markup.close();
    markup.element_in("span", "button-text", "Minimize");
    markup.close();
    markup.close();
}

/// Writes the icon of a tool.
pub fn tool_icon(markup: &mut Markup, id: ToolId)
    ensures
        final(markup)@ == old(markup)@.tool_icon(id),
        final(markup)@.depth() == old(markup)@.depth(),
{
    broadcast use lemma_depth;
    reveal(MarkupView::tool_icon);
    markup.begin("span", "tool-icon");
    markup.class(tool_icon_class(id));
    match id {
        ToolId::FolderPageCounter => {
            icon_folder(markup);
        },
        ToolId::UsbSafeEject => {
            icon_usb(markup);
        },
        ToolId::PdfJoiner => {
            icon_pdf_document(markup);
        },
    }
    markup.close();
}

/// Writes the button of a tool.
pub fn tool_button(markup: &mut Markup, tool: &ToolDefinition)
    ensures
        final(markup)@ == old(markup)@.tool_button(tool@),
        final(markup)@.depth() == old(markup)@.depth(),
{
    broadcast use lemma_depth;
    reveal(MarkupView::tool_content);
    reveal(MarkupView::tool_button);
    markup.begin("button", "tool-button");
    markup.attribute("type", "button");
    match tool.status {
        ToolStatus::Ready => {
            markup.command(tool_handler(tool.id));
            markup.class(tool_button_variant_class(tool.id));
            markup.accent(tool.id);
        },
        ToolStatus::Planned => {
            markup.class(tool_button_variant_class(tool.id));
            markup.accent(tool.id);
            markup.class("disabled");
        },
    }
    markup.begin("span", "tool-accent");
    markup.close();
    markup.begin("span", "tool-surface");
    markup.close();
    tool_icon(markup, tool.id);
    markup.begin("span", "tool-copy");
    markup.element_in("span", "tool-title", tool.name);
    markup.element_in("span", "tool-description", tool.description);
    let mut meta = tool.short_name.to_owned();
    meta.append(" - ");
    meta.append(tool_status_label(tool.status));
    markup.element_in("span", "tool-meta", meta.as_str());
    markup.close();
    markup.begin("span", "tool-chevron");
    icon_chevron(markup);
    markup.close();
    markup.close();
}

/// Writes the latest report.
pub fn latest_result_panel(markup: &mut Markup, result: &Option<ToolResult>)
    ensures
        final(markup)@ == old(markup)@.latest_result_panel(
            match *result {
                Some(result) => Some(result@),
                None => None,
            },
        ),
        final(markup)@.depth() == old(markup)@.depth(),
{
    broadcast use lemma_depth;
    match result {
        None => {
            markup.begin("div", "empty-state");
            markup.class("empty-result");
            icon_history(markup);
            markup.close();
        },
        Some(result) => {
            markup.begin("div", result_panel_class(result.level));
            markup.element_in("p", "eyebrow", result_level_label(result.level));
            markup.element("h3", result.title.as_str());
            markup.element("p", result.summary.as_str());
            action_button(markup, "Dismiss", UiCommand::DismissResult);
            markup.close();
        },
    }
}

/// Writes the details of a report.
pub fn result_detail_list(markup: &mut Markup, details: &Vec<String>)
    ensures
        final(markup)@ == old(markup)@.result_detail_list(texts(details@)),
        final(markup)@.depth() == old(markup)@.depth(),
{
    broadcast use lemma_depth;
    let ghost all = texts(details@);
    assert(all.len() == details@.len());
    markup.begin("div", "detail-list");
    if details.len() == 0 {
        markup.element_in("p", "muted-line", "No additional details.");
    } else {
        let ghost start = markup@;
        assert(all.take(0) == Seq::<Seq<char>>::empty());
        for i in 0..details.len()
            invariant
                all == texts(details@),
                markup@ == start.detail_lines(all.take(i as int)),
                markup@.depth() == start.depth(),
        {
            broadcast use lemma_depth;
            assert(all[i as int] == details@[i as int]@);
            assert(all.take(i + 1).drop_last() == all.take(i as int));
            assert(all.take(i + 1).last() == all[i as int]);
            markup.element_in("p", "detail-line", details[i].as_str());
        }
        assert(all.take(all.len() as int) == all);
    }
    markup.close();
}

/// Writes the choice of slides on a page.
pub fn write_slide_options(markup: &mut Markup, selected: u32)
    ensures
        final(markup)@ == old(markup)@.slide_options(selected),
        final(markup)@.depth() == old(markup)@.depth(),
{
    broadcast use lemma_depth;
    markup.begin("div", "segmented");
    let ghost start = markup@;
    let options = slide_options();
    for i in 0..options.len()
        invariant
            options@ == seq![1u32, 2, 3, 4, 6, 9],
            markup@.depth() == start.depth(),
            i == 0 ==> markup@ == start,
            i == 1 ==> markup@ == start.slide_button(1, selected),
            i == 2 ==> markup@ == start.slide_button(1, selected).slide_button(2, selected),
            i == 3 ==> markup@ == start.slide_button(1, selected).slide_button(
                2,
                selected,
            ).slide_button(3, selected),
            i == 4 ==> markup@ == start.slide_button(1, selected).slide_button(
                2,
                selected,
            ).slide_button(3, selected).slide_button(4, selected),
            i == 5 ==> markup@ == start.slide_button(1, selected).slide_button(
                2,
                selected,
            ).slide_button(3, selected).slide_button(4, selected).slide_button(6, selected),
            i == 6 ==> markup@ == start.slide_button(1, selected).slide_button(
                2,
                selected,
            ).slide_button(3, selected).slide_button(4, selected).slide_button(
                6,
                selected,
            ).slide_button(9, selected),
    {
        broadcast use lemma_depth;
        let value: u32 = options[i];
        button_start(markup, "segment-button", slide_handler(value));
        select_if(markup, selected == value);
        let label = decimal_text(value as u128);
        markup.element_in("span", "button-text", label.as_str());
        markup.close();
    }
    markup.close();
}

fn drive_button(markup: &mut Markup, drive: &DriveInfo, command: UiCommand, index: usize)
    requires
        command == UiCommand::UsbDriveSelected(index),
    ensures
        final(markup)@ == old(markup)@.drive_button(drive@, index as int),
        final(markup)@.depth() == old(markup)@.depth(),
{
    broadcast use lemma_depth;
    button_start(markup, "drive-button", command);
    markup.begin("span", "drive-icon");
    icon_usb(markup);
    markup.close();
    markup.begin("span", "drive-copy");
    let title = drive.display_name();
    markup.element_in("span", "drive-title", title.as_str());
    let mut root = "Root: ".to_owned();
    root.append(drive.root.as_str());
    markup.element_in("span", "drive-root", root.as_str());
    markup.close();
    markup.begin("span", "tool-chevron");
    icon_chevron(markup);
    markup.close();
    markup.close();
}

/// Writes the drives to choose from.
pub fn drive_list(markup: &mut Markup, drives: &Vec<DriveInfo>)
    ensures
        final(markup)@ == old(markup)@.drive_list(drive_views(drives@)),
        final(markup)@.depth() == old(markup)@.depth(),
{
    broadcast use lemma_depth;
    let ghost all = drive_views(drives@);
    assert(all.len() == drives@.len());
    markup.begin("div", "drive-list");
    let ghost start = markup@;
    for i in 0..drives.len()
        invariant
            all == drive_views(drives@),
            markup@.depth() == start.depth(),
            markup@ == start.drive_buttons(
                all,
                if i < MAX_USB_DRIVE_BUTTONS {
                    i as int
                } else {
                    MAX_USB_DRIVE_BUTTONS as int
                },
            ),
    {
        assert(all[i as int] == drives@[i as int]@);
        match drive_select_handler(i) {
            Some(command) => {
                drive_button(markup, &drives[i], command, i);
            },
            None => {},
        }
    }
    if hides_drives(drives.len()) {
        markup.element_in("p", "muted-line", "Only the first 16 detected drives are shown.");
    }
    markup.close();
}

/// Writes the tools, the folder options and the latest report.
pub fn launcher_view(markup: &mut Markup, state: &PrintLTools)
    ensures
        final(markup)@ == old(markup)@.launcher_view(state@),
        final(markup)@.depth() == old(markup)@.depth(),
{
    broadcast use lemma_depth;
    markup.begin("div", "view");
    markup.begin("section", "panel");
    heading(markup, "Tools", "Choose a utility to start.");
    markup.begin("div", "tool-list");
    let tools = all_tools();
    let ghost start = markup@;
    for i in 0..tools.len()
        invariant
            tools@.len() == 3,
            tools@[0]@ == page_counter_tool(),
            tools@[1]@ == usb_eject_tool(),
            tools@[2]@ == pdf_joiner_tool(),
            markup@.depth() == start.depth(),
            i == 0 ==> markup@ == start,
            i == 1 ==> markup@ == start.tool_button(page_counter_tool()),
            i == 2 ==> markup@ == start.tool_button(page_counter_tool()).tool_button(
                usb_eject_tool(),
            ),
            i == 3 ==> markup@ == start.tool_button(page_counter_tool()).tool_button(
                usb_eject_tool(),
            ).tool_button(pdf_joiner_tool()),
    {
        tool_button(markup, &tools[i]);
    }
    markup.close();
    markup.close();
    markup.begin("section", "panel");
    heading(markup, "Folder options", "Used by the folder page counter.");
    toggle_button(
        markup,
        "Include subfolders",
        state.include_subfolders,
        UiCommand::ToggleIncludeSubfolders,
    );
    markup.close();
    markup.begin("section", "panel");
    heading(markup, "Latest result", "Most recent completed operation.");
    latest_result_panel(markup, &state.last_result);
    markup.close();
    markup.close();
}

/// Writes the settings.
pub fn settings_view(markup: &mut Markup, state: &PrintLTools)
    ensures
        final(markup)@ == old(markup)@.settings_view(state@),
        final(markup)@.depth() == old(markup)@.depth(),
{
    broadcast use lemma_depth;
    markup.begin("div", "view");
    markup.begin("section", "panel");
    heading(markup, "Settings", "Local application preferences.");
    markup.begin("div", "settings-list");
    toggle_button(
        markup,
        "Open launcher when restoring from tray",
        state.open_launcher_on_tray_click,
        UiCommand::ToggleOpenOnTrayClick,
    );
    toggle_button(
        markup,
        "Remember last folders",
        state.remember_last_folders,
        UiCommand::ToggleRememberLastFolders,
    );
    markup.close();
    markup.element_in(
        "p",
        "muted-line",
        "Start with Windows and persisted settings are planned for Epic F.",
    );
    markup.close();
    markup.close();
}

/// Writes the report that is shown.
pub fn result_view(markup: &mut Markup, state: &PrintLTools)
    ensures
        final(markup)@ == old(markup)@.result_view(state@.last_result),
        final(markup)@.depth() == old(markup)@.depth(),
{
    broadcast use lemma_depth;
    markup.begin("div", "view");
    match &state.last_result {
        None => {
            markup.begin("section", "panel");
            markup.element("h2", "No result");
            action_button(markup, "Back to launcher", UiCommand::DismissResult);
            markup.close();
        },
        Some(result) => {
            markup.begin("section", result_panel_class(result.level));
            markup.element_in("p", "eyebrow", result_level_label(result.level));
            markup.element("h2", result.title.as_str());
            markup.element_in("p", "result-summary", result.summary.as_str());
            result_detail_list(markup, &result.details);
            markup.begin("div", "button-row");
            action_button(markup, "Back to launcher", UiCommand::DismissResult);
            action_button(markup, "Keep result", UiCommand::OpenLauncher);
            markup.close();
            markup.close();
        },
    }
    markup.close();
}

/// Writes the page count that waits to be confirmed.
pub fn page_counter_prompt_view(markup: &mut Markup, state: &PrintLTools)
    ensures
        final(markup)@ == old(markup)@.prompt_view(
            state@.page_counter_prompt,
            state@.powerpoint_slides_per_page,
        ),
        final(markup)@.depth() == old(markup)@.depth(),
{
    broadcast use lemma_depth;
    markup.begin("div", "view");
    markup.begin("section", "panel");
    match &state.page_counter_prompt {
        None => {
            markup.element("h2", "No folder selected");
            action_button(markup, "Back to launcher", UiCommand::CancelPendingTool);
        },
        Some(prompt) => {
            heading(markup, "Folder page counter", "Confirm options before counting pages.");
            markup.begin("div", "fact-list");
            let shown = display_path(&prompt.folder);
            let mut folder = "Folder: ".to_owned();
            folder.append(shown.as_str());
            markup.element("p", folder.as_str());
            let mut subfolders = "Include subfolders: ".to_owned();
            subfolders.append(yes_no(prompt.include_subfolders));
            markup.element("p", subfolders.as_str());
            markup.close();
            markup.element("h3", "PowerPoint slides per printed page");
            write_slide_options(markup, state.powerpoint_slides_per_page);
            markup.begin("div", "button-row");
            action_button(markup, "Count pages", UiCommand::RunPendingPageCounter);
            action_button(markup, "Cancel", UiCommand::CancelPendingTool);
            markup.close();
        },
    }
    markup.close();
    markup.close();
}

/// Writes the drives to choose from, with a way back.
pub fn usb_drive_select_view(markup: &mut Markup, state: &PrintLTools)
    ensures
        final(markup)@ == old(markup)@.drive_select_view(state@.usb_drives),
        final(markup)@.depth() == old(markup)@.depth(),
{
    broadcast use lemma_depth;
    markup.begin("div", "view");
    markup.begin("section", "panel");
    heading(
        markup,
        "USB safe eject",
        "Select the drive to close locking processes and request safe eject.",
    );
    drive_list(markup, &state.usb_drives);
    markup.begin("div", "button-row");
    action_button(markup, "Cancel", UiCommand::CancelPendingTool);
    markup.close();
    markup.close();
    markup.close();
}

/// Writes that a task is running.
pub fn processing_view(markup: &mut Markup, state: &PrintLTools)
    ensures
        final(markup)@ == old(markup)@.processing_view(
            state@.processing_title,
            state@.processing_detail,
        ),
        final(markup)@.depth() == old(markup)@.depth(),
{
    broadcast use lemma_depth;
    markup.begin("div", "view");
    markup.begin("section", "panel");
    markup.class("processing-panel");
    markup.element_in("p", "eyebrow", "Working");
    match &state.processing_title {
        Some(title) => {
            markup.element("h2", title.as_str());
        },
        None => {
            markup.element("h2", "Processing");
        },
    }
    match &state.processing_detail {
        Some(detail) => {
            markup.element("p", detail.as_str());
        },
        None => {
            markup.element("p", "The selected operation is still running.");
        },
    }
    markup.element_in(
        "p",
        "muted-line",
        "You can leave this window open while the background worker finishes.",
    );
    markup.close();
    markup.close();
}

/// What the window shows. Every element that is opened is closed.
pub fn view(state: &PrintLTools) -> (markup: Markup)
    ensures
        markup@ == (MarkupView { tokens: Seq::empty() }).window(state@),
        markup@.depth() == 0,
{
    broadcast use lemma_depth;
    let mut written = Markup::new();
    let markup = &mut written;
    markup.open("div");
    markup.id("app");
    markup.begin("section", "shell");
    markup.begin("header", "topbar");
    markup.begin("div", "brand");
    markup.begin("span", "brand-mark");
    icon_app_brand(markup);
    markup.close();
    markup.begin("div", "brand-copy");
    markup.element("h1", "PrintLTools");
    markup.element("p", "Print and file utilities");
    markup.close();
    markup.close();
    top_actions(markup, state.screen);
    markup.close();
    markup.begin("main", "content");
    match state.screen {
        Screen::Launcher => {
            launcher_view(markup, state);
        },
        Screen::Settings => {
            settings_view(markup, state);
        },
        Screen::PageCounterPrompt => {
            page_counter_prompt_view(markup, state);
        },
        Screen::UsbDriveSelect => {
            usb_drive_select_view(markup, state);
        },
        Screen::Processing => {
            processing_view(markup, state);
        },
        Screen::ShowResult => {
            result_view(markup, state);
        },
    }
    markup.close();
    markup.close();
    markup.close();
    written
}

} // verus!
