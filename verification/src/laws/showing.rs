//! The window shows what the state holds, and its buttons give the commands that
//! they name.

use crate::app::markup::{MarkupView, TokenView};
use crate::app::{PageCounterPrompt, Screen, StateView, UiCommand};
use crate::paths::shown_path;
use crate::registry::{ToolId, ToolStatus, ToolView};
use crate::results::ResultView;
use crate::usb::drives::drive_text;
use crate::usb::DriveView;
use vstd::prelude::*;
use vstd::string::*;

verus! {

/// The command that was given last.
pub open spec fn last_command(tokens: Seq<TokenView>) -> Option<UiCommand>
    decreases tokens.len(),
{
    if tokens.len() == 0 {
        None
    } else {
        match tokens.last() {
            TokenView::Command(command) => Some(command),
            _ => last_command(tokens.drop_last()),
        }
    }
}

/// Whether a text is shown.
pub open spec fn shows(tokens: Seq<TokenView>, text: Seq<char>) -> bool {
    exists|u: int| 0 <= u < tokens.len() && #[trigger] tokens[u] == TokenView::Text(text)
}

/// Whether a text is shown in an element that gives a command: the command is the
/// last one before the text.
pub open spec fn offers(tokens: Seq<TokenView>, command: UiCommand, text: Seq<char>) -> bool {
    exists|u: int|
        0 <= u < tokens.len() && #[trigger] tokens[u] == TokenView::Text(text) && last_command(
            tokens.take(u),
        ) == Some(command)
}

broadcast proof fn lemma_command_with(markup: MarkupView, token: TokenView)
    ensures
        last_command(#[trigger] markup.with(token).tokens) == match token {
            TokenView::Command(command) => Some(command),
            _ => last_command(markup.tokens),
        },
{
    assert(markup.tokens.push(token).drop_last() =~= markup.tokens);
}

broadcast proof fn lemma_offers_with(
    markup: MarkupView,
    token: TokenView,
    command: UiCommand,
    text: Seq<char>,
)
    ensures
        offers(markup.tokens, command, text) ==> #[trigger] offers(
            markup.with(token).tokens,
            command,
            text,
        ),
        token == TokenView::Text(text) && last_command(markup.tokens) == Some(command) ==> offers(
            markup.with(token).tokens,
            command,
            text,
        ),
{
    let after = markup.with(token).tokens;
    if offers(markup.tokens, command, text) {
        let u = choose|u: int|
            0 <= u < markup.tokens.len() && #[trigger] markup.tokens[u] == TokenView::Text(text)
                && last_command(markup.tokens.take(u)) == Some(command);
        assert(after[u] == markup.tokens[u]);
        assert(after.take(u) =~= markup.tokens.take(u));
    }
    if token == TokenView::Text(text) && last_command(markup.tokens) == Some(command) {
        let u = markup.tokens.len() as int;
        assert(after[u] == token);
        assert(after.take(u) =~= markup.tokens);
    }
}

broadcast proof fn lemma_shows_with(markup: MarkupView, token: TokenView, text: Seq<char>)
    ensures
        shows(markup.tokens, text) || token == TokenView::Text(text) ==> #[trigger] shows(
            markup.with(token).tokens,
            text,
        ),
{
    let after = markup.with(token).tokens;
    if shows(markup.tokens, text) {
        let u = choose|u: int|
            0 <= u < markup.tokens.len() && #[trigger] markup.tokens[u] == TokenView::Text(text);
        assert(after[u] == markup.tokens[u]);
    }
    if token == TokenView::Text(text) {
        assert(after[markup.tokens.len() as int] == token);
    }
}

/// Whether a part of the window keeps what was written before it, and gives no
/// command that lasts.
spec fn is_quiet(before: MarkupView, after: MarkupView) -> bool {
    &&& last_command(after.tokens) == last_command(before.tokens)
    &&& keeps(before, after)
}

/// Whether a part of the window keeps what was written before it.
spec fn keeps(before: MarkupView, after: MarkupView) -> bool {
    &&& forall|command: UiCommand, text: Seq<char>|
        offers(before.tokens, command, text) ==> #[trigger] offers(after.tokens, command, text)
    &&& forall|text: Seq<char>|
        shows(before.tokens, text) ==> #[trigger] shows(after.tokens, text)
}

proof fn lemma_icon_usb(markup: MarkupView)
    ensures
        is_quiet(markup, markup.icon_usb()),
{
    broadcast use {lemma_command_with, lemma_offers_with, lemma_shows_with};
    reveal(MarkupView::icon_usb);
}

proof fn lemma_icon_chevron(markup: MarkupView)
    ensures
        is_quiet(markup, markup.icon_chevron()),
{
    broadcast use {lemma_command_with, lemma_offers_with, lemma_shows_with};
    reveal(MarkupView::icon_chevron);
}

proof fn lemma_icon_folder(markup: MarkupView)
    ensures
        is_quiet(markup, markup.icon_folder()),
{
    broadcast use {lemma_command_with, lemma_offers_with, lemma_shows_with};
    reveal(MarkupView::icon_folder);
}

proof fn lemma_icon_pdf(markup: MarkupView)
    ensures
        is_quiet(markup, markup.icon_pdf_document()),
{
    broadcast use {lemma_command_with, lemma_offers_with, lemma_shows_with};
    reveal(MarkupView::icon_pdf_document);
}

proof fn lemma_drive_button(markup: MarkupView, drive: DriveView, index: int)
    requires
        0 <= index < 16,
    ensures
        keeps(markup, markup.drive_button(drive, index)),
        offers(
            markup.drive_button(drive, index).tokens,
            UiCommand::UsbDriveSelected(index as usize),
            drive_text(drive),
        ),
{
    broadcast use {lemma_command_with, lemma_offers_with, lemma_shows_with};
    let command = UiCommand::UsbDriveSelected(index as usize);
    let start = markup.button_start("drive-button"@, command).begin("span"@, "drive-icon"@);
    lemma_icon_usb(start);
    let titled = start.icon_usb().close().begin("span"@, "drive-copy"@).element_in(
        "span"@,
        "drive-title"@,
        drive_text(drive),
    );
    assert(offers(titled.tokens, command, drive_text(drive)));
    let before = titled.element_in("span"@, "drive-root"@, "Root: "@ + drive.root).close().begin(
        "span"@,
        "tool-chevron"@,
    );
    assert(offers(before.tokens, command, drive_text(drive)));
    lemma_icon_chevron(before);
}

proof fn lemma_drive_buttons(markup: MarkupView, drives: Seq<DriveView>, count: int, i: int)
    requires
        0 <= i < count <= drives.len(),
        count <= 16,
    ensures
        offers(
            markup.drive_buttons(drives, count).tokens,
            UiCommand::UsbDriveSelected(i as usize),
            drive_text(drives[i]),
        ),
    decreases count,
{
    let before = markup.drive_buttons(drives, count - 1);
    lemma_drive_button(before, drives[count - 1], count - 1);
    if i < count - 1 {
        lemma_drive_buttons(markup, drives, count - 1, i);
    }
}

proof fn lemma_drive_view(markup: MarkupView, drives: Seq<DriveView>, i: int)
    requires
        0 <= i < drives.len(),
        i < 16,
    ensures
        offers(
            markup.drive_select_view(drives).tokens,
            UiCommand::UsbDriveSelected(i as usize),
            drive_text(drives[i]),
        ),
{
    broadcast use {lemma_command_with, lemma_offers_with, lemma_shows_with};
    let start = markup.begin("div"@, "view"@).begin("section"@, "panel"@).heading(
        "USB safe eject"@,
        "Select the drive to close locking processes and request safe eject."@,
    ).begin("div"@, "drive-list"@);
    let count = if drives.len() > 16 {
        16
    } else {
        drives.len() as int
    };
    lemma_drive_buttons(start, drives, count, i);
}

/// Each of the first sixteen drives has a button that shows it and chooses it.
pub proof fn every_drive_has_its_own_button(markup: MarkupView, state: StateView, i: int)
    requires
        state.screen == Screen::UsbDriveSelect,
        0 <= i < state.usb_drives.len(),
        i < 16,
    ensures
        offers(
            markup.window(state).tokens,
            UiCommand::UsbDriveSelected(i as usize),
            drive_text(state.usb_drives[i]),
        ),
{
    lemma_window(markup, state);
    let start = markup.content_start(state);
    lemma_drive_view(start, state.usb_drives, i);
}

impl MarkupView {
    /// The window up to what the screen shows.
    spec fn content_start(self, state: StateView) -> MarkupView {
        self.open("div"@).id("app"@).begin("section"@, "shell"@).begin("header"@, "topbar"@).begin(
            "div"@,
            "brand"@,
        ).begin("span"@, "brand-mark"@).icon_app_brand().close().begin(
            "div"@,
            "brand-copy"@,
        ).element("h1"@, "PrintLTools"@).element(
            "p"@,
            "Print and file utilities"@,
        ).close().close().top_actions(state.screen).close().begin("main"@, "content"@)
    }
}

/// What the screen shows is shown by the window.
proof fn lemma_window(markup: MarkupView, state: StateView)
    ensures
        keeps(markup.content_start(state).screen_view(state), markup.window(state)),
{
    broadcast use {lemma_command_with, lemma_offers_with, lemma_shows_with};
    let inner = markup.content_start(state).screen_view(state);
    assert(markup.window(state) == inner.close().close().close());
}

proof fn lemma_tool_content(markup: MarkupView, tool: ToolView)
    ensures
        keeps(markup, markup.tool_content(tool)),
        forall|command: UiCommand|
            last_command(markup.tokens) == Some(command) ==> #[trigger] offers(
                markup.tool_content(tool).tokens,
                command,
                tool.name,
            ),
{
    broadcast use {lemma_command_with, lemma_offers_with, lemma_shows_with};
    reveal(MarkupView::tool_content);
    reveal(MarkupView::tool_icon);
    let start = markup.begin("span"@, "tool-accent"@).close().begin(
        "span"@,
        "tool-surface"@,
    ).close();
    let icon = start.tool_icon(tool.id);
    match tool.id {
        ToolId::FolderPageCounter => {
            lemma_icon_folder(start.begin("span"@, "tool-icon"@).class("folder"@));
        },
        ToolId::UsbSafeEject => {
            lemma_icon_usb(start.begin("span"@, "tool-icon"@).class("usb"@));
        },
        ToolId::PdfJoiner => {
            lemma_icon_pdf(start.begin("span"@, "tool-icon"@).class("pdf"@));
        },
    }
    assert(is_quiet(start, icon));
    let titled = icon.begin("span"@, "tool-copy"@).element_in("span"@, "tool-title"@, tool.name);
    let before = titled.element_in(
        "span"@,
        "tool-description"@,
        tool.description,
    ).element_in(
        "span"@,
        "tool-meta"@,
        tool.short_name + " - "@ + crate::app::views::status_word(tool.status),
    ).close().begin("span"@, "tool-chevron"@);
    assert(keeps(titled, before));
    lemma_icon_chevron(before);
    assert(markup.tool_content(tool) == before.icon_chevron().close());
    assert forall|command: UiCommand| last_command(markup.tokens) == Some(command) implies
        #[trigger] offers(markup.tool_content(tool).tokens, command, tool.name) by {
        assert(last_command(icon.tokens) == Some(command));
        assert(offers(titled.tokens, command, tool.name));
        assert(offers(before.tokens, command, tool.name));
    }
}

proof fn lemma_tool_button(markup: MarkupView, tool: ToolView)
    requires
        tool.status == ToolStatus::Ready,
    ensures
        keeps(markup, markup.tool_button(tool)),
        offers(markup.tool_button(tool).tokens, UiCommand::ToolPressed(tool.id), tool.name),
{
    broadcast use {lemma_command_with, lemma_offers_with, lemma_shows_with};
    reveal(MarkupView::tool_button);
    let given = markup.begin("button"@, "tool-button"@).attribute("type"@, "button"@).command(
        UiCommand::ToolPressed(tool.id),
    ).class(crate::app::views::variant_class(tool.id)).accent(tool.id);
    lemma_tool_content(given, tool);
    assert(keeps(markup, given));
}

/// Each tool has a button that shows its name and starts it.
pub proof fn every_tool_has_its_own_button(markup: MarkupView, state: StateView)
    requires
        state.screen == Screen::Launcher,
    ensures
        offers(
            markup.window(state).tokens,
            UiCommand::ToolPressed(ToolId::FolderPageCounter),
            "Folder page counter"@,
        ),
        offers(
            markup.window(state).tokens,
            UiCommand::ToolPressed(ToolId::UsbSafeEject),
            "USB safe eject"@,
        ),
        offers(
            markup.window(state).tokens,
            UiCommand::ToolPressed(ToolId::PdfJoiner),
            "PDF joiner"@,
        ),
{
    lemma_window(markup, state);
    lemma_launcher_tools(markup.content_start(state), state);
}

proof fn lemma_launcher_tools(markup: MarkupView, state: StateView)
    ensures
        offers(
            markup.launcher_view(state).tokens,
            UiCommand::ToolPressed(ToolId::FolderPageCounter),
            "Folder page counter"@,
        ),
        offers(
            markup.launcher_view(state).tokens,
            UiCommand::ToolPressed(ToolId::UsbSafeEject),
            "USB safe eject"@,
        ),
        offers(
            markup.launcher_view(state).tokens,
            UiCommand::ToolPressed(ToolId::PdfJoiner),
            "PDF joiner"@,
        ),
        state.last_result is Some ==> shows(
            markup.launcher_view(state).tokens,
            state.last_result->0.summary,
        ) && shows(markup.launcher_view(state).tokens, state.last_result->0.title),
{
    broadcast use {lemma_command_with, lemma_offers_with, lemma_shows_with};
    let start = markup.begin("div"@, "view"@).begin("section"@, "panel"@).heading(
        "Tools"@,
        "Choose a utility to start."@,
    ).begin("div"@, "tool-list"@);
    let first = start.tool_button(crate::registry::page_counter_tool());
    let second = first.tool_button(crate::registry::usb_eject_tool());
    let third = second.tool_button(crate::registry::pdf_joiner_tool());
    lemma_tool_button(start, crate::registry::page_counter_tool());
    lemma_tool_button(first, crate::registry::usb_eject_tool());
    lemma_tool_button(second, crate::registry::pdf_joiner_tool());
    let options = third.close().close().begin("section"@, "panel"@).heading(
        "Folder options"@,
        "Used by the folder page counter."@,
    );
    assert(keeps(third, options));
    lemma_toggle(
        options,
        "Include subfolders"@,
        state.include_subfolders,
        UiCommand::ToggleIncludeSubfolders,
    );
    let toggled = options.toggle_button(
        "Include subfolders"@,
        state.include_subfolders,
        UiCommand::ToggleIncludeSubfolders,
    );
    let panel = toggled.close().begin("section"@, "panel"@).heading(
        "Latest result"@,
        "Most recent completed operation."@,
    );
    assert(keeps(toggled, panel));
    lemma_latest(panel, state.last_result);
    let end = panel.latest_result_panel(state.last_result);
    assert(markup.launcher_view(state) == end.close().close());
    assert(keeps(end, end.close().close()));
}

proof fn lemma_latest(markup: MarkupView, result: Option<ResultView>)
    ensures
        keeps(markup, markup.latest_result_panel(result)),
        result is Some ==> shows(markup.latest_result_panel(result).tokens, result->0.summary)
            && shows(markup.latest_result_panel(result).tokens, result->0.title),
{
    broadcast use {lemma_command_with, lemma_offers_with, lemma_shows_with};
    reveal(MarkupView::icon_history);
}

proof fn lemma_toggle(markup: MarkupView, label: Seq<char>, selected: bool, command: UiCommand)
    ensures
        keeps(markup, markup.toggle_button(label, selected, command)),
        offers(markup.toggle_button(label, selected, command).tokens, command, label),
        offers(
            markup.toggle_button(label, selected, command).tokens,
            command,
            if selected {
                "ON"@
            } else {
                "OFF"@
            },
        ),
{
    broadcast use {lemma_command_with, lemma_offers_with, lemma_shows_with};
    reveal(MarkupView::toggle_button);
}

/// A setting has a button that names it, tells whether it is on, and changes it.
pub proof fn every_setting_has_its_own_button(markup: MarkupView, state: StateView)
    requires
        state.screen == Screen::Settings,
    ensures
        offers(
            markup.window(state).tokens,
            UiCommand::ToggleOpenOnTrayClick,
            "Open launcher when restoring from tray"@,
        ),
        offers(
            markup.window(state).tokens,
            UiCommand::ToggleRememberLastFolders,
            "Remember last folders"@,
        ),
        offers(
            markup.window(state).tokens,
            UiCommand::ToggleOpenOnTrayClick,
            if state.open_launcher_on_tray_click {
                "ON"@
            } else {
                "OFF"@
            },
        ),
        offers(
            markup.window(state).tokens,
            UiCommand::ToggleRememberLastFolders,
            if state.remember_last_folders {
                "ON"@
            } else {
                "OFF"@
            },
        ),
{
    broadcast use {lemma_command_with, lemma_offers_with, lemma_shows_with};
    lemma_window(markup, state);
    let start = markup.content_start(state).begin("div"@, "view"@).begin(
        "section"@,
        "panel"@,
    ).heading("Settings"@, "Local application preferences."@).begin("div"@, "settings-list"@);
    let first = start.toggle_button(
        "Open launcher when restoring from tray"@,
        state.open_launcher_on_tray_click,
        UiCommand::ToggleOpenOnTrayClick,
    );
    lemma_toggle(
        start,
        "Open launcher when restoring from tray"@,
        state.open_launcher_on_tray_click,
        UiCommand::ToggleOpenOnTrayClick,
    );
    lemma_toggle(
        first,
        "Remember last folders"@,
        state.remember_last_folders,
        UiCommand::ToggleRememberLastFolders,
    );
    let second = first.toggle_button(
        "Remember last folders"@,
        state.remember_last_folders,
        UiCommand::ToggleRememberLastFolders,
    );
    let end = second.close().element_in(
        "p"@,
        "muted-line"@,
        "Start with Windows and persisted settings are planned for Epic F."@,
    ).close().close();
    assert(keeps(second, end));
    assert(markup.content_start(state).screen_view(state) == end);
}

proof fn lemma_details(markup: MarkupView, details: Seq<Seq<char>>, i: int)
    requires
        0 <= i < details.len(),
    ensures
        keeps(markup, markup.detail_lines(details)),
        shows(markup.detail_lines(details).tokens, details[i]),
    decreases details.len(),
{
    broadcast use {lemma_command_with, lemma_offers_with, lemma_shows_with};
    lemma_details_keep(markup, details.drop_last());
    if i < details.len() - 1 {
        lemma_details(markup, details.drop_last(), i);
    }
}

proof fn lemma_details_keep(markup: MarkupView, details: Seq<Seq<char>>)
    ensures
        keeps(markup, markup.detail_lines(details)),
    decreases details.len(),
{
    broadcast use {lemma_command_with, lemma_offers_with, lemma_shows_with};
    if details.len() > 0 {
        lemma_details_keep(markup, details.drop_last());
    }
}

/// A report is shown whole: its title, its summary and every line of its details.
pub proof fn reports_are_shown_whole(
    markup: MarkupView,
    state: StateView,
    result: ResultView,
    i: int,
)
    requires
        state.screen == Screen::ShowResult,
        state.last_result == Some(result),
    ensures
        shows(markup.window(state).tokens, result.title),
        shows(markup.window(state).tokens, result.summary),
        0 <= i < result.details.len() ==> shows(markup.window(state).tokens, result.details[i]),
        offers(markup.window(state).tokens, UiCommand::DismissResult, "Back to launcher"@),
{
    broadcast use {lemma_command_with, lemma_offers_with, lemma_shows_with};
    lemma_window(markup, state);
    let start = markup.content_start(state).begin("div"@, "view"@).begin(
        "section"@,
        crate::app::views::panel_class(result.level),
    ).element_in("p"@, "eyebrow"@, crate::app::views::level_word(result.level)).element(
        "h2"@,
        result.title,
    ).element_in("p"@, "result-summary"@, result.summary);
    let list = start.result_detail_list(result.details);
    lemma_details_keep(start.begin("div"@, "detail-list"@), result.details);
    assert(keeps(start, list));
    if 0 <= i < result.details.len() {
        lemma_details(start.begin("div"@, "detail-list"@), result.details, i);
        assert(shows(list.tokens, result.details[i]));
    }
    let end = list.begin("div"@, "button-row"@).action_button(
        "Back to launcher"@,
        UiCommand::DismissResult,
    ).action_button("Keep result"@, UiCommand::OpenLauncher).close().close().close();
    assert(keeps(list, end));
    assert(markup.content_start(state).screen_view(state) == end);
}

/// A count that waits to be confirmed shows the folder and the choice, and has
/// buttons to run it and to cancel it.
pub proof fn counts_are_confirmed_knowingly(
    markup: MarkupView,
    state: StateView,
    prompt: PageCounterPrompt,
)
    requires
        state.screen == Screen::PageCounterPrompt,
        state.page_counter_prompt == Some(prompt),
    ensures
        shows(markup.window(state).tokens, "Folder: "@ + shown_path(prompt.folder)),
        prompt.include_subfolders ==> shows(
            markup.window(state).tokens,
            "Include subfolders: "@ + "yes"@,
        ),
        !prompt.include_subfolders ==> shows(
            markup.window(state).tokens,
            "Include subfolders: "@ + "no"@,
        ),
        offers(markup.window(state).tokens, UiCommand::RunPendingPageCounter, "Count pages"@),
        offers(markup.window(state).tokens, UiCommand::CancelPendingTool, "Cancel"@),
{
    broadcast use {lemma_command_with, lemma_offers_with, lemma_shows_with};
    lemma_window(markup, state);
    let facts = markup.content_start(state).begin("div"@, "view"@).begin(
        "section"@,
        "panel"@,
    ).heading("Folder page counter"@, "Confirm options before counting pages."@).begin(
        "div"@,
        "fact-list"@,
    ).element("p"@, "Folder: "@ + shown_path(prompt.folder)).element(
        "p"@,
        "Include subfolders: "@ + crate::app::reports::yes_or_no(prompt.include_subfolders),
    ).close().element("h3"@, "PowerPoint slides per printed page"@);
    let slides = facts.slide_options(state.powerpoint_slides_per_page);
    lemma_slides(facts, state.powerpoint_slides_per_page);
    let end = slides.begin("div"@, "button-row"@).action_button(
        "Count pages"@,
        UiCommand::RunPendingPageCounter,
    ).action_button("Cancel"@, UiCommand::CancelPendingTool).close().close().close();
    assert(keeps(slides, end));
    assert(markup.content_start(state).screen_view(state) == end);
}

proof fn lemma_slide(markup: MarkupView, value: u32, selected: u32)
    ensures
        keeps(markup, markup.slide_button(value, selected)),
        offers(
            markup.slide_button(value, selected).tokens,
            UiCommand::PowerPointSlidesPerPageChanged(value),
            crate::text::decimal(value as nat),
        ),
{
    broadcast use {lemma_command_with, lemma_offers_with, lemma_shows_with};
}

proof fn lemma_slides(markup: MarkupView, selected: u32)
    ensures
        keeps(markup, markup.slide_options(selected)),
        forall|value: u32|
            value == 1 || value == 2 || value == 3 || value == 4 || value == 6 || value == 9
                ==> #[trigger] offers(
                markup.slide_options(selected).tokens,
                UiCommand::PowerPointSlidesPerPageChanged(value),
                crate::text::decimal(value as nat),
            ),
{
    broadcast use {lemma_command_with, lemma_offers_with, lemma_shows_with};
    let start = markup.begin("div"@, "segmented"@);
    let a = start.slide_button(1, selected);
    let b = a.slide_button(2, selected);
    let c = b.slide_button(3, selected);
    let d = c.slide_button(4, selected);
    let e = d.slide_button(6, selected);
    let f = e.slide_button(9, selected);
    lemma_slide(start, 1, selected);
    lemma_slide(a, 2, selected);
    lemma_slide(b, 3, selected);
    lemma_slide(c, 4, selected);
    lemma_slide(d, 6, selected);
    lemma_slide(e, 9, selected);
    assert(markup.slide_options(selected) == f.close());
}

/// The latest report stays in view in the launcher until it is dismissed.
pub proof fn the_latest_report_stays_in_view(
    markup: MarkupView,
    state: StateView,
    result: ResultView,
)
    requires
        state.screen == Screen::Launcher,
        state.last_result == Some(result),
    ensures
        shows(markup.window(state).tokens, result.summary),
        shows(markup.window(state).tokens, result.title),
{
    lemma_window(markup, state);
    lemma_launcher_tools(markup.content_start(state), state);
}

/// While a task runs, the window says which and what it does.
pub proof fn running_tasks_are_shown(
    markup: MarkupView,
    state: StateView,
    title: Seq<char>,
    detail: Seq<char>,
)
    requires
        state.screen == Screen::Processing,
        state.processing_title == Some(title),
        state.processing_detail == Some(detail),
    ensures
        shows(markup.window(state).tokens, title),
        shows(markup.window(state).tokens, detail),
{
    broadcast use {lemma_command_with, lemma_offers_with, lemma_shows_with};
    lemma_window(markup, state);
}

} // verus!
