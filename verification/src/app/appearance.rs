//! What the controls of the window are called, and which commands they give.

use crate::app::UiCommand;
use crate::registry::{ToolId, ToolStatus};
use crate::results::ResultLevel;
use crate::text::{decimal, decimal_text};
use vstd::prelude::*;
use vstd::string::*;

verus! {

/// How many drives are offered at most.
pub const MAX_USB_DRIVE_BUTTONS: usize = 16;

/// The width of the window.
pub const WINDOW_WIDTH: usize = 520;

/// The height of the window.
pub const WINDOW_HEIGHT: usize = 680;

/// A colour without transparency.
#[derive(Debug, Clone, Copy, PartialEq, Eq, Structural)]
pub struct Rgb {
    pub r: u8,
    pub g: u8,
    pub b: u8,
}

/// The class of a tool's button.
pub fn tool_button_variant_class(id: ToolId) -> (class: &'static str)
    ensures
        class@ == match id {
            ToolId::FolderPageCounter => "tool-folder"@,
            ToolId::UsbSafeEject => "tool-usb"@,
            ToolId::PdfJoiner => "tool-pdf"@,
        },
{
    match id {
        ToolId::FolderPageCounter => "tool-folder",
        ToolId::UsbSafeEject => "tool-usb",
        ToolId::PdfJoiner => "tool-pdf",
    }
}

/// The class of a tool's icon.
pub fn tool_icon_class(id: ToolId) -> (class: &'static str)
    ensures
        class@ == match id {
            ToolId::FolderPageCounter => "folder"@,
            ToolId::UsbSafeEject => "usb"@,
            ToolId::PdfJoiner => "pdf"@,
        },
{
    match id {
        ToolId::FolderPageCounter => "folder",
        ToolId::UsbSafeEject => "usb",
        ToolId::PdfJoiner => "pdf",
    }
}

/// The colour from which a tool's accent is made.
pub fn tool_accent_base(id: ToolId) -> (colour: Rgb)
    ensures
        colour == match id {
            ToolId::FolderPageCounter => (Rgb { r: 34, g: 135, b: 214 }),
            ToolId::UsbSafeEject => (Rgb { r: 30, g: 180, b: 132 }),
            ToolId::PdfJoiner => (Rgb { r: 117, g: 86, b: 206 }),
        },
{
    match id {
        ToolId::FolderPageCounter => Rgb { r: 34, g: 135, b: 214 },
        ToolId::UsbSafeEject => Rgb { r: 30, g: 180, b: 132 },
        ToolId::PdfJoiner => Rgb { r: 117, g: 86, b: 206 },
    }
}

/// A colour as a style sheet writes it.
pub fn color_css(colour: Rgb) -> (text: String)
    ensures
        text@ == "rgb("@ + decimal(colour.r as nat) + ", "@ + decimal(colour.g as nat) + ", "@
            + decimal(colour.b as nat) + ")"@,
{
    let r = decimal_text(colour.r as u128);
    let g = decimal_text(colour.g as u128);
    let b = decimal_text(colour.b as u128);
    let mut text = "rgb(".to_owned();
    text.append(r.as_str());
    text.append(", ");
    text.append(g.as_str());
    text.append(", ");
    text.append(b.as_str());
    text.append(")");
    text
}

/// Whether a tool can be used, in a word.
pub fn tool_status_label(status: ToolStatus) -> (label: &'static str)
    ensures
        label@ == match status {
            ToolStatus::Ready => "Ready"@,
            ToolStatus::Planned => "Planned"@,
        },
{
    match status {
        ToolStatus::Ready => "Ready",
        ToolStatus::Planned => "Planned",
    }
}

/// The class of a panel with a report.
pub fn result_panel_class(level: ResultLevel) -> (class: &'static str)
    ensures
        class@ == match level {
            ResultLevel::Info => "result-panel-info"@,
            ResultLevel::Warning => "result-panel-warning"@,
            ResultLevel::Error => "result-panel-error"@,
        },
{
    match level {
        ResultLevel::Info => "result-panel-info",
        ResultLevel::Warning => "result-panel-warning",
        ResultLevel::Error => "result-panel-error",
    }
}

/// How a tool ended, in a word.
pub fn result_level_label(level: ResultLevel) -> (label: &'static str)
    ensures
        label@ == match level {
            ResultLevel::Info => "Info"@,
            ResultLevel::Warning => "Warning"@,
            ResultLevel::Error => "Error"@,
        },
{
    match level {
        ResultLevel::Info => "Info",
        ResultLevel::Warning => "Warning",
        ResultLevel::Error => "Error",
    }
}

/// The command of a tool's button.
pub fn tool_handler(id: ToolId) -> (command: UiCommand)
    ensures
        command == UiCommand::ToolPressed(id),
{
    UiCommand::ToolPressed(id)
}

/// Whether a number of slides on a page is offered.
pub open spec fn is_slide_option(value: u32) -> bool {
    value == 1 || value == 2 || value == 3 || value == 4 || value == 6 || value == 9
}

/// The numbers of slides on a page that are offered, in their order.
pub fn slide_options() -> (options: Vec<u32>)
    ensures
        options@ == seq![1u32, 2, 3, 4, 6, 9],
        forall|value: u32| options@.contains(value) <==> #[trigger] is_slide_option(value),
{
    let mut options: Vec<u32> = Vec::new();
    options.push(1);
    options.push(2);
    options.push(3);
    options.push(4);
    options.push(6);
    options.push(9);
    assert(options@ =~= seq![1u32, 2, 3, 4, 6, 9]);
    assert forall|value: u32| options@.contains(value) <==> #[trigger] is_slide_option(value) by {
        if is_slide_option(value) {
            let i: int = if value <= 4 {
                value - 1
            } else if value == 6 {
                4
            } else {
                5
            };
            assert(options@[i] == value);
        }
    }
    options
}

/// The command of a button with a number of slides. One that is not offered
/// stands for four.
pub fn slide_handler(value: u32) -> (command: UiCommand)
    ensures
        command == UiCommand::PowerPointSlidesPerPageChanged(
            if is_slide_option(value) {
                value
            } else {
                4u32
            },
        ),
{
    if value == 1 || value == 2 || value == 3 || value == 6 || value == 9 {
        UiCommand::PowerPointSlidesPerPageChanged(value)
    } else {
        UiCommand::PowerPointSlidesPerPageChanged(4)
    }
}

/// The command of a drive's button, where the drive has one.
pub fn drive_select_handler(index: usize) -> (command: Option<UiCommand>)
    ensures
        command == if index < MAX_USB_DRIVE_BUTTONS {
            Some(UiCommand::UsbDriveSelected(index))
        } else {
            None
        },
{
    if index < MAX_USB_DRIVE_BUTTONS {
        Some(UiCommand::UsbDriveSelected(index))
    } else {
        None
    }
}

/// Whether there are more drives than buttons for them.
pub fn hides_drives(count: usize) -> (hidden: bool)
    ensures
        hidden == (count > MAX_USB_DRIVE_BUTTONS),
{
    count > MAX_USB_DRIVE_BUTTONS
}

/// The word on a toggle.
pub fn toggle_label(selected: bool) -> (label: &'static str)
    ensures
        label@ == if selected {
            "ON"@
        } else {
            "OFF"@
        },
{
    if selected {
        "ON"
    } else {
        "OFF"
    }
}

/// The colour of the root surface where it has none.
pub open spec fn root_surface() -> Rgb {
    Rgb { r: 224, g: 239, b: 247 }
}

/// A colour that differs from the given one by the lowest bit of its blue, so
/// that the whole window is painted again.
pub open spec fn repaint_colour(background: Option<Rgb>) -> Rgb {
    let base = match background {
        Some(colour) => colour,
        None => root_surface(),
    };
    Rgb {
        b: if base.b % 2 == 0 {
            (base.b + 1) as u8
        } else {
            (base.b - 1) as u8
        },
        ..base
    }
}

/// The colour with which the whole window is painted again.
pub fn full_repaint_marker(background: Option<Rgb>) -> (marked: Rgb)
    ensures
        marked == repaint_colour(background),
{
    let base = match background {
        Some(colour) => colour,
        None => Rgb { r: 224, g: 239, b: 247 },
    };
    let b: u8 = base.b;
    let marked: u8 = b ^ 1;
    assert(marked == if b % 2 == 0 {
        (b + 1) as u8
    } else {
        (b - 1) as u8
    }) by (bit_vector)
        requires
            marked == b ^ 1,
    ;
    Rgb { r: base.r, g: base.g, b: marked }
}

/// The marker always changes a colour, and marking twice gives it back.
pub proof fn marker_changes_every_colour(colour: Rgb)
    ensures
        repaint_colour(Some(colour)) != colour,
        repaint_colour(Some(repaint_colour(Some(colour)))) == colour,
{
}

/// For how many frames the whole window is still painted, one frame later.
pub fn next_repaint_frames(frames: u8, requested: u8) -> (next: u8)
    ensures
        next == {
            let left = if frames > 0 {
                frames - 1
            } else {
                0
            };
            if left > requested {
                left
            } else {
                requested as int
            }
        },
{
    let left: u8 = if frames > 0 {
        frames - 1
    } else {
        0
    };
    if left > requested {
        left
    } else {
        requested
    }
}

} // verus!
