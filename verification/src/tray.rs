//! The icon in the tray: what its notifications mean.

use vstd::prelude::*;
use vstd::string::*;

verus! {

/// What the tray asks of the launcher.
#[derive(Debug, Clone, PartialEq, Eq)]
pub enum TrayEvent {
    HideLauncher,
    OpenLauncher,
    OpenSettings,
    Error(String),
}

/// What the tray asks of the launcher, as plain texts.
pub ghost enum TrayView {
    HideLauncher,
    OpenLauncher,
    OpenSettings,
    Error(Seq<char>),
}

impl View for TrayEvent {
    type V = TrayView;

    open spec fn view(&self) -> TrayView {
        match self {
            TrayEvent::HideLauncher => TrayView::HideLauncher,
            TrayEvent::OpenLauncher => TrayView::OpenLauncher,
            TrayEvent::OpenSettings => TrayView::OpenSettings,
            TrayEvent::Error(error) => TrayView::Error(error@),
        }
    }
}

/// Where there is no tray to start.
pub fn spawn() -> (result: Result<(), String>)
    ensures
        result is Err,
        result->Err_0@ == "Tray integration is only implemented on Windows."@,
{
    Err("Tray integration is only implemented on Windows.".to_owned())
}

/// Where there is no tray to send events.
pub fn spawn_events() -> (result: Result<(), String>)
    ensures
        result is Err,
        result->Err_0@ == "Tray integration is only implemented on Windows."@,
{
    spawn()
}

/// The code of a notification: the low sixteen bits of its parameter.
pub fn tray_notification_code(lparam: isize) -> (code: u32)
    ensures
        code == lparam as int % 0x10000,
{
    let low: isize = lparam % 0x10000;
    if low < 0 {
        (low + 0x10000) as u32
    } else {
        low as u32
    }
}

/// Within this time two notifications of different codes are one click.
pub const DUPLICATE_LEFT_CLICK_WINDOW_MS: u32 = 250;

/// Tells clicks from the second notification of the same click.
#[derive(Debug)]
pub struct LeftClickFilter {
    /// The code and the time of the last notification that was handled.
    pub last_handled: Option<(u32, u32)>,
}

/// The time from `earlier` to `later` on a clock of 32 bits.
pub open spec fn clock_distance(later: u32, earlier: u32) -> int {
    if later >= earlier {
        later - earlier
    } else {
        later - earlier + 0x1_0000_0000
    }
}

/// Whether a notification is the second one of a click that was handled.
pub open spec fn is_duplicate(last_handled: Option<(u32, u32)>, code: u32, time: u32) -> bool {
    match last_handled {
        Some((last_code, last_time)) => code != last_code && clock_distance(time, last_time)
            <= DUPLICATE_LEFT_CLICK_WINDOW_MS,
        None => false,
    }
}

impl LeftClickFilter {
    /// A filter that has seen nothing yet.
    pub fn new() -> (filter: Self)
        ensures
            filter.last_handled is None,
    {
        LeftClickFilter { last_handled: None }
    }

    /// Whether a notification is to be handled. One that is not leaves the filter
    /// as it was.
    pub fn should_handle(&mut self, code: u32, message_time: u32) -> (handle: bool)
        ensures
            handle == !is_duplicate(old(self).last_handled, code, message_time),
            final(self).last_handled == if handle {
                Some((code, message_time))
            } else {
                old(self).last_handled
            },
    {
        if let Some((last_code, last_time)) = self.last_handled {
            if code != last_code && message_time.wrapping_sub(last_time)
                <= DUPLICATE_LEFT_CLICK_WINDOW_MS {
                return false;
            }
        }
        self.last_handled = Some((code, message_time));
        true
    }
}

impl Default for LeftClickFilter {
    fn default() -> (filter: Self)
        ensures
            filter.last_handled is None,
    {
        LeftClickFilter::new()
    }
}

/// Of the two notifications of a click, whichever comes second within the time is
/// not handled, and repeated notifications of one code always are.
pub proof fn clicks_are_handled_once(code: u32, other: u32, time: u32, later: u32)
    requires
        code != other,
    ensures
        is_duplicate(Some((code, time)), other, later) <==> clock_distance(later, time)
            <= DUPLICATE_LEFT_CLICK_WINDOW_MS,
        !is_duplicate(Some((code, time)), code, later),
        !is_duplicate(None, code, time),
{
}

/// The notification that an icon was selected.
pub const NIN_SELECT: u32 = 0x400;

/// The notification that the left button went up.
pub const WM_LBUTTONUP: u32 = 0x202;

/// The notification that the right button went up.
pub const WM_RBUTTONUP: u32 = 0x205;

/// The menu entry that opens the launcher.
pub const MENU_OPEN: usize = 1001;

/// The menu entry that opens the settings.
pub const MENU_SETTINGS: usize = 1002;

/// The menu entry that ends the program.
pub const MENU_EXIT: usize = 1003;

/// What a notification or a menu entry asks for.
#[derive(Debug, Clone, Copy, PartialEq, Eq, Structural)]
pub enum TrayAction {
    /// Hide the window where it is visible, and bring it back where it is not.
    Toggle,
    ShowMenu,
    OpenLauncher,
    OpenSettings,
    Exit,
    Nothing,
}

/// What a notification asks for. The filter sees the left clicks only.
pub fn notification_action(filter: &mut LeftClickFilter, code: u32, message_time: u32) -> (action:
    TrayAction)
    ensures
        ({
            let left = code == NIN_SELECT || code == WM_LBUTTONUP;
            let handled = left && !is_duplicate(old(filter).last_handled, code, message_time);
            &&& action == if handled {
                TrayAction::Toggle
            } else if code == WM_RBUTTONUP {
                TrayAction::ShowMenu
            } else {
                TrayAction::Nothing
            }
            &&& final(filter).last_handled == if handled {
                Some((code, message_time))
            } else {
                old(filter).last_handled
            }
        }),
{
    if code == NIN_SELECT || code == WM_LBUTTONUP {
        if filter.should_handle(code, message_time) {
            TrayAction::Toggle
        } else {
            TrayAction::Nothing
        }
    } else if code == WM_RBUTTONUP {
        TrayAction::ShowMenu
    } else {
        TrayAction::Nothing
    }
}

/// What a menu entry asks for, by the low sixteen bits of its parameter.
pub fn menu_action(wparam: usize) -> (action: TrayAction)
    ensures
        action == {
            let entry = wparam as int % 0x10000;
            if entry == MENU_OPEN {
                TrayAction::OpenLauncher
            } else if entry == MENU_SETTINGS {
                TrayAction::OpenSettings
            } else if entry == MENU_EXIT {
                TrayAction::Exit
            } else {
                TrayAction::Nothing
            }
        },
{
    let entry: usize = wparam % 0x10000;
    if entry == MENU_OPEN {
        TrayAction::OpenLauncher
    } else if entry == MENU_SETTINGS {
        TrayAction::OpenSettings
    } else if entry == MENU_EXIT {
        TrayAction::Exit
    } else {
        TrayAction::Nothing
    }
}

/// What toggling does, by whether the window is visible.
#[derive(Debug, Clone, PartialEq, Eq)]
pub enum ToggleStep {
    /// Send the event.
    Send(TrayEvent),
    /// Bring the window back, and then send what `restored_event` gives.
    Restore,
}

/// What toggling does.
pub fn toggle_step(visible: Result<bool, String>) -> (step: ToggleStep)
    ensures
        match visible {
            Ok(true) => step is Send && step->Send_0@ == TrayView::HideLauncher,
            Ok(false) => step is Restore,
            Err(error) => step is Send && step->Send_0@ == TrayView::Error(error@),
        },
{
    match visible {
        Ok(visible) => {
            if visible {
                ToggleStep::Send(TrayEvent::HideLauncher)
            } else {
                ToggleStep::Restore
            }
        },
        Err(error) => ToggleStep::Send(TrayEvent::Error(error)),
    }
}

/// The event to send once it was tried to bring the window back.
pub fn restored_event(restored: Result<(), String>, event: TrayEvent) -> (sent: TrayEvent)
    ensures
        sent@ == match restored {
            Ok(_) => event@,
            Err(error) => TrayView::Error(error@),
        },
{
    match restored {
        Ok(_) => event,
        Err(error) => TrayEvent::Error(error),
    }
}

} // verus!
