//! Where the window goes, and what is said where it cannot be moved or hidden.

use vstd::prelude::*;
use vstd::string::*;

verus! {

/// The title of the window.
pub const WINDOW_TITLE: &'static str = "PrintLTools";

/// The distance that the window keeps from the edges of the work area.
pub const WINDOW_MARGIN: i32 = 12;

/// A rectangle on the screen.
#[derive(Debug, Clone, Copy, PartialEq, Eq, Structural)]
pub struct Rect {
    pub left: i32,
    pub top: i32,
    pub right: i32,
    pub bottom: i32,
}

/// A number brought into the range of an `i32`.
pub open spec fn clamped(n: int) -> int {
    if n > i32::MAX {
        i32::MAX as int
    } else if n < i32::MIN {
        i32::MIN as int
    } else {
        n
    }
}

/// The position along one axis: a margin from the far edge, but not before the
/// near edge.
pub open spec fn edge_position(near: int, far: int, start: int, end: int, margin: int) -> int {
    let size = clamped(end - start);
    let position = clamped(clamped(far - size) - margin);
    if position > near {
        position
    } else {
        near
    }
}

fn saturating_difference(a: i32, b: i32) -> (d: i32)
    ensures
        d == clamped(a - b),
{
    let d: i64 = a as i64 - b as i64;
    if d > i32::MAX as i64 {
        i32::MAX
    } else if d < i32::MIN as i64 {
        i32::MIN
    } else {
        d as i32
    }
}

/// Where the window goes: to the bottom right of the work area.
pub fn bottom_right_position(work_area: Rect, window: Rect, margin: i32) -> (position: (i32, i32))
    ensures
        position.0 == edge_position(
            work_area.left as int,
            work_area.right as int,
            window.left as int,
            window.right as int,
            margin as int,
        ),
        position.1 == edge_position(
            work_area.top as int,
            work_area.bottom as int,
            window.top as int,
            window.bottom as int,
            margin as int,
        ),
{
    let width: i32 = saturating_difference(window.right, window.left);
    let height: i32 = saturating_difference(window.bottom, window.top);
    let x: i32 = saturating_difference(saturating_difference(work_area.right, width), margin);
    let y: i32 = saturating_difference(saturating_difference(work_area.bottom, height), margin);
    let x: i32 = if x > work_area.left {
        x
    } else {
        work_area.left
    };
    let y: i32 = if y > work_area.top {
        y
    } else {
        work_area.top
    };
    (x, y)
}

/// The window never begins before the work area. Where the work area has room for
/// the window and the margin, the window ends exactly a margin before its far edge.
pub proof fn window_stays_in_the_work_area(
    near: int,
    far: int,
    start: int,
    end: int,
    margin: int,
)
    requires
        i32::MIN <= near <= far <= i32::MAX,
        i32::MIN <= start <= end <= i32::MAX,
        end - start <= i32::MAX,
        0 <= margin <= i32::MAX,
    ensures
        edge_position(near, far, start, end, margin) >= near,
        near + (end - start) + margin <= far ==> edge_position(near, far, start, end, margin) + (end
            - start) + margin == far,
{
}

/// Where there is no window to hide.
pub fn hide_window() -> (result: Result<(), String>)
    ensures
        result is Err,
        result->Err_0@ == "Minimize to tray is only implemented on Windows."@,
{
    Err("Minimize to tray is only implemented on Windows.".to_owned())
}

/// Where there is no window to bring back.
pub fn restore() -> (result: Result<(), String>)
    ensures
        result is Err,
        result->Err_0@ == "Tray window restore is only implemented on Windows."@,
{
    Err("Tray window restore is only implemented on Windows.".to_owned())
}

/// Where there is no window to be seen.
pub fn is_visible() -> (result: Result<bool, String>)
    ensures
        result is Err,
        result->Err_0@ == "Tray window visibility is only implemented on Windows."@,
{
    Err("Tray window visibility is only implemented on Windows.".to_owned())
}

/// Where there is no window to move.
pub fn position_bottom_right() -> (result: Result<(), String>)
    ensures
        result is Err,
        result->Err_0@ == "Automatic window positioning is only implemented on Windows."@,
{
    Err("Automatic window positioning is only implemented on Windows.".to_owned())
}

} // verus!
