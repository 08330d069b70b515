use printltools::window_control::{
    bottom_right_position, hide_window, is_visible, position_bottom_right, restore, Rect,
    WINDOW_MARGIN, WINDOW_TITLE,
};

#[test]
fn bottom_right_position_uses_work_area_and_margin() {
    let work_area = Rect {
        left: 0,
        top: 0,
        right: 1920,
        bottom: 1040,
    };
    let window = Rect {
        left: 100,
        top: 100,
        right: 620,
        bottom: 780,
    };

    assert_eq!(bottom_right_position(work_area, window, 12), (1388, 348));
}

#[test]
fn bottom_right_position_stays_inside_small_work_area() {
    let work_area = Rect {
        left: -1000,
        top: 0,
        right: 0,
        bottom: 600,
    };
    let window = Rect {
        left: 0,
        top: 0,
        right: 1200,
        bottom: 700,
    };

    assert_eq!(bottom_right_position(work_area, window, 12), (-1000, 0));
}

#[test]
fn positions_saturate() {
    let work_area = Rect {
        left: i32::MIN,
        top: i32::MIN,
        right: i32::MIN,
        bottom: i32::MAX,
    };
    let window = Rect {
        left: i32::MIN,
        top: i32::MAX,
        right: i32::MAX,
        bottom: i32::MIN,
    };
    let width = window.right.saturating_sub(window.left);
    let height = window.bottom.saturating_sub(window.top);
    let x = work_area.right.saturating_sub(width).saturating_sub(12).max(work_area.left);
    let y = work_area.bottom.saturating_sub(height).saturating_sub(12).max(work_area.top);

    assert_eq!(bottom_right_position(work_area, window, 12), (x, y));
}

#[test]
fn window_calls_fail_elsewhere() {
    assert_eq!(
        hide_window(),
        Err("Minimize to tray is only implemented on Windows.".to_string())
    );
    assert_eq!(
        restore(),
        Err("Tray window restore is only implemented on Windows.".to_string())
    );
    assert_eq!(
        is_visible(),
        Err("Tray window visibility is only implemented on Windows.".to_string())
    );
    assert_eq!(
        position_bottom_right(),
        Err("Automatic window positioning is only implemented on Windows.".to_string())
    );
    assert_eq!(WINDOW_TITLE, "PrintLTools");
    assert_eq!(WINDOW_MARGIN, 12);
}
