use printltools::tray::{
    menu_action, notification_action, restored_event, spawn, spawn_events, toggle_step,
    tray_notification_code, LeftClickFilter, ToggleStep, TrayAction, TrayEvent,
    DUPLICATE_LEFT_CLICK_WINDOW_MS, MENU_EXIT, MENU_OPEN, MENU_SETTINGS, NIN_SELECT, WM_LBUTTONUP,
    WM_RBUTTONUP,
};
use printltools::wide::write_wide_fixed;

fn tray_uid() -> u32 {
    1
}

#[test]
fn tray_notification_uses_low_word_for_version_four_callbacks() {
    let encoded = ((tray_uid() as isize) << 16) | 0x0400;
    assert_eq!(tray_notification_code(encoded), 0x0400);
}

#[test]
fn paired_left_click_notifications_are_handled_once() {
    let mut filter = LeftClickFilter::default();

    assert!(filter.should_handle(0x0400, 1_000));
    assert!(!filter.should_handle(0x0202, 1_001));
}

#[test]
fn repeated_clicks_of_the_same_notification_type_are_preserved() {
    let mut filter = LeftClickFilter::default();

    assert!(filter.should_handle(0x0202, 1_000));
    assert!(filter.should_handle(0x0202, 1_050));
}

#[test]
fn later_notification_of_a_different_type_is_preserved() {
    let mut filter = LeftClickFilter::default();

    assert!(filter.should_handle(0x0400, 1_000));
    assert!(filter.should_handle(0x0202, 1_000 + DUPLICATE_LEFT_CLICK_WINDOW_MS + 1));
}

#[test]
fn notification_code_of_a_negative_parameter_is_its_low_word() {
    for lparam in [-1isize, -0x1_0000, -0x1_0001, 0x7fff_ffff, -2, 0] {
        assert_eq!(tray_notification_code(lparam), (lparam as usize & 0xffff) as u32);
    }
}

#[test]
fn click_window_spans_the_wrap_of_the_clock() {
    let mut filter = LeftClickFilter::new();
    assert!(filter.should_handle(0x0400, u32::MAX - 10));
    assert!(!filter.should_handle(0x0202, 5));
    assert_eq!(filter.last_handled, Some((0x0400, u32::MAX - 10)));
    assert!(filter.should_handle(0x0202, 300));
    assert_eq!(filter.last_handled, Some((0x0202, 300)));
}

#[test]
fn click_at_the_end_of_the_window_is_a_duplicate() {
    let mut filter = LeftClickFilter::new();
    assert!(filter.should_handle(1, 0));
    assert!(!filter.should_handle(2, DUPLICATE_LEFT_CLICK_WINDOW_MS));
    assert!(filter.should_handle(2, DUPLICATE_LEFT_CLICK_WINDOW_MS + 1));
}

#[test]
fn notifications_ask_for_actions() {
    let mut filter = LeftClickFilter::new();
    assert_eq!(notification_action(&mut filter, WM_RBUTTONUP, 0), TrayAction::ShowMenu);
    assert_eq!(filter.last_handled, None);
    assert_eq!(notification_action(&mut filter, NIN_SELECT, 1), TrayAction::Toggle);
    assert_eq!(notification_action(&mut filter, WM_LBUTTONUP, 2), TrayAction::Nothing);
    assert_eq!(notification_action(&mut filter, 0x0200, 3), TrayAction::Nothing);
    assert_eq!(notification_action(&mut filter, WM_LBUTTONUP, 1000), TrayAction::Toggle);
}

#[test]
fn menu_entries_ask_for_actions() {
    assert_eq!(menu_action(MENU_OPEN), TrayAction::OpenLauncher);
    assert_eq!(menu_action(MENU_SETTINGS | 0x5_0000), TrayAction::OpenSettings);
    assert_eq!(menu_action(MENU_EXIT), TrayAction::Exit);
    assert_eq!(menu_action(7), TrayAction::Nothing);
}

#[test]
fn toggling_hides_a_visible_window_and_restores_a_hidden_one() {
    assert_eq!(toggle_step(Ok(true)), ToggleStep::Send(TrayEvent::HideLauncher));
    assert_eq!(toggle_step(Ok(false)), ToggleStep::Restore);
    assert_eq!(
        toggle_step(Err("lost".to_string())),
        ToggleStep::Send(TrayEvent::Error("lost".to_string()))
    );
    assert_eq!(restored_event(Ok(()), TrayEvent::OpenSettings), TrayEvent::OpenSettings);
    assert_eq!(
        restored_event(Err("gone".to_string()), TrayEvent::OpenSettings),
        TrayEvent::Error("gone".to_string())
    );
}

#[test]
fn tray_is_missing_elsewhere() {
    assert_eq!(spawn(), Err("Tray integration is only implemented on Windows.".to_string()));
    assert_eq!(
        spawn_events(),
        Err("Tray integration is only implemented on Windows.".to_string())
    );
}

#[test]
fn tip_is_cut_to_its_buffer() {
    let mut buffer = vec![7u16; 6];
    write_wide_fixed(&mut buffer, "ab");
    assert_eq!(buffer, vec![97, 98, 0, 7, 7, 0]);

    let mut small = vec![7u16; 3];
    write_wide_fixed(&mut small, "abcdef");
    assert_eq!(small, vec![97, 98, 0]);

    let mut exact = vec![7u16; 3];
    write_wide_fixed(&mut exact, "a\0b");
    assert_eq!(exact, vec![97, 0, 0]);

    let mut none: Vec<u16> = Vec::new();
    write_wide_fixed(&mut none, "a");
    assert_eq!(none, Vec::<u16>::new());
}
