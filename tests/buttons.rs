use canary::buttons::{debounce_input, ButtonPanelState, DEBOUNCE_TICKS};

#[test]
fn first_press_is_delivered() {
    let mut last = None;
    assert!(!debounce_input(&mut last, 5));
    assert_eq!(last, Some(5));
}

#[test]
fn close_presses_collapse() {
    let mut last = None;
    assert!(!debounce_input(&mut last, 1_000));
    assert!(debounce_input(&mut last, 1_050));
    assert_eq!(last, Some(1_050));
}

#[test]
fn distant_presses_both_deliver() {
    let mut last = None;
    assert!(!debounce_input(&mut last, 1_000));
    assert!(!debounce_input(&mut last, 1_000 + DEBOUNCE_TICKS));
    assert_eq!(DEBOUNCE_TICKS, 100);
}

#[test]
fn debounce_across_clock_wrap() {
    let mut last = Some(u32::MAX - 10);
    assert!(debounce_input(&mut last, 20));
    let mut last = Some(u32::MAX - 10);
    assert!(!debounce_input(&mut last, 200));
}

#[test]
fn panel_state_default_is_released() {
    let s = ButtonPanelState::default();
    assert!(!s.ok_pressed && !s.up_pressed && !s.down_pressed && !s.right_pressed && !s.left_pressed);
}
