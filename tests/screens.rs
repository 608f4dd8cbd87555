use canary::buttons::Button;
use canary::can::{Bitrate, EmissionMode};
use canary::dir::ShortName;
use canary::state::{EmissionSettingsItem, HomeItem, Screen, State};

fn name(base: &[u8], ext: &[u8]) -> ShortName {
    ShortName::new(base, ext).unwrap()
}

fn listing(state: &mut State) {
    assert!(state.dir_content.push(true, ShortName::parent_dir()));
    assert!(state.dir_content.push(true, name(b"LOGS", b"")));
    assert!(state.dir_content.push(false, name(b"BOOT", b"LOG")));
}

#[test]
fn ok_on_file_opens_emission() {
    let mut state = State::default();
    listing(&mut state);
    let mut screen = Screen::EmissionSelection { selected_index: 2 };
    screen.press(Button::Okay, &mut state);
    assert_eq!(screen, Screen::Emission);
    assert_eq!(state.dir_path.len(), 1);
    assert_eq!(state.dir_path.last().unwrap(), name(b"BOOT", b"LOG"));
}

#[test]
fn home_selection_and_ok() {
    let mut state = State::default();
    let mut screen = Screen::default();
    assert_eq!(screen, Screen::Home { selected_item: HomeItem::Emit });
    screen.press(Button::Right, &mut state);
    assert_eq!(screen, Screen::Home { selected_item: HomeItem::Capture });
    screen.press(Button::Up, &mut state);
    assert_eq!(screen, Screen::Home { selected_item: HomeItem::Capture });
    screen.press(Button::Left, &mut state);
    assert_eq!(screen, Screen::Home { selected_item: HomeItem::Emit });
    screen.press(Button::Okay, &mut state);
    assert_eq!(screen, Screen::EmissionSelection { selected_index: 0 });
    assert!(state.running);
}

#[test]
fn browsing_index_is_clamped() {
    let mut state = State::default();
    listing(&mut state);
    let mut screen = Screen::EmissionSelection { selected_index: 0 };
    screen.press(Button::Up, &mut state);
    assert_eq!(screen, Screen::EmissionSelection { selected_index: 0 });
    screen.press(Button::Down, &mut state);
    screen.press(Button::Down, &mut state);
    screen.press(Button::Down, &mut state);
    assert_eq!(screen, Screen::EmissionSelection { selected_index: 2 });
    let mut stale = Screen::EmissionSelection { selected_index: 9 };
    stale.press(Button::Up, &mut state);
    assert_eq!(stale, Screen::EmissionSelection { selected_index: 1 });
}

#[test]
fn entering_and_leaving_directories() {
    let mut state = State::default();
    listing(&mut state);
    let mut screen = Screen::EmissionSelection { selected_index: 1 };
    screen.press(Button::Right, &mut state);
    assert_eq!(screen, Screen::EmissionSelection { selected_index: 0 });
    assert_eq!(state.dir_path.last().unwrap(), name(b"LOGS", b""));
    assert!(state.running);
    state.running = false;
    screen.press(Button::Okay, &mut state);
    assert_eq!(state.dir_path.len(), 0);
    assert!(state.running);
    assert!(state.dir_path.push(name(b"LOGS", b"")));
    screen.press(Button::Left, &mut state);
    assert_eq!(state.dir_path.len(), 0);
    assert_eq!(screen, Screen::EmissionSelection { selected_index: 0 });
    screen.press(Button::Left, &mut state);
    assert_eq!(screen, Screen::Home { selected_item: HomeItem::Emit });
    assert_eq!(state.dir_content.len(), 0);
}

#[test]
fn empty_listing_ignores_ok() {
    let mut state = State::default();
    let mut screen = Screen::CaptureSelection { selected_index: 0 };
    screen.press(Button::Okay, &mut state);
    assert_eq!(screen, Screen::CaptureSelection { selected_index: 0 });
    screen.press(Button::Down, &mut state);
    assert_eq!(screen, Screen::CaptureSelection { selected_index: 0 });
}

#[test]
fn emission_screen_count_and_toggle() {
    let mut state = State::default();
    let mut screen = Screen::Emission;
    screen.press(Button::Up, &mut state);
    assert_eq!(state.emission_count, 2);
    screen.press(Button::Down, &mut state);
    screen.press(Button::Down, &mut state);
    screen.press(Button::Down, &mut state);
    assert_eq!(state.emission_count, 0);
    state.emission_count = 255;
    screen.press(Button::Up, &mut state);
    assert_eq!(state.emission_count, 255);
    state.success_count = 17;
    screen.press(Button::Okay, &mut state);
    assert!(state.running);
    assert_eq!(state.success_count, 0);
    screen.press(Button::Left, &mut state);
    screen.press(Button::Right, &mut state);
    assert_eq!(screen, Screen::Emission);
    screen.press(Button::Okay, &mut state);
    assert!(!state.running);
    screen.press(Button::Right, &mut state);
    assert_eq!(screen, Screen::EmissionSettings { selected_item: EmissionSettingsItem::Bitrate });
}

#[test]
fn emission_left_returns_home_with_reset() {
    let mut state = State::default();
    state.emission_count = 9;
    state.success_count = 3;
    assert!(state.dir_path.push(name(b"A", b"LOG")));
    let mut screen = Screen::Emission;
    screen.press(Button::Left, &mut state);
    assert_eq!(screen, Screen::Home { selected_item: HomeItem::Emit });
    assert_eq!(state.emission_count, 1);
    assert_eq!(state.success_count, 0);
    assert!(state.dir_path.is_empty());
}

#[test]
fn settings_rows_and_values() {
    let mut state = State::default();
    let mut screen = Screen::EmissionSettings { selected_item: EmissionSettingsItem::Bitrate };
    screen.press(Button::Right, &mut state);
    assert_eq!(state.bitrate, Bitrate::Br250kbps);
    screen.press(Button::Left, &mut state);
    screen.press(Button::Left, &mut state);
    assert_eq!(state.bitrate, Bitrate::Br100kbps);
    screen.press(Button::Down, &mut state);
    assert_eq!(screen, Screen::EmissionSettings { selected_item: EmissionSettingsItem::Mode });
    screen.press(Button::Down, &mut state);
    assert_eq!(screen, Screen::EmissionSettings { selected_item: EmissionSettingsItem::Mode });
    screen.press(Button::Left, &mut state);
    assert_eq!(state.emission_mode, EmissionMode::Loopback);
    screen.press(Button::Right, &mut state);
    assert_eq!(state.emission_mode, EmissionMode::AwaitACK);
    screen.press(Button::Up, &mut state);
    assert_eq!(screen, Screen::EmissionSettings { selected_item: EmissionSettingsItem::Bitrate });
    screen.press(Button::Okay, &mut state);
    assert_eq!(screen, Screen::Emission);
}

#[test]
fn capture_flow() {
    let mut state = State::default();
    assert!(state.dir_content.push(true, ShortName::this_dir()));
    assert!(state.dir_content.push(true, name(b"CAPS", b"")));
    let mut screen = Screen::Home { selected_item: HomeItem::Capture };
    screen.press(Button::Okay, &mut state);
    assert_eq!(screen, Screen::CaptureSelection { selected_index: 0 });
    state.running = false;
    screen.press(Button::Down, &mut state);
    screen.press(Button::Okay, &mut state);
    assert_eq!(screen, Screen::Capture);
    assert_eq!(state.dir_path.last().unwrap(), name(b"CAPS", b""));
    screen.press(Button::Right, &mut state);
    assert!(state.capture_silent);
    screen.press(Button::Up, &mut state);
    assert_eq!(state.bitrate, Bitrate::Br250kbps);
    screen.press(Button::Down, &mut state);
    screen.press(Button::Down, &mut state);
    assert_eq!(state.bitrate, Bitrate::Br100kbps);
    screen.press(Button::Okay, &mut state);
    assert!(state.running);
    screen.press(Button::Left, &mut state);
    assert_eq!(screen, Screen::Capture);
    screen.press(Button::Okay, &mut state);
    screen.press(Button::Left, &mut state);
    assert_eq!(screen, Screen::Home { selected_item: HomeItem::Capture });
}

#[test]
fn capture_ok_on_this_dir_keeps_path() {
    let mut state = State::default();
    assert!(state.dir_content.push(true, ShortName::this_dir()));
    let mut screen = Screen::CaptureSelection { selected_index: 0 };
    screen.press(Button::Okay, &mut state);
    assert_eq!(screen, Screen::Capture);
    assert!(state.dir_path.is_empty());
}

#[test]
fn full_path_refuses_deeper_directory() {
    let mut state = State::default();
    for _ in 0..8 {
        assert!(state.dir_path.push(name(b"D", b"")));
    }
    assert!(state.dir_path.is_full());
    assert!(state.dir_content.push(true, name(b"DEEP", b"")));
    let mut screen = Screen::EmissionSelection { selected_index: 0 };
    screen.press(Button::Okay, &mut state);
    assert_eq!(state.dir_path.len(), 8);
    assert!(!state.running);
}

#[test]
fn state_defaults_and_counters() {
    let mut state = State::default();
    assert_eq!(state.bitrate, Bitrate::Br125kbps);
    assert_eq!(state.emission_mode, EmissionMode::AwaitACK);
    assert_eq!(state.emission_count, 1);
    assert!(!state.capture_silent && !state.running);
    state.success_count = 12_345;
    assert_eq!(state.success_display(), 2_345);
    state.success_count = u32::MAX;
    state.record_success();
    assert_eq!(state.success_count, 0);
}

#[test]
fn settings_item_steps() {
    let mut item = EmissionSettingsItem::Bitrate;
    item.decrement();
    assert_eq!(item, EmissionSettingsItem::Bitrate);
    item.increment();
    assert_eq!(item, EmissionSettingsItem::Mode);
    item.increment();
    assert_eq!(item, EmissionSettingsItem::Mode);
}

#[test]
fn stale_index_is_clamped_when_press_does_nothing() {
    let mut state = State::default();
    for _ in 0..8 {
        assert!(state.dir_path.push(name(b"D", b"")));
    }
    assert!(state.dir_content.push(false, name(b"ONLY", b"LOG")));
    let mut screen = Screen::EmissionSelection { selected_index: 5 };
    screen.press(Button::Okay, &mut state);
    assert_eq!(screen, Screen::EmissionSelection { selected_index: 0 });
    assert_eq!(state.dir_path.len(), 8);

    let mut capture = Screen::CaptureSelection { selected_index: 7 };
    capture.press(Button::Right, &mut state);
    assert_eq!(capture, Screen::CaptureSelection { selected_index: 0 });

    let mut empty = State::default();
    let mut screen = Screen::CaptureSelection { selected_index: 3 };
    screen.press(Button::Okay, &mut empty);
    assert_eq!(screen, Screen::CaptureSelection { selected_index: 0 });
}
