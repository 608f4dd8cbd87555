use canary::buttons::Button;
use canary::can::Bitrate;
use canary::dir::ShortName;
use canary::display::{DisplayScreen, DisplayState, FrameEmissionSettingsItems, HomeItem};

fn name(base: &[u8], ext: &[u8]) -> ShortName {
    ShortName::new(base, ext).unwrap()
}

#[test]
fn display_file_choice_opens_emission() {
    let mut state = DisplayState::default();
    assert!(state.dir_content.push(true, ShortName::parent_dir()));
    assert!(state.dir_content.push(false, name(b"BOOT", b"LOG")));
    let mut screen = DisplayScreen::default();
    screen.press(Button::Okay, &mut state);
    assert_eq!(screen, DisplayScreen::EmissionFrameSelection { selected_index: 0 });
    screen.press(Button::Down, &mut state);
    screen.press(Button::Okay, &mut state);
    assert_eq!(screen, DisplayScreen::FrameEmission);
    assert_eq!(state.dir_path.last().unwrap(), name(b"BOOT", b"LOG"));
}

#[test]
fn display_left_on_browsing_returns_home_and_clears() {
    let mut state = DisplayState::default();
    assert!(state.dir_path.push(name(b"LOGS", b"")));
    assert!(state.dir_content.push(true, ShortName::this_dir()));
    let mut screen = DisplayScreen::CaptureFrameSelection { selected_index: 0 };
    screen.press(Button::Left, &mut state);
    assert_eq!(screen, DisplayScreen::Home { selected_item: HomeItem::Emit });
    assert!(state.dir_path.is_empty());
    assert_eq!(state.dir_content.len(), 0);
}

#[test]
fn display_emission_toggle_and_settings() {
    let mut state = DisplayState::default();
    let mut screen = DisplayScreen::FrameEmission;
    screen.press(Button::Okay, &mut state);
    assert!(state.running);
    screen.press(Button::Right, &mut state);
    assert_eq!(screen, DisplayScreen::FrameEmission);
    screen.press(Button::Okay, &mut state);
    screen.press(Button::Right, &mut state);
    assert_eq!(screen, DisplayScreen::FrameEmissionSettings { selected_item: FrameEmissionSettingsItems::Bitrate });
    screen.press(Button::Right, &mut state);
    assert_eq!(state.bitrate, Bitrate::Br250kbps);
    screen.press(Button::Okay, &mut state);
    assert_eq!(screen, DisplayScreen::FrameEmission);
}

#[test]
fn display_capture_left_returns_to_capture_item() {
    let mut state = DisplayState::default();
    state.emission_count = 4;
    let mut screen = DisplayScreen::FrameCapture;
    screen.press(Button::Right, &mut state);
    assert!(state.capture_silent);
    screen.press(Button::Left, &mut state);
    assert_eq!(screen, DisplayScreen::Home { selected_item: HomeItem::Capture });
    assert_eq!(state.emission_count, 4);
}

#[test]
fn display_settings_item_steps() {
    let mut item = FrameEmissionSettingsItems::Bitrate;
    item.increment();
    assert_eq!(item, FrameEmissionSettingsItems::Mode);
    item.decrement();
    assert_eq!(item, FrameEmissionSettingsItems::Bitrate);
}

#[test]
fn display_stale_index_is_clamped() {
    let mut state = DisplayState::default();
    for _ in 0..8 {
        assert!(state.dir_path.push(name(b"D", b"")));
    }
    assert!(state.dir_content.push(true, name(b"A", b"")));
    assert!(state.dir_content.push(true, name(b"B", b"")));
    let mut screen = DisplayScreen::EmissionFrameSelection { selected_index: 9 };
    screen.press(Button::Right, &mut state);
    assert_eq!(screen, DisplayScreen::EmissionFrameSelection { selected_index: 1 });
}
