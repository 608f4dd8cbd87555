use canary::can::{Bitrate, BusState, EmissionMode, Frame, FrameId};
use canary::dir::{DirContent, ShortName};
use canary::queue::FrameQueue;
use canary::sd::{frame_to_log, index_dir, CanLogsIterator, LogStep, READ_CHUNK};
use canary::state::{EmissionSettingsItem, HomeItem, Screen, State};
use canary::tasks::{
    capture_file_name, capture_header, drain_pending, orchestrate, push_decision, writer_continues, Action, Activity,
    EmissionRun, PushDecision, Task,
};

fn name(base: &[u8], ext: &[u8]) -> ShortName {
    ShortName::new(base, ext).unwrap()
}

#[test]
fn orchestrator_choices() {
    let mut state = State::default();
    state.running = true;
    assert_eq!(orchestrate(&Screen::EmissionSelection { selected_index: 3 }, &state), Action::SpawnIndexer { dirs_only: false });
    assert_eq!(orchestrate(&Screen::CaptureSelection { selected_index: 0 }, &state), Action::SpawnIndexer { dirs_only: true });
    assert_eq!(
        orchestrate(&Screen::Emission, &state),
        Action::StartEmission { bitrate: Bitrate::Br125kbps, mode: EmissionMode::AwaitACK }
    );
    state.capture_silent = true;
    assert_eq!(orchestrate(&Screen::Capture, &state), Action::StartCapture { bitrate: Bitrate::Br125kbps, silent: true });
    assert_eq!(orchestrate(&Screen::Home { selected_item: HomeItem::Emit }, &state), Action::Nothing);
    assert_eq!(
        orchestrate(&Screen::EmissionSettings { selected_item: EmissionSettingsItem::Mode }, &state),
        Action::Nothing
    );
    state.running = false;
    assert_eq!(orchestrate(&Screen::EmissionSelection { selected_index: 0 }, &state), Action::Render);
    assert_eq!(orchestrate(&Screen::Emission, &state), Action::StopBus);
    assert_eq!(orchestrate(&Screen::Capture, &state), Action::StopBus);
}

#[test]
fn orchestrating_twice_is_orchestrating_once() {
    let mut state = State::default();
    state.running = true;
    for screen in [Screen::Emission, Screen::Capture, Screen::CaptureSelection { selected_index: 0 }] {
        let mut once = Activity::new();
        once.apply(orchestrate(&screen, &state));
        let mut twice = once;
        twice.apply(orchestrate(&screen, &state));
        assert_eq!(once, twice);
    }
}

#[test]
fn activity_records_tasks() {
    let mut a = Activity::new();
    a.apply(Action::SpawnIndexer { dirs_only: true });
    a.apply(Action::SpawnIndexer { dirs_only: false });
    assert_eq!(a.indexer, Some(true));
    a.finish(Task::Indexer);
    assert_eq!(a.indexer, None);
    a.apply(Action::StartCapture { bitrate: Bitrate::Br20kbps, silent: false });
    assert!(a.writer);
    assert_eq!(a.bus, BusState::Receiving { bitrate: Bitrate::Br20kbps, silent: false });
    a.apply(Action::StopBus);
    assert_eq!(a.bus, BusState::Disabled);
    a.finish(Task::Writer);
    assert!(!a.writer);
    a.apply(Action::Render);
    assert_eq!(a, Activity::new());
}

/// Replays `text` as the reader task does, with the transmitter taking one frame whenever
/// the reader has to wait; returns the frames put on the bus.
fn replay(text: &[u8], state: &mut State) -> Vec<Frame> {
    let mut tx = FrameQueue::tx();
    let mut sent = Vec::new();
    let mut run = EmissionRun::new(state.emission_count);
    'passes: while run.start_pass(state.running) {
        let mut it = CanLogsIterator::new();
        let mut pos = 0;
        loop {
            let at_eof = pos >= text.len();
            if !at_eof && it.wants_data() {
                let end = usize::min(pos + READ_CHUNK, text.len());
                it.push_chunk(&text[pos..end]);
                pos = end;
            }
            match it.next_frame(pos >= text.len()) {
                LogStep::Frame(f) => {
                    let mut f = Some(f);
                    loop {
                        match push_decision(state.running, tx.ready()) {
                            PushDecision::Push => {
                                tx.try_push(f.take().unwrap()).unwrap();
                                break;
                            }
                            PushDecision::Wait => sent.push(tx.pop().unwrap()),
                            PushDecision::Abort => break 'passes,
                        }
                    }
                }
                LogStep::NeedData => {}
                LogStep::End => break,
            }
        }
        run.end_pass();
    }
    while drain_pending(tx.len(), state.running) {
        sent.push(tx.pop().unwrap());
    }
    state.running = false;
    sent
}

#[test]
fn emission_twice_over_three_frames() {
    let mut text = Vec::new();
    for i in 1..=3u16 {
        text.extend(frame_to_log(&Frame::new(FrameId::Standard(i), vec![i as u8]).unwrap(), 0));
    }
    let mut state = State::default();
    state.emission_count = 2;
    state.running = true;
    let sent = replay(&text, &mut state);
    assert_eq!(sent.len(), 6);
    let ids: Vec<FrameId> = sent.iter().map(|f| f.id()).collect();
    assert_eq!(
        ids,
        vec![
            FrameId::Standard(1),
            FrameId::Standard(2),
            FrameId::Standard(3),
            FrameId::Standard(1),
            FrameId::Standard(2),
            FrameId::Standard(3)
        ]
    );
    assert!(!state.running);
}

#[test]
fn emission_run_counts_passes() {
    let mut run = EmissionRun::new(2);
    assert!(run.start_pass(true));
    assert!(!run.start_pass(false));
    run.end_pass();
    run.end_pass();
    assert!(!run.start_pass(true));
    let mut endless = EmissionRun::new(0);
    endless.end_pass();
    assert!(endless.start_pass(true));
}

#[test]
fn reader_and_writer_decisions() {
    assert_eq!(push_decision(false, true), PushDecision::Abort);
    assert_eq!(push_decision(true, false), PushDecision::Wait);
    assert_eq!(push_decision(true, true), PushDecision::Push);
    assert!(drain_pending(2, true));
    assert!(!drain_pending(2, false));
    assert!(!drain_pending(0, true));
    assert!(writer_continues(false, 3));
    assert!(writer_continues(true, 0));
    assert!(!writer_continues(false, 0));
}

#[test]
fn capture_header_text() {
    assert_eq!(
        capture_header(Bitrate::Br125kbps, false),
        b"# Frames captured by CANary - Bitrate:  125 kbps, Silent: false\n".to_vec()
    );
    assert_eq!(
        capture_header(Bitrate::Br1000kbps, true),
        b"# Frames captured by CANary - Bitrate: 1000 kbps, Silent: true\n".to_vec()
    );
    assert_eq!(
        capture_header(Bitrate::Br83kbps, true),
        b"# Frames captured by CANary - Bitrate:   83 kbps, Silent: true\n".to_vec()
    );
}

#[test]
fn capture_file_names() {
    assert_eq!(capture_file_name(42), b"00000042.log".to_vec());
    assert_eq!(capture_file_name(99_999_999), b"99999999.log".to_vec());
}

fn entries(c: &DirContent) -> Vec<(bool, ShortName)> {
    (0..c.len()).map(|i| c.get(i)).collect()
}

#[test]
fn index_sorts_directories_first() {
    let mut content = DirContent::new();
    let found = vec![
        (false, name(b"ZED", b"LOG")),
        (true, name(b"LOGS", b"")),
        (false, name(b"ALPHA", b"LOG")),
        (true, ShortName::parent_dir()),
        (true, name(b"ARCHIVE", b"")),
    ];
    index_dir(&mut content, &found, false);
    assert_eq!(
        entries(&content),
        vec![
            (true, ShortName::parent_dir()),
            (true, name(b"ARCHIVE", b"")),
            (true, name(b"LOGS", b"")),
            (false, name(b"ALPHA", b"LOG")),
            (false, name(b"ZED", b"LOG")),
        ]
    );
}

#[test]
fn index_directories_only_adds_this_dir() {
    let mut content = DirContent::new();
    let found = vec![(false, name(b"A", b"LOG")), (true, name(b"B", b""))];
    index_dir(&mut content, &found, true);
    assert_eq!(entries(&content), vec![(true, ShortName::this_dir()), (true, name(b"B", b""))]);
}

#[test]
fn index_of_empty_directory_holds_this_dir() {
    let mut content = DirContent::new();
    index_dir(&mut content, &[], false);
    assert_eq!(entries(&content), vec![(true, ShortName::this_dir())]);
}

#[test]
fn index_keeps_at_most_thirty_two() {
    let mut content = DirContent::new();
    let mut found = Vec::new();
    for i in 0..40u8 {
        let base = [b'F', b'0' + i / 10, b'0' + i % 10];
        found.push((false, name(&base, b"LOG")));
    }
    index_dir(&mut content, &found, false);
    assert_eq!(content.len(), 32);
    assert_eq!(content.get(0), (false, name(b"F00", b"LOG")));
    assert_eq!(content.get(31), (false, name(b"F31", b"LOG")));
}

#[test]
fn index_full_of_directories_makes_room_for_this_dir() {
    let mut content = DirContent::new();
    let mut found = Vec::new();
    for i in 0..32u8 {
        let base = [b'D', b'0' + i / 10, b'0' + i % 10];
        found.push((true, name(&base, b"")));
    }
    index_dir(&mut content, &found, true);
    assert_eq!(content.len(), 32);
    assert_eq!(content.get(0), (true, ShortName::this_dir()));
    assert_eq!(content.get(31), (true, name(b"D30", b"")));
}

#[test]
fn short_names() {
    let n = name(b"BOOT", b"LOG");
    assert_eq!(&n.contents(), b"BOOT    LOG");
    assert!(ShortName::new(b"TOOLONGNAME", b"").is_none());
    assert!(ShortName::new(b"A", b"LONG").is_none());
    assert!(ShortName::parent_dir().is_parent_dir());
    assert!(!ShortName::parent_dir().is_this_dir());
    assert!(ShortName::this_dir().is_this_dir());
    assert_eq!(n.base_len(), 4);
    assert!(n.same(&name(b"BOOT", b"LOG")));
    assert!(!n.same(&name(b"BOOT", b"TXT")));
}

#[test]
fn index_orders_equal_bases_by_extension() {
    let mut content = DirContent::new();
    let found = vec![
        (false, name(b"A", b"TXT")),
        (false, name(b"A", b"LOG")),
        (false, name(b"A", b"")),
        (false, name(b"AB", b"")),
    ];
    index_dir(&mut content, &found, false);
    assert_eq!(
        entries(&content),
        vec![
            (false, name(b"A", b"")),
            (false, name(b"A", b"LOG")),
            (false, name(b"A", b"TXT")),
            (false, name(b"AB", b"")),
        ]
    );
    assert_eq!(name(b"A", b"LOG").ext_len(), 3);
    assert_eq!(name(b"A", b"").ext_len(), 0);
}
