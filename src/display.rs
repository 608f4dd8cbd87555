//! The first form of the user interface: the same screens without a success count, where
//! Left on a browsing screen always returns home.

use vstd::prelude::*;

use crate::buttons::Button;
use crate::can::{Bitrate, EmissionMode};
use crate::dir::{parent_dir_bytes, this_dir_bytes, DirContent, DirPath, ShortName, MAX_DEPTH, MAX_ENTRIES};
use crate::state::{clamped, index_down, index_up, move_down, move_up, path_up, settle, settled};

verus! {

/// Items of the home screen.
#[derive(Clone, Copy, Debug, PartialEq, Eq, Structural)]
pub enum HomeItem {
    /// Replay a log onto the bus.
    Emit,
    /// Record the bus into a log.
    Capture,
}

/// Rows of the emission settings screen.
#[derive(Clone, Copy, Debug, PartialEq, Eq, Structural)]
pub enum FrameEmissionSettingsItems {
    /// The bit rate row.
    Bitrate,
    /// The emission mode row.
    Mode,
}

impl FrameEmissionSettingsItems {
    /// Moves to the next row; the last row stays.
    pub fn increment(&mut self)
        ensures
            *final(self) == FrameEmissionSettingsItems::Mode,
    {
        *self = FrameEmissionSettingsItems::Mode;
    }

    /// Moves to the previous row; the first row stays.
    pub fn decrement(&mut self)
        ensures
            *final(self) == FrameEmissionSettingsItems::Bitrate,
    {
        *self = FrameEmissionSettingsItems::Bitrate;
    }
}

/// A screen of the user interface, with its own selection.
#[derive(Clone, Copy, Debug, PartialEq, Eq, Structural)]
pub enum DisplayScreen {
    /// The home screen.
    Home { selected_item: HomeItem },
    /// Choice of the log file to replay.
    EmissionFrameSelection { selected_index: usize },
    /// Replay of the chosen log file.
    FrameEmission,
    /// Bit rate and emission mode of the replay.
    FrameEmissionSettings { selected_item: FrameEmissionSettingsItems },
    /// Choice of the directory to record into.
    CaptureFrameSelection { selected_index: usize },
    /// Recording of the bus.
    FrameCapture,
}

/// The screens without their selection, to ask for one in its initial form.
enum DisplayScreenVariant {
    Home,
    EmissionFrameSelection,
    FrameEmission,
    FrameEmissionSettings,
    CaptureFrameSelection,
    FrameCapture,
}

/// What a [`DisplayState`] holds.
pub struct DisplayStateView {
    /// Bit rate of the bus.
    pub bitrate: Bitrate,
    /// How frames are emitted.
    pub emission_mode: EmissionMode,
    /// Replays asked for; 0 means until stopped.
    pub emission_count: u8,
    /// Whether recording leaves the bus unacknowledged.
    pub capture_silent: bool,
    /// Whether work is asked for or under way.
    pub running: bool,
    /// The names of the browsed path, outermost first.
    pub dir_path: Seq<Seq<u8>>,
    /// The listing: whether each entry is a directory, and its name.
    pub dir_content: Seq<(bool, Seq<u8>)>,
}

/// The state shared by the screens.
pub struct DisplayState {
    /// Bit rate of the bus.
    pub bitrate: Bitrate,
    /// How frames are emitted.
    pub emission_mode: EmissionMode,
    /// How many times the log is replayed; 0 means until stopped.
    pub emission_count: u8,
    /// Whether the bus is left unacknowledged while recording.
    pub capture_silent: bool,
    /// Whether some work on the bus or on storage is asked for or under way.
    pub running: bool,
    /// The browsed path, possibly ended by the chosen file.
    pub dir_path: DirPath,
    /// The listing of the browsed directory.
    pub dir_content: DirContent,
}

impl View for DisplayState {
    type V = DisplayStateView;

    open spec fn view(&self) -> DisplayStateView {
        DisplayStateView {
            bitrate: self.bitrate,
            emission_mode: self.emission_mode,
            emission_count: self.emission_count,
            capture_silent: self.capture_silent,
            running: self.running,
            dir_path: self.dir_path.names(),
            dir_content: self.dir_content.entries(),
        }
    }
}

/// The state without path and listing.
pub open spec fn cleared(s: DisplayStateView) -> DisplayStateView {
    DisplayStateView { dir_path: Seq::empty(), dir_content: Seq::empty(), ..s }
}

impl DisplayState {
    /// The state at boot: 125 kbps, acknowledged emission, one repetition, nothing running,
    /// root directory.
    pub fn default() -> (r: DisplayState)
        ensures
            r@ == (DisplayStateView {
                bitrate: Bitrate::Br125kbps,
                emission_mode: EmissionMode::AwaitACK,
                emission_count: 1,
                capture_silent: false,
                running: false,
                dir_path: Seq::empty(),
                dir_content: Seq::empty(),
            }),
    {
        DisplayState {
            bitrate: Bitrate::Br125kbps,
            emission_mode: EmissionMode::AwaitACK,
            emission_count: 1,
            capture_silent: false,
            running: false,
            dir_path: DirPath::new(),
            dir_content: DirContent::new(),
        }
    }

    /// Forgets the path and the listing.
    pub fn clear_sd_index(&mut self)
        ensures
            final(self)@ == cleared(old(self)@),
    {
        self.dir_path = DirPath::new();
        self.dir_content = DirContent::new();
    }
}

/// Opening a directory entry while browsing: `..` goes up, `.` stays, another directory is
/// entered when the path has room; the screen goes back to its first entry and `running` asks
/// for the new listing. Without room nothing changes.
pub open spec fn open_dir_spec(screen: DisplayScreen, s: DisplayStateView, name: Seq<u8>, back_to_first: DisplayScreen) -> (DisplayScreen, DisplayStateView) {
    if name == parent_dir_bytes() {
        (back_to_first, DisplayStateView { dir_path: path_up(s.dir_path), running: true, ..s })
    } else if name == this_dir_bytes() {
        (back_to_first, DisplayStateView { running: true, ..s })
    } else if s.dir_path.len() < MAX_DEPTH {
        (back_to_first, DisplayStateView { dir_path: s.dir_path.push(name), running: true, ..s })
    } else {
        (screen, s)
    }
}

/// Choosing the directory to record into: `..` means the parent, `.` the browsed directory,
/// another directory that directory when the path has room; the capture screen follows.
pub open spec fn choose_capture_dir_spec(screen: DisplayScreen, s: DisplayStateView, name: Seq<u8>) -> (DisplayScreen, DisplayStateView) {
    if name == parent_dir_bytes() {
        (DisplayScreen::FrameCapture, DisplayStateView { dir_path: path_up(s.dir_path), ..s })
    } else if name == this_dir_bytes() {
        (DisplayScreen::FrameCapture, s)
    } else if s.dir_path.len() < MAX_DEPTH {
        (DisplayScreen::FrameCapture, DisplayStateView { dir_path: s.dir_path.push(name), ..s })
    } else {
        (screen, s)
    }
}

/// The screen and state after a button press.
pub open spec fn press_spec(screen: DisplayScreen, button: Button, s: DisplayStateView) -> (DisplayScreen, DisplayStateView) {
    let len = s.dir_content.len();
    let home_emit = DisplayScreen::Home { selected_item: HomeItem::Emit };
    match screen {
        DisplayScreen::Home { selected_item } => match button {
            Button::Okay => (
                match selected_item {
                    HomeItem::Emit => DisplayScreen::EmissionFrameSelection { selected_index: 0 },
                    HomeItem::Capture => DisplayScreen::CaptureFrameSelection { selected_index: 0 },
                },
                DisplayStateView { running: true, ..s },
            ),
            Button::Right => (DisplayScreen::Home { selected_item: HomeItem::Capture }, s),
            Button::Left => (home_emit, s),
            _ => (screen, s),
        },
        DisplayScreen::EmissionFrameSelection { selected_index } => match button {
            Button::Up => (DisplayScreen::EmissionFrameSelection { selected_index: index_up(selected_index, len) }, s),
            Button::Down => (DisplayScreen::EmissionFrameSelection { selected_index: index_down(selected_index, len) }, s),
            Button::Okay | Button::Right => if len == 0 {
                (DisplayScreen::EmissionFrameSelection { selected_index: 0 }, s)
            } else {
                let here = DisplayScreen::EmissionFrameSelection { selected_index: settled(selected_index, len) };
                let e = s.dir_content[clamped(selected_index, len) as int];
                if e.0 {
                    open_dir_spec(here, s, e.1, DisplayScreen::EmissionFrameSelection { selected_index: 0 })
                } else if s.dir_path.len() < MAX_DEPTH {
                    (DisplayScreen::FrameEmission, DisplayStateView { dir_path: s.dir_path.push(e.1), ..s })
                } else {
                    (here, s)
                }
            },
            Button::Left => (home_emit, cleared(s)),
        },
        DisplayScreen::FrameEmission => match button {
            Button::Okay => (screen, DisplayStateView { running: !s.running, ..s }),
            _ => if s.running {
                (screen, s)
            } else {
                match button {
                    Button::Up => (screen, DisplayStateView {
                        emission_count: if s.emission_count < 255 { (s.emission_count + 1) as u8 } else { 255 },
                        ..s
                    }),
                    Button::Down => (screen, DisplayStateView {
                        emission_count: if s.emission_count > 0 { (s.emission_count - 1) as u8 } else { 0 },
                        ..s
                    }),
                    Button::Right => (DisplayScreen::FrameEmissionSettings { selected_item: FrameEmissionSettingsItems::Bitrate }, s),
                    _ => (home_emit, cleared(s)),
                }
            },
        },
        DisplayScreen::FrameEmissionSettings { selected_item } => match button {
            Button::Okay => (DisplayScreen::FrameEmission, s),
            Button::Up => (DisplayScreen::FrameEmissionSettings { selected_item: FrameEmissionSettingsItems::Bitrate }, s),
            Button::Down => (DisplayScreen::FrameEmissionSettings { selected_item: FrameEmissionSettingsItems::Mode }, s),
            Button::Right => match selected_item {
                FrameEmissionSettingsItems::Bitrate => (screen, DisplayStateView {
                    bitrate: Bitrate::of_rank(if s.bitrate.rank() < 9 { s.bitrate.rank() + 1 } else { 9 }),
                    ..s
                }),
                FrameEmissionSettingsItems::Mode => (screen, DisplayStateView {
                    emission_mode: EmissionMode::of_rank((s.emission_mode.rank() + 1) % 3),
                    ..s
                }),
            },
            Button::Left => match selected_item {
                FrameEmissionSettingsItems::Bitrate => (screen, DisplayStateView {
                    bitrate: Bitrate::of_rank(if s.bitrate.rank() > 0 { (s.bitrate.rank() - 1) as nat } else { 0 }),
                    ..s
                }),
                FrameEmissionSettingsItems::Mode => (screen, DisplayStateView {
                    emission_mode: EmissionMode::of_rank((s.emission_mode.rank() + 2) % 3),
                    ..s
                }),
            },
        },
        DisplayScreen::CaptureFrameSelection { selected_index } => match button {
            Button::Up => (DisplayScreen::CaptureFrameSelection { selected_index: index_up(selected_index, len) }, s),
            Button::Down => (DisplayScreen::CaptureFrameSelection { selected_index: index_down(selected_index, len) }, s),
            Button::Okay => if len == 0 {
                (DisplayScreen::CaptureFrameSelection { selected_index: 0 }, s)
            } else {
                let here = DisplayScreen::CaptureFrameSelection { selected_index: settled(selected_index, len) };
                let e = s.dir_content[clamped(selected_index, len) as int];
                if e.0 {
                    choose_capture_dir_spec(here, s, e.1)
                } else {
                    (here, s)
                }
            },
            Button::Right => if len == 0 {
                (DisplayScreen::CaptureFrameSelection { selected_index: 0 }, s)
            } else {
                let here = DisplayScreen::CaptureFrameSelection { selected_index: settled(selected_index, len) };
                let e = s.dir_content[clamped(selected_index, len) as int];
                if e.0 {
                    open_dir_spec(here, s, e.1, DisplayScreen::CaptureFrameSelection { selected_index: 0 })
                } else {
                    (here, s)
                }
            },
            Button::Left => (home_emit, cleared(s)),
        },
        DisplayScreen::FrameCapture => match button {
            Button::Okay => (screen, DisplayStateView { running: !s.running, ..s }),
            _ => if s.running {
                (screen, s)
            } else {
                match button {
                    Button::Up => (screen, DisplayStateView {
                        bitrate: Bitrate::of_rank(if s.bitrate.rank() < 9 { s.bitrate.rank() + 1 } else { 9 }),
                        ..s
                    }),
                    Button::Down => (screen, DisplayStateView {
                        bitrate: Bitrate::of_rank(if s.bitrate.rank() > 0 { (s.bitrate.rank() - 1) as nat } else { 0 }),
                        ..s
                    }),
                    Button::Right => (screen, DisplayStateView { capture_silent: !s.capture_silent, ..s }),
                    _ => (DisplayScreen::Home { selected_item: HomeItem::Capture }, cleared(s)),
                }
            },
        },
    }
}

/// The entry that a browsing screen acts on.
fn selected_entry(state: &DisplayState, index: usize) -> (r: (bool, ShortName))
    requires
        state.dir_content.entries().len() > 0,
    ensures
        (r.0, r.1@) == state.dir_content.entries()[clamped(index, state.dir_content.entries().len()) as int],
{
    let len = state.dir_content.len();
    let i = if index < len { index } else { len - 1 };
    state.dir_content.get(i)
}

/// Removes the innermost name of the path, if any.
fn go_up(state: &mut DisplayState)
    ensures
        final(state)@ == (DisplayStateView { dir_path: path_up(old(state)@.dir_path), ..old(state)@ }),
{
    state.dir_path.pop();
}

impl DisplayScreen {
    /// The screen at boot: home, with emission selected.
    pub fn default() -> (r: DisplayScreen)
        ensures
            r == (DisplayScreen::Home { selected_item: HomeItem::Emit }),
    {
        DisplayScreen::default_variant(DisplayScreenVariant::Home)
    }

    /// A screen in its initial form.
    fn default_variant(variant: DisplayScreenVariant) -> (r: DisplayScreen)
        ensures
            variant is Home ==> r == (DisplayScreen::Home { selected_item: HomeItem::Emit }),
            variant is EmissionFrameSelection ==> r == (DisplayScreen::EmissionFrameSelection { selected_index: 0 }),
            variant is FrameEmission ==> r == DisplayScreen::FrameEmission,
            variant is FrameEmissionSettings ==> r == (DisplayScreen::FrameEmissionSettings { selected_item: FrameEmissionSettingsItems::Bitrate }),
            variant is CaptureFrameSelection ==> r == (DisplayScreen::CaptureFrameSelection { selected_index: 0 }),
            variant is FrameCapture ==> r == DisplayScreen::FrameCapture,
    {
        match variant {
            DisplayScreenVariant::Home => DisplayScreen::Home { selected_item: HomeItem::Emit },
            DisplayScreenVariant::EmissionFrameSelection => DisplayScreen::EmissionFrameSelection { selected_index: 0 },
            DisplayScreenVariant::FrameEmission => DisplayScreen::FrameEmission,
            DisplayScreenVariant::FrameEmissionSettings => DisplayScreen::FrameEmissionSettings { selected_item: FrameEmissionSettingsItems::Bitrate },
            DisplayScreenVariant::CaptureFrameSelection => DisplayScreen::CaptureFrameSelection { selected_index: 0 },
            DisplayScreenVariant::FrameCapture => DisplayScreen::FrameCapture,
        }
    }

    /// Opens a directory entry of a browsing screen; see [`open_dir_spec`].
    fn open_dir(&mut self, state: &mut DisplayState, name: ShortName, back_to_first: DisplayScreen)
        ensures
            (*final(self), final(state)@) == open_dir_spec(*old(self), old(state)@, name@, back_to_first),
    {
        if name.is_parent_dir() {
            go_up(state);
            state.running = true;
            *self = back_to_first;
        } else if name.is_this_dir() {
            state.running = true;
            *self = back_to_first;
        } else if state.dir_path.push(name) {
            state.running = true;
            *self = back_to_first;
        }
    }

    /// Chooses the directory to record into; see [`choose_capture_dir_spec`].
    fn choose_capture_dir(&mut self, state: &mut DisplayState, name: ShortName)
        ensures
            (*final(self), final(state)@) == choose_capture_dir_spec(*old(self), old(state)@, name@),
    {
        if name.is_parent_dir() {
            go_up(state);
            *self = DisplayScreen::default_variant(DisplayScreenVariant::FrameCapture);
        } else if name.is_this_dir() {
            *self = DisplayScreen::default_variant(DisplayScreenVariant::FrameCapture);
        } else if state.dir_path.push(name) {
            *self = DisplayScreen::default_variant(DisplayScreenVariant::FrameCapture);
        }
    }

    /// Applies a button press to the screen and the shared state; see [`press_spec`].
    pub fn press(&mut self, button: Button, state: &mut DisplayState)
        ensures
            (*final(self), final(state)@) == press_spec(*old(self), button, old(state)@),
    {
        let len = state.dir_content.len();
        match *self {
            DisplayScreen::Home { selected_item } => match button {
                Button::Okay => {
                    state.running = true;
                    *self = DisplayScreen::default_variant(match selected_item {
                        HomeItem::Capture => DisplayScreenVariant::CaptureFrameSelection,
                        HomeItem::Emit => DisplayScreenVariant::EmissionFrameSelection,
                    });
                },
                Button::Right => *self = DisplayScreen::Home { selected_item: HomeItem::Capture },
                Button::Left => *self = DisplayScreen::Home { selected_item: HomeItem::Emit },
                _ => {},
            },
            DisplayScreen::EmissionFrameSelection { selected_index } => match button {
                Button::Up => *self = DisplayScreen::EmissionFrameSelection { selected_index: move_up(selected_index, len) },
                Button::Down => *self = DisplayScreen::EmissionFrameSelection { selected_index: move_down(selected_index, len) },
                Button::Okay | Button::Right => {
                    *self = DisplayScreen::EmissionFrameSelection { selected_index: settle(selected_index, len) };
                    if len > 0 {
                        let (is_dir, name) = selected_entry(state, selected_index);
                        if is_dir {
                            self.open_dir(state, name, DisplayScreen::default_variant(DisplayScreenVariant::EmissionFrameSelection));
                        } else if state.dir_path.push(name) {
                            *self = DisplayScreen::default_variant(DisplayScreenVariant::FrameEmission);
                        }
                    }
                },
                Button::Left => {
                    state.clear_sd_index();
                    *self = DisplayScreen::Home { selected_item: HomeItem::Emit };
                },
            },
            DisplayScreen::FrameEmission => match (button, state.running) {
                (Button::Okay, _) => state.running = !state.running,
                (Button::Up, false) => state.emission_count = state.emission_count.saturating_add(1),
                (Button::Down, false) => state.emission_count = state.emission_count.saturating_sub(1),
                (Button::Right, false) => *self = DisplayScreen::default_variant(DisplayScreenVariant::FrameEmissionSettings),
                (Button::Left, false) => {
                    state.clear_sd_index();
                    *self = DisplayScreen::Home { selected_item: HomeItem::Emit };
                },
                _ => {},
            },
            DisplayScreen::FrameEmissionSettings { selected_item } => match button {
                Button::Okay => *self = DisplayScreen::default_variant(DisplayScreenVariant::FrameEmission),
                Button::Up => {
                    let mut item = selected_item;
                    item.decrement();
                    *self = DisplayScreen::FrameEmissionSettings { selected_item: item };
                },
                Button::Down => {
                    let mut item = selected_item;
                    item.increment();
                    *self = DisplayScreen::FrameEmissionSettings { selected_item: item };
                },
                Button::Right => match selected_item {
                    FrameEmissionSettingsItems::Bitrate => state.bitrate.increment(),
                    FrameEmissionSettingsItems::Mode => state.emission_mode.increment(),
                },
                Button::Left => match selected_item {
                    FrameEmissionSettingsItems::Bitrate => state.bitrate.decrement(),
                    FrameEmissionSettingsItems::Mode => state.emission_mode.decrement(),
                },
            },
            DisplayScreen::CaptureFrameSelection { selected_index } => match button {
                Button::Up => *self = DisplayScreen::CaptureFrameSelection { selected_index: move_up(selected_index, len) },
                Button::Down => *self = DisplayScreen::CaptureFrameSelection { selected_index: move_down(selected_index, len) },
                Button::Okay => {
                    *self = DisplayScreen::CaptureFrameSelection { selected_index: settle(selected_index, len) };
                    if len > 0 {
                        let (is_dir, name) = selected_entry(state, selected_index);
                        if is_dir {
                            self.choose_capture_dir(state, name);
                        }
                    }
                },
                Button::Right => {
                    *self = DisplayScreen::CaptureFrameSelection { selected_index: settle(selected_index, len) };
                    if len > 0 {
                        let (is_dir, name) = selected_entry(state, selected_index);
                        if is_dir {
                            self.open_dir(state, name, DisplayScreen::default_variant(DisplayScreenVariant::CaptureFrameSelection));
                        }
                    }
                },
                Button::Left => {
                    state.clear_sd_index();
                    *self = DisplayScreen::Home { selected_item: HomeItem::Emit };
                },
            },
            DisplayScreen::FrameCapture => match (button, state.running) {
                (Button::Okay, _) => state.running = !state.running,
                (Button::Up, false) => state.bitrate.increment(),
                (Button::Down, false) => state.bitrate.decrement(),
                (Button::Right, false) => state.capture_silent = !state.capture_silent,
                (Button::Left, false) => {
                    state.clear_sd_index();
                    *self = DisplayScreen::Home { selected_item: HomeItem::Capture };
                },
                _ => {},
            },
        }
    }
}

/// After any press, a browsing screen's index lies within its listing when the listing is not
/// empty, even when the listing shrank since the index was chosen.
pub proof fn lemma_index_within_listing(screen: DisplayScreen, button: Button, s: DisplayStateView)
    requires
        s.dir_content.len() <= MAX_ENTRIES,
    ensures
        ({
            let (next, t) = press_spec(screen, button, s);
            t.dir_content.len() > 0 ==> match next {
                DisplayScreen::EmissionFrameSelection { selected_index } => selected_index < t.dir_content.len(),
                DisplayScreen::CaptureFrameSelection { selected_index } => selected_index < t.dir_content.len(),
                _ => true,
            }
        }),
{
}

} // verus!
