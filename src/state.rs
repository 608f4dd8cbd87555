//! The screens of the user interface, the state they share, and how a button press moves
//! between them.

use vstd::prelude::*;

use crate::buttons::Button;
use crate::can::{Bitrate, EmissionMode};
use crate::dir::{parent_dir_bytes, this_dir_bytes, DirContent, DirPath, ShortName, MAX_DEPTH, MAX_ENTRIES};

verus! {

/// Success counts are shown modulo this value.
pub const SUCCESS_DISPLAY_MODULUS: u32 = 10_000;

/// Items of the home screen.
#[derive(Clone, Copy, Debug, PartialEq, Eq, Structural)]
pub enum HomeItem {
    /// Replay a log onto the bus.
    Emit,
    /// Record the bus into a log.
    Capture,
}

/// Rows of the emission settings screen.
#[derive(Clone, Copy, Debug, PartialEq, Eq, Structural)]
pub enum EmissionSettingsItem {
    /// The bit rate row.
    Bitrate,
    /// The emission mode row.
    Mode,
}

impl EmissionSettingsItem {
    /// Moves to the next row; the last row stays.
    pub fn increment(&mut self)
        ensures
            *final(self) == EmissionSettingsItem::Mode,
    {
        *self = EmissionSettingsItem::Mode;
    }

    /// Moves to the previous row; the first row stays.
    pub fn decrement(&mut self)
        ensures
            *final(self) == EmissionSettingsItem::Bitrate,
    {
        *self = EmissionSettingsItem::Bitrate;
    }
}

/// A screen of the user interface, with its own selection.
#[derive(Clone, Copy, Debug, PartialEq, Eq, Structural)]
pub enum Screen {
    /// The home screen.
    Home { selected_item: HomeItem },
    /// Choice of the log file to replay; the index is into [`State::dir_content`].
    EmissionSelection { selected_index: usize },
    /// Replay of the chosen log file.
    Emission,
    /// Bit rate and emission mode of the replay.
    EmissionSettings { selected_item: EmissionSettingsItem },
    /// Choice of the directory to record into; the index is into [`State::dir_content`].
    CaptureSelection { selected_index: usize },
    /// Recording of the bus.
    Capture,
}

/// The screens without their selection, to ask for one in its initial form.
enum ScreenVariant {
    Home,
    EmissionSelection,
    Emission,
    EmissionSettings,
    CaptureSelection,
    Capture,
}

/// What a [`State`] holds.
pub struct StateView {
    /// Bit rate of the bus.
    pub bitrate: Bitrate,
    /// How frames are emitted.
    pub emission_mode: EmissionMode,
    /// Replays asked for; 0 means until stopped.
    pub emission_count: u8,
    /// Whether recording leaves the bus unacknowledged.
    pub capture_silent: bool,
    /// Whether work is asked for or under way.
    pub running: bool,
    /// Frames sent or recorded by the last run.
    pub success_count: u32,
    /// The names of the browsed path, outermost first.
    pub dir_path: Seq<Seq<u8>>,
    /// The listing: whether each entry is a directory, and its name.
    pub dir_content: Seq<(bool, Seq<u8>)>,
}

/// The state shared by the screens and the tasks.
pub struct State {
    /// Bit rate of the bus.
    pub bitrate: Bitrate,
    /// How frames are emitted.
    pub emission_mode: EmissionMode,
    /// How many times the log is replayed; 0 means until stopped.
    pub emission_count: u8,
    /// Whether the bus is left unacknowledged while recording.
    pub capture_silent: bool,
    /// Whether some work on the bus or on storage is asked for or under way.
    pub running: bool,
    /// Frames sent or recorded by the last run.
    pub success_count: u32,
    /// The browsed path, possibly ended by the chosen file.
    pub dir_path: DirPath,
    /// The listing of the browsed directory.
    pub dir_content: DirContent,
}

impl View for State {
    type V = StateView;

    open spec fn view(&self) -> StateView {
        StateView {
            bitrate: self.bitrate,
            emission_mode: self.emission_mode,
            emission_count: self.emission_count,
            capture_silent: self.capture_silent,
            running: self.running,
            success_count: self.success_count,
            dir_path: self.dir_path.names(),
            dir_content: self.dir_content.entries(),
        }
    }
}

/// The state at boot.
pub open spec fn default_state() -> StateView {
    StateView {
        bitrate: Bitrate::Br125kbps,
        emission_mode: EmissionMode::AwaitACK,
        emission_count: 1,
        capture_silent: false,
        running: false,
        success_count: 0,
        dir_path: Seq::empty(),
        dir_content: Seq::empty(),
    }
}

/// The state after a return home: repetition count, success count, path and listing go back
/// to their initial values.
pub open spec fn soft_reset_spec(s: StateView) -> StateView {
    StateView {
        emission_count: 1,
        success_count: 0,
        dir_path: Seq::empty(),
        dir_content: Seq::empty(),
        ..s
    }
}

impl State {
    /// The state at boot: 125 kbps, acknowledged emission, one repetition, nothing running,
    /// root directory.
    pub fn default() -> (r: State)
        ensures
            r@ == default_state(),
    {
        State {
            bitrate: Bitrate::Br125kbps,
            emission_mode: EmissionMode::AwaitACK,
            emission_count: 1,
            capture_silent: false,
            running: false,
            success_count: 0,
            dir_path: DirPath::new(),
            dir_content: DirContent::new(),
        }
    }

    /// Puts back the values that depend on what was being done: repetition count, success
    /// count, path and listing.
    pub fn soft_reset(&mut self)
        ensures
            final(self)@ == soft_reset_spec(old(self)@),
    {
        self.emission_count = 1;
        self.success_count = 0;
        self.dir_path = DirPath::new();
        self.dir_content = DirContent::new();
    }

    /// Counts one more frame sent or recorded, wrapping around.
    pub fn record_success(&mut self)
        ensures
            final(self)@ == (StateView {
                success_count: if old(self).success_count == u32::MAX { 0 } else { (old(self).success_count + 1) as u32 },
                ..old(self)@
            }),
    {
        self.success_count = self.success_count.wrapping_add(1);
    }

    /// The success count as shown: modulo [`SUCCESS_DISPLAY_MODULUS`].
    pub fn success_display(&self) -> (r: u32)
        ensures
            r == self.success_count % SUCCESS_DISPLAY_MODULUS,
    {
        self.success_count % SUCCESS_DISPLAY_MODULUS
    }
}

/// The entry that a browsing screen acts on: its index, brought back into the listing.
pub open spec fn clamped(index: usize, len: nat) -> nat {
    if index < len {
        index as nat
    } else {
        (len - 1) as nat
    }
}

/// The index that a browsing screen keeps when a press leaves it in place: brought back into
/// the listing, or 0 when the listing is empty.
pub open spec fn settled(index: usize, len: nat) -> usize {
    if len == 0 {
        0
    } else {
        clamped(index, len) as usize
    }
}

/// The index after Up: one entry up, stopping at the first.
pub open spec fn index_up(index: usize, len: nat) -> usize {
    if len == 0 || clamped(index, len) == 0 {
        0
    } else {
        (clamped(index, len) - 1) as usize
    }
}

/// The index after Down: one entry down, stopping at the last.
pub open spec fn index_down(index: usize, len: nat) -> usize {
    if len == 0 {
        0
    } else if index as int + 1 < len {
        (index + 1) as usize
    } else {
        (len - 1) as usize
    }
}

/// The path without its innermost name; the root stays the root.
pub open spec fn path_up(p: Seq<Seq<u8>>) -> Seq<Seq<u8>> {
    if p.len() > 0 {
        p.drop_last()
    } else {
        p
    }
}

/// Opening a directory entry while browsing: `..` goes up, `.` stays, another directory is
/// entered when the path has room; the screen goes back to its first entry and `running` asks
/// for the new listing. Without room nothing changes.
pub open spec fn open_dir_spec(screen: Screen, s: StateView, name: Seq<u8>, back_to_first: Screen) -> (Screen, StateView) {
    if name == parent_dir_bytes() {
        (back_to_first, StateView { dir_path: path_up(s.dir_path), running: true, ..s })
    } else if name == this_dir_bytes() {
        (back_to_first, StateView { running: true, ..s })
    } else if s.dir_path.len() < MAX_DEPTH {
        (back_to_first, StateView { dir_path: s.dir_path.push(name), running: true, ..s })
    } else {
        (screen, s)
    }
}

/// Choosing the directory to record into: `..` means the parent, `.` the browsed directory,
/// another directory that directory when the path has room; the capture screen follows.
pub open spec fn choose_capture_dir_spec(screen: Screen, s: StateView, name: Seq<u8>) -> (Screen, StateView) {
    if name == parent_dir_bytes() {
        (Screen::Capture, StateView { dir_path: path_up(s.dir_path), ..s })
    } else if name == this_dir_bytes() {
        (Screen::Capture, s)
    } else if s.dir_path.len() < MAX_DEPTH {
        (Screen::Capture, StateView { dir_path: s.dir_path.push(name), ..s })
    } else {
        (screen, s)
    }
}

/// Left on a browsing screen: up one directory, or home from the root.
pub open spec fn browse_left_spec(screen: Screen, s: StateView, home: HomeItem) -> (Screen, StateView) {
    if s.dir_path.len() == 0 {
        (Screen::Home { selected_item: home }, soft_reset_spec(s))
    } else {
        (screen, StateView { dir_path: s.dir_path.drop_last(), running: true, ..s })
    }
}

/// Ok on an armed screen: start or stop; starting clears the success count.
pub open spec fn toggle_running_spec(s: StateView) -> StateView {
    if s.running {
        StateView { running: false, ..s }
    } else {
        StateView { running: true, success_count: 0, ..s }
    }
}

/// The screen and state after a button press.
pub open spec fn press_spec(screen: Screen, button: Button, s: StateView) -> (Screen, StateView) {
    let len = s.dir_content.len();
    match screen {
        Screen::Home { selected_item } => match button {
            Button::Okay => (
                match selected_item {
                    HomeItem::Emit => Screen::EmissionSelection { selected_index: 0 },
                    HomeItem::Capture => Screen::CaptureSelection { selected_index: 0 },
                },
                StateView { running: true, ..s },
            ),
            Button::Right => (Screen::Home { selected_item: HomeItem::Capture }, s),
            Button::Left => (Screen::Home { selected_item: HomeItem::Emit }, s),
            _ => (screen, s),
        },
        Screen::EmissionSelection { selected_index } => match button {
            Button::Up => (Screen::EmissionSelection { selected_index: index_up(selected_index, len) }, s),
            Button::Down => (Screen::EmissionSelection { selected_index: index_down(selected_index, len) }, s),
            Button::Okay | Button::Right => if len == 0 {
                (Screen::EmissionSelection { selected_index: 0 }, s)
            } else {
                let here = Screen::EmissionSelection { selected_index: settled(selected_index, len) };
                let e = s.dir_content[clamped(selected_index, len) as int];
                if e.0 {
                    open_dir_spec(here, s, e.1, Screen::EmissionSelection { selected_index: 0 })
                } else if s.dir_path.len() < MAX_DEPTH {
                    (Screen::Emission, StateView { dir_path: s.dir_path.push(e.1), ..s })
                } else {
                    (here, s)
                }
            },
            Button::Left => browse_left_spec(Screen::EmissionSelection { selected_index: 0 }, s, HomeItem::Emit),
        },
        Screen::Emission => match button {
            Button::Okay => (screen, toggle_running_spec(s)),
            _ => if s.running {
                (screen, s)
            } else {
                match button {
                    Button::Up => (screen, StateView {
                        emission_count: if s.emission_count < 255 { (s.emission_count + 1) as u8 } else { 255 },
                        ..s
                    }),
                    Button::Down => (screen, StateView {
                        emission_count: if s.emission_count > 0 { (s.emission_count - 1) as u8 } else { 0 },
                        ..s
                    }),
                    Button::Right => (Screen::EmissionSettings { selected_item: EmissionSettingsItem::Bitrate }, s),
                    _ => (Screen::Home { selected_item: HomeItem::Emit }, soft_reset_spec(s)),
                }
            },
        },
        Screen::EmissionSettings { selected_item } => match button {
            Button::Okay => (Screen::Emission, s),
            Button::Up => (Screen::EmissionSettings { selected_item: EmissionSettingsItem::Bitrate }, s),
            Button::Down => (Screen::EmissionSettings { selected_item: EmissionSettingsItem::Mode }, s),
            Button::Right => match selected_item {
                EmissionSettingsItem::Bitrate => (screen, StateView {
                    bitrate: Bitrate::of_rank(if s.bitrate.rank() < 9 { s.bitrate.rank() + 1 } else { 9 }),
                    ..s
                }),
                EmissionSettingsItem::Mode => (screen, StateView {
                    emission_mode: EmissionMode::of_rank((s.emission_mode.rank() + 1) % 3),
                    ..s
                }),
            },
            Button::Left => match selected_item {
                EmissionSettingsItem::Bitrate => (screen, StateView {
                    bitrate: Bitrate::of_rank(if s.bitrate.rank() > 0 { (s.bitrate.rank() - 1) as nat } else { 0 }),
                    ..s
                }),
                EmissionSettingsItem::Mode => (screen, StateView {
                    emission_mode: EmissionMode::of_rank((s.emission_mode.rank() + 2) % 3),
                    ..s
                }),
            },
        },
        Screen::CaptureSelection { selected_index } => match button {
            Button::Up => (Screen::CaptureSelection { selected_index: index_up(selected_index, len) }, s),
            Button::Down => (Screen::CaptureSelection { selected_index: index_down(selected_index, len) }, s),
            Button::Okay => if len == 0 {
                (Screen::CaptureSelection { selected_index: 0 }, s)
            } else {
                let here = Screen::CaptureSelection { selected_index: settled(selected_index, len) };
                let e = s.dir_content[clamped(selected_index, len) as int];
                if e.0 {
                    choose_capture_dir_spec(here, s, e.1)
                } else {
                    (here, s)
                }
            },
            Button::Right => if len == 0 {
                (Screen::CaptureSelection { selected_index: 0 }, s)
            } else {
                let here = Screen::CaptureSelection { selected_index: settled(selected_index, len) };
                let e = s.dir_content[clamped(selected_index, len) as int];
                if e.0 {
                    open_dir_spec(here, s, e.1, Screen::CaptureSelection { selected_index: 0 })
                } else {
                    (here, s)
                }
            },
            Button::Left => browse_left_spec(Screen::CaptureSelection { selected_index: 0 }, s, HomeItem::Capture),
        },
        Screen::Capture => match button {
            Button::Okay => (screen, toggle_running_spec(s)),
            _ => if s.running {
                (screen, s)
            } else {
                match button {
                    Button::Up => (screen, StateView {
                        bitrate: Bitrate::of_rank(if s.bitrate.rank() < 9 { s.bitrate.rank() + 1 } else { 9 }),
                        ..s
                    }),
                    Button::Down => (screen, StateView {
                        bitrate: Bitrate::of_rank(if s.bitrate.rank() > 0 { (s.bitrate.rank() - 1) as nat } else { 0 }),
                        ..s
                    }),
                    Button::Right => (screen, StateView { capture_silent: !s.capture_silent, ..s }),
                    _ => (Screen::Home { selected_item: HomeItem::Capture }, soft_reset_spec(s)),
                }
            },
        },
    }
}

/// The index after Up on a listing of `len` entries.
pub(crate) fn move_up(index: usize, len: usize) -> (r: usize)
    ensures
        r == index_up(index, len as nat),
{
    if len == 0 {
        0
    } else {
        let current = if index < len { index } else { len - 1 };
        if current == 0 {
            0
        } else {
            current - 1
        }
    }
}

/// The index brought back into a listing of `len` entries; see [`settled`].
pub(crate) fn settle(index: usize, len: usize) -> (r: usize)
    ensures
        r == settled(index, len as nat),
{
    if len == 0 {
        0
    } else if index < len {
        index
    } else {
        len - 1
    }
}

/// The index after Down on a listing of `len` entries.
pub(crate) fn move_down(index: usize, len: usize) -> (r: usize)
    ensures
        r == index_down(index, len as nat),
{
    if len == 0 {
        0
    } else if index < len - 1 {
        index + 1
    } else {
        len - 1
    }
}

/// The entry that a browsing screen acts on.
fn selected_entry(state: &State, index: usize) -> (r: (bool, ShortName))
    requires
        state.dir_content.entries().len() > 0,
    ensures
        (r.0, r.1@) == state.dir_content.entries()[clamped(index, state.dir_content.entries().len()) as int],
{
    let len = state.dir_content.len();
    let i = if index < len { index } else { len - 1 };
    state.dir_content.get(i)
}

/// Removes the innermost name of the path, if any.
fn go_up(state: &mut State)
    ensures
        final(state)@ == (StateView { dir_path: path_up(old(state)@.dir_path), ..old(state)@ }),
{
    state.dir_path.pop();
}

impl Screen {
    /// The screen at boot: home, with emission selected.
    pub fn default() -> (r: Screen)
        ensures
            r == (Screen::Home { selected_item: HomeItem::Emit }),
    {
        Screen::default_variant(ScreenVariant::Home)
    }

    /// A screen in its initial form.
    fn default_variant(variant: ScreenVariant) -> (r: Screen)
        ensures
            variant is Home ==> r == (Screen::Home { selected_item: HomeItem::Emit }),
            variant is EmissionSelection ==> r == (Screen::EmissionSelection { selected_index: 0 }),
            variant is Emission ==> r == Screen::Emission,
            variant is EmissionSettings ==> r == (Screen::EmissionSettings { selected_item: EmissionSettingsItem::Bitrate }),
            variant is CaptureSelection ==> r == (Screen::CaptureSelection { selected_index: 0 }),
            variant is Capture ==> r == Screen::Capture,
    {
        match variant {
            ScreenVariant::Home => Screen::Home { selected_item: HomeItem::Emit },
            ScreenVariant::EmissionSelection => Screen::EmissionSelection { selected_index: 0 },
            ScreenVariant::Emission => Screen::Emission,
            ScreenVariant::EmissionSettings => Screen::EmissionSettings { selected_item: EmissionSettingsItem::Bitrate },
            ScreenVariant::CaptureSelection => Screen::CaptureSelection { selected_index: 0 },
            ScreenVariant::Capture => Screen::Capture,
        }
    }

    /// Opens a directory entry of a browsing screen; see [`open_dir_spec`].
    fn open_dir(&mut self, state: &mut State, name: ShortName, back_to_first: Screen)
        ensures
            (*final(self), final(state)@) == open_dir_spec(*old(self), old(state)@, name@, back_to_first),
    {
        if name.is_parent_dir() {
            go_up(state);
            state.running = true;
            *self = back_to_first;
        } else if name.is_this_dir() {
            state.running = true;
            *self = back_to_first;
        } else if state.dir_path.push(name) {
            state.running = true;
            *self = back_to_first;
        }
    }

    /// Chooses the directory to record into; see [`choose_capture_dir_spec`].
    fn choose_capture_dir(&mut self, state: &mut State, name: ShortName)
        ensures
            (*final(self), final(state)@) == choose_capture_dir_spec(*old(self), old(state)@, name@),
    {
        if name.is_parent_dir() {
            go_up(state);
            *self = Screen::default_variant(ScreenVariant::Capture);
        } else if name.is_this_dir() {
            *self = Screen::default_variant(ScreenVariant::Capture);
        } else if state.dir_path.push(name) {
            *self = Screen::default_variant(ScreenVariant::Capture);
        }
    }

    /// Left on a browsing screen; see [`browse_left_spec`].
    fn browse_left(&mut self, state: &mut State, back_to_first: Screen, home: HomeItem)
        ensures
            (*final(self), final(state)@) == browse_left_spec(back_to_first, old(state)@, home),
    {
        if state.dir_path.is_empty() {
            state.soft_reset();
            *self = Screen::Home { selected_item: home };
        } else {
            go_up(state);
            state.running = true;
            *self = back_to_first;
        }
    }

    /// Ok on an armed screen; see [`toggle_running_spec`].
    fn toggle_running(state: &mut State)
        ensures
            final(state)@ == toggle_running_spec(old(state)@),
    {
        state.running = !state.running;
        if state.running {
            state.success_count = 0;
        }
    }

    /// Applies a button press to the screen and the shared state; see [`press_spec`].
    pub fn press(&mut self, button: Button, state: &mut State)
        ensures
            (*final(self), final(state)@) == press_spec(*old(self), button, old(state)@),
    {
        let len = state.dir_content.len();
        match *self {
            Screen::Home { selected_item } => match button {
                Button::Okay => {
                    state.running = true;
                    *self = Screen::default_variant(match selected_item {
                        HomeItem::Capture => ScreenVariant::CaptureSelection,
                        HomeItem::Emit => ScreenVariant::EmissionSelection,
                    });
                },
                Button::Right => *self = Screen::Home { selected_item: HomeItem::Capture },
                Button::Left => *self = Screen::Home { selected_item: HomeItem::Emit },
                _ => {},
            },
            Screen::EmissionSelection { selected_index } => match button {
                Button::Up => *self = Screen::EmissionSelection { selected_index: move_up(selected_index, len) },
                Button::Down => *self = Screen::EmissionSelection { selected_index: move_down(selected_index, len) },
                Button::Okay | Button::Right => {
                    *self = Screen::EmissionSelection { selected_index: settle(selected_index, len) };
                    if len > 0 {
                        let (is_dir, name) = selected_entry(state, selected_index);
                        if is_dir {
                            self.open_dir(state, name, Screen::default_variant(ScreenVariant::EmissionSelection));
                        } else if state.dir_path.push(name) {
                            *self = Screen::default_variant(ScreenVariant::Emission);
                        }
                    }
                },
                Button::Left => self.browse_left(state, Screen::default_variant(ScreenVariant::EmissionSelection), HomeItem::Emit),
            },
            Screen::Emission => match (button, state.running) {
                (Button::Okay, _) => Screen::toggle_running(state),
                (Button::Up, false) => state.emission_count = state.emission_count.saturating_add(1),
                (Button::Down, false) => state.emission_count = state.emission_count.saturating_sub(1),
                (Button::Right, false) => *self = Screen::default_variant(ScreenVariant::EmissionSettings),
                (Button::Left, false) => {
                    state.soft_reset();
                    *self = Screen::Home { selected_item: HomeItem::Emit };
                },
                _ => {},
            },
            Screen::EmissionSettings { selected_item } => match button {
                Button::Okay => *self = Screen::default_variant(ScreenVariant::Emission),
                Button::Up => {
                    let mut item = selected_item;
                    item.decrement();
                    *self = Screen::EmissionSettings { selected_item: item };
                },
                Button::Down => {
                    let mut item = selected_item;
                    item.increment();
                    *self = Screen::EmissionSettings { selected_item: item };
                },
                Button::Right => match selected_item {
                    EmissionSettingsItem::Bitrate => state.bitrate.increment(),
                    EmissionSettingsItem::Mode => state.emission_mode.increment(),
                },
                Button::Left => match selected_item {
                    EmissionSettingsItem::Bitrate => state.bitrate.decrement(),
                    EmissionSettingsItem::Mode => state.emission_mode.decrement(),
                },
            },
            Screen::CaptureSelection { selected_index } => match button {
                Button::Up => *self = Screen::CaptureSelection { selected_index: move_up(selected_index, len) },
                Button::Down => *self = Screen::CaptureSelection { selected_index: move_down(selected_index, len) },
                Button::Okay => {
                    *self = Screen::CaptureSelection { selected_index: settle(selected_index, len) };
                    if len > 0 {
                        let (is_dir, name) = selected_entry(state, selected_index);
                        if is_dir {
                            self.choose_capture_dir(state, name);
                        }
                    }
                },
                Button::Right => {
                    *self = Screen::CaptureSelection { selected_index: settle(selected_index, len) };
                    if len > 0 {
                        let (is_dir, name) = selected_entry(state, selected_index);
                        if is_dir {
                            self.open_dir(state, name, Screen::default_variant(ScreenVariant::CaptureSelection));
                        }
                    }
                },
                Button::Left => self.browse_left(state, Screen::default_variant(ScreenVariant::CaptureSelection), HomeItem::Capture),
            },
            Screen::Capture => match (button, state.running) {
                (Button::Okay, _) => Screen::toggle_running(state),
                (Button::Up, false) => state.bitrate.increment(),
                (Button::Down, false) => state.bitrate.decrement(),
                (Button::Right, false) => state.capture_silent = !state.capture_silent,
                (Button::Left, false) => {
                    state.soft_reset();
                    *self = Screen::Home { selected_item: HomeItem::Capture };
                },
                _ => {},
            },
        }
    }
}

/// The screen and state after a sequence of presses, first press first.
pub open spec fn run_presses(screen: Screen, s: StateView, buttons: Seq<Button>) -> (Screen, StateView)
    decreases buttons.len(),
{
    if buttons.len() == 0 {
        (screen, s)
    } else {
        let next = press_spec(screen, buttons[0], s);
        run_presses(next.0, next.1, buttons.drop_first())
    }
}

/// `n` presses of one button.
pub open spec fn presses(button: Button, n: nat) -> Seq<Button> {
    Seq::new(n, |i: int| button)
}

/// A browsing screen with the given index.
pub open spec fn browsing(capture: bool, index: usize) -> Screen {
    if capture {
        Screen::CaptureSelection { selected_index: index }
    } else {
        Screen::EmissionSelection { selected_index: index }
    }
}

/// Running `a` then `b` is running `a + b`.
proof fn lemma_run_concat(screen: Screen, s: StateView, a: Seq<Button>, b: Seq<Button>)
    ensures
        run_presses(screen, s, a + b) == ({
            let mid = run_presses(screen, s, a);
            run_presses(mid.0, mid.1, b)
        }),
    decreases a.len(),
{
    if a.len() == 0 {
        assert(a + b =~= b);
    } else {
        let next = press_spec(screen, a[0], s);
        assert((a + b).drop_first() =~= a.drop_first() + b);
        lemma_run_concat(next.0, next.1, a.drop_first(), b);
    }
}

/// Down `k` times on a browsing screen moves `k` entries down while there are entries.
proof fn lemma_downs(capture: bool, i: usize, k: nat, s: StateView)
    requires
        i + k < s.dir_content.len(),
        s.dir_content.len() <= MAX_ENTRIES,
    ensures
        run_presses(browsing(capture, i), s, presses(Button::Down, k)) == (browsing(capture, (i + k) as usize), s),
    decreases k,
{
    if k > 0 {
        assert(presses(Button::Down, k).drop_first() =~= presses(Button::Down, (k - 1) as nat));
        assert(presses(Button::Down, k)[0] == Button::Down);
        assert(press_spec(browsing(capture, i), Button::Down, s) == (browsing(capture, (i + 1) as usize), s));
        lemma_downs(capture, (i + 1) as usize, (k - 1) as nat, s);
    }
}

/// From home, both browsing screens are one or two presses away.
pub proof fn lemma_reach_browsing(home: HomeItem, s: StateView)
    ensures
        run_presses(Screen::Home { selected_item: home }, s, seq![Button::Left, Button::Okay]).0
            == (Screen::EmissionSelection { selected_index: 0 }),
        run_presses(Screen::Home { selected_item: home }, s, seq![Button::Right, Button::Okay]).0
            == (Screen::CaptureSelection { selected_index: 0 }),
{
    reveal_with_fuel(run_presses, 3);
    assert(seq![Button::Left, Button::Okay].drop_first() =~= seq![Button::Okay]);
    assert(seq![Button::Right, Button::Okay].drop_first() =~= seq![Button::Okay]);
    assert(seq![Button::Okay].drop_first() =~= Seq::<Button>::empty());
}

/// From home, the emission screen and its settings are reached by finite sequences of
/// presses when the listing holds a file and the path has room for it.
pub proof fn lemma_reach_emission(home: HomeItem, s: StateView, k: nat)
    requires
        k < s.dir_content.len(),
        s.dir_content.len() <= MAX_ENTRIES,
        !s.dir_content[k as int].0,
        s.dir_path.len() < MAX_DEPTH,
    ensures
        exists|b: Seq<Button>| (#[trigger] run_presses(Screen::Home { selected_item: home }, s, b)).0 == Screen::Emission,
        exists|b: Seq<Button>| (#[trigger] run_presses(Screen::Home { selected_item: home }, s, b)).0
            == (Screen::EmissionSettings { selected_item: EmissionSettingsItem::Bitrate }),
{
    reveal_with_fuel(run_presses, 3);
    let start = Screen::Home { selected_item: home };
    let open = seq![Button::Left, Button::Okay];
    lemma_reach_browsing(home, s);
    let s1 = run_presses(start, s, open).1;
    assert(seq![Button::Left, Button::Okay].drop_first() =~= seq![Button::Okay]);
    assert(seq![Button::Okay].drop_first() =~= Seq::<Button>::empty());
    assert(s1 == StateView { running: true, ..s });
    lemma_downs(false, 0, k, s1);
    let pick = seq![Button::Okay];
    let s2 = StateView { dir_path: s1.dir_path.push(s.dir_content[k as int].1), ..s1 };
    assert(run_presses(browsing(false, k as usize), s1, pick) == (Screen::Emission, s2));
    let b1 = open + presses(Button::Down, k) + pick;
    lemma_run_concat(start, s, open, presses(Button::Down, k));
    lemma_run_concat(start, s, open + presses(Button::Down, k), pick);
    assert(run_presses(start, s, b1).0 == Screen::Emission);
    assert(s2.running);
    let settings = seq![Button::Okay, Button::Right];
    assert(settings.drop_first() =~= seq![Button::Right]);
    assert(seq![Button::Right].drop_first() =~= Seq::<Button>::empty());
    lemma_run_concat(start, s, b1, settings);
    assert(run_presses(start, s, b1 + settings).0 == (Screen::EmissionSettings { selected_item: EmissionSettingsItem::Bitrate }));
}

/// From home, the capture screen is reached by a finite sequence of presses when the listing
/// holds a directory entry that can be chosen.
pub proof fn lemma_reach_capture(home: HomeItem, s: StateView, k: nat)
    requires
        k < s.dir_content.len(),
        s.dir_content.len() <= MAX_ENTRIES,
        s.dir_content[k as int].0,
        s.dir_path.len() < MAX_DEPTH,
    ensures
        exists|b: Seq<Button>| (#[trigger] run_presses(Screen::Home { selected_item: home }, s, b)).0 == Screen::Capture,
{
    reveal_with_fuel(run_presses, 3);
    let start = Screen::Home { selected_item: home };
    let open = seq![Button::Right, Button::Okay];
    lemma_reach_browsing(home, s);
    let s1 = run_presses(start, s, open).1;
    assert(seq![Button::Right, Button::Okay].drop_first() =~= seq![Button::Okay]);
    assert(seq![Button::Okay].drop_first() =~= Seq::<Button>::empty());
    lemma_downs(true, 0, k, s1);
    let pick = seq![Button::Okay];
    assert(s1.dir_content == s.dir_content && s1.dir_path == s.dir_path);
    assert(run_presses(browsing(true, k as usize), s1, pick).0 == Screen::Capture);
    let b1 = open + presses(Button::Down, k) + pick;
    lemma_run_concat(start, s, open, presses(Button::Down, k));
    lemma_run_concat(start, s, open + presses(Button::Down, k), pick);
    assert(run_presses(start, s, b1).0 == Screen::Capture);
}

/// The state on arrival home after going back from `s`: path, listing and counts reset, bus
/// settings kept.
pub open spec fn reset_from(t: StateView, s: StateView) -> bool {
    &&& t.dir_path.len() == 0
    &&& t.dir_content.len() == 0
    &&& t.emission_count == 1
    &&& t.success_count == 0
    &&& t.bitrate == s.bitrate
    &&& t.emission_mode == s.emission_mode
    &&& t.capture_silent == s.capture_silent
}

/// On a browsing screen, one Left per name of the path and one more lead home, with the state
/// reset.
proof fn lemma_lefts_from_browsing(capture: bool, i: usize, s: StateView)
    ensures
        run_presses(browsing(capture, i), s, presses(Button::Left, s.dir_path.len() + 1)).0 is Home,
        reset_from(run_presses(browsing(capture, i), s, presses(Button::Left, s.dir_path.len() + 1)).1, s),
    decreases s.dir_path.len(),
{
    reveal_with_fuel(run_presses, 2);
    let n = s.dir_path.len() + 1;
    assert(presses(Button::Left, n)[0] == Button::Left);
    assert(presses(Button::Left, n).drop_first() =~= presses(Button::Left, (n - 1) as nat));
    if s.dir_path.len() == 0 {
        assert(presses(Button::Left, 0) =~= Seq::<Button>::empty());
    } else {
        let next = press_spec(browsing(capture, i), Button::Left, s);
        assert(next.0 == browsing(capture, 0));
        assert(next.1.dir_path.len() == s.dir_path.len() - 1);
        lemma_lefts_from_browsing(capture, 0, next.1);
    }
}

/// Pressing Left repeatedly returns home from every screen on which Left means going back:
/// all but the settings screen, where Left lowers a setting, and the armed screens while they
/// run, where Left does nothing.
pub proof fn lemma_left_returns_home(screen: Screen, s: StateView)
    requires
        !(screen is EmissionSettings),
        (screen is Emission || screen is Capture) ==> !s.running,
    ensures
        exists|n: nat| (#[trigger] run_presses(screen, s, presses(Button::Left, n))).0 is Home,
{
    match screen {
        Screen::Home { .. } => {
            assert(presses(Button::Left, 0) =~= Seq::<Button>::empty());
            assert(run_presses(screen, s, presses(Button::Left, 0)).0 is Home);
        },
        Screen::EmissionSelection { selected_index } => {
            lemma_lefts_from_browsing(false, selected_index, s);
            assert(browsing(false, selected_index) == screen);
        },
        Screen::CaptureSelection { selected_index } => {
            lemma_lefts_from_browsing(true, selected_index, s);
            assert(browsing(true, selected_index) == screen);
        },
        _ => {
            reveal_with_fuel(run_presses, 2);
            assert(presses(Button::Left, 1)[0] == Button::Left);
            assert(presses(Button::Left, 1).drop_first() =~= Seq::<Button>::empty());
            assert(run_presses(screen, s, presses(Button::Left, 1)).0 is Home);
        },
    }
}

/// After any press, a browsing screen's index lies within its listing when the listing is not
/// empty, even when the listing shrank since the index was chosen.
pub proof fn lemma_index_within_listing(screen: Screen, button: Button, s: StateView)
    requires
        s.dir_content.len() <= MAX_ENTRIES,
    ensures
        ({
            let (next, t) = press_spec(screen, button, s);
            t.dir_content.len() > 0 ==> match next {
                Screen::EmissionSelection { selected_index } => selected_index < t.dir_content.len(),
                Screen::CaptureSelection { selected_index } => selected_index < t.dir_content.len(),
                _ => true,
            }
        }),
{
}

/// Going back home: from every screen but home on which Left means going back (all but the
/// settings screen, and the armed screens while they run), at most one Left per name of the
/// path and one more lead home, where path, listing, repetition and success counts are reset
/// and the bus settings are kept.
pub proof fn lemma_left_resets_home(screen: Screen, s: StateView)
    requires
        !(screen is Home),
        !(screen is EmissionSettings),
        (screen is Emission || screen is Capture) ==> !s.running,
    ensures
        exists|n: nat|
            1 <= n <= s.dir_path.len() + 1 && (#[trigger] run_presses(screen, s, presses(Button::Left, n))).0 is Home
                && reset_from(run_presses(screen, s, presses(Button::Left, n)).1, s),
{
    match screen {
        Screen::EmissionSelection { selected_index } => {
            lemma_lefts_from_browsing(false, selected_index, s);
            assert(browsing(false, selected_index) == screen);
            let n = s.dir_path.len() + 1;
            assert(run_presses(screen, s, presses(Button::Left, n)).0 is Home);
        },
        Screen::CaptureSelection { selected_index } => {
            lemma_lefts_from_browsing(true, selected_index, s);
            assert(browsing(true, selected_index) == screen);
            let n = s.dir_path.len() + 1;
            assert(run_presses(screen, s, presses(Button::Left, n)).0 is Home);
        },
        _ => {
            reveal_with_fuel(run_presses, 2);
            assert(presses(Button::Left, 1)[0] == Button::Left);
            assert(presses(Button::Left, 1).drop_first() =~= Seq::<Button>::empty());
            assert(run_presses(screen, s, presses(Button::Left, 1)).0 is Home);
        },
    }
}

} // verus!
