//! The decisions that tie the user interface to the bus and to storage: what the orchestrator
//! does for a screen and state, and the steps of the emission and capture tasks.

use vstd::prelude::*;

use crate::can::{Bitrate, BusState, EmissionMode, FrameView};
use crate::queue::{after_pop, FrameQueue};
use crate::sd::{dec_digits, push_all, push_dec_digits};
use crate::state::{Screen, State};

verus! {

/// What the orchestrator does for the current screen and state.
#[derive(Clone, Copy, Debug, PartialEq, Eq, Structural)]
pub enum Action {
    /// List the browsed directory, directories only for a capture.
    SpawnIndexer { dirs_only: bool },
    /// Draw the screen again.
    Render,
    /// Enable the bus for transmission and start replaying the chosen log.
    StartEmission { bitrate: Bitrate, mode: EmissionMode },
    /// Enable the bus for reception and start recording.
    StartCapture { bitrate: Bitrate, silent: bool },
    /// Disable the bus and draw the screen again.
    StopBus,
    /// Nothing to do.
    Nothing,
}

/// The orchestrator's choice: a browsing screen that asks for work gets a listing, one that
/// does not is drawn; an armed screen that asks for work starts it, one that does not stops the
/// bus; other screens need nothing.
pub open spec fn orchestrate_spec(screen: Screen, running: bool, bitrate: Bitrate, mode: EmissionMode, silent: bool) -> Action {
    match screen {
        Screen::EmissionSelection { .. } => if running {
            Action::SpawnIndexer { dirs_only: false }
        } else {
            Action::Render
        },
        Screen::CaptureSelection { .. } => if running {
            Action::SpawnIndexer { dirs_only: true }
        } else {
            Action::Render
        },
        Screen::Emission => if running {
            Action::StartEmission { bitrate, mode }
        } else {
            Action::StopBus
        },
        Screen::Capture => if running {
            Action::StartCapture { bitrate, silent }
        } else {
            Action::StopBus
        },
        _ => Action::Nothing,
    }
}

/// Chooses what to do after an input or the end of a task; see [`orchestrate_spec`].
pub fn orchestrate(screen: &Screen, state: &State) -> (r: Action)
    ensures
        r == orchestrate_spec(*screen, state.running, state.bitrate, state.emission_mode, state.capture_silent),
{
    match (screen, state.running) {
        (Screen::EmissionSelection { .. }, true) => Action::SpawnIndexer { dirs_only: false },
        (Screen::CaptureSelection { .. }, true) => Action::SpawnIndexer { dirs_only: true },
        (Screen::EmissionSelection { .. }, false) | (Screen::CaptureSelection { .. }, false) => Action::Render,
        (Screen::Emission, true) => Action::StartEmission { bitrate: state.bitrate, mode: state.emission_mode },
        (Screen::Capture, true) => Action::StartCapture { bitrate: state.bitrate, silent: state.capture_silent },
        (Screen::Emission, false) | (Screen::Capture, false) => Action::StopBus,
        _ => Action::Nothing,
    }
}

/// A task that the orchestrator starts.
#[derive(Clone, Copy, Debug, PartialEq, Eq, Structural)]
pub enum Task {
    /// Lists the browsed directory.
    Indexer,
    /// Replays a log onto the bus.
    Reader,
    /// Records the bus into a log.
    Writer,
}

/// The configuration of the bus and which tasks are active.
#[derive(Clone, Copy, Debug, PartialEq, Eq, Structural)]
pub struct Activity {
    /// The bus configuration.
    pub bus: BusState,
    /// The directory indexer is active, and whether it lists directories only.
    pub indexer: Option<bool>,
    /// The log reader is active.
    pub reader: bool,
    /// The log writer is active.
    pub writer: bool,
}

/// The configuration after an action: a task asked for while it is active stays as it is, and
/// drawing changes nothing.
pub open spec fn apply_spec(a: Activity, action: Action) -> Activity {
    match action {
        Action::SpawnIndexer { dirs_only } => if a.indexer is Some {
            a
        } else {
            Activity { indexer: Some(dirs_only), ..a }
        },
        Action::StartEmission { bitrate, mode } => Activity {
            bus: BusState::Transmitting { bitrate, mode },
            reader: true,
            ..a
        },
        Action::StartCapture { bitrate, silent } => Activity {
            bus: BusState::Receiving { bitrate, silent },
            writer: true,
            ..a
        },
        Action::StopBus => Activity { bus: BusState::Disabled, ..a },
        Action::Render | Action::Nothing => a,
    }
}

impl Activity {
    /// At boot: bus disabled, no task active.
    pub fn new() -> (r: Activity)
        ensures
            r == (Activity { bus: BusState::Disabled, indexer: None, reader: false, writer: false }),
    {
        Activity { bus: BusState::new(), indexer: None, reader: false, writer: false }
    }

    /// Records the effect of an action; see [`apply_spec`].
    pub fn apply(&mut self, action: Action)
        ensures
            *final(self) == apply_spec(*old(self), action),
    {
        match action {
            Action::SpawnIndexer { dirs_only } => {
                if self.indexer.is_none() {
                    self.indexer = Some(dirs_only);
                }
            },
            Action::StartEmission { bitrate, mode } => {
                self.bus.enable_tx(bitrate, mode);
                self.reader = true;
            },
            Action::StartCapture { bitrate, silent } => {
                self.bus.enable_rx(bitrate, silent);
                self.writer = true;
            },
            Action::StopBus => self.bus.disable(),
            Action::Render | Action::Nothing => {},
        }
    }

    /// Records the end of a task.
    pub fn finish(&mut self, task: Task)
        ensures
            *final(self) == (match task {
                Task::Indexer => Activity { indexer: None, ..*old(self) },
                Task::Reader => Activity { reader: false, ..*old(self) },
                Task::Writer => Activity { writer: false, ..*old(self) },
            }),
    {
        match task {
            Task::Indexer => self.indexer = None,
            Task::Reader => self.reader = false,
            Task::Writer => self.writer = false,
        }
    }
}

/// Running the orchestrator twice on an unchanged screen and state leaves the bus and the
/// tasks as running it once does.
pub proof fn lemma_orchestrate_idempotent(a: Activity, screen: Screen, running: bool, bitrate: Bitrate, mode: EmissionMode, silent: bool)
    ensures
        ({
            let action = orchestrate_spec(screen, running, bitrate, mode, silent);
            apply_spec(apply_spec(a, action), action) == apply_spec(a, action)
        }),
{
}

/// What the reader does with a decoded frame.
#[derive(Clone, Copy, Debug, PartialEq, Eq, Structural)]
pub enum PushDecision {
    /// Queue the frame.
    Push,
    /// The queue is full: yield and ask again.
    Wait,
    /// A stop was asked for: leave the file.
    Abort,
}

/// Replays of a log: how many passes over the file remain, or endless.
#[derive(Clone, Copy, Debug, PartialEq, Eq, Structural)]
pub struct EmissionRun {
    /// Passes left; ignored when endless.
    pub remaining: u8,
    /// Whether passes go on until a stop is asked for.
    pub endless: bool,
}

impl EmissionRun {
    /// Replays for a repetition count; 0 means until stopped.
    pub fn new(emission_count: u8) -> (r: EmissionRun)
        ensures
            r == run_for(emission_count),
    {
        EmissionRun { remaining: emission_count, endless: emission_count == 0 }
    }

    /// Whether another pass over the file starts: one remains and no stop was asked for.
    pub fn start_pass(&self, running: bool) -> (r: bool)
        ensures
            r == starts_pass(*self, running),
    {
        running && (self.endless || self.remaining > 0)
    }

    /// Counts a finished pass.
    pub fn end_pass(&mut self)
        ensures
            *final(self) == after_pass(*old(self)),
    {
        if !self.endless && self.remaining > 0 {
            self.remaining = self.remaining - 1;
        }
    }
}

/// The replays asked for by a repetition count; 0 means until stopped.
pub open spec fn run_for(emission_count: u8) -> EmissionRun {
    EmissionRun { remaining: emission_count, endless: emission_count == 0 }
}

/// Whether another pass starts: one remains and no stop was asked for.
pub open spec fn starts_pass(run: EmissionRun, running: bool) -> bool {
    running && (run.endless || run.remaining > 0)
}

/// The replays left after a finished pass.
pub open spec fn after_pass(run: EmissionRun) -> EmissionRun {
    if run.endless || run.remaining == 0 {
        run
    } else {
        EmissionRun { remaining: (run.remaining - 1) as u8, ..run }
    }
}

/// The frames the reader queues when no stop is asked for and the transmitter keeps taking
/// frames: each pass queues the frames of the file in order, until no pass starts.
pub open spec fn queued_by_passes(run: EmissionRun, file: Seq<FrameView>) -> Seq<FrameView>
    decreases run.remaining,
{
    if run.endless || !starts_pass(run, true) {
        Seq::empty()
    } else {
        file + queued_by_passes(after_pass(run), file)
    }
}

/// `file` repeated `n` times.
pub open spec fn repeated(file: Seq<FrameView>, n: nat) -> Seq<FrameView>
    decreases n,
{
    if n == 0 {
        Seq::empty()
    } else {
        file + repeated(file, (n - 1) as nat)
    }
}

/// The passes left after `k` finished passes.
pub open spec fn after_passes(run: EmissionRun, k: nat) -> EmissionRun
    decreases k,
{
    if k == 0 {
        run
    } else {
        after_pass(after_passes(run, (k - 1) as nat))
    }
}

/// A replay that no stop interrupts: with repetition count `n` > 0, the reader starts exactly
/// `n` passes, each frame it decodes is pushed as soon as the queue has room, so it queues the
/// file's frames `n` times in order, and after the `n`-th pass no pass starts, so it goes on to
/// drain the queue and clear `running`. With count 0 a pass always starts again.
pub proof fn lemma_replay(n: u8, file: Seq<FrameView>)
    ensures
        push_decision_spec(true, true) == PushDecision::Push,
        n > 0 ==> queued_by_passes(run_for(n), file) == repeated(file, n as nat),
        n > 0 ==> queued_by_passes(run_for(n), file).len() == n as nat * file.len(),
        n > 0 ==> !starts_pass(after_passes(run_for(n), n as nat), true),
        forall|k: nat| k < n ==> #[trigger] starts_pass(after_passes(run_for(n), k), true),
        n == 0 ==> forall|k: nat| #[trigger] starts_pass(after_passes(run_for(n), k), true),
{
    lemma_queued_by_passes(n, file);
    lemma_after_passes(n);
    assert forall|k: nat| k < n implies #[trigger] starts_pass(after_passes(run_for(n), k), true) by {
        lemma_after_passes_remaining(n, k);
    }
    if n > 0 {
        lemma_after_passes_remaining(n, n as nat);
    }
}

/// Passes counted from a run with `m` left.
proof fn lemma_queued_by_passes(m: u8, file: Seq<FrameView>)
    ensures
        m > 0 ==> queued_by_passes(EmissionRun { remaining: m, endless: false }, file) == repeated(file, m as nat),
        m > 0 ==> repeated(file, m as nat).len() == m as nat * file.len(),
    decreases m,
{
    if m > 0 {
        lemma_queued_by_passes((m - 1) as u8, file);
        let r = EmissionRun { remaining: m, endless: false };
        assert(after_pass(r) == EmissionRun { remaining: (m - 1) as u8, endless: false });
        if m == 1 {
            assert(repeated(file, 0) == Seq::<FrameView>::empty());
            assert(file + Seq::<FrameView>::empty() =~= file);
            assert(queued_by_passes(after_pass(r), file) == Seq::<FrameView>::empty());
            assert(0 * file.len() == 0);
        }
        assert(repeated(file, (m - 1) as nat).len() == (m - 1) as nat * file.len());
        assert(repeated(file, m as nat).len() == file.len() + repeated(file, (m - 1) as nat).len());
        assert(m as nat * file.len() == file.len() + (m - 1) as nat * file.len()) by (nonlinear_arith)
            requires m >= 1;
    }
}

/// An endless run stays endless.
proof fn lemma_after_passes(n: u8)
    ensures
        n == 0 ==> forall|k: nat| #[trigger] after_passes(run_for(n), k) == run_for(n),
{
    if n == 0 {
        assert forall|k: nat| #[trigger] after_passes(run_for(n), k) == run_for(n) by {
            lemma_after_passes_endless(k);
        }
    }
}

/// After `k` passes of an endless run, it is unchanged.
proof fn lemma_after_passes_endless(k: nat)
    ensures
        after_passes(run_for(0), k) == run_for(0),
    decreases k,
{
    if k > 0 {
        lemma_after_passes_endless((k - 1) as nat);
    }
}

/// After `k` passes of a run of `n` > 0, `n - k` remain.
proof fn lemma_after_passes_remaining(n: u8, k: nat)
    requires
        k <= n,
    ensures
        after_passes(run_for(n), k) == (EmissionRun { remaining: (n - k) as u8, endless: n == 0 }),
    decreases k,
{
    if k > 0 {
        lemma_after_passes_remaining(n, (k - 1) as nat);
    }
}

/// What to do with a decoded frame: leave when a stop was asked for, wait while the queue is
/// full, push otherwise.
pub open spec fn push_decision_spec(running: bool, queue_ready: bool) -> PushDecision {
    if !running {
        PushDecision::Abort
    } else if !queue_ready {
        PushDecision::Wait
    } else {
        PushDecision::Push
    }
}

/// What to do with a decoded frame; see [`push_decision_spec`].
pub fn push_decision(running: bool, queue_ready: bool) -> (r: PushDecision)
    ensures
        r == push_decision_spec(running, queue_ready),
{
    if !running {
        PushDecision::Abort
    } else if !queue_ready {
        PushDecision::Wait
    } else {
        PushDecision::Push
    }
}

/// Whether the reader, done with its passes, still waits for the transmit queue to drain:
/// while frames are queued and no stop was asked for.
pub fn drain_pending(queued: usize, running: bool) -> (r: bool)
    ensures
        r == (queued > 0 && running),
{
    queued > 0 && running
}

/// Whether the writer goes on: while a run is on, or frames are still queued, so that frames
/// received before a stop are stored.
pub fn writer_continues(running: bool, queued: usize) -> (r: bool)
    ensures
        r == (running || queued > 0),
{
    running || queued > 0
}

/// The decimal digits of `n`, without leading zeros.
pub open spec fn dec_text(n: nat) -> Seq<u8>
    decreases n,
{
    if n < 10 {
        seq![(48 + n) as u8]
    } else {
        dec_text(n / 10).push((48 + n % 10) as u8)
    }
}

/// `n` in decimal, right-aligned with spaces in a field of four.
pub open spec fn padded4(n: nat) -> Seq<u8> {
    Seq::new((4 - dec_text(n).len()) as nat, |i: int| 32u8) + dec_text(n)
}

/// The text before the bit rate in a capture header.
pub open spec fn header_start() -> Seq<u8> {
    seq![35u8, 32, 70, 114, 97, 109, 101, 115, 32, 99, 97, 112, 116, 117, 114, 101, 100, 32, 98, 121, 32, 67, 65, 78, 97,
        114, 121, 32, 45, 32, 66, 105, 116, 114, 97, 116, 101, 58, 32]
}

/// The text between the bit rate and the silent flag in a capture header.
pub open spec fn header_middle() -> Seq<u8> {
    seq![32u8, 107, 98, 112, 115, 44, 32, 83, 105, 108, 101, 110, 116, 58, 32]
}

/// `true` or `false`.
pub open spec fn bool_text(b: bool) -> Seq<u8> {
    if b {
        seq![116u8, 114, 117, 101]
    } else {
        seq![102u8, 97, 108, 115, 101]
    }
}

/// The first line of a capture file:
/// `# Frames captured by CANary - Bitrate: <kbps, width 4> kbps, Silent: <true|false>`.
pub open spec fn header_spec(bitrate: Bitrate, silent: bool) -> Seq<u8> {
    header_start() + padded4((bitrate.bps_spec() / 1000) as nat) + header_middle() + bool_text(silent) + seq![10u8]
}

/// Appends the decimal digits of `n`, without leading zeros.
fn push_dec_text(out: &mut Vec<u8>, n: u32)
    ensures
        final(out)@ == old(out)@ + dec_text(n as nat),
    decreases n,
{
    if n < 10 {
        out.push(48 + n as u8);
        assert(old(out)@.push((48 + n) as u8) =~= old(out)@ + dec_text(n as nat));
    } else {
        push_dec_text(out, n / 10);
        out.push(48 + (n % 10) as u8);
        assert(old(out)@ + dec_text((n / 10) as nat) + seq![(48 + n % 10) as u8] =~= old(out)@ + dec_text(n as nat));
    }
}

/// [`dec_text`] of a number below 10000 has at most four digits.
proof fn lemma_dec_text_len(n: nat)
    ensures
        n < 10 ==> dec_text(n).len() == 1,
        n < 100 ==> dec_text(n).len() <= 2,
        n < 1000 ==> dec_text(n).len() <= 3,
        n < 10000 ==> dec_text(n).len() <= 4,
    decreases n,
{
    if n >= 10 {
        lemma_dec_text_len(n / 10);
    }
}

/// The first line of a capture file; see [`header_spec`].
pub fn capture_header(bitrate: Bitrate, silent: bool) -> (r: Vec<u8>)
    ensures
        r@ == header_spec(bitrate, silent),
{
    let mut out: Vec<u8> = Vec::new();
    push_all(&mut out, &[35u8, 32, 70, 114, 97, 109, 101, 115, 32, 99, 97, 112, 116, 117, 114, 101, 100, 32, 98, 121, 32, 67,
        65, 78, 97, 114, 121, 32, 45, 32, 66, 105, 116, 114, 97, 116, 101, 58, 32]);
    let kbps = bitrate.bps() / 1000;
    let mut digits: Vec<u8> = Vec::new();
    push_dec_text(&mut digits, kbps);
    proof {
        lemma_dec_text_len(kbps as nat);
    }
    let mut pad: usize = 4 - digits.len();
    let ghost start = out@;
    while pad > 0
        invariant
            digits@ == dec_text(kbps as nat),
            digits@.len() <= 4,
            pad <= 4 - digits@.len(),
            out@ == start + Seq::new((4 - digits@.len() - pad) as nat, |i: int| 32u8),
        decreases pad,
    {
        out.push(32);
        pad = pad - 1;
        assert(out@ =~= start + Seq::new((4 - digits@.len() - pad) as nat, |i: int| 32u8));
    }
    push_all(&mut out, digits.as_slice());
    push_all(&mut out, &[32u8, 107, 98, 112, 115, 44, 32, 83, 105, 108, 101, 110, 116, 58, 32]);
    if silent {
        push_all(&mut out, &[116u8, 114, 117, 101]);
    } else {
        push_all(&mut out, &[102u8, 97, 108, 115, 101]);
    }
    out.push(10);
    assert(out@ =~= header_spec(bitrate, silent));
    out
}

/// The name of a new capture file: the counter value in eight decimal digits, then `.log`.
pub open spec fn capture_file_name_spec(ticks: u32) -> Seq<u8> {
    dec_digits(ticks as nat, 8) + seq![46u8, 108, 111, 103]
}

/// The name of a new capture file, made unique by the clock value `ticks`, which must fit
/// the eight characters of a short base name.
pub fn capture_file_name(ticks: u32) -> (r: Vec<u8>)
    requires
        ticks < 100_000_000,
    ensures
        r@ == capture_file_name_spec(ticks),
{
    let mut out: Vec<u8> = Vec::new();
    push_dec_digits(&mut out, ticks, 8);
    push_all(&mut out, &[46u8, 108, 111, 103]);
    assert(out@ =~= capture_file_name_spec(ticks));
    out
}

/// One hand-off of the transmitter, after it tried to send the front frame of the queue: a
/// frame the controller took leaves the queue, and sending goes on while frames remain; a frame
/// it could not take stays at the front, and sending waits for the next interrupt.
pub fn sender_step(queue: &mut FrameQueue, sent: bool) -> (r: bool)
    requires
        old(queue).wf(),
    ensures
        final(queue).wf(),
        final(queue).cap() == old(queue).cap(),
        sent ==> final(queue).items() == after_pop(old(queue).items()),
        !sent ==> final(queue).items() == old(queue).items(),
        r == (sent && final(queue).items().len() > 0),
{
    if sent {
        queue.pop();
        !queue.is_empty()
    } else {
        false
    }
}

} // verus!
