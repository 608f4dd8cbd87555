//! The five buttons of the panel and the timing filter applied to their edges.

use vstd::prelude::*;

verus! {

/// Ticks of the monotonic clock per second.
pub const TICK_RATE: u32 = 1_000;

/// Presses of one button closer than this many milliseconds are one press.
pub const DEBOUNCE_DELAY_MS: u32 = 100;

/// [`DEBOUNCE_DELAY_MS`] in clock ticks.
pub const DEBOUNCE_TICKS: u32 = DEBOUNCE_DELAY_MS * TICK_RATE / 1_000;

/// A button of the panel.
#[derive(Clone, Copy, Debug, PartialEq, Eq, Structural)]
pub enum Button {
    /// The OK button.
    Okay,
    /// The UP button.
    Up,
    /// The DOWN button.
    Down,
    /// The RIGHT button.
    Right,
    /// The LEFT button.
    Left,
}

/// Which buttons are pressed.
#[derive(Clone, Copy, Debug, PartialEq, Eq, Structural)]
pub struct ButtonPanelState {
    /// Whether the OK button is pressed.
    pub ok_pressed: bool,
    /// Whether the UP button is pressed.
    pub up_pressed: bool,
    /// Whether the DOWN button is pressed.
    pub down_pressed: bool,
    /// Whether the RIGHT button is pressed.
    pub right_pressed: bool,
    /// Whether the LEFT button is pressed.
    pub left_pressed: bool,
}

impl ButtonPanelState {
    /// All buttons released.
    pub fn default() -> (r: Self)
        ensures
            !r.ok_pressed && !r.up_pressed && !r.down_pressed && !r.right_pressed && !r.left_pressed,
    {
        ButtonPanelState {
            ok_pressed: false,
            up_pressed: false,
            down_pressed: false,
            right_pressed: false,
            left_pressed: false,
        }
    }
}

/// Ticks from `earlier` to `later` on a clock that wraps around at 2^32.
pub open spec fn elapsed(earlier: u32, later: u32) -> nat {
    if later >= earlier {
        (later - earlier) as nat
    } else {
        (later + 0x1_0000_0000 - earlier) as nat
    }
}

/// An edge at `now` is dropped when the previous edge of the same button came less than
/// [`DEBOUNCE_TICKS`] before it. The first edge is never dropped.
pub open spec fn ignored(last_press_time: Option<u32>, now: u32) -> bool {
    match last_press_time {
        None => false,
        Some(last) => elapsed(last, now) < DEBOUNCE_TICKS,
    }
}

/// Records an edge of a button at clock value `now` and returns whether it is to be ignored,
/// being too close to the previous edge of the same button.
pub fn debounce_input(last_press_time: &mut Option<u32>, now: u32) -> (r: bool)
    ensures
        r == ignored(*old(last_press_time), now),
        *final(last_press_time) == Some(now),
{
    let previous = *last_press_time;
    *last_press_time = Some(now);
    match previous {
        None => false,
        Some(last) => now.wrapping_sub(last) < DEBOUNCE_TICKS,
    }
}

/// Two edges of one button: the second is delivered exactly when it comes at least
/// [`DEBOUNCE_TICKS`] after the first, since the first leaves its own time as the last one.
pub proof fn lemma_debounce(t1: u32, t2: u32)
    requires
        t1 <= t2,
    ensures
        ignored(Some(t1), t2) <==> t2 - t1 < DEBOUNCE_TICKS,
{
}

} // verus!
