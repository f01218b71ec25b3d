use vstd::prelude::*;

verus! {

/// Ticks a shift intent waits before it may fire again.
pub const SHIFT_DELAY: u32 = 10;

/// Ticks a rotate intent waits before it may fire again.
pub const ROTATE_DELAY: u32 = 20;

/// The keys held at one poll of the keyboard.
#[derive(Clone, Copy, Debug, PartialEq, Eq, Default)]
pub struct Keys {
    pub rotate_cw: bool,
    pub rotate_ccw: bool,
    pub left: bool,
    pub right: bool,
    pub soft_drop: bool,
}

/// The shift intent after a poll: left wins; right counts only where no left
/// was seen since the last tick.
pub open spec fn shift_intent_spec(current: i32, left: bool, right: bool) -> i32 {
    if left {
        -1i32
    } else if right && current >= 0 {
        1i32
    } else {
        current
    }
}

/// The rotate intent after a poll: clockwise wins; counter-clockwise counts
/// only where no clockwise was seen since the last tick. The square never
/// takes a rotate intent.
pub open spec fn rotate_intent_spec(current: i32, cw: bool, ccw: bool, square: bool) -> i32 {
    if square {
        current
    } else if cw {
        1i32
    } else if ccw && current <= 0 {
        -1i32
    } else {
        current
    }
}

/// The debounce counter after a poll: an intent that is set while the counter
/// is idle arms it to the full delay; no intent resets it; otherwise it keeps
/// counting down.
pub open spec fn armed_spec(intent: i32, ticks: u32, full_delay: u32) -> u32 {
    if intent != 0 && ticks == 0 {
        full_delay
    } else if intent == 0 {
        0
    } else {
        ticks
    }
}

/// Combines the held shift keys into the pending shift intent.
pub fn shift_intent(current: i32, left: bool, right: bool) -> (r: i32)
    ensures
        r == shift_intent_spec(current, left, right),
{
    if left {
        -1
    } else if right && current >= 0 {
        1
    } else {
        current
    }
}

/// Combines the held rotate keys into the pending rotate intent.
pub fn rotate_intent(current: i32, cw: bool, ccw: bool, square: bool) -> (r: i32)
    ensures
        r == rotate_intent_spec(current, cw, ccw, square),
{
    if square {
        current
    } else if cw {
        1
    } else if ccw && current <= 0 {
        -1
    } else {
        current
    }
}

/// Arms, keeps or resets a debounce counter for the given intent.
pub fn armed(intent: i32, ticks: u32, full_delay: u32) -> (r: u32)
    ensures
        r == armed_spec(intent, ticks, full_delay),
        r <= if ticks > full_delay { ticks } else { full_delay },
{
    if intent != 0 && ticks == 0 {
        full_delay
    } else if intent == 0 {
        0
    } else {
        ticks
    }
}

} // verus!
