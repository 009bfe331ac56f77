//! The pointer and the primary button, as seen once per frame.

use vstd::prelude::*;
use crate::constants::LONG_PRESS_TIME;
use crate::geometry::Point;

verus! {

/// Pointer position and button state of the current frame, with the edges
/// and the hold time derived from the frame before.
#[derive(Clone, Copy, PartialEq, Eq, Debug)]
pub struct InputState {
    pub mouse_pos: Point,
    /// Whether the button is down.
    pub left_button_pressed: bool,
    /// Whether the button went down in this frame.
    pub left_button_just_pressed: bool,
    /// Whether the button came up in this frame.
    pub left_button_just_released: bool,
    /// How long the button has been down without a break.
    pub left_button_hold_time: u64,
    /// Whether the button was down in the frame before.
    pub prev_left_button_pressed: bool,
}

/// The hold time after a frame of `dt` microseconds: it grows while the
/// button is down, up to the largest value it can hold, and is zero otherwise.
pub open spec fn hold_after(hold: u64, down: bool, dt: u32) -> u64 {
    if !down {
        0
    } else if hold + dt > u64::MAX {
        u64::MAX
    } else {
        (hold + dt) as u64
    }
}

/// The input state after a frame in which the pointer was at `pointer` and
/// the button was down or not.
pub open spec fn polled(before: InputState, pointer: Point, down: bool, dt: u32) -> InputState {
    InputState {
        mouse_pos: pointer,
        left_button_pressed: down,
        left_button_just_pressed: down && !before.prev_left_button_pressed,
        left_button_just_released: !down && before.prev_left_button_pressed,
        left_button_hold_time: hold_after(before.left_button_hold_time, down, dt),
        prev_left_button_pressed: down,
    }
}

/// Whether a hold of this length counts as a long press.
pub open spec fn long_press(hold: u64) -> bool {
    hold >= LONG_PRESS_TIME
}

impl InputState {
    /// The state before the first frame: pointer at the origin, button up.
    pub fn new() -> (s: InputState)
        ensures
            s == (InputState {
                mouse_pos: Point { x: 0, y: 0 },
                left_button_pressed: false,
                left_button_just_pressed: false,
                left_button_just_released: false,
                left_button_hold_time: 0,
                prev_left_button_pressed: false,
            }),
    {
        InputState {
            mouse_pos: Point { x: 0, y: 0 },
            left_button_pressed: false,
            left_button_just_pressed: false,
            left_button_just_released: false,
            left_button_hold_time: 0,
            prev_left_button_pressed: false,
        }
    }

    /// Takes in the pointer position and button level of a frame that lasted
    /// `delta_time` microseconds.
    pub fn update(&mut self, pointer: Point, button_down: bool, delta_time: u32)
        ensures
            *final(self) == polled(*old(self), pointer, button_down, delta_time),
    {
        self.mouse_pos = pointer;
        self.left_button_just_pressed = button_down && !self.prev_left_button_pressed;
        self.left_button_just_released = !button_down && self.prev_left_button_pressed;
        self.left_button_pressed = button_down;
        if self.left_button_pressed {
            self.left_button_hold_time = self.left_button_hold_time.saturating_add(delta_time as u64);
        } else {
            self.left_button_hold_time = 0;
        }
        self.prev_left_button_pressed = button_down;
    }

    /// Whether the button has been held for a fifth of a second or longer.
    pub fn is_long_press(&self) -> (b: bool)
        ensures
            b == long_press(self.left_button_hold_time),
    {
        self.left_button_hold_time >= LONG_PRESS_TIME
    }
}

} // verus!
