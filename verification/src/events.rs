//! Raw device events, as the native multi-device backend reports them.
//!
//! The backend itself (enumeration, non-blocking polling) lives outside
//! this crate; the routine only reads these plain values.

use vstd::prelude::*;

verus! {

#[derive(Clone, Copy, Debug, PartialEq, Eq, Structural)]
pub enum EventType {
    Absmotion,
    Relmotion,
    Button,
    Scroll,
    Disconnect,
    Max,
}

/// A motion axis; the backend reports it as the event's item code.
#[derive(Clone, Copy, Debug, PartialEq, Eq, Structural)]
pub enum Axis {
    X,
    Y,
}

/// A mouse button; the backend reports it as the event's item code.
#[derive(Clone, Copy, Debug, PartialEq, Eq, Structural)]
pub enum Button {
    LMB,
    RMB,
}

/// One raw event from the backend.
#[derive(Clone, Copy, Debug, PartialEq, Eq, Structural)]
pub struct Event {
    pub ev_type: EventType,
    pub device: u32,
    pub item: u32,
    pub value: i32,
    pub minval: i32,
    pub maxval: i32,
}

pub open spec fn axis_code_spec(a: Axis) -> u32 {
    match a {
        Axis::X => 0,
        Axis::Y => 1,
    }
}

/// The item code the backend uses for this axis.
pub fn axis_code(a: Axis) -> (r: u32)
    ensures
        r == axis_code_spec(a),
{
    match a {
        Axis::X => 0,
        Axis::Y => 1,
    }
}

pub open spec fn button_code_spec(b: Button) -> u32 {
    match b {
        Button::LMB => 0,
        Button::RMB => 1,
    }
}

/// The item code the backend uses for this button.
pub fn button_code(b: Button) -> (r: u32)
    ensures
        r == button_code_spec(b),
{
    match b {
        Button::LMB => 0,
        Button::RMB => 1,
    }
}

/// A relative motion along the pitch axis: the one event kind that
/// moves a voice's position.
pub open spec fn is_pitch_motion(ev: Event) -> bool {
    ev.ev_type == EventType::Relmotion && ev.item == axis_code_spec(Axis::X)
}

/// A press or release of the hold button: the one event kind that
/// starts or stops a voice sounding.
pub open spec fn is_play_button(ev: Event) -> bool {
    ev.ev_type == EventType::Button && ev.item == button_code_spec(Button::LMB)
}

} // verus!
