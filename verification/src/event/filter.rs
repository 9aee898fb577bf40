//! Which events a caller is waiting for.

use crate::event::{
    Event, InternalEvent, KeyModifiers, KeyboardEnhancementFlags, OscColorPayload,
};
use vstd::prelude::*;

verus! {

/// Tells the events that a caller waits for from the others.
pub trait Filter {
    /// Whether the caller waits for the event.
    spec fn accepts(&self, event: InternalEvent) -> bool;

    /// Whether the caller waits for the event.
    fn eval(&self, event: &InternalEvent) -> (accepted: bool)
        ensures
            accepted == self.accepts(*event),
    ;
}

/// Waits for input of the user: events, and the reports that can be an F3 key press.
#[derive(Clone, Copy, Debug)]
pub struct EventFilter;

impl Filter for EventFilter {
    open spec fn accepts(&self, event: InternalEvent) -> bool {
        event is Event || event is CursorPositionOrF3
    }

    fn eval(&self, event: &InternalEvent) -> (accepted: bool) {
        match event {
            InternalEvent::Event(_) => true,
            InternalEvent::CursorPositionOrF3(_, _, _) => true,
            _ => false,
        }
    }
}

/// Waits for a standard cursor position report.
#[derive(Clone, Copy, Debug)]
pub struct CursorPositionFilter;

impl Filter for CursorPositionFilter {
    open spec fn accepts(&self, event: InternalEvent) -> bool {
        event is CursorPosition || event is CursorPositionOrF3
    }

    fn eval(&self, event: &InternalEvent) -> (accepted: bool) {
        match event {
            InternalEvent::CursorPosition(_, _) => true,
            InternalEvent::CursorPositionOrF3(_, _, _) => true,
            _ => false,
        }
    }
}

/// Waits for the replies to a startup probe. A report that can be an F3 key press is
/// left to the user.
#[derive(Clone, Copy, Debug)]
pub struct TerminalStartupProbeFilter {
    /// Whether the probe asked about the keyboard.
    pub query_keyboard: bool,
}

impl Filter for TerminalStartupProbeFilter {
    open spec fn accepts(&self, event: InternalEvent) -> bool {
        match event {
            InternalEvent::CursorPosition(_, _) => true,
            InternalEvent::ExtendedCursorPosition(_, _) => true,
            InternalEvent::OscColor { slot, payload: _ } => slot == 10 || slot == 11,
            InternalEvent::KeyboardEnhancementFlags(_) => self.query_keyboard,
            InternalEvent::PrimaryDeviceAttributes => self.query_keyboard,
            InternalEvent::Event(_) => false,
            InternalEvent::CursorPositionOrF3(_, _, _) => false,
        }
    }

    fn eval(&self, event: &InternalEvent) -> (accepted: bool) {
        match event {
            InternalEvent::CursorPosition(_, _) => true,
            InternalEvent::ExtendedCursorPosition(_, _) => true,
            InternalEvent::OscColor { slot, payload: _ } => *slot == 10 || *slot == 11,
            InternalEvent::KeyboardEnhancementFlags(_) => self.query_keyboard,
            InternalEvent::PrimaryDeviceAttributes => self.query_keyboard,
            InternalEvent::Event(_) => false,
            InternalEvent::CursorPositionOrF3(_, _, _) => false,
        }
    }
}

/// Every event for the user is input, and so is every report that can be an F3 key press; no
/// reply of the terminal is.
pub proof fn law_input_is_for_the_user(
    event: Event,
    x: u16,
    y: u16,
    modifiers: KeyModifiers,
    slot: u8,
    payload: OscColorPayload,
    flags: KeyboardEnhancementFlags,
)
    ensures
        EventFilter.accepts(InternalEvent::Event(event)),
        EventFilter.accepts(InternalEvent::CursorPositionOrF3(x, y, modifiers)),
        !EventFilter.accepts(InternalEvent::CursorPosition(x, y)),
        !EventFilter.accepts(InternalEvent::ExtendedCursorPosition(x, y)),
        !EventFilter.accepts(InternalEvent::OscColor { slot, payload }),
        !EventFilter.accepts(InternalEvent::KeyboardEnhancementFlags(flags)),
        !EventFilter.accepts(InternalEvent::PrimaryDeviceAttributes),
{
}

/// Every standard cursor position report is one, also where it can be an F3 key press, and
/// nothing else is.
pub proof fn law_cursor_reports_are_standard_ones(
    event: Event,
    x: u16,
    y: u16,
    modifiers: KeyModifiers,
    slot: u8,
    payload: OscColorPayload,
    flags: KeyboardEnhancementFlags,
)
    ensures
        CursorPositionFilter.accepts(InternalEvent::CursorPosition(x, y)),
        CursorPositionFilter.accepts(InternalEvent::CursorPositionOrF3(x, y, modifiers)),
        !CursorPositionFilter.accepts(InternalEvent::ExtendedCursorPosition(x, y)),
        !CursorPositionFilter.accepts(InternalEvent::Event(event)),
        !CursorPositionFilter.accepts(InternalEvent::OscColor { slot, payload }),
        !CursorPositionFilter.accepts(InternalEvent::KeyboardEnhancementFlags(flags)),
        !CursorPositionFilter.accepts(InternalEvent::PrimaryDeviceAttributes),
{
}

/// A startup probe waits for every cursor position that cannot be a key press and for every
/// reply about its two colors; for replies about the keyboard exactly if it asked; and never
/// for input of the user.
pub proof fn law_probe_waits_for_its_replies(
    filter: TerminalStartupProbeFilter,
    event: Event,
    x: u16,
    y: u16,
    modifiers: KeyModifiers,
    slot: u8,
    payload: OscColorPayload,
    flags: KeyboardEnhancementFlags,
)
    ensures
        filter.accepts(InternalEvent::CursorPosition(x, y)),
        filter.accepts(InternalEvent::ExtendedCursorPosition(x, y)),
        filter.accepts(InternalEvent::OscColor { slot, payload }) == (slot == 10 || slot == 11),
        filter.accepts(InternalEvent::KeyboardEnhancementFlags(flags)) == filter.query_keyboard,
        filter.accepts(InternalEvent::PrimaryDeviceAttributes) == filter.query_keyboard,
        !filter.accepts(InternalEvent::Event(event)),
        !filter.accepts(InternalEvent::CursorPositionOrF3(x, y, modifiers)),
{
}

} // verus!
