//! What a startup probe wants to know, and the replies that answer it.

use crate::event::{InternalEvent, KeyboardEnhancementFlags, OscColorPayload};
use crate::style::Color;
use vstd::prelude::*;

verus! {

/// Controls whether the startup probe asks about keyboard enhancement support.
#[derive(Clone, Copy, Debug, PartialEq, Eq, Structural)]
pub enum KeyboardEnhancementProbe {
    /// Ask about keyboard enhancement support, with primary device attributes as fallback.
    Query,
    /// Do not ask about keyboard enhancement support.
    Skip,
}

/// The replies collected by a startup probe.
#[derive(Clone, Copy, Debug, PartialEq, Eq)]
pub struct TerminalStartupProbe {
    /// The cursor position (`column`, `row`), counted from zero.
    pub cursor_position: Option<(u16, u16)>,
    /// The default foreground color.
    pub foreground_color: Option<Color>,
    /// The default background color.
    pub background_color: Option<Color>,
    /// Whether the terminal reports keyboard enhancement support.
    pub keyboard_enhancement_supported: Option<bool>,
}

/// The color that a reply names, if it names one.
pub open spec fn spec_color_from_payload(payload: OscColorPayload) -> Option<Color> {
    match payload {
        OscColorPayload::Rgb { r, g, b } => Some(Color::Rgb { r, g, b }),
        OscColorPayload::Unrecognized(_) => None,
    }
}

/// The color that a reply names, if it names one.
pub fn color_from_payload(payload: OscColorPayload) -> (color: Option<Color>)
    ensures
        color == spec_color_from_payload(payload),
        payload matches OscColorPayload::Rgb { r, g, b } ==> color == Some(Color::Rgb { r, g, b }),
        payload is Unrecognized ==> color is None,
{
    match payload {
        OscColorPayload::Rgb { r, g, b } => Some(Color::Rgb { r, g, b }),
        OscColorPayload::Unrecognized(_) => None,
    }
}

/// The replies that have come in so far.
#[derive(Clone, Copy, Debug, PartialEq, Eq)]
pub struct ProbeState {
    pub cursor_position: Option<(u16, u16)>,
    /// The foreground reply, and the color that it names if it names one.
    pub foreground_color: Option<Option<Color>>,
    /// The background reply, and the color that it names if it names one.
    pub background_color: Option<Option<Color>>,
    pub saw_keyboard_enhancement_flags: bool,
    pub saw_primary_device_attributes: bool,
}

/// The cursor position that a reply to the probe reports.
pub open spec fn reported_position(event: InternalEvent) -> Option<(u16, u16)> {
    match event {
        InternalEvent::CursorPosition(x, y) => Some((x, y)),
        InternalEvent::ExtendedCursorPosition(x, y) => Some((x, y)),
        _ => None,
    }
}

/// The reply to the color query of a slot, and the color that it names if it names one.
pub open spec fn reported_color(event: InternalEvent, asked: u8) -> Option<Option<Color>> {
    match event {
        InternalEvent::OscColor { slot, payload } => if slot == asked {
            Some(spec_color_from_payload(payload))
        } else {
            None
        },
        _ => None,
    }
}

impl ProbeState {
    /// No reply yet.
    pub open spec fn nothing() -> ProbeState {
        ProbeState {
            cursor_position: None,
            foreground_color: None,
            background_color: None,
            saw_keyboard_enhancement_flags: false,
            saw_primary_device_attributes: false,
        }
    }

    /// The state after one more event. Of the cursor positions the latest counts, of the
    /// replies for a color the first.
    pub open spec fn recorded(self, event: InternalEvent) -> ProbeState {
        ProbeState {
            cursor_position: if reported_position(event) is Some {
                reported_position(event)
            } else {
                self.cursor_position
            },
            foreground_color: if self.foreground_color is Some {
                self.foreground_color
            } else {
                reported_color(event, 10)
            },
            background_color: if self.background_color is Some {
                self.background_color
            } else {
                reported_color(event, 11)
            },
            saw_keyboard_enhancement_flags: self.saw_keyboard_enhancement_flags
                || event is KeyboardEnhancementFlags,
            saw_primary_device_attributes: self.saw_primary_device_attributes
                || event is PrimaryDeviceAttributes,
        }
    }

    /// Whether all replies other than the cursor position have come in. The device attributes
    /// come last of the keyboard replies, whether or not enhancement is supported.
    pub open spec fn others_are_in(self, keyboard_probe: KeyboardEnhancementProbe) -> bool {
        &&& self.foreground_color is Some
        &&& self.background_color is Some
        &&& keyboard_probe == KeyboardEnhancementProbe::Skip || self.saw_primary_device_attributes
    }

    /// Whether all replies have come in.
    pub open spec fn spec_is_complete(self, keyboard_probe: KeyboardEnhancementProbe) -> bool {
        self.cursor_position is Some && self.others_are_in(keyboard_probe)
    }

    /// Whether all replies but the cursor position have come in.
    pub open spec fn spec_only_cursor_is_missing(
        self,
        keyboard_probe: KeyboardEnhancementProbe,
    ) -> bool {
        self.cursor_position is None && self.others_are_in(keyboard_probe)
    }

    /// What the replies amount to.
    pub open spec fn probe(self) -> TerminalStartupProbe {
        TerminalStartupProbe {
            cursor_position: self.cursor_position,
            foreground_color: match self.foreground_color {
                Some(color) => color,
                None => None,
            },
            background_color: match self.background_color {
                Some(color) => color,
                None => None,
            },
            keyboard_enhancement_supported: if self.saw_keyboard_enhancement_flags {
                Some(true)
            } else if self.saw_primary_device_attributes {
                Some(false)
            } else {
                None
            },
        }
    }

    /// Takes in an event.
    pub fn record(&mut self, event: InternalEvent)
        ensures
            *final(self) == old(self).recorded(event),
            event matches InternalEvent::CursorPosition(x, y) ==> *final(self) == (ProbeState {
                cursor_position: Some((x, y)),
                ..*old(self)
            }),
            event matches InternalEvent::ExtendedCursorPosition(x, y) ==> *final(self) == (
            ProbeState { cursor_position: Some((x, y)), ..*old(self) }),
            event matches InternalEvent::OscColor {
                slot: 10,
                payload: OscColorPayload::Rgb { r, g, b },
            } ==> (old(self).foreground_color is None ==> *final(self) == (ProbeState {
                foreground_color: Some(Some(Color::Rgb { r, g, b })),
                ..*old(self)
            })),
            event matches InternalEvent::OscColor {
                slot: 11,
                payload: OscColorPayload::Rgb { r, g, b },
            } ==> (old(self).background_color is None ==> *final(self) == (ProbeState {
                background_color: Some(Some(Color::Rgb { r, g, b })),
                ..*old(self)
            })),
            event is KeyboardEnhancementFlags ==> *final(self) == (ProbeState {
                saw_keyboard_enhancement_flags: true,
                ..*old(self)
            }),
            event is PrimaryDeviceAttributes ==> *final(self) == (ProbeState {
                saw_primary_device_attributes: true,
                ..*old(self)
            }),
            event is Event || event is CursorPositionOrF3 ==> *final(self) == *old(self),
    {
        match event {
            InternalEvent::CursorPosition(x, y) => {
                self.cursor_position = Some((x, y));
            },
            InternalEvent::ExtendedCursorPosition(x, y) => {
                self.cursor_position = Some((x, y));
            },
            InternalEvent::OscColor { slot, payload } => {
                if slot == 10 {
                    if self.foreground_color.is_none() {
                        self.foreground_color = Some(color_from_payload(payload));
                    }
                } else if slot == 11 {
                    if self.background_color.is_none() {
                        self.background_color = Some(color_from_payload(payload));
                    }
                }
            },
            InternalEvent::KeyboardEnhancementFlags(_) => {
                self.saw_keyboard_enhancement_flags = true;
            },
            InternalEvent::PrimaryDeviceAttributes => {
                self.saw_primary_device_attributes = true;
            },
            InternalEvent::Event(_) => {},
            InternalEvent::CursorPositionOrF3(_, _, _) => {},
        }
    }

    /// Whether all replies have come in.
    pub fn is_complete(&self, keyboard_probe: KeyboardEnhancementProbe) -> (complete: bool)
        ensures
            complete == self.spec_is_complete(keyboard_probe),
            complete == (self.cursor_position is Some && self.foreground_color is Some
                && self.background_color is Some && (keyboard_probe
                == KeyboardEnhancementProbe::Skip || self.saw_primary_device_attributes)),
    {
        self.cursor_position.is_some() && self.foreground_color.is_some()
            && self.background_color.is_some() && (keyboard_probe == KeyboardEnhancementProbe::Skip
            || self.saw_primary_device_attributes)
    }

    /// Whether all replies but the cursor position have come in.
    pub fn only_cursor_is_missing(&self, keyboard_probe: KeyboardEnhancementProbe) -> (missing:
        bool)
        ensures
            missing == self.spec_only_cursor_is_missing(keyboard_probe),
            missing == (self.cursor_position is None && self.foreground_color is Some
                && self.background_color is Some && (keyboard_probe
                == KeyboardEnhancementProbe::Skip || self.saw_primary_device_attributes)),
    {
        self.cursor_position.is_none() && self.foreground_color.is_some()
            && self.background_color.is_some() && (keyboard_probe == KeyboardEnhancementProbe::Skip
            || self.saw_primary_device_attributes)
    }

    /// What the replies amount to.
    pub fn into_probe(self) -> (probe: TerminalStartupProbe)
        ensures
            probe == self.probe(),
            probe.cursor_position == self.cursor_position,
            forall|color: Option<Color>|
                self.foreground_color == Some(color) ==> probe.foreground_color == color,
            self.foreground_color is None ==> probe.foreground_color is None,
            forall|color: Option<Color>|
                self.background_color == Some(color) ==> probe.background_color == color,
            self.background_color is None ==> probe.background_color is None,
            probe.keyboard_enhancement_supported == Some(true)
                <==> self.saw_keyboard_enhancement_flags,
            probe.keyboard_enhancement_supported == Some(false)
                <==> self.saw_primary_device_attributes && !self.saw_keyboard_enhancement_flags,
    {
        TerminalStartupProbe {
            cursor_position: self.cursor_position,
            foreground_color: match self.foreground_color {
                Some(color) => color,
                None => None,
            },
            background_color: match self.background_color {
                Some(color) => color,
                None => None,
            },
            keyboard_enhancement_supported: if self.saw_keyboard_enhancement_flags {
                Some(true)
            } else if self.saw_primary_device_attributes {
                Some(false)
            } else {
                None
            },
        }
    }
}

impl Default for ProbeState {
    fn default() -> (state: ProbeState)
        ensures
            state == ProbeState::nothing(),
            state.cursor_position is None,
            state.foreground_color is None,
            state.background_color is None,
            !state.saw_keyboard_enhancement_flags,
            !state.saw_primary_device_attributes,
    {
        ProbeState {
            cursor_position: None,
            foreground_color: None,
            background_color: None,
            saw_keyboard_enhancement_flags: false,
            saw_primary_device_attributes: false,
        }
    }
}

/// Replies of different kinds can come in any order: recording two of them either way leads
/// to the same state, unless both report the cursor or both answer for the same color.
pub proof fn law_replies_come_in_any_order(
    state: ProbeState,
    first: InternalEvent,
    second: InternalEvent,
)
    requires
        reported_position(first) is None || reported_position(second) is None,
        reported_color(first, 10) is None || reported_color(second, 10) is None,
        reported_color(first, 11) is None || reported_color(second, 11) is None,
    ensures
        state.recorded(first).recorded(second) == state.recorded(second).recorded(first),
{
}

/// A reply is never lost: what was answered stays answered, a color stays as it was first
/// answered, and a probe that is complete stays complete.
pub proof fn law_replies_are_kept(
    state: ProbeState,
    event: InternalEvent,
    keyboard_probe: KeyboardEnhancementProbe,
)
    ensures
        state.cursor_position is Some ==> state.recorded(event).cursor_position is Some,
        state.foreground_color is Some ==> state.recorded(event).foreground_color
            == state.foreground_color,
        state.background_color is Some ==> state.recorded(event).background_color
            == state.background_color,
        state.saw_keyboard_enhancement_flags ==> state.recorded(
            event,
        ).saw_keyboard_enhancement_flags,
        state.spec_is_complete(keyboard_probe) ==> state.recorded(event).spec_is_complete(
            keyboard_probe,
        ),
{
}

/// Input of the user, a report that can be an F3 key press among it, changes nothing.
pub proof fn law_input_is_no_reply(state: ProbeState, event: InternalEvent)
    requires
        event is Event || event is CursorPositionOrF3,
    ensures
        state.recorded(event) == state,
{
}

/// Every reply that gives the three parts of a color names the color of just these parts, be
/// they equal or not; a reply that gives anything else names none.
pub proof fn law_reply_names_its_color(r: u8, g: u8, b: u8, text: OscColorPayload)
    ensures
        spec_color_from_payload(OscColorPayload::Rgb { r, g, b }) == Some(Color::Rgb { r, g, b }),
        text is Unrecognized ==> spec_color_from_payload(text) is None,
{
}

/// The first reply for the foreground is recorded with just the color that it gives, and so is
/// the first for the background. A reply that gives no color is recorded as such. Later
/// replies, and replies for other slots, change nothing.
pub proof fn law_first_color_is_recorded(
    state: ProbeState,
    slot: u8,
    r: u8,
    g: u8,
    b: u8,
    text: OscColorPayload,
)
    requires
        text is Unrecognized,
    ensures
        ({
            let named = InternalEvent::OscColor { slot, payload: OscColorPayload::Rgb { r, g, b } };
            let unnamed = InternalEvent::OscColor { slot, payload: text };
            &&& slot == 10 && state.foreground_color is None ==> {
                &&& state.recorded(named) == (ProbeState {
                    foreground_color: Some(Some(Color::Rgb { r, g, b })),
                    ..state
                })
                &&& state.recorded(unnamed) == (ProbeState {
                    foreground_color: Some(None),
                    ..state
                })
            }
            &&& slot == 11 && state.background_color is None ==> {
                &&& state.recorded(named) == (ProbeState {
                    background_color: Some(Some(Color::Rgb { r, g, b })),
                    ..state
                })
                &&& state.recorded(unnamed) == (ProbeState {
                    background_color: Some(None),
                    ..state
                })
            }
            &&& slot == 10 && state.foreground_color is Some || slot == 11
                && state.background_color is Some || slot != 10 && slot != 11 ==> {
                &&& state.recorded(named) == state
                &&& state.recorded(unnamed) == state
            }
        }),
{
}

/// Every cursor position replaces the one before, in either form of the report, and every reply
/// about the keyboard is remembered. Each changes nothing else.
pub proof fn law_position_and_keyboard_are_recorded(
    state: ProbeState,
    x: u16,
    y: u16,
    flags: KeyboardEnhancementFlags,
)
    ensures
        state.recorded(InternalEvent::CursorPosition(x, y)) == (ProbeState {
            cursor_position: Some((x, y)),
            ..state
        }),
        state.recorded(InternalEvent::ExtendedCursorPosition(x, y)) == (ProbeState {
            cursor_position: Some((x, y)),
            ..state
        }),
        state.recorded(InternalEvent::KeyboardEnhancementFlags(flags)) == (ProbeState {
            saw_keyboard_enhancement_flags: true,
            ..state
        }),
        state.recorded(InternalEvent::PrimaryDeviceAttributes) == (ProbeState {
            saw_primary_device_attributes: true,
            ..state
        }),
{
}

/// What is reported is what was recorded: the position, and each color if one was named. The
/// keyboard is supported if its enhancements came, not supported if only the device attributes
/// did, and unknown if neither did.
pub proof fn law_probe_reports_what_was_recorded(state: ProbeState, color: Option<Color>)
    ensures
        state.probe().cursor_position == state.cursor_position,
        state.foreground_color == Some(color) ==> state.probe().foreground_color == color,
        state.foreground_color is None ==> state.probe().foreground_color is None,
        state.background_color == Some(color) ==> state.probe().background_color == color,
        state.background_color is None ==> state.probe().background_color is None,
        state.saw_keyboard_enhancement_flags ==> state.probe().keyboard_enhancement_supported
            == Some(true),
        !state.saw_keyboard_enhancement_flags && state.saw_primary_device_attributes
            ==> state.probe().keyboard_enhancement_supported == Some(false),
        !state.saw_keyboard_enhancement_flags && !state.saw_primary_device_attributes
            ==> state.probe().keyboard_enhancement_supported is None,
{
}

/// A probe is complete exactly when the position and both colors were answered, and the device
/// attributes came if the keyboard was asked about. Only the cursor is missing exactly when its
/// position is all that keeps the probe from being complete. With no reply yet nothing is
/// there.
pub proof fn law_complete_once_all_is_answered(
    state: ProbeState,
    position: (u16, u16),
    keyboard_probe: KeyboardEnhancementProbe,
)
    ensures
        state.spec_is_complete(KeyboardEnhancementProbe::Skip) <==> state.cursor_position is Some
            && state.foreground_color is Some && state.background_color is Some,
        state.spec_is_complete(KeyboardEnhancementProbe::Query) <==> state.cursor_position is Some
            && state.foreground_color is Some && state.background_color is Some
            && state.saw_primary_device_attributes,
        state.spec_only_cursor_is_missing(keyboard_probe) <==> state.cursor_position is None && (
        ProbeState { cursor_position: Some(position), ..state }).spec_is_complete(keyboard_probe),
        ProbeState::nothing().cursor_position is None,
        ProbeState::nothing().foreground_color is None,
        ProbeState::nothing().background_color is None,
        !ProbeState::nothing().saw_keyboard_enhancement_flags,
        !ProbeState::nothing().saw_primary_device_attributes,
{
}

} // verus!
