//! Operating system commands: how they begin and how they end.

use vstd::prelude::*;

verus! {

/// The escape byte.
pub const ESC: u8 = 0x1B;

/// The bell byte, which ends a command of either kind.
pub const BEL: u8 = 0x07;

/// The byte that, after an escape, ends a command of either kind.
pub const BACKSLASH: u8 = 0x5C;

/// The byte that, after an escape, begins a command.
pub const RIGHT_BRACKET: u8 = 0x5D;

/// The single byte that begins a command.
pub const C1_OSC: u8 = 0x9D;

/// The single byte that ends a command begun by a single byte.
pub const C1_ST: u8 = 0x9C;

/// How an operating system command was begun.
#[derive(Clone, Copy, Debug, PartialEq, Eq, Structural)]
pub enum OscKind {
    /// By an escape and a bracket.
    Esc,
    /// By the single byte that stands for both.
    C1,
}

/// The kind of command that a byte sequence begins, if it begins one.
pub open spec fn spec_osc_kind(buffer: Seq<u8>) -> Option<OscKind> {
    if buffer.len() >= 2 && buffer[0] == ESC && buffer[1] == RIGHT_BRACKET {
        Some(OscKind::Esc)
    } else if buffer.len() >= 1 && buffer[0] == C1_OSC {
        Some(OscKind::C1)
    } else {
        None
    }
}

/// Whether a byte ends a command, given whether it follows an escape.
pub open spec fn ends_osc(kind: OscKind, after_esc: bool, byte: u8) -> bool {
    ||| byte == BEL
    ||| kind == OscKind::C1 && byte == C1_ST
    ||| after_esc && byte == BACKSLASH
}

/// Whether a byte sequence ends as a command of the given kind ends.
pub open spec fn spec_osc_terminated(buffer: Seq<u8>, kind: OscKind) -> bool {
    buffer.len() > 0 && ends_osc(
        kind,
        buffer.len() > 1 && buffer[buffer.len() - 2] == ESC,
        buffer.last(),
    )
}

/// Tells which kind of command the bytes begin.
pub fn osc_kind(buffer: &[u8]) -> (kind: Option<OscKind>)
    ensures
        kind == spec_osc_kind(buffer@),
{
    if buffer.len() >= 2 && buffer[0] == ESC && buffer[1] == RIGHT_BRACKET {
        Some(OscKind::Esc)
    } else if buffer.len() >= 1 && buffer[0] == C1_OSC {
        Some(OscKind::C1)
    } else {
        None
    }
}

/// Tells whether one more byte ends a command.
pub fn osc_ended_by(kind: OscKind, after_esc: bool, byte: u8) -> (ended: bool)
    ensures
        ended == ends_osc(kind, after_esc, byte),
{
    byte == BEL || kind == OscKind::C1 && byte == C1_ST || after_esc && byte == BACKSLASH
}

/// Tells whether the bytes end as a command of the given kind ends.
pub fn osc_terminated(buffer: &[u8], kind: OscKind) -> (terminated: bool)
    ensures
        terminated == spec_osc_terminated(buffer@, kind),
{
    let len: usize = buffer.len();
    len > 0 && osc_ended_by(kind, len > 1 && buffer[len - 2] == ESC, buffer[len - 1])
}

/// A command begins with the bytes 1B 5D or with the byte 9D, and with nothing else.
pub proof fn law_beginnings_of_commands(buffer: Seq<u8>)
    ensures
        spec_osc_kind(buffer) == Some(OscKind::Esc) <==> buffer.len() >= 2 && buffer[0] == 0x1B
            && buffer[1] == 0x5D,
        spec_osc_kind(buffer) == Some(OscKind::C1) <==> buffer.len() >= 1 && buffer[0] == 0x9D,
{
}

/// A command ends with the byte 07, with the bytes 1B 5C, or with the byte 9C if it began
/// with a single byte, and with nothing else, whether it is kept or thrown away.
pub proof fn law_ends_of_commands(buffer: Seq<u8>, kind: OscKind, after_esc: bool, byte: u8)
    ensures
        ends_osc(kind, after_esc, byte) <==> byte == 0x07 || (after_esc && byte == 0x5C) || (kind
            == OscKind::C1 && byte == 0x9C),
        spec_osc_terminated(buffer, kind) <==> {
            ||| buffer.len() >= 1 && buffer[buffer.len() - 1] == 0x07
            ||| buffer.len() >= 1 && kind == OscKind::C1 && buffer[buffer.len() - 1] == 0x9C
            ||| buffer.len() >= 2 && buffer[buffer.len() - 2] == 0x1B && buffer[buffer.len() - 1]
                == 0x5C
        },
{
}

} // verus!
