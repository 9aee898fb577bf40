use crossterm_input::event::osc::{osc_terminated, OscKind};
use crossterm_input::event::parser::Parser;
use crossterm_input::event::{Event, InternalEvent, KeyCode, KeyEvent};

fn key(code: KeyCode) -> InternalEvent {
    InternalEvent::Event(Event::Key(KeyEvent::from(code)))
}

/// Letters are keys, `(..)` is a reply, `!` is an error, an operating system command is
/// primary device attributes.
fn decode(bytes: &[u8], more: bool) -> Result<Option<InternalEvent>, ()> {
    match bytes {
        [b'!', ..] => Err(()),
        [b'(', .., b')'] => Ok(Some(InternalEvent::CursorPosition(bytes.len() as u16, 0))),
        [b'(', ..] => Ok(None),
        [0x1B] if more => Ok(None),
        [0x1B] => Ok(Some(key(KeyCode::Esc))),
        [0x1B, b']', ..] | [0x9D, ..] => Ok(Some(InternalEvent::PrimaryDeviceAttributes)),
        [byte] => Ok(Some(key(KeyCode::Char(*byte as char)))),
        _ => Err(()),
    }
}

fn drain(parser: &mut Parser) -> Vec<InternalEvent> {
    let mut events = Vec::new();
    while let Some(event) = parser.next() {
        events.push(event);
    }
    events
}

#[test]
fn sequences_become_events_in_order() {
    let mut parser = Parser::new(64);
    parser.advance(b"a(12)!b", false, &decode);
    assert_eq!(
        drain(&mut parser),
        vec![
            key(KeyCode::Char('a')),
            InternalEvent::CursorPosition(4, 0),
            key(KeyCode::Char('b'))
        ]
    );
    assert!(parser.buffer.is_empty());
}

#[test]
fn the_last_byte_is_decoded_with_what_is_known_of_more() {
    let mut parser = Parser::new(64);
    parser.advance(b"\x1B", false, &decode);
    assert_eq!(drain(&mut parser), vec![key(KeyCode::Esc)]);
    parser.advance(b"\x1B", true, &decode);
    assert_eq!(drain(&mut parser), vec![]);
    assert_eq!(parser.buffer, b"\x1B");
}

#[test]
fn a_cut_between_reads_is_invisible() {
    let input = b"a(12\x1B]x\x1B\\3)\x1B]10;?\x07b\x9D1\x9Cc";
    let mut whole = Parser::new(8);
    whole.advance(input, false, &decode);
    let expected = drain(&mut whole);
    for cut in 1..input.len() {
        let mut parser = Parser::new(8);
        parser.advance(&input[..cut], true, &decode);
        parser.advance(&input[cut..], false, &decode);
        assert_eq!(drain(&mut parser), expected);
        assert_eq!(parser.buffer, whole.buffer);
    }
}

#[test]
fn a_command_is_decoded_only_when_it_has_ended() {
    let mut parser = Parser::new(64);
    parser.advance(b"\x1B]10;?", true, &decode);
    assert_eq!(drain(&mut parser), vec![]);
    assert_eq!(parser.buffer, b"\x1B]10;?");
    parser.advance(b"\x07", true, &decode);
    assert_eq!(drain(&mut parser), vec![InternalEvent::PrimaryDeviceAttributes]);
}

#[test]
fn an_oversized_command_is_thrown_away_up_to_its_end() {
    let mut parser = Parser::new(6);
    parser.advance(b"\x1B]1234", true, &decode);
    assert_eq!(parser.discarding_osc, Some(OscKind::Esc));
    assert!(parser.buffer.is_empty());
    // The single-byte terminator ends only a command begun by a single byte.
    parser.advance(b"56\x9C\x1Bx\\", true, &decode);
    assert_eq!(parser.discarding_osc, Some(OscKind::Esc));
    parser.advance(b"\x1B", true, &decode);
    assert!(parser.discarding_osc_esc);
    parser.advance(b"\\h", true, &decode);
    assert_eq!(parser.discarding_osc, None);
    assert_eq!(drain(&mut parser), vec![key(KeyCode::Char('h'))]);

    parser.advance(b"\x9D12345\x9Ch", true, &decode);
    assert_eq!(drain(&mut parser), vec![key(KeyCode::Char('h'))]);
}

#[test]
fn an_escape_at_the_limit_counts_for_the_end() {
    let mut parser = Parser::new(6);
    parser.advance(b"\x1B]123\x1B", true, &decode);
    assert_eq!(parser.discarding_osc, Some(OscKind::Esc));
    assert!(parser.discarding_osc_esc);
    parser.advance(b"\\h", true, &decode);
    assert_eq!(drain(&mut parser), vec![key(KeyCode::Char('h'))]);
}

#[test]
fn a_command_that_ends_at_the_limit_is_decoded() {
    let mut parser = Parser::new(6);
    parser.advance(b"\x1B]123\x07h", true, &decode);
    assert_eq!(
        drain(&mut parser),
        vec![InternalEvent::PrimaryDeviceAttributes, key(KeyCode::Char('h'))]
    );
}

#[test]
fn ends_of_commands_are_recognized() {
    assert!(osc_terminated(b"\x1B]x\x07", OscKind::Esc));
    assert!(osc_terminated(b"\x1B]x\x1B\\", OscKind::Esc));
    assert!(!osc_terminated(b"\x1B]x\x9C", OscKind::Esc));
    assert!(osc_terminated(b"\x9Dx\x9C", OscKind::C1));
    assert!(osc_terminated(b"\x9Dx\x1B\\", OscKind::C1));
    assert!(!osc_terminated(b"\x1B]x\\", OscKind::Esc));
    assert!(!osc_terminated(b"", OscKind::C1));
}
