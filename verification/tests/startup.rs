use crossterm_input::error::{Error, ErrorKind, Failure};
use crossterm_input::event::filter::EventFilter;
use crossterm_input::event::read::{InternalEventReader, ReadStep, SourceReply};
use crossterm_input::event::{
    Event, InternalEvent, KeyCode, KeyEvent, KeyModifiers, KeyboardEnhancementFlags,
    OscColorPayload,
};
use crossterm_input::style::Color;
use crossterm_input::terminal::probe::{
    KeyboardEnhancementProbe, ProbeState, TerminalStartupProbe,
};
use crossterm_input::terminal::startup::{
    query_bytes, query_terminal_startup, query_terminal_startup_raw, remaining_timeout, QueryKind,
    RawModeGuard, Stage, StartupStep,
};
use crossterm_input::time::Nanos;
use std::collections::VecDeque;
use std::time::{Duration, Instant};

type TestError = &'static str;

fn nanos(duration: Duration) -> Nanos {
    Nanos(duration.as_nanos())
}

fn key(letter: char) -> InternalEvent {
    InternalEvent::Event(Event::Key(KeyEvent::from(KeyCode::Char(letter))))
}

fn color(slot: u8, r: u8) -> InternalEvent {
    InternalEvent::OscColor { slot, payload: OscColorPayload::Rgb { r, g: 0, b: 0 } }
}

fn red(r: u8) -> Option<Color> {
    Some(Color::Rgb { r, g: 0, b: 0 })
}

fn failure(error: TestError) -> Failure<TestError> {
    Failure { kind: ErrorKind::Other, error }
}

#[derive(Debug, PartialEq, Eq)]
enum Action {
    Lock,
    Enable,
    Send(Vec<u8>, u128),
    Disable,
    DisableAgain,
}

/// A terminal that answers each query with replies of its own. The clock goes on by a
/// millisecond for each event, and to the end of the wait where there is none.
struct Terminal {
    lock: bool,
    enabled: Result<bool, Failure<TestError>>,
    sends: VecDeque<Result<(), Error<TestError>>>,
    answers: VecDeque<Vec<SourceReply<TestError>>>,
    source: VecDeque<SourceReply<TestError>>,
    disabled: Result<(), Failure<TestError>>,
    actions: Vec<Action>,
    elapsed: Nanos,
}

impl Terminal {
    fn new(answers: Vec<Vec<InternalEvent>>) -> Terminal {
        Terminal {
            lock: true,
            enabled: Ok(true),
            sends: VecDeque::new(),
            answers: answers
                .into_iter()
                .map(|events| events.into_iter().map(|event| Ok(Some(event))).collect())
                .collect(),
            source: VecDeque::new(),
            disabled: Ok(()),
            actions: Vec::new(),
            elapsed: Nanos(0),
        }
    }

    fn probe(
        &mut self,
        reader: &mut InternalEventReader,
        timeout: Nanos,
        keyboard_probe: KeyboardEnhancementProbe,
    ) -> Result<TerminalStartupProbe, Error<TestError>> {
        let mut step = query_terminal_startup(timeout, keyboard_probe);
        loop {
            step = match step {
                StartupStep::Done(result) => return result,
                StartupStep::LockReader(request) => {
                    self.actions.push(Action::Lock);
                    request.reply(self.lock, self.elapsed)
                }
                StartupStep::EnableRawMode(request) => {
                    self.actions.push(Action::Enable);
                    request.reply(self.enabled, self.elapsed)
                }
                StartupStep::SendQuery(request) => {
                    self.actions.push(Action::Send(request.bytes().to_vec(), self.elapsed.0));
                    let sent = self.sends.pop_front().unwrap_or(Ok(()));
                    if sent.is_ok() {
                        self.source.extend(self.answers.pop_front().unwrap_or_default());
                    }
                    request.reply(reader, sent, self.elapsed)
                }
                StartupStep::TryRead(request) => {
                    let reply = match self.source.pop_front() {
                        Some(reply) => {
                            self.elapsed = Nanos(self.elapsed.0 + Nanos::from_millis(1).0);
                            reply
                        }
                        None => {
                            let left = request.wait.leftover(self.elapsed).unwrap();
                            self.elapsed = Nanos(self.elapsed.0 + left.0);
                            Ok(None)
                        }
                    };
                    request.reply(reader, reply, self.elapsed)
                }
                StartupStep::DisableRawMode(request) => {
                    self.actions.push(Action::Disable);
                    request.reply(self.disabled)
                }
                StartupStep::DisableRawModeAgain(request) => {
                    self.actions.push(Action::DisableAgain);
                    request.reply()
                }
            };
        }
    }
}

fn reader(events: Vec<InternalEvent>) -> InternalEventReader {
    InternalEventReader::new(events.into(), true)
}

fn read_input(reader: &mut InternalEventReader) -> Option<InternalEvent> {
    match reader.read::<EventFilter, TestError>(&EventFilter) {
        ReadStep::Done(event) => event.ok(),
        ReadStep::TryRead => None,
    }
}

const SKIP_QUERY: &[u8] = b"\x1B]10;?\x1B\\\x1B]11;?\x1B\\\x1B[?6n";
const KEYBOARD_QUERY: &[u8] = b"\x1B]10;?\x1B\\\x1B]11;?\x1B\\\x1B[?u\x1B[c\x1B[?6n";
const CURSOR_QUERY: &[u8] = b"\x1B[6n";

#[test]
fn records_out_of_order_startup_responses() {
    let mut state = ProbeState::default();
    state.record(InternalEvent::OscColor {
        slot: 11,
        payload: OscColorPayload::Rgb { r: 1, g: 2, b: 3 },
    });
    state.record(InternalEvent::PrimaryDeviceAttributes);
    state.record(InternalEvent::ExtendedCursorPosition(9, 19));
    state.record(InternalEvent::OscColor {
        slot: 10,
        payload: OscColorPayload::Rgb { r: 4, g: 5, b: 6 },
    });
    state.record(InternalEvent::KeyboardEnhancementFlags(
        KeyboardEnhancementFlags::disambiguate_escape_codes(),
    ));

    assert!(state.is_complete(KeyboardEnhancementProbe::Query));
    assert_eq!(
        state.into_probe(),
        TerminalStartupProbe {
            cursor_position: Some((9, 19)),
            foreground_color: Some(Color::Rgb { r: 4, g: 5, b: 6 }),
            background_color: Some(Color::Rgb { r: 1, g: 2, b: 3 }),
            keyboard_enhancement_supported: Some(true),
        }
    );
}

#[test]
fn treats_unrecognized_colors_as_responses() {
    let mut state = ProbeState::default();
    state.record(InternalEvent::ExtendedCursorPosition(0, 0));
    state.record(InternalEvent::OscColor {
        slot: 10,
        payload: OscColorPayload::Unrecognized("?".to_string()),
    });
    state.record(InternalEvent::OscColor {
        slot: 11,
        payload: OscColorPayload::Unrecognized("?".to_string()),
    });

    assert!(state.is_complete(KeyboardEnhancementProbe::Skip));
    assert_eq!(
        state.into_probe(),
        TerminalStartupProbe {
            cursor_position: Some((0, 0)),
            foreground_color: None,
            background_color: None,
            keyboard_enhancement_supported: None,
        }
    );
}

#[test]
fn uses_the_latest_extended_cursor_position_response() {
    let mut state = ProbeState::default();
    state.record(InternalEvent::ExtendedCursorPosition(1, 0));
    state.record(InternalEvent::ExtendedCursorPosition(9, 19));

    assert_eq!(state.into_probe().cursor_position, Some((9, 19)));
}

#[test]
fn accepts_a_normal_cursor_response_but_ignores_ambiguous_f3() {
    let mut state = ProbeState::default();
    state.record(InternalEvent::CursorPosition(9, 19));
    state.record(InternalEvent::CursorPositionOrF3(1, 0, KeyModifiers::shift()));

    assert_eq!(state.into_probe().cursor_position, Some((9, 19)));
}

#[test]
fn waits_for_the_keyboard_fallback_after_supported_flags() {
    let mut state = ProbeState::default();
    state.record(InternalEvent::ExtendedCursorPosition(0, 0));
    state.record(InternalEvent::OscColor {
        slot: 10,
        payload: OscColorPayload::Rgb { r: 1, g: 2, b: 3 },
    });
    state.record(InternalEvent::OscColor {
        slot: 11,
        payload: OscColorPayload::Rgb { r: 4, g: 5, b: 6 },
    });
    state.record(InternalEvent::KeyboardEnhancementFlags(
        KeyboardEnhancementFlags::disambiguate_escape_codes(),
    ));

    assert!(!state.is_complete(KeyboardEnhancementProbe::Query));
    state.record(InternalEvent::PrimaryDeviceAttributes);
    assert!(state.is_complete(KeyboardEnhancementProbe::Query));
    assert_eq!(state.into_probe().keyboard_enhancement_supported, Some(true));
}

#[test]
fn completes_when_the_keyboard_fallback_arrives_first() {
    let mut state = ProbeState::default();
    state.record(InternalEvent::ExtendedCursorPosition(0, 0));
    state.record(InternalEvent::OscColor {
        slot: 10,
        payload: OscColorPayload::Rgb { r: 1, g: 2, b: 3 },
    });
    state.record(InternalEvent::OscColor {
        slot: 11,
        payload: OscColorPayload::Rgb { r: 4, g: 5, b: 6 },
    });
    state.record(InternalEvent::PrimaryDeviceAttributes);

    assert!(state.is_complete(KeyboardEnhancementProbe::Query));
    assert_eq!(state.into_probe().keyboard_enhancement_supported, Some(false));
}

#[test]
fn remaining_timeout_handles_the_largest_duration() {
    let started_at = Instant::now();
    assert!(!remaining_timeout(nanos(started_at.elapsed()), nanos(Duration::MAX)).is_zero());
}

#[test]
fn remaining_timeout_saturates_after_the_deadline() {
    let started_at = Instant::now() - Duration::from_millis(10);

    assert_eq!(
        remaining_timeout(nanos(started_at.elapsed()), nanos(Duration::from_millis(1))),
        nanos(Duration::ZERO)
    );
}

#[test]
fn does_not_enable_raw_mode_when_the_event_reader_is_locked() {
    let mut terminal = Terminal::new(vec![]);
    terminal.lock = false;

    assert_eq!(
        terminal
            .probe(&mut reader(vec![]), nanos(Duration::ZERO), KeyboardEnhancementProbe::Skip)
            .unwrap(),
        TerminalStartupProbe {
            cursor_position: None,
            foreground_color: None,
            background_color: None,
            keyboard_enhancement_supported: None,
        }
    );
    assert_eq!(terminal.actions, vec![Action::Lock]);
}

#[test]
fn does_not_enable_raw_mode_or_send_a_query_for_a_zero_timeout() {
    let mut terminal = Terminal::new(vec![]);

    assert_eq!(
        terminal
            .probe(&mut reader(vec![]), nanos(Duration::ZERO), KeyboardEnhancementProbe::Skip)
            .unwrap(),
        TerminalStartupProbe {
            cursor_position: None,
            foreground_color: None,
            background_color: None,
            keyboard_enhancement_supported: None,
        }
    );
    assert_eq!(terminal.actions, vec![Action::Lock]);
}

#[test]
fn a_locked_reader_ends_the_probe_though_time_is_left() {
    let mut terminal = Terminal::new(vec![]);
    terminal.lock = false;

    let probe = terminal
        .probe(&mut reader(vec![]), Nanos::from_secs(1), KeyboardEnhancementProbe::Query)
        .unwrap();
    assert_eq!(probe, ProbeState::default().into_probe());
    assert_eq!(terminal.actions, vec![Action::Lock]);
}

#[test]
fn queries_are_the_bytes_of_the_requests() {
    let skip = KeyboardEnhancementProbe::Skip;
    let query = KeyboardEnhancementProbe::Query;
    assert_eq!(query_bytes(QueryKind::Startup, skip), SKIP_QUERY);
    assert_eq!(query_bytes(QueryKind::Startup, query), KEYBOARD_QUERY);
    assert_eq!(query_bytes(QueryKind::StandardCursor, skip), CURSOR_QUERY);
    assert_eq!(query_bytes(QueryKind::StandardCursor, query), CURSOR_QUERY);
}

#[test]
fn collects_all_replies_and_leaves_the_input() {
    let mut terminal = Terminal::new(vec![vec![
        key('a'),
        InternalEvent::ExtendedCursorPosition(4, 5),
        color(11, 20),
        InternalEvent::KeyboardEnhancementFlags(
            KeyboardEnhancementFlags::disambiguate_escape_codes(),
        ),
        key('b'),
        color(10, 30),
        InternalEvent::PrimaryDeviceAttributes,
    ]]);
    let mut reader = reader(vec![key('0')]);

    let probe = terminal
        .probe(&mut reader, Nanos::from_secs(1), KeyboardEnhancementProbe::Query)
        .unwrap();
    assert_eq!(
        probe,
        TerminalStartupProbe {
            cursor_position: Some((4, 5)),
            foreground_color: red(30),
            background_color: red(20),
            keyboard_enhancement_supported: Some(true),
        }
    );
    assert_eq!(
        terminal.actions,
        vec![
            Action::Lock,
            Action::Enable,
            Action::Send(KEYBOARD_QUERY.to_vec(), 0),
            Action::Disable
        ]
    );
    assert_eq!(terminal.elapsed, Nanos::from_millis(7));
    for letter in ['0', 'a', 'b'] {
        assert_eq!(read_input(&mut reader), Some(key(letter)));
    }
    assert_eq!(read_input(&mut reader), None);
}

#[test]
fn drains_replies_that_are_there_already() {
    let mut terminal = Terminal::new(vec![vec![
        InternalEvent::ExtendedCursorPosition(1, 1),
        color(10, 1),
        color(11, 2),
        InternalEvent::ExtendedCursorPosition(2, 2),
    ]]);

    let probe = terminal
        .probe(&mut reader(vec![]), Nanos::from_secs(1), KeyboardEnhancementProbe::Skip)
        .unwrap();
    assert_eq!(probe.cursor_position, Some((2, 2)));
    assert_eq!(probe.keyboard_enhancement_supported, None);
    assert!(terminal.source.is_empty());
}

#[test]
fn asks_for_the_standard_position_once_the_cursor_alone_is_missing() {
    let f3 = InternalEvent::CursorPositionOrF3(1, 0, KeyModifiers::shift());
    let report = InternalEvent::CursorPositionOrF3(7, 0, KeyModifiers::shift());
    let mut terminal = Terminal::new(vec![
        vec![f3.clone(), color(10, 1), color(11, 2)],
        vec![key('x'), report],
    ]);
    let mut reader = reader(vec![]);

    let probe = terminal
        .probe(&mut reader, Nanos::from_secs(1), KeyboardEnhancementProbe::Skip)
        .unwrap();
    assert_eq!(probe.cursor_position, Some((7, 0)));
    assert_eq!(
        terminal.actions,
        vec![
            Action::Lock,
            Action::Enable,
            Action::Send(SKIP_QUERY.to_vec(), 0),
            Action::Send(CURSOR_QUERY.to_vec(), Nanos::from_millis(3).0),
            Action::Disable
        ]
    );
    assert_eq!(read_input(&mut reader), Some(f3));
    assert_eq!(read_input(&mut reader), Some(key('x')));
    assert_eq!(read_input(&mut reader), None);
}

#[test]
fn asks_for_the_standard_position_at_half_time() {
    let mut terminal = Terminal::new(vec![vec![], vec![InternalEvent::CursorPosition(3, 4)]]);
    terminal.enabled = Ok(false);

    let probe = terminal
        .probe(&mut reader(vec![]), Nanos::from_millis(100), KeyboardEnhancementProbe::Query)
        .unwrap();
    assert_eq!(
        probe,
        TerminalStartupProbe {
            cursor_position: Some((3, 4)),
            foreground_color: None,
            background_color: None,
            keyboard_enhancement_supported: None,
        }
    );
    // Raw mode was on before, and stays on.
    assert_eq!(
        terminal.actions,
        vec![
            Action::Lock,
            Action::Enable,
            Action::Send(KEYBOARD_QUERY.to_vec(), 0),
            Action::Send(CURSOR_QUERY.to_vec(), Nanos::from_millis(50).0),
        ]
    );
    assert_eq!(terminal.elapsed, Nanos::from_millis(100));
}

#[test]
fn a_silent_terminal_is_asked_twice_and_given_up_at_the_deadline() {
    let mut terminal = Terminal::new(vec![]);
    let mut reader = reader(vec![key('q')]);

    let probe = terminal
        .probe(&mut reader, Nanos::from_millis(10), KeyboardEnhancementProbe::Skip)
        .unwrap();
    assert_eq!(probe, ProbeState::default().into_probe());
    assert_eq!(terminal.elapsed, Nanos::from_millis(10));
    assert_eq!(terminal.actions.len(), 5);
    assert_eq!(read_input(&mut reader), Some(key('q')));
}

#[test]
fn an_interrupted_wait_is_begun_again() {
    let mut terminal = Terminal::new(vec![]);
    terminal.answers.push_back(vec![
        Ok(Some(key('a'))),
        Err(Error::Io(Failure { kind: ErrorKind::Interrupted, error: "signal" })),
        Ok(Some(InternalEvent::ExtendedCursorPosition(1, 2))),
        Ok(Some(color(10, 1))),
        Ok(Some(color(11, 1))),
    ]);
    let mut reader = reader(vec![]);

    let probe = terminal
        .probe(&mut reader, Nanos::from_secs(1), KeyboardEnhancementProbe::Skip)
        .unwrap();
    assert_eq!(probe.cursor_position, Some((1, 2)));
    assert_eq!(read_input(&mut reader), Some(key('a')));
}

#[test]
fn failures_are_handed_back_after_raw_mode_was_left() {
    let timeout = Nanos::from_secs(1);
    let skip = KeyboardEnhancementProbe::Skip;

    let mut terminal = Terminal::new(vec![]);
    terminal.enabled = Err(failure("enable"));
    let error = terminal.probe(&mut reader(vec![]), timeout, skip).unwrap_err();
    assert_eq!(error, Error::Io(failure("enable")));
    assert_eq!(terminal.actions, vec![Action::Lock, Action::Enable]);

    let mut terminal = Terminal::new(vec![]);
    terminal.sends.push_back(Err(Error::QueryWriteTimeout));
    let error = terminal.probe(&mut reader(vec![]), timeout, skip).unwrap_err();
    assert_eq!(error, Error::QueryWriteTimeout);
    assert_eq!(terminal.actions.last(), Some(&Action::Disable));

    let mut terminal = Terminal::new(vec![]);
    terminal.answers.push_back(vec![Ok(Some(key('a'))), Err(Error::Io(failure("read")))]);
    let mut events = reader(vec![]);
    let error = terminal.probe(&mut events, timeout, skip).unwrap_err();
    assert_eq!(error, Error::Io(failure("read")));
    assert_eq!(terminal.actions.last(), Some(&Action::Disable));
    assert_eq!(read_input(&mut events), Some(key('a')));

    let mut terminal = Terminal::new(vec![]);
    let mut without_source = InternalEventReader::new(VecDeque::new(), false);
    let error = terminal.probe(&mut without_source, timeout, skip).unwrap_err();
    assert_eq!(error, Error::ReaderUnavailable);
}

#[test]
fn a_failed_standard_position_request_puts_the_input_back() {
    let mut terminal = Terminal::new(vec![vec![key('a')]]);
    terminal.sends.push_back(Ok(()));
    terminal.sends.push_back(Err(Error::QueryWriteZero));
    let mut reader = reader(vec![]);

    let error = terminal
        .probe(&mut reader, Nanos::from_millis(10), KeyboardEnhancementProbe::Skip)
        .unwrap_err();
    assert_eq!(error, Error::QueryWriteZero);
    assert_eq!(read_input(&mut reader), Some(key('a')));
}

#[test]
fn leaving_raw_mode_is_tried_twice() {
    let mut terminal = Terminal::new(vec![vec![
        InternalEvent::ExtendedCursorPosition(1, 1),
        color(10, 1),
        color(11, 2),
    ]]);
    terminal.disabled = Err(failure("disable"));

    let error = terminal
        .probe(&mut reader(vec![]), Nanos::from_secs(1), KeyboardEnhancementProbe::Skip)
        .unwrap_err();
    assert_eq!(error, Error::Io(failure("disable")));
    assert_eq!(
        terminal.actions[3..],
        [Action::Disable, Action::DisableAgain]
    );
}

#[test]
fn time_lost_while_raw_mode_is_entered_counts() {
    let guard = RawModeGuard { active: true };
    let timeout = Nanos::from_millis(5);
    let skip = KeyboardEnhancementProbe::Skip;
    assert!(matches!(
        query_terminal_startup_raw::<TestError>(timeout, skip, guard, Nanos::from_millis(5)),
        StartupStep::DisableRawMode(request)
            if request.result == Ok(ProbeState::default().into_probe())
    ));
    assert!(matches!(
        query_terminal_startup_raw::<TestError>(timeout, skip, guard, Nanos(4_999_999)),
        StartupStep::SendQuery(request) if request.kind == QueryKind::Startup
    ));
}

#[test]
fn the_wait_for_the_cursor_ends_at_half_time() {
    let guard = RawModeGuard { active: false };
    let skip = KeyboardEnhancementProbe::Skip;
    let timeout = Nanos::from_millis(100);
    let mut events = reader(vec![]);
    match query_terminal_startup_raw::<TestError>(timeout, skip, guard, Nanos(0)) {
        StartupStep::SendQuery(request) => {
            match request.reply::<TestError>(&mut events, Ok(()), Nanos::from_millis(30)) {
                StartupStep::TryRead(request) => {
                    assert_eq!(request.stage, Stage::Collect);
                    assert_eq!(request.wait.timeout, Some(Nanos::from_millis(20)));
                    assert_eq!(request.wait.start, Nanos::from_millis(30));
                }
                _ => panic!("the source has to be read"),
            }
        }
        _ => panic!("the query has to be sent"),
    }
}

#[test]
fn a_wake_begins_the_wait_again() {
    let mut terminal = Terminal::new(vec![]);
    terminal.answers.push_back(vec![
        Err(Error::WokenUp),
        Ok(Some(InternalEvent::ExtendedCursorPosition(1, 2))),
        Ok(Some(color(10, 1))),
        Ok(Some(color(11, 1))),
    ]);

    let probe = terminal
        .probe(&mut reader(vec![]), Nanos::from_secs(1), KeyboardEnhancementProbe::Skip)
        .unwrap();
    assert_eq!(probe.cursor_position, Some((1, 2)));
}

#[test]
fn the_first_color_and_the_last_position_count() {
    let flags = InternalEvent::KeyboardEnhancementFlags(
        KeyboardEnhancementFlags::disambiguate_escape_codes(),
    );
    let mut terminal = Terminal::new(vec![vec![
        InternalEvent::PrimaryDeviceAttributes,
        InternalEvent::ExtendedCursorPosition(1, 1),
        color(10, 1),
        color(10, 2),
        InternalEvent::ExtendedCursorPosition(5, 6),
        color(11, 3),
        flags,
    ]]);

    let probe = terminal
        .probe(&mut reader(vec![]), Nanos::from_secs(1), KeyboardEnhancementProbe::Query)
        .unwrap();
    assert_eq!(
        probe,
        TerminalStartupProbe {
            cursor_position: Some((5, 6)),
            foreground_color: red(1),
            background_color: red(3),
            keyboard_enhancement_supported: Some(true),
        }
    );
}
