use crossterm_input::error::{Error, ErrorKind, Failure};
use crossterm_input::event::filter::{
    CursorPositionFilter, EventFilter, Filter, TerminalStartupProbeFilter,
};
use crossterm_input::event::read::{InternalEventReader, PollStep, ReadStep, SourceReply};
use crossterm_input::event::timeout::PollTimeout;
use crossterm_input::event::{
    Event, InternalEvent, KeyCode, KeyEvent, KeyModifiers, OscColorPayload,
};
use crossterm_input::time::Nanos;
use std::collections::VecDeque;

type TestError = &'static str;

/// A source that replies with its events, then with its error, then with nothing.
struct FakeSource {
    events: VecDeque<InternalEvent>,
    error: Option<Failure<TestError>>,
}

impl FakeSource {
    fn new(events: &[InternalEvent]) -> FakeSource {
        FakeSource {
            events: events.to_vec().into(),
            error: Some(Failure { kind: ErrorKind::Other, error: "" }),
        }
    }

    fn with_events(events: &[InternalEvent]) -> FakeSource {
        FakeSource { events: events.to_vec().into(), error: None }
    }

    fn try_read(&mut self) -> SourceReply<TestError> {
        // The error comes when one event is left.
        if self.events.len() == 1 {
            if let Some(error) = self.error.take() {
                return Err(Error::Io(error));
            }
        }
        if let Some(event) = self.events.pop_front() {
            return Ok(Some(event));
        }
        if let Some(error) = self.error.take() {
            return Err(Error::Io(error));
        }
        Ok(None)
    }
}

/// A reader with its source, and a clock that goes on when the source has nothing.
struct Harness {
    reader: InternalEventReader,
    source: Option<FakeSource>,
    now: Nanos,
}

impl Harness {
    fn new(events: Vec<InternalEvent>, source: Option<FakeSource>) -> Harness {
        let mut queue = VecDeque::with_capacity(32);
        queue.extend(events);
        Harness {
            reader: InternalEventReader::new(queue, source.is_some()),
            source,
            now: Nanos(0),
        }
    }

    fn poll<F: Filter>(
        &mut self,
        timeout: Option<Nanos>,
        filter: &F,
    ) -> Result<bool, Error<TestError>> {
        let mut step = self.reader.poll(timeout, self.now, filter);
        loop {
            match step {
                PollStep::Done(result) => return result,
                PollStep::TryRead(wait) => {
                    let reply = self.source.as_mut().unwrap().try_read();
                    if let Ok(None) = reply {
                        let left = wait.leftover(self.now).expect("nothing will ever come");
                        self.now = Nanos(self.now.0 + left.0);
                    }
                    step = self.reader.poll_reply(filter, wait, reply, self.now);
                }
            }
        }
    }

    fn read<F: Filter>(&mut self, filter: &F) -> Result<InternalEvent, Error<TestError>> {
        let mut step = self.reader.read(filter);
        loop {
            match step {
                ReadStep::Done(result) => return result,
                ReadStep::TryRead => {
                    let reply = self.source.as_mut().unwrap().try_read();
                    step = self.reader.read_reply(filter, reply);
                }
            }
        }
    }

    fn queued(&mut self) -> Vec<InternalEvent> {
        let events = self.reader.take_queued_events();
        self.reader.prepend_queued_events(events.clone());
        events.into()
    }
}

fn resize() -> InternalEvent {
    InternalEvent::Event(Event::Resize(10, 10))
}

fn cursor() -> InternalEvent {
    InternalEvent::CursorPosition(10, 20)
}

fn key(code: KeyCode) -> InternalEvent {
    InternalEvent::Event(Event::Key(KeyEvent::from(code)))
}

#[test]
fn test_poll_fails_without_event_source() {
    let mut reader = Harness::new(vec![], None);

    assert!(reader.poll(None, &EventFilter).is_err());
    assert!(reader.poll(Some(Nanos::from_secs(0)), &EventFilter).is_err());
    let error = reader.poll(Some(Nanos::from_secs(10)), &EventFilter).unwrap_err();
    assert_eq!(error, Error::ReaderUnavailable);
    assert_eq!(error.kind(), ErrorKind::Other);
    assert_eq!(error.message(), Some("Failed to initialize input reader"));
}

#[test]
fn test_poll_returns_true_for_matching_event_in_queue_at_front() {
    let mut reader = Harness::new(vec![InternalEvent::Event(Event::Resize(10, 10))], None);

    assert!(reader.poll(None, &EventFilter).unwrap());
}

#[test]
fn test_poll_returns_true_for_matching_event_in_queue_at_back() {
    let mut reader = Harness::new(
        vec![
            InternalEvent::Event(Event::Resize(10, 10)),
            InternalEvent::CursorPosition(10, 20),
        ],
        None,
    );

    assert!(reader.poll(None, &CursorPositionFilter).unwrap());
}

#[test]
fn test_read_returns_matching_event_in_queue_at_front() {
    const EVENT: InternalEvent = InternalEvent::Event(Event::Resize(10, 10));

    let mut reader = Harness::new(vec![EVENT], None);

    assert_eq!(reader.read(&EventFilter).unwrap(), EVENT);
}

#[test]
fn test_read_returns_matching_event_in_queue_at_back() {
    const CURSOR_EVENT: InternalEvent = InternalEvent::CursorPosition(10, 20);

    let mut reader =
        Harness::new(vec![InternalEvent::Event(Event::Resize(10, 10)), CURSOR_EVENT], None);

    assert_eq!(reader.read(&CursorPositionFilter).unwrap(), CURSOR_EVENT);
}

#[test]
fn test_read_does_not_consume_skipped_event() {
    const SKIPPED_EVENT: InternalEvent = InternalEvent::Event(Event::Resize(10, 10));
    const CURSOR_EVENT: InternalEvent = InternalEvent::CursorPosition(10, 20);

    let mut reader = Harness::new(vec![SKIPPED_EVENT, CURSOR_EVENT], None);

    assert_eq!(reader.read(&CursorPositionFilter).unwrap(), CURSOR_EVENT);
    assert_eq!(reader.read(&EventFilter).unwrap(), SKIPPED_EVENT);
}

#[test]
fn test_read_preserves_input_order_around_queued_response() {
    let first = InternalEvent::Event(Event::Key(KeyEvent::from(KeyCode::Char('a'))));
    let second = InternalEvent::Event(Event::Key(KeyEvent::from(KeyCode::Char('b'))));
    let cursor = InternalEvent::CursorPosition(10, 20);

    let mut reader =
        Harness::new(vec![first.clone(), cursor.clone(), second.clone()], None);

    assert_eq!(reader.read(&CursorPositionFilter).unwrap(), cursor);
    assert_eq!(reader.read(&EventFilter).unwrap(), first);
    assert_eq!(reader.read(&EventFilter).unwrap(), second);
}

#[test]
fn test_poll_preserves_skipped_input_after_interrupted_or_failed_source_read() {
    for error_kind in [ErrorKind::Interrupted, ErrorKind::Other] {
        let key = InternalEvent::Event(Event::Key(KeyEvent::from(KeyCode::Char('a'))));
        let cursor = InternalEvent::CursorPosition(10, 20);
        let source = FakeSource {
            events: vec![key.clone(), cursor.clone()].into(),
            error: Some(Failure { kind: error_kind, error: "" }),
        };
        let mut reader = Harness::new(vec![], Some(source));

        let result = reader.poll(Some(Nanos::from_secs(1)), &CursorPositionFilter);
        if error_kind == ErrorKind::Interrupted {
            assert!(!result.unwrap());
        } else {
            assert_eq!(result.unwrap_err().kind(), error_kind);
        }
        assert_eq!(reader.read(&EventFilter).unwrap(), key);
        assert_eq!(reader.read(&CursorPositionFilter).unwrap(), cursor);
    }
}

#[test]
fn test_read_preserves_prequeued_input_after_failed_source_read() {
    let key = InternalEvent::Event(Event::Key(KeyEvent::from(KeyCode::Char('a'))));
    let mut reader = Harness::new(vec![key.clone()], Some(FakeSource::new(&[])));

    assert_eq!(
        reader.read(&CursorPositionFilter).unwrap_err().kind(),
        ErrorKind::Other
    );
    assert_eq!(reader.read(&EventFilter).unwrap(), key);
}

#[test]
fn test_startup_probe_preserves_interleaved_input_events() {
    let input = [
        InternalEvent::Event(Event::Key(KeyEvent::from(KeyCode::Char('h')))),
        InternalEvent::CursorPosition(9, 19),
        InternalEvent::Event(Event::Key(KeyEvent::from(KeyCode::Backspace))),
        InternalEvent::OscColor {
            slot: 10,
            payload: OscColorPayload::Rgb { r: 1, g: 2, b: 3 },
        },
        InternalEvent::Event(Event::Paste("hello\nworld".to_string())),
        InternalEvent::OscColor {
            slot: 11,
            payload: OscColorPayload::Rgb { r: 4, g: 5, b: 6 },
        },
        InternalEvent::PrimaryDeviceAttributes,
    ];
    let mut reader = Harness::new(vec![], Some(FakeSource::with_events(&input)));
    let filter = TerminalStartupProbeFilter { query_keyboard: true };

    for expected in [
        InternalEvent::CursorPosition(9, 19),
        InternalEvent::OscColor {
            slot: 10,
            payload: OscColorPayload::Rgb { r: 1, g: 2, b: 3 },
        },
        InternalEvent::OscColor {
            slot: 11,
            payload: OscColorPayload::Rgb { r: 4, g: 5, b: 6 },
        },
        InternalEvent::PrimaryDeviceAttributes,
    ] {
        assert!(reader.poll(Some(Nanos::from_secs(1)), &filter).unwrap());
        assert_eq!(reader.read(&filter).unwrap(), expected);
    }

    assert_eq!(
        reader.read(&EventFilter).unwrap(),
        InternalEvent::Event(Event::Key(KeyEvent::from(KeyCode::Char('h'))))
    );
    assert_eq!(
        reader.read(&EventFilter).unwrap(),
        InternalEvent::Event(Event::Key(KeyEvent::from(KeyCode::Backspace)))
    );
    assert_eq!(
        reader.read(&EventFilter).unwrap(),
        InternalEvent::Event(Event::Paste("hello\nworld".to_string()))
    );
}

#[test]
fn test_poll_timeouts_if_source_has_no_events() {
    let mut reader = Harness::new(vec![], Some(FakeSource::with_events(&[])));

    assert!(!reader.poll(Some(Nanos::from_secs(0)), &EventFilter).unwrap());
}

#[test]
fn test_poll_returns_true_if_source_has_at_least_one_event() {
    let source = FakeSource::with_events(&[InternalEvent::Event(Event::Resize(10, 10))]);

    let mut reader = Harness::new(vec![], Some(source));

    assert!(reader.poll(None, &EventFilter).unwrap());
    assert!(reader.poll(Some(Nanos::from_secs(0)), &EventFilter).unwrap());
}

#[test]
fn test_reads_returns_event_if_source_has_at_least_one_event() {
    const EVENT: InternalEvent = InternalEvent::Event(Event::Resize(10, 10));

    let mut reader = Harness::new(vec![], Some(FakeSource::with_events(&[EVENT])));

    assert_eq!(reader.read(&EventFilter).unwrap(), EVENT);
}

#[test]
fn test_read_returns_events_if_source_has_events() {
    const EVENT: InternalEvent = InternalEvent::Event(Event::Resize(10, 10));

    let mut reader = Harness::new(vec![], Some(FakeSource::with_events(&[EVENT, EVENT, EVENT])));

    assert_eq!(reader.read(&EventFilter).unwrap(), EVENT);
    assert_eq!(reader.read(&EventFilter).unwrap(), EVENT);
    assert_eq!(reader.read(&EventFilter).unwrap(), EVENT);
}

#[test]
fn test_poll_returns_false_after_all_source_events_are_consumed() {
    const EVENT: InternalEvent = InternalEvent::Event(Event::Resize(10, 10));

    let mut reader = Harness::new(vec![], Some(FakeSource::with_events(&[EVENT, EVENT, EVENT])));

    assert_eq!(reader.read(&EventFilter).unwrap(), EVENT);
    assert_eq!(reader.read(&EventFilter).unwrap(), EVENT);
    assert_eq!(reader.read(&EventFilter).unwrap(), EVENT);
    assert!(!reader.poll(Some(Nanos::from_secs(0)), &EventFilter).unwrap());
}

#[test]
fn test_poll_propagates_error() {
    let mut reader = Harness::new(vec![], Some(FakeSource::new(&[])));

    assert_eq!(
        reader
            .poll(Some(Nanos::from_secs(0)), &EventFilter)
            .err()
            .map(|e| format!("{:?}", &e.kind())),
        Some(format!("{:?}", ErrorKind::Other))
    );
}

#[test]
fn test_read_propagates_error() {
    let mut reader = Harness::new(vec![], Some(FakeSource::new(&[])));

    assert_eq!(
        reader.read(&EventFilter).err().map(|e| format!("{:?}", &e.kind())),
        Some(format!("{:?}", ErrorKind::Other))
    );
}

#[test]
fn test_poll_continues_after_error() {
    const EVENT: InternalEvent = InternalEvent::Event(Event::Resize(10, 10));

    let mut reader = Harness::new(vec![], Some(FakeSource::new(&[EVENT, EVENT])));

    assert_eq!(reader.read(&EventFilter).unwrap(), EVENT);
    assert!(reader.read(&EventFilter).is_err());
    assert!(reader.poll(Some(Nanos::from_secs(0)), &EventFilter).unwrap());
}

#[test]
fn test_read_continues_after_error() {
    const EVENT: InternalEvent = InternalEvent::Event(Event::Resize(10, 10));

    let mut reader = Harness::new(vec![], Some(FakeSource::new(&[EVENT, EVENT])));

    assert_eq!(reader.read(&EventFilter).unwrap(), EVENT);
    assert!(reader.read(&EventFilter).is_err());
    assert_eq!(reader.read(&EventFilter).unwrap(), EVENT);
}

#[test]
fn poll_puts_the_event_in_front_and_the_rest_behind() {
    let source = FakeSource::with_events(&[key(KeyCode::Char('b')), resize(), cursor()]);
    let mut reader = Harness::new(vec![key(KeyCode::Char('a'))], Some(source));

    assert!(reader.poll(None, &CursorPositionFilter).unwrap());
    assert_eq!(
        reader.queued(),
        vec![cursor(), key(KeyCode::Char('a')), key(KeyCode::Char('b')), resize()]
    );
}

#[test]
fn poll_keeps_passed_over_events_at_the_deadline() {
    let source = FakeSource::with_events(&[key(KeyCode::Char('b')), resize()]);
    let mut reader = Harness::new(vec![key(KeyCode::Char('a'))], Some(source));

    assert!(!reader.poll(Some(Nanos::from_secs(1)), &CursorPositionFilter).unwrap());
    assert_eq!(reader.now, Nanos::from_secs(1));
    assert_eq!(
        reader.queued(),
        vec![key(KeyCode::Char('a')), key(KeyCode::Char('b')), resize()]
    );
}

#[test]
fn read_goes_on_after_an_interruption() {
    let source = FakeSource {
        events: vec![key(KeyCode::Char('b')), cursor()].into(),
        error: Some(Failure { kind: ErrorKind::Interrupted, error: "" }),
    };
    let mut reader = Harness::new(vec![key(KeyCode::Char('a'))], Some(source));

    assert_eq!(reader.read(&CursorPositionFilter).unwrap(), cursor());
    assert_eq!(reader.queued(), vec![key(KeyCode::Char('a')), key(KeyCode::Char('b'))]);
}

#[test]
fn read_hands_back_the_error_of_the_source() {
    let failure = Failure { kind: ErrorKind::TimedOut, error: "gone" };
    let source = FakeSource { events: VecDeque::new(), error: Some(failure) };
    let mut reader = Harness::new(vec![], Some(source));

    let error = reader.read(&EventFilter).unwrap_err();
    assert_eq!(error, Error::Io(failure));
    assert_eq!(error.kind(), ErrorKind::TimedOut);
    assert_eq!(error.message(), None);
}

#[test]
fn a_found_event_is_read_without_the_source() {
    let source = FakeSource::with_events(&[resize(), cursor()]);
    let mut reader = Harness::new(vec![], Some(source));

    assert!(reader.poll(None, &CursorPositionFilter).unwrap());
    reader.source = None;
    assert_eq!(reader.read(&CursorPositionFilter).unwrap(), cursor());
    assert_eq!(reader.queued(), vec![resize()]);
}

#[test]
fn taken_events_can_be_put_back_in_front() {
    let mut reader = Harness::new(vec![resize(), cursor()], None);

    let taken = reader.reader.take_queued_events();
    assert_eq!(taken, vec![resize(), cursor()]);
    assert!(reader.queued().is_empty());
    reader.reader.prepend_queued_events(vec![key(KeyCode::Esc)].into());
    reader.reader.prepend_queued_events(taken);
    assert_eq!(reader.queued(), vec![resize(), cursor(), key(KeyCode::Esc)]);
}

#[test]
fn filters_tell_replies_from_input() {
    let f3 = InternalEvent::CursorPositionOrF3(1, 0, KeyModifiers::shift());
    let attributes = InternalEvent::PrimaryDeviceAttributes;
    let color = |slot: u8| InternalEvent::OscColor {
        slot,
        payload: OscColorPayload::Unrecognized("?".to_string()),
    };
    let with_keyboard = TerminalStartupProbeFilter { query_keyboard: true };
    let without_keyboard = TerminalStartupProbeFilter { query_keyboard: false };

    assert!(EventFilter.eval(&resize()) && EventFilter.eval(&f3));
    assert!(!EventFilter.eval(&cursor()) && !EventFilter.eval(&attributes));
    assert!(CursorPositionFilter.eval(&cursor()) && CursorPositionFilter.eval(&f3));
    assert!(!CursorPositionFilter.eval(&InternalEvent::ExtendedCursorPosition(1, 1)));
    assert!(with_keyboard.eval(&attributes) && !without_keyboard.eval(&attributes));
    assert!(with_keyboard.eval(&color(10)) && with_keyboard.eval(&color(11)));
    assert!(!with_keyboard.eval(&color(12)));
    assert!(!with_keyboard.eval(&f3) && !with_keyboard.eval(&resize()));
}

#[test]
fn a_wait_counts_from_its_start() {
    let wait = PollTimeout::new(Some(Nanos::from_millis(5)), Nanos::from_millis(100));

    assert_eq!(wait.leftover(Nanos::from_millis(100)), Some(Nanos::from_millis(5)));
    assert_eq!(wait.leftover(Nanos::from_millis(103)), Some(Nanos::from_millis(2)));
    assert!(!wait.elapsed(Nanos(104_999_999)));
    assert!(wait.elapsed(Nanos(105_000_000)));
    assert_eq!(wait.leftover(Nanos::from_millis(200)), Some(Nanos(0)));
    assert_eq!(PollTimeout::new(None, Nanos(0)).leftover(Nanos::from_secs(9)), None);
    assert!(!PollTimeout::new(None, Nanos(0)).elapsed(Nanos::from_secs(9)));
}

#[test]
fn calls_with_different_filters_lose_and_double_nothing() {
    let attributes = InternalEvent::PrimaryDeviceAttributes;
    let source = FakeSource {
        events: vec![key(KeyCode::Char('b')), cursor(), attributes.clone(), resize()].into(),
        error: Some(Failure { kind: ErrorKind::Interrupted, error: "" }),
    };
    let mut reader = Harness::new(vec![key(KeyCode::Char('a'))], Some(source));

    assert!(reader.poll(None, &CursorPositionFilter).unwrap());
    assert_eq!(reader.read(&EventFilter).unwrap(), key(KeyCode::Char('a')));
    let probe = TerminalStartupProbeFilter { query_keyboard: true };
    assert_eq!(reader.read(&probe).unwrap(), cursor());
    assert!(!reader.poll(Some(Nanos::from_secs(1)), &CursorPositionFilter).unwrap());
    assert!(!reader.poll(Some(Nanos::from_secs(1)), &CursorPositionFilter).unwrap());
    assert_eq!(reader.queued(), vec![key(KeyCode::Char('b')), attributes, resize()]);
}
