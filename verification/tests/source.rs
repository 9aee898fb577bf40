use crossterm_input::error::{Error, ErrorKind, Failure};
use crossterm_input::event::filter::CursorPositionFilter;
use crossterm_input::event::osc::{osc_kind, OscKind};
use crossterm_input::event::read::{InternalEventReader, PollStep};
use crossterm_input::event::source::{
    mio, tty, ResizeQuery, TerminalRead, UnixInternalEventSource, WindowSize, TTY_BUFFER_SIZE,
};
use crossterm_input::event::timeout::PollTimeout;
use crossterm_input::event::{Event, InternalEvent, KeyCode, KeyEvent};
use crossterm_input::time::Nanos;
use std::collections::VecDeque;

type TestError = &'static str;
type WinchRead = Result<usize, Failure<TestError>>;
type Outcome = Result<Option<InternalEvent>, Error<TestError>>;

const MAX_OSC_LEN: usize = 4_096;
const WINCH: i32 = 28;
const NONBLOCK: i32 = 0o4000;

/// The status flags of a terminal that waits.
const BLOCKING: i32 = 0o2;

/// Decodes single characters, primary device attributes and bracketed pastes.
fn decode(bytes: &[u8], more: bool) -> Result<Option<InternalEvent>, ()> {
    let body = match bytes {
        [0x1B] if more => return Ok(None),
        [0x1B] => return Ok(Some(key(KeyCode::Esc))),
        [0x1B, b'['] | [0x9B] => return Ok(None),
        [0x1B, b'[', body @ ..] | [0x9B, body @ ..] => body,
        [byte] => return Ok(Some(key(KeyCode::Char(*byte as char)))),
        _ => return Err(()),
    };
    if body[0] == b'?' {
        return Ok(if body.ends_with(b"c") {
            Some(InternalEvent::PrimaryDeviceAttributes)
        } else {
            None
        });
    }
    if let Some(text) = body.strip_prefix(b"200~") {
        return Ok(text.strip_suffix(b"\x1B[201~").map(|text| {
            InternalEvent::Event(Event::Paste(String::from_utf8_lossy(text).into_owned()))
        }));
    }
    if b"200~".starts_with(body) {
        return Ok(None);
    }
    Err(())
}

fn key(code: KeyCode) -> InternalEvent {
    InternalEvent::Event(Event::Key(KeyEvent::from(code)))
}

fn interrupted() -> Failure<TestError> {
    Failure { kind: ErrorKind::Interrupted, error: "interrupted" }
}

/// What a terminal does, and a clock that goes on while it is waited for.
struct Terminal {
    input: VecDeque<u8>,
    /// What comes in only while it is waited for.
    late: Vec<u8>,
    flags: i32,
    /// Whether the input never runs out, but goes on with this byte.
    endless: Option<u8>,
    size: WindowSize<TestError>,
    resized: bool,
    woken: bool,
    interruptions: usize,
    queries: Vec<ResizeQuery>,
    polls: usize,
    now: Nanos,
}

impl Terminal {
    fn new(input: &[u8]) -> Terminal {
        Terminal {
            input: input.iter().copied().collect(),
            late: Vec::new(),
            flags: BLOCKING,
            endless: None,
            size: Ok((80, 24)),
            resized: false,
            woken: false,
            interruptions: 0,
            queries: Vec::new(),
            polls: 0,
            now: Nanos(0),
        }
    }

    fn tick(&mut self) {
        self.now = Nanos(self.now.0 + Nanos::from_millis(1).0);
    }

    fn read(&mut self, bytes: &mut Vec<u8>) {
        assert_ne!(self.flags & NONBLOCK, 0, "the terminal would wait");
        self.tick();
        bytes.clear();
        while bytes.len() < TTY_BUFFER_SIZE {
            match self.input.pop_front().or(self.endless) {
                Some(byte) => bytes.push(byte),
                None => break,
            }
        }
    }

    fn is_ready(&self) -> bool {
        !self.input.is_empty() || self.endless.is_some()
    }

    fn size(&mut self, query: ResizeQuery) -> WindowSize<TestError> {
        self.queries.push(query);
        self.size
    }

    fn assert_blocking(&self) {
        assert_eq!(self.flags, BLOCKING);
    }

    fn interrupt(&mut self) -> bool {
        self.assert_blocking();
        let interrupted = self.interruptions > 0;
        self.interruptions = self.interruptions.saturating_sub(1);
        self.polls += 1;
        interrupted
    }

    fn wait(&mut self, left: Option<Nanos>) {
        if !self.is_ready() {
            self.input.extend(self.late.drain(..));
        }
        if !self.is_ready() && !self.resized && !self.woken {
            let left = left.expect("nothing will ever become ready");
            self.now = Nanos(self.now.0 + left.0);
        }
    }
}

fn would_block() -> Failure<TestError> {
    Failure { kind: ErrorKind::WouldBlock, error: "block" }
}

fn read_terminal<'a>(bytes: &'a [u8]) -> TerminalRead<'a, TestError> {
    if bytes.is_empty() {
        TerminalRead::Failed(would_block())
    } else {
        TerminalRead::Bytes(bytes)
    }
}

fn try_read_mio(
    source: &mut UnixInternalEventSource,
    terminal: &mut Terminal,
    timeout: Option<Nanos>,
) -> Outcome {
    let mut buffer = Vec::new();
    let mut step = mio::try_read(source, timeout, terminal.now);
    loop {
        step = match step {
            mio::Step::Done(outcome) => {
                terminal.assert_blocking();
                return outcome;
            }
            mio::Step::GetFlags(request) => request.reply(Ok(terminal.flags), NONBLOCK),
            mio::Step::SetFlags(request) => {
                terminal.flags = request.set.flags;
                request.reply(Ok(()))
            }
            mio::Step::RestoreFlags(request) => {
                terminal.flags = request.flags;
                request.reply(source, terminal.now, &decode)
            }
            mio::Step::QueryResize(request) => {
                let size = terminal.size(request.query);
                request.reply(source, size, terminal.now)
            }
            mio::Step::ReadTerminal(request) => {
                terminal.read(&mut buffer);
                request.reply(source, read_terminal(&buffer), terminal.now, &decode)
            }
            mio::Step::Poll(request) => {
                if terminal.interrupt() {
                    request.reply(Err(interrupted()), terminal.now)
                } else {
                    terminal.wait(request.wait.leftover(terminal.now));
                    let mut ready = Vec::new();
                    if terminal.resized {
                        ready.push(mio::Ready::Signal);
                    }
                    if terminal.is_ready() {
                        ready.push(mio::Ready::Terminal);
                    }
                    if terminal.woken {
                        ready.push(mio::Ready::Wake);
                    }
                    request.reply(Ok(&ready), terminal.now)
                }
            }
            mio::Step::NextSignal(request) => {
                let signal = if terminal.resized { Some(WINCH) } else { None };
                terminal.resized = false;
                request.reply(signal, WINCH, terminal.now)
            }
        };
    }
}

fn try_read_tty(
    source: &mut UnixInternalEventSource,
    terminal: &mut Terminal,
    timeout: Option<Nanos>,
) -> Outcome {
    let mut buffer = Vec::new();
    let mut step = tty::try_read(source, timeout, terminal.now);
    loop {
        step = match step {
            tty::Step::Done(outcome) => {
                terminal.assert_blocking();
                return outcome;
            }
            tty::Step::GetFlags(request) => request.reply(Ok(terminal.flags), NONBLOCK),
            tty::Step::SetFlags(request) => {
                terminal.flags = request.set.flags;
                request.reply(Ok(()))
            }
            tty::Step::RestoreFlags(request) => {
                terminal.flags = request.flags;
                request.reply(source, terminal.now, &decode)
            }
            tty::Step::QueryResize(request) => {
                let size = terminal.size(request.query);
                request.reply(source, size, terminal.now)
            }
            tty::Step::Poll(request) => {
                if terminal.interrupt() {
                    request.reply(source, Err(tty::PollFailure::Io(interrupted())), terminal.now)
                } else {
                    terminal.wait(request.wait.leftover(terminal.now));
                    let ready = tty::Readiness {
                        terminal: terminal.is_ready(),
                        winch: terminal.resized,
                        wake: terminal.woken,
                    };
                    request.reply(source, Ok(ready), terminal.now)
                }
            }
            tty::Step::ReadTerminal(request) => {
                terminal.read(&mut buffer);
                request.reply(source, read_terminal(&buffer), terminal.now, &decode)
            }
            tty::Step::DrainWinch(request) => {
                let count = if terminal.resized { 1 } else { 0 };
                terminal.resized = false;
                request.reply(Ok(count))
            }
            tty::Step::DrainWake(request) => {
                let count = if terminal.woken { 1 } else { 0 };
                terminal.woken = false;
                request.reply(Ok(count))
            }
        };
    }
}

type TryRead =
    fn(&mut UnixInternalEventSource, &mut Terminal, Option<Nanos>) -> Outcome;

const BOTH: [TryRead; 2] = [try_read_mio, try_read_tty];

fn bounded_read_with_incomplete_prefix(
    try_read: TryRead,
    prefix: &[u8],
) -> (UnixInternalEventSource, Terminal) {
    let mut source = UnixInternalEventSource::new(MAX_OSC_LEN);
    let mut terminal = Terminal::new(prefix);
    terminal.endless = Some(b'1');

    let event = try_read(&mut source, &mut terminal, Some(Nanos::from_millis(20))).unwrap();

    assert!(event.is_none());
    assert!(terminal.now.0 < Nanos::from_millis(250).0);
    if osc_kind(prefix).is_some() {
        assert!(source.parser.buffer.is_empty());
        assert_eq!(source.parser.discarding_osc, osc_kind(prefix));
    } else {
        assert!(source.parser.buffer.starts_with(prefix));
    }

    terminal.endless = None;
    (source, terminal)
}

fn assert_discarded_osc_tail_does_not_leak_input(
    try_read: TryRead,
    mut source: UnixInternalEventSource,
    mut terminal: Terminal,
    completion: &'static [u8],
) {
    terminal.input.extend(completion);

    assert_eq!(
        try_read(&mut source, &mut terminal, Some(Nanos::from_secs(1))).unwrap(),
        Some(key(KeyCode::Char('h')))
    );
    assert!(source.parser.buffer.is_empty());
    assert!(source.parser.discarding_osc.is_none());
    assert!(!source.parser.discarding_osc_esc);
}

fn assert_clear_discards_partial_input(prefix: &[u8]) {
    for try_read in BOTH {
        let mut source = UnixInternalEventSource::new(MAX_OSC_LEN);
        let mut terminal = Terminal::new(prefix);
        assert!(try_read(&mut source, &mut terminal, Some(Nanos::from_millis(20)))
            .unwrap()
            .is_none());
        assert_eq!(source.parser.buffer, prefix);
        source.parser.internal_events.push_back(key(KeyCode::Char('x')));

        source.clear();

        assert!(source.parser.buffer.is_empty());
        assert!(source.parser.internal_events.is_empty());
        terminal.input.extend(b"h");
        assert_eq!(
            try_read(&mut source, &mut terminal, Some(Nanos::from_secs(1))).unwrap(),
            Some(key(KeyCode::Char('h')))
        );
    }
}

#[test]
fn bounded_read_preserves_continuously_readable_incomplete_input() {
    for try_read in BOTH {
        let (mut source, mut terminal) = bounded_read_with_incomplete_prefix(try_read, b"\x1B[?");

        terminal.input.extend(b"c");
        assert_eq!(
            try_read(&mut source, &mut terminal, Some(Nanos::from_secs(1))).unwrap(),
            Some(InternalEvent::PrimaryDeviceAttributes)
        );
    }
}

#[test]
fn bounded_read_honors_deadline_for_an_incomplete_osc_payload() {
    for try_read in BOTH {
        let (source, terminal) = bounded_read_with_incomplete_prefix(try_read, b"\x1B]12;");
        assert_discarded_osc_tail_does_not_leak_input(try_read, source, terminal, b"\x1B\\h");
    }
}

#[test]
fn bounded_read_honors_deadline_for_an_incomplete_c1_osc_payload() {
    for try_read in BOTH {
        let (source, terminal) = bounded_read_with_incomplete_prefix(try_read, b"\x9D12;");
        assert_discarded_osc_tail_does_not_leak_input(try_read, source, terminal, b"\x9Ch");
    }
}

#[test]
fn bounded_read_honors_deadline_for_continuously_readable_incomplete_c1_csi() {
    for try_read in BOTH {
        let _ = bounded_read_with_incomplete_prefix(try_read, b"\x9B?");
    }
}

#[test]
fn bounded_resize_query_uses_ioctl_or_defers_without_tput() {
    let mut source = UnixInternalEventSource::new(MAX_OSC_LEN);
    let size: WindowSize<TestError> = Ok((80, 24));
    assert_eq!(
        source.read_resize(ResizeQuery::Bounded, size).unwrap(),
        Some(InternalEvent::Event(Event::Resize(80, 24)))
    );
    assert!(!source.pending_resize);

    let no_size = Err(Failure { kind: ErrorKind::Other, error: "not a terminal" });
    assert!(source.read_resize(ResizeQuery::Bounded, no_size).unwrap().is_none());
    assert!(source.pending_resize);

    source.clear();
    assert!(!source.pending_resize);
}

#[test]
fn bounded_read_does_not_block_on_a_partial_sequence() {
    for try_read in BOTH {
        let mut source = UnixInternalEventSource::new(MAX_OSC_LEN);
        let mut terminal = Terminal::new(b"\x1B[?");

        let event = try_read(&mut source, &mut terminal, Some(Nanos::from_millis(20))).unwrap();

        assert!(event.is_none());
        assert!(terminal.now.0 < Nanos::from_millis(250).0);
        assert_eq!(source.parser.buffer, b"\x1B[?");

        terminal.input.extend(b"c");
        assert_eq!(
            try_read(&mut source, &mut terminal, Some(Nanos::from_secs(1))).unwrap(),
            Some(InternalEvent::PrimaryDeviceAttributes)
        );
    }
}

#[test]
fn bounded_read_completes_a_multi_chunk_sequence() {
    for try_read in BOTH {
        let mut partial = b"\x1B[?".to_vec();
        partial.resize(TTY_BUFFER_SIZE * 2 + 17, b'1');
        let mut source = UnixInternalEventSource::new(MAX_OSC_LEN);
        let mut terminal = Terminal::new(&partial);

        assert!(try_read(&mut source, &mut terminal, Some(Nanos::from_millis(20)))
            .unwrap()
            .is_none());
        assert_eq!(source.parser.buffer, partial);

        terminal.input.extend(b"c");
        assert_eq!(
            try_read(&mut source, &mut terminal, Some(Nanos::from_secs(1))).unwrap(),
            Some(InternalEvent::PrimaryDeviceAttributes)
        );
    }
}

#[test]
fn clear_discards_a_partial_csi_and_queued_parser_events() {
    assert_clear_discards_partial_input(b"\x1B[?");
}

#[test]
fn clear_discards_an_oversized_osc_state() {
    for try_read in BOTH {
        let (mut source, _) = bounded_read_with_incomplete_prefix(try_read, b"\x1B]12;");

        source.clear();

        assert!(source.parser.buffer.is_empty());
        assert!(source.parser.discarding_osc.is_none());
        assert!(!source.parser.discarding_osc_esc);
    }
}

#[test]
fn clear_discards_a_partial_bracketed_paste() {
    assert_clear_discards_partial_input(b"\x1B[200~partial paste");
}

#[test]
fn parsed_events_are_handed_out_in_order_without_reading() {
    for try_read in BOTH {
        let mut source = UnixInternalEventSource::new(MAX_OSC_LEN);
        let mut terminal = Terminal::new(b"ab\x1B[200~x\ny\x1B[201~");

        assert_eq!(
            try_read(&mut source, &mut terminal, None).unwrap(),
            Some(key(KeyCode::Char('a')))
        );
        let after_first = terminal.now;
        assert_eq!(
            try_read(&mut source, &mut terminal, None).unwrap(),
            Some(key(KeyCode::Char('b')))
        );
        assert_eq!(
            try_read(&mut source, &mut terminal, None).unwrap(),
            Some(InternalEvent::Event(Event::Paste("x\ny".to_string())))
        );
        assert_eq!(terminal.now, after_first);
    }
}

#[test]
fn a_signal_reports_the_new_size() {
    for try_read in BOTH {
        let mut source = UnixInternalEventSource::new(MAX_OSC_LEN);
        let mut terminal = Terminal::new(b"");
        terminal.resized = true;

        assert_eq!(
            try_read(&mut source, &mut terminal, None).unwrap(),
            Some(InternalEvent::Event(Event::Resize(80, 24)))
        );
        assert_eq!(terminal.queries, vec![ResizeQuery::Unbounded]);
    }
}

#[test]
fn a_deferred_resize_is_reported_by_the_next_read() {
    for try_read in BOTH {
        let mut source = UnixInternalEventSource::new(MAX_OSC_LEN);
        let mut terminal = Terminal::new(b"");
        terminal.resized = true;
        terminal.size = Err(Failure { kind: ErrorKind::Other, error: "no size" });

        let timeout = Some(Nanos::from_millis(20));
        assert_eq!(try_read(&mut source, &mut terminal, timeout), Ok(None));
        assert!(source.pending_resize);
        assert_eq!(terminal.queries, vec![ResizeQuery::Bounded]);

        terminal.size = Ok((100, 30));
        assert_eq!(
            try_read(&mut source, &mut terminal, timeout).unwrap(),
            Some(InternalEvent::Event(Event::Resize(100, 30)))
        );
        assert!(!source.pending_resize);
    }
}

#[test]
fn an_unbounded_read_reports_that_there_is_no_size() {
    for try_read in BOTH {
        let mut source = UnixInternalEventSource::new(MAX_OSC_LEN);
        source.pending_resize = true;
        let mut terminal = Terminal::new(b"");
        let failure = Failure { kind: ErrorKind::Other, error: "no size" };
        terminal.size = Err(failure);

        assert_eq!(try_read(&mut source, &mut terminal, None), Err(Error::Io(failure)));
        assert!(source.pending_resize);
    }
}

#[test]
fn a_waker_ends_the_read() {
    for try_read in BOTH {
        let mut source = UnixInternalEventSource::new(MAX_OSC_LEN);
        let mut terminal = Terminal::new(b"");
        terminal.woken = true;

        let error = try_read(&mut source, &mut terminal, None).unwrap_err();
        assert_eq!(error, Error::WokenUp);
        assert_eq!(error.kind(), ErrorKind::Interrupted);
        assert_eq!(error.message(), Some("Poll operation was woken up by `Waker::wake`"));
    }
}

#[test]
fn a_wake_makes_a_poll_find_nothing_and_lose_nothing() {
    for try_read in BOTH {
        let mut source = UnixInternalEventSource::new(MAX_OSC_LEN);
        let mut terminal = Terminal::new(b"ab");
        let mut reader = InternalEventReader::new(VecDeque::new(), true);
        let mut step = reader.poll(None, terminal.now, &CursorPositionFilter);
        let mut replies = 0;
        let found = loop {
            match step {
                PollStep::Done(found) => break found,
                PollStep::TryRead(wait) => {
                    terminal.woken = !terminal.is_ready();
                    let reply = try_read(&mut source, &mut terminal, None);
                    replies += 1;
                    step = reader.poll_reply(&CursorPositionFilter, wait, reply, terminal.now);
                }
            }
        };
        assert_eq!(found, Ok(false));
        assert_eq!(replies, 3);
        assert_eq!(
            reader.take_queued_events(),
            vec![key(KeyCode::Char('a')), key(KeyCode::Char('b'))]
        );
    }
}

#[test]
fn an_interrupted_poll_is_tried_again() {
    for try_read in BOTH {
        let mut source = UnixInternalEventSource::new(MAX_OSC_LEN);
        let mut terminal = Terminal::new(b"");
        terminal.interruptions = 2;

        assert_eq!(
            try_read(&mut source, &mut terminal, Some(Nanos::from_millis(20))),
            Ok(None)
        );
        assert_eq!(terminal.polls, 3);
        assert!(terminal.now.0 >= Nanos::from_millis(20).0);
    }
}

#[test]
fn no_poll_is_made_without_time() {
    let mut source = UnixInternalEventSource::new(MAX_OSC_LEN);
    let mut terminal = Terminal::new(b"h");
    assert_eq!(try_read_tty(&mut source, &mut terminal, Some(Nanos(0))), Ok(None));
    assert_eq!(terminal.polls, 0);
    assert_eq!(terminal.input.len(), 1);
}

/// The request for a terminal that does not wait anyway.
fn mio_read_request() -> mio::ReadRequest {
    let request = mio::FlagsRequest { wait: PollTimeout::new(None, Nanos(0)) };
    match request.reply::<TestError>(Ok(BLOCKING | NONBLOCK), NONBLOCK) {
        mio::Step::ReadTerminal(request) => request,
        _ => panic!("the terminal has to be read"),
    }
}

fn tty_flags_request() -> tty::FlagsRequest {
    tty::FlagsRequest {
        wait: PollTimeout::new(None, Nanos(0)),
        ready: tty::Readiness { terminal: true, winch: false, wake: false },
    }
}

#[test]
fn failures_of_the_terminal_end_the_read() {
    let failure = Failure { kind: ErrorKind::Other, error: "broken" };
    let mut source = UnixInternalEventSource::new(MAX_OSC_LEN);

    let read = TerminalRead::Failed(failure);
    let step = mio_read_request().reply(&mut source, read, Nanos(0), &decode);
    assert!(matches!(step, mio::Step::Done(Err(Error::Io(f))) if f == failure));
    let wait = PollTimeout::new(None, Nanos(0));
    assert!(matches!(
        mio::FlagsRequest { wait }.reply(Err(failure), NONBLOCK),
        mio::Step::Done(Err(Error::Io(f))) if f == failure
    ));
    match (mio::FlagsRequest { wait }).reply::<TestError>(Ok(BLOCKING), NONBLOCK) {
        mio::Step::SetFlags(request) => assert!(matches!(
            request.reply(Err(failure)),
            mio::Step::Done(Err(Error::Io(f))) if f == failure
        )),
        _ => panic!("the flag has to be set"),
    }

    assert!(matches!(
        tty_flags_request().reply(Err(failure), NONBLOCK),
        tty::Step::Done(Err(Error::Io(f))) if f == failure
    ));
    match tty_flags_request().reply::<TestError>(Ok(BLOCKING), NONBLOCK) {
        tty::Step::SetFlags(request) => {
            assert!(matches!(
                request.reply(Err(failure)),
                tty::Step::Done(Err(Error::Io(f))) if f == failure
            ));
            match request.reply::<TestError>(Ok(())) {
                tty::Step::ReadTerminal(request) => {
                    let read = TerminalRead::Failed(failure);
                    match request.reply(&mut source, read, Nanos(0), &decode) {
                        tty::Step::RestoreFlags(request) => {
                            assert_eq!(request.flags, BLOCKING);
                            let step = request.reply(&mut source, Nanos(0), &decode);
                            assert!(matches!(
                                step,
                                tty::Step::Done(Err(Error::Io(f))) if f == failure
                            ));
                        }
                        _ => panic!("the flags have to be set back"),
                    }
                }
                _ => panic!("the terminal has to be read"),
            }
        }
        _ => panic!("the flag has to be set"),
    }
}

#[test]
fn the_end_of_the_input_ends_an_edge_triggered_read() {
    let mut source = UnixInternalEventSource::new(MAX_OSC_LEN);
    let read: TerminalRead<'_, TestError> = TerminalRead::Bytes(&[]);
    let step = mio_read_request().reply(&mut source, read, Nanos(0), &decode);
    assert!(matches!(step, mio::Step::Done(Ok(None))));
}

#[test]
fn idle_read_leaves_the_terminal_descriptor_blocking() {
    for try_read in BOTH {
        let mut source = UnixInternalEventSource::new(MAX_OSC_LEN);
        let mut terminal = Terminal::new(b"\x1B[?");
        terminal.late = b"c".to_vec();

        // The terminal checks its flags whenever it is waited for.
        assert_eq!(
            try_read(&mut source, &mut terminal, None).unwrap(),
            Some(InternalEvent::PrimaryDeviceAttributes)
        );
        assert!(terminal.polls > 0);
        terminal.assert_blocking();
    }
}

#[test]
fn a_terminal_that_does_not_wait_is_left_so() {
    let mut source = UnixInternalEventSource::new(MAX_OSC_LEN);
    match tty_flags_request().reply::<TestError>(Ok(BLOCKING | NONBLOCK), NONBLOCK) {
        tty::Step::ReadTerminal(request) => {
            let read = TerminalRead::Bytes(b"h");
            let step: tty::Step<'_, TestError> =
                request.reply(&mut source, read, Nanos(0), &decode);
            assert!(matches!(
                step,
                tty::Step::Done(Ok(Some(event))) if event == key(KeyCode::Char('h'))
            ));
        }
        _ => panic!("the terminal has to be read"),
    }
}

#[test]
fn stale_terminal_readiness_does_not_block_the_scoped_read() {
    let mut source = UnixInternalEventSource::new(MAX_OSC_LEN);
    match tty_flags_request().reply::<TestError>(Ok(BLOCKING), NONBLOCK) {
        tty::Step::SetFlags(request) => match request.reply::<TestError>(Ok(())) {
            tty::Step::ReadTerminal(request) => {
                let read = TerminalRead::Failed(would_block());
                match request.reply(&mut source, read, Nanos(0), &decode) {
                    tty::Step::RestoreFlags(request) => {
                        assert_eq!(request.flags, BLOCKING);
                        let step = request.reply(&mut source, Nanos(0), &decode);
                        assert!(matches!(step, tty::Step::Poll(_)));
                    }
                    _ => panic!("the flags have to be set back"),
                }
            }
            _ => panic!("the terminal has to be read"),
        },
        _ => panic!("the flag has to be set"),
    }
}

#[test]
fn an_unexpected_poll_failure_is_handed_back() {
    let mut source = UnixInternalEventSource::new(MAX_OSC_LEN);
    match tty::try_read::<TestError>(&mut source, None, Nanos(0)) {
        tty::Step::Poll(request) => {
            let failure = Err(tty::PollFailure::Unexpected("odd"));
            match request.reply(&mut source, failure, Nanos(0)) {
                tty::Step::Done(Err(error)) => {
                    assert_eq!(error, Error::UnexpectedPoll("odd"));
                    assert_eq!(error.kind(), ErrorKind::Other);
                    assert_eq!(error.message(), Some("got unexpected error while polling"));
                }
                _ => panic!("the read has to end"),
            }
        }
        _ => panic!("readiness has to be polled for"),
    }
}

/// Fills a buffer from a pipe that gives the bytes of each read, or fails.
fn fill(
    buffer: &mut [u8],
    reads: &[Result<&[u8], Failure<TestError>>],
) -> (Result<usize, Failure<TestError>>, usize) {
    let mut filled = 0;
    for (idx, read) in reads.iter().enumerate() {
        let read = read.map(|bytes| {
            buffer[filled..filled + bytes.len()].copy_from_slice(bytes);
            bytes.len()
        });
        match tty::read_complete(filled, buffer.len(), read) {
            tty::PipeStep::Done(result) => return (result, idx + 1),
            tty::PipeStep::ReadMore { filled: now } => filled = now,
        }
    }
    panic!("the pipe has to be read again")
}

#[test]
fn a_buffer_is_filled_until_it_is_full_or_the_pipe_would_block() {
    let broken = Failure { kind: ErrorKind::Other, error: "broken" };
    let reads = [Ok(&b"abc"[..]), Err(interrupted()), Ok(b"de"), Err(would_block())];

    let mut buffer = [0; 5];
    assert_eq!(fill(&mut buffer, &reads), (Ok(5), 3));
    assert_eq!(&buffer, b"abcde");

    let mut buffer = [0; 8];
    assert_eq!(fill(&mut buffer, &reads), (Ok(5), 4));
    assert_eq!(&buffer, b"abcde\0\0\0");

    assert_eq!(fill(&mut buffer, &[Err(would_block())]), (Ok(0), 1));
    assert_eq!(fill(&mut buffer, &[Ok(b"ab"), Ok(b"")]), (Ok(2), 2));
    assert_eq!(fill(&mut buffer, &[Ok(b"ab"), Err(broken)]), (Err(broken), 2));
}

#[test]
fn pipes_are_read_until_they_are_empty() {
    let broken = Failure { kind: ErrorKind::Other, error: "broken" };
    let wait = PollTimeout::new(Some(Nanos(1)), Nanos(0));
    let winch = |filled: usize| tty::WinchRequest { wait, filled };
    assert!(matches!(
        winch(0).reply::<TestError>(Ok(3)),
        tty::Step::DrainWinch(request) if request.filled == 3
    ));
    assert!(matches!(
        winch(3).reply(Err(interrupted())),
        tty::Step::DrainWinch(request) if request.filled == 3
    ));
    assert!(matches!(
        winch(3).reply(Err(would_block())),
        tty::Step::DrainWinch(request) if request.filled == 0
    ));
    assert!(matches!(
        winch(1_000).reply::<TestError>(Ok(24)),
        tty::Step::DrainWinch(request) if request.filled == 0
    ));
    assert!(matches!(
        winch(0).reply(Err(would_block())),
        tty::Step::QueryResize(request) if request.query == ResizeQuery::Bounded
    ));
    assert!(matches!(
        winch(0).reply(Err(broken)),
        tty::Step::Done(Err(Error::Io(f))) if f == broken
    ));
    let wake = |filled: usize| tty::WakeRequest { wait, filled };
    assert!(matches!(
        wake(0).reply::<TestError>(Ok(1)),
        tty::Step::DrainWake(request) if request.filled == 1
    ));
    assert!(matches!(
        wake(1).reply(Err(would_block())),
        tty::Step::DrainWake(request) if request.filled == 0
    ));
    assert!(matches!(wake(0).reply(Err(would_block())), tty::Step::Done(Err(Error::WokenUp))));
    assert!(matches!(
        wake(0).reply(Err(broken)),
        tty::Step::Done(Err(Error::Io(f))) if f == broken
    ));
}

#[test]
fn clear_discards_a_queued_resize_signal() {
    let mut source = UnixInternalEventSource::new(MAX_OSC_LEN);
    source.pending_resize = true;
    source.clear();
    assert!(!source.pending_resize);

    source.pending_resize = true;
    let mut pipe: VecDeque<WinchRead> = vec![Ok(1), Err(interrupted()), Ok(2)].into();
    let mut step = tty::clear(&mut source);
    while let tty::ClearStep::DrainWinch(request) = step {
        step = request.reply(pipe.pop_front().unwrap_or(Err(would_block())));
    }
    assert!(!source.pending_resize);
    assert!(pipe.is_empty());

    let broken = Failure { kind: ErrorKind::Other, error: "broken" };
    assert!(matches!(
        tty::ClearRequest { filled: 0 }.reply(Err(broken)),
        tty::ClearStep::Done
    ));
}

#[test]
fn readiness_is_read_from_the_event_bits() {
    let ready = tty::Readiness::from_revents(0x11, 0x10, 0x01, 0x01);
    assert_eq!(ready, tty::Readiness { terminal: true, winch: false, wake: true });
}

#[test]
fn operating_system_commands_are_recognized() {
    assert_eq!(osc_kind(b"\x1B]"), Some(OscKind::Esc));
    assert_eq!(osc_kind(b"\x9D"), Some(OscKind::C1));
    assert_eq!(osc_kind(b"\x1B"), None);
    assert_eq!(osc_kind(b"\x1B[?"), None);
    assert_eq!(osc_kind(b""), None);
}

#[test]
fn the_terminal_is_drained_before_readiness_is_waited_for() {
    let mut source = UnixInternalEventSource::new(MAX_OSC_LEN);
    let reads: [TerminalRead<'_, TestError>; 3] = [
        TerminalRead::Bytes(b"\x1B["),
        TerminalRead::Failed(interrupted()),
        TerminalRead::Bytes(b"?"),
    ];
    for read in reads {
        let step = mio_read_request().reply(&mut source, read, Nanos(0), &decode);
        assert!(matches!(step, mio::Step::GetFlags(_)));
    }
    let read = TerminalRead::Failed(would_block());
    let step = mio_read_request().reply(&mut source, read, Nanos(0), &decode);
    assert!(matches!(step, mio::Step::Poll(_)));
    assert_eq!(source.parser.buffer, b"\x1B[?");
}
