//! The startup probe: asks a terminal for its cursor position, its default colors and its
//! keyboard support under one deadline, and leaves all other input to the event reader.

use crate::error::{Error, ErrorKind, Failure};
use crate::event::filter::{CursorPositionFilter, Filter, TerminalStartupProbeFilter};
use crate::event::read::{
    accepting, accepts_any, first_accepted, law_first_accepted_is_first, law_found_event_is_read_at_once,
    InternalEventReader, PollStep, ReadStep, ReaderState, SourceReply,
};
use crate::event::timeout::PollTimeout;
use crate::event::InternalEvent;
use crate::terminal::probe::{KeyboardEnhancementProbe, ProbeState, TerminalStartupProbe};
use crate::time::Nanos;
use std::collections::VecDeque;
use vstd::prelude::*;

verus! {

/// What is left of a timeout after some time; nothing once the timeout has passed.
pub fn remaining_timeout(elapsed: Nanos, timeout: Nanos) -> (left: Nanos)
    ensures
        left == timeout.minus(elapsed),
        elapsed.0 <= timeout.0 ==> left.0 + elapsed.0 == timeout.0,
        elapsed.0 > timeout.0 ==> left.0 == 0,
{
    timeout.saturating_sub(elapsed)
}

/// Whether raw mode was switched on and has to be switched off again.
#[derive(Clone, Copy, Debug, PartialEq, Eq, Structural)]
pub struct RawModeGuard {
    pub active: bool,
}

impl RawModeGuard {
    /// A guard by what switching raw mode on came to: whether it had been off before.
    pub fn enable<E>(enabled: Result<bool, Failure<E>>) -> (guard: Result<RawModeGuard, Error<E>>)
        ensures
            guard == match enabled {
                Ok(active) => Ok(RawModeGuard { active }),
                Err(failure) => Err(Error::Io(failure)),
            },
    {
        match enabled {
            Ok(active) => Ok(RawModeGuard { active }),
            Err(failure) => Err(Error::Io(failure)),
        }
    }

    /// Takes in what switching raw mode off came to, which an active guard asks for. After a
    /// failure the guard stays active.
    pub fn restore<E>(&mut self, disabled: Result<(), Failure<E>>) -> (restored: Result<
        (),
        Error<E>,
    >)
        requires
            old(self).active,
        ensures
            match disabled {
                Ok(()) => restored == Ok::<(), Error<E>>(()) && !final(self).active,
                Err(failure) => restored == Err::<(), Error<E>>(Error::Io(failure)) && *final(self)
                    == *old(self),
            },
    {
        match disabled {
            Ok(()) => {
                self.active = false;
                Ok(())
            },
            Err(failure) => Err(Error::Io(failure)),
        }
    }
}

/// A query that the startup probe sends.
#[derive(Clone, Copy, Debug, PartialEq, Eq, Structural)]
pub enum QueryKind {
    /// The questions of the probe, the extended cursor position request last.
    Startup,
    /// The standard cursor position request.
    StandardCursor,
}

/// The bytes of a query.
pub open spec fn spec_query_bytes(
    kind: QueryKind,
    keyboard_probe: KeyboardEnhancementProbe,
) -> Seq<u8> {
    // ESC ] 10 ; ? ESC \
    let foreground = seq![0x1Bu8, 0x5D, 0x31, 0x30, 0x3B, 0x3F, 0x1B, 0x5C];
    // ESC ] 11 ; ? ESC \
    let background = seq![0x1Bu8, 0x5D, 0x31, 0x31, 0x3B, 0x3F, 0x1B, 0x5C];
    // ESC [ ? u
    let keyboard = seq![0x1Bu8, 0x5B, 0x3F, 0x75];
    // ESC [ c
    let attributes = seq![0x1Bu8, 0x5B, 0x63];
    // ESC [ ? 6 n
    let extended_cursor = seq![0x1Bu8, 0x5B, 0x3F, 0x36, 0x6E];
    // ESC [ 6 n
    let standard_cursor = seq![0x1Bu8, 0x5B, 0x36, 0x6E];
    match kind {
        QueryKind::StandardCursor => standard_cursor,
        QueryKind::Startup => match keyboard_probe {
            KeyboardEnhancementProbe::Query => foreground + background + keyboard + attributes
                + extended_cursor,
            KeyboardEnhancementProbe::Skip => foreground + background + extended_cursor,
        },
    }
}

/// The bytes of a query.
pub fn query_bytes(kind: QueryKind, keyboard_probe: KeyboardEnhancementProbe) -> (bytes:
    &'static [u8])
    ensures
        bytes@ == spec_query_bytes(kind, keyboard_probe),
{
    match kind {
        QueryKind::StandardCursor => &[0x1Bu8, 0x5B, 0x36, 0x6E],
        QueryKind::Startup => match keyboard_probe {
            KeyboardEnhancementProbe::Query => &[
                0x1Bu8, 0x5D, 0x31, 0x30, 0x3B, 0x3F, 0x1B, 0x5C,
                0x1B, 0x5D, 0x31, 0x31, 0x3B, 0x3F, 0x1B, 0x5C,
                0x1B, 0x5B, 0x3F, 0x75,
                0x1B, 0x5B, 0x63,
                0x1B, 0x5B, 0x3F, 0x36, 0x6E,
            ],
            KeyboardEnhancementProbe::Skip => &[
                0x1Bu8, 0x5D, 0x31, 0x30, 0x3B, 0x3F, 0x1B, 0x5C,
                0x1B, 0x5D, 0x31, 0x31, 0x3B, 0x3F, 0x1B, 0x5C,
                0x1B, 0x5B, 0x3F, 0x36, 0x6E,
            ],
        },
    }
}

/// A startup probe under way. All times are counted from its start.
#[derive(Clone, Copy, Debug, PartialEq, Eq)]
pub struct StartupQuery {
    /// The deadline.
    pub timeout: Nanos,
    pub keyboard_probe: KeyboardEnhancementProbe,
    /// The replies so far.
    pub state: ProbeState,
    /// Whether the standard cursor position request was made.
    pub standard_cursor_attempted: bool,
    /// Whether raw mode has to be switched off in the end.
    pub guard: RawModeGuard,
}

/// What the source is read for.
#[derive(Clone, Copy, Debug, PartialEq, Eq, Structural)]
pub enum Stage {
    /// Replies that are missing.
    Collect,
    /// Replies beyond those that are needed.
    Drain,
    /// The reply to the standard cursor position request.
    Cursor,
}

/// What a startup probe comes to.
pub enum StartupStep<E> {
    /// The probe has ended.
    Done(Result<TerminalStartupProbe, Error<E>>),
    /// The event reader has to be locked within the timeout.
    LockReader(LockRequest),
    /// Raw mode has to be switched on.
    EnableRawMode(EnableRequest),
    /// A query has to be sent.
    SendQuery(SendRequest),
    /// The source has to be read, for as long as is left of the wait.
    TryRead(SourceRequest),
    /// Raw mode has to be switched off.
    DisableRawMode(DisableRequest<E>),
    /// Raw mode could not be switched off, and this has to be tried once more.
    DisableRawModeAgain(RetryRequest<E>),
}

/// A probe that needs the event reader.
#[derive(Clone, Copy, Debug, PartialEq, Eq)]
pub struct LockRequest {
    pub timeout: Nanos,
    pub keyboard_probe: KeyboardEnhancementProbe,
}

/// A probe that needs raw mode.
#[derive(Clone, Copy, Debug, PartialEq, Eq)]
pub struct EnableRequest {
    pub timeout: Nanos,
    pub keyboard_probe: KeyboardEnhancementProbe,
}

/// A probe that has a query to send.
#[derive(Debug)]
pub struct SendRequest {
    pub query: StartupQuery,
    pub kind: QueryKind,
    /// Events that are kept away from the replies to the query.
    pub held: VecDeque<InternalEvent>,
}

/// A probe that needs events of the source.
#[derive(Debug)]
pub struct SourceRequest {
    pub query: StartupQuery,
    pub stage: Stage,
    pub wait: PollTimeout,
    /// Events that are kept away from the reply that is waited for.
    pub held: VecDeque<InternalEvent>,
}

/// A probe that has its result and has to leave raw mode.
pub struct DisableRequest<E> {
    pub result: Result<TerminalStartupProbe, Error<E>>,
}

/// A probe that could not leave raw mode.
pub struct RetryRequest<E> {
    pub error: Error<E>,
}

/// How far a startup probe has come.
#[verifier::ext_equal]
pub enum StartupState<E> {
    Done(Result<TerminalStartupProbe, Error<E>>),
    LockReader { timeout: Nanos, keyboard_probe: KeyboardEnhancementProbe },
    EnableRawMode { timeout: Nanos, keyboard_probe: KeyboardEnhancementProbe },
    SendQuery { query: StartupQuery, kind: QueryKind, held: Seq<InternalEvent> },
    TryRead { query: StartupQuery, stage: Stage, wait: PollTimeout, held: Seq<InternalEvent> },
    DisableRawMode { result: Result<TerminalStartupProbe, Error<E>> },
    DisableRawModeAgain { error: Error<E> },
}

impl<E> View for StartupStep<E> {
    type V = StartupState<E>;

    open spec fn view(&self) -> StartupState<E> {
        match *self {
            StartupStep::Done(result) => StartupState::Done(result),
            StartupStep::LockReader(request) => StartupState::LockReader {
                timeout: request.timeout,
                keyboard_probe: request.keyboard_probe,
            },
            StartupStep::EnableRawMode(request) => StartupState::EnableRawMode {
                timeout: request.timeout,
                keyboard_probe: request.keyboard_probe,
            },
            StartupStep::SendQuery(request) => StartupState::SendQuery {
                query: request.query,
                kind: request.kind,
                held: request.held@,
            },
            StartupStep::TryRead(request) => StartupState::TryRead {
                query: request.query,
                stage: request.stage,
                wait: request.wait,
                held: request.held@,
            },
            StartupStep::DisableRawMode(request) => StartupState::DisableRawMode {
                result: request.result,
            },
            StartupStep::DisableRawModeAgain(request) => StartupState::DisableRawModeAgain {
                error: request.error,
            },
        }
    }
}

impl<E> StartupState<E> {
    /// The events kept away from the reply that is waited for.
    pub open spec fn held(self) -> Seq<InternalEvent> {
        match self {
            StartupState::SendQuery { query: _, kind: _, held } => held,
            StartupState::TryRead { query: _, stage: _, wait: _, held } => held,
            _ => Seq::empty(),
        }
    }
}

/// The probe with no reply at all.
pub open spec fn no_replies() -> TerminalStartupProbe {
    ProbeState::nothing().probe()
}

/// The cursor position that a standard report gives.
pub open spec fn spec_standard_position(event: InternalEvent) -> Option<(u16, u16)> {
    match event {
        InternalEvent::CursorPosition(x, y) => Some((x, y)),
        InternalEvent::CursorPositionOrF3(x, y, _) => Some((x, y)),
        _ => None,
    }
}

impl StartupQuery {
    /// Which events answer the probe.
    pub open spec fn filter(self) -> TerminalStartupProbeFilter {
        TerminalStartupProbeFilter {
            query_keyboard: self.keyboard_probe == KeyboardEnhancementProbe::Query,
        }
    }

    /// Whether all replies have come in.
    pub open spec fn complete(self) -> bool {
        self.state.spec_is_complete(self.keyboard_probe)
    }

    /// The probe after a reply.
    pub open spec fn recorded(self, event: InternalEvent) -> StartupQuery {
        StartupQuery { state: self.state.recorded(event), ..self }
    }

    /// The probe after a reply to the standard cursor position request.
    pub open spec fn located(self, event: InternalEvent) -> StartupQuery {
        match spec_standard_position(event) {
            Some(position) => StartupQuery {
                state: ProbeState { cursor_position: Some(position), ..self.state },
                ..self
            },
            None => self,
        }
    }

    /// Whether the standard cursor position request is due: once, when the cursor position is
    /// all that is missing, or is missing when half of the time has passed.
    pub open spec fn wants_standard_cursor(self, elapsed: Nanos) -> bool {
        &&& !self.standard_cursor_attempted
        &&& self.state.cursor_position is None
        &&& self.state.spec_only_cursor_is_missing(self.keyboard_probe) || elapsed.0
            >= self.timeout.0 / 2
    }

    /// How long to wait for a reply: until the deadline, but no longer than to the moment when
    /// the standard cursor position request can become due. Once all replies are in, not at
    /// all.
    pub open spec fn span(self, elapsed: Nanos) -> Nanos {
        let left = self.timeout.minus(elapsed);
        if self.complete() {
            Nanos(0)
        } else if !self.standard_cursor_attempted && self.state.cursor_position is None {
            left.shorter(Nanos((self.timeout.0 / 2) as u128).minus(elapsed))
        } else {
            left
        }
    }

    /// How a probe ends: by leaving raw mode, if it has entered it.
    pub open spec fn finished<E>(self, result: Result<TerminalStartupProbe, Error<E>>) -> StartupState<
        E,
    > {
        if self.guard.active {
            StartupState::DisableRawMode { result }
        } else {
            StartupState::Done(result)
        }
    }

    /// How a probe goes on with the events that are queued: it takes the replies among them
    /// one by one until the deadline has passed, the standard cursor position request is due,
    /// or the source has to be read.
    pub open spec fn collects<E>(self, reader: ReaderState, elapsed: Nanos) -> (
        ReaderState,
        StartupState<E>,
    )
        decreases reader.events.len(),
    {
        if !self.complete() && self.timeout.minus(elapsed) == Nanos(0) {
            (reader, self.finished(Ok(self.state.probe())))
        } else if !self.complete() && self.wants_standard_cursor(elapsed) {
            (
                reader.emptied(),
                StartupState::SendQuery {
                    query: StartupQuery { standard_cursor_attempted: true, ..self },
                    kind: QueryKind::StandardCursor,
                    held: reader.events,
                },
            )
        } else if accepts_any(accepting(self.filter()), reader.events) {
            let at = first_accepted(accepting(self.filter()), reader.events);
            proof {
                law_first_accepted_is_first(accepting(self.filter()), reader.events);
            }
            self.recorded(reader.events[at]).collects(
                ReaderState { events: reader.events.remove(at), ..reader },
                elapsed,
            )
        } else if !reader.has_source {
            (reader, self.finished(Err(Error::ReaderUnavailable)))
        } else {
            (
                reader,
                StartupState::TryRead {
                    query: self,
                    stage: if self.complete() {
                        Stage::Drain
                    } else {
                        Stage::Collect
                    },
                    wait: PollTimeout { timeout: Some(self.span(elapsed)), start: elapsed },
                    held: Seq::empty(),
                },
            )
        }
    }

    /// How a probe goes on once a query was sent.
    pub open spec fn sent<E>(
        self,
        kind: QueryKind,
        held: Seq<InternalEvent>,
        reader: ReaderState,
        result: Result<(), Error<E>>,
        elapsed: Nanos,
    ) -> (ReaderState, StartupState<E>) {
        let left = self.timeout.minus(elapsed);
        match result {
            Err(error) => (reader.prepended(held), self.finished(Err(error))),
            Ok(()) => match kind {
                QueryKind::Startup => self.collects(reader.prepended(held), elapsed),
                QueryKind::StandardCursor => if left == Nanos(0) {
                    self.collects(reader.prepended(held), elapsed)
                } else if accepts_any(accepting(CursorPositionFilter), reader.events) {
                    let at = first_accepted(accepting(CursorPositionFilter), reader.events);
                    self.located(reader.events[at]).collects(
                        (ReaderState { events: reader.events.remove(at), ..reader }).prepended(held),
                        elapsed,
                    )
                } else if !reader.has_source {
                    (reader.prepended(held), self.finished(Err(Error::ReaderUnavailable)))
                } else {
                    (
                        reader,
                        StartupState::TryRead {
                            query: self,
                            stage: Stage::Cursor,
                            wait: PollTimeout { timeout: Some(left), start: elapsed },
                            held,
                        },
                    )
                },
            },
        }
    }

    /// Whether an event is one that the source is read for.
    pub open spec fn awaits(self, stage: Stage, event: InternalEvent) -> bool {
        match stage {
            Stage::Cursor => CursorPositionFilter.accepts(event),
            _ => self.filter().accepts(event),
        }
    }

    /// How a probe goes on after a reply of the source.
    pub open spec fn replied<E>(
        self,
        stage: Stage,
        wait: PollTimeout,
        held: Seq<InternalEvent>,
        reader: ReaderState,
        reply: SourceReply<E>,
        elapsed: Nanos,
    ) -> (ReaderState, StartupState<E>) {
        match reply {
            Ok(Some(event)) if self.awaits(stage, event) => {
                let next = match stage {
                    Stage::Cursor => self.located(event),
                    _ => self.recorded(event),
                };
                next.collects(reader.settled().prepended(held), elapsed)
            },
            Err(error) if error.spec_kind() != ErrorKind::Interrupted => (
                reader.settled().prepended(held),
                self.finished(Err(error)),
            ),
            _ => {
                let passed = match reply {
                    Ok(Some(event)) => ReaderState { skipped: reader.skipped.push(event), ..reader },
                    _ => reader,
                };
                if reply is Ok && !wait.over_at(elapsed) {
                    (passed, StartupState::TryRead { query: self, stage, wait, held })
                } else if stage == Stage::Drain {
                    (passed.settled().prepended(held), self.finished(Ok(self.state.probe())))
                } else {
                    self.collects(passed.settled().prepended(held), elapsed)
                }
            },
        }
    }
}

/// A probe with no reply yet.
pub open spec fn begun(
    timeout: Nanos,
    keyboard_probe: KeyboardEnhancementProbe,
    guard: RawModeGuard,
) -> StartupQuery {
    StartupQuery {
        timeout,
        keyboard_probe,
        state: ProbeState::nothing(),
        standard_cursor_attempted: false,
        guard,
    }
}

/// How a probe goes on once raw mode is on: by asking its questions, if there is time left.
pub open spec fn asks<E>(
    timeout: Nanos,
    keyboard_probe: KeyboardEnhancementProbe,
    guard: RawModeGuard,
    elapsed: Nanos,
) -> StartupState<E> {
    let query = begun(timeout, keyboard_probe, guard);
    if timeout.minus(elapsed) == Nanos(0) {
        query.finished(Ok(no_replies()))
    } else {
        StartupState::SendQuery { query, kind: QueryKind::Startup, held: Seq::empty() }
    }
}

/// What the outside reports while a probe is under way.
pub enum StartupEvent<E> {
    /// The event reader was locked, or could not be in time.
    Locked(bool),
    /// Raw mode is on, with whether it had been off before, or could not be switched on.
    Enabled(Result<bool, Failure<E>>),
    /// A query was sent, or could not be.
    Sent(Result<(), Error<E>>),
    /// The source replied.
    Replied(SourceReply<E>),
    /// Raw mode was switched off, or could not be.
    Disabled(Result<(), Failure<E>>),
    /// Switching raw mode off was tried once more.
    DisabledAgain,
}

impl<E> StartupState<E> {
    /// How far a probe has come after a report, with the reader that it uses. A report that
    /// was not asked for changes nothing.
    pub open spec fn after(self, reader: ReaderState, event: StartupEvent<E>, elapsed: Nanos) -> (
        ReaderState,
        StartupState<E>,
    ) {
        match (self, event) {
            (
                StartupState::LockReader { timeout, keyboard_probe },
                StartupEvent::Locked(locked),
            ) => (
                reader,
                if !locked || timeout.minus(elapsed) == Nanos(0) {
                    StartupState::Done(Ok(no_replies()))
                } else {
                    StartupState::EnableRawMode { timeout, keyboard_probe }
                },
            ),
            (
                StartupState::EnableRawMode { timeout, keyboard_probe },
                StartupEvent::Enabled(enabled),
            ) => (
                reader,
                match enabled {
                    Err(failure) => StartupState::Done(Err(Error::Io(failure))),
                    Ok(active) => asks(
                        timeout,
                        keyboard_probe,
                        RawModeGuard { active },
                        elapsed,
                    ),
                },
            ),
            (
                StartupState::SendQuery { query, kind, held },
                StartupEvent::Sent(sent),
            ) => query.sent(kind, held, reader, sent, elapsed),
            (
                StartupState::TryRead { query, stage, wait, held },
                StartupEvent::Replied(reply),
            ) => query.replied(stage, wait, held, reader, reply, elapsed),
            (
                StartupState::DisableRawMode { result },
                StartupEvent::Disabled(disabled),
            ) => (
                reader,
                match disabled {
                    Ok(()) => StartupState::Done(result),
                    Err(failure) => StartupState::DisableRawModeAgain { error: Error::Io(failure) },
                },
            ),
            (StartupState::DisableRawModeAgain { error }, StartupEvent::DisabledAgain) => (
                reader,
                StartupState::Done(Err(error)),
            ),
            _ => (reader, self),
        }
    }

    /// How far a probe has come after a run of reports, each with the time since the start.
    pub open spec fn after_all(self, reader: ReaderState, events: Seq<(StartupEvent<E>, Nanos)>) -> (
        ReaderState,
        StartupState<E>,
    )
        decreases events.len(),
    {
        if events.len() == 0 {
            (reader, self)
        } else {
            let (reader, state) = self.after_all(reader, events.drop_last());
            state.after(reader, events.last().0, events.last().1)
        }
    }
}

/// The cursor position that a standard report gives.
pub fn standard_position(event: InternalEvent) -> (position: Option<(u16, u16)>)
    ensures
        position == spec_standard_position(event),
        event matches InternalEvent::CursorPosition(x, y) ==> position == Some((x, y)),
        event matches InternalEvent::CursorPositionOrF3(x, y, _) ==> position == Some((x, y)),
        !(event is CursorPosition) && !(event is CursorPositionOrF3) ==> position is None,
{
    match event {
        InternalEvent::CursorPosition(x, y) => Some((x, y)),
        InternalEvent::CursorPositionOrF3(x, y, _) => Some((x, y)),
        _ => None,
    }
}

impl StartupQuery {
    fn finish<E>(self, result: Result<TerminalStartupProbe, Error<E>>) -> (step: StartupStep<E>)
        ensures
            step@ == self.finished(result),
            self.guard.active ==> (step matches StartupStep::DisableRawMode(request)
                && request.result == result),
            !self.guard.active ==> step == StartupStep::Done(result),
    {
        if self.guard.active {
            StartupStep::DisableRawMode(DisableRequest { result })
        } else {
            StartupStep::Done(result)
        }
    }

    fn locate(&mut self, event: InternalEvent)
        ensures
            *final(self) == old(self).located(event),
    {
        if let Some(position) = standard_position(event) {
            self.state.cursor_position = Some(position);
        }
    }

    /// Goes on with the events that are queued.
    fn collect<E>(self, reader: &mut InternalEventReader, elapsed: Nanos) -> (step: StartupStep<E>)
        ensures
            (final(reader)@, step@) == self.collects::<E>(old(reader)@, elapsed),
    {
        let mut query = self;
        let filter = TerminalStartupProbeFilter {
            query_keyboard: query.keyboard_probe == KeyboardEnhancementProbe::Query,
        };
        loop
            invariant
                self.collects::<E>(old(reader)@, elapsed) == query.collects::<E>(reader@, elapsed),
                filter == query.filter(),
            decreases reader@.events.len(),
        {
            let complete = query.state.is_complete(query.keyboard_probe);
            let mut span = Nanos(0);
            if !complete {
                let remaining = remaining_timeout(elapsed, query.timeout);
                if remaining.is_zero() {
                    return query.finish(Ok(query.state.into_probe()));
                }
                let standard_cursor_after = query.timeout.half();
                let cursor_open = !query.standard_cursor_attempted
                    && query.state.cursor_position.is_none();
                if cursor_open && (query.state.only_cursor_is_missing(query.keyboard_probe)
                    || elapsed.0 >= standard_cursor_after.0) {
                    query.standard_cursor_attempted = true;
                    let held = reader.take_queued_events();
                    return StartupStep::SendQuery(
                        SendRequest { query, kind: QueryKind::StandardCursor, held },
                    );
                }
                span = if cursor_open {
                    remaining.min(standard_cursor_after.saturating_sub(elapsed))
                } else {
                    remaining
                };
            }
            let ghost before = reader@;
            match reader.poll::<TerminalStartupProbeFilter, E>(Some(span), elapsed, &filter) {
                PollStep::Done(Err(error)) => {
                    return query.finish(Err(error));
                },
                PollStep::TryRead(wait) => {
                    let stage = if complete {
                        Stage::Drain
                    } else {
                        Stage::Collect
                    };
                    return StartupStep::TryRead(
                        SourceRequest { query, stage, wait, held: VecDeque::new() },
                    );
                },
                PollStep::Done(Ok(_)) => {
                    proof {
                        law_first_accepted_is_first(accepting(filter), before.events);
                    }
                    match reader.read::<TerminalStartupProbeFilter, E>(&filter) {
                        ReadStep::Done(Ok(event)) => {
                            query.state.record(event);
                        },
                        _ => {
                            assert(false);
                        },
                    }
                },
            }
        }
    }
}

/// Begins a startup probe. Its timeout bounds locking the event reader, sending the queries
/// and waiting for the replies.
pub fn query_terminal_startup<E>(
    timeout: Nanos,
    keyboard_probe: KeyboardEnhancementProbe,
) -> (step: StartupStep<E>)
    ensures
        step@ == (StartupState::<E>::LockReader { timeout, keyboard_probe }),
{
    StartupStep::LockReader(LockRequest { timeout, keyboard_probe })
}

impl LockRequest {
    /// Goes on once the event reader was locked, or could not be in time. Without the reader
    /// or without time left, the terminal is not touched.
    pub fn reply<E>(self, locked: bool, elapsed: Nanos) -> (step: StartupStep<E>)
        ensures
            forall|reader: ReaderState|
                (reader, step@) == #[trigger] StartupStep::<E>::LockReader(self)@.after(
                    reader,
                    StartupEvent::Locked(locked),
                    elapsed,
                ),
            step@ == if !locked || self.timeout.minus(elapsed) == Nanos(0) {
                StartupState::<E>::Done(Ok(no_replies()))
            } else {
                StartupState::EnableRawMode {
                    timeout: self.timeout,
                    keyboard_probe: self.keyboard_probe,
                }
            },
    {
        if !locked {
            return StartupStep::Done(Ok(ProbeState::default().into_probe()));
        }
        if remaining_timeout(elapsed, self.timeout).is_zero() {
            return StartupStep::Done(Ok(ProbeState::default().into_probe()));
        }
        StartupStep::EnableRawMode(
            EnableRequest { timeout: self.timeout, keyboard_probe: self.keyboard_probe },
        )
    }
}

/// Begins the part of a startup probe that runs in raw mode.
pub fn query_terminal_startup_raw<E>(
    timeout: Nanos,
    keyboard_probe: KeyboardEnhancementProbe,
    guard: RawModeGuard,
    elapsed: Nanos,
) -> (step: StartupStep<E>)
    ensures
        step@ == asks::<E>(timeout, keyboard_probe, guard, elapsed),
{
    let query = StartupQuery {
        timeout,
        keyboard_probe,
        state: ProbeState::default(),
        standard_cursor_attempted: false,
        guard,
    };
    if remaining_timeout(elapsed, timeout).is_zero() {
        return query.finish(Ok(query.state.into_probe()));
    }
    StartupStep::SendQuery(SendRequest { query, kind: QueryKind::Startup, held: VecDeque::new() })
}

impl EnableRequest {
    /// Goes on once raw mode was switched on, with whether it had been off before.
    pub fn reply<E>(self, enabled: Result<bool, Failure<E>>, elapsed: Nanos) -> (step: StartupStep<
        E,
    >)
        ensures
            forall|reader: ReaderState|
                (reader, step@) == #[trigger] StartupStep::<E>::EnableRawMode(self)@.after(
                    reader,
                    StartupEvent::Enabled(enabled),
                    elapsed,
                ),
            step@ == match enabled {
                Err(failure) => StartupState::Done(Err(Error::Io(failure))),
                Ok(active) => asks(
                    self.timeout,
                    self.keyboard_probe,
                    RawModeGuard { active },
                    elapsed,
                ),
            },
    {
        match RawModeGuard::enable(enabled) {
            Err(error) => StartupStep::Done(Err(error)),
            Ok(guard) => query_terminal_startup_raw(
                self.timeout,
                self.keyboard_probe,
                guard,
                elapsed,
            ),
        }
    }
}

/// Goes on with the standard cursor position request once it was sent: waits for the report
/// apart from the events that came before, and puts those back in front of the queue in any
/// case.
pub fn query_standard_cursor_position<E>(
    query: StartupQuery,
    held: VecDeque<InternalEvent>,
    reader: &mut InternalEventReader,
    sent: Result<(), Error<E>>,
    elapsed: Nanos,
) -> (step: StartupStep<E>)
    ensures
        (final(reader)@, step@) == query.sent(
            QueryKind::StandardCursor,
            held@,
            old(reader)@,
            sent,
            elapsed,
        ),
{
    let mut query = query;
    if let Err(error) = sent {
        reader.prepend_queued_events(held);
        return query.finish(Err(error));
    }
    let remaining = remaining_timeout(elapsed, query.timeout);
    if remaining.is_zero() {
        reader.prepend_queued_events(held);
        return query.collect(reader, elapsed);
    }
    match reader.poll::<CursorPositionFilter, E>(Some(remaining), elapsed, &CursorPositionFilter) {
        PollStep::TryRead(wait) => StartupStep::TryRead(
            SourceRequest { query, stage: Stage::Cursor, wait, held },
        ),
        PollStep::Done(Err(error)) => {
            reader.prepend_queued_events(held);
            query.finish(Err(error))
        },
        PollStep::Done(Ok(_)) => {
            match reader.read::<CursorPositionFilter, E>(&CursorPositionFilter) {
                ReadStep::Done(Ok(event)) => {
                    query.locate(event);
                },
                _ => {
                    assert(false);
                },
            }
            reader.prepend_queued_events(held);
            query.collect(reader, elapsed)
        },
    }
}

impl SendRequest {
    /// The bytes to send.
    pub fn bytes(&self) -> (bytes: &'static [u8])
        ensures
            bytes@ == spec_query_bytes(self.kind, self.query.keyboard_probe),
    {
        query_bytes(self.kind, self.query.keyboard_probe)
    }

    /// Goes on once the query was sent, or could not be.
    pub fn reply<E>(
        self,
        reader: &mut InternalEventReader,
        sent: Result<(), Error<E>>,
        elapsed: Nanos,
    ) -> (step: StartupStep<E>)
        ensures
            (final(reader)@, step@) == StartupStep::<E>::SendQuery(self)@.after(
                old(reader)@,
                StartupEvent::Sent(sent),
                elapsed,
            ),
    {
        match self.kind {
            QueryKind::StandardCursor => query_standard_cursor_position(
                self.query,
                self.held,
                reader,
                sent,
                elapsed,
            ),
            QueryKind::Startup => {
                reader.prepend_queued_events(self.held);
                match sent {
                    Err(error) => self.query.finish(Err(error)),
                    Ok(()) => self.query.collect(reader, elapsed),
                }
            },
        }
    }
}

impl SourceRequest {
    /// Goes on after a reply of the source.
    pub fn reply<E>(
        self,
        reader: &mut InternalEventReader,
        reply: SourceReply<E>,
        elapsed: Nanos,
    ) -> (step: StartupStep<E>)
        ensures
            (final(reader)@, step@) == StartupStep::<E>::TryRead(self)@.after(
                old(reader)@,
                StartupEvent::Replied(reply),
                elapsed,
            ),
    {
        let mut query = self.query;
        let filter = TerminalStartupProbeFilter {
            query_keyboard: query.keyboard_probe == KeyboardEnhancementProbe::Query,
        };
        proof {
            law_found_event_is_read_at_once(
                reader@,
                accepting(CursorPositionFilter),
                self.wait,
                reply,
                elapsed,
            );
            law_found_event_is_read_at_once(
                reader@,
                accepting(filter),
                self.wait,
                reply,
                elapsed,
            );
        }
        let step = match self.stage {
            Stage::Cursor => reader.poll_reply(&CursorPositionFilter, self.wait, reply, elapsed),
            _ => reader.poll_reply(&filter, self.wait, reply, elapsed),
        };
        match step {
            PollStep::TryRead(wait) => StartupStep::TryRead(
                SourceRequest { query, stage: self.stage, wait, held: self.held },
            ),
            PollStep::Done(Err(error)) => {
                reader.prepend_queued_events(self.held);
                query.finish(Err(error))
            },
            PollStep::Done(Ok(false)) => {
                reader.prepend_queued_events(self.held);
                match self.stage {
                    Stage::Drain => query.finish(Ok(query.state.into_probe())),
                    _ => query.collect(reader, elapsed),
                }
            },
            PollStep::Done(Ok(true)) => {
                match self.stage {
                    Stage::Cursor => {
                        if let ReadStep::Done(Ok(event)) = reader.read::<CursorPositionFilter, E>(
                            &CursorPositionFilter,
                        ) {
                            query.locate(event);
                        }
                    },
                    _ => {
                        if let ReadStep::Done(Ok(event)) = reader.read::<
                            TerminalStartupProbeFilter,
                            E,
                        >(&filter) {
                            query.state.record(event);
                        }
                    },
                }
                reader.prepend_queued_events(self.held);
                query.collect(reader, elapsed)
            },
        }
    }
}

impl<E> DisableRequest<E> {
    /// Goes on once raw mode was switched off, or could not be.
    pub fn reply(self, disabled: Result<(), Failure<E>>) -> (step: StartupStep<E>)
        ensures
            forall|reader: ReaderState, elapsed: Nanos|
                (reader, step@) == #[trigger] StartupStep::<E>::DisableRawMode(self)@.after(
                    reader,
                    StartupEvent::Disabled(disabled),
                    elapsed,
                ),
            step@ == match disabled {
                Ok(()) => StartupState::Done(self.result),
                Err(failure) => StartupState::DisableRawModeAgain { error: Error::Io(failure) },
            },
    {
        let mut guard = RawModeGuard { active: true };
        match guard.restore(disabled) {
            Ok(()) => StartupStep::Done(self.result),
            Err(error) => StartupStep::DisableRawModeAgain(RetryRequest { error }),
        }
    }
}

impl<E> RetryRequest<E> {
    /// Ends once switching raw mode off was tried again, whatever came of it.
    pub fn reply(self) -> (step: StartupStep<E>)
        ensures
            forall|reader: ReaderState, elapsed: Nanos|
                (reader, step@) == #[trigger] StartupStep::<E>::DisableRawModeAgain(self)@.after(
                    reader,
                    StartupEvent::DisabledAgain,
                    elapsed,
                ),
            step@ == StartupState::<E>::Done(Err(self.error)),
    {
        StartupStep::Done(Err(self.error))
    }
}

} // verus!
