//! Reading events from a terminal whose readiness is reported on its edges: the terminal is
//! read until it has nothing left before readiness is waited for.

use crate::error::{Error, ErrorKind, Failure};
use crate::event::parser::ParserState;
use crate::event::source::{
    law_only_a_full_read_announces_more, resize_query, spec_resize_query, ResizeQuery, SourceState,
    TerminalRead, UnixInternalEventSource, WindowSize,
};
use crate::event::timeout::PollTimeout;
use crate::event::{Event, InternalEvent};
use crate::terminal::file_descriptor::{GuardStep, NonblockingGuard, SetFlagsRequest};
use crate::time::Nanos;
use vstd::prelude::*;

verus! {

/// What became ready.
#[derive(Clone, Copy, Debug, PartialEq, Eq, Structural)]
pub enum Ready {
    Terminal,
    Signal,
    Wake,
}

/// What a read of an event comes to.
pub enum Step<'a, E> {
    /// The read has ended, with an event or without one.
    Done(Result<Option<InternalEvent>, Error<E>>),
    /// The size of the terminal has to be asked for.
    QueryResize(ResizeRequest),
    /// The status flags of the terminal have to be asked for.
    GetFlags(FlagsRequest),
    /// The status flags of the terminal have to be set, so that a read does not wait.
    SetFlags(SetRequest),
    /// The terminal has to be read.
    ReadTerminal(ReadRequest),
    /// The status flags of the terminal have to be set back.
    RestoreFlags(RestoreRequest<'a, E>),
    /// Readiness has to be waited for, for as long as is left of the wait.
    Poll(PollRequest),
    /// The next pending signal has to be taken.
    NextSignal(SignalRequest),
}

/// Where a read goes on once the size was asked for.
#[derive(Clone, Copy, Debug, PartialEq, Eq)]
pub enum AfterResize {
    /// The wait has not begun yet.
    Begin(Option<Nanos>),
    /// The wait is under way.
    GoOn(PollTimeout),
}

/// A read that needs the size of the terminal.
#[derive(Clone, Copy, Debug, PartialEq, Eq)]
pub struct ResizeRequest {
    pub query: ResizeQuery,
    pub resume: AfterResize,
}

/// A read that needs the status flags of the terminal.
#[derive(Clone, Copy, Debug, PartialEq, Eq)]
pub struct FlagsRequest {
    pub wait: PollTimeout,
}

/// A read that needs the status flags of the terminal set.
#[derive(Clone, Copy, Debug, PartialEq, Eq)]
pub struct SetRequest {
    pub wait: PollTimeout,
    pub set: SetFlagsRequest,
}

/// A read that needs bytes of the terminal.
#[derive(Clone, Copy, Debug, PartialEq, Eq)]
pub struct ReadRequest {
    pub wait: PollTimeout,
    /// Keeps the terminal from waiting.
    pub guard: NonblockingGuard,
}

/// A read that has read the terminal and has to set its status flags back.
pub struct RestoreRequest<'a, E> {
    pub wait: PollTimeout,
    /// The flags to set.
    pub flags: i32,
    /// What the terminal brought.
    pub read: TerminalRead<'a, E>,
}

/// A read that waits for readiness.
#[derive(Clone, Copy, Debug, PartialEq, Eq)]
pub struct PollRequest {
    pub wait: PollTimeout,
}

/// A read that needs the next pending signal.
#[derive(Clone, Copy, Debug, PartialEq, Eq)]
pub struct SignalRequest {
    pub wait: PollTimeout,
}

/// The terminal is read again unless the wait is over.
pub open spec fn goes_on<'a, E>(wait: PollTimeout, now: Nanos) -> Step<'a, E> {
    if wait.over_at(now) {
        Step::Done(Ok(None))
    } else {
        Step::GetFlags(FlagsRequest { wait })
    }
}

/// The oldest event is handed out; without one the read goes on.
pub open spec fn hands_out<'a, E>(state: SourceState, wait: PollTimeout, now: Nanos) -> (
    SourceState,
    Step<'a, E>,
) {
    if state.parser.events.len() > 0 {
        (state.taken(), Step::Done(Ok(Some(state.parser.events[0]))))
    } else {
        (state, goes_on(wait, now))
    }
}

/// How a read begins: an event that was parsed before is handed out at once, and a change of
/// size that is still to be reported comes before further input.
pub open spec fn begins<'a, E>(state: SourceState, timeout: Option<Nanos>, now: Nanos) -> (
    SourceState,
    Step<'a, E>,
) {
    if state.parser.events.len() > 0 {
        (
            state.taken(),
            Step::<E>::Done(Ok(Some(state.parser.events[0]))),
        )
    } else if state.pending_resize {
        (
            state,
            Step::QueryResize(
                ResizeRequest {
                    query: spec_resize_query(timeout),
                    resume: AfterResize::Begin(timeout),
                },
            ),
        )
    } else {
        (state, Step::GetFlags(FlagsRequest { wait: PollTimeout { timeout, start: now } }))
    }
}

/// How a read goes on once the size was asked for.
pub open spec fn sized<'a, E>(
    request: ResizeRequest,
    state: SourceState,
    size: WindowSize<E>,
    now: Nanos,
) -> (SourceState, Step<'a, E>) {
    let (state, event) = state.resized(request.query, size);
    match event {
        Ok(Some(event)) => (state, Step::Done(Ok(Some(event)))),
        Err(error) => (state, Step::Done(Err(error))),
        Ok(None) => match request.resume {
            AfterResize::Begin(timeout) => (
                state,
                Step::GetFlags(FlagsRequest { wait: PollTimeout { timeout, start: now } }),
            ),
            AfterResize::GoOn(wait) => (state, goes_on(wait, now)),
        },
    }
}

/// How a read goes on while the terminal is kept from waiting: it is read once that is so.
pub open spec fn guarded<'a, E>(wait: PollTimeout, step: GuardStep<E>) -> Step<'a, E> {
    match step {
        GuardStep::Failed(failure) => Step::Done(Err(Error::Io(failure))),
        GuardStep::SetFlags(set) => Step::SetFlags(SetRequest { wait, set }),
        GuardStep::Ready(guard) => Step::ReadTerminal(ReadRequest { wait, guard }),
    }
}

/// Whether a decoder can bring a read from a state to another state and step by what was
/// read from the terminal. The end of the input ends the read; a terminal that has nothing
/// left has to be waited for; other bytes are parsed.
pub open spec fn reads_to<'a, E, X, D: Fn(&[u8], bool) -> Result<Option<InternalEvent>, X>>(
    state: SourceState,
    wait: PollTimeout,
    read: TerminalRead<'a, E>,
    now: Nanos,
    decode: &D,
    after: (SourceState, Step<'a, E>),
) -> bool {
    match read {
        TerminalRead::Bytes(bytes) => if bytes@.len() == 0 {
            after == (state, Step::<E>::Done(Ok(None)))
        } else {
            exists|parsed: SourceState| #[trigger]
                state.takes_in(bytes@, decode, parsed) && after == hands_out::<E>(parsed, wait, now)
        },
        TerminalRead::Failed(failure) => after == match failure.kind {
            ErrorKind::WouldBlock => (
                state,
                if wait.over_at(now) {
                    Step::Done(Ok(None))
                } else {
                    Step::Poll(PollRequest { wait })
                },
            ),
            ErrorKind::Interrupted => hands_out(state, wait, now),
            _ => (state, Step::Done(Err(Error::Io(failure)))),
        },
    }
}

/// The same with a guard: flags that it changed are set back before anything else.
pub open spec fn guarded_reads_to<
    'a,
    E,
    X,
    D: Fn(&[u8], bool) -> Result<Option<InternalEvent>, X>,
>(
    state: SourceState,
    request: ReadRequest,
    read: TerminalRead<'a, E>,
    now: Nanos,
    decode: &D,
    after: (SourceState, Step<'a, E>),
) -> bool {
    match request.guard.spec_flags_to_restore() {
        Some(flags) => after == (
            state,
            Step::RestoreFlags(RestoreRequest { wait: request.wait, flags, read }),
        ),
        None => reads_to(state, request.wait, read, now, decode, after),
    }
}

/// How a read goes on once readiness was waited for. A waker ends the read before anything
/// else that became ready counts.
pub open spec fn polled<'a, E>(
    wait: PollTimeout,
    ready: Result<Seq<Ready>, Failure<E>>,
    now: Nanos,
) -> Step<'a, E> {
    match ready {
        Err(failure) => if failure.kind == ErrorKind::Interrupted {
            goes_on(wait, now)
        } else {
            Step::Done(Err(Error::Io(failure)))
        },
        Ok(ready) => if ready.len() == 0 {
            Step::Done(Ok(None))
        } else if ready.contains(Ready::Wake) {
            Step::Done(Err(Error::WokenUp))
        } else if ready.contains(Ready::Signal) {
            Step::NextSignal(SignalRequest { wait })
        } else {
            goes_on(wait, now)
        },
    }
}

/// How a read goes on with the next pending signal, if there is one.
pub open spec fn signalled<'a, E>(
    wait: PollTimeout,
    signal: Option<i32>,
    winch: i32,
    now: Nanos,
) -> Step<'a, E> {
    if signal == Some(winch) {
        Step::QueryResize(
            ResizeRequest {
                query: spec_resize_query(wait.timeout),
                resume: AfterResize::GoOn(wait),
            },
        )
    } else {
        goes_on(wait, now)
    }
}

fn go_on<'a, E>(wait: PollTimeout, now: Nanos) -> (step: Step<'a, E>)
    ensures
        step == goes_on::<E>(wait, now),
{
    if wait.elapsed(now) {
        Step::Done(Ok(None))
    } else {
        Step::GetFlags(FlagsRequest { wait })
    }
}

fn hand_out<'a, E>(source: &mut UnixInternalEventSource, wait: PollTimeout, now: Nanos) -> (step:
    Step<'a, E>)
    ensures
        (final(source)@, step) == hands_out::<E>(old(source)@, wait, now),
{
    match source.parser.next() {
        Some(event) => Step::Done(Ok(Some(event))),
        None => go_on(wait, now),
    }
}

fn guard_step<'a, E>(wait: PollTimeout, step: GuardStep<E>) -> (next: Step<'a, E>)
    ensures
        next == guarded::<E>(wait, step),
{
    match step {
        GuardStep::Failed(failure) => Step::Done(Err(Error::Io(failure))),
        GuardStep::SetFlags(set) => Step::SetFlags(SetRequest { wait, set }),
        GuardStep::Ready(guard) => Step::ReadTerminal(ReadRequest { wait, guard }),
    }
}

fn take_in<'a, E, X, D: Fn(&[u8], bool) -> Result<Option<InternalEvent>, X>>(
    source: &mut UnixInternalEventSource,
    wait: PollTimeout,
    read: TerminalRead<'a, E>,
    now: Nanos,
    decode: &D,
) -> (step: Step<'a, E>)
    requires
        forall|bytes: &[u8], more: bool| #[trigger] call_requires(decode, (bytes, more)),
    ensures
        old(source)@.parser.well_formed() ==> final(source)@.parser.well_formed(),
        reads_to(old(source)@, wait, read, now, decode, (final(source)@, step)),
{
    match read {
        TerminalRead::Failed(failure) => match failure.kind {
            ErrorKind::WouldBlock => {
                if wait.elapsed(now) {
                    Step::Done(Ok(None))
                } else {
                    Step::Poll(PollRequest { wait })
                }
            },
            ErrorKind::Interrupted => hand_out(source, wait, now),
            _ => Step::Done(Err(Error::Io(failure))),
        },
        TerminalRead::Bytes(bytes) => {
            if bytes.len() == 0 {
                return Step::Done(Ok(None));
            }
            source.advance(bytes, decode);
            hand_out(source, wait, now)
        },
    }
}

fn is_among(ready: &[Ready], what: Ready) -> (found: bool)
    ensures
        found == ready@.contains(what),
{
    let mut idx: usize = 0;
    while idx < ready.len()
        invariant
            idx <= ready@.len(),
            forall|i: int| 0 <= i < idx ==> ready@[i] != what,
        decreases ready@.len() - idx,
    {
        if ready[idx] == what {
            assert(ready@[idx as int] == what);
            return true;
        }
        idx += 1;
    }
    false
}

/// Begins to read an event. One that was parsed before is handed out at once; a change of
/// size that is still to be reported comes before further input.
pub fn try_read<'a, E>(
    source: &mut UnixInternalEventSource,
    timeout: Option<Nanos>,
    now: Nanos,
) -> (step: Step<'a, E>)
    ensures
        (final(source)@, step) == begins::<E>(old(source)@, timeout, now),
{
    if let Some(event) = source.parser.next() {
        return Step::Done(Ok(Some(event)));
    }
    if source.pending_resize {
        return Step::QueryResize(
            ResizeRequest { query: resize_query(timeout), resume: AfterResize::Begin(timeout) },
        );
    }
    Step::GetFlags(FlagsRequest { wait: PollTimeout::new(timeout, now) })
}

impl ResizeRequest {
    /// Goes on once the size was asked for.
    pub fn reply<'a, E>(
        self,
        source: &mut UnixInternalEventSource,
        size: WindowSize<E>,
        now: Nanos,
    ) -> (step: Step<'a, E>)
        ensures
            (final(source)@, step) == sized(self, old(source)@, size, now),
            size matches Ok((columns, rows)) ==> step == Step::<E>::Done(
                Ok(Some(InternalEvent::Event(Event::Resize(columns, rows)))),
            ) && !final(source).pending_resize,
            final(source)@.parser == old(source)@.parser,
    {
        match source.read_resize(self.query, size) {
            Ok(Some(event)) => Step::Done(Ok(Some(event))),
            Err(error) => Step::Done(Err(error)),
            Ok(None) => match self.resume {
                AfterResize::Begin(timeout) => Step::GetFlags(
                    FlagsRequest { wait: PollTimeout::new(timeout, now) },
                ),
                AfterResize::GoOn(wait) => go_on(wait, now),
            },
        }
    }
}

impl FlagsRequest {
    /// Goes on once the status flags of the terminal were asked for. `nonblock` is the flag
    /// that keeps a descriptor from waiting.
    pub fn reply<'a, E>(self, flags: Result<i32, Failure<E>>, nonblock: i32) -> (step: Step<'a, E>)
        ensures
            step == guarded::<E>(self.wait, NonblockingGuard::begun(flags, nonblock)),
    {
        guard_step(self.wait, NonblockingGuard::new(flags, nonblock))
    }
}

impl SetRequest {
    /// Goes on once the status flags of the terminal were set, or could not be.
    pub fn reply<'a, E>(self, set: Result<(), Failure<E>>) -> (step: Step<'a, E>)
        ensures
            step == guarded::<E>(self.wait, self.set.replied(set)),
    {
        guard_step(self.wait, self.set.reply(set))
    }
}

impl ReadRequest {
    /// Goes on once the terminal was read. Flags that were changed for it are set back before
    /// anything else.
    pub fn reply<'a, E, X, D: Fn(&[u8], bool) -> Result<Option<InternalEvent>, X>>(
        self,
        source: &mut UnixInternalEventSource,
        read: TerminalRead<'a, E>,
        now: Nanos,
        decode: &D,
    ) -> (step: Step<'a, E>)
        requires
            forall|bytes: &[u8], more: bool| #[trigger] call_requires(decode, (bytes, more)),
        ensures
            old(source)@.parser.well_formed() ==> final(source)@.parser.well_formed(),
            guarded_reads_to(old(source)@, self, read, now, decode, (final(source)@, step)),
    {
        match self.guard.flags_to_restore() {
            Some(flags) => Step::RestoreFlags(RestoreRequest { wait: self.wait, flags, read }),
            None => take_in(source, self.wait, read, now, decode),
        }
    }
}

impl<'a, E> RestoreRequest<'a, E> {
    /// Goes on once the status flags of the terminal were set back: with what it brought.
    pub fn reply<X, D: Fn(&[u8], bool) -> Result<Option<InternalEvent>, X>>(
        self,
        source: &mut UnixInternalEventSource,
        now: Nanos,
        decode: &D,
    ) -> (step: Step<'a, E>)
        requires
            forall|bytes: &[u8], more: bool| #[trigger] call_requires(decode, (bytes, more)),
        ensures
            old(source)@.parser.well_formed() ==> final(source)@.parser.well_formed(),
            reads_to(old(source)@, self.wait, self.read, now, decode, (final(source)@, step)),
    {
        take_in(source, self.wait, self.read, now, decode)
    }
}

impl PollRequest {
    /// Goes on once readiness was waited for. A waker ends the read before anything else that
    /// became ready counts.
    pub fn reply<'a, E>(self, ready: Result<&[Ready], Failure<E>>, now: Nanos) -> (step: Step<
        'a,
        E,
    >)
        ensures
            step == polled(
                self.wait,
                match ready {
                    Ok(ready) => Ok(ready@),
                    Err(failure) => Err(failure),
                },
                now,
            ),
    {
        match ready {
            Err(failure) => {
                if failure.kind == ErrorKind::Interrupted {
                    go_on(self.wait, now)
                } else {
                    Step::Done(Err(Error::Io(failure)))
                }
            },
            Ok(ready) => {
                if ready.len() == 0 {
                    return Step::Done(Ok(None));
                }
                if is_among(ready, Ready::Wake) {
                    return Step::Done(Err(Error::WokenUp));
                }
                if is_among(ready, Ready::Signal) {
                    Step::NextSignal(SignalRequest { wait: self.wait })
                } else {
                    go_on(self.wait, now)
                }
            },
        }
    }
}

impl SignalRequest {
    /// Goes on with the next pending signal, if there is one. `winch` is the number of the
    /// signal that reports a change of size.
    pub fn reply<'a, E>(self, signal: Option<i32>, winch: i32, now: Nanos) -> (step: Step<'a, E>)
        ensures
            step == signalled::<E>(self.wait, signal, winch, now),
    {
        if let Some(signal) = signal {
            if signal == winch {
                return Step::QueryResize(
                    ResizeRequest {
                        query: resize_query(self.wait.timeout),
                        resume: AfterResize::GoOn(self.wait),
                    },
                );
            }
        }
        go_on(self.wait, now)
    }
}

/// Input that stays readable cannot keep a read from its deadline: once the wait is over,
/// whatever is read from the terminal ends the read, and neither the terminal is read nor
/// readiness waited for again. At most a signal that is pending already is still taken and
/// the size asked for, which ends the read too.
pub proof fn law_read_ends_at_deadline<
    'a,
    E,
    X,
    D: Fn(&[u8], bool) -> Result<Option<InternalEvent>, X>,
>(
    state: SourceState,
    wait: PollTimeout,
    now: Nanos,
    read: TerminalRead<'a, E>,
    decode: &D,
    after: (SourceState, Step<'a, E>),
    ready: Result<Seq<Ready>, Failure<E>>,
    signal: Option<i32>,
    winch: i32,
    query: ResizeQuery,
    size: WindowSize<E>,
)
    requires
        wait.over_at(now),
    ensures
        reads_to(state, wait, read, now, decode, after) ==> after.1 is Done,
        polled(wait, ready, now) is Done || polled(wait, ready, now) is NextSignal,
        signalled::<E>(wait, signal, winch, now) is Done || signalled::<E>(
            wait,
            signal,
            winch,
            now,
        ) is QueryResize,
        sized(
            ResizeRequest { query, resume: AfterResize::GoOn(wait) },
            state,
            size,
            now,
        ).1 is Done,
{
}

/// Readiness is waited for only when the terminal was read until it had nothing left, and
/// only while there is time left of the same wait.
pub proof fn law_terminal_is_drained_before_waiting<
    'a,
    E,
    X,
    D: Fn(&[u8], bool) -> Result<Option<InternalEvent>, X>,
>(
    state: SourceState,
    wait: PollTimeout,
    now: Nanos,
    read: TerminalRead<'a, E>,
    decode: &D,
    after: (SourceState, Step<'a, E>),
    ready: Result<Seq<Ready>, Failure<E>>,
    signal: Option<i32>,
    winch: i32,
    request: ResizeRequest,
    size: WindowSize<E>,
    timeout: Option<Nanos>,
)
    ensures
        reads_to(state, wait, read, now, decode, after) && after.1 is Poll ==> {
            &&& read is Failed
            &&& read->Failed_0.kind == ErrorKind::WouldBlock
            &&& after.1 == Step::<E>::Poll(PollRequest { wait })
            &&& !wait.over_at(now)
        },
        !(begins::<E>(state, timeout, now).1 is Poll),
        !(polled(wait, ready, now) is Poll),
        !(signalled::<E>(wait, signal, winch, now) is Poll),
        !(sized(request, state, size, now).1 is Poll),
{
}

/// Events come out in the order they were parsed, none twice and none left out: one that is
/// handed out is the oldest and leaves the others as they are, and where none is handed out
/// none is lost.
pub proof fn law_parsed_events_come_out_in_order<E>(
    state: SourceState,
    wait: PollTimeout,
    timeout: Option<Nanos>,
    now: Nanos,
)
    ensures
        match hands_out::<E>(state, wait, now) {
            (after, Step::Done(Ok(Some(event)))) => state.parser.events == seq![event]
                + after.parser.events,
            (after, _) => after == state,
        },
        match begins::<E>(state, timeout, now) {
            (after, Step::Done(Ok(Some(event)))) => state.parser.events == seq![event]
                + after.parser.events,
            (after, _) => after == state && state.parser.events.len() == 0,
        },
{
    if state.parser.events.len() > 0 {
        assert(state.parser.events =~= seq![state.parser.events[0]]
            + state.parser.events.drop_first());
    }
}

/// A change of size whose size could not be had in a bounded way is asked for again by the
/// next read that has no parsed event to hand out, and a read with a timeout asks for it in
/// a bounded way again.
pub proof fn law_deferred_resize_is_asked_again<E>(
    state: SourceState,
    failure: Failure<E>,
    timeout: Option<Nanos>,
    now: Nanos,
)
    requires
        state.parser.events.len() == 0,
    ensures
        ({
            let (deferred, event) = state.resized(ResizeQuery::Bounded, Err(failure));
            &&& event == Ok::<Option<InternalEvent>, Error<E>>(None)
            &&& begins::<E>(deferred, timeout, now).1 == Step::<E>::QueryResize(
                ResizeRequest {
                    query: if timeout is Some {
                        ResizeQuery::Bounded
                    } else {
                        ResizeQuery::Unbounded
                    },
                    resume: AfterResize::Begin(timeout),
                },
            )
        }),
{
}

/// What the outside reports during a read.
pub enum Report<'a, E> {
    /// The size of the terminal, or that it could not be had.
    Sized(WindowSize<E>),
    /// The status flags of the terminal, or that they could not be had.
    Flags(Result<i32, Failure<E>>),
    /// The status flags were set so that the terminal does not wait, or could not be.
    FlagsSet(Result<(), Failure<E>>),
    /// What the terminal brought.
    Read(TerminalRead<'a, E>),
    /// The status flags were set back.
    Restored,
    /// What became ready, or that this could not be told.
    Polled(Result<Seq<Ready>, Failure<E>>),
    /// The next pending signal, if there is one.
    Signalled(Option<i32>),
}

/// Whether a report brings a read from a state and step to others. A report that was not
/// asked for changes nothing.
pub open spec fn leads_to<'a, E, X, D: Fn(&[u8], bool) -> Result<Option<InternalEvent>, X>>(
    before: (SourceState, Step<'a, E>),
    report: (Report<'a, E>, Nanos),
    nonblock: i32,
    winch: i32,
    decode: &D,
    after: (SourceState, Step<'a, E>),
) -> bool {
    let (state, now) = (before.0, report.1);
    match (before.1, report.0) {
        (Step::QueryResize(request), Report::Sized(size)) => after == sized(
            request,
            state,
            size,
            now,
        ),
        (Step::GetFlags(request), Report::Flags(flags)) => after == (
            state,
            guarded(request.wait, NonblockingGuard::begun(flags, nonblock)),
        ),
        (Step::SetFlags(request), Report::FlagsSet(set)) => after == (
            state,
            guarded(request.wait, request.set.replied(set)),
        ),
        (Step::ReadTerminal(request), Report::Read(read)) => guarded_reads_to(
            state,
            request,
            read,
            now,
            decode,
            after,
        ),
        (Step::RestoreFlags(request), Report::Restored) => reads_to(
            state,
            request.wait,
            request.read,
            now,
            decode,
            after,
        ),
        (Step::Poll(request), Report::Polled(ready)) => after == (
            state,
            polled(request.wait, ready, now),
        ),
        (Step::NextSignal(request), Report::Signalled(signal)) => after == (
            state,
            signalled::<E>(request.wait, signal, winch, now),
        ),
        _ => after == before,
    }
}

/// Whether a sequence of states and steps is a run of one read, from its begin on, with the
/// given reports, each with the clock when it came.
pub open spec fn is_run<'a, E, X, D: Fn(&[u8], bool) -> Result<Option<InternalEvent>, X>>(
    run: Seq<(SourceState, Step<'a, E>)>,
    reports: Seq<(Report<'a, E>, Nanos)>,
    nonblock: i32,
    winch: i32,
    decode: &D,
) -> bool {
    &&& run.len() == reports.len() + 1
    &&& exists|state: SourceState, timeout: Option<Nanos>, now: Nanos|
        run[0] == #[trigger] begins::<E>(state, timeout, now)
    &&& forall|i: int|
        0 <= i < reports.len() ==> leads_to(
            run[i],
            #[trigger] reports[i],
            nonblock,
            winch,
            decode,
            run[i + 1],
        )
}

/// The status flags of the terminal at a point of a run, if they are the given ones at its
/// begin and nobody else changes them.
pub open spec fn flags_at<'a, E>(
    flags: i32,
    run: Seq<(SourceState, Step<'a, E>)>,
    reports: Seq<(Report<'a, E>, Nanos)>,
    at: nat,
) -> i32
    decreases at,
{
    if at == 0 {
        flags
    } else {
        let before = flags_at(flags, run, reports, (at - 1) as nat);
        match (run[at - 1].1, reports[at - 1].0) {
            (Step::SetFlags(request), Report::FlagsSet(Ok(_))) => request.set.flags,
            (Step::RestoreFlags(request), Report::Restored) => request.flags,
            _ => before,
        }
    }
}

/// Whether a report about the status flags at a point of a run is true.
pub open spec fn flags_are_true<'a, E>(
    flags: i32,
    run: Seq<(SourceState, Step<'a, E>)>,
    reports: Seq<(Report<'a, E>, Nanos)>,
    at: nat,
) -> bool {
    match (run[at as int].1, reports[at as int].0) {
        (Step::GetFlags(_), Report::Flags(Ok(reported))) => reported == flags_at(
            flags,
            run,
            reports,
            at,
        ),
        _ => true,
    }
}

/// The status flags of the terminal are as they were on every return of a read, be it with an
/// event, without one or with an error, and whenever the read waits or does anything else
/// than reading the terminal. While it reads the terminal, the terminal does not wait.
pub proof fn law_flags_are_left_as_they_were<
    'a,
    E,
    X,
    D: Fn(&[u8], bool) -> Result<Option<InternalEvent>, X>,
>(
    flags: i32,
    run: Seq<(SourceState, Step<'a, E>)>,
    reports: Seq<(Report<'a, E>, Nanos)>,
    nonblock: i32,
    winch: i32,
    decode: &D,
    at: nat,
)
    requires
        nonblock != 0,
        is_run(run, reports, nonblock, winch, decode),
        forall|i: nat| i < reports.len() ==> #[trigger] flags_are_true(flags, run, reports, i),
        at < run.len(),
    ensures
        ({
            let current = flags_at(flags, run, reports, at);
            match run[at as int].1 {
                Step::ReadTerminal(request) => {
                    &&& current & nonblock != 0
                    &&& match request.guard.spec_flags_to_restore() {
                        Some(original) => original == flags,
                        None => current == flags,
                    }
                },
                Step::RestoreFlags(request) => request.flags == flags,
                Step::SetFlags(request) => {
                    &&& current == flags
                    &&& request.set.original_flags == flags
                    &&& request.set.flags == flags | nonblock
                },
                _ => current == flags,
            }
        }),
    decreases at,
{
    if at > 0 {
        let before = (at - 1) as nat;
        law_flags_are_left_as_they_were(flags, run, reports, nonblock, winch, decode, before);
        assert(flags_are_true(flags, run, reports, before));
        assert(leads_to(run[at - 1], reports[at - 1], nonblock, winch, decode, run[at as int]));
        assert((flags | nonblock) & nonblock == nonblock) by (bit_vector);
    }
}

/// Once the size was asked for and could be had, the read ends at once with the change to that
/// size, however it was asked for, wherever the read would have gone on and whatever the
/// clock, and the change is not owed any longer.
pub proof fn law_known_size_ends_the_read<E>(
    request: ResizeRequest,
    state: SourceState,
    columns: u16,
    rows: u16,
    now: Nanos,
)
    ensures
        ({
            let (after, step) = sized::<E>(request, state, Ok((columns, rows)), now);
            &&& step == Step::<E>::Done(
                Ok(Some(InternalEvent::Event(Event::Resize(columns, rows)))),
            )
            &&& !after.pending_resize
            &&& after.parser == state.parser
        }),
{
}

/// A size that could not be had ends the read with that error if it was asked for in any way.
/// Asked for in a bounded way it stays owed, and the read goes on where it was: one under way
/// ends if its wait is over, and a new one begins to wait now.
pub proof fn law_unknown_size_is_owed<E>(
    state: SourceState,
    failure: Failure<E>,
    wait: PollTimeout,
    timeout: Option<Nanos>,
    resume: AfterResize,
    now: Nanos,
)
    ensures
        sized(ResizeRequest { query: ResizeQuery::Unbounded, resume }, state, Err(failure), now)
            == (state, Step::<E>::Done(Err(Error::Io(failure)))),
        ({
            let request = ResizeRequest {
                query: ResizeQuery::Bounded,
                resume: AfterResize::GoOn(wait),
            };
            let (after, step) = sized(request, state, Err(failure), now);
            &&& after.pending_resize && after.parser == state.parser
            &&& wait.over_at(now) ==> step == Step::<E>::Done(Ok(None))
            &&& !wait.over_at(now) ==> step == Step::<E>::GetFlags(FlagsRequest { wait })
        }),
        ({
            let request = ResizeRequest {
                query: ResizeQuery::Bounded,
                resume: AfterResize::Begin(timeout),
            };
            let (after, step) = sized(request, state, Err(failure), now);
            &&& after.pending_resize && after.parser == state.parser
            &&& step == Step::<E>::GetFlags(
                FlagsRequest { wait: PollTimeout { timeout, start: now } },
            )
        }),
{
}

/// A change of size that is signalled is reported: whenever the signal is among what became
/// ready and no waker is, the next pending signal is taken; if it is the one for the size, the
/// size is asked for; and if that can be had, the read ends with it. This holds with every
/// timeout and whatever time has gone by.
pub proof fn law_signalled_size_is_reported<E>(
    state: SourceState,
    wait: PollTimeout,
    ready: Seq<Ready>,
    winch: i32,
    columns: u16,
    rows: u16,
    polled_at: Nanos,
    signalled_at: Nanos,
    sized_at: Nanos,
)
    requires
        ready.contains(Ready::Signal),
        !ready.contains(Ready::Wake),
    ensures
        polled::<E>(wait, Ok(ready), polled_at) == Step::<E>::NextSignal(SignalRequest { wait }),
        signalled::<E>(wait, Some(winch), winch, signalled_at) matches Step::QueryResize(request)
            && {
            let (after, step) = sized::<E>(request, state, Ok((columns, rows)), sized_at);
            &&& wait.timeout is Some ==> request.query == ResizeQuery::Bounded
            &&& wait.timeout is None ==> request.query == ResizeQuery::Unbounded
            &&& request.resume == AfterResize::GoOn(wait)
            &&& step == Step::<E>::Done(
                Ok(Some(InternalEvent::Event(Event::Resize(columns, rows)))),
            )
            &&& !after.pending_resize
        },
{
}

/// What was waited for decides alone: nothing ready ends the read without an event, a waker
/// ends it as woken up, a failure other than an interruption is the result, and in all other
/// cases without a signal the terminal is read again as long as there is time. A signal other
/// than the one for the size, or none, counts for nothing.
pub proof fn law_what_readiness_leads_to<E>(
    wait: PollTimeout,
    ready: Seq<Ready>,
    failure: Failure<E>,
    signal: Option<i32>,
    winch: i32,
    now: Nanos,
)
    ensures
        ready.len() == 0 ==> polled::<E>(wait, Ok(ready), now) == Step::<E>::Done(Ok(None)),
        ready.contains(Ready::Wake) ==> polled::<E>(wait, Ok(ready), now) == Step::<E>::Done(
            Err(Error::WokenUp),
        ),
        failure.kind != ErrorKind::Interrupted ==> polled(wait, Err(failure), now) == Step::<
            E,
        >::Done(Err(Error::Io(failure))),
        ({
            let goes = Step::<E>::GetFlags(FlagsRequest { wait });
            let ends = Step::<E>::Done(Ok(None));
            let next = if wait.over_at(now) {
                ends
            } else {
                goes
            };
            &&& failure.kind == ErrorKind::Interrupted ==> polled(wait, Err(failure), now) == next
            &&& ready.len() > 0 && !ready.contains(Ready::Wake) && !ready.contains(Ready::Signal)
                ==> polled::<E>(wait, Ok(ready), now) == next
            &&& signal != Some(winch) ==> signalled::<E>(wait, signal, winch, now) == next
        }),
{
}

/// A read begins with what is there: with the oldest event that was parsed before, whatever is
/// owed and however little time there is; otherwise with the size that is owed; and otherwise
/// by reading the terminal, with a wait of the whole timeout from now on.
pub proof fn law_read_begins_with_what_is_there<E>(
    state: SourceState,
    timeout: Option<Nanos>,
    now: Nanos,
)
    ensures
        state.parser.events.len() > 0 ==> {
            let (after, step) = begins::<E>(state, timeout, now);
            &&& step == Step::<E>::Done(Ok(Some(state.parser.events[0])))
            &&& after.parser == (ParserState {
                events: state.parser.events.drop_first(),
                ..state.parser
            })
            &&& after.pending_resize == state.pending_resize
        },
        state.parser.events.len() == 0 && state.pending_resize ==> begins::<E>(state, timeout, now)
            == (
            state,
            Step::<E>::QueryResize(
                ResizeRequest {
                    query: if timeout is Some {
                        ResizeQuery::Bounded
                    } else {
                        ResizeQuery::Unbounded
                    },
                    resume: AfterResize::Begin(timeout),
                },
            ),
        ),
        state.parser.events.len() == 0 && !state.pending_resize ==> begins::<E>(state, timeout, now)
            == (
            state,
            Step::<E>::GetFlags(FlagsRequest { wait: PollTimeout { timeout, start: now } }),
        ),
{
}

/// The terminal is read only once it cannot wait, and its flags are set back before what it
/// brought counts: a missing flag is added and taken away again, one that is set is left
/// alone, and a failure to have or set the flags is the result.
pub proof fn law_terminal_is_kept_from_waiting<
    'a,
    E,
    X,
    D: Fn(&[u8], bool) -> Result<Option<InternalEvent>, X>,
>(
    state: SourceState,
    wait: PollTimeout,
    flags: i32,
    nonblock: i32,
    failure: Failure<E>,
    read: TerminalRead<'a, E>,
    now: Nanos,
    decode: &D,
    after: (SourceState, Step<'a, E>),
)
    ensures
        guarded::<E>(wait, NonblockingGuard::begun(Err(failure), nonblock)) == Step::<E>::Done(
            Err(Error::Io(failure)),
        ),
        flags & nonblock == 0 ==> {
            let set = SetFlagsRequest { original_flags: flags, flags: flags | nonblock };
            let guard = NonblockingGuard { original_flags: flags, changed: true };
            let request = ReadRequest { wait, guard };
            &&& guarded::<E>(wait, NonblockingGuard::begun(Ok(flags), nonblock)) == Step::<
                E,
            >::SetFlags(SetRequest { wait, set })
            &&& guarded::<E>(wait, set.replied(Ok(()))) == Step::<E>::ReadTerminal(request)
            &&& guarded::<E>(wait, set.replied(Err(failure))) == Step::<E>::Done(
                Err(Error::Io(failure)),
            )
            &&& guarded_reads_to(state, request, read, now, decode, after) ==> after == (
                state,
                Step::<E>::RestoreFlags(RestoreRequest { wait, flags, read }),
            )
        },
        flags & nonblock != 0 ==> {
            let guard = NonblockingGuard { original_flags: flags, changed: false };
            let request = ReadRequest { wait, guard };
            &&& guarded::<E>(wait, NonblockingGuard::begun(Ok(flags), nonblock)) == Step::<
                E,
            >::ReadTerminal(request)
            &&& guarded_reads_to(state, request, read, now, decode, after) ==> reads_to(
                state,
                wait,
                read,
                now,
                decode,
                after,
            )
        },
{
}

/// What the terminal brought decides what follows: the bytes of a read are parsed, with more
/// to follow exactly after a full one, and the oldest event is handed out at once; without an
/// event the terminal is read again as long as there is time. No bytes end the read without
/// an event. A terminal that would have to wait is waited for as long as there is time, an
/// interruption leads to another read, and any other failure is the result.
pub proof fn law_what_the_terminal_brought_leads_to<
    'a,
    E,
    X,
    D: Fn(&[u8], bool) -> Result<Option<InternalEvent>, X>,
>(
    state: SourceState,
    wait: PollTimeout,
    read: TerminalRead<'a, E>,
    now: Nanos,
    decode: &D,
    after: (SourceState, Step<'a, E>),
)
    requires
        reads_to(state, wait, read, now, decode, after),
    ensures
        read matches TerminalRead::Bytes(bytes) ==> {
            &&& bytes@.len() == 0 ==> after == (state, Step::<E>::Done(Ok(None)))
            &&& bytes@.len() > 0 ==> exists|parsed: ParserState|
                {
                    &&& bytes@.len() != 1_024 ==> state.parser.advances_to(
                        bytes@,
                        false,
                        decode,
                        parsed,
                    )
                    &&& bytes@.len() == 1_024 ==> state.parser.advances_to(
                        bytes@,
                        true,
                        decode,
                        parsed,
                    )
                    &&& after.0.pending_resize == state.pending_resize
                    &&& (#[trigger] parsed.events).len() > 0 ==> {
                        &&& after.1 == Step::<E>::Done(Ok(Some(parsed.events[0])))
                        &&& after.0.parser == (ParserState {
                            events: parsed.events.drop_first(),
                            ..parsed
                        })
                    }
                    &&& parsed.events.len() == 0 ==> {
                        &&& after.0.parser == parsed
                        &&& wait.over_at(now) ==> after.1 == Step::<E>::Done(Ok(None))
                        &&& !wait.over_at(now) ==> after.1 == Step::<E>::GetFlags(
                            FlagsRequest { wait },
                        )
                    }
                }
        },
        read matches TerminalRead::Failed(failure) ==> {
            &&& failure.kind == ErrorKind::WouldBlock ==> {
                &&& after.0 == state
                &&& wait.over_at(now) ==> after.1 == Step::<E>::Done(Ok(None))
                &&& !wait.over_at(now) ==> after.1 == Step::<E>::Poll(PollRequest { wait })
            }
            &&& failure.kind == ErrorKind::Interrupted && state.parser.events.len() == 0 ==> {
                &&& after.0 == state
                &&& wait.over_at(now) ==> after.1 == Step::<E>::Done(Ok(None))
                &&& !wait.over_at(now) ==> after.1 == Step::<E>::GetFlags(FlagsRequest { wait })
            }
            &&& failure.kind == ErrorKind::Interrupted && state.parser.events.len() > 0 ==> {
                &&& after.0.pending_resize == state.pending_resize
                &&& after.0.parser == (ParserState {
                    events: state.parser.events.drop_first(),
                    ..state.parser
                })
                &&& after.1 == Step::<E>::Done(Ok(Some(state.parser.events[0])))
            }
            &&& failure.kind != ErrorKind::WouldBlock && failure.kind != ErrorKind::Interrupted
                ==> after == (state, Step::<E>::Done(Err(Error::Io(failure))))
        },
{
    if let TerminalRead::Bytes(bytes) = read {
        if bytes@.len() > 0 {
            let source = choose|source: SourceState| #[trigger]
                state.takes_in(bytes@, decode, source) && after == hands_out::<E>(
                    source,
                    wait,
                    now,
                );
            law_only_a_full_read_announces_more(state, bytes@, decode, source);
            let parsed = source.parser;
            assert(parsed.events.len() >= 0);
        }
    }
}

/// Whatever the guard is, the terminal is read with it once it is in place. Flags that it
/// changed are set back to what it remembers before anything else, with what the terminal
/// brought kept as it is; where it changed none, what the terminal brought counts at once.
pub proof fn law_guard_is_gone_before_the_bytes_count<
    'a,
    E,
    X,
    D: Fn(&[u8], bool) -> Result<Option<InternalEvent>, X>,
>(
    state: SourceState,
    wait: PollTimeout,
    guard: NonblockingGuard,
    set: SetFlagsRequest,
    failure: Failure<E>,
    read: TerminalRead<'a, E>,
    now: Nanos,
    decode: &D,
    after: (SourceState, Step<'a, E>),
)
    ensures
        guarded::<E>(wait, GuardStep::Failed(failure)) == Step::<E>::Done(
            Err(Error::Io(failure)),
        ),
        guarded::<E>(wait, GuardStep::SetFlags(set)) == Step::<E>::SetFlags(
            SetRequest { wait, set },
        ),
        guarded::<E>(wait, GuardStep::Ready(guard)) == Step::<E>::ReadTerminal(
            ReadRequest { wait, guard },
        ),
        guarded_reads_to(
            state,
            ReadRequest { wait, guard },
            read,
            now,
            decode,
            after,
        ) <==> if guard.changed {
            after == (
                state,
                Step::<E>::RestoreFlags(
                    RestoreRequest { wait, flags: guard.original_flags, read },
                ),
            )
        } else {
            reads_to(state, wait, read, now, decode, after)
        },
{
}

} // verus!
