//! Reading events from a terminal whose readiness is polled for together with a pipe that
//! reports changes of size and a pipe that ends the wait.

use crate::error::{Error, ErrorKind, Failure};
use crate::event::parser::{law_last_byte_of_a_run, ParserState};
use crate::event::source::{
    law_only_a_full_read_announces_more, resize_query, spec_resize_query, ResizeQuery, SourceState,
    TerminalRead, UnixInternalEventSource, WindowSize,
};
use crate::event::timeout::PollTimeout;
use crate::event::{Event, InternalEvent};
use crate::terminal::file_descriptor::{GuardStep, NonblockingGuard, SetFlagsRequest};
use crate::time::Nanos;
use vstd::prelude::*;

verus! {

/// Which descriptors can be read.
#[derive(Clone, Copy, Debug, PartialEq, Eq, Structural)]
pub struct Readiness {
    pub terminal: bool,
    /// The pipe that reports changes of size.
    pub winch: bool,
    /// The pipe that ends the wait.
    pub wake: bool,
}

impl Readiness {
    /// Reads the event bits that a poll returned for each descriptor; `readable` is the bit
    /// that stands for input.
    pub fn from_revents(terminal: i16, winch: i16, wake: i16, readable: i16) -> (ready: Readiness)
        ensures
            ready.terminal == (terminal & readable != 0),
            ready.winch == (winch & readable != 0),
            ready.wake == (wake & readable != 0),
    {
        Readiness {
            terminal: terminal & readable != 0,
            winch: winch & readable != 0,
            wake: wake & readable != 0,
        }
    }
}

/// Why descriptors could not be polled.
#[derive(Clone, Copy, Debug, PartialEq, Eq)]
pub enum PollFailure<E> {
    /// The call failed.
    Io(Failure<E>),
    /// The poll failed for another reason.
    Unexpected(E),
}

/// How many bytes of a pipe are read at once.
pub const PIPE_BUFFER_SIZE: usize = 1_024;

/// What a read of an event comes to.
pub enum Step<'a, E> {
    /// The read has ended, with an event or without one.
    Done(Result<Option<InternalEvent>, Error<E>>),
    /// The size of the terminal has to be asked for.
    QueryResize(ResizeRequest),
    /// Readiness has to be waited for, for as long as is left of the wait.
    Poll(PollRequest),
    /// The status flags of the terminal have to be asked for.
    GetFlags(FlagsRequest),
    /// The status flags of the terminal have to be set, so that a read does not wait.
    SetFlags(SetRequest),
    /// The terminal has to be read.
    ReadTerminal(ReadRequest),
    /// The status flags of the terminal have to be set back.
    RestoreFlags(RestoreRequest<'a, E>),
    /// The pipe that reports changes of size has to be read.
    DrainWinch(WinchRequest),
    /// The pipe that ends the wait has to be read.
    DrainWake(WakeRequest),
}

/// Where a read goes on once the size was asked for.
#[derive(Clone, Copy, Debug, PartialEq, Eq)]
pub enum AfterResize {
    /// The wait has not begun yet.
    Begin(Option<Nanos>),
    /// The wait is under way.
    GoOn(PollTimeout),
}

/// A read that needs the size of the terminal.
#[derive(Clone, Copy, Debug, PartialEq, Eq)]
pub struct ResizeRequest {
    pub query: ResizeQuery,
    pub resume: AfterResize,
}

/// A read that waits for readiness.
#[derive(Clone, Copy, Debug, PartialEq, Eq)]
pub struct PollRequest {
    pub wait: PollTimeout,
}

/// A read that needs the status flags of the terminal.
#[derive(Clone, Copy, Debug, PartialEq, Eq)]
pub struct FlagsRequest {
    pub wait: PollTimeout,
    /// What else was ready.
    pub ready: Readiness,
}

/// A read that needs the status flags of the terminal set.
#[derive(Clone, Copy, Debug, PartialEq, Eq)]
pub struct SetRequest {
    pub wait: PollTimeout,
    pub ready: Readiness,
    pub set: SetFlagsRequest,
}

/// A read that needs bytes of the terminal.
#[derive(Clone, Copy, Debug, PartialEq, Eq)]
pub struct ReadRequest {
    pub wait: PollTimeout,
    pub ready: Readiness,
    /// Keeps the terminal from waiting.
    pub guard: NonblockingGuard,
}

/// A read that has read the terminal and has to set its status flags back.
pub struct RestoreRequest<'a, E> {
    pub wait: PollTimeout,
    pub ready: Readiness,
    /// The flags to set.
    pub flags: i32,
    /// What the terminal brought.
    pub read: TerminalRead<'a, E>,
}

/// A read that empties the pipe that reports changes of size.
#[derive(Clone, Copy, Debug, PartialEq, Eq)]
pub struct WinchRequest {
    pub wait: PollTimeout,
    /// How much of the buffer is filled; the next bytes go behind that.
    pub filled: usize,
}

/// A read that empties the pipe that ends the wait.
#[derive(Clone, Copy, Debug, PartialEq, Eq)]
pub struct WakeRequest {
    pub wait: PollTimeout,
    /// How much of the buffer is filled; the next bytes go behind that.
    pub filled: usize,
}

/// One turn of the wait: nothing more once no time is left, then an event that was parsed
/// before, then another poll.
pub open spec fn turns<'a, E>(state: SourceState, wait: PollTimeout, now: Nanos) -> (
    SourceState,
    Step<'a, E>,
) {
    if wait.left_at(now) == Some(Nanos(0)) {
        (state, Step::Done(Ok(None)))
    } else if state.parser.events.len() > 0 {
        (state.taken(), Step::Done(Ok(Some(state.parser.events[0]))))
    } else {
        (state, Step::Poll(PollRequest { wait }))
    }
}

/// What follows once the terminal needs no attention.
pub open spec fn attends_pipes<'a, E>(
    state: SourceState,
    wait: PollTimeout,
    ready: Readiness,
    now: Nanos,
) -> (SourceState, Step<'a, E>) {
    if ready.winch {
        (state, Step::DrainWinch(WinchRequest { wait, filled: 0 }))
    } else if ready.wake {
        (state, Step::DrainWake(WakeRequest { wait, filled: 0 }))
    } else {
        turns(state, wait, now)
    }
}

/// What follows once the bytes of a read are parsed.
pub open spec fn hands_out<'a, E>(
    state: SourceState,
    wait: PollTimeout,
    ready: Readiness,
    now: Nanos,
) -> (SourceState, Step<'a, E>) {
    if state.parser.events.len() > 0 {
        (state.taken(), Step::Done(Ok(Some(state.parser.events[0]))))
    } else {
        attends_pipes(state, wait, ready, now)
    }
}

/// How a read begins: an event that was parsed before is handed out at once, and a change of
/// size that is still to be reported comes before further input.
pub open spec fn begins<'a, E>(state: SourceState, timeout: Option<Nanos>, now: Nanos) -> (
    SourceState,
    Step<'a, E>,
) {
    if state.parser.events.len() > 0 {
        (
            state.taken(),
            Step::<E>::Done(Ok(Some(state.parser.events[0]))),
        )
    } else if state.pending_resize {
        (
            state,
            Step::QueryResize(
                ResizeRequest {
                    query: spec_resize_query(timeout),
                    resume: AfterResize::Begin(timeout),
                },
            ),
        )
    } else {
        turns(state, PollTimeout { timeout, start: now }, now)
    }
}

/// How a read goes on once the size was asked for.
pub open spec fn sized<'a, E>(
    request: ResizeRequest,
    state: SourceState,
    size: WindowSize<E>,
    now: Nanos,
) -> (SourceState, Step<'a, E>) {
    let (state, event) = state.resized(request.query, size);
    match event {
        Ok(Some(event)) => (state, Step::Done(Ok(Some(event)))),
        Err(error) => (state, Step::Done(Err(error))),
        Ok(None) => match request.resume {
            AfterResize::Begin(timeout) => turns(state, PollTimeout { timeout, start: now }, now),
            AfterResize::GoOn(wait) => turns(state, wait, now),
        },
    }
}

/// How a read goes on once readiness was waited for. The terminal comes first.
pub open spec fn polled<'a, E>(
    state: SourceState,
    wait: PollTimeout,
    ready: Result<Readiness, PollFailure<E>>,
    now: Nanos,
) -> (SourceState, Step<'a, E>) {
    match ready {
        Err(PollFailure::Unexpected(error)) => (
            state,
            Step::Done(Err(Error::UnexpectedPoll(error))),
        ),
        Err(PollFailure::Io(failure)) => if failure.kind == ErrorKind::Interrupted {
            turns(state, wait, now)
        } else {
            (state, Step::Done(Err(Error::Io(failure))))
        },
        Ok(ready) => if ready.terminal {
            (state, Step::GetFlags(FlagsRequest { wait, ready }))
        } else {
            attends_pipes(state, wait, ready, now)
        },
    }
}

/// How a read goes on while the terminal is kept from waiting: it is read once that is so.
pub open spec fn guarded<'a, E>(
    wait: PollTimeout,
    ready: Readiness,
    step: GuardStep<E>,
) -> Step<'a, E> {
    match step {
        GuardStep::Failed(failure) => Step::Done(Err(Error::Io(failure))),
        GuardStep::SetFlags(set) => Step::SetFlags(SetRequest { wait, ready, set }),
        GuardStep::Ready(guard) => Step::ReadTerminal(ReadRequest { wait, ready, guard }),
    }
}

/// Whether a decoder can bring a read from a state to another state and step by what was
/// read from the terminal. A read that would have to wait, since the bytes went elsewhere,
/// leads back to the poll.
pub open spec fn reads_to<'a, E, X, D: Fn(&[u8], bool) -> Result<Option<InternalEvent>, X>>(
    state: SourceState,
    wait: PollTimeout,
    ready: Readiness,
    read: TerminalRead<'a, E>,
    now: Nanos,
    decode: &D,
    after: (SourceState, Step<'a, E>),
) -> bool {
    match read {
        TerminalRead::Bytes(bytes) => exists|parsed: SourceState| #[trigger]
            state.takes_in(bytes@, decode, parsed) && after == hands_out::<E>(
                parsed,
                wait,
                ready,
                now,
            ),
        TerminalRead::Failed(failure) => after == match failure.kind {
            ErrorKind::WouldBlock | ErrorKind::Interrupted => turns(state, wait, now),
            _ => (state, Step::Done(Err(Error::Io(failure)))),
        },
    }
}

/// The same with a guard: flags that it changed are set back before anything else.
pub open spec fn guarded_reads_to<
    'a,
    E,
    X,
    D: Fn(&[u8], bool) -> Result<Option<InternalEvent>, X>,
>(
    state: SourceState,
    request: ReadRequest,
    read: TerminalRead<'a, E>,
    now: Nanos,
    decode: &D,
    after: (SourceState, Step<'a, E>),
) -> bool {
    match request.guard.spec_flags_to_restore() {
        Some(flags) => after == (
            state,
            Step::RestoreFlags(
                RestoreRequest { wait: request.wait, ready: request.ready, flags, read },
            ),
        ),
        None => reads_to(state, request.wait, request.ready, read, now, decode, after),
    }
}

/// What reading from a pipe that must not wait comes to.
pub enum PipeStep<E> {
    /// The buffer is full or the pipe has nothing left: so many bytes were read in all. Or
    /// reading failed.
    Done(Result<usize, Failure<E>>),
    /// The pipe has to be read again, into the buffer behind what is filled of it.
    ReadMore { filled: usize },
}

/// What filling a buffer comes to after one read: it ends once the buffer is full, at the end
/// of the input and when the pipe would have to wait, and goes on after an interruption.
pub open spec fn spec_read_complete<E>(
    filled: usize,
    capacity: usize,
    read: Result<usize, Failure<E>>,
) -> PipeStep<E> {
    match read {
        Ok(count) => if count == 0 || filled + count == capacity {
            PipeStep::Done(Ok((filled + count) as usize))
        } else {
            PipeStep::ReadMore { filled: (filled + count) as usize }
        },
        Err(failure) => match failure.kind {
            ErrorKind::WouldBlock => PipeStep::Done(Ok(filled)),
            ErrorKind::Interrupted => PipeStep::ReadMore { filled },
            _ => PipeStep::Done(Err(failure)),
        },
    }
}

/// Goes on with filling a buffer from a pipe that must not wait, after one read into what is
/// left of the buffer.
pub fn read_complete<E>(filled: usize, capacity: usize, read: Result<usize, Failure<E>>) -> (step:
    PipeStep<E>)
    requires
        filled <= capacity,
        read matches Ok(count) ==> count <= capacity - filled,
    ensures
        step == spec_read_complete(filled, capacity, read),
        read matches Ok(count) ==> (count == 0 || filled + count == capacity ==> (step
            matches PipeStep::Done(Ok(all)) && all == filled + count)),
        read matches Ok(count) ==> (count > 0 && filled + count < capacity ==> (step
            matches PipeStep::ReadMore { filled: now_filled } && now_filled == filled + count)),
{
    match read {
        Ok(count) => {
            let filled: usize = filled + count;
            if count == 0 || filled == capacity {
                PipeStep::Done(Ok(filled))
            } else {
                PipeStep::ReadMore { filled }
            }
        },
        Err(failure) => match failure.kind {
            ErrorKind::WouldBlock => PipeStep::Done(Ok(filled)),
            ErrorKind::Interrupted => PipeStep::ReadMore { filled },
            _ => PipeStep::Done(Err(failure)),
        },
    }
}

/// How a read goes on after one read from the pipe that reports changes of size. The pipe is
/// read until it is empty; then the size is asked for.
pub open spec fn winch_read<'a, E>(
    request: WinchRequest,
    read: Result<usize, Failure<E>>,
) -> Step<'a, E> {
    match spec_read_complete(request.filled, PIPE_BUFFER_SIZE, read) {
        PipeStep::ReadMore { filled } => Step::DrainWinch(WinchRequest { filled, ..request }),
        PipeStep::Done(Err(failure)) => Step::Done(Err(Error::Io(failure))),
        PipeStep::Done(Ok(count)) => if count != 0 {
            Step::DrainWinch(WinchRequest { filled: 0, ..request })
        } else {
            Step::QueryResize(
                ResizeRequest {
                    query: spec_resize_query(request.wait.timeout),
                    resume: AfterResize::GoOn(request.wait),
                },
            )
        },
    }
}

/// How a read goes on after one read from the pipe that ends the wait. The pipe is read until
/// it is empty; then the read ends.
pub open spec fn wake_read<'a, E>(
    request: WakeRequest,
    read: Result<usize, Failure<E>>,
) -> Step<'a, E> {
    match spec_read_complete(request.filled, PIPE_BUFFER_SIZE, read) {
        PipeStep::ReadMore { filled } => Step::DrainWake(WakeRequest { filled, ..request }),
        PipeStep::Done(Err(failure)) => Step::Done(Err(Error::Io(failure))),
        PipeStep::Done(Ok(count)) => if count != 0 {
            Step::DrainWake(WakeRequest { filled: 0, ..request })
        } else {
            Step::Done(Err(Error::WokenUp))
        },
    }
}

/// What forgetting the input comes to.
pub enum ClearStep {
    /// The input is forgotten.
    Done,
    /// The pipe that reports changes of size has to be read.
    DrainWinch(ClearRequest),
}

/// Forgetting the input, with the pipe that reports changes of size to be emptied.
#[derive(Clone, Copy, Debug, PartialEq, Eq, Structural)]
pub struct ClearRequest {
    /// How much of the buffer is filled; the next bytes go behind that.
    pub filled: usize,
}

fn turn<'a, E>(source: &mut UnixInternalEventSource, wait: PollTimeout, now: Nanos) -> (step: Step<'a, E>)
    ensures
        (final(source)@, step) == turns::<E>(old(source)@, wait, now),
{
    if let Some(left) = wait.leftover(now) {
        if left.is_zero() {
            return Step::Done(Ok(None));
        }
    }
    match source.parser.next() {
        Some(event) => Step::Done(Ok(Some(event))),
        None => Step::Poll(PollRequest { wait }),
    }
}

fn attend_pipes<'a, E>(
    source: &mut UnixInternalEventSource,
    wait: PollTimeout,
    ready: Readiness,
    now: Nanos,
) -> (step: Step<'a, E>)
    ensures
        (final(source)@, step) == attends_pipes::<E>(old(source)@, wait, ready, now),
{
    if ready.winch {
        Step::DrainWinch(WinchRequest { wait, filled: 0 })
    } else if ready.wake {
        Step::DrainWake(WakeRequest { wait, filled: 0 })
    } else {
        turn(source, wait, now)
    }
}

fn guard_step<'a, E>(wait: PollTimeout, ready: Readiness, step: GuardStep<E>) -> (next: Step<'a, E>)
    ensures
        next == guarded::<E>(wait, ready, step),
{
    match step {
        GuardStep::Failed(failure) => Step::Done(Err(Error::Io(failure))),
        GuardStep::SetFlags(set) => Step::SetFlags(SetRequest { wait, ready, set }),
        GuardStep::Ready(guard) => Step::ReadTerminal(ReadRequest { wait, ready, guard }),
    }
}

fn take_in<'a, E, X, D: Fn(&[u8], bool) -> Result<Option<InternalEvent>, X>>(
    source: &mut UnixInternalEventSource,
    wait: PollTimeout,
    ready: Readiness,
    read: TerminalRead<'a, E>,
    now: Nanos,
    decode: &D,
) -> (step: Step<'a, E>)
    requires
        forall|bytes: &[u8], more: bool| #[trigger] call_requires(decode, (bytes, more)),
    ensures
        old(source)@.parser.well_formed() ==> final(source)@.parser.well_formed(),
        reads_to(old(source)@, wait, ready, read, now, decode, (final(source)@, step)),
{
    match read {
        TerminalRead::Failed(failure) => match failure.kind {
            ErrorKind::WouldBlock => turn(source, wait, now),
            ErrorKind::Interrupted => turn(source, wait, now),
            _ => Step::Done(Err(Error::Io(failure))),
        },
        TerminalRead::Bytes(bytes) => {
            source.advance(bytes, decode);
            match source.parser.next() {
                Some(event) => Step::Done(Ok(Some(event))),
                None => attend_pipes(source, wait, ready, now),
            }
        },
    }
}

/// Begins to read an event. One that was parsed before is handed out at once; a change of
/// size that is still to be reported comes before further input.
pub fn try_read<'a, E>(
    source: &mut UnixInternalEventSource,
    timeout: Option<Nanos>,
    now: Nanos,
) -> (step: Step<'a, E>)
    ensures
        (final(source)@, step) == begins::<E>(old(source)@, timeout, now),
{
    if let Some(event) = source.parser.next() {
        return Step::Done(Ok(Some(event)));
    }
    if source.pending_resize {
        return Step::QueryResize(
            ResizeRequest { query: resize_query(timeout), resume: AfterResize::Begin(timeout) },
        );
    }
    turn(source, PollTimeout::new(timeout, now), now)
}

impl ResizeRequest {
    /// Goes on once the size was asked for.
    pub fn reply<'a, E>(
        self,
        source: &mut UnixInternalEventSource,
        size: WindowSize<E>,
        now: Nanos,
    ) -> (step: Step<'a, E>)
        ensures
            (final(source)@, step) == sized(self, old(source)@, size, now),
            size matches Ok((columns, rows)) ==> step == Step::<E>::Done(
                Ok(Some(InternalEvent::Event(Event::Resize(columns, rows)))),
            ) && !final(source).pending_resize,
    {
        match source.read_resize(self.query, size) {
            Ok(Some(event)) => Step::Done(Ok(Some(event))),
            Err(error) => Step::Done(Err(error)),
            Ok(None) => match self.resume {
                AfterResize::Begin(timeout) => turn(source, PollTimeout::new(timeout, now), now),
                AfterResize::GoOn(wait) => turn(source, wait, now),
            },
        }
    }
}

impl PollRequest {
    /// Goes on once readiness was waited for. The terminal comes first.
    pub fn reply<'a, E>(
        self,
        source: &mut UnixInternalEventSource,
        ready: Result<Readiness, PollFailure<E>>,
        now: Nanos,
    ) -> (step: Step<'a, E>)
        ensures
            (final(source)@, step) == polled(old(source)@, self.wait, ready, now),
    {
        match ready {
            Err(PollFailure::Unexpected(error)) => Step::Done(Err(Error::UnexpectedPoll(error))),
            Err(PollFailure::Io(failure)) => {
                if failure.kind == ErrorKind::Interrupted {
                    turn(source, self.wait, now)
                } else {
                    Step::Done(Err(Error::Io(failure)))
                }
            },
            Ok(ready) => {
                if ready.terminal {
                    Step::GetFlags(FlagsRequest { wait: self.wait, ready })
                } else {
                    attend_pipes(source, self.wait, ready, now)
                }
            },
        }
    }
}

impl FlagsRequest {
    /// Goes on once the status flags of the terminal were asked for. `nonblock` is the flag
    /// that keeps a descriptor from waiting.
    pub fn reply<'a, E>(self, flags: Result<i32, Failure<E>>, nonblock: i32) -> (step: Step<'a, E>)
        ensures
            step == guarded::<E>(self.wait, self.ready, NonblockingGuard::begun(flags, nonblock)),
    {
        guard_step(self.wait, self.ready, NonblockingGuard::new(flags, nonblock))
    }
}

impl SetRequest {
    /// Goes on once the status flags of the terminal were set, or could not be.
    pub fn reply<'a, E>(self, set: Result<(), Failure<E>>) -> (step: Step<'a, E>)
        ensures
            step == guarded::<E>(self.wait, self.ready, self.set.replied(set)),
    {
        guard_step(self.wait, self.ready, self.set.reply(set))
    }
}

impl ReadRequest {
    /// Goes on once the terminal was read. Flags that were changed for it are set back before
    /// anything else.
    pub fn reply<'a, E, X, D: Fn(&[u8], bool) -> Result<Option<InternalEvent>, X>>(
        self,
        source: &mut UnixInternalEventSource,
        read: TerminalRead<'a, E>,
        now: Nanos,
        decode: &D,
    ) -> (step: Step<'a, E>)
        requires
            forall|bytes: &[u8], more: bool| #[trigger] call_requires(decode, (bytes, more)),
        ensures
            old(source)@.parser.well_formed() ==> final(source)@.parser.well_formed(),
            guarded_reads_to(old(source)@, self, read, now, decode, (final(source)@, step)),
    {
        match self.guard.flags_to_restore() {
            Some(flags) => Step::RestoreFlags(
                RestoreRequest { wait: self.wait, ready: self.ready, flags, read },
            ),
            None => take_in(source, self.wait, self.ready, read, now, decode),
        }
    }
}

impl<'a, E> RestoreRequest<'a, E> {
    /// Goes on once the status flags of the terminal were set back: with what it brought.
    pub fn reply<X, D: Fn(&[u8], bool) -> Result<Option<InternalEvent>, X>>(
        self,
        source: &mut UnixInternalEventSource,
        now: Nanos,
        decode: &D,
    ) -> (step: Step<'a, E>)
        requires
            forall|bytes: &[u8], more: bool| #[trigger] call_requires(decode, (bytes, more)),
        ensures
            old(source)@.parser.well_formed() ==> final(source)@.parser.well_formed(),
            reads_to(
                old(source)@,
                self.wait,
                self.ready,
                self.read,
                now,
                decode,
                (final(source)@, step),
            ),
    {
        take_in(source, self.wait, self.ready, self.read, now, decode)
    }
}

impl WinchRequest {
    /// Goes on once the pipe was read into what is left of the buffer.
    pub fn reply<'a, E>(self, read: Result<usize, Failure<E>>) -> (step: Step<'a, E>)
        requires
            self.filled <= PIPE_BUFFER_SIZE,
            read matches Ok(count) ==> count <= PIPE_BUFFER_SIZE - self.filled,
        ensures
            step == winch_read::<E>(self, read),
    {
        match read_complete(self.filled, PIPE_BUFFER_SIZE, read) {
            PipeStep::ReadMore { filled } => Step::DrainWinch(
                WinchRequest { wait: self.wait, filled },
            ),
            PipeStep::Done(Err(failure)) => Step::Done(Err(Error::Io(failure))),
            PipeStep::Done(Ok(count)) => {
                if count != 0 {
                    return Step::DrainWinch(WinchRequest { wait: self.wait, filled: 0 });
                }
                Step::QueryResize(
                    ResizeRequest {
                        query: resize_query(self.wait.timeout),
                        resume: AfterResize::GoOn(self.wait),
                    },
                )
            },
        }
    }
}

impl WakeRequest {
    /// Goes on once the pipe was read into what is left of the buffer.
    pub fn reply<'a, E>(self, read: Result<usize, Failure<E>>) -> (step: Step<'a, E>)
        requires
            self.filled <= PIPE_BUFFER_SIZE,
            read matches Ok(count) ==> count <= PIPE_BUFFER_SIZE - self.filled,
        ensures
            step == wake_read::<E>(self, read),
    {
        match read_complete(self.filled, PIPE_BUFFER_SIZE, read) {
            PipeStep::ReadMore { filled } => Step::DrainWake(
                WakeRequest { wait: self.wait, filled },
            ),
            PipeStep::Done(Err(failure)) => Step::Done(Err(Error::Io(failure))),
            PipeStep::Done(Ok(count)) => {
                if count != 0 {
                    return Step::DrainWake(WakeRequest { wait: self.wait, filled: 0 });
                }
                Step::Done(Err(Error::WokenUp))
            },
        }
    }
}

/// Forgets all input that was not handed out yet, a change of size that is still to be
/// reported and those in the pipe among it.
pub fn clear(source: &mut UnixInternalEventSource) -> (step: ClearStep)
    ensures
        final(source)@ == old(source)@.cleared(),
        step == ClearStep::DrainWinch(ClearRequest { filled: 0 }),
{
    source.clear();
    ClearStep::DrainWinch(ClearRequest { filled: 0 })
}

/// How forgetting the input goes on after one read from the pipe that reports changes of
/// size. The pipe is read until it is empty or fails.
pub open spec fn clear_read<E>(
    request: ClearRequest,
    read: Result<usize, Failure<E>>,
) -> ClearStep {
    match spec_read_complete(request.filled, PIPE_BUFFER_SIZE, read) {
        PipeStep::ReadMore { filled } => ClearStep::DrainWinch(ClearRequest { filled }),
        PipeStep::Done(Err(_)) => ClearStep::Done,
        PipeStep::Done(Ok(count)) => if count != 0 {
            ClearStep::DrainWinch(ClearRequest { filled: 0 })
        } else {
            ClearStep::Done
        },
    }
}

impl ClearRequest {
    /// Goes on once the pipe was read into what is left of the buffer.
    pub fn reply<E>(self, read: Result<usize, Failure<E>>) -> (step: ClearStep)
        requires
            self.filled <= PIPE_BUFFER_SIZE,
            read matches Ok(count) ==> count <= PIPE_BUFFER_SIZE - self.filled,
        ensures
            step == clear_read(self, read),
    {
        match read_complete(self.filled, PIPE_BUFFER_SIZE, read) {
            PipeStep::ReadMore { filled } => ClearStep::DrainWinch(ClearRequest { filled }),
            PipeStep::Done(Err(_)) => ClearStep::Done,
            PipeStep::Done(Ok(count)) => {
                if count != 0 {
                    ClearStep::DrainWinch(ClearRequest { filled: 0 })
                } else {
                    ClearStep::Done
                }
            },
        }
    }
}

/// Input that stays readable cannot keep a read from its deadline: readiness is waited for
/// only while there is time left of the same wait, whatever the read comes from.
pub proof fn law_read_ends_at_deadline<
    'a,
    E,
    X,
    D: Fn(&[u8], bool) -> Result<Option<InternalEvent>, X>,
>(
    state: SourceState,
    wait: PollTimeout,
    rest: Readiness,
    now: Nanos,
    read: TerminalRead<'a, E>,
    decode: &D,
    after: (SourceState, Step<'a, E>),
    ready: Result<Readiness, PollFailure<E>>,
    query: ResizeQuery,
    size: WindowSize<E>,
)
    ensures
        ({
            let resume = AfterResize::GoOn(wait);
            let read_again = Step::<E>::Poll(PollRequest { wait });
            &&& wait.over_at(now) ==> turns::<E>(state, wait, now) == (
                state,
                Step::<E>::Done(Ok(None)),
            )
            &&& reads_to(state, wait, rest, read, now, decode, after) && after.1 is Poll ==> after.1
                == read_again && !wait.over_at(now)
            &&& polled(state, wait, ready, now).1 is Poll ==> polled(state, wait, ready, now).1
                == read_again && !wait.over_at(now)
            &&& sized(ResizeRequest { query, resume }, state, size, now).1 is Poll ==> sized(
                ResizeRequest { query, resume },
                state,
                size,
                now,
            ).1 == read_again && !wait.over_at(now)
        }),
{
}

/// Events come out in the order they were parsed, none twice and none left out: one that is
/// handed out is the oldest and leaves the others as they are, and where none is handed out
/// none is lost.
pub proof fn law_parsed_events_come_out_in_order<E>(
    state: SourceState,
    wait: PollTimeout,
    ready: Readiness,
    timeout: Option<Nanos>,
    now: Nanos,
)
    ensures
        match turns::<E>(state, wait, now) {
            (after, Step::Done(Ok(Some(event)))) => state.parser.events == seq![event]
                + after.parser.events,
            (after, _) => after == state,
        },
        match hands_out::<E>(state, wait, ready, now) {
            (after, Step::Done(Ok(Some(event)))) => state.parser.events == seq![event]
                + after.parser.events,
            (after, _) => after == state && state.parser.events.len() == 0,
        },
        match begins::<E>(state, timeout, now) {
            (after, Step::Done(Ok(Some(event)))) => state.parser.events == seq![event]
                + after.parser.events,
            (after, _) => after == state && state.parser.events.len() == 0,
        },
{
    if state.parser.events.len() > 0 {
        assert(state.parser.events =~= seq![state.parser.events[0]]
            + state.parser.events.drop_first());
    }
}

/// A change of size whose size could not be had in a bounded way is asked for again by the
/// next read that has no parsed event to hand out, and a read with a timeout asks for it in
/// a bounded way again.
pub proof fn law_deferred_resize_is_asked_again<E>(
    state: SourceState,
    failure: Failure<E>,
    timeout: Option<Nanos>,
    now: Nanos,
)
    requires
        state.parser.events.len() == 0,
    ensures
        ({
            let (deferred, event) = state.resized(ResizeQuery::Bounded, Err(failure));
            &&& event == Ok::<Option<InternalEvent>, Error<E>>(None)
            &&& begins::<E>(deferred, timeout, now).1 == Step::<E>::QueryResize(
                ResizeRequest {
                    query: if timeout is Some {
                        ResizeQuery::Bounded
                    } else {
                        ResizeQuery::Unbounded
                    },
                    resume: AfterResize::Begin(timeout),
                },
            )
        }),
{
}

/// What filling a buffer comes to over a run of reads, each given by the bytes it brought.
/// Reads after the end count for nothing.
pub open spec fn read_complete_run<E>(capacity: usize, reads: Seq<Result<Seq<u8>, Failure<E>>>) -> PipeStep<
    E,
>
    decreases reads.len(),
{
    if reads.len() == 0 {
        PipeStep::ReadMore { filled: 0 }
    } else {
        match read_complete_run(capacity, reads.drop_last()) {
            PipeStep::Done(result) => PipeStep::Done(result),
            PipeStep::ReadMore { filled } => spec_read_complete(
                filled,
                capacity,
                match reads.last() {
                    Ok(bytes) => Ok(bytes.len() as usize),
                    Err(failure) => Err(failure),
                },
            ),
        }
    }
}

/// The buffer after a run of reads, each of which puts its bytes behind what was filled
/// before.
pub open spec fn buffer_after<E>(buffer: Seq<u8>, reads: Seq<Result<Seq<u8>, Failure<E>>>) -> Seq<u8>
    decreases reads.len(),
{
    if reads.len() == 0 {
        buffer
    } else {
        let before = buffer_after(buffer, reads.drop_last());
        let filled = bytes_read(reads.drop_last()).len() as int;
        match reads.last() {
            Ok(bytes) => before.take(filled) + bytes + before.skip(filled + bytes.len()),
            Err(_) => before,
        }
    }
}

/// All bytes that a run of reads brought, in their order.
pub open spec fn bytes_read<E>(reads: Seq<Result<Seq<u8>, Failure<E>>>) -> Seq<u8>
    decreases reads.len(),
{
    if reads.len() == 0 {
        Seq::empty()
    } else {
        match reads.last() {
            Ok(bytes) => bytes_read(reads.drop_last()) + bytes,
            Err(_) => bytes_read(reads.drop_last()),
        }
    }
}

/// Whether no read of a run brings more than fits into what is left of a buffer.
pub open spec fn reads_fit<E>(capacity: usize, reads: Seq<Result<Seq<u8>, Failure<E>>>) -> bool
    decreases reads.len(),
{
    reads.len() == 0 || {
        &&& reads_fit(capacity, reads.drop_last())
        &&& bytes_read(reads).len() <= capacity
    }
}

/// A buffer is filled with everything that is read, up to its capacity and in order: as long
/// as it goes on and when it ends with success, the filled part of the buffer is all that was
/// read. It ends with success exactly when the buffer is full, at the end of the input or
/// when the pipe would have to wait, and goes on after an interruption.
pub proof fn law_read_complete_fills_the_buffer<E>(
    buffer: Seq<u8>,
    capacity: usize,
    reads: Seq<Result<Seq<u8>, Failure<E>>>,
)
    requires
        buffer.len() == capacity,
        reads_fit(capacity, reads),
        reads.len() > 0 ==> read_complete_run(capacity, reads.drop_last()) is ReadMore,
    ensures
        ({
            let step = read_complete_run(capacity, reads);
            let read = bytes_read(reads);
            let after = buffer_after(buffer, reads);
            &&& after.len() == capacity
            &&& after.take(read.len() as int) == read
            &&& after.skip(read.len() as int) == buffer.skip(read.len() as int)
            &&& step matches PipeStep::ReadMore { filled } ==> filled == read.len()
            &&& step matches PipeStep::Done(Ok(count)) ==> count == read.len()
            &&& reads.len() > 0 ==> {
                let ended = match reads.last() {
                    Ok(bytes) => bytes.len() == 0 || read.len() == capacity,
                    Err(failure) => failure.kind == ErrorKind::WouldBlock,
                };
                let failed = reads.last() is Err && reads.last()->Err_0.kind
                    != ErrorKind::WouldBlock && reads.last()->Err_0.kind != ErrorKind::Interrupted;
                &&& (step is Done && step->Done_0 is Ok) == ended
                &&& (step is Done && step->Done_0 is Err) == failed
            }
        }),
    decreases reads.len(),
{
    if reads.len() == 0 {
        assert(buffer.take(0) =~= Seq::<u8>::empty());
        assert(buffer.skip(0) =~= buffer);
    } else {
        let earlier = reads.drop_last();
        if earlier.len() > 0 {
            assert(read_complete_run(capacity, earlier.drop_last()) is ReadMore);
        }
        law_read_complete_fills_the_buffer(buffer, capacity, earlier);
        let before = buffer_after(buffer, earlier);
        let filled = bytes_read(earlier).len() as int;
        if let Ok(bytes) = reads.last() {
            let after = buffer_after(buffer, reads);
            let read = bytes_read(reads);
            assert(after.take(read.len() as int) =~= before.take(filled) + bytes);
            assert forall|i: int| 0 <= i < capacity - read.len() implies #[trigger] after.skip(
                read.len() as int,
            )[i] == buffer.skip(read.len() as int)[i] by {
                assert(before.skip(filled)[bytes.len() + i] == buffer.skip(filled)[bytes.len()
                    + i]);
            }
            assert(after.skip(read.len() as int) =~= buffer.skip(read.len() as int));
        }
    }
}

/// What the outside reports during a read.
pub enum Report<'a, E> {
    /// The size of the terminal, or that it could not be had.
    Sized(WindowSize<E>),
    /// What became ready, or that this could not be told.
    Polled(Result<Readiness, PollFailure<E>>),
    /// The status flags of the terminal, or that they could not be had.
    Flags(Result<i32, Failure<E>>),
    /// The status flags were set so that the terminal does not wait, or could not be.
    FlagsSet(Result<(), Failure<E>>),
    /// What the terminal brought.
    Read(TerminalRead<'a, E>),
    /// The status flags were set back.
    Restored,
    /// How many bytes a pipe brought, or that it could not be read.
    PipeRead(Result<usize, Failure<E>>),
}

/// Whether a report brings a read from a state and step to others. A report that was not
/// asked for changes nothing.
pub open spec fn leads_to<'a, E, X, D: Fn(&[u8], bool) -> Result<Option<InternalEvent>, X>>(
    before: (SourceState, Step<'a, E>),
    report: (Report<'a, E>, Nanos),
    nonblock: i32,
    decode: &D,
    after: (SourceState, Step<'a, E>),
) -> bool {
    let (state, now) = (before.0, report.1);
    match (before.1, report.0) {
        (Step::QueryResize(request), Report::Sized(size)) => after == sized(
            request,
            state,
            size,
            now,
        ),
        (Step::Poll(request), Report::Polled(ready)) => after == polled(
            state,
            request.wait,
            ready,
            now,
        ),
        (Step::GetFlags(request), Report::Flags(flags)) => after == (
            state,
            guarded(request.wait, request.ready, NonblockingGuard::begun(flags, nonblock)),
        ),
        (Step::SetFlags(request), Report::FlagsSet(set)) => after == (
            state,
            guarded(request.wait, request.ready, request.set.replied(set)),
        ),
        (Step::ReadTerminal(request), Report::Read(read)) => guarded_reads_to(
            state,
            request,
            read,
            now,
            decode,
            after,
        ),
        (Step::RestoreFlags(request), Report::Restored) => reads_to(
            state,
            request.wait,
            request.ready,
            request.read,
            now,
            decode,
            after,
        ),
        (Step::DrainWinch(request), Report::PipeRead(read)) => after == (
            state,
            winch_read(request, read),
        ),
        (Step::DrainWake(request), Report::PipeRead(read)) => after == (
            state,
            wake_read(request, read),
        ),
        _ => after == before,
    }
}

/// Whether a sequence of states and steps is a run of one read, from its begin on, with the
/// given reports, each with the clock when it came.
pub open spec fn is_run<'a, E, X, D: Fn(&[u8], bool) -> Result<Option<InternalEvent>, X>>(
    run: Seq<(SourceState, Step<'a, E>)>,
    reports: Seq<(Report<'a, E>, Nanos)>,
    nonblock: i32,
    decode: &D,
) -> bool {
    &&& run.len() == reports.len() + 1
    &&& exists|state: SourceState, timeout: Option<Nanos>, now: Nanos|
        run[0] == #[trigger] begins::<E>(state, timeout, now)
    &&& forall|i: int|
        0 <= i < reports.len() ==> leads_to(
            run[i],
            #[trigger] reports[i],
            nonblock,
            decode,
            run[i + 1],
        )
}

/// The status flags of the terminal at a point of a run, if they are the given ones at its
/// begin and nobody else changes them.
pub open spec fn flags_at<'a, E>(
    flags: i32,
    run: Seq<(SourceState, Step<'a, E>)>,
    reports: Seq<(Report<'a, E>, Nanos)>,
    at: nat,
) -> i32
    decreases at,
{
    if at == 0 {
        flags
    } else {
        let before = flags_at(flags, run, reports, (at - 1) as nat);
        match (run[at - 1].1, reports[at - 1].0) {
            (Step::SetFlags(request), Report::FlagsSet(Ok(_))) => request.set.flags,
            (Step::RestoreFlags(request), Report::Restored) => request.flags,
            _ => before,
        }
    }
}

/// Whether a report about the status flags at a point of a run is true.
pub open spec fn flags_are_true<'a, E>(
    flags: i32,
    run: Seq<(SourceState, Step<'a, E>)>,
    reports: Seq<(Report<'a, E>, Nanos)>,
    at: nat,
) -> bool {
    match (run[at as int].1, reports[at as int].0) {
        (Step::GetFlags(_), Report::Flags(Ok(reported))) => reported == flags_at(
            flags,
            run,
            reports,
            at,
        ),
        _ => true,
    }
}

/// The status flags of the terminal are as they were on every return of a read, be it with an
/// event, without one or with an error, and whenever the read waits or does anything else
/// than reading the terminal. While it reads the terminal, the terminal does not wait.
pub proof fn law_flags_are_left_as_they_were<
    'a,
    E,
    X,
    D: Fn(&[u8], bool) -> Result<Option<InternalEvent>, X>,
>(
    flags: i32,
    run: Seq<(SourceState, Step<'a, E>)>,
    reports: Seq<(Report<'a, E>, Nanos)>,
    nonblock: i32,
    decode: &D,
    at: nat,
)
    requires
        nonblock != 0,
        is_run(run, reports, nonblock, decode),
        forall|i: nat| i < reports.len() ==> #[trigger] flags_are_true(flags, run, reports, i),
        at < run.len(),
    ensures
        ({
            let current = flags_at(flags, run, reports, at);
            match run[at as int].1 {
                Step::ReadTerminal(request) => {
                    &&& current & nonblock != 0
                    &&& match request.guard.spec_flags_to_restore() {
                        Some(original) => original == flags,
                        None => current == flags,
                    }
                },
                Step::RestoreFlags(request) => request.flags == flags,
                Step::SetFlags(request) => {
                    &&& current == flags
                    &&& request.set.original_flags == flags
                    &&& request.set.flags == flags | nonblock
                },
                _ => current == flags,
            }
        }),
    decreases at,
{
    if at > 0 {
        let before = (at - 1) as nat;
        law_flags_are_left_as_they_were(flags, run, reports, nonblock, decode, before);
        assert(flags_are_true(flags, run, reports, before));
        assert(leads_to(run[at - 1], reports[at - 1], nonblock, decode, run[at as int]));
        assert((flags | nonblock) & nonblock == nonblock) by (bit_vector);
    }
}

/// Once the size was asked for and could be had, the read ends at once with the change to that
/// size, however it was asked for, wherever the read would have gone on and whatever the
/// clock, and the change is not owed any longer.
pub proof fn law_known_size_ends_the_read<E>(
    request: ResizeRequest,
    state: SourceState,
    columns: u16,
    rows: u16,
    now: Nanos,
)
    ensures
        ({
            let (after, step) = sized::<E>(request, state, Ok((columns, rows)), now);
            &&& step == Step::<E>::Done(
                Ok(Some(InternalEvent::Event(Event::Resize(columns, rows)))),
            )
            &&& !after.pending_resize
            &&& after.parser == state.parser
        }),
{
}

/// A size that could not be had ends the read with that error if it was asked for in any way.
/// Asked for in a bounded way it stays owed, and the read goes on where it was, with the next
/// turn of its wait: of the same one if it is under way, and otherwise of one that begins now.
pub proof fn law_unknown_size_is_owed<E>(
    state: SourceState,
    failure: Failure<E>,
    wait: PollTimeout,
    timeout: Option<Nanos>,
    resume: AfterResize,
    now: Nanos,
)
    ensures
        sized(ResizeRequest { query: ResizeQuery::Unbounded, resume }, state, Err(failure), now)
            == (state, Step::<E>::Done(Err(Error::Io(failure)))),
        ({
            let request = ResizeRequest {
                query: ResizeQuery::Bounded,
                resume: AfterResize::GoOn(wait),
            };
            sized(request, state, Err(failure), now) == turns::<E>(
                SourceState { pending_resize: true, ..state },
                wait,
                now,
            )
        }),
        ({
            let request = ResizeRequest {
                query: ResizeQuery::Bounded,
                resume: AfterResize::Begin(timeout),
            };
            sized(request, state, Err(failure), now) == turns::<E>(
                SourceState { pending_resize: true, ..state },
                PollTimeout { timeout, start: now },
                now,
            )
        }),
{
}

/// A turn of the wait ends it without an event once no time is left. With time left it hands
/// out the oldest event that was parsed, and polls if there is none, with the same wait.
pub proof fn law_turns_of_the_wait<E>(state: SourceState, wait: PollTimeout, now: Nanos)
    ensures
        wait.over_at(now) ==> turns::<E>(state, wait, now) == (state, Step::<E>::Done(Ok(None))),
        !wait.over_at(now) && state.parser.events.len() > 0 ==> {
            let (after, step) = turns::<E>(state, wait, now);
            &&& step == Step::<E>::Done(Ok(Some(state.parser.events[0])))
            &&& after.parser == (ParserState {
                events: state.parser.events.drop_first(),
                ..state.parser
            })
            &&& after.pending_resize == state.pending_resize
        },
        !wait.over_at(now) && state.parser.events.len() == 0 ==> turns::<E>(state, wait, now) == (
            state,
            Step::<E>::Poll(PollRequest { wait }),
        ),
{
}

/// A read begins with what is there: with the oldest event that was parsed before, whatever is
/// owed and however little time there is; otherwise with the size that is owed; and otherwise
/// by polling, with a wait of the whole timeout from now on, unless that is none at all.
pub proof fn law_read_begins_with_what_is_there<E>(
    state: SourceState,
    timeout: Option<Nanos>,
    now: Nanos,
)
    ensures
        state.parser.events.len() > 0 ==> {
            let (after, step) = begins::<E>(state, timeout, now);
            &&& step == Step::<E>::Done(Ok(Some(state.parser.events[0])))
            &&& after.parser == (ParserState {
                events: state.parser.events.drop_first(),
                ..state.parser
            })
            &&& after.pending_resize == state.pending_resize
        },
        state.parser.events.len() == 0 && state.pending_resize ==> begins::<E>(state, timeout, now)
            == (
            state,
            Step::<E>::QueryResize(
                ResizeRequest {
                    query: if timeout is Some {
                        ResizeQuery::Bounded
                    } else {
                        ResizeQuery::Unbounded
                    },
                    resume: AfterResize::Begin(timeout),
                },
            ),
        ),
        state.parser.events.len() == 0 && !state.pending_resize && timeout == Some(Nanos(0))
            ==> begins::<E>(state, timeout, now) == (state, Step::<E>::Done(Ok(None))),
        state.parser.events.len() == 0 && !state.pending_resize && timeout != Some(Nanos(0))
            ==> begins::<E>(state, timeout, now) == (
            state,
            Step::<E>::Poll(PollRequest { wait: PollTimeout { timeout, start: now } }),
        ),
{
}

/// What became ready is attended to: the terminal first, then the pipe that reports changes of
/// size, then the pipe that ends the wait. An interruption and nothing ready lead to another
/// turn of the wait; any other failure is the result.
pub proof fn law_what_readiness_leads_to<E>(
    state: SourceState,
    wait: PollTimeout,
    ready: Readiness,
    failure: Failure<E>,
    error: E,
    now: Nanos,
)
    ensures
        polled(state, wait, Err(PollFailure::Unexpected(error)), now) == (
            state,
            Step::<E>::Done(Err(Error::UnexpectedPoll(error))),
        ),
        failure.kind != ErrorKind::Interrupted ==> polled(
            state,
            wait,
            Err(PollFailure::Io(failure)),
            now,
        ) == (state, Step::<E>::Done(Err(Error::Io(failure)))),
        ready.terminal ==> polled::<E>(state, wait, Ok(ready), now) == (
            state,
            Step::<E>::GetFlags(FlagsRequest { wait, ready }),
        ),
        !ready.terminal && ready.winch ==> polled::<E>(state, wait, Ok(ready), now) == (
            state,
            Step::<E>::DrainWinch(WinchRequest { wait, filled: 0 }),
        ),
        !ready.terminal && !ready.winch && ready.wake ==> polled::<E>(state, wait, Ok(ready), now)
            == (state, Step::<E>::DrainWake(WakeRequest { wait, filled: 0 })),
        failure.kind == ErrorKind::Interrupted ==> polled(
            state,
            wait,
            Err(PollFailure::Io(failure)),
            now,
        ) == turns::<E>(state, wait, now),
        !ready.terminal && !ready.winch && !ready.wake ==> polled::<E>(
            state,
            wait,
            Ok(ready),
            now,
        ) == turns::<E>(state, wait, now),
{
}

/// The terminal is read only once it cannot wait, and its flags are set back before what it
/// brought counts: a missing flag is added and taken away again, one that is set is left
/// alone, and a failure to have or set the flags is the result.
pub proof fn law_terminal_is_kept_from_waiting<
    'a,
    E,
    X,
    D: Fn(&[u8], bool) -> Result<Option<InternalEvent>, X>,
>(
    state: SourceState,
    wait: PollTimeout,
    ready: Readiness,
    flags: i32,
    nonblock: i32,
    failure: Failure<E>,
    read: TerminalRead<'a, E>,
    now: Nanos,
    decode: &D,
    after: (SourceState, Step<'a, E>),
)
    ensures
        guarded::<E>(wait, ready, NonblockingGuard::begun(Err(failure), nonblock)) == Step::<
            E,
        >::Done(Err(Error::Io(failure))),
        flags & nonblock == 0 ==> {
            let set = SetFlagsRequest { original_flags: flags, flags: flags | nonblock };
            let guard = NonblockingGuard { original_flags: flags, changed: true };
            let request = ReadRequest { wait, ready, guard };
            &&& guarded::<E>(wait, ready, NonblockingGuard::begun(Ok(flags), nonblock)) == Step::<
                E,
            >::SetFlags(SetRequest { wait, ready, set })
            &&& guarded::<E>(wait, ready, set.replied(Ok(()))) == Step::<E>::ReadTerminal(request)
            &&& guarded::<E>(wait, ready, set.replied(Err(failure))) == Step::<E>::Done(
                Err(Error::Io(failure)),
            )
            &&& guarded_reads_to(state, request, read, now, decode, after) ==> after == (
                state,
                Step::<E>::RestoreFlags(RestoreRequest { wait, ready, flags, read }),
            )
        },
        flags & nonblock != 0 ==> {
            let guard = NonblockingGuard { original_flags: flags, changed: false };
            let request = ReadRequest { wait, ready, guard };
            &&& guarded::<E>(wait, ready, NonblockingGuard::begun(Ok(flags), nonblock)) == Step::<
                E,
            >::ReadTerminal(request)
            &&& guarded_reads_to(state, request, read, now, decode, after) ==> reads_to(
                state,
                wait,
                ready,
                read,
                now,
                decode,
                after,
            )
        },
{
}

/// What the terminal brought decides what follows: the bytes of a read are parsed, with more
/// to follow exactly after a full one, and the oldest event is handed out at once; without an
/// event the pipes that are ready are attended to, that for the size first, and otherwise the
/// wait goes on as long as there is time. A terminal that would have to wait, and an
/// interruption, lead to another turn of the wait, and any other failure is the result.
pub proof fn law_what_the_terminal_brought_leads_to<
    'a,
    E,
    X,
    D: Fn(&[u8], bool) -> Result<Option<InternalEvent>, X>,
>(
    state: SourceState,
    wait: PollTimeout,
    ready: Readiness,
    read: TerminalRead<'a, E>,
    now: Nanos,
    decode: &D,
    after: (SourceState, Step<'a, E>),
)
    requires
        reads_to(state, wait, ready, read, now, decode, after),
    ensures
        read matches TerminalRead::Bytes(bytes) ==> exists|parsed: ParserState|
            {
                &&& bytes@.len() == 0 ==> parsed == state.parser
                &&& bytes@.len() != 1_024 ==> state.parser.advances_to(
                    bytes@,
                    false,
                    decode,
                    parsed,
                )
                &&& bytes@.len() == 1_024 ==> state.parser.advances_to(bytes@, true, decode, parsed)
                &&& after.0.pending_resize == state.pending_resize
                &&& (#[trigger] parsed.events).len() > 0 ==> {
                    &&& after.1 == Step::<E>::Done(Ok(Some(parsed.events[0])))
                    &&& after.0.parser == (ParserState {
                        events: parsed.events.drop_first(),
                        ..parsed
                    })
                }
                &&& parsed.events.len() == 0 ==> {
                    &&& after.0.parser == parsed
                    &&& ready.winch ==> after.1 == Step::<E>::DrainWinch(
                        WinchRequest { wait, filled: 0 },
                    )
                    &&& !ready.winch && ready.wake ==> after.1 == Step::<E>::DrainWake(
                        WakeRequest { wait, filled: 0 },
                    )
                    &&& !ready.winch && !ready.wake && wait.over_at(now) ==> after.1 == Step::<
                        E,
                    >::Done(Ok(None))
                    &&& !ready.winch && !ready.wake && !wait.over_at(now) ==> after.1 == Step::<
                        E,
                    >::Poll(PollRequest { wait })
                }
            },
        read matches TerminalRead::Failed(failure) ==> {
            let retries = failure.kind == ErrorKind::WouldBlock || failure.kind
                == ErrorKind::Interrupted;
            &&& !retries ==> after == (state, Step::<E>::Done(Err(Error::Io(failure))))
            &&& retries && wait.over_at(now) ==> after == (state, Step::<E>::Done(Ok(None)))
            &&& retries && !wait.over_at(now) && state.parser.events.len() == 0 ==> after == (
                state,
                Step::<E>::Poll(PollRequest { wait }),
            )
            &&& retries && !wait.over_at(now) && state.parser.events.len() > 0 ==> {
                &&& after.0.pending_resize == state.pending_resize
                &&& after.0.parser == (ParserState {
                    events: state.parser.events.drop_first(),
                    ..state.parser
                })
                &&& after.1 == Step::<E>::Done(Ok(Some(state.parser.events[0])))
            }
        },
{
    if let TerminalRead::Bytes(bytes) = read {
        let source = choose|source: SourceState| #[trigger]
            state.takes_in(bytes@, decode, source) && after == hands_out::<E>(
                source,
                wait,
                ready,
                now,
            );
        if bytes@.len() > 0 {
            law_only_a_full_read_announces_more(state, bytes@, decode, source);
        } else {
            law_last_byte_of_a_run(state.parser, bytes@, false, decode, source.parser);
        }
        let parsed = source.parser;
        assert(parsed.events.len() >= 0);
    }
}

/// A pipe is emptied before what it reports counts: as long as reads bring bytes it is read
/// again, each time behind what is in the buffer or from its start once the buffer is full or
/// the pipe had nothing left for the moment, and so it is after an interruption. Found empty,
/// the one for the size leads to asking for the size, and that which ends the wait ends the
/// read as woken up. A failure is the result.
pub proof fn law_pipes_are_emptied_first<E>(
    wait: PollTimeout,
    filled: usize,
    count: usize,
    failure: Failure<E>,
)
    requires
        filled + count <= 1_024,
    ensures
        ({
            let winch = WinchRequest { wait, filled };
            let wake = WakeRequest { wait, filled };
            let asks = Step::<E>::QueryResize(
                ResizeRequest {
                    query: if wait.timeout is Some {
                        ResizeQuery::Bounded
                    } else {
                        ResizeQuery::Unbounded
                    },
                    resume: AfterResize::GoOn(wait),
                },
            );
            let (winch_again, wake_again) = (
                Step::<E>::DrainWinch(WinchRequest { wait, filled: 0 }),
                Step::<E>::DrainWake(WakeRequest { wait, filled: 0 }),
            );
            &&& count > 0 && filled + count < 1_024 ==> {
                &&& winch_read::<E>(winch, Ok(count)) == Step::<E>::DrainWinch(
                    WinchRequest { wait, filled: (filled + count) as usize },
                )
                &&& wake_read::<E>(wake, Ok(count)) == Step::<E>::DrainWake(
                    WakeRequest { wait, filled: (filled + count) as usize },
                )
            }
            &&& count > 0 && filled + count == 1_024 ==> winch_read::<E>(winch, Ok(count))
                == winch_again && wake_read::<E>(wake, Ok(count)) == wake_again
            &&& count == 0 && filled > 0 ==> winch_read::<E>(winch, Ok(count)) == winch_again
                && wake_read::<E>(wake, Ok(count)) == wake_again
            &&& count == 0 && filled == 0 ==> winch_read::<E>(winch, Ok(count)) == asks
                && wake_read::<E>(wake, Ok(count)) == Step::<E>::Done(Err(Error::WokenUp))
            &&& failure.kind == ErrorKind::WouldBlock && filled > 0 ==> winch_read(
                winch,
                Err(failure),
            ) == winch_again && wake_read(wake, Err(failure)) == wake_again
            &&& failure.kind == ErrorKind::WouldBlock && filled == 0 ==> winch_read(
                winch,
                Err(failure),
            ) == asks && wake_read(wake, Err(failure)) == Step::<E>::Done(Err(Error::WokenUp))
            &&& failure.kind == ErrorKind::Interrupted ==> winch_read(winch, Err(failure))
                == Step::<E>::DrainWinch(winch) && wake_read(wake, Err(failure)) == Step::<
                E,
            >::DrainWake(wake)
            &&& failure.kind != ErrorKind::WouldBlock && failure.kind != ErrorKind::Interrupted
                ==> winch_read(winch, Err(failure)) == Step::<E>::Done(Err(Error::Io(failure)))
                && wake_read(wake, Err(failure)) == Step::<E>::Done(Err(Error::Io(failure)))
        }),
{
}

/// Forgetting the input empties the pipe for the size in the same way, and ends once the pipe
/// is found empty or fails.
pub proof fn law_forgetting_empties_the_pipe<E>(
    filled: usize,
    count: usize,
    failure: Failure<E>,
)
    requires
        filled + count <= 1_024,
    ensures
        ({
            let request = ClearRequest { filled };
            let again = ClearStep::DrainWinch(ClearRequest { filled: 0 });
            &&& count > 0 && filled + count < 1_024 ==> clear_read::<E>(request, Ok(count))
                == ClearStep::DrainWinch(ClearRequest { filled: (filled + count) as usize })
            &&& count > 0 && filled + count == 1_024 ==> clear_read::<E>(request, Ok(count))
                == again
            &&& count == 0 && filled > 0 ==> clear_read::<E>(request, Ok(count)) == again
            &&& count == 0 && filled == 0 ==> clear_read::<E>(request, Ok(count))
                == ClearStep::Done
            &&& failure.kind == ErrorKind::WouldBlock && filled > 0 ==> clear_read(
                request,
                Err(failure),
            ) == again
            &&& failure.kind == ErrorKind::WouldBlock && filled == 0 ==> clear_read(
                request,
                Err(failure),
            ) == ClearStep::Done
            &&& failure.kind == ErrorKind::Interrupted ==> clear_read(request, Err(failure))
                == ClearStep::DrainWinch(request)
            &&& failure.kind != ErrorKind::WouldBlock && failure.kind != ErrorKind::Interrupted
                ==> clear_read(request, Err(failure)) == ClearStep::Done
        }),
{
}

/// A change of size in its pipe is reported: whenever the pipe is ready and the terminal is
/// not, it is read; found empty, the size is asked for; and if that can be had, the read ends
/// with it. This holds with every timeout and whatever time has gone by.
pub proof fn law_signalled_size_is_reported<E>(
    state: SourceState,
    wait: PollTimeout,
    wake: bool,
    failure: Failure<E>,
    columns: u16,
    rows: u16,
    polled_at: Nanos,
    sized_at: Nanos,
)
    requires
        failure.kind == ErrorKind::WouldBlock,
    ensures
        polled::<E>(state, wait, Ok(Readiness { terminal: false, winch: true, wake }), polled_at)
            == (state, Step::<E>::DrainWinch(WinchRequest { wait, filled: 0 })),
        winch_read(WinchRequest { wait, filled: 0 }, Err(failure)) matches Step::QueryResize(
            request,
        ) && {
            let (after, step) = sized::<E>(request, state, Ok((columns, rows)), sized_at);
            &&& step == Step::<E>::Done(
                Ok(Some(InternalEvent::Event(Event::Resize(columns, rows)))),
            )
            &&& !after.pending_resize
        },
{
}

/// One read adds what it brings to what the buffer holds. Filling the buffer ends with all of
/// it once the buffer is full, at the end of the input and when the pipe would have to wait,
/// and goes on otherwise; an interruption changes nothing, and any other failure is the end.
pub proof fn law_read_complete_counts_every_byte<E>(
    filled: usize,
    capacity: usize,
    count: usize,
    failure: Failure<E>,
)
    requires
        filled + count <= capacity,
    ensures
        ({
            let step = spec_read_complete::<E>(filled, capacity, Ok(count));
            &&& count == 0 || filled + count == capacity ==> (step matches PipeStep::Done(Ok(all))
                && all == filled + count)
            &&& count > 0 && filled + count < capacity ==> (step matches PipeStep::ReadMore {
                filled: now_filled,
            } && now_filled == filled + count)
        }),
        failure.kind == ErrorKind::WouldBlock ==> spec_read_complete(filled, capacity, Err(failure))
            == PipeStep::<E>::Done(Ok(filled)),
        failure.kind == ErrorKind::Interrupted ==> spec_read_complete(
            filled,
            capacity,
            Err(failure),
        ) == (PipeStep::<E>::ReadMore { filled }),
        failure.kind != ErrorKind::WouldBlock && failure.kind != ErrorKind::Interrupted
            ==> spec_read_complete(filled, capacity, Err(failure)) == PipeStep::Done(Err(failure)),
{
}

/// Whatever the guard is, the terminal is read with it once it is in place. Flags that it
/// changed are set back to what it remembers before anything else, with what the terminal
/// brought kept as it is; where it changed none, what the terminal brought counts at once.
pub proof fn law_guard_is_gone_before_the_bytes_count<
    'a,
    E,
    X,
    D: Fn(&[u8], bool) -> Result<Option<InternalEvent>, X>,
>(
    state: SourceState,
    wait: PollTimeout,
    ready: Readiness,
    guard: NonblockingGuard,
    set: SetFlagsRequest,
    failure: Failure<E>,
    read: TerminalRead<'a, E>,
    now: Nanos,
    decode: &D,
    after: (SourceState, Step<'a, E>),
)
    ensures
        guarded::<E>(wait, ready, GuardStep::Failed(failure)) == Step::<E>::Done(
            Err(Error::Io(failure)),
        ),
        guarded::<E>(wait, ready, GuardStep::SetFlags(set)) == Step::<E>::SetFlags(
            SetRequest { wait, ready, set },
        ),
        guarded::<E>(wait, ready, GuardStep::Ready(guard)) == Step::<E>::ReadTerminal(
            ReadRequest { wait, ready, guard },
        ),
        guarded_reads_to(
            state,
            ReadRequest { wait, ready, guard },
            read,
            now,
            decode,
            after,
        ) <==> if guard.changed {
            after == (
                state,
                Step::<E>::RestoreFlags(
                    RestoreRequest { wait, ready, flags: guard.original_flags, read },
                ),
            )
        } else {
            reads_to(state, wait, ready, read, now, decode, after)
        },
{
}

} // verus!
