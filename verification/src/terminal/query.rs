//! Sending a query to the terminal before a deadline, without ever waiting in a write, and
//! leaving the standard output as it was.

use crate::error::{Error, ErrorKind, Failure};
use crate::terminal::file_descriptor::{
    dev_tty, dev_tty_path, FileDesc, GuardStep, NonblockingGuard, SetFlagsRequest, STDOUT_FILENO,
};
use crate::terminal::startup::remaining_timeout;
use crate::time::{Nanos, NANOS_PER_MILLI};
use vstd::prelude::*;
use vstd::slice::slice_subrange;

verus! {

/// Where a query is written to.
#[derive(Clone, Copy, Debug, PartialEq, Eq, Structural)]
pub enum QueryTarget {
    /// The descriptor of the standard output itself, kept from waiting for as long as the
    /// query is written.
    Stdout,
    /// The terminal that controls the process, opened so that it does not wait.
    DevTty,
}

/// Where a query is written to.
pub open spec fn spec_query_target(stdin_is_terminal: bool) -> QueryTarget {
    if stdin_is_terminal {
        QueryTarget::Stdout
    } else {
        QueryTarget::DevTty
    }
}

/// Where a query is written to.
pub fn query_target(stdin_is_terminal: bool) -> (target: QueryTarget)
    ensures
        target == spec_query_target(stdin_is_terminal),
        target == QueryTarget::Stdout <==> stdin_is_terminal,
        target == QueryTarget::DevTty <==> !stdin_is_terminal,
{
    if stdin_is_terminal {
        QueryTarget::Stdout
    } else {
        QueryTarget::DevTty
    }
}

/// The descriptor of the standard output, which stays open in the end.
pub fn stdout_fd() -> (desc: FileDesc)
    ensures
        desc.spec_fd() == STDOUT_FILENO == 1,
        !desc.spec_closes(),
{
    FileDesc::new(STDOUT_FILENO, false)
}

/// A target that is ready to be written to.
#[derive(Clone, Copy, Debug, PartialEq, Eq, Structural)]
pub enum QueryOutput {
    /// The standard output, with what keeps it from waiting.
    Stdout(NonblockingGuard),
    /// The terminal that controls the process.
    DevTty,
}

impl QueryOutput {
    /// The target.
    pub open spec fn target(self) -> QueryTarget {
        match self {
            QueryOutput::Stdout(_) => QueryTarget::Stdout,
            QueryOutput::DevTty => QueryTarget::DevTty,
        }
    }

    /// The status flags to set once the query was written, or could not be.
    pub open spec fn spec_flags_to_restore(self) -> Option<i32> {
        match self {
            QueryOutput::Stdout(guard) => guard.spec_flags_to_restore(),
            QueryOutput::DevTty => None,
        }
    }

    /// The status flags to set once the query was written, or could not be.
    pub fn flags_to_restore(&self) -> (flags: Option<i32>)
        ensures
            flags == self.spec_flags_to_restore(),
            self matches QueryOutput::Stdout(guard) ==> (guard.changed ==> flags == Some(
                guard.original_flags,
            )),
            self matches QueryOutput::Stdout(guard) ==> (!guard.changed ==> flags is None),
            *self is DevTty ==> flags is None,
    {
        match self {
            QueryOutput::Stdout(guard) => guard.flags_to_restore(),
            QueryOutput::DevTty => None,
        }
    }
}

/// What sending a query comes to.
pub enum WriteStep<'a, E> {
    /// The query was written, or could not be.
    Done(Result<(), Error<E>>),
    /// The status flags of the standard output have to be asked for.
    GetFlags(FlagsRequest<'a>),
    /// The status flags of the standard output have to be set, so that it does not wait.
    SetFlags(SetRequest<'a>),
    /// The terminal that controls the process has to be opened for writing, so that it does
    /// not wait.
    OpenTty(OpenRequest<'a>),
    /// Bytes have to be written.
    Write(WriteRequest<'a>),
    /// What was written has to be flushed.
    Flush(FlushRequest),
    /// A pause has to be made.
    Sleep(SleepRequest<'a>),
    /// The status flags of the standard output have to be set back.
    RestoreFlags(RestoreRequest<E>),
}

/// A query that needs the status flags of the standard output.
#[derive(Clone, Copy, Debug)]
pub struct FlagsRequest<'a> {
    pub query: &'a [u8],
    pub timeout: Nanos,
}

/// A query that needs the status flags of the standard output set.
#[derive(Clone, Copy, Debug)]
pub struct SetRequest<'a> {
    pub query: &'a [u8],
    pub timeout: Nanos,
    pub set: SetFlagsRequest,
}

/// A query that needs the terminal opened.
#[derive(Clone, Copy, Debug)]
pub struct OpenRequest<'a> {
    pub query: &'a [u8],
    pub timeout: Nanos,
}

/// A query of which bytes are left to write.
#[derive(Clone, Copy, Debug)]
pub struct WriteRequest<'a> {
    /// The bytes that are left.
    pub query: &'a [u8],
    pub output: QueryOutput,
    pub timeout: Nanos,
}

/// A query that is written and has to be flushed.
#[derive(Clone, Copy, Debug)]
pub struct FlushRequest {
    pub output: QueryOutput,
    pub timeout: Nanos,
}

/// A query that pauses since its target is not ready.
#[derive(Clone, Copy, Debug)]
pub struct SleepRequest<'a> {
    /// The bytes that are left.
    pub query: &'a [u8],
    pub output: QueryOutput,
    pub timeout: Nanos,
    /// How long to pause.
    pub pause: Nanos,
}

/// A query that has its result and has to set the status flags of the standard output back.
pub struct RestoreRequest<E> {
    /// The flags to set.
    pub flags: i32,
    pub result: Result<(), Error<E>>,
}

/// How far sending a query has come.
#[verifier::ext_equal]
pub enum WriteState<E> {
    Done(Result<(), Error<E>>),
    GetFlags { query: Seq<u8>, timeout: Nanos },
    SetFlags { query: Seq<u8>, timeout: Nanos, set: SetFlagsRequest },
    OpenTty { query: Seq<u8>, timeout: Nanos },
    Write { query: Seq<u8>, output: QueryOutput, timeout: Nanos },
    Flush { output: QueryOutput, timeout: Nanos },
    Sleep { query: Seq<u8>, output: QueryOutput, timeout: Nanos, pause: Nanos },
    RestoreFlags { flags: i32, result: Result<(), Error<E>> },
}

impl<'a, E> View for WriteStep<'a, E> {
    type V = WriteState<E>;

    open spec fn view(&self) -> WriteState<E> {
        match *self {
            WriteStep::Done(result) => WriteState::Done(result),
            WriteStep::GetFlags(request) => WriteState::GetFlags {
                query: request.query@,
                timeout: request.timeout,
            },
            WriteStep::SetFlags(request) => WriteState::SetFlags {
                query: request.query@,
                timeout: request.timeout,
                set: request.set,
            },
            WriteStep::OpenTty(request) => WriteState::OpenTty {
                query: request.query@,
                timeout: request.timeout,
            },
            WriteStep::Write(request) => WriteState::Write {
                query: request.query@,
                output: request.output,
                timeout: request.timeout,
            },
            WriteStep::Flush(request) => WriteState::Flush {
                output: request.output,
                timeout: request.timeout,
            },
            WriteStep::Sleep(request) => WriteState::Sleep {
                query: request.query@,
                output: request.output,
                timeout: request.timeout,
                pause: request.pause,
            },
            WriteStep::RestoreFlags(request) => WriteState::RestoreFlags {
                flags: request.flags,
                result: request.result,
            },
        }
    }
}

/// What the outside reports while a query is sent.
pub enum WriteEvent<E> {
    /// The status flags of the standard output, or that they could not be had.
    Flags(Result<i32, Failure<E>>),
    /// The status flags were set so that the standard output does not wait, or could not be.
    FlagsSet(Result<(), Failure<E>>),
    /// The terminal was opened, or could not be.
    Opened(Result<(), Failure<E>>),
    /// So many bytes were written, or writing failed.
    Wrote(Result<usize, Failure<E>>),
    /// The pause is over.
    Slept,
    /// What was written was flushed, or flushing failed.
    Flushed(Result<(), Failure<E>>),
    /// The status flags were set back.
    Restored,
}

/// How sending a query begins: nothing is touched once no time is left.
pub open spec fn send_begins<E>(
    query: Seq<u8>,
    timeout: Nanos,
    elapsed: Nanos,
    stdin_is_terminal: bool,
) -> WriteState<E> {
    if timeout.minus(elapsed) == Nanos(0) {
        WriteState::Done(Err(Error::QueryWriteTimeout))
    } else if stdin_is_terminal {
        WriteState::GetFlags { query, timeout }
    } else {
        WriteState::OpenTty { query, timeout }
    }
}

/// How sending a query ends: flags that were changed for it are set back first.
pub open spec fn write_ends<E>(output: QueryOutput, result: Result<(), Error<E>>) -> WriteState<E> {
    match output.spec_flags_to_restore() {
        Some(flags) => WriteState::RestoreFlags { flags, result },
        None => WriteState::Done(result),
    }
}

/// The next turn of writing: it fails once no time is left, writes what is left, and flushes
/// when nothing is left.
pub open spec fn write_turns<E>(
    query: Seq<u8>,
    output: QueryOutput,
    timeout: Nanos,
    elapsed: Nanos,
) -> WriteState<E> {
    if timeout.minus(elapsed) == Nanos(0) {
        write_ends(output, Err(Error::QueryWriteTimeout))
    } else if query.len() > 0 {
        WriteState::Write { query, output, timeout }
    } else {
        WriteState::Flush { output, timeout }
    }
}

/// A pause of at most a millisecond, within the time that is left.
pub open spec fn write_waits<E>(
    query: Seq<u8>,
    output: QueryOutput,
    timeout: Nanos,
    elapsed: Nanos,
) -> WriteState<E> {
    let left = timeout.minus(elapsed);
    if left == Nanos(0) {
        write_ends(output, Err(Error::QueryWriteTimeout))
    } else {
        WriteState::Sleep { query, output, timeout, pause: left.shorter(Nanos(1_000_000)) }
    }
}

/// How sending a query goes on while the standard output is kept from waiting: it is written
/// to once that is so.
pub open spec fn write_guarded<E>(
    query: Seq<u8>,
    timeout: Nanos,
    elapsed: Nanos,
    step: GuardStep<E>,
) -> WriteState<E> {
    match step {
        GuardStep::Failed(failure) => WriteState::Done(Err(Error::Io(failure))),
        GuardStep::SetFlags(set) => WriteState::SetFlags { query, timeout, set },
        GuardStep::Ready(guard) => write_turns(
            query,
            QueryOutput::Stdout(guard),
            timeout,
            elapsed,
        ),
    }
}

impl<E> WriteState<E> {
    /// The bytes that are left to write.
    pub open spec fn unwritten(self) -> Seq<u8> {
        match self {
            WriteState::GetFlags { query, timeout: _ } => query,
            WriteState::SetFlags { query, timeout: _, set: _ } => query,
            WriteState::OpenTty { query, timeout: _ } => query,
            WriteState::Write { query, output: _, timeout: _ } => query,
            WriteState::Sleep { query, output: _, timeout: _, pause: _ } => query,
            _ => Seq::empty(),
        }
    }

    /// The result, once there is one.
    pub open spec fn result(self) -> Option<Result<(), Error<E>>> {
        match self {
            WriteState::Done(result) => Some(result),
            WriteState::RestoreFlags { flags: _, result } => Some(result),
            _ => None,
        }
    }

    /// What is written to, if the query is being written.
    pub open spec fn output(self) -> Option<QueryOutput> {
        match self {
            WriteState::Write { query: _, output, timeout: _ } => Some(output),
            WriteState::Flush { output, timeout: _ } => Some(output),
            WriteState::Sleep { query: _, output, timeout: _, pause: _ } => Some(output),
            _ => None,
        }
    }

    /// How far sending has come after a report. A report that was not asked for changes
    /// nothing. `nonblock` is the flag that keeps a descriptor from waiting.
    pub open spec fn after(self, event: WriteEvent<E>, elapsed: Nanos, nonblock: i32) -> WriteState<
        E,
    > {
        match (self, event) {
            (WriteState::GetFlags { query, timeout }, WriteEvent::Flags(flags)) => write_guarded(
                query,
                timeout,
                elapsed,
                NonblockingGuard::begun(flags, nonblock),
            ),
            (
                WriteState::SetFlags { query, timeout, set },
                WriteEvent::FlagsSet(result),
            ) => write_guarded(query, timeout, elapsed, set.replied(result)),
            (WriteState::OpenTty { query, timeout }, WriteEvent::Opened(result)) => match result {
                Ok(()) => write_turns(query, QueryOutput::DevTty, timeout, elapsed),
                Err(failure) => WriteState::Done(Err(Error::Io(failure))),
            },
            (WriteState::Write { query, output, timeout }, WriteEvent::Wrote(result)) => match result {
                Ok(count) => if count == 0 {
                    write_ends(output, Err(Error::QueryWriteZero))
                } else {
                    write_turns(query.skip(count as int), output, timeout, elapsed)
                },
                Err(failure) => match failure.kind {
                    ErrorKind::WouldBlock | ErrorKind::Interrupted => write_waits(
                        query,
                        output,
                        timeout,
                        elapsed,
                    ),
                    _ => write_ends(output, Err(Error::Io(failure))),
                },
            },
            (
                WriteState::Sleep { query, output, timeout, pause: _ },
                WriteEvent::Slept,
            ) => write_turns(query, output, timeout, elapsed),
            (WriteState::Flush { output, timeout }, WriteEvent::Flushed(result)) => match result {
                Ok(()) => write_ends(output, Ok(())),
                Err(failure) => match failure.kind {
                    ErrorKind::WouldBlock | ErrorKind::Interrupted => write_waits(
                        Seq::empty(),
                        output,
                        timeout,
                        elapsed,
                    ),
                    _ => write_ends(output, Err(Error::Io(failure))),
                },
            },
            (
                WriteState::RestoreFlags { flags: _, result },
                WriteEvent::Restored,
            ) => WriteState::Done(result),
            _ => self,
        }
    }

    /// The bytes that a report says were written.
    pub open spec fn written_by(self, event: WriteEvent<E>) -> Seq<u8> {
        match (self, event) {
            (
                WriteState::Write { query, output: _, timeout: _ },
                WriteEvent::Wrote(Ok(count)),
            ) => query.take(count as int),
            _ => Seq::empty(),
        }
    }

    /// Whether a report is possible: no more can be written than was left.
    pub open spec fn possible(self, event: WriteEvent<E>) -> bool {
        (self, event) matches (
            WriteState::Write { query, output: _, timeout: _ },
            WriteEvent::Wrote(Ok(count)),
        ) ==> count <= query.len()
    }

    /// How far sending has come after a run of reports, each with the time since the start.
    pub open spec fn after_all(self, events: Seq<(WriteEvent<E>, Nanos)>, nonblock: i32) -> WriteState<
        E,
    >
        decreases events.len(),
    {
        if events.len() == 0 {
            self
        } else {
            self.after_all(events.drop_last(), nonblock).after(
                events.last().0,
                events.last().1,
                nonblock,
            )
        }
    }

    /// All bytes that a run of reports says were written.
    pub open spec fn written_by_all(
        self,
        events: Seq<(WriteEvent<E>, Nanos)>,
        nonblock: i32,
    ) -> Seq<u8>
        decreases events.len(),
    {
        if events.len() == 0 {
            Seq::empty()
        } else {
            self.written_by_all(events.drop_last(), nonblock) + self.after_all(
                events.drop_last(),
                nonblock,
            ).written_by(events.last().0)
        }
    }

    /// Whether every report of a run is possible.
    pub open spec fn all_possible(
        self,
        events: Seq<(WriteEvent<E>, Nanos)>,
        nonblock: i32,
    ) -> bool
        decreases events.len(),
    {
        events.len() == 0 || {
            &&& self.all_possible(events.drop_last(), nonblock)
            &&& self.after_all(events.drop_last(), nonblock).possible(events.last().0)
        }
    }

    /// The status flags of the standard output after a run of reports, if they are the given
    /// ones at its begin and nobody else changes them.
    pub open spec fn flags_after_all(
        self,
        flags: i32,
        events: Seq<(WriteEvent<E>, Nanos)>,
        nonblock: i32,
    ) -> i32
        decreases events.len(),
    {
        if events.len() == 0 {
            flags
        } else {
            let before = self.after_all(events.drop_last(), nonblock);
            match (before, events.last().0) {
                (
                    WriteState::SetFlags { query: _, timeout: _, set },
                    WriteEvent::FlagsSet(Ok(_)),
                ) => set.flags,
                (
                    WriteState::RestoreFlags { flags: restored, result: _ },
                    WriteEvent::Restored,
                ) => restored,
                _ => self.flags_after_all(flags, events.drop_last(), nonblock),
            }
        }
    }

    /// Whether every report of a run about the status flags is true.
    pub open spec fn flags_are_true(
        self,
        flags: i32,
        events: Seq<(WriteEvent<E>, Nanos)>,
        nonblock: i32,
    ) -> bool
        decreases events.len(),
    {
        events.len() == 0 || {
            &&& self.flags_are_true(flags, events.drop_last(), nonblock)
            &&& match (self.after_all(events.drop_last(), nonblock), events.last().0) {
                (
                    WriteState::GetFlags { query: _, timeout: _ },
                    WriteEvent::Flags(Ok(reported)),
                ) => reported == self.flags_after_all(flags, events.drop_last(), nonblock),
                _ => true,
            }
        }
    }
}

/// The error of a query that ran out of time.
pub fn query_write_timeout<E>() -> (error: Error<E>)
    ensures
        error == Error::<E>::QueryWriteTimeout,
{
    Error::QueryWriteTimeout
}

/// Begins to send a query; `elapsed` is the time since the deadline of `timeout` was set. No
/// target is touched once the deadline has passed.
pub fn send_query<'a, E>(
    query: &'a [u8],
    timeout: Nanos,
    elapsed: Nanos,
    stdin_is_terminal: bool,
) -> (step: WriteStep<'a, E>)
    ensures
        step@ == if elapsed.0 >= timeout.0 {
            WriteState::<E>::Done(Err(Error::QueryWriteTimeout))
        } else if stdin_is_terminal {
            WriteState::GetFlags { query: query@, timeout }
        } else {
            WriteState::OpenTty { query: query@, timeout }
        },
        step@ == send_begins::<E>(query@, timeout, elapsed, stdin_is_terminal),
        step@ is Done <==> timeout.minus(elapsed) == Nanos(0),
{
    if remaining_timeout(elapsed, timeout).is_zero() {
        return WriteStep::Done(Err(query_write_timeout()));
    }
    match query_target(stdin_is_terminal) {
        QueryTarget::Stdout => WriteStep::GetFlags(FlagsRequest { query, timeout }),
        QueryTarget::DevTty => WriteStep::OpenTty(OpenRequest { query, timeout }),
    }
}

fn end_write<'a, E>(output: QueryOutput, result: Result<(), Error<E>>) -> (step: WriteStep<'a, E>)
    ensures
        step@ == write_ends(output, result),
{
    match output.flags_to_restore() {
        Some(flags) => WriteStep::RestoreFlags(RestoreRequest { flags, result }),
        None => WriteStep::Done(result),
    }
}

/// Begins to write a query to a target that is ready.
pub fn write_query<'a, E>(
    query: &'a [u8],
    output: QueryOutput,
    timeout: Nanos,
    elapsed: Nanos,
) -> (step: WriteStep<'a, E>)
    ensures
        step@ == write_turns::<E>(query@, output, timeout, elapsed),
        elapsed.0 < timeout.0 && query@.len() > 0 ==> step@ == (WriteState::<E>::Write {
            query: query@,
            output,
            timeout,
        }),
        elapsed.0 < timeout.0 && query@.len() == 0 ==> step@ == (WriteState::<E>::Flush {
            output,
            timeout,
        }),
{
    if remaining_timeout(elapsed, timeout).is_zero() {
        return end_write(output, Err(query_write_timeout()));
    }
    if query.len() > 0 {
        WriteStep::Write(WriteRequest { query, output, timeout })
    } else {
        WriteStep::Flush(FlushRequest { output, timeout })
    }
}

fn wait_for_query_write<'a, E>(
    query: &'a [u8],
    output: QueryOutput,
    timeout: Nanos,
    elapsed: Nanos,
) -> (step: WriteStep<'a, E>)
    ensures
        step@ == write_waits::<E>(query@, output, timeout, elapsed),
{
    let remaining = remaining_timeout(elapsed, timeout);
    if remaining.is_zero() {
        return end_write(output, Err(query_write_timeout()));
    }
    WriteStep::Sleep(
        SleepRequest { query, output, timeout, pause: remaining.min(Nanos(NANOS_PER_MILLI)) },
    )
}

fn guard_step<'a, E>(query: &'a [u8], timeout: Nanos, elapsed: Nanos, step: GuardStep<E>) -> (next:
    WriteStep<'a, E>)
    ensures
        next@ == write_guarded(query@, timeout, elapsed, step),
{
    match step {
        GuardStep::Failed(failure) => WriteStep::Done(Err(Error::Io(failure))),
        GuardStep::SetFlags(set) => WriteStep::SetFlags(SetRequest { query, timeout, set }),
        GuardStep::Ready(guard) => write_query(
            query,
            QueryOutput::Stdout(guard),
            timeout,
            elapsed,
        ),
    }
}

impl<'a> FlagsRequest<'a> {
    /// Goes on once the status flags of the standard output were asked for. `nonblock` is the
    /// flag that keeps a descriptor from waiting.
    pub fn reply<E>(self, flags: Result<i32, Failure<E>>, nonblock: i32, elapsed: Nanos) -> (step:
        WriteStep<'a, E>)
        ensures
            step@ == WriteStep::<E>::GetFlags(self)@.after(
                WriteEvent::Flags(flags),
                elapsed,
                nonblock,
            ),
    {
        guard_step(self.query, self.timeout, elapsed, NonblockingGuard::new(flags, nonblock))
    }
}

impl<'a> SetRequest<'a> {
    /// Goes on once the status flags of the standard output were set, or could not be.
    pub fn reply<E>(self, set: Result<(), Failure<E>>, elapsed: Nanos) -> (step: WriteStep<'a, E>)
        ensures
            forall|nonblock: i32|
                step@ == #[trigger] WriteStep::<E>::SetFlags(self)@.after(
                    WriteEvent::FlagsSet(set),
                    elapsed,
                    nonblock,
                ),
    {
        guard_step(self.query, self.timeout, elapsed, self.set.reply(set))
    }
}

impl<'a> OpenRequest<'a> {
    /// The path to open.
    pub fn path(&self) -> (path: Vec<u8>)
        ensures
            path@ == dev_tty(),
            path@ == seq![0x2Fu8, 0x64, 0x65, 0x76, 0x2F, 0x74, 0x74, 0x79],
    {
        dev_tty_path()
    }

    /// Goes on once the terminal was opened, or could not be.
    pub fn reply<E>(self, opened: Result<(), Failure<E>>, elapsed: Nanos) -> (step: WriteStep<
        'a,
        E,
    >)
        ensures
            forall|nonblock: i32|
                step@ == #[trigger] WriteStep::<E>::OpenTty(self)@.after(
                    WriteEvent::Opened(opened),
                    elapsed,
                    nonblock,
                ),
    {
        match opened {
            Ok(()) => write_query(self.query, QueryOutput::DevTty, self.timeout, elapsed),
            Err(failure) => WriteStep::Done(Err(Error::Io(failure))),
        }
    }
}

impl<'a> WriteRequest<'a> {
    /// Goes on once bytes were written.
    pub fn reply<E>(self, written: Result<usize, Failure<E>>, elapsed: Nanos) -> (step: WriteStep<
        'a,
        E,
    >)
        requires
            written matches Ok(count) ==> count <= self.query@.len(),
        ensures
            forall|nonblock: i32|
                step@ == #[trigger] WriteStep::<E>::Write(self)@.after(
                    WriteEvent::Wrote(written),
                    elapsed,
                    nonblock,
                ),
    {
        match written {
            Ok(count) => {
                if count == 0 {
                    return end_write(self.output, Err(Error::QueryWriteZero));
                }
                let rest = slice_subrange(self.query, count, self.query.len());
                assert(rest@ =~= self.query@.skip(count as int));
                write_query(rest, self.output, self.timeout, elapsed)
            },
            Err(failure) => match failure.kind {
                ErrorKind::WouldBlock | ErrorKind::Interrupted => wait_for_query_write(
                    self.query,
                    self.output,
                    self.timeout,
                    elapsed,
                ),
                _ => end_write(self.output, Err(Error::Io(failure))),
            },
        }
    }
}

impl FlushRequest {
    /// Goes on once what was written was flushed.
    pub fn reply<'a, E>(self, flushed: Result<(), Failure<E>>, elapsed: Nanos) -> (step: WriteStep<
        'a,
        E,
    >)
        ensures
            forall|nonblock: i32|
                step@ == #[trigger] WriteStep::<E>::Flush(self)@.after(
                    WriteEvent::Flushed(flushed),
                    elapsed,
                    nonblock,
                ),
    {
        match flushed {
            Ok(()) => end_write(self.output, Ok(())),
            Err(failure) => {
                let nothing: &'static [u8] = &[];
                assert(nothing@ =~= Seq::empty());
                match failure.kind {
                    ErrorKind::WouldBlock | ErrorKind::Interrupted => wait_for_query_write(
                        nothing,
                        self.output,
                        self.timeout,
                        elapsed,
                    ),
                    _ => end_write(self.output, Err(Error::Io(failure))),
                }
            },
        }
    }
}

impl<'a> SleepRequest<'a> {
    /// Goes on once the pause is over.
    pub fn reply<E>(self, elapsed: Nanos) -> (step: WriteStep<'a, E>)
        ensures
            forall|nonblock: i32|
                step@ == #[trigger] WriteStep::<E>::Sleep(self)@.after(
                    WriteEvent::Slept,
                    elapsed,
                    nonblock,
                ),
    {
        write_query(self.query, self.output, self.timeout, elapsed)
    }
}

impl<E> RestoreRequest<E> {
    /// Ends once the status flags of the standard output were set back.
    pub fn reply<'a>(self) -> (step: WriteStep<'a, E>)
        ensures
            forall|elapsed: Nanos, nonblock: i32|
                step@ == #[trigger] WriteStep::<E>::RestoreFlags(self)@.after(
                    WriteEvent::Restored,
                    elapsed,
                    nonblock,
                ),
            step@ == WriteState::Done(self.result),
    {
        WriteStep::Done(self.result)
    }
}

/// A query is written whole, in order and each byte once: what was written and what is left
/// make up the query as long as it is being written, success is reported only when all of
/// it was written, and on failure no byte other than the next ones of the query was written.
pub proof fn law_query_is_written_whole<E>(
    query: Seq<u8>,
    timeout: Nanos,
    begun: Nanos,
    stdin_is_terminal: bool,
    events: Seq<(WriteEvent<E>, Nanos)>,
    nonblock: i32,
)
    requires
        send_begins::<E>(query, timeout, begun, stdin_is_terminal).all_possible(events, nonblock),
    ensures
        ({
            let start = send_begins::<E>(query, timeout, begun, stdin_is_terminal);
            let state = start.after_all(events, nonblock);
            let written = start.written_by_all(events, nonblock);
            &&& written.is_prefix_of(query)
            &&& state.result() is None ==> written + state.unwritten() == query
            &&& state.result() == Some(Ok::<(), Error<E>>(())) ==> written == query
            &&& start is Done ==> state == start && written.len() == 0
        }),
    decreases events.len(),
{
    let start = send_begins::<E>(query, timeout, begun, stdin_is_terminal);
    if events.len() == 0 {
        assert(start.written_by_all(events, nonblock) + query =~= query);
    } else {
        let earlier = events.drop_last();
        law_query_is_written_whole(query, timeout, begun, stdin_is_terminal, earlier, nonblock);
        let before = start.after_all(earlier, nonblock);
        let written = start.written_by_all(earlier, nonblock);
        let (event, elapsed) = events.last();
        let now_written = start.written_by_all(events, nonblock);
        assert(now_written == written + before.written_by(event));
        match (before, event) {
            (
                WriteState::Write { query: left, output: _, timeout: _ },
                WriteEvent::Wrote(Ok(count)),
            ) => {
                assert(left =~= left.take(count as int) + left.skip(count as int));
                assert(now_written + left.skip(count as int) =~= query);
                assert(left.skip(count as int).len() == 0 ==> now_written =~= query);
            },
            _ => {
                assert(now_written =~= written);
                if before.result() is None && before.unwritten().len() == 0 {
                    assert(written =~= query);
                }
            },
        }
    }
}

/// No step of sending a query waits beyond the deadline: each write, flush and pause begins
/// while time is left, and a pause ends no later than the deadline.
pub proof fn law_query_write_respects_deadline<E>(
    state: WriteState<E>,
    event: WriteEvent<E>,
    elapsed: Nanos,
    nonblock: i32,
    query: Seq<u8>,
    output: QueryOutput,
    timeout: Nanos,
)
    ensures
        timeout.0 <= elapsed.0 ==> {
            &&& write_turns::<E>(query, output, timeout, elapsed).result() == Some(
                Err::<(), Error<E>>(Error::QueryWriteTimeout),
            )
            &&& write_waits::<E>(query, output, timeout, elapsed).result() == Some(
                Err::<(), Error<E>>(Error::QueryWriteTimeout),
            )
        },
        state.after(event, elapsed, nonblock) != state ==> match state.after(
            event,
            elapsed,
            nonblock,
        ) {
            WriteState::Write { query: _, output: _, timeout } => elapsed.0 < timeout.0,
            WriteState::Flush { output: _, timeout } => elapsed.0 < timeout.0,
            WriteState::Sleep { query: _, output: _, timeout, pause } => {
                &&& 0 < pause.0 <= 1_000_000
                &&& elapsed.0 + pause.0 <= timeout.0
            },
            _ => true,
        },
{
}

/// The standard output is left as it was: once a query was sent, or could not be for any
/// reason, the status flags of the standard output are those it had before. While it is
/// written to it does not wait. Every write, flush and pause is made for the target that the
/// query has, and where that is another one the flags are never touched.
pub proof fn law_query_leaves_stdout_as_it_was<E>(
    flags: i32,
    query: Seq<u8>,
    timeout: Nanos,
    begun: Nanos,
    stdin_is_terminal: bool,
    events: Seq<(WriteEvent<E>, Nanos)>,
    nonblock: i32,
)
    requires
        nonblock != 0,
        send_begins::<E>(query, timeout, begun, stdin_is_terminal).flags_are_true(
            flags,
            events,
            nonblock,
        ),
    ensures
        ({
            let start = send_begins::<E>(query, timeout, begun, stdin_is_terminal);
            let state = start.after_all(events, nonblock);
            let current = start.flags_after_all(flags, events, nonblock);
            &&& state is Done ==> current == flags
            &&& !stdin_is_terminal ==> current == flags && !(state is GetFlags) && !(
            state is SetFlags) && !(state is RestoreFlags)
            &&& state matches WriteState::RestoreFlags { flags: restored, result: _ } ==> restored
                == flags
            &&& state.output() matches Some(output) ==> {
                &&& output.target() == spec_query_target(stdin_is_terminal)
                &&& output is Stdout ==> current & nonblock != 0
                &&& match output.spec_flags_to_restore() {
                    Some(original) => original == flags,
                    None => current == flags,
                }
            }
            &&& state matches WriteState::SetFlags { query: _, timeout: _, set } ==> {
                &&& current == flags
                &&& set.original_flags == flags
                &&& set.flags == flags | nonblock
            }
            &&& state is GetFlags || state is OpenTty ==> current == flags
            &&& state is OpenTty ==> !stdin_is_terminal
        }),
    decreases events.len(),
{
    if events.len() > 0 {
        let earlier = events.drop_last();
        law_query_leaves_stdout_as_it_was(
            flags,
            query,
            timeout,
            begun,
            stdin_is_terminal,
            earlier,
            nonblock,
        );
        assert((flags | nonblock) & nonblock == nonblock) by (bit_vector);
    }
}

/// Every step is seen with just what it holds.
pub proof fn law_step_is_seen_as_it_is<'a, E>(
    result: Result<(), Error<E>>,
    flags: FlagsRequest<'a>,
    set: SetRequest<'a>,
    open: OpenRequest<'a>,
    write: WriteRequest<'a>,
    flush: FlushRequest,
    sleep: SleepRequest<'a>,
    restore: RestoreRequest<E>,
)
    ensures
        WriteStep::Done(result)@ == WriteState::Done(result),
        WriteStep::<E>::GetFlags(flags)@ == (WriteState::<E>::GetFlags {
            query: flags.query@,
            timeout: flags.timeout,
        }),
        WriteStep::<E>::SetFlags(set)@ == (WriteState::<E>::SetFlags {
            query: set.query@,
            timeout: set.timeout,
            set: set.set,
        }),
        WriteStep::<E>::OpenTty(open)@ == (WriteState::<E>::OpenTty {
            query: open.query@,
            timeout: open.timeout,
        }),
        WriteStep::<E>::Write(write)@ == (WriteState::<E>::Write {
            query: write.query@,
            output: write.output,
            timeout: write.timeout,
        }),
        WriteStep::<E>::Flush(flush)@ == (WriteState::<E>::Flush {
            output: flush.output,
            timeout: flush.timeout,
        }),
        WriteStep::<E>::Sleep(sleep)@ == (WriteState::<E>::Sleep {
            query: sleep.query@,
            output: sleep.output,
            timeout: sleep.timeout,
            pause: sleep.pause,
        }),
        WriteStep::RestoreFlags(restore)@ == (WriteState::RestoreFlags {
            flags: restore.flags,
            result: restore.result,
        }),
{
}

/// A query goes to the standard output if the standard input is a terminal, and otherwise to
/// the terminal that controls the process. After the deadline it fails at once.
pub proof fn law_query_begins_with_its_target<E>(
    query: Seq<u8>,
    timeout: Nanos,
    elapsed: Nanos,
    guard: NonblockingGuard,
)
    ensures
        spec_query_target(true) == QueryTarget::Stdout,
        spec_query_target(false) == QueryTarget::DevTty,
        QueryOutput::Stdout(guard).target() == QueryTarget::Stdout,
        QueryOutput::DevTty.target() == QueryTarget::DevTty,
        elapsed.0 < timeout.0 ==> {
            &&& send_begins::<E>(query, timeout, elapsed, true) == (WriteState::<E>::GetFlags {
                query,
                timeout,
            })
            &&& send_begins::<E>(query, timeout, elapsed, false) == (WriteState::<E>::OpenTty {
                query,
                timeout,
            })
        },
        forall|stdin_is_terminal: bool|
            elapsed.0 >= timeout.0 ==> #[trigger] send_begins::<E>(
                query,
                timeout,
                elapsed,
                stdin_is_terminal,
            ) == WriteState::<E>::Done(Err(Error::QueryWriteTimeout)),
{
}

/// Before a query has its result, the flags of the standard output are set back exactly if they
/// were changed for it. The result stays what it was.
pub proof fn law_result_comes_after_the_flags<E>(
    flags: i32,
    result: Result<(), Error<E>>,
    elapsed: Nanos,
    nonblock: i32,
)
    ensures
        write_ends(
            QueryOutput::Stdout(NonblockingGuard { original_flags: flags, changed: true }),
            result,
        ) == (WriteState::RestoreFlags { flags, result }),
        write_ends(
            QueryOutput::Stdout(NonblockingGuard { original_flags: flags, changed: false }),
            result,
        ) == WriteState::Done(result),
        write_ends(QueryOutput::DevTty, result) == WriteState::Done(result),
        (WriteState::RestoreFlags { flags, result }).after(WriteEvent::Restored, elapsed, nonblock)
            == WriteState::Done(result),
{
}

/// As long as there is time, what is left of a query is written, and flushed once nothing is
/// left; where the target is not ready there is a pause of a millisecond, or of what is left if
/// that is less. Without time left the query fails.
pub proof fn law_writing_goes_on_while_there_is_time<E>(
    query: Seq<u8>,
    output: QueryOutput,
    timeout: Nanos,
    elapsed: Nanos,
)
    ensures
        elapsed.0 >= timeout.0 ==> {
            let failed = write_ends::<E>(output, Err(Error::QueryWriteTimeout));
            &&& write_turns::<E>(query, output, timeout, elapsed) == failed
            &&& write_waits::<E>(query, output, timeout, elapsed) == failed
        },
        elapsed.0 < timeout.0 ==> {
            &&& query.len() > 0 ==> write_turns::<E>(query, output, timeout, elapsed) == (
            WriteState::<E>::Write { query, output, timeout })
            &&& query.len() == 0 ==> write_turns::<E>(query, output, timeout, elapsed) == (
            WriteState::<E>::Flush { output, timeout })
            &&& timeout.0 - elapsed.0 >= 1_000_000 ==> write_waits::<E>(
                query,
                output,
                timeout,
                elapsed,
            ) == (WriteState::<E>::Sleep { query, output, timeout, pause: Nanos(1_000_000) })
            &&& timeout.0 - elapsed.0 < 1_000_000 ==> write_waits::<E>(
                query,
                output,
                timeout,
                elapsed,
            ) == (WriteState::<E>::Sleep {
                query,
                output,
                timeout,
                pause: Nanos((timeout.0 - elapsed.0) as u128),
            })
        },
{
}

/// The standard output is written to once it does not wait: at once if its flag is set already,
/// otherwise after the flag was added, which is remembered. The other target is written to once
/// it is open. A failure of any of this is the result, and nothing is written.
pub proof fn law_writing_begins_once_the_target_is_ready<E>(
    query: Seq<u8>,
    timeout: Nanos,
    flags: i32,
    nonblock: i32,
    set: SetFlagsRequest,
    failure: Failure<E>,
    elapsed: Nanos,
)
    ensures
        ({
            let asked = WriteState::<E>::GetFlags { query, timeout };
            let setting = WriteState::<E>::SetFlags { query, timeout, set };
            let opening = WriteState::<E>::OpenTty { query, timeout };
            let failed = WriteState::<E>::Done(Err(Error::Io(failure)));
            &&& asked.after(WriteEvent::Flags(Err(failure)), elapsed, nonblock) == failed
            &&& setting.after(WriteEvent::FlagsSet(Err(failure)), elapsed, nonblock) == failed
            &&& opening.after(WriteEvent::Opened(Err(failure)), elapsed, nonblock) == failed
            &&& flags & nonblock == 0 ==> asked.after(
                WriteEvent::Flags(Ok(flags)),
                elapsed,
                nonblock,
            ) == (WriteState::<E>::SetFlags {
                query,
                timeout,
                set: SetFlagsRequest { original_flags: flags, flags: flags | nonblock },
            })
            &&& flags & nonblock != 0 ==> asked.after(
                WriteEvent::Flags(Ok(flags)),
                elapsed,
                nonblock,
            ) == write_turns::<E>(
                query,
                QueryOutput::Stdout(NonblockingGuard { original_flags: flags, changed: false }),
                timeout,
                elapsed,
            )
            &&& setting.after(WriteEvent::FlagsSet(Ok(())), elapsed, nonblock) == write_turns::<E>(
                query,
                QueryOutput::Stdout(
                    NonblockingGuard { original_flags: set.original_flags, changed: true },
                ),
                timeout,
                elapsed,
            )
            &&& opening.after(WriteEvent::Opened(Ok(())), elapsed, nonblock) == write_turns::<E>(
                query,
                QueryOutput::DevTty,
                timeout,
                elapsed,
            )
        }),
{
}

/// After a write that took some bytes, however many, just the others are left, for the same
/// target and the same deadline. A write that took none fails the query; one that would have to
/// wait, or was interrupted, leaves all bytes for after a pause; any other failure is the
/// result.
pub proof fn law_bytes_are_left_until_they_are_written<E>(
    written: Seq<u8>,
    rest: Seq<u8>,
    count: usize,
    output: QueryOutput,
    timeout: Nanos,
    pause: Nanos,
    failure: Failure<E>,
    elapsed: Nanos,
    nonblock: i32,
)
    requires
        written.len() == count,
    ensures
        ({
            let state = WriteState::<E>::Write { query: written + rest, output, timeout };
            let later = failure.kind == ErrorKind::WouldBlock || failure.kind
                == ErrorKind::Interrupted;
            &&& count > 0 ==> state.after(WriteEvent::Wrote(Ok(count)), elapsed, nonblock)
                == write_turns::<E>(rest, output, timeout, elapsed)
            &&& state.after(WriteEvent::Wrote(Ok(0)), elapsed, nonblock) == write_ends::<E>(
                output,
                Err(Error::QueryWriteZero),
            )
            &&& later ==> state.after(WriteEvent::Wrote(Err(failure)), elapsed, nonblock)
                == write_waits::<E>(written + rest, output, timeout, elapsed)
            &&& !later ==> state.after(WriteEvent::Wrote(Err(failure)), elapsed, nonblock)
                == write_ends(output, Err(Error::Io(failure)))
            &&& (WriteState::<E>::Sleep { query: rest, output, timeout, pause }).after(
                WriteEvent::Slept,
                elapsed,
                nonblock,
            ) == write_turns::<E>(rest, output, timeout, elapsed)
        }),
{
    assert((written + rest).skip(count as int) =~= rest);
}

/// A query succeeds once all of it is flushed, even after the deadline. A flush that would have
/// to wait, or was interrupted, is tried again after a pause, with nothing left to write; any
/// other failure is the result.
pub proof fn law_query_succeeds_once_it_is_flushed<E>(
    output: QueryOutput,
    timeout: Nanos,
    failure: Failure<E>,
    elapsed: Nanos,
    nonblock: i32,
)
    ensures
        ({
            let state = WriteState::<E>::Flush { output, timeout };
            let later = failure.kind == ErrorKind::WouldBlock || failure.kind
                == ErrorKind::Interrupted;
            &&& state.after(WriteEvent::Flushed(Ok(())), elapsed, nonblock) == write_ends::<E>(
                output,
                Ok(()),
            )
            &&& later ==> state.after(WriteEvent::Flushed(Err(failure)), elapsed, nonblock)
                == write_waits::<E>(Seq::empty(), output, timeout, elapsed)
            &&& !later ==> state.after(WriteEvent::Flushed(Err(failure)), elapsed, nonblock)
                == write_ends(output, Err(Error::Io(failure)))
        }),
{
}

} // verus!
