//! What each step of a startup probe does with what is reported to it.

use crate::error::{Error, ErrorKind, Failure};
use crate::event::filter::{CursorPositionFilter, Filter, TerminalStartupProbeFilter};
use crate::event::read::{
    accepting, first_accepted, law_first_accepted_is_first, ReaderState, SourceReply,
};
use crate::event::timeout::PollTimeout;
use crate::event::{InternalEvent, KeyModifiers};
use crate::terminal::probe::{KeyboardEnhancementProbe, ProbeState, TerminalStartupProbe};
use crate::terminal::startup::{
    asks, no_replies, spec_query_bytes, spec_standard_position, DisableRequest, EnableRequest,
    LockRequest, QueryKind, RawModeGuard, RetryRequest, SendRequest, SourceRequest, Stage,
    StartupEvent, StartupQuery, StartupState, StartupStep,
};
use crate::time::Nanos;
use vstd::prelude::*;

verus! {

/// Every step is seen with just what it holds.
pub proof fn law_step_is_seen_as_it_is<E>(
    result: Result<TerminalStartupProbe, Error<E>>,
    lock: LockRequest,
    enable: EnableRequest,
    send: SendRequest,
    source: SourceRequest,
    disable: DisableRequest<E>,
    retry: RetryRequest<E>,
)
    ensures
        StartupStep::Done(result)@ == StartupState::Done(result),
        StartupStep::<E>::LockReader(lock)@ == (StartupState::<E>::LockReader {
            timeout: lock.timeout,
            keyboard_probe: lock.keyboard_probe,
        }),
        StartupStep::<E>::EnableRawMode(enable)@ == (StartupState::<E>::EnableRawMode {
            timeout: enable.timeout,
            keyboard_probe: enable.keyboard_probe,
        }),
        StartupStep::<E>::SendQuery(send)@ == (StartupState::<E>::SendQuery {
            query: send.query,
            kind: send.kind,
            held: send.held@,
        }),
        StartupStep::<E>::TryRead(source)@ == (StartupState::<E>::TryRead {
            query: source.query,
            stage: source.stage,
            wait: source.wait,
            held: source.held@,
        }),
        StartupStep::DisableRawMode(disable)@ == (StartupState::DisableRawMode {
            result: disable.result,
        }),
        StartupStep::DisableRawModeAgain(retry)@ == (StartupState::DisableRawModeAgain {
            error: retry.error,
        }),
{
}

/// The questions are always the same bytes: those for the two colors, those for the keyboard
/// and the device attributes if they are wanted, and the extended request for the cursor last.
/// The standard request for the cursor is a query of its own.
pub proof fn law_questions_are_these_bytes(keyboard_probe: KeyboardEnhancementProbe)
    ensures
        spec_query_bytes(QueryKind::StandardCursor, keyboard_probe) == seq![0x1Bu8, 0x5B, 0x36, 0x6E],
        spec_query_bytes(QueryKind::Startup, KeyboardEnhancementProbe::Skip) == seq![
            0x1Bu8, 0x5D, 0x31, 0x30, 0x3B, 0x3F, 0x1B, 0x5C,
            0x1B, 0x5D, 0x31, 0x31, 0x3B, 0x3F, 0x1B, 0x5C,
            0x1B, 0x5B, 0x3F, 0x36, 0x6E,
        ],
        spec_query_bytes(QueryKind::Startup, KeyboardEnhancementProbe::Query) == seq![
            0x1Bu8, 0x5D, 0x31, 0x30, 0x3B, 0x3F, 0x1B, 0x5C,
            0x1B, 0x5D, 0x31, 0x31, 0x3B, 0x3F, 0x1B, 0x5C,
            0x1B, 0x5B, 0x3F, 0x75,
            0x1B, 0x5B, 0x63,
            0x1B, 0x5B, 0x3F, 0x36, 0x6E,
        ],
{
    assert(spec_query_bytes(QueryKind::Startup, KeyboardEnhancementProbe::Skip) =~= seq![
        0x1Bu8, 0x5D, 0x31, 0x30, 0x3B, 0x3F, 0x1B, 0x5C,
        0x1B, 0x5D, 0x31, 0x31, 0x3B, 0x3F, 0x1B, 0x5C,
        0x1B, 0x5B, 0x3F, 0x36, 0x6E,
    ]);
    assert(spec_query_bytes(QueryKind::Startup, KeyboardEnhancementProbe::Query) =~= seq![
        0x1Bu8, 0x5D, 0x31, 0x30, 0x3B, 0x3F, 0x1B, 0x5C,
        0x1B, 0x5D, 0x31, 0x31, 0x3B, 0x3F, 0x1B, 0x5C,
        0x1B, 0x5B, 0x3F, 0x75,
        0x1B, 0x5B, 0x63,
        0x1B, 0x5B, 0x3F, 0x36, 0x6E,
    ]);
}

/// A standard report gives the position in it, also where it can be an F3 key press. Nothing
/// else gives one.
pub proof fn law_standard_report_gives_its_position(
    x: u16,
    y: u16,
    modifiers: KeyModifiers,
    other: InternalEvent,
)
    ensures
        spec_standard_position(InternalEvent::CursorPosition(x, y)) == Some((x, y)),
        spec_standard_position(InternalEvent::CursorPositionOrF3(x, y, modifiers)) == Some((x, y)),
        !(other is CursorPosition) && !(other is CursorPositionOrF3) ==> spec_standard_position(
            other,
        ) is None,
{
}

/// A probe goes on to raw mode exactly if the event reader was locked before the deadline.
/// Otherwise it ends with no reply at all, and the terminal is not touched.
pub proof fn law_probe_begins_with_the_reader<E>(
    timeout: Nanos,
    keyboard_probe: KeyboardEnhancementProbe,
    reader: ReaderState,
    locked: bool,
    elapsed: Nanos,
)
    ensures
        no_replies() == (TerminalStartupProbe {
            cursor_position: None,
            foreground_color: None,
            background_color: None,
            keyboard_enhancement_supported: None,
        }),
        ({
            let (after, state) = (StartupState::<E>::LockReader { timeout, keyboard_probe }).after(
                reader,
                StartupEvent::Locked(locked),
                elapsed,
            );
            &&& after == reader
            &&& locked && elapsed.0 < timeout.0 ==> state == (StartupState::<E>::EnableRawMode {
                timeout,
                keyboard_probe,
            })
            &&& !locked || elapsed.0 >= timeout.0 ==> state == StartupState::<E>::Done(
                Ok(no_replies()),
            )
        }),
{
}

/// Once raw mode is on the questions are sent, if there is time left, by a probe that has no
/// reply yet. Without time left it ends with no reply at all. Either way it will leave raw mode
/// exactly if it has entered it. A failure to enter it is the result.
pub proof fn law_questions_are_asked_in_raw_mode<E>(
    timeout: Nanos,
    keyboard_probe: KeyboardEnhancementProbe,
    reader: ReaderState,
    active: bool,
    failure: Failure<E>,
    elapsed: Nanos,
)
    ensures
        (StartupState::<E>::EnableRawMode { timeout, keyboard_probe }).after(
            reader,
            StartupEvent::Enabled(Err(failure)),
            elapsed,
        ) == (reader, StartupState::<E>::Done(Err(Error::Io(failure)))),
        ({
            let (after, state) = (StartupState::<E>::EnableRawMode {
                timeout,
                keyboard_probe,
            }).after(reader, StartupEvent::Enabled(Ok(active)), elapsed);
            &&& after == reader
            &&& state == asks::<E>(timeout, keyboard_probe, RawModeGuard { active }, elapsed)
            &&& elapsed.0 >= timeout.0 && active ==> state == (StartupState::<E>::DisableRawMode {
                result: Ok(no_replies()),
            })
            &&& elapsed.0 >= timeout.0 && !active ==> state == StartupState::<E>::Done(
                Ok(no_replies()),
            )
            &&& elapsed.0 < timeout.0 ==> state == (StartupState::<E>::SendQuery {
                query: StartupQuery {
                    timeout,
                    keyboard_probe,
                    state: ProbeState {
                        cursor_position: None,
                        foreground_color: None,
                        background_color: None,
                        saw_keyboard_enhancement_flags: false,
                        saw_primary_device_attributes: false,
                    },
                    standard_cursor_attempted: false,
                    guard: RawModeGuard { active },
                },
                kind: QueryKind::Startup,
                held: Seq::empty(),
            })
        }),
{
}

/// A probe that has its result leaves raw mode first if it has entered it. Leaving it hands out
/// the result as it is; a failure to leave it is the result instead, after one more try.
pub proof fn law_result_comes_after_raw_mode<E>(
    query: StartupQuery,
    reader: ReaderState,
    result: Result<TerminalStartupProbe, Error<E>>,
    failure: Failure<E>,
    error: Error<E>,
    elapsed: Nanos,
)
    ensures
        query.guard.active ==> query.finished(result) == (StartupState::DisableRawMode { result }),
        !query.guard.active ==> query.finished(result) == StartupState::Done(result),
        (StartupState::DisableRawMode { result }).after(
            reader,
            StartupEvent::Disabled(Ok(())),
            elapsed,
        ) == (reader, StartupState::Done(result)),
        (StartupState::DisableRawMode { result }).after(
            reader,
            StartupEvent::Disabled(Err(failure)),
            elapsed,
        ) == (reader, StartupState::<E>::DisableRawModeAgain { error: Error::Io(failure) }),
        (StartupState::DisableRawModeAgain { error }).after(
            reader,
            StartupEvent::DisabledAgain,
            elapsed,
        ) == (reader, StartupState::Done(Err(error))),
{
}

/// Whether a reply to every question is recorded.
pub open spec fn answered(query: StartupQuery) -> bool {
    &&& query.state.cursor_position is Some
    &&& query.state.foreground_color is Some
    &&& query.state.background_color is Some
    &&& query.keyboard_probe == KeyboardEnhancementProbe::Query
        ==> query.state.saw_primary_device_attributes
}

/// At the deadline a probe that misses a reply ends with what it has, whatever is queued, and
/// takes nothing from the queue.
pub proof fn law_probe_ends_at_the_deadline<E>(
    query: StartupQuery,
    reader: ReaderState,
    elapsed: Nanos,
)
    requires
        elapsed.0 >= query.timeout.0,
        query.state.cursor_position is None || query.state.foreground_color is None
            || query.state.background_color is None || (query.keyboard_probe
            == KeyboardEnhancementProbe::Query && !query.state.saw_primary_device_attributes),
    ensures
        query.guard.active ==> query.collects::<E>(reader, elapsed) == (
            reader,
            StartupState::<E>::DisableRawMode { result: Ok(query.state.probe()) },
        ),
        !query.guard.active ==> query.collects::<E>(reader, elapsed) == (
            reader,
            StartupState::<E>::Done(Ok(query.state.probe())),
        ),
{
}

/// Before the deadline, a probe without a cursor position makes the standard request as soon as
/// half of the time has passed or everything else is answered, unless it has made it. All that
/// is queued is kept apart meanwhile, in its order.
pub proof fn law_standard_request_is_made_when_due<E>(
    query: StartupQuery,
    reader: ReaderState,
    elapsed: Nanos,
)
    requires
        elapsed.0 < query.timeout.0,
        query.state.cursor_position is None,
        !query.standard_cursor_attempted,
        elapsed.0 >= query.timeout.0 / 2 || (query.state.foreground_color is Some
            && query.state.background_color is Some && (query.keyboard_probe
            == KeyboardEnhancementProbe::Skip || query.state.saw_primary_device_attributes)),
    ensures
        ({
            let (after, state) = query.collects::<E>(reader, elapsed);
            &&& after.events.len() == 0
            &&& after.skipped == reader.skipped
            &&& after.has_source == reader.has_source
            &&& state == (StartupState::<E>::SendQuery {
                query: StartupQuery { standard_cursor_attempted: true, ..query },
                kind: QueryKind::StandardCursor,
                held: reader.events,
            })
        }),
{
}

/// Otherwise a probe takes the first queued event that answers it, wherever it stands, records
/// it, and goes on with the others in their order.
pub proof fn law_first_queued_answer_is_recorded<E>(
    query: StartupQuery,
    reader: ReaderState,
    before: Seq<InternalEvent>,
    event: InternalEvent,
    behind: Seq<InternalEvent>,
    elapsed: Nanos,
)
    requires
        answered(query) || {
            &&& elapsed.0 < query.timeout.0
            &&& query.standard_cursor_attempted || query.state.cursor_position is Some || {
                &&& elapsed.0 < query.timeout.0 / 2
                &&& query.state.foreground_color is None || query.state.background_color is None
                    || query.keyboard_probe == KeyboardEnhancementProbe::Query
                    && !query.state.saw_primary_device_attributes
            }
        },
        reader.events == before + seq![event] + behind,
        ({
            let filter = TerminalStartupProbeFilter {
                query_keyboard: query.keyboard_probe == KeyboardEnhancementProbe::Query,
            };
            &&& filter.accepts(event)
            &&& forall|i: int| 0 <= i < before.len() ==> !filter.accepts(#[trigger] before[i])
        }),
    ensures
        query.collects::<E>(reader, elapsed) == (StartupQuery {
            state: query.state.recorded(event),
            ..query
        }).collects::<E>(ReaderState { events: before + behind, ..reader }, elapsed),
{
    let accepts = accepting(query.filter());
    law_first_accepted_is_first(accepts, reader.events);
    let at = first_accepted(accepts, reader.events);
    assert(reader.events[before.len() as int] == event);
    if at < before.len() {
        assert(reader.events[at] == before[at]);
    }
    assert(reader.events.remove(at) =~= before + behind);
}

/// With no answer in the queue a probe reads the source, and fails where there is none: for
/// just as long as is left until the deadline if the cursor position came or was asked for
/// in the standard way, until half of the time has passed if it was not, and not at all once
/// every question is answered. The queue stays as it is.
pub proof fn law_probe_waits_for_what_is_missing<E>(
    query: StartupQuery,
    reader: ReaderState,
    elapsed: Nanos,
)
    requires
        answered(query) || {
            &&& elapsed.0 < query.timeout.0
            &&& query.standard_cursor_attempted || query.state.cursor_position is Some || {
                &&& elapsed.0 < query.timeout.0 / 2
                &&& query.state.foreground_color is None || query.state.background_color is None
                    || query.keyboard_probe == KeyboardEnhancementProbe::Query
                    && !query.state.saw_primary_device_attributes
            }
        },
        ({
            let filter = TerminalStartupProbeFilter {
                query_keyboard: query.keyboard_probe == KeyboardEnhancementProbe::Query,
            };
            forall|i: int|
                0 <= i < reader.events.len() ==> !filter.accepts(#[trigger] reader.events[i])
        }),
    ensures
        !reader.has_source ==> query.collects::<E>(reader, elapsed) == (
            reader,
            query.finished::<E>(Err(Error::ReaderUnavailable)),
        ),
        reader.has_source ==> {
            let (after, state) = query.collects::<E>(reader, elapsed);
            &&& after == reader
            &&& state matches StartupState::TryRead { query: next, stage, wait, held }
            &&& next == query
            &&& held.len() == 0
            &&& wait.start == elapsed
            &&& wait.timeout is Some
            &&& answered(query) ==> stage == Stage::Drain && wait.timeout->Some_0.0 == 0
            &&& !answered(query) ==> stage == Stage::Collect
            &&& !answered(query) && (query.standard_cursor_attempted
                || query.state.cursor_position is Some) ==> wait.timeout->Some_0.0 + elapsed.0
                == query.timeout.0
            &&& !answered(query) && !query.standard_cursor_attempted
                && query.state.cursor_position is None ==> wait.timeout->Some_0.0 + elapsed.0
                == query.timeout.0 / 2
        },
{
}

/// Once the questions were sent a probe goes on with what is queued, what was kept apart in
/// front. If they could not be sent, that is the result, and nothing is lost either.
pub proof fn law_probe_goes_on_once_the_questions_are_sent<E>(
    query: StartupQuery,
    held: Seq<InternalEvent>,
    reader: ReaderState,
    kind: QueryKind,
    error: Error<E>,
    elapsed: Nanos,
)
    ensures
        ({
            let joined = ReaderState { events: held + reader.events, ..reader };
            &&& (StartupState::<E>::SendQuery { query, kind: QueryKind::Startup, held }).after(
                reader,
                StartupEvent::Sent(Ok(())),
                elapsed,
            ) == query.collects::<E>(joined, elapsed)
            &&& (StartupState::<E>::SendQuery { query, kind, held }).after(
                reader,
                StartupEvent::Sent(Err(error)),
                elapsed,
            ) == (joined, query.finished(Err(error)))
        }),
{
}

/// Once the standard request was sent, a report that is queued is taken as its reply at once,
/// and its position is the position of the probe; otherwise the source is read for just as long
/// as is left. What was kept apart stays so until the reply has come or the time is over.
pub proof fn law_standard_request_waits_for_its_report<E>(
    query: StartupQuery,
    held: Seq<InternalEvent>,
    reader: ReaderState,
    before: Seq<InternalEvent>,
    behind: Seq<InternalEvent>,
    x: u16,
    y: u16,
    modifiers: KeyModifiers,
    report: InternalEvent,
    elapsed: Nanos,
)
    requires
        report == InternalEvent::CursorPosition(x, y) || report
            == InternalEvent::CursorPositionOrF3(x, y, modifiers),
        forall|i: int|
            0 <= i < before.len() ==> !((#[trigger] before[i]) is CursorPosition)
                && !(before[i] is CursorPositionOrF3),
    ensures
        ({
            let (after, state) = (StartupState::<E>::SendQuery {
                query,
                kind: QueryKind::StandardCursor,
                held,
            }).after(reader, StartupEvent::Sent(Ok(())), elapsed);
            &&& elapsed.0 >= query.timeout.0 ==> (after, state) == query.collects::<E>(
                ReaderState { events: held + reader.events, ..reader },
                elapsed,
            )
            &&& elapsed.0 < query.timeout.0 && reader.events == before + seq![report] + behind ==> (
            after, state) == (StartupQuery {
                state: ProbeState { cursor_position: Some((x, y)), ..query.state },
                ..query
            }).collects::<E>(
                ReaderState { events: held + (before + behind), ..reader },
                elapsed,
            )
            &&& elapsed.0 < query.timeout.0 && reader.events == before && !reader.has_source ==> (
            after, state) == (
                ReaderState { events: held + before, ..reader },
                query.finished::<E>(Err(Error::ReaderUnavailable)),
            )
            &&& elapsed.0 < query.timeout.0 && reader.events == before && reader.has_source ==> {
                &&& after == reader
                &&& state matches StartupState::TryRead { query: next, stage, wait, held: kept }
                &&& next == query && stage == Stage::Cursor && kept == held
                &&& wait.start == elapsed
                &&& wait.timeout is Some && wait.timeout->Some_0.0 + elapsed.0 == query.timeout.0
            }
        }),
{
    let accepts = accepting(CursorPositionFilter);
    law_first_accepted_is_first(accepts, reader.events);
    let at = first_accepted(accepts, reader.events);
    if reader.events == before + seq![report] + behind {
        assert(reader.events[before.len() as int] == report);
        if at < before.len() {
            assert(reader.events[at] == before[at]);
        }
        assert(reader.events.remove(at) =~= before + behind);
    }
}

/// A reply that the source brings in time or not is recorded if it answers the probe, and is
/// the position of the probe if it is the report that was waited for. The probe goes on with
/// all that is queued: what was kept apart in front, what was passed over behind.
pub proof fn law_reply_is_recorded<E>(
    query: StartupQuery,
    wait: PollTimeout,
    held: Seq<InternalEvent>,
    reader: ReaderState,
    stage: Stage,
    event: InternalEvent,
    x: u16,
    y: u16,
    modifiers: KeyModifiers,
    elapsed: Nanos,
)
    ensures
        ({
            let (after, state) = (StartupState::<E>::TryRead { query, stage, wait, held }).after(
                reader,
                StartupEvent::Replied(Ok(Some(event))),
                elapsed,
            );
            let filter = TerminalStartupProbeFilter {
                query_keyboard: query.keyboard_probe == KeyboardEnhancementProbe::Query,
            };
            let joined = ReaderState {
                events: held + (reader.events + reader.skipped),
                skipped: Seq::empty(),
                has_source: reader.has_source,
            };
            &&& stage == Stage::Cursor && (event == InternalEvent::CursorPosition(x, y) || event
                == InternalEvent::CursorPositionOrF3(x, y, modifiers)) ==> (after, state) == (
            StartupQuery {
                state: ProbeState { cursor_position: Some((x, y)), ..query.state },
                ..query
            }).collects::<E>(joined, elapsed)
            &&& stage != Stage::Cursor && filter.accepts(event) ==> (after, state) == (
            StartupQuery { state: query.state.recorded(event), ..query }).collects::<E>(
                joined,
                elapsed,
            )
        }),
{
}

/// An event that is not waited for is passed over, and together with a read that brings nothing
/// leaves the probe waiting until its wait is over. From that moment on, a probe whose questions
/// are all answered ends with what it has; any other goes on with all that is queued.
pub proof fn law_probe_passes_over_what_is_no_reply<E>(
    query: StartupQuery,
    wait: PollTimeout,
    held: Seq<InternalEvent>,
    reader: ReaderState,
    stage: Stage,
    event: InternalEvent,
    came: bool,
    elapsed: Nanos,
)
    requires
        ({
            let filter = TerminalStartupProbeFilter {
                query_keyboard: query.keyboard_probe == KeyboardEnhancementProbe::Query,
            };
            &&& stage == Stage::Cursor ==> !(event is CursorPosition) && !(
            event is CursorPositionOrF3)
            &&& stage != Stage::Cursor ==> !filter.accepts(event)
        }),
    ensures
        ({
            let reply: SourceReply<E> = if came {
                Ok(Some(event))
            } else {
                Ok(None)
            };
            let skipped = if came {
                reader.skipped.push(event)
            } else {
                reader.skipped
            };
            let (after, state) = (StartupState::<E>::TryRead { query, stage, wait, held }).after(
                reader,
                StartupEvent::Replied(reply),
                elapsed,
            );
            let joined = ReaderState {
                events: held + (reader.events + skipped),
                skipped: Seq::empty(),
                has_source: reader.has_source,
            };
            &&& !wait.over_at(elapsed) ==> {
                &&& after == (ReaderState { skipped, ..reader })
                &&& state == (StartupState::<E>::TryRead { query, stage, wait, held })
            }
            &&& wait.over_at(elapsed) && stage == Stage::Drain ==> (after, state) == (
                joined,
                query.finished::<E>(Ok(query.state.probe())),
            )
            &&& wait.over_at(elapsed) && stage != Stage::Drain ==> (after, state)
                == query.collects::<E>(joined, elapsed)
        }),
{
}

/// A wake and an interruption count like the end of the wait. Any other error of the source is
/// the result. What was kept apart and what was passed over goes back to the queue.
pub proof fn law_error_of_the_source_ends_a_probe<E>(
    query: StartupQuery,
    wait: PollTimeout,
    held: Seq<InternalEvent>,
    reader: ReaderState,
    stage: Stage,
    error: Error<E>,
    elapsed: Nanos,
)
    ensures
        ({
            let (after, state) = (StartupState::<E>::TryRead { query, stage, wait, held }).after(
                reader,
                StartupEvent::Replied(Err(error)),
                elapsed,
            );
            let joined = ReaderState {
                events: held + (reader.events + reader.skipped),
                skipped: Seq::empty(),
                has_source: reader.has_source,
            };
            let interrupted = error is WokenUp || (error matches Error::Io(failure) && failure.kind
                == ErrorKind::Interrupted);
            &&& !interrupted ==> (after, state) == (joined, query.finished(Err(error)))
            &&& interrupted && stage == Stage::Drain ==> (after, state) == (
                joined,
                query.finished::<E>(Ok(query.state.probe())),
            )
            &&& interrupted && stage != Stage::Drain ==> (after, state) == query.collects::<E>(
                joined,
                elapsed,
            )
        }),
{
}

} // verus!
