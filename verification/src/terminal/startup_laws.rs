//! What holds of every startup probe, whatever the terminal replies and whenever.

use crate::error::Error;
use crate::event::filter::{
    CursorPositionFilter, EventFilter, Filter, TerminalStartupProbeFilter,
};
use crate::event::read::{
    accepted, accepting, accepts_any, first_accepted, law_first_accepted_is_first, rejected,
    rejecting, ReaderState, SourceReply,
};
use crate::event::read_laws::{lemma_filter_push, lemma_filter_remove};
use crate::event::timeout::PollTimeout;
use crate::event::InternalEvent;
use crate::terminal::probe::KeyboardEnhancementProbe;
use crate::terminal::startup::{
    spec_standard_position, QueryKind, Stage, StartupEvent, StartupQuery, StartupState,
};
use crate::time::Nanos;
use vstd::prelude::*;

verus! {

/// All events that a reader and a probe hold for others, in their order.
pub open spec fn pending_input<E>(reader: ReaderState, state: StartupState<E>) -> Seq<InternalEvent> {
    state.held() + reader.pending()
}

/// The event that a report brings, if the probe was waiting for the source.
pub open spec fn arrived<E>(state: StartupState<E>, event: StartupEvent<E>) -> Seq<InternalEvent> {
    match (state, event) {
        (
            StartupState::TryRead { query: _, stage: _, wait: _, held: _ },
            StartupEvent::Replied(Ok(Some(event))),
        ) => seq![event],
        _ => Seq::empty(),
    }
}

/// All events that a run of reports brings, in their order.
pub open spec fn arrived_in_all<E>(
    state: StartupState<E>,
    reader: ReaderState,
    events: Seq<(StartupEvent<E>, Nanos)>,
) -> Seq<InternalEvent>
    decreases events.len(),
{
    if events.len() == 0 {
        Seq::empty()
    } else {
        arrived_in_all(state, reader, events.drop_last()) + arrived(
            state.after_all(reader, events.drop_last()).1,
            events.last().0,
        )
    }
}

/// The events for the user among others, in their order.
pub open spec fn user_events(events: Seq<InternalEvent>) -> Seq<InternalEvent> {
    events.filter(|event: InternalEvent| event is Event)
}

/// Going on with queued events takes none but those that answer the probe.
proof fn lemma_collects_keeps<E>(
    query: StartupQuery,
    reader: ReaderState,
    elapsed: Nanos,
    keep: spec_fn(InternalEvent) -> bool,
)
    requires
        forall|event: InternalEvent| #[trigger]
            query.filter().accepts(event) ==> !keep(event),
    ensures
        ({
            let (after, state) = query.collects::<E>(reader, elapsed);
            &&& pending_input(after, state).filter(keep) == reader.pending().filter(keep)
            &&& after.skipped == reader.skipped
        }),
    decreases reader.events.len(),
{
    let (after, state) = query.collects::<E>(reader, elapsed);
    if !query.complete() && query.timeout.minus(elapsed) == Nanos(0) {
        assert(pending_input(after, state) =~= reader.pending());
    } else if !query.complete() && query.wants_standard_cursor(elapsed) {
        assert(pending_input(after, state) =~= reader.pending());
    } else if accepts_any(accepting(query.filter()), reader.events) {
        law_first_accepted_is_first(accepting(query.filter()), reader.events);
        let at = first_accepted(accepting(query.filter()), reader.events);
        let taken = reader.events[at];
        let rest = ReaderState { events: reader.events.remove(at), ..reader };
        lemma_collects_keeps::<E>(query.recorded(taken), rest, elapsed, keep);
        assert(reader.pending().remove(at) =~= rest.pending());
        lemma_filter_remove(reader.pending(), at, keep);
    } else {
        assert(pending_input(after, state) =~= reader.pending());
    }
}

/// A reply of the source adds the event that it brings to those that are kept, unless it is
/// the one that the probe was waiting for.
proof fn lemma_replied_keeps<E>(
    query: StartupQuery,
    stage: Stage,
    wait: PollTimeout,
    held: Seq<InternalEvent>,
    reader: ReaderState,
    reply: SourceReply<E>,
    elapsed: Nanos,
    keep: spec_fn(InternalEvent) -> bool,
)
    requires
        forall|event: InternalEvent| #[trigger]
            query.filter().accepts(event) ==> !keep(event),
    ensures
        ({
            let before = StartupState::<E>::TryRead { query, stage, wait, held };
            let (after, state) = query.replied(stage, wait, held, reader, reply, elapsed);
            let kept = pending_input(reader, before).filter(keep);
            pending_input(after, state).filter(keep) == match reply {
                Ok(Some(event)) => if keep(event) && !query.awaits(stage, event) {
                    kept.push(event)
                } else {
                    kept
                },
                _ => kept,
            }
        }),
{
    let before = StartupState::<E>::TryRead { query, stage, wait, held };
    let (after, state) = query.replied(stage, wait, held, reader, reply, elapsed);
    let settled = reader.settled().prepended(held);
    assert(settled.pending() =~= pending_input(reader, before));
    match reply {
        Ok(Some(event)) => {
            lemma_filter_push(pending_input(reader, before), event, keep);
            if query.awaits(stage, event) {
                let next = match stage {
                    Stage::Cursor => query.located(event),
                    _ => query.recorded(event),
                };
                assert(next.filter() == query.filter());
                lemma_collects_keeps::<E>(next, settled, elapsed, keep);
            } else {
                let passed = ReaderState { skipped: reader.skipped.push(event), ..reader };
                let all = passed.settled().prepended(held);
                assert(all.pending() =~= pending_input(reader, before).push(event));
                assert(held + passed.pending() =~= pending_input(reader, before).push(event));
                assert(Seq::<InternalEvent>::empty() + all.pending() =~= all.pending());
                lemma_collects_keeps::<E>(query, all, elapsed, keep);
            }
        },
        _ => {
            assert(Seq::<InternalEvent>::empty() + settled.pending() =~= settled.pending());
            lemma_collects_keeps::<E>(query, settled, elapsed, keep);
        },
    }
}

/// Sending a query takes no event but a cursor report that is waiting when the standard
/// request was sent.
proof fn lemma_sent_keeps<E>(
    query: StartupQuery,
    kind: QueryKind,
    held: Seq<InternalEvent>,
    reader: ReaderState,
    sent: Result<(), Error<E>>,
    elapsed: Nanos,
    keep: spec_fn(InternalEvent) -> bool,
)
    requires
        forall|event: InternalEvent| #[trigger]
            query.filter().accepts(event) ==> !keep(event),
        forall|event: InternalEvent| #[trigger]
            CursorPositionFilter.accepts(event) ==> !keep(event),
    ensures
        ({
            let before = StartupState::<E>::SendQuery { query, kind, held };
            let (after, state) = query.sent(kind, held, reader, sent, elapsed);
            pending_input(after, state).filter(keep) == pending_input(reader, before).filter(keep)
        }),
{
    let before = StartupState::<E>::SendQuery { query, kind, held };
    let (after, state) = query.sent(kind, held, reader, sent, elapsed);
    let all = reader.prepended(held);
    assert(all.pending() =~= pending_input(reader, before));
    assert(Seq::<InternalEvent>::empty() + all.pending() =~= all.pending());
    lemma_collects_keeps::<E>(query, all, elapsed, keep);
    if accepts_any(accepting(CursorPositionFilter), reader.events) {
        law_first_accepted_is_first(accepting(CursorPositionFilter), reader.events);
        let at = first_accepted(accepting(CursorPositionFilter), reader.events);
        let rest = (ReaderState { events: reader.events.remove(at), ..reader }).prepended(held);
        let taken = reader.events[at];
        assert(rest.pending() =~= all.pending().remove(held.len() + at));
        assert(all.pending()[held.len() + at] == taken);
        lemma_filter_remove(all.pending(), held.len() + at, keep);
        assert(query.located(taken).filter() == query.filter());
        lemma_collects_keeps::<E>(query.located(taken), rest, elapsed, keep);
    }
}

/// One report takes no event for the user and adds the one that it brings at the end.
proof fn lemma_report_keeps_user_events<E>(
    state: StartupState<E>,
    reader: ReaderState,
    event: StartupEvent<E>,
    elapsed: Nanos,
)
    ensures
        ({
            let (reader_after, after) = state.after(reader, event, elapsed);
            user_events(pending_input(reader_after, after)) == user_events(
                pending_input(reader, state),
            ) + user_events(arrived(state, event))
        }),
{
    reveal(Seq::filter);
    let keep = |event: InternalEvent| event is Event;
    let kept = pending_input(reader, state).filter(keep);
    assert(Seq::<InternalEvent>::empty().filter(keep) =~= Seq::empty());
    assert(kept + Seq::<InternalEvent>::empty() =~= kept);
    match (state, event) {
        (StartupState::SendQuery { query, kind, held }, StartupEvent::Sent(sent)) => {
            lemma_sent_keeps(query, kind, held, reader, sent, elapsed, keep);
        },
        (StartupState::TryRead { query, stage, wait, held }, StartupEvent::Replied(reply)) => {
            lemma_replied_keeps(query, stage, wait, held, reader, reply, elapsed, keep);
            if let Ok(Some(event)) = reply {
                lemma_filter_push(Seq::empty(), event, keep);
                assert(seq![event] =~= Seq::empty().push(event));
                assert(kept + seq![event] =~= kept.push(event));
            }
        },
        _ => {},
    }
}

/// A startup probe takes nothing from the user: whatever is reported and whenever, all
/// events for the user that were queued before and that come in meanwhile, such as key
/// presses and pastes, are still there, in the order they came.
pub proof fn law_probe_preserves_input<E>(
    state: StartupState<E>,
    reader: ReaderState,
    events: Seq<(StartupEvent<E>, Nanos)>,
)
    ensures
        ({
            let (reader_after, after) = state.after_all(reader, events);
            user_events(pending_input(reader_after, after)) == user_events(
                pending_input(reader, state),
            ) + user_events(arrived_in_all(state, reader, events))
        }),
    decreases events.len(),
{
    reveal(Seq::filter);
    let keep = |event: InternalEvent| event is Event;
    if events.len() == 0 {
        assert(Seq::<InternalEvent>::empty().filter(keep) =~= Seq::empty());
        let kept = user_events(pending_input(reader, state));
        assert(kept + Seq::<InternalEvent>::empty() =~= kept);
    } else {
        let earlier = events.drop_last();
        law_probe_preserves_input(state, reader, earlier);
        let (reader_before, before) = state.after_all(reader, earlier);
        let (event, elapsed) = events.last();
        lemma_report_keeps_user_events(before, reader_before, event, elapsed);
        let came = arrived_in_all(state, reader, earlier);
        Seq::filter_distributes_over_add(came, arrived(before, event), keep);
        let kept = user_events(pending_input(reader, state));
        assert(kept + (user_events(came) + user_events(arrived(before, event))) =~= kept
            + user_events(came) + user_events(arrived(before, event)));
    }
}

/// Outside of the wait for a standard cursor report, a probe takes none but the replies to
/// its own questions. In that wait it takes nothing but the one report that ends it, so that
/// a report that can be an F3 key press is consumed at most there; everything else, queued
/// before or coming in meanwhile, keeps its place.
pub proof fn law_only_awaited_reports_are_taken<E>(
    query: StartupQuery,
    stage: Stage,
    wait: PollTimeout,
    held: Seq<InternalEvent>,
    reader: ReaderState,
    reply: SourceReply<E>,
    elapsed: Nanos,
)
    ensures
        ({
            let before = StartupState::<E>::TryRead { query, stage, wait, held };
            let (reader_after, after) = before.after(
                reader,
                StartupEvent::Replied(reply),
                elapsed,
            );
            let kept = rejected(accepting(query.filter()), pending_input(reader, before));
            rejected(accepting(query.filter()), pending_input(reader_after, after)) == match reply {
                Ok(Some(event)) => if query.filter().accepts(event) || (stage == Stage::Cursor
                    && CursorPositionFilter.accepts(event)) {
                    kept
                } else {
                    kept.push(event)
                },
                _ => kept,
            }
        }),
{
    let keep = rejecting(accepting(query.filter()));
    lemma_replied_keeps(query, stage, wait, held, reader, reply, elapsed, keep);
}

/// When the standard cursor position request becomes due, everything that is queued is kept
/// apart, so that the report is not taken from what came before the request; and when the
/// request was sent, or could not be, nothing of what was kept apart is lost.
pub proof fn law_queued_input_is_kept_apart<E>(
    query: StartupQuery,
    held: Seq<InternalEvent>,
    reader: ReaderState,
    sent: Result<(), Error<E>>,
    elapsed: Nanos,
)
    ensures
        ({
            let (after, state) = query.collects::<E>(reader, elapsed);
            state is SendQuery ==> after.events.len() == 0
        }),
        reader.events.len() == 0 ==> {
            let before = StartupState::<E>::SendQuery {
                query,
                kind: QueryKind::StandardCursor,
                held,
            };
            let (reader_after, after) = before.after(reader, StartupEvent::Sent(sent), elapsed);
            rejected(accepting(query.filter()), pending_input(reader_after, after)) == rejected(
                accepting(query.filter()),
                pending_input(reader, before),
            )
        },
    decreases reader.events.len(),
{
    let keep = rejecting(accepting(query.filter()));
    if reader.events.len() == 0 {
        let before = StartupState::<E>::SendQuery { query, kind: QueryKind::StandardCursor, held };
        let all = reader.prepended(held);
        assert(all.pending() =~= pending_input(reader, before));
        assert(Seq::<InternalEvent>::empty() + all.pending() =~= all.pending());
        lemma_collects_keeps::<E>(query, all, elapsed, keep);
    }
    if accepts_any(accepting(query.filter()), reader.events) {
        law_first_accepted_is_first(accepting(query.filter()), reader.events);
        let at = first_accepted(accepting(query.filter()), reader.events);
        let rest = ReaderState { events: reader.events.remove(at), ..reader };
        law_queued_input_is_kept_apart(
            query.recorded(reader.events[at]),
            held,
            rest,
            sent,
            elapsed,
        );
    }
}

impl<E> StartupState<E> {
    /// How far a probe has come with the standard cursor position request: not made, being
    /// sent, waiting for its report, or over.
    pub open spec fn cursor_phase(self) -> nat {
        match self {
            StartupState::LockReader { timeout: _, keyboard_probe: _ } => 0,
            StartupState::EnableRawMode { timeout: _, keyboard_probe: _ } => 0,
            StartupState::SendQuery { query: _, kind, held: _ } => if kind
                == QueryKind::StandardCursor {
                1
            } else {
                0
            },
            StartupState::TryRead { query, stage, wait: _, held: _ } => if stage == Stage::Cursor {
                2
            } else if query.standard_cursor_attempted {
                3
            } else {
                0
            },
            _ => 3,
        }
    }

    /// Whether the request counts as made from the moment when it is sent.
    pub open spec fn cursor_consistent(self) -> bool {
        match self {
            StartupState::SendQuery { query, kind, held: _ } => query.standard_cursor_attempted == (
            kind == QueryKind::StandardCursor),
            StartupState::TryRead { query, stage, wait: _, held: _ } => stage == Stage::Cursor
                ==> query.standard_cursor_attempted,
            _ => true,
        }
    }

    /// Whether the probe has switched raw mode on and has not left it yet.
    pub open spec fn in_raw_mode(self) -> bool {
        match self {
            StartupState::SendQuery { query, kind: _, held: _ } => query.guard.active,
            StartupState::TryRead { query, stage: _, wait: _, held: _ } => query.guard.active,
            StartupState::DisableRawMode { result: _ } => true,
            _ => false,
        }
    }

    /// Whether the wait for the source ends no later than the deadline, or is not made at all
    /// since all replies are in.
    pub open spec fn waits_within_deadline(self) -> bool {
        match self {
            StartupState::TryRead { query, stage, wait, held: _ } => {
                &&& wait.timeout matches Some(span)
                &&& if stage == Stage::Drain {
                    span == Nanos(0)
                } else {
                    0 < span.0 && wait.start.0 + span.0 <= query.timeout.0
                }
            },
            _ => true,
        }
    }
}

/// What going on with queued events leaves as it was, and where it can lead.
proof fn lemma_collects_shape<E>(query: StartupQuery, reader: ReaderState, elapsed: Nanos)
    ensures
        ({
            let (after, state) = query.collects::<E>(reader, elapsed);
            &&& state.cursor_consistent()
            &&& state.waits_within_deadline()
            &&& query.standard_cursor_attempted ==> state.cursor_phase() == 3
            &&& state.cursor_phase() != 2
            &&& state.in_raw_mode() == query.guard.active
            &&& state.deadline() is None || state.deadline() == Some(query.timeout)
            &&& state.keyboard() is None || state.keyboard() == Some(query.keyboard_probe)
            &&& !(state is LockReader)
            &&& !(state is EnableRawMode)
            &&& !(state is DisableRawModeAgain)
            &&& state is SendQuery ==> state.cursor_phase() == 1 && elapsed.0 < query.timeout.0
            &&& state is TryRead ==> state->TryRead_wait.start == elapsed
            &&& elapsed.0 >= query.timeout.0 && state is TryRead ==> state->TryRead_stage
                == Stage::Drain
        }),
    decreases reader.events.len(),
{
    if accepts_any(accepting(query.filter()), reader.events) {
        law_first_accepted_is_first(accepting(query.filter()), reader.events);
        let at = first_accepted(accepting(query.filter()), reader.events);
        let rest = ReaderState { events: reader.events.remove(at), ..reader };
        lemma_collects_shape::<E>(query.recorded(reader.events[at]), rest, elapsed);
    }
}

/// The same of what follows a reply of the source.
proof fn lemma_replied_shape<E>(
    query: StartupQuery,
    stage: Stage,
    wait: PollTimeout,
    held: Seq<InternalEvent>,
    reader: ReaderState,
    reply: SourceReply<E>,
    elapsed: Nanos,
)
    ensures
        ({
            let before = StartupState::<E>::TryRead { query, stage, wait, held };
            let (after, state) = query.replied(stage, wait, held, reader, reply, elapsed);
            &&& before.cursor_consistent() ==> state.cursor_consistent()
            &&& before.cursor_consistent() ==> before.cursor_phase() <= state.cursor_phase()
            &&& before.waits_within_deadline() ==> state.waits_within_deadline()
            &&& state.in_raw_mode() == query.guard.active
            &&& state.deadline() is None || state.deadline() == Some(query.timeout)
            &&& state.keyboard() is None || state.keyboard() == Some(query.keyboard_probe)
            &&& !(state is LockReader)
            &&& !(state is EnableRawMode)
            &&& !(state is DisableRawModeAgain)
            &&& state is SendQuery ==> elapsed.0 < query.timeout.0
            &&& before.waits_within_deadline() && elapsed.0 >= query.timeout.0 && state is TryRead
                ==> state->TryRead_stage == Stage::Drain
        }),
{
    let settled = reader.settled().prepended(held);
    lemma_collects_shape::<E>(query, settled, elapsed);
    if let Ok(Some(event)) = reply {
        lemma_collects_shape::<E>(query.recorded(event), settled, elapsed);
        lemma_collects_shape::<E>(query.located(event), settled, elapsed);
        let passed = ReaderState { skipped: reader.skipped.push(event), ..reader };
        lemma_collects_shape::<E>(query, passed.settled().prepended(held), elapsed);
    }
}

/// The same of what follows sending a query.
proof fn lemma_sent_shape<E>(
    query: StartupQuery,
    kind: QueryKind,
    held: Seq<InternalEvent>,
    reader: ReaderState,
    sent: Result<(), Error<E>>,
    elapsed: Nanos,
)
    ensures
        ({
            let before = StartupState::<E>::SendQuery { query, kind, held };
            let (after, state) = query.sent(kind, held, reader, sent, elapsed);
            &&& before.cursor_consistent() ==> state.cursor_consistent()
            &&& before.cursor_consistent() ==> before.cursor_phase() <= state.cursor_phase()
            &&& before.cursor_consistent() && kind == QueryKind::StandardCursor
                ==> state.cursor_phase() >= 2
            &&& state.waits_within_deadline()
            &&& state.in_raw_mode() == query.guard.active
            &&& state.deadline() is None || state.deadline() == Some(query.timeout)
            &&& state.keyboard() is None || state.keyboard() == Some(query.keyboard_probe)
            &&& !(state is LockReader)
            &&& !(state is EnableRawMode)
            &&& !(state is DisableRawModeAgain)
            &&& state is SendQuery ==> elapsed.0 < query.timeout.0
            &&& elapsed.0 >= query.timeout.0 && state is TryRead ==> state->TryRead_stage
                == Stage::Drain
        }),
{
    let all = reader.prepended(held);
    lemma_collects_shape::<E>(query, all, elapsed);
    if accepts_any(accepting(CursorPositionFilter), reader.events) {
        let at = first_accepted(accepting(CursorPositionFilter), reader.events);
        let rest = (ReaderState { events: reader.events.remove(at), ..reader }).prepended(held);
        lemma_collects_shape::<E>(query.located(reader.events[at]), rest, elapsed);
    }
}

/// One report leads from each phase of the standard cursor position request to the same or a
/// later one.
proof fn lemma_cursor_phases_in_order<E>(
    state: StartupState<E>,
    reader: ReaderState,
    event: StartupEvent<E>,
    elapsed: Nanos,
)
    requires
        state.cursor_consistent(),
    ensures
        ({
            let after = state.after(reader, event, elapsed).1;
            &&& after.cursor_consistent()
            &&& state.cursor_phase() <= after.cursor_phase()
            &&& state.sends_standard_request(event) ==> state.cursor_phase() == 1
                && after.cursor_phase() >= 2
        }),
{
    match (state, event) {
        (StartupState::SendQuery { query, kind, held }, StartupEvent::Sent(sent)) => {
            lemma_sent_shape(query, kind, held, reader, sent, elapsed);
        },
        (StartupState::TryRead { query, stage, wait, held }, StartupEvent::Replied(reply)) => {
            lemma_replied_shape(query, stage, wait, held, reader, reply, elapsed);
        },
        _ => {},
    }
}

impl<E> StartupState<E> {
    /// Whether a report is about the standard cursor position request being sent.
    pub open spec fn sends_standard_request(self, event: StartupEvent<E>) -> bool {
        &&& self matches StartupState::SendQuery { query: _, kind, held: _ }
        &&& kind == QueryKind::StandardCursor
        &&& event is Sent
    }

    /// How many standard cursor position requests are sent in a run of reports.
    pub open spec fn standard_requests(
        self,
        reader: ReaderState,
        events: Seq<(StartupEvent<E>, Nanos)>,
    ) -> nat
        decreases events.len(),
    {
        if events.len() == 0 {
            0
        } else {
            let before = self.after_all(reader, events.drop_last()).1;
            self.standard_requests(reader, events.drop_last()) + if before.sends_standard_request(
                events.last().0,
            ) {
                1nat
            } else {
                0nat
            }
        }
    }

    /// Whether a run of reports leaves raw mode switched on by the probe. A second try to
    /// switch it off is the last, whatever comes of it.
    pub open spec fn owes_raw_mode(
        self,
        reader: ReaderState,
        events: Seq<(StartupEvent<E>, Nanos)>,
    ) -> bool
        decreases events.len(),
    {
        events.len() > 0 && {
            let before = self.after_all(reader, events.drop_last()).1;
            match (before, events.last().0) {
                (
                    StartupState::EnableRawMode { timeout: _, keyboard_probe: _ },
                    StartupEvent::Enabled(Ok(was_off)),
                ) => was_off,
                (
                    StartupState::DisableRawMode { result: _ },
                    StartupEvent::Disabled(Ok(_)),
                ) => false,
                (
                    StartupState::DisableRawModeAgain { error: _ },
                    StartupEvent::DisabledAgain,
                ) => false,
                _ => self.owes_raw_mode(reader, events.drop_last()),
            }
        }
    }

    /// The deadline of a probe under way.
    pub open spec fn deadline(self) -> Option<Nanos> {
        match self {
            StartupState::LockReader { timeout, keyboard_probe: _ } => Some(timeout),
            StartupState::EnableRawMode { timeout, keyboard_probe: _ } => Some(timeout),
            StartupState::SendQuery { query, kind: _, held: _ } => Some(query.timeout),
            StartupState::TryRead { query, stage: _, wait: _, held: _ } => Some(query.timeout),
            _ => None,
        }
    }

    /// Whether a probe under way asks about the keyboard.
    pub open spec fn keyboard(self) -> Option<KeyboardEnhancementProbe> {
        match self {
            StartupState::LockReader { timeout: _, keyboard_probe } => Some(keyboard_probe),
            StartupState::EnableRawMode { timeout: _, keyboard_probe } => Some(keyboard_probe),
            StartupState::SendQuery { query, kind: _, held: _ } => Some(query.keyboard_probe),
            StartupState::TryRead { query, stage: _, wait: _, held: _ } => Some(
                query.keyboard_probe,
            ),
            _ => None,
        }
    }

    /// Whether a probe has its result.
    pub open spec fn has_result(self) -> bool {
        self is Done || self is DisableRawMode || self is DisableRawModeAgain
    }

    /// Whether nothing more is waited for: the probe has ended or has to leave raw mode, or
    /// it takes replies that are there already.
    pub open spec fn is_ending(self) -> bool {
        ||| self.has_result()
        ||| self is TryRead && self->TryRead_stage == Stage::Drain
    }
}

/// Whatever is reported and whenever, the standard cursor position request is sent at most
/// once.
pub proof fn law_standard_cursor_is_asked_once<E>(
    timeout: Nanos,
    keyboard_probe: KeyboardEnhancementProbe,
    reader: ReaderState,
    events: Seq<(StartupEvent<E>, Nanos)>,
)
    ensures
        ({
            let start = StartupState::<E>::LockReader { timeout, keyboard_probe };
            let state = start.after_all(reader, events).1;
            &&& start.standard_requests(reader, events) <= 1
            &&& start.standard_requests(reader, events) == 1 ==> state.cursor_phase() >= 2
            &&& state.cursor_consistent()
        }),
    decreases events.len(),
{
    if events.len() > 0 {
        let start = StartupState::<E>::LockReader { timeout, keyboard_probe };
        let earlier = events.drop_last();
        law_standard_cursor_is_asked_once(timeout, keyboard_probe, reader, earlier);
        let (reader_before, before) = start.after_all(reader, earlier);
        lemma_cursor_phases_in_order(before, reader_before, events.last().0, events.last().1);
    }
}

/// The report that ends the wait for it gives the cursor position, be it one that can be an
/// F3 key press or not. It is consumed by that: no further report is waited for, and the
/// events that were kept apart stand in front of the queue again.
pub proof fn law_standard_report_is_consumed_once<E>(
    query: StartupQuery,
    wait: PollTimeout,
    held: Seq<InternalEvent>,
    reader: ReaderState,
    report: InternalEvent,
    elapsed: Nanos,
)
    requires
        CursorPositionFilter.accepts(report),
        query.standard_cursor_attempted,
    ensures
        ({
            let before = StartupState::<E>::TryRead { query, stage: Stage::Cursor, wait, held };
            let (reader_after, after) = before.after(
                reader,
                StartupEvent::Replied(Ok(Some(report))),
                elapsed,
            );
            let located = query.located(report);
            &&& located.state.cursor_position is Some
            &&& located.state.cursor_position == spec_standard_position(report)
            &&& (reader_after, after) == located.collects::<E>(
                reader.settled().prepended(held),
                elapsed,
            )
            &&& after.cursor_phase() == 3
        }),
{
    lemma_collects_shape::<E>(query.located(report), reader.settled().prepended(held), elapsed);
}

/// The events that answer a probe.
pub open spec fn answering(keyboard_probe: KeyboardEnhancementProbe) -> spec_fn(
    InternalEvent,
) -> bool {
    accepting(
        TerminalStartupProbeFilter {
            query_keyboard: keyboard_probe == KeyboardEnhancementProbe::Query,
        },
    )
}

/// The event that a report brings, unless it answers the probe or is the standard cursor
/// report that is waited for.
pub open spec fn passed_over<E>(state: StartupState<E>, event: StartupEvent<E>) -> Seq<
    InternalEvent,
> {
    match (state, event) {
        (
            StartupState::TryRead { query, stage, wait: _, held: _ },
            StartupEvent::Replied(Ok(Some(event))),
        ) => if query.filter().accepts(event) || query.awaits(stage, event) {
            Seq::empty()
        } else {
            seq![event]
        },
        _ => Seq::empty(),
    }
}

/// All such events of a run of reports, in their order.
pub open spec fn passed_over_in_all<E>(
    state: StartupState<E>,
    reader: ReaderState,
    events: Seq<(StartupEvent<E>, Nanos)>,
) -> Seq<InternalEvent>
    decreases events.len(),
{
    if events.len() == 0 {
        Seq::empty()
    } else {
        passed_over_in_all(state, reader, events.drop_last()) + passed_over(
            state.after_all(reader, events.drop_last()).1,
            events.last().0,
        )
    }
}

/// Whether a sequence is another one, or that less one report that can be an F3 key press.
pub open spec fn lacks_at_most_one_report(
    some: Seq<InternalEvent>,
    all: Seq<InternalEvent>,
) -> bool {
    some == all || exists|at: int|
        0 <= at < all.len() && (#[trigger] all[at]) is CursorPositionOrF3 && some == all.remove(at)
}

/// What holds of a reader and a probe under way: no event is passed over unless the source is
/// being read, and the queue is empty when the standard cursor position request is sent.
spec fn queue_consistent<E>(
    reader: ReaderState,
    state: StartupState<E>,
    keyboard_probe: KeyboardEnhancementProbe,
) -> bool {
    &&& state.keyboard() is None || state.keyboard() == Some(keyboard_probe)
    &&& !(state is TryRead) ==> reader.skipped.len() == 0
    &&& state matches StartupState::SendQuery { query: _, kind, held: _ } ==> kind
        == QueryKind::StandardCursor ==> reader.events.len() == 0
}

/// Going on with queued events leaves reader and probe so.
proof fn lemma_collects_queue<E>(
    query: StartupQuery,
    reader: ReaderState,
    elapsed: Nanos,
    keyboard_probe: KeyboardEnhancementProbe,
)
    requires
        query.keyboard_probe == keyboard_probe,
        reader.skipped.len() == 0,
    ensures
        ({
            let (after, state) = query.collects::<E>(reader, elapsed);
            queue_consistent(after, state, keyboard_probe)
        }),
{
    lemma_collects_shape::<E>(query, reader, elapsed);
    lemma_collects_keeps::<E>(query, reader, elapsed, |event: InternalEvent| false);
    law_queued_input_is_kept_apart::<E>(query, Seq::empty(), reader, Ok(()), elapsed);
}

/// One report takes none but the answers and the report that is waited for, adds what it
/// brings at the end, and leaves reader and probe so.
proof fn lemma_report_keeps_input<E>(
    state: StartupState<E>,
    reader: ReaderState,
    event: StartupEvent<E>,
    elapsed: Nanos,
    keyboard_probe: KeyboardEnhancementProbe,
)
    requires
        queue_consistent(reader, state, keyboard_probe),
    ensures
        ({
            let (reader_after, after) = state.after(reader, event, elapsed);
            let answers = answering(keyboard_probe);
            &&& queue_consistent(reader_after, after, keyboard_probe)
            &&& rejected(answers, pending_input(reader_after, after)) == rejected(
                answers,
                pending_input(reader, state),
            ) + passed_over(state, event)
        }),
{
    let kept = rejected(answering(keyboard_probe), pending_input(reader, state));
    assert(kept + Seq::<InternalEvent>::empty() =~= kept);
    match (state, event) {
        (StartupState::SendQuery { query, kind, held }, StartupEvent::Sent(sent)) => {
            assert(answering(keyboard_probe) == accepting(query.filter()));
            let all = reader.prepended(held);
            assert(all.pending() =~= pending_input(reader, state));
            assert(Seq::<InternalEvent>::empty() + all.pending() =~= all.pending());
            lemma_collects_keeps::<E>(
                query,
                all,
                elapsed,
                rejecting(accepting(query.filter())),
            );
            lemma_collects_queue::<E>(query, all, elapsed, keyboard_probe);
        },
        (StartupState::TryRead { query, stage, wait, held }, StartupEvent::Replied(reply)) => {
            assert(answering(keyboard_probe) == accepting(query.filter()));
            law_only_awaited_reports_are_taken(query, stage, wait, held, reader, reply, elapsed);
            let settled = reader.settled().prepended(held);
            lemma_collects_queue::<E>(query, settled, elapsed, keyboard_probe);
            if let Ok(Some(event)) = reply {
                lemma_collects_queue::<E>(query.recorded(event), settled, elapsed, keyboard_probe);
                lemma_collects_queue::<E>(query.located(event), settled, elapsed, keyboard_probe);
                let passed = ReaderState { skipped: reader.skipped.push(event), ..reader };
                let all = passed.settled().prepended(held);
                lemma_collects_queue::<E>(query, all, elapsed, keyboard_probe);
                assert(kept + seq![event] =~= kept.push(event));
            }
        },
        _ => {
            let (reader_after, after) = state.after(reader, event, elapsed);
            assert(pending_input(reader_after, after) =~= pending_input(reader, state));
        },
    }
}

/// Over a run, what is passed over is all that comes in and answers no question, less at most
/// the one report that the standard cursor position request brings.
proof fn lemma_one_report_is_taken<E>(
    timeout: Nanos,
    keyboard_probe: KeyboardEnhancementProbe,
    reader: ReaderState,
    events: Seq<(StartupEvent<E>, Nanos)>,
)
    requires
        reader.skipped.len() == 0,
    ensures
        ({
            let start = StartupState::<E>::LockReader { timeout, keyboard_probe };
            let (reader_after, after) = start.after_all(reader, events);
            let passed = passed_over_in_all(start, reader, events);
            let came = rejected(answering(keyboard_probe), arrived_in_all(start, reader, events));
            &&& queue_consistent(reader_after, after, keyboard_probe)
            &&& after.cursor_phase() <= 2 ==> passed == came
            &&& lacks_at_most_one_report(passed, came)
        }),
    decreases events.len(),
{
    let start = StartupState::<E>::LockReader { timeout, keyboard_probe };
    let answers = answering(keyboard_probe);
    if events.len() == 0 {
        reveal(Seq::filter);
        assert(rejected(answers, Seq::<InternalEvent>::empty()) =~= Seq::empty());
    } else {
        let earlier = events.drop_last();
        lemma_one_report_is_taken(timeout, keyboard_probe, reader, earlier);
        law_standard_cursor_is_asked_once(timeout, keyboard_probe, reader, earlier);
        let (reader_before, before) = start.after_all(reader, earlier);
        let (event, elapsed) = events.last();
        lemma_report_keeps_input(before, reader_before, event, elapsed, keyboard_probe);
        lemma_cursor_phases_in_order(before, reader_before, event, elapsed);
        let passed_before = passed_over_in_all(start, reader, earlier);
        let arrived_before = arrived_in_all(start, reader, earlier);
        let came_before = rejected(answers, arrived_before);
        let passed = passed_over_in_all(start, reader, events);
        let came = rejected(answers, arrived_in_all(start, reader, events));
        assert(passed_before + Seq::<InternalEvent>::empty() =~= passed_before);
        assert(arrived_before + Seq::<InternalEvent>::empty() =~= arrived_before);
        match (before, event) {
            (
                StartupState::TryRead { query, stage, wait, held },
                StartupEvent::Replied(Ok(Some(brought))),
            ) => {
                assert(answers == accepting(query.filter()));
                assert(arrived_before + seq![brought] =~= arrived_before.push(brought));
                assert(passed_before + seq![brought] =~= passed_before.push(brought));
                lemma_filter_push(arrived_before, brought, rejecting(answers));
                if !query.filter().accepts(brought) {
                    if query.awaits(stage, brought) {
                        law_standard_report_is_consumed_once::<E>(
                            query,
                            wait,
                            held,
                            reader_before,
                            brought,
                            elapsed,
                        );
                        assert(came[came_before.len() as int] is CursorPositionOrF3);
                        assert(passed =~= came.remove(came_before.len() as int));
                    } else if passed_before != came_before {
                        let at = choose|at: int|
                            0 <= at < came_before.len() && (#[trigger] came_before[at])
                                is CursorPositionOrF3 && passed_before == came_before.remove(at);
                        assert(came[at] is CursorPositionOrF3);
                        assert(passed =~= came.remove(at));
                    }
                }
            },
            _ => {},
        }
    }
}

/// What a reader of input accepts of a sequence is what it accepts of those events that answer
/// no probe.
proof fn lemma_input_answers_nothing(
    keyboard_probe: KeyboardEnhancementProbe,
    events: Seq<InternalEvent>,
)
    ensures
        accepted(accepting(EventFilter), events) == accepted(
            accepting(EventFilter),
            rejected(answering(keyboard_probe), events),
        ),
    decreases events.len(),
{
    reveal(Seq::filter);
    if events.len() > 0 {
        let (earlier, last) = (events.drop_last(), events.last());
        lemma_input_answers_nothing(keyboard_probe, earlier);
        assert(events =~= earlier.push(last));
        lemma_filter_push(earlier, last, accepting(EventFilter));
        lemma_filter_push(earlier, last, rejecting(answering(keyboard_probe)));
        lemma_filter_push(
            rejected(answering(keyboard_probe), earlier),
            last,
            accepting(EventFilter),
        );
    }
}

/// All input that answers no question of the probe stays in the queue: whatever is reported
/// and whenever, what was queued before the probe and what came in meanwhile is still there,
/// in the order it came, be it a key press, a paste, a change of size or a report that can be
/// an F3 key press. The one exception is the report that the standard cursor position request
/// was made for. Once the probe has its result, be it a success or a failure, all of this
/// stands in the queue of the reader, and those who read input get exactly that.
pub proof fn law_probe_leaves_input_in_the_queue<E>(
    timeout: Nanos,
    keyboard_probe: KeyboardEnhancementProbe,
    reader: ReaderState,
    events: Seq<(StartupEvent<E>, Nanos)>,
)
    requires
        reader.skipped.len() == 0,
    ensures
        ({
            let start = StartupState::<E>::LockReader { timeout, keyboard_probe };
            let (reader_after, after) = start.after_all(reader, events);
            let answers = answering(keyboard_probe);
            let passed = passed_over_in_all(start, reader, events);
            &&& rejected(answers, pending_input(reader_after, after)) == rejected(
                answers,
                reader.events,
            ) + passed
            &&& lacks_at_most_one_report(
                passed,
                rejected(answers, arrived_in_all(start, reader, events)),
            )
            &&& after.has_result() ==> {
                &&& reader_after.skipped.len() == 0
                &&& pending_input(reader_after, after) == reader_after.events
                &&& accepted(accepting(EventFilter), reader_after.events) == accepted(
                    accepting(EventFilter),
                    reader.events,
                ) + accepted(accepting(EventFilter), passed)
            }
        }),
    decreases events.len(),
{
    let start = StartupState::<E>::LockReader { timeout, keyboard_probe };
    let (reader_after, after) = start.after_all(reader, events);
    lemma_one_report_is_taken(timeout, keyboard_probe, reader, events);
    if events.len() == 0 {
        assert(pending_input(reader, start) =~= reader.events);
        let kept = rejected(answering(keyboard_probe), reader.events);
        assert(kept + Seq::<InternalEvent>::empty() =~= kept);
    } else {
        let earlier = events.drop_last();
        law_probe_leaves_input_in_the_queue(timeout, keyboard_probe, reader, earlier);
        lemma_one_report_is_taken(timeout, keyboard_probe, reader, earlier);
        let (reader_before, before) = start.after_all(reader, earlier);
        let (event, elapsed) = events.last();
        lemma_report_keeps_input(before, reader_before, event, elapsed, keyboard_probe);
        let kept = rejected(answering(keyboard_probe), reader.events);
        let passed = passed_over_in_all(start, reader, earlier);
        assert(kept + passed + passed_over(before, event) =~= kept + (passed + passed_over(
            before,
            event,
        )));
    }
    if after.has_result() {
        assert(pending_input(reader_after, after) =~= reader_after.events);
        lemma_input_answers_nothing(keyboard_probe, reader_after.events);
        lemma_input_answers_nothing(keyboard_probe, reader.events);
        Seq::filter_distributes_over_add(
            rejected(answering(keyboard_probe), reader.events),
            passed_over_in_all(start, reader, events),
            accepting(EventFilter),
        );
    }
}

/// One report leaves raw mode as it is, unless it is about switching it.
proof fn lemma_raw_mode_step<E>(
    state: StartupState<E>,
    reader: ReaderState,
    event: StartupEvent<E>,
    elapsed: Nanos,
)
    ensures
        ({
            let after = state.after(reader, event, elapsed).1;
            let on = state.in_raw_mode() || state is DisableRawModeAgain;
            let on_after = after.in_raw_mode() || after is DisableRawModeAgain;
            on_after == match (state, event) {
                (
                    StartupState::EnableRawMode { timeout: _, keyboard_probe: _ },
                    StartupEvent::Enabled(Ok(was_off)),
                ) => was_off,
                (
                    StartupState::DisableRawMode { result: _ },
                    StartupEvent::Disabled(Ok(_)),
                ) => false,
                (
                    StartupState::DisableRawModeAgain { error: _ },
                    StartupEvent::DisabledAgain,
                ) => false,
                _ => on,
            }
        }),
{
    match (state, event) {
        (StartupState::SendQuery { query, kind, held }, StartupEvent::Sent(sent)) => {
            lemma_sent_shape(query, kind, held, reader, sent, elapsed);
        },
        (StartupState::TryRead { query, stage, wait, held }, StartupEvent::Replied(reply)) => {
            lemma_replied_shape(query, stage, wait, held, reader, reply, elapsed);
        },
        _ => {},
    }
}

/// Raw mode that a probe has switched on stays on as long as the terminal is asked, and the
/// probe does not end before it has switched it off, or has tried so twice. Raw mode that was
/// on before is left on.
pub proof fn law_raw_mode_is_restored<E>(
    timeout: Nanos,
    keyboard_probe: KeyboardEnhancementProbe,
    reader: ReaderState,
    events: Seq<(StartupEvent<E>, Nanos)>,
)
    ensures
        ({
            let start = StartupState::<E>::LockReader { timeout, keyboard_probe };
            let state = start.after_all(reader, events).1;
            &&& start.owes_raw_mode(reader, events) == (state.in_raw_mode()
                || state is DisableRawModeAgain)
            &&& state is Done ==> !start.owes_raw_mode(reader, events)
        }),
    decreases events.len(),
{
    if events.len() > 0 {
        let start = StartupState::<E>::LockReader { timeout, keyboard_probe };
        let earlier = events.drop_last();
        law_raw_mode_is_restored(timeout, keyboard_probe, reader, earlier);
        let (reader_before, before) = start.after_all(reader, earlier);
        lemma_raw_mode_step(before, reader_before, events.last().0, events.last().1);
    }
}

/// One report keeps a probe within its deadline.
proof fn lemma_deadline_step<E>(
    state: StartupState<E>,
    reader: ReaderState,
    event: StartupEvent<E>,
    elapsed: Nanos,
    timeout: Nanos,
)
    requires
        state.waits_within_deadline(),
        state.deadline() == Some(timeout) || state.is_ending(),
        state.deadline() is None || state.deadline() == Some(timeout),
    ensures
        ({
            let after = state.after(reader, event, elapsed).1;
            &&& after.waits_within_deadline()
            &&& after.deadline() == Some(timeout) || after.is_ending()
            &&& after.deadline() is None || after.deadline() == Some(timeout)
            &&& elapsed.0 >= timeout.0 ==> after == state || after.is_ending()
        }),
{
    match (state, event) {
        (StartupState::SendQuery { query, kind, held }, StartupEvent::Sent(sent)) => {
            lemma_sent_shape(query, kind, held, reader, sent, elapsed);
        },
        (StartupState::TryRead { query, stage, wait, held }, StartupEvent::Replied(reply)) => {
            lemma_replied_shape(query, stage, wait, held, reader, reply, elapsed);
        },
        _ => {},
    }
}

/// One deadline bounds everything: no wait for replies reaches beyond it, and once it has
/// passed no further report leads to another wait, to raw mode or to another query. All that
/// is left to do is to take replies that are there already, if none is missing, and to leave
/// raw mode.
pub proof fn law_probe_respects_deadline<E>(
    timeout: Nanos,
    keyboard_probe: KeyboardEnhancementProbe,
    reader: ReaderState,
    events: Seq<(StartupEvent<E>, Nanos)>,
)
    ensures
        ({
            let start = StartupState::<E>::LockReader { timeout, keyboard_probe };
            let state = start.after_all(reader, events).1;
            &&& state.waits_within_deadline()
            &&& state.deadline() == Some(timeout) || state.is_ending()
            &&& state.deadline() is None || state.deadline() == Some(timeout)
            &&& events.len() > 0 && events.last().1.0 >= timeout.0 ==> state == start.after_all(
                reader,
                events.drop_last(),
            ).1 || state.is_ending()
        }),
    decreases events.len(),
{
    if events.len() > 0 {
        let start = StartupState::<E>::LockReader { timeout, keyboard_probe };
        let earlier = events.drop_last();
        law_probe_respects_deadline(timeout, keyboard_probe, reader, earlier);
        let (reader_before, before) = start.after_all(reader, earlier);
        lemma_deadline_step(
            before,
            reader_before,
            events.last().0,
            events.last().1,
            timeout,
        );
    }
}

} // verus!
