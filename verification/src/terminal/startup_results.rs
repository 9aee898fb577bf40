//! What the result of a startup probe is made of, and when it comes.

use crate::error::{Error, ErrorKind};
use crate::event::filter::{CursorPositionFilter, Filter};
use crate::event::read::{
    accepting, accepts_any, first_accepted, law_first_accepted_is_first, ReaderState, SourceReply,
};
use crate::event::timeout::PollTimeout;
use crate::event::{InternalEvent, KeyModifiers, OscColorPayload};
use crate::style::Color;
use crate::terminal::probe::{
    KeyboardEnhancementProbe, ProbeState, TerminalStartupProbe,
};
use crate::terminal::startup::{
    spec_standard_position, QueryKind, Stage, StartupEvent, StartupQuery, StartupState,
};
use crate::terminal::startup_laws::{
    answering, arrived, arrived_in_all, law_probe_respects_deadline, pending_input,
};
use crate::time::Nanos;
use vstd::prelude::*;
use vstd::seq_lib::lemma_multiset_commutative;

verus! {

/// An event that a probe has taken.
pub struct Taken {
    pub event: InternalEvent,
    /// Whether it was taken as the report that the standard cursor position request was made
    /// for. Otherwise it was taken as an answer to a question of the probe.
    pub standard: bool,
}

impl Taken {
    /// The cursor position that the event reports.
    pub open spec fn position(self) -> Option<(u16, u16)> {
        match self.event {
            InternalEvent::CursorPosition(x, y) => Some((x, y)),
            InternalEvent::ExtendedCursorPosition(x, y) if !self.standard => Some((x, y)),
            InternalEvent::CursorPositionOrF3(x, y, _) if self.standard => Some((x, y)),
            _ => None,
        }
    }

    /// The reply to the color query of a slot that the event is, and the color that it names
    /// if it names one.
    pub open spec fn color(self, asked: u8) -> Option<Option<Color>> {
        match self.event {
            InternalEvent::OscColor { slot, payload } if slot == asked && !self.standard => Some(
                match payload {
                    OscColorPayload::Rgb { r, g, b } => Some(Color::Rgb { r, g, b }),
                    OscColorPayload::Unrecognized(_) => None,
                },
            ),
            _ => None,
        }
    }
}

/// All cursor positions among what was taken, in the order in which it was taken.
pub open spec fn positions(taken: Seq<Taken>) -> Seq<(u16, u16)>
    decreases taken.len(),
{
    if taken.len() == 0 {
        Seq::empty()
    } else {
        match taken.last().position() {
            Some(position) => positions(taken.drop_last()).push(position),
            None => positions(taken.drop_last()),
        }
    }
}

/// All replies to the color query of a slot among what was taken, in the order in which it
/// was taken.
pub open spec fn colors(taken: Seq<Taken>, slot: u8) -> Seq<Option<Color>>
    decreases taken.len(),
{
    if taken.len() == 0 {
        Seq::empty()
    } else {
        match taken.last().color(slot) {
            Some(color) => colors(taken.drop_last(), slot).push(color),
            None => colors(taken.drop_last(), slot),
        }
    }
}

/// Whether the active keyboard enhancements are among what was taken.
pub open spec fn has_flags(taken: Seq<Taken>) -> bool {
    exists|i: int|
        0 <= i < taken.len() && !(#[trigger] taken[i]).standard
            && taken[i].event is KeyboardEnhancementFlags
}

/// Whether the device attributes are among what was taken.
pub open spec fn has_attributes(taken: Seq<Taken>) -> bool {
    exists|i: int|
        0 <= i < taken.len() && !(#[trigger] taken[i]).standard
            && taken[i].event is PrimaryDeviceAttributes
}

/// What the events that were taken amount to: the last cursor position, the first reply for
/// each color, and keyboard support by the active enhancements first, and by the device
/// attributes where those did not come.
pub open spec fn summary(taken: Seq<Taken>) -> TerminalStartupProbe {
    TerminalStartupProbe {
        cursor_position: if positions(taken).len() > 0 {
            Some(positions(taken).last())
        } else {
            None
        },
        foreground_color: if colors(taken, 10).len() > 0 {
            colors(taken, 10)[0]
        } else {
            None
        },
        background_color: if colors(taken, 11).len() > 0 {
            colors(taken, 11)[0]
        } else {
            None
        },
        keyboard_enhancement_supported: if has_flags(taken) {
            Some(true)
        } else if has_attributes(taken) {
            Some(false)
        } else {
            None
        },
    }
}

/// Whether there is a reply to every question of the probe among what was taken.
pub open spec fn all_answered(
    taken: Seq<Taken>,
    keyboard_probe: KeyboardEnhancementProbe,
) -> bool {
    &&& positions(taken).len() > 0
    &&& colors(taken, 10).len() > 0
    &&& colors(taken, 11).len() > 0
    &&& keyboard_probe == KeyboardEnhancementProbe::Skip || has_attributes(taken)
}

/// The events that were taken.
pub open spec fn events_of(taken: Seq<Taken>) -> Seq<InternalEvent> {
    taken.map_values(|one: Taken| one.event)
}

/// Events that were taken as answers.
pub open spec fn as_answers(events: Seq<InternalEvent>) -> Seq<Taken> {
    events.map_values(|event: InternalEvent| Taken { event, standard: false })
}

/// The replies that a probe has recorded once these events were taken.
spec fn tally(taken: Seq<Taken>) -> ProbeState {
    ProbeState {
        cursor_position: if positions(taken).len() > 0 {
            Some(positions(taken).last())
        } else {
            None
        },
        foreground_color: if colors(taken, 10).len() > 0 {
            Some(colors(taken, 10)[0])
        } else {
            None
        },
        background_color: if colors(taken, 11).len() > 0 {
            Some(colors(taken, 11)[0])
        } else {
            None
        },
        saw_keyboard_enhancement_flags: has_flags(taken),
        saw_primary_device_attributes: has_attributes(taken),
    }
}

impl StartupQuery {
    /// The queued events that a probe takes when it goes on with them, in their order.
    pub open spec fn collected(self, reader: ReaderState, elapsed: Nanos) -> Seq<InternalEvent>
        decreases reader.events.len(),
    {
        if !self.complete() && (self.timeout.minus(elapsed) == Nanos(0)
            || self.wants_standard_cursor(elapsed)) {
            Seq::empty()
        } else if accepts_any(accepting(self.filter()), reader.events) {
            let at = first_accepted(accepting(self.filter()), reader.events);
            proof {
                law_first_accepted_is_first(accepting(self.filter()), reader.events);
            }
            seq![reader.events[at]] + self.recorded(reader.events[at]).collected(
                ReaderState { events: reader.events.remove(at), ..reader },
                elapsed,
            )
        } else {
            Seq::empty()
        }
    }
}

impl<E> StartupState<E> {
    /// The probe under way, once its questions can be asked.
    pub open spec fn under_way(self) -> Option<StartupQuery> {
        match self {
            StartupState::SendQuery { query, kind: _, held: _ } => Some(query),
            StartupState::TryRead { query, stage: _, wait: _, held: _ } => Some(query),
            _ => None,
        }
    }

    /// The result, once there is one.
    pub open spec fn result(self) -> Option<Result<TerminalStartupProbe, Error<E>>> {
        match self {
            StartupState::Done(result) => Some(result),
            StartupState::DisableRawMode { result } => Some(result),
            StartupState::DisableRawModeAgain { error } => Some(Err(error)),
            _ => None,
        }
    }

    /// The events that a probe takes after a report, in the order in which it takes them.
    pub open spec fn takes(self, reader: ReaderState, event: StartupEvent<E>, elapsed: Nanos) -> Seq<
        Taken,
    > {
        match (self, event) {
            (
                StartupState::SendQuery { query, kind, held },
                StartupEvent::Sent(Ok(_)),
            ) => if kind == QueryKind::Startup || query.timeout.minus(elapsed) == Nanos(0) {
                as_answers(query.collected(reader.prepended(held), elapsed))
            } else if accepts_any(accepting(CursorPositionFilter), reader.events) {
                let at = first_accepted(accepting(CursorPositionFilter), reader.events);
                let rest = ReaderState { events: reader.events.remove(at), ..reader };
                let report = reader.events[at];
                seq![Taken { event: report, standard: true }] + as_answers(
                    query.located(report).collected(rest.prepended(held), elapsed),
                )
            } else {
                Seq::empty()
            },
            (
                StartupState::TryRead { query, stage, wait, held },
                StartupEvent::Replied(reply),
            ) => match reply {
                Ok(Some(event)) if query.awaits(stage, event) => {
                    let next = match stage {
                        Stage::Cursor => query.located(event),
                        _ => query.recorded(event),
                    };
                    seq![Taken { event, standard: stage == Stage::Cursor }] + as_answers(
                        next.collected(reader.settled().prepended(held), elapsed),
                    )
                },
                Err(error) if error.spec_kind() != ErrorKind::Interrupted => Seq::empty(),
                _ => if reply is Ok && !wait.over_at(elapsed) || stage == Stage::Drain {
                    Seq::empty()
                } else {
                    let passed = match reply {
                        Ok(Some(event)) => ReaderState {
                            skipped: reader.skipped.push(event),
                            ..reader
                        },
                        _ => reader,
                    };
                    as_answers(query.collected(passed.settled().prepended(held), elapsed))
                },
            },
            _ => Seq::empty(),
        }
    }

    /// The events that a probe takes over a run of reports, in the order in which it takes
    /// them.
    pub open spec fn takes_in_all(
        self,
        reader: ReaderState,
        events: Seq<(StartupEvent<E>, Nanos)>,
    ) -> Seq<Taken>
        decreases events.len(),
    {
        if events.len() == 0 {
            Seq::empty()
        } else {
            let (reader_before, before) = self.after_all(reader, events.drop_last());
            self.takes_in_all(reader, events.drop_last()) + before.takes(
                reader_before,
                events.last().0,
                events.last().1,
            )
        }
    }

    /// Whether a report makes a probe fail: something could not be done, or there is no
    /// source to read replies from.
    pub open spec fn fails_by(self, reader: ReaderState, event: StartupEvent<E>) -> bool {
        ||| !reader.has_source
        ||| event matches StartupEvent::Enabled(Err(_))
        ||| event matches StartupEvent::Sent(Err(_))
        ||| event matches StartupEvent::Replied(Err(error)) && error.spec_kind()
            != ErrorKind::Interrupted
    }
}

/// Taking one more event.
proof fn lemma_tally_push(taken: Seq<Taken>, one: Taken)
    requires
        one.standard ==> CursorPositionFilter.accepts(one.event),
    ensures
        !one.standard ==> tally(taken.push(one)) == tally(taken).recorded(one.event),
        one.standard ==> tally(taken.push(one)) == (ProbeState {
            cursor_position: spec_standard_position(one.event),
            ..tally(taken)
        }),
{
    let all = taken.push(one);
    assert(all.drop_last() =~= taken);
    assert(all.last() == one);
    if has_flags(taken) {
        let i = choose|i: int|
            0 <= i < taken.len() && !(#[trigger] taken[i]).standard
                && taken[i].event is KeyboardEnhancementFlags;
        assert(all[i] == taken[i]);
    }
    if has_attributes(taken) {
        let i = choose|i: int|
            0 <= i < taken.len() && !(#[trigger] taken[i]).standard
                && taken[i].event is PrimaryDeviceAttributes;
        assert(all[i] == taken[i]);
    }
    if has_flags(all) {
        let i = choose|i: int|
            0 <= i < all.len() && !(#[trigger] all[i]).standard
                && all[i].event is KeyboardEnhancementFlags;
        assert(i < taken.len() ==> taken[i] == all[i]);
    }
    if has_attributes(all) {
        let i = choose|i: int|
            0 <= i < all.len() && !(#[trigger] all[i]).standard
                && all[i].event is PrimaryDeviceAttributes;
        assert(i < taken.len() ==> taken[i] == all[i]);
    }
    assert(all[taken.len() as int] == one);
}

/// Taking an event out of the middle of a sequence and counting it apart.
proof fn lemma_counted_apart(
    events: Seq<InternalEvent>,
    at: int,
    more: Seq<InternalEvent>,
    left: Seq<InternalEvent>,
)
    requires
        0 <= at < events.len(),
        (more + left).to_multiset() == events.remove(at).to_multiset(),
    ensures
        (seq![events[at]] + more + left).to_multiset() == events.to_multiset(),
{
    let rest = events.remove(at);
    let event = events[at];
    vstd::seq_lib::to_multiset_insert(rest, at, event);
    assert(rest.insert(at, event) =~= events);
    vstd::seq_lib::to_multiset_insert(more + left, 0, event);
    assert((more + left).insert(0, event) =~= seq![event] + more + left);
}

/// What going on with queued events makes of the replies, and where it leads.
proof fn lemma_collects_tally<E>(
    query: StartupQuery,
    reader: ReaderState,
    elapsed: Nanos,
    taken: Seq<Taken>,
)
    requires
        query.state == tally(taken),
    ensures
        ({
            let (after, state) = query.collects::<E>(reader, elapsed);
            let collected = query.collected(reader, elapsed);
            let all = taken + as_answers(collected);
            &&& state.under_way() matches Some(next) ==> next.state == tally(all)
                && next.keyboard_probe == query.keyboard_probe && next.timeout == query.timeout
            &&& state.result() matches Some(Ok(probe)) ==> probe == tally(all).probe() && elapsed.0
                >= query.timeout.0
            &&& state.result() matches Some(Err(_)) ==> !reader.has_source
            &&& state matches StartupState::TryRead { query: next, stage, wait: _, held } ==> {
                &&& !accepts_any(accepting(query.filter()), after.events)
                &&& held.len() == 0
                &&& stage != Stage::Cursor
                &&& stage == Stage::Drain ==> next.complete()
            }
            &&& !(state is LockReader) && !(state is EnableRawMode)
            &&& after.skipped == reader.skipped
            &&& (collected + pending_input(after, state)).to_multiset()
                == reader.pending().to_multiset()
            &&& forall|i: int|
                0 <= i < collected.len() ==> query.filter().accepts(#[trigger] collected[i])
        }),
    decreases reader.events.len(),
{
    let (after, state) = query.collects::<E>(reader, elapsed);
    let collected = query.collected(reader, elapsed);
    let none = Seq::<InternalEvent>::empty();
    if !query.complete() && (query.timeout.minus(elapsed) == Nanos(0)
        || query.wants_standard_cursor(elapsed)) || !accepts_any(
        accepting(query.filter()),
        reader.events,
    ) {
        assert(taken + as_answers(none) =~= taken);
        assert(none + pending_input(after, state) =~= reader.pending());
    } else {
        law_first_accepted_is_first(accepting(query.filter()), reader.events);
        let at = first_accepted(accepting(query.filter()), reader.events);
        let event = reader.events[at];
        let next = query.recorded(event);
        let rest = ReaderState { events: reader.events.remove(at), ..reader };
        let one = Taken { event, standard: false };
        lemma_tally_push(taken, one);
        lemma_collects_tally::<E>(next, rest, elapsed, taken.push(one));
        let more = next.collected(rest, elapsed);
        assert(taken.push(one) + as_answers(more) =~= taken + as_answers(collected));
        assert(reader.pending().remove(at) =~= rest.pending());
        assert(reader.pending()[at] == event);
        lemma_counted_apart(reader.pending(), at, more, pending_input(after, state));
        assert forall|i: int| 0 <= i < collected.len() implies query.filter().accepts(
            #[trigger] collected[i],
        ) by {
            if i > 0 {
                assert(collected[i] == more[i - 1]);
            }
        }
    }
}

/// Whether every event was taken for what it is.
pub open spec fn rightly_taken(
    taken: Seq<Taken>,
    keyboard_probe: KeyboardEnhancementProbe,
) -> bool {
    forall|i: int|
        0 <= i < taken.len() ==> if (#[trigger] taken[i]).standard {
            CursorPositionFilter.accepts(taken[i].event)
        } else {
            answering(keyboard_probe)(taken[i].event)
        }
}

/// What holds of a reader and a probe once these events were taken.
spec fn in_step<E>(
    reader: ReaderState,
    state: StartupState<E>,
    taken: Seq<Taken>,
    timeout: Nanos,
    keyboard_probe: KeyboardEnhancementProbe,
) -> bool {
    &&& rightly_taken(taken, keyboard_probe)
    &&& state.under_way() matches Some(query) ==> query.state == tally(taken)
        && query.keyboard_probe == keyboard_probe && query.timeout == timeout
    &&& state matches StartupState::LockReader { timeout: t, keyboard_probe: k } ==> t == timeout
        && k == keyboard_probe && taken.len() == 0
    &&& state matches StartupState::EnableRawMode { timeout: t, keyboard_probe: k } ==> t == timeout
        && k == keyboard_probe && taken.len() == 0
    &&& state.result() matches Some(Ok(probe)) ==> probe == tally(taken).probe()
    &&& state matches StartupState::TryRead { query, stage, wait: _, held } ==> stage
        != Stage::Cursor ==> {
        &&& held.len() == 0
        &&& !accepts_any(answering(keyboard_probe), reader.pending())
        &&& stage == Stage::Drain ==> query.complete()
    }
    &&& !(state is TryRead) ==> reader.skipped.len() == 0
}

/// What one report makes of that.
spec fn stays_in_step<E>(
    reader: ReaderState,
    state: StartupState<E>,
    event: StartupEvent<E>,
    elapsed: Nanos,
    taken: Seq<Taken>,
    timeout: Nanos,
    keyboard_probe: KeyboardEnhancementProbe,
) -> bool {
    let (reader_after, after) = state.after(reader, event, elapsed);
    let now = state.takes(reader, event, elapsed);
    let all = taken + now;
    &&& in_step(reader_after, after, all, timeout, keyboard_probe)
    &&& (events_of(now) + pending_input(reader_after, after)).to_multiset() == (pending_input(
        reader,
        state,
    ) + arrived(state, event)).to_multiset()
    &&& state.result() is None && !state.fails_by(reader, event) ==> {
        &&& after.result() is Some ==> after.result()->0 is Ok
        &&& after.result() is Some && elapsed.0 < timeout.0 && event
            != StartupEvent::<E>::Locked(false) ==> {
            &&& all_answered(all, keyboard_probe)
            &&& !accepts_any(answering(keyboard_probe), reader_after.events)
        }
    }
}

/// Taking nothing, with all that comes in kept, stays in step as far as counting goes.
proof fn lemma_nothing_taken(taken: Seq<Taken>, left: Seq<InternalEvent>)
    ensures
        taken + Seq::<Taken>::empty() == taken,
        events_of(Seq::<Taken>::empty()) + left == left,
        left + Seq::<InternalEvent>::empty() == left,
{
    assert(taken + Seq::<Taken>::empty() =~= taken);
    assert(events_of(Seq::<Taken>::empty()) + left =~= left);
    assert(left + Seq::<InternalEvent>::empty() =~= left);
}

/// Going on with queued events, after one event was taken or none, stays in step.
proof fn lemma_collects_in_step<E>(
    query: StartupQuery,
    reader: ReaderState,
    elapsed: Nanos,
    taken: Seq<Taken>,
    now: Seq<Taken>,
    timeout: Nanos,
    keyboard_probe: KeyboardEnhancementProbe,
)
    requires
        query.state == tally(taken + now),
        query.timeout == timeout,
        query.keyboard_probe == keyboard_probe,
        rightly_taken(taken, keyboard_probe),
        rightly_taken(now, keyboard_probe),
        reader.skipped.len() == 0,
    ensures
        ({
            let (after, state) = query.collects::<E>(reader, elapsed);
            let taken_now = now + as_answers(query.collected(reader, elapsed));
            &&& in_step(after, state, taken + taken_now, timeout, keyboard_probe)
            &&& (events_of(taken_now) + pending_input(after, state)).to_multiset() == (events_of(
                now,
            ) + reader.pending()).to_multiset()
            &&& state.result() matches Some(Ok(_)) ==> elapsed.0 >= timeout.0
            &&& state.result() matches Some(Err(_)) ==> !reader.has_source
        }),
{
    let (after, state) = query.collects::<E>(reader, elapsed);
    let collected = query.collected(reader, elapsed);
    let answers = as_answers(collected);
    let taken_now = now + answers;
    let all = taken + taken_now;
    assert(answering(keyboard_probe) == accepting(query.filter()));
    lemma_collects_tally::<E>(query, reader, elapsed, taken + now);
    assert(taken + now + answers =~= all);
    assert forall|i: int| 0 <= i < all.len() implies if (#[trigger] all[i]).standard {
        CursorPositionFilter.accepts(all[i].event)
    } else {
        answering(keyboard_probe)(all[i].event)
    } by {
        if i < taken.len() {
            assert(all[i] == taken[i]);
        } else if i < taken.len() + now.len() {
            assert(all[i] == now[i - taken.len()]);
        } else {
            let event = collected[i - taken.len() - now.len()];
            assert(all[i] == Taken { event, standard: false });
            assert(query.filter().accepts(event));
        }
    }
    assert(after.pending() =~= after.events);
    assert(events_of(taken_now) =~= events_of(now) + collected);
    lemma_multiset_commutative(events_of(now), collected + pending_input(after, state));
    lemma_multiset_commutative(events_of(now), reader.pending());
    assert(events_of(now) + collected + pending_input(after, state) =~= events_of(now) + (collected
        + pending_input(after, state)));
}

/// A query that was sent, or could not be, stays in step.
proof fn lemma_sent_in_step<E>(
    query: StartupQuery,
    kind: QueryKind,
    held: Seq<InternalEvent>,
    reader: ReaderState,
    sent: Result<(), Error<E>>,
    elapsed: Nanos,
    taken: Seq<Taken>,
    timeout: Nanos,
    keyboard_probe: KeyboardEnhancementProbe,
)
    requires
        in_step(
            reader,
            StartupState::<E>::SendQuery { query, kind, held },
            taken,
            timeout,
            keyboard_probe,
        ),
    ensures
        stays_in_step(
            reader,
            StartupState::<E>::SendQuery { query, kind, held },
            StartupEvent::Sent(sent),
            elapsed,
            taken,
            timeout,
            keyboard_probe,
        ),
{
    let state = StartupState::<E>::SendQuery { query, kind, held };
    let event = StartupEvent::Sent(sent);
    let (reader_after, after) = state.after(reader, event, elapsed);
    let none = Seq::<Taken>::empty();
    let all = reader.prepended(held);
    assert(answering(keyboard_probe) == accepting(query.filter()));
    assert(all.pending() =~= pending_input(reader, state));
    lemma_nothing_taken(taken, pending_input(reader, state));
    lemma_nothing_taken(taken, pending_input(reader_after, after));
    if sent is Ok {
        if kind == QueryKind::Startup || query.timeout.minus(elapsed) == Nanos(0) {
            lemma_collects_in_step::<E>(
                query,
                all,
                elapsed,
                taken,
                none,
                timeout,
                keyboard_probe,
            );
            let answers = as_answers(query.collected(all, elapsed));
            assert(none + answers =~= answers);
            assert(events_of(none) + all.pending() =~= all.pending());
        } else if accepts_any(accepting(CursorPositionFilter), reader.events) {
            law_first_accepted_is_first(accepting(CursorPositionFilter), reader.events);
            let at = first_accepted(accepting(CursorPositionFilter), reader.events);
            let report = reader.events[at];
            let one = Taken { event: report, standard: true };
            let rest = (ReaderState { events: reader.events.remove(at), ..reader }).prepended(held);
            lemma_tally_push(taken, one);
            assert(taken + seq![one] =~= taken.push(one));
            lemma_collects_in_step::<E>(
                query.located(report),
                rest,
                elapsed,
                taken,
                seq![one],
                timeout,
                keyboard_probe,
            );
            let position = held.len() + at;
            assert(all.pending().remove(position) =~= rest.pending());
            assert(all.pending()[position] == report);
            assert(Seq::<InternalEvent>::empty() + rest.pending() =~= rest.pending());
            lemma_counted_apart(all.pending(), position, Seq::empty(), rest.pending());
            assert(events_of(seq![one]) + rest.pending() =~= seq![report] + Seq::<
                InternalEvent,
            >::empty() + rest.pending());
        } else {
            assert(pending_input(reader_after, after) =~= pending_input(reader, state));
        }
    } else {
        assert(pending_input(reader_after, after) =~= pending_input(reader, state));
    }
}

/// A reply of the source stays in step.
proof fn lemma_replied_in_step<E>(
    query: StartupQuery,
    stage: Stage,
    wait: PollTimeout,
    held: Seq<InternalEvent>,
    reader: ReaderState,
    reply: SourceReply<E>,
    elapsed: Nanos,
    taken: Seq<Taken>,
    timeout: Nanos,
    keyboard_probe: KeyboardEnhancementProbe,
)
    requires
        in_step(
            reader,
            StartupState::<E>::TryRead { query, stage, wait, held },
            taken,
            timeout,
            keyboard_probe,
        ),
    ensures
        stays_in_step(
            reader,
            StartupState::<E>::TryRead { query, stage, wait, held },
            StartupEvent::Replied(reply),
            elapsed,
            taken,
            timeout,
            keyboard_probe,
        ),
{
    let state = StartupState::<E>::TryRead { query, stage, wait, held };
    let event = StartupEvent::Replied(reply);
    let (reader_after, after) = state.after(reader, event, elapsed);
    let none = Seq::<Taken>::empty();
    let before = pending_input(reader, state);
    let settled = reader.settled().prepended(held);
    assert(answering(keyboard_probe) == accepting(query.filter()));
    assert(settled.pending() =~= before);
    lemma_nothing_taken(taken, before);
    lemma_nothing_taken(taken, pending_input(reader_after, after));
    match reply {
        Ok(Some(brought)) if query.awaits(stage, brought) => {
            let one = Taken { event: brought, standard: stage == Stage::Cursor };
            let next = match stage {
                Stage::Cursor => query.located(brought),
                _ => query.recorded(brought),
            };
            lemma_tally_push(taken, one);
            assert(taken + seq![one] =~= taken.push(one));
            lemma_collects_in_step::<E>(
                next,
                settled,
                elapsed,
                taken,
                seq![one],
                timeout,
                keyboard_probe,
            );
            lemma_multiset_commutative(seq![brought], before);
            lemma_multiset_commutative(before, seq![brought]);
            assert(seq![brought].to_multiset().add(before.to_multiset())
                =~= before.to_multiset().add(seq![brought].to_multiset()));
            assert(events_of(seq![one]) =~= seq![brought]);
        },
        Err(error) if error.spec_kind() != ErrorKind::Interrupted => {
            assert(pending_input(reader_after, after) =~= before);
        },
        _ => {
            let passed = match reply {
                Ok(Some(brought)) => ReaderState {
                    skipped: reader.skipped.push(brought),
                    ..reader
                },
                _ => reader,
            };
            let all = passed.settled().prepended(held);
            assert(all.pending() =~= before + arrived(state, event));
            if stage != Stage::Cursor {
                assert forall|i: int| 0 <= i < passed.pending().len() implies !answering(
                    keyboard_probe,
                )(#[trigger] passed.pending()[i]) by {
                    if i < reader.pending().len() {
                        assert(passed.pending()[i] == reader.pending()[i]);
                    }
                }
            }
            if reply is Ok && !wait.over_at(elapsed) {
                assert(pending_input(reader_after, after) =~= all.pending());
            } else if stage == Stage::Drain {
                assert(pending_input(reader_after, after) =~= all.pending());
                assert(reader_after.events =~= passed.pending());
            } else {
                lemma_collects_in_step::<E>(
                    query,
                    all,
                    elapsed,
                    taken,
                    none,
                    timeout,
                    keyboard_probe,
                );
                let answers = as_answers(query.collected(all, elapsed));
                assert(none + answers =~= answers);
                assert(events_of(none) + all.pending() =~= all.pending());
            }
        },
    }
}

/// Any report stays in step.
proof fn lemma_report_in_step<E>(
    reader: ReaderState,
    state: StartupState<E>,
    event: StartupEvent<E>,
    elapsed: Nanos,
    taken: Seq<Taken>,
    timeout: Nanos,
    keyboard_probe: KeyboardEnhancementProbe,
)
    requires
        in_step(reader, state, taken, timeout, keyboard_probe),
    ensures
        stays_in_step(reader, state, event, elapsed, taken, timeout, keyboard_probe),
{
    match (state, event) {
        (StartupState::SendQuery { query, kind, held }, StartupEvent::Sent(sent)) => {
            lemma_sent_in_step(
                query,
                kind,
                held,
                reader,
                sent,
                elapsed,
                taken,
                timeout,
                keyboard_probe,
            );
        },
        (StartupState::TryRead { query, stage, wait, held }, StartupEvent::Replied(reply)) => {
            lemma_replied_in_step(
                query,
                stage,
                wait,
                held,
                reader,
                reply,
                elapsed,
                taken,
                timeout,
                keyboard_probe,
            );
        },
        _ => {
            let (reader_after, after) = state.after(reader, event, elapsed);
            lemma_nothing_taken(taken, pending_input(reader, state));
            lemma_nothing_taken(taken, pending_input(reader_after, after));
            assert(pending_input(reader_after, after) =~= pending_input(reader, state));
        },
    }
}

/// A run stays in step, and no event is lost or doubled by it.
proof fn lemma_run_in_step<E>(
    timeout: Nanos,
    keyboard_probe: KeyboardEnhancementProbe,
    reader: ReaderState,
    events: Seq<(StartupEvent<E>, Nanos)>,
)
    requires
        reader.skipped.len() == 0,
    ensures
        ({
            let start = StartupState::<E>::LockReader { timeout, keyboard_probe };
            let (reader_after, after) = start.after_all(reader, events);
            let taken = start.takes_in_all(reader, events);
            &&& in_step(reader_after, after, taken, timeout, keyboard_probe)
            &&& (events_of(taken) + pending_input(reader_after, after)).to_multiset() == (
            reader.events + arrived_in_all(start, reader, events)).to_multiset()
        }),
    decreases events.len(),
{
    let start = StartupState::<E>::LockReader { timeout, keyboard_probe };
    if events.len() == 0 {
        lemma_nothing_taken(Seq::empty(), reader.events);
        assert(pending_input(reader, start) =~= reader.events);
    } else {
        let earlier = events.drop_last();
        let (event, elapsed) = events.last();
        lemma_run_in_step(timeout, keyboard_probe, reader, earlier);
        let (reader_before, before) = start.after_all(reader, earlier);
        let (reader_after, after) = start.after_all(reader, events);
        let taken = start.takes_in_all(reader, earlier);
        lemma_report_in_step(
            reader_before,
            before,
            event,
            elapsed,
            taken,
            timeout,
            keyboard_probe,
        );
        let now = before.takes(reader_before, event, elapsed);
        let came = arrived_in_all(start, reader, earlier);
        let comes = arrived(before, event);
        let (left_before, left) = (
            pending_input(reader_before, before),
            pending_input(reader_after, after),
        );
        assert(events_of(taken + now) =~= events_of(taken) + events_of(now));
        assert(events_of(taken) + events_of(now) + left =~= events_of(taken) + (events_of(now)
            + left));
        assert(reader.events + (came + comes) =~= reader.events + came + comes);
        lemma_multiset_commutative(events_of(taken), events_of(now) + left);
        lemma_multiset_commutative(left_before, comes);
        lemma_multiset_commutative(events_of(taken), left_before);
        lemma_multiset_commutative(reader.events + came, comes);
        assert((events_of(taken) + events_of(now) + left).to_multiset() =~= (reader.events + came
            + comes).to_multiset());
    }
}

/// The result of a probe is what the events that it took amount to: the last cursor position,
/// the first reply for each color, and the keyboard by its enhancements first and by the
/// device attributes otherwise. What it took are answers to its questions, and the report
/// that the standard cursor position request was made for; together with what is left they
/// are all that was queued before and came in meanwhile.
pub proof fn law_result_sums_up_the_replies<E>(
    timeout: Nanos,
    keyboard_probe: KeyboardEnhancementProbe,
    reader: ReaderState,
    events: Seq<(StartupEvent<E>, Nanos)>,
)
    requires
        reader.skipped.len() == 0,
    ensures
        ({
            let start = StartupState::<E>::LockReader { timeout, keyboard_probe };
            let (reader_after, after) = start.after_all(reader, events);
            let taken = start.takes_in_all(reader, events);
            &&& after.result() matches Some(Ok(probe)) ==> probe == summary(taken)
            &&& rightly_taken(taken, keyboard_probe)
            &&& (events_of(taken) + pending_input(reader_after, after)).to_multiset() == (
            reader.events + arrived_in_all(start, reader, events)).to_multiset()
        }),
{
    lemma_run_in_step(timeout, keyboard_probe, reader, events);
}

/// A probe that does not fail ends with success, at the deadline or before. Before the
/// deadline it ends only when there is a reply to every question and no answer is left in the
/// queue, unless the event reader could not be locked. Once the deadline has passed, the next
/// report gives it its result, but for taking what is there already when no reply is missing.
pub proof fn law_result_is_complete_or_at_the_deadline<E>(
    timeout: Nanos,
    keyboard_probe: KeyboardEnhancementProbe,
    reader: ReaderState,
    events: Seq<(StartupEvent<E>, Nanos)>,
)
    requires
        reader.skipped.len() == 0,
        events.len() > 0,
    ensures
        ({
            let start = StartupState::<E>::LockReader { timeout, keyboard_probe };
            let (reader_before, before) = start.after_all(reader, events.drop_last());
            let (reader_after, after) = start.after_all(reader, events);
            let taken = start.takes_in_all(reader, events);
            let (event, elapsed) = events.last();
            before.result() is None && !before.fails_by(reader_before, event) ==> {
                &&& after.result() is Some ==> after.result()->0 is Ok
                &&& after.result() is Some && elapsed.0 < timeout.0 && event
                    != StartupEvent::<E>::Locked(false) ==> {
                    &&& all_answered(taken, keyboard_probe)
                    &&& !accepts_any(answering(keyboard_probe), reader_after.events)
                }
                &&& elapsed.0 >= timeout.0 && after != before ==> {
                    ||| after.result() is Some
                    ||| after is TryRead && after->TryRead_stage == Stage::Drain && all_answered(
                        taken,
                        keyboard_probe,
                    )
                }
            }
        }),
{
    let start = StartupState::<E>::LockReader { timeout, keyboard_probe };
    let earlier = events.drop_last();
    let (event, elapsed) = events.last();
    let (reader_before, before) = start.after_all(reader, earlier);
    lemma_run_in_step(timeout, keyboard_probe, reader, earlier);
    lemma_run_in_step(timeout, keyboard_probe, reader, events);
    lemma_report_in_step(
        reader_before,
        before,
        event,
        elapsed,
        start.takes_in_all(reader, earlier),
        timeout,
        keyboard_probe,
    );
    law_probe_respects_deadline(timeout, keyboard_probe, reader, events);
}

/// The first reply for a color is the first of the replies.
proof fn lemma_first_color(taken: Seq<Taken>, slot: u8, i: int)
    requires
        0 <= i <= taken.len(),
        forall|j: int| 0 <= j < i ==> (#[trigger] taken[j]).color(slot) is None,
        i < taken.len() ==> taken[i].color(slot) is Some,
    ensures
        i < taken.len() ==> colors(taken, slot).len() > 0 && Some(colors(taken, slot)[0])
            == taken[i].color(slot),
        i == taken.len() ==> colors(taken, slot).len() == 0,
    decreases taken.len(),
{
    if taken.len() > 0 {
        let earlier = taken.drop_last();
        assert forall|j: int| 0 <= j < i && j < earlier.len() implies (#[trigger] earlier[j]).color(
            slot,
        ) is None by {
            assert(earlier[j] == taken[j]);
        }
        if i < earlier.len() {
            assert(earlier[i] == taken[i]);
            lemma_first_color(earlier, slot, i);
        } else {
            lemma_first_color(earlier, slot, earlier.len() as int);
            assert(taken.last() == taken[taken.len() - 1]);
        }
    }
}

/// The last cursor position is the last of the positions.
proof fn lemma_last_position(taken: Seq<Taken>, i: int)
    requires
        -1 <= i < taken.len(),
        forall|j: int| i < j < taken.len() ==> (#[trigger] taken[j]).position() is None,
        i >= 0 ==> taken[i].position() is Some,
    ensures
        i >= 0 ==> positions(taken).len() > 0 && Some(positions(taken).last())
            == taken[i].position(),
        i < 0 ==> positions(taken).len() == 0,
    decreases taken.len(),
{
    if taken.len() > 0 && i < taken.len() - 1 {
        let earlier = taken.drop_last();
        assert forall|j: int| i < j < earlier.len() implies (
        #[trigger] earlier[j]).position() is None by {
            assert(earlier[j] == taken[j]);
        }
        assert(taken[taken.len() - 1].position() is None);
        lemma_last_position(earlier, i);
    }
}

/// A result names, for the foreground and the background, exactly the parts of the color that
/// the first reply gave that was taken for slot 10 and slot 11. Where that reply gave no color,
/// or there is none, the result names no color.
pub proof fn law_result_names_the_first_colors<E>(
    timeout: Nanos,
    keyboard_probe: KeyboardEnhancementProbe,
    reader: ReaderState,
    events: Seq<(StartupEvent<E>, Nanos)>,
    probe: TerminalStartupProbe,
    slot: u8,
    i: int,
)
    requires
        reader.skipped.len() == 0,
        slot == 10 || slot == 11,
        ({
            let start = StartupState::<E>::LockReader { timeout, keyboard_probe };
            let taken = start.takes_in_all(reader, events);
            &&& start.after_all(reader, events).1 == StartupState::<E>::Done(Ok(probe))
            &&& 0 <= i <= taken.len()
            &&& forall|j: int|
                0 <= j < i && (#[trigger] taken[j]).event is OscColor && !taken[j].standard
                    ==> taken[j].event->slot != slot
        }),
    ensures
        ({
            let start = StartupState::<E>::LockReader { timeout, keyboard_probe };
            let taken = start.takes_in_all(reader, events);
            let color = if slot == 10 {
                probe.foreground_color
            } else {
                probe.background_color
            };
            &&& i == taken.len() ==> color is None
            &&& i < taken.len() && !taken[i].standard ==> {
                &&& forall|r: u8, g: u8, b: u8|
                    taken[i].event == (InternalEvent::OscColor {
                        slot,
                        payload: OscColorPayload::Rgb { r, g, b },
                    }) ==> color == Some(Color::Rgb { r, g, b })
                &&& taken[i].event is OscColor && taken[i].event->slot == slot
                    && taken[i].event->payload is Unrecognized ==> color is None
            }
        }),
{
    law_result_sums_up_the_replies(timeout, keyboard_probe, reader, events);
    let start = StartupState::<E>::LockReader { timeout, keyboard_probe };
    let taken = start.takes_in_all(reader, events);
    assert(start.after_all(reader, events).1.result() == Some(Ok::<_, Error<E>>(probe)));
    if i == taken.len() || taken[i].color(slot) is Some {
        lemma_first_color(taken, slot, i);
    }
}

/// A result names exactly the position that the last report gave that was taken for it: a
/// report in either form, or one that can be an F3 key press if it was taken for the standard
/// request. Without one the result names no position.
pub proof fn law_result_names_the_last_position<E>(
    timeout: Nanos,
    keyboard_probe: KeyboardEnhancementProbe,
    reader: ReaderState,
    events: Seq<(StartupEvent<E>, Nanos)>,
    probe: TerminalStartupProbe,
    x: u16,
    y: u16,
    modifiers: KeyModifiers,
    i: int,
)
    requires
        reader.skipped.len() == 0,
        ({
            let start = StartupState::<E>::LockReader { timeout, keyboard_probe };
            let taken = start.takes_in_all(reader, events);
            &&& start.after_all(reader, events).1 == StartupState::<E>::Done(Ok(probe))
            &&& -1 <= i < taken.len()
            &&& forall|j: int|
                i < j < taken.len() ==> !((#[trigger] taken[j]).event is CursorPosition)
                    && !(taken[j].event is ExtendedCursorPosition)
                    && !(taken[j].event is CursorPositionOrF3)
        }),
    ensures
        ({
            let start = StartupState::<E>::LockReader { timeout, keyboard_probe };
            let taken = start.takes_in_all(reader, events);
            &&& i < 0 ==> probe.cursor_position is None
            &&& i >= 0 && (taken[i].event == InternalEvent::CursorPosition(x, y) || taken[i].event
                == InternalEvent::ExtendedCursorPosition(x, y) || taken[i].event
                == InternalEvent::CursorPositionOrF3(x, y, modifiers))
                ==> probe.cursor_position == Some((x, y))
        }),
{
    law_result_sums_up_the_replies(timeout, keyboard_probe, reader, events);
    let start = StartupState::<E>::LockReader { timeout, keyboard_probe };
    let taken = start.takes_in_all(reader, events);
    assert(start.after_all(reader, events).1.result() == Some(Ok::<_, Error<E>>(probe)));
    assert forall|j: int| i < j < taken.len() implies (#[trigger] taken[j]).position() is None by {
        assert(!(taken[j].event is CursorPosition));
    }
    if i < 0 || taken[i].position() is Some {
        lemma_last_position(taken, i);
    }
}

/// A result says that the keyboard is supported exactly if a reply with its enhancements was
/// taken, that it is not exactly if only the device attributes were, and nothing otherwise.
pub proof fn law_result_tells_of_the_keyboard<E>(
    timeout: Nanos,
    keyboard_probe: KeyboardEnhancementProbe,
    reader: ReaderState,
    events: Seq<(StartupEvent<E>, Nanos)>,
    probe: TerminalStartupProbe,
    i: int,
)
    requires
        reader.skipped.len() == 0,
        (StartupState::<E>::LockReader { timeout, keyboard_probe }).after_all(reader, events).1
            == StartupState::<E>::Done(Ok(probe)),
    ensures
        ({
            let start = StartupState::<E>::LockReader { timeout, keyboard_probe };
            let taken = start.takes_in_all(reader, events);
            let supported = probe.keyboard_enhancement_supported;
            &&& 0 <= i < taken.len() && taken[i].event is KeyboardEnhancementFlags ==> supported
                == Some(true)
            &&& 0 <= i < taken.len() && taken[i].event is PrimaryDeviceAttributes ==> supported
                is Some
            &&& supported == Some(true) ==> exists|j: int|
                0 <= j < taken.len() && (#[trigger] taken[j]).event is KeyboardEnhancementFlags
            &&& supported == Some(false) ==> exists|j: int|
                0 <= j < taken.len() && (#[trigger] taken[j]).event is PrimaryDeviceAttributes
        }),
{
    law_result_sums_up_the_replies(timeout, keyboard_probe, reader, events);
    let start = StartupState::<E>::LockReader { timeout, keyboard_probe };
    let taken = start.takes_in_all(reader, events);
    assert(start.after_all(reader, events).1.result() == Some(Ok::<_, Error<E>>(probe)));
}

} // verus!
