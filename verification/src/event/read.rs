//! The queue of events between a source and those who wait for them.

use crate::error::{Error, ErrorKind};
use crate::event::filter::Filter;
use crate::event::timeout::PollTimeout;
use crate::event::InternalEvent;
use crate::time::Nanos;
use std::collections::VecDeque;
use vstd::prelude::*;

verus! {

/// What one read of a source brought: an event, nothing within the given time, or an error.
pub type SourceReply<E> = Result<Option<InternalEvent>, Error<E>>;

/// What a poll comes to.
pub enum PollStep<E> {
    /// The poll has ended. It found an event that the caller waits for, or none.
    Done(Result<bool, Error<E>>),
    /// The source has to be read, for as long as is left of the wait.
    TryRead(PollTimeout),
}

/// What a read comes to.
pub enum ReadStep<E> {
    /// The read has ended.
    Done(Result<InternalEvent, Error<E>>),
    /// The source has to be read, for as long as it takes.
    TryRead,
}

/// What a filter accepts.
pub open spec fn accepting<F: Filter>(filter: F) -> spec_fn(InternalEvent) -> bool {
    |event: InternalEvent| filter.accepts(event)
}

/// What is not accepted.
pub open spec fn rejecting(accepts: spec_fn(InternalEvent) -> bool) -> spec_fn(
    InternalEvent,
) -> bool {
    |event: InternalEvent| !accepts(event)
}

/// The position of the first event that is accepted, or the number of events if none is.
pub open spec fn first_accepted(
    accepts: spec_fn(InternalEvent) -> bool,
    events: Seq<InternalEvent>,
) -> int
    decreases events.len(),
{
    if events.len() == 0 || accepts(events[0]) {
        0
    } else {
        1 + first_accepted(accepts, events.drop_first())
    }
}

/// Whether one of the events is accepted.
pub open spec fn accepts_any(
    accepts: spec_fn(InternalEvent) -> bool,
    events: Seq<InternalEvent>,
) -> bool {
    exists|i: int| 0 <= i < events.len() && accepts(#[trigger] events[i])
}

/// The events that are accepted, in their order.
pub open spec fn accepted(
    accepts: spec_fn(InternalEvent) -> bool,
    events: Seq<InternalEvent>,
) -> Seq<InternalEvent> {
    events.filter(accepts)
}

/// The events that are not accepted, in their order.
pub open spec fn rejected(
    accepts: spec_fn(InternalEvent) -> bool,
    events: Seq<InternalEvent>,
) -> Seq<InternalEvent> {
    events.filter(rejecting(accepts))
}

/// What a reader holds.
#[verifier::ext_equal]
pub struct ReaderState {
    /// The queued events, first to be handed out first.
    pub events: Seq<InternalEvent>,
    /// The events that the poll under way has passed over.
    pub skipped: Seq<InternalEvent>,
    /// Whether there is a source to read from.
    pub has_source: bool,
}

impl ReaderState {
    /// All events that nobody has taken yet.
    pub open spec fn pending(self) -> Seq<InternalEvent> {
        self.events + self.skipped
    }

    /// The state with events put in front of the queue.
    pub open spec fn prepended(self, events: Seq<InternalEvent>) -> ReaderState {
        ReaderState { events: events + self.events, ..self }
    }

    /// The state once the queue is empty.
    pub open spec fn emptied(self) -> ReaderState {
        ReaderState { events: Seq::empty(), ..self }
    }

    /// The state once the events passed over stand in the queue.
    pub open spec fn settled(self) -> ReaderState {
        ReaderState { events: self.events + self.skipped, skipped: Seq::empty(), ..self }
    }

    /// How a poll begins.
    pub open spec fn poll_begun<E>(self, accepts: spec_fn(InternalEvent) -> bool, wait: PollTimeout) -> PollStep<E> {
        if accepts_any(accepts, self.events) {
            PollStep::Done(Ok(true))
        } else if !self.has_source {
            PollStep::Done(Err(Error::ReaderUnavailable))
        } else {
            PollStep::TryRead(wait)
        }
    }

    /// The state and the next step of a poll after a reply of the source.
    pub open spec fn poll_replied<E>(
        self,
        accepts: spec_fn(InternalEvent) -> bool,
        wait: PollTimeout,
        reply: SourceReply<E>,
        now: Nanos,
    ) -> (ReaderState, PollStep<E>) {
        match reply {
            Err(error) => (
                self.settled(),
                PollStep::Done(
                    if error.spec_kind() == ErrorKind::Interrupted {
                        Ok(false)
                    } else {
                        Err(error)
                    },
                ),
            ),
            Ok(Some(event)) if accepts(event) => (
                ReaderState { events: seq![event] + self.settled().events, ..self.settled() },
                PollStep::Done(Ok(true)),
            ),
            Ok(other) => {
                let state = match other {
                    Some(event) => ReaderState { skipped: self.skipped.push(event), ..self },
                    None => self,
                };
                if wait.over_at(now) {
                    (state.settled(), PollStep::Done(Ok(false)))
                } else {
                    (state, PollStep::TryRead(wait))
                }
            },
        }
    }

    /// The state and the step of a poll after a run of replies, each with the clock when it
    /// came. Replies after the end of the poll count for nothing.
    pub open spec fn poll_run<E>(
        self,
        accepts: spec_fn(InternalEvent) -> bool,
        wait: PollTimeout,
        replies: Seq<(SourceReply<E>, Nanos)>,
    ) -> (ReaderState, PollStep<E>)
        decreases replies.len(),
    {
        if replies.len() == 0 {
            (self, PollStep::TryRead(wait))
        } else {
            let (state, step) = self.poll_run(accepts, wait, replies.drop_last());
            match step {
                PollStep::Done(_) => (state, step),
                PollStep::TryRead(wait) => state.poll_replied(
                    accepts,
                    wait,
                    replies.last().0,
                    replies.last().1,
                ),
            }
        }
    }

    /// The state and the next step of a read as far as the queue decides it.
    pub open spec fn read_begun<E>(self, accepts: spec_fn(InternalEvent) -> bool) -> (ReaderState, ReadStep<E>) {
        if accepts_any(accepts, self.events) {
            let at = first_accepted(accepts, self.events);
            (
                ReaderState { events: self.events.remove(at), ..self },
                ReadStep::Done(Ok(self.events[at])),
            )
        } else if !self.has_source {
            (self, ReadStep::Done(Err(Error::ReaderUnavailable)))
        } else {
            (self, ReadStep::TryRead)
        }
    }

    /// The state and the next step of a read after a reply of the source.
    pub open spec fn read_replied<E>(
        self,
        accepts: spec_fn(InternalEvent) -> bool,
        reply: SourceReply<E>,
    ) -> (ReaderState, ReadStep<E>) {
        match reply {
            Ok(Some(event)) if accepts(event) => (
                self.settled(),
                ReadStep::Done(Ok(event)),
            ),
            Ok(Some(event)) => (
                ReaderState { skipped: self.skipped.push(event), ..self },
                ReadStep::TryRead,
            ),
            Ok(None) => (self, ReadStep::TryRead),
            Err(error) => if error.spec_kind() == ErrorKind::Interrupted {
                self.settled().read_begun(accepts)
            } else {
                (self.settled(), ReadStep::Done(Err(error)))
            },
        }
    }

    /// The state and the step of a read after a run of replies. Replies after the end of the
    /// read count for nothing.
    pub open spec fn read_run<E>(
        self,
        accepts: spec_fn(InternalEvent) -> bool,
        replies: Seq<SourceReply<E>>,
    ) -> (ReaderState, ReadStep<E>)
        decreases replies.len(),
    {
        if replies.len() == 0 {
            (self, ReadStep::TryRead)
        } else {
            let (state, step) = self.read_run(accepts, replies.drop_last());
            match step {
                ReadStep::Done(_) => (state, step),
                ReadStep::TryRead => state.read_replied(accepts, replies.last()),
            }
        }
    }
}

/// The events among replies of a source, in the order they came.
pub open spec fn arrivals<E>(replies: Seq<SourceReply<E>>) -> Seq<InternalEvent>
    decreases replies.len(),
{
    if replies.len() == 0 {
        Seq::empty()
    } else {
        match replies.last() {
            Ok(Some(event)) => arrivals(replies.drop_last()).push(event),
            _ => arrivals(replies.drop_last()),
        }
    }
}

/// The replies of a timed run alone.
pub open spec fn untimed<E>(replies: Seq<(SourceReply<E>, Nanos)>) -> Seq<SourceReply<E>> {
    replies.map_values(|timed: (SourceReply<E>, Nanos)| timed.0)
}

/// Queues events and hands each caller those it waits for.
#[derive(Debug)]
pub struct InternalEventReader {
    events: VecDeque<InternalEvent>,
    skipped_events: VecDeque<InternalEvent>,
    has_source: bool,
}

impl View for InternalEventReader {
    type V = ReaderState;

    closed spec fn view(&self) -> ReaderState {
        ReaderState {
            events: self.events@,
            skipped: self.skipped_events@,
            has_source: self.has_source,
        }
    }
}

impl InternalEventReader {
    /// A reader with events in its queue.
    pub fn new(events: VecDeque<InternalEvent>, has_source: bool) -> (reader: InternalEventReader)
        ensures
            reader@ == (ReaderState { events: events@, skipped: Seq::empty(), has_source }),
    {
        InternalEventReader { events, skipped_events: VecDeque::with_capacity(32), has_source }
    }

    /// The position of the first queued event that a filter accepts.
    fn position<F: Filter>(&self, filter: &F) -> (position: Option<usize>)
        ensures
            match position {
                Some(at) => {
                    &&& at == first_accepted(accepting(*filter), self@.events)
                    &&& at < self@.events.len()
                    &&& accepts_any(accepting(*filter), self@.events)
                },
                None => !accepts_any(accepting(*filter), self@.events),
            },
    {
        let mut at: usize = 0;
        assert(self.events@.skip(0) =~= self.events@);
        while at < self.events.len()
            invariant
                at <= self.events@.len(),
                first_accepted(accepting(*filter), self.events@) == at + first_accepted(
                    accepting(*filter),
                    self.events@.skip(at as int),
                ),
                forall|i: int| 0 <= i < at ==> !filter.accepts(#[trigger] self.events@[i]),
            decreases self.events@.len() - at,
        {
            if filter.eval(&self.events[at]) {
                assert(filter.accepts(self.events@[at as int]));
                return Some(at);
            }
            assert(self.events@.skip(at as int).drop_first() =~= self.events@.skip(at + 1));
            at += 1;
        }
        None
    }

    /// Moves the events passed over to the end of the queue.
    fn settle(&mut self)
        ensures
            final(self)@ == old(self)@.settled(),
    {
        self.events.append(&mut self.skipped_events);
    }

    /// Begins to poll for an event that the filter accepts. A queued one ends the poll at
    /// once; otherwise the source has to be read.
    pub fn poll<F: Filter, E>(
        &self,
        timeout: Option<Nanos>,
        now: Nanos,
        filter: &F,
    ) -> (step: PollStep<E>)
        ensures
            step == self@.poll_begun::<E>(accepting(*filter), PollTimeout { timeout, start: now }),
            forall|i: int|
                0 <= i < self@.events.len() && filter.accepts(#[trigger] self@.events[i]) ==> step
                    == PollStep::<E>::Done(Ok(true)),
            step == PollStep::<E>::Done(Ok(true)) ==> exists|i: int|
                0 <= i < self@.events.len() && filter.accepts(#[trigger] self@.events[i]),
            step is Done && step != PollStep::<E>::Done(Ok(true)) ==> !self@.has_source && step
                == PollStep::<E>::Done(Err(Error::ReaderUnavailable)),
            step is TryRead ==> self@.has_source && step == PollStep::<E>::TryRead(
                PollTimeout { timeout, start: now },
            ),
    {
        if self.position(filter).is_some() {
            return PollStep::Done(Ok(true));
        }
        if !self.has_source {
            return PollStep::Done(Err(Error::ReaderUnavailable));
        }
        PollStep::TryRead(PollTimeout::new(timeout, now))
    }

    /// Goes on with a poll after a reply of the source. An event that the filter accepts
    /// goes to the front of the queue. The others are passed over, and stand at the end of
    /// the queue once the poll has ended, whatever ended it.
    pub fn poll_reply<F: Filter, E>(
        &mut self,
        filter: &F,
        wait: PollTimeout,
        reply: SourceReply<E>,
        now: Nanos,
    ) -> (step: PollStep<E>)
        ensures
            (final(self)@, step) == old(self)@.poll_replied(accepting(*filter), wait, reply, now),
            reply matches Ok(Some(event)) ==> (filter.accepts(event) ==> {
                &&& step == PollStep::<E>::Done(Ok(true))
                &&& final(self)@.events == seq![event] + (old(self)@.events + old(self)@.skipped)
            }),
            step is Done ==> final(self)@.skipped.len() == 0,
            final(self)@.has_source == old(self)@.has_source,
    {
        let maybe_event = match reply {
            Ok(None) => None,
            Ok(Some(event)) => {
                if filter.eval(&event) {
                    Some(event)
                } else {
                    self.skipped_events.push_back(event);
                    None
                }
            },
            Err(error) => {
                self.settle();
                if error.kind() == ErrorKind::Interrupted {
                    return PollStep::Done(Ok(false));
                }
                return PollStep::Done(Err(error));
            },
        };

        if wait.elapsed(now) || maybe_event.is_some() {
            self.settle();
            if let Some(event) = maybe_event {
                self.events.push_front(event);
                return PollStep::Done(Ok(true));
            }
            return PollStep::Done(Ok(false));
        }
        PollStep::TryRead(wait)
    }

    /// Begins to read an event that the filter accepts. The first one in the queue is taken
    /// out of it; otherwise the source has to be read.
    pub fn read<F: Filter, E>(&mut self, filter: &F) -> (step: ReadStep<E>)
        ensures
            (final(self)@, step) == old(self)@.read_begun::<E>(accepting(*filter)),
            forall|i: int|
                0 <= i < old(self)@.events.len() && filter.accepts(
                    #[trigger] old(self)@.events[i],
                ) ==> (step matches ReadStep::Done(Ok(event)) && filter.accepts(event)),
            final(self)@.skipped == old(self)@.skipped,
            final(self)@.has_source == old(self)@.has_source,
    {
        proof {
            law_first_accepted_is_first(accepting(*filter), self@.events);
        }
        match self.position(filter) {
            Some(at) => {
                match self.events.remove(at) {
                    Some(event) => ReadStep::Done(Ok(event)),
                    None => ReadStep::TryRead,
                }
            },
            None => {
                if !self.has_source {
                    return ReadStep::Done(Err(Error::ReaderUnavailable));
                }
                ReadStep::TryRead
            },
        }
    }

    /// Goes on with a read after a reply of the source. An event that the filter accepts is
    /// handed out. The others are kept in the order they came in, whatever ends the read.
    pub fn read_reply<F: Filter, E>(
        &mut self,
        filter: &F,
        reply: SourceReply<E>,
    ) -> (step: ReadStep<E>)
        ensures
            (final(self)@, step) == old(self)@.read_replied(accepting(*filter), reply),
            reply matches Ok(Some(event)) ==> (filter.accepts(event) ==> {
                &&& step == ReadStep::<E>::Done(Ok(event))
                &&& final(self)@.events == old(self)@.events + old(self)@.skipped
            }),
            reply matches Ok(Some(event)) ==> (!filter.accepts(event) ==> step == ReadStep::<
                E,
            >::TryRead),
            reply matches Ok(None) ==> step == ReadStep::<E>::TryRead,
    {
        let ghost before = self@;
        let wait = PollTimeout::new(None, Nanos(0));
        match self.poll_reply(filter, wait, reply, Nanos(0)) {
            PollStep::TryRead(_) => ReadStep::TryRead,
            PollStep::Done(Err(error)) => ReadStep::Done(Err(error)),
            PollStep::Done(Ok(_)) => {
                proof {
                    if reply is Ok {
                        let event = reply->Ok_0->Some_0;
                        assert(self@.events[0] == event);
                        assert(first_accepted(accepting(*filter), self@.events) == 0);
                        assert(self@.events.remove(0) =~= before.settled().events);
                    }
                }
                self.read(filter)
            },
        }
    }

    /// Takes all queued events.
    pub fn take_queued_events(&mut self) -> (events: VecDeque<InternalEvent>)
        ensures
            events@ == old(self)@.events,
            final(self)@ == old(self)@.emptied(),
            final(self)@.events.len() == 0,
            final(self)@.skipped == old(self)@.skipped,
            final(self)@.has_source == old(self)@.has_source,
    {
        let mut events: VecDeque<InternalEvent> = VecDeque::new();
        events.append(&mut self.events);
        assert(events@ =~= old(self)@.events);
        events
    }

    /// Puts events in front of the queue.
    pub fn prepend_queued_events(&mut self, events: VecDeque<InternalEvent>)
        ensures
            final(self)@ == old(self)@.prepended(events@),
            final(self)@.events == events@ + old(self)@.events,
            final(self)@.skipped == old(self)@.skipped,
            final(self)@.has_source == old(self)@.has_source,
    {
        let mut events = events;
        events.append(&mut self.events);
        self.events.append(&mut events);
    }
}

/// Where the first accepted event stands: everything before it is not accepted, and it is
/// accepted itself if there is one.
pub proof fn law_first_accepted_is_first(
    accepts: spec_fn(InternalEvent) -> bool,
    events: Seq<InternalEvent>,
)
    ensures
        0 <= first_accepted(accepts, events) <= events.len(),
        forall|i: int|
            0 <= i < first_accepted(accepts, events) ==> !accepts(#[trigger] events[i]),
        accepts_any(accepts, events) <==> first_accepted(accepts, events) < events.len(),
        first_accepted(accepts, events) < events.len() ==> accepts(
            events[first_accepted(accepts, events)],
        ),
    decreases events.len(),
{
    if events.len() > 0 && !accepts(events[0]) {
        let rest = events.drop_first();
        law_first_accepted_is_first(accepts, rest);
        let at = first_accepted(accepts, events);
        assert forall|i: int| 0 <= i < at implies !accepts(#[trigger] events[i]) by {
            if i > 0 {
                assert(events[i] == rest[i - 1]);
            }
        }
        if at < events.len() {
            assert(events[at] == rest[at - 1]);
        }
    }
}

/// The events among timed replies, one reply at a time.
proof fn lemma_untimed_step<E>(replies: Seq<(SourceReply<E>, Nanos)>)
    requires
        replies.len() > 0,
    ensures
        untimed(replies).drop_last() == untimed(replies.drop_last()),
        untimed(replies).last() == replies.last().0,
{
    assert(untimed(replies).drop_last() =~= untimed(replies.drop_last()));
}

/// A poll loses no event and reorders none: while it lasts and however it ends, be it with
/// an event, at the deadline, by an interruption or by a failure, everything that was
/// pending before is still pending, followed by what came in meanwhile, in the order it
/// came. Only the event waited for, which came last, stands in front of all. Once the poll
/// has ended, all of this is in the queue.
pub proof fn law_poll_preserves_input<E>(
    state: ReaderState,
    accepts: spec_fn(InternalEvent) -> bool,
    wait: PollTimeout,
    replies: Seq<(SourceReply<E>, Nanos)>,
)
    requires
        replies.len() > 0 ==> state.poll_run(accepts, wait, replies.drop_last()).1 is TryRead,
    ensures
        ({
            let (after, step) = state.poll_run(accepts, wait, replies);
            &&& after.has_source == state.has_source
            &&& step == PollStep::<E>::Done(Ok(true)) ==> {
                &&& replies.len() > 0
                &&& replies.last().0 matches Ok(Some(event))
                &&& accepts(event)
                &&& after.events == seq![event] + (state.pending() + arrivals(
                    untimed(replies.drop_last()),
                ))
            }
            &&& step != PollStep::<E>::Done(Ok(true)) ==> after.pending() == state.pending()
                + arrivals(untimed(replies))
            &&& step is Done ==> after.skipped.len() == 0
            &&& step is TryRead ==> after.events == state.events && step == PollStep::<E>::TryRead(
                wait,
            )
        }),
    decreases replies.len(),
{
    if replies.len() == 0 {
        assert(untimed(replies) =~= Seq::empty());
        assert(state.pending() + Seq::<InternalEvent>::empty() =~= state.pending());
    } else {
        let earlier = replies.drop_last();
        let before = state.poll_run(accepts, wait, earlier).0;
        if earlier.len() > 0 {
            assert(state.poll_run(accepts, wait, earlier.drop_last()).1 is TryRead);
        }
        law_poll_preserves_input(state, accepts, wait, earlier);
        lemma_untimed_step(replies);
        let came = arrivals(untimed(earlier));
        let (after, step) = state.poll_run(accepts, wait, replies);
        if let Ok(Some(event)) = replies.last().0 {
            assert(before.events + before.skipped.push(event) =~= before.pending().push(event));
            assert(state.pending() + came.push(event) =~= (state.pending() + came).push(event));
        }
        assert(after.settled().pending() =~= after.pending());
        if step is Done {
            assert(after.pending() =~= after.events);
        }
    }
}

/// A read loses no event but the one it hands out and reorders none: while it lasts and
/// however it ends, everything that was pending before is still pending, followed by what
/// came in meanwhile, in the order it came. Only the event handed out, which came last, is
/// gone.
pub proof fn law_read_preserves_input<E>(
    state: ReaderState,
    accepts: spec_fn(InternalEvent) -> bool,
    replies: Seq<SourceReply<E>>,
)
    requires
        state.has_source,
        !accepts_any(accepts, state.pending()),
        replies.len() > 0 ==> state.read_run(accepts, replies.drop_last()).1 is TryRead,
    ensures
        ({
            let (after, step) = state.read_run(accepts, replies);
            &&& after.has_source
            &&& !accepts_any(accepts, after.pending())
            &&& step is Done ==> after.skipped.len() == 0
            &&& match step {
                ReadStep::Done(Ok(event)) => {
                    &&& accepts(event)
                    &&& replies.len() > 0
                    &&& replies.last() == SourceReply::<E>::Ok(Some(event))
                    &&& after.pending() == state.pending() + arrivals(replies.drop_last())
                },
                _ => after.pending() == state.pending() + arrivals(replies),
            }
        }),
    decreases replies.len(),
{
    if replies.len() == 0 {
        assert(state.pending() + Seq::<InternalEvent>::empty() =~= state.pending());
    } else {
        let earlier = replies.drop_last();
        let before = state.read_run(accepts, earlier).0;
        if earlier.len() > 0 {
            assert(state.read_run(accepts, earlier.drop_last()).1 is TryRead);
        }
        law_read_preserves_input(state, accepts, earlier);
        let came = arrivals(earlier);
        let (after, step) = state.read_run(accepts, replies);
        assert(before.settled().pending() =~= before.pending());
        assert(before.settled().events =~= before.pending());
        if let Ok(Some(event)) = replies.last() {
            if !accepts(event) {
                assert(before.events + before.skipped.push(event) =~= before.pending().push(event));
                assert(state.pending() + came.push(event) =~= (state.pending() + came).push(event));
                assert forall|i: int| 0 <= i < after.pending().len() implies !accepts(
                    #[trigger] after.pending()[i],
                ) by {
                    if i < before.pending().len() {
                        assert(after.pending()[i] == before.pending()[i]);
                    }
                }
            }
        }
    }
}

/// After a poll that found an event, a read of the same events hands out an event that is
/// accepted, without reading the source.
pub proof fn law_found_event_is_read_at_once<E>(
    state: ReaderState,
    accepts: spec_fn(InternalEvent) -> bool,
    wait: PollTimeout,
    reply: SourceReply<E>,
    now: Nanos,
)
    ensures
        state.poll_begun::<E>(accepts, wait) == PollStep::<E>::Done(Ok(true)) ==> {
            &&& state.read_begun::<E>(accepts).1 matches ReadStep::Done(Ok(event))
            &&& accepts(event)
        },
        ({
            let (after, step) = state.poll_replied(accepts, wait, reply, now);
            step == PollStep::<E>::Done(Ok(true)) ==> {
                &&& reply matches Ok(Some(event))
                &&& after.read_begun::<E>(accepts) == (
                    state.settled(),
                    ReadStep::<E>::Done(Ok(event)),
                )
            }
        }),
{
    law_first_accepted_is_first(accepts, state.events);
    let (after, step) = state.poll_replied(accepts, wait, reply, now);
    if step == PollStep::<E>::Done(Ok(true)) {
        assert(accepts(after.events[0]));
        assert(after.events.remove(0) =~= state.settled().events);
    }
}

/// An event that one caller passes over is still there for another: a read takes only the
/// event that it hands out, and every other one keeps its place.
pub proof fn law_read_takes_only_its_event<E>(
    state: ReaderState,
    accepts: spec_fn(InternalEvent) -> bool,
)
    ensures
        ({
            let (after, step) = state.read_begun::<E>(accepts);
            let at = first_accepted(accepts, state.events);
            match step {
                ReadStep::Done(Ok(event)) => {
                    &&& 0 <= at < state.events.len()
                    &&& event == state.events[at]
                    &&& accepts(event)
                    &&& forall|i: int| 0 <= i < at ==> !accepts(#[trigger] state.events[i])
                    &&& state.events == after.events.take(at) + seq![event] + after.events.skip(at)
                },
                _ => after == state,
            }
        }),
{
    law_first_accepted_is_first(accepts, state.events);
    let (after, step) = state.read_begun::<E>(accepts);
    let at = first_accepted(accepts, state.events);
    if let ReadStep::Done(Ok(event)) = step {
        assert(state.events =~= after.events.take(at) + seq![event] + after.events.skip(at));
    }
}

/// Events that were taken out of the queue and are put back stand as they stood, in front of
/// what came in meanwhile.
pub proof fn law_taken_events_go_back_in_front(state: ReaderState, meanwhile: Seq<InternalEvent>)
    ensures
        state.emptied().prepended(state.events) == state,
        (ReaderState { events: meanwhile, ..state.emptied() }).prepended(state.events).events
            == state.events + meanwhile,
{
    assert(state.emptied().prepended(state.events) =~= state);
}

/// What a filter accepts is what it says of each event.
pub proof fn law_filter_speaks_for_itself<F: Filter>(filter: F, event: InternalEvent)
    ensures
        accepting(filter)(event) == filter.accepts(event),
{
}

/// A queued event that is accepted ends a poll at once with success, wherever it stands in the
/// queue, with every timeout and none at all, and whether or not there is a source.
pub proof fn law_queued_event_ends_a_poll_at_once<E>(
    state: ReaderState,
    accepts: spec_fn(InternalEvent) -> bool,
    wait: PollTimeout,
    i: int,
)
    requires
        0 <= i < state.events.len(),
        accepts(state.events[i]),
    ensures
        state.poll_begun::<E>(accepts, wait) == PollStep::<E>::Done(Ok(true)),
{
}

/// With no accepted event in the queue a poll reads the source, with just the wait that it was
/// begun with, and fails where there is no source.
pub proof fn law_poll_needs_the_source_otherwise<E>(
    state: ReaderState,
    accepts: spec_fn(InternalEvent) -> bool,
    wait: PollTimeout,
)
    requires
        forall|i: int| 0 <= i < state.events.len() ==> !accepts(#[trigger] state.events[i]),
    ensures
        state.has_source ==> state.poll_begun::<E>(accepts, wait) == PollStep::<E>::TryRead(wait),
        !state.has_source ==> state.poll_begun::<E>(accepts, wait) == PollStep::<E>::Done(
            Err(Error::ReaderUnavailable),
        ),
{
}

/// An event that a poll waits for ends it with success, even after its timeout, and stands in
/// front of all others.
pub proof fn law_awaited_event_ends_a_poll<E>(
    state: ReaderState,
    accepts: spec_fn(InternalEvent) -> bool,
    wait: PollTimeout,
    event: InternalEvent,
    now: Nanos,
)
    requires
        accepts(event),
    ensures
        ({
            let (after, step) = state.poll_replied::<E>(accepts, wait, Ok(Some(event)), now);
            &&& step == PollStep::<E>::Done(Ok(true))
            &&& after.events == seq![event] + (state.events + state.skipped)
            &&& after.skipped.len() == 0
            &&& after.has_source == state.has_source
        }),
{
}

/// An event that a poll does not wait for, and a read without an event, leave the poll going
/// with the same wait until the timeout has passed, and end it without success from that moment
/// on. The event is kept behind all others either way.
pub proof fn law_poll_goes_on_until_its_timeout<E>(
    state: ReaderState,
    accepts: spec_fn(InternalEvent) -> bool,
    wait: PollTimeout,
    event: InternalEvent,
    now: Nanos,
)
    requires
        !accepts(event),
    ensures
        ({
            let passed = wait.timeout is Some && (wait.timeout->Some_0.0 == 0 || now.0
                >= wait.start.0 + wait.timeout->Some_0.0);
            let (after, step) = state.poll_replied::<E>(accepts, wait, Ok(Some(event)), now);
            let (quiet, quiet_step) = state.poll_replied::<E>(accepts, wait, Ok(None), now);
            &&& after.has_source == state.has_source && quiet.has_source == state.has_source
            &&& passed ==> {
                &&& step == PollStep::<E>::Done(Ok(false)) && quiet_step == step
                &&& after.events == state.events + state.skipped.push(event)
                &&& quiet.events == state.events + state.skipped
                &&& after.skipped.len() == 0 && quiet.skipped.len() == 0
            }
            &&& !passed ==> {
                &&& step == PollStep::<E>::TryRead(wait) && quiet_step == step
                &&& after.events == state.events && after.skipped == state.skipped.push(event)
                &&& quiet == state
            }
        }),
{
}

/// A wake and an interruption end a poll without success and without an error; any other error
/// of the source is handed on as it is. What was passed over goes back to the queue.
pub proof fn law_error_ends_a_poll<E>(
    state: ReaderState,
    accepts: spec_fn(InternalEvent) -> bool,
    wait: PollTimeout,
    error: Error<E>,
    now: Nanos,
)
    ensures
        ({
            let (after, step) = state.poll_replied(accepts, wait, Err(error), now);
            let interrupted = error is WokenUp || (error matches Error::Io(failure) && failure.kind
                == ErrorKind::Interrupted);
            &&& interrupted ==> step == PollStep::<E>::Done(Ok(false))
            &&& !interrupted ==> step == PollStep::Done(Err(error))
            &&& after.events == state.events + state.skipped
            &&& after.skipped.len() == 0
            &&& after.has_source == state.has_source
        }),
{
}

/// A read takes the first queued event that is accepted, whether or not there is a source: the
/// events around it stay as they are.
pub proof fn law_read_takes_the_first_accepted<E>(
    state: ReaderState,
    accepts: spec_fn(InternalEvent) -> bool,
    before: Seq<InternalEvent>,
    event: InternalEvent,
    behind: Seq<InternalEvent>,
)
    requires
        state.events == before + seq![event] + behind,
        forall|i: int| 0 <= i < before.len() ==> !accepts(#[trigger] before[i]),
        accepts(event),
    ensures
        ({
            let (after, step) = state.read_begun::<E>(accepts);
            &&& step == ReadStep::<E>::Done(Ok(event))
            &&& after.events == before + behind
            &&& after.skipped == state.skipped
            &&& after.has_source == state.has_source
        }),
{
    law_first_accepted_is_first(accepts, state.events);
    let at = first_accepted(accepts, state.events);
    assert(state.events[before.len() as int] == event);
    if at < before.len() {
        assert(state.events[at] == before[at]);
    }
    assert(state.events.remove(at) =~= before + behind);
}

/// With no accepted event in the queue a read needs the source, and fails where there is none.
/// The queue stays as it is.
pub proof fn law_read_needs_the_source_otherwise<E>(
    state: ReaderState,
    accepts: spec_fn(InternalEvent) -> bool,
)
    requires
        forall|i: int| 0 <= i < state.events.len() ==> !accepts(#[trigger] state.events[i]),
    ensures
        state.has_source ==> state.read_begun::<E>(accepts) == (state, ReadStep::<E>::TryRead),
        !state.has_source ==> state.read_begun::<E>(accepts) == (
            state,
            ReadStep::<E>::Done(Err(Error::ReaderUnavailable)),
        ),
{
}

/// A read hands out an event that it waits for as soon as the source brings it, keeps any other
/// behind all events, and goes on reading without a limit of time. A wake and an interruption
/// let it begin anew, and any other error ends it.
pub proof fn law_read_goes_on_until_its_event<E>(
    state: ReaderState,
    accepts: spec_fn(InternalEvent) -> bool,
    event: InternalEvent,
    error: Error<E>,
)
    ensures
        accepts(event) ==> {
            let (after, step) = state.read_replied::<E>(accepts, Ok(Some(event)));
            &&& step == ReadStep::<E>::Done(Ok(event))
            &&& after.events == state.events + state.skipped
            &&& after.skipped.len() == 0
            &&& after.has_source == state.has_source
        },
        !accepts(event) ==> {
            let (after, step) = state.read_replied::<E>(accepts, Ok(Some(event)));
            &&& step == ReadStep::<E>::TryRead
            &&& after.events == state.events
            &&& after.skipped == state.skipped.push(event)
            &&& after.has_source == state.has_source
        },
        state.read_replied::<E>(accepts, Ok(None)) == (state, ReadStep::<E>::TryRead),
        ({
            let interrupted = error is WokenUp || (error matches Error::Io(failure) && failure.kind
                == ErrorKind::Interrupted);
            let kept = ReaderState {
                events: state.events + state.skipped,
                skipped: Seq::empty(),
                has_source: state.has_source,
            };
            &&& interrupted ==> state.read_replied(accepts, Err(error)) == kept.read_begun::<E>(
                accepts,
            )
            &&& !interrupted ==> state.read_replied(accepts, Err(error)) == (
                kept,
                ReadStep::Done(Err(error)),
            )
        }),
{
}

/// Events that are put in front stand in front of the whole queue, and once the queue is taken
/// it is empty; what a poll has passed over is not touched by either.
pub proof fn law_queue_is_taken_and_put_back_whole(state: ReaderState, events: Seq<InternalEvent>)
    ensures
        state.prepended(events).events == events + state.events,
        state.prepended(events).skipped == state.skipped,
        state.prepended(events).has_source == state.has_source,
        state.emptied().events.len() == 0,
        state.emptied().skipped == state.skipped,
        state.emptied().has_source == state.has_source,
        state.settled().events == state.events + state.skipped,
        state.settled().skipped.len() == 0,
        state.settled().has_source == state.has_source,
{
}

} // verus!
