//! What holds of a reader over any sequence of polls and reads.

use crate::error::{Error, Failure};
use crate::event::read::{
    accepted, accepts_any, arrivals, first_accepted, law_first_accepted_is_first,
    law_poll_preserves_input, law_read_preserves_input, untimed, PollStep, ReadStep, ReaderState,
    SourceReply,
};
use crate::event::source::{mio, tty};
use crate::event::timeout::PollTimeout;
use crate::event::InternalEvent;
use crate::time::Nanos;
use vstd::prelude::*;
use vstd::seq_lib::lemma_multiset_commutative;

verus! {

/// Adding one event to a sequence adds it to those that are kept, if it is one to keep.
pub(crate) proof fn lemma_filter_push(
    events: Seq<InternalEvent>,
    event: InternalEvent,
    keep: spec_fn(InternalEvent) -> bool,
)
    ensures
        events.push(event).filter(keep) == if keep(event) {
            events.filter(keep).push(event)
        } else {
            events.filter(keep)
        },
{
    reveal(Seq::filter);
    assert(events.push(event).drop_last() =~= events);
}

/// Taking one event out of a sequence changes nothing of those that are kept, unless it is
/// one of them.
pub(crate) proof fn lemma_filter_remove(
    events: Seq<InternalEvent>,
    at: int,
    keep: spec_fn(InternalEvent) -> bool,
)
    requires
        0 <= at < events.len(),
        !keep(events[at]),
    ensures
        events.remove(at).filter(keep) == events.filter(keep),
{
    reveal(Seq::filter);
    let (head, taken, tail) = (events.take(at), seq![events[at]], events.skip(at + 1));
    assert(events =~= head + taken + tail);
    assert(events.remove(at) =~= head + tail);
    lemma_filter_push(Seq::empty(), events[at], keep);
    assert(taken =~= Seq::empty().push(events[at]));
    assert(Seq::<InternalEvent>::empty().filter(keep) =~= Seq::empty());
    Seq::filter_distributes_over_add(head + taken, tail, keep);
    Seq::filter_distributes_over_add(head, taken, keep);
    Seq::filter_distributes_over_add(head, tail, keep);
    assert(head.filter(keep) + Seq::<InternalEvent>::empty() =~= head.filter(keep));
}

/// One call of a reader, from its begin to its end, with the replies of the source that it
/// brought about. Each call has a filter of its own.
pub enum ReaderCall<E> {
    Poll {
        accepts: spec_fn(InternalEvent) -> bool,
        wait: PollTimeout,
        /// The replies, each with the clock when it came.
        timed_replies: Seq<(SourceReply<E>, Nanos)>,
    },
    Read { accepts: spec_fn(InternalEvent) -> bool, replies: Seq<SourceReply<E>> },
}

impl<E> ReaderCall<E> {
    /// Whether the filter of the call accepts an event.
    pub open spec fn waits_for(self, event: InternalEvent) -> bool {
        match self {
            ReaderCall::Poll { accepts, wait: _, timed_replies: _ } => accepts(event),
            ReaderCall::Read { accepts, replies: _ } => accepts(event),
        }
    }

    /// The events that the source brought, in their order.
    pub open spec fn arrived(self) -> Seq<InternalEvent> {
        match self {
            ReaderCall::Poll { accepts: _, wait: _, timed_replies } => arrivals(
                untimed(timed_replies),
            ),
            ReaderCall::Read { accepts: _, replies } => arrivals(replies),
        }
    }

    /// Whether the call runs from its begin to its end: the source is read as long as the
    /// call needs it, and no longer.
    pub open spec fn completes(self, state: ReaderState) -> bool {
        match self {
            ReaderCall::Poll { accepts, wait, timed_replies: replies } => if state.poll_begun::<E>(
                accepts,
                wait,
            ) is Done {
                replies.len() == 0
            } else {
                &&& replies.len() > 0
                &&& state.poll_run(accepts, wait, replies.drop_last()).1 is TryRead
                &&& state.poll_run(accepts, wait, replies).1 is Done
            },
            ReaderCall::Read { accepts, replies } => if state.read_begun::<E>(accepts).1 is Done {
                replies.len() == 0
            } else {
                &&& replies.len() > 0
                &&& state.read_run(accepts, replies.drop_last()).1 is TryRead
                &&& state.read_run(accepts, replies).1 is Done
            },
        }
    }

    /// The reader after the call, and the event that the call handed out, if it did.
    pub open spec fn ends(self, state: ReaderState) -> (ReaderState, Seq<InternalEvent>) {
        match self {
            ReaderCall::Poll { accepts, wait, timed_replies: replies } => if state.poll_begun::<E>(
                accepts,
                wait,
            ) is Done {
                (state, Seq::empty())
            } else {
                (state.poll_run(accepts, wait, replies).0, Seq::empty())
            },
            ReaderCall::Read { accepts, replies } => {
                let (after, step) = if state.read_begun::<E>(accepts).1 is Done {
                    state.read_begun::<E>(accepts)
                } else {
                    state.read_run(accepts, replies)
                };
                (
                    after,
                    match step {
                        ReadStep::Done(Ok(event)) => seq![event],
                        _ => Seq::empty(),
                    },
                )
            },
        }
    }
}

/// The reader after a sequence of calls, and all events that they handed out.
pub open spec fn calls_end<E>(state: ReaderState, calls: Seq<ReaderCall<E>>) -> (
    ReaderState,
    Seq<InternalEvent>,
)
    decreases calls.len(),
{
    if calls.len() == 0 {
        (state, Seq::empty())
    } else {
        let (before, handed) = calls_end(state, calls.drop_last());
        let (after, last_handed) = calls.last().ends(before);
        (after, handed + last_handed)
    }
}

/// Whether every call of a sequence runs from its begin to its end.
pub open spec fn calls_complete<E>(state: ReaderState, calls: Seq<ReaderCall<E>>) -> bool
    decreases calls.len(),
{
    calls.len() == 0 || {
        &&& calls_complete(state, calls.drop_last())
        &&& calls.last().completes(calls_end(state, calls.drop_last()).0)
    }
}

/// All events that the source brought during a sequence of calls, in their order.
pub open spec fn arrived_during<E>(calls: Seq<ReaderCall<E>>) -> Seq<InternalEvent>
    decreases calls.len(),
{
    if calls.len() == 0 {
        Seq::empty()
    } else {
        arrived_during(calls.drop_last()) + calls.last().arrived()
    }
}

/// What no call of a sequence waits for.
pub open spec fn unwanted<E>(calls: Seq<ReaderCall<E>>) -> spec_fn(InternalEvent) -> bool {
    |event: InternalEvent|
        forall|i: int| 0 <= i < calls.len() ==> !(#[trigger] calls[i]).waits_for(event)
}

/// Moving the last event of a sequence to the front, or out of the sequence, loses none and
/// keeps the order of the others.
proof fn lemma_moved(
    events: Seq<InternalEvent>,
    event: InternalEvent,
    keep: spec_fn(InternalEvent) -> bool,
)
    requires
        !keep(event),
    ensures
        (seq![event] + events).to_multiset() == events.push(event).to_multiset(),
        (seq![event] + events).filter(keep) == events.push(event).filter(keep),
        events.filter(keep) == events.push(event).filter(keep),
{
    lemma_filter_push(events, event, keep);
    lemma_filter_remove(seq![event] + events, 0, keep);
    assert((seq![event] + events).remove(0) =~= events);
    lemma_multiset_commutative(seq![event], events);
    lemma_multiset_commutative(events, seq![event]);
    assert(events + seq![event] =~= events.push(event));
    assert(seq![event].to_multiset().add(events.to_multiset()) =~= events.to_multiset().add(
        seq![event].to_multiset(),
    ));
}

/// One call loses no event, and leaves those in their order that it does not wait for.
proof fn lemma_call_preserves_input<E>(
    state: ReaderState,
    call: ReaderCall<E>,
    keep: spec_fn(InternalEvent) -> bool,
)
    requires
        state.skipped.len() == 0,
        call.completes(state),
        forall|event: InternalEvent| #[trigger] call.waits_for(event) ==> !keep(event),
    ensures
        ({
            let (after, handed) = call.ends(state);
            let all = state.events + call.arrived();
            &&& after.skipped.len() == 0
            &&& (handed + after.events).to_multiset() == all.to_multiset()
            &&& after.events.filter(keep) == all.filter(keep)
        }),
{
    let (after, handed) = call.ends(state);
    let none = Seq::<InternalEvent>::empty();
    assert(state.pending() =~= state.events);
    assert(state.events + none =~= state.events);
    assert(none + after.events =~= after.events);
    match call {
        ReaderCall::Poll { accepts, wait, timed_replies: replies } => {
            if state.poll_begun::<E>(accepts, wait) is Done {
                assert(untimed(replies) =~= Seq::empty());
            } else {
                law_poll_preserves_input(state, accepts, wait, replies);
                let step = state.poll_run(accepts, wait, replies).1;
                assert(after.pending() =~= after.events);
                if step == PollStep::<E>::Done(Ok(true)) {
                    let event = replies.last().0->Ok_0->Some_0;
                    let came = arrivals(untimed(replies.drop_last()));
                    assert(untimed(replies).drop_last() =~= untimed(replies.drop_last()));
                    assert(call.waits_for(event));
                    lemma_moved(state.events + came, event, keep);
                    assert(state.events + came.push(event) =~= (state.events + came).push(event));
                }
            }
        },
        ReaderCall::Read { accepts, replies } => {
            if state.read_begun::<E>(accepts).1 is Done {
                if accepts_any(accepts, state.events) {
                    law_first_accepted_is_first(accepts, state.events);
                    let at = first_accepted(accepts, state.events);
                    let event = state.events[at];
                    assert(call.waits_for(event));
                    lemma_filter_remove(state.events, at, keep);
                    lemma_moved(after.events, event, keep);
                    vstd::seq_lib::to_multiset_insert(after.events, at, event);
                    vstd::seq_lib::to_multiset_build(after.events, event);
                    assert(after.events.insert(at, event) =~= state.events);
                }
            } else {
                law_read_preserves_input(state, accepts, replies);
                assert(after.pending() =~= after.events);
                if let ReadStep::Done(Ok(event)) = state.read_run(accepts, replies).1 {
                    let came = arrivals(replies.drop_last());
                    assert(call.waits_for(event));
                    lemma_moved(state.events + came, event, keep);
                    assert(state.events + came.push(event) =~= (state.events + came).push(event));
                }
            }
        },
    }
}

/// The same of a sequence of calls.
proof fn lemma_calls_preserve_input<E>(
    state: ReaderState,
    calls: Seq<ReaderCall<E>>,
    keep: spec_fn(InternalEvent) -> bool,
)
    requires
        state.skipped.len() == 0,
        calls_complete(state, calls),
        forall|i: int, event: InternalEvent|
            0 <= i < calls.len() && #[trigger] calls[i].waits_for(event) ==> !keep(event),
    ensures
        ({
            let (after, handed) = calls_end(state, calls);
            let all = state.events + arrived_during(calls);
            &&& after.skipped.len() == 0
            &&& (handed + after.events).to_multiset() == all.to_multiset()
            &&& after.events.filter(keep) == all.filter(keep)
        }),
    decreases calls.len(),
{
    if calls.len() == 0 {
        assert(state.events + Seq::<InternalEvent>::empty() =~= state.events);
        assert(Seq::<InternalEvent>::empty() + state.events =~= state.events);
    } else {
        let earlier = calls.drop_last();
        assert forall|i: int, event: InternalEvent|
            0 <= i < earlier.len() && #[trigger] earlier[i].waits_for(event) implies !keep(
            event,
        ) by {
            assert(calls[i].waits_for(event));
        }
        lemma_calls_preserve_input(state, earlier, keep);
        let (before, handed) = calls_end(state, earlier);
        let call = calls.last();
        assert forall|event: InternalEvent| #[trigger] call.waits_for(event) implies !keep(
            event,
        ) by {
            assert(calls[calls.len() - 1].waits_for(event));
        }
        lemma_call_preserves_input(before, call, keep);
        let (after, last_handed) = call.ends(before);
        let earlier_all = state.events + arrived_during(earlier);
        let all = state.events + arrived_during(calls);
        assert(all =~= earlier_all + call.arrived());
        lemma_multiset_commutative(earlier_all, call.arrived());
        lemma_multiset_commutative(handed, before.events);
        lemma_multiset_commutative(before.events, call.arrived());
        lemma_multiset_commutative(handed, last_handed + after.events);
        assert(handed + last_handed + after.events =~= handed + (last_handed + after.events));
        assert((handed + last_handed + after.events).to_multiset() =~= all.to_multiset());
        Seq::filter_distributes_over_add(earlier_all, call.arrived(), keep);
        Seq::filter_distributes_over_add(before.events, call.arrived(), keep);
    }
}

/// Over any sequence of polls and reads with any filters, and whatever they come to, no event
/// is lost and none doubled: what the reads handed out and what is queued in the end are
/// together what was queued in the beginning and what came in. The events that no call was
/// waiting for stand in the queue in the order in which they were queued and came in.
pub proof fn law_calls_preserve_input<E>(state: ReaderState, calls: Seq<ReaderCall<E>>)
    requires
        state.skipped.len() == 0,
        calls_complete(state, calls),
    ensures
        ({
            let (after, handed) = calls_end(state, calls);
            let all = state.events + arrived_during(calls);
            &&& after.skipped.len() == 0
            &&& (handed + after.events).to_multiset() == all.to_multiset()
            &&& accepted(unwanted(calls), after.events) == accepted(unwanted(calls), all)
        }),
{
    let keep = unwanted(calls);
    assert forall|i: int, event: InternalEvent|
        0 <= i < calls.len() && #[trigger] calls[i].waits_for(event) implies !keep(event) by {}
    lemma_calls_preserve_input(state, calls, keep);
}

/// Queued events that are accepted are read in the order in which they are queued: as long as
/// there is one, a read hands out the first of them and leaves the others in their order.
pub proof fn law_accepted_events_are_read_in_order<E>(
    state: ReaderState,
    accepts: spec_fn(InternalEvent) -> bool,
)
    ensures
        accepted(accepts, state.events).len() > 0 ==> {
            let (after, step) = state.read_begun::<E>(accepts);
            &&& step matches ReadStep::Done(Ok(event))
            &&& accepted(accepts, state.events) == seq![event] + accepted(accepts, after.events)
        },
{
    reveal(Seq::filter);
    law_first_accepted_is_first(accepts, state.events);
    let at = first_accepted(accepts, state.events);
    let head = state.events.take(at);
    lemma_none_accepted(accepts, head);
    if at < state.events.len() {
        let event = state.events[at];
        let tail = state.events.skip(at + 1);
        assert(state.events =~= head.push(event) + tail);
        assert(state.events.remove(at) =~= head + tail);
        lemma_filter_push(head, event, accepts);
        Seq::filter_distributes_over_add(head.push(event), tail, accepts);
        Seq::filter_distributes_over_add(head, tail, accepts);
        assert(Seq::<InternalEvent>::empty().push(event) =~= seq![event]);
        assert(Seq::<InternalEvent>::empty() + tail.filter(accepts) =~= tail.filter(accepts));
    } else {
        assert(head =~= state.events);
    }
}

/// A wake ends a poll without an event and without an error, even one that has no timeout, and
/// loses nothing: a source whose waker has become ready ends its read with an error, by either
/// kind of readiness, and a poll that gets this reply comes to no event. What was pending and
/// what came in before the wake is all in the queue.
pub proof fn law_wake_ends_a_poll<E>(
    state: ReaderState,
    accepts: spec_fn(InternalEvent) -> bool,
    wait: PollTimeout,
    replies: Seq<(SourceReply<E>, Nanos)>,
    source_wait: PollTimeout,
    ready: Seq<mio::Ready>,
    woken: tty::WakeRequest,
    pipe: Result<usize, Failure<E>>,
    now: Nanos,
)
    requires
        state.poll_run(accepts, wait, replies.drop_last()).1 is TryRead,
        replies.len() > 0,
        replies.last().0 == SourceReply::<E>::Err(Error::WokenUp),
    ensures
        ready.contains(mio::Ready::Wake) ==> mio::polled::<E>(source_wait, Ok(ready), now)
            == mio::Step::<E>::Done(replies.last().0),
        tty::spec_read_complete(woken.filled, tty::PIPE_BUFFER_SIZE, pipe)
            == tty::PipeStep::<E>::Done(Ok(0)) ==> tty::wake_read(woken, pipe)
            == tty::Step::<E>::Done(replies.last().0),
        ({
            let (after, step) = state.poll_run(accepts, wait, replies);
            &&& step == PollStep::<E>::Done(Ok(false))
            &&& after.skipped.len() == 0
            &&& after.events == state.pending() + arrivals(untimed(replies))
        }),
{
    law_poll_preserves_input(state, accepts, wait, replies);
    let after = state.poll_run(accepts, wait, replies).0;
    assert(after.pending() =~= after.events);
}

/// Where no event is accepted, none is left of them.
proof fn lemma_none_accepted(accepts: spec_fn(InternalEvent) -> bool, events: Seq<InternalEvent>)
    requires
        forall|i: int| 0 <= i < events.len() ==> !accepts(#[trigger] events[i]),
    ensures
        accepted(accepts, events) == Seq::<InternalEvent>::empty(),
    decreases events.len(),
{
    reveal(Seq::filter);
    if events.len() > 0 {
        assert(!accepts(events[events.len() - 1]));
        lemma_none_accepted(accepts, events.drop_last());
    }
}

} // verus!
