//! Cuts the bytes of a terminal into sequences and collects the events they stand for.

use crate::event::osc::{
    ends_osc, law_beginnings_of_commands, law_ends_of_commands, osc_ended_by, osc_kind,
    osc_terminated, spec_osc_kind, spec_osc_terminated, OscKind, ESC,
};
use crate::event::InternalEvent;
use std::collections::VecDeque;
use vstd::prelude::*;

verus! {

/// What a parser holds.
#[verifier::ext_equal]
pub struct ParserState {
    /// The bytes of the sequence that is not complete yet.
    pub buffer: Seq<u8>,
    /// The events that wait to be taken, oldest first.
    pub events: Seq<InternalEvent>,
    /// The kind of the oversized command whose rest is being thrown away.
    pub discarding: Option<OscKind>,
    /// Whether the last byte thrown away was an escape.
    pub after_esc: bool,
    /// The length at which an unfinished command is given up.
    pub max_osc_len: nat,
}

impl ParserState {
    /// What holds of every parser: nothing is kept of a command that is thrown away,
    /// and an unfinished command is shorter than the limit.
    pub open spec fn well_formed(self) -> bool {
        &&& self.discarding is Some ==> self.buffer.len() == 0
        &&& self.discarding is None ==> !self.after_esc
        &&& match spec_osc_kind(self.buffer) {
            Some(kind) => spec_osc_terminated(self.buffer, kind) || self.buffer.len()
                < self.max_osc_len,
            None => true,
        }
    }

    /// Whether the next byte leaves a sequence that has to be decoded. A command is
    /// decoded only once it has ended.
    pub open spec fn decodes_after(self, byte: u8) -> bool {
        let buffer = self.buffer.push(byte);
        self.discarding is None && match spec_osc_kind(buffer) {
            Some(kind) => spec_osc_terminated(buffer, kind),
            None => true,
        }
    }

    /// The state after one byte. What the sequence decodes to counts only where it has
    /// to be decoded.
    pub open spec fn after_byte<X>(
        self,
        byte: u8,
        decoded: Result<Option<InternalEvent>, X>,
    ) -> ParserState {
        let buffer = self.buffer.push(byte);
        if let Some(kind) = self.discarding {
            if ends_osc(kind, self.after_esc, byte) {
                ParserState { discarding: None, after_esc: false, ..self }
            } else {
                ParserState { after_esc: byte == ESC, ..self }
            }
        } else if self.decodes_after(byte) {
            match decoded {
                Ok(Some(event)) => ParserState {
                    buffer: Seq::empty(),
                    events: self.events.push(event),
                    ..self
                },
                Ok(None) => ParserState { buffer, ..self },
                Err(_) => ParserState { buffer: Seq::empty(), ..self },
            }
        } else if buffer.len() >= self.max_osc_len {
            ParserState {
                buffer: Seq::empty(),
                discarding: spec_osc_kind(buffer),
                after_esc: byte == ESC,
                ..self
            }
        } else {
            ParserState { buffer, ..self }
        }
    }

    /// The state after a run of bytes, with what the sequence decodes to after each.
    pub open spec fn after_bytes<X>(
        self,
        bytes: Seq<u8>,
        decoded: Seq<Result<Option<InternalEvent>, X>>,
    ) -> ParserState
        decreases bytes.len(),
    {
        if bytes.len() == 0 {
            self
        } else {
            self.after_bytes(bytes.drop_last(), decoded.drop_last()).after_byte(
                bytes.last(),
                decoded.last(),
            )
        }
    }

    /// Whether an answer in `decoded` is one that a decoder can give while a run of bytes
    /// goes by: if a sequence has to be decoded there, the decoder answers for that sequence,
    /// told whether more bytes follow.
    pub open spec fn answered_at<X, D: Fn(&[u8], bool) -> Result<Option<InternalEvent>, X>>(
        self,
        bytes: Seq<u8>,
        more: bool,
        decode: &D,
        decoded: Seq<Result<Option<InternalEvent>, X>>,
        at: int,
    ) -> bool {
        let before = self.after_bytes(bytes.take(at), decoded.take(at));
        before.decodes_after(bytes[at]) ==> answers(
            decode,
            before.buffer.push(bytes[at]),
            at + 1 < bytes.len() || more,
            decoded[at],
        )
    }

    /// Whether `decoded` is what a decoder can answer while a run of bytes goes by.
    pub open spec fn decodes_to<X, D: Fn(&[u8], bool) -> Result<Option<InternalEvent>, X>>(
        self,
        bytes: Seq<u8>,
        more: bool,
        decode: &D,
        decoded: Seq<Result<Option<InternalEvent>, X>>,
    ) -> bool {
        &&& decoded.len() == bytes.len()
        &&& forall|i: int|
            0 <= i < bytes.len() ==> #[trigger] self.answered_at(bytes, more, decode, decoded, i)
    }

    /// Whether a decoder can bring a parser from this state to another by a run of bytes.
    pub open spec fn advances_to<X, D: Fn(&[u8], bool) -> Result<Option<InternalEvent>, X>>(
        self,
        bytes: Seq<u8>,
        more: bool,
        decode: &D,
        after: ParserState,
    ) -> bool {
        exists|decoded: Seq<Result<Option<InternalEvent>, X>>| #[trigger]
            self.decodes_to(bytes, more, decode, decoded) && after == self.after_bytes(
                bytes,
                decoded,
            )
    }
}

/// Whether a decoder can give this answer for a sequence.
pub open spec fn answers<X, D: Fn(&[u8], bool) -> Result<Option<InternalEvent>, X>>(
    decode: &D,
    sequence: Seq<u8>,
    more: bool,
    answer: Result<Option<InternalEvent>, X>,
) -> bool {
    exists|bytes: &[u8]| bytes@ == sequence && #[trigger] call_ensures(decode, (bytes, more), answer)
}

/// Collects the events that the bytes of a terminal stand for.
#[derive(Debug)]
pub struct Parser {
    /// The bytes of the sequence that is not complete yet.
    pub buffer: Vec<u8>,
    /// The events that wait to be taken, oldest first.
    pub internal_events: VecDeque<InternalEvent>,
    /// The kind of the oversized command whose rest is being thrown away.
    pub discarding_osc: Option<OscKind>,
    /// Whether the last byte thrown away was an escape.
    pub discarding_osc_esc: bool,
    /// The length at which an unfinished command is given up.
    pub max_osc_len: usize,
}

impl View for Parser {
    type V = ParserState;

    open spec fn view(&self) -> ParserState {
        ParserState {
            buffer: self.buffer@,
            events: self.internal_events@,
            discarding: self.discarding_osc,
            after_esc: self.discarding_osc_esc,
            max_osc_len: self.max_osc_len as nat,
        }
    }
}

impl Parser {
    /// An empty parser that gives up an unfinished command at the given length.
    pub fn new(max_osc_len: usize) -> (parser: Parser)
        ensures
            parser@ == (ParserState {
                buffer: Seq::empty(),
                events: Seq::empty(),
                discarding: None,
                after_esc: false,
                max_osc_len: max_osc_len as nat,
            }),
            parser@.well_formed(),
    {
        Parser {
            buffer: Vec::with_capacity(256),
            internal_events: VecDeque::with_capacity(128),
            discarding_osc: None,
            discarding_osc_esc: false,
            max_osc_len,
        }
    }

    /// Takes in bytes. `more` tells whether further bytes are known to follow them, and
    /// `decode` gives the event of a sequence, nothing for one that is not complete, or an
    /// error for one that can never become an event.
    pub fn advance<X, D: Fn(&[u8], bool) -> Result<Option<InternalEvent>, X>>(
        &mut self,
        buffer: &[u8],
        more: bool,
        decode: &D,
    )
        requires
            forall|bytes: &[u8], more: bool| #[trigger] call_requires(decode, (bytes, more)),
        ensures
            old(self)@.well_formed() ==> final(self)@.well_formed(),
            old(self)@.advances_to(buffer@, more, decode, final(self)@),
    {
        let ghost start = self@;
        let ghost mut decoded = Seq::<Result<Option<InternalEvent>, X>>::empty();
        let mut idx: usize = 0;
        assert(start == start.after_bytes(buffer@.take(0), decoded));
        while idx < buffer.len()
            invariant
                idx <= buffer@.len(),
                start.well_formed() ==> self@.well_formed(),
                forall|bytes: &[u8], more: bool| #[trigger] call_requires(decode, (bytes, more)),
                decoded.len() == idx,
                self@ == start.after_bytes(buffer@.take(idx as int), decoded),
                forall|i: int|
                    0 <= i < idx ==> #[trigger] start.answered_at(
                        buffer@,
                        more,
                        decode,
                        decoded,
                        i,
                    ),
            decreases buffer@.len() - idx,
        {
            let byte: u8 = buffer[idx];
            let more_follow = idx + 1 < buffer.len() || more;
            let ghost before = self@;
            let ghost earlier = decoded;
            let ghost mut answer: Result<Option<InternalEvent>, X> = Ok(None);

            if let Some(kind) = self.discarding_osc {
                let terminated = osc_ended_by(kind, self.discarding_osc_esc, byte);
                self.discarding_osc_esc = byte == ESC;
                if terminated {
                    self.discarding_osc = None;
                    self.discarding_osc_esc = false;
                }
            } else {
                self.buffer.push(byte);
                let kind = osc_kind(self.buffer.as_slice());
                let unfinished = match kind {
                    Some(kind) => !osc_terminated(self.buffer.as_slice(), kind),
                    None => false,
                };
                if unfinished {
                    if self.buffer.len() >= self.max_osc_len {
                        self.discarding_osc = kind;
                        self.discarding_osc_esc = byte == ESC;
                        self.buffer.clear();
                    }
                } else {
                    let result = decode(self.buffer.as_slice(), more_follow);
                    proof {
                        answer = result;
                    }
                    match result {
                        Ok(Some(event)) => {
                            self.internal_events.push_back(event);
                            self.buffer.clear();
                        },
                        Ok(None) => {
                            // The sequence needs more bytes.
                        },
                        Err(_) => {
                            self.buffer.clear();
                        },
                    }
                }
            }
            proof {
                decoded = decoded.push(answer);
                assert(buffer@.take(idx + 1).drop_last() =~= buffer@.take(idx as int));
                assert(decoded.drop_last() =~= earlier);
                assert(self@ == before.after_byte(byte, answer));
                assert forall|i: int| 0 <= i < idx + 1 implies #[trigger] start.answered_at(
                    buffer@,
                    more,
                    decode,
                    decoded,
                    i,
                ) by {
                    if i < idx {
                        assert(start.answered_at(buffer@, more, decode, earlier, i));
                        assert(decoded.take(i) =~= earlier.take(i));
                    } else {
                        assert(decoded.take(i) =~= earlier);
                    }
                }
            }
            idx += 1;
        }
        proof {
            assert(buffer@.take(buffer@.len() as int) =~= buffer@);
            assert(start.decodes_to(buffer@, more, decode, decoded));
        }
    }

    /// Takes the oldest event.
    pub fn next(&mut self) -> (event: Option<InternalEvent>)
        ensures
            match event {
                Some(event) => {
                    &&& old(self)@.events.len() > 0
                    &&& event == old(self)@.events[0]
                    &&& final(self)@ == (ParserState {
                        events: old(self)@.events.drop_first(),
                        ..old(self)@
                    })
                },
                None => old(self)@.events.len() == 0 && final(self)@ == old(self)@,
            },
    {
        self.internal_events.pop_front()
    }

    /// Forgets all bytes and events.
    pub fn clear(&mut self)
        ensures
            final(self)@ == (ParserState {
                buffer: Seq::empty(),
                events: Seq::empty(),
                discarding: None,
                after_esc: false,
                max_osc_len: old(self)@.max_osc_len,
            }),
            final(self)@.well_formed(),
    {
        self.buffer.clear();
        self.internal_events.clear();
        self.discarding_osc = None;
        self.discarding_osc_esc = false;
    }
}

/// The state after two runs of bytes is the state after both at once.
proof fn lemma_runs_join<X>(
    state: ParserState,
    first: Seq<u8>,
    second: Seq<u8>,
    decoded_first: Seq<Result<Option<InternalEvent>, X>>,
    decoded_second: Seq<Result<Option<InternalEvent>, X>>,
)
    requires
        first.len() == decoded_first.len(),
        second.len() == decoded_second.len(),
    ensures
        state.after_bytes(first + second, decoded_first + decoded_second) == state.after_bytes(
            first,
            decoded_first,
        ).after_bytes(second, decoded_second),
    decreases second.len(),
{
    if second.len() == 0 {
        assert(first + second =~= first);
        assert(decoded_first + decoded_second =~= decoded_first);
    } else {
        lemma_runs_join(
            state,
            first,
            second.drop_last(),
            decoded_first,
            decoded_second.drop_last(),
        );
        assert((first + second).drop_last() =~= first + second.drop_last());
        assert((decoded_first + decoded_second).drop_last() =~= decoded_first
            + decoded_second.drop_last());
    }
}

/// The answers of a decoder for a run of bytes, cut in two, are answers for the two parts.
proof fn lemma_answers_cut<X, D: Fn(&[u8], bool) -> Result<Option<InternalEvent>, X>>(
    state: ParserState,
    first: Seq<u8>,
    second: Seq<u8>,
    more: bool,
    decode: &D,
    decoded: Seq<Result<Option<InternalEvent>, X>>,
)
    requires
        second.len() > 0 || more,
        state.decodes_to(first + second, more, decode, decoded),
    ensures
        ({
            let (head, tail) = (decoded.take(first.len() as int), decoded.skip(first.len() as int));
            let between = state.after_bytes(first, head);
            &&& state.decodes_to(first, true, decode, head)
            &&& between.decodes_to(second, more, decode, tail)
            &&& state.after_bytes(first + second, decoded) == between.after_bytes(second, tail)
        }),
{
    let whole = first + second;
    let n = first.len() as int;
    let (head, tail) = (decoded.take(n), decoded.skip(n));
    let between = state.after_bytes(first, head);
    assert(decoded =~= head + tail);
    lemma_runs_join(state, first, second, head, tail);
    assert forall|i: int| 0 <= i < first.len() implies #[trigger] state.answered_at(
        first,
        true,
        decode,
        head,
        i,
    ) by {
        assert(state.answered_at(whole, more, decode, decoded, i));
        assert(whole.take(i) =~= first.take(i));
        assert(decoded.take(i) =~= head.take(i));
    }
    assert forall|i: int| 0 <= i < second.len() implies #[trigger] between.answered_at(
        second,
        more,
        decode,
        tail,
        i,
    ) by {
        assert(state.answered_at(whole, more, decode, decoded, n + i));
        lemma_runs_join(state, first, second.take(i), head, tail.take(i));
        assert(whole.take(n + i) =~= first + second.take(i));
        assert(decoded.take(n + i) =~= head + tail.take(i));
    }
}

/// The answers of a decoder for two runs of bytes, joined, are answers for both at once.
proof fn lemma_answers_join<X, D: Fn(&[u8], bool) -> Result<Option<InternalEvent>, X>>(
    state: ParserState,
    first: Seq<u8>,
    second: Seq<u8>,
    more: bool,
    decode: &D,
    head: Seq<Result<Option<InternalEvent>, X>>,
    tail: Seq<Result<Option<InternalEvent>, X>>,
)
    requires
        second.len() > 0 || more,
        state.decodes_to(first, true, decode, head),
        state.after_bytes(first, head).decodes_to(second, more, decode, tail),
    ensures
        state.decodes_to(first + second, more, decode, head + tail),
        state.after_bytes(first + second, head + tail) == state.after_bytes(
            first,
            head,
        ).after_bytes(second, tail),
{
    let whole = first + second;
    let n = first.len() as int;
    let decoded = head + tail;
    lemma_runs_join(state, first, second, head, tail);
    let between = state.after_bytes(first, head);
    assert forall|i: int| 0 <= i < whole.len() implies #[trigger] state.answered_at(
        whole,
        more,
        decode,
        decoded,
        i,
    ) by {
        if i < n {
            assert(state.answered_at(first, true, decode, head, i));
            assert(whole.take(i) =~= first.take(i));
            assert(decoded.take(i) =~= head.take(i));
        } else {
            assert(between.answered_at(second, more, decode, tail, i - n));
            lemma_runs_join(state, first, second.take(i - n), head, tail.take(i - n));
            assert(whole.take(i) =~= first + second.take(i - n));
            assert(decoded.take(i) =~= head + tail.take(i - n));
        }
    }
}

/// It makes no difference how the bytes of a terminal are cut into reads: as long as the
/// first read is known to be followed by more, and is, two reads lead exactly where one read
/// of all their bytes can lead.
pub proof fn law_cut_between_reads_is_invisible<
    X,
    D: Fn(&[u8], bool) -> Result<Option<InternalEvent>, X>,
>(
    state: ParserState,
    first: Seq<u8>,
    second: Seq<u8>,
    more: bool,
    decode: &D,
    after: ParserState,
)
    requires
        second.len() > 0 || more,
    ensures
        state.advances_to(first + second, more, decode, after) <==> exists|between: ParserState| #[trigger]
            state.advances_to(first, true, decode, between) && between.advances_to(
                second,
                more,
                decode,
                after,
            ),
{
    let whole = first + second;
    if state.advances_to(whole, more, decode, after) {
        let decoded = choose|decoded: Seq<Result<Option<InternalEvent>, X>>| #[trigger]
            state.decodes_to(whole, more, decode, decoded) && after == state.after_bytes(
                whole,
                decoded,
            );
        lemma_answers_cut(state, first, second, more, decode, decoded);
        let between = state.after_bytes(first, decoded.take(first.len() as int));
        assert(state.advances_to(first, true, decode, between));
        assert(between.advances_to(second, more, decode, after));
    }
    if exists|between: ParserState| #[trigger]
        state.advances_to(first, true, decode, between) && between.advances_to(
            second,
            more,
            decode,
            after,
        ) {
        let between = choose|between: ParserState| #[trigger]
            state.advances_to(first, true, decode, between) && between.advances_to(
                second,
                more,
                decode,
                after,
            );
        let head = choose|decoded: Seq<Result<Option<InternalEvent>, X>>| #[trigger]
            state.decodes_to(first, true, decode, decoded) && between == state.after_bytes(
                first,
                decoded,
            );
        let tail = choose|decoded: Seq<Result<Option<InternalEvent>, X>>| #[trigger]
            between.decodes_to(second, more, decode, decoded) && after == between.after_bytes(
                second,
                decoded,
            );
        lemma_answers_join(state, first, second, more, decode, head, tail);
        assert(state.advances_to(whole, more, decode, after));
    }
}

/// Whether a decoder is a function: it gives one answer for each sequence, with and without
/// more bytes to follow.
pub open spec fn is_function<X, D: Fn(&[u8], bool) -> Result<Option<InternalEvent>, X>>(
    decode: &D,
) -> bool {
    forall|
        first: &[u8],
        second: &[u8],
        more: bool,
        answer: Result<Option<InternalEvent>, X>,
        other: Result<Option<InternalEvent>, X>,
    |
        first@ == second@ && #[trigger] call_ensures(decode, (first, more), answer)
            && #[trigger] call_ensures(decode, (second, more), other) ==> answer == other
}

/// With a decoder that is a function, the first bytes of a run lead to one state.
proof fn lemma_one_state_at<X, D: Fn(&[u8], bool) -> Result<Option<InternalEvent>, X>>(
    state: ParserState,
    bytes: Seq<u8>,
    more: bool,
    decode: &D,
    decoded: Seq<Result<Option<InternalEvent>, X>>,
    other: Seq<Result<Option<InternalEvent>, X>>,
    at: int,
)
    requires
        is_function(decode),
        state.decodes_to(bytes, more, decode, decoded),
        state.decodes_to(bytes, more, decode, other),
        0 <= at <= bytes.len(),
    ensures
        state.after_bytes(bytes.take(at), decoded.take(at)) == state.after_bytes(
            bytes.take(at),
            other.take(at),
        ),
    decreases at,
{
    if at > 0 {
        let last = at - 1;
        lemma_one_state_at(state, bytes, more, decode, decoded, other, last);
        assert(state.answered_at(bytes, more, decode, decoded, last));
        assert(state.answered_at(bytes, more, decode, other, last));
        assert(bytes.take(at).drop_last() =~= bytes.take(last));
        assert(decoded.take(at).drop_last() =~= decoded.take(last));
        assert(other.take(at).drop_last() =~= other.take(last));
    }
}

/// With a decoder that is a function, bytes lead to one state, and it makes no difference how
/// they are cut into reads: one read of all bytes, and two reads of which the first is known
/// to be followed by more and is, lead to the same state. No bytes lead nowhere.
pub proof fn law_decoder_function_leads_to_one_state<
    X,
    D: Fn(&[u8], bool) -> Result<Option<InternalEvent>, X>,
>(
    state: ParserState,
    first: Seq<u8>,
    second: Seq<u8>,
    more: bool,
    decode: &D,
    whole: ParserState,
    between: ParserState,
    cut: ParserState,
)
    requires
        is_function(decode),
        state.advances_to(first + second, more, decode, whole),
    ensures
        state.advances_to(first + second, more, decode, cut) ==> cut == whole,
        second.len() > 0 || more ==> (state.advances_to(first, true, decode, between)
            && between.advances_to(second, more, decode, cut) ==> cut == whole),
        first.len() == 0 && second.len() == 0 ==> whole == state,
{
    let bytes = first + second;
    if second.len() > 0 || more {
        law_cut_between_reads_is_invisible(state, first, second, more, decode, cut);
    }
    if state.advances_to(bytes, more, decode, cut) {
        let decoded = choose|decoded: Seq<Result<Option<InternalEvent>, X>>| #[trigger]
            state.decodes_to(bytes, more, decode, decoded) && whole == state.after_bytes(
                bytes,
                decoded,
            );
        let other = choose|decoded: Seq<Result<Option<InternalEvent>, X>>| #[trigger]
            state.decodes_to(bytes, more, decode, decoded) && cut == state.after_bytes(
                bytes,
                decoded,
            );
        let n = bytes.len() as int;
        lemma_one_state_at(state, bytes, more, decode, decoded, other, n);
        assert(bytes.take(n) =~= bytes);
        assert(decoded.take(n) =~= decoded);
        assert(other.take(n) =~= other);
    }
}

/// Taking in bytes never drops or reorders an event that waits to be taken.
pub proof fn law_waiting_events_stay<X>(
    state: ParserState,
    bytes: Seq<u8>,
    decoded: Seq<Result<Option<InternalEvent>, X>>,
)
    requires
        bytes.len() == decoded.len(),
    ensures
        state.events.is_prefix_of(state.after_bytes(bytes, decoded).events),
    decreases bytes.len(),
{
    if bytes.len() > 0 {
        law_waiting_events_stay(state, bytes.drop_last(), decoded.drop_last());
    }
}

/// Whatever the bytes and whatever they decode to, a parser stays well formed: of an
/// unfinished command it never holds as much as the limit, and of one that it throws away
/// it holds nothing.
pub proof fn law_unfinished_command_is_bounded<X>(
    state: ParserState,
    bytes: Seq<u8>,
    decoded: Seq<Result<Option<InternalEvent>, X>>,
)
    requires
        state.well_formed(),
        bytes.len() == decoded.len(),
    ensures
        state.after_bytes(bytes, decoded).well_formed(),
        state.after_bytes(bytes, decoded).max_osc_len == state.max_osc_len,
    decreases bytes.len(),
{
    if bytes.len() > 0 {
        law_unfinished_command_is_bounded(state, bytes.drop_last(), decoded.drop_last());
    }
}

/// No byte of a command that is thrown away reaches the user: up to its end neither the
/// events nor the buffer change, and after its end the next byte begins a new sequence.
pub proof fn law_discarded_command_leaks_nothing<X>(
    state: ParserState,
    kind: OscKind,
    bytes: Seq<u8>,
    decoded: Seq<Result<Option<InternalEvent>, X>>,
)
    requires
        state.discarding == Some(kind),
        bytes.len() > 0,
        bytes.len() == decoded.len(),
        forall|i: int|
            #![trigger bytes[i]]
            0 <= i < bytes.len() - 1 ==> !ends_osc(
                kind,
                if i == 0 {
                    state.after_esc
                } else {
                    bytes[i - 1] == ESC
                },
                bytes[i],
            ),
    ensures
        ({
            let ended = ends_osc(
                kind,
                if bytes.len() == 1 {
                    state.after_esc
                } else {
                    bytes[bytes.len() - 2] == ESC
                },
                bytes.last(),
            );
            state.after_bytes(bytes, decoded) == ParserState {
                discarding: if ended {
                    None
                } else {
                    Some(kind)
                },
                after_esc: !ended && bytes.last() == ESC,
                ..state
            }
        }),
    decreases bytes.len(),
{
    let before = bytes.drop_last();
    let earlier = decoded.drop_last();
    if before.len() > 0 {
        assert forall|i: int| #![trigger before[i]] 0 <= i < before.len() - 1 implies !ends_osc(
            kind,
            if i == 0 {
                state.after_esc
            } else {
                before[i - 1] == ESC
            },
            before[i],
        ) by {
            assert(before[i] == bytes[i]);
        }
        law_discarded_command_leaks_nothing(state, kind, before, earlier);
        assert(bytes[bytes.len() - 2] == before.last());
    } else {
        assert(state.after_bytes(before, earlier) == state);
    }
}

/// What the last byte of a run does: the bytes before it are taken in with more to follow, and
/// it is added to the sequence that they left. A sequence that is not an unfinished command is
/// handed to the decoder, told exactly what is known of bytes to follow; an event that the
/// decoder answers with joins the waiting ones at the end and begins a new sequence, an error
/// begins a new sequence, and nothing keeps the sequence. An unfinished command is kept while
/// it is shorter than the limit and thrown away when it reaches it. Of a command that is
/// thrown away nothing is kept up to its end. Without bytes nothing changes.
pub proof fn law_last_byte_of_a_run<X, D: Fn(&[u8], bool) -> Result<Option<InternalEvent>, X>>(
    state: ParserState,
    bytes: Seq<u8>,
    more: bool,
    decode: &D,
    after: ParserState,
)
    requires
        state.advances_to(bytes, more, decode, after),
    ensures
        bytes.len() == 0 ==> after == state,
        bytes.len() > 0 ==> exists|before: ParserState| #[trigger]
            state.advances_to(bytes.drop_last(), true, decode, before) && {
                let byte = bytes.last();
                let sequence = before.buffer.push(byte);
                let by_esc = sequence.len() >= 2 && sequence[0] == 0x1B && sequence[1] == 0x5D;
                let by_c1 = sequence[0] == 0x9D;
                let ended = byte == 0x07 || by_c1 && byte == 0x9C || sequence.len() >= 2
                    && sequence[sequence.len() - 2] == 0x1B && byte == 0x5C;
                if before.discarding is Some {
                    let over = byte == 0x07 || before.discarding == Some(OscKind::C1) && byte
                        == 0x9C || before.after_esc && byte == 0x5C;
                    &&& after.buffer == before.buffer
                    &&& after.events == before.events
                    &&& after.max_osc_len == before.max_osc_len
                    &&& over ==> after.discarding is None && !after.after_esc
                    &&& !over ==> after.discarding == before.discarding && after.after_esc == (byte
                        == 0x1B)
                } else if (by_esc || by_c1) && !ended {
                    &&& after.events == before.events
                    &&& after.max_osc_len == before.max_osc_len
                    &&& sequence.len() < before.max_osc_len ==> after.buffer == sequence
                        && after.discarding is None && after.after_esc == before.after_esc
                    &&& sequence.len() >= before.max_osc_len ==> {
                        &&& after.buffer.len() == 0
                        &&& after.discarding == Some(
                            if by_esc {
                                OscKind::Esc
                            } else {
                                OscKind::C1
                            },
                        )
                        &&& after.after_esc == (byte == 0x1B)
                    }
                } else {
                    exists|handed: &[u8], answer: Result<Option<InternalEvent>, X>|
                        handed@ == sequence && #[trigger] call_ensures(
                            decode,
                            (handed, more),
                            answer,
                        ) && {
                            &&& after.discarding is None
                            &&& after.after_esc == before.after_esc
                            &&& after.max_osc_len == before.max_osc_len
                            &&& match answer {
                                Ok(Some(event)) => after.buffer.len() == 0 && after.events
                                    == before.events.push(event),
                                Ok(None) => after.buffer == sequence && after.events
                                    == before.events,
                                Err(_) => after.buffer.len() == 0 && after.events == before.events,
                            }
                        }
                }
            },
{
    if bytes.len() > 0 {
        let decoded = choose|decoded: Seq<Result<Option<InternalEvent>, X>>| #[trigger]
            state.decodes_to(bytes, more, decode, decoded) && after == state.after_bytes(
                bytes,
                decoded,
            );
        let (first, byte) = (bytes.drop_last(), bytes.last());
        let n = first.len() as int;
        assert(first + seq![byte] =~= bytes);
        lemma_answers_cut(state, first, seq![byte], more, decode, decoded);
        let before = state.after_bytes(first, decoded.take(n));
        assert(state.advances_to(first, true, decode, before));
        assert(state.answered_at(bytes, more, decode, decoded, n));
        assert(bytes.take(n) =~= first);
        assert(decoded.take(n) =~= decoded.drop_last());
        law_beginnings_of_commands(before.buffer.push(byte));
        law_ends_of_commands(before.buffer.push(byte), OscKind::Esc, before.after_esc, byte);
        law_ends_of_commands(before.buffer.push(byte), OscKind::C1, before.after_esc, byte);
    }
}

/// The events of the answers at those bytes of a run where a sequence has to be decoded, in
/// their order: where no command is thrown away, and the sequence is no command or one that
/// has ended.
pub open spec fn answered_events<X>(
    state: ParserState,
    bytes: Seq<u8>,
    decoded: Seq<Result<Option<InternalEvent>, X>>,
) -> Seq<InternalEvent>
    decreases bytes.len(),
{
    if bytes.len() == 0 {
        Seq::empty()
    } else {
        let earlier = answered_events(state, bytes.drop_last(), decoded.drop_last());
        let before = state.after_bytes(bytes.drop_last(), decoded.drop_last());
        let sequence = before.buffer.push(bytes.last());
        let decodes = before.discarding is None && match spec_osc_kind(sequence) {
            Some(kind) => spec_osc_terminated(sequence, kind),
            None => true,
        };
        match decoded.last() {
            Ok(Some(event)) if decodes => earlier.push(event),
            _ => earlier,
        }
    }
}

/// No decoded event is left out: after a run of bytes the waiting events are those from before
/// and behind them the events of all answers at bytes where a sequence had to be decoded, in
/// their order, however many they are.
pub proof fn law_every_decoded_event_waits<X>(
    state: ParserState,
    bytes: Seq<u8>,
    decoded: Seq<Result<Option<InternalEvent>, X>>,
)
    requires
        bytes.len() == decoded.len(),
    ensures
        state.after_bytes(bytes, decoded).events == state.events + answered_events(
            state,
            bytes,
            decoded,
        ),
    decreases bytes.len(),
{
    if bytes.len() == 0 {
        assert(state.events + Seq::<InternalEvent>::empty() =~= state.events);
    } else {
        law_every_decoded_event_waits(state, bytes.drop_last(), decoded.drop_last());
        let earlier = answered_events(state, bytes.drop_last(), decoded.drop_last());
        if let Ok(Some(event)) = decoded.last() {
            assert(state.events + earlier.push(event) =~= (state.events + earlier).push(event));
        }
    }
}

/// Bytes that each stand for an event become one event each, as many as there are: text that
/// is typed or pasted as it is comes out whole.
pub proof fn law_bytes_for_themselves_become_one_event_each<X>(
    state: ParserState,
    bytes: Seq<u8>,
    decoded: Seq<Result<Option<InternalEvent>, X>>,
)
    requires
        state.buffer.len() == 0,
        state.discarding is None,
        bytes.len() == decoded.len(),
        forall|i: int| 0 <= i < bytes.len() ==> (#[trigger] bytes[i]) != 0x9D,
        forall|i: int|
            0 <= i < decoded.len() ==> (#[trigger] decoded[i]) is Ok && decoded[i]->Ok_0 is Some,
    ensures
        ({
            let after = state.after_bytes(bytes, decoded);
            &&& after.buffer.len() == 0
            &&& after.discarding is None
            &&& after.events.len() == state.events.len() + bytes.len()
            &&& state.events.is_prefix_of(after.events)
            &&& forall|i: int|
                0 <= i < bytes.len() ==> decoded[i] == Ok::<Option<InternalEvent>, X>(
                    Some(#[trigger] after.events[state.events.len() + i]),
                )
        }),
    decreases bytes.len(),
{
    if bytes.len() > 0 {
        let (first, earlier) = (bytes.drop_last(), decoded.drop_last());
        assert forall|i: int| 0 <= i < first.len() implies (#[trigger] first[i]) != 0x9D by {
            assert(first[i] == bytes[i]);
        }
        assert forall|i: int| 0 <= i < earlier.len() implies (#[trigger] earlier[i]) is Ok
            && earlier[i]->Ok_0 is Some by {
            assert(earlier[i] == decoded[i]);
        }
        law_bytes_for_themselves_become_one_event_each(state, first, earlier);
        let before = state.after_bytes(first, earlier);
        let last = bytes.len() - 1;
        assert(bytes[last] != 0x9D);
        assert(decoded[last] is Ok && decoded[last]->Ok_0 is Some);
        law_beginnings_of_commands(before.buffer.push(bytes[last]));
        let after = state.after_bytes(bytes, decoded);
        assert forall|i: int| 0 <= i < bytes.len() implies decoded[i] == Ok::<
            Option<InternalEvent>,
            X,
        >(Some(#[trigger] after.events[state.events.len() + i])) by {
            if i < last {
                assert(earlier[i] == decoded[i]);
                assert(before.events[state.events.len() + i] == after.events[state.events.len()
                    + i]);
            }
        }
    }
}

/// The view of a parser is what it holds.
pub proof fn law_parser_is_seen_as_it_is(parser: Parser)
    ensures
        parser@.buffer == parser.buffer@,
        parser@.events == parser.internal_events@,
        parser@.discarding == parser.discarding_osc,
        parser@.after_esc == parser.discarding_osc_esc,
        parser@.max_osc_len == parser.max_osc_len,
{
}

/// A parser is well formed exactly when it keeps nothing of a command that it throws away,
/// remembers an escape only while it does so, and keeps of a command that has not ended less
/// than the limit: of one begun with the bytes 1B 5D or with the byte 9D, which has no end yet
/// by the byte 07, by the bytes 1B 5C or, after 9D, by the byte 9C.
pub proof fn law_well_formed_parser_keeps_little(state: ParserState)
    ensures
        state.well_formed() <==> {
            let kept = state.buffer;
            let by_esc = kept.len() >= 2 && kept[0] == 0x1B && kept[1] == 0x5D;
            let by_c1 = kept.len() >= 1 && kept[0] == 0x9D;
            let ended = kept.len() >= 1 && (kept.last() == 0x07 || by_c1 && kept.last() == 0x9C
                || kept.len() >= 2 && kept[kept.len() - 2] == 0x1B && kept.last() == 0x5C);
            &&& state.discarding is Some ==> kept.len() == 0
            &&& state.discarding is None ==> !state.after_esc
            &&& (by_esc || by_c1) && !ended ==> kept.len() < state.max_osc_len
        },
{
    law_beginnings_of_commands(state.buffer);
    law_ends_of_commands(state.buffer, OscKind::Esc, false, 0x07);
    law_ends_of_commands(state.buffer, OscKind::C1, false, 0x07);
}

} // verus!
