//! The input of a Unix terminal: its bytes and the changes of its size.

use crate::error::{Error, Failure};
use crate::event::parser::{law_last_byte_of_a_run, Parser, ParserState};
use crate::event::{Event, InternalEvent};
use crate::time::Nanos;
use vstd::prelude::*;

pub mod mio;
pub mod tty;

verus! {

/// How many bytes one read of the terminal asks for. A read that fills the buffer is taken
/// to be followed by more.
pub const TTY_BUFFER_SIZE: usize = 1_024;

/// How the size of the terminal may be asked for.
#[derive(Clone, Copy, Debug, PartialEq, Eq, Structural)]
pub enum ResizeQuery {
    /// Only in a way that cannot take long.
    Bounded,
    /// In any way.
    Unbounded,
}

/// The size of the terminal in columns and rows, or why it could not be had.
pub type WindowSize<E> = Result<(u16, u16), Failure<E>>;

/// What one read of the terminal brought.
pub enum TerminalRead<'a, E> {
    /// The bytes that were read; none at the end of the input.
    Bytes(&'a [u8]),
    /// The read failed.
    Failed(Failure<E>),
}

/// A read that has a timeout may ask for the size only in a bounded way.
pub open spec fn spec_resize_query(timeout: Option<Nanos>) -> ResizeQuery {
    if timeout is Some {
        ResizeQuery::Bounded
    } else {
        ResizeQuery::Unbounded
    }
}

/// How a read with the given timeout asks for the size.
pub fn resize_query(timeout: Option<Nanos>) -> (query: ResizeQuery)
    ensures
        query == spec_resize_query(timeout),
        query == ResizeQuery::Bounded <==> timeout is Some,
{
    if timeout.is_some() {
        ResizeQuery::Bounded
    } else {
        ResizeQuery::Unbounded
    }
}

/// What a source holds.
#[verifier::ext_equal]
pub struct SourceState {
    pub parser: ParserState,
    /// Whether a change of size is still to be reported.
    pub pending_resize: bool,
}

impl SourceState {
    /// The state once the oldest event is taken.
    pub open spec fn taken(self) -> SourceState {
        SourceState {
            parser: ParserState { events: self.parser.events.drop_first(), ..self.parser },
            ..self
        }
    }

    /// The state once all input that was not handed out yet is forgotten.
    pub open spec fn cleared(self) -> SourceState {
        SourceState {
            parser: ParserState {
                buffer: Seq::empty(),
                events: Seq::empty(),
                discarding: None,
                after_esc: false,
                max_osc_len: self.parser.max_osc_len,
            },
            pending_resize: false,
        }
    }

    /// Whether a decoder can bring a source from this state to another by the bytes of one
    /// read.
    pub open spec fn takes_in<X, D: Fn(&[u8], bool) -> Result<Option<InternalEvent>, X>>(
        self,
        bytes: Seq<u8>,
        decode: &D,
        after: SourceState,
    ) -> bool {
        &&& self.parser.advances_to(bytes, bytes.len() == TTY_BUFFER_SIZE, decode, after.parser)
        &&& after.pending_resize == self.pending_resize
    }

    /// The state after the size was asked for, and what to report of it.
    pub open spec fn resized<E>(self, query: ResizeQuery, size: WindowSize<E>) -> (
        SourceState,
        Result<Option<InternalEvent>, Error<E>>,
    ) {
        match size {
            Ok((columns, rows)) => (
                SourceState { pending_resize: false, ..self },
                Ok(Some(InternalEvent::Event(Event::Resize(columns, rows)))),
            ),
            Err(failure) => if query == ResizeQuery::Bounded {
                (SourceState { pending_resize: true, ..self }, Ok(None))
            } else {
                (self, Err(Error::Io(failure)))
            },
        }
    }
}

/// The input of a Unix terminal.
#[derive(Debug)]
pub struct UnixInternalEventSource {
    pub parser: Parser,
    /// Whether a change of size is still to be reported.
    pub pending_resize: bool,
}

impl View for UnixInternalEventSource {
    type V = SourceState;

    open spec fn view(&self) -> SourceState {
        SourceState { parser: self.parser@, pending_resize: self.pending_resize }
    }
}

impl UnixInternalEventSource {
    /// A source that has read nothing yet and gives up an unfinished operating system
    /// command at the given length.
    pub fn new(max_osc_len: usize) -> (source: UnixInternalEventSource)
        ensures
            source@ == (SourceState {
                parser: ParserState {
                    buffer: Seq::empty(),
                    events: Seq::empty(),
                    discarding: None,
                    after_esc: false,
                    max_osc_len: max_osc_len as nat,
                },
                pending_resize: false,
            }),
            source@.parser.well_formed(),
    {
        UnixInternalEventSource { parser: Parser::new(max_osc_len), pending_resize: false }
    }

    /// Takes in the size of the terminal. A size that cannot be had in a bounded way stays to
    /// be reported.
    pub fn read_resize<E>(&mut self, query: ResizeQuery, size: WindowSize<E>) -> (event: Result<
        Option<InternalEvent>,
        Error<E>,
    >)
        ensures
            (final(self)@, event) == old(self)@.resized(query, size),
            size matches Ok((columns, rows)) ==> !final(self).pending_resize && event == Ok::<
                Option<InternalEvent>,
                Error<E>,
            >(Some(InternalEvent::Event(Event::Resize(columns, rows)))),
            size is Err && query == ResizeQuery::Bounded ==> final(self).pending_resize && event
                == Ok::<Option<InternalEvent>, Error<E>>(None),
            size matches Err(failure) ==> (query == ResizeQuery::Unbounded
                ==> final(self).pending_resize == old(self).pending_resize && event == Err::<
                Option<InternalEvent>,
                Error<E>,
            >(Error::Io(failure))),
            final(self).parser == old(self).parser,
    {
        match size {
            Ok((columns, rows)) => {
                self.pending_resize = false;
                Ok(Some(InternalEvent::Event(Event::Resize(columns, rows))))
            },
            Err(failure) => {
                if query == ResizeQuery::Bounded {
                    self.pending_resize = true;
                    Ok(None)
                } else {
                    Err(Error::Io(failure))
                }
            },
        }
    }

    /// Takes in the bytes of one read.
    pub fn advance<X, D: Fn(&[u8], bool) -> Result<Option<InternalEvent>, X>>(
        &mut self,
        bytes: &[u8],
        decode: &D,
    )
        requires
            forall|bytes: &[u8], more: bool| #[trigger] call_requires(decode, (bytes, more)),
        ensures
            old(self)@.parser.well_formed() ==> final(self)@.parser.well_formed(),
            old(self)@.takes_in(bytes@, decode, final(self)@),
            old(self)@.parser.advances_to(
                bytes@,
                bytes@.len() == 1_024,
                decode,
                final(self)@.parser,
            ),
            final(self).pending_resize == old(self).pending_resize,
    {
        self.parser.advance(bytes, bytes.len() == TTY_BUFFER_SIZE, decode);
    }

    /// Forgets all input that was not handed out yet.
    pub fn clear(&mut self)
        ensures
            final(self)@ == old(self)@.cleared(),
            final(self)@.parser.well_formed(),
            final(self)@.parser.buffer.len() == 0,
            final(self)@.parser.events.len() == 0,
            final(self)@.parser.discarding is None,
            !final(self).pending_resize,
    {
        self.parser.clear();
        self.pending_resize = false;
    }
}

/// More bytes are announced for the last byte of a read exactly when the read filled the
/// buffer. Where that byte leaves a sequence that is not an unfinished command, the decoder is
/// asked about this sequence without more to follow after a shorter read, and with more to
/// follow after a full one, and its answer counts.
pub proof fn law_only_a_full_read_announces_more<
    X,
    D: Fn(&[u8], bool) -> Result<Option<InternalEvent>, X>,
>(
    state: SourceState,
    bytes: Seq<u8>,
    decode: &D,
    after: SourceState,
)
    requires
        bytes.len() > 0,
        state.takes_in(bytes, decode, after),
    ensures
        after.pending_resize == state.pending_resize,
        bytes.len() != 1_024 ==> state.parser.advances_to(bytes, false, decode, after.parser),
        bytes.len() == 1_024 ==> state.parser.advances_to(bytes, true, decode, after.parser),
        exists|before: ParserState| #[trigger]
            state.parser.advances_to(bytes.drop_last(), true, decode, before) && {
                let byte = bytes.last();
                let sequence = before.buffer.push(byte);
                let by_esc = sequence.len() >= 2 && sequence[0] == 0x1B && sequence[1] == 0x5D;
                let by_c1 = sequence[0] == 0x9D;
                let ended = byte == 0x07 || by_c1 && byte == 0x9C || sequence.len() >= 2
                    && sequence[sequence.len() - 2] == 0x1B && byte == 0x5C;
                before.discarding is None && (!by_esc && !by_c1 || ended) ==> exists|
                    handed: &[u8],
                    more: bool,
                    answer: Result<Option<InternalEvent>, X>,
                |
                    handed@ == sequence && #[trigger] call_ensures(decode, (handed, more), answer)
                        && {
                        &&& bytes.len() != 1_024 ==> !more
                        &&& bytes.len() == 1_024 ==> more
                        &&& match answer {
                            Ok(Some(event)) => after.parser.buffer.len() == 0
                                && after.parser.events == before.events.push(event),
                            Ok(None) => after.parser.buffer == sequence && after.parser.events
                                == before.events,
                            Err(_) => after.parser.buffer.len() == 0 && after.parser.events
                                == before.events,
                        }
                    }
            },
{
    let full = bytes.len() == 1_024;
    law_last_byte_of_a_run(state.parser, bytes, full, decode, after.parser);
}

/// A size that could be had is reported, whatever it is and however it was asked for, and is
/// not owed any longer. One that could not be had stays owed if it was asked for in a bounded
/// way, and is an error otherwise, which changes nothing. The bytes of the terminal are not
/// touched by any of this.
pub proof fn law_size_is_reported_or_owed<E>(
    state: SourceState,
    query: ResizeQuery,
    columns: u16,
    rows: u16,
    failure: Failure<E>,
)
    ensures
        ({
            let (after, event) = state.resized::<E>(query, Ok((columns, rows)));
            &&& event == Ok::<Option<InternalEvent>, Error<E>>(
                Some(InternalEvent::Event(Event::Resize(columns, rows))),
            )
            &&& !after.pending_resize
            &&& after.parser == state.parser
        }),
        ({
            let (after, event) = state.resized(ResizeQuery::Bounded, Err(failure));
            &&& event == Ok::<Option<InternalEvent>, Error<E>>(None)
            &&& after.pending_resize
            &&& after.parser == state.parser
        }),
        state.resized(ResizeQuery::Unbounded, Err(failure)) == (
            state,
            Err::<Option<InternalEvent>, Error<E>>(Error::Io(failure)),
        ),
{
}

/// Exactly the reads that have a timeout ask for the size in a bounded way.
pub proof fn law_reads_with_a_timeout_ask_in_a_bounded_way(timeout: Option<Nanos>)
    ensures
        timeout is Some <==> spec_resize_query(timeout) == ResizeQuery::Bounded,
        timeout is None <==> spec_resize_query(timeout) == ResizeQuery::Unbounded,
{
}

/// Forgetting the input leaves no byte, no event, no command that is thrown away and no size
/// that is owed. Only the limit for commands stays.
pub proof fn law_nothing_is_left_of_forgotten_input(state: SourceState)
    ensures
        state.cleared().parser.buffer.len() == 0,
        state.cleared().parser.events.len() == 0,
        state.cleared().parser.discarding is None,
        !state.cleared().parser.after_esc,
        !state.cleared().pending_resize,
        state.cleared().parser.max_osc_len == state.parser.max_osc_len,
{
}

/// The oldest event is taken and nothing else: the others wait on in their order, and bytes
/// and size are as they were.
pub proof fn law_taking_an_event_takes_the_oldest(state: SourceState)
    requires
        state.parser.events.len() > 0,
    ensures
        seq![state.parser.events[0]] + state.taken().parser.events == state.parser.events,
        state.taken().parser.buffer == state.parser.buffer,
        state.taken().parser.discarding == state.parser.discarding,
        state.taken().parser.after_esc == state.parser.after_esc,
        state.taken().parser.max_osc_len == state.parser.max_osc_len,
        state.taken().pending_resize == state.pending_resize,
{
    assert(seq![state.parser.events[0]] + state.taken().parser.events =~= state.parser.events);
}

/// The view of a source is what it holds.
pub proof fn law_source_is_seen_as_it_is(source: UnixInternalEventSource)
    ensures
        source@.parser == source.parser@,
        source@.pending_resize == source.pending_resize,
{
}

} // verus!
