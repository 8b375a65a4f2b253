//! Turning the bytes of one piped stream into line events.

use crate::event::{ProcessEvent, ProcessEventView, StreamKind};
use crate::text::string_from_utf8;
use vstd::prelude::*;
use vstd::utf8::{decode_utf8, encode_utf8, valid_utf8};

verus! {

pub const NEWLINE: u8 = 10u8;

pub const CARRIAGE_RETURN: u8 = 13u8;

/// The bytes after the last newline: the line that is not complete yet.
pub open spec fn partial_line(bytes: Seq<u8>) -> Seq<u8>
    decreases bytes.len(),
{
    if bytes.len() == 0 {
        Seq::empty()
    } else if bytes.last() == NEWLINE {
        Seq::empty()
    } else {
        partial_line(bytes.drop_last()).push(bytes.last())
    }
}

/// The newline-terminated lines of `bytes`, in order, each without its
/// newline.
pub open spec fn complete_lines(bytes: Seq<u8>) -> Seq<Seq<u8>>
    decreases bytes.len(),
{
    if bytes.len() == 0 {
        Seq::empty()
    } else if bytes.last() == NEWLINE {
        complete_lines(bytes.drop_last()).push(partial_line(bytes.drop_last()))
    } else {
        complete_lines(bytes.drop_last())
    }
}

/// A line without the carriage return that may end it.
pub open spec fn without_carriage_return(line: Seq<u8>) -> Seq<u8> {
    if line.len() > 0 && line.last() == CARRIAGE_RETURN {
        line.drop_last()
    } else {
        line
    }
}

/// The events that a run of complete lines gives: one per line that is
/// well-formed UTF-8, in order. A line that is not is left out.
pub open spec fn line_events(kind: StreamKind, lines: Seq<Seq<u8>>) -> Seq<ProcessEventView>
    decreases lines.len(),
{
    if lines.len() == 0 {
        Seq::empty()
    } else {
        let text = without_carriage_return(lines.last());
        let before = line_events(kind, lines.drop_last());
        if valid_utf8(text) {
            before.push(ProcessEvent::line_view(kind, decode_utf8(text)))
        } else {
            before
        }
    }
}

/// The events that a whole stream gives.
pub open spec fn stream_events(kind: StreamKind, bytes: Seq<u8>) -> Seq<ProcessEventView> {
    line_events(kind, complete_lines(bytes))
}

/// Lines put back together: each followed by a newline, in order.
pub open spec fn joined_lines(lines: Seq<Seq<u8>>) -> Seq<u8>
    decreases lines.len(),
{
    if lines.len() == 0 {
        Seq::empty()
    } else {
        joined_lines(lines.drop_last()) + lines.last().push(NEWLINE)
    }
}

/// Splitting loses nothing and cuts only at newlines: the complete lines,
/// each with its newline again, and then the partial line are the bytes
/// that were split, and neither a line nor the partial line holds a newline.
pub proof fn lemma_lines_rejoin(bytes: Seq<u8>)
    ensures
        joined_lines(complete_lines(bytes)) + partial_line(bytes) == bytes,
        !partial_line(bytes).contains(NEWLINE),
        forall|i: int|
            0 <= i < complete_lines(bytes).len() ==> !(#[trigger] complete_lines(bytes)[i]).contains(
                NEWLINE,
            ),
    decreases bytes.len(),
{
    lemma_partial_line_is_fixed(bytes);
    if bytes.len() == 0 {
        assert(joined_lines(complete_lines(bytes)) + partial_line(bytes) =~= bytes);
    } else {
        let front = bytes.drop_last();
        lemma_lines_rejoin(front);
        lemma_partial_line_is_fixed(front);
        assert(front.push(bytes.last()) =~= bytes);
        if bytes.last() == NEWLINE {
            let lines = complete_lines(front).push(partial_line(front));
            assert(lines.drop_last() =~= complete_lines(front));
            assert(joined_lines(lines) + partial_line(bytes) =~= (joined_lines(
                complete_lines(front),
            ) + partial_line(front)).push(NEWLINE));
        } else {
            assert(joined_lines(complete_lines(bytes)) + partial_line(bytes) =~= (joined_lines(
                complete_lines(front),
            ) + partial_line(front)).push(bytes.last()));
        }
    }
}

/// Appending one byte extends the partial line, or completes it.
pub proof fn lemma_split_push(bytes: Seq<u8>, byte: u8)
    ensures
        byte == NEWLINE ==> partial_line(bytes.push(byte)) == Seq::<u8>::empty(),
        byte == NEWLINE ==> complete_lines(bytes.push(byte)) == complete_lines(bytes).push(
            partial_line(bytes),
        ),
        byte != NEWLINE ==> partial_line(bytes.push(byte)) == partial_line(bytes).push(byte),
        byte != NEWLINE ==> complete_lines(bytes.push(byte)) == complete_lines(bytes),
{
    assert(bytes.push(byte).drop_last() =~= bytes);
}

/// Splitting may resume from the partial line alone: what came before the
/// last newline no longer matters.
pub proof fn lemma_split_resume(before: Seq<u8>, more: Seq<u8>)
    ensures
        partial_line(before + more) == partial_line(partial_line(before) + more),
        complete_lines(before + more) == complete_lines(before) + complete_lines(
            partial_line(before) + more,
        ),
    decreases more.len(),
{
    let kept = partial_line(before);
    if more.len() == 0 {
        assert(before + more =~= before);
        assert(kept + more =~= kept);
        lemma_partial_line_is_fixed(before);
        lemma_partial_line_has_no_lines(kept);
        assert(complete_lines(before) + Seq::<Seq<u8>>::empty() =~= complete_lines(before));
    } else {
        let front = more.drop_last();
        let byte = more.last();
        lemma_split_resume(before, front);
        assert(before + more =~= (before + front).push(byte));
        assert(kept + more =~= (kept + front).push(byte));
        lemma_split_push(before + front, byte);
        lemma_split_push(kept + front, byte);
        if byte == NEWLINE {
            assert(complete_lines(before + more) =~= complete_lines(before) + complete_lines(
                kept + more,
            ));
        }
    }
}

/// A partial line is its own partial line.
pub proof fn lemma_partial_line_is_fixed(bytes: Seq<u8>)
    ensures
        partial_line(partial_line(bytes)) == partial_line(bytes),
        !partial_line(bytes).contains(NEWLINE),
    decreases bytes.len(),
{
    if bytes.len() == 0 || bytes.last() == NEWLINE {
    } else {
        lemma_partial_line_is_fixed(bytes.drop_last());
        lemma_split_push(partial_line(bytes.drop_last()), bytes.last());
        let kept = partial_line(bytes.drop_last());
        assert forall|i: int| 0 <= i < kept.push(bytes.last()).len() implies kept.push(
            bytes.last(),
        )[i] != NEWLINE by {
            if i < kept.len() {
                assert(kept.contains(kept[i]));
            }
        }
    }
}

/// Bytes without a newline hold no complete line.
pub proof fn lemma_partial_line_has_no_lines(bytes: Seq<u8>)
    requires
        !bytes.contains(NEWLINE),
    ensures
        complete_lines(bytes) == Seq::<Seq<u8>>::empty(),
        partial_line(bytes) == bytes,
    decreases bytes.len(),
{
    if bytes.len() > 0 {
        assert(bytes.contains(bytes.last()));
        let front = bytes.drop_last();
        assert forall|i: int| 0 <= i < front.len() implies front[i] != NEWLINE by {
            assert(bytes.contains(bytes[i]));
        }
        lemma_partial_line_has_no_lines(front);
        assert(front.push(bytes.last()) =~= bytes);
    } else {
        assert(bytes =~= Seq::<u8>::empty());
    }
}

/// The events of two runs of lines, one after the other.
pub proof fn lemma_line_events_concat(kind: StreamKind, first: Seq<Seq<u8>>, second: Seq<Seq<u8>>)
    ensures
        line_events(kind, first + second) == line_events(kind, first) + line_events(kind, second),
    decreases second.len(),
{
    if second.len() == 0 {
        assert(first + second =~= first);
        assert(line_events(kind, first) + Seq::<ProcessEventView>::empty() =~= line_events(
            kind,
            first,
        ));
    } else {
        lemma_line_events_concat(kind, first, second.drop_last());
        assert((first + second).drop_last() =~= first + second.drop_last());
        assert((first + second).last() == second.last());
        assert(line_events(kind, first + second) =~= line_events(kind, first) + line_events(
            kind,
            second,
        ));
    }
}

/// Feeding a stream in two parts gives the events of the whole: those of
/// the first part, then those of the rest resumed from the partial line.
pub proof fn lemma_stream_events_resume(kind: StreamKind, before: Seq<u8>, more: Seq<u8>)
    ensures
        stream_events(kind, before + more) == stream_events(kind, before) + stream_events(
            kind,
            partial_line(before) + more,
        ),
{
    lemma_split_resume(before, more);
    lemma_line_events_concat(
        kind,
        complete_lines(before),
        complete_lines(partial_line(before) + more),
    );
}

/// Reads one stream of the child chunk by chunk and gives a line event for
/// each line as soon as its newline has arrived.
pub struct OutputRelay {
    kind: StreamKind,
    pending: Vec<u8>,
    closed: bool,
    received: Ghost<Seq<u8>>,
    emitted: Ghost<Seq<ProcessEventView>>,
}

impl OutputRelay {
    pub closed spec fn kind(&self) -> StreamKind {
        self.kind
    }

    /// Every byte fed so far.
    pub closed spec fn received(&self) -> Seq<u8> {
        self.received@
    }

    /// Every line event given out so far.
    pub closed spec fn emitted(&self) -> Seq<ProcessEventView> {
        self.emitted@
    }

    /// The bytes held back: the line that has no newline yet.
    pub closed spec fn pending(&self) -> Seq<u8> {
        self.pending@
    }

    /// Whether the end of the stream was reported.
    pub closed spec fn is_closed(&self) -> bool {
        self.closed
    }

    /// What has been given out is exactly the events of the complete lines
    /// received, and what is held back is the line still open.
    pub open spec fn wf(&self) -> bool {
        &&& self.pending() == partial_line(self.received())
        &&& self.emitted() == stream_events(self.kind(), self.received())
    }

    pub fn new(kind: StreamKind) -> (relay: Self)
        ensures
            relay.wf(),
            relay.kind() == kind,
            relay.received() == Seq::<u8>::empty(),
            relay.emitted() == Seq::<ProcessEventView>::empty(),
            !relay.is_closed(),
    {
        OutputRelay {
            kind,
            pending: Vec::new(),
            closed: false,
            received: Ghost(Seq::empty()),
            emitted: Ghost(Seq::empty()),
        }
    }

    /// Takes the next bytes of the stream and returns the events of the
    /// lines they complete. After `close` the bytes are ignored.
    pub fn feed(&mut self, chunk: &[u8]) -> (events: Vec<ProcessEvent>)
        requires
            old(self).wf(),
        ensures
            final(self).wf(),
            final(self).kind() == old(self).kind(),
            final(self).is_closed() == old(self).is_closed(),
            final(self).emitted() == old(self).emitted() + events.deep_view(),
            old(self).is_closed() ==> events@.len() == 0 && final(self).received() == old(
                self,
            ).received(),
            !old(self).is_closed() ==> final(self).received() == old(self).received() + chunk@,
            !old(self).is_closed() ==> events.deep_view() == stream_events(
                old(self).kind(),
                old(self).pending() + chunk@,
            ),
            !old(self).is_closed() ==> final(self).pending() == partial_line(
                old(self).pending() + chunk@,
            ),
    {
        let mut events: Vec<ProcessEvent> = Vec::new();
        if self.closed {
            assert(events.deep_view() =~= Seq::<ProcessEventView>::empty());
            assert(self.emitted@ + events.deep_view() =~= self.emitted@);
            return events;
        }
        let ghost start = self.pending@;
        let ghost kind = self.kind;
        let mut i: usize = 0;
        proof {
            assert(start + chunk@.subrange(0, 0) =~= start);
            lemma_partial_line_is_fixed(self.received@);
            lemma_partial_line_has_no_lines(start);
            assert(events.deep_view() =~= Seq::<ProcessEventView>::empty());
        }
        while i < chunk.len()
            invariant
                i <= chunk.len(),
                self.kind == kind,
                !self.closed,
                self.received == old(self).received,
                self.emitted == old(self).emitted,
                self.pending@ == partial_line(start + chunk@.subrange(0, i as int)),
                events.deep_view() == stream_events(kind, start + chunk@.subrange(0, i as int)),
            decreases chunk.len() - i,
        {
            let byte = chunk[i];
            let ghost seen = start + chunk@.subrange(0, i as int);
            proof {
                assert(start + chunk@.subrange(0, i + 1) =~= seen.push(byte));
                lemma_split_push(seen, byte);
            }
            if byte == NEWLINE {
                let mut line: Vec<u8> = Vec::new();
                std::mem::swap(&mut self.pending, &mut line);
                let ghost whole = line@;
                if line.len() > 0 && line[line.len() - 1] == CARRIAGE_RETURN {
                    line.pop();
                }
                assert(line@ == without_carriage_return(whole));
                let ghost before = events.deep_view();
                proof {
                    let lines = complete_lines(seen).push(whole);
                    assert(lines.drop_last() =~= complete_lines(seen));
                    assert(lines.last() == whole);
                }
                match string_from_utf8(line) {
                    Some(text) => {
                        let event = ProcessEvent::line(self.kind, text);
                        events.push(event);
                        assert(events.deep_view() =~= before.push(event@));
                    },
                    None => {},
                }
            } else {
                self.pending.push(byte);
            }
            i = i + 1;
        }
        proof {
            assert(chunk@.subrange(0, chunk@.len() as int) =~= chunk@);
            lemma_split_resume(self.received@, chunk@);
            lemma_stream_events_resume(kind, self.received@, chunk@);
        }
        self.received = Ghost(self.received@ + chunk@);
        self.emitted = Ghost(self.emitted@ + events.deep_view());
        events
    }

    /// Reports the end of the stream: `Terminate` the first time, nothing
    /// afterwards. A line left without its newline is dropped.
    pub fn close(&mut self) -> (event: Option<ProcessEvent>)
        requires
            old(self).wf(),
        ensures
            final(self).wf(),
            final(self).is_closed(),
            final(self).kind() == old(self).kind(),
            final(self).received() == old(self).received(),
            final(self).emitted() == old(self).emitted(),
            final(self).pending() == old(self).pending(),
            old(self).is_closed() ==> event is None,
            !old(self).is_closed() ==> (event matches Some(e) && e@
                == ProcessEventView::Terminate),
    {
        if self.closed {
            None
        } else {
            self.closed = true;
            Some(ProcessEvent::Terminate)
        }
    }

    /// Whether `close` was called.
    pub fn closed(&self) -> (closed: bool)
        ensures
            closed == self.is_closed(),
    {
        self.closed
    }

    /// The stream this relay reads.
    pub fn stream(&self) -> (kind: StreamKind)
        ensures
            kind == self.kind(),
    {
        self.kind
    }
}

/// The bytes of a run of lines of text, each followed by a newline.
pub open spec fn encoded_lines(lines: Seq<Seq<char>>) -> Seq<u8>
    decreases lines.len(),
{
    if lines.len() == 0 {
        Seq::empty()
    } else {
        encoded_lines(lines.drop_last()) + encode_utf8(lines.last()).push(NEWLINE)
    }
}

/// A line that reaches the loop as it was written: it holds no newline and
/// does not end in a carriage return.
pub open spec fn plain_line(line: Seq<char>) -> bool {
    !line.contains('\n') && (line.len() == 0 || line.last() != '\r')
}

/// One event for each line of text, in order.
pub open spec fn events_of_lines(kind: StreamKind, lines: Seq<Seq<char>>) -> Seq<
    ProcessEventView,
> {
    Seq::new(lines.len(), |i: int| ProcessEvent::line_view(kind, lines[i]))
}

/// The bytes of lines of text split into those lines again, with nothing
/// left over.
pub proof fn lemma_encoded_lines_split(lines: Seq<Seq<char>>)
    requires
        forall|i: int| 0 <= i < lines.len() ==> !(#[trigger] lines[i]).contains('\n'),
    ensures
        partial_line(encoded_lines(lines)) == Seq::<u8>::empty(),
        complete_lines(encoded_lines(lines)) == Seq::new(
            lines.len(),
            |i: int| encode_utf8(lines[i]),
        ),
    decreases lines.len(),
{
    let each = Seq::new(lines.len(), |i: int| encode_utf8(lines[i]));
    if lines.len() == 0 {
        assert(complete_lines(encoded_lines(lines)) =~= each);
    } else {
        let front = lines.drop_last();
        let last = encode_utf8(lines.last());
        lemma_encoded_lines_split(front);
        assert(encoded_lines(lines) =~= (encoded_lines(front) + last).push(NEWLINE));
        lemma_split_push(encoded_lines(front) + last, NEWLINE);
        lemma_split_resume(encoded_lines(front), last);
        assert(Seq::<u8>::empty() + last =~= last);
        crate::text::lemma_ascii_byte_in_text(lines.last(), NEWLINE);
        lemma_partial_line_has_no_lines(last);
        assert(complete_lines(encoded_lines(lines)) =~= each);
    }
}

/// Each complete line of text becomes the event of that line.
pub proof fn lemma_text_line_events(kind: StreamKind, lines: Seq<Seq<char>>)
    requires
        forall|i: int| 0 <= i < lines.len() ==> plain_line(#[trigger] lines[i]),
    ensures
        line_events(kind, Seq::new(lines.len(), |i: int| encode_utf8(lines[i])))
            == events_of_lines(kind, lines),
    decreases lines.len(),
{
    let each = Seq::new(lines.len(), |i: int| encode_utf8(lines[i]));
    if lines.len() == 0 {
        assert(line_events(kind, each) =~= events_of_lines(kind, lines));
    } else {
        let front = lines.drop_last();
        let text = lines.last();
        lemma_text_line_events(kind, front);
        assert(each.drop_last() =~= Seq::new(front.len(), |i: int| encode_utf8(front[i])));
        assert(each.last() == encode_utf8(text));
        if text.len() > 0 {
            crate::text::lemma_ascii_byte_ends_text(text, CARRIAGE_RETURN);
        }
        assert(without_carriage_return(encode_utf8(text)) == encode_utf8(text));
        vstd::utf8::encode_utf8_valid_utf8(text);
        vstd::utf8::encode_utf8_decode_utf8(text);
        assert(line_events(kind, each) =~= events_of_lines(kind, lines));
    }
}

/// Whatever lines the child writes, the relay gives exactly one event for
/// each line that was ended by a newline, with the text of that line, in
/// the order written; what follows the last newline gives no event and is
/// held back. The lines are any that hold no newline and do not end in a
/// carriage return.
pub proof fn lemma_lines_become_events(kind: StreamKind, lines: Seq<Seq<char>>, rest: Seq<char>)
    requires
        forall|i: int| 0 <= i < lines.len() ==> plain_line(#[trigger] lines[i]),
        !rest.contains('\n'),
    ensures
        stream_events(kind, encoded_lines(lines) + encode_utf8(rest)) == events_of_lines(
            kind,
            lines,
        ),
        partial_line(encoded_lines(lines) + encode_utf8(rest)) == encode_utf8(rest),
{
    let tail = encode_utf8(rest);
    lemma_encoded_lines_split(lines);
    lemma_text_line_events(kind, lines);
    lemma_split_resume(encoded_lines(lines), tail);
    assert(Seq::<u8>::empty() + tail =~= tail);
    crate::text::lemma_ascii_byte_in_text(rest, NEWLINE);
    lemma_partial_line_has_no_lines(tail);
    assert(complete_lines(encoded_lines(lines)) + Seq::<Seq<u8>>::empty() =~= complete_lines(
        encoded_lines(lines),
    ));
}

} // verus!
