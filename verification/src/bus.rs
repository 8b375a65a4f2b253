//! The consumer's end of the event bus.

use crate::event::{ProcessEvent, ProcessEventView};
use std::sync::mpsc::{Receiver, TryRecvError};
use vstd::prelude::*;

verus! {

/// `std::sync::mpsc::Receiver`, the receiving end of the bus.
#[verifier::external_type_specification]
#[verifier::external_body]
#[verifier::reject_recursive_types(T)]
pub struct ExReceiver<T>(Receiver<T>);

/// `Receiver::try_recv`: returns at once, with an event if one is queued.
/// Which one depends on what the producers have sent by then, so nothing is
/// said of the result.
#[verifier::external_body]
fn try_receive(bus: &Receiver<ProcessEvent>) -> (received: Result<ProcessEvent, TryRecvError>) {
    bus.try_recv()
}

/// What a poll of the bus hands to the loop: the event, or nothing where
/// the bus is empty or has lost its producers.
pub fn received_event(received: Result<ProcessEvent, TryRecvError>) -> (event: Option<
    ProcessEvent,
>)
    ensures
        received matches Ok(e) ==> event == Some(e),
        received is Err ==> event is None,
{
    match received {
        Ok(msg) => Some(msg),
        Err(_) => None,
    }
}

/// Walks the events that are queued on the bus, without ever waiting. It
/// keeps account of every poll it has made.
pub struct EventIter<'a> {
    event_handle: &'a Receiver<ProcessEvent>,
    polls: Ghost<Seq<Option<ProcessEventView>>>,
}

impl<'a> EventIter<'a> {
    /// An iterator over the given bus that has not polled it yet.
    pub fn new(event_handle: &'a Receiver<ProcessEvent>) -> (events: Self)
        ensures
            events.bus() == event_handle,
            events.polls() == Seq::<Option<ProcessEventView>>::empty(),
    {
        EventIter { event_handle, polls: Ghost(Seq::empty()) }
    }

    /// Polls the bus once and returns what the poll gave: the next queued
    /// event, or `None` at once where none is queued.
    pub fn next(&mut self) -> (event: Option<ProcessEvent>)
        ensures
            final(self).bus() == old(self).bus(),
            final(self).polls() == old(self).polls().push(poll_view(event)),
    {
        let event = received_event(try_receive(self.event_handle));
        self.polls = Ghost(self.polls@.push(poll_view(event)));
        event
    }

    /// Takes up to `limit` queued events off the bus: it polls until a poll
    /// finds nothing or `limit` events are there, and returns the events of
    /// those polls in the order they were made.
    pub fn take_queued(&mut self, limit: usize) -> (events: Vec<ProcessEvent>)
        ensures
            events@.len() <= limit,
            final(self).bus() == old(self).bus(),
            final(self).polls() == old(self).polls() + polls_taken(
                events.deep_view(),
                limit as nat,
            ),
    {
        let mut events: Vec<ProcessEvent> = Vec::new();
        let mut more = true;
        let ghost before = self.polls@;
        proof {
            let found = Seq::new(events.deep_view().len(), |i: int| Some(events.deep_view()[i]));
            assert(before + found =~= before);
        }
        while more && events.len() < limit
            invariant
                events@.len() <= limit,
                self.bus() == old(self).bus(),
                more ==> self.polls@ == before + Seq::new(
                    events.deep_view().len(),
                    |i: int| Some(events.deep_view()[i]),
                ),
                !more ==> events@.len() < limit && self.polls@ == before + Seq::new(
                    events.deep_view().len(),
                    |i: int| Some(events.deep_view()[i]),
                ).push(None),
            decreases (if more { 1int } else { 0int }) + limit - events@.len(),
        {
            let ghost found = Seq::new(
                events.deep_view().len(),
                |i: int| Some(events.deep_view()[i]),
            );
            match self.next() {
                Some(event) => {
                    let ghost seen = event@;
                    events.push(event);
                    proof {
                        let grown = Seq::new(
                            events.deep_view().len(),
                            |i: int| Some(events.deep_view()[i]),
                        );
                        assert(grown =~= found.push(Some(seen)));
                        assert(before + grown =~= (before + found).push(Some(seen)));
                    }
                },
                None => {
                    more = false;
                    assert(before + found.push(None) =~= (before + found).push(None));
                },
            }
        }
        events
    }

    /// The bus that is polled.
    pub closed spec fn bus(&self) -> &Receiver<ProcessEvent> {
        self.event_handle
    }

    /// What each poll made through this iterator gave, in the order the
    /// polls were made.
    pub closed spec fn polls(&self) -> Seq<Option<ProcessEventView>> {
        self.polls@
    }
}

/// What one poll of the bus gave, as the contracts see it: the event, or
/// `None` where the bus had none to give.
pub open spec fn poll_view(event: Option<ProcessEvent>) -> Option<ProcessEventView> {
    match event {
        Some(event) => Some(event@),
        None => None,
    }
}

/// The polls behind a batch of events taken with a limit: one poll for each
/// event, in order, and after them, where the limit was not reached, the
/// poll that found nothing and ended the batch.
pub open spec fn polls_taken(events: Seq<ProcessEventView>, limit: nat) -> Seq<
    Option<ProcessEventView>,
> {
    let found = Seq::new(events.len(), |i: int| Some(events[i]));
    if events.len() < limit {
        found.push(None)
    } else {
        found
    }
}

} // verus!
