//! Gameplay events and the queue that defers their handling to a single
//! drain point each frame.

use vstd::prelude::*;

verus! {

/// A discrete gameplay event. Events carry no payload: the handler
/// re-derives what to do from the current track state at drain time.
#[derive(Clone, Copy, Debug, PartialEq, Eq, Structural)]
pub enum Event {
    SpawnPipe,
    SpawnCoin,
    DespawnPipe,
    DespawnCoin,
    UpdateScore,
}

/// A FIFO queue of gameplay events, filled during the per-frame updates and
/// fully drained once per frame. Its view is the queued events in push
/// order: index 0 is the oldest event and is dispatched first.
pub struct EventQueue {
    events: Vec<Event>,
}

impl View for EventQueue {
    type V = Seq<Event>;

    closed spec fn view(&self) -> Seq<Event> {
        self.events@
    }
}

impl EventQueue {
    /// An empty queue; the game starts with no pending events.
    pub fn new() -> (q: EventQueue)
        ensures
            q@ == Seq::<Event>::empty(),
    {
        EventQueue { events: Vec::new() }
    }

    /// Appends one event behind all previously pushed ones.
    pub fn push(&mut self, event: Event)
        ensures
            final(self)@ == old(self)@.push(event),
    {
        self.events.push(event);
    }

    /// Removes and returns the oldest queued event, if any.
    pub fn pop(&mut self) -> (r: Option<Event>)
        ensures
            old(self)@.len() == 0 ==> r is None && final(self)@ == old(self)@,
            old(self)@.len() > 0 ==> r == Some(old(self)@[0])
                && final(self)@ == old(self)@.subrange(1, old(self)@.len() as int),
    {
        if self.events.len() == 0 {
            None
        } else {
            Some(self.events.remove(0))
        }
    }

    /// How many events are queued.
    pub fn len(&self) -> (r: usize)
        ensures
            r == self@.len(),
    {
        self.events.len()
    }

    /// Whether no event is queued.
    pub fn is_empty(&self) -> (r: bool)
        ensures
            r == (self@.len() == 0),
    {
        self.events.len() == 0
    }

    /// Takes every queued event out, in the order they were pushed, and
    /// leaves the queue empty: a drain never loses, duplicates or reorders
    /// an event.
    pub fn drain(&mut self) -> (r: Vec<Event>)
        ensures
            r@ == old(self)@,
            final(self)@ == Seq::<Event>::empty(),
    {
        let r = self.events.split_off(0);
        assert(r@ == old(self)@);
        r
    }
}

} // verus!
