//! Input events of the overlay and the queue that collects them.

use crate::geometry::CellIndex;
use vstd::prelude::*;

verus! {

/// Events from the overlay input layer.
#[derive(Clone, Copy, Debug, PartialEq, Eq, Structural)]
pub enum OverlayEvent {
    /// User pressed a grid cell key.
    SelectCell(CellIndex),
    /// User pressed backspace to go up a level.
    Ascend,
    /// User pressed escape to cancel.
    Cancel,
    /// User pressed enter to confirm.
    Confirm,
}

/// Events that were collected and not yet handed out, oldest first.
#[derive(Debug)]
pub struct SharedEvents {
    events: Vec<OverlayEvent>,
}

impl View for SharedEvents {
    type V = Seq<OverlayEvent>;

    closed spec fn view(&self) -> Seq<OverlayEvent> {
        self.events@
    }
}

impl Default for SharedEvents {
    /// An empty queue.
    fn default() -> (r: Self)
        ensures
            r@ == Seq::<OverlayEvent>::empty(),
    {
        SharedEvents { events: Vec::new() }
    }
}

impl SharedEvents {
    /// Add an event behind those that are waiting.
    pub fn push(&mut self, event: OverlayEvent)
        ensures
            final(self)@ == old(self)@.push(event),
    {
        self.events.push(event);
    }

    /// Hand out all waiting events in the order in which they came, and keep none.
    pub fn drain(&mut self) -> (r: Vec<OverlayEvent>)
        ensures
            r@ == old(self)@,
            final(self)@ == Seq::<OverlayEvent>::empty(),
    {
        let mut taken: Vec<OverlayEvent> = Vec::new();
        taken.append(&mut self.events);
        taken
    }
}

} // verus!
