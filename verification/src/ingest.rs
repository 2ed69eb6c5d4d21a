//! The event ingester: takes events pushed from upstream in arrival order,
//! counts them, keeps the universe view in step, and queues them for the
//! scheduled programs, which filter on drain.

use vstd::prelude::*;

use crate::event::AddressedEvent;
use crate::universe::{spec_apply_to_slot, UniverseView};

verus! {

/// The ingester's state: the local universe view, the queue of events not
/// yet drained by a tick, and the monotonically non-decreasing count of
/// events processed.
#[derive(Debug)]
pub struct EventIngester {
    pub universe: UniverseView,
    pub queue: Vec<AddressedEvent>,
    pub events_processed: u64,
}

impl EventIngester {
    /// The universe view is well-formed.
    pub open spec fn wf(self) -> bool {
        self.universe.wf()
    }

    /// A fresh ingester over the given view, with nothing queued or counted.
    pub fn new(universe: UniverseView) -> (r: EventIngester)
        ensures
            r.universe == universe,
            r.queue@.len() == 0,
            r.events_processed == 0,
    {
        EventIngester { universe, queue: Vec::new(), events_processed: 0 }
    }

    /// How many events have been processed; the count never decreases.
    pub fn events_processed(&self) -> (r: u64)
        ensures
            r == self.events_processed,
    {
        self.events_processed
    }

    /// Takes one pushed event: counts it, applies it to the universe view if
    /// the view covers its address, and queues it for the programs.
    pub fn apply_event(&mut self, event: AddressedEvent)
        requires
            old(self).wf(),
        ensures
            final(self).wf(),
            // the counter never decreases, and counts every event it can
            final(self).events_processed >= old(self).events_processed,
            old(self).events_processed < u64::MAX ==> final(self).events_processed == old(
                self,
            ).events_processed + 1,
            // the event joins the queue in arrival order
            final(self).queue@ == old(self).queue@.push(event),
            // the view: updated where it covers the address, untouched where not
            !old(self).universe.spec_has_address(event.address) ==> final(self).universe == old(
                self,
            ).universe,
            old(self).universe.spec_has_address(event.address) ==> {
                &&& final(self).universe.slots@.len() == old(self).universe.slots@.len()
                &&& forall|i: int|
                    0 <= i < old(self).universe.slots@.len() && old(self).universe.slots@[i].0
                        != event.address ==> final(self).universe.slots@[i] == old(
                        self,
                    ).universe.slots@[i]
                &&& forall|i: int|
                    0 <= i < old(self).universe.slots@.len() && old(self).universe.slots@[i].0
                        == event.address ==> final(self).universe.slots@[i].0 == event.address
                        && final(self).universe.slots@[i].1 == spec_apply_to_slot(
                        old(self).universe.slots@[i].1,
                        event.event.inner,
                    )
            },
    {
        if self.events_processed < u64::MAX {
            self.events_processed = self.events_processed + 1;
        }
        if self.universe.has_address(event.address) {
            let r = self.universe.apply_event(&event);
            proof {
                assert(r is Ok);
            }
        }
        self.queue.push(event);
    }

    /// Hands out everything queued, in arrival order, and leaves the queue
    /// empty; the counter and the view stay as they are.
    pub fn drain(&mut self) -> (r: Vec<AddressedEvent>)
        ensures
            r@ == old(self).queue@,
            final(self).queue@.len() == 0,
            final(self).universe == old(self).universe,
            final(self).events_processed == old(self).events_processed,
    {
        let mut out: Vec<AddressedEvent> = Vec::new();
        core::mem::swap(&mut out, &mut self.queue);
        out
    }
}

} // verus!
