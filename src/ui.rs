use vstd::prelude::*;

use crate::collector::EventCollector;
use crate::filter::{shows, visible_events, LogsState};
use crate::log::retains;
use crate::record::CollectedEvent;

verus! {

/// The reading side of a collector: what a log view shows and the clear it
/// sends back.
pub struct LogUi {
    collector: EventCollector,
}

impl LogUi {
    pub closed spec fn spec_collector(&self) -> EventCollector {
        self.collector
    }

    pub fn new(collector: EventCollector) -> (r: LogUi)
        ensures
            r.spec_collector() == collector,
    {
        LogUi { collector }
    }

    pub fn collector(&self) -> (r: &EventCollector)
        ensures
            *r == self.spec_collector(),
    {
        &self.collector
    }

    /// The records of a fresh copy of the log whose level `state` shows, in
    /// capture order.
    pub fn visible(&self, state: &LogsState) -> (r: Vec<CollectedEvent>)
        ensures
            forall|i: int|
                0 <= i < r@.len() ==> (#[trigger] r@[i]).wf() && shows(state@, r@[i]@.level)
                    && retains(
                    self.spec_collector().spec_level(),
                    self.spec_collector().spec_prefix(),
                    r@[i]@,
                ),
    {
        let events = self.collector.events();
        let r = visible_events(&events, state);
        proof {
            let p = |e: crate::record::EventView| shows(state@, e.level);
            let s = crate::log::views(events@);
            assert forall|i: int| 0 <= i < r@.len() implies (#[trigger] r@[i]).wf() && shows(
                state@,
                r@[i]@.level,
            ) && retains(
                self.spec_collector().spec_level(),
                self.spec_collector().spec_prefix(),
                r@[i]@,
            ) by {
                let x = r@[i]@;
                assert(crate::log::views(r@)[i] == x);
                assert(s.filter(p)[i] == x);
                assert(p(s.filter(p)[i]));
                assert(s.filter(p).contains(x));
                s.lemma_filter_contains_rev(p, x);
                let k = choose|k: int| 0 <= k < s.len() && s[k] == x;
                assert(s[k] == events@[k]@);
            }
        }
        r
    }

    /// Empties the collector's log.
    pub fn clear(&self) {
        self.collector.clear();
    }
}

} // verus!
