use vstd::prelude::*;
use vstd::rwlock::RwLock;

use std::sync::Arc;

use crate::fields::Fields;
use crate::level::TracerLevel;
use crate::log::{retains, EventLog};
use crate::record::CollectedEvent;

verus! {

/// What the lock of a collector holds: a well-formed log under the policy
/// (`level`, `prefix`).
pub open spec fn under_policy(level: TracerLevel, prefix: Seq<char>) -> spec_fn(EventLog) -> bool {
    |log: EventLog| log.wf() && log.spec_level() == level && log.spec_prefix() == prefix
}

/// Relies on std's `Arc::clone`: the result points to the same lock.
#[verifier::external_body]
fn share_lock(
    a: &Arc<RwLock<EventLog, spec_fn(EventLog) -> bool>>,
) -> (r: Arc<RwLock<EventLog, spec_fn(EventLog) -> bool>>)
    ensures
        r == *a,
{
    Arc::clone(a)
}

/// A handle to a log shared by every thread that emits events and by the
/// reader that shows them. Clones share one log.
pub struct EventCollector {
    level: TracerLevel,
    prefix: String,
    events: Arc<RwLock<EventLog, spec_fn(EventLog) -> bool>>,
}

impl EventCollector {
    #[verifier::type_invariant]
    spec fn shares_policy(&self) -> bool {
        self.events.pred() == under_policy(self.level, self.prefix@)
    }

    /// The least severe level that is kept.
    pub closed spec fn spec_level(&self) -> TracerLevel {
        self.level
    }

    /// The prefix that a kept record's namespace starts with.
    pub closed spec fn spec_prefix(&self) -> Seq<char> {
        self.prefix@
    }

    /// `self` and `other` are handles to one and the same log.
    pub closed spec fn shares_log_with(&self, other: &EventCollector) -> bool {
        self.events == other.events
    }

    /// A collector with an empty log that keeps events at least as severe as
    /// `level` from namespaces that start with `prefix`.
    pub fn with_level(level: TracerLevel, prefix: &str) -> (r: EventCollector)
        ensures
            r.spec_level() == level,
            r.spec_prefix() == prefix@,
    {
        let log = EventLog::with_level(level, prefix);
        let ghost pred = under_policy(level, prefix@);
        let lock = RwLock::new(log, Ghost(pred));
        EventCollector { level, prefix: prefix.to_owned(), events: Arc::new(lock) }
    }

    pub fn level(&self) -> (r: TracerLevel)
        ensures
            r == self.spec_level(),
    {
        self.level
    }

    pub fn prefix(&self) -> (r: &String)
        ensures
            r@ == self.spec_prefix(),
    {
        &self.prefix
    }

    /// Hands `event` to the shared log, which keeps it when the policy does.
    pub fn collect(&self, event: CollectedEvent)
        requires
            event.wf(),
    {
        proof {
            use_type_invariant(self);
        }
        let (mut log, handle) = self.events.acquire_write();
        log.collect(event);
        handle.release_write(log);
    }

    /// Records an event emitted now by code in namespace `target`, and hands
    /// it to the shared log.
    pub fn on_event(&self, target: String, level: TracerLevel, fields: Fields)
        requires
            fields.wf(),
    {
        self.collect(CollectedEvent::new(target, level, fields));
    }

    /// A copy of the records kept so far, in capture order; each passed the policy.
    pub fn events(&self) -> (r: Vec<CollectedEvent>)
        ensures
            forall|i: int|
                0 <= i < r@.len() ==> (#[trigger] r@[i]).wf() && retains(
                    self.spec_level(),
                    self.spec_prefix(),
                    r@[i]@,
                ),
    {
        proof {
            use_type_invariant(self);
        }
        let handle = self.events.acquire_read();
        let log = handle.borrow();
        let r = log.events();
        proof {
            assert forall|i: int| 0 <= i < r@.len() implies (#[trigger] r@[i]).wf() && retains(
                self.spec_level(),
                self.spec_prefix(),
                r@[i]@,
            ) by {
                assert(crate::log::views(r@)[i] == r@[i]@);
                log.lemma_kept(i);
            }
        }
        handle.release_read();
        r
    }

    /// Empties the shared log; the policy stays.
    pub fn clear(&self) {
        proof {
            use_type_invariant(self);
        }
        let (mut log, handle) = self.events.acquire_write();
        log.clear();
        handle.release_write(log);
    }
}

impl Clone for EventCollector {
    /// Another handle to the same log.
    fn clone(&self) -> (r: EventCollector)
        ensures
            r.spec_level() == self.spec_level(),
            r.spec_prefix() == self.spec_prefix(),
            r.shares_log_with(self),
    {
        proof {
            use_type_invariant(self);
        }
        EventCollector { level: self.level, prefix: self.prefix.clone(), events: share_lock(&self.events) }
    }
}

} // verus!
