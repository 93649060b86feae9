use vstd::prelude::*;

use crate::level::{at_least_as_severe, rank, TracerLevel};
use crate::record::{CollectedEvent, EventView};
use crate::text::starts_with;

verus! {

/// The ingestion policy: an event is kept when it is at least as severe as
/// `level` and its namespace starts with `prefix`.
pub open spec fn retains(level: TracerLevel, prefix: Seq<char>, e: EventView) -> bool {
    at_least_as_severe(e.level, level) && prefix.is_prefix_of(e.target)
}

/// The buffer `s` after event `e` is offered under the policy (`level`, `prefix`).
pub open spec fn offered(
    s: Seq<EventView>,
    level: TracerLevel,
    prefix: Seq<char>,
    e: EventView,
) -> Seq<EventView> {
    if retains(level, prefix, e) {
        s.push(e)
    } else {
        s
    }
}

/// The buffer `s` after each event of `es` is offered in turn.
pub open spec fn offered_all(
    s: Seq<EventView>,
    level: TracerLevel,
    prefix: Seq<char>,
    es: Seq<EventView>,
) -> Seq<EventView>
    decreases es.len(),
{
    if es.len() == 0 {
        s
    } else {
        offered(offered_all(s, level, prefix, es.drop_last()), level, prefix, es.last())
    }
}

/// What a sequence of records holds, in order.
pub open spec fn views(s: Seq<CollectedEvent>) -> Seq<EventView> {
    s.map_values(|e: CollectedEvent| e@)
}

/// The records kept under an ingestion policy, in the order they were captured.
pub struct EventLog {
    level: TracerLevel,
    prefix: String,
    records: Vec<CollectedEvent>,
}

impl View for EventLog {
    type V = Seq<EventView>;

    closed spec fn view(&self) -> Seq<EventView> {
        views(self.records@)
    }
}

impl EventLog {
    /// The least severe level that is kept.
    pub closed spec fn spec_level(&self) -> TracerLevel {
        self.level
    }

    /// The prefix that a kept record's namespace starts with.
    pub closed spec fn spec_prefix(&self) -> Seq<char> {
        self.prefix@
    }

    /// Every record is well formed and passed the policy.
    pub closed spec fn wf(&self) -> bool {
        forall|i: int|
            0 <= i < self.records@.len() ==> #[trigger] self.records@[i].wf() && retains(
                self.level,
                self.prefix@,
                self.records@[i]@,
            )
    }

    /// Each record that the log holds passed its policy.
    pub proof fn lemma_kept(&self, i: int)
        requires
            self.wf(),
            0 <= i < self@.len(),
        ensures
            retains(self.spec_level(), self.spec_prefix(), self@[i]),
    {
        assert(self.records@[i].wf());
    }

    /// An empty log that keeps events at least as severe as `level` from
    /// namespaces that start with `prefix`.
    pub fn with_level(level: TracerLevel, prefix: &str) -> (r: EventLog)
        ensures
            r.wf(),
            r@ == Seq::<EventView>::empty(),
            r.spec_level() == level,
            r.spec_prefix() == prefix@,
    {
        let r = EventLog { level, prefix: prefix.to_owned(), records: Vec::new() };
        assert(r@ =~= Seq::<EventView>::empty());
        r
    }

    pub fn level(&self) -> (r: TracerLevel)
        ensures
            r == self.spec_level(),
    {
        self.level
    }

    pub fn prefix(&self) -> (r: &String)
        ensures
            r@ == self.spec_prefix(),
    {
        &self.prefix
    }

    /// Whether the policy keeps `e`.
    pub fn accepts(&self, e: &CollectedEvent) -> (r: bool)
        ensures
            r == retains(self.spec_level(), self.spec_prefix(), e@),
    {
        e.level().at_least_as_severe(&self.level) && starts_with(e.target().as_str(), self.prefix.as_str())
    }

    /// Appends `e` when the policy keeps it; otherwise leaves the log as it was.
    pub fn collect(&mut self, e: CollectedEvent)
        requires
            old(self).wf(),
            e.wf(),
        ensures
            final(self).wf(),
            final(self).spec_level() == old(self).spec_level(),
            final(self).spec_prefix() == old(self).spec_prefix(),
            final(self)@ == offered(old(self)@, old(self).spec_level(), old(self).spec_prefix(), e@),
    {
        if self.accepts(&e) {
            let ghost e_view = e@;
            self.records.push(e);
            assert(self@ =~= old(self)@.push(e_view));
        }
    }

    /// The number of records kept.
    pub fn len(&self) -> (r: usize)
        ensures
            r == self@.len(),
    {
        self.records.len()
    }

    /// A copy of the records, in capture order. The log is only read, so two
    /// copies taken with nothing offered or cleared in between are equal.
    pub fn events(&self) -> (r: Vec<CollectedEvent>)
        requires
            self.wf(),
        ensures
            views(r@) == self@,
            forall|i: int| 0 <= i < r@.len() ==> (#[trigger] r@[i]).wf(),
    {
        let mut out: Vec<CollectedEvent> = Vec::new();
        let mut i: usize = 0;
        while i < self.records.len()
            invariant
                self.wf(),
                i <= self.records@.len(),
                out@.len() == i,
                forall|j: int| 0 <= j < i ==> (#[trigger] out@[j]).wf() && out@[j]@ == self.records@[j]@,
            decreases self.records@.len() - i,
        {
            assert(self.records@[i as int].wf());
            out.push(self.records[i].duplicate());
            i = i + 1;
        }
        assert(views(out@) =~= self@);
        out
    }

    /// Removes every record; the policy stays.
    pub fn clear(&mut self)
        ensures
            final(self).wf(),
            final(self)@ == Seq::<EventView>::empty(),
            final(self).spec_level() == old(self).spec_level(),
            final(self).spec_prefix() == old(self).spec_prefix(),
    {
        self.records = Vec::new();
        assert(self@ =~= Seq::<EventView>::empty());
    }
}

/// Under an ingestion level `l2`, an event from a matching namespace is kept
/// exactly when its level is `l2` or more severe: events at levels `l1` more
/// severe than `l2` are kept, and less severe ones are dropped.
pub proof fn lemma_level_threshold(
    s: Seq<EventView>,
    l2: TracerLevel,
    prefix: Seq<char>,
    e: EventView,
)
    requires
        prefix.is_prefix_of(e.target),
    ensures
        rank(e.level) <= rank(l2) ==> offered(s, l2, prefix, e) == s.push(e),
        rank(e.level) > rank(l2) ==> offered(s, l2, prefix, e) == s,
{
}

/// An event whose namespace does not start with the prefix is never kept,
/// whatever its level.
pub proof fn lemma_foreign_namespace_dropped(
    s: Seq<EventView>,
    level: TracerLevel,
    prefix: Seq<char>,
    e: EventView,
)
    requires
        !prefix.is_prefix_of(e.target),
    ensures
        !retains(level, prefix, e),
        offered(s, level, prefix, e) == s,
{
}

/// Events that the policy keeps, offered one after another, are each
/// appended exactly once and in the order offered: none is lost and none
/// is doubled.
pub proof fn lemma_kept_offers_all_appended(
    s: Seq<EventView>,
    level: TracerLevel,
    prefix: Seq<char>,
    es: Seq<EventView>,
)
    requires
        forall|i: int| 0 <= i < es.len() ==> retains(level, prefix, #[trigger] es[i]),
    ensures
        offered_all(s, level, prefix, es) == s + es,
        offered_all(s, level, prefix, es).len() == s.len() + es.len(),
    decreases es.len(),
{
    if es.len() > 0 {
        let rest = es.drop_last();
        assert forall|i: int| 0 <= i < rest.len() implies retains(level, prefix, #[trigger] rest[i]) by {
            assert(rest[i] == es[i]);
        }
        lemma_kept_offers_all_appended(s, level, prefix, rest);
        assert(retains(level, prefix, es[es.len() - 1]));
        assert((s + rest).push(es.last()) =~= s + es);
    } else {
        assert(s + es =~= s);
    }
}

/// After a clear the log is empty, and one event that the policy keeps then
/// leaves exactly that event in it.
pub proof fn lemma_clear_then_collect(
    level: TracerLevel,
    prefix: Seq<char>,
    e: EventView,
)
    requires
        retains(level, prefix, e),
    ensures
        offered(Seq::<EventView>::empty(), level, prefix, e) == seq![e],
        offered(Seq::<EventView>::empty(), level, prefix, e).len() == 1,
{
    assert(Seq::<EventView>::empty().push(e) =~= seq![e]);
}

} // verus!
