use vstd::prelude::*;

use crate::level::TracerLevel;
use crate::log::views;
use crate::record::{CollectedEvent, EventView};

verus! {

/// A level is shown when it has an entry and that entry is on.
pub open spec fn shows(m: Map<TracerLevel, bool>, l: TracerLevel) -> bool {
    m.contains_key(l) && m[l]
}

/// The entry of `l` as a one-element sequence, or nothing when `l` has none.
pub open spec fn entry_of(m: Map<TracerLevel, bool>, l: TracerLevel) -> Seq<(TracerLevel, bool)> {
    if m.contains_key(l) {
        seq![(l, m[l])]
    } else {
        Seq::empty()
    }
}

/// The entries of `m` from the most severe level to the least.
pub open spec fn ordered_entries(m: Map<TracerLevel, bool>) -> Seq<(TracerLevel, bool)> {
    entry_of(m, TracerLevel::Error) + entry_of(m, TracerLevel::Warn) + entry_of(m, TracerLevel::Info)
        + entry_of(m, TracerLevel::Debug) + entry_of(m, TracerLevel::Trace)
}

/// The records of `s` whose level `m` shows, in their order.
pub open spec fn shown(s: Seq<EventView>, m: Map<TracerLevel, bool>) -> Seq<EventView> {
    s.filter(|e: EventView| shows(m, e.level))
}

/// Which levels a reader of the log wants to see. A level without an entry
/// is hidden.
pub struct LogsState {
    error: Option<bool>,
    warn: Option<bool>,
    info: Option<bool>,
    debug: Option<bool>,
    trace: Option<bool>,
}

impl LogsState {
    closed spec fn slot(&self, l: TracerLevel) -> Option<bool> {
        match l {
            TracerLevel::Error => self.error,
            TracerLevel::Warn => self.warn,
            TracerLevel::Info => self.info,
            TracerLevel::Debug => self.debug,
            TracerLevel::Trace => self.trace,
        }
    }
}

impl View for LogsState {
    type V = Map<TracerLevel, bool>;

    closed spec fn view(&self) -> Map<TracerLevel, bool> {
        Map::new(|l: TracerLevel| self.slot(l) is Some, |l: TracerLevel| self.slot(l)->0)
    }
}

impl LogsState {
    /// A state with no entry: every level hidden.
    pub fn empty() -> (r: LogsState)
        ensures
            r@ == Map::<TracerLevel, bool>::empty(),
    {
        let r = LogsState { error: None, warn: None, info: None, debug: None, trace: None };
        assert(r@ =~= Map::<TracerLevel, bool>::empty());
        r
    }

    fn entry(&self, level: TracerLevel) -> (r: Option<bool>)
        ensures
            r == (if self@.contains_key(level) {
                Some(self@[level])
            } else {
                None
            }),
    {
        match level {
            TracerLevel::Error => self.error,
            TracerLevel::Warn => self.warn,
            TracerLevel::Info => self.info,
            TracerLevel::Debug => self.debug,
            TracerLevel::Trace => self.trace,
        }
    }

    /// Whether events at `level` are shown.
    pub fn is_visible(&self, level: TracerLevel) -> (r: bool)
        ensures
            r == shows(self@, level),
    {
        match self.entry(level) {
            Some(v) => v,
            None => false,
        }
    }

    /// Gives `level` the entry `visible`.
    pub fn set_visible(&mut self, level: TracerLevel, visible: bool)
        ensures
            final(self)@ == old(self)@.insert(level, visible),
    {
        match level {
            TracerLevel::Error => self.error = Some(visible),
            TracerLevel::Warn => self.warn = Some(visible),
            TracerLevel::Info => self.info = Some(visible),
            TracerLevel::Debug => self.debug = Some(visible),
            TracerLevel::Trace => self.trace = Some(visible),
        }
        assert(self@ =~= old(self)@.insert(level, visible));
    }

    /// Shows `level` if it was hidden, and hides it if it was shown.
    pub fn toggle(&mut self, level: TracerLevel)
        ensures
            final(self)@ == old(self)@.insert(level, !shows(old(self)@, level)),
    {
        let now = self.is_visible(level);
        self.set_visible(level, !now);
    }

    /// The levels that have an entry, with it, from most to least severe.
    pub fn entries(&self) -> (r: Vec<(TracerLevel, bool)>)
        ensures
            r@ == ordered_entries(self@),
    {
        let mut r: Vec<(TracerLevel, bool)> = Vec::new();
        if let Some(v) = self.error {
            r.push((TracerLevel::Error, v));
        }
        if let Some(v) = self.warn {
            r.push((TracerLevel::Warn, v));
        }
        if let Some(v) = self.info {
            r.push((TracerLevel::Info, v));
        }
        if let Some(v) = self.debug {
            r.push((TracerLevel::Debug, v));
        }
        if let Some(v) = self.trace {
            r.push((TracerLevel::Trace, v));
        }
        assert(r@ =~= ordered_entries(self@));
        r
    }
}

impl Default for LogsState {
    /// Error, Warn and Info shown, Debug hidden, Trace without an entry.
    fn default() -> (r: LogsState)
        ensures
            r@ == map![
                TracerLevel::Error => true,
                TracerLevel::Warn => true,
                TracerLevel::Info => true,
                TracerLevel::Debug => false,
            ],
            shows(r@, TracerLevel::Error),
            shows(r@, TracerLevel::Warn),
            shows(r@, TracerLevel::Info),
            !shows(r@, TracerLevel::Debug),
            !shows(r@, TracerLevel::Trace),
    {
        let r = LogsState {
            error: Some(true),
            warn: Some(true),
            info: Some(true),
            debug: Some(false),
            trace: None,
        };
        assert(r@ =~= map![
            TracerLevel::Error => true,
            TracerLevel::Warn => true,
            TracerLevel::Info => true,
            TracerLevel::Debug => false,
        ]);
        r
    }
}

/// The records of `events` whose level `state` shows, in their order.
pub fn visible_events(events: &Vec<CollectedEvent>, state: &LogsState) -> (r: Vec<CollectedEvent>)
    requires
        forall|i: int| 0 <= i < events@.len() ==> (#[trigger] events@[i]).wf(),
    ensures
        views(r@) == shown(views(events@), state@),
        forall|i: int| 0 <= i < r@.len() ==> (#[trigger] r@[i]).wf(),
{
    let ghost p = |e: EventView| shows(state@, e.level);
    let mut out: Vec<CollectedEvent> = Vec::new();
    let mut i: usize = 0;
    while i < events.len()
        invariant
            forall|j: int| 0 <= j < events@.len() ==> (#[trigger] events@[j]).wf(),
            forall|j: int| 0 <= j < out@.len() ==> (#[trigger] out@[j]).wf(),
            p == (|e: EventView| shows(state@, e.level)),
            i <= events@.len(),
            views(out@) == views(events@.subrange(0, i as int)).filter(p),
        decreases events@.len() - i,
    {
        let ghost before = views(events@.subrange(0, i as int));
        let ghost after = views(events@.subrange(0, i as int + 1));
        assert(after.drop_last() =~= before);
        assert(after.last() == events@[i as int]@);
        let e = &events[i];
        let ghost ev = events@[i as int]@;
        assert(after.len() > 0);
        proof {
            reveal(Seq::filter);
        }
        assert(after.filter(p) == (if p(ev) {
            before.filter(p).push(ev)
        } else {
            before.filter(p)
        }));
        let ghost out_before = out@;
        if state.is_visible(e.level()) {
            out.push(e.duplicate());
            assert(views(out@) =~= views(out_before).push(ev));
        }
        i = i + 1;
    }
    assert(events@.subrange(0, events@.len() as int) =~= events@);
    out
}

/// Turning a level's visibility on or off changes which records of one
/// unchanged snapshot are shown, and of those only the ones at that level.
pub proof fn lemma_toggle_reshapes_view(s: Seq<EventView>, m: Map<TracerLevel, bool>, l: TracerLevel)
    ensures
        shown(s, m.insert(l, !shows(m, l))) == s.filter(
            |e: EventView|
                if e.level == l {
                    !shows(m, l)
                } else {
                    shows(m, e.level)
                },
        ),
{
    let m2 = m.insert(l, !shows(m, l));
    let p1 = |e: EventView| shows(m2, e.level);
    let p2 = |e: EventView|
        if e.level == l {
            !shows(m, l)
        } else {
            shows(m, e.level)
        };
    assert(p1 =~= p2);
}

/// Filtering twice keeps what both tests keep.
pub proof fn lemma_filter_filter(s: Seq<EventView>, p: spec_fn(EventView) -> bool, q: spec_fn(
    EventView,
) -> bool)
    ensures
        s.filter(p).filter(q) == s.filter(|e: EventView| p(e) && q(e)),
    decreases s.len(),
{
    reveal(Seq::filter);
    let pq = |e: EventView| p(e) && q(e);
    if s.len() > 0 {
        lemma_filter_filter(s.drop_last(), p, q);
        let sp = s.drop_last().filter(p);
        if p(s.last()) {
            assert(sp.push(s.last()).drop_last() =~= sp);
        }
    }
}

/// When a hidden level `l` is turned on, the next read of an unchanged
/// snapshot shows what the first read showed, with exactly the snapshot's
/// records at level `l` added among them: leaving those out gives back the
/// first read, and those at level `l` are all of the snapshot's.
pub proof fn lemma_show_hidden_level(s: Seq<EventView>, m: Map<TracerLevel, bool>, l: TracerLevel)
    requires
        !shows(m, l),
    ensures
        shown(s, m.insert(l, !shows(m, l))).filter(|e: EventView| e.level != l) == shown(s, m),
        shown(s, m.insert(l, !shows(m, l))).filter(|e: EventView| e.level == l) == s.filter(
            |e: EventView| e.level == l,
        ),
{
    let m2 = m.insert(l, !shows(m, l));
    let p1 = |e: EventView| shows(m, e.level);
    let p2 = |e: EventView| shows(m2, e.level);
    let ne = |e: EventView| e.level != l;
    let eq = |e: EventView| e.level == l;
    lemma_filter_filter(s, p2, ne);
    lemma_filter_filter(s, p2, eq);
    assert((|e: EventView| p2(e) && ne(e)) =~= p1);
    assert((|e: EventView| p2(e) && eq(e)) =~= eq);
}

} // verus!
