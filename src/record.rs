use vstd::prelude::*;

use crate::fields::Fields;
use crate::level::TracerLevel;

verus! {

/// An instant: nanoseconds since the Unix epoch, and the offset from UTC in
/// seconds of the zone it was read in.
#[derive(Clone, Copy, Debug, PartialEq, Eq, Structural)]
pub struct Timestamp {
    pub unix_nanos: i128,
    pub offset_seconds: i32,
}

/// Relies on time's `OffsetDateTime::now_local`: the current instant in the
/// local offset, or nothing when that offset cannot be determined.
#[verifier::external_body]
fn local_now() -> (r: Option<Timestamp>) {
    match time::OffsetDateTime::now_local() {
        Ok(t) => Some(Timestamp { unix_nanos: t.unix_timestamp_nanos(), offset_seconds: t.offset().whole_seconds() }),
        Err(_) => None,
    }
}

/// Relies on time's `OffsetDateTime::now_utc`: the current instant, at offset zero.
#[verifier::external_body]
fn utc_now() -> (r: Timestamp)
    ensures
        r.offset_seconds == 0,
{
    let t = time::OffsetDateTime::now_utc();
    Timestamp { unix_nanos: t.unix_timestamp_nanos(), offset_seconds: t.offset().whole_seconds() }
}

/// The current instant, in the local offset where it is known and in UTC otherwise.
pub fn capture_time() -> Timestamp {
    match local_now() {
        Some(t) => t,
        None => utc_now(),
    }
}

/// What a record holds: its source namespace, level, fields and capture time.
pub struct EventView {
    pub target: Seq<char>,
    pub level: TracerLevel,
    pub fields: Map<Seq<char>, Seq<char>>,
    pub time: Timestamp,
}

/// Name of the field that carries an event's text.
pub open spec fn message_key() -> Seq<char> {
    seq!['m', 'e', 's', 's', 'a', 'g', 'e']
}

/// One captured event. It is not changed after it is made.
pub struct CollectedEvent {
    target: String,
    level: TracerLevel,
    fields: Fields,
    time: Timestamp,
}

impl View for CollectedEvent {
    type V = EventView;

    closed spec fn view(&self) -> EventView {
        EventView {
            target: self.target@,
            level: self.level,
            fields: self.fields@,
            time: self.time,
        }
    }
}

impl CollectedEvent {
    /// Its fields are well formed.
    pub closed spec fn wf(&self) -> bool {
        self.fields.wf()
    }

    /// A record of an event seen at `time`.
    pub fn with_time(target: String, level: TracerLevel, fields: Fields, time: Timestamp) -> (r:
        CollectedEvent)
        requires
            fields.wf(),
        ensures
            r.wf(),
            r@ == (EventView { target: target@, level, fields: fields@, time }),
    {
        CollectedEvent { target, level, fields, time }
    }

    /// A record of an event seen now.
    pub fn new(target: String, level: TracerLevel, fields: Fields) -> (r: CollectedEvent)
        requires
            fields.wf(),
        ensures
            r.wf(),
            r@.target == target@,
            r@.level == level,
            r@.fields == fields@,
    {
        let time = capture_time();
        CollectedEvent { target, level, fields, time }
    }

    /// The namespace of the code that emitted the event.
    pub fn target(&self) -> (r: &String)
        ensures
            r@ == self@.target,
    {
        &self.target
    }

    pub fn level(&self) -> (r: TracerLevel)
        ensures
            r == self@.level,
    {
        self.level
    }

    pub fn fields(&self) -> (r: &Fields)
        ensures
            r@ == self@.fields,
            self.wf() ==> r.wf(),
    {
        &self.fields
    }

    pub fn time(&self) -> (r: Timestamp)
        ensures
            r == self@.time,
    {
        self.time
    }

    /// The `message` field, which carries the event's text, if it was given.
    pub fn message(&self) -> (r: Option<&String>)
        requires
            self.wf(),
        ensures
            r is Some <==> self@.fields.contains_key(message_key()),
            r matches Some(v) ==> v@ == self@.fields[message_key()],
    {
        proof {
            reveal_strlit("message");
        }
        assert("message"@ =~= message_key());
        self.fields.get("message")
    }

    /// An equal record.
    pub fn duplicate(&self) -> (r: CollectedEvent)
        requires
            self.wf(),
        ensures
            r.wf(),
            r@ == self@,
    {
        CollectedEvent {
            target: self.target.clone(),
            level: self.level,
            fields: self.fields.duplicate(),
            time: self.time,
        }
    }
}

} // verus!
