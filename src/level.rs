use vstd::prelude::*;

use crate::text::same_chars;

verus! {

/// Severity of an event, ordered from most severe (`Error`) to least (`Trace`).
#[derive(Clone, Copy, Debug, PartialEq, Eq, Structural, Hash, PartialOrd, Ord)]
pub enum TracerLevel {
    Error,
    Warn,
    Info,
    Debug,
    Trace,
}

/// Position of a level in the severity order: smaller is more severe.
pub open spec fn rank(l: TracerLevel) -> nat {
    match l {
        TracerLevel::Error => 0,
        TracerLevel::Warn => 1,
        TracerLevel::Info => 2,
        TracerLevel::Debug => 3,
        TracerLevel::Trace => 4,
    }
}

/// `a` is at least as severe as `b`.
pub open spec fn at_least_as_severe(a: TracerLevel, b: TracerLevel) -> bool {
    rank(a) <= rank(b)
}

/// The upper-case name under which a level is shown.
pub open spec fn level_name(l: TracerLevel) -> Seq<char> {
    match l {
        TracerLevel::Error => seq!['E', 'R', 'R', 'O', 'R'],
        TracerLevel::Warn => seq!['W', 'A', 'R', 'N'],
        TracerLevel::Info => seq!['I', 'N', 'F', 'O'],
        TracerLevel::Debug => seq!['D', 'E', 'B', 'U', 'G'],
        TracerLevel::Trace => seq!['T', 'R', 'A', 'C', 'E'],
    }
}

#[verifier::external_type_specification]
#[verifier::external_body]
pub struct ExNativeLevel(tracing::Level);

/// The name that tracing gives a level of its own.
pub uninterp spec fn native_name(level: tracing::Level) -> Seq<char>;

/// Relies on tracing's `Level::as_str`: the result depends on the level
/// alone, and each of its five levels is named by its upper-case name.
pub assume_specification[ tracing::Level::as_str ](level: &tracing::Level) -> (r: &'static str)
    ensures
        r@ == native_name(*level),
        exists|l: TracerLevel| r@ == level_name(l),
;

impl TracerLevel {
    /// Index of the level in the severity order.
    pub fn rank(&self) -> (r: u8)
        ensures
            r as nat == rank(*self),
    {
        match self {
            TracerLevel::Error => 0,
            TracerLevel::Warn => 1,
            TracerLevel::Info => 2,
            TracerLevel::Debug => 3,
            TracerLevel::Trace => 4,
        }
    }

    /// Whether this level is at least as severe as `other`.
    pub fn at_least_as_severe(&self, other: &TracerLevel) -> (r: bool)
        ensures
            r == at_least_as_severe(*self, *other),
    {
        self.rank() <= other.rank()
    }

    /// The upper-case name of the level, such as `"ERROR"`.
    pub fn name(&self) -> (r: &'static str)
        ensures
            r@ == level_name(*self),
    {
        match self {
            TracerLevel::Error => {
                proof {
                    reveal_strlit("ERROR");
                }
                "ERROR"
            },
            TracerLevel::Warn => {
                proof {
                    reveal_strlit("WARN");
                }
                "WARN"
            },
            TracerLevel::Info => {
                proof {
                    reveal_strlit("INFO");
                }
                "INFO"
            },
            TracerLevel::Debug => {
                proof {
                    reveal_strlit("DEBUG");
                }
                "DEBUG"
            },
            TracerLevel::Trace => {
                proof {
                    reveal_strlit("TRACE");
                }
                "TRACE"
            },
        }
    }

    /// The level whose name is `s`, if there is one.
    pub fn from_name(s: &str) -> (r: Option<TracerLevel>)
        ensures
            r matches Some(l) ==> level_name(l) == s@,
            r is None <==> (forall|l: TracerLevel| level_name(l) != s@),
    {
        let all = [
            TracerLevel::Error,
            TracerLevel::Warn,
            TracerLevel::Info,
            TracerLevel::Debug,
            TracerLevel::Trace,
        ];
        let mut i: usize = 0;
        while i < 5
            invariant
                i <= 5,
                all@ == seq![
                    TracerLevel::Error,
                    TracerLevel::Warn,
                    TracerLevel::Info,
                    TracerLevel::Debug,
                    TracerLevel::Trace,
                ],
                forall|j: int| 0 <= j < i ==> level_name(all@[j]) != s@,
            decreases 5 - i,
        {
            let l = all[i];
            if same_chars(l.name(), s) {
                return Some(l);
            }
            i = i + 1;
        }
        assert forall|l: TracerLevel| level_name(l) != s@ by {
            match l {
                TracerLevel::Error => assert(level_name(all@[0]) != s@),
                TracerLevel::Warn => assert(level_name(all@[1]) != s@),
                TracerLevel::Info => assert(level_name(all@[2]) != s@),
                TracerLevel::Debug => assert(level_name(all@[3]) != s@),
                TracerLevel::Trace => assert(level_name(all@[4]) != s@),
            }
        }
        None
    }

    /// The level of an event reported by `tracing`; each of its five levels
    /// maps to the level of the same name.
    pub fn from_native(level: &tracing::Level) -> (r: TracerLevel)
        ensures
            level_name(r) == native_name(*level),
    {
        let name = level.as_str();
        let parsed = TracerLevel::from_name(name);
        assert(parsed is Some);
        match parsed {
            Some(l) => l,
            None => TracerLevel::Info,
        }
    }
}

impl Default for TracerLevel {
    fn default() -> (r: TracerLevel)
        ensures
            r == TracerLevel::Info,
    {
        TracerLevel::Info
    }
}

} // verus!
