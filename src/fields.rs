use vstd::prelude::*;

use crate::text::same_chars;

verus! {

/// No name occurs twice among the pairs.
pub open spec fn unique_names(s: Seq<(String, String)>) -> bool {
    forall|i: int, j: int| 0 <= i < s.len() && 0 <= j < s.len() && i != j ==> s[i].0@ != s[j].0@
}

/// Some pair of `s` is named `k`.
pub open spec fn has_name(s: Seq<(String, String)>, k: Seq<char>) -> bool {
    exists|i: int| 0 <= i < s.len() && #[trigger] s[i].0@ == k
}

/// The pairs read as a map from name to value.
pub open spec fn as_map(s: Seq<(String, String)>) -> Map<Seq<char>, Seq<char>> {
    Map::new(
        |k: Seq<char>| has_name(s, k),
        |k: Seq<char>| s[choose|i: int| 0 <= i < s.len() && #[trigger] s[i].0@ == k].1@,
    )
}

proof fn lemma_as_map_at(s: Seq<(String, String)>, i: int)
    requires
        unique_names(s),
        0 <= i < s.len(),
    ensures
        as_map(s).contains_key(s[i].0@),
        as_map(s)[s[i].0@] == s[i].1@,
{
    let k = s[i].0@;
    assert(has_name(s, k));
    let c = choose|c: int| 0 <= c < s.len() && #[trigger] s[c].0@ == k;
    assert(c == i);
}

/// The fields of an event: values keyed by field name, each name once.
pub struct Fields {
    entries: Vec<(String, String)>,
}

impl View for Fields {
    type V = Map<Seq<char>, Seq<char>>;

    closed spec fn view(&self) -> Map<Seq<char>, Seq<char>> {
        as_map(self.entries@)
    }
}

impl Fields {
    /// Each name occurs once.
    pub closed spec fn wf(&self) -> bool {
        unique_names(self.entries@)
    }

    /// A set of fields with no entry.
    pub fn new() -> (r: Fields)
        ensures
            r.wf(),
            r@ == Map::<Seq<char>, Seq<char>>::empty(),
    {
        let r = Fields { entries: Vec::new() };
        assert(r@ =~= Map::<Seq<char>, Seq<char>>::empty());
        r
    }

    fn position(&self, name: &str) -> (r: Option<usize>)
        ensures
            r matches Some(i) ==> i < self.entries@.len() && self.entries@[i as int].0@ == name@,
            r is None ==> !has_name(self.entries@, name@),
    {
        let mut i: usize = 0;
        while i < self.entries.len()
            invariant
                i <= self.entries@.len(),
                forall|j: int| 0 <= j < i ==> self.entries@[j].0@ != name@,
            decreases self.entries@.len() - i,
        {
            if same_chars(self.entries[i].0.as_str(), name) {
                return Some(i);
            }
            i = i + 1;
        }
        None
    }

    /// The value recorded under `name`, if any.
    pub fn get(&self, name: &str) -> (r: Option<&String>)
        requires
            self.wf(),
        ensures
            r is Some <==> self@.contains_key(name@),
            r matches Some(v) ==> v@ == self@[name@],
    {
        match self.position(name) {
            Some(i) => {
                proof {
                    lemma_as_map_at(self.entries@, i as int);
                }
                Some(&self.entries[i].1)
            },
            None => None,
        }
    }

    /// Records `value` under `name`, replacing any earlier value of that name.
    pub fn insert(&mut self, name: String, value: String)
        requires
            old(self).wf(),
        ensures
            final(self).wf(),
            final(self)@ == old(self)@.insert(name@, value@),
    {
        let ghost old_entries = self.entries@;
        match self.position(name.as_str()) {
            Some(i) => {
                let ghost new_entries = old_entries.update(i as int, (name, value));
                assert(unique_names(new_entries));
                proof {
                    assert forall|k: Seq<char>| has_name(new_entries, k) <==> has_name(
                        old_entries,
                        k,
                    ) by {
                        if has_name(old_entries, k) {
                            let c = choose|c: int|
                                0 <= c < old_entries.len() && #[trigger] old_entries[c].0@ == k;
                            assert(new_entries[c].0@ == k);
                        }
                        if has_name(new_entries, k) {
                            let c = choose|c: int|
                                0 <= c < new_entries.len() && #[trigger] new_entries[c].0@ == k;
                            assert(old_entries[c].0@ == k);
                        }
                    }
                    assert forall|k: Seq<char>| #[trigger]
                        as_map(new_entries).contains_key(k) implies as_map(new_entries)[k]
                        == as_map(old_entries).insert(name@, value@)[k] by {
                        let c = choose|c: int|
                            0 <= c < new_entries.len() && #[trigger] new_entries[c].0@ == k;
                        lemma_as_map_at(new_entries, c);
                        if c != i {
                            lemma_as_map_at(old_entries, c);
                        }
                    }
                    lemma_as_map_at(new_entries, i as int);
                    assert(as_map(new_entries) =~= as_map(old_entries).insert(name@, value@));
                }
                self.entries.set(i, (name, value));
                assert(self.entries@ == new_entries);
            },
            None => {
                let ghost new_entries = old_entries.push((name, value));
                assert(unique_names(new_entries));
                proof {
                    assert forall|k: Seq<char>| #[trigger]
                        as_map(new_entries).contains_key(k) implies as_map(new_entries)[k]
                        == as_map(old_entries).insert(name@, value@)[k] by {
                        let c = choose|c: int|
                            0 <= c < new_entries.len() && #[trigger] new_entries[c].0@ == k;
                        lemma_as_map_at(new_entries, c);
                        if c != old_entries.len() {
                            lemma_as_map_at(old_entries, c);
                        }
                    }
                    assert forall|k: Seq<char>|
                        as_map(old_entries).insert(name@, value@).contains_key(k) implies #[trigger]
                        has_name(new_entries, k) by {
                        if k == name@ {
                            assert(new_entries[old_entries.len() as int].0@ == k);
                        } else {
                            let c = choose|c: int|
                                0 <= c < old_entries.len() && #[trigger] old_entries[c].0@ == k;
                            assert(new_entries[c].0@ == k);
                        }
                    }
                    assert(as_map(new_entries) =~= as_map(old_entries).insert(name@, value@));
                }
                self.entries.push((name, value));
                assert(self.entries@ == new_entries);
            },
        }
    }

    /// An equal set of fields.
    pub fn duplicate(&self) -> (r: Fields)
        requires
            self.wf(),
        ensures
            r.wf(),
            r@ == self@,
    {
        let mut entries: Vec<(String, String)> = Vec::new();
        let mut i: usize = 0;
        while i < self.entries.len()
            invariant
                i <= self.entries@.len(),
                entries@.len() == i,
                forall|j: int|
                    0 <= j < i ==> #[trigger] entries@[j].0@ == self.entries@[j].0@
                        && entries@[j].1@ == self.entries@[j].1@,
            decreases self.entries@.len() - i,
        {
            let pair = (self.entries[i].0.clone(), self.entries[i].1.clone());
            entries.push(pair);
            i = i + 1;
        }
        let ghost a = entries@;
        let ghost b = self.entries@;
        assert(unique_names(a));
        assert forall|k: Seq<char>| has_name(a, k) <==> has_name(b, k) by {
            if has_name(a, k) {
                let c = choose|c: int| 0 <= c < a.len() && #[trigger] a[c].0@ == k;
                assert(b[c].0@ == k);
            }
            if has_name(b, k) {
                let c = choose|c: int| 0 <= c < b.len() && #[trigger] b[c].0@ == k;
                assert(a[c].0@ == k);
            }
        }
        assert forall|k: Seq<char>| #[trigger] as_map(a).contains_key(k) implies as_map(a)[k]
            == as_map(b)[k] by {
            let c = choose|c: int| 0 <= c < a.len() && #[trigger] a[c].0@ == k;
            lemma_as_map_at(a, c);
            lemma_as_map_at(b, c);
        }
        assert(as_map(a) =~= as_map(b));
        Fields { entries }
    }
}

} // verus!
