//! The user's answers to a template's questions: a map from question name
//! to answer text.
use vstd::prelude::*;
use crate::text::str_eq;

verus! {

/// Name and answer, as seen by the contracts.
pub type PairView = (Seq<char>, Seq<char>);

/// The names and answers of `s`.
pub open spec fn pair_views(s: Seq<(String, String)>) -> Seq<PairView> {
    s.map_values(|p: (String, String)| (p.0@, p.1@))
}

/// No name occurs twice in `s`.
pub open spec fn keys_distinct(s: Seq<PairView>) -> bool {
    forall|i: int, j: int| 0 <= i < j < s.len() ==> #[trigger] s[i].0 != #[trigger] s[j].0
}

/// Whether some entry of `s` has the name `k`.
pub open spec fn has_key(s: Seq<PairView>, k: Seq<char>) -> bool {
    exists|i: int| 0 <= i < s.len() && #[trigger] s[i].0 == k
}

/// The answer stored under `k` in `s` (meaningful when `has_key`).
pub open spec fn value_of(s: Seq<PairView>, k: Seq<char>) -> Seq<char> {
    s[choose|i: int| 0 <= i < s.len() && #[trigger] s[i].0 == k].1
}

/// The map that the entries `s` describe.
pub open spec fn entries_map(s: Seq<PairView>) -> Map<Seq<char>, Seq<char>> {
    Map::new(|k: Seq<char>| has_key(s, k), |k: Seq<char>| value_of(s, k))
}

/// In entries with distinct names, the entry at `i` is what the map holds
/// under its name.
proof fn lemma_entry(s: Seq<PairView>, i: int)
    requires
        keys_distinct(s),
        0 <= i < s.len(),
    ensures
        entries_map(s).contains_key(s[i].0),
        entries_map(s)[s[i].0] == s[i].1,
{
    assert(has_key(s, s[i].0));
    let j = choose|j: int| 0 <= j < s.len() && #[trigger] s[j].0 == s[i].0;
    if j != i {
        if j < i {
            assert(s[j].0 != s[i].0);
        } else {
            assert(s[i].0 != s[j].0);
        }
    }
}

/// The answers, by question name.
#[derive(Debug)]
pub struct Answers {
    entries: Vec<(String, String)>,
}

impl View for Answers {
    type V = Map<Seq<char>, Seq<char>>;

    closed spec fn view(&self) -> Map<Seq<char>, Seq<char>> {
        entries_map(pair_views(self.entries@))
    }
}

impl Answers {
    #[verifier::type_invariant]
    spec fn distinct(self) -> bool {
        keys_distinct(pair_views(self.entries@))
    }

    /// The answers as name and answer pairs, each name once.
    pub fn pairs(&self) -> (r: &Vec<(String, String)>)
        ensures
            keys_distinct(pair_views(r@)),
            entries_map(pair_views(r@)) == self@,
    {
        proof {
            use_type_invariant(self);
        }
        &self.entries
    }

    /// No answers.
    pub fn new() -> (r: Answers)
        ensures
            r@ == Map::<Seq<char>, Seq<char>>::empty(),
    {
        let r = Answers { entries: Vec::new() };
        proof {
            assert(r@ =~= Map::<Seq<char>, Seq<char>>::empty());
        }
        r
    }

    /// The position of the answer named `key`.
    fn position(&self, key: &str) -> (r: Option<usize>)
        ensures
            match r {
                None => !self@.contains_key(key@),
                Some(i) => i < self.entries@.len() && self.entries@[i as int].0@ == key@ && self@.contains_key(
                    key@,
                ) && self@[key@] == self.entries@[i as int].1@,
            },
    {
        proof {
            use_type_invariant(self);
        }
        let ghost s = pair_views(self.entries@);
        let mut i: usize = 0;
        while i < self.entries.len()
            invariant
                s == pair_views(self.entries@),
                keys_distinct(s),
                i <= s.len(),
                forall|j: int| 0 <= j < i ==> #[trigger] s[j].0 != key@,
            decreases s.len() - i,
        {
            if str_eq(self.entries[i].0.as_str(), key) {
                proof {
                    assert(s[i as int].0 == key@);
                    lemma_entry(s, i as int);
                }
                return Some(i);
            }
            i = i + 1;
        }
        None
    }

    /// The answer named `key`, if any.
    pub fn get(&self, key: &str) -> (r: Option<&String>)
        ensures
            match r {
                None => !self@.contains_key(key@),
                Some(v) => self@.contains_key(key@) && self@[key@] == v@,
            },
    {
        match self.position(key) {
            Some(i) => Some(&self.entries[i].1),
            None => None,
        }
    }

    /// Whether there is an answer named `key`.
    pub fn contains_key(&self, key: &str) -> (r: bool)
        ensures
            r == self@.contains_key(key@),
    {
        self.position(key).is_some()
    }

    /// Number of answers.
    pub fn len(&self) -> (n: usize)
        ensures
            n == self@.dom().len(),
    {
        proof {
            use_type_invariant(self);
            lemma_dom_len(pair_views(self.entries@));
        }
        self.entries.len()
    }

    /// Sets the answer named `key` to `value`; gives back the answer it
    /// replaces.
    pub fn insert(&mut self, key: String, value: String) -> (r: Option<String>)
        ensures
            final(self)@ == old(self)@.insert(key@, value@),
            match r {
                None => !old(self)@.contains_key(key@),
                Some(v) => old(self)@.contains_key(key@) && old(self)@[key@] == v@,
            },
    {
        proof {
            use_type_invariant(&*self);
        }
        let ghost s = pair_views(self.entries@);
        let ghost kv = key@;
        let ghost vv = value@;
        match self.position(key.as_str()) {
            Some(i) => {
                let mut entries: Vec<(String, String)> = Vec::new();
                std::mem::swap(&mut entries, &mut self.entries);
                let old_value = entries[i].1.clone();
                entries.set(i, (key, value));
                proof {
                    let t = pair_views(entries@);
                    assert(t =~= s.update(i as int, (kv, vv)));
                    assert forall|a: int, b: int| 0 <= a < b < t.len() implies #[trigger] t[a].0 != #[trigger] t[b].0 by {
                        assert(s[a].0 != s[b].0);
                    }
                    assert forall|k: Seq<char>| #[trigger] has_key(t, k) <==> has_key(s, k) || k == kv by {
                        if has_key(t, k) {
                            let j = choose|j: int| 0 <= j < t.len() && #[trigger] t[j].0 == k;
                            if j != i {
                                assert(s[j].0 == k);
                            }
                        }
                        if has_key(s, k) {
                            let j = choose|j: int| 0 <= j < s.len() && #[trigger] s[j].0 == k;
                            assert(t[j].0 == k);
                        }
                        if k == kv {
                            assert(t[i as int].0 == k);
                        }
                    }
                    assert forall|k: Seq<char>| has_key(t, k) implies #[trigger] entries_map(t)[k] == entries_map(
                        s,
                    ).insert(kv, vv)[k] by {
                        let j = choose|j: int| 0 <= j < t.len() && #[trigger] t[j].0 == k;
                        lemma_entry(t, j);
                        if j != i {
                            lemma_entry(s, j);
                            if j < i {
                                assert(s[j].0 != s[i as int].0);
                            } else {
                                assert(s[i as int].0 != s[j].0);
                            }
                        }
                    }
                    assert(entries_map(t) =~= entries_map(s).insert(kv, vv));
                }
                self.entries = entries;
                Some(old_value)
            },
            None => {
                let mut entries: Vec<(String, String)> = Vec::new();
                std::mem::swap(&mut entries, &mut self.entries);
                entries.push((key, value));
                proof {
                    let t = pair_views(entries@);
                    assert(t =~= s.push((kv, vv)));
                    assert(!has_key(s, kv)) by {
                        if has_key(s, kv) {
                            let j = choose|j: int| 0 <= j < s.len() && #[trigger] s[j].0 == kv;
                            lemma_entry(s, j);
                        }
                    }
                    assert forall|a: int, b: int| 0 <= a < b < t.len() implies #[trigger] t[a].0 != #[trigger] t[b].0 by {
                        if b < s.len() {
                            assert(s[a].0 != s[b].0);
                        } else {
                            assert(s[a].0 != kv);
                        }
                    }
                    assert forall|k: Seq<char>| #[trigger] has_key(t, k) <==> has_key(s, k) || k == kv by {
                        if has_key(t, k) {
                            let j = choose|j: int| 0 <= j < t.len() && #[trigger] t[j].0 == k;
                            if j < s.len() {
                                assert(s[j].0 == k);
                            }
                        }
                        if has_key(s, k) {
                            let j = choose|j: int| 0 <= j < s.len() && #[trigger] s[j].0 == k;
                            assert(t[j].0 == k);
                        }
                        if k == kv {
                            assert(t[s.len() as int].0 == k);
                        }
                    }
                    assert forall|k: Seq<char>| has_key(t, k) implies #[trigger] entries_map(t)[k] == entries_map(
                        s,
                    ).insert(kv, vv)[k] by {
                        let j = choose|j: int| 0 <= j < t.len() && #[trigger] t[j].0 == k;
                        lemma_entry(t, j);
                        if j < s.len() {
                            lemma_entry(s, j);
                            assert(s[j].0 != kv) by {
                                if s[j].0 == kv {
                                    assert(has_key(s, kv));
                                }
                            }
                        }
                    }
                    assert(entries_map(t) =~= entries_map(s).insert(kv, vv));
                }
                self.entries = entries;
                None
            },
        }
    }

    /// Removes the answer named `key`; gives it back if there was one.
    pub fn remove(&mut self, key: &str) -> (r: Option<String>)
        ensures
            final(self)@ == old(self)@.remove(key@),
            match r {
                None => !old(self)@.contains_key(key@),
                Some(v) => old(self)@.contains_key(key@) && old(self)@[key@] == v@,
            },
    {
        proof {
            use_type_invariant(&*self);
        }
        let ghost s = pair_views(self.entries@);
        match self.position(key) {
            None => {
                proof {
                    assert(entries_map(s) =~= entries_map(s).remove(key@));
                }
                None
            },
            Some(i) => {
                let mut entries: Vec<(String, String)> = Vec::new();
                std::mem::swap(&mut entries, &mut self.entries);
                let (_k, v) = entries.remove(i);
                proof {
                    let t = pair_views(entries@);
                    assert(t =~= s.remove(i as int));
                    assert forall|a: int, b: int| 0 <= a < b < t.len() implies #[trigger] t[a].0 != #[trigger] t[b].0 by {
                        if b < i {
                            assert(s[a].0 != s[b].0);
                        } else if a < i {
                            assert(s[a].0 != s[b + 1].0);
                        } else {
                            assert(s[a + 1].0 != s[b + 1].0);
                        }
                    }
                    assert forall|k: Seq<char>| #[trigger] has_key(t, k) <==> has_key(s, k) && k != key@ by {
                        if has_key(t, k) {
                            let j = choose|j: int| 0 <= j < t.len() && #[trigger] t[j].0 == k;
                            if j < i {
                                assert(s[j].0 == k);
                                assert(s[j].0 != s[i as int].0);
                            } else {
                                assert(s[j + 1].0 == k);
                                assert(s[i as int].0 != s[j + 1].0);
                            }
                        }
                        if has_key(s, k) && k != key@ {
                            let j = choose|j: int| 0 <= j < s.len() && #[trigger] s[j].0 == k;
                            if j < i {
                                assert(t[j].0 == k);
                            } else {
                                assert(j != i);
                                assert(t[j - 1].0 == k);
                            }
                        }
                    }
                    assert forall|k: Seq<char>| has_key(t, k) implies #[trigger] entries_map(t)[k] == entries_map(
                        s,
                    ).remove(key@)[k] by {
                        let j = choose|j: int| 0 <= j < t.len() && #[trigger] t[j].0 == k;
                        lemma_entry(t, j);
                        if j < i {
                            lemma_entry(s, j);
                        } else {
                            lemma_entry(s, j + 1);
                        }
                    }
                    assert(entries_map(t) =~= entries_map(s).remove(key@));
                }
                self.entries = entries;
                Some(v)
            },
        }
    }
}

/// The map of entries with distinct names has one key per entry.
proof fn lemma_dom_len(s: Seq<PairView>)
    requires
        keys_distinct(s),
    ensures
        entries_map(s).dom().len() == s.len(),
        entries_map(s).dom().finite(),
    decreases s.len(),
{
    if s.len() == 0 {
        assert(entries_map(s).dom() =~= Set::<Seq<char>>::empty());
    } else {
        let d = s.drop_last();
        assert forall|a: int, b: int| 0 <= a < b < d.len() implies #[trigger] d[a].0 != #[trigger] d[b].0 by {
            assert(s[a].0 != s[b].0);
        }
        lemma_dom_len(d);
        assert(!entries_map(d).dom().contains(s.last().0)) by {
            if has_key(d, s.last().0) {
                let j = choose|j: int| 0 <= j < d.len() && #[trigger] d[j].0 == s.last().0;
                assert(s[j].0 != s[s.len() - 1].0);
            }
        }
        assert forall|k: Seq<char>| #[trigger] entries_map(s).dom().contains(k) <==> entries_map(d).dom().insert(
            s.last().0,
        ).contains(k) by {
            if has_key(s, k) {
                let j = choose|j: int| 0 <= j < s.len() && #[trigger] s[j].0 == k;
                if j < d.len() {
                    assert(d[j].0 == k);
                }
            }
            if has_key(d, k) {
                let j = choose|j: int| 0 <= j < d.len() && #[trigger] d[j].0 == k;
                assert(s[j].0 == k);
            }
            if k == s.last().0 {
                assert(s[s.len() - 1].0 == k);
            }
        }
        assert(entries_map(s).dom() =~= entries_map(d).dom().insert(s.last().0));
    }
}

impl Clone for Answers {
    fn clone(&self) -> (r: Answers)
        ensures
            r@ == self@,
    {
        proof {
            use_type_invariant(self);
        }
        let ghost s = pair_views(self.entries@);
        let mut entries: Vec<(String, String)> = Vec::new();
        let mut i: usize = 0;
        while i < self.entries.len()
            invariant
                s == pair_views(self.entries@),
                i <= s.len(),
                pair_views(entries@) == s.take(i as int),
            decreases s.len() - i,
        {
            let k = self.entries[i].0.clone();
            let v = self.entries[i].1.clone();
            let ghost prev = pair_views(entries@);
            entries.push((k, v));
            proof {
                assert(pair_views(entries@) =~= prev.push(s[i as int]));
                assert(s.take(i + 1) =~= s.take(i as int).push(s[i as int]));
            }
            i = i + 1;
        }
        proof {
            assert(s.take(s.len() as int) =~= s);
            assert(keys_distinct(pair_views(entries@)));
        }
        Answers { entries }
    }
}

} // verus!
