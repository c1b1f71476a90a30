//! A map from strings to strings: the values a console command template may
//! refer to, by name.
use vstd::prelude::*;

verus! {

/// A map from strings to strings, held as its entries with distinct keys.
#[derive(Debug)]
pub struct StringMap {
    entries: Vec<(String, String)>,
}

/// The map that a sequence of entries stands for; a later entry wins.
pub open spec fn entries_map(s: Seq<(String, String)>) -> Map<Seq<char>, Seq<char>>
    decreases s.len(),
{
    if s.len() == 0 {
        Map::empty()
    } else {
        entries_map(s.drop_last()).insert(s.last().0@, s.last().1@)
    }
}

/// No two entries have keys with the same characters.
pub open spec fn distinct_string_keys(s: Seq<(String, String)>) -> bool {
    forall|i: int, j: int| 0 <= i < j < s.len() ==> (#[trigger] s[i]).0@ != (#[trigger] s[j]).0@
}

proof fn lemma_entries_map(s: Seq<(String, String)>)
    requires
        distinct_string_keys(s),
    ensures
        forall|k: Seq<char>| #[trigger] entries_map(s).dom().contains(k) <==> exists|i: int| 0 <= i < s.len() && s[i].0@ == k,
        forall|i: int| 0 <= i < s.len() ==> entries_map(s)[#[trigger] s[i].0@] == s[i].1@,
        entries_map(s).dom().finite(),
    decreases s.len(),
{
    if s.len() > 0 {
        let d = s.drop_last();
        assert(distinct_string_keys(d)) by {
            assert forall|i: int, j: int| 0 <= i < j < d.len() implies (#[trigger] d[i]).0@ != (#[trigger] d[j]).0@ by {
                assert(d[i] == s[i] && d[j] == s[j]);
            }
        }
        lemma_entries_map(d);
        assert forall|k: Seq<char>| #[trigger] entries_map(s).dom().contains(k) <==> exists|i: int| 0 <= i < s.len() && s[i].0@ == k by {
            if entries_map(s).dom().contains(k) && k != s.last().0@ {
                let i = choose|i: int| 0 <= i < d.len() && d[i].0@ == k;
                assert(s[i] == d[i]);
            }
            if exists|i: int| 0 <= i < s.len() && s[i].0@ == k {
                let i = choose|i: int| 0 <= i < s.len() && s[i].0@ == k;
                if i < d.len() {
                    assert(s[i] == d[i]);
                }
            }
        }
        assert forall|i: int| 0 <= i < s.len() implies entries_map(s)[#[trigger] s[i].0@] == s[i].1@ by {
            if i < d.len() {
                assert(s[i] == d[i]);
                assert(s[i].0@ != s[s.len() - 1].0@);
            }
        }
    }
}

proof fn lemma_entries_map_update(s: Seq<(String, String)>, i: int, v: String)
    requires
        distinct_string_keys(s),
        0 <= i < s.len(),
    ensures
        entries_map(s.update(i, (s[i].0, v))) == entries_map(s).insert(s[i].0@, v@),
        distinct_string_keys(s.update(i, (s[i].0, v))),
{
    let t = s.update(i, (s[i].0, v));
    assert(distinct_string_keys(t)) by {
        assert forall|a: int, b: int| 0 <= a < b < t.len() implies (#[trigger] t[a]).0@ != (#[trigger] t[b]).0@ by {
            assert(t[a].0 == s[a].0 && t[b].0 == s[b].0);
        }
    }
    lemma_entries_map(s);
    lemma_entries_map(t);
    assert forall|k: Seq<char>| #[trigger] entries_map(t).dom().contains(k) <==> entries_map(s).insert(s[i].0@, v@).dom().contains(k) by {
        if entries_map(t).dom().contains(k) {
            let j = choose|j: int| 0 <= j < t.len() && t[j].0@ == k;
            assert(t[j].0 == s[j].0);
        }
        if entries_map(s).dom().contains(k) {
            let j = choose|j: int| 0 <= j < s.len() && s[j].0@ == k;
            assert(t[j].0 == s[j].0);
        }
    }
    assert forall|k: Seq<char>| #[trigger] entries_map(t).dom().contains(k) implies entries_map(t)[k] == entries_map(s).insert(s[i].0@, v@)[k] by {
        let j = choose|j: int| 0 <= j < t.len() && t[j].0@ == k;
        assert(t[j].0 == s[j].0);
        if j != i {
            assert(t[j] == s[j]);
        }
    }
    assert(entries_map(t) =~= entries_map(s).insert(s[i].0@, v@));
}

impl View for StringMap {
    type V = Map<Seq<char>, Seq<char>>;

    closed spec fn view(&self) -> Map<Seq<char>, Seq<char>> {
        entries_map(self.entries@)
    }
}

impl StringMap {
    #[verifier::type_invariant]
    closed spec fn inv(self) -> bool {
        distinct_string_keys(self.entries@)
    }

    /// The empty map.
    pub fn new() -> (r: StringMap)
        ensures
            r@ == Map::<Seq<char>, Seq<char>>::empty(),
    {
        StringMap { entries: Vec::new() }
    }

    fn position(&self, key: &str) -> (r: Option<usize>)
        ensures
            r matches Some(i) ==> i < self.entries@.len() && self.entries@[i as int].0@ == key@,
            r is None ==> forall|i: int| 0 <= i < self.entries@.len() ==> (#[trigger] self.entries@[i]).0@ != key@,
    {
        let mut i: usize = 0;
        while i < self.entries.len()
            invariant
                i <= self.entries@.len(),
                forall|j: int| 0 <= j < i ==> (#[trigger] self.entries@[j]).0@ != key@,
            decreases self.entries@.len() - i,
        {
            if str_eq(self.entries[i].0.as_str(), key) {
                return Some(i);
            }
            i = i + 1;
        }
        None
    }

    /// Sets the value of a key, adding the key if it is absent.
    pub fn insert(&mut self, key: String, value: String)
        ensures
            final(self)@ == old(self)@.insert(key@, value@),
    {
        proof {
            use_type_invariant(&*self);
        }
        match self.position(key.as_str()) {
            Some(i) => {
                let ghost s = self.entries@;
                proof {
                    lemma_entries_map_update(s, i as int, value);
                }
                let old_key = self.entries[i].0.clone();
                let mut entries: Vec<(String, String)> = Vec::new();
                std::mem::swap(&mut entries, &mut self.entries);
                entries.set(i, (old_key, value));
                self.entries = entries;
            },
            None => {
                let ghost s = self.entries@;
                let mut entries: Vec<(String, String)> = Vec::new();
                std::mem::swap(&mut entries, &mut self.entries);
                entries.push((key, value));
                assert(entries@.drop_last() == s);
                self.entries = entries;
            },
        }
    }

    /// The value of a key.
    pub fn get(&self, key: &str) -> (r: Option<&String>)
        ensures
            r is Some <==> self@.dom().contains(key@),
            r matches Some(v) ==> v@ == self@[key@],
    {
        proof {
            use_type_invariant(self);
            lemma_entries_map(self.entries@);
        }
        match self.position(key) {
            Some(i) => Some(&self.entries[i].1),
            None => None,
        }
    }

    /// The entries, in the order the keys were first set.
    pub fn into_pairs(self) -> (r: Vec<(String, String)>)
        ensures
            entries_map(r@) == self@,
            distinct_string_keys(r@),
    {
        proof {
            use_type_invariant(&self);
        }
        self.entries
    }
}

/// Whether two string slices hold the same characters.
pub fn str_eq(a: &str, b: &str) -> (r: bool)
    ensures
        r == (a@ == b@),
{
    let n = a.unicode_len();
    if n != b.unicode_len() {
        return false;
    }
    let mut i: usize = 0;
    while i < n
        invariant
            i <= n,
            n == a@.len(),
            n == b@.len(),
            forall|j: int| 0 <= j < i ==> a@[j] == b@[j],
        decreases n - i,
    {
        if a.get_char(i) != b.get_char(i) {
            return false;
        }
        i = i + 1;
    }
    assert(a@ =~= b@);
    true
}

} // verus!
