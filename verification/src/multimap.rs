//! An insertion-ordered mapping from a string to a sequence of strings,
//! the shape of both HTTP headers and query parameters.

use vstd::prelude::*;

verus! {

/// The texts of a sequence of strings.
pub open spec fn texts(v: Seq<String>) -> Seq<Seq<char>> {
    Seq::new(v.len(), |i: int| v[i]@)
}

/// No key stands at two positions.
pub open spec fn distinct_keys(m: Seq<(Seq<char>, Seq<Seq<char>>)>) -> bool {
    forall|i: int, j: int| 0 <= i < j < m.len() ==> (#[trigger] m[i]).0 != (#[trigger] m[j]).0
}

/// Some entry of `m` has the key `k`.
pub open spec fn has_key(m: Seq<(Seq<char>, Seq<Seq<char>>)>, k: Seq<char>) -> bool {
    exists|i: int| 0 <= i < m.len() && (#[trigger] m[i]).0 == k
}

/// The position of the entry with key `k`, where there is one.
pub open spec fn key_position(m: Seq<(Seq<char>, Seq<Seq<char>>)>, k: Seq<char>) -> int {
    choose|i: int| 0 <= i < m.len() && (#[trigger] m[i]).0 == k
}

/// The values recorded under `k`, in the order in which they were added.
pub open spec fn values_of(m: Seq<(Seq<char>, Seq<Seq<char>>)>, k: Seq<char>) -> Option<
    Seq<Seq<char>>,
> {
    if has_key(m, k) {
        Some(m[key_position(m, k)].1)
    } else {
        None
    }
}

/// `m` after one more value `v` was recorded under `k`: a known key keeps its
/// place and gains the value at the end, a new key goes to the end.
pub open spec fn with_value(m: Seq<(Seq<char>, Seq<Seq<char>>)>, k: Seq<char>, v: Seq<char>) -> Seq<
    (Seq<char>, Seq<Seq<char>>),
> {
    if has_key(m, k) {
        let i = key_position(m, k);
        m.update(i, (k, m[i].1.push(v)))
    } else {
        m.push((k, seq![v]))
    }
}

/// `m` after the values under `k` were replaced by `vs`.
pub open spec fn with_values(
    m: Seq<(Seq<char>, Seq<Seq<char>>)>,
    k: Seq<char>,
    vs: Seq<Seq<char>>,
) -> Seq<(Seq<char>, Seq<Seq<char>>)> {
    if has_key(m, k) {
        m.update(key_position(m, k), (k, vs))
    } else {
        m.push((k, vs))
    }
}

/// The mapping that results from recording the pairs one after the other.
pub open spec fn collected(pairs: Seq<(Seq<char>, Seq<char>)>) -> Seq<(Seq<char>, Seq<Seq<char>>)>
    decreases pairs.len(),
{
    if pairs.len() == 0 {
        Seq::empty()
    } else {
        with_value(collected(pairs.drop_last()), pairs.last().0, pairs.last().1)
    }
}

/// One line per value of one key.
pub open spec fn entry_lines(k: Seq<char>, vs: Seq<Seq<char>>) -> Seq<(Seq<char>, Seq<char>)> {
    Seq::new(vs.len(), |j: int| (k, vs[j]))
}

/// One line per value per key, keys in their order and values in theirs.
pub open spec fn flattened(m: Seq<(Seq<char>, Seq<Seq<char>>)>) -> Seq<(Seq<char>, Seq<char>)>
    decreases m.len(),
{
    if m.len() == 0 {
        Seq::empty()
    } else {
        flattened(m.drop_last()) + entry_lines(m.last().0, m.last().1)
    }
}

/// The texts of a list of pairs of strings.
pub open spec fn pair_texts(v: Seq<(String, String)>) -> Seq<(Seq<char>, Seq<char>)> {
    Seq::new(v.len(), |i: int| (v[i].0@, v[i].1@))
}

/// A copy of a list of strings.
pub fn clone_strings(v: &Vec<String>) -> (r: Vec<String>)
    ensures
        r@ == v@,
{
    let mut r: Vec<String> = Vec::new();
    let mut i: usize = 0;
    while i < v.len()
        invariant
            i <= v.len(),
            r@ == v@.subrange(0, i as int),
        decreases v.len() - i,
    {
        r.push(v[i].clone());
        assert(r@ =~= v@.subrange(0, i + 1));
        i += 1;
    }
    assert(r@ =~= v@);
    r
}

/// One key with its values.
#[derive(Debug, PartialEq, Eq)]
pub struct Entry {
    pub key: String,
    pub values: Vec<String>,
}

impl View for Entry {
    type V = (Seq<char>, Seq<Seq<char>>);

    open spec fn view(&self) -> (Seq<char>, Seq<Seq<char>>) {
        (self.key@, texts(self.values@))
    }
}

/// A mapping from a string to a sequence of strings that keeps the order in
/// which its keys were first seen.
#[derive(Debug, PartialEq, Eq)]
pub struct MultiMap {
    entries: Vec<Entry>,
}

impl View for MultiMap {
    type V = Seq<(Seq<char>, Seq<Seq<char>>)>;

    closed spec fn view(&self) -> Seq<(Seq<char>, Seq<Seq<char>>)> {
        Seq::new(self.entries@.len(), |i: int| self.entries@[i]@)
    }
}

impl MultiMap {
    /// Each key occurs once.
    pub open spec fn wf(&self) -> bool {
        distinct_keys(self@)
    }

    /// The empty mapping.
    pub fn new() -> (r: MultiMap)
        ensures
            r@ == Seq::<(Seq<char>, Seq<Seq<char>>)>::empty(),
            r.wf(),
    {
        let r = MultiMap { entries: Vec::new() };
        assert(r@ =~= Seq::<(Seq<char>, Seq<Seq<char>>)>::empty());
        r
    }

    /// The number of keys.
    pub fn len(&self) -> (n: usize)
        ensures
            n == self@.len(),
    {
        self.entries.len()
    }

    /// Whether no key is held.
    pub fn is_empty(&self) -> (b: bool)
        ensures
            b == (self@.len() == 0),
    {
        self.entries.len() == 0
    }

    /// The position of `key`, if it is held.
    pub fn find(&self, key: &str) -> (r: Option<usize>)
        ensures
            match r {
                Some(i) => i < self@.len() && self@[i as int].0 == key@,
                None => !has_key(self@, key@),
            },
            self.wf() && r.is_some() ==> r.unwrap() == key_position(self@, key@),
            r.is_some() == has_key(self@, key@),
    {
        let wanted = String::from_str(key);
        let mut i: usize = 0;
        while i < self.entries.len()
            invariant
                i <= self.entries.len(),
                wanted@ == key@,
                forall|j: int| 0 <= j < i ==> (#[trigger] self@[j]).0 != key@,
            decreases self.entries.len() - i,
        {
            if self.entries[i].key == wanted {
                assert(self@[i as int].0 == key@);
                return Some(i);
            }
            assert(self@[i as int].0 != key@);
            i += 1;
        }
        None
    }

    /// Whether `key` is held.
    pub fn contains_key(&self, key: &str) -> (b: bool)
        ensures
            b == has_key(self@, key@),
    {
        self.find(key).is_some()
    }

    /// A copy of the values under `key`.
    pub fn get(&self, key: &str) -> (r: Option<Vec<String>>)
        requires
            self.wf(),
        ensures
            match r {
                Some(vs) => values_of(self@, key@) == Some(texts(vs@)),
                None => values_of(self@, key@).is_none(),
            },
    {
        match self.find(key) {
            Some(i) => Some(clone_strings(&self.entries[i].values)),
            None => None,
        }
    }

    /// Records one more value under `key`.
    pub fn add_value(&mut self, key: &str, value: &str)
        requires
            old(self).wf(),
        ensures
            final(self).wf(),
            final(self)@ == with_value(old(self)@, key@, value@),
    {
        let found = self.find(key);
        match found {
            Some(i) => {
                let ghost before = self@;
                let mut kept: Vec<Entry> = Vec::new();
                std::mem::swap(&mut kept, &mut self.entries);
                let mut entry = kept.remove(i);
                entry.values.push(String::from_str(value));
                kept.insert(i, entry);
                self.entries = kept;
                assert(self@ =~~= before.update(i as int, (key@, before[i as int].1.push(value@))));
            },
            None => {
                let ghost before = self@;
                let mut values: Vec<String> = Vec::new();
                values.push(String::from_str(value));
                self.entries.push(Entry { key: String::from_str(key), values });
                assert(self@ =~~= before.push((key@, seq![value@])));
            },
        }
    }

    /// Replaces the values under `key`, or adds the key with them.
    pub fn insert(&mut self, key: &str, values: Vec<String>)
        requires
            old(self).wf(),
        ensures
            final(self).wf(),
            final(self)@ == with_values(old(self)@, key@, texts(values@)),
    {
        let found = self.find(key);
        let ghost before = self@;
        match found {
            Some(i) => {
                let mut kept: Vec<Entry> = Vec::new();
                std::mem::swap(&mut kept, &mut self.entries);
                kept.set(i, Entry { key: String::from_str(key), values });
                self.entries = kept;
                assert(self@ =~~= before.update(i as int, (key@, texts(values@))));
            },
            None => {
                self.entries.push(Entry { key: String::from_str(key), values });
                assert(self@ =~~= before.push((key@, texts(values@))));
            },
        }
    }

    /// One line per value per key.
    pub fn flatten(&self) -> (r: Vec<(String, String)>)
        ensures
            pair_texts(r@) == flattened(self@),
    {
        let mut r: Vec<(String, String)> = Vec::new();
        let mut i: usize = 0;
        assert(self@.subrange(0, 0) =~= Seq::empty());
        assert(pair_texts(r@) =~= flattened(self@.subrange(0, 0)));
        while i < self.entries.len()
            invariant
                i <= self.entries.len(),
                pair_texts(r@) == flattened(self@.subrange(0, i as int)),
            decreases self.entries.len() - i,
        {
            let entry = &self.entries[i];
            let ghost done = r@;
            let mut j: usize = 0;
            while j < entry.values.len()
                invariant
                    j <= entry.values.len(),
                    pair_texts(r@) == pair_texts(done) + entry_lines(
                        entry.key@,
                        texts(entry.values@),
                    ).subrange(0, j as int),
                decreases entry.values.len() - j,
            {
                let ghost prev = r@;
                let k = entry.key.clone();
                let v = entry.values[j].clone();
                r.push((k, v));
                proof {
                    let lines = entry_lines(entry.key@, texts(entry.values@));
                    assert(pair_texts(r@) =~= pair_texts(prev).push((k@, v@)));
                    assert(lines.subrange(0, j + 1) =~= lines.subrange(0, j as int).push(
                        (k@, v@),
                    ));
                    assert(pair_texts(r@) =~= pair_texts(done) + lines.subrange(0, j + 1));
                }
                j += 1;
            }
            proof {
                let next = self@.subrange(0, i + 1);
                assert(next.drop_last() =~= self@.subrange(0, i as int));
                assert(next.last() == entry@);
                let lines = entry_lines(entry.key@, texts(entry.values@));
                assert(lines.subrange(0, j as int) =~= lines);
            }
            i += 1;
        }
        assert(self@.subrange(0, i as int) =~= self@);
        r
    }

    /// A copy of the mapping.
    pub fn copy(&self) -> (r: MultiMap)
        ensures
            r@ == self@,
    {
        let mut entries: Vec<Entry> = Vec::new();
        let mut i: usize = 0;
        while i < self.entries.len()
            invariant
                i <= self.entries.len(),
                entries@.len() == i,
                forall|j: int| 0 <= j < i ==> (#[trigger] entries@[j])@ == self.entries@[j]@,
            decreases self.entries.len() - i,
        {
            let entry = &self.entries[i];
            entries.push(Entry { key: entry.key.clone(), values: clone_strings(&entry.values) });
            i += 1;
        }
        let r = MultiMap { entries };
        assert(r@ =~= self@);
        r
    }

    /// The mapping that results from recording the pairs one after the other.
    pub fn from_pairs(pairs: &Vec<(String, String)>) -> (r: MultiMap)
        ensures
            r.wf(),
            r@ == collected(pair_texts(pairs@)),
    {
        let mut r = MultiMap::new();
        let mut i: usize = 0;
        assert(pair_texts(pairs@).subrange(0, 0) =~= Seq::empty());
        while i < pairs.len()
            invariant
                i <= pairs.len(),
                r.wf(),
                r@ == collected(pair_texts(pairs@).subrange(0, i as int)),
            decreases pairs.len() - i,
        {
            r.add_value(pairs[i].0.as_str(), pairs[i].1.as_str());
            proof {
                let next = pair_texts(pairs@).subrange(0, i + 1);
                assert(next.drop_last() =~= pair_texts(pairs@).subrange(0, i as int));
            }
            i += 1;
        }
        assert(pair_texts(pairs@).subrange(0, i as int) =~= pair_texts(pairs@));
        r
    }
}

} // verus!
