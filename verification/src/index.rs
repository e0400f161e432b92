//! The index of one document: from a description to the place of the
//! interaction that was last recorded under it.

use crate::model::{Interaction, InteractionView, interaction_views};
use vstd::prelude::*;

verus! {

/// The place of the last interaction described by `d`, or -1 where there is
/// none.
pub open spec fn last_position(xs: Seq<InteractionView>, d: Seq<char>) -> int
    decreases xs.len(),
{
    if xs.len() == 0 {
        -1
    } else if xs.last().description == d {
        xs.len() - 1
    } else {
        last_position(xs.drop_last(), d)
    }
}

/// What `last_position` returns is in range, is described by `d`, and is
/// followed by no interaction described by `d`.
pub proof fn lemma_last_position(xs: Seq<InteractionView>, d: Seq<char>)
    ensures
        -1 <= last_position(xs, d) < xs.len(),
        last_position(xs, d) >= 0 ==> xs[last_position(xs, d)].description == d,
        forall|j: int|
            last_position(xs, d) < j < xs.len() ==> (#[trigger] xs[j]).description != d,
    decreases xs.len(),
{
    if xs.len() > 0 && xs.last().description != d {
        lemma_last_position(xs.drop_last(), d);
        assert forall|j: int| last_position(xs, d) < j < xs.len() implies (#[trigger] xs[j]).description
            != d by {
            if j < xs.len() - 1 {
                assert(xs.drop_last()[j] == xs[j]);
            }
        }
    }
}

/// Some entry of the index has the description `d`.
pub open spec fn has_description(ix: Seq<(Seq<char>, int)>, d: Seq<char>) -> bool {
    exists|t: int| 0 <= t < ix.len() && (#[trigger] ix[t]).0 == d
}

/// The entry points at an interaction with its description, and no later
/// interaction has that description.
pub open spec fn entry_resolves(e: (Seq<char>, int), xs: Seq<InteractionView>) -> bool {
    &&& 0 <= e.1 < xs.len()
    &&& xs[e.1].description == e.0
    &&& forall|j: int| e.1 < j < xs.len() ==> (#[trigger] xs[j]).description != e.0
}

/// The index agrees with the interactions: no description occurs twice in
/// it, each entry resolves, and each interaction's description is in it.
pub open spec fn index_matches(ix: Seq<(Seq<char>, int)>, xs: Seq<InteractionView>) -> bool {
    &&& forall|s: int, t: int|
        0 <= s < t < ix.len() ==> (#[trigger] ix[s]).0 != (#[trigger] ix[t]).0
    &&& forall|t: int| 0 <= t < ix.len() ==> entry_resolves(#[trigger] ix[t], xs)
    &&& forall|i: int| 0 <= i < xs.len() ==> has_description(ix, (#[trigger] xs[i]).description)
}

/// The index after `d` was recorded at place `p`.
pub open spec fn with_position(ix: Seq<(Seq<char>, int)>, d: Seq<char>, p: int) -> Seq<
    (Seq<char>, int),
> {
    if has_description(ix, d) {
        ix.update(choose|t: int| 0 <= t < ix.len() && (#[trigger] ix[t]).0 == d, (d, p))
    } else {
        ix.push((d, p))
    }
}

/// An index that agrees with the interactions holds, for each description,
/// the place that `last_position` gives.
pub proof fn lemma_index_gives_last_position(
    ix: Seq<(Seq<char>, int)>,
    xs: Seq<InteractionView>,
    d: Seq<char>,
)
    requires
        index_matches(ix, xs),
    ensures
        has_description(ix, d) == (last_position(xs, d) >= 0),
        forall|t: int|
            0 <= t < ix.len() && (#[trigger] ix[t]).0 == d ==> ix[t].1 == last_position(xs, d),
{
    lemma_last_position(xs, d);
    let p = last_position(xs, d);
    if p >= 0 {
        assert(has_description(ix, xs[p].description));
    }
    assert forall|t: int| 0 <= t < ix.len() && (#[trigger] ix[t]).0 == d implies ix[t].1 == p by {
        assert(entry_resolves(ix[t], xs));
        let q = ix[t].1;
        if q < p {
            assert(xs[p].description != d);
        }
        if p < q {
            assert(xs[q].description != d);
        }
    }
}

/// Recording a new interaction at the end of the document and its
/// description in the index keeps the two in agreement.
pub proof fn lemma_record_keeps_agreement(
    ix: Seq<(Seq<char>, int)>,
    xs: Seq<InteractionView>,
    item: InteractionView,
)
    requires
        index_matches(ix, xs),
    ensures
        index_matches(with_position(ix, item.description, xs.len() as int), xs.push(item)),
{
    let d = item.description;
    let n = xs.len() as int;
    let ix2 = with_position(ix, d, n);
    let xs2 = xs.push(item);
    if has_description(ix, d) {
        let c = choose|t: int| 0 <= t < ix.len() && (#[trigger] ix[t]).0 == d;
        assert forall|t: int| 0 <= t < ix2.len() implies entry_resolves(#[trigger] ix2[t], xs2) by {
            if t != c {
                assert(entry_resolves(ix[t], xs));
                assert(ix[t].0 != ix[c].0);
                assert(ix2[t] == ix[t]);
                assert(xs2[ix[t].1] == xs[ix[t].1]);
                assert forall|j: int| ix2[t].1 < j < xs2.len() implies (#[trigger] xs2[j]).description
                    != ix2[t].0 by {
                    if j < n {
                        assert(xs2[j] == xs[j]);
                    }
                }
            }
        }
        assert forall|i: int| 0 <= i < xs2.len() implies has_description(
            ix2,
            (#[trigger] xs2[i]).description,
        ) by {
            if i < n {
                assert(xs2[i] == xs[i]);
                assert(has_description(ix, xs[i].description));
                let t = choose|t: int| 0 <= t < ix.len() && (#[trigger] ix[t]).0 == xs[i].description;
                assert(ix2[t].0 == xs[i].description);
            } else {
                assert(ix2[c].0 == d);
            }
        }
        assert forall|s: int, t: int| 0 <= s < t < ix2.len() implies (#[trigger] ix2[s]).0 != (
        #[trigger] ix2[t]).0 by {
            assert(ix2[s].0 == ix[s].0);
            assert(ix2[t].0 == ix[t].0);
        }
    } else {
        assert forall|t: int| 0 <= t < ix2.len() implies entry_resolves(#[trigger] ix2[t], xs2) by {
            if t < ix.len() {
                assert(entry_resolves(ix[t], xs));
                assert(ix2[t] == ix[t]);
                assert(xs2[ix[t].1] == xs[ix[t].1]);
                assert forall|j: int| ix2[t].1 < j < xs2.len() implies (#[trigger] xs2[j]).description
                    != ix2[t].0 by {
                    if j < n {
                        assert(xs2[j] == xs[j]);
                    }
                }
            }
        }
        assert forall|i: int| 0 <= i < xs2.len() implies has_description(
            ix2,
            (#[trigger] xs2[i]).description,
        ) by {
            if i < n {
                assert(xs2[i] == xs[i]);
                assert(has_description(ix, xs[i].description));
                let t = choose|t: int| 0 <= t < ix.len() && (#[trigger] ix[t]).0 == xs[i].description;
                assert(ix2[t].0 == xs[i].description);
            } else {
                assert(ix2[ix.len() as int].0 == d);
            }
        }
        assert forall|s: int, t: int| 0 <= s < t < ix2.len() implies (#[trigger] ix2[s]).0 != (
        #[trigger] ix2[t]).0 by {
            if t == ix.len() {
                assert(ix[s].0 != d);
            }
        }
    }
}

/// One description with the place of its interaction.
#[derive(Debug, PartialEq, Eq)]
pub struct IndexEntry {
    pub description: String,
    pub position: usize,
}

/// The index of one document.
#[derive(Debug, PartialEq, Eq)]
pub struct InteractionIndex {
    entries: Vec<IndexEntry>,
}

impl View for InteractionIndex {
    type V = Seq<(Seq<char>, int)>;

    closed spec fn view(&self) -> Seq<(Seq<char>, int)> {
        Seq::new(
            self.entries@.len(),
            |i: int| (self.entries@[i].description@, self.entries@[i].position as int),
        )
    }
}

impl InteractionIndex {
    /// The empty index.
    pub fn new() -> (r: InteractionIndex)
        ensures
            r@ == Seq::<(Seq<char>, int)>::empty(),
    {
        let r = InteractionIndex { entries: Vec::new() };
        assert(r@ =~= Seq::<(Seq<char>, int)>::empty());
        r
    }

    /// The number of descriptions.
    pub fn len(&self) -> (n: usize)
        ensures
            n == self@.len(),
    {
        self.entries.len()
    }

    /// Where in the index the description stands.
    fn slot(&self, description: &str) -> (r: Option<usize>)
        ensures
            match r {
                Some(t) => t < self@.len() && self@[t as int].0 == description@,
                None => !has_description(self@, description@),
            },
    {
        let wanted = String::from_str(description);
        let mut t: usize = 0;
        while t < self.entries.len()
            invariant
                t <= self.entries.len(),
                wanted@ == description@,
                forall|j: int| 0 <= j < t ==> (#[trigger] self@[j]).0 != description@,
            decreases self.entries.len() - t,
        {
            if self.entries[t].description == wanted {
                assert(self@[t as int].0 == description@);
                return Some(t);
            }
            assert(self@[t as int].0 != description@);
            t += 1;
        }
        None
    }

    /// The place recorded for the description.
    pub fn position(&self, description: &str) -> (r: Option<usize>)
        ensures
            match r {
                Some(p) => exists|t: int|
                    0 <= t < self@.len() && #[trigger] self@[t] == (description@, p as int),
                None => !has_description(self@, description@),
            },
    {
        match self.slot(description) {
            Some(t) => {
                assert(self@[t as int] == (description@, self.entries@[t as int].position as int));
                Some(self.entries[t].position)
            },
            None => None,
        }
    }

    /// Records the description at the place, in place of what was recorded
    /// for it before.
    pub fn record(&mut self, description: &str, position: usize)
        requires
            forall|s: int, t: int|
                0 <= s < t < old(self)@.len() ==> (#[trigger] old(self)@[s]).0 != (
                #[trigger] old(self)@[t]).0,
        ensures
            final(self)@ == with_position(old(self)@, description@, position as int),
    {
        let found = self.slot(description);
        let ghost before = self@;
        match found {
            Some(t) => {
                let mut kept: Vec<IndexEntry> = Vec::new();
                std::mem::swap(&mut kept, &mut self.entries);
                kept.set(t, IndexEntry { description: String::from_str(description), position });
                self.entries = kept;
                proof {
                    let c = choose|u: int|
                        0 <= u < before.len() && (#[trigger] before[u]).0 == description@;
                    assert(c == t) by {
                        if c < t {
                            assert(before[c].0 != before[t as int].0);
                        }
                        if t < c {
                            assert(before[t as int].0 != before[c].0);
                        }
                    }
                    assert(self@ =~= before.update(t as int, (description@, position as int)));
                }
            },
            None => {
                self.entries.push(
                    IndexEntry { description: String::from_str(description), position },
                );
                assert(self@ =~= before.push((description@, position as int)));
            },
        }
    }

    /// The index of the interactions as they stand.
    pub fn from_interactions(interactions: &Vec<Interaction>) -> (r: InteractionIndex)
        ensures
            index_matches(r@, interaction_views(interactions@)),
    {
        let mut r = InteractionIndex::new();
        let mut i: usize = 0;
        let ghost all = interaction_views(interactions@);
        assert(all.subrange(0, 0) =~= Seq::empty());
        while i < interactions.len()
            invariant
                i <= interactions.len(),
                all == interaction_views(interactions@),
                index_matches(r@, all.subrange(0, i as int)),
            decreases interactions.len() - i,
        {
            proof {
                lemma_record_keeps_agreement(r@, all.subrange(0, i as int), all[i as int]);
                assert(all.subrange(0, i as int).push(all[i as int]) =~= all.subrange(0, i + 1));
            }
            r.record(interactions[i].description.as_str(), i);
            i += 1;
        }
        assert(all.subrange(0, i as int) =~= all);
        r
    }
}

} // verus!
