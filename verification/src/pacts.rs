//! The interaction store: one document per consumer/provider pair, each
//! with its index, under one owner.

use crate::edit::{
    add_interaction_to_pact, derive_pact_file_path, distinct_pacts, find_pact, has_pact,
    index_views, is_key_of, make_interaction_index_map, pact_position, pact_views, read_pacts,
    recorded, keyed, PactFilePath,
};
use crate::error::ProxyError;
use crate::index::{
    entry_resolves, has_description, index_matches, last_position, lemma_index_gives_last_position,
    lemma_last_position, InteractionIndex,
};
use crate::model::{HttpRequest, HttpResponse, Pact, PactView, RequestView, ResponseView};
use vstd::prelude::*;

verus! {

/// The response that the documents hold for the description under the
/// key: that of the interaction last recorded under the description, and
/// nothing where the key or the description is unknown.
pub open spec fn lookup(
    pacts: Seq<PactView>,
    consumer: Seq<char>,
    provider: Seq<char>,
    description: Seq<char>,
) -> Option<ResponseView> {
    if has_pact(pacts, consumer, provider) {
        let xs = pacts[pact_position(pacts, consumer, provider)].interactions;
        let q = last_position(xs, description);
        if q >= 0 {
            Some(xs[q].response)
        } else {
            None
        }
    } else {
        None
    }
}

/// The documents after the exchange was recorded under the key: the
/// document of the key gains the interaction at its end; where there was
/// none, a new document with this one interaction goes to the end.
pub open spec fn inserted(
    pacts: Seq<PactView>,
    consumer: Seq<char>,
    provider: Seq<char>,
    request: RequestView,
    response: ResponseView,
) -> Seq<PactView> {
    let item = recorded(request, response);
    if has_pact(pacts, consumer, provider) {
        let k = pact_position(pacts, consumer, provider);
        pacts.update(
            k,
            PactView { interactions: pacts[k].interactions.push(item), ..pacts[k] },
        )
    } else {
        pacts.push(PactView { consumer, provider, interactions: seq![item] })
    }
}

/// Recording an exchange keeps the keys distinct.
pub proof fn lemma_inserted_distinct(
    pacts: Seq<PactView>,
    consumer: Seq<char>,
    provider: Seq<char>,
    request: RequestView,
    response: ResponseView,
)
    requires
        distinct_pacts(pacts),
    ensures
        distinct_pacts(inserted(pacts, consumer, provider, request, response)),
{
    let next = inserted(pacts, consumer, provider, request, response);
    if has_pact(pacts, consumer, provider) {
        assert forall|a: int, b: int| 0 <= a < b < next.len() implies !is_key_of(
            #[trigger] next[a],
            (#[trigger] next[b]).consumer,
            next[b].provider,
        ) by {
            assert(!is_key_of(pacts[a], pacts[b].consumer, pacts[b].provider));
        }
    } else {
        assert forall|a: int, b: int| 0 <= a < b < next.len() implies !is_key_of(
            #[trigger] next[a],
            (#[trigger] next[b]).consumer,
            next[b].provider,
        ) by {
            if b < pacts.len() {
                assert(!is_key_of(pacts[a], pacts[b].consumer, pacts[b].provider));
            } else {
                assert(!is_key_of(pacts[a], consumer, provider));
            }
        }
    }
}

/// Where documents have distinct keys, the document of a key stands at
/// one place only.
pub proof fn lemma_pact_position_unique(
    pacts: Seq<PactView>,
    consumer: Seq<char>,
    provider: Seq<char>,
    k: int,
)
    requires
        distinct_pacts(pacts),
        0 <= k < pacts.len(),
        is_key_of(pacts[k], consumer, provider),
    ensures
        has_pact(pacts, consumer, provider),
        pact_position(pacts, consumer, provider) == k,
{
    let q = pact_position(pacts, consumer, provider);
    if q < k {
        assert(!is_key_of(pacts[q], pacts[k].consumer, pacts[k].provider));
    }
    if k < q {
        assert(!is_key_of(pacts[k], pacts[q].consumer, pacts[q].provider));
    }
}

/// A response that was recorded is found again: after an exchange was
/// recorded under a key, the lookup under that key of the request's path
/// gives the response of that exchange.
pub proof fn lemma_lookup_after_insert(
    pacts: Seq<PactView>,
    consumer: Seq<char>,
    provider: Seq<char>,
    request: RequestView,
    response: ResponseView,
)
    requires
        distinct_pacts(pacts),
    ensures
        lookup(
            inserted(pacts, consumer, provider, request, response),
            consumer,
            provider,
            request.path,
        ) == Some(response),
{
    let next = inserted(pacts, consumer, provider, request, response);
    lemma_inserted_distinct(pacts, consumer, provider, request, response);
    let k = if has_pact(pacts, consumer, provider) {
        pact_position(pacts, consumer, provider)
    } else {
        pacts.len() as int
    };
    assert(is_key_of(next[k], consumer, provider));
    lemma_pact_position_unique(next, consumer, provider, k);
    let xs = next[k].interactions;
    assert(xs.last() == recorded(request, response));
}

/// Recording under one key changes no answer under another key.
pub proof fn lemma_insert_keeps_other_keys(
    pacts: Seq<PactView>,
    consumer: Seq<char>,
    provider: Seq<char>,
    request: RequestView,
    response: ResponseView,
    other_consumer: Seq<char>,
    other_provider: Seq<char>,
    description: Seq<char>,
)
    requires
        distinct_pacts(pacts),
        !(other_consumer == consumer && other_provider == provider),
    ensures
        lookup(
            inserted(pacts, consumer, provider, request, response),
            other_consumer,
            other_provider,
            description,
        ) == lookup(pacts, other_consumer, other_provider, description),
{
    let next = inserted(pacts, consumer, provider, request, response);
    lemma_inserted_distinct(pacts, consumer, provider, request, response);
    if has_pact(pacts, other_consumer, other_provider) {
        let q = pact_position(pacts, other_consumer, other_provider);
        assert(is_key_of(next[q], other_consumer, other_provider));
        lemma_pact_position_unique(next, other_consumer, other_provider, q);
        assert(next[q] == pacts[q]);
    } else {
        if has_pact(next, other_consumer, other_provider) {
            let q = pact_position(next, other_consumer, other_provider);
            if q < pacts.len() {
                assert(is_key_of(pacts[q], other_consumer, other_provider));
            }
        }
    }
}

/// A lookup under a key that has no document finds nothing, and so does
/// one of a description that no interaction of the key's document has.
pub proof fn lemma_lookup_miss(
    pacts: Seq<PactView>,
    consumer: Seq<char>,
    provider: Seq<char>,
    description: Seq<char>,
)
    ensures
        !has_pact(pacts, consumer, provider) ==> lookup(pacts, consumer, provider, description)
            is None,
        has_pact(pacts, consumer, provider) && (forall|i: int|
            0 <= i < pacts[pact_position(pacts, consumer, provider)].interactions.len() ==> (
            #[trigger] pacts[pact_position(pacts, consumer, provider)].interactions[i]).description
                != description) ==> lookup(pacts, consumer, provider, description) is None,
{
    if has_pact(pacts, consumer, provider) {
        lemma_last_position(pacts[pact_position(pacts, consumer, provider)].interactions, description);
    }
}

/// In a well-formed store no index entry is stale: each entry of each
/// index points at an interaction of its document, and that interaction
/// has the entry's description.
pub proof fn lemma_index_resolves(store: Pacts, k: int, t: int)
    requires
        store.wf(),
        0 <= k < store@.len(),
        0 <= t < store.indexes()[k].len(),
    ensures
        0 <= store.indexes()[k][t].1 < store@[k].interactions.len(),
        store@[k].interactions[store.indexes()[k][t].1].description == store.indexes()[k][t].0,
{
    assert(index_matches(store.indexes()[k], store@[k].interactions));
    assert(entry_resolves(store.indexes()[k][t], store@[k].interactions));
}

/// In a well-formed store the index misses nothing: the description of
/// each interaction of a document stands in the document's index.
pub proof fn lemma_index_complete(store: Pacts, k: int, i: int)
    requires
        store.wf(),
        0 <= k < store@.len(),
        0 <= i < store@[k].interactions.len(),
    ensures
        has_description(store.indexes()[k], store@[k].interactions[i].description),
{
    assert(index_matches(store.indexes()[k], store@[k].interactions));
}

/// The view of an optional response.
pub open spec fn option_response_view(r: Option<HttpResponse>) -> Option<ResponseView> {
    match r {
        Some(x) => Some(x@),
        None => None,
    }
}

/// The store.
#[derive(Debug, PartialEq, Eq)]
pub struct Pacts {
    pacts: Vec<Pact>,
    interaction_index_map: Vec<InteractionIndex>,
    pacts_folder: String,
}

impl View for Pacts {
    type V = Seq<PactView>;

    closed spec fn view(&self) -> Seq<PactView> {
        pact_views(self.pacts@)
    }
}

impl Pacts {
    /// The index of each document, in the documents' order.
    pub closed spec fn indexes(&self) -> Seq<Seq<(Seq<char>, int)>> {
        index_views(self.interaction_index_map@)
    }

    /// The folder in which the documents are kept.
    pub closed spec fn folder(&self) -> Seq<char> {
        self.pacts_folder@
    }

    /// Each key has one document, and each document has its index, which
    /// agrees with it.
    pub open spec fn wf(&self) -> bool {
        &&& distinct_pacts(self@)
        &&& self.indexes().len() == self@.len()
        &&& forall|k: int|
            0 <= k < self@.len() ==> index_matches(
                #[trigger] self.indexes()[k],
                self@[k].interactions,
            )
    }

    /// A store of the documents with their indexes.
    pub fn new(
        pacts: Vec<Pact>,
        interaction_index_map: Vec<InteractionIndex>,
        pacts_folder: String,
    ) -> (r: Pacts)
        requires
            distinct_pacts(pact_views(pacts@)),
            interaction_index_map@.len() == pacts@.len(),
            forall|k: int|
                0 <= k < pacts@.len() ==> index_matches(
                    (#[trigger] interaction_index_map@[k])@,
                    pacts@[k]@.interactions,
                ),
        ensures
            r.wf(),
            r@ == pact_views(pacts@),
            r.indexes() == index_views(interaction_index_map@),
            r.folder() == pacts_folder@,
    {
        let r = Pacts { pacts, interaction_index_map, pacts_folder };
        proof {
            assert forall|k: int| 0 <= k < r@.len() implies index_matches(
                #[trigger] r.indexes()[k],
                r@[k].interactions,
            ) by {
                assert(index_matches(interaction_index_map@[k]@, pacts@[k]@.interactions));
            }
        }
        r
    }

    /// A store of the documents that were read from the folder, each
    /// under the key that it names itself, with their indexes.
    pub fn load(documents: Vec<Pact>, pacts_folder: String) -> (r: Pacts)
        ensures
            r.wf(),
            r@ == keyed(pact_views(documents@)),
            r.folder() == pacts_folder@,
    {
        let pacts = read_pacts(documents);
        let interaction_index_map = make_interaction_index_map(&pacts);
        Pacts::new(pacts, interaction_index_map, pacts_folder)
    }

    /// The number of documents.
    pub fn len(&self) -> (n: usize)
        ensures
            n == self@.len(),
    {
        self.pacts.len()
    }

    /// A document without interactions.
    fn default_empty_pact(consumer: &str, provider: &str) -> (r: Pact)
        ensures
            r@ == (PactView {
                consumer: consumer@,
                provider: provider@,
                interactions: Seq::empty(),
            }),
    {
        let r = Pact {
            consumer: String::from_str(consumer),
            provider: String::from_str(provider),
            interactions: Vec::new(),
        };
        assert(r@.interactions =~= Seq::empty());
        r
    }

    /// Records the exchange under the key. The document of the key is
    /// made if there is none; the interaction goes to its end, and its
    /// index points at it.
    pub fn add_interaction(
        &mut self,
        consumer: &str,
        provider: &str,
        request: &HttpRequest,
        response: &HttpResponse,
    ) -> (r: Result<(), ProxyError>)
        requires
            old(self).wf(),
        ensures
            r is Ok,
            final(self).wf(),
            final(self)@ == inserted(old(self)@, consumer@, provider@, request@, response@),
            final(self).folder() == old(self).folder(),
            lookup(final(self)@, consumer@, provider@, request@.path) == Some(response@),
    {
        let ghost before = self@;
        let ghost before_indexes = self.indexes();
        proof {
            lemma_inserted_distinct(before, consumer@, provider@, request@, response@);
            lemma_lookup_after_insert(before, consumer@, provider@, request@, response@);
        }
        let found = find_pact(&self.pacts, consumer, provider);
        let k = match found {
            Some(k) => k,
            None => {
                self.pacts.push(Self::default_empty_pact(consumer, provider));
                self.interaction_index_map.push(InteractionIndex::new());
                self.pacts.len() - 1
            },
        };
        let ghost middle = self@;
        let ghost middle_indexes = self.indexes();
        proof {
            assert(middle.len() == middle_indexes.len());
            assert(index_matches(middle_indexes[k as int], middle[k as int].interactions)) by {
                if found.is_some() {
                    assert(middle_indexes[k as int] == before_indexes[k as int]);
                    assert(middle[k as int] == before[k as int]);
                }
            }
        }
        let mut pact = self.pacts.remove(k);
        let mut index = self.interaction_index_map.remove(k);
        let added = add_interaction_to_pact(request, response, &mut pact, &mut index);
        self.pacts.insert(k, pact);
        self.interaction_index_map.insert(k, index);
        proof {
            let after = self@;
            let after_indexes = self.indexes();
            let item = recorded(request@, response@);
            assert(after =~= middle.update(
                k as int,
                PactView {
                    interactions: middle[k as int].interactions.push(item),
                    ..middle[k as int]
                },
            ));
            if found.is_some() {
                assert(middle =~= before);
            } else {
                assert(middle =~= before.push(
                    PactView { consumer: consumer@, provider: provider@, interactions: Seq::empty() },
                ));
                assert(Seq::<crate::model::InteractionView>::empty().push(item) =~= seq![item]);
            }
            assert(after =~= inserted(before, consumer@, provider@, request@, response@));
            assert(after_indexes.len() == after.len());
            assert forall|j: int| 0 <= j < after.len() implies index_matches(
                #[trigger] after_indexes[j],
                after[j].interactions,
            ) by {
                if j != k {
                    assert(after_indexes[j] == middle_indexes[j]);
                    assert(after[j] == middle[j]);
                    if j < before.len() {
                        assert(middle_indexes[j] == before_indexes[j]);
                        assert(index_matches(before_indexes[j], before[j].interactions));
                    }
                }
            }
        }
        added
    }

    /// The response recorded under the key for the description, if any.
    pub fn get_pact_response(&self, consumer: &str, provider: &str, interaction_descr: &str) -> (r:
        Option<HttpResponse>)
        requires
            self.wf(),
        ensures
            option_response_view(r) == lookup(self@, consumer@, provider@, interaction_descr@),
    {
        let k = match find_pact(&self.pacts, consumer, provider) {
            Some(k) => k,
            None => {
                return None;
            },
        };
        proof {
            assert(index_matches(self.indexes()[k as int], self@[k as int].interactions));
            lemma_index_gives_last_position(
                self.indexes()[k as int],
                self@[k as int].interactions,
                interaction_descr@,
            );
        }
        let p = match self.interaction_index_map[k].position(interaction_descr) {
            Some(p) => p,
            None => {
                return None;
            },
        };
        proof {
            let ix = self.indexes()[k as int];
            let t = choose|t: int|
                0 <= t < ix.len() && #[trigger] ix[t] == (interaction_descr@, p as int);
            assert(ix[t].0 == interaction_descr@);
            assert(entry_resolves(ix[t], self@[k as int].interactions));
        }
        Some(self.pacts[k].interactions[p].response.copy())
    }

    /// The place that the index of the key's document holds for the
    /// description: that of the interaction last recorded under it.
    pub fn get_interaction_index(&self, consumer: &str, provider: &str, interaction_descr: &str) -> (r:
        Option<usize>)
        requires
            self.wf(),
        ensures
            match r {
                Some(p) => has_pact(self@, consumer@, provider@) && p == last_position(
                    self@[pact_position(self@, consumer@, provider@)].interactions,
                    interaction_descr@,
                ),
                None => !has_pact(self@, consumer@, provider@) || last_position(
                    self@[pact_position(self@, consumer@, provider@)].interactions,
                    interaction_descr@,
                ) < 0,
            },
    {
        let k = match find_pact(&self.pacts, consumer, provider) {
            Some(k) => k,
            None => {
                return None;
            },
        };
        proof {
            assert(index_matches(self.indexes()[k as int], self@[k as int].interactions));
            lemma_index_gives_last_position(
                self.indexes()[k as int],
                self@[k as int].interactions,
                interaction_descr@,
            );
        }
        let r = self.interaction_index_map[k].position(interaction_descr);
        proof {
            if r.is_some() {
                let ix = self.indexes()[k as int];
                let t = choose|t: int|
                    0 <= t < ix.len() && #[trigger] ix[t] == (interaction_descr@, r.unwrap() as int);
                assert(ix[t].0 == interaction_descr@);
            }
        }
        r
    }

    /// The folder in which the documents are kept.
    pub fn get_folder(&self) -> (r: String)
        ensures
            r@ == self.folder(),
    {
        self.pacts_folder.clone()
    }

    /// A copy of the document of the key, if it has one.
    pub fn get_pact(&self, consumer: &str, provider: &str) -> (r: Option<Pact>)
        requires
            self.wf(),
        ensures
            match r {
                Some(pact) => has_pact(self@, consumer@, provider@) && pact@ == self@[pact_position(
                    self@,
                    consumer@,
                    provider@,
                )],
                None => !has_pact(self@, consumer@, provider@),
            },
    {
        match find_pact(&self.pacts, consumer, provider) {
            Some(k) => Some(self.pacts[k].copy()),
            None => None,
        }
    }

    /// What to write so that the document of the key is saved, and where:
    /// the document as it stands and its file in the folder. It is an
    /// error to save a key that has no document.
    pub fn save_pact(&self, consumer: &str, provider: &str) -> (r: Result<
        (PactFilePath, Pact),
        ProxyError,
    >)
        requires
            self.wf(),
        ensures
            match r {
                Ok(job) => has_pact(self@, consumer@, provider@) && job.1@ == self@[pact_position(
                    self@,
                    consumer@,
                    provider@,
                )] && job.0.folder@ == self.folder() && job.0.file_name@ == consumer@ + "-"@
                    + provider@ + ".json"@,
                Err(e) => !has_pact(self@, consumer@, provider@) && e == ProxyError::StoreIOError,
            },
    {
        match self.get_pact(consumer, provider) {
            Some(pact) => {
                let path = derive_pact_file_path(self.pacts_folder.as_str(), &pact);
                Ok((path, pact))
            },
            None => Err(ProxyError::StoreIOError),
        }
    }
}

} // verus!
