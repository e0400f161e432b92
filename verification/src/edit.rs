//! Changes to one document, and what is derived from a document: its
//! key, its file name and its index.

use crate::error::ProxyError;
use crate::index::{index_matches, lemma_record_keeps_agreement, with_position, InteractionIndex};
use crate::model::{
    HttpRequest, HttpResponse, Interaction, InteractionView, Pact, PactView, RequestView,
    ResponseView,
};
use crate::target_url::{parse_url, parsed_url, UrlParts};
use vstd::prelude::*;

verus! {

/// The consumer under which every interaction is recorded.
pub const CONSUMER_NAME: &'static str = "consumer";

/// The interaction that records the exchange: it is described by the
/// request's path.
pub open spec fn recorded(request: RequestView, response: ResponseView) -> InteractionView {
    InteractionView { description: request.path, request, response }
}

/// The document is for this consumer and this provider.
pub open spec fn is_key_of(pact: PactView, consumer: Seq<char>, provider: Seq<char>) -> bool {
    pact.consumer == consumer && pact.provider == provider
}

/// Some document of the list is for this consumer and this provider.
pub open spec fn has_pact(pacts: Seq<PactView>, consumer: Seq<char>, provider: Seq<char>) -> bool {
    exists|k: int| 0 <= k < pacts.len() && is_key_of(#[trigger] pacts[k], consumer, provider)
}

/// The place of the document for this consumer and this provider.
pub open spec fn pact_position(
    pacts: Seq<PactView>,
    consumer: Seq<char>,
    provider: Seq<char>,
) -> int {
    choose|k: int| 0 <= k < pacts.len() && is_key_of(#[trigger] pacts[k], consumer, provider)
}

/// No two documents are for the same consumer and provider.
pub open spec fn distinct_pacts(pacts: Seq<PactView>) -> bool {
    forall|a: int, b: int|
        0 <= a < b < pacts.len() ==> !is_key_of(
            #[trigger] pacts[a],
            (#[trigger] pacts[b]).consumer,
            pacts[b].provider,
        )
}

/// The documents after `pact` was put in: it takes the place of the one
/// with its key, or goes to the end.
pub open spec fn with_pact(pacts: Seq<PactView>, pact: PactView) -> Seq<PactView> {
    if has_pact(pacts, pact.consumer, pact.provider) {
        pacts.update(pact_position(pacts, pact.consumer, pact.provider), pact)
    } else {
        pacts.push(pact)
    }
}

/// The documents by key: of two with one key the later stands, at the
/// place of the earlier.
pub open spec fn keyed(documents: Seq<PactView>) -> Seq<PactView>
    decreases documents.len(),
{
    if documents.len() == 0 {
        Seq::empty()
    } else {
        with_pact(keyed(documents.drop_last()), documents.last())
    }
}

/// The views of a list of documents.
pub open spec fn pact_views(pacts: Seq<Pact>) -> Seq<PactView> {
    Seq::new(pacts.len(), |k: int| pacts[k]@)
}

/// The views of a list of indexes.
pub open spec fn index_views(indexes: Seq<InteractionIndex>) -> Seq<Seq<(Seq<char>, int)>> {
    Seq::new(indexes.len(), |k: int| indexes[k]@)
}

/// Putting a document in keeps the keys distinct.
pub proof fn lemma_with_pact_distinct(pacts: Seq<PactView>, pact: PactView)
    requires
        distinct_pacts(pacts),
    ensures
        distinct_pacts(with_pact(pacts, pact)),
{
    let next = with_pact(pacts, pact);
    if has_pact(pacts, pact.consumer, pact.provider) {
        let c = pact_position(pacts, pact.consumer, pact.provider);
        assert forall|a: int, b: int| 0 <= a < b < next.len() implies !is_key_of(
            #[trigger] next[a],
            (#[trigger] next[b]).consumer,
            next[b].provider,
        ) by {
            assert(!is_key_of(pacts[a], pacts[b].consumer, pacts[b].provider));
            assert(is_key_of(pacts[c], pact.consumer, pact.provider));
        }
    } else {
        assert forall|a: int, b: int| 0 <= a < b < next.len() implies !is_key_of(
            #[trigger] next[a],
            (#[trigger] next[b]).consumer,
            next[b].provider,
        ) by {
            if b < pacts.len() {
                assert(!is_key_of(pacts[a], pacts[b].consumer, pacts[b].provider));
            } else {
                assert(!is_key_of(pacts[a], pact.consumer, pact.provider));
            }
        }
    }
}

/// Documents with distinct keys stay as they are when they are brought
/// under their keys: a store that is made of the documents of another
/// holds the same documents in the same order.
pub proof fn lemma_keyed_of_distinct(pacts: Seq<PactView>)
    requires
        distinct_pacts(pacts),
    ensures
        keyed(pacts) == pacts,
    decreases pacts.len(),
{
    if pacts.len() == 0 {
        assert(keyed(pacts) =~= pacts);
    } else {
        let front = pacts.drop_last();
        let last = pacts.last();
        assert forall|a: int, b: int| 0 <= a < b < front.len() implies !is_key_of(
            #[trigger] front[a],
            (#[trigger] front[b]).consumer,
            front[b].provider,
        ) by {
            assert(!is_key_of(pacts[a], pacts[b].consumer, pacts[b].provider));
        }
        lemma_keyed_of_distinct(front);
        if has_pact(front, last.consumer, last.provider) {
            let q = pact_position(front, last.consumer, last.provider);
            assert(!is_key_of(pacts[q], pacts[pacts.len() - 1].consumer, pacts[pacts.len() - 1].provider));
        }
        assert(front.push(last) =~= pacts);
    }
}

/// The place of the document for this consumer and this provider.
pub fn find_pact(pacts: &Vec<Pact>, consumer: &str, provider: &str) -> (r: Option<usize>)
    ensures
        match r {
            Some(k) => k < pacts@.len() && is_key_of(pacts@[k as int]@, consumer@, provider@),
            None => !has_pact(pact_views(pacts@), consumer@, provider@),
        },
        r.is_some() == has_pact(pact_views(pacts@), consumer@, provider@),
        distinct_pacts(pact_views(pacts@)) && r.is_some() ==> r.unwrap() == pact_position(
            pact_views(pacts@),
            consumer@,
            provider@,
        ),
{
    let c = String::from_str(consumer);
    let p = String::from_str(provider);
    let ghost views = pact_views(pacts@);
    let mut k: usize = 0;
    while k < pacts.len()
        invariant
            k <= pacts.len(),
            c@ == consumer@,
            p@ == provider@,
            views == pact_views(pacts@),
            forall|j: int| 0 <= j < k ==> !is_key_of(#[trigger] views[j], consumer@, provider@),
        decreases pacts.len() - k,
    {
        if pacts[k].consumer == c && pacts[k].provider == p {
            proof {
                assert(is_key_of(views[k as int], consumer@, provider@));
                if distinct_pacts(views) {
                    let q = pact_position(views, consumer@, provider@);
                    if q < k {
                        assert(!is_key_of(views[q], views[k as int].consumer, views[k as int].provider));
                    }
                    if k < q {
                        assert(!is_key_of(views[k as int], views[q].consumer, views[q].provider));
                    }
                }
            }
            return Some(k);
        }
        assert(!is_key_of(views[k as int], consumer@, provider@));
        k += 1;
    }
    None
}

/// The name of the file of the document of a consumer and a provider.
pub fn pact_file_name(consumer: &str, provider: &str) -> (r: String)
    ensures
        r@ == consumer@ + "-"@ + provider@ + ".json"@,
{
    let mut name = String::from_str(consumer);
    name.append("-");
    name.append(provider);
    name.append(".json");
    name
}

/// Where a document is kept: the folder and, in it, the file.
#[derive(Debug, PartialEq, Eq)]
pub struct PactFilePath {
    pub folder: String,
    pub file_name: String,
}

/// The file of a document in the folder: `{consumer}-{provider}.json`.
pub fn derive_pact_file_path(pact_files_folder: &str, pact: &Pact) -> (r: PactFilePath)
    ensures
        r.folder@ == pact_files_folder@,
        r.file_name@ == pact@.consumer + "-"@ + pact@.provider + ".json"@,
{
    PactFilePath {
        folder: String::from_str(pact_files_folder),
        file_name: pact_file_name(pact.consumer.as_str(), pact.provider.as_str()),
    }
}

/// Where to save the document: the file that its consumer and provider
/// name, in the folder.
pub fn save_pact(pact: &Pact, pacts_folder: &str) -> (r: PactFilePath)
    ensures
        r.folder@ == pacts_folder@,
        r.file_name@ == pact@.consumer + "-"@ + pact@.provider + ".json"@,
{
    derive_pact_file_path(pacts_folder, pact)
}

/// Brings the documents read from a folder under their keys: each is
/// keyed by the consumer and provider that it names itself.
pub fn read_pacts(documents: Vec<Pact>) -> (r: Vec<Pact>)
    ensures
        pact_views(r@) == keyed(pact_views(documents@)),
        distinct_pacts(pact_views(r@)),
{
    let ghost all = pact_views(documents@);
    let mut source = documents;
    let mut out: Vec<Pact> = Vec::new();
    let ghost mut done: int = 0;
    proof {
        assert(all.subrange(0, 0) =~= Seq::empty());
        assert(pact_views(out@) =~= Seq::empty());
    }
    while source.len() > 0
        invariant
            0 <= done <= all.len(),
            pact_views(source@) == all.subrange(done, all.len() as int),
            pact_views(out@) == keyed(all.subrange(0, done)),
            distinct_pacts(pact_views(out@)),
        decreases source.len(),
    {
        let ghost before = pact_views(out@);
        let ghost rest = pact_views(source@);
        let pact = source.remove(0);
        proof {
            assert(rest.len() == all.len() - done);
            assert(pact@ == rest[0]);
            assert(pact@ == all[done]);
            assert(pact_views(source@) =~= all.subrange(done + 1, all.len() as int)) by {
                assert forall|k: int| 0 <= k < source@.len() implies pact_views(source@)[k]
                    == all.subrange(done + 1, all.len() as int)[k] by {
                    assert(source@[k]@ == rest[k + 1]);
                }
            }
            assert(all.subrange(0, done + 1).drop_last() =~= all.subrange(0, done));
            lemma_with_pact_distinct(before, pact@);
        }
        match find_pact(&out, pact.consumer.as_str(), pact.provider.as_str()) {
            Some(k) => {
                out.set(k, pact);
                assert(pact_views(out@) =~= before.update(k as int, pact@));
            },
            None => {
                out.push(pact);
                assert(pact_views(out@) =~= before.push(pact@));
            },
        }
        proof {
            done = done + 1;
        }
    }
    proof {
        assert(all.subrange(0, done) =~= all);
    }
    out
}

/// Adds the interaction to the end of the document and records its place
/// in the index under the request's path.
fn add_interaction_and_amend_index(
    pact_request: &HttpRequest,
    pact: &mut Pact,
    interaction_index: &mut InteractionIndex,
    interaction: Interaction,
) -> (r: Result<(), ProxyError>)
    requires
        index_matches(old(interaction_index)@, old(pact)@.interactions),
        interaction@.description == pact_request@.path,
    ensures
        r is Ok,
        final(pact)@ == (PactView {
            interactions: old(pact)@.interactions.push(interaction@),
            ..old(pact)@
        }),
        final(interaction_index)@ == with_position(
            old(interaction_index)@,
            pact_request@.path,
            old(pact)@.interactions.len() as int,
        ),
        index_matches(final(interaction_index)@, final(pact)@.interactions),
{
    let new_item_index = pact.interactions.len();
    let ghost before = pact@.interactions;
    proof {
        lemma_record_keeps_agreement(interaction_index@, before, interaction@);
    }
    pact.interactions.push(interaction);
    interaction_index.record(pact_request.path.as_str(), new_item_index);
    assert(pact@.interactions =~= before.push(interaction@));
    Ok(())
}

/// Records the exchange in the document: a new interaction, described by
/// the request's path, goes to the end, and the index points at it.
pub fn add_interaction_to_pact(
    pact_request: &HttpRequest,
    pact_response: &HttpResponse,
    pact: &mut Pact,
    interaction_index: &mut InteractionIndex,
) -> (r: Result<(), ProxyError>)
    requires
        index_matches(old(interaction_index)@, old(pact)@.interactions),
    ensures
        r is Ok,
        final(pact)@ == (PactView {
            interactions: old(pact)@.interactions.push(
                recorded(pact_request@, pact_response@),
            ),
            ..old(pact)@
        }),
        final(interaction_index)@ == with_position(
            old(interaction_index)@,
            pact_request@.path,
            old(pact)@.interactions.len() as int,
        ),
        index_matches(final(interaction_index)@, final(pact)@.interactions),
{
    let interaction = Interaction {
        description: pact_request.path.clone(),
        request: pact_request.copy(),
        response: pact_response.copy(),
    };
    add_interaction_and_amend_index(pact_request, pact, interaction_index, interaction)
}

/// The index of each document, in the documents' order.
pub fn make_interaction_index_map(pacts: &Vec<Pact>) -> (r: Vec<InteractionIndex>)
    ensures
        r@.len() == pacts@.len(),
        forall|k: int|
            0 <= k < pacts@.len() ==> index_matches(
                (#[trigger] r@[k])@,
                pacts@[k]@.interactions,
            ),
{
    let mut r: Vec<InteractionIndex> = Vec::new();
    let mut k: usize = 0;
    while k < pacts.len()
        invariant
            k <= pacts.len(),
            r@.len() == k,
            forall|j: int|
                0 <= j < k ==> index_matches((#[trigger] r@[j])@, pacts@[j]@.interactions),
        decreases pacts.len() - k,
    {
        r.push(InteractionIndex::from_interactions(&pacts[k].interactions));
        k += 1;
    }
    r
}

/// The key under which a request to the parsed target is recorded: the
/// fixed consumer and, as provider, the target's host.
pub open spec fn key_of_url(
    url: (Seq<char>, Option<Seq<char>>, Option<Seq<char>>, Seq<(Seq<char>, Seq<char>)>),
) -> Result<(Seq<char>, Seq<char>), ProxyError> {
    match url.2 {
        Some(host) => Ok(("consumer"@, host)),
        None => Err(ProxyError::TranslationError),
    }
}

/// The key under which a request is recorded: its path is read as a URL.
pub open spec fn key_of_path(path: Seq<char>) -> Result<(Seq<char>, Seq<char>), ProxyError> {
    match parsed_url(path) {
        Some(url) => key_of_url(url),
        None => Err(ProxyError::TranslationError),
    }
}

/// The key under which a request to the parsed target is recorded.
pub fn consumer_provider_of_url(url: &UrlParts) -> (r: Result<(String, String), ProxyError>)
    ensures
        match r {
            Ok(key) => key_of_url(url@) == Ok::<(Seq<char>, Seq<char>), ProxyError>(
                (key.0@, key.1@),
            ),
            Err(e) => key_of_url(url@) == Err::<(Seq<char>, Seq<char>), ProxyError>(e),
        },
{
    match &url.host_str {
        Some(host) => Ok((String::from_str(CONSUMER_NAME), host.clone())),
        None => Err(ProxyError::TranslationError),
    }
}

/// The key under which a request is recorded. A path that is no URL, or a
/// URL without a host, is a translation error.
pub fn get_consumer_provider(pact_request: &HttpRequest) -> (r: Result<
    (String, String),
    ProxyError,
>)
    ensures
        match r {
            Ok(key) => key_of_path(pact_request@.path) == Ok::<(Seq<char>, Seq<char>), ProxyError>(
                (key.0@, key.1@),
            ),
            Err(e) => key_of_path(pact_request@.path) == Err::<(Seq<char>, Seq<char>), ProxyError>(
                e,
            ),
        },
{
    match parse_url(pact_request.path.as_str()) {
        Ok(url) => consumer_provider_of_url(&url),
        Err(_) => Err(ProxyError::TranslationError),
    }
}

} // verus!
