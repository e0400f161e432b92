//! The proxy server: its lifecycle, and what it decides for each
//! request.

use crate::edit::{get_consumer_provider, key_of_path, pact_position, PactFilePath};
use crate::error::ProxyError;
use crate::model::{HttpRequest, HttpResponse, Pact, RequestView};
use crate::pact_to_response::{encoded, pact_response_to_http_response, WireResponse, WireView};
use crate::pacts::{inserted, lookup, Pacts};
use crate::request_to_pact::{http_request_to_pact, translated, InboundRequest, InboundView};
use crate::response_to_pact::{UpstreamResponse, UpstreamView};
use crate::web::{answer_of, get_response_from_web};
use vstd::prelude::*;

verus! {

/// Where a server stands in its life.
#[derive(Debug, Clone, Copy, PartialEq, Eq, Structural)]
pub enum ServerState {
    /// The store is set up; nothing listens yet.
    Created,
    /// The endpoint listens; no loop serves it.
    Bound,
    /// A loop serves the endpoint.
    Running,
    /// The loop was stopped.
    Stopped,
}

/// What the owner of the endpoint has to do after a call.
#[derive(Debug, Clone, Copy, PartialEq, Eq, Structural)]
pub enum ServerAction {
    /// Nothing.
    Nothing,
    /// Run the serving loop on the caller's thread.
    Serve,
    /// Run the serving loop in the background.
    ServeInBackground,
    /// Unblock the endpoint's pending accept.
    Unblock,
    /// Unblock the endpoint's pending accept and wait for the background
    /// loop to end.
    UnblockAndJoin,
}

/// The state after a start: a bound server runs, any other stays as it
/// is.
pub open spec fn after_start(state: ServerState) -> ServerState {
    if state == ServerState::Bound {
        ServerState::Running
    } else {
        state
    }
}

/// The state after a stop: a running server is stopped, any other stays
/// as it is.
pub open spec fn after_stop(state: ServerState) -> ServerState {
    if state == ServerState::Running {
        ServerState::Stopped
    } else {
        state
    }
}

/// A second stop changes nothing, and a stop without a start changes
/// nothing.
pub proof fn lemma_stop_idempotent(state: ServerState)
    ensures
        after_stop(after_stop(state)) == after_stop(state),
        state != ServerState::Running ==> after_stop(state) == state,
        after_stop(state) != ServerState::Running,
{
}

/// The proxy server: the store, the port, and the state of its life.
#[derive(Debug, PartialEq, Eq)]
pub struct PactServer {
    state: ServerState,
    background: bool,
    port: String,
    pacts: Pacts,
}

impl PactServer {
    /// The state of the server's life.
    pub closed spec fn state(&self) -> ServerState {
        self.state
    }

    /// Whether the loop, if one runs, runs in the background.
    pub closed spec fn in_background(&self) -> bool {
        self.background
    }

    /// The port as a text.
    pub closed spec fn port_text(&self) -> Seq<char> {
        self.port@
    }

    /// The store.
    pub closed spec fn store(&self) -> Pacts {
        self.pacts
    }

    /// The store is well formed.
    pub open spec fn wf(&self) -> bool {
        self.store().wf()
    }

    /// A server for the port, over a store of the documents that were
    /// read from the folder. Nothing listens yet.
    pub fn with_http_server(pacts_folder: &str, pacts: Vec<Pact>, port: String) -> (r: PactServer)
        ensures
            r.wf(),
            r.state() == ServerState::Created,
            !r.in_background(),
            r.port_text() == port@,
            r.store()@ == crate::edit::keyed(crate::edit::pact_views(pacts@)),
            r.store().folder() == pacts_folder@,
    {
        PactServer {
            state: ServerState::Created,
            background: false,
            port,
            pacts: Pacts::load(pacts, String::from_str(pacts_folder)),
        }
    }

    /// Takes note that the endpoint listens.
    pub fn bound(&mut self)
        ensures
            final(self).state() == if old(self).state() == ServerState::Created {
                ServerState::Bound
            } else {
                old(self).state()
            },
            final(self).in_background() == old(self).in_background(),
            final(self).port_text() == old(self).port_text(),
            final(self).store() == old(self).store(),
    {
        if self.state == ServerState::Created {
            self.state = ServerState::Bound;
        }
    }

    /// The port that the server listens on.
    pub fn port(&self) -> (r: Result<String, ProxyError>)
        ensures
            r is Ok,
            r.unwrap()@ == self.port_text(),
    {
        Ok(self.port.clone())
    }

    /// Starts the serving loop on the caller's thread. Only a bound
    /// server starts.
    pub fn start_blocking(&mut self) -> (r: ServerAction)
        ensures
            final(self).state() == after_start(old(self).state()),
            final(self).port_text() == old(self).port_text(),
            final(self).store() == old(self).store(),
            old(self).state() == ServerState::Bound ==> r == ServerAction::Serve && !final(self).in_background(),
            old(self).state() != ServerState::Bound ==> r == ServerAction::Nothing && final(self).in_background() == old(self).in_background(),
    {
        if self.state == ServerState::Bound {
            self.state = ServerState::Running;
            self.background = false;
            ServerAction::Serve
        } else {
            ServerAction::Nothing
        }
    }

    /// Starts the serving loop in the background. Only a bound server
    /// starts.
    pub fn start_non_blocking(&mut self) -> (r: ServerAction)
        ensures
            final(self).state() == after_start(old(self).state()),
            final(self).port_text() == old(self).port_text(),
            final(self).store() == old(self).store(),
            old(self).state() == ServerState::Bound ==> r == ServerAction::ServeInBackground
                && final(self).in_background(),
            old(self).state() != ServerState::Bound ==> r == ServerAction::Nothing && final(self).in_background() == old(self).in_background(),
    {
        if self.state == ServerState::Bound {
            self.state = ServerState::Running;
            self.background = true;
            ServerAction::ServeInBackground
        } else {
            ServerAction::Nothing
        }
    }

    /// Stops a running server: the endpoint is to be unblocked and a
    /// background loop waited for. On a server that does not run this
    /// does nothing.
    pub fn stop(&mut self) -> (r: Result<ServerAction, ProxyError>)
        ensures
            r is Ok,
            final(self).state() == after_stop(old(self).state()),
            final(self).port_text() == old(self).port_text(),
            final(self).store() == old(self).store(),
            final(self).in_background() == old(self).in_background(),
            r.unwrap() == if old(self).state() != ServerState::Running {
                ServerAction::Nothing
            } else if old(self).in_background() {
                ServerAction::UnblockAndJoin
            } else {
                ServerAction::Unblock
            },
    {
        if !self.is_running() {
            return Ok(ServerAction::Nothing);
        }
        self.state = ServerState::Stopped;
        if self.background {
            Ok(ServerAction::UnblockAndJoin)
        } else {
            Ok(ServerAction::Unblock)
        }
    }

    /// Whether a loop serves the endpoint.
    pub fn is_running(&self) -> (r: bool)
        ensures
            r == (self.state() == ServerState::Running),
    {
        self.state == ServerState::Running
    }

    /// What to do with an inbound request.
    pub fn get_response(&self, request: &InboundRequest) -> (r: Result<Reply, ProxyError>)
        requires
            self.wf(),
        ensures
            reply_view(r) == reply_of(self.store()@, request@),
    {
        get_response(&self.pacts, request)
    }

    /// Records the answer of the target for a request that missed.
    pub fn response_when_no_interaction(
        &mut self,
        pact_request: &HttpRequest,
        consumer_provider: &(String, String),
        upstream: &UpstreamResponse,
    ) -> (r: Result<Recorded, ProxyError>)
        requires
            old(self).wf(),
        ensures
            final(self).wf(),
            final(self).state() == old(self).state(),
            final(self).in_background() == old(self).in_background(),
            final(self).port_text() == old(self).port_text(),
            final(self).store().folder() == old(self).store().folder(),
            recorded_as(
                r,
                old(self).store()@,
                final(self).store()@,
                old(self).store().folder(),
                pact_request@,
                consumer_provider.0@,
                consumer_provider.1@,
                upstream@,
            ),
    {
        response_when_no_interaction(&mut self.pacts, pact_request, consumer_provider, upstream)
    }
}

/// What the server does with an inbound request.
#[derive(Debug, PartialEq, Eq)]
pub enum Reply {
    /// The store holds the answer: send it.
    Replay(WireResponse),
    /// The store holds none: send the request on and record the answer
    /// under the consumer and the provider.
    Forward(HttpRequest, String, String),
}

/// What a reply says.
pub enum ReplyView {
    Replay(WireView),
    Forward(RequestView, Seq<char>, Seq<char>),
}

impl View for Reply {
    type V = ReplyView;

    open spec fn view(&self) -> ReplyView {
        match self {
            Reply::Replay(w) => ReplyView::Replay(w@),
            Reply::Forward(request, consumer, provider) => ReplyView::Forward(
                request@,
                consumer@,
                provider@,
            ),
        }
    }
}

/// The view of a reply or the error.
pub open spec fn reply_view(r: Result<Reply, ProxyError>) -> Result<ReplyView, ProxyError> {
    match r {
        Ok(reply) => Ok(reply@),
        Err(e) => Err(e),
    }
}

/// What is done with an inbound request: it is translated, its key is
/// read off the target, and the store is asked for the target under the
/// key. An error at any step ends the request.
pub open spec fn reply_of(
    pacts: Seq<crate::model::PactView>,
    inbound: InboundView,
) -> Result<ReplyView, ProxyError> {
    match translated(inbound) {
        Err(e) => Err(e),
        Ok(request) => match key_of_path(request.path) {
            Err(e) => Err(e),
            Ok(key) => match lookup(pacts, key.0, key.1, request.path) {
                Some(response) => Ok(ReplyView::Replay(encoded(response))),
                None => Ok(ReplyView::Forward(request, key.0, key.1)),
            },
        },
    }
}

/// A request that is no GET is refused whatever the store holds.
pub proof fn lemma_method_gate(pacts: Seq<crate::model::PactView>, inbound: InboundView)
    requires
        inbound.method != "GET"@,
    ensures
        translated(inbound) == Err::<RequestView, ProxyError>(ProxyError::UnsupportedMethod),
        reply_of(pacts, inbound) == Err::<ReplyView, ProxyError>(ProxyError::UnsupportedMethod),
{
}

/// The wire response for a response that the store holds.
pub fn response_when_interaction_exists(pact_response: &HttpResponse) -> (r: Result<
    WireResponse,
    ProxyError,
>)
    ensures
        r is Ok,
        r.unwrap()@ == encoded(pact_response@),
{
    pact_response_to_http_response(pact_response)
}

/// Decides what to do with an inbound request. The store is read, never
/// changed.
pub fn get_response(pacts: &Pacts, request: &InboundRequest) -> (r: Result<Reply, ProxyError>)
    requires
        pacts.wf(),
    ensures
        reply_view(r) == reply_of(pacts@, request@),
{
    let pact_request = match http_request_to_pact(request) {
        Ok(p) => p,
        Err(e) => {
            return Err(e);
        },
    };
    let consumer_provider = match get_consumer_provider(&pact_request) {
        Ok(key) => key,
        Err(e) => {
            return Err(e);
        },
    };
    match pacts.get_pact_response(
        consumer_provider.0.as_str(),
        consumer_provider.1.as_str(),
        pact_request.path.as_str(),
    ) {
        Some(pact_response) => match response_when_interaction_exists(&pact_response) {
            Ok(w) => Ok(Reply::Replay(w)),
            Err(e) => Err(e),
        },
        None => Ok(Reply::Forward(pact_request, consumer_provider.0, consumer_provider.1)),
    }
}

/// What came of recording an answer: the response to send back, and the
/// document to write with the file to write it to.
#[derive(Debug, PartialEq, Eq)]
pub struct Recorded {
    pub response: WireResponse,
    pub path: PactFilePath,
    pub pact: Pact,
}

/// How the outcome of recording relates to the store before and after:
/// an answer that cannot be brought into canonical form is an error and
/// leaves the store as it was; any other is recorded under the key, and
/// the outcome holds its encoding, the key's document as it then stands
/// and the file of that document.
pub open spec fn recorded_as(
    r: Result<Recorded, ProxyError>,
    before: Seq<crate::model::PactView>,
    after: Seq<crate::model::PactView>,
    folder: Seq<char>,
    request: RequestView,
    consumer: Seq<char>,
    provider: Seq<char>,
    upstream: UpstreamView,
) -> bool {
    match answer_of(upstream) {
        Err(e) => r == Err::<Recorded, ProxyError>(e) && after == before,
        Ok(answer) => {
            &&& r is Ok
            &&& r.unwrap().response@ == answer.1
            &&& after == inserted(before, consumer, provider, request, answer.0)
            &&& lookup(after, consumer, provider, request.path) == Some(answer.0)
            &&& crate::edit::has_pact(after, consumer, provider)
            &&& r.unwrap().pact@ == after[pact_position(after, consumer, provider)]
            &&& r.unwrap().path.folder@ == folder
            &&& r.unwrap().path.file_name@ == consumer + "-"@ + provider + ".json"@
        },
    }
}

/// Records the answer of the target for a request that missed: the
/// answer is normalised and recorded under the key, and the document is
/// handed out to be written.
pub fn response_when_no_interaction(
    pacts: &mut Pacts,
    pact_request: &HttpRequest,
    consumer_provider: &(String, String),
    upstream: &UpstreamResponse,
) -> (r: Result<Recorded, ProxyError>)
    requires
        old(pacts).wf(),
    ensures
        final(pacts).wf(),
        final(pacts).folder() == old(pacts).folder(),
        recorded_as(
            r,
            old(pacts)@,
            final(pacts)@,
            old(pacts).folder(),
            pact_request@,
            consumer_provider.0@,
            consumer_provider.1@,
            upstream@,
        ),
{
    let (pact_response, response) = match get_response_from_web(upstream) {
        Ok(pair) => pair,
        Err(e) => {
            return Err(e);
        },
    };
    let consumer = consumer_provider.0.as_str();
    let provider = consumer_provider.1.as_str();
    match pacts.add_interaction(consumer, provider, pact_request, &pact_response) {
        Ok(_) => {},
        Err(e) => {
            return Err(e);
        },
    }
    match pacts.save_pact(consumer, provider) {
        Ok(job) => Ok(Recorded { response, path: job.0, pact: job.1 }),
        Err(e) => Err(e),
    }
}

} // verus!
