//! The forwarding engine: the retry policy, and what is done to the
//! answer of the target before it is recorded.

use crate::error::ProxyError;
use crate::model::{BodyView, ContentType, HttpResponse, OptionalBody, ResponseView};
use crate::multimap::{has_key, texts, with_values, MultiMap};
use crate::pact_to_response::{encoded, pact_response_to_http_response, WireResponse, WireView};
use crate::response_to_pact::{reqwest_response_to_pact, response_of, UpstreamResponse, UpstreamView};
use vstd::prelude::*;

verus! {

/// How often the target is tried at most.
pub const MAX_ATTEMPTS: u32 = 5;

/// How long to wait after an attempt that failed, in milliseconds.
pub const BACKOFF_MILLIS: u64 = 1000;

/// The error of `serde_json`.
#[verifier::external_type_specification]
#[verifier::external_body]
pub struct ExJsonError(serde_json::Error);

/// What `serde_json` writes for the value that it reads from the bytes:
/// nothing where the bytes are no JSON.
pub uninterp spec fn canonical_json(body: Seq<u8>) -> Option<Seq<u8>>;

/// Calls `serde_json::from_slice` for a `serde_json::Value` and
/// `serde_json::to_string` on that value. Trusted: the result is what
/// `canonical_json` names for these bytes, and an error comes exactly
/// where `canonical_json` is nothing.
#[verifier::external_body]
fn reserialize_json(body: &Vec<u8>) -> (r: Result<Vec<u8>, serde_json::Error>)
    ensures
        match r {
            Ok(b) => canonical_json(body@) == Some(b@),
            Err(_) => canonical_json(body@).is_none(),
        },
{
    let value = serde_json::from_slice::<serde_json::Value>(body)?;
    Ok(serde_json::to_string(&value)?.into_bytes())
}

/// The digit `d` as a text.
pub open spec fn digit_text(d: nat) -> Seq<char> {
    if d == 0 {
        "0"@
    } else if d == 1 {
        "1"@
    } else if d == 2 {
        "2"@
    } else if d == 3 {
        "3"@
    } else if d == 4 {
        "4"@
    } else if d == 5 {
        "5"@
    } else if d == 6 {
        "6"@
    } else if d == 7 {
        "7"@
    } else if d == 8 {
        "8"@
    } else {
        "9"@
    }
}

/// The number in decimal digits, without leading zeros.
pub open spec fn decimal(n: nat) -> Seq<char>
    decreases n,
{
    if n < 10 {
        digit_text(n)
    } else {
        decimal(n / 10) + digit_text(n % 10)
    }
}

/// The digit as a text.
fn digit_str(d: usize) -> (r: &'static str)
    requires
        d < 10,
    ensures
        r@ == digit_text(d as nat),
{
    if d == 0 {
        "0"
    } else if d == 1 {
        "1"
    } else if d == 2 {
        "2"
    } else if d == 3 {
        "3"
    } else if d == 4 {
        "4"
    } else if d == 5 {
        "5"
    } else if d == 6 {
        "6"
    } else if d == 7 {
        "7"
    } else if d == 8 {
        "8"
    } else {
        "9"
    }
}

/// The number in decimal digits.
pub fn decimal_text(n: usize) -> (r: String)
    ensures
        r@ == decimal(n as nat),
    decreases n,
{
    if n < 10 {
        String::from_str(digit_str(n))
    } else {
        let mut text = decimal_text(n / 10);
        text.append(digit_str(n % 10));
        text
    }
}

/// The headers with the value of `content-length`, where it is held, set
/// to the length; headers that do not hold it are left as they are.
pub open spec fn with_content_length(
    headers: Option<Seq<(Seq<char>, Seq<Seq<char>>)>>,
    length: nat,
) -> Option<Seq<(Seq<char>, Seq<Seq<char>>)>> {
    match headers {
        Some(h) => if has_key(h, "content-length"@) {
            Some(with_values(h, "content-length"@, seq![decimal(length)]))
        } else {
            headers
        },
        None => None,
    }
}

/// The response with its `content-length`, where it has one and a
/// present body, set to the length of the body.
pub open spec fn length_adjusted(response: ResponseView) -> ResponseView {
    match response.body {
        BodyView::Present(bytes, _) => ResponseView {
            headers: with_content_length(response.headers, bytes.len()),
            ..response
        },
        _ => response,
    }
}

/// Whether the body says that it is `application/json`.
pub open spec fn claims_json(body: BodyView) -> bool {
    match body.content_type() {
        Some(c) => c.main_type == "application"@ && c.sub_type == "json"@,
        None => false,
    }
}

/// The response as it is recorded, given what the JSON writer made of
/// the body: a body that claims to be JSON is replaced by the rewritten
/// bytes and the `content-length` follows it; a claimed JSON body that
/// is none is an error; any other response is left as it is.
pub open spec fn normalized_with(response: ResponseView, rewritten: Option<Seq<u8>>) -> Result<
    ResponseView,
    ProxyError,
> {
    if claims_json(response.body) {
        match rewritten {
            Some(bytes) => Ok(
                length_adjusted(
                    ResponseView {
                        body: BodyView::Present(bytes, response.body.content_type()),
                        ..response
                    },
                ),
            ),
            None => Err(ProxyError::SerializationError),
        }
    } else {
        Ok(response)
    }
}

/// The response as it is recorded.
pub open spec fn normalized(response: ResponseView) -> Result<ResponseView, ProxyError> {
    normalized_with(response, canonical_json(response.body.wire_bytes()))
}

/// Sets `content-length`, where the response has that header and a
/// present body, to the length of the body.
pub fn adjust_content_length(pact_response: &mut HttpResponse) -> (r: Result<(), ProxyError>)
    requires
        old(pact_response).wf(),
    ensures
        r is Ok,
        final(pact_response).wf(),
        final(pact_response)@ == length_adjusted(old(pact_response)@),
{
    let length = match &pact_response.body {
        OptionalBody::Present(body, _) => body.len(),
        _ => {
            return Ok(());
        },
    };
    let mut headers: Option<MultiMap> = None;
    std::mem::swap(&mut headers, &mut pact_response.headers);
    match headers {
        Some(mut h) => {
            if h.contains_key("content-length") {
                let mut values: Vec<String> = Vec::new();
                values.push(decimal_text(length));
                assert(texts(values@) =~= seq![decimal(length as nat)]);
                h.insert("content-length", values);
            }
            pact_response.headers = Some(h);
        },
        None => {},
    }
    Ok(())
}

/// Puts the rewritten bytes in the place of the body, under the content
/// type.
pub fn set_rewritten_body(
    pact_response: &mut HttpResponse,
    rewritten: Vec<u8>,
    content_type: ContentType,
)
    ensures
        final(pact_response)@ == (ResponseView {
            body: BodyView::Present(rewritten@, Some(content_type@)),
            ..old(pact_response)@
        }),
        final(pact_response).headers == old(pact_response).headers,
{
    pact_response.body = OptionalBody::Present(rewritten, Some(content_type));
}

/// Rewrites a present body through the JSON writer. Bytes that are no
/// JSON are an error, and the response is left as it is.
pub fn adjust_body_to_pact_serialization(
    pact_response: &mut HttpResponse,
    content_type: ContentType,
) -> (r: Result<(), ProxyError>)
    ensures
        final(pact_response).headers == old(pact_response).headers,
        match old(pact_response)@.body {
            BodyView::Present(bytes, _) => match canonical_json(bytes) {
                Some(rewritten) => r is Ok && final(pact_response)@ == (ResponseView {
                    body: BodyView::Present(rewritten, Some(content_type@)),
                    ..old(pact_response)@
                }),
                None => r == Err::<(), ProxyError>(ProxyError::SerializationError) && final(pact_response)@ == old(pact_response)@,
            },
            _ => r is Ok && final(pact_response)@ == old(pact_response)@,
        },
{
    let rewritten = match &pact_response.body {
        OptionalBody::Present(body, _) => reserialize_json(body),
        _ => {
            return Ok(());
        },
    };
    match rewritten {
        Ok(bytes) => {
            set_rewritten_body(pact_response, bytes, content_type);
            Ok(())
        },
        Err(_) => Err(ProxyError::SerializationError),
    }
}

/// Brings the response into the form in which it is recorded: a body
/// that claims to be JSON is rewritten, and the `content-length`, where
/// there is one, follows it.
pub fn adjust_body_and_content_length(pact_response: &mut HttpResponse) -> (r: Result<
    (),
    ProxyError,
>)
    requires
        old(pact_response).wf(),
    ensures
        final(pact_response).wf(),
        match r {
            Ok(_) => normalized(old(pact_response)@) == Ok::<ResponseView, ProxyError>(
                final(pact_response)@,
            ),
            Err(e) => normalized(old(pact_response)@) == Err::<ResponseView, ProxyError>(e)
                && final(pact_response)@ == old(pact_response)@,
        },
{
    let content_type = match pact_response.body.content_type() {
        Some(content_type) => content_type,
        None => {
            return Ok(());
        },
    };
    if content_type.is_application_json() {
        match adjust_body_to_pact_serialization(pact_response, content_type) {
            Ok(_) => {},
            Err(e) => {
                return Err(e);
            },
        }
        adjust_content_length(pact_response)
    } else {
        Ok(())
    }
}

/// What the answer of the target becomes: the canonical response as it
/// is recorded, and its encoding for the wire.
pub open spec fn answer_of(upstream: UpstreamView) -> Result<(ResponseView, WireView), ProxyError> {
    match response_of(upstream) {
        Ok(response) => match normalized(response) {
            Ok(adjusted) => Ok((adjusted, encoded(adjusted))),
            Err(e) => Err(e),
        },
        Err(e) => Err(e),
    }
}

/// Turns the answer of the target into the response to record and the
/// response to send back.
pub fn get_response_from_web(upstream: &UpstreamResponse) -> (r: Result<
    (HttpResponse, WireResponse),
    ProxyError,
>)
    ensures
        match r {
            Ok(pair) => answer_of(upstream@) == Ok::<(ResponseView, WireView), ProxyError>(
                (pair.0@, pair.1@),
            ) && pair.0.wf(),
            Err(e) => answer_of(upstream@) == Err::<(ResponseView, WireView), ProxyError>(e),
        },
{
    let mut pact_response = match reqwest_response_to_pact(upstream) {
        Ok(p) => p,
        Err(e) => {
            return Err(e);
        },
    };
    match adjust_body_and_content_length(&mut pact_response) {
        Ok(_) => {},
        Err(e) => {
            return Err(e);
        },
    }
    match pact_response_to_http_response(&pact_response) {
        Ok(response) => Ok((pact_response, response)),
        Err(e) => Err(e),
    }
}

/// How one attempt to reach the target ended.
#[derive(Debug, Clone, Copy, PartialEq, Eq, Structural)]
pub enum SendOutcome {
    /// The target answered with this status.
    Answered(u16),
    /// The request could not be sent, or no answer came.
    Failed,
}

/// What to do after an attempt.
#[derive(Debug, Clone, Copy, PartialEq, Eq, Structural)]
pub enum RetryStep {
    /// Take the answer: it is a success.
    Deliver,
    /// Wait this many milliseconds, then send again.
    WaitThenSend(u64),
    /// Wait this many milliseconds, then fail with this error: the
    /// attempts are used up.
    WaitThenFail(u64, ProxyError),
}

/// Whether the attempt ended in an answer with a status from 200 to 299.
pub open spec fn is_success(outcome: SendOutcome) -> bool {
    match outcome {
        SendOutcome::Answered(status) => 200 <= status < 300,
        SendOutcome::Failed => false,
    }
}

/// What to do after the attempt with this number (the first is 1) ended
/// in this outcome.
pub open spec fn step_after(attempt: nat, outcome: SendOutcome) -> RetryStep {
    if is_success(outcome) {
        RetryStep::Deliver
    } else if attempt < 5 {
        RetryStep::WaitThenSend(1000)
    } else {
        RetryStep::WaitThenFail(1000, ProxyError::ForwardingExhausted)
    }
}

/// How many attempts are made when the attempts from number `attempt` on
/// end in `outcomes`, one after the other.
pub open spec fn attempts_made(attempt: nat, outcomes: Seq<SendOutcome>) -> nat
    decreases outcomes.len(),
{
    if outcomes.len() == 0 {
        0
    } else {
        match step_after(attempt, outcomes[0]) {
            RetryStep::WaitThenSend(_) => 1 + attempts_made(attempt + 1, outcomes.drop_first()),
            _ => 1,
        }
    }
}

/// How forwarding ends when the attempts from number `attempt` on end in
/// `outcomes`: with the place of the outcome that is delivered, or with
/// an error. Nothing where the outcomes run out before.
pub open spec fn forwarding_end(attempt: nat, outcomes: Seq<SendOutcome>) -> Option<
    Result<int, ProxyError>,
>
    decreases outcomes.len(),
{
    if outcomes.len() == 0 {
        None
    } else {
        match step_after(attempt, outcomes[0]) {
            RetryStep::Deliver => Some(Ok(0)),
            RetryStep::WaitThenFail(_, e) => Some(Err(e)),
            RetryStep::WaitThenSend(_) => match forwarding_end(
                attempt + 1,
                outcomes.drop_first(),
            ) {
                Some(Ok(i)) => Some(Ok(i + 1)),
                other => other,
            },
        }
    }
}

/// A target that never answers with a success is tried exactly five
/// times, however many outcomes stand ready, and forwarding then fails
/// as exhausted.
pub proof fn lemma_retry_bound(outcomes: Seq<SendOutcome>)
    requires
        outcomes.len() >= 5,
        forall|i: int| 0 <= i < 5 ==> !is_success(#[trigger] outcomes[i]),
    ensures
        attempts_made(1, outcomes) == 5,
        forwarding_end(1, outcomes) == Some(
            Err::<int, ProxyError>(ProxyError::ForwardingExhausted),
        ),
{
    let o1 = outcomes.drop_first();
    let o2 = o1.drop_first();
    let o3 = o2.drop_first();
    let o4 = o3.drop_first();
    assert(!is_success(outcomes[0]));
    assert(o1[0] == outcomes[1]);
    assert(o2[0] == outcomes[2]);
    assert(o3[0] == outcomes[3]);
    assert(o4[0] == outcomes[4]);
    assert(attempts_made(5, o4) == 1);
    assert(attempts_made(4, o3) == 2);
    assert(attempts_made(3, o2) == 3);
    assert(attempts_made(2, o1) == 4);
    assert(forwarding_end(5, o4) == Some(Err::<int, ProxyError>(ProxyError::ForwardingExhausted)));
    assert(forwarding_end(4, o3) == Some(Err::<int, ProxyError>(ProxyError::ForwardingExhausted)));
    assert(forwarding_end(3, o2) == Some(Err::<int, ProxyError>(ProxyError::ForwardingExhausted)));
    assert(forwarding_end(2, o1) == Some(Err::<int, ProxyError>(ProxyError::ForwardingExhausted)));
}

/// No more than five attempts are made, whatever the outcomes.
pub proof fn lemma_attempts_bounded(attempt: nat, outcomes: Seq<SendOutcome>)
    requires
        1 <= attempt <= 5,
    ensures
        attempts_made(attempt, outcomes) <= 6 - attempt,
    decreases outcomes.len(),
{
    if outcomes.len() > 0 && attempt < 5 {
        lemma_attempts_bounded(attempt + 1, outcomes.drop_first());
    }
}

/// The count of the attempts to reach the target for one request.
#[derive(Debug, Clone, Copy, PartialEq, Eq, Structural)]
pub struct ForwardState {
    /// How many attempts were made.
    pub attempts: u32,
}

impl ForwardState {
    /// Before the first attempt.
    pub fn new() -> (r: ForwardState)
        ensures
            r.attempts == 0,
    {
        ForwardState { attempts: 0 }
    }

    /// Takes note of one more attempt and says what to do after it: a
    /// success is delivered at once; a failure is followed by the wait,
    /// and by another attempt while fewer than five were made.
    pub fn forward_get_request(self, outcome: SendOutcome) -> (r: (ForwardState, RetryStep))
        requires
            self.attempts < 5,
        ensures
            r.0.attempts == self.attempts + 1,
            r.1 == step_after(self.attempts as nat + 1, outcome),
    {
        let attempts = self.attempts + 1;
        let success = match outcome {
            SendOutcome::Answered(status) => 200 <= status && status < 300,
            SendOutcome::Failed => false,
        };
        let step = if success {
            RetryStep::Deliver
        } else if attempts < MAX_ATTEMPTS {
            RetryStep::WaitThenSend(BACKOFF_MILLIS)
        } else {
            RetryStep::WaitThenFail(BACKOFF_MILLIS, ProxyError::ForwardingExhausted)
        };
        (ForwardState { attempts }, step)
    }
}

} // verus!
