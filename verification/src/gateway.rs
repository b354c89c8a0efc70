//! The decision pipeline of the gateway: what is done for one authorization
//! request, between its arrival and the answer.
//!
//! The pipeline decides; it does not itself decode or encode payloads, nor
//! evaluate policy. Each step takes what happened last and says what is to
//! be done next. The cache is touched by the first step of a request and by
//! its last, and by none in between, so a caller that shares the cache holds
//! its lock for one step at a time and never while policy is evaluated.
//!
//! Requests are not coalesced: two requests that miss on the same key at the
//! same time are each evaluated, and the later write wins.

use vstd::prelude::*;
use vstd::string::*;
use crate::clock::LAST_READING;
use crate::entry::Entry;
use crate::error::CacheError;
use crate::json::{flag_at, member_at, read_flag, read_member, read_text, text_at};
use crate::lru_ttl::LRUTTLCache;
use crate::model::{after_get, after_set, lookup, well_formed};
use crate::laws::{
    law_get_keeps_bound, law_read_after_write, law_read_keeps_others, law_write_keeps_others,
    law_write_serves_no_other,
};
use crate::policy::{expiry_at, fresh_entry, ttl_complaint, ttl_in_range};
use crate::text::{free_of, lemma_split_at_separator};

verus! {

/// The seconds for which a decision is cached, and which the response names.
pub const DECISION_TTL: u32 = 300;

/// The status of a response that reports a failure of the server.
pub const SERVER_ERROR: u16 = 500;

/// The caller on whose behalf a request is made.
#[derive(Debug, Clone)]
pub struct UserContext {
    pub user_id: String,
    pub email: String,
    pub roles: Vec<String>,
    pub permissions: Vec<String>,
}

/// An authorization request as the gateway receives it.
#[derive(Debug, Clone)]
pub struct GatewayAuthRequest {
    pub action: String,
    pub server_name: String,
    pub tool_name: String,
    pub parameters: Option<serde_json::Value>,
    pub context: Option<serde_json::Value>,
    pub sensitivity_level: Option<String>,
}

/// The answer to an authorization request.
#[derive(Debug, Clone)]
pub struct GatewayAuthResponse {
    pub allow: bool,
    pub reason: String,
    pub filtered_parameters: Option<serde_json::Value>,
    pub cache_ttl: u32,
}

/// The resource that a request is about, as the policy engine is told.
#[derive(Debug, Clone)]
pub struct PolicyResource {
    pub server: String,
    pub tool: String,
    pub sensitivity: String,
}

/// The document that the policy engine evaluates.
#[derive(Debug, Clone)]
pub struct PolicyInput {
    pub user: UserContext,
    pub action: String,
    pub resource: PolicyResource,
    pub parameters: Option<serde_json::Value>,
    pub context: Option<serde_json::Value>,
}

/// What the pipeline reads of the document that the policy engine returns.
/// A field that the document lacks, or holds with another type, is `None`.
#[derive(Debug, Clone)]
pub struct PolicyDecision {
    pub allow: Option<bool>,
    pub reason: Option<String>,
    pub filtered_parameters: Option<serde_json::Value>,
}

/// The rule that the policy engine is asked to evaluate.
pub open spec fn policy_rule_text() -> Seq<char> {
    "data.mcp.gateway.allow"@
}

/// The sensitivity of a resource whose request names none.
pub open spec fn default_sensitivity_text() -> Seq<char> {
    "medium"@
}

/// The reason of a decision whose document gives none.
pub open spec fn default_reason_text() -> Seq<char> {
    "Policy evaluated"@
}

/// The cache key of a decision: the caller, the action and the resource,
/// which is a tool on a server, behind a fixed prefix and parted by colons.
pub open spec fn cache_key_text(
    subject: Seq<char>,
    action: Seq<char>,
    server: Seq<char>,
    tool: Seq<char>,
) -> Seq<char> {
    "auth:"@ + subject + seq![':'] + action + seq![':'] + server + seq![':'] + tool
}

/// The cache key of the decision on `request`, made on behalf of `user`.
pub open spec fn request_key(user: UserContext, request: GatewayAuthRequest) -> Seq<char> {
    cache_key_text(user.user_id@, request.action@, request.server_name@, request.tool_name@)
}

/// Composes the cache key of a decision.
pub fn cache_key(subject: &str, action: &str, server: &str, tool: &str) -> (key: String)
    ensures
        key@ == cache_key_text(subject@, action@, server@, tool@),
{
    proof {
        reveal_strlit(":");
    }
    let mut key = "auth:".to_owned();
    key.append(subject);
    key.append(":");
    key.append(action);
    key.append(":");
    key.append(server);
    key.append(":");
    key.append(tool);
    assert(":"@ =~= seq![':']);
    key
}

/// Distinct requests have distinct cache keys: where neither the caller nor
/// the action nor the server holds a colon, the key determines caller,
/// action, server and tool.
pub proof fn law_cache_key_injective(
    subject: Seq<char>,
    action: Seq<char>,
    server: Seq<char>,
    tool: Seq<char>,
    other_subject: Seq<char>,
    other_action: Seq<char>,
    other_server: Seq<char>,
    other_tool: Seq<char>,
)
    requires
        free_of(subject, ':'),
        free_of(action, ':'),
        free_of(server, ':'),
        free_of(other_subject, ':'),
        free_of(other_action, ':'),
        free_of(other_server, ':'),
        cache_key_text(subject, action, server, tool) == cache_key_text(
            other_subject,
            other_action,
            other_server,
            other_tool,
        ),
    ensures
        subject == other_subject,
        action == other_action,
        server == other_server,
        tool == other_tool,
{
    let prefix = "auth:"@;
    let resource = server + seq![':'] + tool;
    let other_resource = other_server + seq![':'] + other_tool;
    let tail = action + seq![':'] + resource;
    let other_tail = other_action + seq![':'] + other_resource;
    let l = cache_key_text(subject, action, server, tool);
    let r = cache_key_text(other_subject, other_action, other_server, other_tool);
    assert(l =~= prefix + (subject + seq![':'] + tail));
    assert(r =~= prefix + (other_subject + seq![':'] + other_tail));
    let a = subject + seq![':'] + tail;
    let b = other_subject + seq![':'] + other_tail;
    assert(a =~= b) by {
        assert(a.len() == b.len());
        assert forall|i: int| 0 <= i < a.len() implies a[i] == b[i] by {
            assert(l[prefix.len() + i] == a[i]);
            assert(r[prefix.len() + i] == b[i]);
        }
    }
    lemma_split_at_separator(subject, tail, other_subject, other_tail, ':');
    lemma_split_at_separator(action, resource, other_action, other_resource, ':');
    lemma_split_at_separator(server, tool, other_server, other_tool, ':');
}

/// `input` is the policy input of `request`, made on behalf of `user`.
pub open spec fn describes(input: PolicyInput, user: UserContext, request: GatewayAuthRequest) -> bool {
    &&& input.user == user
    &&& input.action == request.action
    &&& input.resource.server == request.server_name
    &&& input.resource.tool == request.tool_name
    &&& input.resource.sensitivity@ == match request.sensitivity_level {
        Some(level) => level@,
        None => default_sensitivity_text(),
    }
    &&& input.parameters == request.parameters
    &&& input.context == request.context
}

/// Builds the document that the policy engine evaluates for a request.
pub fn policy_input(user: UserContext, request: GatewayAuthRequest) -> (input: PolicyInput)
    ensures
        describes(input, user, request),
{
    let sensitivity = match request.sensitivity_level {
        Some(level) => level,
        None => "medium".to_owned(),
    };
    PolicyInput {
        user,
        action: request.action,
        resource: PolicyResource {
            server: request.server_name,
            tool: request.tool_name,
            sensitivity,
        },
        parameters: request.parameters,
        context: request.context,
    }
}

/// `response` is the answer that `decision` stands for: it allows only what
/// the decision allows in so many words, gives the decision's reason or the
/// default one, and passes the filtered parameters on.
pub open spec fn normalized(decision: PolicyDecision, response: GatewayAuthResponse) -> bool {
    &&& response.allow == (decision.allow == Some(true))
    &&& response.reason@ == match decision.reason {
        Some(reason) => reason@,
        None => default_reason_text(),
    }
    &&& response.filtered_parameters == decision.filtered_parameters
    &&& response.cache_ttl == DECISION_TTL
}

/// Turns the policy engine's decision into the answer to the request.
pub fn normalize(decision: PolicyDecision) -> (response: GatewayAuthResponse)
    ensures
        normalized(decision, response),
{
    let allow = match decision.allow {
        Some(allow) => allow,
        None => false,
    };
    let reason = match decision.reason {
        Some(reason) => reason,
        None => "Policy evaluated".to_owned(),
    };
    GatewayAuthResponse {
        allow,
        reason,
        filtered_parameters: decision.filtered_parameters,
        cache_ttl: DECISION_TTL,
    }
}

/// Copies an answer.
pub fn copy_response(response: &GatewayAuthResponse) -> (copy: GatewayAuthResponse)
    ensures
        copy == *response,
{
    GatewayAuthResponse {
        allow: response.allow,
        reason: response.reason.clone(),
        filtered_parameters: match &response.filtered_parameters {
            Some(value) => Some(value.clone()),
            None => None,
        },
        cache_ttl: response.cache_ttl,
    }
}

/// `decision` is what the pipeline reads of the document `doc`: the boolean
/// `allow`, the string `reason` and the member `filtered_parameters`, each
/// where the document has it.
pub open spec fn reads_as(doc: serde_json::Value, decision: PolicyDecision) -> bool {
    &&& decision.allow == flag_at(doc, "allow"@)
    &&& decision.reason.deep_view() == text_at(doc, "reason"@)
    &&& decision.filtered_parameters == member_at(doc, "filtered_parameters"@)
}

/// Reads the decision out of the document that the policy engine returned.
pub fn read_decision(doc: &serde_json::Value) -> (decision: PolicyDecision)
    ensures
        reads_as(*doc, decision),
{
    PolicyDecision {
        allow: read_flag(doc, "allow"),
        reason: read_text(doc, "reason"),
        filtered_parameters: read_member(doc, "filtered_parameters"),
    }
}

/// `response` is the answer that the document `doc` stands for: that of the
/// decision read out of it.
pub open spec fn answers(doc: serde_json::Value, response: GatewayAuthResponse) -> bool {
    &&& response.allow == (flag_at(doc, "allow"@) == Some(true))
    &&& response.reason@ == match text_at(doc, "reason"@) {
        Some(reason) => reason,
        None => default_reason_text(),
    }
    &&& response.filtered_parameters == member_at(doc, "filtered_parameters"@)
    &&& response.cache_ttl == DECISION_TTL
}

/// What is said where the policy engine fails, before the engine's own words.
pub open spec fn evaluation_failure_text(detail: Seq<char>) -> Seq<char> {
    "Policy evaluation error: "@ + detail
}

/// What is said where a step is handed an event that its stage does not
/// wait for.
pub open spec fn out_of_order_text() -> Seq<char> {
    "Pipeline event out of order"@
}

/// How far the pipeline has come with one request.
#[derive(Debug)]
pub enum Stage {
    /// Nothing has been done.
    Received,
    /// A cached payload was found under `key` and is being decoded; `input`
    /// is kept for the case that it cannot be.
    Decoding { key: String, input: PolicyInput },
    /// The policy engine has been asked.
    Evaluating { key: String },
    /// The answer `response` has been made and is being encoded for the
    /// cache.
    Encoding { key: String, response: GatewayAuthResponse },
    /// The request has been answered or rejected.
    Finished,
}

/// What happened since the last step.
#[derive(Debug)]
pub enum Event {
    /// A request has arrived, made on behalf of `user`.
    Arrived { user: UserContext, request: GatewayAuthRequest },
    /// The cached payload was decoded, or could not be.
    Decoded(Option<GatewayAuthResponse>),
    /// The policy engine returned a document, or failed with these words.
    Evaluated(Result<serde_json::Value, String>),
    /// The answer was encoded as `payload`, or could not be.
    Encoded { payload: Option<String> },
}

/// What is to be done next.
#[derive(Debug)]
pub enum Action {
    /// Decode this cached payload, and report `Event::Decoded`.
    Decode { payload: String },
    /// Have the policy engine evaluate `rule` on `input`, and report
    /// `Event::Evaluated`.
    Evaluate { rule: String, input: PolicyInput },
    /// Encode this copy of the answer, and report `Event::Encoded`.
    Encode { response: GatewayAuthResponse },
    /// Answer the request. Where the cache rejected the answer, `cache_fault`
    /// says why: the answer stands, and the fault is there to be logged.
    /// Nothing follows.
    Respond { response: GatewayAuthResponse, cache_fault: Option<CacheError> },
    /// Reject the request with this status and message. Nothing follows.
    Reject { status: u16, message: String },
}

/// The next action asks the policy engine to evaluate the rule on `input`.
pub open spec fn asks_engine(action: Action, input: PolicyInput) -> bool {
    action matches Action::Evaluate { rule, input: asked } && rule@ == policy_rule_text() && asked
        == input
}

/// The next action rejects the request as a failure of the server, with
/// `message`.
pub open spec fn rejects(action: Action, message: Seq<char>) -> bool {
    action matches Action::Reject { status, message: said } && status == SERVER_ERROR && said@
        == message
}

/// `fault` is what a write of `payload` at `now`, to live `ttl` seconds,
/// leaves to report: the cache's complaint where a payload came and the
/// time-to-live is out of range, and nothing otherwise.
pub open spec fn write_fault(
    payload: Option<String>,
    ttl: u64,
    now: u64,
    fault: Option<CacheError>,
) -> bool {
    if payload is Some && !ttl_in_range(ttl, now) {
        fault matches Some(CacheError::InvalidTTL(said)) && said@ == ttl_complaint(ttl)
    } else {
        fault is None
    }
}

/// One step of the pipeline at `now`, on a cache that holds `before` and
/// then `after`: from `stage` and `event` to the stage `next` and the
/// action.
///
/// An arrival looks the decision up: a hit is decoded, a miss evaluated. A
/// payload that cannot be decoded counts as a miss. The decision is read out
/// of the engine's document and turned into the answer, which is kept while
/// a copy of it is encoded; a failed evaluation rejects the request and
/// leaves the cache as it was. An encoded answer is written to the cache
/// for the seconds that it names, where the cache accepts it; the answer
/// that was kept is given whether or not it was written, and with it the
/// cache's complaint if there was one. An event that the stage does not wait
/// for rejects the request.
pub open spec fn stepped(
    stage: Stage,
    event: Event,
    before: Seq<Entry>,
    capacity: int,
    now: u64,
    next: Stage,
    action: Action,
    after: Seq<Entry>,
) -> bool {
    match (stage, event) {
        (Stage::Received, Event::Arrived { user, request }) => {
            let key = request_key(user, request);
            &&& after == after_get(before, key, now as int)
            &&& match lookup(before, key, now as int) {
                Some(cached) => {
                    &&& next matches Stage::Decoding { key: kept, input }
                    &&& kept@ == key
                    &&& describes(input, user, request)
                    &&& action matches Action::Decode { payload }
                    &&& payload@ == cached
                },
                None => {
                    &&& next matches Stage::Evaluating { key: kept }
                    &&& kept@ == key
                    &&& action matches Action::Evaluate { rule, input }
                    &&& rule@ == policy_rule_text()
                    &&& describes(input, user, request)
                },
            }
        },
        (Stage::Decoding { key, input }, Event::Decoded(decoded)) => {
            &&& after == before
            &&& match decoded {
                Some(response) => next is Finished && action == (Action::Respond {
                    response,
                    cache_fault: None,
                }),
                None => next == (Stage::Evaluating { key }) && asks_engine(action, input),
            }
        },
        (Stage::Evaluating { key }, Event::Evaluated(outcome)) => {
            &&& after == before
            &&& match outcome {
                Ok(doc) => {
                    &&& next matches Stage::Encoding { key: kept, response }
                    &&& kept == key
                    &&& answers(doc, response)
                    &&& action == (Action::Encode { response })
                },
                Err(detail) => next is Finished && rejects(
                    action,
                    evaluation_failure_text(detail@),
                ),
            }
        },
        (Stage::Encoding { key, response }, Event::Encoded { payload }) => {
            &&& next is Finished
            &&& action matches Action::Respond { response: given, cache_fault }
            &&& given == response
            &&& write_fault(payload, response.cache_ttl as u64, now, cache_fault)
            &&& after == match payload {
                Some(text) => if ttl_in_range(response.cache_ttl as u64, now) {
                    after_set(
                        before,
                        fresh_entry(key@, text@, response.cache_ttl as u64, now),
                        now as int,
                        capacity,
                    )
                } else {
                    before
                },
                None => before,
            }
        },
        _ => next is Finished && rejects(action, out_of_order_text()) && after == before,
    }
}

/// Takes one step of the pipeline at time `now`.
pub fn step(cache: &mut LRUTTLCache, stage: Stage, event: Event, now: u64) -> (out: (Stage, Action))
    ensures
        stepped(
            stage,
            event,
            old(cache)@,
            old(cache).spec_capacity() as int,
            now,
            out.0,
            out.1,
            final(cache)@,
        ),
        final(cache).spec_capacity() == old(cache).spec_capacity(),
        final(cache).spec_default_ttl() == old(cache).spec_default_ttl(),
        well_formed(final(cache)@, final(cache).spec_capacity() as int),
{
    // The cache's bound, for the steps that leave the cache alone.
    let _ = cache.len();
    match (stage, event) {
        (Stage::Received, Event::Arrived { user, request }) => {
            let key = cache_key(
                user.user_id.as_str(),
                request.action.as_str(),
                request.server_name.as_str(),
                request.tool_name.as_str(),
            );
            let cached = cache.get_at(key.as_str(), now);
            let input = policy_input(user, request);
            match cached {
                Some(payload) => (Stage::Decoding { key, input }, Action::Decode { payload }),
                None => (
                    Stage::Evaluating { key },
                    Action::Evaluate { rule: "data.mcp.gateway.allow".to_owned(), input },
                ),
            }
        },
        (Stage::Decoding { key, input }, Event::Decoded(decoded)) => match decoded {
            Some(response) => (Stage::Finished, Action::Respond { response, cache_fault: None }),
            None => (
                Stage::Evaluating { key },
                Action::Evaluate { rule: "data.mcp.gateway.allow".to_owned(), input },
            ),
        },
        (Stage::Evaluating { key }, Event::Evaluated(outcome)) => match outcome {
            Ok(doc) => {
                let response = normalize(read_decision(&doc));
                let copy = copy_response(&response);
                (Stage::Encoding { key, response }, Action::Encode { response: copy })
            },
            Err(detail) => {
                let mut message = "Policy evaluation error: ".to_owned();
                message.append(detail.as_str());
                (Stage::Finished, Action::Reject { status: SERVER_ERROR, message })
            },
        },
        (Stage::Encoding { key, response }, Event::Encoded { payload }) => {
            let cache_fault = match payload {
                Some(text) => match cache.set_at(key, text, Some(response.cache_ttl as u64), now) {
                    Ok(()) => None,
                    Err(fault) => Some(fault),
                },
                None => None,
            };
            (Stage::Finished, Action::Respond { response, cache_fault })
        },
        _ => (
            Stage::Finished,
            Action::Reject { status: SERVER_ERROR, message: "Pipeline event out of order".to_owned() },
        ),
    }
}

/// The step `out` was taken at `now`.
pub open spec fn advanced_at(
    stage: Stage,
    event: Event,
    before: Seq<Entry>,
    capacity: int,
    now: u64,
    out: (Stage, Action),
    after: Seq<Entry>,
) -> bool {
    stepped(stage, event, before, capacity, now, out.0, out.1, after)
}

/// Takes one step of the pipeline at the present time on the cache's
/// clock: `step` with the clock's reading.
pub fn advance(cache: &mut LRUTTLCache, stage: Stage, event: Event) -> (out: (Stage, Action))
    ensures
        exists|now: u64|
            now <= LAST_READING && #[trigger] advanced_at(
                stage,
                event,
                old(cache)@,
                old(cache).spec_capacity() as int,
                now,
                out,
                final(cache)@,
            ),
        final(cache).spec_capacity() == old(cache).spec_capacity(),
        final(cache).spec_default_ttl() == old(cache).spec_default_ttl(),
        well_formed(final(cache)@, final(cache).spec_capacity() as int),
{
    let now = cache.now();
    let ghost before = cache@;
    let ghost capacity = cache.spec_capacity() as int;
    let out = step(cache, stage, event, now);
    assert(advanced_at(stage, event, before, capacity, now, out, cache@));
    out
}

impl Stage {
    /// The most steps that a request at this stage still takes.
    pub open spec fn steps_left(self) -> nat {
        match self {
            Stage::Received => 4,
            Stage::Decoding { .. } => 3,
            Stage::Evaluating { .. } => 2,
            Stage::Encoding { .. } => 1,
            Stage::Finished => 0,
        }
    }
}

/// Control never flows backward: every step brings a request nearer to its
/// end, which it reaches in four steps at most, and the request is answered
/// or rejected exactly when it ends.
pub proof fn law_steps_go_forward(
    stage: Stage,
    event: Event,
    before: Seq<Entry>,
    capacity: int,
    now: u64,
    next: Stage,
    action: Action,
    after: Seq<Entry>,
)
    requires
        stepped(stage, event, before, capacity, now, next, action, after),
    ensures
        next.steps_left() < stage.steps_left() || (stage is Finished && next is Finished),
        next is Finished <==> (action is Respond || action is Reject),
{
}

/// A failure of the cache does not alter the answer: once the decision is
/// made, it is given as it is, whether or not a payload came and whether or
/// not the cache took it. The failure is not lost: the cache's complaint
/// comes with the answer exactly when a payload came and was rejected, and
/// then the cache is as it was.
pub proof fn law_cache_failure_is_harmless(
    key: String,
    response: GatewayAuthResponse,
    payload: Option<String>,
    before: Seq<Entry>,
    capacity: int,
    now: u64,
    next: Stage,
    action: Action,
    after: Seq<Entry>,
)
    requires
        stepped(
            Stage::Encoding { key, response },
            Event::Encoded { payload },
            before,
            capacity,
            now,
            next,
            action,
            after,
        ),
    ensures
        action matches Action::Respond { response: given, cache_fault } && given == response && (
        cache_fault is Some <==> payload is Some && !ttl_in_range(response.cache_ttl as u64, now))
            && (cache_fault is Some ==> after == before),
{
}

/// A failed evaluation is never cached: the step that learns of it rejects
/// the request and leaves the cache as it was.
pub proof fn law_failure_is_not_cached(
    stage: Stage,
    detail: String,
    before: Seq<Entry>,
    capacity: int,
    now: u64,
    next: Stage,
    action: Action,
    after: Seq<Entry>,
)
    requires
        stepped(stage, Event::Evaluated(Err(detail)), before, capacity, now, next, action, after),
    ensures
        after == before,
        next is Finished,
        action is Reject,
{
}

/// A hit does not ask the policy engine: where the cache holds a live
/// payload under the key of the request, the step hands out that payload to
/// be decoded.
pub proof fn law_hit_skips_engine(
    user: UserContext,
    request: GatewayAuthRequest,
    before: Seq<Entry>,
    capacity: int,
    now: u64,
    next: Stage,
    action: Action,
    after: Seq<Entry>,
)
    requires
        stepped(
            Stage::Received,
            Event::Arrived { user, request },
            before,
            capacity,
            now,
            next,
            action,
            after,
        ),
        lookup(before, request_key(user, request), now as int) is Some,
    ensures
        action matches Action::Decode { payload } && Some(payload@) == lookup(
            before,
            request_key(user, request),
            now as int,
        ),
        !(action is Evaluate),
{
}

/// A miss ends in the cache: a request that finds nothing, is evaluated and
/// encoded, is answered with the answer that the engine's document stands
/// for, and its payload is read under the key of the request until the
/// decision expires. No other key is served by it, and where the cache had
/// room every other key is read as before.
pub proof fn law_miss_is_cached(
    user: UserContext,
    request: GatewayAuthRequest,
    doc: serde_json::Value,
    text: String,
    before: Seq<Entry>,
    capacity: int,
    arrived_at: u64,
    evaluated_at: u64,
    encoded_at: u64,
    first: (Stage, Action),
    looked_up: Seq<Entry>,
    second: (Stage, Action),
    evaluated: Seq<Entry>,
    third: (Stage, Action),
    after: Seq<Entry>,
    other: Seq<char>,
    at: u64,
)
    requires
        well_formed(before, capacity),
        lookup(before, request_key(user, request), arrived_at as int) is None,
        stepped(
            Stage::Received,
            Event::Arrived { user, request },
            before,
            capacity,
            arrived_at,
            first.0,
            first.1,
            looked_up,
        ),
        stepped(
            first.0,
            Event::Evaluated(Ok(doc)),
            looked_up,
            capacity,
            evaluated_at,
            second.0,
            second.1,
            evaluated,
        ),
        stepped(
            second.0,
            Event::Encoded { payload: Some(text) },
            evaluated,
            capacity,
            encoded_at,
            third.0,
            third.1,
            after,
        ),
        ttl_in_range(DECISION_TTL as u64, encoded_at),
        at < expiry_at(DECISION_TTL as u64, encoded_at),
        other != request_key(user, request),
    ensures
        third.1 matches Action::Respond { response, cache_fault } && answers(doc, response)
            && cache_fault is None,
        lookup(after, request_key(user, request), at as int) == Some(text@),
        lookup(after, other, at as int) is Some ==> lookup(after, other, at as int) == lookup(
            before,
            other,
            at as int,
        ),
        looked_up.len() < capacity ==> lookup(after, other, at as int) == lookup(
            before,
            other,
            at as int,
        ),
{
    let key = request_key(user, request);
    let fresh = fresh_entry(key, text@, DECISION_TTL as u64, encoded_at);
    law_get_keeps_bound(before, key, arrived_at as int, capacity);
    law_read_keeps_others(before, key, arrived_at as int, other, at as int);
    law_read_after_write(looked_up, fresh, encoded_at as int, capacity, at as int);
    law_write_serves_no_other(looked_up, fresh, encoded_at as int, capacity, other, at as int);
    if looked_up.len() < capacity {
        law_write_keeps_others(looked_up, fresh, encoded_at as int, capacity, other, at as int);
    }
}

/// A decision that was cached is found again: the next request of the same
/// caller for the same action on the same server and tool, made before the
/// decision expires, is handed the payload that was written.
pub proof fn law_cached_decision_is_found(
    key: String,
    response: GatewayAuthResponse,
    text: String,
    before: Seq<Entry>,
    capacity: int,
    now: u64,
    written: (Stage, Action),
    cached: Seq<Entry>,
    user: UserContext,
    request: GatewayAuthRequest,
    later: u64,
    found: (Stage, Action),
    after: Seq<Entry>,
)
    requires
        well_formed(before, capacity),
        ttl_in_range(response.cache_ttl as u64, now),
        stepped(
            Stage::Encoding { key, response },
            Event::Encoded { payload: Some(text) },
            before,
            capacity,
            now,
            written.0,
            written.1,
            cached,
        ),
        key@ == request_key(user, request),
        later < expiry_at(response.cache_ttl as u64, now),
        stepped(
            Stage::Received,
            Event::Arrived { user, request },
            cached,
            capacity,
            later,
            found.0,
            found.1,
            after,
        ),
    ensures
        found.1 matches Action::Decode { payload } && payload@ == text@,
{
    let fresh = fresh_entry(key@, text@, response.cache_ttl as u64, now);
    law_read_after_write(before, fresh, now as int, capacity, later as int);
}

/// Decisions are kept apart: a decision that is cached for one request is
/// never served for another. A request that differs in caller, action,
/// server or tool, and for which nothing was cached before, still asks the
/// policy engine after the write.
pub proof fn law_decisions_are_kept_apart(
    key: String,
    response: GatewayAuthResponse,
    payload: Option<String>,
    before: Seq<Entry>,
    capacity: int,
    now: u64,
    written: (Stage, Action),
    cached: Seq<Entry>,
    user: UserContext,
    request: GatewayAuthRequest,
    other_user: UserContext,
    other_request: GatewayAuthRequest,
    later: u64,
    found: (Stage, Action),
    after: Seq<Entry>,
)
    requires
        well_formed(before, capacity),
        stepped(
            Stage::Encoding { key, response },
            Event::Encoded { payload },
            before,
            capacity,
            now,
            written.0,
            written.1,
            cached,
        ),
        key@ == request_key(user, request),
        free_of(user.user_id@, ':'),
        free_of(request.action@, ':'),
        free_of(request.server_name@, ':'),
        free_of(other_user.user_id@, ':'),
        free_of(other_request.action@, ':'),
        free_of(other_request.server_name@, ':'),
        user.user_id@ != other_user.user_id@ || request.action@ != other_request.action@
            || request.server_name@ != other_request.server_name@ || request.tool_name@
            != other_request.tool_name@,
        lookup(before, request_key(other_user, other_request), later as int) is None,
        stepped(
            Stage::Received,
            Event::Arrived { user: other_user, request: other_request },
            cached,
            capacity,
            later,
            found.0,
            found.1,
            after,
        ),
    ensures
        request_key(other_user, other_request) != request_key(user, request),
        found.1 is Evaluate,
{
    let other_key = request_key(other_user, other_request);
    if other_key == request_key(user, request) {
        law_cache_key_injective(
            user.user_id@,
            request.action@,
            request.server_name@,
            request.tool_name@,
            other_user.user_id@,
            other_request.action@,
            other_request.server_name@,
            other_request.tool_name@,
        );
    }
    if payload is Some && ttl_in_range(response.cache_ttl as u64, now) {
        let fresh = fresh_entry(key@, payload->0@, response.cache_ttl as u64, now);
        law_write_serves_no_other(before, fresh, now as int, capacity, other_key, later as int);
    }
}

} // verus!
