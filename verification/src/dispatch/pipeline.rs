//! The whole way of a request: from what the client sent to what is sent
//! upstream, and from what came back to what the client gets.

use crate::circuit::{
    admission_of, after_failures, inside_one_window, law_threshold_opens, Admission,
    BreakerConfig, BreakerState, ChannelBreaker, CircuitBreaker,
};
use crate::dispatch::route::{
    authenticate, authenticated, breaker_after, converted, header_view, model_of, route, routed,
    Route, RouteView,
};
use crate::dispatch::settle::{
    after_outcome, answer, answer_for, charge, clamp_add, is_success, record_outcome,
    reported_usage, reshaped, units_of, usage_reported, Answer, AnswerView, OutcomeView,
    UpstreamOutcome, Usage,
};
use crate::error::{GatewayError, GatewayFault};
use crate::format::WireFormat;
use crate::json::{parse, parsed, Json, JsonValue};
use crate::rules::registry::{CompiledRuleView, RuleRegistry};
use crate::store::{
    channel_from, enabled_count, exhausted, following_turn, law_turn_falls_to_enabled_key,
    lemma_token_from, mapping_from, next_turn, Channel, ModelMapping, Token,
};
use vstd::prelude::*;

verus! {

/// All that the upstream call needs, and all that is needed afterwards to
/// settle it.
#[derive(Debug, PartialEq, Eq)]
pub struct UpstreamCall {
    pub token_id: String,
    pub channel_id: String,
    pub base_url: String,
    pub api_key: String,
    /// The model as the client named it.
    pub model: String,
    /// The format in which the client spoke.
    pub source: WireFormat,
    /// The format that the channel speaks.
    pub target: WireFormat,
    /// The body to send.
    pub body: Json,
    pub stream: bool,
    /// Whether this call is the trial of a channel that was held back.
    pub trial: bool,
}

pub ghost struct CallView {
    pub token_id: Seq<char>,
    pub channel_id: Seq<char>,
    pub base_url: Seq<char>,
    pub api_key: Seq<char>,
    pub model: Seq<char>,
    pub source: WireFormat,
    pub target: WireFormat,
    pub body: JsonValue,
    pub stream: bool,
    pub trial: bool,
}

impl View for UpstreamCall {
    type V = CallView;

    open spec fn view(&self) -> CallView {
        CallView {
            token_id: self.token_id@,
            channel_id: self.channel_id@,
            base_url: self.base_url@,
            api_key: self.api_key@,
            model: self.model@,
            source: self.source,
            target: self.target,
            body: self.body@,
            stream: self.stream,
            trial: self.trial,
        }
    }
}

/// How the body `doc` is routed, or why the request is turned away; a body
/// that is no document names no model.
pub open spec fn routed_body(
    doc: Option<JsonValue>,
    source: WireFormat,
    mappings: Seq<ModelMapping>,
    channels: Seq<Channel>,
    rules: Seq<CompiledRuleView>,
    breaker: CircuitBreaker,
    turn: u64,
    now: u64,
) -> Result<RouteView, GatewayFault> {
    match doc {
        None => Err(GatewayFault::UnknownModel(Seq::empty())),
        Some(doc) => routed(doc, source, mappings, channels, rules, breaker, turn, now),
    }
}

/// How the request is routed once the token is found; nothing is routed
/// for a request without one.
pub open spec fn routing(
    authorization: Option<Seq<char>>,
    body: Seq<char>,
    source: WireFormat,
    tokens: Seq<Token>,
    mappings: Seq<ModelMapping>,
    channels: Seq<Channel>,
    rules: Seq<CompiledRuleView>,
    breaker: CircuitBreaker,
    turn: u64,
    now: u64,
) -> Result<RouteView, GatewayFault> {
    match authenticated(authorization, tokens) {
        Err(fault) => Err(fault),
        Ok(_) => routed_body(parsed(body), source, mappings, channels, rules, breaker, turn, now),
    }
}

/// What becomes of a request before any upstream is called: the call to
/// make, or why the request is turned away. The steps are taken in this
/// order, and the first that fails decides: the token, its quota, the
/// model, the channel's breaker, the channel's keys, the conversion.
pub open spec fn decide(
    authorization: Option<Seq<char>>,
    body: Seq<char>,
    source: WireFormat,
    tokens: Seq<Token>,
    mappings: Seq<ModelMapping>,
    channels: Seq<Channel>,
    rules: Seq<CompiledRuleView>,
    breaker: CircuitBreaker,
    turn: u64,
    now: u64,
) -> Result<CallView, GatewayFault> {
    match authenticated(authorization, tokens) {
        Err(fault) => Err(fault),
        Ok(t) => match routed_body(
            parsed(body),
            source,
            mappings,
            channels,
            rules,
            breaker,
            turn,
            now,
        ) {
            Err(fault) => Err(fault),
            Ok(route) => Ok(
                CallView {
                    token_id: tokens[t].id@,
                    channel_id: channels[route.channel].id@,
                    base_url: channels[route.channel].base_url@,
                    api_key: channels[route.channel].keys@[route.key].key_value@,
                    model: model_of(parsed(body).unwrap()).unwrap(),
                    source,
                    target: route.target,
                    body: route.body,
                    stream: route.stream,
                    trial: route.trial,
                },
            ),
        },
    }
}

/// What the outcome of planning says.
pub open spec fn plan_outcome(r: Result<UpstreamCall, GatewayError>) -> Result<
    CallView,
    GatewayFault,
> {
    match r {
        Ok(call) => Ok(call@),
        Err(e) => Err(e@),
    }
}

/// Routes the body that was read, where one was read.
pub fn route_body(
    doc: Option<Json>,
    source: WireFormat,
    mappings: &Vec<ModelMapping>,
    channels: &Vec<Channel>,
    registry: &RuleRegistry,
    breaker: &mut CircuitBreaker,
    turn: u64,
    now: u64,
) -> (r: Result<Route, GatewayError>)
    ensures
        crate::dispatch::route::route_outcome(r) == routed_body(
            match doc {
                Some(d) => Some(d@),
                None => None,
            },
            source,
            mappings@,
            channels@,
            registry.rules(),
            *old(breaker),
            turn,
            now,
        ),
        r matches Ok(route) ==> route.mapping < mappings.len() && route.channel < channels.len()
            && route.key < channels[route.channel as int].keys.len(),
        forall|channel: Seq<char>|
            final(breaker).breaker_of(channel) == breaker_after(
                *old(breaker),
                crate::dispatch::route::route_outcome(r),
                mappings@,
                channel,
                now,
            ),
        final(breaker).config() == old(breaker).config(),
{
    match doc {
        Some(doc) => route(doc, source, mappings, channels, registry, breaker, turn, now),
        None => Err(GatewayError::UnknownModel(String::new())),
    }
}

/// Decides what becomes of a request before any upstream is called. The
/// breaker of the channel answers the request only where a call is planned;
/// a request that is turned away leaves every breaker as it is.
pub fn plan(
    authorization: Option<&str>,
    body: &str,
    source: WireFormat,
    tokens: &Vec<Token>,
    mappings: &Vec<ModelMapping>,
    channels: &Vec<Channel>,
    registry: &RuleRegistry,
    breaker: &mut CircuitBreaker,
    turn: u64,
    now: u64,
) -> (r: Result<UpstreamCall, GatewayError>)
    ensures
        plan_outcome(r) == decide(
            header_view(authorization),
            body@,
            source,
            tokens@,
            mappings@,
            channels@,
            registry.rules(),
            *old(breaker),
            turn,
            now,
        ),
        forall|channel: Seq<char>|
            final(breaker).breaker_of(channel) == breaker_after(
                *old(breaker),
                routing(
                    header_view(authorization),
                    body@,
                    source,
                    tokens@,
                    mappings@,
                    channels@,
                    registry.rules(),
                    *old(breaker),
                    turn,
                    now,
                ),
                mappings@,
                channel,
                now,
            ),
        final(breaker).config() == old(breaker).config(),
{
    let t: usize = match authenticate(authorization, tokens) {
        Ok(t) => t,
        Err(e) => {
            return Err(e);
        },
    };
    let doc: Option<Json> = match parse(body) {
        Ok(doc) => Some(doc),
        Err(_) => None,
    };
    let model: String = match &doc {
        Some(d) => match crate::json::text(d.get("model")) {
            Some(m) => m.to_owned(),
            None => String::new(),
        },
        None => String::new(),
    };
    match route_body(doc, source, mappings, channels, registry, breaker, turn, now) {
        Err(e) => Err(e),
        Ok(found) => {
            let channel: &Channel = &channels[found.channel];
            Ok(
                UpstreamCall {
                    token_id: tokens[t].id.clone(),
                    channel_id: channel.id.clone(),
                    base_url: channel.base_url.clone(),
                    api_key: channel.keys[found.key].key_value.clone(),
                    model,
                    source,
                    target: found.target,
                    body: found.body,
                    stream: found.stream,
                    trial: found.trial,
                },
            )
        },
    }
}

/// What the outcome of planning means for the rotation of keys: a call
/// that was planned used a key, a request that was turned away used none.
pub fn turn_after(turn: u64, planned: &Result<UpstreamCall, GatewayError>) -> (r: u64)
    ensures
        r == following_turn(turn, planned is Ok),
{
    match planned {
        Ok(_) => next_turn(turn, true),
        Err(_) => next_turn(turn, false),
    }
}

/// What a settled call comes to.
#[derive(Debug, PartialEq, Eq)]
pub struct Settlement {
    /// What the client gets.
    pub answer: Answer,
    /// What the upstream reported as used.
    pub usage: Usage,
}

/// Settles a call that ended with `outcome` at `now`: the breaker of the
/// call's channel learns of the outcome, the token is charged one request
/// and the units that the upstream reported, and the client's answer is
/// made. A template that cannot reshape the answer is told to the client
/// and not to the breaker.
pub fn settle(
    call: &UpstreamCall,
    outcome: &UpstreamOutcome,
    token: &mut Token,
    registry: &RuleRegistry,
    breaker: &mut CircuitBreaker,
    now: u64,
) -> (r: Settlement)
    ensures
        r.answer@ == answer_for(outcome@, call.source, call.target, call.stream, registry.rules()),
        r.usage == reported_usage(call.target, outcome@),
        final(breaker).breaker_of(call.channel_id@) == after_outcome(
            old(breaker).breaker_of(call.channel_id@),
            old(breaker).config(),
            outcome@,
            now,
        ),
        forall|other: Seq<char>|
            other != call.channel_id@ ==> final(breaker).breaker_of(other) == old(
                breaker,
            ).breaker_of(other),
        final(breaker).config() == old(breaker).config(),
        final(token).request_count == clamp_add(old(token).request_count, 1),
        final(token).quota_used == clamp_add(old(token).quota_used, units_of(r.usage)),
        final(token).id == old(token).id,
        final(token).key_value == old(token).key_value,
        final(token).enabled == old(token).enabled,
        final(token).quota_limit == old(token).quota_limit,
{
    record_outcome(breaker, call.channel_id.as_str(), outcome, now);
    let usage: Usage = usage_reported(call.target, outcome);
    charge(token, usage);
    let made: Answer = answer(outcome, call.source, call.target, call.stream, registry);
    Settlement { answer: made, usage }
}

/// A request of an enabled token under its quota, for a model that is
/// mapped to a channel whose breaker is closed and that has an enabled key,
/// with a body that can be converted for the channel, is sent upstream; and
/// where the upstream answers it with a status from 200 up to 299 and a body
/// that can be reshaped for the client, the client gets that status and the
/// reshaped body, and no failure is reported.
pub proof fn law_healthy_request_is_served(
    authorization: Option<Seq<char>>,
    body: Seq<char>,
    source: WireFormat,
    tokens: Seq<Token>,
    mappings: Seq<ModelMapping>,
    channels: Seq<Channel>,
    rules: Seq<CompiledRuleView>,
    breaker: CircuitBreaker,
    turn: u64,
    now: u64,
    status: u16,
    answer_body: Seq<char>,
)
    requires
        authenticated(authorization, tokens) is Ok,
        parsed(body) is Some,
        model_of(parsed(body).unwrap()) is Some,
        0 <= mapping_from(mappings, model_of(parsed(body).unwrap()).unwrap(), 0) < mappings.len(),
        ({
            let doc = parsed(body).unwrap();
            let m = mapping_from(mappings, model_of(doc).unwrap(), 0);
            let id = mappings[m].channel_id@;
            let c = channel_from(channels, id, 0);
            &&& breaker.breaker_of(id).state == BreakerState::Closed
            &&& 0 <= c < channels.len()
            &&& enabled_count(channels[c].keys@, channels[c].keys@.len() as int) > 0
            &&& converted(doc, mappings[m].upstream_model@, source, channels[c].format, rules)
                is Ok
            &&& reshaped(
                answer_body,
                source,
                channels[c].format,
                crate::dispatch::route::wants_stream(doc),
                rules,
            ) is Ok
        }),
        200 <= status < 300,
    ensures
        decide(
            authorization,
            body,
            source,
            tokens,
            mappings,
            channels,
            rules,
            breaker,
            turn,
            now,
        ) matches Ok(call) && !call.trial && answer_for(
            OutcomeView::Answered { status, body: answer_body },
            source,
            call.target,
            call.stream,
            rules,
        ) == (AnswerView {
            status,
            body: reshaped(answer_body, source, call.target, call.stream, rules)->Ok_0,
            error: None,
        }),
{
    let doc = parsed(body).unwrap();
    let m = mapping_from(mappings, model_of(doc).unwrap(), 0);
    let c = channel_from(channels, mappings[m].channel_id@, 0);
    law_turn_falls_to_enabled_key(channels[c].keys@, turn);
}

/// No call is planned in the name of a token that is disabled or has used
/// what it may use, nor with a key that is disabled: whenever a call is
/// planned, an enabled token under its quota has the credential that the
/// request came with, and the call's key is an enabled key of its channel.
pub proof fn law_planned_call_is_entitled(
    authorization: Option<Seq<char>>,
    body: Seq<char>,
    source: WireFormat,
    tokens: Seq<Token>,
    mappings: Seq<ModelMapping>,
    channels: Seq<Channel>,
    rules: Seq<CompiledRuleView>,
    breaker: CircuitBreaker,
    turn: u64,
    now: u64,
)
    requires
        decide(authorization, body, source, tokens, mappings, channels, rules, breaker, turn, now)
            is Ok,
    ensures
        authenticated(authorization, tokens) matches Ok(t) && 0 <= t < tokens.len()
            && tokens[t].enabled && !exhausted(tokens[t]) && (authorization matches Some(header)
            && crate::dispatch::route::bearer(header) == Some(tokens[t].key_value@)),
        routing(authorization, body, source, tokens, mappings, channels, rules, breaker, turn, now)
            matches Ok(route) && 0 <= route.channel < channels.len() && 0 <= route.key
            < channels[route.channel].keys@.len()
            && channels[route.channel].keys@[route.key].enabled,
{
    let header = authorization.unwrap();
    let key = crate::dispatch::route::bearer(header).unwrap();
    lemma_token_from(tokens, key, 0);
    let route = routing(
        authorization,
        body,
        source,
        tokens,
        mappings,
        channels,
        rules,
        breaker,
        turn,
        now,
    )->Ok_0;
    law_turn_falls_to_enabled_key(channels[route.channel].keys@, turn);
}

/// A settled call is charged as one request: unless the count stands at the
/// largest number already, it goes up by exactly one.
pub proof fn law_one_request_is_counted(count: u64)
    requires
        count < u64::MAX,
    ensures
        clamp_add(count, 1) == count + 1,
{
}

/// While the breaker of a channel is open and its cooldown is not over, a
/// request for a model of that channel is turned away with `CircuitOpen`:
/// no call is planned, whatever keys and rules there are.
pub proof fn law_open_breaker_turns_away(
    doc: JsonValue,
    source: WireFormat,
    mappings: Seq<ModelMapping>,
    channels: Seq<Channel>,
    rules: Seq<CompiledRuleView>,
    breaker: CircuitBreaker,
    turn: u64,
    now: u64,
)
    requires
        model_of(doc) is Some,
        0 <= mapping_from(mappings, model_of(doc).unwrap(), 0) < mappings.len(),
        ({
            let id = mappings[mapping_from(mappings, model_of(doc).unwrap(), 0)].channel_id@;
            breaker.breaker_of(id).state == BreakerState::Open && now < breaker.breaker_of(
                id,
            ).retry_at
        }),
    ensures
        routed(doc, source, mappings, channels, rules, breaker, turn, now) == Err::<
            RouteView,
            GatewayFault,
        >(
            GatewayFault::CircuitOpen(
                mappings[mapping_from(mappings, model_of(doc).unwrap(), 0)].channel_id@,
            ),
        ),
        forall|channel: Seq<char>|
            breaker_after(
                breaker,
                routed(doc, source, mappings, channels, rules, breaker, turn, now),
                mappings,
                channel,
                now,
            ) == breaker.breaker_of(channel),
{
}

/// A request for a model of a channel without an enabled key is turned
/// away with `NoEnabledKey` where the channel's breaker lets it pass, and
/// every breaker stays as it is.
pub proof fn law_no_key_leaves_breaker(
    doc: JsonValue,
    source: WireFormat,
    mappings: Seq<ModelMapping>,
    channels: Seq<Channel>,
    rules: Seq<CompiledRuleView>,
    breaker: CircuitBreaker,
    turn: u64,
    now: u64,
)
    requires
        model_of(doc) is Some,
        0 <= mapping_from(mappings, model_of(doc).unwrap(), 0) < mappings.len(),
        ({
            let id = mappings[mapping_from(mappings, model_of(doc).unwrap(), 0)].channel_id@;
            let c = channel_from(channels, id, 0);
            &&& admission_of(breaker.breaker_of(id), now) != Admission::Reject
            &&& 0 <= c < channels.len() ==> enabled_count(
                channels[c].keys@,
                channels[c].keys@.len() as int,
            ) == 0
        }),
    ensures
        routed(doc, source, mappings, channels, rules, breaker, turn, now) == Err::<
            RouteView,
            GatewayFault,
        >(
            GatewayFault::NoEnabledKey(
                mappings[mapping_from(mappings, model_of(doc).unwrap(), 0)].channel_id@,
            ),
        ),
        forall|channel: Seq<char>|
            breaker_after(
                breaker,
                routed(doc, source, mappings, channels, rules, breaker, turn, now),
                mappings,
                channel,
                now,
            ) == breaker.breaker_of(channel),
{
    let id = mappings[mapping_from(mappings, model_of(doc).unwrap(), 0)].channel_id@;
    let c = channel_from(channels, id, 0);
    if 0 <= c < channels.len() {
        law_turn_falls_to_enabled_key(channels[c].keys@, turn);
    }
}

/// Once the failures of a channel inside one window have reached the
/// threshold, the next request for a model of that channel before the
/// cooldown is over is turned away with `CircuitOpen`, and no call is
/// planned.
pub proof fn law_threshold_turns_requests_away(
    doc: JsonValue,
    source: WireFormat,
    mappings: Seq<ModelMapping>,
    channels: Seq<Channel>,
    rules: Seq<CompiledRuleView>,
    breaker: CircuitBreaker,
    before: ChannelBreaker,
    times: Seq<u64>,
    turn: u64,
    now: u64,
)
    requires
        model_of(doc) is Some,
        0 <= mapping_from(mappings, model_of(doc).unwrap(), 0) < mappings.len(),
        before.state == BreakerState::Closed,
        before.failures == 0,
        times.len() > 0,
        times.len() == breaker.config().failure_threshold,
        inside_one_window(breaker.config(), times),
        breaker.breaker_of(
            mappings[mapping_from(mappings, model_of(doc).unwrap(), 0)].channel_id@,
        ) == after_failures(before, breaker.config(), times),
        now < crate::circuit::clamp_add(times.last(), breaker.config().window_seconds),
    ensures
        routed(doc, source, mappings, channels, rules, breaker, turn, now) == Err::<
            RouteView,
            GatewayFault,
        >(
            GatewayFault::CircuitOpen(
                mappings[mapping_from(mappings, model_of(doc).unwrap(), 0)].channel_id@,
            ),
        ),
{
    law_threshold_opens(before, breaker.config(), times, now);
}

/// A trial that the upstream fails opens the breaker again, for a whole
/// window from the time the failure is seen, and a trial that succeeds
/// closes it with nothing counted; a template that cannot reshape the
/// answer of a successful trial does not change that.
pub proof fn law_trial_outcome_decides(
    b: ChannelBreaker,
    cfg: BreakerConfig,
    outcome: OutcomeView,
    seen: u64,
    now: u64,
)
    requires
        b.state == BreakerState::HalfOpen,
    ensures
        !is_success(outcome) ==> after_outcome(b, cfg, outcome, seen).state == BreakerState::Open
            && after_outcome(b, cfg, outcome, seen).retry_at == crate::circuit::clamp_add(seen, cfg.window_seconds)
            && (now < crate::circuit::clamp_add(seen, cfg.window_seconds) ==> admission_of(
            after_outcome(b, cfg, outcome, seen),
            now,
        ) == Admission::Reject),
        is_success(outcome) ==> after_outcome(b, cfg, outcome, seen).state == BreakerState::Closed
            && after_outcome(b, cfg, outcome, seen).failures == 0,
{
}

} // verus!
