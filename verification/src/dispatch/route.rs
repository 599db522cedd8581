//! Before the upstream call: who asks, for which model, through which
//! channel and key, and with which body.

use crate::circuit::{admission_of, after_check, Admission, CircuitBreaker};
use crate::error::{GatewayError, GatewayFault};
use crate::format::WireFormat;
use crate::json::{field, set_field, text_at, with_field, Json, JsonValue};
use crate::rules::registry::{choice, CompiledRuleView, RuleRegistry};
use crate::rules::template::run;
use crate::store::{
    channel_from, exhausted, find_channel, find_mapping, find_token, key_for, mapping_from,
    select_key, token_from, Channel, ModelMapping, Token,
};
use crate::text::{begins_with, chars_of, matches_at, slice_of, text_of, trim_chars, trimmed};
use vstd::prelude::*;

verus! {

/// The credential in the value of an `Authorization` header: what follows
/// `Bearer `, without white space at its ends; nothing where the value does
/// not begin so or nothing follows.
pub open spec fn bearer(header: Seq<char>) -> Option<Seq<char>> {
    let prefix = "Bearer "@;
    if begins_with(header, prefix) && trimmed(header.skip(prefix.len() as int)).len() > 0 {
        Some(trimmed(header.skip(prefix.len() as int)))
    } else {
        None
    }
}

/// The credential in the value of an `Authorization` header.
pub fn bearer_of(header: &str) -> (r: Option<String>)
    ensures
        crate::text::view_of(r) == bearer(header@),
{
    let h: Vec<char> = chars_of(header);
    let prefix: Vec<char> = chars_of("Bearer ");
    if !matches_at(&h, &prefix, 0) {
        return None;
    }
    let rest: Vec<char> = slice_of(&h, prefix.len(), h.len());
    assert(rest@ =~= header@.skip(prefix.len() as int));
    let key: Vec<char> = trim_chars(&rest);
    if key.len() == 0 {
        None
    } else {
        Some(text_of(&key))
    }
}

/// Who asks: the position of the enabled token that has the credential in
/// `authorization`, or why the request is turned away.
pub open spec fn authenticated(authorization: Option<Seq<char>>, tokens: Seq<Token>) -> Result<
    int,
    GatewayFault,
> {
    match authorization {
        None => Err(GatewayFault::Unauthorized),
        Some(header) => match bearer(header) {
            None => Err(GatewayFault::Unauthorized),
            Some(key) => {
                let t = token_from(tokens, key, 0);
                if !(0 <= t < tokens.len()) {
                    Err(GatewayFault::Unauthorized)
                } else if exhausted(tokens[t]) {
                    Err(GatewayFault::QuotaExceeded)
                } else {
                    Ok(t)
                }
            },
        },
    }
}

/// The view of a header value that may be absent.
pub open spec fn header_view(header: Option<&str>) -> Option<Seq<char>> {
    match header {
        Some(h) => Some(h@),
        None => None,
    }
}

/// Finds the token that a request comes with. A request without a
/// credential, or with one that no enabled token has, is `Unauthorized`; a
/// token that has used what it may use is `QuotaExceeded`.
pub fn authenticate(authorization: Option<&str>, tokens: &Vec<Token>) -> (r: Result<
    usize,
    GatewayError,
>)
    ensures
        match r {
            Ok(t) => authenticated(header_view(authorization), tokens@) == Ok::<int, GatewayFault>(
                t as int,
            ) && t < tokens.len(),
            Err(e) => authenticated(header_view(authorization), tokens@) == Err::<
                int,
                GatewayFault,
            >(e@),
        },
{
    let header: &str = match authorization {
        Some(h) => h,
        None => {
            return Err(GatewayError::Unauthorized);
        },
    };
    let key: String = match bearer_of(header) {
        Some(k) => k,
        None => {
            return Err(GatewayError::Unauthorized);
        },
    };
    let t: usize = match find_token(tokens, key.as_str()) {
        Some(t) => t,
        None => {
            return Err(GatewayError::Unauthorized);
        },
    };
    let spent: bool = match tokens[t].quota_limit {
        Some(limit) => tokens[t].quota_used >= limit,
        None => false,
    };
    if spent {
        Err(GatewayError::QuotaExceeded)
    } else {
        Ok(t)
    }
}

/// Where a request goes, and with what.
#[derive(Debug, PartialEq, Eq)]
pub struct Route {
    /// The position of the mapping that serves the model.
    pub mapping: usize,
    /// The position of the channel.
    pub channel: usize,
    /// The position of the key among the channel's keys.
    pub key: usize,
    /// The format that the channel speaks.
    pub target: WireFormat,
    /// The body to send.
    pub body: Json,
    /// Whether the client asked for the answer as a stream.
    pub stream: bool,
    /// Whether this request is the trial of a channel that was held back.
    pub trial: bool,
}

pub ghost struct RouteView {
    pub mapping: int,
    pub channel: int,
    pub key: int,
    pub target: WireFormat,
    pub body: JsonValue,
    pub stream: bool,
    pub trial: bool,
}

impl View for Route {
    type V = RouteView;

    open spec fn view(&self) -> RouteView {
        RouteView {
            mapping: self.mapping as int,
            channel: self.channel as int,
            key: self.key as int,
            target: self.target,
            body: self.body@,
            stream: self.stream,
            trial: self.trial,
        }
    }
}

/// The model that the body `doc` asks for.
pub open spec fn model_of(doc: JsonValue) -> Option<Seq<char>> {
    text_at(doc, "model"@)
}

/// Whether the body `doc` asks for the answer as a stream.
pub open spec fn wants_stream(doc: JsonValue) -> bool {
    field(doc, "stream"@) == Some(JsonValue::Bool(true))
}

/// The body that goes upstream: `doc` with the upstream's name of the model
/// in place of the public one, as it stands where the channel speaks the
/// client's format, and reshaped by the request template of the
/// authoritative rule where it does not.
pub open spec fn converted(
    doc: JsonValue,
    upstream_model: Seq<char>,
    source: WireFormat,
    target: WireFormat,
    rules: Seq<CompiledRuleView>,
) -> Result<JsonValue, GatewayFault> {
    let named = with_field(doc, "model"@, JsonValue::Text(upstream_model));
    if source == target {
        Ok(named)
    } else {
        let r = choice(rules, source, target, rules.len() as int);
        if !(0 <= r < rules.len()) {
            Err(GatewayFault::NoConversionRule { source, target })
        } else {
            match run(rules[r].request, named) {
                Ok(body) => Ok(body),
                Err(fault) => Err(GatewayFault::RuleExecution(fault)),
            }
        }
    }
}

/// Where the request with the body `doc` goes, or why it is turned away:
/// the model must be mapped, the channel's breaker must let the request
/// pass, the channel must have an enabled key, and the body must be
/// convertible, each asked in this order.
pub open spec fn routed(
    doc: JsonValue,
    source: WireFormat,
    mappings: Seq<ModelMapping>,
    channels: Seq<Channel>,
    rules: Seq<CompiledRuleView>,
    breaker: CircuitBreaker,
    turn: u64,
    now: u64,
) -> Result<RouteView, GatewayFault> {
    match model_of(doc) {
        None => Err(GatewayFault::UnknownModel(Seq::empty())),
        Some(model) => {
            let m = mapping_from(mappings, model, 0);
            if !(0 <= m < mappings.len()) {
                Err(GatewayFault::UnknownModel(model))
            } else {
                let id = mappings[m].channel_id@;
                let admission = admission_of(breaker.breaker_of(id), now);
                let c = channel_from(channels, id, 0);
                if admission == Admission::Reject {
                    Err(GatewayFault::CircuitOpen(id))
                } else if !(0 <= c < channels.len()) {
                    Err(GatewayFault::NoEnabledKey(id))
                } else {
                    let k = key_for(channels[c].keys@, turn);
                    if !(0 <= k < channels[c].keys@.len()) {
                        Err(GatewayFault::NoEnabledKey(id))
                    } else {
                        match converted(
                            doc,
                            mappings[m].upstream_model@,
                            source,
                            channels[c].format,
                            rules,
                        ) {
                            Err(fault) => Err(fault),
                            Ok(body) => Ok(
                                RouteView {
                                    mapping: m,
                                    channel: c,
                                    key: k,
                                    target: channels[c].format,
                                    body,
                                    stream: wants_stream(doc),
                                    trial: admission == Admission::Trial,
                                },
                            ),
                        }
                    }
                }
            }
        },
    }
}

/// What the outcome of routing says.
pub open spec fn route_outcome(r: Result<Route, GatewayError>) -> Result<RouteView, GatewayFault> {
    match r {
        Ok(route) => Ok(route@),
        Err(e) => Err(e@),
    }
}

/// The breaker of `channel` after a request was routed with the outcome
/// `routed`: it answered the request where the request goes upstream
/// through that channel, and is untouched where it does not.
pub open spec fn breaker_after(
    before: CircuitBreaker,
    routed: Result<RouteView, GatewayFault>,
    mappings: Seq<ModelMapping>,
    channel: Seq<char>,
    now: u64,
) -> crate::circuit::ChannelBreaker {
    match routed {
        Ok(route) => if mappings[route.mapping].channel_id@ == channel {
            after_check(before.breaker_of(channel), now)
        } else {
            before.breaker_of(channel)
        },
        Err(_) => before.breaker_of(channel),
    }
}

/// The body that goes upstream.
pub fn convert(
    doc: Json,
    upstream_model: &str,
    source: WireFormat,
    target: WireFormat,
    registry: &RuleRegistry,
) -> (r: Result<Json, GatewayError>)
    ensures
        match r {
            Ok(body) => converted(doc@, upstream_model@, source, target, registry.rules()) == Ok::<
                JsonValue,
                GatewayFault,
            >(body@),
            Err(e) => converted(doc@, upstream_model@, source, target, registry.rules()) == Err::<
                JsonValue,
                GatewayFault,
            >(e@),
        },
{
    let named: Json = set_field(doc, "model", Json::Text(upstream_model.to_owned()));
    if source == target {
        return Ok(named);
    }
    match registry.lookup(source, target) {
        None => Err(GatewayError::NoConversionRule { source, target }),
        Some(rule) => match rule.request.apply(&named) {
            Ok(body) => Ok(body),
            Err(fault) => Err(GatewayError::RuleExecution(fault)),
        },
    }
}

/// Routes the request with the body `doc`. The channel's breaker answers
/// the request only where the request goes upstream; a request that is
/// turned away leaves every breaker as it is.
pub fn route(
    doc: Json,
    source: WireFormat,
    mappings: &Vec<ModelMapping>,
    channels: &Vec<Channel>,
    registry: &RuleRegistry,
    breaker: &mut CircuitBreaker,
    turn: u64,
    now: u64,
) -> (r: Result<Route, GatewayError>)
    ensures
        route_outcome(r) == routed(
            doc@,
            source,
            mappings@,
            channels@,
            registry.rules(),
            *old(breaker),
            turn,
            now,
        ),
        r matches Ok(route) ==> route.mapping < mappings.len() && route.channel < channels.len()
            && route.key < channels[route.channel as int].keys.len(),
        forall|channel: Seq<char>|
            final(breaker).breaker_of(channel) == breaker_after(
                *old(breaker),
                route_outcome(r),
                mappings@,
                channel,
                now,
            ),
        final(breaker).config() == old(breaker).config(),
{
    let model: String = match crate::json::text(doc.get("model")) {
        Some(m) => m.to_owned(),
        None => {
            return Err(GatewayError::UnknownModel(String::new()));
        },
    };
    let m: usize = match find_mapping(mappings, model.as_str()) {
        Some(m) => m,
        None => {
            return Err(GatewayError::UnknownModel(model));
        },
    };
    let id: &str = mappings[m].channel_id.as_str();
    let admission: Admission = breaker.snapshot(id).check_only(now);
    if admission == Admission::Reject {
        return Err(GatewayError::CircuitOpen(id.to_owned()));
    }
    let c: usize = match find_channel(channels, id) {
        Some(c) => c,
        None => {
            return Err(GatewayError::NoEnabledKey(id.to_owned()));
        },
    };
    let k: usize = match select_key(&channels[c].keys, turn) {
        Some(k) => k,
        None => {
            return Err(GatewayError::NoEnabledKey(id.to_owned()));
        },
    };
    let stream: bool = match doc.get("stream") {
        Some(Json::Bool(b)) => *b,
        _ => false,
    };
    let target: WireFormat = channels[c].format;
    let body: Json = match convert(
        doc,
        mappings[m].upstream_model.as_str(),
        source,
        target,
        registry,
    ) {
        Ok(body) => body,
        Err(e) => {
            return Err(e);
        },
    };
    let answered: Admission = breaker.check(id, now);
    Ok(
        Route {
            mapping: m,
            channel: c,
            key: k,
            target,
            body,
            stream,
            trial: answered == Admission::Trial,
        },
    )
}

} // verus!
