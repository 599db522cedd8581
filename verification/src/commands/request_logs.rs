//! Request logs as the desktop shell shows them: usage figures, and the
//! replay of a logged request.

use crate::circuit::CircuitBreaker;
use crate::dispatch::log::RequestLog;
use crate::dispatch::pipeline::{decide, plan, routing, CallView, UpstreamCall};
use crate::dispatch::route::breaker_after;
use crate::error::{GatewayError, GatewayFault};
use crate::format::{endpoint_of, format_of, WireFormat};
use crate::json::{
    lemma_array_view, lemma_object_view, member_views, views, Json, JsonValue, Member, MemberValue,
    Numeral, NumeralValue,
};
use crate::rules::registry::{CompiledRuleView, RuleRegistry};
use crate::store::{Channel, ModelMapping, Token};
use crate::text::{decimal, push_decimal, push_str, text_of};
use vstd::prelude::*;

verus! {

/// How many days the usage figures cover where the caller does not say.
pub const DEFAULT_DAYS: i32 = 7;

/// How many days the usage figures cover.
pub fn usage_days(days: Option<i32>) -> (r: i32)
    ensures
        r == match days {
            Some(n) => n,
            None => DEFAULT_DAYS,
        },
{
    match days {
        Some(n) => n,
        None => DEFAULT_DAYS,
    }
}

/// What a replayed request came back with.
#[derive(Debug, PartialEq, Eq)]
pub struct RetryResult {
    pub status: u16,
    pub body: String,
}

/// What of a logged request is needed to send it again.
#[derive(Debug, PartialEq, Eq)]
pub struct RetryFields {
    pub request_body: String,
    pub input_format: String,
    pub token_id: String,
}

/// Takes from a log entry what is needed to send the request again, and
/// says what is missing: the body, else the format, else the token.
pub fn retry_fields(
    request_body: Option<String>,
    input_format: Option<String>,
    token_id: Option<String>,
) -> (r: Result<RetryFields, String>)
    ensures
        match r {
            Ok(f) => Some(f.request_body) == request_body && Some(f.input_format) == input_format
                && Some(f.token_id) == token_id,
            Err(e) => if request_body is None {
                e@ == "No request body"@
            } else if input_format is None {
                e@ == "No input format"@
            } else {
                token_id is None && e@ == "No token ID"@
            },
        },
{
    let request_body: String = match request_body {
        Some(b) => b,
        None => {
            return Err("No request body".to_owned());
        },
    };
    let input_format: String = match input_format {
        Some(f) => f,
        None => {
            return Err("No input format".to_owned());
        },
    };
    let token_id: String = match token_id {
        Some(t) => t,
        None => {
            return Err("No token ID".to_owned());
        },
    };
    Ok(RetryFields { request_body, input_format, token_id })
}

/// The format under which a request can be sent again: the format that
/// `input_format` names, where an endpoint takes bodies in it.
pub open spec fn replay_format(input_format: Seq<char>) -> Option<WireFormat> {
    match format_of(input_format) {
        Some(format) => if endpoint_of(format) is Some {
            Some(format)
        } else {
            None
        },
        None => None,
    }
}

/// The path of the endpoint that takes requests logged under
/// `input_format`: that of the format which the tag names. A tag that names
/// no format, or a format that no endpoint takes, has none.
pub open spec fn replay_path(input_format: Seq<char>) -> Option<Seq<char>> {
    match replay_format(input_format) {
        Some(format) => endpoint_of(format),
        None => None,
    }
}

/// The format under which a request logged under `input_format` can be
/// sent again.
pub fn replay_source(input_format: &str) -> (r: Option<WireFormat>)
    ensures
        r == replay_format(input_format@),
{
    match WireFormat::from_tag(input_format) {
        Some(format) => match format.endpoint() {
            Some(_) => Some(format),
            None => None,
        },
        None => None,
    }
}

/// The path of the endpoint that takes requests logged under
/// `input_format`.
pub fn endpoint_path(input_format: &str) -> (r: Option<&'static str>)
    ensures
        crate::json::slice_in(r) == replay_path(input_format@),
{
    match replay_source(input_format) {
        Some(format) => format.endpoint(),
        None => None,
    }
}

/// A logged request, ready to be sent to the gateway's own port.
#[derive(Debug, PartialEq, Eq)]
pub struct RetryRequest {
    pub url: String,
    /// The value of the `Authorization` header.
    pub authorization: String,
    pub body: String,
}

/// The value of the `Authorization` header that carries the credential
/// `key`.
pub open spec fn bearer_header(key: Seq<char>) -> Seq<char> {
    "Bearer "@ + key
}

/// Where the gateway listens for `path` on `port`.
pub open spec fn local_url(port: u16, path: Seq<char>) -> Seq<char> {
    "http://127.0.0.1:"@ + decimal(port as nat) + path
}

/// Makes the request that sends a logged body again: to the endpoint of
/// its format on the gateway's own port, with the credential of its token
/// and the body as it was. A format without an endpoint is named in the
/// fault.
pub fn retry_request(port: u16, input_format: &str, key_value: &str, body: String) -> (r: Result<
    RetryRequest,
    String,
>)
    ensures
        match r {
            Ok(request) => replay_path(input_format@) matches Some(path) && request.url@
                == local_url(port, path) && request.authorization@ == bearer_header(key_value@)
                && request.body == body,
            Err(e) => replay_path(input_format@) is None && e@ == "Unknown input format: "@
                + input_format@,
        },
{
    let path: &str = match endpoint_path(input_format) {
        Some(p) => p,
        None => {
            return Err("Unknown input format: ".to_owned().concat(input_format));
        },
    };
    let mut url: Vec<char> = Vec::new();
    push_str(&mut url, "http://127.0.0.1:");
    push_decimal(&mut url, port as u64);
    push_str(&mut url, path);
    Ok(
        RetryRequest {
            url: text_of(&url),
            authorization: "Bearer ".to_owned().concat(key_value),
            body,
        },
    )
}

/// Why a logged request cannot be sent again.
#[derive(Debug, PartialEq, Eq)]
pub enum ReplayError {
    /// The log entry lacks what is named.
    Incomplete(String),
    /// The log entry names no format that an endpoint of the gateway takes.
    UnknownFormat(String),
    /// The gateway turned the request away.
    Rejected(GatewayError),
}

pub ghost enum ReplayFault {
    Incomplete(Seq<char>),
    UnknownFormat(Seq<char>),
    Rejected(GatewayFault),
}

impl View for ReplayError {
    type V = ReplayFault;

    open spec fn view(&self) -> ReplayFault {
        match self {
            ReplayError::Incomplete(what) => ReplayFault::Incomplete(what@),
            ReplayError::UnknownFormat(tag) => ReplayFault::UnknownFormat(tag@),
            ReplayError::Rejected(e) => ReplayFault::Rejected(e@),
        }
    }
}

/// What a log entry gives to send again: the body as it was logged and the
/// format under which it was logged; or what the entry lacks.
pub open spec fn replay_input(log: RequestLog) -> Result<(Seq<char>, WireFormat), ReplayFault> {
    match (log.request_body, log.input_format) {
        (None, _) => Err(ReplayFault::Incomplete("No request body"@)),
        (Some(_), None) => Err(ReplayFault::Incomplete("No input format"@)),
        (Some(body), Some(tag)) => match replay_format(tag@) {
            None => Err(ReplayFault::UnknownFormat(tag@)),
            Some(source) => Ok((body@, source)),
        },
    }
}

/// What becomes of a logged request that is sent again with the credential
/// `key`: what would become of the same body, sent by a client with the
/// same credential now.
pub open spec fn replayed(
    log: RequestLog,
    key: Seq<char>,
    tokens: Seq<Token>,
    mappings: Seq<ModelMapping>,
    channels: Seq<Channel>,
    rules: Seq<CompiledRuleView>,
    breaker: CircuitBreaker,
    turn: u64,
    now: u64,
) -> Result<CallView, ReplayFault> {
    match replay_input(log) {
        Err(fault) => Err(fault),
        Ok((body, source)) => match decide(
            Some(bearer_header(key)),
            body,
            source,
            tokens,
            mappings,
            channels,
            rules,
            breaker,
            turn,
            now,
        ) {
            Ok(call) => Ok(call),
            Err(fault) => Err(ReplayFault::Rejected(fault)),
        },
    }
}

/// What the outcome of a replay says.
pub open spec fn replay_outcome(r: Result<UpstreamCall, ReplayError>) -> Result<
    CallView,
    ReplayFault,
> {
    match r {
        Ok(call) => Ok(call@),
        Err(e) => Err(e@),
    }
}

/// Sends a logged request through the dispatcher again: the body as it was
/// logged, in the format under which it was logged, with the credential of
/// `token`. The request takes every step that a client's request takes, and
/// the breakers learn of it as they learn of a client's request; an entry
/// that cannot be sent again leaves them as they are.
pub fn replay(
    log: &RequestLog,
    token: &Token,
    tokens: &Vec<Token>,
    mappings: &Vec<ModelMapping>,
    channels: &Vec<Channel>,
    registry: &RuleRegistry,
    breaker: &mut CircuitBreaker,
    turn: u64,
    now: u64,
) -> (r: Result<UpstreamCall, ReplayError>)
    ensures
        replay_outcome(r) == replayed(
            *log,
            token.key_value@,
            tokens@,
            mappings@,
            channels@,
            registry.rules(),
            *old(breaker),
            turn,
            now,
        ),
        forall|channel: Seq<char>|
            final(breaker).breaker_of(channel) == match replay_input(*log) {
                Err(_) => old(breaker).breaker_of(channel),
                Ok((body, source)) => breaker_after(
                    *old(breaker),
                    routing(
                        Some(bearer_header(token.key_value@)),
                        body,
                        source,
                        tokens@,
                        mappings@,
                        channels@,
                        registry.rules(),
                        *old(breaker),
                        turn,
                        now,
                    ),
                    mappings@,
                    channel,
                    now,
                ),
            },
        final(breaker).config() == old(breaker).config(),
{
    let body: &str = match &log.request_body {
        Some(b) => b.as_str(),
        None => {
            return Err(ReplayError::Incomplete("No request body".to_owned()));
        },
    };
    let tag: &str = match &log.input_format {
        Some(t) => t.as_str(),
        None => {
            return Err(ReplayError::Incomplete("No input format".to_owned()));
        },
    };
    let source: WireFormat = match replay_source(tag) {
        Some(f) => f,
        None => {
            return Err(ReplayError::UnknownFormat(tag.to_owned()));
        },
    };
    let header: String = "Bearer ".to_owned().concat(token.key_value.as_str());
    match plan(
        Some(header.as_str()),
        body,
        source,
        tokens,
        mappings,
        channels,
        registry,
        breaker,
        turn,
        now,
    ) {
        Ok(call) => Ok(call),
        Err(e) => Err(ReplayError::Rejected(e)),
    }
}

/// What one day used.
#[derive(Debug, PartialEq, Eq)]
pub struct DailyUsage {
    pub date: String,
    pub count: i64,
    pub prompt_tokens: i64,
    pub completion_tokens: i64,
}

/// How often one model was asked for.
#[derive(Debug, PartialEq, Eq)]
pub struct ModelUsage {
    pub model: String,
    pub count: i64,
}

/// The whole number `n` as a document.
pub open spec fn whole(n: i64) -> JsonValue {
    if n >= 0 {
        JsonValue::Number(NumeralValue::Unsigned(n as u64))
    } else {
        JsonValue::Number(NumeralValue::Negative(n))
    }
}

/// The entry of the report for one day.
pub open spec fn daily_entry(day: DailyUsage) -> JsonValue {
    JsonValue::Object(
        seq![
            MemberValue { key: "completion_tokens"@, value: whole(day.completion_tokens) },
            MemberValue { key: "count"@, value: whole(day.count) },
            MemberValue { key: "date"@, value: JsonValue::Text(day.date@) },
            MemberValue { key: "prompt_tokens"@, value: whole(day.prompt_tokens) },
        ],
    )
}

/// The entry of the report for one model.
pub open spec fn model_entry(usage: ModelUsage) -> JsonValue {
    JsonValue::Object(
        seq![
            MemberValue { key: "count"@, value: whole(usage.count) },
            MemberValue { key: "model"@, value: JsonValue::Text(usage.model@) },
        ],
    )
}

/// The usage report: the models under `by_model` and the days under
/// `daily`, each list in the order given.
pub open spec fn report(daily: Seq<DailyUsage>, by_model: Seq<ModelUsage>) -> JsonValue {
    JsonValue::Object(
        seq![
            MemberValue {
                key: "by_model"@,
                value: JsonValue::Array(
                    Seq::new(by_model.len(), |i: int| model_entry(by_model[i])),
                ),
            },
            MemberValue {
                key: "daily"@,
                value: JsonValue::Array(Seq::new(daily.len(), |i: int| daily_entry(daily[i]))),
            },
        ],
    )
}

/// The whole number `n` as a document.
pub fn whole_number(n: i64) -> (r: Json)
    ensures
        r@ == whole(n),
{
    if n >= 0 {
        Json::Number(Numeral::Unsigned(n as u64))
    } else {
        Json::Number(Numeral::Negative(n))
    }
}

/// The usage report for the days and models given.
pub fn usage_report(daily: &Vec<DailyUsage>, by_model: &Vec<ModelUsage>) -> (r: Json)
    ensures
        r@ == report(daily@, by_model@),
{
    let mut days: Vec<Json> = Vec::new();
    let mut i: usize = 0;
    while i < daily.len()
        invariant
            i <= daily.len(),
            days.len() == i,
            forall|j: int| 0 <= j < i ==> days@[j]@ == daily_entry(daily@[j]),
        decreases daily.len() - i,
    {
        let day: &DailyUsage = &daily[i];
        let mut members: Vec<Member> = Vec::new();
        members.push(
            Member {
                key: "completion_tokens".to_owned(),
                value: whole_number(day.completion_tokens),
            },
        );
        members.push(Member { key: "count".to_owned(), value: whole_number(day.count) });
        members.push(Member { key: "date".to_owned(), value: Json::Text(day.date.clone()) });
        members.push(
            Member { key: "prompt_tokens".to_owned(), value: whole_number(day.prompt_tokens) },
        );
        proof {
            lemma_object_view(members);
            assert(member_views(members@) =~= daily_entry(*day)->Object_0);
        }
        days.push(Json::Object(members));
        i = i + 1;
    }
    let mut models: Vec<Json> = Vec::new();
    let mut k: usize = 0;
    while k < by_model.len()
        invariant
            k <= by_model.len(),
            models.len() == k,
            forall|j: int| 0 <= j < k ==> models@[j]@ == model_entry(by_model@[j]),
        decreases by_model.len() - k,
    {
        let usage: &ModelUsage = &by_model[k];
        let mut members: Vec<Member> = Vec::new();
        members.push(Member { key: "count".to_owned(), value: whole_number(usage.count) });
        members.push(Member { key: "model".to_owned(), value: Json::Text(usage.model.clone()) });
        proof {
            lemma_object_view(members);
            assert(member_views(members@) =~= model_entry(*usage)->Object_0);
        }
        models.push(Json::Object(members));
        k = k + 1;
    }
    proof {
        lemma_array_view(days);
        lemma_array_view(models);
        assert(views(days@) =~= Seq::new(daily@.len(), |i: int| daily_entry(daily@[i])));
        assert(views(models@) =~= Seq::new(by_model@.len(), |i: int| model_entry(by_model@[i])));
    }
    let by_model_list: Json = Json::Array(models);
    let daily_list: Json = Json::Array(days);
    let mut members: Vec<Member> = Vec::new();
    members.push(Member { key: "by_model".to_owned(), value: by_model_list });
    members.push(Member { key: "daily".to_owned(), value: daily_list });
    proof {
        lemma_object_view(members);
        assert(member_views(members@) =~= seq![
            MemberValue { key: "by_model"@, value: by_model_list@ },
            MemberValue { key: "daily"@, value: daily_list@ },
        ]);
    }
    Json::Object(members)
}

} // verus!
