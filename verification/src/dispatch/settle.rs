//! After the upstream call: what the breaker learns, what the client gets
//! and what the token is charged.

use crate::circuit::{after_failure, after_success, ChannelBreaker, CircuitBreaker};
use crate::dispatch::envelope::{envelope, error_envelope};
use crate::error::{GatewayError, GatewayFault};
use crate::format::WireFormat;
use crate::json::{
    child, field, field_of, parse, parsed, render, rendered, unsigned, unsigned_in, Json, JsonValue,
};
use crate::rules::registry::{choice, CompiledRuleView, RuleRegistry};
use crate::rules::template::{run, RuleExecutionError, RunFault};
use crate::store::Token;
use vstd::prelude::*;

verus! {

/// How the upstream call ended.
#[derive(Debug, PartialEq, Eq)]
pub enum UpstreamOutcome {
    /// The upstream answered.
    Answered { status: u16, body: String },
    /// The upstream could not be reached, or did not answer in time.
    Failed { message: String },
}

pub ghost enum OutcomeView {
    Answered { status: u16, body: Seq<char> },
    Failed { message: Seq<char> },
}

impl View for UpstreamOutcome {
    type V = OutcomeView;

    open spec fn view(&self) -> OutcomeView {
        match self {
            UpstreamOutcome::Answered { status, body } => OutcomeView::Answered {
                status: *status,
                body: body@,
            },
            UpstreamOutcome::Failed { message } => OutcomeView::Failed { message: message@ },
        }
    }
}

/// Whether the upstream call succeeded: it was answered with a status from
/// 200 up to 299.
pub open spec fn is_success(outcome: OutcomeView) -> bool {
    outcome matches OutcomeView::Answered { status, .. } && 200 <= status < 300
}

impl UpstreamOutcome {
    /// Whether the upstream call succeeded.
    pub fn succeeded(&self) -> (r: bool)
        ensures
            r == is_success(self@),
    {
        match self {
            UpstreamOutcome::Answered { status, .. } => 200 <= *status && *status < 300,
            UpstreamOutcome::Failed { .. } => false,
        }
    }
}

/// The breaker of a channel after a call to it ended with `outcome` at
/// `now`.
pub open spec fn after_outcome(
    b: ChannelBreaker,
    cfg: crate::circuit::BreakerConfig,
    outcome: OutcomeView,
    now: u64,
) -> ChannelBreaker {
    if is_success(outcome) {
        after_success(b)
    } else {
        after_failure(b, cfg, now)
    }
}

/// Tells the breaker of `channel` how a call to it ended: a success where
/// the upstream answered with a status from 200 up to 299, a failure in
/// every other case.
pub fn record_outcome(breaker: &mut CircuitBreaker, channel: &str, outcome: &UpstreamOutcome, now: u64)
    ensures
        final(breaker).breaker_of(channel@) == after_outcome(
            old(breaker).breaker_of(channel@),
            old(breaker).config(),
            outcome@,
            now,
        ),
        forall|other: Seq<char>|
            other != channel@ ==> final(breaker).breaker_of(other) == old(breaker).breaker_of(
                other,
            ),
        final(breaker).config() == old(breaker).config(),
{
    if outcome.succeeded() {
        breaker.record_success(channel);
    } else {
        breaker.record_failure(channel, now);
    }
}

/// The units that an answer reports as used.
#[derive(Clone, Copy, Debug, PartialEq, Eq, Structural)]
pub struct Usage {
    pub prompt: Option<u64>,
    pub completion: Option<u64>,
}

/// `a + b`, held at the largest `u64`.
pub open spec fn clamp_add(a: u64, b: u64) -> u64 {
    if a + b > u64::MAX {
        u64::MAX
    } else {
        (a + b) as u64
    }
}

/// `n`, or 0 where it is absent.
pub open spec fn or_zero(n: Option<u64>) -> u64 {
    match n {
        Some(n) => n,
        None => 0,
    }
}

/// The units that `usage` comes to.
pub open spec fn units_of(usage: Usage) -> u64 {
    clamp_add(or_zero(usage.prompt), or_zero(usage.completion))
}

/// Whether answers in `format` count what went in and out as `input_tokens`
/// and `output_tokens`; the others count `prompt_tokens` and
/// `completion_tokens`.
pub open spec fn counts_input_output(format: WireFormat) -> bool {
    format == WireFormat::OpenAiResponses || format == WireFormat::Anthropic
}

/// The usage that the answer `doc` in `format` reports, under `usage`.
pub open spec fn usage_of(format: WireFormat, doc: JsonValue) -> Usage {
    let usage = field(doc, "usage"@);
    if counts_input_output(format) {
        Usage {
            prompt: unsigned_in(field_of(usage, "input_tokens"@)),
            completion: unsigned_in(field_of(usage, "output_tokens"@)),
        }
    } else {
        Usage {
            prompt: unsigned_in(field_of(usage, "prompt_tokens"@)),
            completion: unsigned_in(field_of(usage, "completion_tokens"@)),
        }
    }
}

/// No usage at all.
pub open spec fn no_usage() -> Usage {
    Usage { prompt: None, completion: None }
}

/// The usage that the answer `doc` in `format` reports.
pub fn read_usage(format: WireFormat, doc: &Json) -> (r: Usage)
    ensures
        r == usage_of(format, doc@),
{
    let usage: Option<&Json> = doc.get("usage");
    match format {
        WireFormat::OpenAiResponses | WireFormat::Anthropic => Usage {
            prompt: unsigned(child(usage, "input_tokens")),
            completion: unsigned(child(usage, "output_tokens")),
        },
        _ => Usage {
            prompt: unsigned(child(usage, "prompt_tokens")),
            completion: unsigned(child(usage, "completion_tokens")),
        },
    }
}

impl Usage {
    /// The units that this usage comes to.
    pub fn units(&self) -> (r: u64)
        ensures
            r == units_of(*self),
    {
        let p: u64 = match self.prompt {
            Some(n) => n,
            None => 0,
        };
        let c: u64 = match self.completion {
            Some(n) => n,
            None => 0,
        };
        p.saturating_add(c)
    }
}

/// The usage that an upstream call with `outcome` reports: that of its
/// body where the call succeeded and the body is a document, none in every
/// other case.
pub open spec fn reported_usage(format: WireFormat, outcome: OutcomeView) -> Usage {
    match outcome {
        OutcomeView::Answered { status, body } => if 200 <= status < 300 {
            match parsed(body) {
                Some(doc) => usage_of(format, doc),
                None => no_usage(),
            }
        } else {
            no_usage()
        },
        OutcomeView::Failed { .. } => no_usage(),
    }
}

/// What the client gets.
#[derive(Debug, PartialEq, Eq)]
pub struct Answer {
    pub status: u16,
    pub body: String,
    /// Why the request failed, where it did.
    pub error: Option<GatewayError>,
}

pub ghost struct AnswerView {
    pub status: u16,
    pub body: Seq<char>,
    pub error: Option<GatewayFault>,
}

impl View for Answer {
    type V = AnswerView;

    open spec fn view(&self) -> AnswerView {
        AnswerView {
            status: self.status,
            body: self.body@,
            error: match self.error {
                Some(e) => Some(e@),
                None => None,
            },
        }
    }
}

/// What the client is told of a failure that the gateway itself reports.
pub open spec fn refusal(source: WireFormat, fault: GatewayFault) -> AnswerView {
    AnswerView {
        status: crate::error::fault_status(fault),
        body: rendered(envelope(source, fault)),
        error: Some(fault),
    }
}

/// The body of a successful answer as the client's protocol has it: the
/// upstream's body as it stands where the channel speaks the client's
/// format or the answer is a stream, and reshaped by the response template
/// of the authoritative rule where it does not.
pub open spec fn reshaped(
    body: Seq<char>,
    source: WireFormat,
    target: WireFormat,
    stream: bool,
    rules: Seq<CompiledRuleView>,
) -> Result<Seq<char>, GatewayFault> {
    if stream || source == target {
        Ok(body)
    } else {
        match parsed(body) {
            None => Err(GatewayFault::RuleExecution(RunFault::TypeMismatch("$"@))),
            Some(doc) => {
                let r = choice(rules, source, target, rules.len() as int);
                if !(0 <= r < rules.len()) {
                    Err(GatewayFault::NoConversionRule { source, target })
                } else {
                    match run(rules[r].response, doc) {
                        Ok(made) => Ok(rendered(made)),
                        Err(fault) => Err(GatewayFault::RuleExecution(fault)),
                    }
                }
            },
        }
    }
}

/// What the client gets after an upstream call that ended with `outcome`.
/// A call that failed is reported as `UpstreamError`; an answer outside 200
/// to 299 goes to the client as it came, and counts as `UpstreamError` too;
/// a success goes to the client reshaped.
pub open spec fn answer_for(
    outcome: OutcomeView,
    source: WireFormat,
    target: WireFormat,
    stream: bool,
    rules: Seq<CompiledRuleView>,
) -> AnswerView {
    match outcome {
        OutcomeView::Failed { message } => refusal(
            source,
            GatewayFault::Upstream { status: None, message },
        ),
        OutcomeView::Answered { status, body } => if !(200 <= status < 300) {
            AnswerView {
                status,
                body,
                error: Some(GatewayFault::Upstream { status: Some(status), message: body }),
            }
        } else {
            match reshaped(body, source, target, stream, rules) {
                Ok(made) => AnswerView { status, body: made, error: None },
                Err(fault) => refusal(source, fault),
            }
        },
    }
}

/// What the client is told of `error`.
pub fn refuse(source: WireFormat, error: GatewayError) -> (r: Answer)
    ensures
        r@ == refusal(source, error@),
{
    let body: String = render(&error_envelope(source, &error));
    Answer { status: error.status(), body, error: Some(error) }
}

/// The body of a successful answer as the client's protocol has it, given
/// what the upstream's body holds where it is a document.
pub fn reshape(
    body: &str,
    source: WireFormat,
    target: WireFormat,
    stream: bool,
    registry: &RuleRegistry,
) -> (r: Result<String, GatewayError>)
    ensures
        match r {
            Ok(made) => reshaped(body@, source, target, stream, registry.rules()) == Ok::<
                Seq<char>,
                GatewayFault,
            >(made@),
            Err(e) => reshaped(body@, source, target, stream, registry.rules()) == Err::<
                Seq<char>,
                GatewayFault,
            >(e@),
        },
{
    if stream || source == target {
        return Ok(body.to_owned());
    }
    let doc: Json = match parse(body) {
        Ok(doc) => doc,
        Err(_) => {
            return Err(
                GatewayError::RuleExecution(RuleExecutionError::TypeMismatch("$".to_owned())),
            );
        },
    };
    match registry.lookup(source, target) {
        None => Err(GatewayError::NoConversionRule { source, target }),
        Some(rule) => match rule.response.apply(&doc) {
            Ok(made) => Ok(render(&made)),
            Err(fault) => Err(GatewayError::RuleExecution(fault)),
        },
    }
}

/// What the client gets after an upstream call that ended with `outcome`.
pub fn answer(
    outcome: &UpstreamOutcome,
    source: WireFormat,
    target: WireFormat,
    stream: bool,
    registry: &RuleRegistry,
) -> (r: Answer)
    ensures
        r@ == answer_for(outcome@, source, target, stream, registry.rules()),
{
    match outcome {
        UpstreamOutcome::Failed { message } => refuse(
            source,
            GatewayError::Upstream { status: None, message: message.clone() },
        ),
        UpstreamOutcome::Answered { status, body } => {
            if !(200 <= *status && *status < 300) {
                Answer {
                    status: *status,
                    body: body.clone(),
                    error: Some(
                        GatewayError::Upstream { status: Some(*status), message: body.clone() },
                    ),
                }
            } else {
                match reshape(body.as_str(), source, target, stream, registry) {
                    Ok(made) => Answer { status: *status, body: made, error: None },
                    Err(e) => refuse(source, e),
                }
            }
        },
    }
}

/// The usage that an upstream call with `outcome` reports.
pub fn usage_reported(format: WireFormat, outcome: &UpstreamOutcome) -> (r: Usage)
    ensures
        r == reported_usage(format, outcome@),
{
    match outcome {
        UpstreamOutcome::Answered { status, body } => {
            if 200 <= *status && *status < 300 {
                match parse(body.as_str()) {
                    Ok(doc) => read_usage(format, &doc),
                    Err(_) => Usage { prompt: None, completion: None },
                }
            } else {
                Usage { prompt: None, completion: None }
            }
        },
        UpstreamOutcome::Failed { .. } => Usage { prompt: None, completion: None },
    }
}

/// Charges `token` for one request that went upstream and used `usage`:
/// one request more, and the units used more. Nothing else of the token
/// changes.
pub fn charge(token: &mut Token, usage: Usage)
    ensures
        final(token).request_count == clamp_add(old(token).request_count, 1),
        final(token).quota_used == clamp_add(old(token).quota_used, units_of(usage)),
        final(token).id == old(token).id,
        final(token).key_value == old(token).key_value,
        final(token).enabled == old(token).enabled,
        final(token).quota_limit == old(token).quota_limit,
{
    token.request_count = token.request_count.saturating_add(1);
    token.quota_used = token.quota_used.saturating_add(usage.units());
}

} // verus!
