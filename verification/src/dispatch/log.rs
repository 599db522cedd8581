//! The record of a request: written once, when the request has ended.

use crate::dispatch::pipeline::{CallView, Settlement, UpstreamCall};
use crate::dispatch::settle::{AnswerView, Usage};
use crate::error::{fault_name, GatewayError, GatewayFault};
use crate::format::{tag_of, WireFormat};
use crate::text::view_of;
use vstd::prelude::*;

verus! {

/// What is kept of one request.
#[derive(Debug, PartialEq, Eq)]
pub struct RequestLog {
    pub id: String,
    pub created_at: String,
    /// The tag of the format in which the client spoke.
    pub input_format: Option<String>,
    /// The body as the client sent it.
    pub request_body: Option<String>,
    /// The status that the client got, where an upstream was called.
    pub response_status: Option<u16>,
    /// The body that the client got, where an upstream was called.
    pub response_body: Option<String>,
    /// The name of the failure, where the request failed.
    pub error: Option<String>,
    pub model: Option<String>,
    pub channel_id: Option<String>,
    pub token_id: Option<String>,
    pub prompt_tokens: Option<u64>,
    pub completion_tokens: Option<u64>,
    pub latency_ms: u64,
}

pub ghost struct RequestLogView {
    pub id: Seq<char>,
    pub created_at: Seq<char>,
    pub input_format: Option<Seq<char>>,
    pub request_body: Option<Seq<char>>,
    pub response_status: Option<u16>,
    pub response_body: Option<Seq<char>>,
    pub error: Option<Seq<char>>,
    pub model: Option<Seq<char>>,
    pub channel_id: Option<Seq<char>>,
    pub token_id: Option<Seq<char>>,
    pub prompt_tokens: Option<u64>,
    pub completion_tokens: Option<u64>,
    pub latency_ms: u64,
}

impl View for RequestLog {
    type V = RequestLogView;

    open spec fn view(&self) -> RequestLogView {
        RequestLogView {
            id: self.id@,
            created_at: self.created_at@,
            input_format: view_of(self.input_format),
            request_body: view_of(self.request_body),
            response_status: self.response_status,
            response_body: view_of(self.response_body),
            error: view_of(self.error),
            model: view_of(self.model),
            channel_id: view_of(self.channel_id),
            token_id: view_of(self.token_id),
            prompt_tokens: self.prompt_tokens,
            completion_tokens: self.completion_tokens,
            latency_ms: self.latency_ms,
        }
    }
}

/// The name of a failure that may be absent.
pub open spec fn name_in(fault: Option<GatewayFault>) -> Option<Seq<char>> {
    match fault {
        Some(f) => Some(fault_name(f)),
        None => None,
    }
}

/// The record of a request that was turned away before any upstream was
/// called: it names the failure and holds nothing of an upstream.
pub open spec fn rejected_record(
    id: Seq<char>,
    created_at: Seq<char>,
    source: WireFormat,
    body: Seq<char>,
    fault: GatewayFault,
    token_id: Option<Seq<char>>,
    model: Option<Seq<char>>,
    latency_ms: u64,
) -> RequestLogView {
    RequestLogView {
        id,
        created_at,
        input_format: Some(tag_of(source)),
        request_body: Some(body),
        response_status: None,
        response_body: None,
        error: Some(fault_name(fault)),
        model,
        channel_id: None,
        token_id,
        prompt_tokens: None,
        completion_tokens: None,
        latency_ms,
    }
}

/// The record of a request that went upstream.
pub open spec fn settled_record(
    id: Seq<char>,
    created_at: Seq<char>,
    call: CallView,
    body: Seq<char>,
    answer: AnswerView,
    usage: Usage,
    latency_ms: u64,
) -> RequestLogView {
    RequestLogView {
        id,
        created_at,
        input_format: Some(tag_of(call.source)),
        request_body: Some(body),
        response_status: Some(answer.status),
        response_body: Some(answer.body),
        error: name_in(answer.error),
        model: Some(call.model),
        channel_id: Some(call.channel_id),
        token_id: Some(call.token_id),
        prompt_tokens: usage.prompt,
        completion_tokens: usage.completion,
        latency_ms,
    }
}

/// An owned copy of a string slice that may be absent.
fn copy_of(s: Option<&str>) -> (r: Option<String>)
    ensures
        view_of(r) == crate::json::slice_in(s),
{
    match s {
        Some(s) => Some(s.to_owned()),
        None => None,
    }
}

/// Writes the record of a request that was turned away before any upstream
/// was called.
pub fn log_rejected(
    id: &str,
    created_at: &str,
    source: WireFormat,
    body: &str,
    error: &GatewayError,
    token_id: Option<&str>,
    model: Option<&str>,
    latency_ms: u64,
) -> (r: RequestLog)
    ensures
        r@ == rejected_record(
            id@,
            created_at@,
            source,
            body@,
            error@,
            crate::json::slice_in(token_id),
            crate::json::slice_in(model),
            latency_ms,
        ),
{
    RequestLog {
        id: id.to_owned(),
        created_at: created_at.to_owned(),
        input_format: Some(source.tag().to_owned()),
        request_body: Some(body.to_owned()),
        response_status: None,
        response_body: None,
        error: Some(error.name().to_owned()),
        model: copy_of(model),
        channel_id: None,
        token_id: copy_of(token_id),
        prompt_tokens: None,
        completion_tokens: None,
        latency_ms,
    }
}

/// Writes the record of a request that went upstream.
pub fn log_settled(
    id: &str,
    created_at: &str,
    call: &UpstreamCall,
    body: &str,
    settlement: &Settlement,
    latency_ms: u64,
) -> (r: RequestLog)
    ensures
        r@ == settled_record(
            id@,
            created_at@,
            call@,
            body@,
            settlement.answer@,
            settlement.usage,
            latency_ms,
        ),
{
    RequestLog {
        id: id.to_owned(),
        created_at: created_at.to_owned(),
        input_format: Some(call.source.tag().to_owned()),
        request_body: Some(body.to_owned()),
        response_status: Some(settlement.answer.status),
        response_body: Some(settlement.answer.body.clone()),
        error: match &settlement.answer.error {
            Some(e) => Some(e.name().to_owned()),
            None => None,
        },
        model: Some(call.model.clone()),
        channel_id: Some(call.channel_id.clone()),
        token_id: Some(call.token_id.clone()),
        prompt_tokens: settlement.usage.prompt,
        completion_tokens: settlement.usage.completion,
        latency_ms,
    }
}

} // verus!
