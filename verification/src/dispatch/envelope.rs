//! How a failure is told to the client, in the shape that its protocol
//! expects.

use crate::error::{fault_name, GatewayError, GatewayFault};
use crate::format::WireFormat;
use crate::json::{lemma_object_view, member_views, Json, JsonValue, Member, MemberValue};
use crate::rules::template::{CompileFault, RuleCompileError, RuleExecutionError, RunFault};
use vstd::prelude::*;

verus! {

/// What a failure says beyond its kind: the model, channel or path that it
/// is about, or the message that came with it.
pub open spec fn fault_detail(fault: GatewayFault) -> Seq<char> {
    match fault {
        GatewayFault::UnknownModel(model) => model,
        GatewayFault::NoEnabledKey(channel) => channel,
        GatewayFault::CircuitOpen(channel) => channel,
        GatewayFault::RuleCompile(CompileFault::Syntax(message)) => message,
        GatewayFault::RuleCompile(CompileFault::BadPath(path)) => path,
        GatewayFault::RuleCompile(CompileFault::BadDirective(key)) => key,
        GatewayFault::RuleExecution(RunFault::MissingField(path)) => path,
        GatewayFault::RuleExecution(RunFault::TypeMismatch(path)) => path,
        GatewayFault::Upstream { message, .. } => message,
        GatewayFault::Store(message) => message,
        _ => Seq::empty(),
    }
}

/// The object with the two members given.
pub open spec fn pair(
    first: Seq<char>,
    first_value: JsonValue,
    second: Seq<char>,
    second_value: JsonValue,
) -> JsonValue {
    JsonValue::Object(
        seq![
            MemberValue { key: first, value: first_value },
            MemberValue { key: second, value: second_value },
        ],
    )
}

/// What the client is told of a failure: in the Anthropic protocol an
/// object of type `error` that holds the kind and the detail, in every
/// other an object whose `error` holds the detail and the kind.
pub open spec fn envelope(source: WireFormat, fault: GatewayFault) -> JsonValue {
    let name = JsonValue::Text(fault_name(fault));
    let detail = JsonValue::Text(fault_detail(fault));
    if source == WireFormat::Anthropic {
        pair("type"@, JsonValue::Text("error"@), "error"@, pair("type"@, name, "message"@, detail))
    } else {
        JsonValue::Object(
            seq![
                MemberValue { key: "error"@, value: pair("message"@, detail, "type"@, name) },
            ],
        )
    }
}

/// The object with the two members given.
pub fn object_of_two(first: &str, first_value: Json, second: &str, second_value: Json) -> (r: Json)
    ensures
        r@ == pair(first@, first_value@, second@, second_value@),
{
    let mut members: Vec<Member> = Vec::new();
    members.push(Member { key: first.to_owned(), value: first_value });
    members.push(Member { key: second.to_owned(), value: second_value });
    proof {
        lemma_object_view(members);
        assert(member_views(members@) =~= seq![
            MemberValue { key: first@, value: first_value@ },
            MemberValue { key: second@, value: second_value@ },
        ]);
    }
    Json::Object(members)
}

/// What `error` says beyond its kind.
pub fn detail_of(error: &GatewayError) -> (r: String)
    ensures
        r@ == fault_detail(error@),
{
    match error {
        GatewayError::UnknownModel(model) => model.clone(),
        GatewayError::NoEnabledKey(channel) => channel.clone(),
        GatewayError::CircuitOpen(channel) => channel.clone(),
        GatewayError::RuleCompile(RuleCompileError::Syntax(message)) => message.clone(),
        GatewayError::RuleCompile(RuleCompileError::BadPath(path)) => path.clone(),
        GatewayError::RuleCompile(RuleCompileError::BadDirective(key)) => key.clone(),
        GatewayError::RuleExecution(RuleExecutionError::MissingField(path)) => path.clone(),
        GatewayError::RuleExecution(RuleExecutionError::TypeMismatch(path)) => path.clone(),
        GatewayError::Upstream { message, .. } => message.clone(),
        GatewayError::Store(message) => message.clone(),
        _ => String::new(),
    }
}

/// What the client is told of `error`.
pub fn error_envelope(source: WireFormat, error: &GatewayError) -> (r: Json)
    ensures
        r@ == envelope(source, error@),
{
    let name: Json = Json::Text(error.name().to_owned());
    let detail: Json = Json::Text(detail_of(error));
    if source == WireFormat::Anthropic {
        let inner: Json = object_of_two("type", name, "message", detail);
        object_of_two("type", Json::Text("error".to_owned()), "error", inner)
    } else {
        let inner: Json = object_of_two("message", detail, "type", name);
        let mut members: Vec<Member> = Vec::new();
        members.push(Member { key: "error".to_owned(), value: inner });
        proof {
            lemma_object_view(members);
            assert(member_views(members@) =~= seq![
                MemberValue { key: "error"@, value: inner@ },
            ]);
        }
        Json::Object(members)
    }
}

} // verus!
