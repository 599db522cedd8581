use omnikit::circuit::{BreakerState, CircuitBreaker};
use omnikit::dispatch::envelope::error_envelope;
use omnikit::dispatch::log::{log_rejected, log_settled};
use omnikit::dispatch::pipeline::{plan, settle, turn_after, UpstreamCall};
use omnikit::dispatch::route::{authenticate, bearer_of};
use omnikit::dispatch::settle::{charge, read_usage, UpstreamOutcome, Usage};
use omnikit::dispatch::stream::{data_of, relay_chunk, relay_line, reshape_line, split_lines};
use omnikit::dispatch::upstream::{auth_headers, upstream_url};
use omnikit::error::GatewayError;
use omnikit::format::WireFormat;
use omnikit::json::{parse, render};
use omnikit::rules::registry::{RuleDefinition, RuleOrigin, RuleRegistry};
use omnikit::rules::template::{RuleCompileError, RuleExecutionError};
use omnikit::store::{
    next_turn, public_models, select_key, ApiKey, Channel, ModelMapping, Token,
};

const REQUEST_TEMPLATE: &str = r#"{
  "model": "$.model",
  "max_tokens": {"$path": "$.max_tokens", "$default": 1024},
  "messages": {"$path": "$.messages", "$each": {
    "role": {"$path": "$.role", "$map": {"system": "user"}},
    "content": "$.content"
  }}
}"#;

const RESPONSE_TEMPLATE: &str = r#"{
  "id": "$.id",
  "object": {"$literal": "chat.completion"},
  "model": "$.model",
  "choices": [{
    "index": 0,
    "message": {"role": "assistant", "content": "$.content[0].text"},
    "finish_reason": {"$path": "$.stop_reason", "$map": {"end_turn": "stop", "max_tokens": "length"}}
  }],
  "usage": {
    "prompt_tokens": "$.usage.input_tokens",
    "completion_tokens": "$.usage.output_tokens"
  }
}"#;

const CHAT_BODY: &str = r#"{"model":"gpt-test","messages":[{"role":"user","content":"hello"}]}"#;

const ANTHROPIC_ANSWER: &str = r#"{"id":"msg_1","type":"message","role":"assistant","model":"upstream-large","content":[{"type":"text","text":"hi there"}],"stop_reason":"end_turn","usage":{"input_tokens":12,"output_tokens":5}}"#;

fn token(id: &str, key: &str, limit: Option<u64>, used: u64) -> Token {
    Token {
        id: id.to_string(),
        key_value: key.to_string(),
        enabled: true,
        quota_limit: limit,
        quota_used: used,
        request_count: 0,
    }
}

fn key(id: &str, enabled: bool) -> ApiKey {
    ApiKey { id: id.to_string(), key_value: format!("sk-{}", id), enabled }
}

fn channel(id: &str, format: WireFormat, keys: Vec<ApiKey>) -> Channel {
    Channel {
        id: id.to_string(),
        name: id.to_string(),
        format,
        base_url: "https://up.example/".to_string(),
        keys,
    }
}

fn mapping(public: &str, channel: &str, upstream: &str) -> ModelMapping {
    ModelMapping {
        public_name: public.to_string(),
        channel_id: channel.to_string(),
        upstream_model: upstream.to_string(),
    }
}

fn registry() -> RuleRegistry {
    RuleRegistry::load(&vec![RuleDefinition {
        id: "r1".to_string(),
        source: WireFormat::OpenAiChat,
        target: WireFormat::Anthropic,
        request_template: REQUEST_TEMPLATE.to_string(),
        response_template: RESPONSE_TEMPLATE.to_string(),
        enabled: true,
        origin: RuleOrigin::System,
        updated_at: 1,
    }])
}

struct World {
    tokens: Vec<Token>,
    mappings: Vec<ModelMapping>,
    channels: Vec<Channel>,
    registry: RuleRegistry,
    breaker: CircuitBreaker,
}

fn world() -> World {
    World {
        tokens: vec![token("tok_1", "secret-1", Some(100), 0)],
        mappings: vec![mapping("gpt-test", "anthropic-1", "upstream-large")],
        channels: vec![channel("anthropic-1", WireFormat::Anthropic, vec![key("k1", true)])],
        registry: registry(),
        breaker: CircuitBreaker::new(5, 60),
    }
}

fn plan_in(w: &mut World, auth: Option<&str>, body: &str, now: u64) -> Result<UpstreamCall, GatewayError> {
    plan(
        auth,
        body,
        WireFormat::OpenAiChat,
        &w.tokens,
        &w.mappings,
        &w.channels,
        &w.registry,
        &mut w.breaker,
        0,
        now,
    )
}

#[test]
fn a_chat_request_is_served_by_an_anthropic_channel() {
    let mut w = world();
    let call = plan_in(&mut w, Some("Bearer secret-1"), CHAT_BODY, 1000).unwrap();
    assert_eq!(call.token_id, "tok_1");
    assert_eq!(call.channel_id, "anthropic-1");
    assert_eq!(call.api_key, "sk-k1");
    assert_eq!(call.model, "gpt-test");
    assert_eq!(call.source, WireFormat::OpenAiChat);
    assert_eq!(call.target, WireFormat::Anthropic);
    assert!(!call.stream);
    assert!(!call.trial);
    assert_eq!(
        render(&call.body),
        r#"{"max_tokens":1024,"messages":[{"content":"hello","role":"user"}],"model":"upstream-large"}"#
    );
    assert_eq!(
        upstream_url(&call.base_url, call.source, call.target),
        "https://up.example/v1/messages"
    );

    let outcome = UpstreamOutcome::Answered { status: 200, body: ANTHROPIC_ANSWER.to_string() };
    let mut charged = token("tok_1", "secret-1", Some(100), 0);
    let settlement = settle(&call, &outcome, &mut charged, &w.registry, &mut w.breaker, 1001);
    assert_eq!(settlement.answer.status, 200);
    assert_eq!(settlement.answer.error, None);
    assert_eq!(
        parse(&settlement.answer.body).unwrap(),
        parse(r#"{"id":"msg_1","object":"chat.completion","model":"upstream-large","choices":[{"index":0,"message":{"role":"assistant","content":"hi there"},"finish_reason":"stop"}],"usage":{"prompt_tokens":12,"completion_tokens":5}}"#).unwrap()
    );
    assert_eq!(settlement.usage, Usage { prompt: Some(12), completion: Some(5) });
    assert_eq!(charged.quota_used, 17);
    assert_eq!(charged.request_count, 1);
    assert_eq!(charged.quota_limit, Some(100));
    assert_eq!(w.breaker.snapshot("anthropic-1").state, BreakerState::Closed);

    let log = log_settled("log-1", "2024-01-01T00:00:00Z", &call, CHAT_BODY, &settlement, 42);
    assert_eq!(log.input_format.as_deref(), Some("openai_chat"));
    assert_eq!(log.request_body.as_deref(), Some(CHAT_BODY));
    assert_eq!(log.response_status, Some(200));
    assert_eq!(log.error, None);
    assert_eq!(log.model.as_deref(), Some("gpt-test"));
    assert_eq!(log.channel_id.as_deref(), Some("anthropic-1"));
    assert_eq!(log.token_id.as_deref(), Some("tok_1"));
    assert_eq!(log.prompt_tokens, Some(12));
    assert_eq!(log.completion_tokens, Some(5));
    assert_eq!(log.latency_ms, 42);
}

#[test]
fn a_channel_without_enabled_keys_serves_nothing() {
    let mut w = world();
    w.channels = vec![channel("anthropic-1", WireFormat::Anthropic, vec![key("k1", false)])];
    let before = w.breaker.snapshot("anthropic-1");
    let error = plan_in(&mut w, Some("Bearer secret-1"), CHAT_BODY, 1000).unwrap_err();
    assert_eq!(error, GatewayError::NoEnabledKey("anthropic-1".to_string()));
    assert_eq!(error.name(), "NoEnabledKey");
    assert_eq!(w.breaker.snapshot("anthropic-1"), before);
    let log = log_rejected("log-2", "t", WireFormat::OpenAiChat, CHAT_BODY, &error, Some("tok_1"), Some("gpt-test"), 3);
    assert_eq!(log.error.as_deref(), Some("NoEnabledKey"));
    assert_eq!(log.input_format.as_deref(), Some("openai_chat"));
    assert_eq!(log.response_status, None);
    assert_eq!(log.response_body, None);
    assert_eq!(log.channel_id, None);
    assert_eq!(log.prompt_tokens, None);
    assert_eq!(log.completion_tokens, None);

    w.channels = Vec::new();
    assert_eq!(
        plan_in(&mut w, Some("Bearer secret-1"), CHAT_BODY, 1000),
        Err(GatewayError::NoEnabledKey("anthropic-1".to_string()))
    );
}

#[test]
fn a_trial_admitted_but_not_sent_leaves_the_breaker_open() {
    let mut w = world();
    for t in 0..5u64 {
        w.breaker.record_failure("anthropic-1", 100 + t);
    }
    w.channels = vec![channel("anthropic-1", WireFormat::Anthropic, vec![key("k1", false)])];
    assert_eq!(
        plan_in(&mut w, Some("Bearer secret-1"), CHAT_BODY, 500),
        Err(GatewayError::NoEnabledKey("anthropic-1".to_string()))
    );
    assert_eq!(w.breaker.snapshot("anthropic-1").state, BreakerState::Open);
}

#[test]
fn requests_without_a_valid_token_are_unauthorized() {
    let mut w = world();
    for auth in [None, Some(""), Some("secret-1"), Some("Bearer"), Some("Bearer "), Some("Bearer wrong"), Some("bearer secret-1"), Some("Basic secret-1")] {
        assert_eq!(plan_in(&mut w, auth, CHAT_BODY, 0), Err(GatewayError::Unauthorized), "{:?}", auth);
    }
    w.tokens[0].enabled = false;
    assert_eq!(plan_in(&mut w, Some("Bearer secret-1"), CHAT_BODY, 0), Err(GatewayError::Unauthorized));
    assert_eq!(GatewayError::Unauthorized.status(), 401);
}

#[test]
fn bearer_is_what_follows_the_prefix() {
    assert_eq!(bearer_of("Bearer abc"), Some("abc".to_string()));
    assert_eq!(bearer_of("Bearer   abc  "), Some("abc".to_string()));
    assert_eq!(bearer_of("Bearer a b"), Some("a b".to_string()));
    assert_eq!(bearer_of("Bearer "), None);
    assert_eq!(bearer_of("Bearerabc"), None);
    assert_eq!(bearer_of(" Bearer abc"), None);
}

#[test]
fn a_token_at_its_limit_is_turned_away() {
    let mut w = world();
    w.tokens = vec![token("tok_1", "secret-1", Some(100), 100)];
    assert_eq!(plan_in(&mut w, Some("Bearer secret-1"), CHAT_BODY, 0), Err(GatewayError::QuotaExceeded));
    w.tokens = vec![token("tok_1", "secret-1", Some(100), 99)];
    assert!(plan_in(&mut w, Some("Bearer secret-1"), CHAT_BODY, 0).is_ok());
    w.tokens = vec![token("tok_1", "secret-1", None, u64::MAX)];
    assert!(plan_in(&mut w, Some("Bearer secret-1"), CHAT_BODY, 0).is_ok());
    w.tokens = vec![token("tok_1", "secret-1", Some(0), 0)];
    assert_eq!(authenticate(Some("Bearer secret-1"), &w.tokens), Err(GatewayError::QuotaExceeded));
    assert_eq!(GatewayError::QuotaExceeded.status(), 429);
}

#[test]
fn a_model_without_mapping_is_unknown() {
    let mut w = world();
    let auth = Some("Bearer secret-1");
    assert_eq!(
        plan_in(&mut w, auth, r#"{"model":"nope","messages":[]}"#, 0),
        Err(GatewayError::UnknownModel("nope".to_string()))
    );
    assert_eq!(plan_in(&mut w, auth, r#"{"messages":[]}"#, 0), Err(GatewayError::UnknownModel(String::new())));
    assert_eq!(plan_in(&mut w, auth, r#"{"model":7}"#, 0), Err(GatewayError::UnknownModel(String::new())));
    assert_eq!(plan_in(&mut w, auth, "not json", 0), Err(GatewayError::UnknownModel(String::new())));
}

#[test]
fn an_open_breaker_fails_fast_and_a_trial_follows_the_cooldown() {
    let mut w = world();
    let auth = Some("Bearer secret-1");
    for t in 0..5u64 {
        let call = plan_in(&mut w, auth, CHAT_BODY, 100 + t).unwrap();
        let outcome = UpstreamOutcome::Answered { status: 500, body: "boom".to_string() };
        let mut charged = token("tok_1", "secret-1", Some(100), 0);
        let settlement = settle(&call, &outcome, &mut charged, &w.registry, &mut w.breaker, 100 + t);
        assert_eq!(settlement.answer.status, 500);
        assert_eq!(settlement.answer.body, "boom");
        assert_eq!(
            settlement.answer.error,
            Some(GatewayError::Upstream { status: Some(500), message: "boom".to_string() })
        );
        assert_eq!(charged.request_count, 1);
        assert_eq!(charged.quota_used, 0);
    }
    assert_eq!(w.breaker.snapshot("anthropic-1").state, BreakerState::Open);
    let before = w.breaker.snapshot("anthropic-1");
    assert_eq!(
        plan_in(&mut w, auth, CHAT_BODY, 130),
        Err(GatewayError::CircuitOpen("anthropic-1".to_string()))
    );
    assert_eq!(w.breaker.snapshot("anthropic-1"), before);

    let trial = plan_in(&mut w, auth, CHAT_BODY, 104 + 61).unwrap();
    assert!(trial.trial);
    assert_eq!(w.breaker.snapshot("anthropic-1").state, BreakerState::HalfOpen);
    assert_eq!(
        plan_in(&mut w, auth, CHAT_BODY, 166),
        Err(GatewayError::CircuitOpen("anthropic-1".to_string()))
    );
    let outcome = UpstreamOutcome::Answered { status: 200, body: ANTHROPIC_ANSWER.to_string() };
    let mut charged = token("tok_1", "secret-1", Some(100), 0);
    settle(&trial, &outcome, &mut charged, &w.registry, &mut w.breaker, 167);
    let after = w.breaker.snapshot("anthropic-1");
    assert_eq!(after.state, BreakerState::Closed);
    assert_eq!(after.failures, 0);
    assert!(plan_in(&mut w, auth, CHAT_BODY, 168).is_ok());
}

#[test]
fn a_transport_failure_counts_against_the_breaker() {
    let mut w = world();
    let call = plan_in(&mut w, Some("Bearer secret-1"), CHAT_BODY, 10).unwrap();
    let outcome = UpstreamOutcome::Failed { message: "timed out".to_string() };
    let mut charged = token("tok_1", "secret-1", Some(100), 0);
    let settlement = settle(&call, &outcome, &mut charged, &w.registry, &mut w.breaker, 11);
    assert_eq!(settlement.answer.status, 502);
    assert_eq!(
        settlement.answer.body,
        r#"{"error":{"message":"timed out","type":"UpstreamError"}}"#
    );
    assert_eq!(w.breaker.snapshot("anthropic-1").failures, 1);
    assert_eq!(settlement.usage, Usage { prompt: None, completion: None });
    assert!(GatewayError::Upstream { status: None, message: String::new() }.counts_against_breaker());
}

#[test]
fn a_missing_rule_and_a_failing_rule_are_told_apart() {
    let mut w = world();
    let auth = Some("Bearer secret-1");
    w.registry = RuleRegistry::new();
    assert_eq!(
        plan_in(&mut w, auth, CHAT_BODY, 0),
        Err(GatewayError::NoConversionRule { source: WireFormat::OpenAiChat, target: WireFormat::Anthropic })
    );
    w.registry = registry();
    let error = plan_in(&mut w, auth, r#"{"model":"gpt-test"}"#, 0).unwrap_err();
    assert_eq!(
        error,
        GatewayError::RuleExecution(RuleExecutionError::MissingField("$.messages".to_string()))
    );
    assert!(!error.counts_against_breaker());
    assert_eq!(w.breaker.snapshot("anthropic-1").failures, 0);
    assert_eq!(w.breaker.snapshot("anthropic-1").state, BreakerState::Closed);
}

#[test]
fn an_answer_that_cannot_be_reshaped_does_not_count_against_the_breaker() {
    let mut w = world();
    let call = plan_in(&mut w, Some("Bearer secret-1"), CHAT_BODY, 10).unwrap();
    let outcome = UpstreamOutcome::Answered { status: 200, body: r#"{"id":"x"}"#.to_string() };
    let mut charged = token("tok_1", "secret-1", Some(100), 0);
    let settlement = settle(&call, &outcome, &mut charged, &w.registry, &mut w.breaker, 11);
    assert_eq!(settlement.answer.status, 500);
    assert!(matches!(settlement.answer.error, Some(GatewayError::RuleExecution(_))));
    assert_eq!(w.breaker.snapshot("anthropic-1").failures, 0);
    assert_eq!(w.breaker.snapshot("anthropic-1").state, BreakerState::Closed);
    assert_eq!(charged.request_count, 1);
}

#[test]
fn the_same_format_passes_with_the_model_renamed_only() {
    let mut w = world();
    w.channels = vec![channel("anthropic-1", WireFormat::OpenAiChat, vec![key("k1", true)])];
    w.registry = RuleRegistry::new();
    let body = r#"{"messages":[],"model":"gpt-test","stream":true,"temperature":0.5}"#;
    let call = plan_in(&mut w, Some("Bearer secret-1"), body, 0).unwrap();
    assert_eq!(
        render(&call.body),
        r#"{"messages":[],"model":"upstream-large","stream":true,"temperature":0.5}"#
    );
    assert!(call.stream);
    let answer = r#"{"usage":{"prompt_tokens":3,"completion_tokens":4}}"#;
    let outcome = UpstreamOutcome::Answered { status: 201, body: answer.to_string() };
    let mut charged = token("tok_1", "secret-1", None, 5);
    let settlement = settle(&call, &outcome, &mut charged, &w.registry, &mut w.breaker, 1);
    assert_eq!(settlement.answer.status, 201);
    assert_eq!(settlement.answer.body, answer);
    assert_eq!(charged.quota_used, 12);
}

#[test]
fn enabled_keys_take_turns() {
    let keys = vec![key("a", true), key("b", false), key("c", true), key("d", true)];
    let picked: Vec<Option<usize>> = (0..7).map(|turn| select_key(&keys, turn)).collect();
    assert_eq!(picked, vec![Some(0), Some(2), Some(3), Some(0), Some(2), Some(3), Some(0)]);
    assert_eq!(select_key(&vec![key("a", false)], 3), None);
    assert_eq!(select_key(&Vec::new(), 0), None);
    assert_eq!(select_key(&keys, u64::MAX), Some(0));
}

#[test]
fn usage_is_read_in_the_words_of_the_format() {
    let openai = parse(r#"{"usage":{"prompt_tokens":1,"completion_tokens":2,"input_tokens":8}}"#).unwrap();
    let anthropic = parse(r#"{"usage":{"input_tokens":3,"output_tokens":4,"prompt_tokens":9}}"#).unwrap();
    assert_eq!(read_usage(WireFormat::OpenAiChat, &openai), Usage { prompt: Some(1), completion: Some(2) });
    assert_eq!(read_usage(WireFormat::Generic, &openai), Usage { prompt: Some(1), completion: Some(2) });
    assert_eq!(read_usage(WireFormat::Anthropic, &anthropic), Usage { prompt: Some(3), completion: Some(4) });
    assert_eq!(read_usage(WireFormat::OpenAiResponses, &anthropic), Usage { prompt: Some(3), completion: Some(4) });
    assert_eq!(read_usage(WireFormat::Anthropic, &parse("{}").unwrap()), Usage { prompt: None, completion: None });
    assert_eq!(Usage { prompt: Some(u64::MAX), completion: Some(1) }.units(), u64::MAX);
}

#[test]
fn charge_counts_one_request_and_the_units() {
    let mut t = token("t", "k", Some(10), 4);
    charge(&mut t, Usage { prompt: Some(2), completion: None });
    assert_eq!((t.request_count, t.quota_used), (1, 6));
    t.quota_used = u64::MAX - 1;
    t.request_count = u64::MAX;
    charge(&mut t, Usage { prompt: Some(2), completion: Some(2) });
    assert_eq!((t.request_count, t.quota_used), (u64::MAX, u64::MAX));
}

#[test]
fn failures_are_told_in_the_shape_of_the_protocol() {
    let error = GatewayError::CircuitOpen("c1".to_string());
    assert_eq!(
        render(&error_envelope(WireFormat::OpenAiChat, &error)),
        r#"{"error":{"message":"c1","type":"CircuitOpen"}}"#
    );
    assert_eq!(
        render(&error_envelope(WireFormat::Anthropic, &error)),
        r#"{"error":{"message":"c1","type":"CircuitOpen"},"type":"error"}"#
    );
    assert_eq!(error.status(), 503);
    assert_eq!(GatewayError::UnknownModel(String::new()).status(), 404);
    assert_eq!(GatewayError::Store("x".to_string()).name(), "StoreError");
}

#[test]
fn the_upstream_is_addressed_as_its_format_wants() {
    assert_eq!(
        upstream_url("https://api.example/", WireFormat::Anthropic, WireFormat::OpenAiChat),
        "https://api.example/v1/chat/completions"
    );
    assert_eq!(
        upstream_url("https://api.example//", WireFormat::OpenAiChat, WireFormat::OpenAiResponses),
        "https://api.example/v1/responses"
    );
    assert_eq!(
        upstream_url("http://h:1", WireFormat::Anthropic, WireFormat::Generic),
        "http://h:1/v1/messages"
    );
    let h = auth_headers(WireFormat::Anthropic, "k");
    let pairs: Vec<(&str, &str)> = h.iter().map(|h| (h.name.as_str(), h.value.as_str())).collect();
    assert_eq!(pairs, vec![("content-type", "application/json"), ("x-api-key", "k"), ("anthropic-version", "2023-06-01")]);
    let h = auth_headers(WireFormat::OpenAiChat, "k");
    let pairs: Vec<(&str, &str)> = h.iter().map(|h| (h.name.as_str(), h.value.as_str())).collect();
    assert_eq!(pairs, vec![("content-type", "application/json"), ("authorization", "Bearer k")]);
}

#[test]
fn public_models_are_listed_once_each() {
    let mappings = vec![
        mapping("b", "c1", "u1"),
        mapping("a", "c1", "u2"),
        mapping("b", "c2", "u3"),
        mapping("c", "c2", "u4"),
        mapping("a", "c3", "u5"),
    ];
    assert_eq!(public_models(&mappings), vec!["b", "a", "c"]);
    assert_eq!(public_models(&Vec::new()), Vec::<String>::new());
}

#[test]
fn the_first_mapping_of_a_name_serves_it() {
    let mut w = world();
    w.mappings = vec![mapping("gpt-test", "anthropic-1", "first"), mapping("gpt-test", "other", "second")];
    let call = plan_in(&mut w, Some("Bearer secret-1"), CHAT_BODY, 0).unwrap();
    assert_eq!(call.channel_id, "anthropic-1");
    assert_eq!(call.body.get("model").and_then(|m| m.as_str()), Some("first"));
}

#[test]
fn a_stream_is_reshaped_line_by_line() {
    let registry = registry();
    let a = WireFormat::OpenAiChat;
    let b = WireFormat::Anthropic;
    let line = format!("data: {}", ANTHROPIC_ANSWER);
    let made = reshape_line(&line, a, b, &registry).unwrap();
    assert!(made.starts_with("data: {"));
    assert_eq!(
        parse(&made["data: ".len()..]).unwrap().get("object").and_then(|o| o.as_str()),
        Some("chat.completion")
    );
    assert_eq!(reshape_line(&line, b, b, &registry).unwrap(), line);
    for plain in ["", "event: message_start", ": ping", "data: [DONE]", "data:", "data:   "] {
        assert_eq!(reshape_line(plain, a, b, &registry).unwrap(), plain, "{:?}", plain);
    }
    assert!(matches!(
        reshape_line("data: {\"id\":1}", a, b, &registry),
        Err(GatewayError::RuleExecution(_))
    ));
    assert!(matches!(
        reshape_line("data: not json", a, b, &registry),
        Err(GatewayError::RuleExecution(RuleExecutionError::TypeMismatch(_)))
    ));
    assert_eq!(
        reshape_line("data: {}", b, a, &registry),
        Err(GatewayError::NoConversionRule { source: b, target: a })
    );
    assert_eq!(data_of("data:  x "), Some("x".to_string()));
    assert_eq!(data_of("date: x"), None);
}

#[test]
fn every_failure_has_a_name_and_a_status() {
    let all = vec![
        (GatewayError::Unauthorized, "Unauthorized", 401, ""),
        (GatewayError::QuotaExceeded, "QuotaExceeded", 429, ""),
        (GatewayError::UnknownModel("m".to_string()), "UnknownModel", 404, "m"),
        (GatewayError::NoEnabledKey("c".to_string()), "NoEnabledKey", 503, "c"),
        (GatewayError::CircuitOpen("c".to_string()), "CircuitOpen", 503, "c"),
        (
            GatewayError::NoConversionRule { source: WireFormat::Anthropic, target: WireFormat::Generic },
            "NoConversionRule",
            501,
            "",
        ),
        (
            GatewayError::RuleCompile(RuleCompileError::BadPath("$x".to_string())),
            "RuleCompileError",
            500,
            "$x",
        ),
        (
            GatewayError::RuleExecution(RuleExecutionError::TypeMismatch("$.a".to_string())),
            "RuleExecutionError",
            500,
            "$.a",
        ),
        (
            GatewayError::Upstream { status: Some(500), message: "boom".to_string() },
            "UpstreamError",
            502,
            "boom",
        ),
        (GatewayError::Store("disk".to_string()), "StoreError", 500, "disk"),
    ];
    for (error, name, status, detail) in all {
        assert_eq!(error.name(), name);
        assert_eq!(error.status(), status);
        assert_eq!(error.counts_against_breaker(), name == "UpstreamError");
        let envelope = error_envelope(WireFormat::OpenAiResponses, &error);
        let inner = envelope.get("error").unwrap();
        assert_eq!(inner.get("type").and_then(|t| t.as_str()), Some(name));
        assert_eq!(inner.get("message").and_then(|t| t.as_str()), Some(detail));
    }
}

#[test]
fn the_turn_moves_on_only_where_a_call_is_planned() {
    let mut w = world();
    let planned = plan_in(&mut w, Some("Bearer secret-1"), CHAT_BODY, 0);
    assert!(planned.is_ok());
    assert_eq!(turn_after(4, &planned), 5);
    assert_eq!(turn_after(u64::MAX, &planned), 0);
    let refused = plan_in(&mut w, None, CHAT_BODY, 0);
    assert_eq!(turn_after(4, &refused), 4);
    assert_eq!(next_turn(0, true), 1);
    assert_eq!(next_turn(0, false), 0);
    assert_eq!(next_turn(u64::MAX, false), u64::MAX);
}

#[test]
fn a_stream_is_cut_at_line_feeds() {
    let lines = split_lines("da", "ta: 1\n\nevent: x\r\ndata: 2");
    assert_eq!(lines.whole, vec!["data: 1", "", "event: x\r"]);
    assert_eq!(lines.rest, "data: 2");
    let lines = split_lines("", "");
    assert_eq!((lines.whole.len(), lines.rest.as_str()), (0, ""));
    let lines = split_lines("a", "\n");
    assert_eq!((lines.whole, lines.rest.as_str()), (vec!["a".to_string()], ""));
    let lines = split_lines("\n", "");
    assert_eq!((lines.whole, lines.rest.as_str()), (vec![String::new()], ""));
    let lines = split_lines("no feed", " yet");
    assert_eq!((lines.whole.len(), lines.rest.as_str()), (0, "no feed yet"));
}

#[test]
fn a_line_out_of_shape_is_handed_on_as_it_came() {
    let registry = registry();
    let a = WireFormat::OpenAiChat;
    let b = WireFormat::Anthropic;
    assert_eq!(relay_line("data: not json", a, b, &registry), "data: not json");
    assert_eq!(relay_line("data: {\"id\":1}", a, b, &registry), "data: {\"id\":1}");
    assert_eq!(relay_line("event: ping", a, b, &registry), "event: ping");
    let line = format!("data: {}", ANTHROPIC_ANSWER);
    assert_eq!(relay_line(&line, a, b, &registry), reshape_line(&line, a, b, &registry).unwrap());

    let chunk = format!("nt: message\ndata: {}\n\ndata: [DO", ANTHROPIC_ANSWER);
    let relayed = relay_chunk("eve", &chunk, a, b, &registry);
    assert_eq!(
        relayed.out,
        format!("event: message\n{}\n\n", reshape_line(&line, a, b, &registry).unwrap())
    );
    assert_eq!(relayed.rest, "data: [DO");
    let relayed = relay_chunk(&relayed.rest, "NE]\n", a, b, &registry);
    assert_eq!((relayed.out.as_str(), relayed.rest.as_str()), ("data: [DONE]\n", ""));
}
