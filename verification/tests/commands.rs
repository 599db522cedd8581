use omnikit::circuit::CircuitBreaker;
use omnikit::commands::proxy::{new_rule, normalize_prefix, update_rule};
use omnikit::commands::request_logs::{
    endpoint_path, replay, retry_fields, retry_request, usage_days, usage_report, DailyUsage,
    ModelUsage, ReplayError, RetryFields,
};
use omnikit::commands::video::requested_format;
use omnikit::commands::{page_of, page_window, PageWindow};
use omnikit::dispatch::log::log_rejected;
use omnikit::error::{GatewayError, IpcError, IpcErrorKind};
use omnikit::format::WireFormat;
use omnikit::json::render;
use omnikit::rules::registry::RuleRegistry;
use omnikit::server::router::{
    entry_format, health_check, list_models, needs_redirect_lookup, passes_through, proxy_referer,
    proxy_status,
};
use omnikit::store::{ApiKey, Channel, ModelMapping, Token};

#[test]
fn a_prefix_is_given_its_leading_slash() {
    assert_eq!(normalize_prefix("api".to_string()), "/api");
    assert_eq!(normalize_prefix("/api".to_string()), "/api");
    assert_eq!(normalize_prefix(String::new()), "/");
    assert_eq!(normalize_prefix("//x".to_string()), "//x");
}

#[test]
fn a_new_rule_is_enabled_and_an_update_keeps_its_identity() {
    let mut rule = new_rule("id1".to_string(), "n".to_string(), "p".to_string(), "http://t".to_string(), "t0");
    assert_eq!((rule.id.as_str(), rule.path_prefix.as_str(), rule.enabled), ("id1", "/p", true));
    assert_eq!((rule.created_at.as_str(), rule.updated_at.as_str()), ("t0", "t0"));
    update_rule(&mut rule, "m".to_string(), "q/".to_string(), "http://u".to_string(), false, "t1");
    assert_eq!((rule.id.as_str(), rule.name.as_str(), rule.path_prefix.as_str()), ("id1", "m", "/q/"));
    assert_eq!((rule.target_base_url.as_str(), rule.enabled), ("http://u", false));
    assert_eq!((rule.created_at.as_str(), rule.updated_at.as_str()), ("t0", "t1"));
}

#[test]
fn a_page_is_fifty_from_the_start_unless_told() {
    assert_eq!(page_window(None, None), PageWindow { limit: 50, offset: 0 });
    assert_eq!(page_window(Some(10), Some(20)), PageWindow { limit: 10, offset: 20 });
    assert_eq!(page_window(Some(-1), None), PageWindow { limit: -1, offset: 0 });
    let page = page_of(vec![1u8, 2], 9);
    assert_eq!((page.items, page.total), (vec![1u8, 2], 9));
    assert_eq!(usage_days(None), 7);
    assert_eq!(usage_days(Some(30)), 30);
}

#[test]
fn retry_fields_names_what_is_missing() {
    let s = |x: &str| Some(x.to_string());
    assert_eq!(retry_fields(None, None, None), Err("No request body".to_string()));
    assert_eq!(retry_fields(s("b"), None, None), Err("No input format".to_string()));
    assert_eq!(retry_fields(s("b"), s("f"), None), Err("No token ID".to_string()));
    assert_eq!(
        retry_fields(s("b"), s("f"), s("t")),
        Ok(RetryFields { request_body: "b".to_string(), input_format: "f".to_string(), token_id: "t".to_string() })
    );
}

#[test]
fn a_retry_goes_to_the_endpoint_of_its_format() {
    assert_eq!(endpoint_path("openai_chat"), Some("/v1/chat/completions"));
    assert_eq!(endpoint_path("anthropic"), Some("/v1/messages"));
    assert_eq!(endpoint_path("openai_responses"), Some("/v1/responses"));
    assert_eq!(endpoint_path("moonshot"), None);
    assert_eq!(endpoint_path(""), None);
    assert_eq!(
        retry_request(1, "moonshot", "k", String::new()),
        Err("Unknown input format: moonshot".to_string())
    );
    assert_eq!(
        retry_request(1, "generic", "k", String::new()),
        Err("Unknown input format: generic".to_string())
    );
    assert_eq!(endpoint_path("generic"), None);
    assert_eq!(endpoint_path("openai-chat"), None);
    let r = retry_request(8080, "anthropic", "sk-1", "{}".to_string()).unwrap();
    assert_eq!(r.url, "http://127.0.0.1:8080/v1/messages");
    assert_eq!(r.authorization, "Bearer sk-1");
    assert_eq!(r.body, "{}");
    assert_eq!(retry_request(0, "openai_chat", "", String::new()).unwrap().url, "http://127.0.0.1:0/v1/chat/completions");
    assert_eq!(retry_request(65535, "openai_chat", "", String::new()).unwrap().url, "http://127.0.0.1:65535/v1/chat/completions");
    assert_eq!(retry_request(1, "other", "k", String::new()), Err("Unknown input format: other".to_string()));
}

#[test]
fn a_replay_goes_through_the_dispatcher_again() {
    let token = Token {
        id: "tok_1".to_string(),
        key_value: "secret-1".to_string(),
        enabled: true,
        quota_limit: None,
        quota_used: 0,
        request_count: 0,
    };
    let tokens = vec![Token { ..replayed(&token) }];
    let mappings = vec![ModelMapping {
        public_name: "m".to_string(),
        channel_id: "c".to_string(),
        upstream_model: "um".to_string(),
    }];
    let channels = vec![Channel {
        id: "c".to_string(),
        name: "c".to_string(),
        format: WireFormat::OpenAiChat,
        base_url: "http://up".to_string(),
        keys: vec![ApiKey { id: "k".to_string(), key_value: "sk".to_string(), enabled: true }],
    }];
    let registry = RuleRegistry::new();
    let mut breaker = CircuitBreaker::new(5, 60);
    let body = r#"{"model":"m","n":1}"#;
    let mut log = log_rejected("l", "t", WireFormat::OpenAiChat, body, &GatewayError::Unauthorized, None, None, 0);

    let call = replay(&log, &token, &tokens, &mappings, &channels, &registry, &mut breaker, 0, 0).unwrap();
    assert_eq!(render(&call.body), r#"{"model":"um","n":1}"#);
    assert_eq!(call.token_id, "tok_1");

    let stranger = Token { key_value: "unknown".to_string(), ..replayed(&token) };
    assert_eq!(
        replay(&log, &stranger, &tokens, &mappings, &channels, &registry, &mut breaker, 0, 0),
        Err(ReplayError::Rejected(GatewayError::Unauthorized))
    );
    log.input_format = Some("moonshot".to_string());
    assert_eq!(
        replay(&log, &token, &tokens, &mappings, &channels, &registry, &mut breaker, 0, 0),
        Err(ReplayError::UnknownFormat("moonshot".to_string()))
    );
    log.input_format = Some("generic".to_string());
    assert_eq!(
        replay(&log, &token, &tokens, &mappings, &channels, &registry, &mut breaker, 0, 0),
        Err(ReplayError::UnknownFormat("generic".to_string()))
    );
    log.input_format = None;
    assert_eq!(
        replay(&log, &token, &tokens, &mappings, &channels, &registry, &mut breaker, 0, 0),
        Err(ReplayError::Incomplete("No input format".to_string()))
    );
    log.request_body = None;
    assert_eq!(
        replay(&log, &token, &tokens, &mappings, &channels, &registry, &mut breaker, 0, 0),
        Err(ReplayError::Incomplete("No request body".to_string()))
    );
}

fn replayed(t: &Token) -> Token {
    Token {
        id: t.id.clone(),
        key_value: t.key_value.clone(),
        enabled: t.enabled,
        quota_limit: t.quota_limit,
        quota_used: t.quota_used,
        request_count: t.request_count,
    }
}

#[test]
fn the_requested_format_has_no_size() {
    let f = requested_format("720P".to_string(), "http://v".to_string(), Some("http://a".to_string()));
    assert_eq!((f.quality.as_str(), f.url.as_str(), f.audio_url.as_deref(), f.size), ("720P", "http://v", Some("http://a"), None));
}

#[test]
fn ipc_errors_carry_their_kind() {
    assert_eq!(IpcError::validation("v"), IpcError { kind: IpcErrorKind::Validation, message: "v".to_string() });
    assert_eq!(IpcError::not_found("n").kind, IpcErrorKind::NotFound);
    assert_eq!(IpcError::internal("i").kind, IpcErrorKind::Internal);
}

#[test]
fn formats_have_tags_and_endpoints() {
    for f in [WireFormat::OpenAiChat, WireFormat::OpenAiResponses, WireFormat::Anthropic, WireFormat::Generic] {
        assert_eq!(WireFormat::from_tag(f.tag()), Some(f));
        if let Some(path) = f.endpoint() {
            assert_eq!(entry_format(path), Some(f));
        }
    }
    assert_eq!(WireFormat::OpenAiChat.tag(), "openai_chat");
    assert_eq!(WireFormat::from_tag("openai-chat"), None);
    assert_eq!(WireFormat::Generic.endpoint(), None);
    assert_eq!(entry_format("/v1/models"), None);
}

#[test]
fn the_plain_endpoints_answer_with_fixed_shapes() {
    assert_eq!(render(&health_check("1.2.3")), r#"{"status":"ok","version":"1.2.3"}"#);
    assert_eq!(
        render(&list_models(&vec!["a".to_string(), "b".to_string()])),
        r#"{"data":[{"id":"a","object":"model","owned_by":"omnikit"},{"id":"b","object":"model","owned_by":"omnikit"}],"object":"list"}"#
    );
    assert_eq!(render(&list_models(&Vec::new())), r#"{"data":[],"object":"list"}"#);
}

#[test]
fn the_video_proxy_knows_its_upstreams() {
    assert!(needs_redirect_lookup("https://aweme.snssdk.com/aweme/v1/play/?video_id=1"));
    assert!(needs_redirect_lookup("https://api-h2.amemv.com/x"));
    assert!(!needs_redirect_lookup("https://upos.bilivideo.com/x"));
    assert_eq!(proxy_referer("https://xy.bilivideocdn.cn/x"), Some("https://www.bilibili.com/"));
    assert_eq!(proxy_referer("https://aweme.snssdk.com/"), None);
    for name in ["content-type", "content-length", "content-range", "accept-ranges"] {
        assert!(passes_through(name));
    }
    assert!(!passes_through("set-cookie"));
    assert!(!passes_through("Content-Type"));
    assert_eq!(proxy_status(206), 206);
    assert_eq!(proxy_status(99), 200);
    assert_eq!(proxy_status(1000), 200);
    assert_eq!(proxy_status(999), 999);
}

#[test]
fn the_usage_report_lists_days_and_models() {
    let daily = vec![
        DailyUsage { date: "2024-01-01".to_string(), count: 2, prompt_tokens: 10, completion_tokens: 5 },
        DailyUsage { date: "2024-01-02".to_string(), count: 0, prompt_tokens: -1, completion_tokens: 0 },
    ];
    let by_model = vec![ModelUsage { model: "m".to_string(), count: 2 }];
    assert_eq!(
        render(&usage_report(&daily, &by_model)),
        r#"{"by_model":[{"count":2,"model":"m"}],"daily":[{"completion_tokens":5,"count":2,"date":"2024-01-01","prompt_tokens":10},{"completion_tokens":0,"count":0,"date":"2024-01-02","prompt_tokens":-1}]}"#
    );
    assert_eq!(render(&usage_report(&Vec::new(), &Vec::new())), r#"{"by_model":[],"daily":[]}"#);
}
