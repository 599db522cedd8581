use omnikit::format::WireFormat;
use omnikit::json::{parse, render, Json, Step};
use omnikit::rules::path::parse_path;
use omnikit::rules::registry::{needs_seeding, RuleDefinition, RuleOrigin, RuleRegistry};
use omnikit::rules::rule::{test_template, validate, RuleTestError, Template};
use omnikit::rules::system::{system_request_template, system_response_template};
use omnikit::rules::template::{check, execute, RuleCompileError, RuleExecutionError};

fn run(template: &str, input: &str) -> Result<String, RuleExecutionError> {
    let t = parse(template).unwrap();
    assert_eq!(check(&t), None);
    execute(&t, &parse(input).unwrap()).map(|v| render(&v))
}

fn fault(template: &str) -> Option<RuleCompileError> {
    check(&parse(template).unwrap())
}

#[test]
fn paths_are_read_step_by_step() {
    assert_eq!(parse_path("$"), Some(vec![]));
    assert_eq!(parse_path("$.model"), Some(vec![Step::Key("model".to_string())]));
    assert_eq!(
        parse_path("$.messages[0].content"),
        Some(vec![
            Step::Key("messages".to_string()),
            Step::Index(0),
            Step::Key("content".to_string()),
        ])
    );
    assert_eq!(parse_path("$[12][3]"), Some(vec![Step::Index(12), Step::Index(3)]));
    assert_eq!(parse_path("$[999999999]"), Some(vec![Step::Index(999999999)]));
    assert_eq!(parse_path("$[007]"), Some(vec![Step::Index(7)]));
}

#[test]
fn malformed_paths_are_refused() {
    for bad in [
        "", "model", "$model", "$.", "$..a", "$.a.", "$[", "$[]", "$[1", "$[a]", "$[-1]", "$.a]",
        "$[1000000000]", "$[1]x", " $.a",
    ] {
        assert_eq!(parse_path(bad), None, "{}", bad);
    }
}

#[test]
fn plain_values_are_literals() {
    assert_eq!(run(r#"{"a":1,"b":[true,null,"x"],"c":-2.5}"#, "{}").unwrap(),
        r#"{"a":1,"b":[true,null,"x"],"c":-2.5}"#);
    assert_eq!(run(r#""plain""#, "{}").unwrap(), r#""plain""#);
}

#[test]
fn references_copy_required_fields() {
    assert_eq!(run(r#"{"m":"$.model"}"#, r#"{"model":"gpt"}"#).unwrap(), r#"{"m":"gpt"}"#);
    assert_eq!(run(r#""$""#, r#"[1,2]"#).unwrap(), "[1,2]");
    assert_eq!(run(r#""$.a[1].b""#, r#"{"a":[0,{"b":{"c":1}}]}"#).unwrap(), r#"{"c":1}"#);
    assert_eq!(
        run(r#"{"m":"$.model"}"#, r#"{"other":1}"#),
        Err(RuleExecutionError::MissingField("$.model".to_string()))
    );
}

#[test]
fn literal_directive_injects_its_value_as_it_stands() {
    assert_eq!(run(r#"{"a":{"$literal":"$.not.a.path"}}"#, "{}").unwrap(), r#"{"a":"$.not.a.path"}"#);
    assert_eq!(run(r#"{"$literal":{"$path":1}}"#, "{}").unwrap(), r#"{"$path":1}"#);
}

#[test]
fn default_stands_in_for_a_missing_field() {
    let t = r#"{"max_tokens":{"$path":"$.max_tokens","$default":1024}}"#;
    assert_eq!(run(t, r#"{}"#).unwrap(), r#"{"max_tokens":1024}"#);
    assert_eq!(run(t, r#"{"max_tokens":7}"#).unwrap(), r#"{"max_tokens":7}"#);
    assert_eq!(
        run(r#"{"$path":"$.x"}"#, "{}"),
        Err(RuleExecutionError::MissingField("$.x".to_string()))
    );
}

#[test]
fn each_reshapes_every_item_of_an_array() {
    let t = r#"{"$path":"$.messages","$each":{"r":"$.role","c":"$.content"}}"#;
    let input = r#"{"messages":[{"role":"user","content":"hi"},{"role":"assistant","content":"yo"}]}"#;
    assert_eq!(run(t, input).unwrap(), r#"[{"c":"hi","r":"user"},{"c":"yo","r":"assistant"}]"#);
    assert_eq!(run(t, r#"{"messages":[]}"#).unwrap(), "[]");
    assert_eq!(
        run(t, r#"{"messages":"hi"}"#),
        Err(RuleExecutionError::TypeMismatch("$.messages".to_string()))
    );
    assert_eq!(
        run(t, r#"{"messages":[{"role":"user"}]}"#),
        Err(RuleExecutionError::MissingField("$.content".to_string()))
    );
}

#[test]
fn map_translates_a_text_and_passes_the_unknown_through() {
    let t = r#"{"$path":"$.stop_reason","$map":{"end_turn":"stop","max_tokens":"length"}}"#;
    assert_eq!(run(t, r#"{"stop_reason":"end_turn"}"#).unwrap(), r#""stop""#);
    assert_eq!(run(t, r#"{"stop_reason":"max_tokens"}"#).unwrap(), r#""length""#);
    assert_eq!(run(t, r#"{"stop_reason":"other"}"#).unwrap(), r#""other""#);
    assert_eq!(
        run(t, r#"{"stop_reason":3}"#),
        Err(RuleExecutionError::TypeMismatch("$.stop_reason".to_string()))
    );
}

#[test]
fn check_names_the_first_fault() {
    assert_eq!(fault(r#"{"a":"$.ok","b":"$bad"}"#), Some(RuleCompileError::BadPath("$bad".to_string())));
    assert_eq!(fault(r#"["$.a", "$.b..c"]"#), Some(RuleCompileError::BadPath("$.b..c".to_string())));
    assert_eq!(fault(r#"{"$foo":1}"#), Some(RuleCompileError::BadDirective("$foo".to_string())));
    assert_eq!(fault(r#"{"$literal":1,"x":2}"#), Some(RuleCompileError::BadDirective("$literal".to_string())));
    assert_eq!(fault(r#"{"$path":5}"#), Some(RuleCompileError::BadDirective("$path".to_string())));
    assert_eq!(fault(r#"{"$path":"x"}"#), Some(RuleCompileError::BadPath("x".to_string())));
    assert_eq!(fault(r#"{"$path":"$.a","other":1}"#), Some(RuleCompileError::BadDirective("other".to_string())));
    assert_eq!(fault(r#"{"$path":"$.a","$each":1,"$map":{}}"#), Some(RuleCompileError::BadDirective("$map".to_string())));
    assert_eq!(fault(r#"{"$path":"$.a","$map":{"k":1}}"#), Some(RuleCompileError::BadDirective("$map".to_string())));
    assert_eq!(fault(r#"{"$path":"$.a","$map":[]}"#), Some(RuleCompileError::BadDirective("$map".to_string())));
    assert_eq!(fault(r#"{"$path":"$.a","$each":{"x":"$["}}"#), Some(RuleCompileError::BadPath("$[".to_string())));
    assert_eq!(fault(r#"{"$path":"$.a","$default":"$not checked","$map":{"k":"v"}}"#), None);
    assert_eq!(fault(r#"{"a":{"b":[{"c":"$.d[0]"}]}}"#), None);
}

#[test]
fn validate_refuses_a_broken_template_for_its_syntax() {
    assert!(matches!(validate("{\"a\": ", "{}"), Err(RuleCompileError::Syntax(_))));
    assert!(matches!(validate("{}", "not json"), Err(RuleCompileError::Syntax(_))));
    assert!(matches!(validate("", ""), Err(RuleCompileError::Syntax(_))));
    assert_eq!(validate(r#"{"a":"$.b"}"#, r#"{"c":"$.d"}"#), Ok(()));
    assert_eq!(
        validate(r#"{"a":"$.b"}"#, r#"{"c":"$d"}"#),
        Err(RuleCompileError::BadPath("$d".to_string()))
    );
    assert_eq!(
        validate(r#"{"a":"$b"}"#, "broken"),
        Err(RuleCompileError::BadPath("$b".to_string()))
    );
}

#[test]
fn test_template_is_deterministic() {
    let template = r#"{"m":"$.model","xs":{"$path":"$.xs","$each":{"v":"$"}}}"#;
    let sample = r#"{"model":"gpt","xs":[1,2,3]}"#;
    let first = test_template(template, sample);
    let second = test_template(template, sample);
    assert_eq!(first, second);
    assert_eq!(render(&first.unwrap()), r#"{"m":"gpt","xs":[{"v":1},{"v":2},{"v":3}]}"#);
}

#[test]
fn test_template_tells_the_three_faults_apart() {
    assert!(matches!(
        test_template("{", "{}"),
        Err(RuleTestError::Compile(RuleCompileError::Syntax(_)))
    ));
    assert_eq!(
        test_template(r#""$x""#, "{}"),
        Err(RuleTestError::Compile(RuleCompileError::BadPath("$x".to_string())))
    );
    assert!(matches!(test_template(r#""$.x""#, "{"), Err(RuleTestError::BadSample(_))));
    assert_eq!(
        test_template(r#""$.x""#, "{}"),
        Err(RuleTestError::Execution(RuleExecutionError::MissingField("$.x".to_string())))
    );
}

#[test]
fn a_renaming_and_its_inverse_give_the_fields_back() {
    let forward = Template::compile(r#"{"system":"$.instructions","max_tokens":"$.max_output_tokens","model":"$.model"}"#).unwrap();
    let backward = Template::compile(r#"{"instructions":"$.system","max_output_tokens":"$.max_tokens","model":"$.model"}"#).unwrap();
    let original = parse(r#"{"model":"m1","instructions":"be brief","max_output_tokens":64,"extra":true}"#).unwrap();
    let there = forward.apply(&original).unwrap();
    assert_eq!(render(&there), r#"{"max_tokens":64,"model":"m1","system":"be brief"}"#);
    let back = backward.apply(&there).unwrap();
    for key in ["model", "instructions", "max_output_tokens"] {
        assert_eq!(back.get(key), original.get(key));
    }
    assert_eq!(back.get("extra"), None);
}

fn rule(id: &str, source: WireFormat, target: WireFormat, request: &str, enabled: bool, updated_at: u64) -> RuleDefinition {
    RuleDefinition {
        id: id.to_string(),
        source,
        target,
        request_template: request.to_string(),
        response_template: "\"$\"".to_string(),
        enabled,
        origin: RuleOrigin::User,
        updated_at,
    }
}

#[test]
fn the_rule_changed_last_is_authoritative() {
    let a = WireFormat::OpenAiChat;
    let b = WireFormat::Anthropic;
    let defs = vec![
        rule("old", a, b, "1", true, 10),
        rule("new", a, b, "2", true, 30),
        rule("mid", a, b, "3", true, 20),
        rule("off", a, b, "4", false, 99),
        rule("bad", a, b, "{", true, 98),
        rule("other", b, a, "5", true, 50),
    ];
    let registry = RuleRegistry::load(&defs);
    assert_eq!(registry.len(), 4);
    assert_eq!(registry.lookup(a, b).unwrap().id, "new");
    assert_eq!(registry.lookup(b, a).unwrap().id, "other");
    assert!(registry.lookup(a, WireFormat::Generic).is_none());
    assert!(registry.lookup(a, a).is_none());
}

#[test]
fn of_rules_changed_at_the_same_time_the_last_listed_wins() {
    let a = WireFormat::OpenAiResponses;
    let b = WireFormat::Generic;
    let defs = vec![rule("first", a, b, "1", true, 5), rule("second", a, b, "2", true, 5)];
    assert_eq!(RuleRegistry::load(&defs).lookup(a, b).unwrap().id, "second");
}

#[test]
fn refresh_replaces_the_rules_of_one_pair_only() {
    let a = WireFormat::OpenAiChat;
    let b = WireFormat::Anthropic;
    let mut registry = RuleRegistry::load(&vec![
        rule("ab", a, b, "1", true, 1),
        rule("ba", b, a, "2", true, 1),
    ]);
    registry.refresh_pair(a, b, &vec![
        rule("ab2", a, b, "3", true, 2),
        rule("ba2", b, a, "4", true, 2),
    ]);
    assert_eq!(registry.len(), 2);
    assert_eq!(registry.lookup(a, b).unwrap().id, "ab2");
    assert_eq!(registry.lookup(b, a).unwrap().id, "ba");
    registry.refresh_pair(a, b, &Vec::new());
    assert!(registry.lookup(a, b).is_none());
    assert_eq!(registry.lookup(b, a).unwrap().id, "ba");
    assert_eq!(RuleRegistry::new().len(), 0);
}

#[test]
fn from_document_accepts_what_check_accepts() {
    assert!(Template::from_document(Json::Text("$.a".to_string())).is_ok());
    assert_eq!(
        Template::from_document(Json::Text("$a".to_string())),
        Err(RuleCompileError::BadPath("$a".to_string()))
    );
}

#[test]
fn system_rules_are_seeded_once() {
    let a = WireFormat::OpenAiChat;
    let b = WireFormat::Anthropic;
    assert!(needs_seeding(&Vec::new()));
    assert!(needs_seeding(&vec![rule("u", a, b, "1", true, 1)]));
    let mut system = rule("s", a, b, "1", false, 1);
    system.origin = RuleOrigin::System;
    assert!(!needs_seeding(&vec![rule("u", a, b, "1", true, 1), system]));
}

#[test]
fn a_syntax_fault_says_what_the_reader_said() {
    let said = |text: &str| serde_json::from_str::<serde_json::Value>(text).unwrap_err().to_string();
    assert_eq!(validate("{\"a\": ", "{}"), Err(RuleCompileError::Syntax(said("{\"a\": "))));
    assert_eq!(test_template("1", "nul"), Err(RuleTestError::BadSample(said("nul"))));
    assert_ne!(said("{\"a\": "), said("nul"));
}

#[test]
fn the_system_templates_are_well_formed_and_reshape_both_ways() {
    let request = system_request_template();
    let response = system_response_template();
    assert_eq!(check(&request), None);
    assert_eq!(check(&response), None);
    assert_eq!(validate(&render(&request), &render(&response)), Ok(()));
    assert_eq!(
        render(&request),
        r#"{"max_tokens":{"$default":1024,"$path":"$.max_tokens"},"messages":{"$each":{"content":"$.content","role":{"$map":{"system":"user"},"$path":"$.role"}},"$path":"$.messages"},"model":"$.model"}"#
    );
    let chat = parse(r#"{"model":"m","messages":[{"role":"system","content":"be brief"},{"role":"user","content":"hi"}]}"#).unwrap();
    assert_eq!(
        render(&execute(&request, &chat).unwrap()),
        r#"{"max_tokens":1024,"messages":[{"content":"be brief","role":"user"},{"content":"hi","role":"user"}],"model":"m"}"#
    );
    let answer = parse(r#"{"id":"msg_1","model":"m","content":[{"type":"text","text":"hello"}],"stop_reason":"max_tokens","usage":{"input_tokens":3,"output_tokens":4}}"#).unwrap();
    assert_eq!(
        render(&execute(&response, &answer).unwrap()),
        r#"{"choices":[{"finish_reason":"length","index":0,"message":{"content":"hello","role":"assistant"}}],"id":"msg_1","model":"m","object":"chat.completion","usage":{"completion_tokens":4,"prompt_tokens":3}}"#
    );
}
