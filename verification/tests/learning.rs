use quill::json::JsonValue;
use quill::learning::{
    accept_learning_card_response, default_learning_request, learning_card_payload,
    learning_request_from_config, LearningCardRequestShape, LearningCardResponse,
    LearningModuleContent,
};

fn to_json(value: &serde_json::Value) -> JsonValue {
    match value {
        serde_json::Value::Null => JsonValue::Null,
        serde_json::Value::Bool(b) => JsonValue::Bool(*b),
        serde_json::Value::Number(n) => JsonValue::Number(n.as_u64()),
        serde_json::Value::String(s) => JsonValue::String(s.clone()),
        serde_json::Value::Array(items) => JsonValue::Array(items.iter().map(to_json).collect()),
        serde_json::Value::Object(members) => JsonValue::Object(
            members
                .iter()
                .map(|(key, value)| (key.clone(), to_json(value)))
                .collect(),
        ),
    }
}

fn request_from(kind: &str, raw: &str) -> Result<LearningCardRequestShape, quill::error::AppError> {
    let parsed = serde_json::from_str::<serde_json::Value>(raw).ok().map(|v| to_json(&v));
    learning_request_from_config(kind, raw, parsed.as_ref())
}

fn strings(value: Option<&serde_json::Value>) -> Vec<String> {
    value
        .and_then(|v| v.as_array())
        .map(|items| {
            items
                .iter()
                .filter_map(|item| item.as_str().map(str::to_string))
                .collect()
        })
        .unwrap_or_default()
}

fn module_content(value: &serde_json::Value) -> LearningModuleContent {
    let text = |key: &str| value.get(key).and_then(|v| v.as_str()).map(str::to_string);
    LearningModuleContent {
        heading: text("heading"),
        summary: text("summary"),
        meta: strings(value.get("meta")),
        details: strings(value.get("details")),
        items: Vec::new(),
        quote: text("quote"),
    }
}

fn parse_card(payload: &str) -> Option<LearningCardResponse> {
    let value = serde_json::from_str::<serde_json::Value>(payload).ok()?;
    let modules = value
        .get("modules")?
        .as_object()?
        .iter()
        .map(|(key, module)| (key.clone(), module_content(module)))
        .collect();
    Some(LearningCardResponse {
        version: value.get("version")?.as_u64()? as u32,
        kind: value.get("kind")?.as_str()?.to_string(),
        source_text: value.get("sourceText")?.as_str()?.to_string(),
        modules,
        provenance: None,
    })
}

fn parse_learning_card_response(
    raw: &str,
    kind: &str,
    source_text: &str,
    request: &LearningCardRequestShape,
) -> Result<LearningCardResponse, quill::error::AppError> {
    let payload = learning_card_payload(raw)?;
    accept_learning_card_response(parse_card(&payload), kind, source_text, request)
}

#[test]
fn learning_config_keeps_order_and_whitelists_enabled_modules() {
    let config = r#"{"version":1,"cards":{"word":{"defaultDensity":"detailed","exampleCount":9,"keyTermCount":0,"modules":[{"id":"collocations","enabled":true,"density":"compact"},{"id":"made_up","enabled":true,"density":"detailed"},{"id":"memory_aid","enabled":false,"density":"detailed"}]}}}"#;
    let request = request_from("word", config).unwrap();
    assert_eq!(
        request
            .modules
            .iter()
            .map(|item| item.id.as_str())
            .collect::<Vec<_>>(),
        vec!["collocations"]
    );
    assert_eq!(request.modules[0].density, "compact");
    assert_eq!(request.example_count, 3);
    assert_eq!(request.key_term_count, 1);
}

#[test]
fn learning_config_rejects_explicitly_disabled_card() {
    let config = r#"{"version":1,"cards":{"word":{"modules":[{"id":"context_meaning","enabled":false},{"id":"word_info","enabled":false}]}}}"#;
    let error = request_from("word", config).unwrap_err();
    assert!(error
        .to_string()
        .contains("LEARNING_CARD_ALL_MODULES_DISABLED"));
}

fn same_request(a: &LearningCardRequestShape, b: &LearningCardRequestShape) -> bool {
    a.example_count == b.example_count
        && a.key_term_count == b.key_term_count
        && a.default_density == b.default_density
        && a.modules.len() == b.modules.len()
        && a.modules.iter().zip(&b.modules).all(|(x, y)| {
            x.id == y.id && x.density == y.density && x.title == y.title && x.instructions == y.instructions
        })
}

#[test]
fn unknown_or_damaged_learning_config_uses_safe_defaults() {
    let damaged = request_from("passage", "not json").unwrap();
    let unknown = request_from(
        "passage",
        r#"{"version":99,"cards":{"passage":{"modules":[]}}}"#,
    )
    .unwrap();
    assert!(same_request(&damaged, &unknown));
    assert!(damaged
        .modules
        .iter()
        .any(|item| item.id == "context_meaning"));
    assert!(damaged.modules.iter().any(|item| item.id == "key_terms"));
}

#[test]
fn learning_protocol_accepts_one_json_fence_and_overrides_source_text() {
    let request = default_learning_request("word").unwrap();
    let raw = r#"```json
{"version":1,"kind":"word","sourceText":"changed","modules":{"context_meaning":{"summary":"used to describe a boundary"},"word_info":{"heading":"edge","meta":["noun"]}}}
```"#;
    let parsed = parse_learning_card_response(raw, "word", "Edge", &request).unwrap();
    assert_eq!(parsed.source_text, "Edge");
    assert!(parsed.provenance.is_none());
}

#[test]
fn learning_protocol_rejects_empty_and_unrequested_modules() {
    let request = default_learning_request("phrase").unwrap();
    let missing = r#"{"version":1,"kind":"phrase","sourceText":"x","modules":{}}"#;
    assert!(parse_learning_card_response(missing, "phrase", "x", &request).is_err());

    let unexpected = r#"{"version":1,"kind":"phrase","sourceText":"x","modules":{"context_meaning":{"summary":"meaning"},"tone":{"summary":"extra"}}}"#;
    assert!(parse_learning_card_response(unexpected, "phrase", "x", &request).is_err());
}
