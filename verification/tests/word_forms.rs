use quill::word_forms::{accept_word_forms, word_forms_request, WORD_FORMS_MAX_TOKENS, WORD_FORMS_PROMPT};

fn strings(values: &[&str]) -> Vec<String> {
    values.iter().map(|value| value.to_string()).collect()
}

#[test]
fn word_forms_request_orders_and_dedups_kept_words() {
    let long = "x".repeat(257);
    let words = vec!["run".to_string(), "cat".to_string(), String::new(), "run".to_string(), long];
    let (asked, request) = word_forms_request(&words, "req-1").unwrap();
    assert_eq!(asked, strings(&["cat", "run"]));
    assert_eq!(request.messages.len(), 2);
    assert_eq!(request.messages[0].role, "system");
    assert_eq!(request.messages[0].content, WORD_FORMS_PROMPT);
    assert_eq!(request.messages[1].role, "user");
    assert_eq!(request.messages[1].content, r#"["cat","run"]"#);
    assert_eq!(request.max_tokens, Some(WORD_FORMS_MAX_TOKENS));
    assert!(request.event_name.is_none());
}

#[test]
fn word_forms_request_refuses_bad_requests() {
    let code = |words: &[String], id: &str| word_forms_request(words, id).unwrap_err().to_string();
    assert_eq!(code(&[], "req"), "WORD_FORMS_REQUEST_INVALID");
    assert_eq!(code(&strings(&["a"; 11]), "req"), "WORD_FORMS_REQUEST_INVALID");
    assert_eq!(code(&strings(&["a"]), "  "), "WORD_FORMS_REQUEST_INVALID");
    assert_eq!(code(&strings(&["", ""]), "req"), "WORD_FORMS_REQUEST_INVALID");
    let (asked, _) = word_forms_request(&strings(&["a"; 10]), "req").unwrap();
    assert_eq!(asked, strings(&["a"]));
}

#[test]
fn word_forms_request_quotes_words_as_json() {
    let (_, request) = word_forms_request(&strings(&["say \"hi\""]), "req").unwrap();
    assert_eq!(request.messages[1].content, r#"["say \"hi\""]"#);
}

#[test]
fn word_forms_reply_keeps_ordered_distinct_forms() {
    let asked = strings(&["cat", "run"]);
    let reply = vec![
        ("cat".to_string(), strings(&["cats", "cat", "", "cats"])),
        ("run".to_string(), strings(&["running", "ran", "runs"])),
    ];
    let forms = accept_word_forms(Some(reply), &asked).unwrap();
    assert_eq!(
        forms,
        vec![
            ("cat".to_string(), strings(&["cats"])),
            ("run".to_string(), strings(&["ran", "running", "runs"])),
        ]
    );
}

#[test]
fn word_forms_reply_must_answer_exactly_the_words_asked() {
    let asked = strings(&["cat", "run"]);
    let code = |reply: Option<Vec<(String, Vec<String>)>>| accept_word_forms(reply, &asked).unwrap_err();
    let missing = code(Some(vec![("cat".to_string(), Vec::new())]));
    assert_eq!(missing.to_string(), "WORD_FORMS_PROTOCOL_INVALID");
    assert!(matches!(missing, quill::error::AppError::Ai(_)));
    let stranger = code(Some(vec![("cat".to_string(), Vec::new()), ("dog".to_string(), Vec::new())]));
    assert_eq!(stranger.to_string(), "WORD_FORMS_PROTOCOL_INVALID");
    assert_eq!(code(None).to_string(), "WORD_FORMS_PROTOCOL_INVALID");
}
