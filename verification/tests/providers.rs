use moss::error::ProviderError;
use moss::providers::local::LocalMock;
use moss::providers::remote::openrouter::{chat_reply, ContentPart, ContentValue, OpenRouter};
use moss::providers::remote::parse_dotenv;
use moss::providers::{Message, Provider, Role};

fn msg(role: Role, content: &str) -> Message {
    Message { role, content: content.into() }
}

#[test]
fn local_mock_echoes_last_user_message() {
    let m = LocalMock::new();
    let out = m
        .complete_chat(vec![
            msg(Role::User, "first"),
            msg(Role::User, "second"),
            msg(Role::Assistant, "reply"),
        ])
        .unwrap();
    assert_eq!(out, "echo: second");
}

#[test]
fn local_mock_without_user_message_fails() {
    let m = LocalMock::new();
    match m.complete_chat(vec![msg(Role::System, "rules")]) {
        Err(ProviderError::Request(r)) => assert_eq!(r, "no user message"),
        _ => panic!("expected a request error"),
    }
}

#[test]
fn tools_are_not_supported_by_default() {
    let m = LocalMock::new();
    assert!(matches!(m.complete_with_tools(vec![]), Err(ProviderError::NotSupported)));
}

#[test]
fn openrouter_requires_a_key() {
    match OpenRouter::new(None, None, None) {
        Err(e) => assert_eq!(e, "OpenRouter API key is required (OPENROUTER_API_KEY)"),
        Ok(_) => panic!("expected an error"),
    }
}

#[test]
fn openrouter_defaults_and_urls() {
    let o = OpenRouter::new(None, Some("k1".into()), None).unwrap();
    assert_eq!(o.base_url, "https://openrouter.ai/api/v1");
    assert_eq!(o.model, "google/gemini-3-flash-preview");
    assert_eq!(o.timeout_secs, 60);
    assert_eq!(o.chat_url(), "https://openrouter.ai/api/v1/chat/completions");
    assert_eq!(o.authorization(), "Bearer k1");
    let p = OpenRouter::new(Some("m".into()), Some("k".into()), Some("http://h/v1//".into())).unwrap();
    assert_eq!(p.model, "m");
    assert_eq!(p.chat_url(), "http://h/v1/chat/completions");
}

#[test]
fn content_text_is_extracted() {
    assert_eq!(OpenRouter::extract_content_text(&ContentValue::Text("hi".into())), "hi");
    assert_eq!(OpenRouter::extract_content_text(&ContentValue::Other("42".into())), "42");
    let parts = ContentValue::Parts(vec![
        ContentPart::Object(vec![("text".into(), "\"Hello \"".into()), ("type".into(), "\"text\"".into())]),
        ContentPart::Other,
        ContentPart::Object(vec![("content".into(), "\"world\"".into())]),
        ContentPart::Object(vec![("type".into(), "\"image\"".into())]),
    ]);
    assert_eq!(OpenRouter::extract_content_text(&parts), "Hello world");
}

#[test]
fn dotenv_lines_are_parsed() {
    let text = "# comment\nKEY=value\n  SPACED = \" quoted \" \nnoequals\n=novalue\nSINGLE='x'\nA=b=c\n";
    let got = parse_dotenv(text);
    assert_eq!(
        got,
        vec![
            ("KEY".to_string(), "value".to_string()),
            ("SPACED".to_string(), " quoted ".to_string()),
            ("SINGLE".to_string(), "x".to_string()),
            ("A".to_string(), "b=c".to_string()),
        ]
    );
    assert!(parse_dotenv("").is_empty());
    assert_eq!(parse_dotenv("X=1"), vec![("X".to_string(), "1".to_string())]);
}

#[test]
fn chat_reply_reads_the_message_content() {
    let ok = r#"{"choices":[{"message":{"role":"assistant","content":"hello"}}]}"#;
    assert_eq!(chat_reply(200, ok.to_string()).unwrap(), "hello");
    let parts = r#"{"choices":[{"message":{"content":[{"type":"text","text":"a"},{"content":"b"}]}}]}"#;
    assert_eq!(chat_reply(200, parts.to_string()).unwrap(), "ab");
    match chat_reply(429, "slow down".to_string()) {
        Err(ProviderError::ApiError { status, body }) => {
            assert_eq!(status, 429);
            assert_eq!(body, "slow down");
        }
        _ => panic!("expected an API error"),
    }
    match chat_reply(200, r#"{"choices":[]}"#.to_string()) {
        Err(ProviderError::Parse(m)) => assert_eq!(m, "OpenRouter response missing content"),
        _ => panic!("expected missing content"),
    }
    assert!(matches!(chat_reply(200, "not json".to_string()), Err(ProviderError::Parse(_))));
}
