use hello::llm::{LLMContext, Message, Provider, Role};
use hello::openai::{ApiContext, MessageRx};

#[test]
fn build_request_produces_the_exact_wire_body() {
    let api = ApiContext::new(String::from("test-model"), String::from("test-key"));
    let req = api.build_request(Message::new_user_request(String::from("hi")));
    assert_eq!(req.url, "https://api.openai.com/v1/chat/completions");
    assert_eq!(req.headers.len(), 2);
    assert_eq!(req.headers[0].0, "Content-Type");
    assert_eq!(req.headers[0].1, "application/json");
    assert_eq!(req.headers[1].0, "Authorization");
    assert_eq!(req.headers[1].1, "Bearer test-key");
    assert_eq!(
        req.body,
        "{\"model\":\"test-model\",\"messages\":[{\"role\":\"user\",\"content\":\"hi\"}],\"max_completion_tokens\":4096,\"n\":1,\"stream\":true}"
    );
}

#[test]
fn request_body_escapes_content() {
    let api = ApiContext::new(String::from("m"), String::from("k"));
    let req = api.build_request(Message::new_user_request(String::from("a\"b\nc")));
    // The content travels as a JSON string literal: quote and newline are
    // escaped, not passed through unchanged.
    assert!(req.body.contains("\"content\":\"a\\\"b\\nc\""));
}

#[test]
fn history_keeps_roles_and_order() {
    let history = vec![
        (Role::Developer, String::from("sys")),
        (Role::User, String::from("q")),
        (Role::Assistant, String::from("a")),
    ];
    let msgs = Message::from_history(&history);
    assert_eq!(msgs.len(), 3);
    assert!(matches!(msgs[0].role, Role::Developer));
    assert_eq!(msgs[0].content, "sys");
    assert!(matches!(msgs[1].role, Role::User));
    assert_eq!(msgs[1].content, "q");
    assert!(matches!(msgs[2].role, Role::Assistant));
    assert_eq!(msgs[2].content, "a");
}

#[test]
fn roles_serialize_in_snake_case() {
    let api = ApiContext::new(String::from("m"), String::from("k"));
    let history = vec![
        (Role::Developer, String::from("s")),
        (Role::Assistant, String::from("a")),
    ];
    let req = api.build_request(Message::from_history(&history));
    assert!(req.body.contains("{\"role\":\"developer\",\"content\":\"s\"}"));
    assert!(req.body.contains("{\"role\":\"assistant\",\"content\":\"a\"}"));
}

#[test]
fn llm_context_resolves_the_provider_once() {
    let ctx = LLMContext::new(Provider::OpenAi, String::from("m"), String::from("k"));
    assert_eq!(ctx.api.model, "m");
    assert_eq!(ctx.api.key, "k");
}

#[test]
fn content_or_refusal_prefers_the_refusal() {
    let m = MessageRx {
        role: None,
        content: Some(String::from("c")),
        refusal: Some(String::from("r")),
        annotations: None,
    };
    assert!(m.is_refusal());
    assert_eq!(m.content_or_refusal().as_deref(), Some("r"));
    let m = MessageRx { role: None, content: Some(String::from("c")), refusal: None, annotations: None };
    assert!(!m.is_refusal());
    assert_eq!(m.content_or_refusal().as_deref(), Some("c"));
    let m = MessageRx { role: None, content: None, refusal: None, annotations: None };
    assert_eq!(m.content_or_refusal(), None);
}
