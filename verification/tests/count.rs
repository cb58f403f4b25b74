use clewdr_web::claude::{CreateMessageParams, Message, MessageContent, Role, Usage};
use clewdr_web::count::{
    bearer_count_tokens, cookie_header, count_call, count_code_output_tokens_for_text,
};
use clewdr_web::state::ClaudeWebState;
use serde_json::Value;
use std::sync::Arc;

fn params() -> CreateMessageParams {
    CreateMessageParams {
        model: "sonnet-x".to_string(),
        messages: vec![
            Message::new_text(Role::User, "hi".to_string()),
            Message::from("hello"),
        ],
        stream: Some(true),
        extra: Some(Value::from("rest")),
    }
}

fn counting(cookie: Option<&str>, last_params: Option<CreateMessageParams>) -> ClaudeWebState<()> {
    ClaudeWebState {
        stream: false,
        org_uuid: None,
        conv_uuid: None,
        endpoint: "https://example.com/".to_string(),
        cookie: cookie.map(|c| c.to_string()),
        usage: Usage { input_tokens: 1, output_tokens: 2 },
        last_params,
        transport: Arc::new(()),
    }
}

#[test]
fn a_cookie_becomes_a_header() {
    let header = cookie_header(&Some("sessionKey=sk".to_string())).unwrap();
    assert_eq!(header.as_bytes(), b"sessionKey=sk");
    let header = cookie_header(&Some("tab\there \u{e9}".to_string())).unwrap();
    assert_eq!(header.as_bytes(), "tab\there \u{e9}".as_bytes());
}

#[test]
fn no_header_without_a_fitting_cookie() {
    assert!(cookie_header(&None).is_none());
    for cookie in ["a\nb", "a\rb", "\u{0}", "\u{7f}", "\u{1f}"] {
        assert!(cookie_header(&Some(cookie.to_string())).is_none());
    }
    assert_eq!(cookie_header(&Some(String::new())).unwrap().as_bytes(), b"");
}

#[test]
fn a_text_is_counted_as_said_by_the_assistant() {
    let request = count_code_output_tokens_for_text(
        &Some("k=v".to_string()),
        "sonnet-x".to_string(),
        "the answer".to_string(),
    );
    assert_eq!(request.cookie_header.unwrap().as_bytes(), b"k=v");
    assert_eq!(request.body.model, "sonnet-x");
    assert_eq!(request.body.stream, None);
    assert!(request.body.extra.is_none());
    assert_eq!(request.body.messages.len(), 1);
    assert_eq!(request.body.messages[0].role, Role::Assistant);
    assert!(matches!(
        &request.body.messages[0].content,
        MessageContent::Text(text) if text.as_str() == "the answer"
    ));
}

#[test]
fn a_count_goes_to_the_path_of_the_api() {
    let call = bearer_count_tokens("https://example.com/", "token", params()).unwrap();
    assert_eq!(call.url, "https://example.com/v1/messages/count_tokens");
    assert_eq!(call.access_token, "token");
    assert_eq!(call.version, "2023-06-01");
    assert_eq!(call.body.stream, Some(true));
    let call = bearer_count_tokens("https://example.com/base/index", "token", params()).unwrap();
    assert_eq!(call.url, "https://example.com/base/v1/messages/count_tokens");
}

#[test]
fn no_count_without_an_address() {
    assert!(bearer_count_tokens("example", "token", params()).is_none());
    assert!(bearer_count_tokens("mailto:me", "token", params()).is_none());
    assert!(count_call(Err(url::ParseError::EmptyHost), "token", params()).is_none());
    let call = count_call(Ok("u".to_string()), "token", params()).unwrap();
    assert_eq!((call.url.as_str(), call.access_token.as_str()), ("u", "token"));
}

#[test]
fn the_last_request_is_counted_without_streaming() {
    let request = counting(Some("k=v"), Some(params())).try_code_count_tokens().unwrap();
    assert_eq!(request.cookie_header.unwrap().as_bytes(), b"k=v");
    assert_eq!(request.body.stream, Some(false));
    assert_eq!(request.body.model, "sonnet-x");
    assert_eq!(request.body.extra, Some(Value::from("rest")));
    assert_eq!(request.body.messages.len(), 2);
    assert_eq!(request.body.messages[0].role, Role::User);
    assert_eq!(request.body.messages[1].role, Role::Assistant);
    assert!(matches!(&request.body.messages[1].content, MessageContent::Blocks(b) if b.len() == 1));
}

#[test]
fn a_cookie_that_fits_no_header_is_still_a_cookie() {
    let request = counting(Some("a\nb"), Some(params())).try_code_count_tokens().unwrap();
    assert!(request.cookie_header.is_none());
}

#[test]
fn there_is_nothing_to_count_without_cookie_or_request() {
    assert!(counting(None, Some(params())).try_code_count_tokens().is_none());
    assert!(counting(Some("k=v"), None).try_code_count_tokens().is_none());
}
