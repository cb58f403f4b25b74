use clewdr_web::channel::SharedEventReceiver;
use clewdr_web::claude::{
    ContentBlock, CreateMessageParams, MessageStartContent, Role, StreamEvent, Usage,
};
use clewdr_web::error::ClewdrError;
use clewdr_web::session::SessionManager;
use clewdr_web::state::ClaudeWebState;
use clewdr_web::tool_stream::{ToolStreamCollector, ToolStreamInput};
use clewdr_web::transform::{tool_result_call, ResponseRoute, ToolResultReply};
use serde_json::Value;
use std::sync::Arc;
use tokio::sync::mpsc;
use url::ParseError;

fn state() -> ClaudeWebState<()> {
    ClaudeWebState {
        stream: true,
        org_uuid: Some("org".to_string()),
        conv_uuid: Some("conv".to_string()),
        endpoint: "https://example.com/".to_string(),
        cookie: Some("k=v".to_string()),
        usage: Usage { input_tokens: 11, output_tokens: 22 },
        last_params: Some(CreateMessageParams {
            model: "sonnet-x".to_string(),
            messages: vec![],
            stream: Some(true),
            extra: None,
        }),
        transport: Arc::new(()),
    }
}

fn receiver() -> SharedEventReceiver {
    let (_, rx) = mpsc::unbounded_channel::<StreamEvent>();
    Arc::new(tokio::sync::Mutex::new(rx))
}

fn opening() -> MessageStartContent {
    state().message_start_as("1".to_string())
}

fn asked_for_tools(ids: &[&str]) -> ToolStreamCollector {
    let mut collector = ToolStreamCollector::new();
    for (index, id) in ids.iter().enumerate() {
        collector.step(ToolStreamInput::Event(StreamEvent::ContentBlockStart {
            index,
            content_block: ContentBlock::ToolUse {
                id: id.to_string(),
                name: "n".to_string(),
                input: Value::Null,
                extra: None,
            },
        }));
        collector.step(ToolStreamInput::Event(StreamEvent::ContentBlockStop { index }));
    }
    collector.step(ToolStreamInput::Timeout);
    collector.drained(None);
    collector
}

fn waiting(paused: ClaudeWebState<()>) -> SessionManager<()> {
    let mut sessions = SessionManager::new();
    paused.end_stream(&mut sessions, asked_for_tools(&["t"]), opening(), receiver(), 0);
    sessions
}

#[test]
fn a_response_is_routed_by_stream_and_tools() {
    let mut s = state();
    assert_eq!(s.transform_response_with_opts(true), ResponseRoute::StreamWithTools);
    assert_eq!(s.transform_response_with_opts(false), ResponseRoute::StreamSimple);
    s.stream = false;
    assert_eq!(s.transform_response_with_opts(true), ResponseRoute::Collect);
    assert_eq!(s.transform_response_with_opts(false), ResponseRoute::Collect);
}

#[test]
fn counts_are_wanted_only_where_they_are_precise() {
    let plan = state().count_plan(false, "text");
    assert!(plan.input.is_none() && plan.output.is_none());

    let plan = state().count_plan(true, "text");
    assert_eq!(plan.input.unwrap().body.stream, Some(false));
    let output = plan.output.unwrap();
    assert_eq!(output.body.model, "sonnet-x");
    assert_eq!(output.body.messages.len(), 1);
    assert_eq!(output.cookie_header.unwrap().as_bytes(), b"k=v");
}

#[test]
fn without_a_cookie_only_the_text_is_counted() {
    let mut s = state();
    s.cookie = None;
    let plan = s.count_plan(true, "text");
    assert!(plan.input.is_none());
    assert!(plan.output.unwrap().cookie_header.is_none());
}

#[test]
fn without_a_request_nothing_is_counted() {
    let mut s = state();
    s.last_params = None;
    let plan = s.count_plan(true, "text");
    assert!(plan.input.is_none() && plan.output.is_none());
}

#[test]
fn counts_that_came_back_replace_the_known_ones() {
    let finished = state().finish_response("answer".to_string(), 5, Some(100), Some(200));
    assert_eq!(finished.response.usage, Some(Usage { input_tokens: 100, output_tokens: 200 }));
    assert_eq!((finished.input_total, finished.output_total), (100, 200));
    assert_eq!(finished.response.role, Role::Assistant);
    assert_eq!(finished.response.model, "");
    assert_eq!(finished.response.content.len(), 1);
    assert!(matches!(
        &finished.response.content[0],
        ContentBlock::Text { text, extra: None } if text.as_str() == "answer"
    ));
}

#[test]
fn missing_counts_leave_the_known_and_the_estimated() {
    let finished = state().finish_response("answer".to_string(), 5, None, None);
    assert_eq!(finished.response.usage, Some(Usage { input_tokens: 11, output_tokens: 5 }));
    assert_eq!((finished.input_total, finished.output_total), (11, 5));
    let finished = state().finish_response(String::new(), 0, None, Some(u32::MAX));
    assert_eq!((finished.input_total, finished.output_total), (11, 4294967295));
}

#[test]
fn a_message_opens_with_a_random_identifier() {
    let message = state().message_start();
    assert!(message.id.starts_with("msg_"));
    assert_eq!(message.id.len(), 40);
    assert_ne!(message.id, state().message_start().id);
    assert_eq!(message.type_, "message");
    assert_eq!(message.role, Role::Assistant);
    assert!(message.content.is_empty());
    assert_eq!(message.model, "sonnet-x");
    assert!(message.stop_reason.is_none() && message.stop_sequence.is_none());
    assert_eq!(message.usage, Some(Usage { input_tokens: 11, output_tokens: 22 }));
}

#[test]
fn a_message_of_an_unknown_model_names_none() {
    let mut s = state();
    s.last_params = None;
    let message = s.message_start_as("x".to_string());
    assert_eq!(message.id, "msg_x");
    assert_eq!(message.model, "");
}

#[test]
fn a_stream_that_wants_a_tool_is_paused() {
    let mut sessions = SessionManager::new();
    let rx = receiver();
    let events = state().transform_stream_with_tools(
        &mut sessions,
        asked_for_tools(&["t1", "t2"]),
        Arc::clone(&rx),
        9,
    );
    assert_eq!(events.len(), 4);
    let (paused, message, events) = sessions.resume_by_tool_id("t2").unwrap();
    assert_eq!(paused.conv_uuid.as_deref(), Some("conv"));
    assert!(message.id.starts_with("msg_"));
    assert_eq!(message.id.len(), 40);
    assert_eq!(message.model, "sonnet-x");
    assert_eq!(message.usage, Some(Usage { input_tokens: 11, output_tokens: 22 }));
    assert!(Arc::ptr_eq(&events, &rx));
}

#[test]
fn a_stream_that_ends_by_itself_is_not_paused() {
    let mut sessions = SessionManager::new();
    let mut collector = asked_for_tools(&[]);
    collector.step(ToolStreamInput::Event(StreamEvent::MessageStop));
    let events = state().transform_stream_with_tools(&mut sessions, collector, receiver(), 0);
    assert_eq!(events.len(), 1);
    sessions.complete("conv");
    assert!(sessions.resume_by_tool_id("t").is_none());
}

#[test]
fn a_result_is_sent_to_the_paused_conversation() {
    let mut sessions = waiting(state());
    let mut s = state();
    s.org_uuid = None;
    s.conv_uuid = Some("another".to_string());
    s.usage = Usage { input_tokens: 0, output_tokens: 0 };
    let call = s.resume_after_tool_result(&mut sessions, "t", "42 \"degrees\"").unwrap();
    assert_eq!(
        call.url,
        "https://example.com/api/organizations/org/chat_conversations/conv/tool_result"
    );
    assert_eq!(
        call.body.to_string(),
        r#"{"content":[{"text":"42 \"degrees\"","type":"text"}],"tool_use_id":"t"}"#
    );
    assert!(matches!(
        &call.opening,
        StreamEvent::MessageStart { message } if message.id.as_str() == "msg_1"
    ));
    assert_eq!(s.org_uuid.as_deref(), Some("org"));
    assert_eq!(s.conv_uuid.as_deref(), Some("conv"));
    assert_eq!(s.usage, Usage { input_tokens: 11, output_tokens: 22 });
}

#[test]
fn a_result_that_nothing_waits_for_is_a_bad_request() {
    let mut sessions = waiting(state());
    let mut s = state();
    s.conv_uuid = Some("mine".to_string());
    let error = s.resume_after_tool_result(&mut sessions, "unknown", "x").unwrap_err();
    assert!(matches!(
        error,
        ClewdrError::BadRequest { msg: "No pending tool call found for this tool_use_id" }
    ));
    assert_eq!(s.conv_uuid.as_deref(), Some("mine"));
    assert!(s.resume_after_tool_result(&mut sessions, "t", "x").is_ok());
    assert!(matches!(
        s.resume_after_tool_result(&mut sessions, "t", "x"),
        Err(ClewdrError::BadRequest { .. })
    ));
}

#[test]
fn a_result_needs_an_organization() {
    let mut paused = state();
    paused.org_uuid = None;
    paused.conv_uuid = None;
    let mut sessions = waiting(paused);
    let mut s = state();
    let error = s.resume_after_tool_result(&mut sessions, "t", "x").unwrap_err();
    assert!(matches!(
        error,
        ClewdrError::UnexpectedNone { msg: "Organization UUID is not set" }
    ));
    assert_eq!(s.org_uuid, None);
}

#[test]
fn a_result_needs_a_conversation() {
    let mut paused = state();
    paused.conv_uuid = None;
    let mut sessions = waiting(paused);
    let mut s = state();
    let error = s.resume_after_tool_result(&mut sessions, "t", "x").unwrap_err();
    assert!(matches!(
        error,
        ClewdrError::UnexpectedNone { msg: "Conversation UUID is not set" }
    ));
    assert_eq!(s.conv_uuid, None);
}

#[test]
fn a_result_needs_an_address() {
    let mut paused = state();
    paused.endpoint = "mailto:me".to_string();
    let mut sessions = waiting(paused);
    match state().resume_after_tool_result(&mut sessions, "t", "x") {
        Err(ClewdrError::Whatever { message, source }) => {
            assert_eq!(message, "Parse URL error: relative URL with a cannot-be-a-base base");
            assert_eq!(source, Some(ParseError::RelativeUrlWithCannotBeABaseBase));
        }
        _ => panic!("expected an error"),
    }
}

#[test]
fn a_call_is_made_for_an_address_or_not_at_all() {
    let call = tool_result_call(Ok("u".to_string()), "id", "", opening()).unwrap();
    assert_eq!(call.url, "u");
    assert_eq!(call.body.to_string(), r#"{"content":[{"text":"","type":"text"}],"tool_use_id":"id"}"#);
    match tool_result_call(Err(ParseError::EmptyHost), "id", "c", opening()) {
        Err(ClewdrError::Whatever { message, source }) => {
            assert_eq!(message, "Parse URL error: empty host");
            assert_eq!(source, Some(ParseError::EmptyHost));
        }
        _ => panic!("expected an error"),
    }
}

#[test]
fn a_result_that_was_taken_ends_the_pause() {
    let mut sessions = waiting(state());
    let mut s = state();
    assert!(s.resume_after_tool_result(&mut sessions, "t", "x").is_ok());
    assert_eq!(s.settle_tool_result(&mut sessions, true), ToolResultReply::Relay);
    sessions.pause(state(), opening(), receiver(), vec!["u".to_string()], 0);
    assert!(sessions.resume_by_tool_id("t").is_none());
    assert!(sessions.resume_by_tool_id("u").is_some());
}

#[test]
fn a_result_that_was_refused_keeps_the_pause() {
    let mut sessions = waiting(state());
    assert_eq!(state().settle_tool_result(&mut sessions, false), ToolResultReply::Refused);
    assert!(sessions.resume_by_tool_id("t").is_some());
    let mut sessions = waiting(state());
    let mut s = state();
    s.conv_uuid = None;
    assert_eq!(s.settle_tool_result(&mut sessions, true), ToolResultReply::Relay);
    assert!(sessions.resume_by_tool_id("t").is_some());
}

#[test]
fn an_answered_session_is_gone_and_the_others_stay() {
    let mut sessions = waiting(state());
    let mut other = state();
    other.conv_uuid = Some("other".to_string());
    other.end_stream(&mut sessions, asked_for_tools(&["u", "v"]), opening(), receiver(), 0);
    let mut s = state();
    assert!(s.resume_after_tool_result(&mut sessions, "u", "x").is_ok());
    assert_eq!(s.conv_uuid.as_deref(), Some("other"));
    assert_eq!(s.settle_tool_result(&mut sessions, true), ToolResultReply::Relay);
    assert!(sessions.resume_by_tool_id("u").is_none());
    assert!(sessions.resume_by_tool_id("v").is_none());
    assert!(sessions.resume_by_tool_id("t").is_some());
}
