use clewdr_web::claude::{
    ContentBlock, MessageDeltaContent, MessageStartContent, Role, StreamError, StreamEvent,
};
use clewdr_web::events::{
    filter_event, forward_item, is_valid_stream_content_block, stream_event_to_sse, Forward, Upstream,
};
use serde_json::Value;

fn opening() -> StreamEvent {
    StreamEvent::MessageStart {
        message: MessageStartContent {
            id: "msg_1".to_string(),
            type_: "message".to_string(),
            role: Role::Assistant,
            content: vec![],
            model: "m".to_string(),
            stop_reason: None,
            stop_sequence: None,
            usage: None,
        },
    }
}

fn error() -> StreamEvent {
    StreamEvent::Error {
        error: StreamError { type_: "overloaded".to_string(), message: "busy".to_string() },
    }
}

fn shown_blocks() -> Vec<ContentBlock> {
    let body = Value::Null;
    vec![
        ContentBlock::text("hi".to_string()),
        ContentBlock::ToolUse {
            id: "t".to_string(),
            name: "n".to_string(),
            input: Value::Null,
            extra: None,
        },
        ContentBlock::Image { body: body.clone() },
        ContentBlock::Document { body: body.clone() },
        ContentBlock::SearchResult { body: body.clone() },
        ContentBlock::Thinking { body: body.clone() },
        ContentBlock::RedactedThinking { body },
    ]
}

fn hidden_blocks() -> Vec<ContentBlock> {
    let body = Value::Null;
    vec![
        ContentBlock::ToolResult { body: body.clone() },
        ContentBlock::ServerToolUse { body: body.clone() },
        ContentBlock::WebSearchToolResult { body: body.clone() },
        ContentBlock::WebFetchToolResult { body: body.clone() },
        ContentBlock::CodeExecutionToolResult { body: body.clone() },
        ContentBlock::BashCodeExecutionToolResult { body: body.clone() },
        ContentBlock::TextEditorCodeExecutionToolResult { body: body.clone() },
        ContentBlock::ToolSearchToolResult { body: body.clone() },
        ContentBlock::McpToolUse { body: body.clone() },
        ContentBlock::McpToolResult { body: body.clone() },
        ContentBlock::ContainerUpload { body },
    ]
}

#[test]
fn blocks_of_the_upstream_itself_are_hidden() {
    for block in shown_blocks() {
        assert!(is_valid_stream_content_block(&block));
        assert!(filter_event(&StreamEvent::ContentBlockStart { index: 0, content_block: block }));
    }
    for block in hidden_blocks() {
        assert!(!is_valid_stream_content_block(&block));
        assert!(!filter_event(&StreamEvent::ContentBlockStart { index: 0, content_block: block }));
    }
}

#[test]
fn errors_are_the_only_other_events_that_are_dropped() {
    assert!(!filter_event(&error()));
    assert!(filter_event(&opening()));
    assert!(filter_event(&StreamEvent::ContentBlockDelta { index: 1, delta: Value::Null }));
    assert!(filter_event(&StreamEvent::ContentBlockStop { index: 1 }));
    assert!(filter_event(&StreamEvent::MessageStop));
    assert!(filter_event(&StreamEvent::Ping));
}

#[test]
fn every_event_is_sent_under_its_name() {
    let events = vec![
        (opening(), "message_start"),
        (
            StreamEvent::ContentBlockStart {
                index: 0,
                content_block: ContentBlock::text(String::new()),
            },
            "content_block_start",
        ),
        (StreamEvent::ContentBlockDelta { index: 0, delta: Value::Null }, "content_block_delta"),
        (StreamEvent::ContentBlockStop { index: 0 }, "content_block_stop"),
        (
            StreamEvent::MessageDelta {
                delta: MessageDeltaContent { stop_reason: None, stop_sequence: None },
                usage: None,
            },
            "message_delta",
        ),
        (StreamEvent::MessageStop, "message_stop"),
        (StreamEvent::Ping, "ping"),
        (error(), "error"),
    ];
    for (event, name) in events {
        let sse = stream_event_to_sse::<()>(&event, Ok("payload".to_string())).unwrap();
        let shown = format!("{:?}", sse);
        assert!(shown.contains(&format!("event: {}\\ndata: payload\\n", name)), "{}", shown);
    }
}

#[test]
fn empty_data_leaves_the_name_alone() {
    let sse = stream_event_to_sse::<()>(&StreamEvent::Ping, Ok(String::new())).unwrap();
    let shown = format!("{:?}", sse);
    assert!(shown.contains("event: ping\\n"));
    assert!(!shown.contains("data:"));
}

#[test]
fn data_of_several_lines_is_kept() {
    let sse = stream_event_to_sse::<()>(&StreamEvent::Ping, Ok("a\nb".to_string())).unwrap();
    assert!(format!("{:?}", sse).contains("data: a\\ndata: b\\n"));
}

#[test]
fn the_error_of_the_serialiser_is_handed_on() {
    let sse = stream_event_to_sse(&StreamEvent::Ping, Err("broken"));
    assert!(matches!(sse, Err("broken")));
}

#[test]
fn readings_are_forwarded_skipped_or_end_the_stream() {
    assert!(matches!(
        forward_item(Upstream::Parsed(StreamEvent::Ping)),
        Forward::Send(StreamEvent::Ping)
    ));
    assert!(matches!(forward_item(Upstream::Parsed(error())), Forward::Skip));
    assert!(matches!(forward_item(Upstream::Unparsed), Forward::Skip));
    assert!(matches!(forward_item(Upstream::Failed("reset".to_string())), Forward::Stop));
}

#[test]
fn nothing_is_forwarded_after_a_failure() {
    let items = vec![
        Upstream::Parsed(StreamEvent::Ping),
        Upstream::Unparsed,
        Upstream::Parsed(error()),
        Upstream::Parsed(StreamEvent::ContentBlockStop { index: 4 }),
        Upstream::Failed("reset".to_string()),
        Upstream::Parsed(StreamEvent::MessageStop),
    ];
    let mut sent = Vec::new();
    for item in items {
        match forward_item(item) {
            Forward::Send(event) => sent.push(event),
            Forward::Skip => {}
            Forward::Stop => break,
        }
    }
    assert_eq!(sent.len(), 2);
    assert!(matches!(sent[0], StreamEvent::Ping));
    assert!(matches!(sent[1], StreamEvent::ContentBlockStop { index: 4 }));
}
