use clewdr_web::claude::{ContentBlock, Message, MessageContent, Role, StreamEvent};
use clewdr_web::completion::{
    assistant_message, merge_sse, parser_command, CompletionReader, ParserCommand,
};
use clewdr_web::events::Upstream;

fn ok(text: &str) -> Result<Option<String>, &'static str> {
    Ok(Some(text.to_string()))
}

#[test]
fn completions_are_joined_in_order() {
    assert_eq!(merge_sse(vec![ok("Hel"), Ok(None), ok(""), ok("lo")]), Ok("Hello".to_string()));
    assert_eq!(merge_sse::<()>(vec![]), Ok(String::new()));
}

#[test]
fn the_first_error_wins() {
    assert_eq!(merge_sse(vec![ok("a"), Err("first"), ok("b"), Err("second")]), Err("first"));
    assert_eq!(merge_sse(vec![Err("only")]), Err("only"));
}

fn assert_assistant_says(message: Message, expected: &str) {
    assert_eq!(message.role, Role::Assistant);
    match message.content {
        MessageContent::Blocks(blocks) => {
            assert_eq!(blocks.len(), 1);
            assert!(matches!(
                &blocks[0],
                ContentBlock::Text { text, extra: None } if text.as_str() == expected
            ));
        }
        MessageContent::Text(_) => panic!("expected blocks"),
    }
}

#[test]
fn strings_become_messages_of_the_assistant() {
    assert_assistant_says(Message::from("hello"), "hello");
    assert_assistant_says(Message::from("hello".to_string()), "hello");
    assert_assistant_says('x'.into(), "x");
    assert_assistant_says(assistant_message(String::new()), "");
}

#[test]
fn completions_feed_the_parser() {
    let command = parser_command(Some(Upstream::Parsed("text".to_string())));
    assert!(matches!(command, ParserCommand::Feed(text) if text.as_str() == "text"));
    assert!(matches!(
        parser_command(Some(Upstream::Parsed(String::new()))),
        ParserCommand::Skip
    ));
    assert!(matches!(parser_command(Some(Upstream::Unparsed)), ParserCommand::Skip));
    assert!(matches!(parser_command(None), ParserCommand::Finish));
}

#[test]
fn a_broken_stream_is_an_internal_error() {
    match parser_command(Some(Upstream::Failed("reset".to_string()))) {
        ParserCommand::Fail(StreamEvent::Error { error }) => {
            assert_eq!(error.type_, "internal_error");
            assert_eq!(error.message, "reset");
        }
        other => panic!("unexpected {:?}", other),
    }
}

fn text(t: &str) -> Upstream<String> {
    Upstream::Parsed(t.to_string())
}

/// What a reader does when events can be sent `deliverable` times.
fn run(items: Vec<Upstream<String>>, deliverable: usize) -> Vec<&'static str> {
    let mut done = Vec::new();
    let mut left = deliverable;
    let mut items = items.into_iter();
    let (mut reader, mut command) = CompletionReader::start();
    loop {
        let name = match command {
            ParserCommand::Open => "open",
            ParserCommand::Feed(_) => "feed",
            ParserCommand::Skip => "",
            ParserCommand::Fail(_) => "fail",
            ParserCommand::Finish => "finish",
        };
        if !name.is_empty() {
            done.push(name);
            reader.sent(left > 0);
            left = left.saturating_sub(1);
        }
        if reader.is_done() {
            return done;
        }
        command = reader.read(items.next());
    }
}

#[test]
fn a_reader_opens_first_and_ends_once() {
    assert_eq!(
        run(vec![text("a"), text(""), Upstream::Unparsed, text("b")], 9),
        ["open", "feed", "feed", "finish"]
    );
    assert_eq!(
        run(vec![text("a"), Upstream::Failed(String::new()), text("b")], 9),
        ["open", "feed", "fail"]
    );
    assert_eq!(run(vec![], 9), ["open", "finish"]);
}

#[test]
fn a_reader_ends_when_nobody_receives() {
    assert_eq!(run(vec![text("a"), text("b"), text("c")], 2), ["open", "feed", "feed"]);
    assert_eq!(run(vec![text("a"), text("b")], 0), ["open", "feed"]);
    assert_eq!(run(vec![], 0), ["open", "finish"]);
}

#[test]
fn a_reader_that_is_done_asks_for_nothing() {
    let (mut reader, command) = CompletionReader::start();
    assert!(matches!(command, ParserCommand::Open));
    assert!(!reader.is_done());
    assert!(matches!(reader.read(None), ParserCommand::Finish));
    assert!(reader.is_done());
    assert!(matches!(reader.read(Some(text("a"))), ParserCommand::Skip));
    assert!(matches!(reader.read(None), ParserCommand::Skip));
}

#[test]
fn the_parser_is_fed_what_merging_gives() {
    let readings = || vec![Some("Hel"), None, Some(""), Some("lo")];
    let mut fed = String::new();
    for reading in readings() {
        let item = match reading {
            Some(text) => Upstream::Parsed(text.to_string()),
            None => Upstream::Unparsed,
        };
        if let ParserCommand::Feed(text) = parser_command(Some(item)) {
            fed.push_str(&text);
        }
    }
    let events: Vec<Result<Option<String>, ()>> =
        readings().into_iter().map(|r| Ok(r.map(|t| t.to_string()))).collect();
    assert_eq!(merge_sse(events), Ok(fed));
}
