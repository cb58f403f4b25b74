use clewdr_web::claude::{
    ContentBlock, MessageDeltaContent, StopReason, StreamEvent,
};
use clewdr_web::tool_stream::{
    relay_step, Relay, ToolStreamCollector, ToolStreamInput, ToolStreamPhase,
    TOOL_USE_TIMEOUT_MILLIS,
};
use serde_json::Value;
use tokio::sync::mpsc;

fn tool(index: usize, id: &str) -> StreamEvent {
    StreamEvent::ContentBlockStart {
        index,
        content_block: ContentBlock::ToolUse {
            id: id.to_string(),
            name: "n".to_string(),
            input: Value::Null,
            extra: None,
        },
    }
}

fn text(index: usize) -> StreamEvent {
    StreamEvent::ContentBlockStart { index, content_block: ContentBlock::text(String::new()) }
}

fn stop(index: usize) -> StreamEvent {
    StreamEvent::ContentBlockStop { index }
}

fn ended(reason: StopReason) -> StreamEvent {
    StreamEvent::MessageDelta {
        delta: MessageDeltaContent { stop_reason: Some(reason), stop_sequence: None },
        usage: None,
    }
}

fn feed(events: Vec<StreamEvent>) -> (ToolStreamCollector, ToolStreamPhase) {
    let mut collector = ToolStreamCollector::new();
    let mut phase = ToolStreamPhase::Collecting;
    for event in events {
        phase = collector.step(ToolStreamInput::Event(event));
    }
    (collector, phase)
}

fn parts(collector: ToolStreamCollector) -> (usize, Vec<String>, bool) {
    let pauses = collector.pauses();
    let (events, ids) = collector.into_parts();
    (events.len(), ids, pauses)
}

#[test]
fn silence_counts_after_a_second() {
    assert_eq!(TOOL_USE_TIMEOUT_MILLIS, 1000);
}

#[test]
fn a_message_ends_the_collection() {
    let (collector, phase) = feed(vec![text(0), stop(0), ended(StopReason::EndTurn), StreamEvent::MessageStop]);
    assert_eq!(phase, ToolStreamPhase::Done);
    assert_eq!(parts(collector), (4, vec![], false));
}

#[test]
fn the_end_of_the_channel_ends_the_collection() {
    let (mut collector, phase) = feed(vec![tool(0, "t")]);
    assert_eq!(phase, ToolStreamPhase::Collecting);
    assert_eq!(collector.step(ToolStreamInput::Closed), ToolStreamPhase::Done);
    assert_eq!(parts(collector), (1, vec!["t".to_string()], false));
}

#[test]
fn the_model_says_that_it_wants_a_tool() {
    let (mut collector, phase) =
        feed(vec![text(0), stop(0), tool(1, "t1"), stop(1), tool(2, "t2"), stop(2), ended(StopReason::ToolUse)]);
    assert_eq!(phase, ToolStreamPhase::Draining);
    assert_eq!(collector.drained(None), ToolStreamPhase::Done);
    assert_eq!(parts(collector), (7, vec!["t1".to_string(), "t2".to_string()], true));
}

#[test]
fn a_wish_for_a_tool_without_a_tool_call_pauses_nothing() {
    let (collector, phase) = feed(vec![ended(StopReason::ToolUse)]);
    assert_eq!(phase, ToolStreamPhase::Draining);
    assert_eq!(parts(collector), (1, vec![], false));
}

#[test]
fn silence_after_a_closed_tool_block_asks_for_the_tool() {
    let (mut collector, phase) = feed(vec![tool(3, "t"), StreamEvent::Ping, stop(3), StreamEvent::Ping]);
    assert_eq!(phase, ToolStreamPhase::Collecting);
    assert_eq!(collector.step(ToolStreamInput::Timeout), ToolStreamPhase::Draining);
    assert_eq!(collector.drained(None), ToolStreamPhase::Done);
    assert_eq!(parts(collector), (4, vec!["t".to_string()], true));
}

#[test]
fn other_silence_is_waited_out() {
    let streams = vec![
        vec![],
        vec![text(0), stop(0)],
        vec![tool(0, "t")],
        vec![tool(0, "t"), stop(1)],
        vec![tool(0, "t"), stop(0), text(1)],
        vec![tool(0, "t"), stop(0), text(1), stop(1)],
        vec![tool(0, "t"), stop(0), tool(1, "u")],
        vec![tool(0, "t"), tool(1, "u"), stop(0)],
    ];
    for events in streams {
        let sent = events.len();
        let (mut collector, _) = feed(events);
        assert_eq!(collector.step(ToolStreamInput::Timeout), ToolStreamPhase::Collecting);
        assert_eq!(collector.step(ToolStreamInput::Event(StreamEvent::MessageStop)), ToolStreamPhase::Done);
        let (events, _, pauses) = parts(collector);
        assert_eq!(events, sent + 1);
        assert!(!pauses);
    }
}

#[test]
fn silence_before_the_block_closes_is_forgotten() {
    let (mut collector, _) = feed(vec![tool(0, "t")]);
    assert_eq!(collector.step(ToolStreamInput::Timeout), ToolStreamPhase::Collecting);
    assert_eq!(collector.step(ToolStreamInput::Event(stop(0))), ToolStreamPhase::Collecting);
    assert_eq!(collector.step(ToolStreamInput::Timeout), ToolStreamPhase::Draining);
}

#[test]
fn a_collector_that_stopped_takes_nothing_more() {
    let (mut collector, _) = feed(vec![StreamEvent::MessageStop]);
    assert_eq!(collector.step(ToolStreamInput::Event(tool(0, "t"))), ToolStreamPhase::Done);
    assert_eq!(collector.step(ToolStreamInput::Timeout), ToolStreamPhase::Done);
    assert_eq!(collector.drained(Some(StreamEvent::Ping)), ToolStreamPhase::Done);
    assert_eq!(parts(collector), (1, vec![], false));
}

#[test]
fn what_has_arrived_is_drained_in_order() {
    let (sender, mut receiver) = mpsc::unbounded_channel();
    sender.send(tool(9, "late")).unwrap();
    sender.send(stop(9)).unwrap();
    sender.send(StreamEvent::MessageStop).unwrap();
    let (mut collector, _) = feed(vec![tool(0, "t"), stop(0), ended(StopReason::ToolUse)]);
    collector.drain(&mut receiver);
    assert!(receiver.try_recv().is_err());
    assert!(collector.pauses());
    let (events, ids) = collector.into_parts();
    assert_eq!(ids, ["t"]);
    assert_eq!(events.len(), 6);
    assert!(matches!(events[0], StreamEvent::ContentBlockStart { index: 0, .. }));
    assert!(matches!(events[3], StreamEvent::ContentBlockStart { index: 9, .. }));
    assert!(matches!(events[4], StreamEvent::ContentBlockStop { index: 9 }));
    assert!(matches!(events[5], StreamEvent::MessageStop));
}

#[test]
fn draining_ends_the_collection() {
    let (_sender, mut receiver) = mpsc::unbounded_channel();
    let (mut collector, _) = feed(vec![ended(StopReason::ToolUse)]);
    collector.drain(&mut receiver);
    assert_eq!(collector.drained(Some(StreamEvent::Ping)), ToolStreamPhase::Done);
    assert_eq!(parts(collector).0, 1);
}

#[test]
fn nothing_is_drained_while_events_are_awaited() {
    let (sender, mut receiver) = mpsc::unbounded_channel();
    sender.send(StreamEvent::Ping).unwrap();
    let (mut collector, _) = feed(vec![text(0)]);
    collector.drain(&mut receiver);
    assert!(matches!(receiver.try_recv(), Ok(StreamEvent::Ping)));
    assert_eq!(collector.step(ToolStreamInput::Timeout), ToolStreamPhase::Collecting);
    assert_eq!(parts(collector).0, 1);
}

#[test]
fn events_are_relayed_up_to_the_end_of_the_message() {
    let mut received =
        vec![StreamEvent::Ping, stop(2), StreamEvent::MessageStop, StreamEvent::Ping].into_iter();
    let mut sent = Vec::new();
    loop {
        match relay_step(received.next()) {
            Relay::Send { event, last } => {
                sent.push(event);
                if last {
                    break;
                }
            }
            Relay::End => break,
        }
    }
    assert_eq!(sent.len(), 3);
    assert!(matches!(sent[0], StreamEvent::Ping));
    assert!(matches!(sent[1], StreamEvent::ContentBlockStop { index: 2 }));
    assert!(matches!(sent[2], StreamEvent::MessageStop));
}

#[test]
fn the_end_of_the_channel_ends_the_relay() {
    assert!(matches!(relay_step(None), Relay::End));
    assert!(matches!(
        relay_step(Some(ended(StopReason::EndTurn))),
        Relay::Send { event: StreamEvent::MessageDelta { .. }, last: false }
    ));
}
