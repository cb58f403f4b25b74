use clewdr_web::channel::SharedEventReceiver;
use clewdr_web::claude::{MessageStartContent, Role, StreamEvent, Usage};
use clewdr_web::session::{SessionManager, CLEANUP_INTERVAL_SECS, SESSION_TIMEOUT_NANOS};
use clewdr_web::state::ClaudeWebState;
use std::sync::Arc;
use tokio::sync::mpsc;

fn state(conv: Option<&str>) -> ClaudeWebState<u8> {
    ClaudeWebState {
        stream: true,
        org_uuid: Some("org".to_string()),
        conv_uuid: conv.map(|c| c.to_string()),
        endpoint: "https://example.com/".to_string(),
        cookie: Some("sessionKey=1".to_string()),
        usage: Usage { input_tokens: 3, output_tokens: 4 },
        last_params: None,
        transport: Arc::new(7),
    }
}

fn opening(id: &str) -> MessageStartContent {
    MessageStartContent {
        id: id.to_string(),
        type_: "message".to_string(),
        role: Role::Assistant,
        content: vec![],
        model: "m".to_string(),
        stop_reason: None,
        stop_sequence: None,
        usage: None,
    }
}

fn receiver() -> SharedEventReceiver {
    let (_, rx) = mpsc::unbounded_channel::<StreamEvent>();
    Arc::new(tokio::sync::Mutex::new(rx))
}

fn ids(list: &[&str]) -> Vec<String> {
    list.iter().map(|id| id.to_string()).collect()
}

fn pause(sessions: &mut SessionManager<u8>, conv: &str, tools: &[&str], now: u128) {
    let kept = sessions.pause(state(Some(conv)), opening(conv), receiver(), ids(tools), now);
    assert_eq!(kept, conv);
}

#[test]
fn the_times_are_five_minutes_and_one() {
    assert_eq!(SESSION_TIMEOUT_NANOS, 300 * 1_000_000_000);
    assert_eq!(CLEANUP_INTERVAL_SECS, 60);
}

#[test]
fn a_paused_session_is_resumed_with_all_it_had() {
    let mut sessions = SessionManager::new();
    let rx = receiver();
    let paused = state(Some("c1"));
    let transport = Arc::clone(&paused.transport);
    let conv = sessions.pause(paused, opening("msg_1"), Arc::clone(&rx), ids(&["a", "b"]), 5);
    assert_eq!(conv, "c1");

    let (resumed, message, events) = sessions.resume_by_tool_id("b").unwrap();
    assert_eq!(resumed.conv_uuid.as_deref(), Some("c1"));
    assert_eq!(resumed.org_uuid.as_deref(), Some("org"));
    assert_eq!(resumed.cookie.as_deref(), Some("sessionKey=1"));
    assert_eq!(resumed.endpoint, "https://example.com/");
    assert_eq!(resumed.usage, Usage { input_tokens: 3, output_tokens: 4 });
    assert!(resumed.stream);
    assert!(resumed.last_params.is_none());
    assert!(Arc::ptr_eq(&resumed.transport, &transport));
    assert_eq!(message.id, "msg_1");
    assert!(Arc::ptr_eq(&events, &rx));
}

#[test]
fn a_session_is_resumed_only_once() {
    let mut sessions = SessionManager::new();
    pause(&mut sessions, "c1", &["a", "b"], 0);
    assert!(sessions.resume_by_tool_id("a").is_some());
    assert!(sessions.resume_by_tool_id("a").is_none());
    assert!(sessions.resume_by_tool_id("b").is_none());
}

#[test]
fn an_unknown_tool_call_resumes_nothing() {
    let mut sessions = SessionManager::<u8>::new();
    assert!(sessions.resume_by_tool_id("a").is_none());
    pause(&mut sessions, "c1", &["a"], 0);
    assert!(sessions.resume_by_tool_id("A").is_none());
    assert!(sessions.resume_by_tool_id("").is_none());
    assert!(sessions.resume_by_tool_id("c1").is_none());
    assert!(sessions.resume_by_tool_id("a").is_some());
}

#[test]
fn resuming_leaves_other_conversations_alone() {
    let mut sessions = SessionManager::new();
    pause(&mut sessions, "c1", &["a"], 0);
    pause(&mut sessions, "c2", &["b"], 0);
    assert!(sessions.resume_by_tool_id("a").is_some());
    let (other, message, _) = sessions.resume_by_tool_id("b").unwrap();
    assert_eq!(other.conv_uuid.as_deref(), Some("c2"));
    assert_eq!(message.id, "c2");
}

#[test]
fn a_conversation_without_an_identifier_gets_a_random_one() {
    let mut sessions = SessionManager::new();
    let first = sessions.pause(state(None), opening("m"), receiver(), ids(&["a"]), 0);
    let second = sessions.pause(state(None), opening("m"), receiver(), ids(&["b"]), 0);
    assert_ne!(first, second);
    for conv in [&first, &second] {
        let chars: Vec<char> = conv.chars().collect();
        assert_eq!(chars.len(), 36);
        assert_eq!(chars[14], '4');
        assert!(['8', '9', 'a', 'b'].contains(&chars[19]));
        for (i, c) in chars.iter().enumerate() {
            if [8, 13, 18, 23].contains(&i) {
                assert_eq!(*c, '-');
            } else {
                assert!(c.is_ascii_digit() || ('a'..='f').contains(c));
            }
        }
    }
    let (resumed, _, _) = sessions.resume_by_tool_id("a").unwrap();
    assert_eq!(resumed.conv_uuid, None);
    sessions.complete(&second);
    assert!(sessions.resume_by_tool_id("b").is_none());
}

#[test]
fn a_second_pause_replaces_the_first() {
    let mut sessions = SessionManager::new();
    pause(&mut sessions, "c1", &["a"], 0);
    sessions.pause(state(Some("c1")), opening("again"), receiver(), ids(&["b"]), 1);
    let (_, message, _) = sessions.resume_by_tool_id("a").unwrap();
    assert_eq!(message.id, "again");
    assert!(sessions.resume_by_tool_id("b").is_none());
}

#[test]
fn a_tool_call_leads_to_the_conversation_that_named_it_last() {
    let mut sessions = SessionManager::new();
    pause(&mut sessions, "c1", &["a"], 0);
    pause(&mut sessions, "c2", &["a"], 0);
    let (resumed, _, _) = sessions.resume_by_tool_id("a").unwrap();
    assert_eq!(resumed.conv_uuid.as_deref(), Some("c2"));
    sessions.complete("c1");
    assert!(sessions.resume_by_tool_id("a").is_none());
}

#[test]
fn a_completed_conversation_is_forgotten() {
    let mut sessions = SessionManager::new();
    pause(&mut sessions, "c1", &["a", "b"], 0);
    pause(&mut sessions, "c2", &["c"], 0);
    sessions.complete("c1");
    assert!(sessions.resume_by_tool_id("a").is_none());
    assert!(sessions.resume_by_tool_id("b").is_none());
    sessions.complete("c1");
    sessions.complete("unknown");
    assert!(sessions.resume_by_tool_id("c").is_some());
}

#[test]
fn the_order_of_completions_does_not_matter() {
    for order in [["c1", "c2"], ["c2", "c1"]] {
        let mut sessions = SessionManager::new();
        pause(&mut sessions, "c1", &["a", "x"], 0);
        pause(&mut sessions, "c2", &["b", "x"], 0);
        pause(&mut sessions, "c3", &["c"], 0);
        for conv in order {
            sessions.complete(conv);
        }
        for gone in ["a", "b", "x"] {
            assert!(sessions.resume_by_tool_id(gone).is_none());
        }
        assert!(sessions.resume_by_tool_id("c").is_some());
    }
}

#[test]
fn paused_resumed_and_completed_can_be_paused_again() {
    let mut sessions = SessionManager::new();
    pause(&mut sessions, "c1", &["a"], 0);
    assert!(sessions.resume_by_tool_id("a").is_some());
    sessions.complete("c1");
    pause(&mut sessions, "c1", &["a"], 1);
    assert!(sessions.resume_by_tool_id("a").is_some());
}

#[test]
fn a_session_expires_after_the_timeout_and_not_at_it() {
    let start = 1_000;
    let mut sessions = SessionManager::new();
    pause(&mut sessions, "c1", &["a"], start);
    sessions.cleanup_expired(start + SESSION_TIMEOUT_NANOS);
    assert!(sessions.resume_by_tool_id("a").is_some());

    let mut sessions = SessionManager::new();
    pause(&mut sessions, "c1", &["a"], start);
    sessions.cleanup_expired(start + SESSION_TIMEOUT_NANOS + 1);
    assert!(sessions.resume_by_tool_id("a").is_none());
}

#[test]
fn a_clock_that_stands_before_the_pause_expires_nothing() {
    let mut sessions = SessionManager::new();
    pause(&mut sessions, "c1", &["a"], u128::MAX);
    sessions.cleanup_expired(0);
    assert!(sessions.resume_by_tool_id("a").is_some());
}

#[test]
fn a_sweep_drops_the_expired_and_keeps_the_rest() {
    let mut sessions = SessionManager::new();
    pause(&mut sessions, "c1", &["a"], 0);
    pause(&mut sessions, "c2", &["b"], 10);
    pause(&mut sessions, "c3", &["c"], 0);
    pause(&mut sessions, "c4", &["d"], 20);
    assert!(sessions.resume_by_tool_id("d").is_some());
    sessions.cleanup_expired(SESSION_TIMEOUT_NANOS + 5);
    assert!(sessions.resume_by_tool_id("a").is_none());
    assert!(sessions.resume_by_tool_id("c").is_none());
    assert!(sessions.resume_by_tool_id("b").is_some());
    assert!(sessions.resume_by_tool_id("d").is_none());
}

#[test]
fn an_earlier_sweep_changes_nothing_for_a_later_one() {
    for earlier in [None, Some(SESSION_TIMEOUT_NANOS + 5)] {
        let mut sessions = SessionManager::new();
        pause(&mut sessions, "c1", &["a"], 0);
        pause(&mut sessions, "c2", &["b"], 10);
        pause(&mut sessions, "c3", &["c"], 1_000);
        if let Some(now) = earlier {
            sessions.cleanup_expired(now);
        }
        sessions.cleanup_expired(SESSION_TIMEOUT_NANOS + 100);
        assert!(sessions.resume_by_tool_id("a").is_none());
        assert!(sessions.resume_by_tool_id("b").is_none());
        assert!(sessions.resume_by_tool_id("c").is_some());
    }
}

#[test]
fn a_resumed_session_expires_too() {
    let mut sessions = SessionManager::new();
    pause(&mut sessions, "c1", &["a"], 0);
    assert!(sessions.resume_by_tool_id("a").is_some());
    sessions.cleanup_expired(SESSION_TIMEOUT_NANOS + 1);
    pause(&mut sessions, "c2", &["a"], SESSION_TIMEOUT_NANOS + 1);
    assert!(sessions.resume_by_tool_id("a").is_some());
}

#[test]
fn an_identifier_can_be_chosen() {
    let mut sessions = SessionManager::new();
    sessions.pause_as("mine".to_string(), state(None), opening("m"), receiver(), ids(&["a"]), 0);
    sessions.complete("mine");
    assert!(sessions.resume_by_tool_id("a").is_none());
}
