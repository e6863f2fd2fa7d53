//! Tests of the target-message selection: which message of a room's history
//! is marked as the "read up to" point.

use std::collections::HashSet;

use chatwork_sweeper::models::Message;
use chatwork_sweeper::processor::MessageProcessor;
use chatwork_sweeper::selector::select_target_index;
use chatwork_sweeper::settings::{ChatworkSettings, Settings};

fn create_test_settings() -> Settings {
    Settings {
        chatwork: ChatworkSettings {
            api_token: "test_token".to_string(),
            exclude_account_ids: vec!["123".to_string()],
            exclude_room_ids: HashSet::from([999]),
        },
    }
}

fn message(id: &str, body: &str) -> Message {
    Message { message_id: id.to_string(), body: body.to_string() }
}

#[test]
fn test_find_target_message_with_no_messages() {
    let processor = MessageProcessor::new(create_test_settings());
    let messages = vec![];
    let target_message = processor.find_target_message(&messages);
    assert!(target_message.is_none());
}

#[test]
fn test_find_target_message_with_no_matching_mention() {
    // No message carries a marker, so the target is the oldest message.
    let processor = MessageProcessor::new(create_test_settings());
    let messages = vec![
        message("1", "Test message 1"),
        message("2", "Test message 2"),
    ];
    let target_message = processor.find_target_message(&messages);
    assert_eq!(target_message.unwrap().message_id, "1");
}

#[test]
fn test_single_message_no_exclusions() {
    let messages = vec![message("1", "hi")];
    let exclude_account_ids: Vec<String> = vec![];
    let target = select_target_index(&messages, &exclude_account_ids);
    assert_eq!(target, Some(0));
}

#[test]
fn test_target_is_message_after_last_broadcast() {
    let messages = vec![
        message("1", "hi"),
        message("2", "[toall] alert"),
        message("3", "ok"),
    ];
    let exclude_account_ids: Vec<String> = vec![];
    let target = select_target_index(&messages, &exclude_account_ids);
    assert_eq!(target, Some(2));
    let processor = MessageProcessor::new(create_test_settings());
    assert_eq!(processor.find_target_message(&messages).unwrap().message_id, "3");
}

#[test]
fn test_excluded_message_at_end_yields_no_target() {
    let messages = vec![message("1", "[To:9] x")];
    let exclude_account_ids = vec!["9".to_string()];
    let target = select_target_index(&messages, &exclude_account_ids);
    assert_eq!(target, None);
}

#[test]
fn test_all_messages_excluded_yields_no_target() {
    let messages = vec![
        message("1", "[toall] first"),
        message("2", "[To:123] second"),
    ];
    let exclude_account_ids = vec!["123".to_string()];
    let target = select_target_index(&messages, &exclude_account_ids);
    assert_eq!(target, None);
}

#[test]
fn test_broadcast_marker_excludes_message() {
    let processor = MessageProcessor::new(create_test_settings());
    assert!(processor.is_message_to_be_excluded(&message("1", "note [toall] please")));
}

#[test]
fn test_mention_of_watched_account_excludes_message() {
    let processor = MessageProcessor::new(create_test_settings());
    assert!(processor.is_message_to_be_excluded(&message("1", "[To:123] hello")));
}

#[test]
fn test_plain_message_is_not_excluded() {
    let processor = MessageProcessor::new(create_test_settings());
    assert!(!processor.is_message_to_be_excluded(&message("1", "hello there")));
}

#[test]
fn test_mention_of_other_account_is_not_excluded() {
    // "[To:1234]" does not contain the marker "[To:123]".
    let processor = MessageProcessor::new(create_test_settings());
    assert!(!processor.is_message_to_be_excluded(&message("1", "[To:1234] hello")));
}

#[test]
fn test_mention_marker_must_be_complete() {
    // The opening "[To:123" without the closing bracket is no marker.
    let processor = MessageProcessor::new(create_test_settings());
    assert!(!processor.is_message_to_be_excluded(&message("1", "[To:123 hello")));
}

#[test]
fn test_selection_with_multibyte_text() {
    let messages = vec![
        message("1", "テストメッセージ"),
        message("2", "[toall] 全員向け"),
        message("3", "了解です"),
    ];
    let exclude_account_ids: Vec<String> = vec![];
    let target = select_target_index(&messages, &exclude_account_ids);
    assert_eq!(target, Some(2));
}
