//! Tests of the room sweep: skip rules, per-room failure absorption, and
//! the commands the sweep hands its driver.

use std::collections::HashSet;

use chatwork_sweeper::models::{Message, ReadStatus, Room};
use chatwork_sweeper::processor::{run_sweep, MessageProcessor, RoomOutcome, SweepCommand};
use chatwork_sweeper::settings::{ChatworkSettings, Settings};

fn create_test_settings() -> Settings {
    Settings {
        chatwork: ChatworkSettings {
            api_token: "test_token".to_string(),
            exclude_account_ids: vec!["123".to_string()],
            exclude_room_ids: HashSet::from([999]),
        },
    }
}

fn room(room_id: i32, unread_num: i32, mention_num: i32) -> Room {
    Room { room_id, unread_num, mention_num }
}

fn message(id: &str, body: &str) -> Message {
    Message { message_id: id.to_string(), body: body.to_string() }
}

#[test]
fn test_process_all_rooms() {
    // Room 1 is eligible; room 2 has nothing unread; room 3 carries a
    // mention. Only room 1 is fetched. Its newest message mentions a watched
    // account, so there is nothing safe to acknowledge after it and no mark
    // is requested.
    let processor = MessageProcessor::new(create_test_settings());
    let mut sweep = processor.begin_sweep(vec![
        room(1, 1, 0),
        room(2, 0, 0),
        room(3, 1, 1),
    ]);

    match sweep.next_command() {
        SweepCommand::FetchMessages { room_id } => assert_eq!(room_id, 1),
        SweepCommand::Finished => panic!("room 1 must be fetched"),
    }
    let messages = vec![
        message("1", "Test message"),
        message("2", "[To:123] Test mention"),
    ];
    let mark = sweep.messages_fetched(&messages);
    assert!(mark.is_none());

    assert!(matches!(sweep.next_command(), SweepCommand::Finished));
}

#[test]
fn test_process_room_with_no_unread_messages() {
    let processor = MessageProcessor::new(create_test_settings());
    let mut sweep = processor.begin_sweep(vec![room(1, 0, 0)]);
    assert!(matches!(sweep.next_command(), SweepCommand::Finished));
}

#[test]
fn test_process_room_with_mentions() {
    let processor = MessageProcessor::new(create_test_settings());
    let mut sweep = processor.begin_sweep(vec![room(1, 1, 1)]);
    assert!(matches!(sweep.next_command(), SweepCommand::Finished));
}

#[test]
fn test_process_skipped_room() {
    let processor = MessageProcessor::new(create_test_settings());
    let mut sweep = processor.begin_sweep(vec![room(999, 1, 0)]);
    assert!(matches!(sweep.next_command(), SweepCommand::Finished));
}

#[test]
fn test_eligible_room_is_marked_read() {
    // An ordinary unread message: the oldest message is acknowledged.
    let processor = MessageProcessor::new(create_test_settings());
    let mut sweep = processor.begin_sweep(vec![room(7, 3, 0)]);

    match sweep.next_command() {
        SweepCommand::FetchMessages { room_id } => assert_eq!(room_id, 7),
        SweepCommand::Finished => panic!("room 7 must be fetched"),
    }
    let messages = vec![message("10", "hello"), message("11", "world")];
    let mark = sweep.messages_fetched(&messages).expect("a target must be selected");
    assert_eq!(mark.room_id, 7);
    assert_eq!(mark.message_id, "10");

    sweep.mark_finished();
    assert!(matches!(sweep.next_command(), SweepCommand::Finished));
}

#[test]
fn test_failed_fetch_does_not_block_later_rooms() {
    // The fetch for room 1 fails; room 2 is still processed.
    let processor = MessageProcessor::new(create_test_settings());
    let mut sweep = processor.begin_sweep(vec![room(1, 1, 0), room(2, 2, 0)]);

    match sweep.next_command() {
        SweepCommand::FetchMessages { room_id } => assert_eq!(room_id, 1),
        SweepCommand::Finished => panic!("room 1 must be fetched"),
    }
    sweep.messages_failed();

    match sweep.next_command() {
        SweepCommand::FetchMessages { room_id } => assert_eq!(room_id, 2),
        SweepCommand::Finished => panic!("a failure in room 1 must not block room 2"),
    }
    let mark = sweep.messages_fetched(&vec![message("5", "hi")]).expect("target expected");
    assert_eq!(mark.room_id, 2);
    assert_eq!(mark.message_id, "5");
    sweep.mark_finished();
    assert!(matches!(sweep.next_command(), SweepCommand::Finished));
}

#[test]
fn test_failed_mark_does_not_block_later_rooms() {
    // Marking room 1's message fails; room 2 is still processed.
    let processor = MessageProcessor::new(create_test_settings());
    let mut sweep = processor.begin_sweep(vec![room(1, 1, 0), room(2, 1, 0)]);

    assert!(matches!(sweep.next_command(), SweepCommand::FetchMessages { room_id: 1 }));
    let mark = sweep.messages_fetched(&vec![message("8", "hi")]).expect("target expected");
    assert_eq!(mark.message_id, "8");
    // The driver's mark-as-read call failed; the sweep absorbs it.
    sweep.mark_finished();

    assert!(matches!(sweep.next_command(), SweepCommand::FetchMessages { room_id: 2 }));
}

#[test]
fn test_should_skip_room_rules() {
    let processor = MessageProcessor::new(create_test_settings());
    // On the exclusion list, regardless of the counters.
    assert!(processor.should_skip_room(&room(999, 5, 0)));
    // Nothing unread.
    assert!(processor.should_skip_room(&room(1, 0, 0)));
    // A mention, even with unread messages.
    assert!(processor.should_skip_room(&room(1, 4, 2)));
    // None of the rules applies.
    assert!(!processor.should_skip_room(&room(1, 1, 0)));
}

#[test]
fn test_replay_sweep_fetches_only_eligible_rooms() {
    // Rooms: eligible, operator-excluded, eligible (its fetch fails),
    // mentioned. Only the two eligible ones are fetched; the failed fetch
    // does not stop the sweep, and only the first room yields a mark.
    let processor = MessageProcessor::new(create_test_settings());
    let rooms = vec![room(1, 1, 0), room(999, 1, 0), room(2, 1, 0), room(3, 1, 1)];
    let outcomes = vec![
        RoomOutcome::Messages(vec![message("a", "hello")]),
        RoomOutcome::Messages(vec![]),
        RoomOutcome::FetchFailed,
        RoomOutcome::Messages(vec![]),
    ];
    let replay = run_sweep(processor, rooms, &outcomes);
    assert_eq!(replay.fetched_rooms, vec![1, 2]);
    assert_eq!(replay.marks.len(), 1);
    assert_eq!(replay.marks[0].room_id, 1);
    assert_eq!(replay.marks[0].message_id, "a");
}

#[test]
fn test_replay_sweep_with_no_rooms() {
    let processor = MessageProcessor::new(create_test_settings());
    let replay = run_sweep(processor, vec![], &vec![]);
    assert!(replay.fetched_rooms.is_empty());
    assert!(replay.marks.is_empty());
}

#[test]
fn test_read_status_counters() {
    let status = ReadStatus { unread_num: 0, mention_num: 0 };
    assert_eq!(status.unread_num, 0);
    assert_eq!(status.mention_num, 0);
}
