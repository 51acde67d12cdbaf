//! The runtime coordinator: initial synchronization, backpressure on the
//! bounded command queue, update ordering, and shutdown.

use geekgram::identity::{to_bot_id, Channel, Chat, Group, User};
use geekgram::runtime::{
    LoopAction, LoopEvent, Message, MessageDeletion, NextCommand, Runtime, SendStatus, StopError,
    Update, COMMAND_BUFFER_SIZE,
};
use geekgram::storage::{Dialog, Storage};
use geekgram::tg_client_builder::{SessionSource, TgClientBuilder};

fn new_runtime() -> Runtime {
    Runtime::new(Storage::new_in_memory().unwrap())
}

fn refresh_target(id: i64) -> Chat {
    Chat::User(User { id, raw: vec![] })
}

fn message(chat_id: i64, id: i64, payload: &[u8]) -> Message {
    Message { chat_id, id, raw: payload.to_vec() }
}

#[test]
fn initial_sync_of_three_conversations() {
    let mut runtime = new_runtime();
    let dialogs = vec![
        Dialog { chat: Chat::User(User { id: 5, raw: b"alice".to_vec() }), raw: b"c1".to_vec() },
        Dialog { chat: Chat::Group(Group { id: 10, raw: b"team".to_vec() }), raw: b"c2".to_vec() },
        Dialog {
            chat: Chat::Channel(Channel { id: 20, raw: b"news".to_vec() }),
            raw: b"c3".to_vec(),
        },
    ];
    runtime.do_initial_update(&dialogs).unwrap();

    let listed = runtime.get_dialogs().unwrap();
    assert_eq!(listed.len(), 3);
    let mut keys: Vec<i64> = listed.iter().map(|d| to_bot_id(&d.chat)).collect();
    keys.sort();
    assert_eq!(keys, vec![-1_000_000_000_020, -10, 5]);
}

#[test]
fn page_and_queue_sizes_are_as_documented() {
    assert_eq!(COMMAND_BUFFER_SIZE, 10);
    assert_eq!(geekgram::runtime::MESSAGES_PORTION_SIZE, 20);
}

#[test]
fn eleventh_submission_is_held_back_until_one_is_drained() {
    let mut runtime = new_runtime();
    // Ten submissions fill the queue.
    for _ in 0..10 {
        assert!(matches!(
            runtime.start_message_refreshing(refresh_target(1)),
            SendStatus::Sent
        ));
    }
    // The queue is at capacity: the eleventh submission is not accepted
    // while the background task is blocked from draining.
    assert!(matches!(
        runtime.start_message_refreshing(refresh_target(2)),
        SendStatus::Full
    ));
    // Draining one command makes room again.
    assert!(matches!(runtime.take_next_command(), NextCommand::Command(_)));
    assert!(matches!(
        runtime.start_message_refreshing(refresh_target(2)),
        SendStatus::Sent
    ));
}

#[test]
fn commands_are_drained_oldest_first() {
    let mut runtime = new_runtime();
    assert!(matches!(runtime.take_next_command(), NextCommand::Empty));
    runtime.start_message_refreshing(refresh_target(7));
    match runtime.take_next_command() {
        NextCommand::Command(command) => {
            let geekgram::runtime::Command::RefreshMessages(chat) = command;
            assert_eq!(to_bot_id(&chat), 7);
        }
        _ => panic!("a pending command must be delivered"),
    }
}

#[test]
fn refresh_command_becomes_a_fetch_request() {
    let mut runtime = new_runtime();
    let action = runtime.update_step(LoopEvent::Command(
        geekgram::runtime::Command::RefreshMessages(refresh_target(7)),
    ));
    match action {
        LoopAction::FetchMessages(chat) => assert_eq!(to_bot_id(&chat), 7),
        _ => panic!("a refresh command must ask the loop to fetch"),
    }
}

#[test]
fn fetched_messages_are_persisted_in_order() {
    let mut runtime = new_runtime();
    let page = vec![
        message(5, 1, b"hello"),
        message(5, 2, b"world"),
        message(5, 1, b"hello, edited"),
    ];
    runtime.refresh_messages(&page);
    assert_eq!(runtime.message_payload(5, 1).unwrap(), b"hello, edited".to_vec());
    assert_eq!(runtime.message_payload(5, 2).unwrap(), b"world".to_vec());
    assert!(runtime.message_payload(5, 3).is_none());
}

#[test]
fn edit_then_delete_leaves_message_absent() {
    let mut runtime = new_runtime();
    runtime.update_step(LoopEvent::Update(Update::NewMessage(message(-10, 3, b"v1"))));
    assert_eq!(runtime.message_payload(-10, 3).unwrap(), b"v1".to_vec());

    // Two updates for the same conversation, in the order received:
    // an edit, then the deletion. The delete wins when last.
    runtime.update_step(LoopEvent::Update(Update::MessageEdited(message(-10, 3, b"v2"))));
    runtime.update_step(LoopEvent::Update(Update::MessageDeleted(MessageDeletion {
        chat_id: -10,
        id: 3,
    })));
    assert!(runtime.message_payload(-10, 3).is_none());
}

#[test]
fn unrecognized_updates_are_dropped() {
    let mut runtime = new_runtime();
    let action = runtime.update_step(LoopEvent::Update(Update::Other));
    assert!(matches!(action, LoopAction::Continue));
    let action = runtime.update_step(LoopEvent::UpdateFailed);
    assert!(matches!(action, LoopAction::Continue));
}

#[test]
fn closed_queue_ends_the_loop() {
    let mut runtime = new_runtime();
    let action = runtime.update_step(LoopEvent::CommandsClosed);
    assert!(matches!(action, LoopAction::Exit));
}

#[test]
fn shutdown_is_terminal_and_a_second_call_is_rejected() {
    let mut runtime = new_runtime();
    runtime.update_step(LoopEvent::Update(Update::NewMessage(message(5, 1, b"kept"))));
    runtime.stop().unwrap();

    // No further background activity: every event answers Exit and
    // changes nothing.
    let action = runtime.update_step(LoopEvent::Update(Update::MessageDeleted(
        MessageDeletion { chat_id: 5, id: 1 },
    )));
    assert!(matches!(action, LoopAction::Exit));
    assert_eq!(runtime.message_payload(5, 1).unwrap(), b"kept".to_vec());

    // Submissions find the queue closed.
    assert!(matches!(
        runtime.start_message_refreshing(refresh_target(1)),
        SendStatus::Closed
    ));

    // A second shutdown is rejected.
    assert!(matches!(runtime.stop(), Err(StopError::AlreadyStopped)));
}

#[test]
fn pending_commands_survive_shutdown_until_drained() {
    let mut runtime = new_runtime();
    runtime.start_message_refreshing(refresh_target(1));
    runtime.stop().unwrap();
    // A command submitted before shutdown is still delivered, then the
    // queue reports itself closed and drained.
    assert!(matches!(runtime.take_next_command(), NextCommand::Command(_)));
    assert!(matches!(runtime.take_next_command(), NextCommand::Disconnected));
}

#[test]
fn session_choice_reuses_stored_material() {
    match TgClientBuilder::choose_session(Some(b"blob".to_vec())) {
        SessionSource::Stored(data) => assert_eq!(data, b"blob".to_vec()),
        SessionSource::Fresh => panic!("stored session material must be reused"),
    }
    assert!(matches!(
        TgClientBuilder::choose_session(None),
        SessionSource::Fresh
    ));
}
