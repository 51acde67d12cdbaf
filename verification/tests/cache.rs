//! The persistent cache against a real SQLite store: round trips,
//! last-write-wins, corruption detection, and the session row.

use geekgram::identity::{to_bot_id, Channel, Chat, Group, User};
use geekgram::storage::{CacheError, Dialog, Storage};

fn user_dialog(id: i64, participant: &[u8], conversation: &[u8]) -> Dialog {
    Dialog {
        chat: Chat::User(User { id, raw: participant.to_vec() }),
        raw: conversation.to_vec(),
    }
}

#[test]
fn save_then_list_round_trips() {
    let mut storage = Storage::new_in_memory().unwrap();
    let dialog = user_dialog(5, b"alice", b"unread:2");
    storage.save_dialog(&dialog).unwrap();

    let listed = storage.select_all_dialogs().unwrap();
    assert_eq!(listed.len(), 1);
    assert_eq!(to_bot_id(&listed[0].chat), to_bot_id(&dialog.chat));
    match &listed[0].chat {
        Chat::User(u) => {
            assert_eq!(u.id, 5);
            assert_eq!(u.raw, b"alice".to_vec());
        }
        _ => panic!("participant kind changed in the round trip"),
    }
    assert_eq!(listed[0].raw, b"unread:2".to_vec());
}

#[test]
fn group_and_channel_round_trip() {
    let mut storage = Storage::new_in_memory().unwrap();
    storage
        .save_dialog(&Dialog {
            chat: Chat::Group(Group { id: 10, raw: b"team".to_vec() }),
            raw: b"muted".to_vec(),
        })
        .unwrap();
    storage
        .save_dialog(&Dialog {
            chat: Chat::Channel(Channel { id: 20, raw: b"news".to_vec() }),
            raw: b"pinned".to_vec(),
        })
        .unwrap();

    let mut keys: Vec<i64> = storage
        .select_all_dialogs()
        .unwrap()
        .iter()
        .map(|d| to_bot_id(&d.chat))
        .collect();
    keys.sort();
    assert_eq!(keys, vec![-1_000_000_000_020, -10]);
}

#[test]
fn participant_save_is_last_write_wins() {
    let mut storage = Storage::new_in_memory().unwrap();
    storage.save_dialog(&user_dialog(5, b"first payload", b"conv")).unwrap();
    // A later save of the same native ID with a different payload replaces
    // the stored one; only the latest is retrievable.
    storage.save_user(&User { id: 5, raw: b"second payload".to_vec() }).unwrap();

    let listed = storage.select_all_dialogs().unwrap();
    assert_eq!(listed.len(), 1);
    match &listed[0].chat {
        Chat::User(u) => assert_eq!(u.raw, b"second payload".to_vec()),
        _ => panic!("participant kind changed"),
    }
}

#[test]
fn saving_same_conversation_twice_keeps_one_row() {
    let mut storage = Storage::new_in_memory().unwrap();
    storage.save_dialog(&user_dialog(5, b"a", b"old")).unwrap();
    storage.save_dialog(&user_dialog(5, b"a", b"new")).unwrap();
    let listed = storage.select_all_dialogs().unwrap();
    assert_eq!(listed.len(), 1);
    assert_eq!(listed[0].raw, b"new".to_vec());
}

/// Opens a fresh file-backed store at `path`, clearing rows left over from
/// an earlier run of the same test binary.
fn fresh_file_store(path: &str) -> Storage {
    {
        // First open creates the schema if the file is new.
        let _ = Storage::new(path).unwrap();
    }
    let connection = rusqlite::Connection::open(path).unwrap();
    for table in ["users", "groups", "channels", "dialogs", "session"] {
        connection
            .execute(&format!("DELETE FROM {};", table), ())
            .unwrap();
    }
    drop(connection);
    Storage::new(path).unwrap()
}

#[test]
fn corrupted_participant_reference_is_detected() {
    let path = "/tmp/geekgram_test_corrupt_reference.db";
    let mut storage = fresh_file_store(path);
    storage.save_dialog(&user_dialog(5, b"alice", b"conv")).unwrap();
    drop(storage);

    // Rewrite the stored row so its frame references user 6 instead of
    // user 5: the recomputed unified identity no longer matches the key.
    let mut tampered: Vec<u8> = vec![0u8, 6, 0, 0, 0, 0, 0, 0, 0];
    tampered.extend_from_slice(b"conv");
    let connection = rusqlite::Connection::open(path).unwrap();
    connection
        .execute("UPDATE dialogs SET data=? WHERE id=5;", (tampered,))
        .unwrap();
    drop(connection);

    let storage = Storage::new(path).unwrap();
    let result = storage.select_all_dialogs();
    assert!(matches!(result, Err(CacheError::Corrupted)));
}

#[test]
fn undecodable_conversation_row_is_detected() {
    let path = "/tmp/geekgram_test_corrupt_frame.db";
    let mut storage = fresh_file_store(path);
    storage.save_dialog(&user_dialog(5, b"alice", b"conv")).unwrap();
    drop(storage);

    let connection = rusqlite::Connection::open(path).unwrap();
    connection
        .execute("UPDATE dialogs SET data=? WHERE id=5;", (vec![9u8, 9, 9],))
        .unwrap();
    drop(connection);

    let storage = Storage::new(path).unwrap();
    assert!(matches!(storage.select_all_dialogs(), Err(CacheError::Corrupted)));
}

#[test]
fn missing_participant_is_detected() {
    let path = "/tmp/geekgram_test_missing_participant.db";
    let mut storage = fresh_file_store(path);
    storage.save_dialog(&user_dialog(5, b"alice", b"conv")).unwrap();
    drop(storage);

    let connection = rusqlite::Connection::open(path).unwrap();
    connection.execute("DELETE FROM users;", ()).unwrap();
    drop(connection);

    let storage = Storage::new(path).unwrap();
    assert!(matches!(storage.select_all_dialogs(), Err(CacheError::Corrupted)));
}

#[test]
fn storage_failure_is_surfaced_as_io() {
    let result = Storage::new("/nonexistent-directory-for-this-test/cache.db");
    assert!(matches!(result, Err(CacheError::StorageIo)));
}

#[test]
fn session_is_a_single_upserted_row() {
    let mut storage = Storage::new_in_memory().unwrap();
    // First run: no session was ever saved.
    assert!(storage.load_session().unwrap().is_none());

    storage.save_session(&b"first session".to_vec()).unwrap();
    assert_eq!(storage.load_session().unwrap().unwrap(), b"first session".to_vec());

    // Every successful client construction overwrites the single row.
    storage.save_session(&b"renewed session".to_vec()).unwrap();
    assert_eq!(storage.load_session().unwrap().unwrap(), b"renewed session".to_vec());
}

#[test]
fn listing_an_empty_cache_is_empty() {
    let storage = Storage::new_in_memory().unwrap();
    assert_eq!(storage.select_all_dialogs().unwrap().len(), 0);
}
