//! The persistent cache: participant, conversation, and session entities in
//! five SQLite tables, behind the unified identity scheme.
//!
//! The three participant ID spaces overlap in their native form, so
//! participants live in three separate tables keyed by native ID, while each
//! conversation row is keyed by the unified identity of its participant.
//! Reconstructing a conversation reads the row's frame back to learn which
//! participant it references, loads that participant from the right table,
//! and verifies that the recomputed unified identity equals the row key — a
//! mismatch is on-disk corruption, surfaced as an error and never repaired.

use vstd::prelude::*;

use crate::db::{
    create_blob_table, lemma_cache_tables_distinct, no_rows, open_connection,
    open_in_memory_connection, select_all_blob_rows, select_blob_row, table_rows, upsert_blob_row,
};
use crate::identity::{to_bot_id, Channel, Chat, Group, User};
use crate::record::{
    decode_record, encode_record, lemma_record_round_trip, parse_record, peer_bot_id,
    record_bytes, Peer,
};

verus! {

/// The fixed key of the single session row.
pub const SESSION_ROW_ID: i64 = 1;

/// How a cache operation fails.
#[derive(Clone, Copy, Debug)]
pub enum CacheError {
    /// A stored payload failed to decode, a conversation row's recomputed
    /// unified identity does not match the key it was stored under, or a
    /// conversation references a participant that no table holds.
    Corrupted,
    /// The underlying storage failed; surfaced transparently.
    StorageIo,
}

/// A conversation: a participant paired with the opaque conversation
/// descriptor produced by the remote service's codec.
#[derive(Clone)]
pub struct Dialog {
    pub chat: Chat,
    pub raw: Vec<u8>,
}

/// A snapshot of the five tables, for specifications.
#[verifier::ext_equal]
pub ghost struct CacheTables {
    pub users: Map<i64, Seq<u8>>,
    pub groups: Map<i64, Seq<u8>>,
    pub channels: Map<i64, Seq<u8>>,
    pub dialogs: Map<i64, Seq<u8>>,
    pub session: Map<i64, Seq<u8>>,
}

/// The unified identity of a participant, as the `i64` row key it is stored
/// under.
pub open spec fn unified_key(chat: Chat) -> i64 {
    chat.unified_id() as i64
}

/// The native ID a peer reference points at, as the `i64` row key of its
/// participant table.
pub open spec fn native_key(peer: Peer) -> i64 {
    peer.native_id() as i64
}

impl CacheTables {
    /// An empty cache: every table holds no rows.
    pub open spec fn empty() -> CacheTables {
        CacheTables {
            users: no_rows(),
            groups: no_rows(),
            channels: no_rows(),
            dialogs: no_rows(),
            session: no_rows(),
        }
    }

    /// The participant table a peer reference points into.
    pub open spec fn participant_rows(self, peer: Peer) -> Map<i64, Seq<u8>> {
        match peer {
            Peer::User(_) => self.users,
            Peer::Group(_) => self.groups,
            Peer::Channel(_) => self.channels,
        }
    }

    /// The cache after upserting a user by native ID.
    pub open spec fn with_user(self, user: User) -> CacheTables {
        CacheTables { users: self.users.insert(user.id, user.raw@), ..self }
    }

    /// The cache after upserting a group by native ID.
    pub open spec fn with_group(self, group: Group) -> CacheTables {
        CacheTables { groups: self.groups.insert(group.id, group.raw@), ..self }
    }

    /// The cache after upserting a channel by native ID.
    pub open spec fn with_channel(self, channel: Channel) -> CacheTables {
        CacheTables { channels: self.channels.insert(channel.id, channel.raw@), ..self }
    }

    /// The cache after upserting a participant into the table of its kind.
    pub open spec fn with_chat(self, chat: Chat) -> CacheTables {
        match chat {
            Chat::User(u) => self.with_user(u),
            Chat::Group(g) => self.with_group(g),
            Chat::Channel(c) => self.with_channel(c),
        }
    }

    /// The cache after saving a conversation: first its participant, then
    /// the framed conversation row keyed by the unified identity.
    pub open spec fn with_dialog(self, dialog: Dialog) -> CacheTables {
        let t = self.with_chat(dialog.chat);
        CacheTables {
            dialogs: t.dialogs.insert(
                unified_key(dialog.chat),
                record_bytes(dialog.chat.peer(), dialog.raw@),
            ),
            ..t
        }
    }

    /// The cache after upserting the single session row.
    pub open spec fn with_session(self, data: Seq<u8>) -> CacheTables {
        CacheTables { session: self.session.insert(SESSION_ROW_ID, data), ..self }
    }
}

/// The conversation row keyed `k` is intact: its frame parses, the unified
/// identity recomputed from the referenced participant equals `k`, and the
/// participant's table holds that participant.
pub open spec fn row_wf(t: CacheTables, k: i64) -> bool {
    match parse_record(t.dialogs[k]) {
        Some(pp) => pp.0.unified_id() == k as int && t.participant_rows(pp.0).contains_key(
            native_key(pp.0),
        ),
        None => false,
    }
}

/// The identity invariant of the whole cache: every stored conversation row
/// is intact.
pub open spec fn consistent(t: CacheTables) -> bool {
    forall|k: i64| t.dialogs.contains_key(k) ==> #[trigger] row_wf(t, k)
}

/// `d` is the conversation reconstructed from the row it is keyed under in
/// `t`: the row's frame carries `d`'s participant reference and descriptor,
/// and `d`'s participant carries exactly the payload its table stores.
pub open spec fn reconstructs_row(t: CacheTables, d: Dialog) -> bool {
    &&& d.chat.is_valid()
    &&& t.dialogs.contains_key(unified_key(d.chat))
    &&& parse_record(t.dialogs[unified_key(d.chat)]) == Some((d.chat.peer(), d.raw@))
    &&& t.participant_rows(d.chat.peer()).contains_key(native_key(d.chat.peer()))
    &&& d.chat.raw_bytes() == t.participant_rows(d.chat.peer())[native_key(d.chat.peer())]
}

/// `ds` is a full listing of the conversations of `t`: each entry is
/// reconstructed from its own row, no two entries share a row, and every
/// stored row is listed. The order of entries is storage-iteration order and
/// is not specified.
pub open spec fn listing_of(t: CacheTables, ds: Seq<Dialog>) -> bool {
    &&& forall|i: int| 0 <= i < ds.len() ==> reconstructs_row(t, #[trigger] ds[i])
    &&& forall|i: int, j: int|
        #![trigger ds[i], ds[j]]
        0 <= i < j < ds.len() ==> unified_key(ds[i].chat) != unified_key(ds[j].chat)
    &&& forall|k: i64|
        t.dialogs.contains_key(k) ==> exists|i: int|
            0 <= i < ds.len() && unified_key(#[trigger] ds[i].chat) == k
}

/// The cache after a sequence of conversations is saved, in order: the
/// effect of the initial bulk synchronization.
pub open spec fn apply_dialogs(t: CacheTables, ds: Seq<Dialog>) -> CacheTables
    decreases ds.len(),
{
    if ds.len() == 0 {
        t
    } else {
        apply_dialogs(t, ds.drop_last()).with_dialog(ds.last())
    }
}

/// The persistent cache. All calls are synchronous and assumed to run under
/// a caller-held lock; the runtime coordinator is that caller.
pub struct Storage {
    connection: rusqlite::Connection,
}

impl Storage {
    /// The five tables this store currently holds.
    pub closed spec fn tables(self) -> CacheTables {
        CacheTables {
            users: table_rows(self.connection, "users"@),
            groups: table_rows(self.connection, "groups"@),
            channels: table_rows(self.connection, "channels"@),
            dialogs: table_rows(self.connection, "dialogs"@),
            session: table_rows(self.connection, "session"@),
        }
    }

    /// Opens (creating them if absent) the five tables in the database file
    /// at `db_file_path`. The contents are whatever the file already holds,
    /// so nothing is promised of them; schema creation is idempotent and
    /// never destructive.
    pub fn new(db_file_path: &str) -> (r: Result<Storage, CacheError>)
        ensures
            r matches Err(e) ==> e is StorageIo,
    {
        let connection = match open_connection(db_file_path) {
            Ok(c) => c,
            Err(_) => {
                return Err(CacheError::StorageIo);
            },
        };
        let mut storage = Storage { connection };
        match storage.ensure_schema() {
            Ok(_) => Ok(storage),
            Err(e) => Err(e),
        }
    }

    /// Opens an empty in-memory cache with the five tables created.
    pub fn new_in_memory() -> (r: Result<Storage, CacheError>)
        ensures
            r matches Ok(s) ==> s.tables() == CacheTables::empty(),
            r matches Err(e) ==> e is StorageIo,
    {
        let connection = match open_in_memory_connection() {
            Ok(c) => c,
            Err(_) => {
                return Err(CacheError::StorageIo);
            },
        };
        let mut storage = Storage { connection };
        match storage.ensure_schema() {
            Ok(_) => {
                proof {
                    assert(storage.tables() =~= CacheTables::empty());
                }
                Ok(storage)
            },
            Err(e) => Err(e),
        }
    }

    /// Idempotently creates the five tables if absent; never destructive:
    /// every table's rows are preserved.
    fn ensure_schema(&mut self) -> (r: Result<(), CacheError>)
        ensures
            final(self).tables() == old(self).tables(),
            r matches Err(e) ==> e is StorageIo,
    {
        if create_blob_table(&mut self.connection, "users").is_err() {
            return Err(CacheError::StorageIo);
        }
        if create_blob_table(&mut self.connection, "groups").is_err() {
            return Err(CacheError::StorageIo);
        }
        if create_blob_table(&mut self.connection, "channels").is_err() {
            return Err(CacheError::StorageIo);
        }
        if create_blob_table(&mut self.connection, "dialogs").is_err() {
            return Err(CacheError::StorageIo);
        }
        if create_blob_table(&mut self.connection, "session").is_err() {
            return Err(CacheError::StorageIo);
        }
        Ok(())
    }

    /// Upserts a user by native ID: last write wins, no merge.
    pub fn save_user(&mut self, user: &User) -> (r: Result<(), CacheError>)
        ensures
            r is Ok ==> final(self).tables() == old(self).tables().with_user(*user),
            r is Err ==> final(self).tables() == old(self).tables(),
            r matches Err(e) ==> e is StorageIo,
    {
        proof {
            lemma_cache_tables_distinct();
        }
        match upsert_blob_row(&mut self.connection, "users", user.id, &user.raw) {
            Ok(_) => {
                proof {
                    assert(self.tables() =~= old(self).tables().with_user(*user));
                }
                Ok(())
            },
            Err(_) => {
                proof {
                    assert(self.tables() =~= old(self).tables());
                }
                Err(CacheError::StorageIo)
            },
        }
    }

    /// Upserts a group by native ID: last write wins, no merge.
    pub fn save_group(&mut self, group: &Group) -> (r: Result<(), CacheError>)
        ensures
            r is Ok ==> final(self).tables() == old(self).tables().with_group(*group),
            r is Err ==> final(self).tables() == old(self).tables(),
            r matches Err(e) ==> e is StorageIo,
    {
        proof {
            lemma_cache_tables_distinct();
        }
        match upsert_blob_row(&mut self.connection, "groups", group.id, &group.raw) {
            Ok(_) => {
                proof {
                    assert(self.tables() =~= old(self).tables().with_group(*group));
                }
                Ok(())
            },
            Err(_) => {
                proof {
                    assert(self.tables() =~= old(self).tables());
                }
                Err(CacheError::StorageIo)
            },
        }
    }

    /// Upserts a channel by native ID: last write wins, no merge.
    pub fn save_channel(&mut self, channel: &Channel) -> (r: Result<(), CacheError>)
        ensures
            r is Ok ==> final(self).tables() == old(self).tables().with_channel(*channel),
            r is Err ==> final(self).tables() == old(self).tables(),
            r matches Err(e) ==> e is StorageIo,
    {
        proof {
            lemma_cache_tables_distinct();
        }
        match upsert_blob_row(&mut self.connection, "channels", channel.id, &channel.raw) {
            Ok(_) => {
                proof {
                    assert(self.tables() =~= old(self).tables().with_channel(*channel));
                }
                Ok(())
            },
            Err(_) => {
                proof {
                    assert(self.tables() =~= old(self).tables());
                }
                Err(CacheError::StorageIo)
            },
        }
    }

    /// Upserts a participant into the table of its kind.
    fn save_chat(&mut self, chat: &Chat) -> (r: Result<(), CacheError>)
        requires
            chat.is_valid(),
        ensures
            r is Ok ==> final(self).tables() == old(self).tables().with_chat(*chat),
            r is Err ==> final(self).tables() == old(self).tables(),
            r matches Err(e) ==> e is StorageIo,
    {
        match chat {
            Chat::User(usr) => self.save_user(usr),
            Chat::Group(grp) => self.save_group(grp),
            Chat::Channel(chn) => self.save_channel(chn),
        }
    }

    /// Saves a conversation: first its participant, then the framed
    /// conversation row keyed by the participant's unified identity. The two
    /// writes are sequential, participant first, so a failure after the
    /// first write leaves a conversation row whose participant is loadable
    /// from the completed save.
    pub fn save_dialog(&mut self, dialog: &Dialog) -> (r: Result<(), CacheError>)
        requires
            dialog.chat.is_valid(),
        ensures
            r is Ok ==> final(self).tables() == old(self).tables().with_dialog(*dialog),
            r is Err ==> final(self).tables() == old(self).tables() || final(self).tables()
                == old(self).tables().with_chat(dialog.chat),
            r matches Err(e) ==> e is StorageIo,
    {
        proof {
            lemma_cache_tables_distinct();
        }
        match self.save_chat(&dialog.chat) {
            Ok(_) => {},
            Err(e) => {
                return Err(e);
            },
        }
        let peer = dialog.chat.as_peer();
        let record = encode_record(&peer, &dialog.raw);
        let key = to_bot_id(&dialog.chat);
        match upsert_blob_row(&mut self.connection, "dialogs", key, &record) {
            Ok(_) => {
                proof {
                    assert(self.tables() =~= old(self).tables().with_dialog(*dialog));
                }
                Ok(())
            },
            Err(_) => {
                proof {
                    assert(self.tables() =~= old(self).tables().with_chat(dialog.chat));
                }
                Err(CacheError::StorageIo)
            },
        }
    }

    /// Loads the user stored under a native ID; an absent row is corruption
    /// from this caller's point of view, since only a conversation row could
    /// have referenced it.
    fn load_user(&self, user_id: i64) -> (r: Result<User, CacheError>)
        ensures
            r matches Ok(u) ==> u.id == user_id && self.tables().users.contains_key(user_id)
                && u.raw@ == self.tables().users[user_id],
            r matches Err(e) ==> (e is Corrupted ==> !self.tables().users.contains_key(user_id)),
    {
        match select_blob_row(&self.connection, "users", user_id) {
            Ok(Some(data)) => Ok(User { id: user_id, raw: data }),
            Ok(None) => Err(CacheError::Corrupted),
            Err(_) => Err(CacheError::StorageIo),
        }
    }

    /// Loads the group stored under a native ID.
    fn load_group(&self, group_id: i64) -> (r: Result<Group, CacheError>)
        ensures
            r matches Ok(g) ==> g.id == group_id && self.tables().groups.contains_key(group_id)
                && g.raw@ == self.tables().groups[group_id],
            r matches Err(e) ==> (e is Corrupted ==> !self.tables().groups.contains_key(
                group_id,
            )),
    {
        match select_blob_row(&self.connection, "groups", group_id) {
            Ok(Some(data)) => Ok(Group { id: group_id, raw: data }),
            Ok(None) => Err(CacheError::Corrupted),
            Err(_) => Err(CacheError::StorageIo),
        }
    }

    /// Loads the channel stored under a native ID.
    fn load_channel(&self, channel_id: i64) -> (r: Result<Channel, CacheError>)
        ensures
            r matches Ok(c) ==> c.id == channel_id && self.tables().channels.contains_key(
                channel_id,
            ) && c.raw@ == self.tables().channels[channel_id],
            r matches Err(e) ==> (e is Corrupted ==> !self.tables().channels.contains_key(
                channel_id,
            )),
    {
        match select_blob_row(&self.connection, "channels", channel_id) {
            Ok(Some(data)) => Ok(Channel { id: channel_id, raw: data }),
            Ok(None) => Err(CacheError::Corrupted),
            Err(_) => Err(CacheError::StorageIo),
        }
    }

    /// Loads the participant a peer reference points at, from the table of
    /// its kind. The three ID spaces overlap in their native form, so the
    /// reference's kind decides the table.
    fn load_chat(&self, peer: &Peer) -> (r: Result<Chat, CacheError>)
        requires
            peer.is_valid(),
        ensures
            r matches Ok(chat) ==> chat.peer() == *peer && chat.is_valid()
                && self.tables().participant_rows(*peer).contains_key(native_key(*peer))
                && chat.raw_bytes() == self.tables().participant_rows(*peer)[native_key(*peer)],
            r matches Err(e) ==> (e is Corrupted ==> !self.tables().participant_rows(
                *peer,
            ).contains_key(native_key(*peer))),
    {
        match peer {
            Peer::User(user_id) => match self.load_user(*user_id) {
                Ok(u) => Ok(Chat::User(u)),
                Err(e) => Err(e),
            },
            Peer::Group(group_id) => match self.load_group(*group_id) {
                Ok(g) => Ok(Chat::Group(g)),
                Err(e) => Err(e),
            },
            Peer::Channel(channel_id) => match self.load_channel(*channel_id) {
                Ok(c) => Ok(Chat::Channel(c)),
                Err(e) => Err(e),
            },
        }
    }

    /// Reads every conversation row, reconstructs each composite
    /// conversation from its participant table, and verifies the identity
    /// invariant; the whole call fails with `Corrupted` on the first
    /// malformed row, identity mismatch, or missing participant. Entries
    /// come back in storage-iteration order; no order is promised.
    pub fn select_all_dialogs(&self) -> (r: Result<Vec<Dialog>, CacheError>)
        ensures
            r matches Ok(ds) ==> listing_of(self.tables(), ds@),
            r is Ok ==> consistent(self.tables()),
            r matches Err(e) ==> (e is Corrupted ==> !consistent(self.tables())),
    {
        let t = Ghost(self.tables());
        let rows = match select_all_blob_rows(&self.connection, "dialogs") {
            Ok(rows) => rows,
            Err(_) => {
                return Err(CacheError::StorageIo);
            },
        };
        let mut result: Vec<Dialog> = Vec::new();
        let mut idx: usize = 0;
        while idx < rows.len()
            invariant
                0 <= idx <= rows@.len(),
                result@.len() == idx,
                t@ == self.tables(),
                forall|i: int|
                    0 <= i < rows@.len() ==> t@.dialogs.contains_key(#[trigger] rows@[i].0)
                        && rows@[i].1@ == t@.dialogs[rows@[i].0],
                forall|i: int, j: int|
                    #![trigger rows@[i].0, rows@[j].0]
                    0 <= i < j < rows@.len() ==> rows@[i].0 != rows@[j].0,
                forall|k: i64|
                    t@.dialogs.contains_key(k) ==> exists|i: int|
                        0 <= i < rows@.len() && #[trigger] rows@[i].0 == k,
                forall|i: int|
                    0 <= i < idx ==> unified_key(#[trigger] result@[i].chat) == rows@[i].0
                        && reconstructs_row(t@, result@[i]),
            decreases rows@.len() - idx,
        {
            let row_id = rows[idx].0;
            let data = &rows[idx].1;
            let decoded = decode_record(data);
            let (peer, payload) = match decoded {
                Some(pp) => pp,
                None => {
                    proof {
                        assert(!row_wf(t@, row_id));
                        assert(!consistent(t@));
                    }
                    return Err(CacheError::Corrupted);
                },
            };
            let recomputed = peer_bot_id(&peer);
            if recomputed != row_id {
                proof {
                    assert(!row_wf(t@, row_id));
                    assert(!consistent(t@));
                }
                return Err(CacheError::Corrupted);
            }
            let chat = match self.load_chat(&peer) {
                Ok(chat) => chat,
                Err(e) => {
                    proof {
                        if e is Corrupted {
                            assert(!row_wf(t@, row_id));
                            assert(!consistent(t@));
                        }
                    }
                    return Err(e);
                },
            };
            result.push(Dialog { chat, raw: payload });
            idx = idx + 1;
        }
        proof {
            assert forall|i: int| 0 <= i < result@.len() implies reconstructs_row(
                t@,
                #[trigger] result@[i],
            ) by {
                assert(unified_key(result@[i].chat) == rows@[i].0);
            }
            assert forall|i: int, j: int|
                #![trigger result@[i], result@[j]]
                0 <= i < j < result@.len() implies unified_key(result@[i].chat) != unified_key(
                result@[j].chat,
            ) by {
                assert(unified_key(result@[i].chat) == rows@[i].0);
                assert(unified_key(result@[j].chat) == rows@[j].0);
            }
            assert forall|k: i64| t@.dialogs.contains_key(k) implies exists|i: int|
                0 <= i < result@.len() && unified_key(#[trigger] result@[i].chat) == k by {
                let i = choose|i: int| 0 <= i < rows@.len() && #[trigger] rows@[i].0 == k;
                assert(unified_key(result@[i].chat) == k);
            }
            assert(listing_of(t@, result@));
            assert forall|k: i64| t@.dialogs.contains_key(k) implies #[trigger] row_wf(t@, k) by {
                let i = choose|i: int| 0 <= i < rows@.len() && #[trigger] rows@[i].0 == k;
                assert(reconstructs_row(t@, result@[i]));
                assert(unified_key(result@[i].chat) == k);
            }
        }
        Ok(result)
    }

    /// Reads the single session row; `None` is the normal "first run"
    /// signal, not a corruption error.
    pub fn load_session(&self) -> (r: Result<Option<Vec<u8>>, CacheError>)
        ensures
            r matches Ok(row) ==> match row {
                Some(data) => self.tables().session.contains_key(SESSION_ROW_ID) && data@
                    == self.tables().session[SESSION_ROW_ID],
                None => !self.tables().session.contains_key(SESSION_ROW_ID),
            },
            r matches Err(e) ==> e is StorageIo,
    {
        match select_blob_row(&self.connection, "session", SESSION_ROW_ID) {
            Ok(row) => Ok(row),
            Err(_) => Err(CacheError::StorageIo),
        }
    }

    /// Upserts the single session row: at most one row ever exists, under a
    /// fixed key.
    pub fn save_session(&mut self, session: &Vec<u8>) -> (r: Result<(), CacheError>)
        ensures
            r is Ok ==> final(self).tables() == old(self).tables().with_session(session@),
            r is Err ==> final(self).tables() == old(self).tables(),
            r matches Err(e) ==> e is StorageIo,
    {
        proof {
            lemma_cache_tables_distinct();
        }
        match upsert_blob_row(&mut self.connection, "session", SESSION_ROW_ID, session) {
            Ok(_) => {
                proof {
                    assert(self.tables() =~= old(self).tables().with_session(session@));
                }
                Ok(())
            },
            Err(_) => {
                proof {
                    assert(self.tables() =~= old(self).tables());
                }
                Err(CacheError::StorageIo)
            },
        }
    }
}

/// Law: participant saves are last-write-wins. Saving two participants of
/// the same kind and native ID leaves only the second payload retrievable,
/// exactly as if the first save never happened.
pub proof fn lemma_participant_last_write_wins(t: CacheTables, first: Chat, second: Chat)
    requires
        first.peer() == second.peer(),
    ensures
        t.with_chat(first).with_chat(second) == t.with_chat(second),
        t.with_chat(second).participant_rows(second.peer())[native_key(second.peer())]
            == second.raw_bytes(),
{
    assert(t.with_chat(first).with_chat(second) =~= t.with_chat(second));
}

/// Law: round trip. After a conversation is saved, any full listing of the
/// cache contains an entry whose unified identity equals the saved
/// participant's, with that participant's kind, native ID, descriptor, and
/// the saved conversation payload.
pub proof fn lemma_save_then_list_round_trip(t: CacheTables, d: Dialog, listed: Seq<Dialog>)
    requires
        d.chat.is_valid(),
        listing_of(t.with_dialog(d), listed),
    ensures
        exists|i: int|
            0 <= i < listed.len() && (#[trigger] listed[i]).chat.unified_id()
                == d.chat.unified_id() && listed[i].chat.peer() == d.chat.peer()
                && listed[i].chat.raw_bytes() == d.chat.raw_bytes() && listed[i].raw@ == d.raw@,
{
    let t1 = t.with_dialog(d);
    let k = unified_key(d.chat);
    assert(t1.dialogs.contains_key(k));
    let i = choose|i: int| 0 <= i < listed.len() && unified_key(#[trigger] listed[i].chat) == k;
    assert(reconstructs_row(t1, listed[i]));
    lemma_record_round_trip(d.chat.peer(), d.raw@);
    assert(t1.dialogs[k] == record_bytes(d.chat.peer(), d.raw@));
    assert(parse_record(t1.dialogs[k]) == Some((d.chat.peer(), d.raw@)));
    assert(listed[i].chat.peer() == d.chat.peer() && listed[i].raw@ == d.raw@);
    assert(t1.participant_rows(d.chat.peer())[native_key(d.chat.peer())] == d.chat.raw_bytes());
}

/// Law: corruption detection. No full listing exists for a cache whose
/// identity invariant is broken — a listing call can only surface an error,
/// never return a mismatched entity.
pub proof fn lemma_corruption_detected(t: CacheTables, listed: Seq<Dialog>)
    requires
        !consistent(t),
    ensures
        !listing_of(t, listed),
{
    if listing_of(t, listed) {
        assert forall|k: i64| t.dialogs.contains_key(k) implies #[trigger] row_wf(t, k) by {
            let i = choose|i: int|
                0 <= i < listed.len() && unified_key(#[trigger] listed[i].chat) == k;
            assert(reconstructs_row(t, listed[i]));
        }
        assert(consistent(t));
    }
}

} // verus!
