//! The runtime coordinator.
//!
//! A single coordinator owns the persistent cache and a per-conversation
//! message ledger, and arbitrates between two unordered event sources: user
//! commands arriving on a bounded queue, and remote update notifications
//! from the external collaborator. The waiting itself — racing the two
//! sources and performing remote fetches — is the embedding program's job;
//! every decision and every application of an event to the cache or ledger
//! is made here, one event at a time, by `update_step` and its helpers.
//!
//! Shutdown closes the command queue; the event loop observes the closed
//! queue, `update_step` answers `Exit`, and from then on no event changes
//! any state.

use vstd::prelude::*;

use crate::identity::Chat;
use crate::storage::{apply_dialogs, listing_of, CacheError, CacheTables, Dialog, Storage};

verus! {

/// Capacity of the bounded command queue: a burst of more than this many
/// outstanding refresh requests stalls the submitter until one is drained.
pub const COMMAND_BUFFER_SIZE: usize = 10;

/// How many messages one refresh fetches per page.
pub const MESSAGES_PORTION_SIZE: usize = 20;

/// A message of a conversation's ledger: the conversation's unified
/// identity, the message's identity within it, and the opaque serialized
/// message payload.
#[derive(Clone)]
pub struct Message {
    pub chat_id: i64,
    pub id: i64,
    pub raw: Vec<u8>,
}

/// Which message of which conversation a deletion names.
#[derive(Clone, Copy)]
pub struct MessageDeletion {
    pub chat_id: i64,
    pub id: i64,
}

/// A remote update notification from the collaborator.
#[derive(Clone)]
pub enum Update {
    NewMessage(Message),
    MessageEdited(Message),
    MessageDeleted(MessageDeletion),
    /// An unrecognized kind: dropped without effect.
    Other,
}

/// A user-initiated request queued to the background task.
#[derive(Clone)]
pub enum Command {
    RefreshMessages(Chat),
}

/// What the event loop's race resolved to: a queued command, the queue's
/// closure, a remote update, or a failed attempt to receive one.
pub enum LoopEvent {
    Command(Command),
    CommandsClosed,
    Update(Update),
    UpdateFailed,
}

/// What the event loop must do after a step: fetch one page of messages for
/// a conversation and hand them to `refresh_messages`, keep looping, or
/// exit.
pub enum LoopAction {
    FetchMessages(Chat),
    Continue,
    Exit,
}

/// Outcome of submitting a command. `Full` is backpressure, not an error:
/// the submitter must wait until the background task drains a command.
/// `Closed` says the coordinator is shutting down; the submission is a
/// no-op to ignore.
#[derive(Clone, Copy, Debug)]
pub enum SendStatus {
    Sent,
    Full,
    Closed,
}

/// Outcome of draining the command queue: the oldest pending command, or
/// nothing yet, or the queue is closed and drained — the loop's exit
/// condition.
pub enum NextCommand {
    Command(Command),
    Empty,
    Disconnected,
}

/// The coordinator's lifecycle.
#[derive(Clone, Copy, Debug)]
pub enum RunState {
    /// Constructed; the initial bulk synchronization has not completed.
    Initializing,
    /// Steady state: events are arbitrated and applied.
    Serving,
    /// Terminal: the coordinator is not reusable.
    Stopped,
}

/// Rejection of a repeated shutdown: the coordinator was already stopped.
#[derive(Clone, Copy, Debug)]
pub enum StopError {
    AlreadyStopped,
}

/// One stored row of the in-memory message ledger.
struct MessageRow {
    chat_id: i64,
    msg_id: i64,
    raw: Vec<u8>,
}

/// The ledger a row sequence denotes: later rows win over earlier ones with
/// the same key, exactly as upserts applied in order.
spec fn ledger_map(s: Seq<MessageRow>) -> Map<(i64, i64), Seq<u8>>
    decreases s.len(),
{
    if s.len() == 0 {
        Map::empty()
    } else {
        ledger_map(s.drop_last()).insert((s.last().chat_id, s.last().msg_id), s.last().raw@)
    }
}

/// Skipping a row with another key changes nothing at `k`.
proof fn lemma_ledger_skip_last(s: Seq<MessageRow>, k: (i64, i64))
    requires
        s.len() > 0,
        (s.last().chat_id, s.last().msg_id) != k,
    ensures
        ledger_map(s).contains_key(k) == ledger_map(s.drop_last()).contains_key(k),
        ledger_map(s).contains_key(k) ==> ledger_map(s)[k] == ledger_map(s.drop_last())[k],
{
}

/// An empty message ledger.
pub open spec fn no_messages() -> Map<(i64, i64), Seq<u8>> {
    Map::empty()
}

/// What one remote update does to the message ledger: new and edited
/// messages are idempotent upserts keyed by message identity, a deletion
/// removes that key, and an unrecognized kind changes nothing.
pub open spec fn apply_update_map(m: Map<(i64, i64), Seq<u8>>, update: Update) -> Map<
    (i64, i64),
    Seq<u8>,
> {
    match update {
        Update::NewMessage(msg) => m.insert((msg.chat_id, msg.id), msg.raw@),
        Update::MessageEdited(msg) => m.insert((msg.chat_id, msg.id), msg.raw@),
        Update::MessageDeleted(del) => m.remove((del.chat_id, del.id)),
        Update::Other => m,
    }
}

/// What one page of fetched messages does to the ledger: each message is
/// upserted, in the order fetched.
pub open spec fn apply_messages(m: Map<(i64, i64), Seq<u8>>, msgs: Seq<Message>) -> Map<
    (i64, i64),
    Seq<u8>,
>
    decreases msgs.len(),
{
    if msgs.len() == 0 {
        m
    } else {
        apply_messages(m, msgs.drop_last()).insert(
            (msgs.last().chat_id, msgs.last().id),
            msgs.last().raw@,
        )
    }
}

/// Whether a submission is accepted: the queue must be open and below
/// capacity.
pub open spec fn can_accept_command(pending: Seq<Command>, closed: bool) -> bool {
    !closed && pending.len() < COMMAND_BUFFER_SIZE
}

/// The action one event resolves to. A stopped coordinator answers `Exit`
/// to everything; otherwise a refresh command asks the loop to fetch, the
/// queue's closure ends the loop, and updates (failed ones too) keep it
/// running.
pub open spec fn step_action(state: RunState, event: LoopEvent) -> LoopAction {
    if state is Stopped {
        LoopAction::Exit
    } else {
        match event {
            LoopEvent::Command(Command::RefreshMessages(chat)) => LoopAction::FetchMessages(chat),
            LoopEvent::CommandsClosed => LoopAction::Exit,
            LoopEvent::Update(_) => LoopAction::Continue,
            LoopEvent::UpdateFailed => LoopAction::Continue,
        }
    }
}

/// The lifecycle state after one event: only the queue's closure stops a
/// running coordinator, and a stopped one never leaves `Stopped`.
pub open spec fn step_state(state: RunState, event: LoopEvent) -> RunState {
    if state is Stopped {
        RunState::Stopped
    } else if event is CommandsClosed {
        RunState::Stopped
    } else {
        state
    }
}

/// The message ledger after one event: only updates reaching a running
/// coordinator change it.
pub open spec fn step_messages(
    state: RunState,
    m: Map<(i64, i64), Seq<u8>>,
    event: LoopEvent,
) -> Map<(i64, i64), Seq<u8>> {
    if state is Stopped {
        m
    } else {
        match event {
            LoopEvent::Update(update) => apply_update_map(m, update),
            _ => m,
        }
    }
}

/// The runtime coordinator: single authoritative owner of the cache.
/// Callers on several tasks must serialize all access behind one
/// mutual-exclusion lock; there is no separate reader path.
pub struct Runtime {
    storage: Storage,
    ledger: Vec<MessageRow>,
    pending: Vec<Command>,
    queue_closed: bool,
    state: RunState,
}

impl Runtime {
    /// The five tables of the owned persistent cache.
    pub closed spec fn cache(self) -> CacheTables {
        self.storage.tables()
    }

    /// The per-conversation message ledger.
    pub closed spec fn messages(self) -> Map<(i64, i64), Seq<u8>> {
        ledger_map(self.ledger@)
    }

    /// The commands submitted and not yet drained, oldest first.
    pub closed spec fn pending_commands(self) -> Seq<Command> {
        self.pending@
    }

    /// Whether the command queue has been closed by shutdown.
    pub closed spec fn commands_closed(self) -> bool {
        self.queue_closed
    }

    /// The coordinator's lifecycle state.
    pub closed spec fn run_state(self) -> RunState {
        self.state
    }

    /// Takes ownership of the cache and starts in `Initializing`: the
    /// embedding program spawns the background task, runs the initial bulk
    /// synchronization, then drives the event loop.
    pub fn new(storage: Storage) -> (r: Runtime)
        ensures
            r.cache() == storage.tables(),
            r.messages() == no_messages(),
            r.pending_commands().len() == 0,
            !r.commands_closed(),
            r.run_state() is Initializing,
    {
        Runtime {
            storage,
            ledger: Vec::new(),
            pending: Vec::new(),
            queue_closed: false,
            state: RunState::Initializing,
        }
    }

    /// The initial bulk synchronization: saves every conversation fetched
    /// from the collaborator, in order, then enters `Serving`. On a storage
    /// failure the coordinator stays in `Initializing` so the embedding
    /// program can retry — one failed attempt does not end synchronization
    /// for the rest of the process.
    pub fn do_initial_update(&mut self, dialogs: &Vec<Dialog>) -> (r: Result<(), CacheError>)
        requires
            old(self).run_state() is Initializing,
            forall|i: int| 0 <= i < dialogs@.len() ==> (#[trigger] dialogs@[i]).chat.is_valid(),
        ensures
            r is Ok ==> final(self).cache() == apply_dialogs(old(self).cache(), dialogs@),
            r is Ok ==> final(self).run_state() is Serving,
            r is Err ==> final(self).run_state() is Initializing,
            r matches Err(e) ==> e is StorageIo,
            final(self).messages() == old(self).messages(),
            final(self).pending_commands() == old(self).pending_commands(),
            final(self).commands_closed() == old(self).commands_closed(),
    {
        let mut i: usize = 0;
        while i < dialogs.len()
            invariant
                0 <= i <= dialogs@.len(),
                forall|j: int| 0 <= j < dialogs@.len() ==> (#[trigger] dialogs@[j]).chat.is_valid(),
                self.storage.tables() == apply_dialogs(
                    old(self).storage.tables(),
                    dialogs@.subrange(0, i as int),
                ),
                self.ledger@ == old(self).ledger@,
                self.pending@ == old(self).pending@,
                self.queue_closed == old(self).queue_closed,
                self.state == old(self).state,
                self.state is Initializing,
            decreases dialogs@.len() - i,
        {
            match self.storage.save_dialog(&dialogs[i]) {
                Ok(_) => {},
                Err(_) => {
                    return Err(CacheError::StorageIo);
                },
            }
            proof {
                assert(dialogs@.subrange(0, i + 1).drop_last() =~= dialogs@.subrange(0, i as int));
                assert(dialogs@.subrange(0, i + 1).last() == dialogs@[i as int]);
            }
            i = i + 1;
        }
        proof {
            assert(dialogs@.subrange(0, dialogs@.len() as int) =~= dialogs@);
        }
        self.state = RunState::Serving;
        Ok(())
    }

    /// Enqueues a refresh command. `Full` applies backpressure: the caller
    /// must wait for the background task to drain a command and submit
    /// again. `Closed` means the coordinator is shutting down.
    pub fn start_message_refreshing(&mut self, chat: Chat) -> (r: SendStatus)
        ensures
            r is Closed <==> old(self).commands_closed(),
            r is Sent <==> can_accept_command(
                old(self).pending_commands(),
                old(self).commands_closed(),
            ),
            r is Sent ==> final(self).pending_commands() == old(self).pending_commands().push(
                Command::RefreshMessages(chat),
            ),
            !(r is Sent) ==> final(self).pending_commands() == old(self).pending_commands(),
            final(self).cache() == old(self).cache(),
            final(self).messages() == old(self).messages(),
            final(self).commands_closed() == old(self).commands_closed(),
            final(self).run_state() == old(self).run_state(),
    {
        if self.queue_closed {
            return SendStatus::Closed;
        }
        if self.pending.len() >= COMMAND_BUFFER_SIZE {
            return SendStatus::Full;
        }
        self.pending.push(Command::RefreshMessages(chat));
        SendStatus::Sent
    }

    /// Drains the oldest pending command. `Empty` asks the loop to wait;
    /// `Disconnected` — closed and drained — is its exit condition.
    pub fn take_next_command(&mut self) -> (r: NextCommand)
        ensures
            old(self).pending_commands().len() > 0 ==> (r matches NextCommand::Command(c) && c
                == old(self).pending_commands()[0] && final(self).pending_commands() == old(self).pending_commands().drop_first()),
            old(self).pending_commands().len() == 0 ==> final(self).pending_commands() == old(self).pending_commands(),
            old(self).pending_commands().len() == 0 && !old(self).commands_closed() ==> r is Empty,
            old(self).pending_commands().len() == 0 && old(self).commands_closed()
                ==> r is Disconnected,
            final(self).cache() == old(self).cache(),
            final(self).messages() == old(self).messages(),
            final(self).commands_closed() == old(self).commands_closed(),
            final(self).run_state() == old(self).run_state(),
    {
        if self.pending.len() == 0 {
            if self.queue_closed {
                NextCommand::Disconnected
            } else {
                NextCommand::Empty
            }
        } else {
            let command = self.pending.remove(0);
            proof {
                assert(self.pending@ =~= old(self).pending@.drop_first());
            }
            NextCommand::Command(command)
        }
    }

    /// Applies one event of the loop's race: dispatches a drained command
    /// into a fetch request for the loop to perform, applies a remote
    /// update to the ledger, exits on the queue's closure, and — once
    /// stopped — does nothing ever again.
    pub fn update_step(&mut self, event: LoopEvent) -> (action: LoopAction)
        ensures
            action == step_action(old(self).run_state(), event),
            final(self).run_state() == step_state(old(self).run_state(), event),
            final(self).messages() == step_messages(
                old(self).run_state(),
                old(self).messages(),
                event,
            ),
            final(self).cache() == old(self).cache(),
            final(self).pending_commands() == old(self).pending_commands(),
            final(self).commands_closed() == old(self).commands_closed(),
    {
        match self.state {
            RunState::Stopped => LoopAction::Exit,
            _ => match event {
                LoopEvent::Command(Command::RefreshMessages(chat)) => LoopAction::FetchMessages(
                    chat,
                ),
                LoopEvent::CommandsClosed => {
                    self.state = RunState::Stopped;
                    LoopAction::Exit
                },
                LoopEvent::Update(update) => {
                    self.handle_update(update);
                    LoopAction::Continue
                },
                LoopEvent::UpdateFailed => LoopAction::Continue,
            },
        }
    }

    /// Applies one remote update to the message ledger: upsert for new and
    /// edited messages, removal for deletions, nothing for unrecognized
    /// kinds.
    pub fn handle_update(&mut self, update: Update)
        ensures
            final(self).messages() == apply_update_map(old(self).messages(), update),
            final(self).cache() == old(self).cache(),
            final(self).pending_commands() == old(self).pending_commands(),
            final(self).commands_closed() == old(self).commands_closed(),
            final(self).run_state() == old(self).run_state(),
    {
        match update {
            Update::NewMessage(message) => self.upsert_message(&message),
            Update::MessageEdited(message) => self.upsert_message(&message),
            Update::MessageDeleted(deletion) => self.delete_message(&deletion),
            Update::Other => {},
        }
    }

    /// Persists one page of fetched messages for a refreshed conversation,
    /// in the order fetched.
    pub fn refresh_messages(&mut self, messages: &Vec<Message>)
        ensures
            final(self).messages() == apply_messages(old(self).messages(), messages@),
            final(self).cache() == old(self).cache(),
            final(self).pending_commands() == old(self).pending_commands(),
            final(self).commands_closed() == old(self).commands_closed(),
            final(self).run_state() == old(self).run_state(),
    {
        let mut i: usize = 0;
        while i < messages.len()
            invariant
                0 <= i <= messages@.len(),
                ledger_map(self.ledger@) == apply_messages(
                    ledger_map(old(self).ledger@),
                    messages@.subrange(0, i as int),
                ),
                self.storage.tables() == old(self).storage.tables(),
                self.pending@ == old(self).pending@,
                self.queue_closed == old(self).queue_closed,
                self.state == old(self).state,
            decreases messages@.len() - i,
        {
            self.upsert_message(&messages[i]);
            proof {
                assert(messages@.subrange(0, i + 1).drop_last() =~= messages@.subrange(
                    0,
                    i as int,
                ));
                assert(messages@.subrange(0, i + 1).last() == messages@[i as int]);
            }
            i = i + 1;
        }
        proof {
            assert(messages@.subrange(0, messages@.len() as int) =~= messages@);
        }
    }

    /// Upserts one message into the ledger, keyed by its identity.
    fn upsert_message(&mut self, message: &Message)
        ensures
            final(self).messages() == old(self).messages().insert(
                (message.chat_id, message.id),
                message.raw@,
            ),
            final(self).cache() == old(self).cache(),
            final(self).pending_commands() == old(self).pending_commands(),
            final(self).commands_closed() == old(self).commands_closed(),
            final(self).run_state() == old(self).run_state(),
    {
        let row = MessageRow {
            chat_id: message.chat_id,
            msg_id: message.id,
            raw: clone_bytes(&message.raw),
        };
        self.ledger.push(row);
        proof {
            assert(self.ledger@.drop_last() =~= old(self).ledger@);
        }
    }

    /// Removes the named message from the ledger, if present.
    fn delete_message(&mut self, deletion: &MessageDeletion)
        ensures
            final(self).messages() == old(self).messages().remove(
                (deletion.chat_id, deletion.id),
            ),
            final(self).cache() == old(self).cache(),
            final(self).pending_commands() == old(self).pending_commands(),
            final(self).commands_closed() == old(self).commands_closed(),
            final(self).run_state() == old(self).run_state(),
    {
        let ghost k = (deletion.chat_id, deletion.id);
        let mut kept: Vec<MessageRow> = Vec::new();
        let mut i: usize = 0;
        proof {
            assert(self.ledger@.subrange(0, 0) =~= Seq::<MessageRow>::empty());
            assert(ledger_map(kept@) =~= ledger_map(self.ledger@.subrange(0, 0)).remove(k));
        }
        while i < self.ledger.len()
            invariant
                0 <= i <= self.ledger@.len(),
                k == (deletion.chat_id, deletion.id),
                *self == *old(self),
                ledger_map(kept@) == ledger_map(self.ledger@.subrange(0, i as int)).remove(k),
            decreases self.ledger@.len() - i,
        {
            let ghost prefix = self.ledger@.subrange(0, i as int);
            let ghost extended = self.ledger@.subrange(0, i + 1);
            let row = &self.ledger[i];
            let ghost row_key = (row.chat_id, row.msg_id);
            proof {
                assert(extended.drop_last() =~= prefix);
                assert(extended.last() == self.ledger@[i as int]);
            }
            let keep = !(row.chat_id == deletion.chat_id && row.msg_id == deletion.id);
            if keep {
                let ghost kept_before = kept@;
                let copied = MessageRow {
                    chat_id: row.chat_id,
                    msg_id: row.msg_id,
                    raw: clone_bytes(&row.raw),
                };
                kept.push(copied);
                proof {
                    assert(kept@.drop_last() =~= kept_before);
                    assert(ledger_map(extended).remove(k) =~= ledger_map(prefix).remove(k).insert(
                        row_key,
                        row.raw@,
                    ));
                }
            } else {
                proof {
                    assert(ledger_map(extended).remove(k) =~= ledger_map(prefix).remove(k));
                }
            }
            i = i + 1;
        }
        proof {
            assert(self.ledger@.subrange(0, self.ledger@.len() as int) =~= self.ledger@);
        }
        self.ledger = kept;
    }

    /// Reads a snapshot of the cache's conversations, reflecting everything
    /// persisted strictly before the call; the background task may be
    /// applying a newer update concurrently behind the same lock.
    pub fn get_dialogs(&self) -> (r: Result<Vec<Dialog>, CacheError>)
        ensures
            r matches Ok(ds) ==> listing_of(self.cache(), ds@),
            r is Ok ==> crate::storage::consistent(self.cache()),
            r matches Err(e) ==> (e is Corrupted ==> !crate::storage::consistent(self.cache())),
    {
        self.storage.select_all_dialogs()
    }

    /// The stored payload of one message of one conversation's ledger, if
    /// the ledger holds it.
    pub fn message_payload(&self, chat_id: i64, message_id: i64) -> (r: Option<Vec<u8>>)
        ensures
            match r {
                Some(data) => self.messages().contains_key((chat_id, message_id)) && data@
                    == self.messages()[(chat_id, message_id)],
                None => !self.messages().contains_key((chat_id, message_id)),
            },
    {
        let ghost k = (chat_id, message_id);
        proof {
            assert(self.ledger@.subrange(0, self.ledger@.len() as int) =~= self.ledger@);
        }
        let mut idx: usize = self.ledger.len();
        while idx > 0
            invariant
                0 <= idx <= self.ledger@.len(),
                k == (chat_id, message_id),
                ledger_map(self.ledger@).contains_key(k) == ledger_map(
                    self.ledger@.subrange(0, idx as int),
                ).contains_key(k),
                ledger_map(self.ledger@).contains_key(k) ==> ledger_map(self.ledger@)[k]
                    == ledger_map(self.ledger@.subrange(0, idx as int))[k],
            decreases idx,
        {
            let row = &self.ledger[idx - 1];
            if row.chat_id == chat_id && row.msg_id == message_id {
                proof {
                    let prefix = self.ledger@.subrange(0, idx as int);
                    assert(prefix.last() == self.ledger@[idx - 1]);
                }
                return Some(clone_bytes(&row.raw));
            }
            proof {
                let prefix = self.ledger@.subrange(0, idx as int);
                assert(prefix.last() == self.ledger@[idx - 1]);
                lemma_ledger_skip_last(prefix, k);
                assert(prefix.drop_last() =~= self.ledger@.subrange(0, idx - 1));
            }
            idx = idx - 1;
        }
        proof {
            assert(self.ledger@.subrange(0, 0) =~= Seq::<MessageRow>::empty());
        }
        None
    }

    /// Shuts the coordinator down: closes the command queue and makes the
    /// state terminal. Must be the last operation invoked; a second call is
    /// rejected and changes nothing.
    pub fn stop(&mut self) -> (r: Result<(), StopError>)
        ensures
            old(self).run_state() is Stopped ==> r is Err && *final(self) == *old(self),
            !(old(self).run_state() is Stopped) ==> r is Ok && final(self).run_state() is Stopped
                && final(self).commands_closed() && final(self).pending_commands() == old(self).pending_commands() && final(self).messages() == old(self).messages() && final(self).cache() == old(self).cache(),
    {
        match self.state {
            RunState::Stopped => Err(StopError::AlreadyStopped),
            _ => {
                self.queue_closed = true;
                self.state = RunState::Stopped;
                Ok(())
            },
        }
    }
}

/// Copies a byte payload.
fn clone_bytes(bytes: &Vec<u8>) -> (r: Vec<u8>)
    ensures
        r@ == bytes@,
{
    let copy = bytes.clone();
    proof {
        assert(copy@ =~= bytes@);
    }
    copy
}

/// Law: backpressure. With the command queue at capacity, a submission is
/// not accepted and the queue is unchanged; once the background task drains
/// one command, a submission is accepted again.
pub proof fn lemma_backpressure(pending: Seq<Command>, closed: bool)
    requires
        !closed,
        pending.len() == COMMAND_BUFFER_SIZE,
    ensures
        !can_accept_command(pending, closed),
        can_accept_command(pending.drop_first(), closed),
{
}

/// Law: ordering. Two updates for the same conversation, an edit of a
/// message followed by its deletion, applied in that order, leave the
/// ledger without the message — the delete wins when last.
pub proof fn lemma_edit_then_delete(
    m: Map<(i64, i64), Seq<u8>>,
    message: Message,
    deletion: MessageDeletion,
)
    requires
        deletion.chat_id == message.chat_id,
        deletion.id == message.id,
    ensures
        !apply_update_map(
            apply_update_map(m, Update::MessageEdited(message)),
            Update::MessageDeleted(deletion),
        ).contains_key((message.chat_id, message.id)),
{
}

/// Law: shutdown is terminal. A stopped coordinator answers `Exit` to every
/// event, stays stopped, and its ledger never changes again.
pub proof fn lemma_stopped_is_quiescent(event: LoopEvent, m: Map<(i64, i64), Seq<u8>>)
    ensures
        step_action(RunState::Stopped, event) is Exit,
        step_state(RunState::Stopped, event) is Stopped,
        step_messages(RunState::Stopped, m, event) == m,
{
}

} // verus!
