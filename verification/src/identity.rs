//! Participant entities and the unified identity scheme.
//!
//! Every conversation participant belongs to exactly one of three disjoint
//! remote-assigned ID spaces: individual users, groups, and broadcast
//! channels. The three spaces all start near zero and would collide if used
//! directly as keys of one table, so the cache maps them into a single signed
//! key space: individual IDs map to themselves, group IDs to their negation,
//! and channel IDs to the negation of `10^12 + id`.

use vstd::prelude::*;

verus! {

/// Largest valid individual (user) ID: `2^40 - 1`.
pub open spec fn max_user_id() -> int {
    0xff_ffff_ffffint
}

/// Largest valid group ID.
pub open spec fn max_group_id() -> int {
    999_999_999_999int
}

/// Largest valid broadcast-channel ID.
pub open spec fn max_channel_id() -> int {
    997_852_516_352int
}

pub open spec fn valid_user_id(id: int) -> bool {
    0 <= id <= max_user_id()
}

pub open spec fn valid_group_id(id: int) -> bool {
    1 <= id <= max_group_id()
}

pub open spec fn valid_channel_id(id: int) -> bool {
    1 <= id <= max_channel_id()
}

/// Unified identity of an individual ID: the ID itself.
pub open spec fn unified_user(id: int) -> int {
    id
}

/// Unified identity of a group ID: its negation.
pub open spec fn unified_group(id: int) -> int {
    -id
}

/// Unified identity of a channel ID: the negation of `10^12 + id`.
pub open spec fn unified_channel(id: int) -> int {
    -(1_000_000_000_000 + id)
}

/// An individual user, as the cache models it: the native ID plus the opaque
/// serialized descriptor produced by the remote service's codec.
#[derive(Clone)]
pub struct User {
    pub id: i64,
    pub raw: Vec<u8>,
}

/// A group, as the cache models it.
#[derive(Clone)]
pub struct Group {
    pub id: i64,
    pub raw: Vec<u8>,
}

/// A broadcast channel, as the cache models it.
#[derive(Clone)]
pub struct Channel {
    pub id: i64,
    pub raw: Vec<u8>,
}

/// A conversation participant: exactly one of the three native kinds.
#[derive(Clone)]
pub enum Chat {
    User(User),
    Group(Group),
    Channel(Channel),
}

impl Chat {
    /// The native (remote-assigned) ID, before disambiguation.
    pub open spec fn native_id(self) -> int {
        match self {
            Chat::User(u) => u.id as int,
            Chat::Group(g) => g.id as int,
            Chat::Channel(c) => c.id as int,
        }
    }

    /// The opaque serialized participant descriptor.
    pub open spec fn raw_bytes(self) -> Seq<u8> {
        match self {
            Chat::User(u) => u.raw@,
            Chat::Group(g) => g.raw@,
            Chat::Channel(c) => c.raw@,
        }
    }

    /// The native ID lies in the documented range of its ID space.
    pub open spec fn is_valid(self) -> bool {
        match self {
            Chat::User(u) => valid_user_id(u.id as int),
            Chat::Group(g) => valid_group_id(g.id as int),
            Chat::Channel(c) => valid_channel_id(c.id as int),
        }
    }

    /// The unified identity this participant is keyed by in the conversation
    /// table.
    pub open spec fn unified_id(self) -> int {
        match self {
            Chat::User(u) => unified_user(u.id as int),
            Chat::Group(g) => unified_group(g.id as int),
            Chat::Channel(c) => unified_channel(c.id as int),
        }
    }

    /// The native ID of this participant.
    pub fn id(&self) -> (r: i64)
        ensures
            r as int == self.native_id(),
    {
        match self {
            Chat::User(u) => u.id,
            Chat::Group(g) => g.id,
            Chat::Channel(c) => c.id,
        }
    }
}

/// Maps a participant to its unified identity. The caller must have validated
/// the native ID: an out-of-range ID is a programming-error-class failure and
/// is excluded here rather than handled at run time.
pub fn to_bot_id(chat: &Chat) -> (r: i64)
    requires
        chat.is_valid(),
    ensures
        r as int == chat.unified_id(),
{
    match chat {
        Chat::User(user) => user.id,
        Chat::Group(group) => -group.id,
        Chat::Channel(channel) => -(1_000_000_000_000i64 + channel.id),
    }
}

/// Law: every valid individual ID maps to itself under the unified scheme,
/// and the result is non-negative.
pub proof fn lemma_unified_user(id: int)
    requires
        valid_user_id(id),
    ensures
        unified_user(id) == id,
        unified_user(id) >= 0,
{
}

/// Law: every valid group ID maps to its negation, which is strictly negative
/// and distinct from the unified identity of every valid channel ID.
pub proof fn lemma_unified_group(id: int)
    requires
        valid_group_id(id),
    ensures
        unified_group(id) == -id,
        unified_group(id) < 0,
        forall|c: int| valid_channel_id(c) ==> unified_group(id) != unified_channel(c),
{
}

/// Law: every valid channel ID maps to the negation of `10^12 + id`, which is
/// strictly negative.
pub proof fn lemma_unified_channel(id: int)
    requires
        valid_channel_id(id),
    ensures
        unified_channel(id) == -(1_000_000_000_000 + id),
        unified_channel(id) < 0,
{
}

/// Law: for any in-range individual, group, and channel IDs, the three
/// unified identities are pairwise distinct — the derived ranges never
/// overlap.
pub proof fn lemma_unified_ranges_disjoint(u: int, g: int, c: int)
    requires
        valid_user_id(u),
        valid_group_id(g),
        valid_channel_id(c),
    ensures
        unified_user(u) != unified_group(g),
        unified_user(u) != unified_channel(c),
        unified_group(g) != unified_channel(c),
{
}

/// The unified scheme is injective over valid participants: two valid
/// participants with the same unified identity have the same kind, the same
/// native ID, and so name the same row of the same participant table.
pub proof fn lemma_unified_injective(a: Chat, b: Chat)
    requires
        a.is_valid(),
        b.is_valid(),
        a.unified_id() == b.unified_id(),
    ensures
        a is User <==> b is User,
        a is Group <==> b is Group,
        a is Channel <==> b is Channel,
        a.native_id() == b.native_id(),
{
}

} // verus!
