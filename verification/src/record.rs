//! Framing of a stored conversation row.
//!
//! A conversation row pairs the participant reference with the opaque
//! conversation descriptor produced by the remote service's codec: one tag
//! byte naming the participant's ID space, the native ID in eight
//! little-endian bytes, then the descriptor bytes. Reconstructing a
//! conversation starts by reading this frame back to learn which participant
//! table to join against.

use vstd::prelude::*;

use crate::identity::{
    valid_channel_id, valid_group_id, valid_user_id, Channel, Chat, Group, User,
};

verus! {

/// Tag byte of an individual-user participant reference.
pub const USER_TAG: u8 = 0;

/// Tag byte of a group participant reference.
pub const GROUP_TAG: u8 = 1;

/// Tag byte of a broadcast-channel participant reference.
pub const CHANNEL_TAG: u8 = 2;

/// A participant reference recovered from a stored conversation row: which
/// ID space the participant lives in, and its native ID there.
#[derive(Clone, Copy, Debug)]
pub enum Peer {
    User(i64),
    Group(i64),
    Channel(i64),
}

impl Peer {
    pub open spec fn tag(self) -> u8 {
        match self {
            Peer::User(_) => USER_TAG,
            Peer::Group(_) => GROUP_TAG,
            Peer::Channel(_) => CHANNEL_TAG,
        }
    }

    pub open spec fn native_id(self) -> int {
        match self {
            Peer::User(id) => id as int,
            Peer::Group(id) => id as int,
            Peer::Channel(id) => id as int,
        }
    }

    /// The native ID lies in the documented range of the tagged ID space.
    pub open spec fn is_valid(self) -> bool {
        match self {
            Peer::User(id) => valid_user_id(id as int),
            Peer::Group(id) => valid_group_id(id as int),
            Peer::Channel(id) => valid_channel_id(id as int),
        }
    }

    /// The unified identity of the referenced participant.
    pub open spec fn unified_id(self) -> int {
        match self {
            Peer::User(id) => crate::identity::unified_user(id as int),
            Peer::Group(id) => crate::identity::unified_group(id as int),
            Peer::Channel(id) => crate::identity::unified_channel(id as int),
        }
    }
}

impl Chat {
    /// The participant reference stored in this participant's conversation
    /// row.
    pub open spec fn peer(self) -> Peer {
        match self {
            Chat::User(u) => Peer::User(u.id),
            Chat::Group(g) => Peer::Group(g.id),
            Chat::Channel(c) => Peer::Channel(c.id),
        }
    }

    /// The participant reference of this participant.
    pub fn as_peer(&self) -> (p: Peer)
        ensures
            p == self.peer(),
    {
        match self {
            Chat::User(u) => Peer::User(u.id),
            Chat::Group(g) => Peer::Group(g.id),
            Chat::Channel(c) => Peer::Channel(c.id),
        }
    }
}

/// The unified identity of the participant a reference points at; the
/// reference must already have been validated against its ID space.
pub fn peer_bot_id(peer: &Peer) -> (r: i64)
    requires
        peer.is_valid(),
    ensures
        r as int == peer.unified_id(),
{
    match peer {
        Peer::User(id) => *id,
        Peer::Group(id) => -*id,
        Peer::Channel(id) => -(1_000_000_000_000i64 + *id),
    }
}

/// The eight little-endian bytes of a 64-bit value.
pub open spec fn u64_le_bytes(v: u64) -> Seq<u8> {
    seq![
        (v & 0xff) as u8,
        ((v >> 8) & 0xff) as u8,
        ((v >> 16) & 0xff) as u8,
        ((v >> 24) & 0xff) as u8,
        ((v >> 32) & 0xff) as u8,
        ((v >> 40) & 0xff) as u8,
        ((v >> 48) & 0xff) as u8,
        ((v >> 56) & 0xff) as u8,
    ]
}

/// The 64-bit value read from eight little-endian bytes.
pub open spec fn u64_from_le_bytes(b: Seq<u8>) -> u64
    recommends
        b.len() == 8,
{
    (b[0] as u64) | ((b[1] as u64) << 8) | ((b[2] as u64) << 16) | ((b[3] as u64) << 24)
        | ((b[4] as u64) << 32) | ((b[5] as u64) << 40) | ((b[6] as u64) << 48)
        | ((b[7] as u64) << 56)
}

/// Reading back the eight little-endian bytes of `v` yields `v`.
pub proof fn lemma_u64_le_round_trip(v: u64)
    ensures
        u64_from_le_bytes(u64_le_bytes(v)) == v,
{
    assert(((v & 0xff) as u8 as u64) | ((((v >> 8) & 0xff) as u8 as u64) << 8)
        | ((((v >> 16) & 0xff) as u8 as u64) << 16) | ((((v >> 24) & 0xff) as u8 as u64) << 24)
        | ((((v >> 32) & 0xff) as u8 as u64) << 32) | ((((v >> 40) & 0xff) as u8 as u64) << 40)
        | ((((v >> 48) & 0xff) as u8 as u64) << 48) | ((((v >> 56) & 0xff) as u8 as u64) << 56)
        == v) by (bit_vector);
}

/// The bytes of a conversation row referencing `peer`, carrying the opaque
/// conversation descriptor `payload`.
pub open spec fn record_bytes(peer: Peer, payload: Seq<u8>) -> Seq<u8> {
    seq![peer.tag()] + u64_le_bytes(peer.native_id() as u64) + payload
}

/// What `parse_record` recovers from a stored row: `None` when the row is
/// malformed (too short, unknown tag, or a native ID outside the tagged ID
/// space), otherwise the participant reference and the descriptor bytes.
pub open spec fn parse_record(bytes: Seq<u8>) -> Option<(Peer, Seq<u8>)> {
    if bytes.len() < 9 {
        None
    } else {
        let id = u64_from_le_bytes(bytes.subrange(1, 9));
        let rest = bytes.subrange(9, bytes.len() as int);
        if bytes[0] == USER_TAG && valid_user_id(id as int) {
            Some((Peer::User(id as i64), rest))
        } else if bytes[0] == GROUP_TAG && valid_group_id(id as int) {
            Some((Peer::Group(id as i64), rest))
        } else if bytes[0] == CHANNEL_TAG && valid_channel_id(id as int) {
            Some((Peer::Channel(id as i64), rest))
        } else {
            None
        }
    }
}

/// A frame written for a valid participant reference parses back to exactly
/// that reference and payload.
pub proof fn lemma_record_round_trip(peer: Peer, payload: Seq<u8>)
    requires
        peer.is_valid(),
    ensures
        parse_record(record_bytes(peer, payload)) == Some((peer, payload)),
{
    let bytes = record_bytes(peer, payload);
    let v = peer.native_id() as u64;
    assert(bytes.subrange(1, 9) =~= u64_le_bytes(v));
    lemma_u64_le_round_trip(v);
    assert(v as i64 as int == peer.native_id());
    assert(bytes.subrange(9, bytes.len() as int) =~= payload);
}

/// Frames are injective: equal row bytes mean the same participant reference
/// and the same descriptor.
pub proof fn lemma_record_injective(p1: Peer, d1: Seq<u8>, p2: Peer, d2: Seq<u8>)
    requires
        p1.is_valid(),
        p2.is_valid(),
        record_bytes(p1, d1) == record_bytes(p2, d2),
    ensures
        p1 == p2,
        d1 == d2,
{
    lemma_record_round_trip(p1, d1);
    lemma_record_round_trip(p2, d2);
}

/// Writes the conversation-row frame for `peer` and `payload`.
pub fn encode_record(peer: &Peer, payload: &Vec<u8>) -> (r: Vec<u8>)
    requires
        peer.is_valid(),
    ensures
        r@ == record_bytes(*peer, payload@),
{
    let (tag, id): (u8, i64) = match peer {
        Peer::User(id) => (USER_TAG, *id),
        Peer::Group(id) => (GROUP_TAG, *id),
        Peer::Channel(id) => (CHANNEL_TAG, *id),
    };
    let v = id as u64;
    let mut out: Vec<u8> = Vec::new();
    out.push(tag);
    out.push((v & 0xff) as u8);
    out.push(((v >> 8) & 0xff) as u8);
    out.push(((v >> 16) & 0xff) as u8);
    out.push(((v >> 24) & 0xff) as u8);
    out.push(((v >> 32) & 0xff) as u8);
    out.push(((v >> 40) & 0xff) as u8);
    out.push(((v >> 48) & 0xff) as u8);
    out.push(((v >> 56) & 0xff) as u8);
    let ghost head = out@;
    let mut i: usize = 0;
    while i < payload.len()
        invariant
            0 <= i <= payload.len(),
            out@ == head + payload@.subrange(0, i as int),
            head == seq![tag] + u64_le_bytes(v),
        decreases payload.len() - i,
    {
        out.push(payload[i]);
        i = i + 1;
        assert(out@ =~= head + payload@.subrange(0, i as int));
    }
    proof {
        assert(v as int == peer.native_id());
        assert(payload@.subrange(0, payload@.len() as int) =~= payload@);
        assert(out@ =~= record_bytes(*peer, payload@));
    }
    out
}

/// Reads a conversation-row frame back: the participant reference and the
/// descriptor bytes, or `None` when the row is malformed.
pub fn decode_record(bytes: &Vec<u8>) -> (r: Option<(Peer, Vec<u8>)>)
    ensures
        match r {
            Some((peer, payload)) => parse_record(bytes@) == Some((peer, payload@)),
            None => parse_record(bytes@) is None,
        },
{
    if bytes.len() < 9 {
        return None;
    }
    let tag = bytes[0];
    let v = (bytes[1] as u64) | ((bytes[2] as u64) << 8) | ((bytes[3] as u64) << 16)
        | ((bytes[4] as u64) << 24) | ((bytes[5] as u64) << 32) | ((bytes[6] as u64) << 40)
        | ((bytes[7] as u64) << 48) | ((bytes[8] as u64) << 56);
    proof {
        assert(bytes@.subrange(1, 9) =~= seq![
            bytes@[1], bytes@[2], bytes@[3], bytes@[4], bytes@[5], bytes@[6], bytes@[7], bytes@[8],
        ]);
        assert(v == u64_from_le_bytes(bytes@.subrange(1, 9)));
    }
    let peer: Peer;
    if tag == USER_TAG && v <= 0xff_ffff_ffffu64 {
        peer = Peer::User(v as i64);
    } else if tag == GROUP_TAG && 1 <= v && v <= 999_999_999_999u64 {
        peer = Peer::Group(v as i64);
    } else if tag == CHANNEL_TAG && 1 <= v && v <= 997_852_516_352u64 {
        peer = Peer::Channel(v as i64);
    } else {
        return None;
    }
    let mut payload: Vec<u8> = Vec::new();
    let mut i: usize = 9;
    while i < bytes.len()
        invariant
            9 <= i <= bytes@.len(),
            payload@ == bytes@.subrange(9, i as int),
        decreases bytes@.len() - i,
    {
        payload.push(bytes[i]);
        i = i + 1;
        assert(payload@ =~= bytes@.subrange(9, i as int));
    }
    Some((peer, payload))
}

} // verus!
