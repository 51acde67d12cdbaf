//! The unified identity scheme and the conversation-row frame, on concrete
//! values.

use geekgram::identity::{to_bot_id, Channel, Chat, Group, User};
use geekgram::record::{decode_record, encode_record, Peer};

fn user(id: i64) -> Chat {
    Chat::User(User { id, raw: vec![1, 2, 3] })
}

fn group(id: i64) -> Chat {
    Chat::Group(Group { id, raw: vec![4, 5] })
}

fn channel(id: i64) -> Chat {
    Chat::Channel(Channel { id, raw: vec![6] })
}

#[test]
fn individual_ids_map_to_themselves() {
    assert_eq!(to_bot_id(&user(0)), 0);
    assert_eq!(to_bot_id(&user(5)), 5);
    assert_eq!(to_bot_id(&user(0xff_ffff_ffff)), 0xff_ffff_ffff);
}

#[test]
fn group_ids_map_to_their_negation() {
    assert_eq!(to_bot_id(&group(1)), -1);
    assert_eq!(to_bot_id(&group(10)), -10);
    assert_eq!(to_bot_id(&group(999_999_999_999)), -999_999_999_999);
}

#[test]
fn channel_ids_map_below_minus_trillion() {
    assert_eq!(to_bot_id(&channel(1)), -1_000_000_000_001);
    assert_eq!(to_bot_id(&channel(20)), -1_000_000_000_020);
    assert_eq!(to_bot_id(&channel(997_852_516_352)), -1_997_852_516_352);
}

#[test]
fn derived_ranges_never_overlap() {
    // The same native value in each space lands in three distinct keys.
    for id in [1i64, 20, 999_999_999] {
        let u = to_bot_id(&user(id));
        let g = to_bot_id(&group(id));
        let c = to_bot_id(&channel(id));
        assert!(u >= 0);
        assert!(g < 0 && g >= -999_999_999_999);
        assert!(c < -1_000_000_000_000);
        assert_ne!(u, g);
        assert_ne!(u, c);
        assert_ne!(g, c);
    }
    // Boundary values of different spaces stay distinct too.
    assert_ne!(to_bot_id(&group(999_999_999_999)), to_bot_id(&channel(1)));
}

#[test]
fn record_round_trips_for_each_kind() {
    let payload = vec![10u8, 20, 30];
    for peer in [Peer::User(5), Peer::Group(10), Peer::Channel(20)] {
        let bytes = encode_record(&peer, &payload);
        let (decoded, rest) = decode_record(&bytes).expect("frame must parse back");
        match (peer, decoded) {
            (Peer::User(a), Peer::User(b)) => assert_eq!(a, b),
            (Peer::Group(a), Peer::Group(b)) => assert_eq!(a, b),
            (Peer::Channel(a), Peer::Channel(b)) => assert_eq!(a, b),
            _ => panic!("participant kind changed in the round trip"),
        }
        assert_eq!(rest, payload);
    }
}

#[test]
fn record_layout_is_tag_then_le_id_then_payload() {
    let bytes = encode_record(&Peer::User(5), &vec![9u8]);
    assert_eq!(bytes, vec![0u8, 5, 0, 0, 0, 0, 0, 0, 0, 9]);
    let bytes = encode_record(&Peer::Group(258), &vec![]);
    assert_eq!(bytes, vec![1u8, 2, 1, 0, 0, 0, 0, 0, 0]);
}

#[test]
fn malformed_records_do_not_parse() {
    // Too short to hold a tag and a native ID.
    assert!(decode_record(&vec![0u8, 1, 2]).is_none());
    // Unknown participant tag.
    assert!(decode_record(&vec![3u8, 1, 0, 0, 0, 0, 0, 0, 0]).is_none());
    // Group ID zero is outside the documented range.
    assert!(decode_record(&vec![1u8, 0, 0, 0, 0, 0, 0, 0, 0]).is_none());
    // An individual ID above 2^40 - 1 is outside its range.
    assert!(decode_record(&vec![0u8, 0, 0, 0, 0, 0, 1, 0, 0]).is_none());
}
