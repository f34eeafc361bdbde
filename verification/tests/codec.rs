//! Encodings, derivation and arithmetic on concrete values.

use base64::Engine;
use base64::engine::general_purpose::STANDARD_NO_PAD;
use sha3::{Digest, Sha3_256};
use ticketing::codec::{decode_ticket_id, parse_u128, u128_to_decimal, TicketOutput};
use ticketing::digest::TICKET_ID_VERSION;
use ticketing::royalty::{royalty_amount, settle_amounts, MAX_BPS};
use ticketing::types::{
    AccountOwner, ApplicationId, BalanceEntry, BalanceEntryGraphQL, ChainId, DataBlobHash,
    EventId, Ticket, TicketId,
};

fn owner(s: &str) -> AccountOwner {
    AccountOwner { value: s.to_string() }
}

fn derive(seat: &str, index: u32) -> TicketId {
    Ticket::create_ticket_id(
        &ChainId { value: 11 },
        &ApplicationId { value: 22 },
        &EventId { value: "E".to_string() },
        seat,
        &owner("M"),
        &DataBlobHash { bytes: vec![1, 2, 3] },
        index,
    )
}

#[test]
fn ticket_id_deterministic_and_index_sensitive() {
    let a = derive("A1", 0);
    let b = derive("A1", 0);
    assert_eq!(a.id, b.id);
    assert_eq!(a.id.len(), 32);
    // any differing input gives a different id
    assert_ne!(derive("A1", 1).id, a.id);
    assert_ne!(derive("A2", 0).id, a.id);
}

#[test]
fn ticket_id_is_digest_of_versioned_preimage() {
    let id = derive("A1", 3);
    let mut preimage: Vec<u8> = Vec::new();
    preimage.push(TICKET_ID_VERSION);
    preimage.extend_from_slice(&11u64.to_be_bytes());
    preimage.extend_from_slice(&22u64.to_be_bytes());
    for field in [b"E".as_slice(), b"A1".as_slice(), b"M".as_slice(), &[1, 2, 3]] {
        preimage.extend_from_slice(&(field.len() as u64).to_be_bytes());
        preimage.extend_from_slice(field);
    }
    preimage.extend_from_slice(&3u32.to_be_bytes());
    let expected = Sha3_256::digest(&preimage).to_vec();
    assert_eq!(id.id, expected);
}

#[test]
fn royalty_split_exact_values() {
    assert_eq!(settle_amounts(1000, 500), (50, 950));
    assert_eq!(royalty_amount(999, 1), 0);
    assert_eq!(royalty_amount(0, 10_000), 0);
    assert_eq!(royalty_amount(u128::MAX, MAX_BPS), u128::MAX);
    // conservation on a large price that would overflow a naive product
    let (roy, take) = settle_amounts(u128::MAX, 1);
    assert_eq!(roy, u128::MAX / 10_000);
    assert_eq!(roy + take, u128::MAX);
}

#[test]
fn ticket_output_uses_real_base64() {
    let ticket = Ticket {
        ticket_id: TicketId { id: vec![0xde, 0xad, 0xbe, 0xef] },
        event_id: EventId { value: "E".to_string() },
        event_name: "Concert".to_string(),
        seat: "A1".to_string(),
        organizer: owner("O"),
        owner: owner("H1"),
        minter: owner("O"),
        royalty_bps: 500,
        metadata_hash: DataBlobHash { bytes: vec![9] },
        last_sale_price: Some(1000),
    };
    let out = TicketOutput::new(ticket, vec![7, 7]);
    assert_eq!(out.ticket_id, STANDARD_NO_PAD.encode([0xde, 0xad, 0xbe, 0xef]));
    assert_eq!(out.ticket_id, "3q2+7w");
    assert_eq!(out.last_sale_price, Some("1000".to_string()));
    assert_eq!(out.payload, vec![7, 7]);
}

#[test]
fn ticket_id_round_trips_through_base64() {
    let id = derive("A1", 0);
    let text = STANDARD_NO_PAD.encode(&id.id);
    let back = decode_ticket_id(&text).unwrap();
    assert_eq!(back.id, id.id);
    assert!(decode_ticket_id("!!!").is_none());
}

#[test]
fn decimal_rendering_exact() {
    assert_eq!(u128_to_decimal(0), "0");
    assert_eq!(u128_to_decimal(7), "7");
    assert_eq!(u128_to_decimal(12_345), "12345");
    assert_eq!(u128_to_decimal(u128::MAX), "340282366920938463463374607431768211455");
}

#[test]
fn decimal_parsing_exact() {
    assert_eq!(parse_u128("0"), Some(0));
    assert_eq!(parse_u128("123"), Some(123));
    assert_eq!(parse_u128("0012"), Some(12));
    assert_eq!(parse_u128(""), None);
    assert_eq!(parse_u128("12a"), None);
    assert_eq!(parse_u128("-1"), None);
    assert_eq!(parse_u128("340282366920938463463374607431768211455"), Some(u128::MAX));
    assert_eq!(parse_u128("340282366920938463463374607431768211456"), None);
}

#[test]
fn parse_inverts_rendering() {
    for n in [0u128, 1, 9, 10, 99, 100, 123_456_789, u128::MAX] {
        assert_eq!(parse_u128(&u128_to_decimal(n)), Some(n));
    }
}

#[test]
fn balance_entry_renders_pending() {
    let b = BalanceEntryGraphQL::from(&BalanceEntry { pending: 7 });
    assert_eq!(b.pending, "7");
}
