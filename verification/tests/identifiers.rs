use std::collections::HashSet;

use mpc::ids::{session_id, session_to_bytes, session_type_to_json, sorted_participants};
use mpc::protocol::SessionType;
use mpc::text::{decimal_string, text_bytes};
use mpc::uuids::parse_uuid;
use sha2::Digest;

const ALICE: u128 = 0x0123_4567_89ab_cdef_0123_4567_89ab_cdef;

fn set(ids: &[u128]) -> HashSet<u128> {
    ids.iter().copied().collect()
}

#[test]
fn decimal_notation() {
    assert_eq!(decimal_string(0), "0");
    assert_eq!(decimal_string(9), "9");
    assert_eq!(decimal_string(10), "10");
    assert_eq!(decimal_string(907), "907");
    assert_eq!(decimal_string(u64::MAX), "18446744073709551615");
}

#[test]
fn bytes_of_ascii_text() {
    assert_eq!(text_bytes(&String::from("a-Z\n")), vec![97, 45, 90, 10]);
    assert_eq!(text_bytes(&String::new()), Vec::<u8>::new());
}

#[test]
fn notations_of_a_uuid() {
    for text in [
        "0123456789abcdef0123456789abcdef",
        "0123456789ABCDEF0123456789abcdef",
        "01234567-89ab-cdef-0123-456789abcdef",
        "01234567-89AB-CDEF-0123-456789ABCDEF",
        "{01234567-89ab-cdef-0123-456789abcdef}",
        "urn:uuid:01234567-89ab-cdef-0123-456789abcdef",
        "URN:uuid:01234567-89ab-CDEF-0123-456789abcdef",
    ] {
        assert_eq!(parse_uuid(&String::from(text)), Ok(ALICE));
    }
    let zero = "00000000-0000-0000-0000-000000000000";
    assert_eq!(parse_uuid(&String::from(zero)), Ok(0));
}

#[test]
fn texts_that_denote_no_uuid() {
    for text in [
        "",
        "x",
        "0123456789abcdef0123456789abcde",
        "0123456789abcdef0123456789abcdeg",
        "01234567-89ab-cdef-01234-56789abcdef",
        "{0123456789abcdef0123456789abcdef}",
        "(01234567-89ab-cdef-0123-456789abcdef)",
        "urn-uuid:01234567-89ab-cdef-0123-456789abcdef",
        " 01234567-89ab-cdef-0123-456789abcdef",
    ] {
        let words = text.parse::<uuid::Uuid>().unwrap_err().to_string();
        assert_eq!(parse_uuid(&String::from(text)), Err(words));
    }
}

#[test]
fn participants_are_sorted() {
    assert_eq!(sorted_participants(&set(&[])), Vec::<u128>::new());
    assert_eq!(sorted_participants(&set(&[7])), vec![7]);
    assert_eq!(sorted_participants(&set(&[3, 1, 2])), vec![1, 2, 3]);
    let ids: Vec<u128> = vec![u128::MAX, 0, 1 << 127, 1 << 64, 255, 256];
    assert_eq!(sorted_participants(&set(&ids)), vec![0, 255, 256, 1 << 64, 1 << 127, u128::MAX]);
}

#[test]
fn order_of_numbers_is_order_of_uuids() {
    let ids: Vec<u128> = vec![1 << 127, 3, 1 << 8, ALICE, 255, u128::MAX];
    let mut uuids: Vec<uuid::Uuid> = ids.iter().map(|id| uuid::Uuid::from_u128(*id)).collect();
    uuids.sort();
    let sorted: Vec<u128> = uuids.iter().map(|id| id.as_u128()).collect();
    assert_eq!(sorted_participants(&set(&ids)), sorted);
}

#[test]
fn session_type_in_json() {
    assert_eq!(session_type_to_json(SessionType::AuxInfoGen), b"\"AuxInfoGen\"".to_vec());
    assert_eq!(session_type_to_json(SessionType::Signing), b"\"Signing\"".to_vec());
    assert_eq!(
        session_type_to_json(SessionType::KeyGen { threshold: 0 }),
        b"{\"KeyGen\":{\"threshold\":0}}".to_vec()
    );
    assert_eq!(
        session_type_to_json(SessionType::KeyGen { threshold: 65535 }),
        b"{\"KeyGen\":{\"threshold\":65535}}".to_vec()
    );
}

#[test]
fn session_type_json_can_be_read() {
    let bytes = session_type_to_json(SessionType::KeyGen { threshold: 258 });
    let value: serde_json::Value = serde_json::from_slice(&bytes).unwrap();
    assert_eq!(value["KeyGen"]["threshold"], serde_json::Value::from(258));
}

#[test]
fn bytes_that_are_hashed() {
    assert_eq!(session_to_bytes(&vec![], SessionType::Signing), b"[]\"Signing\"".to_vec());
    assert_eq!(
        session_to_bytes(&vec![ALICE], SessionType::AuxInfoGen),
        b"[\"01234567-89ab-cdef-0123-456789abcdef\"]\"AuxInfoGen\"".to_vec()
    );
    let mut expected: Vec<u8> = b"[\"00000000-0000-0000-0000-000000000001\",\"00000000-0000-0000-0000-000000000002\"]{\"KeyGen\":{\"threshold\":258}}".to_vec();
    expected.push(2);
    expected.push(1);
    assert_eq!(session_to_bytes(&vec![1, 2], SessionType::KeyGen { threshold: 258 }), expected);
}

#[test]
fn session_identifiers() {
    assert_eq!(
        session_id(&vec![], SessionType::Signing),
        "201882ee2f084bb56f313eef309860bd46fa70d25bc4c91014cc6ebbe7a128ee"
    );
    assert_eq!(
        session_id(&vec![1, 2, 3], SessionType::AuxInfoGen),
        "af5498094f9c8b7bb8cb3f221c9199a059e3cbf9bf7b38d0997773ef15563560"
    );
    assert_eq!(
        session_id(&vec![1, 2, 3], SessionType::KeyGen { threshold: 2 }),
        "a68510fc80ed252ed71b3d0ff75cf5c3665efe520ceaeacd05ed06e4b1144b0d"
    );
    assert_eq!(
        session_id(&vec![1, 2, 3], SessionType::KeyGen { threshold: 258 }),
        "6dbdb737bce95e6df5ad85bce3f267adc0d41f507951a4892d9cdf990b36256c"
    );
    assert_eq!(
        session_id(&vec![ALICE], SessionType::Signing),
        "20f3428c0c2dd23501d59c7f00673cc2e2562dfcb6c84f26e6aaefbb43881c63"
    );
}

#[test]
fn identifier_is_the_digest_of_the_parts() {
    let ids: Vec<u128> = vec![5, ALICE, u128::MAX];
    let uuids: Vec<uuid::Uuid> = ids.iter().map(|id| uuid::Uuid::from_u128(*id)).collect();
    let mut hasher = sha2::Sha256::new();
    hasher.update(serde_json::to_vec(&uuids).unwrap());
    hasher.update(b"{\"KeyGen\":{\"threshold\":300}}");
    hasher.update(300u16.to_le_bytes());
    assert_eq!(
        session_id(&ids, SessionType::KeyGen { threshold: 300 }),
        hex::encode(hasher.finalize())
    );
}

#[test]
fn different_sessions_have_different_bytes() {
    let sessions: Vec<(Vec<u128>, SessionType)> = vec![
        (vec![], SessionType::Signing),
        (vec![], SessionType::AuxInfoGen),
        (vec![1], SessionType::Signing),
        (vec![1, 2], SessionType::Signing),
        (vec![12], SessionType::Signing),
        (vec![1], SessionType::KeyGen { threshold: 1 }),
        (vec![1], SessionType::KeyGen { threshold: 256 }),
    ];
    for i in 0..sessions.len() {
        for j in 0..sessions.len() {
            let a = session_to_bytes(&sessions[i].0, sessions[i].1);
            let b = session_to_bytes(&sessions[j].0, sessions[j].1);
            assert_eq!(a == b, i == j);
        }
    }
}
