use k256::ecdsa::{Signature, SigningKey};
use mpc::security::{Mid, SecurityParams, Std};
use mpc::signing::{
    address_line, compact_signature, judge, labelled, share_line, signature_line,
    verify_signature, Verdict,
};
use signature::Signer;

fn key() -> SigningKey {
    let secret =
        hex::decode("41b66b36c9d31903a170f664fdd6fc8e7a575b3e753a61a609b0170561c29f95").unwrap();
    SigningKey::from_slice(&secret).unwrap()
}

fn public_key() -> Vec<u8> {
    key().verifying_key().to_encoded_point(false).as_bytes().to_vec()
}

#[test]
fn full_level() {
    assert_eq!(
        Std::params(),
        SecurityParams {
            kappa_bits: 256,
            rsa_prime_bitlen: 1536,
            rsa_pubkey_bitlen: 3071,
            epsilon: 256 * 2,
            ell: 256,
            ell_prime: 256 * 5,
            m: 128,
        }
    );
}

#[test]
fn middle_level() {
    assert_eq!(
        Mid::params(),
        SecurityParams {
            kappa_bits: 192,
            rsa_prime_bitlen: 1024,
            rsa_pubkey_bitlen: 2 * 1024 - 1,
            epsilon: 192 * 2,
            ell: 192,
            ell_prime: 192 * 5,
            m: 128,
        }
    );
    assert_eq!(mpc::Mid::KAPPA_BITS, 192);
}

#[test]
fn signature_is_verified() {
    let signed: Signature = key().sign(b"hello");
    let bytes = signed.to_bytes();
    let (r, s) = (&bytes[..32], &bytes[32..]);
    assert_eq!(verify_signature(&public_key(), b"hello", r, s), Verdict::Verified);
    assert_eq!(verify_signature(&public_key(), b"hullo", r, s), Verdict::Mismatch);
    assert_eq!(verify_signature(&public_key(), b"hello", s, r), Verdict::Mismatch);
    assert_eq!(verify_signature(&[4, 1, 2], b"hello", r, s), Verdict::BadKey);
    assert_eq!(verify_signature(&[], b"hello", r, s), Verdict::BadKey);
}

#[test]
fn numbers_out_of_range_make_no_signature() {
    let order =
        hex::decode("fffffffffffffffffffffffffffffffebaaedce6af48a03bbfd25e8cd0364141").unwrap();
    let mut last = order.clone();
    last[31] -= 1;
    let mut one = vec![0u8; 32];
    one[31] = 1;
    let zero = vec![0u8; 32];
    let pk = public_key();
    assert_eq!(verify_signature(&pk, b"hello", &zero, &one), Verdict::BadSignature);
    assert_eq!(verify_signature(&pk, b"hello", &one, &zero), Verdict::BadSignature);
    assert_eq!(verify_signature(&pk, b"hello", &order, &one), Verdict::BadSignature);
    assert_eq!(verify_signature(&pk, b"hello", &one, &order), Verdict::BadSignature);
    assert_eq!(verify_signature(&pk, b"hello", &last, &one), Verdict::Mismatch);
    assert_eq!(verify_signature(&[], b"hello", &zero, &one), Verdict::BadSignature);
}

#[test]
fn steps_of_the_check() {
    assert_eq!(judge(false, false, false), Verdict::BadSignature);
    assert_eq!(judge(false, true, true), Verdict::BadSignature);
    assert_eq!(judge(true, false, true), Verdict::BadKey);
    assert_eq!(judge(true, true, false), Verdict::Mismatch);
    assert_eq!(judge(true, true, true), Verdict::Verified);
}

#[test]
fn numbers_are_joined() {
    let signature = compact_signature(&[1; 32], &[2; 32]);
    assert_eq!(signature.len(), 64);
    assert_eq!(signature[..32], [1; 32]);
    assert_eq!(signature[32..], [2; 32]);
}

#[test]
fn address_of_a_key() {
    let line = address_line("Tron addr: ", &public_key());
    assert_eq!(line, Some(String::from("Tron addr: TPgzPCV8abFBaWEyh7kBeDdiMFcKEX2CJE")));
    let compressed = key().verifying_key().to_encoded_point(true).as_bytes().to_vec();
    assert_eq!(address_line("Tron addr: ", &compressed), line);
}

#[test]
fn no_address_without_a_key() {
    assert_eq!(address_line("Tron addr: ", &[]), None);
    assert_eq!(address_line("Tron addr: ", &[0]), None);
    assert_eq!(address_line("Tron addr: ", &[4; 65]), None);
}

#[test]
fn labels() {
    assert_eq!(labelled("a: ", "b"), "a: b");
}

#[test]
fn line_of_a_share() {
    assert_eq!(
        share_line(0, &[0x00, 0x0f, 0xa5]),
        "Участник 1 (Индекс 0): Секретная доля (x_i): 000fa5"
    );
    assert_eq!(share_line(65535, &[]), "Участник 65536 (Индекс 65535): Секретная доля (x_i): ");
}

#[test]
fn line_of_a_signature() {
    assert_eq!(
        signature_line("signature on \"hello\":", &[0xff], &[0x10, 0x02]),
        "signature on \"hello\": r: ff s: 1002"
    );
}
