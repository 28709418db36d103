//! What a signature and a key look like from outside: the check of a signature,
//! the address of a key, and the lines that report them.

use vstd::prelude::*;
use vstd::string::StringExecFns;

use crate::ids::hex_encode;
use crate::text::decimal_string;

verus! {

/// A byte string as a number, the highest byte first.
pub open spec fn big_endian(bytes: Seq<u8>) -> nat
    decreases bytes.len(),
{
    if bytes.len() == 0 {
        0
    } else {
        256 * big_endian(bytes.drop_last()) + bytes.last() as nat
    }
}

/// The order of the group of secp256k1.
pub open spec fn group_order() -> nat {
    0xffffffff_ffffffff_ffffffff_fffffffe_baaedce6_af48a03b_bfd25e8c_d0364141nat
}

/// A number that a signature may be made of.
pub open spec fn is_scalar(bytes: Seq<u8>) -> bool {
    bytes.len() == 32 && 0 < big_endian(bytes) < group_order()
}

/// The bytes of a signature: its two numbers one after the other.
pub open spec fn is_signature(bytes: Seq<u8>) -> bool {
    bytes.len() == 64 && is_scalar(bytes.take(32)) && is_scalar(bytes.skip(32))
}

/// The bytes encode a public key of secp256k1.
pub uninterp spec fn is_public_key(bytes: Seq<u8>) -> bool;

/// The signature is one of the message under the public key. Of the two values
/// that its second number can have, only the lower one counts.
pub uninterp spec fn ecdsa_holds(public_key: Seq<u8>, message: Seq<u8>, signature: Seq<u8>) -> bool;

/// The Tron address of a public key, if the bytes encode one.
pub uninterp spec fn tron_address_of(public_key: Seq<u8>) -> Option<Seq<char>>;

/// Calls `k256::ecdsa::Signature::from_slice`. Claims that it takes the bytes
/// exactly if there are 64 of them and each half is, the highest byte first, a
/// number above zero and below the order of the group.
#[verifier::external_body]
fn parse_signature(bytes: &[u8]) -> (parsed: bool)
    ensures
        parsed == is_signature(bytes@),
{
    k256::ecdsa::Signature::from_slice(bytes).is_ok()
}

/// Calls `k256::ecdsa::VerifyingKey::from_sec1_bytes`. Claims that whether it
/// takes the bytes rests on the bytes alone.
#[verifier::external_body]
fn parse_public_key(bytes: &[u8]) -> (parsed: bool)
    ensures
        parsed == is_public_key(bytes@),
{
    k256::ecdsa::VerifyingKey::from_sec1_bytes(bytes).is_ok()
}

/// Calls `verify` of `signature::Verifier` for `k256::ecdsa::VerifyingKey`.
/// Claims that the outcome rests on the key, the message and the signature alone.
#[verifier::external_body]
fn verify_message(public_key: &[u8], message: &[u8], signature: &[u8]) -> (holds: bool)
    requires
        is_public_key(public_key@),
        is_signature(signature@),
    ensures
        holds == ecdsa_holds(public_key@, message@, signature@),
{
    let key = k256::ecdsa::VerifyingKey::from_sec1_bytes(public_key).expect("a public key");
    let parsed = k256::ecdsa::Signature::from_slice(signature).expect("a signature");
    signature::Verifier::verify(&key, message, &parsed).is_ok()
}

/// Calls `tronic::domain::address::TronAddress::from_pk` and writes what it
/// gives in the address's own notation. Claims that the address rests on the
/// bytes alone, and that there is one exactly if they encode a public key.
#[verifier::external_body]
fn tron_address(public_key: &[u8]) -> (address: Option<String>)
    ensures
        address is Some <==> is_public_key(public_key@),
        match address {
            Some(address) => tron_address_of(public_key@) == Some(address@),
            None => tron_address_of(public_key@) is None,
        },
{
    match tronic::domain::address::TronAddress::from_pk(public_key) {
        Ok(address) => Some(address.to_string()),
        Err(_) => None,
    }
}

/// What the check of a signature finds.
#[derive(Debug, Clone, Copy, PartialEq, Eq, Structural)]
pub enum Verdict {
    /// The two numbers make no signature.
    BadSignature,
    /// The bytes of the key encode no public key.
    BadKey,
    /// The signature is not one of the message under the key.
    Mismatch,
    /// The signature is one of the message under the key.
    Verified,
}

/// The finding, by whether the signature could be read, whether the key could
/// be read, and whether the signature holds.
pub open spec fn finding(signature_read: bool, key_read: bool, holds: bool) -> Verdict {
    if !signature_read {
        Verdict::BadSignature
    } else if !key_read {
        Verdict::BadKey
    } else if !holds {
        Verdict::Mismatch
    } else {
        Verdict::Verified
    }
}

/// Puts the steps of the check together.
pub fn judge(signature_read: bool, key_read: bool, holds: bool) -> (verdict: Verdict)
    ensures
        verdict == finding(signature_read, key_read, holds),
{
    if !signature_read {
        Verdict::BadSignature
    } else if !key_read {
        Verdict::BadKey
    } else if !holds {
        Verdict::Mismatch
    } else {
        Verdict::Verified
    }
}

/// Joins the two numbers of a signature.
pub fn compact_signature(r: &[u8], s: &[u8]) -> (signature: Vec<u8>)
    requires
        r@.len() == 32,
        s@.len() == 32,
    ensures
        signature@ == r@ + s@,
        signature@.len() == 64,
        is_signature(signature@) <==> is_scalar(r@) && is_scalar(s@),
{
    let mut signature: Vec<u8> = Vec::new();
    signature.extend_from_slice(r);
    signature.extend_from_slice(s);
    proof {
        assert(signature@ =~= r@ + s@);
        assert(signature@.take(32) =~= r@);
        assert(signature@.skip(32) =~= s@);
    }
    signature
}

/// Checks that `r` and `s` sign the message under the public key.
pub fn verify_signature(public_key: &[u8], message: &[u8], r: &[u8], s: &[u8]) -> (verdict: Verdict)
    requires
        r@.len() == 32,
        s@.len() == 32,
    ensures
        verdict == finding(
            is_scalar(r@) && is_scalar(s@),
            is_public_key(public_key@),
            ecdsa_holds(public_key@, message@, r@ + s@),
        ),
{
    let signature: Vec<u8> = compact_signature(r, s);
    let signature_read: bool = parse_signature(signature.as_slice());
    let key_read: bool = parse_public_key(public_key);
    let holds: bool = signature_read && key_read && verify_message(
        public_key,
        message,
        signature.as_slice(),
    );
    judge(signature_read, key_read, holds)
}

/// A text behind its label.
pub fn labelled(label: &str, text: &str) -> (line: String)
    ensures
        line@ == label@ + text@,
{
    label.to_owned().concat(text)
}

/// The line that shows the address of a key; there is none if the bytes encode
/// no key.
pub fn address_line(label: &str, public_key: &[u8]) -> (line: Option<String>)
    ensures
        match tron_address_of(public_key@) {
            Some(address) => line matches Some(line) && line@ == label@ + address,
            None => line is None,
        },
        line is Some <==> is_public_key(public_key@),
{
    match tron_address(public_key) {
        Some(address) => Some(labelled(label, address.as_str())),
        None => None,
    }
}

/// The line that shows the secret share of party `i`, counted from zero and,
/// in front, from one.
pub fn share_line(i: u16, secret: &[u8]) -> (line: String)
    ensures
        line@ == "Участник "@ + crate::text::decimal((i + 1) as nat) + " (Индекс "@
            + crate::text::decimal(i as nat) + "): Секретная доля (x_i): "@
            + crate::text::hex_text(secret@),
{
    let mut line: String = "Участник ".to_owned();
    line.append(decimal_string(i as u64 + 1).as_str());
    line.append(" (Индекс ");
    line.append(decimal_string(i as u64).as_str());
    line.append("): Секретная доля (x_i): ");
    line.append(hex_encode(secret).as_str());
    line
}

/// The line that shows the two numbers of a signature.
pub fn signature_line(label: &str, r: &[u8], s: &[u8]) -> (line: String)
    ensures
        line@ == label@ + " r: "@ + crate::text::hex_text(r@) + " s: "@ + crate::text::hex_text(s@),
{
    let mut line: String = label.to_owned();
    line.append(" r: ");
    line.append(hex_encode(r).as_str());
    line.append(" s: ");
    line.append(hex_encode(s).as_str());
    line
}

/// A byte more makes a number 256 times as large, and the byte is added.
pub proof fn law_big_endian_appends(bytes: Seq<u8>, b: u8)
    ensures
        big_endian(Seq::empty()) == 0,
        big_endian(bytes.push(b)) == 256 * big_endian(bytes) + b,
{
    assert(bytes.push(b).drop_last() =~= bytes);
}

/// Two byte strings make a signature exactly if each has 32 bytes and is, as a
/// number, above zero and below the order of the group.
pub proof fn law_signature_range(r: Seq<u8>, s: Seq<u8>)
    requires
        r.len() == 32,
        s.len() == 32,
    ensures
        is_signature(r + s) <==> {
            &&& 0 < big_endian(r)
                < 115792089237316195423570985008687907852837564279074904382605163141518161494337
            &&& 0 < big_endian(s)
                < 115792089237316195423570985008687907852837564279074904382605163141518161494337
        },
        is_scalar(r) && is_scalar(s) <==> is_signature(r + s),
{
    assert((r + s).take(32) =~= r);
    assert((r + s).skip(32) =~= s);
}

/// What is no signature is never verified, nor is anything under what is no key,
/// nor what does not hold; the finding names the first of these that fails.
pub proof fn law_finding(signature_read: bool, key_read: bool, holds: bool)
    ensures
        finding(signature_read, key_read, holds) is Verified <==> signature_read && key_read
            && holds,
        finding(signature_read, key_read, holds) is BadSignature <==> !signature_read,
        finding(signature_read, key_read, holds) is BadKey <==> signature_read && !key_read,
        finding(signature_read, key_read, holds) is Mismatch <==> signature_read && key_read
            && !holds,
{
}

/// A signature is checked as its two numbers stand: it is verified exactly if
/// both are above zero and below the order of the group, the key is one, and the
/// two hold for the message under the key.
pub proof fn law_verified(
    public_key: &[u8],
    message: &[u8],
    r: &[u8],
    s: &[u8],
    joined: Vec<u8>,
    verdict: Verdict,
)
    requires
        r@.len() == 32,
        s@.len() == 32,
        call_ensures(compact_signature, (r, s), joined),
        call_ensures(verify_signature, (public_key, message, r, s), verdict),
    ensures
        joined@ == r@ + s@,
        verdict is BadSignature <==> !is_signature(r@ + s@),
        verdict is BadKey <==> is_signature(r@ + s@) && !is_public_key(public_key@),
        verdict is Verified <==> is_signature(r@ + s@) && is_public_key(public_key@) && ecdsa_holds(
            public_key@,
            message@,
            r@ + s@,
        ),
{
    law_signature_range(r@, s@);
}

/// The lines show what they are about: the address of the key behind its label,
/// the index of the party counted from one and from zero with its share, and the
/// two numbers of the signature.
pub proof fn law_lines(
    label: &str,
    public_key: &[u8],
    i: u16,
    secret: &[u8],
    r: &[u8],
    s: &[u8],
    address: Option<String>,
    share: String,
    signature: String,
)
    requires
        call_ensures(address_line, (label, public_key), address),
        call_ensures(share_line, (i, secret), share),
        call_ensures(signature_line, (label, r, s), signature),
    ensures
        address is Some <==> is_public_key(public_key@),
        address matches Some(line) ==> (tron_address_of(public_key@) matches Some(text) && line@
            == label@ + text),
        share@ == "Участник "@ + crate::text::decimal((i + 1) as nat) + " (Индекс "@
            + crate::text::decimal(i as nat) + "): Секретная доля (x_i): "@
            + crate::text::hex_text(secret@),
        signature@ == label@ + " r: "@ + crate::text::hex_text(r@) + " s: "@
            + crate::text::hex_text(s@),
{
}

} // verus!
