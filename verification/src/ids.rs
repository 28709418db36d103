//! The identifier that a session gets from its participants, each known by a
//! UUID, and from what they compute.

use std::collections::HashSet;

use vstd::prelude::*;
use vstd::string::StringExecFns;

use crate::protocol::SessionType;
use crate::text::{decimal_string, text_bytes};

verus! {

broadcast use vstd::std_specs::hash::group_hash_axioms;

/// The SHA-256 digest of a byte string.
pub uninterp spec fn sha256_digest(data: Seq<u8>) -> Seq<u8>;

/// UUIDs as the items of a JSON array.
pub open spec fn json_items(ids: Seq<u128>) -> Seq<char>
    decreases ids.len(),
{
    if ids.len() == 0 {
        Seq::empty()
    } else if ids.len() == 1 {
        seq!['"'] + crate::uuids::hyphenated(ids[0]) + seq!['"']
    } else {
        json_items(ids.drop_last()) + seq![',', '"'] + crate::uuids::hyphenated(ids.last())
            + seq!['"']
    }
}

/// A JSON array of UUIDs.
pub open spec fn json_id_list(ids: Seq<u128>) -> Seq<char> {
    seq!['['] + json_items(ids) + seq![']']
}

/// Calls `serde_json::to_vec` on a `Vec` of `uuid::Uuid`. Claims that it writes
/// a JSON array of strings, without spaces, each string a UUID in the lower case
/// notation with hyphens.
#[verifier::external_body]
fn uuid_list_to_json(ids: &Vec<u128>) -> (json: Vec<u8>)
    ensures
        json@ == crate::text::ascii_bytes(json_id_list(ids@)),
{
    let list: Vec<uuid::Uuid> = ids.iter().map(|id| uuid::Uuid::from_u128(*id)).collect();
    serde_json::to_vec(&list).expect("a list of UUIDs has a JSON form")
}

/// Calls `sha2::Sha256::digest`. Claims that the digest rests on the data alone
/// and has 32 bytes.
#[verifier::external_body]
fn sha256(data: &Vec<u8>) -> (digest: Vec<u8>)
    ensures
        digest@ == sha256_digest(data@),
        digest@.len() == 32,
{
    <sha2::Sha256 as sha2::Digest>::digest(data).to_vec()
}

/// Calls `hex::encode`. Claims that it writes two lower case digits for each
/// byte, the high half first.
#[verifier::external_body]
pub(crate) fn hex_encode(data: &[u8]) -> (text: String)
    ensures
        text@ == crate::text::hex_text(data@),
{
    hex::encode(data)
}

/// Each item is below those that follow it.
pub open spec fn increasing(s: Seq<u128>) -> bool {
    forall|i: int, j: int| 0 <= i < j < s.len() ==> s[i] < s[j]
}

/// `s` lists the members of `set` in increasing order.
pub open spec fn lists(s: Seq<u128>, set: Set<u128>) -> bool {
    increasing(s) && s.to_set() == set
}

/// The members of a set in increasing order.
pub open spec fn sorted_members(set: Set<u128>) -> Seq<u128> {
    choose|s: Seq<u128>| lists(s, set)
}

/// A set has only one listing in increasing order.
pub proof fn lemma_listing_unique(s: Seq<u128>, t: Seq<u128>)
    requires
        increasing(s),
        increasing(t),
        s.to_set() == t.to_set(),
    ensures
        s == t,
    decreases s.len(),
{
    if s.len() == 0 {
        if t.len() > 0 {
            assert(t.to_set().contains(t[0]));
            assert(s.contains(t[0]));
        }
        assert(s =~= t);
    } else {
        assert(s.to_set().contains(s.last()));
        assert(t.contains(s.last()));
        assert(t.to_set().contains(t.last()));
        assert(s.contains(t.last()));
        let a = choose|i: int| 0 <= i < t.len() && t[i] == s.last();
        let b = choose|i: int| 0 <= i < s.len() && s[i] == t.last();
        assert(s.last() == t.last());
        let sd = s.drop_last();
        let td = t.drop_last();
        assert forall|x: u128| sd.contains(x) implies td.contains(x) by {
            let i = choose|i: int| 0 <= i < sd.len() && sd[i] == x;
            assert(s[i] == x);
            assert(s.to_set().contains(x));
            assert(t.contains(x));
            let j = choose|j: int| 0 <= j < t.len() && t[j] == x;
            assert(td[j] == x);
        }
        assert forall|x: u128| td.contains(x) implies sd.contains(x) by {
            let i = choose|i: int| 0 <= i < td.len() && td[i] == x;
            assert(t[i] == x);
            assert(t.to_set().contains(x));
            assert(s.contains(x));
            let j = choose|j: int| 0 <= j < s.len() && s[j] == x;
            assert(sd[j] == x);
        }
        assert(sd.to_set() =~= td.to_set());
        lemma_listing_unique(sd, td);
        assert(s =~= sd.push(s.last()));
        assert(t =~= td.push(t.last()));
    }
}

/// A listing of a set is the listing.
pub proof fn lemma_sorted_members(s: Seq<u128>, set: Set<u128>)
    requires
        lists(s, set),
    ensures
        sorted_members(set) == s,
{
    lemma_listing_unique(s, sorted_members(set));
}

/// `s` with `id` put in its place.
spec fn with_member(s: Seq<u128>, id: u128) -> Seq<u128>
    decreases s.len(),
{
    if s.len() == 0 || s.last() < id {
        s.push(id)
    } else {
        with_member(s.drop_last(), id).push(s.last())
    }
}

proof fn lemma_with_member(s: Seq<u128>, id: u128)
    requires
        increasing(s),
        !s.contains(id),
    ensures
        lists(with_member(s, id), s.to_set().insert(id)),
    decreases s.len(),
{
    let after = with_member(s, id);
    if s.len() == 0 || s.last() < id {
        assert(after.last() == id);
        assert forall|x: u128| s.contains(x) || x == id implies #[trigger] after.contains(x) by {
            if x != id {
                let i = choose|i: int| 0 <= i < s.len() && s[i] == x;
                assert(after[i] == x);
            }
        }
    } else {
        let rest = s.drop_last();
        let head = with_member(rest, id);
        assert(s.contains(s.last()));
        assert forall|x: u128| rest.contains(x) implies s.contains(x) && x < s.last() by {
            let i = choose|i: int| 0 <= i < rest.len() && rest[i] == x;
            assert(s[i] == x);
        }
        lemma_with_member(rest, id);
        assert forall|i: int| 0 <= i < head.len() implies #[trigger] head[i] < s.last() by {
            assert(head.to_set().contains(head[i]));
        }
        assert(after == head.push(s.last()));
        assert forall|x: u128| #[trigger] after.contains(x) implies s.contains(x) || x == id by {
            let i = choose|i: int| 0 <= i < after.len() && after[i] == x;
            if i < head.len() {
                assert(head.to_set().contains(head[i]));
            }
        }
        assert forall|x: u128| s.contains(x) || x == id implies #[trigger] after.contains(x) by {
            if x == s.last() {
                assert(after.last() == x);
            } else {
                if x != id {
                    let i = choose|i: int| 0 <= i < s.len() && s[i] == x;
                    assert(rest[i] == x);
                }
                assert(head.to_set().contains(x));
                let i = choose|i: int| 0 <= i < head.len() && head[i] == x;
                assert(after[i] == x);
            }
        }
    }
    assert(after.to_set() =~= s.to_set().insert(id));
}

/// Every finite set has a listing in increasing order.
pub proof fn lemma_listing_exists(set: Set<u128>)
    requires
        set.finite(),
    ensures
        lists(sorted_members(set), set),
    decreases set.len(),
{
    if set.is_empty() {
        assert(Seq::<u128>::empty().to_set() =~= set);
        assert(lists(Seq::empty(), set));
    } else {
        let id = set.choose();
        let rest = set.remove(id);
        lemma_listing_exists(rest);
        let s = sorted_members(rest);
        assert(!s.to_set().contains(id));
        lemma_with_member(s, id);
        assert(rest.insert(id) =~= set);
        assert(lists(with_member(s, id), set));
    }
}

/// Puts `id` in its place, unless it is there already.
fn insert_sorted(list: &mut Vec<u128>, id: u128)
    requires
        increasing(old(list)@),
    ensures
        increasing(final(list)@),
        final(list)@.to_set() == old(list)@.to_set().insert(id),
{
    let ghost before = list@;
    let mut place: usize = 0;
    while place < list.len() && list[place] < id
        invariant
            place <= list.len(),
            list@ == before,
            forall|i: int| 0 <= i < place ==> list@[i] < id,
        decreases list.len() - place,
    {
        place += 1;
    }
    if place < list.len() && list[place] == id {
        assert(before.contains(id));
        assert(list@.to_set() =~= before.to_set().insert(id));
    } else {
        list.insert(place, id);
        proof {
            let after = list@;
            assert forall|x: u128| #[trigger] after.contains(x) implies before.contains(x)
                || x == id by {
                let i = choose|i: int| 0 <= i < after.len() && after[i] == x;
                if i < place {
                    assert(before[i] == x);
                } else if i > place {
                    assert(before[i - 1] == x);
                }
            }
            assert forall|x: u128| #[trigger] before.contains(x) implies after.contains(x) by {
                let i = choose|i: int| 0 <= i < before.len() && before[i] == x;
                if i < place {
                    assert(after[i] == x);
                } else {
                    assert(after[i + 1] == x);
                }
            }
            assert(after[place as int] == id);
            assert(after.to_set() =~= before.to_set().insert(id));
        }
    }
}

/// Lists the participants in increasing order.
pub fn sorted_participants(participants: &HashSet<u128>) -> (list: Vec<u128>)
    ensures
        lists(list@, participants@),
        list@ == sorted_members(participants@),
{
    let mut list: Vec<u128> = Vec::new();
    assert(list@.to_set() =~= Set::<u128>::empty());
    for id in walk: participants.iter()
        invariant
            increasing(list@),
            forall|x: u128| #[trigger]
                list@.to_set().contains(x) ==> walk.seq().unref().to_set().contains(x),
            forall|k: int|
                0 <= k < walk.index() ==> list@.to_set().contains(#[trigger] walk.seq().unref()[k]),
    {
        let ghost order = walk.seq().unref();
        assert(order[walk.index()] == *id);
        assert(order.to_set().contains(*id));
        insert_sorted(&mut list, *id);
    }
    proof {
        let order = vstd::std_specs::iter::IteratorSpec::remaining(&participants.iter()).unref();
        assert(order.to_set() == participants@);
        assert forall|x: u128| participants@.contains(x) implies list@.to_set().contains(x) by {
            assert(order.contains(x));
            let k = choose|k: int| 0 <= k < order.len() && order[k] == x;
            assert(list@.to_set().contains(order[k]));
        }
        assert(list@.to_set() =~= participants@);
        lemma_sorted_members(list@, participants@);
    }
    list
}

/// The JSON form of what a session computes.
pub open spec fn session_type_json(session_type: SessionType) -> Seq<char> {
    match session_type {
        SessionType::AuxInfoGen => "\"AuxInfoGen\""@,
        SessionType::KeyGen { threshold } => "{\"KeyGen\":{\"threshold\":"@ + crate::text::decimal(
            threshold as nat,
        ) + "}}"@,
        SessionType::Signing => "\"Signing\""@,
    }
}

/// The threshold of a key generation as two bytes, the low one first.
pub open spec fn threshold_bytes(session_type: SessionType) -> Seq<u8> {
    match session_type {
        SessionType::KeyGen { threshold } => seq![
            (threshold % 256) as u8,
            (threshold / 256) as u8,
        ],
        _ => Seq::empty(),
    }
}

/// What a session is hashed from: its participants, what they compute, and the
/// threshold where there is one.
pub open spec fn session_bytes(participants: Seq<u128>, session_type: SessionType) -> Seq<u8> {
    crate::text::ascii_bytes(json_id_list(participants)) + crate::text::ascii_bytes(
        session_type_json(session_type),
    ) + threshold_bytes(session_type)
}

/// The identifier of a session: the digest of what it is hashed from, in
/// hexadecimal notation.
pub open spec fn session_id_text(participants: Seq<u128>, session_type: SessionType) -> Seq<char> {
    crate::text::hex_text(sha256_digest(session_bytes(participants, session_type)))
}

/// Writes what a session computes in JSON.
pub fn session_type_to_json(session_type: SessionType) -> (json: Vec<u8>)
    ensures
        json@ == crate::text::ascii_bytes(session_type_json(session_type)),
{
    proof {
        lemma_session_type_json_is_ascii(session_type);
    }
    let text: String = match session_type {
        SessionType::AuxInfoGen => "\"AuxInfoGen\"".to_owned(),
        SessionType::KeyGen { threshold } => {
            let mut text: String = "{\"KeyGen\":{\"threshold\":".to_owned();
            text.append(decimal_string(threshold as u64).as_str());
            text.append("}}");
            text
        },
        SessionType::Signing => "\"Signing\"".to_owned(),
    };
    text_bytes(&text)
}

/// Collects what a session is hashed from.
pub fn session_to_bytes(participants: &Vec<u128>, session_type: SessionType) -> (bytes: Vec<u8>)
    ensures
        bytes@ == session_bytes(participants@, session_type),
{
    let mut bytes: Vec<u8> = uuid_list_to_json(participants);
    let mut json: Vec<u8> = session_type_to_json(session_type);
    bytes.append(&mut json);
    if let SessionType::KeyGen { threshold } = session_type {
        bytes.push((threshold % 256) as u8);
        bytes.push((threshold / 256) as u8);
    }
    assert(bytes@ =~= session_bytes(participants@, session_type));
    bytes
}

/// Computes the identifier of the session of `participants`.
pub fn session_id(participants: &Vec<u128>, session_type: SessionType) -> (id: String)
    ensures
        id@ == session_id_text(participants@, session_type),
        id@.len() == 64,
{
    let bytes: Vec<u8> = session_to_bytes(participants, session_type);
    let digest: Vec<u8> = sha256(&bytes);
    hex_encode(digest.as_slice())
}

proof fn lemma_session_type_json_is_ascii(session_type: SessionType)
    ensures
        vstd::utf8::is_ascii_chars(session_type_json(session_type)),
{
    reveal_strlit("\"AuxInfoGen\"");
    reveal_strlit("{\"KeyGen\":{\"threshold\":");
    reveal_strlit("}}");
    reveal_strlit("\"Signing\"");
    if let SessionType::KeyGen { threshold } = session_type {
        crate::text::lemma_decimal_is_ascii(threshold as nat);
    }
}

/// A character that may stand between the brackets of a JSON array of UUIDs.
spec fn item_char(c: char) -> bool {
    '\0' <= c <= '\u{7f}' && c != ']'
}

/// The length of a list of UUIDs in JSON.
proof fn lemma_json_items_len(ids: Seq<u128>)
    ensures
        json_items(ids).len() == if ids.len() == 0 {
            0
        } else {
            39 * ids.len() - 1
        },
    decreases ids.len(),
{
    if ids.len() == 1 {
        crate::uuids::lemma_hyphenated_chars(ids[0]);
    } else if ids.len() > 1 {
        crate::uuids::lemma_hyphenated_chars(ids.last());
        lemma_json_items_len(ids.drop_last());
    }
}

/// A list of UUIDs in JSON holds ASCII characters only, and no bracket inside.
proof fn lemma_json_items_chars(ids: Seq<u128>)
    ensures
        forall|i: int|
            0 <= i < json_items(ids).len() ==> item_char(#[trigger] json_items(ids)[i]),
    decreases ids.len(),
{
    if ids.len() > 0 {
        let head = if ids.len() == 1 {
            seq!['"']
        } else {
            json_items(ids.drop_last()) + seq![',', '"']
        };
        let id = crate::uuids::hyphenated(ids.last());
        crate::uuids::lemma_hyphenated_chars(ids.last());
        lemma_json_items_chars(ids.drop_last());
        assert(json_items(ids) =~= head + id + seq!['"']);
        assert forall|i: int| 0 <= i < json_items(ids).len() implies item_char(
            #[trigger] json_items(ids)[i],
        ) by {
            if i < head.len() {
                assert(json_items(ids)[i] == head[i]);
                if ids.len() > 1 && i < json_items(ids.drop_last()).len() {
                    assert(head[i] == json_items(ids.drop_last())[i]);
                }
            } else if i < head.len() + 36 {
                assert(json_items(ids)[i] == id[i - head.len()]);
            }
        }
    }
}

/// A JSON array of UUIDs holds ASCII characters only; a closing bracket is its
/// last character and no other.
proof fn lemma_json_list_chars(ids: Seq<u128>)
    ensures
        vstd::utf8::is_ascii_chars(json_id_list(ids)),
        json_id_list(ids).len() >= 2,
        json_id_list(ids).last() == ']',
        forall|i: int|
            0 <= i < json_id_list(ids).len() - 1 ==> #[trigger] json_id_list(ids)[i] != ']',
{
    lemma_json_items_chars(ids);
    let list = json_id_list(ids);
    assert(list[0] == '[');
    assert(list.last() == ']');
    assert forall|i: int| 0 <= i < list.len() - 1 implies item_char(#[trigger] list[i]) by {
        if i > 0 {
            assert(list[i] == json_items(ids)[i - 1]);
        }
    }
    assert forall|i: int| 0 <= i < list.len() implies '\0' <= #[trigger] list[i] <= '\u{7f}' by {
        if i < list.len() - 1 {
            assert(item_char(list[i]));
        } else {
            assert(list[i] == ']');
        }
    }
}

/// Lists of UUIDs are told apart by their JSON forms.
proof fn lemma_json_items_injective(a: Seq<u128>, b: Seq<u128>)
    requires
        json_items(a) == json_items(b),
    ensures
        a == b,
    decreases a.len(),
{
    lemma_json_items_len(a);
    lemma_json_items_len(b);
    assert(a.len() == b.len());
    if a.len() > 0 {
        let ha = crate::uuids::hyphenated(a.last());
        let hb = crate::uuids::hyphenated(b.last());
        crate::uuids::lemma_hyphenated_chars(a.last());
        crate::uuids::lemma_hyphenated_chars(b.last());
        let n = json_items(a).len();
        assert forall|k: int| 0 <= k < 36 implies ha[k] == hb[k] by {
            assert(json_items(a)[n - 37 + k] == ha[k]);
            assert(json_items(b)[n - 37 + k] == hb[k]);
        }
        assert(ha =~= hb);
        crate::uuids::lemma_hyphenated_injective(a.last(), b.last());
        let pa = json_items(a.drop_last());
        let pb = json_items(b.drop_last());
        lemma_json_items_len(a.drop_last());
        lemma_json_items_len(b.drop_last());
        assert forall|k: int| 0 <= k < pa.len() implies pa[k] == pb[k] by {
            assert(json_items(a)[k] == pa[k]);
            assert(json_items(b)[k] == pb[k]);
        }
        assert(pa =~= pb);
        lemma_json_items_injective(a.drop_last(), b.drop_last());
        assert(a =~= a.drop_last().push(a.last()));
        assert(b =~= b.drop_last().push(b.last()));
    } else {
        assert(a =~= b);
    }
}

/// Texts of ASCII characters are told apart by their bytes.
proof fn lemma_ascii_bytes_injective(a: Seq<char>, b: Seq<char>)
    requires
        vstd::utf8::is_ascii_chars(a),
        vstd::utf8::is_ascii_chars(b),
        crate::text::ascii_bytes(a) == crate::text::ascii_bytes(b),
    ensures
        a == b,
{
    assert(crate::text::ascii_bytes(a).len() == a.len());
    assert(crate::text::ascii_bytes(b).len() == b.len());
    assert forall|i: int| 0 <= i < a.len() implies a[i] == b[i] by {
        assert(crate::text::ascii_bytes(a)[i] == a[i] as u8);
        assert(crate::text::ascii_bytes(b)[i] == b[i] as u8);
    }
    assert(a =~= b);
}

/// What is hashed after the participants tells the computations apart.
proof fn lemma_type_bytes_injective(a: SessionType, b: SessionType)
    requires
        crate::text::ascii_bytes(session_type_json(a)) + threshold_bytes(a)
            == crate::text::ascii_bytes(session_type_json(b)) + threshold_bytes(b),
    ensures
        a == b,
{
    reveal_strlit("\"AuxInfoGen\"");
    reveal_strlit("{\"KeyGen\":{\"threshold\":");
    reveal_strlit("}}");
    reveal_strlit("\"Signing\"");
    let ta = crate::text::ascii_bytes(session_type_json(a)) + threshold_bytes(a);
    let tb = crate::text::ascii_bytes(session_type_json(b)) + threshold_bytes(b);
    assert(ta.len() == tb.len());
    assert(ta[0] == tb[0]);
    assert(ta[1] == tb[1]);
    match (a, b) {
        (SessionType::KeyGen { threshold: m }, SessionType::KeyGen { threshold: n }) => {
            assert(ta[ta.len() - 2] == (m % 256) as u8);
            assert(tb[tb.len() - 2] == (n % 256) as u8);
            assert(ta[ta.len() - 1] == (m / 256) as u8);
            assert(tb[tb.len() - 1] == (n / 256) as u8);
        },
        _ => {},
    }
}

/// Sessions that differ in their participants or in what they compute are
/// hashed from different bytes.
pub proof fn law_session_bytes_injective(
    p: Seq<u128>,
    a: SessionType,
    q: Seq<u128>,
    b: SessionType,
)
    requires
        session_bytes(p, a) == session_bytes(q, b),
    ensures
        p == q,
        a == b,
{
    let lp = json_id_list(p);
    let lq = json_id_list(q);
    let whole_p = session_bytes(p, a);
    let whole_q = session_bytes(q, b);
    let tail_p = crate::text::ascii_bytes(session_type_json(a)) + threshold_bytes(a);
    let tail_q = crate::text::ascii_bytes(session_type_json(b)) + threshold_bytes(b);
    lemma_json_list_chars(p);
    lemma_json_list_chars(q);
    assert(whole_p =~= crate::text::ascii_bytes(lp) + tail_p);
    assert(whole_q =~= crate::text::ascii_bytes(lq) + tail_q);
    if lp.len() < lq.len() {
        let k = lp.len() - 1;
        assert(whole_p[k] == lp[k] as u8);
        assert(whole_q[k] == lq[k] as u8);
        assert(false);
    }
    if lq.len() < lp.len() {
        let k = lq.len() - 1;
        assert(whole_p[k] == lp[k] as u8);
        assert(whole_q[k] == lq[k] as u8);
        assert(false);
    }
    let n = lp.len() as int;
    assert(crate::text::ascii_bytes(lp) =~= whole_p.take(n));
    assert(crate::text::ascii_bytes(lq) =~= whole_q.take(n));
    assert(tail_p =~= whole_p.skip(n));
    assert(tail_q =~= whole_q.skip(n));
    lemma_ascii_bytes_injective(lp, lq);
    assert(json_items(p) =~= lp.subrange(1, n - 1));
    assert(json_items(q) =~= lq.subrange(1, n - 1));
    lemma_json_items_injective(p, q);
    lemma_type_bytes_injective(a, b);
}

/// Two sessions share an identifier only if they have the same participants and
/// compute the same thing, as long as the digest keeps apart what the two are
/// hashed from.
pub proof fn law_session_id_identifies(
    p: Seq<u128>,
    a: SessionType,
    q: Seq<u128>,
    b: SessionType,
)
    requires
        sha256_digest(session_bytes(p, a)) == sha256_digest(session_bytes(q, b)) ==> session_bytes(
            p,
            a,
        ) == session_bytes(q, b),
        session_id_text(p, a) == session_id_text(q, b),
    ensures
        p == q,
        a == b,
{
    crate::text::lemma_hex_text_injective(
        sha256_digest(session_bytes(p, a)),
        sha256_digest(session_bytes(q, b)),
    );
    law_session_bytes_injective(p, a, q, b);
}

/// Two requests lead to the same session exactly if they name the same
/// participants and the same computation, whatever their tags and in whatever
/// order the participants come, as long as the digest keeps apart what the two
/// sessions are hashed from.
pub proof fn law_same_request_same_session(
    p: Set<u128>,
    a: SessionType,
    q: Set<u128>,
    b: SessionType,
)
    requires
        p.finite(),
        q.finite(),
        sha256_digest(session_bytes(sorted_members(p), a)) == sha256_digest(
            session_bytes(sorted_members(q), b),
        ) ==> session_bytes(sorted_members(p), a) == session_bytes(sorted_members(q), b),
    ensures
        session_id_text(sorted_members(p), a) == session_id_text(sorted_members(q), b) <==> p == q
            && a == b,
{
    lemma_listing_exists(p);
    lemma_listing_exists(q);
    if session_id_text(sorted_members(p), a) == session_id_text(sorted_members(q), b) {
        law_session_id_identifies(sorted_members(p), a, sorted_members(q), b);
    }
}

/// The participants of a session are listed each once, from the lowest to the
/// highest, and nobody else is.
pub proof fn law_participants_are_listed(set: Set<u128>)
    requires
        set.finite(),
    ensures
        forall|i: int, j: int|
            0 <= i < j < sorted_members(set).len() ==> #[trigger] sorted_members(set)[i]
                < #[trigger] sorted_members(set)[j],
        forall|id: u128| #[trigger] sorted_members(set).contains(id) <==> set.contains(id),
{
    lemma_listing_exists(set);
    assert forall|id: u128| #[trigger] sorted_members(set).contains(id) == set.contains(id) by {
        assert(sorted_members(set).to_set().contains(id) == sorted_members(set).contains(id));
    }
}

/// A JSON list stands between brackets. Each item takes 39 places: a quotation
/// mark, the 36 characters of the UUID, a quotation mark, and a comma if another
/// item follows.
pub proof fn law_json_list_places(ids: Seq<u128>, i: int)
    requires
        0 <= i < ids.len(),
    ensures
        json_id_list(Seq::empty()) == seq!['[', ']'],
        json_id_list(ids).len() == 39 * ids.len() + 1,
        json_id_list(ids)[0] == '[',
        json_id_list(ids).last() == ']',
        json_id_list(ids)[39 * i + 1] == '"',
        forall|k: int|
            0 <= k < 36 ==> json_id_list(ids)[39 * i + 2 + k]
                == #[trigger] crate::uuids::hyphenated(ids[i])[k],
        json_id_list(ids)[39 * i + 38] == '"',
        i < ids.len() - 1 ==> json_id_list(ids)[39 * i + 39] == ',',
{
    assert(json_items(Seq::<u128>::empty()) =~= Seq::empty());
    assert(json_id_list(Seq::empty()) =~= seq!['[', ']']);
    lemma_json_items_len(ids);
    lemma_json_item(ids, i);
    let items = json_items(ids);
    let list = json_id_list(ids);
    assert forall|k: int| 0 <= k < items.len() implies list[k + 1] == #[trigger] items[k] by {}
    assert(list[39 * i + 1] == items[39 * i]);
    assert(list[39 * i + 38] == items[39 * i + 37]);
    assert forall|k: int| 0 <= k < 36 implies list[39 * i + 2 + k]
        == #[trigger] crate::uuids::hyphenated(ids[i])[k] by {
        assert(list[39 * i + 2 + k] == items[39 * i + 1 + k]);
    }
    if i < ids.len() - 1 {
        assert(list[39 * i + 39] == items[39 * i + 38]);
    }
}

proof fn lemma_json_item(ids: Seq<u128>, i: int)
    requires
        0 <= i < ids.len(),
    ensures
        json_items(ids).len() == 39 * ids.len() - 1,
        json_items(ids)[39 * i] == '"',
        forall|k: int|
            0 <= k < 36 ==> json_items(ids)[39 * i + 1 + k] == #[trigger] crate::uuids::hyphenated(
                ids[i],
            )[k],
        json_items(ids)[39 * i + 37] == '"',
        i < ids.len() - 1 ==> json_items(ids)[39 * i + 38] == ',',
    decreases ids.len(),
{
    lemma_json_items_len(ids);
    let n = ids.len();
    let rest = ids.drop_last();
    lemma_json_items_len(rest);
    crate::uuids::lemma_hyphenated_chars(ids.last());
    let items = json_items(ids);
    let last = crate::uuids::hyphenated(ids.last());
    if n == 1 {
        assert(items =~= seq!['"'] + last + seq!['"']);
    } else {
        let head = json_items(rest);
        assert(items =~= head + seq![',', '"'] + last + seq!['"']);
        assert(head.len() == 39 * n - 40);
        assert(items[39 * n - 40] == ',');
        if i < n - 1 {
            lemma_json_item(rest, i);
            crate::uuids::lemma_hyphenated_chars(ids[i]);
            assert(rest[i] == ids[i]);
            assert forall|k: int| 0 <= k < head.len() implies items[k] == #[trigger] head[k] by {}
            assert(items[39 * i] == head[39 * i]);
            assert(items[39 * i + 37] == head[39 * i + 37]);
            assert forall|k: int| 0 <= k < 36 implies items[39 * i + 1 + k]
                == #[trigger] crate::uuids::hyphenated(ids[i])[k] by {
                assert(items[39 * i + 1 + k] == head[39 * i + 1 + k]);
            }
            if i < n - 2 {
                assert(items[39 * i + 38] == head[39 * i + 38]);
            }
        }
    }
}

/// What a session is hashed from: the list of the participants, the computation
/// in JSON and, for a key generation alone, the threshold in two bytes.
pub proof fn law_session_is_hashed_from(participants: Seq<u128>, session_type: SessionType, k: int)
    ensures
        ({
            let list = json_id_list(participants);
            let json = match session_type {
                SessionType::AuxInfoGen => "\"AuxInfoGen\""@,
                SessionType::KeyGen { threshold } => "{\"KeyGen\":{\"threshold\":"@
                    + crate::text::decimal(threshold as nat) + "}}"@,
                SessionType::Signing => "\"Signing\""@,
            };
            let bytes = session_bytes(participants, session_type);
            let start = (list.len() + json.len()) as int;
            &&& 0 <= k < list.len() ==> bytes[k] as int == list[k] as int
            &&& 0 <= k < json.len() ==> bytes[list.len() + k] as int == json[k] as int
            &&& match session_type {
                SessionType::KeyGen { threshold } => bytes.len() == start + 2 && threshold
                    == bytes[start] + 256 * bytes[start + 1],
                _ => bytes.len() == start,
            }
        }),
{
    lemma_json_list_chars(participants);
    lemma_session_type_json_is_ascii(session_type);
}

/// The identifier of a session is the digest of those bytes, each byte of it as
/// two digits.
pub proof fn law_identifier_is_the_digest(
    participants: Seq<u128>,
    session_type: SessionType,
    i: int,
)
    requires
        0 <= i < sha256_digest(session_bytes(participants, session_type)).len(),
    ensures
        session_id_text(participants, session_type).len() == 2 * sha256_digest(
            session_bytes(participants, session_type),
        ).len(),
        exists|high: int, low: int|
            0 <= high < 16 && 0 <= low < 16 && sha256_digest(
                session_bytes(participants, session_type),
            )[i] == 16 * high + low && session_id_text(participants, session_type)[2 * i]
                == #[trigger] "0123456789abcdef"@[high] && session_id_text(
                participants,
                session_type,
            )[2 * i + 1] == #[trigger] "0123456789abcdef"@[low],
{
    crate::text::law_hex_text_denotes(
        sha256_digest(session_bytes(participants, session_type)),
        i,
    );
}

/// The list that is made of the participants has each of them once, from the
/// lowest to the highest, and nobody else.
pub proof fn law_sorted_participants(participants: HashSet<u128>, list: Vec<u128>)
    requires
        call_ensures(sorted_participants, (&participants,), list),
    ensures
        forall|i: int, j: int| 0 <= i < j < list@.len() ==> list@[i] < list@[j],
        forall|id: u128| #[trigger] list@.contains(id) <==> participants@.contains(id),
{
    assert forall|id: u128| #[trigger] list@.contains(id) == participants@.contains(id) by {
        assert(list@.to_set().contains(id) == list@.contains(id));
    }
}

/// The identifier that is computed for a session is that of its participants and
/// their computation: 64 digits, two for each byte of the digest.
pub proof fn law_computed_identifier(
    participants: Vec<u128>,
    session_type: SessionType,
    bytes: Vec<u8>,
    id: String,
)
    requires
        call_ensures(session_to_bytes, (&participants, session_type), bytes),
        call_ensures(session_id, (&participants, session_type), id),
    ensures
        id@.len() == 64,
        id@ == crate::text::hex_text(sha256_digest(bytes@)),
        bytes@ == session_bytes(participants@, session_type),
{
}

} // verus!
