//! UUIDs, held as the numbers of their 128 bits, and their notations.

use vstd::prelude::*;

verus! {

/// The usual notation of a UUID: its digits in five groups, set apart by hyphens.
pub open spec fn hyphenated(id: u128) -> Seq<char> {
    let digits = crate::text::hex_digits(id as nat, 32);
    digits.subrange(0, 8) + seq!['-'] + digits.subrange(8, 12) + seq!['-'] + digits.subrange(12, 16)
        + seq!['-'] + digits.subrange(16, 20) + seq!['-'] + digits.subrange(20, 32)
}

/// The character in lower case, if it is a letter of ASCII.
pub open spec fn lower_char(c: char) -> char {
    if 'A' <= c <= 'Z' {
        (c as int + 32) as char
    } else {
        c
    }
}

/// The text with its ASCII letters in lower case.
pub open spec fn lower(text: Seq<char>) -> Seq<char> {
    Seq::new(text.len(), |i: int| lower_char(text[i]))
}

/// The text denotes the UUID, in any of four notations and in letters of either
/// case: plain digits, digits with hyphens, and those in braces or as a URN.
pub open spec fn denotes_uuid(text: Seq<char>, id: u128) -> bool {
    ||| lower(text) == crate::text::hex_digits(id as nat, 32)
    ||| lower(text) == hyphenated(id)
    ||| lower(text) == seq!['{'] + hyphenated(id) + seq!['}']
    ||| lower(text) == "urn:uuid:"@ + hyphenated(id)
}

/// A UUID, or what is wrong with the text that should denote it.
pub type ParsedUuid = std::result::Result<u128, Seq<char>>;

/// What is wrong with a text that denotes no UUID.
pub uninterp spec fn uuid_fault(text: Seq<char>) -> Seq<char>;

/// The UUID that a text denotes, or what is wrong with the text.
pub open spec fn parsed_uuid(text: Seq<char>) -> ParsedUuid {
    if exists|id: u128| denotes_uuid(text, id) {
        ParsedUuid::Ok(choose|id: u128| denotes_uuid(text, id))
    } else {
        ParsedUuid::Err(uuid_fault(text))
    }
}

/// Calls `str::parse` for `uuid::Uuid`, which is `Uuid::parse_str`. Claims that
/// it takes the four notations and no other text, and that the words of
/// `uuid::Error` rest on the text alone. The value is that of `Uuid::as_u128`.
#[verifier::external_body]
fn uuid_from_str(text: &String) -> (parsed: std::result::Result<u128, String>)
    ensures
        match parsed {
            Ok(id) => denotes_uuid(text@, id),
            Err(words) => words@ == uuid_fault(text@) && forall|id: u128|
                !denotes_uuid(text@, id),
        },
{
    match text.parse::<uuid::Uuid>() {
        Ok(id) => Ok(id.as_u128()),
        Err(error) => Err(error.to_string()),
    }
}

/// Calls `to_string` of `uuid::Uuid`. Claims that it writes the lower case
/// notation with hyphens.
#[verifier::external_body]
pub(crate) fn uuid_to_string(id: u128) -> (text: String)
    ensures
        text@ == hyphenated(id),
{
    uuid::Uuid::from_u128(id).to_string()
}

/// A UUID takes 36 characters, lower case digits and hyphens.
pub proof fn lemma_hyphenated_chars(id: u128)
    ensures
        hyphenated(id).len() == 36,
        forall|i: int|
            0 <= i < 36 ==> ({
                let c = #[trigger] hyphenated(id)[i];
                c == '-' || '0' <= c <= '9' || 'a' <= c <= 'f'
            }),
{
    let digits = crate::text::hex_digits(id as nat, 32);
    crate::text::lemma_hex_digits_len(id as nat, 32);
    assert forall|k: int| 0 <= k < 32 implies ('0' <= #[trigger] digits[k] <= '9' || 'a'
        <= digits[k] <= 'f') by {
        crate::text::lemma_hex_digits_chars(id as nat, 32, k);
    }
}

/// Numbers of 128 bits are told apart by their digits.
proof fn lemma_digits_injective(a: u128, b: u128)
    requires
        crate::text::hex_digits(a as nat, 32) == crate::text::hex_digits(b as nat, 32),
    ensures
        a == b,
{
    assert(vstd::arithmetic::power::pow(16, 32) == 0x1_0000_0000_0000_0000_0000_0000_0000_0000)
        by {
        vstd::arithmetic::power::lemma_pow1(16);
        vstd::arithmetic::power::lemma_pow_adds(16, 1, 1);
        assert(vstd::arithmetic::power::pow(16, 2) == 16 * 16);
        vstd::arithmetic::power::lemma_pow_adds(16, 2, 2);
        assert(vstd::arithmetic::power::pow(16, 4) == 0x100 * 0x100);
        vstd::arithmetic::power::lemma_pow_adds(16, 4, 4);
        assert(vstd::arithmetic::power::pow(16, 8) == 0x1_0000 * 0x1_0000);
        vstd::arithmetic::power::lemma_pow_adds(16, 8, 8);
        assert(vstd::arithmetic::power::pow(16, 16) == 0x1_0000_0000 * 0x1_0000_0000);
        vstd::arithmetic::power::lemma_pow_adds(16, 16, 16);
        assert(vstd::arithmetic::power::pow(16, 32) == 0x1_0000_0000_0000_0000
            * 0x1_0000_0000_0000_0000);
    }
    crate::text::lemma_hex_digits_injective(a as nat, b as nat, 32);
}

/// UUIDs are told apart by their notations.
pub proof fn lemma_hyphenated_injective(a: u128, b: u128)
    requires
        hyphenated(a) == hyphenated(b),
    ensures
        a == b,
{
    let da = crate::text::hex_digits(a as nat, 32);
    let db = crate::text::hex_digits(b as nat, 32);
    crate::text::lemma_hex_digits_len(a as nat, 32);
    crate::text::lemma_hex_digits_len(b as nat, 32);
    assert forall|k: int| 0 <= k < 32 implies da[k] == db[k] by {
        let shift = if k < 8 {
            0int
        } else if k < 12 {
            1
        } else if k < 16 {
            2
        } else if k < 20 {
            3
        } else {
            4
        };
        assert(hyphenated(a)[k + shift] == da[k]);
        assert(hyphenated(b)[k + shift] == db[k]);
    }
    assert(da =~= db);
    lemma_digits_injective(a, b);
}

/// A text denotes one UUID at most.
pub proof fn lemma_denotes_one(text: Seq<char>, a: u128, b: u128)
    requires
        denotes_uuid(text, a),
        denotes_uuid(text, b),
    ensures
        a == b,
{
    reveal_strlit("urn:uuid:");
    let ha = hyphenated(a);
    let hb = hyphenated(b);
    lemma_hyphenated_chars(a);
    lemma_hyphenated_chars(b);
    crate::text::lemma_hex_digits_len(a as nat, 32);
    crate::text::lemma_hex_digits_len(b as nat, 32);
    let t = lower(text);
    if t.len() == 32 {
        lemma_digits_injective(a, b);
    } else {
        let skipped = if t.len() == 36 {
            0int
        } else if t.len() == 38 {
            1
        } else {
            9
        };
        assert(ha =~= t.subrange(skipped, skipped + 36));
        assert(hb =~= t.subrange(skipped, skipped + 36));
        lemma_hyphenated_injective(a, b);
    }
}

/// A UUID is read back from its usual notation.
pub proof fn law_notation_is_read_back(id: u128)
    ensures
        parsed_uuid(hyphenated(id)) == ParsedUuid::Ok(id),
{
    lemma_hyphenated_chars(id);
    assert(lower(hyphenated(id)) =~= hyphenated(id));
    assert(denotes_uuid(hyphenated(id), id));
    let read = choose|other: u128| denotes_uuid(hyphenated(id), other);
    lemma_denotes_one(hyphenated(id), id, read);
}

/// Reads the UUID that a text denotes.
pub fn parse_uuid(text: &String) -> (parsed: std::result::Result<u128, String>)
    ensures
        match parsed {
            Ok(id) => parsed_uuid(text@) == ParsedUuid::Ok(id) && denotes_uuid(text@, id),
            Err(words) => parsed_uuid(text@) == ParsedUuid::Err(words@) && forall|id: u128|
                !denotes_uuid(text@, id),
        },
{
    let parsed: std::result::Result<u128, String> = uuid_from_str(text);
    proof {
        if let Ok(id) = parsed {
            lemma_denotes_one(text@, id, choose|other: u128| denotes_uuid(text@, other));
        }
    }
    parsed
}

/// The notation has hyphens at four places, and all the digits of the number at
/// the others, in their order.
pub proof fn law_hyphenated_places(id: u128)
    ensures
        hyphenated(id).len() == 36,
        forall|k: int|
            0 <= k < 36 ==> #[trigger] hyphenated(id)[k] == if k == 8 || k == 13 || k == 18 || k
                == 23 {
                '-'
            } else {
                crate::text::hex_digits(id as nat, 32)[if k < 8 {
                    k
                } else if k < 13 {
                    k - 1
                } else if k < 18 {
                    k - 2
                } else if k < 23 {
                    k - 3
                } else {
                    k - 4
                }]
            },
{
    crate::text::lemma_hex_digits_len(id as nat, 32);
}

/// The texts agree, but that `text` may have capital letters of ASCII where
/// `small` has small ones.
pub open spec fn same_letters(text: Seq<char>, small: Seq<char>) -> bool {
    &&& text.len() == small.len()
    &&& forall|i: int|
        0 <= i < text.len() ==> (#[trigger] text[i] == small[i] || ('a' <= small[i] <= 'z'
            && text[i] as int + 32 == small[i] as int))
}

proof fn lemma_same_letters(text: Seq<char>, small: Seq<char>)
    requires
        forall|i: int| 0 <= i < small.len() ==> !('A' <= #[trigger] small[i] <= 'Z'),
    ensures
        same_letters(text, small) <==> lower(text) == small,
{
    if same_letters(text, small) {
        assert forall|i: int| 0 <= i < text.len() implies lower(text)[i] == small[i] by {
            assert(text[i] == small[i] || ('a' <= small[i] <= 'z' && text[i] as int + 32
                == small[i] as int));
        }
        assert(lower(text) =~= small);
    }
    if lower(text) == small {
        assert(lower(text).len() == text.len());
        assert forall|i: int| 0 <= i < text.len() implies (#[trigger] text[i] == small[i] || ('a'
            <= small[i] <= 'z' && text[i] as int + 32 == small[i] as int)) by {
            assert(lower(text)[i] == small[i]);
        }
    }
}

/// A text is read as a UUID exactly if it is one of the four notations of that
/// UUID, whatever the case of its letters.
pub proof fn law_four_notations(text: Seq<char>, id: u128)
    ensures
        parsed_uuid(text) == ParsedUuid::Ok(id) <==> {
            ||| same_letters(text, crate::text::hex_digits(id as nat, 32))
            ||| same_letters(text, hyphenated(id))
            ||| same_letters(text, seq!['{'] + hyphenated(id) + seq!['}'])
            ||| same_letters(text, "urn:uuid:"@ + hyphenated(id))
        },
{
    reveal_strlit("urn:uuid:");
    let digits = crate::text::hex_digits(id as nat, 32);
    crate::text::lemma_hex_digits_len(id as nat, 32);
    assert forall|k: int| 0 <= k < 32 implies !('A' <= #[trigger] digits[k] <= 'Z') by {
        crate::text::lemma_hex_digits_chars(id as nat, 32, k);
    }
    lemma_hyphenated_chars(id);
    lemma_same_letters(text, digits);
    lemma_same_letters(text, hyphenated(id));
    lemma_same_letters(text, seq!['{'] + hyphenated(id) + seq!['}']);
    lemma_same_letters(text, "urn:uuid:"@ + hyphenated(id));
    if denotes_uuid(text, id) {
        lemma_denotes_one(text, id, choose|other: u128| denotes_uuid(text, other));
    }
}

/// A text that is read as no UUID is one of no notation of any.
pub proof fn law_no_notation(text: Seq<char>, id: u128)
    requires
        parsed_uuid(text) is Err,
    ensures
        parsed_uuid(text) == ParsedUuid::Err(uuid_fault(text)),
        !same_letters(text, crate::text::hex_digits(id as nat, 32)),
        !same_letters(text, hyphenated(id)),
        !same_letters(text, seq!['{'] + hyphenated(id) + seq!['}']),
        !same_letters(text, "urn:uuid:"@ + hyphenated(id)),
{
    law_four_notations(text, id);
}

/// Reading a text gives a UUID exactly if the text is one of its notations, and
/// never another UUID.
pub proof fn law_reading(text: String, parsed: std::result::Result<u128, String>, id: u128)
    requires
        call_ensures(parse_uuid, (&text,), parsed),
    ensures
        (parsed matches Ok(found) && found == id) <==> {
            ||| same_letters(text@, crate::text::hex_digits(id as nat, 32))
            ||| same_letters(text@, hyphenated(id))
            ||| same_letters(text@, seq!['{'] + hyphenated(id) + seq!['}'])
            ||| same_letters(text@, "urn:uuid:"@ + hyphenated(id))
        },
        parsed matches Err(words) ==> words@ == uuid_fault(text@),
{
    law_four_notations(text@, id);
}

} // verus!
