//! Texts that the crate writes: decimal and hexadecimal digits, and the bytes
//! of texts that stay within ASCII.

use vstd::prelude::*;
use vstd::string::StringExecFns;

verus! {

/// The decimal digit of `d`, for `d` below ten.
pub open spec fn decimal_digit(d: nat) -> char {
    ('0' as int + d) as char
}

/// `n` in decimal notation, without leading zeros.
pub open spec fn decimal(n: nat) -> Seq<char>
    decreases n,
{
    if n < 10 {
        seq![decimal_digit(n)]
    } else {
        decimal(n / 10).push(decimal_digit(n % 10))
    }
}

/// The lower case hexadecimal digit of `d`, for `d` below sixteen.
pub open spec fn hex_digit(d: nat) -> char {
    if d < 10 {
        ('0' as int + d) as char
    } else {
        ('a' as int + d - 10) as char
    }
}

/// The last `width` hexadecimal digits of `value`, the highest first.
pub open spec fn hex_digits(value: nat, width: nat) -> Seq<char>
    decreases width,
{
    if width == 0 {
        Seq::empty()
    } else {
        hex_digits(value / 16, (width - 1) as nat).push(hex_digit(value % 16))
    }
}

/// Two lower case hexadecimal digits for each byte, the high half first.
pub open spec fn hex_text(bytes: Seq<u8>) -> Seq<char> {
    Seq::new(
        2 * bytes.len(),
        |i: int|
            if i % 2 == 0 {
                hex_digit((bytes[i / 2] / 16) as nat)
            } else {
                hex_digit((bytes[i / 2] % 16) as nat)
            },
    )
}

/// The bytes of a text of ASCII characters.
pub open spec fn ascii_bytes(text: Seq<char>) -> Seq<u8> {
    Seq::new(text.len(), |i: int| text[i] as u8)
}

/// The decimal digit `d` as a text of one character.
fn digit_text(d: u64) -> (text: &'static str)
    requires
        d < 10,
    ensures
        text@ == seq![decimal_digit(d as nat)],
{
    proof {
        reveal_strlit("0");
        reveal_strlit("1");
        reveal_strlit("2");
        reveal_strlit("3");
        reveal_strlit("4");
        reveal_strlit("5");
        reveal_strlit("6");
        reveal_strlit("7");
        reveal_strlit("8");
        reveal_strlit("9");
    }
    match d {
        0 => "0",
        1 => "1",
        2 => "2",
        3 => "3",
        4 => "4",
        5 => "5",
        6 => "6",
        7 => "7",
        8 => "8",
        _ => "9",
    }
}

/// Writes `n` in decimal notation.
pub fn decimal_string(n: u64) -> (text: String)
    ensures
        text@ == decimal(n as nat),
    decreases n,
{
    if n < 10 {
        digit_text(n).to_owned()
    } else {
        let head: String = decimal_string(n / 10);
        let text: String = head.concat(digit_text(n % 10));
        assert(text@ =~= decimal((n / 10) as nat).push(decimal_digit((n % 10) as nat)));
        text
    }
}

/// The bytes of a text that holds ASCII characters only.
pub fn text_bytes(text: &String) -> (bytes: Vec<u8>)
    requires
        vstd::utf8::is_ascii_chars(text@),
    ensures
        bytes@ == ascii_bytes(text@),
{
    let slice: &[u8] = text.as_str().as_bytes();
    let mut bytes: Vec<u8> = Vec::new();
    bytes.extend_from_slice(slice);
    proof {
        vstd::utf8::is_ascii_chars_encode_utf8(text@);
        assert(bytes@ =~= slice@);
        assert(bytes@ =~= ascii_bytes(text@));
    }
    bytes
}

/// A decimal notation holds ASCII characters only.
pub proof fn lemma_decimal_is_ascii(n: nat)
    ensures
        vstd::utf8::is_ascii_chars(decimal(n)),
    decreases n,
{
    if n >= 10 {
        lemma_decimal_is_ascii(n / 10);
    }
}

/// Distinct digits are written differently.
pub proof fn lemma_hex_digit_injective(a: nat, b: nat)
    requires
        a < 16,
        b < 16,
        hex_digit(a) == hex_digit(b),
    ensures
        a == b,
{
}

/// The number of digits is the width asked for.
pub proof fn lemma_hex_digits_len(value: nat, width: nat)
    ensures
        hex_digits(value, width).len() == width,
    decreases width,
{
    if width > 0 {
        lemma_hex_digits_len(value / 16, (width - 1) as nat);
    }
}

/// Every character of a hexadecimal notation is a hexadecimal digit.
pub proof fn lemma_hex_digits_chars(value: nat, width: nat, i: int)
    requires
        0 <= i < width,
    ensures
        hex_digits(value, width).len() == width,
        exists|d: nat| d < 16 && hex_digits(value, width)[i] == #[trigger] hex_digit(d),
    decreases width,
{
    lemma_hex_digits_len(value, width);
    lemma_hex_digits_len(value / 16, (width - 1) as nat);
    if i == width - 1 {
        assert(hex_digits(value, width)[i] == hex_digit(value % 16));
    } else {
        lemma_hex_digits_chars(value / 16, (width - 1) as nat, i);
        assert(hex_digits(value, width)[i] == hex_digits(value / 16, (width - 1) as nat)[i]);
    }
}

/// Numbers that fit in the width are told apart by their digits.
pub proof fn lemma_hex_digits_injective(a: nat, b: nat, width: nat)
    requires
        a < vstd::arithmetic::power::pow(16, width),
        b < vstd::arithmetic::power::pow(16, width),
        hex_digits(a, width) == hex_digits(b, width),
    ensures
        a == b,
    decreases width,
{
    use_pow16(width);
    if width > 0 {
        let w = (width - 1) as nat;
        let da = hex_digits(a, width);
        let db = hex_digits(b, width);
        lemma_hex_digits_len(a / 16, w);
        lemma_hex_digits_len(b / 16, w);
        assert(da.drop_last() =~= hex_digits(a / 16, w));
        assert(db.drop_last() =~= hex_digits(b / 16, w));
        assert(da.last() == hex_digit(a % 16));
        assert(db.last() == hex_digit(b % 16));
        lemma_hex_digit_injective(a % 16, b % 16);
        lemma_hex_digits_injective(a / 16, b / 16, w);
    }
}

proof fn use_pow16(width: nat)
    ensures
        width == 0 ==> vstd::arithmetic::power::pow(16, width) == 1,
        width > 0 ==> vstd::arithmetic::power::pow(16, width) == 16
            * vstd::arithmetic::power::pow(16, (width - 1) as nat),
{
    reveal(vstd::arithmetic::power::pow);
}

/// Byte strings are told apart by their hexadecimal notations.
pub proof fn lemma_hex_text_injective(a: Seq<u8>, b: Seq<u8>)
    requires
        hex_text(a) == hex_text(b),
    ensures
        a == b,
{
    assert(hex_text(a).len() == 2 * a.len());
    assert(hex_text(b).len() == 2 * b.len());
    assert forall|i: int| 0 <= i < a.len() implies a[i] == b[i] by {
        assert((2 * i) / 2 == i && (2 * i) % 2 == 0);
        assert((2 * i + 1) / 2 == i && (2 * i + 1) % 2 == 1);
        assert(hex_text(a)[2 * i] == hex_digit((a[i] / 16) as nat));
        assert(hex_text(b)[2 * i] == hex_digit((b[i] / 16) as nat));
        assert(hex_text(a)[2 * i + 1] == hex_digit((a[i] % 16) as nat));
        assert(hex_text(b)[2 * i + 1] == hex_digit((b[i] % 16) as nat));
        lemma_hex_digit_injective((a[i] / 16) as nat, (b[i] / 16) as nat);
        lemma_hex_digit_injective((a[i] % 16) as nat, (b[i] % 16) as nat);
    }
    assert(a =~= b);
}

/// A digit more makes a number ten times as large, and the digit is added.
pub proof fn law_decimal_appends(n: nat, d: nat)
    requires
        d < 10,
    ensures
        n > 0 ==> decimal(10 * n + d) == decimal(n).push("0123456789"@[d as int]),
        decimal(d) == seq!["0123456789"@[d as int]],
{
    reveal_strlit("0123456789");
    assert((10 * n + d) / 10 == n && (10 * n + d) % 10 == d);
}

/// The number that decimal digits denote.
pub open spec fn decimal_value(digits: Seq<char>) -> int
    decreases digits.len(),
{
    if digits.len() == 0 {
        0
    } else {
        10 * decimal_value(digits.drop_last()) + (digits.last() as int - '0' as int)
    }
}

/// A decimal notation is made of digits, denotes its number, and has no zero in
/// front of another digit.
pub proof fn law_decimal_denotes(n: nat)
    ensures
        decimal_value(decimal(n)) == n,
        decimal(n).len() > 0,
        forall|i: int| 0 <= i < decimal(n).len() ==> '0' <= #[trigger] decimal(n)[i] <= '9',
        n > 0 ==> decimal(n)[0] != '0',
    decreases n,
{
    reveal_with_fuel(decimal_value, 2);
    if n < 10 {
        assert(decimal(n).drop_last() =~= Seq::empty());
    } else {
        law_decimal_denotes(n / 10);
        assert(decimal(n).drop_last() =~= decimal(n / 10));
        assert(decimal(n)[0] == decimal(n / 10)[0]);
    }
}

/// Numbers are told apart by their decimal notations.
pub proof fn law_decimal_injective(a: nat, b: nat)
    requires
        decimal(a) == decimal(b),
    ensures
        a == b,
{
    law_decimal_denotes(a);
    law_decimal_denotes(b);
}

/// A hexadecimal notation has as many digits as asked for. A digit more makes a
/// number sixteen times as large, and the digit is added.
pub proof fn law_hex_digits_append(value: nat, width: nat, d: nat)
    requires
        d < 16,
    ensures
        hex_digits(value, width).len() == width,
        hex_digits(16 * value + d, width + 1) == hex_digits(value, width).push(
            "0123456789abcdef"@[d as int],
        ),
{
    reveal_strlit("0123456789abcdef");
    lemma_hex_digits_len(value, width);
    assert((16 * value + d) / 16 == value && (16 * value + d) % 16 == d);
}

/// Each byte is written as two digits, sixteen times the first plus the second.
pub proof fn law_hex_text_denotes(bytes: Seq<u8>, i: int)
    requires
        0 <= i < bytes.len(),
    ensures
        hex_text(bytes).len() == 2 * bytes.len(),
        exists|high: int, low: int|
            0 <= high < 16 && 0 <= low < 16 && bytes[i] == 16 * high + low && hex_text(bytes)[2
                * i] == #[trigger] "0123456789abcdef"@[high] && hex_text(bytes)[2 * i + 1]
                == #[trigger] "0123456789abcdef"@[low],
{
    reveal_strlit("0123456789abcdef");
    let high = (bytes[i] / 16) as int;
    let low = (bytes[i] % 16) as int;
    assert((2 * i) / 2 == i && (2 * i) % 2 == 0);
    assert((2 * i + 1) / 2 == i && (2 * i + 1) % 2 == 1);
    assert(hex_text(bytes)[2 * i] == "0123456789abcdef"@[high]);
    assert(hex_text(bytes)[2 * i + 1] == "0123456789abcdef"@[low]);
}

/// The bytes of an ASCII text are the numbers of its characters.
pub proof fn law_ascii_bytes(text: Seq<char>, i: int)
    requires
        0 <= i < text.len(),
        '\0' <= text[i] <= '\u{7f}',
    ensures
        ascii_bytes(text).len() == text.len(),
        ascii_bytes(text)[i] as int == text[i] as int,
{
}

/// A number that is written out can be read back from its digits.
pub proof fn law_written_number_is_read_back(n: u64, text: String)
    requires
        call_ensures(decimal_string, (n,), text),
    ensures
        decimal_value(text@) == n,
        text@.len() > 0,
        forall|i: int| 0 <= i < text@.len() ==> '0' <= #[trigger] text@[i] <= '9',
        n > 0 ==> text@[0] != '0',
{
    law_decimal_denotes(n as nat);
}

/// The bytes of a text are the numbers of its characters.
pub proof fn law_text_bytes(text: String, bytes: Vec<u8>, i: int)
    requires
        vstd::utf8::is_ascii_chars(text@),
        call_ensures(text_bytes, (&text,), bytes),
        0 <= i < text@.len(),
    ensures
        bytes@.len() == text@.len(),
        bytes@[i] as int == text@[i] as int,
{
}

} // verus!
