//! Text as bytes: the search for delimiters, the slicing of UTF-8 text at
//! byte offsets, keywords, and numbers read from and written as text.

use vstd::prelude::*;
use vstd::string::*;
use vstd::utf8::*;

verus! {

/// The field delimiter `;` of an instance record.
pub const SEMICOLON: u8 = 0x3B;

/// The delimiter `,` inside the parameters of a VIA endpoint.
pub const COMMA: u8 = 0x2C;

/// The delimiter `:` between the NIC and the port of a VIA address.
pub const COLON: u8 = 0x3A;

/// Index of the first byte at or after `from` that equals `first` or
/// `second`; the length of `bytes` where no such byte follows.
pub open spec fn find_delimiter(bytes: Seq<u8>, from: int, first: u8, second: u8) -> int
    decreases bytes.len() - from,
{
    if from >= bytes.len() {
        from
    } else if bytes[from] == first || bytes[from] == second {
        from
    } else {
        find_delimiter(bytes, from + 1, first, second)
    }
}

/// `find_delimiter` returns the nearest delimiter: it lies in range, holds a
/// delimiter unless it is the end, and no delimiter stands before it.
pub proof fn lemma_find_delimiter(bytes: Seq<u8>, from: int, first: u8, second: u8)
    requires
        0 <= from <= bytes.len(),
    ensures
        from <= find_delimiter(bytes, from, first, second) <= bytes.len(),
        find_delimiter(bytes, from, first, second) < bytes.len() ==> {
            let at = bytes[find_delimiter(bytes, from, first, second)];
            at == first || at == second
        },
        forall|i: int|
            from <= i < find_delimiter(bytes, from, first, second) ==> bytes[i] != first
                && bytes[i] != second,
    decreases bytes.len() - from,
{
    if from < bytes.len() && bytes[from] != first && bytes[from] != second {
        lemma_find_delimiter(bytes, from + 1, first, second);
    }
}

/// A search never ends before the place where it starts.
pub proof fn lemma_find_delimiter_advances(bytes: Seq<u8>, from: int, first: u8, second: u8)
    ensures
        from <= find_delimiter(bytes, from, first, second),
    decreases bytes.len() - from,
{
    if from < bytes.len() && !(bytes[from] == first || bytes[from] == second) {
        lemma_find_delimiter_advances(bytes, from + 1, first, second);
    }
}

/// A search that ends before `prefix` does is not changed by bytes that
/// follow `prefix`.
pub proof fn lemma_find_delimiter_in_prefix(
    prefix: Seq<u8>,
    rest: Seq<u8>,
    from: int,
    first: u8,
    second: u8,
)
    requires
        0 <= from <= prefix.len(),
        find_delimiter(prefix, from, first, second) < prefix.len(),
    ensures
        find_delimiter(prefix + rest, from, first, second) == find_delimiter(
            prefix,
            from,
            first,
            second,
        ),
    decreases prefix.len() - from,
{
    if from < prefix.len() {
        if prefix[from] != first && prefix[from] != second {
            lemma_find_delimiter_in_prefix(prefix, rest, from + 1, first, second);
        }
    }
}

/// Finds the first byte at or after `from` that equals `first` or `second`.
pub(crate) fn find_byte(bytes: &[u8], from: usize, first: u8, second: u8) -> (end: usize)
    requires
        from <= bytes@.len(),
    ensures
        end == find_delimiter(bytes@, from as int, first, second),
        from <= end <= bytes@.len(),
{
    let mut end: usize = from;
    while end < bytes.len() && bytes[end] != first && bytes[end] != second
        invariant
            from <= end <= bytes@.len(),
            find_delimiter(bytes@, from as int, first, second) == find_delimiter(
                bytes@,
                end as int,
                first,
                second,
            ),
        decreases bytes@.len() - end,
    {
        end += 1;
    }
    end
}

/// Whether two byte slices hold the same bytes.
pub(crate) fn bytes_equal(left: &[u8], right: &[u8]) -> (same: bool)
    ensures
        same == (left@ == right@),
{
    if left.len() != right.len() {
        return false;
    }
    let mut i: usize = 0;
    while i < left.len()
        invariant
            left@.len() == right@.len(),
            i <= left@.len(),
            forall|k: int| 0 <= k < i ==> left@[k] == right@[k],
        decreases left@.len() - i,
    {
        if left[i] != right[i] {
            return false;
        }
        i += 1;
    }
    assert(left@ =~= right@);
    true
}

/// Whether `text` spells exactly `keyword`.
pub(crate) fn is_keyword(text: &str, keyword: &str) -> (same: bool)
    ensures
        same == (text.spec_bytes() == keyword.spec_bytes()),
{
    bytes_equal(text.as_bytes(), keyword.as_bytes())
}

/// The text that a byte sequence spells in UTF-8.
pub open spec fn text_of(bytes: Seq<u8>) -> Seq<char> {
    decode_utf8(bytes)
}

/// The view of a string is the text of its bytes.
pub proof fn lemma_text_of_str(text: &str)
    ensures
        text_of(text.spec_bytes()) == text@,
        valid_utf8(text.spec_bytes()),
{
    encode_utf8_decode_utf8(text@);
    encode_utf8_valid_utf8(text@);
}

/// In valid UTF-8 a byte below 0x80 is a character of its own: characters
/// start at it and after it.
pub proof fn lemma_ascii_byte_boundaries(bytes: Seq<u8>, i: int)
    requires
        valid_utf8(bytes),
        0 <= i < bytes.len(),
        bytes[i] < 0x80,
    ensures
        is_char_boundary(bytes, i),
        is_char_boundary(bytes, i + 1),
{
    is_char_boundary_iff_not_is_continuation_byte(bytes, i);
    valid_utf8_split(bytes, i);
    let tail = bytes.subrange(i, bytes.len() as int);
    let rest = bytes.subrange(i + 1, bytes.len() as int);
    assert(pop_first_scalar(tail) =~= rest);
    assert(valid_utf8(rest));
    if i + 1 == bytes.len() {
        is_char_boundary_start_end_of_seq(bytes);
    } else {
        is_char_boundary_iff_not_is_continuation_byte(bytes, i + 1);
    }
}

/// The part of `text` between two byte offsets at which characters start.
pub(crate) fn slice_text<'a>(text: &'a str, from: usize, to: usize) -> (part: &'a str)
    requires
        from <= to <= text.spec_bytes().len(),
        is_char_boundary(text.spec_bytes(), from as int),
        is_char_boundary(text.spec_bytes(), to as int),
    ensures
        part.spec_bytes() == text.spec_bytes().subrange(from as int, to as int),
        part@ == text_of(text.spec_bytes().subrange(from as int, to as int)),
{
    let ghost bytes = text.spec_bytes();
    proof {
        lemma_text_of_str(text);
    }
    let (_, tail) = text.split_at(from);
    proof {
        lemma_text_of_str(tail);
        let tail_bytes = tail.spec_bytes();
        if to < bytes.len() {
            is_char_boundary_iff_not_is_continuation_byte(bytes, to as int);
            is_char_boundary_iff_not_is_continuation_byte(tail_bytes, to - from);
        } else {
            is_char_boundary_start_end_of_seq(tail_bytes);
        }
    }
    let (part, _) = tail.split_at(to - from);
    proof {
        lemma_text_of_str(part);
        assert(part.spec_bytes() =~= bytes.subrange(from as int, to as int));
    }
    part
}

/// The sign `+` that may stand before a decimal number.
pub const PLUS: u8 = 0x2B;

/// Whether `byte` is one of the digits `0` to `9`.
pub open spec fn is_digit(byte: u8) -> bool {
    0x30 <= byte <= 0x39
}

/// The number that a sequence of digits spells in base ten.
pub open spec fn decimal_value(digits: Seq<u8>) -> nat
    decreases digits.len(),
{
    if digits.len() == 0 {
        0
    } else {
        decimal_value(digits.drop_last()) * 10 + (digits.last() - 0x30) as nat
    }
}

/// The digits of a decimal number: what follows the sign, where there is one.
pub open spec fn decimal_digits(token: Seq<u8>) -> Seq<u8> {
    if token.len() > 0 && token[0] == PLUS {
        token.drop_first()
    } else {
        token
    }
}

/// The port that `token` spells: an optional `+`, then one or more digits
/// whose value fits into 16 bits. `None` for any other token.
pub open spec fn parse_port(token: Seq<u8>) -> Option<u16> {
    let digits = decimal_digits(token);
    if digits.len() > 0 && (forall|i: int| 0 <= i < digits.len() ==> is_digit(#[trigger] digits[i]))
        && decimal_value(digits) <= u16::MAX {
        Some(decimal_value(digits) as u16)
    } else {
        None
    }
}

/// More digits never spell a smaller number.
pub proof fn lemma_decimal_value_grows(digits: Seq<u8>, shorter: int)
    requires
        0 <= shorter <= digits.len(),
        forall|i: int| 0 <= i < digits.len() ==> is_digit(#[trigger] digits[i]),
    ensures
        decimal_value(digits.subrange(0, shorter)) <= decimal_value(digits),
    decreases digits.len() - shorter,
{
    if shorter == digits.len() {
        assert(digits.subrange(0, shorter) =~= digits);
    } else {
        let longer = digits.subrange(0, shorter + 1);
        assert(longer.drop_last() =~= digits.subrange(0, shorter));
        lemma_decimal_value_grows(digits, shorter + 1);
    }
}

/// Reads a decimal port.
pub fn read_port(token: &[u8]) -> (port: Option<u16>)
    ensures
        port == parse_port(token@),
{
    let start: usize = if token.len() > 0 && token[0] == PLUS {
        1
    } else {
        0
    };
    let ghost digits = decimal_digits(token@);
    if start == token.len() {
        return None;
    }
    let mut value: u32 = 0;
    let mut i: usize = start;
    while i < token.len()
        invariant
            start <= i <= token@.len(),
            digits == decimal_digits(token@),
            digits == token@.subrange(start as int, token@.len() as int),
            forall|k: int| 0 <= k < i - start ==> is_digit(#[trigger] digits[k]),
            value == decimal_value(digits.subrange(0, i - start)),
            value <= u16::MAX,
        decreases token@.len() - i,
    {
        let byte = token[i];
        if byte < 0x30 || byte > 0x39 {
            assert(!is_digit(digits[i - start]));
            return None;
        }
        let ghost longer = digits.subrange(0, i - start + 1);
        assert(longer.drop_last() =~= digits.subrange(0, i - start));
        let next: u32 = value * 10 + (byte - 0x30) as u32;
        if next > 0xFFFF {
            proof {
                if forall|k: int| 0 <= k < digits.len() ==> is_digit(#[trigger] digits[k]) {
                    lemma_decimal_value_grows(digits, i - start + 1);
                }
            }
            return None;
        }
        value = next;
        i += 1;
    }
    assert(digits.subrange(0, i - start) =~= digits);
    Some(value as u16)
}

/// The character that stands for a digit below sixteen; the digits from ten
/// on are the capital letters `A` to `F`.
pub open spec fn digit_text(digit: int) -> Seq<char> {
    if digit == 0 {
        "0"@
    } else if digit == 1 {
        "1"@
    } else if digit == 2 {
        "2"@
    } else if digit == 3 {
        "3"@
    } else if digit == 4 {
        "4"@
    } else if digit == 5 {
        "5"@
    } else if digit == 6 {
        "6"@
    } else if digit == 7 {
        "7"@
    } else if digit == 8 {
        "8"@
    } else if digit == 9 {
        "9"@
    } else if digit == 10 {
        "A"@
    } else if digit == 11 {
        "B"@
    } else if digit == 12 {
        "C"@
    } else if digit == 13 {
        "D"@
    } else if digit == 14 {
        "E"@
    } else {
        "F"@
    }
}

/// How `value` is written in base ten, without leading zeros.
pub open spec fn decimal_text(value: nat) -> Seq<char>
    decreases value,
{
    if value < 10 {
        digit_text(value as int)
    } else {
        decimal_text(value / 10) + digit_text((value % 10) as int)
    }
}

/// How `value` is written in base sixteen with capital letters, without
/// leading zeros.
pub open spec fn hex_digits_text(value: nat) -> Seq<char>
    decreases value,
{
    if value < 16 {
        digit_text(value as int)
    } else {
        hex_digits_text(value / 16) + digit_text((value % 16) as int)
    }
}

/// How `value` is written in base sixteen behind the prefix `0x`.
pub open spec fn hex_text(value: nat) -> Seq<char> {
    "0x"@ + hex_digits_text(value)
}

/// The character of a digit below sixteen, as text.
pub(crate) fn digit_str(digit: usize) -> (text: &'static str)
    requires
        digit < 16,
    ensures
        text@ == digit_text(digit as int),
{
    if digit == 0 {
        "0"
    } else if digit == 1 {
        "1"
    } else if digit == 2 {
        "2"
    } else if digit == 3 {
        "3"
    } else if digit == 4 {
        "4"
    } else if digit == 5 {
        "5"
    } else if digit == 6 {
        "6"
    } else if digit == 7 {
        "7"
    } else if digit == 8 {
        "8"
    } else if digit == 9 {
        "9"
    } else if digit == 10 {
        "A"
    } else if digit == 11 {
        "B"
    } else if digit == 12 {
        "C"
    } else if digit == 13 {
        "D"
    } else if digit == 14 {
        "E"
    } else {
        "F"
    }
}

/// Appends `value`, written in base ten, to `text`.
pub(crate) fn append_decimal(text: &mut String, value: usize)
    ensures
        final(text)@ == old(text)@ + decimal_text(value as nat),
    decreases value,
{
    if value >= 10 {
        append_decimal(text, value / 10);
    }
    text.append(digit_str(value % 10));
}

/// Appends `value`, written in base sixteen, to `text`.
pub(crate) fn append_hex_digits(text: &mut String, value: usize)
    ensures
        final(text)@ == old(text)@ + hex_digits_text(value as nat),
    decreases value,
{
    if value >= 16 {
        append_hex_digits(text, value / 16);
    }
    text.append(digit_str(value % 16));
}

/// Reads `bytes` as UTF-8 text with `core::str::from_utf8`, which accepts
/// exactly the well-formed UTF-8 sequences and hands back the same bytes as
/// text; `None` stands for its error.
#[verifier::external_body]
pub(crate) fn text_from_utf8(bytes: &[u8]) -> (text: Option<&str>)
    ensures
        text is Some <==> valid_utf8(bytes@),
        text matches Some(decoded) ==> decoded.spec_bytes() == bytes@,
{
    core::str::from_utf8(bytes).ok()
}

} // verus!
