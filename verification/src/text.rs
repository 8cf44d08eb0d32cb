//! Text helpers shared by the whole library: conversion between strings and
//! character vectors, ordering, splitting, and number formatting.

use vstd::prelude::*;
use vstd::utf8::*;

verus! {

/// `String::push` appends one character at the end of the string.
pub assume_specification[ String::push ](text: &mut String, character: char)
    ensures
        final(text)@ == old(text)@.push(character),
;

/// The characters of a string, in order.
pub fn chars_of(text: &str) -> (chars: Vec<char>)
    ensures
        chars@ == text@,
{
    let mut chars: Vec<char> = Vec::new();
    for character in iter: text.chars()
        invariant
            chars@ == text@.take(iter.index()),
            iter.seq() == text@,
    {
        proof {
            assert(text@.take(iter.index() + 1) =~= text@.take(iter.index()).push(character));
        }
        chars.push(character);
    }
    proof {
        assert(text@.take(text@.len() as int) =~= text@);
    }
    chars
}

/// The string made of `chars[from..to]`.
pub fn text_of(chars: &Vec<char>, from: usize, to: usize) -> (text: String)
    requires
        from <= to <= chars@.len(),
    ensures
        text@ == chars@.subrange(from as int, to as int),
{
    let mut text = String::new();
    let mut index: usize = from;
    while index < to
        invariant
            from <= index <= to <= chars@.len(),
            text@ == chars@.subrange(from as int, index as int),
        decreases to - index,
    {
        text.push(chars[index]);
        index += 1;
        proof {
            assert(chars@.subrange(from as int, index as int) =~= chars@.subrange(
                from as int,
                index - 1,
            ).push(chars@[index - 1]));
        }
    }
    text
}

/// Whether two byte strings are equal.
pub fn same_bytes(left: &[u8], right: &[u8]) -> (same: bool)
    ensures
        same == (left@ == right@),
{
    if left.len() != right.len() {
        return false;
    }
    let mut index: usize = 0;
    while index < left.len()
        invariant
            left@.len() == right@.len(),
            index <= left@.len(),
            forall|i: int| 0 <= i < index ==> left@[i] == right@[i],
        decreases left@.len() - index,
    {
        if left[index] != right[index] {
            return false;
        }
        index += 1;
    }
    proof {
        assert(left@ =~= right@);
    }
    true
}

/// Whether two strings hold the same characters.
pub fn same_text(left: &str, right: &str) -> (same: bool)
    ensures
        same == (left@ == right@),
{
    proof {
        encode_utf8_decode_utf8(left@);
        encode_utf8_decode_utf8(right@);
    }
    same_bytes(left.as_bytes(), right.as_bytes())
}

/// Lexicographic order of byte strings: `left` comes strictly before `right`.
pub open spec fn bytes_before(left: Seq<u8>, right: Seq<u8>) -> bool
    decreases left.len(),
{
    if right.len() == 0 {
        false
    } else if left.len() == 0 {
        true
    } else if left[0] == right[0] {
        bytes_before(left.drop_first(), right.drop_first())
    } else {
        left[0] < right[0]
    }
}

/// The order of strings: that of their UTF-8 bytes.
pub open spec fn text_before(left: Seq<char>, right: Seq<char>) -> bool {
    bytes_before(encode_utf8(left), encode_utf8(right))
}

pub proof fn lemma_bytes_before_irreflexive(bytes: Seq<u8>)
    ensures
        !bytes_before(bytes, bytes),
    decreases bytes.len(),
{
    if bytes.len() > 0 {
        lemma_bytes_before_irreflexive(bytes.drop_first());
    }
}

pub proof fn lemma_bytes_before_transitive(a: Seq<u8>, b: Seq<u8>, c: Seq<u8>)
    requires
        bytes_before(a, b),
        bytes_before(b, c),
    ensures
        bytes_before(a, c),
    decreases a.len(),
{
    if a.len() > 0 && a[0] == b[0] && b[0] == c[0] {
        lemma_bytes_before_transitive(a.drop_first(), b.drop_first(), c.drop_first());
    }
}

pub proof fn lemma_bytes_before_total(a: Seq<u8>, b: Seq<u8>)
    ensures
        a == b || bytes_before(a, b) || bytes_before(b, a),
    decreases a.len(),
{
    if a.len() == 0 || b.len() == 0 {
        if a.len() == 0 && b.len() == 0 {
            assert(a =~= b);
        }
    } else if a[0] == b[0] {
        lemma_bytes_before_total(a.drop_first(), b.drop_first());
        if a.drop_first() == b.drop_first() {
            assert(a =~= seq![a[0]] + a.drop_first());
            assert(b =~= seq![b[0]] + b.drop_first());
        }
    }
}

/// No string comes before itself.
pub proof fn lemma_text_before_irreflexive(text: Seq<char>)
    ensures
        !text_before(text, text),
{
    lemma_bytes_before_irreflexive(encode_utf8(text));
}

/// The order of strings is transitive.
pub proof fn lemma_text_before_transitive(a: Seq<char>, b: Seq<char>, c: Seq<char>)
    requires
        text_before(a, b),
        text_before(b, c),
    ensures
        text_before(a, c),
{
    lemma_bytes_before_transitive(encode_utf8(a), encode_utf8(b), encode_utf8(c));
}

/// Two strings are equal or one comes before the other.
pub proof fn lemma_text_before_total(a: Seq<char>, b: Seq<char>)
    ensures
        a == b || text_before(a, b) || text_before(b, a),
{
    lemma_bytes_before_total(encode_utf8(a), encode_utf8(b));
    encode_utf8_decode_utf8(a);
    encode_utf8_decode_utf8(b);
}

/// Whether byte string `left` comes strictly before `right`.
pub fn is_bytes_before(left: &[u8], right: &[u8]) -> (before: bool)
    ensures
        before == bytes_before(left@, right@),
{
    let mut index: usize = 0;
    proof {
        assert(left@.skip(0) =~= left@);
        assert(right@.skip(0) =~= right@);
    }
    while index < left.len() && index < right.len()
        invariant
            index <= left@.len(),
            index <= right@.len(),
            bytes_before(left@, right@) == bytes_before(
                left@.skip(index as int),
                right@.skip(index as int),
            ),
        decreases left@.len() - index,
    {
        if left[index] != right[index] {
            return left[index] < right[index];
        }
        proof {
            assert(left@.skip(index as int).drop_first() =~= left@.skip(index + 1));
            assert(right@.skip(index as int).drop_first() =~= right@.skip(index + 1));
        }
        index += 1;
    }
    index < right.len()
}

/// Whether `left` comes strictly before `right` in the order of strings.
pub fn is_text_before(left: &str, right: &str) -> (before: bool)
    ensures
        before == text_before(left@, right@),
{
    is_bytes_before(left.as_bytes(), right.as_bytes())
}

/// Control characters: the Unicode general category `Cc`.
pub open spec fn is_control(character: char) -> bool {
    character <= '\u{1f}' || '\u{7f}' <= character <= '\u{9f}'
}

pub fn is_control_char(character: char) -> (control: bool)
    ensures
        control == is_control(character),
{
    character <= '\u{1f}' || ('\u{7f}' <= character && character <= '\u{9f}')
}

/// White space: the characters with the Unicode property `White_Space`.
pub open spec fn is_white_space(character: char) -> bool {
    ||| '\u{9}' <= character <= '\u{d}'
    ||| character == '\u{20}'
    ||| character == '\u{85}'
    ||| character == '\u{a0}'
    ||| character == '\u{1680}'
    ||| '\u{2000}' <= character <= '\u{200a}'
    ||| character == '\u{2028}'
    ||| character == '\u{2029}'
    ||| character == '\u{202f}'
    ||| character == '\u{205f}'
    ||| character == '\u{3000}'
}

pub fn is_white_space_char(character: char) -> (white: bool)
    ensures
        white == is_white_space(character),
{
    ('\u{9}' <= character && character <= '\u{d}') || character == '\u{20}' || character == '\u{85}'
        || character == '\u{a0}' || character == '\u{1680}' || ('\u{2000}' <= character
        && character <= '\u{200a}') || character == '\u{2028}' || character == '\u{2029}'
        || character == '\u{202f}' || character == '\u{205f}' || character == '\u{3000}'
}

/// Lower case within ASCII; every other character is left alone.
pub open spec fn ascii_lower(character: char) -> char {
    if 'A' <= character <= 'Z' {
        (character as u32 + 32) as char
    } else {
        character
    }
}

pub open spec fn ascii_lower_text(text: Seq<char>) -> Seq<char> {
    text.map_values(|character: char| ascii_lower(character))
}

pub fn to_ascii_lower(character: char) -> (lower: char)
    ensures
        lower == ascii_lower(character),
{
    if 'A' <= character && character <= 'Z' {
        ((character as u8) + 32) as char
    } else {
        character
    }
}

/// The decimal digits of a number, without leading zeros.
pub open spec fn decimal(number: nat) -> Seq<char>
    decreases number,
{
    if number < 10 {
        seq![digit(number)]
    } else {
        decimal(number / 10).push(digit(number % 10))
    }
}

pub open spec fn digit(value: nat) -> char {
    ('0' as u32 + value) as char
}

pub fn digit_char(value: u8) -> (character: char)
    requires
        value < 10,
    ensures
        character == digit(value as nat),
{
    (value + 48u8) as char
}

/// A number in decimal.
pub fn decimal_text(number: u64) -> (text: String)
    ensures
        text@ == decimal(number as nat),
    decreases number,
{
    if number < 10 {
        let mut text = String::new();
        text.push(digit_char(number as u8));
        proof {
            assert(text@ =~= decimal(number as nat));
        }
        text
    } else {
        let mut text = decimal_text(number / 10);
        text.push(digit_char((number % 10) as u8));
        text
    }
}

/// The value of a row of decimal digits.
pub open spec fn digits_value(digits: Seq<char>) -> nat
    decreases digits.len(),
{
    if digits.len() == 0 {
        0
    } else {
        10 * digits_value(digits.drop_last()) + (digits.last() as nat - '0' as nat) as nat
    }
}

pub open spec fn all_digits(text: Seq<char>) -> bool {
    forall|i: int| 0 <= i < text.len() ==> '0' <= #[trigger] text[i] <= '9'
}

/// A number in decimal, without a sign.
pub open spec fn magnitude(text: Seq<char>) -> Option<nat> {
    if text.len() > 0 && all_digits(text) {
        Some(digits_value(text))
    } else {
        None
    }
}

/// The number that a text denotes: decimal digits, and a plus sign may stand in
/// front.
pub open spec fn unsigned_number(text: Seq<char>) -> Option<nat> {
    if text.len() > 0 && text[0] == '+' {
        magnitude(text.skip(1))
    } else {
        magnitude(text)
    }
}

/// The number that a text denotes where a minus sign may stand in front too.
pub open spec fn signed_number(text: Seq<char>) -> Option<int> {
    if text.len() > 0 && text[0] == '-' {
        match magnitude(text.skip(1)) {
            Some(value) => Some(-(value as int)),
            None => None,
        }
    } else {
        match unsigned_number(text) {
            Some(value) => Some(value as int),
            None => None,
        }
    }
}

/// The number that `chars[from..]` denotes without a sign, where it does not
/// exceed `limit`.
fn parse_magnitude(chars: &Vec<char>, from: usize, limit: u64) -> (number: Option<u64>)
    requires
        from <= chars@.len(),
    ensures
        match magnitude(chars@.skip(from as int)) {
            Some(value) => number == (if value <= limit {
                Some(value as u64)
            } else {
                None
            }),
            None => number is None,
        },
{
    let ghost digits = chars@.skip(from as int);
    if from == chars.len() {
        return None;
    }
    let mut value: u64 = 0;
    let mut over = false;
    let mut index: usize = from;
    while index < chars.len()
        invariant
            from <= index <= chars@.len(),
            digits == chars@.skip(from as int),
            all_digits(digits.take(index - from)),
            !over ==> value == digits_value(digits.take(index - from)) && value <= limit,
            over ==> digits_value(digits.take(index - from)) > limit,
        decreases chars@.len() - index,
    {
        let character = chars[index];
        proof {
            assert(digits[index - from] == character);
        }
        if character < '0' || character > '9' {
            assert(!all_digits(digits));
            return None;
        }
        proof {
            assert(digits.take(index - from + 1).drop_last() =~= digits.take(index - from));
            assert forall|i: int| 0 <= i < index - from + 1 implies '0' <= #[trigger] digits.take(
                index - from + 1,
            )[i] <= '9' by {
                if i < index - from {
                    assert(digits.take(index - from)[i] == digits[i]);
                }
            }
        }
        let unit: u64 = (character as u64) - ('0' as u64);
        if !over {
            if value > limit / 10 {
                over = true;
            } else {
                let shifted: u64 = value * 10;
                if unit > limit - shifted {
                    over = true;
                } else {
                    value = shifted + unit;
                }
            }
        }
        index += 1;
    }
    proof {
        assert(digits.take(digits.len() as int) =~= digits);
    }
    if over {
        None
    } else {
        Some(value)
    }
}

/// The number that a text denotes, where it does not exceed `limit`.
pub fn parse_unsigned(text: &str, limit: u64) -> (number: Option<u64>)
    ensures
        match unsigned_number(text@) {
            Some(value) => number == (if value <= limit {
                Some(value as u64)
            } else {
                None
            }),
            None => number is None,
        },
{
    let chars = chars_of(text);
    if chars.len() > 0 && chars[0] == '+' {
        parse_magnitude(&chars, 1, limit)
    } else {
        proof {
            assert(chars@.skip(0) =~= chars@);
        }
        parse_magnitude(&chars, 0, limit)
    }
}

/// The number that a text denotes, where it fits into 32 bits with a sign.
pub fn parse_i32(text: &str) -> (number: Option<i32>)
    ensures
        match signed_number(text@) {
            Some(value) => number == (if i32::MIN <= value <= i32::MAX {
                Some(value as i32)
            } else {
                None
            }),
            None => number is None,
        },
{
    let chars = chars_of(text);
    if chars.len() > 0 && chars[0] == '-' {
        match parse_magnitude(&chars, 1, 0x8000_0000) {
            Some(value) => Some((-(value as i64)) as i32),
            None => None,
        }
    } else {
        match parse_unsigned(text, 0x7fff_ffff) {
            Some(value) => Some(value as i32),
            None => None,
        }
    }
}

/// Reading a number's decimal digits gives the number back.
pub proof fn law_decimal_is_read_back(number: nat)
    ensures
        unsigned_number(decimal(number)) == Some(number),
        all_digits(decimal(number)),
        decimal(number).len() > 0,
        digits_value(decimal(number)) == number,
    decreases number,
{
    let text = decimal(number);
    if number < 10 {
        assert(text.drop_last() =~= Seq::<char>::empty());
        assert(digits_value(Seq::<char>::empty()) == 0);
    } else {
        law_decimal_is_read_back(number / 10);
        let front = decimal(number / 10);
        assert(text.drop_last() =~= front);
        assert forall|i: int| 0 <= i < text.len() implies '0' <= #[trigger] text[i] <= '9' by {
            if i < front.len() {
                assert(text[i] == front[i]);
            }
        }
    }
    assert('0' <= text[0] <= '9');
}

/// Where the white space in front of a text ends.
pub open spec fn trim_start(text: Seq<char>) -> int
    decreases text.len(),
{
    if text.len() > 0 && is_white_space(text[0]) {
        1 + trim_start(text.drop_first())
    } else {
        0
    }
}

/// Where the white space behind a text starts.
pub open spec fn trim_end(text: Seq<char>) -> int
    decreases text.len(),
{
    if text.len() > 0 && is_white_space(text.last()) {
        trim_end(text.drop_last())
    } else {
        text.len() as int
    }
}

/// A text without the white space around it.
pub open spec fn trimmed(text: Seq<char>) -> Seq<char> {
    let front = text.skip(trim_start(text));
    front.take(trim_end(front))
}

/// A text without the white space around it.
pub fn trim_text(text: &str) -> (result: String)
    ensures
        result@ == trimmed(text@),
{
    let chars = chars_of(text);
    let mut start: usize = 0;
    proof {
        assert(chars@.skip(0) =~= chars@);
    }
    while start < chars.len() && is_white_space_char(chars[start])
        invariant
            start <= chars@.len(),
            trim_start(chars@) == start + trim_start(chars@.skip(start as int)),
        decreases chars@.len() - start,
    {
        proof {
            assert(chars@.skip(start as int).drop_first() =~= chars@.skip(start + 1));
        }
        start += 1;
    }
    let ghost front = chars@.skip(start as int);
    proof {
        assert(trim_start(front) == 0);
        assert(trim_start(chars@) == start);
        assert(front.take(front.len() as int) =~= front);
    }
    let mut end: usize = chars.len();
    while start < end && is_white_space_char(chars[end - 1])
        invariant
            start <= end <= chars@.len(),
            front == chars@.skip(start as int),
            trim_end(front) == trim_end(front.take(end - start)),
        decreases end,
    {
        proof {
            assert(front.take(end - start).drop_last() =~= front.take(end - start - 1));
            assert(front.take(end - start).last() == chars@[end - 1]);
        }
        end -= 1;
    }
    proof {
        if start < end {
            assert(front.take(end - start).last() == chars@[end - 1]);
        }
        assert(trim_end(front) == end - start);
        assert(chars@.subrange(start as int, end as int) =~= front.take(end - start));
    }
    text_of(&chars, start, end)
}

/// Whether two texts are equal but for the case of ASCII letters.
pub fn same_ignoring_case(left: &str, right: &str) -> (same: bool)
    ensures
        same == (ascii_lower_text(left@) == ascii_lower_text(right@)),
{
    let a = chars_of(left);
    let b = chars_of(right);
    if a.len() != b.len() {
        proof {
            assert(ascii_lower_text(left@).len() != ascii_lower_text(right@).len());
        }
        return false;
    }
    let mut index: usize = 0;
    while index < a.len()
        invariant
            a@ == left@,
            b@ == right@,
            a@.len() == b@.len(),
            index <= a@.len(),
            forall|i: int| 0 <= i < index ==> ascii_lower(a@[i]) == ascii_lower(b@[i]),
        decreases a@.len() - index,
    {
        if to_ascii_lower(a[index]) != to_ascii_lower(b[index]) {
            proof {
                assert(ascii_lower_text(left@)[index as int] != ascii_lower_text(
                    right@,
                )[index as int]);
            }
            return false;
        }
        index += 1;
    }
    proof {
        assert(ascii_lower_text(left@) =~= ascii_lower_text(right@));
    }
    true
}

/// An optional text as a value.
pub open spec fn optional_text(text: Option<String>) -> Option<Seq<char>> {
    match text {
        Some(text) => Some(text@),
        None => None,
    }
}

/// A copy of an optional text.
pub fn copy_optional(text: &Option<String>) -> (copy: Option<String>)
    ensures
        optional_text(copy) == optional_text(*text),
{
    match text {
        Some(own) => Some(own.as_str().to_owned()),
        None => None,
    }
}

/// Whether two optional texts are equal.
pub fn same_optional_text(left: &Option<String>, right: &Option<String>) -> (same: bool)
    ensures
        same == (optional_text(*left) == optional_text(*right)),
{
    match (left, right) {
        (Some(a), Some(b)) => same_text(a.as_str(), b.as_str()),
        (None, None) => true,
        _ => false,
    }
}

/// Whether an optional text is a given one.
pub fn is_optional_text(text: &Option<String>, expected: &str) -> (same: bool)
    ensures
        same == (optional_text(*text) == Some(expected@)),
{
    match text {
        Some(own) => same_text(own.as_str(), expected),
        None => false,
    }
}

/// The texts of a list, as values.
pub open spec fn texts(list: Seq<String>) -> Seq<Seq<char>> {
    list.map_values(|text: String| text@)
}

/// A copy of a list of texts.
pub fn copy_texts(list: &Vec<String>) -> (copy: Vec<String>)
    ensures
        texts(copy@) == texts(list@),
{
    let copy = list.clone();
    proof {
        assert(texts(copy@) =~= texts(list@));
    }
    copy
}

/// The order of byte strings is that of a dictionary: the first byte in which two differ
/// decides, and a string comes before every longer one that begins with it.
pub proof fn law_first_difference_decides(
    common: Seq<u8>,
    left: u8,
    right: u8,
    left_rest: Seq<u8>,
    right_rest: Seq<u8>,
)
    ensures
        left != right ==> (bytes_before(
            common + seq![left] + left_rest,
            common + seq![right] + right_rest,
        ) <==> left < right),
        bytes_before(common, common + seq![left] + left_rest),
        !bytes_before(common + seq![left] + left_rest, common),
    decreases common.len(),
{
    let one = common + seq![left] + left_rest;
    let two = common + seq![right] + right_rest;
    if common.len() == 0 {
        assert(one[0] == left && two[0] == right);
    } else {
        let rest = common.drop_first();
        law_first_difference_decides(rest, left, right, left_rest, right_rest);
        assert(one.drop_first() =~= rest + seq![left] + left_rest);
        assert(two.drop_first() =~= rest + seq![right] + right_rest);
        assert(one[0] == common[0] && two[0] == common[0]);
    }
}

/// The control characters are the first thirty-two, and those from 127 to 159.
pub proof fn law_control_characters_have_their_codes(character: char)
    ensures
        is_control(character) <==> character as u32 <= 31 || 127 <= character as u32 <= 159,
{
}

/// White space is what Unicode counts as such, by its code points.
pub proof fn law_white_space_has_its_codes(character: char)
    ensures
        ({
            let code = character as u32;
            is_white_space(character) <==> 9 <= code <= 13 || code == 32 || code == 133 || code
                == 160 || code == 5760 || 8192 <= code <= 8202 || code == 8232 || code == 8233
                || code == 8239 || code == 8287 || code == 12288
        }),
{
}

/// Only the capital letters of ASCII have another lower case, thirty-two places further;
/// taking it twice changes nothing, and a text keeps its length.
pub proof fn law_only_ascii_capitals_are_lowered(character: char, text: Seq<char>, index: int)
    ensures
        65 <= character as u32 <= 90 ==> ascii_lower(character) as u32 == character as u32 + 32,
        !(65 <= character as u32 <= 90) ==> ascii_lower(character) == character,
        ascii_lower(ascii_lower(character)) == ascii_lower(character),
        ascii_lower_text(text).len() == text.len(),
        0 <= index < text.len() ==> ascii_lower_text(text)[index] == ascii_lower(text[index]),
        ascii_lower_text(ascii_lower_text(text)) == ascii_lower_text(text),
{
    let lower = ascii_lower_text(text);
    assert forall|i: int| 0 <= i < text.len() implies ascii_lower_text(lower)[i] == lower[i] by {
        let one = text[i];
        if 'A' <= one <= 'Z' {
            assert(ascii_lower(one) as u32 == one as u32 + 32);
        }
    }
    assert(ascii_lower_text(lower) =~= lower);
}

/// The digits are the characters from zero to nine, and a number ends in its last digit
/// behind the digits of its tenth.
pub proof fn law_digits_count_up(number: nat, value: nat)
    requires
        value < 10,
    ensures
        digit(value) as u32 == 48 + value,
        digit(0) == '0',
        digit(9) == '9',
        decimal(value) == seq![digit(value)],
        number > 0 ==> decimal(10 * number + value) == decimal(number) + seq![digit(value)],
        digits_value(seq![digit(value)]) == value,
{
    reveal_with_fuel(digits_value, 2);
    assert(seq![digit(value)].drop_last() =~= Seq::<char>::empty());
    assert((10 * number + value) / 10 == number);
    assert((10 * number + value) % 10 == value);
    assert(decimal(number).push(digit(value)) =~= decimal(number) + seq![digit(value)]);
}

/// Digits are read from the left: another digit behind a number is worth its value, and
/// makes the others worth ten times as much.
pub proof fn law_places_are_worth_ten_times(digits: Seq<char>, value: nat)
    requires
        value < 10,
    ensures
        digits_value(digits + seq![digit(value)]) == 10 * digits_value(digits) + value,
        digits_value(Seq::empty()) == 0,
{
    let longer = digits + seq![digit(value)];
    assert(longer.drop_last() =~= digits);
    assert(longer.last() == digit(value));
}

/// A number is read with or without a plus sign, and with a minus sign as its opposite
/// where signs are allowed; a sign alone, a second sign and an empty text are no numbers.
pub proof fn law_signs_are_read(number: nat)
    ensures
        unsigned_number(decimal(number)) == Some(number),
        unsigned_number(seq!['+'] + decimal(number)) == Some(number),
        unsigned_number(seq!['-'] + decimal(number)) is None,
        signed_number(decimal(number)) == Some(number as int),
        signed_number(seq!['+'] + decimal(number)) == Some(number as int),
        signed_number(seq!['-'] + decimal(number)) == Some(-(number as int)),
        signed_number(seq!['-', '-'] + decimal(number)) is None,
        signed_number(Seq::empty()) is None,
        unsigned_number(Seq::empty()) is None,
        unsigned_number(seq!['+']) is None,
        signed_number(seq!['-']) is None,
{
    let text = decimal(number);
    law_decimal_is_read_back(number);
    assert('0' <= text[0] <= '9');
    assert((seq!['+'] + text).skip(1) =~= text);
    assert((seq!['-'] + text).skip(1) =~= text);
    assert((seq!['-'] + text)[0] == '-');
    let twice = seq!['-', '-'] + text;
    assert(twice.skip(1)[0] == '-');
    assert(seq!['+'].skip(1) =~= Seq::<char>::empty());
    assert(seq!['-'].skip(1) =~= Seq::<char>::empty());
}

/// A text with anything but digits is no number.
pub proof fn law_only_digits_are_numbers(front: Seq<char>, other: char, back: Seq<char>)
    requires
        !('0' <= other <= '9'),
    ensures
        magnitude(front + seq![other] + back) is None,
{
    let text = front + seq![other] + back;
    assert(text[front.len() as int] == other);
}

/// Trimming takes away white space at both ends and nothing else: what is left neither
/// begins nor ends with white space, and white space that is added around a text does not
/// count.
pub proof fn law_trimming_takes_the_white_space_around(text: Seq<char>, white: char)
    requires
        is_white_space(white),
    ensures
        trimmed(text).len() > 0 ==> !is_white_space(trimmed(text)[0]) && !is_white_space(
            trimmed(text).last(),
        ),
        trimmed(seq![white] + text) == trimmed(text),
        trimmed(text.push(white)) == trimmed(text),
        text.len() > 0 && !is_white_space(text[0]) && !is_white_space(text.last()) ==> trimmed(text)
            == text,
        trimmed(Seq::empty()).len() == 0,
{
    lemma_trim_start(text);
    let front = text.skip(trim_start(text));
    lemma_trim_end(front);
    let led = seq![white] + text;
    assert(led.drop_first() =~= text);
    assert(led.skip(trim_start(led)) =~= front);
    let followed = text.push(white);
    lemma_trim_start(followed);
    lemma_trim_start_pushed(text, white);
    if trim_start(text) < text.len() {
        let longer = followed.skip(trim_start(followed));
        assert(longer =~= front.push(white));
        assert(longer.drop_last() =~= front);
        assert(longer.take(trim_end(front)) =~= front.take(trim_end(front)));
    } else {
        assert(followed.skip(trim_start(followed)) =~= Seq::<char>::empty());
        assert(front =~= Seq::<char>::empty());
    }
    if text.len() > 0 && !is_white_space(text[0]) && !is_white_space(text.last()) {
        assert(front =~= text);
        assert(front.take(text.len() as int) =~= text);
    }
    if trimmed(text).len() > 0 {
        assert(trimmed(text)[0] == front[0]);
        assert(trimmed(text).last() == front[trim_end(front) - 1]);
    }
}

proof fn lemma_trim_start(text: Seq<char>)
    ensures
        0 <= trim_start(text) <= text.len(),
        trim_start(text) < text.len() ==> !is_white_space(text[trim_start(text)]),
    decreases text.len(),
{
    if text.len() > 0 && is_white_space(text[0]) {
        lemma_trim_start(text.drop_first());
    }
}

proof fn lemma_trim_start_pushed(text: Seq<char>, white: char)
    requires
        is_white_space(white),
    ensures
        trim_start(text) < text.len() ==> trim_start(text.push(white)) == trim_start(text),
        trim_start(text) == text.len() ==> trim_start(text.push(white)) == text.len() + 1,
    decreases text.len(),
{
    let longer = text.push(white);
    if text.len() == 0 {
        assert(longer.drop_first() =~= Seq::<char>::empty());
        assert(trim_start(longer.drop_first()) == 0);
    } else if is_white_space(text[0]) {
        lemma_trim_start_pushed(text.drop_first(), white);
        assert(longer.drop_first() =~= text.drop_first().push(white));
    }
}

proof fn lemma_trim_end(text: Seq<char>)
    ensures
        0 <= trim_end(text) <= text.len(),
        trim_end(text) > 0 ==> !is_white_space(text[trim_end(text) - 1]),
    decreases text.len(),
{
    if text.len() > 0 && is_white_space(text.last()) {
        lemma_trim_end(text.drop_last());
    }
}

} // verus!
