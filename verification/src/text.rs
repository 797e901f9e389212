//! Text and byte primitives: comparison, case folding, blank detection, and decimal numbers.

use std::string::FromUtf8Error;
use vstd::prelude::*;
use vstd::utf8::{decode_utf8, encode_utf8, encode_utf8_decode_utf8, valid_utf8};

verus! {

/// The error of [`String::from_utf8`], carried without looking inside.
#[verifier::external_type_specification]
#[verifier::external_body]
pub struct ExFromUtf8Error(FromUtf8Error);

/// `String::from_utf8`: succeeds exactly on valid UTF-8, and the string then holds the characters
/// that the bytes encode.
pub assume_specification[ String::from_utf8 ](vec: Vec<u8>) -> (text: Result<String, FromUtf8Error>)
    ensures
        text is Ok <==> valid_utf8(vec@),
        text matches Ok(string) ==> string@ == decode_utf8(vec@),
;

/// `String::push`: appends the given character to the end of the string.
pub assume_specification[ String::push ](string: &mut String, c: char)
    ensures
        final(string)@ == old(string)@.push(c),
;

/// `String::push_str`: appends the given text to the end of the string.
pub assume_specification[ String::push_str ](string: &mut String, text: &str)
    ensures
        final(string)@ == old(string)@ + text@,
;

/// What the `{:?}` format of a text gives: the text in quotes, with escapes.
pub uninterp spec fn quoted(text: Seq<char>) -> Seq<char>;

/// The `{:?}` format of a text.
#[verifier::external_body]
pub(crate) fn quote(text: &str) -> (rendered: String)
    ensures
        rendered@ == quoted(text@),
{
    format!("{text:?}")
}

/// The bytes of a text in UTF-8.
pub open spec fn bytes_of(text: Seq<char>) -> Seq<u8> {
    encode_utf8(text)
}

/// The characters of `text`, one by one.
pub fn chars_of(text: &str) -> (chars: Vec<char>)
    ensures
        chars@ == text@,
{
    let mut chars: Vec<char> = Vec::new();

    for c in it: text.chars()
        invariant
            it.seq() == text@,
            chars@ == it.seq().take(it.index() as int),
    {
        chars.push(c);
    }

    chars
}

/// The characters `chars[from..to]` as a string.
pub fn text_between(chars: &Vec<char>, from: usize, to: usize) -> (text: String)
    requires
        from <= to <= chars@.len(),
    ensures
        text@ == chars@.subrange(from as int, to as int),
{
    let mut text = String::new();
    let mut i: usize = from;

    while i < to
        invariant
            from <= i <= to <= chars@.len(),
            text@ == chars@.subrange(from as int, i as int),
        decreases to - i,
    {
        text.push(chars[i]);
        assert(chars@.subrange(from as int, i + 1) =~= chars@.subrange(from as int, i as int).push(
            chars@[i as int],
        ));
        i = i + 1;
    }

    text
}

/// A copy of the UTF-8 bytes of `text`.
pub fn copy_bytes(text: &str) -> (bytes: Vec<u8>)
    ensures
        bytes@ == bytes_of(text@),
{
    vstd::slice::slice_to_vec(text.as_bytes())
}

/// Whether two byte strings are the same.
pub fn same_bytes(left: &[u8], right: &[u8]) -> (same: bool)
    ensures
        same == (left@ == right@),
{
    if left.len() != right.len() {
        return false;
    }

    let mut i: usize = 0;

    while i < left.len()
        invariant
            left@.len() == right@.len(),
            i <= left@.len(),
            left@.take(i as int) == right@.take(i as int),
        decreases left@.len() - i,
    {
        if left[i] != right[i] {
            assert(left@[i as int] != right@[i as int]);
            return false;
        }
        assert(left@.take(i + 1) == left@.take(i as int).push(left@[i as int]));
        assert(right@.take(i + 1) == right@.take(i as int).push(right@[i as int]));
        i = i + 1;
    }

    assert(left@.take(i as int) == left@);
    assert(right@.take(i as int) == right@);
    true
}

/// Two texts with the same UTF-8 bytes are the same text.
pub proof fn lemma_bytes_determine_text(left: Seq<char>, right: Seq<char>)
    ensures
        bytes_of(left) == bytes_of(right) <==> left == right,
{
    encode_utf8_decode_utf8(left);
    encode_utf8_decode_utf8(right);
}

/// Whether two texts are the same.
pub fn same_text(left: &str, right: &str) -> (same: bool)
    ensures
        same == (left@ == right@),
{
    proof {
        lemma_bytes_determine_text(left@, right@);
    }

    same_bytes(left.as_bytes(), right.as_bytes())
}

/// The ASCII lower-case form of one character; other characters are unchanged.
pub open spec fn lower_char(c: char) -> char {
    if 'A' <= c <= 'Z' {
        ((c as u32) + 32) as char
    } else {
        c
    }
}

/// The ASCII lower-case form of a text.
pub open spec fn lower_text(text: Seq<char>) -> Seq<char> {
    text.map_values(|c: char| lower_char(c))
}

/// Maps every ASCII capital letter to its lower-case form.
pub fn lowercase(text: &str) -> (lower: String)
    ensures
        lower@ == lower_text(text@),
{
    let mut lower = String::new();

    for c in it: text.chars()
        invariant
            it.seq() == text@,
            lower@ == lower_text(it.seq().take(it.index() as int)),
    {
        let folded = if 'A' <= c && c <= 'Z' {
            ((c as u8) + 32u8) as char
        } else {
            c
        };
        assert(folded == lower_char(c));
        assert(it.seq().take(it.index() + 1) == it.seq().take(it.index() as int).push(c));
        lower.push(folded);
        assert(lower@ =~= lower_text(it.seq().take(it.index() + 1)));
    }

    assert(text@.take(text@.len() as int) == text@);
    lower
}

/// The characters with the Unicode `White_Space` property.
pub open spec fn is_white_space(c: char) -> bool {
    let v = c as u32;
    ||| 0x09 <= v <= 0x0d
    ||| v == 0x20 || v == 0x85 || v == 0xa0 || v == 0x1680
    ||| 0x2000 <= v <= 0x200a
    ||| v == 0x2028 || v == 0x2029 || v == 0x202f || v == 0x205f || v == 0x3000
}

/// A text that has no characters but white space.
pub open spec fn is_blank(text: Seq<char>) -> bool {
    forall|i: int| 0 <= i < text.len() ==> is_white_space(#[trigger] text[i])
}

/// Whether `c` has the Unicode `White_Space` property.
pub fn white_space(c: char) -> (white: bool)
    ensures
        white == is_white_space(c),
{
    let v: u32 = c as u32;

    (0x09 <= v && v <= 0x0d) || v == 0x20 || v == 0x85 || v == 0xa0 || v == 0x1680 || (0x2000 <= v
        && v <= 0x200a) || v == 0x2028 || v == 0x2029 || v == 0x202f || v == 0x205f || v == 0x3000
}

/// Whether `text` is empty once white space is trimmed from both ends.
pub fn blank(text: &str) -> (blank: bool)
    ensures
        blank == is_blank(text@),
{
    for c in it: text.chars()
        invariant
            it.seq() == text@,
            forall|i: int| 0 <= i < it.index() ==> is_white_space(#[trigger] text@[i]),
    {
        if !white_space(c) {
            assert(text@[it.index() as int] == c);
            return false;
        }
    }

    true
}

/// The value that a row of decimal digits denotes.
pub open spec fn decimal_value(digits: Seq<char>) -> nat
    decreases digits.len(),
{
    if digits.len() == 0 {
        0
    } else {
        decimal_value(digits.drop_last()) * 10 + (digits.last() as u32 - '0' as u32) as nat
    }
}

/// A row of decimal digits and nothing else.
pub open spec fn all_digits(text: Seq<char>) -> bool {
    forall|i: int| 0 <= i < text.len() ==> '0' <= #[trigger] text[i] <= '9'
}

/// The unsigned number that a text denotes: an optional `+`, then at least one decimal digit and
/// nothing else, with a value no greater than `max`.
pub open spec fn parsed_decimal(text: Seq<char>, max: nat) -> Option<nat> {
    let digits = if text.len() > 0 && text[0] == '+' {
        text.skip(1)
    } else {
        text
    };

    if digits.len() > 0 && all_digits(digits) && decimal_value(digits) <= max {
        Some(decimal_value(digits))
    } else {
        None
    }
}

/// The decimal digit of a number below ten.
pub open spec fn digit_char(n: nat) -> char {
    (('0' as u32) + n) as char
}

/// The decimal notation of a number, without leading zeros.
pub open spec fn decimal_text(n: nat) -> Seq<char>
    decreases n,
{
    if n < 10 {
        seq![digit_char(n)]
    } else {
        decimal_text(n / 10).push(digit_char(n % 10))
    }
}

proof fn lemma_decimal_prefix(digits: Seq<char>, k: int)
    requires
        all_digits(digits),
        0 <= k <= digits.len(),
    ensures
        decimal_value(digits.take(k)) <= decimal_value(digits),
    decreases digits.len(),
{
    if k == digits.len() {
        assert(digits.take(k) == digits);
    } else {
        lemma_decimal_prefix(digits.drop_last(), k);
        assert(digits.drop_last().take(k) == digits.take(k));
    }
}

/// Parses an unsigned decimal number no greater than `max`.
pub fn parse_decimal(text: &str, max: u64) -> (number: Option<u64>)
    ensures
        match number {
            Some(value) => parsed_decimal(text@, max as nat) == Some(value as nat),
            None => parsed_decimal(text@, max as nat) is None,
        },
{
    let chars = chars_of(text);
    let start: usize = if chars.len() > 0 && chars[0] == '+' {
        1
    } else {
        0
    };
    let ghost digits = chars@.skip(start as int);
    assert(start == 0 ==> digits == text@);

    if start == chars.len() {
        return None;
    }

    let mut i: usize = start;
    let mut value: u64 = 0;

    while i < chars.len()
        invariant
            start <= i <= chars@.len(),
            start < chars@.len(),
            digits == chars@.skip(start as int),
            chars@ == text@,
            text@.len() > 0 && text@[0] == '+' ==> start == 1,
            !(text@.len() > 0 && text@[0] == '+') ==> start == 0 && digits == text@,
            all_digits(digits.take(i - start)),
            value as nat == decimal_value(digits.take(i - start)),
            value <= max,
        decreases chars@.len() - i,
    {
        let c = chars[i];
        let ghost k = i - start;
        assert(digits[k] == c);
        assert(digits.take(k + 1).drop_last() == digits.take(k));
        assert(digits.take(k + 1).last() == c);

        if c < '0' || c > '9' {
            return None;
        }

        let digit: u64 = (c as u32 - '0' as u32) as u64;

        assert(decimal_value(digits.take(k + 1)) == value * 10 + digit);

        if value > max / 10 || digit > max - value * 10 {
            proof {
                assert(value * 10 + digit > max);
                if all_digits(digits) {
                    lemma_decimal_prefix(digits, k + 1);
                }
            }
            return None;
        }

        value = value * 10 + digit;
        i = i + 1;
    }

    assert(digits.take(i - start) == digits);
    Some(value)
}

/// Writes `n` in decimal notation.
pub fn render_decimal(n: u64) -> (text: String)
    ensures
        text@ == decimal_text(n as nat),
    decreases n,
{
    let digit: u8 = (n % 10) as u8;
    let c = (48u8 + digit) as char;
    assert(c == digit_char((n % 10) as nat));

    if n < 10 {
        let mut text = String::new();
        text.push(c);
        assert(text@ == seq![c]);
        text
    } else {
        let mut text = render_decimal(n / 10);
        text.push(c);
        text
    }
}

/// Decimal notation holds digits only, and its value is the number itself.
pub proof fn lemma_decimal_text(n: nat)
    ensures
        decimal_text(n).len() > 0,
        all_digits(decimal_text(n)),
        decimal_value(decimal_text(n)) == n,
    decreases n,
{
    if n < 10 {
        let text = decimal_text(n);
        assert(text.drop_last() == Seq::<char>::empty());
        assert(decimal_value(text.drop_last()) == 0);
    } else {
        let text = decimal_text(n);
        lemma_decimal_text(n / 10);
        assert(text.drop_last() == decimal_text(n / 10));
    }
}

/// Ten to the power `k`.
pub open spec fn power_of_ten(k: nat) -> nat
    decreases k,
{
    if k == 0 {
        1
    } else {
        10 * power_of_ten((k - 1) as nat)
    }
}

/// A number below ten to the power `k` has at most `k` digits.
pub proof fn lemma_decimal_length(n: nat, k: nat)
    requires
        k > 0,
        n < power_of_ten(k),
    ensures
        decimal_text(n).len() <= k,
    decreases n,
{
    if n >= 10 {
        assert(k > 1) by {
            reveal_with_fuel(power_of_ten, 2);
        }
        lemma_decimal_length(n / 10, (k - 1) as nat);
    }
}

/// A 64-bit number has at most twenty digits.
pub proof fn lemma_decimal_length_u64(n: u64)
    ensures
        decimal_text(n as nat).len() <= 20,
{
    assert(power_of_ten(20) == 100_000_000_000_000_000_000) by {
        reveal_with_fuel(power_of_ten, 21);
    }
    lemma_decimal_length(n as nat, 20);
}

/// Reading a written number gives the number back.
pub proof fn law_decimal_round_trip(n: nat, max: nat)
    requires
        n <= max,
    ensures
        parsed_decimal(decimal_text(n), max) == Some(n),
{
    lemma_decimal_text(n);
    assert('0' <= decimal_text(n)[0] <= '9');
}

/// The order of byte strings: the first byte that differs decides, and a proper prefix comes
/// first.
pub open spec fn precedes(left: Seq<u8>, right: Seq<u8>) -> bool
    decreases left.len(),
{
    if right.len() == 0 {
        false
    } else if left.len() == 0 {
        true
    } else if left[0] != right[0] {
        left[0] < right[0]
    } else {
        precedes(left.skip(1), right.skip(1))
    }
}

/// Whether `left` comes before `right` in byte order.
pub fn comes_before(left: &[u8], right: &[u8]) -> (before: bool)
    ensures
        before == precedes(left@, right@),
{
    let mut i: usize = 0;
    assert(left@.skip(0) == left@);
    assert(right@.skip(0) == right@);

    while i < left.len() && i < right.len()
        invariant
            i <= left@.len(),
            i <= right@.len(),
            precedes(left@, right@) == precedes(left@.skip(i as int), right@.skip(i as int)),
        decreases left@.len() - i,
    {
        if left[i] != right[i] {
            return left[i] < right[i];
        }
        assert(left@.skip(i as int).skip(1) == left@.skip(i + 1));
        assert(right@.skip(i as int).skip(1) == right@.skip(i + 1));
        i = i + 1;
    }

    i < right.len()
}

/// No byte string comes before itself.
pub proof fn lemma_precedes_irreflexive(bytes: Seq<u8>)
    ensures
        !precedes(bytes, bytes),
    decreases bytes.len(),
{
    if bytes.len() > 0 {
        lemma_precedes_irreflexive(bytes.skip(1));
    }
}

/// Byte order is transitive.
pub proof fn lemma_precedes_transitive(a: Seq<u8>, b: Seq<u8>, c: Seq<u8>)
    requires
        precedes(a, b),
        precedes(b, c),
    ensures
        precedes(a, c),
    decreases a.len(),
{
    if a.len() > 0 && a[0] == b[0] && b[0] == c[0] {
        lemma_precedes_transitive(a.skip(1), b.skip(1), c.skip(1));
    }
}

/// Of two different byte strings one comes before the other.
pub proof fn lemma_precedes_total(a: Seq<u8>, b: Seq<u8>)
    ensures
        a == b || precedes(a, b) || precedes(b, a),
    decreases a.len(),
{
    if a.len() == 0 && b.len() == 0 {
        assert(a == b);
    } else if a.len() > 0 && b.len() > 0 && a[0] == b[0] {
        lemma_precedes_total(a.skip(1), b.skip(1));
        if a.skip(1) == b.skip(1) {
            assert(a == seq![a[0]] + a.skip(1));
            assert(b == seq![b[0]] + b.skip(1));
        }
    }
}

/// Byte order is that of the first byte that differs, whatever follows it, and a text comes before
/// everything that it is a proper start of.
pub proof fn law_byte_order(
    start: Seq<u8>,
    left: u8,
    right: u8,
    left_rest: Seq<u8>,
    right_rest: Seq<u8>,
)
    ensures
        left < right ==> precedes(start.push(left) + left_rest, start.push(right) + right_rest),
        precedes(start, start.push(left) + left_rest),
        !precedes(start.push(left) + left_rest, start),
    decreases start.len(),
{
    let one = start.push(left) + left_rest;
    let other = start.push(right) + right_rest;
    if start.len() > 0 {
        let rest = start.skip(1);
        law_byte_order(rest, left, right, left_rest, right_rest);
        assert(one.skip(1) =~= rest.push(left) + left_rest);
        assert(other.skip(1) =~= rest.push(right) + right_rest);
        assert(one[0] == start[0] && other[0] == start[0]);
    } else {
        assert(one[0] == left && other[0] == right);
    }
}

/// Lower case changes nothing but the capital letters of ASCII, each into the small letter 32
/// places behind it, and changes nothing the second time.
pub proof fn law_lower_case(text: Seq<char>, i: int)
    requires
        0 <= i < text.len(),
    ensures
        lower_text(text).len() == text.len(),
        'A' <= text[i] <= 'Z' ==> lower_text(text)[i] as u32 == text[i] as u32 + 32,
        !('A' <= text[i] <= 'Z') ==> lower_text(text)[i] == text[i],
        lower_text(lower_text(text)) == lower_text(text),
{
    assert(lower_text(lower_text(text)) =~= lower_text(text));
}

/// A sign or leading zeros change nothing of a number's value, one more digit makes it ten times as
/// much and that digit more, and anything but digits makes it no number.
pub proof fn law_decimal_digits(digits: Seq<char>, digit: char, max: nat)
    requires
        digits.len() > 0,
        all_digits(digits),
    ensures
        parsed_decimal(seq!['+'] + digits, max) == parsed_decimal(digits, max),
        parsed_decimal(seq!['0'] + digits, max) == parsed_decimal(digits, max),
        parsed_decimal(digits, max) matches Some(value) ==> value <= max && (('0' <= digit <= '9'
            && value * 10 + (digit as u32 - '0' as u32) <= max) ==> (parsed_decimal(
            digits.push(digit),
            max,
        ) matches Some(more) && more == value * 10 + (digit as u32 - '0' as u32))),
        !('0' <= digit <= '9') ==> parsed_decimal(digits.push(digit), max) is None,
{
    assert('0' <= digits[0] <= '9');
    assert((seq!['+'] + digits).skip(1) =~= digits);
    assert((seq!['+'] + digits)[0] == '+');
    let padded = seq!['0'] + digits;
    lemma_leading_zero(digits);
    assert(padded[0] == '0');
    assert(all_digits(padded));
    let longer = digits.push(digit);
    assert(longer[0] == digits[0]);
    assert(longer.drop_last() =~= digits);
    assert(longer[digits.len() as int] == digit);
    if '0' <= digit <= '9' {
        assert(all_digits(longer));
    }
}

proof fn lemma_leading_zero(digits: Seq<char>)
    ensures
        decimal_value(seq!['0'] + digits) == decimal_value(digits),
    decreases digits.len(),
{
    let padded = seq!['0'] + digits;
    if digits.len() == 0 {
        assert(padded.drop_last() =~= Seq::<char>::empty());
        assert(padded.last() == '0');
        assert(decimal_value(padded.drop_last()) == 0);
    } else {
        lemma_leading_zero(digits.drop_last());
        assert(padded.drop_last() =~= seq!['0'] + digits.drop_last());
    }
}

/// A text is blank exactly if no character in it is anything but white space.
pub proof fn law_blank_texts(text: Seq<char>)
    ensures
        text.len() == 0 ==> is_blank(text),
        !is_blank(text) <==> exists|i: int|
            0 <= i < text.len() && !is_white_space(#[trigger] text[i]),
{
}

} // verus!
