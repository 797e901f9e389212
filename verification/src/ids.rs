//! Message identities: 128-bit UUIDs and their textual form.

use crate::text::lower_text;
use uuid::Uuid;
use vstd::prelude::*;

verus! {

/// A UUID of the `uuid` crate.
#[verifier::external_type_specification]
#[verifier::external_body]
pub struct ExUuid(Uuid);

/// Why a text is no UUID.
#[verifier::external_type_specification]
#[verifier::external_body]
pub struct ExUuidError(uuid::Error);

/// A UUID as a number, as `Uuid::as_u128` gives it.
pub uninterp spec fn uuid_value(uuid: Uuid) -> u128;

/// `Uuid::as_u128`: the UUID's 128 bits as a number.
pub assume_specification[ Uuid::as_u128 ](uuid: &Uuid) -> (value: u128)
    ensures
        value == uuid_value(*uuid),
;

/// `Uuid::from_u128`: the UUID with the given 128 bits.
pub assume_specification[ Uuid::from_u128 ](v: u128) -> (uuid: Uuid)
    ensures
        uuid_value(uuid) == v,
;

/// The value of a hexadecimal digit in either case.
pub open spec fn hex_digit_value(c: char) -> Option<nat> {
    if '0' <= c <= '9' {
        Some((c as u32 - '0' as u32) as nat)
    } else if 'a' <= c <= 'f' {
        Some((c as u32 - 'a' as u32 + 10) as nat)
    } else if 'A' <= c <= 'F' {
        Some((c as u32 - 'A' as u32 + 10) as nat)
    } else {
        None
    }
}

/// A row of hexadecimal digits and nothing else.
pub open spec fn all_hex(text: Seq<char>) -> bool {
    forall|i: int| 0 <= i < text.len() ==> hex_digit_value(#[trigger] text[i]) is Some
}

/// The value that a row of hexadecimal digits denotes.
pub open spec fn hex_value(digits: Seq<char>) -> nat
    decreases digits.len(),
{
    if digits.len() == 0 {
        0
    } else {
        hex_value(digits.drop_last()) * 16 + hex_digit_value(digits.last())->Some_0
    }
}

/// The lower-case hexadecimal digit of a number below sixteen.
pub open spec fn hex_char(n: nat) -> char {
    if n < 10 {
        (('0' as u32) + n) as char
    } else {
        (('a' as u32) + n - 10) as char
    }
}

/// The last `k` hexadecimal digits of `n`, in lower case.
pub open spec fn hex_text(n: nat, k: nat) -> Seq<char>
    decreases k,
{
    if k == 0 {
        seq![]
    } else {
        hex_text(n / 16, (k - 1) as nat).push(hex_char(n % 16))
    }
}

/// The five groups of a hyphenated UUID, joined.
pub open spec fn without_hyphens(text: Seq<char>) -> Seq<char> {
    text.subrange(0, 8) + text.subrange(9, 13) + text.subrange(14, 18) + text.subrange(19, 23)
        + text.subrange(24, 36)
}

/// A row of digits with hyphens between its five groups of eight, four, four, four, and twelve.
pub open spec fn with_hyphens(digits: Seq<char>) -> Seq<char> {
    digits.subrange(0, 8) + seq!['-'] + digits.subrange(8, 12) + seq!['-'] + digits.subrange(12, 16)
        + seq!['-'] + digits.subrange(16, 20) + seq!['-'] + digits.subrange(20, 32)
}

/// The hyphenated lower-case text of a UUID.
pub open spec fn uuid_text(id: u128) -> Seq<char> {
    with_hyphens(hex_text(id as nat, 32))
}

/// The 32 digits of a UUID text: plain, or hyphenated and then bare, in braces, or behind
/// `urn:uuid:`.
pub open spec fn uuid_digits(text: Seq<char>) -> Option<Seq<char>> {
    let body = if text.len() == 38 && text[0] == '{' && text[37] == '}' {
        text.subrange(1, 37)
    } else if text.len() == 45 && lower_text(text.take(9)) == "urn:uuid:"@ {
        text.skip(9)
    } else {
        text
    };

    if text.len() == 32 {
        Some(text)
    } else if body.len() == 36 && body[8] == '-' && body[13] == '-' && body[18] == '-' && body[23]
        == '-' {
        Some(without_hyphens(body))
    } else {
        None
    }
}

/// The UUID that a text denotes.
pub open spec fn parsed_uuid(text: Seq<char>) -> Option<u128> {
    match uuid_digits(text) {
        Some(digits) => if all_hex(digits) {
            Some(hex_value(digits) as u128)
        } else {
            None
        },
        None => None,
    }
}

/// `Uuid` rendered by its `Display`: the hyphenated form in lower case.
#[verifier::external_body]
pub(crate) fn render_uuid(id: u128) -> (text: String)
    ensures
        text@ == uuid_text(id),
{
    Uuid::from_u128(id).to_string()
}

/// `Uuid::parse_str`: accepts the plain, hyphenated, braced, and URN forms with digits in either
/// case, and nothing else. What the error of a refused text holds is not stated.
pub assume_specification[ Uuid::parse_str ](input: &str) -> (uuid: Result<Uuid, uuid::Error>)
    ensures
        match uuid {
            Ok(uuid) => parsed_uuid(input@) == Some(uuid_value(uuid)),
            Err(_) => parsed_uuid(input@) is None,
        },
;

/// Reads the number of a UUID from its text.
pub fn parse_uuid(text: &str) -> (id: Option<u128>)
    ensures
        id == parsed_uuid(text@),
{
    match Uuid::parse_str(text) {
        Ok(uuid) => Some(uuid.as_u128()),
        Err(_) => None,
    }
}

proof fn lemma_hex_text(n: nat, k: nat)
    ensures
        hex_text(n, k).len() == k,
        all_hex(hex_text(n, k)),
        forall|i: int| 0 <= i < k ==> (#[trigger] hex_text(n, k)[i] as u32) < 128,
        n < sixteen_to(k) ==> hex_value(hex_text(n, k)) == n,
    decreases k,
{
    if k > 0 {
        let text = hex_text(n, k);
        lemma_hex_text(n / 16, (k - 1) as nat);
        assert(text.drop_last() == hex_text(n / 16, (k - 1) as nat));
        assert(hex_digit_value(hex_char(n % 16)) == Some(n % 16));
        assert forall|i: int| 0 <= i < text.len() implies hex_digit_value(
            #[trigger] text[i],
        ) is Some by {
            if i < k - 1 {
                assert(text[i] == hex_text(n / 16, (k - 1) as nat)[i]);
            }
        }
        assert forall|i: int| 0 <= i < k implies (#[trigger] hex_text(n, k)[i] as u32) < 128 by {
            if i < k - 1 {
                assert(text[i] == hex_text(n / 16, (k - 1) as nat)[i]);
            }
        }
    }
}

/// Sixteen to the power `k`.
pub open spec fn sixteen_to(k: nat) -> nat
    decreases k,
{
    if k == 0 {
        1
    } else {
        16 * sixteen_to((k - 1) as nat)
    }
}

/// A written identity has 36 characters, all ASCII.
pub proof fn lemma_uuid_text(id: u128)
    ensures
        uuid_text(id).len() == 36,
        vstd::utf8::is_ascii_chars(uuid_text(id)),
{
    lemma_hex_text(id as nat, 32);
    let digits = hex_text(id as nat, 32);
    let text = uuid_text(id);
    assert forall|i: int| 0 <= i < text.len() implies (#[trigger] text[i] as u32) < 128 by {
        if i < 8 {
            assert(text[i] == digits[i]);
        } else if 8 < i < 13 {
            assert(text[i] == digits[i - 1]);
        } else if 13 < i < 18 {
            assert(text[i] == digits[i - 2]);
        } else if 18 < i < 23 {
            assert(text[i] == digits[i - 3]);
        } else if 23 < i {
            assert(text[i] == digits[i - 4]);
        }
    }
}

/// Reading a written identity gives the identity back.
pub proof fn law_uuid_round_trip(id: u128)
    ensures
        parsed_uuid(uuid_text(id)) == Some(id),
{
    let digits = hex_text(id as nat, 32);
    lemma_hex_text(id as nat, 32);
    lemma_uuid_text(id);
    assert(without_hyphens(uuid_text(id)) == digits);
    assert(sixteen_to(32) == 0x1_0000_0000_0000_0000_0000_0000_0000_0000) by {
        reveal_with_fuel(sixteen_to, 33);
    }
}

/// A row of `k` hexadecimal digits denotes a number below sixteen to the power `k`.
pub proof fn lemma_hex_bound(digits: Seq<char>)
    requires
        all_hex(digits),
    ensures
        hex_value(digits) < sixteen_to(digits.len()),
    decreases digits.len(),
{
    if digits.len() > 0 {
        let before = digits.drop_last();
        assert forall|i: int| 0 <= i < before.len() implies hex_digit_value(
            #[trigger] before[i],
        ) is Some by {
            assert(before[i] == digits[i]);
        }
        lemma_hex_bound(before);
        assert(hex_digit_value(digits[digits.len() - 1]) is Some);
    }
}

} // verus!
