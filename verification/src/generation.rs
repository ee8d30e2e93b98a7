//! Generations: the random number that one start of a workspace is known by,
//! and its text.
use crate::text;
use vstd::prelude::*;

verus! {

/// Whether `value` has the version and variant bits of a random UUID.
pub open spec fn is_random_uuid(value: u128) -> bool {
    &&& (value as nat / 0x1000_0000_0000_0000_0000) % 16 == 4
    &&& (value as nat / 0x4000_0000_0000_0000) % 4 == 2
}

/// The hyphenated text of the UUID with the value `value`: 32 lower-case
/// hexadecimal digits in groups of 8, 4, 4, 4 and 12.
pub open spec fn uuid_text(value: u128) -> Seq<char> {
    let digits = text::hex_digits(value as nat, 32);
    digits.subrange(0, 8).push('-') + digits.subrange(8, 12).push('-') + digits.subrange(
        12,
        16,
    ).push('-') + digits.subrange(16, 20).push('-') + digits.subrange(20, 32)
}

/// `uuid::Uuid::new_v4`, as a number with the first byte on top: any value
/// with the version and variant bits of a random UUID. The call ends the
/// program's thread where the system gives no randomness.
#[verifier::external_body]
pub(crate) fn random_generation() -> (value: u128)
    ensures
        is_random_uuid(value),
{
    uuid::Uuid::new_v4().as_u128()
}

/// The `Display` text of `uuid::Uuid`, for the UUID with the value `value`.
#[verifier::external_body]
pub(crate) fn generation_text(value: u128) -> (text: String)
    ensures
        text@ == uuid_text(value),
{
    uuid::Uuid::from_u128(value).to_string()
}

pub proof fn lemma_uuid_text_len(value: u128)
    ensures
        uuid_text(value).len() == 36,
{
    text::lemma_hex_digits_len(value as nat, 32);
}

/// Different values have different texts.
pub proof fn lemma_uuid_text_injective(a: u128, b: u128)
    requires
        uuid_text(a) == uuid_text(b),
    ensures
        a == b,
{
    let left = text::hex_digits(a as nat, 32);
    let right = text::hex_digits(b as nat, 32);
    text::lemma_hex_digits_len(a as nat, 32);
    text::lemma_hex_digits_len(b as nat, 32);
    assert forall|i: int| 0 <= i < 32 implies left[i] == right[i] by {
        let at = if i < 8 {
            i
        } else if i < 12 {
            i + 1
        } else if i < 16 {
            i + 2
        } else if i < 20 {
            i + 3
        } else {
            i + 4
        };
        assert(uuid_text(a)[at] == left[i]);
        assert(uuid_text(b)[at] == right[i]);
    }
    assert(left == right);
    assert(text::hex_bound(32) == 0x1_0000_0000_0000_0000_0000_0000_0000_0000) by {
        reveal_with_fuel(text::hex_bound, 33);
    }
    text::lemma_hex_digits_injective(a as nat, b as nat, 32);
}

} // verus!
