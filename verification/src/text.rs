//! Text helpers: comparison, prefixes, and the digit strings that lanes,
//! endpoints and messages are made of.
use vstd::prelude::*;
use vstd::string::*;

verus! {

/// The lower-case hexadecimal digit of value `d`, for `0 <= d < 16`.
pub open spec fn digit(d: int) -> char {
    "0123456789abcdef"@[d]
}

/// `n` in decimal, without leading zeros.
pub open spec fn decimal(n: nat) -> Seq<char>
    decreases n,
{
    if n < 10 {
        seq![digit(n as int)]
    } else {
        decimal(n / 10).push(digit((n % 10) as int))
    }
}

/// The last `count` hexadecimal digits of `n`, most significant first.
pub open spec fn hex_digits(n: nat, count: nat) -> Seq<char>
    decreases count,
{
    if count == 0 {
        seq![]
    } else {
        hex_digits(n / 16, (count - 1) as nat).push(digit((n % 16) as int))
    }
}

/// Each byte as two lower-case hexadecimal digits, in order.
pub open spec fn hex(bytes: Seq<u8>) -> Seq<char>
    decreases bytes.len(),
{
    if bytes.len() == 0 {
        seq![]
    } else {
        hex(bytes.drop_last()) + hex_digits(bytes.last() as nat, 2)
    }
}

/// Whether `text` begins with `prefix`.
pub open spec fn has_prefix(text: Seq<char>, prefix: Seq<char>) -> bool {
    prefix.len() <= text.len() && text.subrange(0, prefix.len() as int) == prefix
}

pub proof fn lemma_digit_injective(a: int, b: int)
    requires
        0 <= a < 16,
        0 <= b < 16,
        digit(a) == digit(b),
    ensures
        a == b,
{
    reveal_strlit("0123456789abcdef");
}

pub proof fn lemma_hex_digits_len(n: nat, count: nat)
    ensures
        hex_digits(n, count).len() == count,
    decreases count,
{
    if count > 0 {
        lemma_hex_digits_len(n / 16, (count - 1) as nat);
    }
}

/// `16` to the power `count`.
pub open spec fn hex_bound(count: nat) -> nat
    decreases count,
{
    if count == 0 {
        1
    } else {
        16 * hex_bound((count - 1) as nat)
    }
}

pub proof fn lemma_hex_digits_injective(a: nat, b: nat, count: nat)
    requires
        a < hex_bound(count),
        b < hex_bound(count),
        hex_digits(a, count) == hex_digits(b, count),
    ensures
        a == b,
    decreases count,
{
    if count > 0 {
        let rest = (count - 1) as nat;
        let left = hex_digits(a / 16, rest);
        let right = hex_digits(b / 16, rest);
        assert(left.push(digit((a % 16) as int)).last() == digit((a % 16) as int));
        assert(right.push(digit((b % 16) as int)).last() == digit((b % 16) as int));
        lemma_digit_injective((a % 16) as int, (b % 16) as int);
        assert(left == left.push(digit((a % 16) as int)).drop_last());
        assert(right == right.push(digit((b % 16) as int)).drop_last());
        assert(left == right);
        lemma_hex_digits_injective(a / 16, b / 16, rest);
    }
}

pub proof fn lemma_hex_len(bytes: Seq<u8>)
    ensures
        hex(bytes).len() == 2 * bytes.len(),
    decreases bytes.len(),
{
    if bytes.len() > 0 {
        lemma_hex_len(bytes.drop_last());
        lemma_hex_digits_len(bytes.last() as nat, 2);
    }
}

pub proof fn lemma_hex_injective(a: Seq<u8>, b: Seq<u8>)
    requires
        hex(a) == hex(b),
    ensures
        a == b,
    decreases a.len(),
{
    lemma_hex_len(a);
    lemma_hex_len(b);
    if a.len() > 0 {
        let cut = 2 * (a.len() - 1);
        lemma_hex_len(a.drop_last());
        lemma_hex_len(b.drop_last());
        lemma_hex_digits_len(a.last() as nat, 2);
        lemma_hex_digits_len(b.last() as nat, 2);
        assert(hex(a).subrange(0, cut) == hex(a.drop_last()));
        assert(hex(b).subrange(0, cut) == hex(b.drop_last()));
        assert(hex(a).subrange(cut, cut + 2) == hex_digits(a.last() as nat, 2));
        assert(hex(b).subrange(cut, cut + 2) == hex_digits(b.last() as nat, 2));
        assert(hex_bound(2) == 256) by {
            reveal_with_fuel(hex_bound, 3);
        }
        lemma_hex_digits_injective(a.last() as nat, b.last() as nat, 2);
        lemma_hex_injective(a.drop_last(), b.drop_last());
        assert(a == a.drop_last().push(a.last()));
        assert(b == b.drop_last().push(b.last()));
    } else {
        assert(a == b);
    }
}

/// Whether `c` is a lower-case hexadecimal digit.
pub open spec fn is_hex_digit(c: char) -> bool {
    '0' <= c <= '9' || 'a' <= c <= 'f'
}

pub proof fn lemma_hex_digits_are_digits(n: nat, count: nat)
    ensures
        forall|i: int|
            0 <= i < hex_digits(n, count).len() ==> is_hex_digit(#[trigger] hex_digits(n, count)[i]),
    decreases count,
{
    if count > 0 {
        let head = hex_digits(n / 16, (count - 1) as nat);
        lemma_hex_digits_are_digits(n / 16, (count - 1) as nat);
        reveal_strlit("0123456789abcdef");
        assert(is_hex_digit(digit((n % 16) as int)));
        assert forall|i: int| 0 <= i < hex_digits(n, count).len() implies is_hex_digit(
            #[trigger] hex_digits(n, count)[i],
        ) by {
            if i < head.len() {
                assert(hex_digits(n, count)[i] == head[i]);
            }
        }
    }
}

pub proof fn lemma_hex_is_digits(bytes: Seq<u8>)
    ensures
        forall|i: int| 0 <= i < hex(bytes).len() ==> is_hex_digit(#[trigger] hex(bytes)[i]),
    decreases bytes.len(),
{
    if bytes.len() > 0 {
        lemma_hex_is_digits(bytes.drop_last());
        lemma_hex_digits_are_digits(bytes.last() as nat, 2);
        let head = hex(bytes.drop_last());
        let tail = hex_digits(bytes.last() as nat, 2);
        assert forall|i: int| 0 <= i < hex(bytes).len() implies is_hex_digit(#[trigger] hex(bytes)[i]) by {
            if i < head.len() {
                assert(hex(bytes)[i] == head[i]);
            } else {
                assert(hex(bytes)[i] == tail[i - head.len()]);
            }
        }
    }
}

/// Appends the digit of value `d` to `out`.
fn push_digit(out: &mut String, d: u8)
    requires
        d < 16,
    ensures
        final(out)@ == old(out)@.push(digit(d as int)),
{
    proof {
        reveal_strlit("0123456789abcdef");
    }
    let at: usize = d as usize;
    let one = "0123456789abcdef".substring_char(at, at + 1);
    assert(one@ == seq![digit(d as int)]);
    out.append(one);
    assert(out@ == old(out)@.push(digit(d as int)));
}

/// `n` in decimal.
pub fn decimal_text(n: u16) -> (text: String)
    ensures
        text@ == decimal(n as nat),
    decreases n,
{
    let mut text = if n < 10 {
        String::new()
    } else {
        decimal_text(n / 10)
    };
    push_digit(&mut text, (n % 10) as u8);
    assert(text@ == decimal(n as nat));
    text
}

/// The bytes in lower-case hexadecimal, two digits each.
pub fn hex_text(bytes: &[u8]) -> (text: String)
    ensures
        text@ == hex(bytes@),
{
    let mut text = String::new();
    let mut i: usize = 0;
    assert(bytes@.subrange(0, 0) == Seq::<u8>::empty());
    while i < bytes.len()
        invariant
            i <= bytes@.len(),
            text@ == hex(bytes@.subrange(0, i as int)),
        decreases bytes@.len() - i,
    {
        let byte = bytes[i];
        let ghost before = text@;
        push_digit(&mut text, byte / 16);
        push_digit(&mut text, byte % 16);
        proof {
            reveal_with_fuel(hex_digits, 3);
            let done = bytes@.subrange(0, i + 1);
            assert(done.drop_last() == bytes@.subrange(0, i as int));
            assert(done.last() == byte);
            assert((byte as nat / 16) % 16 == byte as nat / 16);
            assert(hex_digits(byte as nat, 2) == seq![digit((byte / 16) as int), digit((byte % 16) as int)]);
            assert(text@ == before + hex_digits(byte as nat, 2));
        }
        i = i + 1;
    }
    assert(bytes@.subrange(0, i as int) == bytes@);
    text
}

/// Whether the two texts are the same.
pub fn same_text(a: &str, b: &str) -> (same: bool)
    ensures
        same == (a@ == b@),
{
    let left = a.as_bytes();
    let right = b.as_bytes();
    proof {
        vstd::utf8::encode_utf8_decode_utf8(a@);
        vstd::utf8::encode_utf8_decode_utf8(b@);
        assert(left@ == right@ ==> a@ == b@);
    }
    if left.len() != right.len() {
        return false;
    }
    let mut i: usize = 0;
    while i < left.len()
        invariant
            i <= left@.len(),
            left@.len() == right@.len(),
            forall|j: int| 0 <= j < i ==> left@[j] == right@[j],
            left@ == a.spec_bytes(),
            right@ == b.spec_bytes(),
        decreases left@.len() - i,
    {
        if left[i] != right[i] {
            return false;
        }
        i = i + 1;
    }
    assert(left@ == right@);
    true
}

/// Whether `text` begins with `prefix`.
pub fn starts_with(text: &str, prefix: &str) -> (yes: bool)
    ensures
        yes == has_prefix(text@, prefix@),
{
    let count = prefix.unicode_len();
    text.unicode_len() >= count && same_text(text.substring_char(0, count), prefix)
}

} // verus!
