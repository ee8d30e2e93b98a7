//! What texts and lists say, read character by character and row by row.
//!
//! These readings do not follow the way in which the texts and lists are made.
//! The laws in `promises` hold what the operations give against them.
use crate::generation;
use crate::tabs;
use crate::text;
use vstd::arithmetic::div_mod::*;
use vstd::prelude::*;

verus! {

/// The value of a lower-case digit.
pub open spec fn digit_value(c: char) -> int {
    if '0' <= c <= '9' {
        c as int - '0' as int
    } else {
        c as int - 'a' as int + 10
    }
}

/// Whether a text holds digits of the base `base` alone, `base` being 16 at most.
pub open spec fn is_numeral(text: Seq<char>, base: int) -> bool {
    forall|i: int|
        0 <= i < text.len() ==> {
            let c = #[trigger] text[i];
            ('0' <= c <= '9' || 'a' <= c <= 'f') && digit_value(c) < base
        }
}

/// The number that a text of digits is, most significant digit first.
pub open spec fn numeral_value(text: Seq<char>, base: int) -> int
    decreases text.len(),
{
    if text.len() == 0 {
        0
    } else {
        base * numeral_value(text.drop_last(), base) + digit_value(text.last())
    }
}

/// Whether a text is `n` in decimal, without leading zeros.
pub open spec fn reads_as_decimal(text: Seq<char>, n: int) -> bool {
    &&& text.len() > 0
    &&& is_numeral(text, 10)
    &&& numeral_value(text, 10) == n
    &&& text.len() > 1 ==> text[0] != '0'
}

/// Whether a text spells the bytes, two hexadecimal digits for each.
pub open spec fn spells_bytes(text: Seq<char>, bytes: Seq<u8>) -> bool {
    &&& text.len() == 2 * bytes.len()
    &&& is_numeral(text, 16)
    &&& forall|i: int|
        0 <= i < bytes.len() ==> #[trigger] bytes[i] == 16 * digit_value(text[2 * i])
            + digit_value(text[2 * i + 1])
}

/// Whether a text has the form of a UUID: digits in groups of 8, 4, 4, 4 and 12.
pub open spec fn is_token(text: Seq<char>) -> bool {
    &&& text.len() == 36
    &&& text[8] == '-'
    &&& text[13] == '-'
    &&& text[18] == '-'
    &&& text[23] == '-'
    &&& is_numeral(token_digits(text), 16)
}

/// The digits of a UUID's text.
pub open spec fn token_digits(text: Seq<char>) -> Seq<char> {
    text.subrange(0, 8) + text.subrange(9, 13) + text.subrange(14, 18) + text.subrange(19, 23)
        + text.subrange(24, 36)
}

/// Whether a text is the UUID of the number `value`.
pub open spec fn reads_as_token(text: Seq<char>, value: int) -> bool {
    is_token(text) && numeral_value(token_digits(text), 16) == value
}

/// Whether a text is that of a random UUID.
pub open spec fn is_random_token(text: Seq<char>) -> bool {
    &&& is_token(text)
    &&& text[14] == '4'
    &&& text[19] == '8' || text[19] == '9' || text[19] == 'a' || text[19] == 'b'
}

/// Whether a text begins with `prefix`, character by character.
pub open spec fn begins_with(text: Seq<char>, prefix: Seq<char>) -> bool {
    prefix.len() <= text.len() && forall|i: int|
        0 <= i < prefix.len() ==> #[trigger] text[i] == prefix[i]
}

/// Whether a session is that of a workspace browser: the word `workspace`,
/// alone or with a colon behind it.
pub open spec fn names_workspace(session: Seq<char>) -> bool {
    session == "workspace"@ || begins_with(session, "workspace:"@)
}

/// Whether `at` are the places, in order, of the tabs in `all` whose sessions
/// `keeps` holds of, and `kept` are the tabs at these places.
pub open spec fn picks(
    all: Seq<tabs::TabView>,
    kept: Seq<tabs::TabView>,
    keeps: spec_fn(Seq<char>) -> bool,
    at: Seq<int>,
) -> bool {
    &&& at.len() == kept.len()
    &&& forall|k: int|
        0 <= k < at.len() ==> 0 <= (#[trigger] at[k]) < all.len() && kept[k] == all[at[k]] && keeps(
            all[at[k]].session,
        )
    &&& forall|k: int, l: int| 0 <= k < l < at.len() ==> (#[trigger] at[k]) < (#[trigger] at[l])
    &&& forall|i: int|
        0 <= i < all.len() && keeps((#[trigger] all[i]).session) ==> at.contains(i)
}

/// Whether `kept` are the tabs of `all` whose sessions `keeps` holds of, each
/// as often and in the order as before.
pub open spec fn is_left_over(
    all: Seq<tabs::TabView>,
    kept: Seq<tabs::TabView>,
    keeps: spec_fn(Seq<char>) -> bool,
) -> bool {
    exists|at: Seq<int>| #[trigger] picks(all, kept, keeps, at)
}

/// Whether `keeps` holds of the session of some tab.
pub open spec fn has_tab(all: Seq<tabs::TabView>, keeps: spec_fn(Seq<char>) -> bool) -> bool {
    exists|i: int| 0 <= i < all.len() && keeps((#[trigger] all[i]).session)
}

pub proof fn lemma_digit_value(d: int)
    requires
        0 <= d < 16,
    ensures
        digit_value(text::digit(d)) == d,
        '0' <= text::digit(d) <= '9' || 'a' <= text::digit(d) <= 'f',
        d > 0 ==> text::digit(d) != '0',
{
    reveal_strlit("0123456789abcdef");
    if d == 0 || d == 1 || d == 2 || d == 3 {
    } else if d == 4 || d == 5 || d == 6 || d == 7 {
    } else if d == 8 || d == 9 || d == 10 || d == 11 {
    } else {
        assert(d == 12 || d == 13 || d == 14 || d == 15);
    }
}

proof fn lemma_numeral_push(text: Seq<char>, c: char, base: int)
    requires
        is_numeral(text, base),
        '0' <= c <= '9' || 'a' <= c <= 'f',
        digit_value(c) < base,
    ensures
        is_numeral(text.push(c), base),
        numeral_value(text.push(c), base) == base * numeral_value(text, base) + digit_value(c),
{
    let more = text.push(c);
    assert(more.drop_last() == text);
    assert forall|i: int| 0 <= i < more.len() implies {
        let c = #[trigger] more[i];
        ('0' <= c <= '9' || 'a' <= c <= 'f') && digit_value(c) < base
    } by {
        if i < text.len() {
            assert(more[i] == text[i]);
        }
    }
}

pub proof fn lemma_decimal(n: nat)
    ensures
        reads_as_decimal(text::decimal(n), n as int),
        n > 0 ==> text::decimal(n)[0] != '0',
    decreases n,
{
    let last = (n % 10) as int;
    lemma_digit_value(last);
    if n < 10 {
        assert(text::decimal(n) =~= Seq::<char>::empty().push(text::digit(last)));
        lemma_numeral_push(Seq::<char>::empty(), text::digit(last), 10);
    } else {
        let head = text::decimal(n / 10);
        lemma_decimal(n / 10);
        lemma_numeral_push(head, text::digit(last), 10);
        assert(text::decimal(n)[0] == head[0]);
    }
}

pub proof fn lemma_hex_digits(n: nat, count: nat)
    requires
        n < text::hex_bound(count),
    ensures
        text::hex_digits(n, count).len() == count,
        is_numeral(text::hex_digits(n, count), 16),
        numeral_value(text::hex_digits(n, count), 16) == n,
    decreases count,
{
    if count > 0 {
        let rest = (count - 1) as nat;
        let last = (n % 16) as int;
        lemma_digit_value(last);
        lemma_hex_digits(n / 16, rest);
        lemma_numeral_push(text::hex_digits(n / 16, rest), text::digit(last), 16);
    }
}

proof fn lemma_hex_digit_at(n: nat, count: nat, i: int)
    requires
        0 <= i < count,
    ensures
        text::hex_digits(n, count).len() == count,
        text::hex_digits(n, count)[i] == text::digit(
            ((n / text::hex_bound((count - 1 - i) as nat)) % 16) as int,
        ),
    decreases count,
{
    let rest = (count - 1) as nat;
    text::lemma_hex_digits_len(n / 16, rest);
    if i < rest {
        lemma_hex_digit_at(n / 16, rest, i);
        let bound = text::hex_bound((rest - 1 - i) as nat);
        lemma_hex_bound_positive((rest - 1 - i) as nat);
        lemma_div_denominator(n as int, 16, bound as int);
        assert(text::hex_bound((count - 1 - i) as nat) == 16 * bound);
        assert((n as int / 16) / bound as int == n as int / (16 * bound as int));
    } else {
        assert(text::hex_bound(0) == 1);
        assert(n / 1 == n);
    }
}

proof fn lemma_hex_bound_positive(count: nat)
    ensures
        text::hex_bound(count) > 0,
    decreases count,
{
    if count > 0 {
        lemma_hex_bound_positive((count - 1) as nat);
    }
}

pub proof fn lemma_hex(bytes: Seq<u8>)
    ensures
        spells_bytes(text::hex(bytes), bytes),
    decreases bytes.len(),
{
    text::lemma_hex_len(bytes);
    if bytes.len() > 0 {
        let head = bytes.drop_last();
        let last = bytes.last();
        let high = text::digit((last / 16) as int);
        let low = text::digit((last % 16) as int);
        lemma_hex(head);
        lemma_digit_value((last / 16) as int);
        lemma_digit_value((last % 16) as int);
        reveal_with_fuel(text::hex_digits, 3);
        assert((last as nat / 16) % 16 == last as nat / 16);
        assert(text::hex_digits(last as nat, 2) =~= seq![high, low]);
        let text = text::hex(bytes);
        let before = text::hex(head);
        assert(text =~= before + seq![high, low]);
        assert(before.len() == 2 * head.len());
        assert forall|i: int| 0 <= i < text.len() implies {
            let c = #[trigger] text[i];
            ('0' <= c <= '9' || 'a' <= c <= 'f') && digit_value(c) < 16
        } by {
            if i < before.len() {
                assert(text[i] == before[i]);
            }
        }
        assert forall|i: int| 0 <= i < bytes.len() implies #[trigger] bytes[i] == 16 * digit_value(
            text[2 * i],
        ) + digit_value(text[2 * i + 1]) by {
            if i < head.len() {
                assert(head[i] == bytes[i]);
                assert(text[2 * i] == before[2 * i]);
                assert(text[2 * i + 1] == before[2 * i + 1]);
            }
        }
    }
}

/// A text spells one list of bytes only.
pub proof fn lemma_spelled_once(text: Seq<char>, a: Seq<u8>, b: Seq<u8>)
    requires
        spells_bytes(text, a),
        spells_bytes(text, b),
    ensures
        a == b,
{
    assert forall|i: int| 0 <= i < a.len() implies a[i] == b[i] by {
        assert(a[i] == 16 * digit_value(text[2 * i]) + digit_value(text[2 * i + 1]));
        assert(b[i] == 16 * digit_value(text[2 * i]) + digit_value(text[2 * i + 1]));
    }
}

pub proof fn lemma_uuid_text(value: u128)
    ensures
        reads_as_token(generation::uuid_text(value), value as int),
{
    let digits = text::hex_digits(value as nat, 32);
    let token = generation::uuid_text(value);
    assert(text::hex_bound(32) == 0x1_0000_0000_0000_0000_0000_0000_0000_0000) by {
        reveal_with_fuel(text::hex_bound, 33);
    }
    lemma_hex_digits(value as nat, 32);
    assert(token_digits(token) =~= digits);
}

proof fn lemma_digit_chars()
    ensures
        text::digit(4) == '4',
        text::digit(8) == '8',
        text::digit(9) == '9',
        text::digit(10) == 'a',
        text::digit(11) == 'b',
{
    reveal_strlit("0123456789abcdef");
}

proof fn lemma_random_bits(value: u128)
    requires
        generation::is_random_uuid(value),
    ensures
        ((value as nat / text::hex_bound(19)) % 16) == 4,
        8 <= ((value as nat / text::hex_bound(15)) % 16) < 12,
{
    assert(text::hex_bound(19) == 0x1000_0000_0000_0000_0000) by {
        reveal_with_fuel(text::hex_bound, 20);
    }
    assert(text::hex_bound(15) == 0x1000_0000_0000_0000) by {
        reveal_with_fuel(text::hex_bound, 16);
    }
    let n = value as int;
    lemma_div_denominator(n, 0x1000_0000_0000_0000, 4);
    assert((n / 0x1000_0000_0000_0000) / 4 == n / 0x4000_0000_0000_0000);
}

#[verifier::spinoff_prover]
pub proof fn lemma_random_uuid_text(value: u128)
    requires
        generation::is_random_uuid(value),
    ensures
        is_random_token(generation::uuid_text(value)),
{
    let digits = text::hex_digits(value as nat, 32);
    let token = generation::uuid_text(value);
    lemma_random_bits(value);
    lemma_hex_digit_at(value as nat, 32, 12);
    lemma_hex_digit_at(value as nat, 32, 16);
    lemma_digit_chars();
    assert(digits[12] == '4');
    assert(digits[16] == '8' || digits[16] == '9' || digits[16] == 'a' || digits[16] == 'b');
    assert(token[14] == digits[12]);
    assert(token[19] == digits[16]);
    assert(is_token(token)) by {
        lemma_uuid_text(value);
    }
}

pub proof fn lemma_prefix(text: Seq<char>, prefix: Seq<char>)
    ensures
        text::has_prefix(text, prefix) == begins_with(text, prefix),
{
    if prefix.len() <= text.len() {
        let head = text.subrange(0, prefix.len() as int);
        if begins_with(text, prefix) {
            assert(head =~= prefix);
        }
        if head == prefix {
            assert forall|i: int| 0 <= i < prefix.len() implies #[trigger] text[i] == prefix[i] by {
                assert(head[i] == text[i]);
            }
        }
    }
}

pub proof fn lemma_left_over(
    all: Seq<tabs::TabView>,
    sessions: Set<Seq<char>>,
    keeps: spec_fn(Seq<char>) -> bool,
)
    requires
        forall|session: Seq<char>| #[trigger] keeps(session) == !sessions.contains(session),
    ensures
        is_left_over(all, tabs::tabs_outside(all, sessions), keeps),
        tabs::tabs_outside(all, sessions).len() > 0 <==> has_tab(all, keeps),
    decreases all.len(),
{
    reveal(Seq::filter);
    let kept = tabs::tabs_outside(all, sessions);
    if all.len() == 0 {
        assert(picks(all, kept, keeps, Seq::<int>::empty()));
    } else {
        let head = all.drop_last();
        let last = all.last();
        let rest = tabs::tabs_outside(head, sessions);
        lemma_left_over(head, sessions, keeps);
        let before = choose|at: Seq<int>| #[trigger] picks(head, rest, keeps, at);
        let at = if keeps(last.session) {
            before.push(all.len() - 1)
        } else {
            before
        };
        assert forall|k: int| 0 <= k < at.len() implies 0 <= (#[trigger] at[k]) < all.len()
            && kept[k] == all[at[k]] && keeps(all[at[k]].session) by {
            if k < before.len() {
                assert(at[k] == before[k]);
                assert(head[before[k]] == all[before[k]]);
            }
        }
        assert forall|k: int, l: int| 0 <= k < l < at.len() implies (#[trigger] at[k]) < (
        #[trigger] at[l]) by {
            assert(at[k] == before[k]);
            if l < before.len() {
                assert(at[l] == before[l]);
            }
        }
        assert forall|i: int|
            0 <= i < all.len() && keeps((#[trigger] all[i]).session) implies at.contains(i) by {
            if i < head.len() {
                assert(head[i] == all[i]);
                assert(before.contains(i));
                let k = choose|k: int| 0 <= k < before.len() && before[k] == i;
                assert(at[k] == i);
            } else {
                assert(at[at.len() - 1] == i);
            }
        }
        assert(picks(all, kept, keeps, at));
        if kept.len() > 0 {
            assert(keeps(all[at[0]].session));
        }
        if has_tab(all, keeps) {
            let i = choose|i: int| 0 <= i < all.len() && keeps((#[trigger] all[i]).session);
            assert(at.contains(i));
        }
    }
}

} // verus!
