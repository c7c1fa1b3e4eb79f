//! Tracking identifiers: 128 bits, 122 of them random, written as
//! thirty-two hexadecimal digits in five groups.

use crate::text::push_char;
use vstd::arithmetic::div_mod::lemma_mod_breakdown;
use vstd::prelude::*;

verus! {

/// The character of one hexadecimal digit, in lower case.
pub open spec fn hex_digit(d: nat) -> char
    recommends
        d < 16,
{
    if d < 10 {
        ((0x30 + d) as u8) as char
    } else {
        ((0x57 + d) as u8) as char
    }
}

/// The lowest `digits` hexadecimal digits of `value`, most significant
/// first.
pub open spec fn hex(value: nat, digits: nat) -> Seq<char>
    decreases digits,
{
    if digits == 0 {
        Seq::empty()
    } else {
        hex(value / 16, (digits - 1) as nat).push(hex_digit(value % 16))
    }
}

/// The text of an identifier: its thirty-two digits in groups of eight,
/// four, four, four and twelve, with a hyphen between two groups.
pub open spec fn tracking_text(id: u128) -> Seq<char> {
    hex(id as nat / 0x1_0000_0000_0000_0000_0000_0000, 8) + seq!['-'] + hex(
        id as nat / 0x1_0000_0000_0000_0000_0000,
        4,
    ) + seq!['-'] + hex(id as nat / 0x1_0000_0000_0000_0000, 4) + seq!['-'] + hex(
        id as nat / 0x1_0000_0000_0000,
        4,
    ) + seq!['-'] + hex(id as nat, 12)
}

/// Whether `id` is marked as a random identifier: its thirteenth digit is
/// `4`, and the two highest bits of its seventeenth digit are `10`.
pub open spec fn is_random_id(id: u128) -> bool {
    &&& (id / 0x1000_0000_0000_0000_0000) % 16 == 4
    &&& (id / 0x4000_0000_0000_0000) % 4 == 2
}

/// Whether `s` is the text of a random identifier.
pub open spec fn is_tracking_id(s: Seq<char>) -> bool {
    exists|id: u128| is_random_id(id) && s == #[trigger] tracking_text(id)
}

/// `hex` gives as many digits as it is asked for.
pub proof fn lemma_hex_len(value: nat, digits: nat)
    ensures
        hex(value, digits).len() == digits,
    decreases digits,
{
    if digits > 0 {
        lemma_hex_len(value / 16, (digits - 1) as nat);
    }
}

/// The text of an identifier has thirty-six characters.
pub proof fn lemma_tracking_text_len(id: u128)
    ensures
        tracking_text(id).len() == 36,
{
    lemma_hex_len(id as nat / 0x1_0000_0000_0000_0000_0000_0000, 8);
    lemma_hex_len(id as nat / 0x1_0000_0000_0000_0000_0000, 4);
    lemma_hex_len(id as nat / 0x1_0000_0000_0000_0000, 4);
    lemma_hex_len(id as nat / 0x1_0000_0000_0000, 4);
    lemma_hex_len(id as nat, 12);
}

/// The number of values that `digits` hexadecimal digits tell apart.
pub open spec fn hex_span(digits: nat) -> nat
    decreases digits,
{
    if digits == 0 {
        1
    } else {
        16 * hex_span((digits - 1) as nat)
    }
}

/// The digit that a hexadecimal character stands for.
pub open spec fn hex_digit_value(c: char) -> nat {
    if c as u32 >= 0x61 {
        (c as u32 - 0x57) as nat
    } else {
        (c as u32 - 0x30) as nat
    }
}

/// Numbers with the same lowest digits differ by a multiple of what those
/// digits span.
pub proof fn lemma_hex_injective(x: nat, y: nat, digits: nat)
    requires
        hex(x, digits) == hex(y, digits),
    ensures
        hex_span(digits) > 0,
        x % hex_span(digits) == y % hex_span(digits),
    decreases digits,
{
    if digits > 0 {
        let rest = (digits - 1) as nat;
        let px = hex(x / 16, rest);
        let py = hex(y / 16, rest);
        assert(px =~= hex(x, digits).drop_last());
        assert(py =~= hex(y, digits).drop_last());
        assert(hex(x, digits).last() == hex_digit(x % 16));
        assert(hex(y, digits).last() == hex_digit(y % 16));
        assert(hex_digit_value(hex_digit(x % 16)) == x % 16);
        assert(hex_digit_value(hex_digit(y % 16)) == y % 16);
        lemma_hex_injective(x / 16, y / 16, rest);
        lemma_mod_breakdown(x as int, 16, hex_span(rest) as int);
        lemma_mod_breakdown(y as int, 16, hex_span(rest) as int);
    }
}

/// Two identifiers are equal where their five groups of digits are.
proof fn lemma_groups_determine(a: u128, b: u128)
    requires
        a % 0x1_0000_0000_0000 == b % 0x1_0000_0000_0000,
        (a / 0x1_0000_0000_0000) % 0x1_0000 == (b / 0x1_0000_0000_0000) % 0x1_0000,
        (a / 0x1_0000_0000_0000_0000) % 0x1_0000 == (b / 0x1_0000_0000_0000_0000) % 0x1_0000,
        (a / 0x1_0000_0000_0000_0000_0000) % 0x1_0000 == (b / 0x1_0000_0000_0000_0000_0000)
            % 0x1_0000,
        (a / 0x1_0000_0000_0000_0000_0000_0000) % 0x1_0000_0000 == (b
            / 0x1_0000_0000_0000_0000_0000_0000) % 0x1_0000_0000,
    ensures
        a == b,
{
    lemma_mod_breakdown(a as int, 0x1_0000_0000_0000, 0x1_0000);
    lemma_mod_breakdown(b as int, 0x1_0000_0000_0000, 0x1_0000);
    assert(a % 0x1_0000_0000_0000_0000 == b % 0x1_0000_0000_0000_0000);
    lemma_mod_breakdown(a as int, 0x1_0000_0000_0000_0000, 0x1_0000);
    lemma_mod_breakdown(b as int, 0x1_0000_0000_0000_0000, 0x1_0000);
    assert(a % 0x1_0000_0000_0000_0000_0000 == b % 0x1_0000_0000_0000_0000_0000);
    lemma_mod_breakdown(a as int, 0x1_0000_0000_0000_0000_0000, 0x1_0000);
    lemma_mod_breakdown(b as int, 0x1_0000_0000_0000_0000_0000, 0x1_0000);
    assert(a % 0x1_0000_0000_0000_0000_0000_0000 == b % 0x1_0000_0000_0000_0000_0000_0000);
    assert(a / 0x1_0000_0000_0000_0000_0000_0000 < 0x1_0000_0000);
    assert(b / 0x1_0000_0000_0000_0000_0000_0000 < 0x1_0000_0000);
    assert(a / 0x1_0000_0000_0000_0000_0000_0000 == b / 0x1_0000_0000_0000_0000_0000_0000);
}

/// Two identifiers with the same text are the same identifier: no two are
/// written alike.
pub proof fn lemma_tracking_text_injective(a: u128, b: u128)
    requires
        tracking_text(a) == tracking_text(b),
    ensures
        a == b,
{
    let ta = tracking_text(a);
    let tb = tracking_text(b);
    let a1 = a as nat / 0x1_0000_0000_0000_0000_0000_0000;
    let a2 = a as nat / 0x1_0000_0000_0000_0000_0000;
    let a3 = a as nat / 0x1_0000_0000_0000_0000;
    let a4 = a as nat / 0x1_0000_0000_0000;
    let b1 = b as nat / 0x1_0000_0000_0000_0000_0000_0000;
    let b2 = b as nat / 0x1_0000_0000_0000_0000_0000;
    let b3 = b as nat / 0x1_0000_0000_0000_0000;
    let b4 = b as nat / 0x1_0000_0000_0000;
    lemma_hex_len(a1, 8);
    lemma_hex_len(a2, 4);
    lemma_hex_len(a3, 4);
    lemma_hex_len(a4, 4);
    lemma_hex_len(a as nat, 12);
    lemma_hex_len(b1, 8);
    lemma_hex_len(b2, 4);
    lemma_hex_len(b3, 4);
    lemma_hex_len(b4, 4);
    lemma_hex_len(b as nat, 12);
    assert(hex(a1, 8) =~= ta.subrange(0, 8));
    assert(hex(b1, 8) =~= tb.subrange(0, 8));
    assert(hex(a2, 4) =~= ta.subrange(9, 13));
    assert(hex(b2, 4) =~= tb.subrange(9, 13));
    assert(hex(a3, 4) =~= ta.subrange(14, 18));
    assert(hex(b3, 4) =~= tb.subrange(14, 18));
    assert(hex(a4, 4) =~= ta.subrange(19, 23));
    assert(hex(b4, 4) =~= tb.subrange(19, 23));
    assert(hex(a as nat, 12) =~= ta.subrange(24, 36));
    assert(hex(b as nat, 12) =~= tb.subrange(24, 36));
    lemma_hex_injective(a1, b1, 8);
    lemma_hex_injective(a2, b2, 4);
    lemma_hex_injective(a3, b3, 4);
    lemma_hex_injective(a4, b4, 4);
    lemma_hex_injective(a as nat, b as nat, 12);
    assert(hex_span(4) == 0x1_0000) by {
        reveal_with_fuel(hex_span, 5);
    }
    assert(hex_span(8) == 0x1_0000_0000) by {
        reveal_with_fuel(hex_span, 9);
    }
    assert(hex_span(12) == 0x1_0000_0000_0000) by {
        reveal_with_fuel(hex_span, 13);
    }
    lemma_groups_determine(a, b);
}

/// Appends the lowest `digits` hexadecimal digits of `value` to `out`.
fn append_hex(out: &mut String, value: u128, digits: u32)
    ensures
        final(out)@ == old(out)@ + hex(value as nat, digits as nat),
    decreases digits,
{
    if digits == 0 {
        assert(out@ =~= old(out)@ + hex(value as nat, 0));
        return ;
    }
    append_hex(out, value / 16, digits - 1);
    let d: u8 = (value % 16) as u8;
    let c: char = if d < 10 {
        (0x30 + d) as char
    } else {
        (0x57 + d) as char
    };
    push_char(out, c);
    assert(final(out)@ =~= old(out)@ + hex(value as nat, digits as nat));
}

/// The text of the identifier `id`.
pub fn tracking_id_text(id: u128) -> (s: String)
    ensures
        s@ == tracking_text(id),
        s@.len() == 36,
{
    let mut s = String::new();
    append_hex(&mut s, id / 0x1_0000_0000_0000_0000_0000_0000, 8);
    push_char(&mut s, '-');
    append_hex(&mut s, id / 0x1_0000_0000_0000_0000_0000, 4);
    push_char(&mut s, '-');
    append_hex(&mut s, id / 0x1_0000_0000_0000_0000, 4);
    push_char(&mut s, '-');
    append_hex(&mut s, id / 0x1_0000_0000_0000, 4);
    push_char(&mut s, '-');
    append_hex(&mut s, id, 12);
    proof {
        assert(s@ =~= tracking_text(id));
        lemma_tracking_text_len(id);
    }
    s
}

/// A fresh random identifier. This is `uuid::Uuid::new_v4` followed by
/// `Uuid::as_u128`: 128 bits from the operating system's random source, of
/// which six are then fixed, the four of the version to 4 and the two of
/// the variant to binary 10. Nothing else is known of the result. The
/// outside function panics where the operating system gives no random
/// bytes.
#[verifier::external_body]
fn fresh_random_id() -> (id: u128)
    ensures
        is_random_id(id),
{
    uuid::Uuid::new_v4().as_u128()
}

/// A new tracking identifier: the text of a fresh random identifier.
pub fn create_tracking_id() -> (s: String)
    ensures
        is_tracking_id(s@),
        s@.len() == 36,
{
    let id = fresh_random_id();
    tracking_id_text(id)
}

} // verus!
