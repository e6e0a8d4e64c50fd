//! What number a text of digits writes.
use vstd::prelude::*;
use vstd::string::*;

use crate::sql::sql_parser;
use crate::storage::literal_laws;
use crate::text;

verus! {

/// The decimal text of a number writes that number, and does not start with a zero unless it is zero.
pub proof fn lemma_decimal_writes_the_number(n: nat)
    ensures
        literal_laws::all_digits(text::decimal(n)),
        literal_laws::digits_value(text::decimal(n)) == n,
        literal_laws::is_decimal(text::decimal(n), n as int),
        n > 0 ==> text::decimal(n)[0] != '0',
    decreases n,
{
    let s = text::decimal(n);
    if n < 10 {
        assert(s =~= seq![text::digit_char(n)]);
        assert(s.drop_last() =~= Seq::<char>::empty());
        assert(literal_laws::digits_value(s.drop_last()) == 0);
        assert(s.last() == text::digit_char(n));
    } else {
        lemma_decimal_writes_the_number(n / 10);
        let rest = text::decimal(n / 10);
        assert(s.drop_last() =~= rest);
        assert(s.last() == text::digit_char(n % 10));
        assert forall|i: int| 0 <= i < s.len() implies '0' <= #[trigger] s[i] <= '9' by {
            if i < rest.len() {
                assert(s[i] == rest[i]);
            }
        }
        assert(s[0] == rest[0]);
    }
}

/// The text of an integer writes that integer.
pub proof fn lemma_signed_text_writes_the_number(v: int)
    ensures
        literal_laws::is_decimal(sql_parser::signed_decimal(v), v),
{
    reveal_strlit("-");
    if v < 0 {
        lemma_decimal_writes_the_number((-v) as nat);
        let s = sql_parser::signed_decimal(v);
        assert(s.skip(1) =~= text::decimal((-v) as nat));
        assert(s[0] == '-');
    } else {
        lemma_decimal_writes_the_number(v as nat);
    }
}

/// The number that a hexadecimal digit stands for.
pub open spec fn hex_value(c: char) -> int {
    if '0' <= c <= '9' {
        c as int - '0' as int
    } else if 'a' <= c <= 'f' {
        c as int - 'a' as int + 10
    } else {
        -1
    }
}

/// The number that hexadecimal digits stand for, the last one counting the units.
pub open spec fn hex_digits_value(s: Seq<char>) -> int
    decreases s.len(),
{
    if s.len() == 0 {
        0
    } else {
        16 * hex_digits_value(s.drop_last()) + hex_value(s.last())
    }
}

/// Hexadecimal digits are as many as asked for, and stand for the number where it has no more.
pub proof fn lemma_hexadecimal_writes_the_number(v: nat, digits: nat)
    ensures
        text::hexadecimal(v, digits).len() == digits,
        forall|i: int| 0 <= i < digits ==> 0 <= hex_value(#[trigger] text::hexadecimal(v, digits)[i]) < 16,
        exists|high: int| #[trigger] is_rest_of(v as int, hex_digits_value(text::hexadecimal(v, digits)), high, digits),
    decreases digits,
{
    let s = text::hexadecimal(v, digits);
    if digits == 0 {
        assert(hex_digits_value(s) == 0);
        assert(is_rest_of(v as int, 0, v as int, digits));
    } else {
        let fewer = (digits - 1) as nat;
        lemma_hexadecimal_writes_the_number(v / 16, fewer);
        let rest = text::hexadecimal(v / 16, fewer);
        assert(s.drop_last() =~= rest);
        assert(s.last() == text::hex_char(v % 16));
        assert(hex_value(text::hex_char(v % 16)) == v % 16);
        let high = choose|high: int| #[trigger]
            is_rest_of((v / 16) as int, hex_digits_value(rest), high, fewer);
        let low = hex_digits_value(rest);
        assert(v == 16 * (v / 16) + v % 16);
        assert(16 * (high * sixteen_to(fewer)) == high * (16 * sixteen_to(fewer))) by (nonlinear_arith);
        assert(hex_digits_value(s) == 16 * low + v % 16);
        assert(is_rest_of(v as int, hex_digits_value(s), high, digits));
        assert forall|i: int| 0 <= i < digits implies 0 <= hex_value(#[trigger] s[i]) < 16 by {
            if i < fewer {
                assert(s[i] == rest[i]);
            }
        }
    }
}

/// A power of sixteen.
pub open spec fn sixteen_to(n: nat) -> int
    decreases n,
{
    if n == 0 {
        1
    } else {
        16 * sixteen_to((n - 1) as nat)
    }
}

/// Whether a number is what is left of another without its digits above a position.
pub open spec fn is_rest_of(v: int, low: int, high: int, digits: nat) -> bool {
    0 <= low < sixteen_to(digits) && v == high * sixteen_to(digits) + low
}

proof fn lemma_group(v: nat, digits: nat)
    requires
        digits == 4 || digits == 8 || digits == 12,
    ensures
        digits == 4 ==> hex_digits_value(text::hexadecimal(v, digits)) == v % 0x1_0000,
        digits == 8 ==> hex_digits_value(text::hexadecimal(v, digits)) == v % 0x1_0000_0000,
        digits == 12 ==> hex_digits_value(text::hexadecimal(v, digits)) == v % 0x1_0000_0000_0000,
{
    lemma_hexadecimal_writes_the_number(v, digits);
    reveal_with_fuel(sixteen_to, 13);
    let low = hex_digits_value(text::hexadecimal(v, digits));
    let high = choose|high: int| #[trigger] is_rest_of(v as int, low, high, digits);
    assert(v == high * sixteen_to(digits) + low);
    if digits == 4 {
        assert(sixteen_to(4) == 0x1_0000);
    } else if digits == 8 {
        assert(sixteen_to(8) == 0x1_0000_0000);
    } else {
        assert(sixteen_to(12) == 0x1_0000_0000_0000);
        assert(v == high * 0x1_0000_0000_0000 + low);
        vstd::arithmetic::div_mod::lemma_fundamental_div_mod_converse(v as int, 0x1_0000_0000_0000, high, low);
    }
}

/// A UUID is written as five groups of hexadecimal digits with hyphens between them, from its highest bits to its lowest.
pub proof fn lemma_uuid_is_written_in_groups(bits: u128)
    ensures
        ({
            let s = sql_parser::uuid_text(bits);
            let v = bits as nat;
            &&& s.len() == 36
            &&& s[8] == '-' && s[13] == '-' && s[18] == '-' && s[23] == '-'
            &&& hex_digits_value(s.subrange(0, 8)) == v / 0x1_0000_0000_0000_0000_0000_0000
            &&& hex_digits_value(s.subrange(9, 13)) == v / 0x1_0000_0000_0000_0000_0000 % 0x1_0000
            &&& hex_digits_value(s.subrange(14, 18)) == v / 0x1_0000_0000_0000_0000 % 0x1_0000
            &&& hex_digits_value(s.subrange(19, 23)) == v / 0x1_0000_0000_0000 % 0x1_0000
            &&& hex_digits_value(s.subrange(24, 36)) == v % 0x1_0000_0000_0000
        }),
{
    reveal_strlit("-");
    let s = sql_parser::uuid_text(bits);
    let v = bits as nat;
    let a = v / 0x1_0000_0000_0000_0000_0000_0000;
    let b = v / 0x1_0000_0000_0000_0000_0000;
    let c = v / 0x1_0000_0000_0000_0000;
    let d = v / 0x1_0000_0000_0000;
    lemma_hexadecimal_writes_the_number(a, 8);
    lemma_hexadecimal_writes_the_number(b, 4);
    lemma_hexadecimal_writes_the_number(c, 4);
    lemma_hexadecimal_writes_the_number(d, 4);
    lemma_hexadecimal_writes_the_number(v, 12);
    lemma_group(a, 8);
    lemma_group(b, 4);
    lemma_group(c, 4);
    lemma_group(d, 4);
    lemma_group(v, 12);
    assert(a < 0x1_0000_0000);
    assert(s.subrange(0, 8) =~= text::hexadecimal(a, 8));
    assert(s.subrange(9, 13) =~= text::hexadecimal(b, 4));
    assert(s.subrange(14, 18) =~= text::hexadecimal(c, 4));
    assert(s.subrange(19, 23) =~= text::hexadecimal(d, 4));
    assert(s.subrange(24, 36) =~= text::hexadecimal(v, 12));
}

} // verus!
