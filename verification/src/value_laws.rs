//! What holds of numerals, amounts and addresses: what is written reads back.

use crate::address::{
    address_of, bytes_hex, can_shorten, data_text, hex_bytes, is_hex, short_text,
};
use crate::amount::{amount_of, hex_char, hex_text, quantity_text, u256_limit, without_underscores};
use crate::text::{
    ascii_lowered, decimal_text, digit_value, digits_value, has_hex_prefix, hex_u64, is_ascii, is_blank,
    is_printable, lowered, quoted, stripped_hex, trimmed, trimmed_end, trimmed_start, without_0x,
};
use vstd::prelude::*;
use vstd::utf8::{
    decode_utf8, decode_utf8_encode_utf8, encode_utf8, encode_utf8_decode_utf8,
    encode_utf8_valid_utf8, is_ascii_chars, is_ascii_chars_encode_utf8, is_char_boundary,
    is_char_boundary_iff_not_is_continuation_byte, valid_utf8_split,
};

verus! {

/// A digit counts from its zero: the ten figures, then the letters of either
/// case. No other character is a digit.
pub proof fn law_digits_count_up(c: char)
    ensures
        '0' <= c <= '9' ==> digit_value(c) == Some((c as u32 - '0' as u32) as nat),
        'a' <= c <= 'z' ==> digit_value(c) == Some((c as u32 - 'a' as u32 + 10) as nat),
        'A' <= c <= 'Z' ==> digit_value(c) == Some((c as u32 - 'A' as u32 + 10) as nat),
        digit_value(c) is Some <==> '0' <= c <= '9' || 'a' <= c <= 'z' || 'A' <= c <= 'Z',
{
}

/// A digit more makes a number as many times larger as the radix says, and adds
/// the digit. No digits are zero, and what is no digit of the radix spoils the
/// number.
pub proof fn law_digits_add_up(s: Seq<char>, c: char, radix: nat)
    ensures
        digits_value(Seq::empty(), radix) == Some(0nat),
        digits_value(s, radix) is Some && digit_value(c) is Some && digit_value(c)->0 < radix
            ==> digits_value(s.push(c), radix) == Some(
            digits_value(s, radix)->0 * radix + digit_value(c)->0,
        ),
        digits_value(s, radix) is None || digit_value(c) is None || digit_value(c)->0 >= radix
            ==> digits_value(s.push(c), radix) is None,
{
    assert(s.push(c).drop_last() =~= s);
    assert(s.push(c).last() == c);
}

/// A number written in decimal reads back, in figures only and without a leading
/// zero.
pub proof fn law_decimal_reads_back(n: nat)
    ensures
        digits_value(decimal_text(n), 10) == Some(n),
        decimal_text(n).len() >= 1,
        n > 0 ==> decimal_text(n)[0] != '0',
        forall|i: int| 0 <= i < decimal_text(n).len() ==> '0' <= #[trigger] decimal_text(n)[i] <= '9',
    decreases n,
{
    let s = decimal_text(n);
    if n < 10 {
        assert(s.drop_last() =~= Seq::<char>::empty());
        assert(s.last() == s[0]);
        assert(digits_value(s.drop_last(), 10) == Some(0nat));
    } else {
        let t = decimal_text(n / 10);
        law_decimal_reads_back(n / 10);
        law_digits_add_up(t, s.last(), 10);
        assert(s =~= t.push(s.last()));
        assert forall|i: int| 0 <= i < s.len() implies '0' <= #[trigger] s[i] <= '9' by {
            if i < t.len() {
                assert(s[i] == t[i]);
            }
        }
        assert(s[0] == t[0]);
    }
}

proof fn lemma_hex_char(d: nat)
    requires
        d < 16,
    ensures
        digit_value(hex_char(d)) == Some(d),
        '0' <= hex_char(d) <= '9' || 'a' <= hex_char(d) <= 'f',
        d > 0 ==> hex_char(d) != '0',
{
}

/// A number written in hexadecimal reads back, in figures and lower-case letters
/// only and without a leading zero.
pub proof fn law_hexadecimal_reads_back(n: nat)
    ensures
        digits_value(hex_text(n), 16) == Some(n),
        hex_text(n).len() >= 1,
        n > 0 ==> hex_text(n)[0] != '0',
        forall|i: int|
            0 <= i < hex_text(n).len() ==> '0' <= #[trigger] hex_text(n)[i] <= '9' || 'a' <= hex_text(
                n,
            )[i] <= 'f',
    decreases n,
{
    let s = hex_text(n);
    lemma_hex_char(n % 16);
    if n < 16 {
        assert(s.drop_last() =~= Seq::<char>::empty());
        assert(s.last() == s[0]);
        assert(digits_value(s.drop_last(), 16) == Some(0nat));
    } else {
        let t = hex_text(n / 16);
        law_hexadecimal_reads_back(n / 16);
        law_digits_add_up(t, s.last(), 16);
        assert(s =~= t.push(s.last()));
        assert forall|i: int| 0 <= i < s.len() implies '0' <= #[trigger] s[i] <= '9' || 'a' <= s[i]
            <= 'f' by {
            if i < t.len() {
                assert(s[i] == t[i]);
            }
        }
        assert(s[0] == t[0]);
    }
}

/// Blank is what Unicode counts as white space: in ASCII, the space and the
/// controls from the tab to the carriage return.
pub proof fn law_blanks(c: char)
    ensures
        c as u32 <= 0x7f ==> (is_blank(c) <==> c == ' ' || 0x09 <= c as u32 <= 0x0d),
        c as u32 > 0x7f ==> (is_blank(c) <==> c as u32 == 0x85 || c as u32 == 0xa0 || c as u32 == 0x1680
            || 0x2000 <= c as u32 <= 0x200a || 0x2028 <= c as u32 <= 0x2029 || c as u32 == 0x202f || c as u32
            == 0x205f || c as u32 == 0x3000),
{
}

proof fn lemma_trimmed_start(s: Seq<char>) -> (a: int)
    ensures
        0 <= a <= s.len(),
        trimmed_start(s) == s.skip(a),
        forall|i: int| 0 <= i < a ==> is_blank(#[trigger] s[i]),
        a < s.len() ==> !is_blank(s[a]),
    decreases s.len(),
{
    if s.len() > 0 && is_blank(s[0]) {
        let b = lemma_trimmed_start(s.skip(1));
        assert(s.skip(1).skip(b) =~= s.skip(b + 1));
        assert forall|i: int| 0 <= i < b + 1 implies is_blank(#[trigger] s[i]) by {
            if i > 0 {
                assert(s.skip(1)[i - 1] == s[i]);
            }
        }
        b + 1
    } else {
        assert(s.skip(0) =~= s);
        0
    }
}

proof fn lemma_trimmed_end(s: Seq<char>) -> (b: int)
    ensures
        0 <= b <= s.len(),
        trimmed_end(s) == s.take(b),
        forall|i: int| b <= i < s.len() ==> is_blank(#[trigger] s[i]),
        b > 0 ==> !is_blank(s[b - 1]),
    decreases s.len(),
{
    if s.len() > 0 && is_blank(s.last()) {
        let b = lemma_trimmed_end(s.drop_last());
        assert(s.drop_last().take(b) =~= s.take(b));
        assert forall|i: int| b <= i < s.len() implies is_blank(#[trigger] s[i]) by {
            if i < s.len() - 1 {
                assert(s.drop_last()[i] == s[i]);
            }
        }
        b
    } else {
        assert(s.take(s.len() as int) =~= s);
        s.len() as int
    }
}

/// Trimming drops the blanks at either end and nothing else.
pub proof fn law_trimming_drops_blanks_only(s: Seq<char>)
    ensures
        exists|a: int, b: int|
            #![trigger s.subrange(a, b)]
            0 <= a <= b <= s.len() && trimmed(s) == s.subrange(a, b) && (forall|i: int|
                0 <= i < a || b <= i < s.len() ==> is_blank(#[trigger] s[i])),
        trimmed(s).len() > 0 ==> !is_blank(trimmed(s)[0]) && !is_blank(trimmed(s).last()),
{
    let a = lemma_trimmed_start(s);
    let t = s.skip(a);
    let k = lemma_trimmed_end(t);
    let b = a + k;
    assert(t.take(k) =~= s.subrange(a, b));
    assert forall|i: int| 0 <= i < a || b <= i < s.len() implies is_blank(#[trigger] s[i]) by {
        if i >= b {
            assert(t[i - a] == s[i]);
        }
    }
    if k > 0 {
        assert(trimmed(s)[0] == s[a]);
        assert(trimmed(s).last() == t[k - 1]);
    }
}

proof fn lemma_trimmed_same(s: Seq<char>)
    requires
        s.len() > 0 ==> !is_blank(s[0]) && !is_blank(s.last()),
    ensures
        trimmed(s) == s,
{
}

/// One `0x` or `0X` before a text is dropped, and a text without one stays.
pub proof fn law_one_hex_prefix_is_dropped(s: Seq<char>)
    ensures
        stripped_hex(seq!['0', 'x'] + s) == s,
        stripped_hex(seq!['0', 'X'] + s) == s,
        !(s.len() >= 2 && s[0] == '0' && (s[1] == 'x' || s[1] == 'X')) ==> stripped_hex(s) == s,
{
    assert((seq!['0', 'x'] + s).skip(2) =~= s);
    assert((seq!['0', 'X'] + s).skip(2) =~= s);
}

/// Every `0x` before a text is dropped, and a text without one stays.
pub proof fn law_every_0x_is_dropped(s: Seq<char>)
    ensures
        without_0x(seq!['0', 'x'] + s) == without_0x(s),
        !(s.len() >= 2 && s[0] == '0' && s[1] == 'x') ==> without_0x(s) == s,
{
    assert((seq!['0', 'x'] + s).skip(2) =~= s);
}

/// A number that fits reads back from its hexadecimal, with or without `0x`; what
/// is spelled in other characters, or does not fit, reads as zero.
pub proof fn law_hex_numbers_read_back(n: nat, s: Seq<char>)
    ensures
        n <= u64::MAX ==> hex_u64(seq!['0', 'x'] + hex_text(n)) == n,
        n <= u64::MAX ==> hex_u64(hex_text(n)) == n,
        n > u64::MAX ==> hex_u64(seq!['0', 'x'] + hex_text(n)) == 0,
        (exists|i: int|
            0 < i < stripped_hex(trimmed(s)).len() && !is_hex_figure(
                #[trigger] stripped_hex(trimmed(s))[i],
            )) ==> hex_u64(s) == 0,
        stripped_hex(trimmed(s)).len() == 0 ==> hex_u64(s) == 0,
{
    let h = hex_text(n);
    let t = seq!['0', 'x'] + h;
    law_hexadecimal_reads_back(n);
    assert(t.last() == h.last() && h.last() == h[h.len() - 1]);
    lemma_trimmed_same(t);
    lemma_trimmed_same(h);
    law_one_hex_prefix_is_dropped(h);
    assert(h.len() >= 2 ==> h[1] != 'x' && h[1] != 'X');
    let u = stripped_hex(trimmed(s));
    if exists|i: int| 0 < i < u.len() && !is_hex_figure(#[trigger] u[i]) {
        let i = choose|i: int| 0 < i < u.len() && !is_hex_figure(#[trigger] u[i]);
        lemma_bad_digit(u, i, 16);
        if u[0] == '+' {
            assert(u.skip(1)[i - 1] == u[i]);
            lemma_bad_digit(u.skip(1), i - 1, 16);
        }
    }
}

/// A hexadecimal figure of either case.
pub open spec fn is_hex_figure(c: char) -> bool {
    '0' <= c <= '9' || 'a' <= c <= 'f' || 'A' <= c <= 'F'
}

proof fn lemma_bad_digit(s: Seq<char>, i: int, radix: nat)
    requires
        0 <= i < s.len(),
        digit_value(s[i]) is None || digit_value(s[i])->0 >= radix,
    ensures
        digits_value(s, radix) is None,
    decreases s.len(),
{
    if i < s.len() - 1 {
        assert(s.drop_last()[i] == s[i]);
        lemma_bad_digit(s.drop_last(), i, radix);
    }
}

proof fn lemma_no_underscores(s: Seq<char>)
    requires
        forall|i: int| 0 <= i < s.len() ==> #[trigger] s[i] != '_',
    ensures
        without_underscores(s) == s,
    decreases s.len(),
{
    reveal(Seq::filter);
    if s.len() > 0 {
        let t = s.drop_last();
        assert forall|i: int| 0 <= i < t.len() implies #[trigger] t[i] != '_' by {
            assert(t[i] == s[i]);
        }
        lemma_no_underscores(t);
        assert(s.last() == s[s.len() - 1]);
        assert(s =~= t.push(s.last()));
    }
}

/// An amount below 2^256 reads back from its decimal and from its hexadecimal
/// after `0x`; one that is not below reads as zero.
pub proof fn law_amounts_read_back(n: nat)
    ensures
        u256_limit() == 0x1_0000_0000_0000_0000nat * 0x1_0000_0000_0000_0000nat
            * 0x1_0000_0000_0000_0000nat * 0x1_0000_0000_0000_0000nat,
        n < u256_limit() ==> amount_of(decimal_text(n)) == n,
        n < u256_limit() ==> amount_of(seq!['0', 'x'] + hex_text(n)) == n,
        n < u256_limit() ==> amount_of(seq!['0', 'X'] + hex_text(n)) == n,
        n >= u256_limit() ==> amount_of(decimal_text(n)) == 0,
        n >= u256_limit() ==> amount_of(seq!['0', 'x'] + hex_text(n)) == 0,
        quantity_text(n) == seq!['0', 'x'] + hex_text(n),
{
    assert(0x1_0000_0000_0000_0000_0000_0000_0000_0000_0000_0000_0000_0000_0000_0000_0000_0000nat
        == 0x1_0000_0000_0000_0000nat * 0x1_0000_0000_0000_0000nat * 0x1_0000_0000_0000_0000nat
        * 0x1_0000_0000_0000_0000nat) by (nonlinear_arith);
    reveal_strlit("0x");
    assert("0x"@ =~= seq!['0', 'x']);
    let d = decimal_text(n);
    law_decimal_reads_back(n);
    assert(d.last() == d[d.len() - 1]);
    lemma_trimmed_same(d);
    lemma_no_underscores(d);
    assert(!has_hex_prefix(d));
    let h = hex_text(n);
    law_hexadecimal_reads_back(n);
    lemma_no_underscores(h);
    let lower = seq!['0', 'x'] + h;
    let upper = seq!['0', 'X'] + h;
    assert(lower.last() == h[h.len() - 1] && upper.last() == h[h.len() - 1]);
    lemma_trimmed_same(lower);
    lemma_trimmed_same(upper);
    assert(lower.skip(2) =~= h);
    assert(upper.skip(2) =~= h);
}

/// The figures of a radix: digits below it, and at least one.
pub open spec fn are_figures(t: Seq<char>, radix: nat) -> bool {
    t.len() > 0 && forall|i: int|
        0 <= i < t.len() ==> digit_value(#[trigger] t[i]) is Some && digit_value(t[i])->0 < radix
}

/// The number that figures spell, or zero where it reaches the limit.
pub open spec fn spelled(t: Seq<char>, radix: nat, limit: nat) -> nat {
    if digits_value(t, radix) is Some && digits_value(t, radix)->0 < limit {
        digits_value(t, radix)->0
    } else {
        0
    }
}

/// What a text says as an amount, the blanks at its ends apart: figures are decimal,
/// and hexadecimal after `0x` in either case; a number of 2^256 or more, and no text
/// at all, say zero.
pub proof fn law_amounts_are_read(s: Seq<char>, t: Seq<char>)
    ensures
        are_figures(t, 16) && trimmed(s) == seq!['0', 'x'] + t ==> amount_of(s) == spelled(
            t,
            16,
            u256_limit(),
        ),
        are_figures(t, 16) && trimmed(s) == seq!['0', 'X'] + t ==> amount_of(s) == spelled(
            t,
            16,
            u256_limit(),
        ),
        are_figures(t, 10) && trimmed(s) == t ==> amount_of(s) == spelled(t, 10, u256_limit()),
        trimmed(s).len() == 0 ==> amount_of(s) == 0,
{
    if are_figures(t, 16) && (trimmed(s) == seq!['0', 'x'] + t || trimmed(s) == seq!['0', 'X'] + t) {
        lemma_figures(t, 16);
        assert(trimmed(s).skip(2) =~= t);
    }
    if are_figures(t, 10) && trimmed(s) == t {
        lemma_figures(t, 10);
    }
    if trimmed(s).len() == 0 {
        lemma_no_underscores(trimmed(s));
    }
}

/// After `0o` figures are octal, and after `0b` binary, in either case.
pub proof fn law_octal_and_binary_amounts_are_read(s: Seq<char>, t: Seq<char>)
    ensures
        are_figures(t, 8) && (trimmed(s) == seq!['0', 'o'] + t || trimmed(s) == seq!['0', 'O'] + t)
            ==> amount_of(s) == spelled(t, 8, u256_limit()),
        are_figures(t, 2) && (trimmed(s) == seq!['0', 'b'] + t || trimmed(s) == seq!['0', 'B'] + t)
            ==> amount_of(s) == spelled(t, 2, u256_limit()),
{
    let r = trimmed(s);
    if are_figures(t, 8) && (r == seq!['0', 'o'] + t || r == seq!['0', 'O'] + t) {
        lemma_figures(t, 8);
        assert(r.skip(2) =~= t);
    }
    if are_figures(t, 2) && (r == seq!['0', 'b'] + t || r == seq!['0', 'B'] + t) {
        lemma_figures(t, 2);
        assert(r.skip(2) =~= t);
    }
}

/// An underscore among the figures of an amount counts for nothing.
pub proof fn law_underscores_count_for_nothing(s: Seq<char>, t: Seq<char>, u: Seq<char>)
    ensures
        are_figures(t, 10) && are_figures(u, 10) && trimmed(s) == t + seq!['_'] + u ==> amount_of(s)
            == spelled(t + u, 10, u256_limit()),
        are_figures(t, 16) && are_figures(u, 16) && trimmed(s) == seq!['0', 'x'] + t + seq!['_'] + u
            ==> amount_of(s) == spelled(t + u, 16, u256_limit()),
{
    let r = trimmed(s);
    if are_figures(t, 10) && are_figures(u, 10) && r == t + seq!['_'] + u {
        lemma_figures(t, 10);
        lemma_figures(u, 10);
        lemma_underscore_counts_for_nothing(t, u);
        assert(r[1] == (if t.len() >= 2 { t[1] } else { '_' }));
    }
    if are_figures(t, 16) && are_figures(u, 16) && r == seq!['0', 'x'] + t + seq!['_'] + u {
        lemma_figures(t, 16);
        lemma_figures(u, 16);
        lemma_underscore_counts_for_nothing(t, u);
        assert(r.skip(2) =~= t + seq!['_'] + u);
    }
}

/// A decimal with a letter in it says zero.
pub proof fn law_letters_are_no_decimal(s: Seq<char>, i: int)
    requires
        1 < i < trimmed(s).len(),
        digit_value(trimmed(s)[i]) is Some && digit_value(trimmed(s)[i])->0 >= 10,
        '0' <= trimmed(s)[1] <= '9',
    ensures
        amount_of(s) == 0,
{
    lemma_kept_char(trimmed(s), i, 10);
}

proof fn lemma_figures(t: Seq<char>, radix: nat)
    requires
        are_figures(t, radix),
        radix <= 16,
    ensures
        without_underscores(t) == t,
        forall|i: int| 0 <= i < t.len() ==> #[trigger] t[i] != '_',
        t.len() >= 2 ==> t[1] != 'x' && t[1] != 'X' && t[1] != 'o' && t[1] != 'O',
        t.len() >= 2 && radix <= 10 ==> t[1] != 'b' && t[1] != 'B',
{
    assert forall|k: int| 0 <= k < t.len() implies #[trigger] t[k] != '_' by {
        assert(digit_value(t[k]) is Some);
    }
    lemma_no_underscores(t);
    if t.len() >= 2 {
        assert(digit_value(t[1]) is Some && digit_value(t[1])->0 < radix);
    }
}

proof fn lemma_underscore_counts_for_nothing(t: Seq<char>, u: Seq<char>)
    requires
        without_underscores(t) == t,
        without_underscores(u) == u,
    ensures
        without_underscores(t + seq!['_'] + u) == t + u,
{
    lemma_kept_joined(t + seq!['_'], u);
    lemma_kept_joined(t, seq!['_']);
    assert(without_underscores(seq!['_']) =~= Seq::<char>::empty()) by {
        reveal_with_fuel(Seq::filter, 2);
        assert(seq!['_'].drop_last() =~= Seq::<char>::empty());
    }
    assert(t + Seq::<char>::empty() =~= t);
}

proof fn lemma_kept_joined(a: Seq<char>, b: Seq<char>)
    ensures
        without_underscores(a + b) == without_underscores(a) + without_underscores(b),
    decreases b.len(),
{
    reveal(Seq::filter);
    if b.len() > 0 {
        assert((a + b).drop_last() =~= a + b.drop_last());
        assert((a + b).last() == b.last());
        lemma_kept_joined(a, b.drop_last());
        assert(without_underscores(a + b) =~= without_underscores(a) + without_underscores(b));
    } else {
        assert(a + b =~= a);
        assert(without_underscores(a) + without_underscores(b) =~= without_underscores(a));
    }
}

/// What a text says as a number, the blanks at its ends apart: hexadecimal figures
/// of either case, with or without `0x` or `0X` and then a `+`; a number of 2^64 or
/// more says zero.
pub proof fn law_hex_numbers_are_read(s: Seq<char>, t: Seq<char>)
    requires
        are_figures(t, 16),
    ensures
        trimmed(s) == seq!['0', 'x'] + t || trimmed(s) == seq!['0', 'X'] + t || trimmed(s) == t
            || trimmed(s) == seq!['+'] + t || trimmed(s) == seq!['0', 'x', '+'] + t ==> hex_u64(s)
            == spelled(t, 16, 0x1_0000_0000_0000_0000),
{
    assert((seq!['0', 'x'] + t).skip(2) =~= t);
    assert((seq!['0', 'X'] + t).skip(2) =~= t);
    assert((seq!['0', 'x', '+'] + t).skip(2) =~= seq!['+'] + t);
    assert((seq!['+'] + t).skip(1) =~= t);
    assert(digit_value(t[0]) is Some && t[0] != '+');
    if t.len() >= 2 {
        assert(digit_value(t[1]) is Some && digit_value(t[1])->0 < 16);
        assert(t[1] != 'x' && t[1] != 'X');
    }
}

/// A text that holds a character that is none of a figure, a letter or an
/// underscore says zero as an amount.
pub proof fn law_unreadable_amounts_are_zero(s: Seq<char>, i: int)
    requires
        0 <= i < trimmed(s).len(),
        digit_value(trimmed(s)[i]) is None,
        trimmed(s)[i] != '_',
    ensures
        amount_of(s) == 0,
{
    let t = trimmed(s);
    lemma_kept_char(t, i, 10);
    if t.len() >= 2 && i >= 2 {
        assert(t.skip(2)[i - 2] == t[i]);
        lemma_kept_char(t.skip(2), i - 2, 16);
        lemma_kept_char(t.skip(2), i - 2, 8);
        lemma_kept_char(t.skip(2), i - 2, 2);
    }
}

proof fn lemma_kept_char(s: Seq<char>, i: int, radix: nat)
    requires
        0 <= i < s.len(),
        s[i] != '_',
        digit_value(s[i]) is None || digit_value(s[i])->0 >= radix,
    ensures
        digits_value(without_underscores(s), radix) is None,
    decreases s.len(),
{
    reveal(Seq::filter);
    let w = without_underscores(s);
    let t = s.drop_last();
    if i == s.len() - 1 {
        assert(w == without_underscores(t).push(s.last()));
        assert(w.last() == s[i]);
    } else {
        assert(t[i] == s[i]);
        lemma_kept_char(t, i, radix);
        if s.last() != '_' {
            assert(w == without_underscores(t).push(s.last()));
            assert(w.drop_last() =~= without_underscores(t));
        }
    }
}

/// Bytes read back from their hexadecimal, two figures for each.
pub proof fn law_bytes_read_back(b: Seq<u8>)
    ensures
        bytes_hex(b).len() == 2 * b.len(),
        is_hex(bytes_hex(b)),
        hex_bytes(bytes_hex(b)) == b,
        data_text(b) == seq!['0', 'x'] + bytes_hex(b),
        forall|i: int|
            0 <= i < 2 * b.len() ==> '0' <= #[trigger] bytes_hex(b)[i] <= '9' || 'a' <= bytes_hex(b)[i]
                <= 'f',
{
    let s = bytes_hex(b);
    reveal_strlit("0x");
    assert("0x"@ =~= seq!['0', 'x']);
    assert forall|i: int| 0 <= i < s.len() implies is_hex_figure(#[trigger] s[i]) && digit_value(s[i])
        == Some(if i % 2 == 0 { b[i / 2] as nat / 16 } else { b[i / 2] as nat % 16 }) by {
        lemma_hex_char(b[i / 2] as nat / 16);
        lemma_hex_char(b[i / 2] as nat % 16);
    }
    assert forall|i: int| 0 <= i < b.len() implies hex_bytes(s)[i] == #[trigger] b[i] by {
        assert(is_hex_figure(s[2 * i]) && is_hex_figure(s[2 * i + 1]));
        assert((2 * i) / 2 == i && (2 * i + 1) / 2 == i);
    }
    assert(hex_bytes(s) =~= b);
}

/// An address is twenty bytes in forty hexadecimal figures, and nothing else is
/// one: byte `i` is made of figures `2 i` and `2 i + 1`.
pub proof fn law_an_address_is_forty_figures(s: Seq<char>)
    ensures
        ({
            let h = stripped_hex(trimmed(s));
            &&& address_of(s) is Ok <==> h.len() == 40 && forall|i: int|
                0 <= i < 40 ==> is_hex_figure(#[trigger] h[i])
            &&& address_of(s) is Ok ==> address_of(s)->Ok_0.len() == 20 && forall|i: int|
                0 <= i < 20 ==> #[trigger] address_of(s)->Ok_0[i] == digit_value(h[2 * i])->0 * 16
                    + digit_value(h[2 * i + 1])->0
        }),
{
    let h = stripped_hex(trimmed(s));
    assert forall|i: int| 0 <= i < h.len() implies is_hex_figure(#[trigger] h[i])
        == crate::address::is_hex_digit(h[i]) by {}
    if h.len() == 40 && forall|i: int| 0 <= i < 40 ==> is_hex_figure(#[trigger] h[i]) {
        assert(is_hex(h));
        assert forall|i: int| 0 <= i < 20 implies #[trigger] address_of(s)->Ok_0[i] == digit_value(
            h[2 * i],
        )->0 * 16 + digit_value(h[2 * i + 1])->0 by {
            assert(is_hex_figure(h[2 * i]) && is_hex_figure(h[2 * i + 1]));
        }
    }
    if address_of(s) is Ok {
        assert(is_hex(h));
        assert forall|i: int| 0 <= i < 40 implies is_hex_figure(#[trigger] h[i]) by {
            assert(crate::address::is_hex_digit(h[i]));
        }
    }
}

/// An address reads back from its bytes in hexadecimal, with or without `0x`.
pub proof fn law_addresses_read_back(b: Seq<u8>)
    requires
        b.len() == 20,
    ensures
        address_of(data_text(b)) == Ok::<Seq<u8>, Seq<char>>(b),
        address_of(bytes_hex(b)) == Ok::<Seq<u8>, Seq<char>>(b),
{
    let h = bytes_hex(b);
    law_bytes_read_back(b);
    assert(crate::address::is_hex_digit(h[0]) && crate::address::is_hex_digit(h[39]));
    assert(crate::address::is_hex_digit(h[1]));
    assert(h.last() == h[39] && data_text(b).last() == h[39]);
    lemma_trimmed_same(h);
    lemma_trimmed_same(data_text(b));
    law_one_hex_prefix_is_dropped(h);
}

/// Why a text is no address: it is hexadecimal of another length, and then the
/// message quotes it as it was written; or its figures are odd in number; or one
/// character, named with its place, is no figure.
pub proof fn law_why_a_text_is_no_address(s: Seq<char>, i: int)
    ensures
        ({
            let h = stripped_hex(trimmed(s));
            &&& is_hex(h) && h.len() != 40 ==> address_of(s) == Err::<Seq<u8>, Seq<char>>(
                "address must be 20 bytes: "@ + s,
            )
            &&& is_printable(h) && h.len() % 2 == 1 ==> address_of(s) == Err::<Seq<u8>, Seq<char>>(
                "Odd number of digits"@,
            )
            &&& is_printable(h) && h.len() % 2 == 0 && 0 <= i < h.len() && !is_hex_figure(h[i]) && (
            forall|k: int| 0 <= k < i ==> is_hex_figure(#[trigger] h[k])) ==> address_of(s) == Err::<
                Seq<u8>,
                Seq<char>,
            >(
                "Invalid character '"@ + seq![h[i]] + "' at position "@ + decimal_text(i as nat),
            )
        }),
{
    let h = stripped_hex(trimmed(s));
    if 0 <= i < h.len() && !is_hex_figure(h[i]) && (forall|k: int|
        0 <= k < i ==> is_hex_figure(#[trigger] h[k])) {
        lemma_first_non_digit(h, i);
        assert(!crate::address::is_hex_digit(h[i]));
    }
}

proof fn lemma_first_non_digit(s: Seq<char>, i: int)
    requires
        0 <= i < s.len(),
        !is_hex_figure(s[i]),
        forall|k: int| 0 <= k < i ==> is_hex_figure(#[trigger] s[k]),
    ensures
        crate::address::first_non_digit(s) == i,
    decreases s.len(),
{
    if i > 0 {
        assert(is_hex_figure(s[0]));
        let t = s.skip(1);
        assert forall|k: int| 0 <= k < i - 1 implies is_hex_figure(#[trigger] t[k]) by {
            assert(t[k] == s[k + 1]);
        }
        lemma_first_non_digit(t, i - 1);
    }
}

/// Lower case changes the capitals of ASCII into their small letters and leaves
/// the rest of an ASCII text alone.
pub proof fn law_lower_case(s: Seq<char>, i: int)
    requires
        is_ascii(s),
        0 <= i < s.len(),
    ensures
        lowered(s).len() == s.len(),
        'A' <= s[i] <= 'Z' ==> lowered(s)[i] as u32 == s[i] as u32 + 32,
        !('A' <= s[i] <= 'Z') ==> lowered(s)[i] == s[i],
        lowered(s) == ascii_lowered(s),
{
}

/// A printable text is quoted by a quotation mark at either end.
pub proof fn law_quoting(s: Seq<char>)
    requires
        is_printable(s),
    ensures
        quoted(s).len() == s.len() + 2,
        quoted(s)[0] == '"',
        quoted(s).last() == '"',
        quoted(s).skip(1).drop_last() == s,
{
    assert(quoted(s).skip(1).drop_last() =~= s);
}

proof fn lemma_ascii_char(c: char)
    requires
        c as u32 <= 0x7f,
    ensures
        '\0' <= c <= '\u{7f}',
{
}

/// The short form of an ASCII address of eight characters or more is its first
/// and last four between `0x` and an ellipsis, the `0x` it begins with apart; an
/// address of fewer than eight bytes stays as it is. Both can be made.
pub proof fn law_short_addresses(a: Seq<char>)
    ensures
        ({
            let t = without_0x(a);
            &&& is_ascii(t) && t.len() >= 8 ==> can_shorten(a) && short_text(a) == seq!['0', 'x']
                + t.take(4) + seq!['…'] + t.skip(t.len() - 4)
            &&& encode_utf8(t).len() < 8 ==> can_shorten(a) && short_text(a) == a
        }),
{
    reveal_strlit("0x");
    reveal_strlit("…");
    assert("0x"@ =~= seq!['0', 'x']);
    assert("…"@ =~= seq!['…']);
    let t = without_0x(a);
    let b = encode_utf8(t);
    if is_ascii(t) && t.len() >= 8 {
        let head = t.take(4);
        let tail = t.skip(t.len() - 4);
        assert(is_ascii_chars(t)) by {
            assert forall|i: int| 0 <= i < t.len() implies '\0' <= #[trigger] t[i] <= '\u{7f}' by {
                lemma_ascii_char(t[i]);
            }
        }
        assert(is_ascii_chars(head)) by {
            assert forall|i: int| 0 <= i < head.len() implies '\0' <= #[trigger] head[i] <= '\u{7f}' by {
                assert(head[i] == t[i]);
            }
        }
        assert(is_ascii_chars(tail)) by {
            assert forall|i: int| 0 <= i < tail.len() implies '\0' <= #[trigger] tail[i] <= '\u{7f}' by {
                assert(tail[i] == t[i + t.len() - 4]);
            }
        }
        is_ascii_chars_encode_utf8(t);
        is_ascii_chars_encode_utf8(head);
        is_ascii_chars_encode_utf8(tail);
        assert forall|i: int| 0 <= i < 4 implies b.take(4)[i] == encode_utf8(head)[i] by {
            assert(head[i] == t[i]);
        }
        assert(b.take(4) =~= encode_utf8(head));
        assert forall|i: int| 0 <= i < 4 implies b.skip(b.len() - 4)[i] == encode_utf8(tail)[i] by {
            assert(tail[i] == t[i + t.len() - 4]);
            assert(b[i + t.len() - 4] == t[i + t.len() - 4] as u8);
        }
        assert(b.skip(b.len() - 4) =~= encode_utf8(tail));
        encode_utf8_decode_utf8(head);
        encode_utf8_decode_utf8(tail);
        encode_utf8_valid_utf8(t);
        assert(b[4] == t[4] as u8 && b[b.len() - 4] == t[t.len() - 4] as u8);
        assert(t[4] as u32 <= 0x7f && t[t.len() - 4] as u32 <= 0x7f);
        is_char_boundary_iff_not_is_continuation_byte(b, 4);
        is_char_boundary_iff_not_is_continuation_byte(b, b.len() - 4);
    }
}

/// The short form of any address of eight bytes or more, the `0x` it begins with
/// apart, is its first and its last four bytes between `0x` and an ellipsis; one
/// that such a cut would split inside a character has none.
pub proof fn law_short_forms_keep_four_bytes(a: Seq<char>)
    ensures
        ({
            let b = encode_utf8(without_0x(a));
            let n = b.len() as int;
            &&& n >= 8 ==> (can_shorten(a) <==> is_char_boundary(b, 4) && is_char_boundary(b, n - 4))
            &&& n >= 8 && can_shorten(a) ==> exists|head: Seq<char>, tail: Seq<char>|
                #![trigger encode_utf8(head), encode_utf8(tail)]
                short_text(a) == seq!['0', 'x'] + head + seq!['…'] + tail && encode_utf8(head)
                    == b.subrange(0, 4) && encode_utf8(tail) == b.subrange(n - 4, n)
        }),
{
    reveal_strlit("0x");
    reveal_strlit("…");
    assert("0x"@ =~= seq!['0', 'x']);
    assert("…"@ =~= seq!['…']);
    let b = encode_utf8(without_0x(a));
    let n = b.len() as int;
    if n >= 8 && can_shorten(a) {
        encode_utf8_valid_utf8(without_0x(a));
        valid_utf8_split(b, 4);
        valid_utf8_split(b, n - 4);
        assert(b.take(4) =~= b.subrange(0, 4));
        assert(b.skip(n - 4) =~= b.subrange(n - 4, n));
        let head = decode_utf8(b.take(4));
        let tail = decode_utf8(b.skip(n - 4));
        decode_utf8_encode_utf8(b.take(4));
        decode_utf8_encode_utf8(b.skip(n - 4));
        assert(encode_utf8(head) == b.subrange(0, 4) && encode_utf8(tail) == b.subrange(n - 4, n));
    }
}

} // verus!
