//! Amounts: whole numbers below 2^256.

use crate::text::{digits_value, has_hex_prefix, strip_hex_prefix, trim, trimmed};
use vstd::prelude::*;

verus! {

/// A whole number below 2^256, as four limbs, the lowest first.
#[derive(Debug, Clone, Copy, PartialEq, Eq)]
pub struct U256 {
    pub limbs: [u64; 4],
}

/// 2^256.
pub open spec fn u256_limit() -> nat {
    0x1_0000_0000_0000_0000_0000_0000_0000_0000_0000_0000_0000_0000_0000_0000_0000_0000nat
}

impl View for U256 {
    type V = nat;

    open spec fn view(&self) -> nat {
        self.limbs@[0] as nat + self.limbs@[1] as nat * 0x1_0000_0000_0000_0000nat
            + self.limbs@[2] as nat * 0x1_0000_0000_0000_0000_0000_0000_0000_0000nat
            + self.limbs@[3] as nat * 0x1_0000_0000_0000_0000_0000_0000_0000_0000_0000_0000_0000_0000nat
    }
}

impl U256 {
    /// Zero.
    pub fn zero() -> (r: U256)
        ensures
            r@ == 0,
    {
        U256 { limbs: [0, 0, 0, 0] }
    }

    /// Whether this is zero.
    pub fn is_zero(&self) -> (r: bool)
        ensures
            r == (self@ == 0),
    {
        self.limbs[0] == 0 && self.limbs[1] == 0 && self.limbs[2] == 0 && self.limbs[3] == 0
    }
}

/// Every amount is below 2^256.
pub proof fn law_amount_is_bounded(u: U256)
    ensures
        u@ < u256_limit(),
{
}

/// A text without its underscores.
pub open spec fn without_underscores(s: Seq<char>) -> Seq<char> {
    s.filter(|c: char| c != '_')
}

/// The amount that digits stand for, underscores among them apart; nothing
/// where a character is no digit of that radix or the number reaches 2^256.
pub open spec fn u256_digits(s: Seq<char>, radix: nat) -> Option<nat> {
    match digits_value(without_underscores(s), radix) {
        Some(n) => if n < u256_limit() {
            Some(n)
        } else {
            None
        },
        None => None,
    }
}

/// The amount that a text stands for, a leading `0x`, `0o` or `0b` setting the
/// radix, which is ten without one.
pub open spec fn u256_text(s: Seq<char>) -> Option<nat> {
    if s.len() >= 2 && s[0] == '0' && (s[1] == 'x' || s[1] == 'X') {
        u256_digits(s.skip(2), 16)
    } else if s.len() >= 2 && s[0] == '0' && (s[1] == 'o' || s[1] == 'O') {
        u256_digits(s.skip(2), 8)
    } else if s.len() >= 2 && s[0] == '0' && (s[1] == 'b' || s[1] == 'B') {
        u256_digits(s.skip(2), 2)
    } else {
        u256_digits(s, 10)
    }
}

/// Calls `alloy::primitives::U256::from_str_radix`: digits of either case,
/// underscores skipped, an error where a character is no digit of the radix or
/// the number does not fit.
#[verifier::external_body]
fn u256_from_str_radix(s: &str, radix: u64) -> (r: Option<U256>)
    requires
        2 <= radix <= 36,
    ensures
        match r {
            Some(u) => u256_digits(s@, radix as nat) == Some(u@),
            None => u256_digits(s@, radix as nat) is None,
        },
{
    alloy::primitives::U256::from_str_radix(s, radix).ok().map(|u| U256 { limbs: u.into_limbs() })
}

/// Calls `parse` of `str` for `alloy::primitives::U256`: a prefix sets the
/// radix, the rest is read as `from_str_radix` reads it.
#[verifier::external_body]
fn u256_from_str(s: &str) -> (r: Option<U256>)
    ensures
        match r {
            Some(u) => u256_text(s@) == Some(u@),
            None => u256_text(s@) is None,
        },
{
    s.parse::<alloy::primitives::U256>().ok().map(|u| U256 { limbs: u.into_limbs() })
}

/// The character of a hexadecimal digit, in lower case.
pub open spec fn hex_char(d: nat) -> char {
    if d < 10 {
        crate::text::digit_char(d)
    } else if d == 10 {
        'a'
    } else if d == 11 {
        'b'
    } else if d == 12 {
        'c'
    } else if d == 13 {
        'd'
    } else if d == 14 {
        'e'
    } else {
        'f'
    }
}

/// A number in hexadecimal, lower case, without leading zeros.
pub open spec fn hex_text(n: nat) -> Seq<char>
    decreases n,
{
    if n < 16 {
        seq![hex_char(n)]
    } else {
        hex_text(n / 16).push(hex_char(n % 16))
    }
}

impl U256 {
    /// Calls `to_string` of `alloy::primitives::U256`: the number in decimal,
    /// without leading zeros.
    #[verifier::external_body]
    pub(crate) fn to_decimal(&self) -> (r: String)
        ensures
            r@ == crate::text::decimal_text(self@),
    {
        alloy::primitives::U256::from_limbs(self.limbs).to_string()
    }

    /// Formats `alloy::primitives::U256` with `{:x}`: the number in hexadecimal,
    /// lower case, without leading zeros.
    #[verifier::external_body]
    fn to_hex(&self) -> (r: String)
        ensures
            r@ == hex_text(self@),
    {
        format!("{:x}", alloy::primitives::U256::from_limbs(self.limbs))
    }

    /// The number in hexadecimal, after `0x`.
    pub fn to_quantity(&self) -> (r: String)
        ensures
            r@ == quantity_text(self@),
    {
        crate::text::joined("0x", self.to_hex().as_str())
    }
}

/// A number in hexadecimal, after `0x`.
pub open spec fn quantity_text(n: nat) -> Seq<char> {
    "0x"@ + hex_text(n)
}

/// The amount that a text stands for, blanks around it apart; zero where it
/// stands for none.
pub open spec fn amount_of(s: Seq<char>) -> nat {
    let t = trimmed(s);
    let read = if has_hex_prefix(t) {
        u256_digits(t.skip(2), 16)
    } else {
        u256_text(t)
    };
    match read {
        Some(n) => n,
        None => 0,
    }
}

/// Read an amount; zero where there is none.
pub fn parse_u256_str(s: &str) -> (r: U256)
    ensures
        r@ == amount_of(s@),
{
    let t: &str = trim(s);
    let read: Option<U256> = match strip_hex_prefix(t) {
        Some(h) => u256_from_str_radix(h, 16),
        None => u256_from_str(t),
    };
    match read {
        Some(u) => u,
        None => U256::zero(),
    }
}

} // verus!
