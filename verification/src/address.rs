//! Account and token addresses.

use crate::text::{
    decimal_text, digit_value, is_printable, strip_hex, stripped_hex, trim, trim_0x, trimmed, without_0x,
};
use vstd::prelude::*;
use vstd::utf8::{decode_utf8, encode_utf8, encode_utf8_decode_utf8, is_char_boundary};

verus! {

/// An address: twenty bytes.
#[derive(Debug, Clone, Copy, PartialEq, Eq)]
pub struct Address {
    pub bytes: [u8; 20],
}

impl View for Address {
    type V = Seq<u8>;

    open spec fn view(&self) -> Seq<u8> {
        self.bytes@
    }
}

/// A hexadecimal digit.
pub open spec fn is_hex_digit(c: char) -> bool {
    digit_value(c) is Some && digit_value(c)->0 < 16
}

/// Hexadecimal digits, two for each byte.
pub open spec fn is_hex(s: Seq<char>) -> bool {
    s.len() % 2 == 0 && forall|i: int| 0 <= i < s.len() ==> is_hex_digit(#[trigger] s[i])
}

/// The bytes that hexadecimal digits stand for.
pub open spec fn hex_bytes(s: Seq<char>) -> Seq<u8> {
    Seq::new(
        s.len() / 2,
        |i: int| (digit_value(s[2 * i])->0 * 16 + digit_value(s[2 * i + 1])->0) as u8,
    )
}

/// The lower-case hexadecimal digits of bytes.
pub open spec fn bytes_hex(b: Seq<u8>) -> Seq<char> {
    Seq::new(
        2 * b.len(),
        |i: int|
            crate::amount::hex_char(
                if i % 2 == 0 {
                    b[i / 2] as nat / 16
                } else {
                    b[i / 2] as nat % 16
                },
            ),
    )
}

/// The place of the first character that is no hexadecimal digit.
pub open spec fn first_non_digit(s: Seq<char>) -> nat
    decreases s.len(),
{
    if s.len() == 0 || !is_hex_digit(s[0]) {
        0
    } else {
        1 + first_non_digit(s.skip(1))
    }
}

/// The message of the `hex` crate for a text that is not all printable.
pub uninterp spec fn hex_escaped_error(s: Seq<char>) -> Seq<char>;

/// Why a text cannot be decoded: it has an odd number of characters, or one of
/// them, the first of which is named with its place, is no hexadecimal digit.
pub open spec fn hex_error(s: Seq<char>) -> Seq<char> {
    if !is_printable(s) {
        hex_escaped_error(s)
    } else if s.len() % 2 != 0 {
        "Odd number of digits"@
    } else {
        "Invalid character '"@ + seq![s[first_non_digit(s) as int]] + "' at position "@
            + decimal_text(first_non_digit(s))
    }
}

/// Calls `hex::decode`: the bytes of an even number of hexadecimal digits of
/// either case. For any other text it gives the message of the error: of an odd
/// number of digits, or of the first character that is none. Where the text
/// holds characters that are escaped in the message, or that take more than one
/// byte, the message is named by [`hex_escaped_error`].
#[verifier::external_body]
pub(crate) fn hex_decode(s: &str) -> (r: Result<Vec<u8>, String>)
    ensures
        match r {
            Ok(b) => is_hex(s@) && b@ == hex_bytes(s@),
            Err(e) => !is_hex(s@) && e@ == hex_error(s@) && (!is_printable(s@) ==> e@
                == hex_escaped_error(s@)),
        },
{
    hex::decode(s).map_err(|e| e.to_string())
}

/// Calls `hex::encode`: two lower-case hexadecimal digits for each byte.
#[verifier::external_body]
pub(crate) fn hex_encode(b: &[u8]) -> (r: String)
    ensures
        r@ == bytes_hex(b@),
{
    hex::encode(b)
}

/// Bytes in hexadecimal, after `0x`.
pub open spec fn data_text(b: Seq<u8>) -> Seq<char> {
    "0x"@ + bytes_hex(b)
}

/// Bytes in hexadecimal, after `0x`.
pub fn data_hex(b: &[u8]) -> (r: String)
    ensures
        r@ == data_text(b@),
{
    crate::text::joined("0x", hex_encode(b).as_str())
}

/// Calls `alloy::primitives::Address::from_slice`: the address of these bytes.
#[verifier::external_body]
fn address_from_slice(b: &[u8]) -> (r: Address)
    requires
        b@.len() == 20,
    ensures
        r@ == b@,
{
    Address { bytes: alloy::primitives::Address::from_slice(b).into_array() }
}

/// The digits of an address with the letter case that carries its checksum.
pub uninterp spec fn checksum_text(b: Seq<u8>) -> Seq<char>;

/// Formats `alloy::primitives::Address` with `{}`: `0x` and forty hexadecimal
/// digits of these bytes. Which letters are in upper case is named by
/// [`checksum_text`].
#[verifier::external_body]
fn checksum(a: &Address) -> (r: String)
    ensures
        r@ == checksum_text(a@),
        r@.len() == 42,
        r@[0] == '0' && r@[1] == 'x',
        is_hex(r@.skip(2)),
        hex_bytes(r@.skip(2)) == a@,
{
    format!("{}", alloy::primitives::Address::from(a.bytes))
}

/// What reading an address gives: its bytes, or a message.
pub open spec fn address_of(s: Seq<char>) -> Result<Seq<u8>, Seq<char>> {
    let h = stripped_hex(trimmed(s));
    if !is_hex(h) {
        Err(hex_error(h))
    } else if h.len() != 40 {
        Err("address must be 20 bytes: "@ + s)
    } else {
        Ok(hex_bytes(h))
    }
}

/// The bytes of an address, or a message.
pub open spec fn res_address(r: Result<Address, String>) -> Result<Seq<u8>, Seq<char>> {
    match r {
        Ok(a) => Ok(a@),
        Err(e) => Err(e@),
    }
}

/// Read an address: twenty bytes in hexadecimal, with or without `0x`, blanks
/// around it apart.
pub fn parse_addr(s: &str) -> (r: Result<Address, String>)
    ensures
        res_address(r) == address_of(s@),
{
    let h: &str = strip_hex(trim(s));
    match hex_decode(h) {
        Err(e) => Err(e),
        Ok(b) => {
            if b.len() != 20 {
                Err(crate::text::joined("address must be 20 bytes: ", s))
            } else {
                Ok(address_from_slice(b.as_slice()))
            }
        },
    }
}

/// Where an address without its `0x` can be cut after four bytes and before the
/// last four, as far as it is that long.
pub open spec fn can_shorten(a: Seq<char>) -> bool {
    let b = encode_utf8(without_0x(a));
    b.len() >= 8 ==> is_char_boundary(b, 4) && is_char_boundary(b, b.len() - 4)
}

/// The short form of an address: four bytes of it from either end.
pub open spec fn short_text(a: Seq<char>) -> Seq<char> {
    let b = encode_utf8(without_0x(a));
    if b.len() >= 8 {
        "0x"@ + decode_utf8(b.take(4)) + "…"@ + decode_utf8(b.skip(b.len() - 4))
    } else {
        a
    }
}

/// Whether an address can be shortened.
pub fn short_addr_fits(a: &str) -> (r: bool)
    ensures
        r == can_shorten(a@),
{
    let t: &str = trim_0x(a);
    let n: usize = t.as_bytes().len();
    n < 8 || (t.is_char_boundary(4) && t.is_char_boundary(n - 4))
}

/// Shorten an address for display. An address that a cut would split inside a
/// character cannot be shortened.
pub fn short_addr(a: &str) -> (r: String)
    requires
        can_shorten(a@),
    ensures
        r@ == short_text(a@),
{
    let t: &str = trim_0x(a);
    let n: usize = t.as_bytes().len();
    let ghost b = encode_utf8(t@);
    if n >= 8 {
        let (head, _) = t.split_at(4);
        let (_, tail) = t.split_at(n - 4);
        proof {
            encode_utf8_decode_utf8(head@);
            encode_utf8_decode_utf8(tail@);
            assert(b.take(4) =~= b.subrange(0, 4));
            assert(b.skip(b.len() - 4) =~= b.subrange(b.len() - 4, b.len() as int));
        }
        let mut r: String = crate::text::joined("0x", head);
        r.append("…");
        r.append(tail);
        r
    } else {
        a.to_owned()
    }
}

proof fn lemma_reads_back(a: Seq<u8>, text: Seq<char>)
    requires
        text.len() == 42,
        text[0] == '0' && text[1] == 'x',
        is_hex(text.skip(2)),
        hex_bytes(text.skip(2)) == a,
    ensures
        address_of(text) == Ok::<Seq<u8>, Seq<char>>(a),
{
    assert(!crate::text::is_blank(text[0]));
    assert(text.skip(2)[39] == text[41]);
    assert(is_hex_digit(text.skip(2)[39]));
    assert(!crate::text::is_blank(text.last()));
}

impl Address {
    /// The address as text, with its checksum. Read again, it is this address.
    pub fn to_text(&self) -> (r: String)
        ensures
            r@ == checksum_text(self@),
            address_of(r@) == Ok::<Seq<u8>, Seq<char>>(self@),
    {
        let r: String = checksum(self);
        proof {
            lemma_reads_back(self@, r@);
        }
        r
    }
}

} // verus!
