//! Text: numerals, prefixes and blanks.

use vstd::prelude::*;

verus! {

/// The character of a digit.
pub open spec fn digit_char(d: nat) -> char {
    if d == 0 { '0' } else if d == 1 { '1' } else if d == 2 { '2' } else if d == 3 { '3' }
    else if d == 4 { '4' } else if d == 5 { '5' } else if d == 6 { '6' } else if d == 7 { '7' }
    else if d == 8 { '8' } else { '9' }
}

/// A number in decimal, without leading zeros.
pub open spec fn decimal_text(n: nat) -> Seq<char>
    decreases n,
{
    if n < 10 {
        seq![digit_char(n)]
    } else {
        decimal_text(n / 10).push(digit_char(n % 10))
    }
}

fn digit_str(d: u64) -> (r: &'static str)
    requires
        d < 10,
    ensures
        r@ == seq![digit_char(d as nat)],
{
    proof {
        reveal_strlit("0");
        reveal_strlit("1");
        reveal_strlit("2");
        reveal_strlit("3");
        reveal_strlit("4");
        reveal_strlit("5");
        reveal_strlit("6");
        reveal_strlit("7");
        reveal_strlit("8");
        reveal_strlit("9");
    }
    if d == 0 { "0" } else if d == 1 { "1" } else if d == 2 { "2" } else if d == 3 { "3" }
    else if d == 4 { "4" } else if d == 5 { "5" } else if d == 6 { "6" } else if d == 7 { "7" }
    else if d == 8 { "8" } else { "9" }
}

/// Write a number in decimal.
pub fn decimal(n: u64) -> (r: String)
    ensures
        r@ == decimal_text(n as nat),
    decreases n,
{
    if n < 10 {
        digit_str(n).to_owned()
    } else {
        let mut s: String = decimal(n / 10);
        s.append(digit_str(n % 10));
        assert(s@ =~= decimal_text(n as nat));
        s
    }
}

/// Two numbers that are written alike are one number.
pub proof fn lemma_decimal_injective(a: nat, b: nat)
    requires
        decimal_text(a) == decimal_text(b),
    ensures
        a == b,
    decreases a,
{
    lemma_decimal_len(a);
    lemma_decimal_len(b);
    if a >= 10 && b >= 10 {
        let x = decimal_text(a);
        assert(x.last() == digit_char(a % 10));
        assert(x.last() == digit_char(b % 10));
        assert(x.drop_last() =~= decimal_text(a / 10));
        assert(decimal_text(b).drop_last() =~= decimal_text(b / 10));
        lemma_decimal_injective(a / 10, b / 10);
    } else if a < 10 && b < 10 {
        assert(decimal_text(a)[0] == digit_char(a));
        assert(decimal_text(b)[0] == digit_char(b));
    }
}

proof fn lemma_decimal_len(n: nat)
    ensures
        decimal_text(n).len() >= 1,
        n >= 10 ==> decimal_text(n).len() >= 2,
    decreases n,
{
    if n >= 10 {
        lemma_decimal_len(n / 10);
    }
}

/// White space, as Unicode has it.
pub open spec fn is_blank(c: char) -> bool {
    let n = c as u32;
    ||| 0x09 <= n <= 0x0d
    ||| n == 0x20
    ||| n == 0x85
    ||| n == 0xa0
    ||| n == 0x1680
    ||| 0x2000 <= n <= 0x200a
    ||| n == 0x2028
    ||| n == 0x2029
    ||| n == 0x202f
    ||| n == 0x205f
    ||| n == 0x3000
}

fn blank(c: char) -> (r: bool)
    ensures
        r == is_blank(c),
{
    let n: u32 = c as u32;
    (0x09 <= n && n <= 0x0d) || n == 0x20 || n == 0x85 || n == 0xa0 || n == 0x1680 || (0x2000 <= n && n
        <= 0x200a) || n == 0x2028 || n == 0x2029 || n == 0x202f || n == 0x205f || n == 0x3000
}

/// A text without the blanks it begins with.
pub open spec fn trimmed_start(s: Seq<char>) -> Seq<char>
    decreases s.len(),
{
    if s.len() > 0 && is_blank(s[0]) {
        trimmed_start(s.skip(1))
    } else {
        s
    }
}

/// A text without the blanks it ends with.
pub open spec fn trimmed_end(s: Seq<char>) -> Seq<char>
    decreases s.len(),
{
    if s.len() > 0 && is_blank(s.last()) {
        trimmed_end(s.drop_last())
    } else {
        s
    }
}

/// A text without the blanks at either end.
pub open spec fn trimmed(s: Seq<char>) -> Seq<char> {
    trimmed_end(trimmed_start(s))
}

/// Drop the blanks at either end.
pub fn trim(s: &str) -> (r: &str)
    ensures
        r@ == trimmed(s@),
{
    let n: usize = s.unicode_len();
    let mut from: usize = 0;
    assert(s@.skip(0) =~= s@);
    while from < n && blank(s.get_char(from))
        invariant
            from <= n,
            n == s@.len(),
            trimmed_start(s@) == trimmed_start(s@.skip(from as int)),
        decreases n - from,
    {
        assert(s@.skip(from as int).skip(1) =~= s@.skip(from + 1));
        from += 1;
    }
    assert(trimmed_start(s@) == s@.skip(from as int));
    let mut to: usize = n;
    assert(s@.subrange(from as int, n as int) =~= s@.skip(from as int));
    while to > from && blank(s.get_char(to - 1))
        invariant
            from <= to <= n,
            n == s@.len(),
            trimmed(s@) == trimmed_end(s@.subrange(from as int, to as int)),
        decreases to,
    {
        assert(s@.subrange(from as int, to as int).drop_last() =~= s@.subrange(from as int, to - 1));
        to -= 1;
    }
    s.substring_char(from, to)
}

/// A text that begins with `0x` or `0X`.
pub open spec fn has_hex_prefix(s: Seq<char>) -> bool {
    s.len() >= 2 && s[0] == '0' && (s[1] == 'x' || s[1] == 'X')
}

/// A text without the `0x` or `0X` it begins with.
pub open spec fn stripped_hex(s: Seq<char>) -> Seq<char> {
    if has_hex_prefix(s) {
        s.skip(2)
    } else {
        s
    }
}

/// What follows a leading `0x` or `0X`, where there is one.
pub fn strip_hex_prefix(s: &str) -> (r: Option<&str>)
    ensures
        match r {
            Some(t) => has_hex_prefix(s@) && t@ == s@.skip(2),
            None => !has_hex_prefix(s@),
        },
{
    let n: usize = s.unicode_len();
    if n >= 2 && s.get_char(0) == '0' && (s.get_char(1) == 'x' || s.get_char(1) == 'X') {
        Some(s.substring_char(2, n))
    } else {
        None
    }
}

/// Drop a leading `0x` or `0X`.
pub fn strip_hex(s: &str) -> (r: &str)
    ensures
        r@ == stripped_hex(s@),
{
    match strip_hex_prefix(s) {
        Some(t) => t,
        None => s,
    }
}

/// A text without the `0x` it begins with, however often.
pub open spec fn without_0x(s: Seq<char>) -> Seq<char>
    decreases s.len(),
{
    if s.len() >= 2 && s[0] == '0' && s[1] == 'x' {
        without_0x(s.skip(2))
    } else {
        s
    }
}

/// Drop every leading `0x`.
pub fn trim_0x(s: &str) -> (r: &str)
    ensures
        r@ == without_0x(s@),
{
    let n: usize = s.unicode_len();
    let mut from: usize = 0;
    assert(s@.skip(0) =~= s@);
    while n - from >= 2 && s.get_char(from) == '0' && s.get_char(from + 1) == 'x'
        invariant
            from <= n,
            n == s@.len(),
            without_0x(s@) == without_0x(s@.skip(from as int)),
        decreases n - from,
    {
        assert(s@.skip(from as int)[0] == s@[from as int]);
        assert(s@.skip(from as int)[1] == s@[from + 1]);
        assert(s@.skip(from as int).skip(2) =~= s@.skip(from + 2));
        from += 2;
    }
    proof {
        let t = s@.skip(from as int);
        if t.len() >= 2 {
            assert(t[0] == s@[from as int]);
            assert(t[1] == s@[from + 1]);
        }
        assert(t =~= s@.subrange(from as int, n as int));
    }
    s.substring_char(from, n)
}

/// The value of a digit, letters of either case counting on from ten.
pub open spec fn digit_value(c: char) -> Option<nat> {
    if '0' <= c <= '9' {
        Some((c as u32 - '0' as u32) as nat)
    } else if 'a' <= c <= 'z' {
        Some((c as u32 - 'a' as u32 + 10) as nat)
    } else if 'A' <= c <= 'Z' {
        Some((c as u32 - 'A' as u32 + 10) as nat)
    } else {
        None
    }
}

/// The number that a text of digits stands for; nothing where a character is no
/// digit of that radix.
pub open spec fn digits_value(s: Seq<char>, radix: nat) -> Option<nat>
    decreases s.len(),
{
    if s.len() == 0 {
        Some(0)
    } else {
        match (digits_value(s.drop_last(), radix), digit_value(s.last())) {
            (Some(n), Some(d)) => if d < radix {
                Some(n * radix + d)
            } else {
                None
            },
            _ => None,
        }
    }
}

/// The number that a hexadecimal text stands for, an optional `+` and a `0x`
/// before that apart; zero where it stands for none below 2^64.
pub open spec fn hex_u64(s: Seq<char>) -> u64 {
    let t = stripped_hex(trimmed(s));
    let d = if t.len() > 0 && t[0] == '+' {
        t.skip(1)
    } else {
        t
    };
    match digits_value(d, 16) {
        Some(n) => if d.len() > 0 && n <= u64::MAX {
            n as u64
        } else {
            0
        },
        None => 0,
    }
}

fn hex_digit(c: char) -> (r: Option<u64>)
    ensures
        match r {
            Some(d) => digit_value(c) == Some(d as nat) && d < 16,
            None => digit_value(c) is None || digit_value(c)->0 >= 16,
        },
{
    let n: u32 = c as u32;
    if 48 <= n && n <= 57 {
        Some((n - 48) as u64)
    } else if 97 <= n && n <= 102 {
        Some((n - 87) as u64)
    } else if 65 <= n && n <= 70 {
        Some((n - 55) as u64)
    } else {
        None
    }
}

/// Read a hexadecimal number; zero where there is none.
pub fn parse_hex_u64(s: &str) -> (r: u64)
    ensures
        r == hex_u64(s@),
{
    let t: &str = strip_hex(trim(s));
    let len: usize = t.unicode_len();
    let from: usize = if len > 0 && t.get_char(0) == '+' { 1 } else { 0 };
    let ghost d = t@.skip(from as int);
    assert(t@.skip(0) =~= t@);
    let mut i: usize = from;
    let mut bad: bool = false;
    let mut over: bool = false;
    let mut n: u64 = 0;
    assert(d.take(0) =~= Seq::<char>::empty());
    while i < len
        invariant
            from <= i <= len,
            len == t@.len(),
            d == t@.skip(from as int),
            bad == (digits_value(d.take(i - from), 16) is None),
            !bad ==> over == (digits_value(d.take(i - from), 16)->0 > u64::MAX),
            !bad && !over ==> n == digits_value(d.take(i - from), 16)->0,
        decreases len - i,
    {
        let c: char = t.get_char(i);
        proof {
            let next = d.take(i + 1 - from);
            assert(next.drop_last() =~= d.take(i - from));
            assert(next.last() == c);
        }
        match hex_digit(c) {
            Some(x) => {
                if n > (u64::MAX - x) / 16 {
                    over = true;
                }
                if !over {
                    n = n * 16 + x;
                }
            },
            None => {
                bad = true;
            },
        }
        i += 1;
    }
    assert(d.take(len - from) =~= d);
    if bad || over || len == from {
        0
    } else {
        n
    }
}

/// Only ASCII characters.
pub open spec fn is_ascii(s: Seq<char>) -> bool {
    forall|i: int| 0 <= i < s.len() ==> #[trigger] s[i] as u32 <= 0x7f
}

/// An ASCII letter in lower case; any other character as it is.
pub open spec fn ascii_lower(c: char) -> char {
    if 'A' <= c <= 'Z' {
        ((c as u32 + 0x20) as u32) as char
    } else {
        c
    }
}

/// A text with its ASCII letters in lower case.
pub open spec fn ascii_lowered(s: Seq<char>) -> Seq<char> {
    s.map_values(|c: char| ascii_lower(c))
}

/// The lower-case form of a text that is not all ASCII, as the standard library
/// gives it.
pub uninterp spec fn lowercase_text(s: Seq<char>) -> Seq<char>;

/// The lower-case form of a text.
pub open spec fn lowered(s: Seq<char>) -> Seq<char> {
    if is_ascii(s) {
        ascii_lowered(s)
    } else {
        lowercase_text(s)
    }
}

/// Calls `str::to_lowercase`: ASCII text has its letters in lower case; what it
/// gives for other text is named by [`lowercase_text`].
#[verifier::external_body]
pub(crate) fn lowercase(s: &str) -> (r: String)
    ensures
        is_ascii(s@) ==> r@ == ascii_lowered(s@),
        !is_ascii(s@) ==> r@ == lowercase_text(s@),
{
    s.to_lowercase()
}

/// Printable ASCII characters other than quotes and backslashes, which are
/// written as they stand wherever text is escaped.
pub open spec fn is_printable(s: Seq<char>) -> bool {
    forall|i: int|
        0 <= i < s.len() ==> 0x20 <= #[trigger] s[i] as u32 <= 0x7e && s[i] != '"' && s[i] != '\''
            && s[i] != '\\'
}

/// A text that is not all printable in quotes, escaped as the standard library
/// does for debugging.
pub uninterp spec fn escaped_text(s: Seq<char>) -> Seq<char>;

/// A text in quotes, escaped where it is not printable.
pub open spec fn quoted(s: Seq<char>) -> Seq<char> {
    if is_printable(s) {
        seq!['"'] + s + seq!['"']
    } else {
        escaped_text(s)
    }
}

/// Formats a `str` with `{:?}`: printable text stands in double quotes as it is;
/// what it gives for other text is named by [`escaped_text`].
#[verifier::external_body]
pub(crate) fn debug_text(s: &str) -> (r: String)
    ensures
        is_printable(s@) ==> r@ == seq!['"'] + s@ + seq!['"'],
        !is_printable(s@) ==> r@ == escaped_text(s@),
{
    format!("{:?}", s)
}

/// Whether two texts are the same.
pub fn same_text(a: &str, b: &str) -> (r: bool)
    ensures
        r == (a@ == b@),
{
    a.to_owned() == b.to_owned()
}

/// One text after another.
pub fn joined(a: &str, b: &str) -> (r: String)
    ensures
        r@ == a@ + b@,
{
    let mut s: String = a.to_owned();
    s.append(b);
    s
}

} // verus!
