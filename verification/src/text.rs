//! Text building blocks: numbers, byte lists and UTF-8, with their exact renderings.
use vstd::prelude::*;
use vstd::utf8::{decode_utf8, valid_utf8};

verus! {

/// The digit that stands for `d` in any base up to sixteen.
pub open spec fn digit(d: int) -> char {
    if d < 10 {
        (48 + d) as char
    } else {
        (87 + d) as char
    }
}

/// The decimal digits of `n`, most significant first, without leading zeros.
pub open spec fn decimal_digits(n: nat) -> Seq<char>
    decreases n,
{
    if n < 10 {
        seq![digit(n as int)]
    } else {
        decimal_digits(n / 10).push(digit((n % 10) as int))
    }
}

/// The lower-case hexadecimal digits of `n`, most significant first, without leading zeros.
pub open spec fn hex_digits(n: nat) -> Seq<char>
    decreases n,
{
    if n < 16 {
        seq![digit(n as int)]
    } else {
        hex_digits(n / 16).push(digit((n % 16) as int))
    }
}

/// The decimal rendering of `n`.
pub open spec fn decimal(n: int) -> Seq<char> {
    if n < 0 {
        seq!['-'] + decimal_digits((-n) as nat)
    } else {
        decimal_digits(n as nat)
    }
}

/// The natural number whose 32-bit two's complement pattern is that of `n`.
pub open spec fn unsigned(n: i32) -> nat {
    if n < 0 {
        (n + 0x1_0000_0000) as nat
    } else {
        n as nat
    }
}

/// The number whose 32-bit two's complement pattern is that of the low 32 bits of `n`.
pub open spec fn signed(n: int) -> i32 {
    let low = n % 0x1_0000_0000;
    if low < 0x8000_0000 {
        low as i32
    } else {
        (low - 0x1_0000_0000) as i32
    }
}

/// The hexadecimal rendering of the two's complement pattern of `n`, with its prefix.
pub open spec fn prefixed_hex(n: i32) -> Seq<char> {
    seq!['0', 'x'] + hex_digits(unsigned(n))
}

/// The decimal renderings of `bytes`, with a comma and a space between neighbours.
pub open spec fn joined_bytes(bytes: Seq<u8>) -> Seq<char>
    decreases bytes.len(),
{
    if bytes.len() == 0 {
        seq![]
    } else if bytes.len() == 1 {
        decimal(bytes[0] as int)
    } else {
        joined_bytes(bytes.drop_last()) + seq![',', ' '] + decimal(bytes.last() as int)
    }
}

/// The rendering of `bytes` as a list in square brackets.
pub open spec fn byte_list(bytes: Seq<u8>) -> Seq<char> {
    seq!['['] + joined_bytes(bytes) + seq![']']
}

/// `String::push`: appends one character to the text.
pub assume_specification[ String::push ](s: &mut String, ch: char)
    ensures
        final(s)@ == old(s)@.push(ch),
;

/// `String::from_utf8`: the text that `bytes` encode, or nothing where they are not UTF-8.
#[verifier::external_body]
pub(crate) fn text_from_utf8(bytes: Vec<u8>) -> (text: Option<String>)
    ensures
        text is Some <==> valid_utf8(bytes@),
        text matches Some(s) ==> s@ == decode_utf8(bytes@),
{
    String::from_utf8(bytes).ok()
}

/// The rendering of `text` in double quotes, with the escapes that `{:?}` writes.
pub uninterp spec fn debug_quoted(text: Seq<char>) -> Seq<char>;

/// `format!` with `{:?}` on a `str`: the text in double quotes, its special characters escaped.
/// Which characters those are is left to the name `debug_quoted`.
#[verifier::external_body]
pub(crate) fn quoted_text(text: &str) -> (quoted: String)
    ensures
        quoted@ == debug_quoted(text@),
{
    format!("{:?}", text)
}

/// Whether two texts are the same.
pub(crate) fn same_text(a: &str, b: &str) -> (same: bool)
    ensures
        same == (a@ == b@),
{
    a.to_string() == b.to_string()
}

fn digit_char(d: u64) -> (c: char)
    requires
        d < 16,
    ensures
        c == digit(d as int),
{
    if d < 10 {
        (48 + d) as u8 as char
    } else {
        (87 + d) as u8 as char
    }
}

fn push_decimal_digits(out: &mut String, n: u64)
    ensures
        final(out)@ == old(out)@ + decimal_digits(n as nat),
    decreases n,
{
    if n >= 10 {
        push_decimal_digits(out, n / 10);
    }
    out.push(digit_char(n % 10));
    assert(out@ =~= old(out)@ + decimal_digits(n as nat));
}

fn push_hex_digits(out: &mut String, n: u64)
    ensures
        final(out)@ == old(out)@ + hex_digits(n as nat),
    decreases n,
{
    if n >= 16 {
        push_hex_digits(out, n / 16);
    }
    out.push(digit_char(n % 16));
    assert(out@ =~= old(out)@ + hex_digits(n as nat));
}

/// Renders `n` in decimal.
pub fn decimal_text(n: i64) -> (text: String)
    ensures
        text@ == decimal(n as int),
{
    let mut text = String::new();
    if n < 0 {
        text.push('-');
        assert(text@ =~= seq!['-']);
        let magnitude: i128 = -(n as i128);
        push_decimal_digits(&mut text, magnitude as u64);
    } else {
        push_decimal_digits(&mut text, n as u64);
        assert(text@ =~= decimal(n as int));
    }
    text
}

/// The bit pattern of `n` as an unsigned number.
pub fn to_unsigned(n: i32) -> (u: u32)
    ensures
        u == unsigned(n),
{
    assert(n >= 0 ==> n as u32 == n) by (bit_vector);
    assert(n < 0 ==> n as u32 == n + 0x1_0000_0000) by (bit_vector);
    n as u32
}

/// The number whose bit pattern is that of the low 32 bits of `n`.
pub fn to_signed(n: u64) -> (i: i32)
    ensures
        i == signed(n as int),
{
    let low: u32 = (n % 0x1_0000_0000) as u32;
    assert(low < 0x8000_0000 ==> low as i32 == low) by (bit_vector);
    assert(low >= 0x8000_0000 ==> low as i32 == low - 0x1_0000_0000) by (bit_vector);
    low as i32
}

/// Renders the bit pattern of `n` in hexadecimal, with the prefix `0x`.
pub fn prefixed_hex_text(n: i32) -> (text: String)
    ensures
        text@ == prefixed_hex(n),
{
    let mut text = String::new();
    text.push('0');
    text.push('x');
    assert(text@ =~= seq!['0', 'x']);
    push_hex_digits(&mut text, to_unsigned(n) as u64);
    text
}

/// Renders `bytes` as a list in square brackets.
pub fn byte_list_text(bytes: &Vec<u8>) -> (text: String)
    ensures
        text@ == byte_list(bytes@),
{
    let mut text = String::new();
    text.push('[');
    assert(text@ =~= seq!['['] + joined_bytes(bytes@.take(0)));
    for i in 0..bytes.len()
        invariant
            text@ == seq!['['] + joined_bytes(bytes@.take(i as int)),
    {
        if i > 0 {
            text.push(',');
            text.push(' ');
        }
        text.append(decimal_text(bytes[i] as i64).as_str());
        assert(bytes@.take(i + 1).drop_last() =~= bytes@.take(i as int));
        assert(text@ =~= seq!['['] + joined_bytes(bytes@.take(i + 1)));
    }
    assert(bytes@.take(bytes@.len() as int) =~= bytes@);
    text.push(']');
    assert(text@ =~= byte_list(bytes@));
    text
}

/// Reading the low 32 bits of a pattern gives back the number it stands for.
pub proof fn lemma_signed_unsigned(n: i32)
    ensures
        signed(unsigned(n) as int) == n,
{
}

/// The number that decimal digits make up.
pub open spec fn decimal_value(digits: Seq<char>) -> int
    decreases digits.len(),
{
    if digits.len() == 0 {
        0
    } else {
        10 * decimal_value(digits.drop_last()) + (digits.last() as int - '0' as int)
    }
}

/// The decimal rendering of a number holds nothing but digits, begins with a zero only if it is
/// just that, and makes up the number; a negative one has a sign before the digits of what it
/// negates.
pub proof fn law_decimal(n: int)
    ensures
        n >= 0 ==> decimal(n).len() > 0 && decimal_value(decimal(n)) == n,
        n >= 0 ==> forall|i: int|
            0 <= i < decimal(n).len() ==> '0' <= #[trigger] decimal(n)[i] && decimal(n)[i] <= '9',
        n >= 0 && decimal(n).len() > 1 ==> decimal(n)[0] != '0',
        n < 0 ==> decimal(n) == seq!['-'] + decimal(-n),
{
    if n >= 0 {
        lemma_decimal_digits(n as nat);
    }
}

proof fn lemma_decimal_digits(n: nat)
    ensures
        decimal_digits(n).len() > 0,
        decimal_value(decimal_digits(n)) == n,
        forall|i: int|
            0 <= i < decimal_digits(n).len() ==> '0' <= #[trigger] decimal_digits(n)[i]
                && decimal_digits(n)[i] <= '9',
        n > 0 ==> decimal_digits(n)[0] != '0',
        decimal_digits(n).len() > 1 ==> n > 0,
    decreases n,
{
    if n < 10 {
        let one = decimal_digits(n);
        assert(one.drop_last() =~= seq![]);
        assert(decimal_value(one.drop_last()) == 0);
    } else {
        lemma_decimal_digits(n / 10);
        let head = decimal_digits(n / 10);
        let last = digit((n % 10) as int);
        assert(decimal_digits(n) == head.push(last));
        assert(head.push(last).drop_last() =~= head);
        assert forall|i: int| 0 <= i < head.push(last).len() implies '0'
            <= #[trigger] head.push(last)[i] && head.push(last)[i] <= '9' by {
            if i < head.len() {
                assert(head.push(last)[i] == head[i]);
            }
        }
        assert(head.push(last)[0] == head[0]);
    }
}

/// Numbers that differ are rendered differently.
pub proof fn law_decimal_injective(a: int, b: int)
    requires
        decimal(a) == decimal(b),
    ensures
        a == b,
{
    law_decimal(a);
    law_decimal(b);
    law_decimal(-a);
    law_decimal(-b);
    if a < 0 && b < 0 {
        assert(decimal(-a) =~= decimal(a).skip(1));
        assert(decimal(-b) =~= decimal(b).skip(1));
    } else if a < 0 {
        assert(decimal(a)[0] == '-');
        assert(decimal(b)[0] >= '0');
    } else if b < 0 {
        assert(decimal(b)[0] == '-');
        assert(decimal(a)[0] >= '0');
    }
}

/// The number that hexadecimal digits make up.
pub open spec fn hex_value(digits: Seq<char>) -> int
    decreases digits.len(),
{
    if digits.len() == 0 {
        0
    } else {
        16 * hex_value(digits.drop_last()) + if digits.last() <= '9' {
            digits.last() as int - '0' as int
        } else {
            digits.last() as int - 'a' as int + 10
        }
    }
}

/// The hexadecimal rendering of a number is a prefix, then digits that make up the number, or what
/// is 2 to the 32 more where it is negative.
pub proof fn law_prefixed_hex(n: i32)
    ensures
        prefixed_hex(n).len() > 2,
        prefixed_hex(n)[0] == '0',
        prefixed_hex(n)[1] == 'x',
        n >= 0 ==> hex_value(prefixed_hex(n).skip(2)) == n,
        n < 0 ==> hex_value(prefixed_hex(n).skip(2)) == n + 0x1_0000_0000,
        prefixed_hex(n).len() > 3 ==> prefixed_hex(n)[2] != '0',
        forall|i: int|
            2 <= i < prefixed_hex(n).len() ==> ('0' <= #[trigger] prefixed_hex(n)[i]
                && prefixed_hex(n)[i] <= '9') || ('a' <= prefixed_hex(n)[i] && prefixed_hex(n)[i]
                <= 'f'),
{
    let digits = hex_digits(unsigned(n));
    lemma_hex_digits(unsigned(n));
    assert(prefixed_hex(n).skip(2) =~= digits);
    assert forall|i: int| 2 <= i < prefixed_hex(n).len() implies ('0' <= #[trigger] prefixed_hex(
        n,
    )[i] && prefixed_hex(n)[i] <= '9') || ('a' <= prefixed_hex(n)[i] && prefixed_hex(n)[i]
        <= 'f') by {
        assert(prefixed_hex(n)[i] == digits[i - 2]);
    }
}

proof fn lemma_hex_digits(n: nat)
    ensures
        hex_digits(n).len() > 0,
        hex_value(hex_digits(n)) == n,
        forall|i: int|
            0 <= i < hex_digits(n).len() ==> ('0' <= #[trigger] hex_digits(n)[i] && hex_digits(n)[i]
                <= '9') || ('a' <= hex_digits(n)[i] && hex_digits(n)[i] <= 'f'),
        n > 0 ==> hex_digits(n)[0] != '0',
        hex_digits(n).len() > 1 ==> n > 0,
    decreases n,
{
    if n < 16 {
        let one = hex_digits(n);
        assert(one.drop_last() =~= seq![]);
        assert(hex_value(one.drop_last()) == 0);
    } else {
        lemma_hex_digits(n / 16);
        let head = hex_digits(n / 16);
        let last = digit((n % 16) as int);
        assert(hex_digits(n) == head.push(last));
        assert(head.push(last).drop_last() =~= head);
        assert forall|i: int| 0 <= i < head.push(last).len() implies ('0' <= #[trigger] head.push(
            last,
        )[i] && head.push(last)[i] <= '9') || ('a' <= head.push(last)[i] && head.push(last)[i]
            <= 'f') by {
            if i < head.len() {
                assert(head.push(last)[i] == head[i]);
            }
        }
        assert(head.push(last)[0] == head[0]);
    }
}

/// The list of bytes: brackets around the renderings of the bytes, and a comma and a space between
/// any two parts of it.
pub proof fn law_byte_list(a: Seq<u8>, b: Seq<u8>)
    ensures
        byte_list(a) == seq!['['] + joined_bytes(a) + seq![']'],
        joined_bytes(seq![]) == Seq::<char>::empty(),
        a.len() == 1 ==> joined_bytes(a) == decimal(a[0] as int),
        a.len() > 0 && b.len() > 0 ==> joined_bytes(a + b) == joined_bytes(a) + seq![',', ' ']
            + joined_bytes(b),
    decreases b.len(),
{
    if a.len() > 0 && b.len() > 0 {
        let whole = a + b;
        assert(whole.last() == b.last());
        assert(whole.drop_last() =~= a + b.drop_last());
        if b.len() == 1 {
            assert(whole.drop_last() =~= a);
            assert(joined_bytes(whole) =~= joined_bytes(a) + seq![',', ' '] + joined_bytes(b));
        } else {
            law_byte_list(a, b.drop_last());
            assert(joined_bytes(whole) =~= joined_bytes(a) + seq![',', ' '] + joined_bytes(b));
        }
    }
}

/// The two readings of 32 bits: each is the number but for a multiple of 2 to the 32.
pub proof fn law_two_readings(n: i32, m: int)
    ensures
        0 <= unsigned(n) < 0x1_0000_0000,
        (unsigned(n) - n) % 0x1_0000_0000 == 0,
        (signed(m) - m) % 0x1_0000_0000 == 0,
        signed(unsigned(n) as int) == n,
{
    vstd::arithmetic::div_mod::lemma_fundamental_div_mod(m, 0x1_0000_0000);
}

/// The functions render what the laws speak of.
pub proof fn law_texts_are_rendered(
    number: i64,
    decimal_rendering: String,
    id: i32,
    hex_rendering: String,
    bytes: Vec<u8>,
    list_rendering: String,
)
    requires
        call_ensures(decimal_text, (number,), decimal_rendering),
        call_ensures(prefixed_hex_text, (id,), hex_rendering),
        call_ensures(byte_list_text, (&bytes,), list_rendering),
    ensures
        decimal_rendering@ == decimal(number as int),
        hex_rendering@ == prefixed_hex(id),
        list_rendering@ == byte_list(bytes@),
{
}

} // verus!
