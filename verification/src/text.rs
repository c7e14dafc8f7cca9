use vstd::prelude::*;
use vstd::utf8::{
    decode_utf8, encode_utf8, encode_utf8_decode_utf8, is_ascii_chars, is_ascii_chars_encode_utf8,
    is_char_boundary, length_of_first_scalar, pop_first_scalar, valid_first_scalar, valid_utf8,
};

verus! {

/// The bytes that stand for a text on the wire and on disk: its UTF-8 encoding.
pub open spec fn bytes_of(text: Seq<char>) -> Seq<u8> {
    encode_utf8(text)
}

/// The text inside an optional string.
pub open spec fn opt_text(value: Option<String>) -> Option<Seq<char>> {
    match value {
        Some(text) => Some(text@),
        None => None,
    }
}

/// The character that writes the digit `d`.
pub open spec fn digit_char(d: nat) -> char {
    if d == 0 {
        '0'
    } else if d == 1 {
        '1'
    } else if d == 2 {
        '2'
    } else if d == 3 {
        '3'
    } else if d == 4 {
        '4'
    } else if d == 5 {
        '5'
    } else if d == 6 {
        '6'
    } else if d == 7 {
        '7'
    } else if d == 8 {
        '8'
    } else {
        '9'
    }
}

/// The decimal numeral of `n`: most significant digit first, no sign, no
/// leading zero but for zero itself.
pub open spec fn decimal(n: nat) -> Seq<char>
    decreases n,
{
    if n < 10 {
        seq![digit_char(n)]
    } else {
        decimal(n / 10).push(digit_char(n % 10))
    }
}

/// True of the bytes `0` to `9`.
pub open spec fn is_digit(b: u8) -> bool {
    0x30 <= b <= 0x39
}

/// True when every byte is a decimal digit.
pub open spec fn all_digits(bytes: Seq<u8>) -> bool {
    forall|i: int| 0 <= i < bytes.len() ==> is_digit(#[trigger] bytes[i])
}

/// The number that a run of decimal digits writes; leading zeros count for nothing.
pub open spec fn digits_value(bytes: Seq<u8>) -> nat
    decreases bytes.len(),
{
    if bytes.len() == 0 {
        0
    } else {
        digits_value(bytes.drop_last()) * 10 + (bytes.last() - 0x30) as nat
    }
}

/// The digits of an unsigned numeral: the bytes themselves, without one leading `+`.
pub open spec fn numeral_digits(bytes: Seq<u8>) -> Seq<u8> {
    if bytes.len() > 0 && bytes[0] == 0x2b {
        bytes.subrange(1, bytes.len() as int)
    } else {
        bytes
    }
}

/// The value of an unsigned numeral: an optional `+`, then one or more decimal
/// digits and nothing else. `None` for every other byte string.
pub open spec fn numeral_value(bytes: Seq<u8>) -> Option<nat> {
    let digits = numeral_digits(bytes);
    if digits.len() > 0 && all_digits(digits) {
        Some(digits_value(digits))
    } else {
        None
    }
}

/// What `parse_u32` returns: the numeral's value where it fits in 32 bits.
pub open spec fn parsed_u32(text: Seq<char>) -> Option<u32> {
    match numeral_value(bytes_of(text)) {
        Some(v) => if v <= u32::MAX {
            Some(v as u32)
        } else {
            None
        },
        None => None,
    }
}

/// The texts of a list of strings.
pub open spec fn texts(strings: Seq<String>) -> Seq<Seq<char>> {
    Seq::new(strings.len(), |i: int| strings[i]@)
}

/// A list of pairs of strings as plain values.
pub open spec fn text_pairs(pairs: Seq<(String, String)>) -> Seq<(Seq<char>, Seq<char>)> {
    Seq::new(pairs.len(), |i: int| (pairs[i].0@, pairs[i].1@))
}

/// Texts with the same bytes are the same text.
pub proof fn lemma_bytes_of_injective(a: Seq<char>, b: Seq<char>)
    requires
        bytes_of(a) == bytes_of(b),
    ensures
        a == b,
{
    encode_utf8_decode_utf8(a);
    encode_utf8_decode_utf8(b);
    assert(decode_utf8(encode_utf8(a)) == decode_utf8(encode_utf8(b)));
}

/// The bytes of two texts joined are the bytes of the one, then those of the
/// other.
pub proof fn lemma_bytes_of_concat(a: Seq<char>, b: Seq<char>)
    ensures
        bytes_of(a + b) == bytes_of(a) + bytes_of(b),
    decreases a.len(),
{
    if a.len() == 0 {
        assert(a + b =~= b);
        assert(bytes_of(a) + bytes_of(b) =~= bytes_of(b));
    } else {
        lemma_bytes_of_concat(a.drop_first(), b);
        assert((a + b).drop_first() =~= a.drop_first() + b);
        assert(bytes_of(a + b) =~= bytes_of(a) + bytes_of(b));
    }
}

/// An ASCII text has one byte for each character, the character's code.
pub proof fn lemma_ascii_bytes(text: Seq<char>)
    requires
        is_ascii_chars(text),
    ensures
        bytes_of(text).len() == text.len(),
        forall|i: int| 0 <= i < text.len() ==> #[trigger] bytes_of(text)[i] == text[i] as u8,
{
    is_ascii_chars_encode_utf8(text);
}

/// A decimal numeral is made of ASCII digits.
pub proof fn lemma_decimal_digits(n: nat)
    ensures
        decimal(n).len() > 0,
        is_ascii_chars(decimal(n)),
        forall|i: int| 0 <= i < decimal(n).len() ==> is_digit(#[trigger] decimal(n)[i] as u8),
    decreases n,
{
    if n >= 10 {
        lemma_decimal_digits(n / 10);
    }
}

/// The number that a decimal numeral says is the number that it was written
/// for.
pub proof fn lemma_decimal_value(n: nat)
    ensures
        all_digits(bytes_of(decimal(n))),
        digits_value(bytes_of(decimal(n))) == n,
        numeral_value(bytes_of(decimal(n))) == Some(n),
    decreases n,
{
    let bytes = bytes_of(decimal(n));
    lemma_decimal_digits(n);
    lemma_ascii_bytes(decimal(n));
    assert(all_digits(bytes)) by {
        assert forall|i: int| 0 <= i < bytes.len() implies is_digit(#[trigger] bytes[i]) by {
            assert(is_digit(decimal(n)[i] as u8));
        }
    }
    if n < 10 {
        assert(bytes.drop_last().len() == 0);
        assert(digits_value(bytes.drop_last()) == 0);
        assert(bytes.last() == digit_char(n) as u8);
    } else {
        let shorter = bytes_of(decimal(n / 10));
        lemma_decimal_value(n / 10);
        lemma_decimal_digits(n / 10);
        lemma_ascii_bytes(decimal(n / 10));
        assert(bytes.drop_last() =~= shorter) by {
            assert forall|i: int| 0 <= i < shorter.len() implies bytes.drop_last()[i]
                == shorter[i] by {
                assert(bytes[i] == decimal(n)[i] as u8);
                assert(shorter[i] == decimal(n / 10)[i] as u8);
            }
        }
        assert(bytes.last() == digit_char(n % 10) as u8);
    }
    assert(bytes[0] != 0x2b) by {
        assert(is_digit(bytes[0]));
    }
}

/// In UTF-8 a character starts behind every ASCII byte.
pub proof fn lemma_boundary_after_ascii(bytes: Seq<u8>, i: int)
    requires
        valid_utf8(bytes),
        0 <= i < bytes.len(),
        bytes[i] < 0x80,
    ensures
        is_char_boundary(bytes, i + 1),
    decreases bytes.len(),
{
    let first = length_of_first_scalar(bytes);
    let rest = pop_first_scalar(bytes);
    assert(valid_first_scalar(bytes));
    assert(valid_utf8(rest));
    if i == 0 {
        assert(first == 1);
        assert(is_char_boundary(rest, 0));
    } else if i < first {
        assert(bytes[i] >= 0x80);
    } else {
        assert(rest[i - first] == bytes[i]);
        lemma_boundary_after_ascii(rest, i - first);
    }
}

/// Whether two texts are the same, character for character.
pub fn text_eq(a: &str, b: &str) -> (same: bool)
    ensures
        same == (a@ == b@),
{
    let x: &[u8] = a.as_bytes();
    let y: &[u8] = b.as_bytes();
    if x.len() != y.len() {
        return false;
    }
    let mut i: usize = 0;
    while i < x.len()
        invariant
            i <= x@.len(),
            x@.len() == y@.len(),
            x@ == bytes_of(a@),
            y@ == bytes_of(b@),
            forall|k: int| 0 <= k < i ==> x@[k] == y@[k],
        decreases x@.len() - i,
    {
        if x[i] != y[i] {
            return false;
        }
        i = i + 1;
    }
    proof {
        assert(x@ =~= y@);
        lemma_bytes_of_injective(a@, b@);
    }
    true
}

/// One digit as a text of one character.
fn digit_text(d: u8) -> (text: &'static str)
    requires
        d < 10,
    ensures
        text@ == seq![digit_char(d as nat)],
{
    proof {
        reveal_strlit("0");
        reveal_strlit("1");
        reveal_strlit("2");
        reveal_strlit("3");
        reveal_strlit("4");
        reveal_strlit("5");
        reveal_strlit("6");
        reveal_strlit("7");
        reveal_strlit("8");
        reveal_strlit("9");
    }
    let text: &'static str = match d {
        0 => "0",
        1 => "1",
        2 => "2",
        3 => "3",
        4 => "4",
        5 => "5",
        6 => "6",
        7 => "7",
        8 => "8",
        _ => "9",
    };
    assert(text@ =~= seq![digit_char(d as nat)]);
    text
}

/// Writes `n` as a decimal numeral.
pub fn decimal_text(n: u128) -> (text: String)
    ensures
        text@ == decimal(n as nat),
    decreases n,
{
    if n < 10 {
        String::from_str(digit_text(n as u8))
    } else {
        let mut text: String = decimal_text(n / 10);
        let last: &'static str = digit_text((n % 10) as u8);
        text.append(last);
        assert(text@ =~= decimal((n / 10) as nat).push(digit_char((n % 10) as nat)));
        text
    }
}

/// Reads an unsigned 32-bit number: an optional `+`, then decimal digits only.
/// Anything else, the empty text and a value over `u32::MAX` give `None`.
pub fn parse_u32(text: &str) -> (value: Option<u32>)
    ensures
        value == parsed_u32(text@),
{
    let bytes: &[u8] = text.as_bytes();
    let n: usize = bytes.len();
    let start: usize = if n > 0 && bytes[0] == 0x2b {
        1
    } else {
        0
    };
    let ghost digits: Seq<u8> = numeral_digits(bytes@);
    assert(digits =~= bytes@.subrange(start as int, n as int));
    if start == n {
        return None;
    }
    let mut acc: u32 = 0;
    let mut too_big: bool = false;
    let mut i: usize = start;
    while i < n
        invariant
            start <= i <= n,
            n == bytes@.len(),
            bytes@ == bytes_of(text@),
            digits == numeral_digits(bytes@),
            digits == bytes@.subrange(start as int, n as int),
            all_digits(digits.subrange(0, i - start)),
            too_big ==> digits_value(digits.subrange(0, i - start)) > u32::MAX,
            !too_big ==> digits_value(digits.subrange(0, i - start)) == acc,
        decreases n - i,
    {
        let b: u8 = bytes[i];
        let ghost before: Seq<u8> = digits.subrange(0, i - start);
        let ghost after: Seq<u8> = digits.subrange(0, i - start + 1);
        assert(after.drop_last() =~= before);
        assert(after.last() == b);
        if b < 0x30 || b > 0x39 {
            assert(!is_digit(digits[i - start]));
            return None;
        }
        assert forall|k: int| 0 <= k < after.len() implies is_digit(#[trigger] after[k]) by {
            if k < before.len() {
                assert(after[k] == before[k]);
            }
        }
        if !too_big {
            let wide: u64 = (acc as u64) * 10 + ((b - 0x30) as u64);
            if wide > u32::MAX as u64 {
                too_big = true;
            } else {
                acc = wide as u32;
            }
        }
        i = i + 1;
    }
    assert(digits.subrange(0, n - start) =~= digits);
    if too_big {
        None
    } else {
        Some(acc)
    }
}

} // verus!
