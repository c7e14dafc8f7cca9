use crate::text::{digits_value, is_digit};
use vstd::prelude::*;

verus! {

/// True when byte `i` is the first line feed.
pub open spec fn is_line_end(raw: Seq<u8>, i: int) -> bool {
    &&& 0 <= i < raw.len()
    &&& raw[i] == 0x0a
    &&& forall|j: int| 0 <= j < i ==> #[trigger] raw[j] != 0x0a
}

/// True when there is a line feed, and so a first line.
pub open spec fn has_line(raw: Seq<u8>) -> bool {
    exists|i: int| is_line_end(raw, i)
}

/// The place of the first line feed.
pub open spec fn line_end(raw: Seq<u8>) -> int {
    choose|i: int| is_line_end(raw, i)
}

/// The first line with its ending, the status line of a response.
pub open spec fn status_line(raw: Seq<u8>) -> Seq<u8> {
    raw.subrange(0, line_end(raw) + 1)
}

/// True when a line is a status line: `HTTP/1.`, a digit, a space, a status
/// code of three digits between 100 and 599, then the end of the line or a
/// space and any reason; the line ends in carriage return and line feed.
pub open spec fn is_status_line(line: Seq<u8>) -> bool {
    &&& line.len() >= 14
    &&& line[line.len() - 2] == 0x0d
    &&& line[line.len() - 1] == 0x0a
    &&& line[0] == 0x48
    &&& line[1] == 0x54
    &&& line[2] == 0x54
    &&& line[3] == 0x50
    &&& line[4] == 0x2f
    &&& line[5] == 0x31
    &&& line[6] == 0x2e
    &&& is_digit(line[7])
    &&& line[8] == 0x20
    &&& is_digit(line[9])
    &&& is_digit(line[10])
    &&& is_digit(line[11])
    &&& 100 <= status_code(line) <= 599
    &&& (line.len() == 14 || line[12] == 0x20)
}

/// The status code of a status line: what bytes 9 to 11 say as a decimal
/// numeral.
pub open spec fn status_code(line: Seq<u8>) -> nat {
    digits_value(line.subrange(9, 12))
}

/// True when an empty line ends at byte `k + 4`: the bytes from `k` on are
/// carriage return, line feed, carriage return, line feed.
pub open spec fn is_delimiter_at(raw: Seq<u8>, k: int) -> bool {
    &&& 0 <= k
    &&& k + 4 <= raw.len()
    &&& raw[k] == 0x0d
    &&& raw[k + 1] == 0x0a
    &&& raw[k + 2] == 0x0d
    &&& raw[k + 3] == 0x0a
}

/// True when the first delimiter at or after `from` is at `k`.
pub open spec fn is_first_delimiter(raw: Seq<u8>, from: int, k: int) -> bool {
    &&& from <= k
    &&& is_delimiter_at(raw, k)
    &&& forall|j: int| from <= j < k ==> !is_delimiter_at(raw, j)
}

/// True when there is a delimiter at or after `from`.
pub open spec fn has_delimiter(raw: Seq<u8>, from: int) -> bool {
    exists|k: int| is_first_delimiter(raw, from, k)
}

/// The place of the first delimiter at or after `from`.
pub open spec fn delimiter_index(raw: Seq<u8>, from: int) -> int {
    choose|k: int| is_first_delimiter(raw, from, k)
}

/// Where the body of a response starts: behind the first delimiter that
/// follows the status line.
pub open spec fn body_start(raw: Seq<u8>) -> int {
    delimiter_index(raw, line_end(raw) + 1) + 4
}

/// What a response says: its status code and its body. The response has to
/// begin with a status line, and what follows the status line has to hold a
/// delimiter; the body is all that comes after the first one. What stands
/// between the status line and that delimiter is passed over.
pub open spec fn parsed_response(raw: Seq<u8>) -> Option<(u16, Seq<u8>)> {
    if has_line(raw) && is_status_line(status_line(raw)) && has_delimiter(raw, line_end(raw) + 1) {
        Some((status_code(status_line(raw)) as u16, raw.subrange(body_start(raw), raw.len() as int)))
    } else {
        None
    }
}

/// The first line feed is the one that `line_end` gives.
pub proof fn lemma_line_end(raw: Seq<u8>, i: int)
    requires
        is_line_end(raw, i),
    ensures
        has_line(raw),
        line_end(raw) == i,
{
    let chosen = line_end(raw);
    assert(is_line_end(raw, chosen));
    if chosen < i {
        assert(raw[chosen] != 0x0a);
    }
    if i < chosen {
        assert(raw[i] != 0x0a);
    }
}

/// The first delimiter is the one that `delimiter_index` gives.
pub proof fn lemma_first_delimiter(raw: Seq<u8>, from: int, k: int)
    requires
        is_first_delimiter(raw, from, k),
    ensures
        has_delimiter(raw, from),
        delimiter_index(raw, from) == k,
{
    let chosen = delimiter_index(raw, from);
    assert(is_first_delimiter(raw, from, chosen));
}

/// Three digits say a number of hundreds, tens and ones.
pub proof fn lemma_three_digits(digits: Seq<u8>)
    requires
        digits.len() == 3,
        is_digit(digits[0]),
        is_digit(digits[1]),
        is_digit(digits[2]),
    ensures
        digits_value(digits) == (digits[0] - 0x30) * 100 + (digits[1] - 0x30) * 10 + (digits[2]
            - 0x30),
{
    let two = digits.drop_last();
    let one = two.drop_last();
    assert(one.drop_last().len() == 0);
    assert(digits_value(one.drop_last()) == 0);
    assert(digits_value(one) == (digits[0] - 0x30) as nat);
    assert(digits_value(two) == digits_value(one) * 10 + (digits[1] - 0x30) as nat);
    assert(digits_value(digits) == digits_value(two) * 10 + (digits[2] - 0x30) as nat);
}

/// Response body extraction. Take a response that begins with a status
/// line and whose first delimiter does not begin with the line ending of
/// the status line itself. Its body is all that comes after that first
/// delimiter.
pub proof fn law_body_follows_first_delimiter(raw: Seq<u8>, first: int)
    requires
        has_line(raw),
        is_status_line(status_line(raw)),
        is_first_delimiter(raw, 0, first),
        first + 1 != line_end(raw),
    ensures
        parsed_response(raw) == Some(
            (status_code(status_line(raw)) as u16, raw.subrange(first + 4, raw.len() as int)),
        ),
{
    let end = line_end(raw);
    assert(is_line_end(raw, end));
    if first + 1 < end {
        assert(raw[first + 1] != 0x0a);
    }
    assert(first != end);
    assert(is_first_delimiter(raw, end + 1, first));
    lemma_first_delimiter(raw, end + 1, first);
}

} // verus!
