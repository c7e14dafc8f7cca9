use crate::headers::{
    distinct_names, folded, has_header, header_value, lemma_put_header_distinct,
    lemma_put_header_value, put_header, same_name,
};
use crate::text::{bytes_of, decimal, lemma_ascii_bytes};
use vstd::prelude::*;
use vstd::utf8::is_ascii_chars;

verus! {

/// A request as plain values: where it goes, its first line without the line
/// ending, and its headers in the order in which they are written.
pub struct RequestView {
    pub base_address: Seq<char>,
    pub port: u32,
    pub request_line: Seq<char>,
    pub headers: Seq<(Seq<char>, Seq<char>)>,
}

/// One header as a line of the request: name, colon, space, value, line
/// ending.
pub open spec fn header_line(header: (Seq<char>, Seq<char>)) -> Seq<char> {
    header.0 + ": "@ + header.1 + "\r\n"@
}

/// The lines of the headers, one after the other.
pub open spec fn header_block(headers: Seq<(Seq<char>, Seq<char>)>) -> Seq<char>
    decreases headers.len(),
{
    if headers.len() == 0 {
        Seq::empty()
    } else {
        header_block(headers.drop_last()) + header_line(headers.last())
    }
}

/// The headers that go out with a body of the given length: those that were
/// set, with `Accept` set to take anything and `Content-Length` set to the
/// length, in place of whatever these two were set to before.
pub open spec fn sent_headers(headers: Seq<(Seq<char>, Seq<char>)>, body_len: nat) -> Seq<
    (Seq<char>, Seq<char>),
> {
    put_header(put_header(headers, "Accept"@, "*/*"@), "Content-Length"@, decimal(body_len))
}

/// All of a request that comes before the body: the request line, the
/// header lines and an empty line.
pub open spec fn request_head(request: RequestView, body_len: nat) -> Seq<char> {
    request.request_line + "\r\n"@ + header_block(sent_headers(request.headers, body_len))
        + "\r\n"@
}

/// The bytes of a request: its head as UTF-8, then the body as it is.
pub open spec fn wire_request(request: RequestView, body: Seq<u8>) -> Seq<u8> {
    bytes_of(request_head(request, body.len())) + body
}

/// The headers after a run of writes, made one after the other.
pub open spec fn put_all(
    headers: Seq<(Seq<char>, Seq<char>)>,
    writes: Seq<(Seq<char>, Seq<char>)>,
) -> Seq<(Seq<char>, Seq<char>)>
    decreases writes.len(),
{
    if writes.len() == 0 {
        headers
    } else {
        put_header(put_all(headers, writes.drop_last()), writes.last().0, writes.last().1)
    }
}

/// The value that a run of writes gave last to a name.
pub open spec fn last_written(writes: Seq<(Seq<char>, Seq<char>)>, name: Seq<char>) -> Option<
    Seq<char>,
>
    decreases writes.len(),
{
    if writes.len() == 0 {
        None
    } else if same_name(writes.last().0, name) {
        Some(writes.last().1)
    } else {
        last_written(writes.drop_last(), name)
    }
}

/// True when `part` stands in `text` from place `at` on.
pub open spec fn occurs_at(text: Seq<char>, part: Seq<char>, at: int) -> bool {
    &&& 0 <= at
    &&& at + part.len() <= text.len()
    &&& text.subrange(at, at + part.len()) == part
}

/// Where the line of header `i` starts in the header block.
pub open spec fn line_start(headers: Seq<(Seq<char>, Seq<char>)>, i: int) -> int {
    header_block(headers.subrange(0, i)).len() as int
}

/// A header that is set stays set when another one is written.
pub proof fn lemma_put_header_keeps(
    headers: Seq<(Seq<char>, Seq<char>)>,
    name: Seq<char>,
    value: Seq<char>,
    other: Seq<char>,
)
    ensures
        has_header(put_header(headers, name, value), name),
        has_header(headers, other) ==> has_header(put_header(headers, name, value), other),
{
    lemma_put_header_value(headers, name, value, name);
    lemma_put_header_value(headers, name, value, other);
}

/// After a run of writes every name has the value written last for it, and
/// a name that was not written has the value that it had.
pub proof fn lemma_put_all_value(
    headers: Seq<(Seq<char>, Seq<char>)>,
    writes: Seq<(Seq<char>, Seq<char>)>,
    name: Seq<char>,
)
    ensures
        header_value(put_all(headers, writes), name) == match last_written(writes, name) {
            Some(value) => Some(value),
            None => header_value(headers, name),
        },
    decreases writes.len(),
{
    if writes.len() > 0 {
        lemma_put_all_value(headers, writes.drop_last(), name);
        lemma_put_header_value(
            put_all(headers, writes.drop_last()),
            writes.last().0,
            writes.last().1,
            name,
        );
    }
}

/// A run of writes keeps the names apart.
pub proof fn lemma_put_all_distinct(
    headers: Seq<(Seq<char>, Seq<char>)>,
    writes: Seq<(Seq<char>, Seq<char>)>,
)
    requires
        distinct_names(headers),
    ensures
        distinct_names(put_all(headers, writes)),
    decreases writes.len(),
{
    if writes.len() > 0 {
        lemma_put_all_distinct(headers, writes.drop_last());
        lemma_put_header_distinct(
            put_all(headers, writes.drop_last()),
            writes.last().0,
            writes.last().1,
        );
    }
}

/// Every name that was written in a run of writes is set after it.
pub proof fn lemma_put_all_has(
    headers: Seq<(Seq<char>, Seq<char>)>,
    writes: Seq<(Seq<char>, Seq<char>)>,
    i: int,
)
    requires
        0 <= i < writes.len(),
    ensures
        has_header(put_all(headers, writes), writes[i].0),
    decreases writes.len(),
{
    let before = put_all(headers, writes.drop_last());
    if i < writes.len() - 1 {
        lemma_put_all_has(headers, writes.drop_last(), i);
    }
    lemma_put_header_keeps(before, writes.last().0, writes.last().1, writes[i].0);
}

/// The header block holds the line of each header, one behind the other.
pub proof fn lemma_header_block_line(headers: Seq<(Seq<char>, Seq<char>)>, i: int)
    requires
        0 <= i < headers.len(),
    ensures
        occurs_at(header_block(headers), header_line(headers[i]), line_start(headers, i)),
    decreases headers.len(),
{
    let shorter = headers.drop_last();
    let block = header_block(headers);
    let line = header_line(headers[i]);
    if i == headers.len() - 1 {
        assert(headers.subrange(0, i) =~= shorter);
        assert(block.subrange(line_start(headers, i), line_start(headers, i) + line.len())
            =~= line);
    } else {
        lemma_header_block_line(shorter, i);
        assert(shorter.subrange(0, i) =~= headers.subrange(0, i));
        assert(block.subrange(line_start(headers, i), line_start(headers, i) + line.len())
            =~= header_block(shorter).subrange(
            line_start(shorter, i),
            line_start(shorter, i) + line.len(),
        ));
    }
}

/// Names of different length are different names, if they are ASCII.
pub proof fn lemma_length_tells_names_apart(a: Seq<char>, b: Seq<char>)
    requires
        is_ascii_chars(a),
        is_ascii_chars(b),
        a.len() != b.len(),
    ensures
        !same_name(a, b),
{
    lemma_ascii_bytes(a);
    lemma_ascii_bytes(b);
    assert(folded(a).len() == a.len());
    assert(folded(b).len() == b.len());
}

/// `Accept` and `Content-Length` are two names.
pub proof fn lemma_accept_is_not_content_length()
    ensures
        !same_name("Content-Length"@, "Accept"@),
        !same_name("Accept"@, "Content-Length"@),
{
    reveal_strlit("Accept");
    reveal_strlit("Content-Length");
    lemma_length_tells_names_apart("Content-Length"@, "Accept"@);
    lemma_length_tells_names_apart("Accept"@, "Content-Length"@);
}

/// What goes out with a request: `Accept` and `Content-Length` as the
/// client sets them, and every other header as it was set before.
pub proof fn lemma_sent_headers(
    headers: Seq<(Seq<char>, Seq<char>)>,
    body_len: nat,
    name: Seq<char>,
)
    ensures
        header_value(sent_headers(headers, body_len), "Accept"@) == Some("*/*"@),
        header_value(sent_headers(headers, body_len), "Content-Length"@) == Some(
            decimal(body_len),
        ),
        !same_name("Accept"@, name) && !same_name("Content-Length"@, name) ==> header_value(
            sent_headers(headers, body_len),
            name,
        ) == header_value(headers, name),
        has_header(headers, name) ==> has_header(sent_headers(headers, body_len), name),
        distinct_names(headers) ==> distinct_names(sent_headers(headers, body_len)),
{
    let accepting = put_header(headers, "Accept"@, "*/*"@);
    lemma_accept_is_not_content_length();
    lemma_put_header_value(headers, "Accept"@, "*/*"@, "Accept"@);
    lemma_put_header_value(accepting, "Content-Length"@, decimal(body_len), "Accept"@);
    lemma_put_header_value(accepting, "Content-Length"@, decimal(body_len), "Content-Length"@);
    lemma_put_header_value(headers, "Accept"@, "*/*"@, name);
    lemma_put_header_value(accepting, "Content-Length"@, decimal(body_len), name);
    lemma_put_header_keeps(headers, "Accept"@, "*/*"@, name);
    lemma_put_header_keeps(accepting, "Content-Length"@, decimal(body_len), name);
    if distinct_names(headers) {
        lemma_put_header_distinct(headers, "Accept"@, "*/*"@);
        lemma_put_header_distinct(accepting, "Content-Length"@, decimal(body_len));
    }
}

} // verus!
