use crate::base64::base64_block;
use crate::headers::{
    distinct_names, has_header, header_value, lemma_put_header_distinct, lemma_put_header_value,
    put_header, same_name,
};
use crate::httprequest::{
    authorization, new_request, request_line_text, with_basic_auth, with_request, RequestType,
};
use crate::text::{bytes_of, decimal, lemma_decimal_value, numeral_value};
use crate::wire::{
    header_block, header_line, last_written, lemma_header_block_line, lemma_put_all_distinct,
    lemma_put_all_has, lemma_put_all_value, lemma_put_header_keeps, lemma_sent_headers,
    line_start, occurs_at, put_all, sent_headers, wire_request, RequestView,
};
use vstd::prelude::*;

verus! {

/// The request of a client on which the request line was set, then the
/// credentials, then the headers in `written`, one after the other.
pub open spec fn built_request(
    base_address: Seq<char>,
    port: u32,
    req_type: RequestType,
    target: Seq<char>,
    user: Seq<char>,
    password: Seq<char>,
    written: Seq<(Seq<char>, Seq<char>)>,
) -> RequestView {
    let authorized = with_basic_auth(
        with_request(new_request(base_address, port), req_type, target),
        user,
        password,
    );
    RequestView { headers: put_all(authorized.headers, written), ..authorized }
}

/// Request framing. Take a client on which the request line was set, then
/// the credentials, then any headers. The bytes of its request are the
/// request line and a line ending, one line for each header, an empty line,
/// and the body. Among the headers are `Host`, `Authorization`, `Accept` and
/// `Content-Length` and every header that was set, each name once, and each
/// header's line stands in the header block.
pub proof fn law_request_framing(
    base_address: Seq<char>,
    port: u32,
    req_type: RequestType,
    target: Seq<char>,
    user: Seq<char>,
    password: Seq<char>,
    written: Seq<(Seq<char>, Seq<char>)>,
    body: Seq<u8>,
)
    ensures
        ({
            let request = built_request(
                base_address,
                port,
                req_type,
                target,
                user,
                password,
                written,
            );
            let sent = sent_headers(request.headers, body.len());
            &&& wire_request(request, body) == bytes_of(
                request_line_text(req_type, target) + "\r\n"@ + header_block(sent) + "\r\n"@,
            ) + body
            &&& has_header(sent, "Host"@)
            &&& has_header(sent, "Authorization"@)
            &&& header_value(sent, "Accept"@) == Some("*/*"@)
            &&& header_value(sent, "Content-Length"@) == Some(decimal(body.len()))
            &&& forall|i: int|
                0 <= i < written.len() ==> has_header(sent, (#[trigger] written[i]).0)
            &&& distinct_names(sent)
            &&& forall|i: int|
                0 <= i < sent.len() ==> occurs_at(
                    header_block(sent),
                    header_line(#[trigger] sent[i]),
                    line_start(sent, i),
                )
        }),
{
    let none = Seq::<(Seq<char>, Seq<char>)>::empty();
    let hosted = put_header(none, "Host"@, base_address);
    let authorized = put_header(hosted, "Authorization"@, authorization(user, password));
    let headers = put_all(authorized, written);
    let sent = sent_headers(headers, body.len());
    lemma_put_header_keeps(none, "Host"@, base_address, "Host"@);
    lemma_put_header_keeps(hosted, "Authorization"@, authorization(user, password), "Host"@);
    lemma_put_all_value(authorized, written, "Host"@);
    lemma_put_all_value(authorized, written, "Authorization"@);
    lemma_sent_headers(headers, body.len(), "Host"@);
    lemma_sent_headers(headers, body.len(), "Authorization"@);
    assert(distinct_names(none));
    lemma_put_header_distinct(none, "Host"@, base_address);
    lemma_put_header_distinct(hosted, "Authorization"@, authorization(user, password));
    lemma_put_all_distinct(authorized, written);
    assert forall|i: int| 0 <= i < written.len() implies has_header(
        sent,
        (#[trigger] written[i]).0,
    ) by {
        lemma_put_all_has(authorized, written, i);
        lemma_sent_headers(headers, body.len(), written[i].0);
    }
    assert forall|i: int| 0 <= i < sent.len() implies occurs_at(
        header_block(sent),
        header_line(#[trigger] sent[i]),
        line_start(sent, i),
    ) by {
        lemma_header_block_line(sent, i);
    }
}

/// Last write wins. Of the headers that go out with such a request,
/// `Accept` and `Content-Length` are as the client sets them on sending.
/// Every other name has the value that was set last for it; `Authorization`
/// and `Host`, where nothing was set for them later, have the credentials
/// and the client's host; and a name that was never set has no value.
pub proof fn law_last_write_wins(
    base_address: Seq<char>,
    port: u32,
    req_type: RequestType,
    target: Seq<char>,
    user: Seq<char>,
    password: Seq<char>,
    written: Seq<(Seq<char>, Seq<char>)>,
    body_len: nat,
    name: Seq<char>,
)
    ensures
        header_value(
            sent_headers(
                built_request(base_address, port, req_type, target, user, password, written).headers,
                body_len,
            ),
            name,
        ) == if same_name("Content-Length"@, name) {
            Some(decimal(body_len))
        } else if same_name("Accept"@, name) {
            Some("*/*"@)
        } else {
            match last_written(written, name) {
                Some(value) => Some(value),
                None => if same_name("Authorization"@, name) {
                    Some(authorization(user, password))
                } else if same_name("Host"@, name) {
                    Some(base_address)
                } else {
                    None
                },
            }
        },
{
    let none = Seq::<(Seq<char>, Seq<char>)>::empty();
    let hosted = put_header(none, "Host"@, base_address);
    let authorized = put_header(hosted, "Authorization"@, authorization(user, password));
    let headers = put_all(authorized, written);
    let accepting = put_header(headers, "Accept"@, "*/*"@);
    lemma_put_header_value(accepting, "Content-Length"@, decimal(body_len), name);
    lemma_put_header_value(headers, "Accept"@, "*/*"@, name);
    lemma_put_all_value(authorized, written, name);
    lemma_put_header_value(hosted, "Authorization"@, authorization(user, password), name);
    lemma_put_header_value(none, "Host"@, base_address, name);
    assert(!has_header(none, name));
}

/// Content-Length fidelity. The `Content-Length` that goes out with a
/// request is a decimal numeral whose value is the length of the body, and
/// the request ends with the body, byte for byte.
pub proof fn law_content_length(request: RequestView, body: Seq<u8>)
    ensures
        header_value(sent_headers(request.headers, body.len()), "Content-Length"@) == Some(
            decimal(body.len()),
        ),
        numeral_value(bytes_of(decimal(body.len()))) == Some(body.len()),
        wire_request(request, body).len() >= body.len(),
        wire_request(request, body).subrange(
            wire_request(request, body).len() - body.len(),
            wire_request(request, body).len() as int,
        ) == body,
{
    lemma_sent_headers(request.headers, body.len(), "Content-Length"@);
    lemma_decimal_value(body.len());
    let wire = wire_request(request, body);
    assert(wire.subrange(wire.len() - body.len(), wire.len() as int) =~= body);
}

/// Basic auth encoding. After the credentials are set on a request, its
/// `Authorization` header is `Basic`, a space, and the base64 encoding of
/// the user, a colon and the password.
pub proof fn law_basic_auth(request: RequestView, user: Seq<char>, password: Seq<char>)
    ensures
        header_value(with_basic_auth(request, user, password).headers, "Authorization"@) == Some(
            "Basic "@ + base64_block(bytes_of(user + ":"@ + password)),
        ),
{
    lemma_put_header_value(
        request.headers,
        "Authorization"@,
        authorization(user, password),
        "Authorization"@,
    );
}

} // verus!
