use crate::error::{ClientError, ClientErrorView};
use crate::headers::{folded, has_header, lower, put_header, same_name};
use crate::httprequest::{
    authorization, basic_auth_fits, new_request, with_basic_auth, with_header, with_request,
    HttpRequest, HttpResponse, RequestType,
};
use crate::text::{bytes_of, decimal, lemma_ascii_bytes};
use crate::wire::{header_block, sent_headers, wire_request, RequestView};
use vstd::prelude::*;

verus! {

/// What a successful upload returns.
pub const UPLOADED: &'static str = "File uploaded successfully";

/// Uploads files to the account of one user, by requests that `T` builds
/// and sends.
pub struct NextCloudClient<T> where T: HttpRequest {
    request_builder: T,
    username: String,
    password: String,
}

/// The target of an upload: the user's files, then the path. The path is
/// joined as it is and is expected to begin with a slash.
pub open spec fn upload_target(username: Seq<char>, filepath: Seq<char>) -> Seq<char> {
    "/remote.php/dav/files/"@ + username + filepath
}

/// The status codes that count as success: from 199 up to, but not
/// including, 300.
pub open spec fn is_success(status: u16) -> bool {
    199 <= status < 300
}

/// True when `result` is how an upload ends after sending the request gave
/// `sent`. A response with a status code that counts as success is a
/// success. Every other response is a failure that carries the status code
/// and the body. Where no response was had, the error is handed on as it is.
pub open spec fn is_outcome(
    sent: Result<HttpResponse, ClientError>,
    result: Result<&str, ClientError>,
) -> bool {
    match sent {
        Ok(response) => if is_success(response.response_code) {
            result matches Ok(message) && message@ == UPLOADED@
        } else {
            result matches Err(error) && error@ == (ClientErrorView::UploadFailed {
                status: response.response_code,
                body: response.response_msg@,
            })
        },
        Err(failure) => result matches Err(error) && error@ == failure@,
    }
}

/// The target of an upload to `filepath` in the files of `username`.
pub fn upload_uri(username: &str, filepath: &str) -> (uri: String)
    ensures
        uri@ == upload_target(username@, filepath@),
{
    let mut uri: String = String::from_str("/remote.php/dav/files/");
    uri.append(username);
    uri.append(filepath);
    uri
}

/// Says how an upload ended, from what sending the request gave.
pub fn upload_outcome<'a>(sent: Result<HttpResponse, ClientError>) -> (result: Result<
    &'a str,
    ClientError,
>)
    ensures
        is_outcome(sent, result),
{
    match sent {
        Ok(call_result) => {
            // assume all these response codes are a success
            if 199 <= call_result.response_code && call_result.response_code < 300 {
                Ok(UPLOADED)
            } else {
                Err(
                    ClientError::UploadFailed {
                        status: call_result.response_code,
                        body: call_result.response_msg,
                    },
                )
            }
        },
        Err(error) => Err(error),
    }
}

impl<T: HttpRequest> NextCloudClient<T> {
    /// What requests are built with.
    pub closed spec fn request_builder(&self) -> T {
        self.request_builder
    }

    /// The user whose files are written.
    pub closed spec fn username(&self) -> Seq<char> {
        self.username@
    }

    /// The password of that user.
    pub closed spec fn password(&self) -> Seq<char> {
        self.password@
    }

    pub fn new(t: T, username: String, password: String) -> (client: Self)
        ensures
            client.request_builder() == t,
            client.username() == username@,
            client.password() == password@,
    {
        NextCloudClient { request_builder: t, username, password }
    }

    /// Uploads `content` to `filepath`, in place of what may be there. The
    /// request is a `PUT` to `upload_target` of the user and the path, with
    /// basic authentication and the headers `OCS-APIRequest: true` and
    /// `Connection: closed`. What sending it gives is for `T` to say; the
    /// result is the outcome of that, as `upload_outcome` judges it. Where
    /// `T` tells what request it holds, the bytes that are sent are those of
    /// `upload_request` with `content` for a body.
    pub fn create_or_replace_file<'a>(self, filepath: &str, content: &[u8]) -> (result: Result<
        &'a str,
        ClientError,
    >)
        requires
            basic_auth_fits(self.username(), self.password()),
        ensures
            exists|sent: Result<HttpResponse, ClientError>|
                #![trigger is_outcome(sent, result)]
                is_outcome(sent, result) && (self.request_builder().request() matches Some(
                    before,
                ) ==> self.request_builder().may_give(
                    wire_request(
                        upload_request(before, self.username(), self.password(), filepath@),
                        content@,
                    ),
                    sent,
                )),
            result matches Ok(message) ==> message@ == UPLOADED@,
    {
        let uri: String = upload_uri(self.username.as_str(), filepath);
        let call_result: Result<HttpResponse, ClientError> = self.request_builder.set_request(
            RequestType::PUT,
            uri.as_str(),
        ).basic_auth(self.username.as_str(), self.password.as_str()).set_header(
            String::from_str("OCS-APIRequest"),
            String::from_str("true"),
        ).set_header(String::from_str("Connection"), String::from_str("closed")).send_bytes(
            content,
        );
        upload_outcome(call_result)
    }
}

/// The request that an upload makes of the request `before`: a `PUT` to
/// the target in the user's files, with the credentials and with the
/// headers `OCS-APIRequest: true` and `Connection: closed`.
pub open spec fn upload_request(
    before: RequestView,
    username: Seq<char>,
    password: Seq<char>,
    filepath: Seq<char>,
) -> RequestView {
    with_header(
        with_header(
            with_basic_auth(
                with_request(before, RequestType::PUT, upload_target(username, filepath)),
                username,
                password,
            ),
            "OCS-APIRequest"@,
            "true"@,
        ),
        "Connection"@,
        "closed"@,
    )
}

/// The headers that go out with an upload, in their order.
pub open spec fn upload_sent_headers(
    base_address: Seq<char>,
    username: Seq<char>,
    password: Seq<char>,
    body_len: nat,
) -> Seq<(Seq<char>, Seq<char>)> {
    seq![
        ("Host"@, base_address),
        ("Authorization"@, authorization(username, password)),
        ("OCS-APIRequest"@, "true"@),
        ("Connection"@, "closed"@),
        ("Accept"@, "*/*"@),
        ("Content-Length"@, decimal(body_len)),
    ]
}

/// Status classification. An upload that had a response succeeds if and
/// only if the status code is from 199 up to, but not including, 300; where
/// it does not succeed, it fails with that status code and the body that was
/// received.
pub proof fn law_status_classification(response: HttpResponse, result: Result<&str, ClientError>)
    requires
        is_outcome(Ok(response), result),
    ensures
        result is Ok <==> 199 <= response.response_code < 300,
        result is Ok ==> result->Ok_0@ == UPLOADED@,
        result is Err ==> result->Err_0@ == (ClientErrorView::UploadFailed {
            status: response.response_code,
            body: response.response_msg@,
        }),
{
}

/// Names whose first letters differ are different names, if they are ASCII.
proof fn lemma_first_letter_tells_names_apart(a: Seq<char>, b: Seq<char>)
    requires
        vstd::utf8::is_ascii_chars(a),
        vstd::utf8::is_ascii_chars(b),
        a.len() > 0,
        b.len() > 0,
        lower(a[0] as u8) != lower(b[0] as u8),
    ensures
        !same_name(a, b),
{
    lemma_ascii_bytes(a);
    lemma_ascii_bytes(b);
    assert(folded(a)[0] == lower(bytes_of(a)[0]));
    assert(folded(b)[0] == lower(bytes_of(b)[0]));
}

/// A name that differs from the name of every header is not set, and
/// setting it adds a header at the end.
proof fn lemma_not_among(headers: Seq<(Seq<char>, Seq<char>)>, name: Seq<char>)
    requires
        forall|i: int| 0 <= i < headers.len() ==> !same_name((#[trigger] headers[i]).0, name),
    ensures
        !has_header(headers, name),
        forall|value: Seq<char>| put_header(headers, name, value) == headers.push((name, value)),
{
}

/// The six names of an upload's headers are six different names.
proof fn lemma_upload_names_apart()
    ensures
        !same_name("Host"@, "Authorization"@),
        !same_name("Host"@, "OCS-APIRequest"@),
        !same_name("Authorization"@, "OCS-APIRequest"@),
        !same_name("Host"@, "Connection"@),
        !same_name("Authorization"@, "Connection"@),
        !same_name("OCS-APIRequest"@, "Connection"@),
        !same_name("Host"@, "Accept"@),
        !same_name("Authorization"@, "Accept"@),
        !same_name("OCS-APIRequest"@, "Accept"@),
        !same_name("Connection"@, "Accept"@),
        !same_name("Host"@, "Content-Length"@),
        !same_name("Authorization"@, "Content-Length"@),
        !same_name("OCS-APIRequest"@, "Content-Length"@),
        !same_name("Connection"@, "Content-Length"@),
        !same_name("Accept"@, "Content-Length"@),
{
    reveal_strlit("Host");
    reveal_strlit("Authorization");
    reveal_strlit("OCS-APIRequest");
    reveal_strlit("Connection");
    reveal_strlit("Accept");
    reveal_strlit("Content-Length");
    lemma_ascii_bytes("Host"@);
    lemma_ascii_bytes("Authorization"@);
    lemma_ascii_bytes("OCS-APIRequest"@);
    lemma_ascii_bytes("Connection"@);
    lemma_ascii_bytes("Accept"@);
    lemma_ascii_bytes("Content-Length"@);
    assert(folded("Host"@).len() == 4);
    assert(folded("Authorization"@).len() == 13);
    assert(folded("OCS-APIRequest"@).len() == 14);
    assert(folded("Connection"@).len() == 10);
    assert(folded("Accept"@).len() == 6);
    assert(folded("Content-Length"@).len() == 14);
    lemma_first_letter_tells_names_apart("OCS-APIRequest"@, "Content-Length"@);
}

/// The wire format of an upload from a new client, byte for byte: the
/// request line with the target in the user's files, then `Host`,
/// `Authorization`, `OCS-APIRequest`, `Connection`, `Accept` and
/// `Content-Length`, each on a line of its own and in this order, an empty
/// line, and the body.
pub proof fn law_upload_wire_format(
    base_address: Seq<char>,
    port: u32,
    username: Seq<char>,
    password: Seq<char>,
    filepath: Seq<char>,
    body: Seq<u8>,
)
    ensures
        sent_headers(
            upload_request(new_request(base_address, port), username, password, filepath).headers,
            body.len(),
        ) == upload_sent_headers(base_address, username, password, body.len()),
        wire_request(
            upload_request(new_request(base_address, port), username, password, filepath),
            body,
        ) == bytes_of(
            "PUT"@ + " "@ + ("/remote.php/dav/files/"@ + username + filepath) + " HTTP/1.1"@
                + "\r\n"@ + header_block(
                upload_sent_headers(base_address, username, password, body.len()),
            ) + "\r\n"@,
        ) + body,
{
    let all = upload_sent_headers(base_address, username, password, body.len());
    let none = Seq::<(Seq<char>, Seq<char>)>::empty();
    lemma_upload_names_apart();
    lemma_not_among(none, "Host"@);
    let one = put_header(none, "Host"@, base_address);
    assert(one =~= all.subrange(0, 1));
    lemma_not_among(one, "Authorization"@);
    let two = put_header(one, "Authorization"@, authorization(username, password));
    assert(two =~= all.subrange(0, 2));
    lemma_not_among(two, "OCS-APIRequest"@);
    let three = put_header(two, "OCS-APIRequest"@, "true"@);
    assert(three =~= all.subrange(0, 3));
    lemma_not_among(three, "Connection"@);
    let four = put_header(three, "Connection"@, "closed"@);
    assert(four =~= all.subrange(0, 4));
    lemma_not_among(four, "Accept"@);
    let five = put_header(four, "Accept"@, "*/*"@);
    assert(five =~= all.subrange(0, 5));
    lemma_not_among(five, "Content-Length"@);
    let six = put_header(five, "Content-Length"@, decimal(body.len()));
    assert(six =~= all);
}

} // verus!
