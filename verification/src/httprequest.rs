use crate::base64::{base64_block, encode_block, MAX_BLOCK_INPUT};
use crate::error::{ClientError, ClientErrorView};
use crate::headers::{distinct_names, lemma_put_header_distinct, put_header, set_in};
use crate::response::{
    has_line, is_delimiter_at, is_first_delimiter, is_line_end, is_status_line,
    lemma_first_delimiter, lemma_line_end, lemma_three_digits, parsed_response, status_code,
};
use crate::text::{
    bytes_of, decimal_text, lemma_ascii_bytes, lemma_boundary_after_ascii, lemma_bytes_of_concat,
    text_pairs,
};
use crate::wire::{header_block, header_line, request_head, sent_headers, wire_request, RequestView};
use vstd::prelude::*;
use vstd::utf8::encode_utf8_valid_utf8;

verus! {

/// Request types supported by the LiteHttpClient
/// For now, only the ones used by the nxcloudnotes application are supported
#[derive(Clone, Copy, Debug, PartialEq, Eq, Structural)]
pub enum RequestType {
    GET,
    PUT,
}

/// What a host answered: the status code, and the body as text.
#[derive(Debug, PartialEq)]
pub struct HttpResponse {
    pub response_code: u16,
    pub response_msg: String,
}

/// The word that names a request type on the wire.
pub open spec fn method_text(req_type: RequestType) -> Seq<char> {
    match req_type {
        RequestType::GET => "GET"@,
        RequestType::PUT => "PUT"@,
    }
}

/// The first line of a request, without its line ending.
pub open spec fn request_line_text(req_type: RequestType, remote_uri: Seq<char>) -> Seq<char> {
    method_text(req_type) + " "@ + remote_uri + " HTTP/1.1"@
}

/// What is encoded to log in: user and password with a colon between them.
pub open spec fn credentials(user: Seq<char>, password: Seq<char>) -> Seq<char> {
    user + ":"@ + password
}

/// True when the credentials are short enough for the encoder.
pub open spec fn basic_auth_fits(user: Seq<char>, password: Seq<char>) -> bool {
    bytes_of(credentials(user, password)).len() <= MAX_BLOCK_INPUT
}

/// The value of the `Authorization` header for basic authentication.
pub open spec fn authorization(user: Seq<char>, password: Seq<char>) -> Seq<char> {
    "Basic "@ + base64_block(bytes_of(credentials(user, password)))
}

/// The request of a new client: a request line that is still to be set, and
/// no headers.
pub open spec fn new_request(base_address: Seq<char>, port: u32) -> RequestView {
    RequestView {
        base_address: base_address,
        port: port,
        request_line: "/"@,
        headers: Seq::empty(),
    }
}

/// A request after its request line is set: the line is new, and `Host` is
/// set to the host of the request.
pub open spec fn with_request(
    request: RequestView,
    req_type: RequestType,
    remote_uri: Seq<char>,
) -> RequestView {
    RequestView {
        request_line: request_line_text(req_type, remote_uri),
        headers: put_header(request.headers, "Host"@, request.base_address),
        ..request
    }
}

/// A request after a header is set.
pub open spec fn with_header(request: RequestView, header: Seq<char>, value: Seq<char>) -> RequestView {
    RequestView { headers: put_header(request.headers, header, value), ..request }
}

/// A request after the credentials are set: `Authorization` is set for
/// basic authentication.
pub open spec fn with_basic_auth(
    request: RequestView,
    user: Seq<char>,
    password: Seq<char>,
) -> RequestView {
    with_header(request, "Authorization"@, authorization(user, password))
}

/// Whether the credentials are short enough for `basic_auth`.
pub fn credentials_fit(user: &str, password: &str) -> (fits: bool)
    ensures
        fits == basic_auth_fits(user@, password@),
{
    proof {
        reveal_strlit(":");
        lemma_ascii_bytes(":"@);
        lemma_bytes_of_concat(user@ + ":"@, password@);
        lemma_bytes_of_concat(user@, ":"@);
    }
    let user_len: usize = user.as_bytes().len();
    let password_len: usize = password.as_bytes().len();
    user_len < MAX_BLOCK_INPUT && password_len <= MAX_BLOCK_INPUT - 1 - user_len
}

/// The steps by which a request is built and sent. A client is used up by
/// sending: one client, one request.
///
/// A client may tell what request it holds and what sending may give. One
/// that tells nothing, which is the default, is held to nothing.
pub trait HttpRequest {
    /// The request that the client holds, where the client tells.
    open spec fn request(&self) -> Option<RequestView> {
        None
    }

    /// Whether sending the bytes `wire` to the client's host may end in
    /// `result`, as far as the client tells.
    open spec fn may_give(&self, wire: Seq<u8>, result: Result<HttpResponse, ClientError>) -> bool {
        true
    }

    fn set_request(self, req_type: RequestType, remote_uri: &str) -> (client: Self)
        ensures
            self.request() matches Some(before) ==> client.request() == Some(
                with_request(before, req_type, remote_uri@),
            ),
            forall|wire: Seq<u8>, result: Result<HttpResponse, ClientError>|
                #[trigger] client.may_give(wire, result) == self.may_give(wire, result),
    ;

    fn set_header(self, header: String, value: String) -> (client: Self)
        ensures
            self.request() matches Some(before) ==> client.request() == Some(
                with_header(before, header@, value@),
            ),
            forall|wire: Seq<u8>, result: Result<HttpResponse, ClientError>|
                #[trigger] client.may_give(wire, result) == self.may_give(wire, result),
    ;

    fn basic_auth(self, user: &str, password: &str) -> (client: Self)
        requires
            basic_auth_fits(user@, password@),
        ensures
            self.request() matches Some(before) ==> client.request() == Some(
                with_basic_auth(before, user@, password@),
            ),
            forall|wire: Seq<u8>, result: Result<HttpResponse, ClientError>|
                #[trigger] client.may_give(wire, result) == self.may_give(wire, result),
    ;

    fn send_bytes(self, bytes: &[u8]) -> (result: Result<HttpResponse, ClientError>)
        ensures
            self.request() matches Some(request) ==> self.may_give(
                wire_request(request, bytes@),
                result,
            ),
    ;
}

/// A lite http client for requests to a host over a secure connection. It is
/// built up step by step and then turned into the bytes of one request.
pub struct LiteHttpClient {
    base_address: String,
    port: u32,
    request_line: String,
    headers: Vec<(String, String)>,
}

impl View for LiteHttpClient {
    type V = RequestView;

    closed spec fn view(&self) -> RequestView {
        RequestView {
            base_address: self.base_address@,
            port: self.port,
            request_line: self.request_line@,
            headers: text_pairs(self.headers@),
        }
    }
}

impl LiteHttpClient {
    /// No two headers of a client have the same name.
    #[verifier::type_invariant]
    spec fn names_apart(self) -> bool {
        distinct_names(text_pairs(self.headers@))
    }

    pub fn new(base_address: String, port: u32) -> (client: Self)
        ensures
            client@ == new_request(base_address@, port),
    {
        let client = LiteHttpClient {
            base_address,
            port,
            request_line: String::from_str("/"),
            headers: Vec::new(),
        };
        assert(text_pairs(client.headers@) =~= Seq::empty());
        client
    }

    /// The host that requests go to.
    pub fn base_address(&self) -> (host: &str)
        ensures
            host@ == self@.base_address,
    {
        self.base_address.as_str()
    }

    /// The port that requests go to.
    pub fn port(&self) -> (port: u32)
        ensures
            port == self@.port,
    {
        self.port
    }

    /// Sets the request line, and the `Host` header to the client's host.
    pub fn set_request(self, req_type: RequestType, remote_uri: &str) -> (client: Self)
        ensures
            client@ == with_request(self@, req_type, remote_uri@),
            distinct_names(client@.headers),
    {
        let mut request_line: String = match req_type {
            RequestType::GET => String::from_str("GET"),
            RequestType::PUT => String::from_str("PUT"),
        };
        request_line.append(" ");
        request_line.append(remote_uri);
        request_line.append(" HTTP/1.1");
        let host: String = self.base_address.clone();
        let client: LiteHttpClient = self.set_header(String::from_str("Host"), host);
        proof {
            use_type_invariant(&client);
        }
        LiteHttpClient {
            base_address: client.base_address,
            port: client.port,
            request_line,
            headers: client.headers,
        }
    }

    /// Sets a header. A header of the same name, whatever the case of its
    /// letters, is replaced. Name and value are taken as they are.
    pub fn set_header(self, header: String, value: String) -> (client: Self)
        ensures
            client@ == with_header(self@, header@, value@),
            distinct_names(client@.headers),
    {
        proof {
            use_type_invariant(&self);
            lemma_put_header_distinct(self@.headers, header@, value@);
        }
        let mut headers: Vec<(String, String)> = self.headers;
        set_in(&mut headers, header, value);
        LiteHttpClient {
            base_address: self.base_address,
            port: self.port,
            request_line: self.request_line,
            headers,
        }
    }

    /// Sets the `Authorization` header for basic authentication.
    pub fn basic_auth(self, user: &str, password: &str) -> (client: Self)
        requires
            basic_auth_fits(user@, password@),
        ensures
            client@ == with_basic_auth(self@, user@, password@),
            distinct_names(client@.headers),
    {
        let mut user_and_password: String = String::from_str(user);
        user_and_password.append(":");
        user_and_password.append(password);
        let encoded: String = encode_block(user_and_password.as_str().as_bytes());
        let mut value: String = String::from_str("Basic ");
        value.append(encoded.as_str());
        self.set_header(String::from_str("Authorization"), value)
    }

    /// Turns the client into the bytes of its request with the given body.
    /// `Accept` and `Content-Length` are set on the way, whatever they were
    /// set to before.
    pub fn request_bytes(self, bytes: &[u8]) -> (wire: Vec<u8>)
        ensures
            wire@ == wire_request(self@, bytes@),
    {
        // accept all responses for now, as we aren't particulary interested in the response type
        // as much as the response code to indicate success or failure
        let client: LiteHttpClient = self.set_header(
            String::from_str("Accept"),
            String::from_str("*/*"),
        ).set_header(String::from_str("Content-Length"), decimal_text(bytes.len() as u128));
        let ghost headers: Seq<(Seq<char>, Seq<char>)> = text_pairs(client.headers@);
        assert(headers == sent_headers(self@.headers, bytes@.len()));

        let mut request_data: String = String::new();
        request_data.append(client.request_line.as_str());
        request_data.append("\r\n");
        let ghost start: Seq<char> = request_data@;
        assert(start =~= self@.request_line + "\r\n"@);
        assert(headers.subrange(0, 0) =~= Seq::empty());

        let mut i: usize = 0;
        while i < client.headers.len()
            invariant
                i <= client.headers@.len(),
                headers == text_pairs(client.headers@),
                request_data@ == start + header_block(headers.subrange(0, i as int)),
            decreases client.headers@.len() - i,
        {
            let ghost before: Seq<char> = request_data@;
            request_data.append(client.headers[i].0.as_str());
            request_data.append(": ");
            request_data.append(client.headers[i].1.as_str());
            request_data.append("\r\n");
            proof {
                assert(headers.subrange(0, i + 1).drop_last() =~= headers.subrange(0, i as int));
                assert(headers.subrange(0, i + 1).last() == headers[i as int]);
                assert(request_data@ =~= before + header_line(headers[i as int]));
                assert(request_data@ =~= start + header_block(headers.subrange(0, i + 1)));
            }
            i = i + 1;
        }
        assert(headers.subrange(0, i as int) =~= headers);
        // end of http request headers, indicated by the new-line
        request_data.append("\r\n");
        assert(request_data@ =~= request_head(self@, bytes@.len()));

        let mut wire: Vec<u8> = request_data.as_str().as_bytes_vec();
        wire.extend_from_slice(bytes);
        wire
    }
}

/// Reads the status code off a status line that ends at byte `lf`, if it is
/// one.
fn read_status_line(bytes: &[u8], lf: usize) -> (code: Option<u16>)
    requires
        lf < bytes@.len(),
    ensures
        match code {
            Some(code) => is_status_line(bytes@.subrange(0, lf + 1)) && code == status_code(
                bytes@.subrange(0, lf + 1),
            ),
            None => !is_status_line(bytes@.subrange(0, lf + 1)),
        },
{
    let ghost line: Seq<u8> = bytes@.subrange(0, lf + 1);
    if lf < 13 {
        return None;
    }
    assert(line.subrange(9, 12) =~= seq![bytes@[9], bytes@[10], bytes@[11]]);
    let well_framed: bool = bytes[lf - 1] == 0x0d && bytes[lf] == 0x0a && bytes[0] == 0x48
        && bytes[1] == 0x54 && bytes[2] == 0x54 && bytes[3] == 0x50 && bytes[4] == 0x2f
        && bytes[5] == 0x31 && bytes[6] == 0x2e && 0x30 <= bytes[7] && bytes[7] <= 0x39
        && bytes[8] == 0x20 && (lf == 13 || bytes[12] == 0x20);
    let three_digits: bool = 0x30 <= bytes[9] && bytes[9] <= 0x39 && 0x30 <= bytes[10]
        && bytes[10] <= 0x39 && 0x30 <= bytes[11] && bytes[11] <= 0x39;
    if !well_framed || !three_digits {
        return None;
    }
    proof {
        lemma_three_digits(line.subrange(9, 12));
    }
    let code: u16 = (bytes[9] - 0x30) as u16 * 100 + (bytes[10] - 0x30) as u16 * 10 + (bytes[11]
        - 0x30) as u16;
    if code < 100 || code > 599 {
        return None;
    }
    Some(code)
}

/// True when `result` is what reading the response text `raw` gives: the
/// status code and the body that the text holds, or a protocol error where
/// it holds none.
pub open spec fn is_parsed(raw: Seq<char>, result: Result<HttpResponse, ClientError>) -> bool {
    match result {
        Ok(response) => parsed_response(bytes_of(raw)) == Some(
            (response.response_code, bytes_of(response.response_msg@)),
        ),
        Err(error) => parsed_response(bytes_of(raw)) is None && error@
            == ClientErrorView::ProtocolError,
    }
}

/// Reads a response: the status code from the status line, and the body
/// from behind the first empty line after it. Anything that is not of this
/// form is a protocol error.
pub fn parse_response(raw: &str) -> (result: Result<HttpResponse, ClientError>)
    ensures
        is_parsed(raw@, result),
        result matches Ok(response) ==> 100 <= response.response_code <= 599,
{
    let bytes: &[u8] = raw.as_bytes();
    let n: usize = bytes.len();
    let mut lf: usize = 0;
    while lf < n && bytes[lf] != 0x0a
        invariant
            lf <= n,
            n == bytes@.len(),
            forall|j: int| 0 <= j < lf ==> #[trigger] bytes@[j] != 0x0a,
        decreases n - lf,
    {
        lf = lf + 1;
    }
    if lf == n {
        assert forall|i: int| !is_line_end(bytes@, i) by {
            if 0 <= i < n {
                assert(bytes@[i] != 0x0a);
            }
        }
        assert(!has_line(bytes@));
        return Err(ClientError::ProtocolError);
    }
    proof {
        lemma_line_end(bytes@, lf as int);
    }
    let response_code: u16 = match read_status_line(bytes, lf) {
        Some(code) => code,
        None => {
            return Err(ClientError::ProtocolError);
        },
    };
    let from: usize = lf + 1;
    let mut k: usize = from;
    let mut found: bool = false;
    while !found && n >= 4 && k <= n - 4
        invariant
            from <= k,
            n == bytes@.len(),
            forall|j: int| from <= j < k ==> !is_delimiter_at(bytes@, j),
            found ==> is_delimiter_at(bytes@, k as int),
        decreases
                n - k + (if found {
                    0int
                } else {
                    1int
                }),
    {
        if bytes[k] == 0x0d && bytes[k + 1] == 0x0a && bytes[k + 2] == 0x0d && bytes[k + 3]
            == 0x0a {
            found = true;
        } else {
            k = k + 1;
        }
    }
    if !found {
        assert forall|j: int| !is_first_delimiter(bytes@, from as int, j) by {
            if from <= j && j < k {
                assert(!is_delimiter_at(bytes@, j));
            }
        }
        return Err(ClientError::ProtocolError);
    }
    proof {
        lemma_first_delimiter(bytes@, from as int, k as int);
        encode_utf8_valid_utf8(raw@);
        lemma_boundary_after_ascii(bytes@, k + 3);
    }
    // body of the response is after /r/n/r/n, which is what we want
    let (_, second) = raw.split_at(k + 4);
    Ok(HttpResponse { response_code, response_msg: String::from_str(second) })
}

} // verus!
