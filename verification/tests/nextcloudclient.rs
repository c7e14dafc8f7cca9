use nxcloudnotes::error::{ClientError, NetworkErrorKind};
use nxcloudnotes::httprequest::{
    parse_response, HttpRequest, HttpResponse, LiteHttpClient, RequestType,
};
use nxcloudnotes::nextcloudclient::{upload_outcome, upload_uri, NextCloudClient, UPLOADED};
use nxcloudnotes::transport::HttpSender;
use std::cell::RefCell;
use std::rc::Rc;

/// What a transport was called with.
type Sent = Rc<RefCell<Vec<(String, u32, Vec<u8>)>>>;

/// A transport that gives a fixed answer and keeps what it was called with.
fn canned(
    answer: Result<&'static str, ClientError>,
    sent: &Sent,
) -> impl FnOnce(String, u32, Vec<u8>) -> Result<String, ClientError> {
    let sent = sent.clone();
    move |host, port, request| {
        sent.borrow_mut().push((host, port, request));
        answer.map(|raw| raw.to_string())
    }
}

fn upload_to(
    answer: Result<&'static str, ClientError>,
    sent: &Sent,
    body: &[u8],
) -> Result<&'static str, ClientError> {
    let sender =
        HttpSender::new(LiteHttpClient::new("cloud.example".to_string(), 443), canned(answer, sent));
    let client = NextCloudClient::new(sender, "alice".to_string(), "s3cret".to_string());
    client.create_or_replace_file("/Notes/demo.txt", body)
}

fn sent_text(sent: &Sent) -> String {
    let calls = sent.borrow();
    assert_eq!(calls.len(), 1);
    assert_eq!(calls[0].0, "cloud.example");
    assert_eq!(calls[0].1, 443);
    String::from_utf8(calls[0].2.clone()).expect("the request is text")
}

/// A client of the test's own, which tells nothing of the request it holds.
struct Recorder {
    client: LiteHttpClient,
    answer: &'static str,
    steps: Rc<RefCell<Vec<String>>>,
}

impl HttpRequest for Recorder {
    fn set_request(self, req_type: RequestType, remote_uri: &str) -> Self {
        self.steps.borrow_mut().push(format!("set_request {:?} {}", req_type, remote_uri));
        Recorder { client: self.client.set_request(req_type, remote_uri), ..self }
    }

    fn set_header(self, header: String, value: String) -> Self {
        self.steps.borrow_mut().push(format!("set_header {} {}", header, value));
        Recorder { client: self.client.set_header(header, value), ..self }
    }

    fn basic_auth(self, user: &str, password: &str) -> Self {
        self.steps.borrow_mut().push(format!("basic_auth {} {}", user, password));
        Recorder { client: self.client.basic_auth(user, password), ..self }
    }

    fn send_bytes(self, bytes: &[u8]) -> Result<HttpResponse, ClientError> {
        self.steps.borrow_mut().push(format!("send_bytes {:?}", bytes));
        parse_response(self.answer)
    }
}

#[test]
fn happy_path() {
    let sent = Sent::default();
    let result = upload_to(Ok("HTTP/1.1 201 Created\r\nX-Foo: bar\r\n\r\n"), &sent, b"hi");
    assert_eq!(result, Ok("File uploaded successfully"));
    let wire = sent_text(&sent);
    assert!(wire.starts_with("PUT /remote.php/dav/files/alice/Notes/demo.txt HTTP/1.1\r\n"));
    assert!(wire.contains("\r\nAuthorization: Basic YWxpY2U6czNjcmV0\r\n"));
    assert!(wire.contains("\r\nContent-Length: 2\r\n"));
    assert!(wire.contains("\r\nHost: cloud.example\r\n"));
    assert!(wire.contains("\r\nOCS-APIRequest: true\r\n"));
    assert!(wire.contains("\r\nConnection: closed\r\n"));
    assert!(wire.contains("\r\nAccept: */*\r\n"));
    assert!(wire.ends_with("\r\n\r\nhi"));
    assert_eq!(
        wire,
        "PUT /remote.php/dav/files/alice/Notes/demo.txt HTTP/1.1\r\n\
Host: cloud.example\r\n\
Authorization: Basic YWxpY2U6czNjcmV0\r\n\
OCS-APIRequest: true\r\n\
Connection: closed\r\n\
Accept: */*\r\n\
Content-Length: 2\r\n\
\r\n\
hi"
    );
}

#[test]
fn failure_propagation() {
    let sent = Sent::default();
    let result = upload_to(
        Ok("HTTP/1.1 401 Unauthorized\r\nWWW-Authenticate: Basic\r\n\r\nno auth"),
        &sent,
        b"hi",
    );
    assert_eq!(
        result,
        Err(ClientError::UploadFailed { status: 401, body: "no auth".to_string() })
    );
}

#[test]
fn empty_body() {
    let sent = Sent::default();
    let result = upload_to(Ok("HTTP/1.1 201 Created\r\nX-Foo: bar\r\n\r\n"), &sent, b"");
    assert_eq!(result, Ok(UPLOADED));
    let wire = sent_text(&sent);
    assert!(wire.contains("\r\nContent-Length: 0\r\n"));
    assert!(wire.ends_with("\r\n\r\n"));
    assert_eq!(wire.matches("\r\n\r\n").count(), 1);
}

#[test]
fn malformed_status_line() {
    let sent = Sent::default();
    assert_eq!(upload_to(Ok("OOPS\r\n\r\n"), &sent, b"hi"), Err(ClientError::ProtocolError));
    assert_eq!(sent.borrow().len(), 1);
}

#[test]
fn transport_errors_are_handed_on() {
    for kind in [NetworkErrorKind::Resolve, NetworkErrorKind::Connect, NetworkErrorKind::Io] {
        let sent = Sent::default();
        assert_eq!(
            upload_to(Err(ClientError::NetworkError(kind)), &sent, b"hi"),
            Err(ClientError::NetworkError(kind))
        );
    }
    let sent = Sent::default();
    assert_eq!(upload_to(Err(ClientError::TlsError), &sent, b"hi"), Err(ClientError::TlsError));
}

#[test]
fn a_sender_is_built_like_its_client() {
    let sent = Sent::default();
    let sender = HttpSender::new(
        LiteHttpClient::new("h".to_string(), 8443),
        canned(Ok("HTTP/1.1 200 OK\r\nA: b\r\n\r\nbody"), &sent),
    );
    let result = sender
        .set_request(RequestType::GET, "/x")
        .set_header("X-One".to_string(), "1".to_string())
        .basic_auth("a", "b")
        .send_bytes(b"abc");
    assert_eq!(
        result,
        Ok(HttpResponse { response_code: 200, response_msg: "body".to_string() })
    );
    let expected = LiteHttpClient::new("h".to_string(), 8443)
        .set_request(RequestType::GET, "/x")
        .set_header("X-One".to_string(), "1".to_string())
        .basic_auth("a", "b")
        .request_bytes(b"abc");
    assert_eq!(*sent.borrow(), vec![("h".to_string(), 8443, expected)]);
}

#[test]
fn upload_takes_these_steps_on_any_client() {
    let steps = Rc::new(RefCell::new(Vec::new()));
    let recorder = Recorder {
        client: LiteHttpClient::new("h".to_string(), 1),
        answer: "HTTP/1.1 500 Oh\r\nA: b\r\n\r\nsorry",
        steps: steps.clone(),
    };
    let client = NextCloudClient::new(recorder, "bob".to_string(), "pw".to_string());
    assert_eq!(
        client.create_or_replace_file("/dir/file.txt", b"hi"),
        Err(ClientError::UploadFailed { status: 500, body: "sorry".to_string() })
    );
    assert_eq!(
        *steps.borrow(),
        vec![
            "set_request PUT /remote.php/dav/files/bob/dir/file.txt".to_string(),
            "basic_auth bob pw".to_string(),
            "set_header OCS-APIRequest true".to_string(),
            "set_header Connection closed".to_string(),
            "send_bytes [104, 105]".to_string(),
        ]
    );
}

#[test]
fn the_path_is_joined_as_it_is() {
    assert_eq!(upload_uri("alice", "/Notes/demo.txt"), "/remote.php/dav/files/alice/Notes/demo.txt");
    assert_eq!(upload_uri("alice", "Notes"), "/remote.php/dav/files/aliceNotes");
    assert_eq!(upload_uri("", ""), "/remote.php/dav/files/");
}

fn answered(code: u16, body: &str) -> Result<HttpResponse, ClientError> {
    Ok(HttpResponse { response_code: code, response_msg: body.to_string() })
}

#[test]
fn status_from_199_to_299_is_success() {
    for code in [199u16, 200, 201, 204, 250, 299] {
        assert_eq!(upload_outcome(answered(code, "ignored")), Ok("File uploaded successfully"));
    }
}

#[test]
fn every_other_status_is_a_failure_with_the_body() {
    for code in [0u16, 100, 198, 300, 301, 404, 500, 599, 65535] {
        assert_eq!(
            upload_outcome(answered(code, "why")),
            Err(ClientError::UploadFailed { status: code, body: "why".to_string() })
        );
    }
}

#[test]
fn an_error_instead_of_a_response_stays_as_it_is() {
    assert_eq!(upload_outcome(Err(ClientError::ProtocolError)), Err(ClientError::ProtocolError));
    assert_eq!(
        upload_outcome(Err(ClientError::UploadFailed { status: 200, body: "b".to_string() })),
        Err(ClientError::UploadFailed { status: 200, body: "b".to_string() })
    );
}
