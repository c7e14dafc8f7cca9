use crate::error::ClientError;
use crate::httprequest::{
    is_parsed, parse_response, HttpRequest, HttpResponse, LiteHttpClient, RequestType,
};
use crate::wire::RequestView;
use vstd::prelude::*;

verus! {

/// A `LiteHttpClient` together with the transport that its request goes
/// through. The transport takes the host, the port and the bytes of the
/// request; it gives back the text of the response, or the error that kept
/// it from having one. It is called once, on sending.
pub struct HttpSender<F: FnOnce(String, u32, Vec<u8>) -> Result<String, ClientError>> {
    client: LiteHttpClient,
    transport: F,
}

/// True when `result` is what reading the transport's answer gives: the
/// response that the text holds or a protocol error; and where the transport
/// failed, its error as it is.
pub open spec fn is_reading(
    answer: Result<String, ClientError>,
    result: Result<HttpResponse, ClientError>,
) -> bool {
    match answer {
        Ok(raw) => is_parsed(raw@, result),
        Err(failure) => result matches Err(error) && error@ == failure@,
    }
}

impl<F: FnOnce(String, u32, Vec<u8>) -> Result<String, ClientError>> HttpSender<F> {
    /// The transport can be called with whatever request the client holds.
    #[verifier::type_invariant]
    spec fn takes_every_request(self) -> bool {
        forall|host: String, port: u32, request: Vec<u8>|
            call_requires(self.transport, (host, port, request))
    }

    /// The request that the client holds.
    pub closed spec fn client(&self) -> RequestView {
        self.client@
    }

    /// The transport that the request goes through.
    pub closed spec fn transport(&self) -> F {
        self.transport
    }

    /// Joins a client to its transport. The transport has to take every
    /// request.
    pub fn new(client: LiteHttpClient, transport: F) -> (sender: Self)
        requires
            forall|host: String, port: u32, request: Vec<u8>|
                call_requires(transport, (host, port, request)),
        ensures
            sender.client() == client@,
            sender.transport() == transport,
    {
        HttpSender { client, transport }
    }
}

impl<F: FnOnce(String, u32, Vec<u8>) -> Result<String, ClientError>> HttpRequest for HttpSender<
    F,
> {
    open spec fn request(&self) -> Option<RequestView> {
        Some(self.client())
    }

    /// Sending `wire` may end in `result` when the transport, called with
    /// the client's host and port and with these bytes, may give an answer
    /// that reads as `result`.
    open spec fn may_give(&self, wire: Seq<u8>, result: Result<HttpResponse, ClientError>) -> bool {
        exists|host: String, request: Vec<u8>, answer: Result<String, ClientError>|
            host@ == self.client().base_address && request@ == wire && call_ensures(
                self.transport(),
                (host, self.client().port, request),
                answer,
            ) && is_reading(answer, result)
    }

    fn set_request(self, req_type: RequestType, remote_uri: &str) -> (client: Self) {
        proof {
            use_type_invariant(&self);
        }
        let client = HttpSender {
            client: self.client.set_request(req_type, remote_uri),
            transport: self.transport,
        };
        assert(client.client().base_address == self.client().base_address);
        assert(client.client().port == self.client().port);
        assert(client.transport() == self.transport());
        client
    }

    fn set_header(self, header: String, value: String) -> (client: Self) {
        proof {
            use_type_invariant(&self);
        }
        let client = HttpSender {
            client: self.client.set_header(header, value),
            transport: self.transport,
        };
        assert(client.client().base_address == self.client().base_address);
        assert(client.client().port == self.client().port);
        assert(client.transport() == self.transport());
        client
    }

    fn basic_auth(self, user: &str, password: &str) -> (client: Self) {
        proof {
            use_type_invariant(&self);
        }
        let client = HttpSender {
            client: self.client.basic_auth(user, password),
            transport: self.transport,
        };
        assert(client.client().base_address == self.client().base_address);
        assert(client.client().port == self.client().port);
        assert(client.transport() == self.transport());
        client
    }

    fn send_bytes(self, bytes: &[u8]) -> (result: Result<HttpResponse, ClientError>) {
        proof {
            use_type_invariant(&self);
        }
        let host: String = String::from_str(self.client.base_address());
        let port: u32 = self.client.port();
        let request: Vec<u8> = self.client.request_bytes(bytes);
        let ghost asked: (String, u32, Vec<u8>) = (host, port, request);
        let transport: F = self.transport;
        let answer: Result<String, ClientError> = transport(host, port, request);
        let ghost answered: Result<String, ClientError> = answer;
        let result: Result<HttpResponse, ClientError> = match answer {
            Ok(raw) => parse_response(raw.as_str()),
            Err(error) => Err(error),
        };
        assert(call_ensures(self.transport(), asked, answered) && is_reading(answered, result));
        result
    }
}

} // verus!
