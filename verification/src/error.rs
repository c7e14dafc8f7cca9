use crate::text::{decimal, decimal_text};
use vstd::prelude::*;

verus! {

/// Where on the way to the host a connection failed.
#[derive(Clone, Copy, Debug, PartialEq, Eq, Structural)]
pub enum NetworkErrorKind {
    Resolve,
    Connect,
    Io,
}

/// What is wrong with the configuration.
#[derive(Clone, Copy, Debug, PartialEq, Eq, Structural)]
pub enum ConfigErrorKind {
    /// No password is stored and none was given on the command line.
    MissingPassword,
    /// The stored configuration could not be read or written.
    Store,
    /// The stored configuration is no valid record.
    Format,
}

/// Why a note was not posted.
#[derive(Debug, PartialEq)]
pub enum ClientError {
    /// The host was not reached, or the connection broke.
    NetworkError(NetworkErrorKind),
    /// No secure connection could be set up.
    TlsError,
    /// The host's answer is no well-formed response.
    ProtocolError,
    /// The host refused the upload.
    UploadFailed { status: u16, body: String },
    /// The configuration does not allow the upload.
    ConfigError(ConfigErrorKind),
}

/// An error as plain values.
pub enum ClientErrorView {
    NetworkError(NetworkErrorKind),
    TlsError,
    ProtocolError,
    UploadFailed { status: u16, body: Seq<char> },
    ConfigError(ConfigErrorKind),
}

impl View for ClientError {
    type V = ClientErrorView;

    open spec fn view(&self) -> ClientErrorView {
        match self {
            ClientError::NetworkError(kind) => ClientErrorView::NetworkError(*kind),
            ClientError::TlsError => ClientErrorView::TlsError,
            ClientError::ProtocolError => ClientErrorView::ProtocolError,
            ClientError::UploadFailed { status, body } => ClientErrorView::UploadFailed {
                status: *status,
                body: body@,
            },
            ClientError::ConfigError(kind) => ClientErrorView::ConfigError(*kind),
        }
    }
}

/// The line that tells the user of an error.
pub open spec fn message_text(error: ClientErrorView) -> Seq<char> {
    match error {
        ClientErrorView::NetworkError(NetworkErrorKind::Resolve) => "Unable to resolve given host"@,
        ClientErrorView::NetworkError(NetworkErrorKind::Connect) => "Unable to connect to given host"@,
        ClientErrorView::NetworkError(NetworkErrorKind::Io) => "Connection to given host was lost"@,
        ClientErrorView::TlsError => "Unable to set up a secure connection to given host"@,
        ClientErrorView::ProtocolError => "Response of given host is malformed"@,
        ClientErrorView::UploadFailed { status, body } => "Reponse code "@ + decimal(status as nat)
            + " indicates failure uploading file:\r\n"@ + body,
        ClientErrorView::ConfigError(ConfigErrorKind::MissingPassword) => "You must provide a password with the -p argument if none is present in the applications config file"@,
        ClientErrorView::ConfigError(ConfigErrorKind::Store) => "An error occurred retrieving user config"@,
        ClientErrorView::ConfigError(ConfigErrorKind::Format) => "User config is not valid"@,
    }
}

impl ClientError {
    /// The line that tells the user of this error.
    pub fn message(&self) -> (text: String)
        ensures
            text@ == message_text(self@),
    {
        match self {
            ClientError::NetworkError(NetworkErrorKind::Resolve) => String::from_str(
                "Unable to resolve given host",
            ),
            ClientError::NetworkError(NetworkErrorKind::Connect) => String::from_str(
                "Unable to connect to given host",
            ),
            ClientError::NetworkError(NetworkErrorKind::Io) => String::from_str(
                "Connection to given host was lost",
            ),
            ClientError::TlsError => String::from_str(
                "Unable to set up a secure connection to given host",
            ),
            ClientError::ProtocolError => String::from_str("Response of given host is malformed"),
            ClientError::UploadFailed { status, body } => {
                let mut text: String = String::from_str("Reponse code ");
                let code: String = decimal_text(*status as u128);
                text.append(code.as_str());
                text.append(" indicates failure uploading file:\r\n");
                text.append(body.as_str());
                text
            },
            ClientError::ConfigError(ConfigErrorKind::MissingPassword) => String::from_str(
                "You must provide a password with the -p argument if none is present in the applications config file",
            ),
            ClientError::ConfigError(ConfigErrorKind::Store) => String::from_str(
                "An error occurred retrieving user config",
            ),
            ClientError::ConfigError(ConfigErrorKind::Format) => String::from_str(
                "User config is not valid",
            ),
        }
    }
}

} // verus!
