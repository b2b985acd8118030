//! Errors of the SpiceAPI protocol and of the commands built on it.
use vstd::prelude::*;

use crate::strings::{append_str, decimal, push_decimal};

verus! {

/// The kind of an I/O error (the kinds of `std::io::ErrorKind`; `Other` stands for
/// every kind not listed here).
#[derive(Clone, Copy, Debug, PartialEq, Eq)]
pub enum IoErrorKind {
    NotFound,
    PermissionDenied,
    ConnectionRefused,
    ConnectionReset,
    ConnectionAborted,
    NotConnected,
    AddrInUse,
    AddrNotAvailable,
    BrokenPipe,
    AlreadyExists,
    WouldBlock,
    InvalidInput,
    InvalidData,
    TimedOut,
    WriteZero,
    Interrupted,
    Unsupported,
    UnexpectedEof,
    OutOfMemory,
    Other,
}

/// Errors that can occur during SpiceAPI protocol communication.
pub enum ProtocolError {
    /// The connection failed; holds the kind and the message of the I/O error.
    Connection(IoErrorKind, String),
    /// The server reported errors; holds them, one per line.
    Api(String),
    /// The server answered with an empty payload.
    MalformedResponse,
    /// The response carries another ID than the request.
    IdMismatch { expected: u64, actual: u64 },
    /// The response is not valid JSON; holds the message of the JSON error.
    Json(String),
    /// Every attempt failed; holds the error of the last attempt.
    RetriesExhausted { attempts: u32, source: Box<ProtocolError> },
}

/// The mathematical value of a protocol error.
pub enum ProtocolErrorView {
    Connection(IoErrorKind, Seq<char>),
    Api(Seq<char>),
    MalformedResponse,
    IdMismatch { expected: u64, actual: u64 },
    Json(Seq<char>),
    RetriesExhausted { attempts: u32, source: Box<ProtocolErrorView> },
}

impl View for ProtocolError {
    type V = ProtocolErrorView;

    open spec fn view(&self) -> ProtocolErrorView
        decreases self,
    {
        match self {
            ProtocolError::Connection(kind, m) => ProtocolErrorView::Connection(*kind, m@),
            ProtocolError::Api(m) => ProtocolErrorView::Api(m@),
            ProtocolError::MalformedResponse => ProtocolErrorView::MalformedResponse,
            ProtocolError::IdMismatch { expected, actual } => ProtocolErrorView::IdMismatch {
                expected: *expected,
                actual: *actual,
            },
            ProtocolError::Json(m) => ProtocolErrorView::Json(m@),
            ProtocolError::RetriesExhausted { attempts, source } => ProtocolErrorView::RetriesExhausted {
                attempts: *attempts,
                source: Box::new((**source).view()),
            },
        }
    }
}

/// The message that describes `e`.
pub open spec fn protocol_message(e: ProtocolErrorView) -> Seq<char>
    decreases e,
{
    match e {
        ProtocolErrorView::Connection(_, m) => "connection failed: "@ + m,
        ProtocolErrorView::Api(m) => "API error: "@ + m,
        ProtocolErrorView::MalformedResponse => "malformed response: server returned empty payload"@,
        ProtocolErrorView::IdMismatch { expected, actual } => "response ID mismatch: expected "@
            + decimal(expected as nat) + ", got "@ + decimal(actual as nat),
        ProtocolErrorView::Json(m) => "JSON error: "@ + m,
        ProtocolErrorView::RetriesExhausted { attempts, source } => "request failed after "@ + decimal(
            attempts as nat,
        ) + " attempts: "@ + protocol_message(*source),
    }
}


impl ProtocolError {
    /// Whether the server itself answered (an API error or a mismatched ID):
    /// such errors are final, where a failed transport may be retried.
    pub open spec fn is_server_answer(&self) -> bool {
        self@ is Api || self@ is IdMismatch
    }

    /// Whether this is an API error or an ID mismatch.
    pub fn server_answered(&self) -> (r: bool)
        ensures
            r == self.is_server_answer(),
    {
        match self {
            ProtocolError::Api(_) => true,
            ProtocolError::IdMismatch { .. } => true,
            _ => false,
        }
    }

    fn append_message(&self, buf: &mut String)
        ensures
            final(buf)@ == old(buf)@ + protocol_message(self@),
        decreases self,
    {
        match self {
            ProtocolError::Connection(_, m) => {
                append_str(buf, "connection failed: ");
                append_str(buf, m.as_str());
            },
            ProtocolError::Api(m) => {
                append_str(buf, "API error: ");
                append_str(buf, m.as_str());
            },
            ProtocolError::MalformedResponse => {
                append_str(buf, "malformed response: server returned empty payload");
            },
            ProtocolError::IdMismatch { expected, actual } => {
                append_str(buf, "response ID mismatch: expected ");
                push_decimal(buf, *expected);
                append_str(buf, ", got ");
                push_decimal(buf, *actual);
            },
            ProtocolError::Json(m) => {
                append_str(buf, "JSON error: ");
                append_str(buf, m.as_str());
            },
            ProtocolError::RetriesExhausted { attempts, source } => {
                append_str(buf, "request failed after ");
                push_decimal(buf, *attempts as u64);
                append_str(buf, " attempts: ");
                source.append_message(buf);
            },
        }
        assert(buf@ =~= old(buf)@ + protocol_message(self@));
    }

    /// The message that describes this error.
    pub fn message(&self) -> (r: String)
        ensures
            r@ == protocol_message(self@),
    {
        let mut buf = String::new();
        self.append_message(&mut buf);
        assert(buf@ =~= protocol_message(self@));
        buf
    }
}

/// Errors of a command: a failed request, or a response that the command cannot use.
pub enum CommandError {
    /// The request failed.
    Protocol(ProtocolError),
    /// The response carried no data; holds what was asked, such as `coin get`.
    EmptyResponse(String),
    /// The capture response carries no base64 image data.
    MissingImageData,
    /// The image data is not valid base64; holds the message of the decoding error.
    InvalidImageData(String),
}

/// The mathematical value of a command error.
pub enum CommandErrorView {
    Protocol(ProtocolErrorView),
    EmptyResponse(Seq<char>),
    MissingImageData,
    InvalidImageData(Seq<char>),
}

impl View for CommandError {
    type V = CommandErrorView;

    open spec fn view(&self) -> CommandErrorView {
        match self {
            CommandError::Protocol(p) => CommandErrorView::Protocol(p@),
            CommandError::EmptyResponse(what) => CommandErrorView::EmptyResponse(what@),
            CommandError::MissingImageData => CommandErrorView::MissingImageData,
            CommandError::InvalidImageData(m) => CommandErrorView::InvalidImageData(m@),
        }
    }
}

/// The message that describes `e`.
pub open spec fn command_message(e: CommandErrorView) -> Seq<char> {
    match e {
        CommandErrorView::Protocol(p) => protocol_message(p),
        CommandErrorView::EmptyResponse(what) => "empty response from "@ + what,
        CommandErrorView::MissingImageData => "missing base64 data in capture response"@,
        CommandErrorView::InvalidImageData(m) => m,
    }
}

impl CommandError {
    /// The message that describes this error.
    pub fn message(&self) -> (r: String)
        ensures
            r@ == command_message(self@),
    {
        match self {
            CommandError::Protocol(p) => p.message(),
            CommandError::EmptyResponse(what) => {
                let mut buf = String::new();
                append_str(&mut buf, "empty response from ");
                append_str(&mut buf, what.as_str());
                buf
            },
            CommandError::MissingImageData => {
                let mut buf = String::new();
                append_str(&mut buf, "missing base64 data in capture response");
                buf
            },
            CommandError::InvalidImageData(m) => m.clone(),
        }
    }
}

} // verus!
