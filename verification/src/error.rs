//! Typed failures: what a filesystem call reports, and how FTP failures map onto it.
use crate::text::{
    decimal, decimal_text, decode_utf8_bytes, trim_end, trim_end_text,
};
use vstd::prelude::*;
use vstd::utf8::*;

verus! {

/// What kind of failure a filesystem call reports.
#[derive(Clone, Copy, Debug, PartialEq, Eq, Structural)]
pub enum RemoteErrorType {
    /// A connection was requested while one was already established.
    AlreadyConnected,
    /// The connection is not established.
    NotConnected,
    /// The server rejected the credentials.
    AuthenticationFailed,
    /// The host address could not be parsed.
    BadAddress,
    /// The transport could not be established or was lost.
    ConnectionError,
    /// An entry already exists at the requested path.
    AlreadyExists,
    /// The entry exists but does not suit the operation.
    BadFile,
    /// A directory was removed while it still had entries.
    DirectoryNotEmpty,
    /// An input or output operation failed in some other way.
    IoError,
    /// No entry exists at the requested path.
    NoSuchFileOrDirectory,
    /// The server refused the operation.
    PermissionDenied,
    /// The path is relative or malformed.
    InvalidPath,
    /// The peer broke the protocol, or the client's state forbids the call.
    ProtocolError,
    /// The protocol has no such operation.
    UnsupportedFeature,
}

impl RemoteErrorType {
    /// The text that describes a kind.
    pub open spec fn text(self) -> Seq<char> {
        match self {
            RemoteErrorType::AlreadyConnected => "already connected"@,
            RemoteErrorType::NotConnected => "not connected yet"@,
            RemoteErrorType::AuthenticationFailed => "authentication failed"@,
            RemoteErrorType::BadAddress => "bad address syntax"@,
            RemoteErrorType::ConnectionError => "connection error"@,
            RemoteErrorType::AlreadyExists => "already exists"@,
            RemoteErrorType::BadFile => "bad file"@,
            RemoteErrorType::DirectoryNotEmpty => "directory is not empty"@,
            RemoteErrorType::IoError => "IO error"@,
            RemoteErrorType::NoSuchFileOrDirectory => "no such file or directory"@,
            RemoteErrorType::PermissionDenied => "not enough permissions"@,
            RemoteErrorType::InvalidPath => "invalid path"@,
            RemoteErrorType::ProtocolError => "protocol error"@,
            RemoteErrorType::UnsupportedFeature => "unsupported feature"@,
        }
    }

    /// Describes the kind.
    pub fn as_text(self) -> (r: &'static str)
        ensures
            r@ == self.text(),
    {
        match self {
            RemoteErrorType::AlreadyConnected => "already connected",
            RemoteErrorType::NotConnected => "not connected yet",
            RemoteErrorType::AuthenticationFailed => "authentication failed",
            RemoteErrorType::BadAddress => "bad address syntax",
            RemoteErrorType::ConnectionError => "connection error",
            RemoteErrorType::AlreadyExists => "already exists",
            RemoteErrorType::BadFile => "bad file",
            RemoteErrorType::DirectoryNotEmpty => "directory is not empty",
            RemoteErrorType::IoError => "IO error",
            RemoteErrorType::NoSuchFileOrDirectory => "no such file or directory",
            RemoteErrorType::PermissionDenied => "not enough permissions",
            RemoteErrorType::InvalidPath => "invalid path",
            RemoteErrorType::ProtocolError => "protocol error",
            RemoteErrorType::UnsupportedFeature => "unsupported feature",
        }
    }
}

/// The kinds of I/O failure that are told apart; every other one is `Other`.
#[derive(Clone, Copy, Debug, PartialEq, Eq, Structural)]
pub enum IoErrorKind {
    NotFound,
    PermissionDenied,
    AlreadyExists,
    NotConnected,
    InvalidInput,
    Unsupported,
    DirectoryNotEmpty,
    ConnectionRefused,
    ConnectionReset,
    ConnectionAborted,
    Other,
}

/// An I/O failure on a socket.
#[derive(Debug)]
pub struct IoError {
    pub kind: IoErrorKind,
    pub message: String,
}

/// What an [`IoError`] holds.
pub ghost struct IoErrorView {
    pub kind: IoErrorKind,
    pub message: Seq<char>,
}

impl View for IoError {
    type V = IoErrorView;

    open spec fn view(&self) -> IoErrorView {
        IoErrorView { kind: self.kind, message: self.message@ }
    }
}

impl Clone for IoError {
    fn clone(&self) -> (r: Self)
        ensures
            r@ == self@,
    {
        IoError { kind: self.kind, message: self.message.clone() }
    }
}

/// A complete reply of the server: its three-digit code and its text.
#[derive(Debug)]
pub struct Response {
    pub status: u32,
    pub body: Vec<u8>,
}

/// What a [`Response`] holds.
pub ghost struct ResponseView {
    pub status: u32,
    pub body: Seq<u8>,
}

impl View for Response {
    type V = ResponseView;

    open spec fn view(&self) -> ResponseView {
        ResponseView { status: self.status, body: self.body@ }
    }
}

impl Clone for Response {
    fn clone(&self) -> (r: Self)
        ensures
            r@ == self@,
    {
        let body = self.body.clone();
        assert(body@ == self.body@);
        Response { status: self.status, body }
    }
}

impl ResponseView {
    /// The reply as one line: its code in brackets, and its text where it is valid UTF-8.
    pub open spec fn text(self) -> Seq<char> {
        "["@ + decimal(self.status as nat) + "] "@ + if valid_utf8(self.body) {
            trim_end(decode_utf8(self.body))
        } else {
            Seq::empty()
        }
    }
}

impl Response {
    /// Describes the reply.
    pub fn to_text(&self) -> (r: String)
        ensures
            r@ == self@.text(),
    {
        let code = decimal_text(self.status as u64);
        let head = "[".to_string().concat(code.as_str()).concat("] ");
        match decode_utf8_bytes(self.body.as_slice()) {
            Some(body) => head.concat(trim_end_text(body.as_str())),
            None => {
                assert(head@ + Seq::<char>::empty() == head@);
                head
            },
        }
    }
}

/// `421`: the service closes the control connection.
pub const NOT_AVAILABLE: u32 = 421;

/// `425`: the data connection cannot be opened.
pub const CANNOT_OPEN_DATA_CONNECTION: u32 = 425;

/// `426`: the transfer was aborted.
pub const TRANSFER_ABORTED: u32 = 426;

/// `500`: the command is not recognised.
pub const BAD_COMMAND: u32 = 500;

/// `501`: the arguments are wrong.
pub const BAD_ARGUMENTS: u32 = 501;

/// `502`: the command is not implemented.
pub const NOT_IMPLEMENTED: u32 = 502;

/// `504`: the parameter is not implemented.
pub const NOT_IMPLEMENTED_PARAMETER: u32 = 504;

/// `530`: not logged in.
pub const NOT_LOGGED_IN: u32 = 530;

/// `532`: storing needs an account.
pub const STORING_NEED_ACCOUNT: u32 = 532;

/// `550`: the file is unavailable, for whatever reason.
pub const FILE_UNAVAILABLE: u32 = 550;

/// `553`: the file name is not allowed.
pub const BAD_FILENAME: u32 = 553;

/// A failure of an FTP command or of its transport.
#[derive(Debug)]
pub enum FtpError {
    /// The transport failed.
    ConnectionError(IoError),
    /// TLS failed.
    SecureError(String),
    /// The server answered with a code that refuses the command.
    UnexpectedResponse(Response),
    /// A reply could not be read.
    BadResponse,
    /// An address could not be parsed.
    InvalidAddress(String),
    /// A data connection is open already.
    DataConnectionAlreadyOpen,
}

/// What an [`FtpError`] holds.
pub ghost enum FtpErrorView {
    ConnectionError(IoErrorView),
    SecureError(Seq<char>),
    UnexpectedResponse(ResponseView),
    BadResponse,
    InvalidAddress(Seq<char>),
    DataConnectionAlreadyOpen,
}

impl View for FtpError {
    type V = FtpErrorView;

    open spec fn view(&self) -> FtpErrorView {
        match *self {
            FtpError::ConnectionError(e) => FtpErrorView::ConnectionError(e@),
            FtpError::SecureError(m) => FtpErrorView::SecureError(m@),
            FtpError::UnexpectedResponse(r) => FtpErrorView::UnexpectedResponse(r@),
            FtpError::BadResponse => FtpErrorView::BadResponse,
            FtpError::InvalidAddress(m) => FtpErrorView::InvalidAddress(m@),
            FtpError::DataConnectionAlreadyOpen => FtpErrorView::DataConnectionAlreadyOpen,
        }
    }
}

impl Clone for FtpError {
    fn clone(&self) -> (r: Self)
        ensures
            r@ == self@,
    {
        match self {
            FtpError::ConnectionError(e) => FtpError::ConnectionError(e.clone()),
            FtpError::SecureError(m) => FtpError::SecureError(m.clone()),
            FtpError::UnexpectedResponse(r) => FtpError::UnexpectedResponse(r.clone()),
            FtpError::BadResponse => FtpError::BadResponse,
            FtpError::InvalidAddress(m) => FtpError::InvalidAddress(m.clone()),
            FtpError::DataConnectionAlreadyOpen => FtpError::DataConnectionAlreadyOpen,
        }
    }
}

impl FtpErrorView {
    /// The text that describes the failure.
    pub open spec fn text(self) -> Seq<char> {
        match self {
            FtpErrorView::ConnectionError(e) => "Connection error: "@ + e.message,
            FtpErrorView::SecureError(m) => "Secure error: "@ + m,
            FtpErrorView::UnexpectedResponse(r) => "Invalid response: "@ + r.text(),
            FtpErrorView::BadResponse => "Response contains an invalid syntax"@,
            FtpErrorView::InvalidAddress(m) => "Invalid address: "@ + m,
            FtpErrorView::DataConnectionAlreadyOpen => "Data connection is already open"@,
        }
    }

    /// Whether the failure is a reply with the code `status`.
    pub open spec fn refused_with(self, status: u32) -> bool {
        self is UnexpectedResponse && self->UnexpectedResponse_0.status == status
    }
}

impl FtpError {
    /// Describes the failure.
    pub fn to_text(&self) -> (r: String)
        ensures
            r@ == self@.text(),
    {
        match self {
            FtpError::ConnectionError(e) => "Connection error: ".to_string().concat(
                e.message.as_str(),
            ),
            FtpError::SecureError(m) => "Secure error: ".to_string().concat(m.as_str()),
            FtpError::UnexpectedResponse(r) => {
                let reply = r.to_text();
                "Invalid response: ".to_string().concat(reply.as_str())
            },
            FtpError::BadResponse => "Response contains an invalid syntax".to_string(),
            FtpError::InvalidAddress(m) => "Invalid address: ".to_string().concat(m.as_str()),
            FtpError::DataConnectionAlreadyOpen => "Data connection is already open".to_string(),
        }
    }
}

/// Why a `LIST` row could not be parsed.
#[derive(Clone, Copy, Debug, PartialEq, Eq, Structural)]
pub enum ParseError {
    SyntaxError,
    InvalidDate,
    BadSize,
}

impl ParseError {
    /// The text that describes the failure.
    pub open spec fn text(self) -> Seq<char> {
        match self {
            ParseError::SyntaxError => "Syntax error: invalid line"@,
            ParseError::InvalidDate => "Invalid date"@,
            ParseError::BadSize => "Bad file size"@,
        }
    }

    /// Describes the failure.
    pub fn as_text(self) -> (r: &'static str)
        ensures
            r@ == self.text(),
    {
        match self {
            ParseError::SyntaxError => "Syntax error: invalid line",
            ParseError::InvalidDate => "Invalid date",
            ParseError::BadSize => "Bad file size",
        }
    }
}

/// A failed filesystem call: its kind, and what caused it where that is known.
#[derive(Debug)]
pub struct RemoteError {
    pub kind: RemoteErrorType,
    pub source: Option<Cause>,
}

/// What caused a [`RemoteError`].
///
/// The last four hold two failures of one transfer: the one that came first, and the one of the
/// completion reply that was read all the same.
#[derive(Debug)]
pub enum Cause {
    /// A message for people.
    Message(String),
    /// An I/O failure.
    Io(IoError),
    /// An FTP failure.
    Ftp(FtpError),
    /// A `LIST` row that could not be parsed.
    List(ParseError),
    /// A failure of another kind that this one refines.
    Remote(Box<RemoteError>),
    /// Reading a listing and completing it failed.
    ListCleanup { read: Box<RemoteError>, finish: Box<RemoteError> },
    /// Draining a download and completing it failed.
    ReadCleanup { drain: Box<RemoteError>, finish: Box<RemoteError> },
    /// Skipping the prefix of a download and completing it failed.
    SkipCleanup { skip: Box<RemoteError>, finish: Box<RemoteError> },
    /// Flushing an upload and completing it failed.
    WriteCleanup { flush: Box<RemoteError>, finish: Box<RemoteError> },
}

/// What a [`RemoteError`] holds.
pub ghost struct ErrorView {
    pub kind: RemoteErrorType,
    pub source: Option<CauseView>,
}

/// What a [`Cause`] holds.
pub ghost enum CauseView {
    Message(Seq<char>),
    Io(IoErrorView),
    Ftp(FtpErrorView),
    List(ParseError),
    Remote(Box<ErrorView>),
    ListCleanup { read: Box<ErrorView>, finish: Box<ErrorView> },
    ReadCleanup { drain: Box<ErrorView>, finish: Box<ErrorView> },
    SkipCleanup { skip: Box<ErrorView>, finish: Box<ErrorView> },
    WriteCleanup { flush: Box<ErrorView>, finish: Box<ErrorView> },
}

impl RemoteError {
    /// What the error holds.
    pub open spec fn model(self) -> ErrorView
        decreases self,
    {
        ErrorView {
            kind: self.kind,
            source: match self.source {
                Some(cause) => Some(cause.model()),
                None => None,
            },
        }
    }
}

impl Cause {
    /// What the cause holds.
    pub open spec fn model(self) -> CauseView
        decreases self,
    {
        match self {
            Cause::Message(m) => CauseView::Message(m@),
            Cause::Io(e) => CauseView::Io(e@),
            Cause::Ftp(e) => CauseView::Ftp(e@),
            Cause::List(e) => CauseView::List(e),
            Cause::Remote(e) => CauseView::Remote(Box::new(e.model())),
            Cause::ListCleanup { read, finish } => CauseView::ListCleanup {
                read: Box::new(read.model()),
                finish: Box::new(finish.model()),
            },
            Cause::ReadCleanup { drain, finish } => CauseView::ReadCleanup {
                drain: Box::new(drain.model()),
                finish: Box::new(finish.model()),
            },
            Cause::SkipCleanup { skip, finish } => CauseView::SkipCleanup {
                skip: Box::new(skip.model()),
                finish: Box::new(finish.model()),
            },
            Cause::WriteCleanup { flush, finish } => CauseView::WriteCleanup {
                flush: Box::new(flush.model()),
                finish: Box::new(finish.model()),
            },
        }
    }
}

impl View for RemoteError {
    type V = ErrorView;

    open spec fn view(&self) -> ErrorView {
        self.model()
    }
}

impl View for Cause {
    type V = CauseView;

    open spec fn view(&self) -> CauseView {
        self.model()
    }
}

impl Clone for RemoteError {
    fn clone(&self) -> (r: Self)
        ensures
            r@ == self@,
        decreases self,
    {
        let source = match &self.source {
            Some(cause) => Some(cause.clone()),
            None => None,
        };
        RemoteError { kind: self.kind, source }
    }
}

impl Clone for Cause {
    fn clone(&self) -> (r: Self)
        ensures
            r@ == self@,
        decreases self,
    {
        match self {
            Cause::Message(m) => Cause::Message(m.clone()),
            Cause::Io(e) => Cause::Io(e.clone()),
            Cause::Ftp(e) => Cause::Ftp(e.clone()),
            Cause::List(e) => Cause::List(*e),
            Cause::Remote(e) => Cause::Remote(Box::new((&**e).clone())),
            Cause::ListCleanup { read, finish } => Cause::ListCleanup {
                read: Box::new((&**read).clone()),
                finish: Box::new((&**finish).clone()),
            },
            Cause::ReadCleanup { drain, finish } => Cause::ReadCleanup {
                drain: Box::new((&**drain).clone()),
                finish: Box::new((&**finish).clone()),
            },
            Cause::SkipCleanup { skip, finish } => Cause::SkipCleanup {
                skip: Box::new((&**skip).clone()),
                finish: Box::new((&**finish).clone()),
            },
            Cause::WriteCleanup { flush, finish } => Cause::WriteCleanup {
                flush: Box::new((&**flush).clone()),
                finish: Box::new((&**finish).clone()),
            },
        }
    }
}

impl ErrorView {
    /// A failure without a cause.
    pub open spec fn plain(kind: RemoteErrorType) -> ErrorView {
        ErrorView { kind, source: None }
    }

    /// A failure that a message explains.
    pub open spec fn message(kind: RemoteErrorType, message: Seq<char>) -> ErrorView {
        ErrorView { kind, source: Some(CauseView::Message(message)) }
    }

    /// A failure that an FTP failure caused.
    pub open spec fn ftp(kind: RemoteErrorType, err: FtpErrorView) -> ErrorView {
        ErrorView { kind, source: Some(CauseView::Ftp(err)) }
    }

    /// A failure that refines another.
    pub open spec fn remote(kind: RemoteErrorType, err: ErrorView) -> ErrorView {
        ErrorView { kind, source: Some(CauseView::Remote(Box::new(err))) }
    }

    /// The text that describes the failure, with that of its cause in brackets.
    pub open spec fn text(self) -> Seq<char>
        decreases self,
    {
        match self.source {
            Some(cause) => self.kind.text() + " ("@ + cause.text() + ")"@,
            None => self.kind.text(),
        }
    }

    /// The FTP failure that is found first on the chain of causes.
    pub open spec fn first_ftp(self) -> Option<FtpErrorView>
        decreases self,
    {
        match self.source {
            Some(cause) => cause.first_ftp(),
            None => None,
        }
    }

    /// The reply code that is found first on the chain of causes.
    pub open spec fn first_reply(self) -> Option<u32>
        decreases self,
    {
        match self.source {
            Some(cause) => cause.first_reply(),
            None => None,
        }
    }
}

/// Two failures of one transfer, each after its own label.
pub open spec fn both_texts(
    first_label: Seq<char>,
    first: Seq<char>,
    second_label: Seq<char>,
    second: Seq<char>,
) -> Seq<char> {
    first_label + first + second_label + second
}

impl CauseView {
    /// The text that describes the cause.
    pub open spec fn text(self) -> Seq<char>
        decreases self,
    {
        match self {
            CauseView::Message(m) => m,
            CauseView::Io(e) => e.message,
            CauseView::Ftp(e) => e.text(),
            CauseView::List(e) => e.text(),
            CauseView::Remote(e) => e.text(),
            CauseView::ListCleanup { read, finish } => both_texts(
                "LIST read failed: "@,
                read.text(),
                "; completion failed: "@,
                finish.text(),
            ),
            CauseView::ReadCleanup { drain, finish } => both_texts(
                "drain failed: "@,
                drain.text(),
                "; finalization failed: "@,
                finish.text(),
            ),
            CauseView::SkipCleanup { skip, finish } => both_texts(
                "prefix skip failed: "@,
                skip.text(),
                "; finalization failed: "@,
                finish.text(),
            ),
            CauseView::WriteCleanup { flush, finish } => both_texts(
                "flush failed: "@,
                flush.text(),
                "; finalization failed: "@,
                finish.text(),
            ),
        }
    }

    /// The FTP failure that is found first on the chain of causes.
    pub open spec fn first_ftp(self) -> Option<FtpErrorView>
        decreases self,
    {
        match self {
            CauseView::Ftp(e) => Some(e),
            CauseView::Remote(e) => e.first_ftp(),
            CauseView::ListCleanup { read, finish } => finish.first_ftp(),
            CauseView::ReadCleanup { drain, finish } => finish.first_ftp(),
            CauseView::SkipCleanup { skip, finish } => finish.first_ftp(),
            CauseView::WriteCleanup { flush, finish } => finish.first_ftp(),
            _ => None,
        }
    }

    /// The reply code that is found first on the chain of causes.
    pub open spec fn first_reply(self) -> Option<u32>
        decreases self,
    {
        match self {
            CauseView::Ftp(FtpErrorView::UnexpectedResponse(response)) => Some(response.status),
            CauseView::Remote(e) => e.first_reply(),
            CauseView::ListCleanup { read, finish } => finish.first_reply(),
            CauseView::ReadCleanup { drain, finish } => finish.first_reply(),
            CauseView::SkipCleanup { skip, finish } => finish.first_reply(),
            CauseView::WriteCleanup { flush, finish } => finish.first_reply(),
            _ => None,
        }
    }
}

/// Renders two failures of one transfer.
fn both_failures(first_label: &str, first: &str, second_label: &str, second: &str) -> (r: String)
    ensures
        r@ == both_texts(first_label@, first@, second_label@, second@),
{
    first_label.to_string().concat(first).concat(second_label).concat(second)
}

impl Cause {
    /// Describes the cause.
    pub fn to_text(&self) -> (r: String)
        ensures
            r@ == self@.text(),
        decreases self,
    {
        match self {
            Cause::Message(m) => m.clone(),
            Cause::Io(e) => e.message.clone(),
            Cause::Ftp(e) => e.to_text(),
            Cause::List(e) => e.as_text().to_string(),
            Cause::Remote(e) => e.to_text(),
            Cause::ListCleanup { read, finish } => {
                let first = read.to_text();
                let second = finish.to_text();
                both_failures(
                    "LIST read failed: ",
                    first.as_str(),
                    "; completion failed: ",
                    second.as_str(),
                )
            },
            Cause::ReadCleanup { drain, finish } => {
                let first = drain.to_text();
                let second = finish.to_text();
                both_failures(
                    "drain failed: ",
                    first.as_str(),
                    "; finalization failed: ",
                    second.as_str(),
                )
            },
            Cause::SkipCleanup { skip, finish } => {
                let first = skip.to_text();
                let second = finish.to_text();
                both_failures(
                    "prefix skip failed: ",
                    first.as_str(),
                    "; finalization failed: ",
                    second.as_str(),
                )
            },
            Cause::WriteCleanup { flush, finish } => {
                let first = flush.to_text();
                let second = finish.to_text();
                both_failures(
                    "flush failed: ",
                    first.as_str(),
                    "; finalization failed: ",
                    second.as_str(),
                )
            },
        }
    }

    /// The FTP failure that is found first, following the chain of causes.
    fn find_ftp(&self) -> (r: Option<&FtpError>)
        ensures
            match r {
                Some(e) => self@.first_ftp() == Some(e@),
                None => self@.first_ftp() is None,
            },
        decreases self,
    {
        match self {
            Cause::Ftp(e) => Some(e),
            Cause::Remote(e) => e.find_ftp(),
            Cause::ListCleanup { read: _, finish } => finish.find_ftp(),
            Cause::ReadCleanup { drain: _, finish } => finish.find_ftp(),
            Cause::SkipCleanup { skip: _, finish } => finish.find_ftp(),
            Cause::WriteCleanup { flush: _, finish } => finish.find_ftp(),
            _ => None,
        }
    }

    /// The reply code that is found first, following the chain of causes.
    fn find_reply(&self) -> (r: Option<u32>)
        ensures
            r == self@.first_reply(),
        decreases self,
    {
        match self {
            Cause::Ftp(FtpError::UnexpectedResponse(response)) => Some(response.status),
            Cause::Remote(e) => e.find_reply(),
            Cause::ListCleanup { read: _, finish } => finish.find_reply(),
            Cause::ReadCleanup { drain: _, finish } => finish.find_reply(),
            Cause::SkipCleanup { skip: _, finish } => finish.find_reply(),
            Cause::WriteCleanup { flush: _, finish } => finish.find_reply(),
            _ => None,
        }
    }
}

impl RemoteError {
    /// A failure without a cause.
    pub fn new(kind: RemoteErrorType) -> (r: Self)
        ensures
            r@ == ErrorView::plain(kind),
    {
        RemoteError { kind, source: None }
    }

    /// A failure that a message explains.
    pub fn with_message(kind: RemoteErrorType, message: &str) -> (r: Self)
        ensures
            r@ == ErrorView::message(kind, message@),
    {
        RemoteError { kind, source: Some(Cause::Message(message.to_string())) }
    }

    /// A failure that an FTP failure caused.
    pub fn with_ftp(kind: RemoteErrorType, err: FtpError) -> (r: Self)
        ensures
            r@ == ErrorView::ftp(kind, err@),
    {
        RemoteError { kind, source: Some(Cause::Ftp(err)) }
    }

    /// A failure that refines another.
    pub fn with_remote(kind: RemoteErrorType, err: RemoteError) -> (r: Self)
        ensures
            r@ == ErrorView::remote(kind, err@),
    {
        RemoteError { kind, source: Some(Cause::Remote(Box::new(err))) }
    }

    /// The kind of the failure.
    pub fn kind(&self) -> (r: RemoteErrorType)
        ensures
            r == self@.kind,
    {
        self.kind
    }

    /// Describes the failure, with its cause in brackets.
    pub fn to_text(&self) -> (r: String)
        ensures
            r@ == self@.text(),
        decreases self,
    {
        match &self.source {
            Some(cause) => {
                let detail = cause.to_text();
                self.kind.as_text().to_string().concat(" (").concat(detail.as_str()).concat(")")
            },
            None => self.kind.as_text().to_string(),
        }
    }

    fn find_ftp(&self) -> (r: Option<&FtpError>)
        ensures
            match r {
                Some(e) => self@.first_ftp() == Some(e@),
                None => self@.first_ftp() is None,
            },
        decreases self,
    {
        match &self.source {
            Some(cause) => cause.find_ftp(),
            None => None,
        }
    }

    fn find_reply(&self) -> (r: Option<u32>)
        ensures
            r == self@.first_reply(),
        decreases self,
    {
        match &self.source {
            Some(cause) => cause.find_reply(),
            None => None,
        }
    }
}

/// The kind of failure that a refusing reply code stands for.
pub open spec fn status_kind_of(status: u32) -> RemoteErrorType {
    if status == NOT_AVAILABLE || status == CANNOT_OPEN_DATA_CONNECTION || status
        == TRANSFER_ABORTED {
        RemoteErrorType::ConnectionError
    } else if status == NOT_LOGGED_IN {
        RemoteErrorType::AuthenticationFailed
    } else if status == STORING_NEED_ACCOUNT || status == BAD_FILENAME {
        RemoteErrorType::PermissionDenied
    } else if status == FILE_UNAVAILABLE {
        RemoteErrorType::NoSuchFileOrDirectory
    } else if status == BAD_COMMAND || status == BAD_ARGUMENTS || status == NOT_IMPLEMENTED
        || status == NOT_IMPLEMENTED_PARAMETER {
        RemoteErrorType::UnsupportedFeature
    } else {
        RemoteErrorType::ProtocolError
    }
}

/// The kind of failure that an FTP failure stands for.
pub open spec fn ftp_kind(err: FtpErrorView) -> RemoteErrorType {
    match err {
        FtpErrorView::ConnectionError(_) => RemoteErrorType::ConnectionError,
        FtpErrorView::SecureError(_) => RemoteErrorType::ConnectionError,
        FtpErrorView::InvalidAddress(_) => RemoteErrorType::BadAddress,
        FtpErrorView::UnexpectedResponse(response) => status_kind_of(response.status),
        FtpErrorView::BadResponse => RemoteErrorType::ProtocolError,
        FtpErrorView::DataConnectionAlreadyOpen => RemoteErrorType::ProtocolError,
    }
}

/// The failure that an FTP failure is reported as.
pub open spec fn ftp_failure(err: FtpErrorView) -> ErrorView {
    ErrorView::ftp(ftp_kind(err), err)
}

/// Converts an FTP failure into a [`RemoteError`] that keeps `err` as its cause.
///
/// | failure                        | kind                    |
/// | ------------------------------ | ----------------------- |
/// | transport or TLS error         | `ConnectionError`       |
/// | `421`, `425`, `426`            | `ConnectionError`       |
/// | `530`                          | `AuthenticationFailed`  |
/// | `532`, `553`                   | `PermissionDenied`      |
/// | `550`                          | `NoSuchFileOrDirectory` |
/// | `500`, `501`, `502`, `504`     | `UnsupportedFeature`    |
/// | invalid address                | `BadAddress`            |
/// | anything else                  | `ProtocolError`         |
pub fn ftp_error(err: FtpError) -> (r: RemoteError)
    ensures
        r@ == ftp_failure(err@),
{
    let kind = match &err {
        FtpError::ConnectionError(_) => RemoteErrorType::ConnectionError,
        FtpError::SecureError(_) => RemoteErrorType::ConnectionError,
        FtpError::InvalidAddress(_) => RemoteErrorType::BadAddress,
        FtpError::UnexpectedResponse(response) => status_kind(response.status),
        FtpError::BadResponse => RemoteErrorType::ProtocolError,
        FtpError::DataConnectionAlreadyOpen => RemoteErrorType::ProtocolError,
    };
    RemoteError::with_ftp(kind, err)
}

/// Classifies a reply code with which the server refused a command.
pub fn status_kind(status: u32) -> (r: RemoteErrorType)
    ensures
        r == status_kind_of(status),
{
    match status {
        NOT_AVAILABLE | CANNOT_OPEN_DATA_CONNECTION | TRANSFER_ABORTED => {
            RemoteErrorType::ConnectionError
        },
        NOT_LOGGED_IN => RemoteErrorType::AuthenticationFailed,
        STORING_NEED_ACCOUNT | BAD_FILENAME => RemoteErrorType::PermissionDenied,
        FILE_UNAVAILABLE => RemoteErrorType::NoSuchFileOrDirectory,
        BAD_COMMAND | BAD_ARGUMENTS | NOT_IMPLEMENTED | NOT_IMPLEMENTED_PARAMETER => {
            RemoteErrorType::UnsupportedFeature
        },
        _ => RemoteErrorType::ProtocolError,
    }
}

/// The kind of failure that an I/O failure stands for.
pub open spec fn io_kind(kind: IoErrorKind) -> RemoteErrorType {
    match kind {
        IoErrorKind::NotFound => RemoteErrorType::NoSuchFileOrDirectory,
        IoErrorKind::PermissionDenied => RemoteErrorType::PermissionDenied,
        IoErrorKind::AlreadyExists => RemoteErrorType::AlreadyExists,
        IoErrorKind::NotConnected => RemoteErrorType::NotConnected,
        IoErrorKind::InvalidInput => RemoteErrorType::InvalidPath,
        IoErrorKind::Unsupported => RemoteErrorType::UnsupportedFeature,
        IoErrorKind::DirectoryNotEmpty => RemoteErrorType::DirectoryNotEmpty,
        IoErrorKind::ConnectionRefused => RemoteErrorType::ConnectionError,
        IoErrorKind::ConnectionReset => RemoteErrorType::ConnectionError,
        IoErrorKind::ConnectionAborted => RemoteErrorType::ConnectionError,
        IoErrorKind::Other => RemoteErrorType::IoError,
    }
}

/// The failure that an I/O failure is reported as.
pub open spec fn io_failure(err: IoErrorView) -> ErrorView {
    ErrorView { kind: io_kind(err.kind), source: Some(CauseView::Io(err)) }
}

/// Converts an I/O failure into a [`RemoteError`] that keeps `err` as its cause.
pub fn io_error(err: IoError) -> (r: RemoteError)
    ensures
        r@ == io_failure(err@),
{
    let kind = match err.kind {
        IoErrorKind::NotFound => RemoteErrorType::NoSuchFileOrDirectory,
        IoErrorKind::PermissionDenied => RemoteErrorType::PermissionDenied,
        IoErrorKind::AlreadyExists => RemoteErrorType::AlreadyExists,
        IoErrorKind::NotConnected => RemoteErrorType::NotConnected,
        IoErrorKind::InvalidInput => RemoteErrorType::InvalidPath,
        IoErrorKind::Unsupported => RemoteErrorType::UnsupportedFeature,
        IoErrorKind::DirectoryNotEmpty => RemoteErrorType::DirectoryNotEmpty,
        IoErrorKind::ConnectionRefused | IoErrorKind::ConnectionReset
        | IoErrorKind::ConnectionAborted => RemoteErrorType::ConnectionError,
        IoErrorKind::Other => RemoteErrorType::IoError,
    };
    RemoteError { kind, source: Some(Cause::Io(err)) }
}

/// Whether a failed command may have left replies unread: any failure but a refusal, and the
/// refusal with which the server closes the connection. Any other refusal has been read whole.
pub open spec fn desynchronizes(err: FtpErrorView) -> bool {
    match err {
        FtpErrorView::UnexpectedResponse(response) => response.status == NOT_AVAILABLE,
        _ => true,
    }
}

/// Returns whether a failed data-command setup may have left replies unsynchronized.
pub fn transfer_setup_requires_reconnect(err: &FtpError) -> (r: bool)
    ensures
        r == desynchronizes(err@),
{
    match err {
        FtpError::ConnectionError(_) | FtpError::BadResponse => true,
        FtpError::SecureError(_) => true,
        FtpError::UnexpectedResponse(response) => response.status == NOT_AVAILABLE,
        FtpError::InvalidAddress(_) | FtpError::DataConnectionAlreadyOpen => true,
    }
}

/// Whether a reported failure means that replies may be left unread: its first FTP cause decides,
/// and without one its kind.
pub open spec fn needs_reconnect(err: ErrorView) -> bool {
    match err.first_ftp() {
        Some(cause) => desynchronizes(cause),
        None => err.kind == RemoteErrorType::ConnectionError,
    }
}

/// Returns whether a mapped error means the control channel may be out of sync.
pub fn remote_error_requires_reconnect(err: &RemoteError) -> (r: bool)
    ensures
        r == needs_reconnect(err@),
{
    match err.find_ftp() {
        Some(cause) => transfer_setup_requires_reconnect(cause),
        None => err.kind == RemoteErrorType::ConnectionError,
    }
}

/// Returns whether an FTP reply used the ambiguous 550 refusal code.
pub fn is_file_unavailable(err: &FtpError) -> (r: bool)
    ensures
        r == err@.refused_with(FILE_UNAVAILABLE),
{
    match err {
        FtpError::UnexpectedResponse(response) => response.status == FILE_UNAVAILABLE,
        _ => false,
    }
}

/// Whether a create or rename refusal can indicate a missing parent.
pub open spec fn creation_refusal(err: FtpErrorView) -> bool {
    err.refused_with(FILE_UNAVAILABLE) || err.refused_with(BAD_FILENAME)
}

/// Returns whether a create or rename refusal can indicate a missing parent.
pub fn is_creation_refusal(err: &FtpError) -> (r: bool)
    ensures
        r == creation_refusal(err@),
{
    match err {
        FtpError::UnexpectedResponse(response) => {
            response.status == FILE_UNAVAILABLE || response.status == BAD_FILENAME
        },
        _ => false,
    }
}

/// Whether a failure goes back to a 550 refusal, which leaves open what is wrong with the path.
pub open spec fn ambiguous_refusal(err: ErrorView) -> bool {
    err.first_reply() == Some(FILE_UNAVAILABLE)
}

/// Returns whether an error preserves an ambiguous FTP 550 refusal.
pub fn is_ambiguous_path_refusal(err: &RemoteError) -> (r: bool)
    ensures
        r == ambiguous_refusal(err@),
{
    match err.find_reply() {
        Some(status) => status == FILE_UNAVAILABLE,
        None => false,
    }
}

/// Preserves an ambiguous 550 refusal when probing cannot prove absence.
pub fn ambiguous_path_permission(err: RemoteError) -> (r: RemoteError)
    ensures
        r@ == ErrorView::remote(RemoteErrorType::PermissionDenied, err@),
{
    RemoteError::with_remote(RemoteErrorType::PermissionDenied, err)
}

/// Mapping an FTP failure loses nothing: the failure is the first FTP cause of what is reported,
/// and it decides whether to reconnect as it would by itself.
pub proof fn law_ftp_error_keeps_its_source(err: FtpErrorView)
    ensures
        ftp_failure(err).first_ftp() == Some(err),
        needs_reconnect(ftp_failure(err)) == desynchronizes(err),
        ambiguous_refusal(ftp_failure(err)) == err.refused_with(FILE_UNAVAILABLE),
{
    reveal_with_fuel(ErrorView::first_ftp, 3);
    reveal_with_fuel(CauseView::first_ftp, 3);
    reveal_with_fuel(ErrorView::first_reply, 3);
    reveal_with_fuel(CauseView::first_reply, 3);
}

/// Refining a failure keeps what it goes back to: the same FTP failure and the same reply are
/// found first.
pub proof fn law_refining_keeps_the_refusal(kind: RemoteErrorType, err: ErrorView)
    ensures
        ErrorView::remote(kind, err).first_ftp() == err.first_ftp(),
        ErrorView::remote(kind, err).first_reply() == err.first_reply(),
        ambiguous_refusal(ErrorView::remote(kind, err)) == ambiguous_refusal(err),
{
    reveal_with_fuel(ErrorView::first_ftp, 2);
    reveal_with_fuel(CauseView::first_ftp, 2);
    reveal_with_fuel(ErrorView::first_reply, 2);
    reveal_with_fuel(CauseView::first_reply, 2);
}

} // verus!
