//! The FTP client: its options, its state, and what its state admits.
//!
//! A client has one control connection. While a transfer stream is alive it refuses every other
//! operation; after a failure that may have left replies unread, or after an operation was abandoned
//! half-way, it refuses everything until it reconnects.
use crate::error::{
    ambiguous_refusal, desynchronizes, ftp_error, ftp_failure, needs_reconnect,
    remote_error_requires_reconnect, transfer_setup_requires_reconnect, Cause, CauseView, ErrorView,
    FtpError, FtpErrorView, IoError, IoErrorView, RemoteError, RemoteErrorType,
};
use crate::file::{optional_text, File, FileView};
use crate::guard::{TransferFlags, TransferGuard};
use crate::list::{
    check_view, decode_list_bytes, decoded_lines, files_view, is_listing,
    law_bad_rows_breach_the_protocol, parse_list_lines,
};
use crate::lookup::nothing_claimed_absent;
use crate::operation::reply_views;
use crate::path::Platform;
use crate::stream::ftp_outcome;
use crate::text::{decimal, decimal_text};
use vstd::prelude::*;

verus! {

/// How data connections are made.
#[derive(Clone, Copy, Debug, PartialEq, Eq, Structural)]
pub enum Mode {
    /// The server connects to the client.
    Active,
    /// The client connects to the server.
    Passive,
}

/// What a filesystem can do by itself.
#[derive(Clone, Copy, Debug, PartialEq, Eq, Structural)]
pub struct Capabilities {
    pub stream_read: bool,
    pub stream_write: bool,
    pub append: bool,
    pub range_read: bool,
    pub seek_read: bool,
    pub seek_write: bool,
    pub copy: bool,
    pub symlink: bool,
    pub set_metadata: bool,
    pub posix_mode: bool,
    pub execute: bool,
}

/// The options and the state of an FTP and FTPS client.
///
/// Every path given to an operation must be absolute; the client keeps no working directory.
#[derive(Debug)]
pub struct TokioFtpFs {
    /// Whether the client has a control connection.
    pub connected: bool,
    /// What the client shares with its transfer streams.
    pub flags: TransferFlags,
    /// Banner cached at connect time.
    pub welcome: Option<String>,
    pub hostname: String,
    pub port: u16,
    /// Username to login as; default: `anonymous`.
    pub username: String,
    pub password: Option<String>,
    /// Client mode; default: `Mode::Passive`.
    pub mode: Mode,
    /// Use FTPS; default: `false`.
    pub secure: bool,
    /// Platform whose rules listed names are held to; default: `Platform::Posix`.
    pub platform: Platform,
}

/// What a [`TokioFtpFs`] holds.
pub ghost struct ClientView {
    pub connected: bool,
    pub flags: TransferFlags,
    pub welcome: Option<Seq<char>>,
    pub hostname: Seq<char>,
    pub port: u16,
    pub username: Seq<char>,
    pub password: Option<Seq<char>>,
    pub mode: Mode,
    pub secure: bool,
    pub platform: Platform,
}

impl View for TokioFtpFs {
    type V = ClientView;

    open spec fn view(&self) -> ClientView {
        ClientView {
            connected: self.connected,
            flags: self.flags,
            welcome: optional_text(self.welcome),
            hostname: self.hostname@,
            port: self.port,
            username: self.username@,
            password: optional_text(self.password),
            mode: self.mode,
            secure: self.secure,
            platform: self.platform,
        }
    }
}

/// The refusal of an operation while a transfer is in progress.
pub open spec fn busy() -> ErrorView {
    ErrorView::message(
        RemoteErrorType::ProtocolError,
        "a data transfer is in progress; finish or drop its stream first"@,
    )
}

/// The refusal of an operation on a connection that must be made again.
pub open spec fn unusable() -> ErrorView {
    ErrorView::message(
        RemoteErrorType::ConnectionError,
        "the control connection is unusable; reconnect before retrying"@,
    )
}

/// Refuses an operation while a transfer is in progress.
fn busy_error() -> (r: RemoteError)
    ensures
        r@ == busy(),
{
    RemoteError::with_message(
        RemoteErrorType::ProtocolError,
        "a data transfer is in progress; finish or drop its stream first",
    )
}

impl ClientView {
    /// Why the flags of the client refuse an operation, if they do.
    pub open spec fn state_refusal(self) -> Option<ErrorView> {
        if self.flags.active {
            Some(busy())
        } else if !self.flags.connection_usable {
            Some(unusable())
        } else {
            None
        }
    }

    /// Why the client refuses an operation, if it does.
    pub open spec fn refusal(self) -> Option<ErrorView> {
        match self.state_refusal() {
            Some(e) => Some(e),
            None => if self.connected {
                None
            } else {
                Some(ErrorView::plain(RemoteErrorType::NotConnected))
            },
        }
    }

    /// Whether the client counts as connected.
    pub open spec fn is_connected(self) -> bool {
        self.flags.connection_usable && (self.connected || self.flags.active)
    }

    /// The client, with its connection marked unusable where `lost` holds.
    pub open spec fn after_loss(self, lost: bool) -> ClientView {
        if lost {
            ClientView {
                flags: TransferFlags { connection_usable: false, ..self.flags },
                ..self
            }
        } else {
            self
        }
    }

    /// The address that the client connects to.
    pub open spec fn address(self) -> Seq<char> {
        self.hostname + ":"@ + decimal(self.port as nat)
    }

    /// Why the client refuses to connect, if it does.
    pub open spec fn connect_refusal(self) -> Option<ErrorView> {
        if self.flags.active {
            Some(busy())
        } else if self.flags.connection_usable && self.connected {
            Some(ErrorView::plain(RemoteErrorType::AlreadyConnected))
        } else {
            None
        }
    }

    /// The banner that the client shows: that of its connection.
    pub open spec fn banner(self) -> Option<Seq<char>> {
        if self.connected {
            self.welcome
        } else {
            None
        }
    }

    /// The client once it has given up an unusable connection, and its banner with it.
    pub open spec fn ready_to_connect(self) -> ClientView {
        if self.flags.connection_usable {
            self
        } else {
            ClientView {
                connected: false,
                welcome: None,
                flags: TransferFlags { connection_usable: true, ..self.flags },
                ..self
            }
        }
    }

    /// The client once it is connected.
    pub open spec fn established(self, welcome: Option<Seq<char>>) -> ClientView {
        ClientView { connected: true, welcome, ..self }
    }

    /// Why the client refuses to disconnect, or fails to, before anything is sent.
    pub open spec fn disconnect_failure(self) -> Option<ErrorView> {
        if self.flags.active {
            Some(busy())
        } else if !self.connected {
            Some(ErrorView::plain(RemoteErrorType::NotConnected))
        } else if !self.flags.connection_usable {
            Some(
                ErrorView::message(
                    RemoteErrorType::ConnectionError,
                    "the control connection was unusable and has been closed"@,
                ),
            )
        } else {
            None
        }
    }

    /// The client once it has given up its connection.
    pub open spec fn disconnected(self) -> ClientView {
        if self.flags.active || !self.connected {
            self
        } else {
            ClientView {
                connected: false,
                welcome: None,
                flags: TransferFlags { connection_usable: true, ..self.flags },
                ..self
            }
        }
    }
}

/// What the client does next to connect.
#[derive(Debug)]
pub enum ConnectStep {
    /// Connect to an address, for data connections that are made in this mode.
    Dial { address: String, mode: Mode },
    /// Secure the connection for a host.
    Secure(String),
    /// Log in.
    Login { username: String, password: String },
    /// Set the transfer type to binary.
    Binary,
    /// Return. Once this is a success, [`TokioFtpFs::finish_connect`] is due.
    Done(Result<(), RemoteError>),
}

/// What a [`ConnectStep`] holds.
pub ghost enum ConnectStepView {
    Dial(Seq<char>, Mode),
    Secure(Seq<char>),
    Login(Seq<char>, Seq<char>),
    Binary,
    Done(Option<ErrorView>),
}

impl View for ConnectStep {
    type V = ConnectStepView;

    open spec fn view(&self) -> ConnectStepView {
        match *self {
            ConnectStep::Dial { address, mode } => ConnectStepView::Dial(address@, mode),
            ConnectStep::Secure(host) => ConnectStepView::Secure(host@),
            ConnectStep::Login { username, password } => ConnectStepView::Login(
                username@,
                password@,
            ),
            ConnectStep::Binary => ConnectStepView::Binary,
            ConnectStep::Done(r) => ConnectStepView::Done(check_view(r)),
        }
    }
}

/// What the client does to connect, from logging in on; `n` is the number of replies before.
pub open spec fn login_step(c: ClientView, replies: Seq<Option<FtpErrorView>>, n: int) -> ConnectStepView {
    if replies.len() <= n {
        ConnectStepView::Login(
            c.username,
            match c.password {
                Some(password) => password,
                None => Seq::empty(),
            },
        )
    } else if replies[n] is Some {
        ConnectStepView::Done(Some(ftp_failure(replies[n]->0)))
    } else if replies.len() <= n + 1 {
        ConnectStepView::Binary
    } else if replies[n + 1] is Some {
        ConnectStepView::Done(Some(ftp_failure(replies[n + 1]->0)))
    } else {
        ConnectStepView::Done(None)
    }
}

/// What the client does to connect: it dials in its mode, secures the connection where it is told
/// to, logs in, and sets the transfer type. The first failure ends it.
pub open spec fn connect_step(c: ClientView, replies: Seq<Option<FtpErrorView>>) -> ConnectStepView {
    if replies.len() == 0 {
        ConnectStepView::Dial(c.address(), c.mode)
    } else if replies[0] is Some {
        ConnectStepView::Done(Some(ftp_failure(replies[0]->0)))
    } else if !c.secure {
        login_step(c, replies, 1)
    } else if replies.len() <= 1 {
        ConnectStepView::Secure(c.hostname)
    } else if replies[1] is Some {
        ConnectStepView::Done(
            Some(ErrorView::ftp(RemoteErrorType::ConnectionError, replies[1]->0)),
        )
    } else {
        login_step(c, replies, 2)
    }
}

/// Marks the connection unusable if an operation is abandoned half-way.
#[derive(Debug)]
pub struct OperationGuard {
    completed: bool,
}

impl OperationGuard {
    /// Whether the operation was completed.
    pub closed spec fn completed(self) -> bool {
        self.completed
    }

    /// Records the operation as completed.
    pub fn complete(&mut self)
        ensures
            final(self).completed(),
    {
        self.completed = true;
    }

    /// What dropping the guard does: an operation that was not completed leaves the connection
    /// unusable.
    pub fn release(self, client: &mut TokioFtpFs)
        ensures
            final(client)@ == old(client)@.after_loss(!self.completed()),
    {
        if !self.completed {
            client.mark_connection_unusable();
        }
    }
}

impl TokioFtpFs {
    /// A client for `hostname:port`, not connected.
    pub fn new(hostname: &str, port: u16) -> (r: Self)
        ensures
            r@ == (ClientView {
                connected: false,
                flags: TransferFlags { active: false, connection_usable: true },
                welcome: None,
                hostname: hostname@,
                port,
                username: "anonymous"@,
                password: None,
                mode: Mode::Passive,
                secure: false,
                platform: Platform::Posix,
            }),
    {
        TokioFtpFs {
            connected: false,
            flags: TransferFlags { active: false, connection_usable: true },
            welcome: None,
            hostname: hostname.to_string(),
            port,
            username: "anonymous".to_string(),
            password: None,
            mode: Mode::Passive,
            secure: false,
            platform: Platform::Posix,
        }
    }

    /// Sets the username used when connecting.
    pub fn username(self, username: &str) -> (r: Self)
        ensures
            r@ == (ClientView { username: username@, ..self@ }),
    {
        let mut this = self;
        this.username = username.to_string();
        this
    }

    /// Sets the password used when connecting.
    pub fn password(self, password: &str) -> (r: Self)
        ensures
            r@ == (ClientView { password: Some(password@), ..self@ }),
    {
        let mut this = self;
        this.password = Some(password.to_string());
        this
    }

    /// Selects active mode for data connections.
    pub fn active_mode(self) -> (r: Self)
        ensures
            r@ == (ClientView { mode: Mode::Active, ..self@ }),
    {
        let mut this = self;
        this.mode = Mode::Active;
        this
    }

    /// Selects passive mode for data connections, the default.
    pub fn passive_mode(self) -> (r: Self)
        ensures
            r@ == (ClientView { mode: Mode::Passive, ..self@ }),
    {
        let mut this = self;
        this.mode = Mode::Passive;
        this
    }

    /// Enables FTPS.
    pub fn secure(self) -> (r: Self)
        ensures
            r@ == (ClientView { secure: true, ..self@ }),
    {
        let mut this = self;
        this.secure = true;
        this
    }

    /// Sets the platform that the client runs on.
    pub fn platform(self, platform: Platform) -> (r: Self)
        ensures
            r@ == (ClientView { platform, ..self@ }),
    {
        let mut this = self;
        this.platform = platform;
        this
    }

    /// Returns the control stream when connected and no managed transfer is active.
    ///
    /// Returns `None` until a managed transfer is finished or dropped, and while the connection is
    /// unusable.
    pub fn stream<'a, S>(&self, stream: &'a mut Option<S>) -> (r: Option<&'a mut S>)
        ensures
            match r {
                Some(s) => {
                    &&& self@.state_refusal() is None
                    &&& *old(stream) == Some(*s)
                    &&& *final(stream) == Some(*final(s))
                },
                None => {
                    &&& self@.state_refusal() is Some || *old(stream) is None
                    &&& *final(stream) == *old(stream)
                },
            },
    {
        if self.flags.active || !self.flags.connection_usable {
            return None;
        }
        stream.as_mut()
    }

    /// Returns the banner the server sent on connection, if connected.
    pub fn welcome_message(&self) -> (r: Option<String>)
        ensures
            optional_text(r) == self@.banner(),
    {
        if !self.connected {
            return None;
        }
        match &self.welcome {
            Some(banner) => Some(banner.clone()),
            None => None,
        }
    }

    /// Admits one operation, unless the client's state refuses it.
    pub fn lock_stream(&self) -> (r: Result<OperationGuard, RemoteError>)
        ensures
            match r {
                Ok(guard) => self@.refusal() is None && !guard.completed(),
                Err(e) => self@.refusal() == Some(e@),
            },
    {
        match self.check_operation_state() {
            Ok(_) => {},
            Err(e) => {
                return Err(e);
            },
        }
        if !self.connected {
            return Err(RemoteError::new(RemoteErrorType::NotConnected));
        }
        Ok(OperationGuard { completed: false })
    }

    /// Checks that no transfer is in progress and that the connection is usable.
    pub fn check_operation_state(&self) -> (r: Result<(), RemoteError>)
        ensures
            check_view(r) == self@.state_refusal(),
    {
        if self.flags.active {
            return Err(busy_error());
        }
        if !self.flags.connection_usable {
            return Err(
                RemoteError::with_message(
                    RemoteErrorType::ConnectionError,
                    "the control connection is unusable; reconnect before retrying",
                ),
            );
        }
        Ok(())
    }

    /// Marks the connection unusable until the client reconnects.
    pub fn mark_connection_unusable(&mut self)
        ensures
            final(self)@ == old(self)@.after_loss(true),
    {
        self.flags.connection_usable = false;
    }

    /// Marks the connection unusable where a failed command may have left replies unread.
    pub fn record_ftp_error(&mut self, error: &FtpError)
        ensures
            final(self)@ == old(self)@.after_loss(desynchronizes(error@)),
    {
        if transfer_setup_requires_reconnect(error) {
            self.mark_connection_unusable();
        }
    }

    /// Marks the connection unusable where a failed operation may have left replies unread.
    pub fn record_remote_error(&mut self, error: &RemoteError)
        ensures
            final(self)@ == old(self)@.after_loss(needs_reconnect(error@)),
    {
        if remote_error_requires_reconnect(error) {
            self.mark_connection_unusable();
        }
    }

    /// Takes note of a data connection that a custom builder made, or failed to make.
    pub fn note_passive_stream(&mut self, built: bool)
        ensures
            final(self)@ == old(self)@.after_loss(!built),
    {
        if !built {
            self.mark_connection_unusable();
        }
    }

    /// Raises the transfer flag and returns the guard that clears it.
    pub fn start_transfer(&mut self) -> (r: TransferGuard)
        ensures
            r.raised(),
            final(self)@ == (ClientView {
                flags: TransferFlags { active: true, ..old(self)@.flags },
                ..old(self)@
            }),
    {
        self.flags.active = true;
        TransferGuard::new(&self.flags)
    }

    /// Prepares to connect: an unusable connection is given up. After a success,
    /// [`Self::connect`] says what to do.
    pub fn begin_connect(&mut self) -> (r: Result<(), RemoteError>)
        ensures
            check_view(r) == old(self)@.connect_refusal(),
            final(self)@ == if r is Ok {
                old(self)@.ready_to_connect()
            } else {
                old(self)@
            },
    {
        if self.flags.active {
            return Err(busy_error());
        }
        if self.flags.connection_usable && self.connected {
            return Err(RemoteError::new(RemoteErrorType::AlreadyConnected));
        }
        if !self.flags.connection_usable {
            self.connected = false;
            self.welcome = None;
            self.flags.connection_usable = true;
        }
        Ok(())
    }

    /// Says what to do next to connect, given what came of what was done before.
    pub fn connect(&self, replies: &Vec<Result<(), FtpError>>) -> (r: ConnectStep)
        ensures
            r@ == connect_step(self@, reply_views(replies@)),
    {
        let ghost views = reply_views(replies@);
        if replies.len() == 0 {
            let port = decimal_text(self.port as u64);
            let address = self.hostname.clone().concat(":").concat(port.as_str());
            return ConnectStep::Dial { address, mode: self.mode };
        }
        assert(views[0] == ftp_outcome(replies@[0]));
        if let Err(e) = &replies[0] {
            return ConnectStep::Done(Err(ftp_error(e.clone())));
        }
        if !self.secure {
            return self.log_in(replies, 1);
        }
        if replies.len() <= 1 {
            return ConnectStep::Secure(self.hostname.clone());
        }
        assert(views[1] == ftp_outcome(replies@[1]));
        if let Err(e) = &replies[1] {
            return ConnectStep::Done(
                Err(RemoteError::with_ftp(RemoteErrorType::ConnectionError, e.clone())),
            );
        }
        self.log_in(replies, 2)
    }

    /// Says what to do next to connect, from logging in on.
    fn log_in(&self, replies: &Vec<Result<(), FtpError>>, n: usize) -> (r: ConnectStep)
        requires
            n <= 2,
        ensures
            r@ == login_step(self@, reply_views(replies@), n as int),
    {
        let ghost views = reply_views(replies@);
        if replies.len() <= n {
            let password = match &self.password {
                Some(password) => password.clone(),
                None => String::new(),
            };
            return ConnectStep::Login { username: self.username.clone(), password };
        }
        assert(views[n as int] == ftp_outcome(replies@[n as int]));
        if let Err(e) = &replies[n] {
            return ConnectStep::Done(Err(ftp_error(e.clone())));
        }
        if replies.len() <= n + 1 {
            return ConnectStep::Binary;
        }
        assert(views[n + 1] == ftp_outcome(replies@[n + 1]));
        match &replies[n + 1] {
            Err(e) => ConnectStep::Done(Err(ftp_error(e.clone()))),
            Ok(_) => ConnectStep::Done(Ok(())),
        }
    }

    /// Takes note of the connection that was established, and of its banner.
    pub fn finish_connect(&mut self, welcome: Option<String>)
        ensures
            final(self)@ == old(self)@.established(optional_text(welcome)),
    {
        self.welcome = welcome;
        self.connected = true;
    }

    /// Gives the connection up. After a success, `QUIT` is to be sent over it, and
    /// [`Self::finish_disconnect`] is due.
    pub fn disconnect(&mut self) -> (r: Result<(), RemoteError>)
        ensures
            check_view(r) == old(self)@.disconnect_failure(),
            final(self)@ == old(self)@.disconnected(),
    {
        if self.flags.active {
            return Err(busy_error());
        }
        let usable = self.flags.connection_usable;
        if !self.connected {
            return Err(RemoteError::new(RemoteErrorType::NotConnected));
        }
        self.connected = false;
        self.welcome = None;
        self.flags.connection_usable = true;
        if !usable {
            return Err(
                RemoteError::with_message(
                    RemoteErrorType::ConnectionError,
                    "the control connection was unusable and has been closed",
                ),
            );
        }
        Ok(())
    }

    /// Judges the reply to `QUIT`.
    pub fn finish_disconnect(&mut self, reply: Result<(), FtpError>) -> (r: Result<(), RemoteError>)
        ensures
            check_view(r) == match ftp_outcome(reply) {
                None => None,
                Some(e) => Some(ftp_failure(e)),
            },
            final(self)@ == old(self)@.after_loss(
                ftp_outcome(reply) is Some && desynchronizes(ftp_outcome(reply)->0),
            ),
    {
        match reply {
            Ok(_) => Ok(()),
            Err(e) => {
                let error = ftp_error(e);
                proof {
                    crate::error::law_ftp_error_keeps_its_source(e@);
                }
                self.record_remote_error(&error);
                Err(error)
            },
        }
    }

    /// Returns whether the client counts as connected.
    pub fn is_connected(&self) -> (r: bool)
        ensures
            r == self@.is_connected(),
    {
        self.flags.connection_usable && (self.connected || self.flags.active)
    }

    /// What FTP can do by itself.
    pub fn capabilities(&self) -> (r: Capabilities)
        ensures
            r == (Capabilities {
                stream_read: true,
                stream_write: true,
                append: true,
                range_read: true,
                seek_read: false,
                seek_write: false,
                copy: false,
                symlink: false,
                set_metadata: false,
                posix_mode: false,
                execute: true,
            }),
    {
        Capabilities {
            stream_read: true,
            stream_write: true,
            append: true,
            range_read: true,
            seek_read: false,
            seek_write: false,
            copy: false,
            symlink: false,
            set_metadata: false,
            posix_mode: false,
            execute: true,
        }
    }
}

// ---------------------------------------------------------------------------------------------
// Raw listings
// ---------------------------------------------------------------------------------------------

/// `150`: the data connection is about to be opened.
pub const ABOUT_TO_SEND: u32 = 150;

/// `125`: the data connection is open already.
pub const ALREADY_OPEN: u32 = 125;

/// The command that lists a path, and the replies that begin its transfer.
#[derive(Debug)]
pub struct ListCommand {
    pub text: String,
    pub expected: [u32; 2],
}

/// The command that lists a path.
pub fn list_command(remote: &str) -> (r: ListCommand)
    ensures
        r.text@ == "LIST "@ + remote@,
        r.expected@ == seq![ABOUT_TO_SEND, ALREADY_OPEN],
{
    let expected = [ABOUT_TO_SEND, ALREADY_OPEN];
    assert(expected@ == seq![ABOUT_TO_SEND, ALREADY_OPEN]);
    ListCommand { text: "LIST ".to_string().concat(remote), expected }
}

/// What came of a listing's transfer.
#[derive(Debug)]
pub enum ListTransfer {
    /// It was not begun.
    Refused(FtpError),
    /// It was begun: what was read, and what the completion reply brought.
    Ran { read: Result<Vec<u8>, IoError>, finish: Result<(), FtpError> },
}

/// What a [`ListTransfer`] holds.
pub ghost enum ListTransferView {
    Refused(FtpErrorView),
    Ran(Result<Seq<u8>, IoErrorView>, Option<FtpErrorView>),
}

impl View for ListTransfer {
    type V = ListTransferView;

    open spec fn view(&self) -> ListTransferView {
        match *self {
            ListTransfer::Refused(e) => ListTransferView::Refused(e@),
            ListTransfer::Ran { read, finish } => ListTransferView::Ran(
                match read {
                    Ok(bytes) => Ok(bytes@),
                    Err(e) => Err(e@),
                },
                ftp_outcome(finish),
            ),
        }
    }
}

/// The bytes of a listing, or why there are none, and whether the client must reconnect. A transfer
/// that was begun and not completed leaves replies unread.
pub open spec fn listed_bytes(transfer: ListTransferView) -> (Result<Seq<u8>, ErrorView>, bool) {
    match transfer {
        ListTransferView::Refused(err) => (Err(ftp_failure(err)), desynchronizes(err)),
        ListTransferView::Ran(Ok(bytes), None) => (Ok(bytes), false),
        ListTransferView::Ran(Err(read), None) => (
            Err(ftp_failure(FtpErrorView::ConnectionError(read))),
            true,
        ),
        ListTransferView::Ran(Ok(_), Some(finish)) => (Err(ftp_failure(finish)), true),
        ListTransferView::Ran(Err(read), Some(finish)) => (
            Err(
                ErrorView {
                    kind: RemoteErrorType::ConnectionError,
                    source: Some(
                        CauseView::ListCleanup {
                            read: Box::new(ftp_failure(FtpErrorView::ConnectionError(read))),
                            finish: Box::new(ftp_failure(finish)),
                        },
                    ),
                },
            ),
            true,
        ),
    }
}

/// Judges the transfer of raw `LIST` bytes, and reports whether cleanup requires reconnecting.
pub fn read_list_bytes(transfer: ListTransfer) -> (r: (Result<Vec<u8>, RemoteError>, bool))
    ensures
        match r.0 {
            Ok(bytes) => listed_bytes(transfer@).0 == Ok::<Seq<u8>, ErrorView>(bytes@),
            Err(e) => listed_bytes(transfer@).0 == Err::<Seq<u8>, ErrorView>(e@),
        },
        r.1 == listed_bytes(transfer@).1,
{
    match transfer {
        ListTransfer::Refused(err) => {
            let requires_reconnect = transfer_setup_requires_reconnect(&err);
            (Err(ftp_error(err)), requires_reconnect)
        },
        ListTransfer::Ran { read: Ok(bytes), finish: Ok(_) } => (Ok(bytes), false),
        ListTransfer::Ran { read: Err(read), finish: Ok(_) } => (
            Err(ftp_error(FtpError::ConnectionError(read))),
            true,
        ),
        ListTransfer::Ran { read: Ok(_), finish: Err(finish) } => (Err(ftp_error(finish)), true),
        ListTransfer::Ran { read: Err(read), finish: Err(finish) } => {
            let read = ftp_error(FtpError::ConnectionError(read));
            let finish = ftp_error(finish);
            let kind = read.kind;
            (
                Err(
                    RemoteError {
                        kind,
                        source: Some(
                            Cause::ListCleanup { read: Box::new(read), finish: Box::new(finish) },
                        ),
                    },
                ),
                true,
            )
        },
    }
}

/// Whether `r` can be what listing `path` brings, given what came of the transfer.
pub open spec fn is_raw_listing(
    on: Platform,
    path: Seq<char>,
    transfer: ListTransferView,
    r: Result<Seq<FileView>, ErrorView>,
) -> bool {
    match listed_bytes(transfer).0 {
        Err(e) => r == Err::<Seq<FileView>, ErrorView>(e),
        Ok(bytes) => match decoded_lines(bytes) {
            Err(e) => r == Err::<Seq<FileView>, ErrorView>(ftp_failure(e)),
            Ok(lines) => is_listing(on, path, lines, r),
        },
    }
}

impl TokioFtpFs {
    /// Turns the transfer of a path's listing into its entries, without asserting that the path is a
    /// directory. Failures of the transfer may leave the connection unusable; failures of the
    /// content do not.
    pub fn list_dir_raw(&mut self, path: &str, transfer: ListTransfer) -> (r: Result<
        Vec<File>,
        RemoteError,
    >)
        ensures
            is_raw_listing(old(self)@.platform, path@, transfer@, files_view(r)),
            files_view(r) matches Err(e) ==> e.kind != RemoteErrorType::NoSuchFileOrDirectory
                || ambiguous_refusal(e),
            final(self)@ == old(self)@.after_loss(listed_bytes(transfer@).1),
    {
        let (result, requires_reconnect) = read_list_bytes(transfer);
        if requires_reconnect {
            self.mark_connection_unusable();
        }
        let listing = match result {
            Err(e) => Err(e),
            Ok(bytes) => match decode_list_bytes(bytes) {
                Err(e) => Err(ftp_error(e)),
                Ok(lines) => parse_list_lines(self.platform, path, &lines),
            },
        };
        proof {
            law_listings_claim_no_absence(
                self@.platform,
                path@,
                transfer@,
                files_view(listing),
            );
        }
        listing
    }
}

// ---------------------------------------------------------------------------------------------
// Laws
// ---------------------------------------------------------------------------------------------

/// While a transfer is in progress the client refuses every operation, connecting and disconnecting
/// included, and none of them changes it.
pub proof fn law_a_busy_client_refuses_everything(c: ClientView)
    requires
        c.flags.active,
    ensures
        c.state_refusal() == Some(busy()),
        c.refusal() == Some(busy()),
        c.connect_refusal() == Some(busy()),
        c.disconnect_failure() == Some(busy()),
        c.disconnected() == c,
{
}

/// A transfer that ends gives the client back as it was, but for a connection that its cleanup
/// found unusable.
pub proof fn law_a_transfer_gives_the_client_back(c: ClientView, outcome: Option<ErrorView>)
    requires
        c.refusal() is None,
    ensures
        ({
            let begun = ClientView { flags: TransferFlags { active: true, ..c.flags }, ..c };
            let ended = ClientView {
                flags: TransferFlags {
                    active: false,
                    ..crate::stream::after_cleanup(begun.flags, outcome)
                },
                ..begun
            };
            &&& begun.refusal() == Some(busy())
            &&& begun.is_connected()
            &&& outcome is None ==> ended == c
            &&& outcome is Some ==> ended == c.after_loss(true) && ended.refusal() == Some(
                unusable(),
            )
        }),
{
}

/// A client whose connection is unusable refuses every operation and does not count as connected,
/// and connecting makes it usable again. Once it starts to connect it shows no banner, until it is
/// connected and shows that of the new connection.
pub proof fn law_an_unusable_client_reconnects(c: ClientView, welcome: Option<Seq<char>>)
    requires
        !c.flags.active,
        !c.flags.connection_usable,
    ensures
        c.refusal() == Some(unusable()),
        !c.is_connected(),
        c.connect_refusal() is None,
        !c.ready_to_connect().connected,
        c.ready_to_connect().banner() is None,
        c.ready_to_connect().established(welcome).refusal() is None,
        c.ready_to_connect().established(welcome).is_connected(),
        c.ready_to_connect().established(welcome).banner() == welcome,
{
}

/// A client that disconnects has no connection left, whether or not the server could be told, and
/// can connect again.
pub proof fn law_disconnecting_leaves_no_connection(c: ClientView, lost: bool)
    requires
        !c.flags.active,
        c.connected,
    ensures
        !c.disconnected().after_loss(lost).connected,
        !c.disconnected().after_loss(lost).is_connected(),
        c.disconnected().welcome is None,
        c.disconnected().after_loss(lost).banner() is None,
        c.disconnected().refusal() == Some(ErrorView::plain(RemoteErrorType::NotConnected)),
        c.disconnected().after_loss(lost).connect_refusal() is None,
        c.disconnect_failure() is Some <==> !c.flags.connection_usable,
{
}

/// Connecting succeeds exactly where each of its steps did.
pub proof fn law_connecting_takes_every_step(c: ClientView, replies: Seq<Option<FtpErrorView>>)
    ensures
        ({
            let steps = if c.secure {
                4int
            } else {
                3int
            };
            connect_step(c, replies) == ConnectStepView::Done(None) <==> replies.len() >= steps
                && forall|i: int| 0 <= i < steps ==> #[trigger] replies[i] is None
        }),
{
    if replies.len() >= 3 {
        assert(replies[0] is None || replies[0] is Some);
        assert(replies[1] is None || replies[1] is Some);
        assert(replies[2] is None || replies[2] is Some);
    }
}

/// Only a listing that was transferred and completed gives bytes, and only such a one, or one that
/// the server refused without closing the connection, keeps the connection. Where both reading and
/// completing failed, the kind is that of reading, and the completion's failure is found first.
pub proof fn law_listings_keep_the_connection_only_when_completed(transfer: ListTransferView)
    ensures
        listed_bytes(transfer).0 is Ok ==> !listed_bytes(transfer).1,
        transfer is Ran ==> (listed_bytes(transfer).0 is Ok <==> !listed_bytes(transfer).1),
        transfer matches ListTransferView::Ran(read, Some(finish)) ==> listed_bytes(
            transfer,
        ).0->Err_0.first_ftp() == Some(finish),
        transfer matches ListTransferView::Ran(Err(_), _) ==> listed_bytes(transfer).0->Err_0.kind
            == RemoteErrorType::ConnectionError,
{
    reveal_with_fuel(ErrorView::first_ftp, 4);
    reveal_with_fuel(CauseView::first_ftp, 4);
}

/// A listing that fails does not claim by itself that the path is absent: it is reported so only for
/// a 550, which is ambiguous.
pub proof fn law_listings_claim_no_absence(
    on: Platform,
    path: Seq<char>,
    transfer: ListTransferView,
    r: Result<Seq<FileView>, ErrorView>,
)
    requires
        is_raw_listing(on, path, transfer, r),
    ensures
        r matches Err(e) ==> e.kind != RemoteErrorType::NoSuchFileOrDirectory || ambiguous_refusal(
            e,
        ),
{
    if let Err(e) = r {
        match transfer {
            ListTransferView::Refused(err) => {
                crate::error::law_ftp_error_keeps_its_source(err);
            },
            ListTransferView::Ran(Ok(_), Some(err)) => {
                crate::error::law_ftp_error_keeps_its_source(err);
            },
            ListTransferView::Ran(Ok(bytes), None) => {
                if let Ok(lines) = decoded_lines(bytes) {
                    law_bad_rows_breach_the_protocol(on, path, lines, e);
                }
            },
            _ => {},
        }
    }
}

/// Whether `a` can be what the client answers to a lookup: a listing, nothing where only the
/// connection was asked for, or the client's own refusal.
pub open spec fn is_answer(a: Result<Seq<FileView>, ErrorView>) -> bool {
    ||| exists|on: Platform, path: Seq<char>, transfer: ListTransferView|
        is_raw_listing(on, path, transfer, a)
    ||| a == Ok::<Seq<FileView>, ErrorView>(Seq::empty())
    ||| exists|c: ClientView|
        a is Err && #[trigger] c.refusal() == Some(a->Err_0)
}

/// None of the client's answers claims by itself that something is absent, so that lookups and
/// classification on them report absence only where a listing proves it.
pub proof fn law_answers_claim_no_absence(tape: Seq<Result<Seq<FileView>, ErrorView>>)
    requires
        forall|i: int| 0 <= i < tape.len() ==> is_answer(#[trigger] tape[i]),
    ensures
        nothing_claimed_absent(tape),
{
    assert forall|i: int|
        0 <= i < tape.len() && (#[trigger] tape[i]) is Err && !ambiguous_refusal(
            tape[i]->Err_0,
        ) implies tape[i]->Err_0.kind != RemoteErrorType::NoSuchFileOrDirectory by {
        assert(is_answer(tape[i]));
        if exists|on: Platform, path: Seq<char>, transfer: ListTransferView|
            is_raw_listing(on, path, transfer, tape[i]) {
            let (on, path, transfer) = choose|on: Platform, path: Seq<char>, transfer: ListTransferView|
                is_raw_listing(on, path, transfer, tape[i]);
            law_listings_claim_no_absence(on, path, transfer, tape[i]);
        }
    }
}

/// Listing a valid path takes one command line: the command holds no control character.
pub proof fn law_list_commands_are_one_line(remote: Seq<char>, i: int)
    requires
        crate::path::wire_path(remote),
        0 <= i < ("LIST "@ + remote).len(),
    ensures
        !crate::text::ascii_control_char(("LIST "@ + remote)[i]),
{
    reveal_strlit("LIST ");
    if i >= 5 {
        assert(("LIST "@ + remote)[i] == remote[i - 5]);
    }
}

} // verus!
