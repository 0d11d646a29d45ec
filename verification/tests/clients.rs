use remotefs_ftp::client::{
    list_command, read_list_bytes, ConnectStep, ListTransfer, Mode, TokioFtpFs, ABOUT_TO_SEND,
    ALREADY_OPEN,
};
use remotefs_ftp::error::{
    is_ambiguous_path_refusal, Cause, FtpError, IoError, IoErrorKind, RemoteError, RemoteErrorType, Response, NOT_AVAILABLE,
    TRANSFER_ABORTED,
};
use remotefs_ftp::file::File;
use remotefs_ftp::lookup::{Answer, Ask};
use remotefs_ftp::path::Platform;
use remotefs_ftp::operation::{exec, list_dir, ExecOutput, Step};
use suppaftp::Status;

fn refused(status: u32) -> FtpError {
    FtpError::UnexpectedResponse(Response {
        status,
        body: b"refused".to_vec(),
    })
}

fn reset() -> IoError {
    IoError {
        kind: IoErrorKind::ConnectionReset,
        message: "reset".to_string(),
    }
}

/// Connects to a server that accepts everything.
fn connect(client: &mut TokioFtpFs) -> Result<(), RemoteError> {
    client.begin_connect()?;
    let mut replies = Vec::new();
    loop {
        match client.connect(&replies) {
            ConnectStep::Done(result) => {
                result?;
                client.finish_connect(Some("220 ready".to_string()));
                return Ok(());
            }
            _ => replies.push(Ok(())),
        }
    }
}

/// Runs a site command with a server that answers in this way.
fn run_exec(
    client: &mut TokioFtpFs,
    reply: Result<Response, FtpError>,
) -> Result<ExecOutput, RemoteError> {
    let admission = match client.lock_stream() {
        Ok(mut guard) => {
            guard.complete();
            guard.release(client);
            Some(Ok(()))
        }
        Err(e) => Some(Err(e)),
    };
    let progress = exec("NOOP", &admission, Some(reply));
    if progress.connection_lost {
        client.mark_connection_unusable();
    }
    match progress.step {
        Step::Done(result) => result,
        _ => unreachable!(),
    }
}

fn noop() -> Result<Response, FtpError> {
    Ok(Response {
        status: 200,
        body: b"200 noop".to_vec(),
    })
}

/// Lists a path with a server that answers the only listing in this way.
fn run_list(
    client: &mut TokioFtpFs,
    path: &str,
    transfer: ListTransfer,
) -> Result<Vec<File>, RemoteError> {
    let mut transfer = Some(transfer);
    let mut answers: Vec<Answer> = Vec::new();
    loop {
        match list_dir(path.as_bytes(), &answers) {
            Step::Done(result) => return result,
            Step::Look(Ask::List(asked)) => {
                let answer = match client.lock_stream() {
                    Ok(mut guard) => {
                        guard.complete();
                        guard.release(client);
                        client.list_dir_raw(&asked, transfer.take().unwrap())
                    }
                    Err(e) => Err(e),
                };
                answers.push(answer);
            }
            _ => unreachable!(),
        }
    }
}

#[test]
fn disconnected_client_reports_not_connected() {
    let mut client = TokioFtpFs::new("localhost", 21);
    assert!(!client.is_connected());
    assert_eq!(
        run_exec(&mut client, noop()).unwrap_err().kind(),
        RemoteErrorType::NotConnected
    );
    assert_eq!(
        client.disconnect().unwrap_err().kind(),
        RemoteErrorType::NotConnected
    );
    assert!(client.welcome_message().is_none());
    assert!(client.stream(&mut None::<u8>).is_none());
}

#[test]
fn command_421_allows_a_fresh_connection() {
    let mut client = TokioFtpFs::new("127.0.0.1", 21);
    connect(&mut client).unwrap();
    assert!(client.is_connected());
    assert!(client.welcome_message().is_some());
    assert_eq!(
        connect(&mut client).unwrap_err().kind(),
        RemoteErrorType::AlreadyConnected
    );
    assert_eq!(
        run_exec(&mut client, Err(refused(NOT_AVAILABLE)))
            .unwrap_err()
            .kind(),
        RemoteErrorType::ConnectionError
    );
    assert!(!client.is_connected());
    assert_eq!(
        run_exec(&mut client, noop()).unwrap_err().kind(),
        RemoteErrorType::ConnectionError
    );
    connect(&mut client).unwrap();
    assert_eq!(run_exec(&mut client, noop()).unwrap().status, 200);
    client.disconnect().unwrap();
    client.finish_disconnect(Ok(())).unwrap();
    assert!(!client.is_connected());
}

#[test]
fn cancelled_operation_requires_reconnect() {
    let mut client = TokioFtpFs::new("127.0.0.1", 21);
    connect(&mut client).unwrap();
    // The operation is abandoned after its command was sent.
    let guard = client.lock_stream().unwrap();
    guard.release(&mut client);
    assert!(!client.is_connected());
    assert_eq!(
        run_exec(&mut client, noop()).unwrap_err().kind(),
        RemoteErrorType::ConnectionError
    );
    assert_eq!(
        client.disconnect().unwrap_err().kind(),
        RemoteErrorType::ConnectionError
    );
}

#[test]
fn list_accepts_already_open_and_keeps_control_connection_synchronized() {
    let mut client = TokioFtpFs::new("127.0.0.1", 21);
    connect(&mut client).unwrap();
    let command = list_command("/");
    assert_eq!(command.text, "LIST /");
    assert_eq!(command.expected, [ABOUT_TO_SEND, ALREADY_OPEN]);
    assert_eq!(ABOUT_TO_SEND, Status::AboutToSend.code());
    assert_eq!(ALREADY_OPEN, Status::AlreadyOpen.code());
    let entries = run_list(
        &mut client,
        "/",
        ListTransfer::Ran {
            read: Ok(b"-rw-r--r-- 1 1000 1000 0 Nov 5 2024 file.txt\r\n".to_vec()),
            finish: Ok(()),
        },
    )
    .unwrap();
    assert_eq!(entries.len(), 1);
    assert_eq!(run_exec(&mut client, noop()).unwrap().status, 200);
    client.disconnect().unwrap();
}

#[test]
fn list_setup_421_allows_a_fresh_connection() {
    let mut client = TokioFtpFs::new("127.0.0.1", 21);
    connect(&mut client).unwrap();
    assert_eq!(
        run_list(&mut client, "/", ListTransfer::Refused(refused(NOT_AVAILABLE)))
            .unwrap_err()
            .kind(),
        RemoteErrorType::ConnectionError
    );
    assert!(!client.is_connected());
    connect(&mut client).unwrap();
    assert_eq!(run_exec(&mut client, noop()).unwrap().status, 200);
    client.disconnect().unwrap();
}

#[test]
fn failed_list_completion_requires_reconnect_before_follow_up_commands() {
    let mut client = TokioFtpFs::new("127.0.0.1", 21);
    connect(&mut client).unwrap();
    assert_eq!(
        run_list(
            &mut client,
            "/",
            ListTransfer::Ran {
                read: Ok(b"-rw-r--r-- 1 1000 1000 0 Nov 5 2024 file.txt\r\n".to_vec()),
                finish: Err(refused(TRANSFER_ABORTED)),
            },
        )
        .unwrap_err()
        .kind(),
        RemoteErrorType::ConnectionError
    );
    assert_eq!(
        run_exec(&mut client, noop()).unwrap_err().kind(),
        RemoteErrorType::ConnectionError
    );
    assert_eq!(
        client.disconnect().unwrap_err().kind(),
        RemoteErrorType::ConnectionError
    );
}

#[test]
fn invalid_utf8_after_successful_list_completion_keeps_connection_usable() {
    let mut client = TokioFtpFs::new("127.0.0.1", 21);
    connect(&mut client).unwrap();
    assert_eq!(
        run_list(
            &mut client,
            "/",
            ListTransfer::Ran {
                read: Ok(b"-rw-r--r-- 1 1000 1000 1 Nov 5 2024 bad\xff\r\n".to_vec()),
                finish: Ok(()),
            },
        )
        .unwrap_err()
        .kind(),
        RemoteErrorType::ProtocolError
    );
    assert_eq!(run_exec(&mut client, noop()).unwrap().status, 200);
    client.disconnect().unwrap();
}

fn is_send<T: Send>(_send: T) {}

fn is_sync<T: Sync>(_sync: T) {}

#[test]
fn client_state_is_send_and_sync() {
    is_send(TokioFtpFs::new("127.0.0.1", 10021));
    is_sync(TokioFtpFs::new("127.0.0.1", 10021));
}

#[test]
fn options_have_their_defaults_and_are_set() {
    let client = TokioFtpFs::new("host", 2121);
    assert_eq!(client.hostname, "host");
    assert_eq!(client.port, 2121);
    assert_eq!(client.username, "anonymous");
    assert_eq!(client.password, None);
    assert_eq!(client.mode, Mode::Passive);
    assert!(!client.secure);
    let client = client.username("test").password("secret").active_mode().secure();
    assert_eq!(client.username, "test");
    assert_eq!(client.password.as_deref(), Some("secret"));
    assert_eq!(client.mode, Mode::Active);
    assert!(client.secure);
    assert_eq!(client.platform, Platform::Posix);
    assert!(matches!(
        client.connect(&Vec::new()),
        ConnectStep::Dial { mode: Mode::Active, .. }
    ));
    let client = client.platform(Platform::Windows);
    assert_eq!(client.platform, Platform::Windows);
    let client = client.passive_mode();
    assert_eq!(client.mode, Mode::Passive);
    assert!(matches!(
        client.connect(&Vec::new()),
        ConnectStep::Dial { mode: Mode::Passive, .. }
    ));
}

#[test]
fn connecting_takes_its_steps_in_order() {
    for secure in [false, true] {
        let mut client = TokioFtpFs::new("host", 21);
        if secure {
            client = client.secure();
        }
        client.begin_connect().unwrap();
        let mut replies = Vec::new();
        let mut steps = Vec::new();
        loop {
            match client.connect(&replies) {
                ConnectStep::Dial { address, mode } => {
                    assert_eq!(mode, Mode::Passive);
                    steps.push(format!("dial {address}"))
                }
                ConnectStep::Secure(host) => steps.push(format!("secure {host}")),
                ConnectStep::Login { username, password } => {
                    steps.push(format!("login {username} {password:?}"))
                }
                ConnectStep::Binary => steps.push("binary".to_string()),
                ConnectStep::Done(result) => {
                    result.unwrap();
                    break;
                }
            }
            replies.push(Ok(()));
        }
        if secure {
            assert_eq!(
                steps,
                ["dial host:21", "secure host", "login anonymous \"\"", "binary"]
            );
        } else {
            assert_eq!(steps, ["dial host:21", "login anonymous \"\"", "binary"]);
        }
        assert!(!client.is_connected());
        client.finish_connect(None);
        assert!(client.is_connected());
        assert!(client.welcome_message().is_none());
    }
}

#[test]
fn a_failed_step_fails_the_connection() {
    let client = TokioFtpFs::new("host", 65535).password("pw").secure();
    for (before, kind) in [
        (0, RemoteErrorType::AuthenticationFailed),
        (1, RemoteErrorType::ConnectionError),
        (2, RemoteErrorType::AuthenticationFailed),
        (3, RemoteErrorType::AuthenticationFailed),
    ] {
        let mut replies: Vec<Result<(), FtpError>> = Vec::new();
        for _ in 0..before {
            replies.push(Ok(()));
        }
        replies.push(Err(refused(530)));
        match client.connect(&replies) {
            ConnectStep::Done(Err(e)) => assert_eq!(e.kind(), kind),
            _ => unreachable!(),
        }
    }
}

#[test]
fn a_busy_client_refuses_everything() {
    let mut client = TokioFtpFs::new("host", 21);
    connect(&mut client).unwrap();
    let guard = client.start_transfer();
    let busy = "protocol error (a data transfer is in progress; finish or drop its stream first)";
    assert!(client.is_connected());
    assert_eq!(client.lock_stream().unwrap_err().to_text(), busy);
    assert_eq!(client.check_operation_state().unwrap_err().to_text(), busy);
    assert_eq!(client.begin_connect().unwrap_err().to_text(), busy);
    assert_eq!(client.disconnect().unwrap_err().to_text(), busy);
    assert!(client.stream(&mut Some(1)).is_none());
    guard.release(&mut client.flags);
    assert_eq!(client.stream(&mut Some(1)), Some(&mut 1));
    client.lock_stream().unwrap();
    // A client whose connection is gone may still have a transfer.
    client.connected = false;
    let guard = client.start_transfer();
    assert!(client.is_connected());
    guard.release(&mut client.flags);
    assert!(!client.is_connected());
}

#[test]
fn an_unusable_client_says_so_until_it_reconnects() {
    let mut client = TokioFtpFs::new("host", 21);
    connect(&mut client).unwrap();
    client.mark_connection_unusable();
    assert_eq!(
        client.lock_stream().unwrap_err().to_text(),
        "connection error (the control connection is unusable; reconnect before retrying)"
    );
    assert!(client.stream(&mut Some(1)).is_none());
    assert!(!client.is_connected());
    connect(&mut client).unwrap();
    client.lock_stream().unwrap();
    client.mark_connection_unusable();
    assert_eq!(
        client.disconnect().unwrap_err().to_text(),
        "connection error (the control connection was unusable and has been closed)"
    );
    assert!(client.welcome_message().is_none());
    assert_eq!(
        client.lock_stream().unwrap_err().kind(),
        RemoteErrorType::NotConnected
    );
}

#[test]
fn the_banner_is_that_of_the_connection() {
    let mut client = TokioFtpFs::new("127.0.0.1", 21);
    assert!(client.welcome_message().is_none());
    connect(&mut client).unwrap();
    assert_eq!(client.welcome_message().as_deref(), Some("220 ready"));
    run_exec(&mut client, Err(refused(NOT_AVAILABLE))).unwrap_err();
    // The server is gone: connecting again fails at its first step.
    client.begin_connect().unwrap();
    let replies = vec![Err(FtpError::ConnectionError(reset()))];
    match client.connect(&replies) {
        ConnectStep::Done(result) => {
            assert_eq!(result.unwrap_err().kind(), RemoteErrorType::ConnectionError);
        }
        _ => unreachable!(),
    }
    assert!(!client.is_connected());
    assert_eq!(client.welcome_message(), None);
    connect(&mut client).unwrap();
    assert_eq!(client.welcome_message().as_deref(), Some("220 ready"));
    client.disconnect().unwrap();
    assert_eq!(client.welcome_message(), None);
}

#[test]
fn listings_follow_the_rules_of_the_platform() {
    let row = b"-rw-r--r-- 1 0 0 1 Nov 5 2018 a\\b\r\n";
    for (platform, accepted) in [(Platform::Posix, true), (Platform::Windows, false)] {
        let mut client = TokioFtpFs::new("localhost", 21).platform(platform);
        let transfer = ListTransfer::Ran {
            read: Ok(row.to_vec()),
            finish: Ok(()),
        };
        assert_eq!(client.list_dir_raw("/d", transfer).is_ok(), accepted);
    }
}

#[test]
fn failed_listings_claim_no_absence() {
    let not_found = || IoError {
        kind: IoErrorKind::NotFound,
        message: "gone".to_string(),
    };
    for transfer in [
        ListTransfer::Ran {
            read: Err(not_found()),
            finish: Ok(()),
        },
        ListTransfer::Ran {
            read: Err(not_found()),
            finish: Err(refused(550)),
        },
        ListTransfer::Ran {
            read: Ok(b"nonsense\r\n".to_vec()),
            finish: Ok(()),
        },
        ListTransfer::Ran {
            read: Ok(vec![0xff]),
            finish: Ok(()),
        },
        ListTransfer::Refused(FtpError::ConnectionError(not_found())),
    ] {
        let mut client = TokioFtpFs::new("localhost", 21);
        let err = client.list_dir_raw("/d", transfer).unwrap_err();
        assert_ne!(err.kind(), RemoteErrorType::NoSuchFileOrDirectory);
    }
    // A 550 does, and is ambiguous.
    for transfer in [
        ListTransfer::Refused(refused(550)),
        ListTransfer::Ran {
            read: Ok(Vec::new()),
            finish: Err(refused(550)),
        },
    ] {
        let mut client = TokioFtpFs::new("localhost", 21);
        let err = client.list_dir_raw("/d", transfer).unwrap_err();
        assert_eq!(err.kind(), RemoteErrorType::NoSuchFileOrDirectory);
        assert!(is_ambiguous_path_refusal(&err));
    }
}

#[test]
fn failures_are_recorded_by_what_they_leave_unread() {
    for (error, usable) in [
        (refused(NOT_AVAILABLE), false),
        (refused(550), true),
        (FtpError::ConnectionError(reset()), false),
        (FtpError::BadResponse, false),
    ] {
        let mut client = TokioFtpFs::new("host", 21);
        client.record_ftp_error(&error);
        assert_eq!(client.flags.connection_usable, usable);
        let mut client = TokioFtpFs::new("host", 21);
        client.record_remote_error(&remotefs_ftp::error::ftp_error(error.clone()));
        assert_eq!(client.flags.connection_usable, usable);
        let mut client = TokioFtpFs::new("host", 21);
        assert!(client.finish_disconnect(Err(error)).is_err());
        assert_eq!(client.flags.connection_usable, usable);
    }
    let mut client = TokioFtpFs::new("host", 21);
    client.note_passive_stream(true);
    assert!(client.flags.connection_usable);
    client.note_passive_stream(false);
    assert!(!client.flags.connection_usable);
}

#[test]
fn listings_report_every_failure_of_their_transfer() {
    let (bytes, lost) = read_list_bytes(ListTransfer::Ran {
        read: Ok(b"x".to_vec()),
        finish: Ok(()),
    });
    assert_eq!(bytes.unwrap(), b"x");
    assert!(!lost);
    let (bytes, lost) = read_list_bytes(ListTransfer::Refused(refused(550)));
    assert_eq!(
        bytes.unwrap_err().kind(),
        RemoteErrorType::NoSuchFileOrDirectory
    );
    assert!(!lost);
    let (bytes, lost) = read_list_bytes(ListTransfer::Ran {
        read: Err(reset()),
        finish: Ok(()),
    });
    assert_eq!(
        bytes.unwrap_err().to_text(),
        "connection error (Connection error: reset)"
    );
    assert!(lost);
    let (bytes, lost) = read_list_bytes(ListTransfer::Ran {
        read: Err(reset()),
        finish: Err(refused(550)),
    });
    let err = bytes.unwrap_err();
    assert_eq!(err.kind(), RemoteErrorType::ConnectionError);
    assert!(matches!(err.source, Some(Cause::ListCleanup { .. })));
    assert_eq!(
        err.to_text(),
        "connection error (LIST read failed: connection error (Connection error: reset); \
         completion failed: no such file or directory (Invalid response: [550] refused))"
    );
    assert!(lost);
}

#[test]
fn capabilities_are_those_of_the_protocol() {
    let caps = TokioFtpFs::new("host", 21).capabilities();
    assert!(caps.stream_read && caps.stream_write && caps.append && caps.range_read && caps.execute);
    assert!(!caps.seek_read && !caps.seek_write && !caps.copy && !caps.symlink);
    assert!(!caps.set_metadata && !caps.posix_mode);
}
