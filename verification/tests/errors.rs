use std::io;

use remotefs_ftp::error::{
    ambiguous_path_permission, ftp_error, io_error, is_ambiguous_path_refusal, is_creation_refusal,
    is_file_unavailable, remote_error_requires_reconnect, status_kind,
    transfer_setup_requires_reconnect, Cause, FtpError, IoError, IoErrorKind, ParseError,
    RemoteError, RemoteErrorType, Response, BAD_ARGUMENTS, BAD_COMMAND, BAD_FILENAME,
    CANNOT_OPEN_DATA_CONNECTION, FILE_UNAVAILABLE, NOT_AVAILABLE, NOT_IMPLEMENTED,
    NOT_IMPLEMENTED_PARAMETER, NOT_LOGGED_IN, STORING_NEED_ACCOUNT, TRANSFER_ABORTED,
};
use suppaftp::Status;

fn refused(status: u32) -> FtpError {
    FtpError::UnexpectedResponse(Response {
        status,
        body: b"refused".to_vec(),
    })
}

fn reset() -> IoError {
    IoError {
        kind: IoErrorKind::ConnectionReset,
        message: "reset".to_string(),
    }
}

#[test]
fn should_map_transport_failures_to_connection_error_and_keep_source() {
    let err = ftp_error(FtpError::ConnectionError(reset()));
    assert_eq!(err.kind(), RemoteErrorType::ConnectionError);
    assert!(matches!(err.source, Some(Cause::Ftp(_))));
    assert!(err.to_text().contains("reset"));
}

#[test]
fn should_map_reply_codes() {
    for (status, kind) in [
        (Status::NotAvailable, RemoteErrorType::ConnectionError),
        (
            Status::CannotOpenDataConnection,
            RemoteErrorType::ConnectionError,
        ),
        (Status::TransferAborted, RemoteErrorType::ConnectionError),
        (Status::NotLoggedIn, RemoteErrorType::AuthenticationFailed),
        (Status::BadFilename, RemoteErrorType::PermissionDenied),
        (
            Status::StoringNeedAccount,
            RemoteErrorType::PermissionDenied,
        ),
        (
            Status::FileUnavailable,
            RemoteErrorType::NoSuchFileOrDirectory,
        ),
        (Status::BadCommand, RemoteErrorType::UnsupportedFeature),
        (Status::NotImplemented, RemoteErrorType::UnsupportedFeature),
        (Status::BadArguments, RemoteErrorType::UnsupportedFeature),
        (
            Status::NotImplementedParameter,
            RemoteErrorType::UnsupportedFeature,
        ),
        (Status::BadSequence, RemoteErrorType::ProtocolError),
    ] {
        assert_eq!(
            ftp_error(refused(status.code())).kind(),
            kind,
            "status {status:?}"
        );
    }
}

#[test]
fn should_map_protocol_failures() {
    assert_eq!(
        ftp_error(FtpError::DataConnectionAlreadyOpen).kind(),
        RemoteErrorType::ProtocolError
    );
    assert_eq!(
        ftp_error(FtpError::BadResponse).kind(),
        RemoteErrorType::ProtocolError
    );
}

#[test]
fn reply_codes_are_those_of_the_protocol() {
    for (code, status) in [
        (NOT_AVAILABLE, Status::NotAvailable),
        (
            CANNOT_OPEN_DATA_CONNECTION,
            Status::CannotOpenDataConnection,
        ),
        (TRANSFER_ABORTED, Status::TransferAborted),
        (BAD_COMMAND, Status::BadCommand),
        (BAD_ARGUMENTS, Status::BadArguments),
        (NOT_IMPLEMENTED, Status::NotImplemented),
        (NOT_IMPLEMENTED_PARAMETER, Status::NotImplementedParameter),
        (NOT_LOGGED_IN, Status::NotLoggedIn),
        (STORING_NEED_ACCOUNT, Status::StoringNeedAccount),
        (FILE_UNAVAILABLE, Status::FileUnavailable),
        (BAD_FILENAME, Status::BadFilename),
    ] {
        assert_eq!(code, status.code());
    }
    assert_eq!(status_kind(226), RemoteErrorType::ProtocolError);
    assert_eq!(status_kind(0), RemoteErrorType::ProtocolError);
}

#[test]
fn other_ftp_failures_map_by_what_failed() {
    assert_eq!(
        ftp_error(FtpError::SecureError("handshake".to_string())).kind(),
        RemoteErrorType::ConnectionError
    );
    assert_eq!(
        ftp_error(FtpError::InvalidAddress("nowhere".to_string())).kind(),
        RemoteErrorType::BadAddress
    );
}

#[test]
fn io_failures_map_as_in_the_filesystem_crate() {
    for (ours, std_kind) in [
        (IoErrorKind::NotFound, io::ErrorKind::NotFound),
        (IoErrorKind::PermissionDenied, io::ErrorKind::PermissionDenied),
        (IoErrorKind::AlreadyExists, io::ErrorKind::AlreadyExists),
        (IoErrorKind::NotConnected, io::ErrorKind::NotConnected),
        (IoErrorKind::InvalidInput, io::ErrorKind::InvalidInput),
        (IoErrorKind::Unsupported, io::ErrorKind::Unsupported),
        (IoErrorKind::DirectoryNotEmpty, io::ErrorKind::DirectoryNotEmpty),
        (IoErrorKind::ConnectionRefused, io::ErrorKind::ConnectionRefused),
        (IoErrorKind::ConnectionReset, io::ErrorKind::ConnectionReset),
        (IoErrorKind::ConnectionAborted, io::ErrorKind::ConnectionAborted),
        (IoErrorKind::Other, io::ErrorKind::TimedOut),
        (IoErrorKind::Other, io::ErrorKind::WouldBlock),
        (IoErrorKind::Other, io::ErrorKind::Other),
    ] {
        let mapped = io_error(IoError {
            kind: ours,
            message: "why".to_string(),
        });
        let theirs = remotefs::RemoteError::from(io::Error::new(std_kind, "why"));
        assert_eq!(format!("{:?}", mapped.kind()), format!("{:?}", theirs.kind()));
        assert_eq!(mapped.to_text(), theirs.to_string());
    }
}

#[test]
fn kinds_are_described_as_in_the_filesystem_crate() {
    for (ours, theirs) in [
        (
            RemoteErrorType::AlreadyConnected,
            remotefs::RemoteErrorType::AlreadyConnected,
        ),
        (
            RemoteErrorType::NotConnected,
            remotefs::RemoteErrorType::NotConnected,
        ),
        (
            RemoteErrorType::AuthenticationFailed,
            remotefs::RemoteErrorType::AuthenticationFailed,
        ),
        (
            RemoteErrorType::BadAddress,
            remotefs::RemoteErrorType::BadAddress,
        ),
        (
            RemoteErrorType::ConnectionError,
            remotefs::RemoteErrorType::ConnectionError,
        ),
        (
            RemoteErrorType::AlreadyExists,
            remotefs::RemoteErrorType::AlreadyExists,
        ),
        (RemoteErrorType::BadFile, remotefs::RemoteErrorType::BadFile),
        (
            RemoteErrorType::DirectoryNotEmpty,
            remotefs::RemoteErrorType::DirectoryNotEmpty,
        ),
        (RemoteErrorType::IoError, remotefs::RemoteErrorType::IoError),
        (
            RemoteErrorType::NoSuchFileOrDirectory,
            remotefs::RemoteErrorType::NoSuchFileOrDirectory,
        ),
        (
            RemoteErrorType::PermissionDenied,
            remotefs::RemoteErrorType::PermissionDenied,
        ),
        (
            RemoteErrorType::InvalidPath,
            remotefs::RemoteErrorType::InvalidPath,
        ),
        (
            RemoteErrorType::ProtocolError,
            remotefs::RemoteErrorType::ProtocolError,
        ),
        (
            RemoteErrorType::UnsupportedFeature,
            remotefs::RemoteErrorType::UnsupportedFeature,
        ),
    ] {
        assert_eq!(ours.as_text(), theirs.to_string());
        assert_eq!(
            RemoteError::with_message(ours, "detail").to_text(),
            remotefs::RemoteError::with_message(theirs, "detail").to_string()
        );
    }
}

#[test]
fn ftp_failures_are_described_as_in_the_protocol_crate() {
    for (status, body) in [
        (Status::FileUnavailable, b"550 no such file\r\n".to_vec()),
        (Status::NotAvailable, b"closing \t\r\n".to_vec()),
        (Status::CommandOk, b"\xff\xfe".to_vec()),
        (Status::BadFilename, "gr\u{fc}n\u{2003}\n".as_bytes().to_vec()),
    ] {
        let ours = FtpError::UnexpectedResponse(Response {
            status: status.code(),
            body: body.clone(),
        });
        let theirs =
            suppaftp::FtpError::UnexpectedResponse(suppaftp::types::Response { status, body });
        assert_eq!(ours.to_text(), theirs.to_string());
    }
    assert_eq!(
        FtpError::ConnectionError(reset()).to_text(),
        suppaftp::FtpError::ConnectionError(io::Error::new(io::ErrorKind::ConnectionReset, "reset"))
            .to_string()
    );
    assert_eq!(
        FtpError::BadResponse.to_text(),
        suppaftp::FtpError::BadResponse.to_string()
    );
    assert_eq!(
        FtpError::DataConnectionAlreadyOpen.to_text(),
        suppaftp::FtpError::DataConnectionAlreadyOpen.to_string()
    );
    assert_eq!(
        FtpError::SecureError("bad certificate".to_string()).to_text(),
        "Secure error: bad certificate"
    );
    assert_eq!(
        FtpError::InvalidAddress("nowhere".to_string()).to_text(),
        "Invalid address: nowhere"
    );
}

#[test]
fn parse_failures_are_described_as_in_the_protocol_crate() {
    for (ours, theirs) in [
        (
            ParseError::SyntaxError,
            suppaftp::list::ParseError::SyntaxError,
        ),
        (
            ParseError::InvalidDate,
            suppaftp::list::ParseError::InvalidDate,
        ),
        (ParseError::BadSize, suppaftp::list::ParseError::BadSize),
    ] {
        assert_eq!(ours.as_text(), theirs.to_string());
    }
}

#[test]
fn only_consumed_refusals_keep_the_connection() {
    assert!(transfer_setup_requires_reconnect(&refused(NOT_AVAILABLE)));
    for status in [FILE_UNAVAILABLE, BAD_FILENAME, TRANSFER_ABORTED, 500, 0] {
        assert!(!transfer_setup_requires_reconnect(&refused(status)));
    }
    for err in [
        FtpError::ConnectionError(reset()),
        FtpError::SecureError("tls".to_string()),
        FtpError::BadResponse,
        FtpError::InvalidAddress("x".to_string()),
        FtpError::DataConnectionAlreadyOpen,
    ] {
        assert!(transfer_setup_requires_reconnect(&err));
    }
}

#[test]
fn the_first_ftp_cause_decides_whether_to_reconnect() {
    // A consumed 426 is a connection error that keeps the connection.
    let aborted = ftp_error(refused(TRANSFER_ABORTED));
    assert_eq!(aborted.kind(), RemoteErrorType::ConnectionError);
    assert!(!remote_error_requires_reconnect(&aborted));
    assert!(remote_error_requires_reconnect(&ftp_error(refused(
        NOT_AVAILABLE
    ))));
    // Without an FTP cause the kind decides.
    assert!(remote_error_requires_reconnect(&RemoteError::with_message(
        RemoteErrorType::ConnectionError,
        "lost"
    )));
    assert!(!remote_error_requires_reconnect(&RemoteError::new(
        RemoteErrorType::NotConnected
    )));
    // The chain goes on through refinements and through the completion reply.
    let nested = RemoteError {
        kind: RemoteErrorType::ConnectionError,
        source: Some(Cause::ListCleanup {
            read: Box::new(ftp_error(FtpError::ConnectionError(reset()))),
            finish: Box::new(ambiguous_path_permission(ftp_error(refused(
                FILE_UNAVAILABLE,
            )))),
        }),
    };
    assert!(!remote_error_requires_reconnect(&nested));
    assert!(is_ambiguous_path_refusal(&nested));
}

#[test]
fn refusals_are_told_apart() {
    assert!(is_file_unavailable(&refused(FILE_UNAVAILABLE)));
    assert!(!is_file_unavailable(&refused(BAD_FILENAME)));
    assert!(!is_file_unavailable(&FtpError::BadResponse));
    assert!(is_creation_refusal(&refused(FILE_UNAVAILABLE)));
    assert!(is_creation_refusal(&refused(BAD_FILENAME)));
    assert!(!is_creation_refusal(&refused(NOT_LOGGED_IN)));
    assert!(!is_creation_refusal(&FtpError::BadResponse));
    assert!(is_ambiguous_path_refusal(&ftp_error(refused(
        FILE_UNAVAILABLE
    ))));
    assert!(!is_ambiguous_path_refusal(&ftp_error(refused(
        BAD_FILENAME
    ))));
    assert!(!is_ambiguous_path_refusal(&RemoteError::new(
        RemoteErrorType::NoSuchFileOrDirectory
    )));
    let denied = ambiguous_path_permission(ftp_error(refused(FILE_UNAVAILABLE)));
    assert_eq!(denied.kind(), RemoteErrorType::PermissionDenied);
    assert!(is_ambiguous_path_refusal(&denied));
    assert_eq!(
        denied.to_text(),
        "not enough permissions (no such file or directory (Invalid response: [550] refused))"
    );
}

#[test]
fn cleanup_failures_show_both_failures() {
    let first = || RemoteError::with_message(RemoteErrorType::IoError, "one");
    let second = || RemoteError::with_message(RemoteErrorType::ProtocolError, "two");
    for (cause, text) in [
        (
            Cause::ListCleanup {
                read: Box::new(first()),
                finish: Box::new(second()),
            },
            "LIST read failed: IO error (one); completion failed: protocol error (two)",
        ),
        (
            Cause::ReadCleanup {
                drain: Box::new(first()),
                finish: Box::new(second()),
            },
            "drain failed: IO error (one); finalization failed: protocol error (two)",
        ),
        (
            Cause::SkipCleanup {
                skip: Box::new(first()),
                finish: Box::new(second()),
            },
            "prefix skip failed: IO error (one); finalization failed: protocol error (two)",
        ),
        (
            Cause::WriteCleanup {
                flush: Box::new(first()),
                finish: Box::new(second()),
            },
            "flush failed: IO error (one); finalization failed: protocol error (two)",
        ),
    ] {
        assert_eq!(cause.to_text(), text);
        let copy = cause.clone();
        assert_eq!(copy.to_text(), text);
    }
    assert_eq!(Cause::List(ParseError::BadSize).to_text(), "Bad file size");
    assert_eq!(Cause::Io(reset()).to_text(), "reset");
}
