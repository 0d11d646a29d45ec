use remotefs_ftp::error::{
    Cause, FtpError, IoError, IoErrorKind, RemoteErrorType, Response, TRANSFER_ABORTED,
};
use remotefs_ftp::guard::{TransferFlags, TransferGuard};
use remotefs_ftp::tokio_stream::{TokioReadStream, TokioWriteStream};

fn raised() -> TransferFlags {
    TransferFlags {
        active: true,
        connection_usable: true,
    }
}

fn broken() -> IoError {
    IoError {
        kind: IoErrorKind::ConnectionReset,
        message: "drain failed".to_string(),
    }
}

fn aborted() -> FtpError {
    FtpError::UnexpectedResponse(Response {
        status: TRANSFER_ABORTED,
        body: b"finalization failed".to_vec(),
    })
}

/// A data connection that holds so many bytes.
fn poll(reader: &mut TokioReadStream<usize>, room: usize) -> Option<Result<usize, ()>> {
    reader.poll_read(room, |left: usize, limit: usize| {
        let n = left.min(limit);
        (left - n, Some(Ok(n)))
    })
}

#[test]
fn should_drain_limited_reader_on_finish_and_keep_control_usable() {
    let mut flags = raised();
    let mut reader = TokioReadStream::new(2 + 8 * 1024 * 1024, Some(2), TransferGuard::new(&flags));
    assert_eq!(poll(&mut reader, 4), Some(Ok(2)));
    assert_eq!(poll(&mut reader, 4), Some(Ok(0)));
    let (left, drain) = reader.begin_finish();
    assert!(drain);
    assert_eq!(left, 8 * 1024 * 1024);
    reader.finish(&mut flags, Ok(()), Ok(())).unwrap();
    assert!(!flags.active);
    assert!(flags.connection_usable);
}

#[test]
fn should_mark_connection_unusable_when_dropped_before_eof() {
    let mut flags = raised();
    let mut reader = TokioReadStream::new(2 + 8 * 1024 * 1024, None, TransferGuard::new(&flags));
    assert_eq!(poll(&mut reader, 2), Some(Ok(2)));
    reader.drop_stream(&mut flags);
    assert!(!flags.active);
    assert!(!flags.connection_usable);
}

#[test]
fn should_keep_connection_usable_when_dropped_at_eof() {
    let mut flags = raised();
    let mut reader = TokioReadStream::new(2 + 8 * 1024 * 1024, None, TransferGuard::new(&flags));
    let mut total = 0;
    loop {
        let n = poll(&mut reader, 64 * 1024).unwrap().unwrap();
        if n == 0 {
            break;
        }
        total += n;
    }
    assert_eq!(total, 2 + 8 * 1024 * 1024);
    reader.drop_stream(&mut flags);
    assert!(!flags.active);
    assert!(flags.connection_usable);
}

#[test]
fn should_finish_uploads_after_flush() {
    let mut flags = raised();
    let mut writer = TokioWriteStream::new(Vec::<u8>::new(), TransferGuard::new(&flags));
    writer.poll_write(|mut inner| {
        inner.extend_from_slice(b"hello");
        (inner, ())
    });
    assert_eq!(writer.begin_finish(), b"hello");
    writer.finish(&mut flags, Ok(()), Ok(())).unwrap();
    assert!(!flags.active);
    assert!(flags.connection_usable);
}

#[test]
fn pending_and_failed_polls_change_nothing() {
    let flags = raised();
    let mut reader = TokioReadStream::new(7usize, Some(4), TransferGuard::new(&flags));
    let pending: Option<Result<usize, ()>> = reader.poll_read(3, |inner, limit| {
        assert_eq!(limit, 3);
        (inner, None)
    });
    assert_eq!(pending, None);
    let failed: Option<Result<usize, &str>> =
        reader.poll_read(9, |inner, limit| {
            assert_eq!(limit, 4);
            (inner, Some(Err("broken")))
        });
    assert_eq!(failed, Some(Err("broken")));
    assert_eq!(reader.remaining, Some(4));
    assert!(!reader.at_eof);
    // Nothing is polled for an empty buffer or without a budget.
    reader.remaining = Some(0);
    let none: Option<Result<usize, ()>> = reader.poll_read(9, |_, _| panic!("no budget"));
    assert_eq!(none, Some(Ok(0)));
    reader.remaining = None;
    let none: Option<Result<usize, ()>> = reader.poll_read(0, |_, _| panic!("no room"));
    assert_eq!(none, Some(Ok(0)));
    assert!(!reader.at_eof);
}

#[test]
fn finishing_keeps_both_failures_and_marks_the_connection() {
    let mut flags = raised();
    let mut reader = TokioReadStream::new((), None, TransferGuard::new(&flags));
    reader.begin_finish();
    let err = reader
        .finish(&mut flags, Err(broken()), Err(aborted()))
        .unwrap_err();
    assert_eq!(err.kind(), RemoteErrorType::ConnectionError);
    assert!(err.to_text().contains("drain failed"));
    assert!(err.to_text().contains("finalization failed"));
    assert!(matches!(err.source, Some(Cause::ReadCleanup { .. })));
    assert!(!flags.active);
    assert!(!flags.connection_usable);
}

#[test]
fn a_failed_skip_is_reported_with_the_cleanup() {
    let mut flags = raised();
    let mut reader = TokioReadStream::new((), None, TransferGuard::new(&flags));
    let skip = reader.skip_prefix(9, Err(broken())).unwrap_err();
    assert!(matches!(skip.source, Some(Cause::Io(_))));
    assert!(!reader.at_eof);
    let (_, drain) = reader.begin_finish();
    assert!(drain);
    let err = reader.finish_after_skip(skip, &mut flags, Ok(()), Ok(()));
    assert_eq!(err.to_text(), "connection error (drain failed)");
    assert!(!flags.active);
    assert!(flags.connection_usable);

    let mut flags = raised();
    let mut reader = TokioReadStream::new((), None, TransferGuard::new(&flags));
    let skip = reader.skip_prefix(9, Err(broken())).unwrap_err();
    reader.begin_finish();
    let err = reader.finish_after_skip(skip, &mut flags, Ok(()), Err(aborted()));
    assert!(matches!(err.source, Some(Cause::SkipCleanup { .. })));
    assert!(!flags.connection_usable);
}

#[test]
fn a_short_skip_marks_the_end() {
    let flags = raised();
    let mut reader = TokioReadStream::new((), Some(5), TransferGuard::new(&flags));
    reader.skip_prefix(9, Ok(9)).unwrap();
    assert!(!reader.at_eof);
    reader.skip_prefix(9, Ok(8)).unwrap();
    assert!(reader.at_eof);
    assert_eq!(reader.remaining, Some(5));
    let (_, drain) = reader.begin_finish();
    assert!(!drain);
}

#[test]
fn dropped_uploads_and_taken_downloads_keep_the_connection() {
    let mut flags = raised();
    let writer = TokioWriteStream::new((), TransferGuard::new(&flags));
    writer.drop_stream(&mut flags);
    assert!(!flags.active);
    assert!(flags.connection_usable);

    let mut flags = raised();
    let mut reader = TokioReadStream::new((), None, TransferGuard::new(&flags));
    reader.begin_finish();
    reader.drop_stream(&mut flags);
    assert!(!flags.active);
    assert!(flags.connection_usable);

    let mut flags = raised();
    let mut writer = TokioWriteStream::new((), TransferGuard::new(&flags));
    writer.begin_finish();
    let err = writer
        .finish(&mut flags, Err(broken()), Err(aborted()))
        .unwrap_err();
    assert!(matches!(err.source, Some(Cause::WriteCleanup { .. })));
    assert!(!flags.connection_usable);
}
