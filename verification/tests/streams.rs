use std::io::{self, Cursor, Read};

use remotefs_ftp::error::{
    Cause, FtpError, IoError, IoErrorKind, RemoteError, RemoteErrorType, Response, TRANSFER_ABORTED,
};
use remotefs_ftp::guard::{TransferFlags, TransferGuard};
use remotefs_ftp::stream::{
    aggregate_skip_failure, finish_read, finish_write, read_limited, FtpReadStream, FtpWriteStream,
};

fn plain(err: io::Error) -> IoError {
    let kind = match err.kind() {
        io::ErrorKind::ConnectionReset => IoErrorKind::ConnectionReset,
        io::ErrorKind::PermissionDenied => IoErrorKind::PermissionDenied,
        _ => IoErrorKind::Other,
    };
    IoError {
        kind,
        message: err.to_string(),
    }
}

fn drain<R: Read>(mut inner: R) -> (R, Result<(), IoError>) {
    let outcome = io::copy(&mut inner, &mut io::sink());
    (inner, outcome.map(|_| ()).map_err(plain))
}

fn read_into(
    inner: &mut Cursor<Vec<u8>>,
    remaining: &mut Option<u64>,
    buf: &mut [u8],
) -> io::Result<usize> {
    let room = buf.len();
    read_limited(inner, remaining, room, |inner, limit| {
        let outcome = inner.read(&mut buf[..limit]);
        (inner, outcome)
    })
    .1
}

fn aborted(body: &str) -> FtpError {
    FtpError::UnexpectedResponse(Response {
        status: TRANSFER_ABORTED,
        body: body.as_bytes().to_vec(),
    })
}

fn raised() -> TransferFlags {
    TransferFlags {
        active: true,
        connection_usable: true,
    }
}

#[test]
fn should_read_everything_without_limit() {
    let mut inner = Cursor::new(b"abcdef".to_vec());
    let mut remaining = None;
    let mut buf = [0u8; 16];
    assert_eq!(read_into(&mut inner, &mut remaining, &mut buf).unwrap(), 6);
    assert_eq!(&buf[..6], b"abcdef");
    assert_eq!(read_into(&mut inner, &mut remaining, &mut buf).unwrap(), 0);
}

#[test]
fn should_stop_at_the_budget() {
    let mut inner = Cursor::new(b"abcdef".to_vec());
    let mut remaining = Some(4);
    let mut buf = [0u8; 3];
    assert_eq!(read_into(&mut inner, &mut remaining, &mut buf).unwrap(), 3);
    assert_eq!(&buf, b"abc");
    assert_eq!(remaining, Some(1));
    assert_eq!(read_into(&mut inner, &mut remaining, &mut buf).unwrap(), 1);
    assert_eq!(&buf[..1], b"d");
    assert_eq!(remaining, Some(0));
    assert_eq!(read_into(&mut inner, &mut remaining, &mut buf).unwrap(), 0);
    // the inner reader was not consumed past the budget
    assert_eq!(inner.position(), 4);
}

#[test]
fn should_return_nothing_for_zero_budget() {
    let mut inner = Cursor::new(b"abcdef".to_vec());
    let mut remaining = Some(0);
    let mut buf = [0u8; 3];
    assert_eq!(read_into(&mut inner, &mut remaining, &mut buf).unwrap(), 0);
    assert_eq!(inner.position(), 0);
}

#[test]
fn a_failed_read_spends_nothing() {
    let mut remaining = Some(4);
    let (_, outcome) = read_limited((), &mut remaining, 3, |_: (), limit: usize| {
        assert_eq!(limit, 3);
        ((), Err::<usize, &str>("broken"))
    });
    assert_eq!(outcome, Err("broken"));
    assert_eq!(remaining, Some(4));
}

#[test]
fn a_budget_beyond_the_machine_is_no_limit() {
    let mut remaining = Some(u64::MAX);
    let (_, outcome) = read_limited((), &mut remaining, 5, |_: (), limit: usize| {
        assert_eq!(limit, 5);
        ((), Ok::<usize, ()>(2))
    });
    assert_eq!(outcome, Ok(2));
    assert_eq!(remaining, Some(u64::MAX - 2));
}

#[test]
fn stream_should_drain_early_and_length_limited_reads_before_finalizing() {
    for length in [None, Some(0), Some(2), Some(6)] {
        let mut inner = Cursor::new(b"abcdef".to_vec());
        let mut remaining = length;
        read_into(&mut inner, &mut remaining, &mut [0; 2]).unwrap();
        finish_read(inner, false, drain, |inner: Cursor<Vec<u8>>| {
            assert_eq!(inner.position(), 6);
            Ok(())
        })
        .unwrap();
    }
}

struct Unreadable;

impl Read for Unreadable {
    fn read(&mut self, _buf: &mut [u8]) -> io::Result<usize> {
        panic!("must not read after EOF");
    }
}

#[test]
fn stream_should_not_drain_after_eof() {
    finish_read(Unreadable, true, drain, |_| Ok(())).unwrap();
}

#[test]
fn stream_should_preserve_typed_finalization_errors_including_426() {
    for at_eof in [false, true] {
        let err = finish_read(Cursor::new(b"data"), at_eof, drain, |_| {
            Err(aborted("aborted"))
        })
        .unwrap_err();
        assert_eq!(err.kind(), RemoteErrorType::ConnectionError);
        assert!(matches!(err.source, Some(Cause::Ftp(_))));
    }
}

struct BrokenReader;

impl Read for BrokenReader {
    fn read(&mut self, _buf: &mut [u8]) -> io::Result<usize> {
        Err(io::Error::new(
            io::ErrorKind::ConnectionReset,
            "drain failed",
        ))
    }
}

#[test]
fn stream_should_finalize_after_drain_failure_and_preserve_the_read_error() {
    let mut finalized = false;
    let err = finish_read(BrokenReader, false, drain, |_| {
        finalized = true;
        Ok(())
    })
    .unwrap_err();
    assert!(finalized);
    assert_eq!(err.kind(), RemoteErrorType::ConnectionError);
    assert!(matches!(err.source, Some(Cause::Io(_))));
    assert!(err.to_text().contains("drain failed"));
}

#[test]
fn stream_should_preserve_drain_and_finalization_errors_together() {
    let err = finish_read(BrokenReader, false, drain, |_| {
        Err(aborted("finalization failed"))
    })
    .unwrap_err();

    assert_eq!(err.kind(), RemoteErrorType::ConnectionError);
    assert!(err.to_text().contains("drain failed"));
    assert!(err.to_text().contains("finalization failed"));
    assert!(matches!(err.source, Some(Cause::ReadCleanup { .. })));
}

#[test]
fn should_aggregate_skip_and_finalization_failures() {
    let skip = RemoteError::with_message(RemoteErrorType::ConnectionError, "prefix skip failed");
    let same = aggregate_skip_failure(
        RemoteError::with_message(RemoteErrorType::ConnectionError, "prefix skip failed"),
        Ok(()),
    );
    assert_eq!(same.to_text(), skip.to_text());
    let both = aggregate_skip_failure(
        skip,
        Err(RemoteError::with_message(
            RemoteErrorType::ProtocolError,
            "finalization failed",
        )),
    );
    assert_eq!(both.kind(), RemoteErrorType::ConnectionError);
    assert!(both.to_text().contains("prefix skip failed"));
    assert!(both.to_text().contains("finalization failed"));
    assert!(matches!(both.source, Some(Cause::SkipCleanup { .. })));
}

fn open(contents: &[u8], length: Option<u64>, flags: &TransferFlags) -> FtpReadStream<Cursor<Vec<u8>>> {
    FtpReadStream::new(
        Cursor::new(contents.to_vec()),
        length,
        TransferGuard::new(flags),
    )
}

fn read_stream(reader: &mut FtpReadStream<Cursor<Vec<u8>>>, buf: &mut [u8]) -> io::Result<usize> {
    let room = buf.len();
    reader.read(room, |mut inner: Cursor<Vec<u8>>, limit: usize| {
        let outcome = inner.read(&mut buf[..limit]);
        (inner, outcome)
    })
}

#[test]
fn should_drain_abandoned_and_length_limited_readers_on_drop() {
    for length in [None, Some(0), Some(2)] {
        let mut flags = raised();
        let mut reader = open(&[b'x'; 64], length, &flags);
        let mut buf = [0; 2];
        let expected = if length == Some(0) { 0 } else { 2 };
        assert_eq!(read_stream(&mut reader, &mut buf).unwrap(), expected);
        let mut finalized = 0;
        reader.drop_stream(&mut flags, drain, |inner: Cursor<Vec<u8>>| {
            assert_eq!(inner.position(), 64);
            finalized += 1;
            Ok(())
        });
        assert_eq!(finalized, 1);
        assert!(!flags.active);
        assert!(flags.connection_usable);
    }
}

#[test]
fn should_drain_after_read_or_prefix_failure_on_drop() {
    for skip_prefix in [false, true] {
        let mut flags = raised();
        let mut reader = open(&[b'x'; 64], None, &flags);
        if skip_prefix {
            let err = reader
                .skip_prefix(1, |inner, _| {
                    (inner, Err(plain(io::Error::new(io::ErrorKind::WouldBlock, "busy"))))
                })
                .unwrap_err();
            assert!(matches!(err.source, Some(Cause::Io(_))));
        } else {
            let err = reader
                .read(1, |inner: Cursor<Vec<u8>>, _| {
                    (inner, Err(io::Error::new(io::ErrorKind::WouldBlock, "busy")))
                })
                .unwrap_err();
            assert_eq!(err.kind(), io::ErrorKind::WouldBlock);
        }
        assert!(!reader.at_eof);
        reader.drop_stream(&mut flags, drain, |inner: Cursor<Vec<u8>>| {
            assert_eq!(inner.position(), 64);
            Ok(())
        });
        assert!(!flags.active);
        assert!(flags.connection_usable);
    }
}

#[test]
fn should_drain_after_read_failure_on_finish() {
    let mut flags = raised();
    let mut reader = open(&[b'x'; 64], None, &flags);
    reader
        .read(1, |inner: Cursor<Vec<u8>>, _| {
            (inner, Err(io::Error::new(io::ErrorKind::WouldBlock, "busy")))
        })
        .unwrap_err();
    reader
        .finish(&mut flags, drain, |inner: Cursor<Vec<u8>>| {
            assert_eq!(inner.position(), 64);
            Ok(())
        })
        .unwrap();
    assert!(!flags.active);
    assert!(flags.connection_usable);
}

#[test]
fn should_finish_limited_reads_without_finalizing_twice() {
    let mut flags = raised();
    let mut reader = open(&[b'x'; 64], Some(2), &flags);
    let mut buf = [0; 8];
    assert_eq!(read_stream(&mut reader, &mut buf).unwrap(), 2);
    assert_eq!(read_stream(&mut reader, &mut buf).unwrap(), 0);
    assert!(!reader.at_eof);
    let mut finalized = 0;
    reader
        .finish(&mut flags, drain, |inner: Cursor<Vec<u8>>| {
            assert_eq!(inner.position(), 64);
            finalized += 1;
            Ok(())
        })
        .unwrap();
    assert_eq!(finalized, 1);
    assert!(!flags.active);
    assert!(flags.connection_usable);
}

#[test]
fn should_aggregate_prefix_skip_and_completion_failures() {
    let mut flags = raised();
    let mut reader = open(&[b'x'; 64], None, &flags);
    let skip = reader
        .skip_prefix(1, |inner, _| {
            (inner, Err(plain(io::Error::new(io::ErrorKind::WouldBlock, "busy"))))
        })
        .unwrap_err();
    let error = reader.finish_after_skip(skip, &mut flags, drain, |_| Err(aborted("aborted")));
    assert!(error.to_text().contains("prefix skip failed"));
    assert!(error.to_text().contains("finalization failed"));
    assert!(matches!(error.source, Some(Cause::SkipCleanup { .. })));
    assert!(!flags.active);
    assert!(!flags.connection_usable);
}

#[test]
fn a_skip_that_meets_the_end_marks_it_and_keeps_the_budget() {
    let flags = raised();
    for (found, at_eof) in [(5, false), (4, true), (0, true)] {
        let mut reader = open(b"abcdef", Some(3), &flags);
        reader
            .skip_prefix(5, |inner, offset| {
                assert_eq!(offset, 5);
                (inner, Ok(found))
            })
            .unwrap();
        assert_eq!(reader.at_eof, at_eof);
        assert_eq!(reader.remaining, Some(3));
    }
}

#[test]
fn a_range_is_skipped_to_and_cut_off() {
    let flags = raised();
    let mut reader = open(b"hello", Some(3), &flags);
    reader
        .skip_prefix(1, |mut inner, offset| {
            let outcome = io::copy(&mut inner.by_ref().take(offset), &mut io::sink());
            (inner, outcome.map_err(plain))
        })
        .unwrap();
    let mut buf = [0; 8];
    assert_eq!(read_stream(&mut reader, &mut buf).unwrap(), 3);
    assert_eq!(&buf[..3], b"ell");
    assert_eq!(read_stream(&mut reader, &mut buf).unwrap(), 0);
    assert!(!reader.at_eof);
}

#[test]
fn reading_to_the_end_is_not_drained_again() {
    let mut flags = raised();
    let mut reader = open(b"abc", None, &flags);
    let mut buf = [0; 8];
    assert_eq!(read_stream(&mut reader, &mut buf).unwrap(), 3);
    assert!(!reader.at_eof);
    assert_eq!(read_stream(&mut reader, &mut buf).unwrap(), 0);
    assert!(reader.at_eof);
    assert_eq!(read_stream(&mut reader, &mut []).unwrap(), 0);
    reader
        .finish(
            &mut flags,
            |_| panic!("must not drain at the end"),
            |_| Ok(()),
        )
        .unwrap();
    assert!(!flags.active);
}

#[test]
fn a_failed_cleanup_leaves_the_connection_unusable() {
    let mut flags = raised();
    let reader = open(b"abc", None, &flags);
    let err = reader
        .finish(&mut flags, drain, |_| Err(aborted("aborted")))
        .unwrap_err();
    assert_eq!(err.kind(), RemoteErrorType::ConnectionError);
    assert!(!flags.active);
    assert!(!flags.connection_usable);

    let mut flags = raised();
    let reader = open(b"abc", None, &flags);
    reader.drop_stream(&mut flags, drain, |_| Err(FtpError::BadResponse));
    assert!(!flags.active);
    assert!(!flags.connection_usable);
}

#[test]
fn a_taken_stream_is_only_released() {
    let mut flags = raised();
    let mut reader = open(b"abc", None, &flags);
    reader.inner = None;
    reader.drop_stream(
        &mut flags,
        |_| panic!("nothing to drain"),
        |_| panic!("nothing to finalize"),
    );
    assert!(!flags.active);
    assert!(flags.connection_usable);
}

fn broken_pipe() -> IoError {
    IoError {
        kind: IoErrorKind::PermissionDenied,
        message: "flush failed".to_string(),
    }
}

#[test]
fn ending_an_upload_reports_every_failure() {
    finish_write((), |_| ((), Ok(())), |_| Ok(())).unwrap();
    let flush = finish_write((), |_| ((), Err(broken_pipe())), |_| Ok(())).unwrap_err();
    assert_eq!(flush.kind(), RemoteErrorType::PermissionDenied);
    assert!(matches!(flush.source, Some(Cause::Io(_))));
    let finish = finish_write((), |_| ((), Ok(())), |_| Err(aborted("late"))).unwrap_err();
    assert_eq!(finish.kind(), RemoteErrorType::ConnectionError);
    assert!(matches!(finish.source, Some(Cause::Ftp(_))));
    let both = finish_write((), |_| ((), Err(broken_pipe())), |_| Err(aborted("late"))).unwrap_err();
    assert_eq!(both.kind(), RemoteErrorType::ConnectionError);
    assert!(matches!(both.source, Some(Cause::WriteCleanup { .. })));
    assert!(both.to_text().contains("flush failed"));
    assert!(both.to_text().contains("late"));
}

#[test]
fn uploads_write_through_and_release_the_client() {
    let mut flags = raised();
    let mut writer = FtpWriteStream::new(Vec::<u8>::new(), TransferGuard::new(&flags));
    let written = writer.write(|mut inner| {
        inner.extend_from_slice(b"hello");
        (inner, 5)
    });
    assert_eq!(written, 5);
    assert_eq!(writer.inner.as_deref(), Some(&b"hello"[..]));
    writer
        .finish(
            &mut flags,
            |inner| (inner, Ok(())),
            |inner: Vec<u8>| {
                assert_eq!(inner, b"hello");
                Ok(())
            },
        )
        .unwrap();
    assert!(!flags.active);
    assert!(flags.connection_usable);

    let mut flags = raised();
    let writer = FtpWriteStream::new((), TransferGuard::new(&flags));
    writer.drop_stream(&mut flags, |_| ((), Ok(())), |_| Err(aborted("late")));
    assert!(!flags.active);
    assert!(!flags.connection_usable);
}

#[test]
fn many_reads_never_exceed_the_budget() {
    let flags = raised();
    for budget in 0..12u64 {
        let mut reader = open(b"abcdefgh", Some(budget), &flags);
        let mut total = 0;
        let mut buf = [0; 3];
        loop {
            let n = read_stream(&mut reader, &mut buf).unwrap();
            if n == 0 {
                break;
            }
            total += n as u64;
            assert_eq!(reader.remaining, Some(budget - total));
        }
        assert_eq!(total, budget.min(8));
    }
}
