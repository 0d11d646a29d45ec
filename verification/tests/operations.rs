use remotefs_ftp::error::{
    FtpError, IoError, IoErrorKind, RemoteError, RemoteErrorType, Response, FILE_UNAVAILABLE,
    NOT_AVAILABLE,
};
use remotefs_ftp::file::{File, FileType, Metadata};
use remotefs_ftp::lookup::Ask;
use remotefs_ftp::operation::{
    append, copy, create, create_dir, exec, exec_output, open, remove_dir, remove_file, rename,
    request_offset, set_metadata, symlink, Command, Opened, Progress, Step, Transcript,
};

type Unit = Result<(), RemoteError>;

fn refused(status: u32) -> FtpError {
    FtpError::UnexpectedResponse(Response {
        status,
        body: b"refused".to_vec(),
    })
}

fn lost() -> FtpError {
    FtpError::ConnectionError(IoError {
        kind: IoErrorKind::ConnectionReset,
        message: "reset".to_string(),
    })
}

fn admitted(replies: Vec<Result<(), FtpError>>) -> Transcript {
    Transcript {
        admission: Some(Ok(())),
        replies,
        answers: Vec::new(),
    }
}

/// A transcript, and what comes of it.
type Operation = fn(&[u8], &Transcript) -> Progress<Unit>;

const ON_ONE_PATH: [(Operation, &str); 5] = [
    (create_dir, "MakeDir"),
    (remove_file, "Delete"),
    (remove_dir, "RemoveDir"),
    (create, "Store"),
    (append, "Append"),
];

#[test]
fn operations_lock_then_send_then_return() {
    for (operation, command) in ON_ONE_PATH {
        let progress = operation(b"/dir/x", &Transcript::new());
        assert!(matches!(progress.step, Step::Lock));
        assert!(!progress.connection_lost);
        let progress = operation(b"/dir/x", &admitted(vec![]));
        match progress.step {
            Step::Send(sent) => {
                assert_eq!(format!("{sent:?}"), format!("{command}(\"/dir/x\")"))
            }
            _ => unreachable!(),
        }
        let progress = operation(b"/dir/x", &admitted(vec![Ok(())]));
        assert!(matches!(progress.step, Step::Done(Ok(()))));
        assert!(!progress.connection_lost);
    }
}

#[test]
fn operations_that_are_not_admitted_send_nothing() {
    for (operation, _) in ON_ONE_PATH {
        let refusal = Transcript {
            admission: Some(Err(RemoteError::new(RemoteErrorType::NotConnected))),
            replies: vec![Err(lost())],
            answers: Vec::new(),
        };
        let progress = operation(b"/x", &refusal);
        match progress.step {
            Step::Done(Err(e)) => assert_eq!(e.kind(), RemoteErrorType::NotConnected),
            _ => unreachable!(),
        }
        assert!(!progress.connection_lost);
    }
}

#[test]
fn operations_check_their_path_first() {
    for (operation, _) in ON_ONE_PATH {
        for path in ["x", "/../x", "/a\r\nb"] {
            let progress = operation(path.as_bytes(), &admitted(vec![Err(lost())]));
            match progress.step {
                Step::Done(Err(e)) => assert_eq!(e.kind(), RemoteErrorType::InvalidPath),
                _ => unreachable!(),
            }
            assert!(!progress.connection_lost);
        }
    }
    for (src, dest) in [("x", "/y"), ("/x", "y")] {
        let progress = rename(src.as_bytes(), dest.as_bytes(), &admitted(vec![]));
        match progress.step {
            Step::Done(Err(e)) => assert_eq!(e.kind(), RemoteErrorType::InvalidPath),
            _ => unreachable!(),
        }
    }
}

#[test]
fn refusals_are_looked_into_and_lost_connections_are_marked() {
    for (operation, _) in ON_ONE_PATH {
        let progress = operation(b"/dir/x", &admitted(vec![Err(refused(FILE_UNAVAILABLE))]));
        match progress.step {
            Step::Look(Ask::List(path)) => assert_eq!(path, "/dir"),
            _ => unreachable!(),
        }
        assert!(!progress.connection_lost);
        let progress = operation(b"/dir/x", &admitted(vec![Err(refused(NOT_AVAILABLE))]));
        match progress.step {
            Step::Done(Err(e)) => assert_eq!(e.kind(), RemoteErrorType::ConnectionError),
            _ => unreachable!(),
        }
        assert!(progress.connection_lost);
        let progress = operation(b"/dir/x", &admitted(vec![Err(lost())]));
        assert!(matches!(progress.step, Step::Done(Err(_))));
        assert!(progress.connection_lost);
    }
}

fn entry(path: &str, file_type: FileType) -> File {
    File {
        path: path.to_string(),
        metadata: Metadata {
            file_type,
            size: None,
            modified: None,
            mode: None,
            uid: None,
            gid: None,
            symlink: None,
        },
    }
}

#[test]
fn answers_explain_the_refusal() {
    let transcript = Transcript {
        admission: Some(Ok(())),
        replies: vec![Err(refused(FILE_UNAVAILABLE))],
        answers: vec![Ok(vec![
            entry("/dir/x", FileType::Directory),
            entry("/dir/y", FileType::File),
        ])],
    };
    match remove_file(b"/dir/x", &transcript).step {
        Step::Done(Err(e)) => assert_eq!(e.kind(), RemoteErrorType::BadFile),
        _ => unreachable!(),
    }
    match create_dir(b"/dir/x", &transcript).step {
        Step::Done(Err(e)) => assert_eq!(e.kind(), RemoteErrorType::AlreadyExists),
        _ => unreachable!(),
    }
    match remove_dir(b"/dir/x", &transcript).step {
        Step::Look(Ask::List(path)) => assert_eq!(path, "/dir/x"),
        _ => unreachable!(),
    }
    match rename(b"/dir/z", b"/w", &transcript).step {
        Step::Done(Err(e)) => assert_eq!(e.kind(), RemoteErrorType::NoSuchFileOrDirectory),
        _ => unreachable!(),
    }
}

#[test]
fn renames_send_both_paths() {
    assert!(matches!(
        rename(b"/a", b"/b", &Transcript::new()).step,
        Step::Lock
    ));
    match rename(b"/a", b"/b", &admitted(vec![])).step {
        Step::Send(Command::Rename(src, dest)) => {
            assert_eq!(src, "/a");
            assert_eq!(dest, "/b");
        }
        _ => unreachable!(),
    }
    assert!(matches!(
        rename(b"/a", b"/b", &admitted(vec![Ok(())])).step,
        Step::Done(Ok(()))
    ));
}

/// Opens with a server that answers in this way, and returns what was sent and what came of it.
fn drive_open(
    offset: Option<u64>,
    script: Vec<Result<(), FtpError>>,
) -> (Vec<String>, Result<Opened, RemoteError>, bool) {
    let mut sent = Vec::new();
    let mut transcript = admitted(vec![]);
    for reply in script {
        let progress = open(b"/file", offset, &transcript);
        assert!(!progress.connection_lost);
        match progress.step {
            Step::Send(command) => sent.push(format!("{command:?}")),
            _ => unreachable!(),
        }
        transcript.replies.push(reply);
    }
    let progress = open(b"/file", offset, &transcript);
    match progress.step {
        Step::Done(result) => (sent, result, progress.connection_lost),
        step => panic!("{step:?}"),
    }
}

#[test]
fn ranged_open_requests_rest_before_retr() {
    let (sent, opened, lost) = drive_open(Some(2), vec![Ok(()), Ok(())]);
    assert_eq!(sent, ["Restart(2)", "Retrieve(\"/file\")"]);
    assert_eq!(opened.unwrap(), Opened { skip: 0 });
    assert!(!lost);
}

#[test]
fn opening_at_the_start_sends_no_marker() {
    for offset in [None, Some(0)] {
        let (sent, opened, _) = drive_open(offset, vec![Ok(())]);
        assert_eq!(sent, ["Retrieve(\"/file\")"]);
        assert_eq!(opened.unwrap(), Opened { skip: 0 });
    }
}

#[test]
fn a_refused_marker_is_skipped_locally() {
    let (sent, opened, lost) = drive_open(Some(7), vec![Err(refused(502)), Ok(())]);
    assert_eq!(sent, ["Restart(7)", "Retrieve(\"/file\")"]);
    assert_eq!(opened.unwrap(), Opened { skip: 7 });
    assert!(!lost);
}

#[test]
fn a_marker_is_taken_back_when_the_file_is_refused() {
    let (sent, opened, _) = drive_open(
        Some(7),
        vec![Ok(()), Err(refused(501)), Ok(()), Ok(())],
    );
    assert_eq!(
        sent,
        [
            "Restart(7)",
            "Retrieve(\"/file\")",
            "Restart(0)",
            "Retrieve(\"/file\")"
        ]
    );
    assert_eq!(opened.unwrap(), Opened { skip: 7 });

    let (_, failed, lost) = drive_open(
        Some(7),
        vec![Ok(()), Err(refused(501)), Err(refused(502))],
    );
    assert_eq!(failed.unwrap_err().kind(), RemoteErrorType::UnsupportedFeature);
    assert!(lost);

    let (_, failed, lost) = drive_open(
        Some(7),
        vec![Ok(()), Err(refused(501)), Ok(()), Err(refused(425))],
    );
    assert_eq!(failed.unwrap_err().kind(), RemoteErrorType::ConnectionError);
    assert!(!lost);
}

#[test]
fn a_marker_that_loses_the_connection_fails_the_open() {
    for error in [refused(NOT_AVAILABLE), lost(), FtpError::BadResponse] {
        let (sent, failed, lost) = drive_open(Some(7), vec![Err(error)]);
        assert_eq!(sent, ["Restart(7)"]);
        assert!(failed.is_err());
        assert!(lost);
    }
}

#[test]
fn a_refused_file_is_looked_into() {
    let progress = open(b"/d/f", None, &admitted(vec![Err(refused(FILE_UNAVAILABLE))]));
    match progress.step {
        Step::Look(Ask::List(path)) => assert_eq!(path, "/d"),
        _ => unreachable!(),
    }
    let (_, failed, lost) = drive_open(None, vec![Err(refused(NOT_AVAILABLE))]);
    assert_eq!(failed.unwrap_err().kind(), RemoteErrorType::ConnectionError);
    assert!(lost);
    assert!(matches!(open(b"/f", None, &Transcript::new()).step, Step::Lock));
    match open(b"f", None, &Transcript::new()).step {
        Step::Done(Err(e)) => assert_eq!(e.kind(), RemoteErrorType::InvalidPath),
        _ => unreachable!(),
    }
}

#[test]
fn markers_are_judged_by_their_reply() {
    assert!(request_offset(Ok(())).unwrap());
    assert!(!request_offset(Err(refused(502))).unwrap());
    assert!(!request_offset(Err(refused(0))).unwrap());
    assert_eq!(
        request_offset(Err(refused(NOT_AVAILABLE))).unwrap_err().kind(),
        RemoteErrorType::ConnectionError
    );
    assert_eq!(
        request_offset(Err(FtpError::BadResponse)).unwrap_err().kind(),
        RemoteErrorType::ProtocolError
    );
}

#[test]
fn unsupported_operations_validate_every_path() {
    let absolute = b"/file";
    let relative = b"file";
    for result in [
        set_metadata(relative),
        copy(relative, absolute),
        copy(absolute, relative),
        symlink(relative, absolute),
        symlink(absolute, relative),
    ] {
        assert_eq!(result.unwrap_err().kind(), RemoteErrorType::InvalidPath);
    }
    for result in [
        set_metadata(absolute),
        copy(absolute, absolute),
        symlink(absolute, absolute),
    ] {
        assert_eq!(
            result.unwrap_err().kind(),
            RemoteErrorType::UnsupportedFeature
        );
    }
}

#[test]
fn site_commands_return_what_was_printed() {
    assert!(matches!(exec("NOOP", &None, None).step, Step::Lock));
    match exec("NOOP", &Some(Ok(())), None).step {
        Step::Send(Command::Site(cmd)) => assert_eq!(cmd, "NOOP"),
        _ => unreachable!(),
    }
    let response = |body: &[u8]| Response {
        status: 200,
        body: body.to_vec(),
    };
    let progress = exec("NOOP", &Some(Ok(())), Some(Ok(response(b"200 gr\xc3\xbcn"))));
    match progress.step {
        Step::Done(Ok(output)) => {
            assert_eq!(output.status, 200);
            assert_eq!(output.output, "200 gr\u{fc}n");
        }
        _ => unreachable!(),
    }
    assert!(!progress.connection_lost);
    // Invalid UTF-8 is replaced.
    assert_eq!(exec_output(response(b"a\xffb")).output, "a\u{fffd}b");
    let progress = exec("NOOP", &Some(Ok(())), Some(Err(refused(NOT_AVAILABLE))));
    match progress.step {
        Step::Done(Err(e)) => assert_eq!(e.kind(), RemoteErrorType::ConnectionError),
        _ => unreachable!(),
    }
    assert!(progress.connection_lost);
    let refusal = Some(Err(RemoteError::new(RemoteErrorType::NotConnected)));
    let progress = exec("NOOP", &refusal, Some(Err(lost())));
    match progress.step {
        Step::Done(Err(e)) => assert_eq!(e.kind(), RemoteErrorType::NotConnected),
        _ => unreachable!(),
    }
    assert!(!progress.connection_lost);
}
