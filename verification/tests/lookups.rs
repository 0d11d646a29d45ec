use remotefs_ftp::client::{ConnectStep, ListTransfer, TokioFtpFs};
use remotefs_ftp::error::{
    FtpError, RemoteError, RemoteErrorType, Response, BAD_FILENAME, FILE_UNAVAILABLE, NOT_LOGGED_IN,
};
use remotefs_ftp::file::File;
use remotefs_ftp::lookup::{
    ancestor_proves_absent, classify_create_dir_refusal, classify_create_refusal,
    classify_file_refusal, classify_remove_dir_refusal, classify_rename_refusal,
    destination_parent_is_missing, Answer, Ask, Looked,
};
use remotefs_ftp::operation::{exec, list_dir, path_exists, stat, Step};

/// What the server answers to a listing.
enum Reply {
    Listing(&'static str),
    Refused,
    Fails(RemoteErrorType),
}

fn refused(status: u32) -> FtpError {
    FtpError::UnexpectedResponse(Response {
        status,
        body: b"listing denied".to_vec(),
    })
}

/// A client that is connected to a server which accepts everything.
fn connected() -> TokioFtpFs {
    let mut client = TokioFtpFs::new("localhost", 21);
    client.begin_connect().unwrap();
    let mut replies = Vec::new();
    loop {
        match client.connect(&replies) {
            ConnectStep::Done(result) => {
                result.unwrap();
                client.finish_connect(None);
                return client;
            }
            _ => replies.push(Ok(())),
        }
    }
}

/// Asks the client to admit one operation, which is completed.
fn begin_operation(client: &mut TokioFtpFs) -> Result<(), RemoteError> {
    let mut guard = client.lock_stream()?;
    guard.complete();
    guard.release(client);
    Ok(())
}

/// Runs a site command which the server accepts, and returns its status.
fn run_noop(client: &mut TokioFtpFs) -> u32 {
    let admission = Some(begin_operation(client));
    let reply = Ok(Response {
        status: 200,
        body: b"200 noop".to_vec(),
    });
    let progress = exec("NOOP", &admission, Some(reply));
    assert!(!progress.connection_lost);
    match progress.step {
        Step::Done(result) => result.unwrap().status,
        _ => unreachable!(),
    }
}

/// Ends the connection, which must have stayed usable.
fn disconnect(mut client: TokioFtpFs) {
    client.disconnect().unwrap();
    client.finish_disconnect(Ok(())).unwrap();
}

fn answer(client: &mut TokioFtpFs, path: &str, reply: &Reply) -> Answer {
    begin_operation(client)?;
    match reply {
        Reply::Listing(body) => client.list_dir_raw(
            path,
            ListTransfer::Ran {
                read: Ok(body.as_bytes().to_vec()),
                finish: Ok(()),
            },
        ),
        Reply::Refused => client.list_dir_raw(path, ListTransfer::Refused(refused(FILE_UNAVAILABLE))),
        Reply::Fails(kind) => Err(RemoteError::with_message(*kind, "scripted")),
    }
}

/// Answers what is asked by the script, in order and to its end.
fn run_on<T>(
    client: &mut TokioFtpFs,
    script: &[(&str, Reply)],
    mut next: impl FnMut(&Vec<Answer>) -> Result<T, Ask>,
) -> T {
    let mut answers: Vec<Answer> = Vec::new();
    loop {
        match next(&answers) {
            Ok(result) => {
                assert_eq!(answers.len(), script.len());
                return result;
            }
            Err(ask) => {
                let (path, reply) = &script[answers.len()];
                match ask {
                    Ask::List(asked) => assert_eq!(&asked, path),
                    Ask::Check => assert_eq!(*path, "check"),
                }
                answers.push(answer(client, path, reply));
            }
        }
    }
}

/// Answers what is asked by the script over one connection, which stays usable.
fn run<T>(script: &[(&str, Reply)], next: impl FnMut(&Vec<Answer>) -> Result<T, Ask>) -> T {
    let mut client = connected();
    let result = run_on(&mut client, script, next);
    disconnect(client);
    result
}

fn next_stat(path: &str, answers: &Vec<Answer>) -> Result<Result<File, RemoteError>, Ask> {
    match stat(path.as_bytes(), answers) {
        Step::Look(ask) => Err(ask),
        Step::Done(result) => Ok(result),
        _ => unreachable!(),
    }
}

fn next_list(path: &str, answers: &Vec<Answer>) -> Result<Result<Vec<File>, RemoteError>, Ask> {
    match list_dir(path.as_bytes(), answers) {
        Step::Look(ask) => Err(ask),
        Step::Done(result) => Ok(result),
        _ => unreachable!(),
    }
}

fn run_stat(path: &str, script: &[(&str, Reply)]) -> Result<File, RemoteError> {
    run(script, |answers| next_stat(path, answers))
}

fn run_list(path: &str, script: &[(&str, Reply)]) -> Result<Vec<File>, RemoteError> {
    run(script, |answers| next_list(path, answers))
}

fn run_exists(path: &str, script: &[(&str, Reply)]) -> Result<bool, RemoteError> {
    run(script, |answers| match path_exists(path.as_bytes(), answers) {
        Step::Look(ask) => Err(ask),
        Step::Done(result) => Ok(result),
        _ => unreachable!(),
    })
}

fn run_looked<T>(
    script: &[(&str, Reply)],
    mut next: impl FnMut(&Vec<Answer>) -> Looked<T>,
) -> T {
    run(script, |answers| match next(answers) {
        Looked::Ask(ask) => Err(ask),
        Looked::Is { value, next } => {
            assert_eq!(next, answers.len());
            Ok(value)
        }
    })
}

#[test]
fn list_dir_classifies_a_direct_single_file_listing() {
    let row = "-rw-r--r-- 1 test test 4 Jan 01 12:00 file\r\n";
    let err = run_list(
        "/dir/file",
        &[
            ("/dir/file", Reply::Listing(row)),
            ("/dir", Reply::Listing(row)),
        ],
    )
    .unwrap_err();
    assert_eq!(err.kind(), RemoteErrorType::BadFile);
    assert_eq!(err.to_text(), "bad file (LIST requires a directory path)");
}

#[test]
fn list_dir_classifies_a_missing_path_after_parent_probe() {
    let err = run_list(
        "/dir/missing",
        &[
            ("/dir/missing", Reply::Refused),
            (
                "/dir",
                Reply::Listing("-rw-r--r-- 1 test test 4 Jan 01 12:00 other\r\n"),
            ),
        ],
    )
    .unwrap_err();
    assert_eq!(err.kind(), RemoteErrorType::NoSuchFileOrDirectory);
}

#[test]
fn list_dir_succeeds_when_only_the_requested_directory_can_be_listed() {
    let mut client = connected();
    let entries = run_on(
        &mut client,
        &[(
            "/allowed",
            Reply::Listing("-rw-r--r-- 1 1000 1000 0 Nov 5 2024 child.txt\r\n"),
        )],
        |answers| next_list("/allowed", answers),
    )
    .unwrap();
    assert_eq!(entries.len(), 1);
    assert_eq!(entries[0].path, "/allowed/child.txt");
    assert_eq!(run_noop(&mut client), 200);
    disconnect(client);
}

#[test]
fn stat_rejects_children_beneath_a_regular_file_listing() {
    let row = "-rw-r--r-- 1 1000 1000 0 Nov 5 2024 file.txt\r\n";
    let err = run_stat(
        "/file.txt/file.txt",
        &[
            ("/file.txt", Reply::Listing(row)),
            ("/", Reply::Listing(row)),
        ],
    )
    .unwrap_err();
    assert_eq!(err.kind(), RemoteErrorType::BadFile);
    assert_eq!(err.to_text(), "bad file (the parent path is a regular file)");
}

#[test]
fn stat_keeps_a_child_when_parent_disambiguation_is_denied() {
    let file = run_stat(
        "/pub/pub",
        &[
            (
                "/pub",
                Reply::Listing("-rw-r--r-- 1 1000 1000 0 Nov 5 2024 pub\r\n"),
            ),
            ("/", Reply::Refused),
        ],
    )
    .unwrap();
    assert_eq!(file.path, "/pub/pub");
    assert!(file.is_file());
}

#[test]
fn list_dir_keeps_an_empty_directory_symlink_listing() {
    let entries = run_list(
        "/link",
        &[
            ("/link", Reply::Listing("")),
            (
                "/",
                Reply::Listing("lrwxrwxrwx 1 1000 1000 6 Nov 5 2024 link -> target\r\n"),
            ),
        ],
    )
    .unwrap();
    assert!(entries.is_empty());
}

#[test]
fn ancestor_probe_lists_each_parent_at_most_once() {
    let mut client = connected();
    let err = run_on(
        &mut client,
        &[
            ("/a/b/c", Reply::Refused),
            ("/a/b", Reply::Refused),
            ("/a", Reply::Refused),
            ("/", Reply::Refused),
        ],
        |answers| next_stat("/a/b/c/file", answers),
    )
    .unwrap_err();
    assert_eq!(err.kind(), RemoteErrorType::PermissionDenied);
    assert_eq!(run_noop(&mut client), 200);
    disconnect(client);
}

#[test]
fn probing_stops_at_its_limit() {
    let deep = "/1/2/3/4/5/6/7/8/9/10";
    let absent = run_looked(
        &[
            ("/1/2/3/4/5/6/7/8/9", Reply::Refused),
            ("/1/2/3/4/5/6/7/8", Reply::Refused),
            ("/1/2/3/4/5/6/7", Reply::Refused),
            ("/1/2/3/4/5/6", Reply::Refused),
            ("/1/2/3/4/5", Reply::Refused),
            ("/1/2/3/4", Reply::Refused),
            ("/1/2/3", Reply::Refused),
            ("/1/2", Reply::Refused),
        ],
        |answers| ancestor_proves_absent(deep, answers, 0),
    );
    assert!(!absent);
    // The first listing decides.
    assert!(run_looked(
        &[
            ("/1", Reply::Refused),
            ("/", Reply::Listing("drwxr-xr-x 2 0 0 4096 Nov 5 2018 other\r\n")),
        ],
        |answers| ancestor_proves_absent("/1/2", answers, 0)
    ));
    assert!(!run_looked(
        &[
            ("/1", Reply::Refused),
            ("/", Reply::Listing("drwxr-xr-x 2 0 0 4096 Nov 5 2018 1\r\n")),
        ],
        |answers| ancestor_proves_absent("/1/2", answers, 0)
    ));
    assert!(!run_looked(
        &[("/1", Reply::Fails(RemoteErrorType::ConnectionError))],
        |answers| ancestor_proves_absent("/1/2", answers, 0)
    ));
    assert!(!run_looked(&[], |answers| ancestor_proves_absent("/", answers, 0)));
}

#[test]
fn lookups_end_after_the_components_and_the_limit() {
    // Each listing but the last may be that of a file; the last directory is refused, and so are
    // those above it.
    let same = "-rw-r--r-- 1 test test 4 Jan 01 2018 x\r\n";
    let path = "/1/2/3/4/5/6/7/8/9/x/x/x";
    let mut client = connected();
    let mut answers: Vec<Answer> = Vec::new();
    let result = loop {
        match stat(path.as_bytes(), &answers) {
            Step::Look(Ask::List(asked)) => {
                let reply = if asked.ends_with("/x") {
                    Reply::Listing(same)
                } else {
                    Reply::Refused
                };
                answers.push(answer(&mut client, &asked, &reply));
            }
            Step::Done(result) => break result,
            _ => unreachable!(),
        }
    };
    // Two listings, the refused directory, and eight above it.
    assert_eq!(answers.len(), 11);
    // The upper of the two listings says that the path stands below a file.
    assert_eq!(result.unwrap_err().kind(), RemoteErrorType::BadFile);
}

#[test]
fn the_root_is_a_directory_once_the_connection_takes_commands() {
    let root = run_stat("/", &[("check", Reply::Listing(""))]).unwrap();
    assert_eq!(root.path, "/");
    assert!(root.is_dir());
    assert_eq!(root.metadata.size, None);
    let err = run_stat("/.", &[("check", Reply::Fails(RemoteErrorType::NotConnected))]).unwrap_err();
    assert_eq!(err.kind(), RemoteErrorType::NotConnected);
}

#[test]
fn the_root_may_be_empty() {
    assert!(run_list("/", &[("/", Reply::Listing(""))])
        .unwrap()
        .is_empty());
}

#[test]
fn an_empty_listing_of_a_file_is_no_directory() {
    let err = run_list(
        "/f",
        &[
            ("/f", Reply::Listing("")),
            (
                "/",
                Reply::Listing("-rw-r--r-- 1 0 0 1 Nov 5 2018 f\r\n"),
            ),
        ],
    )
    .unwrap_err();
    assert_eq!(err.kind(), RemoteErrorType::BadFile);
    // What cannot be looked up keeps its listing.
    assert!(run_list(
        "/f",
        &[
            ("/f", Reply::Listing("")),
            ("/", Reply::Fails(RemoteErrorType::ConnectionError)),
        ],
    )
    .unwrap()
    .is_empty());
}

#[test]
fn failed_listings_are_reported_as_they_are() {
    for kind in [
        RemoteErrorType::ConnectionError,
        RemoteErrorType::ProtocolError,
        RemoteErrorType::NotConnected,
    ] {
        let err = run_stat("/a/b", &[("/a", Reply::Fails(kind))]).unwrap_err();
        assert_eq!(err.kind(), kind);
        let err = run_list("/a/b", &[("/a/b", Reply::Fails(kind))]).unwrap_err();
        assert_eq!(err.kind(), kind);
    }
}

#[test]
fn stat_finds_the_entry_by_its_path() {
    let rows = "-rw-r--r-- 1 0 0 1 Nov 5 2018 a\r\ndrwxr-xr-x 2 0 0 4096 Nov 5 2018 b\r\n";
    let file = run_stat("/dir//b/.", &[("/dir", Reply::Listing(rows))]).unwrap();
    assert_eq!(file.path, "/dir/b");
    assert!(file.is_dir());
    let err = run_stat("/dir/c", &[("/dir", Reply::Listing(rows))]).unwrap_err();
    assert_eq!(err.to_text(), "no such file or directory");
    assert!(run_exists("/dir/a", &[("/dir", Reply::Listing(rows))]).unwrap());
    assert!(!run_exists("/dir/c", &[("/dir", Reply::Listing(rows))]).unwrap());
    let err = run_exists("/dir/c", &[("/dir", Reply::Fails(RemoteErrorType::ProtocolError))])
        .unwrap_err();
    assert_eq!(err.kind(), RemoteErrorType::ProtocolError);
}

#[test]
fn invalid_paths_are_refused_before_anything_is_asked() {
    for path in ["file", "//a", "/a/../b"] {
        assert_eq!(
            run_stat(path, &[]).unwrap_err().kind(),
            RemoteErrorType::InvalidPath
        );
        assert_eq!(
            run_list(path, &[]).unwrap_err().kind(),
            RemoteErrorType::InvalidPath
        );
        assert_eq!(
            run_exists(path, &[]).unwrap_err().kind(),
            RemoteErrorType::InvalidPath
        );
    }
}

const DIR_F: &str = "drwxr-xr-x 2 0 0 4096 Nov 5 2018 f\r\n";
const FILE_F: &str = "-rw-r--r-- 1 0 0 1 Nov 5 2018 f\r\n";
const OTHER: &str = "-rw-r--r-- 1 0 0 1 Nov 5 2018 other\r\n-rw-r--r-- 1 0 0 1 Nov 5 2018 more\r\n";

#[test]
fn file_refusals_are_classified_by_what_is_there() {
    for (script, kind) in [
        (vec![("/", Reply::Listing(DIR_F))], RemoteErrorType::BadFile),
        (
            vec![("/", Reply::Listing(OTHER))],
            RemoteErrorType::NoSuchFileOrDirectory,
        ),
        (
            vec![("/", Reply::Listing(FILE_F))],
            RemoteErrorType::NoSuchFileOrDirectory,
        ),
        (
            vec![("/", Reply::Refused)],
            RemoteErrorType::NoSuchFileOrDirectory,
        ),
    ] {
        let err = run_looked(&script, |answers| {
            classify_file_refusal("/f", refused(FILE_UNAVAILABLE), answers, 0)
        });
        assert_eq!(err.kind(), kind);
        assert!(err.to_text().contains("listing denied"));
    }
    let err = run_looked(&[], |answers| {
        classify_file_refusal("/f", refused(NOT_LOGGED_IN), answers, 0)
    });
    assert_eq!(err.kind(), RemoteErrorType::AuthenticationFailed);
}

#[test]
fn create_refusals_are_classified_by_what_is_there() {
    for (path, script, kind) in [
        (
            "/f",
            vec![("/", Reply::Listing(DIR_F))],
            RemoteErrorType::AlreadyExists,
        ),
        (
            "/f",
            vec![("/", Reply::Listing(FILE_F))],
            RemoteErrorType::PermissionDenied,
        ),
        // Nothing there, and its directory is the root.
        (
            "/f",
            vec![("/", Reply::Listing(OTHER)), ("check", Reply::Listing(""))],
            RemoteErrorType::PermissionDenied,
        ),
        // Its directory is absent.
        (
            "/d/f",
            vec![
                ("/d", Reply::Refused),
                ("/", Reply::Listing(OTHER)),
                ("/", Reply::Listing(OTHER)),
            ],
            RemoteErrorType::NoSuchFileOrDirectory,
        ),
        (
            "/d/f",
            vec![("/d", Reply::Fails(RemoteErrorType::ConnectionError))],
            RemoteErrorType::PermissionDenied,
        ),
    ] {
        for status in [FILE_UNAVAILABLE, BAD_FILENAME] {
            let err = run_looked(&script, |answers| {
                classify_create_refusal(path, refused(status), answers, 0)
            });
            assert_eq!(err.kind(), kind);
        }
    }
    let err = run_looked(&[], |answers| {
        classify_create_refusal("/f", refused(502), answers, 0)
    });
    assert_eq!(err.kind(), RemoteErrorType::UnsupportedFeature);
}

#[test]
fn create_dir_refusals_are_classified_by_what_is_there() {
    for (path, script, kind) in [
        (
            "/f",
            vec![("/", Reply::Listing(DIR_F))],
            RemoteErrorType::AlreadyExists,
        ),
        (
            "/f",
            vec![("/", Reply::Listing(FILE_F))],
            RemoteErrorType::AlreadyExists,
        ),
        (
            "/f",
            vec![("/", Reply::Listing(OTHER)), ("check", Reply::Listing(""))],
            RemoteErrorType::PermissionDenied,
        ),
        (
            "/d/f",
            vec![
                ("/d", Reply::Refused),
                ("/", Reply::Listing(OTHER)),
                ("/", Reply::Listing(OTHER)),
            ],
            RemoteErrorType::NoSuchFileOrDirectory,
        ),
        (
            "/f",
            vec![("/", Reply::Refused)],
            RemoteErrorType::PermissionDenied,
        ),
    ] {
        let err = run_looked(&script, |answers| {
            classify_create_dir_refusal(path, refused(FILE_UNAVAILABLE), answers, 0)
        });
        assert_eq!(err.kind(), kind);
    }
    let err = run_looked(&[], |answers| {
        classify_create_dir_refusal("/f", FtpError::BadResponse, answers, 0)
    });
    assert_eq!(err.kind(), RemoteErrorType::ProtocolError);
}

#[test]
fn remove_dir_refusals_are_classified_by_what_is_there() {
    for (script, kind) in [
        (vec![("/", Reply::Listing(FILE_F))], RemoteErrorType::BadFile),
        (
            vec![("/", Reply::Listing(DIR_F)), ("/f", Reply::Listing(OTHER))],
            RemoteErrorType::DirectoryNotEmpty,
        ),
        (
            vec![
                ("/", Reply::Listing(DIR_F)),
                ("/f", Reply::Listing("")),
                ("/", Reply::Listing(DIR_F)),
            ],
            RemoteErrorType::PermissionDenied,
        ),
        (
            vec![
                ("/", Reply::Listing(DIR_F)),
                ("/f", Reply::Fails(RemoteErrorType::ConnectionError)),
            ],
            RemoteErrorType::PermissionDenied,
        ),
        (
            vec![("/", Reply::Listing(OTHER))],
            RemoteErrorType::NoSuchFileOrDirectory,
        ),
        (
            vec![("/", Reply::Refused)],
            RemoteErrorType::PermissionDenied,
        ),
    ] {
        let err = run_looked(&script, |answers| {
            classify_remove_dir_refusal("/f", refused(FILE_UNAVAILABLE), answers, 0)
        });
        assert_eq!(err.kind(), kind);
    }
    let err = run_looked(&[], |answers| {
        classify_remove_dir_refusal("/f", refused(BAD_FILENAME), answers, 0)
    });
    assert_eq!(err.kind(), RemoteErrorType::PermissionDenied);
}

#[test]
fn rename_refusals_tell_source_and_destination_apart() {
    for (script, kind) in [
        (
            vec![("/", Reply::Listing(OTHER))],
            RemoteErrorType::NoSuchFileOrDirectory,
        ),
        (
            vec![("/", Reply::Refused)],
            RemoteErrorType::PermissionDenied,
        ),
        (
            vec![("/", Reply::Listing(FILE_F)), ("/", Reply::Listing(OTHER))],
            RemoteErrorType::NoSuchFileOrDirectory,
        ),
        (
            vec![
                ("/", Reply::Listing(FILE_F)),
                ("/", Reply::Listing("drwxr-xr-x 2 0 0 4096 Nov 5 2018 d\r\n")),
            ],
            RemoteErrorType::PermissionDenied,
        ),
    ] {
        let err = run_looked(&script, |answers| {
            classify_rename_refusal("/f", "/d/g", refused(BAD_FILENAME), answers, 0)
        });
        assert_eq!(err.kind(), kind);
    }
    let err = run_looked(&[], |answers| {
        classify_rename_refusal("/f", "/g", refused(NOT_LOGGED_IN), answers, 0)
    });
    assert_eq!(err.kind(), RemoteErrorType::AuthenticationFailed);
}

#[test]
fn a_missing_parent_is_known_only_when_proved() {
    assert!(!run_looked(&[], |answers| destination_parent_is_missing(
        "/", answers, 0
    )));
    assert!(!run_looked(&[("check", Reply::Listing(""))], |answers| {
        destination_parent_is_missing("/f", answers, 0)
    }));
    assert!(run_looked(&[("/", Reply::Listing(OTHER))], |answers| {
        destination_parent_is_missing("/d/f", answers, 0)
    }));
    assert!(!run_looked(&[("/", Reply::Refused)], |answers| {
        destination_parent_is_missing("/d/f", answers, 0)
    }));
}

#[test]
fn answers_beyond_the_result_change_nothing() {
    let mut answers: Vec<Answer> = vec![answer(&mut connected(), "/", &Reply::Listing(FILE_F))];
    for _ in 0..3 {
        match stat(b"/f", &answers) {
            Step::Done(Ok(file)) => assert_eq!(file.path, "/f"),
            _ => unreachable!(),
        }
        answers.push(Err(RemoteError::new(RemoteErrorType::ConnectionError)));
    }
}
