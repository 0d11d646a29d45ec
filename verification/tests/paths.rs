use std::path::Path;

use remotefs_ftp::error::RemoteErrorType;
use remotefs_ftp::file::{File, FileType, Metadata};
use remotefs_ftp::path::{
    ensure_absolute, file_name, is_root, is_same_path, join, parent_path, remote_path,
    remote_path_on, resolve, slashed, Platform,
};

const ABSOLUTE: [&str; 22] = [
    "/",
    "/.",
    "/./",
    "/a",
    "/a/",
    "/a//",
    "/a/.",
    "/a/./",
    "/a/./.",
    "/./a",
    "/a/b",
    "/a//b",
    "/a/./b",
    "/a/b/.//",
    "/.hidden",
    "/a/.hidden/",
    "/a.",
    "/a./b.",
    "/a/...",
    "/gr\u{fc}n/\u{1f4c1}/x",
    "/a/ ",
    "/ /b",
];

#[test]
fn path_operations_agree_with_std() {
    for text in ABSOLUTE {
        let path = Path::new(text);
        assert_eq!(
            parent_path(text),
            path.parent().map(|p| p.to_str().unwrap().to_string()),
            "parent of {text:?}"
        );
        assert_eq!(
            file_name(text),
            path.file_name().map(|n| n.to_str().unwrap().to_string()),
            "name of {text:?}"
        );
        assert_eq!(is_root(text), path == Path::new("/"), "root {text:?}");
        for other in ABSOLUTE {
            assert_eq!(
                is_same_path(text, other),
                path == Path::new(other),
                "{text:?} and {other:?}"
            );
        }
        for name in ["x", "/abs", "", "x/y", "."] {
            assert_eq!(
                join(text, name),
                path.join(name).to_str().unwrap(),
                "{text:?} and {name:?}"
            );
        }
    }
}

#[test]
fn absolute_roots_agree_with_the_filesystem_crate() {
    for text in [
        "",
        "/",
        "//",
        "//server/share",
        "a",
        "./a",
        "../a",
        "C:\\x",
        "C:/x",
        "z:\\",
        "C:x",
        "C:",
        "1:/x",
        "\\",
        "\\x",
        "\\\\",
        "\\\\server",
        "\\\\server\\",
        "\\\\server\\share",
        "\\\\server/share",
        "\\\\server\\\\share",
        "\\\\?\\share",
        "\\\\.\\share",
        "\\\\?x\\share",
        "\\\\\\share",
    ] {
        assert_eq!(
            ensure_absolute(text.as_bytes()).is_ok(),
            remotefs::path::ensure_absolute(Path::new(text)).is_ok(),
            "{text:?}"
        );
    }
    assert_eq!(
        ensure_absolute(b"a").unwrap_err().to_text(),
        remotefs::path::ensure_absolute(Path::new("a"))
            .unwrap_err()
            .to_string()
    );
}

#[test]
fn valid_paths_go_over_the_wire_unchanged() {
    for text in ABSOLUTE {
        assert_eq!(remote_path(text.as_bytes()).unwrap(), text);
        assert_eq!(resolve(text), text);
    }
}

#[test]
fn invalid_paths_are_refused_with_the_reason() {
    for (path, reason) in [
        (b"".to_vec(), "path must be absolute"),
        (b"file".to_vec(), "path must be absolute"),
        (b"./file".to_vec(), "path must be absolute"),
        (b"\xff".to_vec(), "path must be absolute"),
        (b"/\xff".to_vec(), "FTP paths must contain valid UTF-8"),
        (b"/a\xc3".to_vec(), "FTP paths must contain valid UTF-8"),
        (b"//a".to_vec(), "FTP paths must use a POSIX absolute root"),
        (b"//".to_vec(), "FTP paths must use a POSIX absolute root"),
        (b"C:/a".to_vec(), "FTP paths must use a POSIX absolute root"),
        (
            b"\\\\server\\share".to_vec(),
            "FTP paths must use a POSIX absolute root",
        ),
        (b"/a/..".to_vec(), "FTP paths must use a POSIX absolute root"),
        (
            b"/../a".to_vec(),
            "FTP paths must use a POSIX absolute root",
        ),
        (
            b"/a/../b".to_vec(),
            "FTP paths must use a POSIX absolute root",
        ),
        (
            b"/a\r\nDELE b".to_vec(),
            "FTP paths must use a POSIX absolute root",
        ),
        (b"/a\x7f".to_vec(), "FTP paths must use a POSIX absolute root"),
        (b"/\x00".to_vec(), "FTP paths must use a POSIX absolute root"),
    ] {
        let err = remote_path(&path).unwrap_err();
        assert_eq!(err.kind(), RemoteErrorType::InvalidPath);
        assert_eq!(err.to_text(), format!("invalid path ({reason})"));
    }
}

#[test]
fn names_that_only_look_like_going_up_are_valid() {
    for path in ["/a..", "/..a", "/...", "/a/..b/c.."] {
        assert_eq!(remote_path(path.as_bytes()).unwrap(), path);
    }
}

#[test]
fn a_child_stays_in_its_directory() {
    for dir in ["/", "/a", "/a/", "/a/.", "/a//b"] {
        let child = join(dir, "name");
        assert_eq!(file_name(&child).unwrap(), "name");
        assert!(is_same_path(&parent_path(&child).unwrap(), dir));
    }
}

fn entry(path: &str, file_type: FileType) -> File {
    File {
        path: path.to_string(),
        metadata: Metadata {
            file_type,
            size: None,
            modified: None,
            mode: None,
            uid: None,
            gid: None,
            symlink: None,
        },
    }
}

#[test]
fn entry_names_agree_with_the_filesystem_crate() {
    for path in ["/", "/a", "/a/", "/a/b", "/a/..", "/a/.", "/.."] {
        let ours = entry(path, FileType::File);
        let theirs = remotefs::fs::File::new(path, remotefs::fs::Metadata::default());
        assert_eq!(ours.name(), theirs.name(), "{path:?}");
    }
    assert!(entry("/d", FileType::Directory).is_dir());
    assert!(!entry("/d", FileType::Directory).is_file());
    assert!(!entry("/l", FileType::Symlink).is_dir());
    assert!(!entry("/l", FileType::Symlink).is_file());
    assert!(entry("/f", FileType::File).is_file());
}

#[test]
fn windows_paths_are_sent_with_slashes() {
    assert_eq!(slashed("/a\\b/c\\"), "/a/b/c/");
    assert_eq!(slashed("\\\\x"), "//x");
    assert_eq!(slashed("gr\u{fc}n\\\u{1f600}"), "gr\u{fc}n/\u{1f600}");
    assert_eq!(slashed(""), "");
    for (path, wire) in [("/a\\b", "/a/b"), ("/a/b", "/a/b"), ("/", "/")] {
        let rendered = remote_path_on(Platform::Windows, path.as_bytes()).unwrap();
        assert_eq!(rendered, wire);
        // Once rendered, a path is accepted as it is.
        assert_eq!(remote_path(rendered.as_bytes()).unwrap(), wire);
        assert_eq!(
            remote_path_on(Platform::Windows, rendered.as_bytes()).unwrap(),
            wire
        );
        // Elsewhere a backslash is a character like any other.
        assert_eq!(
            remote_path_on(Platform::Posix, path.as_bytes()).unwrap(),
            path
        );
    }
    for (path, reason) in [
        (b"file".to_vec(), "path must be absolute"),
        (b"\\file".to_vec(), "path must be absolute"),
        (b"/\xff".to_vec(), "FTP paths must contain valid UTF-8"),
        (
            b"C:\\a".to_vec(),
            "FTP paths must use a single POSIX absolute root",
        ),
        (
            b"\\\\server\\share".to_vec(),
            "FTP paths must use a single POSIX absolute root",
        ),
        (
            b"/\\a".to_vec(),
            "FTP paths must use a single POSIX absolute root",
        ),
        (
            b"/a\\..\\b".to_vec(),
            "FTP paths must use a single POSIX absolute root",
        ),
        (
            b"/a\r\nb".to_vec(),
            "FTP paths must use a single POSIX absolute root",
        ),
    ] {
        let err = remote_path_on(Platform::Windows, &path).unwrap_err();
        assert_eq!(err.kind(), RemoteErrorType::InvalidPath);
        assert_eq!(err.to_text(), format!("invalid path ({reason})"));
    }
}
