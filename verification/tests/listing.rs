use remotefs_ftp::error::{Cause, FtpError, ParseError, RemoteError, RemoteErrorType};
use remotefs_ftp::file::{File, FileType, UnixPexClass};
use remotefs_ftp::list::{
    contains_unicode_whitespace, decode_list_bytes, field_spans,
    has_unicode_whitespace_after_ascii_padding, list_entry, looks_like_dos_listing,
    normalize_special_posix_line, parse_list_entry, parse_list_lines, query_unix_pex,
    reject_ambiguous_dos_name_boundary, reject_ambiguous_list_name,
    reject_ambiguous_posix_name_boundary, validate_list_child_name, ListedFile,
};
use remotefs_ftp::path::Platform;
use remotefs_ftp::text::{
    decimal_text, is_ascii_control_char, is_ascii_whitespace_char, is_whitespace,
    is_wide_whitespace, trim_end_text,
};

fn parse(path: &str, rows: &[&str]) -> Result<Vec<File>, RemoteError> {
    let lines = rows.iter().map(|row| row.to_string()).collect();
    parse_list_lines(Platform::Posix, path, &lines)
}

fn reason(result: Result<(), RemoteError>) -> String {
    result.unwrap_err().to_text()
}

#[test]
fn whitespace_agrees_with_std_on_every_character() {
    for code in 0..=0x10ffffu32 {
        if let Some(c) = char::from_u32(code) {
            assert_eq!(is_whitespace(c), c.is_whitespace(), "{c:?}");
            assert_eq!(
                is_wide_whitespace(c),
                c.is_whitespace() && !c.is_ascii_whitespace(),
                "{c:?}"
            );
            assert_eq!(is_ascii_whitespace_char(c), c.is_ascii_whitespace(), "{c:?}");
            assert_eq!(is_ascii_control_char(c), c.is_ascii_control(), "{c:?}");
        }
    }
}

#[test]
fn numbers_and_trimming_agree_with_std() {
    for n in [0, 7, 10, 99, 100, 421, 65535, u64::MAX] {
        assert_eq!(decimal_text(n), n.to_string());
    }
    for text in ["", " ", "a", "a \t\r\n", " a\u{2003}b\u{3000} ", "\u{85}"] {
        assert_eq!(trim_end_text(text), text.trim_end());
    }
}

#[test]
fn fields_are_byte_ranges_of_runs() {
    assert_eq!(field_spans(""), vec![]);
    assert_eq!(field_spans("  \t "), vec![]);
    assert_eq!(field_spans("a"), vec![(0, 1)]);
    assert_eq!(field_spans(" ab  c "), vec![(1, 3), (5, 6)]);
    let line = "\u{fc}\u{1f600} \u{a0}x\ty";
    let spans = field_spans(line);
    assert_eq!(spans, vec![(0, 6), (7, 10), (11, 12)]);
    let texts: Vec<&str> = spans.iter().map(|(a, b)| &line[*a..*b]).collect();
    assert_eq!(
        texts,
        line.split_ascii_whitespace().collect::<Vec<&str>>()
    );
}

#[test]
fn lines_are_split_as_by_std() {
    for text in [
        "", "a", "a\n", "a\r\n", "\n\n", "\r\n", "\r", "a\rb\n", "a\n\nb", "a\r\r\nb\r", "\u{fc}\r\n\u{1f600}",
    ] {
        let expected: Vec<String> = text
            .lines()
            .filter(|line| !line.is_empty())
            .map(|line| line.to_string())
            .collect();
        assert_eq!(
            decode_list_bytes(text.as_bytes().to_vec()).unwrap(),
            expected,
            "{text:?}"
        );
    }
    assert!(matches!(
        decode_list_bytes(b"ok\r\nbad\xff\r\n".to_vec()),
        Err(FtpError::BadResponse)
    ));
}

#[test]
fn posix_rows_become_entries() {
    let files = parse(
        "/pub",
        &[
            "total 12",
            "drwxr-xr-x 2 1000 1001 4096 Nov 5 2018 .",
            "drwxr-xr-x 2 root root 4096 Nov 5 2018 ..",
            "-rw-r----- 1 1000 1001 8192 Nov 5 2018 omar.txt",
            "drwxr-xr-x 2 root root 4096 Nov 5 2018 sub dir",
            "lrwxrwxrwx 1 0 0 6 Nov 5 2018 link -> target",
            "lrwxrwxrwx 1 0 0 6 Nov 5 2018 abs -> /etc/x",
        ],
    )
    .unwrap();
    assert_eq!(files.len(), 4);
    let file = &files[0];
    assert_eq!(file.path, "/pub/omar.txt");
    assert_eq!(file.name(), "omar.txt");
    assert_eq!(file.metadata.file_type, FileType::File);
    assert_eq!(file.metadata.size, Some(8192));
    assert_eq!(file.metadata.modified, Some(1541376000));
    assert_eq!(file.metadata.uid, Some(1000));
    assert_eq!(file.metadata.gid, Some(1001));
    let mode = file.metadata.mode.unwrap();
    assert_eq!(
        mode.user,
        UnixPexClass {
            read: true,
            write: true,
            execute: false
        }
    );
    assert_eq!(
        mode.group,
        UnixPexClass {
            read: true,
            write: false,
            execute: false
        }
    );
    assert_eq!(
        mode.others,
        UnixPexClass {
            read: false,
            write: false,
            execute: false
        }
    );
    assert!(file.metadata.symlink.is_none());
    assert_eq!(files[1].path, "/pub/sub dir");
    assert!(files[1].is_dir());
    assert_eq!(files[1].metadata.uid, None);
    assert_eq!(files[2].path, "/pub/link");
    assert_eq!(files[2].metadata.file_type, FileType::Symlink);
    assert_eq!(files[2].metadata.symlink.as_deref(), Some("/pub/target"));
    assert_eq!(files[3].metadata.symlink.as_deref(), Some("/etc/x"));
}

#[test]
fn rows_are_parsed_as_by_the_protocol_crate() {
    for line in [
        "-rw-rw-r-- 1 0  1  8192 Nov 5 2018 omar.txt",
        "drwxrwxr-x 1 user group 4096 Nov 5 2018 docs",
        "lrwxrwxrwx 1 0 0 6 Nov 5 2018 link -> target",
        "lrwxrwxrwx 1 0 0 6 Nov 5 2018 dangling",
        "10-19-20  03:19PM <DIR> pub",
        "04-08-14  03:09PM 1,403 readme.txt",
    ] {
        let ours = parse_list_entry(line).unwrap();
        let theirs = suppaftp::list::ListParser::parse_posix(line)
            .or_else(|_| suppaftp::list::ListParser::parse_dos(line))
            .unwrap();
        assert_eq!(ours.name, theirs.name());
        assert_eq!(ours.directory, theirs.is_directory());
        assert_eq!(
            ours.symlink.as_deref(),
            theirs.symlink().map(|path| path.to_str().unwrap())
        );
        assert_eq!(ours.size, theirs.size());
        assert_eq!(ours.uid, theirs.uid());
        assert_eq!(ours.gid, theirs.gid());
        assert_eq!(
            ours.modified,
            theirs
                .modified()
                .duration_since(std::time::UNIX_EPOCH)
                .unwrap()
                .as_secs()
        );
    }
}

#[test]
fn rows_with_a_year_read_alike_at_all_times() {
    for _ in 0..2 {
        let files = parse("/", &["-rw-rw-r-- 1 0  1  8192 Nov 5 2018 omar.txt"]).unwrap();
        assert_eq!(files[0].metadata.modified, Some(1541376000));
    }
    // Without a year, the rest of the row is read alike.
    let files = parse("/", &["-rw-rw-r-- 1 0  1  8192 Nov 5 13:46 omar.txt"]).unwrap();
    assert_eq!(files[0].path, "/omar.txt");
    assert_eq!(files[0].metadata.size, Some(8192));
    // A year before 1970 counts as 1970.
    let files = parse("/", &["-rw-rw-r-- 1 0  1  8192 Nov 5 1960 omar.txt"]).unwrap();
    assert_eq!(files[0].metadata.modified, Some(0));
}

#[test]
fn rows_that_do_not_parse_keep_the_reason() {
    let err = parse("/", &["what is this"]).unwrap_err();
    assert_eq!(err.kind(), RemoteErrorType::ProtocolError);
    assert!(matches!(
        err.source,
        Some(Cause::List(ParseError::SyntaxError))
    ));
    assert!(matches!(
        parse_list_entry("99-99-20 03:19PM <DIR> pub"),
        Err(ParseError::InvalidDate)
    ));
    assert!(matches!(
        parse_list_entry("04-08-14 03:09PM 99999999999999999999999 x"),
        Err(ParseError::BadSize)
    ));
    // A row that is no POSIX row is reported as no DOS row either.
    assert!(matches!(
        parse_list_entry("-rw-r--r-- 1 0 0 99999999999999999999999 Nov 5 2018 x"),
        Err(ParseError::SyntaxError)
    ));
}

#[test]
fn special_files_count_as_files() {
    for (row, name) in [
        ("brw-r----- 1 root disk 8, 0 Nov 5 2018 sda", "sda"),
        ("crw-rw-rw- 1 root root 1,   3 Nov 5 2018 null", "null"),
        ("prw-r--r-- 1 root root 0 Nov 5 2018 pipe", "pipe"),
        ("srw-r--r-- 1 root root 0 Nov 5 2018 sock", "sock"),
        ("Drw-r--r-- 1 root root 0 Nov 5 2018 door", "door"),
    ] {
        let files = parse("/dev", &[row]).unwrap();
        assert_eq!(files.len(), 1);
        assert_eq!(files[0].name(), name);
        assert!(files[0].is_file());
        assert_eq!(files[0].metadata.size, Some(0));
    }
    assert_eq!(
        normalize_special_posix_line("brw-r----- 1 root disk 8, 0 Nov 5 2018 sda"),
        "brw-r----- 1 root disk 0 Nov 5 2018 sda"
    );
    for unchanged in [
        "",
        "b",
        "-rw-r--r-- 1 root disk 8, 0 Nov 5 2018 x",
        "brw-r----- 1 root disk 8 0 Nov 5 2018 x",
        "brw-r----- 1 root disk x, 0 Nov 5 2018 x",
        "brw-r----- 1 root disk 8, x Nov 5 2018 x",
    ] {
        assert_eq!(normalize_special_posix_line(unchanged), unchanged);
    }
    // A major number may be nothing but commas.
    assert_eq!(
        normalize_special_posix_line("brw-r----- 1 root disk ,, 0 Nov 5 2018 x"),
        "brw-r----- 1 root disk 0 Nov 5 2018 x"
    );
}

#[test]
fn ambiguous_posix_boundaries_are_refused() {
    for (row, why) in [
        (
            "-rw-r--r-- 1 0 0 1 Nov 5 2018  lead",
            "LIST returned a filename with an ambiguous leading-space boundary",
        ),
        (
            "brw-r----- 1 root disk 8, 0 Nov 5 2018  sda",
            "LIST returned a filename with an ambiguous leading-space boundary",
        ),
        (
            "-rw-r--r--\u{a0}1 0 0 0 1 Nov 5 2018 x",
            "LIST returned Unicode whitespace in its POSIX metadata",
        ),
        (
            "-rw-r--r-- 1 0 0 1 Nov 5 2018  ",
            "LIST returned a filename made only of whitespace",
        ),
        (
            "-rw-r--r-- 1 0 0 1 Nov 5 2018 ",
            "LIST returned a filename made only of whitespace",
        ),
        (
            "-rw-r--r-- 1 0 0 1 Nov 5 2018 \u{2003}x",
            "LIST returned a filename with an ambiguous Unicode-whitespace boundary",
        ),
    ] {
        let text = format!("protocol error ({why})");
        assert_eq!(reason(reject_ambiguous_posix_name_boundary(row)), text);
        assert_eq!(reason(reject_ambiguous_list_name(row)), text);
        assert_eq!(parse("/", &[row]).unwrap_err().to_text(), text);
    }
    for row in [
        "-rw-r--r-- 1 0 0 1 Nov 5 2018 two  spaces",
        "-rw-r--r-- 1  0  0  1 Nov  5  2018 padded",
        "-rw-r--r-- 1 0 0 1 Nov 5 2018",
        "-rw-r--r--",
        "anything  else",
        "",
    ] {
        reject_ambiguous_posix_name_boundary(row).unwrap();
    }
}

#[test]
fn ambiguous_symlinks_are_refused() {
    let row = "lrwxrwxrwx 1 0 0 6 Nov 5 2018 a -> b -> c";
    assert_eq!(
        reason(reject_ambiguous_list_name(row)),
        "protocol error (LIST returned a symlink name or target containing multiple ` -> ` separators)"
    );
    // The name may be `a` or `a ->`: separators that share a space are two.
    for row in [
        "lrwxrwxrwx 1 1000 1000 6 Nov 5 2024 a -> -> b",
        "lrwxrwxrwx 1 0 0 6 Nov 5 2018 -> -> b",
        "lrwxrwxrwx 1 0 0 6 Nov 5 2018 a -> -> -> b",
    ] {
        assert_eq!(
            reject_ambiguous_list_name(row).unwrap_err().kind(),
            RemoteErrorType::ProtocolError
        );
        assert_eq!(
            parse("/", &[row]).unwrap_err().kind(),
            RemoteErrorType::ProtocolError
        );
    }
    for row in [
        "lrwxrwxrwx 1 0 0 6 Nov 5 2018 a -> b",
        "lrwxrwxrwx 1 0 0 6 Nov 5 2018 a -> ->b",
        "lrwxrwxrwx 1 0 0 6 Nov 5 2018 a",
        "l -> ",
        "l",
    ] {
        reject_ambiguous_list_name(row).unwrap();
    }
    // Other rows may hold several.
    reject_ambiguous_list_name("-rwxrwxrwx 1 0 0 6 Nov 5 2018 a -> b -> c").unwrap();
}

#[test]
fn dos_rows_are_recognised_by_their_date() {
    for row in ["10-19-20", "10-19-20  03:19PM <DIR> pub"] {
        assert!(looks_like_dos_listing(row));
    }
    for row in ["", "10-19-2", "10/19/20", "1a-19-20", "10-19-2x", "\u{fc}0-19-20"] {
        assert!(!looks_like_dos_listing(row));
    }
}

#[test]
fn ambiguous_dos_boundaries_are_refused() {
    for (row, why) in [
        (
            "10-19-20 15:19 <DIR> pub",
            "LIST returned an unsupported DOS timestamp",
        ),
        (
            "10-19-20 03:19:00PM <DIR> pub",
            "LIST returned an unsupported DOS timestamp",
        ),
        (
            "10-19-20  03:19PM\u{a0}<DIR> pub",
            "LIST returned a DOS filename with an ambiguous Unicode-whitespace boundary",
        ),
        (
            "10-19-20  03:19PM <DIR>   ",
            "LIST returned a filename made only of whitespace",
        ),
        (
            "10-19-20  03:19PM <DIR> \u{2003}x",
            "LIST returned a filename with an ambiguous Unicode-whitespace boundary",
        ),
        (
            "10-19-20  03:19PM <DIR>  pub",
            "LIST returned a DOS filename with an ambiguous leading-space boundary",
        ),
        (
            "10-19-20  03:19PM 403  readme.txt",
            "LIST returned a DOS filename with an ambiguous leading-space boundary",
        ),
    ] {
        let text = format!("protocol error ({why})");
        assert_eq!(reason(reject_ambiguous_dos_name_boundary(row)), text);
        assert_eq!(reason(reject_ambiguous_list_name(row)), text);
    }
    for row in [
        "10-19-20",
        "10-19-20   ",
        "10-19-20  03:19PM",
        "10-19-20  03:19PM   ",
        "10-19-20  03:19PM <DIR> pub",
        "10-19-20  03:19 PM <DIR> pub",
        "10-19-20  03:19AM 403 readme.txt",
        // Windows pads the rows of directories to fixed columns.
        "10-19-20  03:19PM       <DIR>          pub",
        "10-19-20  03:19PM",
    ] {
        reject_ambiguous_dos_name_boundary(row).unwrap();
        reject_ambiguous_list_name(row).unwrap();
    }
    // The date is eight bytes, whatever they hold.
    reject_ambiguous_dos_name_boundary("10-19-\u{e9} 03:19PM 5 x").unwrap();
    assert_eq!(
        reason(reject_ambiguous_dos_name_boundary("10-19-\u{e9} 03:19 5 x")),
        "protocol error (LIST returned an unsupported DOS timestamp)"
    );
    // One column off, the padding may hide a space of the name.
    for row in [
        "10-19-20  03:19PM      <DIR>          pub",
        "10-19-20  03:19PM       <DIR>           pub",
        "10-19-20  03:19PM       12345          pub",
    ] {
        reject_ambiguous_dos_name_boundary(row).unwrap_err();
    }
    let files = parse("/", &["10-19-20  03:19PM       <DIR>          pub"]).unwrap();
    assert_eq!(files[0].path, "/pub");
    assert!(files[0].is_dir());
    assert_eq!(files[0].metadata.size, Some(0));
}

#[test]
fn block_counts_are_skipped_in_front_only() {
    assert_eq!(parse("/", &["total 0"]).unwrap().len(), 0);
    assert!(parse("/", &["total "]).is_err());
    assert!(parse("/", &["total x"]).is_err());
    assert!(parse("/", &["total 1 2"]).is_err());
    let row = "-rw-r--r-- 1 0 0 1 Nov 5 2018 x";
    assert_eq!(parse("/", &["total 8", row]).unwrap().len(), 1);
    assert!(parse("/", &[row, "total 8"]).is_err());
}

#[test]
fn the_first_bad_row_fails_the_listing() {
    let good = "-rw-r--r-- 1 0 0 1 Nov 5 2018 x";
    let err = parse(
        "/",
        &[good, "-rw-r--r-- 1 0 0 1 Nov 5 2018  y", "garbage"],
    )
    .unwrap_err();
    assert_eq!(
        err.to_text(),
        "protocol error (LIST returned a filename with an ambiguous leading-space boundary)"
    );
}

#[test]
fn the_listing_of_joined_rows_is_the_joined_listing() {
    let xs = ["total 8", "drwxr-xr-x 2 0 0 4096 Nov 5 2018 pub", "drwxr-xr-x 2 0 0 0 Nov 5 2018 ."];
    let ys = [
        "-rw-r--r-- 1 0 0 5 Nov 5 2018 a.txt",
        "10-19-20  03:19PM 403 readme.txt",
    ];
    let paths = |files: Vec<File>| files.into_iter().map(|f| f.path).collect::<Vec<_>>();
    let a = paths(parse("/d", &xs).unwrap());
    let b = paths(parse("/d", &ys).unwrap());
    assert_eq!(a, ["/d/pub"]);
    assert_eq!(b, ["/d/a.txt", "/d/readme.txt"]);
    assert_eq!(
        paths(parse("/d", &[&xs[..], &ys[..]].concat()).unwrap()),
        [&a[..], &b[..]].concat()
    );
    assert_eq!(paths(parse("/d", &[&[][..], &ys[..]].concat()).unwrap()), b);
    // A count of blocks is skipped in front only.
    assert_eq!(
        parse("/d", &[&ys[..], &xs[..]].concat()).unwrap_err().kind(),
        RemoteErrorType::ProtocolError
    );
}

#[test]
fn child_names_cannot_leave_the_directory() {
    for name in ["x", "...", ".x", "x y", "gr\u{fc}n", "\\", "a:b"] {
        validate_list_child_name(Platform::Posix, name).unwrap();
    }
    for name in ["", ".", "..", "/", "a/b", "/etc", "a\nb", "a\u{7f}", "\u{0}"] {
        assert_eq!(
            reason(validate_list_child_name(Platform::Posix, name)),
            format!("protocol error (LIST returned an unsafe child name: {name:?})")
        );
    }
    let err = parse("/pub", &["-rw-r--r-- 1 0 0 1 Nov 5 2018 ../evil"]).unwrap_err();
    assert_eq!(
        err.to_text(),
        "protocol error (LIST returned an unsafe child name: \"../evil\")"
    );
}

fn listed(name: &str) -> ListedFile {
    ListedFile {
        name: name.to_string(),
        directory: true,
        symlink: None,
        size: 7,
        modified: 9,
        uid: Some(1),
        gid: None,
        pex: [
            (true, false, true),
            (false, true, false),
            (false, false, true),
        ],
    }
}

#[test]
fn child_names_cannot_leave_the_directory_on_windows_either() {
    for name in ["x", "...", "x y", "a b:c", "1:x", ":x", "\u{e9}:x", "ab:"] {
        validate_list_child_name(Platform::Windows, name).unwrap();
    }
    for name in ["", ".", "..", "a/b", "a\nb", "\\", "..\\x", "a\\b", "C:", "c:x", "Z:\\x"] {
        assert_eq!(
            reason(validate_list_child_name(Platform::Windows, name)),
            format!("protocol error (LIST returned an unsafe child name: {name:?})")
        );
    }
    let rows = vec![
        "-rw-r--r-- 1 0 0 1 Nov 5 2018 ok".to_string(),
        "-rw-r--r-- 1 0 0 1 Nov 5 2018 ..\\x".to_string(),
        "nonsense".to_string(),
    ];
    assert_eq!(
        parse_list_lines(Platform::Windows, "/d", &rows)
            .unwrap_err()
            .to_text(),
        "protocol error (LIST returned an unsafe child name: \"..\\\\x\")"
    );
    let files = parse_list_lines(Platform::Posix, "/d", &rows[..2].to_vec()).unwrap();
    assert_eq!(files[1].path, "/d/..\\x");
    let files = parse_list_lines(Platform::Windows, "/d", &rows[..1].to_vec()).unwrap();
    assert_eq!(files[0].path, "/d/ok");
}

#[test]
fn normalizing_once_is_enough() {
    for row in [
        "brw-r----- 1 root disk 8, 0 Nov 5 2018 sda",
        "crw-rw-rw- 1 root root 1,   3 Nov 5 2018 null",
        "brw-r----- 1 root disk 8, 0",
        "b 1 2 3 4, 5 6, 7",
        "-rw-r--r-- 1 root disk 8, 0 Nov 5 2018 x",
        "",
    ] {
        let once = normalize_special_posix_line(row);
        assert_eq!(normalize_special_posix_line(&once), once);
    }
    assert_eq!(normalize_special_posix_line("b 1 2 3 4, 5 6, 7"), "b 1 2 3 0 6, 7");
}

#[test]
fn parsed_rows_become_entries() {
    let file = list_entry(Platform::Posix, "/dir", Ok(listed("x"))).unwrap().unwrap();
    assert_eq!(file.path, "/dir/x");
    assert!(file.is_dir());
    assert_eq!(file.metadata.size, Some(7));
    assert_eq!(file.metadata.modified, Some(9));
    assert_eq!(file.metadata.uid, Some(1));
    assert_eq!(file.metadata.gid, None);
    assert!(list_entry(Platform::Posix, "/dir", Ok(listed("."))).unwrap().is_none());
    assert!(list_entry(Platform::Posix, "/dir", Ok(listed(".."))).unwrap().is_none());
    assert!(list_entry(Platform::Posix, "/dir", Ok(listed("a/b"))).is_err());
    let err = list_entry(Platform::Posix, "/dir", Err(ParseError::InvalidDate)).unwrap_err();
    assert_eq!(err.to_text(), "protocol error (Invalid date)");
    let pex = query_unix_pex(&listed("x"));
    assert!(pex.user.read && !pex.user.write && pex.user.execute);
    assert!(!pex.group.read && pex.group.write && !pex.group.execute);
    assert!(!pex.others.read && !pex.others.write && pex.others.execute);
}

#[test]
fn hidden_whitespace_is_found() {
    assert!(has_unicode_whitespace_after_ascii_padding(" \t\u{a0}x"));
    assert!(has_unicode_whitespace_after_ascii_padding("\u{b}x"));
    assert!(!has_unicode_whitespace_after_ascii_padding("  x\u{a0}"));
    assert!(!has_unicode_whitespace_after_ascii_padding("  "));
    assert!(!has_unicode_whitespace_after_ascii_padding(""));
    assert!(contains_unicode_whitespace("a\u{2003}b"));
    assert!(contains_unicode_whitespace("a\u{b}b"));
    assert!(!contains_unicode_whitespace(" a\tb\r\n\u{c}"));
}
