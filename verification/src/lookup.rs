//! What listings tell of a path.
//!
//! FTP has no command that asks for one entry. Every lookup here is decided by listings, one after
//! the other: it runs on the answers that came so far, and either says which listing it needs next
//! or gives its result. With that answer added, it is run again; a result stands once it is there.
use crate::error::{
    ambiguous_path_permission, ambiguous_refusal, creation_refusal, ftp_error, ftp_failure,
    is_ambiguous_path_refusal, is_creation_refusal, is_file_unavailable, ErrorView, FtpError,
    FtpErrorView, RemoteError, RemoteErrorType, FILE_UNAVAILABLE,
};
use crate::file::{
    clone_files, file_views, File, FileType, FileView, Metadata, MetadataView,
};
use crate::list::files_view;
use crate::path::{
    components, file_name, is_root, is_root_path, is_same_path, last_name, parent, parent_path,
    same_path, wire_path,
};
use vstd::prelude::*;

verus! {

/// How many directories are listed at most to prove that a path is absent.
pub const PROBE_LIMIT: usize = 8;

/// What a lookup needs to know next.
#[derive(Debug)]
pub enum Ask {
    /// Whether the connection takes commands.
    Check,
    /// What a directory holds.
    List(String),
}

/// What an [`Ask`] holds.
pub ghost enum AskView {
    Check,
    List(Seq<char>),
}

impl View for Ask {
    type V = AskView;

    open spec fn view(&self) -> AskView {
        match *self {
            Ask::Check => AskView::Check,
            Ask::List(p) => AskView::List(p@),
        }
    }
}

/// How far a lookup got.
#[derive(Debug)]
pub enum Looked<T> {
    /// It needs an answer that is not there yet.
    Ask(Ask),
    /// It is done; `next` is the number of answers it used.
    Is { value: T, next: usize },
}

/// What a [`Looked`] holds.
pub ghost enum LookedView<T> {
    Ask(AskView),
    Is(T, int),
}

/// What one listing brought: its entries, or why there are none.
pub type Answer = Result<Vec<File>, RemoteError>;

/// What the answers hold.
pub open spec fn answer_views(answers: Seq<Answer>) -> Seq<Result<Seq<FileView>, ErrorView>> {
    answers.map_values(|a: Answer| files_view(a))
}

/// What a lookup of an entry holds.
pub open spec fn looked_file(r: Looked<Result<File, RemoteError>>) -> LookedView<
    Result<FileView, ErrorView>,
> {
    match r {
        Looked::Ask(a) => LookedView::Ask(a@),
        Looked::Is { value, next } => LookedView::Is(
            match value {
                Ok(f) => Ok(f@),
                Err(e) => Err(e@),
            },
            next as int,
        ),
    }
}

/// What a lookup of a directory holds.
pub open spec fn looked_files(r: Looked<Result<Vec<File>, RemoteError>>) -> LookedView<
    Result<Seq<FileView>, ErrorView>,
> {
    match r {
        Looked::Ask(a) => LookedView::Ask(a@),
        Looked::Is { value, next } => LookedView::Is(files_view(value), next as int),
    }
}

/// What a lookup of a fact holds.
pub open spec fn looked_fact(r: Looked<bool>) -> LookedView<bool> {
    match r {
        Looked::Ask(a) => LookedView::Ask(a@),
        Looked::Is { value, next } => LookedView::Is(value, next as int),
    }
}

/// What a lookup of the reason for a refusal holds.
pub open spec fn looked_error(r: Looked<RemoteError>) -> LookedView<ErrorView> {
    match r {
        Looked::Ask(a) => LookedView::Ask(a@),
        Looked::Is { value, next } => LookedView::Is(value@, next as int),
    }
}

// ---------------------------------------------------------------------------------------------
// Absence
// ---------------------------------------------------------------------------------------------

/// Whether some entry stands at `path`.
pub open spec fn lists_path(entries: Seq<FileView>, path: Seq<char>) -> bool {
    exists|i: int| 0 <= i < entries.len() && same_path(#[trigger] entries[i].path, path)
}

/// Returns whether some entry stands at `path`.
fn has_path(entries: &Vec<File>, path: &str) -> (r: bool)
    ensures
        r == lists_path(file_views(entries@), path@),
{
    let mut i: usize = 0;
    while i < entries.len()
        invariant
            i <= entries@.len(),
            forall|k: int|
                0 <= k < i ==> !same_path(#[trigger] file_views(entries@)[k].path, path@),
        decreases entries@.len() - i,
    {
        if is_same_path(entries[i].path.as_str(), path) {
            assert(same_path(file_views(entries@)[i as int].path, path@));
            return true;
        }
        i = i + 1;
    }
    false
}

/// Whether listing the ancestors of `candidate`, the nearest first and at most `depth` of them,
/// proves that it is absent: the first ancestor that can be listed decides, by holding the path that
/// leads on or not. Ancestors are skipped only where the server refuses them with an ambiguous 550.
pub open spec fn probe_absent(
    candidate: Seq<char>,
    depth: nat,
    tape: Seq<Result<Seq<FileView>, ErrorView>>,
    at: int,
) -> LookedView<bool>
    decreases depth,
{
    match parent(candidate) {
        Some(p) if depth > 0 => if at >= tape.len() {
            LookedView::Ask(AskView::List(p))
        } else {
            match tape[at] {
                Ok(entries) => LookedView::Is(!lists_path(entries, candidate), at + 1),
                Err(e) => if ambiguous_refusal(e) {
                    probe_absent(p, (depth - 1) as nat, tape, at + 1)
                } else {
                    LookedView::Is(false, at + 1)
                },
            }
        },
        _ => LookedView::Is(false, at),
    }
}

/// Probes ancestors until a successful listing can positively prove absence.
pub fn ancestor_proves_absent(path: &str, answers: &Vec<Answer>, at: usize) -> (r: Looked<bool>)
    requires
        at <= answers@.len(),
    ensures
        looked_fact(r) == probe_absent(
            path@,
            PROBE_LIMIT as nat,
            answer_views(answers@),
            at as int,
        ),
        r matches Looked::Is { value: _, next } ==> at <= next <= answers@.len(),
{
    let ghost tape = answer_views(answers@);
    let mut candidate: String = path.to_string();
    let mut left: usize = PROBE_LIMIT;
    let mut i: usize = at;
    while left > 0
        invariant
            tape == answer_views(answers@),
            at <= i <= answers@.len(),
            probe_absent(candidate@, left as nat, tape, i as int) == probe_absent(
                path@,
                PROBE_LIMIT as nat,
                tape,
                at as int,
            ),
        decreases left,
    {
        let above = match parent_path(candidate.as_str()) {
            Some(above) => above,
            None => {
                return Looked::Is { value: false, next: i };
            },
        };
        if i >= answers.len() {
            return Looked::Ask(Ask::List(above));
        }
        match &answers[i] {
            Ok(entries) => {
                assert(tape[i as int] == files_view(answers@[i as int]));
                let listed = has_path(entries, candidate.as_str());
                return Looked::Is { value: !listed, next: i + 1 };
            },
            Err(e) => {
                assert(tape[i as int] == files_view(answers@[i as int]));
                if !is_ambiguous_path_refusal(e) {
                    return Looked::Is { value: false, next: i + 1 };
                }
                candidate = above;
                i = i + 1;
                left = left - 1;
            },
        }
    }
    Looked::Is { value: false, next: i }
}

/// What a refused listing is reported as, once its ancestors were probed: absent where that was
/// proved, and else denied. The refusal stays the cause.
pub open spec fn refusal_verdict(refusal: ErrorView, absent: bool) -> ErrorView {
    if absent {
        ErrorView::remote(RemoteErrorType::NoSuchFileOrDirectory, refusal)
    } else {
        ErrorView::remote(RemoteErrorType::PermissionDenied, refusal)
    }
}

/// Reports a refused listing once its ancestors were probed.
fn judge_refusal(refusal: RemoteError, absent: bool) -> (r: RemoteError)
    ensures
        r@ == refusal_verdict(refusal@, absent),
{
    if absent {
        RemoteError::with_remote(RemoteErrorType::NoSuchFileOrDirectory, refusal)
    } else {
        ambiguous_path_permission(refusal)
    }
}

// ---------------------------------------------------------------------------------------------
// One entry
// ---------------------------------------------------------------------------------------------

/// Whether the listing of `path` may be that of a regular file: servers list a file as one entry of
/// its own name.
pub open spec fn file_listing(path: Seq<char>, entries: Seq<FileView>) -> bool {
    &&& entries.len() == 1
    &&& last_name(path) == Some(entries[0].name())
    &&& entries[0].is_file()
}

/// Returns whether the listing of `path` may be that of a regular file.
fn is_file_listing(path: &str, entries: &Vec<File>) -> (r: bool)
    ensures
        r == file_listing(path@, file_views(entries@)),
{
    if entries.len() != 1 {
        return false;
    }
    assert(file_views(entries@)[0] == entries@[0]@);
    match file_name(path) {
        Some(name) => name == entries[0].name() && entries[0].is_file(),
        None => false,
    }
}

/// The first entry at `path`.
pub open spec fn first_at(entries: Seq<FileView>, path: Seq<char>, from: int) -> Option<FileView>
    decreases entries.len() - from,
{
    if from >= entries.len() {
        None
    } else if same_path(entries[from].path, path) {
        Some(entries[from])
    } else {
        first_at(entries, path, from + 1)
    }
}

/// The entry at `path`, or the failure where no entry stands there.
pub open spec fn entry_at(entries: Seq<FileView>, path: Seq<char>) -> Result<FileView, ErrorView> {
    match first_at(entries, path, 0) {
        Some(f) => Ok(f),
        None => Err(ErrorView::plain(RemoteErrorType::NoSuchFileOrDirectory)),
    }
}

/// Finds the entry at `path`.
fn find_entry(entries: &Vec<File>, path: &str) -> (r: Result<File, RemoteError>)
    ensures
        match r {
            Ok(f) => entry_at(file_views(entries@), path@) == Ok::<FileView, ErrorView>(f@),
            Err(e) => entry_at(file_views(entries@), path@) == Err::<FileView, ErrorView>(e@),
        },
{
    let mut i: usize = 0;
    while i < entries.len()
        invariant
            i <= entries@.len(),
            first_at(file_views(entries@), path@, i as int) == first_at(
                file_views(entries@),
                path@,
                0,
            ),
        decreases entries@.len() - i,
    {
        assert(file_views(entries@)[i as int] == entries@[i as int]@);
        if is_same_path(entries[i].path.as_str(), path) {
            return Ok(entries[i].clone());
        }
        i = i + 1;
    }
    Err(RemoteError::new(RemoteErrorType::NoSuchFileOrDirectory))
}

/// The root directory, of which no listing tells.
pub open spec fn root_entry(path: Seq<char>) -> FileView {
    FileView { path, metadata: MetadataView::of_type(FileType::Directory) }
}

/// What the entry at `path` is. It is looked up in the listing of its parent.
///
/// Where the parent is refused with an ambiguous 550, probing decides between an absent and a denied
/// path. Where the listing may be that of a regular file instead of a directory, the parent is looked
/// up first: beneath a regular file there is nothing.
pub open spec fn look_stat(
    path: Seq<char>,
    tape: Seq<Result<Seq<FileView>, ErrorView>>,
    at: int,
) -> LookedView<Result<FileView, ErrorView>>
    decreases path.len(),
    via look_stat_decreases
{
    match parent(path) {
        None => if at >= tape.len() {
            LookedView::Ask(AskView::Check)
        } else {
            match tape[at] {
                Ok(_) => LookedView::Is(Ok(root_entry(path)), at + 1),
                Err(e) => LookedView::Is(Err(e), at + 1),
            }
        },
        Some(p) => if at >= tape.len() {
            LookedView::Ask(AskView::List(p))
        } else {
            match tape[at] {
                Err(e) => if ambiguous_refusal(e) {
                    match probe_absent(p, PROBE_LIMIT as nat, tape, at + 1) {
                        LookedView::Ask(a) => LookedView::Ask(a),
                        LookedView::Is(absent, n) => LookedView::Is(
                            Err(refusal_verdict(e, absent)),
                            n,
                        ),
                    }
                } else {
                    LookedView::Is(Err(e), at + 1)
                },
                Ok(entries) => if file_listing(p, entries) {
                    match look_stat(p, tape, at + 1) {
                        LookedView::Ask(a) => LookedView::Ask(a),
                        LookedView::Is(Ok(above), n) => if above.is_file() {
                            LookedView::Is(
                                Err(
                                    ErrorView::message(
                                        RemoteErrorType::BadFile,
                                        "the parent path is a regular file"@,
                                    ),
                                ),
                                n,
                            )
                        } else {
                            LookedView::Is(entry_at(entries, path), n)
                        },
                        LookedView::Is(Err(e), n) => if e.kind
                            == RemoteErrorType::PermissionDenied {
                            LookedView::Is(entry_at(entries, path), n)
                        } else {
                            LookedView::Is(Err(e), n)
                        },
                    }
                } else {
                    LookedView::Is(entry_at(entries, path), at + 1)
                },
            }
        },
    }
}

#[via_fn]
proof fn look_stat_decreases(
    path: Seq<char>,
    tape: Seq<Result<Seq<FileView>, ErrorView>>,
    at: int,
) {
    if parent(path) is Some {
        crate::path::lemma_parent_is_shorter(path);
    }
}

/// Looks the entry at `path` up in the answers from `at` on.
pub fn stat_entry(path: &str, answers: &Vec<Answer>, at: usize) -> (r: Looked<
    Result<File, RemoteError>,
>)
    requires
        at <= answers@.len(),
    ensures
        looked_file(r) == look_stat(path@, answer_views(answers@), at as int),
        r matches Looked::Is { value: _, next } ==> at <= next <= answers@.len(),
    decreases path@.len(),
{
    let ghost tape = answer_views(answers@);
    let above = match parent_path(path) {
        Some(above) => above,
        None => {
            if at >= answers.len() {
                return Looked::Ask(Ask::Check);
            }
            assert(tape[at as int] == files_view(answers@[at as int]));
            return match &answers[at] {
                Ok(_) => {
                    let root = File {
                        path: path.to_string(),
                        metadata: Metadata {
                            file_type: FileType::Directory,
                            size: None,
                            modified: None,
                            mode: None,
                            uid: None,
                            gid: None,
                            symlink: None,
                        },
                    };
                    Looked::Is { value: Ok(root), next: at + 1 }
                },
                Err(e) => Looked::Is { value: Err(e.clone()), next: at + 1 },
            };
        },
    };
    if at >= answers.len() {
        return Looked::Ask(Ask::List(above));
    }
    assert(tape[at as int] == files_view(answers@[at as int]));
    match &answers[at] {
        Err(e) => {
            if !is_ambiguous_path_refusal(e) {
                return Looked::Is { value: Err(e.clone()), next: at + 1 };
            }
            match ancestor_proves_absent(above.as_str(), answers, at + 1) {
                Looked::Ask(a) => Looked::Ask(a),
                Looked::Is { value: absent, next } => Looked::Is {
                    value: Err(judge_refusal(e.clone(), absent)),
                    next,
                },
            }
        },
        Ok(entries) => {
            if !is_file_listing(above.as_str(), entries) {
                return Looked::Is { value: find_entry(entries, path), next: at + 1 };
            }
            proof {
                crate::path::lemma_parent_is_shorter(path@);
            }
            match stat_entry(above.as_str(), answers, at + 1) {
                Looked::Ask(a) => Looked::Ask(a),
                Looked::Is { value: Ok(parent_entry), next } => {
                    if parent_entry.is_file() {
                        Looked::Is {
                            value: Err(
                                RemoteError::with_message(
                                    RemoteErrorType::BadFile,
                                    "the parent path is a regular file",
                                ),
                            ),
                            next,
                        }
                    } else {
                        Looked::Is { value: find_entry(entries, path), next }
                    }
                },
                Looked::Is { value: Err(error), next } => {
                    if error.kind == RemoteErrorType::PermissionDenied {
                        Looked::Is { value: find_entry(entries, path), next }
                    } else {
                        Looked::Is { value: Err(error), next }
                    }
                },
            }
        },
    }
}

// ---------------------------------------------------------------------------------------------
// One directory
// ---------------------------------------------------------------------------------------------

/// What the directory at `path` holds.
///
/// Where it is refused with an ambiguous 550, probing decides between an absent and a denied path. A
/// listing that may be that of a regular file, and an empty one, count only where the path is no
/// regular file.
pub open spec fn look_list_dir(
    path: Seq<char>,
    tape: Seq<Result<Seq<FileView>, ErrorView>>,
    at: int,
) -> LookedView<Result<Seq<FileView>, ErrorView>> {
    if at >= tape.len() {
        LookedView::Ask(AskView::List(path))
    } else {
        match tape[at] {
            Err(e) => if ambiguous_refusal(e) {
                match probe_absent(path, PROBE_LIMIT as nat, tape, at + 1) {
                    LookedView::Ask(a) => LookedView::Ask(a),
                    LookedView::Is(absent, n) => LookedView::Is(Err(refusal_verdict(e, absent)), n),
                }
            } else {
                LookedView::Is(Err(e), at + 1)
            },
            Ok(entries) => if !is_root_path(path) && (file_listing(path, entries) || entries.len()
                == 0) {
                match look_stat(path, tape, at + 1) {
                    LookedView::Ask(a) => LookedView::Ask(a),
                    LookedView::Is(found, n) => if found is Ok && found->Ok_0.is_file() {
                        LookedView::Is(
                            Err(
                                ErrorView::message(
                                    RemoteErrorType::BadFile,
                                    "LIST requires a directory path"@,
                                ),
                            ),
                            n,
                        )
                    } else {
                        LookedView::Is(Ok(entries), n)
                    },
                }
            } else {
                LookedView::Is(Ok(entries), at + 1)
            },
        }
    }
}

/// Looks the entries of the directory at `path` up in the answers from `at` on.
pub fn list_entries(path: &str, answers: &Vec<Answer>, at: usize) -> (r: Looked<
    Result<Vec<File>, RemoteError>,
>)
    requires
        at <= answers@.len(),
    ensures
        looked_files(r) == look_list_dir(path@, answer_views(answers@), at as int),
        r matches Looked::Is { value: _, next } ==> at <= next <= answers@.len(),
{
    let ghost tape = answer_views(answers@);
    if at >= answers.len() {
        return Looked::Ask(Ask::List(path.to_string()));
    }
    assert(tape[at as int] == files_view(answers@[at as int]));
    match &answers[at] {
        Err(e) => {
            if !is_ambiguous_path_refusal(e) {
                return Looked::Is { value: Err(e.clone()), next: at + 1 };
            }
            match ancestor_proves_absent(path, answers, at + 1) {
                Looked::Ask(a) => Looked::Ask(a),
                Looked::Is { value: absent, next } => Looked::Is {
                    value: Err(judge_refusal(e.clone(), absent)),
                    next,
                },
            }
        },
        Ok(entries) => {
            if is_root(path) || !(is_file_listing(path, entries) || entries.len() == 0) {
                return Looked::Is { value: Ok(clone_files(entries)), next: at + 1 };
            }
            match stat_entry(path, answers, at + 1) {
                Looked::Ask(a) => Looked::Ask(a),
                Looked::Is { value: found, next } => {
                    let is_file = match &found {
                        Ok(entry) => entry.is_file(),
                        Err(_) => false,
                    };
                    if is_file {
                        Looked::Is {
                            value: Err(
                                RemoteError::with_message(
                                    RemoteErrorType::BadFile,
                                    "LIST requires a directory path",
                                ),
                            ),
                            next,
                        }
                    } else {
                        Looked::Is { value: Ok(clone_files(entries)), next }
                    }
                },
            }
        },
    }
}

// ---------------------------------------------------------------------------------------------
// Why a command was refused
// ---------------------------------------------------------------------------------------------

/// Whether an entry was found absent.
pub open spec fn found_absent(found: Result<FileView, ErrorView>) -> bool {
    found is Err && found->Err_0.kind == RemoteErrorType::NoSuchFileOrDirectory
}

/// Returns whether an entry was found absent.
fn is_absent(found: &Result<File, RemoteError>) -> (r: bool)
    ensures
        r == (found is Err && found->Err_0@.kind == RemoteErrorType::NoSuchFileOrDirectory),
{
    match found {
        Ok(_) => false,
        Err(e) => e.kind == RemoteErrorType::NoSuchFileOrDirectory,
    }
}

/// Whether the directory that `path` would stand in is known to be absent.
pub open spec fn look_parent_missing(
    path: Seq<char>,
    tape: Seq<Result<Seq<FileView>, ErrorView>>,
    at: int,
) -> LookedView<bool> {
    match parent(path) {
        None => LookedView::Is(false, at),
        Some(p) => match look_stat(p, tape, at) {
            LookedView::Ask(a) => LookedView::Ask(a),
            LookedView::Is(found, n) => LookedView::Is(found_absent(found), n),
        },
    }
}

/// Returns true only when metadata lookup positively proves a missing parent.
pub fn destination_parent_is_missing(path: &str, answers: &Vec<Answer>, at: usize) -> (r: Looked<
    bool,
>)
    requires
        at <= answers@.len(),
    ensures
        looked_fact(r) == look_parent_missing(path@, answer_views(answers@), at as int),
        r matches Looked::Is { value: _, next } ==> at <= next <= answers@.len(),
{
    match parent_path(path) {
        None => Looked::Is { value: false, next: at },
        Some(above) => match stat_entry(above.as_str(), answers, at) {
            Looked::Ask(a) => Looked::Ask(a),
            Looked::Is { value, next } => Looked::Is { value: is_absent(&value), next },
        },
    }
}

/// Why a file command was refused: a 550 for a directory is a bad file, one for an absent path an
/// absent file; any other refusal is reported by its code.
pub open spec fn look_file_refusal(
    path: Seq<char>,
    err: FtpErrorView,
    tape: Seq<Result<Seq<FileView>, ErrorView>>,
    at: int,
) -> LookedView<ErrorView> {
    if !err.refused_with(FILE_UNAVAILABLE) {
        LookedView::Is(ftp_failure(err), at)
    } else {
        match look_stat(path, tape, at) {
            LookedView::Ask(a) => LookedView::Ask(a),
            LookedView::Is(found, n) => LookedView::Is(
                if found is Ok && found->Ok_0.is_dir() {
                    ErrorView::ftp(RemoteErrorType::BadFile, err)
                } else if found_absent(found) {
                    ErrorView::ftp(RemoteErrorType::NoSuchFileOrDirectory, err)
                } else {
                    ftp_failure(err)
                },
                n,
            ),
        }
    }
}

/// Classifies a file operation refusal after probing for positive evidence.
pub fn classify_file_refusal(path: &str, err: FtpError, answers: &Vec<Answer>, at: usize) -> (r:
    Looked<RemoteError>)
    requires
        at <= answers@.len(),
    ensures
        looked_error(r) == look_file_refusal(path@, err@, answer_views(answers@), at as int),
        r matches Looked::Is { value: _, next } ==> at <= next <= answers@.len(),
{
    if !is_file_unavailable(&err) {
        return Looked::Is { value: ftp_error(err), next: at };
    }
    match stat_entry(path, answers, at) {
        Looked::Ask(a) => Looked::Ask(a),
        Looked::Is { value: found, next } => {
            let is_dir = match &found {
                Ok(entry) => entry.is_dir(),
                Err(_) => false,
            };
            let value = if is_dir {
                RemoteError::with_ftp(RemoteErrorType::BadFile, err)
            } else if is_absent(&found) {
                RemoteError::with_ftp(RemoteErrorType::NoSuchFileOrDirectory, err)
            } else {
                ftp_error(err)
            };
            Looked::Is { value, next }
        },
    }
}

/// What a refused creation is reported as, where a missing directory above the path would explain it
/// (`plausible`): that directory as absent where this was proved, and else a denial.
pub open spec fn look_creation_verdict(
    path: Seq<char>,
    err: FtpErrorView,
    plausible: bool,
    tape: Seq<Result<Seq<FileView>, ErrorView>>,
    at: int,
) -> LookedView<ErrorView> {
    if !plausible {
        LookedView::Is(ErrorView::ftp(RemoteErrorType::PermissionDenied, err), at)
    } else {
        match look_parent_missing(path, tape, at) {
            LookedView::Ask(a) => LookedView::Ask(a),
            LookedView::Is(missing, n) => LookedView::Is(
                if missing {
                    ErrorView::ftp(RemoteErrorType::NoSuchFileOrDirectory, err)
                } else {
                    ErrorView::ftp(RemoteErrorType::PermissionDenied, err)
                },
                n,
            ),
        }
    }
}

/// Reports a refused creation which a missing directory above the path may explain.
fn judge_creation(path: &str, err: FtpError, plausible: bool, answers: &Vec<Answer>, at: usize) -> (r:
    Looked<RemoteError>)
    requires
        at <= answers@.len(),
    ensures
        looked_error(r) == look_creation_verdict(
            path@,
            err@,
            plausible,
            answer_views(answers@),
            at as int,
        ),
        r matches Looked::Is { value: _, next } ==> at <= next <= answers@.len(),
{
    if !plausible {
        return Looked::Is {
            value: RemoteError::with_ftp(RemoteErrorType::PermissionDenied, err),
            next: at,
        };
    }
    match destination_parent_is_missing(path, answers, at) {
        Looked::Ask(a) => Looked::Ask(a),
        Looked::Is { value: missing, next } => {
            let kind = if missing {
                RemoteErrorType::NoSuchFileOrDirectory
            } else {
                RemoteErrorType::PermissionDenied
            };
            Looked::Is { value: RemoteError::with_ftp(kind, err), next }
        },
    }
}

/// Why an upload was refused: a directory at its path is in the way, an absent directory above it is
/// missing, and anything else is a denial. A refusal that says nothing of paths is reported by its
/// code.
pub open spec fn look_create_refusal(
    path: Seq<char>,
    err: FtpErrorView,
    tape: Seq<Result<Seq<FileView>, ErrorView>>,
    at: int,
) -> LookedView<ErrorView> {
    if !creation_refusal(err) {
        LookedView::Is(ftp_failure(err), at)
    } else {
        match look_stat(path, tape, at) {
            LookedView::Ask(a) => LookedView::Ask(a),
            LookedView::Is(found, n) => if found is Ok && found->Ok_0.is_dir() {
                LookedView::Is(ErrorView::ftp(RemoteErrorType::AlreadyExists, err), n)
            } else {
                look_creation_verdict(path, err, found_absent(found), tape, n)
            },
        }
    }
}

/// Classifies a failed `STOR` or `APPE` while preserving ambiguous refusals.
pub fn classify_create_refusal(path: &str, err: FtpError, answers: &Vec<Answer>, at: usize) -> (r:
    Looked<RemoteError>)
    requires
        at <= answers@.len(),
    ensures
        looked_error(r) == look_create_refusal(path@, err@, answer_views(answers@), at as int),
        r matches Looked::Is { value: _, next } ==> at <= next <= answers@.len(),
{
    if !is_creation_refusal(&err) {
        return Looked::Is { value: ftp_error(err), next: at };
    }
    match stat_entry(path, answers, at) {
        Looked::Ask(a) => Looked::Ask(a),
        Looked::Is { value: found, next } => {
            let is_dir = match &found {
                Ok(entry) => entry.is_dir(),
                Err(_) => false,
            };
            if is_dir {
                Looked::Is {
                    value: RemoteError::with_ftp(RemoteErrorType::AlreadyExists, err),
                    next,
                }
            } else {
                judge_creation(path, err, is_absent(&found), answers, next)
            }
        },
    }
}

/// Why the creation of a directory was refused: whatever stands at its path is in the way, an absent
/// directory above it is missing, and anything else is a denial. A refusal that says nothing of paths
/// is reported by its code.
pub open spec fn look_create_dir_refusal(
    path: Seq<char>,
    err: FtpErrorView,
    tape: Seq<Result<Seq<FileView>, ErrorView>>,
    at: int,
) -> LookedView<ErrorView> {
    if !creation_refusal(err) {
        LookedView::Is(ftp_failure(err), at)
    } else {
        match look_stat(path, tape, at) {
            LookedView::Ask(a) => LookedView::Ask(a),
            LookedView::Is(found, n) => if found is Ok {
                LookedView::Is(ErrorView::ftp(RemoteErrorType::AlreadyExists, err), n)
            } else {
                look_creation_verdict(path, err, found_absent(found), tape, n)
            },
        }
    }
}

/// Classifies a failed `MKD` while preserving ambiguous 550 refusals.
pub fn classify_create_dir_refusal(
    path: &str,
    err: FtpError,
    answers: &Vec<Answer>,
    at: usize,
) -> (r: Looked<RemoteError>)
    requires
        at <= answers@.len(),
    ensures
        looked_error(r) == look_create_dir_refusal(path@, err@, answer_views(answers@), at as int),
        r matches Looked::Is { value: _, next } ==> at <= next <= answers@.len(),
{
    if !is_creation_refusal(&err) {
        return Looked::Is { value: ftp_error(err), next: at };
    }
    match stat_entry(path, answers, at) {
        Looked::Ask(a) => Looked::Ask(a),
        Looked::Is { value: found, next } => {
            if found.is_ok() {
                Looked::Is {
                    value: RemoteError::with_ftp(RemoteErrorType::AlreadyExists, err),
                    next,
                }
            } else {
                judge_creation(path, err, is_absent(&found), answers, next)
            }
        },
    }
}

/// Why the removal of a directory was refused with a 550: the path is no directory, it is not empty,
/// or it is absent; anything else is a denial. Any other refusal is reported by its code.
pub open spec fn look_remove_dir_refusal(
    path: Seq<char>,
    err: FtpErrorView,
    tape: Seq<Result<Seq<FileView>, ErrorView>>,
    at: int,
) -> LookedView<ErrorView> {
    if !err.refused_with(FILE_UNAVAILABLE) {
        LookedView::Is(ftp_failure(err), at)
    } else {
        match look_stat(path, tape, at) {
            LookedView::Ask(a) => LookedView::Ask(a),
            LookedView::Is(Ok(found), n) => if !found.is_dir() {
                LookedView::Is(ErrorView::ftp(RemoteErrorType::BadFile, err), n)
            } else {
                match look_list_dir(path, tape, n) {
                    LookedView::Ask(a) => LookedView::Ask(a),
                    LookedView::Is(listed, m) => LookedView::Is(
                        if listed is Ok && listed->Ok_0.len() > 0 {
                            ErrorView::ftp(RemoteErrorType::DirectoryNotEmpty, err)
                        } else {
                            ErrorView::ftp(RemoteErrorType::PermissionDenied, err)
                        },
                        m,
                    ),
                }
            },
            LookedView::Is(Err(e), n) => LookedView::Is(
                if e.kind == RemoteErrorType::NoSuchFileOrDirectory {
                    ErrorView::ftp(RemoteErrorType::NoSuchFileOrDirectory, err)
                } else {
                    ErrorView::ftp(RemoteErrorType::PermissionDenied, err)
                },
                n,
            ),
        }
    }
}

/// Classifies a failed `RMD` while preserving ambiguous refusals.
pub fn classify_remove_dir_refusal(
    path: &str,
    err: FtpError,
    answers: &Vec<Answer>,
    at: usize,
) -> (r: Looked<RemoteError>)
    requires
        at <= answers@.len(),
    ensures
        looked_error(r) == look_remove_dir_refusal(path@, err@, answer_views(answers@), at as int),
        r matches Looked::Is { value: _, next } ==> at <= next <= answers@.len(),
{
    if !is_file_unavailable(&err) {
        return Looked::Is { value: ftp_error(err), next: at };
    }
    match stat_entry(path, answers, at) {
        Looked::Ask(a) => Looked::Ask(a),
        Looked::Is { value: Ok(found), next } => {
            if !found.is_dir() {
                return Looked::Is {
                    value: RemoteError::with_ftp(RemoteErrorType::BadFile, err),
                    next,
                };
            }
            match list_entries(path, answers, next) {
                Looked::Ask(a) => Looked::Ask(a),
                Looked::Is { value: listed, next } => {
                    let kind = match &listed {
                        Ok(entries) => if entries.len() > 0 {
                            RemoteErrorType::DirectoryNotEmpty
                        } else {
                            RemoteErrorType::PermissionDenied
                        },
                        Err(_) => RemoteErrorType::PermissionDenied,
                    };
                    Looked::Is { value: RemoteError::with_ftp(kind, err), next }
                },
            }
        },
        Looked::Is { value: Err(e), next } => {
            let kind = if e.kind == RemoteErrorType::NoSuchFileOrDirectory {
                RemoteErrorType::NoSuchFileOrDirectory
            } else {
                RemoteErrorType::PermissionDenied
            };
            Looked::Is { value: RemoteError::with_ftp(kind, err), next }
        },
    }
}

/// Why a rename was refused: an absent source, an absent directory above the destination, or else a
/// denial. A refusal that says nothing of paths is reported by its code.
pub open spec fn look_rename_refusal(
    src: Seq<char>,
    dest: Seq<char>,
    err: FtpErrorView,
    tape: Seq<Result<Seq<FileView>, ErrorView>>,
    at: int,
) -> LookedView<ErrorView> {
    if !creation_refusal(err) {
        LookedView::Is(ftp_failure(err), at)
    } else {
        match look_stat(src, tape, at) {
            LookedView::Ask(a) => LookedView::Ask(a),
            LookedView::Is(found, n) => if found_absent(found) {
                LookedView::Is(ErrorView::ftp(RemoteErrorType::NoSuchFileOrDirectory, err), n)
            } else {
                look_creation_verdict(dest, err, found is Ok, tape, n)
            },
        }
    }
}

/// Classifies a failed rename while distinguishing source and destination lookup.
pub fn classify_rename_refusal(
    src: &str,
    dest: &str,
    err: FtpError,
    answers: &Vec<Answer>,
    at: usize,
) -> (r: Looked<RemoteError>)
    requires
        at <= answers@.len(),
    ensures
        looked_error(r) == look_rename_refusal(
            src@,
            dest@,
            err@,
            answer_views(answers@),
            at as int,
        ),
        r matches Looked::Is { value: _, next } ==> at <= next <= answers@.len(),
{
    if !is_creation_refusal(&err) {
        return Looked::Is { value: ftp_error(err), next: at };
    }
    match stat_entry(src, answers, at) {
        Looked::Ask(a) => Looked::Ask(a),
        Looked::Is { value: found, next } => {
            if is_absent(&found) {
                Looked::Is {
                    value: RemoteError::with_ftp(RemoteErrorType::NoSuchFileOrDirectory, err),
                    next,
                }
            } else {
                judge_creation(dest, err, found.is_ok(), answers, next)
            }
        },
    }
}

// ---------------------------------------------------------------------------------------------
// Laws
// ---------------------------------------------------------------------------------------------

/// The path that is reached from `path` by going up `n` times; none above the root.
pub open spec fn ancestor(path: Seq<char>, n: nat) -> Option<Seq<char>>
    decreases n,
{
    if n == 0 {
        Some(path)
    } else {
        match parent(path) {
            Some(p) => ancestor(p, (n - 1) as nat),
            None => None,
        }
    }
}

/// Probing for absence asks for each directory above the path at most once, the nearest first, and
/// for no more than its limit: the listing it asks for after `k` answers is that of the ancestor
/// `k + 1` levels up.
pub proof fn law_probing_lists_each_ancestor_once(
    path: Seq<char>,
    depth: nat,
    tape: Seq<Result<Seq<FileView>, ErrorView>>,
    at: int,
    asked: Seq<char>,
)
    requires
        0 <= at <= tape.len(),
        probe_absent(path, depth, tape, at) == LookedView::<bool>::Ask(AskView::List(asked)),
    ensures
        tape.len() - at < depth,
        ancestor(path, (tape.len() - at + 1) as nat) == Some(asked),
    decreases depth,
{
    let p = parent(path)->0;
    if at < tape.len() {
        law_probing_lists_each_ancestor_once(p, (depth - 1) as nat, tape, at + 1, asked);
    } else {
        reveal_with_fuel(ancestor, 2);
    }
}

/// Different ancestors are different places, so that probing never asks for the same listing twice.
pub proof fn law_ancestors_differ(path: Seq<char>, m: nat, n: nat)
    requires
        m < n,
        ancestor(path, n) is Some,
    ensures
        ancestor(path, m) is Some,
        !same_path(ancestor(path, m)->0, ancestor(path, n)->0),
{
    lemma_ancestor_depth(path, n);
    lemma_ancestor_up(path, m, n);
    lemma_ancestor_depth(path, m);
}

/// Going up takes one component away each time.
proof fn lemma_ancestor_depth(path: Seq<char>, n: nat)
    requires
        ancestor(path, n) is Some,
    ensures
        components(ancestor(path, n)->0).len() + n == components(path).len(),
    decreases n,
{
    if n > 0 {
        lemma_ancestor_depth(parent(path)->0, (n - 1) as nat);
    }
}

/// What lies below an ancestor exists.
proof fn lemma_ancestor_up(path: Seq<char>, m: nat, n: nat)
    requires
        m <= n,
        ancestor(path, n) is Some,
    ensures
        ancestor(path, m) is Some,
    decreases m,
{
    if m > 0 {
        lemma_ancestor_up(parent(path)->0, (m - 1) as nat, (n - 1) as nat);
    }
}

/// Whether what is asked for can go over the wire.
pub open spec fn valid_ask(a: AskView) -> bool {
    a matches AskView::List(p) ==> wire_path(p)
}

/// Probing below a valid path asks for valid paths only.
proof fn lemma_probe_asks(
    path: Seq<char>,
    depth: nat,
    tape: Seq<Result<Seq<FileView>, ErrorView>>,
    at: int,
)
    requires
        wire_path(path),
    ensures
        probe_absent(path, depth, tape, at) matches LookedView::Ask(a) ==> valid_ask(a),
    decreases depth,
{
    if depth > 0 && parent(path) is Some {
        crate::path::law_parent_is_a_wire_path(path);
        lemma_probe_asks(parent(path)->0, (depth - 1) as nat, tape, at + 1);
    }
}

/// Looking up a valid path asks for valid paths only.
pub proof fn law_lookups_ask_for_valid_paths(
    path: Seq<char>,
    tape: Seq<Result<Seq<FileView>, ErrorView>>,
    at: int,
)
    requires
        wire_path(path),
    ensures
        look_stat(path, tape, at) matches LookedView::Ask(a) ==> valid_ask(a),
        look_list_dir(path, tape, at) matches LookedView::Ask(a) ==> valid_ask(a),
    decreases path.len(),
{
    lemma_probe_asks(path, PROBE_LIMIT as nat, tape, at + 1);
    lemma_stat_asks(path, tape, at);
    lemma_stat_asks(path, tape, at + 1);
}

/// Looking up the entry at a valid path asks for valid paths only.
proof fn lemma_stat_asks(path: Seq<char>, tape: Seq<Result<Seq<FileView>, ErrorView>>, at: int)
    requires
        wire_path(path),
    ensures
        look_stat(path, tape, at) matches LookedView::Ask(a) ==> valid_ask(a),
    decreases path.len(),
{
    if parent(path) is Some {
        let p = parent(path)->0;
        crate::path::law_parent_is_a_wire_path(path);
        crate::path::lemma_parent_is_shorter(path);
        lemma_probe_asks(p, PROBE_LIMIT as nat, tape, at + 1);
        lemma_stat_asks(p, tape, at + 1);
    }
}

/// Asking whether the directory above a valid path is missing asks for valid paths only.
proof fn lemma_parent_missing_asks(
    path: Seq<char>,
    tape: Seq<Result<Seq<FileView>, ErrorView>>,
    at: int,
)
    requires
        wire_path(path),
    ensures
        look_parent_missing(path, tape, at) matches LookedView::Ask(a) ==> valid_ask(a),
{
    if parent(path) is Some {
        crate::path::law_parent_is_a_wire_path(path);
        lemma_stat_asks(parent(path)->0, tape, at);
    }
}

/// Finding the reason for a refusal asks for valid paths only.
pub proof fn law_classification_asks_for_valid_paths(
    path: Seq<char>,
    dest: Seq<char>,
    err: FtpErrorView,
    tape: Seq<Result<Seq<FileView>, ErrorView>>,
    at: int,
)
    requires
        wire_path(path),
        wire_path(dest),
    ensures
        look_file_refusal(path, err, tape, at) matches LookedView::Ask(a) ==> valid_ask(a),
        look_create_refusal(path, err, tape, at) matches LookedView::Ask(a) ==> valid_ask(a),
        look_create_dir_refusal(path, err, tape, at) matches LookedView::Ask(a) ==> valid_ask(a),
        look_remove_dir_refusal(path, err, tape, at) matches LookedView::Ask(a) ==> valid_ask(a),
        look_rename_refusal(path, dest, err, tape, at) matches LookedView::Ask(a) ==> valid_ask(a),
{
    lemma_stat_asks(path, tape, at);
    if let LookedView::Is(_, n) = look_stat(path, tape, at) {
        lemma_parent_missing_asks(path, tape, n);
        lemma_parent_missing_asks(dest, tape, n);
        law_lookups_ask_for_valid_paths(path, tape, n);
    }
}

/// The entry that is found at a path stands at that path.
pub proof fn law_stat_finds_the_path(
    path: Seq<char>,
    tape: Seq<Result<Seq<FileView>, ErrorView>>,
    at: int,
    found: FileView,
    next: int,
)
    requires
        look_stat(path, tape, at) == LookedView::Is(Ok::<FileView, ErrorView>(found), next),
    ensures
        same_path(found.path, path),
{
    if parent(path) is Some {
        lemma_first_at(tape[at]->Ok_0, path, 0);
    }
}

/// The first entry at a path stands at that path.
proof fn lemma_first_at(entries: Seq<FileView>, path: Seq<char>, from: int)
    ensures
        first_at(entries, path, from) is Some ==> same_path(
            first_at(entries, path, from)->0.path,
            path,
        ),
    decreases entries.len() - from,
{
    if from < entries.len() && !same_path(entries[from].path, path) {
        lemma_first_at(entries, path, from + 1);
    }
}

/// However a refused command is classified, the server's refusal stays the first FTP cause of what is
/// reported.
pub proof fn law_classification_keeps_the_refusal(
    path: Seq<char>,
    dest: Seq<char>,
    err: FtpErrorView,
    tape: Seq<Result<Seq<FileView>, ErrorView>>,
    at: int,
)
    ensures
        look_file_refusal(path, err, tape, at) matches LookedView::Is(e, _) ==> e.first_ftp()
            == Some(err),
        look_create_refusal(path, err, tape, at) matches LookedView::Is(e, _) ==> e.first_ftp()
            == Some(err),
        look_create_dir_refusal(path, err, tape, at) matches LookedView::Is(e, _) ==> e.first_ftp()
            == Some(err),
        look_remove_dir_refusal(path, err, tape, at) matches LookedView::Is(e, _) ==> e.first_ftp()
            == Some(err),
        look_rename_refusal(path, dest, err, tape, at) matches LookedView::Is(e, _) ==> e.first_ftp()
            == Some(err),
{
    reveal_with_fuel(ErrorView::first_ftp, 2);
    reveal_with_fuel(crate::error::CauseView::first_ftp, 2);
}

/// Where a listing is refused with an ambiguous 550, what is reported goes back to that refusal, and
/// says that the path is absent only where the listing of an ancestor proved it: the answer after
/// `k` refused ancestors does not hold the ancestor `k` levels up.
pub proof fn law_absence_is_reported_only_when_proved(
    path: Seq<char>,
    tape: Seq<Result<Seq<FileView>, ErrorView>>,
    refusal: ErrorView,
    reported: ErrorView,
    next: int,
)
    requires
        tape.len() > 0,
        tape[0] == Err::<Seq<FileView>, ErrorView>(refusal),
        ambiguous_refusal(refusal),
        look_list_dir(path, tape, 0) == LookedView::Is(
            Err::<Seq<FileView>, ErrorView>(reported),
            next,
        ),
    ensures
        reported.first_reply() == refusal.first_reply(),
        reported.kind == RemoteErrorType::NoSuchFileOrDirectory || reported.kind
            == RemoteErrorType::PermissionDenied,
        reported.kind == RemoteErrorType::NoSuchFileOrDirectory ==> proves_absent(path, tape, 1),
{
    crate::error::law_refining_keeps_the_refusal(reported.kind, refusal);
    lemma_probe_evidence(path, PROBE_LIMIT as nat, tape, 1);
}

/// Whether an answer from `at` on is a listing that lacks what leads to `path`.
pub open spec fn proves_absent(
    path: Seq<char>,
    tape: Seq<Result<Seq<FileView>, ErrorView>>,
    at: int,
) -> bool {
    exists|i: int|
        {
            &&& at <= i < tape.len()
            &&& #[trigger] tape[i] is Ok
            &&& ancestor(path, (i - at) as nat) is Some
            &&& !lists_path(tape[i]->Ok_0, ancestor(path, (i - at) as nat)->0)
        }
}

/// Absence is proved by a listing that lacks what leads to the path.
proof fn lemma_probe_evidence(
    path: Seq<char>,
    depth: nat,
    tape: Seq<Result<Seq<FileView>, ErrorView>>,
    at: int,
)
    requires
        0 <= at,
    ensures
        probe_absent(path, depth, tape, at) matches LookedView::Is(absent, _) && absent
            ==> proves_absent(path, tape, at),
    decreases depth,
{
    if depth > 0 && parent(path) is Some && at < tape.len() {
        let p = parent(path)->0;
        if tape[at] is Ok {
            assert(ancestor(path, 0) == Some(path));
        } else {
            lemma_probe_evidence(p, (depth - 1) as nat, tape, at + 1);
            if probe_absent(path, depth, tape, at) matches LookedView::Is(absent, _) && absent {
                let i = choose|i: int|
                    {
                        &&& at + 1 <= i < tape.len()
                        &&& #[trigger] tape[i] is Ok
                        &&& ancestor(p, (i - (at + 1)) as nat) is Some
                        &&& !lists_path(tape[i]->Ok_0, ancestor(p, (i - (at + 1)) as nat)->0)
                    };
                assert(ancestor(path, (i - at) as nat) == ancestor(p, (i - (at + 1)) as nat));
                assert(tape[i] is Ok);
            }
        }
    }
}

/// Whether no answer claims by itself that something is absent: only a 550, which is ambiguous, is
/// reported so.
pub open spec fn nothing_claimed_absent(tape: Seq<Result<Seq<FileView>, ErrorView>>) -> bool {
    forall|i: int|
        0 <= i < tape.len() && (#[trigger] tape[i]) is Err && !ambiguous_refusal(tape[i]->Err_0)
            ==> tape[i]->Err_0.kind != RemoteErrorType::NoSuchFileOrDirectory
}

/// Looking a path up reports it absent only where the listing of a directory above it proves that.
/// The path is not the root.
pub proof fn law_lookups_report_absence_only_when_proved(
    path: Seq<char>,
    tape: Seq<Result<Seq<FileView>, ErrorView>>,
    at: int,
)
    requires
        0 <= at,
        nothing_claimed_absent(tape),
        parent(path) is Some,
    ensures
        look_stat(path, tape, at) matches LookedView::Is(found, _) && found_absent(found)
            ==> proves_absent(path, tape, at),
        look_list_dir(path, tape, at) matches LookedView::Is(Err(e), _) && e.kind
            == RemoteErrorType::NoSuchFileOrDirectory ==> proves_absent(path, tape, at + 1),
{
    lemma_stat_evidence(path, tape, at);
    lemma_probe_evidence(path, PROBE_LIMIT as nat, tape, at + 1);
}

/// An entry is found absent only where the listing of a directory above it proves that.
proof fn lemma_stat_evidence(path: Seq<char>, tape: Seq<Result<Seq<FileView>, ErrorView>>, at: int)
    requires
        0 <= at,
        nothing_claimed_absent(tape),
        parent(path) is Some,
    ensures
        look_stat(path, tape, at) matches LookedView::Is(found, _) && found_absent(found)
            ==> proves_absent(path, tape, at),
    decreases path.len(),
{
    if at < tape.len() && parent(path) is Some {
        let p = parent(path)->0;
        crate::path::lemma_parent_is_shorter(path);
        assert(ancestor(path, 0) == Some(path));
        if tape[at] is Ok {
            if first_at(tape[at]->Ok_0, path, 0) is None {
                lemma_none_at(tape[at]->Ok_0, path, 0);
            }
            if parent(p) is Some {
                lemma_stat_evidence(p, tape, at + 1);
            }
        } else {
            lemma_probe_evidence(p, PROBE_LIMIT as nat, tape, at + 1);
        }
        if proves_absent(p, tape, at + 1) {
            lemma_evidence_below(path, tape, at);
        }
    }
}

/// Where no entry stands at a path from some index on, none is listed from there on.
proof fn lemma_none_at(entries: Seq<FileView>, path: Seq<char>, from: int)
    requires
        first_at(entries, path, from) is None,
    ensures
        forall|i: int| from <= i < entries.len() ==> !same_path(#[trigger] entries[i].path, path),
    decreases entries.len() - from,
{
    if from < entries.len() {
        lemma_none_at(entries, path, from + 1);
    }
}

/// What proves the directory above a path absent proves the path absent.
proof fn lemma_evidence_below(path: Seq<char>, tape: Seq<Result<Seq<FileView>, ErrorView>>, at: int)
    requires
        0 <= at,
        parent(path) is Some,
        proves_absent(parent(path)->0, tape, at + 1),
    ensures
        proves_absent(path, tape, at),
{
    let p = parent(path)->0;
    let i = choose|i: int|
        {
            &&& at + 1 <= i < tape.len()
            &&& #[trigger] tape[i] is Ok
            &&& ancestor(p, (i - (at + 1)) as nat) is Some
            &&& !lists_path(tape[i]->Ok_0, ancestor(p, (i - (at + 1)) as nat)->0)
        };
    assert(ancestor(path, (i - at) as nat) == ancestor(p, (i - (at + 1)) as nat));
    assert(tape[i] is Ok);
}

/// A refused upload, creation or removal of a directory is put down to an absent path only where the
/// listing of a directory above that path proves it. The path is not the root.
pub proof fn law_classification_reports_absence_only_when_proved(
    path: Seq<char>,
    err: FtpErrorView,
    tape: Seq<Result<Seq<FileView>, ErrorView>>,
    at: int,
)
    requires
        0 <= at,
        nothing_claimed_absent(tape),
        parent(path) is Some,
    ensures
        look_create_refusal(path, err, tape, at) matches LookedView::Is(e, _) && e.kind
            == RemoteErrorType::NoSuchFileOrDirectory ==> proves_absent(path, tape, at),
        look_create_dir_refusal(path, err, tape, at) matches LookedView::Is(e, _) && e.kind
            == RemoteErrorType::NoSuchFileOrDirectory ==> proves_absent(path, tape, at),
        look_remove_dir_refusal(path, err, tape, at) matches LookedView::Is(e, _) && e.kind
            == RemoteErrorType::NoSuchFileOrDirectory ==> proves_absent(path, tape, at),
{
    lemma_stat_evidence(path, tape, at);
}

/// A refused rename is put down to an absent path only where the listing of a directory above that
/// path proves it. The path is the source or the directory that the destination would stand in, and
/// neither is the root.
pub proof fn law_rename_reports_absence_only_when_proved(
    src: Seq<char>,
    dest: Seq<char>,
    err: FtpErrorView,
    tape: Seq<Result<Seq<FileView>, ErrorView>>,
    at: int,
)
    requires
        0 <= at,
        nothing_claimed_absent(tape),
        parent(src) is Some,
        parent(dest) is Some,
        parent(parent(dest)->0) is Some,
    ensures
        look_rename_refusal(src, dest, err, tape, at) matches LookedView::Is(e, _) && e.kind
            == RemoteErrorType::NoSuchFileOrDirectory ==> {
            ||| proves_absent(src, tape, at)
            ||| exists|n: int| at <= n && #[trigger] proves_absent(parent(dest)->0, tape, n)
        },
{
    lemma_stat_evidence(src, tape, at);
    if let LookedView::Is(_, n) = look_stat(src, tape, at) {
        lemma_stat_advances(src, tape, at);
        lemma_stat_evidence(parent(dest)->0, tape, n);
    }
}

/// Probing goes forward through the answers.
proof fn lemma_probe_advances(
    path: Seq<char>,
    depth: nat,
    tape: Seq<Result<Seq<FileView>, ErrorView>>,
    at: int,
)
    ensures
        probe_absent(path, depth, tape, at) matches LookedView::Is(_, n) ==> at <= n,
    decreases depth,
{
    if depth > 0 && parent(path) is Some {
        lemma_probe_advances(parent(path)->0, (depth - 1) as nat, tape, at + 1);
    }
}

/// Looking an entry up goes forward through the answers.
proof fn lemma_stat_advances(path: Seq<char>, tape: Seq<Result<Seq<FileView>, ErrorView>>, at: int)
    ensures
        look_stat(path, tape, at) matches LookedView::Is(_, n) ==> at <= n,
    decreases path.len(),
{
    if parent(path) is Some {
        let p = parent(path)->0;
        crate::path::lemma_parent_is_shorter(path);
        lemma_probe_advances(p, PROBE_LIMIT as nat, tape, at + 1);
        lemma_stat_advances(p, tape, at + 1);
    }
}

/// Probing ends: it uses no more answers than its limit.
proof fn lemma_probe_ends(
    path: Seq<char>,
    depth: nat,
    tape: Seq<Result<Seq<FileView>, ErrorView>>,
    at: int,
)
    requires
        at + depth <= tape.len(),
    ensures
        probe_absent(path, depth, tape, at) is Is,
        probe_absent(path, depth, tape, at)->Is_1 <= at + depth,
    decreases depth,
{
    if depth > 0 && parent(path) is Some {
        lemma_probe_ends(parent(path)->0, (depth - 1) as nat, tape, at + 1);
    }
}

/// Lookups end: the entry at a path is known after as many answers as the path has components and
/// the probing limit, and a directory after one more.
pub proof fn law_lookups_end(
    path: Seq<char>,
    tape: Seq<Result<Seq<FileView>, ErrorView>>,
    at: int,
)
    ensures
        at + components(path).len() + PROBE_LIMIT <= tape.len() ==> {
            &&& look_stat(path, tape, at) is Is
            &&& look_stat(path, tape, at)->Is_1 <= at + components(path).len() + PROBE_LIMIT
        },
        at + components(path).len() + PROBE_LIMIT + 1 <= tape.len() ==> {
            &&& look_list_dir(path, tape, at) is Is
            &&& look_list_dir(path, tape, at)->Is_1 <= at + components(path).len() + PROBE_LIMIT + 1
        },
{
    if at + components(path).len() + PROBE_LIMIT <= tape.len() {
        lemma_stat_ends(path, tape, at);
    }
    if at + components(path).len() + PROBE_LIMIT + 1 <= tape.len() {
        lemma_probe_ends(path, PROBE_LIMIT as nat, tape, at + 1);
        lemma_stat_ends(path, tape, at + 1);
    }
}

/// Looking an entry up ends.
proof fn lemma_stat_ends(path: Seq<char>, tape: Seq<Result<Seq<FileView>, ErrorView>>, at: int)
    requires
        at + components(path).len() + PROBE_LIMIT <= tape.len(),
    ensures
        look_stat(path, tape, at) is Is,
        look_stat(path, tape, at)->Is_1 <= at + components(path).len() + PROBE_LIMIT,
    decreases path.len(),
{
    if parent(path) is Some {
        let p = parent(path)->0;
        crate::path::lemma_parent_is_shorter(path);
        lemma_probe_ends(p, PROBE_LIMIT as nat, tape, at + 1);
        lemma_stat_ends(p, tape, at + 1);
    }
}

/// Whether `more` holds the same answers, and maybe others after them.
pub open spec fn extends(
    more: Seq<Result<Seq<FileView>, ErrorView>>,
    tape: Seq<Result<Seq<FileView>, ErrorView>>,
) -> bool {
    tape.len() <= more.len() && forall|i: int| 0 <= i < tape.len() ==> #[trigger] more[i] == tape[i]
}

/// Probing that is done stays done.
proof fn lemma_probe_stands(
    path: Seq<char>,
    depth: nat,
    tape: Seq<Result<Seq<FileView>, ErrorView>>,
    more: Seq<Result<Seq<FileView>, ErrorView>>,
    at: int,
)
    requires
        0 <= at,
        extends(more, tape),
        probe_absent(path, depth, tape, at) is Is,
    ensures
        probe_absent(path, depth, more, at) == probe_absent(path, depth, tape, at),
    decreases depth,
{
    if depth > 0 && parent(path) is Some && at < tape.len() {
        assert(more[at] == tape[at]);
        if tape[at] is Err && ambiguous_refusal(tape[at]->Err_0) {
            lemma_probe_stands(parent(path)->0, (depth - 1) as nat, tape, more, at + 1);
        }
    }
}

/// A lookup of an entry that is done stays done.
proof fn lemma_stat_stands(
    path: Seq<char>,
    tape: Seq<Result<Seq<FileView>, ErrorView>>,
    more: Seq<Result<Seq<FileView>, ErrorView>>,
    at: int,
)
    requires
        0 <= at,
        extends(more, tape),
        look_stat(path, tape, at) is Is,
    ensures
        look_stat(path, more, at) == look_stat(path, tape, at),
    decreases path.len(),
{
    assert(more[at] == tape[at]);
    if parent(path) is Some {
        let p = parent(path)->0;
        crate::path::lemma_parent_is_shorter(path);
        match tape[at] {
            Err(e) => {
                if ambiguous_refusal(e) {
                    lemma_probe_stands(p, PROBE_LIMIT as nat, tape, more, at + 1);
                }
            },
            Ok(entries) => {
                if file_listing(p, entries) {
                    lemma_stat_stands(p, tape, more, at + 1);
                }
            },
        }
    }
}

/// The result of a lookup stands: answers that come after those it used do not change it.
pub proof fn law_results_stand(
    path: Seq<char>,
    tape: Seq<Result<Seq<FileView>, ErrorView>>,
    more: Seq<Result<Seq<FileView>, ErrorView>>,
    at: int,
)
    requires
        0 <= at,
        extends(more, tape),
    ensures
        look_stat(path, tape, at) is Is ==> look_stat(path, more, at) == look_stat(path, tape, at),
        look_list_dir(path, tape, at) is Is ==> look_list_dir(path, more, at) == look_list_dir(
            path,
            tape,
            at,
        ),
{
    if look_stat(path, tape, at) is Is {
        lemma_stat_stands(path, tape, more, at);
    }
    if look_list_dir(path, tape, at) is Is {
        assert(more[at] == tape[at]);
        match tape[at] {
            Err(e) => {
                if ambiguous_refusal(e) {
                    lemma_probe_stands(path, PROBE_LIMIT as nat, tape, more, at + 1);
                }
            },
            Ok(entries) => {
                if !is_root_path(path) && (file_listing(path, entries) || entries.len() == 0) {
                    lemma_stat_stands(path, tape, more, at + 1);
                }
            },
        }
    }
}

} // verus!
