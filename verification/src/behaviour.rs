//! What paths mean, what lookups find, what operations do and how a client connects.
//!
//! Every law here is stated over inputs and results. Where it needs a word of its own, the word is
//! defined here, for laws alone.
use crate::client::{
    connect_step, is_raw_listing, list_command, listed_bytes, Capabilities, ClientView, ConnectStep,
    ConnectStepView, ListCommand, ListTransfer, ListTransferView, Mode, OperationGuard, TokioFtpFs,
};
use crate::error::{
    ambiguous_refusal, ftp_kind, needs_reconnect, Cause, CauseView, ErrorView, FtpError, FtpErrorView,
    IoError, IoErrorView, ParseError, RemoteError, RemoteErrorType, Response, ResponseView,
};
use crate::file::{file_views, File, FileView};
use crate::guard::TransferGuard;
use crate::laws::{
    complete, fails_at, law_digits_stand_for_the_number, law_lines_are_read_as_sent,
    law_listings_are_complete, law_listings_fail_for_their_first_bad_row, not_empty, number_of, sent,
};
use crate::list::{files_view, text_views, ListedView};
use crate::lookup::{
    ancestor, answer_views, entry_at, file_listing, first_at, lists_path, look_create_dir_refusal,
    look_create_refusal, look_file_refusal, look_list_dir, look_remove_dir_refusal,
    look_rename_refusal, look_stat, looked_error, looked_fact, looked_file, looked_files,
    probe_absent, Answer, Ask, AskView, Looked, LookedView, PROBE_LIMIT,
};
use crate::operation::{
    append, append_step, create, create_dir, create_dir_step, create_step, exec_step, exists_step,
    fact_step, file_step, files_step, list_dir_step, lossy_text, offset_outcome, open, open_lost,
    open_step, opened_step, output_step, path_exists, path_operation_lost, remove_dir,
    remove_dir_step, remove_file, remove_file_step, rename, rename_step, reply_views, stat,
    stat_step, unit_step, unsupported, unsupported_pair, Command, CommandView, ExecOutput, Opened,
    Progress, Step, StepView, Transcript, TranscriptView,
};
use crate::path::{
    absolute_root, components, is_root_path, last_name, last_slash, lemma_components_trim, lemma_cut,
    lemma_last_slash, lemma_trim_path, next_separator, parent, same_path, slashes, trim_path,
    unc_separator, wire_form, wire_form_on, wire_path, Platform,
};
use crate::text::decimal;
use vstd::prelude::*;
use vstd::utf8::*;

verus! {

// ---------------------------------------------------------------------------------------------
// Paths
// ---------------------------------------------------------------------------------------------

/// Whether a text is one name: not empty, not `.`, and without a slash.
pub open spec fn one_name(name: Seq<char>) -> bool {
    name.len() > 0 && name != seq!['.'] && !name.contains('/')
}

/// The components of a path are its names, in order: a slash at the end and a `.` at the end add
/// none, and a name behind a slash adds itself. This fixes the components of every absolute path,
/// since each is made up so from nothing.
pub proof fn law_components_are_the_names_of_a_path(p: Seq<char>, name: Seq<char>)
    requires
        p.len() == 0 || p[0] == '/',
        one_name(name),
    ensures
        components(Seq::<char>::empty()) == Seq::<Seq<char>>::empty(),
        components(p + seq!['/']) == components(p),
        components(p + seq!['/', '.']) == components(p),
        components(p + seq!['/'] + name) == components(p).push(name),
{
    let e = Seq::<char>::empty();
    assert(trim_path(e) == e);
    assert(components(e) == Seq::<Seq<char>>::empty());
    let s = p + seq!['/'];
    let d = p + seq!['/', '.'];
    let q = s + name;
    assert(s.last() == '/');
    assert(s.drop_last() == p);
    assert(components(s) == components(p)) by {
        lemma_components_trim(s);
        lemma_components_trim(p);
        if p.len() == 0 {
            assert(s.len() == 1);
            assert(trim_path(s) == s);
        }
    }
    assert(d.last() == '.' && d[d.len() - 2] == '/');
    assert(d.drop_last() == s);
    assert(components(d) == components(s)) by {
        lemma_components_trim(d);
        lemma_components_trim(s);
    }
    let n = s.len() as int;
    assert(q.last() == name.last());
    assert(name.last() != '/') by {
        assert(name.contains(name.last()));
    }
    assert(!(q.last() == '.' && q[q.len() - 2] == '/')) by {
        if q.last() == '.' && q[q.len() - 2] == '/' {
            if name.len() > 1 {
                assert(q[q.len() - 2] == name[name.len() - 2]);
                assert(name.contains(name[name.len() - 2]));
            } else {
                assert(name =~= seq!['.']);
            }
        }
    }
    assert(trim_path(q) == q);
    lemma_last_slash(q);
    assert(last_slash(q) == n - 1) by {
        assert(q[n - 1] == '/');
        if last_slash(q) > n - 1 {
            assert(q[last_slash(q)] == name[last_slash(q) - n]);
            assert(name.contains(name[last_slash(q) - n]));
        }
    }
    assert(q.take(n) == s);
    assert(q.skip(n) == name);
    lemma_cut(q);
}

/// Two paths name the same place exactly where they have the same names in the same order, and a path
/// is the root exactly where it has none.
pub proof fn law_places_are_told_by_their_names(a: Seq<char>, b: Seq<char>)
    ensures
        same_path(a, b) <==> components(a).len() == components(b).len() && forall|i: int|
            0 <= i < components(a).len() ==> #[trigger] components(a)[i] == components(b)[i],
        is_root_path(a) <==> components(a).len() == 0,
{
    if components(a).len() == components(b).len() && forall|i: int|
        0 <= i < components(a).len() ==> #[trigger] components(a)[i] == components(b)[i] {
        assert(components(a) =~= components(b));
    }
}

/// What an absolute path stands in is what is left of it, from its start, once its last name is taken
/// away with all slashes and `.` in front of it; the root stands in nothing. The name that is taken
/// away is the last one.
pub proof fn law_parents_lack_the_last_name(p: Seq<char>)
    requires
        p.len() > 0,
        p[0] == '/',
    ensures
        parent(p) is None <==> components(p).len() == 0,
        last_name(p) is None <==> components(p).len() == 0,
        parent(p) matches Some(q) ==> {
            &&& 0 < q.len() < p.len()
            &&& q == p.take(q.len() as int)
            &&& components(q) == components(p).drop_last()
            &&& q.len() > 1 ==> q.last() != '/'
            &&& q.len() > 1 ==> !(q.last() == '.' && q[q.len() - 2] == '/')
        },
        last_name(p) matches Some(name) ==> name == components(p).last(),
{
    let t = trim_path(p);
    lemma_trim_path(p);
    if t.len() > 1 {
        lemma_cut(p);
        lemma_last_slash(t);
        let cut = t.take(last_slash(t) + 1);
        let q = trim_path(cut);
        lemma_trim_path(cut);
        assert(cut == p.take(last_slash(t) + 1));
        assert(q == p.take(q.len() as int)) by {
            assert(cut.take(q.len() as int) == p.take(q.len() as int));
        }
        assert(components(p) == components(q).push(last_name(p)->0));
        assert(components(p).drop_last() == components(q));
    }
}

/// Whether a text is an absolute path that can go over the wire: one slash leads it, it holds no
/// control character, and none of its names is `..`.
pub open spec fn sendable(p: Seq<char>) -> bool {
    &&& p.len() > 0
    &&& p[0] == '/'
    &&& p.len() > 1 ==> p[1] != '/'
    &&& forall|i: int| 0 <= i < p.len() ==> ' ' <= #[trigger] p[i] && p[i] != '\u{7f}'
    &&& forall|i: int| 0 <= i < components(p).len() ==> #[trigger] components(p)[i] != seq!['.', '.']
}

/// Exactly the sendable texts can go over the wire.
proof fn lemma_sendable(p: Seq<char>)
    ensures
        wire_path(p) <==> sendable(p),
{
    let up = crate::path::dot_dot();
    if components(p).contains(up) {
        let k = choose|k: int| 0 <= k < components(p).len() && components(p)[k] == up;
        assert(components(p)[k] == seq!['.', '.']);
    }
    if sendable(p) {
        assert forall|i: int| 0 <= i < p.len() implies !crate::text::ascii_control_char(
            #[trigger] p[i],
        ) by {}
    }
    if wire_path(p) {
        assert forall|i: int| 0 <= i < p.len() implies ' ' <= #[trigger] p[i] && p[i]
            != '\u{7f}' by {
            assert(!crate::text::ascii_control_char(p[i]));
        }
        assert forall|i: int| 0 <= i < components(p).len() implies #[trigger] components(p)[i]
            != seq!['.', '.'] by {
            assert(components(p).contains(components(p)[i]));
        }
    }
}

/// Whether bytes start with two backslashes, a server name that ends at `end`, and a share name. The
/// server is not `?` or `.`.
pub open spec fn share_at(b: Seq<u8>, end: int) -> bool {
    &&& 2 < end
    &&& end + 1 < b.len()
    &&& b[0] == 0x5c && b[1] == 0x5c
    &&& forall|i: int| 2 <= i < end ==> #[trigger] b[i] != 0x2f && b[i] != 0x5c
    &&& b[end] == 0x2f || b[end] == 0x5c
    &&& b[end + 1] != 0x2f && b[end + 1] != 0x5c
    &&& !(end == 3 && (b[2] == 0x3f || b[2] == 0x2e))
}

/// A path is absolute exactly where a slash, a drive with a separator, or a server and a share on it
/// lead it.
pub proof fn law_absolute_paths_have_a_root(b: Seq<u8>)
    ensures
        absolute_root(b) <==> {
            ||| b.len() > 0 && b[0] == 0x2f
            ||| b.len() > 2 && (0x41 <= b[0] <= 0x5a || 0x61 <= b[0] <= 0x7a) && b[1] == 0x3a && (b[2]
                == 0x2f || b[2] == 0x5c)
            ||| exists|end: int| #[trigger] share_at(b, end)
        },
{
    if b.len() >= 2 {
        lemma_next_separator(b, 2);
        let end = next_separator(b, 2);
        if crate::path::unc_root(b) {
            assert(share_at(b, end));
        }
        if exists|e: int| #[trigger] share_at(b, e) {
            let e = choose|e: int| #[trigger] share_at(b, e);
            if end < e {
                assert(!unc_separator(b[end]));
            } else if e < end {
                assert(!unc_separator(b[e]));
            }
        }
    }
}

/// Where the first separator stands.
proof fn lemma_next_separator(b: Seq<u8>, from: int)
    requires
        0 <= from <= b.len(),
    ensures
        from <= next_separator(b, from) <= b.len(),
        forall|i: int| from <= i < next_separator(b, from) ==> !unc_separator(#[trigger] b[i]),
        next_separator(b, from) < b.len() ==> unc_separator(b[next_separator(b, from)]),
    decreases b.len() - from,
{
    if from < b.len() && !unc_separator(b[from]) {
        lemma_next_separator(b, from + 1);
    }
}

/// A path is accepted exactly where it is sendable text, and goes over the wire as it is. Every other
/// path is invalid, and the reason says what it lacks.
pub proof fn law_sendable_paths_are_accepted(path: Seq<u8>)
    ensures
        wire_form(path) is Ok <==> valid_utf8(path) && sendable(decode_utf8(path)),
        wire_form(path) is Ok ==> wire_form(path)->Ok_0 == decode_utf8(path) && encode_utf8(
            wire_form(path)->Ok_0,
        ) == path,
        wire_form(path) matches Err(e) ==> {
            &&& e.kind is InvalidPath
            &&& e == if !absolute_root(path) {
                ErrorView::message(e.kind, "path must be absolute"@)
            } else if !valid_utf8(path) {
                ErrorView::message(e.kind, "FTP paths must contain valid UTF-8"@)
            } else {
                ErrorView::message(e.kind, "FTP paths must use a POSIX absolute root"@)
            }
        },
{
    crate::path::law_only_posix_paths_are_accepted(path);
    lemma_sendable(decode_utf8(path));
    if wire_form(path) is Ok {
        crate::path::law_wire_form_is_the_path(path);
    }
}

/// On Windows a path is accepted exactly where it is absolute and is sendable text with slashes in the
/// place of its backslashes, and goes over the wire so; elsewhere it goes over the wire as it is.
pub proof fn law_windows_paths_are_sent_with_slashes(path: Seq<u8>)
    ensures
        wire_form_on(Platform::Posix, path) == wire_form(path),
        wire_form_on(Platform::Windows, path) is Ok <==> absolute_root(path) && valid_utf8(path)
            && sendable(slashes(decode_utf8(path))),
        wire_form_on(Platform::Windows, path) matches Ok(p) ==> {
            let text = decode_utf8(path);
            &&& p.len() == text.len()
            &&& forall|i: int|
                0 <= i < p.len() ==> #[trigger] p[i] == if text[i] == '\\' {
                    '/'
                } else {
                    text[i]
                }
        },
        wire_form_on(Platform::Windows, path) matches Err(e) ==> {
            &&& e.kind is InvalidPath
            &&& e == if !absolute_root(path) {
                ErrorView::message(e.kind, "path must be absolute"@)
            } else if !valid_utf8(path) {
                ErrorView::message(e.kind, "FTP paths must contain valid UTF-8"@)
            } else {
                ErrorView::message(e.kind, "FTP paths must use a single POSIX absolute root"@)
            }
        },
{
    lemma_sendable(slashes(decode_utf8(path)));
}

/// A path keeps its length and every character but its backslashes, which become slashes.
pub proof fn law_backslashes_become_slashes(p: Seq<char>)
    ensures
        slashes(p).len() == p.len(),
        forall|i: int|
            0 <= i < p.len() ==> #[trigger] slashes(p)[i] == if p[i] == '\\' {
                '/'
            } else {
                p[i]
            },
{
}

/// An entry is named by the last name of its path; where that has none, or it is `..`, by a slash.
pub proof fn law_entries_are_named_by_their_path(f: FileView)
    requires
        f.path.len() > 0,
        f.path[0] == '/',
    ensures
        f.name() == if components(f.path).len() > 0 && components(f.path).last() != seq!['.', '.'] {
            components(f.path).last()
        } else {
            seq!['/']
        },
{
    law_parents_lack_the_last_name(f.path);
}

// ---------------------------------------------------------------------------------------------
// Lookups
// ---------------------------------------------------------------------------------------------

/// Whether entry `i` is the first of a listing that stands at `path`.
pub open spec fn first_entry(entries: Seq<FileView>, path: Seq<char>, i: int) -> bool {
    &&& 0 <= i < entries.len()
    &&& same_path(entries[i].path, path)
    &&& forall|j: int| 0 <= j < i ==> !same_path((#[trigger] entries[j]).path, path)
}

/// Whether no entry of a listing stands at `path`.
pub open spec fn no_entry(entries: Seq<FileView>, path: Seq<char>) -> bool {
    forall|i: int| 0 <= i < entries.len() ==> !same_path((#[trigger] entries[i]).path, path)
}

/// Whether a listing has the form in which servers list a regular file: it is the one entry, and has
/// the name of the path that was listed.
pub open spec fn form_of_a_file(dir: Seq<char>, entries: Seq<FileView>) -> bool {
    &&& entries.len() == 1
    &&& entries[0].metadata.file_type is File
    &&& components(dir).len() > 0
    &&& entries[0].name() == components(dir).last()
}

/// What the search for an entry finds.
proof fn lemma_search(entries: Seq<FileView>, path: Seq<char>, from: int)
    requires
        0 <= from,
        forall|j: int|
            0 <= j < from && j < entries.len() ==> !same_path((#[trigger] entries[j]).path, path),
    ensures
        first_at(entries, path, from) is None <==> no_entry(entries, path),
        first_at(entries, path, from) is Some ==> exists|i: int| #[trigger]
            first_entry(entries, path, i) && first_at(entries, path, from) == Some(entries[i]),
    decreases entries.len() - from,
{
    if from < entries.len() {
        if same_path(entries[from].path, path) {
            assert(first_entry(entries, path, from));
        } else {
            lemma_search(entries, path, from + 1);
        }
    }
}

/// There is one first entry.
proof fn lemma_one_first(entries: Seq<FileView>, path: Seq<char>, i: int, j: int)
    requires
        first_entry(entries, path, i),
        first_entry(entries, path, j),
    ensures
        i == j,
{
    if i < j {
        assert(!same_path(entries[i].path, path));
    } else if j < i {
        assert(!same_path(entries[j].path, path));
    }
}

/// What is found in a listing.
proof fn lemma_entry_at(entries: Seq<FileView>, path: Seq<char>)
    ensures
        no_entry(entries, path) ==> entry_at(entries, path) == Err::<FileView, ErrorView>(
            ErrorView { kind: RemoteErrorType::NoSuchFileOrDirectory, source: None },
        ),
        forall|i: int| #[trigger]
            first_entry(entries, path, i) ==> entry_at(entries, path) == Ok::<FileView, ErrorView>(
                entries[i],
            ),
        entry_at(entries, path) is Ok ==> exists|i: int| #[trigger]
            first_entry(entries, path, i) && entry_at(entries, path)->Ok_0 == entries[i],
        entry_at(entries, path) is Err ==> no_entry(entries, path),
{
    lemma_search(entries, path, 0);
    assert forall|i: int| #[trigger] first_entry(entries, path, i) implies entry_at(entries, path)
        == Ok::<FileView, ErrorView>(entries[i]) by {
        assert(!no_entry(entries, path)) by {
            assert(same_path(entries[i].path, path));
        }
        let k = choose|k: int| #[trigger]
            first_entry(entries, path, k) && first_at(entries, path, 0) == Some(entries[k]);
        lemma_one_first(entries, path, i, k);
    }
}

/// Exactly the listings of that form count as listings of a regular file.
proof fn lemma_form_of_a_file(dir: Seq<char>, entries: Seq<FileView>)
    requires
        dir.len() > 0,
        dir[0] == '/',
    ensures
        file_listing(dir, entries) <==> form_of_a_file(dir, entries),
{
    law_parents_lack_the_last_name(dir);
}

/// Looking up the entry at a path that is not the root gives back, whole, the first entry at that
/// path in the listing of what the path stands in, which is the first thing asked for.
pub proof fn law_lookups_find_the_listed_entry(
    path: Seq<char>,
    tape: Seq<Result<Seq<FileView>, ErrorView>>,
    at: int,
    found: FileView,
    next: int,
)
    requires
        path.len() > 0,
        path[0] == '/',
        components(path).len() > 0,
        0 <= at,
        look_stat(path, tape, at) == LookedView::Is(Ok::<FileView, ErrorView>(found), next),
    ensures
        at < tape.len(),
        tape[at] is Ok,
        exists|i: int| #[trigger]
            first_entry(tape[at]->Ok_0, path, i) && found == tape[at]->Ok_0[i],
{
    law_parents_lack_the_last_name(path);
    if at < tape.len() && tape[at] is Ok {
        lemma_entry_at(tape[at]->Ok_0, path);
    }
}

/// How the entry at a path that is not the root is looked up: what it stands in is listed first. Where
/// that listing has not the form of a regular file, it decides: the first entry at the path is found,
/// and where there is none the path is absent.
pub proof fn law_listings_decide_lookups(
    path: Seq<char>,
    tape: Seq<Result<Seq<FileView>, ErrorView>>,
    at: int,
)
    requires
        path.len() > 0,
        path[0] == '/',
        components(path).len() > 0,
        0 <= at,
    ensures
        parent(path) is Some,
        at >= tape.len() ==> look_stat(path, tape, at) == LookedView::<
            Result<FileView, ErrorView>,
        >::Ask(AskView::List(parent(path)->0)),
        at < tape.len() && tape[at] is Ok && !form_of_a_file(parent(path)->0, tape[at]->Ok_0) ==> {
            let entries = tape[at]->Ok_0;
            &&& forall|i: int| #[trigger]
                first_entry(entries, path, i) ==> look_stat(path, tape, at) == LookedView::Is(
                    Ok::<FileView, ErrorView>(entries[i]),
                    at + 1,
                )
            &&& no_entry(entries, path) ==> look_stat(path, tape, at) == LookedView::Is(
                Err::<FileView, ErrorView>(
                    ErrorView { kind: RemoteErrorType::NoSuchFileOrDirectory, source: None },
                ),
                at + 1,
            )
        },
{
    law_parents_lack_the_last_name(path);
    if at < tape.len() && tape[at] is Ok {
        lemma_form_of_a_file(parent(path)->0, tape[at]->Ok_0);
        lemma_entry_at(tape[at]->Ok_0, path);
    }
}

/// Where the listing has the form of a regular file, what it lists is looked up too. Beneath a regular
/// file there is nothing; where it is something else, or its own directory is denied, the listing
/// decides as it is, and any other failure to look it up is the failure.
pub proof fn law_files_have_nothing_beneath(
    path: Seq<char>,
    tape: Seq<Result<Seq<FileView>, ErrorView>>,
    at: int,
)
    requires
        path.len() > 0,
        path[0] == '/',
        components(path).len() > 0,
        0 <= at < tape.len(),
        tape[at] is Ok,
        form_of_a_file(parent(path)->0, tape[at]->Ok_0),
    ensures
        look_stat(parent(path)->0, tape, at + 1) matches LookedView::Ask(a) ==> look_stat(
            path,
            tape,
            at,
        ) == LookedView::<Result<FileView, ErrorView>>::Ask(a),
        look_stat(parent(path)->0, tape, at + 1) matches LookedView::Is(above, n) ==> {
            let entries = tape[at]->Ok_0;
            let listed = above is Ok && !(above->Ok_0.metadata.file_type is File) || above is Err
                && above->Err_0.kind is PermissionDenied;
            &&& look_stat(path, tape, at) is Is
            &&& look_stat(path, tape, at)->Is_1 == n
            &&& above is Ok && above->Ok_0.metadata.file_type is File ==> look_stat(
                path,
                tape,
                at,
            )->Is_0 == Err::<FileView, ErrorView>(
                ErrorView::message(
                    RemoteErrorType::BadFile,
                    "the parent path is a regular file"@,
                ),
            )
            &&& above is Err && !(above->Err_0.kind is PermissionDenied) ==> look_stat(
                path,
                tape,
                at,
            )->Is_0 == above
            &&& listed ==> forall|i: int| #[trigger]
                first_entry(entries, path, i) ==> look_stat(path, tape, at)->Is_0 == Ok::<
                    FileView,
                    ErrorView,
                >(entries[i])
            &&& listed && no_entry(entries, path) ==> look_stat(path, tape, at)->Is_0 == Err::<
                FileView,
                ErrorView,
            >(ErrorView { kind: RemoteErrorType::NoSuchFileOrDirectory, source: None })
        },
{
    let p = parent(path)->0;
    law_parents_lack_the_last_name(path);
    lemma_form_of_a_file(p, tape[at]->Ok_0);
    lemma_entry_at(tape[at]->Ok_0, path);
    reveal_with_fuel(look_stat, 2);
}

/// The root is a directory of which nothing else is known, wherever the connection takes commands;
/// where it does not, that is the failure.
pub proof fn law_the_root_is_a_directory(
    path: Seq<char>,
    tape: Seq<Result<Seq<FileView>, ErrorView>>,
    at: int,
)
    requires
        path.len() > 0,
        path[0] == '/',
        components(path).len() == 0,
        0 <= at,
    ensures
        at >= tape.len() ==> look_stat(path, tape, at) == LookedView::<
            Result<FileView, ErrorView>,
        >::Ask(AskView::Check),
        at < tape.len() ==> look_stat(path, tape, at) is Is && look_stat(path, tape, at)->Is_1 == at
            + 1,
        at < tape.len() && tape[at] is Err ==> look_stat(path, tape, at)->Is_0 == Err::<
            FileView,
            ErrorView,
        >(tape[at]->Err_0),
        at < tape.len() && tape[at] is Ok ==> {
            let found = look_stat(path, tape, at)->Is_0;
            &&& found is Ok
            &&& found->Ok_0.path == path
            &&& found->Ok_0.metadata.file_type is Directory
            &&& found->Ok_0.metadata.size is None
            &&& found->Ok_0.metadata.modified is None
            &&& found->Ok_0.metadata.mode is None
            &&& found->Ok_0.metadata.uid is None
            &&& found->Ok_0.metadata.gid is None
            &&& found->Ok_0.metadata.symlink is None
        },
{
    law_parents_lack_the_last_name(path);
}

/// Whether the answers from `at` up to `to` are all refusals with an ambiguous 550.
pub open spec fn all_refused(
    tape: Seq<Result<Seq<FileView>, ErrorView>>,
    at: int,
    to: int,
) -> bool {
    forall|i: int|
        at <= i < to ==> (#[trigger] tape[i]) is Err && tape[i]->Err_0.first_reply() == Some(550u32)
}

/// Probing goes on over refused ancestors.
proof fn lemma_probe_goes_on(
    path: Seq<char>,
    depth: nat,
    tape: Seq<Result<Seq<FileView>, ErrorView>>,
    at: int,
    k: nat,
)
    requires
        0 <= at,
        at + k <= tape.len(),
        k <= depth,
        ancestor(path, k) is Some,
        all_refused(tape, at, at + k),
    ensures
        probe_absent(path, depth, tape, at) == probe_absent(
            ancestor(path, k)->0,
            (depth - k) as nat,
            tape,
            at + k,
        ),
    decreases k,
{
    if k > 0 {
        let p = parent(path)->0;
        assert(tape[at] is Err);
        assert(ambiguous_refusal(tape[at]->Err_0));
        assert(all_refused(tape, at + 1, at + 1 + (k - 1)));
        lemma_probe_goes_on(p, (depth - 1) as nat, tape, at + 1, (k - 1) as nat);
        reveal_with_fuel(probe_absent, 2);
    } else {
        assert(ancestor(path, 0) == Some(path));
    }
}

/// How absence is proved: what stands above is listed, the nearest first, as long as the server
/// refuses it with an ambiguous 550, and eight listings at most. The first listing decides by holding
/// what leads on or not; any other failure, the root and the limit leave absence unproved.
///
/// The answers from `at` on are `k` refusals and what came after them.
pub proof fn law_the_first_listing_above_decides(
    path: Seq<char>,
    tape: Seq<Result<Seq<FileView>, ErrorView>>,
    at: int,
    k: nat,
)
    requires
        0 <= at,
        at + k <= tape.len(),
        k <= 8,
        ancestor(path, k) is Some,
        all_refused(tape, at, at + k),
    ensures
        ({
            let probed = probe_absent(path, PROBE_LIMIT as nat, tape, at);
            let below = ancestor(path, k)->0;
            &&& k == 8 || parent(below) is None ==> probed == LookedView::Is(false, at + k)
            &&& k < 8 && parent(below) is Some ==> {
                &&& tape.len() == at + k ==> probed == LookedView::<bool>::Ask(
                    AskView::List(parent(below)->0),
                )
                &&& tape.len() > at + k && tape[at + k] is Ok ==> probed == LookedView::Is(
                    no_entry(tape[at + k]->Ok_0, below),
                    at + k + 1,
                )
                &&& tape.len() > at + k && tape[at + k] is Err && tape[at
                    + k]->Err_0.first_reply() != Some(550u32) ==> probed == LookedView::Is(
                    false,
                    at + k + 1,
                )
            }
        }),
{
    let below = ancestor(path, k)->0;
    lemma_probe_goes_on(path, 8, tape, at, k);
    if tape.len() > at + k && tape[at + k] is Ok {
        let entries = tape[at + k]->Ok_0;
        if lists_path(entries, below) {
            let i = choose|i: int|
                0 <= i < entries.len() && same_path(#[trigger] entries[i].path, below);
            assert(same_path(entries[i].path, below));
        } else {
            assert forall|i: int| 0 <= i < entries.len() implies !same_path(
                (#[trigger] entries[i]).path,
                below,
            ) by {
                assert(!same_path(entries[i].path, below));
            }
        }
    }
    if tape.len() > at + k && tape[at + k] is Err {
        assert(ambiguous_refusal(tape[at + k]->Err_0) <==> tape[at + k]->Err_0.first_reply() == Some(
            550u32,
        ));
    }
}

/// Whether `e` reports a refusal as it is judged: absent or denied, with the refusal as the cause.
pub open spec fn judged(e: ErrorView, refusal: ErrorView, absent: bool) -> bool {
    &&& absent ==> e.kind is NoSuchFileOrDirectory
    &&& !absent ==> e.kind is PermissionDenied
    &&& e.source == Some(CauseView::Remote(Box::new(refusal)))
}

/// Where listing fails with anything but an ambiguous 550, that is the failure. Where it is refused
/// with one, the path is absent where that is proved and denied otherwise, and the refusal is the
/// cause.
pub proof fn law_refused_listings_are_judged_by_probing(
    path: Seq<char>,
    tape: Seq<Result<Seq<FileView>, ErrorView>>,
    at: int,
)
    requires
        path.len() > 0,
        path[0] == '/',
        0 <= at < tape.len(),
        tape[at] is Err,
    ensures
        ({
            let e = tape[at]->Err_0;
            let other = e.first_reply() != Some(550u32);
            let listed = look_list_dir(path, tape, at);
            let found = look_stat(path, tape, at);
            &&& other ==> listed == LookedView::Is(Err::<Seq<FileView>, ErrorView>(e), at + 1)
            &&& other ==> found == LookedView::Is(Err::<FileView, ErrorView>(e), at + 1)
            &&& !other ==> match probe_absent(path, PROBE_LIMIT as nat, tape, at + 1) {
                LookedView::Ask(a) => listed == LookedView::<Result<Seq<FileView>, ErrorView>>::Ask(a),
                LookedView::Is(absent, n) => {
                    &&& listed is Is
                    &&& listed->Is_1 == n
                    &&& listed->Is_0 is Err
                    &&& judged(listed->Is_0->Err_0, e, absent)
                },
            }
            &&& !other && components(path).len() > 0 ==> match probe_absent(
                parent(path)->0,
                PROBE_LIMIT as nat,
                tape,
                at + 1,
            ) {
                LookedView::Ask(a) => found == LookedView::<Result<FileView, ErrorView>>::Ask(a),
                LookedView::Is(absent, n) => {
                    &&& found is Is
                    &&& found->Is_1 == n
                    &&& found->Is_0 is Err
                    &&& judged(found->Is_0->Err_0, e, absent)
                },
            }
        }),
{
    law_parents_lack_the_last_name(path);
    assert(ambiguous_refusal(tape[at]->Err_0) <==> tape[at]->Err_0.first_reply() == Some(550u32));
}

/// Listing a directory asks for its listing first, and gives that listing back, whole. Only an empty
/// one and one in the form of a regular file are held against what stands at the path, and only where
/// that is a regular file does listing fail.
pub proof fn law_listing_gives_the_listing(
    path: Seq<char>,
    tape: Seq<Result<Seq<FileView>, ErrorView>>,
    at: int,
)
    requires
        path.len() > 0,
        path[0] == '/',
        0 <= at,
    ensures
        at >= tape.len() ==> look_list_dir(path, tape, at) == LookedView::<
            Result<Seq<FileView>, ErrorView>,
        >::Ask(AskView::List(path)),
        at < tape.len() && tape[at] is Ok ==> {
            let entries = tape[at]->Ok_0;
            let plain = components(path).len() == 0 || (entries.len() > 0 && !form_of_a_file(
                path,
                entries,
            ));
            let listed = look_list_dir(path, tape, at);
            &&& plain ==> listed == LookedView::Is(
                Ok::<Seq<FileView>, ErrorView>(entries),
                at + 1,
            )
            &&& !plain ==> match look_stat(path, tape, at + 1) {
                LookedView::Ask(a) => listed == LookedView::<Result<Seq<FileView>, ErrorView>>::Ask(a),
                LookedView::Is(found, n) => listed == LookedView::Is(
                    if found is Ok && found->Ok_0.metadata.file_type is File {
                        Err::<Seq<FileView>, ErrorView>(
                            ErrorView::message(
                                RemoteErrorType::BadFile,
                                "LIST requires a directory path"@,
                            ),
                        )
                    } else {
                        Ok::<Seq<FileView>, ErrorView>(entries)
                    },
                    n,
                ),
            }
        },
{
    if at < tape.len() && tape[at] is Ok {
        lemma_form_of_a_file(path, tape[at]->Ok_0);
    }
}

// ---------------------------------------------------------------------------------------------
// Refusals
// ---------------------------------------------------------------------------------------------

/// Whether a command was refused with one of these codes.
pub open spec fn refused_as(err: FtpErrorView, code: u32, other: u32) -> bool {
    err is UnexpectedResponse && (err->UnexpectedResponse_0.status == code
        || err->UnexpectedResponse_0.status == other)
}

/// Whether a lookup says what kind of failure it is: the refusal is its cause, and nothing more is
/// asked after answer `n`.
pub open spec fn told_as(
    l: LookedView<ErrorView>,
    kind: RemoteErrorType,
    err: FtpErrorView,
    n: int,
) -> bool {
    &&& l is Is
    &&& l->Is_0.kind == kind
    &&& l->Is_0.source == Some(CauseView::Ftp(err))
    &&& l->Is_1 == n
}

/// A refusal that says nothing of paths is reported by its code, and nothing is looked up for it. For
/// a file and for the removal of a directory that is any but a 550, for what creates or renames any
/// but a 550 and a 553.
pub proof fn law_other_refusals_are_reported_by_their_code(
    path: Seq<char>,
    dest: Seq<char>,
    err: FtpErrorView,
    tape: Seq<Result<Seq<FileView>, ErrorView>>,
    at: int,
)
    ensures
        !refused_as(err, 550, 550) ==> {
            &&& told_as(look_file_refusal(path, err, tape, at), ftp_kind(err), err, at)
            &&& told_as(look_remove_dir_refusal(path, err, tape, at), ftp_kind(err), err, at)
        },
        !refused_as(err, 550, 553) ==> {
            &&& told_as(look_create_refusal(path, err, tape, at), ftp_kind(err), err, at)
            &&& told_as(look_create_dir_refusal(path, err, tape, at), ftp_kind(err), err, at)
            &&& told_as(look_rename_refusal(path, dest, err, tape, at), ftp_kind(err), err, at)
        },
{
}

/// As long as what stands at the path is not known, that is what is asked for.
pub proof fn law_refusals_are_looked_into(
    path: Seq<char>,
    dest: Seq<char>,
    err: FtpErrorView,
    tape: Seq<Result<Seq<FileView>, ErrorView>>,
    at: int,
    ask: AskView,
)
    requires
        look_stat(path, tape, at) == LookedView::<Result<FileView, ErrorView>>::Ask(ask),
    ensures
        refused_as(err, 550, 550) ==> {
            &&& look_file_refusal(path, err, tape, at) == LookedView::<ErrorView>::Ask(ask)
            &&& look_remove_dir_refusal(path, err, tape, at) == LookedView::<ErrorView>::Ask(ask)
        },
        refused_as(err, 550, 553) ==> {
            &&& look_create_refusal(path, err, tape, at) == LookedView::<ErrorView>::Ask(ask)
            &&& look_create_dir_refusal(path, err, tape, at) == LookedView::<ErrorView>::Ask(ask)
            &&& look_rename_refusal(path, dest, err, tape, at) == LookedView::<ErrorView>::Ask(ask)
        },
{
}

/// A file that is refused is a bad file where a directory stands at its path and an absent one where
/// nothing does; otherwise the code says what happened.
pub proof fn law_refused_files_are_directories_or_absent(
    path: Seq<char>,
    err: FtpErrorView,
    tape: Seq<Result<Seq<FileView>, ErrorView>>,
    at: int,
    found: Result<FileView, ErrorView>,
    n: int,
)
    requires
        refused_as(err, 550, 550),
        look_stat(path, tape, at) == LookedView::Is(found, n),
    ensures
        ({
            let l = look_file_refusal(path, err, tape, at);
            &&& found matches Ok(f) ==> {
                &&& f.metadata.file_type is Directory ==> told_as(l, RemoteErrorType::BadFile, err, n)
                &&& !(f.metadata.file_type is Directory) ==> told_as(l, ftp_kind(err), err, n)
            }
            &&& found matches Err(e) ==> {
                &&& e.kind is NoSuchFileOrDirectory ==> told_as(
                    l,
                    RemoteErrorType::NoSuchFileOrDirectory,
                    err,
                    n,
                )
                &&& !(e.kind is NoSuchFileOrDirectory) ==> told_as(l, ftp_kind(err), err, n)
            }
        }),
{
}

/// Whether a refused creation below the place of `path` is put down to what that place lacks: it is
/// absent where looking it up says so, and denied otherwise and below the root.
pub open spec fn put_down_to_the_directory(
    l: LookedView<ErrorView>,
    path: Seq<char>,
    err: FtpErrorView,
    tape: Seq<Result<Seq<FileView>, ErrorView>>,
    at: int,
) -> bool {
    match parent(path) {
        None => told_as(l, RemoteErrorType::PermissionDenied, err, at),
        Some(dir) => match look_stat(dir, tape, at) {
            LookedView::Ask(a) => l == LookedView::<ErrorView>::Ask(a),
            LookedView::Is(Err(e), n) if e.kind is NoSuchFileOrDirectory => told_as(
                l,
                RemoteErrorType::NoSuchFileOrDirectory,
                err,
                n,
            ),
            LookedView::Is(_, n) => told_as(l, RemoteErrorType::PermissionDenied, err, n),
        },
    }
}

/// An upload that is refused finds a directory in its way, lacks the directory that it should stand in,
/// or is denied. A new directory finds anything in its way.
pub proof fn law_refused_creations_find_something_in_their_way(
    path: Seq<char>,
    err: FtpErrorView,
    tape: Seq<Result<Seq<FileView>, ErrorView>>,
    at: int,
    found: Result<FileView, ErrorView>,
    n: int,
)
    requires
        refused_as(err, 550, 553),
        look_stat(path, tape, at) == LookedView::Is(found, n),
    ensures
        ({
            let upload = look_create_refusal(path, err, tape, at);
            let dir = look_create_dir_refusal(path, err, tape, at);
            &&& found matches Ok(f) ==> {
                &&& f.metadata.file_type is Directory ==> told_as(
                    upload,
                    RemoteErrorType::AlreadyExists,
                    err,
                    n,
                )
                &&& !(f.metadata.file_type is Directory) ==> told_as(
                    upload,
                    RemoteErrorType::PermissionDenied,
                    err,
                    n,
                )
                &&& told_as(dir, RemoteErrorType::AlreadyExists, err, n)
            }
            &&& found matches Err(e) ==> {
                &&& e.kind is NoSuchFileOrDirectory ==> {
                    &&& put_down_to_the_directory(upload, path, err, tape, n)
                    &&& put_down_to_the_directory(dir, path, err, tape, n)
                }
                &&& !(e.kind is NoSuchFileOrDirectory) ==> {
                    &&& told_as(upload, RemoteErrorType::PermissionDenied, err, n)
                    &&& told_as(dir, RemoteErrorType::PermissionDenied, err, n)
                }
            }
        }),
{
}

/// The removal of a directory that is refused finds no directory, finds it not empty, finds nothing, or
/// is denied.
pub proof fn law_refused_removals_find_no_empty_directory(
    path: Seq<char>,
    err: FtpErrorView,
    tape: Seq<Result<Seq<FileView>, ErrorView>>,
    at: int,
    found: Result<FileView, ErrorView>,
    n: int,
)
    requires
        refused_as(err, 550, 550),
        look_stat(path, tape, at) == LookedView::Is(found, n),
    ensures
        ({
            let l = look_remove_dir_refusal(path, err, tape, at);
            &&& found matches Ok(f) ==> {
                &&& !(f.metadata.file_type is Directory) ==> told_as(
                    l,
                    RemoteErrorType::BadFile,
                    err,
                    n,
                )
                &&& f.metadata.file_type is Directory ==> match look_list_dir(path, tape, n) {
                    LookedView::Ask(a) => l == LookedView::<ErrorView>::Ask(a),
                    LookedView::Is(Ok(entries), m) if entries.len() > 0 => told_as(
                        l,
                        RemoteErrorType::DirectoryNotEmpty,
                        err,
                        m,
                    ),
                    LookedView::Is(_, m) => told_as(l, RemoteErrorType::PermissionDenied, err, m),
                }
            }
            &&& found matches Err(e) ==> {
                &&& e.kind is NoSuchFileOrDirectory ==> told_as(
                    l,
                    RemoteErrorType::NoSuchFileOrDirectory,
                    err,
                    n,
                )
                &&& !(e.kind is NoSuchFileOrDirectory) ==> told_as(
                    l,
                    RemoteErrorType::PermissionDenied,
                    err,
                    n,
                )
            }
        }),
{
}

/// A rename that is refused lacks its source, lacks the directory that its destination should stand
/// in, or is denied.
pub proof fn law_refused_renames_lack_source_or_directory(
    src: Seq<char>,
    dest: Seq<char>,
    err: FtpErrorView,
    tape: Seq<Result<Seq<FileView>, ErrorView>>,
    at: int,
    found: Result<FileView, ErrorView>,
    n: int,
)
    requires
        refused_as(err, 550, 553),
        look_stat(src, tape, at) == LookedView::Is(found, n),
    ensures
        ({
            let l = look_rename_refusal(src, dest, err, tape, at);
            &&& found is Ok ==> put_down_to_the_directory(l, dest, err, tape, n)
            &&& found matches Err(e) ==> {
                &&& e.kind is NoSuchFileOrDirectory ==> told_as(
                    l,
                    RemoteErrorType::NoSuchFileOrDirectory,
                    err,
                    n,
                )
                &&& !(e.kind is NoSuchFileOrDirectory) ==> told_as(
                    l,
                    RemoteErrorType::PermissionDenied,
                    err,
                    n,
                )
            }
        }),
{
}

// ---------------------------------------------------------------------------------------------
// Operations
// ---------------------------------------------------------------------------------------------

/// Whether an operation that takes one command goes as it should: it takes the connection, gives back
/// why it was not admitted, sends the command, and succeeds where the server does not refuse it. A
/// refusal is looked into, which ends with what the lookup says.
pub open spec fn takes_one_command(
    step: StepView<Option<ErrorView>>,
    command: CommandView,
    refusal: spec_fn(FtpErrorView) -> LookedView<ErrorView>,
    t: TranscriptView,
) -> bool {
    match t.admission {
        None => step == StepView::<Option<ErrorView>>::Lock,
        Some(Some(reason)) => step == StepView::Done(Some(reason)),
        Some(None) => {
            &&& t.replies.len() == 0 ==> step == StepView::<Option<ErrorView>>::Send(command)
            &&& t.replies.len() > 0 && t.replies[0] is None ==> step == StepView::Done(
                None::<ErrorView>,
            )
            &&& t.replies.len() > 0 && t.replies[0] is Some ==> match refusal(t.replies[0]->0) {
                LookedView::Ask(a) => step == StepView::<Option<ErrorView>>::Look(a),
                LookedView::Is(e, _) => step == StepView::Done(Some(e)),
            }
        },
    }
}

/// Each operation sends its own command for its own path, as it was given, and looks into refusals
/// of its own kind.
pub proof fn law_operations_send_their_commands(path: Seq<u8>, p: Seq<char>, t: TranscriptView)
    requires
        wire_form(path) == Ok::<Seq<char>, ErrorView>(p),
    ensures
        encode_utf8(p) == path,
        takes_one_command(
            create_dir_step(path, t),
            CommandView::MakeDir(p),
            |err: FtpErrorView| look_create_dir_refusal(p, err, t.answers, 0),
            t,
        ),
        takes_one_command(
            remove_file_step(path, t),
            CommandView::Delete(p),
            |err: FtpErrorView| look_file_refusal(p, err, t.answers, 0),
            t,
        ),
        takes_one_command(
            remove_dir_step(path, t),
            CommandView::RemoveDir(p),
            |err: FtpErrorView| look_remove_dir_refusal(p, err, t.answers, 0),
            t,
        ),
        takes_one_command(
            create_step(path, t),
            CommandView::Store(p),
            |err: FtpErrorView| look_create_refusal(p, err, t.answers, 0),
            t,
        ),
        takes_one_command(
            append_step(path, t),
            CommandView::Append(p),
            |err: FtpErrorView| look_create_refusal(p, err, t.answers, 0),
            t,
        ),
{
    law_sendable_paths_are_accepted(path);
}

/// Renaming sends the source and the destination, in this order and as they were given.
pub proof fn law_renaming_sends_source_and_destination(
    src: Seq<u8>,
    dest: Seq<u8>,
    p: Seq<char>,
    q: Seq<char>,
    t: TranscriptView,
)
    requires
        wire_form(src) == Ok::<Seq<char>, ErrorView>(p),
        wire_form(dest) == Ok::<Seq<char>, ErrorView>(q),
    ensures
        encode_utf8(p) == src,
        encode_utf8(q) == dest,
        takes_one_command(
            rename_step(src, dest, t),
            CommandView::Rename(p, q),
            |err: FtpErrorView| look_rename_refusal(p, q, err, t.answers, 0),
            t,
        ),
{
    law_sendable_paths_are_accepted(src);
    law_sendable_paths_are_accepted(dest);
}

/// A single command costs the connection exactly where it was sent and failed, and the failure is no
/// refusal or the 421 with which servers close.
pub proof fn law_failed_commands_cost_the_connection(path: Seq<u8>, t: TranscriptView)
    ensures
        path_operation_lost(path, t) <==> {
            &&& wire_form(path) is Ok
            &&& t.admission == Some(None::<ErrorView>)
            &&& t.replies.len() > 0
            &&& t.replies[0] is Some
            &&& !(t.replies[0]->0 is UnexpectedResponse
                && t.replies[0]->0->UnexpectedResponse_0.status != 421)
        },
{
}

/// Looking up an entry at a path that is not the root gives back, whole, the first entry at that path
/// in the first listing, which is that of what the path stands in.
pub proof fn law_stat_gives_the_listed_entry(
    path: Seq<u8>,
    p: Seq<char>,
    tape: Seq<Result<Seq<FileView>, ErrorView>>,
)
    requires
        wire_form(path) == Ok::<Seq<char>, ErrorView>(p),
        components(p).len() > 0,
    ensures
        tape.len() == 0 ==> stat_step(path, tape) == StepView::<Result<FileView, ErrorView>>::Look(
            AskView::List(parent(p)->0),
        ),
        stat_step(path, tape) matches StepView::Done(Ok(found)) ==> {
            &&& tape.len() > 0
            &&& tape[0] is Ok
            &&& exists|i: int| #[trigger]
                first_entry(tape[0]->Ok_0, p, i) && found == tape[0]->Ok_0[i]
        },
        tape.len() > 0 && tape[0] is Ok && !form_of_a_file(parent(p)->0, tape[0]->Ok_0) ==> {
            let entries = tape[0]->Ok_0;
            &&& forall|i: int| #[trigger]
                first_entry(entries, p, i) ==> stat_step(path, tape) == StepView::Done(
                    Ok::<FileView, ErrorView>(entries[i]),
                )
            &&& no_entry(entries, p) ==> stat_step(path, tape) == StepView::Done(
                Err::<FileView, ErrorView>(
                    ErrorView { kind: RemoteErrorType::NoSuchFileOrDirectory, source: None },
                ),
            )
        },
{
    law_sendable_paths_are_accepted(path);
    lemma_sendable(p);
    law_listings_decide_lookups(p, tape, 0);
    if let StepView::Done(Ok(found)) = stat_step(path, tape) {
        if let LookedView::Is(r, n) = look_stat(p, tape, 0) {
            law_lookups_find_the_listed_entry(p, tape, 0, found, n);
        }
    }
}

/// The operations that look something up return what the lookup finds, and ask what it asks.
pub proof fn law_lookups_are_returned(
    path: Seq<u8>,
    p: Seq<char>,
    tape: Seq<Result<Seq<FileView>, ErrorView>>,
)
    requires
        wire_form(path) == Ok::<Seq<char>, ErrorView>(p),
    ensures
        look_stat(p, tape, 0) matches LookedView::Ask(a) ==> {
            &&& stat_step(path, tape) == StepView::<Result<FileView, ErrorView>>::Look(a)
            &&& exists_step(path, tape) == StepView::<Result<bool, ErrorView>>::Look(a)
        },
        look_stat(p, tape, 0) matches LookedView::Is(found, _) ==> {
            &&& stat_step(path, tape) == StepView::Done(found)
            &&& exists_step(path, tape) is Done
            &&& found is Ok ==> exists_step(path, tape)->Done_0 == Ok::<bool, ErrorView>(true)
            &&& found is Err && found->Err_0.kind is NoSuchFileOrDirectory ==> exists_step(
                path,
                tape,
            )->Done_0 == Ok::<bool, ErrorView>(false)
            &&& found is Err && !(found->Err_0.kind is NoSuchFileOrDirectory) ==> exists_step(
                path,
                tape,
            )->Done_0 == Err::<bool, ErrorView>(found->Err_0)
        },
        look_list_dir(p, tape, 0) matches LookedView::Ask(a) ==> list_dir_step(path, tape)
            == StepView::<Result<Seq<FileView>, ErrorView>>::Look(a),
        look_list_dir(p, tape, 0) matches LookedView::Is(listed, _) ==> list_dir_step(path, tape)
            == StepView::Done(listed),
{
}

/// Something exists at a path that is not the root exactly where the listing of what the path stands in
/// holds an entry there, whatever its type. The listing has not the form of a regular file.
pub proof fn law_a_path_exists_where_it_is_listed(
    path: Seq<u8>,
    p: Seq<char>,
    tape: Seq<Result<Seq<FileView>, ErrorView>>,
    entries: Seq<FileView>,
)
    requires
        wire_form(path) == Ok::<Seq<char>, ErrorView>(p),
        components(p).len() > 0,
        tape.len() > 0,
        tape[0] == Ok::<Seq<FileView>, ErrorView>(entries),
        !form_of_a_file(parent(p)->0, entries),
    ensures
        exists_step(path, tape) == StepView::Done(Ok::<bool, ErrorView>(true)) <==> exists|i: int|
            0 <= i < entries.len() && same_path((#[trigger] entries[i]).path, p),
        exists_step(path, tape) == StepView::Done(Ok::<bool, ErrorView>(false)) <==> no_entry(
            entries,
            p,
        ),
{
    law_sendable_paths_are_accepted(path);
    lemma_sendable(p);
    law_listings_decide_lookups(p, tape, 0);
    lemma_search(entries, p, 0);
    if !no_entry(entries, p) {
        let i = choose|i: int| #[trigger]
            first_entry(entries, p, i) && first_at(entries, p, 0) == Some(entries[i]);
        assert(first_entry(entries, p, i));
        assert(same_path(entries[i].path, p));
    }
}

/// The root exists wherever the connection takes commands, which is asked for first.
pub proof fn law_the_root_exists(
    path: Seq<u8>,
    p: Seq<char>,
    tape: Seq<Result<Seq<FileView>, ErrorView>>,
)
    requires
        wire_form(path) == Ok::<Seq<char>, ErrorView>(p),
        components(p).len() == 0,
    ensures
        tape.len() == 0 ==> exists_step(path, tape) == StepView::<Result<bool, ErrorView>>::Look(
            AskView::Check,
        ),
        tape.len() > 0 && tape[0] is Ok ==> exists_step(path, tape) == StepView::Done(
            Ok::<bool, ErrorView>(true),
        ),
{
    law_sendable_paths_are_accepted(path);
    lemma_sendable(p);
    law_the_root_is_a_directory(p, tape, 0);
}

// ---------------------------------------------------------------------------------------------
// Downloads
// ---------------------------------------------------------------------------------------------

/// A transcript up to its `n`th reply.
pub open spec fn up_to(t: TranscriptView, n: int) -> TranscriptView {
    TranscriptView { replies: t.replies.take(n), ..t }
}

/// The restart marker that the server holds after `n` replies: the last one that opening the file sent
/// and the server took, and none at first.
pub open spec fn marker_after(path: Seq<u8>, offset: Option<u64>, t: TranscriptView, n: int) -> int
    decreases n,
{
    if n <= 0 {
        0
    } else {
        match (open_step(path, offset, up_to(t, n - 1)), t.replies[n - 1]) {
            (StepView::Send(CommandView::Restart(marker)), None) => marker as int,
            _ => marker_after(path, offset, t, n - 1),
        }
    }
}

/// Whether the server began the transfer with reply `k`, which answers the request for the file, at
/// `marker`.
pub open spec fn began_at(
    path: Seq<u8>,
    offset: Option<u64>,
    t: TranscriptView,
    k: int,
    marker: int,
) -> bool {
    &&& 0 <= k < t.replies.len()
    &&& match open_step(path, offset, up_to(t, k)) {
        StepView::Send(CommandView::Retrieve(p)) => encode_utf8(p) == path,
        _ => false,
    }
    &&& t.replies[k] is None
    &&& marker == marker_after(path, offset, t, k)
}

/// A file that is opened for reading is read from where it was asked to be: the marker that the server
/// held when it began the transfer of that file, and what is skipped locally, make up the offset, or
/// nothing where none was given. This is so whatever the server refused before.
pub proof fn law_reading_starts_at_the_offset(
    path: Seq<u8>,
    offset: Option<u64>,
    t: TranscriptView,
    opened: Opened,
)
    requires
        wire_form(path) is Ok,
        t.admission == Some(None::<ErrorView>),
        open_step(path, offset, t) == StepView::Done(Ok::<Opened, ErrorView>(opened)),
    ensures
        exists|k: int, marker: int| #[trigger]
            began_at(path, offset, t, k, marker) && marker + opened.skip == match offset {
                Some(n) => n as int,
                None => 0int,
            },
{
    let p = wire_form(path)->Ok_0;
    law_sendable_paths_are_accepted(path);
    let start: u64 = match offset {
        Some(n) => n,
        None => 0,
    };
    reveal_with_fuel(marker_after, 4);
    let r = t.replies;
    assert(r.len() > 0);
    assert(r.take(0).len() == 0);
    if !(0 < start <= usize::MAX) {
        assert(began_at(path, offset, t, 0, 0));
    } else {
        assert(r.len() > 1);
        assert(r.take(1)[0] == r[0]);
        if r[0] is None {
            if r[1] is None {
                assert(began_at(path, offset, t, 1, start as int));
            } else {
                assert(r.len() > 3);
                assert(r.take(2)[0] == r[0] && r.take(2)[1] == r[1]);
                assert(r.take(3)[0] == r[0] && r.take(3)[1] == r[1] && r.take(3)[2] == r[2]);
                assert(began_at(path, offset, t, 3, 0));
            }
        } else {
            assert(began_at(path, offset, t, 1, 0));
        }
    }
}

/// Whether opening a file failed at its setup with `err`, and what that does to the connection.
pub open spec fn open_failed(
    path: Seq<u8>,
    offset: Option<u64>,
    t: TranscriptView,
    err: FtpErrorView,
    lost: bool,
) -> bool {
    &&& open_step(path, offset, t) is Done
    &&& open_step(path, offset, t)->Done_0 is Err
    &&& open_step(path, offset, t)->Done_0->Err_0.kind == ftp_kind(err)
    &&& open_step(path, offset, t)->Done_0->Err_0.source == Some(CauseView::Ftp(err))
    &&& open_lost(path, offset, t) == lost
}

/// Whether opening a file was refused with `err`, which is looked into as the refusal of a file.
pub open spec fn open_refused(
    path: Seq<u8>,
    p: Seq<char>,
    offset: Option<u64>,
    t: TranscriptView,
    err: FtpErrorView,
) -> bool {
    &&& match look_file_refusal(p, err, t.answers, 0) {
        LookedView::Ask(a) => open_step(path, offset, t) == StepView::<
            Result<Opened, ErrorView>,
        >::Look(a),
        LookedView::Is(e, _) => open_step(path, offset, t) == StepView::Done(
            Err::<Opened, ErrorView>(e),
        ),
    }
    &&& open_lost(path, offset, t) <==> !(err is UnexpectedResponse
        && err->UnexpectedResponse_0.status != 421)
}

/// Whether opening a file asks for the file next.
pub open spec fn asks_for_the_file(
    path: Seq<u8>,
    p: Seq<char>,
    offset: Option<u64>,
    t: TranscriptView,
) -> bool {
    &&& open_step(path, offset, t) == StepView::<Result<Opened, ErrorView>>::Send(
        CommandView::Retrieve(p),
    )
    &&& !open_lost(path, offset, t)
}

/// A file that is opened without an offset, at zero, or at an offset that no restart command can hold,
/// is asked for at once. A refusal is looked into.
pub proof fn law_files_are_asked_for(
    path: Seq<u8>,
    p: Seq<char>,
    offset: Option<u64>,
    t: TranscriptView,
)
    requires
        wire_form(path) == Ok::<Seq<char>, ErrorView>(p),
        t.admission == Some(None::<ErrorView>),
        offset is None || offset->0 == 0 || offset->0 > usize::MAX,
    ensures
        t.replies.len() == 0 ==> asks_for_the_file(path, p, offset, t),
        t.replies.len() > 0 && t.replies[0] is None ==> open_step(path, offset, t) is Done
            && open_step(path, offset, t)->Done_0 is Ok && !open_lost(path, offset, t),
        t.replies.len() > 0 && t.replies[0] is Some ==> open_refused(
            path,
            p,
            offset,
            t,
            t.replies[0]->0,
        ),
{
}

/// Any other offset is asked of the server first. Where it takes it, the file is asked for; where it
/// refuses the file then, the offset is taken back and the file asked for once more. Where it refuses
/// the offset, the file is asked for all the same. Any other failure ends the setup, and so does a
/// server that will not take the offset back.
pub proof fn law_offsets_are_asked_for_first(
    path: Seq<u8>,
    p: Seq<char>,
    n: u64,
    t: TranscriptView,
)
    requires
        wire_form(path) == Ok::<Seq<char>, ErrorView>(p),
        t.admission == Some(None::<ErrorView>),
        0 < n <= usize::MAX,
    ensures
        ({
            let offset = Some(n);
            let r = t.replies;
            let kept = r.len() > 0 && r[0] is Some && r[0]->0 is UnexpectedResponse
                && r[0]->0->UnexpectedResponse_0.status != 421;
            &&& r.len() == 0 ==> open_step(path, offset, t) == StepView::<
                Result<Opened, ErrorView>,
            >::Send(CommandView::Restart(n as usize))
            &&& r.len() > 0 && r[0] is Some && !kept ==> open_failed(path, offset, t, r[0]->0, true)
            &&& kept && r.len() == 1 ==> asks_for_the_file(path, p, offset, t)
            &&& kept && r.len() > 1 && r[1] is Some ==> open_refused(path, p, offset, t, r[1]->0)
            &&& r.len() > 0 && r[0] is None ==> {
                &&& r.len() == 1 ==> asks_for_the_file(path, p, offset, t)
                &&& r.len() == 2 && r[1] is Some ==> open_step(path, offset, t) == StepView::<
                    Result<Opened, ErrorView>,
                >::Send(CommandView::Restart(0))
                &&& r.len() > 2 && r[1] is Some && r[2] is Some ==> open_failed(
                    path,
                    offset,
                    t,
                    r[2]->0,
                    true,
                )
                &&& r.len() == 3 && r[1] is Some && r[2] is None ==> asks_for_the_file(
                    path,
                    p,
                    offset,
                    t,
                )
                &&& r.len() > 3 && r[1] is Some && r[2] is None && r[3] is Some ==> open_refused(
                    path,
                    p,
                    offset,
                    t,
                    r[3]->0,
                )
            }
        }),
{
}

/// The file is opened exactly where the server took the last request for it, and not before.
pub proof fn law_files_are_open_once_the_server_sends(
    path: Seq<u8>,
    n: u64,
    t: TranscriptView,
)
    requires
        wire_form(path) is Ok,
        t.admission == Some(None::<ErrorView>),
        0 < n <= usize::MAX,
    ensures
        ({
            let r = t.replies;
            let step = open_step(path, Some(n), t);
            let kept = r.len() > 0 && r[0] is Some && r[0]->0 is UnexpectedResponse
                && r[0]->0->UnexpectedResponse_0.status != 421;
            (step is Done && step->Done_0 is Ok) <==> {
                ||| kept && r.len() > 1 && r[1] is None
                ||| r.len() > 1 && r[0] is None && r[1] is None
                ||| r.len() > 3 && r[0] is None && r[1] is Some && r[2] is None && r[3] is None
            }
        }),
{
}

/// Opening a file costs the connection only where it failed: as long as there is something to send,
/// and once the file is open, the connection is kept.
pub proof fn law_opening_keeps_the_connection_until_it_fails(
    path: Seq<u8>,
    offset: Option<u64>,
    t: TranscriptView,
)
    ensures
        open_lost(path, offset, t) ==> {
            &&& wire_form(path) is Ok
            &&& t.admission == Some(None::<ErrorView>)
            &&& open_step(path, offset, t) is Look || (open_step(path, offset, t) is Done
                && open_step(path, offset, t)->Done_0 is Err)
        },
        wire_form(path) is Ok && t.admission is None ==> open_step(path, offset, t) is Lock,
{
}

/// Asking the server for an offset succeeds with what it did: it took it, or refused it and goes on.
/// Any other failure is the failure.
pub proof fn law_offsets_are_taken_or_refused(err: FtpErrorView)
    ensures
        offset_outcome(None) == Ok::<bool, ErrorView>(true),
        err is UnexpectedResponse && err->UnexpectedResponse_0.status != 421 ==> offset_outcome(
            Some(err),
        ) == Ok::<bool, ErrorView>(false),
        !(err is UnexpectedResponse && err->UnexpectedResponse_0.status != 421) ==> {
            &&& offset_outcome(Some(err)) is Err
            &&& offset_outcome(Some(err))->Err_0.kind == ftp_kind(err)
            &&& offset_outcome(Some(err))->Err_0.source == Some(CauseView::Ftp(err))
        },
{
}

/// A site command is sent as it is given, and returns the code and the text of its reply; a failure of
/// it is the failure.
pub proof fn law_site_commands_return_their_reply(
    cmd: Seq<char>,
    reply: Option<Result<ResponseView, FtpErrorView>>,
    reason: ErrorView,
)
    ensures
        exec_step(cmd, None, reply) is Lock,
        exec_step(cmd, Some(Some(reason)), reply) == StepView::Done(
            Err::<(u32, Seq<char>), ErrorView>(reason),
        ),
        ({
            let step = exec_step(cmd, Some(None), reply);
            &&& reply is None ==> step == StepView::<Result<(u32, Seq<char>), ErrorView>>::Send(
                CommandView::Site(cmd),
            )
            &&& reply matches Some(Ok(response)) ==> {
                &&& step is Done
                &&& step->Done_0 is Ok
                &&& step->Done_0->Ok_0.0 == response.status
                &&& step->Done_0->Ok_0.1 == lossy_text(response.body)
            }
            &&& reply matches Some(Err(err)) ==> {
                &&& step is Done
                &&& step->Done_0 is Err
                &&& step->Done_0->Err_0.kind == ftp_kind(err)
                &&& step->Done_0->Err_0.source == Some(CauseView::Ftp(err))
            }
        }),
{
}

/// What FTP does not have is unsupported, once the paths are in order; otherwise the first path that is
/// not is the failure.
pub proof fn law_missing_features_are_unsupported(path: Seq<u8>, other: Seq<u8>)
    ensures
        wire_form(path) is Ok ==> unsupported(path) == (ErrorView {
            kind: RemoteErrorType::UnsupportedFeature,
            source: None,
        }),
        wire_form(path) matches Err(e) ==> unsupported(path) == e && unsupported_pair(path, other)
            == e,
        wire_form(path) is Ok ==> unsupported_pair(path, other) == match wire_form(other) {
            Ok(_) => ErrorView { kind: RemoteErrorType::UnsupportedFeature, source: None },
            Err(e) => e,
        },
{
}

// ---------------------------------------------------------------------------------------------
// Connecting
// ---------------------------------------------------------------------------------------------

/// Whether no step before step `k` failed.
pub open spec fn went_well(replies: Seq<Option<FtpErrorView>>, k: int) -> bool {
    k <= replies.len() && forall|i: int| 0 <= i < k ==> (#[trigger] replies[i]) is None
}

/// Logging in takes the user name of the client and its password; the password is empty exactly where
/// the client has an empty one or none.
pub proof fn law_logging_in_takes_the_credentials(
    c: ClientView,
    replies: Seq<Option<FtpErrorView>>,
    username: Seq<char>,
    password: Seq<char>,
)
    requires
        connect_step(c, replies) == ConnectStepView::Login(username, password),
    ensures
        username == c.username,
        c.password is Some ==> password == c.password->0,
        c.password is None ==> password.len() == 0,
{
}

/// Whether an address is a host, a colon and the digits of a port.
pub open spec fn is_address(address: Seq<char>, host: Seq<char>, port: u16) -> bool {
    let n = host.len() as int;
    &&& address.len() > n + 1
    &&& address.take(n) == host
    &&& address[n] == ':'
    &&& forall|i: int| n < i < address.len() ==> '0' <= #[trigger] address[i] <= '9'
    &&& number_of(address.skip(n + 1)) == port
    &&& port > 0 ==> address[n + 1] != '0'
}

/// Connecting dials the host and the port of the client, for data connections in its mode; then it
/// secures the connection for that host where the client is to be secure, and never otherwise; then it
/// logs in; then it sets the transfer type; and then it is done. Each step waits for the one before,
/// so that no credentials are sent before a secure client's connection is secured.
pub proof fn law_connecting_goes_in_order(c: ClientView, replies: Seq<Option<FtpErrorView>>)
    ensures
        ({
            let step = connect_step(c, replies);
            let login = if c.secure {
                2int
            } else {
                1int
            };
            &&& step is Dial <==> replies.len() == 0
            &&& step is Secure <==> c.secure && replies.len() == 1 && went_well(replies, 1)
            &&& step is Login <==> replies.len() == login && went_well(replies, login)
            &&& step is Binary <==> replies.len() == login + 1 && went_well(replies, login + 1)
            &&& step == ConnectStepView::Done(None) <==> replies.len() >= login + 2 && went_well(
                replies,
                login + 2,
            )
            &&& step matches ConnectStepView::Dial(address, mode) ==> mode == c.mode && is_address(
                address,
                c.hostname,
                c.port,
            )
            &&& step matches ConnectStepView::Secure(host) ==> host == c.hostname
        }),
{
    if replies.len() == 0 {
        law_digits_stand_for_the_number(c.port as nat);
        let d = decimal(c.port as nat);
        let n = c.hostname.len() as int;
        let address = c.address();
        reveal_strlit(":");
        assert(":"@ == seq![':']);
        assert(address.take(n) == c.hostname);
        assert(address[n] == ':');
        assert(address.skip(n + 1) == d);
        assert forall|i: int| n < i < address.len() implies '0' <= #[trigger] address[i] <= '9' by {
            assert(address[i] == d[i - n - 1]);
        }
        assert(address[n + 1] == d[0]);
    }
    assert(went_well(replies, 0));
    if replies.len() > 0 {
        assert(went_well(replies, 1) <==> replies[0] is None);
        if replies.len() > 1 {
            assert(went_well(replies, 2) <==> replies[0] is None && replies[1] is None);
            if replies.len() > 2 {
                assert(went_well(replies, 3) <==> replies[0] is None && replies[1] is None
                    && replies[2] is None);
                if replies.len() > 3 {
                    assert(went_well(replies, 4) <==> replies[0] is None && replies[1] is None
                        && replies[2] is None && replies[3] is None);
                }
            }
        }
    }
}

/// The first step that fails ends connecting, with the failure as the cause. It is of the failure's own
/// kind, but a connection that cannot be secured is trouble with the connection.
pub proof fn law_connecting_ends_with_the_first_failure(
    c: ClientView,
    replies: Seq<Option<FtpErrorView>>,
    k: int,
    err: FtpErrorView,
)
    requires
        0 <= k < replies.len(),
        k < if c.secure {
            4int
        } else {
            3int
        },
        went_well(replies, k),
        replies[k] == Some(err),
    ensures
        connect_step(c, replies) matches ConnectStepView::Done(Some(e)) && {
            &&& e.source == Some(CauseView::Ftp(err))
            &&& c.secure && k == 1 ==> e.kind is ConnectionError
            &&& !(c.secure && k == 1) ==> e.kind == ftp_kind(err)
        },
{
    assert(k > 0 ==> replies[0] is None);
    assert(k > 1 ==> replies[1] is None);
    assert(k > 2 ==> replies[2] is None);
}

// ---------------------------------------------------------------------------------------------
// Options
// ---------------------------------------------------------------------------------------------

/// A new client is not connected, has its host and port, and would log in as `anonymous` without a
/// password, in passive mode, not secured, by the rules of POSIX platforms.
pub proof fn law_new_clients_have_the_defaults(hostname: &str, port: u16, c: TokioFtpFs)
    requires
        call_ensures(TokioFtpFs::new, (hostname, port), c),
    ensures
        c@.hostname == hostname@,
        c@.port == port,
        c@.username == "anonymous"@,
        c@.password is None,
        c@.mode is Passive,
        !c@.secure,
        c@.platform is Posix,
        !c@.connected,
        c@.welcome is None,
        !c@.flags.active,
        c@.flags.connection_usable,
{
}

/// Each option is set to what is given, and no other changes.
pub proof fn law_options_are_set_one_by_one(
    c: TokioFtpFs,
    text: &str,
    platform: Platform,
    named: TokioFtpFs,
    secret: TokioFtpFs,
    active: TokioFtpFs,
    passive: TokioFtpFs,
    secured: TokioFtpFs,
    placed: TokioFtpFs,
)
    requires
        call_ensures(TokioFtpFs::username, (c, text), named),
        call_ensures(TokioFtpFs::password, (c, text), secret),
        call_ensures(TokioFtpFs::active_mode, (c,), active),
        call_ensures(TokioFtpFs::passive_mode, (c,), passive),
        call_ensures(TokioFtpFs::secure, (c,), secured),
        call_ensures(TokioFtpFs::platform, (c, platform), placed),
    ensures
        named@.username == text@,
        secret@.password == Some(text@),
        active@.mode is Active,
        passive@.mode is Passive,
        secured@.secure,
        placed@.platform == platform,
        same_options(ClientView { username: c@.username, ..named@ }, c@) && same_state(named@, c@),
        same_options(ClientView { password: c@.password, ..secret@ }, c@) && same_state(secret@, c@),
        same_options(ClientView { mode: c@.mode, ..active@ }, c@) && same_state(active@, c@),
        same_options(ClientView { mode: c@.mode, ..passive@ }, c@) && same_state(passive@, c@),
        same_options(ClientView { secure: c@.secure, ..secured@ }, c@) && same_state(secured@, c@),
        same_options(ClientView { platform: c@.platform, ..placed@ }, c@) && same_state(placed@, c@),
{
}

/// FTP reads and writes streams, appends, reads from an offset and runs commands, and can do nothing
/// else by itself.
pub proof fn law_clients_tell_what_ftp_can_do(c: &TokioFtpFs, can: Capabilities)
    requires
        call_ensures(TokioFtpFs::capabilities, (c,), can),
    ensures
        can.stream_read && can.stream_write && can.append && can.range_read && can.execute,
        !can.seek_read && !can.seek_write && !can.copy && !can.symlink && !can.set_metadata
            && !can.posix_mode,
{
}

/// A path is listed with `LIST` and the path, and the transfer begins with a 150 or a 125.
pub proof fn law_listing_sends_the_path(remote: &str, command: ListCommand)
    requires
        call_ensures(list_command, (remote,), command),
    ensures
        command.text@ == seq!['L', 'I', 'S', 'T', ' '] + remote@,
        command.expected@ == seq![150u32, 125u32],
{
    reveal_strlit("LIST ");
    assert("LIST "@ =~= seq!['L', 'I', 'S', 'T', ' ']);
}

// ---------------------------------------------------------------------------------------------
// The client's state
// ---------------------------------------------------------------------------------------------

/// Whether two clients have the same options.
pub open spec fn same_options(a: ClientView, b: ClientView) -> bool {
    &&& a.hostname == b.hostname
    &&& a.port == b.port
    &&& a.username == b.username
    &&& a.password == b.password
    &&& a.mode == b.mode
    &&& a.secure == b.secure
    &&& a.platform == b.platform
}

/// Whether two clients are in the same state.
pub open spec fn same_state(a: ClientView, b: ClientView) -> bool {
    a.connected == b.connected && a.flags == b.flags && a.welcome == b.welcome
}

/// A client admits an operation exactly where it is connected, its connection is usable and no transfer
/// is in progress. A transfer in progress breaches the protocol, an unusable connection is trouble with
/// the connection, and a client without one is not connected.
pub proof fn law_clients_admit_operations_when_ready(c: ClientView)
    ensures
        c.refusal() is None <==> c.connected && c.flags.connection_usable && !c.flags.active,
        c.state_refusal() is None <==> c.flags.connection_usable && !c.flags.active,
        c.flags.active ==> c.refusal() == Some(
            ErrorView::message(
                RemoteErrorType::ProtocolError,
                "a data transfer is in progress; finish or drop its stream first"@,
            ),
        ),
        !c.flags.active && !c.flags.connection_usable ==> c.refusal() == Some(
            ErrorView::message(
                RemoteErrorType::ConnectionError,
                "the control connection is unusable; reconnect before retrying"@,
            ),
        ),
        !c.flags.active && c.flags.connection_usable && !c.connected ==> c.refusal() == Some(
            ErrorView { kind: RemoteErrorType::NotConnected, source: None },
        ),
        c.state_refusal() is Some ==> c.state_refusal() == c.refusal(),
        c.is_connected() <==> c.flags.connection_usable && (c.connected || c.flags.active),
        c.banner() == if c.connected {
            c.welcome
        } else {
            None
        },
{
}

/// A client connects unless a transfer is in progress or it has a usable connection already; one that
/// is unusable is given up, with its banner. Options stay, and so does what is in progress.
pub proof fn law_clients_connect_once(c: ClientView, welcome: Option<Seq<char>>)
    ensures
        c.connect_refusal() is None <==> !c.flags.active && !(c.connected
            && c.flags.connection_usable),
        c.flags.active ==> c.connect_refusal() == c.refusal(),
        !c.flags.active && c.connected && c.flags.connection_usable ==> c.connect_refusal() == Some(
            ErrorView { kind: RemoteErrorType::AlreadyConnected, source: None },
        ),
        same_options(c.ready_to_connect(), c),
        c.ready_to_connect().flags.connection_usable,
        c.ready_to_connect().flags.active == c.flags.active,
        c.ready_to_connect().connected <==> c.connected && c.flags.connection_usable,
        c.ready_to_connect().welcome == if c.flags.connection_usable {
            c.welcome
        } else {
            None
        },
        same_options(c.established(welcome), c),
        c.established(welcome).connected,
        c.established(welcome).welcome == welcome,
        c.established(welcome).flags == c.flags,
{
}

/// A client disconnects unless a transfer is in progress or it has no connection. It has none then, no
/// banner, and nothing that is unusable; that the connection was, is a failure all the same. Options
/// stay.
pub proof fn law_clients_disconnect(c: ClientView)
    ensures
        c.disconnect_failure() is None <==> !c.flags.active && c.connected
            && c.flags.connection_usable,
        c.flags.active ==> c.disconnect_failure() == c.refusal() && c.disconnected() == c,
        !c.flags.active && !c.connected ==> c.disconnect_failure() == Some(
            ErrorView { kind: RemoteErrorType::NotConnected, source: None },
        ) && c.disconnected() == c,
        !c.flags.active && c.connected && !c.flags.connection_usable ==> c.disconnect_failure()
            == Some(
            ErrorView::message(
                RemoteErrorType::ConnectionError,
                "the control connection was unusable and has been closed"@,
            ),
        ),
        !c.flags.active && c.connected ==> {
            let gone = c.disconnected();
            &&& same_options(gone, c)
            &&& !gone.connected
            &&& gone.welcome is None
            &&& !gone.flags.active
            &&& gone.flags.connection_usable
        },
{
}

/// A connection that is lost is unusable from then on, and nothing else changes.
pub proof fn law_lost_connections_are_unusable(c: ClientView, lost: bool)
    ensures
        same_options(c.after_loss(lost), c),
        c.after_loss(lost).connected == c.connected,
        c.after_loss(lost).welcome == c.welcome,
        c.after_loss(lost).flags.active == c.flags.active,
        c.after_loss(lost).flags.connection_usable <==> c.flags.connection_usable && !lost,
{
}

// ---------------------------------------------------------------------------------------------
// Raw listings
// ---------------------------------------------------------------------------------------------

/// What a listing's transfer brings: its bytes, whole, where it was read and completed; the one failure
/// where one thing failed; and both where both did. The connection is kept only where the server's
/// replies have all been read.
pub proof fn law_transfers_bring_bytes_or_failures(
    err: FtpErrorView,
    bytes: Seq<u8>,
    read: IoErrorView,
)
    ensures
        listed_bytes(ListTransferView::Ran(Ok(bytes), None)) == (
            Ok::<Seq<u8>, ErrorView>(bytes),
            false,
        ),
        ({
            let (r, lost) = listed_bytes(ListTransferView::Refused(err));
            &&& r is Err
            &&& r->Err_0.kind == ftp_kind(err)
            &&& r->Err_0.source == Some(CauseView::Ftp(err))
            &&& lost <==> !(err is UnexpectedResponse && err->UnexpectedResponse_0.status != 421)
        }),
        ({
            let (r, lost) = listed_bytes(ListTransferView::Ran(Ok(bytes), Some(err)));
            &&& r is Err
            &&& r->Err_0.kind == ftp_kind(err)
            &&& r->Err_0.source == Some(CauseView::Ftp(err))
            &&& lost
        }),
        ({
            let (r, lost) = listed_bytes(ListTransferView::Ran(Err(read), None));
            &&& r is Err
            &&& r->Err_0.kind is ConnectionError
            &&& r->Err_0.source == Some(CauseView::Ftp(FtpErrorView::ConnectionError(read)))
            &&& lost
        }),
        ({
            let (r, lost) = listed_bytes(ListTransferView::Ran(Err(read), Some(err)));
            &&& r is Err
            &&& r->Err_0.kind is ConnectionError
            &&& r->Err_0.source matches Some(CauseView::ListCleanup { read: first, finish }) && {
                &&& first.kind is ConnectionError
                &&& first.source == Some(CauseView::Ftp(FtpErrorView::ConnectionError(read)))
                &&& finish.kind == ftp_kind(err)
                &&& finish.source == Some(CauseView::Ftp(err))
            }
            &&& lost
        }),
{
}

/// From the lines that the server sends to the entries of a listing nothing is lost and nothing made
/// up: of a transfer that was read and completed, every line that is not empty is a row, and the
/// listing is complete.
pub proof fn law_listings_hold_what_the_server_sends(
    on: Platform,
    path: Seq<char>,
    lines: Seq<(Seq<char>, bool)>,
    tail: Seq<char>,
    files: Seq<FileView>,
)
    requires
        forall|i: int| 0 <= i < lines.len() ==> !(#[trigger] lines[i]).0.contains('\n'),
        forall|i: int|
            0 <= i < lines.len() && !(#[trigger] lines[i]).1 && lines[i].0.len() > 0
                ==> lines[i].0.last() != '\r',
        !tail.contains('\n'),
        is_raw_listing(
            on,
            path,
            ListTransferView::Ran(Ok(encode_utf8(sent(lines, 0, tail))), None),
            Ok(files),
        ),
    ensures
        exists|times: Seq<int>, parsed: Seq<Result<ListedView, ParseError>>| #[trigger]
            complete(on, path, not_empty(lines, 0, tail), times, parsed, files),
{
    law_lines_are_read_as_sent(lines, tail, encode_utf8(sent(lines, 0, tail)));
    law_listings_are_complete(on, path, not_empty(lines, 0, tail), files);
}

/// A listing that was read and completed fails only for its first bad row.
pub proof fn law_listings_fail_only_for_bad_rows(
    on: Platform,
    path: Seq<char>,
    lines: Seq<(Seq<char>, bool)>,
    tail: Seq<char>,
    e: ErrorView,
)
    requires
        forall|i: int| 0 <= i < lines.len() ==> !(#[trigger] lines[i]).0.contains('\n'),
        forall|i: int|
            0 <= i < lines.len() && !(#[trigger] lines[i]).1 && lines[i].0.len() > 0
                ==> lines[i].0.last() != '\r',
        !tail.contains('\n'),
        is_raw_listing(
            on,
            path,
            ListTransferView::Ran(Ok(encode_utf8(sent(lines, 0, tail))), None),
            Err(e),
        ),
    ensures
        exists|times: Seq<int>, parsed: Seq<Result<ListedView, ParseError>>, k: int| #[trigger]
            fails_at(on, not_empty(lines, 0, tail), times, parsed, k, e),
{
    law_lines_are_read_as_sent(lines, tail, encode_utf8(sent(lines, 0, tail)));
    law_listings_fail_for_their_first_bad_row(on, path, not_empty(lines, 0, tail), e);
}

/// A listing whose transfer failed, or whose bytes are no text, fails so; nothing of it is parsed.
pub proof fn law_failed_transfers_give_no_listing(
    on: Platform,
    path: Seq<char>,
    transfer: ListTransferView,
    r: Result<Seq<FileView>, ErrorView>,
)
    requires
        is_raw_listing(on, path, transfer, r),
    ensures
        listed_bytes(transfer).0 matches Err(e) ==> r == Err::<Seq<FileView>, ErrorView>(e),
        listed_bytes(transfer).0 matches Ok(bytes) ==> !valid_utf8(bytes) ==> {
            &&& r is Err
            &&& r->Err_0.kind is ProtocolError
            &&& r->Err_0.source == Some(CauseView::Ftp(FtpErrorView::BadResponse))
        },
{
}

// ---------------------------------------------------------------------------------------------
// Views
// ---------------------------------------------------------------------------------------------

/// What contracts say of an entry, they say of all that it holds.
pub proof fn law_views_of_entries_are_whole(f: File)
    ensures
        f@.path == f.path@,
        f@.metadata.file_type == f.metadata.file_type,
        f@.metadata.size == f.metadata.size,
        f@.metadata.modified == f.metadata.modified,
        f@.metadata.mode == f.metadata.mode,
        f@.metadata.uid == f.metadata.uid,
        f@.metadata.gid == f.metadata.gid,
        f.metadata.symlink is Some <==> f@.metadata.symlink is Some,
        f.metadata.symlink is Some ==> f@.metadata.symlink->0 == f.metadata.symlink->0@,
{
}

/// What contracts say of a list of entries, they say of each of them, in order.
pub proof fn law_views_of_listings_are_whole(files: Seq<File>, e: RemoteError)
    ensures
        file_views(files).len() == files.len(),
        forall|i: int| 0 <= i < files.len() ==> #[trigger] file_views(files)[i] == files[i]@,
        e@.kind == e.kind,
        e.source is Some <==> e@.source is Some,
        e.source is Some ==> e@.source->0 == e.source->0@,
{
    reveal_with_fuel(RemoteError::model, 2);
}

/// What contracts say of a lookup, they say of what is asked or found.
pub proof fn law_views_of_lookups_are_whole(
    a: Ask,
    f: File,
    files: Vec<File>,
    e: RemoteError,
    b: bool,
    n: usize,
    answers: Seq<Answer>,
    lines: Seq<String>,
)
    ensures
        looked_file(Looked::Ask(a)) == LookedView::<Result<FileView, ErrorView>>::Ask(a@),
        looked_file(Looked::Is { value: Ok(f), next: n }) == LookedView::Is(
            Ok::<FileView, ErrorView>(f@),
            n as int,
        ),
        looked_file(Looked::Is { value: Err(e), next: n }) == LookedView::Is(
            Err::<FileView, ErrorView>(e@),
            n as int,
        ),
        looked_files(Looked::Ask(a)) == LookedView::<Result<Seq<FileView>, ErrorView>>::Ask(a@),
        looked_files(Looked::Is { value: Ok(files), next: n }) == LookedView::Is(
            Ok::<Seq<FileView>, ErrorView>(file_views(files@)),
            n as int,
        ),
        looked_files(Looked::Is { value: Err(e), next: n }) == LookedView::Is(
            Err::<Seq<FileView>, ErrorView>(e@),
            n as int,
        ),
        looked_fact(Looked::Ask(a)) == LookedView::<bool>::Ask(a@),
        looked_fact(Looked::Is { value: b, next: n }) == LookedView::Is(b, n as int),
        looked_error(Looked::Ask(a)) == LookedView::<ErrorView>::Ask(a@),
        looked_error(Looked::Is { value: e, next: n }) == LookedView::Is(e@, n as int),
        answer_views(answers).len() == answers.len(),
        forall|i: int|
            #![trigger answer_views(answers)[i]]
            0 <= i < answers.len() ==> match answers[i] {
                Ok(entries) => answer_views(answers)[i] == Ok::<Seq<FileView>, ErrorView>(
                    file_views(entries@),
                ),
                Err(error) => answer_views(answers)[i] == Err::<Seq<FileView>, ErrorView>(error@),
            },
        text_views(lines).len() == lines.len(),
        forall|i: int| 0 <= i < lines.len() ==> #[trigger] text_views(lines)[i] == lines[i]@,
{
}

/// What contracts say of a client, they say of all that it holds.
pub proof fn law_views_of_clients_are_whole(c: TokioFtpFs)
    ensures
        c@.connected == c.connected,
        c@.flags == c.flags,
        c@.hostname == c.hostname@,
        c@.port == c.port,
        c@.username == c.username@,
        c@.mode == c.mode,
        c@.secure == c.secure,
        c@.platform == c.platform,
        c.welcome is Some <==> c@.welcome is Some,
        c.welcome is Some ==> c@.welcome->0 == c.welcome->0@,
        c.password is Some <==> c@.password is Some,
        c.password is Some ==> c@.password->0 == c.password->0@,
{
}

/// What contracts say of a command, they say of the command that is sent.
pub proof fn law_views_of_commands_are_whole(p: String, q: String, n: usize, mode: Mode)
    ensures
        Command::MakeDir(p)@ == CommandView::MakeDir(p@),
        Command::Delete(p)@ == CommandView::Delete(p@),
        Command::RemoveDir(p)@ == CommandView::RemoveDir(p@),
        Command::Rename(p, q)@ == CommandView::Rename(p@, q@),
        Command::Restart(n)@ == CommandView::Restart(n),
        Command::Retrieve(p)@ == CommandView::Retrieve(p@),
        Command::Store(p)@ == CommandView::Store(p@),
        Command::Append(p)@ == CommandView::Append(p@),
        Command::Site(p)@ == CommandView::Site(p@),
        Ask::Check@ == AskView::Check,
        Ask::List(p)@ == AskView::List(p@),
        (ConnectStep::Dial { address: p, mode })@ == ConnectStepView::Dial(p@, mode),
        ConnectStep::Secure(p)@ == ConnectStepView::Secure(p@),
        (ConnectStep::Login { username: p, password: q })@ == ConnectStepView::Login(p@, q@),
        ConnectStep::Binary@ == ConnectStepView::Binary,
{
}

/// What contracts say of what has happened, they say of every reply and every answer, in order.
pub proof fn law_views_of_transcripts_are_whole(t: Transcript)
    ensures
        t.admission is None <==> t@.admission is None,
        t.admission matches Some(Ok(_)) ==> t@.admission == Some(None::<ErrorView>),
        t.admission matches Some(Err(e)) ==> t@.admission == Some(Some(e@)),
        t@.replies.len() == t.replies@.len(),
        forall|i: int|
            #![trigger t@.replies[i]]
            0 <= i < t.replies@.len() ==> match t.replies@[i] {
                Ok(_) => t@.replies[i] is None,
                Err(e) => t@.replies[i] == Some(e@),
            },
        t@.answers.len() == t.answers@.len(),
        forall|i: int|
            #![trigger t@.answers[i]]
            0 <= i < t.answers@.len() ==> match t.answers@[i] {
                Ok(files) => t@.answers[i] == Ok::<Seq<FileView>, ErrorView>(file_views(files@)),
                Err(e) => t@.answers[i] == Err::<Seq<FileView>, ErrorView>(e@),
            },
{
}

/// What contracts say of a step, they say of what is done or returned.
pub proof fn law_views_of_steps_are_whole(
    c: Command,
    a: Ask,
    f: File,
    files: Vec<File>,
    e: RemoteError,
    opened: Opened,
    output: ExecOutput,
    b: bool,
)
    ensures
        unit_step(Step::Lock) is Lock,
        unit_step(Step::Send(c)) == StepView::<Option<ErrorView>>::Send(c@),
        unit_step(Step::Look(a)) == StepView::<Option<ErrorView>>::Look(a@),
        unit_step(Step::Done(Ok(()))) == StepView::Done(None::<ErrorView>),
        unit_step(Step::Done(Err(e))) == StepView::Done(Some(e@)),
        file_step(Step::Look(a)) == StepView::<Result<FileView, ErrorView>>::Look(a@),
        file_step(Step::Done(Ok(f))) == StepView::Done(Ok::<FileView, ErrorView>(f@)),
        file_step(Step::Done(Err(e))) == StepView::Done(Err::<FileView, ErrorView>(e@)),
        files_step(Step::Look(a)) == StepView::<Result<Seq<FileView>, ErrorView>>::Look(a@),
        files_step(Step::Done(Ok(files))) == StepView::Done(
            Ok::<Seq<FileView>, ErrorView>(file_views(files@)),
        ),
        files_step(Step::Done(Err(e))) == StepView::Done(Err::<Seq<FileView>, ErrorView>(e@)),
        fact_step(Step::Look(a)) == StepView::<Result<bool, ErrorView>>::Look(a@),
        fact_step(Step::Done(Ok(b))) == StepView::Done(Ok::<bool, ErrorView>(b)),
        fact_step(Step::Done(Err(e))) == StepView::Done(Err::<bool, ErrorView>(e@)),
        opened_step(Step::Lock) is Lock,
        opened_step(Step::Send(c)) == StepView::<Result<Opened, ErrorView>>::Send(c@),
        opened_step(Step::Look(a)) == StepView::<Result<Opened, ErrorView>>::Look(a@),
        opened_step(Step::Done(Ok(opened))) == StepView::Done(Ok::<Opened, ErrorView>(opened)),
        opened_step(Step::Done(Err(e))) == StepView::Done(Err::<Opened, ErrorView>(e@)),
        output_step(Step::Lock) is Lock,
        output_step(Step::Send(c)) == StepView::<Result<(u32, Seq<char>), ErrorView>>::Send(c@),
        output_step(Step::Done(Ok(output))) == StepView::Done(
            Ok::<(u32, Seq<char>), ErrorView>((output.status, output.output@)),
        ),
        output_step(Step::Done(Err(e))) == StepView::Done(
            Err::<(u32, Seq<char>), ErrorView>(e@),
        ),
{
}

/// What contracts say of a failure, they say of all that it holds.
pub proof fn law_views_of_failures_are_whole(i: IoError, r: Response, m: String, e: FtpError, c: Cause)
    ensures
        i@.kind == i.kind,
        i@.message == i.message@,
        r@.status == r.status,
        r@.body == r.body@,
        FtpError::ConnectionError(i)@ == FtpErrorView::ConnectionError(i@),
        FtpError::SecureError(m)@ == FtpErrorView::SecureError(m@),
        FtpError::UnexpectedResponse(r)@ == FtpErrorView::UnexpectedResponse(r@),
        FtpError::InvalidAddress(m)@ == FtpErrorView::InvalidAddress(m@),
        FtpError::BadResponse@ is BadResponse,
        FtpError::DataConnectionAlreadyOpen@ is DataConnectionAlreadyOpen,
        Cause::Message(m)@ == CauseView::Message(m@),
        Cause::Io(i)@ == CauseView::Io(i@),
        Cause::Ftp(e)@ == CauseView::Ftp(e@),
        c matches Cause::List(p) ==> c@ == CauseView::List(p),
        c matches Cause::Remote(inner) ==> c@ matches CauseView::Remote(v) && *v == inner@,
        c matches Cause::ListCleanup { read: x, finish: y } ==> c@
            matches CauseView::ListCleanup { read, finish } && *read == x@ && *finish == y@,
        c matches Cause::ReadCleanup { drain: x, finish: y } ==> c@
            matches CauseView::ReadCleanup { drain, finish } && *drain == x@ && *finish == y@,
        c matches Cause::SkipCleanup { skip: x, finish: y } ==> c@
            matches CauseView::SkipCleanup { skip, finish } && *skip == x@ && *finish == y@,
        c matches Cause::WriteCleanup { flush: x, finish: y } ==> c@
            matches CauseView::WriteCleanup { flush, finish } && *flush == x@ && *finish == y@,
{
    reveal_with_fuel(Cause::model, 2);
}

// ---------------------------------------------------------------------------------------------
// Single calls
// ---------------------------------------------------------------------------------------------

/// A call of an operation goes by that operation: the one that makes a directory makes one, the one
/// that removes a file removes one, and so on, each with its own command and its own path.
pub proof fn law_calls_go_by_their_operation(
    path: &[u8],
    other: &[u8],
    p: Seq<char>,
    q: Seq<char>,
    t: &Transcript,
    made: Progress<Result<(), RemoteError>>,
    deleted: Progress<Result<(), RemoteError>>,
    removed: Progress<Result<(), RemoteError>>,
    renamed: Progress<Result<(), RemoteError>>,
    stored: Progress<Result<(), RemoteError>>,
    appended: Progress<Result<(), RemoteError>>,
)
    requires
        wire_form(path@) == Ok::<Seq<char>, ErrorView>(p),
        wire_form(other@) == Ok::<Seq<char>, ErrorView>(q),
        call_ensures(create_dir, (path, t), made),
        call_ensures(remove_file, (path, t), deleted),
        call_ensures(remove_dir, (path, t), removed),
        call_ensures(rename, (path, other, t), renamed),
        call_ensures(create, (path, t), stored),
        call_ensures(append, (path, t), appended),
    ensures
        ({
            let lost = t@.admission == Some(None::<ErrorView>) && t@.replies.len() > 0
                && t@.replies[0] is Some && !(t@.replies[0]->0 is UnexpectedResponse
                && t@.replies[0]->0->UnexpectedResponse_0.status != 421);
            let answers = t@.answers;
            &&& made.connection_lost == lost && takes_one_command(
                unit_step(made.step),
                CommandView::MakeDir(p),
                |err: FtpErrorView| look_create_dir_refusal(p, err, answers, 0),
                t@,
            )
            &&& deleted.connection_lost == lost && takes_one_command(
                unit_step(deleted.step),
                CommandView::Delete(p),
                |err: FtpErrorView| look_file_refusal(p, err, answers, 0),
                t@,
            )
            &&& removed.connection_lost == lost && takes_one_command(
                unit_step(removed.step),
                CommandView::RemoveDir(p),
                |err: FtpErrorView| look_remove_dir_refusal(p, err, answers, 0),
                t@,
            )
            &&& renamed.connection_lost == lost && takes_one_command(
                unit_step(renamed.step),
                CommandView::Rename(p, q),
                |err: FtpErrorView| look_rename_refusal(p, q, err, answers, 0),
                t@,
            )
            &&& stored.connection_lost == lost && takes_one_command(
                unit_step(stored.step),
                CommandView::Store(p),
                |err: FtpErrorView| look_create_refusal(p, err, answers, 0),
                t@,
            )
            &&& appended.connection_lost == lost && takes_one_command(
                unit_step(appended.step),
                CommandView::Append(p),
                |err: FtpErrorView| look_create_refusal(p, err, answers, 0),
                t@,
            )
        }),
{
    law_operations_send_their_commands(path@, p, t@);
    law_renaming_sends_source_and_destination(path@, other@, p, q, t@);
    law_failed_commands_cost_the_connection(path@, t@);
    law_failed_commands_cost_the_connection(other@, t@);
}

/// A call that opens a file that is found at the offset starts there: what the server was told and took,
/// and what is skipped, make up the offset.
pub proof fn law_opened_files_start_at_the_offset(
    path: &[u8],
    offset: Option<u64>,
    t: &Transcript,
    r: Progress<Result<Opened, RemoteError>>,
)
    requires
        wire_form(path@) is Ok,
        t@.admission == Some(None::<ErrorView>),
        call_ensures(open, (path, offset, t), r),
    ensures
        r.step matches Step::Done(Ok(opened)) ==> !r.connection_lost && exists|k: int, marker: int|
            #[trigger]
            began_at(path@, offset, t@, k, marker) && marker + opened.skip == match offset {
                Some(n) => n as int,
                None => 0int,
            },
{
    if let Step::Done(Ok(opened)) = r.step {
        law_reading_starts_at_the_offset(path@, offset, t@, opened);
        law_opening_keeps_the_connection_until_it_fails(path@, offset, t@);
    }
}

/// A call that tells whether something stands at a path that is not the root says so exactly where the
/// first listing holds an entry there, whatever its type; and a call that looks it up returns the first
/// such entry, whole. The listing has not the form of a regular file.
pub proof fn law_lookup_calls_go_by_the_listing(
    path: &[u8],
    p: Seq<char>,
    answers: &Vec<Answer>,
    entries: Vec<File>,
    known: Step<Result<bool, RemoteError>>,
    found: Step<Result<File, RemoteError>>,
)
    requires
        wire_form(path@) == Ok::<Seq<char>, ErrorView>(p),
        components(p).len() > 0,
        answers@.len() > 0,
        answers@[0] == Ok::<Vec<File>, RemoteError>(entries),
        !form_of_a_file(parent(p)->0, file_views(entries@)),
        call_ensures(path_exists, (path, answers), known),
        call_ensures(stat, (path, answers), found),
    ensures
        known == Step::Done(Ok::<bool, RemoteError>(true)) <==> exists|i: int|
            0 <= i < entries@.len() && same_path((#[trigger] entries@[i]).path@, p),
        known == Step::Done(Ok::<bool, RemoteError>(false)) <==> forall|i: int|
            0 <= i < entries@.len() ==> !same_path((#[trigger] entries@[i]).path@, p),
        forall|i: int| #[trigger]
            first_entry(file_views(entries@), p, i) ==> {
                &&& found is Done
                &&& found->Done_0 is Ok
                &&& found->Done_0->Ok_0@ == entries@[i]@
            },
{
    let tape = answer_views(answers@);
    let views = file_views(entries@);
    assert(tape[0] == Ok::<Seq<FileView>, ErrorView>(views));
    law_a_path_exists_where_it_is_listed(path@, p, tape, views);
    law_stat_gives_the_listed_entry(path@, p, tape);
    assert forall|i: int| 0 <= i < entries@.len() implies (#[trigger] entries@[i]).path@
        == views[i].path by {}
    if exists|i: int| 0 <= i < views.len() && same_path((#[trigger] views[i]).path, p) {
        let i = choose|i: int| 0 <= i < views.len() && same_path((#[trigger] views[i]).path, p);
        assert(same_path(entries@[i].path@, p));
    }
    if exists|i: int| 0 <= i < entries@.len() && same_path((#[trigger] entries@[i]).path@, p) {
        let i = choose|i: int|
            0 <= i < entries@.len() && same_path((#[trigger] entries@[i]).path@, p);
        assert(same_path(views[i].path, p));
    }
    assert(no_entry(views, p) <==> forall|i: int|
        0 <= i < entries@.len() ==> !same_path((#[trigger] entries@[i]).path@, p)) by {
        if no_entry(views, p) {
            assert forall|i: int| 0 <= i < entries@.len() implies !same_path(
                (#[trigger] entries@[i]).path@,
                p,
            ) by {
                assert(!same_path(views[i].path, p));
            }
        } else {
            let i = choose|i: int| 0 <= i < views.len() && same_path((#[trigger] views[i]).path, p);
            assert(same_path(entries@[i].path@, p));
        }
    }
}

/// A call that connects logs in with the client's own user name and password, and with an empty one
/// only where the client has none or an empty one.
pub proof fn law_connecting_calls_log_in_with_the_credentials(
    c: &TokioFtpFs,
    replies: &Vec<Result<(), FtpError>>,
    r: ConnectStep,
)
    requires
        call_ensures(TokioFtpFs::connect, (c, replies), r),
    ensures
        r@ == connect_step(c@, reply_views(replies@)),
        r matches ConnectStep::Login { username, password } ==> {
            &&& username@ == c.username@
            &&& c.password is Some ==> password@ == c.password->0@
            &&& c.password is None ==> password@.len() == 0
        },
{
}

/// What a client does to be ready, once it is told of a connection or of its loss, and when it begins a
/// transfer.
pub proof fn law_clients_take_note(
    c: &mut TokioFtpFs,
    d: &mut TokioFtpFs,
    e: &mut TokioFtpFs,
    f: &mut TokioFtpFs,
    err: &FtpError,
    failure: &RemoteError,
    welcome: Option<String>,
    guard: TransferGuard,
)
    requires
        call_ensures(TokioFtpFs::record_ftp_error, (c, err), ()),
        call_ensures(TokioFtpFs::record_remote_error, (d, failure), ()),
        call_ensures(TokioFtpFs::finish_connect, (e, welcome), ()),
        call_ensures(TokioFtpFs::start_transfer, (f,), guard),
    ensures
        same_options(final(c)@, old(c)@),
        final(c)@.connected == old(c)@.connected,
        final(c)@.flags.active == old(c)@.flags.active,
        final(c)@.flags.connection_usable <==> old(c)@.flags.connection_usable
            && err@ is UnexpectedResponse && err@->UnexpectedResponse_0.status != 421,
        same_options(final(d)@, old(d)@),
        final(d)@.connected == old(d)@.connected,
        final(d)@.flags.active == old(d)@.flags.active,
        final(d)@.flags.connection_usable <==> old(d)@.flags.connection_usable && !needs_reconnect(
            failure@,
        ),
        same_options(final(e)@, old(e)@),
        final(e)@.connected,
        final(e)@.flags == old(e)@.flags,
        welcome is Some ==> final(e)@.welcome == Some(welcome->0@),
        welcome is None ==> final(e)@.welcome is None,
        same_options(final(f)@, old(f)@),
        final(f)@.connected == old(f)@.connected,
        final(f)@.flags.active,
        final(f)@.flags.connection_usable == old(f)@.flags.connection_usable,
        guard.raised(),
{
}

/// A client hands out its connection for an operation exactly where it is connected, its connection is
/// usable and no transfer is in progress; and an operation that was not completed costs the connection.
pub proof fn law_operations_are_guarded(
    c: &TokioFtpFs,
    r: Result<OperationGuard, RemoteError>,
    guard: OperationGuard,
    d: &mut TokioFtpFs,
)
    requires
        call_ensures(TokioFtpFs::lock_stream, (c,), r),
        call_ensures(OperationGuard::release, (guard, d), ()),
    ensures
        r is Ok <==> c@.connected && c@.flags.connection_usable && !c@.flags.active,
        r is Ok ==> !r->Ok_0.completed(),
        r is Err ==> c@.refusal() == Some(r->Err_0@),
        same_options(final(d)@, old(d)@),
        final(d)@.connected == old(d)@.connected,
        final(d)@.flags.active == old(d)@.flags.active,
        final(d)@.flags.connection_usable <==> old(d)@.flags.connection_usable && guard.completed(),
{
}

/// Connecting begins, and disconnecting goes, as the state of the client says, and a refused call
/// changes nothing.
pub proof fn law_connections_are_made_and_given_up(
    c: &mut TokioFtpFs,
    d: &mut TokioFtpFs,
    e: &mut TokioFtpFs,
    reply: Result<(), FtpError>,
    begun: Result<(), RemoteError>,
    gone: Result<(), RemoteError>,
    told: Result<(), RemoteError>,
)
    requires
        call_ensures(TokioFtpFs::begin_connect, (c,), begun),
        call_ensures(TokioFtpFs::disconnect, (d,), gone),
        call_ensures(TokioFtpFs::finish_disconnect, (e, reply), told),
    ensures
        begun is Ok <==> !old(c)@.flags.active && !(old(c)@.connected
            && old(c)@.flags.connection_usable),
        begun is Err ==> final(c)@ == old(c)@,
        begun is Ok ==> {
            &&& same_options(final(c)@, old(c)@)
            &&& !final(c)@.connected
            &&& final(c)@.flags.connection_usable
            &&& !final(c)@.flags.active
        },
        gone is Ok <==> !old(d)@.flags.active && old(d)@.connected
            && old(d)@.flags.connection_usable,
        same_options(final(d)@, old(d)@),
        !old(d)@.flags.active ==> !final(d)@.connected,
        old(d)@.flags.active ==> final(d)@ == old(d)@,
        told is Ok <==> reply is Ok,
        same_options(final(e)@, old(e)@),
        final(e)@.connected == old(e)@.connected,
        reply is Ok ==> final(e)@ == old(e)@,
{
}

/// Turning a transfer into a listing keeps the options and the connection, which is lost exactly where
/// the transfer left replies unread.
pub proof fn law_raw_listings_keep_what_they_can(
    c: &mut TokioFtpFs,
    path: &str,
    transfer: ListTransfer,
    r: Result<Vec<File>, RemoteError>,
)
    requires
        call_ensures(TokioFtpFs::list_dir_raw, (c, path, transfer), r),
    ensures
        is_raw_listing(old(c)@.platform, path@, transfer@, files_view(r)),
        same_options(final(c)@, old(c)@),
        same_state(
            ClientView { flags: old(c)@.flags, ..final(c)@ },
            old(c)@,
        ),
        final(c)@.flags.active == old(c)@.flags.active,
        final(c)@.flags.connection_usable <==> old(c)@.flags.connection_usable && match transfer@ {
            ListTransferView::Refused(err) => err is UnexpectedResponse
                && err->UnexpectedResponse_0.status != 421,
            ListTransferView::Ran(read, finish) => read is Ok && finish is None,
        },
{
}

} // verus!
