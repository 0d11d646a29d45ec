//! The operations of the client, as decisions on what to do next.
//!
//! Each operation is a function of what has happened so far, its [`Transcript`]: whether it was
//! admitted, what the server replied to its commands, and what listings brought. It says what to do
//! next, or what the operation returns. The caller does it, adds what came of it to the transcript,
//! and asks again.
use crate::error::{
    desynchronizes, ftp_error, ftp_failure, transfer_setup_requires_reconnect, ErrorView, FtpError,
    FtpErrorView, RemoteError, RemoteErrorType, Response, ResponseView, NOT_AVAILABLE,
};
use crate::file::{File, FileView};
use crate::list::{check_view, files_view};
use crate::lookup::{
    answer_views, classify_create_dir_refusal, classify_create_refusal, classify_file_refusal,
    classify_remove_dir_refusal, classify_rename_refusal, law_classification_asks_for_valid_paths,
    law_lookups_ask_for_valid_paths, list_entries, look_create_dir_refusal, look_create_refusal,
    look_file_refusal, look_list_dir, look_remove_dir_refusal, look_rename_refusal, look_stat,
    looked_error, stat_entry, valid_ask, Answer, Ask, AskView, Looked, LookedView,
};
use crate::path::{remote_path, resolve, wire_form};
use crate::stream::ftp_outcome;
use vstd::prelude::*;

verus! {

/// A command on the control connection.
#[derive(Debug)]
pub enum Command {
    /// `MKD`
    MakeDir(String),
    /// `DELE`
    Delete(String),
    /// `RMD`
    RemoveDir(String),
    /// `RNFR` and `RNTO`
    Rename(String, String),
    /// `REST`
    Restart(usize),
    /// `RETR`
    Retrieve(String),
    /// `STOR`
    Store(String),
    /// `APPE`
    Append(String),
    /// `SITE`
    Site(String),
}

/// What a [`Command`] holds.
pub ghost enum CommandView {
    MakeDir(Seq<char>),
    Delete(Seq<char>),
    RemoveDir(Seq<char>),
    Rename(Seq<char>, Seq<char>),
    Restart(usize),
    Retrieve(Seq<char>),
    Store(Seq<char>),
    Append(Seq<char>),
    Site(Seq<char>),
}

impl View for Command {
    type V = CommandView;

    open spec fn view(&self) -> CommandView {
        match *self {
            Command::MakeDir(p) => CommandView::MakeDir(p@),
            Command::Delete(p) => CommandView::Delete(p@),
            Command::RemoveDir(p) => CommandView::RemoveDir(p@),
            Command::Rename(p, q) => CommandView::Rename(p@, q@),
            Command::Restart(n) => CommandView::Restart(n),
            Command::Retrieve(p) => CommandView::Retrieve(p@),
            Command::Store(p) => CommandView::Store(p@),
            Command::Append(p) => CommandView::Append(p@),
            Command::Site(c) => CommandView::Site(c@),
        }
    }
}

/// What an operation does next.
#[derive(Debug)]
pub enum Step<T> {
    /// Take the control connection, and see whether the client admits the operation.
    Lock,
    /// Send a command, and wait for its reply.
    Send(Command),
    /// Find something out by another operation.
    Look(Ask),
    /// Return.
    Done(T),
}

/// What a [`Step`] holds.
pub ghost enum StepView<T> {
    Lock,
    Send(CommandView),
    Look(AskView),
    Done(T),
}

/// What has happened so far in an operation.
#[derive(Debug)]
pub struct Transcript {
    /// Whether the client admitted the operation; `None` before it was asked.
    pub admission: Option<Result<(), RemoteError>>,
    /// What the server replied to the commands, in order.
    pub replies: Vec<Result<(), FtpError>>,
    /// What was found out, in order.
    pub answers: Vec<Answer>,
}

/// What a [`Transcript`] holds; of admission and replies, the failures.
pub ghost struct TranscriptView {
    pub admission: Option<Option<ErrorView>>,
    pub replies: Seq<Option<FtpErrorView>>,
    pub answers: Seq<Result<Seq<FileView>, ErrorView>>,
}

/// What the replies hold.
pub open spec fn reply_views(replies: Seq<Result<(), FtpError>>) -> Seq<Option<FtpErrorView>> {
    replies.map_values(|r: Result<(), FtpError>| ftp_outcome(r))
}

impl View for Transcript {
    type V = TranscriptView;

    open spec fn view(&self) -> TranscriptView {
        TranscriptView {
            admission: match self.admission {
                None => None,
                Some(r) => Some(check_view(r)),
            },
            replies: reply_views(self.replies@),
            answers: answer_views(self.answers@),
        }
    }
}

impl Transcript {
    /// The transcript of an operation that has not begun.
    pub fn new() -> (r: Self)
        ensures
            r@ == (TranscriptView {
                admission: None,
                replies: Seq::empty(),
                answers: Seq::empty(),
            }),
    {
        let r = Transcript { admission: None, replies: Vec::new(), answers: Vec::new() };
        assert(r@.replies == Seq::<Option<FtpErrorView>>::empty());
        assert(r@.answers == Seq::<Result<Seq<FileView>, ErrorView>>::empty());
        r
    }
}

/// What an operation does next, and whether its commands left the connection unusable.
#[derive(Debug)]
pub struct Progress<T> {
    pub step: Step<T>,
    pub connection_lost: bool,
}

/// What an operation that returns nothing holds.
pub open spec fn unit_step(s: Step<Result<(), RemoteError>>) -> StepView<Option<ErrorView>> {
    match s {
        Step::Lock => StepView::Lock,
        Step::Send(c) => StepView::Send(c@),
        Step::Look(a) => StepView::Look(a@),
        Step::Done(r) => StepView::Done(check_view(r)),
    }
}

/// What finding the reason for a refusal does next: the reason is what the operation fails with.
pub open spec fn refusal_step(l: LookedView<ErrorView>) -> StepView<Option<ErrorView>> {
    match l {
        LookedView::Ask(a) => StepView::Look(a),
        LookedView::Is(e, _) => StepView::Done(Some(e)),
    }
}

/// Goes on to find the reason for a refusal.
fn after_refusal(l: Looked<RemoteError>) -> (r: Step<Result<(), RemoteError>>)
    ensures
        unit_step(r) == refusal_step(looked_error(l)),
{
    match l {
        Looked::Ask(a) => Step::Look(a),
        Looked::Is { value, next: _ } => Step::Done(Err(value)),
    }
}

/// What an operation with one command does, up to its reply; `None` once the reply is a refusal.
pub open spec fn command_step(command: CommandView, t: TranscriptView) -> Option<
    StepView<Option<ErrorView>>,
> {
    match t.admission {
        None => Some(StepView::Lock),
        Some(Some(e)) => Some(StepView::Done(Some(e))),
        Some(None) => if t.replies.len() == 0 {
            Some(StepView::Send(command))
        } else if t.replies[0] is None {
            Some(StepView::Done(None))
        } else {
            None
        },
    }
}

/// The refusal with which the server answered the first command of an admitted operation.
pub open spec fn first_refusal(t: TranscriptView) -> Option<FtpErrorView> {
    if t.admission == Some(None::<ErrorView>) && t.replies.len() > 0 {
        t.replies[0]
    } else {
        None
    }
}

/// Whether the reply to a single command left the connection unusable.
pub open spec fn command_lost(t: TranscriptView) -> bool {
    first_refusal(t) is Some && desynchronizes(first_refusal(t)->0)
}

/// Runs a plain control command: what to do up to its reply, or the refusal that it brought.
fn run_command(command: Command, t: &Transcript) -> (r: Result<
    Step<Result<(), RemoteError>>,
    FtpError,
>)
    ensures
        match r {
            Ok(step) => command_step(command@, t@) == Some(unit_step(step)) && first_refusal(t@) is None,
            Err(e) => command_step(command@, t@) is None && first_refusal(t@) == Some(e@),
        },
{
    match &t.admission {
        None => Ok(Step::Lock),
        Some(Err(e)) => Ok(Step::Done(Err(e.clone()))),
        Some(Ok(_)) => {
            if t.replies.len() == 0 {
                return Ok(Step::Send(command));
            }
            assert(t@.replies[0] == ftp_outcome(t.replies@[0]));
            match &t.replies[0] {
                Ok(_) => Ok(Step::Done(Ok(()))),
                Err(e) => Err(e.clone()),
            }
        },
    }
}

/// An operation with one command on one path: the path is checked first, then the operation is
/// admitted, then the command is sent; of a refusal, `refusal` says what to do next.
pub open spec fn path_operation(
    path: Seq<u8>,
    command: spec_fn(Seq<char>) -> CommandView,
    refusal: spec_fn(Seq<char>, FtpErrorView) -> LookedView<ErrorView>,
    t: TranscriptView,
) -> StepView<Option<ErrorView>> {
    match wire_form(path) {
        Err(e) => StepView::Done(Some(e)),
        Ok(p) => match command_step(command(p), t) {
            Some(step) => step,
            None => refusal_step(refusal(p, first_refusal(t)->0)),
        },
    }
}

/// Whether an operation on one path lost the connection: an invalid path never gets that far.
pub open spec fn path_operation_lost(path: Seq<u8>, t: TranscriptView) -> bool {
    wire_form(path) is Ok && command_lost(t)
}

/// What creating a directory does.
pub open spec fn create_dir_step(path: Seq<u8>, t: TranscriptView) -> StepView<Option<ErrorView>> {
    path_operation(
        path,
        |p: Seq<char>| CommandView::MakeDir(p),
        |p: Seq<char>, err: FtpErrorView| look_create_dir_refusal(p, err, t.answers, 0),
        t,
    )
}

/// Creates a directory.
pub fn create_dir(path: &[u8], t: &Transcript) -> (r: Progress<Result<(), RemoteError>>)
    ensures
        unit_step(r.step) == create_dir_step(path@, t@),
        r.connection_lost == path_operation_lost(path@, t@),
{
    let remote = match remote_path(path) {
        Ok(remote) => remote,
        Err(e) => {
            return Progress { step: Step::Done(Err(e)), connection_lost: false };
        },
    };
    match run_command(Command::MakeDir(remote.clone()), t) {
        Ok(step) => Progress { step, connection_lost: false },
        Err(err) => {
            let connection_lost = transfer_setup_requires_reconnect(&err);
            let reason = classify_create_dir_refusal(remote.as_str(), err, &t.answers, 0);
            Progress { step: after_refusal(reason), connection_lost }
        },
    }
}

/// What removing a file does.
pub open spec fn remove_file_step(path: Seq<u8>, t: TranscriptView) -> StepView<Option<ErrorView>> {
    path_operation(
        path,
        |p: Seq<char>| CommandView::Delete(p),
        |p: Seq<char>, err: FtpErrorView| look_file_refusal(p, err, t.answers, 0),
        t,
    )
}

/// Removes a file.
pub fn remove_file(path: &[u8], t: &Transcript) -> (r: Progress<Result<(), RemoteError>>)
    ensures
        unit_step(r.step) == remove_file_step(path@, t@),
        r.connection_lost == path_operation_lost(path@, t@),
{
    let remote = match remote_path(path) {
        Ok(remote) => remote,
        Err(e) => {
            return Progress { step: Step::Done(Err(e)), connection_lost: false };
        },
    };
    match run_command(Command::Delete(remote.clone()), t) {
        Ok(step) => Progress { step, connection_lost: false },
        Err(err) => {
            let connection_lost = transfer_setup_requires_reconnect(&err);
            let reason = classify_file_refusal(remote.as_str(), err, &t.answers, 0);
            Progress { step: after_refusal(reason), connection_lost }
        },
    }
}

/// What removing a directory does.
pub open spec fn remove_dir_step(path: Seq<u8>, t: TranscriptView) -> StepView<Option<ErrorView>> {
    path_operation(
        path,
        |p: Seq<char>| CommandView::RemoveDir(p),
        |p: Seq<char>, err: FtpErrorView| look_remove_dir_refusal(p, err, t.answers, 0),
        t,
    )
}

/// Removes a directory.
pub fn remove_dir(path: &[u8], t: &Transcript) -> (r: Progress<Result<(), RemoteError>>)
    ensures
        unit_step(r.step) == remove_dir_step(path@, t@),
        r.connection_lost == path_operation_lost(path@, t@),
{
    let remote = match remote_path(path) {
        Ok(remote) => remote,
        Err(e) => {
            return Progress { step: Step::Done(Err(e)), connection_lost: false };
        },
    };
    match run_command(Command::RemoveDir(remote.clone()), t) {
        Ok(step) => Progress { step, connection_lost: false },
        Err(err) => {
            let connection_lost = transfer_setup_requires_reconnect(&err);
            let reason = classify_remove_dir_refusal(remote.as_str(), err, &t.answers, 0);
            Progress { step: after_refusal(reason), connection_lost }
        },
    }
}

/// What renaming does: both paths are checked first.
pub open spec fn rename_step(src: Seq<u8>, dest: Seq<u8>, t: TranscriptView) -> StepView<
    Option<ErrorView>,
> {
    match (wire_form(src), wire_form(dest)) {
        (Err(e), _) => StepView::Done(Some(e)),
        (_, Err(e)) => StepView::Done(Some(e)),
        (Ok(p), Ok(q)) => match command_step(CommandView::Rename(p, q), t) {
            Some(step) => step,
            None => refusal_step(look_rename_refusal(p, q, first_refusal(t)->0, t.answers, 0)),
        },
    }
}

/// Renames an entry.
pub fn rename(src: &[u8], dest: &[u8], t: &Transcript) -> (r: Progress<Result<(), RemoteError>>)
    ensures
        unit_step(r.step) == rename_step(src@, dest@, t@),
        r.connection_lost == (wire_form(src@) is Ok && path_operation_lost(dest@, t@)),
{
    let remote_src = match remote_path(src) {
        Ok(remote) => remote,
        Err(e) => {
            return Progress { step: Step::Done(Err(e)), connection_lost: false };
        },
    };
    let remote_dest = match remote_path(dest) {
        Ok(remote) => remote,
        Err(e) => {
            return Progress { step: Step::Done(Err(e)), connection_lost: false };
        },
    };
    match run_command(Command::Rename(remote_src.clone(), remote_dest.clone()), t) {
        Ok(step) => Progress { step, connection_lost: false },
        Err(err) => {
            let connection_lost = transfer_setup_requires_reconnect(&err);
            let reason = classify_rename_refusal(
                remote_src.as_str(),
                remote_dest.as_str(),
                err,
                &t.answers,
                0,
            );
            Progress { step: after_refusal(reason), connection_lost }
        },
    }
}

/// What opening a file for writing does.
pub open spec fn create_step(path: Seq<u8>, t: TranscriptView) -> StepView<Option<ErrorView>> {
    path_operation(
        path,
        |p: Seq<char>| CommandView::Store(p),
        |p: Seq<char>, err: FtpErrorView| look_create_refusal(p, err, t.answers, 0),
        t,
    )
}

/// Opens a file for writing. Once this returns, the transfer has begun.
pub fn create(path: &[u8], t: &Transcript) -> (r: Progress<Result<(), RemoteError>>)
    ensures
        unit_step(r.step) == create_step(path@, t@),
        r.connection_lost == path_operation_lost(path@, t@),
{
    let remote = match remote_path(path) {
        Ok(remote) => remote,
        Err(e) => {
            return Progress { step: Step::Done(Err(e)), connection_lost: false };
        },
    };
    match run_command(Command::Store(remote.clone()), t) {
        Ok(step) => Progress { step, connection_lost: false },
        Err(err) => {
            let connection_lost = transfer_setup_requires_reconnect(&err);
            let reason = classify_create_refusal(remote.as_str(), err, &t.answers, 0);
            Progress { step: after_refusal(reason), connection_lost }
        },
    }
}

/// What opening a file for appending does.
pub open spec fn append_step(path: Seq<u8>, t: TranscriptView) -> StepView<Option<ErrorView>> {
    path_operation(
        path,
        |p: Seq<char>| CommandView::Append(p),
        |p: Seq<char>, err: FtpErrorView| look_create_refusal(p, err, t.answers, 0),
        t,
    )
}

/// Opens a file for appending. Once this returns, the transfer has begun.
pub fn append(path: &[u8], t: &Transcript) -> (r: Progress<Result<(), RemoteError>>)
    ensures
        unit_step(r.step) == append_step(path@, t@),
        r.connection_lost == path_operation_lost(path@, t@),
{
    let remote = match remote_path(path) {
        Ok(remote) => remote,
        Err(e) => {
            return Progress { step: Step::Done(Err(e)), connection_lost: false };
        },
    };
    match run_command(Command::Append(remote.clone()), t) {
        Ok(step) => Progress { step, connection_lost: false },
        Err(err) => {
            let connection_lost = transfer_setup_requires_reconnect(&err);
            let reason = classify_create_refusal(remote.as_str(), err, &t.answers, 0);
            Progress { step: after_refusal(reason), connection_lost }
        },
    }
}

// ---------------------------------------------------------------------------------------------
// Lookups
// ---------------------------------------------------------------------------------------------

/// What a lookup of an entry holds.
pub open spec fn file_step(s: Step<Result<File, RemoteError>>) -> StepView<
    Result<FileView, ErrorView>,
> {
    match s {
        Step::Lock => StepView::Lock,
        Step::Send(c) => StepView::Send(c@),
        Step::Look(a) => StepView::Look(a@),
        Step::Done(Ok(f)) => StepView::Done(Ok(f@)),
        Step::Done(Err(e)) => StepView::Done(Err(e@)),
    }
}

/// What a lookup of a directory holds.
pub open spec fn files_step(s: Step<Result<Vec<File>, RemoteError>>) -> StepView<
    Result<Seq<FileView>, ErrorView>,
> {
    match s {
        Step::Lock => StepView::Lock,
        Step::Send(c) => StepView::Send(c@),
        Step::Look(a) => StepView::Look(a@),
        Step::Done(r) => StepView::Done(files_view(r)),
    }
}

/// What a lookup of a fact holds.
pub open spec fn fact_step(s: Step<Result<bool, RemoteError>>) -> StepView<Result<bool, ErrorView>> {
    match s {
        Step::Lock => StepView::Lock,
        Step::Send(c) => StepView::Send(c@),
        Step::Look(a) => StepView::Look(a@),
        Step::Done(Ok(b)) => StepView::Done(Ok(b)),
        Step::Done(Err(e)) => StepView::Done(Err(e@)),
    }
}

/// What looking up the entry at a path does.
pub open spec fn stat_step(path: Seq<u8>, tape: Seq<Result<Seq<FileView>, ErrorView>>) -> StepView<
    Result<FileView, ErrorView>,
> {
    match wire_form(path) {
        Err(e) => StepView::Done(Err(e)),
        Ok(p) => match look_stat(p, tape, 0) {
            LookedView::Ask(a) => StepView::Look(a),
            LookedView::Is(found, _) => StepView::Done(found),
        },
    }
}

/// Looks up the entry at a path.
pub fn stat(path: &[u8], answers: &Vec<Answer>) -> (r: Step<Result<File, RemoteError>>)
    ensures
        file_step(r) == stat_step(path@, answer_views(answers@)),
{
    let path = match remote_path(path) {
        Ok(remote) => resolve(remote.as_str()),
        Err(e) => {
            return Step::Done(Err(e));
        },
    };
    match stat_entry(path.as_str(), answers, 0) {
        Looked::Ask(a) => Step::Look(a),
        Looked::Is { value, next: _ } => Step::Done(value),
    }
}

/// What listing a directory does.
pub open spec fn list_dir_step(path: Seq<u8>, tape: Seq<Result<Seq<FileView>, ErrorView>>) -> StepView<
    Result<Seq<FileView>, ErrorView>,
> {
    match wire_form(path) {
        Err(e) => StepView::Done(Err(e)),
        Ok(p) => match look_list_dir(p, tape, 0) {
            LookedView::Ask(a) => StepView::Look(a),
            LookedView::Is(listed, _) => StepView::Done(listed),
        },
    }
}

/// Lists a directory.
pub fn list_dir(path: &[u8], answers: &Vec<Answer>) -> (r: Step<Result<Vec<File>, RemoteError>>)
    ensures
        files_step(r) == list_dir_step(path@, answer_views(answers@)),
{
    let path = match remote_path(path) {
        Ok(remote) => resolve(remote.as_str()),
        Err(e) => {
            return Step::Done(Err(e));
        },
    };
    match list_entries(path.as_str(), answers, 0) {
        Looked::Ask(a) => Step::Look(a),
        Looked::Is { value, next: _ } => Step::Done(value),
    }
}

/// What asking whether something stands at a path does: it is looked up, and an absent entry is an
/// answer, not a failure.
pub open spec fn exists_step(path: Seq<u8>, tape: Seq<Result<Seq<FileView>, ErrorView>>) -> StepView<
    Result<bool, ErrorView>,
> {
    match stat_step(path, tape) {
        StepView::Lock => StepView::Lock,
        StepView::Send(c) => StepView::Send(c),
        StepView::Look(a) => StepView::Look(a),
        StepView::Done(Ok(_)) => StepView::Done(Ok(true)),
        StepView::Done(Err(e)) => if e.kind == RemoteErrorType::NoSuchFileOrDirectory {
            StepView::Done(Ok(false))
        } else {
            StepView::Done(Err(e))
        },
    }
}

/// Finds out whether something stands at a path.
pub fn path_exists(path: &[u8], answers: &Vec<Answer>) -> (r: Step<Result<bool, RemoteError>>)
    ensures
        fact_step(r) == exists_step(path@, answer_views(answers@)),
{
    match stat(path, answers) {
        Step::Lock => Step::Lock,
        Step::Send(c) => Step::Send(c),
        Step::Look(a) => Step::Look(a),
        Step::Done(Ok(_)) => Step::Done(Ok(true)),
        Step::Done(Err(e)) => if e.kind == RemoteErrorType::NoSuchFileOrDirectory {
            Step::Done(Ok(false))
        } else {
            Step::Done(Err(e))
        },
    }
}

// ---------------------------------------------------------------------------------------------
// Reading
// ---------------------------------------------------------------------------------------------

/// A download that has begun.
#[derive(Debug, PartialEq, Eq, Structural, Clone, Copy)]
pub struct Opened {
    /// How many bytes are to be skipped locally before the requested range starts.
    pub skip: u64,
}

/// How far the setup of a download got.
pub ghost enum SetupView {
    /// A command is to be sent next.
    Send(CommandView),
    /// The transfer has begun, after which this many bytes are to be skipped.
    Opened(u64),
    /// It failed, and whether the connection is lost.
    Failed(ErrorView, bool),
    /// The server refused the transfer.
    Refused(FtpErrorView),
}

/// The setup from the first `RETR` on. `resumed` says whether the server took the offset, and `n`
/// is the number of replies before it.
///
/// Where the server refuses the file after taking the offset, the offset is taken back and the file
/// is asked for once more.
pub open spec fn retrieve_setup(
    path: Seq<char>,
    offset: u64,
    resumed: bool,
    replies: Seq<Option<FtpErrorView>>,
    n: int,
) -> SetupView {
    if replies.len() <= n {
        SetupView::Send(CommandView::Retrieve(path))
    } else if replies[n] is None {
        SetupView::Opened(
            if resumed {
                0
            } else {
                offset
            },
        )
    } else if !resumed {
        SetupView::Refused(replies[n]->0)
    } else if replies.len() <= n + 1 {
        SetupView::Send(CommandView::Restart(0))
    } else if replies[n + 1] is Some {
        SetupView::Failed(ftp_failure(replies[n + 1]->0), true)
    } else if replies.len() <= n + 2 {
        SetupView::Send(CommandView::Retrieve(path))
    } else if replies[n + 2] is Some {
        SetupView::Refused(replies[n + 2]->0)
    } else {
        SetupView::Opened(offset)
    }
}

/// Whether an offset is asked of the server: the restart command holds no larger one than the
/// machine's sizes.
pub open spec fn restartable(offset: u64) -> bool {
    0 < offset <= usize::MAX
}

/// The setup of a download: the offset is asked for first; where the server refuses it, the prefix
/// is skipped locally.
pub open spec fn open_setup(
    path: Seq<char>,
    offset: u64,
    replies: Seq<Option<FtpErrorView>>,
) -> SetupView {
    if !restartable(offset) {
        retrieve_setup(path, offset, false, replies, 0)
    } else if replies.len() == 0 {
        SetupView::Send(CommandView::Restart(offset as usize))
    } else {
        match replies[0] {
            None => retrieve_setup(path, offset, true, replies, 1),
            Some(err) => if err is UnexpectedResponse && !err.refused_with(NOT_AVAILABLE) {
                retrieve_setup(path, offset, false, replies, 1)
            } else {
                SetupView::Failed(ftp_failure(err), desynchronizes(err))
            },
        }
    }
}

/// What opening a file for reading holds.
pub open spec fn opened_step(s: Step<Result<Opened, RemoteError>>) -> StepView<
    Result<Opened, ErrorView>,
> {
    match s {
        Step::Lock => StepView::Lock,
        Step::Send(c) => StepView::Send(c@),
        Step::Look(a) => StepView::Look(a@),
        Step::Done(Ok(o)) => StepView::Done(Ok(o)),
        Step::Done(Err(e)) => StepView::Done(Err(e@)),
    }
}

/// What opening a file for reading does.
pub open spec fn open_step(path: Seq<u8>, offset: Option<u64>, t: TranscriptView) -> StepView<
    Result<Opened, ErrorView>,
> {
    match wire_form(path) {
        Err(e) => StepView::Done(Err(e)),
        Ok(p) => match t.admission {
            None => StepView::Lock,
            Some(Some(e)) => StepView::Done(Err(e)),
            Some(None) => match open_setup(p, start_of(offset), t.replies) {
                SetupView::Send(c) => StepView::Send(c),
                SetupView::Opened(skip) => StepView::Done(Ok(Opened { skip })),
                SetupView::Failed(e, _) => StepView::Done(Err(e)),
                SetupView::Refused(err) => match look_file_refusal(p, err, t.answers, 0) {
                    LookedView::Ask(a) => StepView::Look(a),
                    LookedView::Is(e, _) => StepView::Done(Err(e)),
                },
            },
        },
    }
}

/// Where a requested range starts: at the start of the file unless an offset is given.
pub open spec fn start_of(offset: Option<u64>) -> u64 {
    match offset {
        Some(n) => n,
        None => 0,
    }
}

/// Whether opening a file for reading lost the connection.
pub open spec fn open_lost(path: Seq<u8>, offset: Option<u64>, t: TranscriptView) -> bool {
    wire_form(path) is Ok && t.admission == Some(None::<ErrorView>) && match open_setup(
        wire_form(path)->Ok_0,
        start_of(offset),
        t.replies,
    ) {
        SetupView::Failed(_, lost) => lost,
        SetupView::Refused(err) => desynchronizes(err),
        _ => false,
    }
}

/// How far the setup of a download got.
enum Setup {
    Send(Command),
    Opened(u64),
    Failed(RemoteError, bool),
    Refused(FtpError),
}

/// What a [`Setup`] holds.
spec fn setup_view(s: Setup) -> SetupView {
    match s {
        Setup::Send(c) => SetupView::Send(c@),
        Setup::Opened(skip) => SetupView::Opened(skip),
        Setup::Failed(e, lost) => SetupView::Failed(e@, lost),
        Setup::Refused(e) => SetupView::Refused(e@),
    }
}

/// Sets a download up from the first `RETR` on.
fn set_up_retrieve(
    path: &str,
    offset: u64,
    resumed: bool,
    replies: &Vec<Result<(), FtpError>>,
    n: usize,
) -> (r: Setup)
    requires
        n <= 1,
    ensures
        setup_view(r) == retrieve_setup(path@, offset, resumed, reply_views(replies@), n as int),
{
    let ghost views = reply_views(replies@);
    if replies.len() <= n {
        return Setup::Send(Command::Retrieve(path.to_string()));
    }
    assert(views[n as int] == ftp_outcome(replies@[n as int]));
    let first = match &replies[n] {
        Ok(_) => {
            return Setup::Opened(
                if resumed {
                    0
                } else {
                    offset
                },
            );
        },
        Err(e) => e,
    };
    if !resumed {
        return Setup::Refused(first.clone());
    }
    if replies.len() <= n + 1 {
        return Setup::Send(Command::Restart(0));
    }
    assert(views[n + 1] == ftp_outcome(replies@[n + 1]));
    if let Err(e) = &replies[n + 1] {
        return Setup::Failed(ftp_error(e.clone()), true);
    }
    if replies.len() <= n + 2 {
        return Setup::Send(Command::Retrieve(path.to_string()));
    }
    assert(views[n + 2] == ftp_outcome(replies@[n + 2]));
    match &replies[n + 2] {
        Ok(_) => Setup::Opened(offset),
        Err(e) => Setup::Refused(e.clone()),
    }
}

/// What came of asking the server for an offset: whether it took it, or the failure.
pub open spec fn offset_outcome(reply: Option<FtpErrorView>) -> Result<bool, ErrorView> {
    match reply {
        None => Ok(true),
        Some(err) => if err is UnexpectedResponse && !err.refused_with(NOT_AVAILABLE) {
            Ok(false)
        } else {
            Err(ftp_failure(err))
        },
    }
}

/// Judges the reply to a native FTP restart marker: a refusal means a local skip.
pub fn request_offset(reply: Result<(), FtpError>) -> (r: Result<bool, RemoteError>)
    ensures
        match r {
            Ok(resumed) => offset_outcome(ftp_outcome(reply)) == Ok::<bool, ErrorView>(resumed),
            Err(e) => offset_outcome(ftp_outcome(reply)) == Err::<bool, ErrorView>(e@),
        },
{
    match reply {
        Ok(_) => Ok(true),
        Err(error) => {
            let refused = match &error {
                FtpError::UnexpectedResponse(response) => response.status != NOT_AVAILABLE,
                _ => false,
            };
            if refused {
                Ok(false)
            } else {
                Err(ftp_error(error))
            }
        },
    }
}

/// Sets a download up.
fn set_up_open(path: &str, offset: u64, replies: &Vec<Result<(), FtpError>>) -> (r: Setup)
    ensures
        setup_view(r) == open_setup(path@, offset, reply_views(replies@)),
{
    if offset == 0 || offset > usize::MAX as u64 {
        return set_up_retrieve(path, offset, false, replies, 0);
    }
    if replies.len() == 0 {
        return Setup::Send(Command::Restart(offset as usize));
    }
    assert(reply_views(replies@)[0] == ftp_outcome(replies@[0]));
    let reply = match &replies[0] {
        Ok(_) => Ok(()),
        Err(e) => Err(e.clone()),
    };
    let lost = match &reply {
        Ok(_) => false,
        Err(e) => transfer_setup_requires_reconnect(e),
    };
    match request_offset(reply) {
        Ok(resumed) => set_up_retrieve(path, offset, resumed, replies, 1),
        Err(e) => Setup::Failed(e, lost),
    }
}

/// Opens a file for reading from `offset` on. Once this returns, the transfer has begun, and
/// [`Opened::skip`] bytes are to be skipped locally.
pub fn open(path: &[u8], offset: Option<u64>, t: &Transcript) -> (r: Progress<
    Result<Opened, RemoteError>,
>)
    ensures
        opened_step(r.step) == open_step(path@, offset, t@),
        r.connection_lost == open_lost(path@, offset, t@),
{
    let remote = match remote_path(path) {
        Ok(remote) => remote,
        Err(e) => {
            return Progress { step: Step::Done(Err(e)), connection_lost: false };
        },
    };
    match &t.admission {
        None => {
            return Progress { step: Step::Lock, connection_lost: false };
        },
        Some(Err(e)) => {
            return Progress { step: Step::Done(Err(e.clone())), connection_lost: false };
        },
        Some(Ok(_)) => {},
    }
    let start: u64 = match offset {
        Some(n) => n,
        None => 0,
    };
    match set_up_open(remote.as_str(), start, &t.replies) {
        Setup::Send(c) => Progress { step: Step::Send(c), connection_lost: false },
        Setup::Opened(skip) => Progress {
            step: Step::Done(Ok(Opened { skip })),
            connection_lost: false,
        },
        Setup::Failed(e, connection_lost) => Progress {
            step: Step::Done(Err(e)),
            connection_lost,
        },
        Setup::Refused(err) => {
            let connection_lost = transfer_setup_requires_reconnect(&err);
            let step = match classify_file_refusal(remote.as_str(), err, &t.answers, 0) {
                Looked::Ask(a) => Step::Look(a),
                Looked::Is { value, next: _ } => Step::Done(Err(value)),
            };
            Progress { step, connection_lost }
        },
    }
}

// ---------------------------------------------------------------------------------------------
// Site commands, and what FTP does not have
// ---------------------------------------------------------------------------------------------

/// What a site command printed.
#[derive(Debug)]
pub struct ExecOutput {
    pub status: u32,
    pub output: String,
}

/// What `String::from_utf8_lossy` makes of bytes.
pub uninterp spec fn lossy_text(bytes: Seq<u8>) -> Seq<char>;

/// Decodes bytes with `String::from_utf8_lossy`. Bytes that are valid UTF-8 give their text; how
/// others are replaced is not stated.
#[verifier::external_body]
fn decode_lossy(bytes: &[u8]) -> (r: String)
    ensures
        r@ == lossy_text(bytes@),
        vstd::utf8::valid_utf8(bytes@) ==> r@ == vstd::utf8::decode_utf8(bytes@),
{
    String::from_utf8_lossy(bytes).into_owned()
}

/// Turns the reply to a site command into what it printed.
pub fn exec_output(response: Response) -> (r: ExecOutput)
    ensures
        r.status == response@.status,
        r.output@ == lossy_text(response@.body),
        vstd::utf8::valid_utf8(response@.body) ==> r.output@ == vstd::utf8::decode_utf8(
            response@.body,
        ),
{
    let output = decode_lossy(response.body.as_slice());
    ExecOutput { status: response.status, output }
}

/// What a reply to a site command holds.
pub open spec fn response_view(r: Result<Response, FtpError>) -> Result<ResponseView, FtpErrorView> {
    match r {
        Ok(response) => Ok(response@),
        Err(e) => Err(e@),
    }
}

/// What a site command holds.
pub open spec fn output_step(s: Step<Result<ExecOutput, RemoteError>>) -> StepView<
    Result<(u32, Seq<char>), ErrorView>,
> {
    match s {
        Step::Lock => StepView::Lock,
        Step::Send(c) => StepView::Send(c@),
        Step::Look(a) => StepView::Look(a@),
        Step::Done(Ok(o)) => StepView::Done(Ok((o.status, o.output@))),
        Step::Done(Err(e)) => StepView::Done(Err(e@)),
    }
}

/// What a site command does.
pub open spec fn exec_step(
    cmd: Seq<char>,
    admission: Option<Option<ErrorView>>,
    reply: Option<Result<ResponseView, FtpErrorView>>,
) -> StepView<Result<(u32, Seq<char>), ErrorView>> {
    match admission {
        None => StepView::Lock,
        Some(Some(e)) => StepView::Done(Err(e)),
        Some(None) => match reply {
            None => StepView::Send(CommandView::Site(cmd)),
            Some(Ok(response)) => StepView::Done(Ok((response.status, lossy_text(response.body)))),
            Some(Err(e)) => StepView::Done(Err(ftp_failure(e))),
        },
    }
}

/// Runs a site command.
pub fn exec(
    cmd: &str,
    admission: &Option<Result<(), RemoteError>>,
    reply: Option<Result<Response, FtpError>>,
) -> (r: Progress<Result<ExecOutput, RemoteError>>)
    ensures
        ({
            let admitted = match *admission {
                None => None,
                Some(a) => Some(check_view(a)),
            };
            let replied = match reply {
                None => None,
                Some(a) => Some(response_view(a)),
            };
            &&& output_step(r.step) == exec_step(cmd@, admitted, replied)
            &&& r.connection_lost == (admitted == Some(None::<ErrorView>) && replied is Some
                && replied->0 is Err && desynchronizes(replied->0->Err_0))
        }),
{
    match admission {
        None => Progress { step: Step::Lock, connection_lost: false },
        Some(Err(e)) => Progress { step: Step::Done(Err(e.clone())), connection_lost: false },
        Some(Ok(_)) => match reply {
            None => Progress {
                step: Step::Send(Command::Site(cmd.to_string())),
                connection_lost: false,
            },
            Some(Ok(response)) => Progress {
                step: Step::Done(Ok(exec_output(response))),
                connection_lost: false,
            },
            Some(Err(e)) => {
                let connection_lost = transfer_setup_requires_reconnect(&e);
                Progress { step: Step::Done(Err(ftp_error(e))), connection_lost }
            },
        },
    }
}

/// What an operation that FTP does not have returns: its paths are checked all the same.
pub open spec fn unsupported(path: Seq<u8>) -> ErrorView {
    match wire_form(path) {
        Err(e) => e,
        Ok(_) => ErrorView::plain(RemoteErrorType::UnsupportedFeature),
    }
}

/// What an operation that FTP does not have, on two paths, returns.
pub open spec fn unsupported_pair(src: Seq<u8>, dest: Seq<u8>) -> ErrorView {
    match wire_form(src) {
        Err(e) => e,
        Ok(_) => unsupported(dest),
    }
}

/// Checks a path for an operation that FTP does not have.
fn refuse_unsupported(path: &[u8]) -> (r: Result<(), RemoteError>)
    ensures
        check_view(r) == Some(unsupported(path@)),
{
    match remote_path(path) {
        Err(e) => Err(e),
        Ok(_) => Err(RemoteError::new(RemoteErrorType::UnsupportedFeature)),
    }
}

/// FTP cannot set metadata.
pub fn set_metadata(path: &[u8]) -> (r: Result<(), RemoteError>)
    ensures
        check_view(r) == Some(unsupported(path@)),
{
    refuse_unsupported(path)
}

/// FTP cannot copy.
pub fn copy(src: &[u8], dest: &[u8]) -> (r: Result<(), RemoteError>)
    ensures
        check_view(r) == Some(unsupported_pair(src@, dest@)),
{
    match remote_path(src) {
        Err(e) => Err(e),
        Ok(_) => refuse_unsupported(dest),
    }
}

/// FTP cannot make symbolic links.
pub fn symlink(path: &[u8], target: &[u8]) -> (r: Result<(), RemoteError>)
    ensures
        check_view(r) == Some(unsupported_pair(path@, target@)),
{
    match remote_path(path) {
        Err(e) => Err(e),
        Ok(_) => refuse_unsupported(target),
    }
}

// ---------------------------------------------------------------------------------------------
// Laws
// ---------------------------------------------------------------------------------------------

/// What an operation that was not admitted returns is the reason, and it sends nothing, whatever its
/// transcript holds besides.
pub proof fn law_a_refused_operation_sends_nothing(
    path: Seq<u8>,
    other: Seq<u8>,
    offset: Option<u64>,
    cmd: Seq<char>,
    reply: Option<Result<ResponseView, FtpErrorView>>,
    t: TranscriptView,
    reason: ErrorView,
)
    requires
        wire_form(path) is Ok,
        wire_form(other) is Ok,
        t.admission == Some(Some(reason)),
    ensures
        create_dir_step(path, t) == StepView::Done(Some(reason)),
        remove_file_step(path, t) == StepView::Done(Some(reason)),
        remove_dir_step(path, t) == StepView::Done(Some(reason)),
        rename_step(path, other, t) == StepView::Done(Some(reason)),
        create_step(path, t) == StepView::Done(Some(reason)),
        append_step(path, t) == StepView::Done(Some(reason)),
        open_step(path, offset, t) == StepView::Done(Err::<Opened, ErrorView>(reason)),
        exec_step(cmd, t.admission, reply) == StepView::Done(
            Err::<(u32, Seq<char>), ErrorView>(reason),
        ),
        !path_operation_lost(path, t),
        !open_lost(path, offset, t),
{
}

/// A lookup that was not admitted returns the reason, unless the reason is a refused path.
pub proof fn law_a_refused_lookup_returns_the_reason(
    path: Seq<u8>,
    tape: Seq<Result<Seq<FileView>, ErrorView>>,
    reason: ErrorView,
)
    requires
        wire_form(path) is Ok,
        tape.len() > 0,
        tape[0] == Err::<Seq<FileView>, ErrorView>(reason),
        !crate::error::ambiguous_refusal(reason),
    ensures
        stat_step(path, tape) == StepView::Done(Err::<FileView, ErrorView>(reason)),
        list_dir_step(path, tape) == StepView::Done(Err::<Seq<FileView>, ErrorView>(reason)),
{
    reveal_with_fuel(look_stat, 2);
}

/// A path that cannot go over the wire is refused before anything else: no operation takes the
/// connection, sends a command or asks for a listing on its account.
pub proof fn law_paths_are_checked_first(
    path: Seq<u8>,
    other: Seq<u8>,
    offset: Option<u64>,
    t: TranscriptView,
    tape: Seq<Result<Seq<FileView>, ErrorView>>,
    reason: ErrorView,
)
    requires
        wire_form(path) == Err::<Seq<char>, ErrorView>(reason),
    ensures
        create_dir_step(path, t) == StepView::Done(Some(reason)),
        remove_file_step(path, t) == StepView::Done(Some(reason)),
        remove_dir_step(path, t) == StepView::Done(Some(reason)),
        rename_step(path, other, t) == StepView::Done(Some(reason)),
        wire_form(other) is Ok ==> rename_step(other, path, t) == StepView::Done(Some(reason)),
        create_step(path, t) == StepView::Done(Some(reason)),
        append_step(path, t) == StepView::Done(Some(reason)),
        open_step(path, offset, t) == StepView::Done(Err::<Opened, ErrorView>(reason)),
        stat_step(path, tape) == StepView::Done(Err::<FileView, ErrorView>(reason)),
        list_dir_step(path, tape) == StepView::Done(Err::<Seq<FileView>, ErrorView>(reason)),
        unsupported(path) == reason,
        unsupported_pair(path, other) == reason,
        wire_form(other) is Ok ==> unsupported_pair(other, path) == reason,
        reason.kind == RemoteErrorType::InvalidPath,
        !path_operation_lost(path, t),
        !open_lost(path, offset, t),
{
}

/// The restart marker that the server holds when it is sent the command after these replies: the
/// last one it took, and none at first.
pub open spec fn restart_marker(
    path: Seq<char>,
    offset: u64,
    replies: Seq<Option<FtpErrorView>>,
) -> int
    decreases replies.len(),
{
    if replies.len() == 0 {
        0
    } else {
        match (open_setup(path, offset, replies.drop_last()), replies.last()) {
            (SetupView::Send(CommandView::Restart(n)), None) => n as int,
            _ => restart_marker(path, offset, replies.drop_last()),
        }
    }
}

/// A download starts where it was asked to: what the server starts at and what is skipped locally
/// make up the offset, whichever of its commands the server refused before.
///
/// `replies` are those before the reply that began the transfer.
pub proof fn law_downloads_start_at_the_offset(
    path: Seq<char>,
    offset: u64,
    replies: Seq<Option<FtpErrorView>>,
    skip: u64,
)
    requires
        open_setup(path, offset, replies) == SetupView::Send(CommandView::Retrieve(path)),
        open_setup(path, offset, replies.push(None)) == SetupView::Opened(skip),
    ensures
        restart_marker(path, offset, replies) + skip == offset,
{
    let after = replies.push(None);
    assert(after.drop_last() == replies);
    reveal_with_fuel(restart_marker, 4);
    assert(replies.len() <= 3);
    if replies.len() > 0 {
        let a = replies.drop_last();
        assert(forall|i: int| 0 <= i < a.len() ==> a[i] == replies[i]);
        assert(after[0] == replies[0]);
        if a.len() > 0 {
            let b = a.drop_last();
            assert(after[1] == replies[1]);
            if b.len() > 0 {
                let c = b.drop_last();
                assert(after[2] == replies[2]);
            }
        }
    }
}

/// Whether the paths of a command can go over the wire.
pub open spec fn valid_command(c: CommandView) -> bool {
    match c {
        CommandView::MakeDir(p) => crate::path::wire_path(p),
        CommandView::Delete(p) => crate::path::wire_path(p),
        CommandView::RemoveDir(p) => crate::path::wire_path(p),
        CommandView::Rename(p, q) => crate::path::wire_path(p) && crate::path::wire_path(q),
        CommandView::Restart(_) => true,
        CommandView::Retrieve(p) => crate::path::wire_path(p),
        CommandView::Store(p) => crate::path::wire_path(p),
        CommandView::Append(p) => crate::path::wire_path(p),
        CommandView::Site(_) => true,
    }
}

/// Every path in a command that an operation sends can go over the wire, whatever the transcript.
pub proof fn law_commands_carry_valid_paths(
    path: Seq<u8>,
    other: Seq<u8>,
    offset: Option<u64>,
    t: TranscriptView,
)
    ensures
        create_dir_step(path, t) matches StepView::Send(c) ==> valid_command(c),
        remove_file_step(path, t) matches StepView::Send(c) ==> valid_command(c),
        remove_dir_step(path, t) matches StepView::Send(c) ==> valid_command(c),
        rename_step(path, other, t) matches StepView::Send(c) ==> valid_command(c),
        create_step(path, t) matches StepView::Send(c) ==> valid_command(c),
        append_step(path, t) matches StepView::Send(c) ==> valid_command(c),
        open_step(path, offset, t) matches StepView::Send(c) ==> valid_command(c),
{
}

/// Every listing that an operation asks for is that of a path which can go over the wire, whatever
/// the transcript.
pub proof fn law_operations_ask_for_valid_paths(
    path: Seq<u8>,
    other: Seq<u8>,
    offset: Option<u64>,
    t: TranscriptView,
)
    ensures
        create_dir_step(path, t) matches StepView::Look(a) ==> valid_ask(a),
        remove_file_step(path, t) matches StepView::Look(a) ==> valid_ask(a),
        remove_dir_step(path, t) matches StepView::Look(a) ==> valid_ask(a),
        rename_step(path, other, t) matches StepView::Look(a) ==> valid_ask(a),
        create_step(path, t) matches StepView::Look(a) ==> valid_ask(a),
        append_step(path, t) matches StepView::Look(a) ==> valid_ask(a),
        open_step(path, offset, t) matches StepView::Look(a) ==> valid_ask(a),
        stat_step(path, t.answers) matches StepView::Look(a) ==> valid_ask(a),
        list_dir_step(path, t.answers) matches StepView::Look(a) ==> valid_ask(a),
{
    if wire_form(path) is Ok {
        let p = wire_form(path)->Ok_0;
        law_lookups_ask_for_valid_paths(p, t.answers, 0);
        if first_refusal(t) is Some {
            law_classification_asks_for_valid_paths(p, p, first_refusal(t)->0, t.answers, 0);
            if wire_form(other) is Ok {
                let q = wire_form(other)->Ok_0;
                law_classification_asks_for_valid_paths(p, q, first_refusal(t)->0, t.answers, 0);
            }
        }
        if let SetupView::Refused(err) = open_setup(p, start_of(offset), t.replies) {
            law_classification_asks_for_valid_paths(p, p, err, t.answers, 0);
        }
    }
}

} // verus!
