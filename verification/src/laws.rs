//! What the operations are for, in terms of what goes in and what comes out.
//!
//! Every law here is stated over inputs and results. Where it needs a word of its own, the word is
//! defined here, for laws alone.
use crate::error::{
    ambiguous_refusal, creation_refusal, desynchronizes, ftp_failure, ftp_kind, io_failure, io_kind,
    needs_reconnect, CauseView, ErrorView, FtpError, FtpErrorView, IoError, IoErrorKind, IoErrorView,
    ParseError, RemoteErrorType, ResponseView,
};
use crate::file::FileView;
use crate::guard::TransferFlags;
use crate::list::{
    all_digits, arrow_at, block_count, byte_fields, counted_row, date_end, decoded_lines,
    dos_boundary_doubt, dos_entry, dos_row, dos_time_end, entry_of, fields, find_pair,
    gives_listing, hides_whitespace, holds_wide_whitespace, is_listing, is_listing_at, is_parsed,
    kept_line, line_feed, lines_from, listing_to, name_doubt, next_blank, next_text, normalized_row,
    only_whitespace, parse_outcome, parse_outcome_at, posix_boundary_doubt, posix_entry, quoted,
    row_entry, several_arrows, strip_return, trim_commas, ListedView,
};
use crate::path::{child_name_on, join_path, Platform};
use crate::stream::{
    after_cleanup, ftp_outcome, io_outcome, read_finishes, read_limit, read_settled, skip_settled,
    spends, write_finishes, write_settled,
};
use crate::text::{
    ascii_control_char, ascii_whitespace_char, byte_column, char_width, decimal, lemma_column_bounds,
    lemma_column_step, trim_end, unicode_whitespace, wide_whitespace,
};
use vstd::prelude::*;
use vstd::utf8::*;

verus! {

// ---------------------------------------------------------------------------------------------
// Numbers and texts
// ---------------------------------------------------------------------------------------------

/// The number that decimal digits stand for.
pub open spec fn number_of(digits: Seq<char>) -> int
    decreases digits.len(),
{
    if digits.len() == 0 {
        0
    } else {
        10 * number_of(digits.drop_last()) + (digits.last() as int - '0' as int)
    }
}

/// The digits of a number stand for that number, and no zero leads them.
pub proof fn law_digits_stand_for_the_number(n: nat)
    ensures
        number_of(decimal(n)) == n,
        decimal(n).len() > 0,
        forall|i: int| 0 <= i < decimal(n).len() ==> '0' <= #[trigger] decimal(n)[i] <= '9',
        n > 0 ==> decimal(n)[0] != '0',
    decreases n,
{
    reveal_with_fuel(number_of, 2);
    let d = decimal(n);
    if n >= 10 {
        law_digits_stand_for_the_number(n / 10);
        assert(d.drop_last() == decimal(n / 10));
        assert(d[0] == decimal(n / 10)[0]);
        assert forall|i: int| 0 <= i < d.len() implies '0' <= #[trigger] d[i] <= '9' by {
            if i < d.len() - 1 {
                assert(d[i] == decimal(n / 10)[i]);
            }
        }
    } else {
        assert(d.drop_last() == Seq::<char>::empty());
    }
}

/// Trimming cuts whitespace off the end, all of it, and nothing else.
pub proof fn law_trimming_cuts_trailing_whitespace(s: Seq<char>)
    ensures
        trim_end(s).len() <= s.len(),
        trim_end(s) == s.take(trim_end(s).len() as int),
        forall|i: int| trim_end(s).len() <= i < s.len() ==> unicode_whitespace(#[trigger] s[i]),
        trim_end(s).len() > 0 ==> !unicode_whitespace(trim_end(s).last()),
    decreases s.len(),
{
    if s.len() > 0 && unicode_whitespace(s.last()) {
        let t = s.drop_last();
        law_trimming_cuts_trailing_whitespace(t);
        assert(t.take(trim_end(t).len() as int) == s.take(trim_end(t).len() as int));
        assert forall|i: int| trim_end(s).len() <= i < s.len() implies unicode_whitespace(
            #[trigger] s[i],
        ) by {
            if i < t.len() {
                assert(t[i] == s[i]);
            }
        }
    } else {
        assert(s.take(s.len() as int) == s);
    }
}

/// Which characters count as padding, which as whitespace, and which as whitespace that is no padding:
/// padding is a space, a tab, a line feed, a form feed or a carriage return; whitespace is all that
/// Unicode calls so, 25 characters.
pub proof fn law_characters_have_their_classes(c: char)
    ensures
        ascii_whitespace_char(c) <==> c == '\u{20}' || c == '\u{9}' || c == '\u{a}' || c == '\u{c}' || c
            == '\u{d}',
        unicode_whitespace(c) <==> c == '\u{9}' || c == '\u{a}' || c == '\u{b}' || c == '\u{c}' || c
            == '\u{d}' || c == '\u{20}' || c == '\u{85}' || c == '\u{a0}' || c == '\u{1680}' || c
            == '\u{2000}' || c == '\u{2001}' || c == '\u{2002}' || c == '\u{2003}' || c == '\u{2004}'
            || c == '\u{2005}' || c == '\u{2006}' || c == '\u{2007}' || c == '\u{2008}' || c
            == '\u{2009}' || c == '\u{200a}' || c == '\u{2028}' || c == '\u{2029}' || c == '\u{202f}'
            || c == '\u{205f}' || c == '\u{3000}',
        wide_whitespace(c) <==> unicode_whitespace(c) && !ascii_whitespace_char(c),
        ascii_control_char(c) <==> c < '\u{20}' || c == '\u{7f}',
{
}

/// Characters take one to four bytes in UTF-8.
pub proof fn law_columns_count_bytes(s: Seq<char>, c: char)
    ensures
        byte_column(s, s.len() as int) == encode_utf8(s).len(),
        char_width(c) == encode_utf8(seq![c]).len(),
{
    assert(s.take(s.len() as int) == s);
    let one = seq![c];
    lemma_column_step(one, 0);
    lemma_column_bounds(one, 0, 1);
}

/// A date that is not before 1970 is its timestamp, and one before counts as 1970.
pub proof fn law_dates_count_from_1970(timestamp: i64)
    ensures
        timestamp >= 0 ==> crate::parser::epoch_seconds(timestamp) == timestamp,
        timestamp < 0 ==> crate::parser::epoch_seconds(timestamp) == 0,
{
}

// ---------------------------------------------------------------------------------------------
// Errors
// ---------------------------------------------------------------------------------------------

/// What the server's refusal means, code by code.
pub proof fn law_reply_codes_have_their_kinds(response: ResponseView)
    ensures
        ({
            let kind = ftp_kind(FtpErrorView::UnexpectedResponse(response));
            let code = response.status;
            &&& code == 421 || code == 425 || code == 426 <==> kind is ConnectionError
            &&& code == 530 <==> kind is AuthenticationFailed
            &&& code == 532 || code == 553 <==> kind is PermissionDenied
            &&& code == 550 <==> kind is NoSuchFileOrDirectory
            &&& code == 500 || code == 501 || code == 502 || code == 504
                <==> kind is UnsupportedFeature
            &&& kind is ConnectionError || kind is AuthenticationFailed || kind is PermissionDenied
                || kind is NoSuchFileOrDirectory || kind is UnsupportedFeature
                || kind is ProtocolError
        }),
{
}

/// What a failure that is no refusal means: trouble with the transport or with TLS is trouble with
/// the connection, a bad address is a bad address, and the rest breaches the protocol.
pub proof fn law_other_failures_have_their_kinds(e: IoErrorView, text: Seq<char>)
    ensures
        ftp_kind(FtpErrorView::ConnectionError(e)) is ConnectionError,
        ftp_kind(FtpErrorView::SecureError(text)) is ConnectionError,
        ftp_kind(FtpErrorView::InvalidAddress(text)) is BadAddress,
        ftp_kind(FtpErrorView::BadResponse) is ProtocolError,
        ftp_kind(FtpErrorView::DataConnectionAlreadyOpen) is ProtocolError,
{
}

/// A reported FTP or I/O failure is of its kind and has the failure itself as its cause.
pub proof fn law_reported_failures_hold_the_failure(err: FtpErrorView, e: IoErrorView)
    ensures
        ftp_failure(err).kind == ftp_kind(err),
        ftp_failure(err).source == Some(CauseView::Ftp(err)),
        io_failure(e).kind == io_kind(e.kind),
        io_failure(e).source == Some(CauseView::Io(e)),
{
}

/// What an I/O failure means.
pub proof fn law_io_failures_have_their_kinds()
    ensures
        io_kind(IoErrorKind::NotFound) is NoSuchFileOrDirectory,
        io_kind(IoErrorKind::PermissionDenied) is PermissionDenied,
        io_kind(IoErrorKind::AlreadyExists) is AlreadyExists,
        io_kind(IoErrorKind::NotConnected) is NotConnected,
        io_kind(IoErrorKind::InvalidInput) is InvalidPath,
        io_kind(IoErrorKind::Unsupported) is UnsupportedFeature,
        io_kind(IoErrorKind::DirectoryNotEmpty) is DirectoryNotEmpty,
        io_kind(IoErrorKind::ConnectionRefused) is ConnectionError,
        io_kind(IoErrorKind::ConnectionReset) is ConnectionError,
        io_kind(IoErrorKind::ConnectionAborted) is ConnectionError,
        io_kind(IoErrorKind::Other) is IoError,
{
}

/// A refusal has been read whole, so the connection goes on, unless the server closed it with a 421;
/// after any other failure replies may be left unread.
pub proof fn law_only_refusals_keep_the_connection(err: FtpErrorView)
    ensures
        !desynchronizes(err) <==> err is UnexpectedResponse
            && err->UnexpectedResponse_0.status != 421,
{
}

/// A creation or rename is refused for its path with a 550 or a 553, and with nothing else.
pub proof fn law_creations_are_refused_for_their_path(err: FtpErrorView)
    ensures
        creation_refusal(err) <==> err is UnexpectedResponse && (
        err->UnexpectedResponse_0.status == 550 || err->UnexpectedResponse_0.status == 553),
{
}

/// What a failure goes back to is found through whatever refines it, and in a pair of failures of
/// one transfer through the one of the completion reply. A failure without a cause, or with one that
/// is no FTP failure, goes back to none.
pub proof fn law_causes_are_followed(kind: RemoteErrorType, e: ErrorView, other: ErrorView)
    ensures
        ({
            let wrap = |cause: CauseView| ErrorView { kind, source: Some(cause) };
            let none = ErrorView { kind, source: None };
            let a = Box::new(other);
            let b = Box::new(e);
            &&& none.first_ftp() is None
            &&& none.first_reply() is None
            &&& forall|m: Seq<char>| #[trigger] wrap(CauseView::Message(m)).first_ftp() is None
            &&& forall|i: IoErrorView| #[trigger] wrap(CauseView::Io(i)).first_ftp() is None
            &&& forall|p: ParseError| #[trigger] wrap(CauseView::List(p)).first_ftp() is None
            &&& forall|m: Seq<char>| #[trigger] wrap(CauseView::Message(m)).first_reply() is None
            &&& forall|i: IoErrorView| #[trigger] wrap(CauseView::Io(i)).first_reply() is None
            &&& forall|p: ParseError| #[trigger] wrap(CauseView::List(p)).first_reply() is None
            &&& wrap(CauseView::Remote(b)).first_ftp() == e.first_ftp()
            &&& wrap(CauseView::ListCleanup { read: a, finish: b }).first_ftp() == e.first_ftp()
            &&& wrap(CauseView::ReadCleanup { drain: a, finish: b }).first_ftp() == e.first_ftp()
            &&& wrap(CauseView::SkipCleanup { skip: a, finish: b }).first_ftp() == e.first_ftp()
            &&& wrap(CauseView::WriteCleanup { flush: a, finish: b }).first_ftp() == e.first_ftp()
            &&& wrap(CauseView::Remote(b)).first_reply() == e.first_reply()
            &&& wrap(CauseView::ListCleanup { read: a, finish: b }).first_reply() == e.first_reply()
            &&& wrap(CauseView::ReadCleanup { drain: a, finish: b }).first_reply()
                == e.first_reply()
            &&& wrap(CauseView::SkipCleanup { skip: a, finish: b }).first_reply() == e.first_reply()
            &&& wrap(CauseView::WriteCleanup { flush: a, finish: b }).first_reply()
                == e.first_reply()
        }),
{
    reveal_with_fuel(ErrorView::first_ftp, 3);
    reveal_with_fuel(CauseView::first_ftp, 3);
    reveal_with_fuel(ErrorView::first_reply, 3);
    reveal_with_fuel(CauseView::first_reply, 3);
}

/// An FTP failure goes back to itself and, where it is a refusal, to its reply code. Whether to
/// reconnect is decided by the FTP failure it goes back to, and without one by its kind; whether a
/// refusal is ambiguous, by the code 550.
pub proof fn law_failures_are_judged_by_their_cause(
    kind: RemoteErrorType,
    err: FtpErrorView,
    e: ErrorView,
)
    ensures
        ErrorView::ftp(kind, err).first_ftp() == Some(err),
        ErrorView::ftp(kind, err).first_reply() == if err is UnexpectedResponse {
            Some(err->UnexpectedResponse_0.status)
        } else {
            None
        },
        e.first_ftp() is Some ==> needs_reconnect(e) == desynchronizes(e.first_ftp()->0),
        e.first_ftp() is None ==> (needs_reconnect(e) <==> e.kind is ConnectionError),
        ambiguous_refusal(e) <==> e.first_reply() == Some(550u32),
{
    reveal_with_fuel(ErrorView::first_ftp, 3);
    reveal_with_fuel(CauseView::first_ftp, 3);
    reveal_with_fuel(ErrorView::first_reply, 3);
    reveal_with_fuel(CauseView::first_reply, 3);
}

/// What the four ways to make a failure make.
pub proof fn law_failures_are_made_of_their_parts(
    kind: RemoteErrorType,
    message: Seq<char>,
    err: FtpErrorView,
    e: ErrorView,
)
    ensures
        ErrorView::plain(kind).kind == kind,
        ErrorView::plain(kind).source is None,
        ErrorView::message(kind, message).kind == kind,
        ErrorView::message(kind, message).source == Some(CauseView::Message(message)),
        ErrorView::ftp(kind, err).kind == kind,
        ErrorView::ftp(kind, err).source == Some(CauseView::Ftp(err)),
        ErrorView::remote(kind, e).kind == kind,
        ErrorView::remote(kind, e).source == Some(CauseView::Remote(Box::new(e))),
{
}

/// The text of a failure is that of its kind, with that of its cause in brackets where it has one; the
/// text of a pair of failures tells both, the first one first.
pub proof fn law_texts_tell_kind_and_cause(e: ErrorView, first: ErrorView, second: ErrorView)
    ensures
        e.source is None ==> e.text() == e.kind.text(),
        e.source is Some ==> e.text() == e.kind.text() + " ("@ + e.source->0.text() + ")"@,
        forall|m: Seq<char>| #[trigger] CauseView::Message(m).text() == m,
        forall|i: IoErrorView| #[trigger] CauseView::Io(i).text() == i.message,
        forall|f: FtpErrorView| #[trigger] CauseView::Ftp(f).text() == f.text(),
        CauseView::List(ParseError::SyntaxError).text() == "Syntax error: invalid line"@,
        CauseView::List(ParseError::InvalidDate).text() == "Invalid date"@,
        CauseView::List(ParseError::BadSize).text() == "Bad file size"@,
        CauseView::Remote(Box::new(first)).text() == first.text(),
        ({
            let a = Box::new(first);
            let b = Box::new(second);
            let list = CauseView::ListCleanup { read: a, finish: b }.text();
            let read = CauseView::ReadCleanup { drain: a, finish: b }.text();
            let skip = CauseView::SkipCleanup { skip: a, finish: b }.text();
            let write = CauseView::WriteCleanup { flush: a, finish: b }.text();
            let end = "; finalization failed: "@ + second.text();
            &&& list == "LIST read failed: "@ + first.text() + ("; completion failed: "@
                + second.text())
            &&& read == "drain failed: "@ + first.text() + end
            &&& skip == "prefix skip failed: "@ + first.text() + end
            &&& write == "flush failed: "@ + first.text() + end
        }),
{
    reveal_with_fuel(ErrorView::text, 2);
    reveal_with_fuel(CauseView::text, 2);
}

/// How each kind of failure is described.
pub proof fn law_kinds_have_their_texts()
    ensures
        RemoteErrorType::AlreadyConnected.text() == "already connected"@,
        RemoteErrorType::NotConnected.text() == "not connected yet"@,
        RemoteErrorType::AuthenticationFailed.text() == "authentication failed"@,
        RemoteErrorType::BadAddress.text() == "bad address syntax"@,
        RemoteErrorType::ConnectionError.text() == "connection error"@,
        RemoteErrorType::AlreadyExists.text() == "already exists"@,
        RemoteErrorType::BadFile.text() == "bad file"@,
        RemoteErrorType::DirectoryNotEmpty.text() == "directory is not empty"@,
        RemoteErrorType::IoError.text() == "IO error"@,
        RemoteErrorType::NoSuchFileOrDirectory.text() == "no such file or directory"@,
        RemoteErrorType::PermissionDenied.text() == "not enough permissions"@,
        RemoteErrorType::InvalidPath.text() == "invalid path"@,
        RemoteErrorType::ProtocolError.text() == "protocol error"@,
        RemoteErrorType::UnsupportedFeature.text() == "unsupported feature"@,
{
}

/// The text of an FTP failure tells what the failure holds: the message, or the code of the reply in
/// brackets and then its text, where it is one, without trailing whitespace.
pub proof fn law_texts_tell_the_reply(err: FtpErrorView)
    ensures
        err matches FtpErrorView::ConnectionError(e) ==> err.text() == "Connection error: "@
            + e.message,
        err matches FtpErrorView::SecureError(m) ==> err.text() == "Secure error: "@ + m,
        err matches FtpErrorView::InvalidAddress(m) ==> err.text() == "Invalid address: "@ + m,
        err is BadResponse ==> err.text() == "Response contains an invalid syntax"@,
        err is DataConnectionAlreadyOpen ==> err.text() == "Data connection is already open"@,
        err matches FtpErrorView::UnexpectedResponse(r) ==> {
            let code = "Invalid response: ["@ + decimal(r.status as nat) + "] "@;
            &&& valid_utf8(r.body) ==> err.text() == code + trim_end(decode_utf8(r.body))
            &&& !valid_utf8(r.body) ==> err.text() == code
            &&& err.text() == "Invalid response: "@ + r.text()
        },
{
    if let FtpErrorView::UnexpectedResponse(r) = err {
        let code = "Invalid response: ["@ + decimal(r.status as nat) + "] "@;
        reveal_strlit("Invalid response: [");
        reveal_strlit("Invalid response: ");
        reveal_strlit("[");
        assert("Invalid response: ["@ =~= "Invalid response: "@ + "["@);
        if valid_utf8(r.body) {
            assert(err.text() =~= code + trim_end(decode_utf8(r.body)));
        } else {
            assert(err.text() =~= code);
        }
    }
}

// ---------------------------------------------------------------------------------------------
// Entries
// ---------------------------------------------------------------------------------------------

/// An entry is a directory or a regular file by its type, and never both.
pub proof fn law_entries_are_what_their_type_says(f: FileView)
    ensures
        f.is_dir() <==> f.metadata.file_type is Directory,
        f.is_file() <==> f.metadata.file_type is File,
{
}

// ---------------------------------------------------------------------------------------------
// Streams
// ---------------------------------------------------------------------------------------------

/// A read asks for as much as there is room and budget for, no less and no more, and takes exactly
/// what it returns from the budget.
pub proof fn law_reads_use_room_and_budget(
    remaining: Option<u64>,
    room: int,
    n: int,
    after: Option<u64>,
)
    ensures
        remaining is None ==> read_limit(remaining, room) == room,
        remaining is Some ==> read_limit(remaining, room) <= remaining->0,
        read_limit(remaining, room) <= room,
        remaining is Some ==> read_limit(remaining, room) == remaining->0 || read_limit(
            remaining,
            room,
        ) == room,
        spends(remaining, n, after) <==> match remaining {
            None => after is None,
            Some(budget) => after is Some && after->0 == budget - n,
        },
{
}

/// What ending a transfer reports: nothing where nothing failed, the one failure where one did, and
/// where two did both of them, neither lost.
pub proof fn law_ended_transfers_keep_both_failures(
    first: IoErrorView,
    finish: FtpErrorView,
    skip: ErrorView,
    end: ErrorView,
)
    ensures
        read_settled(None, None) is None,
        read_settled(Some(first), None) == Some(io_failure(first)),
        read_settled(None, Some(finish)) == Some(ftp_failure(finish)),
        read_settled(Some(first), Some(finish))->0.source == Some(
            CauseView::ReadCleanup {
                drain: Box::new(io_failure(first)),
                finish: Box::new(ftp_failure(finish)),
            },
        ),
        read_settled(Some(first), Some(finish))->0.kind == io_kind(first.kind),
        write_settled(None, None) is None,
        write_settled(Some(first), None) == Some(io_failure(first)),
        write_settled(None, Some(finish)) == Some(ftp_failure(finish)),
        write_settled(Some(first), Some(finish))->0.source == Some(
            CauseView::WriteCleanup {
                flush: Box::new(io_failure(first)),
                finish: Box::new(ftp_failure(finish)),
            },
        ),
        write_settled(Some(first), Some(finish))->0.kind == ftp_kind(finish),
        skip_settled(skip, None) == skip,
        skip_settled(skip, Some(end)).kind == skip.kind,
        skip_settled(skip, Some(end)).source == Some(
            CauseView::SkipCleanup { skip: Box::new(skip), finish: Box::new(end) },
        ),
{
}

/// Whether a download ended so: it was drained unless it was at its end, its completion reply was read
/// in any case, from what draining left, and both outcomes are reported.
pub open spec fn download_ended<R, D, F>(
    inner: R,
    at_eof: bool,
    drain: D,
    finalize: F,
    r: Option<ErrorView>,
    rest: R,
    drained: Result<(), IoError>,
    finished: Result<(), FtpError>,
) -> bool where D: FnOnce(R) -> (R, Result<(), IoError>), F: FnOnce(R) -> Result<(), FtpError> {
    &&& call_ensures(finalize, (rest,), finished)
    &&& at_eof ==> rest == inner && drained is Ok
    &&& !at_eof ==> call_ensures(drain, (inner,), (rest, drained))
    &&& r is None <==> drained is Ok && finished is Ok
    &&& drained is Err && finished is Ok ==> r == Some(io_failure(drained->Err_0@))
    &&& drained is Ok && finished is Err ==> r == Some(ftp_failure(finished->Err_0@))
    &&& drained is Err && finished is Err ==> r->0.source == Some(
        CauseView::ReadCleanup {
            drain: Box::new(io_failure(drained->Err_0@)),
            finish: Box::new(ftp_failure(finished->Err_0@)),
        },
    )
}

/// Ending a download drains it unless it is at its end, reads the completion reply in any case, from
/// what draining left, and succeeds exactly where both did.
pub proof fn law_ending_a_download_drains_it<R, D, F>(
    inner: R,
    at_eof: bool,
    drain: D,
    finalize: F,
    r: Option<ErrorView>,
) where D: FnOnce(R) -> (R, Result<(), IoError>), F: FnOnce(R) -> Result<(), FtpError>
    requires
        read_finishes(inner, at_eof, drain, finalize, r),
    ensures
        exists|rest: R, drained: Result<(), IoError>, finished: Result<(), FtpError>| #[trigger]
            download_ended(inner, at_eof, drain, finalize, r, rest, drained, finished),
{
    let (rest, drained, finished) = choose|
        rest: R,
        drained: Result<(), IoError>,
        finished: Result<(), FtpError>,
    |
        {
            &&& if at_eof {
                rest == inner && drained is Ok
            } else {
                call_ensures(drain, (inner,), (rest, drained))
            }
            &&& #[trigger] call_ensures(finalize, (rest,), finished)
            &&& r == #[trigger] read_settled(io_outcome(drained), ftp_outcome(finished))
        };
    assert(download_ended(inner, at_eof, drain, finalize, r, rest, drained, finished));
}

/// Whether a call on a connection can leave `rest` of it with this outcome.
pub open spec fn ends_so<R, D>(call: D, inner: R, rest: R, outcome: Result<(), IoError>) -> bool where
    D: FnOnce(R) -> (R, Result<(), IoError>),
 {
    call_ensures(call, (inner,), (rest, outcome))
}

/// Ending an upload flushes it, reads the completion reply in any case, from what flushing left, and
/// succeeds exactly where both did.
pub proof fn law_ending_an_upload_flushes_it<W, U, F>(
    inner: W,
    flush: U,
    finalize: F,
    r: Option<ErrorView>,
) where U: FnOnce(W) -> (W, Result<(), IoError>), F: FnOnce(W) -> Result<(), FtpError>
    requires
        write_finishes(inner, flush, finalize, r),
    ensures
        exists|rest: W, flushed: Result<(), IoError>, finished: Result<(), FtpError>|
            {
                &&& #[trigger] call_ensures(finalize, (rest,), finished)
                &&& #[trigger] ends_so(flush, inner, rest, flushed)
                &&& r is None <==> flushed is Ok && finished is Ok
                &&& flushed is Err && finished is Ok ==> r == Some(io_failure(flushed->Err_0@))
                &&& flushed is Ok && finished is Err ==> r == Some(ftp_failure(finished->Err_0@))
                &&& flushed is Err && finished is Err ==> r->0.source == Some(
                    CauseView::WriteCleanup {
                        flush: Box::new(io_failure(flushed->Err_0@)),
                        finish: Box::new(ftp_failure(finished->Err_0@)),
                    },
                )
            },
{
    let (rest, flushed, finished) = choose|
        rest: W,
        flushed: Result<(), IoError>,
        finished: Result<(), FtpError>,
    |
        {
            &&& #[trigger] call_ensures(flush, (inner,), (rest, flushed))
            &&& #[trigger] call_ensures(finalize, (rest,), finished)
            &&& r == write_settled(io_outcome(flushed), ftp_outcome(finished))
        };
    assert(call_ensures(finalize, (rest,), finished));
    assert(ends_so(flush, inner, rest, flushed));
}

/// A cleanup that failed takes the connection with it, one that succeeded changes nothing, and
/// neither touches whether a transfer is active.
pub proof fn law_failed_cleanups_cost_the_connection(flags: TransferFlags, outcome: Option<ErrorView>)
    ensures
        after_cleanup(flags, outcome).active == flags.active,
        after_cleanup(flags, outcome).connection_usable <==> flags.connection_usable
            && outcome is None,
{
}

// ---------------------------------------------------------------------------------------------
// Listings
// ---------------------------------------------------------------------------------------------

/// Whether a row is `total` with a number, which is no entry.
pub open spec fn total_line(s: Seq<char>) -> bool {
    &&& s.len() > 6
    &&& s[0] == 't' && s[1] == 'o' && s[2] == 't' && s[3] == 'a' && s[4] == 'l' && s[5] == ' '
    &&& forall|i: int| 6 <= i < s.len() ==> '0' <= #[trigger] s[i] <= '9'
}

/// Whether row `i` is left out before it is parsed: a total in front.
pub open spec fn left_out(i: int, line: Seq<char>) -> bool {
    i == 0 && total_line(line)
}

/// Whether a name is `.` or `..`.
pub open spec fn is_dots(name: Seq<char>) -> bool {
    name == seq!['.'] || name == seq!['.', '.']
}

/// The parsed rows among the first `n` that are entries: all but a total in front, `.` and `..`.
pub open spec fn entry_rows(
    lines: Seq<Seq<char>>,
    parsed: Seq<Result<ListedView, ParseError>>,
    n: int,
) -> Seq<ListedView>
    decreases n,
{
    if n <= 0 {
        Seq::empty()
    } else {
        let before = entry_rows(lines, parsed, n - 1);
        match parsed[n - 1] {
            Ok(row) if !left_out(n - 1, lines[n - 1]) && !is_dots(row.name) => before.push(row),
            _ => before,
        }
    }
}

/// A text below a directory; a text that starts with a slash stands for itself.
pub open spec fn below(dir: Seq<char>, text: Seq<char>) -> Seq<char> {
    if text.len() > 0 && text[0] == '/' {
        text
    } else if dir.len() == 0 || dir.last() == '/' {
        dir + text
    } else {
        dir + seq!['/'] + text
    }
}

/// Whether an entry tells everything that its row tells.
pub open spec fn tells(dir: Seq<char>, row: ListedView, file: FileView) -> bool {
    &&& file.path == below(dir, row.name)
    &&& row.symlink is Some ==> file.metadata.file_type is Symlink
    &&& row.symlink is None && row.directory ==> file.metadata.file_type is Directory
    &&& row.symlink is None && !row.directory ==> file.metadata.file_type is File
    &&& file.metadata.size == Some(row.size as u64)
    &&& file.metadata.modified == Some(row.modified)
    &&& file.metadata.uid == row.uid
    &&& file.metadata.gid == row.gid
    &&& row.symlink is Some ==> file.metadata.symlink == Some(below(dir, row.symlink->0))
    &&& row.symlink is None ==> file.metadata.symlink is None
    &&& file.metadata.mode is Some
    &&& file.metadata.mode->0.user.read == row.pex[0].0
    &&& file.metadata.mode->0.user.write == row.pex[0].1
    &&& file.metadata.mode->0.user.execute == row.pex[0].2
    &&& file.metadata.mode->0.group.read == row.pex[1].0
    &&& file.metadata.mode->0.group.write == row.pex[1].1
    &&& file.metadata.mode->0.group.execute == row.pex[1].2
    &&& file.metadata.mode->0.others.read == row.pex[2].0
    &&& file.metadata.mode->0.others.write == row.pex[2].1
    &&& file.metadata.mode->0.others.execute == row.pex[2].2
}

/// Whether a name may be that of an entry: it leads neither up nor down nor out of the directory, and
/// holds no control character.
pub open spec fn safe_name(on: Platform, name: Seq<char>) -> bool {
    &&& name.len() > 0
    &&& !is_dots(name)
    &&& !name.contains('/')
    &&& forall|i: int| 0 <= i < name.len() ==> ' ' <= #[trigger] name[i] && name[i] != '\u{7f}'
    &&& on is Windows ==> !name.contains('\\')
    &&& on is Windows ==> !(name.len() > 1 && name[1] == ':' && ('A' <= name[0] <= 'Z' || 'a'
        <= name[0] <= 'z'))
}

/// Exactly the safe names are accepted as children.
pub proof fn law_safe_names_are_children(on: Platform, name: Seq<char>)
    ensures
        child_name_on(on, name) <==> safe_name(on, name),
{
    if child_name_on(on, name) {
        assert(!name.contains('/'));
    } else if safe_name(on, name) {
        assert forall|i: int| 0 <= i < name.len() implies #[trigger] name[i] != '/' by {
            assert(name.contains(name[i]));
        }
    }
}

/// Exactly a total is skipped in front of a listing.
pub proof fn law_totals_are_skipped(s: Seq<char>)
    ensures
        block_count(s) <==> total_line(s),
{
    reveal_strlit("total ");
    if s.len() > 6 {
        let head = s.take(6);
        if total_line(s) {
            assert(head =~= "total "@);
            assert forall|i: int| 0 <= i < s.skip(6).len() implies '0' <= #[trigger] s.skip(
                6,
            )[i] <= '9' by {
                assert(s[i + 6] == s.skip(6)[i]);
            }
        }
        if block_count(s) {
            assert(head[0] == 't' && head[1] == 'o' && head[2] == 't' && head[3] == 'a' && head[4]
                == 'l' && head[5] == ' ');
            assert forall|i: int| 6 <= i < s.len() implies '0' <= #[trigger] s[i] <= '9' by {
                assert(s.skip(6)[i - 6] == s[i]);
            }
        }
    }
}

/// What a parsed row adds to a listing: nothing where it is `.` or `..`, one entry that tells
/// everything the row tells where its name is safe, and otherwise a failure that shows the name. A row
/// that did not parse is a failure too.
pub proof fn law_each_row_gives_its_entry(
    on: Platform,
    path: Seq<char>,
    row: ListedView,
    error: ParseError,
)
    ensures
        is_dots(row.name) ==> entry_of(on, path, Ok(row)) == Ok::<Option<FileView>, ErrorView>(None),
        safe_name(on, row.name) ==> {
            &&& entry_of(on, path, Ok(row)) is Ok
            &&& entry_of(on, path, Ok(row))->Ok_0 is Some
            &&& tells(path, row, entry_of(on, path, Ok(row))->Ok_0->0)
        },
        !is_dots(row.name) && !safe_name(on, row.name) ==> entry_of(on, path, Ok(row)) == Err::<
            Option<FileView>,
            ErrorView,
        >(
            ErrorView::message(
                RemoteErrorType::ProtocolError,
                "LIST returned an unsafe child name: "@ + quoted(row.name),
            ),
        ),
        entry_of(on, path, Err(error)) == Err::<Option<FileView>, ErrorView>(
            ErrorView {
                kind: RemoteErrorType::ProtocolError,
                source: Some(CauseView::List(error)),
            },
        ),
{
    law_safe_names_are_children(on, row.name);
    lemma_below(path, row.name);
    if row.symlink is Some {
        lemma_below(path, row.symlink->0);
    }
}

/// Whether a listing holds everything that its rows hold: every row but a total in front was read
/// without doubt and parsed, at its time, and every parsed row but `.` and `..` gave one entry, in
/// order, that tells everything the row tells.
pub open spec fn complete(
    on: Platform,
    path: Seq<char>,
    lines: Seq<Seq<char>>,
    times: Seq<int>,
    parsed: Seq<Result<ListedView, ParseError>>,
    files: Seq<FileView>,
) -> bool {
    let rows = entry_rows(lines, parsed, lines.len() as int);
    &&& times.len() == lines.len()
    &&& parsed.len() == lines.len()
    &&& forall|i: int|
        #![trigger parsed[i]]
        0 <= i < lines.len() && !left_out(i, lines[i]) ==> {
            &&& name_doubt(lines[i]) is None
            &&& parsed[i] is Ok
            &&& parse_outcome_at(lines[i], times[i], parsed[i])
        }
    &&& files.len() == rows.len()
    &&& forall|i: int| 0 <= i < files.len() ==> tells(path, rows[i], #[trigger] files[i])
    &&& forall|i: int| 0 <= i < rows.len() ==> safe_name(on, (#[trigger] rows[i]).name)
}

/// A listing is complete and exact: no entry is missing, none is made up, and each has the name, the
/// place and the metadata that its row gives.
pub proof fn law_listings_are_complete(
    on: Platform,
    path: Seq<char>,
    lines: Seq<Seq<char>>,
    files: Seq<FileView>,
)
    requires
        is_listing(on, path, lines, Ok(files)),
    ensures
        exists|times: Seq<int>, parsed: Seq<Result<ListedView, ParseError>>| #[trigger]
            complete(on, path, lines, times, parsed, files),
{
    let times = choose|times: Seq<int>| #[trigger]
        is_listing_at(on, path, lines, times, Ok(files));
    let parsed = choose|parsed: Seq<Result<ListedView, ParseError>>| #[trigger]
        gives_listing(on, path, lines, times, parsed, Ok(files));
    lemma_complete(on, path, lines, parsed, lines.len() as int);
    assert forall|i: int|
        #![trigger parsed[i]]
        0 <= i < lines.len() && !left_out(i, lines[i]) implies {
        &&& name_doubt(lines[i]) is None
        &&& parsed[i] is Ok
        &&& parse_outcome_at(lines[i], times[i], parsed[i])
    } by {
        law_totals_are_skipped(lines[i]);
        assert(is_parsed(i, lines[i]));
    }
    assert(complete(on, path, lines, times, parsed, files));
}

/// The first rows of a listing give complete entries.
proof fn lemma_complete(
    on: Platform,
    path: Seq<char>,
    lines: Seq<Seq<char>>,
    parsed: Seq<Result<ListedView, ParseError>>,
    n: int,
)
    requires
        n <= lines.len(),
        n <= parsed.len(),
        listing_to(on, path, lines, parsed, n) is Ok,
    ensures
        ({
            let files = listing_to(on, path, lines, parsed, n)->Ok_0;
            let rows = entry_rows(lines, parsed, n);
            &&& files.len() == rows.len()
            &&& forall|i: int| 0 <= i < files.len() ==> tells(path, rows[i], #[trigger] files[i])
            &&& forall|i: int| 0 <= i < rows.len() ==> safe_name(on, (#[trigger] rows[i]).name)
            &&& forall|i: int|
                #![trigger parsed[i]]
                0 <= i < n && !left_out(i, lines[i]) ==> parsed[i] is Ok && name_doubt(lines[i]) is None
        }),
    decreases n,
{
    if n > 0 {
        lemma_complete(on, path, lines, parsed, n - 1);
        law_totals_are_skipped(lines[n - 1]);
        if !left_out(n - 1, lines[n - 1]) {
            let row = parsed[n - 1]->Ok_0;
            law_safe_names_are_children(on, row.name);
            lemma_below(path, row.name);
            if row.symlink is Some {
                lemma_below(path, row.symlink->0);
            }
        }
    }
}

/// Where a text stands below a directory.
proof fn lemma_below(dir: Seq<char>, text: Seq<char>)
    ensures
        join_path(dir, text) == below(dir, text),
{
    assert(dir.push('/') + text == dir + seq!['/'] + text);
}

/// A text is placed below a directory behind one slash, and one that starts with a slash stands for
/// itself.
pub proof fn law_joining_puts_one_slash_between(dir: Seq<char>, text: Seq<char>)
    ensures
        join_path(dir, text) == below(dir, text),
{
    lemma_below(dir, text);
}

/// Whether a listing fails at row `k` with `e`, and all rows before it are in order.
pub open spec fn fails_at(
    on: Platform,
    lines: Seq<Seq<char>>,
    times: Seq<int>,
    parsed: Seq<Result<ListedView, ParseError>>,
    k: int,
    e: ErrorView,
) -> bool {
    &&& 0 <= k < lines.len()
    &&& k < parsed.len() <= times.len()
    &&& !left_out(k, lines[k])
    &&& forall|i: int|
        #![trigger parsed[i]]
        0 <= i < k && !left_out(i, lines[i]) ==> {
            &&& name_doubt(lines[i]) is None
            &&& parsed[i] is Ok
            &&& parse_outcome_at(lines[i], times[i], parsed[i])
            &&& is_dots(parsed[i]->Ok_0.name) || safe_name(on, parsed[i]->Ok_0.name)
        }
    &&& match name_doubt(lines[k]) {
        Some(doubt) => e == doubt,
        None => parse_outcome_at(lines[k], times[k], parsed[k]) && match parsed[k] {
            Err(p) => e.kind is ProtocolError && e.source == Some(CauseView::List(p)),
            Ok(row) => {
                &&& !is_dots(row.name)
                &&& !safe_name(on, row.name)
                &&& e.kind is ProtocolError
                &&& e.source == Some(
                    CauseView::Message("LIST returned an unsafe child name: "@ + quoted(row.name)),
                )
            },
        },
    }
}

/// A listing fails only for a row that is in doubt, does not parse or has an unsafe name, and the
/// first such row is what it reports.
pub proof fn law_listings_fail_for_their_first_bad_row(
    on: Platform,
    path: Seq<char>,
    lines: Seq<Seq<char>>,
    e: ErrorView,
)
    requires
        is_listing(on, path, lines, Err(e)),
    ensures
        exists|times: Seq<int>, parsed: Seq<Result<ListedView, ParseError>>, k: int| #[trigger]
            fails_at(on, lines, times, parsed, k, e),
{
    let times = choose|times: Seq<int>| #[trigger] is_listing_at(on, path, lines, times, Err(e));
    let parsed = choose|parsed: Seq<Result<ListedView, ParseError>>| #[trigger]
        gives_listing(on, path, lines, times, parsed, Err(e));
    lemma_first_bad_row(on, path, lines, times, parsed, parsed.len() as int, e);
}

/// The first bad row among the first rows.
proof fn lemma_first_bad_row(
    on: Platform,
    path: Seq<char>,
    lines: Seq<Seq<char>>,
    times: Seq<int>,
    parsed: Seq<Result<ListedView, ParseError>>,
    n: int,
    e: ErrorView,
)
    requires
        crate::list::parsed_rows(lines, times, parsed),
        0 <= n <= parsed.len(),
        listing_to(on, path, lines, parsed, n) == Err::<Seq<FileView>, ErrorView>(e),
    ensures
        exists|k: int| #[trigger] fails_at(on, lines, times, parsed, k, e),
    decreases n,
{
    if n > 0 {
        if listing_to(on, path, lines, parsed, n - 1) is Err {
            lemma_first_bad_row(on, path, lines, times, parsed, n - 1, e);
        } else {
            let k = n - 1;
            lemma_complete(on, path, lines, parsed, k);
            law_totals_are_skipped(lines[k]);
            assert(row_entry(on, path, k, lines[k], parsed[k]) == Err::<
                Option<FileView>,
                ErrorView,
            >(e));
            assert forall|i: int|
                #![trigger parsed[i]]
                0 <= i < k && !left_out(i, lines[i]) implies {
                &&& name_doubt(lines[i]) is None
                &&& parsed[i] is Ok
                &&& parse_outcome_at(lines[i], times[i], parsed[i])
                &&& is_dots(parsed[i]->Ok_0.name) || safe_name(on, parsed[i]->Ok_0.name)
            } by {
                law_totals_are_skipped(lines[i]);
                assert(is_parsed(i, lines[i]));
                lemma_row_in_order(on, path, lines, parsed, k, i);
            }
            if name_doubt(lines[k]) is None {
                assert(is_parsed(k, lines[k]));
                if let Ok(row) = parsed[k] {
                    law_safe_names_are_children(on, row.name);
                }
            }
            assert(fails_at(on, lines, times, parsed, k, e));
        }
    }
}

/// A row in front of which and at which nothing failed has a name in order.
proof fn lemma_row_in_order(
    on: Platform,
    path: Seq<char>,
    lines: Seq<Seq<char>>,
    parsed: Seq<Result<ListedView, ParseError>>,
    n: int,
    i: int,
)
    requires
        0 <= i < n <= lines.len(),
        n <= parsed.len(),
        listing_to(on, path, lines, parsed, n) is Ok,
        !left_out(i, lines[i]),
    ensures
        parsed[i] is Ok,
        is_dots(parsed[i]->Ok_0.name) || safe_name(on, parsed[i]->Ok_0.name),
    decreases n,
{
    if i < n - 1 {
        lemma_row_in_order(on, path, lines, parsed, n - 1, i);
    } else {
        law_totals_are_skipped(lines[i]);
        law_safe_names_are_children(on, parsed[i]->Ok_0.name);
    }
}

/// Whether digits stand in `s` from `from` up to `m`, and commas, at least one, from there up to `to`.
pub open spec fn digits_and_commas(s: Seq<char>, from: int, m: int, to: int) -> bool {
    &&& from <= m < to
    &&& forall|i: int| from <= i < m ==> '0' <= #[trigger] s[i] <= '9'
    &&& forall|i: int| m <= i < to ==> #[trigger] s[i] == ','
}

/// Whether the fifth and sixth field of a row are the numbers of a device: digits and commas, and
/// digits.
pub open spec fn device_numbers(s: Seq<char>) -> bool {
    let f = fields(s);
    &&& f.len() > 5
    &&& exists|m: int| #[trigger] digits_and_commas(s, f[4].0, m, f[4].1)
    &&& forall|i: int| f[5].0 <= i < f[5].1 ==> '0' <= #[trigger] s[i] <= '9'
}

/// A row of a block or character device, whose size is two numbers, counts as one of size zero; every
/// other row is left as it is.
pub proof fn law_device_numbers_count_as_no_size(s: Seq<char>)
    ensures
        s.len() > 0 && (s[0] == 'b' || s[0] == 'c') && device_numbers(s) ==> normalized_row(s)
            == s.take(fields(s)[4].0) + seq!['0'] + s.skip(fields(s)[5].1),
        !(s.len() > 0 && (s[0] == 'b' || s[0] == 'c') && device_numbers(s)) ==> normalized_row(s)
            == s,
{
    let f = fields(s);
    if f.len() > 5 {
        crate::list::law_fields_are_runs(s);
        let major = s.subrange(f[4].0, f[4].1);
        let minor = s.subrange(f[5].0, f[5].1);
        lemma_trim_commas(major);
        let t = trim_commas(major);
        if major.last() == ',' && all_digits(t) && all_digits(minor) {
            let m = f[4].0 + t.len();
            assert forall|i: int| f[4].0 <= i < m implies '0' <= #[trigger] s[i] <= '9' by {
                assert(t[i - f[4].0] == major[i - f[4].0]);
            }
            assert forall|i: int| m <= i < f[4].1 implies #[trigger] s[i] == ',' by {
                assert(major[i - f[4].0] == ',');
            }
            assert forall|i: int| f[5].0 <= i < f[5].1 implies '0' <= #[trigger] s[i] <= '9' by {
                assert(minor[i - f[5].0] == s[i]);
            }
            assert(m < f[4].1) by {
                if t.len() == major.len() {
                    assert(t.last() == ',');
                }
            }
            assert(digits_and_commas(s, f[4].0, m, f[4].1));
        }
        if device_numbers(s) {
            let m = choose|m: int| #[trigger] digits_and_commas(s, f[4].0, m, f[4].1);
            assert(major.last() == s[f[4].1 - 1]);
            assert(t.len() <= m - f[4].0) by {
                if t.len() > m - f[4].0 {
                    assert(t.last() == s[f[4].0 + t.len() - 1]);
                }
            }
            assert forall|i: int| 0 <= i < t.len() implies '0' <= #[trigger] t[i] <= '9' by {
                assert(t[i] == s[f[4].0 + i]);
            }
            assert forall|i: int| 0 <= i < minor.len() implies '0' <= #[trigger] minor[i] <= '9' by {
                assert(minor[i] == s[f[5].0 + i]);
            }
        }
        assert(s.take(f[4].0).push('0') + s.skip(f[5].1) == s.take(f[4].0) + seq!['0'] + s.skip(
            f[5].1,
        ));
    }
}

/// What cutting commas off the end leaves.
proof fn lemma_trim_commas(s: Seq<char>)
    ensures
        trim_commas(s).len() <= s.len(),
        trim_commas(s) == s.take(trim_commas(s).len() as int),
        forall|i: int| trim_commas(s).len() <= i < s.len() ==> #[trigger] s[i] == ',',
        trim_commas(s).len() > 0 ==> trim_commas(s).last() != ',',
    decreases s.len(),
{
    if s.len() > 0 && s.last() == ',' {
        let t = s.drop_last();
        lemma_trim_commas(t);
        assert(t.take(trim_commas(t).len() as int) == s.take(trim_commas(t).len() as int));
        assert forall|i: int| trim_commas(s).len() <= i < s.len() implies #[trigger] s[i] == ',' by {
            if i < t.len() {
                assert(t[i] == s[i]);
            }
        }
    } else {
        assert(s.take(s.len() as int) == s);
    }
}

/// A row is read as a POSIX row where it can be, and as a DOS row otherwise. A special file is read
/// as a regular one: with a hyphen in the place of its first character, and with no size in the
/// place of device numbers.
pub proof fn law_rows_are_read_as_posix_first(
    s: Seq<char>,
    now: int,
    r: Result<ListedView, ParseError>,
)
    requires
        parse_outcome_at(s, now, r),
    ensures
        ({
            let special = s.len() > 0 && (s[0] == 'b' || s[0] == 'c' || s[0] == 'p' || s[0] == 's'
                || s[0] == 'D');
            let tried = if special {
                seq!['-'] + normalized_row(s).skip(1)
            } else {
                s
            };
            let posix = posix_entry(tried, usize::MAX as nat, now);
            &&& posix is Ok ==> r == posix
            &&& posix is Err ==> r == dos_entry(s, usize::MAX as nat)
        }),
{
}

/// Whatever a row is parsed into, it is parsed into at one time: as a POSIX row where it is one then,
/// and as a DOS row otherwise.
pub proof fn law_rows_are_read_at_one_time(s: Seq<char>, r: Result<ListedView, ParseError>)
    requires
        parse_outcome(s, r),
    ensures
        exists|now: int| #[trigger]
            parse_outcome_at(s, now, r),
        r is Err ==> r == dos_entry(s, usize::MAX as nat),
{
    let now = choose|now: int| #[trigger] parse_outcome_at(s, now, r);
    law_rows_are_read_as_posix_first(s, now, r);
}

// ---------------------------------------------------------------------------------------------
// Rows in doubt
// ---------------------------------------------------------------------------------------------

/// Where a run of ASCII whitespace ends.
proof fn lemma_next_text(s: Seq<char>, from: int)
    requires
        0 <= from <= s.len(),
    ensures
        from <= next_text(s, from) <= s.len(),
        forall|i: int| from <= i < next_text(s, from) ==> ascii_whitespace_char(#[trigger] s[i]),
        next_text(s, from) < s.len() ==> !ascii_whitespace_char(s[next_text(s, from)]),
    decreases s.len() - from,
{
    if from < s.len() && ascii_whitespace_char(s[from]) {
        lemma_next_text(s, from + 1);
    }
}

/// Where a run without ASCII whitespace ends.
proof fn lemma_next_blank(s: Seq<char>, from: int)
    requires
        0 <= from <= s.len(),
    ensures
        from <= next_blank(s, from) <= s.len(),
        forall|i: int| from <= i < next_blank(s, from) ==> !ascii_whitespace_char(#[trigger] s[i]),
        next_blank(s, from) < s.len() ==> ascii_whitespace_char(s[next_blank(s, from)]),
    decreases s.len() - from,
{
    if from < s.len() && !ascii_whitespace_char(s[from]) {
        lemma_next_blank(s, from + 1);
    }
}

/// Whether all characters from `from` up to `to` are ASCII whitespace.
pub open spec fn blank(s: Seq<char>, from: int, to: int) -> bool {
    forall|i: int| from <= i < to ==> ascii_whitespace_char(#[trigger] s[i])
}

/// Whether what stands in `s` from `from` on is a name that can be read in one way only, if anything
/// stands there: it is not whitespace alone, and does not start with whitespace behind the padding.
pub open spec fn clear_name(s: Seq<char>, from: int) -> bool {
    &&& from < s.len() ==> exists|i: int| from <= i < s.len() && !unicode_whitespace(#[trigger] s[i])
    &&& forall|i: int|
        #![trigger s[i]]
        from <= i < s.len() && blank(s, from, i) && !ascii_whitespace_char(s[i])
            ==> !unicode_whitespace(s[i])
}

/// A name is clear where neither test on it raises a doubt.
proof fn lemma_clear_name(s: Seq<char>, from: int)
    requires
        0 <= from <= s.len(),
    ensures
        clear_name(s, from) <==> !only_whitespace(s.skip(from)) && !hides_whitespace(
            s.skip(from),
            0,
        ),
{
    let t = s.skip(from);
    lemma_next_text(t, 0);
    let k = next_text(t, 0);
    assert forall|i: int| from <= i < s.len() implies t[i - from] == #[trigger] s[i] by {}
    if clear_name(s, from) {
        if from < s.len() {
            let i = choose|i: int| from <= i < s.len() && !unicode_whitespace(#[trigger] s[i]);
            assert(!unicode_whitespace(t[i - from]));
        }
        if k < t.len() {
            assert(s[from + k] == t[k]);
            assert forall|i: int| from <= i < from + k implies ascii_whitespace_char(
                #[trigger] s[i],
            ) by {
                assert(t[i - from] == s[i]);
            }
            assert(blank(s, from, from + k));
        }
    }
    if !only_whitespace(t) && !hides_whitespace(t, 0) {
        if from < s.len() {
            let j = choose|j: int| 0 <= j < t.len() && !unicode_whitespace(#[trigger] t[j]);
            assert(!unicode_whitespace(s[from + j]));
        }
        assert forall|i: int|
            #![trigger s[i]]
            from <= i < s.len() && blank(s, from, i) && !ascii_whitespace_char(
                s[i],
            ) implies !unicode_whitespace(s[i]) by {
            assert(t[i - from] == s[i]);
            if k < i - from {
                assert(t[k] == s[from + k]);
                assert(ascii_whitespace_char(s[from + k]));
            }
        }
    }
}

/// Whitespace hides behind padding exactly where the first character that is no padding is whitespace
/// all the same, and a text holds whitespace that is no padding exactly where one of its characters is
/// such.
pub proof fn law_hidden_whitespace_is_seen(s: Seq<char>)
    ensures
        hides_whitespace(s, 0) <==> exists|i: int|
            #![trigger s[i]]
            0 <= i < s.len() && blank(s, 0, i) && !ascii_whitespace_char(s[i])
                && unicode_whitespace(s[i]),
        holds_wide_whitespace(s) <==> exists|i: int|
            #![trigger s[i]]
            0 <= i < s.len() && !ascii_whitespace_char(s[i]) && unicode_whitespace(s[i]),
{
    lemma_next_text(s, 0);
    let k = next_text(s, 0);
    if hides_whitespace(s, 0) {
        assert(blank(s, 0, k));
        assert(!ascii_whitespace_char(s[k]));
    }
    if exists|i: int|
        #![trigger s[i]]
        0 <= i < s.len() && blank(s, 0, i) && !ascii_whitespace_char(s[i]) && unicode_whitespace(
            s[i],
        ) {
        let i = choose|i: int|
            #![trigger s[i]]
            0 <= i < s.len() && blank(s, 0, i) && !ascii_whitespace_char(s[i])
                && unicode_whitespace(s[i]);
        lemma_same_text(s, 0, i);
    }
    if holds_wide_whitespace(s) {
        let i = choose|i: int| 0 <= i < s.len() && wide_whitespace(#[trigger] s[i]);
        assert(!ascii_whitespace_char(s[i]) && unicode_whitespace(s[i]));
    }
    if exists|i: int|
        #![trigger s[i]]
        0 <= i < s.len() && !ascii_whitespace_char(s[i]) && unicode_whitespace(s[i]) {
        let i = choose|i: int|
            #![trigger s[i]]
            0 <= i < s.len() && !ascii_whitespace_char(s[i]) && unicode_whitespace(s[i]);
        assert(wide_whitespace(s[i]));
    }
}

/// Whether a row starts like a POSIX row.
pub open spec fn starts_like_posix(s: Seq<char>) -> bool {
    s.len() > 0 && (s[0] == '-' || s[0] == 'd' || s[0] == 'l' || s[0] == 'b' || s[0] == 'c' || s[0]
        == 'p' || s[0] == 's' || s[0] == 'D')
}

/// Whether ` -> ` stands in a row at two places.
pub open spec fn two_arrows(s: Seq<char>) -> bool {
    exists|i: int, j: int|
        {
            &&& 0 <= i < j <= s.len() - 4
            &&& #[trigger] s.subrange(i, i + 4) == seq![' ', '-', '>', ' ']
            &&& #[trigger] s.subrange(j, j + 4) == seq![' ', '-', '>', ' ']
        }
}

/// Where separators stand in a row.
proof fn lemma_arrow(s: Seq<char>, i: int)
    requires
        0 <= i <= s.len() - 4,
    ensures
        arrow_at(s, i) <==> s.subrange(i, i + 4) == seq![' ', '-', '>', ' '],
{
    let a = seq![' ', '-', '>', ' '];
    let t = s.subrange(i, i + 4);
    assert(t[0] == s[i] && t[1] == s[i + 1] && t[2] == s[i + 2] && t[3] == s[i + 3]);
    assert(a[0] == ' ' && a[1] == '-' && a[2] == '>' && a[3] == ' ');
    if arrow_at(s, i) {
        assert(t =~= a);
    }
}

/// The separator of name and target stands twice in a row exactly where two places of it are seen.
proof fn lemma_two_arrows(s: Seq<char>)
    ensures
        several_arrows(s) <==> two_arrows(s),
{
    if several_arrows(s) {
        let (i, j) = choose|i: int, j: int|
            i < j && #[trigger] arrow_at(s, i) && #[trigger] arrow_at(s, j);
        lemma_arrow(s, i);
        lemma_arrow(s, j);
        assert(s.subrange(i, i + 4) == seq![' ', '-', '>', ' ']);
        assert(s.subrange(j, j + 4) == seq![' ', '-', '>', ' ']);
    }
    if two_arrows(s) {
        let (i, j) = choose|i: int, j: int|
            {
                &&& 0 <= i < j <= s.len() - 4
                &&& #[trigger] s.subrange(i, i + 4) == seq![' ', '-', '>', ' ']
                &&& #[trigger] s.subrange(j, j + 4) == seq![' ', '-', '>', ' ']
            };
        lemma_arrow(s, i);
        lemma_arrow(s, j);
        assert(arrow_at(s, i) && arrow_at(s, j));
    }
}

/// A POSIX row, with a size in the place of device numbers where it is that of a special file.
pub open spec fn sized_row(s: Seq<char>) -> Seq<char> {
    if s[0] == 'b' || s[0] == 'c' || s[0] == 'p' || s[0] == 's' || s[0] == 'D' {
        normalized_row(s)
    } else {
        s
    }
}

/// Whether the name in a row, behind eight fields, can be read in one way only: the fields hold no
/// whitespace that is no padding, one character stands in front of the name, and the name is clear.
pub open spec fn clear_row(row: Seq<char>) -> bool {
    let f = fields(row);
    f.len() >= 8 ==> {
        &&& f.len() >= 9 ==> f[8].0 == f[7].1 + 1
        &&& forall|i: int|
            0 <= i < f[7].1 && unicode_whitespace(#[trigger] row[i]) ==> ascii_whitespace_char(row[i])
        &&& clear_name(row, f[7].1)
    }
}

/// A row is clear where no test on its boundary raises a doubt.
proof fn lemma_clear_row(s: Seq<char>)
    requires
        starts_like_posix(s),
    ensures
        posix_boundary_doubt(s) is None <==> clear_row(sized_row(s)),
{
    let row = sized_row(s);
    assert(row == counted_row(s));
    let f = fields(row);
    crate::list::law_fields_are_runs(row);
    if f.len() >= 8 {
        assert(0 <= f[7].0 < f[7].1 <= row.len());
        lemma_clear_name(row, f[7].1);
        if f.len() >= 9 {
            assert(f[7].1 < f[8].0);
        }
        let head = row.take(f[7].1);
        if holds_wide_whitespace(head) {
            let i = choose|i: int| 0 <= i < head.len() && wide_whitespace(#[trigger] head[i]);
            assert(head[i] == row[i]);
        } else {
            assert forall|i: int|
                0 <= i < f[7].1 && unicode_whitespace(
                    #[trigger] row[i],
                ) implies ascii_whitespace_char(row[i]) by {
                assert(!wide_whitespace(head[i]));
            }
        }
    }
}

/// Exactly those POSIX rows are in doubt whose name could be another: where the eight fields in front
/// of it hold whitespace that is no padding, where more than one space or whitespace that is no
/// padding stands in front of it, where it is whitespace alone, and, for a symbolic link, where the
/// separator of name and target stands twice.
pub proof fn law_posix_rows_are_doubted_exactly(s: Seq<char>)
    requires
        starts_like_posix(s),
    ensures
        posix_boundary_doubt(s) is None <==> clear_row(sized_row(s)),
        name_doubt(s) is None <==> clear_row(sized_row(s)) && !(s[0] == 'l' && two_arrows(s)),
        posix_boundary_doubt(s) is Some ==> name_doubt(s) == posix_boundary_doubt(s),
        name_doubt(s) is Some ==> name_doubt(s)->0.kind is ProtocolError,
{
    lemma_clear_row(s);
    lemma_two_arrows(s);
}

/// Whether a row starts like a DOS row: with three numbers of two digits, with hyphens between.
pub open spec fn starts_like_dos(s: Seq<char>) -> bool {
    &&& s.len() >= 8
    &&& forall|i: int|
        0 <= i < 8 ==> if i == 2 || i == 5 {
            #[trigger] s[i] == '-'
        } else {
            '0' <= s[i] <= '9'
        }
}

/// A row that starts neither like a POSIX nor like a DOS row is in no doubt: it will not parse.
pub proof fn law_other_rows_are_not_doubted(s: Seq<char>)
    ensures
        dos_row(s) <==> starts_like_dos(s),
        starts_like_dos(s) ==> encode_utf8(s.take(8)).len() == 8,
        starts_like_dos(s) ==> name_doubt(s) == dos_boundary_doubt(s),
        starts_like_dos(s) && name_doubt(s) is Some ==> name_doubt(s)->0.kind is ProtocolError,
        !starts_like_posix(s) ==> posix_boundary_doubt(s) is None,
        !starts_like_posix(s) && !starts_like_dos(s) ==> name_doubt(s) is None,
{
    if dos_row(s) {
        crate::list::law_dos_dates_take_eight_characters(s);
    }
    if s.len() >= 8 {
        assert(starts_like_dos(s) ==> s[0] <= '9' && s[1] <= '9' && s[2] == '-' && s[3] <= '9'
            && s[4] <= '9' && s[5] == '-' && s[6] <= '9' && s[7] <= '9');
    }
}

/// Whether the two characters `a` and `b` stand in `s` at `i`.
pub open spec fn pair_at(s: Seq<char>, i: int, a: char, b: char) -> bool {
    0 <= i && i + 1 < s.len() && s[i] == a && s[i + 1] == b
}

/// Whether the time of a DOS row, which starts at `start`, ends at `end`: behind the first `AM` among
/// its eight characters, or behind the first `PM` where there is none.
pub open spec fn time_ends(s: Seq<char>, start: int, end: int) -> bool {
    &&& start + 2 <= end <= start + 8
    &&& ({
        ||| {
            &&& pair_at(s, end - 2, 'A', 'M')
            &&& forall|i: int| start <= i < end - 2 ==> !#[trigger] pair_at(s, i, 'A', 'M')
        }
        ||| {
            &&& pair_at(s, end - 2, 'P', 'M')
            &&& forall|i: int| start <= i < end - 2 ==> !#[trigger] pair_at(s, i, 'P', 'M')
            &&& forall|i: int| start <= i < start + 7 ==> !#[trigger] pair_at(s, i, 'A', 'M')
        }
    })
}

/// Where a pair of characters is found first.
proof fn lemma_find_pair(s: Seq<char>, from: int, to: int, a: char, b: char)
    requires
        0 <= from <= to <= s.len(),
    ensures
        ({
            let k = find_pair(s, from, to, a, b);
            &&& from <= k <= to
            &&& k < to ==> k + 1 < to && pair_at(s, k, a, b)
            &&& forall|i: int|
                from <= i < k && i + 1 < to ==> !#[trigger] pair_at(s, i, a, b)
        }),
    decreases to - from,
{
    if from + 1 < to && !(s[from] == a && s[from + 1] == b) {
        lemma_find_pair(s, from + 1, to, a, b);
    }
}

/// Where the time of a DOS row ends.
proof fn lemma_time_end(s: Seq<char>, start: int)
    requires
        0 <= start <= s.len(),
    ensures
        forall|end: int| dos_time_end(s, start) == Some(end) <==> #[trigger] time_ends(s, start, end),
{
    let to = if start + 8 < s.len() {
        start + 8
    } else {
        s.len() as int
    };
    lemma_find_pair(s, start, to, 'A', 'M');
    lemma_find_pair(s, start, to, 'P', 'M');
    let am = find_pair(s, start, to, 'A', 'M');
    let pm = find_pair(s, start, to, 'P', 'M');
    assert forall|end: int| dos_time_end(s, start) == Some(end) <==> #[trigger] time_ends(
        s,
        start,
        end,
    ) by {
        assert forall|i: int| start <= i < start + 7 && #[trigger] pair_at(s, i, 'A', 'M') implies i
            + 1 < to by {}
        if dos_time_end(s, start) == Some(end) {
            if am < to {
                assert(time_ends(s, start, end));
            } else {
                assert forall|i: int| start <= i < start + 7 implies !#[trigger] pair_at(
                    s,
                    i,
                    'A',
                    'M',
                ) by {}
                assert(time_ends(s, start, end));
            }
        }
        if time_ends(s, start, end) {
            if pair_at(s, end - 2, 'A', 'M') && forall|i: int|
                start <= i < end - 2 ==> !#[trigger] pair_at(s, i, 'A', 'M') {
                assert(am <= end - 2);
                assert(pair_at(s, am, 'A', 'M'));
                assert(am == end - 2);
            } else {
                assert(pm <= end - 2);
                assert(pair_at(s, pm, 'P', 'M'));
                assert(pm == end - 2);
                if am < to {
                    assert(pair_at(s, am, 'A', 'M'));
                }
            }
        }
    }
}

/// Exactly those DOS rows are in doubt whose time has no `AM` or `PM`, or whose name could be another:
/// where whitespace that is no padding stands behind the time, where the name is whitespace alone or
/// has whitespace that is no padding in front of it, and where more than one space stands in front of
/// it, unless a directory mark and the name stand at the columns to which servers pad them.
///
/// The date takes the first eight bytes and ends at `date`, the time starts at `start` and ends at
/// `end`, the size or mark stands from `mark` to `behind`, and the name at `name`.
pub proof fn law_dos_rows_are_doubted_exactly(
    s: Seq<char>,
    date: int,
    start: int,
    end: int,
    mark: int,
    behind: int,
    name: int,
)
    requires
        0 <= date <= start < s.len(),
        encode_utf8(s.take(date)).len() == 8,
        blank(s, date, start),
        !ascii_whitespace_char(s[start]),
        time_ends(s, start, end),
        end <= mark <= s.len(),
        blank(s, end, mark),
        mark < s.len() ==> !ascii_whitespace_char(s[mark]),
        mark <= behind <= s.len(),
        forall|i: int| mark <= i < behind ==> !ascii_whitespace_char(#[trigger] s[i]),
        behind < s.len() ==> ascii_whitespace_char(s[behind]),
        behind <= name <= s.len(),
        blank(s, behind, name),
        name < s.len() ==> !ascii_whitespace_char(s[name]),
    ensures
        dos_boundary_doubt(s) is None <==> {
            &&& end < s.len() && unicode_whitespace(s[end]) ==> ascii_whitespace_char(s[end])
            &&& mark < s.len() ==> {
                &&& clear_name(s, behind)
                &&& name > behind + 1 ==> {
                    &&& s.subrange(mark, behind) == seq!['<', 'D', 'I', 'R', '>']
                    &&& encode_utf8(s.take(mark)).len() == 24
                    &&& encode_utf8(s.take(name)).len() == 39
                }
            }
        },
{
    lemma_date_end(s, date);
    lemma_same_text(s, date, start);
    lemma_time_end(s, start);
    assert(dos_time_end(s, start) == Some(end));
    lemma_same_text(s, end, mark);
    lemma_same_blank(s, mark, behind);
    lemma_same_text(s, behind, name);
    lemma_clear_name(s, behind);
    reveal_strlit("<DIR>");
    assert("<DIR>"@ =~= seq!['<', 'D', 'I', 'R', '>']);
}

/// A DOS row of which nothing is left behind its date is in no doubt, and one whose time has neither
/// `AM` nor `PM` is. The date takes the first eight bytes and ends at `date`.
pub proof fn law_dos_rows_need_their_time(s: Seq<char>, date: int, start: int)
    requires
        0 <= date <= start <= s.len(),
        encode_utf8(s.take(date)).len() == 8,
        blank(s, date, start),
        start < s.len() ==> !ascii_whitespace_char(s[start]),
    ensures
        start == s.len() ==> dos_boundary_doubt(s) is None,
        start < s.len() && (forall|end: int| !#[trigger] time_ends(s, start, end))
            ==> dos_boundary_doubt(s) == Some(
            ErrorView::message(
                RemoteErrorType::ProtocolError,
                "LIST returned an unsupported DOS timestamp"@,
            ),
        ),
{
    lemma_date_end(s, date);
    lemma_same_text(s, date, start);
    lemma_time_end(s, start);
    if let Some(end) = dos_time_end(s, start) {
        assert(time_ends(s, start, end));
    }
}

/// The date ends where its eight bytes do.
proof fn lemma_date_end(s: Seq<char>, date: int)
    requires
        0 <= date <= s.len(),
        encode_utf8(s.take(date)).len() == 8,
    ensures
        date_end(s) == date,
{
    assert(byte_column(s, date) == 8);
    let k = date_end(s);
    if k < date {
        lemma_column_bounds(s, k, date);
    } else {
        lemma_column_bounds(s, date, k);
    }
}

/// A run of ASCII whitespace ends where it is seen to end.
proof fn lemma_same_text(s: Seq<char>, from: int, to: int)
    requires
        0 <= from <= to <= s.len(),
        blank(s, from, to),
        to < s.len() ==> !ascii_whitespace_char(s[to]),
    ensures
        next_text(s, from) == to,
{
    lemma_next_text(s, from);
    let k = next_text(s, from);
    if k < to {
        assert(ascii_whitespace_char(s[k]));
    } else if to < k {
        assert(ascii_whitespace_char(s[to]));
    }
}

/// A run without ASCII whitespace ends where it is seen to end.
proof fn lemma_same_blank(s: Seq<char>, from: int, to: int)
    requires
        0 <= from <= to <= s.len(),
        forall|i: int| from <= i < to ==> !ascii_whitespace_char(#[trigger] s[i]),
        to < s.len() ==> ascii_whitespace_char(s[to]),
    ensures
        next_blank(s, from) == to,
{
    lemma_next_blank(s, from);
    let k = next_blank(s, from);
    if k < to {
        assert(!ascii_whitespace_char(s[k]));
    } else if to < k {
        assert(!ascii_whitespace_char(s[to]));
    }
}

/// What the doubt about a POSIX row says. The first reason that holds is given.
pub proof fn law_doubts_about_posix_rows_say_why(s: Seq<char>)
    requires
        starts_like_posix(s),
    ensures
        ({
            let row = sized_row(s);
            let f = fields(row);
            let long = f.len() >= 8;
            let gap = f.len() >= 9 && f[8].0 > f[7].1 + 1;
            let wide = long && exists|i: int|
                0 <= i < f[7].1 && unicode_whitespace(#[trigger] row[i]) && !ascii_whitespace_char(
                    row[i],
                );
            let empty = long && f[7].1 < row.len() && forall|i: int|
                f[7].1 <= i < row.len() ==> unicode_whitespace(#[trigger] row[i]);
            let says = |text: Seq<char>|
                name_doubt(s) == Some(ErrorView::message(RemoteErrorType::ProtocolError, text));
            &&& gap ==> says("LIST returned a filename with an ambiguous leading-space boundary"@)
            &&& wide && !gap ==> says("LIST returned Unicode whitespace in its POSIX metadata"@)
            &&& empty && !wide && !gap ==> says(
                "LIST returned a filename made only of whitespace"@,
            )
            &&& !clear_row(row) && !empty && !wide && !gap ==> says(
                "LIST returned a filename with an ambiguous Unicode-whitespace boundary"@,
            )
            &&& clear_row(row) && s[0] == 'l' && two_arrows(s) ==> says(
                "LIST returned a symlink name or target containing multiple ` -> ` separators"@,
            )
        }),
{
    let row = sized_row(s);
    let f = fields(row);
    assert(row == counted_row(s));
    lemma_clear_row(s);
    lemma_two_arrows(s);
    crate::list::law_fields_are_runs(row);
    if f.len() >= 8 {
        assert(0 <= f[7].0 < f[7].1 <= row.len());
        if f.len() >= 9 {
            assert(f[7].1 < f[8].0);
        }
        lemma_wide_head(row, f[7].1);
        lemma_empty_tail(row, f[7].1);
    }
}

/// Where whitespace that is no padding is seen in front of `end`.
proof fn lemma_wide_head(row: Seq<char>, end: int)
    requires
        0 <= end <= row.len(),
    ensures
        holds_wide_whitespace(row.take(end)) <==> exists|i: int|
            0 <= i < end && unicode_whitespace(#[trigger] row[i]) && !ascii_whitespace_char(row[i]),
{
    let head = row.take(end);
    if holds_wide_whitespace(head) {
        let i = choose|i: int| 0 <= i < head.len() && wide_whitespace(#[trigger] head[i]);
        assert(head[i] == row[i]);
    }
    if exists|i: int|
        0 <= i < end && unicode_whitespace(#[trigger] row[i]) && !ascii_whitespace_char(row[i]) {
        let i = choose|i: int|
            0 <= i < end && unicode_whitespace(#[trigger] row[i]) && !ascii_whitespace_char(row[i]);
        assert(wide_whitespace(head[i]));
    }
}

/// Where nothing but whitespace is seen from `start` on.
proof fn lemma_empty_tail(row: Seq<char>, start: int)
    requires
        0 <= start <= row.len(),
    ensures
        only_whitespace(row.skip(start)) <==> start < row.len() && forall|i: int|
            start <= i < row.len() ==> unicode_whitespace(#[trigger] row[i]),
{
    let tail = row.skip(start);
    if only_whitespace(tail) {
        assert forall|i: int| start <= i < row.len() implies unicode_whitespace(#[trigger] row[i]) by {
            assert(tail[i - start] == row[i]);
        }
    }
    if start < row.len() && forall|i: int|
        start <= i < row.len() ==> unicode_whitespace(#[trigger] row[i]) {
        assert forall|i: int| 0 <= i < tail.len() implies unicode_whitespace(#[trigger] tail[i]) by {
            assert(tail[i] == row[i + start]);
        }
    }
}

/// What the doubt about a DOS row says. The first reason that holds is given. The indices are those of
/// [`law_dos_rows_are_doubted_exactly`].
pub proof fn law_doubts_about_dos_rows_say_why(
    s: Seq<char>,
    date: int,
    start: int,
    end: int,
    mark: int,
    behind: int,
    name: int,
)
    requires
        0 <= date <= start < s.len(),
        encode_utf8(s.take(date)).len() == 8,
        blank(s, date, start),
        !ascii_whitespace_char(s[start]),
        time_ends(s, start, end),
        end <= mark <= s.len(),
        blank(s, end, mark),
        mark < s.len() ==> !ascii_whitespace_char(s[mark]),
        mark <= behind <= s.len(),
        forall|i: int| mark <= i < behind ==> !ascii_whitespace_char(#[trigger] s[i]),
        behind < s.len() ==> ascii_whitespace_char(s[behind]),
        behind <= name <= s.len(),
        blank(s, behind, name),
        name < s.len() ==> !ascii_whitespace_char(s[name]),
    ensures
        ({
            let wide = end < s.len() && unicode_whitespace(s[end]) && !ascii_whitespace_char(s[end]);
            let empty = mark < s.len() && behind < s.len() && forall|i: int|
                behind <= i < s.len() ==> unicode_whitespace(#[trigger] s[i]);
            let says = |text: Seq<char>|
                dos_boundary_doubt(s) == Some(ErrorView::message(RemoteErrorType::ProtocolError, text));
            &&& wide ==> says(
                "LIST returned a DOS filename with an ambiguous Unicode-whitespace boundary"@,
            )
            &&& empty && !wide ==> says("LIST returned a filename made only of whitespace"@)
            &&& mark < s.len() && !clear_name(s, behind) && !empty && !wide ==> says(
                "LIST returned a filename with an ambiguous Unicode-whitespace boundary"@,
            )
            &&& dos_boundary_doubt(s) is Some && !wide && (mark < s.len() ==> clear_name(s, behind))
                ==> says(
                "LIST returned a DOS filename with an ambiguous leading-space boundary"@,
            )
        }),
{
    lemma_date_end(s, date);
    lemma_same_text(s, date, start);
    lemma_time_end(s, start);
    assert(dos_time_end(s, start) == Some(end));
    lemma_same_text(s, end, mark);
    lemma_same_blank(s, mark, behind);
    lemma_same_text(s, behind, name);
    lemma_clear_name(s, behind);
    lemma_empty_tail(s, behind);
}

/// Fields are told by their places in bytes: each starts and ends where the text in front of it, and
/// the text up to its end, end in bytes.
pub proof fn law_fields_are_told_in_bytes(s: Seq<char>)
    requires
        encode_utf8(s).len() <= usize::MAX,
    ensures
        byte_fields(s).len() == fields(s).len(),
        forall|i: int|
            0 <= i < fields(s).len() ==> {
                &&& (#[trigger] byte_fields(s)[i]).0 == encode_utf8(s.take(fields(s)[i].0)).len()
                &&& byte_fields(s)[i].1 == encode_utf8(s.take(fields(s)[i].1)).len()
            },
{
    assert forall|i: int| 0 <= i < fields(s).len() implies {
        &&& (#[trigger] byte_fields(s)[i]).0 == encode_utf8(s.take(fields(s)[i].0)).len()
        &&& byte_fields(s)[i].1 == encode_utf8(s.take(fields(s)[i].1)).len()
    } by {
        crate::list::law_fields_are_runs(s);
        let f = fields(s)[i];
        lemma_column_bounds(s, f.0, f.0);
        lemma_column_bounds(s, f.1, f.1);
    }
}

// ---------------------------------------------------------------------------------------------
// Lines
// ---------------------------------------------------------------------------------------------

/// Lines as a server sends them from line `i` on, each ended by a line feed, with a carriage return
/// in front of it where its flag is up, and then `tail`, which nothing ends.
pub open spec fn sent(lines: Seq<(Seq<char>, bool)>, i: int, tail: Seq<char>) -> Seq<char>
    decreases lines.len() - i,
{
    if i >= lines.len() {
        tail
    } else {
        lines[i].0 + (if lines[i].1 {
            seq!['\r', '\n']
        } else {
            seq!['\n']
        }) + sent(lines, i + 1, tail)
    }
}

/// The lines from line `i` on that are not empty, and then `tail` where it is not.
pub open spec fn not_empty(lines: Seq<(Seq<char>, bool)>, i: int, tail: Seq<char>) -> Seq<Seq<char>>
    decreases lines.len() - i,
{
    if i >= lines.len() {
        if tail.len() > 0 {
            seq![tail]
        } else {
            Seq::empty()
        }
    } else if lines[i].0.len() > 0 {
        seq![lines[i].0] + not_empty(lines, i + 1, tail)
    } else {
        not_empty(lines, i + 1, tail)
    }
}

/// What is sent as lines is read as these lines, in order, empty ones left out; and what is no valid
/// UTF-8 is no listing.
pub proof fn law_lines_are_read_as_sent(
    lines: Seq<(Seq<char>, bool)>,
    tail: Seq<char>,
    bytes: Seq<u8>,
)
    requires
        forall|i: int| 0 <= i < lines.len() ==> !(#[trigger] lines[i]).0.contains('\n'),
        forall|i: int|
            0 <= i < lines.len() && !(#[trigger] lines[i]).1 && lines[i].0.len() > 0
                ==> lines[i].0.last() != '\r',
        !tail.contains('\n'),
    ensures
        decoded_lines(encode_utf8(sent(lines, 0, tail))) == Ok::<Seq<Seq<char>>, FtpErrorView>(
            not_empty(lines, 0, tail),
        ),
        !valid_utf8(bytes) ==> decoded_lines(bytes) == Err::<Seq<Seq<char>>, FtpErrorView>(
            FtpErrorView::BadResponse,
        ),
{
    let s = sent(lines, 0, tail);
    encode_utf8_valid_utf8(s);
    encode_utf8_decode_utf8(s);
    assert(s.skip(0) == s);
    lemma_lines_from(s, 0, lines, 0, tail);
}

/// What is left of a text is read as the lines that are left.
proof fn lemma_lines_from(
    s: Seq<char>,
    from: int,
    lines: Seq<(Seq<char>, bool)>,
    i: int,
    tail: Seq<char>,
)
    requires
        0 <= from <= s.len(),
        0 <= i <= lines.len(),
        s.skip(from) == sent(lines, i, tail),
        forall|k: int| 0 <= k < lines.len() ==> !(#[trigger] lines[k]).0.contains('\n'),
        forall|k: int|
            0 <= k < lines.len() && !(#[trigger] lines[k]).1 && lines[k].0.len() > 0
                ==> lines[k].0.last() != '\r',
        !tail.contains('\n'),
    ensures
        lines_from(s, from) == not_empty(lines, i, tail),
    decreases lines.len() - i,
{
    let t = s.skip(from);
    if i == lines.len() {
        assert forall|k: int| from <= k < s.len() implies #[trigger] s[k] != '\n' by {
            assert(t[k - from] == s[k]);
            assert(tail.contains(tail[k - from]));
        }
        lemma_line_feed_is(s, from, s.len() as int);
    } else {
        let l = lines[i].0;
        let end = if lines[i].1 {
            seq!['\r', '\n']
        } else {
            seq!['\n']
        };
        let rest = sent(lines, i + 1, tail);
        let feed = from + l.len() + end.len() - 1;
        assert(t == l + end + rest);
        assert forall|k: int| from <= k < feed implies #[trigger] s[k] != '\n' by {
            assert(t[k - from] == s[k]);
            if k - from < l.len() {
                assert(l.contains(l[k - from]));
            }
        }
        assert(s[feed] == t[feed - from]);
        lemma_line_feed_is(s, from, feed);
        let line = s.subrange(from, feed);
        assert(line == if lines[i].1 {
            l.push('\r')
        } else {
            l
        }) by {
            assert forall|k: int| 0 <= k < line.len() implies line[k] == #[trigger] t[k] by {}
        }
        assert(strip_return(line) == l) by {
            if lines[i].1 {
                assert(l.push('\r').drop_last() == l);
            }
        }
        assert(s.skip(feed + 1) == rest) by {
            assert forall|k: int| 0 <= k < s.skip(feed + 1).len() implies s.skip(feed + 1)[k]
                == #[trigger] rest[k] by {
                assert(t[k + feed + 1 - from] == s[k + feed + 1]);
            }
        }
        lemma_lines_from(s, feed + 1, lines, i + 1, tail);
        assert(lines_from(s, from) == kept_line(l) + lines_from(s, feed + 1));
        assert(Seq::<Seq<char>>::empty() + lines_from(s, feed + 1) == lines_from(s, feed + 1));
    }
}

/// The first line feed is where it is seen first.
proof fn lemma_line_feed_is(s: Seq<char>, from: int, to: int)
    requires
        0 <= from <= to <= s.len(),
        forall|k: int| from <= k < to ==> #[trigger] s[k] != '\n',
        to < s.len() ==> s[to] == '\n',
    ensures
        line_feed(s, from) == to,
    decreases to - from,
{
    if from < to {
        assert(s[from] != '\n');
        lemma_line_feed_is(s, from + 1, to);
    }
}

} // verus!
