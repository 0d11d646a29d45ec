//! Owned transfer streams: byte budgets, skipped prefixes, and the cleanup that ends a transfer.
//!
//! Ending a read drains what is unread, also after an earlier read error, and then reads the
//! completion reply. Draining ignores the byte budget. A failed cleanup marks the connection
//! unusable, because a second reply may still be queued.
use crate::error::{
    ftp_error, ftp_failure, io_error, io_failure, io_kind, ftp_kind, Cause, CauseView, ErrorView,
    FtpError, FtpErrorView, IoError, IoErrorView, RemoteError,
};
use crate::guard::{TransferFlags, TransferGuard};
use crate::list::check_view;
use vstd::prelude::*;

verus! {

/// How many bytes one read may ask for: none once the budget is used up.
pub open spec fn read_limit(remaining: Option<u64>, room: int) -> int {
    match remaining {
        None => room,
        Some(budget) => if budget < room {
            budget as int
        } else {
            room
        },
    }
}

/// Whether reading `n` bytes takes a budget from `before` to `after`.
pub open spec fn spends(before: Option<u64>, n: int, after: Option<u64>) -> bool {
    match before {
        None => after is None,
        Some(budget) => after is Some && after->0 + n == budget,
    }
}

/// How many bytes one read may ask for.
pub(crate) fn limit_read(remaining: Option<u64>, room: usize) -> (r: usize)
    ensures
        r == read_limit(remaining, room as int),
{
    match remaining {
        None => room,
        Some(budget) => if budget < room as u64 {
            budget as usize
        } else {
            room
        },
    }
}

/// Reads up to `remaining` bytes from `inner` into a buffer with room for `room` bytes; `None`
/// means no limit.
///
/// `read` takes `inner` and the number of bytes it may put into the buffer, and gives `inner` back.
/// It is not called once the budget is used up.
pub fn read_limited<R, E, F>(inner: R, remaining: &mut Option<u64>, room: usize, read: F) -> (r: (
    R,
    Result<usize, E>,
)) where F: FnOnce(R, usize) -> (R, Result<usize, E>)
    requires
        forall|limit: usize| limit <= room ==> call_requires(read, (inner, limit)),
        forall|limit: usize, rest: R, n: usize|
            call_ensures(read, (inner, limit), (rest, Ok::<usize, E>(n))) ==> n <= limit,
    ensures
        *old(remaining) == Some(0u64) ==> r == (inner, Ok::<usize, E>(0)) && *final(remaining)
            == *old(remaining),
        *old(remaining) != Some(0u64) ==> call_ensures(
            read,
            (inner, read_limit(*old(remaining), room as int) as usize),
            r,
        ),
        match r.1 {
            Ok(n) => n <= read_limit(*old(remaining), room as int) && spends(
                *old(remaining),
                n as int,
                *final(remaining),
            ),
            Err(_) => *final(remaining) == *old(remaining),
        },
{
    let budget = match *remaining {
        Some(budget) => budget,
        None => {
            let (rest, outcome) = read(inner, room);
            proof {
                if let Ok(n) = outcome {
                    assert(call_ensures(read, (inner, room), (rest, Ok::<usize, E>(n))));
                }
            }
            return (rest, outcome);
        },
    };
    if budget == 0 {
        return (inner, Ok(0));
    }
    let limit: usize = limit_read(Some(budget), room);
    let (rest, outcome) = read(inner, limit);
    if let Ok(n) = outcome {
        *remaining = Some(budget - n as u64);
    }
    (rest, outcome)
}

/// What an I/O outcome holds: nothing, or the failure.
pub open spec fn io_outcome(r: Result<(), IoError>) -> Option<IoErrorView> {
    match r {
        Ok(_) => None,
        Err(e) => Some(e@),
    }
}

/// What an FTP outcome holds: nothing, or the failure.
pub open spec fn ftp_outcome(r: Result<(), FtpError>) -> Option<FtpErrorView> {
    match r {
        Ok(_) => None,
        Err(e) => Some(e@),
    }
}

/// What ending a download reports, given how draining and the completion reply went.
pub open spec fn read_settled(drained: Option<IoErrorView>, finished: Option<FtpErrorView>) -> Option<
    ErrorView,
> {
    match (drained, finished) {
        (None, None) => None,
        (Some(drain), None) => Some(io_failure(drain)),
        (None, Some(finish)) => Some(ftp_failure(finish)),
        (Some(drain), Some(finish)) => Some(
            ErrorView {
                kind: io_kind(drain.kind),
                source: Some(
                    CauseView::ReadCleanup {
                        drain: Box::new(io_failure(drain)),
                        finish: Box::new(ftp_failure(finish)),
                    },
                ),
            },
        ),
    }
}

/// What ending an upload reports, given how flushing and the completion reply went.
pub open spec fn write_settled(flushed: Option<IoErrorView>, finished: Option<FtpErrorView>) -> Option<
    ErrorView,
> {
    match (flushed, finished) {
        (None, None) => None,
        (Some(flush), None) => Some(io_failure(flush)),
        (None, Some(finish)) => Some(ftp_failure(finish)),
        (Some(flush), Some(finish)) => Some(
            ErrorView {
                kind: ftp_kind(finish),
                source: Some(
                    CauseView::WriteCleanup {
                        flush: Box::new(io_failure(flush)),
                        finish: Box::new(ftp_failure(finish)),
                    },
                ),
            },
        ),
    }
}

/// What a failed skip reports, given how the transfer then ended.
pub open spec fn skip_settled(skip: ErrorView, finished: Option<ErrorView>) -> ErrorView {
    match finished {
        None => skip,
        Some(finish) => ErrorView {
            kind: skip.kind,
            source: Some(
                CauseView::SkipCleanup { skip: Box::new(skip), finish: Box::new(finish) },
            ),
        },
    }
}

/// Combines the outcomes of draining a download and of its completion reply.
pub fn settle_read(drained: Result<(), IoError>, finished: Result<(), FtpError>) -> (r: Result<
    (),
    RemoteError,
>)
    ensures
        check_view(r) == read_settled(io_outcome(drained), ftp_outcome(finished)),
{
    match (drained, finished) {
        (Ok(_), Ok(_)) => Ok(()),
        (Err(drain), Ok(_)) => Err(io_error(drain)),
        (Ok(_), Err(finish)) => Err(ftp_error(finish)),
        (Err(drain), Err(finish)) => {
            let drain = io_error(drain);
            let finish = ftp_error(finish);
            let kind = drain.kind;
            Err(
                RemoteError {
                    kind,
                    source: Some(
                        Cause::ReadCleanup { drain: Box::new(drain), finish: Box::new(finish) },
                    ),
                },
            )
        },
    }
}

/// Combines the outcomes of flushing an upload and of its completion reply.
pub fn settle_write(flushed: Result<(), IoError>, finished: Result<(), FtpError>) -> (r: Result<
    (),
    RemoteError,
>)
    ensures
        check_view(r) == write_settled(io_outcome(flushed), ftp_outcome(finished)),
{
    match (flushed, finished) {
        (Ok(_), Ok(_)) => Ok(()),
        (Err(flush), Ok(_)) => Err(io_error(flush)),
        (Ok(_), Err(finish)) => Err(ftp_error(finish)),
        (Err(flush), Err(finish)) => {
            let flush = io_error(flush);
            let finish = ftp_error(finish);
            let kind = finish.kind;
            Err(
                RemoteError {
                    kind,
                    source: Some(
                        Cause::WriteCleanup { flush: Box::new(flush), finish: Box::new(finish) },
                    ),
                },
            )
        },
    }
}

/// Combines a local prefix-skip failure with the finalization outcome.
pub fn aggregate_skip_failure(skip: RemoteError, finished: Result<(), RemoteError>) -> (r:
    RemoteError)
    ensures
        r@ == skip_settled(skip@, check_view(finished)),
{
    match finished {
        Ok(_) => skip,
        Err(finish) => {
            let kind = skip.kind;
            RemoteError {
                kind,
                source: Some(Cause::SkipCleanup { skip: Box::new(skip), finish: Box::new(finish) }),
            }
        },
    }
}

/// How a download ends: unread data is drained unless the transfer reached its end, the completion
/// reply is read in any case, and both outcomes are reported.
pub open spec fn read_finishes<R, D, F>(
    inner: R,
    at_eof: bool,
    drain: D,
    finalize: F,
    r: Option<ErrorView>,
) -> bool where D: FnOnce(R) -> (R, Result<(), IoError>), F: FnOnce(R) -> Result<(), FtpError> {
    exists|rest: R, drained: Result<(), IoError>, finished: Result<(), FtpError>|
        {
            &&& if at_eof {
                rest == inner && drained is Ok
            } else {
                call_ensures(drain, (inner,), (rest, drained))
            }
            &&& #[trigger] call_ensures(finalize, (rest,), finished)
            &&& r == #[trigger] read_settled(io_outcome(drained), ftp_outcome(finished))
        }
}

/// Drains unread data before closing the socket and reading the reply.
///
/// Draining is skipped where the transfer reached its end; `finalize` always runs.
pub fn finish_read<R, D, F>(inner: R, at_eof: bool, drain: D, finalize: F) -> (r: Result<
    (),
    RemoteError,
>) where D: FnOnce(R) -> (R, Result<(), IoError>), F: FnOnce(R) -> Result<(), FtpError>
    requires
        !at_eof ==> call_requires(drain, (inner,)),
        forall|rest: R| call_requires(finalize, (rest,)),
    ensures
        read_finishes(inner, at_eof, drain, finalize, check_view(r)),
{
    let (rest, drained) = if at_eof {
        (inner, Ok(()))
    } else {
        drain(inner)
    };
    let finished = finalize(rest);
    settle_read(drained, finished)
}

/// Clears the mark of a usable connection where a cleanup failed.
pub open spec fn after_cleanup(flags: TransferFlags, outcome: Option<ErrorView>) -> TransferFlags {
    if outcome is Some {
        TransferFlags { connection_usable: false, ..flags }
    } else {
        flags
    }
}

/// Read side of a `RETR` transfer, optionally limited to a byte budget.
///
/// `R` is the data connection. Each call is handed what it does with it, as a function that takes
/// the connection and gives it back.
pub struct FtpReadStream<R> {
    /// Taken only when the stream is finished or dropped.
    pub inner: Option<R>,
    /// Bytes still allowed to be returned; `None` reads until the end.
    pub remaining: Option<u64>,
    /// Whether the data connection reached its end, so that the server sent everything.
    pub at_eof: bool,
    /// Released after the cleanup.
    pub guard: TransferGuard,
}

impl<R> FtpReadStream<R> {
    /// Wraps an open `RETR` stream, returning at most `length` bytes.
    pub fn new(inner: R, length: Option<u64>, guard: TransferGuard) -> (r: Self)
        ensures
            r == (FtpReadStream { inner: Some(inner), remaining: length, at_eof: false, guard }),
    {
        FtpReadStream { inner: Some(inner), remaining: length, at_eof: false, guard }
    }

    /// Skips a locally handled range prefix without consuming the requested length budget.
    ///
    /// `copy` reads up to that many bytes away, and says how many it found.
    pub fn skip_prefix<C>(&mut self, offset: u64, copy: C) -> (r: Result<(), RemoteError>) where
        C: FnOnce(R, u64) -> (R, Result<u64, IoError>),

        requires
            old(self).inner is Some,
            call_requires(copy, (old(self).inner->0, offset)),
        ensures
            exists|rest: R, skipped: Result<u64, IoError>|
                {
                    &&& #[trigger] call_ensures(copy, (old(self).inner->0, offset), (rest, skipped))
                    &&& *final(self) == (FtpReadStream {
                        inner: Some(rest),
                        at_eof: old(self).at_eof || (skipped is Ok && skipped->Ok_0 < offset),
                        ..*old(self)
                    })
                    &&& match skipped {
                        Ok(_) => r is Ok,
                        Err(e) => r is Err && r->Err_0@ == io_failure(e@),
                    }
                },
    {
        let inner = self.inner.take().unwrap();
        let (rest, outcome) = copy(inner, offset);
        self.inner = Some(rest);
        match outcome {
            Ok(skipped) => {
                if skipped < offset {
                    self.at_eof = true;
                }
                Ok(())
            },
            Err(e) => Err(io_error(e)),
        }
    }

    /// Finalizes the owned transfer and invalidates the connection on failure.
    fn finish_inner<D, F>(&mut self, flags: &mut TransferFlags, drain: D, finalize: F) -> (r: Result<
        (),
        RemoteError,
    >) where D: FnOnce(R) -> (R, Result<(), IoError>), F: FnOnce(R) -> Result<(), FtpError>
        requires
            old(self).inner is Some,
            !old(self).at_eof ==> call_requires(drain, (old(self).inner->0,)),
            forall|rest: R| call_requires(finalize, (rest,)),
        ensures
            read_finishes(
                old(self).inner->0,
                old(self).at_eof,
                drain,
                finalize,
                check_view(r),
            ),
            *final(flags) == after_cleanup(*old(flags), check_view(r)),
            *final(self) == (FtpReadStream { inner: None, ..*old(self) }),
    {
        let inner = self.inner.take().unwrap();
        let result = finish_read(inner, self.at_eof, drain, finalize);
        if result.is_err() {
            self.guard.invalidate(flags);
        }
        result
    }

    /// Finalizes a transfer after prefix skipping failed, retaining both errors, and ends it.
    pub fn finish_after_skip<D, F>(
        self,
        skip: RemoteError,
        flags: &mut TransferFlags,
        drain: D,
        finalize: F,
    ) -> (r: RemoteError) where
        D: FnOnce(R) -> (R, Result<(), IoError>),
        F: FnOnce(R) -> Result<(), FtpError>,

        requires
            self.inner is Some,
            !self.at_eof ==> call_requires(drain, (self.inner->0,)),
            forall|rest: R| call_requires(finalize, (rest,)),
        ensures
            exists|finished: Option<ErrorView>|
                {
                    &&& #[trigger] read_finishes(
                        self.inner->0,
                        self.at_eof,
                        drain,
                        finalize,
                        finished,
                    )
                    &&& r@ == skip_settled(skip@, finished)
                    &&& *final(flags) == (TransferFlags {
                        active: false,
                        ..after_cleanup(*old(flags), finished)
                    })
                },
    {
        let mut this = self;
        let finished = this.finish_inner(flags, drain, finalize);
        this.guard.release(flags);
        aggregate_skip_failure(skip, finished)
    }

    /// Reads into a buffer with room for `room` bytes. `read` reads up to that many bytes.
    ///
    /// Nothing is read into an empty buffer, nor once the budget is used up. A read that finds
    /// nothing although it asked for something marks the end of the transfer.
    pub fn read<E, F>(&mut self, room: usize, read: F) -> (r: Result<usize, E>) where
        F: FnOnce(R, usize) -> (R, Result<usize, E>),

        requires
            room > 0 ==> old(self).inner is Some,
            forall|limit: usize| limit <= room ==> call_requires(read, (old(self).inner->0, limit)),
            forall|limit: usize, rest: R, n: usize|
                call_ensures(read, (old(self).inner->0, limit), (rest, Ok::<usize, E>(n))) ==> n
                    <= limit,
        ensures
            room == 0 || old(self).remaining == Some(0u64) ==> r == Ok::<usize, E>(0)
                && *final(self) == *old(self),
            !(room == 0 || old(self).remaining == Some(0u64)) ==> exists|rest: R|
                {
                    &&& #[trigger] call_ensures(
                        read,
                        (
                            old(self).inner->0,
                            read_limit(old(self).remaining, room as int) as usize,
                        ),
                        (rest, r),
                    )
                    &&& final(self).inner == Some(rest)
                    &&& final(self).guard == old(self).guard
                    &&& match r {
                        Ok(n) => {
                            &&& spends(old(self).remaining, n as int, final(self).remaining)
                            &&& final(self).at_eof == (old(self).at_eof || n == 0)
                        },
                        Err(_) => {
                            &&& final(self).remaining == old(self).remaining
                            &&& final(self).at_eof == old(self).at_eof
                        },
                    }
                },
            match r {
                Ok(n) => n <= read_limit(old(self).remaining, room as int),
                Err(_) => true,
            },
    {
        if room == 0 {
            return Ok(0);
        }
        let inner = self.inner.take().unwrap();
        let (rest, outcome) = read_limited(inner, &mut self.remaining, room, read);
        self.inner = Some(rest);
        if let Ok(n) = outcome {
            if n == 0 && self.remaining != Some(0u64) {
                self.at_eof = true;
            }
        }
        outcome
    }

    /// Ends the transfer: drains it, reads its completion reply and releases the client.
    pub fn finish<D, F>(self, flags: &mut TransferFlags, drain: D, finalize: F) -> (r: Result<
        (),
        RemoteError,
    >) where D: FnOnce(R) -> (R, Result<(), IoError>), F: FnOnce(R) -> Result<(), FtpError>
        requires
            self.inner is Some,
            !self.at_eof ==> call_requires(drain, (self.inner->0,)),
            forall|rest: R| call_requires(finalize, (rest,)),
        ensures
            read_finishes(self.inner->0, self.at_eof, drain, finalize, check_view(r)),
            *final(flags) == (TransferFlags {
                active: false,
                ..after_cleanup(*old(flags), check_view(r))
            }),
    {
        let mut this = self;
        let result = this.finish_inner(flags, drain, finalize);
        this.guard.release(flags);
        result
    }

    /// What dropping the stream does: an unfinished transfer is ended as by [`Self::finish`], with
    /// nobody to report a failure to, and the client is released.
    pub fn drop_stream<D, F>(self, flags: &mut TransferFlags, drain: D, finalize: F) where
        D: FnOnce(R) -> (R, Result<(), IoError>),
        F: FnOnce(R) -> Result<(), FtpError>,

        requires
            self.inner is Some && !self.at_eof ==> call_requires(drain, (self.inner->0,)),
            forall|rest: R| call_requires(finalize, (rest,)),
        ensures
            self.inner is None ==> *final(flags) == (TransferFlags {
                active: false,
                ..*old(flags)
            }),
            self.inner is Some ==> exists|outcome: Option<ErrorView>|
                {
                    &&& #[trigger] read_finishes(
                        self.inner->0,
                        self.at_eof,
                        drain,
                        finalize,
                        outcome,
                    )
                    &&& *final(flags) == (TransferFlags {
                        active: false,
                        ..after_cleanup(*old(flags), outcome)
                    })
                },
    {
        let mut this = self;
        if this.inner.is_some() {
            let _ = this.finish_inner(flags, drain, finalize);
        }
        this.guard.release(flags);
    }
}

/// Write side of a `STOR` or `APPE` transfer.
pub struct FtpWriteStream<W> {
    /// Taken only when the stream is finished or dropped.
    pub inner: Option<W>,
    /// Released after the cleanup.
    pub guard: TransferGuard,
}

/// How an upload ends: it is flushed, the completion reply is read in any case, and both outcomes
/// are reported.
pub open spec fn write_finishes<W, U, F>(inner: W, flush: U, finalize: F, r: Option<ErrorView>) -> bool
    where U: FnOnce(W) -> (W, Result<(), IoError>), F: FnOnce(W) -> Result<(), FtpError> {
    exists|rest: W, flushed: Result<(), IoError>, finished: Result<(), FtpError>|
        {
            &&& #[trigger] call_ensures(flush, (inner,), (rest, flushed))
            &&& #[trigger] call_ensures(finalize, (rest,), finished)
            &&& r == write_settled(io_outcome(flushed), ftp_outcome(finished))
        }
}

/// Flushes and finalizes an upload, retaining both failures when necessary.
pub fn finish_write<W, U, F>(inner: W, flush: U, finalize: F) -> (r: Result<(), RemoteError>) where
    U: FnOnce(W) -> (W, Result<(), IoError>),
    F: FnOnce(W) -> Result<(), FtpError>,

    requires
        call_requires(flush, (inner,)),
        forall|rest: W| call_requires(finalize, (rest,)),
    ensures
        write_finishes(inner, flush, finalize, check_view(r)),
{
    let (rest, flushed) = flush(inner);
    let finished = finalize(rest);
    settle_write(flushed, finished)
}

impl<W> FtpWriteStream<W> {
    /// Wraps an open `STOR` or `APPE` stream.
    pub fn new(inner: W, guard: TransferGuard) -> (r: Self)
        ensures
            r == (FtpWriteStream { inner: Some(inner), guard }),
    {
        FtpWriteStream { inner: Some(inner), guard }
    }

    /// Hands the data connection to `write`, which writes to it or flushes it.
    pub fn write<T, F>(&mut self, write: F) -> (r: T) where F: FnOnce(W) -> (W, T)
        requires
            old(self).inner is Some,
            call_requires(write, (old(self).inner->0,)),
        ensures
            final(self).inner is Some,
            call_ensures(write, (old(self).inner->0,), (final(self).inner->0, r)),
            final(self).guard == old(self).guard,
    {
        let inner = self.inner.take().unwrap();
        let (rest, outcome) = write(inner);
        self.inner = Some(rest);
        outcome
    }

    /// Ends the transfer: flushes it, reads its completion reply and releases the client.
    pub fn finish<U, F>(self, flags: &mut TransferFlags, flush: U, finalize: F) -> (r: Result<
        (),
        RemoteError,
    >) where U: FnOnce(W) -> (W, Result<(), IoError>), F: FnOnce(W) -> Result<(), FtpError>
        requires
            self.inner is Some,
            call_requires(flush, (self.inner->0,)),
            forall|rest: W| call_requires(finalize, (rest,)),
        ensures
            write_finishes(self.inner->0, flush, finalize, check_view(r)),
            *final(flags) == (TransferFlags {
                active: false,
                ..after_cleanup(*old(flags), check_view(r))
            }),
    {
        let mut this = self;
        let inner = this.inner.take().unwrap();
        let result = finish_write(inner, flush, finalize);
        if result.is_err() {
            this.guard.invalidate(flags);
        }
        this.guard.release(flags);
        result
    }

    /// What dropping the stream does: an unfinished transfer is ended as by [`Self::finish`], with
    /// nobody to report a failure to, and the client is released.
    pub fn drop_stream<U, F>(self, flags: &mut TransferFlags, flush: U, finalize: F) where
        U: FnOnce(W) -> (W, Result<(), IoError>),
        F: FnOnce(W) -> Result<(), FtpError>,

        requires
            self.inner is Some ==> call_requires(flush, (self.inner->0,)),
            forall|rest: W| call_requires(finalize, (rest,)),
        ensures
            self.inner is None ==> *final(flags) == (TransferFlags {
                active: false,
                ..*old(flags)
            }),
            self.inner is Some ==> exists|outcome: Option<ErrorView>|
                {
                    &&& #[trigger] write_finishes(self.inner->0, flush, finalize, outcome)
                    &&& *final(flags) == (TransferFlags {
                        active: false,
                        ..after_cleanup(*old(flags), outcome)
                    })
                },
    {
        let mut this = self;
        if let Some(inner) = this.inner.take() {
            let result = finish_write(inner, flush, finalize);
            if result.is_err() {
                this.guard.invalidate(flags);
            }
        }
        this.guard.release(flags);
    }
}

// ---------------------------------------------------------------------------------------------
// Laws
// ---------------------------------------------------------------------------------------------

/// What a number of reads returned in all.
pub open spec fn total_read(reads: Seq<int>) -> int
    decreases reads.len(),
{
    if reads.len() == 0 {
        0
    } else {
        total_read(reads.drop_last()) + reads.last()
    }
}

/// However often a stream is read, it never returns more bytes than its budget, and what is left of
/// the budget is exactly what has not been returned.
///
/// `budgets[i]` is the budget before read `i`, which returns `reads[i]` bytes.
pub proof fn law_reads_stay_within_the_budget(budgets: Seq<Option<u64>>, reads: Seq<int>)
    requires
        budgets.len() == reads.len() + 1,
        budgets[0] is Some,
        forall|i: int|
            0 <= i < reads.len() ==> spends(#[trigger] budgets[i], reads[i], budgets[i + 1]),
    ensures
        budgets.last() is Some,
        total_read(reads) + budgets.last()->0 == budgets[0]->0,
        total_read(reads) <= budgets[0]->0,
    decreases reads.len(),
{
    if reads.len() > 0 {
        let n = reads.len() - 1;
        assert forall|i: int| 0 <= i < reads.drop_last().len() implies spends(
            #[trigger] budgets.drop_last()[i],
            reads.drop_last()[i],
            budgets.drop_last()[i + 1],
        ) by {
            assert(spends(budgets[i], reads[i], budgets[i + 1]));
        }
        law_reads_stay_within_the_budget(budgets.drop_last(), reads.drop_last());
        assert(spends(budgets[n], reads[n], budgets[n + 1]));
    }
}

/// Ending a download reports every failure: it succeeds only where both draining and the completion
/// reply did, and the completion reply's failure is never lost.
pub proof fn law_ending_a_download_reports_every_failure(
    drained: Option<IoErrorView>,
    finished: Option<FtpErrorView>,
)
    ensures
        read_settled(drained, finished) is None <==> drained is None && finished is None,
        finished is Some ==> read_settled(drained, finished)->0.first_ftp() == finished,
        drained is Some ==> read_settled(drained, finished)->0.kind == io_kind(drained->0.kind),
        drained is None && finished is Some ==> read_settled(drained, finished)->0.kind == ftp_kind(
            finished->0,
        ),
{
    reveal_with_fuel(ErrorView::first_ftp, 4);
    reveal_with_fuel(CauseView::first_ftp, 4);
}

/// Ending an upload reports every failure: it succeeds only where both flushing and the completion
/// reply did, and the completion reply decides the kind where it failed.
pub proof fn law_ending_an_upload_reports_every_failure(
    flushed: Option<IoErrorView>,
    finished: Option<FtpErrorView>,
)
    ensures
        write_settled(flushed, finished) is None <==> flushed is None && finished is None,
        finished is Some ==> write_settled(flushed, finished)->0.first_ftp() == finished,
        finished is Some ==> write_settled(flushed, finished)->0.kind == ftp_kind(finished->0),
{
    reveal_with_fuel(ErrorView::first_ftp, 4);
    reveal_with_fuel(CauseView::first_ftp, 4);
}

/// A failed skip stays the failure that is reported, whatever the cleanup brings: its kind is kept,
/// and it is told apart from the cleanup's failure.
pub proof fn law_a_failed_skip_is_reported(skip: ErrorView, finished: Option<ErrorView>)
    ensures
        skip_settled(skip, finished).kind == skip.kind,
        finished is None ==> skip_settled(skip, finished) == skip,
        finished is Some ==> skip_settled(skip, finished).first_ftp() == finished->0.first_ftp(),
{
    reveal_with_fuel(ErrorView::first_ftp, 2);
    reveal_with_fuel(CauseView::first_ftp, 2);
}

} // verus!
