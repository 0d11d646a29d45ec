//! Owned asynchronous transfer streams.
//!
//! Finishing a stream is asynchronous: [`TokioReadStream::begin_finish`] hands out the data
//! connection and says whether to drain it, and [`TokioReadStream::finish`] takes what came of
//! draining it and of its completion reply.
//!
//! Dropping cannot wait. A download that is dropped before its end marks the control connection
//! unusable, because closing the data connection early can produce two replies where one is
//! expected. Dropped uploads, and downloads at their end, leave one reply, which the next command
//! reads away.
use crate::error::{io_error, io_failure, FtpError, IoError, RemoteError};
use crate::guard::{TransferFlags, TransferGuard};
use crate::list::check_view;
use crate::stream::{
    after_cleanup, aggregate_skip_failure, ftp_outcome, io_outcome, limit_read, read_limit,
    read_settled, settle_read, settle_write, skip_settled, spends, write_settled,
};
use vstd::prelude::*;

verus! {

/// Read side of a `RETR` transfer, optionally limited to a byte budget.
pub struct TokioReadStream<R> {
    /// Taken only when the stream is finished or dropped.
    pub inner: Option<R>,
    /// Bytes still allowed to be returned; `None` reads until the end.
    pub remaining: Option<u64>,
    /// Whether the data connection reached its end.
    pub at_eof: bool,
    /// Released after the cleanup.
    pub guard: TransferGuard,
}

impl<R> TokioReadStream<R> {
    /// Wraps an open `RETR` stream, returning at most `length` bytes.
    pub fn new(inner: R, length: Option<u64>, guard: TransferGuard) -> (r: Self)
        ensures
            r == (TokioReadStream { inner: Some(inner), remaining: length, at_eof: false, guard }),
    {
        TokioReadStream { inner: Some(inner), remaining: length, at_eof: false, guard }
    }

    /// Takes note of a locally handled range prefix: of `offset` bytes to skip, `outcome` says how
    /// many were found. The length budget is not touched.
    pub fn skip_prefix(&mut self, offset: u64, outcome: Result<u64, IoError>) -> (r: Result<
        (),
        RemoteError,
    >)
        ensures
            match outcome {
                Ok(skipped) => {
                    &&& r is Ok
                    &&& *final(self) == (TokioReadStream {
                        at_eof: old(self).at_eof || skipped < offset,
                        ..*old(self)
                    })
                },
                Err(e) => {
                    &&& r is Err
                    &&& r->Err_0@ == io_failure(e@)
                    &&& *final(self) == *old(self)
                },
            },
    {
        match outcome {
            Ok(skipped) => {
                if skipped < offset {
                    self.at_eof = true;
                }
                Ok(())
            },
            Err(e) => Err(io_error(e)),
        }
    }

    /// Polls the data connection for up to `room` bytes; `None` while there is nothing to report.
    ///
    /// Nothing is polled for an empty buffer, nor once the budget is used up. A read that finds
    /// nothing marks the end of the transfer.
    pub fn poll_read<E, F>(&mut self, room: usize, poll: F) -> (r: Option<Result<usize, E>>) where
        F: FnOnce(R, usize) -> (R, Option<Result<usize, E>>),

        requires
            room > 0 && old(self).remaining != Some(0u64) ==> old(self).inner is Some,
            forall|limit: usize| limit <= room ==> call_requires(poll, (old(self).inner->0, limit)),
            forall|limit: usize, rest: R, n: usize|
                call_ensures(
                    poll,
                    (old(self).inner->0, limit),
                    (rest, Some(Ok::<usize, E>(n))),
                ) ==> n <= limit,
        ensures
            room == 0 || old(self).remaining == Some(0u64) ==> r == Some(Ok::<usize, E>(0))
                && *final(self) == *old(self),
            !(room == 0 || old(self).remaining == Some(0u64)) ==> exists|rest: R|
                {
                    &&& #[trigger] call_ensures(
                        poll,
                        (
                            old(self).inner->0,
                            read_limit(old(self).remaining, room as int) as usize,
                        ),
                        (rest, r),
                    )
                    &&& final(self).inner == Some(rest)
                    &&& final(self).guard == old(self).guard
                    &&& match r {
                        Some(Ok(n)) => {
                            &&& spends(old(self).remaining, n as int, final(self).remaining)
                            &&& final(self).at_eof == (old(self).at_eof || n == 0)
                        },
                        _ => {
                            &&& final(self).remaining == old(self).remaining
                            &&& final(self).at_eof == old(self).at_eof
                        },
                    }
                },
            match r {
                Some(Ok(n)) => n <= read_limit(old(self).remaining, room as int),
                _ => true,
            },
    {
        if room == 0 {
            return Some(Ok(0));
        }
        if let Some(budget) = self.remaining {
            if budget == 0 {
                return Some(Ok(0));
            }
        }
        let limit: usize = limit_read(self.remaining, room);
        let inner = self.inner.take().unwrap();
        let (rest, outcome) = poll(inner, limit);
        self.inner = Some(rest);
        if let Some(Ok(n)) = outcome {
            proof {
                assert(call_ensures(poll, (inner, limit), (rest, Some(Ok::<usize, E>(n)))));
            }
            if let Some(budget) = self.remaining {
                self.remaining = Some(budget - n as u64);
            }
            if n == 0 {
                self.at_eof = true;
            }
        }
        outcome
    }

    /// Hands out the data connection for its end, and whether unread data is to be drained first.
    pub fn begin_finish(&mut self) -> (r: (R, bool))
        requires
            old(self).inner is Some,
        ensures
            r == (old(self).inner->0, !old(self).at_eof),
            *final(self) == (TokioReadStream { inner: None, ..*old(self) }),
    {
        let inner = self.inner.take().unwrap();
        (inner, !self.at_eof)
    }

    /// Settles the owned transfer and invalidates the connection on failure. A transfer that was at
    /// its end counts as drained.
    pub fn finish_inner(
        &self,
        flags: &mut TransferFlags,
        drained: Result<(), IoError>,
        finished: Result<(), FtpError>,
    ) -> (r: Result<(), RemoteError>)
        ensures
            check_view(r) == read_settled(io_outcome(drained), ftp_outcome(finished)),
            *final(flags) == after_cleanup(*old(flags), check_view(r)),
    {
        let result = settle_read(drained, finished);
        if result.is_err() {
            self.guard.invalidate(flags);
        }
        result
    }

    /// Settles a transfer after prefix skipping failed, retaining both errors, and ends it.
    pub fn finish_after_skip(
        self,
        skip: RemoteError,
        flags: &mut TransferFlags,
        drained: Result<(), IoError>,
        finished: Result<(), FtpError>,
    ) -> (r: RemoteError)
        ensures
            ({
                let outcome = read_settled(io_outcome(drained), ftp_outcome(finished));
                &&& r@ == skip_settled(skip@, outcome)
                &&& *final(flags) == (TransferFlags {
                    active: false,
                    ..after_cleanup(*old(flags), outcome)
                })
            }),
    {
        let outcome = self.finish_inner(flags, drained, finished);
        self.guard.release(flags);
        aggregate_skip_failure(skip, outcome)
    }

    /// Settles the transfer and releases the client.
    pub fn finish(
        self,
        flags: &mut TransferFlags,
        drained: Result<(), IoError>,
        finished: Result<(), FtpError>,
    ) -> (r: Result<(), RemoteError>)
        ensures
            check_view(r) == read_settled(io_outcome(drained), ftp_outcome(finished)),
            *final(flags) == (TransferFlags {
                active: false,
                ..after_cleanup(*old(flags), check_view(r))
            }),
    {
        let result = self.finish_inner(flags, drained, finished);
        self.guard.release(flags);
        result
    }

    /// What dropping the stream does: a download that has not reached its end leaves the connection
    /// unusable, and the client is released.
    pub fn drop_stream(self, flags: &mut TransferFlags)
        ensures
            *final(flags) == (TransferFlags {
                active: false,
                connection_usable: old(flags).connection_usable && (self.inner is None
                    || self.at_eof),
            }),
    {
        if self.inner.is_some() && !self.at_eof {
            self.guard.invalidate(flags);
        }
        self.guard.release(flags);
    }
}

/// Write side of a `STOR` or `APPE` transfer.
pub struct TokioWriteStream<W> {
    /// Taken only when the stream is finished or dropped.
    pub inner: Option<W>,
    /// Released after the cleanup.
    pub guard: TransferGuard,
}

impl<W> TokioWriteStream<W> {
    /// Wraps an open `STOR` or `APPE` stream.
    pub fn new(inner: W, guard: TransferGuard) -> (r: Self)
        ensures
            r == (TokioWriteStream { inner: Some(inner), guard }),
    {
        TokioWriteStream { inner: Some(inner), guard }
    }

    /// Hands the data connection to `poll`, which polls it for writing, flushing or closing.
    pub fn poll_write<T, F>(&mut self, poll: F) -> (r: T) where F: FnOnce(W) -> (W, T)
        requires
            old(self).inner is Some,
            call_requires(poll, (old(self).inner->0,)),
        ensures
            final(self).inner is Some,
            call_ensures(poll, (old(self).inner->0,), (final(self).inner->0, r)),
            final(self).guard == old(self).guard,
    {
        let inner = self.inner.take().unwrap();
        let (rest, outcome) = poll(inner);
        self.inner = Some(rest);
        outcome
    }

    /// Hands out the data connection, to be flushed and to have its completion reply read.
    pub fn begin_finish(&mut self) -> (r: W)
        requires
            old(self).inner is Some,
        ensures
            r == old(self).inner->0,
            *final(self) == (TokioWriteStream { inner: None, ..*old(self) }),
    {
        self.inner.take().unwrap()
    }

    /// Settles the transfer and releases the client.
    pub fn finish(
        self,
        flags: &mut TransferFlags,
        flushed: Result<(), IoError>,
        finished: Result<(), FtpError>,
    ) -> (r: Result<(), RemoteError>)
        ensures
            check_view(r) == write_settled(io_outcome(flushed), ftp_outcome(finished)),
            *final(flags) == (TransferFlags {
                active: false,
                ..after_cleanup(*old(flags), check_view(r))
            }),
    {
        let result = settle_write(flushed, finished);
        if result.is_err() {
            self.guard.invalidate(flags);
        }
        self.guard.release(flags);
        result
    }

    /// What dropping the stream does: the client is released.
    pub fn drop_stream(self, flags: &mut TransferFlags)
        ensures
            *final(flags) == (TransferFlags { active: false, ..*old(flags) }),
    {
        self.guard.release(flags);
    }
}

} // verus!
