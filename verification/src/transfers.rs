//! What a transfer stream does to its data connection, its budget and its client.
//!
//! The laws here speak of single calls: `call_ensures` of a function, its arguments and a result says
//! that the call can have that result.
use crate::error::{io_failure, CauseView, ErrorView, FtpError, IoError, RemoteError};
use crate::guard::{TransferFlags, TransferGuard};
use crate::laws::{download_ended, law_ending_a_download_drains_it};
use crate::list::check_view;
use crate::stream::{read_finishes, write_finishes, FtpReadStream, FtpWriteStream};
use crate::tokio_stream::{TokioReadStream, TokioWriteStream};
use vstd::prelude::*;

verus! {

/// How much a read asks for: what there is room for, and no more than the budget.
pub open spec fn asked_for(budget: Option<u64>, room: usize) -> usize {
    if budget is Some && budget->0 < room {
        budget->0 as usize
    } else {
        room
    }
}

/// Whether a read of `n` bytes leaves this budget.
pub open spec fn left_over(before: Option<u64>, n: int, after: Option<u64>) -> bool {
    &&& before is None ==> after is None
    &&& before is Some ==> after is Some && after->0 == before->0 - n
}

/// A read asks for as much as there is room and budget for, returns what it got, and counts it against
/// the budget. It reads nothing where there is no room or no budget left. One that got nothing although
/// it asked found the end; a failure changes neither budget nor end.
pub proof fn law_reads_count_against_the_budget<R, E, F>(
    s: &mut FtpReadStream<R>,
    room: usize,
    read: F,
    r: Result<usize, E>,
) where F: FnOnce(R, usize) -> (R, Result<usize, E>)
    requires
        call_ensures(FtpReadStream::<R>::read::<E, F>, (s, room, read), r),
    ensures
        room == 0 || old(s).remaining == Some(0u64) ==> r == Ok::<usize, E>(0) && *final(s) == *old(s),
        room > 0 && old(s).remaining != Some(0u64) ==> {
            &&& final(s).inner is Some
            &&& call_ensures(
                read,
                (old(s).inner->0, asked_for(old(s).remaining, room)),
                (final(s).inner->0, r),
            )
            &&& r matches Ok(n) ==> {
                &&& n <= asked_for(old(s).remaining, room)
                &&& left_over(old(s).remaining, n as int, final(s).remaining)
                &&& final(s).at_eof <==> old(s).at_eof || n == 0
            }
            &&& r is Err ==> final(s).remaining == old(s).remaining && final(s).at_eof == old(s).at_eof
        },
{
}

/// A poll asks for as much as there is room and budget for, returns what it got, and counts it against
/// the budget. It asks for nothing where there is no room or no budget left. One that got nothing
/// although it asked found the end; a failure, and a poll that is not ready, change neither budget nor
/// end.
pub proof fn law_polls_count_against_the_budget<R, E, F>(
    s: &mut TokioReadStream<R>,
    room: usize,
    poll: F,
    r: Option<Result<usize, E>>,
) where F: FnOnce(R, usize) -> (R, Option<Result<usize, E>>)
    requires
        call_ensures(TokioReadStream::<R>::poll_read::<E, F>, (s, room, poll), r),
    ensures
        room == 0 || old(s).remaining == Some(0u64) ==> r == Some(Ok::<usize, E>(0)) && *final(s)
            == *old(s),
        room > 0 && old(s).remaining != Some(0u64) ==> {
            &&& final(s).inner is Some
            &&& call_ensures(
                poll,
                (old(s).inner->0, asked_for(old(s).remaining, room)),
                (final(s).inner->0, r),
            )
            &&& r matches Some(Ok(n)) ==> {
                &&& n <= asked_for(old(s).remaining, room)
                &&& left_over(old(s).remaining, n as int, final(s).remaining)
                &&& final(s).at_eof <==> old(s).at_eof || n == 0
            }
            &&& !(r is Some && r->0 is Ok) ==> final(s).remaining == old(s).remaining
                && final(s).at_eof == old(s).at_eof
        },
{
}

/// Skipping a prefix asks for exactly that many bytes and leaves the budget alone. Where fewer were
/// found, the end was; a failure is the failure.
pub proof fn law_skipping_leaves_the_budget_alone<R, C>(
    s: &mut FtpReadStream<R>,
    offset: u64,
    copy: C,
    r: Result<(), RemoteError>,
) where C: FnOnce(R, u64) -> (R, Result<u64, IoError>)
    requires
        call_ensures(FtpReadStream::<R>::skip_prefix::<C>, (s, offset, copy), r),
    ensures
        final(s).inner is Some,
        final(s).remaining == old(s).remaining,
        final(s).guard == old(s).guard,
        exists|skipped: Result<u64, IoError>|
            {
                &&& #[trigger] call_ensures(
                    copy,
                    (old(s).inner->0, offset),
                    (final(s).inner->0, skipped),
                )
                &&& skipped is Ok <==> r is Ok
                &&& skipped matches Ok(n) ==> (final(s).at_eof <==> old(s).at_eof || n < offset)
                &&& skipped matches Err(e) ==> r->Err_0@ == io_failure(e@)
                    && final(s).at_eof == old(s).at_eof
            },
{
    let (rest, skipped) = choose|rest: R, skipped: Result<u64, IoError>|
        {
            &&& #[trigger] call_ensures(copy, (old(s).inner->0, offset), (rest, skipped))
            &&& *final(s) == (FtpReadStream {
                inner: Some(rest),
                at_eof: old(s).at_eof || (skipped is Ok && skipped->Ok_0 < offset),
                ..*old(s)
            })
            &&& match skipped {
                Ok(_) => r is Ok,
                Err(e) => r is Err && r->Err_0@ == io_failure(e@),
            }
        };
    assert(call_ensures(copy, (old(s).inner->0, offset), (final(s).inner->0, skipped)));
}

/// Taking note of a skipped prefix leaves the budget alone. Where fewer bytes were found, the end was; a
/// failure is the failure, and changes nothing.
pub proof fn law_noting_a_skip_leaves_the_budget_alone<R>(
    s: &mut TokioReadStream<R>,
    offset: u64,
    outcome: Result<u64, IoError>,
    r: Result<(), RemoteError>,
)
    requires
        call_ensures(TokioReadStream::<R>::skip_prefix, (s, offset, outcome), r),
    ensures
        final(s).inner == old(s).inner,
        final(s).remaining == old(s).remaining,
        final(s).guard == old(s).guard,
        r is Ok <==> outcome is Ok,
        outcome matches Ok(n) ==> (final(s).at_eof <==> old(s).at_eof || n < offset),
        outcome matches Err(e) ==> r->Err_0@ == io_failure(e@) && final(s).at_eof == old(s).at_eof,
{
}

/// Whether a transfer that ended left its client so: free, and with a usable connection exactly where
/// it had one and the end succeeded.
pub open spec fn set_free(before: TransferFlags, ok: bool, after: TransferFlags) -> bool {
    &&& !after.active
    &&& after.connection_usable <==> before.connection_usable && ok
}

/// Finishing a download drains it, reads its completion reply and sets the client free.
pub proof fn law_finishing_a_download_frees_the_client<R, D, F>(
    s: FtpReadStream<R>,
    flags: &mut TransferFlags,
    drain: D,
    finalize: F,
    r: Result<(), RemoteError>,
) where D: FnOnce(R) -> (R, Result<(), IoError>), F: FnOnce(R) -> Result<(), FtpError>
    requires
        call_ensures(FtpReadStream::<R>::finish::<D, F>, (s, flags, drain, finalize), r),
    ensures
        set_free(*old(flags), r is Ok, *final(flags)),
        exists|rest: R, drained: Result<(), IoError>, finished: Result<(), FtpError>| #[trigger]
            download_ended(
                s.inner->0,
                s.at_eof,
                drain,
                finalize,
                check_view(r),
                rest,
                drained,
                finished,
            ),
{
    law_ending_a_download_drains_it(
        s.inner->0,
        s.at_eof,
        drain,
        finalize,
        check_view(r),
    );
}

/// Settling a download succeeds exactly where draining and the completion reply did, and sets the client
/// free; so does settling an upload, with flushing in the place of draining.
pub proof fn law_settling_frees_the_client<R, W>(
    s: TokioReadStream<R>,
    w: TokioWriteStream<W>,
    flags: &mut TransferFlags,
    others: &mut TransferFlags,
    first: Result<(), IoError>,
    finished: Result<(), FtpError>,
    r: Result<(), RemoteError>,
    q: Result<(), RemoteError>,
)
    requires
        call_ensures(TokioReadStream::<R>::finish, (s, flags, first, finished), r),
        call_ensures(TokioWriteStream::<W>::finish, (w, others, first, finished), q),
    ensures
        r is Ok <==> first is Ok && finished is Ok,
        q is Ok <==> first is Ok && finished is Ok,
        set_free(*old(flags), r is Ok, *final(flags)),
        set_free(*old(others), q is Ok, *final(others)),
{
}

/// A download whose prefix could not be skipped is ended all the same, and sets the client free. What is
/// reported is of the kind of the failed skip, and is that failure itself where the end succeeded.
pub proof fn law_failed_skips_end_the_download<R, D, F>(
    s: FtpReadStream<R>,
    skip: RemoteError,
    flags: &mut TransferFlags,
    drain: D,
    finalize: F,
    r: RemoteError,
) where D: FnOnce(R) -> (R, Result<(), IoError>), F: FnOnce(R) -> Result<(), FtpError>
    requires
        call_ensures(
            FtpReadStream::<R>::finish_after_skip::<D, F>,
            (s, skip, flags, drain, finalize),
            r,
        ),
    ensures
        r@.kind == skip@.kind,
        exists|outcome: Option<ErrorView>|
            {
                &&& #[trigger] read_finishes(s.inner->0, s.at_eof, drain, finalize, outcome)
                &&& set_free(*old(flags), outcome is None, *final(flags))
                &&& outcome is None ==> r@ == skip@
                &&& outcome is Some ==> r@.source == Some(
                    CauseView::SkipCleanup {
                        skip: Box::new(skip@),
                        finish: Box::new(outcome->0),
                    },
                )
            },
{
}

/// The same holds of an asynchronous download, whose end succeeded exactly where draining and the
/// completion reply did.
pub proof fn law_failed_skips_settle_the_download<R>(
    s: TokioReadStream<R>,
    skip: RemoteError,
    flags: &mut TransferFlags,
    drained: Result<(), IoError>,
    finished: Result<(), FtpError>,
    r: RemoteError,
)
    requires
        call_ensures(
            TokioReadStream::<R>::finish_after_skip,
            (s, skip, flags, drained, finished),
            r,
        ),
    ensures
        r@.kind == skip@.kind,
        set_free(*old(flags), drained is Ok && finished is Ok, *final(flags)),
        drained is Ok && finished is Ok ==> r@ == skip@,
        !(drained is Ok && finished is Ok) ==> r@.source is Some
            && r@.source->0 is SkipCleanup && *(r@.source->0->skip) == skip@,
{
}

/// The end of an asynchronous stream is handed the whole connection, and drains a download exactly where
/// it is not at its end.
pub proof fn law_ending_takes_the_connection<R, W>(
    s: &mut TokioReadStream<R>,
    w: &mut TokioWriteStream<W>,
    r: (R, bool),
    q: W,
)
    requires
        call_ensures(TokioReadStream::<R>::begin_finish, (s,), r),
        call_ensures(TokioWriteStream::<W>::begin_finish, (w,), q),
        old(s).inner is Some,
        old(w).inner is Some,
    ensures
        old(s).inner == Some(r.0),
        r.1 <==> !old(s).at_eof,
        final(s).inner is None,
        final(s).at_eof == old(s).at_eof,
        final(s).remaining == old(s).remaining,
        old(w).inner == Some(q),
        final(w).inner is None,
{
}

/// Dropping an asynchronous stream sets the client free. A download that was neither finished nor at its
/// end costs the connection; an upload never does.
pub proof fn law_dropping_frees_the_client<R, W>(
    s: TokioReadStream<R>,
    w: TokioWriteStream<W>,
    flags: &mut TransferFlags,
    others: &mut TransferFlags,
)
    requires
        call_ensures(TokioReadStream::<R>::drop_stream, (s, flags), ()),
        call_ensures(TokioWriteStream::<W>::drop_stream, (w, others), ()),
    ensures
        set_free(*old(flags), s.inner is None || s.at_eof, *final(flags)),
        set_free(*old(others), true, *final(others)),
{
}

/// Dropping a download that was finished sets the client free and does nothing else; one that was not
/// is ended first, as finishing it does, and costs the connection where that fails.
pub proof fn law_dropping_a_download_ends_it<R, D, F>(
    s: FtpReadStream<R>,
    flags: &mut TransferFlags,
    drain: D,
    finalize: F,
) where D: FnOnce(R) -> (R, Result<(), IoError>), F: FnOnce(R) -> Result<(), FtpError>
    requires
        call_ensures(FtpReadStream::<R>::drop_stream::<D, F>, (s, flags, drain, finalize), ()),
    ensures
        s.inner is None ==> set_free(*old(flags), true, *final(flags)),
        s.inner is Some ==> exists|outcome: Option<ErrorView>|
            {
                &&& #[trigger] read_finishes(
                    s.inner->0,
                    s.at_eof,
                    drain,
                    finalize,
                    outcome,
                )
                &&& set_free(*old(flags), outcome is None, *final(flags))
            },
{
}

/// Dropping an upload that was finished sets the client free and does nothing else; one that was not is
/// ended first, as finishing it does, and costs the connection where that fails.
pub proof fn law_dropping_an_upload_ends_it<W, U, F>(
    s: FtpWriteStream<W>,
    flags: &mut TransferFlags,
    flush: U,
    finalize: F,
) where U: FnOnce(W) -> (W, Result<(), IoError>), F: FnOnce(W) -> Result<(), FtpError>
    requires
        call_ensures(FtpWriteStream::<W>::drop_stream::<U, F>, (s, flags, flush, finalize), ()),
    ensures
        s.inner is None ==> set_free(*old(flags), true, *final(flags)),
        s.inner is Some ==> exists|outcome: Option<ErrorView>|
            {
                &&& #[trigger] write_finishes(s.inner->0, flush, finalize, outcome)
                &&& set_free(*old(flags), outcome is None, *final(flags))
            },
{
}

/// Finishing an upload ends it and sets the client free.
pub proof fn law_finishing_an_upload_frees_the_client<W, U, F>(
    s: FtpWriteStream<W>,
    flags: &mut TransferFlags,
    flush: U,
    finalize: F,
    r: Result<(), RemoteError>,
) where U: FnOnce(W) -> (W, Result<(), IoError>), F: FnOnce(W) -> Result<(), FtpError>
    requires
        call_ensures(FtpWriteStream::<W>::finish::<U, F>, (s, flags, flush, finalize), r),
    ensures
        set_free(*old(flags), r is Ok, *final(flags)),
        write_finishes(s.inner->0, flush, finalize, check_view(r)),
{
}

/// A new stream has its whole connection and its whole budget, and is not at its end.
pub proof fn law_new_streams_have_their_budget<R>(
    inner: R,
    length: Option<u64>,
    guard: TransferGuard,
    s: FtpReadStream<R>,
    t: TokioReadStream<R>,
)
    requires
        call_ensures(FtpReadStream::<R>::new, (inner, length, guard), s),
        call_ensures(TokioReadStream::<R>::new, (inner, length, guard), t),
    ensures
        s.inner == Some(inner) && s.remaining == length && !s.at_eof,
        t.inner == Some(inner) && t.remaining == length && !t.at_eof,
{
}

/// A guard takes away a usable connection, or sets the client free, and does nothing else.
pub proof fn law_guards_touch_their_own_flag(
    guard: TransferGuard,
    kept: &TransferGuard,
    flags: &mut TransferFlags,
    others: &mut TransferFlags,
)
    requires
        call_ensures(TransferGuard::release, (guard, flags), ()),
        call_ensures(TransferGuard::invalidate, (kept, others), ()),
    ensures
        !final(flags).active,
        final(flags).connection_usable == old(flags).connection_usable,
        !final(others).connection_usable,
        final(others).active == old(others).active,
{
}

} // verus!
