//! Transfer bookkeeping.
//!
//! A [`TransferGuard`] stands for a transfer stream that is alive: while it exists the client is
//! busy, and through it a failed cleanup marks the control connection unusable.
use vstd::prelude::*;

verus! {

/// The flags that a client shares with its transfer streams.
#[derive(Clone, Copy, Debug, PartialEq, Eq, Structural)]
pub struct TransferFlags {
    /// Raised while a transfer stream is alive.
    pub active: bool,
    /// Cleared when replies may have been left unread.
    pub connection_usable: bool,
}

/// Marks a client as having an in-flight transfer until it is released.
#[derive(Debug)]
pub struct TransferGuard {
    raised: bool,
}

impl TransferGuard {
    /// Whether the guard was made for a flag that was up.
    pub closed spec fn raised(self) -> bool {
        self.raised
    }

    /// Takes ownership of an already-raised `active` flag.
    pub fn new(flags: &TransferFlags) -> (r: Self)
        ensures
            r.raised() == flags.active,
    {
        TransferGuard { raised: flags.active }
    }

    /// Marks the control connection unusable until the client reconnects.
    pub fn invalidate(&self, flags: &mut TransferFlags)
        ensures
            *final(flags) == (TransferFlags { connection_usable: false, ..*old(flags) }),
    {
        flags.connection_usable = false;
    }

    /// Ends the transfer: what dropping the guard does.
    pub fn release(self, flags: &mut TransferFlags)
        ensures
            *final(flags) == (TransferFlags { active: false, ..*old(flags) }),
    {
        flags.active = false;
    }
}

} // verus!
