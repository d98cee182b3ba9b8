//! The cancellation signal of a search.

use std::sync::atomic::AtomicBool;
use std::sync::atomic::Ordering;
use vstd::prelude::*;

verus! {

/// A signal that asks a running search to stop. It is set from outside the
/// search and polled from inside; once set it stays set.
///
/// A token is armed or not. Only an armed token can be set: a search that
/// is given a token that is not armed runs to its end.
pub struct CancelToken {
    flag: AtomicBool,
    armed: bool,
}

impl CancelToken {
    /// Whether the token can be set.
    pub closed spec fn armed(&self) -> bool {
        self.armed
    }

    /// An armed token that is not set.
    pub fn new() -> (token: CancelToken)
        ensures
            token.armed(),
    {
        CancelToken { flag: AtomicBool::new(false), armed: true }
    }

    /// A token that is not armed: it is never seen set.
    pub fn never() -> (token: CancelToken)
        ensures
            !token.armed(),
    {
        CancelToken { flag: AtomicBool::new(false), armed: false }
    }

    /// Sets the signal. A token that is not armed takes no notice.
    pub fn cancel(&self) {
        if self.armed {
            self.flag.store(true, Ordering::Release);
        }
    }

    /// Whether the signal is set at the time of the call. Another thread may
    /// set an armed token at any time, so two calls may differ.
    pub fn is_cancelled(&self) -> (set: bool)
        ensures
            !self.armed() ==> !set,
    {
        self.armed && self.flag.load(Ordering::Acquire)
    }
}

} // verus!
