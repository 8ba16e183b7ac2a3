//! Stopping work that runs elsewhere.

use crate::error::{Error, ErrorView, Result};
use core::sync::atomic::AtomicBool;
use std::sync::Arc;
use vstd::prelude::*;

verus! {

/// A flag that work elsewhere looks at. Its copies share the flag.
#[derive(Debug)]
pub struct CancellationToken {
    cancelled: Arc<AtomicBool>,
}

impl CancellationToken {
    /// A flag that is not set.
    pub fn new() -> Self {
        CancellationToken { cancelled: Arc::new(AtomicBool::new(false)) }
    }

    /// A copy that shares the flag.
    pub fn share(&self) -> (r: Self)
        ensures
            r == *self,
    {
        CancellationToken { cancelled: self.cancelled.clone() }
    }

    /// Sets the flag.
    pub fn cancel(&self) {
        self.cancelled.store(true, core::sync::atomic::Ordering::SeqCst);
    }

    /// Whether the flag is set. Another holder may set it at any time.
    pub fn is_cancelled(&self) -> bool {
        self.cancelled.load(core::sync::atomic::Ordering::SeqCst)
    }

    /// Fails where the flag turns out to be set, and in no other way.
    pub fn check(&self) -> (r: Result<()>)
        ensures
            exists|set: bool| #[trigger]
                call_ensures(CancellationToken::is_cancelled, (self,), set) && (r is Err <==> set),
            r is Err ==> r->Err_0.deep_view() == ErrorView::UserCancelled,
    {
        let set: bool = self.is_cancelled();
        assert(call_ensures(CancellationToken::is_cancelled, (self,), set));
        go_on(set)
    }
}

/// Fails where the work was stopped.
pub fn go_on(cancelled: bool) -> (r: Result<()>)
    ensures
        r is Err <==> cancelled,
        r is Err ==> r->Err_0.deep_view() == ErrorView::UserCancelled,
{
    if cancelled {
        Err(Error::UserCancelled)
    } else {
        Ok(())
    }
}

} // verus!
