//! The cancellation token of a search.
//!
//! The token is a flag shared with whoever may cancel the search. The search
//! only reads it, and nothing can be said of what one reading returns.

use std::sync::atomic::AtomicBool;
use std::sync::atomic::Ordering;
use vstd::prelude::*;

verus! {

/// Whether cancellation has been requested at this moment.
pub fn is_cancelled(token: &AtomicBool) -> bool {
    token.load(Ordering::SeqCst)
}

} // verus!
