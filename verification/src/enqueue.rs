//! The enqueue gateway: the one operation exposed after bootstrap.
//!
//! A batch of store-path identifiers is handed to the push session in its
//! submitted order; an empty batch succeeds without touching the session at
//! all, and a rejection by the session is propagated to the caller
//! unchanged.

use vstd::prelude::*;

use crate::error::Error;

verus! {

/// What the push session said to a submitted batch.
#[derive(Debug, Clone, PartialEq, Eq)]
pub enum SessionVerdict {
    Accepted,
    Rejected { message: String },
}

/// Plans a submission: an empty batch is submitted nowhere, a non-empty one
/// goes to the session whole and in order.
pub fn plan_enqueue(paths: Vec<String>) -> (r: Option<Vec<String>>)
    ensures
        (paths@.len() == 0) <==> (r is None),
        r matches Some(batch) && batch == paths || r is None,
{
    if paths.len() == 0 {
        None
    } else {
        Some(paths)
    }
}

/// Turns the session's verdict into the gateway's result: acceptance is
/// success, a rejection is the session's own message, verbatim.
pub fn enqueue_outcome(verdict: SessionVerdict) -> (r: Result<(), Error>)
    ensures
        verdict matches SessionVerdict::Accepted ==> r is Ok,
        verdict matches SessionVerdict::Rejected { message } ==> r == Err::<(), Error>(
            Error::Session { message },
        ),
{
    match verdict {
        SessionVerdict::Accepted => Ok(()),
        SessionVerdict::Rejected { message } => Err(Error::Session { message }),
    }
}

} // verus!
