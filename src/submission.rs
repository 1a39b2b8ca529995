//! The submission client's decision: what the node's answer to a signed
//! transaction means for its tracking.
use vstd::prelude::*;
use crate::tracker::{OutcomeView, TrackView, Tracker, TrackState, Outcome};

verus! {

/// The node's answer to a signed transaction.
#[derive(Debug, Clone)]
pub enum SubmitReply {
    /// Taken; its status subscription is open.
    Accepted,
    /// The endpoint could not be reached.
    Unreachable,
    /// The node refused the signed envelope.
    Rejected { reason: String },
}

/// A submission that never reached the chain.
#[derive(PartialEq, Eq, Structural, Debug, Clone, Copy)]
pub enum SubmitError {
    TransportUnavailable,
}

/// The tracker that a submission starts: waiting when the node took the
/// transaction, already resolved when it refused it; no tracker when the
/// endpoint could not be reached.
pub fn start_tracking(reply: SubmitReply) -> (r: Result<Tracker, SubmitError>)
    ensures
        match reply {
            SubmitReply::Accepted => r matches Ok(t) && t@ == TrackView::Submitted,
            SubmitReply::Unreachable => r matches Err(e) && e == SubmitError::TransportUnavailable,
            SubmitReply::Rejected { reason } => r matches Ok(t) && t@ == TrackView::Resolved(
                OutcomeView::SignatureRejected(reason@),
            ),
        },
{
    match reply {
        SubmitReply::Accepted => Ok(Tracker::new()),
        SubmitReply::Unreachable => Err(SubmitError::TransportUnavailable),
        SubmitReply::Rejected { reason } => Ok(
            Tracker { state: TrackState::Resolved(Outcome::SignatureRejected { reason }) },
        ),
    }
}

} // verus!
