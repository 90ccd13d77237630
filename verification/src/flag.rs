//! Flag lifecycle states and the scoring service's batch-protocol replies.

use vstd::prelude::*;

verus! {

/// The possible states of a flag in the ledger.
#[derive(Debug, Copy, Clone, PartialEq, Eq, Structural)]
pub enum FlagStatus {
    /// Not yet submitted to the scoring service.
    Pending,
    /// Successfully submitted and accepted.
    Accepted,
    /// Submitted but rejected (invalid, too old, and so on).
    Rejected,
    /// An error occurred during submission.
    Error,
}

/// A per-flag verdict reported by the batch protocol's scoring service.
#[derive(Debug, Copy, Clone, PartialEq, Eq, Structural)]
pub enum SubmitterHTTPStatus {
    Accepted,
    Denied,
    Resubmit,
    Error,
}

/// How a batch-protocol verdict maps onto the ledger's flag states:
/// `Resubmit` sends the flag back to `Pending` so a later cycle retries it.
pub open spec fn spec_status_from(status: SubmitterHTTPStatus) -> FlagStatus {
    match status {
        SubmitterHTTPStatus::Accepted => FlagStatus::Accepted,
        SubmitterHTTPStatus::Denied => FlagStatus::Rejected,
        SubmitterHTTPStatus::Resubmit => FlagStatus::Pending,
        SubmitterHTTPStatus::Error => FlagStatus::Error,
    }
}

impl From<SubmitterHTTPStatus> for FlagStatus {
    fn from(status: SubmitterHTTPStatus) -> (r: FlagStatus)
        ensures
            r == spec_status_from(status),
    {
        match status {
            SubmitterHTTPStatus::Accepted => FlagStatus::Accepted,
            SubmitterHTTPStatus::Denied => FlagStatus::Rejected,
            SubmitterHTTPStatus::Resubmit => FlagStatus::Pending,
            SubmitterHTTPStatus::Error => FlagStatus::Error,
        }
    }
}

impl vstd::std_specs::convert::FromSpecImpl<SubmitterHTTPStatus> for FlagStatus {
    open spec fn obeys_from_spec() -> bool {
        true
    }

    open spec fn from_spec(status: SubmitterHTTPStatus) -> FlagStatus {
        spec_status_from(status)
    }
}

/// One element of the scoring service's reply to a batch submission:
/// a message, the flag it concerns, and the verdict.
#[derive(Debug, Clone)]
pub struct SubmitterHTTPResponse {
    pub message: Vec<u8>,
    pub flag: Vec<u8>,
    pub status: SubmitterHTTPStatus,
}

/// The mathematical image of one batch-protocol reply element.
pub struct HttpResponseModel {
    pub message: Seq<u8>,
    pub flag: Seq<u8>,
    pub status: SubmitterHTTPStatus,
}

impl View for SubmitterHTTPResponse {
    type V = HttpResponseModel;

    open spec fn view(&self) -> HttpResponseModel {
        HttpResponseModel { message: self.message@, flag: self.flag@, status: self.status }
    }
}

impl DeepView for SubmitterHTTPResponse {
    type V = HttpResponseModel;

    open spec fn deep_view(&self) -> HttpResponseModel {
        self.view()
    }
}

impl FlagStatus {
    /// The status's name, as it is shown and as the on-disk mirror stores it.
    pub fn label(&self) -> (r: &'static str)
        ensures
            r@ == self.spec_label(),
    {
        proof {
            reveal_strlit("Pending");
            reveal_strlit("Accepted");
            reveal_strlit("Rejected");
            reveal_strlit("Error");
        }
        match self {
            FlagStatus::Pending => "Pending",
            FlagStatus::Accepted => "Accepted",
            FlagStatus::Rejected => "Rejected",
            FlagStatus::Error => "Error",
        }
    }

    pub open spec fn spec_label(self) -> Seq<char> {
        match self {
            FlagStatus::Pending => "Pending"@,
            FlagStatus::Accepted => "Accepted"@,
            FlagStatus::Rejected => "Rejected"@,
            FlagStatus::Error => "Error"@,
        }
    }
}

} // verus!
