//! Low-cardinality request observability shared by the delivery adapters: transport outcomes and
//! byte counts only, never paths, queries, headers, cookies, credentials or payloads.

use vstd::prelude::*;

verus! {

/// Stable low-cardinality outcome for one completed downstream request.
#[derive(Debug, Clone, Copy, PartialEq, Eq, Structural)]
pub enum RequestOutcome {
    /// The request lifecycle completed without an error.
    Success,
    /// The request lifecycle completed with an error.
    Error,
}

/// Payload-free observation produced at the end of a downstream request lifecycle.
#[derive(Debug, Clone, Copy, PartialEq, Eq, Structural)]
pub struct RequestObservation {
    status: u16,
    outcome: RequestOutcome,
    request_body_bytes: u64,
}

impl RequestObservation {
    pub closed spec fn spec_status(self) -> u16 {
        self.status
    }

    pub closed spec fn spec_outcome(self) -> RequestOutcome {
        self.outcome
    }

    pub closed spec fn spec_request_body_bytes(self) -> u64 {
        self.request_body_bytes
    }

    /// Builds an observation from transport-only completion facts.
    pub fn from_parts(status: u16, had_error: bool, request_body_bytes: u64) -> (r: Self)
        ensures
            r.spec_status() == status,
            r.spec_outcome() == (if had_error { RequestOutcome::Error } else { RequestOutcome::Success }),
            r.spec_request_body_bytes() == request_body_bytes,
    {
        RequestObservation {
            status,
            outcome: if had_error {
                RequestOutcome::Error
            } else {
                RequestOutcome::Success
            },
            request_body_bytes,
        }
    }

    /// Returns the downstream response status, or zero when no response header was written.
    pub fn status(self) -> (r: u16)
        ensures
            r == self.spec_status(),
    {
        self.status
    }

    /// Returns the low-cardinality request outcome.
    pub fn outcome(self) -> (r: RequestOutcome)
        ensures
            r == self.spec_outcome(),
    {
        self.outcome
    }

    /// Returns request-body bytes observed before completion or rejection.
    pub fn request_body_bytes(self) -> (r: u64)
        ensures
            r == self.spec_request_body_bytes(),
    {
        self.request_body_bytes
    }

    /// The outcome as it appears in the access log.
    pub fn outcome_label(self) -> (r: &'static str)
        ensures
            r@ == (if self.spec_outcome() == RequestOutcome::Error { "error"@ } else { "ok"@ }),
    {
        match self.outcome {
            RequestOutcome::Success => "ok",
            RequestOutcome::Error => "error",
        }
    }
}

} // verus!
