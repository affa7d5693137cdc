//! Runtime-isolation budgets shared by the delivery adapters: request-body and concurrent-request
//! admission limits. Nothing here selects routes, edits HTTP policy or authenticates callers.
//!
//! Every admission taken with [`RequestAdmissionBudget::acquire`] holds one slot of the budget
//! that granted it and is handed back to it with [`RequestAdmissionBudget::release`] when its
//! request ends.

use vstd::prelude::*;
use vstd::set_lib::{lemma_int_range, lemma_set_difference_len, set_int_range};

verus! {

/// Invalid runtime-isolation configuration rejected before a listener gains network authority.
#[derive(Debug, Clone, Copy, PartialEq, Eq, Structural)]
pub enum RuntimeIsolationConfigError {
    /// A zero body limit would make every non-empty request invalid.
    ZeroMaxRequestBodyBytes,
    /// A zero in-flight limit would reject every proxied request.
    ZeroMaxInFlightRequests,
}

impl RuntimeIsolationConfigError {
    /// Human-readable description of the failure.
    pub fn message(&self) -> (r: &'static str)
        ensures
            r@ == match self {
                RuntimeIsolationConfigError::ZeroMaxRequestBodyBytes => "max_request_body_bytes must be greater than zero"@,
                RuntimeIsolationConfigError::ZeroMaxInFlightRequests => "max_in_flight_requests must be greater than zero"@,
            },
    {
        match self {
            RuntimeIsolationConfigError::ZeroMaxRequestBodyBytes => "max_request_body_bytes must be greater than zero",
            RuntimeIsolationConfigError::ZeroMaxInFlightRequests => "max_in_flight_requests must be greater than zero",
        }
    }
}

/// Immutable request-isolation limits shared by gateway delivery adapters.
#[derive(Debug, Clone, Copy, PartialEq, Eq, Structural)]
pub struct RuntimeIsolationLimits {
    max_request_body_bytes: u64,
    max_in_flight_requests: usize,
}

impl RuntimeIsolationLimits {
    pub closed spec fn spec_max_request_body_bytes(self) -> u64 {
        self.max_request_body_bytes
    }

    pub closed spec fn spec_max_in_flight_requests(self) -> usize {
        self.max_in_flight_requests
    }

    /// Validates explicit non-zero body and in-flight request budgets.
    pub fn try_new(max_request_body_bytes: u64, max_in_flight_requests: usize) -> (r: Result<Self, RuntimeIsolationConfigError>)
        ensures
            max_request_body_bytes == 0 ==> r == Err::<Self, RuntimeIsolationConfigError>(RuntimeIsolationConfigError::ZeroMaxRequestBodyBytes),
            max_request_body_bytes > 0 && max_in_flight_requests == 0 ==> r == Err::<Self, RuntimeIsolationConfigError>(
                RuntimeIsolationConfigError::ZeroMaxInFlightRequests,
            ),
            max_request_body_bytes > 0 && max_in_flight_requests > 0 ==> (r matches Ok(l)
                && l.spec_max_request_body_bytes() == max_request_body_bytes
                && l.spec_max_in_flight_requests() == max_in_flight_requests),
    {
        if max_request_body_bytes == 0 {
            return Err(RuntimeIsolationConfigError::ZeroMaxRequestBodyBytes);
        }
        if max_in_flight_requests == 0 {
            return Err(RuntimeIsolationConfigError::ZeroMaxInFlightRequests);
        }
        Ok(RuntimeIsolationLimits { max_request_body_bytes, max_in_flight_requests })
    }

    /// Limits whose budgets an enclosing contract already validated.
    pub(crate) fn from_validated(max_request_body_bytes: u64, max_in_flight_requests: usize) -> (r: Self)
        ensures
            r.spec_max_request_body_bytes() == max_request_body_bytes,
            r.spec_max_in_flight_requests() == max_in_flight_requests,
    {
        RuntimeIsolationLimits { max_request_body_bytes, max_in_flight_requests }
    }

    /// Returns the maximum admitted downstream request-body size in bytes.
    pub fn max_request_body_bytes(self) -> (r: u64)
        ensures
            r == self.spec_max_request_body_bytes(),
    {
        self.max_request_body_bytes
    }

    /// Returns the maximum number of concurrently admitted non-health requests.
    pub fn max_in_flight_requests(self) -> (r: usize)
        ensures
            r == self.spec_max_in_flight_requests(),
    {
        self.max_in_flight_requests
    }
}

/// A request body observed or declared beyond its limit.
#[derive(Debug, Clone, Copy, PartialEq, Eq, Structural)]
pub struct BodyLimitExceeded {
    /// Bytes observed or declared.
    pub observed: u64,
    /// The configured limit.
    pub limit: u64,
}

/// Proof that one request holds a slot of an in-flight budget, to be handed back to that budget
/// when the request ends. It cannot be copied, so each slot is handed back at most once.
#[derive(Debug)]
pub struct RequestAdmission {
    slot: usize,
}

impl RequestAdmission {
    /// The budget slot this admission holds.
    pub closed spec fn spec_slot(self) -> int {
        self.slot as int
    }
}

/// The slots still held once `admission`, if any, is handed back.
pub open spec fn without_admission(slots: Set<int>, admission: Option<RequestAdmission>) -> Set<int> {
    match admission {
        Some(a) => slots.remove(a.spec_slot()),
        None => slots,
    }
}

/// Concurrent-request budget. Slots `0..issued` have been handed out at some time; those in
/// `free` were handed back and are reused first. The budget cannot be copied: one budget keeps
/// one count of the admissions it granted.
#[derive(Debug)]
pub struct RequestAdmissionBudget {
    limit: usize,
    issued: usize,
    free: Vec<usize>,
}

impl RequestAdmissionBudget {
    spec fn free_slots(self) -> Seq<int> {
        self.free@.map_values(|x: usize| x as int)
    }

    /// The slots of the admissions granted and not yet handed back.
    pub closed spec fn spec_outstanding(self) -> Set<int> {
        set_int_range(0, self.issued as int).difference(self.free_slots().to_set())
    }

    /// Number of admissions granted and not yet handed back.
    pub closed spec fn spec_in_flight(self) -> usize {
        (self.issued - self.free@.len()) as usize
    }

    pub closed spec fn spec_limit(self) -> usize {
        self.limit
    }

    /// Whether `admission` is one this budget granted and has not taken back.
    pub open spec fn holds(self, admission: RequestAdmission) -> bool {
        self.spec_outstanding().contains(admission.spec_slot())
    }

    /// The bookkeeping is consistent and never more requests are in flight than the limit.
    pub closed spec fn well_formed(self) -> bool {
        &&& self.free@.len() <= self.issued <= self.limit
        &&& self.free_slots().no_duplicates()
        &&& forall|i: int| 0 <= i < self.free@.len() ==> #[trigger] self.free@[i] < self.issued
    }

    /// An empty budget with the configured in-flight limit.
    pub fn new(limits: RuntimeIsolationLimits) -> (r: Self)
        ensures
            r.spec_in_flight() == 0,
            r.spec_outstanding() == Set::<int>::empty(),
            r.spec_limit() == limits.spec_max_in_flight_requests(),
            r.well_formed(),
    {
        let r = RequestAdmissionBudget { limit: limits.max_in_flight_requests(), issued: 0, free: Vec::new() };
        assert(r.spec_outstanding() =~= Set::<int>::empty());
        assert(r.free_slots() =~= Seq::<int>::empty());
        r
    }

    /// Admits one more request when fewer than the limit are in flight; the admission holds a
    /// slot no other outstanding admission of this budget holds.
    pub fn acquire(&mut self) -> (r: Option<RequestAdmission>)
        requires
            old(self).well_formed(),
        ensures
            final(self).well_formed(),
            final(self).spec_limit() == old(self).spec_limit(),
            old(self).spec_in_flight() < old(self).spec_limit() ==> (r matches Some(a)
                && !old(self).spec_outstanding().contains(a.spec_slot())
                && final(self).spec_outstanding() == old(self).spec_outstanding().insert(a.spec_slot())
                && final(self).spec_in_flight() == old(self).spec_in_flight() + 1),
            old(self).spec_in_flight() >= old(self).spec_limit() ==> r is None && *final(self) == *old(self),
    {
        if self.issued - self.free.len() >= self.limit {
            return None;
        }
        let ghost before = self.free_slots();
        match self.free.pop() {
            Some(slot) => {
                proof {
                    assert(self.free_slots() =~= before.drop_last());
                    assert(before.last() == slot as int);
                    assert(!self.free_slots().contains(slot as int)) by {
                        if self.free_slots().contains(slot as int) {
                            let k = choose|k: int| 0 <= k < self.free_slots().len() && self.free_slots()[k] == slot as int;
                            assert(before[k] == before[before.len() - 1]);
                        }
                    }
                    assert(self.free_slots().to_set() =~= before.to_set().remove(slot as int)) by {
                        assert forall|x: int| before.to_set().remove(slot as int).contains(x) implies self.free_slots().to_set().contains(x) by {
                            let k = choose|k: int| 0 <= k < before.len() && before[k] == x;
                            assert(k != before.len() - 1);
                            assert(self.free_slots()[k] == x);
                        }
                        assert forall|x: int| self.free_slots().to_set().contains(x) implies before.to_set().remove(slot as int).contains(x) by {
                            let k = choose|k: int| 0 <= k < self.free_slots().len() && self.free_slots()[k] == x;
                            assert(before[k] == x);
                        }
                    }
                    assert(before.to_set().contains(slot as int)) by {
                        assert(before[before.len() - 1] == slot as int);
                    }
                    assert(self.spec_outstanding() =~= old(self).spec_outstanding().insert(slot as int));
                    assert forall|a: int, b: int| 0 <= a < b < self.free_slots().len() implies self.free_slots()[a] != self.free_slots()[b] by {
                        assert(self.free_slots()[a] == before[a]);
                        assert(self.free_slots()[b] == before[b]);
                    }
                    assert forall|i: int| 0 <= i < self.free@.len() implies #[trigger] self.free@[i] < self.issued by {
                        assert(self.free@[i] == old(self).free@[i]);
                    }
                }
                Some(RequestAdmission { slot })
            },
            None => {
                let slot = self.issued;
                self.issued = self.issued + 1;
                proof {
                    assert(self.free_slots() =~= Seq::<int>::empty());
                    assert(old(self).free_slots() =~= Seq::<int>::empty());
                    assert(self.spec_outstanding() =~= old(self).spec_outstanding().insert(slot as int));
                }
                Some(RequestAdmission { slot })
            },
        }
    }

    /// Hands an admission back when its request ends: its slot is freed when this budget holds
    /// it; an admission this budget does not hold changes nothing.
    pub fn release(&mut self, admission: RequestAdmission)
        requires
            old(self).well_formed(),
        ensures
            final(self).well_formed(),
            final(self).spec_limit() == old(self).spec_limit(),
            old(self).holds(admission) ==> final(self).spec_outstanding() == old(self).spec_outstanding().remove(admission.spec_slot())
                && final(self).spec_in_flight() == old(self).spec_in_flight() - 1,
            !old(self).holds(admission) ==> *final(self) == *old(self),
    {
        let slot = admission.slot;
        if slot >= self.issued {
            return;
        }
        let mut i: usize = 0;
        while i < self.free.len()
            invariant
                *self == *old(self),
                old(self).well_formed(),
                slot < self.issued,
                slot as int == admission.spec_slot(),
                i <= self.free.len(),
                forall|j: int| 0 <= j < i ==> self.free@[j] != slot,
            decreases self.free.len() - i,
        {
            if self.free[i] == slot {
                proof {
                    assert(self.free_slots()[i as int] == slot as int);
                    assert(self.free_slots().to_set().contains(slot as int));
                }
                return;
            }
            i = i + 1;
        }
        let ghost before = self.free_slots();
        proof {
            assert(!before.contains(slot as int)) by {
                if before.contains(slot as int) {
                    let k = choose|k: int| 0 <= k < before.len() && before[k] == slot as int;
                    assert(self.free@[k] == slot);
                }
            }
            lemma_budget_count(*old(self));
            assert(old(self).spec_outstanding().contains(slot as int));
            assert(old(self).spec_in_flight() >= 1) by {
                Set::<int>::empty().lemma_len0_is_empty();
                if old(self).spec_in_flight() == 0 {
                    old(self).spec_outstanding().lemma_len0_is_empty();
                }
            }
        }
        self.free.push(slot);
        proof {
            assert(self.free_slots() =~= before.push(slot as int));
            assert(self.free_slots().to_set() =~= before.to_set().insert(slot as int)) by {
                assert forall|x: int| before.to_set().insert(slot as int).contains(x) implies self.free_slots().to_set().contains(x) by {
                    if x == slot as int {
                        assert(self.free_slots()[before.len() as int] == x);
                    } else {
                        let k = choose|k: int| 0 <= k < before.len() && before[k] == x;
                        assert(self.free_slots()[k] == x);
                    }
                }
                assert forall|x: int| self.free_slots().to_set().contains(x) implies before.to_set().insert(slot as int).contains(x) by {
                    let k = choose|k: int| 0 <= k < self.free_slots().len() && self.free_slots()[k] == x;
                    if k < before.len() {
                        assert(before[k] == x);
                    }
                }
            }
            assert(self.spec_outstanding() =~= old(self).spec_outstanding().remove(slot as int));
            assert forall|a: int, b: int| 0 <= a < b < self.free_slots().len() implies self.free_slots()[a] != self.free_slots()[b] by {
                if b == self.free_slots().len() - 1 {
                    assert(before.contains(self.free_slots()[a])) by {
                        assert(before[a] == self.free_slots()[a]);
                    }
                } else {
                    assert(self.free_slots()[a] == before[a]);
                    assert(self.free_slots()[b] == before[b]);
                }
            }
        }
    }

    /// Requests currently in flight.
    pub fn in_flight(&self) -> (r: usize)
        requires
            self.well_formed(),
        ensures
            r == self.spec_in_flight(),
    {
        self.issued - self.free.len()
    }
}

/// The in-flight count is the number of outstanding admissions, and never exceeds the limit.
pub proof fn lemma_budget_count(b: RequestAdmissionBudget)
    requires
        b.well_formed(),
    ensures
        b.spec_outstanding().finite(),
        b.spec_outstanding().len() == b.spec_in_flight(),
        b.spec_in_flight() <= b.spec_limit(),
{
    let range = set_int_range(0, b.issued as int);
    let free = b.free_slots().to_set();
    lemma_int_range(0, b.issued as int);
    b.free_slots().unique_seq_to_set();
    assert(free.subset_of(range)) by {
        assert forall|x: int| free.contains(x) implies range.contains(x) by {
            let k = choose|k: int| 0 <= k < b.free_slots().len() && b.free_slots()[k] == x;
            assert(b.free@[k] < b.issued);
        }
    }
    assert(range.intersect(free) =~= free);
    lemma_set_difference_len(range, free);
}

/// Admitting a request into a budget with room and handing that admission back restores the
/// budget's outstanding admissions and in-flight count exactly.
pub proof fn lemma_admission_round_trip(before: RequestAdmissionBudget, admitted: RequestAdmissionBudget, after: RequestAdmissionBudget, slot: int)
    requires
        before.well_formed(),
        admitted.well_formed(),
        after.well_formed(),
        !before.spec_outstanding().contains(slot),
        admitted.spec_outstanding() == before.spec_outstanding().insert(slot),
        after.spec_outstanding() == admitted.spec_outstanding().remove(slot),
    ensures
        after.spec_outstanding() == before.spec_outstanding(),
        after.spec_in_flight() == before.spec_in_flight(),
{
    assert(after.spec_outstanding() =~= before.spec_outstanding());
    lemma_budget_count(before);
    lemma_budget_count(after);
}

/// Request-body budget of one request: bytes observed so far and the limit.
#[derive(Debug, Clone, Copy)]
pub struct RequestBodyBudget {
    observed: u64,
    limit: u64,
}

impl RequestBodyBudget {
    pub closed spec fn spec_observed(self) -> u64 {
        self.observed
    }

    pub closed spec fn spec_limit(self) -> u64 {
        self.limit
    }

    /// Nothing observed yet, with the configured body limit.
    pub fn new(limits: RuntimeIsolationLimits) -> (r: Self)
        ensures
            r.spec_observed() == 0,
            r.spec_limit() == limits.spec_max_request_body_bytes(),
    {
        RequestBodyBudget { observed: 0, limit: limits.max_request_body_bytes() }
    }

    /// Refuses a declared `Content-Length` above the limit.
    pub fn reject_declared_length(&self, declared: u64) -> (r: Result<(), BodyLimitExceeded>)
        ensures
            declared > self.spec_limit() ==> r == Err::<(), BodyLimitExceeded>(BodyLimitExceeded { observed: declared, limit: self.spec_limit() }),
            declared <= self.spec_limit() ==> r is Ok,
    {
        if declared > self.limit {
            return Err(BodyLimitExceeded { observed: declared, limit: self.limit });
        }
        Ok(())
    }

    /// Counts a streamed chunk (saturating) and refuses once the total exceeds the limit.
    pub fn observe_chunk(&mut self, chunk_bytes: u64) -> (r: Result<(), BodyLimitExceeded>)
        ensures
            final(self).spec_limit() == old(self).spec_limit(),
            final(self).spec_observed() == old(self).spec_observed().saturating_add(chunk_bytes),
            final(self).spec_observed() > old(self).spec_limit() ==> r == Err::<(), BodyLimitExceeded>(
                BodyLimitExceeded { observed: final(self).spec_observed(), limit: old(self).spec_limit() },
            ),
            final(self).spec_observed() <= old(self).spec_limit() ==> r is Ok,
    {
        self.observed = self.observed.saturating_add(chunk_bytes);
        if self.observed > self.limit {
            return Err(BodyLimitExceeded { observed: self.observed, limit: self.limit });
        }
        Ok(())
    }

    /// Bytes observed so far.
    pub fn observed(&self) -> (r: u64)
        ensures
            r == self.spec_observed(),
    {
        self.observed
    }
}

} // verus!
