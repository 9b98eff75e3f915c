//! Permission broker: turns an agent-initiated approval request into an
//! externally observable event and correlates the decision that comes
//! back with the exact waiter that asked.
//!
//! Each outstanding request has its own correlation record, resolved
//! directly by its id: a decision tagged with id X can only ever resolve
//! request X, however many requests are outstanding. The shell suspends
//! the protocol handler on a per-request slot and completes it with the
//! outcome that `resolve` returns; `fail_all` unblocks every waiter on
//! shutdown.

use vstd::prelude::*;

verus! {

/// One choice offered to the approval authority.
#[derive(Debug, Clone)]
pub struct FrontendPermissionOption {
    pub option_id: String,
    pub name: String,
    pub kind: String,
}

/// Decision returned by the approval authority for one request.
#[derive(Debug, Clone)]
pub struct FrontendPermissionResponse {
    pub request_id: u64,
    pub option_id: Option<String>,
    pub cancelled: bool,
}

/// The approval request as emitted to the external observer.
#[derive(Debug, Clone)]
pub struct FrontendPermissionRequest {
    pub request_id: u64,
    pub session_id: String,
    pub tool_call_id: String,
    pub title: String,
    pub kind: String,
    /// Raw JSON text of the tool call's input.
    pub raw_input: String,
    pub options: Vec<FrontendPermissionOption>,
    /// The logical request active when the agent asked, for correlation
    /// in the observer's interface.
    pub current_request_id: Option<u64>,
}

/// Correlation record for one outstanding approval request; consumed
/// exactly once by a matching decision, or failed on shutdown.
#[derive(Debug, Clone)]
pub struct PendingPermissionRequest {
    pub request_id: u64,
    pub session_id: String,
    pub tool_call_id: String,
    pub options: Vec<FrontendPermissionOption>,
}

/// What a decision means for the protocol response.
#[derive(Debug, Clone)]
pub enum PermissionOutcome {
    /// No option chosen, the user aborted: reported as cancellation,
    /// not as an error.
    Cancelled,
    /// The chosen option id is carried back to the agent.
    Selected { option_id: String },
    /// Neither cancelled nor an option id: a protocol-level internal
    /// error.
    MalformedDecision,
}

/// Correlation failures; reported, never silently ignored.
#[derive(Debug, Clone, Copy, PartialEq, Eq, Structural)]
pub enum PermissionError {
    /// The decision's id matches no outstanding request: it is unknown
    /// or was already resolved.
    UnknownRequest,
}

/// The outcome a decision means, by its shape alone.
pub open spec fn spec_decision_outcome(resp: FrontendPermissionResponse) -> PermissionOutcome {
    if resp.cancelled {
        PermissionOutcome::Cancelled
    } else if resp.option_id is Some {
        PermissionOutcome::Selected { option_id: resp.option_id->0 }
    } else {
        PermissionOutcome::MalformedDecision
    }
}

/// A decision delivered to its waiter: the consumed record and the
/// outcome to answer the agent with.
#[derive(Debug, Clone)]
pub struct ResolvedPermission {
    pub request: PendingPermissionRequest,
    pub outcome: PermissionOutcome,
}

fn clone_options(v: &Vec<FrontendPermissionOption>) -> (r: Vec<FrontendPermissionOption>)
    ensures
        r@ == v@,
{
    let mut r: Vec<FrontendPermissionOption> = Vec::new();
    let n = v.len();
    let mut i: usize = 0;
    while i < n
        invariant
            n == v@.len(),
            i <= n,
            r@ == v@.subrange(0, i as int),
        decreases n - i,
    {
        let o = &v[i];
        r.push(
            FrontendPermissionOption {
                option_id: o.option_id.clone(),
                name: o.name.clone(),
                kind: o.kind.clone(),
            },
        );
        proof {
            assert(r@ =~= v@.subrange(0, i + 1));
        }
        i = i + 1;
    }
    proof {
        assert(r@ =~= v@);
    }
    r
}

/// Broker state: the outstanding correlation records and the id counter
/// that keeps every new request id fresh.
pub struct PermissionBroker {
    pending: Vec<PendingPermissionRequest>,
    next_id: u64,
}

impl PermissionBroker {
    /// The outstanding records, in the order they were opened.
    pub closed spec fn spec_pending(&self) -> Seq<PendingPermissionRequest> {
        self.pending@
    }

    /// The id the next opened request will get.
    pub closed spec fn spec_next_id(&self) -> u64 {
        self.next_id
    }

    /// Outstanding ids are distinct and below the id counter.
    pub open spec fn wf(&self) -> bool {
        &&& forall|i: int, j: int|
            0 <= i < j < self.spec_pending().len() ==> self.spec_pending()[i].request_id
                != self.spec_pending()[j].request_id
        &&& forall|i: int|
            0 <= i < self.spec_pending().len() ==> (#[trigger] self.spec_pending()[i]).request_id
                < self.spec_next_id()
    }

    /// A request with this id is outstanding.
    pub open spec fn spec_has(&self, id: u64) -> bool {
        exists|i: int|
            0 <= i < self.spec_pending().len() && (#[trigger] self.spec_pending()[i]).request_id
                == id
    }

    spec fn spec_index_of(&self, id: u64) -> int {
        choose|i: int|
            0 <= i < self.spec_pending().len() && (#[trigger] self.spec_pending()[i]).request_id
                == id
    }

    /// The outstanding record with this id.
    pub closed spec fn spec_get(&self, id: u64) -> PendingPermissionRequest
        recommends
            self.spec_has(id),
    {
        self.spec_pending()[self.spec_index_of(id)]
    }

    proof fn lemma_get_at(&self, i: int)
        requires
            self.wf(),
            0 <= i < self.spec_pending().len(),
        ensures
            self.spec_has(self.spec_pending()[i].request_id),
            self.spec_index_of(self.spec_pending()[i].request_id) == i,
            self.spec_get(self.spec_pending()[i].request_id) == self.spec_pending()[i],
    {
        let id = self.spec_pending()[i].request_id;
        assert(self.spec_has(id));
        let j = self.spec_index_of(id);
        assert(0 <= j < self.spec_pending().len() && self.spec_pending()[j].request_id == id);
    }

    pub fn new() -> (r: PermissionBroker)
        ensures
            r.wf(),
            r.spec_pending() == Seq::<PendingPermissionRequest>::empty(),
            r.spec_next_id() == 1,
    {
        PermissionBroker { pending: Vec::new(), next_id: 1 }
    }

    fn index_of(&self, id: u64) -> (r: Option<usize>)
        ensures
            match r {
                Some(i) => i < self.spec_pending().len() && self.spec_pending()[i as int].request_id
                    == id && self.spec_has(id),
                None => !self.spec_has(id),
            },
    {
        let n = self.pending.len();
        let mut i: usize = 0;
        while i < n
            invariant
                i <= n,
                n == self.pending@.len(),
                forall|j: int| 0 <= j < i ==> (#[trigger] self.pending@[j]).request_id != id,
            decreases n - i,
        {
            if self.pending[i].request_id == id {
                return Some(i);
            }
            i = i + 1;
        }
        None
    }

    /// Open a correlation record for an approval request raised by the
    /// agent and build the event to emit: a fresh correlation id, the
    /// tool call's translated shape, and the currently active logical
    /// request id.
    pub fn open_request(
        &mut self,
        session_id: String,
        tool_call_id: String,
        title: String,
        kind: String,
        raw_input: String,
        options: Vec<FrontendPermissionOption>,
        current_request_id: Option<u64>,
    ) -> (r: FrontendPermissionRequest)
        requires
            old(self).wf(),
            old(self).spec_next_id() < u64::MAX,
        ensures
            final(self).wf(),
            final(self).spec_next_id() == old(self).spec_next_id() + 1,
            !old(self).spec_has(r.request_id),
            r.session_id == session_id,
            r.tool_call_id == tool_call_id,
            r.title == title,
            r.kind == kind,
            r.raw_input == raw_input,
            r.options == options,
            r.current_request_id == current_request_id,
            final(self).spec_has(r.request_id),
            final(self).spec_pending().len() == old(self).spec_pending().len() + 1,
            forall|i: int|
                0 <= i < old(self).spec_pending().len() ==> final(self).spec_pending()[i] == old(
                    self,
                ).spec_pending()[i],
            ({
                let rec = final(self).spec_pending().last();
                &&& rec.request_id == r.request_id
                &&& rec.session_id == session_id
                &&& rec.tool_call_id == tool_call_id
                &&& rec.options@ == options@
            }),
    {
        let id = self.next_id;
        self.next_id = self.next_id + 1;
        let record = PendingPermissionRequest {
            request_id: id,
            session_id: session_id.clone(),
            tool_call_id: tool_call_id.clone(),
            options: clone_options(&options),
        };
        self.pending.push(record);
        proof {
            self.lemma_get_at(old(self).spec_pending().len() as int);
        }
        FrontendPermissionRequest {
            request_id: id,
            session_id,
            tool_call_id,
            title,
            kind,
            raw_input,
            options,
            current_request_id,
        }
    }

    /// Deliver a decision to the one waiter that opened the request it
    /// is tagged with: the matching record is consumed, every other
    /// outstanding request stays untouched, and an unmatched or already
    /// resolved id is reported as an error.
    pub fn resolve(&mut self, resp: &FrontendPermissionResponse) -> (r: Result<
        ResolvedPermission,
        PermissionError,
    >)
        requires
            old(self).wf(),
        ensures
            final(self).wf(),
            final(self).spec_next_id() == old(self).spec_next_id(),
            r is Ok <==> old(self).spec_has(resp.request_id),
            r is Err ==> *final(self) == *old(self) && r == Err::<
                ResolvedPermission,
                PermissionError,
            >(PermissionError::UnknownRequest),
            r matches Ok(res) ==> ({
                &&& res.request == old(self).spec_get(resp.request_id)
                &&& res.outcome == spec_decision_outcome(*resp)
                &&& !final(self).spec_has(resp.request_id)
                &&& final(self).spec_pending().len() == old(self).spec_pending().len() - 1
                &&& forall|k: u64|
                    k != resp.request_id ==> final(self).spec_has(k) == old(self).spec_has(k)
                &&& forall|k: u64|
                    k != resp.request_id && old(self).spec_has(k) ==> final(self).spec_get(k)
                        == old(self).spec_get(k)
            }),
    {
        let id = resp.request_id;
        match self.index_of(id) {
            Some(i) => {
                let record = self.pending.remove(i);
                let outcome = if resp.cancelled {
                    PermissionOutcome::Cancelled
                } else {
                    match &resp.option_id {
                        Some(o) => PermissionOutcome::Selected { option_id: o.clone() },
                        None => PermissionOutcome::MalformedDecision,
                    }
                };
                proof {
                    let oldv = old(self).spec_pending();
                    let newv = self.spec_pending();
                    old(self).lemma_get_at(i as int);
                    assert forall|j: int| 0 <= j < newv.len() implies newv[j].request_id != id by {
                        if j < i {
                            assert(newv[j] == oldv[j]);
                        } else {
                            assert(newv[j] == oldv[j + 1]);
                        }
                    }
                    assert forall|k: u64| k != id && old(self).spec_has(k) implies final(self).spec_has(k) && final(self).spec_get(k) == old(self).spec_get(k) by {
                        let j = old(self).spec_index_of(k);
                        assert(0 <= j < oldv.len() && oldv[j].request_id == k);
                        assert(j != i);
                        old(self).lemma_get_at(j);
                        if j < i {
                            assert(newv[j] == oldv[j]);
                            self.lemma_get_at(j);
                        } else {
                            assert(newv[j - 1] == oldv[j]);
                            self.lemma_get_at(j - 1);
                        }
                    }
                    assert forall|k: u64| k != id && final(self).spec_has(k) implies old(self).spec_has(k) by {
                        let j = self.spec_index_of(k);
                        assert(0 <= j < newv.len() && newv[j].request_id == k);
                        if j < i {
                            assert(oldv[j].request_id == k);
                        } else {
                            assert(oldv[j + 1].request_id == k);
                        }
                    }
                }
                Ok(ResolvedPermission { request: record, outcome })
            },
            None => Err(PermissionError::UnknownRequest),
        }
    }

    /// Fail every outstanding request at once, for shutdown: afterwards
    /// nothing is outstanding, and the returned records are exactly the
    /// requests whose waiters must now be resolved with a failure.
    pub fn fail_all(&mut self) -> (r: Vec<PendingPermissionRequest>)
        requires
            old(self).wf(),
        ensures
            final(self).wf(),
            final(self).spec_next_id() == old(self).spec_next_id(),
            final(self).spec_pending() == Seq::<PendingPermissionRequest>::empty(),
            forall|k: u64| !final(self).spec_has(k),
            r@ == old(self).spec_pending(),
    {
        let mut out: Vec<PendingPermissionRequest> = Vec::new();
        core::mem::swap(&mut out, &mut self.pending);
        out
    }
}

/// The decision outcome, computed from the decision's shape: cancelled
/// wins, otherwise a chosen option id, otherwise the decision is
/// malformed.
pub fn decision_outcome(resp: &FrontendPermissionResponse) -> (r: PermissionOutcome)
    ensures
        r == spec_decision_outcome(*resp),
{
    if resp.cancelled {
        PermissionOutcome::Cancelled
    } else {
        match &resp.option_id {
            Some(o) => PermissionOutcome::Selected { option_id: o.clone() },
            None => PermissionOutcome::MalformedDecision,
        }
    }
}

} // verus!
