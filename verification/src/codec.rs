//! Protocol envelope codec: the line-delimited wire message
//! `{id?, method?, params?, result?, error?}` and its classification.
//!
//! A message with an id and a method is a request; with an id and no
//! method a response; with a method and no id a notification. Payloads
//! (`params`, `result`, `error.data`) are carried as raw JSON text; the
//! shell parses and prints them.

use vstd::prelude::*;

verus! {

/// Error object of a protocol response: `{code, message, data?}`.
#[derive(Debug, Clone)]
pub struct JsonRpcError {
    pub code: i32,
    pub message: String,
    /// Raw JSON text of the optional `data` member.
    pub data: Option<String>,
}

/// One wire message. Exactly one envelope per line on the transport.
#[derive(Debug, Clone)]
pub struct Envelope {
    pub id: Option<u64>,
    pub method: Option<String>,
    /// Raw JSON text of the `params` member, if present.
    pub params: Option<String>,
    /// Raw JSON text of the `result` member, if present.
    pub result: Option<String>,
    pub error: Option<JsonRpcError>,
}

impl Envelope {
    /// A request carries both an id and a method.
    pub open spec fn spec_is_request(&self) -> bool {
        self.id is Some && self.method is Some
    }

    /// A response carries an id and no method.
    pub open spec fn spec_is_response(&self) -> bool {
        self.id is Some && self.method is None
    }

    /// A notification carries a method and no id; no response is sent for it.
    pub open spec fn spec_is_notification(&self) -> bool {
        self.id is None && self.method is Some
    }

    #[verifier::when_used_as_spec(spec_is_request)]
    pub fn is_request(&self) -> (r: bool)
        ensures
            r == self.spec_is_request(),
    {
        self.id.is_some() && self.method.is_some()
    }

    #[verifier::when_used_as_spec(spec_is_response)]
    pub fn is_response(&self) -> (r: bool)
        ensures
            r == self.spec_is_response(),
    {
        self.id.is_some() && self.method.is_none()
    }

    #[verifier::when_used_as_spec(spec_is_notification)]
    pub fn is_notification(&self) -> (r: bool)
        ensures
            r == self.spec_is_notification(),
    {
        self.id.is_none() && self.method.is_some()
    }

    /// A request envelope: carries the issued id and the method, and
    /// expects a response under that id.
    pub fn request(id: u64, method: String, params: Option<String>) -> (r: Envelope)
        ensures
            r.spec_is_request(),
            r.id == Some(id),
            r.method == Some(method),
            r.params == params,
            r.result is None,
            r.error is None,
    {
        Envelope { id: Some(id), method: Some(method), params, result: None, error: None }
    }

    /// A notification envelope: carries a method and no id; no response
    /// is expected and none is sent.
    pub fn notification(method: String, params: Option<String>) -> (r: Envelope)
        ensures
            r.spec_is_notification(),
            r.method == Some(method),
            r.params == params,
            r.result is None,
            r.error is None,
    {
        Envelope { id: None, method: Some(method), params, result: None, error: None }
    }

    /// True when this envelope is a response correlating with the request
    /// that was issued under `request_id`.
    pub fn matches_response(&self, request_id: u64) -> (r: bool)
        ensures
            r == (self.spec_is_response() && self.id == Some(request_id)),
    {
        self.is_response() && match self.id {
            Some(i) => i == request_id,
            None => false,
        }
    }
}

/// Allocator of request ids for outgoing requests. Ids are issued in
/// strictly increasing order starting at 1, so no two issued ids collide.
pub struct IdCounter {
    next: u64,
}

impl IdCounter {
    /// All ids issued so far, as a set: exactly `1 ..= next - 1`.
    pub closed spec fn issued(&self) -> Set<u64> {
        Set::new(|i: u64| 1 <= i < self.next)
    }

    pub closed spec fn wf(&self) -> bool {
        self.next >= 1
    }

    pub fn new() -> (r: IdCounter)
        ensures
            r.wf(),
            r.issued() == Set::<u64>::empty(),
    {
        let r = IdCounter { next: 1 };
        proof {
            assert(r.issued() =~= Set::<u64>::empty());
        }
        r
    }

    /// Issue a fresh id: never issued before, recorded as issued now.
    pub fn fresh_id(&mut self) -> (r: u64)
        requires
            old(self).wf(),
            old(self).issued().len() < u64::MAX - 1,
        ensures
            final(self).wf(),
            !old(self).issued().contains(r),
            final(self).issued() == old(self).issued().insert(r),
    {
        proof {
            lemma_id_range_len(self.next);
        }
        let id = self.next;
        self.next = self.next + 1;
        proof {
            assert(final(self).issued() =~= old(self).issued().insert(id));
        }
        id
    }
}

/// The set `1 ..= n - 1` is finite with cardinality `n - 1`.
proof fn lemma_id_range_len(n: u64)
    requires
        n >= 1,
    ensures
        Set::new(|i: u64| 1 <= i < n).finite(),
        Set::new(|i: u64| 1 <= i < n).len() == n - 1,
    decreases n,
{
    if n == 1 {
        assert(Set::new(|i: u64| 1 <= i < n) =~= Set::<u64>::empty());
    } else {
        lemma_id_range_len((n - 1) as u64);
        assert(Set::new(|i: u64| 1 <= i < n) =~= Set::new(
            |i: u64| 1 <= i < (n - 1) as u64,
        ).insert((n - 1) as u64));
    }
}

} // verus!
