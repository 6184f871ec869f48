use vstd::prelude::*;

verus! {

/// What a forwarding resolver does with a datagram it received, given its
/// table of queries in flight, keyed by transaction id.
#[derive(Debug, Clone, Copy, PartialEq, Eq, Structural)]
pub enum Route {
    /// A datagram for a pending id from someone other than the upstream
    /// server: drop it and keep the entry.
    Ignore,
    /// A datagram from the upstream server for a pending id that is not a
    /// response: remove the entry and send nothing.
    Discard,
    /// The upstream server's response for a pending id: remove the entry and
    /// send the response's sections back to the client that asked.
    Relay,
    /// A new query with exactly one question: record the sender under its id
    /// and send the question upstream.
    Forward,
    /// A new query without exactly one question: answer the sender with FORMERR.
    Reject,
}

/// The route for a datagram: `pending` says whether its id is in the table,
/// `from_upstream` whether it came from the upstream server, `is_response`
/// its QR bit, `questions` its number of questions.
pub open spec fn route_of(pending: bool, from_upstream: bool, is_response: bool, questions: nat) -> Route {
    if pending {
        if !from_upstream {
            Route::Ignore
        } else if !is_response {
            Route::Discard
        } else {
            Route::Relay
        }
    } else if questions == 1 {
        Route::Forward
    } else {
        Route::Reject
    }
}

/// Whether the id is in the table after taking `route`, when `pending` said
/// whether it was before.
pub open spec fn pending_after(route: Route, pending: bool) -> bool {
    match route {
        Route::Ignore => pending,
        Route::Discard => false,
        Route::Relay => false,
        Route::Forward => true,
        Route::Reject => pending,
    }
}

/// Decides what to do with a received datagram.
pub fn route(pending: bool, from_upstream: bool, is_response: bool, questions: usize) -> (r: Route)
    ensures
        r == route_of(pending, from_upstream, is_response, questions as nat),
{
    if pending {
        if !from_upstream {
            Route::Ignore
        } else if !is_response {
            Route::Discard
        } else {
            Route::Relay
        }
    } else if questions == 1 {
        Route::Forward
    } else {
        Route::Reject
    }
}

impl Route {
    /// Whether the id must be removed from the table.
    pub fn removes_entry(&self) -> (r: bool)
        ensures
            r == (*self is Discard || *self is Relay),
    {
        match self {
            Route::Discard | Route::Relay => true,
            _ => false,
        }
    }

    /// Whether the sender must be recorded under the id.
    pub fn inserts_entry(&self) -> (r: bool)
        ensures
            r == (*self is Forward),
    {
        match self {
            Route::Forward => true,
            _ => false,
        }
    }
}

/// An id enters the table only by forwarding a query, and leaves it only
/// when the upstream server answers for it.
pub proof fn lemma_table_lifecycle(pending: bool, from_upstream: bool, is_response: bool, questions: nat)
    ensures
        ({
            let r = route_of(pending, from_upstream, is_response, questions);
            &&& !pending && pending_after(r, pending) ==> r is Forward
            &&& pending && !pending_after(r, pending) ==> from_upstream
        }),
{
}

} // verus!
