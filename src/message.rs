//! The two messages that cross the worker boundary, and the worker's side of
//! the exchange.
use vstd::prelude::*;

verus! {

/// The value that every click hands to the worker.
pub const CLICK_VALUE: i32 = 5;

/// A request for the worker: it owns the value handed over.
///
/// It can be made only by [`WorkerRequest::new`], has no `Clone`, and
/// [`work`] takes it by value, so each request is opened exactly once and
/// there is no handle that could name a value that is not there.
pub struct WorkerRequest {
    value: Box<i32>,
}

impl View for WorkerRequest {
    type V = i32;

    closed spec fn view(&self) -> i32 {
        *self.value
    }
}

impl WorkerRequest {
    /// Moves `value` into a fresh allocation that the request owns.
    pub fn new(value: i32) -> (r: WorkerRequest)
        ensures
            r@ == value,
    {
        WorkerRequest { value: Box::new(value) }
    }

    /// Takes the owned value back out, consuming the request.
    pub fn into_value(self) -> (r: i32)
        ensures
            r == self@,
    {
        *self.value
    }
}

/// The worker's answer: a plain integer result.
#[derive(Clone, Copy, Debug, PartialEq, Eq, Structural)]
pub struct WorkerResponse(pub i32);

/// What the worker answers to `req`: the value it carried, unchanged.
pub open spec fn reply_to(req: WorkerRequest) -> WorkerResponse {
    WorkerResponse(req@)
}

/// The worker's endpoint: opens the request and hands its value back.
pub fn work(req: WorkerRequest) -> (r: WorkerResponse)
    ensures
        r == reply_to(req),
        r.0 == req@,
{
    WorkerResponse(req.into_value())
}

/// Whatever value a request was made with, the worker's reply to it carries
/// that value back with no change.
pub proof fn lemma_round_trip(value: i32, req: WorkerRequest)
    requires
        req@ == value,
    ensures
        reply_to(req).0 == value,
{
}

} // verus!
