//! The page's side of the exchange: the counter and the round trips that
//! clicks have opened and the worker has not answered yet.
use vstd::prelude::*;
use std::collections::HashSet;

use crate::message::{WorkerRequest, WorkerResponse, CLICK_VALUE};

verus! {

broadcast use vstd::std_specs::hash::group_hash_axioms;

/// The controller as a value: the count shown, how many round trips were
/// opened, and the ids of those still waiting for their reply.
pub ghost struct ControllerState {
    pub count: nat,
    pub issued: nat,
    pub pending: Set<u64>,
}

/// One thing that can happen to the controller.
pub enum Event {
    /// A click opens a round trip.
    Click,
    /// The reply for the round trip with this id comes back.
    Reply(u64),
}

/// The state before any click.
pub open spec fn initial() -> ControllerState {
    ControllerState { count: 0, issued: 0, pending: Set::empty() }
}

/// A click opens a round trip under the next id.
pub open spec fn click(s: ControllerState) -> ControllerState {
    ControllerState { issued: s.issued + 1, pending: s.pending.insert(s.issued as u64), ..s }
}

/// A reply closes its round trip and adds one to the count, whatever value
/// it carries; a reply for a round trip that is not open changes nothing.
pub open spec fn reply(s: ControllerState, id: u64) -> ControllerState {
    if s.pending.contains(id) {
        ControllerState { count: s.count + 1, pending: s.pending.remove(id), ..s }
    } else {
        s
    }
}

pub open spec fn step(s: ControllerState, e: Event) -> ControllerState {
    match e {
        Event::Click => click(s),
        Event::Reply(id) => reply(s, id),
    }
}

/// The state after `events`, from the initial one.
pub open spec fn run(events: Seq<Event>) -> ControllerState
    decreases events.len(),
{
    if events.len() == 0 {
        initial()
    } else {
        step(run(events.drop_last()), events.last())
    }
}

/// How many of `events` are clicks.
pub open spec fn clicks(events: Seq<Event>) -> nat
    decreases events.len(),
{
    if events.len() == 0 {
        0
    } else {
        clicks(events.drop_last()) + if events.last() is Click { 1nat } else { 0nat }
    }
}

/// Every opened round trip is either counted or still open, and the open
/// ones carry ids below the next one.
pub open spec fn consistent(s: ControllerState) -> bool {
    &&& s.pending.finite()
    &&& s.count + s.pending.len() == s.issued
    &&& s.issued <= u64::MAX
    &&& forall|id: u64| s.pending.contains(id) ==> id < s.issued
}

/// The handle of one open round trip. Only [`Controller::on_click`] makes
/// one, and [`Controller::on_response`] consumes it.
pub struct RoundTrip {
    id: u64,
}

impl View for RoundTrip {
    type V = u64;

    closed spec fn view(&self) -> u64 {
        self.id
    }
}

impl RoundTrip {
    /// The id under which the round trip was opened.
    pub fn id(&self) -> (r: u64)
        ensures
            r == self@,
    {
        self.id
    }
}

/// A reply came for a round trip that this controller has no record of as
/// open; it was not applied.
#[derive(Clone, Copy, Debug, PartialEq, Eq, Structural)]
pub struct StaleRoundTrip;

/// The counter and the round trips in flight.
pub struct Controller {
    count: u64,
    issued: u64,
    pending: HashSet<u64>,
}

impl View for Controller {
    type V = ControllerState;

    closed spec fn view(&self) -> ControllerState {
        ControllerState {
            count: self.count as nat,
            issued: self.issued as nat,
            pending: self.pending@,
        }
    }
}

impl Controller {
    pub closed spec fn wf(&self) -> bool {
        consistent(self@)
    }

    /// A controller with the count at zero and nothing in flight.
    pub fn new() -> (r: Controller)
        ensures
            r.wf(),
            r@ == initial(),
    {
        Controller { count: 0, issued: 0, pending: HashSet::new() }
    }

    /// Opens a round trip: returns the request for the worker, which owns
    /// [`CLICK_VALUE`], and the handle that its reply must come back with.
    pub fn on_click(&mut self) -> (r: (WorkerRequest, RoundTrip))
        requires
            old(self).wf(),
            old(self)@.issued < u64::MAX,
        ensures
            final(self).wf(),
            final(self)@ == click(old(self)@),
            r.0@ == CLICK_VALUE,
            r.1@ == old(self)@.issued,
            !old(self)@.pending.contains(r.1@),
    {
        let id = self.issued;
        proof {
            lemma_click_consistent(self@);
        }
        self.pending.insert(id);
        self.issued = id + 1;
        (WorkerRequest::new(CLICK_VALUE), RoundTrip { id })
    }

    /// Closes the round trip `trip` with the worker's `response`: the count
    /// goes up by one and the result is handed back to be shown. A round
    /// trip that is not open here is refused and changes nothing.
    pub fn on_response(&mut self, trip: RoundTrip, response: WorkerResponse) -> (r: Result<
        i32,
        StaleRoundTrip,
    >)
        requires
            old(self).wf(),
        ensures
            final(self).wf(),
            final(self)@ == reply(old(self)@, trip@),
            r == if old(self)@.pending.contains(trip@) {
                Ok::<i32, StaleRoundTrip>(response.0)
            } else {
                Err::<i32, StaleRoundTrip>(StaleRoundTrip)
            },
    {
        proof {
            lemma_reply_consistent(self@, trip@);
        }
        if self.pending.remove(&trip.id) {
            self.count = self.count + 1;
            Ok(response.0)
        } else {
            assert(self.pending@ =~= old(self).pending@);
            Err(StaleRoundTrip)
        }
    }

    /// The count shown on the page.
    pub fn count(&self) -> (r: u64)
        ensures
            r == self@.count,
    {
        self.count
    }

    /// How many round trips were opened.
    pub fn issued(&self) -> (r: u64)
        ensures
            r == self@.issued,
    {
        self.issued
    }

    /// How many round trips wait for their reply.
    pub fn in_flight(&self) -> (r: u64)
        requires
            self.wf(),
        ensures
            r == self@.pending.len(),
    {
        self.issued - self.count
    }
}

/// A click keeps the state consistent, under a fresh id.
pub proof fn lemma_click_consistent(s: ControllerState)
    requires
        consistent(s),
        s.issued < u64::MAX,
    ensures
        consistent(click(s)),
        !s.pending.contains(s.issued as u64),
{
}

/// A reply keeps the state consistent, and adds at most one to the count.
pub proof fn lemma_reply_consistent(s: ControllerState, id: u64)
    requires
        consistent(s),
    ensures
        consistent(reply(s, id)),
        reply(s, id).count <= s.count + 1,
{
}

/// Any run with no more clicks than ids is consistent, and has opened one
/// round trip per click.
pub proof fn lemma_run_consistent(events: Seq<Event>)
    requires
        clicks(events) <= u64::MAX,
    ensures
        consistent(run(events)),
        run(events).issued == clicks(events),
    decreases events.len(),
{
    if events.len() > 0 {
        let prev = events.drop_last();
        lemma_run_consistent(prev);
        match events.last() {
            Event::Click => lemma_click_consistent(run(prev)),
            Event::Reply(id) => lemma_reply_consistent(run(prev), id),
        }
    }
}

/// Once every round trip has had its reply, the count equals the number of
/// clicks, whatever values the replies carried.
pub proof fn lemma_count_equals_clicks(events: Seq<Event>)
    requires
        clicks(events) <= u64::MAX,
        run(events).pending.is_empty(),
    ensures
        run(events).count == clicks(events),
{
    lemma_run_consistent(events);
}

/// A round trip's reply is applied once: a second reply under the same id
/// changes nothing, and one reply adds at most one to the count.
pub proof fn lemma_reply_applied_once(s: ControllerState, id: u64)
    requires
        consistent(s),
    ensures
        reply(reply(s, id), id) == reply(s, id),
        reply(s, id).count <= s.count + 1,
        !reply(s, id).pending.contains(id),
{
}

/// Two clicks open two distinct round trips, and their two replies, in
/// either order, add two to the count.
pub proof fn lemma_two_clicks_two_increments(s: ControllerState)
    requires
        consistent(s),
        s.issued + 2 <= u64::MAX,
    ensures
        ({
            let first = s.issued as u64;
            let second = (s.issued + 1) as u64;
            let t = click(click(s));
            &&& first != second
            &&& t.pending.contains(first) && t.pending.contains(second)
            &&& reply(reply(t, first), second).count == s.count + 2
            &&& reply(reply(t, second), first).count == s.count + 2
        }),
{
}

} // verus!
