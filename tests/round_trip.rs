use workers::{work, Controller, StaleRoundTrip, WorkerRequest, WorkerResponse, CLICK_VALUE};

#[test]
fn worker_hands_back_the_value_it_was_given() {
    assert_eq!(work(WorkerRequest::new(5)), WorkerResponse(5));
    assert_eq!(work(WorkerRequest::new(-17)).0, -17);
    assert_eq!(work(WorkerRequest::new(i32::MAX)).0, i32::MAX);
    assert_eq!(work(WorkerRequest::new(i32::MIN)).0, i32::MIN);
}

#[test]
fn request_keeps_its_value_until_opened() {
    assert_eq!(WorkerRequest::new(42).into_value(), 42);
}

#[test]
fn one_click_counts_one() {
    let mut c = Controller::new();
    assert_eq!(c.count(), 0);
    let (req, trip) = c.on_click();
    assert_eq!(c.in_flight(), 1);
    let resp = work(req);
    assert_eq!(resp.0, CLICK_VALUE);
    assert_eq!(resp.0, 5);
    assert_eq!(c.on_response(trip, resp), Ok(5));
    assert_eq!(c.count(), 1);
    assert_eq!(c.in_flight(), 0);
}

#[test]
fn three_quick_clicks_all_complete() {
    let mut c = Controller::new();
    let (r1, t1) = c.on_click();
    let (r2, t2) = c.on_click();
    let (r3, t3) = c.on_click();
    assert_eq!(c.issued(), 3);
    assert_eq!(c.in_flight(), 3);
    assert_eq!(c.count(), 0);
    assert_ne!(t1.id(), t2.id());
    assert_ne!(t2.id(), t3.id());
    assert_ne!(t1.id(), t3.id());
    // replies arrive in another order than the clicks
    assert_eq!(c.on_response(t2, work(r2)), Ok(5));
    assert_eq!(c.on_response(t3, work(r3)), Ok(5));
    assert_eq!(c.on_response(t1, work(r1)), Ok(5));
    assert_eq!(c.count(), 3);
    assert_eq!(c.in_flight(), 0);
}

#[test]
fn two_clicks_are_two_round_trips() {
    let mut c = Controller::new();
    let (r1, t1) = c.on_click();
    let (r2, t2) = c.on_click();
    assert_ne!(t1.id(), t2.id());
    assert_eq!(c.on_response(t1, work(r1)), Ok(5));
    assert_eq!(c.count(), 1);
    assert_eq!(c.on_response(t2, work(r2)), Ok(5));
    assert_eq!(c.count(), 2);
}

#[test]
fn count_ignores_the_reply_value() {
    let mut c = Controller::new();
    let (_r1, t1) = c.on_click();
    let (_r2, t2) = c.on_click();
    assert_eq!(c.on_response(t1, WorkerResponse(0)), Ok(0));
    assert_eq!(c.on_response(t2, WorkerResponse(-9)), Ok(-9));
    assert_eq!(c.count(), 2);
}

#[test]
fn n_clicks_count_n() {
    let mut c = Controller::new();
    let mut open = Vec::new();
    for _ in 0..50 {
        open.push(c.on_click());
    }
    assert_eq!(c.count(), 0);
    for (req, trip) in open {
        assert_eq!(c.on_response(trip, work(req)), Ok(5));
    }
    assert_eq!(c.count(), 50);
    assert_eq!(c.issued(), 50);
    assert_eq!(c.in_flight(), 0);
}

#[test]
fn reply_for_a_round_trip_not_open_here_is_refused() {
    let mut other = Controller::new();
    let (_req, foreign) = other.on_click();
    let mut c = Controller::new();
    assert_eq!(c.on_response(foreign, WorkerResponse(5)), Err(StaleRoundTrip));
    assert_eq!(c.count(), 0);
    assert_eq!(c.in_flight(), 0);
}

#[test]
fn reply_under_an_id_already_closed_is_refused() {
    let mut a = Controller::new();
    let mut b = Controller::new();
    let (ra, ta) = a.on_click();
    let (_rb, tb) = b.on_click();
    assert_eq!(ta.id(), tb.id());
    assert_eq!(a.on_response(ta, work(ra)), Ok(5));
    // the same id again: not applied a second time
    assert_eq!(a.on_response(tb, WorkerResponse(5)), Err(StaleRoundTrip));
    assert_eq!(a.count(), 1);
}
