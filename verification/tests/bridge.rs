use rws::bridge::{Bridge, Polled, DEFAULT_CAPACITY};
use rws::error::BridgeError;
use rws::queue::EnqueueError;
use rws::request::{Reply, RequestMeta, Response};
use rws::state::Lifecycle;

fn request(method: &str, url: &str) -> RequestMeta {
    RequestMeta {
        method: method.to_string(),
        url: url.to_string(),
        headers: vec![("host".to_string(), "localhost".to_string())],
        body: String::new(),
    }
}

#[test]
fn a_request_is_polled_completed_and_answered_once() {
    let mut bridge = Bridge::new(8);
    let inbox = bridge.open_inbox();
    let a = request("GET", "/x");
    let ticket = bridge.submit(a.clone()).unwrap();

    let (got, handle) = match bridge.poll(inbox) {
        Ok(Polled::Request { request, response_handle }) => (request, response_handle),
        other => panic!("expected a request, got {:?}", other),
    };
    assert_eq!(got, a);
    assert_ne!(handle, 0);
    assert_ne!(handle, inbox);

    assert_eq!(bridge.take_reply(ticket), Reply::Waiting);
    assert_eq!(bridge.complete(handle, "hello".to_string()), Ok(()));
    assert_eq!(bridge.take_reply(ticket), Reply::Ready("hello".to_string()));
    assert_eq!(
        bridge.complete(handle, "again".to_string()),
        Err(BridgeError::UnknownHandle)
    );
    assert_eq!(bridge.take_reply(ticket), Reply::Unknown);
}

#[test]
fn a_producer_waiting_on_a_full_queue_sees_the_close() {
    let mut bridge = Bridge::new(1);
    bridge.submit(request("GET", "/first")).unwrap();
    let waiting = request("GET", "/second");
    assert_eq!(
        bridge.submit(waiting.clone()),
        Err(EnqueueError::Full(waiting.clone()))
    );
    bridge.close();
    assert_eq!(
        bridge.submit(waiting.clone()),
        Err(EnqueueError::Closed(waiting))
    );
    assert_eq!(bridge.lifecycle(), Lifecycle::Down(BridgeError::QueueClosed));
}

#[test]
fn two_requests_are_polled_in_the_order_of_submission() {
    let mut bridge = Bridge::new(DEFAULT_CAPACITY);
    let inbox = bridge.open_inbox();
    let a = request("GET", "/a");
    let b = request("POST", "/b");
    let ta = bridge.submit(a.clone()).unwrap();
    let tb = bridge.submit(b.clone()).unwrap();
    assert_ne!(ta, tb);

    let first = bridge.poll(inbox).unwrap();
    let second = bridge.poll(inbox).unwrap();
    let (ha, hb) = match (first, second) {
        (
            Polled::Request { request: ra, response_handle: ha },
            Polled::Request { request: rb, response_handle: hb },
        ) => {
            assert_eq!(ra, a);
            assert_eq!(rb, b);
            (ha, hb)
        }
        other => panic!("expected two requests, got {:?}", other),
    };
    assert_ne!(ha, hb);
    assert_eq!(bridge.poll(inbox), Ok(Polled::Empty));

    assert_eq!(bridge.complete(hb, "for b".to_string()), Ok(()));
    assert_eq!(bridge.take_reply(ta), Reply::Waiting);
    assert_eq!(bridge.take_reply(tb), Reply::Ready("for b".to_string()));
    assert_eq!(bridge.complete(ha, "for a".to_string()), Ok(()));
    assert_eq!(bridge.take_reply(ta), Reply::Ready("for a".to_string()));
}

#[test]
fn the_fallback_is_a_success_status_with_an_error_body() {
    let r = Response::fallback();
    assert_eq!(r.status, 200);
    assert_eq!(r.content_type, "text/html");
    assert_eq!(r.body, "<h2>error</h2>");
}

#[test]
fn a_fresh_bridge_is_booting_open_and_empty() {
    let bridge = Bridge::new(3);
    assert_eq!(bridge.capacity(), 3);
    assert_eq!(bridge.queued(), 0);
    assert!(!bridge.is_closed());
    assert!(bridge.has_spare_handle());
    assert!(bridge.has_spare_ticket());
    assert_eq!(bridge.lifecycle(), Lifecycle::Booting);
    assert_eq!(DEFAULT_CAPACITY, 100 * 1048);
}

#[test]
fn opening_the_inbox_twice_gives_the_same_handle() {
    let mut bridge = Bridge::new(3);
    let first = bridge.open_inbox();
    assert_eq!(first, 1);
    assert_eq!(bridge.lifecycle(), Lifecycle::Serving);
    let second = bridge.open_inbox();
    assert_eq!(first, second);
    bridge.submit(request("GET", "/")).unwrap();
    match bridge.poll(first) {
        Ok(Polled::Request { response_handle, .. }) => assert_eq!(response_handle, 2),
        other => panic!("expected a request, got {:?}", other),
    }
    assert_eq!(bridge.open_inbox(), first);
}

#[test]
fn requests_queue_up_while_the_engine_boots() {
    let mut bridge = Bridge::new(4);
    let a = request("GET", "/early");
    bridge.submit(a.clone()).unwrap();
    assert_eq!(bridge.queued(), 1);
    let inbox = bridge.open_inbox();
    match bridge.poll(inbox) {
        Ok(Polled::Request { request, .. }) => assert_eq!(request, a),
        other => panic!("expected a request, got {:?}", other),
    }
}

#[test]
fn a_poll_needs_the_inbox_handle() {
    let mut bridge = Bridge::new(4);
    assert_eq!(bridge.poll(1), Err(BridgeError::UnknownHandle));
    let inbox = bridge.open_inbox();
    bridge.submit(request("GET", "/")).unwrap();
    assert_eq!(bridge.poll(0), Err(BridgeError::UnknownHandle));
    assert_eq!(bridge.poll(inbox + 1), Err(BridgeError::UnknownHandle));
    assert_eq!(bridge.poll(999), Err(BridgeError::UnknownHandle));
    assert_eq!(bridge.queued(), 1);
    let handle = match bridge.poll(inbox) {
        Ok(Polled::Request { response_handle, .. }) => response_handle,
        other => panic!("expected a request, got {:?}", other),
    };
    assert_eq!(bridge.poll(handle), Err(BridgeError::UnknownHandle));
}

#[test]
fn a_completion_needs_a_pending_handle() {
    let mut bridge = Bridge::new(4);
    let inbox = bridge.open_inbox();
    assert_eq!(bridge.complete(0, "x".to_string()), Err(BridgeError::UnknownHandle));
    assert_eq!(bridge.complete(inbox, "x".to_string()), Err(BridgeError::UnknownHandle));
    assert_eq!(bridge.complete(77, "x".to_string()), Err(BridgeError::UnknownHandle));
    bridge.submit(request("GET", "/")).unwrap();
    assert_eq!(bridge.complete(2, "x".to_string()), Err(BridgeError::UnknownHandle));
    assert_eq!(bridge.poll(inbox).map(|_| ()), Ok(()));
    assert_eq!(bridge.complete(2, "x".to_string()), Ok(()));
    assert_eq!(bridge.open_inbox(), inbox);
}

#[test]
fn a_completion_touches_no_other_slot() {
    let mut bridge = Bridge::new(8);
    let inbox = bridge.open_inbox();
    let t1 = bridge.submit(request("GET", "/1")).unwrap();
    let t2 = bridge.submit(request("GET", "/2")).unwrap();
    let t3 = bridge.submit(request("GET", "/3")).unwrap();
    let mut handles = Vec::new();
    for _ in 0..2 {
        match bridge.poll(inbox) {
            Ok(Polled::Request { response_handle, .. }) => handles.push(response_handle),
            other => panic!("expected a request, got {:?}", other),
        }
    }
    assert_eq!(bridge.complete(handles[1], "two".to_string()), Ok(()));
    assert_eq!(bridge.take_reply(t1), Reply::Waiting);
    assert_eq!(bridge.take_reply(t3), Reply::Waiting);
    assert_eq!(bridge.take_reply(t2), Reply::Ready("two".to_string()));
    assert_eq!(bridge.take_reply(t2), Reply::Unknown);
    assert_eq!(bridge.queued(), 1);
}

#[test]
fn a_handle_of_another_bridge_that_is_not_live_here_is_unknown() {
    let mut one = Bridge::new(4);
    let mut two = Bridge::new(4);
    let inbox_one = one.open_inbox();
    one.submit(request("GET", "/")).unwrap();
    let handle = match one.poll(inbox_one) {
        Ok(Polled::Request { response_handle, .. }) => response_handle,
        other => panic!("expected a request, got {:?}", other),
    };
    assert_eq!(two.complete(handle, "x".to_string()), Err(BridgeError::UnknownHandle));
    assert_eq!(two.poll(inbox_one), Err(BridgeError::UnknownHandle));
    assert_eq!(one.complete(handle, "x".to_string()), Ok(()));
}

#[test]
fn a_full_bridge_accepts_again_after_one_poll() {
    let mut bridge = Bridge::new(2);
    let inbox = bridge.open_inbox();
    bridge.submit(request("GET", "/1")).unwrap();
    bridge.submit(request("GET", "/2")).unwrap();
    let third = request("GET", "/3");
    assert_eq!(bridge.submit(third.clone()), Err(EnqueueError::Full(third.clone())));
    assert_eq!(bridge.queued(), 2);
    assert!(matches!(bridge.poll(inbox), Ok(Polled::Request { .. })));
    let t3 = bridge.submit(third.clone()).unwrap();
    assert_eq!(t3, 2);
    assert!(matches!(bridge.poll(inbox), Ok(Polled::Request { .. })));
    match bridge.poll(inbox) {
        Ok(Polled::Request { request, .. }) => assert_eq!(request, third),
        other => panic!("expected a request, got {:?}", other),
    }
}

#[test]
fn an_abandoned_request_is_still_polled_and_completed() {
    let mut bridge = Bridge::new(4);
    let inbox = bridge.open_inbox();
    let queued = bridge.submit(request("GET", "/queued")).unwrap();
    let polled = bridge.submit(request("GET", "/polled")).unwrap();
    assert!(bridge.abandon(queued));
    assert!(!bridge.abandon(queued));
    let h1 = match bridge.poll(inbox) {
        Ok(Polled::Request { response_handle, .. }) => response_handle,
        other => panic!("expected a request, got {:?}", other),
    };
    let h2 = match bridge.poll(inbox) {
        Ok(Polled::Request { response_handle, .. }) => response_handle,
        other => panic!("expected a request, got {:?}", other),
    };
    assert!(bridge.abandon(polled));
    assert_eq!(bridge.complete(h1, "nobody".to_string()), Ok(()));
    assert_eq!(bridge.complete(h2, "listens".to_string()), Ok(()));
    assert_eq!(bridge.take_reply(queued), Reply::Unknown);
    assert_eq!(bridge.take_reply(polled), Reply::Unknown);
    assert_eq!(bridge.complete(h1, "again".to_string()), Err(BridgeError::UnknownHandle));
}

#[test]
fn a_closed_bridge_drains_then_reports_closed() {
    let mut bridge = Bridge::new(4);
    let inbox = bridge.open_inbox();
    assert_eq!(bridge.poll(inbox), Ok(Polled::Empty));
    let ticket = bridge.submit(request("GET", "/last")).unwrap();
    bridge.close();
    assert!(bridge.is_closed());
    let handle = match bridge.poll(inbox) {
        Ok(Polled::Request { response_handle, .. }) => response_handle,
        other => panic!("expected a request, got {:?}", other),
    };
    assert_eq!(bridge.poll(inbox), Ok(Polled::Closed));
    assert_eq!(bridge.poll(inbox), Ok(Polled::Closed));
    assert_eq!(bridge.complete(handle, "late".to_string()), Ok(()));
    assert_eq!(bridge.take_reply(ticket), Reply::Ready("late".to_string()));
}

#[test]
fn waiting_connections_fail_once_the_bridge_is_down() {
    let mut bridge = Bridge::new(4);
    let ticket = bridge.submit(request("GET", "/")).unwrap();
    assert_eq!(bridge.take_reply(ticket), Reply::Waiting);
    assert_eq!(bridge.engine_lost(), BridgeError::EngineBootFailure);
    assert_eq!(bridge.lifecycle(), Lifecycle::Down(BridgeError::EngineBootFailure));
    assert_eq!(bridge.take_reply(ticket), Reply::Failed);
    assert_eq!(bridge.take_reply(ticket), Reply::Unknown);
    let late = request("GET", "/late");
    assert_eq!(bridge.submit(late.clone()), Err(EnqueueError::Closed(late)));
}

#[test]
fn losing_a_serving_engine_closes_the_queue() {
    let mut bridge = Bridge::new(4);
    bridge.open_inbox();
    assert_eq!(bridge.engine_lost(), BridgeError::QueueClosed);
    assert_eq!(bridge.lifecycle(), Lifecycle::Down(BridgeError::QueueClosed));
    assert_eq!(bridge.engine_lost(), BridgeError::QueueClosed);
}

#[test]
fn the_first_reason_for_going_down_stays() {
    let mut bridge = Bridge::new(4);
    assert_eq!(bridge.engine_lost(), BridgeError::EngineBootFailure);
    bridge.close();
    assert_eq!(bridge.lifecycle(), Lifecycle::Down(BridgeError::EngineBootFailure));
    assert_eq!(bridge.engine_lost(), BridgeError::EngineBootFailure);
}

#[test]
fn a_reply_decides_the_response() {
    assert_eq!(
        Response::for_reply(Reply::Ready("<p>hi</p>".to_string())),
        Some(Response {
            status: 200,
            content_type: "text/html".to_string(),
            body: "<p>hi</p>".to_string(),
        })
    );
    assert_eq!(Response::for_reply(Reply::Waiting), None);
    assert_eq!(Response::for_reply(Reply::Failed), Some(Response::fallback()));
    assert_eq!(Response::for_reply(Reply::Unknown), Some(Response::fallback()));
    assert_eq!(Response::html("x".to_string()).body, "x");
}

#[test]
fn many_requests_come_out_in_the_order_they_went_in() {
    let mut bridge = Bridge::new(64);
    let inbox = bridge.open_inbox();
    let mut tickets = Vec::new();
    for n in 0..50 {
        tickets.push(bridge.submit(request("GET", &format!("/{}", n))).unwrap());
    }
    for n in 0..50 {
        match bridge.poll(inbox) {
            Ok(Polled::Request { request, response_handle }) => {
                assert_eq!(request.url, format!("/{}", n));
                assert_eq!(response_handle, 2 + n as u64);
                assert_eq!(bridge.complete(response_handle, format!("body {}", n)), Ok(()));
            }
            other => panic!("expected a request, got {:?}", other),
        }
    }
    for (n, ticket) in tickets.into_iter().enumerate() {
        assert_eq!(bridge.take_reply(ticket), Reply::Ready(format!("body {}", n)));
    }
}
