use amqp_trigger::broker::{client_properties, connection_uri, AddressError, AmqpScheme};
use amqp_trigger::config::{Binding, ConnectionSettings};
use amqp_trigger::gateway::{dispatch_outcome, DispatchOutcome, HandlerError, InvocationResult};
use amqp_trigger::listener::{
    settlement, Delivery, Listener, ListenerAction, ListenerError, ListenerEvent, Phase, Settlement,
};
use amqp_trigger::metadata::Properties;
use lapin::types::{AMQPValue, LongString};

fn settings(address: &str) -> ConnectionSettings {
    ConnectionSettings {
        address: address.to_string(),
        username: "user".to_string(),
        password: "secret".to_string(),
        keep_alive: None,
    }
}

fn orders() -> Binding {
    Binding { component: "shop".to_string(), topic: "orders".to_string(), qos: None }
}

fn hello(tag: u64, redelivered: bool) -> Delivery {
    Delivery { tag, redelivered, payload: b"hello".to_vec(), properties: Properties::default() }
}

/// A listener on `orders` that is consuming.
fn consuming() -> Listener {
    let (mut l, first) = Listener::start(0, &settings("amqp://localhost"), orders(), &vec![]);
    assert!(matches!(first, ListenerAction::Connect { .. }));
    match l.step(ListenerEvent::Connected) {
        ListenerAction::Subscribe { topic, consumer_tag, prefetch } => {
            assert_eq!(topic, "orders");
            assert_eq!(consumer_tag, "spin_trigger_0");
            assert_eq!(prefetch, None);
        }
        _ => panic!("expected a subscription"),
    }
    assert!(matches!(l.step(ListenerEvent::Subscribed), ListenerAction::Receive));
    l
}

fn failure() -> DispatchOutcome {
    DispatchOutcome::Failure("guest failed".to_string())
}

#[test]
fn first_failure_is_requeued() {
    let mut l = consuming();
    match l.step(ListenerEvent::Delivered(hello(7, false))) {
        ListenerAction::Invoke { component, envelopes } => {
            assert_eq!(component, "shop");
            assert_eq!(envelopes.len(), 1);
            assert_eq!(envelopes[0].payload, b"hello".to_vec());
            assert_eq!(envelopes[0].metadata, None);
        }
        _ => panic!("expected an invocation"),
    }
    assert!(matches!(l.step(ListenerEvent::Invoked(failure())), ListenerAction::Nack { tag: 7, requeue: true }));
}

#[test]
fn redelivered_failure_is_dropped() {
    let mut l = consuming();
    assert!(matches!(l.step(ListenerEvent::Delivered(hello(8, true))), ListenerAction::Invoke { .. }));
    assert!(matches!(l.step(ListenerEvent::Invoked(failure())), ListenerAction::Nack { tag: 8, requeue: false }));
}

#[test]
fn success_acknowledges_that_delivery() {
    let mut l = consuming();
    assert!(matches!(l.step(ListenerEvent::Delivered(hello(3, true))), ListenerAction::Invoke { .. }));
    assert!(matches!(l.step(ListenerEvent::Invoked(DispatchOutcome::Success)), ListenerAction::Ack { tag: 3 }));
    assert!(matches!(l.step(ListenerEvent::Settled), ListenerAction::Receive));
    assert!(matches!(l.step(ListenerEvent::Delivered(hello(4, false))), ListenerAction::Invoke { .. }));
    assert!(matches!(l.step(ListenerEvent::Invoked(DispatchOutcome::Success)), ListenerAction::Ack { tag: 4 }));
}

#[test]
fn settlement_rule() {
    assert_eq!(settlement(&DispatchOutcome::Success, false), Settlement::Ack);
    assert_eq!(settlement(&DispatchOutcome::Success, true), Settlement::Ack);
    assert_eq!(settlement(&failure(), false), Settlement::Nack { requeue: true });
    assert_eq!(settlement(&failure(), true), Settlement::Nack { requeue: false });
}

#[test]
fn settle_transport_error_stops_the_listener() {
    let mut l = consuming();
    l.step(ListenerEvent::Delivered(hello(1, false)));
    l.step(ListenerEvent::Invoked(DispatchOutcome::Success));
    match l.step(ListenerEvent::SettleFailed("channel closed".to_string())) {
        ListenerAction::Exit(Err(ListenerError::AckTransport(m))) => assert_eq!(m, "channel closed"),
        _ => panic!("expected a fatal exit"),
    }
    assert!(matches!(l.phase, Phase::Failed(ListenerError::AckTransport(_))));
    assert!(!l.expects(&ListenerEvent::Settled));
}

#[test]
fn stream_end_drains() {
    let mut l = consuming();
    assert!(matches!(l.step(ListenerEvent::StreamEnded), ListenerAction::Exit(Ok(()))));
    assert!(matches!(l.phase, Phase::Draining));
}

#[test]
fn connect_and_subscribe_failures_are_fatal() {
    let (mut l, _) = Listener::start(2, &settings("amqp://localhost"), orders(), &vec![]);
    assert_eq!(l.consumer_tag, "spin_trigger_2");
    assert!(matches!(
        l.step(ListenerEvent::ConnectFailed("refused".to_string())),
        ListenerAction::Exit(Err(ListenerError::Connection(_)))
    ));
    let (mut l, _) = Listener::start(0, &settings("amqp://localhost"), orders(), &vec![]);
    l.step(ListenerEvent::Connected);
    assert!(matches!(
        l.step(ListenerEvent::SubscribeFailed("no queue".to_string())),
        ListenerAction::Exit(Err(ListenerError::Subscription(_)))
    ));
}

#[test]
fn events_out_of_order_are_not_expected() {
    let (l, _) = Listener::start(0, &settings("amqp://localhost"), orders(), &vec![]);
    assert!(l.expects(&ListenerEvent::Connected));
    assert!(!l.expects(&ListenerEvent::Delivered(hello(1, false))));
    assert!(!l.expects(&ListenerEvent::Invoked(DispatchOutcome::Success)));
}

#[test]
fn address_gets_configured_credentials() {
    let mut s = settings("amqps://other:pw@broker.example:1234/v?heartbeat=10");
    s.keep_alive = Some(30);
    let u = connection_uri(&s).unwrap();
    assert_eq!(u.scheme, AmqpScheme::Amqps);
    assert_eq!(u.host, "broker.example");
    assert_eq!(u.port, 1234);
    assert_eq!(u.vhost, "v");
    assert_eq!(u.username, "user");
    assert_eq!(u.password, "secret");
    assert_eq!(u.heartbeat, Some(30));
    let u = connection_uri(&settings("amqp://localhost/?heartbeat=10")).unwrap();
    assert_eq!(u.heartbeat, Some(10));
    assert_eq!(u.port, 5672);
}

#[test]
fn bad_address_stops_the_listener() {
    assert!(matches!(connection_uri(&settings("http://localhost/")), Err(AddressError::Invalid(_))));
    let (l, first) = Listener::start(0, &settings("foo"), orders(), &vec![]);
    assert!(matches!(first, ListenerAction::Exit(Err(ListenerError::Address(_)))));
    assert!(matches!(l.phase, Phase::Failed(_)));
}

#[test]
fn extensions_become_client_properties() {
    let t = client_properties(&vec![
        ("team".to_string(), "orders".to_string()),
        ("region".to_string(), "eu".to_string()),
        ("team".to_string(), "billing".to_string()),
    ]);
    assert_eq!(t.inner().len(), 2);
    assert_eq!(t.inner().get("team"), Some(&AMQPValue::LongString(LongString::from("billing"))));
    assert_eq!(t.inner().get("region"), Some(&AMQPValue::LongString(LongString::from("eu"))));
}

#[test]
fn invocation_results_map_to_outcomes() {
    assert!(matches!(dispatch_outcome(InvocationResult::Returned(Ok(()))), DispatchOutcome::Success));
    match dispatch_outcome(InvocationResult::Returned(Err(HandlerError::Other("bad input".to_string())))) {
        DispatchOutcome::Failure(m) => assert_eq!(m, "failed to execute guest: bad input"),
        _ => panic!("expected a failure"),
    }
    match dispatch_outcome(InvocationResult::SandboxFailed("trap".to_string())) {
        DispatchOutcome::Failure(m) => assert_eq!(m, "trap"),
        _ => panic!("expected a failure"),
    }
}
