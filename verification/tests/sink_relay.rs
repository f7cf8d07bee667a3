use mqtt_gateway::dual::DualSink;
use mqtt_gateway::session::AckEntry;
use mqtt_gateway::session::AnySink;
use mqtt_gateway::session::Leg;
use mqtt_gateway::session::QoS;
use mqtt_gateway::session::SinkLeg;
use mqtt_gateway::session::SubscribeOutcome;
use mqtt_gateway::session::SubscribeReturnCode;
use mqtt_gateway::session::SubscribeStep;
use mqtt_gateway::session::TopicSub;
use mqtt_gateway::session::UnsubscribeStep;

fn single() -> AnySink {
    AnySink::MqttSink(Leg { closed: false })
}

fn dual() -> AnySink {
    AnySink::DualSink(DualSink::new(
        b"dev-1".to_vec(),
        Leg { closed: false },
        Leg { closed: false },
    ))
}

fn request() -> Vec<TopicSub> {
    vec![
        TopicSub { filter: b"sensors/+".to_vec(), qos: QoS::AtLeastOnce },
        TopicSub { filter: b"alerts/#".to_vec(), qos: QoS::AtMostOnce },
    ]
}

#[test]
fn close_single_marks_leg_closed() {
    let mut s = single();
    s.close();
    match &s {
        AnySink::MqttSink(leg) => assert!(leg.closed),
        AnySink::DualSink(_) => panic!("shape changed"),
    }
}

#[test]
fn close_dual_closes_both_legs_and_is_idempotent() {
    let mut s = dual();
    s.close();
    match &s {
        AnySink::DualSink(d) => {
            assert!(d.primary_sink.closed);
            assert!(d.secondary_sink.closed);
            assert_eq!(d.client_id, b"dev-1".to_vec());
        },
        AnySink::MqttSink(_) => panic!("shape changed"),
    }
    s.close();
    match &s {
        AnySink::DualSink(d) => {
            assert!(d.primary_sink.closed && d.secondary_sink.closed);
        },
        AnySink::MqttSink(_) => panic!("shape changed"),
    }
}

#[test]
fn publish_routes_single_to_only_leg() {
    let p = single().publish(b"t".to_vec(), b"x".to_vec());
    assert_eq!(p.leg, SinkLeg::Only);
    assert_eq!(p.topic, b"t".to_vec());
    assert_eq!(p.payload, b"x".to_vec());
}

#[test]
fn publish_routes_dual_to_secondary_only() {
    let p = dual().publish(b"t".to_vec(), b"x".to_vec());
    assert_eq!(p.leg, SinkLeg::Secondary);
}

#[test]
fn subscribe_single_acks_every_topic() {
    let s = single();
    let mut subs: Vec<Vec<u8>> = Vec::new();
    let req = request();
    let send = s.handle_subscribe(&mut subs, &req);
    assert_eq!(send.leg, SinkLeg::Only);
    assert_eq!(send.packet.len(), 2);
    assert_eq!(send.packet[0].filter, b"sensors/+".to_vec());
    assert_eq!(send.packet[0].qos, QoS::AtLeastOnce);
    assert_eq!(subs, vec![b"sensors/+".to_vec(), b"alerts/#".to_vec()]);

    let outcome = SubscribeOutcome::Codes(vec![
        SubscribeReturnCode::Success(QoS::AtLeastOnce),
        SubscribeReturnCode::Failure,
    ]);
    let step = s.handle_subscribe_outcome(&mut subs, &req, SinkLeg::Only, &outcome);
    match step {
        SubscribeStep::Done(Ok(acks)) => {
            assert_eq!(acks, vec![AckEntry::Confirmed(QoS::AtLeastOnce), AckEntry::Failed]);
        },
        _ => panic!("single subscribe with codes must finish with an ack list"),
    }
    assert_eq!(subs.len(), 2);
}

#[test]
fn subscribe_single_send_failure_fails() {
    let s = single();
    let mut subs: Vec<Vec<u8>> = Vec::new();
    let req = request();
    s.handle_subscribe(&mut subs, &req);
    let step = s.handle_subscribe_outcome(&mut subs, &req, SinkLeg::Only, &SubscribeOutcome::Failed);
    assert!(matches!(step, SubscribeStep::Done(Err(_))));
}

#[test]
fn subscribe_dual_goes_primary_then_secondary() {
    let s = dual();
    let mut subs: Vec<Vec<u8>> = Vec::new();
    let req = request();
    let send = s.handle_subscribe(&mut subs, &req);
    assert_eq!(send.leg, SinkLeg::Primary);
    assert_eq!(subs.len(), 2);

    let primary_codes = SubscribeOutcome::Codes(vec![
        SubscribeReturnCode::Success(QoS::AtLeastOnce),
        SubscribeReturnCode::Success(QoS::AtMostOnce),
    ]);
    let step = s.handle_subscribe_outcome(&mut subs, &req, SinkLeg::Primary, &primary_codes);
    let packet = match step {
        SubscribeStep::SendSecondary(p) => p,
        _ => panic!("primary success must continue with the secondary leg"),
    };
    assert_eq!(packet.len(), 2);
    assert_eq!(packet[1].filter, b"alerts/#".to_vec());
    // per-leg bookkeeping: the filters are appended once per attempted leg
    assert_eq!(subs.len(), 4);

    let secondary_codes = SubscribeOutcome::Codes(vec![
        SubscribeReturnCode::Failure,
        SubscribeReturnCode::Success(QoS::AtMostOnce),
    ]);
    let step = s.handle_subscribe_outcome(&mut subs, &req, SinkLeg::Secondary, &secondary_codes);
    match step {
        SubscribeStep::Done(Ok(acks)) => {
            // the deciding codes are the secondary leg's
            assert_eq!(acks, vec![AckEntry::Failed, AckEntry::Confirmed(QoS::AtMostOnce)]);
        },
        _ => panic!("secondary codes must finish the relay"),
    }
}

#[test]
fn subscribe_dual_primary_failure_skips_secondary() {
    let s = dual();
    let mut subs: Vec<Vec<u8>> = Vec::new();
    let req = request();
    s.handle_subscribe(&mut subs, &req);
    let step = s.handle_subscribe_outcome(&mut subs, &req, SinkLeg::Primary, &SubscribeOutcome::Failed);
    match step {
        SubscribeStep::Done(Err(_)) => {},
        SubscribeStep::SendSecondary(_) => panic!("secondary must never be attempted"),
        SubscribeStep::Done(Ok(_)) => panic!("primary failure must fail the whole operation"),
    }
    // nothing was appended for the never-attempted secondary leg
    assert_eq!(subs.len(), 2);
}

#[test]
fn subscribe_dual_secondary_failure_fails() {
    let s = dual();
    let mut subs: Vec<Vec<u8>> = Vec::new();
    let req = request();
    s.handle_subscribe(&mut subs, &req);
    let ok = SubscribeOutcome::Codes(vec![
        SubscribeReturnCode::Success(QoS::AtLeastOnce),
        SubscribeReturnCode::Success(QoS::AtMostOnce),
    ]);
    s.handle_subscribe_outcome(&mut subs, &req, SinkLeg::Primary, &ok);
    let step = s.handle_subscribe_outcome(&mut subs, &req, SinkLeg::Secondary, &SubscribeOutcome::Failed);
    assert!(matches!(step, SubscribeStep::Done(Err(_))));
}

#[test]
fn unsubscribe_single_acks_and_appends() {
    let s = single();
    let mut subs: Vec<Vec<u8>> = vec![b"old".to_vec()];
    let topics = vec![b"sensors/+".to_vec()];
    let send = s.handle_unsubscribe(&mut subs, &topics);
    assert_eq!(send.leg, SinkLeg::Only);
    assert_eq!(send.packet, vec![b"sensors/+".to_vec()]);
    // the preserved quirk: unsubscribe also appends to the bookkeeping list
    assert_eq!(subs, vec![b"old".to_vec(), b"sensors/+".to_vec()]);
    let step = s.handle_unsubscribe_outcome(&mut subs, &topics, SinkLeg::Only, true);
    assert!(matches!(step, UnsubscribeStep::Done(Ok(()))));
}

#[test]
fn unsubscribe_dual_failures_fail_whole_operation() {
    let s = dual();
    let mut subs: Vec<Vec<u8>> = Vec::new();
    let topics = vec![b"a".to_vec(), b"b".to_vec()];
    s.handle_unsubscribe(&mut subs, &topics);
    assert_eq!(subs.len(), 2);

    let step = s.handle_unsubscribe_outcome(&mut subs, &topics, SinkLeg::Primary, false);
    assert!(matches!(step, UnsubscribeStep::Done(Err(_))));
    assert_eq!(subs.len(), 2);

    let step = s.handle_unsubscribe_outcome(&mut subs, &topics, SinkLeg::Primary, true);
    match step {
        UnsubscribeStep::SendSecondary(p) => assert_eq!(p, topics),
        _ => panic!("primary success must continue with the secondary leg"),
    }
    assert_eq!(subs.len(), 4);

    let step = s.handle_unsubscribe_outcome(&mut subs, &topics, SinkLeg::Secondary, false);
    assert!(matches!(step, UnsubscribeStep::Done(Err(_))));
    let step = s.handle_unsubscribe_outcome(&mut subs, &topics, SinkLeg::Secondary, true);
    assert!(matches!(step, UnsubscribeStep::Done(Ok(()))));
}
