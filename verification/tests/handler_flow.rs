use mqtt_gateway::handler::ConnectPlan;
use mqtt_gateway::handler::ControlAction;
use mqtt_gateway::handler::ControlV5;
use mqtt_gateway::handler::ControlV5Action;
use mqtt_gateway::handler::DownstreamControl;
use mqtt_gateway::handler::DualConfig;
use mqtt_gateway::handler::PublishOutcome;
use mqtt_gateway::handler::UpstreamControl;
use mqtt_gateway::handler::UpstreamPublish;
use mqtt_gateway::handler::complete_publish;
use mqtt_gateway::handler::establish_session;
use mqtt_gateway::handler::handle_control_v5;
use mqtt_gateway::handler::handle_downstream_control;
use mqtt_gateway::handler::handle_downstream_pub;
use mqtt_gateway::handler::handle_upstream_control;
use mqtt_gateway::handler::handle_upstream_pub;
use mqtt_gateway::handler::plan_connect;
use mqtt_gateway::registry::Registry;
use mqtt_gateway::session::AckEntry;
use mqtt_gateway::session::AnySink;
use mqtt_gateway::session::QoS;
use mqtt_gateway::session::SessionState;
use mqtt_gateway::session::SinkLeg;
use mqtt_gateway::session::SubscribeOutcome;
use mqtt_gateway::session::SubscribeReturnCode;
use mqtt_gateway::session::SubscribeStep;
use mqtt_gateway::session::TopicSub;

fn one_backend_registry() -> Registry {
    Registry::new(&vec![b"127.0.0.1:1883".to_vec()])
}

#[test]
fn connect_plans_selected_backend() {
    let reg = one_backend_registry();
    match plan_connect(&reg, &b"dev-1".to_vec(), &None) {
        Ok(ConnectPlan::Single { addr }) => assert_eq!(addr, b"127.0.0.1:1883".to_vec()),
        _ => panic!("a healthy backend must be planned"),
    }
}

#[test]
fn connect_rejected_without_backend() {
    let reg = Registry::new(&Vec::new());
    assert!(plan_connect(&reg, &b"dev-1".to_vec(), &None).is_err());
}

#[test]
fn connect_dual_uses_configured_pair() {
    let reg = Registry::new(&Vec::new());
    let cfg = DualConfig {
        primary_addr: b"127.0.0.1:1883".to_vec(),
        secondary_addr: b"127.0.0.1:2883".to_vec(),
    };
    match plan_connect(&reg, &b"dev-1".to_vec(), &Some(cfg)) {
        Ok(ConnectPlan::Dual { primary_addr, secondary_addr }) => {
            assert_eq!(primary_addr, b"127.0.0.1:1883".to_vec());
            assert_eq!(secondary_addr, b"127.0.0.1:2883".to_vec());
        },
        _ => panic!("dual mode must plan the configured pair"),
    }
}

#[test]
fn established_session_starts_clean() {
    let plan = ConnectPlan::Single { addr: b"127.0.0.1:1883".to_vec() };
    let ack = establish_session(b"dev-1".to_vec(), &plan);
    assert_eq!(ack.session.client_id, b"dev-1".to_vec());
    assert!(ack.session.subscriptions.is_empty());
    assert!(!ack.session.source.closed);
    assert!(!ack.session_present);
    match &ack.session.sink {
        AnySink::MqttSink(leg) => assert!(!leg.closed),
        AnySink::DualSink(_) => panic!("single plan must make a single sink"),
    }

    let plan = ConnectPlan::Dual {
        primary_addr: b"a:1".to_vec(),
        secondary_addr: b"b:2".to_vec(),
    };
    let ack = establish_session(b"dev-2".to_vec(), &plan);
    match &ack.session.sink {
        AnySink::DualSink(d) => {
            assert_eq!(d.client_id, b"dev-2".to_vec());
            assert!(!d.primary_sink.closed && !d.secondary_sink.closed);
        },
        AnySink::MqttSink(_) => panic!("dual plan must make a dual sink"),
    }
}

#[test]
fn qos0_publish_never_awaits_ack() {
    let plan = ConnectPlan::Single { addr: b"a:1".to_vec() };
    let session = establish_session(b"dev-1".to_vec(), &plan).session;
    let p = handle_downstream_pub(&session, b"t".to_vec(), b"x".to_vec(), QoS::AtMostOnce);
    assert!(!p.awaits_ack);
    // the client-visible call completes on the send alone
    assert!(complete_publish(p.awaits_ack, PublishOutcome::Sent).is_ok());
    assert!(complete_publish(false, PublishOutcome::SendFailed).is_err());
}

#[test]
fn qos1_publish_acked_only_after_upstream_ack() {
    let plan = ConnectPlan::Single { addr: b"a:1".to_vec() };
    let session = establish_session(b"dev-1".to_vec(), &plan).session;
    let p = handle_downstream_pub(&session, b"t".to_vec(), b"x".to_vec(), QoS::AtLeastOnce);
    assert!(p.awaits_ack);
    assert!(complete_publish(p.awaits_ack, PublishOutcome::Acked).is_ok());
    assert!(complete_publish(p.awaits_ack, PublishOutcome::SendFailed).is_err());
    // an upstream leg closing before the acknowledgement fails the publish
    assert!(complete_publish(p.awaits_ack, PublishOutcome::ClosedBeforeAck).is_err());
}

#[test]
fn upstream_duplicate_publish_is_rejected() {
    let pkt = UpstreamPublish {
        topic: b"t".to_vec(),
        payload: b"x".to_vec(),
        qos: QoS::AtLeastOnce,
        dup: true,
    };
    assert!(handle_upstream_pub(pkt).is_err());
}

#[test]
fn upstream_publish_forwards_with_qos_split() {
    let pkt = UpstreamPublish {
        topic: b"t".to_vec(),
        payload: b"x".to_vec(),
        qos: QoS::AtMostOnce,
        dup: false,
    };
    let f = handle_upstream_pub(pkt).expect("non-duplicate packets are forwarded");
    assert_eq!(f.topic, b"t".to_vec());
    assert_eq!(f.payload, b"x".to_vec());
    assert!(!f.awaits_ack);

    let pkt = UpstreamPublish {
        topic: b"t".to_vec(),
        payload: b"x".to_vec(),
        qos: QoS::AtLeastOnce,
        dup: false,
    };
    assert!(handle_upstream_pub(pkt).unwrap().awaits_ack);
}

fn fresh_session(dual: bool) -> SessionState {
    let plan = if dual {
        ConnectPlan::Dual { primary_addr: b"a:1".to_vec(), secondary_addr: b"b:2".to_vec() }
    } else {
        ConnectPlan::Single { addr: b"a:1".to_vec() }
    };
    establish_session(b"dev-1".to_vec(), &plan).session
}

#[test]
fn downstream_disconnect_closes_upstream_sink() {
    let mut session = fresh_session(false);
    let r = handle_downstream_control(&mut session, &DownstreamControl::Disconnect);
    assert!(matches!(r, ControlAction::Ack));
    match &session.sink {
        AnySink::MqttSink(leg) => assert!(leg.closed),
        AnySink::DualSink(_) => panic!("shape changed"),
    }

    let mut session = fresh_session(true);
    handle_downstream_control(&mut session, &DownstreamControl::Disconnect);
    match &session.sink {
        AnySink::DualSink(d) => assert!(d.primary_sink.closed && d.secondary_sink.closed),
        AnySink::MqttSink(_) => panic!("shape changed"),
    }
    assert!(!session.source.closed);
}

#[test]
fn upstream_termination_closes_downstream_source() {
    for ev in [
        UpstreamControl::Closed,
        UpstreamControl::Error,
        UpstreamControl::ProtocolError,
        UpstreamControl::PeerGone,
    ] {
        let mut session = fresh_session(false);
        assert!(!session.source.closed);
        handle_upstream_control(&mut session, &ev);
        assert!(session.source.closed);
    }
}

#[test]
fn transparent_controls_change_nothing() {
    let mut session = fresh_session(false);
    for ev in [
        DownstreamControl::Error,
        DownstreamControl::ProtocolError,
        DownstreamControl::Ping,
        DownstreamControl::Closed,
        DownstreamControl::PeerGone,
        DownstreamControl::WrBackpressure,
    ] {
        let r = handle_downstream_control(&mut session, &ev);
        assert!(matches!(r, ControlAction::Ack));
        assert!(!session.source.closed);
        assert!(session.subscriptions.is_empty());
    }
}

#[test]
fn downstream_subscribe_starts_relay() {
    let mut session = fresh_session(false);
    let req = vec![TopicSub { filter: b"sensors/+".to_vec(), qos: QoS::AtLeastOnce }];
    let r = handle_downstream_control(&mut session, &DownstreamControl::Subscribe(req));
    match r {
        ControlAction::StartSubscribe(send) => {
            assert_eq!(send.leg, SinkLeg::Only);
            assert_eq!(send.packet.len(), 1);
            assert_eq!(send.packet[0].filter, b"sensors/+".to_vec());
        },
        _ => panic!("a subscribe must start the sink relay"),
    }
    assert_eq!(session.subscriptions, vec![b"sensors/+".to_vec()]);
}

#[test]
fn v5_control_answers_locally() {
    let mut subs: Vec<Vec<u8>> = Vec::new();
    assert!(matches!(handle_control_v5(&mut subs, &ControlV5::Auth), ControlV5Action::AckAuth));
    assert!(matches!(
        handle_control_v5(&mut subs, &ControlV5::Error),
        ControlV5Action::AckUnspecifiedError
    ));
    assert!(matches!(handle_control_v5(&mut subs, &ControlV5::Ping), ControlV5Action::Ack));
    assert!(subs.is_empty());

    let req = vec![
        TopicSub { filter: b"a".to_vec(), qos: QoS::AtLeastOnce },
        TopicSub { filter: b"b".to_vec(), qos: QoS::AtMostOnce },
    ];
    match handle_control_v5(&mut subs, &ControlV5::Subscribe(req)) {
        ControlV5Action::SubscribeAcks(acks) => {
            assert_eq!(
                acks,
                vec![AckEntry::Confirmed(QoS::AtLeastOnce), AckEntry::Confirmed(QoS::AtMostOnce)]
            );
        },
        _ => panic!("a v5 subscribe is confirmed locally"),
    }
    assert_eq!(subs, vec![b"a".to_vec(), b"b".to_vec()]);
}

#[test]
fn scenario_dev1_roundtrip() {
    // dev-1 connects: the gateway selects its backend by consistent hash
    let reg = one_backend_registry();
    let plan = plan_connect(&reg, &b"dev-1".to_vec(), &None).expect("backend available");
    let mut session = establish_session(b"dev-1".to_vec(), &plan).session;

    // subscribes to sensors/+ at QoS 1: one ack entry, QoS 1 confirmed
    let req = vec![TopicSub { filter: b"sensors/+".to_vec(), qos: QoS::AtLeastOnce }];
    let req_again = vec![TopicSub { filter: b"sensors/+".to_vec(), qos: QoS::AtLeastOnce }];
    let send = match handle_downstream_control(&mut session, &DownstreamControl::Subscribe(req_again)) {
        ControlAction::StartSubscribe(send) => send,
        _ => panic!("subscribe must start the relay"),
    };
    assert_eq!(send.packet.len(), 1);
    let outcome = SubscribeOutcome::Codes(vec![SubscribeReturnCode::Success(QoS::AtLeastOnce)]);
    let step = session.sink.handle_subscribe_outcome(&mut session.subscriptions, &req, send.leg, &outcome);
    match step {
        SubscribeStep::Done(Ok(acks)) => {
            assert_eq!(acks, vec![AckEntry::Confirmed(QoS::AtLeastOnce)]);
        },
        _ => panic!("broker confirmation must reach the client"),
    }

    // publishes at QoS 1: the client is acknowledged only after the broker's ack
    let p = handle_downstream_pub(&session, b"sensors/temp".to_vec(), b"21".to_vec(), QoS::AtLeastOnce);
    assert!(p.awaits_ack);
    assert!(complete_publish(p.awaits_ack, PublishOutcome::Acked).is_ok());

    // the backend later pushes the same topic with the duplicate flag: rejected
    let dup = UpstreamPublish {
        topic: b"sensors/temp".to_vec(),
        payload: b"21".to_vec(),
        qos: QoS::AtLeastOnce,
        dup: true,
    };
    assert!(handle_upstream_pub(dup).is_err());
}
