use vstd::prelude::*;

use crate::bytes::clone_bytes;
use crate::dual::DualSink;
use crate::error::ServerError;
use crate::registry::Registry;
use crate::registry::spec_select;
use crate::session::AckEntry;
use crate::session::AnySink;
use crate::session::Leg;
use crate::session::PublishForward;
use crate::session::QoS;
use crate::session::SessionState;
use crate::session::SinkLeg;
use crate::session::SubscribeSend;
use crate::session::TopicSub;
use crate::session::UnsubscribeSend;
use crate::session::push_filters;
use crate::session::same_request;
use crate::session::same_sink_identity;
use crate::session::same_topics;
use crate::session::session_wf;
use crate::session::sink_all_closed;
use crate::session::subs_after_append;
use crate::session::topics_after_append;

verus! {

/// The fixed pair of upstream addresses used when the gateway runs in dual
/// fan-out mode.
#[derive(Debug)]
pub struct DualConfig {
    pub primary_addr: Vec<u8>,
    pub secondary_addr: Vec<u8>,
}

/// What the handshake decided to connect to.
#[derive(Debug)]
pub enum ConnectPlan {
    Single { addr: Vec<u8> },
    Dual { primary_addr: Vec<u8>, secondary_addr: Vec<u8> },
}

/// The handshake acknowledgement: the session record to install, and the
/// session-present flag of the acknowledgement packet, fixed to resumed
/// ("not clean") semantics.
#[derive(Debug)]
pub struct HandshakeAck {
    pub session: SessionState,
    pub session_present: bool,
}

/// Handshake routing: in dual mode the configured pair of upstreams is used
/// as it stands; otherwise one backend is selected by consistent hashing of
/// the client id, with a single ring candidate examined, and an empty or
/// unreachable healthy set rejects the handshake with the gateway error.
pub fn plan_connect(reg: &Registry, client_id: &Vec<u8>, dual: &Option<DualConfig>) -> (r: Result<
    ConnectPlan,
    ServerError,
>)
    ensures
        dual matches Some(cfg) ==> (r matches Ok(ConnectPlan::Dual { primary_addr, secondary_addr })
            && primary_addr@ == cfg.primary_addr@ && secondary_addr@ == cfg.secondary_addr@),
        dual is None ==> (match spec_select(reg@, client_id@, 1) {
            Some(bv) => r matches Ok(ConnectPlan::Single { addr }) && addr@ == bv.addr,
            None => r == Err::<ConnectPlan, ServerError>(ServerError),
        }),
{
    match dual {
        Some(cfg) => Ok(
            ConnectPlan::Dual {
                primary_addr: clone_bytes(&cfg.primary_addr),
                secondary_addr: clone_bytes(&cfg.secondary_addr),
            },
        ),
        None => match reg.select(client_id, 1) {
            Some(b) => Ok(ConnectPlan::Single { addr: b.addr }),
            None => Err(ServerError),
        },
    }
}

/// Builds the session record once the planned upstream connection(s) are
/// established: empty subscription list, open legs on both sides, and the
/// acknowledgement carrying session-present fixed to `false`.
pub fn establish_session(client_id: Vec<u8>, plan: &ConnectPlan) -> (h: HandshakeAck)
    ensures
        h.session.client_id == client_id,
        h.session.subscriptions@.len() == 0,
        !h.session.source.closed,
        plan is Single ==> (h.session.sink matches AnySink::MqttSink(l) && !l.closed),
        plan is Dual ==> (h.session.sink matches AnySink::DualSink(d) && !d.primary_sink.closed
            && !d.secondary_sink.closed),
        session_wf(h.session),
        h.session_present == false,
{
    let sink = match plan {
        ConnectPlan::Single { .. } => AnySink::MqttSink(Leg { closed: false }),
        ConnectPlan::Dual { .. } => AnySink::DualSink(
            DualSink::new(clone_bytes(&client_id), Leg { closed: false }, Leg { closed: false }),
        ),
    };
    let session = SessionState {
        client_id,
        subscriptions: Vec::new(),
        source: Leg { closed: false },
        sink,
    };
    HandshakeAck { session, session_present: false }
}

/// A publish bound for the session's upstream sink, with its completion
/// discipline.
#[derive(Debug)]
pub struct PublishPlan {
    pub forward: PublishForward,
    pub awaits_ack: bool,
}

/// A publish bound for the downstream source leg, with its completion
/// discipline.
#[derive(Debug)]
pub struct SourceForward {
    pub topic: Vec<u8>,
    pub payload: Vec<u8>,
    pub awaits_ack: bool,
}

/// How a planned publish came out on the wire.
#[derive(Clone, Copy, Debug, PartialEq, Eq, Structural)]
pub enum PublishOutcome {
    Sent,
    SendFailed,
    Acked,
    ClosedBeforeAck,
}

/// Downstream publish decision: the payload goes to the session's sink (in
/// dual mode the secondary leg only, the preserved fan-out quirk).  A QoS-0
/// publish is fire-and-forget and never waits for an acknowledgement; any
/// higher QoS awaits the upstream acknowledgement before the client is
/// acknowledged.
pub fn handle_downstream_pub(session: &SessionState, topic: Vec<u8>, payload: Vec<u8>, qos: QoS) -> (p:
    PublishPlan)
    ensures
        p.awaits_ack == (qos != QoS::AtMostOnce),
        p.forward.topic == topic,
        p.forward.payload == payload,
        session.sink is MqttSink ==> p.forward.leg == SinkLeg::Only,
        session.sink is DualSink ==> p.forward.leg == SinkLeg::Secondary,
{
    let forward = session.sink.publish(topic, payload);
    let awaits_ack = match qos {
        QoS::AtMostOnce => false,
        _ => true,
    };
    PublishPlan { forward, awaits_ack }
}

/// Settles a planned publish against what the wire reported.  A
/// fire-and-forget publish succeeds on the send alone; an awaited publish is
/// acknowledged exactly when the peer's acknowledgement arrived — a leg that
/// closed before acknowledging fails the publish rather than leaving it
/// hanging, and nothing is retried.
pub fn complete_publish(awaits_ack: bool, outcome: PublishOutcome) -> (r: Result<(), ServerError>)
    requires
        awaits_ack ==> outcome != PublishOutcome::Sent,
        !awaits_ack ==> outcome == PublishOutcome::Sent || outcome == PublishOutcome::SendFailed,
    ensures
        (r is Ok) == (outcome == PublishOutcome::Sent || outcome == PublishOutcome::Acked),
        awaits_ack ==> ((r is Ok) == (outcome == PublishOutcome::Acked)),
        outcome == PublishOutcome::ClosedBeforeAck ==> r == Err::<(), ServerError>(ServerError),
{
    match outcome {
        PublishOutcome::Sent => Ok(()),
        PublishOutcome::Acked => Ok(()),
        PublishOutcome::SendFailed => Err(ServerError),
        PublishOutcome::ClosedBeforeAck => Err(ServerError),
    }
}

/// A publish pushed by an upstream broker.
#[derive(Debug)]
pub struct UpstreamPublish {
    pub topic: Vec<u8>,
    pub payload: Vec<u8>,
    pub qos: QoS,
    pub dup: bool,
}

/// Upstream-originated publish: a packet carrying the duplicate-delivery
/// flag is rejected with the gateway error and never forwarded to the
/// client.  Any other packet is forwarded to the downstream source with the
/// same QoS split as the downstream path, and the upstream is acknowledged
/// only after the downstream leg completes.
pub fn handle_upstream_pub(pkt: UpstreamPublish) -> (r: Result<SourceForward, ServerError>)
    ensures
        pkt.dup ==> r is Err,
        !pkt.dup ==> (r matches Ok(f) && f.topic@ == pkt.topic@ && f.payload@ == pkt.payload@
            && f.awaits_ack == (pkt.qos != QoS::AtMostOnce)),
{
    if pkt.dup {
        return Err(ServerError);
    }
    let awaits_ack = match pkt.qos {
        QoS::AtMostOnce => false,
        _ => true,
    };
    Ok(SourceForward { topic: pkt.topic, payload: pkt.payload, awaits_ack })
}

/// A control frame arriving on the downstream leg.
#[derive(Debug)]
pub enum DownstreamControl {
    Subscribe(Vec<TopicSub>),
    Unsubscribe(Vec<Vec<u8>>),
    Error,
    ProtocolError,
    Ping,
    Disconnect,
    Closed,
    PeerGone,
    WrBackpressure,
}

/// What the downstream control dispatcher decided.
#[derive(Debug)]
pub enum ControlAction {
    Ack,
    StartSubscribe(SubscribeSend),
    StartUnsubscribe(UnsubscribeSend),
}

/// Downstream control dispatch.  Ping, errors, closed, peer-gone and
/// write-backpressure are acknowledged transparently.  SUBSCRIBE and
/// UNSUBSCRIBE start the sink relay, with the optimistic bookkeeping
/// recorded up front.  A DISCONNECT closes the paired upstream sink — both
/// legs in dual mode — before it is acknowledged, so teardown always
/// propagates to the other side of the session.
pub fn handle_downstream_control(session: &mut SessionState, control: &DownstreamControl) -> (r:
    ControlAction)
    ensures
        final(session).client_id == old(session).client_id,
        final(session).source == old(session).source,
        same_sink_identity(old(session).sink, final(session).sink),
        control is Disconnect ==> sink_all_closed(final(session).sink),
        control is Disconnect ==> (r is Ack && final(session).subscriptions == old(
            session,
        ).subscriptions),
        (control is Error || control is ProtocolError || control is Ping || control is Closed
            || control is PeerGone || control is WrBackpressure) ==> (*final(session) == *old(
            session,
        ) && r is Ack),
        control matches DownstreamControl::Subscribe(req) ==> (r matches
            ControlAction::StartSubscribe(s) && same_request(s.packet@, req@)
            && subs_after_append(old(session).subscriptions@, final(session).subscriptions@, req@)
            && final(session).sink == old(session).sink && (old(session).sink is MqttSink
            ==> s.leg == SinkLeg::Only) && (old(session).sink is DualSink ==> s.leg
            == SinkLeg::Primary)),
        control matches DownstreamControl::Unsubscribe(ts) ==> (r matches
            ControlAction::StartUnsubscribe(u) && same_topics(u.packet@, ts@)
            && topics_after_append(old(session).subscriptions@, final(session).subscriptions@, ts@)
            && final(session).sink == old(session).sink),
{
    match control {
        DownstreamControl::Subscribe(req) => {
            let sink = &session.sink;
            let send = sink.handle_subscribe(&mut session.subscriptions, req);
            ControlAction::StartSubscribe(send)
        },
        DownstreamControl::Unsubscribe(ts) => {
            let sink = &session.sink;
            let send = sink.handle_unsubscribe(&mut session.subscriptions, ts);
            ControlAction::StartUnsubscribe(send)
        },
        DownstreamControl::Disconnect => {
            session.sink.close();
            ControlAction::Ack
        },
        _ => ControlAction::Ack,
    }
}

/// A termination-class control event arriving from an upstream broker.
/// (Upstream publishes take the dedicated publish path.)
#[derive(Clone, Copy, Debug, PartialEq, Eq, Structural)]
pub enum UpstreamControl {
    Closed,
    Error,
    ProtocolError,
    PeerGone,
}

/// Upstream control dispatch: every termination event on an upstream leg
/// closes the downstream source, so failure on one leg always tears down
/// the other; the event itself is acknowledged transparently.
pub fn handle_upstream_control(session: &mut SessionState, control: &UpstreamControl)
    ensures
        final(session).source.closed,
        final(session).client_id == old(session).client_id,
        final(session).subscriptions == old(session).subscriptions,
        final(session).sink == old(session).sink,
{
    let _ = control;
    session.source.closed = true;
}

/// A control frame on the local-acknowledgement endpoint.
#[derive(Debug)]
pub enum ControlV5 {
    Auth,
    Error,
    ProtocolError,
    Ping,
    Disconnect,
    Subscribe(Vec<TopicSub>),
    Unsubscribe(Vec<Vec<u8>>),
    Closed,
    PeerGone,
    WrBackpressure,
}

/// The local endpoint's answer to a control frame.
#[derive(Debug)]
pub enum ControlV5Action {
    Ack,
    AckAuth,
    AckUnspecifiedError,
    SubscribeAcks(Vec<AckEntry>),
}

/// The MQTT-5 endpoint answers locally rather than relaying: AUTH gets a
/// default acknowledgement, an error is answered with the unspecified-error
/// disconnect code, a SUBSCRIBE is confirmed entry by entry at its requested
/// QoS (with the same optimistic bookkeeping), and everything else is
/// acknowledged transparently.
pub fn handle_control_v5(subs: &mut Vec<Vec<u8>>, control: &ControlV5) -> (r: ControlV5Action)
    ensures
        control is Auth ==> (r is AckAuth && final(subs)@ == old(subs)@),
        control is Error ==> (r is AckUnspecifiedError && final(subs)@ == old(subs)@),
        control matches ControlV5::Subscribe(req) ==> (r matches ControlV5Action::SubscribeAcks(
            acks,
        ) && acks@.len() == req@.len() && (forall|i: int|
            0 <= i < req@.len() ==> acks@[i] == AckEntry::Confirmed(req@[i].qos))
            && subs_after_append(old(subs)@, final(subs)@, req@)),
        (control is ProtocolError || control is Ping || control is Disconnect || control matches
            ControlV5::Unsubscribe(_) || control is Closed || control is PeerGone || control is
            WrBackpressure) ==> (r is Ack && final(subs)@ == old(subs)@),
{
    match control {
        ControlV5::Auth => ControlV5Action::AckAuth,
        ControlV5::Error => ControlV5Action::AckUnspecifiedError,
        ControlV5::Subscribe(req) => {
            push_filters(subs, req);
            let mut acks: Vec<AckEntry> = Vec::new();
            let mut i: usize = 0;
            while i < req.len()
                invariant
                    i <= req@.len(),
                    acks@.len() == i,
                    forall|k: int|
                        0 <= k < i ==> acks@[k] == AckEntry::Confirmed(req@[k].qos),
                decreases req@.len() - i,
            {
                acks.push(AckEntry::Confirmed(req[i].qos));
                i += 1;
            }
            ControlV5Action::SubscribeAcks(acks)
        },
        _ => ControlV5Action::Ack,
    }
}

} // verus!
