use vstd::prelude::*;

use crate::bytes::clone_bytes;
use crate::dual::DualSink;
use crate::error::ServerError;

verus! {

/// MQTT delivery guarantee level.
#[derive(Clone, Copy, Debug, PartialEq, Eq, Structural)]
pub enum QoS {
    AtMostOnce,
    AtLeastOnce,
    ExactlyOnce,
}

/// One requested topic filter with its QoS, as carried by a SUBSCRIBE packet.
#[derive(Debug)]
pub struct TopicSub {
    pub filter: Vec<u8>,
    pub qos: QoS,
}

/// Per-topic result reported by an upstream broker for a SUBSCRIBE.
#[derive(Clone, Copy, Debug, PartialEq, Eq, Structural)]
pub enum SubscribeReturnCode {
    Success(QoS),
    Failure,
}

/// Per-topic acknowledgement entry relayed back to the client.
#[derive(Clone, Copy, Debug, PartialEq, Eq, Structural)]
pub enum AckEntry {
    Confirmed(QoS),
    Failed,
}

/// One forwarding endpoint of a session; `closed` records that its underlying
/// connection has been shut down.
#[derive(Clone, Copy, Debug, PartialEq, Eq, Structural)]
pub struct Leg {
    pub closed: bool,
}

/// Which leg of a sink an outbound packet is addressed to.
#[derive(Clone, Copy, Debug, PartialEq, Eq, Structural)]
pub enum SinkLeg {
    Only,
    Primary,
    Secondary,
}

/// Forwarding target shape: a single upstream sink, or a dual fan-out pair.
#[derive(Debug)]
pub enum AnySink {
    MqttSink(Leg),
    DualSink(DualSink),
}

/// A downstream publish bound for a sink leg.
#[derive(Debug)]
pub struct PublishForward {
    pub leg: SinkLeg,
    pub topic: Vec<u8>,
    pub payload: Vec<u8>,
}

/// The outbound SUBSCRIBE packet for one leg.
#[derive(Debug)]
pub struct SubscribeSend {
    pub leg: SinkLeg,
    pub packet: Vec<TopicSub>,
}

/// What an attempt to send a SUBSCRIBE over one leg came back with.
#[derive(Debug)]
pub enum SubscribeOutcome {
    Failed,
    Codes(Vec<SubscribeReturnCode>),
}

/// The next step of a SUBSCRIBE relay after one leg's outcome.
#[derive(Debug)]
pub enum SubscribeStep {
    SendSecondary(Vec<TopicSub>),
    Done(Result<Vec<AckEntry>, ServerError>),
}

/// The outbound UNSUBSCRIBE packet for one leg.
#[derive(Debug)]
pub struct UnsubscribeSend {
    pub leg: SinkLeg,
    pub packet: Vec<Vec<u8>>,
}

/// The next step of an UNSUBSCRIBE relay after one leg's outcome.
#[derive(Debug)]
pub enum UnsubscribeStep {
    SendSecondary(Vec<Vec<u8>>),
    Done(Result<(), ServerError>),
}

/// The per-client record created at handshake-acknowledgement time: it binds
/// the downstream connection (`source`) to the upstream sink or dual pair
/// (`sink`) and carries the client's subscription bookkeeping.
#[derive(Debug)]
pub struct SessionState {
    pub client_id: Vec<u8>,
    pub subscriptions: Vec<Vec<u8>>,
    pub source: Leg,
    pub sink: AnySink,
}

/// Well-formedness of a session: a dual sink carries the session's own
/// client id.
pub open spec fn session_wf(s: SessionState) -> bool {
    match s.sink {
        AnySink::DualSink(d) => d.client_id@ == s.client_id@,
        AnySink::MqttSink(_) => true,
    }
}

/// Every connection wrapped by the sink has been shut down.
pub open spec fn sink_all_closed(s: AnySink) -> bool {
    match s {
        AnySink::MqttSink(leg) => leg.closed,
        AnySink::DualSink(d) => d.primary_sink.closed && d.secondary_sink.closed,
    }
}

/// The two sinks have the same shape and carry the same identity.
pub open spec fn same_sink_identity(a: AnySink, b: AnySink) -> bool {
    match (a, b) {
        (AnySink::MqttSink(_), AnySink::MqttSink(_)) => true,
        (AnySink::DualSink(x), AnySink::DualSink(y)) => x.client_id == y.client_id,
        _ => false,
    }
}

/// The two packets request the same topic filters with the same QoS, in order.
pub open spec fn same_request(a: Seq<TopicSub>, b: Seq<TopicSub>) -> bool {
    &&& a.len() == b.len()
    &&& forall|i: int| 0 <= i < a.len() ==> a[i].filter@ == b[i].filter@ && a[i].qos == b[i].qos
}

/// The two packets carry the same topic filters, in order.
pub open spec fn same_topics(a: Seq<Vec<u8>>, b: Seq<Vec<u8>>) -> bool {
    &&& a.len() == b.len()
    &&& forall|i: int| 0 <= i < a.len() ==> a[i]@ == b[i]@
}

/// `post` is `pre` with every filter of `req` appended, in request order.
pub open spec fn subs_after_append(pre: Seq<Vec<u8>>, post: Seq<Vec<u8>>, req: Seq<TopicSub>) -> bool {
    &&& post.len() == pre.len() + req.len()
    &&& forall|i: int| 0 <= i < pre.len() ==> post[i] == pre[i]
    &&& forall|j: int| 0 <= j < req.len() ==> post[pre.len() + j]@ == req[j].filter@
}

/// `post` is `pre` with every topic of `topics` appended, in order.
pub open spec fn topics_after_append(pre: Seq<Vec<u8>>, post: Seq<Vec<u8>>, topics: Seq<Vec<u8>>) -> bool {
    &&& post.len() == pre.len() + topics.len()
    &&& forall|i: int| 0 <= i < pre.len() ==> post[i] == pre[i]
    &&& forall|j: int| 0 <= j < topics.len() ==> post[pre.len() + j]@ == topics[j]@
}

/// The acknowledgement entry that relays one upstream return code.
pub open spec fn code_ack(c: SubscribeReturnCode) -> AckEntry {
    match c {
        SubscribeReturnCode::Success(q) => AckEntry::Confirmed(q),
        SubscribeReturnCode::Failure => AckEntry::Failed,
    }
}

/// `acks` relays exactly the upstream return codes `codes`, entry by entry.
pub open spec fn acks_for(codes: Seq<SubscribeReturnCode>, acks: Seq<AckEntry>) -> bool {
    &&& acks.len() == codes.len()
    &&& forall|i: int| 0 <= i < codes.len() ==> acks[i] == code_ack(codes[i])
}

/// The SUBSCRIBE relay ended with an acknowledgement list that relays `codes`.
pub open spec fn subscribe_finish(codes: Seq<SubscribeReturnCode>, step: SubscribeStep) -> bool {
    step matches SubscribeStep::Done(Ok(acks)) && acks_for(codes, acks@)
}

/// Copies a SUBSCRIBE packet, filter by filter.
fn copy_request(req: &Vec<TopicSub>) -> (r: Vec<TopicSub>)
    ensures
        same_request(r@, req@),
{
    let mut r: Vec<TopicSub> = Vec::new();
    let mut i: usize = 0;
    while i < req.len()
        invariant
            i <= req@.len(),
            r@.len() == i,
            forall|k: int| 0 <= k < i ==> r@[k].filter@ == req@[k].filter@ && r@[k].qos == req@[k].qos,
        decreases req@.len() - i,
    {
        let entry = &req[i];
        r.push(TopicSub { filter: clone_bytes(&entry.filter), qos: entry.qos });
        i += 1;
    }
    r
}

/// Copies an UNSUBSCRIBE packet, topic by topic.
fn copy_topics(topics: &Vec<Vec<u8>>) -> (r: Vec<Vec<u8>>)
    ensures
        same_topics(r@, topics@),
{
    let mut r: Vec<Vec<u8>> = Vec::new();
    let mut i: usize = 0;
    while i < topics.len()
        invariant
            i <= topics@.len(),
            r@.len() == i,
            forall|k: int| 0 <= k < i ==> r@[k]@ == topics@[k]@,
        decreases topics@.len() - i,
    {
        r.push(clone_bytes(&topics[i]));
        i += 1;
    }
    r
}

/// Appends every requested filter to the subscription list (optimistic
/// bookkeeping: recorded before any forwarding result is known, and not
/// rolled back on failure).
pub(crate) fn push_filters(subs: &mut Vec<Vec<u8>>, req: &Vec<TopicSub>)
    ensures
        subs_after_append(old(subs)@, final(subs)@, req@),
{
    let ghost pre: Seq<Vec<u8>> = subs@;
    let mut i: usize = 0;
    while i < req.len()
        invariant
            i <= req@.len(),
            subs@.len() == pre.len() + i,
            forall|k: int| 0 <= k < pre.len() ==> subs@[k] == pre[k],
            forall|j: int| 0 <= j < i ==> subs@[pre.len() + j]@ == req@[j].filter@,
        decreases req@.len() - i,
    {
        let entry = &req[i];
        subs.push(clone_bytes(&entry.filter));
        i += 1;
    }
}

/// Appends every named topic to the subscription list (the unsubscribe path
/// keeps the same optimistic append-only bookkeeping as subscribe).
fn push_topics(subs: &mut Vec<Vec<u8>>, topics: &Vec<Vec<u8>>)
    ensures
        topics_after_append(old(subs)@, final(subs)@, topics@),
{
    let ghost pre: Seq<Vec<u8>> = subs@;
    let mut i: usize = 0;
    while i < topics.len()
        invariant
            i <= topics@.len(),
            subs@.len() == pre.len() + i,
            forall|k: int| 0 <= k < pre.len() ==> subs@[k] == pre[k],
            forall|j: int| 0 <= j < i ==> subs@[pre.len() + j]@ == topics@[j]@,
        decreases topics@.len() - i,
    {
        subs.push(clone_bytes(&topics[i]));
        i += 1;
    }
}

/// Builds the per-topic acknowledgement list that relays `codes`.
fn make_acks(codes: &Vec<SubscribeReturnCode>) -> (acks: Vec<AckEntry>)
    ensures
        acks_for(codes@, acks@),
{
    let mut acks: Vec<AckEntry> = Vec::new();
    let mut i: usize = 0;
    while i < codes.len()
        invariant
            i <= codes@.len(),
            acks@.len() == i,
            forall|k: int| 0 <= k < i ==> acks@[k] == code_ack(codes@[k]),
        decreases codes@.len() - i,
    {
        let a = match codes[i] {
            SubscribeReturnCode::Success(q) => AckEntry::Confirmed(q),
            SubscribeReturnCode::Failure => AckEntry::Failed,
        };
        acks.push(a);
        i += 1;
    }
    acks
}

impl AnySink {
    /// Closes every wrapped connection: the one sink, or both legs of a dual
    /// pair.  Idempotent: closing an already-closed sink changes nothing.
    pub fn close(&mut self)
        ensures
            sink_all_closed(*final(self)),
            same_sink_identity(*old(self), *final(self)),
            sink_all_closed(*old(self)) ==> *final(self) == *old(self),
    {
        match self {
            AnySink::MqttSink(leg) => {
                leg.closed = true;
            },
            AnySink::DualSink(d) => {
                d.primary_sink.closed = true;
                d.secondary_sink.closed = true;
            },
        }
    }

    /// Routes a downstream publish.  A single sink forwards directly; a dual
    /// sink forwards to the secondary leg only — a documented quirk of the
    /// dual fan-out, preserved rather than symmetrized.
    pub fn publish(&self, topic: Vec<u8>, payload: Vec<u8>) -> (p: PublishForward)
        ensures
            p.topic == topic,
            p.payload == payload,
            self is MqttSink ==> p.leg == SinkLeg::Only,
            self is DualSink ==> p.leg == SinkLeg::Secondary,
    {
        let leg = match self {
            AnySink::MqttSink(_) => SinkLeg::Only,
            AnySink::DualSink(_) => SinkLeg::Secondary,
        };
        PublishForward { leg, topic, payload }
    }

    /// First step of relaying a SUBSCRIBE: records every requested filter in
    /// the subscription list (optimistic bookkeeping) and yields the packet
    /// for the first leg — the only sink, or the primary of a dual pair.
    pub fn handle_subscribe(&self, subscriptions: &mut Vec<Vec<u8>>, request: &Vec<TopicSub>) -> (send: SubscribeSend)
        ensures
            subs_after_append(old(subscriptions)@, final(subscriptions)@, request@),
            same_request(send.packet@, request@),
            self is MqttSink ==> send.leg == SinkLeg::Only,
            self is DualSink ==> send.leg == SinkLeg::Primary,
    {
        push_filters(subscriptions, request);
        let leg = match self {
            AnySink::MqttSink(_) => SinkLeg::Only,
            AnySink::DualSink(_) => SinkLeg::Primary,
        };
        SubscribeSend { leg, packet: copy_request(request) }
    }

    /// Continues a SUBSCRIBE relay once the outcome of one leg's send is
    /// known.  A failed send fails the whole operation — after a primary
    /// failure the secondary is never attempted (sequential, fail-fast).  A
    /// successful primary send yields the secondary packet and appends the
    /// filters again (per-leg bookkeeping); the final acknowledgement list
    /// relays the deciding leg's return codes, one entry per requested topic.
    pub fn handle_subscribe_outcome(
        &self,
        subscriptions: &mut Vec<Vec<u8>>,
        request: &Vec<TopicSub>,
        leg: SinkLeg,
        outcome: &SubscribeOutcome,
    ) -> (step: SubscribeStep)
        requires
            self is MqttSink ==> leg == SinkLeg::Only,
            self is DualSink ==> leg == SinkLeg::Primary || leg == SinkLeg::Secondary,
            outcome matches SubscribeOutcome::Codes(c) ==> c@.len() == request@.len(),
        ensures
            outcome is Failed ==> step == SubscribeStep::Done(Err::<Vec<AckEntry>, ServerError>(ServerError)),
            outcome is Failed ==> final(subscriptions)@ == old(subscriptions)@,
            outcome matches SubscribeOutcome::Codes(c) ==> {
                &&& (self is MqttSink || leg == SinkLeg::Secondary) ==> (subscribe_finish(c@, step)
                    && final(subscriptions)@ == old(subscriptions)@)
                &&& (self is DualSink && leg == SinkLeg::Primary) ==> ((step matches
                    SubscribeStep::SendSecondary(p) && same_request(p@, request@))
                    && subs_after_append(old(subscriptions)@, final(subscriptions)@, request@))
            },
    {
        match outcome {
            SubscribeOutcome::Failed => SubscribeStep::Done(Err(ServerError)),
            SubscribeOutcome::Codes(codes) => {
                match self {
                    AnySink::MqttSink(_) => SubscribeStep::Done(Ok(make_acks(codes))),
                    AnySink::DualSink(_) => {
                        if let SinkLeg::Primary = leg {
                            push_filters(subscriptions, request);
                            SubscribeStep::SendSecondary(copy_request(request))
                        } else {
                            SubscribeStep::Done(Ok(make_acks(codes)))
                        }
                    },
                }
            },
        }
    }

    /// First step of relaying an UNSUBSCRIBE: appends the named topics to the
    /// subscription list (the bookkeeping is append-only even here, a
    /// preserved quirk) and yields the packet for the first leg.
    pub fn handle_unsubscribe(&self, subscriptions: &mut Vec<Vec<u8>>, topics: &Vec<Vec<u8>>) -> (send: UnsubscribeSend)
        ensures
            topics_after_append(old(subscriptions)@, final(subscriptions)@, topics@),
            same_topics(send.packet@, topics@),
            self is MqttSink ==> send.leg == SinkLeg::Only,
            self is DualSink ==> send.leg == SinkLeg::Primary,
    {
        push_topics(subscriptions, topics);
        let leg = match self {
            AnySink::MqttSink(_) => SinkLeg::Only,
            AnySink::DualSink(_) => SinkLeg::Primary,
        };
        UnsubscribeSend { leg, packet: copy_topics(topics) }
    }

    /// Continues an UNSUBSCRIBE relay once one leg's send outcome is known.
    /// Failure from either leg fails the whole operation with no partial
    /// acknowledgement, and a primary failure skips the secondary entirely.
    pub fn handle_unsubscribe_outcome(
        &self,
        subscriptions: &mut Vec<Vec<u8>>,
        topics: &Vec<Vec<u8>>,
        leg: SinkLeg,
        sent: bool,
    ) -> (step: UnsubscribeStep)
        requires
            self is MqttSink ==> leg == SinkLeg::Only,
            self is DualSink ==> leg == SinkLeg::Primary || leg == SinkLeg::Secondary,
        ensures
            !sent ==> step == UnsubscribeStep::Done(Err::<(), ServerError>(ServerError)),
            !sent ==> final(subscriptions)@ == old(subscriptions)@,
            sent ==> {
                &&& (self is MqttSink || leg == SinkLeg::Secondary) ==> (step == UnsubscribeStep::Done(
                    Ok::<(), ServerError>(())) && final(subscriptions)@ == old(subscriptions)@)
                &&& (self is DualSink && leg == SinkLeg::Primary) ==> ((step matches
                    UnsubscribeStep::SendSecondary(p) && same_topics(p@, topics@))
                    && topics_after_append(old(subscriptions)@, final(subscriptions)@, topics@))
            },
    {
        if !sent {
            UnsubscribeStep::Done(Err(ServerError))
        } else {
            match self {
                AnySink::MqttSink(_) => UnsubscribeStep::Done(Ok(())),
                AnySink::DualSink(_) => {
                    if let SinkLeg::Primary = leg {
                        push_topics(subscriptions, topics);
                        UnsubscribeStep::SendSecondary(copy_topics(topics))
                    } else {
                        UnsubscribeStep::Done(Ok(()))
                    }
                },
            }
        }
    }
}

} // verus!
