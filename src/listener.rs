//! One listener: the consuming session of one binding, as a state machine. The
//! caller performs each action against the broker or the handler and reports
//! what came of it as the next event.

use vstd::prelude::*;
use crate::broker::{amqp_uri_accepts, client_fields, connects_as, client_properties, connection_uri, fields_of, AddressError, BrokerUri};
use crate::config::{Binding, ConnectionSettings};
use crate::decimal::{decimal, lemma_decimal_injective, to_decimal};
use crate::gateway::DispatchOutcome;
use crate::metadata::{metadata_of, metadata_view, ContentFormat, Envelope, Properties};
use lapin::types::FieldTable;

verus! {

/// One message as the broker delivered it.
#[derive(Clone, Debug)]
pub struct Delivery {
    pub tag: u64,
    pub redelivered: bool,
    pub payload: Vec<u8>,
    pub properties: Properties,
}

/// Why a listener stopped with an error.
#[derive(Clone, Debug)]
pub enum ListenerError {
    /// The broker address could not be parsed.
    Address(String),
    /// The network session could not be opened.
    Connection(String),
    /// The channel or the consumer could not be set up.
    Subscription(String),
    /// An acknowledgement or a rejection could not be sent.
    AckTransport(String),
}

impl ListenerError {
    /// A copy of the error.
    pub fn duplicate(&self) -> (r: ListenerError)
        ensures
            r == *self,
    {
        match self {
            ListenerError::Address(m) => ListenerError::Address(m.clone()),
            ListenerError::Connection(m) => ListenerError::Connection(m.clone()),
            ListenerError::Subscription(m) => ListenerError::Subscription(m.clone()),
            ListenerError::AckTransport(m) => ListenerError::AckTransport(m.clone()),
        }
    }
}

/// Where a listener stands.
#[derive(Clone, Debug)]
pub enum Phase {
    Connecting,
    Subscribing,
    Consuming,
    /// A delivery is with the handler.
    Invoking { tag: u64, redelivered: bool },
    /// The delivery's acknowledgement or rejection is on its way.
    Settling,
    /// The broker ended the consumer stream.
    Draining,
    Failed(ListenerError),
}

/// What the caller reports after carrying out an action.
#[derive(Clone, Debug)]
pub enum ListenerEvent {
    Connected,
    ConnectFailed(String),
    Subscribed,
    SubscribeFailed(String),
    Delivered(Delivery),
    Invoked(DispatchOutcome),
    Settled,
    SettleFailed(String),
    StreamEnded,
}

/// What the caller is to do next.
pub enum ListenerAction {
    /// Open a session to the broker at `uri`, identifying with `client_properties`.
    Connect { uri: BrokerUri, client_properties: FieldTable },
    /// Open a channel and consume `topic` under `consumer_tag`.
    Subscribe { topic: String, consumer_tag: String, prefetch: Option<u16> },
    /// Wait for the next delivery.
    Receive,
    /// Hand the envelopes to the handler `component`.
    Invoke { component: String, envelopes: Vec<Envelope> },
    /// Acknowledge the delivery `tag`.
    Ack { tag: u64 },
    /// Reject the delivery `tag`, asking the broker to requeue it or not.
    Nack { tag: u64, requeue: bool },
    /// The listener is done, with this result.
    Exit(Result<(), ListenerError>),
}

/// The kind of an action, without its payload.
#[derive(Debug)]
pub enum Decision {
    Connect,
    Subscribe,
    Receive,
    Invoke,
    Ack(u64),
    Nack(u64, bool),
    Exit(Result<(), ListenerError>),
}

pub open spec fn decision_of(a: ListenerAction) -> Decision {
    match a {
        ListenerAction::Connect { .. } => Decision::Connect,
        ListenerAction::Subscribe { .. } => Decision::Subscribe,
        ListenerAction::Receive => Decision::Receive,
        ListenerAction::Invoke { .. } => Decision::Invoke,
        ListenerAction::Ack { tag } => Decision::Ack(tag),
        ListenerAction::Nack { tag, requeue } => Decision::Nack(tag, requeue),
        ListenerAction::Exit(r) => Decision::Exit(r),
    }
}

/// How a delivery is settled after its invocation.
#[derive(Clone, Copy, Debug, PartialEq, Eq, Structural)]
pub enum Settlement {
    Ack,
    Nack { requeue: bool },
}

/// A success acknowledges; a failure rejects, with a requeue only for a delivery
/// that was not redelivered before: a first failure is retried once, a second
/// is dropped.
pub open spec fn settlement_of(o: DispatchOutcome, redelivered: bool) -> Settlement {
    match o {
        DispatchOutcome::Success => Settlement::Ack,
        DispatchOutcome::Failure(_) => Settlement::Nack { requeue: !redelivered },
    }
}

/// Decides how to settle a delivery, given its invocation's outcome.
pub fn settlement(o: &DispatchOutcome, redelivered: bool) -> (r: Settlement)
    ensures
        r == settlement_of(*o, redelivered),
{
    match o {
        DispatchOutcome::Success => Settlement::Ack,
        DispatchOutcome::Failure(_) => Settlement::Nack { requeue: !redelivered },
    }
}

/// The phase that follows an event, and the kind of action it calls for.
pub open spec fn transition(p: Phase, e: ListenerEvent) -> (Phase, Decision) {
    match (p, e) {
        (Phase::Connecting, ListenerEvent::Connected) => (Phase::Subscribing, Decision::Subscribe),
        (Phase::Connecting, ListenerEvent::ConnectFailed(m)) =>
            (Phase::Failed(ListenerError::Connection(m)), Decision::Exit(Err(ListenerError::Connection(m)))),
        (Phase::Subscribing, ListenerEvent::Subscribed) => (Phase::Consuming, Decision::Receive),
        (Phase::Subscribing, ListenerEvent::SubscribeFailed(m)) =>
            (Phase::Failed(ListenerError::Subscription(m)), Decision::Exit(Err(ListenerError::Subscription(m)))),
        (Phase::Consuming, ListenerEvent::Delivered(d)) =>
            (Phase::Invoking { tag: d.tag, redelivered: d.redelivered }, Decision::Invoke),
        (Phase::Consuming, ListenerEvent::StreamEnded) => (Phase::Draining, Decision::Exit(Ok(()))),
        (Phase::Invoking { tag, redelivered }, ListenerEvent::Invoked(o)) => (
            Phase::Settling,
            match settlement_of(o, redelivered) {
                Settlement::Ack => Decision::Ack(tag),
                Settlement::Nack { requeue } => Decision::Nack(tag, requeue),
            },
        ),
        (Phase::Settling, ListenerEvent::Settled) => (Phase::Consuming, Decision::Receive),
        (Phase::Settling, ListenerEvent::SettleFailed(m)) =>
            (Phase::Failed(ListenerError::AckTransport(m)), Decision::Exit(Err(ListenerError::AckTransport(m)))),
        (p, _) => (p, Decision::Receive),
    }
}

/// Whether an event can happen in a phase.
pub open spec fn expects(p: Phase, e: ListenerEvent) -> bool {
    match (p, e) {
        (Phase::Connecting, ListenerEvent::Connected) => true,
        (Phase::Connecting, ListenerEvent::ConnectFailed(_)) => true,
        (Phase::Subscribing, ListenerEvent::Subscribed) => true,
        (Phase::Subscribing, ListenerEvent::SubscribeFailed(_)) => true,
        (Phase::Consuming, ListenerEvent::Delivered(_)) => true,
        (Phase::Consuming, ListenerEvent::StreamEnded) => true,
        (Phase::Invoking { .. }, ListenerEvent::Invoked(_)) => true,
        (Phase::Settling, ListenerEvent::Settled) => true,
        (Phase::Settling, ListenerEvent::SettleFailed(_)) => true,
        _ => false,
    }
}

/// A delivery handed to the handler is settled under its own tag once the
/// outcome is in: acknowledged after a success; after a failure rejected, with a
/// requeue exactly when it had not been redelivered before.
pub proof fn lemma_delivery_settled_by_outcome(d: Delivery, o: DispatchOutcome)
    ensures
        ({
            let (p1, a1) = transition(Phase::Consuming, ListenerEvent::Delivered(d));
            let (p2, a2) = transition(p1, ListenerEvent::Invoked(o));
            &&& a1 is Invoke
            &&& expects(p1, ListenerEvent::Invoked(o))
            &&& p2 is Settling
            &&& (o is Success ==> a2 == Decision::Ack(d.tag))
            &&& (o is Failure && !d.redelivered ==> a2 == Decision::Nack(d.tag, true))
            &&& (o is Failure && d.redelivered ==> a2 == Decision::Nack(d.tag, false))
        }),
{
}

/// An acknowledgement comes only from a success of the delivery that is with
/// the handler, and it names that delivery's tag; a rejection likewise comes
/// only from a failure of that delivery.
pub proof fn lemma_settlement_names_pending_delivery(p: Phase, e: ListenerEvent)
    requires
        expects(p, e),
    ensures
        transition(p, e).1 matches Decision::Ack(t) ==> (p matches Phase::Invoking { tag, .. } && tag == t
            && e matches ListenerEvent::Invoked(DispatchOutcome::Success)),
        transition(p, e).1 matches Decision::Nack(t, q) ==> (p matches Phase::Invoking { tag, redelivered } && tag == t
            && q == !redelivered && e matches ListenerEvent::Invoked(DispatchOutcome::Failure(_))),
{
}

/// A listener and its first action, as `Listener::start` gives them.
pub open spec fn started_as(
    l: Listener,
    a: ListenerAction,
    index: nat,
    settings: ConnectionSettings,
    binding: Binding,
    extensions: Seq<(String, String)>,
) -> bool {
    &&& l.binding == binding
    &&& l.consumer_tag@ == consumer_tag_of(index)
    &&& amqp_uri_accepts(settings.address@) ==> {
        &&& l.phase is Connecting
        &&& a matches ListenerAction::Connect { uri, client_properties }
        &&& connects_as(uri, settings)
        &&& client_fields(client_properties) == fields_of(extensions)
    }
    &&& !amqp_uri_accepts(settings.address@) ==> {
        &&& l.phase matches Phase::Failed(ListenerError::Address(_))
        &&& a matches ListenerAction::Exit(Err(ListenerError::Address(_)))
    }
}

/// The consumer tag of the listener at position `index`.
pub open spec fn consumer_tag_of(index: nat) -> Seq<char> {
    "spin_trigger_"@ + decimal(index)
}

/// Listeners at different positions consume under different tags.
pub proof fn lemma_consumer_tags_distinct(i: nat, j: nat)
    requires
        i != j,
    ensures
        consumer_tag_of(i) != consumer_tag_of(j),
{
    let prefix = "spin_trigger_"@;
    if consumer_tag_of(i) == consumer_tag_of(j) {
        assert(consumer_tag_of(i).subrange(prefix.len() as int, consumer_tag_of(i).len() as int) =~= decimal(i));
        assert(consumer_tag_of(j).subrange(prefix.len() as int, consumer_tag_of(j).len() as int) =~= decimal(j));
        lemma_decimal_injective(i, j);
    }
}

/// The consuming session of one binding.
pub struct Listener {
    pub binding: Binding,
    pub consumer_tag: String,
    pub phase: Phase,
}

impl Listener {
    /// Starts the listener at position `index` of the run: it asks for a
    /// connection to the configured broker, with the handler's extension pairs as
    /// client identification, or fails at once when the address does not parse.
    pub fn start(index: usize, settings: &ConnectionSettings, binding: Binding, extensions: &Vec<(String, String)>) -> (r: (Listener, ListenerAction))
        ensures
            started_as(r.0, r.1, index as nat, *settings, binding, extensions@),
    {
        let mut consumer_tag = String::from_str("spin_trigger_");
        consumer_tag.append(to_decimal(index as u64).as_str());
        match connection_uri(settings) {
            Ok(uri) => {
                let l = Listener { binding, consumer_tag, phase: Phase::Connecting };
                (l, ListenerAction::Connect { uri, client_properties: client_properties(extensions) })
            },
            Err(AddressError::Invalid(m)) => {
                let l = Listener {
                    binding,
                    consumer_tag,
                    phase: Phase::Failed(ListenerError::Address(m.clone())),
                };
                (l, ListenerAction::Exit(Err(ListenerError::Address(m))))
            },
        }
    }

    /// Whether `e` can happen in the listener's phase.
    pub fn expects(&self, e: &ListenerEvent) -> (r: bool)
        ensures
            r == expects(self.phase, *e),
    {
        match (&self.phase, e) {
            (Phase::Connecting, ListenerEvent::Connected) => true,
            (Phase::Connecting, ListenerEvent::ConnectFailed(_)) => true,
            (Phase::Subscribing, ListenerEvent::Subscribed) => true,
            (Phase::Subscribing, ListenerEvent::SubscribeFailed(_)) => true,
            (Phase::Consuming, ListenerEvent::Delivered(_)) => true,
            (Phase::Consuming, ListenerEvent::StreamEnded) => true,
            (Phase::Invoking { .. }, ListenerEvent::Invoked(_)) => true,
            (Phase::Settling, ListenerEvent::Settled) => true,
            (Phase::Settling, ListenerEvent::SettleFailed(_)) => true,
            _ => false,
        }
    }

    /// Takes in what came of the last action and says what to do next.
    pub fn step(&mut self, e: ListenerEvent) -> (r: ListenerAction)
        requires
            expects(old(self).phase, e),
        ensures
            (final(self).phase, decision_of(r)) == transition(old(self).phase, e),
            final(self).binding == old(self).binding,
            final(self).consumer_tag == old(self).consumer_tag,
            r matches ListenerAction::Subscribe { topic, consumer_tag, prefetch } ==> {
                &&& topic@ == old(self).binding.topic@
                &&& consumer_tag@ == old(self).consumer_tag@
                &&& prefetch == old(self).binding.qos
            },
            e matches ListenerEvent::Delivered(d) ==> (r matches ListenerAction::Invoke { component, envelopes } && {
                &&& component@ == old(self).binding.component@
                &&& envelopes.len() == 1
                &&& envelopes[0].payload@ == d.payload@
                &&& envelopes[0].format == ContentFormat::Amqp
                &&& metadata_view(envelopes[0].metadata) == metadata_of(d.properties)
            }),
    {
        match e {
            ListenerEvent::Connected => {
                self.phase = Phase::Subscribing;
                ListenerAction::Subscribe {
                    topic: self.binding.topic.clone(),
                    consumer_tag: self.consumer_tag.clone(),
                    prefetch: self.binding.qos,
                }
            },
            ListenerEvent::ConnectFailed(m) => {
                self.phase = Phase::Failed(ListenerError::Connection(m.clone()));
                ListenerAction::Exit(Err(ListenerError::Connection(m)))
            },
            ListenerEvent::Subscribed => {
                self.phase = Phase::Consuming;
                ListenerAction::Receive
            },
            ListenerEvent::SubscribeFailed(m) => {
                self.phase = Phase::Failed(ListenerError::Subscription(m.clone()));
                ListenerAction::Exit(Err(ListenerError::Subscription(m)))
            },
            ListenerEvent::Delivered(d) => {
                self.phase = Phase::Invoking { tag: d.tag, redelivered: d.redelivered };
                let envelope = Envelope::from_delivery(d.payload, &d.properties);
                let mut envelopes: Vec<Envelope> = Vec::new();
                envelopes.push(envelope);
                ListenerAction::Invoke { component: self.binding.component.clone(), envelopes }
            },
            ListenerEvent::StreamEnded => {
                self.phase = Phase::Draining;
                ListenerAction::Exit(Ok(()))
            },
            ListenerEvent::Invoked(o) => {
                let (tag, redelivered) = match self.phase {
                    Phase::Invoking { tag, redelivered } => (tag, redelivered),
                    _ => (0, false),
                };
                self.phase = Phase::Settling;
                match settlement(&o, redelivered) {
                    Settlement::Ack => ListenerAction::Ack { tag },
                    Settlement::Nack { requeue } => ListenerAction::Nack { tag, requeue },
                }
            },
            ListenerEvent::Settled => {
                self.phase = Phase::Consuming;
                ListenerAction::Receive
            },
            ListenerEvent::SettleFailed(m) => {
                self.phase = Phase::Failed(ListenerError::AckTransport(m.clone()));
                ListenerAction::Exit(Err(ListenerError::AckTransport(m)))
            },
        }
    }
}

} // verus!
