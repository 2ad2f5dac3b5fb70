//! The consumer of the fan-out path: how it asks the bus for activities and
//! what it does with each delivery.
//!
//! A stream is an ephemeral consumer that receives only what is published
//! after it was created. Every delivery is acknowledged first and decoded
//! afterwards, on a task of its own, so that a slow or failing handler never
//! delays an acknowledgment. A message that cannot be decoded is skipped; an
//! error of the transport ends the stream.

use vstd::prelude::*;

use crate::activities::{Activity, ActivityPayloadDiscriminants};
use crate::base32;
use crate::codec::{decoded, from_bytes};
use crate::error::{LayerDbError, LayerDbResult};
use crate::subject::{for_activity_discriminate, prefix_view, subject_of};

verus! {

/// Which of the messages of a stream a new consumer receives.
#[derive(Clone, Copy, Debug, PartialEq, Eq, Structural)]
pub enum DeliverPolicy {
    /// Every message that the stream holds.
    All,
    /// Only messages published after the consumer was created.
    New,
}

/// What a consumer asks of the bus.
#[derive(Clone, Debug, PartialEq, Eq)]
pub struct ConsumerConfig {
    /// The name of an ephemeral consumer.
    pub name: Option<String>,
    /// The name that the instances of a fleet share, for a consumer whose
    /// messages go to one of them each.
    pub durable_name: Option<String>,
    pub description: Option<String>,
    pub deliver_policy: DeliverPolicy,
    /// The subjects to receive. None means all.
    pub filter_subjects: Vec<String>,
}

/// A `ConsumerConfig` as plain values.
pub struct ConsumerConfigView {
    pub name: Option<Seq<char>>,
    pub durable_name: Option<Seq<char>>,
    pub description: Option<Seq<char>>,
    pub deliver_policy: DeliverPolicy,
    pub filter_subjects: Seq<Seq<char>>,
}

/// An optional string as plain values.
pub open spec fn text_view(text: Option<String>) -> Option<Seq<char>> {
    match text {
        Some(s) => Some(s@),
        None => None,
    }
}

impl View for ConsumerConfig {
    type V = ConsumerConfigView;

    open spec fn view(&self) -> ConsumerConfigView {
        ConsumerConfigView {
            name: text_view(self.name),
            durable_name: text_view(self.durable_name),
            description: text_view(self.description),
            deliver_policy: self.deliver_policy,
            filter_subjects: self.filter_subjects@.map_values(|s: String| s@),
        }
    }
}

/// The kinds that a subscription names, in the order given.
pub open spec fn filter_view(filters: Option<Vec<ActivityPayloadDiscriminants>>) -> Option<
    Seq<ActivityPayloadDiscriminants>,
> {
    match filters {
        Some(kinds) => Some(kinds@),
        None => None,
    }
}

/// Whether a subscription to `filters` is to receive the activities of
/// `kind`. No filter, and a filter that names no kind, receive every kind.
pub open spec fn admits(
    filters: Option<Seq<ActivityPayloadDiscriminants>>,
    kind: ActivityPayloadDiscriminants,
) -> bool {
    match filters {
        None => true,
        Some(kinds) => kinds.len() == 0 || kinds.contains(kind),
    }
}

/// The subjects of `filters` under `prefix`: one for each kind named, in the
/// order given.
pub open spec fn filter_subjects(
    prefix: Option<Seq<char>>,
    filters: Option<Seq<ActivityPayloadDiscriminants>>,
) -> Seq<Seq<char>> {
    match filters {
        None => Seq::empty(),
        Some(kinds) => kinds.map_values(|kind: ActivityPayloadDiscriminants| subject_of(prefix, kind)),
    }
}

/// Whether the bus hands a message on `subject` to a consumer that asked for
/// `subjects`.
pub open spec fn delivers(subjects: Seq<Seq<char>>, subject: Seq<char>) -> bool {
    subjects.len() == 0 || subjects.contains(subject)
}

/// The name of the stream consumer of the instance `instance_id`.
pub open spec fn stream_name(instance_id: u128) -> Seq<char> {
    "activity-stream-"@ + base32::text_of(instance_id)
}

/// What the stream consumer of an instance asks of the bus.
pub open spec fn stream_config(
    prefix: Option<Seq<char>>,
    instance_id: u128,
    filters: Option<Seq<ActivityPayloadDiscriminants>>,
) -> ConsumerConfigView {
    ConsumerConfigView {
        name: Some(stream_name(instance_id)),
        durable_name: None,
        description: Some("activity stream for ["@ + stream_name(instance_id) + "]"@),
        deliver_policy: DeliverPolicy::New,
        filter_subjects: filter_subjects(prefix, filters),
    }
}

/// A consumer receives the activities of exactly the kinds that its filter
/// admits: an activity of a kind that the filter does not name is never
/// delivered to it, and one of a kind that it names always is.
pub proof fn lemma_filter_subjects_deliver_admitted(
    prefix: Option<Seq<char>>,
    filters: Option<Seq<ActivityPayloadDiscriminants>>,
    kind: ActivityPayloadDiscriminants,
)
    ensures
        delivers(filter_subjects(prefix, filters), subject_of(prefix, kind)) <==> admits(
            filters,
            kind,
        ),
{
    if let Some(kinds) = filters {
        let subjects = filter_subjects(prefix, filters);
        let subject = subject_of(prefix, kind);
        if kinds.contains(kind) {
            let i = choose|i: int| 0 <= i < kinds.len() && kinds[i] == kind;
            assert(subjects[i] == subject);
        }
        if subjects.contains(subject) {
            let i = choose|i: int| 0 <= i < subjects.len() && subjects[i] == subject;
            crate::subject::lemma_subject_of_identifies_kind(prefix, kinds[i], kind);
            assert(kinds[i] == kind);
        }
    }
}

/// What the bus handed to a consumer.
#[derive(Clone, Debug, PartialEq, Eq)]
pub enum Delivery {
    /// A message, by its payload.
    Message(Vec<u8>),
    /// An error of the transport.
    TransportError,
    /// The end of the stream.
    Closed,
}

/// What to do with a delivery.
#[derive(Clone, Debug, PartialEq, Eq)]
pub enum StreamAction {
    /// Acknowledge the message, then hand its payload to a task of its own
    /// that decodes and forwards it.
    AckAndDispatch(Vec<u8>),
    /// Log the error of the transport and stop receiving.
    LogAndStop,
    /// Stop receiving.
    Stop,
}

/// The state of a stream consumer: whether it has stopped receiving.
#[derive(Clone, Copy, Debug, PartialEq, Eq, Structural)]
pub struct ActivityStream {
    pub ended: bool,
}

impl ActivityStream {
    /// What a stream does with `delivery`, as plain values: the payload to
    /// acknowledge and dispatch, if any, and whether to log.
    pub open spec fn action_for(self, delivery: Delivery) -> StreamAction {
        if self.ended {
            StreamAction::Stop
        } else {
            match delivery {
                Delivery::Message(payload) => StreamAction::AckAndDispatch(payload),
                Delivery::TransportError => StreamAction::LogAndStop,
                Delivery::Closed => StreamAction::Stop,
            }
        }
    }

    /// The state after `delivery`: a stream ends with the first delivery
    /// that is no message.
    pub open spec fn state_after(self, delivery: Delivery) -> ActivityStream {
        ActivityStream { ended: self.ended || !(delivery is Message) }
    }

    /// A stream that receives.
    pub fn new() -> (stream: ActivityStream)
        ensures
            !stream.ended,
    {
        ActivityStream { ended: false }
    }

    /// What the consumer of the instance `instance_id` asks of the bus: a
    /// name of its own, only new messages, and the subjects of `filters`.
    pub fn consumer_config(
        prefix: Option<&str>,
        instance_id: u128,
        filters: &Option<Vec<ActivityPayloadDiscriminants>>,
    ) -> (config: ConsumerConfig)
        ensures
            config@ == stream_config(prefix_view(prefix), instance_id, filter_view(*filters)),
    {
        let id_text = base32::encode(instance_id);
        let name = "activity-stream-".to_owned().concat(id_text.as_str());
        let description = "activity stream for [".to_owned().concat(name.as_str()).concat("]");
        let mut subjects: Vec<String> = Vec::new();
        if let Some(kinds) = filters {
            let mut i: usize = 0;
            while i < kinds.len()
                invariant
                    i <= kinds.len(),
                    subjects@.len() == i,
                    forall|j: int|
                        0 <= j < i ==> (#[trigger] subjects@[j])@ == subject_of(
                            prefix_view(prefix),
                            kinds@[j],
                        ),
                decreases kinds.len() - i,
            {
                subjects.push(for_activity_discriminate(prefix, kinds[i]));
                i += 1;
            }
        }
        let config = ConsumerConfig {
            name: Some(name),
            durable_name: None,
            description: Some(description),
            deliver_policy: DeliverPolicy::New,
            filter_subjects: subjects,
        };
        assert(config@.filter_subjects =~= filter_subjects(
            prefix_view(prefix),
            filter_view(*filters),
        ));
        config
    }

    /// Takes one delivery: a message is to be acknowledged and dispatched,
    /// anything else ends the stream, and an ended stream takes nothing.
    pub fn process_messages(&mut self, delivery: Delivery) -> (action: StreamAction)
        ensures
            action == old(self).action_for(delivery),
            *final(self) == old(self).state_after(delivery),
    {
        if self.ended {
            return StreamAction::Stop;
        }
        match delivery {
            Delivery::Message(payload) => StreamAction::AckAndDispatch(payload),
            Delivery::TransportError => {
                self.ended = true;
                StreamAction::LogAndStop
            },
            Delivery::Closed => {
                self.ended = true;
                StreamAction::Stop
            },
        }
    }

    /// Decodes the payload of one message into the activity to forward. A
    /// payload that holds no activity is an error that names the reason.
    pub fn process_message(payload: &[u8]) -> (r: LayerDbResult<Activity>)
        ensures
            match decoded(payload@) {
                Ok(activity) => r matches Ok(v) && v@ == activity,
                Err(e) => r matches Err(got) && got == LayerDbError::Decode(e),
            },
    {
        match from_bytes(payload) {
            Ok(activity) => Ok(activity),
            Err(e) => Err(LayerDbError::Decode(e)),
        }
    }
}

/// Once a stream has ended it takes nothing more, whatever is delivered.
pub proof fn lemma_ended_stream_stays_ended(stream: ActivityStream, delivery: Delivery)
    requires
        stream.ended,
    ensures
        stream.action_for(delivery) == StreamAction::Stop,
        stream.state_after(delivery).ended,
{
}

/// A stream acknowledges every message that it takes, and takes every
/// message that arrives before its end.
pub proof fn lemma_running_stream_acks_every_message(stream: ActivityStream, payload: Vec<u8>)
    requires
        !stream.ended,
    ensures
        stream.action_for(Delivery::Message(payload)) == StreamAction::AckAndDispatch(payload),
        !stream.state_after(Delivery::Message(payload)).ended,
{
}

} // verus!
