//! The work queue of rebase requests: one consumer name for the whole fleet,
//! so that each request goes to one instance.
//!
//! Every delivery is acknowledged before it is looked at. A message that
//! holds no rebase request is logged and dropped: it has left the queue. The
//! shutdown signal stops the intake at once; the queue returns when the
//! caller reports that every handler already started has finished.

use vstd::prelude::*;

use crate::activities::{ActivityPayloadView, ActivityRebaseRequest, ActivityView};
use crate::codec::{decoded, from_bytes};
use crate::error::{LayerDbError, LayerDbResult};
use crate::rebase::RebaseRequestView;
use crate::stream::{ConsumerConfig, ConsumerConfigView, DeliverPolicy, Delivery};

verus! {

/// What the consumer of the work queue asks of the bus: the name that the
/// fleet shares, every message, no filter.
pub open spec fn queue_config() -> ConsumerConfigView {
    ConsumerConfigView {
        name: None,
        durable_name: Some("rebaser-requests"@),
        description: Some("rebaser requests consumer"@),
        deliver_policy: DeliverPolicy::All,
        filter_subjects: Seq::empty(),
    }
}

/// An `ActivityRebaseRequest` as plain values.
pub struct ActivityRebaseRequestView {
    pub id: crate::activities::ActivityId,
    pub payload: RebaseRequestView,
    pub metadata: crate::event::LayeredEventMetadata,
    pub parent_activity_id: Option<crate::activities::ActivityId>,
}

impl View for ActivityRebaseRequest {
    type V = ActivityRebaseRequestView;

    open spec fn view(&self) -> ActivityRebaseRequestView {
        ActivityRebaseRequestView {
            id: self.id,
            payload: self.payload@,
            metadata: self.metadata,
            parent_activity_id: self.parent_activity_id,
        }
    }
}

/// The rebase request that `activity` is, or the error that it is none.
pub open spec fn narrowed(activity: ActivityView) -> Result<ActivityRebaseRequestView, LayerDbError> {
    match activity.payload {
        ActivityPayloadView::RebaseRequest(payload) => Ok(
            ActivityRebaseRequestView {
                id: activity.id,
                payload,
                metadata: activity.metadata,
                parent_activity_id: activity.parent_activity_id,
            },
        ),
        _ => Err(LayerDbError::ActivityRebase),
    }
}

/// The rebase request that `payload` holds, or the error that it holds none:
/// the payload must decode, and the activity must be a rebase request.
pub open spec fn request_in(payload: Seq<u8>) -> Result<ActivityRebaseRequestView, LayerDbError> {
    match decoded(payload) {
        Ok(activity) => narrowed(activity),
        Err(e) => Err(LayerDbError::Decode(e)),
    }
}

/// Where the work queue is in its life.
#[derive(Clone, Copy, Debug, PartialEq, Eq, Structural)]
pub enum Phase {
    /// It takes messages in.
    Running,
    /// It takes nothing in and waits for the handlers already started.
    Draining,
    /// It has returned.
    Stopped,
}

/// What reaches the work queue.
#[derive(Clone, Debug, PartialEq, Eq)]
pub enum QueueEvent {
    /// Something from the bus.
    Delivery(Delivery),
    /// The signal to shut down.
    Cancelled,
    /// Every handler that was started has finished.
    Drained,
}

/// What the work queue does next.
#[derive(Clone, Debug, PartialEq, Eq)]
pub enum QueueAction {
    /// Acknowledge the message, then forward the request to the worker.
    AckAndForward(ActivityRebaseRequest),
    /// Acknowledge the message, then log why it was dropped.
    AckAndLog(LayerDbError),
    /// Log an error of the transport and go on receiving.
    LogTransportError,
    /// Take nothing more in: close the tracker of handlers and wait until
    /// every one of them has finished.
    CloseAndWait,
    /// Return: the shutdown is complete.
    Return,
    /// Nothing.
    Ignore,
}

/// The kind of an action, without what it carries.
#[derive(Clone, Copy, Debug, PartialEq, Eq, Structural)]
pub enum ActionKind {
    /// A message is taken in: acknowledged, then handled.
    Intake,
    LogTransportError,
    CloseAndWait,
    Return,
    Ignore,
}

/// The kind of the action on `event` in `phase`.
pub open spec fn kind_of_action(phase: Phase, event: QueueEvent) -> ActionKind {
    match phase {
        Phase::Running => match event {
            QueueEvent::Delivery(Delivery::Message(_)) => ActionKind::Intake,
            QueueEvent::Delivery(Delivery::TransportError) => ActionKind::LogTransportError,
            QueueEvent::Delivery(Delivery::Closed) => ActionKind::CloseAndWait,
            QueueEvent::Cancelled => ActionKind::CloseAndWait,
            QueueEvent::Drained => ActionKind::Ignore,
        },
        Phase::Draining => match event {
            QueueEvent::Drained => ActionKind::Return,
            _ => ActionKind::Ignore,
        },
        Phase::Stopped => ActionKind::Ignore,
    }
}

/// The phase after `event` in `phase`.
pub open spec fn phase_after(phase: Phase, event: QueueEvent) -> Phase {
    match kind_of_action(phase, event) {
        ActionKind::CloseAndWait => Phase::Draining,
        ActionKind::Return => Phase::Stopped,
        _ => phase,
    }
}

/// The phase after every event of `events`, in order.
pub open spec fn phase_after_all(phase: Phase, events: Seq<QueueEvent>) -> Phase
    decreases events.len(),
{
    if events.len() == 0 {
        phase
    } else {
        phase_after(phase_after_all(phase, events.drop_last()), events.last())
    }
}

/// Whether `action` is what the queue does on `event` in `phase`.
pub open spec fn is_action_for(action: QueueAction, phase: Phase, event: QueueEvent) -> bool {
    match kind_of_action(phase, event) {
        ActionKind::Intake => match request_in(event->Delivery_0->Message_0@) {
            Ok(request) => action matches QueueAction::AckAndForward(r) && r@ == request,
            Err(e) => action == QueueAction::AckAndLog(e),
        },
        ActionKind::LogTransportError => action == QueueAction::LogTransportError,
        ActionKind::CloseAndWait => action == QueueAction::CloseAndWait,
        ActionKind::Return => action == QueueAction::Return,
        ActionKind::Ignore => action == QueueAction::Ignore,
    }
}

/// The state of the work queue of one instance.
#[derive(Clone, Copy, Debug, PartialEq, Eq, Structural)]
pub struct RebaserRequestWorkQueue {
    pub phase: Phase,
}

impl RebaserRequestWorkQueue {
    /// A work queue that takes messages in.
    pub fn create() -> (queue: RebaserRequestWorkQueue)
        ensures
            queue.phase == Phase::Running,
    {
        RebaserRequestWorkQueue { phase: Phase::Running }
    }

    /// What the consumer of the work queue asks of the bus. Every instance
    /// asks the same, so that all of them share one consumer.
    pub fn consumer_config() -> (config: ConsumerConfig)
        ensures
            config@ == queue_config(),
    {
        let config = ConsumerConfig {
            name: None,
            durable_name: Some("rebaser-requests".to_owned()),
            description: Some("rebaser requests consumer".to_owned()),
            deliver_policy: DeliverPolicy::All,
            filter_subjects: Vec::new(),
        };
        assert(config@.filter_subjects =~= Seq::empty());
        config
    }

    /// The rebase request that a message holds. A payload that does not
    /// decode, and an activity of another kind, are errors.
    pub fn process_message(payload: &[u8]) -> (r: LayerDbResult<ActivityRebaseRequest>)
        ensures
            match request_in(payload@) {
                Ok(request) => r matches Ok(v) && v@ == request,
                Err(e) => r matches Err(got) && got == e,
            },
    {
        let activity = match from_bytes(payload) {
            Ok(activity) => activity,
            Err(e) => {
                return Err(LayerDbError::Decode(e));
            },
        };
        ActivityRebaseRequest::try_from(activity)
    }

    /// Takes one delivery. While the queue runs, a message is acknowledged
    /// and then forwarded or dropped, an error of the transport is logged,
    /// and the end of the stream starts the shutdown. A queue that has left
    /// the running phase takes nothing in.
    pub fn process_messages(&mut self, delivery: Delivery) -> (action: QueueAction)
        ensures
            is_action_for(action, old(self).phase, QueueEvent::Delivery(delivery)),
            final(self).phase == phase_after(old(self).phase, QueueEvent::Delivery(delivery)),
    {
        match self.phase {
            Phase::Running => match delivery {
                Delivery::Message(payload) => match Self::process_message(payload.as_slice()) {
                    Ok(request) => QueueAction::AckAndForward(request),
                    Err(e) => QueueAction::AckAndLog(e),
                },
                Delivery::TransportError => QueueAction::LogTransportError,
                Delivery::Closed => {
                    self.phase = Phase::Draining;
                    QueueAction::CloseAndWait
                },
            },
            _ => QueueAction::Ignore,
        }
    }

    /// Takes one event. The shutdown signal moves a running queue to
    /// draining, and the report that every handler has finished lets a
    /// draining queue return. Deliveries are for `process_messages`.
    pub fn run(&mut self, event: QueueEvent) -> (action: QueueAction)
        ensures
            is_action_for(action, old(self).phase, event),
            final(self).phase == phase_after(old(self).phase, event),
    {
        match event {
            QueueEvent::Delivery(delivery) => self.process_messages(delivery),
            QueueEvent::Cancelled => match self.phase {
                Phase::Running => {
                    self.phase = Phase::Draining;
                    QueueAction::CloseAndWait
                },
                _ => QueueAction::Ignore,
            },
            QueueEvent::Drained => match self.phase {
                Phase::Draining => {
                    self.phase = Phase::Stopped;
                    QueueAction::Return
                },
                _ => QueueAction::Ignore,
            },
        }
    }
}

/// A queue that has left the running phase never runs again.
pub proof fn lemma_never_runs_again(phase: Phase, events: Seq<QueueEvent>)
    requires
        phase != Phase::Running,
    ensures
        phase_after_all(phase, events) != Phase::Running,
    decreases events.len(),
{
    if events.len() > 0 {
        lemma_never_runs_again(phase, events.drop_last());
    }
}

/// After the shutdown signal nothing is taken in: whatever events follow
/// the signal, and however many, the queue acknowledges and handles no
/// message.
pub proof fn lemma_no_intake_after_cancellation(
    phase: Phase,
    between: Seq<QueueEvent>,
    later: QueueEvent,
)
    ensures
        kind_of_action(
            phase_after_all(phase_after(phase, QueueEvent::Cancelled), between),
            later,
        ) != ActionKind::Intake,
{
    lemma_never_runs_again(phase_after(phase, QueueEvent::Cancelled), between);
}

/// The queue returns only from draining, on the report that every handler
/// has finished: never while it takes messages in, and never before the
/// handlers are done.
pub proof fn lemma_returns_only_when_drained(phase: Phase, event: QueueEvent)
    ensures
        kind_of_action(phase, event) == ActionKind::Return <==> phase == Phase::Draining
            && event is Drained,
        phase_after(phase, event) == Phase::Stopped ==> phase == Phase::Stopped || (phase
            == Phase::Draining && event is Drained),
{
}

/// While the queue runs, every message is acknowledged, whatever it holds.
pub proof fn lemma_running_queue_acks_every_message(payload: Vec<u8>, action: QueueAction)
    requires
        is_action_for(action, Phase::Running, QueueEvent::Delivery(Delivery::Message(payload))),
    ensures
        action is AckAndForward || action is AckAndLog,
{
}

} // verus!
