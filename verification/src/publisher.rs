//! The publisher: what is sent for an activity, and when a publication has
//! succeeded.
//!
//! A publication succeeds only when the bus has acknowledged that it holds
//! the message. The publisher never retries: every failure goes back to the
//! caller.

use vstd::prelude::*;

use crate::activities::Activity;
use crate::codec::{activity_bytes, decoded, to_stdvec};
use crate::error::{LayerDbError, LayerDbResult};
use crate::stream::text_view;
use crate::subject::{for_activity, subject_of};

verus! {

/// What is sent to the bus for one activity.
#[derive(Clone, Debug, PartialEq, Eq)]
pub struct Publication {
    pub subject: String,
    pub payload: Vec<u8>,
}

/// How the bus answered a publication.
#[derive(Clone, Copy, Debug, PartialEq, Eq, Structural)]
pub enum PublishReply {
    /// The bus acknowledged that it holds the message.
    Acknowledged,
    /// The message could not be sent, or the bus refused it.
    SendFailed,
    /// The message was sent and no acknowledgment came.
    AckFailed,
}

/// The publisher of one instance.
#[derive(Clone, Debug)]
pub struct ActivityPublisher {
    prefix: Option<String>,
}

impl ActivityPublisher {
    /// The subject prefix of the fleet, as plain values.
    pub closed spec fn prefix_view(&self) -> Option<Seq<char>> {
        text_view(self.prefix)
    }

    /// A publisher under `prefix`.
    pub fn new(prefix: Option<String>) -> (publisher: ActivityPublisher)
        ensures
            publisher.prefix_view() == text_view(prefix),
    {
        ActivityPublisher { prefix }
    }

    /// The subject prefix of the fleet.
    pub fn prefix(&self) -> (prefix: Option<&str>)
        ensures
            crate::subject::prefix_view(prefix) == self.prefix_view(),
    {
        match &self.prefix {
            Some(p) => Some(p.as_str()),
            None => None,
        }
    }

    /// What to send for `activity`: its bytes, on the subject of its kind
    /// under the prefix. A consumer that decodes the payload holds the
    /// activity again.
    pub fn publish(&self, activity: &Activity) -> (publication: Publication)
        ensures
            publication.subject@ == subject_of(self.prefix_view(), activity@.payload.kind()),
            publication.payload@ == activity_bytes(activity@),
            decoded(publication.payload@) == Ok::<
                crate::activities::ActivityView,
                crate::wire::WireError,
            >(activity@),
    {
        let subject = for_activity(self.prefix(), activity);
        let payload = to_stdvec(activity);
        Publication { subject, payload }
    }

    /// Whether a publication succeeded, by the answer of the bus: only an
    /// acknowledged message was published.
    pub fn acknowledge(reply: PublishReply) -> (r: LayerDbResult<()>)
        ensures
            r == match reply {
                PublishReply::Acknowledged => Ok::<(), LayerDbError>(()),
                PublishReply::SendFailed => Err(LayerDbError::NatsPublish),
                PublishReply::AckFailed => Err(LayerDbError::NatsPublishAck),
            },
    {
        match reply {
            PublishReply::Acknowledged => Ok(()),
            PublishReply::SendFailed => Err(LayerDbError::NatsPublish),
            PublishReply::AckFailed => Err(LayerDbError::NatsPublishAck),
        }
    }
}

} // verus!
