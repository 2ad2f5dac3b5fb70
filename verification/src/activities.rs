//! Activities: the immutable events that instances publish to one another.
//!
//! An activity has an identifier of its own, a payload of one of a closed set
//! of kinds, the metadata of the event and, where it answers another
//! activity, that activity's identifier. The kind of the payload alone
//! decides the subject that the activity travels on.

use vstd::prelude::*;

use crate::base32;
use crate::error::{LayerDbError, LayerDbResult};
use crate::event::LayeredEventMetadata;
use crate::integration_test::{IntegrationTest, IntegrationTestAlt};
use crate::rebase::{RebaseFinished, RebaseFinishedView, RebaseRequest, RebaseRequestView};

verus! {

/// The identifier of an activity: 128 bits, of which the upper 48 are the
/// time of creation in milliseconds and the rest are random.
#[derive(Clone, Copy, Debug, PartialEq, Eq, Structural, Hash, PartialOrd, Ord)]
pub struct ActivityId(pub u128);

impl View for ActivityId {
    type V = u128;

    open spec fn view(&self) -> u128 {
        self.0
    }
}

impl ActivityId {
    /// A fresh identifier.
    pub fn new() -> ActivityId {
        ActivityId(base32::generate())
    }

    /// Writes the 26 symbols of the identifier's text into `buf`.
    pub fn array_to_str(&self, buf: &mut [u8; 26])
        ensures
            final(buf)@ == base32::text_bytes_of(self@),
    {
        base32::encode_to_array(self.0, buf)
    }

    /// The 128 bits of the identifier.
    pub fn into_inner(self) -> (bits: u128)
        ensures
            bits == self@,
    {
        self.0
    }

    /// The identifier that `s` spells, or the reason why it spells none.
    pub fn from_str(s: &str) -> (r: Result<ActivityId, base32::DecodeError>)
        ensures
            r == match base32::parse(s@) {
                Ok(bits) => Ok::<ActivityId, base32::DecodeError>(ActivityId(bits)),
                Err(e) => Err(e),
            },
    {
        match base32::decode(s) {
            Ok(bits) => Ok(ActivityId(bits)),
            Err(e) => Err(e),
        }
    }

    /// The text of the identifier: 26 symbols.
    pub fn to_string(&self) -> (text: String)
        ensures
            text@ == base32::text_of(self@),
            base32::parse(text@) == Ok::<u128, base32::DecodeError>(self@),
    {
        proof {
            base32::lemma_parse_text_of(self.0);
        }
        base32::encode(self.0)
    }
}

impl Default for ActivityId {
    /// A fresh identifier.
    fn default() -> ActivityId {
        ActivityId::new()
    }
}

impl From<u128> for ActivityId {
    fn from(value: u128) -> (r: ActivityId) {
        ActivityId(value)
    }
}

impl vstd::std_specs::convert::FromSpecImpl<u128> for ActivityId {
    open spec fn obeys_from_spec() -> bool {
        true
    }

    open spec fn from_spec(value: u128) -> ActivityId {
        ActivityId(value)
    }
}

/// The kind of a payload.
#[derive(Clone, Copy, Debug, PartialEq, Eq, Structural, Hash)]
pub enum ActivityPayloadDiscriminants {
    RebaseRequest,
    RebaseFinished,
    IntegrationTest,
    IntegrationTestAlt,
}

impl ActivityPayloadDiscriminants {
    /// The subject suffix of the kind. The table is part of the wire
    /// contract.
    pub open spec fn subject(self) -> Seq<char> {
        match self {
            ActivityPayloadDiscriminants::RebaseRequest => "rebase.request"@,
            ActivityPayloadDiscriminants::RebaseFinished => "rebase.finished"@,
            ActivityPayloadDiscriminants::IntegrationTest => "integration_test.test"@,
            ActivityPayloadDiscriminants::IntegrationTestAlt => "integration_test.alt"@,
        }
    }

    /// The position of the kind among the kinds, which is also the tag of
    /// its payload on the wire.
    pub open spec fn index(self) -> nat {
        match self {
            ActivityPayloadDiscriminants::RebaseRequest => 0,
            ActivityPayloadDiscriminants::RebaseFinished => 1,
            ActivityPayloadDiscriminants::IntegrationTest => 2,
            ActivityPayloadDiscriminants::IntegrationTestAlt => 3,
        }
    }

    /// The subject suffix of the kind.
    pub fn to_subject(&self) -> (subject: String)
        ensures
            subject@ == self.subject(),
    {
        match self {
            ActivityPayloadDiscriminants::RebaseRequest => "rebase.request".to_owned(),
            ActivityPayloadDiscriminants::RebaseFinished => "rebase.finished".to_owned(),
            ActivityPayloadDiscriminants::IntegrationTest => "integration_test.test".to_owned(),
            ActivityPayloadDiscriminants::IntegrationTestAlt => "integration_test.alt".to_owned(),
        }
    }
}

/// No two kinds share a subject suffix.
pub proof fn lemma_subject_identifies_kind(
    a: ActivityPayloadDiscriminants,
    b: ActivityPayloadDiscriminants,
)
    ensures
        a.subject() == b.subject() <==> a == b,
{
    reveal_strlit("rebase.request");
    reveal_strlit("rebase.finished");
    reveal_strlit("integration_test.test");
    reveal_strlit("integration_test.alt");
    assert(ActivityPayloadDiscriminants::RebaseRequest.subject().len() == 14);
    assert(ActivityPayloadDiscriminants::RebaseFinished.subject().len() == 15);
    assert(ActivityPayloadDiscriminants::IntegrationTest.subject().len() == 21);
    assert(ActivityPayloadDiscriminants::IntegrationTestAlt.subject().len() == 20);
}

/// What an activity carries: one variant for each kind.
#[derive(Clone, Debug, PartialEq, Eq)]
pub enum ActivityPayload {
    RebaseRequest(RebaseRequest),
    RebaseFinished(RebaseFinished),
    IntegrationTest(IntegrationTest),
    IntegrationTestAlt(IntegrationTestAlt),
}

/// An `ActivityPayload` as plain values. A probe is its name.
pub enum ActivityPayloadView {
    RebaseRequest(RebaseRequestView),
    RebaseFinished(RebaseFinishedView),
    IntegrationTest(Seq<char>),
    IntegrationTestAlt(Seq<char>),
}

impl ActivityPayloadView {
    /// The kind of the payload.
    pub open spec fn kind(self) -> ActivityPayloadDiscriminants {
        match self {
            ActivityPayloadView::RebaseRequest(_) => ActivityPayloadDiscriminants::RebaseRequest,
            ActivityPayloadView::RebaseFinished(_) => ActivityPayloadDiscriminants::RebaseFinished,
            ActivityPayloadView::IntegrationTest(_) => ActivityPayloadDiscriminants::IntegrationTest,
            ActivityPayloadView::IntegrationTestAlt(_) =>
                ActivityPayloadDiscriminants::IntegrationTestAlt,
        }
    }
}

impl View for ActivityPayload {
    type V = ActivityPayloadView;

    open spec fn view(&self) -> ActivityPayloadView {
        match self {
            ActivityPayload::RebaseRequest(p) => ActivityPayloadView::RebaseRequest(p@),
            ActivityPayload::RebaseFinished(p) => ActivityPayloadView::RebaseFinished(p@),
            ActivityPayload::IntegrationTest(p) => ActivityPayloadView::IntegrationTest(p.name@),
            ActivityPayload::IntegrationTestAlt(p) => ActivityPayloadView::IntegrationTestAlt(
                p.name@,
            ),
        }
    }
}

impl ActivityPayload {
    /// The kind of the payload.
    pub fn discriminant(&self) -> (kind: ActivityPayloadDiscriminants)
        ensures
            kind == self@.kind(),
    {
        match self {
            ActivityPayload::RebaseRequest(_) => ActivityPayloadDiscriminants::RebaseRequest,
            ActivityPayload::RebaseFinished(_) => ActivityPayloadDiscriminants::RebaseFinished,
            ActivityPayload::IntegrationTest(_) => ActivityPayloadDiscriminants::IntegrationTest,
            ActivityPayload::IntegrationTestAlt(_) =>
                ActivityPayloadDiscriminants::IntegrationTestAlt,
        }
    }

    /// The subject suffix of the payload: that of its kind.
    pub fn to_subject(&self) -> (subject: String)
        ensures
            subject@ == self@.kind().subject(),
    {
        self.discriminant().to_subject()
    }
}

/// An event, as it is published and received.
#[derive(Clone, Debug, PartialEq, Eq)]
pub struct Activity {
    pub id: ActivityId,
    pub payload: ActivityPayload,
    pub metadata: LayeredEventMetadata,
    pub parent_activity_id: Option<ActivityId>,
}

/// An `Activity` as plain values.
pub struct ActivityView {
    pub id: ActivityId,
    pub payload: ActivityPayloadView,
    pub metadata: LayeredEventMetadata,
    pub parent_activity_id: Option<ActivityId>,
}

impl View for Activity {
    type V = ActivityView;

    open spec fn view(&self) -> ActivityView {
        ActivityView {
            id: self.id,
            payload: self.payload@,
            metadata: self.metadata,
            parent_activity_id: self.parent_activity_id,
        }
    }
}

impl Activity {
    /// An activity with a fresh identifier.
    pub fn new(
        payload: ActivityPayload,
        metadata: LayeredEventMetadata,
        parent_activity_id: Option<ActivityId>,
    ) -> (activity: Activity)
        ensures
            activity.payload == payload,
            activity.metadata == metadata,
            activity.parent_activity_id == parent_activity_id,
    {
        Activity { id: ActivityId::new(), payload, metadata, parent_activity_id }
    }

    /// A rebase request. It answers no other activity.
    pub fn rebase(request: RebaseRequest, metadata: LayeredEventMetadata) -> (activity: Activity)
        ensures
            activity.payload == ActivityPayload::RebaseRequest(request),
            activity.metadata == metadata,
            activity.parent_activity_id is None,
    {
        Activity::new(ActivityPayload::RebaseRequest(request), metadata, None)
    }

    /// The answer to the rebase request `from_rebase_activity_id`.
    pub fn rebase_finished(
        request: RebaseFinished,
        metadata: LayeredEventMetadata,
        from_rebase_activity_id: ActivityId,
    ) -> (activity: Activity)
        ensures
            activity.payload == ActivityPayload::RebaseFinished(request),
            activity.metadata == metadata,
            activity.parent_activity_id == Some(from_rebase_activity_id),
    {
        Activity::new(
            ActivityPayload::RebaseFinished(request),
            metadata,
            Some(from_rebase_activity_id),
        )
    }
}

/// An activity that is known to be a rebase request.
#[derive(Clone, Debug, PartialEq, Eq)]
pub struct ActivityRebaseRequest {
    pub id: ActivityId,
    pub payload: RebaseRequest,
    pub metadata: LayeredEventMetadata,
    pub parent_activity_id: Option<ActivityId>,
}

impl ActivityRebaseRequest {
    /// Narrows `activity` to a rebase request. An activity of another kind
    /// is an error, and every other field is kept.
    pub fn try_from(activity: Activity) -> (r: LayerDbResult<ActivityRebaseRequest>)
        ensures
            match activity.payload {
                ActivityPayload::RebaseRequest(payload) => r == Ok::<
                    ActivityRebaseRequest,
                    LayerDbError,
                >(
                    ActivityRebaseRequest {
                        id: activity.id,
                        payload,
                        metadata: activity.metadata,
                        parent_activity_id: activity.parent_activity_id,
                    },
                ),
                _ => r == Err::<ActivityRebaseRequest, LayerDbError>(LayerDbError::ActivityRebase),
            },
    {
        let payload = match activity.payload {
            ActivityPayload::RebaseRequest(payload) => payload,
            _ => {
                return Err(LayerDbError::ActivityRebase);
            },
        };
        Ok(
            ActivityRebaseRequest {
                id: activity.id,
                payload,
                metadata: activity.metadata,
                parent_activity_id: activity.parent_activity_id,
            },
        )
    }
}

} // verus!
