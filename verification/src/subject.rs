//! The subject that an activity travels on: the prefix of the fleet, where
//! there is one, a dot, and the subject suffix of the payload's kind.

use vstd::prelude::*;

use crate::activities::{lemma_subject_identifies_kind, Activity, ActivityPayloadDiscriminants};

verus! {

/// A prefix as plain values.
pub open spec fn prefix_view(prefix: Option<&str>) -> Option<Seq<char>> {
    match prefix {
        Some(p) => Some(p@),
        None => None,
    }
}

/// `suffix` under `prefix`.
pub open spec fn prefixed(prefix: Option<Seq<char>>, suffix: Seq<char>) -> Seq<char> {
    match prefix {
        Some(p) => p + seq!['.'] + suffix,
        None => suffix,
    }
}

/// The subject of the activities of `kind` under `prefix`.
pub open spec fn subject_of(
    prefix: Option<Seq<char>>,
    kind: ActivityPayloadDiscriminants,
) -> Seq<char> {
    prefixed(prefix, kind.subject())
}

/// `suffix` under `prefix`.
pub fn prefixed_subject(prefix: Option<&str>, suffix: &str) -> (subject: String)
    ensures
        subject@ == prefixed(prefix_view(prefix), suffix@),
{
    match prefix {
        Some(p) => {
            proof {
                reveal_strlit(".");
            }
            let subject = p.to_owned().concat(".").concat(suffix);
            assert(subject@ =~= p@ + seq!['.'] + suffix@);
            subject
        },
        None => suffix.to_owned(),
    }
}

/// The subject that `activity` is published on.
pub fn for_activity(prefix: Option<&str>, activity: &Activity) -> (subject: String)
    ensures
        subject@ == subject_of(prefix_view(prefix), activity@.payload.kind()),
{
    let suffix = activity.payload.to_subject();
    prefixed_subject(prefix, suffix.as_str())
}

/// The subject that every activity of `kind` is published on.
pub fn for_activity_discriminate(prefix: Option<&str>, kind: ActivityPayloadDiscriminants) -> (subject:
    String)
    ensures
        subject@ == subject_of(prefix_view(prefix), kind),
{
    let suffix = kind.to_subject();
    prefixed_subject(prefix, suffix.as_str())
}

/// Under one prefix, two kinds share a subject only if they are the same
/// kind: an activity is never routed as one of another kind.
pub proof fn lemma_subject_of_identifies_kind(
    prefix: Option<Seq<char>>,
    a: ActivityPayloadDiscriminants,
    b: ActivityPayloadDiscriminants,
)
    ensures
        subject_of(prefix, a) == subject_of(prefix, b) <==> a == b,
{
    lemma_subject_identifies_kind(a, b);
    if let Some(p) = prefix {
        let head = p + seq!['.'];
        assert(subject_of(prefix, a).skip(head.len() as int) =~= a.subject());
        assert(subject_of(prefix, b).skip(head.len() as int) =~= b.subject());
    }
}

} // verus!
