//! The bytes of an activity.
//!
//! An activity is written as its fields in order: the identifier, the
//! payload, the metadata, the identifier of the activity it answers. A
//! payload is the tag of its kind, then its fields. Decoding reads one
//! activity off the head of the bytes and ignores what follows it.
//!
//! `lemma_decode_inverts_encode` is the round trip: what was written is read
//! back unchanged, for every kind of payload, with and without a parent.

use vstd::prelude::*;

use crate::activities::{Activity, ActivityId, ActivityPayload, ActivityPayloadView, ActivityView};
use crate::event::{lemma_take_metadata_of_metadata, metadata_bytes, read_metadata, take_metadata, write_metadata};
use crate::integration_test::{IntegrationTest, IntegrationTestAlt};
use crate::rebase::{
    finished_bytes, finished_fits, lemma_take_finished_of_finished, lemma_take_request_of_request,
    read_finished, read_request, request_bytes, request_fits, take_finished, take_request,
    write_finished, write_request,
};
use crate::wire::{
    id_bytes, lemma_pow128_values, lemma_take_id_of_id, lemma_take_string_of_string,
    lemma_take_varint_of_varint, option_tag, read_id, read_option_tag, read_string, read_u32,
    string_bytes, take_id, take_option_tag, take_string, tail_from, take_varint, varint, write_id,
    write_string, write_varint, WireError,
};

verus! {

/// Whether every string of the payload can be written: its UTF-8 must have a
/// length of 64 bits. Every payload that a program holds does.
pub open spec fn payload_fits(p: ActivityPayloadView) -> bool {
    match p {
        ActivityPayloadView::RebaseRequest(r) => request_fits(r),
        ActivityPayloadView::RebaseFinished(f) => finished_fits(f),
        ActivityPayloadView::IntegrationTest(name) => vstd::utf8::encode_utf8(name).len()
            <= u64::MAX,
        ActivityPayloadView::IntegrationTestAlt(name) => vstd::utf8::encode_utf8(name).len()
            <= u64::MAX,
    }
}

/// The bytes of a payload: the tag of its kind, then its fields.
pub open spec fn payload_bytes(p: ActivityPayloadView) -> Seq<u8> {
    varint(p.kind().index()) + match p {
        ActivityPayloadView::RebaseRequest(r) => request_bytes(r),
        ActivityPayloadView::RebaseFinished(f) => finished_bytes(f),
        ActivityPayloadView::IntegrationTest(name) => string_bytes(name),
        ActivityPayloadView::IntegrationTestAlt(name) => string_bytes(name),
    }
}

/// The payload at the head of `bytes` and the bytes after it.
pub open spec fn take_payload(bytes: Seq<u8>) -> Result<(ActivityPayloadView, Seq<u8>), WireError> {
    match take_varint(bytes, 5, 15) {
        Err(e) => Err(e),
        Ok((tag, rest)) => if tag == 0 {
            match take_request(rest) {
                Err(e) => Err(e),
                Ok((r, rest)) => Ok((ActivityPayloadView::RebaseRequest(r), rest)),
            }
        } else if tag == 1 {
            match take_finished(rest) {
                Err(e) => Err(e),
                Ok((f, rest)) => Ok((ActivityPayloadView::RebaseFinished(f), rest)),
            }
        } else if tag == 2 {
            match take_string(rest) {
                Err(e) => Err(e),
                Ok((name, rest)) => Ok((ActivityPayloadView::IntegrationTest(name), rest)),
            }
        } else if tag == 3 {
            match take_string(rest) {
                Err(e) => Err(e),
                Ok((name, rest)) => Ok((ActivityPayloadView::IntegrationTestAlt(name), rest)),
            }
        } else {
            Err(WireError::BadVariant)
        },
    }
}

/// The bytes of the identifier of a parent, where there is one.
pub open spec fn parent_bytes(parent: Option<ActivityId>) -> Seq<u8> {
    match parent {
        None => option_tag(false),
        Some(id) => option_tag(true) + id_bytes(id@),
    }
}

/// The optional identifier at the head of `bytes` and the bytes after it.
pub open spec fn take_parent(bytes: Seq<u8>) -> Result<(Option<ActivityId>, Seq<u8>), WireError> {
    match take_option_tag(bytes) {
        Err(e) => Err(e),
        Ok((present, rest)) => if present {
            match take_id(rest) {
                Err(e) => Err(e),
                Ok((bits, rest)) => Ok((Some(ActivityId(bits)), rest)),
            }
        } else {
            Ok((None, rest))
        },
    }
}

/// The bytes of an activity.
pub open spec fn activity_bytes(a: ActivityView) -> Seq<u8> {
    id_bytes(a.id@) + payload_bytes(a.payload) + metadata_bytes(a.metadata) + parent_bytes(
        a.parent_activity_id,
    )
}

/// The activity at the head of `bytes` and the bytes after it.
pub open spec fn take_activity(bytes: Seq<u8>) -> Result<(ActivityView, Seq<u8>), WireError> {
    match take_id(bytes) {
        Err(e) => Err(e),
        Ok((id, rest)) => match take_payload(rest) {
            Err(e) => Err(e),
            Ok((payload, rest)) => match take_metadata(rest) {
                Err(e) => Err(e),
                Ok((metadata, rest)) => match take_parent(rest) {
                    Err(e) => Err(e),
                    Ok((parent_activity_id, rest)) => Ok(
                        (
                            ActivityView { id: ActivityId(id), payload, metadata, parent_activity_id },
                            rest,
                        ),
                    ),
                },
            },
        },
    }
}

/// What decoding `bytes` gives: the activity at their head, or the reason
/// why there is none.
pub open spec fn decoded(bytes: Seq<u8>) -> Result<ActivityView, WireError> {
    match take_activity(bytes) {
        Ok((a, _)) => Ok(a),
        Err(e) => Err(e),
    }
}

/// Reading a written payload gives it back, whatever bytes follow.
pub proof fn lemma_take_payload_of_payload(p: ActivityPayloadView, tail: Seq<u8>)
    requires
        payload_fits(p),
    ensures
        take_payload(payload_bytes(p) + tail) == Ok::<(ActivityPayloadView, Seq<u8>), WireError>(
            (p, tail),
        ),
{
    lemma_pow128_values();
    match p {
        ActivityPayloadView::RebaseRequest(r) => {
            assert(payload_bytes(p) + tail =~= varint(0) + (request_bytes(r) + tail));
            lemma_take_varint_of_varint(0, request_bytes(r) + tail, 5, 15);
            lemma_take_request_of_request(r, tail);
        },
        ActivityPayloadView::RebaseFinished(f) => {
            assert(payload_bytes(p) + tail =~= varint(1) + (finished_bytes(f) + tail));
            lemma_take_varint_of_varint(1, finished_bytes(f) + tail, 5, 15);
            lemma_take_finished_of_finished(f, tail);
        },
        ActivityPayloadView::IntegrationTest(name) => {
            assert(payload_bytes(p) + tail =~= varint(2) + (string_bytes(name) + tail));
            lemma_take_varint_of_varint(2, string_bytes(name) + tail, 5, 15);
            lemma_take_string_of_string(name, tail);
        },
        ActivityPayloadView::IntegrationTestAlt(name) => {
            assert(payload_bytes(p) + tail =~= varint(3) + (string_bytes(name) + tail));
            lemma_take_varint_of_varint(3, string_bytes(name) + tail, 5, 15);
            lemma_take_string_of_string(name, tail);
        },
    }
}

/// Reading a written parent gives it back, whatever bytes follow.
pub proof fn lemma_take_parent_of_parent(parent: Option<ActivityId>, tail: Seq<u8>)
    ensures
        take_parent(parent_bytes(parent) + tail) == Ok::<(Option<ActivityId>, Seq<u8>), WireError>(
            (parent, tail),
        ),
{
    match parent {
        None => {
            assert((parent_bytes(parent) + tail).skip(1) =~= tail);
        },
        Some(id) => {
            assert((parent_bytes(parent) + tail).skip(1) =~= id_bytes(id@) + tail);
            lemma_take_id_of_id(id@, tail);
        },
    }
}

/// Decoding inverts encoding: the bytes of an activity, followed by any
/// bytes, decode to that activity and leave those bytes. This holds for every
/// kind of payload, and with and without a parent.
pub proof fn lemma_decode_inverts_encode(a: ActivityView, tail: Seq<u8>)
    requires
        payload_fits(a.payload),
    ensures
        take_activity(activity_bytes(a) + tail) == Ok::<(ActivityView, Seq<u8>), WireError>(
            (a, tail),
        ),
        decoded(activity_bytes(a)) == Ok::<ActivityView, WireError>(a),
    decreases tail.len(),
{
    let after_metadata = parent_bytes(a.parent_activity_id) + tail;
    let after_payload = metadata_bytes(a.metadata) + after_metadata;
    let after_id = payload_bytes(a.payload) + after_payload;
    assert(activity_bytes(a) + tail =~= id_bytes(a.id@) + after_id);
    lemma_take_id_of_id(a.id@, after_id);
    lemma_take_payload_of_payload(a.payload, after_payload);
    lemma_take_metadata_of_metadata(a.metadata, after_metadata);
    lemma_take_parent_of_parent(a.parent_activity_id, tail);
    if tail.len() == 0 {
        assert(activity_bytes(a) + tail =~= activity_bytes(a));
    } else {
        lemma_decode_inverts_encode(a, Seq::empty());
    }
}

/// Appends the bytes of `p` to `out`.
pub fn write_payload(p: &ActivityPayload, out: &mut Vec<u8>)
    ensures
        final(out)@ == old(out)@ + payload_bytes(p@),
        payload_fits(p@),
{
    match p {
        ActivityPayload::RebaseRequest(r) => {
            write_varint(0, out);
            write_request(r, out);
        },
        ActivityPayload::RebaseFinished(f) => {
            write_varint(1, out);
            write_finished(f, out);
        },
        ActivityPayload::IntegrationTest(t) => {
            write_varint(2, out);
            write_string(t.name.as_str(), out);
        },
        ActivityPayload::IntegrationTestAlt(t) => {
            write_varint(3, out);
            write_string(t.name.as_str(), out);
        },
    }
    assert(final(out)@ =~= old(out)@ + payload_bytes(p@));
}

/// Reads a payload at `pos`; gives it with the position after it.
pub fn read_payload(bytes: &[u8], pos: usize) -> (r: Result<(ActivityPayload, usize), WireError>)
    ensures
        match take_payload(tail_from(bytes@, pos)) {
            Ok((payload, rest)) => r matches Ok((v, next)) && v@ == payload && pos < next
                <= bytes.len() && rest == bytes@.skip(next as int),
            Err(e) => r matches Err(got) && got == e,
        },
{
    let (tag, next) = match read_u32(bytes, pos) {
        Ok(read) => read,
        Err(e) => {
            return Err(e);
        },
    };
    if tag == 0 {
        match read_request(bytes, next) {
            Ok((r, next)) => Ok((ActivityPayload::RebaseRequest(r), next)),
            Err(e) => Err(e),
        }
    } else if tag == 1 {
        match read_finished(bytes, next) {
            Ok((f, next)) => Ok((ActivityPayload::RebaseFinished(f), next)),
            Err(e) => Err(e),
        }
    } else if tag == 2 {
        match read_string(bytes, next) {
            Ok((name, next)) => Ok((ActivityPayload::IntegrationTest(IntegrationTest { name }), next)),
            Err(e) => Err(e),
        }
    } else if tag == 3 {
        match read_string(bytes, next) {
            Ok((name, next)) => Ok(
                (ActivityPayload::IntegrationTestAlt(IntegrationTestAlt { name }), next),
            ),
            Err(e) => Err(e),
        }
    } else {
        Err(WireError::BadVariant)
    }
}

/// Appends the bytes of `parent` to `out`.
pub fn write_parent(parent: &Option<ActivityId>, out: &mut Vec<u8>)
    ensures
        final(out)@ == old(out)@ + parent_bytes(*parent),
{
    match parent {
        None => {
            out.push(0);
        },
        Some(id) => {
            out.push(1);
            write_id(id.0, out);
        },
    }
    assert(final(out)@ =~= old(out)@ + parent_bytes(*parent));
}

/// Reads an optional identifier at `pos`; gives it with the position after
/// it.
pub fn read_parent(bytes: &[u8], pos: usize) -> (r: Result<(Option<ActivityId>, usize), WireError>)
    ensures
        match take_parent(tail_from(bytes@, pos)) {
            Ok((parent, rest)) => r matches Ok((v, next)) && v == parent && pos < next
                <= bytes.len() && rest == bytes@.skip(next as int),
            Err(e) => r == Err::<(Option<ActivityId>, usize), WireError>(e),
        },
{
    let (present, next) = match read_option_tag(bytes, pos) {
        Ok(read) => read,
        Err(e) => {
            return Err(e);
        },
    };
    if present {
        match read_id(bytes, next) {
            Ok((bits, next)) => Ok((Some(ActivityId(bits)), next)),
            Err(e) => Err(e),
        }
    } else {
        Ok((None, next))
    }
}

/// The bytes of `activity`. Decoding them gives the activity back.
pub fn to_stdvec(activity: &Activity) -> (bytes: Vec<u8>)
    ensures
        bytes@ == activity_bytes(activity@),
        decoded(bytes@) == Ok::<ActivityView, WireError>(activity@),
{
    let mut out: Vec<u8> = Vec::new();
    write_id(activity.id.0, &mut out);
    write_payload(&activity.payload, &mut out);
    write_metadata(&activity.metadata, &mut out);
    write_parent(&activity.parent_activity_id, &mut out);
    assert(out@ =~= activity_bytes(activity@));
    proof {
        lemma_decode_inverts_encode(activity@, Seq::empty());
    }
    out
}

/// The activity at the head of `bytes`. Bytes after it are ignored; bytes
/// that hold no activity are refused with the reason.
pub fn from_bytes(bytes: &[u8]) -> (r: Result<Activity, WireError>)
    ensures
        match decoded(bytes@) {
            Ok(activity) => r matches Ok(v) && v@ == activity,
            Err(e) => r matches Err(got) && got == e,
        },
{
    assert(bytes@.skip(0) =~= bytes@);
    let (id, next) = match read_id(bytes, 0) {
        Ok(read) => read,
        Err(e) => {
            return Err(e);
        },
    };
    let (payload, next) = match read_payload(bytes, next) {
        Ok(read) => read,
        Err(e) => {
            return Err(e);
        },
    };
    let (metadata, next) = match read_metadata(bytes, next) {
        Ok(read) => read,
        Err(e) => {
            return Err(e);
        },
    };
    let (parent_activity_id, _) = match read_parent(bytes, next) {
        Ok(read) => read,
        Err(e) => {
            return Err(e);
        },
    };
    Ok(Activity { id: ActivityId(id), payload, metadata, parent_activity_id })
}

} // verus!
