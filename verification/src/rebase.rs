//! What a rebase request and its answer carry.

use vstd::prelude::*;

use crate::wire::{
    id_bytes, lemma_pow128_values, lemma_take_id_of_id, lemma_take_string_of_string,
    lemma_take_varint_of_varint, read_id, read_string, read_u32, read_u64, string_bytes, take_id,
    take_string, tail_from, take_varint, varint, write_id, write_string, write_varint, WireError,
};

verus! {

/// A request to rebase one change set onto a workspace snapshot.
#[derive(Clone, Debug, PartialEq, Eq)]
pub struct RebaseRequest {
    /// The change set to rebase, by the 128 bits of its identifier.
    pub to_rebase_change_set_id: u128,
    /// The address of the snapshot to rebase onto.
    pub onto_workspace_snapshot_address: String,
    /// The vector clock of the snapshot to rebase onto.
    pub onto_vector_clock_id: u128,
}

/// A `RebaseRequest` as plain values.
pub struct RebaseRequestView {
    pub to_rebase_change_set_id: u128,
    pub onto_workspace_snapshot_address: Seq<char>,
    pub onto_vector_clock_id: u128,
}

impl View for RebaseRequest {
    type V = RebaseRequestView;

    open spec fn view(&self) -> RebaseRequestView {
        RebaseRequestView {
            to_rebase_change_set_id: self.to_rebase_change_set_id,
            onto_workspace_snapshot_address: self.onto_workspace_snapshot_address@,
            onto_vector_clock_id: self.onto_vector_clock_id,
        }
    }
}

/// How a rebase ended.
#[derive(Clone, Debug, PartialEq, Eq)]
pub enum RebaseStatus {
    /// The rebase was performed.
    Success { updates_performed: u64 },
    /// The rebase met conflicts and was not performed.
    ConflictsFound { conflicts_found: u64, updates_found_and_skipped: u64 },
    /// The rebase failed.
    Error { message: String },
}

/// A `RebaseStatus` as plain values.
pub enum RebaseStatusView {
    Success { updates_performed: u64 },
    ConflictsFound { conflicts_found: u64, updates_found_and_skipped: u64 },
    Error { message: Seq<char> },
}

impl View for RebaseStatus {
    type V = RebaseStatusView;

    open spec fn view(&self) -> RebaseStatusView {
        match self {
            RebaseStatus::Success { updates_performed } => RebaseStatusView::Success {
                updates_performed: *updates_performed,
            },
            RebaseStatus::ConflictsFound {
                conflicts_found,
                updates_found_and_skipped,
            } => RebaseStatusView::ConflictsFound {
                conflicts_found: *conflicts_found,
                updates_found_and_skipped: *updates_found_and_skipped,
            },
            RebaseStatus::Error { message } => RebaseStatusView::Error { message: message@ },
        }
    }
}

/// The answer to a rebase request.
#[derive(Clone, Debug, PartialEq, Eq)]
pub struct RebaseFinished {
    status: RebaseStatus,
    to_rebase_change_set_id: u128,
    onto_workspace_snapshot_address: String,
}

/// A `RebaseFinished` as plain values.
pub struct RebaseFinishedView {
    pub status: RebaseStatusView,
    pub to_rebase_change_set_id: u128,
    pub onto_workspace_snapshot_address: Seq<char>,
}

impl View for RebaseFinished {
    type V = RebaseFinishedView;

    closed spec fn view(&self) -> RebaseFinishedView {
        RebaseFinishedView {
            status: self.status@,
            to_rebase_change_set_id: self.to_rebase_change_set_id,
            onto_workspace_snapshot_address: self.onto_workspace_snapshot_address@,
        }
    }
}

impl RebaseFinished {
    /// The answer with the given fields.
    pub fn new(
        status: RebaseStatus,
        to_rebase_change_set_id: u128,
        onto_workspace_snapshot_address: String,
    ) -> (r: RebaseFinished)
        ensures
            r@ == (RebaseFinishedView {
                status: status@,
                to_rebase_change_set_id,
                onto_workspace_snapshot_address: onto_workspace_snapshot_address@,
            }),
    {
        RebaseFinished { status, to_rebase_change_set_id, onto_workspace_snapshot_address }
    }

    /// How the rebase ended.
    pub fn status(&self) -> (r: &RebaseStatus)
        ensures
            r@ == self@.status,
    {
        &self.status
    }

    /// The change set that was to be rebased.
    pub fn to_rebase_change_set_id(&self) -> (r: u128)
        ensures
            r == self@.to_rebase_change_set_id,
    {
        self.to_rebase_change_set_id
    }

    /// The address of the snapshot that it was to be rebased onto.
    pub fn onto_workspace_snapshot_address(&self) -> (r: &String)
        ensures
            r@ == self@.onto_workspace_snapshot_address,
    {
        &self.onto_workspace_snapshot_address
    }
}

/// Whether every string of the request can be written: its UTF-8 must have a
/// length of 64 bits. Every request that a program holds does.
pub open spec fn request_fits(r: RebaseRequestView) -> bool {
    vstd::utf8::encode_utf8(r.onto_workspace_snapshot_address).len() <= u64::MAX
}

/// Whether every string of the status can be written.
pub open spec fn status_fits(s: RebaseStatusView) -> bool {
    s matches RebaseStatusView::Error { message } ==> vstd::utf8::encode_utf8(message).len()
        <= u64::MAX
}

/// Whether every string of the answer can be written.
pub open spec fn finished_fits(f: RebaseFinishedView) -> bool {
    status_fits(f.status) && vstd::utf8::encode_utf8(f.onto_workspace_snapshot_address).len()
        <= u64::MAX
}

/// The bytes of a request: its three fields in order.
pub open spec fn request_bytes(r: RebaseRequestView) -> Seq<u8> {
    id_bytes(r.to_rebase_change_set_id) + string_bytes(r.onto_workspace_snapshot_address)
        + id_bytes(r.onto_vector_clock_id)
}

/// The request at the head of `bytes` and the bytes after it.
pub open spec fn take_request(bytes: Seq<u8>) -> Result<(RebaseRequestView, Seq<u8>), WireError> {
    match take_id(bytes) {
        Err(e) => Err(e),
        Ok((to_rebase_change_set_id, rest)) => match take_string(rest) {
            Err(e) => Err(e),
            Ok((onto_workspace_snapshot_address, rest)) => match take_id(rest) {
                Err(e) => Err(e),
                Ok((onto_vector_clock_id, rest)) => Ok(
                    (
                        RebaseRequestView {
                            to_rebase_change_set_id,
                            onto_workspace_snapshot_address,
                            onto_vector_clock_id,
                        },
                        rest,
                    ),
                ),
            },
        },
    }
}

/// The bytes of a status: the tag of its variant, 0 to 2, then its fields.
pub open spec fn status_bytes(s: RebaseStatusView) -> Seq<u8> {
    match s {
        RebaseStatusView::Success { updates_performed } => varint(0) + varint(
            updates_performed as nat,
        ),
        RebaseStatusView::ConflictsFound { conflicts_found, updates_found_and_skipped } => varint(1)
            + varint(conflicts_found as nat) + varint(updates_found_and_skipped as nat),
        RebaseStatusView::Error { message } => varint(2) + string_bytes(message),
    }
}

/// The status at the head of `bytes` and the bytes after it.
pub open spec fn take_status(bytes: Seq<u8>) -> Result<(RebaseStatusView, Seq<u8>), WireError> {
    match take_varint(bytes, 5, 15) {
        Err(e) => Err(e),
        Ok((tag, rest)) => if tag == 0 {
            match take_varint(rest, 10, 1) {
                Err(e) => Err(e),
                Ok((n, rest)) => Ok(
                    (RebaseStatusView::Success { updates_performed: n as u64 }, rest),
                ),
            }
        } else if tag == 1 {
            match take_varint(rest, 10, 1) {
                Err(e) => Err(e),
                Ok((found, rest)) => match take_varint(rest, 10, 1) {
                    Err(e) => Err(e),
                    Ok((skipped, rest)) => Ok(
                        (
                            RebaseStatusView::ConflictsFound {
                                conflicts_found: found as u64,
                                updates_found_and_skipped: skipped as u64,
                            },
                            rest,
                        ),
                    ),
                },
            }
        } else if tag == 2 {
            match take_string(rest) {
                Err(e) => Err(e),
                Ok((message, rest)) => Ok((RebaseStatusView::Error { message }, rest)),
            }
        } else {
            Err(WireError::BadVariant)
        },
    }
}

/// The bytes of an answer: its three fields in order.
pub open spec fn finished_bytes(f: RebaseFinishedView) -> Seq<u8> {
    status_bytes(f.status) + id_bytes(f.to_rebase_change_set_id) + string_bytes(
        f.onto_workspace_snapshot_address,
    )
}

/// The answer at the head of `bytes` and the bytes after it.
pub open spec fn take_finished(bytes: Seq<u8>) -> Result<(RebaseFinishedView, Seq<u8>), WireError> {
    match take_status(bytes) {
        Err(e) => Err(e),
        Ok((status, rest)) => match take_id(rest) {
            Err(e) => Err(e),
            Ok((to_rebase_change_set_id, rest)) => match take_string(rest) {
                Err(e) => Err(e),
                Ok((onto_workspace_snapshot_address, rest)) => Ok(
                    (
                        RebaseFinishedView {
                            status,
                            to_rebase_change_set_id,
                            onto_workspace_snapshot_address,
                        },
                        rest,
                    ),
                ),
            },
        },
    }
}

/// Reading a written request gives it back, whatever bytes follow.
pub proof fn lemma_take_request_of_request(r: RebaseRequestView, tail: Seq<u8>)
    requires
        request_fits(r),
    ensures
        take_request(request_bytes(r) + tail) == Ok::<(RebaseRequestView, Seq<u8>), WireError>(
            (r, tail),
        ),
{
    let after_address = id_bytes(r.onto_vector_clock_id) + tail;
    let after_change_set = string_bytes(r.onto_workspace_snapshot_address) + after_address;
    assert(request_bytes(r) + tail =~= id_bytes(r.to_rebase_change_set_id) + after_change_set);
    lemma_take_id_of_id(r.to_rebase_change_set_id, after_change_set);
    lemma_take_string_of_string(r.onto_workspace_snapshot_address, after_address);
    lemma_take_id_of_id(r.onto_vector_clock_id, tail);
}

/// Reading a written status gives it back, whatever bytes follow.
pub proof fn lemma_take_status_of_status(s: RebaseStatusView, tail: Seq<u8>)
    requires
        status_fits(s),
    ensures
        take_status(status_bytes(s) + tail) == Ok::<(RebaseStatusView, Seq<u8>), WireError>(
            (s, tail),
        ),
{
    lemma_pow128_values();
    match s {
        RebaseStatusView::Success { updates_performed } => {
            let rest = varint(updates_performed as nat) + tail;
            assert(status_bytes(s) + tail =~= varint(0) + rest);
            lemma_take_varint_of_varint(0, rest, 5, 15);
            lemma_take_varint_of_varint(updates_performed as nat, tail, 10, 1);
        },
        RebaseStatusView::ConflictsFound { conflicts_found, updates_found_and_skipped } => {
            let after_found = varint(updates_found_and_skipped as nat) + tail;
            let rest = varint(conflicts_found as nat) + after_found;
            assert(status_bytes(s) + tail =~= varint(1) + rest);
            lemma_take_varint_of_varint(1, rest, 5, 15);
            lemma_take_varint_of_varint(conflicts_found as nat, after_found, 10, 1);
            lemma_take_varint_of_varint(updates_found_and_skipped as nat, tail, 10, 1);
        },
        RebaseStatusView::Error { message } => {
            let rest = string_bytes(message) + tail;
            assert(status_bytes(s) + tail =~= varint(2) + rest);
            lemma_take_varint_of_varint(2, rest, 5, 15);
            lemma_take_string_of_string(message, tail);
        },
    }
}

/// Reading a written answer gives it back, whatever bytes follow.
pub proof fn lemma_take_finished_of_finished(f: RebaseFinishedView, tail: Seq<u8>)
    requires
        finished_fits(f),
    ensures
        take_finished(finished_bytes(f) + tail) == Ok::<(RebaseFinishedView, Seq<u8>), WireError>(
            (f, tail),
        ),
{
    let after_change_set = string_bytes(f.onto_workspace_snapshot_address) + tail;
    let after_status = id_bytes(f.to_rebase_change_set_id) + after_change_set;
    assert(finished_bytes(f) + tail =~= status_bytes(f.status) + after_status);
    lemma_take_status_of_status(f.status, after_status);
    lemma_take_id_of_id(f.to_rebase_change_set_id, after_change_set);
    lemma_take_string_of_string(f.onto_workspace_snapshot_address, tail);
}

/// Appends the bytes of `r` to `out`.
pub fn write_request(r: &RebaseRequest, out: &mut Vec<u8>)
    ensures
        final(out)@ == old(out)@ + request_bytes(r@),
        request_fits(r@),
{
    write_id(r.to_rebase_change_set_id, out);
    write_string(r.onto_workspace_snapshot_address.as_str(), out);
    write_id(r.onto_vector_clock_id, out);
    assert(final(out)@ =~= old(out)@ + request_bytes(r@));
}

/// Reads a request at `pos`; gives it with the position after it.
pub fn read_request(bytes: &[u8], pos: usize) -> (r: Result<(RebaseRequest, usize), WireError>)
    ensures
        match take_request(tail_from(bytes@, pos)) {
            Ok((request, rest)) => r matches Ok((v, next)) && v@ == request && pos < next
                <= bytes.len() && rest == bytes@.skip(next as int),
            Err(e) => r matches Err(got) && got == e,
        },
{
    let (to_rebase_change_set_id, next) = match read_id(bytes, pos) {
        Ok(read) => read,
        Err(e) => {
            return Err(e);
        },
    };
    let (onto_workspace_snapshot_address, next) = match read_string(bytes, next) {
        Ok(read) => read,
        Err(e) => {
            return Err(e);
        },
    };
    let (onto_vector_clock_id, next) = match read_id(bytes, next) {
        Ok(read) => read,
        Err(e) => {
            return Err(e);
        },
    };
    Ok(
        (
            RebaseRequest {
                to_rebase_change_set_id,
                onto_workspace_snapshot_address,
                onto_vector_clock_id,
            },
            next,
        ),
    )
}

/// Appends the bytes of `s` to `out`.
pub fn write_status(s: &RebaseStatus, out: &mut Vec<u8>)
    ensures
        final(out)@ == old(out)@ + status_bytes(s@),
        status_fits(s@),
{
    match s {
        RebaseStatus::Success { updates_performed } => {
            write_varint(0, out);
            write_varint(*updates_performed, out);
        },
        RebaseStatus::ConflictsFound { conflicts_found, updates_found_and_skipped } => {
            write_varint(1, out);
            write_varint(*conflicts_found, out);
            write_varint(*updates_found_and_skipped, out);
        },
        RebaseStatus::Error { message } => {
            write_varint(2, out);
            write_string(message.as_str(), out);
        },
    }
    assert(final(out)@ =~= old(out)@ + status_bytes(s@));
}

/// Reads a status at `pos`; gives it with the position after it.
pub fn read_status(bytes: &[u8], pos: usize) -> (r: Result<(RebaseStatus, usize), WireError>)
    ensures
        match take_status(tail_from(bytes@, pos)) {
            Ok((status, rest)) => r matches Ok((v, next)) && v@ == status && pos < next
                <= bytes.len() && rest == bytes@.skip(next as int),
            Err(e) => r matches Err(got) && got == e,
        },
{
    let (tag, next) = match read_u32(bytes, pos) {
        Ok(read) => read,
        Err(e) => {
            return Err(e);
        },
    };
    if tag == 0 {
        match read_u64(bytes, next) {
            Ok((updates_performed, next)) => Ok((RebaseStatus::Success { updates_performed }, next)),
            Err(e) => Err(e),
        }
    } else if tag == 1 {
        let (conflicts_found, next) = match read_u64(bytes, next) {
            Ok(read) => read,
            Err(e) => {
                return Err(e);
            },
        };
        match read_u64(bytes, next) {
            Ok((updates_found_and_skipped, next)) => Ok(
                (RebaseStatus::ConflictsFound { conflicts_found, updates_found_and_skipped }, next),
            ),
            Err(e) => Err(e),
        }
    } else if tag == 2 {
        match read_string(bytes, next) {
            Ok((message, next)) => Ok((RebaseStatus::Error { message }, next)),
            Err(e) => Err(e),
        }
    } else {
        Err(WireError::BadVariant)
    }
}

/// Appends the bytes of `f` to `out`.
pub fn write_finished(f: &RebaseFinished, out: &mut Vec<u8>)
    ensures
        final(out)@ == old(out)@ + finished_bytes(f@),
        finished_fits(f@),
{
    write_status(&f.status, out);
    write_id(f.to_rebase_change_set_id, out);
    write_string(f.onto_workspace_snapshot_address.as_str(), out);
    assert(final(out)@ =~= old(out)@ + finished_bytes(f@));
}

/// Reads an answer at `pos`; gives it with the position after it.
pub fn read_finished(bytes: &[u8], pos: usize) -> (r: Result<(RebaseFinished, usize), WireError>)
    ensures
        match take_finished(tail_from(bytes@, pos)) {
            Ok((finished, rest)) => r matches Ok((v, next)) && v@ == finished && pos < next
                <= bytes.len() && rest == bytes@.skip(next as int),
            Err(e) => r matches Err(got) && got == e,
        },
{
    let (status, next) = match read_status(bytes, pos) {
        Ok(read) => read,
        Err(e) => {
            return Err(e);
        },
    };
    let (to_rebase_change_set_id, next) = match read_id(bytes, next) {
        Ok(read) => read,
        Err(e) => {
            return Err(e);
        },
    };
    let (onto_workspace_snapshot_address, next) = match read_string(bytes, next) {
        Ok(read) => read,
        Err(e) => {
            return Err(e);
        },
    };
    Ok((RebaseFinished { status, to_rebase_change_set_id, onto_workspace_snapshot_address }, next))
}

} // verus!
