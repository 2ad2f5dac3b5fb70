//! The context that travels with every activity: whose data it concerns, who
//! caused it and when. The bus carries it and never reads it.

use vstd::prelude::*;

use crate::wire::{
    id_bytes, lemma_pow128_values, lemma_take_id_of_id, lemma_take_varint_of_varint, read_id,
    read_u32, read_u64, take_id, tail_from, take_varint, varint, write_id, write_varint, WireError,
};

verus! {

/// The workspace and change set that an event belongs to, each by the 128
/// bits of its identifier.
#[derive(Clone, Copy, Debug, PartialEq, Eq, Structural, Hash)]
pub struct Tenancy {
    pub workspace_pk: u128,
    pub change_set_id: u128,
}

/// Who caused an event.
#[derive(Clone, Copy, Debug, PartialEq, Eq, Structural, Hash)]
pub enum Actor {
    /// The system itself.
    System,
    /// The user with this identifier.
    User(u128),
}

/// Tenancy, actor and time of an event. The time is in milliseconds since the
/// Unix epoch.
#[derive(Clone, Copy, Debug, PartialEq, Eq, Structural, Hash)]
pub struct LayeredEventMetadata {
    pub tenancy: Tenancy,
    pub actor: Actor,
    pub timestamp: u64,
}

impl LayeredEventMetadata {
    /// Metadata with the given fields.
    pub fn new(tenancy: Tenancy, actor: Actor, timestamp: u64) -> (r: LayeredEventMetadata)
        ensures
            r == (LayeredEventMetadata { tenancy, actor, timestamp }),
    {
        LayeredEventMetadata { tenancy, actor, timestamp }
    }
}

/// The bytes of an actor: tag 0 for the system, tag 1 and the identifier for
/// a user.
pub open spec fn actor_bytes(actor: Actor) -> Seq<u8> {
    match actor {
        Actor::System => varint(0),
        Actor::User(id) => varint(1) + id_bytes(id),
    }
}

/// The actor at the head of `bytes` and the bytes after it.
pub open spec fn take_actor(bytes: Seq<u8>) -> Result<(Actor, Seq<u8>), WireError> {
    match take_varint(bytes, 5, 15) {
        Err(e) => Err(e),
        Ok((tag, rest)) => if tag == 0 {
            Ok((Actor::System, rest))
        } else if tag == 1 {
            match take_id(rest) {
                Err(e) => Err(e),
                Ok((id, rest)) => Ok((Actor::User(id), rest)),
            }
        } else {
            Err(WireError::BadVariant)
        },
    }
}

/// The bytes of the metadata: the two identifiers of the tenancy, the actor,
/// the time.
pub open spec fn metadata_bytes(m: LayeredEventMetadata) -> Seq<u8> {
    id_bytes(m.tenancy.workspace_pk) + id_bytes(m.tenancy.change_set_id) + actor_bytes(m.actor)
        + varint(m.timestamp as nat)
}

/// The metadata at the head of `bytes` and the bytes after it.
pub open spec fn take_metadata(bytes: Seq<u8>) -> Result<(LayeredEventMetadata, Seq<u8>), WireError> {
    match take_id(bytes) {
        Err(e) => Err(e),
        Ok((workspace_pk, rest)) => match take_id(rest) {
            Err(e) => Err(e),
            Ok((change_set_id, rest)) => match take_actor(rest) {
                Err(e) => Err(e),
                Ok((actor, rest)) => match take_varint(rest, 10, 1) {
                    Err(e) => Err(e),
                    Ok((timestamp, rest)) => Ok(
                        (
                            LayeredEventMetadata {
                                tenancy: Tenancy { workspace_pk, change_set_id },
                                actor,
                                timestamp: timestamp as u64,
                            },
                            rest,
                        ),
                    ),
                },
            },
        },
    }
}

/// Reading a written actor gives it back, whatever bytes follow.
pub proof fn lemma_take_actor_of_actor(actor: Actor, tail: Seq<u8>)
    ensures
        take_actor(actor_bytes(actor) + tail) == Ok::<(Actor, Seq<u8>), WireError>((actor, tail)),
{
    lemma_pow128_values();
    match actor {
        Actor::System => {
            lemma_take_varint_of_varint(0, tail, 5, 15);
        },
        Actor::User(id) => {
            assert(actor_bytes(actor) + tail =~= varint(1) + (id_bytes(id) + tail));
            lemma_take_varint_of_varint(1, id_bytes(id) + tail, 5, 15);
            lemma_take_id_of_id(id, tail);
        },
    }
}

/// Reading written metadata gives it back, whatever bytes follow.
pub proof fn lemma_take_metadata_of_metadata(m: LayeredEventMetadata, tail: Seq<u8>)
    ensures
        take_metadata(metadata_bytes(m) + tail) == Ok::<(LayeredEventMetadata, Seq<u8>), WireError>(
            (m, tail),
        ),
{
    let time = varint(m.timestamp as nat);
    let after_actor = time + tail;
    let after_change_set = actor_bytes(m.actor) + after_actor;
    let after_workspace = id_bytes(m.tenancy.change_set_id) + after_change_set;
    let all = metadata_bytes(m) + tail;
    assert(all =~= id_bytes(m.tenancy.workspace_pk) + after_workspace);
    lemma_take_id_of_id(m.tenancy.workspace_pk, after_workspace);
    assert(take_id(all) == Ok::<(u128, Seq<u8>), WireError>(
        (m.tenancy.workspace_pk, after_workspace),
    ));
    lemma_take_id_of_id(m.tenancy.change_set_id, after_change_set);
    assert(take_id(after_workspace) == Ok::<(u128, Seq<u8>), WireError>(
        (m.tenancy.change_set_id, after_change_set),
    ));
    lemma_take_actor_of_actor(m.actor, after_actor);
    assert(take_actor(after_change_set) == Ok::<(Actor, Seq<u8>), WireError>(
        (m.actor, after_actor),
    ));
    lemma_pow128_values();
    lemma_take_varint_of_varint(m.timestamp as nat, tail, 10, 1);
    assert(take_varint(after_actor, 10, 1) == Ok::<(nat, Seq<u8>), WireError>(
        (m.timestamp as nat, tail),
    ));
}

/// Appends the bytes of `actor` to `out`.
pub fn write_actor(actor: &Actor, out: &mut Vec<u8>)
    ensures
        final(out)@ == old(out)@ + actor_bytes(*actor),
{
    match actor {
        Actor::System => {
            write_varint(0, out);
        },
        Actor::User(id) => {
            write_varint(1, out);
            write_id(*id, out);
            assert(final(out)@ =~= old(out)@ + actor_bytes(*actor));
        },
    }
}

/// Reads an actor at `pos`; gives it with the position after it.
pub fn read_actor(bytes: &[u8], pos: usize) -> (r: Result<(Actor, usize), WireError>)
    ensures
        match take_actor(tail_from(bytes@, pos)) {
            Ok((actor, rest)) => r matches Ok((v, next)) && v == actor && pos < next <= bytes.len()
                && rest == bytes@.skip(next as int),
            Err(e) => r == Err::<(Actor, usize), WireError>(e),
        },
{
    let (tag, next) = match read_u32(bytes, pos) {
        Ok(read) => read,
        Err(e) => {
            return Err(e);
        },
    };
    if tag == 0 {
        Ok((Actor::System, next))
    } else if tag == 1 {
        match read_id(bytes, next) {
            Ok((id, next)) => Ok((Actor::User(id), next)),
            Err(e) => Err(e),
        }
    } else {
        Err(WireError::BadVariant)
    }
}

/// Appends the bytes of `m` to `out`.
pub fn write_metadata(m: &LayeredEventMetadata, out: &mut Vec<u8>)
    ensures
        final(out)@ == old(out)@ + metadata_bytes(*m),
{
    write_id(m.tenancy.workspace_pk, out);
    write_id(m.tenancy.change_set_id, out);
    write_actor(&m.actor, out);
    write_varint(m.timestamp, out);
    assert(final(out)@ =~= old(out)@ + metadata_bytes(*m));
}

/// Reads metadata at `pos`; gives it with the position after it.
pub fn read_metadata(bytes: &[u8], pos: usize) -> (r: Result<(LayeredEventMetadata, usize), WireError>)
    ensures
        match take_metadata(tail_from(bytes@, pos)) {
            Ok((m, rest)) => r matches Ok((v, next)) && v == m && pos < next <= bytes.len() && rest
                == bytes@.skip(next as int),
            Err(e) => r == Err::<(LayeredEventMetadata, usize), WireError>(e),
        },
{
    let (workspace_pk, next) = match read_id(bytes, pos) {
        Ok(read) => read,
        Err(e) => {
            return Err(e);
        },
    };
    let (change_set_id, next) = match read_id(bytes, next) {
        Ok(read) => read,
        Err(e) => {
            return Err(e);
        },
    };
    let (actor, next) = match read_actor(bytes, next) {
        Ok(read) => read,
        Err(e) => {
            return Err(e);
        },
    };
    let (timestamp, next) = match read_u64(bytes, next) {
        Ok(read) => read,
        Err(e) => {
            return Err(e);
        },
    };
    Ok((LayeredEventMetadata { tenancy: Tenancy { workspace_pk, change_set_id }, actor, timestamp }, next))
}

} // verus!
