//! The values that a cache can hold: those that have a serialized form.
//!
//! The tiers below memory hold every value as bytes. A value is written as
//! `serialized` says and read as `deserialized` says, and reading inverts
//! writing.

use vstd::prelude::*;
use vstd::utf8::encode_utf8;

use crate::wire::{
    blob_bytes, lemma_take_blob_of_blob, lemma_take_string_of_string, read_blob, read_string,
    string_bytes, take_blob, take_string, write_blob, write_string, WireError,
};

verus! {

/// A value with a serialized form.
pub trait CacheValue: View + Sized {
    /// Whether the value can be written. Every value that a program holds
    /// can: this bounds the lengths that a plain value may have.
    spec fn fits(v: Self::V) -> bool;

    /// The bytes of a value.
    spec fn serialized(v: Self::V) -> Seq<u8>;

    /// The value at the head of `bytes`, or the reason why there is none.
    spec fn deserialized(bytes: Seq<u8>) -> Result<Self::V, WireError>;

    /// Reading the bytes of a value gives the value back.
    proof fn lemma_deserialized_inverts_serialized(v: Self::V)
        requires
            Self::fits(v),
        ensures
            Self::deserialized(Self::serialized(v)) == Ok::<Self::V, WireError>(v),
    ;

    /// The bytes of the value.
    fn serialize(&self) -> (bytes: Vec<u8>)
        ensures
            Self::fits(self@),
            bytes@ == Self::serialized(self@),
    ;

    /// The value at the head of `bytes`.
    fn deserialize(bytes: &[u8]) -> (r: Result<Self, WireError>)
        ensures
            match Self::deserialized(bytes@) {
                Ok(v) => r matches Ok(got) && got@ == v,
                Err(e) => r matches Err(got) && got == e,
            },
    ;
}

impl CacheValue for String {
    open spec fn fits(v: Seq<char>) -> bool {
        encode_utf8(v).len() <= u64::MAX
    }

    open spec fn serialized(v: Seq<char>) -> Seq<u8> {
        string_bytes(v)
    }

    open spec fn deserialized(bytes: Seq<u8>) -> Result<Seq<char>, WireError> {
        match take_string(bytes) {
            Ok((text, _)) => Ok(text),
            Err(e) => Err(e),
        }
    }

    proof fn lemma_deserialized_inverts_serialized(v: Seq<char>) {
        lemma_take_string_of_string(v, Seq::empty());
        assert(string_bytes(v) + Seq::<u8>::empty() =~= string_bytes(v));
    }

    fn serialize(&self) -> (bytes: Vec<u8>) {
        let mut out: Vec<u8> = Vec::new();
        write_string(self.as_str(), &mut out);
        assert(out@ =~= string_bytes(self@));
        out
    }

    fn deserialize(bytes: &[u8]) -> (r: Result<String, WireError>) {
        assert(bytes@.skip(0) =~= bytes@);
        match read_string(bytes, 0) {
            Ok((text, _)) => Ok(text),
            Err(e) => Err(e),
        }
    }
}

impl CacheValue for Vec<u8> {
    open spec fn fits(v: Seq<u8>) -> bool {
        v.len() <= u64::MAX
    }

    open spec fn serialized(v: Seq<u8>) -> Seq<u8> {
        blob_bytes(v)
    }

    open spec fn deserialized(bytes: Seq<u8>) -> Result<Seq<u8>, WireError> {
        match take_blob(bytes) {
            Ok((body, _)) => Ok(body),
            Err(e) => Err(e),
        }
    }

    proof fn lemma_deserialized_inverts_serialized(v: Seq<u8>) {
        lemma_take_blob_of_blob(v, Seq::empty());
        assert(blob_bytes(v) + Seq::<u8>::empty() =~= blob_bytes(v));
    }

    fn serialize(&self) -> (bytes: Vec<u8>) {
        let mut out: Vec<u8> = Vec::new();
        write_blob(self.as_slice(), &mut out);
        assert(out@ =~= blob_bytes(self@));
        out
    }

    fn deserialize(bytes: &[u8]) -> (r: Result<Vec<u8>, WireError>) {
        assert(bytes@.skip(0) =~= bytes@);
        match read_blob(bytes, 0) {
            Ok((body, _)) => Ok(body),
            Err(e) => Err(e),
        }
    }
}

} // verus!
