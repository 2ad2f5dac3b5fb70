//! The primitives of the wire format: variable-length integers, byte
//! strings, strings, identifiers and the tag of an optional value.
//!
//! An integer is written seven bits to a byte, lowest first, with the high
//! bit of a byte saying that another byte follows. A byte string is its
//! length, then its bytes, and a string is its UTF-8 as a byte string. An
//! identifier is its 26-symbol text as a string. An optional value is one
//! byte, 0 or 1, then the value where the byte is 1.
//!
//! Every reader is stated as a function from the bytes to the value read and
//! the bytes that follow it, and proved to return what its writer wrote.

use vstd::prelude::*;
use vstd::utf8::{decode_utf8, encode_utf8, valid_utf8};

use crate::base32;

verus! {

/// Why bytes were refused.
#[derive(Clone, Copy, Debug, PartialEq, Eq, Structural)]
pub enum WireError {
    /// The bytes end inside a value.
    UnexpectedEnd,
    /// An integer runs past its longest form, or past the width of its type.
    BadVarint,
    /// The tag of an optional value is neither 0 nor 1.
    BadOption,
    /// A string is not UTF-8.
    BadUtf8,
    /// The tag of a tagged union names no variant.
    BadVariant,
    /// The text of an identifier is not 26 bytes long.
    BadIdLength,
    /// The text of an identifier holds a character that is no symbol.
    BadIdChar,
}

/// Longest form of a 64-bit integer, in bytes.
pub const U64_LIMIT: u8 = 10;

/// Greatest value of the tenth byte of a 64-bit integer.
pub const U64_TOP: u8 = 1;

/// Longest form of a 32-bit integer, in bytes.
pub const U32_LIMIT: u8 = 5;

/// Greatest value of the fifth byte of a 32-bit integer.
pub const U32_TOP: u8 = 15;

/// The bytes of the integer `n`.
#[verifier::opaque]
pub open spec fn varint(n: nat) -> Seq<u8>
    decreases n,
{
    if n < 128 {
        seq![n as u8]
    } else {
        seq![(n % 128 + 128) as u8] + varint(n / 128)
    }
}

/// The integer at the head of `bytes` and the bytes after it. At most `limit`
/// bytes are read, and the last of `limit` bytes may not exceed `top`.
#[verifier::opaque]
pub open spec fn take_varint(bytes: Seq<u8>, limit: nat, top: u8) -> Result<(nat, Seq<u8>), WireError>
    decreases limit,
{
    if limit == 0 {
        Err(WireError::BadVarint)
    } else if bytes.len() == 0 {
        Err(WireError::UnexpectedEnd)
    } else if bytes[0] < 128 {
        if limit == 1 && bytes[0] > top {
            Err(WireError::BadVarint)
        } else {
            Ok((bytes[0] as nat, bytes.skip(1)))
        }
    } else {
        match take_varint(bytes.skip(1), (limit - 1) as nat, top) {
            Ok((high, rest)) => Ok(((bytes[0] - 128) as nat + 128 * high, rest)),
            Err(e) => Err(e),
        }
    }
}

/// 128 to the power `n`.
pub open spec fn pow128(n: nat) -> nat
    decreases n,
{
    if n == 0 {
        1
    } else {
        128 * pow128((n - 1) as nat)
    }
}

/// An integer that was read is below `(top + 1) * 128^(limit - 1)`, and the
/// bytes after it are a proper suffix of the input.
pub proof fn lemma_take_varint_bound(bytes: Seq<u8>, limit: nat, top: u8)
    requires
        take_varint(bytes, limit, top) is Ok,
    ensures
        limit >= 1,
        take_varint(bytes, limit, top).unwrap().0 < (top + 1) * pow128((limit - 1) as nat),
        exists|used: int|
            1 <= used <= limit && used <= bytes.len() && take_varint(bytes, limit, top).unwrap().1
                == #[trigger] bytes.skip(used),
    decreases limit,
{
    reveal(take_varint);
    let p = pow128((limit - 1) as nat);
    lemma_pow128_positive((limit - 1) as nat);
    if bytes[0] < 128 {
        assert(take_varint(bytes, limit, top).unwrap().1 == bytes.skip(1));
        if limit == 1 {
            assert(p == 1);
            assert((top + 1) * p == top + 1) by (nonlinear_arith)
                requires
                    p == 1,
            ;
        } else {
            assert(p == 128 * pow128((limit - 2) as nat));
            lemma_pow128_positive((limit - 2) as nat);
            assert((top + 1) * p >= 128) by (nonlinear_arith)
                requires
                    top >= 0,
                    p >= 128,
            ;
        }
    } else {
        let tail = bytes.skip(1);
        lemma_take_varint_bound(tail, (limit - 1) as nat, top);
        let high = take_varint(tail, (limit - 1) as nat, top).unwrap().0;
        let q = pow128((limit - 2) as nat);
        assert(p == 128 * q);
        assert(128 * high + 128 <= 128 * ((top + 1) * q)) by (nonlinear_arith)
            requires
                high < (top + 1) * q,
        ;
        assert(128 * ((top + 1) * q) == (top + 1) * (128 * q)) by (nonlinear_arith);
        let used = choose|used: int|
            1 <= used <= limit - 1 && used <= tail.len() && take_varint(
                tail,
                (limit - 1) as nat,
                top,
            ).unwrap().1 == #[trigger] tail.skip(used);
        assert(tail.skip(used) =~= bytes.skip(used + 1));
    }
}

proof fn lemma_pow128_positive(n: nat)
    ensures
        pow128(n) >= 1,
    decreases n,
{
    if n > 0 {
        lemma_pow128_positive((n - 1) as nat);
    }
}

/// The values of `pow128` that bound the integers of 32 and 64 bits.
pub proof fn lemma_pow128_values()
    ensures
        pow128(4) == 0x1000_0000,
        pow128(9) == 0x8000_0000_0000_0000,
{
    reveal_with_fuel(pow128, 10);
}

/// Reading what was written gives the integer back, whatever bytes follow,
/// as long as the integer fits the width that `limit` and `top` describe.
pub proof fn lemma_take_varint_of_varint(n: nat, tail: Seq<u8>, limit: nat, top: u8)
    requires
        limit >= 1,
        n < (top + 1) * pow128((limit - 1) as nat),
        top < 128,
    ensures
        take_varint(varint(n) + tail, limit, top) == Ok::<(nat, Seq<u8>), WireError>((n, tail)),
    decreases limit,
{
    reveal(varint);
    reveal(take_varint);
    let bytes = varint(n) + tail;
    if n < 128 {
        assert(bytes[0] == n as u8);
        assert(bytes.skip(1) =~= tail);
        if limit == 1 {
            assert(pow128(0) == 1);
            assert((top + 1) * pow128(0) == top + 1) by (nonlinear_arith)
                requires
                    pow128(0) == 1,
            ;
        }
    } else {
        let p = pow128((limit - 1) as nat);
        if limit == 1 {
            assert(p == 1);
            assert((top + 1) * p == top + 1) by (nonlinear_arith)
                requires
                    p == 1,
            ;
            assert(false);
        }
        let q = pow128((limit - 2) as nat);
        assert(p == 128 * q);
        assert(bytes[0] == (n % 128 + 128) as u8);
        assert(bytes.skip(1) =~= varint(n / 128) + tail);
        assert(n / 128 < (top + 1) * q) by (nonlinear_arith)
            requires
                n < (top + 1) * (128 * q),
        ;
        lemma_take_varint_of_varint(n / 128, tail, (limit - 1) as nat, top);
        assert((n % 128) + 128 * (n / 128) == n);
    }
}

/// Appends the bytes of `n` to `out`.
pub fn write_varint(n: u64, out: &mut Vec<u8>)
    ensures
        final(out)@ == old(out)@ + varint(n as nat),
    decreases n,
{
    proof {
        reveal(varint);
    }
    if n < 128 {
        out.push(n as u8);
    } else {
        out.push((n % 128 + 128) as u8);
        write_varint(n / 128, out);
        assert(final(out)@ =~= old(out)@ + varint(n as nat));
    }
}

/// The bytes of `bytes` from `pos` on. Past the end there are none.
pub open spec fn tail_from(bytes: Seq<u8>, pos: usize) -> Seq<u8> {
    if pos <= bytes.len() {
        bytes.skip(pos as int)
    } else {
        Seq::empty()
    }
}

/// Reads an integer of the width that `limit` and `top` describe.
fn read_varint(bytes: &[u8], pos: usize, limit: u8, top: u8) -> (r: Result<(u64, usize), WireError>)
    requires
        limit >= 1,
        (top + 1) * pow128((limit - 1) as nat) <= 0x1_0000_0000_0000_0000,
    ensures
        match take_varint(tail_from(bytes@, pos), limit as nat, top) {
            Ok((n, rest)) => r matches Ok((v, next)) && v == n && pos < next <= bytes.len() && rest
                == bytes@.skip(next as int),
            Err(e) => r == Err::<(u64, usize), WireError>(e),
        },
    decreases limit,
{
    proof {
        reveal(take_varint);
    }
    let ghost here = tail_from(bytes@, pos);
    if pos >= bytes.len() {
        return Err(WireError::UnexpectedEnd);
    }
    let first: u8 = bytes[pos];
    assert(here[0] == first);
    assert(here.skip(1) =~= bytes@.skip(pos + 1));
    if first < 128 {
        if limit == 1 && first > top {
            Err(WireError::BadVarint)
        } else {
            Ok((first as u64, pos + 1))
        }
    } else if limit == 1 {
        Err(WireError::BadVarint)
    } else {
        let ghost q = pow128((limit - 2) as nat);
        assert(pow128((limit - 1) as nat) == 128 * q);
        assert((top + 1) * q <= 0x1_0000_0000_0000_0000) by (nonlinear_arith)
            requires
                (top + 1) * (128 * q) <= 0x1_0000_0000_0000_0000,
                q >= 0,
        ;
        match read_varint(bytes, pos + 1, limit - 1, top) {
            Ok((high, next)) => {
                proof {
                    lemma_take_varint_bound(here.skip(1), (limit - 1) as nat, top);
                    assert(128 * high + 128 <= 0x1_0000_0000_0000_0000) by (nonlinear_arith)
                        requires
                            high < (top + 1) * q,
                            (top + 1) * (128 * q) <= 0x1_0000_0000_0000_0000,
                    ;
                }
                Ok(((first - 128) as u64 + 128 * high, next))
            },
            Err(e) => Err(e),
        }
    }
}

/// Reads a 64-bit integer at `pos`; gives it with the position after it.
pub fn read_u64(bytes: &[u8], pos: usize) -> (r: Result<(u64, usize), WireError>)
    ensures
        match take_varint(tail_from(bytes@, pos), 10, 1) {
            Ok((n, rest)) => r matches Ok((v, next)) && v == n && pos < next <= bytes.len() && rest
                == bytes@.skip(next as int),
            Err(e) => r == Err::<(u64, usize), WireError>(e),
        },
{
    proof {
        lemma_pow128_values();
    }
    read_varint(bytes, pos, U64_LIMIT, U64_TOP)
}

/// Reads a 32-bit integer at `pos`; gives it with the position after it.
pub fn read_u32(bytes: &[u8], pos: usize) -> (r: Result<(u32, usize), WireError>)
    ensures
        match take_varint(tail_from(bytes@, pos), 5, 15) {
            Ok((n, rest)) => r matches Ok((v, next)) && v == n && pos < next <= bytes.len() && rest
                == bytes@.skip(next as int),
            Err(e) => r == Err::<(u32, usize), WireError>(e),
        },
{
    proof {
        lemma_pow128_values();
        lemma_take_varint_bound_if_ok(tail_from(bytes@, pos), 5, 15);
    }
    match read_varint(bytes, pos, U32_LIMIT, U32_TOP) {
        Ok((v, next)) => Ok((v as u32, next)),
        Err(e) => Err(e),
    }
}

proof fn lemma_take_varint_bound_if_ok(bytes: Seq<u8>, limit: nat, top: u8)
    ensures
        take_varint(bytes, limit, top) matches Ok((n, _)) ==> n < (top + 1) * pow128(
            (limit - 1) as nat,
        ),
{
    if take_varint(bytes, limit, top) is Ok {
        lemma_take_varint_bound(bytes, limit, top);
    }
}

/// The bytes of a byte string: its length, then its bytes.
#[verifier::opaque]
pub open spec fn blob_bytes(body: Seq<u8>) -> Seq<u8> {
    varint(body.len()) + body
}

/// The byte string at the head of `bytes` and the bytes after it.
#[verifier::opaque]
pub open spec fn take_blob(bytes: Seq<u8>) -> Result<(Seq<u8>, Seq<u8>), WireError> {
    match take_varint(bytes, 10, 1) {
        Err(e) => Err(e),
        Ok((n, rest)) => if rest.len() < n {
            Err(WireError::UnexpectedEnd)
        } else {
            Ok((rest.take(n as int), rest.skip(n as int)))
        },
    }
}

/// Reading a written byte string gives it back, whatever bytes follow.
pub proof fn lemma_take_blob_of_blob(body: Seq<u8>, tail: Seq<u8>)
    requires
        body.len() <= u64::MAX,
    ensures
        take_blob(blob_bytes(body) + tail) == Ok::<(Seq<u8>, Seq<u8>), WireError>((body, tail)),
{
    reveal(blob_bytes);
    reveal(take_blob);
    lemma_pow128_values();
    assert(blob_bytes(body) + tail =~= varint(body.len()) + (body + tail));
    lemma_take_varint_of_varint(body.len(), body + tail, 10, 1);
    assert((body + tail).take(body.len() as int) =~= body);
    assert((body + tail).skip(body.len() as int) =~= tail);
}

/// The bytes of a string: its UTF-8, as a byte string.
#[verifier::opaque]
pub open spec fn string_bytes(s: Seq<char>) -> Seq<u8> {
    blob_bytes(encode_utf8(s))
}

/// The string at the head of `bytes` and the bytes after it.
#[verifier::opaque]
pub open spec fn take_string(bytes: Seq<u8>) -> Result<(Seq<char>, Seq<u8>), WireError> {
    match take_blob(bytes) {
        Err(e) => Err(e),
        Ok((body, rest)) => if !valid_utf8(body) {
            Err(WireError::BadUtf8)
        } else {
            Ok((decode_utf8(body), rest))
        },
    }
}

/// Reading a written string gives it back, whatever bytes follow.
pub proof fn lemma_take_string_of_string(s: Seq<char>, tail: Seq<u8>)
    requires
        encode_utf8(s).len() <= u64::MAX,
    ensures
        take_string(string_bytes(s) + tail) == Ok::<(Seq<char>, Seq<u8>), WireError>((s, tail)),
{
    reveal(string_bytes);
    reveal(take_string);
    lemma_take_blob_of_blob(encode_utf8(s), tail);
    vstd::utf8::encode_utf8_valid_utf8(s);
    vstd::utf8::encode_utf8_decode_utf8(s);
}

/// Appends `bytes` to `out`.
pub fn write_bytes(bytes: &[u8], out: &mut Vec<u8>)
    ensures
        final(out)@ == old(out)@ + bytes@,
{
    let mut i: usize = 0;
    while i < bytes.len()
        invariant
            i <= bytes.len(),
            out@ == old(out)@ + bytes@.take(i as int),
        decreases bytes.len() - i,
    {
        out.push(bytes[i]);
        i += 1;
        assert(bytes@.take(i as int) =~= bytes@.take(i - 1).push(bytes@[i - 1]));
    }
    assert(bytes@.take(i as int) =~= bytes@);
}

/// Appends the bytes of the byte string `body` to `out`.
pub fn write_blob(body: &[u8], out: &mut Vec<u8>)
    ensures
        final(out)@ == old(out)@ + blob_bytes(body@),
        body@.len() <= u64::MAX,
{
    proof {
        reveal(blob_bytes);
    }
    write_varint(body.len() as u64, out);
    write_bytes(body, out);
    assert(final(out)@ =~= old(out)@ + blob_bytes(body@));
}

/// Appends the bytes of the string `s` to `out`.
pub fn write_string(s: &str, out: &mut Vec<u8>)
    ensures
        final(out)@ == old(out)@ + string_bytes(s@),
        encode_utf8(s@).len() <= u64::MAX,
{
    proof {
        reveal(string_bytes);
    }
    write_blob(s.as_bytes(), out);
}

/// `String::from_utf8`: the string whose UTF-8 is `bytes`, where they are
/// UTF-8, and nothing where they are not.
#[verifier::external_body]
fn string_from_utf8(bytes: Vec<u8>) -> (r: Option<String>)
    ensures
        r is Some <==> valid_utf8(bytes@),
        r matches Some(s) ==> s@ == decode_utf8(bytes@),
{
    match String::from_utf8(bytes) {
        Ok(s) => Some(s),
        Err(_) => None,
    }
}

/// Reads a byte string at `pos`; gives it with the position after it.
pub fn read_blob(bytes: &[u8], pos: usize) -> (r: Result<(Vec<u8>, usize), WireError>)
    ensures
        match take_blob(tail_from(bytes@, pos)) {
            Ok((body, rest)) => r matches Ok((v, next)) && v@ == body && pos < next <= bytes.len()
                && rest == bytes@.skip(next as int),
            Err(e) => r matches Err(got) && got == e,
        },
{
    proof {
        reveal(take_blob);
    }
    let (len, start) = match read_u64(bytes, pos) {
        Ok(read) => read,
        Err(e) => {
            return Err(e);
        },
    };
    let ghost rest = bytes@.skip(start as int);
    if len > (bytes.len() - start) as u64 {
        return Err(WireError::UnexpectedEnd);
    }
    let end: usize = start + len as usize;
    let mut body: Vec<u8> = Vec::new();
    let mut i: usize = start;
    while i < end
        invariant
            start <= i <= end <= bytes.len(),
            body@ == bytes@.subrange(start as int, i as int),
        decreases end - i,
    {
        body.push(bytes[i]);
        i += 1;
        assert(bytes@.subrange(start as int, i as int) =~= bytes@.subrange(
            start as int,
            i - 1,
        ).push(bytes@[i - 1]));
    }
    assert(body@ =~= rest.take(len as int));
    assert(rest.skip(len as int) =~= bytes@.skip(end as int));
    Ok((body, end))
}

/// Reads a string at `pos`; gives it with the position after it.
pub fn read_string(bytes: &[u8], pos: usize) -> (r: Result<(String, usize), WireError>)
    ensures
        match take_string(tail_from(bytes@, pos)) {
            Ok((text, rest)) => r matches Ok((s, next)) && s@ == text && pos < next <= bytes.len()
                && rest == bytes@.skip(next as int),
            Err(e) => r matches Err(got) && got == e,
        },
{
    proof {
        reveal(take_string);
    }
    let (body, next) = match read_blob(bytes, pos) {
        Ok(read) => read,
        Err(e) => {
            return Err(e);
        },
    };
    match string_from_utf8(body) {
        Some(s) => Ok((s, next)),
        None => Err(WireError::BadUtf8),
    }
}

/// The bytes of an identifier: its 26-symbol text, as a string.
#[verifier::opaque]
pub open spec fn id_bytes(bits: u128) -> Seq<u8> {
    string_bytes(base32::text_of(bits))
}

/// The identifier at the head of `bytes` and the bytes after it.
#[verifier::opaque]
pub open spec fn take_id(bytes: Seq<u8>) -> Result<(u128, Seq<u8>), WireError> {
    match take_string(bytes) {
        Err(e) => Err(e),
        Ok((text, rest)) => match base32::parse(text) {
            Ok(bits) => Ok((bits, rest)),
            Err(base32::DecodeError::InvalidLength) => Err(WireError::BadIdLength),
            Err(base32::DecodeError::InvalidChar) => Err(WireError::BadIdChar),
        },
    }
}

/// Reading a written identifier gives it back, whatever bytes follow.
pub proof fn lemma_take_id_of_id(bits: u128, tail: Seq<u8>)
    ensures
        take_id(id_bytes(bits) + tail) == Ok::<(u128, Seq<u8>), WireError>((bits, tail)),
{
    reveal(id_bytes);
    reveal(take_id);
    base32::lemma_text_is_ascii(bits);
    base32::lemma_parse_text_of(bits);
    lemma_take_string_of_string(base32::text_of(bits), tail);
}

/// Appends the bytes of the identifier `bits` to `out`.
pub fn write_id(bits: u128, out: &mut Vec<u8>)
    ensures
        final(out)@ == old(out)@ + id_bytes(bits),
{
    proof {
        reveal(id_bytes);
    }
    let text = base32::encode(bits);
    write_string(text.as_str(), out);
}

/// Reads an identifier at `pos`; gives it with the position after it.
pub fn read_id(bytes: &[u8], pos: usize) -> (r: Result<(u128, usize), WireError>)
    ensures
        match take_id(tail_from(bytes@, pos)) {
            Ok((bits, rest)) => r matches Ok((v, next)) && v == bits && pos < next <= bytes.len()
                && rest == bytes@.skip(next as int),
            Err(e) => r == Err::<(u128, usize), WireError>(e),
        },
{
    proof {
        reveal(take_id);
    }
    let (text, next) = match read_string(bytes, pos) {
        Ok(read) => read,
        Err(e) => {
            return Err(e);
        },
    };
    match base32::decode(text.as_str()) {
        Ok(bits) => Ok((bits, next)),
        Err(base32::DecodeError::InvalidLength) => Err(WireError::BadIdLength),
        Err(base32::DecodeError::InvalidChar) => Err(WireError::BadIdChar),
    }
}

/// The tag of an optional value: 1 where there is a value, 0 where not.
pub open spec fn option_tag(present: bool) -> Seq<u8> {
    if present {
        seq![1u8]
    } else {
        seq![0u8]
    }
}

/// The tag at the head of `bytes` and the bytes after it.
pub open spec fn take_option_tag(bytes: Seq<u8>) -> Result<(bool, Seq<u8>), WireError> {
    if bytes.len() == 0 {
        Err(WireError::UnexpectedEnd)
    } else if bytes[0] == 0 {
        Ok((false, bytes.skip(1)))
    } else if bytes[0] == 1 {
        Ok((true, bytes.skip(1)))
    } else {
        Err(WireError::BadOption)
    }
}

/// Reads the tag of an optional value at `pos`.
pub fn read_option_tag(bytes: &[u8], pos: usize) -> (r: Result<(bool, usize), WireError>)
    ensures
        match take_option_tag(tail_from(bytes@, pos)) {
            Ok((present, rest)) => r == Ok::<(bool, usize), WireError>((present, (pos + 1) as usize))
                && pos < bytes.len() && rest == bytes@.skip(pos + 1),
            Err(e) => r == Err::<(bool, usize), WireError>(e),
        },
{
    if pos >= bytes.len() {
        return Err(WireError::UnexpectedEnd);
    }
    let tag: u8 = bytes[pos];
    assert(tail_from(bytes@, pos)[0] == tag);
    assert(tail_from(bytes@, pos).skip(1) =~= bytes@.skip(pos + 1));
    if tag == 0 {
        Ok((false, pos + 1))
    } else if tag == 1 {
        Ok((true, pos + 1))
    } else {
        Err(WireError::BadOption)
    }
}

} // verus!
