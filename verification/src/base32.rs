//! The text form of a 128-bit identifier: 26 symbols of Crockford's base 32
//! alphabet, most significant first.
//!
//! The `ulid` crate produces and reads the text. This module states what its
//! functions return and proves that reading inverts writing.

use vstd::prelude::*;

verus! {

/// Number of symbols in the text form of an identifier.
pub const ULID_LEN: usize = 26;

/// The 32 symbols, by value.
pub open spec fn alphabet() -> Seq<char> {
    seq![
        '0', '1', '2', '3', '4', '5', '6', '7', '8', '9', 'A', 'B', 'C', 'D', 'E', 'F',
        'G', 'H', 'J', 'K', 'M', 'N', 'P', 'Q', 'R', 'S', 'T', 'V', 'W', 'X', 'Y', 'Z',
    ]
}

/// The five bits of `bits` that the symbol at `position` stands for. Position
/// 0 is the leftmost symbol and holds the three highest bits.
pub open spec fn digit(bits: u128, position: int) -> u128
    recommends
        0 <= position < 26,
{
    (bits >> ((5 * (25 - position)) as u128)) & 0x1f
}

/// The text form of `bits`.
pub open spec fn text_of(bits: u128) -> Seq<char> {
    Seq::new(26, |i: int| alphabet()[digit(bits, i) as int])
}

/// The text form of `bits` as bytes: every symbol is ASCII.
pub open spec fn text_bytes_of(bits: u128) -> Seq<u8> {
    Seq::new(26, |i: int| alphabet()[digit(bits, i) as int] as u8)
}

/// The value of one symbol when read: digits and letters of the alphabet,
/// letters in either case. `I`, `L`, `O` and `U` are not symbols.
pub open spec fn symbol_value(c: char) -> Option<u128> {
    let code = c as u32;
    // A lower-case letter counts as its upper-case form.
    let upper = if 0x61 <= code <= 0x7a {
        (code - 0x20) as u32
    } else {
        code
    };
    if 0x30 <= code <= 0x39 {
        // '0' to '9'
        Some((code - 0x30) as u128)
    } else if 0x41 <= upper <= 0x48 {
        // 'A' to 'H'
        Some((upper - 0x41 + 10) as u128)
    } else if 0x4a <= upper <= 0x4b {
        // 'J' and 'K'
        Some((upper - 0x4a + 18) as u128)
    } else if 0x4d <= upper <= 0x4e {
        // 'M' and 'N'
        Some((upper - 0x4d + 20) as u128)
    } else if 0x50 <= upper <= 0x54 {
        // 'P' to 'T'
        Some((upper - 0x50 + 22) as u128)
    } else if 0x56 <= upper <= 0x5a {
        // 'V' to 'Z'
        Some((upper - 0x56 + 27) as u128)
    } else {
        None
    }
}

/// Whether every character of `text` is a symbol.
pub open spec fn all_symbols(text: Seq<char>) -> bool {
    forall|i: int| 0 <= i < text.len() ==> symbol_value(#[trigger] text[i]) is Some
}

/// The number that the symbols of `text` spell, read left to right, five bits
/// a symbol. Bits pushed past the 128th are lost.
pub open spec fn value_of(text: Seq<char>) -> u128
    recommends
        all_symbols(text),
    decreases text.len(),
{
    if text.len() == 0 {
        0
    } else {
        (value_of(text.drop_last()) << 5) | symbol_value(text.last()).unwrap()
    }
}

/// Why a text was not read as an identifier.
#[derive(Clone, Copy, Debug, PartialEq, Eq, Structural)]
pub enum DecodeError {
    /// The text is not 26 bytes long.
    InvalidLength,
    /// The text holds a character that is no symbol.
    InvalidChar,
}

/// What reading `text` gives: the length is taken in bytes of UTF-8, and is
/// tested before the characters are.
pub open spec fn parse(text: Seq<char>) -> Result<u128, DecodeError> {
    if vstd::utf8::encode_utf8(text).len() != 26 {
        Err(DecodeError::InvalidLength)
    } else if !all_symbols(text) {
        Err(DecodeError::InvalidChar)
    } else {
        Ok(value_of(text))
    }
}

/// `ulid::Ulid::new`: an identifier made of the current time in milliseconds
/// and 80 random bits. Nothing is claimed of the value.
#[verifier::external_body]
pub(crate) fn generate() -> (bits: u128) {
    ulid::Ulid::new().0
}

/// `ulid::Ulid::to_string`: the 26 symbols of the identifier whose bits are
/// `bits`, each the alphabet's symbol for five of them, highest first.
#[verifier::external_body]
pub(crate) fn encode(bits: u128) -> (text: String)
    ensures
        text@ == text_of(bits),
{
    ulid::Ulid(bits).to_string()
}

/// `ulid::Ulid::array_to_str`: the same 26 symbols, written into `buf` as
/// ASCII bytes.
#[verifier::external_body]
pub(crate) fn encode_to_array(bits: u128, buf: &mut [u8; 26])
    ensures
        final(buf)@ == text_bytes_of(bits),
{
    let _ = ulid::Ulid(bits).array_to_str(buf);
}

/// `ulid::Ulid::from_string`: the bits that `text` spells, or the reason why
/// it spells none. The crate refuses a text that is not 26 bytes long, then
/// one with a byte outside its table of symbols, and otherwise shifts the
/// symbols' values in from the right.
#[verifier::external_body]
pub(crate) fn decode(text: &str) -> (r: Result<u128, DecodeError>)
    ensures
        r == parse(text@),
{
    match ulid::Ulid::from_string(text) {
        Ok(id) => Ok(id.0),
        Err(ulid::DecodeError::InvalidLength) => Err(DecodeError::InvalidLength),
        Err(ulid::DecodeError::InvalidChar) => Err(DecodeError::InvalidChar),
    }
}

/// The character code of the symbol with value `d`.
spec fn symbol_code(d: int) -> int {
    if d < 10 {
        0x30 + d
    } else if d < 18 {
        0x41 + d - 10
    } else if d < 20 {
        0x4a + d - 18
    } else if d < 22 {
        0x4d + d - 20
    } else if d < 27 {
        0x50 + d - 22
    } else {
        0x56 + d - 27
    }
}

proof fn lemma_symbol_code(d: int)
    requires
        0 <= d < 32,
    ensures
        alphabet()[d] as u32 == symbol_code(d),
{
    let a = alphabet();
    assert(a[0] == '0' && a[1] == '1' && a[2] == '2' && a[3] == '3');
    assert(a[4] == '4' && a[5] == '5' && a[6] == '6' && a[7] == '7');
    assert(a[8] == '8' && a[9] == '9' && a[10] == 'A' && a[11] == 'B');
    assert(a[12] == 'C' && a[13] == 'D' && a[14] == 'E' && a[15] == 'F');
    assert(a[16] == 'G' && a[17] == 'H' && a[18] == 'J' && a[19] == 'K');
    assert(a[20] == 'M' && a[21] == 'N' && a[22] == 'P' && a[23] == 'Q');
    assert(a[24] == 'R' && a[25] == 'S' && a[26] == 'T' && a[27] == 'V');
    assert(a[28] == 'W' && a[29] == 'X' && a[30] == 'Y' && a[31] == 'Z');
}

/// Each symbol of the alphabet is ASCII and reads back as its own index.
proof fn lemma_symbol_value_of_alphabet(d: int)
    requires
        0 <= d < 32,
    ensures
        symbol_value(alphabet()[d]) == Some(d as u128),
        '\0' <= alphabet()[d] <= '\u{7f}',
{
    lemma_symbol_code(d);
}

/// A digit is below 32.
proof fn lemma_digit_bound(bits: u128, position: int)
    requires
        0 <= position < 26,
    ensures
        digit(bits, position) < 32,
{
    let s = (5 * (25 - position)) as u128;
    assert((bits >> s) & 0x1f < 32) by (bit_vector);
}

/// The text form is 26 ASCII symbols, and its bytes are its UTF-8 encoding.
pub proof fn lemma_text_is_ascii(bits: u128)
    ensures
        text_of(bits).len() == 26,
        vstd::utf8::is_ascii_chars(text_of(bits)),
        all_symbols(text_of(bits)),
        vstd::utf8::encode_utf8(text_of(bits)) == text_bytes_of(bits),
{
    let text = text_of(bits);
    assert forall|i: int| 0 <= i < text.len() implies '\0' <= #[trigger] text[i] <= '\u{7f}'
        && symbol_value(text[i]) is Some by {
        lemma_digit_bound(bits, i);
        lemma_symbol_value_of_alphabet(digit(bits, i) as int);
    }
    vstd::utf8::is_ascii_chars_encode_utf8(text);
    assert(vstd::utf8::encode_utf8(text) =~= text_bytes_of(bits));
}

/// The first `count` symbols of the text form spell the bits above the
/// `5 * (26 - count)` lowest.
proof fn lemma_value_of_prefix(bits: u128, count: int)
    requires
        1 <= count <= 26,
    ensures
        value_of(text_of(bits).take(count)) == bits >> ((5 * (26 - count)) as u128),
    decreases count,
{
    let text = text_of(bits);
    let prefix = text.take(count);
    let last = digit(bits, count - 1);
    lemma_digit_bound(bits, count - 1);
    lemma_symbol_value_of_alphabet(last as int);
    assert(prefix.last() == alphabet()[last as int]);
    assert(prefix.drop_last() =~= text.take(count - 1));
    let s = (5 * (26 - count)) as u128;
    if count == 1 {
        assert(value_of(text.take(0)) == 0);
        assert(((0u128 << 5) | ((bits >> 125) & 0x1f)) == bits >> 125) by (bit_vector);
    } else {
        lemma_value_of_prefix(bits, count - 1);
        let above = (5 * (27 - count)) as u128;
        assert(above == s + 5);
        assert((((bits >> above) << 5) | ((bits >> s) & 0x1f)) == bits >> s) by (bit_vector)
            requires
                above == s + 5,
                s <= 120,
        ;
    }
}

/// Reading the text form of an identifier gives the identifier back.
pub proof fn lemma_parse_text_of(bits: u128)
    ensures
        parse(text_of(bits)) == Ok::<u128, DecodeError>(bits),
{
    lemma_text_is_ascii(bits);
    lemma_value_of_prefix(bits, 26);
    assert(text_of(bits).take(26) =~= text_of(bits));
    assert(bits >> 0 == bits) by (bit_vector);
}

/// Whether `a` comes before `b` in the order of texts: `a` is a proper
/// prefix of `b`, or the two agree up to a position at which `a` has the
/// smaller character.
pub open spec fn text_precedes(a: Seq<char>, b: Seq<char>) -> bool {
    ||| a.len() < b.len() && a == b.take(a.len() as int)
    ||| exists|i: int|
        0 <= i < a.len() && i < b.len() && #[trigger] a.take(i) == b.take(i) && (a[i] as u32) < (
        b[i] as u32)
}

/// The symbols of the alphabet are in the order of their values.
proof fn lemma_alphabet_is_ordered(d: int, e: int)
    requires
        0 <= d < 32,
        0 <= e < 32,
    ensures
        (alphabet()[d] as u32) < (alphabet()[e] as u32) <==> d < e,
        alphabet()[d] == alphabet()[e] <==> d == e,
{
    lemma_symbol_value_of_alphabet(d);
    lemma_symbol_value_of_alphabet(e);
    lemma_symbol_code(d);
    lemma_symbol_code(e);
}

/// The first position at which two different texts of one length differ.
proof fn lemma_first_difference(s: Seq<char>, t: Seq<char>) -> (i: int)
    requires
        s.len() == t.len(),
        s != t,
    ensures
        0 <= i < s.len(),
        s.take(i) == t.take(i),
        s[i] != t[i],
    decreases s.len(),
{
    if s.len() == 0 {
        assert(s =~= t);
        0
    } else if s.drop_last() == t.drop_last() {
        let last = s.len() - 1;
        assert(s.take(last) =~= s.drop_last());
        assert(t.take(last) =~= t.drop_last());
        if s[last] == t[last] {
            assert(s =~= s.drop_last().push(s[last]));
            assert(t =~= t.drop_last().push(t[last]));
        }
        last
    } else {
        let i = lemma_first_difference(s.drop_last(), t.drop_last());
        assert(s.take(i) =~= s.drop_last().take(i));
        assert(t.take(i) =~= t.drop_last().take(i));
        i
    }
}

/// Where the texts of two identifiers agree before `position`, the digit at
/// `position` decides which identifier is the smaller.
proof fn lemma_digit_decides(a: u128, b: u128, position: int)
    requires
        0 <= position < 26,
        text_of(a).take(position) == text_of(b).take(position),
    ensures
        digit(a, position) < digit(b, position) ==> a < b,
        digit(a, position) > digit(b, position) ==> a > b,
{
    let s = (5 * (25 - position)) as u128;
    if position == 0 {
        assert(((a >> 125) & 0x1f) < ((b >> 125) & 0x1f) ==> a < b) by (bit_vector);
        assert(((a >> 125) & 0x1f) > ((b >> 125) & 0x1f) ==> a > b) by (bit_vector);
    } else {
        lemma_value_of_prefix(a, position);
        lemma_value_of_prefix(b, position);
        let above = (5 * (26 - position)) as u128;
        assert(a >> above == b >> above);
        assert(((a >> s) & 0x1f) < ((b >> s) & 0x1f) ==> a < b) by (bit_vector)
            requires
                a >> above == b >> above,
                above == s + 5,
                s <= 120,
        ;
        assert(((a >> s) & 0x1f) > ((b >> s) & 0x1f) ==> a > b) by (bit_vector)
            requires
                a >> above == b >> above,
                above == s + 5,
                s <= 120,
        ;
    }
}

/// The order of the texts is the order of the identifiers: sorting
/// identifiers by their text sorts them by their bits, of which the highest
/// are the time of creation.
pub proof fn lemma_text_order_is_numeric_order(a: u128, b: u128)
    ensures
        text_precedes(text_of(a), text_of(b)) <==> a < b,
{
    let ta = text_of(a);
    let tb = text_of(b);
    if text_precedes(ta, tb) {
        let i = choose|i: int|
            0 <= i < ta.len() && i < tb.len() && #[trigger] ta.take(i) == tb.take(i) && (ta[i]
                as u32) < (tb[i] as u32);
        lemma_digit_bound(a, i);
        lemma_digit_bound(b, i);
        lemma_alphabet_is_ordered(digit(a, i) as int, digit(b, i) as int);
        lemma_digit_decides(a, b, i);
    }
    if a < b {
        lemma_parse_text_of(a);
        lemma_parse_text_of(b);
        let i = lemma_first_difference(ta, tb);
        lemma_digit_bound(a, i);
        lemma_digit_bound(b, i);
        lemma_alphabet_is_ordered(digit(a, i) as int, digit(b, i) as int);
        lemma_digit_decides(a, b, i);
        assert(ta.take(i) == tb.take(i) && (ta[i] as u32) < (tb[i] as u32));
    }
}

} // verus!
