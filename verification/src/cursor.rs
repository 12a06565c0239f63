//! Bounds-checked big-endian reads over a byte slice.

use vstd::prelude::*;
use vstd::slice::slice_subrange;

verus! {

/// Why a decode stopped.
#[derive(Clone, Copy, Debug, PartialEq, Eq)]
pub enum ParseError {
    /// A read needed more bytes than remained.
    InsufficientInput,
    /// A tag, an opcode, a declared size or another value of the format had
    /// none of the values that the format allows at its place.
    InvalidDiscriminant,
}

/// What a decoder yields on a byte sequence: the bytes that remain and the
/// decoded value, or the reason it stopped.
pub type Decoded<T> = Result<(Seq<u8>, T), ParseError>;

/// The executable form of [`Decoded`]: the remaining input is a suffix of the
/// slice that was handed in.
pub type ParseResult<'a, T> = Result<(&'a [u8], T), ParseError>;

/// The model of a result whose value is its own model.
pub open spec fn plain<T>(r: ParseResult<'_, T>) -> Decoded<T> {
    match r {
        Ok((rest, v)) => Ok((rest@, v)),
        Err(e) => Err(e),
    }
}

/// The model of a result whose value has a view.
pub open spec fn viewed<T: View>(r: ParseResult<'_, T>) -> Decoded<T::V> {
    match r {
        Ok((rest, v)) => Ok((rest@, v@)),
        Err(e) => Err(e),
    }
}

/// The model of a result whose value has a deep view: a list of values
/// with a view, or a tuple that holds one.
pub open spec fn deep<T: DeepView>(r: ParseResult<'_, T>) -> Decoded<T::V> {
    match r {
        Ok((rest, v)) => Ok((rest@, v.deep_view())),
        Err(e) => Err(e),
    }
}

/// Whether `rest` is what remains of `s` behind some of its first bytes.
#[verifier::opaque]
pub open spec fn remains_of(rest: Seq<u8>, s: Seq<u8>) -> bool {
    rest.len() <= s.len() && rest == s.skip(s.len() - rest.len())
}

/// The input without its first `n` bytes is what remains of it.
pub proof fn lemma_skip_remains(s: Seq<u8>, n: int)
    requires
        0 <= n <= s.len(),
    ensures
        remains_of(s.skip(n), s),
        n == 0 ==> remains_of(s, s),
{
    reveal(remains_of);
    assert(s.skip(0) == s);
}

/// What remains of `s` is no longer than `s`.
pub proof fn lemma_remains_is_no_longer(rest: Seq<u8>, s: Seq<u8>)
    requires
        remains_of(rest, s),
    ensures
        rest.len() <= s.len(),
{
    reveal(remains_of);
}

/// What remains of what remains of `s` remains of `s`.
pub proof fn lemma_remains_of_remains(rest: Seq<u8>, middle: Seq<u8>, s: Seq<u8>)
    requires
        remains_of(rest, middle),
        remains_of(middle, s),
    ensures
        remains_of(rest, s),
{
    reveal(remains_of);
    assert(s.skip(s.len() - middle.len()).skip(middle.len() - rest.len()) == s.skip(
        s.len() - rest.len(),
    ));
}

/// The unsigned value of two bytes, most significant first.
pub open spec fn u16_of(b0: u8, b1: u8) -> u16 {
    (b0 * 0x100 + b1) as u16
}

/// The unsigned value of four bytes, most significant first.
pub open spec fn u32_of(b0: u8, b1: u8, b2: u8, b3: u8) -> u32 {
    (b0 * 0x100_0000 + b1 * 0x1_0000 + b2 * 0x100 + b3) as u32
}

/// The unsigned value of two 32-bit halves, the upper half first.
pub open spec fn u64_of(hi: u32, lo: u32) -> u64 {
    (hi * 0x1_0000_0000 + lo) as u64
}

/// The two's-complement reading of a byte.
pub open spec fn i8_of(v: u8) -> i8 {
    if v >= 0x80 {
        (v - 0x100) as i8
    } else {
        v as i8
    }
}

/// The two's-complement reading of a 16-bit value.
pub open spec fn i16_of(v: u16) -> i16 {
    if v >= 0x8000 {
        (v - 0x1_0000) as i16
    } else {
        v as i16
    }
}

/// The two's-complement reading of a 32-bit value.
pub open spec fn i32_of(v: u32) -> i32 {
    if v >= 0x8000_0000 {
        (v - 0x1_0000_0000) as i32
    } else {
        v as i32
    }
}

/// The two's-complement reading of a 64-bit value.
pub open spec fn i64_of(v: u64) -> i64 {
    if v >= 0x8000_0000_0000_0000 {
        (v - 0x1_0000_0000_0000_0000) as i64
    } else {
        v as i64
    }
}

/// The 16-bit value at offset `at` of `s`.
pub open spec fn u16_at(s: Seq<u8>, at: int) -> u16 {
    u16_of(s[at], s[at + 1])
}

/// The 32-bit value at offset `at` of `s`.
pub open spec fn u32_at(s: Seq<u8>, at: int) -> u32 {
    u32_of(s[at], s[at + 1], s[at + 2], s[at + 3])
}

/// The 64-bit value at offset `at` of `s`.
pub open spec fn u64_at(s: Seq<u8>, at: int) -> u64 {
    u64_of(u32_at(s, at), u32_at(s, at + 4))
}

/// Reads one byte.
pub open spec fn spec_be_u8(s: Seq<u8>) -> Decoded<u8> {
    if s.len() < 1 {
        Err(ParseError::InsufficientInput)
    } else {
        Ok((s.skip(1), s[0]))
    }
}

/// Reads one byte as a signed value.
pub open spec fn spec_be_i8(s: Seq<u8>) -> Decoded<i8> {
    if s.len() < 1 {
        Err(ParseError::InsufficientInput)
    } else {
        Ok((s.skip(1), i8_of(s[0])))
    }
}

/// Reads two bytes as an unsigned value.
pub open spec fn spec_be_u16(s: Seq<u8>) -> Decoded<u16> {
    if s.len() < 2 {
        Err(ParseError::InsufficientInput)
    } else {
        Ok((s.skip(2), u16_at(s, 0)))
    }
}

/// Reads two bytes as a signed value.
pub open spec fn spec_be_i16(s: Seq<u8>) -> Decoded<i16> {
    if s.len() < 2 {
        Err(ParseError::InsufficientInput)
    } else {
        Ok((s.skip(2), i16_of(u16_at(s, 0))))
    }
}

/// Reads four bytes as an unsigned value.
pub open spec fn spec_be_u32(s: Seq<u8>) -> Decoded<u32> {
    if s.len() < 4 {
        Err(ParseError::InsufficientInput)
    } else {
        Ok((s.skip(4), u32_at(s, 0)))
    }
}

/// Reads four bytes as a signed value.
pub open spec fn spec_be_i32(s: Seq<u8>) -> Decoded<i32> {
    if s.len() < 4 {
        Err(ParseError::InsufficientInput)
    } else {
        Ok((s.skip(4), i32_of(u32_at(s, 0))))
    }
}

/// Reads eight bytes as an unsigned value.
pub open spec fn spec_be_u64(s: Seq<u8>) -> Decoded<u64> {
    if s.len() < 8 {
        Err(ParseError::InsufficientInput)
    } else {
        Ok((s.skip(8), u64_at(s, 0)))
    }
}

/// Reads eight bytes as a signed value.
pub open spec fn spec_be_i64(s: Seq<u8>) -> Decoded<i64> {
    if s.len() < 8 {
        Err(ParseError::InsufficientInput)
    } else {
        Ok((s.skip(8), i64_of(u64_at(s, 0))))
    }
}

/// Splits off the first `n` bytes.
pub open spec fn spec_take(s: Seq<u8>, n: nat) -> Decoded<Seq<u8>> {
    if s.len() < n {
        Err(ParseError::InsufficientInput)
    } else {
        Ok((s.skip(n as int), s.take(n as int)))
    }
}

/// The input without its first `n` bytes.
fn advance(input: &[u8], n: usize) -> (rest: &[u8])
    requires
        n <= input@.len(),
    ensures
        rest@ == input@.skip(n as int),
{
    slice_subrange(input, n, input.len())
}

/// Reads one byte.
pub fn be_u8(input: &[u8]) -> (r: ParseResult<'_, u8>)
    ensures
        plain(r) == spec_be_u8(input@),
{
    if input.len() < 1 {
        return Err(ParseError::InsufficientInput);
    }
    Ok((advance(input, 1), input[0]))
}

/// Reads one byte as a two's-complement value.
pub fn be_i8(input: &[u8]) -> (r: ParseResult<'_, i8>)
    ensures
        plain(r) == spec_be_i8(input@),
{
    let (rest, v) = be_u8(input)?;
    let signed: i8 = if v >= 0x80 {
        (v as i16 - 0x100) as i8
    } else {
        v as i8
    };
    Ok((rest, signed))
}

/// Reads two bytes, most significant first.
pub fn be_u16(input: &[u8]) -> (r: ParseResult<'_, u16>)
    ensures
        plain(r) == spec_be_u16(input@),
{
    if input.len() < 2 {
        return Err(ParseError::InsufficientInput);
    }
    let v: u16 = input[0] as u16 * 0x100 + input[1] as u16;
    Ok((advance(input, 2), v))
}

/// Reads two bytes, most significant first, as a two's-complement value.
pub fn be_i16(input: &[u8]) -> (r: ParseResult<'_, i16>)
    ensures
        plain(r) == spec_be_i16(input@),
{
    let (rest, v) = be_u16(input)?;
    let signed: i16 = if v >= 0x8000 {
        (v as i32 - 0x1_0000) as i16
    } else {
        v as i16
    };
    Ok((rest, signed))
}

/// Reads four bytes, most significant first.
pub fn be_u32(input: &[u8]) -> (r: ParseResult<'_, u32>)
    ensures
        plain(r) == spec_be_u32(input@),
{
    if input.len() < 4 {
        return Err(ParseError::InsufficientInput);
    }
    let v: u32 = input[0] as u32 * 0x100_0000 + input[1] as u32 * 0x1_0000 + input[2] as u32
        * 0x100 + input[3] as u32;
    Ok((advance(input, 4), v))
}

/// Reads four bytes, most significant first, as a two's-complement value.
pub fn be_i32(input: &[u8]) -> (r: ParseResult<'_, i32>)
    ensures
        plain(r) == spec_be_i32(input@),
{
    let (rest, v) = be_u32(input)?;
    let signed: i32 = if v >= 0x8000_0000 {
        (v as i64 - 0x1_0000_0000) as i32
    } else {
        v as i32
    };
    Ok((rest, signed))
}

/// Reads eight bytes, most significant first.
pub fn be_u64(input: &[u8]) -> (r: ParseResult<'_, u64>)
    ensures
        plain(r) == spec_be_u64(input@),
{
    if input.len() < 8 {
        return Err(ParseError::InsufficientInput);
    }
    let (mid, hi) = be_u32(input)?;
    let (_, lo) = be_u32(mid)?;
    let v: u64 = hi as u64 * 0x1_0000_0000 + lo as u64;
    Ok((advance(input, 8), v))
}

/// Reads eight bytes, most significant first, as a two's-complement value.
pub fn be_i64(input: &[u8]) -> (r: ParseResult<'_, i64>)
    ensures
        plain(r) == spec_be_i64(input@),
{
    let (rest, v) = be_u64(input)?;
    let signed: i64 = if v >= 0x8000_0000_0000_0000 {
        (v as i128 - 0x1_0000_0000_0000_0000) as i64
    } else {
        v as i64
    };
    Ok((rest, signed))
}

/// Splits off the first `n` bytes of the input.
pub fn take(input: &[u8], n: usize) -> (r: ParseResult<'_, &[u8]>)
    ensures
        viewed(r) == spec_take(input@, n as nat),
{
    if input.len() < n {
        return Err(ParseError::InsufficientInput);
    }
    Ok((advance(input, n), slice_subrange(input, 0, n)))
}

/// Checks that the input starts with the bytes of `expected`, and drops
/// them. A byte that differs is an invalid discriminant; an input that ends
/// before it has differed is insufficient.
pub open spec fn spec_tag(s: Seq<u8>, expected: Seq<u8>) -> Decoded<()> {
    let shared = if s.len() < expected.len() {
        s.len()
    } else {
        expected.len()
    };
    if s.take(shared as int) != expected.take(shared as int) {
        Err(ParseError::InvalidDiscriminant)
    } else if s.len() < expected.len() {
        Err(ParseError::InsufficientInput)
    } else {
        Ok((s.skip(expected.len() as int), ()))
    }
}

/// An input starts with the expected bytes if and only if it is as long
/// as they are and holds them byte for byte.
pub proof fn lemma_tag_bytewise(s: Seq<u8>, expected: Seq<u8>)
    ensures
        spec_tag(s, expected) is Ok <==> s.len() >= expected.len() && forall|i: int|
            0 <= i < expected.len() ==> s[i] == expected[i],
{
    let shared = if s.len() < expected.len() {
        s.len() as int
    } else {
        expected.len() as int
    };
    let a = s.take(shared);
    let b = expected.take(shared);
    if forall|i: int| 0 <= i < shared ==> s[i] == expected[i] {
        assert(a =~= b);
    } else {
        let i = choose|i: int| 0 <= i < shared && s[i] != expected[i];
        assert(a[i] != b[i]);
    }
}

/// What is left behind the expected bytes is what remains of the input.
pub proof fn lemma_tag_advances(s: Seq<u8>, expected: Seq<u8>)
    ensures
        spec_tag(s, expected) matches Ok((rest, _)) ==> remains_of(rest, s) && rest.len()
            + expected.len() == s.len(),
{
    reveal(remains_of);
}

/// Checks that the input starts with the bytes of `expected`, and drops
/// them.
pub fn tag<'a>(input: &'a [u8], expected: &[u8]) -> (r: ParseResult<'a, ()>)
    ensures
        plain(r) == spec_tag(input@, expected@),
{
    let shared = if input.len() < expected.len() {
        input.len()
    } else {
        expected.len()
    };
    let mut i: usize = 0;
    while i < shared
        invariant
            i <= shared,
            shared <= input@.len(),
            shared <= expected@.len(),
            input@.take(i as int) == expected@.take(i as int),
        decreases shared - i,
    {
        if input[i] != expected[i] {
            proof {
                let a = input@.take(shared as int);
                let b = expected@.take(shared as int);
                assert(a[i as int] != b[i as int]);
            }
            return Err(ParseError::InvalidDiscriminant);
        }
        i += 1;
    }
    if input.len() < expected.len() {
        return Err(ParseError::InsufficientInput);
    }
    Ok((advance(input, expected.len()), ()))
}

} // verus!
