//! Values that are decoded one after another: lists of a given length and
//! lists with their count before them.

use crate::cursor::{
    be_i32, be_u16, deep, i32_of, lemma_remains_of_remains, lemma_skip_remains, remains_of,
    spec_be_i32, spec_be_u16, u16_at, u32_at, Decoded, ParseError, ParseResult,
};
use vstd::prelude::*;

verus! {

/// A value with a self-delimiting encoding: its decoder needs nothing but
/// the bytes that remain.
pub trait Decode: Sized + DeepView {
    /// What decoding one value from `s` yields.
    spec fn spec_decode(s: Seq<u8>) -> Decoded<Self::V>;

    /// Decodes one value from the front of the input.
    fn decode(input: &[u8]) -> (r: ParseResult<'_, Self>)
        ensures
            deep(r) == Self::spec_decode(input@),
    ;

    /// A decoded value takes up at least one byte, and what is left behind
    /// it is what remains of the input.
    proof fn lemma_decode_advances(s: Seq<u8>)
        ensures
            Self::spec_decode(s) matches Ok((rest, v)) ==> rest.len() < s.len() && remains_of(
                rest,
                s,
            ),
    ;
}

/// `n` values decoded one after another, each from where the one before it
/// ended. The first failure is the failure of the whole.
pub open spec fn spec_count<T: Decode>(n: nat, s: Seq<u8>) -> Decoded<Seq<T::V>>
    decreases n,
{
    if n == 0 {
        Ok((s, Seq::empty()))
    } else {
        match T::spec_decode(s) {
            Err(e) => Err(e),
            Ok((rest, v)) => match spec_count::<T>((n - 1) as nat, rest) {
                Err(e) => Err(e),
                Ok((end, vs)) => Ok((end, seq![v] + vs)),
            },
        }
    }
}

/// The result `r` of decoding a list, with `head` put before the list.
pub open spec fn prefixed<V>(head: Seq<V>, r: Decoded<Seq<V>>) -> Decoded<Seq<V>> {
    match r {
        Ok((rest, vs)) => Ok((rest, head + vs)),
        Err(e) => Err(e),
    }
}

/// Decoding `n > 0` values is decoding one and then `n - 1`.
pub proof fn lemma_count_step<T: Decode>(head: Seq<T::V>, n: nat, s: Seq<u8>)
    requires
        n > 0,
    ensures
        prefixed(head, spec_count::<T>(n, s)) == match T::spec_decode(s) {
            Err(e) => Err(e),
            Ok((rest, v)) => prefixed(head.push(v), spec_count::<T>((n - 1) as nat, rest)),
        },
{
    match T::spec_decode(s) {
        Err(e) => {},
        Ok((rest, v)) => {
            match spec_count::<T>((n - 1) as nat, rest) {
                Err(e) => {},
                Ok((end, vs)) => {
                    assert(head + (seq![v] + vs) =~= head.push(v) + vs);
                },
            }
        },
    }
}

/// Decodes `n` values one after another.
pub fn count<T: Decode>(input: &[u8], n: usize) -> (r: ParseResult<'_, Vec<T>>)
    ensures
        deep(r) == spec_count::<T>(n as nat, input@),
{
    let mut rest = input;
    let mut out: Vec<T> = Vec::new();
    let mut i: usize = 0;
    while i < n
        invariant
            i <= n,
            spec_count::<T>(n as nat, input@) == prefixed(
                out.deep_view(),
                spec_count::<T>((n - i) as nat, rest@),
            ),
        decreases n - i,
    {
        proof {
            lemma_count_step::<T>(out.deep_view(), (n - i) as nat, rest@);
        }
        let ghost before = out.deep_view();
        let (next, v) = T::decode(rest)?;
        out.push(v);
        assert(out.deep_view() =~= before.push(v.deep_view()));
        rest = next;
        i += 1;
    }
    Ok((rest, out))
}

/// What is left behind a decoded list is what remains of the input, and the
/// list takes up at least one byte for each of its values: no input decodes
/// to a list that is longer than the input.
pub proof fn lemma_count_advances<T: Decode>(n: nat, s: Seq<u8>)
    ensures
        spec_count::<T>(n, s) matches Ok((rest, items)) ==> remains_of(rest, s) && rest.len()
            + items.len() <= s.len(),
    decreases n,
{
    lemma_count_len::<T>(n, s);
    if n > 0 {
        T::lemma_decode_advances(s);
        match T::spec_decode(s) {
            Err(e) => {},
            Ok((next, v)) => {
                lemma_count_advances::<T>((n - 1) as nat, next);
                match spec_count::<T>((n - 1) as nat, next) {
                    Err(e) => {},
                    Ok((rest, items)) => {
                        lemma_remains_of_remains(rest, next, s);
                    },
                }
            },
        }
    } else {
        lemma_skip_remains(s, 0);
    }
}

/// What is left behind a counted list is what remains of the input behind
/// the count and the values.
pub proof fn lemma_counted_advances<T: Decode>(s: Seq<u8>)
    ensures
        spec_counted::<T>(s) matches Ok((rest, (n, items))) ==> remains_of(rest, s) && rest.len()
            + 2 + items.len() <= s.len(),
{
    if s.len() >= 2 {
        let after_count = s.skip(2);
        lemma_skip_remains(s, 2);
        lemma_count_advances::<T>(u16_at(s, 0) as nat, after_count);
        match spec_count::<T>(u16_at(s, 0) as nat, after_count) {
            Err(e) => {},
            Ok((rest, items)) => {
                lemma_remains_of_remains(rest, after_count, s);
            },
        }
    }
}

/// A 16-bit count and then that many values, one after another.
pub open spec fn spec_counted<T: Decode>(s: Seq<u8>) -> Decoded<(u16, Seq<T::V>)> {
    match spec_be_u16(s) {
        Err(e) => Err(e),
        Ok((rest, n)) => match spec_count::<T>(n as nat, rest) {
            Err(e) => Err(e),
            Ok((end, items)) => Ok((end, (n, items))),
        },
    }
}

/// A decoded list of `n` values has `n` values.
pub proof fn lemma_count_len<T: Decode>(n: nat, s: Seq<u8>)
    ensures
        spec_count::<T>(n, s) matches Ok((rest, items)) ==> items.len() == n,
    decreases n,
{
    if n > 0 {
        match T::spec_decode(s) {
            Err(e) => {},
            Ok((rest, v)) => {
                lemma_count_len::<T>((n - 1) as nat, rest);
            },
        }
    }
}

/// What holds of every decoded value holds of every value of a decoded
/// list.
pub proof fn lemma_count_each<T: Decode>(n: nat, s: Seq<u8>, holds: spec_fn(T::V) -> bool)
    requires
        forall|t: Seq<u8>| (#[trigger] T::spec_decode(t)) matches Ok((rest, v)) ==> holds(v),
    ensures
        spec_count::<T>(n, s) matches Ok((rest, items)) ==> forall|i: int|
            0 <= i < items.len() ==> holds(#[trigger] items[i]),
    decreases n,
{
    if n > 0 {
        match T::spec_decode(s) {
            Err(e) => {},
            Ok((rest, v)) => {
                lemma_count_each::<T>((n - 1) as nat, rest, holds);
            },
        }
    }
}

/// A counted list has as many values as its count says, and what holds of
/// every decoded value holds of each of them.
pub proof fn lemma_counted<T: Decode>(s: Seq<u8>, holds: spec_fn(T::V) -> bool)
    requires
        forall|t: Seq<u8>| (#[trigger] T::spec_decode(t)) matches Ok((rest, v)) ==> holds(v),
    ensures
        spec_counted::<T>(s) matches Ok((rest, (n, items))) ==> items.len() == n && forall|i: int|
            0 <= i < items.len() ==> holds(#[trigger] items[i]),
{
    match spec_be_u16(s) {
        Err(e) => {},
        Ok((rest, n)) => {
            lemma_count_len::<T>(n as nat, rest);
            lemma_count_each::<T>(n as nat, rest, holds);
        },
    }
}

/// Decodes a 16-bit count and then that many values.
pub fn counted<T: Decode>(input: &[u8]) -> (r: ParseResult<'_, (u16, Vec<T>)>)
    ensures
        deep(r) == spec_counted::<T>(input@),
{
    let (rest, n) = be_u16(input)?;
    let (rest, items) = count::<T>(rest, n as usize)?;
    Ok((rest, (n, items)))
}

impl Decode for u16 {
    open spec fn spec_decode(s: Seq<u8>) -> Decoded<u16> {
        spec_be_u16(s)
    }

    fn decode(input: &[u8]) -> (r: ParseResult<'_, u16>) {
        be_u16(input)
    }

    proof fn lemma_decode_advances(s: Seq<u8>) {
        reveal(remains_of);
    }
}

impl Decode for i32 {
    open spec fn spec_decode(s: Seq<u8>) -> Decoded<i32> {
        spec_be_i32(s)
    }

    fn decode(input: &[u8]) -> (r: ParseResult<'_, i32>) {
        be_i32(input)
    }

    proof fn lemma_decode_advances(s: Seq<u8>) {
        reveal(remains_of);
    }
}

impl Decode for (i32, i32) {
    open spec fn spec_decode(s: Seq<u8>) -> Decoded<(i32, i32)> {
        if s.len() < 8 {
            Err(ParseError::InsufficientInput)
        } else {
            Ok((s.skip(8), (i32_of(u32_at(s, 0)), i32_of(u32_at(s, 4)))))
        }
    }

    fn decode(input: &[u8]) -> (r: ParseResult<'_, (i32, i32)>) {
        let (rest, first) = be_i32(input)?;
        let (rest, second) = be_i32(rest)?;
        assert(rest@ == input@.skip(8));
        Ok((rest, (first, second)))
    }

    proof fn lemma_decode_advances(s: Seq<u8>) {
        reveal(remains_of);
    }
}

} // verus!
