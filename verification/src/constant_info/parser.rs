//! The decoder of the constant pool.

use super::types::{
    ClassConstant, ConstantInfo, ConstantInfoView, DoubleConstant, FieldRefConstant, FloatConstant,
    IntegerConstant, InterfaceMethodRefConstant, InvokeDynamicConstant, LongConstant, LookupError,
    MethodHandleConstant, MethodRefConstant, MethodTypeConstant, NameAndTypeConstant,
    StringConstant, Utf8Constant, Utf8ConstantView,
};
use crate::cursor::{
    be_i32, be_i64, be_u16, be_u32, be_u64, be_u8, deep, i32_of, i64_of, lemma_remains_of_remains,
    lemma_skip_remains, remains_of, spec_be_u8, take, u16_at, u32_at, u64_at, viewed, Decoded,
    ParseError, ParseResult,
};
use crate::list::prefixed;
use vstd::prelude::*;
use vstd::slice::slice_to_vec;

verus! {

/// The text that `cesu8::from_java_cesu8` decodes `bytes` to, and `None`
/// where it rejects them as malformed modified UTF-8.
pub uninterp spec fn java_cesu8_text(bytes: Seq<u8>) -> Option<Seq<char>>;

/// The text that `String::from_utf8_lossy` makes of `bytes`.
pub uninterp spec fn utf8_lossy_text(bytes: Seq<u8>) -> Seq<char>;

/// Decodes modified UTF-8 strictly, by `cesu8::from_java_cesu8`.
///
/// Nothing is proved of this function. It is taken to return the same text
/// for the same bytes, which is all that [`java_cesu8_text`] says.
#[verifier::external_body]
fn decode_java_cesu8(bytes: &[u8]) -> (r: Option<String>)
    ensures
        match r {
            Some(text) => java_cesu8_text(bytes@) == Some(text@),
            None => java_cesu8_text(bytes@) is None,
        },
{
    match cesu8::from_java_cesu8(bytes) {
        Ok(text) => Some(text.into_owned()),
        Err(_) => None,
    }
}

/// Decodes bytes to text by `String::from_utf8_lossy`, which puts a
/// replacement character where they are not well-formed UTF-8.
///
/// Nothing is proved of this function. It is taken to return the same text
/// for the same bytes, which is all that [`utf8_lossy_text`] says.
#[verifier::external_body]
fn decode_utf8_lossy(bytes: &[u8]) -> (r: String)
    ensures
        r@ == utf8_lossy_text(bytes@),
{
    String::from_utf8_lossy(bytes).into_owned()
}

/// The text constant with payload `bytes`, where the strict decoder has
/// made `strict` of them: its text if there is one, else the lossy reading
/// of the payload. The payload is kept either way.
pub open spec fn spec_utf8_constant_from(strict: Option<Seq<char>>, bytes: Seq<u8>)
    -> Utf8ConstantView {
    Utf8ConstantView {
        utf8_string: match strict {
            Some(text) => text,
            None => utf8_lossy_text(bytes),
        },
        bytes,
    }
}

/// The text constant with payload `bytes`.
pub open spec fn spec_utf8_constant(bytes: Seq<u8>) -> Utf8ConstantView {
    spec_utf8_constant_from(java_cesu8_text(bytes), bytes)
}

/// Builds the text constant with payload `bytes` from what the strict
/// decoder has made of them.
pub fn utf8_constant_from(strict: Option<String>, bytes: &[u8]) -> (c: Utf8Constant)
    ensures
        c@ == spec_utf8_constant_from(
            match strict {
                Some(text) => Some(text@),
                None => None,
            },
            bytes@,
        ),
{
    let utf8_string = match strict {
        Some(text) => text,
        None => decode_utf8_lossy(bytes),
    };
    Utf8Constant { utf8_string, bytes: slice_to_vec(bytes) }
}

/// Builds the text constant with payload `input`. Malformed text does not
/// fail: it is decoded lossily.
pub fn utf8_constant(input: &[u8]) -> (c: Utf8Constant)
    ensures
        c@ == spec_utf8_constant(input@),
{
    utf8_constant_from(decode_java_cesu8(input), input)
}

/// A value `v` that takes up the first `width` bytes of `s`.
pub open spec fn fixed<T>(s: Seq<u8>, width: nat, v: T) -> Decoded<T> {
    if s.len() < width {
        Err(ParseError::InsufficientInput)
    } else {
        Ok((s.skip(width as int), v))
    }
}

/// What follows the tag of a pool entry: for the tag 1 a 16-bit length and
/// that many bytes of text, for the other tags that the format knows
/// values of fixed width.
pub open spec fn spec_const_block(s: Seq<u8>, const_type: u8) -> Decoded<ConstantInfoView> {
    if const_type == 1 {
        if s.len() < 2 || s.len() - 2 < u16_at(s, 0) {
            Err(ParseError::InsufficientInput)
        } else {
            Ok(
                (
                    s.skip(2 + u16_at(s, 0)),
                    ConstantInfoView::Utf8(spec_utf8_constant(s.subrange(2, 2 + u16_at(s, 0)))),
                ),
            )
        }
    } else if const_type == 3 {
        fixed(s, 4, ConstantInfoView::Integer(IntegerConstant { value: i32_of(u32_at(s, 0)) }))
    } else if const_type == 4 {
        fixed(s, 4, ConstantInfoView::Float(FloatConstant { bits: u32_at(s, 0) }))
    } else if const_type == 5 {
        fixed(s, 8, ConstantInfoView::Long(LongConstant { value: i64_of(u64_at(s, 0)) }))
    } else if const_type == 6 {
        fixed(s, 8, ConstantInfoView::Double(DoubleConstant { bits: u64_at(s, 0) }))
    } else if const_type == 7 {
        fixed(s, 2, ConstantInfoView::Class(ClassConstant { name_index: u16_at(s, 0) }))
    } else if const_type == 8 {
        fixed(s, 2, ConstantInfoView::String(StringConstant { string_index: u16_at(s, 0) }))
    } else if const_type == 9 {
        fixed(
            s,
            4,
            ConstantInfoView::FieldRef(
                FieldRefConstant { class_index: u16_at(s, 0), name_and_type_index: u16_at(s, 2) },
            ),
        )
    } else if const_type == 10 {
        fixed(
            s,
            4,
            ConstantInfoView::MethodRef(
                MethodRefConstant { class_index: u16_at(s, 0), name_and_type_index: u16_at(s, 2) },
            ),
        )
    } else if const_type == 11 {
        fixed(
            s,
            4,
            ConstantInfoView::InterfaceMethodRef(
                InterfaceMethodRefConstant {
                    class_index: u16_at(s, 0),
                    name_and_type_index: u16_at(s, 2),
                },
            ),
        )
    } else if const_type == 12 {
        fixed(
            s,
            4,
            ConstantInfoView::NameAndType(
                NameAndTypeConstant { name_index: u16_at(s, 0), descriptor_index: u16_at(s, 2) },
            ),
        )
    } else if const_type == 15 {
        fixed(
            s,
            3,
            ConstantInfoView::MethodHandle(
                MethodHandleConstant { reference_kind: s[0], reference_index: u16_at(s, 1) },
            ),
        )
    } else if const_type == 16 {
        fixed(
            s,
            2,
            ConstantInfoView::MethodType(MethodTypeConstant { descriptor_index: u16_at(s, 0) }),
        )
    } else if const_type == 18 {
        fixed(
            s,
            4,
            ConstantInfoView::InvokeDynamic(
                InvokeDynamicConstant {
                    bootstrap_method_attr_index: u16_at(s, 0),
                    name_and_type_index: u16_at(s, 2),
                },
            ),
        )
    } else {
        Err(ParseError::InvalidDiscriminant)
    }
}

fn const_utf8(input: &[u8]) -> (r: ParseResult<'_, ConstantInfo>)
    ensures
        viewed(r) == spec_const_block(input@, 1),
{
    let (rest, length) = be_u16(input)?;
    let (rest, payload) = take(rest, length as usize)?;
    assert(rest@ == input@.skip(2 + length));
    assert(payload@ == input@.subrange(2, 2 + length));
    Ok((rest, ConstantInfo::Utf8(utf8_constant(payload))))
}

fn const_integer(input: &[u8]) -> (r: ParseResult<'_, ConstantInfo>)
    ensures
        viewed(r) == spec_const_block(input@, 3),
{
    let (rest, value) = be_i32(input)?;
    Ok((rest, ConstantInfo::Integer(IntegerConstant { value })))
}

fn const_float(input: &[u8]) -> (r: ParseResult<'_, ConstantInfo>)
    ensures
        viewed(r) == spec_const_block(input@, 4),
{
    let (rest, bits) = be_u32(input)?;
    Ok((rest, ConstantInfo::Float(FloatConstant { bits })))
}

fn const_long(input: &[u8]) -> (r: ParseResult<'_, ConstantInfo>)
    ensures
        viewed(r) == spec_const_block(input@, 5),
{
    let (rest, value) = be_i64(input)?;
    Ok((rest, ConstantInfo::Long(LongConstant { value })))
}

fn const_double(input: &[u8]) -> (r: ParseResult<'_, ConstantInfo>)
    ensures
        viewed(r) == spec_const_block(input@, 6),
{
    let (rest, bits) = be_u64(input)?;
    Ok((rest, ConstantInfo::Double(DoubleConstant { bits })))
}

fn const_class(input: &[u8]) -> (r: ParseResult<'_, ConstantInfo>)
    ensures
        viewed(r) == spec_const_block(input@, 7),
{
    let (rest, name_index) = be_u16(input)?;
    Ok((rest, ConstantInfo::Class(ClassConstant { name_index })))
}

fn const_string(input: &[u8]) -> (r: ParseResult<'_, ConstantInfo>)
    ensures
        viewed(r) == spec_const_block(input@, 8),
{
    let (rest, string_index) = be_u16(input)?;
    Ok((rest, ConstantInfo::String(StringConstant { string_index })))
}

fn const_field_ref(input: &[u8]) -> (r: ParseResult<'_, ConstantInfo>)
    ensures
        viewed(r) == spec_const_block(input@, 9),
{
    let (rest, class_index) = be_u16(input)?;
    let (rest, name_and_type_index) = be_u16(rest)?;
    assert(rest@ == input@.skip(4));
    Ok((rest, ConstantInfo::FieldRef(FieldRefConstant { class_index, name_and_type_index })))
}

fn const_method_ref(input: &[u8]) -> (r: ParseResult<'_, ConstantInfo>)
    ensures
        viewed(r) == spec_const_block(input@, 10),
{
    let (rest, class_index) = be_u16(input)?;
    let (rest, name_and_type_index) = be_u16(rest)?;
    assert(rest@ == input@.skip(4));
    Ok((rest, ConstantInfo::MethodRef(MethodRefConstant { class_index, name_and_type_index })))
}

fn const_interface_method_ref(input: &[u8]) -> (r: ParseResult<'_, ConstantInfo>)
    ensures
        viewed(r) == spec_const_block(input@, 11),
{
    let (rest, class_index) = be_u16(input)?;
    let (rest, name_and_type_index) = be_u16(rest)?;
    assert(rest@ == input@.skip(4));
    Ok(
        (
            rest,
            ConstantInfo::InterfaceMethodRef(
                InterfaceMethodRefConstant { class_index, name_and_type_index },
            ),
        ),
    )
}

fn const_name_and_type(input: &[u8]) -> (r: ParseResult<'_, ConstantInfo>)
    ensures
        viewed(r) == spec_const_block(input@, 12),
{
    let (rest, name_index) = be_u16(input)?;
    let (rest, descriptor_index) = be_u16(rest)?;
    assert(rest@ == input@.skip(4));
    Ok((rest, ConstantInfo::NameAndType(NameAndTypeConstant { name_index, descriptor_index })))
}

fn const_method_handle(input: &[u8]) -> (r: ParseResult<'_, ConstantInfo>)
    ensures
        viewed(r) == spec_const_block(input@, 15),
{
    let (rest, reference_kind) = be_u8(input)?;
    let (rest, reference_index) = be_u16(rest)?;
    assert(rest@ == input@.skip(3));
    Ok((rest, ConstantInfo::MethodHandle(MethodHandleConstant { reference_kind, reference_index })))
}

fn const_method_type(input: &[u8]) -> (r: ParseResult<'_, ConstantInfo>)
    ensures
        viewed(r) == spec_const_block(input@, 16),
{
    let (rest, descriptor_index) = be_u16(input)?;
    Ok((rest, ConstantInfo::MethodType(MethodTypeConstant { descriptor_index })))
}

fn const_invoke_dynamic(input: &[u8]) -> (r: ParseResult<'_, ConstantInfo>)
    ensures
        viewed(r) == spec_const_block(input@, 18),
{
    let (rest, bootstrap_method_attr_index) = be_u16(input)?;
    let (rest, name_and_type_index) = be_u16(rest)?;
    assert(rest@ == input@.skip(4));
    Ok(
        (
            rest,
            ConstantInfo::InvokeDynamic(
                InvokeDynamicConstant { bootstrap_method_attr_index, name_and_type_index },
            ),
        ),
    )
}

/// A text entry whose payload is there in full decodes, whether or not the
/// payload is well-formed, and holds the payload byte for byte.
pub proof fn lemma_text_entry_keeps_payload(s: Seq<u8>)
    requires
        s.len() >= 2,
        s.len() - 2 >= u16_at(s, 0),
    ensures
        spec_const_block(s, 1) == Ok::<_, ParseError>(
            (
                s.skip(2 + u16_at(s, 0)),
                ConstantInfoView::Utf8(spec_utf8_constant(s.subrange(2, 2 + u16_at(s, 0)))),
            ),
        ),
        spec_utf8_constant(s.subrange(2, 2 + u16_at(s, 0))).bytes == s.subrange(
            2,
            2 + u16_at(s, 0),
        ),
{
}

/// Decodes what follows the tag `const_type` of a pool entry.
pub fn const_block_parser(input: &[u8], const_type: u8) -> (r: ParseResult<'_, ConstantInfo>)
    ensures
        viewed(r) == spec_const_block(input@, const_type),
{
    match const_type {
        1 => const_utf8(input),
        3 => const_integer(input),
        4 => const_float(input),
        5 => const_long(input),
        6 => const_double(input),
        7 => const_class(input),
        8 => const_string(input),
        9 => const_field_ref(input),
        10 => const_method_ref(input),
        11 => const_interface_method_ref(input),
        12 => const_name_and_type(input),
        15 => const_method_handle(input),
        16 => const_method_type(input),
        18 => const_invoke_dynamic(input),
        _ => Err(ParseError::InvalidDiscriminant),
    }
}

/// A pool entry: its tag and what follows from it.
pub open spec fn spec_single_constant(s: Seq<u8>) -> Decoded<ConstantInfoView> {
    match spec_be_u8(s) {
        Err(e) => Err(e),
        Ok((rest, const_type)) => spec_const_block(rest, const_type),
    }
}

/// Decodes one entry of the constant pool.
pub fn single_constant_parser(input: &[u8]) -> (r: ParseResult<'_, ConstantInfo>)
    ensures
        viewed(r) == spec_single_constant(input@),
{
    let (rest, const_type) = be_u8(input)?;
    const_block_parser(rest, const_type)
}

/// A decoded entry takes up at least three bytes, and what is left behind
/// it is what remains of the input.
pub proof fn lemma_constant_advances(s: Seq<u8>)
    ensures
        spec_single_constant(s) matches Ok((rest, c)) ==> rest.len() + 3 <= s.len() && (is_wide(c)
            ==> rest.len() + 9 <= s.len()) && remains_of(rest, s),
{
    if s.len() >= 1 {
        lemma_skip_remains(s, 1);
        match spec_const_block(s.skip(1), s[0]) {
            Ok((rest, c)) => {
                assert(remains_of(rest, s.skip(1))) by {
                    reveal(remains_of);
                }
                lemma_remains_of_remains(rest, s.skip(1), s);
            },
            Err(e) => {},
        }
    }
}

/// Whether an entry takes up two indices of the pool.
pub open spec fn is_wide(c: ConstantInfoView) -> bool {
    c is Long || c is Double
}

/// The number of indices of the pool that an entry takes up.
pub open spec fn indices_of(c: ConstantInfoView) -> int {
    if is_wide(c) {
        2
    } else {
        1
    }
}

/// The slots that one decoded entry fills: the entry, and behind a wide
/// entry the slot that stands for nothing.
pub open spec fn slots_of(c: ConstantInfoView) -> Seq<ConstantInfoView> {
    if is_wide(c) {
        seq![c, ConstantInfoView::Unusable]
    } else {
        seq![c]
    }
}

/// The slots of a constant pool of which `remaining` indices are still to
/// be filled: entries are decoded one after another until no index is
/// left, and a wide entry fills two.
pub open spec fn spec_constant_pool(s: Seq<u8>, remaining: int) -> Decoded<Seq<ConstantInfoView>>
    decreases remaining + 1,
{
    if remaining <= 0 {
        Ok((s, Seq::empty()))
    } else {
        match spec_single_constant(s) {
            Err(e) => Err(e),
            Ok((rest, c)) => prefixed(
                slots_of(c),
                spec_constant_pool(rest, remaining - indices_of(c)),
            ),
        }
    }
}

/// Every wide entry of `pool` has a slot behind it, and that slot, and no
/// other, is unusable.
pub open spec fn wide_entries_padded(pool: Seq<ConstantInfoView>) -> bool {
    &&& forall|i: int|
        0 <= i < pool.len() && is_wide(#[trigger] pool[i]) ==> i + 1 < pool.len() && pool[i
            + 1] is Unusable
    &&& forall|i: int|
        0 <= i < pool.len() && #[trigger] pool[i] is Unusable ==> i > 0 && is_wide(pool[i - 1])
}

/// No decoded entry is the unusable slot: that slot stands in no class
/// file.
pub proof fn lemma_decoded_constant_is_usable(s: Seq<u8>)
    ensures
        spec_single_constant(s) matches Ok((rest, c)) ==> !(c is Unusable),
{
}

/// A decoded pool has as many slots as were asked for, or one more where
/// its last entry is wide: its last slot is then the unusable one. Its
/// first slot holds an entry.
pub proof fn lemma_pool_size(s: Seq<u8>, remaining: int)
    ensures
        spec_constant_pool(s, remaining) matches Ok((rest, pool)) ==> {
            &&& remaining <= 0 ==> pool.len() == 0
            &&& remaining > 0 ==> remaining <= pool.len() <= remaining + 1
            &&& remaining > 0 ==> !(pool[0] is Unusable)
            &&& remaining > 0 && pool.len() == remaining + 1 ==> pool.last() is Unusable
        },
    decreases remaining + 1,
{
    if remaining > 0 {
        match spec_single_constant(s) {
            Err(e) => {},
            Ok((after, c)) => {
                lemma_pool_size(after, remaining - indices_of(c));
            },
        }
    }
}

/// In a decoded pool the slot behind every Long and Double entry is
/// unusable, the entry that was decoded next stands behind that slot, and
/// no other slot is unusable.
pub proof fn lemma_pool_slots(s: Seq<u8>, remaining: int)
    ensures
        spec_constant_pool(s, remaining) matches Ok((rest, pool)) ==> wide_entries_padded(pool),
    decreases remaining + 1,
{
    if remaining > 0 {
        match spec_single_constant(s) {
            Err(e) => {},
            Ok((after, c)) => {
                let head = slots_of(c);
                let left = remaining - indices_of(c);
                lemma_pool_slots(after, left);
                lemma_pool_size(after, left);
                match spec_constant_pool(after, left) {
                    Err(e) => {},
                    Ok((rest, tail)) => {
                        let pool = head + tail;
                        assert forall|i: int|
                            0 <= i < pool.len() && is_wide(#[trigger] pool[i]) implies i + 1
                            < pool.len() && pool[i + 1] is Unusable by {
                            if i >= head.len() {
                                assert(is_wide(tail[i - head.len()]));
                            }
                        }
                        assert forall|i: int|
                            0 <= i < pool.len() && #[trigger] pool[i] is Unusable implies i > 0
                            && is_wide(pool[i - 1]) by {
                            if i >= head.len() {
                                let j = i - head.len();
                                assert(tail[j] is Unusable);
                                if j > 0 {
                                    assert(pool[i - 1] == tail[j - 1]);
                                }
                            }
                        }
                    },
                }
            },
        }
    }
}

/// What is left behind a decoded pool is what remains of the input, and
/// the pool has no more slots than it takes up bytes.
pub proof fn lemma_pool_advances(s: Seq<u8>, remaining: int)
    ensures
        spec_constant_pool(s, remaining) matches Ok((rest, pool)) ==> remains_of(rest, s)
            && rest.len() + pool.len() <= s.len(),
    decreases remaining + 1,
{
    if remaining > 0 {
        lemma_constant_advances(s);
        match spec_single_constant(s) {
            Err(e) => {},
            Ok((after, c)) => {
                lemma_pool_advances(after, remaining - indices_of(c));
                match spec_constant_pool(after, remaining - indices_of(c)) {
                    Ok((rest, tail)) => {
                        lemma_remains_of_remains(rest, after, s);
                    },
                    Err(e) => {},
                }
            },
        }
    } else {
        lemma_skip_remains(s, 0);
    }
}

/// Behind a wide entry stands the unusable slot, and behind that the entry
/// that is decoded next.
pub proof fn lemma_entry_behind_a_wide_entry(
    s: Seq<u8>,
    remaining: int,
    entry: ConstantInfoView,
    after: Seq<u8>,
)
    requires
        remaining > 0,
        spec_single_constant(s) == Ok::<_, ParseError>((after, entry)),
        is_wide(entry),
        spec_constant_pool(s, remaining) is Ok,
    ensures
        ({
            let pool = spec_constant_pool(s, remaining)->Ok_0.1;
            &&& pool.len() >= 2
            &&& pool[0] == entry
            &&& pool[1] is Unusable
            &&& remaining > 2 ==> pool.len() >= 3 && spec_single_constant(after) is Ok && pool[2]
                == spec_single_constant(after)->Ok_0.1
        }),
{
    match spec_constant_pool(after, remaining - 2) {
        Ok((rest, tail)) => {
            let pool = slots_of(entry) + tail;
            assert(pool[0] == entry);
            assert(pool[1] is Unusable);
            if remaining > 2 {
                match spec_single_constant(after) {
                    Ok((after_next, next)) => {
                        match spec_constant_pool(after_next, remaining - 2 - indices_of(next)) {
                            Ok((end, more)) => {
                                assert(tail == slots_of(next) + more);
                                assert(tail[0] == next);
                                assert(pool[2] == tail[0]);
                            },
                            Err(e) => {},
                        }
                    },
                    Err(e) => {},
                }
            }
        },
        Err(e) => {},
    }
}

/// Decodes a constant pool of `const_pool_size` indices, which is one less
/// than the size that the class file declares.
///
/// A failure at any entry is the failure of the whole pool.
pub fn constant_parser(i: &[u8], const_pool_size: usize) -> (r: ParseResult<'_, Vec<ConstantInfo>>)
    ensures
        deep(r) == spec_constant_pool(i@, const_pool_size as int),
        r matches Ok((rest, pool)) ==> wide_entries_padded(pool.deep_view()) && const_pool_size
            <= pool.len() <= const_pool_size + 1,
{
    let mut input = i;
    let mut res: Vec<ConstantInfo> = Vec::new();
    let mut remaining = const_pool_size;
    proof {
        lemma_pool_slots(i@, const_pool_size as int);
        lemma_pool_size(i@, const_pool_size as int);
    }
    while remaining > 0
        invariant
            spec_constant_pool(i@, const_pool_size as int) == prefixed(
                res.deep_view(),
                spec_constant_pool(input@, remaining as int),
            ),
        decreases remaining,
    {
        let (rest, o) = single_constant_parser(input)?;
        let ghost before = res.deep_view();
        let ghost left = remaining - indices_of(o@);
        let uses_two_entries = matches!(o, ConstantInfo::Long(..) | ConstantInfo::Double(..));
        res.push(o);
        if uses_two_entries {
            res.push(ConstantInfo::Unusable);
            remaining = if remaining >= 2 {
                remaining - 2
            } else {
                0
            };
        } else {
            remaining = remaining - 1;
        }
        proof {
            match spec_constant_pool(rest@, left) {
                Ok((end, tail)) => {
                    assert(before + (slots_of(o@) + tail) =~= res.deep_view() + tail);
                },
                Err(e) => {},
            }
        }
        input = rest;
    }
    Ok((input, res))
}

/// The entry that the index `index` of a class file points to in `pool`.
/// Indices count from one, and the slot behind a wide entry holds no entry.
pub open spec fn spec_constant_at(pool: Seq<ConstantInfoView>, index: u16) -> Result<
    ConstantInfoView,
    LookupError,
> {
    if index == 0 || index > pool.len() {
        Err(LookupError::NoSuchIndex)
    } else if pool[index - 1] is Unusable {
        Err(LookupError::UnusableSlot)
    } else {
        Ok(pool[index - 1])
    }
}

/// Looks up the entry that the index `index` of a class file points to.
pub fn constant_at(pool: &Vec<ConstantInfo>, index: u16) -> (r: Result<&ConstantInfo, LookupError>)
    ensures
        match r {
            Ok(entry) => spec_constant_at(pool.deep_view(), index) == Ok::<_, LookupError>(
                entry@,
            ) && *entry == pool[index - 1],
            Err(e) => spec_constant_at(pool.deep_view(), index) == Err::<ConstantInfoView, _>(e),
        },
{
    if index == 0 || index as usize > pool.len() {
        return Err(LookupError::NoSuchIndex);
    }
    let entry = &pool[index as usize - 1];
    match entry {
        ConstantInfo::Unusable => Err(LookupError::UnusableSlot),
        _ => Ok(entry),
    }
}

} // verus!
