//! The decoders of attributes.
//!
//! [`attribute_parser`] reads any attribute from the class file and keeps
//! its payload as bytes. The other decoders read one kind of payload each;
//! which of them fits an attribute follows from its name, which the caller
//! looks up in the constant pool.

use super::types::{
    AttributeInfo, AttributeInfoView, BootstrapMethod, BootstrapMethodView,
    BootstrapMethodsAttribute, BootstrapMethodsAttributeView, CodeAttribute, CodeAttributeView,
    ConstantValueAttribute, ExceptionEntry, ExceptionsAttribute, ExceptionsAttributeView,
    MethodParametersAttribute, MethodParametersAttributeView, ParameterAttribute,
    SourceFileAttribute, StackMapFrame, StackMapFrameView, StackMapTableAttribute,
    StackMapTableAttributeView, VerificationTypeInfo,
};
use crate::cursor::{
    be_u16, be_u32, be_u8, lemma_remains_is_no_longer, lemma_remains_of_remains,
    lemma_skip_remains, plain, remains_of, spec_be_u16, spec_be_u8, take, u16_at, u32_at, viewed,
    Decoded, ParseError, ParseResult,
};
use crate::list::{
    count, counted, lemma_count_advances, lemma_count_len, lemma_counted, lemma_counted_advances,
    spec_count, spec_counted, Decode,
};
use vstd::prelude::*;
use vstd::slice::slice_to_vec;

verus! {

/// An attribute: the index of its name, the length of its payload, and
/// that many bytes of payload, whatever the name is.
pub open spec fn spec_attribute(s: Seq<u8>) -> Decoded<AttributeInfoView> {
    if s.len() < 6 || s.len() - 6 < u32_at(s, 2) {
        Err(ParseError::InsufficientInput)
    } else {
        Ok(
            (
                s.skip(6 + u32_at(s, 2)),
                AttributeInfoView {
                    attribute_name_index: u16_at(s, 0),
                    attribute_length: u32_at(s, 2),
                    info: s.subrange(6, 6 + u32_at(s, 2)),
                },
            ),
        )
    }
}

/// Decodes one attribute, keeping its payload as it stands.
pub fn attribute_parser(input: &[u8]) -> (r: ParseResult<'_, AttributeInfo>)
    ensures
        viewed(r) == spec_attribute(input@),
        r matches Ok((rest, attribute)) ==> attribute@.well_formed(),
{
    let (rest, attribute_name_index) = be_u16(input)?;
    let (rest, attribute_length) = be_u32(rest)?;
    let (rest, info) = take(rest, attribute_length as usize)?;
    assert(rest@ == input@.skip(6 + attribute_length));
    assert(info@ == input@.subrange(6, 6 + attribute_length));
    Ok((rest, AttributeInfo { attribute_name_index, attribute_length, info: slice_to_vec(info) }))
}

impl Decode for AttributeInfo {
    open spec fn spec_decode(s: Seq<u8>) -> Decoded<AttributeInfoView> {
        spec_attribute(s)
    }

    fn decode(input: &[u8]) -> (r: ParseResult<'_, AttributeInfo>) {
        attribute_parser(input)
    }

    proof fn lemma_decode_advances(s: Seq<u8>) {
        reveal(remains_of);
    }
}

/// One row of an exception table: four 16-bit values.
pub open spec fn spec_exception_entry(s: Seq<u8>) -> Decoded<ExceptionEntry> {
    if s.len() < 8 {
        Err(ParseError::InsufficientInput)
    } else {
        Ok(
            (
                s.skip(8),
                ExceptionEntry {
                    start_pc: u16_at(s, 0),
                    end_pc: u16_at(s, 2),
                    handler_pc: u16_at(s, 4),
                    catch_type: u16_at(s, 6),
                },
            ),
        )
    }
}

/// Decodes one row of an exception table.
pub fn exception_entry_parser(input: &[u8]) -> (r: ParseResult<'_, ExceptionEntry>)
    ensures
        plain(r) == spec_exception_entry(input@),
{
    let (rest, start_pc) = be_u16(input)?;
    let (rest, end_pc) = be_u16(rest)?;
    let (rest, handler_pc) = be_u16(rest)?;
    let (rest, catch_type) = be_u16(rest)?;
    assert(rest@ == input@.skip(8));
    Ok((rest, ExceptionEntry { start_pc, end_pc, handler_pc, catch_type }))
}

impl Decode for ExceptionEntry {
    open spec fn spec_decode(s: Seq<u8>) -> Decoded<ExceptionEntry> {
        spec_exception_entry(s)
    }

    fn decode(input: &[u8]) -> (r: ParseResult<'_, ExceptionEntry>) {
        exception_entry_parser(input)
    }

    proof fn lemma_decode_advances(s: Seq<u8>) {
        reveal(remains_of);
    }
}

/// Every decoded attribute is well-formed.
pub proof fn lemma_attribute_well_formed(s: Seq<u8>)
    ensures
        spec_attribute(s) matches Ok((rest, attribute)) ==> attribute.well_formed(),
{
}

/// Every attribute of a decoded list of attributes is well-formed, and the
/// list is as long as its count says.
pub proof fn lemma_attributes_well_formed(s: Seq<u8>)
    ensures
        spec_counted::<AttributeInfo>(s) matches Ok((rest, (n, attributes))) ==> attributes.len()
            == n && forall|i: int|
            0 <= i < attributes.len() ==> (#[trigger] attributes[i]).well_formed(),
{
    assert forall|t: Seq<u8>| (#[trigger] AttributeInfo::spec_decode(t)) matches Ok((rest, v))
        ==> v.well_formed() by {
        lemma_attribute_well_formed(t);
    }
    lemma_counted::<AttributeInfo>(s, |a: AttributeInfoView| a.well_formed());
}

/// The payload of a `Code` attribute: the two limits, the length of the
/// bytecode and the bytecode, the counted exception table, and the counted
/// attributes of the code.
pub open spec fn spec_code_attribute(s: Seq<u8>) -> Decoded<CodeAttributeView> {
    if s.len() < 8 || s.len() - 8 < u32_at(s, 4) {
        Err(ParseError::InsufficientInput)
    } else {
        match spec_counted::<ExceptionEntry>(s.skip(8 + u32_at(s, 4))) {
            Err(e) => Err(e),
            Ok((after_table, (exception_table_length, exception_table))) => match spec_counted::<
                AttributeInfo,
            >(after_table) {
                Err(e) => Err(e),
                Ok((rest, (attributes_count, attributes))) => Ok(
                    (
                        rest,
                        CodeAttributeView {
                            max_stack: u16_at(s, 0),
                            max_locals: u16_at(s, 2),
                            code_length: u32_at(s, 4),
                            code: s.subrange(8, 8 + u32_at(s, 4)),
                            exception_table_length,
                            exception_table,
                            attributes_count,
                            attributes,
                        },
                    ),
                ),
            },
        }
    }
}

/// Every decoded `Code` payload is well-formed.
pub proof fn lemma_code_attribute_well_formed(s: Seq<u8>)
    ensures
        spec_code_attribute(s) matches Ok((rest, code)) ==> code.well_formed(),
{
    if s.len() >= 8 && s.len() - 8 >= u32_at(s, 4) {
        let after_code = s.skip(8 + u32_at(s, 4));
        lemma_counted::<ExceptionEntry>(after_code, |e: ExceptionEntry| true);
        match spec_counted::<ExceptionEntry>(after_code) {
            Err(e) => {},
            Ok((after_table, table)) => {
                lemma_attributes_well_formed(after_table);
            },
        }
    }
}

/// Decodes the payload of a `Code` attribute. The bytecode is kept as
/// bytes and the attributes of the code are kept undecoded.
pub fn code_attribute_parser(input: &[u8]) -> (r: ParseResult<'_, CodeAttribute>)
    ensures
        viewed(r) == spec_code_attribute(input@),
        r matches Ok((rest, code)) ==> code@.well_formed(),
{
    proof {
        lemma_code_attribute_well_formed(input@);
    }
    let (rest, max_stack) = be_u16(input)?;
    let (rest, max_locals) = be_u16(rest)?;
    let (rest, code_length) = be_u32(rest)?;
    let (rest, code) = take(rest, code_length as usize)?;
    assert(rest@ == input@.skip(8 + code_length));
    assert(code@ == input@.subrange(8, 8 + code_length));
    let (rest, (exception_table_length, exception_table)) = counted::<ExceptionEntry>(rest)?;
    let (rest, (attributes_count, attributes)) = counted::<AttributeInfo>(rest)?;
    assert(exception_table.deep_view() == exception_table@);
    Ok(
        (
            rest,
            CodeAttribute {
                max_stack,
                max_locals,
                code_length,
                code: slice_to_vec(code),
                exception_table_length,
                exception_table,
                attributes_count,
                attributes,
            },
        ),
    )
}

/// One formal parameter: two 16-bit values.
pub open spec fn spec_parameter(s: Seq<u8>) -> Decoded<ParameterAttribute> {
    if s.len() < 4 {
        Err(ParseError::InsufficientInput)
    } else {
        Ok((s.skip(4), ParameterAttribute { name_index: u16_at(s, 0), access_flags: u16_at(s, 2) }))
    }
}

/// Decodes one formal parameter.
pub fn parameters_parser(input: &[u8]) -> (r: ParseResult<'_, ParameterAttribute>)
    ensures
        plain(r) == spec_parameter(input@),
{
    let (rest, name_index) = be_u16(input)?;
    let (rest, access_flags) = be_u16(rest)?;
    assert(rest@ == input@.skip(4));
    Ok((rest, ParameterAttribute { name_index, access_flags }))
}

impl Decode for ParameterAttribute {
    open spec fn spec_decode(s: Seq<u8>) -> Decoded<ParameterAttribute> {
        spec_parameter(s)
    }

    fn decode(input: &[u8]) -> (r: ParseResult<'_, ParameterAttribute>) {
        parameters_parser(input)
    }

    proof fn lemma_decode_advances(s: Seq<u8>) {
        reveal(remains_of);
    }
}

/// The payload of a `MethodParameters` attribute: a count of one byte and
/// that many parameters.
pub open spec fn spec_method_parameters(s: Seq<u8>) -> Decoded<MethodParametersAttributeView> {
    match spec_be_u8(s) {
        Err(e) => Err(e),
        Ok((after_count, parameters_count)) => match spec_count::<ParameterAttribute>(
            parameters_count as nat,
            after_count,
        ) {
            Err(e) => Err(e),
            Ok((rest, parameters)) => Ok(
                (rest, MethodParametersAttributeView { parameters_count, parameters }),
            ),
        },
    }
}

/// Every decoded `MethodParameters` payload is well-formed.
pub proof fn lemma_method_parameters_well_formed(s: Seq<u8>)
    ensures
        spec_method_parameters(s) matches Ok((rest, parameters)) ==> parameters.well_formed(),
{
    if s.len() >= 1 {
        lemma_count_len::<ParameterAttribute>(s[0] as nat, s.skip(1));
    }
}

/// Decodes the payload of a `MethodParameters` attribute.
pub fn method_parameters_attribute_parser(input: &[u8]) -> (r: ParseResult<
    '_,
    MethodParametersAttribute,
>)
    ensures
        viewed(r) == spec_method_parameters(input@),
        r matches Ok((rest, parameters)) ==> parameters@.well_formed(),
{
    proof {
        lemma_method_parameters_well_formed(input@);
    }
    let (rest, parameters_count) = be_u8(input)?;
    let (rest, parameters) = count::<ParameterAttribute>(rest, parameters_count as usize)?;
    assert(parameters.deep_view() == parameters@);
    Ok((rest, MethodParametersAttribute { parameters_count, parameters }))
}

/// A verification type: a tag from 0 to 8, and for the tags 7 and 8 a
/// 16-bit operand.
pub open spec fn spec_verification_type(s: Seq<u8>) -> Decoded<VerificationTypeInfo> {
    if s.len() < 1 {
        Err(ParseError::InsufficientInput)
    } else if s[0] == 0 {
        Ok((s.skip(1), VerificationTypeInfo::Top))
    } else if s[0] == 1 {
        Ok((s.skip(1), VerificationTypeInfo::Integer))
    } else if s[0] == 2 {
        Ok((s.skip(1), VerificationTypeInfo::Float))
    } else if s[0] == 3 {
        Ok((s.skip(1), VerificationTypeInfo::Double))
    } else if s[0] == 4 {
        Ok((s.skip(1), VerificationTypeInfo::Long))
    } else if s[0] == 5 {
        Ok((s.skip(1), VerificationTypeInfo::Null))
    } else if s[0] == 6 {
        Ok((s.skip(1), VerificationTypeInfo::UninitializedThis))
    } else if s[0] > 8 {
        Err(ParseError::InvalidDiscriminant)
    } else if s.len() < 3 {
        Err(ParseError::InsufficientInput)
    } else if s[0] == 7 {
        Ok((s.skip(3), VerificationTypeInfo::Object { class: u16_at(s, 1) }))
    } else {
        Ok((s.skip(3), VerificationTypeInfo::Uninitialized { offset: u16_at(s, 1) }))
    }
}

/// Decodes one verification type.
pub fn verification_type_parser(input: &[u8]) -> (r: ParseResult<'_, VerificationTypeInfo>)
    ensures
        plain(r) == spec_verification_type(input@),
{
    let (rest, tag) = be_u8(input)?;
    match tag {
        0 => Ok((rest, VerificationTypeInfo::Top)),
        1 => Ok((rest, VerificationTypeInfo::Integer)),
        2 => Ok((rest, VerificationTypeInfo::Float)),
        3 => Ok((rest, VerificationTypeInfo::Double)),
        4 => Ok((rest, VerificationTypeInfo::Long)),
        5 => Ok((rest, VerificationTypeInfo::Null)),
        6 => Ok((rest, VerificationTypeInfo::UninitializedThis)),
        7 => {
            let (rest, class) = be_u16(rest)?;
            assert(rest@ == input@.skip(3));
            Ok((rest, VerificationTypeInfo::Object { class }))
        },
        8 => {
            let (rest, offset) = be_u16(rest)?;
            assert(rest@ == input@.skip(3));
            Ok((rest, VerificationTypeInfo::Uninitialized { offset }))
        },
        _ => Err(ParseError::InvalidDiscriminant),
    }
}

impl Decode for VerificationTypeInfo {
    open spec fn spec_decode(s: Seq<u8>) -> Decoded<VerificationTypeInfo> {
        spec_verification_type(s)
    }

    fn decode(input: &[u8]) -> (r: ParseResult<'_, VerificationTypeInfo>) {
        verification_type_parser(input)
    }

    proof fn lemma_decode_advances(s: Seq<u8>) {
        reveal(remains_of);
    }
}

/// A frame that says no more than its type.
fn same_frame_parser(input: &[u8], frame_type: u8) -> (r: ParseResult<'_, StackMapFrame>)
    ensures
        r == Ok::<_, ParseError>((input, StackMapFrame::SameFrame { frame_type })),
{
    Ok((input, StackMapFrame::SameFrame { frame_type }))
}

/// What follows the type of a frame with the same locals and one stack
/// item: the verification type of that item.
pub open spec fn spec_same_locals_1_stack_item_frame(s: Seq<u8>, frame_type: u8) -> Decoded<
    StackMapFrameView,
> {
    match spec_verification_type(s) {
        Err(e) => Err(e),
        Ok((rest, stack)) => Ok(
            (rest, StackMapFrameView::SameLocals1StackItemFrame { frame_type, stack }),
        ),
    }
}

/// Decodes what follows the type of a frame with the same locals and one
/// stack item. The frame takes the type that is handed in, whatever it is.
pub fn same_locals_1_stack_item_frame_parser(input: &[u8], frame_type: u8) -> (r: ParseResult<
    '_,
    StackMapFrame,
>)
    ensures
        viewed(r) == spec_same_locals_1_stack_item_frame(input@, frame_type),
{
    let (rest, stack) = verification_type_parser(input)?;
    Ok((rest, StackMapFrame::SameLocals1StackItemFrame { frame_type, stack }))
}

/// What follows the type of the extended form of that frame: an offset and
/// the verification type of the stack item.
pub open spec fn spec_same_locals_1_stack_item_frame_extended(
    s: Seq<u8>,
    frame_type: u8,
) -> Decoded<StackMapFrameView> {
    match spec_be_u16(s) {
        Err(e) => Err(e),
        Ok((after_delta, offset_delta)) => match spec_verification_type(after_delta) {
            Err(e) => Err(e),
            Ok((rest, stack)) => Ok(
                (
                    rest,
                    StackMapFrameView::SameLocals1StackItemFrameExtended {
                        frame_type,
                        offset_delta,
                        stack,
                    },
                ),
            ),
        },
    }
}

fn same_locals_1_stack_item_frame_extended_parser(input: &[u8], frame_type: u8) -> (r:
    ParseResult<'_, StackMapFrame>)
    ensures
        viewed(r) == spec_same_locals_1_stack_item_frame_extended(input@, frame_type),
{
    let (rest, offset_delta) = be_u16(input)?;
    let (rest, stack) = verification_type_parser(rest)?;
    Ok((rest, StackMapFrame::SameLocals1StackItemFrameExtended { frame_type, offset_delta, stack }))
}

/// What follows the type of a chop frame: an offset.
pub open spec fn spec_chop_frame(s: Seq<u8>, frame_type: u8) -> Decoded<StackMapFrameView> {
    match spec_be_u16(s) {
        Err(e) => Err(e),
        Ok((rest, offset_delta)) => Ok(
            (rest, StackMapFrameView::ChopFrame { frame_type, offset_delta }),
        ),
    }
}

fn chop_frame_parser(input: &[u8], frame_type: u8) -> (r: ParseResult<'_, StackMapFrame>)
    ensures
        viewed(r) == spec_chop_frame(input@, frame_type),
{
    let (rest, offset_delta) = be_u16(input)?;
    Ok((rest, StackMapFrame::ChopFrame { frame_type, offset_delta }))
}

/// What follows the type of the extended same frame: an offset.
pub open spec fn spec_same_frame_extended(s: Seq<u8>, frame_type: u8) -> Decoded<
    StackMapFrameView,
> {
    match spec_be_u16(s) {
        Err(e) => Err(e),
        Ok((rest, offset_delta)) => Ok(
            (rest, StackMapFrameView::SameFrameExtended { frame_type, offset_delta }),
        ),
    }
}

fn same_frame_extended_parser(input: &[u8], frame_type: u8) -> (r: ParseResult<
    '_,
    StackMapFrame,
>)
    ensures
        viewed(r) == spec_same_frame_extended(input@, frame_type),
{
    let (rest, offset_delta) = be_u16(input)?;
    Ok((rest, StackMapFrame::SameFrameExtended { frame_type, offset_delta }))
}

/// What follows the type of an append frame: an offset and the
/// verification types of `frame_type - 251` further locals.
pub open spec fn spec_append_frame(s: Seq<u8>, frame_type: u8) -> Decoded<StackMapFrameView> {
    match spec_be_u16(s) {
        Err(e) => Err(e),
        Ok((after_delta, offset_delta)) => match spec_count::<VerificationTypeInfo>(
            (frame_type - 251) as nat,
            after_delta,
        ) {
            Err(e) => Err(e),
            Ok((rest, locals)) => Ok(
                (rest, StackMapFrameView::AppendFrame { frame_type, offset_delta, locals }),
            ),
        },
    }
}

fn append_frame_parser(input: &[u8], frame_type: u8) -> (r: ParseResult<'_, StackMapFrame>)
    requires
        frame_type >= 251,
    ensures
        viewed(r) == spec_append_frame(input@, frame_type),
{
    let (rest, offset_delta) = be_u16(input)?;
    let (rest, locals) = count::<VerificationTypeInfo>(rest, (frame_type - 251) as usize)?;
    assert(locals.deep_view() == locals@);
    Ok((rest, StackMapFrame::AppendFrame { frame_type, offset_delta, locals }))
}

/// What follows the type of a full frame: an offset, the counted
/// verification types of the locals, and those of the stack.
pub open spec fn spec_full_frame(s: Seq<u8>, frame_type: u8) -> Decoded<StackMapFrameView> {
    match spec_be_u16(s) {
        Err(e) => Err(e),
        Ok((after_delta, offset_delta)) => match spec_counted::<VerificationTypeInfo>(
            after_delta,
        ) {
            Err(e) => Err(e),
            Ok((after_locals, (number_of_locals, locals))) => match spec_counted::<
                VerificationTypeInfo,
            >(after_locals) {
                Err(e) => Err(e),
                Ok((rest, (number_of_stack_items, stack))) => Ok(
                    (
                        rest,
                        StackMapFrameView::FullFrame {
                            frame_type,
                            offset_delta,
                            number_of_locals,
                            locals,
                            number_of_stack_items,
                            stack,
                        },
                    ),
                ),
            },
        },
    }
}

fn full_frame_parser(input: &[u8], frame_type: u8) -> (r: ParseResult<'_, StackMapFrame>)
    ensures
        viewed(r) == spec_full_frame(input@, frame_type),
{
    let (rest, offset_delta) = be_u16(input)?;
    let (rest, (number_of_locals, locals)) = counted::<VerificationTypeInfo>(rest)?;
    let (rest, (number_of_stack_items, stack)) = counted::<VerificationTypeInfo>(rest)?;
    assert(locals.deep_view() == locals@);
    assert(stack.deep_view() == stack@);
    Ok(
        (
            rest,
            StackMapFrame::FullFrame {
                frame_type,
                offset_delta,
                number_of_locals,
                locals,
                number_of_stack_items,
                stack,
            },
        ),
    )
}

/// What follows the type of a frame. The type decides the shape by the
/// range that it lies in; the types from 128 to 246 stand for no shape.
pub open spec fn spec_stack_frame(s: Seq<u8>, frame_type: u8) -> Decoded<StackMapFrameView> {
    if frame_type <= 63 {
        Ok((s, StackMapFrameView::SameFrame { frame_type }))
    } else if frame_type <= 127 {
        spec_same_locals_1_stack_item_frame(s, frame_type)
    } else if frame_type <= 246 {
        Err(ParseError::InvalidDiscriminant)
    } else if frame_type == 247 {
        spec_same_locals_1_stack_item_frame_extended(s, frame_type)
    } else if frame_type <= 250 {
        spec_chop_frame(s, frame_type)
    } else if frame_type == 251 {
        spec_same_frame_extended(s, frame_type)
    } else if frame_type <= 254 {
        spec_append_frame(s, frame_type)
    } else {
        spec_full_frame(s, frame_type)
    }
}

/// The frame types from 128 to 246 stand for no shape: a frame of such a
/// type fails to decode, whatever follows the type.
pub proof fn lemma_reserved_frame_types_fail(s: Seq<u8>, frame_type: u8)
    requires
        128 <= frame_type <= 246,
    ensures
        spec_stack_frame(s, frame_type) == Err::<(Seq<u8>, StackMapFrameView), _>(
            ParseError::InvalidDiscriminant,
        ),
{
}

/// What is left behind the operands of a frame is what remains of the
/// input.
pub proof fn lemma_stack_frame_remains(s: Seq<u8>, frame_type: u8)
    ensures
        spec_stack_frame(s, frame_type) matches Ok((rest, frame)) ==> remains_of(rest, s),
{
    lemma_skip_remains(s, 0);
    if frame_type <= 127 {
        VerificationTypeInfo::lemma_decode_advances(s);
    } else if frame_type >= 247 && s.len() >= 2 {
        let after_delta = s.skip(2);
        lemma_skip_remains(s, 2);
        if frame_type == 247 {
            VerificationTypeInfo::lemma_decode_advances(after_delta);
            match spec_verification_type(after_delta) {
                Ok((rest, stack)) => {
                    lemma_remains_of_remains(rest, after_delta, s);
                },
                Err(e) => {},
            }
        } else if 252 <= frame_type <= 254 {
            lemma_count_advances::<VerificationTypeInfo>((frame_type - 251) as nat, after_delta);
            match spec_count::<VerificationTypeInfo>((frame_type - 251) as nat, after_delta) {
                Ok((rest, locals)) => {
                    lemma_remains_of_remains(rest, after_delta, s);
                },
                Err(e) => {},
            }
        } else if frame_type == 255 {
            lemma_counted_advances::<VerificationTypeInfo>(after_delta);
            match spec_counted::<VerificationTypeInfo>(after_delta) {
                Ok((after_locals, locals)) => {
                    lemma_remains_of_remains(after_locals, after_delta, s);
                    lemma_counted_advances::<VerificationTypeInfo>(after_locals);
                    match spec_counted::<VerificationTypeInfo>(after_locals) {
                        Ok((rest, stack)) => {
                            lemma_remains_of_remains(rest, after_locals, s);
                        },
                        Err(e) => {},
                    }
                },
                Err(e) => {},
            }
        }
    }
}

/// Every decoded frame is well-formed.
pub proof fn lemma_stack_frame_well_formed(s: Seq<u8>, frame_type: u8)
    ensures
        spec_stack_frame(s, frame_type) matches Ok((rest, frame)) ==> frame.well_formed(),
{
    if frame_type >= 252 && s.len() >= 2 {
        let after_delta = s.skip(2);
        if frame_type <= 254 {
            lemma_count_len::<VerificationTypeInfo>((frame_type - 251) as nat, after_delta);
        } else {
            lemma_counted::<VerificationTypeInfo>(after_delta, |v: VerificationTypeInfo| true);
            match spec_counted::<VerificationTypeInfo>(after_delta) {
                Err(e) => {},
                Ok((after_locals, locals)) => {
                    lemma_counted::<VerificationTypeInfo>(
                        after_locals,
                        |v: VerificationTypeInfo| true,
                    );
                },
            }
        }
    }
}

/// Decodes what follows the type of a frame.
pub fn stack_frame_parser(input: &[u8], frame_type: u8) -> (r: ParseResult<'_, StackMapFrame>)
    ensures
        viewed(r) == spec_stack_frame(input@, frame_type),
        r matches Ok((rest, frame)) ==> frame@.well_formed(),
{
    proof {
        lemma_stack_frame_well_formed(input@, frame_type);
    }
    match frame_type {
        0..=63 => same_frame_parser(input, frame_type),
        64..=127 => same_locals_1_stack_item_frame_parser(input, frame_type),
        247 => same_locals_1_stack_item_frame_extended_parser(input, frame_type),
        248..=250 => chop_frame_parser(input, frame_type),
        251 => same_frame_extended_parser(input, frame_type),
        252..=254 => append_frame_parser(input, frame_type),
        255 => full_frame_parser(input, frame_type),
        _ => Err(ParseError::InvalidDiscriminant),
    }
}

/// A frame: its type and what follows from it.
pub open spec fn spec_stack_map_frame_entry(s: Seq<u8>) -> Decoded<StackMapFrameView> {
    match spec_be_u8(s) {
        Err(e) => Err(e),
        Ok((rest, frame_type)) => spec_stack_frame(rest, frame_type),
    }
}

/// Decodes one frame of a stack map table.
pub fn stack_map_frame_entry_parser(input: &[u8]) -> (r: ParseResult<'_, StackMapFrame>)
    ensures
        viewed(r) == spec_stack_map_frame_entry(input@),
        r matches Ok((rest, frame)) ==> frame@.well_formed(),
{
    let (rest, frame_type) = be_u8(input)?;
    stack_frame_parser(rest, frame_type)
}

impl Decode for StackMapFrame {
    open spec fn spec_decode(s: Seq<u8>) -> Decoded<StackMapFrameView> {
        spec_stack_map_frame_entry(s)
    }

    fn decode(input: &[u8]) -> (r: ParseResult<'_, StackMapFrame>) {
        stack_map_frame_entry_parser(input)
    }

    proof fn lemma_decode_advances(s: Seq<u8>) {
        if s.len() >= 1 {
            lemma_skip_remains(s, 1);
            lemma_stack_frame_remains(s.skip(1), s[0]);
            match spec_stack_frame(s.skip(1), s[0]) {
                Ok((rest, frame)) => {
                    lemma_remains_is_no_longer(rest, s.skip(1));
                    lemma_remains_of_remains(rest, s.skip(1), s);
                },
                Err(e) => {},
            }
        }
    }
}

/// The payload of a `StackMapTable` attribute: the counted frames.
pub open spec fn spec_stack_map_table(s: Seq<u8>) -> Decoded<StackMapTableAttributeView> {
    match spec_counted::<StackMapFrame>(s) {
        Err(e) => Err(e),
        Ok((rest, (number_of_entries, entries))) => Ok(
            (rest, StackMapTableAttributeView { number_of_entries, entries }),
        ),
    }
}

/// Every decoded `StackMapTable` payload is well-formed.
pub proof fn lemma_stack_map_table_well_formed(s: Seq<u8>)
    ensures
        spec_stack_map_table(s) matches Ok((rest, table)) ==> table.well_formed(),
{
    assert forall|t: Seq<u8>| (#[trigger] StackMapFrame::spec_decode(t)) matches Ok((rest, v))
        ==> v.well_formed() by {
        if t.len() >= 1 {
            lemma_stack_frame_well_formed(t.skip(1), t[0]);
        }
    }
    lemma_counted::<StackMapFrame>(s, |f: StackMapFrameView| f.well_formed());
}

/// Decodes the payload of a `StackMapTable` attribute.
pub fn stack_map_table_attribute_parser(input: &[u8]) -> (r: ParseResult<
    '_,
    StackMapTableAttribute,
>)
    ensures
        viewed(r) == spec_stack_map_table(input@),
        r matches Ok((rest, table)) ==> table@.well_formed(),
{
    proof {
        lemma_stack_map_table_well_formed(input@);
    }
    let (rest, (number_of_entries, entries)) = counted::<StackMapFrame>(input)?;
    Ok((rest, StackMapTableAttribute { number_of_entries, entries }))
}

/// The payload of an `Exceptions` attribute: the counted class indices.
pub open spec fn spec_exceptions_attribute(s: Seq<u8>) -> Decoded<ExceptionsAttributeView> {
    match spec_counted::<u16>(s) {
        Err(e) => Err(e),
        Ok((rest, (exception_table_length, exception_table))) => Ok(
            (rest, ExceptionsAttributeView { exception_table_length, exception_table }),
        ),
    }
}

/// Decodes the payload of an `Exceptions` attribute.
pub fn exceptions_attribute_parser(input: &[u8]) -> (r: ParseResult<'_, ExceptionsAttribute>)
    ensures
        viewed(r) == spec_exceptions_attribute(input@),
        r matches Ok((rest, exceptions)) ==> exceptions@.well_formed(),
{
    proof {
        lemma_counted::<u16>(input@, |v: u16| true);
    }
    let (rest, (exception_table_length, exception_table)) = counted::<u16>(input)?;
    assert(exception_table.deep_view() == exception_table@);
    Ok((rest, ExceptionsAttribute { exception_table_length, exception_table }))
}

/// The payload of a `ConstantValue` attribute: one index.
pub open spec fn spec_constant_value(s: Seq<u8>) -> Decoded<ConstantValueAttribute> {
    match spec_be_u16(s) {
        Err(e) => Err(e),
        Ok((rest, constant_value_index)) => Ok(
            (rest, ConstantValueAttribute { constant_value_index }),
        ),
    }
}

/// Decodes the payload of a `ConstantValue` attribute.
pub fn constant_value_attribute_parser(input: &[u8]) -> (r: ParseResult<
    '_,
    ConstantValueAttribute,
>)
    ensures
        plain(r) == spec_constant_value(input@),
{
    let (rest, constant_value_index) = be_u16(input)?;
    Ok((rest, ConstantValueAttribute { constant_value_index }))
}

/// One bootstrap method: the index of its handle and its counted
/// arguments.
pub open spec fn spec_bootstrap_method(s: Seq<u8>) -> Decoded<BootstrapMethodView> {
    match spec_be_u16(s) {
        Err(e) => Err(e),
        Ok((after_ref, bootstrap_method_ref)) => match spec_counted::<u16>(after_ref) {
            Err(e) => Err(e),
            Ok((rest, (num_bootstrap_arguments, bootstrap_arguments))) => Ok(
                (
                    rest,
                    BootstrapMethodView {
                        bootstrap_method_ref,
                        num_bootstrap_arguments,
                        bootstrap_arguments,
                    },
                ),
            ),
        },
    }
}

/// Every decoded bootstrap method is well-formed.
pub proof fn lemma_bootstrap_method_well_formed(s: Seq<u8>)
    ensures
        spec_bootstrap_method(s) matches Ok((rest, method)) ==> method.well_formed(),
{
    if s.len() >= 2 {
        lemma_counted::<u16>(s.skip(2), |v: u16| true);
    }
}

/// Decodes one bootstrap method.
pub fn bootstrap_method_parser(input: &[u8]) -> (r: ParseResult<'_, BootstrapMethod>)
    ensures
        viewed(r) == spec_bootstrap_method(input@),
        r matches Ok((rest, method)) ==> method@.well_formed(),
{
    proof {
        lemma_bootstrap_method_well_formed(input@);
    }
    let (rest, bootstrap_method_ref) = be_u16(input)?;
    let (rest, (num_bootstrap_arguments, bootstrap_arguments)) = counted::<u16>(rest)?;
    assert(bootstrap_arguments.deep_view() == bootstrap_arguments@);
    Ok(
        (
            rest,
            BootstrapMethod { bootstrap_method_ref, num_bootstrap_arguments, bootstrap_arguments },
        ),
    )
}

impl Decode for BootstrapMethod {
    open spec fn spec_decode(s: Seq<u8>) -> Decoded<BootstrapMethodView> {
        spec_bootstrap_method(s)
    }

    fn decode(input: &[u8]) -> (r: ParseResult<'_, BootstrapMethod>) {
        bootstrap_method_parser(input)
    }

    proof fn lemma_decode_advances(s: Seq<u8>) {
        if s.len() >= 2 {
            lemma_skip_remains(s, 2);
            lemma_counted_advances::<u16>(s.skip(2));
            match spec_counted::<u16>(s.skip(2)) {
                Ok((rest, arguments)) => {
                    lemma_remains_of_remains(rest, s.skip(2), s);
                },
                Err(e) => {},
            }
        }
    }
}

/// The payload of a `BootstrapMethods` attribute: the counted methods.
pub open spec fn spec_bootstrap_methods(s: Seq<u8>) -> Decoded<BootstrapMethodsAttributeView> {
    match spec_counted::<BootstrapMethod>(s) {
        Err(e) => Err(e),
        Ok((rest, (num_bootstrap_methods, bootstrap_methods))) => Ok(
            (rest, BootstrapMethodsAttributeView { num_bootstrap_methods, bootstrap_methods }),
        ),
    }
}

/// Every decoded `BootstrapMethods` payload is well-formed.
pub proof fn lemma_bootstrap_methods_well_formed(s: Seq<u8>)
    ensures
        spec_bootstrap_methods(s) matches Ok((rest, methods)) ==> methods.well_formed(),
{
    assert forall|t: Seq<u8>| (#[trigger] BootstrapMethod::spec_decode(t)) matches Ok((rest, v))
        ==> v.well_formed() by {
        lemma_bootstrap_method_well_formed(t);
    }
    lemma_counted::<BootstrapMethod>(s, |m: BootstrapMethodView| m.well_formed());
}

/// Decodes the payload of a `BootstrapMethods` attribute.
pub fn bootstrap_methods_attribute_parser(input: &[u8]) -> (r: ParseResult<
    '_,
    BootstrapMethodsAttribute,
>)
    ensures
        viewed(r) == spec_bootstrap_methods(input@),
        r matches Ok((rest, methods)) ==> methods@.well_formed(),
{
    proof {
        lemma_bootstrap_methods_well_formed(input@);
    }
    let (rest, (num_bootstrap_methods, bootstrap_methods)) = counted::<BootstrapMethod>(input)?;
    Ok((rest, BootstrapMethodsAttribute { num_bootstrap_methods, bootstrap_methods }))
}

/// The payload of a `SourceFile` attribute: one index.
pub open spec fn spec_sourcefile(s: Seq<u8>) -> Decoded<SourceFileAttribute> {
    match spec_be_u16(s) {
        Err(e) => Err(e),
        Ok((rest, sourcefile_index)) => Ok((rest, SourceFileAttribute { sourcefile_index })),
    }
}

/// Decodes the payload of a `SourceFile` attribute.
pub fn sourcefile_attribute_parser(input: &[u8]) -> (r: ParseResult<'_, SourceFileAttribute>)
    ensures
        plain(r) == spec_sourcefile(input@),
{
    let (rest, sourcefile_index) = be_u16(input)?;
    Ok((rest, SourceFileAttribute { sourcefile_index }))
}

/// What the decoder of a `Code` payload leaves behind is what remains of
/// its input.
pub proof fn lemma_code_attribute_advances(s: Seq<u8>)
    ensures
        spec_code_attribute(s) matches Ok((rest, code)) ==> remains_of(rest, s),
{
    if s.len() >= 8 && s.len() - 8 >= u32_at(s, 4) {
        let after_code = s.skip(8 + u32_at(s, 4));
        lemma_skip_remains(s, 8 + u32_at(s, 4));
        lemma_counted_advances::<ExceptionEntry>(after_code);
        match spec_counted::<ExceptionEntry>(after_code) {
            Err(e) => {},
            Ok((after_table, table)) => {
                lemma_remains_of_remains(after_table, after_code, s);
                lemma_counted_advances::<AttributeInfo>(after_table);
                match spec_counted::<AttributeInfo>(after_table) {
                    Err(e) => {},
                    Ok((rest, attributes)) => {
                        lemma_remains_of_remains(rest, after_table, s);
                    },
                }
            },
        }
    }
}

/// What the decoder of any other payload leaves behind is what remains of
/// its input.
pub proof fn lemma_payloads_advance(s: Seq<u8>)
    ensures
        spec_method_parameters(s) matches Ok((rest, v)) ==> remains_of(rest, s),
        spec_stack_map_table(s) matches Ok((rest, v)) ==> remains_of(rest, s),
        spec_exceptions_attribute(s) matches Ok((rest, v)) ==> remains_of(rest, s),
        spec_constant_value(s) matches Ok((rest, v)) ==> remains_of(rest, s),
        spec_bootstrap_methods(s) matches Ok((rest, v)) ==> remains_of(rest, s),
        spec_sourcefile(s) matches Ok((rest, v)) ==> remains_of(rest, s),
{
    if s.len() >= 1 {
        lemma_skip_remains(s, 1);
        lemma_count_advances::<ParameterAttribute>(s[0] as nat, s.skip(1));
        match spec_count::<ParameterAttribute>(s[0] as nat, s.skip(1)) {
            Ok((rest, parameters)) => {
                lemma_remains_of_remains(rest, s.skip(1), s);
            },
            Err(e) => {},
        }
    }
    if s.len() >= 2 {
        lemma_skip_remains(s, 2);
    }
    lemma_counted_advances::<StackMapFrame>(s);
    lemma_counted_advances::<u16>(s);
    lemma_counted_advances::<BootstrapMethod>(s);
}

} // verus!
