//! The decoders of bytecode and of the local variable table.

use super::opcodes::{bare, wide_with_u16, with_i16, with_i32, with_i8, with_u16, with_u8};
use super::types::{
    Instruction, InstructionView, LocalVariableTableAttribute, LocalVariableTableAttributeView,
    LocalVariableTableItem,
};
use crate::cursor::{
    be_i16, be_i32, be_i8, be_u16, be_u32, be_u8, deep, i32_of, plain, remains_of, spec_be_i16,
    spec_be_i32,
    spec_be_i8, spec_be_u16, spec_be_u8, spec_tag, tag, take, u16_at, u32_at, viewed, Decoded,
    ParseError, ParseResult,
};
use crate::list::{
    count, counted, lemma_count_len, lemma_counted, prefixed, spec_count, spec_counted, Decode,
};
use vstd::prelude::*;

verus! {

/// The instruction that opcode `op` stands for behind the `wide` prefix,
/// with the first bytes of `s` as its operands.
#[verifier::opaque]
pub open spec fn spec_wide_instruction(op: u8, s: Seq<u8>) -> Decoded<Instruction> {
    if wide_with_u16(op, 0) is Some {
        match spec_be_u16(s) {
            Err(e) => Err(e),
            Ok((rest, v)) => Ok((rest, wide_with_u16(op, v).unwrap())),
        }
    } else if op == 0x84 {
        match spec_be_u16(s) {
            Err(e) => Err(e),
            Ok((after_index, index)) => match spec_be_i16(after_index) {
                Err(e) => Err(e),
                Ok((rest, value)) => Ok((rest, Instruction::IincWide { index, value })),
            },
        }
    } else {
        Err(ParseError::InvalidDiscriminant)
    }
}

/// The instruction of opcode `op` whose operands are the first bytes of
/// `s`, for every opcode but the two switches, whose length depends on
/// where they stand.
///
/// The opcode decides the shape of the operands: none, one value of eight,
/// sixteen or thirty-two bits, or one of the five shapes that a single
/// opcode has.
#[verifier::opaque]
pub open spec fn spec_fixed_instruction(op: u8, s: Seq<u8>) -> Decoded<Instruction> {
    if bare(op) is Some {
        Ok((s, bare(op).unwrap()))
    } else if with_u8(op, 0) is Some {
        match spec_be_u8(s) {
            Err(e) => Err(e),
            Ok((rest, v)) => Ok((rest, with_u8(op, v).unwrap())),
        }
    } else if with_i8(op, 0) is Some {
        match spec_be_i8(s) {
            Err(e) => Err(e),
            Ok((rest, v)) => Ok((rest, with_i8(op, v).unwrap())),
        }
    } else if with_u16(op, 0) is Some {
        match spec_be_u16(s) {
            Err(e) => Err(e),
            Ok((rest, v)) => Ok((rest, with_u16(op, v).unwrap())),
        }
    } else if with_i16(op, 0) is Some {
        match spec_be_i16(s) {
            Err(e) => Err(e),
            Ok((rest, v)) => Ok((rest, with_i16(op, v).unwrap())),
        }
    } else if with_i32(op, 0) is Some {
        match spec_be_i32(s) {
            Err(e) => Err(e),
            Ok((rest, v)) => Ok((rest, with_i32(op, v).unwrap())),
        }
    } else if op == 0x84 {
        // iinc: the index of a local variable and a signed increment
        match spec_be_u8(s) {
            Err(e) => Err(e),
            Ok((after_index, index)) => match spec_be_i8(after_index) {
                Err(e) => Err(e),
                Ok((rest, value)) => Ok((rest, Instruction::Iinc { index, value })),
            },
        }
    } else if op == 0xc5 {
        // multianewarray: the index of a class and a number of dimensions
        match spec_be_u16(s) {
            Err(e) => Err(e),
            Ok((after_index, index)) => match spec_be_u8(after_index) {
                Err(e) => Err(e),
                Ok((rest, dimensions)) => Ok(
                    (rest, Instruction::Multianewarray { index, dimensions }),
                ),
            },
        }
    } else if op == 0xb9 {
        // invokeinterface: the index of a method, a count, and a zero byte
        match spec_be_u16(s) {
            Err(e) => Err(e),
            Ok((after_index, index)) => match spec_be_u8(after_index) {
                Err(e) => Err(e),
                Ok((after_count, count)) => match spec_tag(after_count, seq![0u8]) {
                    Err(e) => Err(e),
                    Ok((rest, _)) => Ok((rest, Instruction::Invokeinterface { index, count })),
                },
            },
        }
    } else if op == 0xba {
        // invokedynamic: the index of a call site and two zero bytes
        match spec_be_u16(s) {
            Err(e) => Err(e),
            Ok((after_index, index)) => match spec_tag(after_index, seq![0u8, 0u8]) {
                Err(e) => Err(e),
                Ok((rest, _)) => Ok((rest, Instruction::Invokedynamic(index))),
            },
        }
    } else if op == 0xc4 {
        // wide: the opcode that the prefix modifies, and its operands
        match spec_be_u8(s) {
            Err(e) => Err(e),
            Ok((rest, modified)) => spec_wide_instruction(modified, rest),
        }
    } else {
        Err(ParseError::InvalidDiscriminant)
    }
}

/// The number of padding bytes between a switch opcode at offset `address`
/// of the instruction stream and its operands, which start at the next
/// offset that is a multiple of four.
pub open spec fn switch_padding(address: usize) -> nat {
    ((4 - (address + 1) % 4) % 4) as nat
}

/// The operands of a `tableswitch`, from the first byte after the padding:
/// the default offset, the bounds `low` and `high`, and one jump offset for
/// each value from `low` to `high`. A table of fewer than zero entries is
/// never there in full.
pub open spec fn spec_tableswitch(s: Seq<u8>) -> Decoded<InstructionView> {
    if s.len() < 12 {
        Err(ParseError::InsufficientInput)
    } else {
        let default = i32_of(u32_at(s, 0));
        let low = i32_of(u32_at(s, 4));
        let high = i32_of(u32_at(s, 8));
        if high - low + 1 < 0 {
            Err(ParseError::InsufficientInput)
        } else {
            match spec_count::<i32>((high - low + 1) as nat, s.skip(12)) {
                Err(e) => Err(e),
                Ok((rest, offsets)) => Ok(
                    (rest, InstructionView::Tableswitch { default, low, high, offsets }),
                ),
            }
        }
    }
}

/// The operands of a `lookupswitch`, from the first byte after the padding:
/// the default offset, the number of pairs, and that many pairs of a match
/// value and a jump offset.
pub open spec fn spec_lookupswitch(s: Seq<u8>) -> Decoded<InstructionView> {
    if s.len() < 8 {
        Err(ParseError::InsufficientInput)
    } else {
        let default = i32_of(u32_at(s, 0));
        match spec_count::<(i32, i32)>(u32_at(s, 4) as nat, s.skip(8)) {
            Err(e) => Err(e),
            Ok((rest, pairs)) => Ok((rest, InstructionView::Lookupswitch { default, pairs })),
        }
    }
}

/// The operands of a switch behind their padding, for an opcode that stands
/// at offset `address` of the stream and is followed by `s`.
pub open spec fn spec_switch(table: bool, s: Seq<u8>, address: usize) -> Decoded<InstructionView> {
    if s.len() < switch_padding(address) {
        Err(ParseError::InsufficientInput)
    } else if table {
        spec_tableswitch(s.skip(switch_padding(address) as int))
    } else {
        spec_lookupswitch(s.skip(switch_padding(address) as int))
    }
}

/// The instruction at the front of `s`, where `s` starts at offset `address`
/// of the instruction stream.
#[verifier::opaque]
pub open spec fn spec_instruction(s: Seq<u8>, address: usize) -> Decoded<InstructionView> {
    if s.len() < 1 {
        Err(ParseError::InsufficientInput)
    } else if s[0] == 0xaa {
        spec_switch(true, s.skip(1), address)
    } else if s[0] == 0xab {
        spec_switch(false, s.skip(1), address)
    } else {
        match spec_fixed_instruction(s[0], s.skip(1)) {
            Err(e) => Err(e),
            Ok((rest, instruction)) => Ok((rest, InstructionView::Fixed(instruction))),
        }
    }
}

/// Drops the padding that follows a switch opcode at offset `address`.
fn align(input: &[u8], address: usize) -> (r: Result<&[u8], ParseError>)
    ensures
        match r {
            Ok(rest) => switch_padding(address) <= input@.len() && rest@ == input@.skip(
                switch_padding(address) as int,
            ),
            Err(e) => e == ParseError::InsufficientInput && input@.len() < switch_padding(address),
        },
{
    let padding = 3 - address % 4;
    let (rest, _) = take(input, padding)?;
    Ok(rest)
}

/// If fewer than `4 * n` bytes remain, a list of `n` 32-bit values is not
/// there in full.
proof fn lemma_short_table(n: nat, s: Seq<u8>)
    requires
        s.len() < 4 * n,
    ensures
        spec_count::<i32>(n, s) == Err::<(Seq<u8>, Seq<i32>), _>(ParseError::InsufficientInput),
    decreases n,
{
    if s.len() >= 4 {
        lemma_short_table((n - 1) as nat, s.skip(4));
    }
}

/// Decodes the operands of a `tableswitch` behind its padding.
fn tableswitch_parser(input: &[u8]) -> (r: ParseResult<'_, Instruction>)
    ensures
        viewed(r) == spec_tableswitch(input@),
{
    let (rest, default) = be_i32(input)?;
    let (rest, low) = be_i32(rest)?;
    let (rest, high) = be_i32(rest)?;
    assert(rest@ == input@.skip(12));
    let entries: i64 = high as i64 - low as i64 + 1;
    if entries < 0 {
        return Err(ParseError::InsufficientInput);
    }
    if rest.len() as u64 / 4 < entries as u64 {
        proof {
            lemma_short_table(entries as nat, rest@);
        }
        return Err(ParseError::InsufficientInput);
    }
    let (rest, offsets) = count::<i32>(rest, entries as usize)?;
    assert(offsets.deep_view() =~= offsets@);
    Ok((rest, Instruction::Tableswitch { default, low, high, offsets }))
}

/// Decodes the operands of a `lookupswitch` behind its padding.
fn lookupswitch_parser(input: &[u8]) -> (r: ParseResult<'_, Instruction>)
    ensures
        viewed(r) == spec_lookupswitch(input@),
{
    let (rest, default) = be_i32(input)?;
    let (rest, npairs) = be_u32(rest)?;
    assert(rest@ == input@.skip(8));
    let (rest, pairs) = count::<(i32, i32)>(rest, npairs as usize)?;
    assert(pairs.deep_view() =~= pairs@);
    Ok((rest, Instruction::Lookupswitch { default, pairs }))
}

/// Drops one byte, which must be zero.
fn zero_byte(input: &[u8]) -> (r: ParseResult<'_, ()>)
    ensures
        plain(r) == spec_tag(input@, seq![0u8]),
{
    let zeros: [u8; 1] = [0];
    assert(zeros@ =~= seq![0u8]);
    tag(input, &zeros)
}

/// Drops two bytes, which must be zero.
fn zero_bytes(input: &[u8]) -> (r: ParseResult<'_, ()>)
    ensures
        plain(r) == spec_tag(input@, seq![0u8, 0u8]),
{
    let zeros: [u8; 2] = [0, 0];
    assert(zeros@ =~= seq![0u8, 0u8]);
    tag(input, &zeros)
}

/// Every decoded instruction is well-formed.
pub proof fn lemma_instruction_well_formed(s: Seq<u8>, address: usize)
    ensures
        spec_instruction(s, address) matches Ok((rest, instruction)) ==> instruction.well_formed(),
{
    reveal(spec_instruction);
    if s.len() >= 1 {
        if s[0] == 0xaa {
            let padding = switch_padding(address) as int;
            if s.len() - 1 >= padding {
                let body = s.skip(1).skip(padding);
                if body.len() >= 12 {
                    let low = i32_of(u32_at(body, 4));
                    let high = i32_of(u32_at(body, 8));
                    if high - low + 1 >= 0 {
                        lemma_count_len::<i32>((high - low + 1) as nat, body.skip(12));
                    }
                }
            }
        } else if s[0] != 0xab {
            lemma_fixed_is_no_switch(s[0], s.skip(1));
        }
    }
}

/// No fixed-length instruction is a switch.
proof fn lemma_fixed_is_no_switch(op: u8, s: Seq<u8>)
    ensures
        spec_fixed_instruction(op, s) matches Ok((rest, instruction)) ==> !(instruction
             is Tableswitch) && !(instruction is Lookupswitch),
{
    reveal(spec_fixed_instruction);
    reveal(spec_wide_instruction);
    reveal(bare);
    reveal(with_u8);
    reveal(with_i8);
    reveal(with_u16);
    reveal(with_i16);
    reveal(with_i32);
    reveal(wide_with_u16);
}

/// Decodes the operands of the instruction of opcode `opcode`, for every
/// opcode but the two switches.
///
/// The instructions stand in the order of their mnemonics, as the variants
/// of [`Instruction`] do.
#[verifier::rlimit(30)]
fn fixed_instruction_parser(input: &[u8], opcode: u8) -> (r: ParseResult<'_, Instruction>)
    ensures
        plain(r) == spec_fixed_instruction(opcode, input@),
{
    proof {
        reveal(spec_fixed_instruction);
        reveal(spec_wide_instruction);
        reveal(bare);
        reveal(with_u8);
        reveal(with_i8);
        reveal(with_u16);
        reveal(with_i16);
        reveal(with_i32);
        reveal(wide_with_u16);
    }
    match opcode {
        0x32 => Ok((input, Instruction::Aaload)),
        0x53 => Ok((input, Instruction::Aastore)),
        0x01 => Ok((input, Instruction::Aconstnull)),
        0x19 => {
            let (input, index) = be_u8(input)?;
            Ok((input, Instruction::Aload(index)))
        },
        0x2a => Ok((input, Instruction::Aload0)),
        0x2b => Ok((input, Instruction::Aload1)),
        0x2c => Ok((input, Instruction::Aload2)),
        0x2d => Ok((input, Instruction::Aload3)),
        0xbd => {
            let (input, index) = be_u16(input)?;
            Ok((input, Instruction::Anewarray(index)))
        },
        0xb0 => Ok((input, Instruction::Areturn)),
        0xbe => Ok((input, Instruction::Arraylength)),
        0x3a => {
            let (input, index) = be_u8(input)?;
            Ok((input, Instruction::Astore(index)))
        },
        0x4b => Ok((input, Instruction::Astore0)),
        0x4c => Ok((input, Instruction::Astore1)),
        0x4d => Ok((input, Instruction::Astore2)),
        0x4e => Ok((input, Instruction::Astore3)),
        0xbf => Ok((input, Instruction::Athrow)),
        0x33 => Ok((input, Instruction::Baload)),
        0x54 => Ok((input, Instruction::Bastore)),
        0x10 => {
            let (input, value) = be_i8(input)?;
            Ok((input, Instruction::Bipush(value)))
        },
        0x34 => Ok((input, Instruction::Caload)),
        0x55 => Ok((input, Instruction::Castore)),
        0xc0 => {
            let (input, index) = be_u16(input)?;
            Ok((input, Instruction::Checkcast(index)))
        },
        0x90 => Ok((input, Instruction::D2f)),
        0x8e => Ok((input, Instruction::D2i)),
        0x8f => Ok((input, Instruction::D2l)),
        0x63 => Ok((input, Instruction::Dadd)),
        0x31 => Ok((input, Instruction::Daload)),
        0x52 => Ok((input, Instruction::Dastore)),
        0x98 => Ok((input, Instruction::Dcmpg)),
        0x97 => Ok((input, Instruction::Dcmpl)),
        0x0e => Ok((input, Instruction::Dconst0)),
        0x0f => Ok((input, Instruction::Dconst1)),
        0x6f => Ok((input, Instruction::Ddiv)),
        0x18 => {
            let (input, index) = be_u8(input)?;
            Ok((input, Instruction::Dload(index)))
        },
        0x26 => Ok((input, Instruction::Dload0)),
        0x27 => Ok((input, Instruction::Dload1)),
        0x28 => Ok((input, Instruction::Dload2)),
        0x29 => Ok((input, Instruction::Dload3)),
        0x6b => Ok((input, Instruction::Dmul)),
        0x77 => Ok((input, Instruction::Dneg)),
        0x73 => Ok((input, Instruction::Drem)),
        0xaf => Ok((input, Instruction::Dreturn)),
        0x39 => {
            let (input, index) = be_u8(input)?;
            Ok((input, Instruction::Dstore(index)))
        },
        0x47 => Ok((input, Instruction::Dstore0)),
        0x48 => Ok((input, Instruction::Dstore1)),
        0x49 => Ok((input, Instruction::Dstore2)),
        0x4a => Ok((input, Instruction::Dstore3)),
        0x67 => Ok((input, Instruction::Dsub)),
        0x59 => Ok((input, Instruction::Dup)),
        0x5a => Ok((input, Instruction::Dupx1)),
        0x5b => Ok((input, Instruction::Dupx2)),
        0x5c => Ok((input, Instruction::Dup2)),
        0x5d => Ok((input, Instruction::Dup2x1)),
        0x5e => Ok((input, Instruction::Dup2x2)),
        0x8d => Ok((input, Instruction::F2d)),
        0x8b => Ok((input, Instruction::F2i)),
        0x8c => Ok((input, Instruction::F2l)),
        0x62 => Ok((input, Instruction::Fadd)),
        0x30 => Ok((input, Instruction::Faload)),
        0x51 => Ok((input, Instruction::Fastore)),
        0x96 => Ok((input, Instruction::Fcmpg)),
        0x95 => Ok((input, Instruction::Fcmpl)),
        0x0b => Ok((input, Instruction::Fconst0)),
        0x0c => Ok((input, Instruction::Fconst1)),
        0x0d => Ok((input, Instruction::Fconst2)),
        0x6e => Ok((input, Instruction::Fdiv)),
        0x17 => {
            let (input, index) = be_u8(input)?;
            Ok((input, Instruction::Fload(index)))
        },
        0x22 => Ok((input, Instruction::Fload0)),
        0x23 => Ok((input, Instruction::Fload1)),
        0x24 => Ok((input, Instruction::Fload2)),
        0x25 => Ok((input, Instruction::Fload3)),
        0x6a => Ok((input, Instruction::Fmul)),
        0x76 => Ok((input, Instruction::Fneg)),
        0x72 => Ok((input, Instruction::Frem)),
        0xae => Ok((input, Instruction::Freturn)),
        0x38 => {
            let (input, index) = be_u8(input)?;
            Ok((input, Instruction::Fstore(index)))
        },
        0x43 => Ok((input, Instruction::Fstore0)),
        0x44 => Ok((input, Instruction::Fstore1)),
        0x45 => Ok((input, Instruction::Fstore2)),
        0x46 => Ok((input, Instruction::Fstore3)),
        0x66 => Ok((input, Instruction::Fsub)),
        0xb4 => {
            let (input, index) = be_u16(input)?;
            Ok((input, Instruction::Getfield(index)))
        },
        0xb2 => {
            let (input, index) = be_u16(input)?;
            Ok((input, Instruction::Getstatic(index)))
        },
        0xa7 => {
            let (input, offset) = be_i16(input)?;
            Ok((input, Instruction::Goto(offset)))
        },
        0xc8 => {
            let (input, offset) = be_i32(input)?;
            Ok((input, Instruction::GotoW(offset)))
        },
        0x91 => Ok((input, Instruction::I2b)),
        0x92 => Ok((input, Instruction::I2c)),
        0x87 => Ok((input, Instruction::I2d)),
        0x86 => Ok((input, Instruction::I2f)),
        0x85 => Ok((input, Instruction::I2l)),
        0x93 => Ok((input, Instruction::I2s)),
        0x60 => Ok((input, Instruction::Iadd)),
        0x2e => Ok((input, Instruction::Iaload)),
        0x7e => Ok((input, Instruction::Iand)),
        0x4f => Ok((input, Instruction::Iastore)),
        0x02 => Ok((input, Instruction::Iconstm1)),
        0x03 => Ok((input, Instruction::Iconst0)),
        0x04 => Ok((input, Instruction::Iconst1)),
        0x05 => Ok((input, Instruction::Iconst2)),
        0x06 => Ok((input, Instruction::Iconst3)),
        0x07 => Ok((input, Instruction::Iconst4)),
        0x08 => Ok((input, Instruction::Iconst5)),
        0x6c => Ok((input, Instruction::Idiv)),
        0xa5 => {
            let (input, offset) = be_i16(input)?;
            Ok((input, Instruction::IfAcmpeq(offset)))
        },
        0xa6 => {
            let (input, offset) = be_i16(input)?;
            Ok((input, Instruction::IfAcmpne(offset)))
        },
        0x9f => {
            let (input, offset) = be_i16(input)?;
            Ok((input, Instruction::IfIcmpeq(offset)))
        },
        0xa0 => {
            let (input, offset) = be_i16(input)?;
            Ok((input, Instruction::IfIcmpne(offset)))
        },
        0xa1 => {
            let (input, offset) = be_i16(input)?;
            Ok((input, Instruction::IfIcmplt(offset)))
        },
        0xa2 => {
            let (input, offset) = be_i16(input)?;
            Ok((input, Instruction::IfIcmpge(offset)))
        },
        0xa3 => {
            let (input, offset) = be_i16(input)?;
            Ok((input, Instruction::IfIcmpgt(offset)))
        },
        0xa4 => {
            let (input, offset) = be_i16(input)?;
            Ok((input, Instruction::IfIcmple(offset)))
        },
        0x99 => {
            let (input, offset) = be_i16(input)?;
            Ok((input, Instruction::Ifeq(offset)))
        },
        0x9a => {
            let (input, offset) = be_i16(input)?;
            Ok((input, Instruction::Ifne(offset)))
        },
        0x9b => {
            let (input, offset) = be_i16(input)?;
            Ok((input, Instruction::Iflt(offset)))
        },
        0x9c => {
            let (input, offset) = be_i16(input)?;
            Ok((input, Instruction::Ifge(offset)))
        },
        0x9d => {
            let (input, offset) = be_i16(input)?;
            Ok((input, Instruction::Ifgt(offset)))
        },
        0x9e => {
            let (input, offset) = be_i16(input)?;
            Ok((input, Instruction::Ifle(offset)))
        },
        0xc7 => {
            let (input, offset) = be_i16(input)?;
            Ok((input, Instruction::Ifnonnull(offset)))
        },
        0xc6 => {
            let (input, offset) = be_i16(input)?;
            Ok((input, Instruction::Ifnull(offset)))
        },
        0x84 => {
            let (rest, index) = be_u8(input)?;
            let (rest, value) = be_i8(rest)?;
            Ok((rest, Instruction::Iinc { index, value }))
        },
        0x15 => {
            let (input, index) = be_u8(input)?;
            Ok((input, Instruction::Iload(index)))
        },
        0x1a => Ok((input, Instruction::Iload0)),
        0x1b => Ok((input, Instruction::Iload1)),
        0x1c => Ok((input, Instruction::Iload2)),
        0x1d => Ok((input, Instruction::Iload3)),
        0x68 => Ok((input, Instruction::Imul)),
        0x74 => Ok((input, Instruction::Ineg)),
        0xc1 => {
            let (input, index) = be_u16(input)?;
            Ok((input, Instruction::Instanceof(index)))
        },
        0xba => {
            let (rest, index) = be_u16(input)?;
            let (rest, _) = zero_bytes(rest)?;
            Ok((rest, Instruction::Invokedynamic(index)))
        },
        0xb9 => {
            let (rest, index) = be_u16(input)?;
            let (rest, count) = be_u8(rest)?;
            let (rest, _) = zero_byte(rest)?;
            Ok((rest, Instruction::Invokeinterface { index, count }))
        },
        0xb7 => {
            let (input, index) = be_u16(input)?;
            Ok((input, Instruction::Invokespecial(index)))
        },
        0xb8 => {
            let (input, index) = be_u16(input)?;
            Ok((input, Instruction::Invokestatic(index)))
        },
        0xb6 => {
            let (input, index) = be_u16(input)?;
            Ok((input, Instruction::Invokevirtual(index)))
        },
        0x80 => Ok((input, Instruction::Ior)),
        0x70 => Ok((input, Instruction::Irem)),
        0xac => Ok((input, Instruction::Ireturn)),
        0x78 => Ok((input, Instruction::Ishl)),
        0x7a => Ok((input, Instruction::Ishr)),
        0x36 => {
            let (input, index) = be_u8(input)?;
            Ok((input, Instruction::Istore(index)))
        },
        0x3b => Ok((input, Instruction::Istore0)),
        0x3c => Ok((input, Instruction::Istore1)),
        0x3d => Ok((input, Instruction::Istore2)),
        0x3e => Ok((input, Instruction::Istore3)),
        0x64 => Ok((input, Instruction::Isub)),
        0x7c => Ok((input, Instruction::Iushr)),
        0x82 => Ok((input, Instruction::Ixor)),
        0xa8 => {
            let (input, offset) = be_i16(input)?;
            Ok((input, Instruction::Jsr(offset)))
        },
        0xc9 => {
            let (input, offset) = be_i32(input)?;
            Ok((input, Instruction::JsrW(offset)))
        },
        0x8a => Ok((input, Instruction::L2d)),
        0x89 => Ok((input, Instruction::L2f)),
        0x88 => Ok((input, Instruction::L2i)),
        0x61 => Ok((input, Instruction::Ladd)),
        0x2f => Ok((input, Instruction::Laload)),
        0x7f => Ok((input, Instruction::Land)),
        0x50 => Ok((input, Instruction::Lastore)),
        0x94 => Ok((input, Instruction::Lcmp)),
        0x09 => Ok((input, Instruction::Lconst0)),
        0x0a => Ok((input, Instruction::Lconst1)),
        0x12 => {
            let (input, index) = be_u8(input)?;
            Ok((input, Instruction::Ldc(index)))
        },
        0x13 => {
            let (input, index) = be_u16(input)?;
            Ok((input, Instruction::LdcW(index)))
        },
        0x14 => {
            let (input, index) = be_u16(input)?;
            Ok((input, Instruction::Ldc2W(index)))
        },
        0x6d => Ok((input, Instruction::Ldiv)),
        0x16 => {
            let (input, index) = be_u8(input)?;
            Ok((input, Instruction::Lload(index)))
        },
        0x1e => Ok((input, Instruction::Lload0)),
        0x1f => Ok((input, Instruction::Lload1)),
        0x20 => Ok((input, Instruction::Lload2)),
        0x21 => Ok((input, Instruction::Lload3)),
        0x69 => Ok((input, Instruction::Lmul)),
        0x75 => Ok((input, Instruction::Lneg)),
        0x81 => Ok((input, Instruction::Lor)),
        0x71 => Ok((input, Instruction::Lrem)),
        0xad => Ok((input, Instruction::Lreturn)),
        0x79 => Ok((input, Instruction::Lshl)),
        0x7b => Ok((input, Instruction::Lshr)),
        0x37 => {
            let (input, index) = be_u8(input)?;
            Ok((input, Instruction::Lstore(index)))
        },
        0x3f => Ok((input, Instruction::Lstore0)),
        0x40 => Ok((input, Instruction::Lstore1)),
        0x41 => Ok((input, Instruction::Lstore2)),
        0x42 => Ok((input, Instruction::Lstore3)),
        0x65 => Ok((input, Instruction::Lsub)),
        0x7d => Ok((input, Instruction::Lushr)),
        0x83 => Ok((input, Instruction::Lxor)),
        0xc2 => Ok((input, Instruction::Monitorenter)),
        0xc3 => Ok((input, Instruction::Monitorexit)),
        0xc5 => {
            let (rest, index) = be_u16(input)?;
            let (rest, dimensions) = be_u8(rest)?;
            Ok((rest, Instruction::Multianewarray { index, dimensions }))
        },
        0xbb => {
            let (input, index) = be_u16(input)?;
            Ok((input, Instruction::New(index)))
        },
        0xbc => {
            let (input, atype) = be_u8(input)?;
            Ok((input, Instruction::Newarray(atype)))
        },
        0x00 => Ok((input, Instruction::Nop)),
        0x57 => Ok((input, Instruction::Pop)),
        0x58 => Ok((input, Instruction::Pop2)),
        0xb5 => {
            let (input, index) = be_u16(input)?;
            Ok((input, Instruction::Putfield(index)))
        },
        0xb3 => {
            let (input, index) = be_u16(input)?;
            Ok((input, Instruction::Putstatic(index)))
        },
        0xa9 => {
            let (input, index) = be_u8(input)?;
            Ok((input, Instruction::Ret(index)))
        },
        0xb1 => Ok((input, Instruction::Return)),
        0x35 => Ok((input, Instruction::Saload)),
        0x56 => Ok((input, Instruction::Sastore)),
        0x11 => {
            let (input, value) = be_i16(input)?;
            Ok((input, Instruction::Sipush(value)))
        },
        0x5f => Ok((input, Instruction::Swap)),
        0xc4 => {
            let (input, modified) = be_u8(input)?;
            match modified {
                0x19 => {
                    let (input, index) = be_u16(input)?;
                    Ok((input, Instruction::AloadWide(index)))
                },
                0x3a => {
                    let (input, index) = be_u16(input)?;
                    Ok((input, Instruction::AstoreWide(index)))
                },
                0x18 => {
                    let (input, index) = be_u16(input)?;
                    Ok((input, Instruction::DloadWide(index)))
                },
                0x39 => {
                    let (input, index) = be_u16(input)?;
                    Ok((input, Instruction::DstoreWide(index)))
                },
                0x17 => {
                    let (input, index) = be_u16(input)?;
                    Ok((input, Instruction::FloadWide(index)))
                },
                0x38 => {
                    let (input, index) = be_u16(input)?;
                    Ok((input, Instruction::FstoreWide(index)))
                },
                0x15 => {
                    let (input, index) = be_u16(input)?;
                    Ok((input, Instruction::IloadWide(index)))
                },
                0x36 => {
                    let (input, index) = be_u16(input)?;
                    Ok((input, Instruction::IstoreWide(index)))
                },
                0x16 => {
                    let (input, index) = be_u16(input)?;
                    Ok((input, Instruction::LloadWide(index)))
                },
                0x37 => {
                    let (input, index) = be_u16(input)?;
                    Ok((input, Instruction::LstoreWide(index)))
                },
                0xa9 => {
                    let (input, index) = be_u16(input)?;
                    Ok((input, Instruction::RetWide(index)))
                },
                0x84 => {
                    let (rest, index) = be_u16(input)?;
                    let (rest, value) = be_i16(rest)?;
                    Ok((rest, Instruction::IincWide { index, value }))
                },
                _ => Err(ParseError::InvalidDiscriminant),
            }
        },
        _ => Err(ParseError::InvalidDiscriminant),
    }
}

/// Decodes one instruction from the front of `input`, which starts at
/// offset `address` of the instruction stream.
///
/// The offset matters to the two switch instructions alone: their operands
/// are aligned to a multiple of four bytes from the start of the stream.
pub fn instruction_parser(input: &[u8], address: usize) -> (r: ParseResult<'_, Instruction>)
    ensures
        viewed(r) == spec_instruction(input@, address),
        r matches Ok((rest, instruction)) ==> instruction@.well_formed(),
{
    proof {
        lemma_instruction_well_formed(input@, address);
        reveal(spec_instruction);
    }
    let (input, opcode) = be_u8(input)?;
    match opcode {
        0xaa => {
            let input = align(input, address)?;
            tableswitch_parser(input)
        },
        0xab => {
            let input = align(input, address)?;
            lookupswitch_parser(input)
        },
        _ => {
            proof {
                lemma_fixed_is_no_switch(opcode, input@);
            }
            fixed_instruction_parser(input, opcode)
        },
    }
}

/// A decoded list of 32-bit values leaves the input behind its last value.
proof fn lemma_table_rest(n: nat, s: Seq<u8>)
    ensures
        spec_count::<i32>(n, s) matches Ok((rest, values)) ==> 4 * n <= s.len() && rest == s.skip(
            4 * n as int,
        ),
    decreases n,
{
    if n > 0 && s.len() >= 4 {
        lemma_table_rest((n - 1) as nat, s.skip(4));
    }
}

/// A decoded list of pairs leaves the input behind its last pair.
proof fn lemma_pairs_rest(n: nat, s: Seq<u8>)
    ensures
        spec_count::<(i32, i32)>(n, s) matches Ok((rest, values)) ==> 8 * n <= s.len() && rest
            == s.skip(8 * n as int),
    decreases n,
{
    if n > 0 && s.len() >= 8 {
        lemma_pairs_rest((n - 1) as nat, s.skip(8));
    }
}

/// What remains after a fixed-length instruction is the input without the
/// operands of that instruction.
proof fn lemma_fixed_rest(op: u8, s: Seq<u8>)
    ensures
        spec_fixed_instruction(op, s) matches Ok((rest, instruction)) ==> rest.len() <= s.len()
            && rest == s.skip(s.len() - rest.len()),
{
    reveal(spec_fixed_instruction);
    reveal(spec_wide_instruction);
    assert(s.skip(0) == s);
    if s.len() >= 2 {
        assert(s.skip(1).skip(1) == s.skip(2));
    }
    if s.len() >= 3 {
        assert(s.skip(2).skip(1) == s.skip(3));
        assert(s.skip(1).skip(2) == s.skip(3));
    }
    if s.len() >= 4 {
        assert(s.skip(3).skip(1) == s.skip(4));
        assert(s.skip(2).skip(2) == s.skip(4));
    }
    if s.len() >= 5 {
        assert(s.skip(3).skip(2) == s.skip(5));
    }
}

/// What remains after the operands of a switch is the input without them.
proof fn lemma_switch_body_rest(table: bool, s: Seq<u8>)
    ensures
        table ==> (spec_tableswitch(s) matches Ok((rest, instruction)) ==> rest.len() <= s.len()
            && rest == s.skip(s.len() - rest.len())),
        !table ==> (spec_lookupswitch(s) matches Ok((rest, instruction)) ==> rest.len() <= s.len()
            && rest == s.skip(s.len() - rest.len())),
{
    if table && s.len() >= 12 {
        let low = i32_of(u32_at(s, 4));
        let high = i32_of(u32_at(s, 8));
        if high - low + 1 >= 0 {
            lemma_table_rest((high - low + 1) as nat, s.skip(12));
        }
    }
    if !table && s.len() >= 8 {
        lemma_pairs_rest(u32_at(s, 4) as nat, s.skip(8));
    }
}

/// What remains after a switch is the input without its padding and
/// operands.
proof fn lemma_switch_rest(table: bool, s: Seq<u8>, address: usize)
    ensures
        spec_switch(table, s, address) matches Ok((rest, instruction)) ==> rest.len() <= s.len()
            && rest == s.skip(s.len() - rest.len()),
{
    let padding = switch_padding(address) as int;
    if s.len() >= padding {
        lemma_switch_body_rest(table, s.skip(padding));
    }
}

/// A decoded instruction takes up at least its opcode, and what remains
/// after it is the input without the bytes that it took up.
pub proof fn lemma_instruction_advances(s: Seq<u8>, address: usize)
    ensures
        spec_instruction(s, address) matches Ok((rest, instruction)) ==> rest.len() < s.len()
            && rest == s.skip(s.len() - rest.len()),
{
    reveal(spec_instruction);
    if s.len() >= 1 {
        if s[0] == 0xaa || s[0] == 0xab {
            lemma_switch_rest(s[0] == 0xaa, s.skip(1), address);
        } else {
            lemma_fixed_rest(s[0], s.skip(1));
        }
    }
}

/// The instructions of a stream with the offset of each, and the bytes
/// behind the last of them. Decoding goes on from where the instruction
/// before ended. It ends where the bytes that remain are too few for one
/// more instruction, and fails where they hold a byte that the format does
/// not allow at its place. `s` is what remains of the stream from offset
/// `address` on.
pub open spec fn spec_code(s: Seq<u8>, address: usize) -> Decoded<Seq<(usize, InstructionView)>>
    decreases s.len(),
{
    match spec_instruction(s, address) {
        Ok((rest, instruction)) => {
            proof {
                lemma_instruction_advances(s, address);
            }
            prefixed(
                seq![(address, instruction)],
                spec_code(rest, (address + (s.len() - rest.len())) as usize),
            )
        },
        Err(ParseError::InsufficientInput) => Ok((s, Seq::empty())),
        Err(ParseError::InvalidDiscriminant) => Err(ParseError::InvalidDiscriminant),
    }
}

/// Decodes the instructions of `outer_input` one after another, each with
/// its offset from the start of the input.
///
/// Decoding stops, without failing, where the bytes that remain are too
/// few for one more instruction: they are handed back as the remaining
/// input, so that a prefix of a longer stream can be decoded. An opcode
/// that stands for no instruction fails the decoding, as does a byte of
/// an instruction that must be zero and is not.
pub fn code_parser(outer_input: &[u8]) -> (r: ParseResult<'_, Vec<(usize, Instruction)>>)
    ensures
        deep(r) == spec_code(outer_input@, 0),
{
    let total = outer_input.len();
    let mut rest = outer_input;
    let mut address: usize = 0;
    let mut out: Vec<(usize, Instruction)> = Vec::new();
    loop
        invariant
            address + rest@.len() == total,
            spec_code(outer_input@, 0) == prefixed(out.deep_view(), spec_code(rest@, address)),
        ensures
            spec_code(outer_input@, 0) == Ok::<_, ParseError>((rest@, out.deep_view())),
        decreases rest@.len(),
    {
        proof {
            lemma_instruction_advances(rest@, address);
        }
        match instruction_parser(rest, address) {
            Ok((next, instruction)) => {
                let ghost before = out.deep_view();
                let ghost after = spec_code(
                    next@,
                    (address + (rest@.len() - next@.len())) as usize,
                );
                out.push((address, instruction));
                proof {
                    match after {
                        Ok((end, tail)) => {
                            assert(before + (seq![(address, instruction@)] + tail)
                                =~= out.deep_view() + tail);
                        },
                        Err(e) => {},
                    }
                }
                address = address + (rest.len() - next.len());
                rest = next;
            },
            Err(ParseError::InsufficientInput) => {
                break ;
            },
            Err(ParseError::InvalidDiscriminant) => {
                return Err(ParseError::InvalidDiscriminant);
            },
        }
    }
    Ok((rest, out))
}

/// One entry of a local variable table: five 16-bit values.
pub open spec fn spec_local_variable_table_item(s: Seq<u8>) -> Decoded<LocalVariableTableItem> {
    if s.len() < 10 {
        Err(ParseError::InsufficientInput)
    } else {
        Ok(
            (
                s.skip(10),
                LocalVariableTableItem {
                    start_pc: u16_at(s, 0),
                    length: u16_at(s, 2),
                    name_index: u16_at(s, 4),
                    descriptor_index: u16_at(s, 6),
                    index: u16_at(s, 8),
                },
            ),
        )
    }
}

/// Decodes one entry of a local variable table.
pub fn variable_table_item_parser(input: &[u8]) -> (r: ParseResult<'_, LocalVariableTableItem>)
    ensures
        plain(r) == spec_local_variable_table_item(input@),
{
    let (rest, start_pc) = be_u16(input)?;
    let (rest, length) = be_u16(rest)?;
    let (rest, name_index) = be_u16(rest)?;
    let (rest, descriptor_index) = be_u16(rest)?;
    let (rest, index) = be_u16(rest)?;
    assert(rest@ == input@.skip(10));
    Ok((rest, LocalVariableTableItem { start_pc, length, name_index, descriptor_index, index }))
}

impl Decode for LocalVariableTableItem {
    open spec fn spec_decode(s: Seq<u8>) -> Decoded<LocalVariableTableItem> {
        spec_local_variable_table_item(s)
    }

    fn decode(input: &[u8]) -> (r: ParseResult<'_, LocalVariableTableItem>) {
        variable_table_item_parser(input)
    }

    proof fn lemma_decode_advances(s: Seq<u8>) {
        reveal(remains_of);
    }
}

/// The payload of a `LocalVariableTable` attribute: the counted entries.
pub open spec fn spec_local_variable_table(s: Seq<u8>) -> Decoded<LocalVariableTableAttributeView> {
    match spec_counted::<LocalVariableTableItem>(s) {
        Err(e) => Err(e),
        Ok((rest, (local_variable_table_length, items))) => Ok(
            (rest, LocalVariableTableAttributeView { local_variable_table_length, items }),
        ),
    }
}

/// Decodes the payload of a `LocalVariableTable` attribute.
pub fn local_variable_table_parser(input: &[u8]) -> (r: ParseResult<
    '_,
    LocalVariableTableAttribute,
>)
    ensures
        viewed(r) == spec_local_variable_table(input@),
        r matches Ok((rest, table)) ==> table@.well_formed(),
{
    proof {
        lemma_counted::<LocalVariableTableItem>(input@, |v: LocalVariableTableItem| true);
    }
    let (rest, (local_variable_table_length, items)) = counted::<LocalVariableTableItem>(input)?;
    assert(items.deep_view() == items@);
    Ok((rest, LocalVariableTableAttribute { local_variable_table_length, items }))
}

} // verus!
