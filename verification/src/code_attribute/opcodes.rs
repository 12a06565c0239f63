//! The opcodes of the instructions of fixed length, by the shape of their
//! operands.
//!
//! Each table gives the instruction that an opcode stands for, and `None`
//! for the opcodes of another shape. An opcode stands in one table at most.

use super::types::Instruction;
use vstd::prelude::*;

verus! {

/// The instruction of opcode `op`, where that opcode takes no operand.
#[verifier::opaque]
pub open spec fn bare(op: u8) -> Option<Instruction> {
    match op {
        0x00 => Some(Instruction::Nop),
        0x01 => Some(Instruction::Aconstnull),
        0x02 => Some(Instruction::Iconstm1),
        0x03 => Some(Instruction::Iconst0),
        0x04 => Some(Instruction::Iconst1),
        0x05 => Some(Instruction::Iconst2),
        0x06 => Some(Instruction::Iconst3),
        0x07 => Some(Instruction::Iconst4),
        0x08 => Some(Instruction::Iconst5),
        0x09 => Some(Instruction::Lconst0),
        0x0a => Some(Instruction::Lconst1),
        0x0b => Some(Instruction::Fconst0),
        0x0c => Some(Instruction::Fconst1),
        0x0d => Some(Instruction::Fconst2),
        0x0e => Some(Instruction::Dconst0),
        0x0f => Some(Instruction::Dconst1),
        0x1a => Some(Instruction::Iload0),
        0x1b => Some(Instruction::Iload1),
        0x1c => Some(Instruction::Iload2),
        0x1d => Some(Instruction::Iload3),
        0x1e => Some(Instruction::Lload0),
        0x1f => Some(Instruction::Lload1),
        0x20 => Some(Instruction::Lload2),
        0x21 => Some(Instruction::Lload3),
        0x22 => Some(Instruction::Fload0),
        0x23 => Some(Instruction::Fload1),
        0x24 => Some(Instruction::Fload2),
        0x25 => Some(Instruction::Fload3),
        0x26 => Some(Instruction::Dload0),
        0x27 => Some(Instruction::Dload1),
        0x28 => Some(Instruction::Dload2),
        0x29 => Some(Instruction::Dload3),
        0x2a => Some(Instruction::Aload0),
        0x2b => Some(Instruction::Aload1),
        0x2c => Some(Instruction::Aload2),
        0x2d => Some(Instruction::Aload3),
        0x2e => Some(Instruction::Iaload),
        0x2f => Some(Instruction::Laload),
        0x30 => Some(Instruction::Faload),
        0x31 => Some(Instruction::Daload),
        0x32 => Some(Instruction::Aaload),
        0x33 => Some(Instruction::Baload),
        0x34 => Some(Instruction::Caload),
        0x35 => Some(Instruction::Saload),
        0x3b => Some(Instruction::Istore0),
        0x3c => Some(Instruction::Istore1),
        0x3d => Some(Instruction::Istore2),
        0x3e => Some(Instruction::Istore3),
        0x3f => Some(Instruction::Lstore0),
        0x40 => Some(Instruction::Lstore1),
        0x41 => Some(Instruction::Lstore2),
        0x42 => Some(Instruction::Lstore3),
        0x43 => Some(Instruction::Fstore0),
        0x44 => Some(Instruction::Fstore1),
        0x45 => Some(Instruction::Fstore2),
        0x46 => Some(Instruction::Fstore3),
        0x47 => Some(Instruction::Dstore0),
        0x48 => Some(Instruction::Dstore1),
        0x49 => Some(Instruction::Dstore2),
        0x4a => Some(Instruction::Dstore3),
        0x4b => Some(Instruction::Astore0),
        0x4c => Some(Instruction::Astore1),
        0x4d => Some(Instruction::Astore2),
        0x4e => Some(Instruction::Astore3),
        0x4f => Some(Instruction::Iastore),
        0x50 => Some(Instruction::Lastore),
        0x51 => Some(Instruction::Fastore),
        0x52 => Some(Instruction::Dastore),
        0x53 => Some(Instruction::Aastore),
        0x54 => Some(Instruction::Bastore),
        0x55 => Some(Instruction::Castore),
        0x56 => Some(Instruction::Sastore),
        0x57 => Some(Instruction::Pop),
        0x58 => Some(Instruction::Pop2),
        0x59 => Some(Instruction::Dup),
        0x5a => Some(Instruction::Dupx1),
        0x5b => Some(Instruction::Dupx2),
        0x5c => Some(Instruction::Dup2),
        0x5d => Some(Instruction::Dup2x1),
        0x5e => Some(Instruction::Dup2x2),
        0x5f => Some(Instruction::Swap),
        0x60 => Some(Instruction::Iadd),
        0x61 => Some(Instruction::Ladd),
        0x62 => Some(Instruction::Fadd),
        0x63 => Some(Instruction::Dadd),
        0x64 => Some(Instruction::Isub),
        0x65 => Some(Instruction::Lsub),
        0x66 => Some(Instruction::Fsub),
        0x67 => Some(Instruction::Dsub),
        0x68 => Some(Instruction::Imul),
        0x69 => Some(Instruction::Lmul),
        0x6a => Some(Instruction::Fmul),
        0x6b => Some(Instruction::Dmul),
        0x6c => Some(Instruction::Idiv),
        0x6d => Some(Instruction::Ldiv),
        0x6e => Some(Instruction::Fdiv),
        0x6f => Some(Instruction::Ddiv),
        0x70 => Some(Instruction::Irem),
        0x71 => Some(Instruction::Lrem),
        0x72 => Some(Instruction::Frem),
        0x73 => Some(Instruction::Drem),
        0x74 => Some(Instruction::Ineg),
        0x75 => Some(Instruction::Lneg),
        0x76 => Some(Instruction::Fneg),
        0x77 => Some(Instruction::Dneg),
        0x78 => Some(Instruction::Ishl),
        0x79 => Some(Instruction::Lshl),
        0x7a => Some(Instruction::Ishr),
        0x7b => Some(Instruction::Lshr),
        0x7c => Some(Instruction::Iushr),
        0x7d => Some(Instruction::Lushr),
        0x7e => Some(Instruction::Iand),
        0x7f => Some(Instruction::Land),
        0x80 => Some(Instruction::Ior),
        0x81 => Some(Instruction::Lor),
        0x82 => Some(Instruction::Ixor),
        0x83 => Some(Instruction::Lxor),
        0x85 => Some(Instruction::I2l),
        0x86 => Some(Instruction::I2f),
        0x87 => Some(Instruction::I2d),
        0x88 => Some(Instruction::L2i),
        0x89 => Some(Instruction::L2f),
        0x8a => Some(Instruction::L2d),
        0x8b => Some(Instruction::F2i),
        0x8c => Some(Instruction::F2l),
        0x8d => Some(Instruction::F2d),
        0x8e => Some(Instruction::D2i),
        0x8f => Some(Instruction::D2l),
        0x90 => Some(Instruction::D2f),
        0x91 => Some(Instruction::I2b),
        0x92 => Some(Instruction::I2c),
        0x93 => Some(Instruction::I2s),
        0x94 => Some(Instruction::Lcmp),
        0x95 => Some(Instruction::Fcmpl),
        0x96 => Some(Instruction::Fcmpg),
        0x97 => Some(Instruction::Dcmpl),
        0x98 => Some(Instruction::Dcmpg),
        0xac => Some(Instruction::Ireturn),
        0xad => Some(Instruction::Lreturn),
        0xae => Some(Instruction::Freturn),
        0xaf => Some(Instruction::Dreturn),
        0xb0 => Some(Instruction::Areturn),
        0xb1 => Some(Instruction::Return),
        0xbe => Some(Instruction::Arraylength),
        0xbf => Some(Instruction::Athrow),
        0xc2 => Some(Instruction::Monitorenter),
        0xc3 => Some(Instruction::Monitorexit),
        _ => None,
    }
}

/// The instruction of opcode `op` with operand `v`, where that opcode takes
/// one unsigned byte.
#[verifier::opaque]
pub open spec fn with_u8(op: u8, v: u8) -> Option<Instruction> {
    match op {
        0x12 => Some(Instruction::Ldc(v)),
        0x15 => Some(Instruction::Iload(v)),
        0x16 => Some(Instruction::Lload(v)),
        0x17 => Some(Instruction::Fload(v)),
        0x18 => Some(Instruction::Dload(v)),
        0x19 => Some(Instruction::Aload(v)),
        0x36 => Some(Instruction::Istore(v)),
        0x37 => Some(Instruction::Lstore(v)),
        0x38 => Some(Instruction::Fstore(v)),
        0x39 => Some(Instruction::Dstore(v)),
        0x3a => Some(Instruction::Astore(v)),
        0xa9 => Some(Instruction::Ret(v)),
        0xbc => Some(Instruction::Newarray(v)),
        _ => None,
    }
}

/// The instruction of opcode `op` with operand `v`, where that opcode takes
/// one signed byte.
#[verifier::opaque]
pub open spec fn with_i8(op: u8, v: i8) -> Option<Instruction> {
    match op {
        0x10 => Some(Instruction::Bipush(v)),
        _ => None,
    }
}

/// The instruction of opcode `op` with operand `v`, where that opcode takes
/// one unsigned 16-bit value.
#[verifier::opaque]
pub open spec fn with_u16(op: u8, v: u16) -> Option<Instruction> {
    match op {
        0x13 => Some(Instruction::LdcW(v)),
        0x14 => Some(Instruction::Ldc2W(v)),
        0xb2 => Some(Instruction::Getstatic(v)),
        0xb3 => Some(Instruction::Putstatic(v)),
        0xb4 => Some(Instruction::Getfield(v)),
        0xb5 => Some(Instruction::Putfield(v)),
        0xb6 => Some(Instruction::Invokevirtual(v)),
        0xb7 => Some(Instruction::Invokespecial(v)),
        0xb8 => Some(Instruction::Invokestatic(v)),
        0xbb => Some(Instruction::New(v)),
        0xbd => Some(Instruction::Anewarray(v)),
        0xc0 => Some(Instruction::Checkcast(v)),
        0xc1 => Some(Instruction::Instanceof(v)),
        _ => None,
    }
}

/// The instruction of opcode `op` with operand `v`, where that opcode takes
/// one signed 16-bit value.
#[verifier::opaque]
pub open spec fn with_i16(op: u8, v: i16) -> Option<Instruction> {
    match op {
        0x11 => Some(Instruction::Sipush(v)),
        0x99 => Some(Instruction::Ifeq(v)),
        0x9a => Some(Instruction::Ifne(v)),
        0x9b => Some(Instruction::Iflt(v)),
        0x9c => Some(Instruction::Ifge(v)),
        0x9d => Some(Instruction::Ifgt(v)),
        0x9e => Some(Instruction::Ifle(v)),
        0x9f => Some(Instruction::IfIcmpeq(v)),
        0xa0 => Some(Instruction::IfIcmpne(v)),
        0xa1 => Some(Instruction::IfIcmplt(v)),
        0xa2 => Some(Instruction::IfIcmpge(v)),
        0xa3 => Some(Instruction::IfIcmpgt(v)),
        0xa4 => Some(Instruction::IfIcmple(v)),
        0xa5 => Some(Instruction::IfAcmpeq(v)),
        0xa6 => Some(Instruction::IfAcmpne(v)),
        0xa7 => Some(Instruction::Goto(v)),
        0xa8 => Some(Instruction::Jsr(v)),
        0xc6 => Some(Instruction::Ifnull(v)),
        0xc7 => Some(Instruction::Ifnonnull(v)),
        _ => None,
    }
}

/// The instruction of opcode `op` with operand `v`, where that opcode takes
/// one signed 32-bit value.
#[verifier::opaque]
pub open spec fn with_i32(op: u8, v: i32) -> Option<Instruction> {
    match op {
        0xc8 => Some(Instruction::GotoW(v)),
        0xc9 => Some(Instruction::JsrW(v)),
        _ => None,
    }
}

/// The instruction that opcode `op` stands for behind the `wide` prefix, with
/// operand `v`, where that form takes one unsigned 16-bit value.
#[verifier::opaque]
pub open spec fn wide_with_u16(op: u8, v: u16) -> Option<Instruction> {
    match op {
        0x15 => Some(Instruction::IloadWide(v)),
        0x16 => Some(Instruction::LloadWide(v)),
        0x17 => Some(Instruction::FloadWide(v)),
        0x18 => Some(Instruction::DloadWide(v)),
        0x19 => Some(Instruction::AloadWide(v)),
        0x36 => Some(Instruction::IstoreWide(v)),
        0x37 => Some(Instruction::LstoreWide(v)),
        0x38 => Some(Instruction::FstoreWide(v)),
        0x39 => Some(Instruction::DstoreWide(v)),
        0x3a => Some(Instruction::AstoreWide(v)),
        0xa9 => Some(Instruction::RetWide(v)),
        _ => None,
    }
}

} // verus!
