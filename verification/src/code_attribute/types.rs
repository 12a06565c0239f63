//! The records that the bytecode of a method decodes to.

use vstd::prelude::*;

verus! {

/// One bytecode instruction with its operands.
///
/// The variants are named after the mnemonics; a `Wide` suffix marks the
/// form that follows the `wide` prefix and carries 16-bit operands. Branch
/// offsets are signed and relative, indices are unsigned.
#[derive(Clone, Debug, PartialEq, Eq)]
pub enum Instruction {
    Aaload,
    Aastore,
    Aconstnull,
    Aload(u8),
    AloadWide(u16),
    Aload0,
    Aload1,
    Aload2,
    Aload3,
    Anewarray(u16),
    Areturn,
    Arraylength,
    Astore(u8),
    AstoreWide(u16),
    Astore0,
    Astore1,
    Astore2,
    Astore3,
    Athrow,
    Baload,
    Bastore,
    Bipush(i8),
    Caload,
    Castore,
    Checkcast(u16),
    D2f,
    D2i,
    D2l,
    Dadd,
    Daload,
    Dastore,
    Dcmpg,
    Dcmpl,
    Dconst0,
    Dconst1,
    Ddiv,
    Dload(u8),
    DloadWide(u16),
    Dload0,
    Dload1,
    Dload2,
    Dload3,
    Dmul,
    Dneg,
    Drem,
    Dreturn,
    Dstore(u8),
    DstoreWide(u16),
    Dstore0,
    Dstore1,
    Dstore2,
    Dstore3,
    Dsub,
    Dup,
    Dupx1,
    Dupx2,
    Dup2,
    Dup2x1,
    Dup2x2,
    F2d,
    F2i,
    F2l,
    Fadd,
    Faload,
    Fastore,
    Fcmpg,
    Fcmpl,
    Fconst0,
    Fconst1,
    Fconst2,
    Fdiv,
    Fload(u8),
    FloadWide(u16),
    Fload0,
    Fload1,
    Fload2,
    Fload3,
    Fmul,
    Fneg,
    Frem,
    Freturn,
    Fstore(u8),
    FstoreWide(u16),
    Fstore0,
    Fstore1,
    Fstore2,
    Fstore3,
    Fsub,
    Getfield(u16),
    Getstatic(u16),
    Goto(i16),
    GotoW(i32),
    I2b,
    I2c,
    I2d,
    I2f,
    I2l,
    I2s,
    Iadd,
    Iaload,
    Iand,
    Iastore,
    Iconstm1,
    Iconst0,
    Iconst1,
    Iconst2,
    Iconst3,
    Iconst4,
    Iconst5,
    Idiv,
    IfAcmpeq(i16),
    IfAcmpne(i16),
    IfIcmpeq(i16),
    IfIcmpne(i16),
    IfIcmplt(i16),
    IfIcmpge(i16),
    IfIcmpgt(i16),
    IfIcmple(i16),
    Ifeq(i16),
    Ifne(i16),
    Iflt(i16),
    Ifge(i16),
    Ifgt(i16),
    Ifle(i16),
    Ifnonnull(i16),
    Ifnull(i16),
    Iinc { index: u8, value: i8 },
    IincWide { index: u16, value: i16 },
    Iload(u8),
    IloadWide(u16),
    Iload0,
    Iload1,
    Iload2,
    Iload3,
    Imul,
    Ineg,
    Instanceof(u16),
    Invokedynamic(u16),
    Invokeinterface { index: u16, count: u8 },
    Invokespecial(u16),
    Invokestatic(u16),
    Invokevirtual(u16),
    Ior,
    Irem,
    Ireturn,
    Ishl,
    Ishr,
    Istore(u8),
    IstoreWide(u16),
    Istore0,
    Istore1,
    Istore2,
    Istore3,
    Isub,
    Iushr,
    Ixor,
    Jsr(i16),
    JsrW(i32),
    L2d,
    L2f,
    L2i,
    Ladd,
    Laload,
    Land,
    Lastore,
    Lcmp,
    Lconst0,
    Lconst1,
    Ldc(u8),
    LdcW(u16),
    Ldc2W(u16),
    Ldiv,
    Lload(u8),
    LloadWide(u16),
    Lload0,
    Lload1,
    Lload2,
    Lload3,
    Lmul,
    Lneg,
    Lookupswitch { default: i32, pairs: Vec<(i32, i32)> },
    Lor,
    Lrem,
    Lreturn,
    Lshl,
    Lshr,
    Lstore(u8),
    LstoreWide(u16),
    Lstore0,
    Lstore1,
    Lstore2,
    Lstore3,
    Lsub,
    Lushr,
    Lxor,
    Monitorenter,
    Monitorexit,
    Multianewarray { index: u16, dimensions: u8 },
    New(u16),
    Newarray(u8),
    Nop,
    Pop,
    Pop2,
    Putfield(u16),
    Putstatic(u16),
    Ret(u8),
    RetWide(u16),
    Return,
    Saload,
    Sastore,
    Sipush(i16),
    Swap,
    Tableswitch { default: i32, low: i32, high: i32, offsets: Vec<i32> },
}

/// The model of an [`Instruction`]: the two switch forms hold their tables
/// as sequences, every other instruction is of fixed length and is its own
/// model.
pub ghost enum InstructionView {
    Fixed(Instruction),
    Tableswitch { default: i32, low: i32, high: i32, offsets: Seq<i32> },
    Lookupswitch { default: i32, pairs: Seq<(i32, i32)> },
}

impl View for Instruction {
    type V = InstructionView;

    open spec fn view(&self) -> InstructionView {
        match *self {
            Instruction::Tableswitch {
                default,
                low,
                high,
                offsets,
            } => InstructionView::Tableswitch { default, low, high, offsets: offsets@ },
            Instruction::Lookupswitch { default, pairs } => InstructionView::Lookupswitch {
                default,
                pairs: pairs@,
            },
            _ => InstructionView::Fixed(*self),
        }
    }
}

impl DeepView for Instruction {
    type V = InstructionView;

    open spec fn deep_view(&self) -> InstructionView {
        self@
    }
}

impl InstructionView {
    /// A `tableswitch` has one offset for each value from `low` to `high`,
    /// and a fixed-length instruction is no switch.
    pub open spec fn well_formed(self) -> bool {
        match self {
            InstructionView::Fixed(instruction) => !(instruction is Tableswitch) && !(instruction
                 is Lookupswitch),
            InstructionView::Tableswitch { default, low, high, offsets } => offsets.len() == high
                - low + 1,
            InstructionView::Lookupswitch { default, pairs } => true,
        }
    }
}

/// One entry of a local variable table: the variable in slot `index` has
/// the given name and descriptor while the program counter lies in
/// `start_pc .. start_pc + length`.
#[derive(Clone, Copy, Debug, PartialEq, Eq)]
pub struct LocalVariableTableItem {
    pub start_pc: u16,
    pub length: u16,
    pub name_index: u16,
    pub descriptor_index: u16,
    pub index: u16,
}

impl DeepView for LocalVariableTableItem {
    type V = LocalVariableTableItem;

    open spec fn deep_view(&self) -> LocalVariableTableItem {
        *self
    }
}

/// The payload of a `LocalVariableTable` attribute.
#[derive(Clone, Debug, PartialEq, Eq)]
pub struct LocalVariableTableAttribute {
    pub local_variable_table_length: u16,
    pub items: Vec<LocalVariableTableItem>,
}

/// The model of a [`LocalVariableTableAttribute`].
pub ghost struct LocalVariableTableAttributeView {
    pub local_variable_table_length: u16,
    pub items: Seq<LocalVariableTableItem>,
}

impl View for LocalVariableTableAttribute {
    type V = LocalVariableTableAttributeView;

    open spec fn view(&self) -> LocalVariableTableAttributeView {
        LocalVariableTableAttributeView {
            local_variable_table_length: self.local_variable_table_length,
            items: self.items@,
        }
    }
}

impl LocalVariableTableAttributeView {
    /// There are as many entries as the count says.
    pub open spec fn well_formed(self) -> bool {
        self.items.len() == self.local_variable_table_length
    }
}

} // verus!
