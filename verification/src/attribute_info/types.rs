//! The records that attributes decode to.

use vstd::prelude::*;

verus! {

/// An attribute as it stands in the class file: the index of its name in
/// the constant pool, the declared length of its payload, and the payload
/// itself, copied and not interpreted.
#[derive(Clone, Debug, PartialEq, Eq)]
pub struct AttributeInfo {
    pub attribute_name_index: u16,
    pub attribute_length: u32,
    pub info: Vec<u8>,
}

/// The model of an [`AttributeInfo`].
pub ghost struct AttributeInfoView {
    pub attribute_name_index: u16,
    pub attribute_length: u32,
    pub info: Seq<u8>,
}

impl View for AttributeInfo {
    type V = AttributeInfoView;

    open spec fn view(&self) -> AttributeInfoView {
        AttributeInfoView {
            attribute_name_index: self.attribute_name_index,
            attribute_length: self.attribute_length,
            info: self.info@,
        }
    }
}

impl DeepView for AttributeInfo {
    type V = AttributeInfoView;

    open spec fn deep_view(&self) -> AttributeInfoView {
        self@
    }
}

impl AttributeInfoView {
    /// The payload is as long as the attribute declares.
    pub open spec fn well_formed(self) -> bool {
        self.info.len() == self.attribute_length
    }
}

/// One row of a method's exception table: the handler at `handler_pc`
/// covers the program counters from `start_pc` up to, not including,
/// `end_pc`, for exceptions of the class at `catch_type` in the pool.
#[derive(Clone, Copy, Debug, PartialEq, Eq)]
pub struct ExceptionEntry {
    pub start_pc: u16,
    pub end_pc: u16,
    pub handler_pc: u16,
    pub catch_type: u16,
}

impl DeepView for ExceptionEntry {
    type V = ExceptionEntry;

    open spec fn deep_view(&self) -> ExceptionEntry {
        *self
    }
}

/// The payload of a `Code` attribute.
#[derive(Clone, Debug, PartialEq, Eq)]
pub struct CodeAttribute {
    pub max_stack: u16,
    pub max_locals: u16,
    pub code_length: u32,
    pub code: Vec<u8>,
    pub exception_table_length: u16,
    pub exception_table: Vec<ExceptionEntry>,
    pub attributes_count: u16,
    pub attributes: Vec<AttributeInfo>,
}

/// The model of a [`CodeAttribute`].
pub ghost struct CodeAttributeView {
    pub max_stack: u16,
    pub max_locals: u16,
    pub code_length: u32,
    pub code: Seq<u8>,
    pub exception_table_length: u16,
    pub exception_table: Seq<ExceptionEntry>,
    pub attributes_count: u16,
    pub attributes: Seq<AttributeInfoView>,
}

impl View for CodeAttribute {
    type V = CodeAttributeView;

    open spec fn view(&self) -> CodeAttributeView {
        CodeAttributeView {
            max_stack: self.max_stack,
            max_locals: self.max_locals,
            code_length: self.code_length,
            code: self.code@,
            exception_table_length: self.exception_table_length,
            exception_table: self.exception_table@,
            attributes_count: self.attributes_count,
            attributes: self.attributes.deep_view(),
        }
    }
}

impl CodeAttributeView {
    /// The bytecode and the two tables are as long as the lengths beside
    /// them say, and every attribute of the code is well-formed.
    pub open spec fn well_formed(self) -> bool {
        &&& self.code.len() == self.code_length
        &&& self.exception_table.len() == self.exception_table_length
        &&& self.attributes.len() == self.attributes_count
        &&& forall|i: int|
            0 <= i < self.attributes.len() ==> (#[trigger] self.attributes[i]).well_formed()
    }
}

/// The payload of a `MethodParameters` attribute.
#[derive(Clone, Debug, PartialEq, Eq)]
pub struct MethodParametersAttribute {
    pub parameters_count: u8,
    pub parameters: Vec<ParameterAttribute>,
}

/// The model of a [`MethodParametersAttribute`].
pub ghost struct MethodParametersAttributeView {
    pub parameters_count: u8,
    pub parameters: Seq<ParameterAttribute>,
}

impl View for MethodParametersAttribute {
    type V = MethodParametersAttributeView;

    open spec fn view(&self) -> MethodParametersAttributeView {
        MethodParametersAttributeView {
            parameters_count: self.parameters_count,
            parameters: self.parameters@,
        }
    }
}

impl MethodParametersAttributeView {
    /// There are as many parameters as the count says.
    pub open spec fn well_formed(self) -> bool {
        self.parameters.len() == self.parameters_count
    }
}

/// One formal parameter of a method: the index of its name and its access
/// flags.
#[derive(Clone, Copy, Debug, PartialEq, Eq)]
pub struct ParameterAttribute {
    pub name_index: u16,
    pub access_flags: u16,
}

impl DeepView for ParameterAttribute {
    type V = ParameterAttribute;

    open spec fn deep_view(&self) -> ParameterAttribute {
        *self
    }
}

/// The verification type of one local variable or operand stack entry.
#[derive(Clone, Copy, Debug, PartialEq, Eq)]
pub enum VerificationTypeInfo {
    Top,
    Integer,
    Float,
    Double,
    Long,
    Null,
    UninitializedThis,
    Object {
        /// An index into the constant pool for the class of the object.
        class: u16,
    },
    Uninitialized {
        /// Offset into the associated code array of the `new` instruction
        /// that created the object being stored here.
        offset: u16,
    },
}

impl DeepView for VerificationTypeInfo {
    type V = VerificationTypeInfo;

    open spec fn deep_view(&self) -> VerificationTypeInfo {
        *self
    }
}

/// One frame of a stack map table. Which shape a frame has follows from the
/// range that its first byte, `frame_type`, lies in.
#[derive(Clone, Debug, PartialEq, Eq)]
pub enum StackMapFrame {
    SameFrame { frame_type: u8 },
    SameLocals1StackItemFrame { frame_type: u8, stack: VerificationTypeInfo },
    SameLocals1StackItemFrameExtended {
        frame_type: u8,
        offset_delta: u16,
        stack: VerificationTypeInfo,
    },
    ChopFrame { frame_type: u8, offset_delta: u16 },
    SameFrameExtended { frame_type: u8, offset_delta: u16 },
    AppendFrame { frame_type: u8, offset_delta: u16, locals: Vec<VerificationTypeInfo> },
    FullFrame {
        frame_type: u8,
        offset_delta: u16,
        number_of_locals: u16,
        locals: Vec<VerificationTypeInfo>,
        number_of_stack_items: u16,
        stack: Vec<VerificationTypeInfo>,
    },
}

/// The model of a [`StackMapFrame`].
pub ghost enum StackMapFrameView {
    SameFrame { frame_type: u8 },
    SameLocals1StackItemFrame { frame_type: u8, stack: VerificationTypeInfo },
    SameLocals1StackItemFrameExtended {
        frame_type: u8,
        offset_delta: u16,
        stack: VerificationTypeInfo,
    },
    ChopFrame { frame_type: u8, offset_delta: u16 },
    SameFrameExtended { frame_type: u8, offset_delta: u16 },
    AppendFrame { frame_type: u8, offset_delta: u16, locals: Seq<VerificationTypeInfo> },
    FullFrame {
        frame_type: u8,
        offset_delta: u16,
        number_of_locals: u16,
        locals: Seq<VerificationTypeInfo>,
        number_of_stack_items: u16,
        stack: Seq<VerificationTypeInfo>,
    },
}

impl View for StackMapFrame {
    type V = StackMapFrameView;

    open spec fn view(&self) -> StackMapFrameView {
        match *self {
            StackMapFrame::SameFrame { frame_type } => StackMapFrameView::SameFrame { frame_type },
            StackMapFrame::SameLocals1StackItemFrame {
                frame_type,
                stack,
            } => StackMapFrameView::SameLocals1StackItemFrame { frame_type, stack },
            StackMapFrame::SameLocals1StackItemFrameExtended {
                frame_type,
                offset_delta,
                stack,
            } => StackMapFrameView::SameLocals1StackItemFrameExtended {
                frame_type,
                offset_delta,
                stack,
            },
            StackMapFrame::ChopFrame { frame_type, offset_delta } => StackMapFrameView::ChopFrame {
                frame_type,
                offset_delta,
            },
            StackMapFrame::SameFrameExtended {
                frame_type,
                offset_delta,
            } => StackMapFrameView::SameFrameExtended { frame_type, offset_delta },
            StackMapFrame::AppendFrame {
                frame_type,
                offset_delta,
                locals,
            } => StackMapFrameView::AppendFrame { frame_type, offset_delta, locals: locals@ },
            StackMapFrame::FullFrame {
                frame_type,
                offset_delta,
                number_of_locals,
                locals,
                number_of_stack_items,
                stack,
            } => StackMapFrameView::FullFrame {
                frame_type,
                offset_delta,
                number_of_locals,
                locals: locals@,
                number_of_stack_items,
                stack: stack@,
            },
        }
    }
}

impl DeepView for StackMapFrame {
    type V = StackMapFrameView;

    open spec fn deep_view(&self) -> StackMapFrameView {
        self@
    }
}

impl StackMapFrameView {
    /// The type of the frame lies in the range of its shape, and its lists
    /// are as long as its type or the counts beside them say.
    pub open spec fn well_formed(self) -> bool {
        match self {
            StackMapFrameView::SameFrame { frame_type } => frame_type <= 63,
            StackMapFrameView::SameLocals1StackItemFrame { frame_type, stack } => 64 <= frame_type
                <= 127,
            StackMapFrameView::SameLocals1StackItemFrameExtended {
                frame_type,
                offset_delta,
                stack,
            } => frame_type == 247,
            StackMapFrameView::ChopFrame { frame_type, offset_delta } => 248 <= frame_type <= 250,
            StackMapFrameView::SameFrameExtended { frame_type, offset_delta } => frame_type == 251,
            StackMapFrameView::AppendFrame { frame_type, offset_delta, locals } => 252
                <= frame_type <= 254 && locals.len() == frame_type - 251,
            StackMapFrameView::FullFrame {
                frame_type,
                offset_delta,
                number_of_locals,
                locals,
                number_of_stack_items,
                stack,
            } => frame_type == 255 && locals.len() == number_of_locals && stack.len()
                == number_of_stack_items,
        }
    }
}

/// The payload of a `StackMapTable` attribute.
#[derive(Clone, Debug, PartialEq, Eq)]
pub struct StackMapTableAttribute {
    pub number_of_entries: u16,
    pub entries: Vec<StackMapFrame>,
}

/// The model of a [`StackMapTableAttribute`].
pub ghost struct StackMapTableAttributeView {
    pub number_of_entries: u16,
    pub entries: Seq<StackMapFrameView>,
}

impl View for StackMapTableAttribute {
    type V = StackMapTableAttributeView;

    open spec fn view(&self) -> StackMapTableAttributeView {
        StackMapTableAttributeView {
            number_of_entries: self.number_of_entries,
            entries: self.entries.deep_view(),
        }
    }
}

impl StackMapTableAttributeView {
    /// There are as many frames as the count says, each well-formed.
    pub open spec fn well_formed(self) -> bool {
        &&& self.entries.len() == self.number_of_entries
        &&& forall|i: int|
            0 <= i < self.entries.len() ==> (#[trigger] self.entries[i]).well_formed()
    }
}

/// The payload of an `Exceptions` attribute: the classes that a method
/// declares to throw, as indices into the constant pool.
#[derive(Clone, Debug, PartialEq, Eq)]
pub struct ExceptionsAttribute {
    pub exception_table_length: u16,
    pub exception_table: Vec<u16>,
}

/// The model of an [`ExceptionsAttribute`].
pub ghost struct ExceptionsAttributeView {
    pub exception_table_length: u16,
    pub exception_table: Seq<u16>,
}

impl View for ExceptionsAttribute {
    type V = ExceptionsAttributeView;

    open spec fn view(&self) -> ExceptionsAttributeView {
        ExceptionsAttributeView {
            exception_table_length: self.exception_table_length,
            exception_table: self.exception_table@,
        }
    }
}

impl ExceptionsAttributeView {
    /// There are as many class indices as the count says.
    pub open spec fn well_formed(self) -> bool {
        self.exception_table.len() == self.exception_table_length
    }
}

/// The payload of a `ConstantValue` attribute.
#[derive(Clone, Copy, Debug, PartialEq, Eq)]
pub struct ConstantValueAttribute {
    pub constant_value_index: u16,
}

/// One bootstrap method: the index of its method handle and the indices of
/// its static arguments.
#[derive(Clone, Debug, PartialEq, Eq)]
pub struct BootstrapMethod {
    pub bootstrap_method_ref: u16,
    pub num_bootstrap_arguments: u16,
    pub bootstrap_arguments: Vec<u16>,
}

/// The model of a [`BootstrapMethod`].
pub ghost struct BootstrapMethodView {
    pub bootstrap_method_ref: u16,
    pub num_bootstrap_arguments: u16,
    pub bootstrap_arguments: Seq<u16>,
}

impl View for BootstrapMethod {
    type V = BootstrapMethodView;

    open spec fn view(&self) -> BootstrapMethodView {
        BootstrapMethodView {
            bootstrap_method_ref: self.bootstrap_method_ref,
            num_bootstrap_arguments: self.num_bootstrap_arguments,
            bootstrap_arguments: self.bootstrap_arguments@,
        }
    }
}

impl DeepView for BootstrapMethod {
    type V = BootstrapMethodView;

    open spec fn deep_view(&self) -> BootstrapMethodView {
        self@
    }
}

impl BootstrapMethodView {
    /// There are as many arguments as the count says.
    pub open spec fn well_formed(self) -> bool {
        self.bootstrap_arguments.len() == self.num_bootstrap_arguments
    }
}

/// The payload of a `BootstrapMethods` attribute.
#[derive(Clone, Debug, PartialEq, Eq)]
pub struct BootstrapMethodsAttribute {
    pub num_bootstrap_methods: u16,
    pub bootstrap_methods: Vec<BootstrapMethod>,
}

/// The model of a [`BootstrapMethodsAttribute`].
pub ghost struct BootstrapMethodsAttributeView {
    pub num_bootstrap_methods: u16,
    pub bootstrap_methods: Seq<BootstrapMethodView>,
}

impl View for BootstrapMethodsAttribute {
    type V = BootstrapMethodsAttributeView;

    open spec fn view(&self) -> BootstrapMethodsAttributeView {
        BootstrapMethodsAttributeView {
            num_bootstrap_methods: self.num_bootstrap_methods,
            bootstrap_methods: self.bootstrap_methods.deep_view(),
        }
    }
}

impl BootstrapMethodsAttributeView {
    /// There are as many methods as the count says, each well-formed.
    pub open spec fn well_formed(self) -> bool {
        &&& self.bootstrap_methods.len() == self.num_bootstrap_methods
        &&& forall|i: int|
            0 <= i < self.bootstrap_methods.len() ==> (
            #[trigger] self.bootstrap_methods[i]).well_formed()
    }
}

/// The payload of a `SourceFile` attribute: the index, in the constant
/// pool, of the name of the source file that the class was compiled from.
#[derive(Copy, Clone, Debug, Eq, PartialEq)]
pub struct SourceFileAttribute {
    pub sourcefile_index: u16,
}

} // verus!
