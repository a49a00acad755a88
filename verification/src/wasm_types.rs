//! Shared types of the bytecode markup layer: section and instruction
//! kinds of the module binary format, the assignment-shared state threaded
//! through the markup chips, and the section-length decoder.

use vstd::prelude::*;

verus! {

/// What a markup assignment writes.
#[derive(Clone, Copy, Debug, PartialEq, Eq, Structural)]
pub enum AssignType {
    Unknown,
    QFirst,
    QLast,
    IsSectionId,
    IsSectionLen,
    IsSectionBody,
    BodyByteRevIndexL1,
    ErrorCode,
}

/// Whether markup of the current bytecode ran into an error.
#[derive(Clone, Copy, Debug, PartialEq, Eq, Structural)]
pub enum ErrorCode {
    Clear,
    Raised,
}

impl ErrorCode {
    /// The numeric form the assignment layer writes: zero when clear.
    pub fn code(self) -> (r: u64)
        ensures
            r == (if self == ErrorCode::Clear {
                0int
            } else {
                1int
            }),
    {
        match self {
            ErrorCode::Clear => 0,
            ErrorCode::Raised => 1,
        }
    }
}

/// One section kind of a module binary.
#[derive(Clone, Copy, Debug, PartialEq, Eq, Structural)]
pub enum WasmSection {
    Custom,
    Type,
    Import,
    Function,
    Table,
    Memory,
    Global,
    Export,
    Start,
    Element,
    Code,
    Data,
    DataCount,
}

impl WasmSection {
    /// The byte this kind is encoded as in the binary format.
    pub fn code(self) -> (r: u8)
        ensures
            self == WasmSection::Custom ==> r == 0,
            self == WasmSection::Type ==> r == 1,
            self == WasmSection::Import ==> r == 2,
            self == WasmSection::Function ==> r == 3,
            self == WasmSection::Table ==> r == 4,
            self == WasmSection::Memory ==> r == 5,
            self == WasmSection::Global ==> r == 6,
            self == WasmSection::Export ==> r == 7,
            self == WasmSection::Start ==> r == 8,
            self == WasmSection::Element ==> r == 9,
            self == WasmSection::Code ==> r == 10,
            self == WasmSection::Data ==> r == 11,
            self == WasmSection::DataCount ==> r == 12,
    {
        match self {
            WasmSection::Custom => 0,
            WasmSection::Type => 1,
            WasmSection::Import => 2,
            WasmSection::Function => 3,
            WasmSection::Table => 4,
            WasmSection::Memory => 5,
            WasmSection::Global => 6,
            WasmSection::Export => 7,
            WasmSection::Start => 8,
            WasmSection::Element => 9,
            WasmSection::Code => 10,
            WasmSection::Data => 11,
            WasmSection::DataCount => 12,
        }
    }

    /// Decodes the byte back to the kind; `None` for a byte the
    /// decoder does not accept.
    pub fn from_code(v: u8) -> (r: Option<Self>)
        ensures
            r.is_some() <==> (v == 0 || v == 1 || v == 2 || v == 3 || v == 4 || v == 5 || v == 6 || v == 7 || v == 8 || v == 9 || v == 10 || v == 11 || v == 12),
            v == 0 ==> r == Some(WasmSection::Custom),
            v == 1 ==> r == Some(WasmSection::Type),
            v == 2 ==> r == Some(WasmSection::Import),
            v == 3 ==> r == Some(WasmSection::Function),
            v == 4 ==> r == Some(WasmSection::Table),
            v == 5 ==> r == Some(WasmSection::Memory),
            v == 6 ==> r == Some(WasmSection::Global),
            v == 7 ==> r == Some(WasmSection::Export),
            v == 8 ==> r == Some(WasmSection::Start),
            v == 9 ==> r == Some(WasmSection::Element),
            v == 10 ==> r == Some(WasmSection::Code),
            v == 11 ==> r == Some(WasmSection::Data),
            v == 12 ==> r == Some(WasmSection::DataCount),
    {
        match v {
            0 => Some(WasmSection::Custom),
            1 => Some(WasmSection::Type),
            2 => Some(WasmSection::Import),
            3 => Some(WasmSection::Function),
            4 => Some(WasmSection::Table),
            5 => Some(WasmSection::Memory),
            6 => Some(WasmSection::Global),
            7 => Some(WasmSection::Export),
            8 => Some(WasmSection::Start),
            9 => Some(WasmSection::Element),
            10 => Some(WasmSection::Code),
            11 => Some(WasmSection::Data),
            12 => Some(WasmSection::DataCount),
            _ => None,
        }
    }
}

/// A number type of the binary format.
#[derive(Clone, Copy, Debug, PartialEq, Eq, Structural)]
pub enum NumType {
    I32,
    I64,
}

impl NumType {
    /// The byte this kind is encoded as in the binary format.
    pub fn code(self) -> (r: u8)
        ensures
            self == NumType::I32 ==> r == 127,
            self == NumType::I64 ==> r == 126,
    {
        match self {
            NumType::I32 => 127,
            NumType::I64 => 126,
        }
    }

    /// Decodes the byte back to the kind; `None` for a byte the
    /// decoder does not accept.
    pub fn from_code(v: u8) -> (r: Option<Self>)
        ensures
            r.is_some() <==> (v == 127 || v == 126),
            v == 127 ==> r == Some(NumType::I32),
            v == 126 ==> r == Some(NumType::I64),
    {
        match v {
            127 => Some(NumType::I32),
            126 => Some(NumType::I64),
            _ => None,
        }
    }
}

/// A reference type of the binary format.
#[derive(Clone, Copy, Debug, PartialEq, Eq, Structural)]
pub enum RefType {
    FuncRef,
    ExternRef,
}

impl RefType {
    /// The byte this kind is encoded as in the binary format.
    pub fn code(self) -> (r: u8)
        ensures
            self == RefType::FuncRef ==> r == 112,
            self == RefType::ExternRef ==> r == 113,
    {
        match self {
            RefType::FuncRef => 112,
            RefType::ExternRef => 113,
        }
    }

    /// Decodes the byte back to the kind; `None` for a byte the
    /// decoder does not accept.
    pub fn from_code(v: u8) -> (r: Option<Self>)
        ensures
            r.is_some() <==> (v == 112 || v == 113),
            v == 112 ==> r == Some(RefType::FuncRef),
            v == 113 ==> r == Some(RefType::ExternRef),
    {
        match v {
            112 => Some(RefType::FuncRef),
            113 => Some(RefType::ExternRef),
            _ => None,
        }
    }
}

/// A limits shape of the binary format.
#[derive(Clone, Copy, Debug, PartialEq, Eq, Structural)]
pub enum LimitType {
    MinOnly,
    MinMax,
}

impl LimitType {
    /// The byte this kind is encoded as in the binary format.
    pub fn code(self) -> (r: u8)
        ensures
            self == LimitType::MinOnly ==> r == 0,
            self == LimitType::MinMax ==> r == 1,
    {
        match self {
            LimitType::MinOnly => 0,
            LimitType::MinMax => 1,
        }
    }

    /// Decodes the byte back to the kind; `None` for a byte the
    /// decoder does not accept.
    pub fn from_code(v: u8) -> (r: Option<Self>)
        ensures
            r.is_some() <==> (v == 0 || v == 1),
            v == 0 ==> r == Some(LimitType::MinOnly),
            v == 1 ==> r == Some(LimitType::MinMax),
    {
        match v {
            0 => Some(LimitType::MinOnly),
            1 => Some(LimitType::MinMax),
            _ => None,
        }
    }
}

/// A data-segment shape: bit 0 marks a passive segment, bit 1 an explicit memory index.
#[derive(Clone, Copy, Debug, PartialEq, Eq, Structural)]
pub enum MemSegmentType {
    Active,
    Passive,
    ActiveVariadic,
}

impl MemSegmentType {
    /// The byte this kind is encoded as in the binary format.
    pub fn code(self) -> (r: u8)
        ensures
            self == MemSegmentType::Active ==> r == 0,
            self == MemSegmentType::Passive ==> r == 1,
            self == MemSegmentType::ActiveVariadic ==> r == 2,
    {
        match self {
            MemSegmentType::Active => 0,
            MemSegmentType::Passive => 1,
            MemSegmentType::ActiveVariadic => 2,
        }
    }

    /// Decodes the byte back to the kind; `None` for a byte the
    /// decoder does not accept.
    pub fn from_code(v: u8) -> (r: Option<Self>)
        ensures
            r.is_some() <==> (v == 0 || v == 1 || v == 2),
            v == 0 ==> r == Some(MemSegmentType::Active),
            v == 1 ==> r == Some(MemSegmentType::Passive),
            v == 2 ==> r == Some(MemSegmentType::ActiveVariadic),
    {
        match v {
            0 => Some(MemSegmentType::Active),
            1 => Some(MemSegmentType::Passive),
            2 => Some(MemSegmentType::ActiveVariadic),
            _ => None,
        }
    }
}

/// An import description kind.
#[derive(Clone, Copy, Debug, PartialEq, Eq, Structural)]
pub enum ImportDescType {
    Typeidx,
    TableType,
    MemType,
    GlobalType,
}

impl ImportDescType {
    /// The byte this kind is encoded as in the binary format.
    pub fn code(self) -> (r: u8)
        ensures
            self == ImportDescType::Typeidx ==> r == 0,
            self == ImportDescType::TableType ==> r == 1,
            self == ImportDescType::MemType ==> r == 2,
            self == ImportDescType::GlobalType ==> r == 3,
    {
        match self {
            ImportDescType::Typeidx => 0,
            ImportDescType::TableType => 1,
            ImportDescType::MemType => 2,
            ImportDescType::GlobalType => 3,
        }
    }

    /// Decodes the byte back to the kind; `None` for a byte the
    /// decoder does not accept.
    pub fn from_code(v: u8) -> (r: Option<Self>)
        ensures
            r.is_some() <==> (v == 0 || v == 1 || v == 2 || v == 3),
            v == 0 ==> r == Some(ImportDescType::Typeidx),
            v == 1 ==> r == Some(ImportDescType::TableType),
            v == 2 ==> r == Some(ImportDescType::MemType),
            v == 3 ==> r == Some(ImportDescType::GlobalType),
    {
        match v {
            0 => Some(ImportDescType::Typeidx),
            1 => Some(ImportDescType::TableType),
            2 => Some(ImportDescType::MemType),
            3 => Some(ImportDescType::GlobalType),
            _ => None,
        }
    }
}

/// An export description kind.
#[derive(Clone, Copy, Debug, PartialEq, Eq, Structural)]
pub enum ExportDescType {
    Funcidx,
    Tableidx,
    Memidx,
    Globalidx,
}

impl ExportDescType {
    /// The byte this kind is encoded as in the binary format.
    pub fn code(self) -> (r: u8)
        ensures
            self == ExportDescType::Funcidx ==> r == 0,
            self == ExportDescType::Tableidx ==> r == 1,
            self == ExportDescType::Memidx ==> r == 2,
            self == ExportDescType::Globalidx ==> r == 3,
    {
        match self {
            ExportDescType::Funcidx => 0,
            ExportDescType::Tableidx => 1,
            ExportDescType::Memidx => 2,
            ExportDescType::Globalidx => 3,
        }
    }

    /// Decodes the byte back to the kind; `None` for a byte the
    /// decoder does not accept.
    pub fn from_code(v: u8) -> (r: Option<Self>)
        ensures
            r.is_some() <==> (v == 0 || v == 1 || v == 2 || v == 3),
            v == 0 ==> r == Some(ExportDescType::Funcidx),
            v == 1 ==> r == Some(ExportDescType::Tableidx),
            v == 2 ==> r == Some(ExportDescType::Memidx),
            v == 3 ==> r == Some(ExportDescType::Globalidx),
    {
        match v {
            0 => Some(ExportDescType::Funcidx),
            1 => Some(ExportDescType::Tableidx),
            2 => Some(ExportDescType::Memidx),
            3 => Some(ExportDescType::Globalidx),
            _ => None,
        }
    }
}

/// A global's mutability.
#[derive(Clone, Copy, Debug, PartialEq, Eq, Structural)]
pub enum Mutability {
    Const,
    Var,
}

impl Mutability {
    /// The byte this kind is encoded as in the binary format.
    pub fn code(self) -> (r: u8)
        ensures
            self == Mutability::Const ==> r == 0,
            self == Mutability::Var ==> r == 1,
    {
        match self {
            Mutability::Const => 0,
            Mutability::Var => 1,
        }
    }
}

/// A local or global variable instruction.
#[derive(Clone, Copy, Debug, PartialEq, Eq, Structural)]
pub enum VariableInstruction {
    LocalGet,
    LocalSet,
    LocalTee,
    GlobalGet,
    GlobalSet,
}

impl VariableInstruction {
    /// The byte this kind is encoded as in the binary format.
    pub fn code(self) -> (r: u8)
        ensures
            self == VariableInstruction::LocalGet ==> r == 32,
            self == VariableInstruction::LocalSet ==> r == 33,
            self == VariableInstruction::LocalTee ==> r == 34,
            self == VariableInstruction::GlobalGet ==> r == 35,
            self == VariableInstruction::GlobalSet ==> r == 36,
    {
        match self {
            VariableInstruction::LocalGet => 32,
            VariableInstruction::LocalSet => 33,
            VariableInstruction::LocalTee => 34,
            VariableInstruction::GlobalGet => 35,
            VariableInstruction::GlobalSet => 36,
        }
    }

    /// Decodes the byte back to the kind; `None` for a byte the
    /// decoder does not accept.
    pub fn from_code(v: u8) -> (r: Option<Self>)
        ensures
            r.is_some() <==> (v == 32 || v == 33 || v == 34 || v == 35 || v == 36),
            v == 32 ==> r == Some(VariableInstruction::LocalGet),
            v == 33 ==> r == Some(VariableInstruction::LocalSet),
            v == 34 ==> r == Some(VariableInstruction::LocalTee),
            v == 35 ==> r == Some(VariableInstruction::GlobalGet),
            v == 36 ==> r == Some(VariableInstruction::GlobalSet),
    {
        match v {
            32 => Some(VariableInstruction::LocalGet),
            33 => Some(VariableInstruction::LocalSet),
            34 => Some(VariableInstruction::LocalTee),
            35 => Some(VariableInstruction::GlobalGet),
            36 => Some(VariableInstruction::GlobalSet),
            _ => None,
        }
    }
}

/// A control instruction.
#[derive(Clone, Copy, Debug, PartialEq, Eq, Structural)]
pub enum ControlInstruction {
    Unreachable,
    Nop,
    Block,
    Loop,
    If,
    Else,
    Br,
    BrIf,
    BrTable,
    Return,
    Call,
    CallIndirect,
}

impl ControlInstruction {
    /// The byte this kind is encoded as in the binary format.
    pub fn code(self) -> (r: u8)
        ensures
            self == ControlInstruction::Unreachable ==> r == 0,
            self == ControlInstruction::Nop ==> r == 1,
            self == ControlInstruction::Block ==> r == 2,
            self == ControlInstruction::Loop ==> r == 3,
            self == ControlInstruction::If ==> r == 4,
            self == ControlInstruction::Else ==> r == 5,
            self == ControlInstruction::Br ==> r == 12,
            self == ControlInstruction::BrIf ==> r == 13,
            self == ControlInstruction::BrTable ==> r == 14,
            self == ControlInstruction::Return ==> r == 15,
            self == ControlInstruction::Call ==> r == 16,
            self == ControlInstruction::CallIndirect ==> r == 17,
    {
        match self {
            ControlInstruction::Unreachable => 0,
            ControlInstruction::Nop => 1,
            ControlInstruction::Block => 2,
            ControlInstruction::Loop => 3,
            ControlInstruction::If => 4,
            ControlInstruction::Else => 5,
            ControlInstruction::Br => 12,
            ControlInstruction::BrIf => 13,
            ControlInstruction::BrTable => 14,
            ControlInstruction::Return => 15,
            ControlInstruction::Call => 16,
            ControlInstruction::CallIndirect => 17,
        }
    }

    /// Decodes the byte back to the kind; `None` for a byte the
    /// decoder does not accept.
    pub fn from_code(v: u8) -> (r: Option<Self>)
        ensures
            r.is_some() <==> (v == 0 || v == 2 || v == 3 || v == 4 || v == 5 || v == 12 || v == 13 || v == 16),
            v == 0 ==> r == Some(ControlInstruction::Unreachable),
            v == 2 ==> r == Some(ControlInstruction::Block),
            v == 3 ==> r == Some(ControlInstruction::Loop),
            v == 4 ==> r == Some(ControlInstruction::If),
            v == 5 ==> r == Some(ControlInstruction::Else),
            v == 12 ==> r == Some(ControlInstruction::Br),
            v == 13 ==> r == Some(ControlInstruction::BrIf),
            v == 16 ==> r == Some(ControlInstruction::Call),
    {
        match v {
            0 => Some(ControlInstruction::Unreachable),
            2 => Some(ControlInstruction::Block),
            3 => Some(ControlInstruction::Loop),
            4 => Some(ControlInstruction::If),
            5 => Some(ControlInstruction::Else),
            12 => Some(ControlInstruction::Br),
            13 => Some(ControlInstruction::BrIf),
            16 => Some(ControlInstruction::Call),
            _ => None,
        }
    }
}

/// A parametric instruction.
#[derive(Clone, Copy, Debug, PartialEq, Eq, Structural)]
pub enum ParametricInstruction {
    Drop,
    Select,
}

impl ParametricInstruction {
    /// The byte this kind is encoded as in the binary format.
    pub fn code(self) -> (r: u8)
        ensures
            self == ParametricInstruction::Drop ==> r == 26,
            self == ParametricInstruction::Select ==> r == 27,
    {
        match self {
            ParametricInstruction::Drop => 26,
            ParametricInstruction::Select => 27,
        }
    }

    /// Decodes the byte back to the kind; `None` for a byte the
    /// decoder does not accept.
    pub fn from_code(v: u8) -> (r: Option<Self>)
        ensures
            r.is_some() <==> (v == 26 || v == 27),
            v == 26 ==> r == Some(ParametricInstruction::Drop),
            v == 27 ==> r == Some(ParametricInstruction::Select),
    {
        match v {
            26 => Some(ParametricInstruction::Drop),
            27 => Some(ParametricInstruction::Select),
            _ => None,
        }
    }
}
/// A numeric instruction opcode of the binary format.
#[derive(Clone, Copy, Debug, PartialEq, Eq, Structural)]
#[allow(non_camel_case_types)]
pub enum NumericInstruction {
    I32Const,
    I64Const,
    F32Const,
    F64Const,
    I32Eqz,
    I32Eq,
    I32Ne,
    I32LtS,
    I32LtU,
    I32GtS,
    I32GtU,
    I32LeS,
    I32LeU,
    I32GeS,
    I32GeU,
    I64Eqz,
    I64Eq,
    I64Ne,
    I64LtS,
    I64LtU,
    I64GtS,
    I64GtU,
    I64LeS,
    I64LeU,
    I64GeS,
    I64GeU,
    F32Eq,
    F32Ne,
    F32Lt,
    F32Gt,
    F32Le,
    F32Ge,
    F64Eq,
    F64Ne,
    F64Lt,
    F64Gt,
    F64Le,
    F64Ge,
    I32Clz,
    I32Ctz,
    I32Popcnt,
    I32Add,
    I32Sub,
    I32Mul,
    I32DivS,
    I32DivU,
    I32RemS,
    I32RemU,
    I32And,
    I32Or,
    I32Xor,
    I32Shl,
    I32ShrS,
    I32ShrU,
    I32Rotl,
    I32Rotr,
    I64Clz,
    I64Ctz,
    I64Popcnt,
    I64Add,
    I64Sub,
    I64Mul,
    I64DivS,
    I64DivU,
    I64RemS,
    I64RemU,
    I64And,
    I64Or,
    I64Xor,
    I64Shl,
    I64ShrS,
    I64ShrU,
    I64Rotl,
    I64Rotr,
    F32Abs,
    F32Neg,
    F32Ceil,
    F32Floor,
    F32Trunc,
    F32Nearest,
    F32Sqrt,
    F32Add,
    F32Sub,
    F32Mul,
    F32Div,
    F32Min,
    F32Max,
    F32Copysign,
    F64Abs,
    F64Neg,
    F64Ceil,
    F64Floor,
    F64Trunc,
    F64Nearest,
    F64Sqrt,
    F64Add,
    F64Sub,
    F64Mul,
    F64Div,
    F64Min,
    F64Max,
    F64Copysign,
    I32WrapI64,
    I32TruncSF32,
    I32TruncUF32,
    I32TruncSF64,
    I32TruncUF64,
    I64ExtendSI32,
    I64ExtendUI32,
    I64TruncSF32,
    I64TruncUF32,
    I64TruncSF64,
    I64TruncUF64,
    F32ConvertSI32,
    F32ConvertUI32,
    F32ConvertSI64,
    F32ConvertUI64,
    F32DemoteF64,
    F64ConvertSI32,
    F64ConvertUI32,
    F64ConvertSI64,
    F64ConvertUI64,
    F64PromoteF32,
    I32ReinterpretF32,
    I64ReinterpretF64,
    F32ReinterpretI32,
    F64ReinterpretI64,
    I32extend8S,
    I32extend16S,
    I64extend8S,
    I64extend16S,
    I64extend32S,
}

impl NumericInstruction {
    /// The byte this opcode is encoded as.
    pub fn code(self) -> (r: u8)
        ensures
            self == NumericInstruction::I32Const ==> r == 0x41,
            self == NumericInstruction::I64Const ==> r == 0x42,
            self == NumericInstruction::I32Add ==> r == 0x6a,
            self == NumericInstruction::I64Add ==> r == 0x7c,
    {
        match self {
            NumericInstruction::I32Const => 0x41,
            NumericInstruction::I64Const => 0x42,
            NumericInstruction::F32Const => 0x43,
            NumericInstruction::F64Const => 0x44,
            NumericInstruction::I32Eqz => 0x45,
            NumericInstruction::I32Eq => 0x46,
            NumericInstruction::I32Ne => 0x47,
            NumericInstruction::I32LtS => 0x48,
            NumericInstruction::I32LtU => 0x49,
            NumericInstruction::I32GtS => 0x4a,
            NumericInstruction::I32GtU => 0x4b,
            NumericInstruction::I32LeS => 0x4c,
            NumericInstruction::I32LeU => 0x4d,
            NumericInstruction::I32GeS => 0x4e,
            NumericInstruction::I32GeU => 0x4f,
            NumericInstruction::I64Eqz => 0x50,
            NumericInstruction::I64Eq => 0x51,
            NumericInstruction::I64Ne => 0x52,
            NumericInstruction::I64LtS => 0x53,
            NumericInstruction::I64LtU => 0x54,
            NumericInstruction::I64GtS => 0x55,
            NumericInstruction::I64GtU => 0x56,
            NumericInstruction::I64LeS => 0x57,
            NumericInstruction::I64LeU => 0x58,
            NumericInstruction::I64GeS => 0x59,
            NumericInstruction::I64GeU => 0x5a,
            NumericInstruction::F32Eq => 0x5b,
            NumericInstruction::F32Ne => 0x5c,
            NumericInstruction::F32Lt => 0x5d,
            NumericInstruction::F32Gt => 0x5e,
            NumericInstruction::F32Le => 0x5f,
            NumericInstruction::F32Ge => 0x60,
            NumericInstruction::F64Eq => 0x61,
            NumericInstruction::F64Ne => 0x62,
            NumericInstruction::F64Lt => 0x63,
            NumericInstruction::F64Gt => 0x64,
            NumericInstruction::F64Le => 0x65,
            NumericInstruction::F64Ge => 0x66,
            NumericInstruction::I32Clz => 0x67,
            NumericInstruction::I32Ctz => 0x68,
            NumericInstruction::I32Popcnt => 0x69,
            NumericInstruction::I32Add => 0x6a,
            NumericInstruction::I32Sub => 0x6b,
            NumericInstruction::I32Mul => 0x6c,
            NumericInstruction::I32DivS => 0x6d,
            NumericInstruction::I32DivU => 0x6e,
            NumericInstruction::I32RemS => 0x6f,
            NumericInstruction::I32RemU => 0x70,
            NumericInstruction::I32And => 0x71,
            NumericInstruction::I32Or => 0x72,
            NumericInstruction::I32Xor => 0x73,
            NumericInstruction::I32Shl => 0x74,
            NumericInstruction::I32ShrS => 0x75,
            NumericInstruction::I32ShrU => 0x76,
            NumericInstruction::I32Rotl => 0x77,
            NumericInstruction::I32Rotr => 0x78,
            NumericInstruction::I64Clz => 0x79,
            NumericInstruction::I64Ctz => 0x7a,
            NumericInstruction::I64Popcnt => 0x7b,
            NumericInstruction::I64Add => 0x7c,
            NumericInstruction::I64Sub => 0x7d,
            NumericInstruction::I64Mul => 0x7e,
            NumericInstruction::I64DivS => 0x7f,
            NumericInstruction::I64DivU => 0x80,
            NumericInstruction::I64RemS => 0x81,
            NumericInstruction::I64RemU => 0x82,
            NumericInstruction::I64And => 0x83,
            NumericInstruction::I64Or => 0x84,
            NumericInstruction::I64Xor => 0x85,
            NumericInstruction::I64Shl => 0x86,
            NumericInstruction::I64ShrS => 0x87,
            NumericInstruction::I64ShrU => 0x88,
            NumericInstruction::I64Rotl => 0x89,
            NumericInstruction::I64Rotr => 0x8a,
            NumericInstruction::F32Abs => 0x8b,
            NumericInstruction::F32Neg => 0x8c,
            NumericInstruction::F32Ceil => 0x8d,
            NumericInstruction::F32Floor => 0x8e,
            NumericInstruction::F32Trunc => 0x8f,
            NumericInstruction::F32Nearest => 0x90,
            NumericInstruction::F32Sqrt => 0x91,
            NumericInstruction::F32Add => 0x92,
            NumericInstruction::F32Sub => 0x93,
            NumericInstruction::F32Mul => 0x94,
            NumericInstruction::F32Div => 0x95,
            NumericInstruction::F32Min => 0x96,
            NumericInstruction::F32Max => 0x97,
            NumericInstruction::F32Copysign => 0x98,
            NumericInstruction::F64Abs => 0x99,
            NumericInstruction::F64Neg => 0x9a,
            NumericInstruction::F64Ceil => 0x9b,
            NumericInstruction::F64Floor => 0x9c,
            NumericInstruction::F64Trunc => 0x9d,
            NumericInstruction::F64Nearest => 0x9e,
            NumericInstruction::F64Sqrt => 0x9f,
            NumericInstruction::F64Add => 0xa0,
            NumericInstruction::F64Sub => 0xa1,
            NumericInstruction::F64Mul => 0xa2,
            NumericInstruction::F64Div => 0xa3,
            NumericInstruction::F64Min => 0xa4,
            NumericInstruction::F64Max => 0xa5,
            NumericInstruction::F64Copysign => 0xa6,
            NumericInstruction::I32WrapI64 => 0xa7,
            NumericInstruction::I32TruncSF32 => 0xa8,
            NumericInstruction::I32TruncUF32 => 0xa9,
            NumericInstruction::I32TruncSF64 => 0xaa,
            NumericInstruction::I32TruncUF64 => 0xab,
            NumericInstruction::I64ExtendSI32 => 0xac,
            NumericInstruction::I64ExtendUI32 => 0xad,
            NumericInstruction::I64TruncSF32 => 0xae,
            NumericInstruction::I64TruncUF32 => 0xaf,
            NumericInstruction::I64TruncSF64 => 0xb0,
            NumericInstruction::I64TruncUF64 => 0xb1,
            NumericInstruction::F32ConvertSI32 => 0xb2,
            NumericInstruction::F32ConvertUI32 => 0xb3,
            NumericInstruction::F32ConvertSI64 => 0xb4,
            NumericInstruction::F32ConvertUI64 => 0xb5,
            NumericInstruction::F32DemoteF64 => 0xb6,
            NumericInstruction::F64ConvertSI32 => 0xb7,
            NumericInstruction::F64ConvertUI32 => 0xb8,
            NumericInstruction::F64ConvertSI64 => 0xb9,
            NumericInstruction::F64ConvertUI64 => 0xba,
            NumericInstruction::F64PromoteF32 => 0xbb,
            NumericInstruction::I32ReinterpretF32 => 0xbc,
            NumericInstruction::I64ReinterpretF64 => 0xbd,
            NumericInstruction::F32ReinterpretI32 => 0xbe,
            NumericInstruction::F64ReinterpretI64 => 0xbf,
            NumericInstruction::I32extend8S => 0xc0,
            NumericInstruction::I32extend16S => 0xc1,
            NumericInstruction::I64extend8S => 0xc2,
            NumericInstruction::I64extend16S => 0xc3,
            NumericInstruction::I64extend32S => 0xc4,
        }
    }

    /// Decodes the byte back to the opcode; the decoder accepts only
    /// the constant-loading and addition opcodes, as the bytecode
    /// markup layer does.
    pub fn from_code(v: u8) -> (r: Option<Self>)
        ensures
            r.is_some() <==> (v == 0x41 || v == 0x42 || v == 0x6a || v == 0x7c),
            v == 0x41 ==> r == Some(NumericInstruction::I32Const),
            v == 0x42 ==> r == Some(NumericInstruction::I64Const),
            v == 0x6a ==> r == Some(NumericInstruction::I32Add),
            v == 0x7c ==> r == Some(NumericInstruction::I64Add),
    {
        match v {
            0x41 => Some(NumericInstruction::I32Const),
            0x42 => Some(NumericInstruction::I64Const),
            0x6a => Some(NumericInstruction::I32Add),
            0x7c => Some(NumericInstruction::I64Add),
            _ => None,
        }
    }
}
/// The failures of the section-length decoder.
#[derive(Clone, Copy, Debug, PartialEq, Eq, Structural)]
pub enum MarkupError {
    IndexOutOfBoundsSimple,
    ComputationFailed,
    Leb128MaxBytes,
    InvalidEnumValue,
}

/// The most bytes one length encoding may span.
pub const MAX_LEB128_BYTES: usize = 5;

/// The numeric value of the digit character.
pub fn digit_char_to_number(ch: &char) -> (r: u8)
    requires
        '0' <= *ch && *ch <= '9',
    ensures
        r == *ch as u8 - 48,
{
    *ch as u8 - 48
}

/// The value of the `count`-byte little-endian base-128 group encoding
/// starting at `start`: each byte contributes its low seven bits.
pub open spec fn leb128_value(s: Seq<u8>, start: int, count: int) -> int
    decreases count,
{
    if count <= 0 {
        0
    } else {
        leb128_value(s, start, count - 1) + (s[start + count - 1] & 0x7f) * pow128(count - 1)
    }
}

/// 128 to the power `k`, for the up-to-five digits a length may span.
pub open spec fn pow128(k: int) -> int {
    if k <= 0 {
        1int
    } else if k == 1 {
        128int
    } else if k == 2 {
        16384int
    } else if k == 3 {
        2097152int
    } else {
        268435456int
    }
}

/// The first `k` bytes at `start` are all present and all carry the
/// continuation bit.
pub open spec fn leb128_cont_prefix(s: Seq<u8>, start: int, k: int) -> bool {
    forall|j: int| 0 <= j < k ==> start + j < s.len() && (#[trigger] s[start + j]) & 0x80 != 0
}

/// A terminating byte (continuation bit clear) occurs at offset `k`.
pub open spec fn leb128_terminates_at(s: Seq<u8>, start: int, k: int) -> bool {
    &&& leb128_cont_prefix(s, start, k)
    &&& start + k < s.len()
    &&& s[start + k] & 0x80 == 0
}

/// The value of `count` digits is below 128 to the `count`.
pub proof fn lemma_leb128_bound(s: Seq<u8>, start: int, count: int)
    requires
        0 <= count <= 5,
    ensures
        leb128_value(s, start, count) <= if count <= 0 {
            0int
        } else if count == 1 {
            0x7fint
        } else if count == 2 {
            0x3fffint
        } else if count == 3 {
            0x1f_ffffint
        } else if count == 4 {
            0xfff_ffffint
        } else {
            0x7_ffff_ffffint
        },
        leb128_value(s, start, count) >= 0,
    decreases count,
{
    if count > 0 {
        lemma_leb128_bound(s, start, count - 1);
        let b = s[start + count - 1];
        assert(b & 0x7f <= 0x7f) by (bit_vector);
    }
}

/// Decodes a section's byte length: a little-endian base-128 group
/// encoding of up to five bytes, the high bit of each byte marking a
/// continuation.  Returns the length and the number of bytes it spanned.
pub fn wasm_compute_section_len(wb: &Vec<u8>, len_start_index: usize) -> (r: Result<
    (usize, u8),
    MarkupError,
>)
    ensures
        match r {
            Ok((len, cnt)) => {
                &&& 1 <= cnt <= 5
                &&& len_start_index + cnt <= wb@.len()
                &&& (forall|k: int|
                    0 <= k < cnt - 1 ==> #[trigger] wb@[len_start_index + k] & 0x80 != 0)
                &&& wb@[len_start_index + cnt - 1] & 0x80 == 0
                &&& len == leb128_value(wb@, len_start_index as int, cnt as int)
            },
            Err(e) => e == MarkupError::IndexOutOfBoundsSimple || e == MarkupError::Leb128MaxBytes
                || e == MarkupError::ComputationFailed,
        },
        // a terminating byte within five, encoding a representable value,
        // is exactly what succeeds
        r.is_ok() <==> exists|k: int|
            0 <= k < 5 && #[trigger] leb128_terminates_at(wb@, len_start_index as int, k)
                && leb128_value(wb@, len_start_index as int, k + 1) <= usize::MAX,
        r == Err::<(usize, u8), MarkupError>(MarkupError::IndexOutOfBoundsSimple) <==> (exists|
            k: int,
        |
            0 <= k < 5 && #[trigger] leb128_cont_prefix(wb@, len_start_index as int, k)
                && len_start_index + k >= wb@.len()),
        r == Err::<(usize, u8), MarkupError>(MarkupError::Leb128MaxBytes)
            <==> leb128_cont_prefix(wb@, len_start_index as int, 5),
        r == Err::<(usize, u8), MarkupError>(MarkupError::ComputationFailed) <==> (exists|k: int|
            0 <= k < 5 && #[trigger] leb128_terminates_at(wb@, len_start_index as int, k)
                && leb128_value(wb@, len_start_index as int, k + 1) > usize::MAX),
{
    let mut section_len: u64 = 0;
    let mut count: usize = 0;
    loop
        invariant
            count < 5,
            count > 0 ==> len_start_index + count <= wb@.len(),
            forall|k: int| 0 <= k < count ==> #[trigger] wb@[len_start_index + k] & 0x80 != 0,
            section_len == leb128_value(wb@, len_start_index as int, count as int),
        decreases 5 - count,
    {
        proof {
            lemma_leb128_bound(wb@, len_start_index as int, count as int);
        }
        if len_start_index >= wb.len() || wb.len() - len_start_index <= count {
            proof {
                let st = len_start_index as int;
                assert(leb128_cont_prefix(wb@, st, count as int));
                assert forall|k: int|
                    0 <= k < 5 && #[trigger] leb128_terminates_at(wb@, st, k) implies false by {
                    if k < count {
                        assert(wb@[st + k] & 0x80 != 0);
                    } else {
                        assert(st + count >= wb@.len());
                        assert(st + k < wb@.len());
                    }
                }
                assert(!leb128_cont_prefix(wb@, st, 5)) by {
                    if leb128_cont_prefix(wb@, st, 5) {
                        assert(wb@[st + count] & 0x80 != 0);
                        assert(st + count < wb@.len());
                    }
                }
            }
            return Err(MarkupError::IndexOutOfBoundsSimple);
        }
        let byte = wb[len_start_index + count];
        let digit: u64 = (byte & 0x7f) as u64;
        let pow: u64 = match count {
            0 => 1,
            1 => 128,
            2 => 16384,
            3 => 2097152,
            _ => 268435456,
        };
        proof {
            assert(byte & 0x7f <= 0x7f) by (bit_vector);
            assert(digit * pow <= 127 * 268435456) by (nonlinear_arith)
                requires digit <= 127, pow <= 268435456;
        }
        section_len = section_len + digit * pow;
        count = count + 1;
        proof {
            lemma_leb128_bound(wb@, len_start_index as int, count as int);
        }
        if byte & 0x80 == 0 {
            proof {
                let st = len_start_index as int;
                assert(leb128_terminates_at(wb@, st, count - 1));
                assert forall|k: int|
                    0 <= k < 5 && #[trigger] leb128_terminates_at(wb@, st, k) && k != count - 1
                        implies false by {
                    if k < count - 1 {
                        assert(wb@[st + k] & 0x80 != 0);
                    } else {
                        assert(leb128_cont_prefix(wb@, st, k));
                        assert(wb@[st + (count - 1)] & 0x80 != 0);
                    }
                }
                assert(!leb128_cont_prefix(wb@, st, 5)) by {
                    if leb128_cont_prefix(wb@, st, 5) {
                        assert(wb@[st + (count - 1)] & 0x80 != 0);
                    }
                }
                assert forall|k: int|
                    0 <= k < 5 && #[trigger] leb128_cont_prefix(wb@, st, k) implies st + k
                    < wb@.len() by {
                    if k <= count - 1 {
                        assert(st + (count - 1) < wb@.len());
                    } else {
                        assert(wb@[st + (count - 1)] & 0x80 != 0);
                    }
                }
            }
            if section_len > usize::MAX as u64 {
                return Err(MarkupError::ComputationFailed);
            }
            return Ok((section_len as usize, count as u8));
        }
        if count >= MAX_LEB128_BYTES {
            proof {
                let st = len_start_index as int;
                assert(leb128_cont_prefix(wb@, st, 5));
                assert forall|k: int|
                    0 <= k < 5 && #[trigger] leb128_terminates_at(wb@, st, k) implies false by {
                    assert(wb@[st + k] & 0x80 != 0);
                }
                assert forall|k: int|
                    0 <= k < 5 && #[trigger] leb128_cont_prefix(wb@, st, k) implies st + k
                    < wb@.len() by {}
            }
            return Err(MarkupError::Leb128MaxBytes);
        }
    }
}

/// The mutable counters the markup chips share while assigning one
/// bytecode after another.
#[derive(Clone, Copy, Debug, PartialEq, Eq, Structural)]
pub struct SharedState {
    pub bytecode_number: u64,
    pub dynamic_indexes_offset: usize,
    pub func_count: usize,
    pub block_level: usize,
    pub error_processing_enabled: bool,
    pub error_code: u64,
}

impl Default for SharedState {
    /// All counters zero; the first bytecode is numbered one on `reset`.
    fn default() -> (r: SharedState)
        ensures
            r == (SharedState {
                bytecode_number: 0,
                dynamic_indexes_offset: 0,
                func_count: 0,
                block_level: 0,
                error_processing_enabled: false,
                error_code: 0,
            }),
    {
        SharedState {
            bytecode_number: 0,
            dynamic_indexes_offset: 0,
            func_count: 0,
            block_level: 0,
            error_processing_enabled: false,
            error_code: 0,
        }
    }
}

impl SharedState {
    /// Returns the counters to their initial assignment state; the error
    /// processing switch is left as configured.
    pub fn reset(&mut self)
        ensures
            final(self).bytecode_number == 1,
            final(self).dynamic_indexes_offset == 0,
            final(self).func_count == 0,
            final(self).block_level == 0,
            final(self).error_code == 0,
            final(self).error_processing_enabled == old(self).error_processing_enabled,
    {
        self.bytecode_number = 1;
        self.dynamic_indexes_offset = 0;
        self.func_count = 0;
        self.block_level = 0;
        self.error_code = 0;
    }

    pub fn bytecode_number_inc(&mut self)
        requires
            old(self).bytecode_number < u64::MAX,
        ensures
            *final(self) == (SharedState {
                bytecode_number: (old(self).bytecode_number + 1) as u64,
                ..*old(self)
            }),
    {
        self.bytecode_number = self.bytecode_number + 1;
    }

    pub fn bytecode_number_reset(&mut self)
        ensures
            *final(self) == (SharedState { bytecode_number: 1, ..*old(self) }),
    {
        self.bytecode_number = 1;
    }

    pub fn dynamic_indexes_offset_reset(&mut self)
        ensures
            *final(self) == (SharedState { dynamic_indexes_offset: 0, ..*old(self) }),
    {
        self.dynamic_indexes_offset = 0;
    }

    pub fn error_code_turn_on(&mut self)
        ensures
            *final(self) == (SharedState { error_code: 1, ..*old(self) }),
    {
        self.error_code = 1;
    }

    pub fn error_code_reset(&mut self)
        ensures
            *final(self) == (SharedState { error_code: 0, ..*old(self) }),
    {
        self.error_code = 0;
    }

    pub fn block_level_inc(&mut self)
        requires
            old(self).block_level < usize::MAX,
        ensures
            *final(self) == (SharedState { block_level: (old(self).block_level + 1) as usize, ..*old(self) }),
    {
        self.block_level = self.block_level + 1;
    }

    pub fn block_level_reset(&mut self)
        ensures
            *final(self) == (SharedState { block_level: 0, ..*old(self) }),
    {
        self.block_level = 0;
    }

    pub fn block_level_dec(&mut self)
        requires
            old(self).block_level > 0,
        ensures
            *final(self) == (SharedState { block_level: (old(self).block_level - 1) as usize, ..*old(self) }),
    {
        self.block_level = self.block_level - 1;
    }
}

/// A markup chip that shares the assignment counters.
pub trait WasmSharedStateAwareChip {
    fn shared_state(&self) -> &SharedState;
}

} // verus!
