//! Instructions, expressions and the `else` branch: the recursive heart of
//! the grammar.
//!
//! `Instr` nests instruction sequences through `Block`, `Loop` and `If`, so
//! its encoding spec, its codec and its unambiguity proofs form one
//! mutually recursive cluster of free functions; the trait implementations
//! wrap them.

use vstd::prelude::*;

use crate::codec::lemma_concat_cancel;
use crate::codec::uleb64_encode;
use crate::codec::Decode;
use crate::codec::DecodeError;
use crate::codec::DecodeResult;
use crate::codec::Encode;
use crate::codec::F32Bits;
use crate::codec::F64Bits;
use crate::codec::Repeated;
use crate::leb::uleb;
use crate::types::DataIdx;
use crate::types::ElemIdx;
use crate::types::FuncIdx;
use crate::types::GlobalIdx;
use crate::types::LabelIdx;
use crate::types::LocalIdx;
use crate::types::MemArg;
use crate::types::RefType;
use crate::types::TableIdx;
use crate::types::TypeIdx;
use crate::types::ValType;

verus! {


/// `Instr` non-terminal: one WebAssembly instruction.
#[derive(Debug, PartialEq)]
pub enum Instr {
    Unreachable,
    Nop,
    Block(i32, Repeated<Instr>),
    Loop(i32, Repeated<Instr>),
    If(i32, Repeated<Instr>, Else),
    Br(LabelIdx),
    BrIf(LabelIdx),
    BrTable(Vec<LabelIdx>, LabelIdx),
    Return,
    Call(FuncIdx),
    CallIndirect(TypeIdx, TableIdx),
    RefNull(RefType),
    RefIsNull,
    RefFunc(FuncIdx),
    Drop,
    Select,
    SelectTys(Vec<ValType>),
    LocalGet(LocalIdx),
    LocalSet(LocalIdx),
    LocalTee(LocalIdx),
    GlobalGet(GlobalIdx),
    GlobalSet(GlobalIdx),
    TableGet(TableIdx),
    TableSet(TableIdx),
    TableInit(ElemIdx, TableIdx),
    ElemDrop(ElemIdx),
    TableCopy(TableIdx, TableIdx),
    TableGrow(TableIdx),
    TableSize(TableIdx),
    TableFill(TableIdx),
    I32Load(MemArg),
    I64Load(MemArg),
    F32Load(MemArg),
    F64Load(MemArg),
    I32Load8S(MemArg),
    I32Load8U(MemArg),
    I32Load16S(MemArg),
    I32Load16U(MemArg),
    I64Load8S(MemArg),
    I64Load8U(MemArg),
    I64Load16S(MemArg),
    I64Load16U(MemArg),
    I64Load32S(MemArg),
    I64Load32U(MemArg),
    I32Store(MemArg),
    I64Store(MemArg),
    F32Store(MemArg),
    F64Store(MemArg),
    I32Store8(MemArg),
    I32Store16(MemArg),
    I64Store8(MemArg),
    I64Store16(MemArg),
    I64Store32(MemArg),
    MemorySize,
    MemoryGrow,
    MemoryInit(DataIdx),
    DataDrop(DataIdx),
    MemoryCopy,
    MemoryFill,
    I32Const(i32),
    I64Const(i64),
    F32Const(F32Bits),
    F64Const(F64Bits),
    I32Eqz,
    I32Eq,
    I32Ne,
    I32LtS,
    I32LtU,
    I32GtS,
    I32GtU,
    I32LeS,
    I32LeU,
    I32GeS,
    I32GeU,
    I64EqZ,
    I64Eq,
    I64Ne,
    I64LtS,
    I64LtU,
    I64GtS,
    I64GtU,
    I64LeS,
    I64LeU,
    I64GeS,
    I64GeU,
    F32Eq,
    F32Ne,
    F32Lt,
    F32Gt,
    F32Le,
    F32Ge,
    F64Eq,
    F64Ne,
    F64Lt,
    F64Gt,
    F64Le,
    F64Ge,
    I32Clz,
    I32Ctz,
    I32Popcnt,
    I32Add,
    I32Sub,
    I32Mul,
    I32DivS,
    I32DivU,
    I32RemS,
    I32RemU,
    I32And,
    I32Or,
    I32Xor,
    I32Shl,
    I32ShrS,
    I32ShrU,
    I32Rotl,
    I32Rotr,
    I64Clz,
    I64Ctz,
    I64Popcnt,
    I64Add,
    I64Sub,
    I64Mul,
    I64DivS,
    I64DivU,
    I64RemS,
    I64RemU,
    I64And,
    I64Or,
    I64Xor,
    I64Shl,
    I64ShrS,
    I64ShrU,
    I64Rotl,
    I64Rotr,
    F32Abs,
    F32Neg,
    F32Ceil,
    F32Floor,
    F32Trunc,
    F32Nearest,
    F32Sqrt,
    F32Add,
    F32Sub,
    F32Mul,
    F32Div,
    F32Min,
    F32Max,
    F32Copysign,
    F64Abs,
    F64Neg,
    F64Ceil,
    F64Floor,
    F64Trunc,
    F64Nearest,
    F64Sqrt,
    F64Add,
    F64Sub,
    F64Mul,
    F64Div,
    F64Min,
    F64Max,
    F64Copysign,
    I32WrapI64,
    I32TruncF32S,
    I32TruncF32U,
    I32TruncF64S,
    I32TruncF64U,
    I64ExtendI32S,
    I64ExtendI32U,
    I64TruncF32S,
    I64TruncF32U,
    I64TruncF64S,
    I64TruncF64U,
    F32ConvertI32S,
    F32ConvertI32U,
    F32ConvertI64S,
    F32ConvertI64U,
    F32DemoteF64,
    F64ConvertI32S,
    F64ConvertI32U,
    F64ConvertI64S,
    F64ConvertI64U,
    F64PromoteF32,
    I32ReinterpretF32,
    I64ReinterpretF64,
    F32ReinterpretI32,
    F64ReinterpretI64,
    I32Extend8S,
    I32Extend16S,
    I64Extend8S,
    I64Extend16S,
    I64Extend32S,
    I32TruncSatF32S,
    I32TruncSatF32U,
    I32TruncSatF64S,
    I32TruncSatF64U,
    I64TruncSatF32S,
    I64TruncSatF32U,
    I64TruncSatF64S,
    I64TruncSatF64U,
}

/// `Else` non-terminal: the optional else-branch of an `If`.
#[derive(Debug, PartialEq)]
pub enum Else {
    NoElse,
    Else(Repeated<Instr>),
}

/// `Expr` non-terminal: an instruction sequence closed by `0x0B`.
#[derive(Debug, PartialEq)]
pub struct Expr(pub Repeated<Instr>);

/// Deep view of [`Instr`].
pub enum SpecInstr {
    Unreachable,
    Nop,
    Block(i32, Seq<SpecInstr>),
    Loop(i32, Seq<SpecInstr>),
    If(i32, Seq<SpecInstr>, SpecElse),
    Br(LabelIdx),
    BrIf(LabelIdx),
    BrTable(Seq<LabelIdx>, LabelIdx),
    Return,
    Call(FuncIdx),
    CallIndirect(TypeIdx, TableIdx),
    RefNull(RefType),
    RefIsNull,
    RefFunc(FuncIdx),
    Drop,
    Select,
    SelectTys(Seq<ValType>),
    LocalGet(LocalIdx),
    LocalSet(LocalIdx),
    LocalTee(LocalIdx),
    GlobalGet(GlobalIdx),
    GlobalSet(GlobalIdx),
    TableGet(TableIdx),
    TableSet(TableIdx),
    TableInit(ElemIdx, TableIdx),
    ElemDrop(ElemIdx),
    TableCopy(TableIdx, TableIdx),
    TableGrow(TableIdx),
    TableSize(TableIdx),
    TableFill(TableIdx),
    I32Load(MemArg),
    I64Load(MemArg),
    F32Load(MemArg),
    F64Load(MemArg),
    I32Load8S(MemArg),
    I32Load8U(MemArg),
    I32Load16S(MemArg),
    I32Load16U(MemArg),
    I64Load8S(MemArg),
    I64Load8U(MemArg),
    I64Load16S(MemArg),
    I64Load16U(MemArg),
    I64Load32S(MemArg),
    I64Load32U(MemArg),
    I32Store(MemArg),
    I64Store(MemArg),
    F32Store(MemArg),
    F64Store(MemArg),
    I32Store8(MemArg),
    I32Store16(MemArg),
    I64Store8(MemArg),
    I64Store16(MemArg),
    I64Store32(MemArg),
    MemorySize,
    MemoryGrow,
    MemoryInit(DataIdx),
    DataDrop(DataIdx),
    MemoryCopy,
    MemoryFill,
    I32Const(i32),
    I64Const(i64),
    F32Const(u32),
    F64Const(u64),
    I32Eqz,
    I32Eq,
    I32Ne,
    I32LtS,
    I32LtU,
    I32GtS,
    I32GtU,
    I32LeS,
    I32LeU,
    I32GeS,
    I32GeU,
    I64EqZ,
    I64Eq,
    I64Ne,
    I64LtS,
    I64LtU,
    I64GtS,
    I64GtU,
    I64LeS,
    I64LeU,
    I64GeS,
    I64GeU,
    F32Eq,
    F32Ne,
    F32Lt,
    F32Gt,
    F32Le,
    F32Ge,
    F64Eq,
    F64Ne,
    F64Lt,
    F64Gt,
    F64Le,
    F64Ge,
    I32Clz,
    I32Ctz,
    I32Popcnt,
    I32Add,
    I32Sub,
    I32Mul,
    I32DivS,
    I32DivU,
    I32RemS,
    I32RemU,
    I32And,
    I32Or,
    I32Xor,
    I32Shl,
    I32ShrS,
    I32ShrU,
    I32Rotl,
    I32Rotr,
    I64Clz,
    I64Ctz,
    I64Popcnt,
    I64Add,
    I64Sub,
    I64Mul,
    I64DivS,
    I64DivU,
    I64RemS,
    I64RemU,
    I64And,
    I64Or,
    I64Xor,
    I64Shl,
    I64ShrS,
    I64ShrU,
    I64Rotl,
    I64Rotr,
    F32Abs,
    F32Neg,
    F32Ceil,
    F32Floor,
    F32Trunc,
    F32Nearest,
    F32Sqrt,
    F32Add,
    F32Sub,
    F32Mul,
    F32Div,
    F32Min,
    F32Max,
    F32Copysign,
    F64Abs,
    F64Neg,
    F64Ceil,
    F64Floor,
    F64Trunc,
    F64Nearest,
    F64Sqrt,
    F64Add,
    F64Sub,
    F64Mul,
    F64Div,
    F64Min,
    F64Max,
    F64Copysign,
    I32WrapI64,
    I32TruncF32S,
    I32TruncF32U,
    I32TruncF64S,
    I32TruncF64U,
    I64ExtendI32S,
    I64ExtendI32U,
    I64TruncF32S,
    I64TruncF32U,
    I64TruncF64S,
    I64TruncF64U,
    F32ConvertI32S,
    F32ConvertI32U,
    F32ConvertI64S,
    F32ConvertI64U,
    F32DemoteF64,
    F64ConvertI32S,
    F64ConvertI32U,
    F64ConvertI64S,
    F64ConvertI64U,
    F64PromoteF32,
    I32ReinterpretF32,
    I64ReinterpretF64,
    F32ReinterpretI32,
    F64ReinterpretI64,
    I32Extend8S,
    I32Extend16S,
    I64Extend8S,
    I64Extend16S,
    I64Extend32S,
    I32TruncSatF32S,
    I32TruncSatF32U,
    I32TruncSatF64S,
    I32TruncSatF64U,
    I64TruncSatF32S,
    I64TruncSatF32U,
    I64TruncSatF64S,
    I64TruncSatF64U,
}

/// Deep view of [`Else`].
pub enum SpecElse {
    NoElse,
    Else(Seq<SpecInstr>),
}

/// Deep view of one instruction, computed without going through the
/// container views (which would make the trait instances cyclic).
pub open spec fn instr_view(v: Instr) -> SpecInstr
    decreases v,
{
    match v {
        Instr::Unreachable => SpecInstr::Unreachable,
        Instr::Nop => SpecInstr::Nop,
        Instr::Block(a0, a1) => SpecInstr::Block(a0.deep_view(), instr_vec_view(a1.0)),
        Instr::Loop(a0, a1) => SpecInstr::Loop(a0.deep_view(), instr_vec_view(a1.0)),
        Instr::If(a0, a1, a2) => SpecInstr::If(a0.deep_view(), instr_vec_view(a1.0), else_view(a2)),
        Instr::Br(a0) => SpecInstr::Br(a0.deep_view()),
        Instr::BrIf(a0) => SpecInstr::BrIf(a0.deep_view()),
        Instr::BrTable(a0, a1) => SpecInstr::BrTable(a0.deep_view(), a1.deep_view()),
        Instr::Return => SpecInstr::Return,
        Instr::Call(a0) => SpecInstr::Call(a0.deep_view()),
        Instr::CallIndirect(a0, a1) => SpecInstr::CallIndirect(a0.deep_view(), a1.deep_view()),
        Instr::RefNull(a0) => SpecInstr::RefNull(a0.deep_view()),
        Instr::RefIsNull => SpecInstr::RefIsNull,
        Instr::RefFunc(a0) => SpecInstr::RefFunc(a0.deep_view()),
        Instr::Drop => SpecInstr::Drop,
        Instr::Select => SpecInstr::Select,
        Instr::SelectTys(a0) => SpecInstr::SelectTys(a0.deep_view()),
        Instr::LocalGet(a0) => SpecInstr::LocalGet(a0.deep_view()),
        Instr::LocalSet(a0) => SpecInstr::LocalSet(a0.deep_view()),
        Instr::LocalTee(a0) => SpecInstr::LocalTee(a0.deep_view()),
        Instr::GlobalGet(a0) => SpecInstr::GlobalGet(a0.deep_view()),
        Instr::GlobalSet(a0) => SpecInstr::GlobalSet(a0.deep_view()),
        Instr::TableGet(a0) => SpecInstr::TableGet(a0.deep_view()),
        Instr::TableSet(a0) => SpecInstr::TableSet(a0.deep_view()),
        Instr::TableInit(a0, a1) => SpecInstr::TableInit(a0.deep_view(), a1.deep_view()),
        Instr::ElemDrop(a0) => SpecInstr::ElemDrop(a0.deep_view()),
        Instr::TableCopy(a0, a1) => SpecInstr::TableCopy(a0.deep_view(), a1.deep_view()),
        Instr::TableGrow(a0) => SpecInstr::TableGrow(a0.deep_view()),
        Instr::TableSize(a0) => SpecInstr::TableSize(a0.deep_view()),
        Instr::TableFill(a0) => SpecInstr::TableFill(a0.deep_view()),
        Instr::I32Load(a0) => SpecInstr::I32Load(a0.deep_view()),
        Instr::I64Load(a0) => SpecInstr::I64Load(a0.deep_view()),
        Instr::F32Load(a0) => SpecInstr::F32Load(a0.deep_view()),
        Instr::F64Load(a0) => SpecInstr::F64Load(a0.deep_view()),
        Instr::I32Load8S(a0) => SpecInstr::I32Load8S(a0.deep_view()),
        Instr::I32Load8U(a0) => SpecInstr::I32Load8U(a0.deep_view()),
        Instr::I32Load16S(a0) => SpecInstr::I32Load16S(a0.deep_view()),
        Instr::I32Load16U(a0) => SpecInstr::I32Load16U(a0.deep_view()),
        Instr::I64Load8S(a0) => SpecInstr::I64Load8S(a0.deep_view()),
        Instr::I64Load8U(a0) => SpecInstr::I64Load8U(a0.deep_view()),
        Instr::I64Load16S(a0) => SpecInstr::I64Load16S(a0.deep_view()),
        Instr::I64Load16U(a0) => SpecInstr::I64Load16U(a0.deep_view()),
        Instr::I64Load32S(a0) => SpecInstr::I64Load32S(a0.deep_view()),
        Instr::I64Load32U(a0) => SpecInstr::I64Load32U(a0.deep_view()),
        Instr::I32Store(a0) => SpecInstr::I32Store(a0.deep_view()),
        Instr::I64Store(a0) => SpecInstr::I64Store(a0.deep_view()),
        Instr::F32Store(a0) => SpecInstr::F32Store(a0.deep_view()),
        Instr::F64Store(a0) => SpecInstr::F64Store(a0.deep_view()),
        Instr::I32Store8(a0) => SpecInstr::I32Store8(a0.deep_view()),
        Instr::I32Store16(a0) => SpecInstr::I32Store16(a0.deep_view()),
        Instr::I64Store8(a0) => SpecInstr::I64Store8(a0.deep_view()),
        Instr::I64Store16(a0) => SpecInstr::I64Store16(a0.deep_view()),
        Instr::I64Store32(a0) => SpecInstr::I64Store32(a0.deep_view()),
        Instr::MemorySize => SpecInstr::MemorySize,
        Instr::MemoryGrow => SpecInstr::MemoryGrow,
        Instr::MemoryInit(a0) => SpecInstr::MemoryInit(a0.deep_view()),
        Instr::DataDrop(a0) => SpecInstr::DataDrop(a0.deep_view()),
        Instr::MemoryCopy => SpecInstr::MemoryCopy,
        Instr::MemoryFill => SpecInstr::MemoryFill,
        Instr::I32Const(a0) => SpecInstr::I32Const(a0.deep_view()),
        Instr::I64Const(a0) => SpecInstr::I64Const(a0.deep_view()),
        Instr::F32Const(a0) => SpecInstr::F32Const(a0.deep_view()),
        Instr::F64Const(a0) => SpecInstr::F64Const(a0.deep_view()),
        Instr::I32Eqz => SpecInstr::I32Eqz,
        Instr::I32Eq => SpecInstr::I32Eq,
        Instr::I32Ne => SpecInstr::I32Ne,
        Instr::I32LtS => SpecInstr::I32LtS,
        Instr::I32LtU => SpecInstr::I32LtU,
        Instr::I32GtS => SpecInstr::I32GtS,
        Instr::I32GtU => SpecInstr::I32GtU,
        Instr::I32LeS => SpecInstr::I32LeS,
        Instr::I32LeU => SpecInstr::I32LeU,
        Instr::I32GeS => SpecInstr::I32GeS,
        Instr::I32GeU => SpecInstr::I32GeU,
        Instr::I64EqZ => SpecInstr::I64EqZ,
        Instr::I64Eq => SpecInstr::I64Eq,
        Instr::I64Ne => SpecInstr::I64Ne,
        Instr::I64LtS => SpecInstr::I64LtS,
        Instr::I64LtU => SpecInstr::I64LtU,
        Instr::I64GtS => SpecInstr::I64GtS,
        Instr::I64GtU => SpecInstr::I64GtU,
        Instr::I64LeS => SpecInstr::I64LeS,
        Instr::I64LeU => SpecInstr::I64LeU,
        Instr::I64GeS => SpecInstr::I64GeS,
        Instr::I64GeU => SpecInstr::I64GeU,
        Instr::F32Eq => SpecInstr::F32Eq,
        Instr::F32Ne => SpecInstr::F32Ne,
        Instr::F32Lt => SpecInstr::F32Lt,
        Instr::F32Gt => SpecInstr::F32Gt,
        Instr::F32Le => SpecInstr::F32Le,
        Instr::F32Ge => SpecInstr::F32Ge,
        Instr::F64Eq => SpecInstr::F64Eq,
        Instr::F64Ne => SpecInstr::F64Ne,
        Instr::F64Lt => SpecInstr::F64Lt,
        Instr::F64Gt => SpecInstr::F64Gt,
        Instr::F64Le => SpecInstr::F64Le,
        Instr::F64Ge => SpecInstr::F64Ge,
        Instr::I32Clz => SpecInstr::I32Clz,
        Instr::I32Ctz => SpecInstr::I32Ctz,
        Instr::I32Popcnt => SpecInstr::I32Popcnt,
        Instr::I32Add => SpecInstr::I32Add,
        Instr::I32Sub => SpecInstr::I32Sub,
        Instr::I32Mul => SpecInstr::I32Mul,
        Instr::I32DivS => SpecInstr::I32DivS,
        Instr::I32DivU => SpecInstr::I32DivU,
        Instr::I32RemS => SpecInstr::I32RemS,
        Instr::I32RemU => SpecInstr::I32RemU,
        Instr::I32And => SpecInstr::I32And,
        Instr::I32Or => SpecInstr::I32Or,
        Instr::I32Xor => SpecInstr::I32Xor,
        Instr::I32Shl => SpecInstr::I32Shl,
        Instr::I32ShrS => SpecInstr::I32ShrS,
        Instr::I32ShrU => SpecInstr::I32ShrU,
        Instr::I32Rotl => SpecInstr::I32Rotl,
        Instr::I32Rotr => SpecInstr::I32Rotr,
        Instr::I64Clz => SpecInstr::I64Clz,
        Instr::I64Ctz => SpecInstr::I64Ctz,
        Instr::I64Popcnt => SpecInstr::I64Popcnt,
        Instr::I64Add => SpecInstr::I64Add,
        Instr::I64Sub => SpecInstr::I64Sub,
        Instr::I64Mul => SpecInstr::I64Mul,
        Instr::I64DivS => SpecInstr::I64DivS,
        Instr::I64DivU => SpecInstr::I64DivU,
        Instr::I64RemS => SpecInstr::I64RemS,
        Instr::I64RemU => SpecInstr::I64RemU,
        Instr::I64And => SpecInstr::I64And,
        Instr::I64Or => SpecInstr::I64Or,
        Instr::I64Xor => SpecInstr::I64Xor,
        Instr::I64Shl => SpecInstr::I64Shl,
        Instr::I64ShrS => SpecInstr::I64ShrS,
        Instr::I64ShrU => SpecInstr::I64ShrU,
        Instr::I64Rotl => SpecInstr::I64Rotl,
        Instr::I64Rotr => SpecInstr::I64Rotr,
        Instr::F32Abs => SpecInstr::F32Abs,
        Instr::F32Neg => SpecInstr::F32Neg,
        Instr::F32Ceil => SpecInstr::F32Ceil,
        Instr::F32Floor => SpecInstr::F32Floor,
        Instr::F32Trunc => SpecInstr::F32Trunc,
        Instr::F32Nearest => SpecInstr::F32Nearest,
        Instr::F32Sqrt => SpecInstr::F32Sqrt,
        Instr::F32Add => SpecInstr::F32Add,
        Instr::F32Sub => SpecInstr::F32Sub,
        Instr::F32Mul => SpecInstr::F32Mul,
        Instr::F32Div => SpecInstr::F32Div,
        Instr::F32Min => SpecInstr::F32Min,
        Instr::F32Max => SpecInstr::F32Max,
        Instr::F32Copysign => SpecInstr::F32Copysign,
        Instr::F64Abs => SpecInstr::F64Abs,
        Instr::F64Neg => SpecInstr::F64Neg,
        Instr::F64Ceil => SpecInstr::F64Ceil,
        Instr::F64Floor => SpecInstr::F64Floor,
        Instr::F64Trunc => SpecInstr::F64Trunc,
        Instr::F64Nearest => SpecInstr::F64Nearest,
        Instr::F64Sqrt => SpecInstr::F64Sqrt,
        Instr::F64Add => SpecInstr::F64Add,
        Instr::F64Sub => SpecInstr::F64Sub,
        Instr::F64Mul => SpecInstr::F64Mul,
        Instr::F64Div => SpecInstr::F64Div,
        Instr::F64Min => SpecInstr::F64Min,
        Instr::F64Max => SpecInstr::F64Max,
        Instr::F64Copysign => SpecInstr::F64Copysign,
        Instr::I32WrapI64 => SpecInstr::I32WrapI64,
        Instr::I32TruncF32S => SpecInstr::I32TruncF32S,
        Instr::I32TruncF32U => SpecInstr::I32TruncF32U,
        Instr::I32TruncF64S => SpecInstr::I32TruncF64S,
        Instr::I32TruncF64U => SpecInstr::I32TruncF64U,
        Instr::I64ExtendI32S => SpecInstr::I64ExtendI32S,
        Instr::I64ExtendI32U => SpecInstr::I64ExtendI32U,
        Instr::I64TruncF32S => SpecInstr::I64TruncF32S,
        Instr::I64TruncF32U => SpecInstr::I64TruncF32U,
        Instr::I64TruncF64S => SpecInstr::I64TruncF64S,
        Instr::I64TruncF64U => SpecInstr::I64TruncF64U,
        Instr::F32ConvertI32S => SpecInstr::F32ConvertI32S,
        Instr::F32ConvertI32U => SpecInstr::F32ConvertI32U,
        Instr::F32ConvertI64S => SpecInstr::F32ConvertI64S,
        Instr::F32ConvertI64U => SpecInstr::F32ConvertI64U,
        Instr::F32DemoteF64 => SpecInstr::F32DemoteF64,
        Instr::F64ConvertI32S => SpecInstr::F64ConvertI32S,
        Instr::F64ConvertI32U => SpecInstr::F64ConvertI32U,
        Instr::F64ConvertI64S => SpecInstr::F64ConvertI64S,
        Instr::F64ConvertI64U => SpecInstr::F64ConvertI64U,
        Instr::F64PromoteF32 => SpecInstr::F64PromoteF32,
        Instr::I32ReinterpretF32 => SpecInstr::I32ReinterpretF32,
        Instr::I64ReinterpretF64 => SpecInstr::I64ReinterpretF64,
        Instr::F32ReinterpretI32 => SpecInstr::F32ReinterpretI32,
        Instr::F64ReinterpretI64 => SpecInstr::F64ReinterpretI64,
        Instr::I32Extend8S => SpecInstr::I32Extend8S,
        Instr::I32Extend16S => SpecInstr::I32Extend16S,
        Instr::I64Extend8S => SpecInstr::I64Extend8S,
        Instr::I64Extend16S => SpecInstr::I64Extend16S,
        Instr::I64Extend32S => SpecInstr::I64Extend32S,
        Instr::I32TruncSatF32S => SpecInstr::I32TruncSatF32S,
        Instr::I32TruncSatF32U => SpecInstr::I32TruncSatF32U,
        Instr::I32TruncSatF64S => SpecInstr::I32TruncSatF64S,
        Instr::I32TruncSatF64U => SpecInstr::I32TruncSatF64U,
        Instr::I64TruncSatF32S => SpecInstr::I64TruncSatF32S,
        Instr::I64TruncSatF32U => SpecInstr::I64TruncSatF32U,
        Instr::I64TruncSatF64S => SpecInstr::I64TruncSatF64S,
        Instr::I64TruncSatF64U => SpecInstr::I64TruncSatF64U,
    }
}

/// Deep view of a sequence of instructions.
pub open spec fn instr_seq_view(s: Seq<Instr>) -> Seq<SpecInstr>
    decreases s,
{
    if s.len() == 0 {
        Seq::<SpecInstr>::empty()
    } else {
        seq![instr_view(s[0])] + instr_seq_view(s.drop_first())
    }
}

/// Deep view of a vector of instructions.
pub open spec fn instr_vec_view(v: Vec<Instr>) -> Seq<SpecInstr>
    decreases v,
{
    instr_seq_view(v@)
}

/// Deep view of an else-branch.
pub open spec fn else_view(v: Else) -> SpecElse
    decreases v,
{
    match v {
        Else::NoElse => SpecElse::NoElse,
        Else::Else(a0) => SpecElse::Else(instr_vec_view(a0.0)),
    }
}

impl DeepView for Instr {
    type V = SpecInstr;

    open spec fn deep_view(&self) -> SpecInstr {
        instr_view(*self)
    }
}

impl DeepView for Else {
    type V = SpecElse;

    open spec fn deep_view(&self) -> SpecElse {
        else_view(*self)
    }
}

impl DeepView for Expr {
    type V = Seq<SpecInstr>;

    open spec fn deep_view(&self) -> Seq<SpecInstr> {
        instr_vec_view(self.0.0)
    }
}

/// Canonical encoding of one instruction.
pub open spec fn instr_enc(v: SpecInstr) -> Seq<u8>
    decreases v,
{
    match v {
        SpecInstr::Unreachable => seq![0u8],
        SpecInstr::Nop => seq![1u8],
        SpecInstr::Block(a0, a1) => seq![2u8] + <i32 as Encode>::spec_enc(a0) + instr_seq_enc(a1) + seq![11u8],
        SpecInstr::Loop(a0, a1) => seq![3u8] + <i32 as Encode>::spec_enc(a0) + instr_seq_enc(a1) + seq![11u8],
        SpecInstr::If(a0, a1, a2) => seq![4u8] + <i32 as Encode>::spec_enc(a0) + instr_seq_enc(a1) + else_enc(a2),
        SpecInstr::Br(a0) => seq![12u8] + <LabelIdx as Encode>::spec_enc(a0),
        SpecInstr::BrIf(a0) => seq![13u8] + <LabelIdx as Encode>::spec_enc(a0),
        SpecInstr::BrTable(a0, a1) => seq![14u8] + <Vec<LabelIdx> as Encode>::spec_enc(a0) + <LabelIdx as Encode>::spec_enc(a1),
        SpecInstr::Return => seq![15u8],
        SpecInstr::Call(a0) => seq![16u8] + <FuncIdx as Encode>::spec_enc(a0),
        SpecInstr::CallIndirect(a0, a1) => seq![17u8] + <TypeIdx as Encode>::spec_enc(a0) + <TableIdx as Encode>::spec_enc(a1),
        SpecInstr::RefNull(a0) => seq![208u8] + <RefType as Encode>::spec_enc(a0),
        SpecInstr::RefIsNull => seq![209u8],
        SpecInstr::RefFunc(a0) => seq![210u8] + <FuncIdx as Encode>::spec_enc(a0),
        SpecInstr::Drop => seq![26u8],
        SpecInstr::Select => seq![27u8],
        SpecInstr::SelectTys(a0) => seq![28u8] + <Vec<ValType> as Encode>::spec_enc(a0),
        SpecInstr::LocalGet(a0) => seq![32u8] + <LocalIdx as Encode>::spec_enc(a0),
        SpecInstr::LocalSet(a0) => seq![33u8] + <LocalIdx as Encode>::spec_enc(a0),
        SpecInstr::LocalTee(a0) => seq![34u8] + <LocalIdx as Encode>::spec_enc(a0),
        SpecInstr::GlobalGet(a0) => seq![35u8] + <GlobalIdx as Encode>::spec_enc(a0),
        SpecInstr::GlobalSet(a0) => seq![36u8] + <GlobalIdx as Encode>::spec_enc(a0),
        SpecInstr::TableGet(a0) => seq![37u8] + <TableIdx as Encode>::spec_enc(a0),
        SpecInstr::TableSet(a0) => seq![38u8] + <TableIdx as Encode>::spec_enc(a0),
        SpecInstr::TableInit(a0, a1) => seq![252u8] + uleb(12 as nat) + <ElemIdx as Encode>::spec_enc(a0) + <TableIdx as Encode>::spec_enc(a1),
        SpecInstr::ElemDrop(a0) => seq![252u8] + uleb(13 as nat) + <ElemIdx as Encode>::spec_enc(a0),
        SpecInstr::TableCopy(a0, a1) => seq![252u8] + uleb(14 as nat) + <TableIdx as Encode>::spec_enc(a0) + <TableIdx as Encode>::spec_enc(a1),
        SpecInstr::TableGrow(a0) => seq![252u8] + uleb(15 as nat) + <TableIdx as Encode>::spec_enc(a0),
        SpecInstr::TableSize(a0) => seq![252u8] + uleb(16 as nat) + <TableIdx as Encode>::spec_enc(a0),
        SpecInstr::TableFill(a0) => seq![252u8] + uleb(17 as nat) + <TableIdx as Encode>::spec_enc(a0),
        SpecInstr::I32Load(a0) => seq![40u8] + <MemArg as Encode>::spec_enc(a0),
        SpecInstr::I64Load(a0) => seq![41u8] + <MemArg as Encode>::spec_enc(a0),
        SpecInstr::F32Load(a0) => seq![42u8] + <MemArg as Encode>::spec_enc(a0),
        SpecInstr::F64Load(a0) => seq![43u8] + <MemArg as Encode>::spec_enc(a0),
        SpecInstr::I32Load8S(a0) => seq![44u8] + <MemArg as Encode>::spec_enc(a0),
        SpecInstr::I32Load8U(a0) => seq![45u8] + <MemArg as Encode>::spec_enc(a0),
        SpecInstr::I32Load16S(a0) => seq![46u8] + <MemArg as Encode>::spec_enc(a0),
        SpecInstr::I32Load16U(a0) => seq![47u8] + <MemArg as Encode>::spec_enc(a0),
        SpecInstr::I64Load8S(a0) => seq![48u8] + <MemArg as Encode>::spec_enc(a0),
        SpecInstr::I64Load8U(a0) => seq![49u8] + <MemArg as Encode>::spec_enc(a0),
        SpecInstr::I64Load16S(a0) => seq![50u8] + <MemArg as Encode>::spec_enc(a0),
        SpecInstr::I64Load16U(a0) => seq![51u8] + <MemArg as Encode>::spec_enc(a0),
        SpecInstr::I64Load32S(a0) => seq![52u8] + <MemArg as Encode>::spec_enc(a0),
        SpecInstr::I64Load32U(a0) => seq![53u8] + <MemArg as Encode>::spec_enc(a0),
        SpecInstr::I32Store(a0) => seq![54u8] + <MemArg as Encode>::spec_enc(a0),
        SpecInstr::I64Store(a0) => seq![55u8] + <MemArg as Encode>::spec_enc(a0),
        SpecInstr::F32Store(a0) => seq![56u8] + <MemArg as Encode>::spec_enc(a0),
        SpecInstr::F64Store(a0) => seq![57u8] + <MemArg as Encode>::spec_enc(a0),
        SpecInstr::I32Store8(a0) => seq![58u8] + <MemArg as Encode>::spec_enc(a0),
        SpecInstr::I32Store16(a0) => seq![59u8] + <MemArg as Encode>::spec_enc(a0),
        SpecInstr::I64Store8(a0) => seq![60u8] + <MemArg as Encode>::spec_enc(a0),
        SpecInstr::I64Store16(a0) => seq![61u8] + <MemArg as Encode>::spec_enc(a0),
        SpecInstr::I64Store32(a0) => seq![62u8] + <MemArg as Encode>::spec_enc(a0),
        SpecInstr::MemorySize => seq![63u8] + seq![0u8],
        SpecInstr::MemoryGrow => seq![64u8] + seq![0u8],
        SpecInstr::MemoryInit(a0) => seq![252u8] + uleb(8 as nat) + <DataIdx as Encode>::spec_enc(a0) + seq![0u8],
        SpecInstr::DataDrop(a0) => seq![252u8] + uleb(9 as nat) + <DataIdx as Encode>::spec_enc(a0),
        SpecInstr::MemoryCopy => seq![252u8] + uleb(10 as nat) + seq![0u8] + seq![0u8],
        SpecInstr::MemoryFill => seq![252u8] + uleb(11 as nat) + seq![0u8],
        SpecInstr::I32Const(a0) => seq![65u8] + <i32 as Encode>::spec_enc(a0),
        SpecInstr::I64Const(a0) => seq![66u8] + <i64 as Encode>::spec_enc(a0),
        SpecInstr::F32Const(a0) => seq![67u8] + <F32Bits as Encode>::spec_enc(a0),
        SpecInstr::F64Const(a0) => seq![68u8] + <F64Bits as Encode>::spec_enc(a0),
        SpecInstr::I32Eqz => seq![69u8],
        SpecInstr::I32Eq => seq![70u8],
        SpecInstr::I32Ne => seq![71u8],
        SpecInstr::I32LtS => seq![72u8],
        SpecInstr::I32LtU => seq![73u8],
        SpecInstr::I32GtS => seq![74u8],
        SpecInstr::I32GtU => seq![75u8],
        SpecInstr::I32LeS => seq![76u8],
        SpecInstr::I32LeU => seq![77u8],
        SpecInstr::I32GeS => seq![78u8],
        SpecInstr::I32GeU => seq![79u8],
        SpecInstr::I64EqZ => seq![80u8],
        SpecInstr::I64Eq => seq![81u8],
        SpecInstr::I64Ne => seq![82u8],
        SpecInstr::I64LtS => seq![83u8],
        SpecInstr::I64LtU => seq![84u8],
        SpecInstr::I64GtS => seq![85u8],
        SpecInstr::I64GtU => seq![86u8],
        SpecInstr::I64LeS => seq![87u8],
        SpecInstr::I64LeU => seq![88u8],
        SpecInstr::I64GeS => seq![89u8],
        SpecInstr::I64GeU => seq![90u8],
        SpecInstr::F32Eq => seq![91u8],
        SpecInstr::F32Ne => seq![92u8],
        SpecInstr::F32Lt => seq![93u8],
        SpecInstr::F32Gt => seq![94u8],
        SpecInstr::F32Le => seq![95u8],
        SpecInstr::F32Ge => seq![96u8],
        SpecInstr::F64Eq => seq![97u8],
        SpecInstr::F64Ne => seq![98u8],
        SpecInstr::F64Lt => seq![99u8],
        SpecInstr::F64Gt => seq![100u8],
        SpecInstr::F64Le => seq![101u8],
        SpecInstr::F64Ge => seq![102u8],
        SpecInstr::I32Clz => seq![103u8],
        SpecInstr::I32Ctz => seq![104u8],
        SpecInstr::I32Popcnt => seq![105u8],
        SpecInstr::I32Add => seq![106u8],
        SpecInstr::I32Sub => seq![107u8],
        SpecInstr::I32Mul => seq![108u8],
        SpecInstr::I32DivS => seq![109u8],
        SpecInstr::I32DivU => seq![110u8],
        SpecInstr::I32RemS => seq![111u8],
        SpecInstr::I32RemU => seq![112u8],
        SpecInstr::I32And => seq![113u8],
        SpecInstr::I32Or => seq![114u8],
        SpecInstr::I32Xor => seq![115u8],
        SpecInstr::I32Shl => seq![116u8],
        SpecInstr::I32ShrS => seq![117u8],
        SpecInstr::I32ShrU => seq![118u8],
        SpecInstr::I32Rotl => seq![119u8],
        SpecInstr::I32Rotr => seq![120u8],
        SpecInstr::I64Clz => seq![121u8],
        SpecInstr::I64Ctz => seq![122u8],
        SpecInstr::I64Popcnt => seq![123u8],
        SpecInstr::I64Add => seq![124u8],
        SpecInstr::I64Sub => seq![125u8],
        SpecInstr::I64Mul => seq![126u8],
        SpecInstr::I64DivS => seq![127u8],
        SpecInstr::I64DivU => seq![128u8],
        SpecInstr::I64RemS => seq![129u8],
        SpecInstr::I64RemU => seq![130u8],
        SpecInstr::I64And => seq![131u8],
        SpecInstr::I64Or => seq![132u8],
        SpecInstr::I64Xor => seq![133u8],
        SpecInstr::I64Shl => seq![134u8],
        SpecInstr::I64ShrS => seq![135u8],
        SpecInstr::I64ShrU => seq![136u8],
        SpecInstr::I64Rotl => seq![137u8],
        SpecInstr::I64Rotr => seq![138u8],
        SpecInstr::F32Abs => seq![139u8],
        SpecInstr::F32Neg => seq![140u8],
        SpecInstr::F32Ceil => seq![141u8],
        SpecInstr::F32Floor => seq![142u8],
        SpecInstr::F32Trunc => seq![143u8],
        SpecInstr::F32Nearest => seq![144u8],
        SpecInstr::F32Sqrt => seq![145u8],
        SpecInstr::F32Add => seq![146u8],
        SpecInstr::F32Sub => seq![147u8],
        SpecInstr::F32Mul => seq![148u8],
        SpecInstr::F32Div => seq![149u8],
        SpecInstr::F32Min => seq![150u8],
        SpecInstr::F32Max => seq![151u8],
        SpecInstr::F32Copysign => seq![152u8],
        SpecInstr::F64Abs => seq![153u8],
        SpecInstr::F64Neg => seq![154u8],
        SpecInstr::F64Ceil => seq![155u8],
        SpecInstr::F64Floor => seq![156u8],
        SpecInstr::F64Trunc => seq![157u8],
        SpecInstr::F64Nearest => seq![158u8],
        SpecInstr::F64Sqrt => seq![159u8],
        SpecInstr::F64Add => seq![160u8],
        SpecInstr::F64Sub => seq![161u8],
        SpecInstr::F64Mul => seq![162u8],
        SpecInstr::F64Div => seq![163u8],
        SpecInstr::F64Min => seq![164u8],
        SpecInstr::F64Max => seq![165u8],
        SpecInstr::F64Copysign => seq![166u8],
        SpecInstr::I32WrapI64 => seq![167u8],
        SpecInstr::I32TruncF32S => seq![168u8],
        SpecInstr::I32TruncF32U => seq![169u8],
        SpecInstr::I32TruncF64S => seq![170u8],
        SpecInstr::I32TruncF64U => seq![171u8],
        SpecInstr::I64ExtendI32S => seq![172u8],
        SpecInstr::I64ExtendI32U => seq![173u8],
        SpecInstr::I64TruncF32S => seq![174u8],
        SpecInstr::I64TruncF32U => seq![175u8],
        SpecInstr::I64TruncF64S => seq![176u8],
        SpecInstr::I64TruncF64U => seq![177u8],
        SpecInstr::F32ConvertI32S => seq![178u8],
        SpecInstr::F32ConvertI32U => seq![179u8],
        SpecInstr::F32ConvertI64S => seq![180u8],
        SpecInstr::F32ConvertI64U => seq![181u8],
        SpecInstr::F32DemoteF64 => seq![182u8],
        SpecInstr::F64ConvertI32S => seq![183u8],
        SpecInstr::F64ConvertI32U => seq![184u8],
        SpecInstr::F64ConvertI64S => seq![185u8],
        SpecInstr::F64ConvertI64U => seq![186u8],
        SpecInstr::F64PromoteF32 => seq![187u8],
        SpecInstr::I32ReinterpretF32 => seq![188u8],
        SpecInstr::I64ReinterpretF64 => seq![189u8],
        SpecInstr::F32ReinterpretI32 => seq![190u8],
        SpecInstr::F64ReinterpretI64 => seq![191u8],
        SpecInstr::I32Extend8S => seq![192u8],
        SpecInstr::I32Extend16S => seq![193u8],
        SpecInstr::I64Extend8S => seq![194u8],
        SpecInstr::I64Extend16S => seq![195u8],
        SpecInstr::I64Extend32S => seq![196u8],
        SpecInstr::I32TruncSatF32S => seq![252u8] + uleb(0 as nat),
        SpecInstr::I32TruncSatF32U => seq![252u8] + uleb(1 as nat),
        SpecInstr::I32TruncSatF64S => seq![252u8] + uleb(2 as nat),
        SpecInstr::I32TruncSatF64U => seq![252u8] + uleb(3 as nat),
        SpecInstr::I64TruncSatF32S => seq![252u8] + uleb(4 as nat),
        SpecInstr::I64TruncSatF32U => seq![252u8] + uleb(5 as nat),
        SpecInstr::I64TruncSatF64S => seq![252u8] + uleb(6 as nat),
        SpecInstr::I64TruncSatF64U => seq![252u8] + uleb(7 as nat),
    }
}

/// Concatenated encodings of an instruction sequence.
pub open spec fn instr_seq_enc(s: Seq<SpecInstr>) -> Seq<u8>
    decreases s,
{
    if s.len() == 0 {
        Seq::<u8>::empty()
    } else {
        instr_enc(s[0]) + instr_seq_enc(s.drop_first())
    }
}

/// Canonical encoding of an else-branch.
pub open spec fn else_enc(v: SpecElse) -> Seq<u8>
    decreases v,
{
    match v {
        SpecElse::NoElse => seq![11u8],
        SpecElse::Else(a0) => seq![5u8] + instr_seq_enc(a0) + seq![11u8],
    }
}

/// Well-formedness of one instruction: nested vector lengths fit 32 bits.
pub open spec fn instr_wf(v: SpecInstr) -> bool
    decreases v,
{
    match v {
        SpecInstr::Unreachable => true,
        SpecInstr::Nop => true,
        SpecInstr::Block(a0, a1) => <i32 as Encode>::spec_wf(a0) && instr_seq_wf(a1),
        SpecInstr::Loop(a0, a1) => <i32 as Encode>::spec_wf(a0) && instr_seq_wf(a1),
        SpecInstr::If(a0, a1, a2) => <i32 as Encode>::spec_wf(a0) && instr_seq_wf(a1) && else_wf(a2),
        SpecInstr::Br(a0) => <LabelIdx as Encode>::spec_wf(a0),
        SpecInstr::BrIf(a0) => <LabelIdx as Encode>::spec_wf(a0),
        SpecInstr::BrTable(a0, a1) => <Vec<LabelIdx> as Encode>::spec_wf(a0) && <LabelIdx as Encode>::spec_wf(a1),
        SpecInstr::Return => true,
        SpecInstr::Call(a0) => <FuncIdx as Encode>::spec_wf(a0),
        SpecInstr::CallIndirect(a0, a1) => <TypeIdx as Encode>::spec_wf(a0) && <TableIdx as Encode>::spec_wf(a1),
        SpecInstr::RefNull(a0) => <RefType as Encode>::spec_wf(a0),
        SpecInstr::RefIsNull => true,
        SpecInstr::RefFunc(a0) => <FuncIdx as Encode>::spec_wf(a0),
        SpecInstr::Drop => true,
        SpecInstr::Select => true,
        SpecInstr::SelectTys(a0) => <Vec<ValType> as Encode>::spec_wf(a0),
        SpecInstr::LocalGet(a0) => <LocalIdx as Encode>::spec_wf(a0),
        SpecInstr::LocalSet(a0) => <LocalIdx as Encode>::spec_wf(a0),
        SpecInstr::LocalTee(a0) => <LocalIdx as Encode>::spec_wf(a0),
        SpecInstr::GlobalGet(a0) => <GlobalIdx as Encode>::spec_wf(a0),
        SpecInstr::GlobalSet(a0) => <GlobalIdx as Encode>::spec_wf(a0),
        SpecInstr::TableGet(a0) => <TableIdx as Encode>::spec_wf(a0),
        SpecInstr::TableSet(a0) => <TableIdx as Encode>::spec_wf(a0),
        SpecInstr::TableInit(a0, a1) => <ElemIdx as Encode>::spec_wf(a0) && <TableIdx as Encode>::spec_wf(a1),
        SpecInstr::ElemDrop(a0) => <ElemIdx as Encode>::spec_wf(a0),
        SpecInstr::TableCopy(a0, a1) => <TableIdx as Encode>::spec_wf(a0) && <TableIdx as Encode>::spec_wf(a1),
        SpecInstr::TableGrow(a0) => <TableIdx as Encode>::spec_wf(a0),
        SpecInstr::TableSize(a0) => <TableIdx as Encode>::spec_wf(a0),
        SpecInstr::TableFill(a0) => <TableIdx as Encode>::spec_wf(a0),
        SpecInstr::I32Load(a0) => <MemArg as Encode>::spec_wf(a0),
        SpecInstr::I64Load(a0) => <MemArg as Encode>::spec_wf(a0),
        SpecInstr::F32Load(a0) => <MemArg as Encode>::spec_wf(a0),
        SpecInstr::F64Load(a0) => <MemArg as Encode>::spec_wf(a0),
        SpecInstr::I32Load8S(a0) => <MemArg as Encode>::spec_wf(a0),
        SpecInstr::I32Load8U(a0) => <MemArg as Encode>::spec_wf(a0),
        SpecInstr::I32Load16S(a0) => <MemArg as Encode>::spec_wf(a0),
        SpecInstr::I32Load16U(a0) => <MemArg as Encode>::spec_wf(a0),
        SpecInstr::I64Load8S(a0) => <MemArg as Encode>::spec_wf(a0),
        SpecInstr::I64Load8U(a0) => <MemArg as Encode>::spec_wf(a0),
        SpecInstr::I64Load16S(a0) => <MemArg as Encode>::spec_wf(a0),
        SpecInstr::I64Load16U(a0) => <MemArg as Encode>::spec_wf(a0),
        SpecInstr::I64Load32S(a0) => <MemArg as Encode>::spec_wf(a0),
        SpecInstr::I64Load32U(a0) => <MemArg as Encode>::spec_wf(a0),
        SpecInstr::I32Store(a0) => <MemArg as Encode>::spec_wf(a0),
        SpecInstr::I64Store(a0) => <MemArg as Encode>::spec_wf(a0),
        SpecInstr::F32Store(a0) => <MemArg as Encode>::spec_wf(a0),
        SpecInstr::F64Store(a0) => <MemArg as Encode>::spec_wf(a0),
        SpecInstr::I32Store8(a0) => <MemArg as Encode>::spec_wf(a0),
        SpecInstr::I32Store16(a0) => <MemArg as Encode>::spec_wf(a0),
        SpecInstr::I64Store8(a0) => <MemArg as Encode>::spec_wf(a0),
        SpecInstr::I64Store16(a0) => <MemArg as Encode>::spec_wf(a0),
        SpecInstr::I64Store32(a0) => <MemArg as Encode>::spec_wf(a0),
        SpecInstr::MemorySize => true,
        SpecInstr::MemoryGrow => true,
        SpecInstr::MemoryInit(a0) => <DataIdx as Encode>::spec_wf(a0),
        SpecInstr::DataDrop(a0) => <DataIdx as Encode>::spec_wf(a0),
        SpecInstr::MemoryCopy => true,
        SpecInstr::MemoryFill => true,
        SpecInstr::I32Const(a0) => <i32 as Encode>::spec_wf(a0),
        SpecInstr::I64Const(a0) => <i64 as Encode>::spec_wf(a0),
        SpecInstr::F32Const(a0) => <F32Bits as Encode>::spec_wf(a0),
        SpecInstr::F64Const(a0) => <F64Bits as Encode>::spec_wf(a0),
        SpecInstr::I32Eqz => true,
        SpecInstr::I32Eq => true,
        SpecInstr::I32Ne => true,
        SpecInstr::I32LtS => true,
        SpecInstr::I32LtU => true,
        SpecInstr::I32GtS => true,
        SpecInstr::I32GtU => true,
        SpecInstr::I32LeS => true,
        SpecInstr::I32LeU => true,
        SpecInstr::I32GeS => true,
        SpecInstr::I32GeU => true,
        SpecInstr::I64EqZ => true,
        SpecInstr::I64Eq => true,
        SpecInstr::I64Ne => true,
        SpecInstr::I64LtS => true,
        SpecInstr::I64LtU => true,
        SpecInstr::I64GtS => true,
        SpecInstr::I64GtU => true,
        SpecInstr::I64LeS => true,
        SpecInstr::I64LeU => true,
        SpecInstr::I64GeS => true,
        SpecInstr::I64GeU => true,
        SpecInstr::F32Eq => true,
        SpecInstr::F32Ne => true,
        SpecInstr::F32Lt => true,
        SpecInstr::F32Gt => true,
        SpecInstr::F32Le => true,
        SpecInstr::F32Ge => true,
        SpecInstr::F64Eq => true,
        SpecInstr::F64Ne => true,
        SpecInstr::F64Lt => true,
        SpecInstr::F64Gt => true,
        SpecInstr::F64Le => true,
        SpecInstr::F64Ge => true,
        SpecInstr::I32Clz => true,
        SpecInstr::I32Ctz => true,
        SpecInstr::I32Popcnt => true,
        SpecInstr::I32Add => true,
        SpecInstr::I32Sub => true,
        SpecInstr::I32Mul => true,
        SpecInstr::I32DivS => true,
        SpecInstr::I32DivU => true,
        SpecInstr::I32RemS => true,
        SpecInstr::I32RemU => true,
        SpecInstr::I32And => true,
        SpecInstr::I32Or => true,
        SpecInstr::I32Xor => true,
        SpecInstr::I32Shl => true,
        SpecInstr::I32ShrS => true,
        SpecInstr::I32ShrU => true,
        SpecInstr::I32Rotl => true,
        SpecInstr::I32Rotr => true,
        SpecInstr::I64Clz => true,
        SpecInstr::I64Ctz => true,
        SpecInstr::I64Popcnt => true,
        SpecInstr::I64Add => true,
        SpecInstr::I64Sub => true,
        SpecInstr::I64Mul => true,
        SpecInstr::I64DivS => true,
        SpecInstr::I64DivU => true,
        SpecInstr::I64RemS => true,
        SpecInstr::I64RemU => true,
        SpecInstr::I64And => true,
        SpecInstr::I64Or => true,
        SpecInstr::I64Xor => true,
        SpecInstr::I64Shl => true,
        SpecInstr::I64ShrS => true,
        SpecInstr::I64ShrU => true,
        SpecInstr::I64Rotl => true,
        SpecInstr::I64Rotr => true,
        SpecInstr::F32Abs => true,
        SpecInstr::F32Neg => true,
        SpecInstr::F32Ceil => true,
        SpecInstr::F32Floor => true,
        SpecInstr::F32Trunc => true,
        SpecInstr::F32Nearest => true,
        SpecInstr::F32Sqrt => true,
        SpecInstr::F32Add => true,
        SpecInstr::F32Sub => true,
        SpecInstr::F32Mul => true,
        SpecInstr::F32Div => true,
        SpecInstr::F32Min => true,
        SpecInstr::F32Max => true,
        SpecInstr::F32Copysign => true,
        SpecInstr::F64Abs => true,
        SpecInstr::F64Neg => true,
        SpecInstr::F64Ceil => true,
        SpecInstr::F64Floor => true,
        SpecInstr::F64Trunc => true,
        SpecInstr::F64Nearest => true,
        SpecInstr::F64Sqrt => true,
        SpecInstr::F64Add => true,
        SpecInstr::F64Sub => true,
        SpecInstr::F64Mul => true,
        SpecInstr::F64Div => true,
        SpecInstr::F64Min => true,
        SpecInstr::F64Max => true,
        SpecInstr::F64Copysign => true,
        SpecInstr::I32WrapI64 => true,
        SpecInstr::I32TruncF32S => true,
        SpecInstr::I32TruncF32U => true,
        SpecInstr::I32TruncF64S => true,
        SpecInstr::I32TruncF64U => true,
        SpecInstr::I64ExtendI32S => true,
        SpecInstr::I64ExtendI32U => true,
        SpecInstr::I64TruncF32S => true,
        SpecInstr::I64TruncF32U => true,
        SpecInstr::I64TruncF64S => true,
        SpecInstr::I64TruncF64U => true,
        SpecInstr::F32ConvertI32S => true,
        SpecInstr::F32ConvertI32U => true,
        SpecInstr::F32ConvertI64S => true,
        SpecInstr::F32ConvertI64U => true,
        SpecInstr::F32DemoteF64 => true,
        SpecInstr::F64ConvertI32S => true,
        SpecInstr::F64ConvertI32U => true,
        SpecInstr::F64ConvertI64S => true,
        SpecInstr::F64ConvertI64U => true,
        SpecInstr::F64PromoteF32 => true,
        SpecInstr::I32ReinterpretF32 => true,
        SpecInstr::I64ReinterpretF64 => true,
        SpecInstr::F32ReinterpretI32 => true,
        SpecInstr::F64ReinterpretI64 => true,
        SpecInstr::I32Extend8S => true,
        SpecInstr::I32Extend16S => true,
        SpecInstr::I64Extend8S => true,
        SpecInstr::I64Extend16S => true,
        SpecInstr::I64Extend32S => true,
        SpecInstr::I32TruncSatF32S => true,
        SpecInstr::I32TruncSatF32U => true,
        SpecInstr::I32TruncSatF64S => true,
        SpecInstr::I32TruncSatF64U => true,
        SpecInstr::I64TruncSatF32S => true,
        SpecInstr::I64TruncSatF32U => true,
        SpecInstr::I64TruncSatF64S => true,
        SpecInstr::I64TruncSatF64U => true,
    }
}

/// Well-formedness of an instruction sequence.
pub open spec fn instr_seq_wf(s: Seq<SpecInstr>) -> bool
    decreases s,
{
    if s.len() == 0 {
        true
    } else {
        instr_wf(s[0]) && instr_seq_wf(s.drop_first())
    }
}

/// Well-formedness of an else-branch.
pub open spec fn else_wf(v: SpecElse) -> bool
    decreases v,
{
    match v {
        SpecElse::NoElse => true,
        SpecElse::Else(a0) => instr_seq_wf(a0),
    }
}

/// Opcode byte of an instruction: the first byte of its encoding.
pub open spec fn instr_op(v: SpecInstr) -> u8 {
    match v {
        SpecInstr::Unreachable => 0u8,
        SpecInstr::Nop => 1u8,
        SpecInstr::Block(_, _) => 2u8,
        SpecInstr::Loop(_, _) => 3u8,
        SpecInstr::If(_, _, _) => 4u8,
        SpecInstr::Br(_) => 12u8,
        SpecInstr::BrIf(_) => 13u8,
        SpecInstr::BrTable(_, _) => 14u8,
        SpecInstr::Return => 15u8,
        SpecInstr::Call(_) => 16u8,
        SpecInstr::CallIndirect(_, _) => 17u8,
        SpecInstr::RefNull(_) => 208u8,
        SpecInstr::RefIsNull => 209u8,
        SpecInstr::RefFunc(_) => 210u8,
        SpecInstr::Drop => 26u8,
        SpecInstr::Select => 27u8,
        SpecInstr::SelectTys(_) => 28u8,
        SpecInstr::LocalGet(_) => 32u8,
        SpecInstr::LocalSet(_) => 33u8,
        SpecInstr::LocalTee(_) => 34u8,
        SpecInstr::GlobalGet(_) => 35u8,
        SpecInstr::GlobalSet(_) => 36u8,
        SpecInstr::TableGet(_) => 37u8,
        SpecInstr::TableSet(_) => 38u8,
        SpecInstr::TableInit(_, _) => 252u8,
        SpecInstr::ElemDrop(_) => 252u8,
        SpecInstr::TableCopy(_, _) => 252u8,
        SpecInstr::TableGrow(_) => 252u8,
        SpecInstr::TableSize(_) => 252u8,
        SpecInstr::TableFill(_) => 252u8,
        SpecInstr::I32Load(_) => 40u8,
        SpecInstr::I64Load(_) => 41u8,
        SpecInstr::F32Load(_) => 42u8,
        SpecInstr::F64Load(_) => 43u8,
        SpecInstr::I32Load8S(_) => 44u8,
        SpecInstr::I32Load8U(_) => 45u8,
        SpecInstr::I32Load16S(_) => 46u8,
        SpecInstr::I32Load16U(_) => 47u8,
        SpecInstr::I64Load8S(_) => 48u8,
        SpecInstr::I64Load8U(_) => 49u8,
        SpecInstr::I64Load16S(_) => 50u8,
        SpecInstr::I64Load16U(_) => 51u8,
        SpecInstr::I64Load32S(_) => 52u8,
        SpecInstr::I64Load32U(_) => 53u8,
        SpecInstr::I32Store(_) => 54u8,
        SpecInstr::I64Store(_) => 55u8,
        SpecInstr::F32Store(_) => 56u8,
        SpecInstr::F64Store(_) => 57u8,
        SpecInstr::I32Store8(_) => 58u8,
        SpecInstr::I32Store16(_) => 59u8,
        SpecInstr::I64Store8(_) => 60u8,
        SpecInstr::I64Store16(_) => 61u8,
        SpecInstr::I64Store32(_) => 62u8,
        SpecInstr::MemorySize => 63u8,
        SpecInstr::MemoryGrow => 64u8,
        SpecInstr::MemoryInit(_) => 252u8,
        SpecInstr::DataDrop(_) => 252u8,
        SpecInstr::MemoryCopy => 252u8,
        SpecInstr::MemoryFill => 252u8,
        SpecInstr::I32Const(_) => 65u8,
        SpecInstr::I64Const(_) => 66u8,
        SpecInstr::F32Const(_) => 67u8,
        SpecInstr::F64Const(_) => 68u8,
        SpecInstr::I32Eqz => 69u8,
        SpecInstr::I32Eq => 70u8,
        SpecInstr::I32Ne => 71u8,
        SpecInstr::I32LtS => 72u8,
        SpecInstr::I32LtU => 73u8,
        SpecInstr::I32GtS => 74u8,
        SpecInstr::I32GtU => 75u8,
        SpecInstr::I32LeS => 76u8,
        SpecInstr::I32LeU => 77u8,
        SpecInstr::I32GeS => 78u8,
        SpecInstr::I32GeU => 79u8,
        SpecInstr::I64EqZ => 80u8,
        SpecInstr::I64Eq => 81u8,
        SpecInstr::I64Ne => 82u8,
        SpecInstr::I64LtS => 83u8,
        SpecInstr::I64LtU => 84u8,
        SpecInstr::I64GtS => 85u8,
        SpecInstr::I64GtU => 86u8,
        SpecInstr::I64LeS => 87u8,
        SpecInstr::I64LeU => 88u8,
        SpecInstr::I64GeS => 89u8,
        SpecInstr::I64GeU => 90u8,
        SpecInstr::F32Eq => 91u8,
        SpecInstr::F32Ne => 92u8,
        SpecInstr::F32Lt => 93u8,
        SpecInstr::F32Gt => 94u8,
        SpecInstr::F32Le => 95u8,
        SpecInstr::F32Ge => 96u8,
        SpecInstr::F64Eq => 97u8,
        SpecInstr::F64Ne => 98u8,
        SpecInstr::F64Lt => 99u8,
        SpecInstr::F64Gt => 100u8,
        SpecInstr::F64Le => 101u8,
        SpecInstr::F64Ge => 102u8,
        SpecInstr::I32Clz => 103u8,
        SpecInstr::I32Ctz => 104u8,
        SpecInstr::I32Popcnt => 105u8,
        SpecInstr::I32Add => 106u8,
        SpecInstr::I32Sub => 107u8,
        SpecInstr::I32Mul => 108u8,
        SpecInstr::I32DivS => 109u8,
        SpecInstr::I32DivU => 110u8,
        SpecInstr::I32RemS => 111u8,
        SpecInstr::I32RemU => 112u8,
        SpecInstr::I32And => 113u8,
        SpecInstr::I32Or => 114u8,
        SpecInstr::I32Xor => 115u8,
        SpecInstr::I32Shl => 116u8,
        SpecInstr::I32ShrS => 117u8,
        SpecInstr::I32ShrU => 118u8,
        SpecInstr::I32Rotl => 119u8,
        SpecInstr::I32Rotr => 120u8,
        SpecInstr::I64Clz => 121u8,
        SpecInstr::I64Ctz => 122u8,
        SpecInstr::I64Popcnt => 123u8,
        SpecInstr::I64Add => 124u8,
        SpecInstr::I64Sub => 125u8,
        SpecInstr::I64Mul => 126u8,
        SpecInstr::I64DivS => 127u8,
        SpecInstr::I64DivU => 128u8,
        SpecInstr::I64RemS => 129u8,
        SpecInstr::I64RemU => 130u8,
        SpecInstr::I64And => 131u8,
        SpecInstr::I64Or => 132u8,
        SpecInstr::I64Xor => 133u8,
        SpecInstr::I64Shl => 134u8,
        SpecInstr::I64ShrS => 135u8,
        SpecInstr::I64ShrU => 136u8,
        SpecInstr::I64Rotl => 137u8,
        SpecInstr::I64Rotr => 138u8,
        SpecInstr::F32Abs => 139u8,
        SpecInstr::F32Neg => 140u8,
        SpecInstr::F32Ceil => 141u8,
        SpecInstr::F32Floor => 142u8,
        SpecInstr::F32Trunc => 143u8,
        SpecInstr::F32Nearest => 144u8,
        SpecInstr::F32Sqrt => 145u8,
        SpecInstr::F32Add => 146u8,
        SpecInstr::F32Sub => 147u8,
        SpecInstr::F32Mul => 148u8,
        SpecInstr::F32Div => 149u8,
        SpecInstr::F32Min => 150u8,
        SpecInstr::F32Max => 151u8,
        SpecInstr::F32Copysign => 152u8,
        SpecInstr::F64Abs => 153u8,
        SpecInstr::F64Neg => 154u8,
        SpecInstr::F64Ceil => 155u8,
        SpecInstr::F64Floor => 156u8,
        SpecInstr::F64Trunc => 157u8,
        SpecInstr::F64Nearest => 158u8,
        SpecInstr::F64Sqrt => 159u8,
        SpecInstr::F64Add => 160u8,
        SpecInstr::F64Sub => 161u8,
        SpecInstr::F64Mul => 162u8,
        SpecInstr::F64Div => 163u8,
        SpecInstr::F64Min => 164u8,
        SpecInstr::F64Max => 165u8,
        SpecInstr::F64Copysign => 166u8,
        SpecInstr::I32WrapI64 => 167u8,
        SpecInstr::I32TruncF32S => 168u8,
        SpecInstr::I32TruncF32U => 169u8,
        SpecInstr::I32TruncF64S => 170u8,
        SpecInstr::I32TruncF64U => 171u8,
        SpecInstr::I64ExtendI32S => 172u8,
        SpecInstr::I64ExtendI32U => 173u8,
        SpecInstr::I64TruncF32S => 174u8,
        SpecInstr::I64TruncF32U => 175u8,
        SpecInstr::I64TruncF64S => 176u8,
        SpecInstr::I64TruncF64U => 177u8,
        SpecInstr::F32ConvertI32S => 178u8,
        SpecInstr::F32ConvertI32U => 179u8,
        SpecInstr::F32ConvertI64S => 180u8,
        SpecInstr::F32ConvertI64U => 181u8,
        SpecInstr::F32DemoteF64 => 182u8,
        SpecInstr::F64ConvertI32S => 183u8,
        SpecInstr::F64ConvertI32U => 184u8,
        SpecInstr::F64ConvertI64S => 185u8,
        SpecInstr::F64ConvertI64U => 186u8,
        SpecInstr::F64PromoteF32 => 187u8,
        SpecInstr::I32ReinterpretF32 => 188u8,
        SpecInstr::I64ReinterpretF64 => 189u8,
        SpecInstr::F32ReinterpretI32 => 190u8,
        SpecInstr::F64ReinterpretI64 => 191u8,
        SpecInstr::I32Extend8S => 192u8,
        SpecInstr::I32Extend16S => 193u8,
        SpecInstr::I64Extend8S => 194u8,
        SpecInstr::I64Extend16S => 195u8,
        SpecInstr::I64Extend32S => 196u8,
        SpecInstr::I32TruncSatF32S => 252u8,
        SpecInstr::I32TruncSatF32U => 252u8,
        SpecInstr::I32TruncSatF64S => 252u8,
        SpecInstr::I32TruncSatF64U => 252u8,
        SpecInstr::I64TruncSatF32S => 252u8,
        SpecInstr::I64TruncSatF32U => 252u8,
        SpecInstr::I64TruncSatF64S => 252u8,
        SpecInstr::I64TruncSatF64U => 252u8,
    }
}

/// Sub-opcode of the `0xFC`-prefixed family (0 elsewhere).
pub open spec fn instr_fc_sub(v: SpecInstr) -> u8 {
    match v {
        SpecInstr::TableInit(_, _) => 12u8,
        SpecInstr::ElemDrop(_) => 13u8,
        SpecInstr::TableCopy(_, _) => 14u8,
        SpecInstr::TableGrow(_) => 15u8,
        SpecInstr::TableSize(_) => 16u8,
        SpecInstr::TableFill(_) => 17u8,
        SpecInstr::MemoryInit(_) => 8u8,
        SpecInstr::DataDrop(_) => 9u8,
        SpecInstr::MemoryCopy => 10u8,
        SpecInstr::MemoryFill => 11u8,
        SpecInstr::I32TruncSatF32S => 0u8,
        SpecInstr::I32TruncSatF32U => 1u8,
        SpecInstr::I32TruncSatF64S => 2u8,
        SpecInstr::I32TruncSatF64U => 3u8,
        SpecInstr::I64TruncSatF32S => 4u8,
        SpecInstr::I64TruncSatF32U => 5u8,
        SpecInstr::I64TruncSatF64S => 6u8,
        SpecInstr::I64TruncSatF64U => 7u8,
        _ => 0u8,
    }
}

/// Every instruction encoding begins with its opcode, and the `0xFC`
/// family continues with its sub-opcode byte.
pub proof fn lemma_instr_head(v: SpecInstr)
    ensures
        instr_enc(v).len() >= 1,
        instr_enc(v)[0] == instr_op(v),
        instr_op(v) == 0xFC ==> instr_enc(v).len() >= 2 && instr_enc(v)[1] == instr_fc_sub(v),
{
    match v {
        SpecInstr::Unreachable => {
            assert(instr_enc(v) == seq![0u8]);
        },
        SpecInstr::Nop => {
            assert(instr_enc(v) == seq![1u8]);
        },
        SpecInstr::Block(a0, a1) => {
            assert(instr_enc(v) =~= seq![2u8] + (<i32 as Encode>::spec_enc(a0) + instr_seq_enc(a1) + seq![11u8]));
            assert((seq![2u8] + (<i32 as Encode>::spec_enc(a0) + instr_seq_enc(a1) + seq![11u8]))[0] == 2u8);
        },
        SpecInstr::Loop(a0, a1) => {
            assert(instr_enc(v) =~= seq![3u8] + (<i32 as Encode>::spec_enc(a0) + instr_seq_enc(a1) + seq![11u8]));
            assert((seq![3u8] + (<i32 as Encode>::spec_enc(a0) + instr_seq_enc(a1) + seq![11u8]))[0] == 3u8);
        },
        SpecInstr::If(a0, a1, a2) => {
            assert(instr_enc(v) =~= seq![4u8] + (<i32 as Encode>::spec_enc(a0) + instr_seq_enc(a1) + else_enc(a2)));
            assert((seq![4u8] + (<i32 as Encode>::spec_enc(a0) + instr_seq_enc(a1) + else_enc(a2)))[0] == 4u8);
        },
        SpecInstr::Br(a0) => {
            assert(instr_enc(v) =~= seq![12u8] + (<LabelIdx as Encode>::spec_enc(a0)));
            assert((seq![12u8] + (<LabelIdx as Encode>::spec_enc(a0)))[0] == 12u8);
        },
        SpecInstr::BrIf(a0) => {
            assert(instr_enc(v) =~= seq![13u8] + (<LabelIdx as Encode>::spec_enc(a0)));
            assert((seq![13u8] + (<LabelIdx as Encode>::spec_enc(a0)))[0] == 13u8);
        },
        SpecInstr::BrTable(a0, a1) => {
            assert(instr_enc(v) =~= seq![14u8] + (<Vec<LabelIdx> as Encode>::spec_enc(a0) + <LabelIdx as Encode>::spec_enc(a1)));
            assert((seq![14u8] + (<Vec<LabelIdx> as Encode>::spec_enc(a0) + <LabelIdx as Encode>::spec_enc(a1)))[0] == 14u8);
        },
        SpecInstr::Return => {
            assert(instr_enc(v) == seq![15u8]);
        },
        SpecInstr::Call(a0) => {
            assert(instr_enc(v) =~= seq![16u8] + (<FuncIdx as Encode>::spec_enc(a0)));
            assert((seq![16u8] + (<FuncIdx as Encode>::spec_enc(a0)))[0] == 16u8);
        },
        SpecInstr::CallIndirect(a0, a1) => {
            assert(instr_enc(v) =~= seq![17u8] + (<TypeIdx as Encode>::spec_enc(a0) + <TableIdx as Encode>::spec_enc(a1)));
            assert((seq![17u8] + (<TypeIdx as Encode>::spec_enc(a0) + <TableIdx as Encode>::spec_enc(a1)))[0] == 17u8);
        },
        SpecInstr::RefNull(a0) => {
            assert(instr_enc(v) =~= seq![208u8] + (<RefType as Encode>::spec_enc(a0)));
            assert((seq![208u8] + (<RefType as Encode>::spec_enc(a0)))[0] == 208u8);
        },
        SpecInstr::RefIsNull => {
            assert(instr_enc(v) == seq![209u8]);
        },
        SpecInstr::RefFunc(a0) => {
            assert(instr_enc(v) =~= seq![210u8] + (<FuncIdx as Encode>::spec_enc(a0)));
            assert((seq![210u8] + (<FuncIdx as Encode>::spec_enc(a0)))[0] == 210u8);
        },
        SpecInstr::Drop => {
            assert(instr_enc(v) == seq![26u8]);
        },
        SpecInstr::Select => {
            assert(instr_enc(v) == seq![27u8]);
        },
        SpecInstr::SelectTys(a0) => {
            assert(instr_enc(v) =~= seq![28u8] + (<Vec<ValType> as Encode>::spec_enc(a0)));
            assert((seq![28u8] + (<Vec<ValType> as Encode>::spec_enc(a0)))[0] == 28u8);
        },
        SpecInstr::LocalGet(a0) => {
            assert(instr_enc(v) =~= seq![32u8] + (<LocalIdx as Encode>::spec_enc(a0)));
            assert((seq![32u8] + (<LocalIdx as Encode>::spec_enc(a0)))[0] == 32u8);
        },
        SpecInstr::LocalSet(a0) => {
            assert(instr_enc(v) =~= seq![33u8] + (<LocalIdx as Encode>::spec_enc(a0)));
            assert((seq![33u8] + (<LocalIdx as Encode>::spec_enc(a0)))[0] == 33u8);
        },
        SpecInstr::LocalTee(a0) => {
            assert(instr_enc(v) =~= seq![34u8] + (<LocalIdx as Encode>::spec_enc(a0)));
            assert((seq![34u8] + (<LocalIdx as Encode>::spec_enc(a0)))[0] == 34u8);
        },
        SpecInstr::GlobalGet(a0) => {
            assert(instr_enc(v) =~= seq![35u8] + (<GlobalIdx as Encode>::spec_enc(a0)));
            assert((seq![35u8] + (<GlobalIdx as Encode>::spec_enc(a0)))[0] == 35u8);
        },
        SpecInstr::GlobalSet(a0) => {
            assert(instr_enc(v) =~= seq![36u8] + (<GlobalIdx as Encode>::spec_enc(a0)));
            assert((seq![36u8] + (<GlobalIdx as Encode>::spec_enc(a0)))[0] == 36u8);
        },
        SpecInstr::TableGet(a0) => {
            assert(instr_enc(v) =~= seq![37u8] + (<TableIdx as Encode>::spec_enc(a0)));
            assert((seq![37u8] + (<TableIdx as Encode>::spec_enc(a0)))[0] == 37u8);
        },
        SpecInstr::TableSet(a0) => {
            assert(instr_enc(v) =~= seq![38u8] + (<TableIdx as Encode>::spec_enc(a0)));
            assert((seq![38u8] + (<TableIdx as Encode>::spec_enc(a0)))[0] == 38u8);
        },
        SpecInstr::TableInit(a0, a1) => {
            assert(instr_enc(v) =~= seq![252u8] + (uleb(12 as nat) + <ElemIdx as Encode>::spec_enc(a0) + <TableIdx as Encode>::spec_enc(a1)));
            assert((seq![252u8] + (uleb(12 as nat) + <ElemIdx as Encode>::spec_enc(a0) + <TableIdx as Encode>::spec_enc(a1)))[0] == 252u8);
            assert(uleb(12 as nat) =~= seq![12u8]);
            assert(instr_enc(v) =~= seq![252u8, 12u8] + (<ElemIdx as Encode>::spec_enc(a0) + <TableIdx as Encode>::spec_enc(a1)));
            assert((seq![252u8, 12u8] + (<ElemIdx as Encode>::spec_enc(a0) + <TableIdx as Encode>::spec_enc(a1)))[1] == 12u8);
        },
        SpecInstr::ElemDrop(a0) => {
            assert(instr_enc(v) =~= seq![252u8] + (uleb(13 as nat) + <ElemIdx as Encode>::spec_enc(a0)));
            assert((seq![252u8] + (uleb(13 as nat) + <ElemIdx as Encode>::spec_enc(a0)))[0] == 252u8);
            assert(uleb(13 as nat) =~= seq![13u8]);
            assert(instr_enc(v) =~= seq![252u8, 13u8] + (<ElemIdx as Encode>::spec_enc(a0)));
            assert((seq![252u8, 13u8] + (<ElemIdx as Encode>::spec_enc(a0)))[1] == 13u8);
        },
        SpecInstr::TableCopy(a0, a1) => {
            assert(instr_enc(v) =~= seq![252u8] + (uleb(14 as nat) + <TableIdx as Encode>::spec_enc(a0) + <TableIdx as Encode>::spec_enc(a1)));
            assert((seq![252u8] + (uleb(14 as nat) + <TableIdx as Encode>::spec_enc(a0) + <TableIdx as Encode>::spec_enc(a1)))[0] == 252u8);
            assert(uleb(14 as nat) =~= seq![14u8]);
            assert(instr_enc(v) =~= seq![252u8, 14u8] + (<TableIdx as Encode>::spec_enc(a0) + <TableIdx as Encode>::spec_enc(a1)));
            assert((seq![252u8, 14u8] + (<TableIdx as Encode>::spec_enc(a0) + <TableIdx as Encode>::spec_enc(a1)))[1] == 14u8);
        },
        SpecInstr::TableGrow(a0) => {
            assert(instr_enc(v) =~= seq![252u8] + (uleb(15 as nat) + <TableIdx as Encode>::spec_enc(a0)));
            assert((seq![252u8] + (uleb(15 as nat) + <TableIdx as Encode>::spec_enc(a0)))[0] == 252u8);
            assert(uleb(15 as nat) =~= seq![15u8]);
            assert(instr_enc(v) =~= seq![252u8, 15u8] + (<TableIdx as Encode>::spec_enc(a0)));
            assert((seq![252u8, 15u8] + (<TableIdx as Encode>::spec_enc(a0)))[1] == 15u8);
        },
        SpecInstr::TableSize(a0) => {
            assert(instr_enc(v) =~= seq![252u8] + (uleb(16 as nat) + <TableIdx as Encode>::spec_enc(a0)));
            assert((seq![252u8] + (uleb(16 as nat) + <TableIdx as Encode>::spec_enc(a0)))[0] == 252u8);
            assert(uleb(16 as nat) =~= seq![16u8]);
            assert(instr_enc(v) =~= seq![252u8, 16u8] + (<TableIdx as Encode>::spec_enc(a0)));
            assert((seq![252u8, 16u8] + (<TableIdx as Encode>::spec_enc(a0)))[1] == 16u8);
        },
        SpecInstr::TableFill(a0) => {
            assert(instr_enc(v) =~= seq![252u8] + (uleb(17 as nat) + <TableIdx as Encode>::spec_enc(a0)));
            assert((seq![252u8] + (uleb(17 as nat) + <TableIdx as Encode>::spec_enc(a0)))[0] == 252u8);
            assert(uleb(17 as nat) =~= seq![17u8]);
            assert(instr_enc(v) =~= seq![252u8, 17u8] + (<TableIdx as Encode>::spec_enc(a0)));
            assert((seq![252u8, 17u8] + (<TableIdx as Encode>::spec_enc(a0)))[1] == 17u8);
        },
        SpecInstr::I32Load(a0) => {
            assert(instr_enc(v) =~= seq![40u8] + (<MemArg as Encode>::spec_enc(a0)));
            assert((seq![40u8] + (<MemArg as Encode>::spec_enc(a0)))[0] == 40u8);
        },
        SpecInstr::I64Load(a0) => {
            assert(instr_enc(v) =~= seq![41u8] + (<MemArg as Encode>::spec_enc(a0)));
            assert((seq![41u8] + (<MemArg as Encode>::spec_enc(a0)))[0] == 41u8);
        },
        SpecInstr::F32Load(a0) => {
            assert(instr_enc(v) =~= seq![42u8] + (<MemArg as Encode>::spec_enc(a0)));
            assert((seq![42u8] + (<MemArg as Encode>::spec_enc(a0)))[0] == 42u8);
        },
        SpecInstr::F64Load(a0) => {
            assert(instr_enc(v) =~= seq![43u8] + (<MemArg as Encode>::spec_enc(a0)));
            assert((seq![43u8] + (<MemArg as Encode>::spec_enc(a0)))[0] == 43u8);
        },
        SpecInstr::I32Load8S(a0) => {
            assert(instr_enc(v) =~= seq![44u8] + (<MemArg as Encode>::spec_enc(a0)));
            assert((seq![44u8] + (<MemArg as Encode>::spec_enc(a0)))[0] == 44u8);
        },
        SpecInstr::I32Load8U(a0) => {
            assert(instr_enc(v) =~= seq![45u8] + (<MemArg as Encode>::spec_enc(a0)));
            assert((seq![45u8] + (<MemArg as Encode>::spec_enc(a0)))[0] == 45u8);
        },
        SpecInstr::I32Load16S(a0) => {
            assert(instr_enc(v) =~= seq![46u8] + (<MemArg as Encode>::spec_enc(a0)));
            assert((seq![46u8] + (<MemArg as Encode>::spec_enc(a0)))[0] == 46u8);
        },
        SpecInstr::I32Load16U(a0) => {
            assert(instr_enc(v) =~= seq![47u8] + (<MemArg as Encode>::spec_enc(a0)));
            assert((seq![47u8] + (<MemArg as Encode>::spec_enc(a0)))[0] == 47u8);
        },
        SpecInstr::I64Load8S(a0) => {
            assert(instr_enc(v) =~= seq![48u8] + (<MemArg as Encode>::spec_enc(a0)));
            assert((seq![48u8] + (<MemArg as Encode>::spec_enc(a0)))[0] == 48u8);
        },
        SpecInstr::I64Load8U(a0) => {
            assert(instr_enc(v) =~= seq![49u8] + (<MemArg as Encode>::spec_enc(a0)));
            assert((seq![49u8] + (<MemArg as Encode>::spec_enc(a0)))[0] == 49u8);
        },
        SpecInstr::I64Load16S(a0) => {
            assert(instr_enc(v) =~= seq![50u8] + (<MemArg as Encode>::spec_enc(a0)));
            assert((seq![50u8] + (<MemArg as Encode>::spec_enc(a0)))[0] == 50u8);
        },
        SpecInstr::I64Load16U(a0) => {
            assert(instr_enc(v) =~= seq![51u8] + (<MemArg as Encode>::spec_enc(a0)));
            assert((seq![51u8] + (<MemArg as Encode>::spec_enc(a0)))[0] == 51u8);
        },
        SpecInstr::I64Load32S(a0) => {
            assert(instr_enc(v) =~= seq![52u8] + (<MemArg as Encode>::spec_enc(a0)));
            assert((seq![52u8] + (<MemArg as Encode>::spec_enc(a0)))[0] == 52u8);
        },
        SpecInstr::I64Load32U(a0) => {
            assert(instr_enc(v) =~= seq![53u8] + (<MemArg as Encode>::spec_enc(a0)));
            assert((seq![53u8] + (<MemArg as Encode>::spec_enc(a0)))[0] == 53u8);
        },
        SpecInstr::I32Store(a0) => {
            assert(instr_enc(v) =~= seq![54u8] + (<MemArg as Encode>::spec_enc(a0)));
            assert((seq![54u8] + (<MemArg as Encode>::spec_enc(a0)))[0] == 54u8);
        },
        SpecInstr::I64Store(a0) => {
            assert(instr_enc(v) =~= seq![55u8] + (<MemArg as Encode>::spec_enc(a0)));
            assert((seq![55u8] + (<MemArg as Encode>::spec_enc(a0)))[0] == 55u8);
        },
        SpecInstr::F32Store(a0) => {
            assert(instr_enc(v) =~= seq![56u8] + (<MemArg as Encode>::spec_enc(a0)));
            assert((seq![56u8] + (<MemArg as Encode>::spec_enc(a0)))[0] == 56u8);
        },
        SpecInstr::F64Store(a0) => {
            assert(instr_enc(v) =~= seq![57u8] + (<MemArg as Encode>::spec_enc(a0)));
            assert((seq![57u8] + (<MemArg as Encode>::spec_enc(a0)))[0] == 57u8);
        },
        SpecInstr::I32Store8(a0) => {
            assert(instr_enc(v) =~= seq![58u8] + (<MemArg as Encode>::spec_enc(a0)));
            assert((seq![58u8] + (<MemArg as Encode>::spec_enc(a0)))[0] == 58u8);
        },
        SpecInstr::I32Store16(a0) => {
            assert(instr_enc(v) =~= seq![59u8] + (<MemArg as Encode>::spec_enc(a0)));
            assert((seq![59u8] + (<MemArg as Encode>::spec_enc(a0)))[0] == 59u8);
        },
        SpecInstr::I64Store8(a0) => {
            assert(instr_enc(v) =~= seq![60u8] + (<MemArg as Encode>::spec_enc(a0)));
            assert((seq![60u8] + (<MemArg as Encode>::spec_enc(a0)))[0] == 60u8);
        },
        SpecInstr::I64Store16(a0) => {
            assert(instr_enc(v) =~= seq![61u8] + (<MemArg as Encode>::spec_enc(a0)));
            assert((seq![61u8] + (<MemArg as Encode>::spec_enc(a0)))[0] == 61u8);
        },
        SpecInstr::I64Store32(a0) => {
            assert(instr_enc(v) =~= seq![62u8] + (<MemArg as Encode>::spec_enc(a0)));
            assert((seq![62u8] + (<MemArg as Encode>::spec_enc(a0)))[0] == 62u8);
        },
        SpecInstr::MemorySize => {
            assert(instr_enc(v) =~= seq![63u8] + (seq![0u8]));
            assert((seq![63u8] + (seq![0u8]))[0] == 63u8);
        },
        SpecInstr::MemoryGrow => {
            assert(instr_enc(v) =~= seq![64u8] + (seq![0u8]));
            assert((seq![64u8] + (seq![0u8]))[0] == 64u8);
        },
        SpecInstr::MemoryInit(a0) => {
            assert(instr_enc(v) =~= seq![252u8] + (uleb(8 as nat) + <DataIdx as Encode>::spec_enc(a0) + seq![0u8]));
            assert((seq![252u8] + (uleb(8 as nat) + <DataIdx as Encode>::spec_enc(a0) + seq![0u8]))[0] == 252u8);
            assert(uleb(8 as nat) =~= seq![8u8]);
            assert(instr_enc(v) =~= seq![252u8, 8u8] + (<DataIdx as Encode>::spec_enc(a0) + seq![0u8]));
            assert((seq![252u8, 8u8] + (<DataIdx as Encode>::spec_enc(a0) + seq![0u8]))[1] == 8u8);
        },
        SpecInstr::DataDrop(a0) => {
            assert(instr_enc(v) =~= seq![252u8] + (uleb(9 as nat) + <DataIdx as Encode>::spec_enc(a0)));
            assert((seq![252u8] + (uleb(9 as nat) + <DataIdx as Encode>::spec_enc(a0)))[0] == 252u8);
            assert(uleb(9 as nat) =~= seq![9u8]);
            assert(instr_enc(v) =~= seq![252u8, 9u8] + (<DataIdx as Encode>::spec_enc(a0)));
            assert((seq![252u8, 9u8] + (<DataIdx as Encode>::spec_enc(a0)))[1] == 9u8);
        },
        SpecInstr::MemoryCopy => {
            assert(instr_enc(v) =~= seq![252u8] + (uleb(10 as nat) + seq![0u8] + seq![0u8]));
            assert((seq![252u8] + (uleb(10 as nat) + seq![0u8] + seq![0u8]))[0] == 252u8);
            assert(uleb(10 as nat) =~= seq![10u8]);
            assert(instr_enc(v) =~= seq![252u8, 10u8] + (seq![0u8] + seq![0u8]));
            assert((seq![252u8, 10u8] + (seq![0u8] + seq![0u8]))[1] == 10u8);
        },
        SpecInstr::MemoryFill => {
            assert(instr_enc(v) =~= seq![252u8] + (uleb(11 as nat) + seq![0u8]));
            assert((seq![252u8] + (uleb(11 as nat) + seq![0u8]))[0] == 252u8);
            assert(uleb(11 as nat) =~= seq![11u8]);
            assert(instr_enc(v) =~= seq![252u8, 11u8] + (seq![0u8]));
            assert((seq![252u8, 11u8] + (seq![0u8]))[1] == 11u8);
        },
        SpecInstr::I32Const(a0) => {
            assert(instr_enc(v) =~= seq![65u8] + (<i32 as Encode>::spec_enc(a0)));
            assert((seq![65u8] + (<i32 as Encode>::spec_enc(a0)))[0] == 65u8);
        },
        SpecInstr::I64Const(a0) => {
            assert(instr_enc(v) =~= seq![66u8] + (<i64 as Encode>::spec_enc(a0)));
            assert((seq![66u8] + (<i64 as Encode>::spec_enc(a0)))[0] == 66u8);
        },
        SpecInstr::F32Const(a0) => {
            assert(instr_enc(v) =~= seq![67u8] + (<F32Bits as Encode>::spec_enc(a0)));
            assert((seq![67u8] + (<F32Bits as Encode>::spec_enc(a0)))[0] == 67u8);
        },
        SpecInstr::F64Const(a0) => {
            assert(instr_enc(v) =~= seq![68u8] + (<F64Bits as Encode>::spec_enc(a0)));
            assert((seq![68u8] + (<F64Bits as Encode>::spec_enc(a0)))[0] == 68u8);
        },
        SpecInstr::I32Eqz => {
            assert(instr_enc(v) == seq![69u8]);
        },
        SpecInstr::I32Eq => {
            assert(instr_enc(v) == seq![70u8]);
        },
        SpecInstr::I32Ne => {
            assert(instr_enc(v) == seq![71u8]);
        },
        SpecInstr::I32LtS => {
            assert(instr_enc(v) == seq![72u8]);
        },
        SpecInstr::I32LtU => {
            assert(instr_enc(v) == seq![73u8]);
        },
        SpecInstr::I32GtS => {
            assert(instr_enc(v) == seq![74u8]);
        },
        SpecInstr::I32GtU => {
            assert(instr_enc(v) == seq![75u8]);
        },
        SpecInstr::I32LeS => {
            assert(instr_enc(v) == seq![76u8]);
        },
        SpecInstr::I32LeU => {
            assert(instr_enc(v) == seq![77u8]);
        },
        SpecInstr::I32GeS => {
            assert(instr_enc(v) == seq![78u8]);
        },
        SpecInstr::I32GeU => {
            assert(instr_enc(v) == seq![79u8]);
        },
        SpecInstr::I64EqZ => {
            assert(instr_enc(v) == seq![80u8]);
        },
        SpecInstr::I64Eq => {
            assert(instr_enc(v) == seq![81u8]);
        },
        SpecInstr::I64Ne => {
            assert(instr_enc(v) == seq![82u8]);
        },
        SpecInstr::I64LtS => {
            assert(instr_enc(v) == seq![83u8]);
        },
        SpecInstr::I64LtU => {
            assert(instr_enc(v) == seq![84u8]);
        },
        SpecInstr::I64GtS => {
            assert(instr_enc(v) == seq![85u8]);
        },
        SpecInstr::I64GtU => {
            assert(instr_enc(v) == seq![86u8]);
        },
        SpecInstr::I64LeS => {
            assert(instr_enc(v) == seq![87u8]);
        },
        SpecInstr::I64LeU => {
            assert(instr_enc(v) == seq![88u8]);
        },
        SpecInstr::I64GeS => {
            assert(instr_enc(v) == seq![89u8]);
        },
        SpecInstr::I64GeU => {
            assert(instr_enc(v) == seq![90u8]);
        },
        SpecInstr::F32Eq => {
            assert(instr_enc(v) == seq![91u8]);
        },
        SpecInstr::F32Ne => {
            assert(instr_enc(v) == seq![92u8]);
        },
        SpecInstr::F32Lt => {
            assert(instr_enc(v) == seq![93u8]);
        },
        SpecInstr::F32Gt => {
            assert(instr_enc(v) == seq![94u8]);
        },
        SpecInstr::F32Le => {
            assert(instr_enc(v) == seq![95u8]);
        },
        SpecInstr::F32Ge => {
            assert(instr_enc(v) == seq![96u8]);
        },
        SpecInstr::F64Eq => {
            assert(instr_enc(v) == seq![97u8]);
        },
        SpecInstr::F64Ne => {
            assert(instr_enc(v) == seq![98u8]);
        },
        SpecInstr::F64Lt => {
            assert(instr_enc(v) == seq![99u8]);
        },
        SpecInstr::F64Gt => {
            assert(instr_enc(v) == seq![100u8]);
        },
        SpecInstr::F64Le => {
            assert(instr_enc(v) == seq![101u8]);
        },
        SpecInstr::F64Ge => {
            assert(instr_enc(v) == seq![102u8]);
        },
        SpecInstr::I32Clz => {
            assert(instr_enc(v) == seq![103u8]);
        },
        SpecInstr::I32Ctz => {
            assert(instr_enc(v) == seq![104u8]);
        },
        SpecInstr::I32Popcnt => {
            assert(instr_enc(v) == seq![105u8]);
        },
        SpecInstr::I32Add => {
            assert(instr_enc(v) == seq![106u8]);
        },
        SpecInstr::I32Sub => {
            assert(instr_enc(v) == seq![107u8]);
        },
        SpecInstr::I32Mul => {
            assert(instr_enc(v) == seq![108u8]);
        },
        SpecInstr::I32DivS => {
            assert(instr_enc(v) == seq![109u8]);
        },
        SpecInstr::I32DivU => {
            assert(instr_enc(v) == seq![110u8]);
        },
        SpecInstr::I32RemS => {
            assert(instr_enc(v) == seq![111u8]);
        },
        SpecInstr::I32RemU => {
            assert(instr_enc(v) == seq![112u8]);
        },
        SpecInstr::I32And => {
            assert(instr_enc(v) == seq![113u8]);
        },
        SpecInstr::I32Or => {
            assert(instr_enc(v) == seq![114u8]);
        },
        SpecInstr::I32Xor => {
            assert(instr_enc(v) == seq![115u8]);
        },
        SpecInstr::I32Shl => {
            assert(instr_enc(v) == seq![116u8]);
        },
        SpecInstr::I32ShrS => {
            assert(instr_enc(v) == seq![117u8]);
        },
        SpecInstr::I32ShrU => {
            assert(instr_enc(v) == seq![118u8]);
        },
        SpecInstr::I32Rotl => {
            assert(instr_enc(v) == seq![119u8]);
        },
        SpecInstr::I32Rotr => {
            assert(instr_enc(v) == seq![120u8]);
        },
        SpecInstr::I64Clz => {
            assert(instr_enc(v) == seq![121u8]);
        },
        SpecInstr::I64Ctz => {
            assert(instr_enc(v) == seq![122u8]);
        },
        SpecInstr::I64Popcnt => {
            assert(instr_enc(v) == seq![123u8]);
        },
        SpecInstr::I64Add => {
            assert(instr_enc(v) == seq![124u8]);
        },
        SpecInstr::I64Sub => {
            assert(instr_enc(v) == seq![125u8]);
        },
        SpecInstr::I64Mul => {
            assert(instr_enc(v) == seq![126u8]);
        },
        SpecInstr::I64DivS => {
            assert(instr_enc(v) == seq![127u8]);
        },
        SpecInstr::I64DivU => {
            assert(instr_enc(v) == seq![128u8]);
        },
        SpecInstr::I64RemS => {
            assert(instr_enc(v) == seq![129u8]);
        },
        SpecInstr::I64RemU => {
            assert(instr_enc(v) == seq![130u8]);
        },
        SpecInstr::I64And => {
            assert(instr_enc(v) == seq![131u8]);
        },
        SpecInstr::I64Or => {
            assert(instr_enc(v) == seq![132u8]);
        },
        SpecInstr::I64Xor => {
            assert(instr_enc(v) == seq![133u8]);
        },
        SpecInstr::I64Shl => {
            assert(instr_enc(v) == seq![134u8]);
        },
        SpecInstr::I64ShrS => {
            assert(instr_enc(v) == seq![135u8]);
        },
        SpecInstr::I64ShrU => {
            assert(instr_enc(v) == seq![136u8]);
        },
        SpecInstr::I64Rotl => {
            assert(instr_enc(v) == seq![137u8]);
        },
        SpecInstr::I64Rotr => {
            assert(instr_enc(v) == seq![138u8]);
        },
        SpecInstr::F32Abs => {
            assert(instr_enc(v) == seq![139u8]);
        },
        SpecInstr::F32Neg => {
            assert(instr_enc(v) == seq![140u8]);
        },
        SpecInstr::F32Ceil => {
            assert(instr_enc(v) == seq![141u8]);
        },
        SpecInstr::F32Floor => {
            assert(instr_enc(v) == seq![142u8]);
        },
        SpecInstr::F32Trunc => {
            assert(instr_enc(v) == seq![143u8]);
        },
        SpecInstr::F32Nearest => {
            assert(instr_enc(v) == seq![144u8]);
        },
        SpecInstr::F32Sqrt => {
            assert(instr_enc(v) == seq![145u8]);
        },
        SpecInstr::F32Add => {
            assert(instr_enc(v) == seq![146u8]);
        },
        SpecInstr::F32Sub => {
            assert(instr_enc(v) == seq![147u8]);
        },
        SpecInstr::F32Mul => {
            assert(instr_enc(v) == seq![148u8]);
        },
        SpecInstr::F32Div => {
            assert(instr_enc(v) == seq![149u8]);
        },
        SpecInstr::F32Min => {
            assert(instr_enc(v) == seq![150u8]);
        },
        SpecInstr::F32Max => {
            assert(instr_enc(v) == seq![151u8]);
        },
        SpecInstr::F32Copysign => {
            assert(instr_enc(v) == seq![152u8]);
        },
        SpecInstr::F64Abs => {
            assert(instr_enc(v) == seq![153u8]);
        },
        SpecInstr::F64Neg => {
            assert(instr_enc(v) == seq![154u8]);
        },
        SpecInstr::F64Ceil => {
            assert(instr_enc(v) == seq![155u8]);
        },
        SpecInstr::F64Floor => {
            assert(instr_enc(v) == seq![156u8]);
        },
        SpecInstr::F64Trunc => {
            assert(instr_enc(v) == seq![157u8]);
        },
        SpecInstr::F64Nearest => {
            assert(instr_enc(v) == seq![158u8]);
        },
        SpecInstr::F64Sqrt => {
            assert(instr_enc(v) == seq![159u8]);
        },
        SpecInstr::F64Add => {
            assert(instr_enc(v) == seq![160u8]);
        },
        SpecInstr::F64Sub => {
            assert(instr_enc(v) == seq![161u8]);
        },
        SpecInstr::F64Mul => {
            assert(instr_enc(v) == seq![162u8]);
        },
        SpecInstr::F64Div => {
            assert(instr_enc(v) == seq![163u8]);
        },
        SpecInstr::F64Min => {
            assert(instr_enc(v) == seq![164u8]);
        },
        SpecInstr::F64Max => {
            assert(instr_enc(v) == seq![165u8]);
        },
        SpecInstr::F64Copysign => {
            assert(instr_enc(v) == seq![166u8]);
        },
        SpecInstr::I32WrapI64 => {
            assert(instr_enc(v) == seq![167u8]);
        },
        SpecInstr::I32TruncF32S => {
            assert(instr_enc(v) == seq![168u8]);
        },
        SpecInstr::I32TruncF32U => {
            assert(instr_enc(v) == seq![169u8]);
        },
        SpecInstr::I32TruncF64S => {
            assert(instr_enc(v) == seq![170u8]);
        },
        SpecInstr::I32TruncF64U => {
            assert(instr_enc(v) == seq![171u8]);
        },
        SpecInstr::I64ExtendI32S => {
            assert(instr_enc(v) == seq![172u8]);
        },
        SpecInstr::I64ExtendI32U => {
            assert(instr_enc(v) == seq![173u8]);
        },
        SpecInstr::I64TruncF32S => {
            assert(instr_enc(v) == seq![174u8]);
        },
        SpecInstr::I64TruncF32U => {
            assert(instr_enc(v) == seq![175u8]);
        },
        SpecInstr::I64TruncF64S => {
            assert(instr_enc(v) == seq![176u8]);
        },
        SpecInstr::I64TruncF64U => {
            assert(instr_enc(v) == seq![177u8]);
        },
        SpecInstr::F32ConvertI32S => {
            assert(instr_enc(v) == seq![178u8]);
        },
        SpecInstr::F32ConvertI32U => {
            assert(instr_enc(v) == seq![179u8]);
        },
        SpecInstr::F32ConvertI64S => {
            assert(instr_enc(v) == seq![180u8]);
        },
        SpecInstr::F32ConvertI64U => {
            assert(instr_enc(v) == seq![181u8]);
        },
        SpecInstr::F32DemoteF64 => {
            assert(instr_enc(v) == seq![182u8]);
        },
        SpecInstr::F64ConvertI32S => {
            assert(instr_enc(v) == seq![183u8]);
        },
        SpecInstr::F64ConvertI32U => {
            assert(instr_enc(v) == seq![184u8]);
        },
        SpecInstr::F64ConvertI64S => {
            assert(instr_enc(v) == seq![185u8]);
        },
        SpecInstr::F64ConvertI64U => {
            assert(instr_enc(v) == seq![186u8]);
        },
        SpecInstr::F64PromoteF32 => {
            assert(instr_enc(v) == seq![187u8]);
        },
        SpecInstr::I32ReinterpretF32 => {
            assert(instr_enc(v) == seq![188u8]);
        },
        SpecInstr::I64ReinterpretF64 => {
            assert(instr_enc(v) == seq![189u8]);
        },
        SpecInstr::F32ReinterpretI32 => {
            assert(instr_enc(v) == seq![190u8]);
        },
        SpecInstr::F64ReinterpretI64 => {
            assert(instr_enc(v) == seq![191u8]);
        },
        SpecInstr::I32Extend8S => {
            assert(instr_enc(v) == seq![192u8]);
        },
        SpecInstr::I32Extend16S => {
            assert(instr_enc(v) == seq![193u8]);
        },
        SpecInstr::I64Extend8S => {
            assert(instr_enc(v) == seq![194u8]);
        },
        SpecInstr::I64Extend16S => {
            assert(instr_enc(v) == seq![195u8]);
        },
        SpecInstr::I64Extend32S => {
            assert(instr_enc(v) == seq![196u8]);
        },
        SpecInstr::I32TruncSatF32S => {
            assert(instr_enc(v) =~= seq![252u8] + (uleb(0 as nat)));
            assert((seq![252u8] + (uleb(0 as nat)))[0] == 252u8);
            assert(uleb(0 as nat) =~= seq![0u8]);
            assert(instr_enc(v) =~= seq![252u8, 0u8] + (Seq::<u8>::empty()));
            assert((seq![252u8, 0u8] + (Seq::<u8>::empty()))[1] == 0u8);
        },
        SpecInstr::I32TruncSatF32U => {
            assert(instr_enc(v) =~= seq![252u8] + (uleb(1 as nat)));
            assert((seq![252u8] + (uleb(1 as nat)))[0] == 252u8);
            assert(uleb(1 as nat) =~= seq![1u8]);
            assert(instr_enc(v) =~= seq![252u8, 1u8] + (Seq::<u8>::empty()));
            assert((seq![252u8, 1u8] + (Seq::<u8>::empty()))[1] == 1u8);
        },
        SpecInstr::I32TruncSatF64S => {
            assert(instr_enc(v) =~= seq![252u8] + (uleb(2 as nat)));
            assert((seq![252u8] + (uleb(2 as nat)))[0] == 252u8);
            assert(uleb(2 as nat) =~= seq![2u8]);
            assert(instr_enc(v) =~= seq![252u8, 2u8] + (Seq::<u8>::empty()));
            assert((seq![252u8, 2u8] + (Seq::<u8>::empty()))[1] == 2u8);
        },
        SpecInstr::I32TruncSatF64U => {
            assert(instr_enc(v) =~= seq![252u8] + (uleb(3 as nat)));
            assert((seq![252u8] + (uleb(3 as nat)))[0] == 252u8);
            assert(uleb(3 as nat) =~= seq![3u8]);
            assert(instr_enc(v) =~= seq![252u8, 3u8] + (Seq::<u8>::empty()));
            assert((seq![252u8, 3u8] + (Seq::<u8>::empty()))[1] == 3u8);
        },
        SpecInstr::I64TruncSatF32S => {
            assert(instr_enc(v) =~= seq![252u8] + (uleb(4 as nat)));
            assert((seq![252u8] + (uleb(4 as nat)))[0] == 252u8);
            assert(uleb(4 as nat) =~= seq![4u8]);
            assert(instr_enc(v) =~= seq![252u8, 4u8] + (Seq::<u8>::empty()));
            assert((seq![252u8, 4u8] + (Seq::<u8>::empty()))[1] == 4u8);
        },
        SpecInstr::I64TruncSatF32U => {
            assert(instr_enc(v) =~= seq![252u8] + (uleb(5 as nat)));
            assert((seq![252u8] + (uleb(5 as nat)))[0] == 252u8);
            assert(uleb(5 as nat) =~= seq![5u8]);
            assert(instr_enc(v) =~= seq![252u8, 5u8] + (Seq::<u8>::empty()));
            assert((seq![252u8, 5u8] + (Seq::<u8>::empty()))[1] == 5u8);
        },
        SpecInstr::I64TruncSatF64S => {
            assert(instr_enc(v) =~= seq![252u8] + (uleb(6 as nat)));
            assert((seq![252u8] + (uleb(6 as nat)))[0] == 252u8);
            assert(uleb(6 as nat) =~= seq![6u8]);
            assert(instr_enc(v) =~= seq![252u8, 6u8] + (Seq::<u8>::empty()));
            assert((seq![252u8, 6u8] + (Seq::<u8>::empty()))[1] == 6u8);
        },
        SpecInstr::I64TruncSatF64U => {
            assert(instr_enc(v) =~= seq![252u8] + (uleb(7 as nat)));
            assert((seq![252u8] + (uleb(7 as nat)))[0] == 252u8);
            assert(uleb(7 as nat) =~= seq![7u8]);
            assert(instr_enc(v) =~= seq![252u8, 7u8] + (Seq::<u8>::empty()));
            assert((seq![252u8, 7u8] + (Seq::<u8>::empty()))[1] == 7u8);
        },
    }
}

/// The else-branch encoding begins with `0x0B` or `0x05`.
pub proof fn lemma_else_head(v: SpecElse)
    ensures
        else_enc(v).len() >= 1,
        else_enc(v)[0] == 0x0B || else_enc(v)[0] == 0x05,
{
    match v {
        SpecElse::NoElse => {
            assert(else_enc(v) == seq![11u8]);
        },
        SpecElse::Else(a0) => {
            assert(else_enc(v) =~= seq![5u8] + (instr_seq_enc(a0) + seq![11u8]));
            assert((seq![5u8] + (instr_seq_enc(a0) + seq![11u8]))[0] == 5u8);
        },
    }
}

/// Neither a terminator byte nor an else-introducer can begin an
/// instruction, and neither can the empty buffer.
pub proof fn lemma_instr_sentinel(s: Seq<u8>)
    requires
        s.len() == 0 || s[0] == 0x0B || s[0] == 0x05,
    ensures
        !<Instr as Decode>::dec_ok(s),
{
    if <Instr as Decode>::dec_ok(s) {
        let (v, e) = choose|v: SpecInstr, e: Seq<u8>|
            <Instr as Encode>::spec_wf(v) && s == <Instr as Encode>::spec_enc(v) + e
                && <Instr as Decode>::tail_stop(e);
        lemma_instr_head(v);
        assert(s[0] == instr_op(v));
        assert(instr_op(v) != 0x0B && instr_op(v) != 0x05);
        assert(false);
    }
}

/// Appending one instruction extends the sequence encoding on the right.
pub proof fn lemma_instr_seq_push(s: Seq<SpecInstr>, v: SpecInstr)
    ensures
        instr_seq_enc(s.push(v)) == instr_seq_enc(s) + instr_enc(v),
        instr_seq_wf(s.push(v)) == (instr_seq_wf(s) && instr_wf(v)),
    decreases s,
{
    if s.len() == 0 {
        assert(s.push(v).drop_first() =~= Seq::<SpecInstr>::empty());
        assert(s.push(v)[0] == v);
        assert(s.push(v).len() == 1);
        assert(instr_seq_enc(s.push(v)) == instr_enc(s.push(v)[0]) + instr_seq_enc(
            s.push(v).drop_first(),
        ));
        assert(instr_seq_enc(Seq::<SpecInstr>::empty()) =~= Seq::<u8>::empty());
        assert(instr_seq_wf(s.push(v)) == (instr_wf(s.push(v)[0]) && instr_seq_wf(
            s.push(v).drop_first(),
        )));
        assert(instr_seq_enc(s.push(v)) =~= instr_seq_enc(s) + instr_enc(v));
    } else {
        assert(s.push(v).drop_first() =~= s.drop_first().push(v));
        assert(s.push(v)[0] == s[0]);
        lemma_instr_seq_push(s.drop_first(), v);
        assert(instr_seq_enc(s.push(v)) == instr_enc(s.push(v)[0]) + instr_seq_enc(
            s.push(v).drop_first(),
        ));
        assert(instr_seq_wf(s.push(v)) == (instr_wf(s.push(v)[0]) && instr_seq_wf(
            s.push(v).drop_first(),
        )));
        assert(instr_seq_enc(s.push(v)) =~= instr_seq_enc(s) + instr_enc(v));
    }
}

/// Length and elements of the deep view of an instruction sequence.
pub proof fn lemma_instr_seq_view_props(s: Seq<Instr>)
    ensures
        instr_seq_view(s).len() == s.len(),
        forall|i: int| 0 <= i < s.len() ==> instr_seq_view(s)[i] == instr_view(#[trigger] s[i]),
    decreases s,
{
    if s.len() > 0 {
        lemma_instr_seq_view_props(s.drop_first());
        assert forall|i: int| 0 <= i < s.len() implies instr_seq_view(s)[i] == instr_view(
            #[trigger] s[i],
        ) by {
            if i > 0 {
                assert(s[i] == s.drop_first()[i - 1]);
                assert(instr_seq_view(s)[i] == instr_seq_view(s.drop_first())[i - 1]);
            }
        }
    }
}

/// The deep view of a pushed vector is the pushed deep view.
pub proof fn lemma_instr_seq_view_push(s: Seq<Instr>, t: Instr)
    ensures
        instr_seq_view(s.push(t)) == instr_seq_view(s).push(instr_view(t)),
    decreases s,
{
    lemma_instr_seq_view_props(s.push(t));
    lemma_instr_seq_view_props(s);
    assert forall|i: int| 0 <= i < s.len() + 1 implies instr_seq_view(s.push(t))[i]
        == instr_seq_view(s).push(instr_view(t))[i] by {
        if i < s.len() {
            assert(s.push(t)[i] == s[i]);
        } else {
            assert(s.push(t)[i] == t);
        }
    }
    assert(instr_seq_view(s.push(t)) =~= instr_seq_view(s).push(instr_view(t)));
}

/// An instruction sequence followed by a non-instruction tail splits in
/// only one way.
pub proof fn lemma_instr_seq_unamb(s1: Seq<SpecInstr>, s2: Seq<SpecInstr>, e1: Seq<u8>, e2: Seq<u8>)
    requires
        instr_seq_wf(s1),
        instr_seq_wf(s2),
        instr_seq_enc(s1) + e1 == instr_seq_enc(s2) + e2,
        !<Instr as Decode>::dec_ok(e1),
        !<Instr as Decode>::dec_ok(e2),
    ensures
        s1 == s2,
        e1 == e2,
    decreases s1, 1int,
{
    if s1.len() == 0 && s2.len() == 0 {
        assert(e1 =~= instr_seq_enc(s1) + e1);
        assert(e2 =~= instr_seq_enc(s2) + e2);
    } else if s1.len() == 0 {
        assert(instr_seq_enc(s2) == instr_enc(s2[0]) + instr_seq_enc(s2.drop_first()));
        assert(e1 =~= instr_seq_enc(s1) + e1);
        assert(e1 =~= instr_enc(s2[0]) + (instr_seq_enc(s2.drop_first()) + e2));
        assert(<Instr as Decode>::dec_ok(e1)) by {
            assert(<Instr as Encode>::spec_wf(s2[0]) && e1 == <Instr as Encode>::spec_enc(s2[0])
                + (instr_seq_enc(s2.drop_first()) + e2) && <Instr as Decode>::tail_stop(
                instr_seq_enc(s2.drop_first()) + e2,
            ));
        }
        assert(false);
    } else if s2.len() == 0 {
        assert(instr_seq_enc(s1) == instr_enc(s1[0]) + instr_seq_enc(s1.drop_first()));
        assert(e2 =~= instr_seq_enc(s2) + e2);
        assert(e2 =~= instr_enc(s1[0]) + (instr_seq_enc(s1.drop_first()) + e1));
        assert(<Instr as Decode>::dec_ok(e2)) by {
            assert(<Instr as Encode>::spec_wf(s1[0]) && e2 == <Instr as Encode>::spec_enc(s1[0])
                + (instr_seq_enc(s1.drop_first()) + e1) && <Instr as Decode>::tail_stop(
                instr_seq_enc(s1.drop_first()) + e1,
            ));
        }
        assert(false);
    } else {
        let t1 = instr_seq_enc(s1.drop_first()) + e1;
        let t2 = instr_seq_enc(s2.drop_first()) + e2;
        assert(instr_enc(s1[0]) + t1 =~= instr_seq_enc(s1) + e1);
        assert(instr_enc(s2[0]) + t2 =~= instr_seq_enc(s2) + e2);
        lemma_instr_unamb(s1[0], s2[0], t1, t2);
        lemma_instr_seq_unamb(s1.drop_first(), s2.drop_first(), e1, e2);
        assert(s1.len() == s2.len());
        assert forall|i: int| 0 <= i < s1.len() implies s1[i] == s2[i] by {
            if i > 0 {
                assert(s1[i] == s1.drop_first()[i - 1]);
                assert(s2[i] == s2.drop_first()[i - 1]);
            }
        }
        assert(s1 =~= s2);
    }
}

/// Unambiguity of the numeric instruction group.
#[verifier::rlimit(100)]
proof fn lemma_instr_unamb_numeric(v1: SpecInstr, v2: SpecInstr, e1: Seq<u8>, e2: Seq<u8>)
    requires
        instr_wf(v1),
        instr_wf(v2),
        instr_enc(v1) + e1 == instr_enc(v2) + e2,
        instr_op(v1) == instr_op(v2),
        instr_op(v1) == 0xFC ==> instr_fc_sub(v1) == instr_fc_sub(v2),
        0x45 <= instr_op(v1) <= 0xC4,
    ensures
        v1 == v2,
        e1 == e2,
    decreases v1, 0int,
{
    match v1 {
        SpecInstr::I32Eqz => {
            match v2 {
                SpecInstr::I32Eqz => {
                    assert(instr_enc(v1) + e1 =~= seq![69u8] + (e1));
                    assert(instr_enc(v2) + e2 =~= seq![69u8] + (e2));
                    lemma_concat_cancel(seq![69u8], e1, seq![69u8], e2);
                    assert(e1 == e2);
                    assert(v1 == v2);
                },
                _ => {
                    assert(false);
                },
            }
        },
        SpecInstr::I32Eq => {
            match v2 {
                SpecInstr::I32Eq => {
                    assert(instr_enc(v1) + e1 =~= seq![70u8] + (e1));
                    assert(instr_enc(v2) + e2 =~= seq![70u8] + (e2));
                    lemma_concat_cancel(seq![70u8], e1, seq![70u8], e2);
                    assert(e1 == e2);
                    assert(v1 == v2);
                },
                _ => {
                    assert(false);
                },
            }
        },
        SpecInstr::I32Ne => {
            match v2 {
                SpecInstr::I32Ne => {
                    assert(instr_enc(v1) + e1 =~= seq![71u8] + (e1));
                    assert(instr_enc(v2) + e2 =~= seq![71u8] + (e2));
                    lemma_concat_cancel(seq![71u8], e1, seq![71u8], e2);
                    assert(e1 == e2);
                    assert(v1 == v2);
                },
                _ => {
                    assert(false);
                },
            }
        },
        SpecInstr::I32LtS => {
            match v2 {
                SpecInstr::I32LtS => {
                    assert(instr_enc(v1) + e1 =~= seq![72u8] + (e1));
                    assert(instr_enc(v2) + e2 =~= seq![72u8] + (e2));
                    lemma_concat_cancel(seq![72u8], e1, seq![72u8], e2);
                    assert(e1 == e2);
                    assert(v1 == v2);
                },
                _ => {
                    assert(false);
                },
            }
        },
        SpecInstr::I32LtU => {
            match v2 {
                SpecInstr::I32LtU => {
                    assert(instr_enc(v1) + e1 =~= seq![73u8] + (e1));
                    assert(instr_enc(v2) + e2 =~= seq![73u8] + (e2));
                    lemma_concat_cancel(seq![73u8], e1, seq![73u8], e2);
                    assert(e1 == e2);
                    assert(v1 == v2);
                },
                _ => {
                    assert(false);
                },
            }
        },
        SpecInstr::I32GtS => {
            match v2 {
                SpecInstr::I32GtS => {
                    assert(instr_enc(v1) + e1 =~= seq![74u8] + (e1));
                    assert(instr_enc(v2) + e2 =~= seq![74u8] + (e2));
                    lemma_concat_cancel(seq![74u8], e1, seq![74u8], e2);
                    assert(e1 == e2);
                    assert(v1 == v2);
                },
                _ => {
                    assert(false);
                },
            }
        },
        SpecInstr::I32GtU => {
            match v2 {
                SpecInstr::I32GtU => {
                    assert(instr_enc(v1) + e1 =~= seq![75u8] + (e1));
                    assert(instr_enc(v2) + e2 =~= seq![75u8] + (e2));
                    lemma_concat_cancel(seq![75u8], e1, seq![75u8], e2);
                    assert(e1 == e2);
                    assert(v1 == v2);
                },
                _ => {
                    assert(false);
                },
            }
        },
        SpecInstr::I32LeS => {
            match v2 {
                SpecInstr::I32LeS => {
                    assert(instr_enc(v1) + e1 =~= seq![76u8] + (e1));
                    assert(instr_enc(v2) + e2 =~= seq![76u8] + (e2));
                    lemma_concat_cancel(seq![76u8], e1, seq![76u8], e2);
                    assert(e1 == e2);
                    assert(v1 == v2);
                },
                _ => {
                    assert(false);
                },
            }
        },
        SpecInstr::I32LeU => {
            match v2 {
                SpecInstr::I32LeU => {
                    assert(instr_enc(v1) + e1 =~= seq![77u8] + (e1));
                    assert(instr_enc(v2) + e2 =~= seq![77u8] + (e2));
                    lemma_concat_cancel(seq![77u8], e1, seq![77u8], e2);
                    assert(e1 == e2);
                    assert(v1 == v2);
                },
                _ => {
                    assert(false);
                },
            }
        },
        SpecInstr::I32GeS => {
            match v2 {
                SpecInstr::I32GeS => {
                    assert(instr_enc(v1) + e1 =~= seq![78u8] + (e1));
                    assert(instr_enc(v2) + e2 =~= seq![78u8] + (e2));
                    lemma_concat_cancel(seq![78u8], e1, seq![78u8], e2);
                    assert(e1 == e2);
                    assert(v1 == v2);
                },
                _ => {
                    assert(false);
                },
            }
        },
        SpecInstr::I32GeU => {
            match v2 {
                SpecInstr::I32GeU => {
                    assert(instr_enc(v1) + e1 =~= seq![79u8] + (e1));
                    assert(instr_enc(v2) + e2 =~= seq![79u8] + (e2));
                    lemma_concat_cancel(seq![79u8], e1, seq![79u8], e2);
                    assert(e1 == e2);
                    assert(v1 == v2);
                },
                _ => {
                    assert(false);
                },
            }
        },
        SpecInstr::I64EqZ => {
            match v2 {
                SpecInstr::I64EqZ => {
                    assert(instr_enc(v1) + e1 =~= seq![80u8] + (e1));
                    assert(instr_enc(v2) + e2 =~= seq![80u8] + (e2));
                    lemma_concat_cancel(seq![80u8], e1, seq![80u8], e2);
                    assert(e1 == e2);
                    assert(v1 == v2);
                },
                _ => {
                    assert(false);
                },
            }
        },
        SpecInstr::I64Eq => {
            match v2 {
                SpecInstr::I64Eq => {
                    assert(instr_enc(v1) + e1 =~= seq![81u8] + (e1));
                    assert(instr_enc(v2) + e2 =~= seq![81u8] + (e2));
                    lemma_concat_cancel(seq![81u8], e1, seq![81u8], e2);
                    assert(e1 == e2);
                    assert(v1 == v2);
                },
                _ => {
                    assert(false);
                },
            }
        },
        SpecInstr::I64Ne => {
            match v2 {
                SpecInstr::I64Ne => {
                    assert(instr_enc(v1) + e1 =~= seq![82u8] + (e1));
                    assert(instr_enc(v2) + e2 =~= seq![82u8] + (e2));
                    lemma_concat_cancel(seq![82u8], e1, seq![82u8], e2);
                    assert(e1 == e2);
                    assert(v1 == v2);
                },
                _ => {
                    assert(false);
                },
            }
        },
        SpecInstr::I64LtS => {
            match v2 {
                SpecInstr::I64LtS => {
                    assert(instr_enc(v1) + e1 =~= seq![83u8] + (e1));
                    assert(instr_enc(v2) + e2 =~= seq![83u8] + (e2));
                    lemma_concat_cancel(seq![83u8], e1, seq![83u8], e2);
                    assert(e1 == e2);
                    assert(v1 == v2);
                },
                _ => {
                    assert(false);
                },
            }
        },
        SpecInstr::I64LtU => {
            match v2 {
                SpecInstr::I64LtU => {
                    assert(instr_enc(v1) + e1 =~= seq![84u8] + (e1));
                    assert(instr_enc(v2) + e2 =~= seq![84u8] + (e2));
                    lemma_concat_cancel(seq![84u8], e1, seq![84u8], e2);
                    assert(e1 == e2);
                    assert(v1 == v2);
                },
                _ => {
                    assert(false);
                },
            }
        },
        SpecInstr::I64GtS => {
            match v2 {
                SpecInstr::I64GtS => {
                    assert(instr_enc(v1) + e1 =~= seq![85u8] + (e1));
                    assert(instr_enc(v2) + e2 =~= seq![85u8] + (e2));
                    lemma_concat_cancel(seq![85u8], e1, seq![85u8], e2);
                    assert(e1 == e2);
                    assert(v1 == v2);
                },
                _ => {
                    assert(false);
                },
            }
        },
        SpecInstr::I64GtU => {
            match v2 {
                SpecInstr::I64GtU => {
                    assert(instr_enc(v1) + e1 =~= seq![86u8] + (e1));
                    assert(instr_enc(v2) + e2 =~= seq![86u8] + (e2));
                    lemma_concat_cancel(seq![86u8], e1, seq![86u8], e2);
                    assert(e1 == e2);
                    assert(v1 == v2);
                },
                _ => {
                    assert(false);
                },
            }
        },
        SpecInstr::I64LeS => {
            match v2 {
                SpecInstr::I64LeS => {
                    assert(instr_enc(v1) + e1 =~= seq![87u8] + (e1));
                    assert(instr_enc(v2) + e2 =~= seq![87u8] + (e2));
                    lemma_concat_cancel(seq![87u8], e1, seq![87u8], e2);
                    assert(e1 == e2);
                    assert(v1 == v2);
                },
                _ => {
                    assert(false);
                },
            }
        },
        SpecInstr::I64LeU => {
            match v2 {
                SpecInstr::I64LeU => {
                    assert(instr_enc(v1) + e1 =~= seq![88u8] + (e1));
                    assert(instr_enc(v2) + e2 =~= seq![88u8] + (e2));
                    lemma_concat_cancel(seq![88u8], e1, seq![88u8], e2);
                    assert(e1 == e2);
                    assert(v1 == v2);
                },
                _ => {
                    assert(false);
                },
            }
        },
        SpecInstr::I64GeS => {
            match v2 {
                SpecInstr::I64GeS => {
                    assert(instr_enc(v1) + e1 =~= seq![89u8] + (e1));
                    assert(instr_enc(v2) + e2 =~= seq![89u8] + (e2));
                    lemma_concat_cancel(seq![89u8], e1, seq![89u8], e2);
                    assert(e1 == e2);
                    assert(v1 == v2);
                },
                _ => {
                    assert(false);
                },
            }
        },
        SpecInstr::I64GeU => {
            match v2 {
                SpecInstr::I64GeU => {
                    assert(instr_enc(v1) + e1 =~= seq![90u8] + (e1));
                    assert(instr_enc(v2) + e2 =~= seq![90u8] + (e2));
                    lemma_concat_cancel(seq![90u8], e1, seq![90u8], e2);
                    assert(e1 == e2);
                    assert(v1 == v2);
                },
                _ => {
                    assert(false);
                },
            }
        },
        SpecInstr::F32Eq => {
            match v2 {
                SpecInstr::F32Eq => {
                    assert(instr_enc(v1) + e1 =~= seq![91u8] + (e1));
                    assert(instr_enc(v2) + e2 =~= seq![91u8] + (e2));
                    lemma_concat_cancel(seq![91u8], e1, seq![91u8], e2);
                    assert(e1 == e2);
                    assert(v1 == v2);
                },
                _ => {
                    assert(false);
                },
            }
        },
        SpecInstr::F32Ne => {
            match v2 {
                SpecInstr::F32Ne => {
                    assert(instr_enc(v1) + e1 =~= seq![92u8] + (e1));
                    assert(instr_enc(v2) + e2 =~= seq![92u8] + (e2));
                    lemma_concat_cancel(seq![92u8], e1, seq![92u8], e2);
                    assert(e1 == e2);
                    assert(v1 == v2);
                },
                _ => {
                    assert(false);
                },
            }
        },
        SpecInstr::F32Lt => {
            match v2 {
                SpecInstr::F32Lt => {
                    assert(instr_enc(v1) + e1 =~= seq![93u8] + (e1));
                    assert(instr_enc(v2) + e2 =~= seq![93u8] + (e2));
                    lemma_concat_cancel(seq![93u8], e1, seq![93u8], e2);
                    assert(e1 == e2);
                    assert(v1 == v2);
                },
                _ => {
                    assert(false);
                },
            }
        },
        SpecInstr::F32Gt => {
            match v2 {
                SpecInstr::F32Gt => {
                    assert(instr_enc(v1) + e1 =~= seq![94u8] + (e1));
                    assert(instr_enc(v2) + e2 =~= seq![94u8] + (e2));
                    lemma_concat_cancel(seq![94u8], e1, seq![94u8], e2);
                    assert(e1 == e2);
                    assert(v1 == v2);
                },
                _ => {
                    assert(false);
                },
            }
        },
        SpecInstr::F32Le => {
            match v2 {
                SpecInstr::F32Le => {
                    assert(instr_enc(v1) + e1 =~= seq![95u8] + (e1));
                    assert(instr_enc(v2) + e2 =~= seq![95u8] + (e2));
                    lemma_concat_cancel(seq![95u8], e1, seq![95u8], e2);
                    assert(e1 == e2);
                    assert(v1 == v2);
                },
                _ => {
                    assert(false);
                },
            }
        },
        SpecInstr::F32Ge => {
            match v2 {
                SpecInstr::F32Ge => {
                    assert(instr_enc(v1) + e1 =~= seq![96u8] + (e1));
                    assert(instr_enc(v2) + e2 =~= seq![96u8] + (e2));
                    lemma_concat_cancel(seq![96u8], e1, seq![96u8], e2);
                    assert(e1 == e2);
                    assert(v1 == v2);
                },
                _ => {
                    assert(false);
                },
            }
        },
        SpecInstr::F64Eq => {
            match v2 {
                SpecInstr::F64Eq => {
                    assert(instr_enc(v1) + e1 =~= seq![97u8] + (e1));
                    assert(instr_enc(v2) + e2 =~= seq![97u8] + (e2));
                    lemma_concat_cancel(seq![97u8], e1, seq![97u8], e2);
                    assert(e1 == e2);
                    assert(v1 == v2);
                },
                _ => {
                    assert(false);
                },
            }
        },
        SpecInstr::F64Ne => {
            match v2 {
                SpecInstr::F64Ne => {
                    assert(instr_enc(v1) + e1 =~= seq![98u8] + (e1));
                    assert(instr_enc(v2) + e2 =~= seq![98u8] + (e2));
                    lemma_concat_cancel(seq![98u8], e1, seq![98u8], e2);
                    assert(e1 == e2);
                    assert(v1 == v2);
                },
                _ => {
                    assert(false);
                },
            }
        },
        SpecInstr::F64Lt => {
            match v2 {
                SpecInstr::F64Lt => {
                    assert(instr_enc(v1) + e1 =~= seq![99u8] + (e1));
                    assert(instr_enc(v2) + e2 =~= seq![99u8] + (e2));
                    lemma_concat_cancel(seq![99u8], e1, seq![99u8], e2);
                    assert(e1 == e2);
                    assert(v1 == v2);
                },
                _ => {
                    assert(false);
                },
            }
        },
        SpecInstr::F64Gt => {
            match v2 {
                SpecInstr::F64Gt => {
                    assert(instr_enc(v1) + e1 =~= seq![100u8] + (e1));
                    assert(instr_enc(v2) + e2 =~= seq![100u8] + (e2));
                    lemma_concat_cancel(seq![100u8], e1, seq![100u8], e2);
                    assert(e1 == e2);
                    assert(v1 == v2);
                },
                _ => {
                    assert(false);
                },
            }
        },
        SpecInstr::F64Le => {
            match v2 {
                SpecInstr::F64Le => {
                    assert(instr_enc(v1) + e1 =~= seq![101u8] + (e1));
                    assert(instr_enc(v2) + e2 =~= seq![101u8] + (e2));
                    lemma_concat_cancel(seq![101u8], e1, seq![101u8], e2);
                    assert(e1 == e2);
                    assert(v1 == v2);
                },
                _ => {
                    assert(false);
                },
            }
        },
        SpecInstr::F64Ge => {
            match v2 {
                SpecInstr::F64Ge => {
                    assert(instr_enc(v1) + e1 =~= seq![102u8] + (e1));
                    assert(instr_enc(v2) + e2 =~= seq![102u8] + (e2));
                    lemma_concat_cancel(seq![102u8], e1, seq![102u8], e2);
                    assert(e1 == e2);
                    assert(v1 == v2);
                },
                _ => {
                    assert(false);
                },
            }
        },
        SpecInstr::I32Clz => {
            match v2 {
                SpecInstr::I32Clz => {
                    assert(instr_enc(v1) + e1 =~= seq![103u8] + (e1));
                    assert(instr_enc(v2) + e2 =~= seq![103u8] + (e2));
                    lemma_concat_cancel(seq![103u8], e1, seq![103u8], e2);
                    assert(e1 == e2);
                    assert(v1 == v2);
                },
                _ => {
                    assert(false);
                },
            }
        },
        SpecInstr::I32Ctz => {
            match v2 {
                SpecInstr::I32Ctz => {
                    assert(instr_enc(v1) + e1 =~= seq![104u8] + (e1));
                    assert(instr_enc(v2) + e2 =~= seq![104u8] + (e2));
                    lemma_concat_cancel(seq![104u8], e1, seq![104u8], e2);
                    assert(e1 == e2);
                    assert(v1 == v2);
                },
                _ => {
                    assert(false);
                },
            }
        },
        SpecInstr::I32Popcnt => {
            match v2 {
                SpecInstr::I32Popcnt => {
                    assert(instr_enc(v1) + e1 =~= seq![105u8] + (e1));
                    assert(instr_enc(v2) + e2 =~= seq![105u8] + (e2));
                    lemma_concat_cancel(seq![105u8], e1, seq![105u8], e2);
                    assert(e1 == e2);
                    assert(v1 == v2);
                },
                _ => {
                    assert(false);
                },
            }
        },
        SpecInstr::I32Add => {
            match v2 {
                SpecInstr::I32Add => {
                    assert(instr_enc(v1) + e1 =~= seq![106u8] + (e1));
                    assert(instr_enc(v2) + e2 =~= seq![106u8] + (e2));
                    lemma_concat_cancel(seq![106u8], e1, seq![106u8], e2);
                    assert(e1 == e2);
                    assert(v1 == v2);
                },
                _ => {
                    assert(false);
                },
            }
        },
        SpecInstr::I32Sub => {
            match v2 {
                SpecInstr::I32Sub => {
                    assert(instr_enc(v1) + e1 =~= seq![107u8] + (e1));
                    assert(instr_enc(v2) + e2 =~= seq![107u8] + (e2));
                    lemma_concat_cancel(seq![107u8], e1, seq![107u8], e2);
                    assert(e1 == e2);
                    assert(v1 == v2);
                },
                _ => {
                    assert(false);
                },
            }
        },
        SpecInstr::I32Mul => {
            match v2 {
                SpecInstr::I32Mul => {
                    assert(instr_enc(v1) + e1 =~= seq![108u8] + (e1));
                    assert(instr_enc(v2) + e2 =~= seq![108u8] + (e2));
                    lemma_concat_cancel(seq![108u8], e1, seq![108u8], e2);
                    assert(e1 == e2);
                    assert(v1 == v2);
                },
                _ => {
                    assert(false);
                },
            }
        },
        SpecInstr::I32DivS => {
            match v2 {
                SpecInstr::I32DivS => {
                    assert(instr_enc(v1) + e1 =~= seq![109u8] + (e1));
                    assert(instr_enc(v2) + e2 =~= seq![109u8] + (e2));
                    lemma_concat_cancel(seq![109u8], e1, seq![109u8], e2);
                    assert(e1 == e2);
                    assert(v1 == v2);
                },
                _ => {
                    assert(false);
                },
            }
        },
        SpecInstr::I32DivU => {
            match v2 {
                SpecInstr::I32DivU => {
                    assert(instr_enc(v1) + e1 =~= seq![110u8] + (e1));
                    assert(instr_enc(v2) + e2 =~= seq![110u8] + (e2));
                    lemma_concat_cancel(seq![110u8], e1, seq![110u8], e2);
                    assert(e1 == e2);
                    assert(v1 == v2);
                },
                _ => {
                    assert(false);
                },
            }
        },
        SpecInstr::I32RemS => {
            match v2 {
                SpecInstr::I32RemS => {
                    assert(instr_enc(v1) + e1 =~= seq![111u8] + (e1));
                    assert(instr_enc(v2) + e2 =~= seq![111u8] + (e2));
                    lemma_concat_cancel(seq![111u8], e1, seq![111u8], e2);
                    assert(e1 == e2);
                    assert(v1 == v2);
                },
                _ => {
                    assert(false);
                },
            }
        },
        SpecInstr::I32RemU => {
            match v2 {
                SpecInstr::I32RemU => {
                    assert(instr_enc(v1) + e1 =~= seq![112u8] + (e1));
                    assert(instr_enc(v2) + e2 =~= seq![112u8] + (e2));
                    lemma_concat_cancel(seq![112u8], e1, seq![112u8], e2);
                    assert(e1 == e2);
                    assert(v1 == v2);
                },
                _ => {
                    assert(false);
                },
            }
        },
        SpecInstr::I32And => {
            match v2 {
                SpecInstr::I32And => {
                    assert(instr_enc(v1) + e1 =~= seq![113u8] + (e1));
                    assert(instr_enc(v2) + e2 =~= seq![113u8] + (e2));
                    lemma_concat_cancel(seq![113u8], e1, seq![113u8], e2);
                    assert(e1 == e2);
                    assert(v1 == v2);
                },
                _ => {
                    assert(false);
                },
            }
        },
        SpecInstr::I32Or => {
            match v2 {
                SpecInstr::I32Or => {
                    assert(instr_enc(v1) + e1 =~= seq![114u8] + (e1));
                    assert(instr_enc(v2) + e2 =~= seq![114u8] + (e2));
                    lemma_concat_cancel(seq![114u8], e1, seq![114u8], e2);
                    assert(e1 == e2);
                    assert(v1 == v2);
                },
                _ => {
                    assert(false);
                },
            }
        },
        SpecInstr::I32Xor => {
            match v2 {
                SpecInstr::I32Xor => {
                    assert(instr_enc(v1) + e1 =~= seq![115u8] + (e1));
                    assert(instr_enc(v2) + e2 =~= seq![115u8] + (e2));
                    lemma_concat_cancel(seq![115u8], e1, seq![115u8], e2);
                    assert(e1 == e2);
                    assert(v1 == v2);
                },
                _ => {
                    assert(false);
                },
            }
        },
        SpecInstr::I32Shl => {
            match v2 {
                SpecInstr::I32Shl => {
                    assert(instr_enc(v1) + e1 =~= seq![116u8] + (e1));
                    assert(instr_enc(v2) + e2 =~= seq![116u8] + (e2));
                    lemma_concat_cancel(seq![116u8], e1, seq![116u8], e2);
                    assert(e1 == e2);
                    assert(v1 == v2);
                },
                _ => {
                    assert(false);
                },
            }
        },
        SpecInstr::I32ShrS => {
            match v2 {
                SpecInstr::I32ShrS => {
                    assert(instr_enc(v1) + e1 =~= seq![117u8] + (e1));
                    assert(instr_enc(v2) + e2 =~= seq![117u8] + (e2));
                    lemma_concat_cancel(seq![117u8], e1, seq![117u8], e2);
                    assert(e1 == e2);
                    assert(v1 == v2);
                },
                _ => {
                    assert(false);
                },
            }
        },
        SpecInstr::I32ShrU => {
            match v2 {
                SpecInstr::I32ShrU => {
                    assert(instr_enc(v1) + e1 =~= seq![118u8] + (e1));
                    assert(instr_enc(v2) + e2 =~= seq![118u8] + (e2));
                    lemma_concat_cancel(seq![118u8], e1, seq![118u8], e2);
                    assert(e1 == e2);
                    assert(v1 == v2);
                },
                _ => {
                    assert(false);
                },
            }
        },
        SpecInstr::I32Rotl => {
            match v2 {
                SpecInstr::I32Rotl => {
                    assert(instr_enc(v1) + e1 =~= seq![119u8] + (e1));
                    assert(instr_enc(v2) + e2 =~= seq![119u8] + (e2));
                    lemma_concat_cancel(seq![119u8], e1, seq![119u8], e2);
                    assert(e1 == e2);
                    assert(v1 == v2);
                },
                _ => {
                    assert(false);
                },
            }
        },
        SpecInstr::I32Rotr => {
            match v2 {
                SpecInstr::I32Rotr => {
                    assert(instr_enc(v1) + e1 =~= seq![120u8] + (e1));
                    assert(instr_enc(v2) + e2 =~= seq![120u8] + (e2));
                    lemma_concat_cancel(seq![120u8], e1, seq![120u8], e2);
                    assert(e1 == e2);
                    assert(v1 == v2);
                },
                _ => {
                    assert(false);
                },
            }
        },
        SpecInstr::I64Clz => {
            match v2 {
                SpecInstr::I64Clz => {
                    assert(instr_enc(v1) + e1 =~= seq![121u8] + (e1));
                    assert(instr_enc(v2) + e2 =~= seq![121u8] + (e2));
                    lemma_concat_cancel(seq![121u8], e1, seq![121u8], e2);
                    assert(e1 == e2);
                    assert(v1 == v2);
                },
                _ => {
                    assert(false);
                },
            }
        },
        SpecInstr::I64Ctz => {
            match v2 {
                SpecInstr::I64Ctz => {
                    assert(instr_enc(v1) + e1 =~= seq![122u8] + (e1));
                    assert(instr_enc(v2) + e2 =~= seq![122u8] + (e2));
                    lemma_concat_cancel(seq![122u8], e1, seq![122u8], e2);
                    assert(e1 == e2);
                    assert(v1 == v2);
                },
                _ => {
                    assert(false);
                },
            }
        },
        SpecInstr::I64Popcnt => {
            match v2 {
                SpecInstr::I64Popcnt => {
                    assert(instr_enc(v1) + e1 =~= seq![123u8] + (e1));
                    assert(instr_enc(v2) + e2 =~= seq![123u8] + (e2));
                    lemma_concat_cancel(seq![123u8], e1, seq![123u8], e2);
                    assert(e1 == e2);
                    assert(v1 == v2);
                },
                _ => {
                    assert(false);
                },
            }
        },
        SpecInstr::I64Add => {
            match v2 {
                SpecInstr::I64Add => {
                    assert(instr_enc(v1) + e1 =~= seq![124u8] + (e1));
                    assert(instr_enc(v2) + e2 =~= seq![124u8] + (e2));
                    lemma_concat_cancel(seq![124u8], e1, seq![124u8], e2);
                    assert(e1 == e2);
                    assert(v1 == v2);
                },
                _ => {
                    assert(false);
                },
            }
        },
        SpecInstr::I64Sub => {
            match v2 {
                SpecInstr::I64Sub => {
                    assert(instr_enc(v1) + e1 =~= seq![125u8] + (e1));
                    assert(instr_enc(v2) + e2 =~= seq![125u8] + (e2));
                    lemma_concat_cancel(seq![125u8], e1, seq![125u8], e2);
                    assert(e1 == e2);
                    assert(v1 == v2);
                },
                _ => {
                    assert(false);
                },
            }
        },
        SpecInstr::I64Mul => {
            match v2 {
                SpecInstr::I64Mul => {
                    assert(instr_enc(v1) + e1 =~= seq![126u8] + (e1));
                    assert(instr_enc(v2) + e2 =~= seq![126u8] + (e2));
                    lemma_concat_cancel(seq![126u8], e1, seq![126u8], e2);
                    assert(e1 == e2);
                    assert(v1 == v2);
                },
                _ => {
                    assert(false);
                },
            }
        },
        SpecInstr::I64DivS => {
            match v2 {
                SpecInstr::I64DivS => {
                    assert(instr_enc(v1) + e1 =~= seq![127u8] + (e1));
                    assert(instr_enc(v2) + e2 =~= seq![127u8] + (e2));
                    lemma_concat_cancel(seq![127u8], e1, seq![127u8], e2);
                    assert(e1 == e2);
                    assert(v1 == v2);
                },
                _ => {
                    assert(false);
                },
            }
        },
        SpecInstr::I64DivU => {
            match v2 {
                SpecInstr::I64DivU => {
                    assert(instr_enc(v1) + e1 =~= seq![128u8] + (e1));
                    assert(instr_enc(v2) + e2 =~= seq![128u8] + (e2));
                    lemma_concat_cancel(seq![128u8], e1, seq![128u8], e2);
                    assert(e1 == e2);
                    assert(v1 == v2);
                },
                _ => {
                    assert(false);
                },
            }
        },
        SpecInstr::I64RemS => {
            match v2 {
                SpecInstr::I64RemS => {
                    assert(instr_enc(v1) + e1 =~= seq![129u8] + (e1));
                    assert(instr_enc(v2) + e2 =~= seq![129u8] + (e2));
                    lemma_concat_cancel(seq![129u8], e1, seq![129u8], e2);
                    assert(e1 == e2);
                    assert(v1 == v2);
                },
                _ => {
                    assert(false);
                },
            }
        },
        SpecInstr::I64RemU => {
            match v2 {
                SpecInstr::I64RemU => {
                    assert(instr_enc(v1) + e1 =~= seq![130u8] + (e1));
                    assert(instr_enc(v2) + e2 =~= seq![130u8] + (e2));
                    lemma_concat_cancel(seq![130u8], e1, seq![130u8], e2);
                    assert(e1 == e2);
                    assert(v1 == v2);
                },
                _ => {
                    assert(false);
                },
            }
        },
        SpecInstr::I64And => {
            match v2 {
                SpecInstr::I64And => {
                    assert(instr_enc(v1) + e1 =~= seq![131u8] + (e1));
                    assert(instr_enc(v2) + e2 =~= seq![131u8] + (e2));
                    lemma_concat_cancel(seq![131u8], e1, seq![131u8], e2);
                    assert(e1 == e2);
                    assert(v1 == v2);
                },
                _ => {
                    assert(false);
                },
            }
        },
        SpecInstr::I64Or => {
            match v2 {
                SpecInstr::I64Or => {
                    assert(instr_enc(v1) + e1 =~= seq![132u8] + (e1));
                    assert(instr_enc(v2) + e2 =~= seq![132u8] + (e2));
                    lemma_concat_cancel(seq![132u8], e1, seq![132u8], e2);
                    assert(e1 == e2);
                    assert(v1 == v2);
                },
                _ => {
                    assert(false);
                },
            }
        },
        SpecInstr::I64Xor => {
            match v2 {
                SpecInstr::I64Xor => {
                    assert(instr_enc(v1) + e1 =~= seq![133u8] + (e1));
                    assert(instr_enc(v2) + e2 =~= seq![133u8] + (e2));
                    lemma_concat_cancel(seq![133u8], e1, seq![133u8], e2);
                    assert(e1 == e2);
                    assert(v1 == v2);
                },
                _ => {
                    assert(false);
                },
            }
        },
        SpecInstr::I64Shl => {
            match v2 {
                SpecInstr::I64Shl => {
                    assert(instr_enc(v1) + e1 =~= seq![134u8] + (e1));
                    assert(instr_enc(v2) + e2 =~= seq![134u8] + (e2));
                    lemma_concat_cancel(seq![134u8], e1, seq![134u8], e2);
                    assert(e1 == e2);
                    assert(v1 == v2);
                },
                _ => {
                    assert(false);
                },
            }
        },
        SpecInstr::I64ShrS => {
            match v2 {
                SpecInstr::I64ShrS => {
                    assert(instr_enc(v1) + e1 =~= seq![135u8] + (e1));
                    assert(instr_enc(v2) + e2 =~= seq![135u8] + (e2));
                    lemma_concat_cancel(seq![135u8], e1, seq![135u8], e2);
                    assert(e1 == e2);
                    assert(v1 == v2);
                },
                _ => {
                    assert(false);
                },
            }
        },
        SpecInstr::I64ShrU => {
            match v2 {
                SpecInstr::I64ShrU => {
                    assert(instr_enc(v1) + e1 =~= seq![136u8] + (e1));
                    assert(instr_enc(v2) + e2 =~= seq![136u8] + (e2));
                    lemma_concat_cancel(seq![136u8], e1, seq![136u8], e2);
                    assert(e1 == e2);
                    assert(v1 == v2);
                },
                _ => {
                    assert(false);
                },
            }
        },
        SpecInstr::I64Rotl => {
            match v2 {
                SpecInstr::I64Rotl => {
                    assert(instr_enc(v1) + e1 =~= seq![137u8] + (e1));
                    assert(instr_enc(v2) + e2 =~= seq![137u8] + (e2));
                    lemma_concat_cancel(seq![137u8], e1, seq![137u8], e2);
                    assert(e1 == e2);
                    assert(v1 == v2);
                },
                _ => {
                    assert(false);
                },
            }
        },
        SpecInstr::I64Rotr => {
            match v2 {
                SpecInstr::I64Rotr => {
                    assert(instr_enc(v1) + e1 =~= seq![138u8] + (e1));
                    assert(instr_enc(v2) + e2 =~= seq![138u8] + (e2));
                    lemma_concat_cancel(seq![138u8], e1, seq![138u8], e2);
                    assert(e1 == e2);
                    assert(v1 == v2);
                },
                _ => {
                    assert(false);
                },
            }
        },
        SpecInstr::F32Abs => {
            match v2 {
                SpecInstr::F32Abs => {
                    assert(instr_enc(v1) + e1 =~= seq![139u8] + (e1));
                    assert(instr_enc(v2) + e2 =~= seq![139u8] + (e2));
                    lemma_concat_cancel(seq![139u8], e1, seq![139u8], e2);
                    assert(e1 == e2);
                    assert(v1 == v2);
                },
                _ => {
                    assert(false);
                },
            }
        },
        SpecInstr::F32Neg => {
            match v2 {
                SpecInstr::F32Neg => {
                    assert(instr_enc(v1) + e1 =~= seq![140u8] + (e1));
                    assert(instr_enc(v2) + e2 =~= seq![140u8] + (e2));
                    lemma_concat_cancel(seq![140u8], e1, seq![140u8], e2);
                    assert(e1 == e2);
                    assert(v1 == v2);
                },
                _ => {
                    assert(false);
                },
            }
        },
        SpecInstr::F32Ceil => {
            match v2 {
                SpecInstr::F32Ceil => {
                    assert(instr_enc(v1) + e1 =~= seq![141u8] + (e1));
                    assert(instr_enc(v2) + e2 =~= seq![141u8] + (e2));
                    lemma_concat_cancel(seq![141u8], e1, seq![141u8], e2);
                    assert(e1 == e2);
                    assert(v1 == v2);
                },
                _ => {
                    assert(false);
                },
            }
        },
        SpecInstr::F32Floor => {
            match v2 {
                SpecInstr::F32Floor => {
                    assert(instr_enc(v1) + e1 =~= seq![142u8] + (e1));
                    assert(instr_enc(v2) + e2 =~= seq![142u8] + (e2));
                    lemma_concat_cancel(seq![142u8], e1, seq![142u8], e2);
                    assert(e1 == e2);
                    assert(v1 == v2);
                },
                _ => {
                    assert(false);
                },
            }
        },
        SpecInstr::F32Trunc => {
            match v2 {
                SpecInstr::F32Trunc => {
                    assert(instr_enc(v1) + e1 =~= seq![143u8] + (e1));
                    assert(instr_enc(v2) + e2 =~= seq![143u8] + (e2));
                    lemma_concat_cancel(seq![143u8], e1, seq![143u8], e2);
                    assert(e1 == e2);
                    assert(v1 == v2);
                },
                _ => {
                    assert(false);
                },
            }
        },
        SpecInstr::F32Nearest => {
            match v2 {
                SpecInstr::F32Nearest => {
                    assert(instr_enc(v1) + e1 =~= seq![144u8] + (e1));
                    assert(instr_enc(v2) + e2 =~= seq![144u8] + (e2));
                    lemma_concat_cancel(seq![144u8], e1, seq![144u8], e2);
                    assert(e1 == e2);
                    assert(v1 == v2);
                },
                _ => {
                    assert(false);
                },
            }
        },
        SpecInstr::F32Sqrt => {
            match v2 {
                SpecInstr::F32Sqrt => {
                    assert(instr_enc(v1) + e1 =~= seq![145u8] + (e1));
                    assert(instr_enc(v2) + e2 =~= seq![145u8] + (e2));
                    lemma_concat_cancel(seq![145u8], e1, seq![145u8], e2);
                    assert(e1 == e2);
                    assert(v1 == v2);
                },
                _ => {
                    assert(false);
                },
            }
        },
        SpecInstr::F32Add => {
            match v2 {
                SpecInstr::F32Add => {
                    assert(instr_enc(v1) + e1 =~= seq![146u8] + (e1));
                    assert(instr_enc(v2) + e2 =~= seq![146u8] + (e2));
                    lemma_concat_cancel(seq![146u8], e1, seq![146u8], e2);
                    assert(e1 == e2);
                    assert(v1 == v2);
                },
                _ => {
                    assert(false);
                },
            }
        },
        SpecInstr::F32Sub => {
            match v2 {
                SpecInstr::F32Sub => {
                    assert(instr_enc(v1) + e1 =~= seq![147u8] + (e1));
                    assert(instr_enc(v2) + e2 =~= seq![147u8] + (e2));
                    lemma_concat_cancel(seq![147u8], e1, seq![147u8], e2);
                    assert(e1 == e2);
                    assert(v1 == v2);
                },
                _ => {
                    assert(false);
                },
            }
        },
        SpecInstr::F32Mul => {
            match v2 {
                SpecInstr::F32Mul => {
                    assert(instr_enc(v1) + e1 =~= seq![148u8] + (e1));
                    assert(instr_enc(v2) + e2 =~= seq![148u8] + (e2));
                    lemma_concat_cancel(seq![148u8], e1, seq![148u8], e2);
                    assert(e1 == e2);
                    assert(v1 == v2);
                },
                _ => {
                    assert(false);
                },
            }
        },
        SpecInstr::F32Div => {
            match v2 {
                SpecInstr::F32Div => {
                    assert(instr_enc(v1) + e1 =~= seq![149u8] + (e1));
                    assert(instr_enc(v2) + e2 =~= seq![149u8] + (e2));
                    lemma_concat_cancel(seq![149u8], e1, seq![149u8], e2);
                    assert(e1 == e2);
                    assert(v1 == v2);
                },
                _ => {
                    assert(false);
                },
            }
        },
        SpecInstr::F32Min => {
            match v2 {
                SpecInstr::F32Min => {
                    assert(instr_enc(v1) + e1 =~= seq![150u8] + (e1));
                    assert(instr_enc(v2) + e2 =~= seq![150u8] + (e2));
                    lemma_concat_cancel(seq![150u8], e1, seq![150u8], e2);
                    assert(e1 == e2);
                    assert(v1 == v2);
                },
                _ => {
                    assert(false);
                },
            }
        },
        SpecInstr::F32Max => {
            match v2 {
                SpecInstr::F32Max => {
                    assert(instr_enc(v1) + e1 =~= seq![151u8] + (e1));
                    assert(instr_enc(v2) + e2 =~= seq![151u8] + (e2));
                    lemma_concat_cancel(seq![151u8], e1, seq![151u8], e2);
                    assert(e1 == e2);
                    assert(v1 == v2);
                },
                _ => {
                    assert(false);
                },
            }
        },
        SpecInstr::F32Copysign => {
            match v2 {
                SpecInstr::F32Copysign => {
                    assert(instr_enc(v1) + e1 =~= seq![152u8] + (e1));
                    assert(instr_enc(v2) + e2 =~= seq![152u8] + (e2));
                    lemma_concat_cancel(seq![152u8], e1, seq![152u8], e2);
                    assert(e1 == e2);
                    assert(v1 == v2);
                },
                _ => {
                    assert(false);
                },
            }
        },
        SpecInstr::F64Abs => {
            match v2 {
                SpecInstr::F64Abs => {
                    assert(instr_enc(v1) + e1 =~= seq![153u8] + (e1));
                    assert(instr_enc(v2) + e2 =~= seq![153u8] + (e2));
                    lemma_concat_cancel(seq![153u8], e1, seq![153u8], e2);
                    assert(e1 == e2);
                    assert(v1 == v2);
                },
                _ => {
                    assert(false);
                },
            }
        },
        SpecInstr::F64Neg => {
            match v2 {
                SpecInstr::F64Neg => {
                    assert(instr_enc(v1) + e1 =~= seq![154u8] + (e1));
                    assert(instr_enc(v2) + e2 =~= seq![154u8] + (e2));
                    lemma_concat_cancel(seq![154u8], e1, seq![154u8], e2);
                    assert(e1 == e2);
                    assert(v1 == v2);
                },
                _ => {
                    assert(false);
                },
            }
        },
        SpecInstr::F64Ceil => {
            match v2 {
                SpecInstr::F64Ceil => {
                    assert(instr_enc(v1) + e1 =~= seq![155u8] + (e1));
                    assert(instr_enc(v2) + e2 =~= seq![155u8] + (e2));
                    lemma_concat_cancel(seq![155u8], e1, seq![155u8], e2);
                    assert(e1 == e2);
                    assert(v1 == v2);
                },
                _ => {
                    assert(false);
                },
            }
        },
        SpecInstr::F64Floor => {
            match v2 {
                SpecInstr::F64Floor => {
                    assert(instr_enc(v1) + e1 =~= seq![156u8] + (e1));
                    assert(instr_enc(v2) + e2 =~= seq![156u8] + (e2));
                    lemma_concat_cancel(seq![156u8], e1, seq![156u8], e2);
                    assert(e1 == e2);
                    assert(v1 == v2);
                },
                _ => {
                    assert(false);
                },
            }
        },
        SpecInstr::F64Trunc => {
            match v2 {
                SpecInstr::F64Trunc => {
                    assert(instr_enc(v1) + e1 =~= seq![157u8] + (e1));
                    assert(instr_enc(v2) + e2 =~= seq![157u8] + (e2));
                    lemma_concat_cancel(seq![157u8], e1, seq![157u8], e2);
                    assert(e1 == e2);
                    assert(v1 == v2);
                },
                _ => {
                    assert(false);
                },
            }
        },
        SpecInstr::F64Nearest => {
            match v2 {
                SpecInstr::F64Nearest => {
                    assert(instr_enc(v1) + e1 =~= seq![158u8] + (e1));
                    assert(instr_enc(v2) + e2 =~= seq![158u8] + (e2));
                    lemma_concat_cancel(seq![158u8], e1, seq![158u8], e2);
                    assert(e1 == e2);
                    assert(v1 == v2);
                },
                _ => {
                    assert(false);
                },
            }
        },
        SpecInstr::F64Sqrt => {
            match v2 {
                SpecInstr::F64Sqrt => {
                    assert(instr_enc(v1) + e1 =~= seq![159u8] + (e1));
                    assert(instr_enc(v2) + e2 =~= seq![159u8] + (e2));
                    lemma_concat_cancel(seq![159u8], e1, seq![159u8], e2);
                    assert(e1 == e2);
                    assert(v1 == v2);
                },
                _ => {
                    assert(false);
                },
            }
        },
        SpecInstr::F64Add => {
            match v2 {
                SpecInstr::F64Add => {
                    assert(instr_enc(v1) + e1 =~= seq![160u8] + (e1));
                    assert(instr_enc(v2) + e2 =~= seq![160u8] + (e2));
                    lemma_concat_cancel(seq![160u8], e1, seq![160u8], e2);
                    assert(e1 == e2);
                    assert(v1 == v2);
                },
                _ => {
                    assert(false);
                },
            }
        },
        SpecInstr::F64Sub => {
            match v2 {
                SpecInstr::F64Sub => {
                    assert(instr_enc(v1) + e1 =~= seq![161u8] + (e1));
                    assert(instr_enc(v2) + e2 =~= seq![161u8] + (e2));
                    lemma_concat_cancel(seq![161u8], e1, seq![161u8], e2);
                    assert(e1 == e2);
                    assert(v1 == v2);
                },
                _ => {
                    assert(false);
                },
            }
        },
        SpecInstr::F64Mul => {
            match v2 {
                SpecInstr::F64Mul => {
                    assert(instr_enc(v1) + e1 =~= seq![162u8] + (e1));
                    assert(instr_enc(v2) + e2 =~= seq![162u8] + (e2));
                    lemma_concat_cancel(seq![162u8], e1, seq![162u8], e2);
                    assert(e1 == e2);
                    assert(v1 == v2);
                },
                _ => {
                    assert(false);
                },
            }
        },
        SpecInstr::F64Div => {
            match v2 {
                SpecInstr::F64Div => {
                    assert(instr_enc(v1) + e1 =~= seq![163u8] + (e1));
                    assert(instr_enc(v2) + e2 =~= seq![163u8] + (e2));
                    lemma_concat_cancel(seq![163u8], e1, seq![163u8], e2);
                    assert(e1 == e2);
                    assert(v1 == v2);
                },
                _ => {
                    assert(false);
                },
            }
        },
        SpecInstr::F64Min => {
            match v2 {
                SpecInstr::F64Min => {
                    assert(instr_enc(v1) + e1 =~= seq![164u8] + (e1));
                    assert(instr_enc(v2) + e2 =~= seq![164u8] + (e2));
                    lemma_concat_cancel(seq![164u8], e1, seq![164u8], e2);
                    assert(e1 == e2);
                    assert(v1 == v2);
                },
                _ => {
                    assert(false);
                },
            }
        },
        SpecInstr::F64Max => {
            match v2 {
                SpecInstr::F64Max => {
                    assert(instr_enc(v1) + e1 =~= seq![165u8] + (e1));
                    assert(instr_enc(v2) + e2 =~= seq![165u8] + (e2));
                    lemma_concat_cancel(seq![165u8], e1, seq![165u8], e2);
                    assert(e1 == e2);
                    assert(v1 == v2);
                },
                _ => {
                    assert(false);
                },
            }
        },
        SpecInstr::F64Copysign => {
            match v2 {
                SpecInstr::F64Copysign => {
                    assert(instr_enc(v1) + e1 =~= seq![166u8] + (e1));
                    assert(instr_enc(v2) + e2 =~= seq![166u8] + (e2));
                    lemma_concat_cancel(seq![166u8], e1, seq![166u8], e2);
                    assert(e1 == e2);
                    assert(v1 == v2);
                },
                _ => {
                    assert(false);
                },
            }
        },
        SpecInstr::I32WrapI64 => {
            match v2 {
                SpecInstr::I32WrapI64 => {
                    assert(instr_enc(v1) + e1 =~= seq![167u8] + (e1));
                    assert(instr_enc(v2) + e2 =~= seq![167u8] + (e2));
                    lemma_concat_cancel(seq![167u8], e1, seq![167u8], e2);
                    assert(e1 == e2);
                    assert(v1 == v2);
                },
                _ => {
                    assert(false);
                },
            }
        },
        SpecInstr::I32TruncF32S => {
            match v2 {
                SpecInstr::I32TruncF32S => {
                    assert(instr_enc(v1) + e1 =~= seq![168u8] + (e1));
                    assert(instr_enc(v2) + e2 =~= seq![168u8] + (e2));
                    lemma_concat_cancel(seq![168u8], e1, seq![168u8], e2);
                    assert(e1 == e2);
                    assert(v1 == v2);
                },
                _ => {
                    assert(false);
                },
            }
        },
        SpecInstr::I32TruncF32U => {
            match v2 {
                SpecInstr::I32TruncF32U => {
                    assert(instr_enc(v1) + e1 =~= seq![169u8] + (e1));
                    assert(instr_enc(v2) + e2 =~= seq![169u8] + (e2));
                    lemma_concat_cancel(seq![169u8], e1, seq![169u8], e2);
                    assert(e1 == e2);
                    assert(v1 == v2);
                },
                _ => {
                    assert(false);
                },
            }
        },
        SpecInstr::I32TruncF64S => {
            match v2 {
                SpecInstr::I32TruncF64S => {
                    assert(instr_enc(v1) + e1 =~= seq![170u8] + (e1));
                    assert(instr_enc(v2) + e2 =~= seq![170u8] + (e2));
                    lemma_concat_cancel(seq![170u8], e1, seq![170u8], e2);
                    assert(e1 == e2);
                    assert(v1 == v2);
                },
                _ => {
                    assert(false);
                },
            }
        },
        SpecInstr::I32TruncF64U => {
            match v2 {
                SpecInstr::I32TruncF64U => {
                    assert(instr_enc(v1) + e1 =~= seq![171u8] + (e1));
                    assert(instr_enc(v2) + e2 =~= seq![171u8] + (e2));
                    lemma_concat_cancel(seq![171u8], e1, seq![171u8], e2);
                    assert(e1 == e2);
                    assert(v1 == v2);
                },
                _ => {
                    assert(false);
                },
            }
        },
        SpecInstr::I64ExtendI32S => {
            match v2 {
                SpecInstr::I64ExtendI32S => {
                    assert(instr_enc(v1) + e1 =~= seq![172u8] + (e1));
                    assert(instr_enc(v2) + e2 =~= seq![172u8] + (e2));
                    lemma_concat_cancel(seq![172u8], e1, seq![172u8], e2);
                    assert(e1 == e2);
                    assert(v1 == v2);
                },
                _ => {
                    assert(false);
                },
            }
        },
        SpecInstr::I64ExtendI32U => {
            match v2 {
                SpecInstr::I64ExtendI32U => {
                    assert(instr_enc(v1) + e1 =~= seq![173u8] + (e1));
                    assert(instr_enc(v2) + e2 =~= seq![173u8] + (e2));
                    lemma_concat_cancel(seq![173u8], e1, seq![173u8], e2);
                    assert(e1 == e2);
                    assert(v1 == v2);
                },
                _ => {
                    assert(false);
                },
            }
        },
        SpecInstr::I64TruncF32S => {
            match v2 {
                SpecInstr::I64TruncF32S => {
                    assert(instr_enc(v1) + e1 =~= seq![174u8] + (e1));
                    assert(instr_enc(v2) + e2 =~= seq![174u8] + (e2));
                    lemma_concat_cancel(seq![174u8], e1, seq![174u8], e2);
                    assert(e1 == e2);
                    assert(v1 == v2);
                },
                _ => {
                    assert(false);
                },
            }
        },
        SpecInstr::I64TruncF32U => {
            match v2 {
                SpecInstr::I64TruncF32U => {
                    assert(instr_enc(v1) + e1 =~= seq![175u8] + (e1));
                    assert(instr_enc(v2) + e2 =~= seq![175u8] + (e2));
                    lemma_concat_cancel(seq![175u8], e1, seq![175u8], e2);
                    assert(e1 == e2);
                    assert(v1 == v2);
                },
                _ => {
                    assert(false);
                },
            }
        },
        SpecInstr::I64TruncF64S => {
            match v2 {
                SpecInstr::I64TruncF64S => {
                    assert(instr_enc(v1) + e1 =~= seq![176u8] + (e1));
                    assert(instr_enc(v2) + e2 =~= seq![176u8] + (e2));
                    lemma_concat_cancel(seq![176u8], e1, seq![176u8], e2);
                    assert(e1 == e2);
                    assert(v1 == v2);
                },
                _ => {
                    assert(false);
                },
            }
        },
        SpecInstr::I64TruncF64U => {
            match v2 {
                SpecInstr::I64TruncF64U => {
                    assert(instr_enc(v1) + e1 =~= seq![177u8] + (e1));
                    assert(instr_enc(v2) + e2 =~= seq![177u8] + (e2));
                    lemma_concat_cancel(seq![177u8], e1, seq![177u8], e2);
                    assert(e1 == e2);
                    assert(v1 == v2);
                },
                _ => {
                    assert(false);
                },
            }
        },
        SpecInstr::F32ConvertI32S => {
            match v2 {
                SpecInstr::F32ConvertI32S => {
                    assert(instr_enc(v1) + e1 =~= seq![178u8] + (e1));
                    assert(instr_enc(v2) + e2 =~= seq![178u8] + (e2));
                    lemma_concat_cancel(seq![178u8], e1, seq![178u8], e2);
                    assert(e1 == e2);
                    assert(v1 == v2);
                },
                _ => {
                    assert(false);
                },
            }
        },
        SpecInstr::F32ConvertI32U => {
            match v2 {
                SpecInstr::F32ConvertI32U => {
                    assert(instr_enc(v1) + e1 =~= seq![179u8] + (e1));
                    assert(instr_enc(v2) + e2 =~= seq![179u8] + (e2));
                    lemma_concat_cancel(seq![179u8], e1, seq![179u8], e2);
                    assert(e1 == e2);
                    assert(v1 == v2);
                },
                _ => {
                    assert(false);
                },
            }
        },
        SpecInstr::F32ConvertI64S => {
            match v2 {
                SpecInstr::F32ConvertI64S => {
                    assert(instr_enc(v1) + e1 =~= seq![180u8] + (e1));
                    assert(instr_enc(v2) + e2 =~= seq![180u8] + (e2));
                    lemma_concat_cancel(seq![180u8], e1, seq![180u8], e2);
                    assert(e1 == e2);
                    assert(v1 == v2);
                },
                _ => {
                    assert(false);
                },
            }
        },
        SpecInstr::F32ConvertI64U => {
            match v2 {
                SpecInstr::F32ConvertI64U => {
                    assert(instr_enc(v1) + e1 =~= seq![181u8] + (e1));
                    assert(instr_enc(v2) + e2 =~= seq![181u8] + (e2));
                    lemma_concat_cancel(seq![181u8], e1, seq![181u8], e2);
                    assert(e1 == e2);
                    assert(v1 == v2);
                },
                _ => {
                    assert(false);
                },
            }
        },
        SpecInstr::F32DemoteF64 => {
            match v2 {
                SpecInstr::F32DemoteF64 => {
                    assert(instr_enc(v1) + e1 =~= seq![182u8] + (e1));
                    assert(instr_enc(v2) + e2 =~= seq![182u8] + (e2));
                    lemma_concat_cancel(seq![182u8], e1, seq![182u8], e2);
                    assert(e1 == e2);
                    assert(v1 == v2);
                },
                _ => {
                    assert(false);
                },
            }
        },
        SpecInstr::F64ConvertI32S => {
            match v2 {
                SpecInstr::F64ConvertI32S => {
                    assert(instr_enc(v1) + e1 =~= seq![183u8] + (e1));
                    assert(instr_enc(v2) + e2 =~= seq![183u8] + (e2));
                    lemma_concat_cancel(seq![183u8], e1, seq![183u8], e2);
                    assert(e1 == e2);
                    assert(v1 == v2);
                },
                _ => {
                    assert(false);
                },
            }
        },
        SpecInstr::F64ConvertI32U => {
            match v2 {
                SpecInstr::F64ConvertI32U => {
                    assert(instr_enc(v1) + e1 =~= seq![184u8] + (e1));
                    assert(instr_enc(v2) + e2 =~= seq![184u8] + (e2));
                    lemma_concat_cancel(seq![184u8], e1, seq![184u8], e2);
                    assert(e1 == e2);
                    assert(v1 == v2);
                },
                _ => {
                    assert(false);
                },
            }
        },
        SpecInstr::F64ConvertI64S => {
            match v2 {
                SpecInstr::F64ConvertI64S => {
                    assert(instr_enc(v1) + e1 =~= seq![185u8] + (e1));
                    assert(instr_enc(v2) + e2 =~= seq![185u8] + (e2));
                    lemma_concat_cancel(seq![185u8], e1, seq![185u8], e2);
                    assert(e1 == e2);
                    assert(v1 == v2);
                },
                _ => {
                    assert(false);
                },
            }
        },
        SpecInstr::F64ConvertI64U => {
            match v2 {
                SpecInstr::F64ConvertI64U => {
                    assert(instr_enc(v1) + e1 =~= seq![186u8] + (e1));
                    assert(instr_enc(v2) + e2 =~= seq![186u8] + (e2));
                    lemma_concat_cancel(seq![186u8], e1, seq![186u8], e2);
                    assert(e1 == e2);
                    assert(v1 == v2);
                },
                _ => {
                    assert(false);
                },
            }
        },
        SpecInstr::F64PromoteF32 => {
            match v2 {
                SpecInstr::F64PromoteF32 => {
                    assert(instr_enc(v1) + e1 =~= seq![187u8] + (e1));
                    assert(instr_enc(v2) + e2 =~= seq![187u8] + (e2));
                    lemma_concat_cancel(seq![187u8], e1, seq![187u8], e2);
                    assert(e1 == e2);
                    assert(v1 == v2);
                },
                _ => {
                    assert(false);
                },
            }
        },
        SpecInstr::I32ReinterpretF32 => {
            match v2 {
                SpecInstr::I32ReinterpretF32 => {
                    assert(instr_enc(v1) + e1 =~= seq![188u8] + (e1));
                    assert(instr_enc(v2) + e2 =~= seq![188u8] + (e2));
                    lemma_concat_cancel(seq![188u8], e1, seq![188u8], e2);
                    assert(e1 == e2);
                    assert(v1 == v2);
                },
                _ => {
                    assert(false);
                },
            }
        },
        SpecInstr::I64ReinterpretF64 => {
            match v2 {
                SpecInstr::I64ReinterpretF64 => {
                    assert(instr_enc(v1) + e1 =~= seq![189u8] + (e1));
                    assert(instr_enc(v2) + e2 =~= seq![189u8] + (e2));
                    lemma_concat_cancel(seq![189u8], e1, seq![189u8], e2);
                    assert(e1 == e2);
                    assert(v1 == v2);
                },
                _ => {
                    assert(false);
                },
            }
        },
        SpecInstr::F32ReinterpretI32 => {
            match v2 {
                SpecInstr::F32ReinterpretI32 => {
                    assert(instr_enc(v1) + e1 =~= seq![190u8] + (e1));
                    assert(instr_enc(v2) + e2 =~= seq![190u8] + (e2));
                    lemma_concat_cancel(seq![190u8], e1, seq![190u8], e2);
                    assert(e1 == e2);
                    assert(v1 == v2);
                },
                _ => {
                    assert(false);
                },
            }
        },
        SpecInstr::F64ReinterpretI64 => {
            match v2 {
                SpecInstr::F64ReinterpretI64 => {
                    assert(instr_enc(v1) + e1 =~= seq![191u8] + (e1));
                    assert(instr_enc(v2) + e2 =~= seq![191u8] + (e2));
                    lemma_concat_cancel(seq![191u8], e1, seq![191u8], e2);
                    assert(e1 == e2);
                    assert(v1 == v2);
                },
                _ => {
                    assert(false);
                },
            }
        },
        SpecInstr::I32Extend8S => {
            match v2 {
                SpecInstr::I32Extend8S => {
                    assert(instr_enc(v1) + e1 =~= seq![192u8] + (e1));
                    assert(instr_enc(v2) + e2 =~= seq![192u8] + (e2));
                    lemma_concat_cancel(seq![192u8], e1, seq![192u8], e2);
                    assert(e1 == e2);
                    assert(v1 == v2);
                },
                _ => {
                    assert(false);
                },
            }
        },
        SpecInstr::I32Extend16S => {
            match v2 {
                SpecInstr::I32Extend16S => {
                    assert(instr_enc(v1) + e1 =~= seq![193u8] + (e1));
                    assert(instr_enc(v2) + e2 =~= seq![193u8] + (e2));
                    lemma_concat_cancel(seq![193u8], e1, seq![193u8], e2);
                    assert(e1 == e2);
                    assert(v1 == v2);
                },
                _ => {
                    assert(false);
                },
            }
        },
        SpecInstr::I64Extend8S => {
            match v2 {
                SpecInstr::I64Extend8S => {
                    assert(instr_enc(v1) + e1 =~= seq![194u8] + (e1));
                    assert(instr_enc(v2) + e2 =~= seq![194u8] + (e2));
                    lemma_concat_cancel(seq![194u8], e1, seq![194u8], e2);
                    assert(e1 == e2);
                    assert(v1 == v2);
                },
                _ => {
                    assert(false);
                },
            }
        },
        SpecInstr::I64Extend16S => {
            match v2 {
                SpecInstr::I64Extend16S => {
                    assert(instr_enc(v1) + e1 =~= seq![195u8] + (e1));
                    assert(instr_enc(v2) + e2 =~= seq![195u8] + (e2));
                    lemma_concat_cancel(seq![195u8], e1, seq![195u8], e2);
                    assert(e1 == e2);
                    assert(v1 == v2);
                },
                _ => {
                    assert(false);
                },
            }
        },
        SpecInstr::I64Extend32S => {
            match v2 {
                SpecInstr::I64Extend32S => {
                    assert(instr_enc(v1) + e1 =~= seq![196u8] + (e1));
                    assert(instr_enc(v2) + e2 =~= seq![196u8] + (e2));
                    lemma_concat_cancel(seq![196u8], e1, seq![196u8], e2);
                    assert(e1 == e2);
                    assert(v1 == v2);
                },
                _ => {
                    assert(false);
                },
            }
        },
        _ => {
            assert(false);
        },
    }
}

/// Unambiguity of the mem instruction group.
#[verifier::rlimit(100)]
proof fn lemma_instr_unamb_mem(v1: SpecInstr, v2: SpecInstr, e1: Seq<u8>, e2: Seq<u8>)
    requires
        instr_wf(v1),
        instr_wf(v2),
        instr_enc(v1) + e1 == instr_enc(v2) + e2,
        instr_op(v1) == instr_op(v2),
        instr_op(v1) == 0xFC ==> instr_fc_sub(v1) == instr_fc_sub(v2),
        0x28 <= instr_op(v1) <= 0x3E,
    ensures
        v1 == v2,
        e1 == e2,
    decreases v1, 0int,
{
    match v1 {
        SpecInstr::I32Load(a0) => {
            match v2 {
                SpecInstr::I32Load(b0) => {
                    assert(instr_enc(v1) + e1 =~= seq![40u8] + (<MemArg as Encode>::spec_enc(a0) + (e1)));
                    assert(instr_enc(v2) + e2 =~= seq![40u8] + (<MemArg as Encode>::spec_enc(b0) + (e2)));
                    lemma_concat_cancel(seq![40u8], <MemArg as Encode>::spec_enc(a0) + (e1), seq![40u8], <MemArg as Encode>::spec_enc(b0) + (e2));
                    <MemArg as Decode>::lemma_plain(e1);
                    <MemArg as Decode>::lemma_plain(e2);
                    <MemArg as Decode>::lemma_unamb(a0, b0, e1, e2);
                    assert(e1 == e2);
                    assert(a0 == b0);
                    assert(v1 == v2);
                },
                _ => {
                    assert(false);
                },
            }
        },
        SpecInstr::I64Load(a0) => {
            match v2 {
                SpecInstr::I64Load(b0) => {
                    assert(instr_enc(v1) + e1 =~= seq![41u8] + (<MemArg as Encode>::spec_enc(a0) + (e1)));
                    assert(instr_enc(v2) + e2 =~= seq![41u8] + (<MemArg as Encode>::spec_enc(b0) + (e2)));
                    lemma_concat_cancel(seq![41u8], <MemArg as Encode>::spec_enc(a0) + (e1), seq![41u8], <MemArg as Encode>::spec_enc(b0) + (e2));
                    <MemArg as Decode>::lemma_plain(e1);
                    <MemArg as Decode>::lemma_plain(e2);
                    <MemArg as Decode>::lemma_unamb(a0, b0, e1, e2);
                    assert(e1 == e2);
                    assert(a0 == b0);
                    assert(v1 == v2);
                },
                _ => {
                    assert(false);
                },
            }
        },
        SpecInstr::F32Load(a0) => {
            match v2 {
                SpecInstr::F32Load(b0) => {
                    assert(instr_enc(v1) + e1 =~= seq![42u8] + (<MemArg as Encode>::spec_enc(a0) + (e1)));
                    assert(instr_enc(v2) + e2 =~= seq![42u8] + (<MemArg as Encode>::spec_enc(b0) + (e2)));
                    lemma_concat_cancel(seq![42u8], <MemArg as Encode>::spec_enc(a0) + (e1), seq![42u8], <MemArg as Encode>::spec_enc(b0) + (e2));
                    <MemArg as Decode>::lemma_plain(e1);
                    <MemArg as Decode>::lemma_plain(e2);
                    <MemArg as Decode>::lemma_unamb(a0, b0, e1, e2);
                    assert(e1 == e2);
                    assert(a0 == b0);
                    assert(v1 == v2);
                },
                _ => {
                    assert(false);
                },
            }
        },
        SpecInstr::F64Load(a0) => {
            match v2 {
                SpecInstr::F64Load(b0) => {
                    assert(instr_enc(v1) + e1 =~= seq![43u8] + (<MemArg as Encode>::spec_enc(a0) + (e1)));
                    assert(instr_enc(v2) + e2 =~= seq![43u8] + (<MemArg as Encode>::spec_enc(b0) + (e2)));
                    lemma_concat_cancel(seq![43u8], <MemArg as Encode>::spec_enc(a0) + (e1), seq![43u8], <MemArg as Encode>::spec_enc(b0) + (e2));
                    <MemArg as Decode>::lemma_plain(e1);
                    <MemArg as Decode>::lemma_plain(e2);
                    <MemArg as Decode>::lemma_unamb(a0, b0, e1, e2);
                    assert(e1 == e2);
                    assert(a0 == b0);
                    assert(v1 == v2);
                },
                _ => {
                    assert(false);
                },
            }
        },
        SpecInstr::I32Load8S(a0) => {
            match v2 {
                SpecInstr::I32Load8S(b0) => {
                    assert(instr_enc(v1) + e1 =~= seq![44u8] + (<MemArg as Encode>::spec_enc(a0) + (e1)));
                    assert(instr_enc(v2) + e2 =~= seq![44u8] + (<MemArg as Encode>::spec_enc(b0) + (e2)));
                    lemma_concat_cancel(seq![44u8], <MemArg as Encode>::spec_enc(a0) + (e1), seq![44u8], <MemArg as Encode>::spec_enc(b0) + (e2));
                    <MemArg as Decode>::lemma_plain(e1);
                    <MemArg as Decode>::lemma_plain(e2);
                    <MemArg as Decode>::lemma_unamb(a0, b0, e1, e2);
                    assert(e1 == e2);
                    assert(a0 == b0);
                    assert(v1 == v2);
                },
                _ => {
                    assert(false);
                },
            }
        },
        SpecInstr::I32Load8U(a0) => {
            match v2 {
                SpecInstr::I32Load8U(b0) => {
                    assert(instr_enc(v1) + e1 =~= seq![45u8] + (<MemArg as Encode>::spec_enc(a0) + (e1)));
                    assert(instr_enc(v2) + e2 =~= seq![45u8] + (<MemArg as Encode>::spec_enc(b0) + (e2)));
                    lemma_concat_cancel(seq![45u8], <MemArg as Encode>::spec_enc(a0) + (e1), seq![45u8], <MemArg as Encode>::spec_enc(b0) + (e2));
                    <MemArg as Decode>::lemma_plain(e1);
                    <MemArg as Decode>::lemma_plain(e2);
                    <MemArg as Decode>::lemma_unamb(a0, b0, e1, e2);
                    assert(e1 == e2);
                    assert(a0 == b0);
                    assert(v1 == v2);
                },
                _ => {
                    assert(false);
                },
            }
        },
        SpecInstr::I32Load16S(a0) => {
            match v2 {
                SpecInstr::I32Load16S(b0) => {
                    assert(instr_enc(v1) + e1 =~= seq![46u8] + (<MemArg as Encode>::spec_enc(a0) + (e1)));
                    assert(instr_enc(v2) + e2 =~= seq![46u8] + (<MemArg as Encode>::spec_enc(b0) + (e2)));
                    lemma_concat_cancel(seq![46u8], <MemArg as Encode>::spec_enc(a0) + (e1), seq![46u8], <MemArg as Encode>::spec_enc(b0) + (e2));
                    <MemArg as Decode>::lemma_plain(e1);
                    <MemArg as Decode>::lemma_plain(e2);
                    <MemArg as Decode>::lemma_unamb(a0, b0, e1, e2);
                    assert(e1 == e2);
                    assert(a0 == b0);
                    assert(v1 == v2);
                },
                _ => {
                    assert(false);
                },
            }
        },
        SpecInstr::I32Load16U(a0) => {
            match v2 {
                SpecInstr::I32Load16U(b0) => {
                    assert(instr_enc(v1) + e1 =~= seq![47u8] + (<MemArg as Encode>::spec_enc(a0) + (e1)));
                    assert(instr_enc(v2) + e2 =~= seq![47u8] + (<MemArg as Encode>::spec_enc(b0) + (e2)));
                    lemma_concat_cancel(seq![47u8], <MemArg as Encode>::spec_enc(a0) + (e1), seq![47u8], <MemArg as Encode>::spec_enc(b0) + (e2));
                    <MemArg as Decode>::lemma_plain(e1);
                    <MemArg as Decode>::lemma_plain(e2);
                    <MemArg as Decode>::lemma_unamb(a0, b0, e1, e2);
                    assert(e1 == e2);
                    assert(a0 == b0);
                    assert(v1 == v2);
                },
                _ => {
                    assert(false);
                },
            }
        },
        SpecInstr::I64Load8S(a0) => {
            match v2 {
                SpecInstr::I64Load8S(b0) => {
                    assert(instr_enc(v1) + e1 =~= seq![48u8] + (<MemArg as Encode>::spec_enc(a0) + (e1)));
                    assert(instr_enc(v2) + e2 =~= seq![48u8] + (<MemArg as Encode>::spec_enc(b0) + (e2)));
                    lemma_concat_cancel(seq![48u8], <MemArg as Encode>::spec_enc(a0) + (e1), seq![48u8], <MemArg as Encode>::spec_enc(b0) + (e2));
                    <MemArg as Decode>::lemma_plain(e1);
                    <MemArg as Decode>::lemma_plain(e2);
                    <MemArg as Decode>::lemma_unamb(a0, b0, e1, e2);
                    assert(e1 == e2);
                    assert(a0 == b0);
                    assert(v1 == v2);
                },
                _ => {
                    assert(false);
                },
            }
        },
        SpecInstr::I64Load8U(a0) => {
            match v2 {
                SpecInstr::I64Load8U(b0) => {
                    assert(instr_enc(v1) + e1 =~= seq![49u8] + (<MemArg as Encode>::spec_enc(a0) + (e1)));
                    assert(instr_enc(v2) + e2 =~= seq![49u8] + (<MemArg as Encode>::spec_enc(b0) + (e2)));
                    lemma_concat_cancel(seq![49u8], <MemArg as Encode>::spec_enc(a0) + (e1), seq![49u8], <MemArg as Encode>::spec_enc(b0) + (e2));
                    <MemArg as Decode>::lemma_plain(e1);
                    <MemArg as Decode>::lemma_plain(e2);
                    <MemArg as Decode>::lemma_unamb(a0, b0, e1, e2);
                    assert(e1 == e2);
                    assert(a0 == b0);
                    assert(v1 == v2);
                },
                _ => {
                    assert(false);
                },
            }
        },
        SpecInstr::I64Load16S(a0) => {
            match v2 {
                SpecInstr::I64Load16S(b0) => {
                    assert(instr_enc(v1) + e1 =~= seq![50u8] + (<MemArg as Encode>::spec_enc(a0) + (e1)));
                    assert(instr_enc(v2) + e2 =~= seq![50u8] + (<MemArg as Encode>::spec_enc(b0) + (e2)));
                    lemma_concat_cancel(seq![50u8], <MemArg as Encode>::spec_enc(a0) + (e1), seq![50u8], <MemArg as Encode>::spec_enc(b0) + (e2));
                    <MemArg as Decode>::lemma_plain(e1);
                    <MemArg as Decode>::lemma_plain(e2);
                    <MemArg as Decode>::lemma_unamb(a0, b0, e1, e2);
                    assert(e1 == e2);
                    assert(a0 == b0);
                    assert(v1 == v2);
                },
                _ => {
                    assert(false);
                },
            }
        },
        SpecInstr::I64Load16U(a0) => {
            match v2 {
                SpecInstr::I64Load16U(b0) => {
                    assert(instr_enc(v1) + e1 =~= seq![51u8] + (<MemArg as Encode>::spec_enc(a0) + (e1)));
                    assert(instr_enc(v2) + e2 =~= seq![51u8] + (<MemArg as Encode>::spec_enc(b0) + (e2)));
                    lemma_concat_cancel(seq![51u8], <MemArg as Encode>::spec_enc(a0) + (e1), seq![51u8], <MemArg as Encode>::spec_enc(b0) + (e2));
                    <MemArg as Decode>::lemma_plain(e1);
                    <MemArg as Decode>::lemma_plain(e2);
                    <MemArg as Decode>::lemma_unamb(a0, b0, e1, e2);
                    assert(e1 == e2);
                    assert(a0 == b0);
                    assert(v1 == v2);
                },
                _ => {
                    assert(false);
                },
            }
        },
        SpecInstr::I64Load32S(a0) => {
            match v2 {
                SpecInstr::I64Load32S(b0) => {
                    assert(instr_enc(v1) + e1 =~= seq![52u8] + (<MemArg as Encode>::spec_enc(a0) + (e1)));
                    assert(instr_enc(v2) + e2 =~= seq![52u8] + (<MemArg as Encode>::spec_enc(b0) + (e2)));
                    lemma_concat_cancel(seq![52u8], <MemArg as Encode>::spec_enc(a0) + (e1), seq![52u8], <MemArg as Encode>::spec_enc(b0) + (e2));
                    <MemArg as Decode>::lemma_plain(e1);
                    <MemArg as Decode>::lemma_plain(e2);
                    <MemArg as Decode>::lemma_unamb(a0, b0, e1, e2);
                    assert(e1 == e2);
                    assert(a0 == b0);
                    assert(v1 == v2);
                },
                _ => {
                    assert(false);
                },
            }
        },
        SpecInstr::I64Load32U(a0) => {
            match v2 {
                SpecInstr::I64Load32U(b0) => {
                    assert(instr_enc(v1) + e1 =~= seq![53u8] + (<MemArg as Encode>::spec_enc(a0) + (e1)));
                    assert(instr_enc(v2) + e2 =~= seq![53u8] + (<MemArg as Encode>::spec_enc(b0) + (e2)));
                    lemma_concat_cancel(seq![53u8], <MemArg as Encode>::spec_enc(a0) + (e1), seq![53u8], <MemArg as Encode>::spec_enc(b0) + (e2));
                    <MemArg as Decode>::lemma_plain(e1);
                    <MemArg as Decode>::lemma_plain(e2);
                    <MemArg as Decode>::lemma_unamb(a0, b0, e1, e2);
                    assert(e1 == e2);
                    assert(a0 == b0);
                    assert(v1 == v2);
                },
                _ => {
                    assert(false);
                },
            }
        },
        SpecInstr::I32Store(a0) => {
            match v2 {
                SpecInstr::I32Store(b0) => {
                    assert(instr_enc(v1) + e1 =~= seq![54u8] + (<MemArg as Encode>::spec_enc(a0) + (e1)));
                    assert(instr_enc(v2) + e2 =~= seq![54u8] + (<MemArg as Encode>::spec_enc(b0) + (e2)));
                    lemma_concat_cancel(seq![54u8], <MemArg as Encode>::spec_enc(a0) + (e1), seq![54u8], <MemArg as Encode>::spec_enc(b0) + (e2));
                    <MemArg as Decode>::lemma_plain(e1);
                    <MemArg as Decode>::lemma_plain(e2);
                    <MemArg as Decode>::lemma_unamb(a0, b0, e1, e2);
                    assert(e1 == e2);
                    assert(a0 == b0);
                    assert(v1 == v2);
                },
                _ => {
                    assert(false);
                },
            }
        },
        SpecInstr::I64Store(a0) => {
            match v2 {
                SpecInstr::I64Store(b0) => {
                    assert(instr_enc(v1) + e1 =~= seq![55u8] + (<MemArg as Encode>::spec_enc(a0) + (e1)));
                    assert(instr_enc(v2) + e2 =~= seq![55u8] + (<MemArg as Encode>::spec_enc(b0) + (e2)));
                    lemma_concat_cancel(seq![55u8], <MemArg as Encode>::spec_enc(a0) + (e1), seq![55u8], <MemArg as Encode>::spec_enc(b0) + (e2));
                    <MemArg as Decode>::lemma_plain(e1);
                    <MemArg as Decode>::lemma_plain(e2);
                    <MemArg as Decode>::lemma_unamb(a0, b0, e1, e2);
                    assert(e1 == e2);
                    assert(a0 == b0);
                    assert(v1 == v2);
                },
                _ => {
                    assert(false);
                },
            }
        },
        SpecInstr::F32Store(a0) => {
            match v2 {
                SpecInstr::F32Store(b0) => {
                    assert(instr_enc(v1) + e1 =~= seq![56u8] + (<MemArg as Encode>::spec_enc(a0) + (e1)));
                    assert(instr_enc(v2) + e2 =~= seq![56u8] + (<MemArg as Encode>::spec_enc(b0) + (e2)));
                    lemma_concat_cancel(seq![56u8], <MemArg as Encode>::spec_enc(a0) + (e1), seq![56u8], <MemArg as Encode>::spec_enc(b0) + (e2));
                    <MemArg as Decode>::lemma_plain(e1);
                    <MemArg as Decode>::lemma_plain(e2);
                    <MemArg as Decode>::lemma_unamb(a0, b0, e1, e2);
                    assert(e1 == e2);
                    assert(a0 == b0);
                    assert(v1 == v2);
                },
                _ => {
                    assert(false);
                },
            }
        },
        SpecInstr::F64Store(a0) => {
            match v2 {
                SpecInstr::F64Store(b0) => {
                    assert(instr_enc(v1) + e1 =~= seq![57u8] + (<MemArg as Encode>::spec_enc(a0) + (e1)));
                    assert(instr_enc(v2) + e2 =~= seq![57u8] + (<MemArg as Encode>::spec_enc(b0) + (e2)));
                    lemma_concat_cancel(seq![57u8], <MemArg as Encode>::spec_enc(a0) + (e1), seq![57u8], <MemArg as Encode>::spec_enc(b0) + (e2));
                    <MemArg as Decode>::lemma_plain(e1);
                    <MemArg as Decode>::lemma_plain(e2);
                    <MemArg as Decode>::lemma_unamb(a0, b0, e1, e2);
                    assert(e1 == e2);
                    assert(a0 == b0);
                    assert(v1 == v2);
                },
                _ => {
                    assert(false);
                },
            }
        },
        SpecInstr::I32Store8(a0) => {
            match v2 {
                SpecInstr::I32Store8(b0) => {
                    assert(instr_enc(v1) + e1 =~= seq![58u8] + (<MemArg as Encode>::spec_enc(a0) + (e1)));
                    assert(instr_enc(v2) + e2 =~= seq![58u8] + (<MemArg as Encode>::spec_enc(b0) + (e2)));
                    lemma_concat_cancel(seq![58u8], <MemArg as Encode>::spec_enc(a0) + (e1), seq![58u8], <MemArg as Encode>::spec_enc(b0) + (e2));
                    <MemArg as Decode>::lemma_plain(e1);
                    <MemArg as Decode>::lemma_plain(e2);
                    <MemArg as Decode>::lemma_unamb(a0, b0, e1, e2);
                    assert(e1 == e2);
                    assert(a0 == b0);
                    assert(v1 == v2);
                },
                _ => {
                    assert(false);
                },
            }
        },
        SpecInstr::I32Store16(a0) => {
            match v2 {
                SpecInstr::I32Store16(b0) => {
                    assert(instr_enc(v1) + e1 =~= seq![59u8] + (<MemArg as Encode>::spec_enc(a0) + (e1)));
                    assert(instr_enc(v2) + e2 =~= seq![59u8] + (<MemArg as Encode>::spec_enc(b0) + (e2)));
                    lemma_concat_cancel(seq![59u8], <MemArg as Encode>::spec_enc(a0) + (e1), seq![59u8], <MemArg as Encode>::spec_enc(b0) + (e2));
                    <MemArg as Decode>::lemma_plain(e1);
                    <MemArg as Decode>::lemma_plain(e2);
                    <MemArg as Decode>::lemma_unamb(a0, b0, e1, e2);
                    assert(e1 == e2);
                    assert(a0 == b0);
                    assert(v1 == v2);
                },
                _ => {
                    assert(false);
                },
            }
        },
        SpecInstr::I64Store8(a0) => {
            match v2 {
                SpecInstr::I64Store8(b0) => {
                    assert(instr_enc(v1) + e1 =~= seq![60u8] + (<MemArg as Encode>::spec_enc(a0) + (e1)));
                    assert(instr_enc(v2) + e2 =~= seq![60u8] + (<MemArg as Encode>::spec_enc(b0) + (e2)));
                    lemma_concat_cancel(seq![60u8], <MemArg as Encode>::spec_enc(a0) + (e1), seq![60u8], <MemArg as Encode>::spec_enc(b0) + (e2));
                    <MemArg as Decode>::lemma_plain(e1);
                    <MemArg as Decode>::lemma_plain(e2);
                    <MemArg as Decode>::lemma_unamb(a0, b0, e1, e2);
                    assert(e1 == e2);
                    assert(a0 == b0);
                    assert(v1 == v2);
                },
                _ => {
                    assert(false);
                },
            }
        },
        SpecInstr::I64Store16(a0) => {
            match v2 {
                SpecInstr::I64Store16(b0) => {
                    assert(instr_enc(v1) + e1 =~= seq![61u8] + (<MemArg as Encode>::spec_enc(a0) + (e1)));
                    assert(instr_enc(v2) + e2 =~= seq![61u8] + (<MemArg as Encode>::spec_enc(b0) + (e2)));
                    lemma_concat_cancel(seq![61u8], <MemArg as Encode>::spec_enc(a0) + (e1), seq![61u8], <MemArg as Encode>::spec_enc(b0) + (e2));
                    <MemArg as Decode>::lemma_plain(e1);
                    <MemArg as Decode>::lemma_plain(e2);
                    <MemArg as Decode>::lemma_unamb(a0, b0, e1, e2);
                    assert(e1 == e2);
                    assert(a0 == b0);
                    assert(v1 == v2);
                },
                _ => {
                    assert(false);
                },
            }
        },
        SpecInstr::I64Store32(a0) => {
            match v2 {
                SpecInstr::I64Store32(b0) => {
                    assert(instr_enc(v1) + e1 =~= seq![62u8] + (<MemArg as Encode>::spec_enc(a0) + (e1)));
                    assert(instr_enc(v2) + e2 =~= seq![62u8] + (<MemArg as Encode>::spec_enc(b0) + (e2)));
                    lemma_concat_cancel(seq![62u8], <MemArg as Encode>::spec_enc(a0) + (e1), seq![62u8], <MemArg as Encode>::spec_enc(b0) + (e2));
                    <MemArg as Decode>::lemma_plain(e1);
                    <MemArg as Decode>::lemma_plain(e2);
                    <MemArg as Decode>::lemma_unamb(a0, b0, e1, e2);
                    assert(e1 == e2);
                    assert(a0 == b0);
                    assert(v1 == v2);
                },
                _ => {
                    assert(false);
                },
            }
        },
        _ => {
            assert(false);
        },
    }
}

/// Unambiguity of the fc instruction group.
#[verifier::rlimit(100)]
proof fn lemma_instr_unamb_fc(v1: SpecInstr, v2: SpecInstr, e1: Seq<u8>, e2: Seq<u8>)
    requires
        instr_wf(v1),
        instr_wf(v2),
        instr_enc(v1) + e1 == instr_enc(v2) + e2,
        instr_op(v1) == instr_op(v2),
        instr_op(v1) == 0xFC ==> instr_fc_sub(v1) == instr_fc_sub(v2),
        instr_op(v1) == 0xFC,
    ensures
        v1 == v2,
        e1 == e2,
    decreases v1, 0int,
{
    match v1 {
        SpecInstr::TableInit(a0, a1) => {
            match v2 {
                SpecInstr::TableInit(b0, b1) => {
                    assert(instr_enc(v1) + e1 =~= seq![252u8] + (uleb(12 as nat) + (<ElemIdx as Encode>::spec_enc(a0) + (<TableIdx as Encode>::spec_enc(a1) + (e1)))));
                    assert(instr_enc(v2) + e2 =~= seq![252u8] + (uleb(12 as nat) + (<ElemIdx as Encode>::spec_enc(b0) + (<TableIdx as Encode>::spec_enc(b1) + (e2)))));
                    lemma_concat_cancel(seq![252u8], uleb(12 as nat) + (<ElemIdx as Encode>::spec_enc(a0) + (<TableIdx as Encode>::spec_enc(a1) + (e1))), seq![252u8], uleb(12 as nat) + (<ElemIdx as Encode>::spec_enc(b0) + (<TableIdx as Encode>::spec_enc(b1) + (e2))));
                    lemma_concat_cancel(uleb(12 as nat), <ElemIdx as Encode>::spec_enc(a0) + (<TableIdx as Encode>::spec_enc(a1) + (e1)), uleb(12 as nat), <ElemIdx as Encode>::spec_enc(b0) + (<TableIdx as Encode>::spec_enc(b1) + (e2)));
                    <ElemIdx as Decode>::lemma_plain(<TableIdx as Encode>::spec_enc(a1) + (e1));
                    <ElemIdx as Decode>::lemma_plain(<TableIdx as Encode>::spec_enc(b1) + (e2));
                    <ElemIdx as Decode>::lemma_unamb(a0, b0, <TableIdx as Encode>::spec_enc(a1) + (e1), <TableIdx as Encode>::spec_enc(b1) + (e2));
                    <TableIdx as Decode>::lemma_plain(e1);
                    <TableIdx as Decode>::lemma_plain(e2);
                    <TableIdx as Decode>::lemma_unamb(a1, b1, e1, e2);
                    assert(e1 == e2);
                    assert(a0 == b0 && a1 == b1);
                    assert(v1 == v2);
                },
                _ => {
                    assert(false);
                },
            }
        },
        SpecInstr::ElemDrop(a0) => {
            match v2 {
                SpecInstr::ElemDrop(b0) => {
                    assert(instr_enc(v1) + e1 =~= seq![252u8] + (uleb(13 as nat) + (<ElemIdx as Encode>::spec_enc(a0) + (e1))));
                    assert(instr_enc(v2) + e2 =~= seq![252u8] + (uleb(13 as nat) + (<ElemIdx as Encode>::spec_enc(b0) + (e2))));
                    lemma_concat_cancel(seq![252u8], uleb(13 as nat) + (<ElemIdx as Encode>::spec_enc(a0) + (e1)), seq![252u8], uleb(13 as nat) + (<ElemIdx as Encode>::spec_enc(b0) + (e2)));
                    lemma_concat_cancel(uleb(13 as nat), <ElemIdx as Encode>::spec_enc(a0) + (e1), uleb(13 as nat), <ElemIdx as Encode>::spec_enc(b0) + (e2));
                    <ElemIdx as Decode>::lemma_plain(e1);
                    <ElemIdx as Decode>::lemma_plain(e2);
                    <ElemIdx as Decode>::lemma_unamb(a0, b0, e1, e2);
                    assert(e1 == e2);
                    assert(a0 == b0);
                    assert(v1 == v2);
                },
                _ => {
                    assert(false);
                },
            }
        },
        SpecInstr::TableCopy(a0, a1) => {
            match v2 {
                SpecInstr::TableCopy(b0, b1) => {
                    assert(instr_enc(v1) + e1 =~= seq![252u8] + (uleb(14 as nat) + (<TableIdx as Encode>::spec_enc(a0) + (<TableIdx as Encode>::spec_enc(a1) + (e1)))));
                    assert(instr_enc(v2) + e2 =~= seq![252u8] + (uleb(14 as nat) + (<TableIdx as Encode>::spec_enc(b0) + (<TableIdx as Encode>::spec_enc(b1) + (e2)))));
                    lemma_concat_cancel(seq![252u8], uleb(14 as nat) + (<TableIdx as Encode>::spec_enc(a0) + (<TableIdx as Encode>::spec_enc(a1) + (e1))), seq![252u8], uleb(14 as nat) + (<TableIdx as Encode>::spec_enc(b0) + (<TableIdx as Encode>::spec_enc(b1) + (e2))));
                    lemma_concat_cancel(uleb(14 as nat), <TableIdx as Encode>::spec_enc(a0) + (<TableIdx as Encode>::spec_enc(a1) + (e1)), uleb(14 as nat), <TableIdx as Encode>::spec_enc(b0) + (<TableIdx as Encode>::spec_enc(b1) + (e2)));
                    <TableIdx as Decode>::lemma_plain(<TableIdx as Encode>::spec_enc(a1) + (e1));
                    <TableIdx as Decode>::lemma_plain(<TableIdx as Encode>::spec_enc(b1) + (e2));
                    <TableIdx as Decode>::lemma_unamb(a0, b0, <TableIdx as Encode>::spec_enc(a1) + (e1), <TableIdx as Encode>::spec_enc(b1) + (e2));
                    <TableIdx as Decode>::lemma_plain(e1);
                    <TableIdx as Decode>::lemma_plain(e2);
                    <TableIdx as Decode>::lemma_unamb(a1, b1, e1, e2);
                    assert(e1 == e2);
                    assert(a0 == b0 && a1 == b1);
                    assert(v1 == v2);
                },
                _ => {
                    assert(false);
                },
            }
        },
        SpecInstr::TableGrow(a0) => {
            match v2 {
                SpecInstr::TableGrow(b0) => {
                    assert(instr_enc(v1) + e1 =~= seq![252u8] + (uleb(15 as nat) + (<TableIdx as Encode>::spec_enc(a0) + (e1))));
                    assert(instr_enc(v2) + e2 =~= seq![252u8] + (uleb(15 as nat) + (<TableIdx as Encode>::spec_enc(b0) + (e2))));
                    lemma_concat_cancel(seq![252u8], uleb(15 as nat) + (<TableIdx as Encode>::spec_enc(a0) + (e1)), seq![252u8], uleb(15 as nat) + (<TableIdx as Encode>::spec_enc(b0) + (e2)));
                    lemma_concat_cancel(uleb(15 as nat), <TableIdx as Encode>::spec_enc(a0) + (e1), uleb(15 as nat), <TableIdx as Encode>::spec_enc(b0) + (e2));
                    <TableIdx as Decode>::lemma_plain(e1);
                    <TableIdx as Decode>::lemma_plain(e2);
                    <TableIdx as Decode>::lemma_unamb(a0, b0, e1, e2);
                    assert(e1 == e2);
                    assert(a0 == b0);
                    assert(v1 == v2);
                },
                _ => {
                    assert(false);
                },
            }
        },
        SpecInstr::TableSize(a0) => {
            match v2 {
                SpecInstr::TableSize(b0) => {
                    assert(instr_enc(v1) + e1 =~= seq![252u8] + (uleb(16 as nat) + (<TableIdx as Encode>::spec_enc(a0) + (e1))));
                    assert(instr_enc(v2) + e2 =~= seq![252u8] + (uleb(16 as nat) + (<TableIdx as Encode>::spec_enc(b0) + (e2))));
                    lemma_concat_cancel(seq![252u8], uleb(16 as nat) + (<TableIdx as Encode>::spec_enc(a0) + (e1)), seq![252u8], uleb(16 as nat) + (<TableIdx as Encode>::spec_enc(b0) + (e2)));
                    lemma_concat_cancel(uleb(16 as nat), <TableIdx as Encode>::spec_enc(a0) + (e1), uleb(16 as nat), <TableIdx as Encode>::spec_enc(b0) + (e2));
                    <TableIdx as Decode>::lemma_plain(e1);
                    <TableIdx as Decode>::lemma_plain(e2);
                    <TableIdx as Decode>::lemma_unamb(a0, b0, e1, e2);
                    assert(e1 == e2);
                    assert(a0 == b0);
                    assert(v1 == v2);
                },
                _ => {
                    assert(false);
                },
            }
        },
        SpecInstr::TableFill(a0) => {
            match v2 {
                SpecInstr::TableFill(b0) => {
                    assert(instr_enc(v1) + e1 =~= seq![252u8] + (uleb(17 as nat) + (<TableIdx as Encode>::spec_enc(a0) + (e1))));
                    assert(instr_enc(v2) + e2 =~= seq![252u8] + (uleb(17 as nat) + (<TableIdx as Encode>::spec_enc(b0) + (e2))));
                    lemma_concat_cancel(seq![252u8], uleb(17 as nat) + (<TableIdx as Encode>::spec_enc(a0) + (e1)), seq![252u8], uleb(17 as nat) + (<TableIdx as Encode>::spec_enc(b0) + (e2)));
                    lemma_concat_cancel(uleb(17 as nat), <TableIdx as Encode>::spec_enc(a0) + (e1), uleb(17 as nat), <TableIdx as Encode>::spec_enc(b0) + (e2));
                    <TableIdx as Decode>::lemma_plain(e1);
                    <TableIdx as Decode>::lemma_plain(e2);
                    <TableIdx as Decode>::lemma_unamb(a0, b0, e1, e2);
                    assert(e1 == e2);
                    assert(a0 == b0);
                    assert(v1 == v2);
                },
                _ => {
                    assert(false);
                },
            }
        },
        SpecInstr::MemoryInit(a0) => {
            match v2 {
                SpecInstr::MemoryInit(b0) => {
                    assert(instr_enc(v1) + e1 =~= seq![252u8] + (uleb(8 as nat) + (<DataIdx as Encode>::spec_enc(a0) + (seq![0u8] + (e1)))));
                    assert(instr_enc(v2) + e2 =~= seq![252u8] + (uleb(8 as nat) + (<DataIdx as Encode>::spec_enc(b0) + (seq![0u8] + (e2)))));
                    lemma_concat_cancel(seq![252u8], uleb(8 as nat) + (<DataIdx as Encode>::spec_enc(a0) + (seq![0u8] + (e1))), seq![252u8], uleb(8 as nat) + (<DataIdx as Encode>::spec_enc(b0) + (seq![0u8] + (e2))));
                    lemma_concat_cancel(uleb(8 as nat), <DataIdx as Encode>::spec_enc(a0) + (seq![0u8] + (e1)), uleb(8 as nat), <DataIdx as Encode>::spec_enc(b0) + (seq![0u8] + (e2)));
                    <DataIdx as Decode>::lemma_plain(seq![0u8] + (e1));
                    <DataIdx as Decode>::lemma_plain(seq![0u8] + (e2));
                    <DataIdx as Decode>::lemma_unamb(a0, b0, seq![0u8] + (e1), seq![0u8] + (e2));
                    lemma_concat_cancel(seq![0u8], e1, seq![0u8], e2);
                    assert(e1 == e2);
                    assert(a0 == b0);
                    assert(v1 == v2);
                },
                _ => {
                    assert(false);
                },
            }
        },
        SpecInstr::DataDrop(a0) => {
            match v2 {
                SpecInstr::DataDrop(b0) => {
                    assert(instr_enc(v1) + e1 =~= seq![252u8] + (uleb(9 as nat) + (<DataIdx as Encode>::spec_enc(a0) + (e1))));
                    assert(instr_enc(v2) + e2 =~= seq![252u8] + (uleb(9 as nat) + (<DataIdx as Encode>::spec_enc(b0) + (e2))));
                    lemma_concat_cancel(seq![252u8], uleb(9 as nat) + (<DataIdx as Encode>::spec_enc(a0) + (e1)), seq![252u8], uleb(9 as nat) + (<DataIdx as Encode>::spec_enc(b0) + (e2)));
                    lemma_concat_cancel(uleb(9 as nat), <DataIdx as Encode>::spec_enc(a0) + (e1), uleb(9 as nat), <DataIdx as Encode>::spec_enc(b0) + (e2));
                    <DataIdx as Decode>::lemma_plain(e1);
                    <DataIdx as Decode>::lemma_plain(e2);
                    <DataIdx as Decode>::lemma_unamb(a0, b0, e1, e2);
                    assert(e1 == e2);
                    assert(a0 == b0);
                    assert(v1 == v2);
                },
                _ => {
                    assert(false);
                },
            }
        },
        SpecInstr::MemoryCopy => {
            match v2 {
                SpecInstr::MemoryCopy => {
                    assert(instr_enc(v1) + e1 =~= seq![252u8] + (uleb(10 as nat) + (seq![0u8] + (seq![0u8] + (e1)))));
                    assert(instr_enc(v2) + e2 =~= seq![252u8] + (uleb(10 as nat) + (seq![0u8] + (seq![0u8] + (e2)))));
                    lemma_concat_cancel(seq![252u8], uleb(10 as nat) + (seq![0u8] + (seq![0u8] + (e1))), seq![252u8], uleb(10 as nat) + (seq![0u8] + (seq![0u8] + (e2))));
                    lemma_concat_cancel(uleb(10 as nat), seq![0u8] + (seq![0u8] + (e1)), uleb(10 as nat), seq![0u8] + (seq![0u8] + (e2)));
                    lemma_concat_cancel(seq![0u8], seq![0u8] + (e1), seq![0u8], seq![0u8] + (e2));
                    lemma_concat_cancel(seq![0u8], e1, seq![0u8], e2);
                    assert(e1 == e2);
                    assert(v1 == v2);
                },
                _ => {
                    assert(false);
                },
            }
        },
        SpecInstr::MemoryFill => {
            match v2 {
                SpecInstr::MemoryFill => {
                    assert(instr_enc(v1) + e1 =~= seq![252u8] + (uleb(11 as nat) + (seq![0u8] + (e1))));
                    assert(instr_enc(v2) + e2 =~= seq![252u8] + (uleb(11 as nat) + (seq![0u8] + (e2))));
                    lemma_concat_cancel(seq![252u8], uleb(11 as nat) + (seq![0u8] + (e1)), seq![252u8], uleb(11 as nat) + (seq![0u8] + (e2)));
                    lemma_concat_cancel(uleb(11 as nat), seq![0u8] + (e1), uleb(11 as nat), seq![0u8] + (e2));
                    lemma_concat_cancel(seq![0u8], e1, seq![0u8], e2);
                    assert(e1 == e2);
                    assert(v1 == v2);
                },
                _ => {
                    assert(false);
                },
            }
        },
        SpecInstr::I32TruncSatF32S => {
            match v2 {
                SpecInstr::I32TruncSatF32S => {
                    assert(instr_enc(v1) + e1 =~= seq![252u8] + (uleb(0 as nat) + (e1)));
                    assert(instr_enc(v2) + e2 =~= seq![252u8] + (uleb(0 as nat) + (e2)));
                    lemma_concat_cancel(seq![252u8], uleb(0 as nat) + (e1), seq![252u8], uleb(0 as nat) + (e2));
                    lemma_concat_cancel(uleb(0 as nat), e1, uleb(0 as nat), e2);
                    assert(e1 == e2);
                    assert(v1 == v2);
                },
                _ => {
                    assert(false);
                },
            }
        },
        SpecInstr::I32TruncSatF32U => {
            match v2 {
                SpecInstr::I32TruncSatF32U => {
                    assert(instr_enc(v1) + e1 =~= seq![252u8] + (uleb(1 as nat) + (e1)));
                    assert(instr_enc(v2) + e2 =~= seq![252u8] + (uleb(1 as nat) + (e2)));
                    lemma_concat_cancel(seq![252u8], uleb(1 as nat) + (e1), seq![252u8], uleb(1 as nat) + (e2));
                    lemma_concat_cancel(uleb(1 as nat), e1, uleb(1 as nat), e2);
                    assert(e1 == e2);
                    assert(v1 == v2);
                },
                _ => {
                    assert(false);
                },
            }
        },
        SpecInstr::I32TruncSatF64S => {
            match v2 {
                SpecInstr::I32TruncSatF64S => {
                    assert(instr_enc(v1) + e1 =~= seq![252u8] + (uleb(2 as nat) + (e1)));
                    assert(instr_enc(v2) + e2 =~= seq![252u8] + (uleb(2 as nat) + (e2)));
                    lemma_concat_cancel(seq![252u8], uleb(2 as nat) + (e1), seq![252u8], uleb(2 as nat) + (e2));
                    lemma_concat_cancel(uleb(2 as nat), e1, uleb(2 as nat), e2);
                    assert(e1 == e2);
                    assert(v1 == v2);
                },
                _ => {
                    assert(false);
                },
            }
        },
        SpecInstr::I32TruncSatF64U => {
            match v2 {
                SpecInstr::I32TruncSatF64U => {
                    assert(instr_enc(v1) + e1 =~= seq![252u8] + (uleb(3 as nat) + (e1)));
                    assert(instr_enc(v2) + e2 =~= seq![252u8] + (uleb(3 as nat) + (e2)));
                    lemma_concat_cancel(seq![252u8], uleb(3 as nat) + (e1), seq![252u8], uleb(3 as nat) + (e2));
                    lemma_concat_cancel(uleb(3 as nat), e1, uleb(3 as nat), e2);
                    assert(e1 == e2);
                    assert(v1 == v2);
                },
                _ => {
                    assert(false);
                },
            }
        },
        SpecInstr::I64TruncSatF32S => {
            match v2 {
                SpecInstr::I64TruncSatF32S => {
                    assert(instr_enc(v1) + e1 =~= seq![252u8] + (uleb(4 as nat) + (e1)));
                    assert(instr_enc(v2) + e2 =~= seq![252u8] + (uleb(4 as nat) + (e2)));
                    lemma_concat_cancel(seq![252u8], uleb(4 as nat) + (e1), seq![252u8], uleb(4 as nat) + (e2));
                    lemma_concat_cancel(uleb(4 as nat), e1, uleb(4 as nat), e2);
                    assert(e1 == e2);
                    assert(v1 == v2);
                },
                _ => {
                    assert(false);
                },
            }
        },
        SpecInstr::I64TruncSatF32U => {
            match v2 {
                SpecInstr::I64TruncSatF32U => {
                    assert(instr_enc(v1) + e1 =~= seq![252u8] + (uleb(5 as nat) + (e1)));
                    assert(instr_enc(v2) + e2 =~= seq![252u8] + (uleb(5 as nat) + (e2)));
                    lemma_concat_cancel(seq![252u8], uleb(5 as nat) + (e1), seq![252u8], uleb(5 as nat) + (e2));
                    lemma_concat_cancel(uleb(5 as nat), e1, uleb(5 as nat), e2);
                    assert(e1 == e2);
                    assert(v1 == v2);
                },
                _ => {
                    assert(false);
                },
            }
        },
        SpecInstr::I64TruncSatF64S => {
            match v2 {
                SpecInstr::I64TruncSatF64S => {
                    assert(instr_enc(v1) + e1 =~= seq![252u8] + (uleb(6 as nat) + (e1)));
                    assert(instr_enc(v2) + e2 =~= seq![252u8] + (uleb(6 as nat) + (e2)));
                    lemma_concat_cancel(seq![252u8], uleb(6 as nat) + (e1), seq![252u8], uleb(6 as nat) + (e2));
                    lemma_concat_cancel(uleb(6 as nat), e1, uleb(6 as nat), e2);
                    assert(e1 == e2);
                    assert(v1 == v2);
                },
                _ => {
                    assert(false);
                },
            }
        },
        SpecInstr::I64TruncSatF64U => {
            match v2 {
                SpecInstr::I64TruncSatF64U => {
                    assert(instr_enc(v1) + e1 =~= seq![252u8] + (uleb(7 as nat) + (e1)));
                    assert(instr_enc(v2) + e2 =~= seq![252u8] + (uleb(7 as nat) + (e2)));
                    lemma_concat_cancel(seq![252u8], uleb(7 as nat) + (e1), seq![252u8], uleb(7 as nat) + (e2));
                    lemma_concat_cancel(uleb(7 as nat), e1, uleb(7 as nat), e2);
                    assert(e1 == e2);
                    assert(v1 == v2);
                },
                _ => {
                    assert(false);
                },
            }
        },
        _ => {
            assert(false);
        },
    }
}

/// Unambiguity of the blocks instruction group.
#[verifier::rlimit(100)]
proof fn lemma_instr_unamb_blocks(v1: SpecInstr, v2: SpecInstr, e1: Seq<u8>, e2: Seq<u8>)
    requires
        instr_wf(v1),
        instr_wf(v2),
        instr_enc(v1) + e1 == instr_enc(v2) + e2,
        instr_op(v1) == instr_op(v2),
        instr_op(v1) == 0xFC ==> instr_fc_sub(v1) == instr_fc_sub(v2),
        0x02 <= instr_op(v1) <= 0x04,
    ensures
        v1 == v2,
        e1 == e2,
    decreases v1, 0int,
{
    match v1 {
        SpecInstr::Block(a0, a1) => {
            match v2 {
                SpecInstr::Block(b0, b1) => {
                    assert(instr_enc(v1) + e1 =~= seq![2u8] + (<i32 as Encode>::spec_enc(a0) + (instr_seq_enc(a1) + (seq![11u8] + (e1)))));
                    assert(instr_enc(v2) + e2 =~= seq![2u8] + (<i32 as Encode>::spec_enc(b0) + (instr_seq_enc(b1) + (seq![11u8] + (e2)))));
                    lemma_concat_cancel(seq![2u8], <i32 as Encode>::spec_enc(a0) + (instr_seq_enc(a1) + (seq![11u8] + (e1))), seq![2u8], <i32 as Encode>::spec_enc(b0) + (instr_seq_enc(b1) + (seq![11u8] + (e2))));
                    <i32 as Decode>::lemma_plain(instr_seq_enc(a1) + (seq![11u8] + (e1)));
                    <i32 as Decode>::lemma_plain(instr_seq_enc(b1) + (seq![11u8] + (e2)));
                    <i32 as Decode>::lemma_unamb(a0, b0, instr_seq_enc(a1) + (seq![11u8] + (e1)), instr_seq_enc(b1) + (seq![11u8] + (e2)));
                    assert((seq![11u8] + (e1))[0] == 11u8);
                    lemma_instr_sentinel(seq![11u8] + (e1));
                    assert((seq![11u8] + (e2))[0] == 11u8);
                    lemma_instr_sentinel(seq![11u8] + (e2));
                    lemma_instr_seq_unamb(a1, b1, seq![11u8] + (e1), seq![11u8] + (e2));
                    lemma_concat_cancel(seq![11u8], e1, seq![11u8], e2);
                    assert(e1 == e2);
                    assert(a0 == b0 && a1 == b1);
                    assert(v1 == v2);
                },
                _ => {
                    assert(false);
                },
            }
        },
        SpecInstr::Loop(a0, a1) => {
            match v2 {
                SpecInstr::Loop(b0, b1) => {
                    assert(instr_enc(v1) + e1 =~= seq![3u8] + (<i32 as Encode>::spec_enc(a0) + (instr_seq_enc(a1) + (seq![11u8] + (e1)))));
                    assert(instr_enc(v2) + e2 =~= seq![3u8] + (<i32 as Encode>::spec_enc(b0) + (instr_seq_enc(b1) + (seq![11u8] + (e2)))));
                    lemma_concat_cancel(seq![3u8], <i32 as Encode>::spec_enc(a0) + (instr_seq_enc(a1) + (seq![11u8] + (e1))), seq![3u8], <i32 as Encode>::spec_enc(b0) + (instr_seq_enc(b1) + (seq![11u8] + (e2))));
                    <i32 as Decode>::lemma_plain(instr_seq_enc(a1) + (seq![11u8] + (e1)));
                    <i32 as Decode>::lemma_plain(instr_seq_enc(b1) + (seq![11u8] + (e2)));
                    <i32 as Decode>::lemma_unamb(a0, b0, instr_seq_enc(a1) + (seq![11u8] + (e1)), instr_seq_enc(b1) + (seq![11u8] + (e2)));
                    assert((seq![11u8] + (e1))[0] == 11u8);
                    lemma_instr_sentinel(seq![11u8] + (e1));
                    assert((seq![11u8] + (e2))[0] == 11u8);
                    lemma_instr_sentinel(seq![11u8] + (e2));
                    lemma_instr_seq_unamb(a1, b1, seq![11u8] + (e1), seq![11u8] + (e2));
                    lemma_concat_cancel(seq![11u8], e1, seq![11u8], e2);
                    assert(e1 == e2);
                    assert(a0 == b0 && a1 == b1);
                    assert(v1 == v2);
                },
                _ => {
                    assert(false);
                },
            }
        },
        SpecInstr::If(a0, a1, a2) => {
            match v2 {
                SpecInstr::If(b0, b1, b2) => {
                    assert(instr_enc(v1) + e1 =~= seq![4u8] + (<i32 as Encode>::spec_enc(a0) + (instr_seq_enc(a1) + (else_enc(a2) + (e1)))));
                    assert(instr_enc(v2) + e2 =~= seq![4u8] + (<i32 as Encode>::spec_enc(b0) + (instr_seq_enc(b1) + (else_enc(b2) + (e2)))));
                    lemma_concat_cancel(seq![4u8], <i32 as Encode>::spec_enc(a0) + (instr_seq_enc(a1) + (else_enc(a2) + (e1))), seq![4u8], <i32 as Encode>::spec_enc(b0) + (instr_seq_enc(b1) + (else_enc(b2) + (e2))));
                    <i32 as Decode>::lemma_plain(instr_seq_enc(a1) + (else_enc(a2) + (e1)));
                    <i32 as Decode>::lemma_plain(instr_seq_enc(b1) + (else_enc(b2) + (e2)));
                    <i32 as Decode>::lemma_unamb(a0, b0, instr_seq_enc(a1) + (else_enc(a2) + (e1)), instr_seq_enc(b1) + (else_enc(b2) + (e2)));
                    lemma_else_head(a2);
                    assert((else_enc(a2) + (e1))[0] == else_enc(a2)[0]);
                    lemma_instr_sentinel(else_enc(a2) + (e1));
                    lemma_else_head(b2);
                    assert((else_enc(b2) + (e2))[0] == else_enc(b2)[0]);
                    lemma_instr_sentinel(else_enc(b2) + (e2));
                    lemma_instr_seq_unamb(a1, b1, else_enc(a2) + (e1), else_enc(b2) + (e2));
                    lemma_else_unamb(a2, b2, e1, e2);
                    assert(e1 == e2);
                    assert(a0 == b0 && a1 == b1 && a2 == b2);
                    assert(v1 == v2);
                },
                _ => {
                    assert(false);
                },
            }
        },
        _ => {
            assert(false);
        },
    }
}

/// Unambiguity of the control instruction group.
#[verifier::rlimit(100)]
proof fn lemma_instr_unamb_control(v1: SpecInstr, v2: SpecInstr, e1: Seq<u8>, e2: Seq<u8>)
    requires
        instr_wf(v1),
        instr_wf(v2),
        instr_enc(v1) + e1 == instr_enc(v2) + e2,
        instr_op(v1) == instr_op(v2),
        instr_op(v1) == 0xFC ==> instr_fc_sub(v1) == instr_fc_sub(v2),
        instr_op(v1) < 0x20 && !(0x02 <= instr_op(v1) <= 0x04),
    ensures
        v1 == v2,
        e1 == e2,
    decreases v1, 0int,
{
    match v1 {
        SpecInstr::Unreachable => {
            match v2 {
                SpecInstr::Unreachable => {
                    assert(instr_enc(v1) + e1 =~= seq![0u8] + (e1));
                    assert(instr_enc(v2) + e2 =~= seq![0u8] + (e2));
                    lemma_concat_cancel(seq![0u8], e1, seq![0u8], e2);
                    assert(e1 == e2);
                    assert(v1 == v2);
                },
                _ => {
                    assert(false);
                },
            }
        },
        SpecInstr::Nop => {
            match v2 {
                SpecInstr::Nop => {
                    assert(instr_enc(v1) + e1 =~= seq![1u8] + (e1));
                    assert(instr_enc(v2) + e2 =~= seq![1u8] + (e2));
                    lemma_concat_cancel(seq![1u8], e1, seq![1u8], e2);
                    assert(e1 == e2);
                    assert(v1 == v2);
                },
                _ => {
                    assert(false);
                },
            }
        },
        SpecInstr::Br(a0) => {
            match v2 {
                SpecInstr::Br(b0) => {
                    assert(instr_enc(v1) + e1 =~= seq![12u8] + (<LabelIdx as Encode>::spec_enc(a0) + (e1)));
                    assert(instr_enc(v2) + e2 =~= seq![12u8] + (<LabelIdx as Encode>::spec_enc(b0) + (e2)));
                    lemma_concat_cancel(seq![12u8], <LabelIdx as Encode>::spec_enc(a0) + (e1), seq![12u8], <LabelIdx as Encode>::spec_enc(b0) + (e2));
                    <LabelIdx as Decode>::lemma_plain(e1);
                    <LabelIdx as Decode>::lemma_plain(e2);
                    <LabelIdx as Decode>::lemma_unamb(a0, b0, e1, e2);
                    assert(e1 == e2);
                    assert(a0 == b0);
                    assert(v1 == v2);
                },
                _ => {
                    assert(false);
                },
            }
        },
        SpecInstr::BrIf(a0) => {
            match v2 {
                SpecInstr::BrIf(b0) => {
                    assert(instr_enc(v1) + e1 =~= seq![13u8] + (<LabelIdx as Encode>::spec_enc(a0) + (e1)));
                    assert(instr_enc(v2) + e2 =~= seq![13u8] + (<LabelIdx as Encode>::spec_enc(b0) + (e2)));
                    lemma_concat_cancel(seq![13u8], <LabelIdx as Encode>::spec_enc(a0) + (e1), seq![13u8], <LabelIdx as Encode>::spec_enc(b0) + (e2));
                    <LabelIdx as Decode>::lemma_plain(e1);
                    <LabelIdx as Decode>::lemma_plain(e2);
                    <LabelIdx as Decode>::lemma_unamb(a0, b0, e1, e2);
                    assert(e1 == e2);
                    assert(a0 == b0);
                    assert(v1 == v2);
                },
                _ => {
                    assert(false);
                },
            }
        },
        SpecInstr::BrTable(a0, a1) => {
            match v2 {
                SpecInstr::BrTable(b0, b1) => {
                    assert(instr_enc(v1) + e1 =~= seq![14u8] + (<Vec<LabelIdx> as Encode>::spec_enc(a0) + (<LabelIdx as Encode>::spec_enc(a1) + (e1))));
                    assert(instr_enc(v2) + e2 =~= seq![14u8] + (<Vec<LabelIdx> as Encode>::spec_enc(b0) + (<LabelIdx as Encode>::spec_enc(b1) + (e2))));
                    lemma_concat_cancel(seq![14u8], <Vec<LabelIdx> as Encode>::spec_enc(a0) + (<LabelIdx as Encode>::spec_enc(a1) + (e1)), seq![14u8], <Vec<LabelIdx> as Encode>::spec_enc(b0) + (<LabelIdx as Encode>::spec_enc(b1) + (e2)));
                    <Vec<LabelIdx> as Decode>::lemma_plain(<LabelIdx as Encode>::spec_enc(a1) + (e1));
                    <Vec<LabelIdx> as Decode>::lemma_plain(<LabelIdx as Encode>::spec_enc(b1) + (e2));
                    <Vec<LabelIdx> as Decode>::lemma_unamb(a0, b0, <LabelIdx as Encode>::spec_enc(a1) + (e1), <LabelIdx as Encode>::spec_enc(b1) + (e2));
                    <LabelIdx as Decode>::lemma_plain(e1);
                    <LabelIdx as Decode>::lemma_plain(e2);
                    <LabelIdx as Decode>::lemma_unamb(a1, b1, e1, e2);
                    assert(e1 == e2);
                    assert(a0 == b0 && a1 == b1);
                    assert(v1 == v2);
                },
                _ => {
                    assert(false);
                },
            }
        },
        SpecInstr::Return => {
            match v2 {
                SpecInstr::Return => {
                    assert(instr_enc(v1) + e1 =~= seq![15u8] + (e1));
                    assert(instr_enc(v2) + e2 =~= seq![15u8] + (e2));
                    lemma_concat_cancel(seq![15u8], e1, seq![15u8], e2);
                    assert(e1 == e2);
                    assert(v1 == v2);
                },
                _ => {
                    assert(false);
                },
            }
        },
        SpecInstr::Call(a0) => {
            match v2 {
                SpecInstr::Call(b0) => {
                    assert(instr_enc(v1) + e1 =~= seq![16u8] + (<FuncIdx as Encode>::spec_enc(a0) + (e1)));
                    assert(instr_enc(v2) + e2 =~= seq![16u8] + (<FuncIdx as Encode>::spec_enc(b0) + (e2)));
                    lemma_concat_cancel(seq![16u8], <FuncIdx as Encode>::spec_enc(a0) + (e1), seq![16u8], <FuncIdx as Encode>::spec_enc(b0) + (e2));
                    <FuncIdx as Decode>::lemma_plain(e1);
                    <FuncIdx as Decode>::lemma_plain(e2);
                    <FuncIdx as Decode>::lemma_unamb(a0, b0, e1, e2);
                    assert(e1 == e2);
                    assert(a0 == b0);
                    assert(v1 == v2);
                },
                _ => {
                    assert(false);
                },
            }
        },
        SpecInstr::CallIndirect(a0, a1) => {
            match v2 {
                SpecInstr::CallIndirect(b0, b1) => {
                    assert(instr_enc(v1) + e1 =~= seq![17u8] + (<TypeIdx as Encode>::spec_enc(a0) + (<TableIdx as Encode>::spec_enc(a1) + (e1))));
                    assert(instr_enc(v2) + e2 =~= seq![17u8] + (<TypeIdx as Encode>::spec_enc(b0) + (<TableIdx as Encode>::spec_enc(b1) + (e2))));
                    lemma_concat_cancel(seq![17u8], <TypeIdx as Encode>::spec_enc(a0) + (<TableIdx as Encode>::spec_enc(a1) + (e1)), seq![17u8], <TypeIdx as Encode>::spec_enc(b0) + (<TableIdx as Encode>::spec_enc(b1) + (e2)));
                    <TypeIdx as Decode>::lemma_plain(<TableIdx as Encode>::spec_enc(a1) + (e1));
                    <TypeIdx as Decode>::lemma_plain(<TableIdx as Encode>::spec_enc(b1) + (e2));
                    <TypeIdx as Decode>::lemma_unamb(a0, b0, <TableIdx as Encode>::spec_enc(a1) + (e1), <TableIdx as Encode>::spec_enc(b1) + (e2));
                    <TableIdx as Decode>::lemma_plain(e1);
                    <TableIdx as Decode>::lemma_plain(e2);
                    <TableIdx as Decode>::lemma_unamb(a1, b1, e1, e2);
                    assert(e1 == e2);
                    assert(a0 == b0 && a1 == b1);
                    assert(v1 == v2);
                },
                _ => {
                    assert(false);
                },
            }
        },
        SpecInstr::Drop => {
            match v2 {
                SpecInstr::Drop => {
                    assert(instr_enc(v1) + e1 =~= seq![26u8] + (e1));
                    assert(instr_enc(v2) + e2 =~= seq![26u8] + (e2));
                    lemma_concat_cancel(seq![26u8], e1, seq![26u8], e2);
                    assert(e1 == e2);
                    assert(v1 == v2);
                },
                _ => {
                    assert(false);
                },
            }
        },
        SpecInstr::Select => {
            match v2 {
                SpecInstr::Select => {
                    assert(instr_enc(v1) + e1 =~= seq![27u8] + (e1));
                    assert(instr_enc(v2) + e2 =~= seq![27u8] + (e2));
                    lemma_concat_cancel(seq![27u8], e1, seq![27u8], e2);
                    assert(e1 == e2);
                    assert(v1 == v2);
                },
                _ => {
                    assert(false);
                },
            }
        },
        SpecInstr::SelectTys(a0) => {
            match v2 {
                SpecInstr::SelectTys(b0) => {
                    assert(instr_enc(v1) + e1 =~= seq![28u8] + (<Vec<ValType> as Encode>::spec_enc(a0) + (e1)));
                    assert(instr_enc(v2) + e2 =~= seq![28u8] + (<Vec<ValType> as Encode>::spec_enc(b0) + (e2)));
                    lemma_concat_cancel(seq![28u8], <Vec<ValType> as Encode>::spec_enc(a0) + (e1), seq![28u8], <Vec<ValType> as Encode>::spec_enc(b0) + (e2));
                    <Vec<ValType> as Decode>::lemma_plain(e1);
                    <Vec<ValType> as Decode>::lemma_plain(e2);
                    <Vec<ValType> as Decode>::lemma_unamb(a0, b0, e1, e2);
                    assert(e1 == e2);
                    assert(a0 == b0);
                    assert(v1 == v2);
                },
                _ => {
                    assert(false);
                },
            }
        },
        _ => {
            assert(false);
        },
    }
}

/// Unambiguity of the variable instruction group.
#[verifier::rlimit(100)]
proof fn lemma_instr_unamb_variable(v1: SpecInstr, v2: SpecInstr, e1: Seq<u8>, e2: Seq<u8>)
    requires
        instr_wf(v1),
        instr_wf(v2),
        instr_enc(v1) + e1 == instr_enc(v2) + e2,
        instr_op(v1) == instr_op(v2),
        instr_op(v1) == 0xFC ==> instr_fc_sub(v1) == instr_fc_sub(v2),
        !(0x45 <= instr_op(v1) <= 0xC4) && !(0x28 <= instr_op(v1) <= 0x3E) && instr_op(v1) != 0xFC && instr_op(v1) >= 0x20,
    ensures
        v1 == v2,
        e1 == e2,
    decreases v1, 0int,
{
    match v1 {
        SpecInstr::RefNull(a0) => {
            match v2 {
                SpecInstr::RefNull(b0) => {
                    assert(instr_enc(v1) + e1 =~= seq![208u8] + (<RefType as Encode>::spec_enc(a0) + (e1)));
                    assert(instr_enc(v2) + e2 =~= seq![208u8] + (<RefType as Encode>::spec_enc(b0) + (e2)));
                    lemma_concat_cancel(seq![208u8], <RefType as Encode>::spec_enc(a0) + (e1), seq![208u8], <RefType as Encode>::spec_enc(b0) + (e2));
                    <RefType as Decode>::lemma_plain(e1);
                    <RefType as Decode>::lemma_plain(e2);
                    <RefType as Decode>::lemma_unamb(a0, b0, e1, e2);
                    assert(e1 == e2);
                    assert(a0 == b0);
                    assert(v1 == v2);
                },
                _ => {
                    assert(false);
                },
            }
        },
        SpecInstr::RefIsNull => {
            match v2 {
                SpecInstr::RefIsNull => {
                    assert(instr_enc(v1) + e1 =~= seq![209u8] + (e1));
                    assert(instr_enc(v2) + e2 =~= seq![209u8] + (e2));
                    lemma_concat_cancel(seq![209u8], e1, seq![209u8], e2);
                    assert(e1 == e2);
                    assert(v1 == v2);
                },
                _ => {
                    assert(false);
                },
            }
        },
        SpecInstr::RefFunc(a0) => {
            match v2 {
                SpecInstr::RefFunc(b0) => {
                    assert(instr_enc(v1) + e1 =~= seq![210u8] + (<FuncIdx as Encode>::spec_enc(a0) + (e1)));
                    assert(instr_enc(v2) + e2 =~= seq![210u8] + (<FuncIdx as Encode>::spec_enc(b0) + (e2)));
                    lemma_concat_cancel(seq![210u8], <FuncIdx as Encode>::spec_enc(a0) + (e1), seq![210u8], <FuncIdx as Encode>::spec_enc(b0) + (e2));
                    <FuncIdx as Decode>::lemma_plain(e1);
                    <FuncIdx as Decode>::lemma_plain(e2);
                    <FuncIdx as Decode>::lemma_unamb(a0, b0, e1, e2);
                    assert(e1 == e2);
                    assert(a0 == b0);
                    assert(v1 == v2);
                },
                _ => {
                    assert(false);
                },
            }
        },
        SpecInstr::LocalGet(a0) => {
            match v2 {
                SpecInstr::LocalGet(b0) => {
                    assert(instr_enc(v1) + e1 =~= seq![32u8] + (<LocalIdx as Encode>::spec_enc(a0) + (e1)));
                    assert(instr_enc(v2) + e2 =~= seq![32u8] + (<LocalIdx as Encode>::spec_enc(b0) + (e2)));
                    lemma_concat_cancel(seq![32u8], <LocalIdx as Encode>::spec_enc(a0) + (e1), seq![32u8], <LocalIdx as Encode>::spec_enc(b0) + (e2));
                    <LocalIdx as Decode>::lemma_plain(e1);
                    <LocalIdx as Decode>::lemma_plain(e2);
                    <LocalIdx as Decode>::lemma_unamb(a0, b0, e1, e2);
                    assert(e1 == e2);
                    assert(a0 == b0);
                    assert(v1 == v2);
                },
                _ => {
                    assert(false);
                },
            }
        },
        SpecInstr::LocalSet(a0) => {
            match v2 {
                SpecInstr::LocalSet(b0) => {
                    assert(instr_enc(v1) + e1 =~= seq![33u8] + (<LocalIdx as Encode>::spec_enc(a0) + (e1)));
                    assert(instr_enc(v2) + e2 =~= seq![33u8] + (<LocalIdx as Encode>::spec_enc(b0) + (e2)));
                    lemma_concat_cancel(seq![33u8], <LocalIdx as Encode>::spec_enc(a0) + (e1), seq![33u8], <LocalIdx as Encode>::spec_enc(b0) + (e2));
                    <LocalIdx as Decode>::lemma_plain(e1);
                    <LocalIdx as Decode>::lemma_plain(e2);
                    <LocalIdx as Decode>::lemma_unamb(a0, b0, e1, e2);
                    assert(e1 == e2);
                    assert(a0 == b0);
                    assert(v1 == v2);
                },
                _ => {
                    assert(false);
                },
            }
        },
        SpecInstr::LocalTee(a0) => {
            match v2 {
                SpecInstr::LocalTee(b0) => {
                    assert(instr_enc(v1) + e1 =~= seq![34u8] + (<LocalIdx as Encode>::spec_enc(a0) + (e1)));
                    assert(instr_enc(v2) + e2 =~= seq![34u8] + (<LocalIdx as Encode>::spec_enc(b0) + (e2)));
                    lemma_concat_cancel(seq![34u8], <LocalIdx as Encode>::spec_enc(a0) + (e1), seq![34u8], <LocalIdx as Encode>::spec_enc(b0) + (e2));
                    <LocalIdx as Decode>::lemma_plain(e1);
                    <LocalIdx as Decode>::lemma_plain(e2);
                    <LocalIdx as Decode>::lemma_unamb(a0, b0, e1, e2);
                    assert(e1 == e2);
                    assert(a0 == b0);
                    assert(v1 == v2);
                },
                _ => {
                    assert(false);
                },
            }
        },
        SpecInstr::GlobalGet(a0) => {
            match v2 {
                SpecInstr::GlobalGet(b0) => {
                    assert(instr_enc(v1) + e1 =~= seq![35u8] + (<GlobalIdx as Encode>::spec_enc(a0) + (e1)));
                    assert(instr_enc(v2) + e2 =~= seq![35u8] + (<GlobalIdx as Encode>::spec_enc(b0) + (e2)));
                    lemma_concat_cancel(seq![35u8], <GlobalIdx as Encode>::spec_enc(a0) + (e1), seq![35u8], <GlobalIdx as Encode>::spec_enc(b0) + (e2));
                    <GlobalIdx as Decode>::lemma_plain(e1);
                    <GlobalIdx as Decode>::lemma_plain(e2);
                    <GlobalIdx as Decode>::lemma_unamb(a0, b0, e1, e2);
                    assert(e1 == e2);
                    assert(a0 == b0);
                    assert(v1 == v2);
                },
                _ => {
                    assert(false);
                },
            }
        },
        SpecInstr::GlobalSet(a0) => {
            match v2 {
                SpecInstr::GlobalSet(b0) => {
                    assert(instr_enc(v1) + e1 =~= seq![36u8] + (<GlobalIdx as Encode>::spec_enc(a0) + (e1)));
                    assert(instr_enc(v2) + e2 =~= seq![36u8] + (<GlobalIdx as Encode>::spec_enc(b0) + (e2)));
                    lemma_concat_cancel(seq![36u8], <GlobalIdx as Encode>::spec_enc(a0) + (e1), seq![36u8], <GlobalIdx as Encode>::spec_enc(b0) + (e2));
                    <GlobalIdx as Decode>::lemma_plain(e1);
                    <GlobalIdx as Decode>::lemma_plain(e2);
                    <GlobalIdx as Decode>::lemma_unamb(a0, b0, e1, e2);
                    assert(e1 == e2);
                    assert(a0 == b0);
                    assert(v1 == v2);
                },
                _ => {
                    assert(false);
                },
            }
        },
        SpecInstr::TableGet(a0) => {
            match v2 {
                SpecInstr::TableGet(b0) => {
                    assert(instr_enc(v1) + e1 =~= seq![37u8] + (<TableIdx as Encode>::spec_enc(a0) + (e1)));
                    assert(instr_enc(v2) + e2 =~= seq![37u8] + (<TableIdx as Encode>::spec_enc(b0) + (e2)));
                    lemma_concat_cancel(seq![37u8], <TableIdx as Encode>::spec_enc(a0) + (e1), seq![37u8], <TableIdx as Encode>::spec_enc(b0) + (e2));
                    <TableIdx as Decode>::lemma_plain(e1);
                    <TableIdx as Decode>::lemma_plain(e2);
                    <TableIdx as Decode>::lemma_unamb(a0, b0, e1, e2);
                    assert(e1 == e2);
                    assert(a0 == b0);
                    assert(v1 == v2);
                },
                _ => {
                    assert(false);
                },
            }
        },
        SpecInstr::TableSet(a0) => {
            match v2 {
                SpecInstr::TableSet(b0) => {
                    assert(instr_enc(v1) + e1 =~= seq![38u8] + (<TableIdx as Encode>::spec_enc(a0) + (e1)));
                    assert(instr_enc(v2) + e2 =~= seq![38u8] + (<TableIdx as Encode>::spec_enc(b0) + (e2)));
                    lemma_concat_cancel(seq![38u8], <TableIdx as Encode>::spec_enc(a0) + (e1), seq![38u8], <TableIdx as Encode>::spec_enc(b0) + (e2));
                    <TableIdx as Decode>::lemma_plain(e1);
                    <TableIdx as Decode>::lemma_plain(e2);
                    <TableIdx as Decode>::lemma_unamb(a0, b0, e1, e2);
                    assert(e1 == e2);
                    assert(a0 == b0);
                    assert(v1 == v2);
                },
                _ => {
                    assert(false);
                },
            }
        },
        SpecInstr::MemorySize => {
            match v2 {
                SpecInstr::MemorySize => {
                    assert(instr_enc(v1) + e1 =~= seq![63u8] + (seq![0u8] + (e1)));
                    assert(instr_enc(v2) + e2 =~= seq![63u8] + (seq![0u8] + (e2)));
                    lemma_concat_cancel(seq![63u8], seq![0u8] + (e1), seq![63u8], seq![0u8] + (e2));
                    lemma_concat_cancel(seq![0u8], e1, seq![0u8], e2);
                    assert(e1 == e2);
                    assert(v1 == v2);
                },
                _ => {
                    assert(false);
                },
            }
        },
        SpecInstr::MemoryGrow => {
            match v2 {
                SpecInstr::MemoryGrow => {
                    assert(instr_enc(v1) + e1 =~= seq![64u8] + (seq![0u8] + (e1)));
                    assert(instr_enc(v2) + e2 =~= seq![64u8] + (seq![0u8] + (e2)));
                    lemma_concat_cancel(seq![64u8], seq![0u8] + (e1), seq![64u8], seq![0u8] + (e2));
                    lemma_concat_cancel(seq![0u8], e1, seq![0u8], e2);
                    assert(e1 == e2);
                    assert(v1 == v2);
                },
                _ => {
                    assert(false);
                },
            }
        },
        SpecInstr::I32Const(a0) => {
            match v2 {
                SpecInstr::I32Const(b0) => {
                    assert(instr_enc(v1) + e1 =~= seq![65u8] + (<i32 as Encode>::spec_enc(a0) + (e1)));
                    assert(instr_enc(v2) + e2 =~= seq![65u8] + (<i32 as Encode>::spec_enc(b0) + (e2)));
                    lemma_concat_cancel(seq![65u8], <i32 as Encode>::spec_enc(a0) + (e1), seq![65u8], <i32 as Encode>::spec_enc(b0) + (e2));
                    <i32 as Decode>::lemma_plain(e1);
                    <i32 as Decode>::lemma_plain(e2);
                    <i32 as Decode>::lemma_unamb(a0, b0, e1, e2);
                    assert(e1 == e2);
                    assert(a0 == b0);
                    assert(v1 == v2);
                },
                _ => {
                    assert(false);
                },
            }
        },
        SpecInstr::I64Const(a0) => {
            match v2 {
                SpecInstr::I64Const(b0) => {
                    assert(instr_enc(v1) + e1 =~= seq![66u8] + (<i64 as Encode>::spec_enc(a0) + (e1)));
                    assert(instr_enc(v2) + e2 =~= seq![66u8] + (<i64 as Encode>::spec_enc(b0) + (e2)));
                    lemma_concat_cancel(seq![66u8], <i64 as Encode>::spec_enc(a0) + (e1), seq![66u8], <i64 as Encode>::spec_enc(b0) + (e2));
                    <i64 as Decode>::lemma_plain(e1);
                    <i64 as Decode>::lemma_plain(e2);
                    <i64 as Decode>::lemma_unamb(a0, b0, e1, e2);
                    assert(e1 == e2);
                    assert(a0 == b0);
                    assert(v1 == v2);
                },
                _ => {
                    assert(false);
                },
            }
        },
        SpecInstr::F32Const(a0) => {
            match v2 {
                SpecInstr::F32Const(b0) => {
                    assert(instr_enc(v1) + e1 =~= seq![67u8] + (<F32Bits as Encode>::spec_enc(a0) + (e1)));
                    assert(instr_enc(v2) + e2 =~= seq![67u8] + (<F32Bits as Encode>::spec_enc(b0) + (e2)));
                    lemma_concat_cancel(seq![67u8], <F32Bits as Encode>::spec_enc(a0) + (e1), seq![67u8], <F32Bits as Encode>::spec_enc(b0) + (e2));
                    <F32Bits as Decode>::lemma_plain(e1);
                    <F32Bits as Decode>::lemma_plain(e2);
                    <F32Bits as Decode>::lemma_unamb(a0, b0, e1, e2);
                    assert(e1 == e2);
                    assert(a0 == b0);
                    assert(v1 == v2);
                },
                _ => {
                    assert(false);
                },
            }
        },
        SpecInstr::F64Const(a0) => {
            match v2 {
                SpecInstr::F64Const(b0) => {
                    assert(instr_enc(v1) + e1 =~= seq![68u8] + (<F64Bits as Encode>::spec_enc(a0) + (e1)));
                    assert(instr_enc(v2) + e2 =~= seq![68u8] + (<F64Bits as Encode>::spec_enc(b0) + (e2)));
                    lemma_concat_cancel(seq![68u8], <F64Bits as Encode>::spec_enc(a0) + (e1), seq![68u8], <F64Bits as Encode>::spec_enc(b0) + (e2));
                    <F64Bits as Decode>::lemma_plain(e1);
                    <F64Bits as Decode>::lemma_plain(e2);
                    <F64Bits as Decode>::lemma_unamb(a0, b0, e1, e2);
                    assert(e1 == e2);
                    assert(a0 == b0);
                    assert(v1 == v2);
                },
                _ => {
                    assert(false);
                },
            }
        },
        _ => {
            assert(false);
        },
    }
}

/// An instruction encoding plus tail splits in only one way.
pub proof fn lemma_instr_unamb(v1: SpecInstr, v2: SpecInstr, e1: Seq<u8>, e2: Seq<u8>)
    requires
        instr_wf(v1),
        instr_wf(v2),
        instr_enc(v1) + e1 == instr_enc(v2) + e2,
    ensures
        v1 == v2,
        e1 == e2,
    decreases v1, 1int,
{
    lemma_instr_head(v1);
    lemma_instr_head(v2);
    assert((instr_enc(v1) + e1)[0] == instr_enc(v1)[0]);
    assert((instr_enc(v2) + e2)[0] == instr_enc(v2)[0]);
    assert(instr_op(v1) == instr_op(v2));
    if instr_op(v1) == 0xFC {
        assert((instr_enc(v1) + e1)[1] == instr_enc(v1)[1]);
        assert((instr_enc(v2) + e2)[1] == instr_enc(v2)[1]);
        assert(instr_fc_sub(v1) == instr_fc_sub(v2));
        lemma_instr_unamb_fc(v1, v2, e1, e2);
    } else if 0x45 <= instr_op(v1) && instr_op(v1) <= 0xC4 {
        lemma_instr_unamb_numeric(v1, v2, e1, e2);
    } else if 0x28 <= instr_op(v1) && instr_op(v1) <= 0x3E {
        lemma_instr_unamb_mem(v1, v2, e1, e2);
    } else if 0x02 <= instr_op(v1) && instr_op(v1) <= 0x04 {
        lemma_instr_unamb_blocks(v1, v2, e1, e2);
    } else if instr_op(v1) < 0x20 {
        lemma_instr_unamb_control(v1, v2, e1, e2);
    } else {
        lemma_instr_unamb_variable(v1, v2, e1, e2);
    }
}

/// An else-branch encoding plus tail splits in only one way.
pub proof fn lemma_else_unamb(v1: SpecElse, v2: SpecElse, e1: Seq<u8>, e2: Seq<u8>)
    requires
        else_wf(v1),
        else_wf(v2),
        else_enc(v1) + e1 == else_enc(v2) + e2,
    ensures
        v1 == v2,
        e1 == e2,
    decreases v1, 0int,
{
    lemma_else_head(v1);
    lemma_else_head(v2);
    assert((else_enc(v1) + e1)[0] == else_enc(v1)[0]);
    assert((else_enc(v2) + e2)[0] == else_enc(v2)[0]);
    match v1 {
        SpecElse::NoElse => {
            match v2 {
                SpecElse::NoElse => {
                    assert(else_enc(v1) + e1 =~= seq![11u8] + (e1));
                    assert(else_enc(v2) + e2 =~= seq![11u8] + (e2));
                    lemma_concat_cancel(seq![11u8], e1, seq![11u8], e2);
                    assert(e1 == e2);
                    assert(v1 == v2);
                },
                _ => {
                    assert(false);
                },
            }
        },
        SpecElse::Else(a0) => {
            match v2 {
                SpecElse::Else(b0) => {
                    assert(else_enc(v1) + e1 =~= seq![5u8] + (instr_seq_enc(a0) + (seq![11u8] + (e1))));
                    assert(else_enc(v2) + e2 =~= seq![5u8] + (instr_seq_enc(b0) + (seq![11u8] + (e2))));
                    lemma_concat_cancel(seq![5u8], instr_seq_enc(a0) + (seq![11u8] + (e1)), seq![5u8], instr_seq_enc(b0) + (seq![11u8] + (e2)));
                    assert((seq![11u8] + (e1))[0] == 11u8);
                    lemma_instr_sentinel(seq![11u8] + (e1));
                    assert((seq![11u8] + (e2))[0] == 11u8);
                    lemma_instr_sentinel(seq![11u8] + (e2));
                    lemma_instr_seq_unamb(a0, b0, seq![11u8] + (e1), seq![11u8] + (e2));
                    lemma_concat_cancel(seq![11u8], e1, seq![11u8], e2);
                    assert(e1 == e2);
                    assert(a0 == b0);
                    assert(v1 == v2);
                },
                _ => {
                    assert(false);
                },
            }
        },
    }
}

/// Appends the canonical encoding of one instruction (numeric group).
#[verifier::rlimit(100)]
fn instr_encode_numeric(v: &Instr, buffer: &mut Vec<u8>)
    requires
        instr_wf(instr_view(*v)),
        0x45 <= instr_op(instr_view(*v)) <= 0xC4,
    ensures
        final(buffer)@ == old(buffer)@ + instr_enc(instr_view(*v)),
    decreases v, 0int,
{
    match v {
        Instr::I32Eqz => {
            buffer.push(69u8);
            assert(buffer@ =~= old(buffer)@ + seq![69u8]);
            assert(buffer@ =~= old(buffer)@ + instr_enc(instr_view(*v)));
        },
        Instr::I32Eq => {
            buffer.push(70u8);
            assert(buffer@ =~= old(buffer)@ + seq![70u8]);
            assert(buffer@ =~= old(buffer)@ + instr_enc(instr_view(*v)));
        },
        Instr::I32Ne => {
            buffer.push(71u8);
            assert(buffer@ =~= old(buffer)@ + seq![71u8]);
            assert(buffer@ =~= old(buffer)@ + instr_enc(instr_view(*v)));
        },
        Instr::I32LtS => {
            buffer.push(72u8);
            assert(buffer@ =~= old(buffer)@ + seq![72u8]);
            assert(buffer@ =~= old(buffer)@ + instr_enc(instr_view(*v)));
        },
        Instr::I32LtU => {
            buffer.push(73u8);
            assert(buffer@ =~= old(buffer)@ + seq![73u8]);
            assert(buffer@ =~= old(buffer)@ + instr_enc(instr_view(*v)));
        },
        Instr::I32GtS => {
            buffer.push(74u8);
            assert(buffer@ =~= old(buffer)@ + seq![74u8]);
            assert(buffer@ =~= old(buffer)@ + instr_enc(instr_view(*v)));
        },
        Instr::I32GtU => {
            buffer.push(75u8);
            assert(buffer@ =~= old(buffer)@ + seq![75u8]);
            assert(buffer@ =~= old(buffer)@ + instr_enc(instr_view(*v)));
        },
        Instr::I32LeS => {
            buffer.push(76u8);
            assert(buffer@ =~= old(buffer)@ + seq![76u8]);
            assert(buffer@ =~= old(buffer)@ + instr_enc(instr_view(*v)));
        },
        Instr::I32LeU => {
            buffer.push(77u8);
            assert(buffer@ =~= old(buffer)@ + seq![77u8]);
            assert(buffer@ =~= old(buffer)@ + instr_enc(instr_view(*v)));
        },
        Instr::I32GeS => {
            buffer.push(78u8);
            assert(buffer@ =~= old(buffer)@ + seq![78u8]);
            assert(buffer@ =~= old(buffer)@ + instr_enc(instr_view(*v)));
        },
        Instr::I32GeU => {
            buffer.push(79u8);
            assert(buffer@ =~= old(buffer)@ + seq![79u8]);
            assert(buffer@ =~= old(buffer)@ + instr_enc(instr_view(*v)));
        },
        Instr::I64EqZ => {
            buffer.push(80u8);
            assert(buffer@ =~= old(buffer)@ + seq![80u8]);
            assert(buffer@ =~= old(buffer)@ + instr_enc(instr_view(*v)));
        },
        Instr::I64Eq => {
            buffer.push(81u8);
            assert(buffer@ =~= old(buffer)@ + seq![81u8]);
            assert(buffer@ =~= old(buffer)@ + instr_enc(instr_view(*v)));
        },
        Instr::I64Ne => {
            buffer.push(82u8);
            assert(buffer@ =~= old(buffer)@ + seq![82u8]);
            assert(buffer@ =~= old(buffer)@ + instr_enc(instr_view(*v)));
        },
        Instr::I64LtS => {
            buffer.push(83u8);
            assert(buffer@ =~= old(buffer)@ + seq![83u8]);
            assert(buffer@ =~= old(buffer)@ + instr_enc(instr_view(*v)));
        },
        Instr::I64LtU => {
            buffer.push(84u8);
            assert(buffer@ =~= old(buffer)@ + seq![84u8]);
            assert(buffer@ =~= old(buffer)@ + instr_enc(instr_view(*v)));
        },
        Instr::I64GtS => {
            buffer.push(85u8);
            assert(buffer@ =~= old(buffer)@ + seq![85u8]);
            assert(buffer@ =~= old(buffer)@ + instr_enc(instr_view(*v)));
        },
        Instr::I64GtU => {
            buffer.push(86u8);
            assert(buffer@ =~= old(buffer)@ + seq![86u8]);
            assert(buffer@ =~= old(buffer)@ + instr_enc(instr_view(*v)));
        },
        Instr::I64LeS => {
            buffer.push(87u8);
            assert(buffer@ =~= old(buffer)@ + seq![87u8]);
            assert(buffer@ =~= old(buffer)@ + instr_enc(instr_view(*v)));
        },
        Instr::I64LeU => {
            buffer.push(88u8);
            assert(buffer@ =~= old(buffer)@ + seq![88u8]);
            assert(buffer@ =~= old(buffer)@ + instr_enc(instr_view(*v)));
        },
        Instr::I64GeS => {
            buffer.push(89u8);
            assert(buffer@ =~= old(buffer)@ + seq![89u8]);
            assert(buffer@ =~= old(buffer)@ + instr_enc(instr_view(*v)));
        },
        Instr::I64GeU => {
            buffer.push(90u8);
            assert(buffer@ =~= old(buffer)@ + seq![90u8]);
            assert(buffer@ =~= old(buffer)@ + instr_enc(instr_view(*v)));
        },
        Instr::F32Eq => {
            buffer.push(91u8);
            assert(buffer@ =~= old(buffer)@ + seq![91u8]);
            assert(buffer@ =~= old(buffer)@ + instr_enc(instr_view(*v)));
        },
        Instr::F32Ne => {
            buffer.push(92u8);
            assert(buffer@ =~= old(buffer)@ + seq![92u8]);
            assert(buffer@ =~= old(buffer)@ + instr_enc(instr_view(*v)));
        },
        Instr::F32Lt => {
            buffer.push(93u8);
            assert(buffer@ =~= old(buffer)@ + seq![93u8]);
            assert(buffer@ =~= old(buffer)@ + instr_enc(instr_view(*v)));
        },
        Instr::F32Gt => {
            buffer.push(94u8);
            assert(buffer@ =~= old(buffer)@ + seq![94u8]);
            assert(buffer@ =~= old(buffer)@ + instr_enc(instr_view(*v)));
        },
        Instr::F32Le => {
            buffer.push(95u8);
            assert(buffer@ =~= old(buffer)@ + seq![95u8]);
            assert(buffer@ =~= old(buffer)@ + instr_enc(instr_view(*v)));
        },
        Instr::F32Ge => {
            buffer.push(96u8);
            assert(buffer@ =~= old(buffer)@ + seq![96u8]);
            assert(buffer@ =~= old(buffer)@ + instr_enc(instr_view(*v)));
        },
        Instr::F64Eq => {
            buffer.push(97u8);
            assert(buffer@ =~= old(buffer)@ + seq![97u8]);
            assert(buffer@ =~= old(buffer)@ + instr_enc(instr_view(*v)));
        },
        Instr::F64Ne => {
            buffer.push(98u8);
            assert(buffer@ =~= old(buffer)@ + seq![98u8]);
            assert(buffer@ =~= old(buffer)@ + instr_enc(instr_view(*v)));
        },
        Instr::F64Lt => {
            buffer.push(99u8);
            assert(buffer@ =~= old(buffer)@ + seq![99u8]);
            assert(buffer@ =~= old(buffer)@ + instr_enc(instr_view(*v)));
        },
        Instr::F64Gt => {
            buffer.push(100u8);
            assert(buffer@ =~= old(buffer)@ + seq![100u8]);
            assert(buffer@ =~= old(buffer)@ + instr_enc(instr_view(*v)));
        },
        Instr::F64Le => {
            buffer.push(101u8);
            assert(buffer@ =~= old(buffer)@ + seq![101u8]);
            assert(buffer@ =~= old(buffer)@ + instr_enc(instr_view(*v)));
        },
        Instr::F64Ge => {
            buffer.push(102u8);
            assert(buffer@ =~= old(buffer)@ + seq![102u8]);
            assert(buffer@ =~= old(buffer)@ + instr_enc(instr_view(*v)));
        },
        Instr::I32Clz => {
            buffer.push(103u8);
            assert(buffer@ =~= old(buffer)@ + seq![103u8]);
            assert(buffer@ =~= old(buffer)@ + instr_enc(instr_view(*v)));
        },
        Instr::I32Ctz => {
            buffer.push(104u8);
            assert(buffer@ =~= old(buffer)@ + seq![104u8]);
            assert(buffer@ =~= old(buffer)@ + instr_enc(instr_view(*v)));
        },
        Instr::I32Popcnt => {
            buffer.push(105u8);
            assert(buffer@ =~= old(buffer)@ + seq![105u8]);
            assert(buffer@ =~= old(buffer)@ + instr_enc(instr_view(*v)));
        },
        Instr::I32Add => {
            buffer.push(106u8);
            assert(buffer@ =~= old(buffer)@ + seq![106u8]);
            assert(buffer@ =~= old(buffer)@ + instr_enc(instr_view(*v)));
        },
        Instr::I32Sub => {
            buffer.push(107u8);
            assert(buffer@ =~= old(buffer)@ + seq![107u8]);
            assert(buffer@ =~= old(buffer)@ + instr_enc(instr_view(*v)));
        },
        Instr::I32Mul => {
            buffer.push(108u8);
            assert(buffer@ =~= old(buffer)@ + seq![108u8]);
            assert(buffer@ =~= old(buffer)@ + instr_enc(instr_view(*v)));
        },
        Instr::I32DivS => {
            buffer.push(109u8);
            assert(buffer@ =~= old(buffer)@ + seq![109u8]);
            assert(buffer@ =~= old(buffer)@ + instr_enc(instr_view(*v)));
        },
        Instr::I32DivU => {
            buffer.push(110u8);
            assert(buffer@ =~= old(buffer)@ + seq![110u8]);
            assert(buffer@ =~= old(buffer)@ + instr_enc(instr_view(*v)));
        },
        Instr::I32RemS => {
            buffer.push(111u8);
            assert(buffer@ =~= old(buffer)@ + seq![111u8]);
            assert(buffer@ =~= old(buffer)@ + instr_enc(instr_view(*v)));
        },
        Instr::I32RemU => {
            buffer.push(112u8);
            assert(buffer@ =~= old(buffer)@ + seq![112u8]);
            assert(buffer@ =~= old(buffer)@ + instr_enc(instr_view(*v)));
        },
        Instr::I32And => {
            buffer.push(113u8);
            assert(buffer@ =~= old(buffer)@ + seq![113u8]);
            assert(buffer@ =~= old(buffer)@ + instr_enc(instr_view(*v)));
        },
        Instr::I32Or => {
            buffer.push(114u8);
            assert(buffer@ =~= old(buffer)@ + seq![114u8]);
            assert(buffer@ =~= old(buffer)@ + instr_enc(instr_view(*v)));
        },
        Instr::I32Xor => {
            buffer.push(115u8);
            assert(buffer@ =~= old(buffer)@ + seq![115u8]);
            assert(buffer@ =~= old(buffer)@ + instr_enc(instr_view(*v)));
        },
        Instr::I32Shl => {
            buffer.push(116u8);
            assert(buffer@ =~= old(buffer)@ + seq![116u8]);
            assert(buffer@ =~= old(buffer)@ + instr_enc(instr_view(*v)));
        },
        Instr::I32ShrS => {
            buffer.push(117u8);
            assert(buffer@ =~= old(buffer)@ + seq![117u8]);
            assert(buffer@ =~= old(buffer)@ + instr_enc(instr_view(*v)));
        },
        Instr::I32ShrU => {
            buffer.push(118u8);
            assert(buffer@ =~= old(buffer)@ + seq![118u8]);
            assert(buffer@ =~= old(buffer)@ + instr_enc(instr_view(*v)));
        },
        Instr::I32Rotl => {
            buffer.push(119u8);
            assert(buffer@ =~= old(buffer)@ + seq![119u8]);
            assert(buffer@ =~= old(buffer)@ + instr_enc(instr_view(*v)));
        },
        Instr::I32Rotr => {
            buffer.push(120u8);
            assert(buffer@ =~= old(buffer)@ + seq![120u8]);
            assert(buffer@ =~= old(buffer)@ + instr_enc(instr_view(*v)));
        },
        Instr::I64Clz => {
            buffer.push(121u8);
            assert(buffer@ =~= old(buffer)@ + seq![121u8]);
            assert(buffer@ =~= old(buffer)@ + instr_enc(instr_view(*v)));
        },
        Instr::I64Ctz => {
            buffer.push(122u8);
            assert(buffer@ =~= old(buffer)@ + seq![122u8]);
            assert(buffer@ =~= old(buffer)@ + instr_enc(instr_view(*v)));
        },
        Instr::I64Popcnt => {
            buffer.push(123u8);
            assert(buffer@ =~= old(buffer)@ + seq![123u8]);
            assert(buffer@ =~= old(buffer)@ + instr_enc(instr_view(*v)));
        },
        Instr::I64Add => {
            buffer.push(124u8);
            assert(buffer@ =~= old(buffer)@ + seq![124u8]);
            assert(buffer@ =~= old(buffer)@ + instr_enc(instr_view(*v)));
        },
        Instr::I64Sub => {
            buffer.push(125u8);
            assert(buffer@ =~= old(buffer)@ + seq![125u8]);
            assert(buffer@ =~= old(buffer)@ + instr_enc(instr_view(*v)));
        },
        Instr::I64Mul => {
            buffer.push(126u8);
            assert(buffer@ =~= old(buffer)@ + seq![126u8]);
            assert(buffer@ =~= old(buffer)@ + instr_enc(instr_view(*v)));
        },
        Instr::I64DivS => {
            buffer.push(127u8);
            assert(buffer@ =~= old(buffer)@ + seq![127u8]);
            assert(buffer@ =~= old(buffer)@ + instr_enc(instr_view(*v)));
        },
        Instr::I64DivU => {
            buffer.push(128u8);
            assert(buffer@ =~= old(buffer)@ + seq![128u8]);
            assert(buffer@ =~= old(buffer)@ + instr_enc(instr_view(*v)));
        },
        Instr::I64RemS => {
            buffer.push(129u8);
            assert(buffer@ =~= old(buffer)@ + seq![129u8]);
            assert(buffer@ =~= old(buffer)@ + instr_enc(instr_view(*v)));
        },
        Instr::I64RemU => {
            buffer.push(130u8);
            assert(buffer@ =~= old(buffer)@ + seq![130u8]);
            assert(buffer@ =~= old(buffer)@ + instr_enc(instr_view(*v)));
        },
        Instr::I64And => {
            buffer.push(131u8);
            assert(buffer@ =~= old(buffer)@ + seq![131u8]);
            assert(buffer@ =~= old(buffer)@ + instr_enc(instr_view(*v)));
        },
        Instr::I64Or => {
            buffer.push(132u8);
            assert(buffer@ =~= old(buffer)@ + seq![132u8]);
            assert(buffer@ =~= old(buffer)@ + instr_enc(instr_view(*v)));
        },
        Instr::I64Xor => {
            buffer.push(133u8);
            assert(buffer@ =~= old(buffer)@ + seq![133u8]);
            assert(buffer@ =~= old(buffer)@ + instr_enc(instr_view(*v)));
        },
        Instr::I64Shl => {
            buffer.push(134u8);
            assert(buffer@ =~= old(buffer)@ + seq![134u8]);
            assert(buffer@ =~= old(buffer)@ + instr_enc(instr_view(*v)));
        },
        Instr::I64ShrS => {
            buffer.push(135u8);
            assert(buffer@ =~= old(buffer)@ + seq![135u8]);
            assert(buffer@ =~= old(buffer)@ + instr_enc(instr_view(*v)));
        },
        Instr::I64ShrU => {
            buffer.push(136u8);
            assert(buffer@ =~= old(buffer)@ + seq![136u8]);
            assert(buffer@ =~= old(buffer)@ + instr_enc(instr_view(*v)));
        },
        Instr::I64Rotl => {
            buffer.push(137u8);
            assert(buffer@ =~= old(buffer)@ + seq![137u8]);
            assert(buffer@ =~= old(buffer)@ + instr_enc(instr_view(*v)));
        },
        Instr::I64Rotr => {
            buffer.push(138u8);
            assert(buffer@ =~= old(buffer)@ + seq![138u8]);
            assert(buffer@ =~= old(buffer)@ + instr_enc(instr_view(*v)));
        },
        Instr::F32Abs => {
            buffer.push(139u8);
            assert(buffer@ =~= old(buffer)@ + seq![139u8]);
            assert(buffer@ =~= old(buffer)@ + instr_enc(instr_view(*v)));
        },
        Instr::F32Neg => {
            buffer.push(140u8);
            assert(buffer@ =~= old(buffer)@ + seq![140u8]);
            assert(buffer@ =~= old(buffer)@ + instr_enc(instr_view(*v)));
        },
        Instr::F32Ceil => {
            buffer.push(141u8);
            assert(buffer@ =~= old(buffer)@ + seq![141u8]);
            assert(buffer@ =~= old(buffer)@ + instr_enc(instr_view(*v)));
        },
        Instr::F32Floor => {
            buffer.push(142u8);
            assert(buffer@ =~= old(buffer)@ + seq![142u8]);
            assert(buffer@ =~= old(buffer)@ + instr_enc(instr_view(*v)));
        },
        Instr::F32Trunc => {
            buffer.push(143u8);
            assert(buffer@ =~= old(buffer)@ + seq![143u8]);
            assert(buffer@ =~= old(buffer)@ + instr_enc(instr_view(*v)));
        },
        Instr::F32Nearest => {
            buffer.push(144u8);
            assert(buffer@ =~= old(buffer)@ + seq![144u8]);
            assert(buffer@ =~= old(buffer)@ + instr_enc(instr_view(*v)));
        },
        Instr::F32Sqrt => {
            buffer.push(145u8);
            assert(buffer@ =~= old(buffer)@ + seq![145u8]);
            assert(buffer@ =~= old(buffer)@ + instr_enc(instr_view(*v)));
        },
        Instr::F32Add => {
            buffer.push(146u8);
            assert(buffer@ =~= old(buffer)@ + seq![146u8]);
            assert(buffer@ =~= old(buffer)@ + instr_enc(instr_view(*v)));
        },
        Instr::F32Sub => {
            buffer.push(147u8);
            assert(buffer@ =~= old(buffer)@ + seq![147u8]);
            assert(buffer@ =~= old(buffer)@ + instr_enc(instr_view(*v)));
        },
        Instr::F32Mul => {
            buffer.push(148u8);
            assert(buffer@ =~= old(buffer)@ + seq![148u8]);
            assert(buffer@ =~= old(buffer)@ + instr_enc(instr_view(*v)));
        },
        Instr::F32Div => {
            buffer.push(149u8);
            assert(buffer@ =~= old(buffer)@ + seq![149u8]);
            assert(buffer@ =~= old(buffer)@ + instr_enc(instr_view(*v)));
        },
        Instr::F32Min => {
            buffer.push(150u8);
            assert(buffer@ =~= old(buffer)@ + seq![150u8]);
            assert(buffer@ =~= old(buffer)@ + instr_enc(instr_view(*v)));
        },
        Instr::F32Max => {
            buffer.push(151u8);
            assert(buffer@ =~= old(buffer)@ + seq![151u8]);
            assert(buffer@ =~= old(buffer)@ + instr_enc(instr_view(*v)));
        },
        Instr::F32Copysign => {
            buffer.push(152u8);
            assert(buffer@ =~= old(buffer)@ + seq![152u8]);
            assert(buffer@ =~= old(buffer)@ + instr_enc(instr_view(*v)));
        },
        Instr::F64Abs => {
            buffer.push(153u8);
            assert(buffer@ =~= old(buffer)@ + seq![153u8]);
            assert(buffer@ =~= old(buffer)@ + instr_enc(instr_view(*v)));
        },
        Instr::F64Neg => {
            buffer.push(154u8);
            assert(buffer@ =~= old(buffer)@ + seq![154u8]);
            assert(buffer@ =~= old(buffer)@ + instr_enc(instr_view(*v)));
        },
        Instr::F64Ceil => {
            buffer.push(155u8);
            assert(buffer@ =~= old(buffer)@ + seq![155u8]);
            assert(buffer@ =~= old(buffer)@ + instr_enc(instr_view(*v)));
        },
        Instr::F64Floor => {
            buffer.push(156u8);
            assert(buffer@ =~= old(buffer)@ + seq![156u8]);
            assert(buffer@ =~= old(buffer)@ + instr_enc(instr_view(*v)));
        },
        Instr::F64Trunc => {
            buffer.push(157u8);
            assert(buffer@ =~= old(buffer)@ + seq![157u8]);
            assert(buffer@ =~= old(buffer)@ + instr_enc(instr_view(*v)));
        },
        Instr::F64Nearest => {
            buffer.push(158u8);
            assert(buffer@ =~= old(buffer)@ + seq![158u8]);
            assert(buffer@ =~= old(buffer)@ + instr_enc(instr_view(*v)));
        },
        Instr::F64Sqrt => {
            buffer.push(159u8);
            assert(buffer@ =~= old(buffer)@ + seq![159u8]);
            assert(buffer@ =~= old(buffer)@ + instr_enc(instr_view(*v)));
        },
        Instr::F64Add => {
            buffer.push(160u8);
            assert(buffer@ =~= old(buffer)@ + seq![160u8]);
            assert(buffer@ =~= old(buffer)@ + instr_enc(instr_view(*v)));
        },
        Instr::F64Sub => {
            buffer.push(161u8);
            assert(buffer@ =~= old(buffer)@ + seq![161u8]);
            assert(buffer@ =~= old(buffer)@ + instr_enc(instr_view(*v)));
        },
        Instr::F64Mul => {
            buffer.push(162u8);
            assert(buffer@ =~= old(buffer)@ + seq![162u8]);
            assert(buffer@ =~= old(buffer)@ + instr_enc(instr_view(*v)));
        },
        Instr::F64Div => {
            buffer.push(163u8);
            assert(buffer@ =~= old(buffer)@ + seq![163u8]);
            assert(buffer@ =~= old(buffer)@ + instr_enc(instr_view(*v)));
        },
        Instr::F64Min => {
            buffer.push(164u8);
            assert(buffer@ =~= old(buffer)@ + seq![164u8]);
            assert(buffer@ =~= old(buffer)@ + instr_enc(instr_view(*v)));
        },
        Instr::F64Max => {
            buffer.push(165u8);
            assert(buffer@ =~= old(buffer)@ + seq![165u8]);
            assert(buffer@ =~= old(buffer)@ + instr_enc(instr_view(*v)));
        },
        Instr::F64Copysign => {
            buffer.push(166u8);
            assert(buffer@ =~= old(buffer)@ + seq![166u8]);
            assert(buffer@ =~= old(buffer)@ + instr_enc(instr_view(*v)));
        },
        Instr::I32WrapI64 => {
            buffer.push(167u8);
            assert(buffer@ =~= old(buffer)@ + seq![167u8]);
            assert(buffer@ =~= old(buffer)@ + instr_enc(instr_view(*v)));
        },
        Instr::I32TruncF32S => {
            buffer.push(168u8);
            assert(buffer@ =~= old(buffer)@ + seq![168u8]);
            assert(buffer@ =~= old(buffer)@ + instr_enc(instr_view(*v)));
        },
        Instr::I32TruncF32U => {
            buffer.push(169u8);
            assert(buffer@ =~= old(buffer)@ + seq![169u8]);
            assert(buffer@ =~= old(buffer)@ + instr_enc(instr_view(*v)));
        },
        Instr::I32TruncF64S => {
            buffer.push(170u8);
            assert(buffer@ =~= old(buffer)@ + seq![170u8]);
            assert(buffer@ =~= old(buffer)@ + instr_enc(instr_view(*v)));
        },
        Instr::I32TruncF64U => {
            buffer.push(171u8);
            assert(buffer@ =~= old(buffer)@ + seq![171u8]);
            assert(buffer@ =~= old(buffer)@ + instr_enc(instr_view(*v)));
        },
        Instr::I64ExtendI32S => {
            buffer.push(172u8);
            assert(buffer@ =~= old(buffer)@ + seq![172u8]);
            assert(buffer@ =~= old(buffer)@ + instr_enc(instr_view(*v)));
        },
        Instr::I64ExtendI32U => {
            buffer.push(173u8);
            assert(buffer@ =~= old(buffer)@ + seq![173u8]);
            assert(buffer@ =~= old(buffer)@ + instr_enc(instr_view(*v)));
        },
        Instr::I64TruncF32S => {
            buffer.push(174u8);
            assert(buffer@ =~= old(buffer)@ + seq![174u8]);
            assert(buffer@ =~= old(buffer)@ + instr_enc(instr_view(*v)));
        },
        Instr::I64TruncF32U => {
            buffer.push(175u8);
            assert(buffer@ =~= old(buffer)@ + seq![175u8]);
            assert(buffer@ =~= old(buffer)@ + instr_enc(instr_view(*v)));
        },
        Instr::I64TruncF64S => {
            buffer.push(176u8);
            assert(buffer@ =~= old(buffer)@ + seq![176u8]);
            assert(buffer@ =~= old(buffer)@ + instr_enc(instr_view(*v)));
        },
        Instr::I64TruncF64U => {
            buffer.push(177u8);
            assert(buffer@ =~= old(buffer)@ + seq![177u8]);
            assert(buffer@ =~= old(buffer)@ + instr_enc(instr_view(*v)));
        },
        Instr::F32ConvertI32S => {
            buffer.push(178u8);
            assert(buffer@ =~= old(buffer)@ + seq![178u8]);
            assert(buffer@ =~= old(buffer)@ + instr_enc(instr_view(*v)));
        },
        Instr::F32ConvertI32U => {
            buffer.push(179u8);
            assert(buffer@ =~= old(buffer)@ + seq![179u8]);
            assert(buffer@ =~= old(buffer)@ + instr_enc(instr_view(*v)));
        },
        Instr::F32ConvertI64S => {
            buffer.push(180u8);
            assert(buffer@ =~= old(buffer)@ + seq![180u8]);
            assert(buffer@ =~= old(buffer)@ + instr_enc(instr_view(*v)));
        },
        Instr::F32ConvertI64U => {
            buffer.push(181u8);
            assert(buffer@ =~= old(buffer)@ + seq![181u8]);
            assert(buffer@ =~= old(buffer)@ + instr_enc(instr_view(*v)));
        },
        Instr::F32DemoteF64 => {
            buffer.push(182u8);
            assert(buffer@ =~= old(buffer)@ + seq![182u8]);
            assert(buffer@ =~= old(buffer)@ + instr_enc(instr_view(*v)));
        },
        Instr::F64ConvertI32S => {
            buffer.push(183u8);
            assert(buffer@ =~= old(buffer)@ + seq![183u8]);
            assert(buffer@ =~= old(buffer)@ + instr_enc(instr_view(*v)));
        },
        Instr::F64ConvertI32U => {
            buffer.push(184u8);
            assert(buffer@ =~= old(buffer)@ + seq![184u8]);
            assert(buffer@ =~= old(buffer)@ + instr_enc(instr_view(*v)));
        },
        Instr::F64ConvertI64S => {
            buffer.push(185u8);
            assert(buffer@ =~= old(buffer)@ + seq![185u8]);
            assert(buffer@ =~= old(buffer)@ + instr_enc(instr_view(*v)));
        },
        Instr::F64ConvertI64U => {
            buffer.push(186u8);
            assert(buffer@ =~= old(buffer)@ + seq![186u8]);
            assert(buffer@ =~= old(buffer)@ + instr_enc(instr_view(*v)));
        },
        Instr::F64PromoteF32 => {
            buffer.push(187u8);
            assert(buffer@ =~= old(buffer)@ + seq![187u8]);
            assert(buffer@ =~= old(buffer)@ + instr_enc(instr_view(*v)));
        },
        Instr::I32ReinterpretF32 => {
            buffer.push(188u8);
            assert(buffer@ =~= old(buffer)@ + seq![188u8]);
            assert(buffer@ =~= old(buffer)@ + instr_enc(instr_view(*v)));
        },
        Instr::I64ReinterpretF64 => {
            buffer.push(189u8);
            assert(buffer@ =~= old(buffer)@ + seq![189u8]);
            assert(buffer@ =~= old(buffer)@ + instr_enc(instr_view(*v)));
        },
        Instr::F32ReinterpretI32 => {
            buffer.push(190u8);
            assert(buffer@ =~= old(buffer)@ + seq![190u8]);
            assert(buffer@ =~= old(buffer)@ + instr_enc(instr_view(*v)));
        },
        Instr::F64ReinterpretI64 => {
            buffer.push(191u8);
            assert(buffer@ =~= old(buffer)@ + seq![191u8]);
            assert(buffer@ =~= old(buffer)@ + instr_enc(instr_view(*v)));
        },
        Instr::I32Extend8S => {
            buffer.push(192u8);
            assert(buffer@ =~= old(buffer)@ + seq![192u8]);
            assert(buffer@ =~= old(buffer)@ + instr_enc(instr_view(*v)));
        },
        Instr::I32Extend16S => {
            buffer.push(193u8);
            assert(buffer@ =~= old(buffer)@ + seq![193u8]);
            assert(buffer@ =~= old(buffer)@ + instr_enc(instr_view(*v)));
        },
        Instr::I64Extend8S => {
            buffer.push(194u8);
            assert(buffer@ =~= old(buffer)@ + seq![194u8]);
            assert(buffer@ =~= old(buffer)@ + instr_enc(instr_view(*v)));
        },
        Instr::I64Extend16S => {
            buffer.push(195u8);
            assert(buffer@ =~= old(buffer)@ + seq![195u8]);
            assert(buffer@ =~= old(buffer)@ + instr_enc(instr_view(*v)));
        },
        Instr::I64Extend32S => {
            buffer.push(196u8);
            assert(buffer@ =~= old(buffer)@ + seq![196u8]);
            assert(buffer@ =~= old(buffer)@ + instr_enc(instr_view(*v)));
        },
        _ => {
            proof {
                assert(false);
            }
        },
    }
}

/// Appends the canonical encoding of one instruction (mem group).
#[verifier::rlimit(100)]
fn instr_encode_mem(v: &Instr, buffer: &mut Vec<u8>)
    requires
        instr_wf(instr_view(*v)),
        0x28 <= instr_op(instr_view(*v)) <= 0x3E,
    ensures
        final(buffer)@ == old(buffer)@ + instr_enc(instr_view(*v)),
    decreases v, 0int,
{
    match v {
        Instr::I32Load(a0) => {
            buffer.push(40u8);
            assert(buffer@ =~= old(buffer)@ + seq![40u8]);
            a0.encode(buffer);
            assert(buffer@ =~= old(buffer)@ + seq![40u8] + <MemArg as Encode>::spec_enc(a0.deep_view()));
            assert(buffer@ =~= old(buffer)@ + instr_enc(instr_view(*v)));
        },
        Instr::I64Load(a0) => {
            buffer.push(41u8);
            assert(buffer@ =~= old(buffer)@ + seq![41u8]);
            a0.encode(buffer);
            assert(buffer@ =~= old(buffer)@ + seq![41u8] + <MemArg as Encode>::spec_enc(a0.deep_view()));
            assert(buffer@ =~= old(buffer)@ + instr_enc(instr_view(*v)));
        },
        Instr::F32Load(a0) => {
            buffer.push(42u8);
            assert(buffer@ =~= old(buffer)@ + seq![42u8]);
            a0.encode(buffer);
            assert(buffer@ =~= old(buffer)@ + seq![42u8] + <MemArg as Encode>::spec_enc(a0.deep_view()));
            assert(buffer@ =~= old(buffer)@ + instr_enc(instr_view(*v)));
        },
        Instr::F64Load(a0) => {
            buffer.push(43u8);
            assert(buffer@ =~= old(buffer)@ + seq![43u8]);
            a0.encode(buffer);
            assert(buffer@ =~= old(buffer)@ + seq![43u8] + <MemArg as Encode>::spec_enc(a0.deep_view()));
            assert(buffer@ =~= old(buffer)@ + instr_enc(instr_view(*v)));
        },
        Instr::I32Load8S(a0) => {
            buffer.push(44u8);
            assert(buffer@ =~= old(buffer)@ + seq![44u8]);
            a0.encode(buffer);
            assert(buffer@ =~= old(buffer)@ + seq![44u8] + <MemArg as Encode>::spec_enc(a0.deep_view()));
            assert(buffer@ =~= old(buffer)@ + instr_enc(instr_view(*v)));
        },
        Instr::I32Load8U(a0) => {
            buffer.push(45u8);
            assert(buffer@ =~= old(buffer)@ + seq![45u8]);
            a0.encode(buffer);
            assert(buffer@ =~= old(buffer)@ + seq![45u8] + <MemArg as Encode>::spec_enc(a0.deep_view()));
            assert(buffer@ =~= old(buffer)@ + instr_enc(instr_view(*v)));
        },
        Instr::I32Load16S(a0) => {
            buffer.push(46u8);
            assert(buffer@ =~= old(buffer)@ + seq![46u8]);
            a0.encode(buffer);
            assert(buffer@ =~= old(buffer)@ + seq![46u8] + <MemArg as Encode>::spec_enc(a0.deep_view()));
            assert(buffer@ =~= old(buffer)@ + instr_enc(instr_view(*v)));
        },
        Instr::I32Load16U(a0) => {
            buffer.push(47u8);
            assert(buffer@ =~= old(buffer)@ + seq![47u8]);
            a0.encode(buffer);
            assert(buffer@ =~= old(buffer)@ + seq![47u8] + <MemArg as Encode>::spec_enc(a0.deep_view()));
            assert(buffer@ =~= old(buffer)@ + instr_enc(instr_view(*v)));
        },
        Instr::I64Load8S(a0) => {
            buffer.push(48u8);
            assert(buffer@ =~= old(buffer)@ + seq![48u8]);
            a0.encode(buffer);
            assert(buffer@ =~= old(buffer)@ + seq![48u8] + <MemArg as Encode>::spec_enc(a0.deep_view()));
            assert(buffer@ =~= old(buffer)@ + instr_enc(instr_view(*v)));
        },
        Instr::I64Load8U(a0) => {
            buffer.push(49u8);
            assert(buffer@ =~= old(buffer)@ + seq![49u8]);
            a0.encode(buffer);
            assert(buffer@ =~= old(buffer)@ + seq![49u8] + <MemArg as Encode>::spec_enc(a0.deep_view()));
            assert(buffer@ =~= old(buffer)@ + instr_enc(instr_view(*v)));
        },
        Instr::I64Load16S(a0) => {
            buffer.push(50u8);
            assert(buffer@ =~= old(buffer)@ + seq![50u8]);
            a0.encode(buffer);
            assert(buffer@ =~= old(buffer)@ + seq![50u8] + <MemArg as Encode>::spec_enc(a0.deep_view()));
            assert(buffer@ =~= old(buffer)@ + instr_enc(instr_view(*v)));
        },
        Instr::I64Load16U(a0) => {
            buffer.push(51u8);
            assert(buffer@ =~= old(buffer)@ + seq![51u8]);
            a0.encode(buffer);
            assert(buffer@ =~= old(buffer)@ + seq![51u8] + <MemArg as Encode>::spec_enc(a0.deep_view()));
            assert(buffer@ =~= old(buffer)@ + instr_enc(instr_view(*v)));
        },
        Instr::I64Load32S(a0) => {
            buffer.push(52u8);
            assert(buffer@ =~= old(buffer)@ + seq![52u8]);
            a0.encode(buffer);
            assert(buffer@ =~= old(buffer)@ + seq![52u8] + <MemArg as Encode>::spec_enc(a0.deep_view()));
            assert(buffer@ =~= old(buffer)@ + instr_enc(instr_view(*v)));
        },
        Instr::I64Load32U(a0) => {
            buffer.push(53u8);
            assert(buffer@ =~= old(buffer)@ + seq![53u8]);
            a0.encode(buffer);
            assert(buffer@ =~= old(buffer)@ + seq![53u8] + <MemArg as Encode>::spec_enc(a0.deep_view()));
            assert(buffer@ =~= old(buffer)@ + instr_enc(instr_view(*v)));
        },
        Instr::I32Store(a0) => {
            buffer.push(54u8);
            assert(buffer@ =~= old(buffer)@ + seq![54u8]);
            a0.encode(buffer);
            assert(buffer@ =~= old(buffer)@ + seq![54u8] + <MemArg as Encode>::spec_enc(a0.deep_view()));
            assert(buffer@ =~= old(buffer)@ + instr_enc(instr_view(*v)));
        },
        Instr::I64Store(a0) => {
            buffer.push(55u8);
            assert(buffer@ =~= old(buffer)@ + seq![55u8]);
            a0.encode(buffer);
            assert(buffer@ =~= old(buffer)@ + seq![55u8] + <MemArg as Encode>::spec_enc(a0.deep_view()));
            assert(buffer@ =~= old(buffer)@ + instr_enc(instr_view(*v)));
        },
        Instr::F32Store(a0) => {
            buffer.push(56u8);
            assert(buffer@ =~= old(buffer)@ + seq![56u8]);
            a0.encode(buffer);
            assert(buffer@ =~= old(buffer)@ + seq![56u8] + <MemArg as Encode>::spec_enc(a0.deep_view()));
            assert(buffer@ =~= old(buffer)@ + instr_enc(instr_view(*v)));
        },
        Instr::F64Store(a0) => {
            buffer.push(57u8);
            assert(buffer@ =~= old(buffer)@ + seq![57u8]);
            a0.encode(buffer);
            assert(buffer@ =~= old(buffer)@ + seq![57u8] + <MemArg as Encode>::spec_enc(a0.deep_view()));
            assert(buffer@ =~= old(buffer)@ + instr_enc(instr_view(*v)));
        },
        Instr::I32Store8(a0) => {
            buffer.push(58u8);
            assert(buffer@ =~= old(buffer)@ + seq![58u8]);
            a0.encode(buffer);
            assert(buffer@ =~= old(buffer)@ + seq![58u8] + <MemArg as Encode>::spec_enc(a0.deep_view()));
            assert(buffer@ =~= old(buffer)@ + instr_enc(instr_view(*v)));
        },
        Instr::I32Store16(a0) => {
            buffer.push(59u8);
            assert(buffer@ =~= old(buffer)@ + seq![59u8]);
            a0.encode(buffer);
            assert(buffer@ =~= old(buffer)@ + seq![59u8] + <MemArg as Encode>::spec_enc(a0.deep_view()));
            assert(buffer@ =~= old(buffer)@ + instr_enc(instr_view(*v)));
        },
        Instr::I64Store8(a0) => {
            buffer.push(60u8);
            assert(buffer@ =~= old(buffer)@ + seq![60u8]);
            a0.encode(buffer);
            assert(buffer@ =~= old(buffer)@ + seq![60u8] + <MemArg as Encode>::spec_enc(a0.deep_view()));
            assert(buffer@ =~= old(buffer)@ + instr_enc(instr_view(*v)));
        },
        Instr::I64Store16(a0) => {
            buffer.push(61u8);
            assert(buffer@ =~= old(buffer)@ + seq![61u8]);
            a0.encode(buffer);
            assert(buffer@ =~= old(buffer)@ + seq![61u8] + <MemArg as Encode>::spec_enc(a0.deep_view()));
            assert(buffer@ =~= old(buffer)@ + instr_enc(instr_view(*v)));
        },
        Instr::I64Store32(a0) => {
            buffer.push(62u8);
            assert(buffer@ =~= old(buffer)@ + seq![62u8]);
            a0.encode(buffer);
            assert(buffer@ =~= old(buffer)@ + seq![62u8] + <MemArg as Encode>::spec_enc(a0.deep_view()));
            assert(buffer@ =~= old(buffer)@ + instr_enc(instr_view(*v)));
        },
        _ => {
            proof {
                assert(false);
            }
        },
    }
}

/// Appends the canonical encoding of one instruction (fc group).
#[verifier::rlimit(100)]
fn instr_encode_fc(v: &Instr, buffer: &mut Vec<u8>)
    requires
        instr_wf(instr_view(*v)),
        instr_op(instr_view(*v)) == 0xFC,
    ensures
        final(buffer)@ == old(buffer)@ + instr_enc(instr_view(*v)),
    decreases v, 0int,
{
    match v {
        Instr::TableInit(a0, a1) => {
            buffer.push(252u8);
            assert(buffer@ =~= old(buffer)@ + seq![252u8]);
            uleb64_encode(12u64, buffer);
            assert(buffer@ =~= old(buffer)@ + seq![252u8] + uleb(12 as nat));
            a0.encode(buffer);
            assert(buffer@ =~= old(buffer)@ + seq![252u8] + uleb(12 as nat) + <ElemIdx as Encode>::spec_enc(a0.deep_view()));
            a1.encode(buffer);
            assert(buffer@ =~= old(buffer)@ + seq![252u8] + uleb(12 as nat) + <ElemIdx as Encode>::spec_enc(a0.deep_view()) + <TableIdx as Encode>::spec_enc(a1.deep_view()));
            assert(buffer@ =~= old(buffer)@ + instr_enc(instr_view(*v)));
        },
        Instr::ElemDrop(a0) => {
            buffer.push(252u8);
            assert(buffer@ =~= old(buffer)@ + seq![252u8]);
            uleb64_encode(13u64, buffer);
            assert(buffer@ =~= old(buffer)@ + seq![252u8] + uleb(13 as nat));
            a0.encode(buffer);
            assert(buffer@ =~= old(buffer)@ + seq![252u8] + uleb(13 as nat) + <ElemIdx as Encode>::spec_enc(a0.deep_view()));
            assert(buffer@ =~= old(buffer)@ + instr_enc(instr_view(*v)));
        },
        Instr::TableCopy(a0, a1) => {
            buffer.push(252u8);
            assert(buffer@ =~= old(buffer)@ + seq![252u8]);
            uleb64_encode(14u64, buffer);
            assert(buffer@ =~= old(buffer)@ + seq![252u8] + uleb(14 as nat));
            a0.encode(buffer);
            assert(buffer@ =~= old(buffer)@ + seq![252u8] + uleb(14 as nat) + <TableIdx as Encode>::spec_enc(a0.deep_view()));
            a1.encode(buffer);
            assert(buffer@ =~= old(buffer)@ + seq![252u8] + uleb(14 as nat) + <TableIdx as Encode>::spec_enc(a0.deep_view()) + <TableIdx as Encode>::spec_enc(a1.deep_view()));
            assert(buffer@ =~= old(buffer)@ + instr_enc(instr_view(*v)));
        },
        Instr::TableGrow(a0) => {
            buffer.push(252u8);
            assert(buffer@ =~= old(buffer)@ + seq![252u8]);
            uleb64_encode(15u64, buffer);
            assert(buffer@ =~= old(buffer)@ + seq![252u8] + uleb(15 as nat));
            a0.encode(buffer);
            assert(buffer@ =~= old(buffer)@ + seq![252u8] + uleb(15 as nat) + <TableIdx as Encode>::spec_enc(a0.deep_view()));
            assert(buffer@ =~= old(buffer)@ + instr_enc(instr_view(*v)));
        },
        Instr::TableSize(a0) => {
            buffer.push(252u8);
            assert(buffer@ =~= old(buffer)@ + seq![252u8]);
            uleb64_encode(16u64, buffer);
            assert(buffer@ =~= old(buffer)@ + seq![252u8] + uleb(16 as nat));
            a0.encode(buffer);
            assert(buffer@ =~= old(buffer)@ + seq![252u8] + uleb(16 as nat) + <TableIdx as Encode>::spec_enc(a0.deep_view()));
            assert(buffer@ =~= old(buffer)@ + instr_enc(instr_view(*v)));
        },
        Instr::TableFill(a0) => {
            buffer.push(252u8);
            assert(buffer@ =~= old(buffer)@ + seq![252u8]);
            uleb64_encode(17u64, buffer);
            assert(buffer@ =~= old(buffer)@ + seq![252u8] + uleb(17 as nat));
            a0.encode(buffer);
            assert(buffer@ =~= old(buffer)@ + seq![252u8] + uleb(17 as nat) + <TableIdx as Encode>::spec_enc(a0.deep_view()));
            assert(buffer@ =~= old(buffer)@ + instr_enc(instr_view(*v)));
        },
        Instr::MemoryInit(a0) => {
            buffer.push(252u8);
            assert(buffer@ =~= old(buffer)@ + seq![252u8]);
            uleb64_encode(8u64, buffer);
            assert(buffer@ =~= old(buffer)@ + seq![252u8] + uleb(8 as nat));
            a0.encode(buffer);
            assert(buffer@ =~= old(buffer)@ + seq![252u8] + uleb(8 as nat) + <DataIdx as Encode>::spec_enc(a0.deep_view()));
            buffer.push(0u8);
            assert(buffer@ =~= old(buffer)@ + seq![252u8] + uleb(8 as nat) + <DataIdx as Encode>::spec_enc(a0.deep_view()) + seq![0u8]);
            assert(buffer@ =~= old(buffer)@ + instr_enc(instr_view(*v)));
        },
        Instr::DataDrop(a0) => {
            buffer.push(252u8);
            assert(buffer@ =~= old(buffer)@ + seq![252u8]);
            uleb64_encode(9u64, buffer);
            assert(buffer@ =~= old(buffer)@ + seq![252u8] + uleb(9 as nat));
            a0.encode(buffer);
            assert(buffer@ =~= old(buffer)@ + seq![252u8] + uleb(9 as nat) + <DataIdx as Encode>::spec_enc(a0.deep_view()));
            assert(buffer@ =~= old(buffer)@ + instr_enc(instr_view(*v)));
        },
        Instr::MemoryCopy => {
            buffer.push(252u8);
            assert(buffer@ =~= old(buffer)@ + seq![252u8]);
            uleb64_encode(10u64, buffer);
            assert(buffer@ =~= old(buffer)@ + seq![252u8] + uleb(10 as nat));
            buffer.push(0u8);
            assert(buffer@ =~= old(buffer)@ + seq![252u8] + uleb(10 as nat) + seq![0u8]);
            buffer.push(0u8);
            assert(buffer@ =~= old(buffer)@ + seq![252u8] + uleb(10 as nat) + seq![0u8] + seq![0u8]);
            assert(buffer@ =~= old(buffer)@ + instr_enc(instr_view(*v)));
        },
        Instr::MemoryFill => {
            buffer.push(252u8);
            assert(buffer@ =~= old(buffer)@ + seq![252u8]);
            uleb64_encode(11u64, buffer);
            assert(buffer@ =~= old(buffer)@ + seq![252u8] + uleb(11 as nat));
            buffer.push(0u8);
            assert(buffer@ =~= old(buffer)@ + seq![252u8] + uleb(11 as nat) + seq![0u8]);
            assert(buffer@ =~= old(buffer)@ + instr_enc(instr_view(*v)));
        },
        Instr::I32TruncSatF32S => {
            buffer.push(252u8);
            assert(buffer@ =~= old(buffer)@ + seq![252u8]);
            uleb64_encode(0u64, buffer);
            assert(buffer@ =~= old(buffer)@ + seq![252u8] + uleb(0 as nat));
            assert(buffer@ =~= old(buffer)@ + instr_enc(instr_view(*v)));
        },
        Instr::I32TruncSatF32U => {
            buffer.push(252u8);
            assert(buffer@ =~= old(buffer)@ + seq![252u8]);
            uleb64_encode(1u64, buffer);
            assert(buffer@ =~= old(buffer)@ + seq![252u8] + uleb(1 as nat));
            assert(buffer@ =~= old(buffer)@ + instr_enc(instr_view(*v)));
        },
        Instr::I32TruncSatF64S => {
            buffer.push(252u8);
            assert(buffer@ =~= old(buffer)@ + seq![252u8]);
            uleb64_encode(2u64, buffer);
            assert(buffer@ =~= old(buffer)@ + seq![252u8] + uleb(2 as nat));
            assert(buffer@ =~= old(buffer)@ + instr_enc(instr_view(*v)));
        },
        Instr::I32TruncSatF64U => {
            buffer.push(252u8);
            assert(buffer@ =~= old(buffer)@ + seq![252u8]);
            uleb64_encode(3u64, buffer);
            assert(buffer@ =~= old(buffer)@ + seq![252u8] + uleb(3 as nat));
            assert(buffer@ =~= old(buffer)@ + instr_enc(instr_view(*v)));
        },
        Instr::I64TruncSatF32S => {
            buffer.push(252u8);
            assert(buffer@ =~= old(buffer)@ + seq![252u8]);
            uleb64_encode(4u64, buffer);
            assert(buffer@ =~= old(buffer)@ + seq![252u8] + uleb(4 as nat));
            assert(buffer@ =~= old(buffer)@ + instr_enc(instr_view(*v)));
        },
        Instr::I64TruncSatF32U => {
            buffer.push(252u8);
            assert(buffer@ =~= old(buffer)@ + seq![252u8]);
            uleb64_encode(5u64, buffer);
            assert(buffer@ =~= old(buffer)@ + seq![252u8] + uleb(5 as nat));
            assert(buffer@ =~= old(buffer)@ + instr_enc(instr_view(*v)));
        },
        Instr::I64TruncSatF64S => {
            buffer.push(252u8);
            assert(buffer@ =~= old(buffer)@ + seq![252u8]);
            uleb64_encode(6u64, buffer);
            assert(buffer@ =~= old(buffer)@ + seq![252u8] + uleb(6 as nat));
            assert(buffer@ =~= old(buffer)@ + instr_enc(instr_view(*v)));
        },
        Instr::I64TruncSatF64U => {
            buffer.push(252u8);
            assert(buffer@ =~= old(buffer)@ + seq![252u8]);
            uleb64_encode(7u64, buffer);
            assert(buffer@ =~= old(buffer)@ + seq![252u8] + uleb(7 as nat));
            assert(buffer@ =~= old(buffer)@ + instr_enc(instr_view(*v)));
        },
        _ => {
            proof {
                assert(false);
            }
        },
    }
}

/// Appends the canonical encoding of one instruction (other group).
#[verifier::rlimit(100)]
fn instr_encode_other(v: &Instr, buffer: &mut Vec<u8>)
    requires
        instr_wf(instr_view(*v)),
        !(0x45 <= instr_op(instr_view(*v)) <= 0xC4) && !(0x28 <= instr_op(instr_view(*v)) <= 0x3E) && instr_op(instr_view(*v)) != 0xFC,
    ensures
        final(buffer)@ == old(buffer)@ + instr_enc(instr_view(*v)),
    decreases v, 0int,
{
    match v {
        Instr::Unreachable => {
            buffer.push(0u8);
            assert(buffer@ =~= old(buffer)@ + seq![0u8]);
            assert(buffer@ =~= old(buffer)@ + instr_enc(instr_view(*v)));
        },
        Instr::Nop => {
            buffer.push(1u8);
            assert(buffer@ =~= old(buffer)@ + seq![1u8]);
            assert(buffer@ =~= old(buffer)@ + instr_enc(instr_view(*v)));
        },
        Instr::Block(a0, a1) => {
            buffer.push(2u8);
            assert(buffer@ =~= old(buffer)@ + seq![2u8]);
            a0.encode(buffer);
            assert(buffer@ =~= old(buffer)@ + seq![2u8] + <i32 as Encode>::spec_enc(a0.deep_view()));
            instr_seq_encode(&a1.0, buffer);
            assert(buffer@ =~= old(buffer)@ + seq![2u8] + <i32 as Encode>::spec_enc(a0.deep_view()) + instr_seq_enc(instr_vec_view(a1.0)));
            buffer.push(11u8);
            assert(buffer@ =~= old(buffer)@ + seq![2u8] + <i32 as Encode>::spec_enc(a0.deep_view()) + instr_seq_enc(instr_vec_view(a1.0)) + seq![11u8]);
            assert(buffer@ =~= old(buffer)@ + instr_enc(instr_view(*v)));
        },
        Instr::Loop(a0, a1) => {
            buffer.push(3u8);
            assert(buffer@ =~= old(buffer)@ + seq![3u8]);
            a0.encode(buffer);
            assert(buffer@ =~= old(buffer)@ + seq![3u8] + <i32 as Encode>::spec_enc(a0.deep_view()));
            instr_seq_encode(&a1.0, buffer);
            assert(buffer@ =~= old(buffer)@ + seq![3u8] + <i32 as Encode>::spec_enc(a0.deep_view()) + instr_seq_enc(instr_vec_view(a1.0)));
            buffer.push(11u8);
            assert(buffer@ =~= old(buffer)@ + seq![3u8] + <i32 as Encode>::spec_enc(a0.deep_view()) + instr_seq_enc(instr_vec_view(a1.0)) + seq![11u8]);
            assert(buffer@ =~= old(buffer)@ + instr_enc(instr_view(*v)));
        },
        Instr::If(a0, a1, a2) => {
            buffer.push(4u8);
            assert(buffer@ =~= old(buffer)@ + seq![4u8]);
            a0.encode(buffer);
            assert(buffer@ =~= old(buffer)@ + seq![4u8] + <i32 as Encode>::spec_enc(a0.deep_view()));
            instr_seq_encode(&a1.0, buffer);
            assert(buffer@ =~= old(buffer)@ + seq![4u8] + <i32 as Encode>::spec_enc(a0.deep_view()) + instr_seq_enc(instr_vec_view(a1.0)));
            else_encode(a2, buffer);
            assert(buffer@ =~= old(buffer)@ + seq![4u8] + <i32 as Encode>::spec_enc(a0.deep_view()) + instr_seq_enc(instr_vec_view(a1.0)) + else_enc(else_view(*a2)));
            assert(buffer@ =~= old(buffer)@ + instr_enc(instr_view(*v)));
        },
        Instr::Br(a0) => {
            buffer.push(12u8);
            assert(buffer@ =~= old(buffer)@ + seq![12u8]);
            a0.encode(buffer);
            assert(buffer@ =~= old(buffer)@ + seq![12u8] + <LabelIdx as Encode>::spec_enc(a0.deep_view()));
            assert(buffer@ =~= old(buffer)@ + instr_enc(instr_view(*v)));
        },
        Instr::BrIf(a0) => {
            buffer.push(13u8);
            assert(buffer@ =~= old(buffer)@ + seq![13u8]);
            a0.encode(buffer);
            assert(buffer@ =~= old(buffer)@ + seq![13u8] + <LabelIdx as Encode>::spec_enc(a0.deep_view()));
            assert(buffer@ =~= old(buffer)@ + instr_enc(instr_view(*v)));
        },
        Instr::BrTable(a0, a1) => {
            buffer.push(14u8);
            assert(buffer@ =~= old(buffer)@ + seq![14u8]);
            a0.encode(buffer);
            assert(buffer@ =~= old(buffer)@ + seq![14u8] + <Vec<LabelIdx> as Encode>::spec_enc(a0.deep_view()));
            a1.encode(buffer);
            assert(buffer@ =~= old(buffer)@ + seq![14u8] + <Vec<LabelIdx> as Encode>::spec_enc(a0.deep_view()) + <LabelIdx as Encode>::spec_enc(a1.deep_view()));
            assert(buffer@ =~= old(buffer)@ + instr_enc(instr_view(*v)));
        },
        Instr::Return => {
            buffer.push(15u8);
            assert(buffer@ =~= old(buffer)@ + seq![15u8]);
            assert(buffer@ =~= old(buffer)@ + instr_enc(instr_view(*v)));
        },
        Instr::Call(a0) => {
            buffer.push(16u8);
            assert(buffer@ =~= old(buffer)@ + seq![16u8]);
            a0.encode(buffer);
            assert(buffer@ =~= old(buffer)@ + seq![16u8] + <FuncIdx as Encode>::spec_enc(a0.deep_view()));
            assert(buffer@ =~= old(buffer)@ + instr_enc(instr_view(*v)));
        },
        Instr::CallIndirect(a0, a1) => {
            buffer.push(17u8);
            assert(buffer@ =~= old(buffer)@ + seq![17u8]);
            a0.encode(buffer);
            assert(buffer@ =~= old(buffer)@ + seq![17u8] + <TypeIdx as Encode>::spec_enc(a0.deep_view()));
            a1.encode(buffer);
            assert(buffer@ =~= old(buffer)@ + seq![17u8] + <TypeIdx as Encode>::spec_enc(a0.deep_view()) + <TableIdx as Encode>::spec_enc(a1.deep_view()));
            assert(buffer@ =~= old(buffer)@ + instr_enc(instr_view(*v)));
        },
        Instr::RefNull(a0) => {
            buffer.push(208u8);
            assert(buffer@ =~= old(buffer)@ + seq![208u8]);
            a0.encode(buffer);
            assert(buffer@ =~= old(buffer)@ + seq![208u8] + <RefType as Encode>::spec_enc(a0.deep_view()));
            assert(buffer@ =~= old(buffer)@ + instr_enc(instr_view(*v)));
        },
        Instr::RefIsNull => {
            buffer.push(209u8);
            assert(buffer@ =~= old(buffer)@ + seq![209u8]);
            assert(buffer@ =~= old(buffer)@ + instr_enc(instr_view(*v)));
        },
        Instr::RefFunc(a0) => {
            buffer.push(210u8);
            assert(buffer@ =~= old(buffer)@ + seq![210u8]);
            a0.encode(buffer);
            assert(buffer@ =~= old(buffer)@ + seq![210u8] + <FuncIdx as Encode>::spec_enc(a0.deep_view()));
            assert(buffer@ =~= old(buffer)@ + instr_enc(instr_view(*v)));
        },
        Instr::Drop => {
            buffer.push(26u8);
            assert(buffer@ =~= old(buffer)@ + seq![26u8]);
            assert(buffer@ =~= old(buffer)@ + instr_enc(instr_view(*v)));
        },
        Instr::Select => {
            buffer.push(27u8);
            assert(buffer@ =~= old(buffer)@ + seq![27u8]);
            assert(buffer@ =~= old(buffer)@ + instr_enc(instr_view(*v)));
        },
        Instr::SelectTys(a0) => {
            buffer.push(28u8);
            assert(buffer@ =~= old(buffer)@ + seq![28u8]);
            a0.encode(buffer);
            assert(buffer@ =~= old(buffer)@ + seq![28u8] + <Vec<ValType> as Encode>::spec_enc(a0.deep_view()));
            assert(buffer@ =~= old(buffer)@ + instr_enc(instr_view(*v)));
        },
        Instr::LocalGet(a0) => {
            buffer.push(32u8);
            assert(buffer@ =~= old(buffer)@ + seq![32u8]);
            a0.encode(buffer);
            assert(buffer@ =~= old(buffer)@ + seq![32u8] + <LocalIdx as Encode>::spec_enc(a0.deep_view()));
            assert(buffer@ =~= old(buffer)@ + instr_enc(instr_view(*v)));
        },
        Instr::LocalSet(a0) => {
            buffer.push(33u8);
            assert(buffer@ =~= old(buffer)@ + seq![33u8]);
            a0.encode(buffer);
            assert(buffer@ =~= old(buffer)@ + seq![33u8] + <LocalIdx as Encode>::spec_enc(a0.deep_view()));
            assert(buffer@ =~= old(buffer)@ + instr_enc(instr_view(*v)));
        },
        Instr::LocalTee(a0) => {
            buffer.push(34u8);
            assert(buffer@ =~= old(buffer)@ + seq![34u8]);
            a0.encode(buffer);
            assert(buffer@ =~= old(buffer)@ + seq![34u8] + <LocalIdx as Encode>::spec_enc(a0.deep_view()));
            assert(buffer@ =~= old(buffer)@ + instr_enc(instr_view(*v)));
        },
        Instr::GlobalGet(a0) => {
            buffer.push(35u8);
            assert(buffer@ =~= old(buffer)@ + seq![35u8]);
            a0.encode(buffer);
            assert(buffer@ =~= old(buffer)@ + seq![35u8] + <GlobalIdx as Encode>::spec_enc(a0.deep_view()));
            assert(buffer@ =~= old(buffer)@ + instr_enc(instr_view(*v)));
        },
        Instr::GlobalSet(a0) => {
            buffer.push(36u8);
            assert(buffer@ =~= old(buffer)@ + seq![36u8]);
            a0.encode(buffer);
            assert(buffer@ =~= old(buffer)@ + seq![36u8] + <GlobalIdx as Encode>::spec_enc(a0.deep_view()));
            assert(buffer@ =~= old(buffer)@ + instr_enc(instr_view(*v)));
        },
        Instr::TableGet(a0) => {
            buffer.push(37u8);
            assert(buffer@ =~= old(buffer)@ + seq![37u8]);
            a0.encode(buffer);
            assert(buffer@ =~= old(buffer)@ + seq![37u8] + <TableIdx as Encode>::spec_enc(a0.deep_view()));
            assert(buffer@ =~= old(buffer)@ + instr_enc(instr_view(*v)));
        },
        Instr::TableSet(a0) => {
            buffer.push(38u8);
            assert(buffer@ =~= old(buffer)@ + seq![38u8]);
            a0.encode(buffer);
            assert(buffer@ =~= old(buffer)@ + seq![38u8] + <TableIdx as Encode>::spec_enc(a0.deep_view()));
            assert(buffer@ =~= old(buffer)@ + instr_enc(instr_view(*v)));
        },
        Instr::MemorySize => {
            buffer.push(63u8);
            assert(buffer@ =~= old(buffer)@ + seq![63u8]);
            buffer.push(0u8);
            assert(buffer@ =~= old(buffer)@ + seq![63u8] + seq![0u8]);
            assert(buffer@ =~= old(buffer)@ + instr_enc(instr_view(*v)));
        },
        Instr::MemoryGrow => {
            buffer.push(64u8);
            assert(buffer@ =~= old(buffer)@ + seq![64u8]);
            buffer.push(0u8);
            assert(buffer@ =~= old(buffer)@ + seq![64u8] + seq![0u8]);
            assert(buffer@ =~= old(buffer)@ + instr_enc(instr_view(*v)));
        },
        Instr::I32Const(a0) => {
            buffer.push(65u8);
            assert(buffer@ =~= old(buffer)@ + seq![65u8]);
            a0.encode(buffer);
            assert(buffer@ =~= old(buffer)@ + seq![65u8] + <i32 as Encode>::spec_enc(a0.deep_view()));
            assert(buffer@ =~= old(buffer)@ + instr_enc(instr_view(*v)));
        },
        Instr::I64Const(a0) => {
            buffer.push(66u8);
            assert(buffer@ =~= old(buffer)@ + seq![66u8]);
            a0.encode(buffer);
            assert(buffer@ =~= old(buffer)@ + seq![66u8] + <i64 as Encode>::spec_enc(a0.deep_view()));
            assert(buffer@ =~= old(buffer)@ + instr_enc(instr_view(*v)));
        },
        Instr::F32Const(a0) => {
            buffer.push(67u8);
            assert(buffer@ =~= old(buffer)@ + seq![67u8]);
            a0.encode(buffer);
            assert(buffer@ =~= old(buffer)@ + seq![67u8] + <F32Bits as Encode>::spec_enc(a0.deep_view()));
            assert(buffer@ =~= old(buffer)@ + instr_enc(instr_view(*v)));
        },
        Instr::F64Const(a0) => {
            buffer.push(68u8);
            assert(buffer@ =~= old(buffer)@ + seq![68u8]);
            a0.encode(buffer);
            assert(buffer@ =~= old(buffer)@ + seq![68u8] + <F64Bits as Encode>::spec_enc(a0.deep_view()));
            assert(buffer@ =~= old(buffer)@ + instr_enc(instr_view(*v)));
        },
        _ => {
            proof {
                assert(false);
            }
        },
    }
}

/// Appends the canonical encoding of one instruction.
#[verifier::rlimit(100)]
pub fn instr_encode(v: &Instr, buffer: &mut Vec<u8>)
    requires
        instr_wf(instr_view(*v)),
    ensures
        final(buffer)@ == old(buffer)@ + instr_enc(instr_view(*v)),
    decreases v, 1int,
{
    match v {
        Instr::I32Eqz | Instr::I32Eq | Instr::I32Ne | Instr::I32LtS | Instr::I32LtU | Instr::I32GtS | Instr::I32GtU | Instr::I32LeS | Instr::I32LeU | Instr::I32GeS | Instr::I32GeU | Instr::I64EqZ | Instr::I64Eq | Instr::I64Ne | Instr::I64LtS | Instr::I64LtU | Instr::I64GtS | Instr::I64GtU | Instr::I64LeS | Instr::I64LeU | Instr::I64GeS | Instr::I64GeU | Instr::F32Eq | Instr::F32Ne | Instr::F32Lt | Instr::F32Gt | Instr::F32Le | Instr::F32Ge | Instr::F64Eq | Instr::F64Ne | Instr::F64Lt | Instr::F64Gt | Instr::F64Le | Instr::F64Ge | Instr::I32Clz | Instr::I32Ctz | Instr::I32Popcnt | Instr::I32Add | Instr::I32Sub | Instr::I32Mul | Instr::I32DivS | Instr::I32DivU | Instr::I32RemS | Instr::I32RemU | Instr::I32And | Instr::I32Or | Instr::I32Xor | Instr::I32Shl | Instr::I32ShrS | Instr::I32ShrU | Instr::I32Rotl | Instr::I32Rotr | Instr::I64Clz | Instr::I64Ctz | Instr::I64Popcnt | Instr::I64Add | Instr::I64Sub | Instr::I64Mul | Instr::I64DivS | Instr::I64DivU | Instr::I64RemS | Instr::I64RemU | Instr::I64And | Instr::I64Or | Instr::I64Xor | Instr::I64Shl | Instr::I64ShrS | Instr::I64ShrU | Instr::I64Rotl | Instr::I64Rotr | Instr::F32Abs | Instr::F32Neg | Instr::F32Ceil | Instr::F32Floor | Instr::F32Trunc | Instr::F32Nearest | Instr::F32Sqrt | Instr::F32Add | Instr::F32Sub | Instr::F32Mul | Instr::F32Div | Instr::F32Min | Instr::F32Max | Instr::F32Copysign | Instr::F64Abs | Instr::F64Neg | Instr::F64Ceil | Instr::F64Floor | Instr::F64Trunc | Instr::F64Nearest | Instr::F64Sqrt | Instr::F64Add | Instr::F64Sub | Instr::F64Mul | Instr::F64Div | Instr::F64Min | Instr::F64Max | Instr::F64Copysign | Instr::I32WrapI64 | Instr::I32TruncF32S | Instr::I32TruncF32U | Instr::I32TruncF64S | Instr::I32TruncF64U | Instr::I64ExtendI32S | Instr::I64ExtendI32U | Instr::I64TruncF32S | Instr::I64TruncF32U | Instr::I64TruncF64S | Instr::I64TruncF64U | Instr::F32ConvertI32S | Instr::F32ConvertI32U | Instr::F32ConvertI64S | Instr::F32ConvertI64U | Instr::F32DemoteF64 | Instr::F64ConvertI32S | Instr::F64ConvertI32U | Instr::F64ConvertI64S | Instr::F64ConvertI64U | Instr::F64PromoteF32 | Instr::I32ReinterpretF32 | Instr::I64ReinterpretF64 | Instr::F32ReinterpretI32 | Instr::F64ReinterpretI64 | Instr::I32Extend8S | Instr::I32Extend16S | Instr::I64Extend8S | Instr::I64Extend16S | Instr::I64Extend32S
        => {
            instr_encode_numeric(v, buffer);
        },
        Instr::I32Load(_) | Instr::I64Load(_) | Instr::F32Load(_) | Instr::F64Load(_) | Instr::I32Load8S(_) | Instr::I32Load8U(_) | Instr::I32Load16S(_) | Instr::I32Load16U(_) | Instr::I64Load8S(_) | Instr::I64Load8U(_) | Instr::I64Load16S(_) | Instr::I64Load16U(_) | Instr::I64Load32S(_) | Instr::I64Load32U(_) | Instr::I32Store(_) | Instr::I64Store(_) | Instr::F32Store(_) | Instr::F64Store(_) | Instr::I32Store8(_) | Instr::I32Store16(_) | Instr::I64Store8(_) | Instr::I64Store16(_) | Instr::I64Store32(_)
        => {
            instr_encode_mem(v, buffer);
        },
        Instr::TableInit(_, _) | Instr::ElemDrop(_) | Instr::TableCopy(_, _) | Instr::TableGrow(_) | Instr::TableSize(_) | Instr::TableFill(_) | Instr::MemoryInit(_) | Instr::DataDrop(_) | Instr::MemoryCopy | Instr::MemoryFill | Instr::I32TruncSatF32S | Instr::I32TruncSatF32U | Instr::I32TruncSatF64S | Instr::I32TruncSatF64U | Instr::I64TruncSatF32S | Instr::I64TruncSatF32U | Instr::I64TruncSatF64S | Instr::I64TruncSatF64U
        => {
            instr_encode_fc(v, buffer);
        },
        _ => {
            instr_encode_other(v, buffer);
        },
    }
}

/// Each element of a well-formed instruction sequence is well-formed.
pub proof fn lemma_instr_seq_wf_elem(s: Seq<SpecInstr>, i: int)
    requires
        instr_seq_wf(s),
        0 <= i < s.len(),
    ensures
        instr_wf(s[i]),
    decreases s,
{
    if i > 0 {
        lemma_instr_seq_wf_elem(s.drop_first(), i - 1);
    }
}

/// Appends the encodings of a sequence of instructions, in order.
pub fn instr_seq_encode(vs: &Vec<Instr>, buffer: &mut Vec<u8>)
    requires
        instr_seq_wf(instr_vec_view(*vs)),
    ensures
        final(buffer)@ == old(buffer)@ + instr_seq_enc(instr_vec_view(*vs)),
    decreases vs@, 2int,
{
    let ghost dv = instr_vec_view(*vs);
    proof {
        lemma_instr_seq_view_props(vs@);
    }
    let mut i: usize = 0;
    while i < vs.len()
        invariant
            i <= vs.len(),
            dv == instr_vec_view(*vs),
            instr_seq_wf(dv),
            dv.len() == vs.len(),
            buffer@ == old(buffer)@ + instr_seq_enc(dv.take(i as int)),
        decreases vs@.len() - i,
    {
        proof {
            lemma_instr_seq_wf_elem(dv, i as int);
            lemma_instr_seq_view_props(vs@);
            assert(dv[i as int] == instr_view(vs[i as int]));
        }
        instr_encode(&vs[i], buffer);
        proof {
            lemma_instr_seq_push(dv.take(i as int), dv[i as int]);
            assert(dv.take(i as int).push(dv[i as int]) =~= dv.take(i + 1));
            assert(buffer@ =~= old(buffer)@ + instr_seq_enc(dv.take(i + 1)));
        }
        i = i + 1;
    }
    assert(dv.take(dv.len() as int) =~= dv);
}

/// Appends the canonical encoding of an else-branch.
pub fn else_encode(v: &Else, buffer: &mut Vec<u8>)
    requires
        else_wf(else_view(*v)),
    ensures
        final(buffer)@ == old(buffer)@ + else_enc(else_view(*v)),
    decreases v, 1int,
{
    match v {
        Else::NoElse => {
            buffer.push(11u8);
            assert(buffer@ =~= old(buffer)@ + else_enc(else_view(*v)));
        },
        Else::Else(a0) => {
            buffer.push(5u8);
            assert(buffer@ =~= old(buffer)@ + seq![5u8]);
            instr_seq_encode(&a0.0, buffer);
            assert(buffer@ =~= old(buffer)@ + seq![5u8] + instr_seq_enc(instr_vec_view(a0.0)));
            buffer.push(11u8);
            assert(buffer@ =~= old(buffer)@ + seq![5u8] + instr_seq_enc(instr_vec_view(a0.0))
                + seq![11u8]);
            assert(buffer@ =~= old(buffer)@ + else_enc(else_view(*v)));
        },
    }
}

/// Decodes the one-byte numeric instructions (`0x45` through `0xC4`).
#[verifier::rlimit(100)]
fn instr_decode_numeric<'a>(buffer: &'a [u8], b0: u8, rest: &'a [u8]) -> (r: DecodeResult<'a,
    Instr,
>)
    requires
        buffer@.len() >= 1,
        b0 == buffer@[0],
        rest@ == buffer@.drop_first(),
        0x45 <= b0 <= 0xC4,
    ensures
        r matches Ok((v, rest)) ==> instr_wf(v.deep_view()) && buffer@ == instr_enc(v.deep_view())
            + rest@,
        r is Ok <==> <Instr as Decode>::dec_ok(buffer@),
{
    proof {
        assert(buffer@ =~= seq![b0] + rest@);
    }
    match b0 {
        69u8 => {
            let result = Instr::I32Eqz;
            proof {
                assert(instr_enc(result.deep_view()) == seq![69u8]);
                assert(buffer@ =~= instr_enc(result.deep_view()) + rest@);
                assert(<Instr as Decode>::dec_ok(buffer@)) by {
                    assert(<Instr as Encode>::spec_wf(result.deep_view()) && buffer@
                        == <Instr as Encode>::spec_enc(result.deep_view()) + rest@
                        && <Instr as Decode>::tail_stop(rest@));
                }
            }
            Ok((result, rest))
        },
        70u8 => {
            let result = Instr::I32Eq;
            proof {
                assert(instr_enc(result.deep_view()) == seq![70u8]);
                assert(buffer@ =~= instr_enc(result.deep_view()) + rest@);
                assert(<Instr as Decode>::dec_ok(buffer@)) by {
                    assert(<Instr as Encode>::spec_wf(result.deep_view()) && buffer@
                        == <Instr as Encode>::spec_enc(result.deep_view()) + rest@
                        && <Instr as Decode>::tail_stop(rest@));
                }
            }
            Ok((result, rest))
        },
        71u8 => {
            let result = Instr::I32Ne;
            proof {
                assert(instr_enc(result.deep_view()) == seq![71u8]);
                assert(buffer@ =~= instr_enc(result.deep_view()) + rest@);
                assert(<Instr as Decode>::dec_ok(buffer@)) by {
                    assert(<Instr as Encode>::spec_wf(result.deep_view()) && buffer@
                        == <Instr as Encode>::spec_enc(result.deep_view()) + rest@
                        && <Instr as Decode>::tail_stop(rest@));
                }
            }
            Ok((result, rest))
        },
        72u8 => {
            let result = Instr::I32LtS;
            proof {
                assert(instr_enc(result.deep_view()) == seq![72u8]);
                assert(buffer@ =~= instr_enc(result.deep_view()) + rest@);
                assert(<Instr as Decode>::dec_ok(buffer@)) by {
                    assert(<Instr as Encode>::spec_wf(result.deep_view()) && buffer@
                        == <Instr as Encode>::spec_enc(result.deep_view()) + rest@
                        && <Instr as Decode>::tail_stop(rest@));
                }
            }
            Ok((result, rest))
        },
        73u8 => {
            let result = Instr::I32LtU;
            proof {
                assert(instr_enc(result.deep_view()) == seq![73u8]);
                assert(buffer@ =~= instr_enc(result.deep_view()) + rest@);
                assert(<Instr as Decode>::dec_ok(buffer@)) by {
                    assert(<Instr as Encode>::spec_wf(result.deep_view()) && buffer@
                        == <Instr as Encode>::spec_enc(result.deep_view()) + rest@
                        && <Instr as Decode>::tail_stop(rest@));
                }
            }
            Ok((result, rest))
        },
        74u8 => {
            let result = Instr::I32GtS;
            proof {
                assert(instr_enc(result.deep_view()) == seq![74u8]);
                assert(buffer@ =~= instr_enc(result.deep_view()) + rest@);
                assert(<Instr as Decode>::dec_ok(buffer@)) by {
                    assert(<Instr as Encode>::spec_wf(result.deep_view()) && buffer@
                        == <Instr as Encode>::spec_enc(result.deep_view()) + rest@
                        && <Instr as Decode>::tail_stop(rest@));
                }
            }
            Ok((result, rest))
        },
        75u8 => {
            let result = Instr::I32GtU;
            proof {
                assert(instr_enc(result.deep_view()) == seq![75u8]);
                assert(buffer@ =~= instr_enc(result.deep_view()) + rest@);
                assert(<Instr as Decode>::dec_ok(buffer@)) by {
                    assert(<Instr as Encode>::spec_wf(result.deep_view()) && buffer@
                        == <Instr as Encode>::spec_enc(result.deep_view()) + rest@
                        && <Instr as Decode>::tail_stop(rest@));
                }
            }
            Ok((result, rest))
        },
        76u8 => {
            let result = Instr::I32LeS;
            proof {
                assert(instr_enc(result.deep_view()) == seq![76u8]);
                assert(buffer@ =~= instr_enc(result.deep_view()) + rest@);
                assert(<Instr as Decode>::dec_ok(buffer@)) by {
                    assert(<Instr as Encode>::spec_wf(result.deep_view()) && buffer@
                        == <Instr as Encode>::spec_enc(result.deep_view()) + rest@
                        && <Instr as Decode>::tail_stop(rest@));
                }
            }
            Ok((result, rest))
        },
        77u8 => {
            let result = Instr::I32LeU;
            proof {
                assert(instr_enc(result.deep_view()) == seq![77u8]);
                assert(buffer@ =~= instr_enc(result.deep_view()) + rest@);
                assert(<Instr as Decode>::dec_ok(buffer@)) by {
                    assert(<Instr as Encode>::spec_wf(result.deep_view()) && buffer@
                        == <Instr as Encode>::spec_enc(result.deep_view()) + rest@
                        && <Instr as Decode>::tail_stop(rest@));
                }
            }
            Ok((result, rest))
        },
        78u8 => {
            let result = Instr::I32GeS;
            proof {
                assert(instr_enc(result.deep_view()) == seq![78u8]);
                assert(buffer@ =~= instr_enc(result.deep_view()) + rest@);
                assert(<Instr as Decode>::dec_ok(buffer@)) by {
                    assert(<Instr as Encode>::spec_wf(result.deep_view()) && buffer@
                        == <Instr as Encode>::spec_enc(result.deep_view()) + rest@
                        && <Instr as Decode>::tail_stop(rest@));
                }
            }
            Ok((result, rest))
        },
        79u8 => {
            let result = Instr::I32GeU;
            proof {
                assert(instr_enc(result.deep_view()) == seq![79u8]);
                assert(buffer@ =~= instr_enc(result.deep_view()) + rest@);
                assert(<Instr as Decode>::dec_ok(buffer@)) by {
                    assert(<Instr as Encode>::spec_wf(result.deep_view()) && buffer@
                        == <Instr as Encode>::spec_enc(result.deep_view()) + rest@
                        && <Instr as Decode>::tail_stop(rest@));
                }
            }
            Ok((result, rest))
        },
        80u8 => {
            let result = Instr::I64EqZ;
            proof {
                assert(instr_enc(result.deep_view()) == seq![80u8]);
                assert(buffer@ =~= instr_enc(result.deep_view()) + rest@);
                assert(<Instr as Decode>::dec_ok(buffer@)) by {
                    assert(<Instr as Encode>::spec_wf(result.deep_view()) && buffer@
                        == <Instr as Encode>::spec_enc(result.deep_view()) + rest@
                        && <Instr as Decode>::tail_stop(rest@));
                }
            }
            Ok((result, rest))
        },
        81u8 => {
            let result = Instr::I64Eq;
            proof {
                assert(instr_enc(result.deep_view()) == seq![81u8]);
                assert(buffer@ =~= instr_enc(result.deep_view()) + rest@);
                assert(<Instr as Decode>::dec_ok(buffer@)) by {
                    assert(<Instr as Encode>::spec_wf(result.deep_view()) && buffer@
                        == <Instr as Encode>::spec_enc(result.deep_view()) + rest@
                        && <Instr as Decode>::tail_stop(rest@));
                }
            }
            Ok((result, rest))
        },
        82u8 => {
            let result = Instr::I64Ne;
            proof {
                assert(instr_enc(result.deep_view()) == seq![82u8]);
                assert(buffer@ =~= instr_enc(result.deep_view()) + rest@);
                assert(<Instr as Decode>::dec_ok(buffer@)) by {
                    assert(<Instr as Encode>::spec_wf(result.deep_view()) && buffer@
                        == <Instr as Encode>::spec_enc(result.deep_view()) + rest@
                        && <Instr as Decode>::tail_stop(rest@));
                }
            }
            Ok((result, rest))
        },
        83u8 => {
            let result = Instr::I64LtS;
            proof {
                assert(instr_enc(result.deep_view()) == seq![83u8]);
                assert(buffer@ =~= instr_enc(result.deep_view()) + rest@);
                assert(<Instr as Decode>::dec_ok(buffer@)) by {
                    assert(<Instr as Encode>::spec_wf(result.deep_view()) && buffer@
                        == <Instr as Encode>::spec_enc(result.deep_view()) + rest@
                        && <Instr as Decode>::tail_stop(rest@));
                }
            }
            Ok((result, rest))
        },
        84u8 => {
            let result = Instr::I64LtU;
            proof {
                assert(instr_enc(result.deep_view()) == seq![84u8]);
                assert(buffer@ =~= instr_enc(result.deep_view()) + rest@);
                assert(<Instr as Decode>::dec_ok(buffer@)) by {
                    assert(<Instr as Encode>::spec_wf(result.deep_view()) && buffer@
                        == <Instr as Encode>::spec_enc(result.deep_view()) + rest@
                        && <Instr as Decode>::tail_stop(rest@));
                }
            }
            Ok((result, rest))
        },
        85u8 => {
            let result = Instr::I64GtS;
            proof {
                assert(instr_enc(result.deep_view()) == seq![85u8]);
                assert(buffer@ =~= instr_enc(result.deep_view()) + rest@);
                assert(<Instr as Decode>::dec_ok(buffer@)) by {
                    assert(<Instr as Encode>::spec_wf(result.deep_view()) && buffer@
                        == <Instr as Encode>::spec_enc(result.deep_view()) + rest@
                        && <Instr as Decode>::tail_stop(rest@));
                }
            }
            Ok((result, rest))
        },
        86u8 => {
            let result = Instr::I64GtU;
            proof {
                assert(instr_enc(result.deep_view()) == seq![86u8]);
                assert(buffer@ =~= instr_enc(result.deep_view()) + rest@);
                assert(<Instr as Decode>::dec_ok(buffer@)) by {
                    assert(<Instr as Encode>::spec_wf(result.deep_view()) && buffer@
                        == <Instr as Encode>::spec_enc(result.deep_view()) + rest@
                        && <Instr as Decode>::tail_stop(rest@));
                }
            }
            Ok((result, rest))
        },
        87u8 => {
            let result = Instr::I64LeS;
            proof {
                assert(instr_enc(result.deep_view()) == seq![87u8]);
                assert(buffer@ =~= instr_enc(result.deep_view()) + rest@);
                assert(<Instr as Decode>::dec_ok(buffer@)) by {
                    assert(<Instr as Encode>::spec_wf(result.deep_view()) && buffer@
                        == <Instr as Encode>::spec_enc(result.deep_view()) + rest@
                        && <Instr as Decode>::tail_stop(rest@));
                }
            }
            Ok((result, rest))
        },
        88u8 => {
            let result = Instr::I64LeU;
            proof {
                assert(instr_enc(result.deep_view()) == seq![88u8]);
                assert(buffer@ =~= instr_enc(result.deep_view()) + rest@);
                assert(<Instr as Decode>::dec_ok(buffer@)) by {
                    assert(<Instr as Encode>::spec_wf(result.deep_view()) && buffer@
                        == <Instr as Encode>::spec_enc(result.deep_view()) + rest@
                        && <Instr as Decode>::tail_stop(rest@));
                }
            }
            Ok((result, rest))
        },
        89u8 => {
            let result = Instr::I64GeS;
            proof {
                assert(instr_enc(result.deep_view()) == seq![89u8]);
                assert(buffer@ =~= instr_enc(result.deep_view()) + rest@);
                assert(<Instr as Decode>::dec_ok(buffer@)) by {
                    assert(<Instr as Encode>::spec_wf(result.deep_view()) && buffer@
                        == <Instr as Encode>::spec_enc(result.deep_view()) + rest@
                        && <Instr as Decode>::tail_stop(rest@));
                }
            }
            Ok((result, rest))
        },
        90u8 => {
            let result = Instr::I64GeU;
            proof {
                assert(instr_enc(result.deep_view()) == seq![90u8]);
                assert(buffer@ =~= instr_enc(result.deep_view()) + rest@);
                assert(<Instr as Decode>::dec_ok(buffer@)) by {
                    assert(<Instr as Encode>::spec_wf(result.deep_view()) && buffer@
                        == <Instr as Encode>::spec_enc(result.deep_view()) + rest@
                        && <Instr as Decode>::tail_stop(rest@));
                }
            }
            Ok((result, rest))
        },
        91u8 => {
            let result = Instr::F32Eq;
            proof {
                assert(instr_enc(result.deep_view()) == seq![91u8]);
                assert(buffer@ =~= instr_enc(result.deep_view()) + rest@);
                assert(<Instr as Decode>::dec_ok(buffer@)) by {
                    assert(<Instr as Encode>::spec_wf(result.deep_view()) && buffer@
                        == <Instr as Encode>::spec_enc(result.deep_view()) + rest@
                        && <Instr as Decode>::tail_stop(rest@));
                }
            }
            Ok((result, rest))
        },
        92u8 => {
            let result = Instr::F32Ne;
            proof {
                assert(instr_enc(result.deep_view()) == seq![92u8]);
                assert(buffer@ =~= instr_enc(result.deep_view()) + rest@);
                assert(<Instr as Decode>::dec_ok(buffer@)) by {
                    assert(<Instr as Encode>::spec_wf(result.deep_view()) && buffer@
                        == <Instr as Encode>::spec_enc(result.deep_view()) + rest@
                        && <Instr as Decode>::tail_stop(rest@));
                }
            }
            Ok((result, rest))
        },
        93u8 => {
            let result = Instr::F32Lt;
            proof {
                assert(instr_enc(result.deep_view()) == seq![93u8]);
                assert(buffer@ =~= instr_enc(result.deep_view()) + rest@);
                assert(<Instr as Decode>::dec_ok(buffer@)) by {
                    assert(<Instr as Encode>::spec_wf(result.deep_view()) && buffer@
                        == <Instr as Encode>::spec_enc(result.deep_view()) + rest@
                        && <Instr as Decode>::tail_stop(rest@));
                }
            }
            Ok((result, rest))
        },
        94u8 => {
            let result = Instr::F32Gt;
            proof {
                assert(instr_enc(result.deep_view()) == seq![94u8]);
                assert(buffer@ =~= instr_enc(result.deep_view()) + rest@);
                assert(<Instr as Decode>::dec_ok(buffer@)) by {
                    assert(<Instr as Encode>::spec_wf(result.deep_view()) && buffer@
                        == <Instr as Encode>::spec_enc(result.deep_view()) + rest@
                        && <Instr as Decode>::tail_stop(rest@));
                }
            }
            Ok((result, rest))
        },
        95u8 => {
            let result = Instr::F32Le;
            proof {
                assert(instr_enc(result.deep_view()) == seq![95u8]);
                assert(buffer@ =~= instr_enc(result.deep_view()) + rest@);
                assert(<Instr as Decode>::dec_ok(buffer@)) by {
                    assert(<Instr as Encode>::spec_wf(result.deep_view()) && buffer@
                        == <Instr as Encode>::spec_enc(result.deep_view()) + rest@
                        && <Instr as Decode>::tail_stop(rest@));
                }
            }
            Ok((result, rest))
        },
        96u8 => {
            let result = Instr::F32Ge;
            proof {
                assert(instr_enc(result.deep_view()) == seq![96u8]);
                assert(buffer@ =~= instr_enc(result.deep_view()) + rest@);
                assert(<Instr as Decode>::dec_ok(buffer@)) by {
                    assert(<Instr as Encode>::spec_wf(result.deep_view()) && buffer@
                        == <Instr as Encode>::spec_enc(result.deep_view()) + rest@
                        && <Instr as Decode>::tail_stop(rest@));
                }
            }
            Ok((result, rest))
        },
        97u8 => {
            let result = Instr::F64Eq;
            proof {
                assert(instr_enc(result.deep_view()) == seq![97u8]);
                assert(buffer@ =~= instr_enc(result.deep_view()) + rest@);
                assert(<Instr as Decode>::dec_ok(buffer@)) by {
                    assert(<Instr as Encode>::spec_wf(result.deep_view()) && buffer@
                        == <Instr as Encode>::spec_enc(result.deep_view()) + rest@
                        && <Instr as Decode>::tail_stop(rest@));
                }
            }
            Ok((result, rest))
        },
        98u8 => {
            let result = Instr::F64Ne;
            proof {
                assert(instr_enc(result.deep_view()) == seq![98u8]);
                assert(buffer@ =~= instr_enc(result.deep_view()) + rest@);
                assert(<Instr as Decode>::dec_ok(buffer@)) by {
                    assert(<Instr as Encode>::spec_wf(result.deep_view()) && buffer@
                        == <Instr as Encode>::spec_enc(result.deep_view()) + rest@
                        && <Instr as Decode>::tail_stop(rest@));
                }
            }
            Ok((result, rest))
        },
        99u8 => {
            let result = Instr::F64Lt;
            proof {
                assert(instr_enc(result.deep_view()) == seq![99u8]);
                assert(buffer@ =~= instr_enc(result.deep_view()) + rest@);
                assert(<Instr as Decode>::dec_ok(buffer@)) by {
                    assert(<Instr as Encode>::spec_wf(result.deep_view()) && buffer@
                        == <Instr as Encode>::spec_enc(result.deep_view()) + rest@
                        && <Instr as Decode>::tail_stop(rest@));
                }
            }
            Ok((result, rest))
        },
        100u8 => {
            let result = Instr::F64Gt;
            proof {
                assert(instr_enc(result.deep_view()) == seq![100u8]);
                assert(buffer@ =~= instr_enc(result.deep_view()) + rest@);
                assert(<Instr as Decode>::dec_ok(buffer@)) by {
                    assert(<Instr as Encode>::spec_wf(result.deep_view()) && buffer@
                        == <Instr as Encode>::spec_enc(result.deep_view()) + rest@
                        && <Instr as Decode>::tail_stop(rest@));
                }
            }
            Ok((result, rest))
        },
        101u8 => {
            let result = Instr::F64Le;
            proof {
                assert(instr_enc(result.deep_view()) == seq![101u8]);
                assert(buffer@ =~= instr_enc(result.deep_view()) + rest@);
                assert(<Instr as Decode>::dec_ok(buffer@)) by {
                    assert(<Instr as Encode>::spec_wf(result.deep_view()) && buffer@
                        == <Instr as Encode>::spec_enc(result.deep_view()) + rest@
                        && <Instr as Decode>::tail_stop(rest@));
                }
            }
            Ok((result, rest))
        },
        102u8 => {
            let result = Instr::F64Ge;
            proof {
                assert(instr_enc(result.deep_view()) == seq![102u8]);
                assert(buffer@ =~= instr_enc(result.deep_view()) + rest@);
                assert(<Instr as Decode>::dec_ok(buffer@)) by {
                    assert(<Instr as Encode>::spec_wf(result.deep_view()) && buffer@
                        == <Instr as Encode>::spec_enc(result.deep_view()) + rest@
                        && <Instr as Decode>::tail_stop(rest@));
                }
            }
            Ok((result, rest))
        },
        103u8 => {
            let result = Instr::I32Clz;
            proof {
                assert(instr_enc(result.deep_view()) == seq![103u8]);
                assert(buffer@ =~= instr_enc(result.deep_view()) + rest@);
                assert(<Instr as Decode>::dec_ok(buffer@)) by {
                    assert(<Instr as Encode>::spec_wf(result.deep_view()) && buffer@
                        == <Instr as Encode>::spec_enc(result.deep_view()) + rest@
                        && <Instr as Decode>::tail_stop(rest@));
                }
            }
            Ok((result, rest))
        },
        104u8 => {
            let result = Instr::I32Ctz;
            proof {
                assert(instr_enc(result.deep_view()) == seq![104u8]);
                assert(buffer@ =~= instr_enc(result.deep_view()) + rest@);
                assert(<Instr as Decode>::dec_ok(buffer@)) by {
                    assert(<Instr as Encode>::spec_wf(result.deep_view()) && buffer@
                        == <Instr as Encode>::spec_enc(result.deep_view()) + rest@
                        && <Instr as Decode>::tail_stop(rest@));
                }
            }
            Ok((result, rest))
        },
        105u8 => {
            let result = Instr::I32Popcnt;
            proof {
                assert(instr_enc(result.deep_view()) == seq![105u8]);
                assert(buffer@ =~= instr_enc(result.deep_view()) + rest@);
                assert(<Instr as Decode>::dec_ok(buffer@)) by {
                    assert(<Instr as Encode>::spec_wf(result.deep_view()) && buffer@
                        == <Instr as Encode>::spec_enc(result.deep_view()) + rest@
                        && <Instr as Decode>::tail_stop(rest@));
                }
            }
            Ok((result, rest))
        },
        106u8 => {
            let result = Instr::I32Add;
            proof {
                assert(instr_enc(result.deep_view()) == seq![106u8]);
                assert(buffer@ =~= instr_enc(result.deep_view()) + rest@);
                assert(<Instr as Decode>::dec_ok(buffer@)) by {
                    assert(<Instr as Encode>::spec_wf(result.deep_view()) && buffer@
                        == <Instr as Encode>::spec_enc(result.deep_view()) + rest@
                        && <Instr as Decode>::tail_stop(rest@));
                }
            }
            Ok((result, rest))
        },
        107u8 => {
            let result = Instr::I32Sub;
            proof {
                assert(instr_enc(result.deep_view()) == seq![107u8]);
                assert(buffer@ =~= instr_enc(result.deep_view()) + rest@);
                assert(<Instr as Decode>::dec_ok(buffer@)) by {
                    assert(<Instr as Encode>::spec_wf(result.deep_view()) && buffer@
                        == <Instr as Encode>::spec_enc(result.deep_view()) + rest@
                        && <Instr as Decode>::tail_stop(rest@));
                }
            }
            Ok((result, rest))
        },
        108u8 => {
            let result = Instr::I32Mul;
            proof {
                assert(instr_enc(result.deep_view()) == seq![108u8]);
                assert(buffer@ =~= instr_enc(result.deep_view()) + rest@);
                assert(<Instr as Decode>::dec_ok(buffer@)) by {
                    assert(<Instr as Encode>::spec_wf(result.deep_view()) && buffer@
                        == <Instr as Encode>::spec_enc(result.deep_view()) + rest@
                        && <Instr as Decode>::tail_stop(rest@));
                }
            }
            Ok((result, rest))
        },
        109u8 => {
            let result = Instr::I32DivS;
            proof {
                assert(instr_enc(result.deep_view()) == seq![109u8]);
                assert(buffer@ =~= instr_enc(result.deep_view()) + rest@);
                assert(<Instr as Decode>::dec_ok(buffer@)) by {
                    assert(<Instr as Encode>::spec_wf(result.deep_view()) && buffer@
                        == <Instr as Encode>::spec_enc(result.deep_view()) + rest@
                        && <Instr as Decode>::tail_stop(rest@));
                }
            }
            Ok((result, rest))
        },
        110u8 => {
            let result = Instr::I32DivU;
            proof {
                assert(instr_enc(result.deep_view()) == seq![110u8]);
                assert(buffer@ =~= instr_enc(result.deep_view()) + rest@);
                assert(<Instr as Decode>::dec_ok(buffer@)) by {
                    assert(<Instr as Encode>::spec_wf(result.deep_view()) && buffer@
                        == <Instr as Encode>::spec_enc(result.deep_view()) + rest@
                        && <Instr as Decode>::tail_stop(rest@));
                }
            }
            Ok((result, rest))
        },
        111u8 => {
            let result = Instr::I32RemS;
            proof {
                assert(instr_enc(result.deep_view()) == seq![111u8]);
                assert(buffer@ =~= instr_enc(result.deep_view()) + rest@);
                assert(<Instr as Decode>::dec_ok(buffer@)) by {
                    assert(<Instr as Encode>::spec_wf(result.deep_view()) && buffer@
                        == <Instr as Encode>::spec_enc(result.deep_view()) + rest@
                        && <Instr as Decode>::tail_stop(rest@));
                }
            }
            Ok((result, rest))
        },
        112u8 => {
            let result = Instr::I32RemU;
            proof {
                assert(instr_enc(result.deep_view()) == seq![112u8]);
                assert(buffer@ =~= instr_enc(result.deep_view()) + rest@);
                assert(<Instr as Decode>::dec_ok(buffer@)) by {
                    assert(<Instr as Encode>::spec_wf(result.deep_view()) && buffer@
                        == <Instr as Encode>::spec_enc(result.deep_view()) + rest@
                        && <Instr as Decode>::tail_stop(rest@));
                }
            }
            Ok((result, rest))
        },
        113u8 => {
            let result = Instr::I32And;
            proof {
                assert(instr_enc(result.deep_view()) == seq![113u8]);
                assert(buffer@ =~= instr_enc(result.deep_view()) + rest@);
                assert(<Instr as Decode>::dec_ok(buffer@)) by {
                    assert(<Instr as Encode>::spec_wf(result.deep_view()) && buffer@
                        == <Instr as Encode>::spec_enc(result.deep_view()) + rest@
                        && <Instr as Decode>::tail_stop(rest@));
                }
            }
            Ok((result, rest))
        },
        114u8 => {
            let result = Instr::I32Or;
            proof {
                assert(instr_enc(result.deep_view()) == seq![114u8]);
                assert(buffer@ =~= instr_enc(result.deep_view()) + rest@);
                assert(<Instr as Decode>::dec_ok(buffer@)) by {
                    assert(<Instr as Encode>::spec_wf(result.deep_view()) && buffer@
                        == <Instr as Encode>::spec_enc(result.deep_view()) + rest@
                        && <Instr as Decode>::tail_stop(rest@));
                }
            }
            Ok((result, rest))
        },
        115u8 => {
            let result = Instr::I32Xor;
            proof {
                assert(instr_enc(result.deep_view()) == seq![115u8]);
                assert(buffer@ =~= instr_enc(result.deep_view()) + rest@);
                assert(<Instr as Decode>::dec_ok(buffer@)) by {
                    assert(<Instr as Encode>::spec_wf(result.deep_view()) && buffer@
                        == <Instr as Encode>::spec_enc(result.deep_view()) + rest@
                        && <Instr as Decode>::tail_stop(rest@));
                }
            }
            Ok((result, rest))
        },
        116u8 => {
            let result = Instr::I32Shl;
            proof {
                assert(instr_enc(result.deep_view()) == seq![116u8]);
                assert(buffer@ =~= instr_enc(result.deep_view()) + rest@);
                assert(<Instr as Decode>::dec_ok(buffer@)) by {
                    assert(<Instr as Encode>::spec_wf(result.deep_view()) && buffer@
                        == <Instr as Encode>::spec_enc(result.deep_view()) + rest@
                        && <Instr as Decode>::tail_stop(rest@));
                }
            }
            Ok((result, rest))
        },
        117u8 => {
            let result = Instr::I32ShrS;
            proof {
                assert(instr_enc(result.deep_view()) == seq![117u8]);
                assert(buffer@ =~= instr_enc(result.deep_view()) + rest@);
                assert(<Instr as Decode>::dec_ok(buffer@)) by {
                    assert(<Instr as Encode>::spec_wf(result.deep_view()) && buffer@
                        == <Instr as Encode>::spec_enc(result.deep_view()) + rest@
                        && <Instr as Decode>::tail_stop(rest@));
                }
            }
            Ok((result, rest))
        },
        118u8 => {
            let result = Instr::I32ShrU;
            proof {
                assert(instr_enc(result.deep_view()) == seq![118u8]);
                assert(buffer@ =~= instr_enc(result.deep_view()) + rest@);
                assert(<Instr as Decode>::dec_ok(buffer@)) by {
                    assert(<Instr as Encode>::spec_wf(result.deep_view()) && buffer@
                        == <Instr as Encode>::spec_enc(result.deep_view()) + rest@
                        && <Instr as Decode>::tail_stop(rest@));
                }
            }
            Ok((result, rest))
        },
        119u8 => {
            let result = Instr::I32Rotl;
            proof {
                assert(instr_enc(result.deep_view()) == seq![119u8]);
                assert(buffer@ =~= instr_enc(result.deep_view()) + rest@);
                assert(<Instr as Decode>::dec_ok(buffer@)) by {
                    assert(<Instr as Encode>::spec_wf(result.deep_view()) && buffer@
                        == <Instr as Encode>::spec_enc(result.deep_view()) + rest@
                        && <Instr as Decode>::tail_stop(rest@));
                }
            }
            Ok((result, rest))
        },
        120u8 => {
            let result = Instr::I32Rotr;
            proof {
                assert(instr_enc(result.deep_view()) == seq![120u8]);
                assert(buffer@ =~= instr_enc(result.deep_view()) + rest@);
                assert(<Instr as Decode>::dec_ok(buffer@)) by {
                    assert(<Instr as Encode>::spec_wf(result.deep_view()) && buffer@
                        == <Instr as Encode>::spec_enc(result.deep_view()) + rest@
                        && <Instr as Decode>::tail_stop(rest@));
                }
            }
            Ok((result, rest))
        },
        121u8 => {
            let result = Instr::I64Clz;
            proof {
                assert(instr_enc(result.deep_view()) == seq![121u8]);
                assert(buffer@ =~= instr_enc(result.deep_view()) + rest@);
                assert(<Instr as Decode>::dec_ok(buffer@)) by {
                    assert(<Instr as Encode>::spec_wf(result.deep_view()) && buffer@
                        == <Instr as Encode>::spec_enc(result.deep_view()) + rest@
                        && <Instr as Decode>::tail_stop(rest@));
                }
            }
            Ok((result, rest))
        },
        122u8 => {
            let result = Instr::I64Ctz;
            proof {
                assert(instr_enc(result.deep_view()) == seq![122u8]);
                assert(buffer@ =~= instr_enc(result.deep_view()) + rest@);
                assert(<Instr as Decode>::dec_ok(buffer@)) by {
                    assert(<Instr as Encode>::spec_wf(result.deep_view()) && buffer@
                        == <Instr as Encode>::spec_enc(result.deep_view()) + rest@
                        && <Instr as Decode>::tail_stop(rest@));
                }
            }
            Ok((result, rest))
        },
        123u8 => {
            let result = Instr::I64Popcnt;
            proof {
                assert(instr_enc(result.deep_view()) == seq![123u8]);
                assert(buffer@ =~= instr_enc(result.deep_view()) + rest@);
                assert(<Instr as Decode>::dec_ok(buffer@)) by {
                    assert(<Instr as Encode>::spec_wf(result.deep_view()) && buffer@
                        == <Instr as Encode>::spec_enc(result.deep_view()) + rest@
                        && <Instr as Decode>::tail_stop(rest@));
                }
            }
            Ok((result, rest))
        },
        124u8 => {
            let result = Instr::I64Add;
            proof {
                assert(instr_enc(result.deep_view()) == seq![124u8]);
                assert(buffer@ =~= instr_enc(result.deep_view()) + rest@);
                assert(<Instr as Decode>::dec_ok(buffer@)) by {
                    assert(<Instr as Encode>::spec_wf(result.deep_view()) && buffer@
                        == <Instr as Encode>::spec_enc(result.deep_view()) + rest@
                        && <Instr as Decode>::tail_stop(rest@));
                }
            }
            Ok((result, rest))
        },
        125u8 => {
            let result = Instr::I64Sub;
            proof {
                assert(instr_enc(result.deep_view()) == seq![125u8]);
                assert(buffer@ =~= instr_enc(result.deep_view()) + rest@);
                assert(<Instr as Decode>::dec_ok(buffer@)) by {
                    assert(<Instr as Encode>::spec_wf(result.deep_view()) && buffer@
                        == <Instr as Encode>::spec_enc(result.deep_view()) + rest@
                        && <Instr as Decode>::tail_stop(rest@));
                }
            }
            Ok((result, rest))
        },
        126u8 => {
            let result = Instr::I64Mul;
            proof {
                assert(instr_enc(result.deep_view()) == seq![126u8]);
                assert(buffer@ =~= instr_enc(result.deep_view()) + rest@);
                assert(<Instr as Decode>::dec_ok(buffer@)) by {
                    assert(<Instr as Encode>::spec_wf(result.deep_view()) && buffer@
                        == <Instr as Encode>::spec_enc(result.deep_view()) + rest@
                        && <Instr as Decode>::tail_stop(rest@));
                }
            }
            Ok((result, rest))
        },
        127u8 => {
            let result = Instr::I64DivS;
            proof {
                assert(instr_enc(result.deep_view()) == seq![127u8]);
                assert(buffer@ =~= instr_enc(result.deep_view()) + rest@);
                assert(<Instr as Decode>::dec_ok(buffer@)) by {
                    assert(<Instr as Encode>::spec_wf(result.deep_view()) && buffer@
                        == <Instr as Encode>::spec_enc(result.deep_view()) + rest@
                        && <Instr as Decode>::tail_stop(rest@));
                }
            }
            Ok((result, rest))
        },
        128u8 => {
            let result = Instr::I64DivU;
            proof {
                assert(instr_enc(result.deep_view()) == seq![128u8]);
                assert(buffer@ =~= instr_enc(result.deep_view()) + rest@);
                assert(<Instr as Decode>::dec_ok(buffer@)) by {
                    assert(<Instr as Encode>::spec_wf(result.deep_view()) && buffer@
                        == <Instr as Encode>::spec_enc(result.deep_view()) + rest@
                        && <Instr as Decode>::tail_stop(rest@));
                }
            }
            Ok((result, rest))
        },
        129u8 => {
            let result = Instr::I64RemS;
            proof {
                assert(instr_enc(result.deep_view()) == seq![129u8]);
                assert(buffer@ =~= instr_enc(result.deep_view()) + rest@);
                assert(<Instr as Decode>::dec_ok(buffer@)) by {
                    assert(<Instr as Encode>::spec_wf(result.deep_view()) && buffer@
                        == <Instr as Encode>::spec_enc(result.deep_view()) + rest@
                        && <Instr as Decode>::tail_stop(rest@));
                }
            }
            Ok((result, rest))
        },
        130u8 => {
            let result = Instr::I64RemU;
            proof {
                assert(instr_enc(result.deep_view()) == seq![130u8]);
                assert(buffer@ =~= instr_enc(result.deep_view()) + rest@);
                assert(<Instr as Decode>::dec_ok(buffer@)) by {
                    assert(<Instr as Encode>::spec_wf(result.deep_view()) && buffer@
                        == <Instr as Encode>::spec_enc(result.deep_view()) + rest@
                        && <Instr as Decode>::tail_stop(rest@));
                }
            }
            Ok((result, rest))
        },
        131u8 => {
            let result = Instr::I64And;
            proof {
                assert(instr_enc(result.deep_view()) == seq![131u8]);
                assert(buffer@ =~= instr_enc(result.deep_view()) + rest@);
                assert(<Instr as Decode>::dec_ok(buffer@)) by {
                    assert(<Instr as Encode>::spec_wf(result.deep_view()) && buffer@
                        == <Instr as Encode>::spec_enc(result.deep_view()) + rest@
                        && <Instr as Decode>::tail_stop(rest@));
                }
            }
            Ok((result, rest))
        },
        132u8 => {
            let result = Instr::I64Or;
            proof {
                assert(instr_enc(result.deep_view()) == seq![132u8]);
                assert(buffer@ =~= instr_enc(result.deep_view()) + rest@);
                assert(<Instr as Decode>::dec_ok(buffer@)) by {
                    assert(<Instr as Encode>::spec_wf(result.deep_view()) && buffer@
                        == <Instr as Encode>::spec_enc(result.deep_view()) + rest@
                        && <Instr as Decode>::tail_stop(rest@));
                }
            }
            Ok((result, rest))
        },
        133u8 => {
            let result = Instr::I64Xor;
            proof {
                assert(instr_enc(result.deep_view()) == seq![133u8]);
                assert(buffer@ =~= instr_enc(result.deep_view()) + rest@);
                assert(<Instr as Decode>::dec_ok(buffer@)) by {
                    assert(<Instr as Encode>::spec_wf(result.deep_view()) && buffer@
                        == <Instr as Encode>::spec_enc(result.deep_view()) + rest@
                        && <Instr as Decode>::tail_stop(rest@));
                }
            }
            Ok((result, rest))
        },
        134u8 => {
            let result = Instr::I64Shl;
            proof {
                assert(instr_enc(result.deep_view()) == seq![134u8]);
                assert(buffer@ =~= instr_enc(result.deep_view()) + rest@);
                assert(<Instr as Decode>::dec_ok(buffer@)) by {
                    assert(<Instr as Encode>::spec_wf(result.deep_view()) && buffer@
                        == <Instr as Encode>::spec_enc(result.deep_view()) + rest@
                        && <Instr as Decode>::tail_stop(rest@));
                }
            }
            Ok((result, rest))
        },
        135u8 => {
            let result = Instr::I64ShrS;
            proof {
                assert(instr_enc(result.deep_view()) == seq![135u8]);
                assert(buffer@ =~= instr_enc(result.deep_view()) + rest@);
                assert(<Instr as Decode>::dec_ok(buffer@)) by {
                    assert(<Instr as Encode>::spec_wf(result.deep_view()) && buffer@
                        == <Instr as Encode>::spec_enc(result.deep_view()) + rest@
                        && <Instr as Decode>::tail_stop(rest@));
                }
            }
            Ok((result, rest))
        },
        136u8 => {
            let result = Instr::I64ShrU;
            proof {
                assert(instr_enc(result.deep_view()) == seq![136u8]);
                assert(buffer@ =~= instr_enc(result.deep_view()) + rest@);
                assert(<Instr as Decode>::dec_ok(buffer@)) by {
                    assert(<Instr as Encode>::spec_wf(result.deep_view()) && buffer@
                        == <Instr as Encode>::spec_enc(result.deep_view()) + rest@
                        && <Instr as Decode>::tail_stop(rest@));
                }
            }
            Ok((result, rest))
        },
        137u8 => {
            let result = Instr::I64Rotl;
            proof {
                assert(instr_enc(result.deep_view()) == seq![137u8]);
                assert(buffer@ =~= instr_enc(result.deep_view()) + rest@);
                assert(<Instr as Decode>::dec_ok(buffer@)) by {
                    assert(<Instr as Encode>::spec_wf(result.deep_view()) && buffer@
                        == <Instr as Encode>::spec_enc(result.deep_view()) + rest@
                        && <Instr as Decode>::tail_stop(rest@));
                }
            }
            Ok((result, rest))
        },
        138u8 => {
            let result = Instr::I64Rotr;
            proof {
                assert(instr_enc(result.deep_view()) == seq![138u8]);
                assert(buffer@ =~= instr_enc(result.deep_view()) + rest@);
                assert(<Instr as Decode>::dec_ok(buffer@)) by {
                    assert(<Instr as Encode>::spec_wf(result.deep_view()) && buffer@
                        == <Instr as Encode>::spec_enc(result.deep_view()) + rest@
                        && <Instr as Decode>::tail_stop(rest@));
                }
            }
            Ok((result, rest))
        },
        139u8 => {
            let result = Instr::F32Abs;
            proof {
                assert(instr_enc(result.deep_view()) == seq![139u8]);
                assert(buffer@ =~= instr_enc(result.deep_view()) + rest@);
                assert(<Instr as Decode>::dec_ok(buffer@)) by {
                    assert(<Instr as Encode>::spec_wf(result.deep_view()) && buffer@
                        == <Instr as Encode>::spec_enc(result.deep_view()) + rest@
                        && <Instr as Decode>::tail_stop(rest@));
                }
            }
            Ok((result, rest))
        },
        140u8 => {
            let result = Instr::F32Neg;
            proof {
                assert(instr_enc(result.deep_view()) == seq![140u8]);
                assert(buffer@ =~= instr_enc(result.deep_view()) + rest@);
                assert(<Instr as Decode>::dec_ok(buffer@)) by {
                    assert(<Instr as Encode>::spec_wf(result.deep_view()) && buffer@
                        == <Instr as Encode>::spec_enc(result.deep_view()) + rest@
                        && <Instr as Decode>::tail_stop(rest@));
                }
            }
            Ok((result, rest))
        },
        141u8 => {
            let result = Instr::F32Ceil;
            proof {
                assert(instr_enc(result.deep_view()) == seq![141u8]);
                assert(buffer@ =~= instr_enc(result.deep_view()) + rest@);
                assert(<Instr as Decode>::dec_ok(buffer@)) by {
                    assert(<Instr as Encode>::spec_wf(result.deep_view()) && buffer@
                        == <Instr as Encode>::spec_enc(result.deep_view()) + rest@
                        && <Instr as Decode>::tail_stop(rest@));
                }
            }
            Ok((result, rest))
        },
        142u8 => {
            let result = Instr::F32Floor;
            proof {
                assert(instr_enc(result.deep_view()) == seq![142u8]);
                assert(buffer@ =~= instr_enc(result.deep_view()) + rest@);
                assert(<Instr as Decode>::dec_ok(buffer@)) by {
                    assert(<Instr as Encode>::spec_wf(result.deep_view()) && buffer@
                        == <Instr as Encode>::spec_enc(result.deep_view()) + rest@
                        && <Instr as Decode>::tail_stop(rest@));
                }
            }
            Ok((result, rest))
        },
        143u8 => {
            let result = Instr::F32Trunc;
            proof {
                assert(instr_enc(result.deep_view()) == seq![143u8]);
                assert(buffer@ =~= instr_enc(result.deep_view()) + rest@);
                assert(<Instr as Decode>::dec_ok(buffer@)) by {
                    assert(<Instr as Encode>::spec_wf(result.deep_view()) && buffer@
                        == <Instr as Encode>::spec_enc(result.deep_view()) + rest@
                        && <Instr as Decode>::tail_stop(rest@));
                }
            }
            Ok((result, rest))
        },
        144u8 => {
            let result = Instr::F32Nearest;
            proof {
                assert(instr_enc(result.deep_view()) == seq![144u8]);
                assert(buffer@ =~= instr_enc(result.deep_view()) + rest@);
                assert(<Instr as Decode>::dec_ok(buffer@)) by {
                    assert(<Instr as Encode>::spec_wf(result.deep_view()) && buffer@
                        == <Instr as Encode>::spec_enc(result.deep_view()) + rest@
                        && <Instr as Decode>::tail_stop(rest@));
                }
            }
            Ok((result, rest))
        },
        145u8 => {
            let result = Instr::F32Sqrt;
            proof {
                assert(instr_enc(result.deep_view()) == seq![145u8]);
                assert(buffer@ =~= instr_enc(result.deep_view()) + rest@);
                assert(<Instr as Decode>::dec_ok(buffer@)) by {
                    assert(<Instr as Encode>::spec_wf(result.deep_view()) && buffer@
                        == <Instr as Encode>::spec_enc(result.deep_view()) + rest@
                        && <Instr as Decode>::tail_stop(rest@));
                }
            }
            Ok((result, rest))
        },
        146u8 => {
            let result = Instr::F32Add;
            proof {
                assert(instr_enc(result.deep_view()) == seq![146u8]);
                assert(buffer@ =~= instr_enc(result.deep_view()) + rest@);
                assert(<Instr as Decode>::dec_ok(buffer@)) by {
                    assert(<Instr as Encode>::spec_wf(result.deep_view()) && buffer@
                        == <Instr as Encode>::spec_enc(result.deep_view()) + rest@
                        && <Instr as Decode>::tail_stop(rest@));
                }
            }
            Ok((result, rest))
        },
        147u8 => {
            let result = Instr::F32Sub;
            proof {
                assert(instr_enc(result.deep_view()) == seq![147u8]);
                assert(buffer@ =~= instr_enc(result.deep_view()) + rest@);
                assert(<Instr as Decode>::dec_ok(buffer@)) by {
                    assert(<Instr as Encode>::spec_wf(result.deep_view()) && buffer@
                        == <Instr as Encode>::spec_enc(result.deep_view()) + rest@
                        && <Instr as Decode>::tail_stop(rest@));
                }
            }
            Ok((result, rest))
        },
        148u8 => {
            let result = Instr::F32Mul;
            proof {
                assert(instr_enc(result.deep_view()) == seq![148u8]);
                assert(buffer@ =~= instr_enc(result.deep_view()) + rest@);
                assert(<Instr as Decode>::dec_ok(buffer@)) by {
                    assert(<Instr as Encode>::spec_wf(result.deep_view()) && buffer@
                        == <Instr as Encode>::spec_enc(result.deep_view()) + rest@
                        && <Instr as Decode>::tail_stop(rest@));
                }
            }
            Ok((result, rest))
        },
        149u8 => {
            let result = Instr::F32Div;
            proof {
                assert(instr_enc(result.deep_view()) == seq![149u8]);
                assert(buffer@ =~= instr_enc(result.deep_view()) + rest@);
                assert(<Instr as Decode>::dec_ok(buffer@)) by {
                    assert(<Instr as Encode>::spec_wf(result.deep_view()) && buffer@
                        == <Instr as Encode>::spec_enc(result.deep_view()) + rest@
                        && <Instr as Decode>::tail_stop(rest@));
                }
            }
            Ok((result, rest))
        },
        150u8 => {
            let result = Instr::F32Min;
            proof {
                assert(instr_enc(result.deep_view()) == seq![150u8]);
                assert(buffer@ =~= instr_enc(result.deep_view()) + rest@);
                assert(<Instr as Decode>::dec_ok(buffer@)) by {
                    assert(<Instr as Encode>::spec_wf(result.deep_view()) && buffer@
                        == <Instr as Encode>::spec_enc(result.deep_view()) + rest@
                        && <Instr as Decode>::tail_stop(rest@));
                }
            }
            Ok((result, rest))
        },
        151u8 => {
            let result = Instr::F32Max;
            proof {
                assert(instr_enc(result.deep_view()) == seq![151u8]);
                assert(buffer@ =~= instr_enc(result.deep_view()) + rest@);
                assert(<Instr as Decode>::dec_ok(buffer@)) by {
                    assert(<Instr as Encode>::spec_wf(result.deep_view()) && buffer@
                        == <Instr as Encode>::spec_enc(result.deep_view()) + rest@
                        && <Instr as Decode>::tail_stop(rest@));
                }
            }
            Ok((result, rest))
        },
        152u8 => {
            let result = Instr::F32Copysign;
            proof {
                assert(instr_enc(result.deep_view()) == seq![152u8]);
                assert(buffer@ =~= instr_enc(result.deep_view()) + rest@);
                assert(<Instr as Decode>::dec_ok(buffer@)) by {
                    assert(<Instr as Encode>::spec_wf(result.deep_view()) && buffer@
                        == <Instr as Encode>::spec_enc(result.deep_view()) + rest@
                        && <Instr as Decode>::tail_stop(rest@));
                }
            }
            Ok((result, rest))
        },
        153u8 => {
            let result = Instr::F64Abs;
            proof {
                assert(instr_enc(result.deep_view()) == seq![153u8]);
                assert(buffer@ =~= instr_enc(result.deep_view()) + rest@);
                assert(<Instr as Decode>::dec_ok(buffer@)) by {
                    assert(<Instr as Encode>::spec_wf(result.deep_view()) && buffer@
                        == <Instr as Encode>::spec_enc(result.deep_view()) + rest@
                        && <Instr as Decode>::tail_stop(rest@));
                }
            }
            Ok((result, rest))
        },
        154u8 => {
            let result = Instr::F64Neg;
            proof {
                assert(instr_enc(result.deep_view()) == seq![154u8]);
                assert(buffer@ =~= instr_enc(result.deep_view()) + rest@);
                assert(<Instr as Decode>::dec_ok(buffer@)) by {
                    assert(<Instr as Encode>::spec_wf(result.deep_view()) && buffer@
                        == <Instr as Encode>::spec_enc(result.deep_view()) + rest@
                        && <Instr as Decode>::tail_stop(rest@));
                }
            }
            Ok((result, rest))
        },
        155u8 => {
            let result = Instr::F64Ceil;
            proof {
                assert(instr_enc(result.deep_view()) == seq![155u8]);
                assert(buffer@ =~= instr_enc(result.deep_view()) + rest@);
                assert(<Instr as Decode>::dec_ok(buffer@)) by {
                    assert(<Instr as Encode>::spec_wf(result.deep_view()) && buffer@
                        == <Instr as Encode>::spec_enc(result.deep_view()) + rest@
                        && <Instr as Decode>::tail_stop(rest@));
                }
            }
            Ok((result, rest))
        },
        156u8 => {
            let result = Instr::F64Floor;
            proof {
                assert(instr_enc(result.deep_view()) == seq![156u8]);
                assert(buffer@ =~= instr_enc(result.deep_view()) + rest@);
                assert(<Instr as Decode>::dec_ok(buffer@)) by {
                    assert(<Instr as Encode>::spec_wf(result.deep_view()) && buffer@
                        == <Instr as Encode>::spec_enc(result.deep_view()) + rest@
                        && <Instr as Decode>::tail_stop(rest@));
                }
            }
            Ok((result, rest))
        },
        157u8 => {
            let result = Instr::F64Trunc;
            proof {
                assert(instr_enc(result.deep_view()) == seq![157u8]);
                assert(buffer@ =~= instr_enc(result.deep_view()) + rest@);
                assert(<Instr as Decode>::dec_ok(buffer@)) by {
                    assert(<Instr as Encode>::spec_wf(result.deep_view()) && buffer@
                        == <Instr as Encode>::spec_enc(result.deep_view()) + rest@
                        && <Instr as Decode>::tail_stop(rest@));
                }
            }
            Ok((result, rest))
        },
        158u8 => {
            let result = Instr::F64Nearest;
            proof {
                assert(instr_enc(result.deep_view()) == seq![158u8]);
                assert(buffer@ =~= instr_enc(result.deep_view()) + rest@);
                assert(<Instr as Decode>::dec_ok(buffer@)) by {
                    assert(<Instr as Encode>::spec_wf(result.deep_view()) && buffer@
                        == <Instr as Encode>::spec_enc(result.deep_view()) + rest@
                        && <Instr as Decode>::tail_stop(rest@));
                }
            }
            Ok((result, rest))
        },
        159u8 => {
            let result = Instr::F64Sqrt;
            proof {
                assert(instr_enc(result.deep_view()) == seq![159u8]);
                assert(buffer@ =~= instr_enc(result.deep_view()) + rest@);
                assert(<Instr as Decode>::dec_ok(buffer@)) by {
                    assert(<Instr as Encode>::spec_wf(result.deep_view()) && buffer@
                        == <Instr as Encode>::spec_enc(result.deep_view()) + rest@
                        && <Instr as Decode>::tail_stop(rest@));
                }
            }
            Ok((result, rest))
        },
        160u8 => {
            let result = Instr::F64Add;
            proof {
                assert(instr_enc(result.deep_view()) == seq![160u8]);
                assert(buffer@ =~= instr_enc(result.deep_view()) + rest@);
                assert(<Instr as Decode>::dec_ok(buffer@)) by {
                    assert(<Instr as Encode>::spec_wf(result.deep_view()) && buffer@
                        == <Instr as Encode>::spec_enc(result.deep_view()) + rest@
                        && <Instr as Decode>::tail_stop(rest@));
                }
            }
            Ok((result, rest))
        },
        161u8 => {
            let result = Instr::F64Sub;
            proof {
                assert(instr_enc(result.deep_view()) == seq![161u8]);
                assert(buffer@ =~= instr_enc(result.deep_view()) + rest@);
                assert(<Instr as Decode>::dec_ok(buffer@)) by {
                    assert(<Instr as Encode>::spec_wf(result.deep_view()) && buffer@
                        == <Instr as Encode>::spec_enc(result.deep_view()) + rest@
                        && <Instr as Decode>::tail_stop(rest@));
                }
            }
            Ok((result, rest))
        },
        162u8 => {
            let result = Instr::F64Mul;
            proof {
                assert(instr_enc(result.deep_view()) == seq![162u8]);
                assert(buffer@ =~= instr_enc(result.deep_view()) + rest@);
                assert(<Instr as Decode>::dec_ok(buffer@)) by {
                    assert(<Instr as Encode>::spec_wf(result.deep_view()) && buffer@
                        == <Instr as Encode>::spec_enc(result.deep_view()) + rest@
                        && <Instr as Decode>::tail_stop(rest@));
                }
            }
            Ok((result, rest))
        },
        163u8 => {
            let result = Instr::F64Div;
            proof {
                assert(instr_enc(result.deep_view()) == seq![163u8]);
                assert(buffer@ =~= instr_enc(result.deep_view()) + rest@);
                assert(<Instr as Decode>::dec_ok(buffer@)) by {
                    assert(<Instr as Encode>::spec_wf(result.deep_view()) && buffer@
                        == <Instr as Encode>::spec_enc(result.deep_view()) + rest@
                        && <Instr as Decode>::tail_stop(rest@));
                }
            }
            Ok((result, rest))
        },
        164u8 => {
            let result = Instr::F64Min;
            proof {
                assert(instr_enc(result.deep_view()) == seq![164u8]);
                assert(buffer@ =~= instr_enc(result.deep_view()) + rest@);
                assert(<Instr as Decode>::dec_ok(buffer@)) by {
                    assert(<Instr as Encode>::spec_wf(result.deep_view()) && buffer@
                        == <Instr as Encode>::spec_enc(result.deep_view()) + rest@
                        && <Instr as Decode>::tail_stop(rest@));
                }
            }
            Ok((result, rest))
        },
        165u8 => {
            let result = Instr::F64Max;
            proof {
                assert(instr_enc(result.deep_view()) == seq![165u8]);
                assert(buffer@ =~= instr_enc(result.deep_view()) + rest@);
                assert(<Instr as Decode>::dec_ok(buffer@)) by {
                    assert(<Instr as Encode>::spec_wf(result.deep_view()) && buffer@
                        == <Instr as Encode>::spec_enc(result.deep_view()) + rest@
                        && <Instr as Decode>::tail_stop(rest@));
                }
            }
            Ok((result, rest))
        },
        166u8 => {
            let result = Instr::F64Copysign;
            proof {
                assert(instr_enc(result.deep_view()) == seq![166u8]);
                assert(buffer@ =~= instr_enc(result.deep_view()) + rest@);
                assert(<Instr as Decode>::dec_ok(buffer@)) by {
                    assert(<Instr as Encode>::spec_wf(result.deep_view()) && buffer@
                        == <Instr as Encode>::spec_enc(result.deep_view()) + rest@
                        && <Instr as Decode>::tail_stop(rest@));
                }
            }
            Ok((result, rest))
        },
        167u8 => {
            let result = Instr::I32WrapI64;
            proof {
                assert(instr_enc(result.deep_view()) == seq![167u8]);
                assert(buffer@ =~= instr_enc(result.deep_view()) + rest@);
                assert(<Instr as Decode>::dec_ok(buffer@)) by {
                    assert(<Instr as Encode>::spec_wf(result.deep_view()) && buffer@
                        == <Instr as Encode>::spec_enc(result.deep_view()) + rest@
                        && <Instr as Decode>::tail_stop(rest@));
                }
            }
            Ok((result, rest))
        },
        168u8 => {
            let result = Instr::I32TruncF32S;
            proof {
                assert(instr_enc(result.deep_view()) == seq![168u8]);
                assert(buffer@ =~= instr_enc(result.deep_view()) + rest@);
                assert(<Instr as Decode>::dec_ok(buffer@)) by {
                    assert(<Instr as Encode>::spec_wf(result.deep_view()) && buffer@
                        == <Instr as Encode>::spec_enc(result.deep_view()) + rest@
                        && <Instr as Decode>::tail_stop(rest@));
                }
            }
            Ok((result, rest))
        },
        169u8 => {
            let result = Instr::I32TruncF32U;
            proof {
                assert(instr_enc(result.deep_view()) == seq![169u8]);
                assert(buffer@ =~= instr_enc(result.deep_view()) + rest@);
                assert(<Instr as Decode>::dec_ok(buffer@)) by {
                    assert(<Instr as Encode>::spec_wf(result.deep_view()) && buffer@
                        == <Instr as Encode>::spec_enc(result.deep_view()) + rest@
                        && <Instr as Decode>::tail_stop(rest@));
                }
            }
            Ok((result, rest))
        },
        170u8 => {
            let result = Instr::I32TruncF64S;
            proof {
                assert(instr_enc(result.deep_view()) == seq![170u8]);
                assert(buffer@ =~= instr_enc(result.deep_view()) + rest@);
                assert(<Instr as Decode>::dec_ok(buffer@)) by {
                    assert(<Instr as Encode>::spec_wf(result.deep_view()) && buffer@
                        == <Instr as Encode>::spec_enc(result.deep_view()) + rest@
                        && <Instr as Decode>::tail_stop(rest@));
                }
            }
            Ok((result, rest))
        },
        171u8 => {
            let result = Instr::I32TruncF64U;
            proof {
                assert(instr_enc(result.deep_view()) == seq![171u8]);
                assert(buffer@ =~= instr_enc(result.deep_view()) + rest@);
                assert(<Instr as Decode>::dec_ok(buffer@)) by {
                    assert(<Instr as Encode>::spec_wf(result.deep_view()) && buffer@
                        == <Instr as Encode>::spec_enc(result.deep_view()) + rest@
                        && <Instr as Decode>::tail_stop(rest@));
                }
            }
            Ok((result, rest))
        },
        172u8 => {
            let result = Instr::I64ExtendI32S;
            proof {
                assert(instr_enc(result.deep_view()) == seq![172u8]);
                assert(buffer@ =~= instr_enc(result.deep_view()) + rest@);
                assert(<Instr as Decode>::dec_ok(buffer@)) by {
                    assert(<Instr as Encode>::spec_wf(result.deep_view()) && buffer@
                        == <Instr as Encode>::spec_enc(result.deep_view()) + rest@
                        && <Instr as Decode>::tail_stop(rest@));
                }
            }
            Ok((result, rest))
        },
        173u8 => {
            let result = Instr::I64ExtendI32U;
            proof {
                assert(instr_enc(result.deep_view()) == seq![173u8]);
                assert(buffer@ =~= instr_enc(result.deep_view()) + rest@);
                assert(<Instr as Decode>::dec_ok(buffer@)) by {
                    assert(<Instr as Encode>::spec_wf(result.deep_view()) && buffer@
                        == <Instr as Encode>::spec_enc(result.deep_view()) + rest@
                        && <Instr as Decode>::tail_stop(rest@));
                }
            }
            Ok((result, rest))
        },
        174u8 => {
            let result = Instr::I64TruncF32S;
            proof {
                assert(instr_enc(result.deep_view()) == seq![174u8]);
                assert(buffer@ =~= instr_enc(result.deep_view()) + rest@);
                assert(<Instr as Decode>::dec_ok(buffer@)) by {
                    assert(<Instr as Encode>::spec_wf(result.deep_view()) && buffer@
                        == <Instr as Encode>::spec_enc(result.deep_view()) + rest@
                        && <Instr as Decode>::tail_stop(rest@));
                }
            }
            Ok((result, rest))
        },
        175u8 => {
            let result = Instr::I64TruncF32U;
            proof {
                assert(instr_enc(result.deep_view()) == seq![175u8]);
                assert(buffer@ =~= instr_enc(result.deep_view()) + rest@);
                assert(<Instr as Decode>::dec_ok(buffer@)) by {
                    assert(<Instr as Encode>::spec_wf(result.deep_view()) && buffer@
                        == <Instr as Encode>::spec_enc(result.deep_view()) + rest@
                        && <Instr as Decode>::tail_stop(rest@));
                }
            }
            Ok((result, rest))
        },
        176u8 => {
            let result = Instr::I64TruncF64S;
            proof {
                assert(instr_enc(result.deep_view()) == seq![176u8]);
                assert(buffer@ =~= instr_enc(result.deep_view()) + rest@);
                assert(<Instr as Decode>::dec_ok(buffer@)) by {
                    assert(<Instr as Encode>::spec_wf(result.deep_view()) && buffer@
                        == <Instr as Encode>::spec_enc(result.deep_view()) + rest@
                        && <Instr as Decode>::tail_stop(rest@));
                }
            }
            Ok((result, rest))
        },
        177u8 => {
            let result = Instr::I64TruncF64U;
            proof {
                assert(instr_enc(result.deep_view()) == seq![177u8]);
                assert(buffer@ =~= instr_enc(result.deep_view()) + rest@);
                assert(<Instr as Decode>::dec_ok(buffer@)) by {
                    assert(<Instr as Encode>::spec_wf(result.deep_view()) && buffer@
                        == <Instr as Encode>::spec_enc(result.deep_view()) + rest@
                        && <Instr as Decode>::tail_stop(rest@));
                }
            }
            Ok((result, rest))
        },
        178u8 => {
            let result = Instr::F32ConvertI32S;
            proof {
                assert(instr_enc(result.deep_view()) == seq![178u8]);
                assert(buffer@ =~= instr_enc(result.deep_view()) + rest@);
                assert(<Instr as Decode>::dec_ok(buffer@)) by {
                    assert(<Instr as Encode>::spec_wf(result.deep_view()) && buffer@
                        == <Instr as Encode>::spec_enc(result.deep_view()) + rest@
                        && <Instr as Decode>::tail_stop(rest@));
                }
            }
            Ok((result, rest))
        },
        179u8 => {
            let result = Instr::F32ConvertI32U;
            proof {
                assert(instr_enc(result.deep_view()) == seq![179u8]);
                assert(buffer@ =~= instr_enc(result.deep_view()) + rest@);
                assert(<Instr as Decode>::dec_ok(buffer@)) by {
                    assert(<Instr as Encode>::spec_wf(result.deep_view()) && buffer@
                        == <Instr as Encode>::spec_enc(result.deep_view()) + rest@
                        && <Instr as Decode>::tail_stop(rest@));
                }
            }
            Ok((result, rest))
        },
        180u8 => {
            let result = Instr::F32ConvertI64S;
            proof {
                assert(instr_enc(result.deep_view()) == seq![180u8]);
                assert(buffer@ =~= instr_enc(result.deep_view()) + rest@);
                assert(<Instr as Decode>::dec_ok(buffer@)) by {
                    assert(<Instr as Encode>::spec_wf(result.deep_view()) && buffer@
                        == <Instr as Encode>::spec_enc(result.deep_view()) + rest@
                        && <Instr as Decode>::tail_stop(rest@));
                }
            }
            Ok((result, rest))
        },
        181u8 => {
            let result = Instr::F32ConvertI64U;
            proof {
                assert(instr_enc(result.deep_view()) == seq![181u8]);
                assert(buffer@ =~= instr_enc(result.deep_view()) + rest@);
                assert(<Instr as Decode>::dec_ok(buffer@)) by {
                    assert(<Instr as Encode>::spec_wf(result.deep_view()) && buffer@
                        == <Instr as Encode>::spec_enc(result.deep_view()) + rest@
                        && <Instr as Decode>::tail_stop(rest@));
                }
            }
            Ok((result, rest))
        },
        182u8 => {
            let result = Instr::F32DemoteF64;
            proof {
                assert(instr_enc(result.deep_view()) == seq![182u8]);
                assert(buffer@ =~= instr_enc(result.deep_view()) + rest@);
                assert(<Instr as Decode>::dec_ok(buffer@)) by {
                    assert(<Instr as Encode>::spec_wf(result.deep_view()) && buffer@
                        == <Instr as Encode>::spec_enc(result.deep_view()) + rest@
                        && <Instr as Decode>::tail_stop(rest@));
                }
            }
            Ok((result, rest))
        },
        183u8 => {
            let result = Instr::F64ConvertI32S;
            proof {
                assert(instr_enc(result.deep_view()) == seq![183u8]);
                assert(buffer@ =~= instr_enc(result.deep_view()) + rest@);
                assert(<Instr as Decode>::dec_ok(buffer@)) by {
                    assert(<Instr as Encode>::spec_wf(result.deep_view()) && buffer@
                        == <Instr as Encode>::spec_enc(result.deep_view()) + rest@
                        && <Instr as Decode>::tail_stop(rest@));
                }
            }
            Ok((result, rest))
        },
        184u8 => {
            let result = Instr::F64ConvertI32U;
            proof {
                assert(instr_enc(result.deep_view()) == seq![184u8]);
                assert(buffer@ =~= instr_enc(result.deep_view()) + rest@);
                assert(<Instr as Decode>::dec_ok(buffer@)) by {
                    assert(<Instr as Encode>::spec_wf(result.deep_view()) && buffer@
                        == <Instr as Encode>::spec_enc(result.deep_view()) + rest@
                        && <Instr as Decode>::tail_stop(rest@));
                }
            }
            Ok((result, rest))
        },
        185u8 => {
            let result = Instr::F64ConvertI64S;
            proof {
                assert(instr_enc(result.deep_view()) == seq![185u8]);
                assert(buffer@ =~= instr_enc(result.deep_view()) + rest@);
                assert(<Instr as Decode>::dec_ok(buffer@)) by {
                    assert(<Instr as Encode>::spec_wf(result.deep_view()) && buffer@
                        == <Instr as Encode>::spec_enc(result.deep_view()) + rest@
                        && <Instr as Decode>::tail_stop(rest@));
                }
            }
            Ok((result, rest))
        },
        186u8 => {
            let result = Instr::F64ConvertI64U;
            proof {
                assert(instr_enc(result.deep_view()) == seq![186u8]);
                assert(buffer@ =~= instr_enc(result.deep_view()) + rest@);
                assert(<Instr as Decode>::dec_ok(buffer@)) by {
                    assert(<Instr as Encode>::spec_wf(result.deep_view()) && buffer@
                        == <Instr as Encode>::spec_enc(result.deep_view()) + rest@
                        && <Instr as Decode>::tail_stop(rest@));
                }
            }
            Ok((result, rest))
        },
        187u8 => {
            let result = Instr::F64PromoteF32;
            proof {
                assert(instr_enc(result.deep_view()) == seq![187u8]);
                assert(buffer@ =~= instr_enc(result.deep_view()) + rest@);
                assert(<Instr as Decode>::dec_ok(buffer@)) by {
                    assert(<Instr as Encode>::spec_wf(result.deep_view()) && buffer@
                        == <Instr as Encode>::spec_enc(result.deep_view()) + rest@
                        && <Instr as Decode>::tail_stop(rest@));
                }
            }
            Ok((result, rest))
        },
        188u8 => {
            let result = Instr::I32ReinterpretF32;
            proof {
                assert(instr_enc(result.deep_view()) == seq![188u8]);
                assert(buffer@ =~= instr_enc(result.deep_view()) + rest@);
                assert(<Instr as Decode>::dec_ok(buffer@)) by {
                    assert(<Instr as Encode>::spec_wf(result.deep_view()) && buffer@
                        == <Instr as Encode>::spec_enc(result.deep_view()) + rest@
                        && <Instr as Decode>::tail_stop(rest@));
                }
            }
            Ok((result, rest))
        },
        189u8 => {
            let result = Instr::I64ReinterpretF64;
            proof {
                assert(instr_enc(result.deep_view()) == seq![189u8]);
                assert(buffer@ =~= instr_enc(result.deep_view()) + rest@);
                assert(<Instr as Decode>::dec_ok(buffer@)) by {
                    assert(<Instr as Encode>::spec_wf(result.deep_view()) && buffer@
                        == <Instr as Encode>::spec_enc(result.deep_view()) + rest@
                        && <Instr as Decode>::tail_stop(rest@));
                }
            }
            Ok((result, rest))
        },
        190u8 => {
            let result = Instr::F32ReinterpretI32;
            proof {
                assert(instr_enc(result.deep_view()) == seq![190u8]);
                assert(buffer@ =~= instr_enc(result.deep_view()) + rest@);
                assert(<Instr as Decode>::dec_ok(buffer@)) by {
                    assert(<Instr as Encode>::spec_wf(result.deep_view()) && buffer@
                        == <Instr as Encode>::spec_enc(result.deep_view()) + rest@
                        && <Instr as Decode>::tail_stop(rest@));
                }
            }
            Ok((result, rest))
        },
        191u8 => {
            let result = Instr::F64ReinterpretI64;
            proof {
                assert(instr_enc(result.deep_view()) == seq![191u8]);
                assert(buffer@ =~= instr_enc(result.deep_view()) + rest@);
                assert(<Instr as Decode>::dec_ok(buffer@)) by {
                    assert(<Instr as Encode>::spec_wf(result.deep_view()) && buffer@
                        == <Instr as Encode>::spec_enc(result.deep_view()) + rest@
                        && <Instr as Decode>::tail_stop(rest@));
                }
            }
            Ok((result, rest))
        },
        192u8 => {
            let result = Instr::I32Extend8S;
            proof {
                assert(instr_enc(result.deep_view()) == seq![192u8]);
                assert(buffer@ =~= instr_enc(result.deep_view()) + rest@);
                assert(<Instr as Decode>::dec_ok(buffer@)) by {
                    assert(<Instr as Encode>::spec_wf(result.deep_view()) && buffer@
                        == <Instr as Encode>::spec_enc(result.deep_view()) + rest@
                        && <Instr as Decode>::tail_stop(rest@));
                }
            }
            Ok((result, rest))
        },
        193u8 => {
            let result = Instr::I32Extend16S;
            proof {
                assert(instr_enc(result.deep_view()) == seq![193u8]);
                assert(buffer@ =~= instr_enc(result.deep_view()) + rest@);
                assert(<Instr as Decode>::dec_ok(buffer@)) by {
                    assert(<Instr as Encode>::spec_wf(result.deep_view()) && buffer@
                        == <Instr as Encode>::spec_enc(result.deep_view()) + rest@
                        && <Instr as Decode>::tail_stop(rest@));
                }
            }
            Ok((result, rest))
        },
        194u8 => {
            let result = Instr::I64Extend8S;
            proof {
                assert(instr_enc(result.deep_view()) == seq![194u8]);
                assert(buffer@ =~= instr_enc(result.deep_view()) + rest@);
                assert(<Instr as Decode>::dec_ok(buffer@)) by {
                    assert(<Instr as Encode>::spec_wf(result.deep_view()) && buffer@
                        == <Instr as Encode>::spec_enc(result.deep_view()) + rest@
                        && <Instr as Decode>::tail_stop(rest@));
                }
            }
            Ok((result, rest))
        },
        195u8 => {
            let result = Instr::I64Extend16S;
            proof {
                assert(instr_enc(result.deep_view()) == seq![195u8]);
                assert(buffer@ =~= instr_enc(result.deep_view()) + rest@);
                assert(<Instr as Decode>::dec_ok(buffer@)) by {
                    assert(<Instr as Encode>::spec_wf(result.deep_view()) && buffer@
                        == <Instr as Encode>::spec_enc(result.deep_view()) + rest@
                        && <Instr as Decode>::tail_stop(rest@));
                }
            }
            Ok((result, rest))
        },
        196u8 => {
            let result = Instr::I64Extend32S;
            proof {
                assert(instr_enc(result.deep_view()) == seq![196u8]);
                assert(buffer@ =~= instr_enc(result.deep_view()) + rest@);
                assert(<Instr as Decode>::dec_ok(buffer@)) by {
                    assert(<Instr as Encode>::spec_wf(result.deep_view()) && buffer@
                        == <Instr as Encode>::spec_enc(result.deep_view()) + rest@
                        && <Instr as Decode>::tail_stop(rest@));
                }
            }
            Ok((result, rest))
        },
        _ => {
            proof {
                assert(false);
            }
            Err(DecodeError::Error)
        },
    }
}

/// Decodes memory load/store instructions `0x28`..`0x33`,
/// which all carry one memory argument.
#[verifier::rlimit(100)]
fn instr_decode_mem_low<'a>(buffer: &'a [u8], b0: u8, rest: &'a [u8]) -> (r: DecodeResult<
    'a,
    Instr,
>)
    requires
        buffer@.len() >= 1,
        b0 == buffer@[0],
        rest@ == buffer@.drop_first(),
        0x28 <= b0 <= 0x33,
    ensures
        r matches Ok((v, rest)) ==> instr_wf(v.deep_view()) && buffer@ == instr_enc(v.deep_view())
            + rest@,
        r is Ok <==> <Instr as Decode>::dec_ok(buffer@),
{
    proof {
        assert(buffer@ =~= seq![b0] + rest@);
    }
    match <MemArg as Decode>::decode(rest) {
        Ok((m, cur)) => {
            match b0 {
                40u8 => {
                    let result = Instr::I32Load(m);
                    proof {
                        assert(instr_enc(result.deep_view()) =~= seq![40u8]
                            + <MemArg as Encode>::spec_enc(m.deep_view()));
                        assert(buffer@ =~= instr_enc(result.deep_view()) + cur@);
                        assert(<Instr as Decode>::dec_ok(buffer@)) by {
                            assert(<Instr as Encode>::spec_wf(result.deep_view()) && buffer@
                                == <Instr as Encode>::spec_enc(result.deep_view()) + cur@
                                && <Instr as Decode>::tail_stop(cur@));
                        }
                    }
                    Ok((result, cur))
                },
                41u8 => {
                    let result = Instr::I64Load(m);
                    proof {
                        assert(instr_enc(result.deep_view()) =~= seq![41u8]
                            + <MemArg as Encode>::spec_enc(m.deep_view()));
                        assert(buffer@ =~= instr_enc(result.deep_view()) + cur@);
                        assert(<Instr as Decode>::dec_ok(buffer@)) by {
                            assert(<Instr as Encode>::spec_wf(result.deep_view()) && buffer@
                                == <Instr as Encode>::spec_enc(result.deep_view()) + cur@
                                && <Instr as Decode>::tail_stop(cur@));
                        }
                    }
                    Ok((result, cur))
                },
                42u8 => {
                    let result = Instr::F32Load(m);
                    proof {
                        assert(instr_enc(result.deep_view()) =~= seq![42u8]
                            + <MemArg as Encode>::spec_enc(m.deep_view()));
                        assert(buffer@ =~= instr_enc(result.deep_view()) + cur@);
                        assert(<Instr as Decode>::dec_ok(buffer@)) by {
                            assert(<Instr as Encode>::spec_wf(result.deep_view()) && buffer@
                                == <Instr as Encode>::spec_enc(result.deep_view()) + cur@
                                && <Instr as Decode>::tail_stop(cur@));
                        }
                    }
                    Ok((result, cur))
                },
                43u8 => {
                    let result = Instr::F64Load(m);
                    proof {
                        assert(instr_enc(result.deep_view()) =~= seq![43u8]
                            + <MemArg as Encode>::spec_enc(m.deep_view()));
                        assert(buffer@ =~= instr_enc(result.deep_view()) + cur@);
                        assert(<Instr as Decode>::dec_ok(buffer@)) by {
                            assert(<Instr as Encode>::spec_wf(result.deep_view()) && buffer@
                                == <Instr as Encode>::spec_enc(result.deep_view()) + cur@
                                && <Instr as Decode>::tail_stop(cur@));
                        }
                    }
                    Ok((result, cur))
                },
                44u8 => {
                    let result = Instr::I32Load8S(m);
                    proof {
                        assert(instr_enc(result.deep_view()) =~= seq![44u8]
                            + <MemArg as Encode>::spec_enc(m.deep_view()));
                        assert(buffer@ =~= instr_enc(result.deep_view()) + cur@);
                        assert(<Instr as Decode>::dec_ok(buffer@)) by {
                            assert(<Instr as Encode>::spec_wf(result.deep_view()) && buffer@
                                == <Instr as Encode>::spec_enc(result.deep_view()) + cur@
                                && <Instr as Decode>::tail_stop(cur@));
                        }
                    }
                    Ok((result, cur))
                },
                45u8 => {
                    let result = Instr::I32Load8U(m);
                    proof {
                        assert(instr_enc(result.deep_view()) =~= seq![45u8]
                            + <MemArg as Encode>::spec_enc(m.deep_view()));
                        assert(buffer@ =~= instr_enc(result.deep_view()) + cur@);
                        assert(<Instr as Decode>::dec_ok(buffer@)) by {
                            assert(<Instr as Encode>::spec_wf(result.deep_view()) && buffer@
                                == <Instr as Encode>::spec_enc(result.deep_view()) + cur@
                                && <Instr as Decode>::tail_stop(cur@));
                        }
                    }
                    Ok((result, cur))
                },
                46u8 => {
                    let result = Instr::I32Load16S(m);
                    proof {
                        assert(instr_enc(result.deep_view()) =~= seq![46u8]
                            + <MemArg as Encode>::spec_enc(m.deep_view()));
                        assert(buffer@ =~= instr_enc(result.deep_view()) + cur@);
                        assert(<Instr as Decode>::dec_ok(buffer@)) by {
                            assert(<Instr as Encode>::spec_wf(result.deep_view()) && buffer@
                                == <Instr as Encode>::spec_enc(result.deep_view()) + cur@
                                && <Instr as Decode>::tail_stop(cur@));
                        }
                    }
                    Ok((result, cur))
                },
                47u8 => {
                    let result = Instr::I32Load16U(m);
                    proof {
                        assert(instr_enc(result.deep_view()) =~= seq![47u8]
                            + <MemArg as Encode>::spec_enc(m.deep_view()));
                        assert(buffer@ =~= instr_enc(result.deep_view()) + cur@);
                        assert(<Instr as Decode>::dec_ok(buffer@)) by {
                            assert(<Instr as Encode>::spec_wf(result.deep_view()) && buffer@
                                == <Instr as Encode>::spec_enc(result.deep_view()) + cur@
                                && <Instr as Decode>::tail_stop(cur@));
                        }
                    }
                    Ok((result, cur))
                },
                48u8 => {
                    let result = Instr::I64Load8S(m);
                    proof {
                        assert(instr_enc(result.deep_view()) =~= seq![48u8]
                            + <MemArg as Encode>::spec_enc(m.deep_view()));
                        assert(buffer@ =~= instr_enc(result.deep_view()) + cur@);
                        assert(<Instr as Decode>::dec_ok(buffer@)) by {
                            assert(<Instr as Encode>::spec_wf(result.deep_view()) && buffer@
                                == <Instr as Encode>::spec_enc(result.deep_view()) + cur@
                                && <Instr as Decode>::tail_stop(cur@));
                        }
                    }
                    Ok((result, cur))
                },
                49u8 => {
                    let result = Instr::I64Load8U(m);
                    proof {
                        assert(instr_enc(result.deep_view()) =~= seq![49u8]
                            + <MemArg as Encode>::spec_enc(m.deep_view()));
                        assert(buffer@ =~= instr_enc(result.deep_view()) + cur@);
                        assert(<Instr as Decode>::dec_ok(buffer@)) by {
                            assert(<Instr as Encode>::spec_wf(result.deep_view()) && buffer@
                                == <Instr as Encode>::spec_enc(result.deep_view()) + cur@
                                && <Instr as Decode>::tail_stop(cur@));
                        }
                    }
                    Ok((result, cur))
                },
                50u8 => {
                    let result = Instr::I64Load16S(m);
                    proof {
                        assert(instr_enc(result.deep_view()) =~= seq![50u8]
                            + <MemArg as Encode>::spec_enc(m.deep_view()));
                        assert(buffer@ =~= instr_enc(result.deep_view()) + cur@);
                        assert(<Instr as Decode>::dec_ok(buffer@)) by {
                            assert(<Instr as Encode>::spec_wf(result.deep_view()) && buffer@
                                == <Instr as Encode>::spec_enc(result.deep_view()) + cur@
                                && <Instr as Decode>::tail_stop(cur@));
                        }
                    }
                    Ok((result, cur))
                },
                51u8 => {
                    let result = Instr::I64Load16U(m);
                    proof {
                        assert(instr_enc(result.deep_view()) =~= seq![51u8]
                            + <MemArg as Encode>::spec_enc(m.deep_view()));
                        assert(buffer@ =~= instr_enc(result.deep_view()) + cur@);
                        assert(<Instr as Decode>::dec_ok(buffer@)) by {
                            assert(<Instr as Encode>::spec_wf(result.deep_view()) && buffer@
                                == <Instr as Encode>::spec_enc(result.deep_view()) + cur@
                                && <Instr as Decode>::tail_stop(cur@));
                        }
                    }
                    Ok((result, cur))
                },
                _ => {
                    proof {
                        assert(false);
                    }
                    Err(DecodeError::Error)
                },
            }
        },
        Err(_) => {
            proof {
                if <Instr as Decode>::dec_ok(buffer@) {
                    let (w, e) = choose|w: SpecInstr, e: Seq<u8>|
                        <Instr as Encode>::spec_wf(w) && buffer@ == <Instr as Encode>::spec_enc(w)
                            + e && <Instr as Decode>::tail_stop(e);
                    lemma_instr_head(w);
                    assert((<Instr as Encode>::spec_enc(w) + e)[0] == instr_enc(w)[0]);
                    assert(instr_op(w) == b0);
                    match w {
                        SpecInstr::I32Load(wm) => {
                            assert(buffer@ =~= seq![40u8] + (<MemArg as Encode>::spec_enc(
                                wm,
                            ) + e));
                            lemma_concat_cancel(seq![40u8], rest@, seq![40u8],
                                <MemArg as Encode>::spec_enc(wm) + e);
                            <MemArg as Decode>::lemma_covers(wm, e);
                            assert(<MemArg as Decode>::dec_ok(rest@));
                            assert(false);
                        },
                        SpecInstr::I64Load(wm) => {
                            assert(buffer@ =~= seq![41u8] + (<MemArg as Encode>::spec_enc(
                                wm,
                            ) + e));
                            lemma_concat_cancel(seq![41u8], rest@, seq![41u8],
                                <MemArg as Encode>::spec_enc(wm) + e);
                            <MemArg as Decode>::lemma_covers(wm, e);
                            assert(<MemArg as Decode>::dec_ok(rest@));
                            assert(false);
                        },
                        SpecInstr::F32Load(wm) => {
                            assert(buffer@ =~= seq![42u8] + (<MemArg as Encode>::spec_enc(
                                wm,
                            ) + e));
                            lemma_concat_cancel(seq![42u8], rest@, seq![42u8],
                                <MemArg as Encode>::spec_enc(wm) + e);
                            <MemArg as Decode>::lemma_covers(wm, e);
                            assert(<MemArg as Decode>::dec_ok(rest@));
                            assert(false);
                        },
                        SpecInstr::F64Load(wm) => {
                            assert(buffer@ =~= seq![43u8] + (<MemArg as Encode>::spec_enc(
                                wm,
                            ) + e));
                            lemma_concat_cancel(seq![43u8], rest@, seq![43u8],
                                <MemArg as Encode>::spec_enc(wm) + e);
                            <MemArg as Decode>::lemma_covers(wm, e);
                            assert(<MemArg as Decode>::dec_ok(rest@));
                            assert(false);
                        },
                        SpecInstr::I32Load8S(wm) => {
                            assert(buffer@ =~= seq![44u8] + (<MemArg as Encode>::spec_enc(
                                wm,
                            ) + e));
                            lemma_concat_cancel(seq![44u8], rest@, seq![44u8],
                                <MemArg as Encode>::spec_enc(wm) + e);
                            <MemArg as Decode>::lemma_covers(wm, e);
                            assert(<MemArg as Decode>::dec_ok(rest@));
                            assert(false);
                        },
                        SpecInstr::I32Load8U(wm) => {
                            assert(buffer@ =~= seq![45u8] + (<MemArg as Encode>::spec_enc(
                                wm,
                            ) + e));
                            lemma_concat_cancel(seq![45u8], rest@, seq![45u8],
                                <MemArg as Encode>::spec_enc(wm) + e);
                            <MemArg as Decode>::lemma_covers(wm, e);
                            assert(<MemArg as Decode>::dec_ok(rest@));
                            assert(false);
                        },
                        SpecInstr::I32Load16S(wm) => {
                            assert(buffer@ =~= seq![46u8] + (<MemArg as Encode>::spec_enc(
                                wm,
                            ) + e));
                            lemma_concat_cancel(seq![46u8], rest@, seq![46u8],
                                <MemArg as Encode>::spec_enc(wm) + e);
                            <MemArg as Decode>::lemma_covers(wm, e);
                            assert(<MemArg as Decode>::dec_ok(rest@));
                            assert(false);
                        },
                        SpecInstr::I32Load16U(wm) => {
                            assert(buffer@ =~= seq![47u8] + (<MemArg as Encode>::spec_enc(
                                wm,
                            ) + e));
                            lemma_concat_cancel(seq![47u8], rest@, seq![47u8],
                                <MemArg as Encode>::spec_enc(wm) + e);
                            <MemArg as Decode>::lemma_covers(wm, e);
                            assert(<MemArg as Decode>::dec_ok(rest@));
                            assert(false);
                        },
                        SpecInstr::I64Load8S(wm) => {
                            assert(buffer@ =~= seq![48u8] + (<MemArg as Encode>::spec_enc(
                                wm,
                            ) + e));
                            lemma_concat_cancel(seq![48u8], rest@, seq![48u8],
                                <MemArg as Encode>::spec_enc(wm) + e);
                            <MemArg as Decode>::lemma_covers(wm, e);
                            assert(<MemArg as Decode>::dec_ok(rest@));
                            assert(false);
                        },
                        SpecInstr::I64Load8U(wm) => {
                            assert(buffer@ =~= seq![49u8] + (<MemArg as Encode>::spec_enc(
                                wm,
                            ) + e));
                            lemma_concat_cancel(seq![49u8], rest@, seq![49u8],
                                <MemArg as Encode>::spec_enc(wm) + e);
                            <MemArg as Decode>::lemma_covers(wm, e);
                            assert(<MemArg as Decode>::dec_ok(rest@));
                            assert(false);
                        },
                        SpecInstr::I64Load16S(wm) => {
                            assert(buffer@ =~= seq![50u8] + (<MemArg as Encode>::spec_enc(
                                wm,
                            ) + e));
                            lemma_concat_cancel(seq![50u8], rest@, seq![50u8],
                                <MemArg as Encode>::spec_enc(wm) + e);
                            <MemArg as Decode>::lemma_covers(wm, e);
                            assert(<MemArg as Decode>::dec_ok(rest@));
                            assert(false);
                        },
                        SpecInstr::I64Load16U(wm) => {
                            assert(buffer@ =~= seq![51u8] + (<MemArg as Encode>::spec_enc(
                                wm,
                            ) + e));
                            lemma_concat_cancel(seq![51u8], rest@, seq![51u8],
                                <MemArg as Encode>::spec_enc(wm) + e);
                            <MemArg as Decode>::lemma_covers(wm, e);
                            assert(<MemArg as Decode>::dec_ok(rest@));
                            assert(false);
                        },
                        _ => {
                            assert(false);
                        },
                    }
                }
            }
            Err(DecodeError::Error)
        },
    }
}

/// Decodes memory load/store instructions `0x34`..`0x3e`,
/// which all carry one memory argument.
#[verifier::rlimit(100)]
fn instr_decode_mem_high<'a>(buffer: &'a [u8], b0: u8, rest: &'a [u8]) -> (r: DecodeResult<
    'a,
    Instr,
>)
    requires
        buffer@.len() >= 1,
        b0 == buffer@[0],
        rest@ == buffer@.drop_first(),
        0x34 <= b0 <= 0x3e,
    ensures
        r matches Ok((v, rest)) ==> instr_wf(v.deep_view()) && buffer@ == instr_enc(v.deep_view())
            + rest@,
        r is Ok <==> <Instr as Decode>::dec_ok(buffer@),
{
    proof {
        assert(buffer@ =~= seq![b0] + rest@);
    }
    match <MemArg as Decode>::decode(rest) {
        Ok((m, cur)) => {
            match b0 {
                52u8 => {
                    let result = Instr::I64Load32S(m);
                    proof {
                        assert(instr_enc(result.deep_view()) =~= seq![52u8]
                            + <MemArg as Encode>::spec_enc(m.deep_view()));
                        assert(buffer@ =~= instr_enc(result.deep_view()) + cur@);
                        assert(<Instr as Decode>::dec_ok(buffer@)) by {
                            assert(<Instr as Encode>::spec_wf(result.deep_view()) && buffer@
                                == <Instr as Encode>::spec_enc(result.deep_view()) + cur@
                                && <Instr as Decode>::tail_stop(cur@));
                        }
                    }
                    Ok((result, cur))
                },
                53u8 => {
                    let result = Instr::I64Load32U(m);
                    proof {
                        assert(instr_enc(result.deep_view()) =~= seq![53u8]
                            + <MemArg as Encode>::spec_enc(m.deep_view()));
                        assert(buffer@ =~= instr_enc(result.deep_view()) + cur@);
                        assert(<Instr as Decode>::dec_ok(buffer@)) by {
                            assert(<Instr as Encode>::spec_wf(result.deep_view()) && buffer@
                                == <Instr as Encode>::spec_enc(result.deep_view()) + cur@
                                && <Instr as Decode>::tail_stop(cur@));
                        }
                    }
                    Ok((result, cur))
                },
                54u8 => {
                    let result = Instr::I32Store(m);
                    proof {
                        assert(instr_enc(result.deep_view()) =~= seq![54u8]
                            + <MemArg as Encode>::spec_enc(m.deep_view()));
                        assert(buffer@ =~= instr_enc(result.deep_view()) + cur@);
                        assert(<Instr as Decode>::dec_ok(buffer@)) by {
                            assert(<Instr as Encode>::spec_wf(result.deep_view()) && buffer@
                                == <Instr as Encode>::spec_enc(result.deep_view()) + cur@
                                && <Instr as Decode>::tail_stop(cur@));
                        }
                    }
                    Ok((result, cur))
                },
                55u8 => {
                    let result = Instr::I64Store(m);
                    proof {
                        assert(instr_enc(result.deep_view()) =~= seq![55u8]
                            + <MemArg as Encode>::spec_enc(m.deep_view()));
                        assert(buffer@ =~= instr_enc(result.deep_view()) + cur@);
                        assert(<Instr as Decode>::dec_ok(buffer@)) by {
                            assert(<Instr as Encode>::spec_wf(result.deep_view()) && buffer@
                                == <Instr as Encode>::spec_enc(result.deep_view()) + cur@
                                && <Instr as Decode>::tail_stop(cur@));
                        }
                    }
                    Ok((result, cur))
                },
                56u8 => {
                    let result = Instr::F32Store(m);
                    proof {
                        assert(instr_enc(result.deep_view()) =~= seq![56u8]
                            + <MemArg as Encode>::spec_enc(m.deep_view()));
                        assert(buffer@ =~= instr_enc(result.deep_view()) + cur@);
                        assert(<Instr as Decode>::dec_ok(buffer@)) by {
                            assert(<Instr as Encode>::spec_wf(result.deep_view()) && buffer@
                                == <Instr as Encode>::spec_enc(result.deep_view()) + cur@
                                && <Instr as Decode>::tail_stop(cur@));
                        }
                    }
                    Ok((result, cur))
                },
                57u8 => {
                    let result = Instr::F64Store(m);
                    proof {
                        assert(instr_enc(result.deep_view()) =~= seq![57u8]
                            + <MemArg as Encode>::spec_enc(m.deep_view()));
                        assert(buffer@ =~= instr_enc(result.deep_view()) + cur@);
                        assert(<Instr as Decode>::dec_ok(buffer@)) by {
                            assert(<Instr as Encode>::spec_wf(result.deep_view()) && buffer@
                                == <Instr as Encode>::spec_enc(result.deep_view()) + cur@
                                && <Instr as Decode>::tail_stop(cur@));
                        }
                    }
                    Ok((result, cur))
                },
                58u8 => {
                    let result = Instr::I32Store8(m);
                    proof {
                        assert(instr_enc(result.deep_view()) =~= seq![58u8]
                            + <MemArg as Encode>::spec_enc(m.deep_view()));
                        assert(buffer@ =~= instr_enc(result.deep_view()) + cur@);
                        assert(<Instr as Decode>::dec_ok(buffer@)) by {
                            assert(<Instr as Encode>::spec_wf(result.deep_view()) && buffer@
                                == <Instr as Encode>::spec_enc(result.deep_view()) + cur@
                                && <Instr as Decode>::tail_stop(cur@));
                        }
                    }
                    Ok((result, cur))
                },
                59u8 => {
                    let result = Instr::I32Store16(m);
                    proof {
                        assert(instr_enc(result.deep_view()) =~= seq![59u8]
                            + <MemArg as Encode>::spec_enc(m.deep_view()));
                        assert(buffer@ =~= instr_enc(result.deep_view()) + cur@);
                        assert(<Instr as Decode>::dec_ok(buffer@)) by {
                            assert(<Instr as Encode>::spec_wf(result.deep_view()) && buffer@
                                == <Instr as Encode>::spec_enc(result.deep_view()) + cur@
                                && <Instr as Decode>::tail_stop(cur@));
                        }
                    }
                    Ok((result, cur))
                },
                60u8 => {
                    let result = Instr::I64Store8(m);
                    proof {
                        assert(instr_enc(result.deep_view()) =~= seq![60u8]
                            + <MemArg as Encode>::spec_enc(m.deep_view()));
                        assert(buffer@ =~= instr_enc(result.deep_view()) + cur@);
                        assert(<Instr as Decode>::dec_ok(buffer@)) by {
                            assert(<Instr as Encode>::spec_wf(result.deep_view()) && buffer@
                                == <Instr as Encode>::spec_enc(result.deep_view()) + cur@
                                && <Instr as Decode>::tail_stop(cur@));
                        }
                    }
                    Ok((result, cur))
                },
                61u8 => {
                    let result = Instr::I64Store16(m);
                    proof {
                        assert(instr_enc(result.deep_view()) =~= seq![61u8]
                            + <MemArg as Encode>::spec_enc(m.deep_view()));
                        assert(buffer@ =~= instr_enc(result.deep_view()) + cur@);
                        assert(<Instr as Decode>::dec_ok(buffer@)) by {
                            assert(<Instr as Encode>::spec_wf(result.deep_view()) && buffer@
                                == <Instr as Encode>::spec_enc(result.deep_view()) + cur@
                                && <Instr as Decode>::tail_stop(cur@));
                        }
                    }
                    Ok((result, cur))
                },
                62u8 => {
                    let result = Instr::I64Store32(m);
                    proof {
                        assert(instr_enc(result.deep_view()) =~= seq![62u8]
                            + <MemArg as Encode>::spec_enc(m.deep_view()));
                        assert(buffer@ =~= instr_enc(result.deep_view()) + cur@);
                        assert(<Instr as Decode>::dec_ok(buffer@)) by {
                            assert(<Instr as Encode>::spec_wf(result.deep_view()) && buffer@
                                == <Instr as Encode>::spec_enc(result.deep_view()) + cur@
                                && <Instr as Decode>::tail_stop(cur@));
                        }
                    }
                    Ok((result, cur))
                },
                _ => {
                    proof {
                        assert(false);
                    }
                    Err(DecodeError::Error)
                },
            }
        },
        Err(_) => {
            proof {
                if <Instr as Decode>::dec_ok(buffer@) {
                    let (w, e) = choose|w: SpecInstr, e: Seq<u8>|
                        <Instr as Encode>::spec_wf(w) && buffer@ == <Instr as Encode>::spec_enc(w)
                            + e && <Instr as Decode>::tail_stop(e);
                    lemma_instr_head(w);
                    assert((<Instr as Encode>::spec_enc(w) + e)[0] == instr_enc(w)[0]);
                    assert(instr_op(w) == b0);
                    match w {
                        SpecInstr::I64Load32S(wm) => {
                            assert(buffer@ =~= seq![52u8] + (<MemArg as Encode>::spec_enc(
                                wm,
                            ) + e));
                            lemma_concat_cancel(seq![52u8], rest@, seq![52u8],
                                <MemArg as Encode>::spec_enc(wm) + e);
                            <MemArg as Decode>::lemma_covers(wm, e);
                            assert(<MemArg as Decode>::dec_ok(rest@));
                            assert(false);
                        },
                        SpecInstr::I64Load32U(wm) => {
                            assert(buffer@ =~= seq![53u8] + (<MemArg as Encode>::spec_enc(
                                wm,
                            ) + e));
                            lemma_concat_cancel(seq![53u8], rest@, seq![53u8],
                                <MemArg as Encode>::spec_enc(wm) + e);
                            <MemArg as Decode>::lemma_covers(wm, e);
                            assert(<MemArg as Decode>::dec_ok(rest@));
                            assert(false);
                        },
                        SpecInstr::I32Store(wm) => {
                            assert(buffer@ =~= seq![54u8] + (<MemArg as Encode>::spec_enc(
                                wm,
                            ) + e));
                            lemma_concat_cancel(seq![54u8], rest@, seq![54u8],
                                <MemArg as Encode>::spec_enc(wm) + e);
                            <MemArg as Decode>::lemma_covers(wm, e);
                            assert(<MemArg as Decode>::dec_ok(rest@));
                            assert(false);
                        },
                        SpecInstr::I64Store(wm) => {
                            assert(buffer@ =~= seq![55u8] + (<MemArg as Encode>::spec_enc(
                                wm,
                            ) + e));
                            lemma_concat_cancel(seq![55u8], rest@, seq![55u8],
                                <MemArg as Encode>::spec_enc(wm) + e);
                            <MemArg as Decode>::lemma_covers(wm, e);
                            assert(<MemArg as Decode>::dec_ok(rest@));
                            assert(false);
                        },
                        SpecInstr::F32Store(wm) => {
                            assert(buffer@ =~= seq![56u8] + (<MemArg as Encode>::spec_enc(
                                wm,
                            ) + e));
                            lemma_concat_cancel(seq![56u8], rest@, seq![56u8],
                                <MemArg as Encode>::spec_enc(wm) + e);
                            <MemArg as Decode>::lemma_covers(wm, e);
                            assert(<MemArg as Decode>::dec_ok(rest@));
                            assert(false);
                        },
                        SpecInstr::F64Store(wm) => {
                            assert(buffer@ =~= seq![57u8] + (<MemArg as Encode>::spec_enc(
                                wm,
                            ) + e));
                            lemma_concat_cancel(seq![57u8], rest@, seq![57u8],
                                <MemArg as Encode>::spec_enc(wm) + e);
                            <MemArg as Decode>::lemma_covers(wm, e);
                            assert(<MemArg as Decode>::dec_ok(rest@));
                            assert(false);
                        },
                        SpecInstr::I32Store8(wm) => {
                            assert(buffer@ =~= seq![58u8] + (<MemArg as Encode>::spec_enc(
                                wm,
                            ) + e));
                            lemma_concat_cancel(seq![58u8], rest@, seq![58u8],
                                <MemArg as Encode>::spec_enc(wm) + e);
                            <MemArg as Decode>::lemma_covers(wm, e);
                            assert(<MemArg as Decode>::dec_ok(rest@));
                            assert(false);
                        },
                        SpecInstr::I32Store16(wm) => {
                            assert(buffer@ =~= seq![59u8] + (<MemArg as Encode>::spec_enc(
                                wm,
                            ) + e));
                            lemma_concat_cancel(seq![59u8], rest@, seq![59u8],
                                <MemArg as Encode>::spec_enc(wm) + e);
                            <MemArg as Decode>::lemma_covers(wm, e);
                            assert(<MemArg as Decode>::dec_ok(rest@));
                            assert(false);
                        },
                        SpecInstr::I64Store8(wm) => {
                            assert(buffer@ =~= seq![60u8] + (<MemArg as Encode>::spec_enc(
                                wm,
                            ) + e));
                            lemma_concat_cancel(seq![60u8], rest@, seq![60u8],
                                <MemArg as Encode>::spec_enc(wm) + e);
                            <MemArg as Decode>::lemma_covers(wm, e);
                            assert(<MemArg as Decode>::dec_ok(rest@));
                            assert(false);
                        },
                        SpecInstr::I64Store16(wm) => {
                            assert(buffer@ =~= seq![61u8] + (<MemArg as Encode>::spec_enc(
                                wm,
                            ) + e));
                            lemma_concat_cancel(seq![61u8], rest@, seq![61u8],
                                <MemArg as Encode>::spec_enc(wm) + e);
                            <MemArg as Decode>::lemma_covers(wm, e);
                            assert(<MemArg as Decode>::dec_ok(rest@));
                            assert(false);
                        },
                        SpecInstr::I64Store32(wm) => {
                            assert(buffer@ =~= seq![62u8] + (<MemArg as Encode>::spec_enc(
                                wm,
                            ) + e));
                            lemma_concat_cancel(seq![62u8], rest@, seq![62u8],
                                <MemArg as Encode>::spec_enc(wm) + e);
                            <MemArg as Decode>::lemma_covers(wm, e);
                            assert(<MemArg as Decode>::dec_ok(rest@));
                            assert(false);
                        },
                        _ => {
                            assert(false);
                        },
                    }
                }
            }
            Err(DecodeError::Error)
        },
    }
}

/// Decodes the memory load and store instructions.
fn instr_decode_mem<'a>(buffer: &'a [u8], b0: u8, rest: &'a [u8]) -> (r: DecodeResult<'a, Instr>)
    requires
        buffer@.len() >= 1,
        b0 == buffer@[0],
        rest@ == buffer@.drop_first(),
        0x28 <= b0 <= 0x3E,
    ensures
        r matches Ok((v, rest)) ==> instr_wf(v.deep_view()) && buffer@ == instr_enc(v.deep_view())
            + rest@,
        r is Ok <==> <Instr as Decode>::dec_ok(buffer@),
{
    if b0 <= 0x33 {
        instr_decode_mem_low(buffer, b0, rest)
    } else {
        instr_decode_mem_high(buffer, b0, rest)
    }
}

/// Decodes the `0xFC`-prefixed instructions with sub-opcodes 0..7.
#[verifier::rlimit(100)]
fn instr_decode_fc_sat<'a>(buffer: &'a [u8], b0: u8, b1: u8, cur1: &'a [u8]) -> (r:
    DecodeResult<'a, Instr>)
    requires
        buffer@.len() >= 2,
        b0 == buffer@[0],
        b1 == buffer@[1],
        b0 == 0xFC,
        0 <= b1 <= 7,
        buffer@ == seq![b0, b1] + cur1@,
    ensures
        r matches Ok((v, rest)) ==> instr_wf(v.deep_view()) && buffer@ == instr_enc(v.deep_view())
            + rest@,
        r is Ok <==> <Instr as Decode>::dec_ok(buffer@),
{
    match b1 {
        0u8 => {
            let c2 = cur1;
            let result = Instr::I32TruncSatF32S;
            proof {
                assert(uleb(0 as nat) =~= seq![0u8]);
                assert(instr_enc(result.deep_view()) =~= seq![252u8, 0u8]);
                assert(buffer@ =~= instr_enc(result.deep_view()) + c2@);
                assert(<Instr as Decode>::dec_ok(buffer@)) by {
                    assert(<Instr as Encode>::spec_wf(result.deep_view()) && buffer@
                        == <Instr as Encode>::spec_enc(result.deep_view()) + c2@
                        && <Instr as Decode>::tail_stop(c2@));
                }
            }
            Ok((result, c2))
        },
        1u8 => {
            let c2 = cur1;
            let result = Instr::I32TruncSatF32U;
            proof {
                assert(uleb(1 as nat) =~= seq![1u8]);
                assert(instr_enc(result.deep_view()) =~= seq![252u8, 1u8]);
                assert(buffer@ =~= instr_enc(result.deep_view()) + c2@);
                assert(<Instr as Decode>::dec_ok(buffer@)) by {
                    assert(<Instr as Encode>::spec_wf(result.deep_view()) && buffer@
                        == <Instr as Encode>::spec_enc(result.deep_view()) + c2@
                        && <Instr as Decode>::tail_stop(c2@));
                }
            }
            Ok((result, c2))
        },
        2u8 => {
            let c2 = cur1;
            let result = Instr::I32TruncSatF64S;
            proof {
                assert(uleb(2 as nat) =~= seq![2u8]);
                assert(instr_enc(result.deep_view()) =~= seq![252u8, 2u8]);
                assert(buffer@ =~= instr_enc(result.deep_view()) + c2@);
                assert(<Instr as Decode>::dec_ok(buffer@)) by {
                    assert(<Instr as Encode>::spec_wf(result.deep_view()) && buffer@
                        == <Instr as Encode>::spec_enc(result.deep_view()) + c2@
                        && <Instr as Decode>::tail_stop(c2@));
                }
            }
            Ok((result, c2))
        },
        3u8 => {
            let c2 = cur1;
            let result = Instr::I32TruncSatF64U;
            proof {
                assert(uleb(3 as nat) =~= seq![3u8]);
                assert(instr_enc(result.deep_view()) =~= seq![252u8, 3u8]);
                assert(buffer@ =~= instr_enc(result.deep_view()) + c2@);
                assert(<Instr as Decode>::dec_ok(buffer@)) by {
                    assert(<Instr as Encode>::spec_wf(result.deep_view()) && buffer@
                        == <Instr as Encode>::spec_enc(result.deep_view()) + c2@
                        && <Instr as Decode>::tail_stop(c2@));
                }
            }
            Ok((result, c2))
        },
        4u8 => {
            let c2 = cur1;
            let result = Instr::I64TruncSatF32S;
            proof {
                assert(uleb(4 as nat) =~= seq![4u8]);
                assert(instr_enc(result.deep_view()) =~= seq![252u8, 4u8]);
                assert(buffer@ =~= instr_enc(result.deep_view()) + c2@);
                assert(<Instr as Decode>::dec_ok(buffer@)) by {
                    assert(<Instr as Encode>::spec_wf(result.deep_view()) && buffer@
                        == <Instr as Encode>::spec_enc(result.deep_view()) + c2@
                        && <Instr as Decode>::tail_stop(c2@));
                }
            }
            Ok((result, c2))
        },
        5u8 => {
            let c2 = cur1;
            let result = Instr::I64TruncSatF32U;
            proof {
                assert(uleb(5 as nat) =~= seq![5u8]);
                assert(instr_enc(result.deep_view()) =~= seq![252u8, 5u8]);
                assert(buffer@ =~= instr_enc(result.deep_view()) + c2@);
                assert(<Instr as Decode>::dec_ok(buffer@)) by {
                    assert(<Instr as Encode>::spec_wf(result.deep_view()) && buffer@
                        == <Instr as Encode>::spec_enc(result.deep_view()) + c2@
                        && <Instr as Decode>::tail_stop(c2@));
                }
            }
            Ok((result, c2))
        },
        6u8 => {
            let c2 = cur1;
            let result = Instr::I64TruncSatF64S;
            proof {
                assert(uleb(6 as nat) =~= seq![6u8]);
                assert(instr_enc(result.deep_view()) =~= seq![252u8, 6u8]);
                assert(buffer@ =~= instr_enc(result.deep_view()) + c2@);
                assert(<Instr as Decode>::dec_ok(buffer@)) by {
                    assert(<Instr as Encode>::spec_wf(result.deep_view()) && buffer@
                        == <Instr as Encode>::spec_enc(result.deep_view()) + c2@
                        && <Instr as Decode>::tail_stop(c2@));
                }
            }
            Ok((result, c2))
        },
        7u8 => {
            let c2 = cur1;
            let result = Instr::I64TruncSatF64U;
            proof {
                assert(uleb(7 as nat) =~= seq![7u8]);
                assert(instr_enc(result.deep_view()) =~= seq![252u8, 7u8]);
                assert(buffer@ =~= instr_enc(result.deep_view()) + c2@);
                assert(<Instr as Decode>::dec_ok(buffer@)) by {
                    assert(<Instr as Encode>::spec_wf(result.deep_view()) && buffer@
                        == <Instr as Encode>::spec_enc(result.deep_view()) + c2@
                        && <Instr as Decode>::tail_stop(c2@));
                }
            }
            Ok((result, c2))
        },
        _ => {
            proof {
                assert(false);
            }
            Err(DecodeError::Error)
        },
    }
}

/// Decodes the `0xFC`-prefixed instructions with sub-opcodes 8..17.
#[verifier::rlimit(100)]
fn instr_decode_fc_ops<'a>(buffer: &'a [u8], b0: u8, b1: u8, cur1: &'a [u8]) -> (r:
    DecodeResult<'a, Instr>)
    requires
        buffer@.len() >= 2,
        b0 == buffer@[0],
        b1 == buffer@[1],
        b0 == 0xFC,
        8 <= b1 <= 17,
        buffer@ == seq![b0, b1] + cur1@,
    ensures
        r matches Ok((v, rest)) ==> instr_wf(v.deep_view()) && buffer@ == instr_enc(v.deep_view())
            + rest@,
        r is Ok <==> <Instr as Decode>::dec_ok(buffer@),
{
    match b1 {
        12u8 => {
            let c2 = cur1;
            let (f2, cur3) = match <ElemIdx as Decode>::decode(c2) {
                Ok(p) => p,
                Err(_) => {
                    proof {
                        if <Instr as Decode>::dec_ok(buffer@) {
                            lemma_err_instr_tableinit_2_fail(buffer@, c2@);
                        }
                    }
                    return Err(DecodeError::Error);
                },
            };
            assert(buffer@ =~= seq![252u8, 12u8] + <ElemIdx as Encode>::spec_enc(f2.deep_view()) + cur3@);
            let (f3, cur4) = match <TableIdx as Decode>::decode(cur3) {
                Ok(p) => p,
                Err(_) => {
                    proof {
                        if <Instr as Decode>::dec_ok(buffer@) {
                            lemma_err_instr_tableinit_3_fail(buffer@, c2@, cur3@, f2.deep_view());
                        }
                    }
                    return Err(DecodeError::Error);
                },
            };
            assert(buffer@ =~= seq![252u8, 12u8] + <ElemIdx as Encode>::spec_enc(f2.deep_view()) + <TableIdx as Encode>::spec_enc(f3.deep_view()) + cur4@);
            let result = Instr::TableInit(f2, f3);
            proof {
                assert(uleb(12 as nat) =~= seq![12u8]);
                assert(instr_enc(result.deep_view()) =~= seq![252u8, 12u8] + <ElemIdx as Encode>::spec_enc(f2.deep_view()) + <TableIdx as Encode>::spec_enc(f3.deep_view()));
                assert(buffer@ =~= instr_enc(result.deep_view()) + cur4@);
                assert(<Instr as Decode>::dec_ok(buffer@)) by {
                    assert(<Instr as Encode>::spec_wf(result.deep_view()) && buffer@
                        == <Instr as Encode>::spec_enc(result.deep_view()) + cur4@
                        && <Instr as Decode>::tail_stop(cur4@));
                }
            }
            Ok((result, cur4))
        },
        13u8 => {
            let c2 = cur1;
            let (f2, cur3) = match <ElemIdx as Decode>::decode(c2) {
                Ok(p) => p,
                Err(_) => {
                    proof {
                        if <Instr as Decode>::dec_ok(buffer@) {
                            lemma_err_instr_elemdrop_2_fail(buffer@, c2@);
                        }
                    }
                    return Err(DecodeError::Error);
                },
            };
            assert(buffer@ =~= seq![252u8, 13u8] + <ElemIdx as Encode>::spec_enc(f2.deep_view()) + cur3@);
            let result = Instr::ElemDrop(f2);
            proof {
                assert(uleb(13 as nat) =~= seq![13u8]);
                assert(instr_enc(result.deep_view()) =~= seq![252u8, 13u8] + <ElemIdx as Encode>::spec_enc(f2.deep_view()));
                assert(buffer@ =~= instr_enc(result.deep_view()) + cur3@);
                assert(<Instr as Decode>::dec_ok(buffer@)) by {
                    assert(<Instr as Encode>::spec_wf(result.deep_view()) && buffer@
                        == <Instr as Encode>::spec_enc(result.deep_view()) + cur3@
                        && <Instr as Decode>::tail_stop(cur3@));
                }
            }
            Ok((result, cur3))
        },
        14u8 => {
            let c2 = cur1;
            let (f2, cur3) = match <TableIdx as Decode>::decode(c2) {
                Ok(p) => p,
                Err(_) => {
                    proof {
                        if <Instr as Decode>::dec_ok(buffer@) {
                            lemma_err_instr_tablecopy_2_fail(buffer@, c2@);
                        }
                    }
                    return Err(DecodeError::Error);
                },
            };
            assert(buffer@ =~= seq![252u8, 14u8] + <TableIdx as Encode>::spec_enc(f2.deep_view()) + cur3@);
            let (f3, cur4) = match <TableIdx as Decode>::decode(cur3) {
                Ok(p) => p,
                Err(_) => {
                    proof {
                        if <Instr as Decode>::dec_ok(buffer@) {
                            lemma_err_instr_tablecopy_3_fail(buffer@, c2@, cur3@, f2.deep_view());
                        }
                    }
                    return Err(DecodeError::Error);
                },
            };
            assert(buffer@ =~= seq![252u8, 14u8] + <TableIdx as Encode>::spec_enc(f2.deep_view()) + <TableIdx as Encode>::spec_enc(f3.deep_view()) + cur4@);
            let result = Instr::TableCopy(f2, f3);
            proof {
                assert(uleb(14 as nat) =~= seq![14u8]);
                assert(instr_enc(result.deep_view()) =~= seq![252u8, 14u8] + <TableIdx as Encode>::spec_enc(f2.deep_view()) + <TableIdx as Encode>::spec_enc(f3.deep_view()));
                assert(buffer@ =~= instr_enc(result.deep_view()) + cur4@);
                assert(<Instr as Decode>::dec_ok(buffer@)) by {
                    assert(<Instr as Encode>::spec_wf(result.deep_view()) && buffer@
                        == <Instr as Encode>::spec_enc(result.deep_view()) + cur4@
                        && <Instr as Decode>::tail_stop(cur4@));
                }
            }
            Ok((result, cur4))
        },
        15u8 => {
            let c2 = cur1;
            let (f2, cur3) = match <TableIdx as Decode>::decode(c2) {
                Ok(p) => p,
                Err(_) => {
                    proof {
                        if <Instr as Decode>::dec_ok(buffer@) {
                            lemma_err_instr_tablegrow_2_fail(buffer@, c2@);
                        }
                    }
                    return Err(DecodeError::Error);
                },
            };
            assert(buffer@ =~= seq![252u8, 15u8] + <TableIdx as Encode>::spec_enc(f2.deep_view()) + cur3@);
            let result = Instr::TableGrow(f2);
            proof {
                assert(uleb(15 as nat) =~= seq![15u8]);
                assert(instr_enc(result.deep_view()) =~= seq![252u8, 15u8] + <TableIdx as Encode>::spec_enc(f2.deep_view()));
                assert(buffer@ =~= instr_enc(result.deep_view()) + cur3@);
                assert(<Instr as Decode>::dec_ok(buffer@)) by {
                    assert(<Instr as Encode>::spec_wf(result.deep_view()) && buffer@
                        == <Instr as Encode>::spec_enc(result.deep_view()) + cur3@
                        && <Instr as Decode>::tail_stop(cur3@));
                }
            }
            Ok((result, cur3))
        },
        16u8 => {
            let c2 = cur1;
            let (f2, cur3) = match <TableIdx as Decode>::decode(c2) {
                Ok(p) => p,
                Err(_) => {
                    proof {
                        if <Instr as Decode>::dec_ok(buffer@) {
                            lemma_err_instr_tablesize_2_fail(buffer@, c2@);
                        }
                    }
                    return Err(DecodeError::Error);
                },
            };
            assert(buffer@ =~= seq![252u8, 16u8] + <TableIdx as Encode>::spec_enc(f2.deep_view()) + cur3@);
            let result = Instr::TableSize(f2);
            proof {
                assert(uleb(16 as nat) =~= seq![16u8]);
                assert(instr_enc(result.deep_view()) =~= seq![252u8, 16u8] + <TableIdx as Encode>::spec_enc(f2.deep_view()));
                assert(buffer@ =~= instr_enc(result.deep_view()) + cur3@);
                assert(<Instr as Decode>::dec_ok(buffer@)) by {
                    assert(<Instr as Encode>::spec_wf(result.deep_view()) && buffer@
                        == <Instr as Encode>::spec_enc(result.deep_view()) + cur3@
                        && <Instr as Decode>::tail_stop(cur3@));
                }
            }
            Ok((result, cur3))
        },
        17u8 => {
            let c2 = cur1;
            let (f2, cur3) = match <TableIdx as Decode>::decode(c2) {
                Ok(p) => p,
                Err(_) => {
                    proof {
                        if <Instr as Decode>::dec_ok(buffer@) {
                            lemma_err_instr_tablefill_2_fail(buffer@, c2@);
                        }
                    }
                    return Err(DecodeError::Error);
                },
            };
            assert(buffer@ =~= seq![252u8, 17u8] + <TableIdx as Encode>::spec_enc(f2.deep_view()) + cur3@);
            let result = Instr::TableFill(f2);
            proof {
                assert(uleb(17 as nat) =~= seq![17u8]);
                assert(instr_enc(result.deep_view()) =~= seq![252u8, 17u8] + <TableIdx as Encode>::spec_enc(f2.deep_view()));
                assert(buffer@ =~= instr_enc(result.deep_view()) + cur3@);
                assert(<Instr as Decode>::dec_ok(buffer@)) by {
                    assert(<Instr as Encode>::spec_wf(result.deep_view()) && buffer@
                        == <Instr as Encode>::spec_enc(result.deep_view()) + cur3@
                        && <Instr as Decode>::tail_stop(cur3@));
                }
            }
            Ok((result, cur3))
        },
        8u8 => {
            let c2 = cur1;
            let (f2, cur3) = match <DataIdx as Decode>::decode(c2) {
                Ok(p) => p,
                Err(_) => {
                    proof {
                        if <Instr as Decode>::dec_ok(buffer@) {
                            lemma_err_instr_memoryinit_2_fail(buffer@, c2@);
                        }
                    }
                    return Err(DecodeError::Error);
                },
            };
            assert(buffer@ =~= seq![252u8, 8u8] + <DataIdx as Encode>::spec_enc(f2.deep_view()) + cur3@);
            let (lit3, cur4) = match <u8 as Decode>::decode(cur3) {
                Ok(p) => p,
                Err(_) => {
                    proof {
                        if <Instr as Decode>::dec_ok(buffer@) {
                            lemma_err_instr_memoryinit_3_nobyte(buffer@, c2@, cur3@, f2.deep_view());
                        }
                    }
                    return Err(DecodeError::Error);
                },
            };
            if lit3 != 0u8 {
                proof {
                    assert(cur3@[0] == lit3);
                }
                proof {
                    if <Instr as Decode>::dec_ok(buffer@) {
                        lemma_err_instr_memoryinit_3_mismatch(buffer@, c2@, cur3@, f2.deep_view());
                    }
                }
                return Err(DecodeError::Error);
            }
            assert(buffer@ =~= seq![252u8, 8u8] + <DataIdx as Encode>::spec_enc(f2.deep_view()) + seq![0u8] + cur4@);
            let result = Instr::MemoryInit(f2);
            proof {
                assert(uleb(8 as nat) =~= seq![8u8]);
                assert(instr_enc(result.deep_view()) =~= seq![252u8, 8u8] + <DataIdx as Encode>::spec_enc(f2.deep_view()) + seq![0u8]);
                assert(buffer@ =~= instr_enc(result.deep_view()) + cur4@);
                assert(<Instr as Decode>::dec_ok(buffer@)) by {
                    assert(<Instr as Encode>::spec_wf(result.deep_view()) && buffer@
                        == <Instr as Encode>::spec_enc(result.deep_view()) + cur4@
                        && <Instr as Decode>::tail_stop(cur4@));
                }
            }
            Ok((result, cur4))
        },
        9u8 => {
            let c2 = cur1;
            let (f2, cur3) = match <DataIdx as Decode>::decode(c2) {
                Ok(p) => p,
                Err(_) => {
                    proof {
                        if <Instr as Decode>::dec_ok(buffer@) {
                            lemma_err_instr_datadrop_2_fail(buffer@, c2@);
                        }
                    }
                    return Err(DecodeError::Error);
                },
            };
            assert(buffer@ =~= seq![252u8, 9u8] + <DataIdx as Encode>::spec_enc(f2.deep_view()) + cur3@);
            let result = Instr::DataDrop(f2);
            proof {
                assert(uleb(9 as nat) =~= seq![9u8]);
                assert(instr_enc(result.deep_view()) =~= seq![252u8, 9u8] + <DataIdx as Encode>::spec_enc(f2.deep_view()));
                assert(buffer@ =~= instr_enc(result.deep_view()) + cur3@);
                assert(<Instr as Decode>::dec_ok(buffer@)) by {
                    assert(<Instr as Encode>::spec_wf(result.deep_view()) && buffer@
                        == <Instr as Encode>::spec_enc(result.deep_view()) + cur3@
                        && <Instr as Decode>::tail_stop(cur3@));
                }
            }
            Ok((result, cur3))
        },
        10u8 => {
            let c2 = cur1;
            let (lit2, cur3) = match <u8 as Decode>::decode(c2) {
                Ok(p) => p,
                Err(_) => {
                    proof {
                        if <Instr as Decode>::dec_ok(buffer@) {
                            lemma_err_instr_memorycopy_2_nobyte(buffer@, c2@);
                        }
                    }
                    return Err(DecodeError::Error);
                },
            };
            if lit2 != 0u8 {
                proof {
                    assert(c2@[0] == lit2);
                }
                proof {
                    if <Instr as Decode>::dec_ok(buffer@) {
                        lemma_err_instr_memorycopy_2_mismatch(buffer@, c2@);
                    }
                }
                return Err(DecodeError::Error);
            }
            assert(buffer@ =~= seq![252u8, 10u8] + seq![0u8] + cur3@);
            let (lit3, cur4) = match <u8 as Decode>::decode(cur3) {
                Ok(p) => p,
                Err(_) => {
                    proof {
                        if <Instr as Decode>::dec_ok(buffer@) {
                            lemma_err_instr_memorycopy_3_nobyte(buffer@, c2@, cur3@);
                        }
                    }
                    return Err(DecodeError::Error);
                },
            };
            if lit3 != 0u8 {
                proof {
                    assert(cur3@[0] == lit3);
                }
                proof {
                    if <Instr as Decode>::dec_ok(buffer@) {
                        lemma_err_instr_memorycopy_3_mismatch(buffer@, c2@, cur3@);
                    }
                }
                return Err(DecodeError::Error);
            }
            assert(buffer@ =~= seq![252u8, 10u8] + seq![0u8] + seq![0u8] + cur4@);
            let result = Instr::MemoryCopy;
            proof {
                assert(uleb(10 as nat) =~= seq![10u8]);
                assert(instr_enc(result.deep_view()) =~= seq![252u8, 10u8] + seq![0u8] + seq![0u8]);
                assert(buffer@ =~= instr_enc(result.deep_view()) + cur4@);
                assert(<Instr as Decode>::dec_ok(buffer@)) by {
                    assert(<Instr as Encode>::spec_wf(result.deep_view()) && buffer@
                        == <Instr as Encode>::spec_enc(result.deep_view()) + cur4@
                        && <Instr as Decode>::tail_stop(cur4@));
                }
            }
            Ok((result, cur4))
        },
        11u8 => {
            let c2 = cur1;
            let (lit2, cur3) = match <u8 as Decode>::decode(c2) {
                Ok(p) => p,
                Err(_) => {
                    proof {
                        if <Instr as Decode>::dec_ok(buffer@) {
                            lemma_err_instr_memoryfill_2_nobyte(buffer@, c2@);
                        }
                    }
                    return Err(DecodeError::Error);
                },
            };
            if lit2 != 0u8 {
                proof {
                    assert(c2@[0] == lit2);
                }
                proof {
                    if <Instr as Decode>::dec_ok(buffer@) {
                        lemma_err_instr_memoryfill_2_mismatch(buffer@, c2@);
                    }
                }
                return Err(DecodeError::Error);
            }
            assert(buffer@ =~= seq![252u8, 11u8] + seq![0u8] + cur3@);
            let result = Instr::MemoryFill;
            proof {
                assert(uleb(11 as nat) =~= seq![11u8]);
                assert(instr_enc(result.deep_view()) =~= seq![252u8, 11u8] + seq![0u8]);
                assert(buffer@ =~= instr_enc(result.deep_view()) + cur3@);
                assert(<Instr as Decode>::dec_ok(buffer@)) by {
                    assert(<Instr as Encode>::spec_wf(result.deep_view()) && buffer@
                        == <Instr as Encode>::spec_enc(result.deep_view()) + cur3@
                        && <Instr as Decode>::tail_stop(cur3@));
                }
            }
            Ok((result, cur3))
        },
        _ => {
            proof {
                assert(false);
            }
            Err(DecodeError::Error)
        },
    }
}

/// Decodes the `0xFC`-prefixed instruction family, discriminated by a
/// LEB128 sub-opcode.
fn instr_decode_fc<'a>(buffer: &'a [u8], b0: u8, rest: &'a [u8]) -> (r: DecodeResult<'a, Instr>)
    requires
        buffer@.len() >= 1,
        b0 == buffer@[0],
        rest@ == buffer@.drop_first(),
        b0 == 0xFC,
    ensures
        r matches Ok((v, rest)) ==> instr_wf(v.deep_view()) && buffer@ == instr_enc(v.deep_view())
            + rest@,
        r is Ok <==> <Instr as Decode>::dec_ok(buffer@),
{
    proof {
        assert(buffer@ =~= seq![b0] + rest@);
    }
    if rest.len() == 0 {
        proof {
            if <Instr as Decode>::dec_ok(buffer@) {
                let (w, e) = choose|w: SpecInstr, e: Seq<u8>|
                    <Instr as Encode>::spec_wf(w) && buffer@ == <Instr as Encode>::spec_enc(w)
                        + e && <Instr as Decode>::tail_stop(e);
                lemma_instr_head(w);
                assert((<Instr as Encode>::spec_enc(w) + e)[0] == instr_enc(w)[0]);
                assert(instr_op(w) == 0xFC);
                assert(buffer@.len() >= instr_enc(w).len());
                assert(false);
            }
        }
        return Err(DecodeError::Error);
    }
    let b1 = rest[0];
    let cur1 = vstd::slice::slice_subrange(rest, 1, rest.len());
    proof {
        assert(cur1@ =~= rest@.drop_first());
        assert(buffer@ =~= seq![b0, b1] + cur1@);
        assert(buffer@[1] == b1);
    }
    if b1 <= 7 {
        return instr_decode_fc_sat(buffer, b0, b1, cur1);
    }
    if b1 <= 17 {
        return instr_decode_fc_ops(buffer, b0, b1, cur1);
    }
    proof {
        if <Instr as Decode>::dec_ok(buffer@) {
            let (w, e) = choose|w: SpecInstr, e: Seq<u8>|
                <Instr as Encode>::spec_wf(w) && buffer@ == <Instr as Encode>::spec_enc(w)
                    + e && <Instr as Decode>::tail_stop(e);
            lemma_instr_head(w);
            assert((<Instr as Encode>::spec_enc(w) + e)[0] == instr_enc(w)[0]);
            assert(instr_op(w) == 0xFC);
            assert((<Instr as Encode>::spec_enc(w) + e)[1] == instr_enc(w)[1]);
            assert(instr_fc_sub(w) == b1);
            assert(false);
        }
    }
    Err(DecodeError::Error)
}

/// Decodes the block instruction group.
#[verifier::rlimit(100)]
fn instr_decode_block<'a>(buffer: &'a [u8], b0: u8, rest: &'a [u8]) -> (r: DecodeResult<
    'a,
    Instr,
>)
    requires
        buffer@.len() >= 1,
        b0 == buffer@[0],
        rest@ == buffer@.drop_first(),
        b0 == 0x02,
    ensures
        r matches Ok((v, rest)) ==> instr_wf(v.deep_view()) && buffer@ == instr_enc(v.deep_view())
            + rest@,
        r is Ok <==> <Instr as Decode>::dec_ok(buffer@),
    decreases buffer@.len(), 1int,
{
    proof {
        assert(buffer@ =~= seq![b0] + rest@);
    }
    match b0 {
        2u8 => {
            let c1 = rest;
            let (f1, cur2) = match <i32 as Decode>::decode(c1) {
                Ok(p) => p,
                Err(_) => {
                    proof {
                        if <Instr as Decode>::dec_ok(buffer@) {
                            lemma_err_instr_block_1_fail(buffer@, c1@);
                        }
                    }
                    return Err(DecodeError::Error);
                },
            };
            assert(buffer@ =~= seq![2u8] + <i32 as Encode>::spec_enc(f1.deep_view()) + cur2@);
            proof {
                assert(cur2@.len() < buffer@.len());
            }
            let (f2v, cur3) = instr_seq_decode(cur2);
            let f2 = Repeated(f2v);
            assert(buffer@ =~= seq![2u8] + <i32 as Encode>::spec_enc(f1.deep_view()) + instr_seq_enc(instr_vec_view(f2.0)) + cur3@);
            let (lit3, cur4) = match <u8 as Decode>::decode(cur3) {
                Ok(p) => p,
                Err(_) => {
                    proof {
                        if <Instr as Decode>::dec_ok(buffer@) {
                            lemma_err_instr_block_3_nobyte(buffer@, c1@, cur2@, f1.deep_view(), cur3@, instr_vec_view(f2.0));
                        }
                    }
                    return Err(DecodeError::Error);
                },
            };
            if lit3 != 11u8 {
                proof {
                    assert(cur3@[0] == lit3);
                }
                proof {
                    if <Instr as Decode>::dec_ok(buffer@) {
                        lemma_err_instr_block_3_mismatch(buffer@, c1@, cur2@, f1.deep_view(), cur3@, instr_vec_view(f2.0));
                    }
                }
                return Err(DecodeError::Error);
            }
            assert(buffer@ =~= seq![2u8] + <i32 as Encode>::spec_enc(f1.deep_view()) + instr_seq_enc(instr_vec_view(f2.0)) + seq![11u8] + cur4@);
            let result = Instr::Block(f1, f2);
            proof {
                assert(instr_enc(result.deep_view()) =~= seq![2u8] + <i32 as Encode>::spec_enc(f1.deep_view()) + instr_seq_enc(instr_vec_view(f2.0)) + seq![11u8]);
                assert(buffer@ =~= instr_enc(result.deep_view()) + cur4@);
                assert(<Instr as Decode>::dec_ok(buffer@)) by {
                    assert(<Instr as Encode>::spec_wf(result.deep_view()) && buffer@
                        == <Instr as Encode>::spec_enc(result.deep_view()) + cur4@
                        && <Instr as Decode>::tail_stop(cur4@));
                }
            }
            Ok((result, cur4))
        },
        _ => {
            proof {
                if <Instr as Decode>::dec_ok(buffer@) {
                    let (w, e) = choose|w: SpecInstr, e: Seq<u8>|
                        <Instr as Encode>::spec_wf(w) && buffer@ == <Instr as Encode>::spec_enc(w)
                            + e && <Instr as Decode>::tail_stop(e);
                    lemma_instr_head(w);
                    assert((<Instr as Encode>::spec_enc(w) + e)[0] == instr_enc(w)[0]);
                    assert(instr_op(w) == b0);
                    assert(false);
                }
            }
            Err(DecodeError::Error)
        },
    }
}

/// Decodes the loop_block instruction group.
#[verifier::rlimit(100)]
fn instr_decode_loop_block<'a>(buffer: &'a [u8], b0: u8, rest: &'a [u8]) -> (r: DecodeResult<
    'a,
    Instr,
>)
    requires
        buffer@.len() >= 1,
        b0 == buffer@[0],
        rest@ == buffer@.drop_first(),
        b0 == 0x03,
    ensures
        r matches Ok((v, rest)) ==> instr_wf(v.deep_view()) && buffer@ == instr_enc(v.deep_view())
            + rest@,
        r is Ok <==> <Instr as Decode>::dec_ok(buffer@),
    decreases buffer@.len(), 1int,
{
    proof {
        assert(buffer@ =~= seq![b0] + rest@);
    }
    match b0 {
        3u8 => {
            let c1 = rest;
            let (f1, cur2) = match <i32 as Decode>::decode(c1) {
                Ok(p) => p,
                Err(_) => {
                    proof {
                        if <Instr as Decode>::dec_ok(buffer@) {
                            lemma_err_instr_loop_1_fail(buffer@, c1@);
                        }
                    }
                    return Err(DecodeError::Error);
                },
            };
            assert(buffer@ =~= seq![3u8] + <i32 as Encode>::spec_enc(f1.deep_view()) + cur2@);
            proof {
                assert(cur2@.len() < buffer@.len());
            }
            let (f2v, cur3) = instr_seq_decode(cur2);
            let f2 = Repeated(f2v);
            assert(buffer@ =~= seq![3u8] + <i32 as Encode>::spec_enc(f1.deep_view()) + instr_seq_enc(instr_vec_view(f2.0)) + cur3@);
            let (lit3, cur4) = match <u8 as Decode>::decode(cur3) {
                Ok(p) => p,
                Err(_) => {
                    proof {
                        if <Instr as Decode>::dec_ok(buffer@) {
                            lemma_err_instr_loop_3_nobyte(buffer@, c1@, cur2@, f1.deep_view(), cur3@, instr_vec_view(f2.0));
                        }
                    }
                    return Err(DecodeError::Error);
                },
            };
            if lit3 != 11u8 {
                proof {
                    assert(cur3@[0] == lit3);
                }
                proof {
                    if <Instr as Decode>::dec_ok(buffer@) {
                        lemma_err_instr_loop_3_mismatch(buffer@, c1@, cur2@, f1.deep_view(), cur3@, instr_vec_view(f2.0));
                    }
                }
                return Err(DecodeError::Error);
            }
            assert(buffer@ =~= seq![3u8] + <i32 as Encode>::spec_enc(f1.deep_view()) + instr_seq_enc(instr_vec_view(f2.0)) + seq![11u8] + cur4@);
            let result = Instr::Loop(f1, f2);
            proof {
                assert(instr_enc(result.deep_view()) =~= seq![3u8] + <i32 as Encode>::spec_enc(f1.deep_view()) + instr_seq_enc(instr_vec_view(f2.0)) + seq![11u8]);
                assert(buffer@ =~= instr_enc(result.deep_view()) + cur4@);
                assert(<Instr as Decode>::dec_ok(buffer@)) by {
                    assert(<Instr as Encode>::spec_wf(result.deep_view()) && buffer@
                        == <Instr as Encode>::spec_enc(result.deep_view()) + cur4@
                        && <Instr as Decode>::tail_stop(cur4@));
                }
            }
            Ok((result, cur4))
        },
        _ => {
            proof {
                if <Instr as Decode>::dec_ok(buffer@) {
                    let (w, e) = choose|w: SpecInstr, e: Seq<u8>|
                        <Instr as Encode>::spec_wf(w) && buffer@ == <Instr as Encode>::spec_enc(w)
                            + e && <Instr as Decode>::tail_stop(e);
                    lemma_instr_head(w);
                    assert((<Instr as Encode>::spec_enc(w) + e)[0] == instr_enc(w)[0]);
                    assert(instr_op(w) == b0);
                    assert(false);
                }
            }
            Err(DecodeError::Error)
        },
    }
}

/// Decodes the if_block instruction group.
#[verifier::rlimit(100)]
fn instr_decode_if_block<'a>(buffer: &'a [u8], b0: u8, rest: &'a [u8]) -> (r: DecodeResult<
    'a,
    Instr,
>)
    requires
        buffer@.len() >= 1,
        b0 == buffer@[0],
        rest@ == buffer@.drop_first(),
        b0 == 0x04,
    ensures
        r matches Ok((v, rest)) ==> instr_wf(v.deep_view()) && buffer@ == instr_enc(v.deep_view())
            + rest@,
        r is Ok <==> <Instr as Decode>::dec_ok(buffer@),
    decreases buffer@.len(), 1int,
{
    proof {
        assert(buffer@ =~= seq![b0] + rest@);
    }
    match b0 {
        4u8 => {
            let c1 = rest;
            let (f1, cur2) = match <i32 as Decode>::decode(c1) {
                Ok(p) => p,
                Err(_) => {
                    proof {
                        if <Instr as Decode>::dec_ok(buffer@) {
                            lemma_err_instr_if_1_fail(buffer@, c1@);
                        }
                    }
                    return Err(DecodeError::Error);
                },
            };
            assert(buffer@ =~= seq![4u8] + <i32 as Encode>::spec_enc(f1.deep_view()) + cur2@);
            proof {
                assert(cur2@.len() < buffer@.len());
            }
            let (f2v, cur3) = instr_seq_decode(cur2);
            let f2 = Repeated(f2v);
            assert(buffer@ =~= seq![4u8] + <i32 as Encode>::spec_enc(f1.deep_view()) + instr_seq_enc(instr_vec_view(f2.0)) + cur3@);
            proof {
                assert(cur3@.len() < buffer@.len());
            }
            let (f3, cur4) = match else_decode(cur3) {
                Ok(p) => p,
                Err(_) => {
                    proof {
                        if <Instr as Decode>::dec_ok(buffer@) {
                            lemma_err_instr_if_3_fail(buffer@, c1@, cur2@, f1.deep_view(), cur3@, instr_vec_view(f2.0));
                        }
                    }
                    return Err(DecodeError::Error);
                },
            };
            assert(buffer@ =~= seq![4u8] + <i32 as Encode>::spec_enc(f1.deep_view()) + instr_seq_enc(instr_vec_view(f2.0)) + else_enc(f3.deep_view()) + cur4@);
            let result = Instr::If(f1, f2, f3);
            proof {
                assert(instr_enc(result.deep_view()) =~= seq![4u8] + <i32 as Encode>::spec_enc(f1.deep_view()) + instr_seq_enc(instr_vec_view(f2.0)) + else_enc(f3.deep_view()));
                assert(buffer@ =~= instr_enc(result.deep_view()) + cur4@);
                assert(<Instr as Decode>::dec_ok(buffer@)) by {
                    assert(<Instr as Encode>::spec_wf(result.deep_view()) && buffer@
                        == <Instr as Encode>::spec_enc(result.deep_view()) + cur4@
                        && <Instr as Decode>::tail_stop(cur4@));
                }
            }
            Ok((result, cur4))
        },
        _ => {
            proof {
                if <Instr as Decode>::dec_ok(buffer@) {
                    let (w, e) = choose|w: SpecInstr, e: Seq<u8>|
                        <Instr as Encode>::spec_wf(w) && buffer@ == <Instr as Encode>::spec_enc(w)
                            + e && <Instr as Decode>::tail_stop(e);
                    lemma_instr_head(w);
                    assert((<Instr as Encode>::spec_enc(w) + e)[0] == instr_enc(w)[0]);
                    assert(instr_op(w) == b0);
                    assert(false);
                }
            }
            Err(DecodeError::Error)
        },
    }
}

/// Decodes the control instruction group.
#[verifier::rlimit(100)]
fn instr_decode_control<'a>(buffer: &'a [u8], b0: u8, rest: &'a [u8]) -> (r: DecodeResult<
    'a,
    Instr,
>)
    requires
        buffer@.len() >= 1,
        b0 == buffer@[0],
        rest@ == buffer@.drop_first(),
        b0 < 0x20,
        !(0x02 <= b0 <= 0x04),
    ensures
        r matches Ok((v, rest)) ==> instr_wf(v.deep_view()) && buffer@ == instr_enc(v.deep_view())
            + rest@,
        r is Ok <==> <Instr as Decode>::dec_ok(buffer@),
    decreases buffer@.len(), 1int,
{
    proof {
        assert(buffer@ =~= seq![b0] + rest@);
    }
    match b0 {
        0u8 => {
            let c1 = rest;
            let result = Instr::Unreachable;
            proof {
                assert(instr_enc(result.deep_view()) =~= seq![0u8]);
                assert(buffer@ =~= instr_enc(result.deep_view()) + c1@);
                assert(<Instr as Decode>::dec_ok(buffer@)) by {
                    assert(<Instr as Encode>::spec_wf(result.deep_view()) && buffer@
                        == <Instr as Encode>::spec_enc(result.deep_view()) + c1@
                        && <Instr as Decode>::tail_stop(c1@));
                }
            }
            Ok((result, c1))
        },
        1u8 => {
            let c1 = rest;
            let result = Instr::Nop;
            proof {
                assert(instr_enc(result.deep_view()) =~= seq![1u8]);
                assert(buffer@ =~= instr_enc(result.deep_view()) + c1@);
                assert(<Instr as Decode>::dec_ok(buffer@)) by {
                    assert(<Instr as Encode>::spec_wf(result.deep_view()) && buffer@
                        == <Instr as Encode>::spec_enc(result.deep_view()) + c1@
                        && <Instr as Decode>::tail_stop(c1@));
                }
            }
            Ok((result, c1))
        },
        12u8 => {
            let c1 = rest;
            let (f1, cur2) = match <LabelIdx as Decode>::decode(c1) {
                Ok(p) => p,
                Err(_) => {
                    proof {
                        if <Instr as Decode>::dec_ok(buffer@) {
                            lemma_err_instr_br_1_fail(buffer@, c1@);
                        }
                    }
                    return Err(DecodeError::Error);
                },
            };
            assert(buffer@ =~= seq![12u8] + <LabelIdx as Encode>::spec_enc(f1.deep_view()) + cur2@);
            let result = Instr::Br(f1);
            proof {
                assert(instr_enc(result.deep_view()) =~= seq![12u8] + <LabelIdx as Encode>::spec_enc(f1.deep_view()));
                assert(buffer@ =~= instr_enc(result.deep_view()) + cur2@);
                assert(<Instr as Decode>::dec_ok(buffer@)) by {
                    assert(<Instr as Encode>::spec_wf(result.deep_view()) && buffer@
                        == <Instr as Encode>::spec_enc(result.deep_view()) + cur2@
                        && <Instr as Decode>::tail_stop(cur2@));
                }
            }
            Ok((result, cur2))
        },
        13u8 => {
            let c1 = rest;
            let (f1, cur2) = match <LabelIdx as Decode>::decode(c1) {
                Ok(p) => p,
                Err(_) => {
                    proof {
                        if <Instr as Decode>::dec_ok(buffer@) {
                            lemma_err_instr_brif_1_fail(buffer@, c1@);
                        }
                    }
                    return Err(DecodeError::Error);
                },
            };
            assert(buffer@ =~= seq![13u8] + <LabelIdx as Encode>::spec_enc(f1.deep_view()) + cur2@);
            let result = Instr::BrIf(f1);
            proof {
                assert(instr_enc(result.deep_view()) =~= seq![13u8] + <LabelIdx as Encode>::spec_enc(f1.deep_view()));
                assert(buffer@ =~= instr_enc(result.deep_view()) + cur2@);
                assert(<Instr as Decode>::dec_ok(buffer@)) by {
                    assert(<Instr as Encode>::spec_wf(result.deep_view()) && buffer@
                        == <Instr as Encode>::spec_enc(result.deep_view()) + cur2@
                        && <Instr as Decode>::tail_stop(cur2@));
                }
            }
            Ok((result, cur2))
        },
        14u8 => {
            let c1 = rest;
            let (f1, cur2) = match <Vec<LabelIdx> as Decode>::decode(c1) {
                Ok(p) => p,
                Err(_) => {
                    proof {
                        if <Instr as Decode>::dec_ok(buffer@) {
                            lemma_err_instr_brtable_1_fail(buffer@, c1@);
                        }
                    }
                    return Err(DecodeError::Error);
                },
            };
            assert(buffer@ =~= seq![14u8] + <Vec<LabelIdx> as Encode>::spec_enc(f1.deep_view()) + cur2@);
            let (f2, cur3) = match <LabelIdx as Decode>::decode(cur2) {
                Ok(p) => p,
                Err(_) => {
                    proof {
                        if <Instr as Decode>::dec_ok(buffer@) {
                            lemma_err_instr_brtable_2_fail(buffer@, c1@, cur2@, f1.deep_view());
                        }
                    }
                    return Err(DecodeError::Error);
                },
            };
            assert(buffer@ =~= seq![14u8] + <Vec<LabelIdx> as Encode>::spec_enc(f1.deep_view()) + <LabelIdx as Encode>::spec_enc(f2.deep_view()) + cur3@);
            let result = Instr::BrTable(f1, f2);
            proof {
                assert(instr_enc(result.deep_view()) =~= seq![14u8] + <Vec<LabelIdx> as Encode>::spec_enc(f1.deep_view()) + <LabelIdx as Encode>::spec_enc(f2.deep_view()));
                assert(buffer@ =~= instr_enc(result.deep_view()) + cur3@);
                assert(<Instr as Decode>::dec_ok(buffer@)) by {
                    assert(<Instr as Encode>::spec_wf(result.deep_view()) && buffer@
                        == <Instr as Encode>::spec_enc(result.deep_view()) + cur3@
                        && <Instr as Decode>::tail_stop(cur3@));
                }
            }
            Ok((result, cur3))
        },
        15u8 => {
            let c1 = rest;
            let result = Instr::Return;
            proof {
                assert(instr_enc(result.deep_view()) =~= seq![15u8]);
                assert(buffer@ =~= instr_enc(result.deep_view()) + c1@);
                assert(<Instr as Decode>::dec_ok(buffer@)) by {
                    assert(<Instr as Encode>::spec_wf(result.deep_view()) && buffer@
                        == <Instr as Encode>::spec_enc(result.deep_view()) + c1@
                        && <Instr as Decode>::tail_stop(c1@));
                }
            }
            Ok((result, c1))
        },
        16u8 => {
            let c1 = rest;
            let (f1, cur2) = match <FuncIdx as Decode>::decode(c1) {
                Ok(p) => p,
                Err(_) => {
                    proof {
                        if <Instr as Decode>::dec_ok(buffer@) {
                            lemma_err_instr_call_1_fail(buffer@, c1@);
                        }
                    }
                    return Err(DecodeError::Error);
                },
            };
            assert(buffer@ =~= seq![16u8] + <FuncIdx as Encode>::spec_enc(f1.deep_view()) + cur2@);
            let result = Instr::Call(f1);
            proof {
                assert(instr_enc(result.deep_view()) =~= seq![16u8] + <FuncIdx as Encode>::spec_enc(f1.deep_view()));
                assert(buffer@ =~= instr_enc(result.deep_view()) + cur2@);
                assert(<Instr as Decode>::dec_ok(buffer@)) by {
                    assert(<Instr as Encode>::spec_wf(result.deep_view()) && buffer@
                        == <Instr as Encode>::spec_enc(result.deep_view()) + cur2@
                        && <Instr as Decode>::tail_stop(cur2@));
                }
            }
            Ok((result, cur2))
        },
        17u8 => {
            let c1 = rest;
            let (f1, cur2) = match <TypeIdx as Decode>::decode(c1) {
                Ok(p) => p,
                Err(_) => {
                    proof {
                        if <Instr as Decode>::dec_ok(buffer@) {
                            lemma_err_instr_callindirect_1_fail(buffer@, c1@);
                        }
                    }
                    return Err(DecodeError::Error);
                },
            };
            assert(buffer@ =~= seq![17u8] + <TypeIdx as Encode>::spec_enc(f1.deep_view()) + cur2@);
            let (f2, cur3) = match <TableIdx as Decode>::decode(cur2) {
                Ok(p) => p,
                Err(_) => {
                    proof {
                        if <Instr as Decode>::dec_ok(buffer@) {
                            lemma_err_instr_callindirect_2_fail(buffer@, c1@, cur2@, f1.deep_view());
                        }
                    }
                    return Err(DecodeError::Error);
                },
            };
            assert(buffer@ =~= seq![17u8] + <TypeIdx as Encode>::spec_enc(f1.deep_view()) + <TableIdx as Encode>::spec_enc(f2.deep_view()) + cur3@);
            let result = Instr::CallIndirect(f1, f2);
            proof {
                assert(instr_enc(result.deep_view()) =~= seq![17u8] + <TypeIdx as Encode>::spec_enc(f1.deep_view()) + <TableIdx as Encode>::spec_enc(f2.deep_view()));
                assert(buffer@ =~= instr_enc(result.deep_view()) + cur3@);
                assert(<Instr as Decode>::dec_ok(buffer@)) by {
                    assert(<Instr as Encode>::spec_wf(result.deep_view()) && buffer@
                        == <Instr as Encode>::spec_enc(result.deep_view()) + cur3@
                        && <Instr as Decode>::tail_stop(cur3@));
                }
            }
            Ok((result, cur3))
        },
        26u8 => {
            let c1 = rest;
            let result = Instr::Drop;
            proof {
                assert(instr_enc(result.deep_view()) =~= seq![26u8]);
                assert(buffer@ =~= instr_enc(result.deep_view()) + c1@);
                assert(<Instr as Decode>::dec_ok(buffer@)) by {
                    assert(<Instr as Encode>::spec_wf(result.deep_view()) && buffer@
                        == <Instr as Encode>::spec_enc(result.deep_view()) + c1@
                        && <Instr as Decode>::tail_stop(c1@));
                }
            }
            Ok((result, c1))
        },
        27u8 => {
            let c1 = rest;
            let result = Instr::Select;
            proof {
                assert(instr_enc(result.deep_view()) =~= seq![27u8]);
                assert(buffer@ =~= instr_enc(result.deep_view()) + c1@);
                assert(<Instr as Decode>::dec_ok(buffer@)) by {
                    assert(<Instr as Encode>::spec_wf(result.deep_view()) && buffer@
                        == <Instr as Encode>::spec_enc(result.deep_view()) + c1@
                        && <Instr as Decode>::tail_stop(c1@));
                }
            }
            Ok((result, c1))
        },
        28u8 => {
            let c1 = rest;
            let (f1, cur2) = match <Vec<ValType> as Decode>::decode(c1) {
                Ok(p) => p,
                Err(_) => {
                    proof {
                        if <Instr as Decode>::dec_ok(buffer@) {
                            lemma_err_instr_selecttys_1_fail(buffer@, c1@);
                        }
                    }
                    return Err(DecodeError::Error);
                },
            };
            assert(buffer@ =~= seq![28u8] + <Vec<ValType> as Encode>::spec_enc(f1.deep_view()) + cur2@);
            let result = Instr::SelectTys(f1);
            proof {
                assert(instr_enc(result.deep_view()) =~= seq![28u8] + <Vec<ValType> as Encode>::spec_enc(f1.deep_view()));
                assert(buffer@ =~= instr_enc(result.deep_view()) + cur2@);
                assert(<Instr as Decode>::dec_ok(buffer@)) by {
                    assert(<Instr as Encode>::spec_wf(result.deep_view()) && buffer@
                        == <Instr as Encode>::spec_enc(result.deep_view()) + cur2@
                        && <Instr as Decode>::tail_stop(cur2@));
                }
            }
            Ok((result, cur2))
        },
        _ => {
            proof {
                if <Instr as Decode>::dec_ok(buffer@) {
                    let (w, e) = choose|w: SpecInstr, e: Seq<u8>|
                        <Instr as Encode>::spec_wf(w) && buffer@ == <Instr as Encode>::spec_enc(w)
                            + e && <Instr as Decode>::tail_stop(e);
                    lemma_instr_head(w);
                    assert((<Instr as Encode>::spec_enc(w) + e)[0] == instr_enc(w)[0]);
                    assert(instr_op(w) == b0);
                    assert(false);
                }
            }
            Err(DecodeError::Error)
        },
    }
}

/// Decodes the variable instruction group.
#[verifier::rlimit(100)]
fn instr_decode_variable<'a>(buffer: &'a [u8], b0: u8, rest: &'a [u8]) -> (r: DecodeResult<
    'a,
    Instr,
>)
    requires
        buffer@.len() >= 1,
        b0 == buffer@[0],
        rest@ == buffer@.drop_first(),
        0x20 <= b0 < 0x41,
        !(0x28 <= b0 <= 0x3E),
    ensures
        r matches Ok((v, rest)) ==> instr_wf(v.deep_view()) && buffer@ == instr_enc(v.deep_view())
            + rest@,
        r is Ok <==> <Instr as Decode>::dec_ok(buffer@),
    decreases buffer@.len(), 1int,
{
    proof {
        assert(buffer@ =~= seq![b0] + rest@);
    }
    match b0 {
        32u8 => {
            let c1 = rest;
            let (f1, cur2) = match <LocalIdx as Decode>::decode(c1) {
                Ok(p) => p,
                Err(_) => {
                    proof {
                        if <Instr as Decode>::dec_ok(buffer@) {
                            lemma_err_instr_localget_1_fail(buffer@, c1@);
                        }
                    }
                    return Err(DecodeError::Error);
                },
            };
            assert(buffer@ =~= seq![32u8] + <LocalIdx as Encode>::spec_enc(f1.deep_view()) + cur2@);
            let result = Instr::LocalGet(f1);
            proof {
                assert(instr_enc(result.deep_view()) =~= seq![32u8] + <LocalIdx as Encode>::spec_enc(f1.deep_view()));
                assert(buffer@ =~= instr_enc(result.deep_view()) + cur2@);
                assert(<Instr as Decode>::dec_ok(buffer@)) by {
                    assert(<Instr as Encode>::spec_wf(result.deep_view()) && buffer@
                        == <Instr as Encode>::spec_enc(result.deep_view()) + cur2@
                        && <Instr as Decode>::tail_stop(cur2@));
                }
            }
            Ok((result, cur2))
        },
        33u8 => {
            let c1 = rest;
            let (f1, cur2) = match <LocalIdx as Decode>::decode(c1) {
                Ok(p) => p,
                Err(_) => {
                    proof {
                        if <Instr as Decode>::dec_ok(buffer@) {
                            lemma_err_instr_localset_1_fail(buffer@, c1@);
                        }
                    }
                    return Err(DecodeError::Error);
                },
            };
            assert(buffer@ =~= seq![33u8] + <LocalIdx as Encode>::spec_enc(f1.deep_view()) + cur2@);
            let result = Instr::LocalSet(f1);
            proof {
                assert(instr_enc(result.deep_view()) =~= seq![33u8] + <LocalIdx as Encode>::spec_enc(f1.deep_view()));
                assert(buffer@ =~= instr_enc(result.deep_view()) + cur2@);
                assert(<Instr as Decode>::dec_ok(buffer@)) by {
                    assert(<Instr as Encode>::spec_wf(result.deep_view()) && buffer@
                        == <Instr as Encode>::spec_enc(result.deep_view()) + cur2@
                        && <Instr as Decode>::tail_stop(cur2@));
                }
            }
            Ok((result, cur2))
        },
        34u8 => {
            let c1 = rest;
            let (f1, cur2) = match <LocalIdx as Decode>::decode(c1) {
                Ok(p) => p,
                Err(_) => {
                    proof {
                        if <Instr as Decode>::dec_ok(buffer@) {
                            lemma_err_instr_localtee_1_fail(buffer@, c1@);
                        }
                    }
                    return Err(DecodeError::Error);
                },
            };
            assert(buffer@ =~= seq![34u8] + <LocalIdx as Encode>::spec_enc(f1.deep_view()) + cur2@);
            let result = Instr::LocalTee(f1);
            proof {
                assert(instr_enc(result.deep_view()) =~= seq![34u8] + <LocalIdx as Encode>::spec_enc(f1.deep_view()));
                assert(buffer@ =~= instr_enc(result.deep_view()) + cur2@);
                assert(<Instr as Decode>::dec_ok(buffer@)) by {
                    assert(<Instr as Encode>::spec_wf(result.deep_view()) && buffer@
                        == <Instr as Encode>::spec_enc(result.deep_view()) + cur2@
                        && <Instr as Decode>::tail_stop(cur2@));
                }
            }
            Ok((result, cur2))
        },
        35u8 => {
            let c1 = rest;
            let (f1, cur2) = match <GlobalIdx as Decode>::decode(c1) {
                Ok(p) => p,
                Err(_) => {
                    proof {
                        if <Instr as Decode>::dec_ok(buffer@) {
                            lemma_err_instr_globalget_1_fail(buffer@, c1@);
                        }
                    }
                    return Err(DecodeError::Error);
                },
            };
            assert(buffer@ =~= seq![35u8] + <GlobalIdx as Encode>::spec_enc(f1.deep_view()) + cur2@);
            let result = Instr::GlobalGet(f1);
            proof {
                assert(instr_enc(result.deep_view()) =~= seq![35u8] + <GlobalIdx as Encode>::spec_enc(f1.deep_view()));
                assert(buffer@ =~= instr_enc(result.deep_view()) + cur2@);
                assert(<Instr as Decode>::dec_ok(buffer@)) by {
                    assert(<Instr as Encode>::spec_wf(result.deep_view()) && buffer@
                        == <Instr as Encode>::spec_enc(result.deep_view()) + cur2@
                        && <Instr as Decode>::tail_stop(cur2@));
                }
            }
            Ok((result, cur2))
        },
        36u8 => {
            let c1 = rest;
            let (f1, cur2) = match <GlobalIdx as Decode>::decode(c1) {
                Ok(p) => p,
                Err(_) => {
                    proof {
                        if <Instr as Decode>::dec_ok(buffer@) {
                            lemma_err_instr_globalset_1_fail(buffer@, c1@);
                        }
                    }
                    return Err(DecodeError::Error);
                },
            };
            assert(buffer@ =~= seq![36u8] + <GlobalIdx as Encode>::spec_enc(f1.deep_view()) + cur2@);
            let result = Instr::GlobalSet(f1);
            proof {
                assert(instr_enc(result.deep_view()) =~= seq![36u8] + <GlobalIdx as Encode>::spec_enc(f1.deep_view()));
                assert(buffer@ =~= instr_enc(result.deep_view()) + cur2@);
                assert(<Instr as Decode>::dec_ok(buffer@)) by {
                    assert(<Instr as Encode>::spec_wf(result.deep_view()) && buffer@
                        == <Instr as Encode>::spec_enc(result.deep_view()) + cur2@
                        && <Instr as Decode>::tail_stop(cur2@));
                }
            }
            Ok((result, cur2))
        },
        37u8 => {
            let c1 = rest;
            let (f1, cur2) = match <TableIdx as Decode>::decode(c1) {
                Ok(p) => p,
                Err(_) => {
                    proof {
                        if <Instr as Decode>::dec_ok(buffer@) {
                            lemma_err_instr_tableget_1_fail(buffer@, c1@);
                        }
                    }
                    return Err(DecodeError::Error);
                },
            };
            assert(buffer@ =~= seq![37u8] + <TableIdx as Encode>::spec_enc(f1.deep_view()) + cur2@);
            let result = Instr::TableGet(f1);
            proof {
                assert(instr_enc(result.deep_view()) =~= seq![37u8] + <TableIdx as Encode>::spec_enc(f1.deep_view()));
                assert(buffer@ =~= instr_enc(result.deep_view()) + cur2@);
                assert(<Instr as Decode>::dec_ok(buffer@)) by {
                    assert(<Instr as Encode>::spec_wf(result.deep_view()) && buffer@
                        == <Instr as Encode>::spec_enc(result.deep_view()) + cur2@
                        && <Instr as Decode>::tail_stop(cur2@));
                }
            }
            Ok((result, cur2))
        },
        38u8 => {
            let c1 = rest;
            let (f1, cur2) = match <TableIdx as Decode>::decode(c1) {
                Ok(p) => p,
                Err(_) => {
                    proof {
                        if <Instr as Decode>::dec_ok(buffer@) {
                            lemma_err_instr_tableset_1_fail(buffer@, c1@);
                        }
                    }
                    return Err(DecodeError::Error);
                },
            };
            assert(buffer@ =~= seq![38u8] + <TableIdx as Encode>::spec_enc(f1.deep_view()) + cur2@);
            let result = Instr::TableSet(f1);
            proof {
                assert(instr_enc(result.deep_view()) =~= seq![38u8] + <TableIdx as Encode>::spec_enc(f1.deep_view()));
                assert(buffer@ =~= instr_enc(result.deep_view()) + cur2@);
                assert(<Instr as Decode>::dec_ok(buffer@)) by {
                    assert(<Instr as Encode>::spec_wf(result.deep_view()) && buffer@
                        == <Instr as Encode>::spec_enc(result.deep_view()) + cur2@
                        && <Instr as Decode>::tail_stop(cur2@));
                }
            }
            Ok((result, cur2))
        },
        63u8 => {
            let c1 = rest;
            let (lit1, cur2) = match <u8 as Decode>::decode(c1) {
                Ok(p) => p,
                Err(_) => {
                    proof {
                        if <Instr as Decode>::dec_ok(buffer@) {
                            lemma_err_instr_memorysize_1_nobyte(buffer@, c1@);
                        }
                    }
                    return Err(DecodeError::Error);
                },
            };
            if lit1 != 0u8 {
                proof {
                    assert(c1@[0] == lit1);
                }
                proof {
                    if <Instr as Decode>::dec_ok(buffer@) {
                        lemma_err_instr_memorysize_1_mismatch(buffer@, c1@);
                    }
                }
                return Err(DecodeError::Error);
            }
            assert(buffer@ =~= seq![63u8] + seq![0u8] + cur2@);
            let result = Instr::MemorySize;
            proof {
                assert(instr_enc(result.deep_view()) =~= seq![63u8] + seq![0u8]);
                assert(buffer@ =~= instr_enc(result.deep_view()) + cur2@);
                assert(<Instr as Decode>::dec_ok(buffer@)) by {
                    assert(<Instr as Encode>::spec_wf(result.deep_view()) && buffer@
                        == <Instr as Encode>::spec_enc(result.deep_view()) + cur2@
                        && <Instr as Decode>::tail_stop(cur2@));
                }
            }
            Ok((result, cur2))
        },
        64u8 => {
            let c1 = rest;
            let (lit1, cur2) = match <u8 as Decode>::decode(c1) {
                Ok(p) => p,
                Err(_) => {
                    proof {
                        if <Instr as Decode>::dec_ok(buffer@) {
                            lemma_err_instr_memorygrow_1_nobyte(buffer@, c1@);
                        }
                    }
                    return Err(DecodeError::Error);
                },
            };
            if lit1 != 0u8 {
                proof {
                    assert(c1@[0] == lit1);
                }
                proof {
                    if <Instr as Decode>::dec_ok(buffer@) {
                        lemma_err_instr_memorygrow_1_mismatch(buffer@, c1@);
                    }
                }
                return Err(DecodeError::Error);
            }
            assert(buffer@ =~= seq![64u8] + seq![0u8] + cur2@);
            let result = Instr::MemoryGrow;
            proof {
                assert(instr_enc(result.deep_view()) =~= seq![64u8] + seq![0u8]);
                assert(buffer@ =~= instr_enc(result.deep_view()) + cur2@);
                assert(<Instr as Decode>::dec_ok(buffer@)) by {
                    assert(<Instr as Encode>::spec_wf(result.deep_view()) && buffer@
                        == <Instr as Encode>::spec_enc(result.deep_view()) + cur2@
                        && <Instr as Decode>::tail_stop(cur2@));
                }
            }
            Ok((result, cur2))
        },
        _ => {
            proof {
                if <Instr as Decode>::dec_ok(buffer@) {
                    let (w, e) = choose|w: SpecInstr, e: Seq<u8>|
                        <Instr as Encode>::spec_wf(w) && buffer@ == <Instr as Encode>::spec_enc(w)
                            + e && <Instr as Decode>::tail_stop(e);
                    lemma_instr_head(w);
                    assert((<Instr as Encode>::spec_enc(w) + e)[0] == instr_enc(w)[0]);
                    assert(instr_op(w) == b0);
                    assert(false);
                }
            }
            Err(DecodeError::Error)
        },
    }
}

/// Decodes the consts instruction group.
#[verifier::rlimit(100)]
fn instr_decode_consts<'a>(buffer: &'a [u8], b0: u8, rest: &'a [u8]) -> (r: DecodeResult<
    'a,
    Instr,
>)
    requires
        buffer@.len() >= 1,
        b0 == buffer@[0],
        rest@ == buffer@.drop_first(),
        b0 >= 0x41,
        !(0x45 <= b0 <= 0xC4),
        b0 != 0xFC,
    ensures
        r matches Ok((v, rest)) ==> instr_wf(v.deep_view()) && buffer@ == instr_enc(v.deep_view())
            + rest@,
        r is Ok <==> <Instr as Decode>::dec_ok(buffer@),
    decreases buffer@.len(), 1int,
{
    proof {
        assert(buffer@ =~= seq![b0] + rest@);
    }
    match b0 {
        208u8 => {
            let c1 = rest;
            let (f1, cur2) = match <RefType as Decode>::decode(c1) {
                Ok(p) => p,
                Err(_) => {
                    proof {
                        if <Instr as Decode>::dec_ok(buffer@) {
                            lemma_err_instr_refnull_1_fail(buffer@, c1@);
                        }
                    }
                    return Err(DecodeError::Error);
                },
            };
            assert(buffer@ =~= seq![208u8] + <RefType as Encode>::spec_enc(f1.deep_view()) + cur2@);
            let result = Instr::RefNull(f1);
            proof {
                assert(instr_enc(result.deep_view()) =~= seq![208u8] + <RefType as Encode>::spec_enc(f1.deep_view()));
                assert(buffer@ =~= instr_enc(result.deep_view()) + cur2@);
                assert(<Instr as Decode>::dec_ok(buffer@)) by {
                    assert(<Instr as Encode>::spec_wf(result.deep_view()) && buffer@
                        == <Instr as Encode>::spec_enc(result.deep_view()) + cur2@
                        && <Instr as Decode>::tail_stop(cur2@));
                }
            }
            Ok((result, cur2))
        },
        209u8 => {
            let c1 = rest;
            let result = Instr::RefIsNull;
            proof {
                assert(instr_enc(result.deep_view()) =~= seq![209u8]);
                assert(buffer@ =~= instr_enc(result.deep_view()) + c1@);
                assert(<Instr as Decode>::dec_ok(buffer@)) by {
                    assert(<Instr as Encode>::spec_wf(result.deep_view()) && buffer@
                        == <Instr as Encode>::spec_enc(result.deep_view()) + c1@
                        && <Instr as Decode>::tail_stop(c1@));
                }
            }
            Ok((result, c1))
        },
        210u8 => {
            let c1 = rest;
            let (f1, cur2) = match <FuncIdx as Decode>::decode(c1) {
                Ok(p) => p,
                Err(_) => {
                    proof {
                        if <Instr as Decode>::dec_ok(buffer@) {
                            lemma_err_instr_reffunc_1_fail(buffer@, c1@);
                        }
                    }
                    return Err(DecodeError::Error);
                },
            };
            assert(buffer@ =~= seq![210u8] + <FuncIdx as Encode>::spec_enc(f1.deep_view()) + cur2@);
            let result = Instr::RefFunc(f1);
            proof {
                assert(instr_enc(result.deep_view()) =~= seq![210u8] + <FuncIdx as Encode>::spec_enc(f1.deep_view()));
                assert(buffer@ =~= instr_enc(result.deep_view()) + cur2@);
                assert(<Instr as Decode>::dec_ok(buffer@)) by {
                    assert(<Instr as Encode>::spec_wf(result.deep_view()) && buffer@
                        == <Instr as Encode>::spec_enc(result.deep_view()) + cur2@
                        && <Instr as Decode>::tail_stop(cur2@));
                }
            }
            Ok((result, cur2))
        },
        65u8 => {
            let c1 = rest;
            let (f1, cur2) = match <i32 as Decode>::decode(c1) {
                Ok(p) => p,
                Err(_) => {
                    proof {
                        if <Instr as Decode>::dec_ok(buffer@) {
                            lemma_err_instr_i32const_1_fail(buffer@, c1@);
                        }
                    }
                    return Err(DecodeError::Error);
                },
            };
            assert(buffer@ =~= seq![65u8] + <i32 as Encode>::spec_enc(f1.deep_view()) + cur2@);
            let result = Instr::I32Const(f1);
            proof {
                assert(instr_enc(result.deep_view()) =~= seq![65u8] + <i32 as Encode>::spec_enc(f1.deep_view()));
                assert(buffer@ =~= instr_enc(result.deep_view()) + cur2@);
                assert(<Instr as Decode>::dec_ok(buffer@)) by {
                    assert(<Instr as Encode>::spec_wf(result.deep_view()) && buffer@
                        == <Instr as Encode>::spec_enc(result.deep_view()) + cur2@
                        && <Instr as Decode>::tail_stop(cur2@));
                }
            }
            Ok((result, cur2))
        },
        66u8 => {
            let c1 = rest;
            let (f1, cur2) = match <i64 as Decode>::decode(c1) {
                Ok(p) => p,
                Err(_) => {
                    proof {
                        if <Instr as Decode>::dec_ok(buffer@) {
                            lemma_err_instr_i64const_1_fail(buffer@, c1@);
                        }
                    }
                    return Err(DecodeError::Error);
                },
            };
            assert(buffer@ =~= seq![66u8] + <i64 as Encode>::spec_enc(f1.deep_view()) + cur2@);
            let result = Instr::I64Const(f1);
            proof {
                assert(instr_enc(result.deep_view()) =~= seq![66u8] + <i64 as Encode>::spec_enc(f1.deep_view()));
                assert(buffer@ =~= instr_enc(result.deep_view()) + cur2@);
                assert(<Instr as Decode>::dec_ok(buffer@)) by {
                    assert(<Instr as Encode>::spec_wf(result.deep_view()) && buffer@
                        == <Instr as Encode>::spec_enc(result.deep_view()) + cur2@
                        && <Instr as Decode>::tail_stop(cur2@));
                }
            }
            Ok((result, cur2))
        },
        67u8 => {
            let c1 = rest;
            let (f1, cur2) = match <F32Bits as Decode>::decode(c1) {
                Ok(p) => p,
                Err(_) => {
                    proof {
                        if <Instr as Decode>::dec_ok(buffer@) {
                            lemma_err_instr_f32const_1_fail(buffer@, c1@);
                        }
                    }
                    return Err(DecodeError::Error);
                },
            };
            assert(buffer@ =~= seq![67u8] + <F32Bits as Encode>::spec_enc(f1.deep_view()) + cur2@);
            let result = Instr::F32Const(f1);
            proof {
                assert(instr_enc(result.deep_view()) =~= seq![67u8] + <F32Bits as Encode>::spec_enc(f1.deep_view()));
                assert(buffer@ =~= instr_enc(result.deep_view()) + cur2@);
                assert(<Instr as Decode>::dec_ok(buffer@)) by {
                    assert(<Instr as Encode>::spec_wf(result.deep_view()) && buffer@
                        == <Instr as Encode>::spec_enc(result.deep_view()) + cur2@
                        && <Instr as Decode>::tail_stop(cur2@));
                }
            }
            Ok((result, cur2))
        },
        68u8 => {
            let c1 = rest;
            let (f1, cur2) = match <F64Bits as Decode>::decode(c1) {
                Ok(p) => p,
                Err(_) => {
                    proof {
                        if <Instr as Decode>::dec_ok(buffer@) {
                            lemma_err_instr_f64const_1_fail(buffer@, c1@);
                        }
                    }
                    return Err(DecodeError::Error);
                },
            };
            assert(buffer@ =~= seq![68u8] + <F64Bits as Encode>::spec_enc(f1.deep_view()) + cur2@);
            let result = Instr::F64Const(f1);
            proof {
                assert(instr_enc(result.deep_view()) =~= seq![68u8] + <F64Bits as Encode>::spec_enc(f1.deep_view()));
                assert(buffer@ =~= instr_enc(result.deep_view()) + cur2@);
                assert(<Instr as Decode>::dec_ok(buffer@)) by {
                    assert(<Instr as Encode>::spec_wf(result.deep_view()) && buffer@
                        == <Instr as Encode>::spec_enc(result.deep_view()) + cur2@
                        && <Instr as Decode>::tail_stop(cur2@));
                }
            }
            Ok((result, cur2))
        },
        _ => {
            proof {
                if <Instr as Decode>::dec_ok(buffer@) {
                    let (w, e) = choose|w: SpecInstr, e: Seq<u8>|
                        <Instr as Encode>::spec_wf(w) && buffer@ == <Instr as Encode>::spec_enc(w)
                            + e && <Instr as Decode>::tail_stop(e);
                    lemma_instr_head(w);
                    assert((<Instr as Encode>::spec_enc(w) + e)[0] == instr_enc(w)[0]);
                    assert(instr_op(w) == b0);
                    assert(false);
                }
            }
            Err(DecodeError::Error)
        },
    }
}

/// Decodes one instruction: dispatch on the opcode byte, then the
/// alternative's remaining symbols.
pub fn instr_decode(buffer: &[u8]) -> (r: DecodeResult<Instr>)
    ensures
        r matches Ok((v, rest)) ==> instr_wf(v.deep_view()) && buffer@ == instr_enc(v.deep_view())
            + rest@,
        r is Ok <==> <Instr as Decode>::dec_ok(buffer@),
    decreases buffer@.len(), 2int,
{
    if buffer.len() == 0 {
        proof {
            if <Instr as Decode>::dec_ok(buffer@) {
                let (w, e) = choose|w: SpecInstr, e: Seq<u8>|
                    <Instr as Encode>::spec_wf(w) && buffer@ == <Instr as Encode>::spec_enc(w)
                        + e && <Instr as Decode>::tail_stop(e);
                lemma_instr_head(w);
                assert(false);
            }
        }
        return Err(DecodeError::Error);
    }
    let b0 = buffer[0];
    let rest = vstd::slice::slice_subrange(buffer, 1, buffer.len());
    proof {
        assert(rest@ =~= buffer@.drop_first());
        assert(buffer@ =~= seq![b0] + rest@);
    }
    if b0 == 0x02 {
        return instr_decode_block(buffer, b0, rest);
    }
    if b0 == 0x03 {
        return instr_decode_loop_block(buffer, b0, rest);
    }
    if b0 == 0x04 {
        return instr_decode_if_block(buffer, b0, rest);
    }
    if b0 < 0x20 {
        return instr_decode_control(buffer, b0, rest);
    }
    if 0x28 <= b0 && b0 <= 0x3E {
        return instr_decode_mem(buffer, b0, rest);
    }
    if 0x20 <= b0 && b0 < 0x41 {
        return instr_decode_variable(buffer, b0, rest);
    }
    if 0x45 <= b0 && b0 <= 0xC4 {
        return instr_decode_numeric(buffer, b0, rest);
    }
    if b0 == 0xFC {
        return instr_decode_fc(buffer, b0, rest);
    }
    instr_decode_consts(buffer, b0, rest)
}

/// Greedily decodes instructions until one fails; the failure marks the
/// end of the sequence and is not an error.
pub fn instr_seq_decode(buffer: &[u8]) -> (r: (Vec<Instr>, &[u8]))
    ensures
        buffer@ == instr_seq_enc(instr_vec_view(r.0)) + r.1@,
        instr_seq_wf(instr_vec_view(r.0)),
        !<Instr as Decode>::dec_ok(r.1@),
    decreases buffer@.len(), 3int,
{
    let mut vec: Vec<Instr> = Vec::new();
    let mut cur: &[u8] = buffer;
    let mut fuel: usize = buffer.len();
    loop
        invariant
            buffer@ == instr_seq_enc(instr_vec_view(vec)) + cur@,
            instr_seq_wf(instr_vec_view(vec)),
            cur@.len() <= fuel,
            cur@.len() <= buffer@.len(),
        ensures
            buffer@ == instr_seq_enc(instr_vec_view(vec)) + cur@,
            instr_seq_wf(instr_vec_view(vec)),
            !<Instr as Decode>::dec_ok(cur@),
        decreases fuel,
    {
        if fuel == 0 {
            proof {
                assert(cur@ =~= Seq::<u8>::empty());
                lemma_instr_sentinel(cur@);
            }
            break ;
        }
        match instr_decode(cur) {
            Ok((t, next)) => {
                let ghost prev = instr_vec_view(vec);
                let ghost prevseq = vec@;
                vec.push(t);
                proof {
                    assert(vec@ =~= prevseq.push(t));
                    lemma_instr_seq_view_push(prevseq, t);
                    assert(instr_vec_view(vec) =~= prev.push(instr_view(t)));
                    lemma_instr_seq_push(prev, instr_view(t));
                    assert(buffer@ =~= instr_seq_enc(instr_vec_view(vec)) + next@);
                    lemma_instr_head(instr_view(t));
                }
                cur = next;
                fuel = fuel - 1;
            },
            Err(_) => {
                break ;
            },
        }
    }
    (vec, cur)
}

/// Decodes an else-branch: `0x0B` closes the `if` without an else;
/// `0x05` opens the else instructions, closed by `0x0B`.
#[verifier::rlimit(100)]
pub fn else_decode(buffer: &[u8]) -> (r: DecodeResult<Else>)
    ensures
        r matches Ok((v, rest)) ==> else_wf(v.deep_view()) && buffer@ == else_enc(v.deep_view())
            + rest@,
        r is Ok <==> <Else as Decode>::dec_ok(buffer@),
    decreases buffer@.len(), 2int,
{
    if buffer.len() == 0 {
        proof {
            if <Else as Decode>::dec_ok(buffer@) {
                let (w, e) = choose|w: SpecElse, e: Seq<u8>|
                    <Else as Encode>::spec_wf(w) && buffer@ == <Else as Encode>::spec_enc(w) + e
                        && <Else as Decode>::tail_stop(e);
                lemma_else_head(w);
                assert(false);
            }
        }
        return Err(DecodeError::Error);
    }
    let b0 = buffer[0];
    let rest = vstd::slice::slice_subrange(buffer, 1, buffer.len());
    proof {
        assert(rest@ =~= buffer@.drop_first());
        assert(buffer@ =~= seq![b0] + rest@);
    }
    if b0 == 11 {
        let result = Else::NoElse;
        proof {
            assert(else_enc(result.deep_view()) == seq![11u8]);
            assert(buffer@ =~= else_enc(result.deep_view()) + rest@);
            assert(<Else as Decode>::dec_ok(buffer@)) by {
                assert(<Else as Encode>::spec_wf(result.deep_view()) && buffer@
                    == <Else as Encode>::spec_enc(result.deep_view()) + rest@
                    && <Else as Decode>::tail_stop(rest@));
            }
        }
        return Ok((result, rest));
    }
    if b0 == 5 {
        proof {
            assert(rest@.len() < buffer@.len());
        }
        let (sv, cur1) = instr_seq_decode(rest);
        let (lit1, cur2) = match <u8 as Decode>::decode(cur1) {
            Ok(p) => p,
            Err(_) => {
                proof {
                    if <Else as Decode>::dec_ok(buffer@) {
                        let (w, e) = choose|w: SpecElse, e: Seq<u8>|
                            <Else as Encode>::spec_wf(w) && buffer@ == <Else as Encode>::spec_enc(
                                w,
                            ) + e && <Else as Decode>::tail_stop(e);
                        lemma_else_head(w);
                        assert((<Else as Encode>::spec_enc(w) + e)[0] == else_enc(w)[0]);
                        match w {
                            SpecElse::Else(ws) => {
                                assert(buffer@ =~= seq![5u8] + (instr_seq_enc(ws) + (seq![11u8]
                                    + e)));
                                lemma_concat_cancel(seq![5u8], rest@, seq![5u8], instr_seq_enc(
                                    ws,
                                ) + (seq![11u8] + e));
                                assert((seq![11u8] + e)[0] == 11u8);
                                lemma_instr_sentinel(seq![11u8] + e);
                                lemma_instr_seq_unamb(instr_vec_view(sv), ws, cur1@, seq![11u8] + e);
                                assert(cur1@ == seq![11u8] + e);
                                assert(cur1@.len() >= 1);
                                assert(false);
                            },
                            _ => {
                                assert(false);
                            },
                        }
                    }
                }
                return Err(DecodeError::Error);
            },
        };
        if lit1 != 11u8 {
            proof {
                assert(cur1@[0] == lit1);
                if <Else as Decode>::dec_ok(buffer@) {
                    let (w, e) = choose|w: SpecElse, e: Seq<u8>|
                        <Else as Encode>::spec_wf(w) && buffer@ == <Else as Encode>::spec_enc(w)
                            + e && <Else as Decode>::tail_stop(e);
                    lemma_else_head(w);
                    assert((<Else as Encode>::spec_enc(w) + e)[0] == else_enc(w)[0]);
                    match w {
                        SpecElse::Else(ws) => {
                            assert(buffer@ =~= seq![5u8] + (instr_seq_enc(ws) + (seq![11u8]
                                + e)));
                            lemma_concat_cancel(seq![5u8], rest@, seq![5u8], instr_seq_enc(ws)
                                + (seq![11u8] + e));
                            assert((seq![11u8] + e)[0] == 11u8);
                            lemma_instr_sentinel(seq![11u8] + e);
                            lemma_instr_seq_unamb(instr_vec_view(sv), ws, cur1@, seq![11u8] + e);
                            assert(cur1@ == seq![11u8] + e);
                            assert(cur1@[0] == 11u8);
                            assert(false);
                        },
                        _ => {
                            assert(false);
                        },
                    }
                }
            }
            return Err(DecodeError::Error);
        }
        let ghost svv = instr_vec_view(sv);
        let result = Else::Else(Repeated(sv));
        proof {
            assert(result.deep_view() == SpecElse::Else(svv));
            assert(else_enc(result.deep_view()) =~= seq![5u8] + instr_seq_enc(svv)
                + seq![11u8]);
            assert(buffer@ =~= else_enc(result.deep_view()) + cur2@);
            assert(<Else as Decode>::dec_ok(buffer@)) by {
                assert(<Else as Encode>::spec_wf(result.deep_view()) && buffer@
                    == <Else as Encode>::spec_enc(result.deep_view()) + cur2@
                    && <Else as Decode>::tail_stop(cur2@));
            }
        }
        return Ok((result, cur2));
    }
    proof {
        if <Else as Decode>::dec_ok(buffer@) {
            let (w, e) = choose|w: SpecElse, e: Seq<u8>|
                <Else as Encode>::spec_wf(w) && buffer@ == <Else as Encode>::spec_enc(w) + e
                    && <Else as Decode>::tail_stop(e);
            lemma_else_head(w);
            assert((<Else as Encode>::spec_enc(w) + e)[0] == else_enc(w)[0]);
            assert(false);
        }
    }
    Err(DecodeError::Error)
}

/// One WebAssembly instruction.
impl Encode for Instr {
    open spec fn spec_enc(v: SpecInstr) -> Seq<u8> {
        instr_enc(v)
    }

    open spec fn spec_wf(v: SpecInstr) -> bool {
        instr_wf(v)
    }

    fn encode(&self, buffer: &mut Vec<u8>) {
        instr_encode(self, buffer);
    }
}

/// One WebAssembly instruction.
impl Decode for Instr {
    proof fn lemma_plain(s: Seq<u8>) {
        assert forall|v: SpecInstr| Self::spec_enc(v).len() >= 1 by {
            lemma_instr_head(v);
        }
        if Self::dec_ok(Seq::<u8>::empty()) {
            let (v, e) = choose|v: SpecInstr, e: Seq<u8>|
                Self::spec_wf(v) && Seq::<u8>::empty() == Self::spec_enc(v) + e
                    && Self::tail_stop(e);
            lemma_instr_head(v);
            assert(false);
        }
    }

    proof fn lemma_unamb(v1: SpecInstr, v2: SpecInstr, e1: Seq<u8>, e2: Seq<u8>) {
        lemma_instr_unamb(v1, v2, e1, e2);
    }

    proof fn lemma_covers(v: SpecInstr, e: Seq<u8>) {
        assert(Self::spec_wf(v) && Self::spec_enc(v) + e == Self::spec_enc(v) + e
            && Self::tail_stop(e));
    }

    fn decode(buffer: &[u8]) -> (r: DecodeResult<Self>) {
        instr_decode(buffer)
    }
}

/// The optional else-branch of an `If`.
impl Encode for Else {
    open spec fn spec_enc(v: SpecElse) -> Seq<u8> {
        else_enc(v)
    }

    open spec fn spec_wf(v: SpecElse) -> bool {
        else_wf(v)
    }

    fn encode(&self, buffer: &mut Vec<u8>) {
        else_encode(self, buffer);
    }
}

/// The optional else-branch of an `If`.
impl Decode for Else {
    proof fn lemma_plain(s: Seq<u8>) {
        assert forall|v: SpecElse| Self::spec_enc(v).len() >= 1 by {
            lemma_else_head(v);
        }
        if Self::dec_ok(Seq::<u8>::empty()) {
            let (v, e) = choose|v: SpecElse, e: Seq<u8>|
                Self::spec_wf(v) && Seq::<u8>::empty() == Self::spec_enc(v) + e
                    && Self::tail_stop(e);
            lemma_else_head(v);
            assert(false);
        }
    }

    proof fn lemma_unamb(v1: SpecElse, v2: SpecElse, e1: Seq<u8>, e2: Seq<u8>) {
        lemma_else_unamb(v1, v2, e1, e2);
    }

    proof fn lemma_covers(v: SpecElse, e: Seq<u8>) {
        assert(Self::spec_wf(v) && Self::spec_enc(v) + e == Self::spec_enc(v) + e
            && Self::tail_stop(e));
    }

    fn decode(buffer: &[u8]) -> (r: DecodeResult<Self>) {
        else_decode(buffer)
    }
}

/// `Expr` non-terminal: instructions closed by the `0x0B` terminator.
impl Encode for Expr {
    open spec fn spec_enc(v: Seq<SpecInstr>) -> Seq<u8> {
        instr_seq_enc(v) + seq![11u8]
    }

    open spec fn spec_wf(v: Seq<SpecInstr>) -> bool {
        instr_seq_wf(v)
    }

    fn encode(&self, buffer: &mut Vec<u8>) {
        instr_seq_encode(&self.0.0, buffer);
        buffer.push(11u8);
        assert(buffer@ =~= old(buffer)@ + Self::spec_enc(self.deep_view()));
    }
}

/// `Expr` non-terminal.
impl Decode for Expr {
    proof fn lemma_plain(s: Seq<u8>) {
        assert forall|v: Seq<SpecInstr>| Self::spec_enc(v).len() >= 1 by {
            assert(Self::spec_enc(v).len() == instr_seq_enc(v).len() + 1);
        }
        if Self::dec_ok(Seq::<u8>::empty()) {
            let (v, e) = choose|v: Seq<SpecInstr>, e: Seq<u8>|
                Self::spec_wf(v) && Seq::<u8>::empty() == Self::spec_enc(v) + e
                    && Self::tail_stop(e);
            assert(Self::spec_enc(v).len() == instr_seq_enc(v).len() + 1);
            assert(false);
        }
    }

    proof fn lemma_unamb(v1: Seq<SpecInstr>, v2: Seq<SpecInstr>, e1: Seq<u8>, e2: Seq<u8>) {
        assert(Self::spec_enc(v1) + e1 =~= instr_seq_enc(v1) + (seq![11u8] + e1));
        assert(Self::spec_enc(v2) + e2 =~= instr_seq_enc(v2) + (seq![11u8] + e2));
        assert((seq![11u8] + e1)[0] == 11u8);
        assert((seq![11u8] + e2)[0] == 11u8);
        lemma_instr_sentinel(seq![11u8] + e1);
        lemma_instr_sentinel(seq![11u8] + e2);
        lemma_instr_seq_unamb(v1, v2, seq![11u8] + e1, seq![11u8] + e2);
        lemma_concat_cancel(seq![11u8], e1, seq![11u8], e2);
    }

    proof fn lemma_covers(v: Seq<SpecInstr>, e: Seq<u8>) {
        assert(Self::spec_wf(v) && Self::spec_enc(v) + e == Self::spec_enc(v) + e
            && Self::tail_stop(e));
    }

    fn decode(buffer: &[u8]) -> (r: DecodeResult<Self>) {
        let (sv, cur1) = instr_seq_decode(buffer);
        let (lit1, cur2) = match <u8 as Decode>::decode(cur1) {
            Ok(p) => p,
            Err(_) => {
                proof {
                    if Self::dec_ok(buffer@) {
                        let (wv, e) = choose|wv: Seq<SpecInstr>, e: Seq<u8>|
                            Self::spec_wf(wv) && buffer@ == Self::spec_enc(wv) + e
                                && Self::tail_stop(e);
                        assert(buffer@ =~= instr_seq_enc(wv) + (seq![11u8] + e));
                        assert((seq![11u8] + e)[0] == 11u8);
                        lemma_instr_sentinel(seq![11u8] + e);
                        lemma_instr_seq_unamb(instr_vec_view(sv), wv, cur1@, seq![11u8] + e);
                        assert(cur1@ == seq![11u8] + e);
                        assert(cur1@.len() >= 1);
                        assert(false);
                    }
                }
                return Err(DecodeError::Error);
            },
        };
        if lit1 != 11u8 {
            proof {
                assert(cur1@[0] == lit1);
                if Self::dec_ok(buffer@) {
                    let (wv, e) = choose|wv: Seq<SpecInstr>, e: Seq<u8>|
                        Self::spec_wf(wv) && buffer@ == Self::spec_enc(wv) + e
                            && Self::tail_stop(e);
                    assert(buffer@ =~= instr_seq_enc(wv) + (seq![11u8] + e));
                    assert((seq![11u8] + e)[0] == 11u8);
                    lemma_instr_sentinel(seq![11u8] + e);
                    lemma_instr_seq_unamb(instr_vec_view(sv), wv, cur1@, seq![11u8] + e);
                    assert(cur1@ == seq![11u8] + e);
                    assert(false);
                }
            }
            return Err(DecodeError::Error);
        }
        let ghost svv = instr_vec_view(sv);
        let result = Expr(Repeated(sv));
        proof {
            assert(result.deep_view() == svv);
            assert(Self::spec_enc(result.deep_view()) =~= instr_seq_enc(svv) + seq![11u8]);
            assert(buffer@ =~= Self::spec_enc(result.deep_view()) + cur2@);
            assert(Self::dec_ok(buffer@)) by {
                assert(Self::spec_wf(result.deep_view()) && buffer@ == Self::spec_enc(
                    result.deep_view(),
                ) + cur2@ && Self::tail_stop(cur2@));
            }
        }
        Ok((result, cur2))
    }
}

/// What a claimed parse says about the bytes where `TableInit` got stuck.
#[verifier::rlimit(100)]
proof fn lemma_err_instr_tableinit_2_fail(buffer: Seq<u8>, c2: Seq<u8>)
    requires
        <Instr as Decode>::dec_ok(buffer),
        buffer == seq![252u8, 12u8] + c2,
    ensures
        <ElemIdx as Decode>::dec_ok(c2),
{
    let (w, e) = choose|w: SpecInstr, e: Seq<u8>|
        <Instr as Encode>::spec_wf(w) && buffer == <Instr as Encode>::spec_enc(w)
            + e && <Instr as Decode>::tail_stop(e);
    lemma_instr_head(w);
    assert((<Instr as Encode>::spec_enc(w) + e)[0] == instr_enc(w)[0]);
    assert(buffer[0] == instr_op(w));
    assert(instr_op(w) == 252u8);
    assert((<Instr as Encode>::spec_enc(w) + e)[1] == instr_enc(w)[1]);
    assert(buffer[1] == instr_fc_sub(w));
    assert(instr_fc_sub(w) == 12u8);
    match w {
        SpecInstr::TableInit(wv0, wv1) => {
            assert(uleb(12 as nat) =~= seq![12u8]);
            assert(buffer =~= seq![252u8] + (uleb(12 as nat) + (<ElemIdx as Encode>::spec_enc(wv0) + (<TableIdx as Encode>::spec_enc(wv1) + (e)))));
            assert(buffer =~= seq![252u8, 12u8] + (<ElemIdx as Encode>::spec_enc(wv0) + (<TableIdx as Encode>::spec_enc(wv1) + (e))));
            lemma_concat_cancel(seq![252u8, 12u8], c2, seq![252u8, 12u8], <ElemIdx as Encode>::spec_enc(wv0) + (<TableIdx as Encode>::spec_enc(wv1) + (e)));
            assert(c2 == <ElemIdx as Encode>::spec_enc(wv0) + (<TableIdx as Encode>::spec_enc(wv1) + (e)));
            assert(c2 == <ElemIdx as Encode>::spec_enc(wv0) + (<TableIdx as Encode>::spec_enc(wv1) + (e)));
            <ElemIdx as Decode>::lemma_plain(<TableIdx as Encode>::spec_enc(wv1) + (e));
            <ElemIdx as Decode>::lemma_covers(wv0, <TableIdx as Encode>::spec_enc(wv1) + (e));
            assert(<ElemIdx as Decode>::dec_ok(c2));
        },
        _ => {
            assert(false);
        },
    }
}

/// What a claimed parse says about the bytes where `TableInit` got stuck.
#[verifier::rlimit(100)]
proof fn lemma_err_instr_tableinit_3_fail(buffer: Seq<u8>, c2: Seq<u8>, c3: Seq<u8>, w2: ElemIdx)
    requires
        <Instr as Decode>::dec_ok(buffer),
        buffer == seq![252u8, 12u8] + c2,
        c2 == <ElemIdx as Encode>::spec_enc(w2) + c3,
        <ElemIdx as Encode>::spec_wf(w2),
    ensures
        <TableIdx as Decode>::dec_ok(c3),
{
    let (w, e) = choose|w: SpecInstr, e: Seq<u8>|
        <Instr as Encode>::spec_wf(w) && buffer == <Instr as Encode>::spec_enc(w)
            + e && <Instr as Decode>::tail_stop(e);
    lemma_instr_head(w);
    assert((<Instr as Encode>::spec_enc(w) + e)[0] == instr_enc(w)[0]);
    assert(buffer[0] == instr_op(w));
    assert(instr_op(w) == 252u8);
    assert((<Instr as Encode>::spec_enc(w) + e)[1] == instr_enc(w)[1]);
    assert(buffer[1] == instr_fc_sub(w));
    assert(instr_fc_sub(w) == 12u8);
    match w {
        SpecInstr::TableInit(wv0, wv1) => {
            assert(uleb(12 as nat) =~= seq![12u8]);
            assert(buffer =~= seq![252u8] + (uleb(12 as nat) + (<ElemIdx as Encode>::spec_enc(wv0) + (<TableIdx as Encode>::spec_enc(wv1) + (e)))));
            assert(buffer =~= seq![252u8, 12u8] + (<ElemIdx as Encode>::spec_enc(wv0) + (<TableIdx as Encode>::spec_enc(wv1) + (e))));
            lemma_concat_cancel(seq![252u8, 12u8], c2, seq![252u8, 12u8], <ElemIdx as Encode>::spec_enc(wv0) + (<TableIdx as Encode>::spec_enc(wv1) + (e)));
            assert(c2 == <ElemIdx as Encode>::spec_enc(wv0) + (<TableIdx as Encode>::spec_enc(wv1) + (e)));
            <ElemIdx as Decode>::lemma_plain(c3);
            <ElemIdx as Decode>::lemma_plain(<TableIdx as Encode>::spec_enc(wv1) + (e));
            <ElemIdx as Decode>::lemma_unamb(w2, wv0, c3, <TableIdx as Encode>::spec_enc(wv1) + (e));
            assert(c3 == <TableIdx as Encode>::spec_enc(wv1) + (e));
            assert(c3 == <TableIdx as Encode>::spec_enc(wv1) + (e));
            <TableIdx as Decode>::lemma_plain(e);
            <TableIdx as Decode>::lemma_covers(wv1, e);
            assert(<TableIdx as Decode>::dec_ok(c3));
        },
        _ => {
            assert(false);
        },
    }
}

/// What a claimed parse says about the bytes where `ElemDrop` got stuck.
#[verifier::rlimit(100)]
proof fn lemma_err_instr_elemdrop_2_fail(buffer: Seq<u8>, c2: Seq<u8>)
    requires
        <Instr as Decode>::dec_ok(buffer),
        buffer == seq![252u8, 13u8] + c2,
    ensures
        <ElemIdx as Decode>::dec_ok(c2),
{
    let (w, e) = choose|w: SpecInstr, e: Seq<u8>|
        <Instr as Encode>::spec_wf(w) && buffer == <Instr as Encode>::spec_enc(w)
            + e && <Instr as Decode>::tail_stop(e);
    lemma_instr_head(w);
    assert((<Instr as Encode>::spec_enc(w) + e)[0] == instr_enc(w)[0]);
    assert(buffer[0] == instr_op(w));
    assert(instr_op(w) == 252u8);
    assert((<Instr as Encode>::spec_enc(w) + e)[1] == instr_enc(w)[1]);
    assert(buffer[1] == instr_fc_sub(w));
    assert(instr_fc_sub(w) == 13u8);
    match w {
        SpecInstr::ElemDrop(wv0) => {
            assert(uleb(13 as nat) =~= seq![13u8]);
            assert(buffer =~= seq![252u8] + (uleb(13 as nat) + (<ElemIdx as Encode>::spec_enc(wv0) + (e))));
            assert(buffer =~= seq![252u8, 13u8] + (<ElemIdx as Encode>::spec_enc(wv0) + (e)));
            lemma_concat_cancel(seq![252u8, 13u8], c2, seq![252u8, 13u8], <ElemIdx as Encode>::spec_enc(wv0) + (e));
            assert(c2 == <ElemIdx as Encode>::spec_enc(wv0) + (e));
            assert(c2 == <ElemIdx as Encode>::spec_enc(wv0) + (e));
            <ElemIdx as Decode>::lemma_plain(e);
            <ElemIdx as Decode>::lemma_covers(wv0, e);
            assert(<ElemIdx as Decode>::dec_ok(c2));
        },
        _ => {
            assert(false);
        },
    }
}

/// What a claimed parse says about the bytes where `TableCopy` got stuck.
#[verifier::rlimit(100)]
proof fn lemma_err_instr_tablecopy_2_fail(buffer: Seq<u8>, c2: Seq<u8>)
    requires
        <Instr as Decode>::dec_ok(buffer),
        buffer == seq![252u8, 14u8] + c2,
    ensures
        <TableIdx as Decode>::dec_ok(c2),
{
    let (w, e) = choose|w: SpecInstr, e: Seq<u8>|
        <Instr as Encode>::spec_wf(w) && buffer == <Instr as Encode>::spec_enc(w)
            + e && <Instr as Decode>::tail_stop(e);
    lemma_instr_head(w);
    assert((<Instr as Encode>::spec_enc(w) + e)[0] == instr_enc(w)[0]);
    assert(buffer[0] == instr_op(w));
    assert(instr_op(w) == 252u8);
    assert((<Instr as Encode>::spec_enc(w) + e)[1] == instr_enc(w)[1]);
    assert(buffer[1] == instr_fc_sub(w));
    assert(instr_fc_sub(w) == 14u8);
    match w {
        SpecInstr::TableCopy(wv0, wv1) => {
            assert(uleb(14 as nat) =~= seq![14u8]);
            assert(buffer =~= seq![252u8] + (uleb(14 as nat) + (<TableIdx as Encode>::spec_enc(wv0) + (<TableIdx as Encode>::spec_enc(wv1) + (e)))));
            assert(buffer =~= seq![252u8, 14u8] + (<TableIdx as Encode>::spec_enc(wv0) + (<TableIdx as Encode>::spec_enc(wv1) + (e))));
            lemma_concat_cancel(seq![252u8, 14u8], c2, seq![252u8, 14u8], <TableIdx as Encode>::spec_enc(wv0) + (<TableIdx as Encode>::spec_enc(wv1) + (e)));
            assert(c2 == <TableIdx as Encode>::spec_enc(wv0) + (<TableIdx as Encode>::spec_enc(wv1) + (e)));
            assert(c2 == <TableIdx as Encode>::spec_enc(wv0) + (<TableIdx as Encode>::spec_enc(wv1) + (e)));
            <TableIdx as Decode>::lemma_plain(<TableIdx as Encode>::spec_enc(wv1) + (e));
            <TableIdx as Decode>::lemma_covers(wv0, <TableIdx as Encode>::spec_enc(wv1) + (e));
            assert(<TableIdx as Decode>::dec_ok(c2));
        },
        _ => {
            assert(false);
        },
    }
}

/// What a claimed parse says about the bytes where `TableCopy` got stuck.
#[verifier::rlimit(100)]
proof fn lemma_err_instr_tablecopy_3_fail(buffer: Seq<u8>, c2: Seq<u8>, c3: Seq<u8>, w2: TableIdx)
    requires
        <Instr as Decode>::dec_ok(buffer),
        buffer == seq![252u8, 14u8] + c2,
        c2 == <TableIdx as Encode>::spec_enc(w2) + c3,
        <TableIdx as Encode>::spec_wf(w2),
    ensures
        <TableIdx as Decode>::dec_ok(c3),
{
    let (w, e) = choose|w: SpecInstr, e: Seq<u8>|
        <Instr as Encode>::spec_wf(w) && buffer == <Instr as Encode>::spec_enc(w)
            + e && <Instr as Decode>::tail_stop(e);
    lemma_instr_head(w);
    assert((<Instr as Encode>::spec_enc(w) + e)[0] == instr_enc(w)[0]);
    assert(buffer[0] == instr_op(w));
    assert(instr_op(w) == 252u8);
    assert((<Instr as Encode>::spec_enc(w) + e)[1] == instr_enc(w)[1]);
    assert(buffer[1] == instr_fc_sub(w));
    assert(instr_fc_sub(w) == 14u8);
    match w {
        SpecInstr::TableCopy(wv0, wv1) => {
            assert(uleb(14 as nat) =~= seq![14u8]);
            assert(buffer =~= seq![252u8] + (uleb(14 as nat) + (<TableIdx as Encode>::spec_enc(wv0) + (<TableIdx as Encode>::spec_enc(wv1) + (e)))));
            assert(buffer =~= seq![252u8, 14u8] + (<TableIdx as Encode>::spec_enc(wv0) + (<TableIdx as Encode>::spec_enc(wv1) + (e))));
            lemma_concat_cancel(seq![252u8, 14u8], c2, seq![252u8, 14u8], <TableIdx as Encode>::spec_enc(wv0) + (<TableIdx as Encode>::spec_enc(wv1) + (e)));
            assert(c2 == <TableIdx as Encode>::spec_enc(wv0) + (<TableIdx as Encode>::spec_enc(wv1) + (e)));
            <TableIdx as Decode>::lemma_plain(c3);
            <TableIdx as Decode>::lemma_plain(<TableIdx as Encode>::spec_enc(wv1) + (e));
            <TableIdx as Decode>::lemma_unamb(w2, wv0, c3, <TableIdx as Encode>::spec_enc(wv1) + (e));
            assert(c3 == <TableIdx as Encode>::spec_enc(wv1) + (e));
            assert(c3 == <TableIdx as Encode>::spec_enc(wv1) + (e));
            <TableIdx as Decode>::lemma_plain(e);
            <TableIdx as Decode>::lemma_covers(wv1, e);
            assert(<TableIdx as Decode>::dec_ok(c3));
        },
        _ => {
            assert(false);
        },
    }
}

/// What a claimed parse says about the bytes where `TableGrow` got stuck.
#[verifier::rlimit(100)]
proof fn lemma_err_instr_tablegrow_2_fail(buffer: Seq<u8>, c2: Seq<u8>)
    requires
        <Instr as Decode>::dec_ok(buffer),
        buffer == seq![252u8, 15u8] + c2,
    ensures
        <TableIdx as Decode>::dec_ok(c2),
{
    let (w, e) = choose|w: SpecInstr, e: Seq<u8>|
        <Instr as Encode>::spec_wf(w) && buffer == <Instr as Encode>::spec_enc(w)
            + e && <Instr as Decode>::tail_stop(e);
    lemma_instr_head(w);
    assert((<Instr as Encode>::spec_enc(w) + e)[0] == instr_enc(w)[0]);
    assert(buffer[0] == instr_op(w));
    assert(instr_op(w) == 252u8);
    assert((<Instr as Encode>::spec_enc(w) + e)[1] == instr_enc(w)[1]);
    assert(buffer[1] == instr_fc_sub(w));
    assert(instr_fc_sub(w) == 15u8);
    match w {
        SpecInstr::TableGrow(wv0) => {
            assert(uleb(15 as nat) =~= seq![15u8]);
            assert(buffer =~= seq![252u8] + (uleb(15 as nat) + (<TableIdx as Encode>::spec_enc(wv0) + (e))));
            assert(buffer =~= seq![252u8, 15u8] + (<TableIdx as Encode>::spec_enc(wv0) + (e)));
            lemma_concat_cancel(seq![252u8, 15u8], c2, seq![252u8, 15u8], <TableIdx as Encode>::spec_enc(wv0) + (e));
            assert(c2 == <TableIdx as Encode>::spec_enc(wv0) + (e));
            assert(c2 == <TableIdx as Encode>::spec_enc(wv0) + (e));
            <TableIdx as Decode>::lemma_plain(e);
            <TableIdx as Decode>::lemma_covers(wv0, e);
            assert(<TableIdx as Decode>::dec_ok(c2));
        },
        _ => {
            assert(false);
        },
    }
}

/// What a claimed parse says about the bytes where `TableSize` got stuck.
#[verifier::rlimit(100)]
proof fn lemma_err_instr_tablesize_2_fail(buffer: Seq<u8>, c2: Seq<u8>)
    requires
        <Instr as Decode>::dec_ok(buffer),
        buffer == seq![252u8, 16u8] + c2,
    ensures
        <TableIdx as Decode>::dec_ok(c2),
{
    let (w, e) = choose|w: SpecInstr, e: Seq<u8>|
        <Instr as Encode>::spec_wf(w) && buffer == <Instr as Encode>::spec_enc(w)
            + e && <Instr as Decode>::tail_stop(e);
    lemma_instr_head(w);
    assert((<Instr as Encode>::spec_enc(w) + e)[0] == instr_enc(w)[0]);
    assert(buffer[0] == instr_op(w));
    assert(instr_op(w) == 252u8);
    assert((<Instr as Encode>::spec_enc(w) + e)[1] == instr_enc(w)[1]);
    assert(buffer[1] == instr_fc_sub(w));
    assert(instr_fc_sub(w) == 16u8);
    match w {
        SpecInstr::TableSize(wv0) => {
            assert(uleb(16 as nat) =~= seq![16u8]);
            assert(buffer =~= seq![252u8] + (uleb(16 as nat) + (<TableIdx as Encode>::spec_enc(wv0) + (e))));
            assert(buffer =~= seq![252u8, 16u8] + (<TableIdx as Encode>::spec_enc(wv0) + (e)));
            lemma_concat_cancel(seq![252u8, 16u8], c2, seq![252u8, 16u8], <TableIdx as Encode>::spec_enc(wv0) + (e));
            assert(c2 == <TableIdx as Encode>::spec_enc(wv0) + (e));
            assert(c2 == <TableIdx as Encode>::spec_enc(wv0) + (e));
            <TableIdx as Decode>::lemma_plain(e);
            <TableIdx as Decode>::lemma_covers(wv0, e);
            assert(<TableIdx as Decode>::dec_ok(c2));
        },
        _ => {
            assert(false);
        },
    }
}

/// What a claimed parse says about the bytes where `TableFill` got stuck.
#[verifier::rlimit(100)]
proof fn lemma_err_instr_tablefill_2_fail(buffer: Seq<u8>, c2: Seq<u8>)
    requires
        <Instr as Decode>::dec_ok(buffer),
        buffer == seq![252u8, 17u8] + c2,
    ensures
        <TableIdx as Decode>::dec_ok(c2),
{
    let (w, e) = choose|w: SpecInstr, e: Seq<u8>|
        <Instr as Encode>::spec_wf(w) && buffer == <Instr as Encode>::spec_enc(w)
            + e && <Instr as Decode>::tail_stop(e);
    lemma_instr_head(w);
    assert((<Instr as Encode>::spec_enc(w) + e)[0] == instr_enc(w)[0]);
    assert(buffer[0] == instr_op(w));
    assert(instr_op(w) == 252u8);
    assert((<Instr as Encode>::spec_enc(w) + e)[1] == instr_enc(w)[1]);
    assert(buffer[1] == instr_fc_sub(w));
    assert(instr_fc_sub(w) == 17u8);
    match w {
        SpecInstr::TableFill(wv0) => {
            assert(uleb(17 as nat) =~= seq![17u8]);
            assert(buffer =~= seq![252u8] + (uleb(17 as nat) + (<TableIdx as Encode>::spec_enc(wv0) + (e))));
            assert(buffer =~= seq![252u8, 17u8] + (<TableIdx as Encode>::spec_enc(wv0) + (e)));
            lemma_concat_cancel(seq![252u8, 17u8], c2, seq![252u8, 17u8], <TableIdx as Encode>::spec_enc(wv0) + (e));
            assert(c2 == <TableIdx as Encode>::spec_enc(wv0) + (e));
            assert(c2 == <TableIdx as Encode>::spec_enc(wv0) + (e));
            <TableIdx as Decode>::lemma_plain(e);
            <TableIdx as Decode>::lemma_covers(wv0, e);
            assert(<TableIdx as Decode>::dec_ok(c2));
        },
        _ => {
            assert(false);
        },
    }
}

/// What a claimed parse says about the bytes where `MemoryInit` got stuck.
#[verifier::rlimit(100)]
proof fn lemma_err_instr_memoryinit_2_fail(buffer: Seq<u8>, c2: Seq<u8>)
    requires
        <Instr as Decode>::dec_ok(buffer),
        buffer == seq![252u8, 8u8] + c2,
    ensures
        <DataIdx as Decode>::dec_ok(c2),
{
    let (w, e) = choose|w: SpecInstr, e: Seq<u8>|
        <Instr as Encode>::spec_wf(w) && buffer == <Instr as Encode>::spec_enc(w)
            + e && <Instr as Decode>::tail_stop(e);
    lemma_instr_head(w);
    assert((<Instr as Encode>::spec_enc(w) + e)[0] == instr_enc(w)[0]);
    assert(buffer[0] == instr_op(w));
    assert(instr_op(w) == 252u8);
    assert((<Instr as Encode>::spec_enc(w) + e)[1] == instr_enc(w)[1]);
    assert(buffer[1] == instr_fc_sub(w));
    assert(instr_fc_sub(w) == 8u8);
    match w {
        SpecInstr::MemoryInit(wv0) => {
            assert(uleb(8 as nat) =~= seq![8u8]);
            assert(buffer =~= seq![252u8] + (uleb(8 as nat) + (<DataIdx as Encode>::spec_enc(wv0) + (seq![0u8] + (e)))));
            assert(buffer =~= seq![252u8, 8u8] + (<DataIdx as Encode>::spec_enc(wv0) + (seq![0u8] + (e))));
            lemma_concat_cancel(seq![252u8, 8u8], c2, seq![252u8, 8u8], <DataIdx as Encode>::spec_enc(wv0) + (seq![0u8] + (e)));
            assert(c2 == <DataIdx as Encode>::spec_enc(wv0) + (seq![0u8] + (e)));
            assert(c2 == <DataIdx as Encode>::spec_enc(wv0) + (seq![0u8] + (e)));
            <DataIdx as Decode>::lemma_plain(seq![0u8] + (e));
            <DataIdx as Decode>::lemma_covers(wv0, seq![0u8] + (e));
            assert(<DataIdx as Decode>::dec_ok(c2));
        },
        _ => {
            assert(false);
        },
    }
}

/// What a claimed parse says about the bytes where `MemoryInit` got stuck.
#[verifier::rlimit(100)]
proof fn lemma_err_instr_memoryinit_3_nobyte(buffer: Seq<u8>, c2: Seq<u8>, c3: Seq<u8>, w2: DataIdx)
    requires
        <Instr as Decode>::dec_ok(buffer),
        buffer == seq![252u8, 8u8] + c2,
        c2 == <DataIdx as Encode>::spec_enc(w2) + c3,
        <DataIdx as Encode>::spec_wf(w2),
    ensures
        c3.len() >= 1,
{
    let (w, e) = choose|w: SpecInstr, e: Seq<u8>|
        <Instr as Encode>::spec_wf(w) && buffer == <Instr as Encode>::spec_enc(w)
            + e && <Instr as Decode>::tail_stop(e);
    lemma_instr_head(w);
    assert((<Instr as Encode>::spec_enc(w) + e)[0] == instr_enc(w)[0]);
    assert(buffer[0] == instr_op(w));
    assert(instr_op(w) == 252u8);
    assert((<Instr as Encode>::spec_enc(w) + e)[1] == instr_enc(w)[1]);
    assert(buffer[1] == instr_fc_sub(w));
    assert(instr_fc_sub(w) == 8u8);
    match w {
        SpecInstr::MemoryInit(wv0) => {
            assert(uleb(8 as nat) =~= seq![8u8]);
            assert(buffer =~= seq![252u8] + (uleb(8 as nat) + (<DataIdx as Encode>::spec_enc(wv0) + (seq![0u8] + (e)))));
            assert(buffer =~= seq![252u8, 8u8] + (<DataIdx as Encode>::spec_enc(wv0) + (seq![0u8] + (e))));
            lemma_concat_cancel(seq![252u8, 8u8], c2, seq![252u8, 8u8], <DataIdx as Encode>::spec_enc(wv0) + (seq![0u8] + (e)));
            assert(c2 == <DataIdx as Encode>::spec_enc(wv0) + (seq![0u8] + (e)));
            <DataIdx as Decode>::lemma_plain(c3);
            <DataIdx as Decode>::lemma_plain(seq![0u8] + (e));
            <DataIdx as Decode>::lemma_unamb(w2, wv0, c3, seq![0u8] + (e));
            assert(c3 == seq![0u8] + (e));
            assert(c3 == seq![0u8] + (e));
            assert(c3.len() >= 1);
        },
        _ => {
            assert(false);
        },
    }
}

/// What a claimed parse says about the bytes where `MemoryInit` got stuck.
#[verifier::rlimit(100)]
proof fn lemma_err_instr_memoryinit_3_mismatch(buffer: Seq<u8>, c2: Seq<u8>, c3: Seq<u8>, w2: DataIdx)
    requires
        <Instr as Decode>::dec_ok(buffer),
        buffer == seq![252u8, 8u8] + c2,
        c2 == <DataIdx as Encode>::spec_enc(w2) + c3,
        <DataIdx as Encode>::spec_wf(w2),
    ensures
        c3.len() >= 1 && c3[0] == 0u8,
{
    let (w, e) = choose|w: SpecInstr, e: Seq<u8>|
        <Instr as Encode>::spec_wf(w) && buffer == <Instr as Encode>::spec_enc(w)
            + e && <Instr as Decode>::tail_stop(e);
    lemma_instr_head(w);
    assert((<Instr as Encode>::spec_enc(w) + e)[0] == instr_enc(w)[0]);
    assert(buffer[0] == instr_op(w));
    assert(instr_op(w) == 252u8);
    assert((<Instr as Encode>::spec_enc(w) + e)[1] == instr_enc(w)[1]);
    assert(buffer[1] == instr_fc_sub(w));
    assert(instr_fc_sub(w) == 8u8);
    match w {
        SpecInstr::MemoryInit(wv0) => {
            assert(uleb(8 as nat) =~= seq![8u8]);
            assert(buffer =~= seq![252u8] + (uleb(8 as nat) + (<DataIdx as Encode>::spec_enc(wv0) + (seq![0u8] + (e)))));
            assert(buffer =~= seq![252u8, 8u8] + (<DataIdx as Encode>::spec_enc(wv0) + (seq![0u8] + (e))));
            lemma_concat_cancel(seq![252u8, 8u8], c2, seq![252u8, 8u8], <DataIdx as Encode>::spec_enc(wv0) + (seq![0u8] + (e)));
            assert(c2 == <DataIdx as Encode>::spec_enc(wv0) + (seq![0u8] + (e)));
            <DataIdx as Decode>::lemma_plain(c3);
            <DataIdx as Decode>::lemma_plain(seq![0u8] + (e));
            <DataIdx as Decode>::lemma_unamb(w2, wv0, c3, seq![0u8] + (e));
            assert(c3 == seq![0u8] + (e));
            assert(c3 == seq![0u8] + (e));
            assert(c3[0] == 0u8);
        },
        _ => {
            assert(false);
        },
    }
}

/// What a claimed parse says about the bytes where `DataDrop` got stuck.
#[verifier::rlimit(100)]
proof fn lemma_err_instr_datadrop_2_fail(buffer: Seq<u8>, c2: Seq<u8>)
    requires
        <Instr as Decode>::dec_ok(buffer),
        buffer == seq![252u8, 9u8] + c2,
    ensures
        <DataIdx as Decode>::dec_ok(c2),
{
    let (w, e) = choose|w: SpecInstr, e: Seq<u8>|
        <Instr as Encode>::spec_wf(w) && buffer == <Instr as Encode>::spec_enc(w)
            + e && <Instr as Decode>::tail_stop(e);
    lemma_instr_head(w);
    assert((<Instr as Encode>::spec_enc(w) + e)[0] == instr_enc(w)[0]);
    assert(buffer[0] == instr_op(w));
    assert(instr_op(w) == 252u8);
    assert((<Instr as Encode>::spec_enc(w) + e)[1] == instr_enc(w)[1]);
    assert(buffer[1] == instr_fc_sub(w));
    assert(instr_fc_sub(w) == 9u8);
    match w {
        SpecInstr::DataDrop(wv0) => {
            assert(uleb(9 as nat) =~= seq![9u8]);
            assert(buffer =~= seq![252u8] + (uleb(9 as nat) + (<DataIdx as Encode>::spec_enc(wv0) + (e))));
            assert(buffer =~= seq![252u8, 9u8] + (<DataIdx as Encode>::spec_enc(wv0) + (e)));
            lemma_concat_cancel(seq![252u8, 9u8], c2, seq![252u8, 9u8], <DataIdx as Encode>::spec_enc(wv0) + (e));
            assert(c2 == <DataIdx as Encode>::spec_enc(wv0) + (e));
            assert(c2 == <DataIdx as Encode>::spec_enc(wv0) + (e));
            <DataIdx as Decode>::lemma_plain(e);
            <DataIdx as Decode>::lemma_covers(wv0, e);
            assert(<DataIdx as Decode>::dec_ok(c2));
        },
        _ => {
            assert(false);
        },
    }
}

/// What a claimed parse says about the bytes where `MemoryCopy` got stuck.
#[verifier::rlimit(100)]
proof fn lemma_err_instr_memorycopy_2_nobyte(buffer: Seq<u8>, c2: Seq<u8>)
    requires
        <Instr as Decode>::dec_ok(buffer),
        buffer == seq![252u8, 10u8] + c2,
    ensures
        c2.len() >= 1,
{
    let (w, e) = choose|w: SpecInstr, e: Seq<u8>|
        <Instr as Encode>::spec_wf(w) && buffer == <Instr as Encode>::spec_enc(w)
            + e && <Instr as Decode>::tail_stop(e);
    lemma_instr_head(w);
    assert((<Instr as Encode>::spec_enc(w) + e)[0] == instr_enc(w)[0]);
    assert(buffer[0] == instr_op(w));
    assert(instr_op(w) == 252u8);
    assert((<Instr as Encode>::spec_enc(w) + e)[1] == instr_enc(w)[1]);
    assert(buffer[1] == instr_fc_sub(w));
    assert(instr_fc_sub(w) == 10u8);
    match w {
        SpecInstr::MemoryCopy => {
            assert(uleb(10 as nat) =~= seq![10u8]);
            assert(buffer =~= seq![252u8] + (uleb(10 as nat) + (seq![0u8] + (seq![0u8] + (e)))));
            assert(buffer =~= seq![252u8, 10u8] + (seq![0u8] + (seq![0u8] + (e))));
            lemma_concat_cancel(seq![252u8, 10u8], c2, seq![252u8, 10u8], seq![0u8] + (seq![0u8] + (e)));
            assert(c2 == seq![0u8] + (seq![0u8] + (e)));
            assert(c2 == seq![0u8] + (seq![0u8] + (e)));
            assert(c2.len() >= 1);
        },
        _ => {
            assert(false);
        },
    }
}

/// What a claimed parse says about the bytes where `MemoryCopy` got stuck.
#[verifier::rlimit(100)]
proof fn lemma_err_instr_memorycopy_2_mismatch(buffer: Seq<u8>, c2: Seq<u8>)
    requires
        <Instr as Decode>::dec_ok(buffer),
        buffer == seq![252u8, 10u8] + c2,
    ensures
        c2.len() >= 1 && c2[0] == 0u8,
{
    let (w, e) = choose|w: SpecInstr, e: Seq<u8>|
        <Instr as Encode>::spec_wf(w) && buffer == <Instr as Encode>::spec_enc(w)
            + e && <Instr as Decode>::tail_stop(e);
    lemma_instr_head(w);
    assert((<Instr as Encode>::spec_enc(w) + e)[0] == instr_enc(w)[0]);
    assert(buffer[0] == instr_op(w));
    assert(instr_op(w) == 252u8);
    assert((<Instr as Encode>::spec_enc(w) + e)[1] == instr_enc(w)[1]);
    assert(buffer[1] == instr_fc_sub(w));
    assert(instr_fc_sub(w) == 10u8);
    match w {
        SpecInstr::MemoryCopy => {
            assert(uleb(10 as nat) =~= seq![10u8]);
            assert(buffer =~= seq![252u8] + (uleb(10 as nat) + (seq![0u8] + (seq![0u8] + (e)))));
            assert(buffer =~= seq![252u8, 10u8] + (seq![0u8] + (seq![0u8] + (e))));
            lemma_concat_cancel(seq![252u8, 10u8], c2, seq![252u8, 10u8], seq![0u8] + (seq![0u8] + (e)));
            assert(c2 == seq![0u8] + (seq![0u8] + (e)));
            assert(c2 == seq![0u8] + (seq![0u8] + (e)));
            assert(c2[0] == 0u8);
        },
        _ => {
            assert(false);
        },
    }
}

/// What a claimed parse says about the bytes where `MemoryCopy` got stuck.
#[verifier::rlimit(100)]
proof fn lemma_err_instr_memorycopy_3_nobyte(buffer: Seq<u8>, c2: Seq<u8>, c3: Seq<u8>)
    requires
        <Instr as Decode>::dec_ok(buffer),
        buffer == seq![252u8, 10u8] + c2,
        c2 == seq![0u8] + c3,
    ensures
        c3.len() >= 1,
{
    let (w, e) = choose|w: SpecInstr, e: Seq<u8>|
        <Instr as Encode>::spec_wf(w) && buffer == <Instr as Encode>::spec_enc(w)
            + e && <Instr as Decode>::tail_stop(e);
    lemma_instr_head(w);
    assert((<Instr as Encode>::spec_enc(w) + e)[0] == instr_enc(w)[0]);
    assert(buffer[0] == instr_op(w));
    assert(instr_op(w) == 252u8);
    assert((<Instr as Encode>::spec_enc(w) + e)[1] == instr_enc(w)[1]);
    assert(buffer[1] == instr_fc_sub(w));
    assert(instr_fc_sub(w) == 10u8);
    match w {
        SpecInstr::MemoryCopy => {
            assert(uleb(10 as nat) =~= seq![10u8]);
            assert(buffer =~= seq![252u8] + (uleb(10 as nat) + (seq![0u8] + (seq![0u8] + (e)))));
            assert(buffer =~= seq![252u8, 10u8] + (seq![0u8] + (seq![0u8] + (e))));
            lemma_concat_cancel(seq![252u8, 10u8], c2, seq![252u8, 10u8], seq![0u8] + (seq![0u8] + (e)));
            assert(c2 == seq![0u8] + (seq![0u8] + (e)));
            lemma_concat_cancel(seq![0u8], c3, seq![0u8], seq![0u8] + (e));
            assert(c3 == seq![0u8] + (e));
            assert(c3 == seq![0u8] + (e));
            assert(c3.len() >= 1);
        },
        _ => {
            assert(false);
        },
    }
}

/// What a claimed parse says about the bytes where `MemoryCopy` got stuck.
#[verifier::rlimit(100)]
proof fn lemma_err_instr_memorycopy_3_mismatch(buffer: Seq<u8>, c2: Seq<u8>, c3: Seq<u8>)
    requires
        <Instr as Decode>::dec_ok(buffer),
        buffer == seq![252u8, 10u8] + c2,
        c2 == seq![0u8] + c3,
    ensures
        c3.len() >= 1 && c3[0] == 0u8,
{
    let (w, e) = choose|w: SpecInstr, e: Seq<u8>|
        <Instr as Encode>::spec_wf(w) && buffer == <Instr as Encode>::spec_enc(w)
            + e && <Instr as Decode>::tail_stop(e);
    lemma_instr_head(w);
    assert((<Instr as Encode>::spec_enc(w) + e)[0] == instr_enc(w)[0]);
    assert(buffer[0] == instr_op(w));
    assert(instr_op(w) == 252u8);
    assert((<Instr as Encode>::spec_enc(w) + e)[1] == instr_enc(w)[1]);
    assert(buffer[1] == instr_fc_sub(w));
    assert(instr_fc_sub(w) == 10u8);
    match w {
        SpecInstr::MemoryCopy => {
            assert(uleb(10 as nat) =~= seq![10u8]);
            assert(buffer =~= seq![252u8] + (uleb(10 as nat) + (seq![0u8] + (seq![0u8] + (e)))));
            assert(buffer =~= seq![252u8, 10u8] + (seq![0u8] + (seq![0u8] + (e))));
            lemma_concat_cancel(seq![252u8, 10u8], c2, seq![252u8, 10u8], seq![0u8] + (seq![0u8] + (e)));
            assert(c2 == seq![0u8] + (seq![0u8] + (e)));
            lemma_concat_cancel(seq![0u8], c3, seq![0u8], seq![0u8] + (e));
            assert(c3 == seq![0u8] + (e));
            assert(c3 == seq![0u8] + (e));
            assert(c3[0] == 0u8);
        },
        _ => {
            assert(false);
        },
    }
}

/// What a claimed parse says about the bytes where `MemoryFill` got stuck.
#[verifier::rlimit(100)]
proof fn lemma_err_instr_memoryfill_2_nobyte(buffer: Seq<u8>, c2: Seq<u8>)
    requires
        <Instr as Decode>::dec_ok(buffer),
        buffer == seq![252u8, 11u8] + c2,
    ensures
        c2.len() >= 1,
{
    let (w, e) = choose|w: SpecInstr, e: Seq<u8>|
        <Instr as Encode>::spec_wf(w) && buffer == <Instr as Encode>::spec_enc(w)
            + e && <Instr as Decode>::tail_stop(e);
    lemma_instr_head(w);
    assert((<Instr as Encode>::spec_enc(w) + e)[0] == instr_enc(w)[0]);
    assert(buffer[0] == instr_op(w));
    assert(instr_op(w) == 252u8);
    assert((<Instr as Encode>::spec_enc(w) + e)[1] == instr_enc(w)[1]);
    assert(buffer[1] == instr_fc_sub(w));
    assert(instr_fc_sub(w) == 11u8);
    match w {
        SpecInstr::MemoryFill => {
            assert(uleb(11 as nat) =~= seq![11u8]);
            assert(buffer =~= seq![252u8] + (uleb(11 as nat) + (seq![0u8] + (e))));
            assert(buffer =~= seq![252u8, 11u8] + (seq![0u8] + (e)));
            lemma_concat_cancel(seq![252u8, 11u8], c2, seq![252u8, 11u8], seq![0u8] + (e));
            assert(c2 == seq![0u8] + (e));
            assert(c2 == seq![0u8] + (e));
            assert(c2.len() >= 1);
        },
        _ => {
            assert(false);
        },
    }
}

/// What a claimed parse says about the bytes where `MemoryFill` got stuck.
#[verifier::rlimit(100)]
proof fn lemma_err_instr_memoryfill_2_mismatch(buffer: Seq<u8>, c2: Seq<u8>)
    requires
        <Instr as Decode>::dec_ok(buffer),
        buffer == seq![252u8, 11u8] + c2,
    ensures
        c2.len() >= 1 && c2[0] == 0u8,
{
    let (w, e) = choose|w: SpecInstr, e: Seq<u8>|
        <Instr as Encode>::spec_wf(w) && buffer == <Instr as Encode>::spec_enc(w)
            + e && <Instr as Decode>::tail_stop(e);
    lemma_instr_head(w);
    assert((<Instr as Encode>::spec_enc(w) + e)[0] == instr_enc(w)[0]);
    assert(buffer[0] == instr_op(w));
    assert(instr_op(w) == 252u8);
    assert((<Instr as Encode>::spec_enc(w) + e)[1] == instr_enc(w)[1]);
    assert(buffer[1] == instr_fc_sub(w));
    assert(instr_fc_sub(w) == 11u8);
    match w {
        SpecInstr::MemoryFill => {
            assert(uleb(11 as nat) =~= seq![11u8]);
            assert(buffer =~= seq![252u8] + (uleb(11 as nat) + (seq![0u8] + (e))));
            assert(buffer =~= seq![252u8, 11u8] + (seq![0u8] + (e)));
            lemma_concat_cancel(seq![252u8, 11u8], c2, seq![252u8, 11u8], seq![0u8] + (e));
            assert(c2 == seq![0u8] + (e));
            assert(c2 == seq![0u8] + (e));
            assert(c2[0] == 0u8);
        },
        _ => {
            assert(false);
        },
    }
}

/// What a claimed parse says about the bytes where `Block` got stuck.
#[verifier::rlimit(100)]
proof fn lemma_err_instr_block_1_fail(buffer: Seq<u8>, c1: Seq<u8>)
    requires
        <Instr as Decode>::dec_ok(buffer),
        buffer == seq![2u8] + c1,
    ensures
        <i32 as Decode>::dec_ok(c1),
{
    let (w, e) = choose|w: SpecInstr, e: Seq<u8>|
        <Instr as Encode>::spec_wf(w) && buffer == <Instr as Encode>::spec_enc(w)
            + e && <Instr as Decode>::tail_stop(e);
    lemma_instr_head(w);
    assert((<Instr as Encode>::spec_enc(w) + e)[0] == instr_enc(w)[0]);
    assert(buffer[0] == instr_op(w));
    assert(instr_op(w) == 2u8);
    match w {
        SpecInstr::Block(wv0, wv1) => {
            assert(buffer =~= seq![2u8] + (<i32 as Encode>::spec_enc(wv0) + (instr_seq_enc(wv1) + (seq![11u8] + (e)))));
            assert(buffer =~= seq![2u8] + (<i32 as Encode>::spec_enc(wv0) + (instr_seq_enc(wv1) + (seq![11u8] + (e)))));
            lemma_concat_cancel(seq![2u8], c1, seq![2u8], <i32 as Encode>::spec_enc(wv0) + (instr_seq_enc(wv1) + (seq![11u8] + (e))));
            assert(c1 == <i32 as Encode>::spec_enc(wv0) + (instr_seq_enc(wv1) + (seq![11u8] + (e))));
            assert(c1 == <i32 as Encode>::spec_enc(wv0) + (instr_seq_enc(wv1) + (seq![11u8] + (e))));
            <i32 as Decode>::lemma_plain(instr_seq_enc(wv1) + (seq![11u8] + (e)));
            <i32 as Decode>::lemma_covers(wv0, instr_seq_enc(wv1) + (seq![11u8] + (e)));
            assert(<i32 as Decode>::dec_ok(c1));
        },
        _ => {
            assert(false);
        },
    }
}

/// What a claimed parse says about the bytes where `Block` got stuck.
#[verifier::rlimit(100)]
proof fn lemma_err_instr_block_3_nobyte(buffer: Seq<u8>, c1: Seq<u8>, c2: Seq<u8>, w1: i32, c3: Seq<u8>, w2: Seq<SpecInstr>)
    requires
        <Instr as Decode>::dec_ok(buffer),
        buffer == seq![2u8] + c1,
        c1 == <i32 as Encode>::spec_enc(w1) + c2,
        <i32 as Encode>::spec_wf(w1),
        c2 == instr_seq_enc(w2) + c3,
        instr_seq_wf(w2),
        !<Instr as Decode>::dec_ok(c3),
    ensures
        c3.len() >= 1,
{
    let (w, e) = choose|w: SpecInstr, e: Seq<u8>|
        <Instr as Encode>::spec_wf(w) && buffer == <Instr as Encode>::spec_enc(w)
            + e && <Instr as Decode>::tail_stop(e);
    lemma_instr_head(w);
    assert((<Instr as Encode>::spec_enc(w) + e)[0] == instr_enc(w)[0]);
    assert(buffer[0] == instr_op(w));
    assert(instr_op(w) == 2u8);
    match w {
        SpecInstr::Block(wv0, wv1) => {
            assert(buffer =~= seq![2u8] + (<i32 as Encode>::spec_enc(wv0) + (instr_seq_enc(wv1) + (seq![11u8] + (e)))));
            assert(buffer =~= seq![2u8] + (<i32 as Encode>::spec_enc(wv0) + (instr_seq_enc(wv1) + (seq![11u8] + (e)))));
            lemma_concat_cancel(seq![2u8], c1, seq![2u8], <i32 as Encode>::spec_enc(wv0) + (instr_seq_enc(wv1) + (seq![11u8] + (e))));
            assert(c1 == <i32 as Encode>::spec_enc(wv0) + (instr_seq_enc(wv1) + (seq![11u8] + (e))));
            <i32 as Decode>::lemma_plain(c2);
            <i32 as Decode>::lemma_plain(instr_seq_enc(wv1) + (seq![11u8] + (e)));
            <i32 as Decode>::lemma_unamb(w1, wv0, c2, instr_seq_enc(wv1) + (seq![11u8] + (e)));
            assert(c2 == instr_seq_enc(wv1) + (seq![11u8] + (e)));
            assert((seq![11u8] + (e))[0] == 11u8);
            lemma_instr_sentinel(seq![11u8] + (e));
            lemma_instr_seq_unamb(w2, wv1, c3, seq![11u8] + (e));
            assert(c3 == seq![11u8] + (e));
            assert(c3 == seq![11u8] + (e));
            assert(c3.len() >= 1);
        },
        _ => {
            assert(false);
        },
    }
}

/// What a claimed parse says about the bytes where `Block` got stuck.
#[verifier::rlimit(100)]
proof fn lemma_err_instr_block_3_mismatch(buffer: Seq<u8>, c1: Seq<u8>, c2: Seq<u8>, w1: i32, c3: Seq<u8>, w2: Seq<SpecInstr>)
    requires
        <Instr as Decode>::dec_ok(buffer),
        buffer == seq![2u8] + c1,
        c1 == <i32 as Encode>::spec_enc(w1) + c2,
        <i32 as Encode>::spec_wf(w1),
        c2 == instr_seq_enc(w2) + c3,
        instr_seq_wf(w2),
        !<Instr as Decode>::dec_ok(c3),
    ensures
        c3.len() >= 1 && c3[0] == 11u8,
{
    let (w, e) = choose|w: SpecInstr, e: Seq<u8>|
        <Instr as Encode>::spec_wf(w) && buffer == <Instr as Encode>::spec_enc(w)
            + e && <Instr as Decode>::tail_stop(e);
    lemma_instr_head(w);
    assert((<Instr as Encode>::spec_enc(w) + e)[0] == instr_enc(w)[0]);
    assert(buffer[0] == instr_op(w));
    assert(instr_op(w) == 2u8);
    match w {
        SpecInstr::Block(wv0, wv1) => {
            assert(buffer =~= seq![2u8] + (<i32 as Encode>::spec_enc(wv0) + (instr_seq_enc(wv1) + (seq![11u8] + (e)))));
            assert(buffer =~= seq![2u8] + (<i32 as Encode>::spec_enc(wv0) + (instr_seq_enc(wv1) + (seq![11u8] + (e)))));
            lemma_concat_cancel(seq![2u8], c1, seq![2u8], <i32 as Encode>::spec_enc(wv0) + (instr_seq_enc(wv1) + (seq![11u8] + (e))));
            assert(c1 == <i32 as Encode>::spec_enc(wv0) + (instr_seq_enc(wv1) + (seq![11u8] + (e))));
            <i32 as Decode>::lemma_plain(c2);
            <i32 as Decode>::lemma_plain(instr_seq_enc(wv1) + (seq![11u8] + (e)));
            <i32 as Decode>::lemma_unamb(w1, wv0, c2, instr_seq_enc(wv1) + (seq![11u8] + (e)));
            assert(c2 == instr_seq_enc(wv1) + (seq![11u8] + (e)));
            assert((seq![11u8] + (e))[0] == 11u8);
            lemma_instr_sentinel(seq![11u8] + (e));
            lemma_instr_seq_unamb(w2, wv1, c3, seq![11u8] + (e));
            assert(c3 == seq![11u8] + (e));
            assert(c3 == seq![11u8] + (e));
            assert(c3[0] == 11u8);
        },
        _ => {
            assert(false);
        },
    }
}

/// What a claimed parse says about the bytes where `Loop` got stuck.
#[verifier::rlimit(100)]
proof fn lemma_err_instr_loop_1_fail(buffer: Seq<u8>, c1: Seq<u8>)
    requires
        <Instr as Decode>::dec_ok(buffer),
        buffer == seq![3u8] + c1,
    ensures
        <i32 as Decode>::dec_ok(c1),
{
    let (w, e) = choose|w: SpecInstr, e: Seq<u8>|
        <Instr as Encode>::spec_wf(w) && buffer == <Instr as Encode>::spec_enc(w)
            + e && <Instr as Decode>::tail_stop(e);
    lemma_instr_head(w);
    assert((<Instr as Encode>::spec_enc(w) + e)[0] == instr_enc(w)[0]);
    assert(buffer[0] == instr_op(w));
    assert(instr_op(w) == 3u8);
    match w {
        SpecInstr::Loop(wv0, wv1) => {
            assert(buffer =~= seq![3u8] + (<i32 as Encode>::spec_enc(wv0) + (instr_seq_enc(wv1) + (seq![11u8] + (e)))));
            assert(buffer =~= seq![3u8] + (<i32 as Encode>::spec_enc(wv0) + (instr_seq_enc(wv1) + (seq![11u8] + (e)))));
            lemma_concat_cancel(seq![3u8], c1, seq![3u8], <i32 as Encode>::spec_enc(wv0) + (instr_seq_enc(wv1) + (seq![11u8] + (e))));
            assert(c1 == <i32 as Encode>::spec_enc(wv0) + (instr_seq_enc(wv1) + (seq![11u8] + (e))));
            assert(c1 == <i32 as Encode>::spec_enc(wv0) + (instr_seq_enc(wv1) + (seq![11u8] + (e))));
            <i32 as Decode>::lemma_plain(instr_seq_enc(wv1) + (seq![11u8] + (e)));
            <i32 as Decode>::lemma_covers(wv0, instr_seq_enc(wv1) + (seq![11u8] + (e)));
            assert(<i32 as Decode>::dec_ok(c1));
        },
        _ => {
            assert(false);
        },
    }
}

/// What a claimed parse says about the bytes where `Loop` got stuck.
#[verifier::rlimit(100)]
proof fn lemma_err_instr_loop_3_nobyte(buffer: Seq<u8>, c1: Seq<u8>, c2: Seq<u8>, w1: i32, c3: Seq<u8>, w2: Seq<SpecInstr>)
    requires
        <Instr as Decode>::dec_ok(buffer),
        buffer == seq![3u8] + c1,
        c1 == <i32 as Encode>::spec_enc(w1) + c2,
        <i32 as Encode>::spec_wf(w1),
        c2 == instr_seq_enc(w2) + c3,
        instr_seq_wf(w2),
        !<Instr as Decode>::dec_ok(c3),
    ensures
        c3.len() >= 1,
{
    let (w, e) = choose|w: SpecInstr, e: Seq<u8>|
        <Instr as Encode>::spec_wf(w) && buffer == <Instr as Encode>::spec_enc(w)
            + e && <Instr as Decode>::tail_stop(e);
    lemma_instr_head(w);
    assert((<Instr as Encode>::spec_enc(w) + e)[0] == instr_enc(w)[0]);
    assert(buffer[0] == instr_op(w));
    assert(instr_op(w) == 3u8);
    match w {
        SpecInstr::Loop(wv0, wv1) => {
            assert(buffer =~= seq![3u8] + (<i32 as Encode>::spec_enc(wv0) + (instr_seq_enc(wv1) + (seq![11u8] + (e)))));
            assert(buffer =~= seq![3u8] + (<i32 as Encode>::spec_enc(wv0) + (instr_seq_enc(wv1) + (seq![11u8] + (e)))));
            lemma_concat_cancel(seq![3u8], c1, seq![3u8], <i32 as Encode>::spec_enc(wv0) + (instr_seq_enc(wv1) + (seq![11u8] + (e))));
            assert(c1 == <i32 as Encode>::spec_enc(wv0) + (instr_seq_enc(wv1) + (seq![11u8] + (e))));
            <i32 as Decode>::lemma_plain(c2);
            <i32 as Decode>::lemma_plain(instr_seq_enc(wv1) + (seq![11u8] + (e)));
            <i32 as Decode>::lemma_unamb(w1, wv0, c2, instr_seq_enc(wv1) + (seq![11u8] + (e)));
            assert(c2 == instr_seq_enc(wv1) + (seq![11u8] + (e)));
            assert((seq![11u8] + (e))[0] == 11u8);
            lemma_instr_sentinel(seq![11u8] + (e));
            lemma_instr_seq_unamb(w2, wv1, c3, seq![11u8] + (e));
            assert(c3 == seq![11u8] + (e));
            assert(c3 == seq![11u8] + (e));
            assert(c3.len() >= 1);
        },
        _ => {
            assert(false);
        },
    }
}

/// What a claimed parse says about the bytes where `Loop` got stuck.
#[verifier::rlimit(100)]
proof fn lemma_err_instr_loop_3_mismatch(buffer: Seq<u8>, c1: Seq<u8>, c2: Seq<u8>, w1: i32, c3: Seq<u8>, w2: Seq<SpecInstr>)
    requires
        <Instr as Decode>::dec_ok(buffer),
        buffer == seq![3u8] + c1,
        c1 == <i32 as Encode>::spec_enc(w1) + c2,
        <i32 as Encode>::spec_wf(w1),
        c2 == instr_seq_enc(w2) + c3,
        instr_seq_wf(w2),
        !<Instr as Decode>::dec_ok(c3),
    ensures
        c3.len() >= 1 && c3[0] == 11u8,
{
    let (w, e) = choose|w: SpecInstr, e: Seq<u8>|
        <Instr as Encode>::spec_wf(w) && buffer == <Instr as Encode>::spec_enc(w)
            + e && <Instr as Decode>::tail_stop(e);
    lemma_instr_head(w);
    assert((<Instr as Encode>::spec_enc(w) + e)[0] == instr_enc(w)[0]);
    assert(buffer[0] == instr_op(w));
    assert(instr_op(w) == 3u8);
    match w {
        SpecInstr::Loop(wv0, wv1) => {
            assert(buffer =~= seq![3u8] + (<i32 as Encode>::spec_enc(wv0) + (instr_seq_enc(wv1) + (seq![11u8] + (e)))));
            assert(buffer =~= seq![3u8] + (<i32 as Encode>::spec_enc(wv0) + (instr_seq_enc(wv1) + (seq![11u8] + (e)))));
            lemma_concat_cancel(seq![3u8], c1, seq![3u8], <i32 as Encode>::spec_enc(wv0) + (instr_seq_enc(wv1) + (seq![11u8] + (e))));
            assert(c1 == <i32 as Encode>::spec_enc(wv0) + (instr_seq_enc(wv1) + (seq![11u8] + (e))));
            <i32 as Decode>::lemma_plain(c2);
            <i32 as Decode>::lemma_plain(instr_seq_enc(wv1) + (seq![11u8] + (e)));
            <i32 as Decode>::lemma_unamb(w1, wv0, c2, instr_seq_enc(wv1) + (seq![11u8] + (e)));
            assert(c2 == instr_seq_enc(wv1) + (seq![11u8] + (e)));
            assert((seq![11u8] + (e))[0] == 11u8);
            lemma_instr_sentinel(seq![11u8] + (e));
            lemma_instr_seq_unamb(w2, wv1, c3, seq![11u8] + (e));
            assert(c3 == seq![11u8] + (e));
            assert(c3 == seq![11u8] + (e));
            assert(c3[0] == 11u8);
        },
        _ => {
            assert(false);
        },
    }
}

/// What a claimed parse says about the bytes where `If` got stuck.
#[verifier::rlimit(100)]
proof fn lemma_err_instr_if_1_fail(buffer: Seq<u8>, c1: Seq<u8>)
    requires
        <Instr as Decode>::dec_ok(buffer),
        buffer == seq![4u8] + c1,
    ensures
        <i32 as Decode>::dec_ok(c1),
{
    let (w, e) = choose|w: SpecInstr, e: Seq<u8>|
        <Instr as Encode>::spec_wf(w) && buffer == <Instr as Encode>::spec_enc(w)
            + e && <Instr as Decode>::tail_stop(e);
    lemma_instr_head(w);
    assert((<Instr as Encode>::spec_enc(w) + e)[0] == instr_enc(w)[0]);
    assert(buffer[0] == instr_op(w));
    assert(instr_op(w) == 4u8);
    match w {
        SpecInstr::If(wv0, wv1, wv2) => {
            assert(buffer =~= seq![4u8] + (<i32 as Encode>::spec_enc(wv0) + (instr_seq_enc(wv1) + (else_enc(wv2) + (e)))));
            assert(buffer =~= seq![4u8] + (<i32 as Encode>::spec_enc(wv0) + (instr_seq_enc(wv1) + (else_enc(wv2) + (e)))));
            lemma_concat_cancel(seq![4u8], c1, seq![4u8], <i32 as Encode>::spec_enc(wv0) + (instr_seq_enc(wv1) + (else_enc(wv2) + (e))));
            assert(c1 == <i32 as Encode>::spec_enc(wv0) + (instr_seq_enc(wv1) + (else_enc(wv2) + (e))));
            assert(c1 == <i32 as Encode>::spec_enc(wv0) + (instr_seq_enc(wv1) + (else_enc(wv2) + (e))));
            <i32 as Decode>::lemma_plain(instr_seq_enc(wv1) + (else_enc(wv2) + (e)));
            <i32 as Decode>::lemma_covers(wv0, instr_seq_enc(wv1) + (else_enc(wv2) + (e)));
            assert(<i32 as Decode>::dec_ok(c1));
        },
        _ => {
            assert(false);
        },
    }
}

/// What a claimed parse says about the bytes where `If` got stuck.
#[verifier::rlimit(100)]
proof fn lemma_err_instr_if_3_fail(buffer: Seq<u8>, c1: Seq<u8>, c2: Seq<u8>, w1: i32, c3: Seq<u8>, w2: Seq<SpecInstr>)
    requires
        <Instr as Decode>::dec_ok(buffer),
        buffer == seq![4u8] + c1,
        c1 == <i32 as Encode>::spec_enc(w1) + c2,
        <i32 as Encode>::spec_wf(w1),
        c2 == instr_seq_enc(w2) + c3,
        instr_seq_wf(w2),
        !<Instr as Decode>::dec_ok(c3),
    ensures
        <Else as Decode>::dec_ok(c3),
{
    let (w, e) = choose|w: SpecInstr, e: Seq<u8>|
        <Instr as Encode>::spec_wf(w) && buffer == <Instr as Encode>::spec_enc(w)
            + e && <Instr as Decode>::tail_stop(e);
    lemma_instr_head(w);
    assert((<Instr as Encode>::spec_enc(w) + e)[0] == instr_enc(w)[0]);
    assert(buffer[0] == instr_op(w));
    assert(instr_op(w) == 4u8);
    match w {
        SpecInstr::If(wv0, wv1, wv2) => {
            assert(buffer =~= seq![4u8] + (<i32 as Encode>::spec_enc(wv0) + (instr_seq_enc(wv1) + (else_enc(wv2) + (e)))));
            assert(buffer =~= seq![4u8] + (<i32 as Encode>::spec_enc(wv0) + (instr_seq_enc(wv1) + (else_enc(wv2) + (e)))));
            lemma_concat_cancel(seq![4u8], c1, seq![4u8], <i32 as Encode>::spec_enc(wv0) + (instr_seq_enc(wv1) + (else_enc(wv2) + (e))));
            assert(c1 == <i32 as Encode>::spec_enc(wv0) + (instr_seq_enc(wv1) + (else_enc(wv2) + (e))));
            <i32 as Decode>::lemma_plain(c2);
            <i32 as Decode>::lemma_plain(instr_seq_enc(wv1) + (else_enc(wv2) + (e)));
            <i32 as Decode>::lemma_unamb(w1, wv0, c2, instr_seq_enc(wv1) + (else_enc(wv2) + (e)));
            assert(c2 == instr_seq_enc(wv1) + (else_enc(wv2) + (e)));
            lemma_else_head(wv2);
            assert((else_enc(wv2) + (e))[0] == else_enc(wv2)[0]);
            lemma_instr_sentinel(else_enc(wv2) + (e));
            lemma_instr_seq_unamb(w2, wv1, c3, else_enc(wv2) + (e));
            assert(c3 == else_enc(wv2) + (e));
            assert(c3 == else_enc(wv2) + (e));
            assert(<Else as Decode>::dec_ok(c3)) by {
                assert(<Else as Encode>::spec_wf(wv2) && c3
                    == <Else as Encode>::spec_enc(wv2) + (e)
                    && <Else as Decode>::tail_stop(e));
            }
        },
        _ => {
            assert(false);
        },
    }
}

/// What a claimed parse says about the bytes where `Br` got stuck.
#[verifier::rlimit(100)]
proof fn lemma_err_instr_br_1_fail(buffer: Seq<u8>, c1: Seq<u8>)
    requires
        <Instr as Decode>::dec_ok(buffer),
        buffer == seq![12u8] + c1,
    ensures
        <LabelIdx as Decode>::dec_ok(c1),
{
    let (w, e) = choose|w: SpecInstr, e: Seq<u8>|
        <Instr as Encode>::spec_wf(w) && buffer == <Instr as Encode>::spec_enc(w)
            + e && <Instr as Decode>::tail_stop(e);
    lemma_instr_head(w);
    assert((<Instr as Encode>::spec_enc(w) + e)[0] == instr_enc(w)[0]);
    assert(buffer[0] == instr_op(w));
    assert(instr_op(w) == 12u8);
    match w {
        SpecInstr::Br(wv0) => {
            assert(buffer =~= seq![12u8] + (<LabelIdx as Encode>::spec_enc(wv0) + (e)));
            assert(buffer =~= seq![12u8] + (<LabelIdx as Encode>::spec_enc(wv0) + (e)));
            lemma_concat_cancel(seq![12u8], c1, seq![12u8], <LabelIdx as Encode>::spec_enc(wv0) + (e));
            assert(c1 == <LabelIdx as Encode>::spec_enc(wv0) + (e));
            assert(c1 == <LabelIdx as Encode>::spec_enc(wv0) + (e));
            <LabelIdx as Decode>::lemma_plain(e);
            <LabelIdx as Decode>::lemma_covers(wv0, e);
            assert(<LabelIdx as Decode>::dec_ok(c1));
        },
        _ => {
            assert(false);
        },
    }
}

/// What a claimed parse says about the bytes where `BrIf` got stuck.
#[verifier::rlimit(100)]
proof fn lemma_err_instr_brif_1_fail(buffer: Seq<u8>, c1: Seq<u8>)
    requires
        <Instr as Decode>::dec_ok(buffer),
        buffer == seq![13u8] + c1,
    ensures
        <LabelIdx as Decode>::dec_ok(c1),
{
    let (w, e) = choose|w: SpecInstr, e: Seq<u8>|
        <Instr as Encode>::spec_wf(w) && buffer == <Instr as Encode>::spec_enc(w)
            + e && <Instr as Decode>::tail_stop(e);
    lemma_instr_head(w);
    assert((<Instr as Encode>::spec_enc(w) + e)[0] == instr_enc(w)[0]);
    assert(buffer[0] == instr_op(w));
    assert(instr_op(w) == 13u8);
    match w {
        SpecInstr::BrIf(wv0) => {
            assert(buffer =~= seq![13u8] + (<LabelIdx as Encode>::spec_enc(wv0) + (e)));
            assert(buffer =~= seq![13u8] + (<LabelIdx as Encode>::spec_enc(wv0) + (e)));
            lemma_concat_cancel(seq![13u8], c1, seq![13u8], <LabelIdx as Encode>::spec_enc(wv0) + (e));
            assert(c1 == <LabelIdx as Encode>::spec_enc(wv0) + (e));
            assert(c1 == <LabelIdx as Encode>::spec_enc(wv0) + (e));
            <LabelIdx as Decode>::lemma_plain(e);
            <LabelIdx as Decode>::lemma_covers(wv0, e);
            assert(<LabelIdx as Decode>::dec_ok(c1));
        },
        _ => {
            assert(false);
        },
    }
}

/// What a claimed parse says about the bytes where `BrTable` got stuck.
#[verifier::rlimit(100)]
proof fn lemma_err_instr_brtable_1_fail(buffer: Seq<u8>, c1: Seq<u8>)
    requires
        <Instr as Decode>::dec_ok(buffer),
        buffer == seq![14u8] + c1,
    ensures
        <Vec<LabelIdx> as Decode>::dec_ok(c1),
{
    let (w, e) = choose|w: SpecInstr, e: Seq<u8>|
        <Instr as Encode>::spec_wf(w) && buffer == <Instr as Encode>::spec_enc(w)
            + e && <Instr as Decode>::tail_stop(e);
    lemma_instr_head(w);
    assert((<Instr as Encode>::spec_enc(w) + e)[0] == instr_enc(w)[0]);
    assert(buffer[0] == instr_op(w));
    assert(instr_op(w) == 14u8);
    match w {
        SpecInstr::BrTable(wv0, wv1) => {
            assert(buffer =~= seq![14u8] + (<Vec<LabelIdx> as Encode>::spec_enc(wv0) + (<LabelIdx as Encode>::spec_enc(wv1) + (e))));
            assert(buffer =~= seq![14u8] + (<Vec<LabelIdx> as Encode>::spec_enc(wv0) + (<LabelIdx as Encode>::spec_enc(wv1) + (e))));
            lemma_concat_cancel(seq![14u8], c1, seq![14u8], <Vec<LabelIdx> as Encode>::spec_enc(wv0) + (<LabelIdx as Encode>::spec_enc(wv1) + (e)));
            assert(c1 == <Vec<LabelIdx> as Encode>::spec_enc(wv0) + (<LabelIdx as Encode>::spec_enc(wv1) + (e)));
            assert(c1 == <Vec<LabelIdx> as Encode>::spec_enc(wv0) + (<LabelIdx as Encode>::spec_enc(wv1) + (e)));
            <Vec<LabelIdx> as Decode>::lemma_plain(<LabelIdx as Encode>::spec_enc(wv1) + (e));
            <Vec<LabelIdx> as Decode>::lemma_covers(wv0, <LabelIdx as Encode>::spec_enc(wv1) + (e));
            assert(<Vec<LabelIdx> as Decode>::dec_ok(c1));
        },
        _ => {
            assert(false);
        },
    }
}

/// What a claimed parse says about the bytes where `BrTable` got stuck.
#[verifier::rlimit(100)]
proof fn lemma_err_instr_brtable_2_fail(buffer: Seq<u8>, c1: Seq<u8>, c2: Seq<u8>, w1: Seq<LabelIdx>)
    requires
        <Instr as Decode>::dec_ok(buffer),
        buffer == seq![14u8] + c1,
        c1 == <Vec<LabelIdx> as Encode>::spec_enc(w1) + c2,
        <Vec<LabelIdx> as Encode>::spec_wf(w1),
    ensures
        <LabelIdx as Decode>::dec_ok(c2),
{
    let (w, e) = choose|w: SpecInstr, e: Seq<u8>|
        <Instr as Encode>::spec_wf(w) && buffer == <Instr as Encode>::spec_enc(w)
            + e && <Instr as Decode>::tail_stop(e);
    lemma_instr_head(w);
    assert((<Instr as Encode>::spec_enc(w) + e)[0] == instr_enc(w)[0]);
    assert(buffer[0] == instr_op(w));
    assert(instr_op(w) == 14u8);
    match w {
        SpecInstr::BrTable(wv0, wv1) => {
            assert(buffer =~= seq![14u8] + (<Vec<LabelIdx> as Encode>::spec_enc(wv0) + (<LabelIdx as Encode>::spec_enc(wv1) + (e))));
            assert(buffer =~= seq![14u8] + (<Vec<LabelIdx> as Encode>::spec_enc(wv0) + (<LabelIdx as Encode>::spec_enc(wv1) + (e))));
            lemma_concat_cancel(seq![14u8], c1, seq![14u8], <Vec<LabelIdx> as Encode>::spec_enc(wv0) + (<LabelIdx as Encode>::spec_enc(wv1) + (e)));
            assert(c1 == <Vec<LabelIdx> as Encode>::spec_enc(wv0) + (<LabelIdx as Encode>::spec_enc(wv1) + (e)));
            <Vec<LabelIdx> as Decode>::lemma_plain(c2);
            <Vec<LabelIdx> as Decode>::lemma_plain(<LabelIdx as Encode>::spec_enc(wv1) + (e));
            <Vec<LabelIdx> as Decode>::lemma_unamb(w1, wv0, c2, <LabelIdx as Encode>::spec_enc(wv1) + (e));
            assert(c2 == <LabelIdx as Encode>::spec_enc(wv1) + (e));
            assert(c2 == <LabelIdx as Encode>::spec_enc(wv1) + (e));
            <LabelIdx as Decode>::lemma_plain(e);
            <LabelIdx as Decode>::lemma_covers(wv1, e);
            assert(<LabelIdx as Decode>::dec_ok(c2));
        },
        _ => {
            assert(false);
        },
    }
}

/// What a claimed parse says about the bytes where `Call` got stuck.
#[verifier::rlimit(100)]
proof fn lemma_err_instr_call_1_fail(buffer: Seq<u8>, c1: Seq<u8>)
    requires
        <Instr as Decode>::dec_ok(buffer),
        buffer == seq![16u8] + c1,
    ensures
        <FuncIdx as Decode>::dec_ok(c1),
{
    let (w, e) = choose|w: SpecInstr, e: Seq<u8>|
        <Instr as Encode>::spec_wf(w) && buffer == <Instr as Encode>::spec_enc(w)
            + e && <Instr as Decode>::tail_stop(e);
    lemma_instr_head(w);
    assert((<Instr as Encode>::spec_enc(w) + e)[0] == instr_enc(w)[0]);
    assert(buffer[0] == instr_op(w));
    assert(instr_op(w) == 16u8);
    match w {
        SpecInstr::Call(wv0) => {
            assert(buffer =~= seq![16u8] + (<FuncIdx as Encode>::spec_enc(wv0) + (e)));
            assert(buffer =~= seq![16u8] + (<FuncIdx as Encode>::spec_enc(wv0) + (e)));
            lemma_concat_cancel(seq![16u8], c1, seq![16u8], <FuncIdx as Encode>::spec_enc(wv0) + (e));
            assert(c1 == <FuncIdx as Encode>::spec_enc(wv0) + (e));
            assert(c1 == <FuncIdx as Encode>::spec_enc(wv0) + (e));
            <FuncIdx as Decode>::lemma_plain(e);
            <FuncIdx as Decode>::lemma_covers(wv0, e);
            assert(<FuncIdx as Decode>::dec_ok(c1));
        },
        _ => {
            assert(false);
        },
    }
}

/// What a claimed parse says about the bytes where `CallIndirect` got stuck.
#[verifier::rlimit(100)]
proof fn lemma_err_instr_callindirect_1_fail(buffer: Seq<u8>, c1: Seq<u8>)
    requires
        <Instr as Decode>::dec_ok(buffer),
        buffer == seq![17u8] + c1,
    ensures
        <TypeIdx as Decode>::dec_ok(c1),
{
    let (w, e) = choose|w: SpecInstr, e: Seq<u8>|
        <Instr as Encode>::spec_wf(w) && buffer == <Instr as Encode>::spec_enc(w)
            + e && <Instr as Decode>::tail_stop(e);
    lemma_instr_head(w);
    assert((<Instr as Encode>::spec_enc(w) + e)[0] == instr_enc(w)[0]);
    assert(buffer[0] == instr_op(w));
    assert(instr_op(w) == 17u8);
    match w {
        SpecInstr::CallIndirect(wv0, wv1) => {
            assert(buffer =~= seq![17u8] + (<TypeIdx as Encode>::spec_enc(wv0) + (<TableIdx as Encode>::spec_enc(wv1) + (e))));
            assert(buffer =~= seq![17u8] + (<TypeIdx as Encode>::spec_enc(wv0) + (<TableIdx as Encode>::spec_enc(wv1) + (e))));
            lemma_concat_cancel(seq![17u8], c1, seq![17u8], <TypeIdx as Encode>::spec_enc(wv0) + (<TableIdx as Encode>::spec_enc(wv1) + (e)));
            assert(c1 == <TypeIdx as Encode>::spec_enc(wv0) + (<TableIdx as Encode>::spec_enc(wv1) + (e)));
            assert(c1 == <TypeIdx as Encode>::spec_enc(wv0) + (<TableIdx as Encode>::spec_enc(wv1) + (e)));
            <TypeIdx as Decode>::lemma_plain(<TableIdx as Encode>::spec_enc(wv1) + (e));
            <TypeIdx as Decode>::lemma_covers(wv0, <TableIdx as Encode>::spec_enc(wv1) + (e));
            assert(<TypeIdx as Decode>::dec_ok(c1));
        },
        _ => {
            assert(false);
        },
    }
}

/// What a claimed parse says about the bytes where `CallIndirect` got stuck.
#[verifier::rlimit(100)]
proof fn lemma_err_instr_callindirect_2_fail(buffer: Seq<u8>, c1: Seq<u8>, c2: Seq<u8>, w1: TypeIdx)
    requires
        <Instr as Decode>::dec_ok(buffer),
        buffer == seq![17u8] + c1,
        c1 == <TypeIdx as Encode>::spec_enc(w1) + c2,
        <TypeIdx as Encode>::spec_wf(w1),
    ensures
        <TableIdx as Decode>::dec_ok(c2),
{
    let (w, e) = choose|w: SpecInstr, e: Seq<u8>|
        <Instr as Encode>::spec_wf(w) && buffer == <Instr as Encode>::spec_enc(w)
            + e && <Instr as Decode>::tail_stop(e);
    lemma_instr_head(w);
    assert((<Instr as Encode>::spec_enc(w) + e)[0] == instr_enc(w)[0]);
    assert(buffer[0] == instr_op(w));
    assert(instr_op(w) == 17u8);
    match w {
        SpecInstr::CallIndirect(wv0, wv1) => {
            assert(buffer =~= seq![17u8] + (<TypeIdx as Encode>::spec_enc(wv0) + (<TableIdx as Encode>::spec_enc(wv1) + (e))));
            assert(buffer =~= seq![17u8] + (<TypeIdx as Encode>::spec_enc(wv0) + (<TableIdx as Encode>::spec_enc(wv1) + (e))));
            lemma_concat_cancel(seq![17u8], c1, seq![17u8], <TypeIdx as Encode>::spec_enc(wv0) + (<TableIdx as Encode>::spec_enc(wv1) + (e)));
            assert(c1 == <TypeIdx as Encode>::spec_enc(wv0) + (<TableIdx as Encode>::spec_enc(wv1) + (e)));
            <TypeIdx as Decode>::lemma_plain(c2);
            <TypeIdx as Decode>::lemma_plain(<TableIdx as Encode>::spec_enc(wv1) + (e));
            <TypeIdx as Decode>::lemma_unamb(w1, wv0, c2, <TableIdx as Encode>::spec_enc(wv1) + (e));
            assert(c2 == <TableIdx as Encode>::spec_enc(wv1) + (e));
            assert(c2 == <TableIdx as Encode>::spec_enc(wv1) + (e));
            <TableIdx as Decode>::lemma_plain(e);
            <TableIdx as Decode>::lemma_covers(wv1, e);
            assert(<TableIdx as Decode>::dec_ok(c2));
        },
        _ => {
            assert(false);
        },
    }
}

/// What a claimed parse says about the bytes where `SelectTys` got stuck.
#[verifier::rlimit(100)]
proof fn lemma_err_instr_selecttys_1_fail(buffer: Seq<u8>, c1: Seq<u8>)
    requires
        <Instr as Decode>::dec_ok(buffer),
        buffer == seq![28u8] + c1,
    ensures
        <Vec<ValType> as Decode>::dec_ok(c1),
{
    let (w, e) = choose|w: SpecInstr, e: Seq<u8>|
        <Instr as Encode>::spec_wf(w) && buffer == <Instr as Encode>::spec_enc(w)
            + e && <Instr as Decode>::tail_stop(e);
    lemma_instr_head(w);
    assert((<Instr as Encode>::spec_enc(w) + e)[0] == instr_enc(w)[0]);
    assert(buffer[0] == instr_op(w));
    assert(instr_op(w) == 28u8);
    match w {
        SpecInstr::SelectTys(wv0) => {
            assert(buffer =~= seq![28u8] + (<Vec<ValType> as Encode>::spec_enc(wv0) + (e)));
            assert(buffer =~= seq![28u8] + (<Vec<ValType> as Encode>::spec_enc(wv0) + (e)));
            lemma_concat_cancel(seq![28u8], c1, seq![28u8], <Vec<ValType> as Encode>::spec_enc(wv0) + (e));
            assert(c1 == <Vec<ValType> as Encode>::spec_enc(wv0) + (e));
            assert(c1 == <Vec<ValType> as Encode>::spec_enc(wv0) + (e));
            <Vec<ValType> as Decode>::lemma_plain(e);
            <Vec<ValType> as Decode>::lemma_covers(wv0, e);
            assert(<Vec<ValType> as Decode>::dec_ok(c1));
        },
        _ => {
            assert(false);
        },
    }
}

/// What a claimed parse says about the bytes where `LocalGet` got stuck.
#[verifier::rlimit(100)]
proof fn lemma_err_instr_localget_1_fail(buffer: Seq<u8>, c1: Seq<u8>)
    requires
        <Instr as Decode>::dec_ok(buffer),
        buffer == seq![32u8] + c1,
    ensures
        <LocalIdx as Decode>::dec_ok(c1),
{
    let (w, e) = choose|w: SpecInstr, e: Seq<u8>|
        <Instr as Encode>::spec_wf(w) && buffer == <Instr as Encode>::spec_enc(w)
            + e && <Instr as Decode>::tail_stop(e);
    lemma_instr_head(w);
    assert((<Instr as Encode>::spec_enc(w) + e)[0] == instr_enc(w)[0]);
    assert(buffer[0] == instr_op(w));
    assert(instr_op(w) == 32u8);
    match w {
        SpecInstr::LocalGet(wv0) => {
            assert(buffer =~= seq![32u8] + (<LocalIdx as Encode>::spec_enc(wv0) + (e)));
            assert(buffer =~= seq![32u8] + (<LocalIdx as Encode>::spec_enc(wv0) + (e)));
            lemma_concat_cancel(seq![32u8], c1, seq![32u8], <LocalIdx as Encode>::spec_enc(wv0) + (e));
            assert(c1 == <LocalIdx as Encode>::spec_enc(wv0) + (e));
            assert(c1 == <LocalIdx as Encode>::spec_enc(wv0) + (e));
            <LocalIdx as Decode>::lemma_plain(e);
            <LocalIdx as Decode>::lemma_covers(wv0, e);
            assert(<LocalIdx as Decode>::dec_ok(c1));
        },
        _ => {
            assert(false);
        },
    }
}

/// What a claimed parse says about the bytes where `LocalSet` got stuck.
#[verifier::rlimit(100)]
proof fn lemma_err_instr_localset_1_fail(buffer: Seq<u8>, c1: Seq<u8>)
    requires
        <Instr as Decode>::dec_ok(buffer),
        buffer == seq![33u8] + c1,
    ensures
        <LocalIdx as Decode>::dec_ok(c1),
{
    let (w, e) = choose|w: SpecInstr, e: Seq<u8>|
        <Instr as Encode>::spec_wf(w) && buffer == <Instr as Encode>::spec_enc(w)
            + e && <Instr as Decode>::tail_stop(e);
    lemma_instr_head(w);
    assert((<Instr as Encode>::spec_enc(w) + e)[0] == instr_enc(w)[0]);
    assert(buffer[0] == instr_op(w));
    assert(instr_op(w) == 33u8);
    match w {
        SpecInstr::LocalSet(wv0) => {
            assert(buffer =~= seq![33u8] + (<LocalIdx as Encode>::spec_enc(wv0) + (e)));
            assert(buffer =~= seq![33u8] + (<LocalIdx as Encode>::spec_enc(wv0) + (e)));
            lemma_concat_cancel(seq![33u8], c1, seq![33u8], <LocalIdx as Encode>::spec_enc(wv0) + (e));
            assert(c1 == <LocalIdx as Encode>::spec_enc(wv0) + (e));
            assert(c1 == <LocalIdx as Encode>::spec_enc(wv0) + (e));
            <LocalIdx as Decode>::lemma_plain(e);
            <LocalIdx as Decode>::lemma_covers(wv0, e);
            assert(<LocalIdx as Decode>::dec_ok(c1));
        },
        _ => {
            assert(false);
        },
    }
}

/// What a claimed parse says about the bytes where `LocalTee` got stuck.
#[verifier::rlimit(100)]
proof fn lemma_err_instr_localtee_1_fail(buffer: Seq<u8>, c1: Seq<u8>)
    requires
        <Instr as Decode>::dec_ok(buffer),
        buffer == seq![34u8] + c1,
    ensures
        <LocalIdx as Decode>::dec_ok(c1),
{
    let (w, e) = choose|w: SpecInstr, e: Seq<u8>|
        <Instr as Encode>::spec_wf(w) && buffer == <Instr as Encode>::spec_enc(w)
            + e && <Instr as Decode>::tail_stop(e);
    lemma_instr_head(w);
    assert((<Instr as Encode>::spec_enc(w) + e)[0] == instr_enc(w)[0]);
    assert(buffer[0] == instr_op(w));
    assert(instr_op(w) == 34u8);
    match w {
        SpecInstr::LocalTee(wv0) => {
            assert(buffer =~= seq![34u8] + (<LocalIdx as Encode>::spec_enc(wv0) + (e)));
            assert(buffer =~= seq![34u8] + (<LocalIdx as Encode>::spec_enc(wv0) + (e)));
            lemma_concat_cancel(seq![34u8], c1, seq![34u8], <LocalIdx as Encode>::spec_enc(wv0) + (e));
            assert(c1 == <LocalIdx as Encode>::spec_enc(wv0) + (e));
            assert(c1 == <LocalIdx as Encode>::spec_enc(wv0) + (e));
            <LocalIdx as Decode>::lemma_plain(e);
            <LocalIdx as Decode>::lemma_covers(wv0, e);
            assert(<LocalIdx as Decode>::dec_ok(c1));
        },
        _ => {
            assert(false);
        },
    }
}

/// What a claimed parse says about the bytes where `GlobalGet` got stuck.
#[verifier::rlimit(100)]
proof fn lemma_err_instr_globalget_1_fail(buffer: Seq<u8>, c1: Seq<u8>)
    requires
        <Instr as Decode>::dec_ok(buffer),
        buffer == seq![35u8] + c1,
    ensures
        <GlobalIdx as Decode>::dec_ok(c1),
{
    let (w, e) = choose|w: SpecInstr, e: Seq<u8>|
        <Instr as Encode>::spec_wf(w) && buffer == <Instr as Encode>::spec_enc(w)
            + e && <Instr as Decode>::tail_stop(e);
    lemma_instr_head(w);
    assert((<Instr as Encode>::spec_enc(w) + e)[0] == instr_enc(w)[0]);
    assert(buffer[0] == instr_op(w));
    assert(instr_op(w) == 35u8);
    match w {
        SpecInstr::GlobalGet(wv0) => {
            assert(buffer =~= seq![35u8] + (<GlobalIdx as Encode>::spec_enc(wv0) + (e)));
            assert(buffer =~= seq![35u8] + (<GlobalIdx as Encode>::spec_enc(wv0) + (e)));
            lemma_concat_cancel(seq![35u8], c1, seq![35u8], <GlobalIdx as Encode>::spec_enc(wv0) + (e));
            assert(c1 == <GlobalIdx as Encode>::spec_enc(wv0) + (e));
            assert(c1 == <GlobalIdx as Encode>::spec_enc(wv0) + (e));
            <GlobalIdx as Decode>::lemma_plain(e);
            <GlobalIdx as Decode>::lemma_covers(wv0, e);
            assert(<GlobalIdx as Decode>::dec_ok(c1));
        },
        _ => {
            assert(false);
        },
    }
}

/// What a claimed parse says about the bytes where `GlobalSet` got stuck.
#[verifier::rlimit(100)]
proof fn lemma_err_instr_globalset_1_fail(buffer: Seq<u8>, c1: Seq<u8>)
    requires
        <Instr as Decode>::dec_ok(buffer),
        buffer == seq![36u8] + c1,
    ensures
        <GlobalIdx as Decode>::dec_ok(c1),
{
    let (w, e) = choose|w: SpecInstr, e: Seq<u8>|
        <Instr as Encode>::spec_wf(w) && buffer == <Instr as Encode>::spec_enc(w)
            + e && <Instr as Decode>::tail_stop(e);
    lemma_instr_head(w);
    assert((<Instr as Encode>::spec_enc(w) + e)[0] == instr_enc(w)[0]);
    assert(buffer[0] == instr_op(w));
    assert(instr_op(w) == 36u8);
    match w {
        SpecInstr::GlobalSet(wv0) => {
            assert(buffer =~= seq![36u8] + (<GlobalIdx as Encode>::spec_enc(wv0) + (e)));
            assert(buffer =~= seq![36u8] + (<GlobalIdx as Encode>::spec_enc(wv0) + (e)));
            lemma_concat_cancel(seq![36u8], c1, seq![36u8], <GlobalIdx as Encode>::spec_enc(wv0) + (e));
            assert(c1 == <GlobalIdx as Encode>::spec_enc(wv0) + (e));
            assert(c1 == <GlobalIdx as Encode>::spec_enc(wv0) + (e));
            <GlobalIdx as Decode>::lemma_plain(e);
            <GlobalIdx as Decode>::lemma_covers(wv0, e);
            assert(<GlobalIdx as Decode>::dec_ok(c1));
        },
        _ => {
            assert(false);
        },
    }
}

/// What a claimed parse says about the bytes where `TableGet` got stuck.
#[verifier::rlimit(100)]
proof fn lemma_err_instr_tableget_1_fail(buffer: Seq<u8>, c1: Seq<u8>)
    requires
        <Instr as Decode>::dec_ok(buffer),
        buffer == seq![37u8] + c1,
    ensures
        <TableIdx as Decode>::dec_ok(c1),
{
    let (w, e) = choose|w: SpecInstr, e: Seq<u8>|
        <Instr as Encode>::spec_wf(w) && buffer == <Instr as Encode>::spec_enc(w)
            + e && <Instr as Decode>::tail_stop(e);
    lemma_instr_head(w);
    assert((<Instr as Encode>::spec_enc(w) + e)[0] == instr_enc(w)[0]);
    assert(buffer[0] == instr_op(w));
    assert(instr_op(w) == 37u8);
    match w {
        SpecInstr::TableGet(wv0) => {
            assert(buffer =~= seq![37u8] + (<TableIdx as Encode>::spec_enc(wv0) + (e)));
            assert(buffer =~= seq![37u8] + (<TableIdx as Encode>::spec_enc(wv0) + (e)));
            lemma_concat_cancel(seq![37u8], c1, seq![37u8], <TableIdx as Encode>::spec_enc(wv0) + (e));
            assert(c1 == <TableIdx as Encode>::spec_enc(wv0) + (e));
            assert(c1 == <TableIdx as Encode>::spec_enc(wv0) + (e));
            <TableIdx as Decode>::lemma_plain(e);
            <TableIdx as Decode>::lemma_covers(wv0, e);
            assert(<TableIdx as Decode>::dec_ok(c1));
        },
        _ => {
            assert(false);
        },
    }
}

/// What a claimed parse says about the bytes where `TableSet` got stuck.
#[verifier::rlimit(100)]
proof fn lemma_err_instr_tableset_1_fail(buffer: Seq<u8>, c1: Seq<u8>)
    requires
        <Instr as Decode>::dec_ok(buffer),
        buffer == seq![38u8] + c1,
    ensures
        <TableIdx as Decode>::dec_ok(c1),
{
    let (w, e) = choose|w: SpecInstr, e: Seq<u8>|
        <Instr as Encode>::spec_wf(w) && buffer == <Instr as Encode>::spec_enc(w)
            + e && <Instr as Decode>::tail_stop(e);
    lemma_instr_head(w);
    assert((<Instr as Encode>::spec_enc(w) + e)[0] == instr_enc(w)[0]);
    assert(buffer[0] == instr_op(w));
    assert(instr_op(w) == 38u8);
    match w {
        SpecInstr::TableSet(wv0) => {
            assert(buffer =~= seq![38u8] + (<TableIdx as Encode>::spec_enc(wv0) + (e)));
            assert(buffer =~= seq![38u8] + (<TableIdx as Encode>::spec_enc(wv0) + (e)));
            lemma_concat_cancel(seq![38u8], c1, seq![38u8], <TableIdx as Encode>::spec_enc(wv0) + (e));
            assert(c1 == <TableIdx as Encode>::spec_enc(wv0) + (e));
            assert(c1 == <TableIdx as Encode>::spec_enc(wv0) + (e));
            <TableIdx as Decode>::lemma_plain(e);
            <TableIdx as Decode>::lemma_covers(wv0, e);
            assert(<TableIdx as Decode>::dec_ok(c1));
        },
        _ => {
            assert(false);
        },
    }
}

/// What a claimed parse says about the bytes where `MemorySize` got stuck.
#[verifier::rlimit(100)]
proof fn lemma_err_instr_memorysize_1_nobyte(buffer: Seq<u8>, c1: Seq<u8>)
    requires
        <Instr as Decode>::dec_ok(buffer),
        buffer == seq![63u8] + c1,
    ensures
        c1.len() >= 1,
{
    let (w, e) = choose|w: SpecInstr, e: Seq<u8>|
        <Instr as Encode>::spec_wf(w) && buffer == <Instr as Encode>::spec_enc(w)
            + e && <Instr as Decode>::tail_stop(e);
    lemma_instr_head(w);
    assert((<Instr as Encode>::spec_enc(w) + e)[0] == instr_enc(w)[0]);
    assert(buffer[0] == instr_op(w));
    assert(instr_op(w) == 63u8);
    match w {
        SpecInstr::MemorySize => {
            assert(buffer =~= seq![63u8] + (seq![0u8] + (e)));
            assert(buffer =~= seq![63u8] + (seq![0u8] + (e)));
            lemma_concat_cancel(seq![63u8], c1, seq![63u8], seq![0u8] + (e));
            assert(c1 == seq![0u8] + (e));
            assert(c1 == seq![0u8] + (e));
            assert(c1.len() >= 1);
        },
        _ => {
            assert(false);
        },
    }
}

/// What a claimed parse says about the bytes where `MemorySize` got stuck.
#[verifier::rlimit(100)]
proof fn lemma_err_instr_memorysize_1_mismatch(buffer: Seq<u8>, c1: Seq<u8>)
    requires
        <Instr as Decode>::dec_ok(buffer),
        buffer == seq![63u8] + c1,
    ensures
        c1.len() >= 1 && c1[0] == 0u8,
{
    let (w, e) = choose|w: SpecInstr, e: Seq<u8>|
        <Instr as Encode>::spec_wf(w) && buffer == <Instr as Encode>::spec_enc(w)
            + e && <Instr as Decode>::tail_stop(e);
    lemma_instr_head(w);
    assert((<Instr as Encode>::spec_enc(w) + e)[0] == instr_enc(w)[0]);
    assert(buffer[0] == instr_op(w));
    assert(instr_op(w) == 63u8);
    match w {
        SpecInstr::MemorySize => {
            assert(buffer =~= seq![63u8] + (seq![0u8] + (e)));
            assert(buffer =~= seq![63u8] + (seq![0u8] + (e)));
            lemma_concat_cancel(seq![63u8], c1, seq![63u8], seq![0u8] + (e));
            assert(c1 == seq![0u8] + (e));
            assert(c1 == seq![0u8] + (e));
            assert(c1[0] == 0u8);
        },
        _ => {
            assert(false);
        },
    }
}

/// What a claimed parse says about the bytes where `MemoryGrow` got stuck.
#[verifier::rlimit(100)]
proof fn lemma_err_instr_memorygrow_1_nobyte(buffer: Seq<u8>, c1: Seq<u8>)
    requires
        <Instr as Decode>::dec_ok(buffer),
        buffer == seq![64u8] + c1,
    ensures
        c1.len() >= 1,
{
    let (w, e) = choose|w: SpecInstr, e: Seq<u8>|
        <Instr as Encode>::spec_wf(w) && buffer == <Instr as Encode>::spec_enc(w)
            + e && <Instr as Decode>::tail_stop(e);
    lemma_instr_head(w);
    assert((<Instr as Encode>::spec_enc(w) + e)[0] == instr_enc(w)[0]);
    assert(buffer[0] == instr_op(w));
    assert(instr_op(w) == 64u8);
    match w {
        SpecInstr::MemoryGrow => {
            assert(buffer =~= seq![64u8] + (seq![0u8] + (e)));
            assert(buffer =~= seq![64u8] + (seq![0u8] + (e)));
            lemma_concat_cancel(seq![64u8], c1, seq![64u8], seq![0u8] + (e));
            assert(c1 == seq![0u8] + (e));
            assert(c1 == seq![0u8] + (e));
            assert(c1.len() >= 1);
        },
        _ => {
            assert(false);
        },
    }
}

/// What a claimed parse says about the bytes where `MemoryGrow` got stuck.
#[verifier::rlimit(100)]
proof fn lemma_err_instr_memorygrow_1_mismatch(buffer: Seq<u8>, c1: Seq<u8>)
    requires
        <Instr as Decode>::dec_ok(buffer),
        buffer == seq![64u8] + c1,
    ensures
        c1.len() >= 1 && c1[0] == 0u8,
{
    let (w, e) = choose|w: SpecInstr, e: Seq<u8>|
        <Instr as Encode>::spec_wf(w) && buffer == <Instr as Encode>::spec_enc(w)
            + e && <Instr as Decode>::tail_stop(e);
    lemma_instr_head(w);
    assert((<Instr as Encode>::spec_enc(w) + e)[0] == instr_enc(w)[0]);
    assert(buffer[0] == instr_op(w));
    assert(instr_op(w) == 64u8);
    match w {
        SpecInstr::MemoryGrow => {
            assert(buffer =~= seq![64u8] + (seq![0u8] + (e)));
            assert(buffer =~= seq![64u8] + (seq![0u8] + (e)));
            lemma_concat_cancel(seq![64u8], c1, seq![64u8], seq![0u8] + (e));
            assert(c1 == seq![0u8] + (e));
            assert(c1 == seq![0u8] + (e));
            assert(c1[0] == 0u8);
        },
        _ => {
            assert(false);
        },
    }
}

/// What a claimed parse says about the bytes where `RefNull` got stuck.
#[verifier::rlimit(100)]
proof fn lemma_err_instr_refnull_1_fail(buffer: Seq<u8>, c1: Seq<u8>)
    requires
        <Instr as Decode>::dec_ok(buffer),
        buffer == seq![208u8] + c1,
    ensures
        <RefType as Decode>::dec_ok(c1),
{
    let (w, e) = choose|w: SpecInstr, e: Seq<u8>|
        <Instr as Encode>::spec_wf(w) && buffer == <Instr as Encode>::spec_enc(w)
            + e && <Instr as Decode>::tail_stop(e);
    lemma_instr_head(w);
    assert((<Instr as Encode>::spec_enc(w) + e)[0] == instr_enc(w)[0]);
    assert(buffer[0] == instr_op(w));
    assert(instr_op(w) == 208u8);
    match w {
        SpecInstr::RefNull(wv0) => {
            assert(buffer =~= seq![208u8] + (<RefType as Encode>::spec_enc(wv0) + (e)));
            assert(buffer =~= seq![208u8] + (<RefType as Encode>::spec_enc(wv0) + (e)));
            lemma_concat_cancel(seq![208u8], c1, seq![208u8], <RefType as Encode>::spec_enc(wv0) + (e));
            assert(c1 == <RefType as Encode>::spec_enc(wv0) + (e));
            assert(c1 == <RefType as Encode>::spec_enc(wv0) + (e));
            <RefType as Decode>::lemma_plain(e);
            <RefType as Decode>::lemma_covers(wv0, e);
            assert(<RefType as Decode>::dec_ok(c1));
        },
        _ => {
            assert(false);
        },
    }
}

/// What a claimed parse says about the bytes where `RefFunc` got stuck.
#[verifier::rlimit(100)]
proof fn lemma_err_instr_reffunc_1_fail(buffer: Seq<u8>, c1: Seq<u8>)
    requires
        <Instr as Decode>::dec_ok(buffer),
        buffer == seq![210u8] + c1,
    ensures
        <FuncIdx as Decode>::dec_ok(c1),
{
    let (w, e) = choose|w: SpecInstr, e: Seq<u8>|
        <Instr as Encode>::spec_wf(w) && buffer == <Instr as Encode>::spec_enc(w)
            + e && <Instr as Decode>::tail_stop(e);
    lemma_instr_head(w);
    assert((<Instr as Encode>::spec_enc(w) + e)[0] == instr_enc(w)[0]);
    assert(buffer[0] == instr_op(w));
    assert(instr_op(w) == 210u8);
    match w {
        SpecInstr::RefFunc(wv0) => {
            assert(buffer =~= seq![210u8] + (<FuncIdx as Encode>::spec_enc(wv0) + (e)));
            assert(buffer =~= seq![210u8] + (<FuncIdx as Encode>::spec_enc(wv0) + (e)));
            lemma_concat_cancel(seq![210u8], c1, seq![210u8], <FuncIdx as Encode>::spec_enc(wv0) + (e));
            assert(c1 == <FuncIdx as Encode>::spec_enc(wv0) + (e));
            assert(c1 == <FuncIdx as Encode>::spec_enc(wv0) + (e));
            <FuncIdx as Decode>::lemma_plain(e);
            <FuncIdx as Decode>::lemma_covers(wv0, e);
            assert(<FuncIdx as Decode>::dec_ok(c1));
        },
        _ => {
            assert(false);
        },
    }
}

/// What a claimed parse says about the bytes where `I32Const` got stuck.
#[verifier::rlimit(100)]
proof fn lemma_err_instr_i32const_1_fail(buffer: Seq<u8>, c1: Seq<u8>)
    requires
        <Instr as Decode>::dec_ok(buffer),
        buffer == seq![65u8] + c1,
    ensures
        <i32 as Decode>::dec_ok(c1),
{
    let (w, e) = choose|w: SpecInstr, e: Seq<u8>|
        <Instr as Encode>::spec_wf(w) && buffer == <Instr as Encode>::spec_enc(w)
            + e && <Instr as Decode>::tail_stop(e);
    lemma_instr_head(w);
    assert((<Instr as Encode>::spec_enc(w) + e)[0] == instr_enc(w)[0]);
    assert(buffer[0] == instr_op(w));
    assert(instr_op(w) == 65u8);
    match w {
        SpecInstr::I32Const(wv0) => {
            assert(buffer =~= seq![65u8] + (<i32 as Encode>::spec_enc(wv0) + (e)));
            assert(buffer =~= seq![65u8] + (<i32 as Encode>::spec_enc(wv0) + (e)));
            lemma_concat_cancel(seq![65u8], c1, seq![65u8], <i32 as Encode>::spec_enc(wv0) + (e));
            assert(c1 == <i32 as Encode>::spec_enc(wv0) + (e));
            assert(c1 == <i32 as Encode>::spec_enc(wv0) + (e));
            <i32 as Decode>::lemma_plain(e);
            <i32 as Decode>::lemma_covers(wv0, e);
            assert(<i32 as Decode>::dec_ok(c1));
        },
        _ => {
            assert(false);
        },
    }
}

/// What a claimed parse says about the bytes where `I64Const` got stuck.
#[verifier::rlimit(100)]
proof fn lemma_err_instr_i64const_1_fail(buffer: Seq<u8>, c1: Seq<u8>)
    requires
        <Instr as Decode>::dec_ok(buffer),
        buffer == seq![66u8] + c1,
    ensures
        <i64 as Decode>::dec_ok(c1),
{
    let (w, e) = choose|w: SpecInstr, e: Seq<u8>|
        <Instr as Encode>::spec_wf(w) && buffer == <Instr as Encode>::spec_enc(w)
            + e && <Instr as Decode>::tail_stop(e);
    lemma_instr_head(w);
    assert((<Instr as Encode>::spec_enc(w) + e)[0] == instr_enc(w)[0]);
    assert(buffer[0] == instr_op(w));
    assert(instr_op(w) == 66u8);
    match w {
        SpecInstr::I64Const(wv0) => {
            assert(buffer =~= seq![66u8] + (<i64 as Encode>::spec_enc(wv0) + (e)));
            assert(buffer =~= seq![66u8] + (<i64 as Encode>::spec_enc(wv0) + (e)));
            lemma_concat_cancel(seq![66u8], c1, seq![66u8], <i64 as Encode>::spec_enc(wv0) + (e));
            assert(c1 == <i64 as Encode>::spec_enc(wv0) + (e));
            assert(c1 == <i64 as Encode>::spec_enc(wv0) + (e));
            <i64 as Decode>::lemma_plain(e);
            <i64 as Decode>::lemma_covers(wv0, e);
            assert(<i64 as Decode>::dec_ok(c1));
        },
        _ => {
            assert(false);
        },
    }
}

/// What a claimed parse says about the bytes where `F32Const` got stuck.
#[verifier::rlimit(100)]
proof fn lemma_err_instr_f32const_1_fail(buffer: Seq<u8>, c1: Seq<u8>)
    requires
        <Instr as Decode>::dec_ok(buffer),
        buffer == seq![67u8] + c1,
    ensures
        <F32Bits as Decode>::dec_ok(c1),
{
    let (w, e) = choose|w: SpecInstr, e: Seq<u8>|
        <Instr as Encode>::spec_wf(w) && buffer == <Instr as Encode>::spec_enc(w)
            + e && <Instr as Decode>::tail_stop(e);
    lemma_instr_head(w);
    assert((<Instr as Encode>::spec_enc(w) + e)[0] == instr_enc(w)[0]);
    assert(buffer[0] == instr_op(w));
    assert(instr_op(w) == 67u8);
    match w {
        SpecInstr::F32Const(wv0) => {
            assert(buffer =~= seq![67u8] + (<F32Bits as Encode>::spec_enc(wv0) + (e)));
            assert(buffer =~= seq![67u8] + (<F32Bits as Encode>::spec_enc(wv0) + (e)));
            lemma_concat_cancel(seq![67u8], c1, seq![67u8], <F32Bits as Encode>::spec_enc(wv0) + (e));
            assert(c1 == <F32Bits as Encode>::spec_enc(wv0) + (e));
            assert(c1 == <F32Bits as Encode>::spec_enc(wv0) + (e));
            <F32Bits as Decode>::lemma_plain(e);
            <F32Bits as Decode>::lemma_covers(wv0, e);
            assert(<F32Bits as Decode>::dec_ok(c1));
        },
        _ => {
            assert(false);
        },
    }
}

/// What a claimed parse says about the bytes where `F64Const` got stuck.
#[verifier::rlimit(100)]
proof fn lemma_err_instr_f64const_1_fail(buffer: Seq<u8>, c1: Seq<u8>)
    requires
        <Instr as Decode>::dec_ok(buffer),
        buffer == seq![68u8] + c1,
    ensures
        <F64Bits as Decode>::dec_ok(c1),
{
    let (w, e) = choose|w: SpecInstr, e: Seq<u8>|
        <Instr as Encode>::spec_wf(w) && buffer == <Instr as Encode>::spec_enc(w)
            + e && <Instr as Decode>::tail_stop(e);
    lemma_instr_head(w);
    assert((<Instr as Encode>::spec_enc(w) + e)[0] == instr_enc(w)[0]);
    assert(buffer[0] == instr_op(w));
    assert(instr_op(w) == 68u8);
    match w {
        SpecInstr::F64Const(wv0) => {
            assert(buffer =~= seq![68u8] + (<F64Bits as Encode>::spec_enc(wv0) + (e)));
            assert(buffer =~= seq![68u8] + (<F64Bits as Encode>::spec_enc(wv0) + (e)));
            lemma_concat_cancel(seq![68u8], c1, seq![68u8], <F64Bits as Encode>::spec_enc(wv0) + (e));
            assert(c1 == <F64Bits as Encode>::spec_enc(wv0) + (e));
            assert(c1 == <F64Bits as Encode>::spec_enc(wv0) + (e));
            <F64Bits as Decode>::lemma_plain(e);
            <F64Bits as Decode>::lemma_covers(wv0, e);
            assert(<F64Bits as Decode>::dec_ok(c1));
        },
        _ => {
            assert(false);
        },
    }
}

} // verus!
