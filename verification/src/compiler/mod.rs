//! The bytecode compiler: instructions, compiled functions and programs,
//! and compiling a checked program.
use vstd::prelude::*;
use crate::types::{Type, TypeView, TypeInfo, Table, TypedItem, TypedProgram};

pub mod capture;
pub mod codegen;
pub mod uses;

pub use capture::{collect_free_vars, find_captured_vars_in_block};

verus! {

/// The integer widths that values can be narrowed to.
#[derive(Debug, Clone, Copy, PartialEq, Eq)]
pub enum IntType {
    I8,
    I16,
    I32,
    I64,
    U8,
    U16,
    U32,
    U64,
}

/// The integer width of a type; any type that is not an integer is treated as `i64`.
pub open spec fn int_type_of(t: TypeView) -> IntType {
    match t {
        TypeView::I8 => IntType::I8,
        TypeView::I16 => IntType::I16,
        TypeView::I32 => IntType::I32,
        TypeView::U8 => IntType::U8,
        TypeView::U16 => IntType::U16,
        TypeView::U32 => IntType::U32,
        TypeView::U64 => IntType::U64,
        _ => IntType::I64,
    }
}

/// The integer width of a type; any type that is not an integer is treated as `i64`.
pub fn type_to_int_type(ty: &Type) -> (r: IntType)
    ensures
        r == int_type_of(ty@),
{
    match ty {
        Type::I8 => IntType::I8,
        Type::I16 => IntType::I16,
        Type::I32 => IntType::I32,
        Type::I64 => IntType::I64,
        Type::U8 => IntType::U8,
        Type::U16 => IntType::U16,
        Type::U32 => IntType::U32,
        Type::U64 => IntType::U64,
        _ => IntType::I64,
    }
}

/// Bytecode instructions. Every register operand is a `u16`; values are
/// untagged 8-byte slots. A float constant is kept as its literal text.
#[derive(Debug)]
pub enum Op {
    // Constants
    /// reg = i64 value
    LoadInt(u16, i64),
    /// reg = u64 value
    LoadUInt(u16, u64),
    /// reg = the float written by the text
    LoadFloat(u16, String),
    /// reg = bool value
    LoadBool(u16, bool),
    /// reg = string constant index
    LoadString(u16, u32),
    /// reg = nil
    LoadNil(u16),

    // Arithmetic (integer): dst, a, b
    AddInt(u16, u16, u16),
    SubInt(u16, u16, u16),
    MulInt(u16, u16, u16),
    DivInt(u16, u16, u16),
    ModInt(u16, u16, u16),
    PowInt(u16, u16, u16),
    NegInt(u16, u16),

    // Arithmetic (float)
    AddFloat(u16, u16, u16),
    SubFloat(u16, u16, u16),
    MulFloat(u16, u16, u16),
    DivFloat(u16, u16, u16),
    ModFloat(u16, u16, u16),
    PowFloat(u16, u16, u16),
    NegFloat(u16, u16),

    // String operations
    ConcatString(u16, u16, u16),

    // Comparison
    EqInt(u16, u16, u16),
    NeqInt(u16, u16, u16),
    LtInt(u16, u16, u16),
    LteInt(u16, u16, u16),
    GtInt(u16, u16, u16),
    GteInt(u16, u16, u16),

    EqFloat(u16, u16, u16),
    NeqFloat(u16, u16, u16),
    LtFloat(u16, u16, u16),
    LteFloat(u16, u16, u16),
    GtFloat(u16, u16, u16),
    GteFloat(u16, u16, u16),

    EqString(u16, u16, u16),
    NeqString(u16, u16, u16),
    LtString(u16, u16, u16),
    LteString(u16, u16, u16),
    GtString(u16, u16, u16),
    GteString(u16, u16, u16),

    EqBool(u16, u16, u16),
    NeqBool(u16, u16, u16),

    /// deep structural equality
    EqGeneric(u16, u16, u16),
    NeqGeneric(u16, u16, u16),

    // Logical
    Not(u16, u16),
    And(u16, u16, u16),
    Or(u16, u16, u16),

    // Bitwise
    BitAnd(u16, u16, u16),
    BitOr(u16, u16, u16),
    BitXor(u16, u16, u16),
    BitNot(u16, u16),
    ShiftLeft(u16, u16, u16),
    ShiftRight(u16, u16, u16),

    // Type conversions: dst, src
    IntToFloat(u16, u16),
    FloatToInt(u16, u16),
    /// nil on NaN, infinity or overflow
    FloatToIntSafe(u16, u16),
    IntToString(u16, u16),
    FloatToString(u16, u16),
    BoolToString(u16, u16),
    /// panics on failure
    StringToInt(u16, u16),
    /// panics on failure
    StringToFloat(u16, u16),
    /// gives an optional
    StringToIntSafe(u16, u16),
    StringToFloatSafe(u16, u16),
    /// narrow to a smaller integer type
    IntNarrow(u16, u16, IntType),
    IntNarrowSafe(u16, u16, IntType),
    /// widen a narrow integer to i64
    IntWiden(u16, u16),

    // Control flow: offsets are relative to the instruction itself
    Jump(i32),
    JumpIfTrue(u16, i32),
    JumpIfFalse(u16, i32),
    JumpIfNil(u16, i32),
    JumpIfNotNil(u16, i32),
    JumpIfError(u16, i32),

    // Functions
    /// dst = func(args...): dst, func_reg, arg_count; the arguments follow func_reg
    Call(u16, u16, u8),
    Return(u16),
    ReturnNil,
    ReturnError(u16),

    // Collections: dst, start_reg, count
    MakeArray(u16, u16, u16),
    /// dst, start_reg, entry_count (key/value pairs)
    MakeMap(u16, u16, u16),
    MakeTuple(u16, u16, u16),

    // Struct
    /// dst, type_id, field_count
    MakeStruct(u16, u32, u8),
    /// dst, obj, field_index
    GetField(u16, u16, u16),
    /// obj, field_index, value
    SetField(u16, u16, u16),

    // Enum
    /// dst, type_id, variant_index, field_count
    MakeEnum(u16, u32, u8, u8),
    GetEnumTag(u16, u16),
    /// dst, enum_val, field_index
    GetEnumField(u16, u16, u8),

    // Array/Map operations
    /// dst = arr[idx]
    GetIndex(u16, u16, u16),
    /// arr[idx] = val
    SetIndex(u16, u16, u16),
    ArrayLen(u16, u16),
    StringLen(u16, u16),
    MapLen(u16, u16),

    // Method calls (built-in): dst, obj, method_id, arg_count; the arguments follow obj
    CallMethod(u16, u16, u32, u8),
    CallCapability(u16, u16, u32, u8),

    // String interpolation
    StringConcat(u16, u16, u16),

    // Error handling
    MakeError(u16, u16),
    UnwrapError(u16, u16),
    IsError(u16, u16),
    IsNil(u16, u16),

    // Type testing
    /// dst, value, type_id
    IsType(u16, u16, u32),
    /// dst, value, variant_index
    IsEnumVariant(u16, u16, u8),

    // Range
    MakeRange(u16, u16, u16),

    // For loop support
    IterInit(u16, u16),
    /// value, done, iterator
    IterNext(u16, u16, u16),
    /// key, value, done, iterator
    IterNextKV(u16, u16, u16, u16),

    // Generic display
    DisplayToString(u16, u16),

    // Panic with the message in a register
    Panic(u16),

    // Identity test
    IsIdentical(u16, u16, u16),

    // Capture cells (for by-reference closure capture)
    MakeCell(u16, u16),
    CellGet(u16, u16),
    CellSet(u16, u16),

    // Closures: dst, func_idx_reg, capture_count
    MakeClosure(u16, u16, u16),

    Move(u16, u16),
    Nop,
    Halt,
}

/// Every register that `op` names is below `regs`, every run of registers
/// that it names ends at or below `regs`, and every string constant it
/// loads is below `strs`.
pub open spec fn op_fits(op: Op, regs: nat, strs: nat) -> bool {
    match op {
        Op::AddInt(a, b, c)
        | Op::SubInt(a, b, c)
        | Op::MulInt(a, b, c)
        | Op::DivInt(a, b, c)
        | Op::ModInt(a, b, c)
        | Op::PowInt(a, b, c)
        | Op::AddFloat(a, b, c)
        | Op::SubFloat(a, b, c)
        | Op::MulFloat(a, b, c)
        | Op::DivFloat(a, b, c)
        | Op::ModFloat(a, b, c)
        | Op::PowFloat(a, b, c)
        | Op::ConcatString(a, b, c)
        | Op::EqInt(a, b, c)
        | Op::NeqInt(a, b, c)
        | Op::LtInt(a, b, c)
        | Op::LteInt(a, b, c)
        | Op::GtInt(a, b, c)
        | Op::GteInt(a, b, c)
        | Op::EqFloat(a, b, c)
        | Op::NeqFloat(a, b, c)
        | Op::LtFloat(a, b, c)
        | Op::LteFloat(a, b, c)
        | Op::GtFloat(a, b, c)
        | Op::GteFloat(a, b, c)
        | Op::EqString(a, b, c)
        | Op::NeqString(a, b, c)
        | Op::LtString(a, b, c)
        | Op::LteString(a, b, c)
        | Op::GtString(a, b, c)
        | Op::GteString(a, b, c)
        | Op::EqBool(a, b, c)
        | Op::NeqBool(a, b, c)
        | Op::EqGeneric(a, b, c)
        | Op::NeqGeneric(a, b, c)
        | Op::And(a, b, c)
        | Op::Or(a, b, c)
        | Op::BitAnd(a, b, c)
        | Op::BitOr(a, b, c)
        | Op::BitXor(a, b, c)
        | Op::ShiftLeft(a, b, c)
        | Op::ShiftRight(a, b, c)
        | Op::GetIndex(a, b, c)
        | Op::SetIndex(a, b, c)
        | Op::StringConcat(a, b, c)
        | Op::MakeRange(a, b, c)
        | Op::IterNext(a, b, c)
        | Op::IsIdentical(a, b, c) => a < regs && b < regs && c < regs,
        Op::NegInt(a, b)
        | Op::NegFloat(a, b)
        | Op::Not(a, b)
        | Op::BitNot(a, b)
        | Op::IntToFloat(a, b)
        | Op::FloatToInt(a, b)
        | Op::FloatToIntSafe(a, b)
        | Op::IntToString(a, b)
        | Op::FloatToString(a, b)
        | Op::BoolToString(a, b)
        | Op::StringToInt(a, b)
        | Op::StringToFloat(a, b)
        | Op::StringToIntSafe(a, b)
        | Op::StringToFloatSafe(a, b)
        | Op::IntWiden(a, b)
        | Op::GetEnumTag(a, b)
        | Op::ArrayLen(a, b)
        | Op::StringLen(a, b)
        | Op::MapLen(a, b)
        | Op::MakeError(a, b)
        | Op::UnwrapError(a, b)
        | Op::IsError(a, b)
        | Op::IsNil(a, b)
        | Op::IterInit(a, b)
        | Op::DisplayToString(a, b)
        | Op::MakeCell(a, b)
        | Op::CellGet(a, b)
        | Op::CellSet(a, b)
        | Op::Move(a, b) => a < regs && b < regs,
        Op::LoadInt(d, _) | Op::LoadUInt(d, _) | Op::LoadFloat(d, _) | Op::LoadBool(d, _) | Op::LoadNil(d)
        | Op::Return(d) | Op::ReturnError(d) | Op::Panic(d) | Op::MakeStruct(d, _, _) | Op::MakeEnum(d, _, _, _)
        | Op::JumpIfTrue(d, _) | Op::JumpIfFalse(d, _) | Op::JumpIfNil(d, _) | Op::JumpIfNotNil(d, _)
        | Op::JumpIfError(d, _) => d < regs,
        Op::LoadString(d, i) => d < regs && i < strs,
        Op::IntNarrow(a, b, _) | Op::IntNarrowSafe(a, b, _) | Op::GetField(a, b, _) | Op::SetField(a, _, b)
        | Op::GetEnumField(a, b, _) | Op::IsType(a, b, _) | Op::IsEnumVariant(a, b, _)
        | Op::MakeClosure(a, b, _) => a < regs && b < regs,
        Op::Call(d, f, n) | Op::CallMethod(d, f, _, n) | Op::CallCapability(d, f, _, n) => d < regs && f + n < regs,
        Op::MakeArray(d, s, n) | Op::MakeTuple(d, s, n) => d < regs && s + n <= regs,
        Op::MakeMap(d, s, n) => d < regs && s + 2 * n <= regs,
        Op::IterNextKV(a, b, c, d) => a < regs && b < regs && c < regs && d < regs,
        Op::Jump(_) | Op::ReturnNil | Op::Nop | Op::Halt => true,
    }
}

/// The target of a jump at position `at` lies within `0..=len`.
pub open spec fn jump_fits(op: Op, at: int, len: int) -> bool {
    match op {
        Op::Jump(o) | Op::JumpIfTrue(_, o) | Op::JumpIfFalse(_, o) | Op::JumpIfNil(_, o)
        | Op::JumpIfNotNil(_, o) | Op::JumpIfError(_, o) => 0 <= at + o <= len,
        _ => true,
    }
}

/// Every instruction of `code` fits `regs` registers and `strs` string
/// constants, and every jump lands within the code or just after its end.
pub open spec fn code_fits(code: Seq<Op>, regs: nat, strs: nat) -> bool {
    forall|i: int| 0 <= i < code.len() ==> op_fits(#[trigger] code[i], regs, strs) && jump_fits(code[i], i, code.len() as int)
}

/// A fitting instruction still fits with more registers and more strings.
pub proof fn lemma_op_fits_mono(op: Op, regs: nat, strs: nat, regs2: nat, strs2: nat)
    requires
        op_fits(op, regs, strs),
        regs <= regs2,
        strs <= strs2,
    ensures
        op_fits(op, regs2, strs2),
{
}

/// Fitting code still fits with more registers and more strings.
pub proof fn lemma_code_fits_mono(code: Seq<Op>, regs: nat, strs: nat, regs2: nat, strs2: nat)
    requires
        code_fits(code, regs, strs),
        regs <= regs2,
        strs <= strs2,
    ensures
        code_fits(code, regs2, strs2),
{
    assert forall|i: int| 0 <= i < code.len() implies op_fits(#[trigger] code[i], regs2, strs2) by {
        lemma_op_fits_mono(code[i], regs, strs, regs2, strs2);
    }
}

/// A compiled function.
#[derive(Debug)]
pub struct CompiledFunction {
    pub name: String,
    pub param_count: u8,
    pub register_count: u16,
    pub code: Vec<Op>,
    pub param_types: Vec<Type>,
    pub return_type: Type,
    /// Source line for each instruction (1-indexed, 0 = unknown).
    pub line_table: Vec<u32>,
}

/// A compiled program.
#[derive(Debug)]
pub struct Program {
    pub functions: Vec<CompiledFunction>,
    pub strings: Vec<String>,
    /// Index into `functions` of `main`.
    pub entry_point: usize,
    pub type_info: TypeInfo,
    pub method_names: Vec<String>,
    /// Type name to type id: the id is the position.
    pub type_ids: Vec<String>,
    pub globals: Vec<(String, Type)>,
    /// Method name to the indices of the functions that implement it.
    pub method_lookup: Table<Vec<usize>>,
}

/// A compiled function is well formed: its code fits its registers and the
/// program's `strs` string constants, and it has a line for each instruction.
pub open spec fn function_fits(f: CompiledFunction, strs: nat) -> bool {
    code_fits(f.code@, f.register_count as nat, strs) && f.line_table@.len() == f.code@.len()
}

/// The item is a function named `main`.
pub open spec fn is_main_item(item: TypedItem) -> bool {
    item matches TypedItem::Function(f) && f.name@ == "main"@
}

/// The program defines a function named `main`.
pub open spec fn has_main(items: Seq<TypedItem>) -> bool {
    exists|i: int| 0 <= i < items.len() && is_main_item(#[trigger] items[i])
}

/// Compiles a checked program to bytecode.
pub fn compile(program: &TypedProgram) -> (r: Result<Program, String>)
    ensures
        !has_main(program.items@) ==> (r matches Err(m) && m@ == "entry module must define a `main` function"@),
        r matches Ok(p) ==> {
            &&& p.entry_point < p.functions@.len()
            &&& p.functions@[p.entry_point as int].name@ == "main"@
            &&& codegen::functions_fit(p.functions@, p.strings@.len() as nat)
        },
{
    codegen::compile_program(program)
}

} // verus!
