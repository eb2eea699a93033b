use vstd::prelude::*;
use crate::names::NameId;

verus! {

/// Handle of a type in a context's type table.
#[derive(Clone, Copy, Debug, PartialEq, Eq, Structural)]
pub struct TypeRef {
    pub index: usize,
}

/// Handle of a value (constant, parameter, function, global or instruction).
#[derive(Clone, Copy, Debug, PartialEq, Eq, Structural)]
pub struct ValueRef {
    pub index: usize,
}

/// Handle of a basic block.
#[derive(Clone, Copy, Debug, PartialEq, Eq, Structural)]
pub struct BlockRef {
    pub index: usize,
}

/// One entry of the type table. Types are interned: two entries of a
/// table are never equal, so equal handles mean equal types.
#[derive(Clone, Copy, Debug, PartialEq, Eq, Structural)]
pub enum TypeKind {
    Void,
    Label,
    Int(u32),
    Half,
    Float,
    Double,
    FP128,
    X86FP80,
    PPCFP128,
    X86MMX,
    /// Pointer to the given type.
    Pointer(TypeRef),
    /// A struct, by its index in the struct registry.
    Struct(usize),
    /// A function signature, by its index in the signature table.
    Function(usize),
}

/// A function signature: return type, ordered parameter types, variadic flag.
#[derive(Debug)]
pub struct Signature {
    pub ret: TypeRef,
    pub params: Vec<TypeRef>,
    pub variadic: bool,
}

/// A struct type: declared with a name, then given its body once.
#[derive(Debug)]
pub struct StructDef {
    pub name: NameId,
    pub body: Option<Vec<TypeRef>>,
    pub packed: bool,
}

#[derive(Clone, Copy, Debug, PartialEq, Eq, Structural)]
pub enum BinOp {
    Add,
    Sub,
    Mul,
    SDiv,
    UDiv,
    SRem,
    URem,
    And,
    Or,
    Xor,
    Shl,
    AShr,
    LShr,
}

#[derive(Clone, Copy, Debug, PartialEq, Eq, Structural)]
pub enum UnOp {
    Neg,
    FNeg,
    Not,
    IsNotNull,
}

#[derive(Clone, Copy, Debug, PartialEq, Eq, Structural)]
pub enum CastOp {
    IntToPtr,
    PtrToInt,
    BitCast,
    ZExt,
    SExt,
    Trunc,
    FPTrunc,
    TruncOrBitCast,
}

#[derive(Clone, Copy, Debug, PartialEq, Eq, Structural)]
pub enum IntPredicate {
    Eq,
    Ne,
    Ugt,
    Uge,
    Ult,
    Ule,
    Sgt,
    Sge,
    Slt,
    Sle,
}

#[derive(Clone, Copy, Debug, PartialEq, Eq, Structural)]
pub enum RealPredicate {
    False,
    True,
    Ord,
    Oeq,
    One,
    Ogt,
    Oge,
    Olt,
    Ole,
    Uno,
    Ueq,
    Une,
    Ugt,
    Uge,
    Ult,
    Ule,
}

/// The operation of an instruction, with its operands.
#[derive(Debug)]
pub enum Op {
    Alloca(TypeRef),
    ArrayAlloca(TypeRef, ValueRef),
    ArrayMalloc(TypeRef, ValueRef),
    Free(ValueRef),
    /// Address of field `index` of the struct that the pointer points to.
    StructGep(ValueRef, u32),
    /// Store a value through a pointer.
    Store(ValueRef, ValueRef),
    Load(ValueRef),
    Select(ValueRef, ValueRef, ValueRef),
    Cast(CastOp, ValueRef, TypeRef),
    InsertValue(ValueRef, ValueRef, u32),
    ExtractValue(ValueRef, u32),
    Binary(BinOp, ValueRef, ValueRef),
    Unary(UnOp, ValueRef),
    ICmp(IntPredicate, ValueRef, ValueRef),
    FCmp(RealPredicate, ValueRef, ValueRef),
    /// Call of a callee with arguments; the flag marks a tail call.
    Call(ValueRef, Vec<ValueRef>, bool),
    InBoundsGep(ValueRef, Vec<ValueRef>),
    /// A merge point of the given type; its incoming pairs are kept in the context.
    Phi(TypeRef),
    Br(BlockRef),
    CondBr(ValueRef, BlockRef, BlockRef),
    Switch(ValueRef, BlockRef, Vec<(ValueRef, BlockRef)>),
    Ret(ValueRef),
    RetVoid,
}

/// What a value is.
#[derive(Debug)]
pub enum ValueKind {
    ConstInt { value: u64, signed: bool },
    ConstNull,
    /// A constant reinterpreted as another type.
    ConstCast(ValueRef),
    Param { func: usize, position: usize },
    Function(usize),
    /// A constant byte string of a module; the value is a pointer to it.
    GlobalString { module: usize, text: Vec<u8> },
    /// An instruction, appended to a block.
    Inst { block: BlockRef, op: Op },
}

/// A value and its type.
#[derive(Debug)]
pub struct ValueDef {
    pub ty: TypeRef,
    pub name: NameId,
    pub kind: ValueKind,
}

/// A function of a module. Its parameters are the values
/// `first_param .. first_param + param_count`.
#[derive(Debug)]
pub struct FunctionDef {
    pub module: usize,
    pub name: NameId,
    pub ty: TypeRef,
    pub value: ValueRef,
    pub first_param: usize,
    pub param_count: usize,
}

/// A basic block of a function. Its instructions are the values whose
/// kind names the block, in order of emission.
#[derive(Clone, Copy, Debug, PartialEq, Eq, Structural)]
pub struct BlockDef {
    pub func: usize,
    pub name: NameId,
}

/// One (value, predecessor block) pair of a phi.
#[derive(Clone, Copy, Debug, PartialEq, Eq, Structural)]
pub struct Incoming {
    pub phi: ValueRef,
    pub value: ValueRef,
    pub block: BlockRef,
}

impl Op {
    pub open spec fn is_terminator(&self) -> bool {
        match self {
            Op::Br(_) | Op::CondBr(_, _, _) | Op::Switch(_, _, _) | Op::Ret(_) | Op::RetVoid => true,
            _ => false,
        }
    }

    /// Whether control may pass from this terminator to block `b`.
    pub open spec fn targets(&self, b: BlockRef) -> bool {
        match self {
            Op::Br(t) => *t == b,
            Op::CondBr(_, t, e) => *t == b || *e == b,
            Op::Switch(_, d, cases) => *d == b || exists|k: int|
                0 <= k < cases@.len() && (#[trigger] cases@[k]).1 == b,
            _ => false,
        }
    }
}

} // verus!
