//! A builder for typed SSA intermediate representation.
//!
//! A [`Context`] is the arena of one build session: it owns the interned
//! names, the type table, the modules, functions, basic blocks and values.
//! Every entity is addressed by a small typed handle (an index into the
//! arena), so that a self-referential struct type is just an index that a
//! pointer type records.
//!
//! - `names`: the session's arena of null-terminated names.
//! - `ir`: handles, type kinds, operations and the table entries.
//! - `context`: the arena and its well-formedness.
//! - `types`, `struct_type`, `constants`: type and constant construction,
//!   with structs declared first and given their body later.
//! - `module`, `function`: modules, functions, parameters, basic blocks.
//! - `builder`, `emit`, `phi`: the cursor and instruction emission.
//! - `verify`, `dominance`: the checks that decide whether a module is well
//!   formed, and the laws that follow from them (`laws`).
//! - `engine`: the integer result of running a function.
mod names;
mod ir;
mod context;
mod types;
mod struct_type;
mod constants;
mod module;
mod function;
mod builder;
mod emit;
mod phi;
mod verify;
mod dominance;
mod laws;
mod engine;

pub use names::{NameId, NameError, Interner};
pub use ir::{
    TypeRef, ValueRef, BlockRef, TypeKind, Signature, StructDef, BinOp, UnOp, CastOp,
    IntPredicate, RealPredicate, Op, ValueKind, ValueDef, FunctionDef, BlockDef, Incoming,
};
pub use context::{Context, ModuleDef};
pub use function::Function;
pub use struct_type::Struct;
pub use module::Module;
pub use builder::Builder;
pub use phi::Phi;
pub use engine::FuncallResult;
pub use laws::{
    phi_mismatch_fails_verification, bodiless_alloca_fails_verification,
    bodiless_load_fails_verification, bodiless_store_fails_verification,
};
