use vstd::prelude::*;
use crate::context::{Context, op_ok, value_kind_ok, values_below};
use crate::ir::{
    TypeRef, TypeKind, ValueRef, BlockRef, ValueDef, ValueKind, Op, BinOp, UnOp, CastOp,
    IntPredicate, RealPredicate,
};
use crate::names::{NameId, NameError};
use vstd::string::StringSliceAdditionalSpecFns;

verus! {

/// The emission cursor: the block that instructions are appended to.
#[derive(Clone, Copy, Debug, PartialEq, Eq, Structural)]
pub struct Builder {
    pub block: Option<BlockRef>,
}

impl Context {
    /// A builder that is not positioned yet.
    pub fn create_builder(&self) -> (r: Builder)
        ensures
            r.block is None,
    {
        Builder::new()
    }

    /// The kind of the type that value `v` has.
    pub open spec fn kind_of(&self, v: ValueRef) -> TypeKind {
        self.types@[self.values@[v.index as int].ty.index as int]
    }

    /// The field types of the struct that type `t` denotes, if it has a body.
    pub open spec fn fields_of(&self, t: TypeRef) -> Option<Seq<TypeRef>> {
        match self.types@[t.index as int] {
            TypeKind::Struct(s) => match self.structs@[s as int].body {
                Some(f) => Some(f@),
                None => None,
            },
            _ => None,
        }
    }

    /// The type that `p` points to, if `p` has a pointer type.
    pub open spec fn pointee(&self, p: ValueRef) -> Option<TypeRef> {
        match self.kind_of(p) {
            TypeKind::Pointer(t) => Some(t),
            _ => None,
        }
    }

    /// The kind of the type of the value that operation `op` produces.
    /// Operations whose operands do not have the types they need produce
    /// `Void`, which verification of the module then reports.
    pub open spec fn result_kind(&self, op: Op) -> TypeKind {
        match op {
            Op::Alloca(t) | Op::ArrayAlloca(t, _) | Op::ArrayMalloc(t, _) => TypeKind::Pointer(t),
            Op::StructGep(p, i) => match self.pointee(p) {
                Some(t) => match self.fields_of(t) {
                    Some(f) => if i < f.len() {
                        TypeKind::Pointer(f[i as int])
                    } else {
                        TypeKind::Void
                    },
                    None => TypeKind::Void,
                },
                None => TypeKind::Void,
            },
            Op::Load(p) => match self.pointee(p) {
                Some(t) => self.types@[t.index as int],
                None => TypeKind::Void,
            },
            Op::ExtractValue(a, i) => match self.fields_of(self.values@[a.index as int].ty) {
                Some(f) => if i < f.len() {
                    self.types@[f[i as int].index as int]
                } else {
                    TypeKind::Void
                },
                None => TypeKind::Void,
            },
            Op::Select(_, a, _) | Op::InsertValue(a, _, _) | Op::Binary(_, a, _) | Op::InBoundsGep(
                a,
                _,
            ) => self.kind_of(a),
            Op::Unary(u, a) => if u == UnOp::IsNotNull {
                TypeKind::Int(1)
            } else {
                self.kind_of(a)
            },
            Op::Cast(_, _, t) | Op::Phi(t) => self.types@[t.index as int],
            Op::ICmp(_, _, _) | Op::FCmp(_, _, _) => TypeKind::Int(1),
            Op::Call(f, _, _) => match self.pointee(f) {
                Some(t) => match self.types@[t.index as int] {
                    TypeKind::Function(g) => self.types@[self.sigs@[g as int].ret.index as int],
                    _ => TypeKind::Void,
                },
                None => TypeKind::Void,
            },
            _ => TypeKind::Void,
        }
    }

    /// The operation of instruction `v`.
    pub open spec fn op_of(&self, v: ValueRef) -> Op {
        self.values@[v.index as int].kind->Inst_op
    }
}

impl Builder {
    pub fn new() -> (r: Builder)
        ensures
            r.block is None,
    {
        Builder { block: None }
    }

    /// The block at the cursor, if any.
    pub fn as_ref(&self) -> (r: Option<BlockRef>)
        ensures
            r == self.block,
    {
        self.block
    }

    /// Moves the cursor to the end of `entry_block`.
    pub fn position_at_end(&mut self, entry_block: BlockRef)
        ensures
            final(self).block == Some(entry_block),
    {
        self.block = Some(entry_block);
    }

    /// The cursor is at a block of `ctx`.
    pub open spec fn positioned(&self, ctx: &Context) -> bool {
        self.block matches Some(b) && b.index < ctx.blocks@.len()
    }

    /// `d` is `c` with one instruction `r` appended at the cursor, whose
    /// type is `k`; nothing but the value table and the type table changed.
    pub open spec fn emitted(&self, c: &Context, d: &Context, r: ValueRef, k: TypeKind) -> bool {
        &&& r.index == c.values@.len()
        &&& d.values@.len() == c.values@.len() + 1
        &&& d.values@[r.index as int].kind matches ValueKind::Inst { block, .. } && Some(block) == self.block
        &&& d.has_type(d.values@[r.index as int].ty, k)
        &&& d.sigs == c.sigs
        &&& d.structs == c.structs
        &&& d.modules == c.modules
        &&& d.functions == c.functions
        &&& d.blocks == c.blocks
        &&& d.incoming == c.incoming
    }

    /// Appends instruction `op` named `name` to the block at the cursor.
    pub fn emit(&self, ctx: &mut Context, op: Op, name: NameId) -> (r: ValueRef)
        requires
            old(ctx).wf(),
            self.positioned(old(ctx)),
            op_ok(op, old(ctx).nt(), old(ctx).nv(), old(ctx).nb()),
            old(ctx).names.valid(name),
        ensures
            final(ctx).wf(),
            Context::extends(old(ctx), final(ctx)),
            self.emitted(old(ctx), final(ctx), r, old(ctx).result_kind(op)),
            final(ctx).op_of(r) == op,
            final(ctx).values@[r.index as int].name == name,
            final(ctx).names == old(ctx).names,
    {
        let ghost c = *old(ctx);
        let k = ctx.result_kind_of(&op);
        let ty = ctx.intern_type(k);
        let ghost mid = *ctx;
        let block = match self.block {
            Some(b) => b,
            None => BlockRef { index: 0 },
        };
        proof {
            Context::lemma_value_kind_grow(ValueKind::Inst { block, op }, c.nt(), mid.nt(), c.nv(), mid.nv(), c.nb(), mid.nb(), c.nf(), mid.nf(), c.nm(), mid.nm());
        }
        let r = ctx.push_value(ValueDef { ty, name, kind: ValueKind::Inst { block, op } });
        proof {
            Context::lemma_extends_trans(&c, &mid, ctx);
            assert(ctx.types@[ty.index as int] == mid.types@[ty.index as int]);
        }
        r
    }
}

impl Context {
    pub(crate) fn kind_of_exec(&self, v: ValueRef) -> (r: TypeKind)
        requires
            self.wf(),
            self.valid_value(v),
        ensures
            r == self.kind_of(v),
            crate::context::kind_ok(r, self.nt(), self.structs@.len(), self.sigs@.len()),
    {
        let t = self.values[v.index].ty;
        self.types[t.index]
    }

    pub(crate) fn field_exec(&self, t: TypeRef, i: u32) -> (r: Option<TypeRef>)
        requires
            self.wf(),
            self.valid_type(t),
        ensures
            r == (match self.fields_of(t) {
                Some(f) => if i < f.len() { Some(f[i as int]) } else { None::<TypeRef> },
                None => None::<TypeRef>,
            }),
            r matches Some(x) ==> self.valid_type(x),
    {
        match self.types[t.index] {
            TypeKind::Struct(s) => match &self.structs[s].body {
                Some(f) => if (i as usize) < f.len() {
                    Some(f[i as usize])
                } else {
                    None
                },
                None => None,
            },
            _ => None,
        }
    }

    fn result_kind_of(&self, op: &Op) -> (r: TypeKind)
        requires
            self.wf(),
            op_ok(*op, self.nt(), self.nv(), self.nb()),
        ensures
            r == self.result_kind(*op),
            crate::context::kind_ok(r, self.nt(), self.structs@.len(), self.sigs@.len()),
    {
        match op {
            Op::Alloca(t) | Op::ArrayAlloca(t, _) | Op::ArrayMalloc(t, _) => TypeKind::Pointer(*t),
            Op::StructGep(p, i) => match self.kind_of_exec(*p) {
                TypeKind::Pointer(t) => match self.field_exec(t, *i) {
                    Some(x) => TypeKind::Pointer(x),
                    None => TypeKind::Void,
                },
                _ => TypeKind::Void,
            },
            Op::Load(p) => match self.kind_of_exec(*p) {
                TypeKind::Pointer(t) => self.types[t.index],
                _ => TypeKind::Void,
            },
            Op::ExtractValue(a, i) => match self.field_exec(self.values[a.index].ty, *i) {
                Some(x) => self.types[x.index],
                None => TypeKind::Void,
            },
            Op::Select(_, a, _) | Op::InsertValue(a, _, _) | Op::Binary(_, a, _) | Op::InBoundsGep(
                a,
                _,
            ) => self.kind_of_exec(*a),
            Op::Unary(u, a) => match u {
                UnOp::IsNotNull => TypeKind::Int(1),
                _ => self.kind_of_exec(*a),
            },
            Op::Cast(_, _, t) | Op::Phi(t) => self.types[t.index],
            Op::ICmp(_, _, _) | Op::FCmp(_, _, _) => TypeKind::Int(1),
            Op::Call(f, _, _) => match self.kind_of_exec(*f) {
                TypeKind::Pointer(t) => match self.types[t.index] {
                    TypeKind::Function(g) => self.types[self.sigs[g].ret.index],
                    _ => TypeKind::Void,
                },
                _ => TypeKind::Void,
            },
            _ => TypeKind::Void,
        }
    }
}

} // verus!
