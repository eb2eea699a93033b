use vstd::prelude::*;
use crate::context::Context;
use crate::ir::{TypeRef, TypeKind, ValueRef, ValueDef, ValueKind};
use crate::names::NameId;

verus! {

#[allow(non_snake_case)]
impl Context {
    /// `d` is `c` with constant `r` added, of type `k` and kind `v`.
    pub open spec fn constant_added(c: &Context, d: &Context, r: ValueRef, k: TypeKind, v: ValueKind) -> bool {
        &&& Context::extends(c, d)
        &&& r.index == c.values@.len()
        &&& d.values@.len() == c.values@.len() + 1
        &&& d.has_type(d.values@[r.index as int].ty, k)
        &&& d.values@[r.index as int].kind == v
        &&& d.sigs == c.sigs
        &&& d.structs == c.structs
        &&& d.modules == c.modules
        &&& d.functions == c.functions
        &&& d.blocks == c.blocks
        &&& d.incoming == c.incoming
        &&& d.names == c.names
    }

    fn add_constant(&mut self, k: TypeKind, v: ValueKind) -> (r: ValueRef)
        requires
            old(self).wf(),
            crate::context::kind_ok(k, old(self).nt(), old(self).structs@.len(), old(self).sigs@.len()),
            crate::context::value_kind_ok(v, old(self).nt(), old(self).nv(), old(self).nb(), old(self).nf(), old(self).nm()),
        ensures
            final(self).wf(),
            Context::constant_added(old(self), final(self), r, k, v),
    {
        let ghost c = *old(self);
        let ty = self.intern_type(k);
        let ghost mid = *self;
        proof {
            crate::context::Context::lemma_value_kind_grow(v, c.nt(), mid.nt(), c.nv(), mid.nv(), c.nb(), mid.nb(), c.nf(), mid.nf(), c.nm(), mid.nm());
        }
        let r = self.push_value(ValueDef { ty, name: NameId { index: 0 }, kind: v });
        proof {
            Context::lemma_extends_trans(&c, &mid, self);
        }
        r
    }

    /// The integer constant `val` of width `num_bits`, flagged as signed.
    /// The flag only tells how the bits are read; `UInt` stores the same bits.
    pub fn SInt(&mut self, num_bits: u32, val: u64) -> (r: ValueRef)
        requires
            old(self).wf(),
        ensures
            final(self).wf(),
            Context::constant_added(old(self), final(self), r, TypeKind::Int(num_bits), ValueKind::ConstInt { value: val, signed: true }),
    {
        self.add_constant(TypeKind::Int(num_bits), ValueKind::ConstInt { value: val, signed: true })
    }

    /// The integer constant `val` of width `num_bits`, flagged as unsigned.
    pub fn UInt(&mut self, num_bits: u32, val: u64) -> (r: ValueRef)
        requires
            old(self).wf(),
        ensures
            final(self).wf(),
            Context::constant_added(old(self), final(self), r, TypeKind::Int(num_bits), ValueKind::ConstInt { value: val, signed: false }),
    {
        self.add_constant(TypeKind::Int(num_bits), ValueKind::ConstInt { value: val, signed: false })
    }

    /// The all-zero constant of type `typ`.
    pub fn Null(&mut self, typ: TypeRef) -> (r: ValueRef)
        requires
            old(self).wf(),
            old(self).valid_type(typ),
        ensures
            final(self).wf(),
            Context::constant_added(old(self), final(self), r, old(self).types@[typ.index as int], ValueKind::ConstNull),
    {
        let k = self.types[typ.index];
        self.add_constant(k, ValueKind::ConstNull)
    }

    /// The null pointer of pointer type `typ`.
    pub fn PointerNull(&mut self, typ: TypeRef) -> (r: ValueRef)
        requires
            old(self).wf(),
            old(self).valid_type(typ),
        ensures
            final(self).wf(),
            Context::constant_added(old(self), final(self), r, old(self).types@[typ.index as int], ValueKind::ConstNull),
    {
        self.Null(typ)
    }

    /// Constant `constant` reinterpreted as type `to_type`.
    pub fn Bitcast(&mut self, constant: ValueRef, to_type: TypeRef) -> (r: ValueRef)
        requires
            old(self).wf(),
            old(self).valid_value(constant),
            old(self).valid_type(to_type),
        ensures
            final(self).wf(),
            Context::constant_added(old(self), final(self), r, old(self).types@[to_type.index as int], ValueKind::ConstCast(constant)),
    {
        let k = self.types[to_type.index];
        self.add_constant(k, ValueKind::ConstCast(constant))
    }

    pub fn SInt1(&mut self, val: u64) -> (r: ValueRef)
        requires
            old(self).wf(),
        ensures
            final(self).wf(),
            Context::constant_added(old(self), final(self), r, TypeKind::Int(1), ValueKind::ConstInt { value: val, signed: true }),
    {
        self.add_constant(TypeKind::Int(1), ValueKind::ConstInt { value: val, signed: true })
    }

    pub fn UInt1(&mut self, val: u64) -> (r: ValueRef)
        requires
            old(self).wf(),
        ensures
            final(self).wf(),
            Context::constant_added(old(self), final(self), r, TypeKind::Int(1), ValueKind::ConstInt { value: val, signed: false }),
    {
        self.add_constant(TypeKind::Int(1), ValueKind::ConstInt { value: val, signed: false })
    }

    pub fn SInt8(&mut self, val: u64) -> (r: ValueRef)
        requires
            old(self).wf(),
        ensures
            final(self).wf(),
            Context::constant_added(old(self), final(self), r, TypeKind::Int(8), ValueKind::ConstInt { value: val, signed: true }),
    {
        self.add_constant(TypeKind::Int(8), ValueKind::ConstInt { value: val, signed: true })
    }

    pub fn UInt8(&mut self, val: u64) -> (r: ValueRef)
        requires
            old(self).wf(),
        ensures
            final(self).wf(),
            Context::constant_added(old(self), final(self), r, TypeKind::Int(8), ValueKind::ConstInt { value: val, signed: false }),
    {
        self.add_constant(TypeKind::Int(8), ValueKind::ConstInt { value: val, signed: false })
    }

    pub fn SInt16(&mut self, val: u64) -> (r: ValueRef)
        requires
            old(self).wf(),
        ensures
            final(self).wf(),
            Context::constant_added(old(self), final(self), r, TypeKind::Int(16), ValueKind::ConstInt { value: val, signed: true }),
    {
        self.add_constant(TypeKind::Int(16), ValueKind::ConstInt { value: val, signed: true })
    }

    pub fn UInt16(&mut self, val: u64) -> (r: ValueRef)
        requires
            old(self).wf(),
        ensures
            final(self).wf(),
            Context::constant_added(old(self), final(self), r, TypeKind::Int(16), ValueKind::ConstInt { value: val, signed: false }),
    {
        self.add_constant(TypeKind::Int(16), ValueKind::ConstInt { value: val, signed: false })
    }

    pub fn SInt32(&mut self, val: u64) -> (r: ValueRef)
        requires
            old(self).wf(),
        ensures
            final(self).wf(),
            Context::constant_added(old(self), final(self), r, TypeKind::Int(32), ValueKind::ConstInt { value: val, signed: true }),
    {
        self.add_constant(TypeKind::Int(32), ValueKind::ConstInt { value: val, signed: true })
    }

    pub fn UInt32(&mut self, val: u64) -> (r: ValueRef)
        requires
            old(self).wf(),
        ensures
            final(self).wf(),
            Context::constant_added(old(self), final(self), r, TypeKind::Int(32), ValueKind::ConstInt { value: val, signed: false }),
    {
        self.add_constant(TypeKind::Int(32), ValueKind::ConstInt { value: val, signed: false })
    }

    pub fn SInt64(&mut self, val: u64) -> (r: ValueRef)
        requires
            old(self).wf(),
        ensures
            final(self).wf(),
            Context::constant_added(old(self), final(self), r, TypeKind::Int(64), ValueKind::ConstInt { value: val, signed: true }),
    {
        self.add_constant(TypeKind::Int(64), ValueKind::ConstInt { value: val, signed: true })
    }

    pub fn UInt64(&mut self, val: u64) -> (r: ValueRef)
        requires
            old(self).wf(),
        ensures
            final(self).wf(),
            Context::constant_added(old(self), final(self), r, TypeKind::Int(64), ValueKind::ConstInt { value: val, signed: false }),
    {
        self.add_constant(TypeKind::Int(64), ValueKind::ConstInt { value: val, signed: false })
    }

    pub fn SInt128(&mut self, val: u64) -> (r: ValueRef)
        requires
            old(self).wf(),
        ensures
            final(self).wf(),
            Context::constant_added(old(self), final(self), r, TypeKind::Int(128), ValueKind::ConstInt { value: val, signed: true }),
    {
        self.add_constant(TypeKind::Int(128), ValueKind::ConstInt { value: val, signed: true })
    }

    pub fn UInt128(&mut self, val: u64) -> (r: ValueRef)
        requires
            old(self).wf(),
        ensures
            final(self).wf(),
            Context::constant_added(old(self), final(self), r, TypeKind::Int(128), ValueKind::ConstInt { value: val, signed: false }),
    {
        self.add_constant(TypeKind::Int(128), ValueKind::ConstInt { value: val, signed: false })
    }
}

} // verus!
