use vstd::prelude::*;
use crate::context::Context;
use crate::ir::{TypeRef, ValueRef, BlockRef, Op};
use crate::module::Module;

verus! {

/// A phi whose set of incoming blocks is not the set of its block's
/// predecessors makes verification of its module fail.
pub proof fn phi_mismatch_fails_verification(ctx: &Context, m: Module, phi: ValueRef, t: TypeRef, b: BlockRef)
    requires
        ctx.wf(),
        ctx.inst_in(phi.index as int, b),
        ctx.op_of(phi) == Op::Phi(t),
        ctx.block_in_module(b.index as int, m),
        Set::new(|p: BlockRef| exists|k: int| 0 <= k < ctx.incoming_of(phi).len() && ctx.incoming_of(phi)[k].1 == p)
            != Set::new(|p: BlockRef| ctx.is_pred(p, b)),
    ensures
        !ctx.module_ok(m),
{
    let inc = ctx.incoming_of(phi);
    let s1 = Set::new(|p: BlockRef| exists|k: int| 0 <= k < inc.len() && inc[k].1 == p);
    let s2 = Set::new(|p: BlockRef| ctx.is_pred(p, b));
    if ctx.module_ok(m) {
        assert(ctx.inst_checked(phi.index as int, m));
        assert(ctx.phi_ok(phi.index as int, t, b));
        assert(ValueRef { index: phi.index } == phi);
        assert forall|p: BlockRef| s1.contains(p) <==> s2.contains(p) by {
            if s1.contains(p) {
                let k = choose|k: int| 0 <= k < inc.len() && inc[k].1 == p;
                assert(ctx.is_pred(inc[k].1, b));
            }
            if s2.contains(p) {
                assert(ctx.is_pred(p, b));
            }
        }
        assert(s1 =~= s2);
    }
}

/// Allocating a struct type that has no body yet makes verification of
/// the module fail, for as long as the body is missing.
pub proof fn bodiless_alloca_fails_verification(ctx: &Context, m: Module, v: ValueRef, t: TypeRef, b: BlockRef)
    requires
        ctx.wf(),
        ctx.inst_in(v.index as int, b),
        ctx.op_of(v) == Op::Alloca(t),
        ctx.block_in_module(b.index as int, m),
        ctx.struct_of(t) >= 0,
        ctx.structs@[ctx.struct_of(t)].body is None,
    ensures
        !ctx.module_ok(m),
{
    if ctx.module_ok(m) {
        assert(ctx.inst_checked(v.index as int, m));
        assert(ctx.inst_ok(v.index as int, b));
    }
}

/// Loading through a pointer to a struct type that has no body yet makes
/// verification of the module fail, for as long as the body is missing.
pub proof fn bodiless_load_fails_verification(ctx: &Context, m: Module, v: ValueRef, p: ValueRef, t: TypeRef, b: BlockRef)
    requires
        ctx.wf(),
        ctx.inst_in(v.index as int, b),
        ctx.op_of(v) == Op::Load(p),
        ctx.pointee(p) == Some(t),
        ctx.block_in_module(b.index as int, m),
        ctx.struct_of(t) >= 0,
        ctx.structs@[ctx.struct_of(t)].body is None,
    ensures
        !ctx.module_ok(m),
{
    if ctx.module_ok(m) {
        assert(ctx.inst_checked(v.index as int, m));
        assert(ctx.inst_ok(v.index as int, b));
    }
}

/// Storing a value whose type is a struct without a body makes
/// verification of the module fail, for as long as the body is missing.
pub proof fn bodiless_store_fails_verification(ctx: &Context, m: Module, v: ValueRef, x: ValueRef, p: ValueRef, b: BlockRef)
    requires
        ctx.wf(),
        ctx.inst_in(v.index as int, b),
        ctx.op_of(v) == Op::Store(x, p),
        ctx.block_in_module(b.index as int, m),
        ctx.struct_of(ctx.values@[x.index as int].ty) >= 0,
        ctx.structs@[ctx.struct_of(ctx.values@[x.index as int].ty)].body is None,
    ensures
        !ctx.module_ok(m),
{
    if ctx.module_ok(m) {
        assert(ctx.inst_checked(v.index as int, m));
        assert(ctx.inst_ok(v.index as int, b));
    }
}

} // verus!
