use vstd::prelude::*;
use crate::context::{Context, kind_ok, refs_below};
use crate::ir::{TypeRef, StructDef};
use crate::types::copy_refs;

verus! {

/// Handle of a struct type.
#[derive(Clone, Copy, Debug, PartialEq, Eq, Structural)]
pub struct Struct {
    pub ty: TypeRef,
}

impl Struct {
    /// The struct as a type.
    pub fn as_ref(&self) -> (r: TypeRef)
        ensures
            r == self.ty,
    {
        self.ty
    }

    /// Assigns the body of a struct declared without one: its ordered field
    /// types and whether its layout is packed. A field may be a pointer to
    /// the struct itself.
    pub fn set_body(&self, ctx: &mut Context, fields: &[TypeRef], packed: bool)
        requires
            old(ctx).wf(),
            old(ctx).struct_of(self.ty) >= 0,
            old(ctx).structs@[old(ctx).struct_of(self.ty)].body is None,
            refs_below(fields@, old(ctx).nt()),
        ensures
            final(ctx).wf(),
            final(ctx).structs@.len() == old(ctx).structs@.len(),
            forall|q: int| 0 <= q < old(ctx).structs@.len() && q != old(ctx).struct_of(self.ty)
                ==> final(ctx).structs@[q] == old(ctx).structs@[q],
            final(ctx).structs@[old(ctx).struct_of(self.ty)].name == old(ctx).structs@[old(ctx).struct_of(self.ty)].name,
            final(ctx).structs@[old(ctx).struct_of(self.ty)].packed == packed,
            final(ctx).structs@[old(ctx).struct_of(self.ty)].body matches Some(f) && f@ == fields@,
            final(ctx).names == old(ctx).names,
            final(ctx).types == old(ctx).types,
            final(ctx).sigs == old(ctx).sigs,
            final(ctx).modules == old(ctx).modules,
            final(ctx).functions == old(ctx).functions,
            final(ctx).blocks == old(ctx).blocks,
            final(ctx).values == old(ctx).values,
            final(ctx).incoming == old(ctx).incoming,
    {
        let ghost c = *old(ctx);
        let s: usize = match ctx.types[self.ty.index] {
            crate::ir::TypeKind::Struct(s) => s,
            _ => 0,
        };
        let name = ctx.structs[s].name;
        let v = copy_refs(fields);
        ctx.structs.set(s, StructDef { name, body: Some(v), packed });
        proof {
            assert forall|i: int| 0 <= i < ctx.types@.len() implies kind_ok(
                #[trigger] ctx.types@[i],
                ctx.nt(),
                ctx.structs@.len(),
                ctx.sigs@.len(),
            ) by {
                assert(kind_ok(c.types@[i], c.nt(), c.structs@.len(), c.sigs@.len()));
            }
            assert forall|q: int| 0 <= q < ctx.structs@.len() implies ctx.names.valid((#[trigger] ctx.structs@[q]).name) && (
            ctx.structs@[q].body matches Some(f) ==> refs_below(f@, ctx.nt())) by {
                if q != s {
                    assert(ctx.structs@[q] == c.structs@[q]);
                }
            }
            assert forall|f: int| 0 <= f < ctx.functions@.len() implies #[trigger] ctx.function_params_ok(f) by {
                assert(c.function_params_ok(f));
            }
        }
    }
}

} // verus!
