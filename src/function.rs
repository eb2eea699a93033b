use vstd::prelude::*;
use crate::names::nul_free;
use crate::context::Context;
use crate::ir::{TypeRef, TypeKind, ValueRef, BlockRef, BlockDef, FunctionDef, ValueKind, Signature};
use crate::names::NameError;
use vstd::string::StringSliceAdditionalSpecFns;

verus! {

/// Handle of a function: its index, its value (the function's address),
/// and its function type.
#[derive(Clone, Copy, Debug, PartialEq, Eq, Structural)]
pub struct Function {
    pub index: usize,
    pub value: ValueRef,
    pub function_type: TypeRef,
}

impl Context {
    /// `f` is a handle of a function of this context.
    pub open spec fn function_ok(&self, f: Function) -> bool {
        &&& f.index < self.functions@.len()
        &&& self.functions@[f.index as int].value == f.value
        &&& self.functions@[f.index as int].ty == f.function_type
    }

    /// The signature of function type `t`.
    pub open spec fn sig_of(&self, t: TypeRef) -> Signature {
        match self.types@[t.index as int] {
            TypeKind::Function(g) => self.sigs@[g as int],
            _ => self.sigs@[0],
        }
    }

    pub open spec fn is_fn_type(&self, t: TypeRef) -> bool {
        t.index < self.types@.len() && match self.types@[t.index as int] {
            TypeKind::Function(g) => g < self.sigs@.len(),
            _ => false,
        }
    }

    /// The handle of function `f`.
    pub open spec fn handle_of(&self, f: int) -> Function {
        Function { index: f as usize, value: self.functions@[f].value, function_type: self.functions@[f].ty }
    }
}

impl Function {
    /// The value of the function, for calls.
    pub fn as_ref(&self) -> (r: ValueRef)
        ensures
            r == self.value,
    {
        self.value
    }

    pub fn get_function_type(&self) -> (r: TypeRef)
        ensures
            r == self.function_type,
    {
        self.function_type
    }

    /// The function whose value is `func_ptr`, if there is one.
    pub fn from_ptr(ctx: &Context, func_ptr: ValueRef) -> (r: Option<Function>)
        requires
            ctx.wf(),
        ensures
            match r {
                Some(f) => ctx.function_ok(f) && f.value == func_ptr,
                None => forall|f: int| 0 <= f < ctx.functions@.len() ==> (#[trigger] ctx.functions@[f]).value != func_ptr,
            },
    {
        let mut i: usize = 0;
        while i < ctx.functions.len()
            invariant
                i <= ctx.functions@.len(),
                forall|f: int| 0 <= f < i ==> (#[trigger] ctx.functions@[f]).value != func_ptr,
            decreases ctx.functions@.len() - i,
        {
            if ctx.functions[i].value == func_ptr {
                return Some(Function { index: i, value: func_ptr, function_type: ctx.functions[i].ty });
            }
            i = i + 1;
        }
        None
    }

    /// Appends a new, empty basic block to the function.
    pub fn append_basic_block(&self, ctx: &mut Context, name: &str) -> (r: Result<BlockRef, NameError>)
        requires
            old(ctx).wf(),
            old(ctx).function_ok(*self),
        ensures
            final(ctx).wf(),
            Context::extends(old(ctx), final(ctx)),
            final(ctx).types == old(ctx).types,
            final(ctx).functions == old(ctx).functions,
            final(ctx).values == old(ctx).values,
            final(ctx).incoming == old(ctx).incoming,
            match r {
                Ok(b) => {
                    &&& b.index == old(ctx).blocks@.len()
                    &&& final(ctx).blocks@.len() == old(ctx).blocks@.len() + 1
                    &&& final(ctx).blocks@[b.index as int].func == self.index
                    &&& final(ctx).names.text(final(ctx).blocks@[b.index as int].name) == name.spec_bytes()
                },
                Err(_) => *final(ctx) == *old(ctx),
            },
            r is Err ==> !(nul_free(name.spec_bytes()) && old(ctx).name_room(name.spec_bytes())),
            Context::names_grow(old(ctx), final(ctx), name.spec_bytes()),
    {
        let n = match ctx.intern_name(name) {
            Ok(n) => n,
            Err(e) => {
                return Err(e);
            },
        };
        let ghost c = *ctx;
        ctx.blocks.push(BlockDef { func: self.index, name: n });
        proof {
            Context::lemma_extends_refl(&c);
            assert(ctx.blocks@.subrange(0, c.blocks@.len() as int) =~= c.blocks@);
            Context::lemma_wf_append(&c, ctx);
            Context::lemma_extends_trans(old(ctx), &c, ctx);
        }
        Ok(BlockRef { index: ctx.blocks.len() - 1 })
    }

    /// Number of parameters.
    pub fn params_count(&self, ctx: &Context) -> (r: u32)
        requires
            ctx.wf(),
            ctx.function_ok(*self),
            ctx.functions@[self.index as int].param_count <= u32::MAX,
        ensures
            r == ctx.functions@[self.index as int].param_count,
    {
        ctx.functions[self.index].param_count as u32
    }

    /// The parameter at `index`, counted from 0.
    pub fn get_param(&self, ctx: &Context, index: u32) -> (r: ValueRef)
        requires
            ctx.wf(),
            ctx.function_ok(*self),
            index < ctx.functions@[self.index as int].param_count,
        ensures
            r.index == ctx.functions@[self.index as int].first_param + index,
            ctx.valid_value(r),
            ctx.values@[r.index as int].kind == (ValueKind::Param { func: self.index, position: index as usize }),
            ctx.values@[r.index as int].ty == ctx.sig_of(self.function_type).params@[index as int],
    {
        let _nv = ctx.values.len();
        proof {
            let f = ctx.functions@[self.index as int];
            assert(f.first_param + f.param_count <= ctx.nv());
            assert(ctx.function_params_ok(self.index as int));
            assert(ctx.values@[f.first_param + index as int].kind == ValueKind::Param { func: self.index, position: index as usize });
        }
        ValueRef { index: ctx.functions[self.index].first_param + index as usize }
    }

    /// The return type of the function's signature.
    pub fn get_return_type(&self, ctx: &Context) -> (r: TypeRef)
        requires
            ctx.wf(),
            ctx.function_ok(*self),
            ctx.is_fn_type(self.function_type),
        ensures
            r == ctx.sig_of(self.function_type).ret,
    {
        match ctx.types[self.function_type.index] {
            TypeKind::Function(g) => ctx.sigs[g].ret,
            _ => ctx.sigs[0].ret,
        }
    }

    /// The parameter types of the function's signature, in order.
    pub fn get_param_types(&self, ctx: &Context) -> (r: Vec<TypeRef>)
        requires
            ctx.wf(),
            ctx.function_ok(*self),
            ctx.is_fn_type(self.function_type),
        ensures
            r@ == ctx.sig_of(self.function_type).params@,
    {
        let g = match ctx.types[self.function_type.index] {
            TypeKind::Function(g) => g,
            _ => 0,
        };
        crate::types::copy_refs(ctx.sigs[g].params.as_slice())
    }
}

} // verus!
