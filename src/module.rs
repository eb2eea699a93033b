use vstd::prelude::*;
use crate::names::nul_free;
use crate::context::{Context, ModuleDef, value_kind_ok};
use crate::ir::{TypeRef, TypeKind, ValueRef, ValueDef, ValueKind, FunctionDef};
use crate::names::{NameId, NameError};
use crate::function::Function;
use vstd::string::StringSliceAdditionalSpecFns;

verus! {

/// Handle of a module: a named container of functions and globals.
#[derive(Clone, Copy, Debug, PartialEq, Eq, Structural)]
pub struct Module {
    pub index: usize,
}

impl Context {
    /// A new, empty module of this context.
    pub fn create_module(&mut self, name: &str) -> (r: Result<Module, NameError>)
        requires
            old(self).wf(),
        ensures
            final(self).wf(),
            Context::extends(old(self), final(self)),
            final(self).types == old(self).types,
            final(self).functions == old(self).functions,
            final(self).blocks == old(self).blocks,
            final(self).values == old(self).values,
            final(self).incoming == old(self).incoming,
            match r {
                Ok(m) => {
                    &&& m.index == old(self).modules@.len()
                    &&& final(self).modules@.len() == old(self).modules@.len() + 1
                    &&& final(self).names.text(final(self).modules@[m.index as int].name) == name.spec_bytes()
                },
                Err(_) => *final(self) == *old(self),
            },
            r is Err ==> !(nul_free(name.spec_bytes()) && old(self).name_room(name.spec_bytes())),
            Context::names_grow(old(self), final(self), name.spec_bytes()),
    {
        let n = match self.intern_name(name) {
            Ok(n) => n,
            Err(e) => {
                return Err(e);
            },
        };
        let ghost c = *self;
        self.modules.push(ModuleDef { name: n });
        proof {
            Context::lemma_extends_refl(&c);
            assert(self.modules@.subrange(0, c.modules@.len() as int) =~= c.modules@);
            Context::lemma_wf_append(&c, self);
            Context::lemma_extends_trans(old(self), &c, self);
        }
        Ok(Module { index: self.modules.len() - 1 })
    }

    /// Function `f` belongs to module `m` and is named `name`.
    pub open spec fn function_named(&self, m: Module, f: int, name: Seq<u8>) -> bool {
        &&& 0 <= f < self.functions@.len()
        &&& self.functions@[f].module == m.index
        &&& self.names.text(self.functions@[f].name) == name
    }
}

impl Module {
    pub fn as_ref(&self) -> (r: usize)
        ensures
            r == self.index,
    {
        self.index
    }

    /// Adds a function of the given function type. Its parameters are new
    /// values, one per parameter type of the signature.
    pub fn add_function(&self, ctx: &mut Context, name: &str, function_type: TypeRef) -> (r: Result<Function, NameError>)
        requires
            old(ctx).wf(),
            self.index < old(ctx).modules@.len(),
            old(ctx).is_fn_type(function_type),
        ensures
            final(ctx).wf(),
            Context::extends(old(ctx), final(ctx)),
            final(ctx).blocks == old(ctx).blocks,
            final(ctx).incoming == old(ctx).incoming,
            final(ctx).modules == old(ctx).modules,
            match r {
                Ok(f) => {
                    let d = final(ctx).functions@[f.index as int];
                    let sig = final(ctx).sig_of(function_type);
                    &&& f.index == old(ctx).functions@.len()
                    &&& final(ctx).functions@.len() == old(ctx).functions@.len() + 1
                    &&& final(ctx).function_ok(f)
                    &&& f.function_type == function_type
                    &&& final(ctx).function_named(*self, f.index as int, name.spec_bytes())
                    &&& final(ctx).values@[f.value.index as int].kind == ValueKind::Function(f.index)
                    &&& d.param_count == sig.params@.len()
                    &&& forall|i: int| 0 <= i < d.param_count ==> {
                        &&& (#[trigger] final(ctx).values@[d.first_param + i]).kind == ValueKind::Param { func: f.index, position: i as usize }
                        &&& final(ctx).values@[d.first_param + i].ty == sig.params@[i]
                    }
                },
                Err(_) => *final(ctx) == *old(ctx),
            },
            r is Err ==> !nul_free(name.spec_bytes()) || !old(ctx).name_room(name.spec_bytes())
                || old(ctx).values@.len() + old(ctx).sig_of(function_type).params@.len() + 2 > usize::MAX,
            Context::names_grow(old(ctx), final(ctx), name.spec_bytes()),
    {
        let g0: usize = match ctx.types[function_type.index] {
            TypeKind::Function(g) => g,
            _ => 0,
        };
        let nv = ctx.values.len();
        if nv >= usize::MAX - 1 || usize::MAX - nv - 1 < ctx.sigs[g0].params.len() {
            proof {
                Context::lemma_extends_refl(ctx);
            }
            return Err(NameError::Full);
        }
        let n = match ctx.intern_name(name) {
            Ok(n) => n,
            Err(e) => {
                return Err(e);
            },
        };
        let ghost c0 = *ctx;
        let pty = ctx.PointerType(function_type);
        let ghost c = *ctx;
        proof {
            Context::lemma_extends_trans(old(ctx), &c0, &c);
            assert(c.types@[function_type.index as int] == c0.types@[function_type.index as int]) by {
                assert(c.types@.subrange(0, c0.types@.len() as int)[function_type.index as int] == c0.types@[function_type.index as int]);
            }
        }
        let g: usize = match ctx.types[function_type.index] {
            TypeKind::Function(g) => g,
            _ => 0,
        };
        let count = ctx.sigs[g].params.len();
        let f = ctx.functions.len();
        let value = ctx.values.len();
        proof {
            assert(g == g0);
            assert(c.sigs == old(ctx).sigs);
        }
        ctx.functions.push(FunctionDef { module: self.index, name: n, ty: function_type, value: ValueRef { index: value }, first_param: value + 1, param_count: count });
        ctx.values.push(ValueDef { ty: pty, name: NameId { index: 0 }, kind: ValueKind::Function(f) });
        let mut i: usize = 0;
        while i < count
            invariant
                c.wf(),
                i <= count,
                count == c.sigs@[g as int].params@.len(),
                g < c.sigs@.len(),
                value == c.values@.len(),
                f == c.functions@.len(),
                value + 1 + count <= usize::MAX,
                ctx.types == c.types,
                ctx.sigs == c.sigs,
                ctx.structs == c.structs,
                ctx.names == c.names,
                ctx.modules == c.modules,
                ctx.blocks == c.blocks,
                ctx.incoming == c.incoming,
                ctx.functions@ == c.functions@.push(FunctionDef { module: self.index, name: n, ty: function_type, value: ValueRef { index: value }, first_param: (value + 1) as usize, param_count: count }),
                ctx.values@.len() == value + 1 + i,
                ctx.values@.subrange(0, value as int) == c.values@,
                ctx.values@[value as int] == (ValueDef { ty: pty, name: NameId { index: 0 }, kind: ValueKind::Function(f) }),
                forall|j: int| 0 <= j < i ==> (#[trigger] ctx.values@[value + 1 + j]) == (ValueDef { ty: c.sigs@[g as int].params@[j], name: NameId { index: 0 }, kind: ValueKind::Param { func: f, position: j as usize } }),
            decreases count - i,
        {
            let t = ctx.sigs[g].params[i];
            ctx.values.push(ValueDef { ty: t, name: NameId { index: 0 }, kind: ValueKind::Param { func: f, position: i } });
            proof {
                assert(ctx.values@.subrange(0, value as int) =~= c.values@);
            }
            i = i + 1;
        }
        proof {
            Context::lemma_extends_refl(&c);
            assert(ctx.functions@.subrange(0, c.functions@.len() as int) =~= c.functions@);
            assert forall|k: int| c.values@.len() <= k < ctx.values@.len() implies {
                &&& (#[trigger] ctx.values@[k]).ty.index < ctx.nt()
                &&& ctx.names.valid(ctx.values@[k].name)
                &&& value_kind_ok(ctx.values@[k].kind, ctx.nt(), ctx.nv(), ctx.nb(), ctx.nf(), ctx.nm())
            } by {
                if k > value {
                    assert(ctx.values@[value + 1 + (k - value - 1)] == ctx.values@[k]);
                }
            }
            Context::lemma_wf_append(&c, ctx);
            Context::lemma_extends_trans(old(ctx), &c, ctx);
            let d = ctx.functions@[f as int];
            assert forall|q: int| 0 <= q < d.param_count implies {
                &&& (#[trigger] ctx.values@[d.first_param + q]).kind == ValueKind::Param { func: f, position: q as usize }
                &&& ctx.values@[d.first_param + q].ty == ctx.sig_of(function_type).params@[q]
            } by {
                assert(ctx.values@[value + 1 + q] == ctx.values@[d.first_param + q]);
            }
        }
        Ok(Function { index: f, value: ValueRef { index: value }, function_type })
    }

    /// The first function of this module with the given name.
    pub fn named_function(&self, ctx: &Context, name: &str) -> (r: Option<Function>)
        requires
            ctx.wf(),
        ensures
            match r {
                Some(f) => {
                    &&& ctx.function_named(*self, f.index as int, name.spec_bytes())
                    &&& f == ctx.handle_of(f.index as int)
                    &&& forall|g: int| 0 <= g < f.index ==> !ctx.function_named(*self, g, name.spec_bytes())
                },
                None => forall|g: int| 0 <= g < ctx.functions@.len() ==> !ctx.function_named(*self, g, name.spec_bytes()),
            },
    {
        let mut i: usize = 0;
        while i < ctx.functions.len()
            invariant
                ctx.wf(),
                i <= ctx.functions@.len(),
                forall|g: int| 0 <= g < i ==> !ctx.function_named(*self, g, name.spec_bytes()),
            decreases ctx.functions@.len() - i,
        {
            proof {
                assert(ctx.names.valid(ctx.functions@[i as int].name));
            }
            if ctx.functions[i].module == self.index && ctx.names.has_text(ctx.functions[i].name, name) {
                return Some(Function { index: i, value: ctx.functions[i].value, function_type: ctx.functions[i].ty });
            }
            i = i + 1;
        }
        None
    }

    /// The function of this module with the given name, added with the given
    /// type when there is none. A function already there must have that type.
    pub fn get_or_add_function(&self, ctx: &mut Context, name: &str, function_type: TypeRef) -> (r: Result<Function, NameError>)
        requires
            old(ctx).wf(),
            self.index < old(ctx).modules@.len(),
            old(ctx).is_fn_type(function_type),
            forall|g: int| old(ctx).function_named(*self, g, name.spec_bytes()) ==> old(ctx).functions@[g].ty == function_type,
        ensures
            final(ctx).wf(),
            Context::extends(old(ctx), final(ctx)),
            final(ctx).blocks == old(ctx).blocks,
            final(ctx).incoming == old(ctx).incoming,
            match r {
                Ok(f) => {
                    &&& final(ctx).function_ok(f)
                    &&& f.function_type == function_type
                    &&& final(ctx).function_named(*self, f.index as int, name.spec_bytes())
                    &&& (exists|g: int| old(ctx).function_named(*self, g, name.spec_bytes())) ==> *final(ctx) == *old(ctx)
                    &&& !(exists|g: int| old(ctx).function_named(*self, g, name.spec_bytes())) ==> {
                        &&& f.index == old(ctx).functions@.len()
                        &&& final(ctx).functions@.len() == old(ctx).functions@.len() + 1
                    }
                },
                Err(_) => *final(ctx) == *old(ctx),
            },
            r is Err ==> !nul_free(name.spec_bytes()) || !old(ctx).name_room(name.spec_bytes())
                || old(ctx).values@.len() + old(ctx).sig_of(function_type).params@.len() + 2 > usize::MAX,
            Context::names_grow(old(ctx), final(ctx), name.spec_bytes()),
    {
        match self.named_function(ctx, name) {
            Some(f) => {
                proof {
                    Context::lemma_extends_refl(ctx);
                }
                Ok(f)
            },
            None => self.add_function(ctx, name, function_type),
        }
    }
}

} // verus!
