use vstd::prelude::*;
use crate::names::nul_free;
use crate::context::{Context, values_below};
use crate::ir::{TypeRef, TypeKind, ValueDef, ValueKind, ValueRef, BlockRef, Op, BinOp, UnOp, CastOp, IntPredicate, RealPredicate};
use crate::names::{NameId, NameError};
use crate::builder::Builder;
use vstd::string::StringSliceAdditionalSpecFns;

verus! {

impl Builder {

    /// The module that the block at the cursor belongs to.
    pub open spec fn cursor_module(&self, ctx: &Context) -> usize {
        ctx.functions@[ctx.blocks@[self.block->Some_0.index as int].func as int].module
    }

    /// A constant null-terminated string global of the cursor's module,
    /// holding `string`; the result is a pointer to its first byte.
    pub fn build_global_string_ptr(&self, ctx: &mut Context, string: &str) -> (r: ValueRef)
        requires
            old(ctx).wf(),
            self.positioned(old(ctx)),
        ensures
            final(ctx).wf(),
            Context::extends(old(ctx), final(ctx)),
            r.index == old(ctx).values@.len(),
            final(ctx).values@.len() == old(ctx).values@.len() + 1,
            final(ctx).values@[r.index as int].kind matches ValueKind::GlobalString { module, text }
                && module == self.cursor_module(old(ctx)) && text@ == string.spec_bytes(),
            exists|e: TypeRef|
                final(ctx).has_type(e, TypeKind::Int(8)) && final(ctx).has_type(final(ctx).values@[r.index as int].ty, TypeKind::Pointer(e)),
            final(ctx).values@[r.index as int].name.index == 0,
            final(ctx).names == old(ctx).names,
            final(ctx).functions == old(ctx).functions,
            final(ctx).blocks == old(ctx).blocks,
            final(ctx).incoming == old(ctx).incoming,
    {
        self.global_string(ctx, string, NameId { index: 0 })
    }

    /// As `build_global_string_ptr`, with a name for the global.
    pub fn build_global_string_ptr_with_name(&self, ctx: &mut Context, string: &str, name: &str) -> (r: Result<ValueRef, NameError>)
        requires
            old(ctx).wf(),
            self.positioned(old(ctx)),
        ensures
            final(ctx).wf(),
            Context::extends(old(ctx), final(ctx)),
            match r {
                Ok(v) => {
                    &&& final(ctx).values@[v.index as int].kind matches ValueKind::GlobalString { module, text }
                        && module == self.cursor_module(old(ctx)) && text@ == string.spec_bytes()
                    &&& final(ctx).names.text(final(ctx).values@[v.index as int].name) == name.spec_bytes()
                },
                Err(_) => *final(ctx) == *old(ctx),
            },
            r is Err ==> !(nul_free(name.spec_bytes()) && old(ctx).name_room(name.spec_bytes())),
            Context::names_grow(old(ctx), final(ctx), name.spec_bytes()),
    {
        let n = match ctx.intern_name(name) {
            Ok(n) => n,
            Err(e) => {
                return Err(e);
            },
        };
        let ghost mid = *ctx;
        let v = self.global_string(ctx, string, n);
        proof {
            Context::lemma_extends_trans(old(ctx), &mid, ctx);
        }
        Ok(v)
    }

    fn global_string(&self, ctx: &mut Context, string: &str, name: NameId) -> (r: ValueRef)
        requires
            old(ctx).wf(),
            self.positioned(old(ctx)),
            old(ctx).names.valid(name),
        ensures
            final(ctx).wf(),
            Context::extends(old(ctx), final(ctx)),
            r.index == old(ctx).values@.len(),
            final(ctx).values@.len() == old(ctx).values@.len() + 1,
            final(ctx).values@[r.index as int].kind matches ValueKind::GlobalString { module, text }
                && module == self.cursor_module(old(ctx)) && text@ == string.spec_bytes(),
            exists|e: TypeRef|
                final(ctx).has_type(e, TypeKind::Int(8)) && final(ctx).has_type(final(ctx).values@[r.index as int].ty, TypeKind::Pointer(e)),
            final(ctx).values@[r.index as int].name == name,
            final(ctx).functions == old(ctx).functions,
            final(ctx).blocks == old(ctx).blocks,
            final(ctx).incoming == old(ctx).incoming,
            final(ctx).names == old(ctx).names,
    {
        let ghost c = *old(ctx);
        let b = match self.block {
            Some(b) => b,
            None => BlockRef { index: 0 },
        };
        let f = ctx.blocks[b.index].func;
        proof {
            assert(c.blocks@[b.index as int].func < c.nf());
            assert(c.functions@[f as int].module < c.nm());
        }
        let m = ctx.functions[f].module;
        let bytes = string.as_bytes();
        let mut text: Vec<u8> = Vec::new();
        let mut i: usize = 0;
        while i < bytes.len()
            invariant
                i <= bytes@.len(),
                text@ == bytes@.subrange(0, i as int),
            decreases bytes@.len() - i,
        {
            text.push(bytes[i]);
            assert(text@ =~= bytes@.subrange(0, i + 1));
            i = i + 1;
        }
        assert(text@ =~= string.spec_bytes());
        let ty = ctx.CharPointerType();
        let ghost mid = *ctx;
        let r = ctx.push_value(ValueDef { ty, name, kind: ValueKind::GlobalString { module: m, text } });
        proof {
            Context::lemma_extends_trans(&c, &mid, ctx);
            let e = choose|e: TypeRef| mid.has_type(e, TypeKind::Int(8)) && mid.has_type(ty, TypeKind::Pointer(e));
            assert(ctx.has_type(e, TypeKind::Int(8)) && ctx.has_type(ctx.values@[r.index as int].ty, TypeKind::Pointer(e)));
        }
        r
    }

    /// `d` is `c` with instruction `r` appended at the cursor, typed as its
    /// operation demands.
    pub open spec fn appended(&self, c: &Context, d: &Context, r: ValueRef) -> bool {
        self.emitted(c, d, r, c.result_kind(d.op_of(r)))
    }

    /// Stack slot for one value of type `typ`.
    pub fn build_alloca(&self, ctx: &mut Context, typ: TypeRef) -> (r: ValueRef)
        requires
            old(ctx).wf(),
            self.positioned(old(ctx)),
            old(ctx).valid_type(typ),
        ensures
            final(ctx).wf(),
            Context::extends(old(ctx), final(ctx)),
            self.appended(old(ctx), final(ctx), r),
            final(ctx).op_of(r) == Op::Alloca(typ),
            final(ctx).values@[r.index as int].name.index == 0,
            final(ctx).names == old(ctx).names,
    {
        self.emit(ctx, Op::Alloca(typ), NameId { index: 0 })
    }

    /// As `build_alloca`, with a name for the result.
    pub fn build_alloca_with_name(&self, ctx: &mut Context, typ: TypeRef, name: &str) -> (r: Result<ValueRef, NameError>)
        requires
            old(ctx).wf(),
            self.positioned(old(ctx)),
            old(ctx).valid_type(typ),
        ensures
            final(ctx).wf(),
            Context::extends(old(ctx), final(ctx)),
            match r {
                Ok(v) => {
                    &&& self.appended(old(ctx), final(ctx), v)
                    &&& final(ctx).op_of(v) == Op::Alloca(typ)
                    &&& final(ctx).names.text(final(ctx).values@[v.index as int].name) == name.spec_bytes()
                },
                Err(_) => *final(ctx) == *old(ctx),
            },
            r is Err ==> !(nul_free(name.spec_bytes()) && old(ctx).name_room(name.spec_bytes())),
            Context::names_grow(old(ctx), final(ctx), name.spec_bytes()),
    {
        let n = match ctx.intern_name(name) {
            Ok(n) => n,
            Err(e) => {
                return Err(e);
            },
        };
        let ghost mid = *ctx;
        let v = self.emit(ctx, Op::Alloca(typ), n);
        proof {
            Context::lemma_extends_trans(old(ctx), &mid, ctx);
        }
        Ok(v)
    }

    /// Stack slot for `size` values of type `typ`.
    pub fn build_array_alloca(&self, ctx: &mut Context, typ: TypeRef, size: ValueRef) -> (r: ValueRef)
        requires
            old(ctx).wf(),
            self.positioned(old(ctx)),
            old(ctx).valid_type(typ),
            old(ctx).valid_value(size),
        ensures
            final(ctx).wf(),
            Context::extends(old(ctx), final(ctx)),
            self.appended(old(ctx), final(ctx), r),
            final(ctx).op_of(r) == Op::ArrayAlloca(typ, size),
            final(ctx).values@[r.index as int].name.index == 0,
            final(ctx).names == old(ctx).names,
    {
        self.emit(ctx, Op::ArrayAlloca(typ, size), NameId { index: 0 })
    }

    /// As `build_array_alloca`, with a name for the result.
    pub fn build_array_alloca_with_name(&self, ctx: &mut Context, typ: TypeRef, size: ValueRef, name: &str) -> (r: Result<ValueRef, NameError>)
        requires
            old(ctx).wf(),
            self.positioned(old(ctx)),
            old(ctx).valid_type(typ),
            old(ctx).valid_value(size),
        ensures
            final(ctx).wf(),
            Context::extends(old(ctx), final(ctx)),
            match r {
                Ok(v) => {
                    &&& self.appended(old(ctx), final(ctx), v)
                    &&& final(ctx).op_of(v) == Op::ArrayAlloca(typ, size)
                    &&& final(ctx).names.text(final(ctx).values@[v.index as int].name) == name.spec_bytes()
                },
                Err(_) => *final(ctx) == *old(ctx),
            },
            r is Err ==> !(nul_free(name.spec_bytes()) && old(ctx).name_room(name.spec_bytes())),
            Context::names_grow(old(ctx), final(ctx), name.spec_bytes()),
    {
        let n = match ctx.intern_name(name) {
            Ok(n) => n,
            Err(e) => {
                return Err(e);
            },
        };
        let ghost mid = *ctx;
        let v = self.emit(ctx, Op::ArrayAlloca(typ, size), n);
        proof {
            Context::lemma_extends_trans(old(ctx), &mid, ctx);
        }
        Ok(v)
    }

    /// Heap allocation of `size` values of type `typ`.
    pub fn build_array_malloc(&self, ctx: &mut Context, typ: TypeRef, size: ValueRef) -> (r: ValueRef)
        requires
            old(ctx).wf(),
            self.positioned(old(ctx)),
            old(ctx).valid_type(typ),
            old(ctx).valid_value(size),
        ensures
            final(ctx).wf(),
            Context::extends(old(ctx), final(ctx)),
            self.appended(old(ctx), final(ctx), r),
            final(ctx).op_of(r) == Op::ArrayMalloc(typ, size),
            final(ctx).values@[r.index as int].name.index == 0,
            final(ctx).names == old(ctx).names,
    {
        self.emit(ctx, Op::ArrayMalloc(typ, size), NameId { index: 0 })
    }

    /// As `build_array_malloc`, with a name for the result.
    pub fn build_array_malloc_with_name(&self, ctx: &mut Context, typ: TypeRef, size: ValueRef, name: &str) -> (r: Result<ValueRef, NameError>)
        requires
            old(ctx).wf(),
            self.positioned(old(ctx)),
            old(ctx).valid_type(typ),
            old(ctx).valid_value(size),
        ensures
            final(ctx).wf(),
            Context::extends(old(ctx), final(ctx)),
            match r {
                Ok(v) => {
                    &&& self.appended(old(ctx), final(ctx), v)
                    &&& final(ctx).op_of(v) == Op::ArrayMalloc(typ, size)
                    &&& final(ctx).names.text(final(ctx).values@[v.index as int].name) == name.spec_bytes()
                },
                Err(_) => *final(ctx) == *old(ctx),
            },
            r is Err ==> !(nul_free(name.spec_bytes()) && old(ctx).name_room(name.spec_bytes())),
            Context::names_grow(old(ctx), final(ctx), name.spec_bytes()),
    {
        let n = match ctx.intern_name(name) {
            Ok(n) => n,
            Err(e) => {
                return Err(e);
            },
        };
        let ghost mid = *ctx;
        let v = self.emit(ctx, Op::ArrayMalloc(typ, size), n);
        proof {
            Context::lemma_extends_trans(old(ctx), &mid, ctx);
        }
        Ok(v)
    }

    /// Releases heap memory.
    pub fn build_free(&self, ctx: &mut Context, pointer: ValueRef) -> (r: ValueRef)
        requires
            old(ctx).wf(),
            self.positioned(old(ctx)),
            old(ctx).valid_value(pointer),
        ensures
            final(ctx).wf(),
            Context::extends(old(ctx), final(ctx)),
            self.appended(old(ctx), final(ctx), r),
            final(ctx).op_of(r) == Op::Free(pointer),
            final(ctx).values@[r.index as int].name.index == 0,
            final(ctx).names == old(ctx).names,
    {
        self.emit(ctx, Op::Free(pointer), NameId { index: 0 })
    }

    /// Address of field `index` of the struct that `ptr` points to. The struct must have its body, and `index` must name one of its fields.
    pub fn build_struct_gep(&self, ctx: &mut Context, ptr: ValueRef, index: u32) -> (r: ValueRef)
        requires
            old(ctx).wf(),
            self.positioned(old(ctx)),
            old(ctx).valid_value(ptr),
            old(ctx).pointee(ptr) matches Some(t) && old(ctx).fields_of(t) matches Some(f) && index < f.len(),
        ensures
            final(ctx).wf(),
            Context::extends(old(ctx), final(ctx)),
            self.appended(old(ctx), final(ctx), r),
            final(ctx).op_of(r) == Op::StructGep(ptr, index),
            final(ctx).values@[r.index as int].name.index == 0,
            final(ctx).names == old(ctx).names,
    {
        self.emit(ctx, Op::StructGep(ptr, index), NameId { index: 0 })
    }

    /// As `build_struct_gep`, with a name for the result.
    pub fn build_struct_gep_with_name(&self, ctx: &mut Context, ptr: ValueRef, index: u32, name: &str) -> (r: Result<ValueRef, NameError>)
        requires
            old(ctx).wf(),
            self.positioned(old(ctx)),
            old(ctx).valid_value(ptr),
            old(ctx).pointee(ptr) matches Some(t) && old(ctx).fields_of(t) matches Some(f) && index < f.len(),
        ensures
            final(ctx).wf(),
            Context::extends(old(ctx), final(ctx)),
            match r {
                Ok(v) => {
                    &&& self.appended(old(ctx), final(ctx), v)
                    &&& final(ctx).op_of(v) == Op::StructGep(ptr, index)
                    &&& final(ctx).names.text(final(ctx).values@[v.index as int].name) == name.spec_bytes()
                },
                Err(_) => *final(ctx) == *old(ctx),
            },
            r is Err ==> !(nul_free(name.spec_bytes()) && old(ctx).name_room(name.spec_bytes())),
            Context::names_grow(old(ctx), final(ctx), name.spec_bytes()),
    {
        let n = match ctx.intern_name(name) {
            Ok(n) => n,
            Err(e) => {
                return Err(e);
            },
        };
        let ghost mid = *ctx;
        let v = self.emit(ctx, Op::StructGep(ptr, index), n);
        proof {
            Context::lemma_extends_trans(old(ctx), &mid, ctx);
        }
        Ok(v)
    }

    /// Stores `val` through `ptr`.
    pub fn build_store(&self, ctx: &mut Context, val: ValueRef, ptr: ValueRef) -> (r: ValueRef)
        requires
            old(ctx).wf(),
            self.positioned(old(ctx)),
            old(ctx).valid_value(val),
            old(ctx).valid_value(ptr),
        ensures
            final(ctx).wf(),
            Context::extends(old(ctx), final(ctx)),
            self.appended(old(ctx), final(ctx), r),
            final(ctx).op_of(r) == Op::Store(val, ptr),
            final(ctx).values@[r.index as int].name.index == 0,
            final(ctx).names == old(ctx).names,
    {
        self.emit(ctx, Op::Store(val, ptr), NameId { index: 0 })
    }

    /// Loads the value that `pointer_val` points to.
    pub fn build_load(&self, ctx: &mut Context, pointer_val: ValueRef) -> (r: ValueRef)
        requires
            old(ctx).wf(),
            self.positioned(old(ctx)),
            old(ctx).valid_value(pointer_val),
        ensures
            final(ctx).wf(),
            Context::extends(old(ctx), final(ctx)),
            self.appended(old(ctx), final(ctx), r),
            final(ctx).op_of(r) == Op::Load(pointer_val),
            final(ctx).values@[r.index as int].name.index == 0,
            final(ctx).names == old(ctx).names,
    {
        self.emit(ctx, Op::Load(pointer_val), NameId { index: 0 })
    }

    /// As `build_load`, with a name for the result.
    pub fn build_load_with_name(&self, ctx: &mut Context, pointer_val: ValueRef, name: &str) -> (r: Result<ValueRef, NameError>)
        requires
            old(ctx).wf(),
            self.positioned(old(ctx)),
            old(ctx).valid_value(pointer_val),
        ensures
            final(ctx).wf(),
            Context::extends(old(ctx), final(ctx)),
            match r {
                Ok(v) => {
                    &&& self.appended(old(ctx), final(ctx), v)
                    &&& final(ctx).op_of(v) == Op::Load(pointer_val)
                    &&& final(ctx).names.text(final(ctx).values@[v.index as int].name) == name.spec_bytes()
                },
                Err(_) => *final(ctx) == *old(ctx),
            },
            r is Err ==> !(nul_free(name.spec_bytes()) && old(ctx).name_room(name.spec_bytes())),
            Context::names_grow(old(ctx), final(ctx), name.spec_bytes()),
    {
        let n = match ctx.intern_name(name) {
            Ok(n) => n,
            Err(e) => {
                return Err(e);
            },
        };
        let ghost mid = *ctx;
        let v = self.emit(ctx, Op::Load(pointer_val), n);
        proof {
            Context::lemma_extends_trans(old(ctx), &mid, ctx);
        }
        Ok(v)
    }

    /// `then_val` when `cond` holds, else `else_val`.
    pub fn build_select(&self, ctx: &mut Context, cond: ValueRef, then_val: ValueRef, else_val: ValueRef) -> (r: ValueRef)
        requires
            old(ctx).wf(),
            self.positioned(old(ctx)),
            old(ctx).valid_value(cond),
            old(ctx).valid_value(then_val),
            old(ctx).valid_value(else_val),
        ensures
            final(ctx).wf(),
            Context::extends(old(ctx), final(ctx)),
            self.appended(old(ctx), final(ctx), r),
            final(ctx).op_of(r) == Op::Select(cond, then_val, else_val),
            final(ctx).values@[r.index as int].name.index == 0,
            final(ctx).names == old(ctx).names,
    {
        self.emit(ctx, Op::Select(cond, then_val, else_val), NameId { index: 0 })
    }

    /// As `build_select`, with a name for the result.
    pub fn build_select_with_name(&self, ctx: &mut Context, cond: ValueRef, then_val: ValueRef, else_val: ValueRef, name: &str) -> (r: Result<ValueRef, NameError>)
        requires
            old(ctx).wf(),
            self.positioned(old(ctx)),
            old(ctx).valid_value(cond),
            old(ctx).valid_value(then_val),
            old(ctx).valid_value(else_val),
        ensures
            final(ctx).wf(),
            Context::extends(old(ctx), final(ctx)),
            match r {
                Ok(v) => {
                    &&& self.appended(old(ctx), final(ctx), v)
                    &&& final(ctx).op_of(v) == Op::Select(cond, then_val, else_val)
                    &&& final(ctx).names.text(final(ctx).values@[v.index as int].name) == name.spec_bytes()
                },
                Err(_) => *final(ctx) == *old(ctx),
            },
            r is Err ==> !(nul_free(name.spec_bytes()) && old(ctx).name_room(name.spec_bytes())),
            Context::names_grow(old(ctx), final(ctx), name.spec_bytes()),
    {
        let n = match ctx.intern_name(name) {
            Ok(n) => n,
            Err(e) => {
                return Err(e);
            },
        };
        let ghost mid = *ctx;
        let v = self.emit(ctx, Op::Select(cond, then_val, else_val), n);
        proof {
            Context::lemma_extends_trans(old(ctx), &mid, ctx);
        }
        Ok(v)
    }

    /// Converts `val` to `to_type` (IntToPtr).
    pub fn build_int_to_ptr(&self, ctx: &mut Context, val: ValueRef, to_type: TypeRef) -> (r: ValueRef)
        requires
            old(ctx).wf(),
            self.positioned(old(ctx)),
            old(ctx).valid_value(val),
            old(ctx).valid_type(to_type),
        ensures
            final(ctx).wf(),
            Context::extends(old(ctx), final(ctx)),
            self.appended(old(ctx), final(ctx), r),
            final(ctx).op_of(r) == Op::Cast(CastOp::IntToPtr, val, to_type),
            final(ctx).values@[r.index as int].name.index == 0,
            final(ctx).names == old(ctx).names,
    {
        self.emit(ctx, Op::Cast(CastOp::IntToPtr, val, to_type), NameId { index: 0 })
    }

    /// As `build_int_to_ptr`, with a name for the result.
    pub fn build_int_to_ptr_with_name(&self, ctx: &mut Context, val: ValueRef, to_type: TypeRef, name: &str) -> (r: Result<ValueRef, NameError>)
        requires
            old(ctx).wf(),
            self.positioned(old(ctx)),
            old(ctx).valid_value(val),
            old(ctx).valid_type(to_type),
        ensures
            final(ctx).wf(),
            Context::extends(old(ctx), final(ctx)),
            match r {
                Ok(v) => {
                    &&& self.appended(old(ctx), final(ctx), v)
                    &&& final(ctx).op_of(v) == Op::Cast(CastOp::IntToPtr, val, to_type)
                    &&& final(ctx).names.text(final(ctx).values@[v.index as int].name) == name.spec_bytes()
                },
                Err(_) => *final(ctx) == *old(ctx),
            },
            r is Err ==> !(nul_free(name.spec_bytes()) && old(ctx).name_room(name.spec_bytes())),
            Context::names_grow(old(ctx), final(ctx), name.spec_bytes()),
    {
        let n = match ctx.intern_name(name) {
            Ok(n) => n,
            Err(e) => {
                return Err(e);
            },
        };
        let ghost mid = *ctx;
        let v = self.emit(ctx, Op::Cast(CastOp::IntToPtr, val, to_type), n);
        proof {
            Context::lemma_extends_trans(old(ctx), &mid, ctx);
        }
        Ok(v)
    }

    /// Converts `val` to `to_type` (PtrToInt).
    pub fn build_ptr_to_int(&self, ctx: &mut Context, val: ValueRef, to_type: TypeRef) -> (r: ValueRef)
        requires
            old(ctx).wf(),
            self.positioned(old(ctx)),
            old(ctx).valid_value(val),
            old(ctx).valid_type(to_type),
        ensures
            final(ctx).wf(),
            Context::extends(old(ctx), final(ctx)),
            self.appended(old(ctx), final(ctx), r),
            final(ctx).op_of(r) == Op::Cast(CastOp::PtrToInt, val, to_type),
            final(ctx).values@[r.index as int].name.index == 0,
            final(ctx).names == old(ctx).names,
    {
        self.emit(ctx, Op::Cast(CastOp::PtrToInt, val, to_type), NameId { index: 0 })
    }

    /// As `build_ptr_to_int`, with a name for the result.
    pub fn build_ptr_to_int_with_name(&self, ctx: &mut Context, val: ValueRef, to_type: TypeRef, name: &str) -> (r: Result<ValueRef, NameError>)
        requires
            old(ctx).wf(),
            self.positioned(old(ctx)),
            old(ctx).valid_value(val),
            old(ctx).valid_type(to_type),
        ensures
            final(ctx).wf(),
            Context::extends(old(ctx), final(ctx)),
            match r {
                Ok(v) => {
                    &&& self.appended(old(ctx), final(ctx), v)
                    &&& final(ctx).op_of(v) == Op::Cast(CastOp::PtrToInt, val, to_type)
                    &&& final(ctx).names.text(final(ctx).values@[v.index as int].name) == name.spec_bytes()
                },
                Err(_) => *final(ctx) == *old(ctx),
            },
            r is Err ==> !(nul_free(name.spec_bytes()) && old(ctx).name_room(name.spec_bytes())),
            Context::names_grow(old(ctx), final(ctx), name.spec_bytes()),
    {
        let n = match ctx.intern_name(name) {
            Ok(n) => n,
            Err(e) => {
                return Err(e);
            },
        };
        let ghost mid = *ctx;
        let v = self.emit(ctx, Op::Cast(CastOp::PtrToInt, val, to_type), n);
        proof {
            Context::lemma_extends_trans(old(ctx), &mid, ctx);
        }
        Ok(v)
    }

    /// Converts `val` to `to_type` (BitCast).
    pub fn build_bitcast(&self, ctx: &mut Context, val: ValueRef, to_type: TypeRef) -> (r: ValueRef)
        requires
            old(ctx).wf(),
            self.positioned(old(ctx)),
            old(ctx).valid_value(val),
            old(ctx).valid_type(to_type),
        ensures
            final(ctx).wf(),
            Context::extends(old(ctx), final(ctx)),
            self.appended(old(ctx), final(ctx), r),
            final(ctx).op_of(r) == Op::Cast(CastOp::BitCast, val, to_type),
            final(ctx).values@[r.index as int].name.index == 0,
            final(ctx).names == old(ctx).names,
    {
        self.emit(ctx, Op::Cast(CastOp::BitCast, val, to_type), NameId { index: 0 })
    }

    /// As `build_bitcast`, with a name for the result.
    pub fn build_bitcast_with_name(&self, ctx: &mut Context, val: ValueRef, to_type: TypeRef, name: &str) -> (r: Result<ValueRef, NameError>)
        requires
            old(ctx).wf(),
            self.positioned(old(ctx)),
            old(ctx).valid_value(val),
            old(ctx).valid_type(to_type),
        ensures
            final(ctx).wf(),
            Context::extends(old(ctx), final(ctx)),
            match r {
                Ok(v) => {
                    &&& self.appended(old(ctx), final(ctx), v)
                    &&& final(ctx).op_of(v) == Op::Cast(CastOp::BitCast, val, to_type)
                    &&& final(ctx).names.text(final(ctx).values@[v.index as int].name) == name.spec_bytes()
                },
                Err(_) => *final(ctx) == *old(ctx),
            },
            r is Err ==> !(nul_free(name.spec_bytes()) && old(ctx).name_room(name.spec_bytes())),
            Context::names_grow(old(ctx), final(ctx), name.spec_bytes()),
    {
        let n = match ctx.intern_name(name) {
            Ok(n) => n,
            Err(e) => {
                return Err(e);
            },
        };
        let ghost mid = *ctx;
        let v = self.emit(ctx, Op::Cast(CastOp::BitCast, val, to_type), n);
        proof {
            Context::lemma_extends_trans(old(ctx), &mid, ctx);
        }
        Ok(v)
    }

    /// Converts `val` to `to_type` (ZExt).
    pub fn build_zext(&self, ctx: &mut Context, val: ValueRef, to_type: TypeRef) -> (r: ValueRef)
        requires
            old(ctx).wf(),
            self.positioned(old(ctx)),
            old(ctx).valid_value(val),
            old(ctx).valid_type(to_type),
        ensures
            final(ctx).wf(),
            Context::extends(old(ctx), final(ctx)),
            self.appended(old(ctx), final(ctx), r),
            final(ctx).op_of(r) == Op::Cast(CastOp::ZExt, val, to_type),
            final(ctx).values@[r.index as int].name.index == 0,
            final(ctx).names == old(ctx).names,
    {
        self.emit(ctx, Op::Cast(CastOp::ZExt, val, to_type), NameId { index: 0 })
    }

    /// As `build_zext`, with a name for the result.
    pub fn build_zext_with_name(&self, ctx: &mut Context, val: ValueRef, to_type: TypeRef, name: &str) -> (r: Result<ValueRef, NameError>)
        requires
            old(ctx).wf(),
            self.positioned(old(ctx)),
            old(ctx).valid_value(val),
            old(ctx).valid_type(to_type),
        ensures
            final(ctx).wf(),
            Context::extends(old(ctx), final(ctx)),
            match r {
                Ok(v) => {
                    &&& self.appended(old(ctx), final(ctx), v)
                    &&& final(ctx).op_of(v) == Op::Cast(CastOp::ZExt, val, to_type)
                    &&& final(ctx).names.text(final(ctx).values@[v.index as int].name) == name.spec_bytes()
                },
                Err(_) => *final(ctx) == *old(ctx),
            },
            r is Err ==> !(nul_free(name.spec_bytes()) && old(ctx).name_room(name.spec_bytes())),
            Context::names_grow(old(ctx), final(ctx), name.spec_bytes()),
    {
        let n = match ctx.intern_name(name) {
            Ok(n) => n,
            Err(e) => {
                return Err(e);
            },
        };
        let ghost mid = *ctx;
        let v = self.emit(ctx, Op::Cast(CastOp::ZExt, val, to_type), n);
        proof {
            Context::lemma_extends_trans(old(ctx), &mid, ctx);
        }
        Ok(v)
    }

    /// Converts `val` to `to_type` (Trunc).
    pub fn build_trunc(&self, ctx: &mut Context, val: ValueRef, to_type: TypeRef) -> (r: ValueRef)
        requires
            old(ctx).wf(),
            self.positioned(old(ctx)),
            old(ctx).valid_value(val),
            old(ctx).valid_type(to_type),
        ensures
            final(ctx).wf(),
            Context::extends(old(ctx), final(ctx)),
            self.appended(old(ctx), final(ctx), r),
            final(ctx).op_of(r) == Op::Cast(CastOp::Trunc, val, to_type),
            final(ctx).values@[r.index as int].name.index == 0,
            final(ctx).names == old(ctx).names,
    {
        self.emit(ctx, Op::Cast(CastOp::Trunc, val, to_type), NameId { index: 0 })
    }

    /// As `build_trunc`, with a name for the result.
    pub fn build_trunc_with_name(&self, ctx: &mut Context, val: ValueRef, to_type: TypeRef, name: &str) -> (r: Result<ValueRef, NameError>)
        requires
            old(ctx).wf(),
            self.positioned(old(ctx)),
            old(ctx).valid_value(val),
            old(ctx).valid_type(to_type),
        ensures
            final(ctx).wf(),
            Context::extends(old(ctx), final(ctx)),
            match r {
                Ok(v) => {
                    &&& self.appended(old(ctx), final(ctx), v)
                    &&& final(ctx).op_of(v) == Op::Cast(CastOp::Trunc, val, to_type)
                    &&& final(ctx).names.text(final(ctx).values@[v.index as int].name) == name.spec_bytes()
                },
                Err(_) => *final(ctx) == *old(ctx),
            },
            r is Err ==> !(nul_free(name.spec_bytes()) && old(ctx).name_room(name.spec_bytes())),
            Context::names_grow(old(ctx), final(ctx), name.spec_bytes()),
    {
        let n = match ctx.intern_name(name) {
            Ok(n) => n,
            Err(e) => {
                return Err(e);
            },
        };
        let ghost mid = *ctx;
        let v = self.emit(ctx, Op::Cast(CastOp::Trunc, val, to_type), n);
        proof {
            Context::lemma_extends_trans(old(ctx), &mid, ctx);
        }
        Ok(v)
    }

    /// Converts `val` to `to_type` (FPTrunc).
    pub fn build_fp_trunc(&self, ctx: &mut Context, val: ValueRef, to_type: TypeRef) -> (r: ValueRef)
        requires
            old(ctx).wf(),
            self.positioned(old(ctx)),
            old(ctx).valid_value(val),
            old(ctx).valid_type(to_type),
        ensures
            final(ctx).wf(),
            Context::extends(old(ctx), final(ctx)),
            self.appended(old(ctx), final(ctx), r),
            final(ctx).op_of(r) == Op::Cast(CastOp::FPTrunc, val, to_type),
            final(ctx).values@[r.index as int].name.index == 0,
            final(ctx).names == old(ctx).names,
    {
        self.emit(ctx, Op::Cast(CastOp::FPTrunc, val, to_type), NameId { index: 0 })
    }

    /// As `build_fp_trunc`, with a name for the result.
    pub fn build_fp_trunc_with_name(&self, ctx: &mut Context, val: ValueRef, to_type: TypeRef, name: &str) -> (r: Result<ValueRef, NameError>)
        requires
            old(ctx).wf(),
            self.positioned(old(ctx)),
            old(ctx).valid_value(val),
            old(ctx).valid_type(to_type),
        ensures
            final(ctx).wf(),
            Context::extends(old(ctx), final(ctx)),
            match r {
                Ok(v) => {
                    &&& self.appended(old(ctx), final(ctx), v)
                    &&& final(ctx).op_of(v) == Op::Cast(CastOp::FPTrunc, val, to_type)
                    &&& final(ctx).names.text(final(ctx).values@[v.index as int].name) == name.spec_bytes()
                },
                Err(_) => *final(ctx) == *old(ctx),
            },
            r is Err ==> !(nul_free(name.spec_bytes()) && old(ctx).name_room(name.spec_bytes())),
            Context::names_grow(old(ctx), final(ctx), name.spec_bytes()),
    {
        let n = match ctx.intern_name(name) {
            Ok(n) => n,
            Err(e) => {
                return Err(e);
            },
        };
        let ghost mid = *ctx;
        let v = self.emit(ctx, Op::Cast(CastOp::FPTrunc, val, to_type), n);
        proof {
            Context::lemma_extends_trans(old(ctx), &mid, ctx);
        }
        Ok(v)
    }

    /// Converts `val` to `to_type` (TruncOrBitCast).
    pub fn build_trunc_or_bitcast(&self, ctx: &mut Context, val: ValueRef, to_type: TypeRef) -> (r: ValueRef)
        requires
            old(ctx).wf(),
            self.positioned(old(ctx)),
            old(ctx).valid_value(val),
            old(ctx).valid_type(to_type),
        ensures
            final(ctx).wf(),
            Context::extends(old(ctx), final(ctx)),
            self.appended(old(ctx), final(ctx), r),
            final(ctx).op_of(r) == Op::Cast(CastOp::TruncOrBitCast, val, to_type),
            final(ctx).values@[r.index as int].name.index == 0,
            final(ctx).names == old(ctx).names,
    {
        self.emit(ctx, Op::Cast(CastOp::TruncOrBitCast, val, to_type), NameId { index: 0 })
    }

    /// As `build_trunc_or_bitcast`, with a name for the result.
    pub fn build_trunc_or_bitcast_with_name(&self, ctx: &mut Context, val: ValueRef, to_type: TypeRef, name: &str) -> (r: Result<ValueRef, NameError>)
        requires
            old(ctx).wf(),
            self.positioned(old(ctx)),
            old(ctx).valid_value(val),
            old(ctx).valid_type(to_type),
        ensures
            final(ctx).wf(),
            Context::extends(old(ctx), final(ctx)),
            match r {
                Ok(v) => {
                    &&& self.appended(old(ctx), final(ctx), v)
                    &&& final(ctx).op_of(v) == Op::Cast(CastOp::TruncOrBitCast, val, to_type)
                    &&& final(ctx).names.text(final(ctx).values@[v.index as int].name) == name.spec_bytes()
                },
                Err(_) => *final(ctx) == *old(ctx),
            },
            r is Err ==> !(nul_free(name.spec_bytes()) && old(ctx).name_room(name.spec_bytes())),
            Context::names_grow(old(ctx), final(ctx), name.spec_bytes()),
    {
        let n = match ctx.intern_name(name) {
            Ok(n) => n,
            Err(e) => {
                return Err(e);
            },
        };
        let ghost mid = *ctx;
        let v = self.emit(ctx, Op::Cast(CastOp::TruncOrBitCast, val, to_type), n);
        proof {
            Context::lemma_extends_trans(old(ctx), &mid, ctx);
        }
        Ok(v)
    }

    /// Converts `val` to `to_type` (SExt).
    pub fn build_sext(&self, ctx: &mut Context, val: ValueRef, to_type: TypeRef) -> (r: ValueRef)
        requires
            old(ctx).wf(),
            self.positioned(old(ctx)),
            old(ctx).valid_value(val),
            old(ctx).valid_type(to_type),
        ensures
            final(ctx).wf(),
            Context::extends(old(ctx), final(ctx)),
            self.appended(old(ctx), final(ctx), r),
            final(ctx).op_of(r) == Op::Cast(CastOp::SExt, val, to_type),
            final(ctx).values@[r.index as int].name.index == 0,
            final(ctx).names == old(ctx).names,
    {
        self.emit(ctx, Op::Cast(CastOp::SExt, val, to_type), NameId { index: 0 })
    }

    /// As `build_sext`, with a name for the result.
    pub fn build_sext_with_name(&self, ctx: &mut Context, val: ValueRef, to_type: TypeRef, name: &str) -> (r: Result<ValueRef, NameError>)
        requires
            old(ctx).wf(),
            self.positioned(old(ctx)),
            old(ctx).valid_value(val),
            old(ctx).valid_type(to_type),
        ensures
            final(ctx).wf(),
            Context::extends(old(ctx), final(ctx)),
            match r {
                Ok(v) => {
                    &&& self.appended(old(ctx), final(ctx), v)
                    &&& final(ctx).op_of(v) == Op::Cast(CastOp::SExt, val, to_type)
                    &&& final(ctx).names.text(final(ctx).values@[v.index as int].name) == name.spec_bytes()
                },
                Err(_) => *final(ctx) == *old(ctx),
            },
            r is Err ==> !(nul_free(name.spec_bytes()) && old(ctx).name_room(name.spec_bytes())),
            Context::names_grow(old(ctx), final(ctx), name.spec_bytes()),
    {
        let n = match ctx.intern_name(name) {
            Ok(n) => n,
            Err(e) => {
                return Err(e);
            },
        };
        let ghost mid = *ctx;
        let v = self.emit(ctx, Op::Cast(CastOp::SExt, val, to_type), n);
        proof {
            Context::lemma_extends_trans(old(ctx), &mid, ctx);
        }
        Ok(v)
    }

    /// `agg_val` with field `index` replaced by `elt_val`.
    pub fn build_insert_value(&self, ctx: &mut Context, agg_val: ValueRef, elt_val: ValueRef, index: u32) -> (r: ValueRef)
        requires
            old(ctx).wf(),
            self.positioned(old(ctx)),
            old(ctx).valid_value(agg_val),
            old(ctx).valid_value(elt_val),
        ensures
            final(ctx).wf(),
            Context::extends(old(ctx), final(ctx)),
            self.appended(old(ctx), final(ctx), r),
            final(ctx).op_of(r) == Op::InsertValue(agg_val, elt_val, index),
            final(ctx).values@[r.index as int].name.index == 0,
            final(ctx).names == old(ctx).names,
    {
        self.emit(ctx, Op::InsertValue(agg_val, elt_val, index), NameId { index: 0 })
    }

    /// As `build_insert_value`, with a name for the result.
    pub fn build_insert_value_with_name(&self, ctx: &mut Context, agg_val: ValueRef, elt_val: ValueRef, index: u32, name: &str) -> (r: Result<ValueRef, NameError>)
        requires
            old(ctx).wf(),
            self.positioned(old(ctx)),
            old(ctx).valid_value(agg_val),
            old(ctx).valid_value(elt_val),
        ensures
            final(ctx).wf(),
            Context::extends(old(ctx), final(ctx)),
            match r {
                Ok(v) => {
                    &&& self.appended(old(ctx), final(ctx), v)
                    &&& final(ctx).op_of(v) == Op::InsertValue(agg_val, elt_val, index)
                    &&& final(ctx).names.text(final(ctx).values@[v.index as int].name) == name.spec_bytes()
                },
                Err(_) => *final(ctx) == *old(ctx),
            },
            r is Err ==> !(nul_free(name.spec_bytes()) && old(ctx).name_room(name.spec_bytes())),
            Context::names_grow(old(ctx), final(ctx), name.spec_bytes()),
    {
        let n = match ctx.intern_name(name) {
            Ok(n) => n,
            Err(e) => {
                return Err(e);
            },
        };
        let ghost mid = *ctx;
        let v = self.emit(ctx, Op::InsertValue(agg_val, elt_val, index), n);
        proof {
            Context::lemma_extends_trans(old(ctx), &mid, ctx);
        }
        Ok(v)
    }

    /// Field `index` of `agg_val`.
    pub fn build_extract_value(&self, ctx: &mut Context, agg_val: ValueRef, index: u32) -> (r: ValueRef)
        requires
            old(ctx).wf(),
            self.positioned(old(ctx)),
            old(ctx).valid_value(agg_val),
        ensures
            final(ctx).wf(),
            Context::extends(old(ctx), final(ctx)),
            self.appended(old(ctx), final(ctx), r),
            final(ctx).op_of(r) == Op::ExtractValue(agg_val, index),
            final(ctx).values@[r.index as int].name.index == 0,
            final(ctx).names == old(ctx).names,
    {
        self.emit(ctx, Op::ExtractValue(agg_val, index), NameId { index: 0 })
    }

    /// As `build_extract_value`, with a name for the result.
    pub fn build_extract_value_with_name(&self, ctx: &mut Context, agg_val: ValueRef, index: u32, name: &str) -> (r: Result<ValueRef, NameError>)
        requires
            old(ctx).wf(),
            self.positioned(old(ctx)),
            old(ctx).valid_value(agg_val),
        ensures
            final(ctx).wf(),
            Context::extends(old(ctx), final(ctx)),
            match r {
                Ok(v) => {
                    &&& self.appended(old(ctx), final(ctx), v)
                    &&& final(ctx).op_of(v) == Op::ExtractValue(agg_val, index)
                    &&& final(ctx).names.text(final(ctx).values@[v.index as int].name) == name.spec_bytes()
                },
                Err(_) => *final(ctx) == *old(ctx),
            },
            r is Err ==> !(nul_free(name.spec_bytes()) && old(ctx).name_room(name.spec_bytes())),
            Context::names_grow(old(ctx), final(ctx), name.spec_bytes()),
    {
        let n = match ctx.intern_name(name) {
            Ok(n) => n,
            Err(e) => {
                return Err(e);
            },
        };
        let ghost mid = *ctx;
        let v = self.emit(ctx, Op::ExtractValue(agg_val, index), n);
        proof {
            Context::lemma_extends_trans(old(ctx), &mid, ctx);
        }
        Ok(v)
    }

    /// `lhs Add rhs`.
    pub fn build_add(&self, ctx: &mut Context, lhs: ValueRef, rhs: ValueRef) -> (r: ValueRef)
        requires
            old(ctx).wf(),
            self.positioned(old(ctx)),
            old(ctx).valid_value(lhs),
            old(ctx).valid_value(rhs),
        ensures
            final(ctx).wf(),
            Context::extends(old(ctx), final(ctx)),
            self.appended(old(ctx), final(ctx), r),
            final(ctx).op_of(r) == Op::Binary(BinOp::Add, lhs, rhs),
            final(ctx).values@[r.index as int].name.index == 0,
            final(ctx).names == old(ctx).names,
    {
        self.emit(ctx, Op::Binary(BinOp::Add, lhs, rhs), NameId { index: 0 })
    }

    /// As `build_add`, with a name for the result.
    pub fn build_add_with_name(&self, ctx: &mut Context, lhs: ValueRef, rhs: ValueRef, name: &str) -> (r: Result<ValueRef, NameError>)
        requires
            old(ctx).wf(),
            self.positioned(old(ctx)),
            old(ctx).valid_value(lhs),
            old(ctx).valid_value(rhs),
        ensures
            final(ctx).wf(),
            Context::extends(old(ctx), final(ctx)),
            match r {
                Ok(v) => {
                    &&& self.appended(old(ctx), final(ctx), v)
                    &&& final(ctx).op_of(v) == Op::Binary(BinOp::Add, lhs, rhs)
                    &&& final(ctx).names.text(final(ctx).values@[v.index as int].name) == name.spec_bytes()
                },
                Err(_) => *final(ctx) == *old(ctx),
            },
            r is Err ==> !(nul_free(name.spec_bytes()) && old(ctx).name_room(name.spec_bytes())),
            Context::names_grow(old(ctx), final(ctx), name.spec_bytes()),
    {
        let n = match ctx.intern_name(name) {
            Ok(n) => n,
            Err(e) => {
                return Err(e);
            },
        };
        let ghost mid = *ctx;
        let v = self.emit(ctx, Op::Binary(BinOp::Add, lhs, rhs), n);
        proof {
            Context::lemma_extends_trans(old(ctx), &mid, ctx);
        }
        Ok(v)
    }

    /// `lhs Sub rhs`.
    pub fn build_sub(&self, ctx: &mut Context, lhs: ValueRef, rhs: ValueRef) -> (r: ValueRef)
        requires
            old(ctx).wf(),
            self.positioned(old(ctx)),
            old(ctx).valid_value(lhs),
            old(ctx).valid_value(rhs),
        ensures
            final(ctx).wf(),
            Context::extends(old(ctx), final(ctx)),
            self.appended(old(ctx), final(ctx), r),
            final(ctx).op_of(r) == Op::Binary(BinOp::Sub, lhs, rhs),
            final(ctx).values@[r.index as int].name.index == 0,
            final(ctx).names == old(ctx).names,
    {
        self.emit(ctx, Op::Binary(BinOp::Sub, lhs, rhs), NameId { index: 0 })
    }

    /// As `build_sub`, with a name for the result.
    pub fn build_sub_with_name(&self, ctx: &mut Context, lhs: ValueRef, rhs: ValueRef, name: &str) -> (r: Result<ValueRef, NameError>)
        requires
            old(ctx).wf(),
            self.positioned(old(ctx)),
            old(ctx).valid_value(lhs),
            old(ctx).valid_value(rhs),
        ensures
            final(ctx).wf(),
            Context::extends(old(ctx), final(ctx)),
            match r {
                Ok(v) => {
                    &&& self.appended(old(ctx), final(ctx), v)
                    &&& final(ctx).op_of(v) == Op::Binary(BinOp::Sub, lhs, rhs)
                    &&& final(ctx).names.text(final(ctx).values@[v.index as int].name) == name.spec_bytes()
                },
                Err(_) => *final(ctx) == *old(ctx),
            },
            r is Err ==> !(nul_free(name.spec_bytes()) && old(ctx).name_room(name.spec_bytes())),
            Context::names_grow(old(ctx), final(ctx), name.spec_bytes()),
    {
        let n = match ctx.intern_name(name) {
            Ok(n) => n,
            Err(e) => {
                return Err(e);
            },
        };
        let ghost mid = *ctx;
        let v = self.emit(ctx, Op::Binary(BinOp::Sub, lhs, rhs), n);
        proof {
            Context::lemma_extends_trans(old(ctx), &mid, ctx);
        }
        Ok(v)
    }

    /// `lhs Mul rhs`.
    pub fn build_mul(&self, ctx: &mut Context, lhs: ValueRef, rhs: ValueRef) -> (r: ValueRef)
        requires
            old(ctx).wf(),
            self.positioned(old(ctx)),
            old(ctx).valid_value(lhs),
            old(ctx).valid_value(rhs),
        ensures
            final(ctx).wf(),
            Context::extends(old(ctx), final(ctx)),
            self.appended(old(ctx), final(ctx), r),
            final(ctx).op_of(r) == Op::Binary(BinOp::Mul, lhs, rhs),
            final(ctx).values@[r.index as int].name.index == 0,
            final(ctx).names == old(ctx).names,
    {
        self.emit(ctx, Op::Binary(BinOp::Mul, lhs, rhs), NameId { index: 0 })
    }

    /// As `build_mul`, with a name for the result.
    pub fn build_mul_with_name(&self, ctx: &mut Context, lhs: ValueRef, rhs: ValueRef, name: &str) -> (r: Result<ValueRef, NameError>)
        requires
            old(ctx).wf(),
            self.positioned(old(ctx)),
            old(ctx).valid_value(lhs),
            old(ctx).valid_value(rhs),
        ensures
            final(ctx).wf(),
            Context::extends(old(ctx), final(ctx)),
            match r {
                Ok(v) => {
                    &&& self.appended(old(ctx), final(ctx), v)
                    &&& final(ctx).op_of(v) == Op::Binary(BinOp::Mul, lhs, rhs)
                    &&& final(ctx).names.text(final(ctx).values@[v.index as int].name) == name.spec_bytes()
                },
                Err(_) => *final(ctx) == *old(ctx),
            },
            r is Err ==> !(nul_free(name.spec_bytes()) && old(ctx).name_room(name.spec_bytes())),
            Context::names_grow(old(ctx), final(ctx), name.spec_bytes()),
    {
        let n = match ctx.intern_name(name) {
            Ok(n) => n,
            Err(e) => {
                return Err(e);
            },
        };
        let ghost mid = *ctx;
        let v = self.emit(ctx, Op::Binary(BinOp::Mul, lhs, rhs), n);
        proof {
            Context::lemma_extends_trans(old(ctx), &mid, ctx);
        }
        Ok(v)
    }

    /// `lhs SDiv rhs`.
    pub fn build_sdiv(&self, ctx: &mut Context, lhs: ValueRef, rhs: ValueRef) -> (r: ValueRef)
        requires
            old(ctx).wf(),
            self.positioned(old(ctx)),
            old(ctx).valid_value(lhs),
            old(ctx).valid_value(rhs),
        ensures
            final(ctx).wf(),
            Context::extends(old(ctx), final(ctx)),
            self.appended(old(ctx), final(ctx), r),
            final(ctx).op_of(r) == Op::Binary(BinOp::SDiv, lhs, rhs),
            final(ctx).values@[r.index as int].name.index == 0,
            final(ctx).names == old(ctx).names,
    {
        self.emit(ctx, Op::Binary(BinOp::SDiv, lhs, rhs), NameId { index: 0 })
    }

    /// As `build_sdiv`, with a name for the result.
    pub fn build_sdiv_with_name(&self, ctx: &mut Context, lhs: ValueRef, rhs: ValueRef, name: &str) -> (r: Result<ValueRef, NameError>)
        requires
            old(ctx).wf(),
            self.positioned(old(ctx)),
            old(ctx).valid_value(lhs),
            old(ctx).valid_value(rhs),
        ensures
            final(ctx).wf(),
            Context::extends(old(ctx), final(ctx)),
            match r {
                Ok(v) => {
                    &&& self.appended(old(ctx), final(ctx), v)
                    &&& final(ctx).op_of(v) == Op::Binary(BinOp::SDiv, lhs, rhs)
                    &&& final(ctx).names.text(final(ctx).values@[v.index as int].name) == name.spec_bytes()
                },
                Err(_) => *final(ctx) == *old(ctx),
            },
            r is Err ==> !(nul_free(name.spec_bytes()) && old(ctx).name_room(name.spec_bytes())),
            Context::names_grow(old(ctx), final(ctx), name.spec_bytes()),
    {
        let n = match ctx.intern_name(name) {
            Ok(n) => n,
            Err(e) => {
                return Err(e);
            },
        };
        let ghost mid = *ctx;
        let v = self.emit(ctx, Op::Binary(BinOp::SDiv, lhs, rhs), n);
        proof {
            Context::lemma_extends_trans(old(ctx), &mid, ctx);
        }
        Ok(v)
    }

    /// `lhs UDiv rhs`.
    pub fn build_udiv(&self, ctx: &mut Context, lhs: ValueRef, rhs: ValueRef) -> (r: ValueRef)
        requires
            old(ctx).wf(),
            self.positioned(old(ctx)),
            old(ctx).valid_value(lhs),
            old(ctx).valid_value(rhs),
        ensures
            final(ctx).wf(),
            Context::extends(old(ctx), final(ctx)),
            self.appended(old(ctx), final(ctx), r),
            final(ctx).op_of(r) == Op::Binary(BinOp::UDiv, lhs, rhs),
            final(ctx).values@[r.index as int].name.index == 0,
            final(ctx).names == old(ctx).names,
    {
        self.emit(ctx, Op::Binary(BinOp::UDiv, lhs, rhs), NameId { index: 0 })
    }

    /// As `build_udiv`, with a name for the result.
    pub fn build_udiv_with_name(&self, ctx: &mut Context, lhs: ValueRef, rhs: ValueRef, name: &str) -> (r: Result<ValueRef, NameError>)
        requires
            old(ctx).wf(),
            self.positioned(old(ctx)),
            old(ctx).valid_value(lhs),
            old(ctx).valid_value(rhs),
        ensures
            final(ctx).wf(),
            Context::extends(old(ctx), final(ctx)),
            match r {
                Ok(v) => {
                    &&& self.appended(old(ctx), final(ctx), v)
                    &&& final(ctx).op_of(v) == Op::Binary(BinOp::UDiv, lhs, rhs)
                    &&& final(ctx).names.text(final(ctx).values@[v.index as int].name) == name.spec_bytes()
                },
                Err(_) => *final(ctx) == *old(ctx),
            },
            r is Err ==> !(nul_free(name.spec_bytes()) && old(ctx).name_room(name.spec_bytes())),
            Context::names_grow(old(ctx), final(ctx), name.spec_bytes()),
    {
        let n = match ctx.intern_name(name) {
            Ok(n) => n,
            Err(e) => {
                return Err(e);
            },
        };
        let ghost mid = *ctx;
        let v = self.emit(ctx, Op::Binary(BinOp::UDiv, lhs, rhs), n);
        proof {
            Context::lemma_extends_trans(old(ctx), &mid, ctx);
        }
        Ok(v)
    }

    /// `lhs SRem rhs`.
    pub fn build_srem(&self, ctx: &mut Context, lhs: ValueRef, rhs: ValueRef) -> (r: ValueRef)
        requires
            old(ctx).wf(),
            self.positioned(old(ctx)),
            old(ctx).valid_value(lhs),
            old(ctx).valid_value(rhs),
        ensures
            final(ctx).wf(),
            Context::extends(old(ctx), final(ctx)),
            self.appended(old(ctx), final(ctx), r),
            final(ctx).op_of(r) == Op::Binary(BinOp::SRem, lhs, rhs),
            final(ctx).values@[r.index as int].name.index == 0,
            final(ctx).names == old(ctx).names,
    {
        self.emit(ctx, Op::Binary(BinOp::SRem, lhs, rhs), NameId { index: 0 })
    }

    /// As `build_srem`, with a name for the result.
    pub fn build_srem_with_name(&self, ctx: &mut Context, lhs: ValueRef, rhs: ValueRef, name: &str) -> (r: Result<ValueRef, NameError>)
        requires
            old(ctx).wf(),
            self.positioned(old(ctx)),
            old(ctx).valid_value(lhs),
            old(ctx).valid_value(rhs),
        ensures
            final(ctx).wf(),
            Context::extends(old(ctx), final(ctx)),
            match r {
                Ok(v) => {
                    &&& self.appended(old(ctx), final(ctx), v)
                    &&& final(ctx).op_of(v) == Op::Binary(BinOp::SRem, lhs, rhs)
                    &&& final(ctx).names.text(final(ctx).values@[v.index as int].name) == name.spec_bytes()
                },
                Err(_) => *final(ctx) == *old(ctx),
            },
            r is Err ==> !(nul_free(name.spec_bytes()) && old(ctx).name_room(name.spec_bytes())),
            Context::names_grow(old(ctx), final(ctx), name.spec_bytes()),
    {
        let n = match ctx.intern_name(name) {
            Ok(n) => n,
            Err(e) => {
                return Err(e);
            },
        };
        let ghost mid = *ctx;
        let v = self.emit(ctx, Op::Binary(BinOp::SRem, lhs, rhs), n);
        proof {
            Context::lemma_extends_trans(old(ctx), &mid, ctx);
        }
        Ok(v)
    }

    /// `lhs URem rhs`.
    pub fn build_urem(&self, ctx: &mut Context, lhs: ValueRef, rhs: ValueRef) -> (r: ValueRef)
        requires
            old(ctx).wf(),
            self.positioned(old(ctx)),
            old(ctx).valid_value(lhs),
            old(ctx).valid_value(rhs),
        ensures
            final(ctx).wf(),
            Context::extends(old(ctx), final(ctx)),
            self.appended(old(ctx), final(ctx), r),
            final(ctx).op_of(r) == Op::Binary(BinOp::URem, lhs, rhs),
            final(ctx).values@[r.index as int].name.index == 0,
            final(ctx).names == old(ctx).names,
    {
        self.emit(ctx, Op::Binary(BinOp::URem, lhs, rhs), NameId { index: 0 })
    }

    /// As `build_urem`, with a name for the result.
    pub fn build_urem_with_name(&self, ctx: &mut Context, lhs: ValueRef, rhs: ValueRef, name: &str) -> (r: Result<ValueRef, NameError>)
        requires
            old(ctx).wf(),
            self.positioned(old(ctx)),
            old(ctx).valid_value(lhs),
            old(ctx).valid_value(rhs),
        ensures
            final(ctx).wf(),
            Context::extends(old(ctx), final(ctx)),
            match r {
                Ok(v) => {
                    &&& self.appended(old(ctx), final(ctx), v)
                    &&& final(ctx).op_of(v) == Op::Binary(BinOp::URem, lhs, rhs)
                    &&& final(ctx).names.text(final(ctx).values@[v.index as int].name) == name.spec_bytes()
                },
                Err(_) => *final(ctx) == *old(ctx),
            },
            r is Err ==> !(nul_free(name.spec_bytes()) && old(ctx).name_room(name.spec_bytes())),
            Context::names_grow(old(ctx), final(ctx), name.spec_bytes()),
    {
        let n = match ctx.intern_name(name) {
            Ok(n) => n,
            Err(e) => {
                return Err(e);
            },
        };
        let ghost mid = *ctx;
        let v = self.emit(ctx, Op::Binary(BinOp::URem, lhs, rhs), n);
        proof {
            Context::lemma_extends_trans(old(ctx), &mid, ctx);
        }
        Ok(v)
    }

    /// `lhs And rhs`.
    pub fn build_and(&self, ctx: &mut Context, lhs: ValueRef, rhs: ValueRef) -> (r: ValueRef)
        requires
            old(ctx).wf(),
            self.positioned(old(ctx)),
            old(ctx).valid_value(lhs),
            old(ctx).valid_value(rhs),
        ensures
            final(ctx).wf(),
            Context::extends(old(ctx), final(ctx)),
            self.appended(old(ctx), final(ctx), r),
            final(ctx).op_of(r) == Op::Binary(BinOp::And, lhs, rhs),
            final(ctx).values@[r.index as int].name.index == 0,
            final(ctx).names == old(ctx).names,
    {
        self.emit(ctx, Op::Binary(BinOp::And, lhs, rhs), NameId { index: 0 })
    }

    /// As `build_and`, with a name for the result.
    pub fn build_and_with_name(&self, ctx: &mut Context, lhs: ValueRef, rhs: ValueRef, name: &str) -> (r: Result<ValueRef, NameError>)
        requires
            old(ctx).wf(),
            self.positioned(old(ctx)),
            old(ctx).valid_value(lhs),
            old(ctx).valid_value(rhs),
        ensures
            final(ctx).wf(),
            Context::extends(old(ctx), final(ctx)),
            match r {
                Ok(v) => {
                    &&& self.appended(old(ctx), final(ctx), v)
                    &&& final(ctx).op_of(v) == Op::Binary(BinOp::And, lhs, rhs)
                    &&& final(ctx).names.text(final(ctx).values@[v.index as int].name) == name.spec_bytes()
                },
                Err(_) => *final(ctx) == *old(ctx),
            },
            r is Err ==> !(nul_free(name.spec_bytes()) && old(ctx).name_room(name.spec_bytes())),
            Context::names_grow(old(ctx), final(ctx), name.spec_bytes()),
    {
        let n = match ctx.intern_name(name) {
            Ok(n) => n,
            Err(e) => {
                return Err(e);
            },
        };
        let ghost mid = *ctx;
        let v = self.emit(ctx, Op::Binary(BinOp::And, lhs, rhs), n);
        proof {
            Context::lemma_extends_trans(old(ctx), &mid, ctx);
        }
        Ok(v)
    }

    /// `lhs Or rhs`.
    pub fn build_or(&self, ctx: &mut Context, lhs: ValueRef, rhs: ValueRef) -> (r: ValueRef)
        requires
            old(ctx).wf(),
            self.positioned(old(ctx)),
            old(ctx).valid_value(lhs),
            old(ctx).valid_value(rhs),
        ensures
            final(ctx).wf(),
            Context::extends(old(ctx), final(ctx)),
            self.appended(old(ctx), final(ctx), r),
            final(ctx).op_of(r) == Op::Binary(BinOp::Or, lhs, rhs),
            final(ctx).values@[r.index as int].name.index == 0,
            final(ctx).names == old(ctx).names,
    {
        self.emit(ctx, Op::Binary(BinOp::Or, lhs, rhs), NameId { index: 0 })
    }

    /// As `build_or`, with a name for the result.
    pub fn build_or_with_name(&self, ctx: &mut Context, lhs: ValueRef, rhs: ValueRef, name: &str) -> (r: Result<ValueRef, NameError>)
        requires
            old(ctx).wf(),
            self.positioned(old(ctx)),
            old(ctx).valid_value(lhs),
            old(ctx).valid_value(rhs),
        ensures
            final(ctx).wf(),
            Context::extends(old(ctx), final(ctx)),
            match r {
                Ok(v) => {
                    &&& self.appended(old(ctx), final(ctx), v)
                    &&& final(ctx).op_of(v) == Op::Binary(BinOp::Or, lhs, rhs)
                    &&& final(ctx).names.text(final(ctx).values@[v.index as int].name) == name.spec_bytes()
                },
                Err(_) => *final(ctx) == *old(ctx),
            },
            r is Err ==> !(nul_free(name.spec_bytes()) && old(ctx).name_room(name.spec_bytes())),
            Context::names_grow(old(ctx), final(ctx), name.spec_bytes()),
    {
        let n = match ctx.intern_name(name) {
            Ok(n) => n,
            Err(e) => {
                return Err(e);
            },
        };
        let ghost mid = *ctx;
        let v = self.emit(ctx, Op::Binary(BinOp::Or, lhs, rhs), n);
        proof {
            Context::lemma_extends_trans(old(ctx), &mid, ctx);
        }
        Ok(v)
    }

    /// `lhs Xor rhs`.
    pub fn build_xor(&self, ctx: &mut Context, lhs: ValueRef, rhs: ValueRef) -> (r: ValueRef)
        requires
            old(ctx).wf(),
            self.positioned(old(ctx)),
            old(ctx).valid_value(lhs),
            old(ctx).valid_value(rhs),
        ensures
            final(ctx).wf(),
            Context::extends(old(ctx), final(ctx)),
            self.appended(old(ctx), final(ctx), r),
            final(ctx).op_of(r) == Op::Binary(BinOp::Xor, lhs, rhs),
            final(ctx).values@[r.index as int].name.index == 0,
            final(ctx).names == old(ctx).names,
    {
        self.emit(ctx, Op::Binary(BinOp::Xor, lhs, rhs), NameId { index: 0 })
    }

    /// As `build_xor`, with a name for the result.
    pub fn build_xor_with_name(&self, ctx: &mut Context, lhs: ValueRef, rhs: ValueRef, name: &str) -> (r: Result<ValueRef, NameError>)
        requires
            old(ctx).wf(),
            self.positioned(old(ctx)),
            old(ctx).valid_value(lhs),
            old(ctx).valid_value(rhs),
        ensures
            final(ctx).wf(),
            Context::extends(old(ctx), final(ctx)),
            match r {
                Ok(v) => {
                    &&& self.appended(old(ctx), final(ctx), v)
                    &&& final(ctx).op_of(v) == Op::Binary(BinOp::Xor, lhs, rhs)
                    &&& final(ctx).names.text(final(ctx).values@[v.index as int].name) == name.spec_bytes()
                },
                Err(_) => *final(ctx) == *old(ctx),
            },
            r is Err ==> !(nul_free(name.spec_bytes()) && old(ctx).name_room(name.spec_bytes())),
            Context::names_grow(old(ctx), final(ctx), name.spec_bytes()),
    {
        let n = match ctx.intern_name(name) {
            Ok(n) => n,
            Err(e) => {
                return Err(e);
            },
        };
        let ghost mid = *ctx;
        let v = self.emit(ctx, Op::Binary(BinOp::Xor, lhs, rhs), n);
        proof {
            Context::lemma_extends_trans(old(ctx), &mid, ctx);
        }
        Ok(v)
    }

    /// `lhs Shl rhs`.
    pub fn build_shl(&self, ctx: &mut Context, lhs: ValueRef, rhs: ValueRef) -> (r: ValueRef)
        requires
            old(ctx).wf(),
            self.positioned(old(ctx)),
            old(ctx).valid_value(lhs),
            old(ctx).valid_value(rhs),
        ensures
            final(ctx).wf(),
            Context::extends(old(ctx), final(ctx)),
            self.appended(old(ctx), final(ctx), r),
            final(ctx).op_of(r) == Op::Binary(BinOp::Shl, lhs, rhs),
            final(ctx).values@[r.index as int].name.index == 0,
            final(ctx).names == old(ctx).names,
    {
        self.emit(ctx, Op::Binary(BinOp::Shl, lhs, rhs), NameId { index: 0 })
    }

    /// As `build_shl`, with a name for the result.
    pub fn build_shl_with_name(&self, ctx: &mut Context, lhs: ValueRef, rhs: ValueRef, name: &str) -> (r: Result<ValueRef, NameError>)
        requires
            old(ctx).wf(),
            self.positioned(old(ctx)),
            old(ctx).valid_value(lhs),
            old(ctx).valid_value(rhs),
        ensures
            final(ctx).wf(),
            Context::extends(old(ctx), final(ctx)),
            match r {
                Ok(v) => {
                    &&& self.appended(old(ctx), final(ctx), v)
                    &&& final(ctx).op_of(v) == Op::Binary(BinOp::Shl, lhs, rhs)
                    &&& final(ctx).names.text(final(ctx).values@[v.index as int].name) == name.spec_bytes()
                },
                Err(_) => *final(ctx) == *old(ctx),
            },
            r is Err ==> !(nul_free(name.spec_bytes()) && old(ctx).name_room(name.spec_bytes())),
            Context::names_grow(old(ctx), final(ctx), name.spec_bytes()),
    {
        let n = match ctx.intern_name(name) {
            Ok(n) => n,
            Err(e) => {
                return Err(e);
            },
        };
        let ghost mid = *ctx;
        let v = self.emit(ctx, Op::Binary(BinOp::Shl, lhs, rhs), n);
        proof {
            Context::lemma_extends_trans(old(ctx), &mid, ctx);
        }
        Ok(v)
    }

    /// `lhs AShr rhs`.
    pub fn build_ashr(&self, ctx: &mut Context, lhs: ValueRef, rhs: ValueRef) -> (r: ValueRef)
        requires
            old(ctx).wf(),
            self.positioned(old(ctx)),
            old(ctx).valid_value(lhs),
            old(ctx).valid_value(rhs),
        ensures
            final(ctx).wf(),
            Context::extends(old(ctx), final(ctx)),
            self.appended(old(ctx), final(ctx), r),
            final(ctx).op_of(r) == Op::Binary(BinOp::AShr, lhs, rhs),
            final(ctx).values@[r.index as int].name.index == 0,
            final(ctx).names == old(ctx).names,
    {
        self.emit(ctx, Op::Binary(BinOp::AShr, lhs, rhs), NameId { index: 0 })
    }

    /// As `build_ashr`, with a name for the result.
    pub fn build_ashr_with_name(&self, ctx: &mut Context, lhs: ValueRef, rhs: ValueRef, name: &str) -> (r: Result<ValueRef, NameError>)
        requires
            old(ctx).wf(),
            self.positioned(old(ctx)),
            old(ctx).valid_value(lhs),
            old(ctx).valid_value(rhs),
        ensures
            final(ctx).wf(),
            Context::extends(old(ctx), final(ctx)),
            match r {
                Ok(v) => {
                    &&& self.appended(old(ctx), final(ctx), v)
                    &&& final(ctx).op_of(v) == Op::Binary(BinOp::AShr, lhs, rhs)
                    &&& final(ctx).names.text(final(ctx).values@[v.index as int].name) == name.spec_bytes()
                },
                Err(_) => *final(ctx) == *old(ctx),
            },
            r is Err ==> !(nul_free(name.spec_bytes()) && old(ctx).name_room(name.spec_bytes())),
            Context::names_grow(old(ctx), final(ctx), name.spec_bytes()),
    {
        let n = match ctx.intern_name(name) {
            Ok(n) => n,
            Err(e) => {
                return Err(e);
            },
        };
        let ghost mid = *ctx;
        let v = self.emit(ctx, Op::Binary(BinOp::AShr, lhs, rhs), n);
        proof {
            Context::lemma_extends_trans(old(ctx), &mid, ctx);
        }
        Ok(v)
    }

    /// `lhs LShr rhs`.
    pub fn build_lshr(&self, ctx: &mut Context, lhs: ValueRef, rhs: ValueRef) -> (r: ValueRef)
        requires
            old(ctx).wf(),
            self.positioned(old(ctx)),
            old(ctx).valid_value(lhs),
            old(ctx).valid_value(rhs),
        ensures
            final(ctx).wf(),
            Context::extends(old(ctx), final(ctx)),
            self.appended(old(ctx), final(ctx), r),
            final(ctx).op_of(r) == Op::Binary(BinOp::LShr, lhs, rhs),
            final(ctx).values@[r.index as int].name.index == 0,
            final(ctx).names == old(ctx).names,
    {
        self.emit(ctx, Op::Binary(BinOp::LShr, lhs, rhs), NameId { index: 0 })
    }

    /// As `build_lshr`, with a name for the result.
    pub fn build_lshr_with_name(&self, ctx: &mut Context, lhs: ValueRef, rhs: ValueRef, name: &str) -> (r: Result<ValueRef, NameError>)
        requires
            old(ctx).wf(),
            self.positioned(old(ctx)),
            old(ctx).valid_value(lhs),
            old(ctx).valid_value(rhs),
        ensures
            final(ctx).wf(),
            Context::extends(old(ctx), final(ctx)),
            match r {
                Ok(v) => {
                    &&& self.appended(old(ctx), final(ctx), v)
                    &&& final(ctx).op_of(v) == Op::Binary(BinOp::LShr, lhs, rhs)
                    &&& final(ctx).names.text(final(ctx).values@[v.index as int].name) == name.spec_bytes()
                },
                Err(_) => *final(ctx) == *old(ctx),
            },
            r is Err ==> !(nul_free(name.spec_bytes()) && old(ctx).name_room(name.spec_bytes())),
            Context::names_grow(old(ctx), final(ctx), name.spec_bytes()),
    {
        let n = match ctx.intern_name(name) {
            Ok(n) => n,
            Err(e) => {
                return Err(e);
            },
        };
        let ghost mid = *ctx;
        let v = self.emit(ctx, Op::Binary(BinOp::LShr, lhs, rhs), n);
        proof {
            Context::lemma_extends_trans(old(ctx), &mid, ctx);
        }
        Ok(v)
    }

    /// Returns `value`.
    pub fn build_ret(&self, ctx: &mut Context, value: ValueRef) -> (r: ValueRef)
        requires
            old(ctx).wf(),
            self.positioned(old(ctx)),
            old(ctx).valid_value(value),
        ensures
            final(ctx).wf(),
            Context::extends(old(ctx), final(ctx)),
            self.appended(old(ctx), final(ctx), r),
            final(ctx).op_of(r) == Op::Ret(value),
            final(ctx).values@[r.index as int].name.index == 0,
            final(ctx).names == old(ctx).names,
    {
        self.emit(ctx, Op::Ret(value), NameId { index: 0 })
    }

    /// Returns from a function without a result.
    pub fn build_ret_void(&self, ctx: &mut Context) -> (r: ValueRef)
        requires
            old(ctx).wf(),
            self.positioned(old(ctx)),
        ensures
            final(ctx).wf(),
            Context::extends(old(ctx), final(ctx)),
            self.appended(old(ctx), final(ctx), r),
            final(ctx).op_of(r) == Op::RetVoid,
            final(ctx).values@[r.index as int].name.index == 0,
            final(ctx).names == old(ctx).names,
    {
        self.emit(ctx, Op::RetVoid, NameId { index: 0 })
    }

    /// Neg of `value`.
    pub fn build_neg(&self, ctx: &mut Context, value: ValueRef) -> (r: ValueRef)
        requires
            old(ctx).wf(),
            self.positioned(old(ctx)),
            old(ctx).valid_value(value),
        ensures
            final(ctx).wf(),
            Context::extends(old(ctx), final(ctx)),
            self.appended(old(ctx), final(ctx), r),
            final(ctx).op_of(r) == Op::Unary(UnOp::Neg, value),
            final(ctx).values@[r.index as int].name.index == 0,
            final(ctx).names == old(ctx).names,
    {
        self.emit(ctx, Op::Unary(UnOp::Neg, value), NameId { index: 0 })
    }

    /// As `build_neg`, with a name for the result.
    pub fn build_neg_with_name(&self, ctx: &mut Context, value: ValueRef, name: &str) -> (r: Result<ValueRef, NameError>)
        requires
            old(ctx).wf(),
            self.positioned(old(ctx)),
            old(ctx).valid_value(value),
        ensures
            final(ctx).wf(),
            Context::extends(old(ctx), final(ctx)),
            match r {
                Ok(v) => {
                    &&& self.appended(old(ctx), final(ctx), v)
                    &&& final(ctx).op_of(v) == Op::Unary(UnOp::Neg, value)
                    &&& final(ctx).names.text(final(ctx).values@[v.index as int].name) == name.spec_bytes()
                },
                Err(_) => *final(ctx) == *old(ctx),
            },
            r is Err ==> !(nul_free(name.spec_bytes()) && old(ctx).name_room(name.spec_bytes())),
            Context::names_grow(old(ctx), final(ctx), name.spec_bytes()),
    {
        let n = match ctx.intern_name(name) {
            Ok(n) => n,
            Err(e) => {
                return Err(e);
            },
        };
        let ghost mid = *ctx;
        let v = self.emit(ctx, Op::Unary(UnOp::Neg, value), n);
        proof {
            Context::lemma_extends_trans(old(ctx), &mid, ctx);
        }
        Ok(v)
    }

    /// FNeg of `value`.
    pub fn build_fneg(&self, ctx: &mut Context, value: ValueRef) -> (r: ValueRef)
        requires
            old(ctx).wf(),
            self.positioned(old(ctx)),
            old(ctx).valid_value(value),
        ensures
            final(ctx).wf(),
            Context::extends(old(ctx), final(ctx)),
            self.appended(old(ctx), final(ctx), r),
            final(ctx).op_of(r) == Op::Unary(UnOp::FNeg, value),
            final(ctx).values@[r.index as int].name.index == 0,
            final(ctx).names == old(ctx).names,
    {
        self.emit(ctx, Op::Unary(UnOp::FNeg, value), NameId { index: 0 })
    }

    /// As `build_fneg`, with a name for the result.
    pub fn build_fneg_with_name(&self, ctx: &mut Context, value: ValueRef, name: &str) -> (r: Result<ValueRef, NameError>)
        requires
            old(ctx).wf(),
            self.positioned(old(ctx)),
            old(ctx).valid_value(value),
        ensures
            final(ctx).wf(),
            Context::extends(old(ctx), final(ctx)),
            match r {
                Ok(v) => {
                    &&& self.appended(old(ctx), final(ctx), v)
                    &&& final(ctx).op_of(v) == Op::Unary(UnOp::FNeg, value)
                    &&& final(ctx).names.text(final(ctx).values@[v.index as int].name) == name.spec_bytes()
                },
                Err(_) => *final(ctx) == *old(ctx),
            },
            r is Err ==> !(nul_free(name.spec_bytes()) && old(ctx).name_room(name.spec_bytes())),
            Context::names_grow(old(ctx), final(ctx), name.spec_bytes()),
    {
        let n = match ctx.intern_name(name) {
            Ok(n) => n,
            Err(e) => {
                return Err(e);
            },
        };
        let ghost mid = *ctx;
        let v = self.emit(ctx, Op::Unary(UnOp::FNeg, value), n);
        proof {
            Context::lemma_extends_trans(old(ctx), &mid, ctx);
        }
        Ok(v)
    }

    /// Not of `value`.
    pub fn build_not(&self, ctx: &mut Context, value: ValueRef) -> (r: ValueRef)
        requires
            old(ctx).wf(),
            self.positioned(old(ctx)),
            old(ctx).valid_value(value),
        ensures
            final(ctx).wf(),
            Context::extends(old(ctx), final(ctx)),
            self.appended(old(ctx), final(ctx), r),
            final(ctx).op_of(r) == Op::Unary(UnOp::Not, value),
            final(ctx).values@[r.index as int].name.index == 0,
            final(ctx).names == old(ctx).names,
    {
        self.emit(ctx, Op::Unary(UnOp::Not, value), NameId { index: 0 })
    }

    /// As `build_not`, with a name for the result.
    pub fn build_not_with_name(&self, ctx: &mut Context, value: ValueRef, name: &str) -> (r: Result<ValueRef, NameError>)
        requires
            old(ctx).wf(),
            self.positioned(old(ctx)),
            old(ctx).valid_value(value),
        ensures
            final(ctx).wf(),
            Context::extends(old(ctx), final(ctx)),
            match r {
                Ok(v) => {
                    &&& self.appended(old(ctx), final(ctx), v)
                    &&& final(ctx).op_of(v) == Op::Unary(UnOp::Not, value)
                    &&& final(ctx).names.text(final(ctx).values@[v.index as int].name) == name.spec_bytes()
                },
                Err(_) => *final(ctx) == *old(ctx),
            },
            r is Err ==> !(nul_free(name.spec_bytes()) && old(ctx).name_room(name.spec_bytes())),
            Context::names_grow(old(ctx), final(ctx), name.spec_bytes()),
    {
        let n = match ctx.intern_name(name) {
            Ok(n) => n,
            Err(e) => {
                return Err(e);
            },
        };
        let ghost mid = *ctx;
        let v = self.emit(ctx, Op::Unary(UnOp::Not, value), n);
        proof {
            Context::lemma_extends_trans(old(ctx), &mid, ctx);
        }
        Ok(v)
    }

    /// IsNotNull of `value`.
    pub fn build_is_not_null(&self, ctx: &mut Context, value: ValueRef) -> (r: ValueRef)
        requires
            old(ctx).wf(),
            self.positioned(old(ctx)),
            old(ctx).valid_value(value),
        ensures
            final(ctx).wf(),
            Context::extends(old(ctx), final(ctx)),
            self.appended(old(ctx), final(ctx), r),
            final(ctx).op_of(r) == Op::Unary(UnOp::IsNotNull, value),
            final(ctx).values@[r.index as int].name.index == 0,
            final(ctx).names == old(ctx).names,
    {
        self.emit(ctx, Op::Unary(UnOp::IsNotNull, value), NameId { index: 0 })
    }

    /// As `build_is_not_null`, with a name for the result.
    pub fn build_is_not_null_with_name(&self, ctx: &mut Context, value: ValueRef, name: &str) -> (r: Result<ValueRef, NameError>)
        requires
            old(ctx).wf(),
            self.positioned(old(ctx)),
            old(ctx).valid_value(value),
        ensures
            final(ctx).wf(),
            Context::extends(old(ctx), final(ctx)),
            match r {
                Ok(v) => {
                    &&& self.appended(old(ctx), final(ctx), v)
                    &&& final(ctx).op_of(v) == Op::Unary(UnOp::IsNotNull, value)
                    &&& final(ctx).names.text(final(ctx).values@[v.index as int].name) == name.spec_bytes()
                },
                Err(_) => *final(ctx) == *old(ctx),
            },
            r is Err ==> !(nul_free(name.spec_bytes()) && old(ctx).name_room(name.spec_bytes())),
            Context::names_grow(old(ctx), final(ctx), name.spec_bytes()),
    {
        let n = match ctx.intern_name(name) {
            Ok(n) => n,
            Err(e) => {
                return Err(e);
            },
        };
        let ghost mid = *ctx;
        let v = self.emit(ctx, Op::Unary(UnOp::IsNotNull, value), n);
        proof {
            Context::lemma_extends_trans(old(ctx), &mid, ctx);
        }
        Ok(v)
    }

    /// Integer comparison `lhs Eq rhs`, of type `i1`.
    pub fn build_icmp_eq(&self, ctx: &mut Context, lhs: ValueRef, rhs: ValueRef) -> (r: ValueRef)
        requires
            old(ctx).wf(),
            self.positioned(old(ctx)),
            old(ctx).valid_value(lhs),
            old(ctx).valid_value(rhs),
        ensures
            final(ctx).wf(),
            Context::extends(old(ctx), final(ctx)),
            self.appended(old(ctx), final(ctx), r),
            final(ctx).op_of(r) == Op::ICmp(IntPredicate::Eq, lhs, rhs),
            final(ctx).values@[r.index as int].name.index == 0,
            final(ctx).names == old(ctx).names,
    {
        self.emit(ctx, Op::ICmp(IntPredicate::Eq, lhs, rhs), NameId { index: 0 })
    }

    /// As `build_icmp_eq`, with a name for the result.
    pub fn build_icmp_eq_with_name(&self, ctx: &mut Context, lhs: ValueRef, rhs: ValueRef, name: &str) -> (r: Result<ValueRef, NameError>)
        requires
            old(ctx).wf(),
            self.positioned(old(ctx)),
            old(ctx).valid_value(lhs),
            old(ctx).valid_value(rhs),
        ensures
            final(ctx).wf(),
            Context::extends(old(ctx), final(ctx)),
            match r {
                Ok(v) => {
                    &&& self.appended(old(ctx), final(ctx), v)
                    &&& final(ctx).op_of(v) == Op::ICmp(IntPredicate::Eq, lhs, rhs)
                    &&& final(ctx).names.text(final(ctx).values@[v.index as int].name) == name.spec_bytes()
                },
                Err(_) => *final(ctx) == *old(ctx),
            },
            r is Err ==> !(nul_free(name.spec_bytes()) && old(ctx).name_room(name.spec_bytes())),
            Context::names_grow(old(ctx), final(ctx), name.spec_bytes()),
    {
        let n = match ctx.intern_name(name) {
            Ok(n) => n,
            Err(e) => {
                return Err(e);
            },
        };
        let ghost mid = *ctx;
        let v = self.emit(ctx, Op::ICmp(IntPredicate::Eq, lhs, rhs), n);
        proof {
            Context::lemma_extends_trans(old(ctx), &mid, ctx);
        }
        Ok(v)
    }

    /// Integer comparison `lhs Ne rhs`, of type `i1`.
    pub fn build_icmp_ne(&self, ctx: &mut Context, lhs: ValueRef, rhs: ValueRef) -> (r: ValueRef)
        requires
            old(ctx).wf(),
            self.positioned(old(ctx)),
            old(ctx).valid_value(lhs),
            old(ctx).valid_value(rhs),
        ensures
            final(ctx).wf(),
            Context::extends(old(ctx), final(ctx)),
            self.appended(old(ctx), final(ctx), r),
            final(ctx).op_of(r) == Op::ICmp(IntPredicate::Ne, lhs, rhs),
            final(ctx).values@[r.index as int].name.index == 0,
            final(ctx).names == old(ctx).names,
    {
        self.emit(ctx, Op::ICmp(IntPredicate::Ne, lhs, rhs), NameId { index: 0 })
    }

    /// As `build_icmp_ne`, with a name for the result.
    pub fn build_icmp_ne_with_name(&self, ctx: &mut Context, lhs: ValueRef, rhs: ValueRef, name: &str) -> (r: Result<ValueRef, NameError>)
        requires
            old(ctx).wf(),
            self.positioned(old(ctx)),
            old(ctx).valid_value(lhs),
            old(ctx).valid_value(rhs),
        ensures
            final(ctx).wf(),
            Context::extends(old(ctx), final(ctx)),
            match r {
                Ok(v) => {
                    &&& self.appended(old(ctx), final(ctx), v)
                    &&& final(ctx).op_of(v) == Op::ICmp(IntPredicate::Ne, lhs, rhs)
                    &&& final(ctx).names.text(final(ctx).values@[v.index as int].name) == name.spec_bytes()
                },
                Err(_) => *final(ctx) == *old(ctx),
            },
            r is Err ==> !(nul_free(name.spec_bytes()) && old(ctx).name_room(name.spec_bytes())),
            Context::names_grow(old(ctx), final(ctx), name.spec_bytes()),
    {
        let n = match ctx.intern_name(name) {
            Ok(n) => n,
            Err(e) => {
                return Err(e);
            },
        };
        let ghost mid = *ctx;
        let v = self.emit(ctx, Op::ICmp(IntPredicate::Ne, lhs, rhs), n);
        proof {
            Context::lemma_extends_trans(old(ctx), &mid, ctx);
        }
        Ok(v)
    }

    /// Integer comparison `lhs Ugt rhs`, of type `i1`.
    pub fn build_icmp_ugt(&self, ctx: &mut Context, lhs: ValueRef, rhs: ValueRef) -> (r: ValueRef)
        requires
            old(ctx).wf(),
            self.positioned(old(ctx)),
            old(ctx).valid_value(lhs),
            old(ctx).valid_value(rhs),
        ensures
            final(ctx).wf(),
            Context::extends(old(ctx), final(ctx)),
            self.appended(old(ctx), final(ctx), r),
            final(ctx).op_of(r) == Op::ICmp(IntPredicate::Ugt, lhs, rhs),
            final(ctx).values@[r.index as int].name.index == 0,
            final(ctx).names == old(ctx).names,
    {
        self.emit(ctx, Op::ICmp(IntPredicate::Ugt, lhs, rhs), NameId { index: 0 })
    }

    /// As `build_icmp_ugt`, with a name for the result.
    pub fn build_icmp_ugt_with_name(&self, ctx: &mut Context, lhs: ValueRef, rhs: ValueRef, name: &str) -> (r: Result<ValueRef, NameError>)
        requires
            old(ctx).wf(),
            self.positioned(old(ctx)),
            old(ctx).valid_value(lhs),
            old(ctx).valid_value(rhs),
        ensures
            final(ctx).wf(),
            Context::extends(old(ctx), final(ctx)),
            match r {
                Ok(v) => {
                    &&& self.appended(old(ctx), final(ctx), v)
                    &&& final(ctx).op_of(v) == Op::ICmp(IntPredicate::Ugt, lhs, rhs)
                    &&& final(ctx).names.text(final(ctx).values@[v.index as int].name) == name.spec_bytes()
                },
                Err(_) => *final(ctx) == *old(ctx),
            },
            r is Err ==> !(nul_free(name.spec_bytes()) && old(ctx).name_room(name.spec_bytes())),
            Context::names_grow(old(ctx), final(ctx), name.spec_bytes()),
    {
        let n = match ctx.intern_name(name) {
            Ok(n) => n,
            Err(e) => {
                return Err(e);
            },
        };
        let ghost mid = *ctx;
        let v = self.emit(ctx, Op::ICmp(IntPredicate::Ugt, lhs, rhs), n);
        proof {
            Context::lemma_extends_trans(old(ctx), &mid, ctx);
        }
        Ok(v)
    }

    /// Integer comparison `lhs Uge rhs`, of type `i1`.
    pub fn build_icmp_uge(&self, ctx: &mut Context, lhs: ValueRef, rhs: ValueRef) -> (r: ValueRef)
        requires
            old(ctx).wf(),
            self.positioned(old(ctx)),
            old(ctx).valid_value(lhs),
            old(ctx).valid_value(rhs),
        ensures
            final(ctx).wf(),
            Context::extends(old(ctx), final(ctx)),
            self.appended(old(ctx), final(ctx), r),
            final(ctx).op_of(r) == Op::ICmp(IntPredicate::Uge, lhs, rhs),
            final(ctx).values@[r.index as int].name.index == 0,
            final(ctx).names == old(ctx).names,
    {
        self.emit(ctx, Op::ICmp(IntPredicate::Uge, lhs, rhs), NameId { index: 0 })
    }

    /// As `build_icmp_uge`, with a name for the result.
    pub fn build_icmp_uge_with_name(&self, ctx: &mut Context, lhs: ValueRef, rhs: ValueRef, name: &str) -> (r: Result<ValueRef, NameError>)
        requires
            old(ctx).wf(),
            self.positioned(old(ctx)),
            old(ctx).valid_value(lhs),
            old(ctx).valid_value(rhs),
        ensures
            final(ctx).wf(),
            Context::extends(old(ctx), final(ctx)),
            match r {
                Ok(v) => {
                    &&& self.appended(old(ctx), final(ctx), v)
                    &&& final(ctx).op_of(v) == Op::ICmp(IntPredicate::Uge, lhs, rhs)
                    &&& final(ctx).names.text(final(ctx).values@[v.index as int].name) == name.spec_bytes()
                },
                Err(_) => *final(ctx) == *old(ctx),
            },
            r is Err ==> !(nul_free(name.spec_bytes()) && old(ctx).name_room(name.spec_bytes())),
            Context::names_grow(old(ctx), final(ctx), name.spec_bytes()),
    {
        let n = match ctx.intern_name(name) {
            Ok(n) => n,
            Err(e) => {
                return Err(e);
            },
        };
        let ghost mid = *ctx;
        let v = self.emit(ctx, Op::ICmp(IntPredicate::Uge, lhs, rhs), n);
        proof {
            Context::lemma_extends_trans(old(ctx), &mid, ctx);
        }
        Ok(v)
    }

    /// Integer comparison `lhs Ult rhs`, of type `i1`.
    pub fn build_icmp_ult(&self, ctx: &mut Context, lhs: ValueRef, rhs: ValueRef) -> (r: ValueRef)
        requires
            old(ctx).wf(),
            self.positioned(old(ctx)),
            old(ctx).valid_value(lhs),
            old(ctx).valid_value(rhs),
        ensures
            final(ctx).wf(),
            Context::extends(old(ctx), final(ctx)),
            self.appended(old(ctx), final(ctx), r),
            final(ctx).op_of(r) == Op::ICmp(IntPredicate::Ult, lhs, rhs),
            final(ctx).values@[r.index as int].name.index == 0,
            final(ctx).names == old(ctx).names,
    {
        self.emit(ctx, Op::ICmp(IntPredicate::Ult, lhs, rhs), NameId { index: 0 })
    }

    /// As `build_icmp_ult`, with a name for the result.
    pub fn build_icmp_ult_with_name(&self, ctx: &mut Context, lhs: ValueRef, rhs: ValueRef, name: &str) -> (r: Result<ValueRef, NameError>)
        requires
            old(ctx).wf(),
            self.positioned(old(ctx)),
            old(ctx).valid_value(lhs),
            old(ctx).valid_value(rhs),
        ensures
            final(ctx).wf(),
            Context::extends(old(ctx), final(ctx)),
            match r {
                Ok(v) => {
                    &&& self.appended(old(ctx), final(ctx), v)
                    &&& final(ctx).op_of(v) == Op::ICmp(IntPredicate::Ult, lhs, rhs)
                    &&& final(ctx).names.text(final(ctx).values@[v.index as int].name) == name.spec_bytes()
                },
                Err(_) => *final(ctx) == *old(ctx),
            },
            r is Err ==> !(nul_free(name.spec_bytes()) && old(ctx).name_room(name.spec_bytes())),
            Context::names_grow(old(ctx), final(ctx), name.spec_bytes()),
    {
        let n = match ctx.intern_name(name) {
            Ok(n) => n,
            Err(e) => {
                return Err(e);
            },
        };
        let ghost mid = *ctx;
        let v = self.emit(ctx, Op::ICmp(IntPredicate::Ult, lhs, rhs), n);
        proof {
            Context::lemma_extends_trans(old(ctx), &mid, ctx);
        }
        Ok(v)
    }

    /// Integer comparison `lhs Ule rhs`, of type `i1`.
    pub fn build_icmp_ule(&self, ctx: &mut Context, lhs: ValueRef, rhs: ValueRef) -> (r: ValueRef)
        requires
            old(ctx).wf(),
            self.positioned(old(ctx)),
            old(ctx).valid_value(lhs),
            old(ctx).valid_value(rhs),
        ensures
            final(ctx).wf(),
            Context::extends(old(ctx), final(ctx)),
            self.appended(old(ctx), final(ctx), r),
            final(ctx).op_of(r) == Op::ICmp(IntPredicate::Ule, lhs, rhs),
            final(ctx).values@[r.index as int].name.index == 0,
            final(ctx).names == old(ctx).names,
    {
        self.emit(ctx, Op::ICmp(IntPredicate::Ule, lhs, rhs), NameId { index: 0 })
    }

    /// As `build_icmp_ule`, with a name for the result.
    pub fn build_icmp_ule_with_name(&self, ctx: &mut Context, lhs: ValueRef, rhs: ValueRef, name: &str) -> (r: Result<ValueRef, NameError>)
        requires
            old(ctx).wf(),
            self.positioned(old(ctx)),
            old(ctx).valid_value(lhs),
            old(ctx).valid_value(rhs),
        ensures
            final(ctx).wf(),
            Context::extends(old(ctx), final(ctx)),
            match r {
                Ok(v) => {
                    &&& self.appended(old(ctx), final(ctx), v)
                    &&& final(ctx).op_of(v) == Op::ICmp(IntPredicate::Ule, lhs, rhs)
                    &&& final(ctx).names.text(final(ctx).values@[v.index as int].name) == name.spec_bytes()
                },
                Err(_) => *final(ctx) == *old(ctx),
            },
            r is Err ==> !(nul_free(name.spec_bytes()) && old(ctx).name_room(name.spec_bytes())),
            Context::names_grow(old(ctx), final(ctx), name.spec_bytes()),
    {
        let n = match ctx.intern_name(name) {
            Ok(n) => n,
            Err(e) => {
                return Err(e);
            },
        };
        let ghost mid = *ctx;
        let v = self.emit(ctx, Op::ICmp(IntPredicate::Ule, lhs, rhs), n);
        proof {
            Context::lemma_extends_trans(old(ctx), &mid, ctx);
        }
        Ok(v)
    }

    /// Integer comparison `lhs Sgt rhs`, of type `i1`.
    pub fn build_icmp_sgt(&self, ctx: &mut Context, lhs: ValueRef, rhs: ValueRef) -> (r: ValueRef)
        requires
            old(ctx).wf(),
            self.positioned(old(ctx)),
            old(ctx).valid_value(lhs),
            old(ctx).valid_value(rhs),
        ensures
            final(ctx).wf(),
            Context::extends(old(ctx), final(ctx)),
            self.appended(old(ctx), final(ctx), r),
            final(ctx).op_of(r) == Op::ICmp(IntPredicate::Sgt, lhs, rhs),
            final(ctx).values@[r.index as int].name.index == 0,
            final(ctx).names == old(ctx).names,
    {
        self.emit(ctx, Op::ICmp(IntPredicate::Sgt, lhs, rhs), NameId { index: 0 })
    }

    /// As `build_icmp_sgt`, with a name for the result.
    pub fn build_icmp_sgt_with_name(&self, ctx: &mut Context, lhs: ValueRef, rhs: ValueRef, name: &str) -> (r: Result<ValueRef, NameError>)
        requires
            old(ctx).wf(),
            self.positioned(old(ctx)),
            old(ctx).valid_value(lhs),
            old(ctx).valid_value(rhs),
        ensures
            final(ctx).wf(),
            Context::extends(old(ctx), final(ctx)),
            match r {
                Ok(v) => {
                    &&& self.appended(old(ctx), final(ctx), v)
                    &&& final(ctx).op_of(v) == Op::ICmp(IntPredicate::Sgt, lhs, rhs)
                    &&& final(ctx).names.text(final(ctx).values@[v.index as int].name) == name.spec_bytes()
                },
                Err(_) => *final(ctx) == *old(ctx),
            },
            r is Err ==> !(nul_free(name.spec_bytes()) && old(ctx).name_room(name.spec_bytes())),
            Context::names_grow(old(ctx), final(ctx), name.spec_bytes()),
    {
        let n = match ctx.intern_name(name) {
            Ok(n) => n,
            Err(e) => {
                return Err(e);
            },
        };
        let ghost mid = *ctx;
        let v = self.emit(ctx, Op::ICmp(IntPredicate::Sgt, lhs, rhs), n);
        proof {
            Context::lemma_extends_trans(old(ctx), &mid, ctx);
        }
        Ok(v)
    }

    /// Integer comparison `lhs Sge rhs`, of type `i1`.
    pub fn build_icmp_sge(&self, ctx: &mut Context, lhs: ValueRef, rhs: ValueRef) -> (r: ValueRef)
        requires
            old(ctx).wf(),
            self.positioned(old(ctx)),
            old(ctx).valid_value(lhs),
            old(ctx).valid_value(rhs),
        ensures
            final(ctx).wf(),
            Context::extends(old(ctx), final(ctx)),
            self.appended(old(ctx), final(ctx), r),
            final(ctx).op_of(r) == Op::ICmp(IntPredicate::Sge, lhs, rhs),
            final(ctx).values@[r.index as int].name.index == 0,
            final(ctx).names == old(ctx).names,
    {
        self.emit(ctx, Op::ICmp(IntPredicate::Sge, lhs, rhs), NameId { index: 0 })
    }

    /// As `build_icmp_sge`, with a name for the result.
    pub fn build_icmp_sge_with_name(&self, ctx: &mut Context, lhs: ValueRef, rhs: ValueRef, name: &str) -> (r: Result<ValueRef, NameError>)
        requires
            old(ctx).wf(),
            self.positioned(old(ctx)),
            old(ctx).valid_value(lhs),
            old(ctx).valid_value(rhs),
        ensures
            final(ctx).wf(),
            Context::extends(old(ctx), final(ctx)),
            match r {
                Ok(v) => {
                    &&& self.appended(old(ctx), final(ctx), v)
                    &&& final(ctx).op_of(v) == Op::ICmp(IntPredicate::Sge, lhs, rhs)
                    &&& final(ctx).names.text(final(ctx).values@[v.index as int].name) == name.spec_bytes()
                },
                Err(_) => *final(ctx) == *old(ctx),
            },
            r is Err ==> !(nul_free(name.spec_bytes()) && old(ctx).name_room(name.spec_bytes())),
            Context::names_grow(old(ctx), final(ctx), name.spec_bytes()),
    {
        let n = match ctx.intern_name(name) {
            Ok(n) => n,
            Err(e) => {
                return Err(e);
            },
        };
        let ghost mid = *ctx;
        let v = self.emit(ctx, Op::ICmp(IntPredicate::Sge, lhs, rhs), n);
        proof {
            Context::lemma_extends_trans(old(ctx), &mid, ctx);
        }
        Ok(v)
    }

    /// Integer comparison `lhs Slt rhs`, of type `i1`.
    pub fn build_icmp_slt(&self, ctx: &mut Context, lhs: ValueRef, rhs: ValueRef) -> (r: ValueRef)
        requires
            old(ctx).wf(),
            self.positioned(old(ctx)),
            old(ctx).valid_value(lhs),
            old(ctx).valid_value(rhs),
        ensures
            final(ctx).wf(),
            Context::extends(old(ctx), final(ctx)),
            self.appended(old(ctx), final(ctx), r),
            final(ctx).op_of(r) == Op::ICmp(IntPredicate::Slt, lhs, rhs),
            final(ctx).values@[r.index as int].name.index == 0,
            final(ctx).names == old(ctx).names,
    {
        self.emit(ctx, Op::ICmp(IntPredicate::Slt, lhs, rhs), NameId { index: 0 })
    }

    /// As `build_icmp_slt`, with a name for the result.
    pub fn build_icmp_slt_with_name(&self, ctx: &mut Context, lhs: ValueRef, rhs: ValueRef, name: &str) -> (r: Result<ValueRef, NameError>)
        requires
            old(ctx).wf(),
            self.positioned(old(ctx)),
            old(ctx).valid_value(lhs),
            old(ctx).valid_value(rhs),
        ensures
            final(ctx).wf(),
            Context::extends(old(ctx), final(ctx)),
            match r {
                Ok(v) => {
                    &&& self.appended(old(ctx), final(ctx), v)
                    &&& final(ctx).op_of(v) == Op::ICmp(IntPredicate::Slt, lhs, rhs)
                    &&& final(ctx).names.text(final(ctx).values@[v.index as int].name) == name.spec_bytes()
                },
                Err(_) => *final(ctx) == *old(ctx),
            },
            r is Err ==> !(nul_free(name.spec_bytes()) && old(ctx).name_room(name.spec_bytes())),
            Context::names_grow(old(ctx), final(ctx), name.spec_bytes()),
    {
        let n = match ctx.intern_name(name) {
            Ok(n) => n,
            Err(e) => {
                return Err(e);
            },
        };
        let ghost mid = *ctx;
        let v = self.emit(ctx, Op::ICmp(IntPredicate::Slt, lhs, rhs), n);
        proof {
            Context::lemma_extends_trans(old(ctx), &mid, ctx);
        }
        Ok(v)
    }

    /// Integer comparison `lhs Sle rhs`, of type `i1`.
    pub fn build_icmp_sle(&self, ctx: &mut Context, lhs: ValueRef, rhs: ValueRef) -> (r: ValueRef)
        requires
            old(ctx).wf(),
            self.positioned(old(ctx)),
            old(ctx).valid_value(lhs),
            old(ctx).valid_value(rhs),
        ensures
            final(ctx).wf(),
            Context::extends(old(ctx), final(ctx)),
            self.appended(old(ctx), final(ctx), r),
            final(ctx).op_of(r) == Op::ICmp(IntPredicate::Sle, lhs, rhs),
            final(ctx).values@[r.index as int].name.index == 0,
            final(ctx).names == old(ctx).names,
    {
        self.emit(ctx, Op::ICmp(IntPredicate::Sle, lhs, rhs), NameId { index: 0 })
    }

    /// As `build_icmp_sle`, with a name for the result.
    pub fn build_icmp_sle_with_name(&self, ctx: &mut Context, lhs: ValueRef, rhs: ValueRef, name: &str) -> (r: Result<ValueRef, NameError>)
        requires
            old(ctx).wf(),
            self.positioned(old(ctx)),
            old(ctx).valid_value(lhs),
            old(ctx).valid_value(rhs),
        ensures
            final(ctx).wf(),
            Context::extends(old(ctx), final(ctx)),
            match r {
                Ok(v) => {
                    &&& self.appended(old(ctx), final(ctx), v)
                    &&& final(ctx).op_of(v) == Op::ICmp(IntPredicate::Sle, lhs, rhs)
                    &&& final(ctx).names.text(final(ctx).values@[v.index as int].name) == name.spec_bytes()
                },
                Err(_) => *final(ctx) == *old(ctx),
            },
            r is Err ==> !(nul_free(name.spec_bytes()) && old(ctx).name_room(name.spec_bytes())),
            Context::names_grow(old(ctx), final(ctx), name.spec_bytes()),
    {
        let n = match ctx.intern_name(name) {
            Ok(n) => n,
            Err(e) => {
                return Err(e);
            },
        };
        let ghost mid = *ctx;
        let v = self.emit(ctx, Op::ICmp(IntPredicate::Sle, lhs, rhs), n);
        proof {
            Context::lemma_extends_trans(old(ctx), &mid, ctx);
        }
        Ok(v)
    }

    /// Floating comparison `lhs False rhs`, of type `i1`.
    pub fn build_fcmp_predicate_false(&self, ctx: &mut Context, lhs: ValueRef, rhs: ValueRef) -> (r: ValueRef)
        requires
            old(ctx).wf(),
            self.positioned(old(ctx)),
            old(ctx).valid_value(lhs),
            old(ctx).valid_value(rhs),
        ensures
            final(ctx).wf(),
            Context::extends(old(ctx), final(ctx)),
            self.appended(old(ctx), final(ctx), r),
            final(ctx).op_of(r) == Op::FCmp(RealPredicate::False, lhs, rhs),
            final(ctx).values@[r.index as int].name.index == 0,
            final(ctx).names == old(ctx).names,
    {
        self.emit(ctx, Op::FCmp(RealPredicate::False, lhs, rhs), NameId { index: 0 })
    }

    /// As `build_fcmp_predicate_false`, with a name for the result.
    pub fn build_fcmp_predicate_false_with_name(&self, ctx: &mut Context, lhs: ValueRef, rhs: ValueRef, name: &str) -> (r: Result<ValueRef, NameError>)
        requires
            old(ctx).wf(),
            self.positioned(old(ctx)),
            old(ctx).valid_value(lhs),
            old(ctx).valid_value(rhs),
        ensures
            final(ctx).wf(),
            Context::extends(old(ctx), final(ctx)),
            match r {
                Ok(v) => {
                    &&& self.appended(old(ctx), final(ctx), v)
                    &&& final(ctx).op_of(v) == Op::FCmp(RealPredicate::False, lhs, rhs)
                    &&& final(ctx).names.text(final(ctx).values@[v.index as int].name) == name.spec_bytes()
                },
                Err(_) => *final(ctx) == *old(ctx),
            },
            r is Err ==> !(nul_free(name.spec_bytes()) && old(ctx).name_room(name.spec_bytes())),
            Context::names_grow(old(ctx), final(ctx), name.spec_bytes()),
    {
        let n = match ctx.intern_name(name) {
            Ok(n) => n,
            Err(e) => {
                return Err(e);
            },
        };
        let ghost mid = *ctx;
        let v = self.emit(ctx, Op::FCmp(RealPredicate::False, lhs, rhs), n);
        proof {
            Context::lemma_extends_trans(old(ctx), &mid, ctx);
        }
        Ok(v)
    }

    /// Floating comparison `lhs True rhs`, of type `i1`.
    pub fn build_fcmp_predicate_true(&self, ctx: &mut Context, lhs: ValueRef, rhs: ValueRef) -> (r: ValueRef)
        requires
            old(ctx).wf(),
            self.positioned(old(ctx)),
            old(ctx).valid_value(lhs),
            old(ctx).valid_value(rhs),
        ensures
            final(ctx).wf(),
            Context::extends(old(ctx), final(ctx)),
            self.appended(old(ctx), final(ctx), r),
            final(ctx).op_of(r) == Op::FCmp(RealPredicate::True, lhs, rhs),
            final(ctx).values@[r.index as int].name.index == 0,
            final(ctx).names == old(ctx).names,
    {
        self.emit(ctx, Op::FCmp(RealPredicate::True, lhs, rhs), NameId { index: 0 })
    }

    /// As `build_fcmp_predicate_true`, with a name for the result.
    pub fn build_fcmp_predicate_true_with_name(&self, ctx: &mut Context, lhs: ValueRef, rhs: ValueRef, name: &str) -> (r: Result<ValueRef, NameError>)
        requires
            old(ctx).wf(),
            self.positioned(old(ctx)),
            old(ctx).valid_value(lhs),
            old(ctx).valid_value(rhs),
        ensures
            final(ctx).wf(),
            Context::extends(old(ctx), final(ctx)),
            match r {
                Ok(v) => {
                    &&& self.appended(old(ctx), final(ctx), v)
                    &&& final(ctx).op_of(v) == Op::FCmp(RealPredicate::True, lhs, rhs)
                    &&& final(ctx).names.text(final(ctx).values@[v.index as int].name) == name.spec_bytes()
                },
                Err(_) => *final(ctx) == *old(ctx),
            },
            r is Err ==> !(nul_free(name.spec_bytes()) && old(ctx).name_room(name.spec_bytes())),
            Context::names_grow(old(ctx), final(ctx), name.spec_bytes()),
    {
        let n = match ctx.intern_name(name) {
            Ok(n) => n,
            Err(e) => {
                return Err(e);
            },
        };
        let ghost mid = *ctx;
        let v = self.emit(ctx, Op::FCmp(RealPredicate::True, lhs, rhs), n);
        proof {
            Context::lemma_extends_trans(old(ctx), &mid, ctx);
        }
        Ok(v)
    }

    /// Floating comparison `lhs Ord rhs`, of type `i1`.
    pub fn build_fcmp_ord(&self, ctx: &mut Context, lhs: ValueRef, rhs: ValueRef) -> (r: ValueRef)
        requires
            old(ctx).wf(),
            self.positioned(old(ctx)),
            old(ctx).valid_value(lhs),
            old(ctx).valid_value(rhs),
        ensures
            final(ctx).wf(),
            Context::extends(old(ctx), final(ctx)),
            self.appended(old(ctx), final(ctx), r),
            final(ctx).op_of(r) == Op::FCmp(RealPredicate::Ord, lhs, rhs),
            final(ctx).values@[r.index as int].name.index == 0,
            final(ctx).names == old(ctx).names,
    {
        self.emit(ctx, Op::FCmp(RealPredicate::Ord, lhs, rhs), NameId { index: 0 })
    }

    /// As `build_fcmp_ord`, with a name for the result.
    pub fn build_fcmp_ord_with_name(&self, ctx: &mut Context, lhs: ValueRef, rhs: ValueRef, name: &str) -> (r: Result<ValueRef, NameError>)
        requires
            old(ctx).wf(),
            self.positioned(old(ctx)),
            old(ctx).valid_value(lhs),
            old(ctx).valid_value(rhs),
        ensures
            final(ctx).wf(),
            Context::extends(old(ctx), final(ctx)),
            match r {
                Ok(v) => {
                    &&& self.appended(old(ctx), final(ctx), v)
                    &&& final(ctx).op_of(v) == Op::FCmp(RealPredicate::Ord, lhs, rhs)
                    &&& final(ctx).names.text(final(ctx).values@[v.index as int].name) == name.spec_bytes()
                },
                Err(_) => *final(ctx) == *old(ctx),
            },
            r is Err ==> !(nul_free(name.spec_bytes()) && old(ctx).name_room(name.spec_bytes())),
            Context::names_grow(old(ctx), final(ctx), name.spec_bytes()),
    {
        let n = match ctx.intern_name(name) {
            Ok(n) => n,
            Err(e) => {
                return Err(e);
            },
        };
        let ghost mid = *ctx;
        let v = self.emit(ctx, Op::FCmp(RealPredicate::Ord, lhs, rhs), n);
        proof {
            Context::lemma_extends_trans(old(ctx), &mid, ctx);
        }
        Ok(v)
    }

    /// Floating comparison `lhs Oeq rhs`, of type `i1`.
    pub fn build_fcmp_oeq(&self, ctx: &mut Context, lhs: ValueRef, rhs: ValueRef) -> (r: ValueRef)
        requires
            old(ctx).wf(),
            self.positioned(old(ctx)),
            old(ctx).valid_value(lhs),
            old(ctx).valid_value(rhs),
        ensures
            final(ctx).wf(),
            Context::extends(old(ctx), final(ctx)),
            self.appended(old(ctx), final(ctx), r),
            final(ctx).op_of(r) == Op::FCmp(RealPredicate::Oeq, lhs, rhs),
            final(ctx).values@[r.index as int].name.index == 0,
            final(ctx).names == old(ctx).names,
    {
        self.emit(ctx, Op::FCmp(RealPredicate::Oeq, lhs, rhs), NameId { index: 0 })
    }

    /// As `build_fcmp_oeq`, with a name for the result.
    pub fn build_fcmp_oeq_with_name(&self, ctx: &mut Context, lhs: ValueRef, rhs: ValueRef, name: &str) -> (r: Result<ValueRef, NameError>)
        requires
            old(ctx).wf(),
            self.positioned(old(ctx)),
            old(ctx).valid_value(lhs),
            old(ctx).valid_value(rhs),
        ensures
            final(ctx).wf(),
            Context::extends(old(ctx), final(ctx)),
            match r {
                Ok(v) => {
                    &&& self.appended(old(ctx), final(ctx), v)
                    &&& final(ctx).op_of(v) == Op::FCmp(RealPredicate::Oeq, lhs, rhs)
                    &&& final(ctx).names.text(final(ctx).values@[v.index as int].name) == name.spec_bytes()
                },
                Err(_) => *final(ctx) == *old(ctx),
            },
            r is Err ==> !(nul_free(name.spec_bytes()) && old(ctx).name_room(name.spec_bytes())),
            Context::names_grow(old(ctx), final(ctx), name.spec_bytes()),
    {
        let n = match ctx.intern_name(name) {
            Ok(n) => n,
            Err(e) => {
                return Err(e);
            },
        };
        let ghost mid = *ctx;
        let v = self.emit(ctx, Op::FCmp(RealPredicate::Oeq, lhs, rhs), n);
        proof {
            Context::lemma_extends_trans(old(ctx), &mid, ctx);
        }
        Ok(v)
    }

    /// Floating comparison `lhs One rhs`, of type `i1`.
    pub fn build_fcmp_one(&self, ctx: &mut Context, lhs: ValueRef, rhs: ValueRef) -> (r: ValueRef)
        requires
            old(ctx).wf(),
            self.positioned(old(ctx)),
            old(ctx).valid_value(lhs),
            old(ctx).valid_value(rhs),
        ensures
            final(ctx).wf(),
            Context::extends(old(ctx), final(ctx)),
            self.appended(old(ctx), final(ctx), r),
            final(ctx).op_of(r) == Op::FCmp(RealPredicate::One, lhs, rhs),
            final(ctx).values@[r.index as int].name.index == 0,
            final(ctx).names == old(ctx).names,
    {
        self.emit(ctx, Op::FCmp(RealPredicate::One, lhs, rhs), NameId { index: 0 })
    }

    /// As `build_fcmp_one`, with a name for the result.
    pub fn build_fcmp_one_with_name(&self, ctx: &mut Context, lhs: ValueRef, rhs: ValueRef, name: &str) -> (r: Result<ValueRef, NameError>)
        requires
            old(ctx).wf(),
            self.positioned(old(ctx)),
            old(ctx).valid_value(lhs),
            old(ctx).valid_value(rhs),
        ensures
            final(ctx).wf(),
            Context::extends(old(ctx), final(ctx)),
            match r {
                Ok(v) => {
                    &&& self.appended(old(ctx), final(ctx), v)
                    &&& final(ctx).op_of(v) == Op::FCmp(RealPredicate::One, lhs, rhs)
                    &&& final(ctx).names.text(final(ctx).values@[v.index as int].name) == name.spec_bytes()
                },
                Err(_) => *final(ctx) == *old(ctx),
            },
            r is Err ==> !(nul_free(name.spec_bytes()) && old(ctx).name_room(name.spec_bytes())),
            Context::names_grow(old(ctx), final(ctx), name.spec_bytes()),
    {
        let n = match ctx.intern_name(name) {
            Ok(n) => n,
            Err(e) => {
                return Err(e);
            },
        };
        let ghost mid = *ctx;
        let v = self.emit(ctx, Op::FCmp(RealPredicate::One, lhs, rhs), n);
        proof {
            Context::lemma_extends_trans(old(ctx), &mid, ctx);
        }
        Ok(v)
    }

    /// Floating comparison `lhs Ogt rhs`, of type `i1`.
    pub fn build_fcmp_ogt(&self, ctx: &mut Context, lhs: ValueRef, rhs: ValueRef) -> (r: ValueRef)
        requires
            old(ctx).wf(),
            self.positioned(old(ctx)),
            old(ctx).valid_value(lhs),
            old(ctx).valid_value(rhs),
        ensures
            final(ctx).wf(),
            Context::extends(old(ctx), final(ctx)),
            self.appended(old(ctx), final(ctx), r),
            final(ctx).op_of(r) == Op::FCmp(RealPredicate::Ogt, lhs, rhs),
            final(ctx).values@[r.index as int].name.index == 0,
            final(ctx).names == old(ctx).names,
    {
        self.emit(ctx, Op::FCmp(RealPredicate::Ogt, lhs, rhs), NameId { index: 0 })
    }

    /// As `build_fcmp_ogt`, with a name for the result.
    pub fn build_fcmp_ogt_with_name(&self, ctx: &mut Context, lhs: ValueRef, rhs: ValueRef, name: &str) -> (r: Result<ValueRef, NameError>)
        requires
            old(ctx).wf(),
            self.positioned(old(ctx)),
            old(ctx).valid_value(lhs),
            old(ctx).valid_value(rhs),
        ensures
            final(ctx).wf(),
            Context::extends(old(ctx), final(ctx)),
            match r {
                Ok(v) => {
                    &&& self.appended(old(ctx), final(ctx), v)
                    &&& final(ctx).op_of(v) == Op::FCmp(RealPredicate::Ogt, lhs, rhs)
                    &&& final(ctx).names.text(final(ctx).values@[v.index as int].name) == name.spec_bytes()
                },
                Err(_) => *final(ctx) == *old(ctx),
            },
            r is Err ==> !(nul_free(name.spec_bytes()) && old(ctx).name_room(name.spec_bytes())),
            Context::names_grow(old(ctx), final(ctx), name.spec_bytes()),
    {
        let n = match ctx.intern_name(name) {
            Ok(n) => n,
            Err(e) => {
                return Err(e);
            },
        };
        let ghost mid = *ctx;
        let v = self.emit(ctx, Op::FCmp(RealPredicate::Ogt, lhs, rhs), n);
        proof {
            Context::lemma_extends_trans(old(ctx), &mid, ctx);
        }
        Ok(v)
    }

    /// Floating comparison `lhs Oge rhs`, of type `i1`.
    pub fn build_fcmp_oge(&self, ctx: &mut Context, lhs: ValueRef, rhs: ValueRef) -> (r: ValueRef)
        requires
            old(ctx).wf(),
            self.positioned(old(ctx)),
            old(ctx).valid_value(lhs),
            old(ctx).valid_value(rhs),
        ensures
            final(ctx).wf(),
            Context::extends(old(ctx), final(ctx)),
            self.appended(old(ctx), final(ctx), r),
            final(ctx).op_of(r) == Op::FCmp(RealPredicate::Oge, lhs, rhs),
            final(ctx).values@[r.index as int].name.index == 0,
            final(ctx).names == old(ctx).names,
    {
        self.emit(ctx, Op::FCmp(RealPredicate::Oge, lhs, rhs), NameId { index: 0 })
    }

    /// As `build_fcmp_oge`, with a name for the result.
    pub fn build_fcmp_oge_with_name(&self, ctx: &mut Context, lhs: ValueRef, rhs: ValueRef, name: &str) -> (r: Result<ValueRef, NameError>)
        requires
            old(ctx).wf(),
            self.positioned(old(ctx)),
            old(ctx).valid_value(lhs),
            old(ctx).valid_value(rhs),
        ensures
            final(ctx).wf(),
            Context::extends(old(ctx), final(ctx)),
            match r {
                Ok(v) => {
                    &&& self.appended(old(ctx), final(ctx), v)
                    &&& final(ctx).op_of(v) == Op::FCmp(RealPredicate::Oge, lhs, rhs)
                    &&& final(ctx).names.text(final(ctx).values@[v.index as int].name) == name.spec_bytes()
                },
                Err(_) => *final(ctx) == *old(ctx),
            },
            r is Err ==> !(nul_free(name.spec_bytes()) && old(ctx).name_room(name.spec_bytes())),
            Context::names_grow(old(ctx), final(ctx), name.spec_bytes()),
    {
        let n = match ctx.intern_name(name) {
            Ok(n) => n,
            Err(e) => {
                return Err(e);
            },
        };
        let ghost mid = *ctx;
        let v = self.emit(ctx, Op::FCmp(RealPredicate::Oge, lhs, rhs), n);
        proof {
            Context::lemma_extends_trans(old(ctx), &mid, ctx);
        }
        Ok(v)
    }

    /// Floating comparison `lhs Olt rhs`, of type `i1`.
    pub fn build_fcmp_olt(&self, ctx: &mut Context, lhs: ValueRef, rhs: ValueRef) -> (r: ValueRef)
        requires
            old(ctx).wf(),
            self.positioned(old(ctx)),
            old(ctx).valid_value(lhs),
            old(ctx).valid_value(rhs),
        ensures
            final(ctx).wf(),
            Context::extends(old(ctx), final(ctx)),
            self.appended(old(ctx), final(ctx), r),
            final(ctx).op_of(r) == Op::FCmp(RealPredicate::Olt, lhs, rhs),
            final(ctx).values@[r.index as int].name.index == 0,
            final(ctx).names == old(ctx).names,
    {
        self.emit(ctx, Op::FCmp(RealPredicate::Olt, lhs, rhs), NameId { index: 0 })
    }

    /// As `build_fcmp_olt`, with a name for the result.
    pub fn build_fcmp_olt_with_name(&self, ctx: &mut Context, lhs: ValueRef, rhs: ValueRef, name: &str) -> (r: Result<ValueRef, NameError>)
        requires
            old(ctx).wf(),
            self.positioned(old(ctx)),
            old(ctx).valid_value(lhs),
            old(ctx).valid_value(rhs),
        ensures
            final(ctx).wf(),
            Context::extends(old(ctx), final(ctx)),
            match r {
                Ok(v) => {
                    &&& self.appended(old(ctx), final(ctx), v)
                    &&& final(ctx).op_of(v) == Op::FCmp(RealPredicate::Olt, lhs, rhs)
                    &&& final(ctx).names.text(final(ctx).values@[v.index as int].name) == name.spec_bytes()
                },
                Err(_) => *final(ctx) == *old(ctx),
            },
            r is Err ==> !(nul_free(name.spec_bytes()) && old(ctx).name_room(name.spec_bytes())),
            Context::names_grow(old(ctx), final(ctx), name.spec_bytes()),
    {
        let n = match ctx.intern_name(name) {
            Ok(n) => n,
            Err(e) => {
                return Err(e);
            },
        };
        let ghost mid = *ctx;
        let v = self.emit(ctx, Op::FCmp(RealPredicate::Olt, lhs, rhs), n);
        proof {
            Context::lemma_extends_trans(old(ctx), &mid, ctx);
        }
        Ok(v)
    }

    /// Floating comparison `lhs Ole rhs`, of type `i1`.
    pub fn build_fcmp_ole(&self, ctx: &mut Context, lhs: ValueRef, rhs: ValueRef) -> (r: ValueRef)
        requires
            old(ctx).wf(),
            self.positioned(old(ctx)),
            old(ctx).valid_value(lhs),
            old(ctx).valid_value(rhs),
        ensures
            final(ctx).wf(),
            Context::extends(old(ctx), final(ctx)),
            self.appended(old(ctx), final(ctx), r),
            final(ctx).op_of(r) == Op::FCmp(RealPredicate::Ole, lhs, rhs),
            final(ctx).values@[r.index as int].name.index == 0,
            final(ctx).names == old(ctx).names,
    {
        self.emit(ctx, Op::FCmp(RealPredicate::Ole, lhs, rhs), NameId { index: 0 })
    }

    /// As `build_fcmp_ole`, with a name for the result.
    pub fn build_fcmp_ole_with_name(&self, ctx: &mut Context, lhs: ValueRef, rhs: ValueRef, name: &str) -> (r: Result<ValueRef, NameError>)
        requires
            old(ctx).wf(),
            self.positioned(old(ctx)),
            old(ctx).valid_value(lhs),
            old(ctx).valid_value(rhs),
        ensures
            final(ctx).wf(),
            Context::extends(old(ctx), final(ctx)),
            match r {
                Ok(v) => {
                    &&& self.appended(old(ctx), final(ctx), v)
                    &&& final(ctx).op_of(v) == Op::FCmp(RealPredicate::Ole, lhs, rhs)
                    &&& final(ctx).names.text(final(ctx).values@[v.index as int].name) == name.spec_bytes()
                },
                Err(_) => *final(ctx) == *old(ctx),
            },
            r is Err ==> !(nul_free(name.spec_bytes()) && old(ctx).name_room(name.spec_bytes())),
            Context::names_grow(old(ctx), final(ctx), name.spec_bytes()),
    {
        let n = match ctx.intern_name(name) {
            Ok(n) => n,
            Err(e) => {
                return Err(e);
            },
        };
        let ghost mid = *ctx;
        let v = self.emit(ctx, Op::FCmp(RealPredicate::Ole, lhs, rhs), n);
        proof {
            Context::lemma_extends_trans(old(ctx), &mid, ctx);
        }
        Ok(v)
    }

    /// Floating comparison `lhs Uno rhs`, of type `i1`.
    pub fn build_fcmp_uno(&self, ctx: &mut Context, lhs: ValueRef, rhs: ValueRef) -> (r: ValueRef)
        requires
            old(ctx).wf(),
            self.positioned(old(ctx)),
            old(ctx).valid_value(lhs),
            old(ctx).valid_value(rhs),
        ensures
            final(ctx).wf(),
            Context::extends(old(ctx), final(ctx)),
            self.appended(old(ctx), final(ctx), r),
            final(ctx).op_of(r) == Op::FCmp(RealPredicate::Uno, lhs, rhs),
            final(ctx).values@[r.index as int].name.index == 0,
            final(ctx).names == old(ctx).names,
    {
        self.emit(ctx, Op::FCmp(RealPredicate::Uno, lhs, rhs), NameId { index: 0 })
    }

    /// As `build_fcmp_uno`, with a name for the result.
    pub fn build_fcmp_uno_with_name(&self, ctx: &mut Context, lhs: ValueRef, rhs: ValueRef, name: &str) -> (r: Result<ValueRef, NameError>)
        requires
            old(ctx).wf(),
            self.positioned(old(ctx)),
            old(ctx).valid_value(lhs),
            old(ctx).valid_value(rhs),
        ensures
            final(ctx).wf(),
            Context::extends(old(ctx), final(ctx)),
            match r {
                Ok(v) => {
                    &&& self.appended(old(ctx), final(ctx), v)
                    &&& final(ctx).op_of(v) == Op::FCmp(RealPredicate::Uno, lhs, rhs)
                    &&& final(ctx).names.text(final(ctx).values@[v.index as int].name) == name.spec_bytes()
                },
                Err(_) => *final(ctx) == *old(ctx),
            },
            r is Err ==> !(nul_free(name.spec_bytes()) && old(ctx).name_room(name.spec_bytes())),
            Context::names_grow(old(ctx), final(ctx), name.spec_bytes()),
    {
        let n = match ctx.intern_name(name) {
            Ok(n) => n,
            Err(e) => {
                return Err(e);
            },
        };
        let ghost mid = *ctx;
        let v = self.emit(ctx, Op::FCmp(RealPredicate::Uno, lhs, rhs), n);
        proof {
            Context::lemma_extends_trans(old(ctx), &mid, ctx);
        }
        Ok(v)
    }

    /// Floating comparison `lhs Ueq rhs`, of type `i1`.
    pub fn build_fcmp_ueq(&self, ctx: &mut Context, lhs: ValueRef, rhs: ValueRef) -> (r: ValueRef)
        requires
            old(ctx).wf(),
            self.positioned(old(ctx)),
            old(ctx).valid_value(lhs),
            old(ctx).valid_value(rhs),
        ensures
            final(ctx).wf(),
            Context::extends(old(ctx), final(ctx)),
            self.appended(old(ctx), final(ctx), r),
            final(ctx).op_of(r) == Op::FCmp(RealPredicate::Ueq, lhs, rhs),
            final(ctx).values@[r.index as int].name.index == 0,
            final(ctx).names == old(ctx).names,
    {
        self.emit(ctx, Op::FCmp(RealPredicate::Ueq, lhs, rhs), NameId { index: 0 })
    }

    /// As `build_fcmp_ueq`, with a name for the result.
    pub fn build_fcmp_ueq_with_name(&self, ctx: &mut Context, lhs: ValueRef, rhs: ValueRef, name: &str) -> (r: Result<ValueRef, NameError>)
        requires
            old(ctx).wf(),
            self.positioned(old(ctx)),
            old(ctx).valid_value(lhs),
            old(ctx).valid_value(rhs),
        ensures
            final(ctx).wf(),
            Context::extends(old(ctx), final(ctx)),
            match r {
                Ok(v) => {
                    &&& self.appended(old(ctx), final(ctx), v)
                    &&& final(ctx).op_of(v) == Op::FCmp(RealPredicate::Ueq, lhs, rhs)
                    &&& final(ctx).names.text(final(ctx).values@[v.index as int].name) == name.spec_bytes()
                },
                Err(_) => *final(ctx) == *old(ctx),
            },
            r is Err ==> !(nul_free(name.spec_bytes()) && old(ctx).name_room(name.spec_bytes())),
            Context::names_grow(old(ctx), final(ctx), name.spec_bytes()),
    {
        let n = match ctx.intern_name(name) {
            Ok(n) => n,
            Err(e) => {
                return Err(e);
            },
        };
        let ghost mid = *ctx;
        let v = self.emit(ctx, Op::FCmp(RealPredicate::Ueq, lhs, rhs), n);
        proof {
            Context::lemma_extends_trans(old(ctx), &mid, ctx);
        }
        Ok(v)
    }

    /// Floating comparison `lhs Une rhs`, of type `i1`.
    pub fn build_fcmp_une(&self, ctx: &mut Context, lhs: ValueRef, rhs: ValueRef) -> (r: ValueRef)
        requires
            old(ctx).wf(),
            self.positioned(old(ctx)),
            old(ctx).valid_value(lhs),
            old(ctx).valid_value(rhs),
        ensures
            final(ctx).wf(),
            Context::extends(old(ctx), final(ctx)),
            self.appended(old(ctx), final(ctx), r),
            final(ctx).op_of(r) == Op::FCmp(RealPredicate::Une, lhs, rhs),
            final(ctx).values@[r.index as int].name.index == 0,
            final(ctx).names == old(ctx).names,
    {
        self.emit(ctx, Op::FCmp(RealPredicate::Une, lhs, rhs), NameId { index: 0 })
    }

    /// As `build_fcmp_une`, with a name for the result.
    pub fn build_fcmp_une_with_name(&self, ctx: &mut Context, lhs: ValueRef, rhs: ValueRef, name: &str) -> (r: Result<ValueRef, NameError>)
        requires
            old(ctx).wf(),
            self.positioned(old(ctx)),
            old(ctx).valid_value(lhs),
            old(ctx).valid_value(rhs),
        ensures
            final(ctx).wf(),
            Context::extends(old(ctx), final(ctx)),
            match r {
                Ok(v) => {
                    &&& self.appended(old(ctx), final(ctx), v)
                    &&& final(ctx).op_of(v) == Op::FCmp(RealPredicate::Une, lhs, rhs)
                    &&& final(ctx).names.text(final(ctx).values@[v.index as int].name) == name.spec_bytes()
                },
                Err(_) => *final(ctx) == *old(ctx),
            },
            r is Err ==> !(nul_free(name.spec_bytes()) && old(ctx).name_room(name.spec_bytes())),
            Context::names_grow(old(ctx), final(ctx), name.spec_bytes()),
    {
        let n = match ctx.intern_name(name) {
            Ok(n) => n,
            Err(e) => {
                return Err(e);
            },
        };
        let ghost mid = *ctx;
        let v = self.emit(ctx, Op::FCmp(RealPredicate::Une, lhs, rhs), n);
        proof {
            Context::lemma_extends_trans(old(ctx), &mid, ctx);
        }
        Ok(v)
    }

    /// Floating comparison `lhs Ugt rhs`, of type `i1`.
    pub fn build_fcmp_ugt(&self, ctx: &mut Context, lhs: ValueRef, rhs: ValueRef) -> (r: ValueRef)
        requires
            old(ctx).wf(),
            self.positioned(old(ctx)),
            old(ctx).valid_value(lhs),
            old(ctx).valid_value(rhs),
        ensures
            final(ctx).wf(),
            Context::extends(old(ctx), final(ctx)),
            self.appended(old(ctx), final(ctx), r),
            final(ctx).op_of(r) == Op::FCmp(RealPredicate::Ugt, lhs, rhs),
            final(ctx).values@[r.index as int].name.index == 0,
            final(ctx).names == old(ctx).names,
    {
        self.emit(ctx, Op::FCmp(RealPredicate::Ugt, lhs, rhs), NameId { index: 0 })
    }

    /// As `build_fcmp_ugt`, with a name for the result.
    pub fn build_fcmp_ugt_with_name(&self, ctx: &mut Context, lhs: ValueRef, rhs: ValueRef, name: &str) -> (r: Result<ValueRef, NameError>)
        requires
            old(ctx).wf(),
            self.positioned(old(ctx)),
            old(ctx).valid_value(lhs),
            old(ctx).valid_value(rhs),
        ensures
            final(ctx).wf(),
            Context::extends(old(ctx), final(ctx)),
            match r {
                Ok(v) => {
                    &&& self.appended(old(ctx), final(ctx), v)
                    &&& final(ctx).op_of(v) == Op::FCmp(RealPredicate::Ugt, lhs, rhs)
                    &&& final(ctx).names.text(final(ctx).values@[v.index as int].name) == name.spec_bytes()
                },
                Err(_) => *final(ctx) == *old(ctx),
            },
            r is Err ==> !(nul_free(name.spec_bytes()) && old(ctx).name_room(name.spec_bytes())),
            Context::names_grow(old(ctx), final(ctx), name.spec_bytes()),
    {
        let n = match ctx.intern_name(name) {
            Ok(n) => n,
            Err(e) => {
                return Err(e);
            },
        };
        let ghost mid = *ctx;
        let v = self.emit(ctx, Op::FCmp(RealPredicate::Ugt, lhs, rhs), n);
        proof {
            Context::lemma_extends_trans(old(ctx), &mid, ctx);
        }
        Ok(v)
    }

    /// Floating comparison `lhs Uge rhs`, of type `i1`.
    pub fn build_fcmp_uge(&self, ctx: &mut Context, lhs: ValueRef, rhs: ValueRef) -> (r: ValueRef)
        requires
            old(ctx).wf(),
            self.positioned(old(ctx)),
            old(ctx).valid_value(lhs),
            old(ctx).valid_value(rhs),
        ensures
            final(ctx).wf(),
            Context::extends(old(ctx), final(ctx)),
            self.appended(old(ctx), final(ctx), r),
            final(ctx).op_of(r) == Op::FCmp(RealPredicate::Uge, lhs, rhs),
            final(ctx).values@[r.index as int].name.index == 0,
            final(ctx).names == old(ctx).names,
    {
        self.emit(ctx, Op::FCmp(RealPredicate::Uge, lhs, rhs), NameId { index: 0 })
    }

    /// As `build_fcmp_uge`, with a name for the result.
    pub fn build_fcmp_uge_with_name(&self, ctx: &mut Context, lhs: ValueRef, rhs: ValueRef, name: &str) -> (r: Result<ValueRef, NameError>)
        requires
            old(ctx).wf(),
            self.positioned(old(ctx)),
            old(ctx).valid_value(lhs),
            old(ctx).valid_value(rhs),
        ensures
            final(ctx).wf(),
            Context::extends(old(ctx), final(ctx)),
            match r {
                Ok(v) => {
                    &&& self.appended(old(ctx), final(ctx), v)
                    &&& final(ctx).op_of(v) == Op::FCmp(RealPredicate::Uge, lhs, rhs)
                    &&& final(ctx).names.text(final(ctx).values@[v.index as int].name) == name.spec_bytes()
                },
                Err(_) => *final(ctx) == *old(ctx),
            },
            r is Err ==> !(nul_free(name.spec_bytes()) && old(ctx).name_room(name.spec_bytes())),
            Context::names_grow(old(ctx), final(ctx), name.spec_bytes()),
    {
        let n = match ctx.intern_name(name) {
            Ok(n) => n,
            Err(e) => {
                return Err(e);
            },
        };
        let ghost mid = *ctx;
        let v = self.emit(ctx, Op::FCmp(RealPredicate::Uge, lhs, rhs), n);
        proof {
            Context::lemma_extends_trans(old(ctx), &mid, ctx);
        }
        Ok(v)
    }

    /// Floating comparison `lhs Ult rhs`, of type `i1`.
    pub fn build_fcmp_ult(&self, ctx: &mut Context, lhs: ValueRef, rhs: ValueRef) -> (r: ValueRef)
        requires
            old(ctx).wf(),
            self.positioned(old(ctx)),
            old(ctx).valid_value(lhs),
            old(ctx).valid_value(rhs),
        ensures
            final(ctx).wf(),
            Context::extends(old(ctx), final(ctx)),
            self.appended(old(ctx), final(ctx), r),
            final(ctx).op_of(r) == Op::FCmp(RealPredicate::Ult, lhs, rhs),
            final(ctx).values@[r.index as int].name.index == 0,
            final(ctx).names == old(ctx).names,
    {
        self.emit(ctx, Op::FCmp(RealPredicate::Ult, lhs, rhs), NameId { index: 0 })
    }

    /// As `build_fcmp_ult`, with a name for the result.
    pub fn build_fcmp_ult_with_name(&self, ctx: &mut Context, lhs: ValueRef, rhs: ValueRef, name: &str) -> (r: Result<ValueRef, NameError>)
        requires
            old(ctx).wf(),
            self.positioned(old(ctx)),
            old(ctx).valid_value(lhs),
            old(ctx).valid_value(rhs),
        ensures
            final(ctx).wf(),
            Context::extends(old(ctx), final(ctx)),
            match r {
                Ok(v) => {
                    &&& self.appended(old(ctx), final(ctx), v)
                    &&& final(ctx).op_of(v) == Op::FCmp(RealPredicate::Ult, lhs, rhs)
                    &&& final(ctx).names.text(final(ctx).values@[v.index as int].name) == name.spec_bytes()
                },
                Err(_) => *final(ctx) == *old(ctx),
            },
            r is Err ==> !(nul_free(name.spec_bytes()) && old(ctx).name_room(name.spec_bytes())),
            Context::names_grow(old(ctx), final(ctx), name.spec_bytes()),
    {
        let n = match ctx.intern_name(name) {
            Ok(n) => n,
            Err(e) => {
                return Err(e);
            },
        };
        let ghost mid = *ctx;
        let v = self.emit(ctx, Op::FCmp(RealPredicate::Ult, lhs, rhs), n);
        proof {
            Context::lemma_extends_trans(old(ctx), &mid, ctx);
        }
        Ok(v)
    }

    /// Floating comparison `lhs Ule rhs`, of type `i1`.
    pub fn build_fcmp_ule(&self, ctx: &mut Context, lhs: ValueRef, rhs: ValueRef) -> (r: ValueRef)
        requires
            old(ctx).wf(),
            self.positioned(old(ctx)),
            old(ctx).valid_value(lhs),
            old(ctx).valid_value(rhs),
        ensures
            final(ctx).wf(),
            Context::extends(old(ctx), final(ctx)),
            self.appended(old(ctx), final(ctx), r),
            final(ctx).op_of(r) == Op::FCmp(RealPredicate::Ule, lhs, rhs),
            final(ctx).values@[r.index as int].name.index == 0,
            final(ctx).names == old(ctx).names,
    {
        self.emit(ctx, Op::FCmp(RealPredicate::Ule, lhs, rhs), NameId { index: 0 })
    }

    /// As `build_fcmp_ule`, with a name for the result.
    pub fn build_fcmp_ule_with_name(&self, ctx: &mut Context, lhs: ValueRef, rhs: ValueRef, name: &str) -> (r: Result<ValueRef, NameError>)
        requires
            old(ctx).wf(),
            self.positioned(old(ctx)),
            old(ctx).valid_value(lhs),
            old(ctx).valid_value(rhs),
        ensures
            final(ctx).wf(),
            Context::extends(old(ctx), final(ctx)),
            match r {
                Ok(v) => {
                    &&& self.appended(old(ctx), final(ctx), v)
                    &&& final(ctx).op_of(v) == Op::FCmp(RealPredicate::Ule, lhs, rhs)
                    &&& final(ctx).names.text(final(ctx).values@[v.index as int].name) == name.spec_bytes()
                },
                Err(_) => *final(ctx) == *old(ctx),
            },
            r is Err ==> !(nul_free(name.spec_bytes()) && old(ctx).name_room(name.spec_bytes())),
            Context::names_grow(old(ctx), final(ctx), name.spec_bytes()),
    {
        let n = match ctx.intern_name(name) {
            Ok(n) => n,
            Err(e) => {
                return Err(e);
            },
        };
        let ghost mid = *ctx;
        let v = self.emit(ctx, Op::FCmp(RealPredicate::Ule, lhs, rhs), n);
        proof {
            Context::lemma_extends_trans(old(ctx), &mid, ctx);
        }
        Ok(v)
    }

    /// Calls `func` with `params`.
    pub fn build_call(&self, ctx: &mut Context, func: ValueRef, params: &[ValueRef]) -> (r: ValueRef)
        requires
            old(ctx).wf(),
            self.positioned(old(ctx)),
            old(ctx).valid_value(func),
            values_below(params@, old(ctx).nv()),
        ensures
            final(ctx).wf(),
            Context::extends(old(ctx), final(ctx)),
            self.appended(old(ctx), final(ctx), r),
            final(ctx).op_of(r) matches Op::Call(f, a, tail) && f == func && a@ == params@ && !tail,
            final(ctx).values@[r.index as int].name.index == 0,
            final(ctx).names == old(ctx).names,
    {
        self.emit(ctx, Op::Call(func, copy_values(params), false), NameId { index: 0 })
    }

    /// As `build_call`, with a name for the result.
    pub fn build_call_with_name(&self, ctx: &mut Context, func: ValueRef, params: &[ValueRef], name: &str) -> (r: Result<ValueRef, NameError>)
        requires
            old(ctx).wf(),
            self.positioned(old(ctx)),
            old(ctx).valid_value(func),
            values_below(params@, old(ctx).nv()),
        ensures
            final(ctx).wf(),
            Context::extends(old(ctx), final(ctx)),
            match r {
                Ok(v) => {
                    &&& self.appended(old(ctx), final(ctx), v)
                    &&& final(ctx).op_of(v) matches Op::Call(f, a, tail) && f == func && a@ == params@ && !tail
                    &&& final(ctx).names.text(final(ctx).values@[v.index as int].name) == name.spec_bytes()
                },
                Err(_) => *final(ctx) == *old(ctx),
            },
            r is Err ==> !(nul_free(name.spec_bytes()) && old(ctx).name_room(name.spec_bytes())),
            Context::names_grow(old(ctx), final(ctx), name.spec_bytes()),
    {
        let n = match ctx.intern_name(name) {
            Ok(n) => n,
            Err(e) => {
                return Err(e);
            },
        };
        let ghost mid = *ctx;
        let v = self.emit(ctx, Op::Call(func, copy_values(params), false), n);
        proof {
            Context::lemma_extends_trans(old(ctx), &mid, ctx);
        }
        Ok(v)
    }

    /// Calls `func` with `params`, marked as eligible for tail-call optimization.
    pub fn build_tail_call(&self, ctx: &mut Context, func: ValueRef, params: &[ValueRef]) -> (r: ValueRef)
        requires
            old(ctx).wf(),
            self.positioned(old(ctx)),
            old(ctx).valid_value(func),
            values_below(params@, old(ctx).nv()),
        ensures
            final(ctx).wf(),
            Context::extends(old(ctx), final(ctx)),
            self.appended(old(ctx), final(ctx), r),
            final(ctx).op_of(r) matches Op::Call(f, a, tail) && f == func && a@ == params@ && tail,
            final(ctx).values@[r.index as int].name.index == 0,
            final(ctx).names == old(ctx).names,
    {
        self.emit(ctx, Op::Call(func, copy_values(params), true), NameId { index: 0 })
    }

    /// As `build_tail_call`, with a name for the result.
    pub fn build_tail_call_with_name(&self, ctx: &mut Context, func: ValueRef, params: &[ValueRef], name: &str) -> (r: Result<ValueRef, NameError>)
        requires
            old(ctx).wf(),
            self.positioned(old(ctx)),
            old(ctx).valid_value(func),
            values_below(params@, old(ctx).nv()),
        ensures
            final(ctx).wf(),
            Context::extends(old(ctx), final(ctx)),
            match r {
                Ok(v) => {
                    &&& self.appended(old(ctx), final(ctx), v)
                    &&& final(ctx).op_of(v) matches Op::Call(f, a, tail) && f == func && a@ == params@ && tail
                    &&& final(ctx).names.text(final(ctx).values@[v.index as int].name) == name.spec_bytes()
                },
                Err(_) => *final(ctx) == *old(ctx),
            },
            r is Err ==> !(nul_free(name.spec_bytes()) && old(ctx).name_room(name.spec_bytes())),
            Context::names_grow(old(ctx), final(ctx), name.spec_bytes()),
    {
        let n = match ctx.intern_name(name) {
            Ok(n) => n,
            Err(e) => {
                return Err(e);
            },
        };
        let ghost mid = *ctx;
        let v = self.emit(ctx, Op::Call(func, copy_values(params), true), n);
        proof {
            Context::lemma_extends_trans(old(ctx), &mid, ctx);
        }
        Ok(v)
    }

    /// Jumps to `dest_block`.
    pub fn build_br(&self, ctx: &mut Context, dest_block: BlockRef) -> (r: ValueRef)
        requires
            old(ctx).wf(),
            self.positioned(old(ctx)),
            old(ctx).valid_block(dest_block),
        ensures
            final(ctx).wf(),
            Context::extends(old(ctx), final(ctx)),
            self.appended(old(ctx), final(ctx), r),
            final(ctx).op_of(r) == Op::Br(dest_block),
            final(ctx).values@[r.index as int].name.index == 0,
            final(ctx).names == old(ctx).names,
    {
        self.emit(ctx, Op::Br(dest_block), NameId { index: 0 })
    }

    /// Jumps to `then_block` when `condition` holds, else to `else_block`.
    pub fn build_cond_br(&self, ctx: &mut Context, condition: ValueRef, then_block: BlockRef, else_block: BlockRef) -> (r: ValueRef)
        requires
            old(ctx).wf(),
            self.positioned(old(ctx)),
            old(ctx).valid_value(condition),
            old(ctx).valid_block(then_block),
            old(ctx).valid_block(else_block),
        ensures
            final(ctx).wf(),
            Context::extends(old(ctx), final(ctx)),
            self.appended(old(ctx), final(ctx), r),
            final(ctx).op_of(r) == Op::CondBr(condition, then_block, else_block),
            final(ctx).values@[r.index as int].name.index == 0,
            final(ctx).names == old(ctx).names,
    {
        self.emit(ctx, Op::CondBr(condition, then_block, else_block), NameId { index: 0 })
    }

    /// Jumps to the block of the first case whose value equals `value`, else to `default`.
    pub fn build_switch(&self, ctx: &mut Context, value: ValueRef, default: BlockRef, cases: &[(ValueRef, BlockRef)]) -> (r: ValueRef)
        requires
            old(ctx).wf(),
            self.positioned(old(ctx)),
            old(ctx).valid_value(value),
            old(ctx).valid_block(default),
            forall|k: int| 0 <= k < cases@.len() ==> old(ctx).valid_value((#[trigger] cases@[k]).0) && old(ctx).valid_block(cases@[k].1),
        ensures
            final(ctx).wf(),
            Context::extends(old(ctx), final(ctx)),
            self.appended(old(ctx), final(ctx), r),
            final(ctx).op_of(r) matches Op::Switch(v, d, cs) && v == value && d == default && cs@ == cases@,
            final(ctx).values@[r.index as int].name.index == 0,
            final(ctx).names == old(ctx).names,
    {
        self.emit(ctx, Op::Switch(value, default, copy_cases(cases)), NameId { index: 0 })
    }

    /// Address computed from `target` and `indices`, staying in bounds.
    pub fn build_inbounds_gep(&self, ctx: &mut Context, target: ValueRef, indices: &[ValueRef]) -> (r: ValueRef)
        requires
            old(ctx).wf(),
            self.positioned(old(ctx)),
            old(ctx).valid_value(target),
            values_below(indices@, old(ctx).nv()),
        ensures
            final(ctx).wf(),
            Context::extends(old(ctx), final(ctx)),
            self.appended(old(ctx), final(ctx), r),
            final(ctx).op_of(r) matches Op::InBoundsGep(p, ix) && p == target && ix@ == indices@,
            final(ctx).values@[r.index as int].name.index == 0,
            final(ctx).names == old(ctx).names,
    {
        self.emit(ctx, Op::InBoundsGep(target, copy_values(indices)), NameId { index: 0 })
    }

    /// As `build_inbounds_gep`, with a name for the result.
    pub fn build_inbounds_gep_with_name(&self, ctx: &mut Context, target: ValueRef, indices: &[ValueRef], name: &str) -> (r: Result<ValueRef, NameError>)
        requires
            old(ctx).wf(),
            self.positioned(old(ctx)),
            old(ctx).valid_value(target),
            values_below(indices@, old(ctx).nv()),
        ensures
            final(ctx).wf(),
            Context::extends(old(ctx), final(ctx)),
            match r {
                Ok(v) => {
                    &&& self.appended(old(ctx), final(ctx), v)
                    &&& final(ctx).op_of(v) matches Op::InBoundsGep(p, ix) && p == target && ix@ == indices@
                    &&& final(ctx).names.text(final(ctx).values@[v.index as int].name) == name.spec_bytes()
                },
                Err(_) => *final(ctx) == *old(ctx),
            },
            r is Err ==> !(nul_free(name.spec_bytes()) && old(ctx).name_room(name.spec_bytes())),
            Context::names_grow(old(ctx), final(ctx), name.spec_bytes()),
    {
        let n = match ctx.intern_name(name) {
            Ok(n) => n,
            Err(e) => {
                return Err(e);
            },
        };
        let ghost mid = *ctx;
        let v = self.emit(ctx, Op::InBoundsGep(target, copy_values(indices)), n);
        proof {
            Context::lemma_extends_trans(old(ctx), &mid, ctx);
        }
        Ok(v)
    }
}

/// A vector holding the given value handles.
pub fn copy_values(s: &[ValueRef]) -> (r: Vec<ValueRef>)
    ensures
        r@ == s@,
{
    let mut v: Vec<ValueRef> = Vec::new();
    let mut i: usize = 0;
    while i < s.len()
        invariant
            i <= s@.len(),
            v@ == s@.subrange(0, i as int),
        decreases s@.len() - i,
    {
        v.push(s[i]);
        assert(v@ =~= s@.subrange(0, i + 1));
        i = i + 1;
    }
    assert(v@ =~= s@);
    v
}

/// A vector holding the given switch cases.
pub fn copy_cases(s: &[(ValueRef, BlockRef)]) -> (r: Vec<(ValueRef, BlockRef)>)
    ensures
        r@ == s@,
{
    let mut v: Vec<(ValueRef, BlockRef)> = Vec::new();
    let mut i: usize = 0;
    while i < s.len()
        invariant
            i <= s@.len(),
            v@ == s@.subrange(0, i as int),
        decreases s@.len() - i,
    {
        v.push(s[i]);
        assert(v@ =~= s@.subrange(0, i + 1));
        i = i + 1;
    }
    assert(v@ =~= s@);
    v
}

} // verus!
