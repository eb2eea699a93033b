use vstd::prelude::*;
use crate::names::nul_free;
use crate::context::{Context, kind_ok, refs_below, same_sig};
use crate::ir::{TypeRef, TypeKind, Signature, StructDef};
use crate::names::{NameId, NameError};
use vstd::string::StringSliceAdditionalSpecFns;
use crate::struct_type::Struct;

verus! {

#[allow(non_snake_case)]
impl Context {
    /// `new` differs from `old` at most by types added to the type table.
    pub open spec fn only_types_added(old: &Context, new: &Context) -> bool {
        &&& Context::extends(old, new)
        &&& new.names == old.names
        &&& new.sigs == old.sigs
        &&& new.structs == old.structs
        &&& new.modules == old.modules
        &&& new.functions == old.functions
        &&& new.blocks == old.blocks
        &&& new.values == old.values
        &&& new.incoming == old.incoming
    }


    /// Whether `t` is the function type with the given return type,
    /// parameter types and variadic flag.
    pub open spec fn has_fn_type(&self, t: TypeRef, ret: TypeRef, params: Seq<TypeRef>, variadic: bool) -> bool {
        &&& t.index < self.types@.len()
        &&& match self.types@[t.index as int] {
            TypeKind::Function(g) => {
                &&& g < self.sigs@.len()
                &&& self.sigs@[g as int].ret == ret
                &&& self.sigs@[g as int].params@ == params
                &&& self.sigs@[g as int].variadic == variadic
            },
            _ => false,
        }
    }

    /// The function type `ret (params...)`, variadic when `variadic` holds.
    pub fn function_type(&mut self, ret: TypeRef, params: &[TypeRef], variadic: bool) -> (r: TypeRef)
        requires
            old(self).wf(),
            old(self).valid_type(ret),
            refs_below(params@, old(self).nt()),
        ensures
            final(self).wf(),
            Context::extends(old(self), final(self)),
            final(self).names == old(self).names,
            final(self).structs == old(self).structs,
            final(self).modules == old(self).modules,
            final(self).functions == old(self).functions,
            final(self).blocks == old(self).blocks,
            final(self).values == old(self).values,
            final(self).incoming == old(self).incoming,
            final(self).has_fn_type(r, ret, params@, variadic),
    {
        let ghost c = *old(self);
        let mut g: usize = 0;
        while g < self.sigs.len()
            invariant
                g <= self.sigs@.len(),
                *self == c,
                self.wf(),
                forall|j: int| 0 <= j < g ==> !(self.sigs@[j].ret == ret && self.sigs@[j].params@ == params@ && self.sigs@[j].variadic == variadic),
            ensures
                g < self.sigs@.len() ==> (self.sigs@[g as int].ret == ret && self.sigs@[g as int].params@ == params@ && self.sigs@[g as int].variadic == variadic),
                g <= self.sigs@.len(),
                *self == c,
                self.wf(),
                forall|j: int| 0 <= j < g ==> !(self.sigs@[j].ret == ret && self.sigs@[j].params@ == params@ && self.sigs@[j].variadic == variadic),
            decreases self.sigs@.len() - g,
        {
            if self.sigs[g].ret == ret && self.sigs[g].variadic == variadic && same_refs(&self.sigs[g].params, params) {
                break;
            }
            g = g + 1;
        }
        if g < self.sigs.len() {
            return self.intern_type(TypeKind::Function(g));
        }
        let v = copy_refs(params);
        let sig = Signature { ret, params: v, variadic };
        self.sigs.push(sig);
        let g = self.sigs.len() - 1;
        proof {
            assert(self.sigs@.subrange(0, c.sigs@.len() as int) =~= c.sigs@);
            assert forall|i: int| 0 <= i < self.types@.len() implies kind_ok(
                #[trigger] self.types@[i],
                self.nt(),
                self.structs@.len(),
                self.sigs@.len(),
            ) by {
                assert(kind_ok(c.types@[i], c.nt(), c.structs@.len(), c.sigs@.len()));
            }
            assert forall|q: int| 0 <= q < self.sigs@.len() implies (#[trigger] self.sigs@[q]).ret.index < self.nt()
                && refs_below(self.sigs@[q].params@, self.nt()) by {
                if q < c.sigs@.len() {
                    assert(self.sigs@[q] == c.sigs@[q]);
                }
            }
            assert forall|a: int, b: int|
                0 <= a < b < self.sigs@.len() implies !same_sig(#[trigger] self.sigs@[a], #[trigger] self.sigs@[b]) by {
                if b == c.sigs@.len() {
                    assert(self.sigs@[a] == c.sigs@[a]);
                }
            }
            assert forall|q: int| 0 <= q < self.structs@.len() implies self.names.valid((#[trigger] self.structs@[q]).name) && (
            self.structs@[q].body matches Some(f) ==> refs_below(f@, self.nt())) by {
                assert(c.names.valid(c.structs@[q].name));
            }
            Context::lemma_extends_refl(&c);
            assert(Context::extends(&c, self));
            Context::lemma_params_kept(&c, self);
        }
        let ghost mid = *self;
        let r = self.intern_type(TypeKind::Function(g));
        proof {
            Context::lemma_extends_refl(&c);
            assert(mid.types@.subrange(0, c.types@.len() as int) =~= c.types@);
            assert(Context::extends(&c, &mid));
            Context::lemma_extends_trans(&c, &mid, self);
        }
        r
    }

    /// Declares a named struct type with no body yet. A pointer to it can be
    /// formed at once; its body is assigned later with `Struct::set_body`.
    pub fn StructTypeNamed(&mut self, name: &str) -> (r: Result<Struct, NameError>)
        requires
            old(self).wf(),
        ensures
            final(self).wf(),
            Context::extends(old(self), final(self)),
            final(self).modules == old(self).modules,
            final(self).functions == old(self).functions,
            final(self).blocks == old(self).blocks,
            final(self).values == old(self).values,
            final(self).incoming == old(self).incoming,
            match r {
                Ok(st) => {
                    &&& final(self).struct_of(st.ty) == old(self).structs@.len()
                    &&& final(self).structs@[old(self).structs@.len() as int].body is None
                    &&& final(self).names.text(final(self).structs@[old(self).structs@.len() as int].name) == name.spec_bytes()
                },
                Err(_) => *final(self) == *old(self),
            },
            r is Err ==> !(nul_free(name.spec_bytes()) && old(self).name_room(name.spec_bytes())),
            Context::names_grow(old(self), final(self), name.spec_bytes()),
    {
        let n = match self.intern_name(name) {
            Ok(n) => n,
            Err(e) => {
                return Err(e);
            },
        };
        let ghost c = *self;
        let r = self.push_struct(StructDef { name: n, body: None, packed: false });
        proof {
            Context::lemma_extends_trans(old(self), &c, self);
        }
        Ok(r)
    }

    /// A struct type whose body is given at once.
    pub fn StructType(&mut self, fields: &[TypeRef], packed: bool) -> (r: Struct)
        requires
            old(self).wf(),
            refs_below(fields@, old(self).nt()),
        ensures
            final(self).wf(),
            Context::extends(old(self), final(self)),
            final(self).modules == old(self).modules,
            final(self).functions == old(self).functions,
            final(self).blocks == old(self).blocks,
            final(self).values == old(self).values,
            final(self).incoming == old(self).incoming,
            final(self).struct_of(r.ty) == old(self).structs@.len(),
            final(self).structs@[old(self).structs@.len() as int].body matches Some(f) && f@ == fields@,
            final(self).structs@[old(self).structs@.len() as int].packed == packed,
            final(self).structs@[old(self).structs@.len() as int].name.index == 0,
            final(self).names == old(self).names,
    {
        let v = copy_refs(fields);
        self.push_struct(StructDef { name: NameId { index: 0 }, body: Some(v), packed })
    }

    /// The struct index of type `t`, or -1 when `t` is not a struct type.
    pub open spec fn struct_of(&self, t: TypeRef) -> int {
        if t.index < self.types@.len() {
            match self.types@[t.index as int] {
                TypeKind::Struct(s) => s as int,
                _ => -1,
            }
        } else {
            -1
        }
    }

    fn push_struct(&mut self, def: StructDef) -> (r: Struct)
        requires
            old(self).wf(),
            old(self).names.valid(def.name),
            def.body matches Some(f) ==> refs_below(f@, old(self).nt()),
        ensures
            final(self).wf(),
            Context::extends(old(self), final(self)),
            final(self).names == old(self).names,
            final(self).modules == old(self).modules,
            final(self).functions == old(self).functions,
            final(self).blocks == old(self).blocks,
            final(self).values == old(self).values,
            final(self).incoming == old(self).incoming,
            final(self).structs@.len() == old(self).structs@.len() + 1,
            final(self).structs@[old(self).structs@.len() as int] == def,
            final(self).struct_of(r.ty) == old(self).structs@.len(),
    {
        let ghost c = *old(self);
        self.structs.push(def);
        let s = self.structs.len() - 1;
        proof {
            assert(self.structs@.subrange(0, c.structs@.len() as int) =~= c.structs@);
            assert forall|i: int| 0 <= i < self.types@.len() implies kind_ok(
                #[trigger] self.types@[i],
                self.nt(),
                self.structs@.len(),
                self.sigs@.len(),
            ) by {
                assert(kind_ok(c.types@[i], c.nt(), c.structs@.len(), c.sigs@.len()));
            }
            assert forall|q: int| 0 <= q < self.structs@.len() implies self.names.valid((#[trigger] self.structs@[q]).name) && (
            self.structs@[q].body matches Some(f) ==> refs_below(f@, self.nt())) by {
                if q < c.structs@.len() {
                    assert(self.structs@[q] == c.structs@[q]);
                }
            }
            Context::lemma_extends_refl(&c);
            assert(Context::extends(&c, self));
            Context::lemma_params_kept(&c, self);
        }
        let ghost mid = *self;
        let t = self.intern_type(TypeKind::Struct(s));
        proof {
            Context::lemma_extends_refl(&c);
            assert(Context::extends(&c, &mid));
            Context::lemma_extends_trans(&c, &mid, self);
        }
        Struct { ty: t }
    }

    /// The integer type of the given bit width.
    pub fn IntType(&mut self, num_bits: u32) -> (r: TypeRef)
        requires
            old(self).wf(),
        ensures
            final(self).wf(),
            Context::only_types_added(old(self), final(self)),
            final(self).has_type(r, TypeKind::Int(num_bits)),
    {
        self.intern_type(TypeKind::Int(num_bits))
    }

    /// Pointer to `typ`. The pointee may be a struct that has no body yet.
    pub fn PointerType(&mut self, typ: TypeRef) -> (r: TypeRef)
        requires
            old(self).wf(),
            old(self).valid_type(typ),
        ensures
            final(self).wf(),
            Context::only_types_added(old(self), final(self)),
            final(self).has_type(r, TypeKind::Pointer(typ)),
    {
        self.intern_type(TypeKind::Pointer(typ))
    }

    /// Pointer to an 8-bit integer, the type of a C string.
    pub fn CharPointerType(&mut self) -> (r: TypeRef)
        requires
            old(self).wf(),
        ensures
            final(self).wf(),
            Context::only_types_added(old(self), final(self)),
            exists|e: TypeRef|
                final(self).has_type(e, TypeKind::Int(8)) && final(self).has_type(r, TypeKind::Pointer(e)),
    {
        let ghost c = *old(self);
        let e = self.Int8Type();
        let ghost mid = *self;
        let r = self.PointerType(e);
        proof {
            Context::lemma_extends_trans(&c, &mid, self);
            assert(self.types@[e.index as int] == mid.types@.subrange(0, mid.types@.len() as int)[e.index as int]);
            assert(self.has_type(e, TypeKind::Int(8)) && self.has_type(r, TypeKind::Pointer(e)));
        }
        r
    }

    /// Same as `CharPointerType`.
    pub fn Int8PointerType(&mut self) -> (r: TypeRef)
        requires
            old(self).wf(),
        ensures
            final(self).wf(),
            Context::only_types_added(old(self), final(self)),
            exists|e: TypeRef|
                final(self).has_type(e, TypeKind::Int(8)) && final(self).has_type(r, TypeKind::Pointer(e)),
    {
        self.CharPointerType()
    }

    pub fn VoidType(&mut self) -> (r: TypeRef)
        requires
            old(self).wf(),
        ensures
            final(self).wf(),
            Context::only_types_added(old(self), final(self)),
            final(self).has_type(r, TypeKind::Void),
    {
        self.intern_type(TypeKind::Void)
    }

    pub fn Int1Type(&mut self) -> (r: TypeRef)
        requires
            old(self).wf(),
        ensures
            final(self).wf(),
            Context::only_types_added(old(self), final(self)),
            final(self).has_type(r, TypeKind::Int(1)),
    {
        self.intern_type(TypeKind::Int(1))
    }

    pub fn Int8Type(&mut self) -> (r: TypeRef)
        requires
            old(self).wf(),
        ensures
            final(self).wf(),
            Context::only_types_added(old(self), final(self)),
            final(self).has_type(r, TypeKind::Int(8)),
    {
        self.intern_type(TypeKind::Int(8))
    }

    pub fn Int16Type(&mut self) -> (r: TypeRef)
        requires
            old(self).wf(),
        ensures
            final(self).wf(),
            Context::only_types_added(old(self), final(self)),
            final(self).has_type(r, TypeKind::Int(16)),
    {
        self.intern_type(TypeKind::Int(16))
    }

    pub fn Int32Type(&mut self) -> (r: TypeRef)
        requires
            old(self).wf(),
        ensures
            final(self).wf(),
            Context::only_types_added(old(self), final(self)),
            final(self).has_type(r, TypeKind::Int(32)),
    {
        self.intern_type(TypeKind::Int(32))
    }

    pub fn Int64Type(&mut self) -> (r: TypeRef)
        requires
            old(self).wf(),
        ensures
            final(self).wf(),
            Context::only_types_added(old(self), final(self)),
            final(self).has_type(r, TypeKind::Int(64)),
    {
        self.intern_type(TypeKind::Int(64))
    }

    pub fn Int128Type(&mut self) -> (r: TypeRef)
        requires
            old(self).wf(),
        ensures
            final(self).wf(),
            Context::only_types_added(old(self), final(self)),
            final(self).has_type(r, TypeKind::Int(128)),
    {
        self.intern_type(TypeKind::Int(128))
    }

    pub fn HalfType(&mut self) -> (r: TypeRef)
        requires
            old(self).wf(),
        ensures
            final(self).wf(),
            Context::only_types_added(old(self), final(self)),
            final(self).has_type(r, TypeKind::Half),
    {
        self.intern_type(TypeKind::Half)
    }

    pub fn FloatType(&mut self) -> (r: TypeRef)
        requires
            old(self).wf(),
        ensures
            final(self).wf(),
            Context::only_types_added(old(self), final(self)),
            final(self).has_type(r, TypeKind::Float),
    {
        self.intern_type(TypeKind::Float)
    }

    pub fn DoubleType(&mut self) -> (r: TypeRef)
        requires
            old(self).wf(),
        ensures
            final(self).wf(),
            Context::only_types_added(old(self), final(self)),
            final(self).has_type(r, TypeKind::Double),
    {
        self.intern_type(TypeKind::Double)
    }

    pub fn FP128Type(&mut self) -> (r: TypeRef)
        requires
            old(self).wf(),
        ensures
            final(self).wf(),
            Context::only_types_added(old(self), final(self)),
            final(self).has_type(r, TypeKind::FP128),
    {
        self.intern_type(TypeKind::FP128)
    }

    pub fn X86FP80Type(&mut self) -> (r: TypeRef)
        requires
            old(self).wf(),
        ensures
            final(self).wf(),
            Context::only_types_added(old(self), final(self)),
            final(self).has_type(r, TypeKind::X86FP80),
    {
        self.intern_type(TypeKind::X86FP80)
    }

    pub fn PPCFP128Type(&mut self) -> (r: TypeRef)
        requires
            old(self).wf(),
        ensures
            final(self).wf(),
            Context::only_types_added(old(self), final(self)),
            final(self).has_type(r, TypeKind::PPCFP128),
    {
        self.intern_type(TypeKind::PPCFP128)
    }

    pub fn X86MMXType(&mut self) -> (r: TypeRef)
        requires
            old(self).wf(),
        ensures
            final(self).wf(),
            Context::only_types_added(old(self), final(self)),
            final(self).has_type(r, TypeKind::X86MMX),
    {
        self.intern_type(TypeKind::X86MMX)
    }

    pub fn LabelType(&mut self) -> (r: TypeRef)
        requires
            old(self).wf(),
        ensures
            final(self).wf(),
            Context::only_types_added(old(self), final(self)),
            final(self).has_type(r, TypeKind::Label),
    {
        self.intern_type(TypeKind::Label)
    }
}

/// Whether two lists of type handles are equal.
pub fn same_refs(a: &Vec<TypeRef>, b: &[TypeRef]) -> (r: bool)
    ensures
        r == (a@ == b@),
{
    if a.len() != b.len() {
        return false;
    }
    let mut i: usize = 0;
    while i < a.len()
        invariant
            a@.len() == b@.len(),
            i <= a@.len(),
            forall|j: int| 0 <= j < i ==> a@[j] == b@[j],
        decreases a@.len() - i,
    {
        if a[i] != b[i] {
            return false;
        }
        i = i + 1;
    }
    assert(a@ =~= b@);
    true
}

/// A vector holding the given type handles.
pub fn copy_refs(s: &[TypeRef]) -> (r: Vec<TypeRef>)
    ensures
        r@ == s@,
{
    let mut v: Vec<TypeRef> = Vec::new();
    let mut i: usize = 0;
    while i < s.len()
        invariant
            i <= s@.len(),
            v@ == s@.subrange(0, i as int),
        decreases s@.len() - i,
    {
        v.push(s[i]);
        assert(v@ =~= s@.subrange(0, i + 1));
        i = i + 1;
    }
    assert(v@ =~= s@);
    v
}

} // verus!
