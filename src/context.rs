use vstd::prelude::*;
use crate::names::{Interner, NameId, NameError, nul_free};
use vstd::string::StringSliceAdditionalSpecFns;
use crate::ir::{TypeRef, ValueRef, BlockRef, TypeKind, Signature, StructDef, Op, ValueKind, ValueDef, FunctionDef, BlockDef, Incoming, BinOp, UnOp, CastOp, IntPredicate, RealPredicate};
use crate::struct_type::Struct;
use crate::module::Module;
use crate::builder::Builder;

verus! {

/// A module of a context: a name, and the functions and globals that
/// record its index.
#[derive(Clone, Copy, Debug, PartialEq, Eq, Structural)]
pub struct ModuleDef {
    pub name: NameId,
}

/// The arena of one build session.
pub struct Context {
    pub names: Interner,
    pub types: Vec<TypeKind>,
    pub sigs: Vec<Signature>,
    pub structs: Vec<StructDef>,
    pub modules: Vec<ModuleDef>,
    pub functions: Vec<FunctionDef>,
    pub blocks: Vec<BlockDef>,
    pub values: Vec<ValueDef>,
    pub incoming: Vec<Incoming>,
}

pub open spec fn refs_below(s: Seq<TypeRef>, nt: nat) -> bool {
    forall|k: int| 0 <= k < s.len() ==> (#[trigger] s[k]).index < nt
}

pub open spec fn values_below(s: Seq<ValueRef>, nv: nat) -> bool {
    forall|k: int| 0 <= k < s.len() ==> (#[trigger] s[k]).index < nv
}

pub open spec fn kind_ok(k: TypeKind, nt: nat, ns: nat, ng: nat) -> bool {
    match k {
        TypeKind::Pointer(t) => t.index < nt,
        TypeKind::Struct(s) => s < ns,
        TypeKind::Function(g) => g < ng,
        _ => true,
    }
}

/// Every handle that an operation holds is below the given table sizes.
pub open spec fn op_ok(op: Op, nt: nat, nv: nat, nb: nat) -> bool {
    match op {
        Op::Alloca(t) | Op::Phi(t) => t.index < nt,
        Op::ArrayAlloca(t, n) | Op::ArrayMalloc(t, n) => t.index < nt && n.index < nv,
        Op::Free(p) | Op::Load(p) | Op::StructGep(p, _) | Op::ExtractValue(p, _) | Op::Unary(
            _,
            p,
        ) | Op::Ret(p) => p.index < nv,
        Op::Store(a, b) | Op::InsertValue(a, b, _) | Op::Binary(_, a, b) | Op::ICmp(_, a, b)
        | Op::FCmp(_, a, b) => a.index < nv && b.index < nv,
        Op::Select(c, a, b) => c.index < nv && a.index < nv && b.index < nv,
        Op::Cast(_, v, t) => v.index < nv && t.index < nt,
        Op::Call(f, args, _) => f.index < nv && values_below(args@, nv),
        Op::InBoundsGep(p, ix) => p.index < nv && values_below(ix@, nv),
        Op::RetVoid => true,
        Op::Br(b) => b.index < nb,
        Op::CondBr(c, t, e) => c.index < nv && t.index < nb && e.index < nb,
        Op::Switch(v, d, cases) => v.index < nv && d.index < nb && forall|k: int|
            0 <= k < cases@.len() ==> (#[trigger] cases@[k]).0.index < nv && cases@[k].1.index
                < nb,
    }
}

pub open spec fn value_kind_ok(
    k: ValueKind,
    nt: nat,
    nv: nat,
    nb: nat,
    nf: nat,
    nm: nat,
) -> bool {
    match k {
        ValueKind::ConstCast(v) => v.index < nv,
        ValueKind::Param { func, .. } => func < nf,
        ValueKind::Function(f) => f < nf,
        ValueKind::GlobalString { module, .. } => module < nm,
        ValueKind::Inst { block, op } => block.index < nb && op_ok(op, nt, nv, nb),
        _ => true,
    }
}

pub open spec fn same_sig(a: Signature, b: Signature) -> bool {
    a.ret == b.ret && a.params@ == b.params@ && a.variadic == b.variadic
}

impl Context {
    pub open spec fn nt(&self) -> nat {
        self.types@.len()
    }

    pub open spec fn nv(&self) -> nat {
        self.values@.len()
    }

    pub open spec fn nb(&self) -> nat {
        self.blocks@.len()
    }

    pub open spec fn nf(&self) -> nat {
        self.functions@.len()
    }

    pub open spec fn nm(&self) -> nat {
        self.modules@.len()
    }

    pub open spec fn types_wf(&self) -> bool {
        &&& forall|i: int|
            0 <= i < self.types@.len() ==> kind_ok(
                #[trigger] self.types@[i],
                self.nt(),
                self.structs@.len(),
                self.sigs@.len(),
            )
        &&& forall|i: int, j: int|
            0 <= i < j < self.types@.len() ==> #[trigger] self.types@[i] != #[trigger] self.types@[j]
        &&& forall|g: int|
            0 <= g < self.sigs@.len() ==> (#[trigger] self.sigs@[g]).ret.index < self.nt()
                && refs_below(self.sigs@[g].params@, self.nt())
        &&& forall|i: int, j: int|
            0 <= i < j < self.sigs@.len() ==> !same_sig(#[trigger] self.sigs@[i], #[trigger] self.sigs@[j])
        &&& forall|s: int|
            0 <= s < self.structs@.len() ==> self.names.valid((#[trigger] self.structs@[s]).name) && (
            self.structs@[s].body matches Some(f) ==> refs_below(f@, self.nt()))
    }

    pub open spec fn values_wf(&self) -> bool {
        &&& forall|i: int|
            0 <= i < self.values@.len() ==> {
                &&& (#[trigger] self.values@[i]).ty.index < self.nt()
                &&& self.names.valid(self.values@[i].name)
                &&& value_kind_ok(
                    self.values@[i].kind,
                    self.nt(),
                    self.nv(),
                    self.nb(),
                    self.nf(),
                    self.nm(),
                )
            }
        &&& forall|k: int|
            0 <= k < self.incoming@.len() ==> (#[trigger] self.incoming@[k]).phi.index < self.nv()
                && self.incoming@[k].value.index < self.nv() && self.incoming@[k].block.index
                < self.nb()
    }

    pub open spec fn units_wf(&self) -> bool {
        &&& forall|m: int| 0 <= m < self.modules@.len() ==> self.names.valid((#[trigger] self.modules@[m]).name)
        &&& forall|f: int|
            0 <= f < self.functions@.len() ==> {
                &&& (#[trigger] self.functions@[f]).module < self.nm()
                &&& self.names.valid(self.functions@[f].name)
                &&& self.functions@[f].ty.index < self.nt()
                &&& self.functions@[f].value.index < self.nv()
                &&& self.functions@[f].first_param + self.functions@[f].param_count <= self.nv()
            }
        &&& forall|b: int|
            0 <= b < self.blocks@.len() ==> (#[trigger] self.blocks@[b]).func < self.nf()
                && self.names.valid(self.blocks@[b].name)
    }

    /// Function `f` has a function type, and its parameters are the values
    /// that name it and their position, typed as its signature says.
    pub open spec fn function_params_ok(&self, f: int) -> bool {
        let d = self.functions@[f];
        &&& d.ty.index < self.types@.len()
        &&& self.types@[d.ty.index as int] matches TypeKind::Function(g) && g < self.sigs@.len()
            && d.param_count == self.sigs@[g as int].params@.len()
            && forall|i: int|
            0 <= i < d.param_count ==> {
                &&& (#[trigger] self.values@[d.first_param + i]).kind == ValueKind::Param {
                    func: f as usize,
                    position: i as usize,
                }
                &&& self.values@[d.first_param + i].ty == self.sigs@[g as int].params@[i]
            }
    }

    pub open spec fn params_wf(&self) -> bool {
        forall|f: int| 0 <= f < self.functions@.len() ==> #[trigger] self.function_params_ok(f)
    }

    /// The context's tables refer only to entries that exist, its types
    /// and signatures are interned, and each function's parameters match
    /// its signature.
    pub open spec fn wf(&self) -> bool {
        &&& self.names.wf()
        &&& self.types_wf()
        &&& self.values_wf()
        &&& self.units_wf()
        &&& self.params_wf()
    }

    /// Appending to the tables keeps the parameters of the functions there.
    pub proof fn lemma_params_kept(c: &Context, d: &Context)
        requires
            c.wf(),
            Context::extends(c, d),
        ensures
            forall|f: int| 0 <= f < c.functions@.len() ==> #[trigger] d.function_params_ok(f),
    {
        assert forall|f: int| 0 <= f < c.functions@.len() implies #[trigger] d.function_params_ok(f) by {
            assert(c.function_params_ok(f));
            let x = c.functions@[f];
            assert(d.functions@.subrange(0, c.functions@.len() as int)[f] == d.functions@[f]);
            assert(d.functions@[f] == x);
            assert(x.ty.index < c.types@.len());
            assert(d.types@.subrange(0, c.types@.len() as int)[x.ty.index as int] == d.types@[x.ty.index as int]);
            if let TypeKind::Function(g) = c.types@[x.ty.index as int] {
                assert(d.sigs@.subrange(0, c.sigs@.len() as int)[g as int] == d.sigs@[g as int]);
                assert forall|i: int| 0 <= i < x.param_count implies {
                    &&& (#[trigger] d.values@[x.first_param + i]).kind == ValueKind::Param {
                        func: f as usize,
                        position: i as usize,
                    }
                    &&& d.values@[x.first_param + i].ty == d.sigs@[g as int].params@[i]
                } by {
                    assert(c.values@[x.first_param + i].kind == ValueKind::Param { func: f as usize, position: i as usize });
                    assert(d.values@.subrange(0, c.values@.len() as int)[x.first_param + i] == d.values@[x.first_param + i]);
                }
            }
        }
    }

    /// `new` holds every table of `old` as a prefix, with the same entries.
    pub open spec fn extends(old: &Context, new: &Context) -> bool {
        &&& new.names.entries().len() >= old.names.entries().len()
        &&& new.names.entries().subrange(0, old.names.entries().len() as int) == old.names.entries()
        &&& new.types@.len() >= old.types@.len()
        &&& new.types@.subrange(0, old.types@.len() as int) == old.types@
        &&& new.sigs@.len() >= old.sigs@.len()
        &&& new.sigs@.subrange(0, old.sigs@.len() as int) == old.sigs@
        &&& new.structs@.len() >= old.structs@.len()
        &&& new.structs@.subrange(0, old.structs@.len() as int) == old.structs@
        &&& new.modules@.len() >= old.modules@.len()
        &&& new.modules@.subrange(0, old.modules@.len() as int) == old.modules@
        &&& new.functions@.len() >= old.functions@.len()
        &&& new.functions@.subrange(0, old.functions@.len() as int) == old.functions@
        &&& new.blocks@.len() >= old.blocks@.len()
        &&& new.blocks@.subrange(0, old.blocks@.len() as int) == old.blocks@
        &&& new.values@.len() >= old.values@.len()
        &&& new.values@.subrange(0, old.values@.len() as int) == old.values@
        &&& new.incoming@.len() >= old.incoming@.len()
        &&& new.incoming@.subrange(0, old.incoming@.len() as int) == old.incoming@
    }

    /// The handle of `k` in the table, if it is there.
    pub open spec fn has_type(&self, t: TypeRef, k: TypeKind) -> bool {
        t.index < self.types@.len() && self.types@[t.index as int] == k
    }

    pub open spec fn valid_type(&self, t: TypeRef) -> bool {
        t.index < self.types@.len()
    }

    pub open spec fn valid_value(&self, v: ValueRef) -> bool {
        v.index < self.values@.len()
    }

    pub open spec fn valid_block(&self, b: BlockRef) -> bool {
        b.index < self.blocks@.len()
    }

    pub proof fn lemma_extends_refl(c: &Context)
        ensures
            Context::extends(c, c),
    {
        assert(c.types@.subrange(0, c.types@.len() as int) =~= c.types@);
        assert(c.names.entries().subrange(0, c.names.entries().len() as int) =~= c.names.entries());
        assert(c.sigs@.subrange(0, c.sigs@.len() as int) =~= c.sigs@);
        assert(c.structs@.subrange(0, c.structs@.len() as int) =~= c.structs@);
        assert(c.modules@.subrange(0, c.modules@.len() as int) =~= c.modules@);
        assert(c.functions@.subrange(0, c.functions@.len() as int) =~= c.functions@);
        assert(c.blocks@.subrange(0, c.blocks@.len() as int) =~= c.blocks@);
        assert(c.values@.subrange(0, c.values@.len() as int) =~= c.values@);
        assert(c.incoming@.subrange(0, c.incoming@.len() as int) =~= c.incoming@);
    }

    pub proof fn lemma_extends_trans(a: &Context, b: &Context, c: &Context)
        requires
            Context::extends(a, b),
            Context::extends(b, c),
        ensures
            Context::extends(a, c),
    {
        assert(c.types@.subrange(0, a.types@.len() as int) =~= b.types@.subrange(0, a.types@.len() as int));
        assert(c.names.entries().subrange(0, a.names.entries().len() as int) =~= b.names.entries().subrange(0, a.names.entries().len() as int));
        assert(c.sigs@.subrange(0, a.sigs@.len() as int) =~= b.sigs@.subrange(0, a.sigs@.len() as int));
        assert(c.structs@.subrange(0, a.structs@.len() as int) =~= b.structs@.subrange(0, a.structs@.len() as int));
        assert(c.modules@.subrange(0, a.modules@.len() as int) =~= b.modules@.subrange(0, a.modules@.len() as int));
        assert(c.functions@.subrange(0, a.functions@.len() as int) =~= b.functions@.subrange(0, a.functions@.len() as int));
        assert(c.blocks@.subrange(0, a.blocks@.len() as int) =~= b.blocks@.subrange(0, a.blocks@.len() as int));
        assert(c.values@.subrange(0, a.values@.len() as int) =~= b.values@.subrange(0, a.values@.len() as int));
        assert(c.incoming@.subrange(0, a.incoming@.len() as int) =~= b.incoming@.subrange(0, a.incoming@.len() as int));
    }

    pub proof fn lemma_value_kind_grow(
        k: ValueKind,
        nt0: nat,
        nt1: nat,
        nv0: nat,
        nv1: nat,
        nb0: nat,
        nb1: nat,
        nf0: nat,
        nf1: nat,
        nm0: nat,
        nm1: nat,
    )
        requires
            value_kind_ok(k, nt0, nv0, nb0, nf0, nm0),
            nt0 <= nt1,
            nv0 <= nv1,
            nb0 <= nb1,
            nf0 <= nf1,
            nm0 <= nm1,
        ensures
            value_kind_ok(k, nt1, nv1, nb1, nf1, nm1),
    {
        if let ValueKind::Inst { block, op } = k {
            match op {
                Op::Switch(v, d, cases) => {
                    assert forall|q: int| 0 <= q < cases@.len() implies (#[trigger] cases@[q]).0.index < nv1 && cases@[q].1.index < nb1 by {
                        assert(cases@[q].0.index < nv0 && cases@[q].1.index < nb0);
                    }
                },
                Op::Call(f, args, _) => {
                    assert forall|q: int| 0 <= q < args@.len() implies (#[trigger] args@[q]).index < nv1 by {
                        assert(args@[q].index < nv0);
                    }
                },
                Op::InBoundsGep(p, ix) => {
                    assert forall|q: int| 0 <= q < ix@.len() implies (#[trigger] ix@[q]).index < nv1 by {
                        assert(ix@[q].index < nv0);
                    }
                },
                _ => {},
            }
        }
    }


    /// What a mutation that only appends values, functions, blocks, modules,
    /// names or incoming pairs must show of the new entries for the whole
    /// context to stay well formed.
    pub proof fn lemma_wf_append(c: &Context, d: &Context)
        requires
            c.wf(),
            d.names.wf(),
            Context::extends(c, d),
            d.types == c.types,
            d.sigs == c.sigs,
            d.structs == c.structs,
            forall|i: int|
                c.values@.len() <= i < d.values@.len() ==> {
                    &&& (#[trigger] d.values@[i]).ty.index < d.nt()
                    &&& d.names.valid(d.values@[i].name)
                    &&& value_kind_ok(d.values@[i].kind, d.nt(), d.nv(), d.nb(), d.nf(), d.nm())
                },
            forall|k: int|
                c.incoming@.len() <= k < d.incoming@.len() ==> (#[trigger] d.incoming@[k]).phi.index
                    < d.nv() && d.incoming@[k].value.index < d.nv() && d.incoming@[k].block.index
                    < d.nb(),
            forall|m: int|
                c.modules@.len() <= m < d.modules@.len() ==> d.names.valid((#[trigger] d.modules@[m]).name),
            forall|f: int|
                c.functions@.len() <= f < d.functions@.len() ==> {
                    &&& (#[trigger] d.functions@[f]).module < d.nm()
                    &&& d.names.valid(d.functions@[f].name)
                    &&& d.functions@[f].ty.index < d.nt()
                    &&& d.functions@[f].value.index < d.nv()
                    &&& d.functions@[f].first_param + d.functions@[f].param_count <= d.nv()
                },
            forall|b: int|
                c.blocks@.len() <= b < d.blocks@.len() ==> (#[trigger] d.blocks@[b]).func < d.nf()
                    && d.names.valid(d.blocks@[b].name),
            forall|f: int| c.functions@.len() <= f < d.functions@.len() ==> #[trigger] d.function_params_ok(f),
        ensures
            d.wf(),
    {
        Context::lemma_params_kept(c, d);
        assert forall|i: int| 0 <= i < d.values@.len() implies {
            &&& (#[trigger] d.values@[i]).ty.index < d.nt()
            &&& d.names.valid(d.values@[i].name)
            &&& value_kind_ok(d.values@[i].kind, d.nt(), d.nv(), d.nb(), d.nf(), d.nm())
        } by {
            if i < c.values@.len() {
                assert(d.values@[i] == d.values@.subrange(0, c.values@.len() as int)[i]);
                Context::lemma_value_kind_grow(
                    d.values@[i].kind,
                    c.nt(),
                    d.nt(),
                    c.nv(),
                    d.nv(),
                    c.nb(),
                    d.nb(),
                    c.nf(),
                    d.nf(),
                    c.nm(),
                    d.nm(),
                );
            }
        }
        assert forall|k: int| 0 <= k < d.incoming@.len() implies (#[trigger] d.incoming@[k]).phi.index
            < d.nv() && d.incoming@[k].value.index < d.nv() && d.incoming@[k].block.index
            < d.nb() by {
            if k < c.incoming@.len() {
                assert(d.incoming@[k] == d.incoming@.subrange(0, c.incoming@.len() as int)[k]);
            }
        }
        assert forall|m: int| 0 <= m < d.modules@.len() implies d.names.valid((#[trigger] d.modules@[m]).name) by {
            if m < c.modules@.len() {
                assert(d.modules@[m] == d.modules@.subrange(0, c.modules@.len() as int)[m]);
            }
        }
        assert forall|f: int| 0 <= f < d.functions@.len() implies {
            &&& (#[trigger] d.functions@[f]).module < d.nm()
            &&& d.names.valid(d.functions@[f].name)
            &&& d.functions@[f].ty.index < d.nt()
            &&& d.functions@[f].value.index < d.nv()
            &&& d.functions@[f].first_param + d.functions@[f].param_count <= d.nv()
        } by {
            if f < c.functions@.len() {
                assert(d.functions@[f] == d.functions@.subrange(0, c.functions@.len() as int)[f]);
            }
        }
        assert forall|b: int| 0 <= b < d.blocks@.len() implies (#[trigger] d.blocks@[b]).func < d.nf()
            && d.names.valid(d.blocks@[b].name) by {
            if b < c.blocks@.len() {
                assert(d.blocks@[b] == d.blocks@.subrange(0, c.blocks@.len() as int)[b]);
            }
        }
        assert forall|s: int| 0 <= s < d.structs@.len() implies d.names.valid((#[trigger] d.structs@[s]).name) by {
            assert(c.names.valid(c.structs@[s].name));
        }
    }

    /// Appends a value and returns its handle.
    pub(crate) fn push_value(&mut self, def: ValueDef) -> (r: ValueRef)
        requires
            old(self).wf(),
            def.ty.index < old(self).nt(),
            old(self).names.valid(def.name),
            value_kind_ok(def.kind, old(self).nt(), old(self).nv(), old(self).nb(), old(self).nf(), old(self).nm()),
        ensures
            final(self).wf(),
            Context::extends(old(self), final(self)),
            final(self).values@ == old(self).values@.push(def),
            r.index == old(self).values@.len(),
            final(self).names == old(self).names,
            final(self).types == old(self).types,
            final(self).sigs == old(self).sigs,
            final(self).structs == old(self).structs,
            final(self).modules == old(self).modules,
            final(self).functions == old(self).functions,
            final(self).blocks == old(self).blocks,
            final(self).incoming == old(self).incoming,
    {
        let ghost c = *old(self);
        self.values.push(def);
        proof {
            Context::lemma_extends_refl(&c);
            assert(self.values@.subrange(0, c.values@.len() as int) =~= c.values@);
            Context::lemma_value_kind_grow(def.kind, c.nt(), self.nt(), c.nv(), self.nv(), c.nb(), self.nb(), c.nf(), self.nf(), c.nm(), self.nm());
            Context::lemma_wf_append(&c, self);
        }
        ValueRef { index: self.values.len() - 1 }
    }

    /// The name arena can take `text` and a terminating zero.
    pub open spec fn name_room(&self, text: Seq<u8>) -> bool {
        &&& self.names.buffer@.len() + text.len() + 1 < usize::MAX
        &&& self.names.starts@.len() < usize::MAX
    }

    /// `new` took at most one name of `text`'s length from the arena of
    /// `old`, and none when `text` is empty.
    pub open spec fn names_grow(old: &Context, new: &Context, text: Seq<u8>) -> bool {
        &&& new.names.buffer@.len() <= old.names.buffer@.len() + text.len() + 1
        &&& new.names.starts@.len() <= old.names.starts@.len() + 1
        &&& text.len() == 0 ==> new.names == old.names
    }

    /// Interns `text` as a name of this session.
    pub fn intern_name(&mut self, text: &str) -> (r: Result<NameId, NameError>)
        requires
            old(self).wf(),
        ensures
            final(self).wf(),
            Context::extends(old(self), final(self)),
            final(self).types == old(self).types,
            final(self).sigs == old(self).sigs,
            final(self).structs == old(self).structs,
            final(self).modules == old(self).modules,
            final(self).functions == old(self).functions,
            final(self).blocks == old(self).blocks,
            final(self).values == old(self).values,
            final(self).incoming == old(self).incoming,
            match r {
                Ok(n) => final(self).names.valid(n) && final(self).names.text(n) == text.spec_bytes(),
                Err(_) => *final(self) == *old(self) && !(nul_free(text.spec_bytes())
                    && old(self).name_room(text.spec_bytes())),
            },
            text.spec_bytes().len() == 0 ==> r == Ok::<NameId, NameError>(NameId { index: 0 }),
            Context::names_grow(old(self), final(self), text.spec_bytes()),
    {
        let ghost c = *old(self);
        let r = self.names.intern(text);
        proof {
            Context::lemma_extends_refl(&c);
            assert(self.values@.subrange(0, c.values@.len() as int) =~= c.values@);
            Context::lemma_wf_append(&c, self);
        }
        r
    }

    /// An empty session.
    pub fn new() -> (r: Context)
        ensures
            r.wf(),
            r.names.entries() == seq![Seq::<u8>::empty()],
            r.names.buffer@.len() == 1,
            r.types@.len() == 0,
            r.sigs@.len() == 0,
            r.structs@.len() == 0,
            r.modules@.len() == 0,
            r.functions@.len() == 0,
            r.blocks@.len() == 0,
            r.values@.len() == 0,
            r.incoming@.len() == 0,
    {
        let names = Interner::new();
        assert(names.entries() =~= seq![Seq::<u8>::empty()]);
        Context {
            names,
            types: Vec::new(),
            sigs: Vec::new(),
            structs: Vec::new(),
            modules: Vec::new(),
            functions: Vec::new(),
            blocks: Vec::new(),
            values: Vec::new(),
            incoming: Vec::new(),
        }
    }

    /// The handle of type `k`, added to the table if it is not there yet.
    pub fn intern_type(&mut self, k: TypeKind) -> (r: TypeRef)
        requires
            old(self).wf(),
            kind_ok(k, old(self).nt(), old(self).structs@.len(), old(self).sigs@.len()),
        ensures
            final(self).wf(),
            Context::extends(old(self), final(self)),
            final(self).has_type(r, k),
            old(self).types@.contains(k) ==> final(self).types@ == old(self).types@,
            final(self).types@.len() <= old(self).types@.len() + 1,
            final(self).names == old(self).names,
            final(self).sigs == old(self).sigs,
            final(self).structs == old(self).structs,
            final(self).modules == old(self).modules,
            final(self).functions == old(self).functions,
            final(self).blocks == old(self).blocks,
            final(self).values == old(self).values,
            final(self).incoming == old(self).incoming,
    {
        let mut i: usize = 0;
        while i < self.types.len()
            invariant
                i <= self.types@.len(),
                forall|j: int| 0 <= j < i ==> self.types@[j] != k,
                *self == *old(self),
                self.wf(),
            decreases self.types@.len() - i,
        {
            if self.types[i] == k {
                proof {
                    Context::lemma_extends_refl(self);
                }
                return TypeRef { index: i };
            }
            i = i + 1;
        }
        assert(!old(self).types@.contains(k));
        self.types.push(k);
        proof {
            let ghost c = *old(self);
            assert(self.types@.subrange(0, c.types@.len() as int) =~= c.types@);
            Context::lemma_extends_refl(&c);
            assert(self.names.entries().subrange(0, c.names.entries().len() as int) =~= c.names.entries());
            assert(self.sigs@.subrange(0, self.sigs@.len() as int) =~= self.sigs@);
            assert(self.structs@.subrange(0, self.structs@.len() as int) =~= self.structs@);
            assert(self.modules@.subrange(0, self.modules@.len() as int) =~= self.modules@);
            assert(self.functions@.subrange(0, self.functions@.len() as int) =~= self.functions@);
            assert(self.blocks@.subrange(0, self.blocks@.len() as int) =~= self.blocks@);
            assert(self.values@.subrange(0, self.values@.len() as int) =~= self.values@);
            assert(self.incoming@.subrange(0, self.incoming@.len() as int) =~= self.incoming@);
            assert forall|i: int| 0 <= i < self.types@.len() implies kind_ok(
                #[trigger] self.types@[i],
                self.nt(),
                self.structs@.len(),
                self.sigs@.len(),
            ) by {
                if i < c.types@.len() {
                    assert(kind_ok(c.types@[i], c.nt(), c.structs@.len(), c.sigs@.len()));
                }
            }
            assert forall|i: int, j: int|
                0 <= i < j < self.types@.len() implies #[trigger] self.types@[i]
                    != #[trigger] self.types@[j] by {
                if j == c.types@.len() {
                    assert(self.types@[i] == c.types@[i]);
                }
            }
            assert forall|i: int| 0 <= i < self.values@.len() implies value_kind_ok(
                (#[trigger] self.values@[i]).kind,
                self.nt(),
                self.nv(),
                self.nb(),
                self.nf(),
                self.nm(),
            ) by {
                Context::lemma_value_kind_grow(self.values@[i].kind, c.nt(), self.nt(), c.nv(), self.nv(), c.nb(), self.nb(), c.nf(), self.nf(), c.nm(), self.nm());
            }
            assert(Context::extends(&c, self));
            Context::lemma_params_kept(&c, self);
        }
        TypeRef { index: self.types.len() - 1 }
    }
}

} // verus!
