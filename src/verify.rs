use vstd::prelude::*;
use crate::context::{Context, values_below};
use crate::ir::{TypeRef, TypeKind, ValueRef, BlockRef, Op, ValueKind, Incoming};
use crate::module::Module;
use crate::phi::pairs_of;

verus! {

impl Context {
    /// Value `i` is an instruction of block `b`.
    pub open spec fn inst_in(&self, i: int, b: BlockRef) -> bool {
        &&& 0 <= i < self.values@.len()
        &&& self.values@[i].kind matches ValueKind::Inst { block, .. } && block == b
    }

    /// Value `i` is a terminator instruction.
    pub open spec fn is_term(&self, i: int) -> bool {
        self.values@[i].kind matches ValueKind::Inst { op, .. } && op.is_terminator()
    }

    /// Value `i` is a terminator that may pass control to block `b`.
    pub open spec fn jumps_to(&self, i: int, b: BlockRef) -> bool {
        self.values@[i].kind matches ValueKind::Inst { op, .. } && op.is_terminator() && op.targets(b)
    }

    /// Block `b` has a terminator, and no instruction of `b` follows one:
    /// it ends in exactly one terminator.
    pub open spec fn block_terminated(&self, b: BlockRef) -> bool {
        &&& exists|i: int| self.inst_in(i, b) && self.is_term(i)
        &&& forall|i: int, j: int|
            #![trigger self.inst_in(i, b), self.inst_in(j, b)]
            self.inst_in(i, b) && self.inst_in(j, b) && i < j ==> !self.is_term(i)
    }

    /// Block `p` is a predecessor of block `b`.
    pub open spec fn is_pred(&self, p: BlockRef, b: BlockRef) -> bool {
        exists|j: int| self.inst_in(j, p) && self.jumps_to(j, b)
    }

    /// A type whose values have a complete layout.
    pub open spec fn sized(&self, t: TypeRef) -> bool {
        match self.types@[t.index as int] {
            TypeKind::Void | TypeKind::Label | TypeKind::Function(_) => false,
            TypeKind::Struct(s) => self.structs@[s as int].body is Some,
            _ => true,
        }
    }

    /// The pairs of phi `i` of type `t` in block `b` name exactly the
    /// predecessors of `b`, with values of type `t` that are available at
    /// the end of the predecessor they come from.
    pub open spec fn phi_ok(&self, i: int, t: TypeRef, b: BlockRef) -> bool {
        let inc = self.incoming_of(ValueRef { index: i as usize });
        &&& forall|k: int|
            0 <= k < inc.len() ==> self.is_pred((#[trigger] inc[k]).1, b) && self.values@[inc[k].0.index as int].ty == t
                && self.operand_ok(inc[k].0, self.values@.len() as int, inc[k].1)
        &&& forall|p: BlockRef| #[trigger] self.is_pred(p, b) ==> exists|k: int| 0 <= k < inc.len() && (#[trigger] inc[k]).1 == p
    }

    /// A call of `callee` with `args` matches the callee's signature: as many
    /// arguments as parameters (at least as many for a variadic one), each
    /// fixed parameter with an argument of its type.
    pub open spec fn call_ok(&self, callee: ValueRef, args: Seq<ValueRef>) -> bool {
        match self.pointee(callee) {
            Some(ft) => match self.types@[ft.index as int] {
                TypeKind::Function(g) => {
                    let sig = self.sigs@[g as int];
                    &&& if sig.variadic {
                        args.len() >= sig.params@.len()
                    } else {
                        args.len() == sig.params@.len()
                    }
                    &&& forall|k: int| 0 <= k < sig.params@.len() ==> self.values@[(#[trigger] args[k]).index as int].ty == sig.params@[k]
                },
                _ => false,
            },
            None => false,
        }
    }

    /// The return type of function `f`, if its type is a function type.
    pub open spec fn ret_type(&self, f: int) -> Option<TypeRef> {
        match self.types@[self.functions@[f].ty.index as int] {
            TypeKind::Function(g) => Some(self.sigs@[g as int].ret),
            _ => None,
        }
    }

    /// Block `t` belongs to function `f`.
    pub open spec fn block_of(&self, t: BlockRef, f: usize) -> bool {
        self.blocks@[t.index as int].func == f
    }

    /// The checks that instruction `i`, of block `b`, must pass: those of
    /// its operation, and those of its operands.
    pub open spec fn inst_ok(&self, i: int, b: BlockRef) -> bool {
        &&& self.inst_rules_ok(i, b)
        &&& self.values@[i].kind matches ValueKind::Inst { op, .. } && forall|k: int|
            0 <= k < operands(op).len() ==> self.operand_ok(#[trigger] operands(op)[k], i, b)
    }

    /// Value `u` may be an operand of instruction `i` of block `b`: it
    /// produces a value, and it is a constant, a function of the same
    /// module, a parameter of the same function, a global of the same
    /// module, or an instruction of the same function that comes before `i`
    /// in the same block or stands in a block that dominates `b`.
    pub open spec fn operand_ok(&self, u: ValueRef, i: int, b: BlockRef) -> bool {
        let f = self.blocks@[b.index as int].func;
        let m = self.functions@[f as int].module;
        &&& self.types@[self.values@[u.index as int].ty.index as int] != TypeKind::Void
        &&& match self.values@[u.index as int].kind {
            ValueKind::Param { func, .. } => func == f,
            ValueKind::Function(g) => self.functions@[g as int].module == m,
            ValueKind::GlobalString { module, .. } => module == m,
            ValueKind::Inst { block, .. } => self.blocks@[block.index as int].func == f && if block == b {
                u.index < i
            } else {
                self.dominates(block, b, f)
            },
            _ => true,
        }
    }

    /// The checks of the operation of instruction `i`, of block `b`.
    pub open spec fn inst_rules_ok(&self, i: int, b: BlockRef) -> bool {
        let f = self.blocks@[b.index as int].func;
        match self.values@[i].kind {
            ValueKind::Inst { op, .. } => match op {
                Op::Phi(t) => self.phi_ok(i, t, b) && self.phi_at_head(i, b),
                Op::Call(callee, args, _) => self.call_ok(callee, args@),
                Op::Alloca(t) | Op::ArrayAlloca(t, _) | Op::ArrayMalloc(t, _) => self.sized(t),
                Op::Load(p) => self.pointee(p) matches Some(t) && self.sized(t),
                Op::Store(v, p) => {
                    let t = self.values@[v.index as int].ty;
                    self.pointee(p) == Some(t) && self.sized(t)
                },
                Op::Binary(_, x, y) | Op::ICmp(_, x, y) | Op::FCmp(_, x, y) => self.values@[x.index as int].ty
                    == self.values@[y.index as int].ty,
                Op::Select(c, x, y) => self.kind_of(c) == TypeKind::Int(1) && self.values@[x.index as int].ty
                    == self.values@[y.index as int].ty,
                Op::InsertValue(a, e, k) => self.fields_of(self.values@[a.index as int].ty) matches Some(fs)
                    && k < fs.len() && self.values@[e.index as int].ty == fs[k as int],
                Op::ExtractValue(a, k) => self.fields_of(self.values@[a.index as int].ty) matches Some(fs)
                    && k < fs.len(),
                Op::Ret(v) => self.ret_type(f as int) == Some(self.values@[v.index as int].ty),
                Op::RetVoid => self.ret_type(f as int) matches Some(r) && self.types@[r.index as int] == TypeKind::Void,
                Op::Br(t) => self.block_of(t, f),
                Op::CondBr(c, t, e) => self.kind_of(c) == TypeKind::Int(1) && self.block_of(t, f) && self.block_of(e, f),
                Op::Switch(_, d, cases) => self.block_of(d, f) && forall|k: int|
                    0 <= k < cases@.len() ==> self.block_of((#[trigger] cases@[k]).1, f),
                _ => true,
            },
            _ => true,
        }
    }

    /// Value `j` is a phi.
    pub open spec fn is_phi(&self, j: int) -> bool {
        self.values@[j].kind matches ValueKind::Inst { op, .. } && op is Phi
    }

    /// Only phis come before instruction `i` in block `b`.
    pub open spec fn phi_at_head(&self, i: int, b: BlockRef) -> bool {
        forall|j: int| 0 <= j < i && #[trigger] self.inst_in(j, b) ==> self.is_phi(j)
    }

    /// Block `b` belongs to a function of module `m`.
    pub open spec fn block_in_module(&self, b: int, m: Module) -> bool {
        0 <= b < self.blocks@.len() && self.functions@[self.blocks@[b].func as int].module == m.index
    }

    /// Module `m` is well formed: each of its blocks ends in exactly one
    /// terminator, and each of its instructions passes its checks.
    pub open spec fn module_ok(&self, m: Module) -> bool {
        &&& forall|b: int| #[trigger] self.block_in_module(b, m) ==> self.block_terminated(BlockRef { index: b as usize })
        &&& forall|i: int| 0 <= i < self.values@.len() ==> #[trigger] self.inst_checked(i, m)
    }

    /// If value `i` is an instruction of module `m`, it passes its checks.
    pub open spec fn inst_checked(&self, i: int, m: Module) -> bool {
        match self.values@[i].kind {
            ValueKind::Inst { block, .. } => self.block_in_module(block.index as int, m) ==> self.inst_ok(i, block),
            _ => true,
        }
    }
}

/// The values that operation `op` reads. The pairs of a phi are checked
/// on their own.
pub open spec fn operands(op: Op) -> Seq<ValueRef> {
    match op {
        Op::ArrayAlloca(_, n) | Op::ArrayMalloc(_, n) => seq![n],
        Op::Free(p) | Op::Load(p) | Op::StructGep(p, _) | Op::ExtractValue(p, _) | Op::Unary(_, p)
        | Op::Ret(p) | Op::Cast(_, p, _) => seq![p],
        Op::Store(a, c) | Op::InsertValue(a, c, _) | Op::Binary(_, a, c) | Op::ICmp(_, a, c)
        | Op::FCmp(_, a, c) => seq![a, c],
        Op::Select(c, a, d) => seq![c, a, d],
        Op::Call(f, args, _) => seq![f] + args@,
        Op::InBoundsGep(p, ix) => seq![p] + ix@,
        Op::CondBr(c, _, _) => seq![c],
        Op::Switch(v, _, cases) => seq![v] + cases@.map_values(|c: (ValueRef, BlockRef)| c.0),
        _ => Seq::empty(),
    }
}

fn operands_exec(op: &Op) -> (r: Vec<ValueRef>)
    ensures
        r@ == operands(*op),
{
    let mut v: Vec<ValueRef> = Vec::new();
    match op {
        Op::ArrayAlloca(_, n) | Op::ArrayMalloc(_, n) => {
            v.push(*n);
        },
        Op::Free(p) | Op::Load(p) | Op::StructGep(p, _) | Op::ExtractValue(p, _) | Op::Unary(_, p)
        | Op::Ret(p) | Op::Cast(_, p, _) => {
            v.push(*p);
        },
        Op::Store(a, c) | Op::InsertValue(a, c, _) | Op::Binary(_, a, c) | Op::ICmp(_, a, c)
        | Op::FCmp(_, a, c) => {
            v.push(*a);
            v.push(*c);
        },
        Op::Select(c, a, d) => {
            v.push(*c);
            v.push(*a);
            v.push(*d);
        },
        Op::Call(f, args, _) => {
            v.push(*f);
            append_values(&mut v, args);
        },
        Op::InBoundsGep(p, ix) => {
            v.push(*p);
            append_values(&mut v, ix);
        },
        Op::CondBr(c, _, _) => {
            v.push(*c);
        },
        Op::Switch(x, _, cases) => {
            v.push(*x);
            let ghost start = v@;
            let mut k: usize = 0;
            while k < cases.len()
                invariant
                    k <= cases@.len(),
                    v@ == start + cases@.subrange(0, k as int).map_values(|c: (ValueRef, BlockRef)| c.0),
                decreases cases@.len() - k,
            {
                v.push(cases[k].0);
                assert(cases@.subrange(0, k + 1).map_values(|c: (ValueRef, BlockRef)| c.0) =~= cases@.subrange(0, k as int).map_values(|c: (ValueRef, BlockRef)| c.0).push(cases@[k as int].0));
                k = k + 1;
            }
            assert(cases@.subrange(0, k as int) =~= cases@);
        },
        _ => {},
    }
    proof {
        match op {
            Op::ArrayAlloca(_, n) | Op::ArrayMalloc(_, n) => {
                assert(v@ =~= seq![*n]);
            },
            Op::Free(p) | Op::Load(p) | Op::StructGep(p, _) | Op::ExtractValue(p, _) | Op::Unary(_, p)
            | Op::Ret(p) | Op::Cast(_, p, _) => {
                assert(v@ =~= seq![*p]);
            },
            Op::Store(a, c) | Op::InsertValue(a, c, _) | Op::Binary(_, a, c) | Op::ICmp(_, a, c)
            | Op::FCmp(_, a, c) => {
                assert(v@ =~= seq![*a, *c]);
            },
            Op::Select(c, a, d) => {
                assert(v@ =~= seq![*c, *a, *d]);
            },
            Op::CondBr(c, _, _) => {
                assert(v@ =~= seq![*c]);
            },
            Op::Call(f, args, _) => {
                assert(v@ =~= seq![*f] + args@);
            },
            Op::InBoundsGep(p, ix) => {
                assert(v@ =~= seq![*p] + ix@);
            },
            Op::Switch(x, _, cases) => {
                assert(v@ =~= seq![*x] + cases@.map_values(|c: (ValueRef, BlockRef)| c.0));
            },
            _ => {
                assert(v@ =~= Seq::empty());
            },
        }
    }
    v
}

fn append_values(v: &mut Vec<ValueRef>, s: &Vec<ValueRef>)
    ensures
        final(v)@ == old(v)@ + s@,
{
    let mut k: usize = 0;
    while k < s.len()
        invariant
            k <= s@.len(),
            v@ == old(v)@ + s@.subrange(0, k as int),
        decreases s@.len() - k,
    {
        v.push(s[k]);
        assert(s@.subrange(0, k + 1) =~= s@.subrange(0, k as int).push(s@[k as int]));
        assert(v@ =~= old(v)@ + s@.subrange(0, k + 1));
        k = k + 1;
    }
    assert(s@.subrange(0, k as int) =~= s@);
}

fn is_terminator_exec(op: &Op) -> (r: bool)
    ensures
        r == op.is_terminator(),
{
    match op {
        Op::Br(_) | Op::CondBr(_, _, _) | Op::Switch(_, _, _) | Op::Ret(_) | Op::RetVoid => true,
        _ => false,
    }
}

fn case_targets(cases: &Vec<(ValueRef, BlockRef)>, b: BlockRef) -> (r: bool)
    ensures
        r == exists|q: int| 0 <= q < cases@.len() && (#[trigger] cases@[q]).1 == b,
{
    let mut k: usize = 0;
    while k < cases.len()
        invariant
            k <= cases@.len(),
            forall|q: int| 0 <= q < k ==> (#[trigger] cases@[q]).1 != b,
        decreases cases@.len() - k,
    {
        if cases[k].1 == b {
            assert(cases@[k as int].1 == b);
            return true;
        }
        k = k + 1;
    }
    false
}

fn targets_exec(op: &Op, b: BlockRef) -> (r: bool)
    ensures
        r == op.targets(b),
{
    match op {
        Op::Br(t) => *t == b,
        Op::CondBr(_, t, e) => *t == b || *e == b,
        Op::Switch(_, d, cases) => *d == b || case_targets(cases, b),
        _ => false,
    }
}

impl Context {
    fn inst_in_exec(&self, i: usize, b: BlockRef) -> (r: bool)
        requires
            i < self.values@.len(),
        ensures
            r == self.inst_in(i as int, b),
    {
        match &self.values[i].kind {
            ValueKind::Inst { block, .. } => *block == b,
            _ => false,
        }
    }

    fn is_term_exec(&self, i: usize) -> (r: bool)
        requires
            i < self.values@.len(),
        ensures
            r == self.is_term(i as int),
    {
        match &self.values[i].kind {
            ValueKind::Inst { op, .. } => is_terminator_exec(op),
            _ => false,
        }
    }

    fn check_terminated(&self, b: BlockRef) -> (r: bool)
        ensures
            r == self.block_terminated(b),
    {
        let mut seen = false;
        let mut i: usize = 0;
        while i < self.values.len()
            invariant
                i <= self.values@.len(),
                seen <==> exists|j: int| 0 <= j < i && self.inst_in(j, b) && self.is_term(j),
                forall|j1: int, j2: int|
                    #![trigger self.inst_in(j1, b), self.inst_in(j2, b)]
                    0 <= j1 < j2 < i && self.inst_in(j1, b) && self.inst_in(j2, b) ==> !self.is_term(j1),
            decreases self.values@.len() - i,
        {
            if self.inst_in_exec(i, b) {
                if seen {
                    proof {
                        let j1 = choose|j: int| 0 <= j < i && self.inst_in(j, b) && self.is_term(j);
                        assert(self.inst_in(j1, b) && self.inst_in(i as int, b) && j1 < i);
                    }
                    return false;
                }
                if self.is_term_exec(i) {
                    seen = true;
                }
            }
            i = i + 1;
        }
        seen
    }

    pub(crate) fn check_is_pred(&self, p: BlockRef, b: BlockRef) -> (r: bool)
        ensures
            r == self.is_pred(p, b),
    {
        let mut i: usize = 0;
        while i < self.values.len()
            invariant
                i <= self.values@.len(),
                forall|j: int| 0 <= j < i ==> !(self.inst_in(j, p) && self.jumps_to(j, b)),
            decreases self.values@.len() - i,
        {
            match &self.values[i].kind {
                ValueKind::Inst { block, op } => {
                    if *block == p && is_terminator_exec(op) && targets_exec(op, b) {
                        assert(self.inst_in(i as int, p) && self.jumps_to(i as int, b));
                        return true;
                    }
                },
                _ => {},
            }
            i = i + 1;
        }
        false
    }

    fn pairs_exec(&self, phi: ValueRef) -> (r: Vec<(ValueRef, BlockRef)>)
        ensures
            r@ == self.incoming_of(phi),
    {
        let mut v: Vec<(ValueRef, BlockRef)> = Vec::new();
        let mut i: usize = 0;
        while i < self.incoming.len()
            invariant
                i <= self.incoming@.len(),
                v@ == pairs_of(self.incoming@.subrange(0, i as int), phi),
            decreases self.incoming@.len() - i,
        {
            proof {
                assert(self.incoming@.subrange(0, i + 1).drop_last() =~= self.incoming@.subrange(0, i as int));
            }
            if self.incoming[i].phi == phi {
                v.push((self.incoming[i].value, self.incoming[i].block));
            }
            i = i + 1;
        }
        assert(self.incoming@.subrange(0, i as int) =~= self.incoming@);
        v
    }

    fn check_phi(&self, i: usize, t: TypeRef, b: BlockRef) -> (r: bool)
        requires
            self.wf(),
        ensures
            r == self.phi_ok(i as int, t, b),
    {
        let inc = self.pairs_exec(ValueRef { index: i });
        let ghost s = self.incoming_of(ValueRef { index: i });
        proof {
            lemma_pairs_valid(self.incoming@, ValueRef { index: i }, self.nv(), self.nb());
        }
        let mut k: usize = 0;
        while k < inc.len()
            invariant
                self.wf(),
                inc@ == s,
                s == self.incoming_of(ValueRef { index: i }),
                k <= s.len(),
                forall|q: int| 0 <= q < s.len() ==> (#[trigger] s[q]).0.index < self.nv() && s[q].1.index < self.nb(),
                forall|q: int| 0 <= q < k ==> self.is_pred((#[trigger] s[q]).1, b) && self.values@[s[q].0.index as int].ty == t
                    && self.operand_ok(s[q].0, self.values@.len() as int, s[q].1),
            decreases s.len() - k,
        {
            let (v, p) = inc[k];
            if !self.check_is_pred(p, b) || self.values[v.index].ty != t || !self.check_operand(v, self.values.len(), p) {
                return false;
            }
            k = k + 1;
        }
        let mut p: usize = 0;
        while p < self.blocks.len()
            invariant
                self.wf(),
                inc@ == s,
                s == self.incoming_of(ValueRef { index: i }),
                p <= self.blocks@.len(),
                forall|q: int| 0 <= q < s.len() ==> (#[trigger] s[q]).0.index < self.nv() && s[q].1.index < self.nb(),
                forall|q: int| 0 <= q < s.len() ==> self.is_pred((#[trigger] s[q]).1, b) && self.values@[s[q].0.index as int].ty == t
                    && self.operand_ok(s[q].0, self.values@.len() as int, s[q].1),
                forall|x: BlockRef| x.index < p && #[trigger] self.is_pred(x, b) ==> exists|q: int| 0 <= q < s.len() && (#[trigger] s[q]).1 == x,
            decreases self.blocks@.len() - p,
        {
            let pb = BlockRef { index: p };
            if self.check_is_pred(pb, b) {
                let mut q: usize = 0;
                let mut found = false;
                while q < inc.len()
                    invariant
                        inc@ == s,
                        q <= s.len(),
                        found ==> exists|z: int| 0 <= z < s.len() && (#[trigger] s[z]).1 == pb,
                        !found ==> forall|z: int| 0 <= z < q ==> (#[trigger] s[z]).1 != pb,
                    decreases s.len() - q,
                {
                    if inc[q].1 == pb {
                        assert(s[q as int].1 == pb);
                        found = true;
                    }
                    q = q + 1;
                }
                if !found {
                    assert(self.is_pred(pb, b));
                    return false;
                }
            }
            p = p + 1;
        }
        proof {
            assert forall|x: BlockRef| #[trigger] self.is_pred(x, b) implies exists|q: int| 0 <= q < s.len() && (#[trigger] s[q]).1 == x by {
                let j = choose|j: int| self.inst_in(j, x) && self.jumps_to(j, b);
                assert(self.values@[j].ty.index < self.nt());
            }
        }
        true
    }
    fn check_call(&self, callee: ValueRef, args: &Vec<ValueRef>) -> (r: bool)
        requires
            self.wf(),
            self.valid_value(callee),
            values_below(args@, self.nv()),
        ensures
            r == self.call_ok(callee, args@),
    {
        match self.kind_of_exec(callee) {
            TypeKind::Pointer(ft) => match self.types[ft.index] {
                TypeKind::Function(g) => {
                    let n = self.sigs[g].params.len();
                    if self.sigs[g].variadic {
                        if args.len() < n {
                            return false;
                        }
                    } else if args.len() != n {
                        return false;
                    }
                    let mut k: usize = 0;
                    while k < n
                        invariant
                            self.wf(),
                            g < self.sigs@.len(),
                            n == self.sigs@[g as int].params@.len(),
                            n <= args@.len(),
                            self.pointee(callee) == Some(ft),
                            ft.index < self.types@.len(),
                            self.types@[ft.index as int] == TypeKind::Function(g),
                            if self.sigs@[g as int].variadic { args@.len() >= n } else { args@.len() == n },
                            values_below(args@, self.nv()),
                            k <= n,
                            forall|q: int| 0 <= q < k ==> self.values@[(#[trigger] args@[q]).index as int].ty == self.sigs@[g as int].params@[q],
                        decreases n - k,
                    {
                        if self.values[args[k].index].ty != self.sigs[g].params[k] {
                            assert(self.values@[args@[k as int].index as int].ty != self.sigs@[g as int].params@[k as int]);
                            return false;
                        }
                        k = k + 1;
                    }
                    true
                },
                _ => false,
            },
            _ => false,
        }
    }

    fn sized_exec(&self, t: TypeRef) -> (r: bool)
        requires
            self.wf(),
            self.valid_type(t),
        ensures
            r == self.sized(t),
    {
        match self.types[t.index] {
            TypeKind::Void | TypeKind::Label | TypeKind::Function(_) => false,
            TypeKind::Struct(s) => self.structs[s].body.is_some(),
            _ => true,
        }
    }

    fn ret_type_exec(&self, f: usize) -> (r: Option<TypeRef>)
        requires
            self.wf(),
            f < self.functions@.len(),
        ensures
            r == self.ret_type(f as int),
    {
        match self.types[self.functions[f].ty.index] {
            TypeKind::Function(g) => Some(self.sigs[g].ret),
            _ => None,
        }
    }

    fn check_inst(&self, i: usize, b: BlockRef) -> (r: bool)
        requires
            self.wf(),
            i < self.values@.len(),
            self.values@[i as int].kind matches ValueKind::Inst { block, .. } && block == b,
        ensures
            r == self.inst_ok(i as int, b),
    {
        if !self.check_rules(i, b) {
            return false;
        }
        match &self.values[i].kind {
            ValueKind::Inst { op, .. } => {
                let ops = operands_exec(op);
                proof {
                    lemma_operands_valid(*op, self.nt(), self.nv(), self.nb());
                }
                let mut k: usize = 0;
                while k < ops.len()
                    invariant
                        self.wf(),
                        i < self.values@.len(),
                        self.values@[i as int].kind matches ValueKind::Inst { op: o, block } && block == b && ops@ == operands(o),
                        b.index < self.blocks@.len(),
                        k <= ops@.len(),
                        forall|q: int| 0 <= q < ops@.len() ==> (#[trigger] ops@[q]).index < self.nv(),
                        forall|q: int| 0 <= q < k ==> self.operand_ok(#[trigger] ops@[q], i as int, b),
                    decreases ops@.len() - k,
                {
                    if !self.check_operand(ops[k], i, b) {
                        return false;
                    }
                    k = k + 1;
                }
                true
            },
            _ => true,
        }
    }

    fn check_operand(&self, u: ValueRef, i: usize, b: BlockRef) -> (r: bool)
        requires
            self.wf(),
            u.index < self.values@.len(),
            b.index < self.blocks@.len(),
        ensures
            r == self.operand_ok(u, i as int, b),
    {
        let f = self.blocks[b.index].func;
        proof {
            assert(self.blocks@[b.index as int].func < self.nf());
            assert(self.values@[u.index as int].ty.index < self.nt());
        }
        let m = self.functions[f].module;
        if self.types[self.values[u.index].ty.index] == TypeKind::Void {
            return false;
        }
        match &self.values[u.index].kind {
            ValueKind::Param { func, .. } => *func == f,
            ValueKind::Function(g) => self.functions[*g].module == m,
            ValueKind::GlobalString { module, .. } => *module == m,
            ValueKind::Inst { block, .. } => self.blocks[block.index].func == f && if *block == b {
                u.index < i
            } else {
                self.check_dominates(*block, b, f)
            },
            _ => true,
        }
    }

    fn check_rules(&self, i: usize, b: BlockRef) -> (r: bool)
        requires
            self.wf(),
            i < self.values@.len(),
            self.values@[i as int].kind matches ValueKind::Inst { block, .. } && block == b,
        ensures
            r == self.inst_rules_ok(i as int, b),
    {
        let f = self.blocks[b.index].func;
        proof {
            assert(self.blocks@[b.index as int].func < self.nf());
        }
        match &self.values[i].kind {
            ValueKind::Inst { op, .. } => match op {
                Op::Phi(t) => self.check_phi(i, *t, b) && self.check_phi_at_head(i, b),
                Op::Call(callee, args, _) => self.check_call(*callee, args),
                Op::Alloca(t) | Op::ArrayAlloca(t, _) | Op::ArrayMalloc(t, _) => self.sized_exec(*t),
                Op::Load(p) => match self.kind_of_exec(*p) {
                    TypeKind::Pointer(t) => self.sized_exec(t),
                    _ => false,
                },
                Op::Store(v, p) => {
                    let t = self.values[v.index].ty;
                    match self.kind_of_exec(*p) {
                        TypeKind::Pointer(q) => q == t && self.sized_exec(t),
                        _ => false,
                    }
                },
                Op::Binary(_, x, y) | Op::ICmp(_, x, y) | Op::FCmp(_, x, y) => self.values[x.index].ty
                    == self.values[y.index].ty,
                Op::Select(c, x, y) => self.kind_of_exec(*c) == TypeKind::Int(1) && self.values[x.index].ty
                    == self.values[y.index].ty,
                Op::InsertValue(a, e, k) => match self.field_exec(self.values[a.index].ty, *k) {
                    Some(t) => self.values[e.index].ty == t,
                    None => false,
                },
                Op::ExtractValue(a, k) => self.field_exec(self.values[a.index].ty, *k).is_some(),
                Op::Ret(v) => match self.ret_type_exec(f) {
                    Some(t) => t == self.values[v.index].ty,
                    None => false,
                },
                Op::RetVoid => match self.ret_type_exec(f) {
                    Some(t) => self.types[t.index] == TypeKind::Void,
                    None => false,
                },
                Op::Br(t) => self.blocks[t.index].func == f,
                Op::CondBr(c, t, e) => self.kind_of_exec(*c) == TypeKind::Int(1) && self.blocks[t.index].func == f
                    && self.blocks[e.index].func == f,
                Op::Switch(_, d, cases) => self.blocks[d.index].func == f && self.cases_in(cases, f),
                _ => true,
            },
            _ => true,
        }
    }

    fn check_phi_at_head(&self, i: usize, b: BlockRef) -> (r: bool)
        requires
            i <= self.values@.len(),
        ensures
            r == self.phi_at_head(i as int, b),
    {
        let mut j: usize = 0;
        while j < i
            invariant
                i <= self.values@.len(),
                j <= i,
                forall|q: int| 0 <= q < j && #[trigger] self.inst_in(q, b) ==> self.is_phi(q),
            decreases i - j,
        {
            match &self.values[j].kind {
                ValueKind::Inst { block, op } => {
                    if *block == b {
                        match op {
                            Op::Phi(_) => {},
                            _ => {
                                assert(self.inst_in(j as int, b) && !self.is_phi(j as int));
                                return false;
                            },
                        }
                    }
                },
                _ => {},
            }
            j = j + 1;
        }
        true
    }

    fn cases_in(&self, cases: &Vec<(ValueRef, BlockRef)>, f: usize) -> (r: bool)
        requires
            forall|k: int| 0 <= k < cases@.len() ==> (#[trigger] cases@[k]).1.index < self.blocks@.len(),
        ensures
            r == forall|k: int| 0 <= k < cases@.len() ==> self.block_of((#[trigger] cases@[k]).1, f),
    {
        let mut k: usize = 0;
        while k < cases.len()
            invariant
                k <= cases@.len(),
                forall|q: int| 0 <= q < cases@.len() ==> (#[trigger] cases@[q]).1.index < self.blocks@.len(),
                forall|q: int| 0 <= q < k ==> self.block_of((#[trigger] cases@[q]).1, f),
            decreases cases@.len() - k,
        {
            if self.blocks[cases[k].1.index].func != f {
                assert(!self.block_of(cases@[k as int].1, f));
                return false;
            }
            k = k + 1;
        }
        true
    }
}

impl Module {
    /// Checks that the module is well formed. The result is `Ok` exactly
    /// when every block of the module ends in exactly one terminator, and
    /// every instruction passes its checks (phis at the head of their block
    /// with pairs for exactly its predecessors, calls that match the
    /// signature, operand types that fit the operation, complete layouts
    /// where memory is allocated, loaded or stored, `i1` conditions, returns
    /// of the function's type, and operands whose definition dominates the
    /// use); otherwise it is a non-empty diagnostic. The context is not
    /// changed, so the answer is the same each time.
    pub fn verify(&self, ctx: &Context) -> (r: Result<(), String>)
        requires
            ctx.wf(),
        ensures
            r is Ok <==> ctx.module_ok(*self),
            r matches Err(s) ==> s@.len() > 0,
    {
        let mut b: usize = 0;
        while b < ctx.blocks.len()
            invariant
                ctx.wf(),
                b <= ctx.blocks@.len(),
                forall|q: int| 0 <= q < b && #[trigger] ctx.block_in_module(q, *self) ==> ctx.block_terminated(BlockRef { index: q as usize }),
            decreases ctx.blocks@.len() - b,
        {
            proof {
                assert(ctx.blocks@[b as int].func < ctx.nf());
            }
            if ctx.functions[ctx.blocks[b].func].module == self.index && !ctx.check_terminated(BlockRef { index: b }) {
                assert(ctx.block_in_module(b as int, *self));
                proof {
                    reveal_strlit("a block does not end in exactly one terminator");
                }
                return Err(diagnostic("a block does not end in exactly one terminator"));
            }
            b = b + 1;
        }
        let mut i: usize = 0;
        while i < ctx.values.len()
            invariant
                ctx.wf(),
                i <= ctx.values@.len(),
                forall|q: int| #[trigger] ctx.block_in_module(q, *self) ==> ctx.block_terminated(BlockRef { index: q as usize }),
                forall|q: int| 0 <= q < i ==> #[trigger] ctx.inst_checked(q, *self),
            decreases ctx.values@.len() - i,
        {
            match &ctx.values[i].kind {
                ValueKind::Inst { block, op } => {
                    proof {
                        assert(ctx.blocks@[block.index as int].func < ctx.nf());
                    }
                    if ctx.functions[ctx.blocks[block.index].func].module == self.index && !ctx.check_inst(i, *block) {
                        assert(!ctx.inst_checked(i as int, *self));
                        return Err(op_diagnostic(op));
                    }
                },
                _ => {},
            }
            i = i + 1;
        }
        Ok(())
    }
}

/// A diagnostic with the given text.
fn diagnostic(text: &str) -> (r: String)
    requires
        text@.len() > 0,
    ensures
        r@.len() > 0,
{
    text.to_owned()
}

/// The diagnostic for an instruction that fails its checks.
fn op_diagnostic(op: &Op) -> (r: String)
    ensures
        r@.len() > 0,
{
    match op {
        Op::Phi(_) => {
            proof {
                reveal_strlit("a phi stands after another instruction, its incoming blocks differ from its block's predecessors, or one of its values does not fit");
            }
            diagnostic("a phi stands after another instruction, its incoming blocks differ from its block's predecessors, or one of its values does not fit")
        },
        Op::Call(_, _, _) => {
            proof {
                reveal_strlit("a call does not match the callee's signature");
            }
            diagnostic("a call does not match the callee's signature")
        },
        Op::Ret(_) | Op::RetVoid => {
            proof {
                reveal_strlit("a return does not match the function's return type");
            }
            diagnostic("a return does not match the function's return type")
        },
        Op::Br(_) | Op::CondBr(_, _, _) | Op::Switch(_, _, _) => {
            proof {
                reveal_strlit("a branch leads to a block of another function, or its condition is not an i1");
            }
            diagnostic("a branch leads to a block of another function, or its condition is not an i1")
        },
        Op::Binary(_, _, _) | Op::ICmp(_, _, _) | Op::FCmp(_, _, _) | Op::Select(_, _, _)
        | Op::InsertValue(_, _, _) | Op::ExtractValue(_, _) => {
            proof {
                reveal_strlit("the operands of an instruction do not have the types it needs");
            }
            diagnostic("the operands of an instruction do not have the types it needs")
        },
        _ => {
            proof {
                reveal_strlit("a memory operation has operands of the wrong types or needs a type whose layout is not complete");
            }
            diagnostic("a memory operation has operands of the wrong types or needs a type whose layout is not complete")
        },
    }
}

/// The operands of an operation whose handles are in range are in range.
proof fn lemma_operands_valid(op: Op, nt: nat, nv: nat, nb: nat)
    requires
        crate::context::op_ok(op, nt, nv, nb),
    ensures
        forall|q: int| 0 <= q < operands(op).len() ==> (#[trigger] operands(op)[q]).index < nv,
{
    match op {
        Op::Call(f, args, _) => {
            assert forall|q: int| 0 <= q < operands(op).len() implies (#[trigger] operands(op)[q]).index < nv by {
                if q > 0 {
                    assert(operands(op)[q] == args@[q - 1]);
                }
            }
        },
        Op::InBoundsGep(p, ix) => {
            assert forall|q: int| 0 <= q < operands(op).len() implies (#[trigger] operands(op)[q]).index < nv by {
                if q > 0 {
                    assert(operands(op)[q] == ix@[q - 1]);
                }
            }
        },
        Op::Switch(v, d, cases) => {
            assert forall|q: int| 0 <= q < operands(op).len() implies (#[trigger] operands(op)[q]).index < nv by {
                if q > 0 {
                    assert(operands(op)[q] == cases@[q - 1].0);
                }
            }
        },
        _ => {},
    }
}

/// Every pair of a well-formed incoming table holds handles below the
/// table sizes.
proof fn lemma_pairs_valid(s: Seq<Incoming>, phi: ValueRef, nv: nat, nb: nat)
    requires
        forall|k: int| 0 <= k < s.len() ==> (#[trigger] s[k]).value.index < nv && s[k].block.index < nb,
    ensures
        forall|q: int| 0 <= q < pairs_of(s, phi).len() ==> (#[trigger] pairs_of(s, phi)[q]).0.index < nv && pairs_of(s, phi)[q].1.index < nb,
    decreases s.len(),
{
    if s.len() > 0 {
        lemma_pairs_valid(s.drop_last(), phi, nv, nb);
        let rest = pairs_of(s.drop_last(), phi);
        let last = s[s.len() - 1];
        assert(last.value.index < nv && last.block.index < nb);
        assert(s.last() == last);
        assert forall|q: int| 0 <= q < pairs_of(s, phi).len() implies (#[trigger] pairs_of(s, phi)[q]).0.index < nv && pairs_of(s, phi)[q].1.index < nb by {
            if q < rest.len() {
                assert(pairs_of(s, phi)[q] == rest[q]);
            }
        }
    }
}

} // verus!
