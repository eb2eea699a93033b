use vstd::prelude::*;
use crate::names::nul_free;
use crate::context::Context;
use crate::ir::{TypeRef, ValueRef, BlockRef, Op, Incoming};
use crate::names::{NameId, NameError};
use crate::builder::Builder;
use vstd::string::StringSliceAdditionalSpecFns;

verus! {

/// Handle of a phi: a merge-point value whose (value, predecessor block)
/// pairs are added one by one.
#[derive(Clone, Copy, Debug, PartialEq, Eq, Structural)]
pub struct Phi {
    pub value: ValueRef,
}

/// The pairs of `phi` among the entries of `s`, in order.
pub open spec fn pairs_of(s: Seq<Incoming>, phi: ValueRef) -> Seq<(ValueRef, BlockRef)>
    decreases s.len(),
{
    if s.len() == 0 {
        Seq::empty()
    } else {
        let rest = pairs_of(s.drop_last(), phi);
        if s.last().phi == phi {
            rest.push((s.last().value, s.last().block))
        } else {
            rest
        }
    }
}

/// The pairs of a prefix are a prefix of the pairs.
pub proof fn lemma_pairs_prefix(s: Seq<Incoming>, i: int, phi: ValueRef)
    requires
        0 <= i <= s.len(),
    ensures
        pairs_of(s.subrange(0, i), phi).len() <= pairs_of(s, phi).len(),
        pairs_of(s.subrange(0, i), phi) == pairs_of(s, phi).subrange(0, pairs_of(s.subrange(0, i), phi).len() as int),
    decreases s.len(),
{
    if i == s.len() {
        assert(s.subrange(0, i) =~= s);
    } else {
        lemma_pairs_prefix(s.drop_last(), i, phi);
        assert(s.drop_last().subrange(0, i) =~= s.subrange(0, i));
    }
}

impl Context {
    /// The (value, block) pairs of phi `phi`, in the order they were added.
    pub open spec fn incoming_of(&self, phi: ValueRef) -> Seq<(ValueRef, BlockRef)> {
        pairs_of(self.incoming@, phi)
    }
}

impl Builder {
    /// A phi of type `typ` at the cursor, with no pairs yet.
    pub fn build_phi(&self, ctx: &mut Context, typ: TypeRef) -> (r: Phi)
        requires
            old(ctx).wf(),
            self.positioned(old(ctx)),
            old(ctx).valid_type(typ),
        ensures
            final(ctx).wf(),
            Context::extends(old(ctx), final(ctx)),
            self.appended(old(ctx), final(ctx), r.value),
            final(ctx).op_of(r.value) == Op::Phi(typ),
            final(ctx).incoming_of(r.value).len() == 0,
            final(ctx).values@[r.value.index as int].name.index == 0,
            final(ctx).names == old(ctx).names,
    {
        let v = self.emit(ctx, Op::Phi(typ), NameId { index: 0 });
        proof {
            lemma_no_pairs(ctx.incoming@, v);
        }
        Phi { value: v }
    }

    /// As `build_phi`, with a name for the result.
    pub fn build_phi_with_name(&self, ctx: &mut Context, typ: TypeRef, name: &str) -> (r: Result<Phi, NameError>)
        requires
            old(ctx).wf(),
            self.positioned(old(ctx)),
            old(ctx).valid_type(typ),
        ensures
            final(ctx).wf(),
            Context::extends(old(ctx), final(ctx)),
            match r {
                Ok(p) => {
                    &&& self.appended(old(ctx), final(ctx), p.value)
                    &&& final(ctx).op_of(p.value) == Op::Phi(typ)
                    &&& final(ctx).incoming_of(p.value).len() == 0
                    &&& final(ctx).names.text(final(ctx).values@[p.value.index as int].name) == name.spec_bytes()
                },
                Err(_) => *final(ctx) == *old(ctx),
            },
            r is Err ==> !(nul_free(name.spec_bytes()) && old(ctx).name_room(name.spec_bytes())),
            Context::names_grow(old(ctx), final(ctx), name.spec_bytes()),
    {
        let n = match ctx.intern_name(name) {
            Ok(n) => n,
            Err(e) => {
                return Err(e);
            },
        };
        let ghost mid = *ctx;
        let v = self.emit(ctx, Op::Phi(typ), n);
        proof {
            Context::lemma_extends_trans(old(ctx), &mid, ctx);
            lemma_no_pairs(ctx.incoming@, v);
        }
        Ok(Phi { value: v })
    }
}

/// A value that no entry names has no pairs.
proof fn lemma_no_pairs(s: Seq<Incoming>, phi: ValueRef)
    requires
        forall|k: int| 0 <= k < s.len() ==> (#[trigger] s[k]).phi.index < phi.index,
    ensures
        pairs_of(s, phi).len() == 0,
    decreases s.len(),
{
    if s.len() > 0 {
        lemma_no_pairs(s.drop_last(), phi);
    }
}

impl Phi {
    pub fn as_ref(&self) -> (r: ValueRef)
        ensures
            r == self.value,
    {
        self.value
    }

    /// Adds the pair (`value`, `block`).
    pub fn add_incoming(&self, ctx: &mut Context, value: ValueRef, block: BlockRef)
        requires
            old(ctx).wf(),
            old(ctx).valid_value(self.value),
            old(ctx).valid_value(value),
            old(ctx).valid_block(block),
        ensures
            final(ctx).wf(),
            Context::extends(old(ctx), final(ctx)),
            final(ctx).incoming_of(self.value) == old(ctx).incoming_of(self.value).push((value, block)),
            forall|q: ValueRef| q != self.value ==> final(ctx).incoming_of(q) == old(ctx).incoming_of(q),
            final(ctx).values == old(ctx).values,
            final(ctx).types == old(ctx).types,
            final(ctx).blocks == old(ctx).blocks,
            final(ctx).functions == old(ctx).functions,
            final(ctx).incoming@.len() == old(ctx).incoming@.len() + 1,
            final(ctx).names == old(ctx).names,
    {
        let ghost c = *old(ctx);
        ctx.incoming.push(Incoming { phi: self.value, value, block });
        proof {
            Context::lemma_extends_refl(&c);
            assert(ctx.incoming@.subrange(0, c.incoming@.len() as int) =~= c.incoming@);
            assert(ctx.incoming@.drop_last() =~= c.incoming@);
            Context::lemma_wf_append(&c, ctx);
        }
    }

    /// Adds the pairs (`values[i]`, `blocks[i]`) in order. The two lists
    /// must have the same length.
    pub fn add_incomings(&self, ctx: &mut Context, values: &[ValueRef], blocks: &[BlockRef])
        requires
            old(ctx).wf(),
            old(ctx).valid_value(self.value),
            values@.len() == blocks@.len(),
            forall|k: int| 0 <= k < values@.len() ==> old(ctx).valid_value(#[trigger] values@[k]),
            forall|k: int| 0 <= k < blocks@.len() ==> old(ctx).valid_block(#[trigger] blocks@[k]),
        ensures
            final(ctx).wf(),
            Context::extends(old(ctx), final(ctx)),
            final(ctx).incoming_of(self.value) == old(ctx).incoming_of(self.value) + Seq::new(
                values@.len(),
                |k: int| (values@[k], blocks@[k]),
            ),
            forall|q: ValueRef| q != self.value ==> final(ctx).incoming_of(q) == old(ctx).incoming_of(q),
            final(ctx).values == old(ctx).values,
            final(ctx).types == old(ctx).types,
            final(ctx).blocks == old(ctx).blocks,
            final(ctx).functions == old(ctx).functions,
            final(ctx).names == old(ctx).names,
    {
        let mut i: usize = 0;
        proof {
            Context::lemma_extends_refl(ctx);
        }
        while i < values.len()
            invariant
                ctx.wf(),
                i <= values@.len(),
                values@.len() == blocks@.len(),
                ctx.valid_value(self.value),
                forall|k: int| 0 <= k < values@.len() ==> ctx.valid_value(#[trigger] values@[k]),
                forall|k: int| 0 <= k < blocks@.len() ==> ctx.valid_block(#[trigger] blocks@[k]),
                Context::extends(old(ctx), ctx),
                ctx.incoming_of(self.value) == old(ctx).incoming_of(self.value) + Seq::new(
                    i as nat,
                    |k: int| (values@[k], blocks@[k]),
                ),
                forall|q: ValueRef| q != self.value ==> ctx.incoming_of(q) == old(ctx).incoming_of(q),
                ctx.values == old(ctx).values,
                ctx.types == old(ctx).types,
                ctx.blocks == old(ctx).blocks,
                ctx.functions == old(ctx).functions,
                ctx.names == old(ctx).names,
            decreases values@.len() - i,
        {
            let ghost prev = *ctx;
            self.add_incoming(ctx, values[i], blocks[i]);
            proof {
                Context::lemma_extends_trans(old(ctx), &prev, ctx);
                assert(old(ctx).incoming_of(self.value) + Seq::new((i + 1) as nat, |k: int| (values@[k], blocks@[k]))
                    =~= (old(ctx).incoming_of(self.value) + Seq::new(i as nat, |k: int| (values@[k], blocks@[k]))).push((values@[i as int], blocks@[i as int])));
            }
            i = i + 1;
        }
    }

    /// Number of pairs added so far.
    pub fn incoming_count(&self, ctx: &Context) -> (r: u32)
        requires
            ctx.incoming_of(self.value).len() <= u32::MAX,
        ensures
            r == ctx.incoming_of(self.value).len(),
    {
        let mut count: u32 = 0;
        let mut i: usize = 0;
        while i < ctx.incoming.len()
            invariant
                i <= ctx.incoming@.len(),
                count == pairs_of(ctx.incoming@.subrange(0, i as int), self.value).len(),
                pairs_of(ctx.incoming@, self.value).len() <= u32::MAX,
            decreases ctx.incoming@.len() - i,
        {
            proof {
                assert(ctx.incoming@.subrange(0, i + 1).drop_last() =~= ctx.incoming@.subrange(0, i as int));
                lemma_pairs_prefix(ctx.incoming@, i + 1, self.value);
            }
            if ctx.incoming[i].phi == self.value {
                count = count + 1;
            }
            i = i + 1;
        }
        assert(ctx.incoming@.subrange(0, i as int) =~= ctx.incoming@);
        count
    }

    /// The pair at position `index`, counted from 0.
    pub fn get_incoming(&self, ctx: &Context, index: u32) -> (r: (ValueRef, BlockRef))
        requires
            index < ctx.incoming_of(self.value).len(),
        ensures
            r == ctx.incoming_of(self.value)[index as int],
    {
        let mut count: usize = 0;
        let mut i: usize = 0;
        while i < ctx.incoming.len()
            invariant
                i <= ctx.incoming@.len(),
                count == pairs_of(ctx.incoming@.subrange(0, i as int), self.value).len(),
                count <= index,
                index < pairs_of(ctx.incoming@, self.value).len(),
            decreases ctx.incoming@.len() - i,
        {
            proof {
                assert(ctx.incoming@.subrange(0, i + 1).drop_last() =~= ctx.incoming@.subrange(0, i as int));
                lemma_pairs_prefix(ctx.incoming@, i + 1, self.value);
            }
            if ctx.incoming[i].phi == self.value {
                if count == index as usize {
                    proof {
                        let s1 = ctx.incoming@.subrange(0, i + 1);
                        assert(s1.last() == ctx.incoming@[i as int]);
                        assert(pairs_of(s1, self.value) == pairs_of(ctx.incoming@.subrange(0, i as int), self.value).push((ctx.incoming@[i as int].value, ctx.incoming@[i as int].block)));
                        assert(pairs_of(s1, self.value)[count as int] == pairs_of(ctx.incoming@, self.value).subrange(0, pairs_of(s1, self.value).len() as int)[count as int]);
                    }
                    return (ctx.incoming[i].value, ctx.incoming[i].block);
                }
                count = count + 1;
            }
            i = i + 1;
        }
        proof {
            assert(ctx.incoming@.subrange(0, i as int) =~= ctx.incoming@);
        }
        (ValueRef { index: 0 }, BlockRef { index: 0 })
    }
}

} // verus!
