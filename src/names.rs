use vstd::prelude::*;
use vstd::string::StringSliceAdditionalSpecFns;

verus! {

/// Handle of a name held by an [`Interner`]. Index 0 is the canonical empty name.
#[derive(Clone, Copy, Debug, PartialEq, Eq, Structural)]
pub struct NameId {
    pub index: usize,
}

/// Reasons why text cannot be turned into a name.
#[derive(Clone, Copy, Debug, PartialEq, Eq, Structural)]
pub enum NameError {
    /// The text holds a null byte, which would cut the terminated buffer short.
    InteriorNul { position: usize },
    /// The arena cannot grow by the text's length.
    Full,
}

/// Whether a byte string is free of null bytes.
pub open spec fn nul_free(b: Seq<u8>) -> bool {
    forall|i: int| 0 <= i < b.len() ==> b[i] != 0u8
}

/// A session arena of null-terminated names.
///
/// All names live in one growable buffer, each followed by a zero byte;
/// `starts[i]` is where name `i` begins. Name 0 is the empty name, which
/// every empty text shares.
pub struct Interner {
    pub buffer: Vec<u8>,
    pub starts: Vec<usize>,
    pub lens: Vec<usize>,
}

impl Interner {
    /// The names held, in order of interning.
    pub open spec fn entries(&self) -> Seq<Seq<u8>> {
        Seq::new(
            self.starts@.len(),
            |i: int| self.buffer@.subrange(self.starts@[i] as int, self.starts@[i] + self.lens@[i]),
        )
    }

    pub open spec fn wf(&self) -> bool {
        &&& self.starts@.len() == self.lens@.len()
        &&& self.starts@.len() >= 1
        &&& self.lens@[0] == 0
        &&& forall|i: int|
            0 <= i < self.starts@.len() ==> {
                &&& #[trigger] self.starts@[i] + self.lens@[i] < self.buffer@.len()
                &&& self.buffer@[self.starts@[i] + self.lens@[i]] == 0u8
                &&& nul_free(
                    self.buffer@.subrange(self.starts@[i] as int, self.starts@[i] + self.lens@[i]),
                )
            }
    }

    pub open spec fn valid(&self, n: NameId) -> bool {
        n.index < self.starts@.len()
    }

    /// The bytes of a name.
    pub open spec fn text(&self, n: NameId) -> Seq<u8> {
        self.entries()[n.index as int]
    }

    /// The bytes of name `n`, without its terminating zero.
    pub fn text_of(&self, n: NameId) -> (r: Vec<u8>)
        requires
            self.wf(),
            self.valid(n),
        ensures
            r@ == self.text(n),
    {
        let start = self.starts[n.index];
        let len = self.lens[n.index];
        let blen = self.buffer.len();
        proof {
            assert(self.starts@[n.index as int] + self.lens@[n.index as int] < self.buffer@.len());
        }
        let mut v: Vec<u8> = Vec::new();
        let mut k: usize = 0;
        while k < len
            invariant
                blen == self.buffer@.len(),
                k <= len,
                start + len < blen,
                v@ == self.buffer@.subrange(start as int, start + k),
            decreases len - k,
        {
            v.push(self.buffer[start + k]);
            assert(v@ =~= self.buffer@.subrange(start as int, start + k + 1));
            k = k + 1;
        }
        v
    }

    /// Whether name `n` spells `s`.
    pub fn has_text(&self, n: NameId, s: &str) -> (r: bool)
        requires
            self.wf(),
            self.valid(n),
        ensures
            r == (self.text(n) == s.spec_bytes()),
    {
        let bytes = s.as_bytes();
        let start = self.starts[n.index];
        let len = self.lens[n.index];
        proof {
            assert(self.starts@[n.index as int] + self.lens@[n.index as int] < self.buffer@.len());
        }
        if len != bytes.len() {
            proof {
                assert(self.text(n).len() == len);
            }
            return false;
        }
        let blen = self.buffer.len();
        let mut k: usize = 0;
        while k < len
            invariant
                blen == self.buffer@.len(),
                k <= len,
                len == bytes@.len(),
                bytes@ == s.spec_bytes(),
                start + len < self.buffer@.len(),
                start == self.starts@[n.index as int],
                len == self.lens@[n.index as int],
                n.index < self.starts@.len(),
                self.wf(),
                forall|j: int| 0 <= j < k ==> self.buffer@[start + j] == bytes@[j],
            decreases len - k,
        {
            if self.buffer[start + k] != bytes[k] {
                proof {
                    assert(self.text(n)[k as int] == self.buffer@[start + k]);
                }
                return false;
            }
            k = k + 1;
        }
        assert(self.text(n) =~= bytes@);
        true
    }

    /// A fresh interner holding only the empty name.
    pub fn new() -> (r: Interner)
        ensures
            r.wf(),
            r.entries().len() == 1,
            r.text(NameId { index: 0 }) == Seq::<u8>::empty(),
            r.buffer@.len() == 1,
    {
        let mut buffer: Vec<u8> = Vec::new();
        buffer.push(0u8);
        let mut starts: Vec<usize> = Vec::new();
        starts.push(0);
        let mut lens: Vec<usize> = Vec::new();
        lens.push(0);
        let r = Interner { buffer, starts, lens };
        assert(r.buffer@.subrange(0, 0) =~= Seq::<u8>::empty());
        r
    }

    /// Copies `s` into the arena as a null-terminated name.
    ///
    /// Empty text gives the shared empty name and stores nothing. Text with
    /// a null byte is refused, with the position of its first null byte.
    pub fn intern(&mut self, s: &str) -> (r: Result<NameId, NameError>)
        requires
            old(self).wf(),
        ensures
            final(self).wf(),
            final(self).entries().len() >= old(self).entries().len(),
            final(self).entries().subrange(0, old(self).entries().len() as int)
                == old(self).entries(),
            match r {
                Ok(n) => final(self).valid(n) && final(self).text(n) == s.spec_bytes(),
                Err(NameError::InteriorNul { position }) => {
                    &&& position < s.spec_bytes().len()
                    &&& s.spec_bytes()[position as int] == 0u8
                    &&& nul_free(s.spec_bytes().subrange(0, position as int))
                    &&& *final(self) == *old(self)
                },
                Err(NameError::Full) => {
                    &&& nul_free(s.spec_bytes())
                    &&& old(self).buffer@.len() + s.spec_bytes().len() + 1 >= usize::MAX
                        || old(self).starts@.len() == usize::MAX
                    &&& *final(self) == *old(self)
                },
            },
            nul_free(s.spec_bytes()) && old(self).buffer@.len() + s.spec_bytes().len() + 1
                < usize::MAX && old(self).starts@.len() < usize::MAX ==> r is Ok,
            final(self).buffer@.len() <= old(self).buffer@.len() + s.spec_bytes().len() + 1,
            final(self).starts@.len() <= old(self).starts@.len() + 1,
            s.spec_bytes().len() == 0 ==> *final(self) == *old(self),
            s.spec_bytes().len() == 0 ==> r == Ok::<NameId, NameError>(NameId { index: 0 }),
    {
        let bytes = s.as_bytes();
        let n = bytes.len();
        let mut k: usize = 0;
        while k < n
            invariant
                n == bytes@.len(),
                bytes@ == s.spec_bytes(),
                k <= n,
                nul_free(bytes@.subrange(0, k as int)),
                *self == *old(self),
                self.wf(),
            decreases n - k,
        {
            if bytes[k] == 0u8 {
                return Err(NameError::InteriorNul { position: k });
            }
            assert(bytes@.subrange(0, (k + 1) as int) =~= bytes@.subrange(0, k as int).push(
                bytes@[k as int],
            ));
            k = k + 1;
        }
        assert(bytes@.subrange(0, n as int) =~= bytes@);
        if n == 0 {
            assert(self.entries()[0] =~= Seq::<u8>::empty());
            return Ok(NameId { index: 0 });
        }
        if n >= usize::MAX - 1 || self.buffer.len() >= usize::MAX - 1 - n || self.starts.len() == usize::MAX {
            return Err(NameError::Full);
        }
        let ghost old_entries = self.entries();
        let start = self.buffer.len();
        let mut j: usize = 0;
        while j < n
            invariant
                n == bytes@.len(),
                bytes@ == s.spec_bytes(),
                j <= n,
                self.buffer@.len() == start + j,
                self.buffer@.subrange(0, start as int) == old(self).buffer@,
                self.buffer@.subrange(start as int, start + j) == bytes@.subrange(0, j as int),
                start + n + 1 < usize::MAX,
                self.starts == old(self).starts,
                self.lens == old(self).lens,
            decreases n - j,
        {
            self.buffer.push(bytes[j]);
            assert(self.buffer@.subrange(0, start as int) =~= old(self).buffer@);
            assert(self.buffer@.subrange(start as int, start + j + 1) =~= bytes@.subrange(
                0,
                j + 1,
            ));
            j = j + 1;
        }
        self.buffer.push(0u8);
        self.starts.push(start);
        self.lens.push(n);
        let id = NameId { index: self.starts.len() - 1 };
        assert(self.buffer@.subrange(0, start as int) =~= old(self).buffer@);
        assert(self.buffer@.subrange(start as int, start + n) =~= bytes@);
        assert forall|i: int| 0 <= i < old(self).starts@.len() implies
            self.buffer@.subrange(self.starts@[i] as int, self.starts@[i] + self.lens@[i])
                == old(self).buffer@.subrange(
                old(self).starts@[i] as int,
                old(self).starts@[i] + old(self).lens@[i],
            ) by {
            assert(self.buffer@.subrange(self.starts@[i] as int, self.starts@[i] + self.lens@[i])
                =~= old(self).buffer@.subrange(
                old(self).starts@[i] as int,
                old(self).starts@[i] + old(self).lens@[i],
            ));
        }
        assert(self.entries().subrange(0, old(self).entries().len() as int) =~= old_entries);
        Ok(id)
    }
}

} // verus!
