//! Byte vectors with a fixed upper bound on their length.
use vstd::prelude::*;

verus! {

/// A byte vector that never holds more than `N` bytes.
#[derive(Debug)]
pub struct BoundedBytes<const N: usize> {
    bytes: Vec<u8>,
}

impl<const N: usize> View for BoundedBytes<N> {
    type V = Seq<u8>;

    closed spec fn view(&self) -> Seq<u8> {
        self.bytes@
    }
}

/// How many of `wanted` further bytes fit behind `held` bytes when at most `N` are kept.
pub open spec fn spec_room<const N: usize>(held: nat, wanted: nat) -> int {
    if held >= N {
        0
    } else if held + wanted <= N {
        wanted as int
    } else {
        N - held
    }
}

impl<const N: usize> BoundedBytes<N> {
    /// The invariant of every bounded vector: it holds at most `N` bytes.
    #[verifier::type_invariant]
    pub open spec fn within_bound(self) -> bool {
        self@.len() <= N
    }

    /// An empty vector.
    pub fn new() -> (r: Self)
        ensures
            r@ == Seq::<u8>::empty(),
    {
        BoundedBytes { bytes: Vec::new() }
    }

    /// Takes ownership of `v` if it fits, like `BoundedVec::try_from`.
    pub fn try_from_vec(v: Vec<u8>) -> (r: Option<Self>)
        ensures
            r is Some <==> v@.len() <= N,
            r matches Some(b) ==> b@ == v@,
    {
        if v.len() <= N {
            Some(BoundedBytes { bytes: v })
        } else {
            None
        }
    }

    /// Appends `b` when there is room left; reports whether it did.
    pub fn try_push(&mut self, b: u8) -> (pushed: bool)
        ensures
            pushed == (old(self)@.len() < N),
            final(self)@ == (if pushed { old(self)@.push(b) } else { old(self)@ }),
    {
        proof {
            use_type_invariant(&*self);
        }
        if self.bytes.len() < N {
            let mut grown = self.to_vec();
            grown.push(b);
            *self = BoundedBytes { bytes: grown };
            true
        } else {
            false
        }
    }

    /// Pushes the bytes of `more` one by one with [`Self::try_push`]: those that
    /// still fit are kept, the rest are dropped.
    pub fn try_extend(&mut self, more: &[u8])
        ensures
            final(self)@ == old(self)@ + more@.take(spec_room::<N>(old(self)@.len(), more@.len())),
    {
        proof {
            use_type_invariant(&*self);
        }
        let ghost start = self@;
        let mut i: usize = 0;
        while i < more.len()
            invariant
                i <= more@.len(),
                start.len() <= N,
                self@ == start + more@.take(spec_room::<N>(start.len(), i as nat)),
            decreases more@.len() - i,
        {
            let ghost before = self@;
            self.try_push(more[i]);
            proof {
                if start.len() + i < N {
                    assert(more@.take(i + 1) =~= more@.take(i as int).push(more@[i as int]));
                }
            }
            i = i + 1;
        }
    }

    /// The number of bytes held.
    pub fn len(&self) -> (r: usize)
        ensures
            r == self@.len(),
    {
        self.bytes.len()
    }

    /// The bytes, borrowed.
    pub fn as_slice(&self) -> (r: &[u8])
        ensures
            r@ == self@,
    {
        self.bytes.as_slice()
    }

    /// A copy of the bytes.
    pub fn to_vec(&self) -> (r: Vec<u8>)
        ensures
            r@ == self@,
    {
        let mut out: Vec<u8> = Vec::new();
        let mut i: usize = 0;
        while i < self.bytes.len()
            invariant
                i <= self.bytes@.len(),
                out@ == self.bytes@.subrange(0, i as int),
            decreases self.bytes@.len() - i,
        {
            out.push(self.bytes[i]);
            i = i + 1;
        }
        out
    }

    /// A second vector with the same bytes.
    pub fn duplicate(&self) -> (r: Self)
        ensures
            r@ == self@,
    {
        proof {
            use_type_invariant(self);
        }
        BoundedBytes { bytes: self.to_vec() }
    }
}

} // verus!
