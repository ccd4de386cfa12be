use vstd::prelude::*;

verus! {

/// Number of buckets in the head table shared by every strategy.
pub const HASH_SIZE: usize = 65536;

/// The mutable contents of the hash-chain table, as the contracts see them.
pub ghost struct Chains {
    /// Most recent position stored in each bucket (0 when empty).
    pub head: Seq<u16>,
    /// For each masked position, the position that preceded it in its bucket.
    pub prev: Seq<u16>,
    /// Incremental hash register (read and advanced by the rolling strategy only).
    pub ins_h: usize,
}

/// Per-job context: the filled window bytes, the two tables and the register.
pub struct State {
    /// Currently valid bytes of the input window.
    pub window: Vec<u8>,
    /// Bucket heads, `HASH_SIZE` entries.
    pub head: Vec<u16>,
    /// Back-links, indexed by `position & w_mask`.
    pub prev: Vec<u16>,
    /// Window size minus one; the window size is a power of two.
    pub w_mask: usize,
    /// Incremental hash register.
    pub ins_h: usize,
}

impl View for State {
    type V = Chains;

    open spec fn view(&self) -> Chains {
        Chains { head: self.head@, prev: self.prev@, ins_h: self.ins_h }
    }
}

/// Slot of the back-link array that position `p` uses.
pub open spec fn slot(p: u16, w_mask: usize) -> int {
    (p as usize & w_mask) as int
}

/// Table after threading position `p` into bucket `b`: unless `p` already
/// heads the bucket, the old head becomes `p`'s back-link and `p` the head.
pub open spec fn linked(c: Chains, w_mask: usize, b: int, p: u16) -> Chains {
    if c.head[b] == p {
        c
    } else {
        Chains { head: c.head.update(b, p), prev: c.prev.update(slot(p, w_mask), c.head[b]), ..c }
    }
}

impl State {
    /// The tables have their sizes and the window size is a power of two.
    pub open spec fn wf(&self) -> bool {
        &&& self.head@.len() == HASH_SIZE
        &&& self.prev@.len() == self.w_mask + 1
        &&& self.w_mask < HASH_SIZE
        &&& self.w_mask & ((self.w_mask + 1) as usize) == 0
    }

    /// A fresh job over `window` with empty tables and a zero register.
    pub fn new(window: Vec<u8>, w_mask: usize) -> (r: State)
        requires
            w_mask < HASH_SIZE,
            w_mask & ((w_mask + 1) as usize) == 0,
        ensures
            r.wf(),
            r.window@ == window@,
            r.w_mask == w_mask,
            r@.head == Seq::new(HASH_SIZE as nat, |i: int| 0u16),
            r@.prev == Seq::new(w_mask as nat + 1, |i: int| 0u16),
            r@.ins_h == 0,
    {
        let mut head: Vec<u16> = Vec::new();
        let mut i: usize = 0;
        while i < HASH_SIZE
            invariant
                i <= HASH_SIZE,
                head@ == Seq::new(i as nat, |j: int| 0u16),
            decreases HASH_SIZE - i,
        {
            head.push(0);
            i = i + 1;
        }
        let mut prev: Vec<u16> = Vec::new();
        let mut j: usize = 0;
        while j <= w_mask
            invariant
                w_mask < HASH_SIZE,
                j <= w_mask + 1,
                prev@ == Seq::new(j as nat, |k: int| 0u16),
            decreases w_mask + 1 - j,
        {
            prev.push(0);
            j = j + 1;
        }
        State { window, head, prev, w_mask, ins_h: 0 }
    }

    /// Threads position `p` into bucket `b` and returns the bucket's head as
    /// it was before.
    pub fn link(&mut self, b: usize, p: u16) -> (r: u16)
        requires
            old(self).wf(),
            b < HASH_SIZE,
        ensures
            final(self).wf(),
            final(self).window == old(self).window,
            final(self).w_mask == old(self).w_mask,
            r == old(self)@.head[b as int],
            final(self)@ == linked(old(self)@, old(self).w_mask, b as int, p),
    {
        let head = self.head[b];
        if head != p {
            let m = self.w_mask;
            assert((p as usize & m) <= m) by (bit_vector);
            self.prev.set(p as usize & m, head);
            self.head.set(b, p);
        }
        head
    }
}

} // verus!
