use vstd::prelude::*;
use crate::hash_calc::{insert_run, inserted, HashCalc, RollHashCalc};
use crate::state::{slot, Chains, HASH_SIZE};

verus! {

/// Table after inserting position `p` with strategy `H` (what
/// `H::quick_insert_string` does to it).
pub open spec fn insert_step<H: HashCalc>(window: Seq<u8>, w_mask: usize, c: Chains, p: int) -> Chains {
    inserted(c, w_mask, H::spec_bucket(window, c.ins_h, p), H::spec_register(window, c.ins_h, p), p)
}

/// Table after inserting the `n` positions from `p` with strategy `H` (what
/// `H::insert_string` does to it).
pub open spec fn insert_steps<H: HashCalc>(window: Seq<u8>, w_mask: usize, c: Chains, p: int, n: nat) -> Chains {
    insert_run(
        |d: Chains, q: int| inserted(d, w_mask, H::spec_bucket(window, d.ins_h, q), H::spec_register(window, d.ins_h, q), q),
        c,
        p,
        n,
    )
}

/// A batch of `n + 1` positions is the batch of `n` followed by the last one.
proof fn lemma_steps_unfold<H: HashCalc>(window: Seq<u8>, w_mask: usize, c: Chains, p: int, n: nat)
    ensures
        insert_steps::<H>(window, w_mask, c, p, 0) == c,
        insert_steps::<H>(window, w_mask, c, p, n + 1)
            == insert_step::<H>(window, w_mask, insert_steps::<H>(window, w_mask, c, p, n), p + n),
{
    let f = |d: Chains, q: int| inserted(d, w_mask, H::spec_bucket(window, d.ins_h, q), H::spec_register(window, d.ins_h, q), q);
    assert(insert_steps::<H>(window, w_mask, c, p, n + 1) == f(insert_run(f, c, p, n), p + n));
}

/// Inserting a position a second time, when it lands in the same bucket
/// again (always so for the strategies whose register does not move), leaves
/// the back-links as they were and the position at the head of its bucket.
pub proof fn lemma_repeat_insert_is_noop<H: HashCalc>(window: Seq<u8>, w_mask: usize, c: Chains, p: int)
    requires
        0 <= p,
        p + H::spec_lookahead() <= window.len(),
        c.head.len() == HASH_SIZE,
        H::spec_bucket(window, insert_step::<H>(window, w_mask, c, p).ins_h, p) == H::spec_bucket(window, c.ins_h, p),
    ensures
        ({
            let c1 = insert_step::<H>(window, w_mask, c, p);
            let c2 = insert_step::<H>(window, w_mask, c1, p);
            &&& c2.prev == c1.prev
            &&& c2.head == c1.head
            &&& c2.head[H::spec_bucket(window, c.ins_h, p)] == p as u16
        }),
{
    H::lemma_shape();
    H::lemma_bucket_in_table(window, c.ins_h, p);
}

/// Two distinct positions `p1 < p2` inserted in turn into the same bucket
/// leave `p2` at the head and `p1` as `p2`'s back-link.
pub proof fn lemma_chain_threading<H: HashCalc>(window: Seq<u8>, w_mask: usize, c: Chains, p1: int, p2: int)
    requires
        0 <= p1 < p2,
        p1 as u16 != p2 as u16,
        p2 + H::spec_lookahead() <= window.len(),
        c.head.len() == HASH_SIZE,
        c.prev.len() == w_mask + 1,
        H::spec_bucket(window, insert_step::<H>(window, w_mask, c, p1).ins_h, p2) == H::spec_bucket(window, c.ins_h, p1),
    ensures
        ({
            let b = H::spec_bucket(window, c.ins_h, p1);
            let c2 = insert_step::<H>(window, w_mask, insert_step::<H>(window, w_mask, c, p1), p2);
            &&& c2.head[b] == p2 as u16
            &&& c2.prev[slot(p2 as u16, w_mask)] == p1 as u16
        }),
{
    H::lemma_shape();
    H::lemma_bucket_in_table(window, c.ins_h, p1);
    let b = H::spec_bucket(window, c.ins_h, p1);
    let c1 = insert_step::<H>(window, w_mask, c, p1);
    let q1 = p1 as u16;
    assert((q1 as usize & w_mask) <= w_mask) by (bit_vector);
    assert(c1.head[b] == q1);
    assert(c1.prev.len() == w_mask + 1);
    let q = p2 as u16;
    assert((q as usize & w_mask) <= w_mask) by (bit_vector);
}

/// Inserting `n + 1` positions in one batch gives the same table, register
/// included, as inserting the first one singly and then the other `n` as a
/// batch; by induction, a batch is the same as single insertions in order.
pub proof fn lemma_batch_is_single_then_batch<H: HashCalc>(window: Seq<u8>, w_mask: usize, c: Chains, p: int, n: nat)
    ensures
        insert_steps::<H>(window, w_mask, c, p, n + 1)
            == insert_steps::<H>(window, w_mask, insert_step::<H>(window, w_mask, c, p), p + 1, n),
    decreases n,
{
    let c1 = insert_step::<H>(window, w_mask, c, p);
    lemma_steps_unfold::<H>(window, w_mask, c, p, n);
    if n == 0 {
        lemma_steps_unfold::<H>(window, w_mask, c, p, 0);
        lemma_steps_unfold::<H>(window, w_mask, c1, p + 1, 0);
    } else {
        lemma_batch_is_single_then_batch::<H>(window, w_mask, c, p, (n - 1) as nat);
        lemma_steps_unfold::<H>(window, w_mask, c1, p + 1, (n - 1) as nat);
    }
}

/// Unmasked rolling combine folded over `bytes`, from register `h`.
pub open spec fn roll_fold(h: u32, bytes: Seq<u8>) -> u32
    decreases bytes.len(),
{
    if bytes.len() == 0 {
        h
    } else {
        RollHashCalc::spec_hash_calc(roll_fold(h, bytes.drop_last()), bytes.last() as u32)
    }
}

/// With the register seeded to 0, inserting `n` consecutive positions with
/// the rolling strategy leaves in it the rolling combine folded byte by byte
/// over the bytes it read, from 0, masked into the table.
pub proof fn lemma_roll_register(window: Seq<u8>, w_mask: usize, c: Chains, p: int, n: nat)
    requires
        c.ins_h == 0,
        0 <= p,
        p + 2 + n <= window.len(),
    ensures
        insert_steps::<RollHashCalc>(window, w_mask, c, p, n).ins_h
            == (roll_fold(0, window.subrange(p + 2, p + 2 + n)) & 32767u32) as usize,
    decreases n,
{
    if n == 0 {
        lemma_steps_unfold::<RollHashCalc>(window, w_mask, c, p, 0);
        assert(window.subrange(p + 2, p + 2) =~= Seq::<u8>::empty());
        assert(0u32 & 32767u32 == 0u32) by (bit_vector);
    } else {
        lemma_roll_register(window, w_mask, c, p, (n - 1) as nat);
        lemma_steps_unfold::<RollHashCalc>(window, w_mask, c, p, (n - 1) as nat);
        let s = window.subrange(p + 2, p + 2 + n);
        assert(s.drop_last() =~= window.subrange(p + 2, p + 2 + n - 1));
        let x = roll_fold(0, s.drop_last());
        let b = window[p + 2 + n - 1] as u32;
        assert((((x & 32767u32) << 5u32) ^ b) & 32767u32 == ((x << 5u32) ^ b) & 32767u32) by (bit_vector);
    }
}

} // verus!
