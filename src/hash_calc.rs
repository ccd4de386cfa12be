use vstd::prelude::*;
use crate::crc32c::{crc32c_u32, crc32c_word};
use crate::state::{linked, Chains, State, HASH_SIZE};

verus! {

/// Minimum length of a match.
pub const STD_MIN_MATCH: usize = 3;

/// The three hashing strategies; one is fixed for a whole compression job.
#[derive(Debug, Clone, Copy)]
pub enum HashCalcVariant {
    Standard,
    Crc32,
    Roll,
}

/// Four window bytes from `i`, least significant first.
pub open spec fn word_at(window: Seq<u8>, i: int) -> u32 {
    (window[i] + 256 * window[i + 1] + 65536 * window[i + 2] + 16777216 * window[i + 3]) as u32
}

/// Reads the four window bytes from `i` as a word.
pub fn read_word(window: &Vec<u8>, i: usize) -> (r: u32)
    requires
        i + 4 <= window@.len(),
    ensures
        r == word_at(window@, i as int),
{
    let n = window.len();
    assert(i + 4 <= n);
    let b0 = window[i] as u32;
    let b1 = window[i + 1] as u32;
    let b2 = window[i + 2] as u32;
    let b3 = window[i + 3] as u32;
    b0 + b1 * 256 + b2 * 65536 + b3 * 16777216
}

/// Table after inserting position `p`: the register becomes `reg`, then
/// `p` is threaded into bucket `b`.
pub open spec fn inserted(c: Chains, w_mask: usize, b: int, reg: usize, p: int) -> Chains {
    linked(Chains { ins_h: reg, ..c }, w_mask, b, p as u16)
}

/// Table after applying `step` to the `n` consecutive positions from `p`, in order.
pub open spec fn insert_run(step: spec_fn(Chains, int) -> Chains, c: Chains, p: int, n: nat) -> Chains
    decreases n,
{
    if n == 0 {
        c
    } else {
        step(insert_run(step, c, p, (n - 1) as nat), p + n - 1)
    }
}

/// A hashing strategy: how window bytes become a bucket of the head table.
pub trait HashCalc: Sized {
    /// How many bytes into a match candidate the hashed input begins.
    const HASH_CALC_OFFSET: usize;

    /// Table size minus one; the table size is a power of two.
    const HASH_CALC_MASK: u32;

    /// What `hash_calc` computes.
    spec fn spec_hash_calc(h: u32, val: u32) -> u32;

    /// Bytes a position needs from its own start: offset plus bytes read.
    spec fn spec_lookahead() -> nat;

    /// Bucket of position `p`, given the register before the insertion.
    spec fn spec_bucket(window: Seq<u8>, ins_h: usize, p: int) -> int;

    /// Register after inserting position `p`.
    spec fn spec_register(window: Seq<u8>, ins_h: usize, p: int) -> usize;

    /// A position reads between one and four bytes, the hashed input begins
    /// inside them, and the strategy's table is a power of two that fits
    /// the head table.
    proof fn lemma_shape()
        ensures
            1 <= Self::spec_lookahead() <= 4,
            Self::HASH_CALC_OFFSET < Self::spec_lookahead(),
            Self::HASH_CALC_MASK < HASH_SIZE,
            Self::HASH_CALC_MASK & ((Self::HASH_CALC_MASK + 1) as u32) == 0,
    ;

    /// Every bucket of the strategy fits the head table.
    proof fn lemma_bucket_in_table(window: Seq<u8>, ins_h: usize, p: int)
        requires
            0 <= p,
            p + Self::spec_lookahead() <= window.len(),
        ensures
            0 <= Self::spec_bucket(window, ins_h, p) <= Self::HASH_CALC_MASK,
    ;

    /// Folds `val` into the prior hash `h`.
    fn hash_calc(h: u32, val: u32) -> (r: u32)
        ensures
            r == Self::spec_hash_calc(h, val),
    ;

    /// `hash_calc`, masked into the table.
    fn update_hash(h: u32, val: u32) -> (r: u32)
        ensures
            r == Self::spec_hash_calc(h, val) & Self::HASH_CALC_MASK,
            r <= Self::HASH_CALC_MASK,
    {
        let x = Self::hash_calc(h, val);
        let m = Self::HASH_CALC_MASK;
        assert(x & m <= m) by (bit_vector);
        x & m
    }

    /// Inserts window position `string` and returns its bucket's previous
    /// head, the start of the candidate chain (0 when empty).
    fn quick_insert_string(state: &mut State, string: usize) -> (r: u16)
        requires
            old(state).wf(),
            string + Self::spec_lookahead() <= old(state).window@.len(),
        ensures
            final(state).wf(),
            final(state).window == old(state).window,
            final(state).w_mask == old(state).w_mask,
            r == old(state)@.head[Self::spec_bucket(old(state).window@, old(state)@.ins_h, string as int)],
            final(state)@ == inserted(
                old(state)@,
                old(state).w_mask,
                Self::spec_bucket(old(state).window@, old(state)@.ins_h, string as int),
                Self::spec_register(old(state).window@, old(state)@.ins_h, string as int),
                string as int,
            ),
    ;

    /// Inserts the `count` consecutive positions from `string`, in order.
    fn insert_string(state: &mut State, string: usize, count: usize)
        requires
            old(state).wf(),
            string + count + Self::spec_lookahead() <= old(state).window@.len() + 1,
        ensures
            final(state).wf(),
            final(state).window == old(state).window,
            final(state).w_mask == old(state).w_mask,
            final(state)@ == insert_run(
                    (|d: Chains, q: int|
                        inserted(
                            d,
                            old(state).w_mask,
                            Self::spec_bucket(old(state).window@, d.ins_h, q),
                            Self::spec_register(old(state).window@, d.ins_h, q),
                            q,
                        )),
                    old(state)@,
                    string as int,
                    count as nat,
                ),
    {
        proof {
            Self::lemma_shape();
        }
        let n = state.window.len();
        let mut i: usize = 0;
        while i < count
            invariant
                i <= count,
                n == old(state).window@.len(),
                state.wf(),
                state.window == old(state).window,
                state.w_mask == old(state).w_mask,
                string + count + Self::spec_lookahead() <= old(state).window@.len() + 1,
                Self::spec_lookahead() >= 1,
                state@ == insert_run(
                    (|d: Chains, q: int|
                        inserted(
                            d,
                            old(state).w_mask,
                            Self::spec_bucket(old(state).window@, d.ins_h, q),
                            Self::spec_register(old(state).window@, d.ins_h, q),
                            q,
                        )),
                    old(state)@,
                    string as int,
                    i as nat,
                ),
            decreases count - i,
        {
            Self::quick_insert_string(state, string + i);
            i = i + 1;
            assert(state@ == insert_run(
                (|d: Chains, q: int|
                    inserted(
                        d,
                        old(state).w_mask,
                        Self::spec_bucket(old(state).window@, d.ins_h, q),
                        Self::spec_register(old(state).window@, d.ins_h, q),
                        q,
                    )),
                old(state)@,
                string as int,
                i as nat,
            ));
        }
    }
}

/// Portable multiplicative hash of the four bytes at the candidate.
pub struct StandardHashCalc;

impl HashCalc for StandardHashCalc {
    const HASH_CALC_OFFSET: usize = 0;

    const HASH_CALC_MASK: u32 = 32767;

    open spec fn spec_hash_calc(h: u32, val: u32) -> u32 {
        (((val as int) * 2654435761) % 0x1_0000_0000) as u32 >> 16u32
    }

    open spec fn spec_lookahead() -> nat {
        4
    }

    open spec fn spec_bucket(window: Seq<u8>, ins_h: usize, p: int) -> int {
        (Self::spec_hash_calc(0, word_at(window, p)) & 32767u32) as int
    }

    open spec fn spec_register(window: Seq<u8>, ins_h: usize, p: int) -> usize {
        ins_h
    }

    proof fn lemma_shape() {
        assert(Self::HASH_CALC_OFFSET == 0usize);
        assert(32767u32 & 32768u32 == 0) by (bit_vector);
    }

    proof fn lemma_bucket_in_table(window: Seq<u8>, ins_h: usize, p: int) {
        let x = Self::spec_hash_calc(0, word_at(window, p));
        assert(x & 32767u32 <= 32767u32) by (bit_vector);
    }

    fn hash_calc(h: u32, val: u32) -> (r: u32) {
        val.wrapping_mul(2654435761) >> 16
    }

    fn quick_insert_string(state: &mut State, string: usize) -> (r: u16) {
        let val = read_word(&state.window, string + Self::HASH_CALC_OFFSET);
        let hm = Self::update_hash(0, val) as usize;
        state.link(hm, #[verifier::truncate] (string as u16))
    }
}

/// Incremental rolling hash: each insertion folds one more byte into the
/// register, which then holds the hash of the last three bytes.
pub struct RollHashCalc;

impl HashCalc for RollHashCalc {
    const HASH_CALC_OFFSET: usize = STD_MIN_MATCH - 1;

    const HASH_CALC_MASK: u32 = 32767;

    open spec fn spec_hash_calc(h: u32, val: u32) -> u32 {
        (h << 5u32) ^ val
    }

    open spec fn spec_lookahead() -> nat {
        3
    }

    open spec fn spec_bucket(window: Seq<u8>, ins_h: usize, p: int) -> int {
        (Self::spec_hash_calc(ins_h as u32, window[p + 2] as u32) & 32767u32) as int
    }

    open spec fn spec_register(window: Seq<u8>, ins_h: usize, p: int) -> usize {
        Self::spec_bucket(window, ins_h, p) as usize
    }

    proof fn lemma_shape() {
        assert(Self::HASH_CALC_OFFSET == 2usize);
        assert(32767u32 & 32768u32 == 0) by (bit_vector);
    }

    proof fn lemma_bucket_in_table(window: Seq<u8>, ins_h: usize, p: int) {
        let x = Self::spec_hash_calc(ins_h as u32, window[p + 2] as u32);
        assert(x & 32767u32 <= 32767u32) by (bit_vector);
    }

    fn hash_calc(h: u32, val: u32) -> (r: u32) {
        (h << 5) ^ val
    }

    fn quick_insert_string(state: &mut State, string: usize) -> (r: u16) {
        let n = state.window.len();
        assert(string + 3 <= n);
        let val = state.window[string + Self::HASH_CALC_OFFSET] as u32;
        let hm = Self::update_hash(#[verifier::truncate] (state.ins_h as u32), val);
        state.ins_h = hm as usize;
        state.link(hm as usize, #[verifier::truncate] (string as u16))
    }
}

/// Architectures the CRC32C capability probe tells apart.
#[derive(Debug, Clone, Copy, PartialEq, Eq, Structural)]
pub enum TargetArch {
    X86,
    X86_64,
    Aarch64,
    Other,
}

/// CRC32C hash of the four bytes at the candidate: the word the x86 SSE4.2
/// and ARMv8 CRC instructions compute, here in portable code.
pub struct Crc32HashCalc;

impl Crc32HashCalc {
    /// Whether the target has the hardware CRC32C instruction: always on x86
    /// and x86-64, on aarch64 when the runtime feature query reports `crc`,
    /// never elsewhere.
    pub fn is_supported(arch: TargetArch, aarch64_crc: bool) -> (r: bool)
        ensures
            r == match arch {
                TargetArch::X86 | TargetArch::X86_64 => true,
                TargetArch::Aarch64 => aarch64_crc,
                TargetArch::Other => false,
            },
    {
        match arch {
            TargetArch::X86 | TargetArch::X86_64 => true,
            TargetArch::Aarch64 => aarch64_crc,
            TargetArch::Other => false,
        }
    }
}

impl HashCalc for Crc32HashCalc {
    const HASH_CALC_OFFSET: usize = 0;

    const HASH_CALC_MASK: u32 = 65535;

    open spec fn spec_hash_calc(h: u32, val: u32) -> u32 {
        crc32c_u32(h, val)
    }

    open spec fn spec_lookahead() -> nat {
        4
    }

    open spec fn spec_bucket(window: Seq<u8>, ins_h: usize, p: int) -> int {
        (crc32c_u32(0, word_at(window, p)) & 65535u32) as int
    }

    open spec fn spec_register(window: Seq<u8>, ins_h: usize, p: int) -> usize {
        ins_h
    }

    proof fn lemma_shape() {
        assert(Self::HASH_CALC_OFFSET == 0usize);
        assert(65535u32 & 65536u32 == 0) by (bit_vector);
    }

    proof fn lemma_bucket_in_table(window: Seq<u8>, ins_h: usize, p: int) {
        let x = crc32c_u32(0, word_at(window, p));
        assert(x & 65535u32 <= 65535u32) by (bit_vector);
    }

    fn hash_calc(h: u32, val: u32) -> (r: u32) {
        crc32c_word(h, val)
    }

    fn quick_insert_string(state: &mut State, string: usize) -> (r: u16) {
        let val = read_word(&state.window, string + Self::HASH_CALC_OFFSET);
        let hm = Self::update_hash(0, val) as usize;
        state.link(hm, #[verifier::truncate] (string as u16))
    }
}

} // verus!
