//! Hashing for an LZ77 match-finder: strategies that map upcoming window
//! bytes to a bucket, and insertion of window positions into a chained
//! hash table (bucket heads plus per-position back-links).

mod crc32c;
mod laws;
mod hash_calc;
mod state;

pub use laws::{
    insert_step, insert_steps, lemma_batch_is_single_then_batch, lemma_chain_threading, lemma_repeat_insert_is_noop,
    lemma_roll_register, roll_fold,
};
pub use crc32c::{crc32c_bits, crc32c_u32, crc32c_word, CRC32C_POLY};
pub use hash_calc::{
    insert_run, inserted, read_word, word_at, Crc32HashCalc, HashCalc, HashCalcVariant, RollHashCalc,
    StandardHashCalc, TargetArch, STD_MIN_MATCH,
};
pub use state::{linked, slot, Chains, State, HASH_SIZE};
