use deflate_hash::{
    crc32c_word, read_word, Crc32HashCalc, HashCalc, RollHashCalc, StandardHashCalc, State, TargetArch, HASH_SIZE,
};

fn pattern_window(len: usize) -> Vec<u8> {
    (0..len).map(|i| b"abcd"[i % 4]).collect()
}

fn text_window() -> Vec<u8> {
    b"the quick brown fox jumps over the lazy dog; the quick brown fox again".to_vec()
}

#[test]
fn crc32_hash_calc() {
    assert_eq!(Crc32HashCalc::hash_calc(0, 807411760), 2423125009);
    assert_eq!(Crc32HashCalc::hash_calc(0, 540024864), 1452438466);
    assert_eq!(Crc32HashCalc::hash_calc(0, 538980384), 435552201);
    assert_eq!(Crc32HashCalc::hash_calc(0, 807411760), 2423125009);
    assert_eq!(Crc32HashCalc::hash_calc(0, 540024864), 1452438466);
    assert_eq!(Crc32HashCalc::hash_calc(0, 538980384), 435552201);
    assert_eq!(Crc32HashCalc::hash_calc(0, 807411760), 2423125009);
    assert_eq!(Crc32HashCalc::hash_calc(0, 540024864), 1452438466);
    assert_eq!(Crc32HashCalc::hash_calc(0, 538980384), 435552201);
    assert_eq!(Crc32HashCalc::hash_calc(0, 807411760), 2423125009);
    assert_eq!(Crc32HashCalc::hash_calc(0, 540024864), 1452438466);
    assert_eq!(Crc32HashCalc::hash_calc(0, 538980384), 435552201);
    assert_eq!(Crc32HashCalc::hash_calc(0, 807411760), 2423125009);
    assert_eq!(Crc32HashCalc::hash_calc(0, 170926112), 500028708);
    assert_eq!(Crc32HashCalc::hash_calc(0, 537538592), 3694129053);
    assert_eq!(Crc32HashCalc::hash_calc(0, 538970672), 373925026);
    assert_eq!(Crc32HashCalc::hash_calc(0, 538976266), 4149335727);
    assert_eq!(Crc32HashCalc::hash_calc(0, 538976288), 1767342659);
    assert_eq!(Crc32HashCalc::hash_calc(0, 941629472), 4090502627);
    assert_eq!(Crc32HashCalc::hash_calc(0, 775430176), 1744703325);
}

#[test]
fn roll_hash_calc() {
    assert_eq!(RollHashCalc::hash_calc(2565, 93), 82173);
    assert_eq!(RollHashCalc::hash_calc(16637, 10), 532394);
    assert_eq!(RollHashCalc::hash_calc(8106, 100), 259364);
    assert_eq!(RollHashCalc::hash_calc(29988, 101), 959717);
    assert_eq!(RollHashCalc::hash_calc(9445, 98), 302274);
    assert_eq!(RollHashCalc::hash_calc(7362, 117), 235573);
    assert_eq!(RollHashCalc::hash_calc(6197, 103), 198343);
    assert_eq!(RollHashCalc::hash_calc(1735, 32), 55488);
    assert_eq!(RollHashCalc::hash_calc(22720, 61), 727101);
    assert_eq!(RollHashCalc::hash_calc(6205, 32), 198528);
    assert_eq!(RollHashCalc::hash_calc(3826, 117), 122421);
    assert_eq!(RollHashCalc::hash_calc(24117, 101), 771781);
}

#[test]
fn standard_hash_calc_values() {
    assert_eq!(StandardHashCalc::hash_calc(0, 1), 40503);
    assert_eq!(StandardHashCalc::hash_calc(0, 0x6463_6261), 25357);
    // the prior hash is ignored
    assert_eq!(StandardHashCalc::hash_calc(123, 0x6463_6261), 25357);
}

#[test]
fn combine_is_deterministic() {
    for v in [0u32, 1, 807411760, 0xffff_ffff] {
        assert_eq!(StandardHashCalc::hash_calc(0, v), StandardHashCalc::hash_calc(0, v));
        assert_eq!(Crc32HashCalc::hash_calc(0, v), Crc32HashCalc::hash_calc(0, v));
        assert_eq!(RollHashCalc::hash_calc(2565, v), RollHashCalc::hash_calc(2565, v));
    }
}

#[test]
fn crc32c_word_with_prior_register() {
    assert_eq!(crc32c_word(0x1234_5678, 0x9abc_def0), 2037037481);
    assert_eq!(crc32c_word(0, 0x6463_6261), 3668918774);
}

#[test]
fn update_hash_masks_into_table() {
    assert_eq!(StandardHashCalc::update_hash(0, 0x6463_6261), 25357);
    assert_eq!(Crc32HashCalc::update_hash(0, 0x6463_6261), 16886);
    assert_eq!(RollHashCalc::update_hash(2565, 93), 82173 & 32767);
    for v in [0u32, 1, 807411760, 0xffff_ffff] {
        assert!(StandardHashCalc::update_hash(0, v) < 32768);
        assert!(Crc32HashCalc::update_hash(0, v) < 65536);
        assert!(RollHashCalc::update_hash(0xffff_ffff, v) < 32768);
    }
}

#[test]
fn offsets_and_masks() {
    assert_eq!(StandardHashCalc::HASH_CALC_OFFSET, 0);
    assert_eq!(Crc32HashCalc::HASH_CALC_OFFSET, 0);
    assert_eq!(RollHashCalc::HASH_CALC_OFFSET, 2);
    assert_eq!(StandardHashCalc::HASH_CALC_MASK, 32767);
    assert_eq!(RollHashCalc::HASH_CALC_MASK, 32767);
    assert_eq!(Crc32HashCalc::HASH_CALC_MASK, 65535);
}

#[test]
fn read_word_least_significant_first() {
    let w = b"xabcd".to_vec();
    assert_eq!(read_word(&w, 1), 0x6463_6261);
}

#[test]
fn new_state_is_empty() {
    let st = State::new(vec![1, 2, 3], 255);
    assert_eq!(st.head.len(), HASH_SIZE);
    assert!(st.head.iter().all(|&h| h == 0));
    assert_eq!(st.prev.len(), 256);
    assert!(st.prev.iter().all(|&h| h == 0));
    assert_eq!(st.ins_h, 0);
    assert_eq!(st.window, vec![1, 2, 3]);
}

#[test]
fn quick_insert_threads_chain() {
    let mut st = State::new(pattern_window(32), 15);
    let b = StandardHashCalc::update_hash(0, read_word(&st.window, 1)) as usize;
    assert_eq!(StandardHashCalc::quick_insert_string(&mut st, 1), 0);
    assert_eq!(st.head[b], 1);
    // position 5 holds the same four bytes, so the same bucket
    assert_eq!(StandardHashCalc::quick_insert_string(&mut st, 5), 1);
    assert_eq!(st.head[b], 5);
    assert_eq!(st.prev[5], 1);
    // position 21 wraps onto back-link slot 5
    assert_eq!(StandardHashCalc::quick_insert_string(&mut st, 21), 5);
    assert_eq!(st.head[b], 21);
    assert_eq!(st.prev[21 & 15], 5);
}

#[test]
fn crc32_quick_insert_threads_chain() {
    let mut st = State::new(pattern_window(32), 31);
    let b = Crc32HashCalc::update_hash(0, read_word(&st.window, 2)) as usize;
    assert_eq!(Crc32HashCalc::quick_insert_string(&mut st, 2), 0);
    assert_eq!(Crc32HashCalc::quick_insert_string(&mut st, 6), 2);
    assert_eq!(st.head[b], 6);
    assert_eq!(st.prev[6], 2);
}

#[test]
fn repeated_insert_is_noop() {
    let mut st = State::new(text_window(), 63);
    StandardHashCalc::quick_insert_string(&mut st, 7);
    let prev = st.prev.clone();
    let head = st.head.clone();
    assert_eq!(StandardHashCalc::quick_insert_string(&mut st, 7), 7);
    assert_eq!(st.prev, prev);
    assert_eq!(st.head, head);
    let b = StandardHashCalc::update_hash(0, read_word(&st.window, 7)) as usize;
    assert_eq!(st.head[b], 7);

    let mut st = State::new(text_window(), 63);
    Crc32HashCalc::quick_insert_string(&mut st, 9);
    let prev = st.prev.clone();
    assert_eq!(Crc32HashCalc::quick_insert_string(&mut st, 9), 9);
    assert_eq!(st.prev, prev);
}

fn batch_matches_singles<H: HashCalc>(p: usize, n: usize) {
    let mut batch = State::new(text_window(), 63);
    let mut single = State::new(text_window(), 63);
    H::insert_string(&mut batch, p, n);
    for i in 0..n {
        H::quick_insert_string(&mut single, p + i);
    }
    assert_eq!(batch.head, single.head);
    assert_eq!(batch.prev, single.prev);
    assert_eq!(batch.ins_h, single.ins_h);
}

#[test]
fn batch_insert_matches_single_inserts() {
    let len = text_window().len();
    batch_matches_singles::<StandardHashCalc>(0, len - 3);
    batch_matches_singles::<Crc32HashCalc>(0, len - 3);
    batch_matches_singles::<RollHashCalc>(0, len - 2);
    batch_matches_singles::<StandardHashCalc>(5, 0);
    batch_matches_singles::<RollHashCalc>(3, 10);
}

#[test]
fn batch_insert_links_repeats() {
    let mut st = State::new(text_window(), 127);
    StandardHashCalc::insert_string(&mut st, 0, 50);
    // "he q" occurs at 1 and at 46
    let b = StandardHashCalc::update_hash(0, read_word(&st.window, 46)) as usize;
    assert_eq!(st.head[b], 46);
    assert_eq!(st.prev[46], 1);
}

#[test]
fn roll_register_folds_bytes() {
    let mut st = State::new(b"abcdef".to_vec(), 7);
    RollHashCalc::insert_string(&mut st, 0, 4);
    assert_eq!(st.ins_h, 7366);
    let mut h: u32 = 0;
    for &b in b"cdef" {
        h = RollHashCalc::hash_calc(h, b as u32);
    }
    assert_eq!(h, 3153094);
    assert_eq!(st.ins_h as u32, h & RollHashCalc::HASH_CALC_MASK);
}

#[test]
fn roll_quick_insert_advances_register() {
    let mut st = State::new(b"abcdef".to_vec(), 7);
    assert_eq!(RollHashCalc::quick_insert_string(&mut st, 0), 0);
    assert_eq!(st.ins_h, b'c' as usize);
    assert_eq!(st.head[b'c' as usize], 0);
    RollHashCalc::quick_insert_string(&mut st, 1);
    let h = ((b'c' as usize) << 5) ^ b'd' as usize;
    assert_eq!(st.ins_h, h);
    assert_eq!(st.head[h], 1);
}

#[test]
fn capability_probe() {
    assert!(Crc32HashCalc::is_supported(TargetArch::X86, false));
    assert!(Crc32HashCalc::is_supported(TargetArch::X86_64, false));
    assert!(Crc32HashCalc::is_supported(TargetArch::Aarch64, true));
    assert!(!Crc32HashCalc::is_supported(TargetArch::Aarch64, false));
    assert!(!Crc32HashCalc::is_supported(TargetArch::Other, true));
}
