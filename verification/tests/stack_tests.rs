use async_rt::stack::{aligned_top_offset, prepare_frame, prepare_jump, store_word, STACK_SIZE};

fn word(s: &[u8], at: usize) -> u64 {
    u64::from_le_bytes(s[at..at + 8].try_into().unwrap())
}

#[test]
fn store_word_is_little_endian() {
    let mut s = vec![0xAAu8; 12];
    store_word(&mut s, 2, 0x0102030405060708);
    assert_eq!(s, vec![0xAA, 0xAA, 8, 7, 6, 5, 4, 3, 2, 1, 0xAA, 0xAA]);
}

#[test]
fn aligned_top_rounds_the_end_down() {
    assert_eq!(aligned_top_offset(0x1000, 64), 64);
    assert_eq!(aligned_top_offset(0x1003, 64), 61);
    assert_eq!(aligned_top_offset(0x100F, 48), 33);
}

#[test]
fn spawn_frame_layout() {
    let mut s = vec![0u8; 64];
    let rsp = prepare_frame(&mut s, 0x1003, 0x1111, 0x2222, 0x3333);
    // aligned top is at offset 61, address 0x1040
    assert_eq!(rsp, 0x1040 - 32);
    assert_eq!(rsp % 16, 0);
    assert_eq!(word(&s, 61 - 32), 0x1111);
    assert_eq!(word(&s, 61 - 24), 0x3333);
    assert_eq!(word(&s, 61 - 16), 0x2222);
    assert!(s[..29].iter().all(|&b| b == 0));
    assert!(s[53..].iter().all(|&b| b == 0));
}

#[test]
fn spawn_frame_at_wrapping_address() {
    let mut s = vec![0u8; 64];
    let base = u64::MAX - 20;
    let rsp = prepare_frame(&mut s, base, 1, 2, 3);
    assert_eq!(rsp % 16, 0);
    let off = rsp.wrapping_sub(base) as usize;
    assert_eq!(word(&s, off), 1);
    assert_eq!(word(&s, off + 8), 3);
    assert_eq!(word(&s, off + 16), 2);
}

#[test]
fn jump_frame_layout() {
    let mut s = vec![0u8; STACK_SIZE];
    let rsp = prepare_jump(&mut s, 0x2008, 0xDEAD);
    assert_eq!(rsp, 0x2030 - 16);
    assert_eq!(rsp % 16, 0);
    assert_eq!(word(&s, (rsp - 0x2008) as usize), 0xDEAD);
}
