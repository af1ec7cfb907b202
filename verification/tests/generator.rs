use bufrng::BufRng;

#[test]
fn first_draw_packs_big_endian() {
    let data = vec![1u8, 2, 3, 4];
    let mut rng = BufRng::new(&data);
    assert_eq!(rng.next_u32(), 0x01020304);
    assert_eq!(rng.next_u32(), 0);
}

#[test]
fn short_buffer_pads_missing_bytes_with_zero() {
    let data = vec![1u8, 2];
    let mut rng = BufRng::new(&data);
    assert_eq!(rng.next_u32(), (1 << 24) | (2 << 16));
    assert_eq!(rng.next_u32(), 0);
}

#[test]
fn empty_buffer_always_draws_zero() {
    let data: Vec<u8> = vec![];
    let mut rng = BufRng::new(&data);
    assert_eq!(rng.next_u32(), 0);
    assert_eq!(rng.next_u32(), 0);
    assert_eq!(rng.next_u32(), 0);
}

#[test]
fn single_byte_buffer_fills_high_byte() {
    let data = vec![0xFFu8];
    let mut rng = BufRng::new(&data);
    assert_eq!(rng.next_u32(), 0xFF000000);
    assert_eq!(rng.next_u32(), 0);
}

#[test]
fn single_byte_draws_yield_bytes_then_zero() {
    let data = vec![7u8, 8];
    let mut rng = BufRng::new(&data);
    assert_eq!(rng.next(), 7);
    assert_eq!(rng.next(), 8);
    assert_eq!(rng.next(), 0);
    assert_eq!(rng.next(), 0);
}

#[test]
fn next_u64_takes_high_word_from_first_draw() {
    let data = vec![1u8, 2, 3, 4, 5, 6, 7, 8];
    let mut rng = BufRng::new(&data);
    assert_eq!(rng.next_u64(), 0x0102030405060708);
    assert_eq!(rng.next_u64(), 0);
}

#[test]
fn next_u64_on_short_buffer() {
    let data = vec![0xAAu8];
    let mut rng = BufRng::new(&data);
    assert_eq!(rng.next_u64(), 0xAA00000000000000);
    assert_eq!(rng.next_u64(), 0);
}

#[test]
fn fill_six_bytes_from_eight_byte_buffer() {
    let data = vec![1u8, 2, 3, 4, 5, 6, 7, 8];
    let mut rng = BufRng::new(&data);
    let mut dest = vec![0u8; 6];
    rng.fill_bytes(&mut dest);
    assert_eq!(dest, vec![1, 2, 3, 4, 5, 6]);
}

#[test]
fn fill_matches_decomposed_consecutive_draws() {
    let data = vec![10u8, 20, 30, 40, 50, 60, 70, 80];
    let mut filled = BufRng::new(&data);
    let mut dest = vec![0u8; 8];
    filled.fill_bytes(&mut dest);

    let mut drawn = BufRng::new(&data);
    let mut expected = Vec::new();
    for _ in 0..2 {
        let w = drawn.next_u32();
        expected.push((w >> 24) as u8);
        expected.push((w >> 16) as u8);
        expected.push((w >> 8) as u8);
        expected.push(w as u8);
    }
    assert_eq!(dest, expected);
}

#[test]
fn fill_truncates_final_partial_draw_but_consumes_it_whole() {
    let data = vec![1u8, 2, 3, 4, 5, 6, 7, 8];
    let mut rng = BufRng::new(&data);
    let mut dest = vec![0u8; 2];
    rng.fill_bytes(&mut dest);
    assert_eq!(dest, vec![1, 2]);
    // The partial draw consumed four buffer bytes, not two.
    assert_eq!(rng.next_u32(), 0x05060708);
}

#[test]
fn fill_of_empty_destination_draws_nothing() {
    let data = vec![1u8, 2, 3, 4];
    let mut rng = BufRng::new(&data);
    let mut dest: Vec<u8> = vec![];
    rng.fill_bytes(&mut dest);
    assert_eq!(dest, Vec::<u8>::new());
    assert_eq!(rng.next_u32(), 0x01020304);
}

#[test]
fn fill_past_exhaustion_writes_zeros() {
    let data = vec![9u8];
    let mut rng = BufRng::new(&data);
    assert_eq!(rng.next_u32(), 0x09000000);
    let mut dest = vec![0xEEu8; 5];
    rng.fill_bytes(&mut dest);
    assert_eq!(dest, vec![0, 0, 0, 0, 0]);
    assert_eq!(rng.next_u64(), 0);
    assert_eq!(rng.next_u32(), 0);
}

#[test]
fn try_fill_bytes_always_succeeds() {
    let data = vec![1u8, 2, 3, 4, 5, 6, 7, 8];
    let mut rng = BufRng::new(&data);
    let mut dest = vec![0u8; 6];
    assert!(rng.try_fill_bytes(&mut dest).is_ok());
    assert_eq!(dest, vec![1, 2, 3, 4, 5, 6]);

    let empty: Vec<u8> = vec![];
    let mut exhausted = BufRng::new(&empty);
    let mut zeros = vec![0xAAu8; 3];
    assert!(exhausted.try_fill_bytes(&mut zeros).is_ok());
    assert_eq!(zeros, vec![0, 0, 0]);
}
