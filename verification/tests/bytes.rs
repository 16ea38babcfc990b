use key_agent::bytes::{copy_range, ct_eq, wipe, xor_bytes};

#[test]
fn ct_eq_is_equality() {
    assert!(ct_eq(b"", b""));
    assert!(ct_eq(b"abc", b"abc"));
    assert!(!ct_eq(b"abc", b"abd"));
    assert!(!ct_eq(b"abc", b"xbc"));
    assert!(!ct_eq(b"abc", b"ab"));
    assert!(!ct_eq(b"", b"a"));
    assert!(!ct_eq(&[0x00, 0xff], &[0xff, 0x00]));
    assert!(!ct_eq(&[0x80], &[0x00]));
}

#[test]
fn ct_eq_sees_a_difference_in_any_one_bit() {
    let base = vec![0x5au8; 16];
    for i in 0..16 {
        for bit in 0..8 {
            let mut other = base.clone();
            other[i] ^= 1 << bit;
            assert!(!ct_eq(&base, &other));
        }
    }
    assert!(ct_eq(&base, &base.clone()));
}

#[test]
fn wipe_zeroes_and_keeps_the_length() {
    let mut buf = vec![1u8, 2, 3, 255];
    wipe(&mut buf);
    assert_eq!(buf, vec![0u8, 0, 0, 0]);
    let mut empty: Vec<u8> = Vec::new();
    wipe(&mut empty);
    assert!(empty.is_empty());
}

#[test]
fn xor_bytes_is_bytewise() {
    assert_eq!(xor_bytes(&[0x0f, 0xf0, 0xaa], &[0xff, 0xff, 0x55]), vec![0xf0, 0x0f, 0xff]);
    assert_eq!(xor_bytes(&[], &[]), Vec::<u8>::new());
}

#[test]
fn xor_bytes_twice_gives_the_input_back() {
    let data = b"some data to hide".to_vec();
    let pad: Vec<u8> = (0..data.len()).map(|i| (i * 7 + 3) as u8).collect();
    let hidden = xor_bytes(&data, &pad);
    assert_ne!(hidden, data);
    assert_eq!(xor_bytes(&hidden, &pad), data);
}

#[test]
fn copy_range_copies_the_half_open_range() {
    let data = [10u8, 11, 12, 13, 14];
    assert_eq!(copy_range(&data, 0, 5), vec![10, 11, 12, 13, 14]);
    assert_eq!(copy_range(&data, 1, 3), vec![11, 12]);
    assert_eq!(copy_range(&data, 2, 2), Vec::<u8>::new());
    assert_eq!(copy_range(&data, 5, 5), Vec::<u8>::new());
}
