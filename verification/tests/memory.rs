use nova_vm::atomics::{
    atomic_add_16_seq_cst, atomic_add_32_seq_cst, atomic_add_64_seq_cst, atomic_add_8_seq_cst,
    atomic_and_16_seq_cst, atomic_and_32_seq_cst, atomic_and_64_seq_cst, atomic_and_8_seq_cst,
    atomic_cmp_xchg_16_seq_cst, atomic_cmp_xchg_32_seq_cst, atomic_cmp_xchg_64_seq_cst,
    atomic_cmp_xchg_8_seq_cst, atomic_exchange_16_seq_cst, atomic_exchange_32_seq_cst,
    atomic_exchange_64_seq_cst, atomic_exchange_8_seq_cst, atomic_load_16_seq_cst,
    atomic_load_16_unsynchronized, atomic_load_32_seq_cst, atomic_load_32_unsynchronized,
    atomic_load_64_seq_cst, atomic_load_64_unsynchronized, atomic_load_8_seq_cst,
    atomic_load_8_unsynchronized, atomic_or_16_seq_cst, atomic_or_32_seq_cst,
    atomic_or_64_seq_cst, atomic_or_8_seq_cst, atomic_store_16_seq_cst,
    atomic_store_16_unsynchronized, atomic_store_32_seq_cst, atomic_store_32_unsynchronized,
    atomic_store_64_seq_cst, atomic_store_64_unsynchronized, atomic_store_8_seq_cst,
    atomic_store_8_unsynchronized, atomic_xor_16_seq_cst, atomic_xor_32_seq_cst,
    atomic_xor_64_seq_cst, atomic_xor_8_seq_cst, load, store,
};
use nova_vm::memcpy::{
    unordered_memcpy_down_unsynchronized, unordered_memcpy_up_unsynchronized,
    UNALIGNED_ACCESS_IS_OK,
};

#[test]
fn loads_are_little_endian_and_unaligned() {
    assert!(UNALIGNED_ACCESS_IS_OK);
    let m: Vec<u8> = vec![0, 1, 2, 3, 4, 5, 6, 7, 0xFF];
    assert_eq!(atomic_load_8_seq_cst(&m, 8), 0xFF);
    assert_eq!(atomic_load_8_unsynchronized(&m, 3), 3);
    assert_eq!(atomic_load_16_seq_cst(&m, 1), 0x0201);
    assert_eq!(atomic_load_16_unsynchronized(&m, 7), 0xFF07);
    assert_eq!(atomic_load_32_seq_cst(&m, 1), 0x0403_0201);
    assert_eq!(atomic_load_32_unsynchronized(&m, 5), 0xFF07_0605);
    assert_eq!(atomic_load_64_seq_cst(&m, 1), 0xFF07_0605_0403_0201);
    assert_eq!(atomic_load_64_unsynchronized(&m, 0), 0x0706_0504_0302_0100);
}

#[test]
fn stores_touch_only_their_bytes() {
    let mut m: Vec<u8> = vec![0xAA; 11];
    atomic_store_8_seq_cst(&mut m, 0, 1);
    atomic_store_16_seq_cst(&mut m, 2, 0x0302);
    assert_eq!(m[..5], [1, 0xAA, 2, 3, 0xAA]);
    atomic_store_32_seq_cst(&mut m, 1, 0x0403_0201);
    assert_eq!(m[..6], [1, 1, 2, 3, 4, 0xAA]);
    atomic_store_64_seq_cst(&mut m, 3, 0x0807_0605_0403_0201);
    assert_eq!(m, vec![1, 1, 2, 1, 2, 3, 4, 5, 6, 7, 8]);
    atomic_store_8_unsynchronized(&mut m, 10, 0);
    atomic_store_16_unsynchronized(&mut m, 8, 0);
    atomic_store_32_unsynchronized(&mut m, 4, 0);
    assert_eq!(m, vec![1, 1, 2, 1, 0, 0, 0, 0, 0, 0, 0]);
    atomic_store_64_unsynchronized(&mut m, 0, u64::MAX);
    assert_eq!(m[..9], [255, 255, 255, 255, 255, 255, 255, 255, 0]);
}

#[test]
fn exchange_returns_the_previous_value() {
    let mut m: Vec<u8> = vec![1, 2, 3, 4, 5, 6, 7, 8];
    assert_eq!(atomic_exchange_8_seq_cst(&mut m, 0, 9), 1);
    assert_eq!(atomic_exchange_16_seq_cst(&mut m, 0, 0), 0x0209);
    assert_eq!(atomic_exchange_32_seq_cst(&mut m, 0, 1), 0x0403_0000);
    assert_eq!(atomic_exchange_64_seq_cst(&mut m, 0, 2), 0x0807_0605_0000_0001);
    assert_eq!(m, vec![2, 0, 0, 0, 0, 0, 0, 0]);
}

#[test]
fn compare_exchange_replaces_only_the_expected_value() {
    let mut m: Vec<u8> = vec![1, 0, 0, 0, 0, 0, 0, 0];
    assert_eq!(atomic_cmp_xchg_8_seq_cst(&mut m, 0, 2, 7), 1);
    assert_eq!(m[0], 1);
    assert_eq!(atomic_cmp_xchg_8_seq_cst(&mut m, 0, 1, 7), 1);
    assert_eq!(m[0], 7);
    assert_eq!(atomic_cmp_xchg_16_seq_cst(&mut m, 0, 7, 0x0100), 7);
    assert_eq!(atomic_cmp_xchg_16_seq_cst(&mut m, 0, 7, 0x0200), 0x0100);
    assert_eq!(atomic_cmp_xchg_32_seq_cst(&mut m, 0, 0x0100, 5), 0x0100);
    assert_eq!(atomic_cmp_xchg_32_seq_cst(&mut m, 0, 6, 8), 5);
    assert_eq!(atomic_cmp_xchg_64_seq_cst(&mut m, 0, 5, u64::MAX), 5);
    assert_eq!(atomic_cmp_xchg_64_seq_cst(&mut m, 0, 5, 0), u64::MAX);
    assert_eq!(m, vec![255; 8]);
}

#[test]
fn addition_wraps_around() {
    let mut m: Vec<u8> = vec![0xFF; 9];
    assert_eq!(atomic_add_8_seq_cst(&mut m, 0, 2), 0xFF);
    assert_eq!(m[..2], [1, 0xFF]);
    m[0] = 0xFF;
    assert_eq!(atomic_add_16_seq_cst(&mut m, 0, 2), 0xFFFF);
    assert_eq!(m[..3], [1, 0, 0xFF]);
    assert_eq!(atomic_add_32_seq_cst(&mut m, 2, u32::MAX), u32::MAX);
    assert_eq!(atomic_load_32_seq_cst(&m, 2), u32::MAX - 1);
    assert_eq!(atomic_exchange_64_seq_cst(&mut m, 1, u64::MAX) & 0xFF, 0);
    assert_eq!(atomic_add_64_seq_cst(&mut m, 1, 1), u64::MAX);
    assert_eq!(atomic_load_64_seq_cst(&m, 1), 0);
}

#[test]
fn bitwise_operations_combine() {
    let mut m: Vec<u8> = vec![0b1100, 0, 0, 0, 0, 0, 0, 0];
    assert_eq!(atomic_and_8_seq_cst(&mut m, 0, 0b1010), 0b1100);
    assert_eq!(atomic_or_8_seq_cst(&mut m, 0, 0b0001), 0b1000);
    assert_eq!(atomic_xor_8_seq_cst(&mut m, 0, 0b1111), 0b1001);
    assert_eq!(m[0], 0b0110);
    assert_eq!(atomic_or_16_seq_cst(&mut m, 0, 0x0F00), 0x0006);
    assert_eq!(atomic_and_16_seq_cst(&mut m, 0, 0x0602), 0x0F06);
    assert_eq!(atomic_xor_16_seq_cst(&mut m, 0, 0xFFFF), 0x0602);
    assert_eq!(atomic_xor_16_seq_cst(&mut m, 0, 0xFFFF), !0x0602);
    assert_eq!(atomic_or_32_seq_cst(&mut m, 0, 0xF000_0000), 0x0602);
    assert_eq!(atomic_and_32_seq_cst(&mut m, 0, 0xF000_0002), 0xF000_0602);
    assert_eq!(atomic_xor_32_seq_cst(&mut m, 0, 2), 0xF000_0002);
    assert_eq!(atomic_or_64_seq_cst(&mut m, 0, 1 << 63), 0xF000_0000);
    assert_eq!(
        atomic_and_64_seq_cst(&mut m, 0, !0xF000_0000),
        0x8000_0000_F000_0000
    );
    assert_eq!(atomic_xor_64_seq_cst(&mut m, 0, 3), 1 << 63);
    assert_eq!(m, vec![3, 0, 0, 0, 0, 0, 0, 0x80]);
}

#[test]
fn copies_without_overlap() {
    let mut m: Vec<u8> = vec![1, 2, 3, 4, 5, 6];
    unordered_memcpy_down_unsynchronized(&mut m, 3, 0, 3);
    assert_eq!(m, vec![4, 5, 6, 4, 5, 6]);
    unordered_memcpy_down_unsynchronized(&mut m, 0, 4, 2);
    assert_eq!(m, vec![4, 5, 6, 4, 4, 5]);
    unordered_memcpy_down_unsynchronized(&mut m, 6, 6, 0);
    assert_eq!(m, vec![4, 5, 6, 4, 4, 5]);
}

#[test]
fn copies_with_overlap() {
    let mut m: Vec<u8> = vec![1, 2, 3, 4, 5, 6];
    unordered_memcpy_up_unsynchronized(&mut m, 0, 1, 5);
    assert_eq!(m, vec![1, 1, 2, 3, 4, 5]);
    unordered_memcpy_up_unsynchronized(&mut m, 2, 0, 4);
    assert_eq!(m, vec![2, 3, 4, 5, 4, 5]);
    unordered_memcpy_up_unsynchronized(&mut m, 1, 1, 3);
    assert_eq!(m, vec![2, 3, 4, 5, 4, 5]);
}

#[test]
fn what_was_stored_is_loaded() {
    let mut m: Vec<u8> = vec![9; 6];
    store(&mut m, 1, 3, 0x0403_0201);
    assert_eq!(m, vec![9, 1, 2, 3, 9, 9]);
    assert_eq!(load(&m, 1, 3), 0x0003_0201);
    store(&mut m, 1, 3, 7);
    assert_eq!(m, vec![9, 7, 0, 0, 9, 9]);
    assert_eq!(load(&m, 6, 0), 0);
}
