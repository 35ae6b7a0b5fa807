use rustmatica::packing::num_bits;
use rustmatica::packing::pack;
use rustmatica::packing::unpack;

#[test]
fn num_bits_is_minimal_width() {
    assert_eq!(num_bits(0), 2);
    assert_eq!(num_bits(1), 2);
    assert_eq!(num_bits(2), 2);
    assert_eq!(num_bits(3), 2);
    assert_eq!(num_bits(4), 2);
    assert_eq!(num_bits(5), 3);
    assert_eq!(num_bits(8), 3);
    assert_eq!(num_bits(9), 4);
    assert_eq!(num_bits(16), 4);
    assert_eq!(num_bits(17), 5);
    assert_eq!(num_bits(usize::MAX), 64);
}

#[test]
fn pack_exact_words() {
    // Eight 3-bit entries fill 24 bits of one word, low bit first:
    // value = sum of ids[i] * 8^i.
    let ids: Vec<u64> = vec![0, 1, 2, 3, 4, 0, 1, 2];
    let words = pack(&ids, 3);
    assert_eq!(words, vec![4474504u64]);

    // 22 entries of 3 bits are 66 bits: the last entry straddles into a
    // second word. With ids[21] = 5 (binary 101), bits 63 and 65 are set.
    let mut long_ids: Vec<u64> = vec![0; 22];
    long_ids[21] = 5;
    let words = pack(&long_ids, 3);
    assert_eq!(words.len(), 2);
    assert_eq!(words[0], 1u64 << 63);
    assert_eq!(words[1], 2u64);
}

#[test]
fn unpack_exact_values() {
    let words: Vec<u64> = vec![4474504u64];
    let ids = unpack(&words, 3, 8);
    assert_eq!(ids, vec![0, 1, 2, 3, 4, 0, 1, 2]);

    // A chunk straddling the word boundary is reassembled from both words.
    let words: Vec<u64> = vec![1u64 << 63, 2u64];
    let ids = unpack(&words, 3, 22);
    assert_eq!(ids[21], 5);
    assert_eq!(&ids[..21], &[0u64; 21][..]);
}

#[test]
fn pack_unpack_roundtrip() {
    let ids: Vec<u64> = vec![7, 0, 3, 3, 1, 6, 2, 5, 4, 7, 7, 0, 1];
    let words = pack(&ids, 3);
    let back = unpack(&words, 3, ids.len());
    assert_eq!(back, ids);

    let wide: Vec<u64> = vec![u64::MAX, 0, 12345678901234567890];
    let words = pack(&wide, 64);
    assert_eq!(words, wide);
    assert_eq!(unpack(&words, 64, 3), wide);
}
