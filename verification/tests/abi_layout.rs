use alloy::primitives::U256 as AlloyU256;
use alloy::sol_types::SolValue;
use bn254_contract_adapter::abi::{
    decode_g1, encode_bool, encode_g1, encode_g1_pair, encode_g1_triple, encode_g2, encode_msm,
    encode_pairing_vector, encode_uint, encode_uint_uint_bool,
};
use bn254_contract_adapter::point::{G1Point, G2Point};
use bn254_contract_adapter::uint::U256;

fn big(seed: u64) -> U256 {
    U256 {
        limbs: [
            seed.wrapping_mul(0x9e3779b97f4a7c15),
            seed.wrapping_mul(0xbf58476d1ce4e5b9) ^ 0x1111,
            seed.wrapping_mul(0x94d049bb133111eb) ^ 0x2222,
            seed.wrapping_mul(0x2545f4914f6cdd1d) ^ 0x3333,
        ],
    }
}

fn alloy(x: &U256) -> AlloyU256 {
    AlloyU256::from_limbs(x.limbs)
}

fn g1(seed: u64) -> G1Point {
    G1Point { x: big(seed), y: big(seed + 1000) }
}

fn g2(seed: u64) -> G2Point {
    G2Point { x0: big(seed), x1: big(seed + 1), y0: big(seed + 2), y1: big(seed + 3) }
}

fn pair(p: &G1Point) -> (AlloyU256, AlloyU256) {
    (alloy(&p.x), alloy(&p.y))
}

fn quad(p: &G2Point) -> (AlloyU256, AlloyU256, AlloyU256, AlloyU256) {
    (alloy(&p.x0), alloy(&p.x1), alloy(&p.y0), alloy(&p.y1))
}

#[test]
fn a_word_is_32_bytes_big_endian() {
    let bytes = encode_uint(&U256::from_u64(0x0102));
    assert_eq!(bytes.len(), 32);
    assert!(bytes[..30].iter().all(|b| *b == 0));
    assert_eq!(bytes[30], 1);
    assert_eq!(bytes[31], 2);
    let x = U256 { limbs: [0x1817161514131211, 0x2827262524232221, 0x3837363534333231, 0x4847464544434241] };
    let want: Vec<u8> = vec![
        0x48, 0x47, 0x46, 0x45, 0x44, 0x43, 0x42, 0x41, 0x38, 0x37, 0x36, 0x35, 0x34, 0x33, 0x32,
        0x31, 0x28, 0x27, 0x26, 0x25, 0x24, 0x23, 0x22, 0x21, 0x18, 0x17, 0x16, 0x15, 0x14, 0x13,
        0x12, 0x11,
    ];
    assert_eq!(encode_uint(&x), want);
    assert_eq!(encode_uint(&x), alloy(&x).abi_encode());
}

#[test]
fn a_bool_is_a_word_of_zero_or_one() {
    let mut want = vec![0u8; 32];
    assert_eq!(encode_bool(false), want);
    assert_eq!(encode_bool(false), false.abi_encode());
    want[31] = 1;
    assert_eq!(encode_bool(true), want);
    assert_eq!(encode_bool(true), true.abi_encode());
}

#[test]
fn a_g1_record_is_x_then_y() {
    let p = G1Point { x: U256::from_u64(1), y: U256::from_u64(2) };
    let bytes = encode_g1(&p);
    assert_eq!(bytes.len(), 64);
    assert_eq!(bytes[31], 1);
    assert_eq!(bytes[63], 2);
    let p = g1(7);
    assert_eq!(encode_g1(&p), pair(&p).abi_encode_params());
    assert_eq!(encode_g1(&p), pair(&p).abi_encode());
}

#[test]
fn a_g2_record_is_x0_x1_y0_y1() {
    let p = G2Point { x0: U256::from_u64(1), x1: U256::from_u64(2), y0: U256::from_u64(3), y1: U256::from_u64(4) };
    let bytes = encode_g2(&p);
    assert_eq!(bytes.len(), 128);
    assert_eq!(bytes[31], 1);
    assert_eq!(bytes[63], 2);
    assert_eq!(bytes[95], 3);
    assert_eq!(bytes[127], 4);
    let p = g2(11);
    assert_eq!(encode_g2(&p), quad(&p).abi_encode_params());
}

#[test]
fn tuples_of_records_are_the_records_in_order() {
    let (a, b, c) = (g1(1), g1(2), g1(3));
    let two = encode_g1_pair(&a, &b);
    assert_eq!(two.len(), 128);
    assert_eq!(two, (pair(&a), pair(&b)).abi_encode_params());
    assert_eq!(two[..64], encode_g1(&a)[..]);
    assert_eq!(two[64..], encode_g1(&b)[..]);
    let three = encode_g1_triple(&a, &b, &c);
    assert_eq!(three.len(), 192);
    assert_eq!(three, (pair(&a), pair(&b), pair(&c)).abi_encode_params());
    assert_eq!(three[128..], encode_g1(&c)[..]);
}

#[test]
fn the_pairing_vector_is_g1_g2_g1_g2() {
    let (a1, a2, b1, b2) = (g1(1), g2(2), g1(3), g2(4));
    let bytes = encode_pairing_vector(&a1, &a2, &b1, &b2);
    assert_eq!(bytes.len(), 384);
    assert_eq!(bytes, (pair(&a1), quad(&a2), pair(&b1), quad(&b2)).abi_encode_params());
}

#[test]
fn the_residue_vector_is_uint_uint_bool() {
    let (x, y) = (big(5), big(6));
    let bytes = encode_uint_uint_bool(&x, &y, true);
    assert_eq!(bytes.len(), 96);
    assert_eq!(bytes, (alloy(&x), alloy(&y), true).abi_encode_params());
    let bytes = encode_uint_uint_bool(&x, &y, false);
    assert_eq!(bytes, (alloy(&x), alloy(&y), false).abi_encode_params());
}

#[test]
fn the_empty_msm_vector_is_head_and_two_zero_lengths() {
    let product = G1Point::default();
    let bytes = encode_msm(&vec![], &vec![], &product);
    assert_eq!(bytes.len(), 192);
    let mut want = vec![0u8; 192];
    want[31] = 128; // offset of the bases
    want[63] = 160; // offset of the scalars
    assert_eq!(bytes, want);
    let empty_points: Vec<(AlloyU256, AlloyU256)> = vec![];
    let empty_scalars: Vec<AlloyU256> = vec![];
    assert_eq!(bytes, (empty_points, empty_scalars, pair(&product)).abi_encode_params());
}

#[test]
fn the_msm_vector_matches_alloy_for_several_lengths() {
    for n in [1u64, 2, 3, 5, 33] {
        let bases: Vec<G1Point> = (0..n).map(|i| g1(100 + i)).collect();
        let scalars: Vec<U256> = (0..n).map(|i| big(500 + i)).collect();
        let product = g1(9999);
        let bytes = encode_msm(&bases, &scalars, &product);
        assert_eq!(bytes.len() as u64, 192 + 96 * n);
        let b: Vec<(AlloyU256, AlloyU256)> = bases.iter().map(pair).collect();
        let s: Vec<AlloyU256> = scalars.iter().map(alloy).collect();
        assert_eq!(bytes, (b, s, pair(&product)).abi_encode_params());
    }
}

#[test]
fn the_msm_offsets_count_from_the_head() {
    let bases = vec![g1(1), g1(2)];
    let scalars = vec![big(3), big(4)];
    let bytes = encode_msm(&bases, &scalars, &g1(5));
    // offsets
    assert_eq!(bytes[31], 128);
    assert_eq!(bytes[62], 1); // 160 + 128 = 288 = 0x120
    assert_eq!(bytes[63], 0x20);
    // product
    assert_eq!(bytes[64..128], encode_g1(&g1(5))[..]);
    // length of the bases, then the bases
    assert_eq!(bytes[128 + 31], 2);
    assert_eq!(bytes[160..224], encode_g1(&g1(1))[..]);
    assert_eq!(bytes[224..288], encode_g1(&g1(2))[..]);
    // length of the scalars, then the scalars
    assert_eq!(bytes[288 + 31], 2);
    assert_eq!(bytes[320..352], encode_uint(&big(3))[..]);
    assert_eq!(bytes[352..384], encode_uint(&big(4))[..]);
    assert_eq!(bytes.len(), 384);
}

#[test]
fn msm_arrays_of_different_lengths_keep_their_own_lengths() {
    let bases = vec![g1(1)];
    let scalars = vec![big(3), big(4), big(5)];
    let bytes = encode_msm(&bases, &scalars, &g1(5));
    let b: Vec<(AlloyU256, AlloyU256)> = bases.iter().map(pair).collect();
    let s: Vec<AlloyU256> = scalars.iter().map(alloy).collect();
    assert_eq!(bytes, (b, s, pair(&g1(5))).abi_encode_params());
}

#[test]
fn a_g1_record_is_read_from_exactly_64_bytes() {
    let p = g1(42);
    let bytes = encode_g1(&p);
    assert_eq!(decode_g1(&bytes), Some(p));
    assert_eq!(decode_g1(&bytes[..63]), None);
    assert_eq!(decode_g1(&[]), None);
    let mut longer = bytes.clone();
    longer.push(0);
    assert_eq!(decode_g1(&longer), None);
    let mut two_words = vec![0u8; 64];
    two_words[31] = 1;
    two_words[63] = 2;
    assert_eq!(decode_g1(&two_words), Some(G1Point { x: U256::from_u64(1), y: U256::from_u64(2) }));
    let max = vec![0xffu8; 64];
    assert_eq!(decode_g1(&max), Some(G1Point { x: U256 { limbs: [u64::MAX; 4] }, y: U256 { limbs: [u64::MAX; 4] } }));
}
