use alloy::primitives::U256 as AlloyU256;
use alloy::sol_types::SolValue;
use ark_bn254::{Fq as ArkFq, Fr as ArkFr, G1Affine as ArkG1, G2Affine as ArkG2};
use ark_ec::{AffineRepr, CurveGroup};
use ark_ff::{Field, PrimeField as ArkPrimeField};
use ark_std::rand::rngs::StdRng;
use ark_std::rand::SeedableRng;
use ark_std::UniformRand;
use bn254_contract_adapter::action::{answer, run, Action, MAX_MSM_COUNT};
use bn254_contract_adapter::generators::GenError;

fn args(list: &[&str]) -> Vec<String> {
    list.iter().map(|s| s.to_string()).collect()
}

fn line(action: Action, list: &[&str]) -> String {
    run(action, &args(list)).unwrap().unwrap()
}

fn word(x: ArkFq) -> AlloyU256 {
    AlloyU256::from_limbs(x.into_bigint().0)
}

fn scalar_word(x: ArkFr) -> AlloyU256 {
    AlloyU256::from_limbs(x.into_bigint().0)
}

fn record(p: ArkG1) -> (AlloyU256, AlloyU256) {
    if p.is_zero() {
        (AlloyU256::ZERO, AlloyU256::ZERO)
    } else {
        (word(p.x), word(p.y))
    }
}

fn hex(bytes: &[u8]) -> String {
    bytes.iter().map(|b| format!("{:02x}", b)).collect()
}

const ALL: [Action; 11] = [
    Action::Bn254G2Gen,
    Action::Bn254G1FromScalar,
    Action::Bn254G1IsOnCurve,
    Action::Bn254PairingProd2,
    Action::Bn254MSM,
    Action::Bn254ScalarInvOp,
    Action::Bn254ScalarNegOp,
    Action::Bn254G1AddOp,
    Action::Bn254G1NegOp,
    Action::Bn254Qr,
    Action::TestOnly,
];

#[test]
fn g1_add_with_seed_zero_is_three_records_and_repeats() {
    let rng = &mut StdRng::seed_from_u64(0);
    let a = ArkG1::rand(rng);
    let b = ArkG1::rand(rng);
    let sum = (a + b).into_affine();
    let want = (record(a), record(b), record(sum)).abi_encode_params();
    assert_eq!(want.len(), 192);
    let first = line(Action::Bn254G1AddOp, &["0"]);
    assert_eq!(first.len(), 384);
    assert_eq!(first, hex(&want));
    assert_eq!(first, alloy::hex::encode(&want));
    let second = line(Action::Bn254G1AddOp, &["0"]);
    assert_eq!(first, second);
    assert_eq!(answer(Action::Bn254G1AddOp, &args(&["0"])), Ok(Some(want)));
}

#[test]
fn the_line_is_lower_case_hex_without_prefix() {
    let text = line(Action::Bn254ScalarNegOp, &["1"]);
    assert_eq!(text.len(), 64);
    assert!(text.chars().all(|c| c.is_ascii_digit() || ('a'..='f').contains(&c)));
    assert!(!text.starts_with("0x"));
    // r - 1
    assert_eq!(text, "30644e72e131a029b85045b68181585d2833e84879b9709143e1f593f0000000");
}

#[test]
fn every_seeded_action_repeats_its_line() {
    for action in [Action::Bn254PairingProd2, Action::Bn254G1AddOp, Action::Bn254G1NegOp, Action::Bn254Qr] {
        for seed in ["0", "1", "2", "18446744073709551615"] {
            assert_eq!(run(action, &args(&[seed])), run(action, &args(&[seed])));
        }
        assert_ne!(run(action, &args(&["3"])), run(action, &args(&["4"])));
    }
    for action in [Action::Bn254G1FromScalar, Action::Bn254ScalarInvOp, Action::Bn254ScalarNegOp] {
        assert_eq!(run(action, &args(&["123456789"])), run(action, &args(&["123456789"])));
    }
    assert_eq!(run(Action::Bn254G2Gen, &args(&[])), run(Action::Bn254G2Gen, &args(&[])));
}

#[test]
fn g2_gen_takes_no_argument_and_ignores_any() {
    let g = ArkG2::generator();
    let want = (word(g.x.c0), word(g.x.c1), word(g.y.c0), word(g.y.c1)).abi_encode_params();
    assert_eq!(line(Action::Bn254G2Gen, &[]), hex(&want));
    assert_eq!(line(Action::Bn254G2Gen, &["1"]), hex(&want));
    assert_eq!(line(Action::Bn254G2Gen, &["a", "b"]), hex(&want));
    assert_eq!(line(Action::Bn254G2Gen, &[]).len(), 256);
}

#[test]
fn test_only_prints_nothing() {
    assert_eq!(run(Action::TestOnly, &args(&[])), Ok(None));
    assert_eq!(run(Action::TestOnly, &args(&["x", "y"])), Ok(None));
    assert_eq!(answer(Action::TestOnly, &args(&[])), Ok(None));
}

#[test]
fn every_other_action_wants_exactly_one_argument() {
    for action in ALL {
        if action == Action::Bn254G2Gen || action == Action::TestOnly {
            continue;
        }
        assert_eq!(run(action, &args(&[])), Err(GenError::ArgumentCount));
        assert_eq!(run(action, &args(&["1", "2"])), Err(GenError::ArgumentCount));
        assert_eq!(run(action, &args(&["1", "2", "3"])), Err(GenError::ArgumentCount));
    }
}

#[test]
fn seeds_and_counts_are_decimal_u64() {
    for action in [Action::Bn254PairingProd2, Action::Bn254MSM, Action::Bn254G1AddOp, Action::Bn254G1NegOp, Action::Bn254Qr] {
        for bad in ["", "x", "-1", "1.5", " 1", "0x10", "18446744073709551616"] {
            assert_eq!(run(action, &args(&[bad])), Err(GenError::MalformedInteger));
        }
    }
    assert_eq!(line(Action::Bn254G1NegOp, &["007"]), line(Action::Bn254G1NegOp, &["7"]));
}

#[test]
fn scalars_are_256_bit_integers() {
    for action in [Action::Bn254G1FromScalar, Action::Bn254ScalarInvOp, Action::Bn254ScalarNegOp] {
        for bad in ["x", "-1", "12 3", "1.5"] {
            assert_eq!(run(action, &args(&[bad])), Err(GenError::MalformedInteger));
        }
        // 2^256 does not fit
        let too_large = "115792089237316195423570985008687907853269984665640564039457584007913129639936";
        assert_eq!(run(action, &args(&[too_large])), Err(GenError::MalformedInteger));
    }
    // 2^256 - 1 fits and is reduced
    let largest = "115792089237316195423570985008687907853269984665640564039457584007913129639935";
    let want = -ArkFr::from_le_bytes_mod_order(&[0xff; 32]);
    assert_eq!(line(Action::Bn254ScalarNegOp, &[largest]), hex(&scalar_word(want).abi_encode()));
}

#[test]
fn g1_from_scalar_reads_a_decimal_scalar() {
    let p = (ArkG1::generator() * ArkFr::from(5u64)).into_affine();
    assert_eq!(line(Action::Bn254G1FromScalar, &["5"]), hex(&record(p).abi_encode_params()));
    let one = line(Action::Bn254G1FromScalar, &["1"]);
    assert_eq!(
        one,
        "00000000000000000000000000000000000000000000000000000000000000010000000000000000000000000000000000000000000000000000000000000002"
    );
    assert_eq!(line(Action::Bn254G1FromScalar, &["0"]), "0".repeat(128));
    let s = "21888242871839275222246405745257275088548364400416034343698204186575808495616";
    let minus_g = -ArkG1::generator();
    assert_eq!(line(Action::Bn254G1FromScalar, &[s]), hex(&record(minus_g).abi_encode_params()));
}

#[test]
fn scalar_inverse_action() {
    assert_eq!(run(Action::Bn254ScalarInvOp, &args(&["0"])), Err(GenError::NotInvertible));
    let r = "21888242871839275222246405745257275088548364400416034343698204186575808495617";
    assert_eq!(run(Action::Bn254ScalarInvOp, &args(&[r])), Err(GenError::NotInvertible));
    let mut want = "0".repeat(63);
    want.push('1');
    assert_eq!(line(Action::Bn254ScalarInvOp, &["1"]), want);
    let inv = ArkFr::from(3u64).inverse().unwrap();
    assert_eq!(line(Action::Bn254ScalarInvOp, &["3"]), hex(&scalar_word(inv).abi_encode()));
}

#[test]
fn on_curve_action_reads_a_hex_record() {
    let mut yes = "0".repeat(63);
    yes.push('1');
    let no = "0".repeat(64);
    let g = "00000000000000000000000000000000000000000000000000000000000000010000000000000000000000000000000000000000000000000000000000000002";
    assert_eq!(line(Action::Bn254G1IsOnCurve, &[g]), yes);
    // with prefix, and in upper case
    let p = (ArkG1::generator() * ArkFr::from(99u64)).into_affine();
    let text = hex(&record(p).abi_encode_params());
    assert_eq!(line(Action::Bn254G1IsOnCurve, &[&text]), yes);
    assert_eq!(line(Action::Bn254G1IsOnCurve, &[&format!("0x{}", text)]), yes);
    assert_eq!(line(Action::Bn254G1IsOnCurve, &[&format!("0X{}", text)]), yes);
    assert_eq!(line(Action::Bn254G1IsOnCurve, &[&text.to_uppercase()]), yes);
    // the identity
    assert_eq!(line(Action::Bn254G1IsOnCurve, &[&"0".repeat(128)]), yes);
    // (1, 1)
    let off = "00000000000000000000000000000000000000000000000000000000000000010000000000000000000000000000000000000000000000000000000000000001";
    assert_eq!(line(Action::Bn254G1IsOnCurve, &[off]), no);
}

#[test]
fn on_curve_action_rejects_bad_text_and_bad_records() {
    let g = "00000000000000000000000000000000000000000000000000000000000000010000000000000000000000000000000000000000000000000000000000000002";
    for bad in ["0", "xyz0", "0g", "123", &g[1..], "0x1"] {
        assert_eq!(run(Action::Bn254G1IsOnCurve, &args(&[bad])), Err(GenError::MalformedHex));
    }
    for bad in ["", "0x", "00", &g[2..], &format!("{}00", g), &format!("0x{}", &g[..126])] {
        assert_eq!(run(Action::Bn254G1IsOnCurve, &args(&[bad])), Err(GenError::MalformedRecord));
    }
}

#[test]
fn negation_action_writes_the_point_and_its_negative() {
    let rng = &mut StdRng::seed_from_u64(11);
    let a = ArkG1::rand(rng);
    let want = (record(a), record(-a)).abi_encode_params();
    assert_eq!(line(Action::Bn254G1NegOp, &["11"]), hex(&want));
    assert_eq!(want.len(), 128);
}

#[test]
fn residue_action_writes_element_root_and_flag() {
    for seed in 0u64..12 {
        let rng = &mut StdRng::seed_from_u64(seed);
        let x = ArkFq::rand(rng);
        let (a, is_qr) = match x.sqrt() {
            Some(a) => {
                if a.into_bigint() > ArkFq::MODULUS_MINUS_ONE_DIV_TWO {
                    (-a, true)
                } else {
                    (a, true)
                }
            }
            None => (ArkFq::from(0u64), false),
        };
        let want = (word(x), word(a), is_qr).abi_encode_params();
        assert_eq!(line(Action::Bn254Qr, &[&seed.to_string()]), hex(&want));
    }
}

#[test]
fn pairing_action_is_four_records() {
    let text = line(Action::Bn254PairingProd2, &["1"]);
    assert_eq!(text.len(), 2 * (64 + 128 + 64 + 128));
    let text = line(Action::Bn254PairingProd2, &["2"]);
    assert_eq!(text.len(), 2 * (64 + 128 + 64 + 128));
}

#[test]
fn msm_action_lays_out_two_arrays() {
    let mut want = vec![0u8; 192];
    want[31] = 128;
    want[63] = 160;
    assert_eq!(line(Action::Bn254MSM, &["0"]), hex(&want));
    for count in [1usize, 3, 10] {
        let bytes = answer(Action::Bn254MSM, &args(&[&count.to_string()])).unwrap().unwrap();
        assert_eq!(bytes.len(), 192 + 96 * count);
        let decoded = <(Vec<(AlloyU256, AlloyU256)>, Vec<AlloyU256>, (AlloyU256, AlloyU256))>::abi_decode_params(&bytes).unwrap();
        assert_eq!(decoded.0.len(), count);
        assert_eq!(decoded.1.len(), count);
        let mut sum = ark_bn254::G1Projective::default();
        for (b, s) in decoded.0.iter().zip(decoded.1.iter()) {
            let p = ArkG1::new_unchecked(ark_ff::BigInt(b.0.into_limbs()).into(), ark_ff::BigInt(b.1.into_limbs()).into());
            assert!(p.is_on_curve());
            sum += p * ArkFr::from(ark_ff::BigInt(s.into_limbs()));
        }
        assert_eq!(decoded.2, record(sum.into_affine()));
    }
}

#[test]
fn msm_action_refuses_a_count_it_cannot_lay_out() {
    let too_many = (MAX_MSM_COUNT + 1).to_string();
    assert_eq!(run(Action::Bn254MSM, &args(&[&too_many])), Err(GenError::TooLong));
    assert_eq!(run(Action::Bn254MSM, &args(&["18446744073709551615"])), Err(GenError::TooLong));
    assert_eq!(MAX_MSM_COUNT, (u64::MAX - 160) / 64);
}

#[test]
fn actions_are_ordered_as_declared() {
    for i in 0..ALL.len() {
        for j in 0..ALL.len() {
            assert_eq!(ALL[i] < ALL[j], i < j);
            assert_eq!(ALL[i] == ALL[j], i == j);
        }
    }
}

#[test]
fn a_seed_may_carry_a_plus_sign() {
    assert_eq!(line(Action::Bn254G1NegOp, &["+7"]), line(Action::Bn254G1NegOp, &["7"]));
    assert_eq!(line(Action::Bn254Qr, &["+0"]), line(Action::Bn254Qr, &["0"]));
    assert_eq!(line(Action::Bn254Qr, &["0000000000000000000000000000012"]), line(Action::Bn254Qr, &["12"]));
    for bad in ["+", "++1", "+-1", "1+", "１２"] {
        assert_eq!(run(Action::Bn254Qr, &args(&[bad])), Err(GenError::MalformedInteger));
    }
    assert_eq!(run(Action::Bn254MSM, &args(&["+"])), Err(GenError::MalformedInteger));
}

#[test]
fn hex_text_with_characters_outside_ascii_is_rejected() {
    for bad in ["é", "é0", "0xé", "ｆｆ"] {
        assert_eq!(run(Action::Bn254G1IsOnCurve, &args(&[bad])), Err(GenError::MalformedHex));
    }
}
