use wallet_core::bsgs::BabyStepGiantStep;
use wallet_core::elgamal::{aggregate, encrypt_amount_with_fixed_randomness, PublicKey, SecretKey};
use wallet_core::group::GroupElement;
use wallet_core::prf::PrfKey;

fn test_key(generator: u64, scalar: u64) -> SecretKey {
    SecretKey { generator: GroupElement { v: generator }, scalar }
}

#[test]
fn group_addition_wraps() {
    let a = GroupElement { v: u64::MAX };
    let b = GroupElement { v: 2 };
    assert_eq!(a.plus_point(&b).v, 1);
    assert_eq!(a.plus_point(&a.inverse_point()).v, 0);
    assert_eq!(a.minus_point(&a).v, 0);
}

#[test]
fn scalar_multiple_of_generator() {
    let g = GroupElement::one_point();
    assert_eq!(g.mul_by_scalar(41).v, 41);
    let h = GroupElement { v: 3 };
    assert_eq!(h.mul_by_scalar(5).v, 15);
}

#[test]
fn decrypt_recovers_exponent_point() {
    let sk = test_key(7, 1234567);
    let pk = PublicKey::from_secret(&sk);
    let c = pk.encrypt_in_exponent(42, 991);
    let m = sk.decrypt(&c);
    // the decrypted element is 42 · generator
    assert_eq!(m.value.v, sk.generator.mul_by_scalar(42).v);
}

#[test]
fn fixed_randomness_is_deterministic_and_auditable() {
    let gen = GroupElement { v: 9 };
    let c1 = encrypt_amount_with_fixed_randomness(&gen, 500);
    let c2 = encrypt_amount_with_fixed_randomness(&gen, 500);
    assert_eq!(c1, c2);
    assert_eq!(c1.c0.v, 0);
    assert_eq!(c1.c1.v, 9u64.wrapping_mul(500));
}

#[test]
fn discrete_log_recovers_small_exponents() {
    let base = GroupElement { v: 5 };
    let table = BabyStepGiantStep::new(&base, 32);
    for x in [0u64, 1, 2, 31, 32, 33, 100, 1000, 4095] {
        let v = base.mul_by_scalar(x);
        assert_eq!(table.discrete_log(&v), x);
    }
}

#[test]
fn discrete_log_full_matches_table() {
    let base = GroupElement::one_point();
    let v = base.mul_by_scalar(777);
    assert_eq!(BabyStepGiantStep::discrete_log_full(&base, 10, &v), 777);
}

#[test]
fn decrypt_exponent_slow_matches() {
    let sk = test_key(3, 55);
    let pk = PublicKey::from_secret(&sk);
    let c = pk.encrypt_in_exponent(19, 7);
    assert_eq!(sk.decrypt_exponent_slow(&c), 19);
}

#[test]
fn aggregate_then_decrypt_yields_sum() {
    // encrypting 100 then 50 under the same key, aggregating, then
    // decrypting via the table yields 150
    let sk = test_key(11, 987654321);
    let pk = PublicKey::from_secret(&sk);
    let table = BabyStepGiantStep::new(&sk.generator, 64);
    let ca = pk.encrypt_amount(100);
    let cb = pk.encrypt_amount(50);
    let combined = aggregate(&ca, &cb);
    assert_eq!(sk.decrypt_exponent(&combined, &table), 150);
}

#[test]
fn homomorphism_matches_direct_encryption() {
    let sk = test_key(13, 424242);
    let pk = PublicKey::from_secret(&sk);
    let table = BabyStepGiantStep::new(&sk.generator, 16);
    let ca = pk.encrypt_in_exponent(30, 5);
    let cb = pk.encrypt_in_exponent(12, 9);
    let direct = pk.encrypt_in_exponent(42, 1000);
    let combined = aggregate(&ca, &cb);
    assert_eq!(
        sk.decrypt_exponent(&combined, &table),
        sk.decrypt_exponent(&direct, &table)
    );
}

#[test]
fn prf_exponent_is_deterministic() {
    let key = PrfKey { key: 123456789 };
    let a = key.prf_exponent(7);
    let b = key.prf_exponent(7);
    assert_eq!(a, b);
    assert_eq!(a, Some(123456789 + 7));
}

#[test]
fn prf_exponent_distinct_per_account() {
    let key = PrfKey { key: 42 };
    let e0 = key.prf_exponent(0).unwrap();
    let e1 = key.prf_exponent(1).unwrap();
    assert_ne!(e0, e1);
}

#[test]
fn prf_out_of_domain_is_skipped() {
    let key = PrfKey { key: 0u64.wrapping_sub(5) };
    assert!(key.prf_exponent(5).is_none());
    assert!(key.prf_exponent(4).is_some());
    let gen = GroupElement::one_point();
    assert!(key.prf(&gen, 5).is_none());
}

#[test]
fn prf_registration_ids_differ() {
    let key = PrfKey { key: 1000 };
    let gen = GroupElement { v: 17 };
    let r0 = key.prf(&gen, 0).unwrap();
    let r1 = key.prf(&gen, 1).unwrap();
    assert_ne!(r0, r1);
}

#[test]
fn generate_all_produces_generator() {
    let sk = SecretKey::generate_all();
    assert_eq!(sk.generator.v % 2, 1);
}

#[test]
fn discrete_log_with_smallest_table() {
    let base = GroupElement::one_point();
    let table = BabyStepGiantStep::new(&base, 1);
    for x in [0u64, 1, 2, 9] {
        assert_eq!(table.discrete_log(&base.mul_by_scalar(x)), x);
    }
}
