use dark_perps::circuits::{deposit_circuit, view_balance, AppState};
use dark_perps::engine::HomomorphicEngine;
use dark_perps::handlers::get_ciphertext_handler;
use dark_perps::tfhe_engine::TfheEngine;
use tfhe::shortint::parameters::{
    DecompositionBaseLog, DecompositionLevelCount, DynamicDistribution, GlweDimension,
    LweDimension, PolynomialSize, StandardDev,
};
use tfhe::shortint::{
    CarryModulus, CiphertextModulus, ClassicPBSParameters, EncryptionKeyChoice, MaxNoiseLevel,
    MessageModulus,
};

/// Keys over deliberately tiny, insecure parameters, so that evaluation is
/// fast enough for a test.
fn engine() -> TfheEngine {
    let params = ClassicPBSParameters {
        lwe_dimension: LweDimension(1),
        glwe_dimension: GlweDimension(1),
        polynomial_size: PolynomialSize(256),
        lwe_noise_distribution: DynamicDistribution::new_gaussian_from_std_dev(StandardDev(
            0.000007069849454709433,
        )),
        glwe_noise_distribution: DynamicDistribution::new_gaussian_from_std_dev(StandardDev(
            0.00000000000000029403601535432533,
        )),
        pbs_base_log: DecompositionBaseLog(23),
        pbs_level: DecompositionLevelCount(1),
        ks_level: DecompositionLevelCount(5),
        ks_base_log: DecompositionBaseLog(3),
        message_modulus: MessageModulus(4),
        carry_modulus: CarryModulus(4),
        max_noise_level: MaxNoiseLevel::new(5),
        log2_p_fail: -40.,
        ciphertext_modulus: CiphertextModulus::new_native(),
        encryption_key_choice: EncryptionKeyChoice::Big,
    };
    let config = tfhe::ConfigBuilder::with_custom_parameters(params, None).build();
    TfheEngine::new(tfhe::ClientKey::generate(config))
}

#[test]
fn tfhe_round_trip_and_arithmetic() {
    let e = engine();
    let a = e.encrypt(100);
    let b = e.encrypt(37);
    assert_eq!(e.decrypt(&a), 100);
    assert_eq!(e.decrypt(&e.add(&a, &b)), 137);
    assert_eq!(e.decrypt(&e.sub(&a, &b)), 63);
    assert_eq!(e.decrypt(&e.sub(&b, &a)), 37u64.wrapping_sub(100));
    assert!(e.decrypt_flag(&e.ge(&a, &b)));
    assert!(!e.decrypt_flag(&e.ge(&b, &a)));
    assert!(!e.decrypt_flag(&e.eq(&a, &b)));
}

#[test]
fn tfhe_multiplication() {
    let e = engine();
    let (m, over) = e.overflowing_mul(&e.encrypt(100), &e.encrypt(10));
    assert_eq!(e.decrypt(&m), 1000);
    assert!(!e.decrypt_flag(&over));
    assert!(e.decrypt_flag(&e.flag_and(&e.eq(&m, &e.encrypt(1000)), &e.flag_not(&over))));
    let big = e.encrypt(1u64 << 32);
    let (_, over) = e.overflowing_mul(&big, &big);
    assert!(e.decrypt_flag(&over));
}

#[test]
fn tfhe_deposits_accumulate() {
    let mut s: AppState<TfheEngine> = AppState::new();
    assert!(s.install_engine(engine()));
    assert!(s.create_account(1));
    let k1 = [1u8; 32];
    let k2 = [2u8; 32];
    assert_eq!(deposit_circuit(&mut s, 1, 100, k1), Ok(()));
    assert_eq!(deposit_circuit(&mut s, 1, 50, k2), Ok(()));
    assert_eq!(*s.user_cache().get_balance(1).unwrap(), k1);
    assert_eq!(view_balance(&s, 1), Ok(150));
}

#[test]
fn tfhe_ciphertext_is_served_encoded() {
    let mut s: AppState<TfheEngine> = AppState::new();
    assert!(s.install_engine(engine()));
    let k = [7u8; 32];
    assert_eq!(s.store_encrypted(3, 42, k), Ok(()));
    let (code, body) = get_ciphertext_handler(&s, k);
    assert_eq!(code, 200);
    assert!(!body.ciphertext.is_empty());
    let (code, body) = get_ciphertext_handler(&s, [8u8; 32]);
    assert_eq!(code, 404);
    assert!(body.ciphertext.is_empty());
}
