use rs_srp::crypto::derive_psk;

#[test]
fn psk_is_deterministic_and_password_dependent() {
    let a = derive_psk("hunter2").unwrap();
    let b = derive_psk("hunter2").unwrap();
    let c = derive_psk("hunter3").unwrap();
    assert_eq!(a, b, "same password must yield the same PSK");
    assert_ne!(a, c, "different passwords must yield different PSKs");
}

#[test]
fn psk_is_argon2id_with_the_fixed_salt_and_parameters() {
    let params = argon2::Params::new(64 * 1024, 3, 1, Some(32)).unwrap();
    let context =
        argon2::Argon2::new(argon2::Algorithm::Argon2id, argon2::Version::V0x13, params);
    let mut expected = [0u8; 32];
    context.hash_password_into("gehëim".as_bytes(), b"rs_srp/noise-psk/v1", &mut expected).unwrap();
    assert_eq!(derive_psk("gehëim").unwrap(), expected);
}

#[test]
fn the_empty_password_has_a_psk() {
    assert!(derive_psk("").is_ok());
}
