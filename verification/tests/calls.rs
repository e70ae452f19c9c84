use sudo_ops::account::{sequence_query, sudo_account, AccountId};
use sudo_ops::endpoint::ConfigurationError;
use sudo_ops::call::{
    build_call, build_set_compute, build_set_storage, describe_call, AdministrativeCall, FixedU64,
    GluttonCall, LoadKind,
};

#[test]
fn storage_call_carries_value() {
    let call = build_set_storage(1_400_000_000);
    assert_eq!(
        call,
        AdministrativeCall { call: GluttonCall::SetStorage { storage: FixedU64(1_400_000_000) } }
    );
    assert_eq!(call.kind(), LoadKind::Storage);
    assert_eq!(call.value(), 1_400_000_000);
}

#[test]
fn compute_call_carries_value() {
    let call = build_set_compute(500_000_000);
    assert_eq!(
        call,
        AdministrativeCall { call: GluttonCall::SetCompute { compute: FixedU64(500_000_000) } }
    );
    assert_eq!(call.kind(), LoadKind::Compute);
    assert_eq!(call.value(), 500_000_000);
}

#[test]
fn builders_take_any_value() {
    for value in [0u64, 1, 999_999_999, 1_000_000_000, u64::MAX] {
        assert_eq!(build_set_storage(value).value(), value);
        assert_eq!(build_set_compute(value).value(), value);
    }
}

#[test]
fn equal_values_give_equal_calls() {
    assert_eq!(build_set_storage(7), build_set_storage(7));
    assert_eq!(build_set_compute(7), build_set_compute(7));
    assert_eq!(build_call(LoadKind::Storage, 7), build_set_storage(7));
    assert_eq!(build_call(LoadKind::Compute, 7), build_set_compute(7));
}

#[test]
fn different_values_give_different_calls() {
    assert_ne!(build_set_storage(7), build_set_storage(8));
    assert_ne!(build_set_compute(7), build_set_compute(8));
}

#[test]
fn storage_call_is_never_a_compute_call() {
    assert_ne!(build_set_storage(7), build_set_compute(7));
    assert_ne!(build_set_storage(7).kind(), build_set_compute(7).kind());
}

#[test]
fn calls_are_described_as_submitted() {
    assert_eq!(describe_call(build_set_storage(1_400_000_000)), "set_storage { storage: 1400000000 }");
    assert_eq!(describe_call(build_set_compute(0)), "set_compute { compute: 0 }");
    assert_eq!(
        describe_call(build_set_compute(u64::MAX)),
        "set_compute { compute: 18446744073709551615 }"
    );
}

#[test]
fn sequence_query_names_method_and_encodes_account() {
    let mut bytes = [0u8; 32];
    for (i, byte) in bytes.iter_mut().enumerate() {
        *byte = (i as u8) * 7 + 1;
    }
    let query = sequence_query(&AccountId { bytes });
    assert_eq!(query.method, "AccountNonceApi_account_nonce");
    assert_eq!(query.params, bytes.to_vec());
    assert_eq!(query.params.len(), 32);
}

const ALICE: [u8; 32] = [
    0xd4, 0x35, 0x93, 0xc7, 0x15, 0xfd, 0xd3, 0x1c, 0x61, 0x14, 0x1a, 0xbd, 0x04, 0xa9, 0x9f, 0xd6,
    0x82, 0x2c, 0x85, 0x58, 0x85, 0x4c, 0xcd, 0xe3, 0x9a, 0x56, 0x84, 0xe7, 0xa5, 0x6d, 0xa2, 0x7d,
];

const BOB: [u8; 32] = [
    0x8e, 0xaf, 0x04, 0x15, 0x16, 0x87, 0x73, 0x63, 0x26, 0xc9, 0xfe, 0xa1, 0x7e, 0x25, 0xfc, 0x52,
    0x87, 0x61, 0x36, 0x93, 0xc9, 0x12, 0x90, 0x9c, 0xb2, 0x26, 0xaa, 0x47, 0x94, 0xf2, 0x6a, 0x48,
];

#[test]
fn account_of_development_keys() {
    assert_eq!(sudo_account("//Alice"), Ok(AccountId { bytes: ALICE }));
    assert_eq!(sudo_account("//Bob"), Ok(AccountId { bytes: BOB }));
}

#[test]
fn account_of_hexadecimal_seed() {
    assert_eq!(
        sudo_account("0xe5be9a5092b81bca64be81d212e7f2f9eba183bb7a90954f7b76361f6edb5c0a"),
        Ok(AccountId { bytes: ALICE })
    );
}

#[test]
fn account_is_the_same_for_the_same_seed() {
    assert_eq!(sudo_account("//Alice//stash"), sudo_account("//Alice//stash"));
    assert_ne!(sudo_account("//Alice//stash"), sudo_account("//Alice"));
}

#[test]
fn seed_that_is_no_key_is_refused() {
    assert_eq!(sudo_account("0x1234"), Err(ConfigurationError::InvalidSeed));
    assert_eq!(sudo_account("not a mnemonic phrase"), Err(ConfigurationError::InvalidSeed));
    assert_eq!(sudo_account("0xzz"), Err(ConfigurationError::InvalidSeed));
}
