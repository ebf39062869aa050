use miden_tx_prover::account::{hash_account, account_hash_elements, AccountHeader, AccountId, Digest, Felt, FIELD_MODULUS};

fn digest(a: u64, b: u64, c: u64, d: u64) -> Digest {
    Digest::from_ints([a, b, c, d]).unwrap()
}

fn sample_header(nonce: u64) -> AccountHeader {
    AccountHeader::new(
        AccountId::from_felt(Felt::new(0x200000000000001f)),
        Felt::new(nonce),
        digest(1, 2, 3, 4),
        digest(5, 6, 7, 8),
        digest(9, 10, 11, 12),
    )
}

#[test]
fn felt_reduces_modulo_the_field() {
    assert_eq!(Felt::new(FIELD_MODULUS).as_int(), 0);
    assert_eq!(Felt::new(FIELD_MODULUS + 5).as_int(), 5);
    assert_eq!(Felt::new(u64::MAX).as_int(), u64::MAX - FIELD_MODULUS);
    assert!(Felt::from_canonical(FIELD_MODULUS).is_none());
    assert_eq!(Felt::from_canonical(7).unwrap().as_int(), 7);
}

#[test]
fn digest_rejects_non_canonical_values() {
    assert!(Digest::from_ints([0, 0, FIELD_MODULUS, 0]).is_none());
    let d = digest(1, 2, 3, FIELD_MODULUS - 1);
    assert_eq!(d.as_ints(), [1, 2, 3, FIELD_MODULUS - 1]);
    assert!(d == digest(1, 2, 3, FIELD_MODULUS - 1));
    assert!(d != digest(1, 2, 3, 4));
}

#[test]
fn header_accessors_return_parts() {
    let h = sample_header(3);
    assert_eq!(h.id().as_felt().as_int(), 0x200000000000001f);
    assert_eq!(h.nonce().as_int(), 3);
    assert_eq!(h.vault_root().as_ints(), [1, 2, 3, 4]);
    assert_eq!(h.storage_commitment().as_ints(), [5, 6, 7, 8]);
    assert_eq!(h.code_commitment().as_ints(), [9, 10, 11, 12]);
    assert!(h == sample_header(3));
    assert!(h != sample_header(4));
}

#[test]
fn hash_input_layout() {
    let h = sample_header(3);
    let e = account_hash_elements(h.id(), h.nonce(), h.vault_root(), h.storage_commitment(), h.code_commitment());
    assert_eq!(e, vec![0x200000000000001f, 0, 0, 3, 1, 2, 3, 4, 5, 6, 7, 8, 9, 10, 11, 12]);
}

#[test]
fn header_hash_is_the_account_commitment() {
    let h = sample_header(3);
    let a = h.hash();
    let b = hash_account(h.id(), h.nonce(), h.vault_root(), h.storage_commitment(), h.code_commitment());
    assert!(a == b);
    assert!(a == sample_header(3).hash());
    // The digest is not the input handed back.
    assert_ne!(a.as_ints(), [0x200000000000001f, 0, 0, 3]);
    assert_ne!(a.as_ints(), [1, 2, 3, 4]);
    // A different nonce commits to a different state.
    assert!(a != sample_header(4).hash());
    for v in a.as_ints() {
        assert!(v < FIELD_MODULUS);
    }
}
