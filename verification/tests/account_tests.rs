use blake2::{Blake2b256, Digest};
use parity_scale_codec::Encode;

use smultisig::engine::SmultisigModule;

#[test]
fn account_id_matches_direct_derivation() {
    // the derived identity equals the little-endian prefix of the BLAKE2b
    // digest of the SCALE-encoded (prefix, members, threshold) triple
    let who: Vec<u64> = vec![1, 2, 3];
    let entropy = (b"modlpy/utilisuba", who.as_slice(), 2u16).encode();
    let digest = Blake2b256::digest(entropy.as_slice());
    let expected = u64::from_le_bytes(digest[0..8].try_into().unwrap());
    assert_eq!(SmultisigModule::multi_account_id(&who, 2), expected);
}

#[test]
fn account_id_is_deterministic() {
    let who: Vec<u64> = vec![1, 2, 3, 4];
    assert_eq!(SmultisigModule::multi_account_id(&who, 3), SmultisigModule::multi_account_id(&who, 3));
}

#[test]
fn account_id_depends_on_members_and_threshold() {
    let a: Vec<u64> = vec![1, 2, 3];
    let b: Vec<u64> = vec![1, 2, 4];
    assert_ne!(SmultisigModule::multi_account_id(&a, 2), SmultisigModule::multi_account_id(&b, 2));
    assert_ne!(SmultisigModule::multi_account_id(&a, 2), SmultisigModule::multi_account_id(&a, 3));
}
