//! Derived multisig account identifiers: the member list and a threshold
//! are hashed into one opaque account identity, so equal groups always map
//! to the same derived account.

use blake2::Digest;
use parity_scale_codec::Encode;

use vstd::prelude::*;

verus! {

/// What `parity_scale_codec::Encode::encode` returns for a
/// `(prefix, members, threshold)` triple: a function of the encoded values
/// alone.
pub uninterp spec fn scale_entropy(prefix: Seq<u8>, who: Seq<u64>, threshold: u16) -> Seq<u8>;

/// What a 256-bit BLAKE2b digest of `data` is: a function of `data` alone.
pub uninterp spec fn blake2b256(data: Seq<u8>) -> Seq<u8>;

/// Relies on `parity_scale_codec::Encode::encode` for
/// `(&[u8; 16], &[u64], u16)`: SCALE encoding is deterministic in the
/// encoded values. The slice's compact length prefix holds at most
/// `u32::MAX`, so longer member lists are refused by the encoder and are
/// excluded here.
#[verifier::external_body]
fn scale_encode_entropy(prefix: &[u8; 16], who: &Vec<u64>, threshold: u16) -> (r: Vec<u8>)
    requires
        who@.len() <= u32::MAX as nat,
    ensures
        r@ == scale_entropy(prefix@, who@, threshold),
{
    (prefix, who.as_slice(), threshold).encode()
}

/// Relies on `blake2::Blake2b256` through `Digest::digest`: the digest
/// depends on the input bytes alone and is 32 bytes long.
#[verifier::external_body]
fn blake2_256_digest(data: &Vec<u8>) -> (r: Vec<u8>)
    ensures
        r@ == blake2b256(data@),
        r@.len() == 32,
{
    blake2::Blake2b256::digest(data.as_slice()).to_vec()
}

/// The domain-separation prefix under which multisig accounts are derived
/// (the bytes of "modlpy/utilisuba").
pub open spec fn multisig_prefix() -> Seq<u8> {
    seq![
        0x6du8,
        0x6fu8,
        0x64u8,
        0x6cu8,
        0x70u8,
        0x79u8,
        0x2fu8,
        0x75u8,
        0x74u8,
        0x69u8,
        0x6cu8,
        0x69u8,
        0x73u8,
        0x75u8,
        0x62u8,
        0x61u8,
    ]
}

/// The unsigned integer read little-endian from the first eight bytes.
pub open spec fn le_bytes_to_u64(s: Seq<u8>) -> nat {
    (s[0] as nat) + 256 * ((s[1] as nat) + 256 * ((s[2] as nat) + 256 * ((s[3] as nat) + 256 * ((
    s[4] as nat) + 256 * ((s[5] as nat) + 256 * ((s[6] as nat) + 256 * (s[7] as nat)))))))
}

impl crate::engine::SmultisigModule {
    /// Derive the account identity shared by a member group: hash the
    /// prefixed, SCALE-encoded `(members, threshold)` pair and decode the
    /// identity from the digest. An account identity is decoded from a
    /// zero-padded byte stream, which for a 64-bit identity reads exactly
    /// the first eight digest bytes, little-endian. The member list must
    /// fit the encoding's compact length prefix (a machine limit; any group
    /// the engine admits is far below it).
    pub fn multi_account_id(who: &Vec<u64>, threshold: u16) -> (r: u64)
        requires
            who@.len() <= u32::MAX as nat,
        ensures
            r as nat == le_bytes_to_u64(
                blake2b256(scale_entropy(multisig_prefix(), who@, threshold)),
            ),
    {
        let prefix: [u8; 16] = [
            0x6du8,
            0x6fu8,
            0x64u8,
            0x6cu8,
            0x70u8,
            0x79u8,
            0x2fu8,
            0x75u8,
            0x74u8,
            0x69u8,
            0x6cu8,
            0x69u8,
            0x73u8,
            0x75u8,
            0x62u8,
            0x61u8,
        ];
        proof {
            assert(prefix@ =~= multisig_prefix());
        }
        let entropy = scale_encode_entropy(&prefix, who, threshold);
        let digest = blake2_256_digest(&entropy);
        let t7: u64 = digest[7] as u64;
        let t6: u64 = (digest[6] as u64) + 256 * t7;
        let t5: u64 = (digest[5] as u64) + 256 * t6;
        let t4: u64 = (digest[4] as u64) + 256 * t5;
        let t3: u64 = (digest[3] as u64) + 256 * t4;
        let t2: u64 = (digest[2] as u64) + 256 * t3;
        let t1: u64 = (digest[1] as u64) + 256 * t2;
        let t0: u64 = (digest[0] as u64) + 256 * t1;
        t0
    }
}

} // verus!
