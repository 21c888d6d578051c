//! SHA3-256 as the `tiny-keccak` and `sha3` crates compute it.
use vstd::prelude::*;
use tiny_keccak::Sha3;

verus! {

#[verifier::external_type_specification]
#[verifier::external_body]
pub struct ExSha3(Sha3);

/// The bytes a `tiny_keccak::Sha3` hasher has absorbed so far.
pub uninterp spec fn sha3_absorbed(h: Sha3) -> Seq<u8>;

/// The FIPS-202 SHA3-256 digest of `data` (32 bytes). Both `tiny_keccak::Sha3::v256`
/// and the `sha3` crate's `Sha3_256` are documented as computing this same standard hash.
pub uninterp spec fn sha3_256(data: Seq<u8>) -> Seq<u8>;

/// `tiny_keccak::Sha3::v256`: a fresh SHA3-256 hasher that has absorbed nothing.
#[verifier::external_body]
pub(crate) fn sha3_v256() -> (h: Sha3)
    ensures
        sha3_absorbed(h) == Seq::<u8>::empty(),
{
    Sha3::v256()
}

/// `tiny_keccak::Hasher::update` on a `Sha3`: absorbs `input` after what came before.
#[verifier::external_body]
pub(crate) fn sha3_update(h: &mut Sha3, input: &[u8])
    ensures
        sha3_absorbed(*final(h)) == sha3_absorbed(*old(h)) + input@,
{
    tiny_keccak::Hasher::update(h, input)
}

/// `tiny_keccak::Hasher::finalize` on a SHA3-256 hasher, into a 32-byte buffer:
/// the buffer then holds the SHA3-256 digest of everything absorbed.
#[verifier::external_body]
pub(crate) fn sha3_finalize(h: Sha3, output: &mut [u8; 32])
    ensures
        final(output)@ == sha3_256(sha3_absorbed(h)),
{
    tiny_keccak::Hasher::finalize(h, output)
}

/// `sha3::Sha3_256::digest` (through `sha2::Digest`): the 32-byte digest of `data`.
#[verifier::external_body]
pub(crate) fn sha3_256_digest(data: &[u8]) -> (r: [u8; 32])
    ensures
        r@ == sha3_256(data@),
{
    <sha3::Sha3_256 as sha2::Digest>::digest(data).into()
}

} // verus!
