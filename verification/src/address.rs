//! Addresses the wallet derives from its threshold public keys, and Taproot spend data.
use vstd::prelude::*;
use vstd::string::*;
use crate::context::BitcoinNetwork;
use crate::script::{builder_into_script, builder_new, builder_push_opcode, builder_push_slice, push_bytes_contents, push_bytes_extend, push_bytes_new, push_data, OP_CHECKSIG};

verus! {

/// A destination: its address text and the output script that pays it.
pub struct Address {
    pub text: String,
    pub script_pubkey: Vec<u8>,
}

/// Whether `bitcoin::PublicKey::from_slice` accepts the bytes: a 33-byte compressed
/// or 65-byte uncompressed SEC1 encoding of a point on secp256k1.
pub uninterp spec fn public_key_valid(public_key: Seq<u8>) -> bool;

/// The x-only key of a public key in SEC1 form: its 32-byte x coordinate, which follows
/// the prefix byte in both the compressed and the uncompressed encoding.
pub open spec fn x_only_of(public_key: Seq<u8>) -> Seq<u8> {
    public_key.subrange(1, 33)
}

/// `TaprootBuilder`'s leaf version for tapscript (`LeafVersion::TapScript`).
pub const TAPSCRIPT_LEAF_VERSION: u8 = 0xc0;

/// The P2WPKH address of a compressed public key on a network (text and output script),
/// if the bytes are a valid public key.
pub uninterp spec fn p2wpkh_address_of(public_key: Seq<u8>, network: BitcoinNetwork) -> Option<
    (Seq<char>, Seq<u8>),
>;

/// The key-path-only P2TR address of an x-only internal key on a network (text and
/// output script), if the bytes are a valid x-only key.
pub uninterp spec fn p2tr_key_path_address_of(x_only_key: Seq<u8>, network: BitcoinNetwork) -> Option<
    (Seq<char>, Seq<u8>),
>;

/// The tapleaf hash of a tapscript leaf (`TapNodeHash::from_script` with the tapscript
/// leaf version), as 32 bytes.
pub uninterp spec fn tap_leaf_hash_of(leaf_script: Seq<u8>) -> Seq<u8>;

/// The Taproot output key (BIP-341 tweak) of an x-only internal key committing to a
/// script tree with the given merkle root, as 32 x-only bytes.
pub uninterp spec fn tap_tweaked_key_of(internal_x_only: Seq<u8>, merkle_root: Seq<u8>) -> Seq<u8>;

/// The text of the P2TR address paying an already tweaked output key, if the bytes are
/// a valid x-only key.
pub uninterp spec fn p2tr_tweaked_address_of(output_key: Seq<u8>, network: BitcoinNetwork) -> Option<
    Seq<char>,
>;

/// The witness-v1 output script paying a 32-byte key: `OP_1 <key>`.
pub open spec fn p2tr_script(key: Seq<u8>) -> Seq<u8> {
    seq![0x51u8, 0x20u8] + key
}

/// `bitcoin::PublicKey::from_slice`, then `XOnlyPublicKey::from`: the serialised x-only
/// key, or `None` when the bytes are not a valid public key. A valid key is 33 bytes, or
/// 65 bytes starting with 4; its x-only key is the x coordinate that follows the prefix,
/// and, being the key of a curve point, it is a valid x-only key for `Address::p2tr`.
#[verifier::external_body]
fn x_only_public_key(public_key: &[u8]) -> (r: Option<Vec<u8>>)
    ensures
        r is Some <==> public_key_valid(public_key@),
        r is Some ==> public_key@.len() == 33 || (public_key@.len() == 65 && public_key@[0] == 4),
        r is Some ==> r->0@ == x_only_of(public_key@),
        r is Some ==> forall|n: BitcoinNetwork| #[trigger]
            p2tr_key_path_address_of(r->0@, n) is Some,
{
    let pk = bitcoin::PublicKey::from_slice(public_key).ok()?;
    Some(bitcoin::XOnlyPublicKey::from(pk).serialize().to_vec())
}

/// `bitcoin::CompressedPublicKey::from_slice`, then `bitcoin::Address::p2wpkh`: the
/// address text and its output script (`OP_0` and a 20-byte key hash), or `None` when
/// the bytes are not a valid public key.
#[verifier::external_body]
fn p2wpkh_address_of_key(public_key: &[u8], network: BitcoinNetwork) -> (r: Option<Address>)
    ensures
        r is Some <==> p2wpkh_address_of(public_key@, network) is Some,
        r is Some ==> p2wpkh_address_of(public_key@, network) == Some(
            (r->0.text@, r->0.script_pubkey@),
        ),
        r is Some ==> r->0.script_pubkey@.len() == 22 && r->0.script_pubkey@[0] == 0x00
            && r->0.script_pubkey@[1] == 0x14,
{
    let pk = bitcoin::CompressedPublicKey::from_slice(public_key).ok()?;
    let net = match network {
        BitcoinNetwork::Bitcoin => bitcoin::Network::Bitcoin,
        BitcoinNetwork::Testnet => bitcoin::Network::Testnet,
        BitcoinNetwork::Regtest => bitcoin::Network::Regtest,
    };
    let addr = bitcoin::Address::p2wpkh(&pk, net);
    Some(Address { text: addr.to_string(), script_pubkey: addr.script_pubkey().into_bytes() })
}

/// `bitcoin::XOnlyPublicKey::from_slice`, then `bitcoin::Address::p2tr` with no script
/// tree: the address text and its output script (`OP_1` and the 32-byte tweaked key),
/// or `None` when the bytes are not a valid x-only key.
#[verifier::external_body]
fn p2tr_key_path_address_of_key(x_only_key: &[u8], network: BitcoinNetwork) -> (r: Option<Address>)
    ensures
        r is Some <==> p2tr_key_path_address_of(x_only_key@, network) is Some,
        r is Some ==> p2tr_key_path_address_of(x_only_key@, network) == Some(
            (r->0.text@, r->0.script_pubkey@),
        ),
        r is Some ==> r->0.script_pubkey@.len() == 34 && r->0.script_pubkey@[0] == 0x51
            && r->0.script_pubkey@[1] == 0x20,
{
    let key = bitcoin::XOnlyPublicKey::from_slice(x_only_key).ok()?;
    let secp = bitcoin::secp256k1::Secp256k1::verification_only();
    let net = match network {
        BitcoinNetwork::Bitcoin => bitcoin::Network::Bitcoin,
        BitcoinNetwork::Testnet => bitcoin::Network::Testnet,
        BitcoinNetwork::Regtest => bitcoin::Network::Regtest,
    };
    let addr = bitcoin::Address::p2tr(&secp, key, None, net);
    Some(Address { text: addr.to_string(), script_pubkey: addr.script_pubkey().into_bytes() })
}

/// What a Taproot output commits to: its output key and the merkle root of its tree.
struct TaprootCommitment {
    output_key: Vec<u8>,
    merkle_root: Vec<u8>,
}

/// `bitcoin::taproot::TaprootBuilder::new().add_leaf(0, leaf).finalize(..)` over the
/// x-only key of `internal_public_key` (parsed with `bitcoin::PublicKey::from_slice`),
/// taken as its output key and merkle root. Adding one tapscript leaf at depth 0 to a
/// fresh builder and finalising it do not fail, so the result is `None` only for an
/// invalid public key. The merkle root of the one-leaf tree is the leaf's hash, and the
/// output key is a `TweakedPublicKey`, so it is a valid x-only key.
#[verifier::external_body]
fn taproot_single_leaf_output_key(internal_public_key: &[u8], leaf_script: &[u8]) -> (r: Option<
    TaprootCommitment,
>)
    ensures
        r is Some <==> public_key_valid(internal_public_key@),
        r is Some ==> r->0.merkle_root@ == tap_leaf_hash_of(leaf_script@),
        r is Some ==> r->0.output_key@ == tap_tweaked_key_of(
            x_only_of(internal_public_key@),
            r->0.merkle_root@,
        ),
        r is Some ==> forall|n: BitcoinNetwork| #[trigger]
            p2tr_tweaked_address_of(r->0.output_key@, n) is Some,
{
    let pk = bitcoin::PublicKey::from_slice(internal_public_key).ok()?;
    let internal = bitcoin::XOnlyPublicKey::from(pk);
    let secp = bitcoin::secp256k1::Secp256k1::verification_only();
    let script = bitcoin::ScriptBuf::from_bytes(leaf_script.to_vec());
    let builder = bitcoin::taproot::TaprootBuilder::new().add_leaf(0, script).ok()?;
    let info = builder.finalize(&secp, internal).ok()?;
    let root = bitcoin::hashes::Hash::to_byte_array(info.merkle_root()?).to_vec();
    Some(TaprootCommitment { output_key: info.output_key().serialize().to_vec(), merkle_root: root })
}

/// `bitcoin::Address::p2tr_tweaked` for an output key given as 32 x-only bytes: the
/// address text, or `None` when the bytes are not a valid x-only key. Its output
/// script is `OP_1` and the key.
#[verifier::external_body]
fn p2tr_tweaked_address_of_key(output_key: &[u8], network: BitcoinNetwork) -> (r: Option<Address>)
    ensures
        r is Some <==> p2tr_tweaked_address_of(output_key@, network) is Some,
        r is Some ==> p2tr_tweaked_address_of(output_key@, network) == Some(r->0.text@)
            && r->0.script_pubkey@ == p2tr_script(output_key@),
{
    let key = bitcoin::XOnlyPublicKey::from_slice(output_key).ok()?;
    let tweaked = bitcoin::key::TweakedPublicKey::dangerous_assume_tweaked(key);
    let net = match network {
        BitcoinNetwork::Bitcoin => bitcoin::Network::Bitcoin,
        BitcoinNetwork::Testnet => bitcoin::Network::Testnet,
        BitcoinNetwork::Regtest => bitcoin::Network::Regtest,
    };
    let addr = bitcoin::Address::p2tr_tweaked(tweaked, net);
    Some(Address { text: addr.to_string(), script_pubkey: addr.script_pubkey().into_bytes() })
}

/// The 32-byte x-only key of a public key, or `None` when the bytes are not a valid
/// public key.
pub fn x_only_key(public_key: &[u8]) -> (r: Option<Vec<u8>>)
    ensures
        r is Some <==> public_key_valid(public_key@),
        r is Some ==> r->0@ == x_only_of(public_key@) && r->0@.len() == 32,
        r is Some ==> public_key@.len() >= 33,
{
    x_only_public_key(public_key)
}

/// The P2WPKH address of a threshold ECDSA public key; `None` when the bytes are not a
/// valid public key.
pub fn p2wpkh_address(public_key: &[u8], network: BitcoinNetwork) -> (r: Option<Address>)
    ensures
        match p2wpkh_address_of(public_key@, network) {
            Some((text, script)) => r is Some && r->0.text@ == text && r->0.script_pubkey@ == script,
            None => r is None,
        },
{
    p2wpkh_address_of_key(public_key, network)
}

/// The key-path-only P2TR address of a threshold Schnorr public key (its x-only key as
/// internal key, no script tree); `None` when the bytes are not a valid public key.
pub fn p2tr_key_path_address(public_key: &[u8], network: BitcoinNetwork) -> (r: Option<Address>)
    ensures
        r is Some <==> public_key_valid(public_key@),
        r is Some ==> p2tr_key_path_address_of(x_only_of(public_key@), network) == Some(
            (r->0.text@, r->0.script_pubkey@),
        ),
{
    match x_only_public_key(public_key) {
        Some(x) => {
            let r = p2tr_key_path_address_of_key(x.as_slice(), network);
            assert(p2tr_key_path_address_of(x@, network) is Some);
            r
        },
        None => None,
    }
}

/// The tapscript that lets `key` spend: push of the 32-byte x-only key, `OP_CHECKSIG`.
pub open spec fn spend_script_of(x_only_key: Seq<u8>) -> Seq<u8> {
    push_data(x_only_key) + seq![OP_CHECKSIG]
}

/// The tapscript `<x-only key> OP_CHECKSIG` for a public key. Requires a valid public key.
pub fn create_spend_script(script_key_bytes: &[u8]) -> (r: Result<Vec<u8>, String>)
    requires
        public_key_valid(script_key_bytes@),
    ensures
        r is Ok,
        r->Ok_0@ == spend_script_of(x_only_of(script_key_bytes@)),
{
    let x = x_only_public_key(script_key_bytes).unwrap();
    let mut push = push_bytes_new();
    let extended = push_bytes_extend(&mut push, x.as_slice());
    assert(extended is Ok);
    assert(push_bytes_contents(push) =~= x@);
    let mut builder = builder_new();
    builder = builder_push_slice(builder, &push);
    builder = builder_push_opcode(builder, OP_CHECKSIG);
    let script = builder_into_script(builder);
    assert(script@ =~= spend_script_of(x@));
    Ok(script)
}

/// The tapscript `<x-only key> OP_CHECKSIG` for a public key, or `None` when the bytes
/// are not a valid public key.
pub fn spend_script_for_key(script_key_bytes: &[u8]) -> (r: Option<Vec<u8>>)
    ensures
        r is Some <==> public_key_valid(script_key_bytes@),
        r is Some ==> r->0@ == spend_script_of(x_only_of(script_key_bytes@)),
{
    match x_only_public_key(script_key_bytes) {
        Some(_) => match create_spend_script(script_key_bytes) {
            Ok(s) => Some(s),
            Err(_) => None,
        },
        None => None,
    }
}

/// A Taproot output with a single tapscript leaf.
pub struct TaprootSpendInfo {
    /// The x-only internal key.
    pub internal_key: Vec<u8>,
    /// The leaf version of the one leaf (tapscript).
    pub leaf_version: u8,
    /// The one leaf script, at depth 0.
    pub leaf_script: Vec<u8>,
    /// The merkle root of the script tree: the hash of its one leaf.
    pub merkle_root: Vec<u8>,
    /// The tweaked x-only output key.
    pub output_key: Vec<u8>,
}

/// Taproot spend data for an internal key and one tapscript leaf at depth 0 that lets the
/// script key spend. Requires both keys to be valid public keys.
pub fn create_taproot_spend_info(internal_key_bytes: &[u8], script_key_bytes: &[u8]) -> (r: Result<
    TaprootSpendInfo,
    String,
>)
    requires
        public_key_valid(internal_key_bytes@),
        public_key_valid(script_key_bytes@),
    ensures
        r is Ok,
        r->Ok_0.internal_key@ == x_only_of(internal_key_bytes@),
        r->Ok_0.leaf_version == TAPSCRIPT_LEAF_VERSION,
        r->Ok_0.leaf_script@ == spend_script_of(x_only_of(script_key_bytes@)),
        r->Ok_0.merkle_root@ == tap_leaf_hash_of(r->Ok_0.leaf_script@),
        r->Ok_0.output_key@ == tap_tweaked_key_of(r->Ok_0.internal_key@, r->Ok_0.merkle_root@),
        forall|n: BitcoinNetwork| #[trigger] p2tr_tweaked_address_of(r->Ok_0.output_key@, n) is Some,
{
    let internal_key = x_only_public_key(internal_key_bytes).unwrap();
    let spend_script = match create_spend_script(script_key_bytes) {
        Ok(s) => s,
        Err(e) => {
            return Err(e);
        },
    };
    let commitment = taproot_single_leaf_output_key(internal_key_bytes, spend_script.as_slice()).unwrap();
    let output_key = commitment.output_key;
    let merkle_root = commitment.merkle_root;
    Ok(
        TaprootSpendInfo {
            internal_key,
            leaf_version: TAPSCRIPT_LEAF_VERSION,
            leaf_script: spend_script,
            merkle_root,
            output_key,
        },
    )
}

/// The P2TR address paying a Taproot output key.
pub fn p2tr_tweaked_address(output_key: &[u8], network: BitcoinNetwork) -> (r: Option<Address>)
    ensures
        match p2tr_tweaked_address_of(output_key@, network) {
            Some(text) => r is Some && r->0.text@ == text && r->0.script_pubkey@ == p2tr_script(
                output_key@,
            ),
            None => r is None,
        },
{
    p2tr_tweaked_address_of_key(output_key, network)
}

} // verus!
