//! BIP-32 style derivation paths: m / purpose' / coin_type' / account' / change / address_index.
use vstd::prelude::*;
use vstd::string::*;
use crate::bytes::slice_to_bytes;
use crate::decimal::{decimal, push_decimal};
use crate::hashing::{sha3_256, sha3_256_digest, sha3_finalize, sha3_update, sha3_v256};

verus! {

/// Purpose field for a BIP-43/44-style derivation path; it selects the address type.
/// BIP-44 for P2PKH (44'), BIP-84 for P2WPKH (84'), BIP-86 for P2TR (86').
#[derive(Clone, Copy, Debug, PartialEq, Eq, Structural)]
pub enum Purpose {
    P2PKH,
    P2WPKH,
    P2TR,
}

impl Purpose {
    /// The BIP number of the purpose.
    pub open spec fn value(self) -> u32 {
        match self {
            Purpose::P2PKH => 44,
            Purpose::P2WPKH => 84,
            Purpose::P2TR => 86,
        }
    }

    pub fn to_u32(&self) -> (r: u32)
        ensures
            r == self.value(),
    {
        match self {
            Purpose::P2PKH => 44,
            Purpose::P2WPKH => 84,
            Purpose::P2TR => 86,
        }
    }
}

/// Offset that marks a hardened derivation level.
pub const HARDENED_OFFSET: u32 = 0x8000_0000;

/// The four big-endian bytes of `x`.
pub open spec fn be_bytes(x: u32) -> Seq<u8> {
    seq![
        (x / 0x100_0000) as u8,
        ((x / 0x1_0000) % 0x100) as u8,
        ((x / 0x100) % 0x100) as u8,
        (x % 0x100) as u8,
    ]
}

/// Big-endian serialisation of a `u32`.
fn u32_to_be_bytes(x: u32) -> (r: Vec<u8>)
    ensures
        r@ == be_bytes(x),
{
    let b0 = (x >> 24u32) as u8;
    let b1 = ((x >> 16u32) & 0xff) as u8;
    let b2 = ((x >> 8u32) & 0xff) as u8;
    let b3 = (x & 0xff) as u8;
    assert(b0 == (x / 0x100_0000) as u8 && b1 == ((x / 0x1_0000) % 0x100) as u8 && b2 == ((x
        / 0x100) % 0x100) as u8 && b3 == (x % 0x100) as u8) by (bit_vector)
        requires
            b0 == (x >> 24u32) as u8,
            b1 == ((x >> 16u32) & 0xff) as u8,
            b2 == ((x >> 8u32) & 0xff) as u8,
            b3 == (x & 0xff) as u8,
    ;
    let r = vec![b0, b1, b2, b3];
    assert(r@ =~= be_bytes(x));
    r
}

/// The first three levels of every path are hardened (their top bit is set) and the
/// last two are not marked by the path itself.
pub proof fn lemma_path_levels(p: DerivationPath)
    ensures
        p.spec_path()[0][0] >= 0x80,
        p.spec_path()[1][0] >= 0x80,
        p.spec_path()[2][0] >= 0x80,
        p.spec_path()[3] == be_bytes(p.change),
        p.spec_path()[4] == be_bytes(p.address_index),
        forall|i: int| 0 <= i < 5 ==> #[trigger] p.spec_path()[i].len() == 4,
{
    let a = p.purpose.value() | HARDENED_OFFSET;
    let b = p.coin_type | HARDENED_OFFSET;
    let c = p.account | HARDENED_OFFSET;
    assert(forall|x: u32| #![trigger (x | 0x8000_0000u32)] ((x | 0x8000_0000u32) / 0x100_0000u32) as u8 >= 0x80u8) by (bit_vector);
    assert((a / 0x100_0000) as u8 >= 0x80);
    assert((b / 0x100_0000) as u8 >= 0x80);
    assert((c / 0x100_0000) as u8 >= 0x80);
}

/// A full BIP-32-compatible derivation path:
/// m / purpose' / coin_type' / account' / change / address_index.
#[derive(Clone, Copy, Debug, PartialEq, Eq, Structural)]
pub struct DerivationPath {
    /// Purpose according to BIP-43.
    pub purpose: Purpose,
    /// Coin type (0 = Bitcoin).
    pub coin_type: u32,
    /// Logical account identifier.
    pub account: u32,
    /// Chain: 0 = external (receive), 1 = internal (change).
    pub change: u32,
    /// Address index within the account.
    pub address_index: u32,
}

impl DerivationPath {
    /// The five levels of the path as 4-byte big-endian elements; the first three are hardened.
    pub open spec fn spec_path(self) -> Seq<Seq<u8>> {
        seq![
            be_bytes(self.purpose.value() | HARDENED_OFFSET),
            be_bytes(self.coin_type | HARDENED_OFFSET),
            be_bytes(self.account | HARDENED_OFFSET),
            be_bytes(self.change),
            be_bytes(self.address_index),
        ]
    }

    /// The textual form `m/purpose'/coin_type'/account'/change/address_index`.
    pub open spec fn spec_text(self) -> Seq<char> {
        seq!['m', '/'] + decimal(self.purpose.value() as nat) + seq!['\'', '/'] + decimal(
            self.coin_type as nat,
        ) + seq!['\'', '/'] + decimal(self.account as nat) + seq!['\'', '/'] + decimal(
            self.change as nat,
        ) + seq!['/'] + decimal(self.address_index as nat)
    }

    /// A path with the given purpose, account and address index, on coin type 0
    /// (Bitcoin) and the external chain (change 0).
    pub fn new(purpose: Purpose, account: u32, address_index: u32) -> (r: Self)
        ensures
            r == (DerivationPath { purpose, coin_type: 0, account, change: 0, address_index }),
    {
        DerivationPath { purpose, coin_type: 0, account, change: 0, address_index }
    }

    /// Path for P2PKH (legacy) addresses.
    pub fn p2pkh(account: u32, address_index: u32) -> (r: Self)
        ensures
            r == (DerivationPath {
                purpose: Purpose::P2PKH,
                coin_type: 0,
                account,
                change: 0,
                address_index,
            }),
    {
        Self::new(Purpose::P2PKH, account, address_index)
    }

    /// Path for P2WPKH (native SegWit) addresses.
    pub fn p2wpkh(account: u32, address_index: u32) -> (r: Self)
        ensures
            r == (DerivationPath {
                purpose: Purpose::P2WPKH,
                coin_type: 0,
                account,
                change: 0,
                address_index,
            }),
    {
        Self::new(Purpose::P2WPKH, account, address_index)
    }

    /// Path for P2TR (Taproot) addresses.
    pub fn p2tr(account: u32, address_index: u32) -> (r: Self)
        ensures
            r == (DerivationPath {
                purpose: Purpose::P2TR,
                coin_type: 0,
                account,
                change: 0,
                address_index,
            }),
    {
        Self::new(Purpose::P2TR, account, address_index)
    }

    /// The path as one 4-byte big-endian element per level, as the threshold
    /// ECDSA/Schnorr key APIs take it.
    pub fn to_vec_u8_path(&self) -> (r: Vec<Vec<u8>>)
        ensures
            r@.len() == 5,
            forall|i: int| 0 <= i < 5 ==> #[trigger] r@[i]@ == self.spec_path()[i],
    {
        let p0 = u32_to_be_bytes(self.purpose.to_u32() | HARDENED_OFFSET);
        let p1 = u32_to_be_bytes(self.coin_type | HARDENED_OFFSET);
        let p2 = u32_to_be_bytes(self.account | HARDENED_OFFSET);
        let p3 = u32_to_be_bytes(self.change);
        let p4 = u32_to_be_bytes(self.address_index);
        vec![p0, p1, p2, p3, p4]
    }

    /// The textual form `m/purpose'/coin_type'/account'/change/address_index`.
    pub fn to_string(&self) -> (r: String)
        ensures
            r@ == self.spec_text(),
    {
        proof {
            reveal_strlit("m/");
            reveal_strlit("'/");
            reveal_strlit("/");
        }
        let mut s = String::from_str("m/");
        push_decimal(&mut s, self.purpose.to_u32() as u64);
        s.append("'/");
        push_decimal(&mut s, self.coin_type as u64);
        s.append("'/");
        push_decimal(&mut s, self.account as u64);
        s.append("'/");
        push_decimal(&mut s, self.change as u64);
        s.append("/");
        push_decimal(&mut s, self.address_index as u64);
        assert(s@ =~= self.spec_text());
        s
    }
}

/// The single-level derivation path of a principal: the SHA3-256 digest of its bytes.
pub open spec fn spec_principal_derivation_path(principal: Seq<u8>) -> Seq<Seq<u8>> {
    seq![sha3_256(principal)]
}

/// The single-level derivation path of a principal: the SHA3-256 digest of its bytes.
pub fn generate_derivation_path(principal: &[u8]) -> (r: Vec<Vec<u8>>)
    ensures
        r@.len() == 1,
        r@[0]@ == spec_principal_derivation_path(principal@)[0],
        r@[0]@ == sha3_256(principal@),
        r@[0]@.len() == 32,
{
    let mut hash = [0u8; 32];
    let mut hasher = sha3_v256();
    sha3_update(&mut hasher, principal);
    sha3_finalize(hasher, &mut hash);
    assert(Seq::<u8>::empty() + principal@ =~= principal@);
    let v = slice_to_bytes(hash.as_slice());
    vec![v]
}

/// The number the first four bytes of `bytes` spell, big-endian.
pub open spec fn be_u32_prefix(bytes: Seq<u8>) -> u32 {
    (bytes[0] * 0x100_0000 + bytes[1] * 0x1_0000 + bytes[2] * 0x100 + bytes[3]) as u32
}

/// The account number of a principal: the first four bytes of the SHA3-256 digest of
/// its bytes, read big-endian.
pub open spec fn spec_principal_account(principal: Seq<u8>) -> u32 {
    be_u32_prefix(sha3_256(principal))
}

/// The account number of a principal: the first four bytes of the SHA3-256 digest
/// of its bytes, read big-endian.
pub fn principal_to_account(principal: &[u8]) -> (r: u32)
    ensures
        r == spec_principal_account(principal@),
        r as int == sha3_256(principal@)[0] * 0x100_0000 + sha3_256(principal@)[1] * 0x1_0000
            + sha3_256(principal@)[2] * 0x100 + sha3_256(principal@)[3],
{
    let hash = sha3_256_digest(principal);
    let (h0, h1, h2, h3) = (hash[0], hash[1], hash[2], hash[3]);
    let r = ((h0 as u32) << 24u32) | ((h1 as u32) << 16u32) | ((h2 as u32) << 8u32) | (h3 as u32);
    assert(r == (h0 * 0x100_0000 + h1 * 0x1_0000 + h2 * 0x100 + h3) as u32) by (bit_vector)
        requires
            r == ((h0 as u32) << 24u32) | ((h1 as u32) << 16u32) | ((h2 as u32) << 8u32) | (h3 as u32),
    ;
    assert(r as int == h0 * 0x100_0000 + h1 * 0x1_0000 + h2 * 0x100 + h3) by (bit_vector)
        requires
            r == ((h0 as u32) << 24u32) | ((h1 as u32) << 16u32) | ((h2 as u32) << 8u32) | (h3 as u32),
    ;
    r
}

/// A principal's account number is read from the same digest that forms its derivation
/// path: the first four bytes of that one path element, big-endian.
pub proof fn lemma_account_from_derivation_digest(principal: Seq<u8>)
    ensures
        spec_principal_account(principal) == be_u32_prefix(
            spec_principal_derivation_path(principal)[0],
        ),
{
}

/// A principal's account number and derivation path come from the SHA3-256 digest of
/// its whole byte string: the path is that digest, and the account is the digest's first
/// four bytes read most significant first.
pub proof fn lemma_account_from_whole_principal(principal: Seq<u8>)
    ensures
        spec_principal_derivation_path(principal) == seq![sha3_256(principal)],
        spec_principal_account(principal) as int == sha3_256(principal)[0] * 0x100_0000
            + sha3_256(principal)[1] * 0x1_0000 + sha3_256(principal)[2] * 0x100
            + sha3_256(principal)[3],
{
    let d = sha3_256(principal);
    let (h0, h1, h2, h3) = (d[0], d[1], d[2], d[3]);
    assert(((h0 * 0x100_0000 + h1 * 0x1_0000 + h2 * 0x100 + h3) as u32) as int == h0 * 0x100_0000
        + h1 * 0x1_0000 + h2 * 0x100 + h3) by (bit_vector);
}

} // verus!
