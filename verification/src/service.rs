//! The decisions of the canister's endpoints, apart from the calls they make.
use vstd::prelude::*;
use vstd::string::*;
use vstd::utf8::encode_utf8;
use crate::address::{create_taproot_spend_info, p2tr_tweaked_address, p2tr_tweaked_address_of, public_key_valid, spend_script_of, tap_leaf_hash_of, tap_tweaked_key_of, x_only_key, x_only_of};
use crate::context::{BitcoinNetwork, ResultString};
use crate::derivation::{principal_to_account, spec_principal_account, DerivationPath, Purpose};
use crate::runes::{is_rune_letter, lemma_letters_not_refused, spec_encode_rune_name, Edict, Etching, RuneNameError};

verus! {

/// What a caller asks to etch.
pub struct RuneArgument {
    pub name: String,
    pub divisibility: u8,
    pub premine: u128,
    /// Symbol; only its first character is used.
    pub symbol: Option<String>,
    pub turbo: bool,
    /// Edicts handing out premined runes.
    pub edicts: Option<Vec<Edict>>,
}

/// Why an etching request is refused before anything is fetched (the length limit is
/// on the name's UTF-8 byte length, as a `usize`).
pub open spec fn rune_argument_refusal(name: Seq<char>) -> Option<Seq<char>> {
    if name.len() == 0 {
        Some("Rune name cannot be empty"@)
    } else if encode_utf8(name).len() as usize > 28 {
        Some("Rune name cannot exceed 28 characters"@)
    } else if !(forall|i: int| 0 <= i < name.len() ==> is_rune_letter(#[trigger] name[i])) {
        Some("Rune name must contain only uppercase letters A-Z"@)
    } else {
        None
    }
}

/// Checks an etching request: a non-empty name of at most 28 bytes, all of it `A`..=`Z`.
/// The error is the message the canister traps with.
pub fn validate_rune_argument(args: &RuneArgument) -> (r: Result<(), String>)
    ensures
        match rune_argument_refusal(args.name@) {
            Some(msg) => r is Err && r->Err_0@ == msg,
            None => r is Ok,
        },
{
    let name = args.name.as_str();
    if name.is_empty() {
        return Err(String::from_str("Rune name cannot be empty"));
    }
    if name.len() > 28 {
        return Err(String::from_str("Rune name cannot exceed 28 characters"));
    }
    for ch in it: name.chars()
        invariant
            it.seq() == name@,
            name@ == args.name@,
            name@.len() > 0,
            encode_utf8(name@).len() as usize <= 28,
            forall|j: int| 0 <= j < it.index() ==> is_rune_letter(#[trigger] name@[j]),
    {
        assert(it.seq()[it.index()] == ch);
        let code = ch as u32;
        if !(65 <= code && code <= 90) {
            assert(!is_rune_letter(name@[it.index()]));
            return Err(String::from_str("Rune name must contain only uppercase letters A-Z"));
        }
    }
    Ok(())
}

/// An etching request passes the checks exactly when its name is non-empty, at most 28
/// bytes long in UTF-8, and made only of the capital letters `A` through `Z`, both
/// included.
pub proof fn lemma_rune_argument_accepts(name: Seq<char>)
    ensures
        rune_argument_refusal(name) is None <==> (name.len() > 0 && encode_utf8(name).len() as usize
            <= 28 && forall|i: int| 0 <= i < name.len() ==> ('A' as u32) <= (#[trigger] name[i] as u32)
            && (name[i] as u32) <= ('Z' as u32)),
{
    assert('A' as u32 == 65 && 'Z' as u32 == 90);
}

/// A name the request checks accept is one the rune-name encoder takes as letters: it
/// refuses it neither as empty nor for a character outside `A`..=`Z`.
pub proof fn lemma_accepted_request_name_is_letters(name: Seq<char>)
    requires
        rune_argument_refusal(name) is None,
    ensures
        spec_encode_rune_name(name) != Err::<int, RuneNameError>(RuneNameError::Empty),
        spec_encode_rune_name(name) != Err::<int, RuneNameError>(RuneNameError::NotUppercase),
{
    lemma_letters_not_refused(name);
}

/// The first character of `s`, if any.
pub fn first_char(s: &str) -> (r: Option<char>)
    ensures
        r == (if s@.len() > 0 {
            Some(s@[0])
        } else {
            None::<char>
        }),
{
    let mut first: Option<char> = None;
    for ch in it: s.chars()
        invariant
            it.seq() == s@,
            it.index() == 0 ==> first is None,
            it.index() > 0 ==> first == Some(s@[0]),
    {
        if first.is_none() {
            assert(it.seq()[0] == ch);
            first = Some(ch);
        }
    }
    first
}

fn copy_edicts(edicts: &Option<Vec<Edict>>) -> (r: Option<Vec<Edict>>)
    ensures
        r is Some <==> edicts is Some,
        r is Some ==> r->0@ == edicts->0@,
{
    match edicts {
        None => None,
        Some(v) => {
            let n = v.len();
            let mut out: Vec<Edict> = Vec::new();
            let mut i: usize = 0;
            while i < n
                invariant
                    n == v@.len(),
                    i <= n,
                    out@ == v@.take(i as int),
                decreases n - i,
            {
                out.push(v[i]);
                i = i + 1;
                assert(out@ =~= v@.take(i as int));
            }
            assert(v@.take(n as int) =~= v@);
            Some(out)
        },
    }
}

/// The etching an accepted request stands for: no open terms, no spacers, the request's
/// edicts, and the first character of the symbol string as symbol.
pub fn etching_from_argument(args: &RuneArgument) -> (r: Etching)
    ensures
        r.divisibility == args.divisibility,
        r.premine == args.premine,
        r.rune_name@ == args.name@,
        r.symbol == (match args.symbol {
            Some(s) => if s@.len() > 0 {
                Some(s@[0])
            } else {
                None::<char>
            },
            None => None::<char>,
        }),
        r.terms is None,
        r.turbo == args.turbo,
        r.spacers == 0,
        r.edicts is Some <==> args.edicts is Some,
        r.edicts is Some ==> r.edicts->0@ == args.edicts->0@,
{
    let symbol = match &args.symbol {
        Some(s) => first_char(s.as_str()),
        None => None,
    };
    Etching {
        divisibility: args.divisibility,
        premine: args.premine,
        rune_name: args.name.clone(),
        symbol,
        terms: None,
        turbo: args.turbo,
        spacers: 0,
        edicts: copy_edicts(&args.edicts),
    }
}

/// The derivation path of a principal's deposit key: P2WPKH, with the principal's
/// account number, address index 0.
pub fn deposit_derivation_path(principal: &[u8]) -> (r: Vec<Vec<u8>>)
    ensures
        r@.len() == 5,
        forall|i: int|
            0 <= i < 5 ==> #[trigger] r@[i]@ == (DerivationPath {
                purpose: Purpose::P2WPKH,
                coin_type: 0,
                account: spec_principal_account(principal@),
                change: 0,
                address_index: 0,
            }).spec_path()[i],
{
    let account = principal_to_account(principal);
    DerivationPath::p2wpkh(account, 0).to_vec_u8_path()
}

/// The output key of the wallet's script-path Taproot output: the internal key's x-only
/// key tweaked by the one leaf that lets the script key spend.
pub open spec fn script_path_output_key(internal_key: Seq<u8>, script_key: Seq<u8>) -> Seq<u8> {
    tap_tweaked_key_of(x_only_of(internal_key), tap_leaf_hash_of(spend_script_of(x_only_of(script_key))))
}

/// The wallet's script-path output key takes each key's role from its place: the x
/// coordinate (bytes 1..33) of the first key is the internal key that is tweaked, and the
/// x coordinate of the second is the key that the one leaf, `OP_PUSHBYTES_32 <x>
/// OP_CHECKSIG`, lets spend.
pub proof fn lemma_script_path_key_roles(internal_key: Seq<u8>, script_key: Seq<u8>)
    requires
        script_key.len() >= 33,
    ensures
        script_path_output_key(internal_key, script_key) == tap_tweaked_key_of(
            internal_key.subrange(1, 33),
            tap_leaf_hash_of(seq![0x20u8] + script_key.subrange(1, 33) + seq![0xacu8]),
        ),
{
    assert(spend_script_of(x_only_of(script_key)) =~= seq![0x20u8] + script_key.subrange(1, 33)
        + seq![0xacu8]);
}

/// The script-path P2TR address of the wallet: internal key and script key as fetched
/// for the two derivation paths. `None` when either is not a valid public key (where
/// building the spend data would panic).
pub fn p2tr_script_path_address(
    internal_key: &[u8],
    script_key: &[u8],
    network: BitcoinNetwork,
) -> (r: Option<ResultString>)
    ensures
        r is Some <==> (public_key_valid(internal_key@) && public_key_valid(script_key@)),
        r is Some ==> (r->0 matches ResultString::ok(a) && p2tr_tweaked_address_of(
            script_path_output_key(internal_key@, script_key@),
            network,
        ) == Some(a@)),
        r is Some ==> (r->0 matches ResultString::ok(a) && p2tr_tweaked_address_of(
            tap_tweaked_key_of(
                internal_key@.subrange(1, 33),
                tap_leaf_hash_of(seq![0x20u8] + script_key@.subrange(1, 33) + seq![0xacu8]),
            ),
            network,
        ) == Some(a@)),
{
    if x_only_key(internal_key).is_none() || x_only_key(script_key).is_none() {
        return None;
    }
    let info = match create_taproot_spend_info(internal_key, script_key) {
        Ok(info) => info,
        Err(e) => {
            return Some(ResultString::err(e));
        },
    };
    assert(p2tr_tweaked_address_of(info.output_key@, network) is Some);
    assert(info.leaf_script@ =~= seq![0x20u8] + script_key@.subrange(1, 33) + seq![0xacu8]);
    let addr = p2tr_tweaked_address(info.output_key.as_slice(), network).unwrap();
    Some(ResultString::ok(addr.text))
}

/// The signature the mock ECDSA signer returns: the compact form `[1; 64]`.
pub fn mock_sign_with_ecdsa(
    _key_name: String,
    _derivation_path: Vec<Vec<u8>>,
    _signing_data: Vec<u8>,
) -> (r: Vec<u8>)
    ensures
        r@ == Seq::new(64, |_i: int| 1u8),
{
    let r = vec![1u8; 64];
    assert(r@ =~= Seq::new(64, |_i: int| 1u8));
    r
}

/// The signature the mock Schnorr signer returns: sixty-four `0xff` bytes.
pub fn mock_sign_with_schnorr(
    _key_name: String,
    _derivation_path: Vec<Vec<u8>>,
    _merkle_root_hash: Option<Vec<u8>>,
    _message_hash: Vec<u8>,
) -> (r: Vec<u8>)
    ensures
        r@ == Seq::new(64, |_i: int| 255u8),
{
    let r = vec![255u8; 64];
    assert(r@ =~= Seq::new(64, |_i: int| 255u8));
    r
}

} // verus!
