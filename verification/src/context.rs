//! The canister's Bitcoin context: which network it serves and which threshold key it uses.
use vstd::prelude::*;

verus! {

/// The Bitcoin network as the IC Bitcoin API names it.
#[derive(Clone, Copy, Debug, PartialEq, Eq, Structural)]
pub enum Network {
    Mainnet,
    Testnet,
    Regtest,
}

/// The Bitcoin network as the `bitcoin` crate names it.
#[derive(Clone, Copy, Debug, PartialEq, Eq, Structural)]
pub enum BitcoinNetwork {
    Bitcoin,
    Testnet,
    Regtest,
}

/// Network and threshold key the canister works with.
#[derive(Clone, Copy)]
pub struct BitcoinContext {
    pub network: Network,
    pub bitcoin_network: BitcoinNetwork,
    pub key_name: &'static str,
}

/// Arguments the canister is installed with.
#[derive(Clone, Copy, Debug, PartialEq, Eq, Structural)]
pub struct InitArgs {
    pub network: Network,
}

/// Input for sending Bitcoin, shared by the P2PKH, P2WPKH and P2TR transfer endpoints.
pub struct SendRequest {
    pub destination_address: String,
    pub amount_in_satoshi: u64,
}

/// Outcome of an endpoint that answers with a string or an error string.
#[allow(non_camel_case_types)]
pub enum ResultString {
    ok(String),
    err(String),
}

/// The `bitcoin` crate's name for an IC network.
pub open spec fn spec_bitcoin_network(network: Network) -> BitcoinNetwork {
    match network {
        Network::Mainnet => BitcoinNetwork::Bitcoin,
        Network::Testnet => BitcoinNetwork::Testnet,
        Network::Regtest => BitcoinNetwork::Regtest,
    }
}

/// The threshold key used on a network: the local test key on regtest, `test_key_1` otherwise.
pub open spec fn spec_key_name(network: Network) -> Seq<char> {
    match network {
        Network::Regtest => "dfx_test_key"@,
        _ => "test_key_1"@,
    }
}

/// The context before the canister is initialised.
pub fn default_context() -> (r: BitcoinContext)
    ensures
        r.network == Network::Testnet,
        r.bitcoin_network == BitcoinNetwork::Testnet,
        r.key_name@ == "dfx_test_key"@,
{
    BitcoinContext {
        network: Network::Testnet,
        bitcoin_network: BitcoinNetwork::Testnet,
        key_name: "dfx_test_key",
    }
}

/// The context that `init` and the post-upgrade hook install for `network`.
pub fn init_upgrade(network: Network) -> (r: BitcoinContext)
    ensures
        r.network == network,
        r.bitcoin_network == spec_bitcoin_network(network),
        r.key_name@ == spec_key_name(network),
{
    let key_name = match network {
        Network::Regtest => "dfx_test_key",
        Network::Mainnet | Network::Testnet => "test_key_1",
    };
    let bitcoin_network = match network {
        Network::Mainnet => BitcoinNetwork::Bitcoin,
        Network::Testnet => BitcoinNetwork::Testnet,
        Network::Regtest => BitcoinNetwork::Regtest,
    };
    BitcoinContext { network, bitcoin_network, key_name }
}

} // verus!
