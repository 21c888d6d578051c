use usdb_runes::address::{
    create_spend_script, create_taproot_spend_info, p2tr_key_path_address, p2tr_tweaked_address, p2wpkh_address,
    spend_script_for_key, x_only_key,
};
use usdb_runes::context::BitcoinNetwork;

fn hex(s: &str) -> Vec<u8> {
    (0..s.len()).step_by(2).map(|i| u8::from_str_radix(&s[i..i + 2], 16).unwrap()).collect()
}

const G: &str = "0279be667ef9dcbbac55a06295ce870b07029bfcdb2dce28d959f2815b16f81798";
const G_X: &str = "79be667ef9dcbbac55a06295ce870b07029bfcdb2dce28d959f2815b16f81798";
const BIP86_INTERNAL: &str = "02cc8a4bc64d897bddc5fbc2f670f7a8ba0b386779106cf1223c6fc5d7cd6fc115";
const BIP86_OUTPUT: &str = "a60869f0dbcf1dc659c9cecbaf8050135ea9e8cdc487053f1dc6880949dc684c";
const BIP86_ADDRESS: &str = "bc1p5cyxnuxmeuwuvkwfem96lqzszd02n6xdcjrs20cac6yqjjwudpxqkedrcr";

#[test]
fn x_only_of_generator() {
    assert_eq!(x_only_key(&hex(G)), Some(hex(G_X)));
    assert_eq!(x_only_key(&[1, 2, 3]), None);
}

#[test]
fn p2wpkh_of_generator() {
    let a = p2wpkh_address(&hex(G), BitcoinNetwork::Bitcoin).unwrap();
    assert_eq!(a.text, "bc1qw508d6qejxtdg4y5r3zarvary0c5xw7kv8f3t4");
    assert_eq!(a.script_pubkey, hex("0014751e76e8199196d454941c45d1b3a323f1433bd6"));
    let t = p2wpkh_address(&hex(G), BitcoinNetwork::Testnet).unwrap();
    assert_eq!(t.text, "tb1qw508d6qejxtdg4y5r3zarvary0c5xw7kxpjzsx");
    assert!(p2wpkh_address(&[0u8; 33], BitcoinNetwork::Bitcoin).is_none());
}

#[test]
fn p2tr_key_path_matches_bip86() {
    let a = p2tr_key_path_address(&hex(BIP86_INTERNAL), BitcoinNetwork::Bitcoin).unwrap();
    assert_eq!(a.text, BIP86_ADDRESS);
    let mut script = vec![0x51, 0x20];
    script.extend_from_slice(&hex(BIP86_OUTPUT));
    assert_eq!(a.script_pubkey, script);
    assert!(p2tr_key_path_address(&[7u8; 10], BitcoinNetwork::Bitcoin).is_none());
}

#[test]
fn p2tr_tweaked_matches_bip86() {
    let a = p2tr_tweaked_address(&hex(BIP86_OUTPUT), BitcoinNetwork::Bitcoin).unwrap();
    assert_eq!(a.text, BIP86_ADDRESS);
    assert_eq!(&a.script_pubkey[2..], &hex(BIP86_OUTPUT)[..]);
}

#[test]
fn spend_script_pushes_x_only_key() {
    let mut expected = vec![0x20];
    expected.extend_from_slice(&hex(G_X));
    expected.push(0xac);
    assert_eq!(create_spend_script(&hex(G)), Ok(expected.clone()));
    assert_eq!(spend_script_for_key(&hex(G)), Some(expected));
    assert_eq!(spend_script_for_key(&[0u8; 33]), None);
}

#[test]
fn taproot_spend_info_for_one_leaf() {
    let info = create_taproot_spend_info(&hex(BIP86_INTERNAL), &hex(G)).unwrap();
    assert_eq!(info.internal_key, hex(&BIP86_INTERNAL[2..]));
    assert_eq!(info.leaf_script[0], 0x20);
    assert_eq!(info.leaf_script.len(), 34);
    assert_eq!(info.output_key.len(), 32);
    // A script leaf changes the tweak, so the output key differs from the key-path one.
    assert_ne!(info.output_key, hex(BIP86_OUTPUT));
}
