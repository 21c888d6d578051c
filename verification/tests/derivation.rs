use usdb_runes::context::{default_context, init_upgrade, BitcoinNetwork, Network};
use usdb_runes::derivation::{generate_derivation_path, principal_to_account, DerivationPath, Purpose};

#[test]
fn purpose_numbers() {
    assert_eq!(Purpose::P2PKH.to_u32(), 44);
    assert_eq!(Purpose::P2WPKH.to_u32(), 84);
    assert_eq!(Purpose::P2TR.to_u32(), 86);
}

#[test]
fn constructors_fix_coin_type_and_change() {
    let p = DerivationPath::p2wpkh(7, 3);
    assert_eq!(p.purpose, Purpose::P2WPKH);
    assert_eq!(p.coin_type, 0);
    assert_eq!(p.account, 7);
    assert_eq!(p.change, 0);
    assert_eq!(p.address_index, 3);
    assert_eq!(DerivationPath::p2pkh(1, 2).purpose, Purpose::P2PKH);
    assert_eq!(DerivationPath::p2tr(1, 2).purpose, Purpose::P2TR);
    assert_eq!(DerivationPath::new(Purpose::P2TR, 9, 4), DerivationPath::p2tr(9, 4));
}

#[test]
fn path_bytes_are_big_endian_with_hardened_levels() {
    let p = DerivationPath::p2tr(0x0102_0304, 0x0A0B_0C0D);
    let bytes = p.to_vec_u8_path();
    assert_eq!(
        bytes,
        vec![
            vec![0x80, 0x00, 0x00, 0x56],
            vec![0x80, 0x00, 0x00, 0x00],
            vec![0x81, 0x02, 0x03, 0x04],
            vec![0x00, 0x00, 0x00, 0x00],
            vec![0x0A, 0x0B, 0x0C, 0x0D],
        ]
    );
}

#[test]
fn hardened_account_keeps_its_top_bit() {
    let p = DerivationPath::p2pkh(0x8000_0001, 0xFFFF_FFFF);
    let bytes = p.to_vec_u8_path();
    assert_eq!(bytes[0], vec![0x80, 0x00, 0x00, 0x2C]);
    assert_eq!(bytes[2], vec![0x80, 0x00, 0x00, 0x01]);
    assert_eq!(bytes[4], vec![0xFF, 0xFF, 0xFF, 0xFF]);
}

#[test]
fn path_text() {
    assert_eq!(DerivationPath::p2wpkh(5, 7).to_string(), "m/84'/0'/5'/0/7");
    assert_eq!(DerivationPath::p2tr(0, 0).to_string(), "m/86'/0'/0'/0/0");
    assert_eq!(DerivationPath::p2pkh(4294967295, 10).to_string(), "m/44'/0'/4294967295'/0/10");
}

#[test]
fn principal_path_is_sha3_digest() {
    let path = generate_derivation_path(&[]);
    assert_eq!(path.len(), 1);
    assert_eq!(
        path[0],
        vec![
            0xa7, 0xff, 0xc6, 0xf8, 0xbf, 0x1e, 0xd7, 0x66, 0x51, 0xc1, 0x47, 0x56, 0xa0, 0x61,
            0xd6, 0x62, 0xf5, 0x80, 0xff, 0x4d, 0xe4, 0x3b, 0x49, 0xfa, 0x82, 0xd8, 0x0a, 0x4b,
            0x80, 0xf8, 0x43, 0x4a
        ]
    );
    let path = generate_derivation_path(&[1, 2, 3]);
    assert_eq!(&path[0][..4], &[0xfd, 0x17, 0x80, 0xa6]);
}

#[test]
fn principal_account_is_digest_prefix() {
    assert_eq!(principal_to_account(&[]), 0xa7ffc6f8);
    assert_eq!(principal_to_account(&[1, 2, 3]), 0xfd1780a6);
}

#[test]
fn context_per_network() {
    let c = init_upgrade(Network::Regtest);
    assert_eq!(c.key_name, "dfx_test_key");
    assert_eq!(c.bitcoin_network, BitcoinNetwork::Regtest);
    let c = init_upgrade(Network::Mainnet);
    assert_eq!(c.key_name, "test_key_1");
    assert_eq!(c.bitcoin_network, BitcoinNetwork::Bitcoin);
    assert_eq!(c.network, Network::Mainnet);
    let c = init_upgrade(Network::Testnet);
    assert_eq!(c.key_name, "test_key_1");
    assert_eq!(c.bitcoin_network, BitcoinNetwork::Testnet);
    let d = default_context();
    assert_eq!(d.key_name, "dfx_test_key");
    assert_eq!(d.network, Network::Testnet);
}
