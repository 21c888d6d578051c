use usdb_runes::context::{BitcoinNetwork, ResultString};
use usdb_runes::derivation::DerivationPath;
use usdb_runes::runes::Edict;
use usdb_runes::service::{
    deposit_derivation_path, etching_from_argument, first_char, mock_sign_with_ecdsa, mock_sign_with_schnorr,
    p2tr_script_path_address, validate_rune_argument, RuneArgument,
};

fn arg(name: &str, symbol: Option<&str>) -> RuneArgument {
    RuneArgument {
        name: name.to_string(),
        divisibility: 6,
        premine: 1000,
        symbol: symbol.map(|s| s.to_string()),
        turbo: true,
        edicts: None,
    }
}

#[test]
fn rune_argument_checks() {
    assert_eq!(validate_rune_argument(&arg("MYRUNE", None)), Ok(()));
    assert_eq!(validate_rune_argument(&arg("", None)), Err("Rune name cannot be empty".to_string()));
    assert_eq!(
        validate_rune_argument(&arg(&"A".repeat(29), None)),
        Err("Rune name cannot exceed 28 characters".to_string())
    );
    // The length limit counts bytes: fifteen two-byte letters are too long.
    assert_eq!(
        validate_rune_argument(&arg(&"\u{c9}".repeat(15), None)),
        Err("Rune name cannot exceed 28 characters".to_string())
    );
    assert_eq!(
        validate_rune_argument(&arg("MyRune", None)),
        Err("Rune name must contain only uppercase letters A-Z".to_string())
    );
}

#[test]
fn etching_of_argument() {
    let e = etching_from_argument(&arg("MYRUNE", Some("$dollar")));
    assert_eq!(e.rune_name, "MYRUNE");
    assert_eq!(e.divisibility, 6);
    assert_eq!(e.premine, 1000);
    assert_eq!(e.symbol, Some('$'));
    assert!(e.turbo);
    assert!(e.terms.is_none());
    assert!(e.edicts.is_none());
    let mut with_edicts = arg("MYRUNE", None);
    with_edicts.edicts = Some(vec![Edict { amount: 500, output: 1 }]);
    let e = etching_from_argument(&with_edicts);
    assert_eq!(e.edicts, Some(vec![Edict { amount: 500, output: 1 }]));
    assert_eq!(e.spacers, 0);
    assert_eq!(etching_from_argument(&arg("A", Some(""))).symbol, None);
    assert_eq!(etching_from_argument(&arg("A", None)).symbol, None);
    assert_eq!(first_char("\u{20bf}x"), Some('\u{20bf}'));
}

#[test]
fn deposit_path_uses_principal_account() {
    assert_eq!(deposit_derivation_path(&[]), DerivationPath::p2wpkh(0xa7ffc6f8, 0).to_vec_u8_path());
    assert_eq!(deposit_derivation_path(&[1, 2, 3])[2], vec![0xfd, 0x17, 0x80, 0xa6]);
}

#[test]
fn mock_signatures() {
    assert_eq!(mock_sign_with_ecdsa(String::new(), vec![], vec![]), vec![1u8; 64]);
    assert_eq!(mock_sign_with_schnorr(String::new(), vec![], None, vec![]), vec![255u8; 64]);
}

#[test]
fn script_path_address() {
    let g: Vec<u8> = (0..33)
        .map(|i| {
            let s = "0279be667ef9dcbbac55a06295ce870b07029bfcdb2dce28d959f2815b16f81798";
            u8::from_str_radix(&s[2 * i..2 * i + 2], 16).unwrap()
        })
        .collect();
    match p2tr_script_path_address(&g, &g, BitcoinNetwork::Regtest) {
        Some(ResultString::ok(a)) => assert!(a.starts_with("bcrt1p")),
        _ => panic!("expected an address"),
    }
    assert!(p2tr_script_path_address(&[1, 2], &g, BitcoinNetwork::Regtest).is_none());
    assert!(p2tr_script_path_address(&g, &[1, 2], BitcoinNetwork::Regtest).is_none());
}
