use usdb_runes::runes::{build_etching_script, encode_leb128, encode_rune_name, Edict, Etching, Flag, Tag, Terms};

fn etching(name: &str) -> Etching {
    Etching {
        divisibility: 0,
        premine: 0,
        rune_name: name.to_string(),
        symbol: None,
        terms: None,
        turbo: false,
        spacers: 0,
        edicts: None,
    }
}

#[test]
fn leb128_examples() {
    assert_eq!(encode_leb128(0), vec![0]);
    assert_eq!(encode_leb128(127), vec![0x7f]);
    assert_eq!(encode_leb128(128), vec![0x80, 0x01]);
    assert_eq!(encode_leb128(300), vec![0xac, 0x02]);
    assert_eq!(encode_leb128(u64::MAX), vec![0xff, 0xff, 0xff, 0xff, 0xff, 0xff, 0xff, 0xff, 0xff, 0x01]);
}

#[test]
fn rune_name_values() {
    assert_eq!(encode_rune_name("A"), Ok(0));
    assert_eq!(encode_rune_name("Z"), Ok(25));
    assert_eq!(encode_rune_name("AA"), Ok(26));
    assert_eq!(encode_rune_name("AB"), Ok(27));
    assert_eq!(encode_rune_name("ZZ"), Ok(701));
    assert_eq!(encode_rune_name("AAA"), Ok(702));
    assert_eq!(encode_rune_name("MYRUNE"), Ok(166213220));
    assert_eq!(encode_rune_name("ZZZZZZZZZZZZZ").is_ok(), true);
}

#[test]
fn rune_name_refusals() {
    assert_eq!(encode_rune_name(""), Err("Rune name cannot be empty".to_string()));
    assert_eq!(
        encode_rune_name("Abc"),
        Err("Rune name must contain only uppercase letters A-Z".to_string())
    );
    assert_eq!(
        encode_rune_name("A B"),
        Err("Rune name must contain only uppercase letters A-Z".to_string())
    );
    // Any fifteen letters already overflow 64 bits, before the 28-character limit is reached.
    assert_eq!(encode_rune_name(&"A".repeat(29)), Err("Rune Name Value Overflow".to_string()));
    assert_eq!(encode_rune_name(&"A".repeat(14)), Ok(2580398988131886038));
    assert_eq!(encode_rune_name("ZZZZZZZZZZZZZZ"), Err("Rune Name Value Overflow".to_string()));
    assert_eq!(encode_rune_name(&"Z".repeat(28)), Err("Rune Name Value Overflow".to_string()));
}

#[test]
fn tags_and_flags() {
    assert_eq!(Tag::Body.value(), 0);
    assert_eq!(Tag::Divisibility.value(), 1);
    assert_eq!(Tag::Flags.value(), 2);
    assert_eq!(Tag::Spacers.value(), 3);
    assert_eq!(Tag::Rune.value(), 4);
    assert_eq!(Tag::Symbol.value(), 5);
    assert_eq!(Tag::Premine.value(), 6);
    assert_eq!(Tag::Cap.value(), 8);
    assert_eq!(Tag::Amount.value(), 10);
    assert_eq!(Tag::HeightStart.value(), 12);
    assert_eq!(Tag::OffsetEnd.value(), 18);
    assert_eq!(Tag::Cenotaph.value(), 126);
    assert_eq!(Tag::Nop.value(), 127);
    assert_eq!(Flag::Etching.mask(), 1);
    assert_eq!(Flag::Terms.mask(), 2);
    assert_eq!(Flag::Turbo.mask(), 4);
    assert_eq!(Flag::Cenotaph.mask(), 1u128 << 127);
}

#[test]
fn minimal_etching_script() {
    let script = build_etching_script(&etching("A")).unwrap();
    // OP_RETURN OP_13, push of 5 bytes: flags=1, rune=0, body marker.
    assert_eq!(script, vec![0x6a, 0x5d, 0x05, 0x02, 0x01, 0x04, 0x00, 0x00]);
}

#[test]
fn readme_etching_script() {
    let mut e = etching("MYRUNE");
    e.divisibility = 6;
    e.premine = 1000;
    e.turbo = true;
    e.symbol = Some('$');
    e.edicts = Some(vec![Edict { amount: 500, output: 1 }]);
    let script = build_etching_script(&e).unwrap();
    let payload: Vec<u8> = vec![
        1, 6, // divisibility
        2, 5, // flags: etching | turbo
        4, 228, 236, 160, 79, // rune
        5, 36, // symbol '$'
        6, 232, 7, // premine
        0, // body
        0, 0, 244, 3, 1, // edict
    ];
    let mut expected = vec![0x6a, 0x5d, payload.len() as u8];
    expected.extend_from_slice(&payload);
    assert_eq!(script, expected);
}

#[test]
fn etching_with_terms_and_spacers() {
    let mut e = etching("B");
    e.spacers = 3;
    e.premine = (1u128 << 64) + 5; // truncated to 64 bits
    e.terms = Some(Terms {
        amount: Some(100),
        cap: Some(300),
        height: (Some(1), None),
        offset: (None, Some(2)),
    });
    let script = build_etching_script(&e).unwrap();
    let payload: Vec<u8> = vec![
        2, 3, // flags: etching | terms
        3, 3, // spacers
        4, 1, // rune B
        6, 5, // premine, low 64 bits
        10, 100, // amount
        8, 0xac, 0x02, // cap
        12, 1, // height start
        18, 2, // offset end
        0, // body: only edicts follow it
    ];
    let mut expected = vec![0x6a, 0x5d, payload.len() as u8];
    expected.extend_from_slice(&payload);
    assert_eq!(script, expected);
}

#[test]
fn terms_come_before_body_and_edicts_after() {
    let mut e = etching("A");
    e.terms = Some(Terms { amount: Some(1), cap: None, height: (None, None), offset: (None, None) });
    e.edicts = Some(vec![Edict { amount: 7, output: 1 }]);
    let script = build_etching_script(&e).unwrap();
    let payload: Vec<u8> = vec![
        2, 3, // flags: etching | terms
        4, 0, // rune A
        10, 1, // amount, a terms field
        0, // body
        0, 0, 7, 1, // edict: block 0, tx 0, amount 7, output 1
    ];
    let mut expected = vec![0x6a, 0x5d, payload.len() as u8];
    expected.extend_from_slice(&payload);
    assert_eq!(script, expected);
}

#[test]
fn long_payload_uses_pushdata1() {
    let mut e = etching("A");
    e.edicts = Some(vec![Edict { amount: 1, output: 2 }; 20]);
    let script = build_etching_script(&e).unwrap();
    // 5 header bytes + 20 edicts of 4 bytes = 85 bytes: OP_PUSHDATA1 85.
    assert_eq!(&script[..4], &[0x6a, 0x5d, 0x4c, 85]);
    assert_eq!(script.len(), 4 + 85);
}

#[test]
fn etching_script_refuses_bad_name() {
    assert_eq!(
        build_etching_script(&etching("lower")),
        Err("Rune name must contain only uppercase letters A-Z".to_string())
    );
    assert_eq!(build_etching_script(&etching("")), Err("Rune name cannot be empty".to_string()));
}
