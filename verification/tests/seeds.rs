use qp_hd::purpose::{BIP39Handler, BIP39Language, BIP39Error, Purpose, QuantPermBuilder, SeedSource};

const ABANDON_ABOUT: &str =
    "abandon abandon abandon abandon abandon abandon abandon abandon abandon abandon abandon about";
const ABANDON_ART: &str = "abandon abandon abandon abandon abandon abandon abandon abandon abandon abandon abandon abandon abandon abandon abandon abandon abandon abandon abandon abandon abandon abandon abandon art";

fn hex32(s: &str) -> [u8; 32] {
    let v = hex::decode(s).unwrap();
    let mut out = [0u8; 32];
    out.copy_from_slice(&v);
    out
}

#[test]
fn mnemonic_indices_are_word_indices() {
    let ix = BIP39Handler::mnemonic_indices(ABANDON_ABOUT, BIP39Language::English).unwrap();
    assert_eq!(ix, [0, 0, 0, 0, 0, 0, 0, 0, 0, 0, 0, 3]);
    let list = bip39::Language::English.word_list();
    let words: Vec<&str> = ABANDON_ABOUT.split_whitespace().collect();
    for (i, w) in words.iter().enumerate() {
        assert_eq!(list[ix[i] as usize], *w);
    }
}

#[test]
fn mnemonic_indices_of_other_phrase() {
    let phrase = "legal winner thank year wave sausage worth useful legal winner thank yellow";
    let ix = BIP39Handler::mnemonic_indices(phrase, BIP39Language::French).unwrap();
    let list = bip39::Language::English.word_list();
    let expected: Vec<u16> = phrase
        .split_whitespace()
        .map(|w| list.iter().position(|x| x == &w).unwrap() as u16)
        .collect();
    assert_eq!(ix.to_vec(), expected);
    assert!(ix.iter().all(|&i| i < 2048));
}

#[test]
fn mnemonic_indices_errors() {
    match BIP39Handler::mnemonic_indices(ABANDON_ART, BIP39Language::English) {
        Err(BIP39Error::UnsupportedWordCount(n)) => assert_eq!(n, 24),
        _ => panic!("expected unsupported word count"),
    }
    match BIP39Handler::mnemonic_indices("abandon abandon abandon abandon abandon abandon abandon abandon abandon abandon abandon abandon", BIP39Language::English) {
        Err(BIP39Error::InvalidMnemonic(t)) => assert_eq!(t, "the mnemonic has an invalid checksum"),
        _ => panic!("expected invalid mnemonic"),
    }
}

#[test]
fn error_messages() {
    assert_eq!(BIP39Error::InvalidMnemonic("x".to_string()).message(), "Invalid mnemonic phrase: x");
    assert_eq!(BIP39Error::InvalidLanguage.message(), "Invalid mnemonic language");
    assert_eq!(
        BIP39Error::InvalidEntropyLength { expected: 16, actual: 20 }.message(),
        "Invalid entropy length: expected 16, got 20"
    );
    assert_eq!(BIP39Error::UnsupportedWordCount(0).message(), "Unsupported word count: 0");
    assert_eq!(BIP39Error::UnsupportedWordCount(1234567).message(), "Unsupported word count: 1234567");
}

#[test]
fn language_detection() {
    assert_eq!(BIP39Handler::detect_language(ABANDON_ABOUT).unwrap(), BIP39Language::English);
    match BIP39Handler::detect_language("not a mnemonic") {
        Err(BIP39Error::InvalidMnemonic(t)) => assert_eq!(t, "Could not detect language"),
        _ => panic!("expected failure"),
    }
    assert_eq!(BIP39Handler::detect_language_opt(ABANDON_ABOUT), Some(BIP39Language::English));
    assert_eq!(BIP39Handler::detect_language_opt("hello world"), None);
    assert_eq!(BIP39Handler::all_languages().len(), 10);
    assert_eq!(BIP39Handler::all_languages()[0], BIP39Language::English);
    assert_eq!(BIP39Handler::all_languages()[9], BIP39Language::Portuguese);
}

#[test]
fn mnemonic_conditioning_entropy() {
    let e = BIP39Handler::mnemonic_entropy(ABANDON_ABOUT, BIP39Language::English, None).unwrap();
    assert_eq!(e, hex32("d511f2f13703f482af12d941516c95f5d2fc620bcfa276d93799342115bf3543"));
    let t = BIP39Handler::mnemonic_entropy(ABANDON_ABOUT, BIP39Language::English, Some("TREZOR")).unwrap();
    assert_eq!(t, hex32("36fcdc2c6faef36c26d719e929397e3a10b017d65e7972fda81f8ec306907aac"));
    assert!(BIP39Handler::mnemonic_entropy("hello world", BIP39Language::English, None).is_err());
}

#[test]
fn raw_indices() {
    let ix = Purpose::derive_raw_indices(&[0u8; 32]);
    assert_eq!(ix, [470, 286, 467, 1672, 760, 934, 267, 1447, 793, 623, 343, 52]);
    let ix7 = Purpose::derive_raw_indices(&[7u8; 32]);
    assert_eq!(ix7, [1292, 1777, 1514, 850, 742, 472, 1179, 505, 119, 728, 1970, 514]);
}

#[test]
fn entropy_validation() {
    assert_eq!(Purpose::validate_entropy(&[1u8; 32]).unwrap(), [1u8; 32]);
    assert_eq!(Purpose::validate_entropy(&[1u8; 5]).unwrap_err(), "Entropy must be 32 bytes (got 5)");
    assert_eq!(Purpose::validate_entropy(&[]).unwrap_err(), "Entropy must be 32 bytes (got 0)");
    assert_eq!(Purpose::hash_to_entropy(b"hello"), *blake3::hash(b"hello").as_bytes());
}

#[test]
fn seeds_resolve_to_fresh_manifolds() {
    let raw = Purpose::quantperm_seed(SeedSource::Raw(vec![7u8; 32])).unwrap();
    assert_eq!(raw.perm_dimension, 6515742533013472040763895003286137112);
    assert_eq!((raw.retained_mass, raw.activations, raw.dimension, raw.structural_value), (0, 0, 0, 0));
    let custom = Purpose::quantperm_seed(SeedSource::Custom(b"hello".to_vec())).unwrap();
    assert_eq!(custom.perm_dimension, 228335644894640221565840075038516356163);
    let bip = Purpose::quantperm_seed(SeedSource::BIP39 {
        phrase: ABANDON_ABOUT.to_string(),
        language: BIP39Language::English,
        passphrase: None,
    })
    .unwrap();
    assert_eq!(bip.perm_dimension, 259632258362734392983912256061526238991);
    let trezor = Purpose::quantperm_seed(SeedSource::BIP39 {
        phrase: ABANDON_ABOUT.to_string(),
        language: BIP39Language::English,
        passphrase: Some("TREZOR".to_string()),
    })
    .unwrap();
    assert_eq!(trezor.perm_dimension, 135811929207408925810865750651066900056);
}

#[test]
fn seed_errors() {
    assert_eq!(
        Purpose::quantperm_seed(SeedSource::Raw(vec![1, 2, 3])).unwrap_err(),
        "Entropy must be 32 bytes (got 3)"
    );
    assert_eq!(
        Purpose::quantperm_seed(SeedSource::BIP39 {
            phrase: ABANDON_ART.to_string(),
            language: BIP39Language::English,
            passphrase: None,
        })
        .unwrap_err(),
        "Unsupported word count: 24"
    );
    assert_eq!(
        Purpose::quantperm_seed(SeedSource::BIP39 {
            phrase: "hello world".to_string(),
            language: BIP39Language::English,
            passphrase: None,
        })
        .unwrap_err(),
        "Invalid mnemonic phrase: mnemonic has an invalid word count: 2. Word count must be 12, 15, 18, 21, or 24"
    );
}

#[test]
fn seed_is_deterministic() {
    let a = Purpose::quantperm_seed(SeedSource::Custom(vec![1, 2, 3])).unwrap();
    let b = Purpose::quantperm_seed(SeedSource::Custom(vec![1, 2, 3])).unwrap();
    let c = Purpose::quantperm_seed(SeedSource::Custom(vec![1, 2, 4])).unwrap();
    assert_eq!(a.perm_dimension, b.perm_dimension);
    assert_ne!(a.perm_dimension, c.perm_dimension);
}

#[test]
fn builder() {
    assert_eq!(QuantPermBuilder::new().build().unwrap_err(), "Missing seed");
    let m = QuantPermBuilder::from_entropy([7u8; 32]).build().unwrap();
    assert_eq!(m.perm_dimension, 6515742533013472040763895003286137112);
    let c = QuantPermBuilder::from_custom(b"hello".to_vec()).build().unwrap();
    assert_eq!(c.perm_dimension, 228335644894640221565840075038516356163);
    let b = QuantPermBuilder::from_mnemonic(ABANDON_ABOUT.to_string()).build().unwrap();
    assert_eq!(b.perm_dimension, 259632258362734392983912256061526238991);
    let p = QuantPermBuilder::quantperm_from_perm(42).unwrap();
    assert_eq!((p.perm_dimension, p.dimension, p.activations), (42, 0, 0));
}

#[test]
fn perm_from_indices_matches_quantom_value() {
    let ix = [1u16, 2, 3, 4, 5, 6, 7, 8, 9, 10, 11, 12];
    let e = [9u8; 32];
    let d = Purpose::perm_from_indices(&ix, &e);
    let expected = quantom_value::Perm::genesis_construct(&ix, &e).unwrap().dimension();
    assert_eq!(d, expected);
}
