use qp_hd::pathsregistry::{CoinType, Purpose, PathsRegistry, PURPOSE_44, HARDENED_OFFSET};
use qp_hd::qp44::{TotalMass, Flow};
use qp_hd::manifold::{ManifoldState, Heritage, TransitionHeritage};

#[test]
fn coin_types() {
    assert_eq!(CoinType::Bitcoin.retained_mass(), 0);
    assert_eq!(CoinType::Ethereum.retained_mass(), 60);
    assert_eq!(CoinType::Tron.retained_mass(), 195);
    assert_eq!(CoinType::Solana.retained_mass(), 501);
    assert_eq!(CoinType::Bitcoin.name(), "Bitcoin");
    assert_eq!(CoinType::Ethereum.name(), "Ethereum");
    assert_eq!(CoinType::Tron.name(), "Tron");
    assert_eq!(CoinType::Solana.name(), "Solana");
    assert_eq!(
        CoinType::all(),
        &[CoinType::Bitcoin, CoinType::Ethereum, CoinType::Solana, CoinType::Tron]
    );
}

#[test]
fn purposes_and_paths() {
    assert_eq!(Purpose::BIP44.value(), 44);
    assert_eq!(Purpose::BIP32.value(), 32);
    assert_eq!(Purpose::Custom(7).value(), 7);
    assert_eq!(PathsRegistry::get_path(CoinType::Bitcoin), "m/44'/0'/0'/0/0");
    assert_eq!(PathsRegistry::get_path(CoinType::Ethereum), "m/44'/60'/0'/0/0");
    assert_eq!(PathsRegistry::get_path(CoinType::Solana), "m/44'/501'/0'/0'");
    assert_eq!(PathsRegistry::get_path(CoinType::Tron), "m/44'/195'/0'/0/0");
    assert_eq!(PURPOSE_44, 44);
    assert_eq!(HARDENED_OFFSET, 0x8000_0000);
}

#[test]
fn memorize_plain_and_hardened() {
    assert_eq!(TotalMass::new(44, 60, 0, 0, 5).memorize(), 5);
    let h = HARDENED_OFFSET;
    assert_eq!(TotalMass::new(44 + h, 60 + h, 1 + h, 2, 3).memorize(), 44 + 60 + 1 + 2 + 3);
    assert_eq!(TotalMass::from_memorized(0, 10, 20, 30, 40).memorize(), 30 + 40);
}

#[test]
fn memorize_saturates() {
    let t = TotalMass::new(u128::MAX, u128::MAX, 0, 0, 0);
    assert_eq!(t.memorize(), u128::MAX);
    let t = TotalMass::new(0, 0, 0, u128::MAX, 1);
    assert_eq!(t.memorize(), u128::MAX);
}

#[test]
fn memorize_undoes_hardening() {
    let t = TotalMass::new(1, 60, 2, 3, 4);
    let d = t.deep(&ManifoldState { perm_dimension: 0, retained_mass: 0, activations: 0, dimension: 0, structural_value: 0 });
    let hardened = TotalMass::new(d[0].mass, d[1].mass, d[2].mass, d[3].mass, d[4].mass);
    assert_eq!(hardened.memorize(), 1 + 60 + 2 + 3 + 4);
}

#[test]
fn deep_levels() {
    let m = ManifoldState { perm_dimension: 1, retained_mass: 2, activations: 3, dimension: 77, structural_value: 5 };
    let d = TotalMass::new(44, 60, 0, 9, u128::MAX).deep(&m);
    let labels: Vec<&str> = d.iter().map(|e| e.label).collect();
    assert_eq!(labels, vec!["purpose", "coin", "account", "change", "external"]);
    let masses: Vec<u128> = d.iter().map(|e| e.mass).collect();
    assert_eq!(masses, vec![44 + HARDENED_OFFSET, 60 + HARDENED_OFFSET, HARDENED_OFFSET, 9, u128::MAX]);
    assert!(d.iter().enumerate().all(|(i, e)| e.level as usize == i && e.dimension == 77));
    let s = TotalMass::new(u128::MAX, 0, 0, 0, 0).deep(&m);
    assert_eq!(s[0].mass, u128::MAX);
}

#[test]
fn flow_streams() {
    let h = Heritage {
        state: ManifoldState { perm_dimension: 1, retained_mass: 2, activations: 3, dimension: 4, structural_value: 5 },
        transition: TransitionHeritage { tau: 6, delta: 7, gross_work: 8, net_work: 9, mirror_bytes: [0u8; 32] },
    };
    assert_eq!(Flow::Receive.stream(&h), (3, 0));
    assert_eq!(Flow::Change.stream(&h), (0, 7));
}
