use qp_hd::qp44::{QP44, WalletRequest, QP44Event, QP44Object, PQNetEvent, Flow};
use qp_hd::pathsregistry::{CoinType, Purpose};
use qp_hd::purpose::SeedSource;
use qp_hd::manifold::{ManifoldState, Heritage, TransitionHeritage};

fn request(seed: SeedSource, coins: Vec<CoinType>) -> WalletRequest {
    WalletRequest { seed, purpose: Purpose::BIP44, coins, account: 0, index: 0 }
}

fn heritage(i: u64) -> Heritage {
    Heritage {
        state: ManifoldState { perm_dimension: 1, retained_mass: 2, activations: i, dimension: i, structural_value: 7 },
        transition: TransitionHeritage { tau: 1, delta: 11, gross_work: 2, net_work: 3, mirror_bytes: [0u8; 32] },
    }
}

#[test]
fn wallet_objects_per_coin() {
    let req = request(SeedSource::Raw(vec![7u8; 32]), vec![CoinType::Ethereum, CoinType::Solana]);
    let objs = QP44::wallet_objects(&req).unwrap();
    assert_eq!(objs.len(), 2);
    assert_eq!(objs[0].coin, 60);
    assert_eq!(objs[1].coin, 501);
    assert_eq!(objs[0].manifold.perm_dimension, 6515742533013472040763895003286137112);
    let bad = request(SeedSource::Raw(vec![1]), vec![CoinType::Bitcoin]);
    assert_eq!(QP44::wallet_objects(&bad).unwrap_err(), "Entropy must be 32 bytes (got 1)");
    let empty = request(SeedSource::Raw(vec![1]), vec![]);
    assert_eq!(QP44::wallet_objects(&empty).unwrap().len(), 0);
}

#[test]
fn wallet_outputs_from_receipts() {
    let req = request(SeedSource::Custom(vec![1, 2]), vec![CoinType::Tron, CoinType::Bitcoin]);
    let events: Vec<QP44Event> = vec![
        QP44Object::realize_receipt(heritage(1), 5),
        QP44Object::realize_receipt(heritage(2), 6),
    ];
    let outs = QP44::derive_wallet(&req, &events).unwrap();
    assert_eq!(outs[0].coin, CoinType::Tron);
    assert_eq!(outs[1].coin, CoinType::Bitcoin);
    assert_eq!(outs[0].commitment, events[0].qtm.commitment);
    assert_eq!(outs[1].coordinate, events[1].qtm.coordinate);
    let bad = request(SeedSource::Raw(vec![]), vec![CoinType::Tron]);
    let ev = vec![QP44Object::realize_receipt(heritage(1), 5)];
    assert_eq!(QP44::derive_wallet(&bad, &ev).unwrap_err(), "Entropy must be 32 bytes (got 0)");
}

#[test]
fn realize_mass_and_depth() {
    let o = QP44Object::from_quantperm(
        ManifoldState { perm_dimension: 0, retained_mass: 0, activations: 4, dimension: 9, structural_value: 0 },
        60,
    );
    let t = o.realize_mass();
    assert_eq!((t.purpose, t.coin, t.account, t.change, t.external), (44, 60, 0, 0, 4));
    let d = o.realize_depth();
    assert_eq!(d.len(), 5);
    assert_eq!(d[1].mass, 60 + 0x8000_0000);
    assert_eq!(d[4].mass, 4);
    assert_eq!(o.into_manifold().dimension, 9);
}

#[test]
fn memorize_next_objects() {
    let e = QP44Object::realize_receipt(heritage(3), 3);
    // purpose 44, coin 2 and account 3 (receive) fall below the hardened
    // offset and count 0; change 0, external 3
    let o = e.memorize(Flow::Receive);
    assert_eq!(o.coin, 3);
    // change flow carries Δ = 11
    let c = e.memorize(Flow::Change);
    assert_eq!(c.coin, 11 + 3);
    let n = PQNetEvent { heritage: heritage(3), qtm: e.qtm };
    // purpose 1, coin 3, account 0, change 11, external 3
    assert_eq!(n.next_change().coin, 14);
}
