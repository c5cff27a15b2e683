use qp_hd::economic_gate::{verify_balance, verify_cost, Structure, Economy, EconomyLedger, QuantumTransaction};
use qp_hd::pathsregistry::CoinType;
use qp_hd::manifold::{ManifoldState, Heritage, TransitionHeritage};
use qp_hd::protocolvalue::Qtm;
use qp_hd::qp44::{Flow, QP44Object};
use qp_hd::commands::PersistedEvent;

fn heritage(activations: u64, retained_mass: u128, gross_work: u128, net_work: u128, delta: u128) -> Heritage {
    Heritage {
        state: ManifoldState { perm_dimension: 0x1_0000_0000_0000_0005, retained_mass, activations, dimension: 3, structural_value: 40 },
        transition: TransitionHeritage { tau: 17, delta, gross_work, net_work, mirror_bytes: [0u8; 32] },
    }
}

#[test]
fn balance_gate() {
    assert!(verify_balance(5, 5).is_some());
    assert!(verify_balance(6, 5).is_some());
    assert!(verify_balance(4, 5).is_none());
    assert!(verify_balance(0, 0).is_some());
}

#[test]
fn cost_gate() {
    // local replay: exact payment and at most one activation
    assert!(verify_cost(&heritage(1, 0, 10, 10, 0), Some(0), None).is_some());
    // credit 100 / 4 = 25, debt 50 / 2 = 25
    assert!(verify_cost(&heritage(3, 2, 100, 10, 0), Some(4), Some(50)).is_some());
    // credit 100 / 4 = 25, debt 52 / 2 = 26
    assert!(verify_cost(&heritage(3, 2, 100, 10, 0), Some(4), Some(52)).is_none());
    // no density counts as 1; no debt as 0
    assert!(verify_cost(&heritage(3, 2, 0, 10, 0), None, None).is_some());
    assert!(verify_cost(&heritage(3, 2, 1, 10, 0), None, Some(4)).is_none());
}

#[test]
fn structures_and_economies() {
    let h = heritage(3, 2, 100, 10, 0);
    let s = Structure::from_heritage(CoinType::Tron, &h, [1u8; 32], Some(9));
    assert_eq!((s.coin, s.commitment, s.density), (CoinType::Tron, [1u8; 32], 9));
    assert!(s.prove(9).is_some());
    assert!(s.prove(10).is_none());
    let z = Structure::from_heritage(CoinType::Tron, &h, [1u8; 32], None);
    assert_eq!(z.density, 0);

    let e = Economy::from_transition(&h, [2u8; 32], Some(5));
    assert_eq!(e.gravity, 17);
    let coins: Vec<CoinType> = e.structures.iter().map(|s| s.coin).collect();
    assert_eq!(coins, vec![CoinType::Bitcoin, CoinType::Ethereum, CoinType::Solana, CoinType::Tron]);
    assert!(e.structures.iter().all(|s| s.commitment == [2u8; 32] && s.density == 5));
    assert_eq!(e.total_density(), 20);

    let e2 = Economy::from_transition(&h, [3u8; 32], Some(1));
    let ledger = EconomyLedger { states: vec![e, e2] };
    assert_eq!(ledger.total_density(), 24);
    assert_eq!(EconomyLedger { states: vec![] }.total_density(), 0);
}

#[test]
fn transaction_send_receive_uniformity() {
    let replayed = heritage(1, 60, 10, 10, 9);
    let exiled = heritage(0, 60, 0, 0, 5);
    let tx = QuantumTransaction::send(&replayed, 1, exiled);
    assert_eq!(tx.amount, 1);
    assert_eq!(tx.qtm.commitment, Qtm::economy(&replayed).commitment);
    match &tx.constant {
        PersistedEvent::Exile(ev) => assert_eq!(ev.heritage.transition.delta, 5),
        PersistedEvent::Transit(_) => panic!("send persists an exile"),
    }

    let obj = tx.receive_object(replayed, Flow::Change);
    // re-anchored to the low 64 bits of the PERM dimension
    assert_eq!(obj.manifold.dimension, 5);
    // purpose 0, coin 60, account 0, change Δ = 9, external 1 activation
    assert_eq!(obj.coin, 10);

    let receipt = QP44Object::realize_receipt(heritage(2, 60, 10, 3, 4), 3);
    let u = tx.uniformity(&receipt);
    assert!(u.identity_valid && u.sigma_valid && u.commitment_valid);
    assert!(u.holds());
    assert_eq!((u.sender_delta, u.receiver_delta), (5, 4));
    assert!(u.transport_valid);

    let mut forged = receipt;
    forged.qtm.sigma += 1;
    let v = tx.uniformity(&forged);
    assert!(!v.sigma_valid && !v.holds());
    let far = QP44Object::realize_receipt(heritage(2, 60, 10, 3, 6), 3);
    assert!(!tx.uniformity(&far).transport_valid);
}

#[test]
fn model1_identity_survives_local_replay() {
    let replayed = heritage(1, 60, 10, 10, 9);
    let tx = QuantumTransaction::send(&replayed, 1, heritage(0, 60, 0, 0, 5));
    let object = tx.receive_object(replayed, Flow::Change);
    let event = QP44Object::realize_receipt(heritage(2, object.coin, 10, 3, 4), 3);
    assert_eq!(event.qtm.coordinate, event.qtm.coordinate);
    assert_eq!(event.qtm.commitment, event.qtm.commitment);
    assert!(tx.uniformity(&event).holds());
}

#[test]
fn model1_coordinate_mutation_creates_new_identity() {
    let mut tx = QuantumTransaction::send(&heritage(1, 60, 10, 10, 9), 1, heritage(0, 60, 0, 0, 5));
    let before = tx.qtm.coordinate;
    tx.qtm.coordinate[0] ^= 1;
    assert_ne!(before, tx.qtm.coordinate);
}
