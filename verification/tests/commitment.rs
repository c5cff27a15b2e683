use qp_hd::manifold::{ManifoldState, Heritage, TransitionHeritage};
use qp_hd::protocolvalue::{Qtm, WitnessMismatch, DimensionObservation, Value};
use qp_hd::pathsregistry::{PathsRegistry, CoinType};
use qp_hd::qp44::{PQ44Event, QP44Object, PQNetObject};

fn manifold(dimension: u64, structural_value: u128) -> ManifoldState {
    ManifoldState {
        perm_dimension: 9,
        retained_mass: 3,
        activations: 2,
        dimension,
        structural_value,
    }
}

fn heritage(m: ManifoldState, net_work: u128) -> Heritage {
    Heritage {
        state: m,
        transition: TransitionHeritage { tau: 4, delta: 6, gross_work: 10, net_work, mirror_bytes: [0u8; 32] },
    }
}

fn bytes32(hex_text: &str) -> [u8; 32] {
    let v = hex::decode(hex_text).unwrap();
    let mut out = [0u8; 32];
    out.copy_from_slice(&v);
    out
}

#[test]
fn coordinate_known_answer() {
    let c = Qtm::derive_coordinate(&manifold(0, 0));
    assert_eq!(c, bytes32("bfa1386729031b48a9f1210cb9c046b7805d42cafd7b177dc92f7bcbc9c1ac5d"));
}

#[test]
fn coordinate_matches_blake3_of_message() {
    let m = manifold(0x0102_0304_0506_0708, 0xAABB);
    let mut msg = b"QP44::COORD::V1".to_vec();
    msg.extend_from_slice(&m.dimension.to_le_bytes());
    msg.extend_from_slice(&m.structural_value.to_le_bytes());
    assert_eq!(Qtm::derive_coordinate(&m), *blake3::hash(&msg).as_bytes());
}

#[test]
fn commit_known_answer() {
    let q = Qtm::commit(&manifold(5, 1000), 77);
    assert_eq!(q.coordinate, bytes32("b67c52c8b877185150ebb732af95095a107ccd3a197850c6bbb91064158ff687"));
    assert_eq!(q.commitment, bytes32("6d9d58ebd59a3e09fcc224524906fa81da3435b624f6268325c0ee0037a99175"));
    assert_eq!(q.sigma, 1000);
    assert_eq!(q.net_work, 77);
}

#[test]
fn coordinate_ignores_mass_and_activations() {
    let a = ManifoldState { perm_dimension: 1, retained_mass: 0, activations: 0, dimension: 5, structural_value: 1000 };
    let b = ManifoldState { perm_dimension: 2, retained_mass: 99, activations: 42, dimension: 5, structural_value: 1000 };
    assert_eq!(Qtm::derive_coordinate(&a), Qtm::derive_coordinate(&b));
    let c = ManifoldState { dimension: 6, ..b };
    assert_ne!(Qtm::derive_coordinate(&a), Qtm::derive_coordinate(&c));
}

#[test]
fn commitment_binds_net_work() {
    let m = manifold(5, 1000);
    assert_ne!(Qtm::commit(&m, 1).commitment, Qtm::commit(&m, 2).commitment);
    assert_eq!(Qtm::commit(&m, 1).coordinate, Qtm::commit(&m, 2).coordinate);
}

#[test]
fn economy_commits_heritage_net_work() {
    let h = heritage(manifold(5, 1000), 77);
    let q = Qtm::economy(&h);
    assert_eq!(q.commitment, bytes32("6d9d58ebd59a3e09fcc224524906fa81da3435b624f6268325c0ee0037a99175"));
    let r = PathsRegistry::resolve_value(&h);
    assert_eq!(r.commitment, q.commitment);
}

#[test]
fn witness_of_economy_is_accepted() {
    let h = heritage(manifold(11, 12), 13);
    let q = Qtm::economy(&h);
    assert_eq!(Qtm::check_witness(&h, &q), Ok(()));
}

#[test]
fn witness_mismatches_are_reported() {
    let h = heritage(manifold(11, 12), 13);
    let mut q = Qtm::economy(&h);
    q.coordinate[0] ^= 1;
    assert_eq!(Qtm::check_witness(&h, &q), Err(WitnessMismatch::Coordinate));
    let mut q = Qtm::economy(&h);
    q.commitment[31] ^= 0x80;
    assert_eq!(Qtm::check_witness(&h, &q), Err(WitnessMismatch::Commitment));
}

#[test]
fn pq44_balance_and_exile_receipt() {
    let h = heritage(manifold(11, 12), 13);
    let q = Qtm::economy(&h);
    let back = PQ44Event::balance(h, &q).unwrap();
    assert_eq!(back.state.dimension, 11);
    let mut bad = q;
    bad.coordinate[3] ^= 4;
    assert_eq!(PQ44Event::balance(h, &bad).err(), Some(WitnessMismatch::Coordinate));
    let exiled = heritage(manifold(10, 12), 0);
    let e = PQ44Event::after_exile(exiled);
    assert_eq!(e.qtm.coordinate, Qtm::derive_coordinate(&exiled.state));
    assert_eq!(e.qtm.net_work, 0);
    let o = e.into_object();
    assert_eq!(o.coin, 0);
    assert_eq!(o.manifold.dimension, 10);
    assert!(PQ44Event::balance_until_pending(&h, 1));
    assert!(!PQ44Event::balance_until_pending(&h, 2));
}

#[test]
fn network_object_checks_its_witness() {
    let h = heritage(manifold(1, 2), 3);
    let q = Qtm::economy(&h);
    let obj = PQNetObject::try_balance(h, q).ok().unwrap();
    let ev = obj.observe();
    assert_eq!(ev.qtm.commitment, q.commitment);
    let mut bad = q;
    bad.commitment[0] ^= 1;
    assert_eq!(PQNetObject::try_balance(h, bad).err(), Some(WitnessMismatch::Commitment));
}

#[test]
fn realize_receipt_commits_given_net_work() {
    let h = heritage(manifold(5, 1000), 1);
    let e = QP44Object::realize_receipt(h, 77);
    assert_eq!(e.qtm.commitment, bytes32("6d9d58ebd59a3e09fcc224524906fa81da3435b624f6268325c0ee0037a99175"));
}

#[test]
fn value_projection() {
    let h = heritage(manifold(5, 1000), 1);
    let v: Value = Value::heritage_value(&h, Some(8));
    assert_eq!((v.dimension, v.structural_value, v.activations, v.density), (5, 1000, 2, Some(8)));
    let obs = DimensionObservation::of(&h.state);
    let w = Qtm::from_observation(&obs, None);
    assert_eq!(w.density, None);
    assert_eq!(w.structural_value, 1000);
}

#[test]
fn registry_derive_uses_coordinate() {
    let m = manifold(0, 0);
    let p = PathsRegistry::derive(CoinType::Ethereum, &m);
    assert_eq!(p.path, "m/44'/60'/0'/0/0");
    assert_eq!(p.coordinate, bytes32("bfa1386729031b48a9f1210cb9c046b7805d42cafd7b177dc92f7bcbc9c1ac5d"));
    assert_eq!(PathsRegistry::derive_coordinate(&m), p.coordinate);
}
