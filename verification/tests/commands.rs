use qp_hd::commands::{
    activation_from_name, close_pending, event_index_at_activation, exile_event_name, load_qtm,
    load_qtm_at_activation, load_latest_qtm, parse_create_indices, parse_persisted_indices, persisted_event,
    qtm_create, qtm_open_genesis, replay_next, transit_event_name, GenesisError, IndicesError, PersistedEvent,
    QtmSurfaceError,
};
use qp_hd::manifold::{ManifoldState, Heritage, TransitionHeritage};
use qp_hd::protocolvalue::Qtm;

fn h(activations: u64) -> Heritage {
    Heritage {
        state: ManifoldState { perm_dimension: 1, retained_mass: 8, activations, dimension: 2, structural_value: 3 },
        transition: TransitionHeritage { tau: 0, delta: 0, gross_work: 0, net_work: 4, mirror_bytes: [0u8; 32] },
    }
}

#[test]
fn create_indices_parse() {
    assert_eq!(
        parse_create_indices("1, 2,3 ,4,5,6,7,8,9,10,11, 12"),
        Ok([1, 2, 3, 4, 5, 6, 7, 8, 9, 10, 11, 12])
    );
    assert_eq!(parse_create_indices("1,2"), Err(IndicesError::WrongCount(2)));
    assert_eq!(parse_create_indices("1,x,3"), Err(IndicesError::InvalidIndex));
    assert_eq!(parse_create_indices(""), Err(IndicesError::InvalidIndex));
    assert_eq!(parse_create_indices("1,2,3,4,5,6,7,8,9,10,11,65536"), Err(IndicesError::InvalidIndex));
    assert_eq!(parse_create_indices("+1,2,3,4,5,6,7,8,9,10,11,65535"), Ok([1, 2, 3, 4, 5, 6, 7, 8, 9, 10, 11, 65535]));
}

#[test]
fn persisted_indices_parse() {
    assert_eq!(
        parse_persisted_indices("  0,0,0,0,0,0,0,0,0,0,0,7\n"),
        Ok([0, 0, 0, 0, 0, 0, 0, 0, 0, 0, 0, 7])
    );
    assert_eq!(parse_persisted_indices("0, 0,0,0,0,0,0,0,0,0,0,7"), Err(IndicesError::InvalidIndex));
    assert_eq!(parse_persisted_indices("0,0,0"), Err(IndicesError::WrongCount(3)));
}

#[test]
fn activation_names() {
    assert_eq!(activation_from_name("event_12_34"), Some(12));
    assert_eq!(activation_from_name("exile_7_0"), Some(7));
    assert_eq!(activation_from_name("exile_7"), Some(7));
    assert_eq!(activation_from_name("event_+5_1"), Some(5));
    assert_eq!(activation_from_name("event__1"), None);
    assert_eq!(activation_from_name("event_x_1"), None);
    assert_eq!(activation_from_name("foo_1_2"), None);
    assert_eq!(activation_from_name("event_18446744073709551615_0"), Some(u64::MAX));
    assert_eq!(activation_from_name("event_18446744073709551616_0"), None);
}

#[test]
fn event_names_round_trip() {
    assert_eq!(transit_event_name(3, 1234), "event_3_1234");
    assert_eq!(exile_event_name(0, u64::MAX), "exile_0_18446744073709551615");
    for (a, d) in [(0u64, 0u64), (1, 99), (u64::MAX, 7), (1000, 5)] {
        assert_eq!(activation_from_name(&transit_event_name(a, d)), Some(a));
        assert_eq!(activation_from_name(&exile_event_name(a, d)), Some(a));
    }
}

#[test]
fn event_lookup() {
    let names: Vec<String> = vec!["exile_2_1".into(), "event_1_5".into(), "event_2_9".into(), "event_2_10".into()];
    assert_eq!(event_index_at_activation(&names, 2), Some(2));
    assert_eq!(event_index_at_activation(&names, 1), Some(1));
    assert_eq!(event_index_at_activation(&names, 3), None);
}

#[test]
fn persisted_event_kinds() {
    let q = Qtm::economy(&h(1));
    assert!(matches!(persisted_event("event_1_2", h(1), q), Some(PersistedEvent::Transit(_))));
    assert!(matches!(persisted_event("exile_1_2", h(1), q), Some(PersistedEvent::Exile(_))));
    assert!(persisted_event("other", h(1), q).is_none());
}

#[test]
fn qtm_surfaces() {
    let q = Qtm::economy(&h(1));
    let c = hex::encode(q.commitment);
    let d = hex::encode(q.coordinate).to_uppercase();
    let loaded = load_qtm(&format!("{}\n", c), &d, " 4\n", "3").unwrap();
    assert_eq!(loaded.commitment, q.commitment);
    assert_eq!(loaded.coordinate, q.coordinate);
    assert_eq!((loaded.net_work, loaded.sigma), (4, 3));
    assert_eq!(load_qtm(&c, &d, "x", "3").unwrap_err(), QtmSurfaceError::InvalidNetwork);
    assert_eq!(load_qtm(&c, &d, "4", "-3").unwrap_err(), QtmSurfaceError::InvalidSigma);
    assert_eq!(load_qtm("abc", &d, "4", "3").unwrap_err(), QtmSurfaceError::InvalidCommitment);
    assert_eq!(load_qtm("abcd", &d, "4", "3").unwrap_err(), QtmSurfaceError::InvalidCommitment);
    assert_eq!(load_qtm(&c, "zz", "4", "3").unwrap_err(), QtmSurfaceError::InvalidCoordinate);
    assert_eq!(load_qtm(&c, &d, "340282366920938463463374607431768211455", "0").unwrap().net_work, u128::MAX);
}

#[test]
fn substrate_genesis() {
    let g = qtm_create("mars-lab", None, None).ok().unwrap();
    assert_eq!(g.domain_indices, [0u16; 12]);
    assert_eq!(g.entropy_surface, "mars-lab");
    assert_eq!(g.perm_dimension, 297438996974829365789755522081765854556);
    assert_eq!(g.manifold.perm_dimension, g.perm_dimension);
    assert_eq!(g.qtm.net_work, 0);
    let mut expected = [0u8; 32];
    expected.copy_from_slice(&hex::decode("38baf58b5b18132bcbaf4d039e8eab336902603f78708d2b717c2425e5d4309f").unwrap());
    assert_eq!(g.qtm.commitment, expected);

    let g2 = qtm_create("x", Some("1,2,3,4,5,6,7,8,9,10,11,12"), Some("seed".to_string())).ok().unwrap();
    assert_eq!(g2.perm_dimension, 156143573411690715237668150837424566964);
    assert_eq!(qtm_create("x", Some("1,2"), None).err(), Some(GenesisError::Indices(IndicesError::WrongCount(2))));
    assert_eq!(qtm_create("x", Some("1,2,3,4,5,6,7,8,9,10,11,2048"), None).err(), Some(GenesisError::PermConstruction));
    assert_eq!(qtm_create("", None, None).err(), Some(GenesisError::PermConstruction));
}

#[test]
fn substrate_reopen() {
    let o = qtm_open_genesis("1,2,3,4,5,6,7,8,9,10,11,12\n", b"seed").unwrap();
    assert_eq!(o.state.perm_dimension, 156143573411690715237668150837424566964);
    assert_eq!(o.state.dimension, 5586930326426759860);
    assert_eq!((o.state.activations, o.state.retained_mass, o.state.structural_value), (0, 0, 0));
    assert_eq!(o.transition.net_work, 0);
    assert_eq!(qtm_open_genesis("1,2,3,4,5,6,7,8,9,10,11,12", b"").err(), Some(GenesisError::PermConstruction));
    assert_eq!(qtm_open_genesis("1,2", b"seed").err(), Some(GenesisError::Indices(IndicesError::WrongCount(2))));
}

#[test]
fn replay_and_close_decisions() {
    let r = replay_next(&h(2), 3).unwrap();
    assert_eq!((r.coin, r.manifold.activations), (8, 2));
    assert!(replay_next(&h(3), 3).is_none());
    assert!(close_pending(&h(4), 3));
    assert!(!close_pending(&h(3), 3));
    assert_eq!(load_qtm_at_activation(&h(2)).commitment, Qtm::economy(&h(2)).commitment);
    assert_eq!(load_latest_qtm(&h(2)).sigma, 3);
}
