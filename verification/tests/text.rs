use qp_hd::strings::{parse_decimal, split_str, trim_str, str_starts_with};
use qp_hd::commands::{indices_surface, heritage_surfaces, genesis_surfaces, load_qtm, parse_create_indices,
    parse_persisted_indices, qtm_create, qtm_open_genesis};
use qp_hd::manifold::{ManifoldState, Heritage, TransitionHeritage};
use qp_hd::protocolvalue::Qtm;

const SAMPLES: &[&str] = &[
    "", " ", "0", "7", "+7", "+", "-7", "007", " 12 ", "\t12\n", "\u{a0}12\u{2028}", "\u{3000}9\u{85}",
    "1 2", "65535", "65536", "18446744073709551615", "18446744073709551616",
    "340282366920938463463374607431768211455", "340282366920938463463374607431768211456", "x1", "1x",
    "\u{200b}5",
];

#[test]
fn trim_agrees_with_std() {
    for s in SAMPLES {
        assert_eq!(trim_str(s), s.trim(), "trim of {:?}", s);
    }
}

#[test]
fn parse_agrees_with_std() {
    for s in SAMPLES {
        assert_eq!(parse_decimal(s, u16::MAX as u128).map(|v| v as u16), s.parse::<u16>().ok(), "u16 {:?}", s);
        assert_eq!(parse_decimal(s, u64::MAX as u128).map(|v| v as u64), s.parse::<u64>().ok(), "u64 {:?}", s);
        assert_eq!(parse_decimal(s, u128::MAX), s.parse::<u128>().ok(), "u128 {:?}", s);
    }
}

#[test]
fn split_agrees_with_std() {
    for s in ["", ",", "a,b", ",a,,b,", "1,2,3", "é,ü"] {
        let ours: Vec<&str> = split_str(s, ',');
        let std: Vec<&str> = s.split(',').collect();
        assert_eq!(ours, std);
    }
    assert!(str_starts_with("event_1", "event_"));
    assert!(!str_starts_with("even", "event_"));
}

#[test]
fn index_surface_reads_back() {
    let ix = [0u16, 1, 9, 10, 99, 100, 2047, 65535, 5, 6, 7, 8];
    let s = indices_surface(&ix);
    assert_eq!(s, "0,1,9,10,99,100,2047,65535,5,6,7,8");
    assert_eq!(parse_create_indices(&s), Ok(ix));
    assert_eq!(parse_persisted_indices(&format!("{}\n", s)), Ok(ix));
}

#[test]
fn heritage_surfaces_read_back() {
    let h = Heritage {
        state: ManifoldState { perm_dimension: 1, retained_mass: 2, activations: 3, dimension: 4, structural_value: 5 },
        transition: TransitionHeritage { tau: 6, delta: 7, gross_work: 8, net_work: u128::MAX, mirror_bytes: [0xabu8; 32] },
    };
    let q = Qtm::economy(&h);
    let files = heritage_surfaces(&h, &q);
    let names: Vec<&str> = files.iter().map(|f| f.name).collect();
    assert_eq!(
        names,
        vec![
            "manifold.dimension", "manifold.structural_value", "manifold.activations", "manifold.retained_mass",
            "transition.mirror", "transition.tau", "transition.delta", "transition.gross_work",
            "transition.net_work", "qtm.commitment", "qtm.coordinate", "qtm.network", "qtm.sigma",
        ]
    );
    assert_eq!(files[0].contents, "4");
    assert_eq!(files[4].contents, "ab".repeat(32));
    assert_eq!(files[8].contents, u128::MAX.to_string());
    assert_eq!(files[9].contents, hex::encode(q.commitment));
    let back = load_qtm(&files[9].contents, &files[10].contents, &files[11].contents, &files[12].contents).unwrap();
    assert_eq!((back.commitment, back.coordinate, back.net_work, back.sigma), (q.commitment, q.coordinate, q.net_work, q.sigma));
}

#[test]
fn created_substrate_reopens_to_same_perm() {
    let g = qtm_create("venus-lab", Some("3,1,4,1,5,9,2,6,5,3,5,8"), None).ok().unwrap();
    let files = genesis_surfaces(&g);
    assert_eq!(files[0].name, "perm.dimension");
    assert_eq!(files[0].contents, g.perm_dimension.to_string());
    assert_eq!(files[1].contents, "3,1,4,1,5,9,2,6,5,3,5,8");
    assert_eq!(files[2].contents, "venus-lab");
    let reopened = qtm_open_genesis(&files[1].contents, files[2].contents.as_bytes()).unwrap();
    assert_eq!(reopened.state.perm_dimension, g.perm_dimension);
    assert_eq!(reopened.state.dimension, g.perm_dimension as u64);
    let q = load_qtm(&files[3].contents, &files[4].contents, &files[5].contents, &files[6].contents).unwrap();
    assert_eq!(q.commitment, g.qtm.commitment);
}
