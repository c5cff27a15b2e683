//! Verified core of the QuantPerm / QTM substrate runtime: deterministic
//! manifolds from seeds, QTM coordinate/commitment pairs, the QP44 projection,
//! the economic gates, and the decisions of the substrate commands.

pub mod encoding;
pub mod digest;
pub mod text;
pub mod strings;
pub mod manifold;
pub mod protocolvalue;
pub mod pathsregistry;
pub mod purpose;
pub mod qp44;
pub mod economic_gate;
pub mod commands;

pub use qp44::{QP44, WalletRequest, Flow, PQ44Object, PQ44Event, QP44Event, QP44Object, TotalMass};
pub use purpose::{Purpose, QuantPermBuilder};
pub use protocolvalue::Qtm;
pub use pathsregistry::PathsRegistry;
pub use manifold::{ManifoldState, Heritage, TransitionHeritage};
pub use economic_gate::{verify_balance, verify_cost, VerifiedBalanceProof, BalanceProof, Sealed,
    Structure, Economy, EconomyLedger, QuantumTransaction, Uniformity};
pub use commands::{PersistedEvent, activation_from_name, load_qtm, load_qtm_at_activation,
    load_latest_qtm, qtm_create, qtm_open_genesis, replay_next, close_pending,
    event_index_at_activation, persisted_event, transit_event_name, exile_event_name, HeritageEvent};
