//! Economic and proof gate: balance proofs, cost verification, structures,
//! economies, and the transaction uniformity gate.
use vstd::prelude::*;
use crate::manifold::Heritage;
use crate::protocolvalue::{Qtm, is_commit_of, witnesses, spec_coordinate, spec_commitment, lemma_economy_witnesses};
use crate::pathsregistry::{CoinType, all_coins, HARDENED_OFFSET};
use crate::qp44::{QP44Event, QP44Object, PQ44Event, Flow, TotalMass, spec_stream, spec_memorize};
use crate::commands::PersistedEvent;

verus! {

/// Seal of the balance-proof gate.
pub trait Sealed {}

/// A proof that a balance covered what was required.
pub trait BalanceProof: Sealed {}

/// Proof of a covered balance; `verify_balance` is its sole constructor.
pub struct VerifiedBalanceProof(());

impl Sealed for VerifiedBalanceProof {}

impl BalanceProof for VerifiedBalanceProof {}

impl VerifiedBalanceProof {
    fn new() -> VerifiedBalanceProof {
        VerifiedBalanceProof(())
    }
}

/// Canonical gate: a proof exactly when the balance covers the requirement.
pub fn verify_balance(balance: u128, required: u128) -> (r: Option<VerifiedBalanceProof>)
    ensures
        r is Some <==> balance >= required,
{
    if balance >= required {
        Some(VerifiedBalanceProof::new())
    } else {
        None
    }
}

/// Local manifold replay (no external debt, creditor or settlement): the
/// transition paid exactly its gross work and the manifold has at most one
/// activation.
pub open spec fn is_local_replay(h: Heritage) -> bool {
    h.transition.gross_work == h.transition.net_work && h.state.activations <= 1
}

/// The density a cost check divides the gross work by: the protocol's
/// density, or 1 where it gives none.
pub open spec fn cost_density(density: Option<u128>) -> u128 {
    match density {
        Some(d) => d,
        None => 1,
    }
}

/// What the protocol requires, or nothing where it gives no debt.
pub open spec fn cost_required(debt: Option<u128>) -> u128 {
    match debt {
        Some(d) => d,
        None => 0,
    }
}

/// Cost verification of a heritage, given the protocol's density of its
/// observation and its debt at the transition's τ: local replays pass;
/// otherwise the credit (gross work per density) must cover the debt per
/// unit of retained mass.
pub fn verify_cost(heritage: &Heritage, density: Option<u128>, debt: Option<u128>)
    -> (r: Option<VerifiedBalanceProof>)
    requires
        is_local_replay(*heritage)
            || (cost_density(density) != 0 && heritage.state.retained_mass != 0),
    ensures
        r is Some <==> (is_local_replay(*heritage) || heritage.transition.gross_work
            / cost_density(density) >= cost_required(debt) / heritage.state.retained_mass),
        heritage.transition.gross_work != heritage.transition.net_work ==> (r is Some <==>
            heritage.transition.gross_work / cost_density(density)
                >= cost_required(debt) / heritage.state.retained_mass),
        heritage.state.activations > 1 ==> (r is Some <==>
            heritage.transition.gross_work / cost_density(density)
                >= cost_required(debt) / heritage.state.retained_mass),
{
    if heritage.transition.gross_work == heritage.transition.net_work && heritage.state.activations <= 1 {
        return Some(VerifiedBalanceProof::new());
    }
    let mass = heritage.state.retained_mass;
    let d: u128 = match density {
        Some(d) => d,
        None => 1,
    };
    let required: u128 = match debt {
        Some(x) => x,
        None => 0,
    };
    let credit = heritage.transition.gross_work / d;
    let owed = required / mass;
    verify_balance(credit, owed)
}

/// A projection of a coin onto a committed heritage.
#[derive(Clone, Copy, Debug)]
pub struct Structure {
    pub coin: CoinType,
    pub commitment: [u8; 32],
    pub density: u128,
}

impl Structure {
    /// The structure of a coin over a heritage, with the protocol's density of
    /// the heritage's observation (0 where it gives none).
    pub fn from_heritage(coin: CoinType, heritage: &Heritage, commitment: [u8; 32], density: Option<u128>)
        -> (s: Structure)
        ensures
            s.coin == coin,
            s.commitment == commitment,
            s.density == (match density {
                Some(d) => d,
                None => 0,
            }),
    {
        let d = match density {
            Some(d) => d,
            None => 0,
        };
        Structure { coin, commitment, density: d }
    }

    /// A proof exactly when the structure's density covers the requirement.
    pub fn prove(&self, required: u128) -> (r: Option<VerifiedBalanceProof>)
        ensures
            r is Some <==> self.density >= required,
    {
        verify_balance(self.density, required)
    }
}

/// The sum of the densities of a sequence of structures.
pub open spec fn density_sum(s: Seq<Structure>) -> int
    decreases s.len(),
{
    if s.len() == 0 {
        0
    } else {
        density_sum(s.drop_last()) + s.last().density
    }
}

/// A pure projection of a transition onto every coin.
pub struct Economy {
    pub gravity: u128,
    pub structures: Vec<Structure>,
}

impl Economy {
    /// The total density of the economy's structures.
    pub fn total_density(&self) -> (r: u128)
        requires
            density_sum(self.structures@) <= u128::MAX,
        ensures
            r == density_sum(self.structures@),
    {
        let mut total: u128 = 0;
        let mut i: usize = 0;
        while i < self.structures.len()
            invariant
                i <= self.structures@.len(),
                total == density_sum(self.structures@.subrange(0, i as int)),
                density_sum(self.structures@) <= u128::MAX,
            decreases self.structures@.len() - i,
        {
            proof {
                lemma_density_sum_prefix(self.structures@, i as int + 1);
                assert(self.structures@.subrange(0, i as int + 1).drop_last()
                    =~= self.structures@.subrange(0, i as int));
            }
            total = total + self.structures[i].density;
            i = i + 1;
        }
        assert(self.structures@.subrange(0, i as int) =~= self.structures@);
        total
    }

    /// The economy of a transition: one structure per coin, in registry
    /// order, each with the commitment and the protocol's density; the
    /// transition's τ as gravity.
    pub fn from_transition(heritage: &Heritage, commitment: [u8; 32], density: Option<u128>) -> (e: Economy)
        ensures
            e.gravity == heritage.transition.tau,
            e.structures@.len() == 4,
            forall|i: int| 0 <= i < 4 ==> {
                &&& (#[trigger] e.structures@[i]).coin == all_coins()[i]
                &&& e.structures@[i].commitment == commitment
                &&& e.structures@[i].density == (match density {
                    Some(d) => d,
                    None => 0,
                })
            },
    {
        let coins = CoinType::all();
        let mut structures: Vec<Structure> = Vec::new();
        let mut i: usize = 0;
        while i < coins.len()
            invariant
                coins@ == all_coins(),
                i <= 4,
                structures@.len() == i,
                forall|j: int| 0 <= j < i ==> {
                    &&& (#[trigger] structures@[j]).coin == all_coins()[j]
                    &&& structures@[j].commitment == commitment
                    &&& structures@[j].density == (match density {
                        Some(d) => d,
                        None => 0,
                    })
                },
            decreases 4 - i,
        {
            structures.push(Structure::from_heritage(coins[i], heritage, commitment, density));
            i = i + 1;
        }
        Economy { gravity: heritage.transition.tau, structures }
    }
}

/// A prefix of a sequence of structures never sums to more than the whole.
proof fn lemma_density_sum_prefix(s: Seq<Structure>, k: int)
    requires
        0 <= k <= s.len(),
    ensures
        density_sum(s.subrange(0, k)) <= density_sum(s),
    decreases s.len(),
{
    if k < s.len() {
        assert(s.drop_last().subrange(0, k) =~= s.subrange(0, k));
        lemma_density_sum_prefix(s.drop_last(), k);
    } else {
        assert(s.subrange(0, k) =~= s);
    }
}

/// The total density of a sequence of economies.
pub open spec fn ledger_sum(states: Seq<Economy>) -> int
    decreases states.len(),
{
    if states.len() == 0 {
        0
    } else {
        ledger_sum(states.drop_last()) + density_sum(states.last().structures@)
    }
}

/// Optional aggregation of economies.
pub struct EconomyLedger {
    pub states: Vec<Economy>,
}

impl EconomyLedger {
    /// The total density of every structure of every economy.
    pub fn total_density(&self) -> (r: u128)
        requires
            ledger_sum(self.states@) <= u128::MAX,
        ensures
            r == ledger_sum(self.states@),
    {
        let mut total: u128 = 0;
        let mut i: usize = 0;
        while i < self.states.len()
            invariant
                i <= self.states@.len(),
                total == ledger_sum(self.states@.subrange(0, i as int)),
                ledger_sum(self.states@) <= u128::MAX,
            decreases self.states@.len() - i,
        {
            let structures = &self.states[i].structures;
            let ghost before = total;
            proof {
                lemma_ledger_sum_prefix(self.states@, i as int + 1);
                assert(self.states@.subrange(0, i as int + 1).drop_last()
                    =~= self.states@.subrange(0, i as int));
                lemma_density_sum_nonneg(structures@);
            }
            let mut j: usize = 0;
            while j < structures.len()
                invariant
                    j <= structures@.len(),
                    total == before + density_sum(structures@.subrange(0, j as int)),
                    before + density_sum(structures@) <= u128::MAX,
                decreases structures@.len() - j,
            {
                proof {
                    lemma_density_sum_prefix(structures@, j as int + 1);
                    assert(structures@.subrange(0, j as int + 1).drop_last()
                        =~= structures@.subrange(0, j as int));
                    lemma_density_sum_nonneg(structures@.subrange(0, j as int));
                }
                total = total + structures[j].density;
                j = j + 1;
            }
            assert(structures@.subrange(0, j as int) =~= structures@);
            i = i + 1;
        }
        assert(self.states@.subrange(0, i as int) =~= self.states@);
        total
    }
}

proof fn lemma_density_sum_nonneg(s: Seq<Structure>)
    ensures
        density_sum(s) >= 0,
    decreases s.len(),
{
    if s.len() > 0 {
        lemma_density_sum_nonneg(s.drop_last());
    }
}

proof fn lemma_ledger_sum_prefix(s: Seq<Economy>, k: int)
    requires
        0 <= k <= s.len(),
    ensures
        ledger_sum(s.subrange(0, k)) <= ledger_sum(s),
    decreases s.len(),
{
    if k < s.len() {
        assert(s.drop_last().subrange(0, k) =~= s.subrange(0, k));
        lemma_ledger_sum_prefix(s.drop_last(), k);
        lemma_density_sum_nonneg(s.last().structures@);
    } else {
        assert(s.subrange(0, k) =~= s);
    }
}


/// A transported state: the activation boundary, the witness at it, and the
/// persisted event the transaction carries.
pub struct QuantumTransaction {
    pub amount: u64,
    pub qtm: Qtm,
    pub constant: PersistedEvent,
}

/// The Δ a persisted event carries.
pub open spec fn persisted_delta(e: PersistedEvent) -> u128 {
    match e {
        PersistedEvent::Transit(ev) => ev.heritage.transition.delta,
        PersistedEvent::Exile(ev) => ev.heritage.transition.delta,
    }
}

/// What the uniformity gate reports of a received event.
#[derive(Clone, Copy, Debug, PartialEq, Eq, Structural)]
pub struct Uniformity {
    /// The event's coordinate is its manifold's coordinate.
    pub identity_valid: bool,
    /// The event keeps the transaction's coordinate.
    pub geometry_preserved: bool,
    /// The event's Σ is its manifold's Σ.
    pub sigma_valid: bool,
    /// The event's commitment is its manifold's commitment at the event's net work.
    pub commitment_valid: bool,
    /// The sender's persisted Δ.
    pub sender_delta: u128,
    /// The receiver's Δ.
    pub receiver_delta: u128,
    /// The receiver's Δ does not exceed the sender's.
    pub transport_valid: bool,
}

/// The uniformity report of a received event against a transaction.
pub open spec fn spec_uniformity(tx_coordinate: Seq<u8>, constant: PersistedEvent, e: QP44Event) -> Uniformity {
    Uniformity {
        identity_valid: spec_coordinate(e.heritage.state) == e.qtm.coordinate@,
        geometry_preserved: tx_coordinate == e.qtm.coordinate@,
        sigma_valid: e.heritage.state.structural_value == e.qtm.sigma,
        commitment_valid: spec_commitment(e.heritage.state, e.qtm.net_work) == e.qtm.commitment@,
        sender_delta: persisted_delta(constant),
        receiver_delta: e.heritage.transition.delta,
        transport_valid: e.heritage.transition.delta <= persisted_delta(constant),
    }
}

impl Uniformity {
    /// Geometry, Σ and commitment all check out.
    pub fn holds(&self) -> (r: bool)
        ensures
            r == (self.identity_valid && self.sigma_valid && self.commitment_valid),
    {
        self.identity_valid && self.sigma_valid && self.commitment_valid
    }
}

/// The wallet object a transaction's receive realizes: the replayed manifold,
/// re-anchored to its PERM geometry, carrying the memorized mass of the
/// replayed retained mass, the flow's stream of the re-anchored heritage and
/// the replayed activations.
pub open spec fn receive_object_of(h: Heritage, flow: Flow) -> QP44Object {
    let anchored = Heritage {
        state: crate::manifold::ManifoldState {
            dimension: (h.state.perm_dimension as int % 0x1_0000_0000_0000_0000) as u64,
            ..h.state
        },
        ..h
    };
    let (account, change) = spec_stream(flow, anchored);
    QP44Object {
        manifold: anchored.state,
        coin: spec_memorize(
            TotalMass {
                purpose: 0,
                coin: h.state.retained_mass,
                account,
                change,
                external: h.state.activations as u128,
            },
        ) as u128,
    }
}

impl QuantumTransaction {
    /// A send at an activation boundary: the witness is the economy of the
    /// replayed heritage, which the balance gate accepts; the constant is the
    /// receipt of the heritage the sender's exile produced.
    pub fn send(heritage: &Heritage, amount: u64, exiled: Heritage) -> (tx: QuantumTransaction)
        ensures
            tx.amount == amount,
            is_commit_of(tx.qtm, heritage.state, heritage.transition.net_work),
            tx.constant matches PersistedEvent::Exile(ev)
                && ev.heritage == exiled
                && is_commit_of(ev.qtm, exiled.state, exiled.transition.net_work),
    {
        let qtm = Qtm::economy(heritage);
        proof {
            lemma_economy_witnesses(*heritage, qtm);
        }
        match PQ44Event::balance(*heritage, &qtm) {
            Ok(_) => {},
            Err(_) => {
                assert(false);
            },
        }
        let balance = PQ44Event::after_exile(exiled);
        QuantumTransaction { amount, qtm, constant: PersistedEvent::Exile(balance) }
    }

    /// The wallet object a receive realizes from the heritage replayed up to
    /// the transaction's activation boundary.
    pub fn receive_object(&self, heritage: Heritage, flow: Flow) -> (o: QP44Object)
        ensures
            o == receive_object_of(heritage, flow),
            o.coin == spec_memorize(TotalMass {
                purpose: 0,
                coin: heritage.state.retained_mass,
                account: spec_stream(flow, heritage).0,
                change: spec_stream(flow, heritage).1,
                external: heritage.state.activations as u128,
            }),
    {
        let mut heritage = heritage;
        let prev_mass = heritage.state.retained_mass;
        let amount = heritage.state.activations;
        heritage.state.set_initial_dimension_from_perm();
        let (account, change) = flow.stream(&heritage);
        let manifold = heritage.state;
        let mass = TotalMass::from_memorized(0, prev_mass, account, change, amount as u128).memorize();
        QP44Object { manifold, coin: mass }
    }

    /// The uniformity report of a received event.
    pub fn uniformity(&self, event: &QP44Event) -> (u: Uniformity)
        ensures
            u == spec_uniformity(self.qtm.coordinate@, self.constant, *event),
    {
        let expected_coordinate = Qtm::derive_coordinate(&event.heritage.state);
        let identity_valid = crate::digest::bytes32_eq(&expected_coordinate, &event.qtm.coordinate);
        let geometry_preserved = crate::digest::bytes32_eq(&self.qtm.coordinate, &event.qtm.coordinate);
        let sigma_valid = event.heritage.state.structural_value == event.qtm.sigma;
        let expected = Qtm::commit(&event.heritage.state, event.qtm.net_work);
        let commitment_valid = crate::digest::bytes32_eq(&expected.commitment, &event.qtm.commitment);
        let sender_delta = match &self.constant {
            PersistedEvent::Transit(ev) => ev.heritage.transition.delta,
            PersistedEvent::Exile(ev) => ev.heritage.transition.delta,
        };
        let receiver_delta = event.heritage.transition.delta;
        Uniformity {
            identity_valid,
            geometry_preserved,
            sigma_valid,
            commitment_valid,
            sender_delta,
            receiver_delta,
            transport_valid: receiver_delta <= sender_delta,
        }
    }
}

/// The local-replay exception needs both conditions: a transition that did
/// not pay exactly its gross work, or a manifold past its first activation,
/// is never exempt from the credit/debt comparison.
pub proof fn lemma_cost_exemption_needs_both(h: Heritage)
    ensures
        h.transition.gross_work != h.transition.net_work ==> !is_local_replay(h),
        h.state.activations > 1 ==> !is_local_replay(h),
        h.state.activations <= 1 && h.transition.net_work == h.transition.gross_work
            ==> is_local_replay(h),
{
}

/// A receive memorizes along the caller's flow: its coin is the memorized
/// mass of purpose 0, the replayed retained mass as coin, the flow's stream
/// of the replayed heritage as account and change, and the activations as
/// external mass. Below the hardened offset, a Receive realizes just the
/// activations, and a Change realizes them plus the transition's Δ.
pub proof fn lemma_receive_streams_flow(h: Heritage, flow: Flow)
    ensures
        receive_object_of(h, flow).coin == spec_memorize(TotalMass {
            purpose: 0,
            coin: h.state.retained_mass,
            account: spec_stream(flow, h).0,
            change: spec_stream(flow, h).1,
            external: h.state.activations as u128,
        }),
        receive_object_of(h, Flow::Receive).coin == spec_memorize(TotalMass {
            purpose: 0,
            coin: h.state.retained_mass,
            account: h.state.activations as u128,
            change: 0,
            external: h.state.activations as u128,
        }),
        (h.state.retained_mass < HARDENED_OFFSET && h.state.activations < HARDENED_OFFSET
            && h.state.activations + h.transition.delta <= u128::MAX) ==> {
            &&& receive_object_of(h, Flow::Receive).coin == h.state.activations
            &&& receive_object_of(h, Flow::Change).coin == h.state.activations + h.transition.delta
        },
{
}

/// A receipt is always uniform: the event a realized transition returns
/// passes the geometry, Σ and commitment checks, whatever the transaction.
pub proof fn lemma_receipt_is_uniform(tx_coordinate: Seq<u8>, constant: PersistedEvent, e: QP44Event, net_work: u128)
    requires
        is_commit_of(e.qtm, e.heritage.state, net_work),
    ensures
        spec_uniformity(tx_coordinate, constant, e).identity_valid,
        spec_uniformity(tx_coordinate, constant, e).sigma_valid,
        spec_uniformity(tx_coordinate, constant, e).commitment_valid,
{
}

} // verus!
