//! QP44 projection: total mass, flows, wallet objects and their receipts.
use vstd::prelude::*;
use crate::manifold::{ManifoldState, Heritage};
use crate::protocolvalue::{Qtm, WitnessMismatch, is_commit_of, witnesses};
use crate::pathsregistry::{CoinType, Purpose, WalletOutput, PURPOSE_44, HARDENED_OFFSET, coin_number};
use crate::purpose::{SeedSource, Purpose as SeedPurpose, spec_seed_perm, is_fresh_over};

verus! {

/// `a + b`, saturated at `u128::MAX`.
pub open spec fn sat_add(a: int, b: int) -> int {
    if a + b > u128::MAX { u128::MAX as int } else { a + b }
}

/// `a - b`, saturated at zero.
pub open spec fn sat_sub(a: int, b: int) -> int {
    if a >= b { a - b } else { 0 }
}

#[derive(Clone, Copy, Debug, PartialEq, Eq, Structural)]
pub struct TotalMass {
    pub purpose: u128,
    pub coin: u128,
    pub account: u128,
    pub change: u128,
    pub external: u128,
}

/// The mass a path memorizes: its hardened levels with the hardened offset
/// removed, plus change and external, every step saturating.
pub open spec fn spec_memorize(t: TotalMass) -> int {
    sat_add(
        sat_add(
            sat_add(
                sat_add(sat_sub(t.purpose as int, HARDENED_OFFSET as int),
                    sat_sub(t.coin as int, HARDENED_OFFSET as int)),
                sat_sub(t.account as int, HARDENED_OFFSET as int),
            ),
            t.change as int,
        ),
        t.external as int,
    )
}

/// One level of a path's retention depth.
#[derive(Clone, Copy, Debug)]
pub struct DepthEntry {
    pub label: &'static str,
    pub level: u8,
    pub mass: u128,
    pub dimension: u64,
}

/// The retention depth of a path on a manifold: purpose, coin and account
/// hardened (saturating), change and external as they are, each retained at
/// the manifold's dimension.
pub open spec fn depth_masses(t: TotalMass) -> Seq<int> {
    seq![
        sat_add(t.purpose as int, HARDENED_OFFSET as int),
        sat_add(t.coin as int, HARDENED_OFFSET as int),
        sat_add(t.account as int, HARDENED_OFFSET as int),
        t.change as int,
        t.external as int,
    ]
}

pub open spec fn depth_labels() -> Seq<Seq<char>> {
    seq!["purpose"@, "coin"@, "account"@, "change"@, "external"@]
}

/// `d` is the retention depth of `t` on a manifold of the given dimension.
pub open spec fn is_depth_of(d: Seq<DepthEntry>, t: TotalMass, dimension: u64) -> bool {
    &&& d.len() == 5
    &&& forall|i: int| 0 <= i < 5 ==> {
        &&& (#[trigger] d[i]).label@ == depth_labels()[i]
        &&& d[i].level == i
        &&& d[i].mass == depth_masses(t)[i]
        &&& d[i].dimension == dimension
    }
}

impl TotalMass {
    pub fn new(purpose: u128, coin: u128, account: u128, change: u128, external: u128) -> (t: TotalMass)
        ensures
            t == (TotalMass { purpose, coin, account, change, external }),
    {
        TotalMass { purpose, coin, account, change, external }
    }

    pub fn from_memorized(purpose: u128, coin: u128, account: u128, change: u128, external: u128)
        -> (t: TotalMass)
        ensures
            t == (TotalMass { purpose, coin, account, change, external }),
    {
        TotalMass { purpose, coin, account, change, external }
    }

    /// Collapses the path into one mass (see `spec_memorize`).
    pub fn memorize(&self) -> (r: u128)
        ensures
            r == spec_memorize(*self),
    {
        self.purpose.saturating_sub(HARDENED_OFFSET)
            .saturating_add(self.coin.saturating_sub(HARDENED_OFFSET))
            .saturating_add(self.account.saturating_sub(HARDENED_OFFSET))
            .saturating_add(self.change)
            .saturating_add(self.external)
    }

    /// The retention depth of the path on `manifold`.
    pub fn deep(&self, manifold: &ManifoldState) -> (d: Vec<DepthEntry>)
        ensures
            is_depth_of(d@, *self, manifold.dimension),
    {
        proof {
            reveal_strlit("purpose");
            reveal_strlit("coin");
            reveal_strlit("account");
            reveal_strlit("change");
            reveal_strlit("external");
        }
        let dim = manifold.dimension;
        let mut d: Vec<DepthEntry> = Vec::new();
        d.push(DepthEntry {
            label: "purpose",
            level: 0,
            mass: self.purpose.saturating_add(HARDENED_OFFSET),
            dimension: dim,
        });
        d.push(DepthEntry {
            label: "coin",
            level: 1,
            mass: self.coin.saturating_add(HARDENED_OFFSET),
            dimension: dim,
        });
        d.push(DepthEntry {
            label: "account",
            level: 2,
            mass: self.account.saturating_add(HARDENED_OFFSET),
            dimension: dim,
        });
        d.push(DepthEntry { label: "change", level: 3, mass: self.change, dimension: dim });
        d.push(DepthEntry { label: "external", level: 4, mass: self.external, dimension: dim });
        assert(is_depth_of(d@, *self, manifold.dimension)) by {
            assert(forall|i: int| 0 <= i < 5 ==> d@[i] == seq![d@[0], d@[1], d@[2], d@[3], d@[4]][i]);
        }
        d
    }
}

/// Memorizing undoes hardening: for a path whose levels do not saturate when
/// hardened, memorizing its hardened form gives back the sum of its levels.
pub proof fn lemma_memorize_unhardens(t: TotalMass)
    requires
        t.purpose + HARDENED_OFFSET <= u128::MAX,
        t.coin + HARDENED_OFFSET <= u128::MAX,
        t.account + HARDENED_OFFSET <= u128::MAX,
        t.purpose + t.coin + t.account + t.change + t.external <= u128::MAX,
    ensures
        spec_memorize(TotalMass {
            purpose: (t.purpose + HARDENED_OFFSET) as u128,
            coin: (t.coin + HARDENED_OFFSET) as u128,
            account: (t.account + HARDENED_OFFSET) as u128,
            change: t.change,
            external: t.external,
        }) == t.purpose + t.coin + t.account + t.change + t.external,
{
}

#[derive(Clone, Copy, Debug, PartialEq, Eq, Structural)]
pub enum Flow {
    /// External mass entering the manifold.
    Receive,
    /// Internal network decay.
    Change,
}

/// The (account, change) pair a flow streams out of a heritage.
pub open spec fn spec_stream(flow: Flow, h: Heritage) -> (u128, u128) {
    match flow {
        Flow::Receive => (h.state.activations as u128, 0),
        Flow::Change => (0, h.transition.delta),
    }
}

impl Flow {
    /// A receive streams the activations as account; a change streams the
    /// transition's Δ as change.
    pub fn stream(self, heritage: &Heritage) -> (r: (u128, u128))
        ensures
            r == spec_stream(self, *heritage),
    {
        match self {
            Flow::Receive => (heritage.state.activations as u128, 0u128),
            Flow::Change => (0u128, heritage.transition.delta),
        }
    }
}

#[derive(Clone, Copy, Debug)]
pub struct QP44Event {
    pub heritage: Heritage,
    pub qtm: Qtm,
}

#[derive(Clone, Copy, Debug)]
pub struct PQ44Object {
    pub manifold: ManifoldState,
    pub coin: u128,
}

#[derive(Clone, Copy, Debug)]
pub struct PQ44Event {
    pub heritage: Heritage,
    pub qtm: Qtm,
}

#[derive(Clone, Copy, Debug)]
pub struct Memorize {
    pub heritage: Heritage,
}

/// Stateful wallet engine: a manifold and the coin mass it carries into a transition.
#[derive(Clone, Copy, Debug)]
pub struct QP44Object {
    pub manifold: ManifoldState,
    pub coin: u128,
}

/// The total mass a wallet object realizes: purpose 44, its coin, and its
/// manifold's activations as external mass.
pub open spec fn realize_mass_of(o: QP44Object) -> TotalMass {
    TotalMass {
        purpose: PURPOSE_44,
        coin: o.coin,
        account: 0,
        change: 0,
        external: o.manifold.activations as u128,
    }
}

impl QP44Object {
    pub fn from_quantperm(manifold: ManifoldState, coin: u128) -> (o: QP44Object)
        ensures
            o.manifold == manifold,
            o.coin == coin,
    {
        QP44Object { manifold, coin }
    }

    pub fn into_manifold(self) -> (m: ManifoldState)
        ensures
            m == self.manifold,
    {
        self.manifold
    }

    /// The total mass the object carries into its transition.
    pub fn realize_mass(&self) -> (t: TotalMass)
        ensures
            t == realize_mass_of(*self),
    {
        TotalMass::new(PURPOSE_44, self.coin, 0, 0, self.manifold.activations as u128)
    }

    /// The retention depth handed to the graph transition.
    pub fn realize_depth(&self) -> (d: Vec<DepthEntry>)
        ensures
            is_depth_of(d@, realize_mass_of(*self), self.manifold.dimension),
    {
        self.realize_mass().deep(&self.manifold)
    }

    /// The receipt of a realized transition: the heritage the graph returned,
    /// committed with the net work of its event map.
    pub fn realize_receipt(heritage: Heritage, net_work: u128) -> (e: QP44Event)
        ensures
            e.heritage == heritage,
            is_commit_of(e.qtm, heritage.state, net_work),
    {
        let qtm = Qtm::commit(&heritage.state, net_work);
        QP44Event { heritage, qtm }
    }
}

/// The wallet object that memorizing a heritage along a flow realizes.
pub open spec fn memorized_object(h: Heritage, flow: Flow, purpose: u128, coin: u128) -> QP44Object {
    let (account, change) = spec_stream(flow, h);
    QP44Object {
        manifold: h.state,
        coin: spec_memorize(
            TotalMass {
                purpose,
                coin,
                account,
                change,
                external: h.state.activations as u128,
            },
        ) as u128,
    }
}

impl QP44Event {
    /// The next wallet object of an event along a flow: the event's manifold,
    /// carrying the memorized mass of purpose 44, its retained mass as coin,
    /// the flow's stream and its activations.
    pub fn memorize(self, flow: Flow) -> (o: QP44Object)
        ensures
            o == memorized_object(self.heritage, flow, PURPOSE_44, self.heritage.state.retained_mass),
    {
        let heritage = self.heritage;
        let (account, change) = flow.stream(&heritage);
        let coin = heritage.state.retained_mass;
        let manifold = heritage.state;
        let mass = TotalMass::from_memorized(
            PURPOSE_44,
            coin,
            account,
            change,
            manifold.activations as u128,
        ).memorize();
        QP44Object { manifold, coin: mass }
    }
}

impl PQ44Event {
    pub fn into_object(self) -> (o: PQ44Object)
        ensures
            o.manifold == self.heritage.state,
            o.coin == self.heritage.transition.net_work,
    {
        PQ44Object { manifold: self.heritage.state, coin: self.heritage.transition.net_work }
    }

    /// Verifies an incoming witness before the sender's exit: the heritage is
    /// handed back for exile only when the witness is its commitment.
    pub fn balance(heritage: Heritage, qtm: &Qtm) -> (r: Result<Heritage, WitnessMismatch>)
        ensures
            r is Ok <==> witnesses(*qtm, heritage),
            r matches Ok(h) ==> h == heritage,
            r == Err::<Heritage, WitnessMismatch>(WitnessMismatch::Coordinate)
                <==> qtm.coordinate@ != crate::protocolvalue::spec_coordinate(heritage.state),
    {
        match Qtm::check_witness(&heritage, qtm) {
            Ok(()) => Ok(heritage),
            Err(e) => Err(e),
        }
    }

    /// The new receipt after an exile: the exiled heritage with its commitment.
    pub fn after_exile(heritage: Heritage) -> (e: PQ44Event)
        ensures
            e.heritage == heritage,
            is_commit_of(e.qtm, heritage.state, heritage.transition.net_work),
    {
        let qtm = Qtm::commit(&heritage.state, heritage.transition.net_work);
        PQ44Event { heritage, qtm }
    }

    /// Whether repeated exile must go on: the manifold is still above the
    /// target activation.
    pub fn balance_until_pending(heritage: &Heritage, activation: u64) -> (r: bool)
        ensures
            r == (heritage.state.activations > activation),
    {
        heritage.state.activations > activation
    }
}

pub struct WalletRequest {
    pub seed: SeedSource,
    pub purpose: Purpose,
    pub coins: Vec<CoinType>,
    pub account: u32,
    pub index: u32,
}

/// QP44 SDK engine.
pub struct QP44;

impl QP44 {
    /// The wallet objects of a request, one per coin in order: the manifold of
    /// the request's seed carrying the coin's mass. The seed is resolved for
    /// each coin, so a request without coins succeeds whatever its seed.
    pub fn wallet_objects(request: &WalletRequest) -> (r: Result<Vec<QP44Object>, String>)
        ensures
            match r {
                Ok(objs) => {
                    &&& (request.coins@.len() > 0 ==> spec_seed_perm(request.seed) is Ok)
                    &&& objs@.len() == request.coins@.len()
                    &&& forall|i: int| 0 <= i < objs@.len() ==> {
                        &&& is_fresh_over((#[trigger] objs@[i]).manifold, spec_seed_perm(request.seed)->Ok_0)
                        &&& objs@[i].coin == coin_number(request.coins@[i])
                    }
                },
                Err(e) => request.coins@.len() > 0 && spec_seed_perm(request.seed) == Err::<u128, Seq<char>>(e@),
            },
    {
        let mut objs: Vec<QP44Object> = Vec::new();
        let mut i: usize = 0;
        while i < request.coins.len()
            invariant
                i <= request.coins@.len(),
                objs@.len() == i,
                i > 0 ==> spec_seed_perm(request.seed) is Ok,
                forall|j: int| 0 <= j < i ==> {
                    &&& is_fresh_over((#[trigger] objs@[j]).manifold, spec_seed_perm(request.seed)->Ok_0)
                    &&& objs@[j].coin == coin_number(request.coins@[j])
                },
            decreases request.coins@.len() - i,
        {
            let coin = request.coins[i];
            let base = match SeedPurpose::seed_manifold(&request.seed) {
                Ok(m) => m,
                Err(e) => return Err(e),
            };
            objs.push(QP44Object::from_quantperm(base, coin.retained_mass()));
            i = i + 1;
        }
        Ok(objs)
    }

    /// Wallet outputs of a request, given the events its wallet objects
    /// realized (in order): each coin with the coordinate and commitment of
    /// the post-transition receipt.
    pub fn derive_wallet(request: &WalletRequest, realized: &Vec<QP44Event>) -> (r: Result<Vec<WalletOutput>, String>)
        requires
            realized@.len() == request.coins@.len(),
        ensures
            match r {
                Ok(outs) => {
                    &&& (request.coins@.len() > 0 ==> spec_seed_perm(request.seed) is Ok)
                    &&& outs@.len() == request.coins@.len()
                    &&& forall|i: int| 0 <= i < outs@.len() ==> {
                        &&& (#[trigger] outs@[i]).coin == request.coins@[i]
                        &&& outs@[i].coordinate == realized@[i].qtm.coordinate
                        &&& outs@[i].commitment == realized@[i].qtm.commitment
                    }
                },
                Err(e) => request.coins@.len() > 0 && spec_seed_perm(request.seed) == Err::<u128, Seq<char>>(e@),
            },
    {
        let mut outputs: Vec<WalletOutput> = Vec::new();
        let mut i: usize = 0;
        while i < request.coins.len()
            invariant
                i <= request.coins@.len(),
                realized@.len() == request.coins@.len(),
                outputs@.len() == i,
                i > 0 ==> spec_seed_perm(request.seed) is Ok,
                forall|j: int| 0 <= j < i ==> {
                    &&& (#[trigger] outputs@[j]).coin == request.coins@[j]
                    &&& outputs@[j].coordinate == realized@[j].qtm.coordinate
                    &&& outputs@[j].commitment == realized@[j].qtm.commitment
                },
            decreases request.coins@.len() - i,
        {
            let coin = request.coins[i];
            match SeedPurpose::seed_manifold(&request.seed) {
                Ok(_) => {},
                Err(e) => return Err(e),
            }
            let qtm = realized[i].qtm;
            outputs.push(WalletOutput { coin, coordinate: qtm.coordinate, commitment: qtm.commitment });
            i = i + 1;
        }
        Ok(outputs)
    }
}


// ─────────────────────────────────────────────
// Network model
// ─────────────────────────────────────────────

/// A network event: a heritage and its witness.
pub struct PQNetEvent {
    pub heritage: Heritage,
    pub qtm: Qtm,
}

impl PQNetEvent {
    /// The next wallet object of a network event along a flow: its manifold,
    /// carrying the memorized mass of purpose 1, the transition's net work as
    /// coin, the flow's stream and its activations.
    pub fn memorize(self, flow: Flow) -> (o: QP44Object)
        ensures
            o == memorized_object(self.heritage, flow, 1, self.heritage.transition.net_work),
    {
        let heritage = self.heritage;
        let (account, change) = flow.stream(&heritage);
        let manifold = heritage.state;
        let mass = TotalMass::from_memorized(
            1,
            heritage.transition.net_work,
            account,
            change,
            manifold.activations as u128,
        ).memorize();
        QP44Object { manifold, coin: mass }
    }

    /// The next wallet object along a change flow.
    pub fn next_change(self) -> (o: QP44Object)
        ensures
            o == memorized_object(self.heritage, Flow::Change, 1, self.heritage.transition.net_work),
    {
        self.memorize(Flow::Change)
    }
}

/// A network object: a heritage whose witness was verified.
pub struct PQNetObject {
    heritage: Heritage,
    qtm: Qtm,
}

impl PQNetObject {
    pub closed spec fn spec_heritage(&self) -> Heritage {
        self.heritage
    }

    pub closed spec fn spec_qtm(&self) -> Qtm {
        self.qtm
    }

    /// Builds a network object from a heritage and a witness of it.
    pub fn balance(heritage: Heritage, qtm: Qtm) -> (o: PQNetObject)
        requires
            witnesses(qtm, heritage),
        ensures
            o.spec_heritage() == heritage,
            o.spec_qtm() == qtm,
    {
        PQNetObject { heritage, qtm }
    }

    /// Builds a network object when the witness checks against the heritage.
    pub fn try_balance(heritage: Heritage, qtm: Qtm) -> (r: Result<PQNetObject, WitnessMismatch>)
        ensures
            r is Ok <==> witnesses(qtm, heritage),
            r matches Ok(o) ==> o.spec_heritage() == heritage && o.spec_qtm() == qtm,
            r == Err::<PQNetObject, WitnessMismatch>(WitnessMismatch::Coordinate)
                <==> qtm.coordinate@ != crate::protocolvalue::spec_coordinate(heritage.state),
    {
        match Qtm::check_witness(&heritage, &qtm) {
            Ok(()) => Ok(Self::balance(heritage, qtm)),
            Err(e) => Err(e),
        }
    }

    /// The network event of the object.
    pub fn observe(self) -> (e: PQNetEvent)
        ensures
            e.heritage == self.spec_heritage(),
            e.qtm == self.spec_qtm(),
    {
        PQNetEvent { heritage: self.heritage, qtm: self.qtm }
    }
}

} // verus!
