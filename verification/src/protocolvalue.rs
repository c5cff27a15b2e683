//! QTM commitment logic: the coordinate/commitment pair bound to a manifold.
use vstd::prelude::*;
use crate::encoding::{le_bytes, push_le_bytes, push_all};
use crate::digest::{blake3_digest, blake3_hash, bytes32_eq};
use crate::manifold::{ManifoldState, Heritage};

verus! {

/// Domain separator of the coordinate hash: the ASCII bytes of `QP44::COORD::V1`.
pub open spec fn coord_tag() -> Seq<u8> {
    seq![0x51, 0x50, 0x34, 0x34, 0x3a, 0x3a, 0x43, 0x4f, 0x4f, 0x52, 0x44, 0x3a, 0x3a, 0x56, 0x31]
}

/// Domain separator of the commitment hash: the ASCII bytes of `QTM::V1`.
pub open spec fn commit_tag() -> Seq<u8> {
    seq![0x51, 0x54, 0x4d, 0x3a, 0x3a, 0x56, 0x31]
}

/// The message whose digest is a manifold's coordinate: the tag, then the
/// dimension (8 bytes) and Σ (16 bytes), little-endian.
pub open spec fn coordinate_message(dimension: u64, structural_value: u128) -> Seq<u8> {
    coord_tag() + le_bytes(dimension as nat, 8) + le_bytes(structural_value as nat, 16)
}

/// The coordinate of a manifold: a function of its geometry only.
pub open spec fn spec_coordinate(m: ManifoldState) -> Seq<u8> {
    blake3_digest(coordinate_message(m.dimension, m.structural_value))
}

/// The message whose digest is a commitment: the tag, the coordinate, then
/// Σ and the net work (16 bytes each), little-endian.
pub open spec fn commitment_message(coordinate: Seq<u8>, sigma: u128, net_work: u128) -> Seq<u8> {
    commit_tag() + coordinate + le_bytes(sigma as nat, 16) + le_bytes(net_work as nat, 16)
}

/// The commitment of a manifold carrying a given net work.
pub open spec fn spec_commitment(m: ManifoldState, net_work: u128) -> Seq<u8> {
    blake3_digest(commitment_message(spec_coordinate(m), m.structural_value, net_work))
}

/// A coordinate/commitment pair together with the economic state it binds.
#[derive(Clone, Copy, Debug)]
pub struct Qtm {
    pub commitment: [u8; 32],
    pub coordinate: [u8; 32],
    pub net_work: u128,
    pub sigma: u128,
}

/// `q` is the commitment of manifold `m` carrying net work `net_work`.
pub open spec fn is_commit_of(q: Qtm, m: ManifoldState, net_work: u128) -> bool {
    &&& q.coordinate@ == spec_coordinate(m)
    &&& q.commitment@ == spec_commitment(m, net_work)
    &&& q.sigma == m.structural_value
    &&& q.net_work == net_work
}

/// `q` witnesses heritage `h`: its coordinate and commitment are the ones
/// recomputed from the heritage's manifold and net work.
pub open spec fn witnesses(q: Qtm, h: Heritage) -> bool {
    &&& q.coordinate@ == spec_coordinate(h.state)
    &&& q.commitment@ == spec_commitment(h.state, h.transition.net_work)
}

/// Why a witness was refused.
#[derive(Clone, Copy, Debug, PartialEq, Eq)]
pub enum WitnessMismatch {
    Coordinate,
    Commitment,
}

/// What a manifold observer sees.
#[derive(Clone, Copy, Debug)]
pub struct DimensionObservation {
    pub dimension: u64,
    pub structural_value: u128,
    pub activations: u64,
}

/// Inert economic value projection of an observation.
#[derive(Clone, Copy, Debug)]
pub struct Value {
    pub dimension: u64,
    pub structural_value: u128,
    pub activations: u64,
    pub density: Option<u128>,
}

/// Economic layer around a value.
#[derive(Clone, Copy, Debug)]
pub struct Eco {
    pub value: Value,
    pub net_work: u128,
    pub gross_work: u128,
}

impl DimensionObservation {
    /// The observation of a manifold.
    pub fn of(m: &ManifoldState) -> (o: DimensionObservation)
        ensures
            o.dimension == m.dimension,
            o.structural_value == m.structural_value,
            o.activations == m.activations,
    {
        DimensionObservation {
            dimension: m.dimension,
            structural_value: m.structural_value,
            activations: m.activations,
        }
    }
}

impl Qtm {
    /// Deterministic coordinate from manifold geometry (dimension and Σ).
    pub fn derive_coordinate(manifold: &ManifoldState) -> (r: [u8; 32])
        ensures
            r@ == spec_coordinate(*manifold),
    {
        let mut msg: Vec<u8> = vec![0x51, 0x50, 0x34, 0x34, 0x3a, 0x3a, 0x43, 0x4f, 0x4f, 0x52, 0x44, 0x3a, 0x3a, 0x56, 0x31];
        assert(msg@ =~= coord_tag());
        push_le_bytes(&mut msg, manifold.dimension as u128, 8);
        push_le_bytes(&mut msg, manifold.structural_value, 16);
        blake3_hash(msg.as_slice())
    }

    /// Binds the coordinate, Σ and the net work into a commitment.
    pub fn commit(manifold: &ManifoldState, net_work: u128) -> (q: Qtm)
        ensures
            is_commit_of(q, *manifold, net_work),
    {
        let coordinate = Self::derive_coordinate(manifold);
        let sigma = manifold.structural_value;
        let mut msg: Vec<u8> = vec![0x51, 0x54, 0x4d, 0x3a, 0x3a, 0x56, 0x31];
        assert(msg@ =~= commit_tag());
        push_all(&mut msg, coordinate.as_slice());
        push_le_bytes(&mut msg, sigma, 16);
        push_le_bytes(&mut msg, net_work, 16);
        let commitment = blake3_hash(msg.as_slice());
        Qtm { commitment, coordinate, net_work, sigma }
    }

    /// Economic interpretation of a heritage: the commitment of its manifold
    /// carrying the transition's net work.
    pub fn economy(heritage: &Heritage) -> (q: Qtm)
        ensures
            is_commit_of(q, heritage.state, heritage.transition.net_work),
    {
        Self::commit(&heritage.state, heritage.transition.net_work)
    }

    /// Value slice of an observation, with the density the protocol assigns to it.
    pub fn from_observation(obs: &DimensionObservation, density: Option<u128>) -> (v: Value)
        ensures
            v.dimension == obs.dimension,
            v.structural_value == obs.structural_value,
            v.activations == obs.activations,
            v.density == density,
    {
        Value {
            dimension: obs.dimension,
            structural_value: obs.structural_value,
            activations: obs.activations,
            density,
        }
    }

    /// Checks an incoming witness against a heritage: first the coordinate,
    /// then the commitment.
    pub fn check_witness(heritage: &Heritage, qtm: &Qtm) -> (r: Result<(), WitnessMismatch>)
        ensures
            r is Ok <==> witnesses(*qtm, *heritage),
            r == Err::<(), WitnessMismatch>(WitnessMismatch::Coordinate)
                <==> qtm.coordinate@ != spec_coordinate(heritage.state),
            r == Err::<(), WitnessMismatch>(WitnessMismatch::Commitment)
                <==> (qtm.coordinate@ == spec_coordinate(heritage.state)
                    && qtm.commitment@ != spec_commitment(heritage.state, heritage.transition.net_work)),
    {
        let committed = Self::commit(&heritage.state, heritage.transition.net_work);
        if !bytes32_eq(&qtm.coordinate, &committed.coordinate) {
            return Err(WitnessMismatch::Coordinate);
        }
        if !bytes32_eq(&qtm.commitment, &committed.commitment) {
            return Err(WitnessMismatch::Commitment);
        }
        Ok(())
    }
}

impl Value {
    /// Value of a heritage's manifold, with the protocol's density for it.
    pub fn heritage_value(heritage: &Heritage, density: Option<u128>) -> (v: Value)
        ensures
            v.dimension == heritage.state.dimension,
            v.structural_value == heritage.state.structural_value,
            v.activations == heritage.state.activations,
            v.density == density,
    {
        let obs = DimensionObservation::of(&heritage.state);
        Qtm::from_observation(&obs, density)
    }
}

/// A commitment is always accepted as the witness of the heritage it was made from.
pub proof fn lemma_economy_witnesses(h: Heritage, q: Qtm)
    requires
        is_commit_of(q, h.state, h.transition.net_work),
    ensures
        witnesses(q, h),
{
}

/// The coordinate is an identity invariant: two manifolds with the same
/// dimension and Σ have the same coordinate, whatever their mass or activations.
pub proof fn lemma_coordinate_depends_on_geometry(m1: ManifoldState, m2: ManifoldState)
    requires
        m1.dimension == m2.dimension,
        m1.structural_value == m2.structural_value,
    ensures
        spec_coordinate(m1) == spec_coordinate(m2),
{
}

} // verus!
