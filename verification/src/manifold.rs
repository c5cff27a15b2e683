//! Plain-value model of the QuantPerm manifold and of the transition receipt
//! (`Heritage`) that every graph transition hands back.
use vstd::prelude::*;
use quantom_value::Perm;

verus! {

/// Size of the index domain: every domain index lies below this bound.
pub const DOMAIN_SIZE: u16 = 2048;

/// The observable state of a QuantPerm manifold, held as plain values.
#[derive(Clone, Copy, Debug)]
pub struct ManifoldState {
    /// Dimension of the underlying PERM (its 128-bit coordinate).
    pub perm_dimension: u128,
    /// Retained external mass E.
    pub retained_mass: u128,
    /// Number of transitions performed.
    pub activations: u64,
    /// Angular coordinate of the manifold.
    pub dimension: u64,
    /// Structural value Σ: accumulated work residue.
    pub structural_value: u128,
}

impl ManifoldState {
    /// A fresh manifold over a PERM, as `QuantPerm::new` builds it:
    /// no mass, no activations, dimension and Σ zero.
    pub fn new(perm_dimension: u128) -> (m: ManifoldState)
        ensures
            m.perm_dimension == perm_dimension,
            m.retained_mass == 0,
            m.activations == 0,
            m.dimension == 0,
            m.structural_value == 0,
    {
        ManifoldState {
            perm_dimension,
            retained_mass: 0,
            activations: 0,
            dimension: 0,
            structural_value: 0,
        }
    }

    /// Re-anchors the dimension to the PERM geometry: the low 64 bits of the
    /// PERM dimension (wrap-around, as `QuantPerm::set_initial_dimension_from_perm`).
    pub fn set_initial_dimension_from_perm(&mut self)
        ensures
            final(self).dimension as int == old(self).perm_dimension as int % 0x1_0000_0000_0000_0000,
            final(self).perm_dimension == old(self).perm_dimension,
            final(self).retained_mass == old(self).retained_mass,
            final(self).activations == old(self).activations,
            final(self).structural_value == old(self).structural_value,
    {
        let d: u128 = self.perm_dimension % 0x1_0000_0000_0000_0000u128;
        self.dimension = d as u64;
    }

    pub fn dimension(&self) -> (r: u64)
        ensures
            r == self.dimension,
    {
        self.dimension
    }

    pub fn structural_value(&self) -> (r: u128)
        ensures
            r == self.structural_value,
    {
        self.structural_value
    }

    pub fn activations(&self) -> (r: u64)
        ensures
            r == self.activations,
    {
        self.activations
    }

    pub fn retained_mass(&self) -> (r: u128)
        ensures
            r == self.retained_mass,
    {
        self.retained_mass
    }
}

/// The physics record of one transition.
#[derive(Clone, Copy, Debug)]
pub struct TransitionHeritage {
    pub tau: u128,
    pub delta: u128,
    pub gross_work: u128,
    pub net_work: u128,
    pub mirror_bytes: [u8; 32],
}

/// The authentic receipt of a transition: the post-transition manifold and
/// the transition that produced it.
#[derive(Clone, Copy, Debug)]
pub struct Heritage {
    pub state: ManifoldState,
    pub transition: TransitionHeritage,
}

impl TransitionHeritage {
    /// The empty transition record a replay starts from.
    pub fn zero() -> (t: TransitionHeritage)
        ensures
            t.tau == 0,
            t.delta == 0,
            t.gross_work == 0,
            t.net_work == 0,
            forall|i: int| 0 <= i < 32 ==> t.mirror_bytes@[i] == 0,
    {
        TransitionHeritage { tau: 0, delta: 0, gross_work: 0, net_work: 0, mirror_bytes: [0u8; 32] }
    }
}

/// Whether every domain index lies inside the index domain.
pub open spec fn indices_in_domain(indices: Seq<u16>) -> bool {
    forall|i: int| 0 <= i < indices.len() ==> indices[i] < DOMAIN_SIZE
}

/// The dimension that `Perm::genesis_construct` gives to a PERM built from
/// these indices and this entropy.
pub uninterp spec fn perm_genesis_dimension(indices: Seq<u16>, entropy: Seq<u8>) -> u128;

/// Calls `quantom_value::Perm::genesis_construct` and reads the dimension of
/// the PERM it builds. Trusted: as the crate's source shows, construction fails
/// exactly when the entropy is empty or an index is not below 2048; otherwise
/// the dimension is `perm_genesis_dimension(indices, entropy)`.
#[verifier::external_body]
pub(crate) fn perm_genesis_construct(indices: &[u16; 12], entropy: &[u8]) -> (r: Option<u128>)
    ensures
        r is Some <==> (entropy@.len() > 0 && indices_in_domain(indices@)),
        r matches Some(d) ==> d == perm_genesis_dimension(indices@, entropy@),
{
    match Perm::genesis_construct(indices, entropy) {
        Ok(perm) => Some(perm.dimension()),
        Err(_) => None,
    }
}

} // verus!
