//! Substrate command logic: persisted surfaces, event names, genesis and
//! replay decisions. Reading and writing the substrate stays with the caller.
use vstd::prelude::*;
use vstd::string::{StringExecFns, StrSliceExecFns};
use crate::manifold::{ManifoldState, Heritage, TransitionHeritage, indices_in_domain,
    perm_genesis_dimension, perm_genesis_construct};
use crate::protocolvalue::{Qtm, is_commit_of};
use crate::qp44::{QP44Event, PQ44Event, QP44Object};
use crate::strings::{trim, trim_str, split_on, split_str, parse_unsigned, parse_decimal,
    starts_with, str_starts_with, all_digits, is_digit, lemma_decimal_digits,
    lemma_parse_decimal_roundtrip, lemma_split_on_first_piece, lemma_trim_identity, is_whitespace,
    join_decimals, lemma_join_decimals_ends, lemma_split_join_decimals};
use crate::text::{decimal, push_decimal};
use crate::purpose::is_fresh_over;
use vstd::utf8::encode_utf8;

verus! {

/// A persisted substrate event.
#[derive(Clone, Copy, Debug)]
pub enum PersistedEvent {
    Transit(QP44Event),
    Exile(PQ44Event),
}

/// An event that carries a heritage and its QTM.
pub trait HeritageEvent {
    spec fn spec_heritage(&self) -> Heritage;

    spec fn spec_qtm(&self) -> Qtm;

    fn heritage(&self) -> (r: &Heritage)
        ensures
            *r == self.spec_heritage(),
    ;

    fn qtm(&self) -> (r: &Qtm)
        ensures
            *r == self.spec_qtm(),
    ;
}

impl HeritageEvent for QP44Event {
    open spec fn spec_heritage(&self) -> Heritage {
        self.heritage
    }

    open spec fn spec_qtm(&self) -> Qtm {
        self.qtm
    }

    fn heritage(&self) -> (r: &Heritage) {
        &self.heritage
    }

    fn qtm(&self) -> (r: &Qtm) {
        &self.qtm
    }
}

impl HeritageEvent for PQ44Event {
    open spec fn spec_heritage(&self) -> Heritage {
        self.heritage
    }

    open spec fn spec_qtm(&self) -> Qtm {
        self.qtm
    }

    fn heritage(&self) -> (r: &Heritage) {
        &self.heritage
    }

    fn qtm(&self) -> (r: &Qtm) {
        &self.qtm
    }
}


// ─────────────────────────────────────────────
// Domain indices
// ─────────────────────────────────────────────

/// Why a domain index list was refused.
#[derive(Clone, Copy, Debug, PartialEq, Eq, Structural)]
pub enum IndicesError {
    /// A piece is not an unsigned 16-bit integer.
    InvalidIndex,
    /// Every piece parsed, but there are not twelve of them.
    WrongCount(usize),
}

/// The texts the pieces are read from: each piece, trimmed when `trimmed` holds.
pub open spec fn piece_texts(pieces: Seq<Seq<char>>, trimmed: bool) -> Seq<Seq<char>> {
    Seq::new(pieces.len(), |i: int| if trimmed { trim(pieces[i]) } else { pieces[i] })
}

/// The outcome of reading twelve domain indices from comma-separated
/// pieces, each trimmed first when `trimmed` holds.
pub open spec fn spec_indices(pieces: Seq<Seq<char>>, trimmed: bool) -> Result<Seq<u16>, IndicesError> {
    let texts = piece_texts(pieces, trimmed);
    if exists|i: int| 0 <= i < texts.len() && parse_unsigned(#[trigger] texts[i], 65535) is None {
        Err(IndicesError::InvalidIndex)
    } else if pieces.len() != 12 {
        Err(IndicesError::WrongCount(pieces.len() as usize))
    } else {
        Ok(Seq::new(12, |i: int| parse_unsigned(texts[i], 65535)->Some_0 as u16))
    }
}

/// `r` is the outcome `s` of reading indices.
pub open spec fn indices_result_matches(r: Result<[u16; 12], IndicesError>, s: Result<Seq<u16>, IndicesError>) -> bool {
    match r {
        Ok(ix) => s == Ok::<Seq<u16>, IndicesError>(ix@),
        Err(e) => s == Err::<Seq<u16>, IndicesError>(e),
    }
}

fn read_indices_pieces(pieces: &Vec<&str>, trimmed: bool) -> (r: Result<[u16; 12], IndicesError>)
    ensures
        indices_result_matches(
            r,
            spec_indices(Seq::new(pieces@.len(), |i: int| pieces@[i]@), trimmed),
        ),
{
    let ghost views = Seq::new(pieces@.len(), |i: int| pieces@[i]@);
    let ghost texts = piece_texts(views, trimmed);
    let mut values: Vec<u16> = Vec::new();
    let mut i: usize = 0;
    while i < pieces.len()
        invariant
            i <= pieces@.len(),
            views == Seq::new(pieces@.len(), |i: int| pieces@[i]@),
            texts == piece_texts(views, trimmed),
            values@.len() == i,
            forall|j: int| 0 <= j < i ==> parse_unsigned(#[trigger] texts[j], 65535) is Some,
            forall|j: int| 0 <= j < i ==> values@[j] == parse_unsigned(#[trigger] texts[j], 65535)->Some_0,
        decreases pieces@.len() - i,
    {
        let piece: &str = pieces[i];
        let text: &str = if trimmed { trim_str(piece) } else { piece };
        assert(text@ == texts[i as int]);
        match parse_decimal(text, 65535) {
            Some(v) => {
                values.push(v as u16);
            },
            None => {
                assert(parse_unsigned(texts[i as int], 65535) is None);
                return Err(IndicesError::InvalidIndex);
            },
        }
        i = i + 1;
    }
    if values.len() != 12 {
        return Err(IndicesError::WrongCount(values.len()));
    }
    let mut out = [0u16; 12];
    let mut k: usize = 0;
    while k < 12
        invariant
            k <= 12,
            values@.len() == 12,
            forall|j: int| 0 <= j < k ==> out@[j] == values@[j],
        decreases 12 - k,
    {
        out[k] = values[k];
        k = k + 1;
    }
    assert(out@ =~= Seq::new(12, |i: int| parse_unsigned(texts[i], 65535)->Some_0 as u16));
    Ok(out)
}

/// Domain indices as `qtm create` reads them: comma-separated, each piece trimmed.
pub fn parse_create_indices(raw: &str) -> (r: Result<[u16; 12], IndicesError>)
    ensures
        indices_result_matches(r, spec_indices(split_on(raw@, ','), true)),
{
    let pieces = split_str(raw, ',');
    assert(Seq::new(pieces@.len(), |i: int| pieces@[i]@) =~= split_on(raw@, ','));
    read_indices_pieces(&pieces, true)
}

/// Domain indices as a persisted substrate holds them: the trimmed text,
/// comma-separated, pieces taken as they are.
pub fn parse_persisted_indices(raw: &str) -> (r: Result<[u16; 12], IndicesError>)
    ensures
        indices_result_matches(r, spec_indices(split_on(trim(raw@), ','), false)),
{
    let text = trim_str(raw);
    let pieces = split_str(text, ',');
    assert(Seq::new(pieces@.len(), |i: int| pieces@[i]@) =~= split_on(trim(raw@), ','));
    read_indices_pieces(&pieces, false)
}

// ─────────────────────────────────────────────
// Event names
// ─────────────────────────────────────────────

/// The activation an event directory name records: after an `event_` or
/// `exile_` prefix, the text up to the next `_`, as an unsigned 64-bit integer.
pub open spec fn name_activation(name: Seq<char>) -> Option<nat> {
    if starts_with(name, "event_"@) || starts_with(name, "exile_"@) {
        parse_unsigned(split_on(name.skip(6), '_')[0], u64::MAX as nat)
    } else {
        None
    }
}

/// Reads the activation recorded in an event directory name.
pub fn activation_from_name(name: &str) -> (r: Option<u64>)
    ensures
        match r {
            Some(a) => name_activation(name@) == Some(a as nat),
            None => name_activation(name@) is None,
        },
{
    proof {
        reveal_strlit("event_");
        reveal_strlit("exile_");
    }
    let n = name.unicode_len();
    let rest: &str = if str_starts_with(name, "event_") {
        name.substring_char(6, n)
    } else if str_starts_with(name, "exile_") {
        name.substring_char(6, n)
    } else {
        return None;
    };
    assert(rest@ =~= name@.skip(6));
    let pieces = split_str(rest, '_');
    let first: &str = pieces[0];
    match parse_decimal(first, 0xffff_ffff_ffff_ffffu128) {
        Some(v) => Some(v as u64),
        None => None,
    }
}

/// The directory name of a transit event.
pub open spec fn spec_transit_name(activation: u64, dimension: u64) -> Seq<char> {
    "event_"@ + decimal(activation as nat) + "_"@ + decimal(dimension as nat)
}

/// The directory name of an exile record.
pub open spec fn spec_exile_name(activation: u64, dimension: u64) -> Seq<char> {
    "exile_"@ + decimal(activation as nat) + "_"@ + decimal(dimension as nat)
}

/// The directory name under which a transit event is persisted.
pub fn transit_event_name(activation: u64, dimension: u64) -> (s: String)
    ensures
        s@ == spec_transit_name(activation, dimension),
{
    let mut s = String::from_str("event_");
    push_decimal(&mut s, activation as u128);
    s.append("_");
    push_decimal(&mut s, dimension as u128);
    s
}

/// The directory name under which an exile record is persisted.
pub fn exile_event_name(activation: u64, dimension: u64) -> (s: String)
    ensures
        s@ == spec_exile_name(activation, dimension),
{
    let mut s = String::from_str("exile_");
    push_decimal(&mut s, activation as u128);
    s.append("_");
    push_decimal(&mut s, dimension as u128);
    s
}

/// A transit event directory recorded at the given activation.
pub open spec fn is_transit_at(name: Seq<char>, activation: u64) -> bool {
    starts_with(name, "event_"@) && name_activation(name) == Some(activation as nat)
}

/// The first transit event directory, among the listed names, recorded at
/// the given activation.
pub fn event_index_at_activation(names: &Vec<String>, activation: u64) -> (r: Option<usize>)
    ensures
        match r {
            Some(i) => i < names@.len() && is_transit_at(names@[i as int]@, activation)
                && forall|j: int| 0 <= j < i ==> !is_transit_at(#[trigger] names@[j]@, activation),
            None => forall|j: int| 0 <= j < names@.len() ==> !is_transit_at(#[trigger] names@[j]@, activation),
        },
        r matches Some(i) ==> starts_with(names@[i as int]@, "event_"@)
            && name_activation(names@[i as int]@) == Some(activation as nat),
        r is None ==> forall|j: int| 0 <= j < names@.len()
            ==> !(starts_with(#[trigger] names@[j]@, "event_"@)
                && name_activation(names@[j]@) == Some(activation as nat)),
{
    let mut i: usize = 0;
    while i < names.len()
        invariant
            i <= names@.len(),
            forall|j: int| 0 <= j < i ==> !is_transit_at(#[trigger] names@[j]@, activation),
        decreases names@.len() - i,
    {
        let name: &str = names[i].as_str();
        if str_starts_with(name, "event_") {
            match activation_from_name(name) {
                Some(a) => {
                    if a == activation {
                        return Some(i);
                    }
                },
                None => {},
            }
        }
        i = i + 1;
    }
    None
}

/// The persisted event a directory name denotes: a transit under `event_`,
/// an exile under `exile_`, nothing under any other name.
pub fn persisted_event(name: &str, heritage: Heritage, qtm: Qtm) -> (r: Option<PersistedEvent>)
    ensures
        match r {
            Some(PersistedEvent::Transit(e)) => starts_with(name@, "event_"@)
                && e.heritage == heritage && e.qtm == qtm,
            Some(PersistedEvent::Exile(e)) => !starts_with(name@, "event_"@)
                && starts_with(name@, "exile_"@) && e.heritage == heritage && e.qtm == qtm,
            None => !starts_with(name@, "event_"@) && !starts_with(name@, "exile_"@),
        },
{
    if str_starts_with(name, "event_") {
        Some(PersistedEvent::Transit(QP44Event { heritage, qtm }))
    } else if str_starts_with(name, "exile_") {
        Some(PersistedEvent::Exile(PQ44Event { heritage, qtm }))
    } else {
        None
    }
}


/// A persisted event name records its activation: reading the activation of
/// the name a transit event (or an exile record) is stored under gives back
/// the activation it was stored with.
pub proof fn lemma_event_name_roundtrip(activation: u64, dimension: u64)
    ensures
        name_activation(spec_transit_name(activation, dimension)) == Some(activation as nat),
        name_activation(spec_exile_name(activation, dimension)) == Some(activation as nat),
{
    reveal_strlit("event_");
    reveal_strlit("exile_");
    reveal_strlit("_");
    let a = decimal(activation as nat);
    let d = decimal(dimension as nat);
    lemma_decimal_digits(activation as nat);
    assert forall|i: int| 0 <= i < a.len() implies a[i] != '_' by {
        assert(is_digit(a[i]));
    }
    lemma_split_on_first_piece(a, '_', d);
    lemma_parse_decimal_roundtrip(activation as nat, u64::MAX as nat);
    let t = spec_transit_name(activation, dimension);
    assert(t.subrange(0, 6) =~= "event_"@);
    assert(t.skip(6) =~= a + seq!['_'] + d);
    let x = spec_exile_name(activation, dimension);
    assert(x.subrange(0, 6) =~= "exile_"@);
    assert(x.skip(6) =~= a + seq!['_'] + d);
}

/// A transit event is found at the activation it was stored with and at no
/// other: the name a transit is persisted under is a transit at its own
/// activation, and at any other activation it is not.
pub proof fn lemma_transit_found_at_own_activation(activation: u64, dimension: u64, other: u64)
    ensures
        is_transit_at(spec_transit_name(activation, dimension), activation),
        other != activation ==> !is_transit_at(spec_transit_name(activation, dimension), other),
{
    lemma_event_name_roundtrip(activation, dimension);
    reveal_strlit("event_");
    let t = spec_transit_name(activation, dimension);
    assert(t.subrange(0, 6) =~= "event_"@);
}

/// A name is a transit at an activation only when it records exactly that
/// activation under the `event_` prefix.
pub proof fn lemma_transit_records_activation(name: Seq<char>, activation: u64)
    ensures
        is_transit_at(name, activation) ==> starts_with(name, "event_"@)
            && name_activation(name) == Some(activation as nat),
{
}

// ─────────────────────────────────────────────
// Persisted QTM surface
// ─────────────────────────────────────────────

/// An ASCII hexadecimal digit, either case.
pub open spec fn is_hex_digit(c: char) -> bool {
    let u = c as u32;
    (48 <= u <= 57) || (97 <= u <= 102) || (65 <= u <= 70)
}

pub open spec fn hex_val(c: char) -> nat {
    let u = c as u32;
    if 48 <= u <= 57 {
        (u - 48) as nat
    } else if 97 <= u <= 102 {
        (u - 87) as nat
    } else {
        (u - 55) as nat
    }
}

/// The bytes a hexadecimal text encodes: an even number of hex digits, two
/// per byte, high nibble first.
pub open spec fn hex_decoded(s: Seq<char>) -> Option<Seq<u8>> {
    if s.len() % 2 == 0 && forall|i: int| 0 <= i < s.len() ==> is_hex_digit(#[trigger] s[i]) {
        Some(Seq::new(s.len() / 2, |i: int| (hex_val(s[2 * i]) * 16 + hex_val(s[2 * i + 1])) as u8))
    } else {
        None
    }
}

/// Calls `hex::decode`. Trusted: as the crate's source shows, decoding
/// succeeds exactly on an even number of hex digits (either case) and yields
/// one byte per pair, high nibble first.
#[verifier::external_body]
fn hex_decode(s: &str) -> (r: Option<Vec<u8>>)
    ensures
        match r {
            Some(v) => hex_decoded(s@) == Some(v@),
            None => hex_decoded(s@) is None,
        },
{
    hex::decode(s).ok()
}

/// The 32 bytes a persisted hexadecimal surface holds, if it holds exactly 32.
pub open spec fn surface_bytes32(text: Seq<char>) -> Option<Seq<u8>> {
    match hex_decoded(trim(text)) {
        Some(b) => if b.len() == 32 { Some(b) } else { None },
        None => None,
    }
}

/// The number a persisted decimal surface holds.
pub open spec fn surface_u128(text: Seq<char>) -> Option<nat> {
    parse_unsigned(trim(text), u128::MAX as nat)
}

fn read_bytes32(text: &str) -> (r: Option<[u8; 32]>)
    ensures
        match r {
            Some(b) => surface_bytes32(text@) == Some(b@),
            None => surface_bytes32(text@) is None,
        },
{
    let t = trim_str(text);
    let v = match hex_decode(t) {
        Some(v) => v,
        None => return None,
    };
    if v.len() != 32 {
        return None;
    }
    let mut out = [0u8; 32];
    let mut i: usize = 0;
    while i < 32
        invariant
            i <= 32,
            v@.len() == 32,
            forall|j: int| 0 <= j < i ==> out@[j] == v@[j],
        decreases 32 - i,
    {
        out[i] = v[i];
        i = i + 1;
    }
    assert(out@ =~= v@);
    Some(out)
}

/// Why a persisted QTM surface was refused.
#[derive(Clone, Copy, Debug, PartialEq, Eq, Structural)]
pub enum QtmSurfaceError {
    InvalidNetwork,
    InvalidSigma,
    InvalidCommitment,
    InvalidCoordinate,
}

/// Reads a QTM from the texts of its persisted surfaces (commitment and
/// coordinate in hex, network and Σ in decimal, each trimmed), checking the
/// network, then Σ, then the commitment, then the coordinate.
pub fn load_qtm(commitment_hex: &str, coordinate_hex: &str, network: &str, sigma: &str)
    -> (r: Result<Qtm, QtmSurfaceError>)
    ensures
        match r {
            Ok(q) => {
                &&& surface_u128(network@) == Some(q.net_work as nat)
                &&& surface_u128(sigma@) == Some(q.sigma as nat)
                &&& surface_bytes32(commitment_hex@) == Some(q.commitment@)
                &&& surface_bytes32(coordinate_hex@) == Some(q.coordinate@)
            },
            Err(QtmSurfaceError::InvalidNetwork) => surface_u128(network@) is None,
            Err(QtmSurfaceError::InvalidSigma) => surface_u128(network@) is Some
                && surface_u128(sigma@) is None,
            Err(QtmSurfaceError::InvalidCommitment) => surface_u128(network@) is Some
                && surface_u128(sigma@) is Some && surface_bytes32(commitment_hex@) is None,
            Err(QtmSurfaceError::InvalidCoordinate) => surface_u128(network@) is Some
                && surface_u128(sigma@) is Some && surface_bytes32(commitment_hex@) is Some
                && surface_bytes32(coordinate_hex@) is None,
        },
{
    let net_work = match parse_decimal(trim_str(network), u128::MAX) {
        Some(v) => v,
        None => return Err(QtmSurfaceError::InvalidNetwork),
    };
    let sigma_v = match parse_decimal(trim_str(sigma), u128::MAX) {
        Some(v) => v,
        None => return Err(QtmSurfaceError::InvalidSigma),
    };
    let commitment = match read_bytes32(commitment_hex) {
        Some(b) => b,
        None => return Err(QtmSurfaceError::InvalidCommitment),
    };
    let coordinate = match read_bytes32(coordinate_hex) {
        Some(b) => b,
        None => return Err(QtmSurfaceError::InvalidCoordinate),
    };
    Ok(Qtm { commitment, coordinate, net_work, sigma: sigma_v })
}

// ─────────────────────────────────────────────
// Genesis of a substrate
// ─────────────────────────────────────────────

/// Twelve zero indices: the domain of a substrate created without indices.
pub open spec fn zero_indices() -> Seq<u16> {
    Seq::new(12, |i: int| 0u16)
}

/// Everything `qtm create` persists about a new substrate.
pub struct Genesis {
    pub domain_indices: [u16; 12],
    pub entropy_surface: String,
    pub perm_dimension: u128,
    pub manifold: ManifoldState,
    pub qtm: Qtm,
}

/// Why a substrate could not be created or reopened.
#[derive(Clone, Copy, Debug, PartialEq, Eq, Structural)]
pub enum GenesisError {
    /// The domain indices were refused.
    Indices(IndicesError),
    /// The PERM could not be built (empty entropy or an index out of domain).
    PermConstruction,
}

/// The domain indices a creation uses.
pub open spec fn create_indices(indices: Option<&str>) -> Result<Seq<u16>, IndicesError> {
    match indices {
        Some(raw) => spec_indices(split_on(raw@, ','), true),
        None => Ok(zero_indices()),
    }
}

/// The entropy surface a creation uses: the given one, or the substrate name.
pub open spec fn create_entropy(name: &str, entropy: Option<String>) -> Seq<char> {
    match entropy {
        Some(e) => e@,
        None => name@,
    }
}

/// The genesis of a substrate: its domain indices (the given ones, or twelve
/// zeros), its entropy surface (the given one, or its name), the PERM built
/// from them and the surface's UTF-8 bytes, the fresh manifold over that
/// PERM, and its commitment with no net work.
pub fn qtm_create(name: &str, indices: Option<&str>, entropy: Option<String>) -> (r: Result<Genesis, GenesisError>)
    ensures
        match r {
            Ok(g) => {
                &&& create_indices(indices) == Ok::<Seq<u16>, IndicesError>(g.domain_indices@)
                &&& g.entropy_surface@ == create_entropy(name, entropy)
                &&& encode_utf8(g.entropy_surface@).len() > 0
                &&& indices_in_domain(g.domain_indices@)
                &&& g.perm_dimension == perm_genesis_dimension(g.domain_indices@, encode_utf8(g.entropy_surface@))
                &&& is_fresh_over(g.manifold, g.perm_dimension)
                &&& is_commit_of(g.qtm, g.manifold, 0)
            },
            Err(GenesisError::Indices(e)) => create_indices(indices) == Err::<Seq<u16>, IndicesError>(e),
            Err(GenesisError::PermConstruction) => create_indices(indices) is Ok && {
                let ix = create_indices(indices)->Ok_0;
                encode_utf8(create_entropy(name, entropy)).len() == 0 || !indices_in_domain(ix)
            },
        },
{
    let domain_indices: [u16; 12] = match indices {
        Some(raw) => match parse_create_indices(raw) {
            Ok(ix) => ix,
            Err(e) => return Err(GenesisError::Indices(e)),
        },
        None => {
            let z = [0u16; 12];
            assert(z@ =~= zero_indices());
            z
        },
    };
    let entropy_surface: String = match entropy {
        Some(e) => e,
        None => String::from_str(name),
    };
    let bytes = entropy_surface.as_str().as_bytes();
    let perm_dimension = match perm_genesis_construct(&domain_indices, bytes) {
        Some(d) => d,
        None => return Err(GenesisError::PermConstruction),
    };
    let manifold = ManifoldState::new(perm_dimension);
    let qtm = Qtm::commit(&manifold, 0);
    Ok(Genesis { domain_indices, entropy_surface, perm_dimension, manifold, qtm })
}

// ─────────────────────────────────────────────
// Replay of a substrate
// ─────────────────────────────────────────────

/// The domain indices a persisted substrate holds.
pub open spec fn persisted_indices(raw: &str) -> Result<Seq<u16>, IndicesError> {
    spec_indices(split_on(trim(raw@), ','), false)
}

/// The heritage a replay starts from: the fresh manifold over the PERM,
/// re-anchored to its geometry, with an empty transition.
pub open spec fn is_replay_origin(h: Heritage, perm_dimension: u128) -> bool {
    &&& h.state.perm_dimension == perm_dimension
    &&& h.state.retained_mass == 0
    &&& h.state.activations == 0
    &&& h.state.structural_value == 0
    &&& h.state.dimension as int == perm_dimension as int % 0x1_0000_0000_0000_0000
    &&& h.transition.tau == 0
    &&& h.transition.delta == 0
    &&& h.transition.gross_work == 0
    &&& h.transition.net_work == 0
    &&& forall|i: int| 0 <= i < 32 ==> h.transition.mirror_bytes@[i] == 0
}

/// Reconstructs the canonical PERM of a persisted substrate from its index
/// and entropy surfaces and returns the heritage its replay starts from.
pub fn qtm_open_genesis(indices_raw: &str, entropy: &[u8]) -> (r: Result<Heritage, GenesisError>)
    ensures
        match r {
            Ok(h) => persisted_indices(indices_raw) is Ok && {
                let ix = persisted_indices(indices_raw)->Ok_0;
                &&& entropy@.len() > 0
                &&& indices_in_domain(ix)
                &&& is_replay_origin(h, perm_genesis_dimension(ix, entropy@))
            },
            Err(GenesisError::Indices(e)) => persisted_indices(indices_raw) == Err::<Seq<u16>, IndicesError>(e),
            Err(GenesisError::PermConstruction) => persisted_indices(indices_raw) is Ok && {
                let ix = persisted_indices(indices_raw)->Ok_0;
                entropy@.len() == 0 || !indices_in_domain(ix)
            },
        },
{
    let indices = match parse_persisted_indices(indices_raw) {
        Ok(ix) => ix,
        Err(e) => return Err(GenesisError::Indices(e)),
    };
    let perm = match perm_genesis_construct(&indices, entropy) {
        Some(d) => d,
        None => return Err(GenesisError::PermConstruction),
    };
    let mut manifold = ManifoldState::new(perm);
    manifold.set_initial_dimension_from_perm();
    Ok(Heritage { state: manifold, transition: TransitionHeritage::zero() })
}

/// The next step of a replay up to an activation: while the manifold is
/// below it, the manifold carrying its retained mass is realized again.
pub fn replay_next(heritage: &Heritage, stop_activation: u64) -> (r: Option<QP44Object>)
    ensures
        r is Some <==> heritage.state.activations < stop_activation,
        r matches Some(o) ==> o.manifold == heritage.state && o.coin == heritage.state.retained_mass,
{
    if heritage.state.activations < stop_activation {
        Some(QP44Object::from_quantperm(heritage.state, heritage.state.retained_mass))
    } else {
        None
    }
}

/// Whether closing a manifold down to an activation must exile once more.
pub fn close_pending(heritage: &Heritage, stop_activation: u64) -> (r: bool)
    ensures
        r == (heritage.state.activations > stop_activation),
{
    heritage.state.activations > stop_activation
}

/// The QTM at an activation: the economy of the heritage replayed up to it.
pub fn load_qtm_at_activation(heritage: &Heritage) -> (q: Qtm)
    ensures
        is_commit_of(q, heritage.state, heritage.transition.net_work),
{
    Qtm::economy(heritage)
}

/// The latest QTM: the economy of the fully replayed heritage.
pub fn load_latest_qtm(heritage: &Heritage) -> (q: Qtm)
    ensures
        is_commit_of(q, heritage.state, heritage.transition.net_work),
{
    Qtm::economy(heritage)
}


// ─────────────────────────────────────────────
// Rendering persisted surfaces
// ─────────────────────────────────────────────

/// The lower-case hex digit of a nibble.
pub open spec fn hex_digit_char(v: nat) -> char {
    if v < 10 { ((v + 48) as u32) as char } else { ((v + 87) as u32) as char }
}

/// The lower-case hexadecimal text of bytes, two digits per byte, high nibble first.
pub open spec fn hex_encoded(b: Seq<u8>) -> Seq<char> {
    Seq::new(2 * b.len(), |i: int| if i % 2 == 0 {
        hex_digit_char(b[i / 2] as nat / 16)
    } else {
        hex_digit_char(b[i / 2] as nat % 16)
    })
}

/// Calls `hex::encode`. Trusted: as the crate's source shows, every byte
/// becomes two lower-case hex digits, high nibble first.
#[verifier::external_body]
fn hex_encode(data: &[u8]) -> (s: String)
    ensures
        s@ == hex_encoded(data@),
{
    hex::encode(data)
}

/// Renders domain indices as the comma-separated decimal surface.
pub fn indices_surface(indices: &[u16; 12]) -> (s: String)
    ensures
        s@ == join_decimals(indices@, ','),
{
    let mut s = String::new();
    push_decimal(&mut s, indices[0] as u128);
    assert(indices@.subrange(0, 1) =~= seq![indices@[0]]);
    let mut i: usize = 1;
    while i < 12
        invariant
            1 <= i <= 12,
            s@ == join_decimals(indices@.subrange(0, i as int), ','),
        decreases 12 - i,
    {
        s.append(",");
        proof {
            reveal_strlit(",");
        }
        push_decimal(&mut s, indices[i] as u128);
        assert(indices@.subrange(0, i + 1).drop_last() =~= indices@.subrange(0, i as int));
        i = i + 1;
    }
    assert(indices@.subrange(0, 12) =~= indices@);
    s
}

proof fn lemma_hex_roundtrip(b: Seq<u8>)
    ensures
        hex_decoded(hex_encoded(b)) == Some(b),
        trim(hex_encoded(b)) == hex_encoded(b),
{
    let e = hex_encoded(b);
    assert forall|i: int| 0 <= i < e.len() implies is_hex_digit(#[trigger] e[i]) && !is_whitespace(e[i]) by {
        let v: nat = if i % 2 == 0 { b[i / 2] as nat / 16 } else { b[i / 2] as nat % 16 };
        assert(v < 16);
    }
    lemma_trim_identity(e);
    let d = Seq::new(e.len() / 2, |i: int| (hex_val(e[2 * i]) * 16 + hex_val(e[2 * i + 1])) as u8);
    assert forall|i: int| 0 <= i < b.len() implies d[i] == b[i] by {
        let hi = b[i] as nat / 16;
        let lo = b[i] as nat % 16;
        assert(e[2 * i] == hex_digit_char(hi));
        assert(e[2 * i + 1] == hex_digit_char(lo));
        assert(hex_val(hex_digit_char(hi)) == hi);
        assert(hex_val(hex_digit_char(lo)) == lo);
    }
    assert(d =~= b);
}

proof fn lemma_decimal_surface(n: nat)
    requires
        n <= u128::MAX,
    ensures
        surface_u128(decimal(n)) == Some(n),
{
    lemma_decimal_digits(n);
    let d = decimal(n);
    assert(is_digit(d[0]) && is_digit(d.last()));
    lemma_trim_identity(d);
    lemma_parse_decimal_roundtrip(n, u128::MAX as nat);
}

/// What is written is read back: the surfaces a QTM is persisted under
/// reload, through `load_qtm`, to the same commitment, coordinate, network
/// and Σ.
pub proof fn lemma_qtm_surfaces_reload(q: Qtm)
    ensures
        surface_bytes32(hex_encoded(q.commitment@)) == Some(q.commitment@),
        surface_bytes32(hex_encoded(q.coordinate@)) == Some(q.coordinate@),
        surface_u128(decimal(q.net_work as nat)) == Some(q.net_work as nat),
        surface_u128(decimal(q.sigma as nat)) == Some(q.sigma as nat),
{
    lemma_hex_roundtrip(q.commitment@);
    lemma_hex_roundtrip(q.coordinate@);
    lemma_decimal_surface(q.net_work as nat);
    lemma_decimal_surface(q.sigma as nat);
}

/// What is written is read back: the index surface of twelve domain indices
/// reads back to the same indices, both as `qtm create` reads indices and as
/// a persisted substrate is reopened.
pub proof fn lemma_indices_surface_reload(indices: Seq<u16>)
    requires
        indices.len() == 12,
    ensures
        spec_indices(split_on(join_decimals(indices, ','), ','), true) == Ok::<Seq<u16>, IndicesError>(indices),
        spec_indices(split_on(trim(join_decimals(indices, ',')), ','), false) == Ok::<Seq<u16>, IndicesError>(indices),
{
    let j = join_decimals(indices, ',');
    lemma_join_decimals_ends(indices, ',');
    lemma_trim_identity(j);
    lemma_split_join_decimals(indices, ',');
    let pieces = split_on(j, ',');
    assert forall|i: int| 0 <= i < 12 implies
        parse_unsigned(#[trigger] pieces[i], 65535) == Some(indices[i] as nat)
        && trim(pieces[i]) == pieces[i] by {
        lemma_decimal_digits(indices[i] as nat);
        lemma_parse_decimal_roundtrip(indices[i] as nat, 65535);
        let d = decimal(indices[i] as nat);
        assert(is_digit(d[0]) && is_digit(d.last()));
        lemma_trim_identity(d);
    }
    let texts_t = piece_texts(pieces, true);
    let texts_f = piece_texts(pieces, false);
    assert(texts_t =~= pieces);
    assert(texts_f =~= pieces);
    assert(!(exists|i: int| 0 <= i < texts_t.len() && parse_unsigned(#[trigger] texts_t[i], 65535) is None));
    assert(!(exists|i: int| 0 <= i < texts_f.len() && parse_unsigned(#[trigger] texts_f[i], 65535) is None));
    assert(Seq::new(12, |i: int| parse_unsigned(texts_t[i], 65535)->Some_0 as u16) =~= indices);
    assert(Seq::new(12, |i: int| parse_unsigned(texts_f[i], 65535)->Some_0 as u16) =~= indices);
}


/// One persisted surface: a file name and its text.
pub struct SurfaceFile {
    pub name: &'static str,
    pub contents: String,
}

fn decimal_file(name: &'static str, n: u128) -> (f: SurfaceFile)
    ensures
        f.name@ == name@,
        f.contents@ == decimal(n as nat),
{
    let mut contents = String::new();
    push_decimal(&mut contents, n);
    SurfaceFile { name, contents }
}

fn hex_file(name: &'static str, b: &[u8]) -> (f: SurfaceFile)
    ensures
        f.name@ == name@,
        f.contents@ == hex_encoded(b@),
{
    SurfaceFile { name, contents: hex_encode(b) }
}

/// The surfaces an event is persisted under: its manifold, its transition
/// and its QTM, one file each.
pub open spec fn spec_heritage_surfaces(h: Heritage, q: Qtm) -> Seq<(Seq<char>, Seq<char>)> {
    seq![
        ("manifold.dimension"@, decimal(h.state.dimension as nat)),
        ("manifold.structural_value"@, decimal(h.state.structural_value as nat)),
        ("manifold.activations"@, decimal(h.state.activations as nat)),
        ("manifold.retained_mass"@, decimal(h.state.retained_mass as nat)),
        ("transition.mirror"@, hex_encoded(h.transition.mirror_bytes@)),
        ("transition.tau"@, decimal(h.transition.tau as nat)),
        ("transition.delta"@, decimal(h.transition.delta as nat)),
        ("transition.gross_work"@, decimal(h.transition.gross_work as nat)),
        ("transition.net_work"@, decimal(h.transition.net_work as nat)),
        ("qtm.commitment"@, hex_encoded(q.commitment@)),
        ("qtm.coordinate"@, hex_encoded(q.coordinate@)),
        ("qtm.network"@, decimal(q.net_work as nat)),
        ("qtm.sigma"@, decimal(q.sigma as nat)),
    ]
}

/// Renders the surfaces an event is persisted under.
pub fn heritage_surfaces(heritage: &Heritage, qtm: &Qtm) -> (files: Vec<SurfaceFile>)
    ensures
        files@.len() == 13,
        forall|i: int| 0 <= i < 13 ==>
            ((#[trigger] files@[i]).name@, files@[i].contents@) == spec_heritage_surfaces(*heritage, *qtm)[i],
{
    let mut files: Vec<SurfaceFile> = Vec::new();
    files.push(decimal_file("manifold.dimension", heritage.state.dimension as u128));
    files.push(decimal_file("manifold.structural_value", heritage.state.structural_value));
    files.push(decimal_file("manifold.activations", heritage.state.activations as u128));
    files.push(decimal_file("manifold.retained_mass", heritage.state.retained_mass));
    files.push(hex_file("transition.mirror", heritage.transition.mirror_bytes.as_slice()));
    files.push(decimal_file("transition.tau", heritage.transition.tau));
    files.push(decimal_file("transition.delta", heritage.transition.delta));
    files.push(decimal_file("transition.gross_work", heritage.transition.gross_work));
    files.push(decimal_file("transition.net_work", heritage.transition.net_work));
    files.push(hex_file("qtm.commitment", qtm.commitment.as_slice()));
    files.push(hex_file("qtm.coordinate", qtm.coordinate.as_slice()));
    files.push(decimal_file("qtm.network", qtm.net_work));
    files.push(decimal_file("qtm.sigma", qtm.sigma));
    assert forall|i: int| 0 <= i < 13 implies
        ((#[trigger] files@[i]).name@, files@[i].contents@) == spec_heritage_surfaces(*heritage, *qtm)[i] by {
        reveal_strlit("manifold.dimension");
        reveal_strlit("manifold.structural_value");
        reveal_strlit("manifold.activations");
        reveal_strlit("manifold.retained_mass");
        reveal_strlit("transition.mirror");
        reveal_strlit("transition.tau");
        reveal_strlit("transition.delta");
        reveal_strlit("transition.gross_work");
        reveal_strlit("transition.net_work");
        reveal_strlit("qtm.commitment");
        reveal_strlit("qtm.coordinate");
        reveal_strlit("qtm.network");
        reveal_strlit("qtm.sigma");
    }
    files
}

/// The surfaces a new substrate is persisted under.
pub open spec fn spec_genesis_surfaces(g: Genesis) -> Seq<(Seq<char>, Seq<char>)> {
    seq![
        ("perm.dimension"@, decimal(g.perm_dimension as nat)),
        ("perm.indices"@, join_decimals(g.domain_indices@, ',')),
        ("perm.entropy"@, g.entropy_surface@),
        ("qtm.commitment"@, hex_encoded(g.qtm.commitment@)),
        ("qtm.coordinate"@, hex_encoded(g.qtm.coordinate@)),
        ("qtm.network"@, decimal(g.qtm.net_work as nat)),
        ("qtm.sigma"@, decimal(g.qtm.sigma as nat)),
    ]
}

/// Renders the surfaces a new substrate is persisted under.
pub fn genesis_surfaces(g: &Genesis) -> (files: Vec<SurfaceFile>)
    ensures
        files@.len() == 7,
        forall|i: int| 0 <= i < 7 ==>
            ((#[trigger] files@[i]).name@, files@[i].contents@) == spec_genesis_surfaces(*g)[i],
{
    let mut files: Vec<SurfaceFile> = Vec::new();
    files.push(decimal_file("perm.dimension", g.perm_dimension));
    files.push(SurfaceFile { name: "perm.indices", contents: indices_surface(&g.domain_indices) });
    files.push(SurfaceFile { name: "perm.entropy", contents: g.entropy_surface.clone() });
    files.push(hex_file("qtm.commitment", g.qtm.commitment.as_slice()));
    files.push(hex_file("qtm.coordinate", g.qtm.coordinate.as_slice()));
    files.push(decimal_file("qtm.network", g.qtm.net_work));
    files.push(decimal_file("qtm.sigma", g.qtm.sigma));
    assert forall|i: int| 0 <= i < 7 implies
        ((#[trigger] files@[i]).name@, files@[i].contents@) == spec_genesis_surfaces(*g)[i] by {
        reveal_strlit("perm.dimension");
        reveal_strlit("perm.indices");
        reveal_strlit("perm.entropy");
        reveal_strlit("qtm.commitment");
        reveal_strlit("qtm.coordinate");
        reveal_strlit("qtm.network");
        reveal_strlit("qtm.sigma");
    }
    files
}

/// Every surface an event is persisted under reads back to the field it is
/// named after: each decimal surface parses back to its manifold, transition
/// or QTM field, and each hex surface decodes back to its 32 bytes, so
/// `load_qtm` over the `qtm.*` surfaces returns the event's QTM.
pub proof fn lemma_heritage_surfaces_read_back(h: Heritage, q: Qtm)
    ensures
        ({
            let f = spec_heritage_surfaces(h, q);
            &&& f.len() == 13
            &&& f[0].0 == "manifold.dimension"@ && surface_u128(f[0].1) == Some(h.state.dimension as nat)
            &&& f[1].0 == "manifold.structural_value"@
                && surface_u128(f[1].1) == Some(h.state.structural_value as nat)
            &&& f[2].0 == "manifold.activations"@ && surface_u128(f[2].1) == Some(h.state.activations as nat)
            &&& f[3].0 == "manifold.retained_mass"@
                && surface_u128(f[3].1) == Some(h.state.retained_mass as nat)
            &&& f[4].0 == "transition.mirror"@ && surface_bytes32(f[4].1) == Some(h.transition.mirror_bytes@)
            &&& f[5].0 == "transition.tau"@ && surface_u128(f[5].1) == Some(h.transition.tau as nat)
            &&& f[6].0 == "transition.delta"@ && surface_u128(f[6].1) == Some(h.transition.delta as nat)
            &&& f[7].0 == "transition.gross_work"@
                && surface_u128(f[7].1) == Some(h.transition.gross_work as nat)
            &&& f[8].0 == "transition.net_work"@
                && surface_u128(f[8].1) == Some(h.transition.net_work as nat)
            &&& f[9].0 == "qtm.commitment"@ && surface_bytes32(f[9].1) == Some(q.commitment@)
            &&& f[10].0 == "qtm.coordinate"@ && surface_bytes32(f[10].1) == Some(q.coordinate@)
            &&& f[11].0 == "qtm.network"@ && surface_u128(f[11].1) == Some(q.net_work as nat)
            &&& f[12].0 == "qtm.sigma"@ && surface_u128(f[12].1) == Some(q.sigma as nat)
        }),
{
    lemma_decimal_surface(h.state.dimension as nat);
    lemma_decimal_surface(h.state.structural_value as nat);
    lemma_decimal_surface(h.state.activations as nat);
    lemma_decimal_surface(h.state.retained_mass as nat);
    lemma_hex_roundtrip(h.transition.mirror_bytes@);
    lemma_decimal_surface(h.transition.tau as nat);
    lemma_decimal_surface(h.transition.delta as nat);
    lemma_decimal_surface(h.transition.gross_work as nat);
    lemma_decimal_surface(h.transition.net_work as nat);
    lemma_qtm_surfaces_reload(q);
}

/// Every surface a new substrate is persisted under reads back to the value
/// it is named after: the PERM dimension, the domain indices (as a reopened
/// substrate reads them), the entropy surface as given, and the genesis QTM,
/// so `load_qtm` over the `qtm.*` surfaces returns the genesis QTM. When that
/// QTM is the commitment of the genesis manifold, the coordinate surface
/// reads back to the manifold's coordinate.
pub proof fn lemma_genesis_surfaces_read_back(g: Genesis)
    ensures
        ({
            let f = spec_genesis_surfaces(g);
            &&& f.len() == 7
            &&& f[0].0 == "perm.dimension"@ && surface_u128(f[0].1) == Some(g.perm_dimension as nat)
            &&& f[1].0 == "perm.indices"@ && spec_indices(split_on(trim(f[1].1), ','), false)
                == Ok::<Seq<u16>, IndicesError>(g.domain_indices@)
            &&& f[2].0 == "perm.entropy"@ && f[2].1 == g.entropy_surface@
            &&& f[3].0 == "qtm.commitment"@ && surface_bytes32(f[3].1) == Some(g.qtm.commitment@)
            &&& f[4].0 == "qtm.coordinate"@ && surface_bytes32(f[4].1) == Some(g.qtm.coordinate@)
            &&& f[5].0 == "qtm.network"@ && surface_u128(f[5].1) == Some(g.qtm.net_work as nat)
            &&& f[6].0 == "qtm.sigma"@ && surface_u128(f[6].1) == Some(g.qtm.sigma as nat)
            &&& is_commit_of(g.qtm, g.manifold, 0)
                ==> surface_bytes32(f[4].1) == Some(crate::protocolvalue::spec_coordinate(g.manifold))
        }),
{
    lemma_decimal_surface(g.perm_dimension as nat);
    lemma_indices_surface_reload(g.domain_indices@);
    lemma_qtm_surfaces_reload(g.qtm);
}

} // verus!
