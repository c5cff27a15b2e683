//! Seed and BIP39 input handling: from a seed source to a fresh manifold.
use vstd::prelude::*;
use vstd::string::StringExecFns;
use bip39::{Language, Mnemonic};
use crate::digest::{blake3_digest, sha256_digest, blake3_hash, sha256};
use crate::encoding::push_all;
use crate::manifold::{ManifoldState, indices_in_domain, perm_genesis_dimension, perm_genesis_construct, DOMAIN_SIZE};
use crate::text::{decimal, push_decimal};

verus! {

// ─────────────────────────────────────────────
// Outside: BIP39 mnemonics (English word list)
// ─────────────────────────────────────────────

/// Whether `Mnemonic::parse_in(Language::English, phrase)` succeeds.
pub uninterp spec fn bip39_parses(phrase: Seq<char>) -> bool;

/// What `Mnemonic::to_entropy` returns for the mnemonic parsed from `phrase`.
pub uninterp spec fn bip39_entropy(phrase: Seq<char>) -> Seq<u8>;

/// What `Mnemonic::to_seed(passphrase)` returns for the mnemonic parsed from `phrase`.
pub uninterp spec fn bip39_seed(phrase: Seq<char>, passphrase: Seq<char>) -> Seq<u8>;

/// The text (`Display`) of the error that `Mnemonic::parse_in(Language::English, phrase)` returns.
pub uninterp spec fn bip39_error_text(phrase: Seq<char>) -> Seq<char>;

/// Parses `phrase` with `bip39::Mnemonic::parse_in` in English and returns
/// `Mnemonic::to_entropy` of it, or the text of the parse error. Trusted:
/// success is `bip39_parses(phrase)`; the entropy is `bip39_entropy(phrase)`,
/// which the crate's source builds as `word_count / 3 * 4` bytes for a word
/// count of 12, 15, 18, 21 or 24; an error's text is `bip39_error_text(phrase)`.
#[verifier::external_body]
fn english_mnemonic_entropy(phrase: &str) -> (r: Result<Vec<u8>, String>)
    ensures
        r is Ok <==> bip39_parses(phrase@),
        r matches Ok(e) ==> e@ == bip39_entropy(phrase@),
        r matches Ok(e) ==> (e@.len() == 16 || e@.len() == 20 || e@.len() == 24
            || e@.len() == 28 || e@.len() == 32),
        r matches Err(t) ==> t@ == bip39_error_text(phrase@),
{
    match Mnemonic::parse_in(Language::English, phrase) {
        Ok(m) => Ok(m.to_entropy()),
        Err(e) => Err(e.to_string()),
    }
}

/// Parses `phrase` with `bip39::Mnemonic::parse_in` in English and returns the
/// 64-byte `Mnemonic::to_seed(passphrase)` of it, or the text of the parse
/// error. Trusted: success is `bip39_parses(phrase)`, the seed is
/// `bip39_seed(phrase, passphrase)`, an error's text `bip39_error_text(phrase)`.
#[verifier::external_body]
fn english_mnemonic_seed(phrase: &str, passphrase: &str) -> (r: Result<[u8; 64], String>)
    ensures
        r is Ok <==> bip39_parses(phrase@),
        r matches Ok(s) ==> s@ == bip39_seed(phrase@, passphrase@),
        r matches Err(t) ==> t@ == bip39_error_text(phrase@),
{
    match Mnemonic::parse_in(Language::English, phrase) {
        Ok(m) => Ok(m.to_seed(passphrase)),
        Err(e) => Err(e.to_string()),
    }
}

// ─────────────────────────────────────────────
// Errors
// ─────────────────────────────────────────────

#[derive(Debug)]
pub enum BIP39Error {
    InvalidMnemonic(String),
    InvalidLanguage,
    InvalidEntropyLength { expected: usize, actual: usize },
    UnsupportedWordCount(usize),
}

pub open spec fn invalid_mnemonic_message(detail: Seq<char>) -> Seq<char> {
    "Invalid mnemonic phrase: "@ + detail
}

pub open spec fn invalid_language_message() -> Seq<char> {
    "Invalid mnemonic language"@
}

pub open spec fn invalid_entropy_length_message(expected: nat, actual: nat) -> Seq<char> {
    "Invalid entropy length: expected "@ + decimal(expected) + ", got "@ + decimal(actual)
}

pub open spec fn unsupported_word_count_message(count: nat) -> Seq<char> {
    "Unsupported word count: "@ + decimal(count)
}

/// The message of an entropy of the wrong size.
pub open spec fn entropy_size_message(len: nat) -> Seq<char> {
    "Entropy must be 32 bytes (got "@ + decimal(len) + ")"@
}

impl BIP39Error {
    /// The human-readable message of the error.
    pub open spec fn spec_message(&self) -> Seq<char> {
        match self {
            BIP39Error::InvalidMnemonic(d) => invalid_mnemonic_message(d@),
            BIP39Error::InvalidLanguage => invalid_language_message(),
            BIP39Error::InvalidEntropyLength { expected, actual } =>
                invalid_entropy_length_message(*expected as nat, *actual as nat),
            BIP39Error::UnsupportedWordCount(n) => unsupported_word_count_message(*n as nat),
        }
    }

    /// The human-readable message of the error.
    pub fn message(&self) -> (s: String)
        ensures
            s@ == self.spec_message(),
    {
        match self {
            BIP39Error::InvalidMnemonic(d) => {
                let mut s = String::from_str("Invalid mnemonic phrase: ");
                s.append(d.as_str());
                s
            },
            BIP39Error::InvalidLanguage => String::from_str("Invalid mnemonic language"),
            BIP39Error::InvalidEntropyLength { expected, actual } => {
                let mut s = String::from_str("Invalid entropy length: expected ");
                push_decimal(&mut s, *expected as u128);
                s.append(", got ");
                push_decimal(&mut s, *actual as u128);
                s
            },
            BIP39Error::UnsupportedWordCount(n) => {
                let mut s = String::from_str("Unsupported word count: ");
                push_decimal(&mut s, *n as u128);
                s
            },
        }
    }
}


// ─────────────────────────────────────────────
// Languages
// ─────────────────────────────────────────────

#[derive(Clone, Copy, Debug, PartialEq, Eq, Structural)]
pub enum BIP39Language {
    English,
    ChineseSimplified,
    ChineseTraditional,
    French,
    Italian,
    Japanese,
    Korean,
    Spanish,
    Czech,
    Portuguese,
}

// ─────────────────────────────────────────────
// The 132-bit BIP39 payload of a 12-word mnemonic
// ─────────────────────────────────────────────

/// Bit `k` of a byte string, most significant bit of each byte first.
pub open spec fn bit_at(bytes: Seq<u8>, k: int) -> u8 {
    (bytes[k / 8] >> ((7 - k % 8) as u8)) & 1u8
}

/// The value of the `n` bits starting at bit `start`, read most significant first.
pub open spec fn bits_value(bytes: Seq<u8>, start: int, n: nat) -> nat
    decreases n,
{
    if n == 0 {
        0
    } else {
        bits_value(bytes, start, (n - 1) as nat) * 2 + bit_at(bytes, start + n - 1) as nat
    }
}

/// `2^n`.
pub open spec fn pow2n(n: nat) -> nat
    decreases n,
{
    if n == 0 { 1 } else { 2 * pow2n((n - 1) as nat) }
}

/// 128 bits of entropy followed by the 4 checksum bits: the high nibble of the
/// first byte of the entropy's SHA-256 digest.
pub open spec fn checksum_payload(entropy: Seq<u8>) -> Seq<u8> {
    entropy.push(sha256_digest(entropy)[0] & 0xf0u8)
}

/// The twelve consecutive 11-bit groups of a payload.
pub open spec fn payload_indices(payload: Seq<u8>) -> Seq<u16> {
    Seq::new(12, |p: int| bits_value(payload, p * 11, 11) as u16)
}

/// The word indices of a 12-word mnemonic, read back from its entropy and checksum.
pub open spec fn bip39_indices(phrase: Seq<char>) -> Seq<u16> {
    payload_indices(checksum_payload(bip39_entropy(phrase)))
}

/// The word count that an entropy length corresponds to (0 where none does).
pub open spec fn word_count_for(entropy_len: nat) -> nat {
    if entropy_len == 16 { 12 }
    else if entropy_len == 20 { 15 }
    else if entropy_len == 24 { 18 }
    else if entropy_len == 28 { 21 }
    else if entropy_len == 32 { 24 }
    else { 0 }
}

/// The 32-byte conditioning value derived from a mnemonic's BIP39 seed.
pub open spec fn bip39_conditioning(phrase: Seq<char>, passphrase: Seq<char>) -> Seq<u8> {
    blake3_digest(bip39_seed(phrase, passphrase))
}

proof fn lemma_bits_value_bound(bytes: Seq<u8>, start: int, n: nat)
    requires
        forall|k: int| start <= k < start + n ==> bit_at(bytes, k) <= 1,
    ensures
        bits_value(bytes, start, n) < pow2n(n),
    decreases n,
{
    if n > 0 {
        lemma_bits_value_bound(bytes, start, (n - 1) as nat);
    }
}

proof fn lemma_pow2n_values()
    ensures
        pow2n(10) == 1024,
        pow2n(11) == 2048,
{
    reveal_with_fuel(pow2n, 12);
}

proof fn lemma_pow2n_mono(a: nat, b: nat)
    requires
        a <= b,
    ensures
        pow2n(a) <= pow2n(b),
    decreases b,
{
    if a < b {
        lemma_pow2n_mono(a, (b - 1) as nat);
    }
}

/// Reads the twelve 11-bit groups of a 17-byte payload.
fn read_indices(bits: &[u8; 17]) -> (indices: [u16; 12])
    ensures
        indices@ == payload_indices(bits@),
        forall|i: int| 0 <= i < 12 ==> indices@[i] < DOMAIN_SIZE,
{
    let mut indices = [0u16; 12];
    let mut position: usize = 0;
    while position < 12
        invariant
            position <= 12,
            forall|q: int| 0 <= q < position ==> indices@[q] == bits_value(bits@, q * 11, 11) as u16,
            forall|q: int| 0 <= q < position ==> indices@[q] < DOMAIN_SIZE,
        decreases 12 - position,
    {
        let start_bit: usize = position * 11;
        let mut value: u16 = 0;
        let mut bit_offset: usize = 0;
        while bit_offset < 11
            invariant
                position < 12,
                start_bit == position * 11,
                bit_offset <= 11,
                value as nat == bits_value(bits@, start_bit as int, bit_offset as nat),
                value < pow2n(bit_offset as nat),
            decreases 11 - bit_offset,
        {
            let absolute_bit: usize = start_bit + bit_offset;
            let byte_index: usize = absolute_bit / 8;
            let bit_index: u8 = (7 - (absolute_bit % 8)) as u8;
            let byte: u8 = bits[byte_index];
            let bit: u8 = (byte >> bit_index) & 1;
            assert(bit <= 1) by (bit_vector)
                requires bit == (byte >> bit_index) & 1u8;
            proof {
                lemma_pow2n_mono(bit_offset as nat, 10);
                lemma_pow2n_values();
            }
            let v: u16 = value;
            let b: u16 = bit as u16;
            assert(v < 1024);
            assert(((v << 1u16) | b) == v * 2 + b) by (bit_vector)
                requires v < 1024u16, b <= 1u16;
            value = (value << 1) | bit as u16;
            assert(bit_at(bits@, absolute_bit as int) == bit);
            bit_offset = bit_offset + 1;
            assert(bits_value(bits@, start_bit as int, bit_offset as nat)
                == bits_value(bits@, start_bit as int, (bit_offset - 1) as nat) * 2
                    + bit_at(bits@, absolute_bit as int) as nat);
        }
        proof {
            lemma_pow2n_values();
        }
        indices[position] = value;
        position = position + 1;
    }
    assert(indices@ =~= payload_indices(bits@));
    indices
}

pub struct BIP39Handler;

impl BIP39Handler {
    /// All declared languages, in declaration order.
    pub fn all_languages() -> (langs: [BIP39Language; 10])
        ensures
            langs@ == seq![
                BIP39Language::English,
                BIP39Language::ChineseSimplified,
                BIP39Language::ChineseTraditional,
                BIP39Language::French,
                BIP39Language::Italian,
                BIP39Language::Japanese,
                BIP39Language::Korean,
                BIP39Language::Spanish,
                BIP39Language::Czech,
                BIP39Language::Portuguese,
            ],
    {
        let langs = [
            BIP39Language::English,
            BIP39Language::ChineseSimplified,
            BIP39Language::ChineseTraditional,
            BIP39Language::French,
            BIP39Language::Italian,
            BIP39Language::Japanese,
            BIP39Language::Korean,
            BIP39Language::Spanish,
            BIP39Language::Czech,
            BIP39Language::Portuguese,
        ];
        assert(langs@ =~= seq![
            BIP39Language::English,
            BIP39Language::ChineseSimplified,
            BIP39Language::ChineseTraditional,
            BIP39Language::French,
            BIP39Language::Italian,
            BIP39Language::Japanese,
            BIP39Language::Korean,
            BIP39Language::Spanish,
            BIP39Language::Czech,
            BIP39Language::Portuguese,
        ]);
        langs
    }

    /// Extracts the exact twelve BIP39 word indices of a 12-word mnemonic: the
    /// 128 entropy bits and 4 checksum bits, read as twelve 11-bit groups.
    /// Every mnemonic is read with the English word list.
    pub fn mnemonic_indices(phrase: &str, language: BIP39Language) -> (r: Result<[u16; 12], BIP39Error>)
        ensures
            match r {
                Ok(indices) => {
                    &&& bip39_parses(phrase@)
                    &&& bip39_entropy(phrase@).len() == 16
                    &&& indices@ == bip39_indices(phrase@)
                },
                Err(BIP39Error::InvalidMnemonic(detail)) =>
                    !bip39_parses(phrase@) && detail@ == bip39_error_text(phrase@),
                Err(BIP39Error::UnsupportedWordCount(n)) => {
                    &&& bip39_parses(phrase@)
                    &&& bip39_entropy(phrase@).len() != 16
                    &&& n == word_count_for(bip39_entropy(phrase@).len())
                },
                Err(_) => false,
            },
            r matches Ok(indices) ==> indices_in_domain(indices@),
    {
        let entropy = match english_mnemonic_entropy(phrase) {
            Ok(e) => e,
            Err(t) => return Err(BIP39Error::InvalidMnemonic(t)),
        };
        if entropy.len() != 16 {
            let word_count: usize = if entropy.len() == 16 {
                12
            } else if entropy.len() == 20 {
                15
            } else if entropy.len() == 24 {
                18
            } else if entropy.len() == 28 {
                21
            } else if entropy.len() == 32 {
                24
            } else {
                0
            };
            if word_count != 12 {
                return Err(BIP39Error::UnsupportedWordCount(word_count));
            }
            return Err(BIP39Error::InvalidEntropyLength { expected: 16, actual: entropy.len() });
        }
        let checksum_hash = sha256(entropy.as_slice());
        let mut bits = [0u8; 17];
        let mut i: usize = 0;
        while i < 16
            invariant
                i <= 16,
                entropy@.len() == 16,
                forall|j: int| 0 <= j < i ==> bits@[j] == entropy@[j],
            decreases 16 - i,
        {
            bits[i] = entropy[i];
            i = i + 1;
        }
        bits[16] = checksum_hash[0] & 0xf0;
        assert(bits@ =~= checksum_payload(entropy@));
        let indices = read_indices(&bits);
        Ok(indices)
    }
}


/// The passphrase a seed is derived with: the given one, or the empty one.
pub open spec fn passphrase_view(passphrase: Option<&str>) -> Seq<char> {
    match passphrase {
        Some(p) => p@,
        None => Seq::empty(),
    }
}

impl BIP39Handler {
    /// Strict language detection: the first declared language whose word list
    /// parses the phrase. Every language is read with the English word list.
    pub fn detect_language(phrase: &str) -> (r: Result<BIP39Language, BIP39Error>)
        ensures
            match r {
                Ok(lang) => bip39_parses(phrase@) && lang == BIP39Language::English,
                Err(BIP39Error::InvalidMnemonic(detail)) =>
                    !bip39_parses(phrase@) && detail@ == "Could not detect language"@,
                Err(_) => false,
            },
    {
        let langs = Self::all_languages();
        let mut i: usize = 0;
        while i < 10
            invariant
                i <= 10,
                langs@ == Self::all_languages_spec(),
                i > 0 ==> !bip39_parses(phrase@),
            decreases 10 - i,
        {
            let lang = langs[i];
            if english_mnemonic_entropy(phrase).is_ok() {
                assert(i == 0);
                return Ok(lang);
            }
            i = i + 1;
        }
        Err(BIP39Error::InvalidMnemonic(String::from_str("Could not detect language")))
    }

    pub open spec fn all_languages_spec() -> Seq<BIP39Language> {
        seq![
            BIP39Language::English,
            BIP39Language::ChineseSimplified,
            BIP39Language::ChineseTraditional,
            BIP39Language::French,
            BIP39Language::Italian,
            BIP39Language::Japanese,
            BIP39Language::Korean,
            BIP39Language::Spanish,
            BIP39Language::Czech,
            BIP39Language::Portuguese,
        ]
    }

    /// Lightweight detection: the detected language, if any.
    pub fn detect_language_opt(phrase: &str) -> (r: Option<BIP39Language>)
        ensures
            r is Some <==> bip39_parses(phrase@),
            r matches Some(lang) ==> lang == BIP39Language::English,
    {
        match Self::detect_language(phrase) {
            Ok(lang) => Some(lang),
            Err(_) => None,
        }
    }

    /// The 32-byte PERM conditioning value of a mnemonic: the BLAKE3 digest of
    /// its 512-bit BIP39 seed (not the BIP39 entropy). No passphrase means the
    /// empty one.
    pub fn mnemonic_entropy(phrase: &str, language: BIP39Language, passphrase: Option<&str>)
        -> (r: Result<[u8; 32], BIP39Error>)
        ensures
            match r {
                Ok(e) => bip39_parses(phrase@)
                    && e@ == bip39_conditioning(phrase@, passphrase_view(passphrase)),
                Err(BIP39Error::InvalidMnemonic(detail)) =>
                    !bip39_parses(phrase@) && detail@ == bip39_error_text(phrase@),
                Err(_) => false,
            },
    {
        proof {
            reveal_strlit("");
        }
        let pass: &str = match passphrase {
            Some(p) => p,
            None => "",
        };
        assert(pass@ =~= passphrase_view(passphrase));
        let seed = match english_mnemonic_seed(phrase, pass) {
            Ok(s) => s,
            Err(t) => return Err(BIP39Error::InvalidMnemonic(t)),
        };
        Ok(blake3_hash(seed.as_slice()))
    }
}

// ─────────────────────────────────────────────
// Seed sources
// ─────────────────────────────────────────────

#[derive(Debug)]
pub enum SeedSource {
    BIP39 { phrase: String, language: BIP39Language, passphrase: Option<String> },
    Raw(Vec<u8>),
    Custom(Vec<u8>),
}

/// Two seed sources carry the same phrase and passphrase, or the same bytes.
pub open spec fn same_source(a: SeedSource, b: SeedSource) -> bool {
    match (a, b) {
        (SeedSource::BIP39 { phrase: p1, language: l1, passphrase: q1 },
         SeedSource::BIP39 { phrase: p2, language: l2, passphrase: q2 }) =>
            p1@ == p2@ && opt_string_view(q1) == opt_string_view(q2),
        (SeedSource::Raw(d1), SeedSource::Raw(d2)) => d1@ == d2@,
        (SeedSource::Custom(d1), SeedSource::Custom(d2)) => d1@ == d2@,
        _ => false,
    }
}

/// An optional passphrase, as the characters a seed is derived with.
pub open spec fn opt_string_view(s: Option<String>) -> Seq<char> {
    match s {
        Some(p) => p@,
        None => Seq::empty(),
    }
}

/// Domain separator of the raw index derivation: the ASCII bytes of `PERM::RAW_INDICES::V1`.
pub open spec fn raw_indices_tag() -> Seq<u8> {
    seq![0x50, 0x45, 0x52, 0x4d, 0x3a, 0x3a, 0x52, 0x41, 0x57, 0x5f, 0x49, 0x4e, 0x44, 0x49, 0x43,
        0x45, 0x53, 0x3a, 0x3a, 0x56, 0x31]
}

/// The domain indices derived from 32 bytes of entropy that carry no native
/// BIP39 indices: twelve big-endian 16-bit words of a domain-separated
/// digest, each reduced into the 2048-index domain.
pub open spec fn raw_indices_of(entropy: Seq<u8>) -> Seq<u16> {
    let h = blake3_digest(raw_indices_tag() + entropy);
    Seq::new(12, |i: int| ((h[2 * i] as int * 256 + h[2 * i + 1] as int) % 2048) as u16)
}

/// The PERM dimension a seed source resolves to, or the message it fails with.
pub open spec fn spec_seed_perm(input: SeedSource) -> Result<u128, Seq<char>> {
    match input {
        SeedSource::BIP39 { phrase, language, passphrase } =>
            if !bip39_parses(phrase@) {
                Err(invalid_mnemonic_message(bip39_error_text(phrase@)))
            } else if bip39_entropy(phrase@).len() != 16 {
                Err(unsupported_word_count_message(word_count_for(bip39_entropy(phrase@).len())))
            } else {
                Ok(perm_genesis_dimension(
                    bip39_indices(phrase@),
                    bip39_conditioning(phrase@, opt_string_view(passphrase)),
                ))
            },
        SeedSource::Raw(data) =>
            if data@.len() != 32 {
                Err(entropy_size_message(data@.len()))
            } else {
                Ok(perm_genesis_dimension(raw_indices_of(data@), data@))
            },
        SeedSource::Custom(data) => {
            let e = blake3_digest(data@);
            Ok(perm_genesis_dimension(raw_indices_of(e), e))
        },
    }
}

/// A manifold freshly built over a PERM of the given dimension.
pub open spec fn is_fresh_over(m: ManifoldState, perm_dimension: u128) -> bool {
    &&& m.perm_dimension == perm_dimension
    &&& m.retained_mass == 0
    &&& m.activations == 0
    &&& m.dimension == 0
    &&& m.structural_value == 0
}

/// `r` is the outcome of resolving a seed source whose spec outcome is `s`.
pub open spec fn seed_result_matches(r: Result<ManifoldState, String>, s: Result<u128, Seq<char>>) -> bool {
    match r {
        Ok(m) => s is Ok && is_fresh_over(m, s->Ok_0),
        Err(e) => s is Err && e@ == s->Err_0,
    }
}

/// Identity compiler: seed source to PERM coordinate environment to manifold.
pub struct Purpose;

impl Purpose {
    /// Resolves a seed source into a fresh manifold. A BIP39 source keeps its
    /// twelve native word indices; raw and custom sources derive theirs.
    pub fn quantperm_seed(input: SeedSource) -> (r: Result<ManifoldState, String>)
        ensures
            seed_result_matches(r, spec_seed_perm(input)),
    {
        Self::seed_manifold(&input)
    }

    /// Resolves a borrowed seed source into a fresh manifold.
    pub fn seed_manifold(input: &SeedSource) -> (r: Result<ManifoldState, String>)
        ensures
            seed_result_matches(r, spec_seed_perm(*input)),
    {
        match input {
            SeedSource::BIP39 { phrase, language, passphrase } => {
                let indices = match BIP39Handler::mnemonic_indices(phrase.as_str(), *language) {
                    Ok(ix) => ix,
                    Err(e) => return Err(e.message()),
                };
                let pass: Option<&str> = match passphrase {
                    Some(p) => Some(p.as_str()),
                    None => None,
                };
                let entropy = match BIP39Handler::mnemonic_entropy(phrase.as_str(), *language, pass) {
                    Ok(e) => e,
                    Err(e) => return Err(e.message()),
                };
                let perm = Self::perm_from_indices(&indices, &entropy);
                Ok(ManifoldState::new(perm))
            },
            SeedSource::Raw(data) => {
                let entropy = match Self::validate_entropy(data.as_slice()) {
                    Ok(e) => e,
                    Err(msg) => return Err(msg),
                };
                let indices = Self::derive_raw_indices(&entropy);
                let perm = Self::perm_from_indices(&indices, &entropy);
                Ok(ManifoldState::new(perm))
            },
            SeedSource::Custom(data) => {
                let entropy = Self::hash_to_entropy(data.as_slice());
                let indices = Self::derive_raw_indices(&entropy);
                let perm = Self::perm_from_indices(&indices, &entropy);
                Ok(ManifoldState::new(perm))
            },
        }
    }

    /// Accepts exactly 32 bytes of entropy.
    pub fn validate_entropy(data: &[u8]) -> (r: Result<[u8; 32], String>)
        ensures
            match r {
                Ok(e) => data@.len() == 32 && e@ == data@,
                Err(msg) => data@.len() != 32 && msg@ == entropy_size_message(data@.len()),
            },
    {
        if data.len() != 32 {
            let mut msg = String::from_str("Entropy must be 32 bytes (got ");
            push_decimal(&mut msg, data.len() as u128);
            msg.append(")");
            return Err(msg);
        }
        let mut out = [0u8; 32];
        let mut i: usize = 0;
        while i < 32
            invariant
                i <= 32,
                data@.len() == 32,
                forall|j: int| 0 <= j < i ==> out@[j] == data@[j],
            decreases 32 - i,
        {
            out[i] = data[i];
            i = i + 1;
        }
        assert(out@ =~= data@);
        Ok(out)
    }

    /// Conditions arbitrary bytes into 32 bytes of entropy (their BLAKE3 digest).
    pub fn hash_to_entropy(data: &[u8]) -> (r: [u8; 32])
        ensures
            r@ == blake3_digest(data@),
    {
        blake3_hash(data)
    }

    /// Builds the PERM of twelve in-domain indices and 32 bytes of entropy.
    pub fn perm_from_indices(indices: &[u16; 12], entropy: &[u8; 32]) -> (perm: u128)
        requires
            indices_in_domain(indices@),
        ensures
            perm == perm_genesis_dimension(indices@, entropy@),
    {
        match perm_genesis_construct(indices, entropy.as_slice()) {
            Some(d) => d,
            None => {
                assert(false);
                0
            },
        }
    }

    /// Deterministic domain indices for sources without BIP39 word indices.
    pub fn derive_raw_indices(entropy: &[u8; 32]) -> (indices: [u16; 12])
        ensures
            indices@ == raw_indices_of(entropy@),
            indices_in_domain(indices@),
    {
        let mut msg: Vec<u8> = vec![0x50, 0x45, 0x52, 0x4d, 0x3a, 0x3a, 0x52, 0x41, 0x57, 0x5f, 0x49,
            0x4e, 0x44, 0x49, 0x43, 0x45, 0x53, 0x3a, 0x3a, 0x56, 0x31];
        assert(msg@ =~= raw_indices_tag());
        push_all(&mut msg, entropy.as_slice());
        let bytes = blake3_hash(msg.as_slice());
        let ghost h = blake3_digest(raw_indices_tag() + entropy@);
        let mut indices = [0u16; 12];
        let mut i: usize = 0;
        while i < 12
            invariant
                i <= 12,
                bytes@ == h,
                forall|j: int| 0 <= j < i ==>
                    indices@[j] == ((h[2 * j] as int * 256 + h[2 * j + 1] as int) % 2048) as u16,
                forall|j: int| 0 <= j < i ==> indices@[j] < DOMAIN_SIZE,
            decreases 12 - i,
        {
            let hi: u8 = bytes[i * 2];
            let lo: u8 = bytes[i * 2 + 1];
            let val: u16 = ((hi as u16) << 8) | (lo as u16);
            assert(val == hi as u16 * 256 + lo as u16) by (bit_vector)
                requires val == ((hi as u16) << 8u16) | (lo as u16);
            indices[i] = val % 2048;
            i = i + 1;
        }
        assert(indices@ =~= raw_indices_of(entropy@));
        indices
    }
}


// ─────────────────────────────────────────────
// Builder
// ─────────────────────────────────────────────

pub struct QuantPermBuilder {
    source: Option<SeedSource>,
}

impl QuantPermBuilder {
    /// The seed source the builder holds, if any.
    pub closed spec fn spec_source(&self) -> Option<SeedSource> {
        self.source
    }

    pub fn new() -> (b: QuantPermBuilder)
        ensures
            b.spec_source() is None,
    {
        QuantPermBuilder { source: None }
    }

    /// A builder over a BIP39 mnemonic, read with the detected language
    /// (English when none is detected) and no passphrase.
    pub fn from_mnemonic(phrase: String) -> (b: QuantPermBuilder)
        ensures
            b.spec_source() matches Some(SeedSource::BIP39 { phrase: p, language, passphrase })
                && p@ == phrase@ && language == BIP39Language::English && passphrase is None,
    {
        let language = match BIP39Handler::detect_language_opt(phrase.as_str()) {
            Some(lang) => lang,
            None => BIP39Language::English,
        };
        QuantPermBuilder {
            source: Some(SeedSource::BIP39 { phrase, language, passphrase: None }),
        }
    }

    /// A builder over 32 bytes of raw entropy.
    pub fn from_entropy(entropy: [u8; 32]) -> (b: QuantPermBuilder)
        ensures
            b.spec_source() matches Some(SeedSource::Raw(data)) && data@ == entropy@,
    {
        let mut data: Vec<u8> = Vec::new();
        push_all(&mut data, entropy.as_slice());
        assert(data@ =~= entropy@);
        QuantPermBuilder { source: Some(SeedSource::Raw(data)) }
    }

    /// A builder over arbitrary custom bytes.
    pub fn from_custom(data: Vec<u8>) -> (b: QuantPermBuilder)
        ensures
            b.spec_source() matches Some(SeedSource::Custom(d)) && d@ == data@,
    {
        QuantPermBuilder { source: Some(SeedSource::Custom(data)) }
    }

    /// A fresh manifold over an existing PERM.
    pub fn quantperm_from_perm(perm: u128) -> (r: Result<ManifoldState, String>)
        ensures
            r matches Ok(m) && is_fresh_over(m, perm),
    {
        Ok(ManifoldState::new(perm))
    }

    /// Resolves the held seed source; fails with `Missing seed` without one.
    pub fn build(self) -> (r: Result<ManifoldState, String>)
        ensures
            match self.spec_source() {
                Some(src) => seed_result_matches(r, spec_seed_perm(src)),
                None => r matches Err(e) && e@ == "Missing seed"@,
            },
    {
        match self.source {
            Some(src) => Purpose::quantperm_seed(src),
            None => Err(String::from_str("Missing seed")),
        }
    }
}


/// Deterministic construction: seed sources with the same phrase and
/// passphrase (whatever language they name), or the same bytes, resolve to
/// the same manifold or fail with the same message.
pub proof fn lemma_seed_deterministic(a: SeedSource, b: SeedSource)
    requires
        same_source(a, b),
    ensures
        spec_seed_perm(a) == spec_seed_perm(b),
{
}

} // verus!
