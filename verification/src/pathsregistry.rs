//! BIP44-style projection: coin types, purposes and their registry paths.
use vstd::prelude::*;
use crate::manifold::{ManifoldState, Heritage};
use crate::protocolvalue::{Qtm, spec_coordinate, is_commit_of};

verus! {

pub const PURPOSE_44: u128 = 44;
pub const HARDENED_OFFSET: u128 = 0x8000_0000;

#[derive(Clone, Copy, Debug, PartialEq, Eq, Structural, Hash)]
pub enum CoinType {
    Bitcoin,
    Ethereum,
    Tron,
    Solana,
}

/// The SLIP-44 coin number of a coin type.
pub open spec fn coin_number(c: CoinType) -> u128 {
    match c {
        CoinType::Bitcoin => 0,
        CoinType::Ethereum => 60,
        CoinType::Tron => 195,
        CoinType::Solana => 501,
    }
}

/// The coin types in registry order.
pub open spec fn all_coins() -> Seq<CoinType> {
    seq![CoinType::Bitcoin, CoinType::Ethereum, CoinType::Solana, CoinType::Tron]
}

impl CoinType {
    /// The coin number, used as the mass a wallet of this coin retains.
    pub fn retained_mass(self) -> (r: u128)
        ensures
            r == coin_number(self),
    {
        match self {
            CoinType::Bitcoin => 0,
            CoinType::Ethereum => 60,
            CoinType::Tron => 195,
            CoinType::Solana => 501,
        }
    }

    pub fn name(self) -> (r: &'static str)
        ensures
            r@ == (match self {
                CoinType::Bitcoin => "Bitcoin"@,
                CoinType::Ethereum => "Ethereum"@,
                CoinType::Tron => "Tron"@,
                CoinType::Solana => "Solana"@,
            }),
    {
        match self {
            CoinType::Bitcoin => "Bitcoin",
            CoinType::Ethereum => "Ethereum",
            CoinType::Tron => "Tron",
            CoinType::Solana => "Solana",
        }
    }

    /// Every coin type, in registry order.
    pub fn all() -> (r: &'static [CoinType])
        ensures
            r@ == all_coins(),
    {
        let r: &'static [CoinType] = &[CoinType::Bitcoin, CoinType::Ethereum, CoinType::Solana, CoinType::Tron];
        assert(r@ =~= all_coins());
        r
    }
}

#[derive(Clone, Copy, Debug)]
pub enum Purpose {
    BIP44,
    BIP32,
    Custom(u32),
}

impl Purpose {
    pub fn value(self) -> (r: u128)
        ensures
            r == (match self {
                Purpose::BIP44 => 44,
                Purpose::BIP32 => 32,
                Purpose::Custom(v) => v as u128,
            }),
    {
        match self {
            Purpose::BIP44 => 44,
            Purpose::BIP32 => 32,
            Purpose::Custom(v) => v as u128,
        }
    }
}

#[derive(Clone, Copy, Debug)]
pub struct WalletOutput {
    pub coin: CoinType,
    pub coordinate: [u8; 32],
    pub commitment: [u8; 32],
}

#[derive(Clone, Copy, Debug)]
pub struct PathInfo {
    pub path: &'static str,
    pub coordinate: [u8; 32],
}

/// The static derivation path of a coin type.
pub open spec fn coin_path(coin: CoinType) -> Seq<char> {
    match coin {
        CoinType::Bitcoin => "m/44'/0'/0'/0/0"@,
        CoinType::Ethereum => "m/44'/60'/0'/0/0"@,
        CoinType::Solana => "m/44'/501'/0'/0'"@,
        CoinType::Tron => "m/44'/195'/0'/0/0"@,
    }
}

pub struct PathsRegistry;

impl PathsRegistry {
    /// Full derivation: the coin's static path and the manifold's invariant coordinate.
    pub fn derive(coin: CoinType, manifold: &ManifoldState) -> (p: PathInfo)
        ensures
            p.path@ == coin_path(coin),
            p.coordinate@ == spec_coordinate(*manifold),
    {
        PathInfo { path: Self::get_path(coin), coordinate: Self::derive_coordinate(manifold) }
    }

    /// Static registry path.
    pub fn get_path(coin: CoinType) -> (r: &'static str)
        ensures
            r@ == coin_path(coin),
    {
        match coin {
            CoinType::Bitcoin => "m/44'/0'/0'/0/0",
            CoinType::Ethereum => "m/44'/60'/0'/0/0",
            CoinType::Solana => "m/44'/501'/0'/0'",
            CoinType::Tron => "m/44'/195'/0'/0/0",
        }
    }

    /// Identity invariant: the manifold's coordinate.
    pub fn derive_coordinate(manifold: &ManifoldState) -> (r: [u8; 32])
        ensures
            r@ == spec_coordinate(*manifold),
    {
        Qtm::derive_coordinate(manifold)
    }

    /// Economic interpretation of a heritage.
    pub fn resolve_value(heritage: &Heritage) -> (q: Qtm)
        ensures
            is_commit_of(q, heritage.state, heritage.transition.net_work),
    {
        Qtm::economy(heritage)
    }
}

} // verus!
