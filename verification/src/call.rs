//! The circumstances of one call: the time, who has signed, and what the registries answer.

use vstd::prelude::*;

use crate::errors::Abort;
use crate::lists::is_listed;
use crate::names::{Address, Symbol};
use crate::table::Table;

verus! {

/// What the asset registry says of an asset.
#[derive(Clone, Copy, Debug, PartialEq, Eq, Structural)]
pub struct AssetInfo {
    pub owner: Address,
    pub asset_type: Symbol,
    /// Whether the asset is out of service.
    pub decommissioned: bool,
    /// Whether the asset is marked as deprecated.
    pub deprecated: bool,
}

/// The state of an engineer's credential.
#[derive(Clone, Copy, Debug, PartialEq, Eq, Structural)]
pub enum CredentialStatus {
    Valid,
    GracePeriod,
    HardExpired,
    Revoked,
    NotFound,
}

/// What the engineer registry says of an engineer.
pub struct EngineerInfo {
    pub status: CredentialStatus,
    /// From 0 to 1000.
    pub reputation: u32,
    /// The types of asset that the engineer is specialized in.
    pub specializations: Vec<Symbol>,
}

/// An [`EngineerInfo`] as a mathematical value.
pub struct EngineerInfoView {
    pub status: CredentialStatus,
    pub reputation: u32,
    pub specializations: Seq<Symbol>,
}

impl View for EngineerInfo {
    type V = EngineerInfoView;

    open spec fn view(&self) -> EngineerInfoView {
        EngineerInfoView {
            status: self.status,
            reputation: self.reputation,
            specializations: self.specializations@,
        }
    }
}

/// The circumstances of a call.
pub struct Call {
    /// The ledger's time, in seconds.
    pub now: u64,
    /// The addresses that have signed the call.
    pub signers: Vec<Address>,
    /// The assets that the asset registry knows.
    pub assets: Table<u64, AssetInfo>,
    /// The engineers that the engineer registry knows.
    pub engineers: Table<Address, EngineerInfo>,
}

/// A [`Call`] as a mathematical value.
pub struct CallView {
    pub now: u64,
    pub signers: Set<Address>,
    pub assets: Map<u64, AssetInfo>,
    pub engineers: Map<Address, EngineerInfoView>,
}

impl View for Call {
    type V = CallView;

    open spec fn view(&self) -> CallView {
        CallView {
            now: self.now,
            signers: self.signers@.to_set(),
            assets: self.assets@,
            engineers: self.engineers@.map_values(|e: EngineerInfo| e@),
        }
    }
}

impl CallView {
    /// What the engineer registry answers for `engineer`.
    pub open spec fn engineer(self, engineer: Address) -> EngineerInfoView {
        if self.engineers.contains_key(engineer) {
            self.engineers[engineer]
        } else {
            EngineerInfoView {
                status: CredentialStatus::NotFound,
                reputation: 0,
                specializations: Seq::empty(),
            }
        }
    }

    /// Why the call ends where `who` has to have signed it.
    pub open spec fn auth_check(self, who: Address) -> Option<Abort> {
        if self.signers.contains(who) {
            None
        } else {
            Some(Abort::MissingAuth(who))
        }
    }
}

impl Call {
    /// Whether `who` has signed the call.
    pub fn is_signed_by(&self, who: Address) -> (b: bool)
        ensures
            b == self@.signers.contains(who),
    {
        is_listed(&self.signers, who)
    }

    /// Ends the call unless `who` has signed it.
    pub fn require_auth(&self, who: Address) -> (r: Option<Abort>)
        ensures
            r == self@.auth_check(who),
    {
        if self.is_signed_by(who) {
            None
        } else {
            Some(Abort::MissingAuth(who))
        }
    }

    /// What the asset registry answers for the asset.
    pub fn asset(&self, asset_id: u64) -> (r: Option<AssetInfo>)
        ensures
            r == if self@.assets.contains_key(asset_id) {
                Some(self@.assets[asset_id])
            } else {
                None::<AssetInfo>
            },
    {
        match self.assets.get(asset_id) {
            Some(info) => Some(*info),
            None => None,
        }
    }

    /// The state of the engineer's credential.
    pub fn credential_status(&self, engineer: Address) -> (r: CredentialStatus)
        ensures
            r == self@.engineer(engineer).status,
    {
        match self.engineers.get(engineer) {
            Some(info) => info.status,
            None => CredentialStatus::NotFound,
        }
    }

    /// The reputation of the engineer.
    pub fn reputation(&self, engineer: Address) -> (r: u32)
        ensures
            r == self@.engineer(engineer).reputation,
    {
        match self.engineers.get(engineer) {
            Some(info) => info.reputation,
            None => 0,
        }
    }

    /// Whether the engineer is specialized in the type of asset.
    pub fn is_specialized(&self, engineer: Address, asset_type: Symbol) -> (b: bool)
        ensures
            b == self@.engineer(engineer).specializations.contains(asset_type),
    {
        match self.engineers.get(engineer) {
            Some(info) => is_listed(&info.specializations, asset_type),
            None => false,
        }
    }
}

} // verus!
