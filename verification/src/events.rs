//! What the contract announces.

use vstd::prelude::*;

use crate::names::{Address, Symbol};
use crate::types::{Priority, WasmHash};

verus! {

/// The administrative action that an audit entry reports.
#[derive(Clone, Copy, Debug, PartialEq, Eq, Structural)]
pub enum Action {
    Paused,
    Unpaused,
    PauseProposed,
    UnpauseProposed,
    AdminProposed { new_admin: Address },
    AdminSet,
    QuorumSet { threshold: u32 },
    ScoreIncrement { value: u32 },
    Decay { rate: u32, interval: u64 },
    Eligibility { value: u32 },
    EligibilityThreshold { value: u32 },
    MaxHistory { value: u32 },
    MaxNotes { value: u32 },
    RateLimit { value: u32 },
    TaskWeight { task_type: Symbol, weight: u32 },
    AssetRegistry { registry: Address },
    EngineerRegistry { registry: Address },
    Upgrade { hash: WasmHash },
    ScoreReset { asset_id: u64 },
    Prune { asset_id: u64 },
    Purge { asset_id: u64 },
}

/// An announcement of fixed size.
#[derive(Clone, Copy, Debug, PartialEq, Eq, Structural)]
pub enum Notice {
    /// `INIT`
    Initialized { asset_registry: Address, engineer_registry: Address, admin: Address },
    /// `PAUSED`
    Paused { admin: Address },
    /// `UNPAUSED`
    Unpaused { admin: Address },
    /// `PROP_PAUSE`
    PauseProposed { admin: Address },
    /// `PROP_UNPAUSE`
    UnpauseProposed { admin: Address },
    /// `PROP_ADM`
    AdminProposed { admin: Address, new_admin: Address },
    /// `ADMIN_SET`
    AdminSet { admin: Address },
    /// `CFG_UPD`, for the score increment
    ScoreIncrementUpdated { old_value: u32, new_value: u32 },
    /// `CFG_UPD`, for the decay
    DecayUpdated { old_rate: u32, new_rate: u32, old_interval: u64, new_interval: u64 },
    /// `CFG_UPD`, for the eligibility threshold
    EligibilityUpdated { old_value: u32, new_value: u32 },
    /// `SET_ELIG`
    EligibilitySet { admin: Address, old_value: u32, new_value: u32 },
    /// `UPD_MAX`
    MaxHistoryUpdated { admin: Address, value: u32 },
    /// `UPD_NOTES`
    MaxNotesUpdated { admin: Address, value: u32 },
    /// `SET_NOTES`
    MaxNotesSet { admin: Address, value: u32 },
    /// `SET_RLIM`
    RateLimitSet { admin: Address, old_value: u32, new_value: u32 },
    /// `TSK_WT`
    TaskWeightSet { task_type: Symbol, weight: u32 },
    /// `REG_AST`
    AssetRegistrySet { admin: Address, registry: Address },
    /// `REG_ENG`
    EngineerRegistrySet { admin: Address, registry: Address },
    /// `PROP_UPG`
    UpgradeProposed { admin: Address, hash: WasmHash, timestamp: u64 },
    /// `UPGRADE`
    Upgraded { admin: Address, hash: WasmHash },
    /// `PROP_RVK`
    RevocationProposed { owner: Address, asset_id: u64, engineer: Address, timestamp: u64 },
    /// `RVK_ENG`
    EngineerRevoked { owner: Address, asset_id: u64, engineer: Address, timestamp: u64 },
    /// `PRUNED`, on submission
    HistoryTrimmed { asset_id: u64, count: u32 },
    /// `PRUNED`, on request
    HistoryPruned { asset_id: u64, count: u32, oldest: u64 },
    /// `PRUNE`
    PruneDone { admin: Address, asset_id: u64 },
    /// `PURGE`
    PurgeDone { admin: Address, asset_id: u64 },
    /// `RATE_LIM`
    RateExceeded { engineer: Address, asset_id: u64, limit: u32, timestamp: u64 },
    /// `maint`
    Maintained { asset_id: u64, engineer: Address, task_type: Symbol, timestamp: u64 },
    /// `MAINT`
    BatchMaintained {
        asset_id: u64,
        task_type: Symbol,
        priority: Priority,
        engineer: Address,
        timestamp: u64,
    },
    /// `XFER`, when the new owner records the transfer
    Transferred {
        asset_id: u64,
        previous_owner: Address,
        new_owner: Address,
        timestamp: u64,
        sentinel_index: u32,
    },
    /// `XFER`, when the registry reports the transfer
    TransferNotified { asset_id: u64, new_owner: Address },
    /// `DECOMM`
    Decommissioned { asset_id: u64, score: u32 },
    /// `DECAY`
    Decayed { asset_id: u64, old_score: u32, new_score: u32, timestamp: u64 },
    /// `RST_SCR`
    ScoreReset { asset_id: u64, admin: Address, timestamp: u64 },
    /// `RECUR_SCH`
    TaskScheduled { asset_id: u64, task_id: u64, task_type: Symbol, interval_value: u64 },
    /// `RECUR_EXEC`
    TaskExecuted { asset_id: u64, task_id: u64, task_type: Symbol, timestamp: u64 },
    /// `MARK_DUP`
    DuplicateMarked { asset_id: u64, primary_id: u64, duplicate_id: u64, timestamp: u64 },
    /// `ADM_AUD`
    Audit { admin: Address, timestamp: u64, action: Action },
}

/// An announcement.
pub enum Event {
    /// One of fixed size.
    Plain(Notice),
    /// `SET_QRUM`
    QuorumSet { admin: Address, admins: Vec<Address>, threshold: u32 },
    /// `SCR_WT`
    ScoringWeightsSet { asset_type: Symbol, weights_json: Vec<u8> },
    /// `ADM_AUD`, for `SCR_WT`
    ScoringWeightsAudit {
        admin: Address,
        timestamp: u64,
        asset_type: Symbol,
        weights_json: Vec<u8>,
    },
    /// `AUTH_CLR`
    AuthorizationsCleared { asset_id: u64, engineers: Vec<Address> },
    /// `REG_STD`
    StandardRegistered { asset_type: Symbol, definition_hash: Vec<u8> },
    /// `MAINT_ALRT`
    Alerts { asset_id: u64, alerts: Vec<(Symbol, u64)> },
}

/// An [`Event`] as a mathematical value.
pub enum EventView {
    Plain(Notice),
    QuorumSet { admin: Address, admins: Seq<Address>, threshold: u32 },
    ScoringWeightsSet { asset_type: Symbol, weights_json: Seq<u8> },
    ScoringWeightsAudit {
        admin: Address,
        timestamp: u64,
        asset_type: Symbol,
        weights_json: Seq<u8>,
    },
    AuthorizationsCleared { asset_id: u64, engineers: Seq<Address> },
    StandardRegistered { asset_type: Symbol, definition_hash: Seq<u8> },
    Alerts { asset_id: u64, alerts: Seq<(Symbol, u64)> },
}

impl View for Event {
    type V = EventView;

    open spec fn view(&self) -> EventView {
        match self {
            Event::Plain(n) => EventView::Plain(*n),
            Event::QuorumSet { admin, admins, threshold } => EventView::QuorumSet {
                admin: *admin,
                admins: admins@,
                threshold: *threshold,
            },
            Event::ScoringWeightsSet { asset_type, weights_json } => EventView::ScoringWeightsSet {
                asset_type: *asset_type,
                weights_json: weights_json@,
            },
            Event::ScoringWeightsAudit { admin, timestamp, asset_type, weights_json } =>
                EventView::ScoringWeightsAudit {
                admin: *admin,
                timestamp: *timestamp,
                asset_type: *asset_type,
                weights_json: weights_json@,
            },
            Event::AuthorizationsCleared { asset_id, engineers } =>
                EventView::AuthorizationsCleared { asset_id: *asset_id, engineers: engineers@ },
            Event::StandardRegistered { asset_type, definition_hash } =>
                EventView::StandardRegistered {
                asset_type: *asset_type,
                definition_hash: definition_hash@,
            },
            Event::Alerts { asset_id, alerts } => EventView::Alerts {
                asset_id: *asset_id,
                alerts: alerts@,
            },
        }
    }
}

} // verus!
