//! Why a lifecycle operation is refused.

use vstd::prelude::*;

use crate::names::Address;

verus! {

/// The errors that the lifecycle contract reports.
#[derive(Clone, Copy, Debug, PartialEq, Eq, Structural)]
pub enum LifecycleError {
    /// The contract has not been initialized.
    NotInitialized,
    /// The contract has been initialized before.
    AlreadyInitialized,
    /// A configuration value is not acceptable.
    InvalidConfig,
    /// The caller is not an administrator.
    UnauthorizedAdmin,
    /// Fewer administrators are configured than have to sign.
    InsufficientSigners,
    /// A transfer of the administrator role is already pending.
    PendingAdminAlreadyExists,
    /// The contract is paused.
    Paused,
    /// There is no such proposal, or it has been executed.
    ProposalNotFound,
    /// The delay of the proposal has not elapsed.
    TimelockNotExpired,
    /// The registry address is the zero address.
    ZeroAddress,
    /// Both registries would have the same address.
    SameRegistryAddress,
    /// The asset is not registered.
    AssetNotFound,
    /// The asset is out of service.
    AssetDecommissioned,
    /// The caller does not own the asset.
    UnauthorizedOwner,
    /// The engineer's credential is not in force.
    UnauthorizedEngineer,
    /// The owner has not authorized the engineer for the asset.
    EngineerNotAuthorized,
    /// The engineer is not specialized in the type of the asset.
    SpecializationMismatch,
    /// The task type is not known.
    InvalidTaskType,
    /// The notes are empty or too long.
    NotesTooLong,
    /// The batch holds too many records.
    BatchTooLarge,
    /// The history of the asset cannot take the records.
    HistoryCapReached,
    /// The score would exceed what can be represented.
    ScoreOverflow,
    /// There are too few records for a prediction.
    InsufficientPredictionData,
    /// The interval of a recurring task is zero.
    InvalidRecurringSchedule,
    /// The asset already has a recurring task of that number.
    DuplicateRecurringTask,
    /// The asset has no recurring task of that number.
    RecurringTaskNotFound,
    /// The recurring task is not active.
    RecurringTaskInactive,
    /// No record of the asset has that timestamp.
    DuplicateRecordNotFound,
    /// The asset type already has a standard.
    StandardAlreadyRegistered,
}

/// What ends a call without effect.
#[derive(Clone, Copy, Debug, PartialEq, Eq, Structural)]
pub enum Abort {
    /// The address has not signed the call.
    MissingAuth(Address),
    /// The batch of records is empty.
    NoRecords,
    /// The contract reports an error.
    Error(LifecycleError),
}

} // verus!
