//! The settings of the contract.

use vstd::prelude::*;

use crate::call::{Call, CallView};
use crate::engineers::{engineer_within_submission_rate, within_rate};
use crate::errors::{Abort, LifecycleError};
use crate::events::{Action, Event, EventView, Notice};
use crate::governance::execution;
use crate::host::{host_bytes, read_bytes};
use crate::lists::copy_list;
use crate::names::{is_zero_address, short_symbol, zero_address, Address, Symbol};
use crate::state::{either, error, outcome, Lifecycle, State};
use crate::table::Table;
use crate::types::{Config, ConfigView};
use crate::weights::{parse_frequency_weights, weights_in};

verus! {

/// The length of histories where none is chosen.
pub const DEFAULT_MAX_HISTORY: u32 = 200;

/// The largest length of histories that can be chosen at the start.
pub const MAX_INITIAL_HISTORY: u32 = 10_000;

/// The points for a service at the start.
pub const DEFAULT_SCORE_INCREMENT: u32 = 5;

/// The points lost in each decay interval at the start.
pub const DEFAULT_DECAY_RATE: u32 = 5;

/// The decay interval at the start, in seconds: 30 days.
pub const DEFAULT_DECAY_INTERVAL: u64 = 2_592_000;

/// The score from which on an asset is eligible as collateral at the start.
pub const DEFAULT_ELIGIBILITY_THRESHOLD: u32 = 50;

/// The largest length of notes at the start, in bytes.
pub const DEFAULT_MAX_NOTES_LENGTH: u32 = 256;

/// The submissions an hour that an engineer is allowed at the start: zero, for no limit.
pub const DEFAULT_MAX_SUBMISSIONS_PER_HOUR: u32 = 0;

/// The text `SC_INC`.
pub const SC_INC: u128 = 0x53435f494e43;

/// The text `DEC_CFG`.
pub const DEC_CFG: u128 = 0x4445435f434647;

/// The text `ELIG`.
pub const ELIG: u128 = 0x454c4947;

/// The text `MAX_HIST`.
pub const MAX_HIST: u128 = 0x4d41585f48495354;

/// The text `MAX_NOTE`.
pub const MAX_NOTE: u128 = 0x4d41585f4e4f5445;

/// The text `AST_REG`.
pub const AST_REG: u128 = 0x4153545f524547;

/// The text `ENG_REG`.
pub const ENG_REG: u128 = 0x454e475f524547;

/// The settings at the start.
pub open spec fn initial_config(admin: Address, max_history: u32) -> ConfigView {
    ConfigView {
        admin,
        admins: Seq::empty(),
        admin_threshold: 0,
        max_history: if max_history == 0 {
            DEFAULT_MAX_HISTORY
        } else {
            max_history
        },
        score_increment: DEFAULT_SCORE_INCREMENT,
        decay_rate: DEFAULT_DECAY_RATE,
        decay_interval: DEFAULT_DECAY_INTERVAL,
        eligibility_threshold: DEFAULT_ELIGIBILITY_THRESHOLD,
        max_notes_length: DEFAULT_MAX_NOTES_LENGTH,
        task_weights: Map::empty(),
        max_submissions_per_hour: DEFAULT_MAX_SUBMISSIONS_PER_HOUR,
    }
}

/// What initializing the contract leads to.
pub open spec fn initialize_result(
    s: State,
    call: CallView,
    deployer: Address,
    asset_registry: Address,
    engineer_registry: Address,
    admin: Address,
    max_history: u32,
) -> Result<State, Abort> {
    if !call.signers.contains(deployer) {
        Err(Abort::MissingAuth(deployer))
    } else if s.config is Some {
        Err(Abort::Error(LifecycleError::AlreadyInitialized))
    } else if max_history > MAX_INITIAL_HISTORY || asset_registry == engineer_registry {
        Err(Abort::Error(LifecycleError::InvalidConfig))
    } else {
        Ok(
            State {
                asset_registry: Some(asset_registry),
                engineer_registry: Some(engineer_registry),
                ..s
            }.with_config(initial_config(admin, max_history)).notify(
                Notice::Initialized { asset_registry, engineer_registry, admin },
            ),
        )
    }
}

/// Why a change of a setting is refused, where the value is looked at before the caller.
pub open spec fn setting_check(s: State, call: CallView, admin: Address, valid: bool) -> Option<
    Abort,
> {
    either(
        s.entry_check(call, admin),
        either(
            if valid {
                None
            } else {
                error(LifecycleError::InvalidConfig)
            },
            s.admin_check(admin),
        ),
    )
}

/// What a change of the settings to `c` leads to.
pub open spec fn changed(
    s: State,
    call: CallView,
    admin: Address,
    refusal: Option<Abort>,
    c: ConfigView,
    notice: Notice,
    action: Action,
) -> Result<State, Abort> {
    match refusal {
        Some(e) => Err(e),
        None => Ok(s.with_config(c).notify(notice).audit(admin, call.now, action)),
    }
}

/// What changing the score increment leads to.
pub open spec fn update_score_increment_result(
    s: State,
    call: CallView,
    admin: Address,
    score_increment: u32,
) -> Result<State, Abort> {
    let c = s.config->0;
    changed(
        s,
        call,
        admin,
        setting_check(s, call, admin, score_increment != 0),
        ConfigView { score_increment, ..c },
        Notice::ScoreIncrementUpdated { old_value: c.score_increment, new_value: score_increment },
        Action::ScoreIncrement { value: score_increment },
    )
}

/// What changing the decay leads to.
pub open spec fn update_decay_config_result(
    s: State,
    call: CallView,
    admin: Address,
    decay_rate: u32,
    decay_interval: u64,
) -> Result<State, Abort> {
    let c = s.config->0;
    changed(
        s,
        call,
        admin,
        setting_check(s, call, admin, decay_rate != 0 && decay_interval != 0),
        ConfigView { decay_rate, decay_interval, ..c },
        Notice::DecayUpdated {
            old_rate: c.decay_rate,
            new_rate: decay_rate,
            old_interval: c.decay_interval,
            new_interval: decay_interval,
        },
        Action::Decay { rate: decay_rate, interval: decay_interval },
    )
}

/// What changing the eligibility threshold leads to.
pub open spec fn update_eligibility_threshold_result(
    s: State,
    call: CallView,
    admin: Address,
    threshold: u32,
) -> Result<State, Abort> {
    let c = s.config->0;
    changed(
        s,
        call,
        admin,
        either(
            s.entry_check(call, admin),
            either(
                s.admin_check(admin),
                if threshold != 0 {
                    None
                } else {
                    error(LifecycleError::InvalidConfig)
                },
            ),
        ),
        ConfigView { eligibility_threshold: threshold, ..c },
        Notice::EligibilityUpdated { old_value: c.eligibility_threshold, new_value: threshold },
        Action::Eligibility { value: threshold },
    )
}

/// What changing the length of histories leads to.
pub open spec fn update_max_history_result(
    s: State,
    call: CallView,
    admin: Address,
    new_max: u32,
) -> Result<State, Abort> {
    let c = s.config->0;
    changed(
        s,
        call,
        admin,
        setting_check(s, call, admin, new_max != 0),
        ConfigView { max_history: new_max, ..c },
        Notice::MaxHistoryUpdated { admin, value: new_max },
        Action::MaxHistory { value: new_max },
    )
}

/// What changing the length of notes leads to.
pub open spec fn update_max_notes_length_result(
    s: State,
    call: CallView,
    admin: Address,
    new_max: u32,
) -> Result<State, Abort> {
    let c = s.config->0;
    changed(
        s,
        call,
        admin,
        setting_check(s, call, admin, new_max != 0),
        ConfigView { max_notes_length: new_max, ..c },
        Notice::MaxNotesUpdated { admin, value: new_max },
        Action::MaxNotes { value: new_max },
    )
}

/// What setting the length of notes leads to.
pub open spec fn set_max_notes_length_result(
    s: State,
    call: CallView,
    admin: Address,
    length: u32,
) -> Result<State, Abort> {
    let c = s.config->0;
    changed(
        s,
        call,
        admin,
        setting_check(s, call, admin, length != 0),
        ConfigView { max_notes_length: length, ..c },
        Notice::MaxNotesSet { admin, value: length },
        Action::MaxNotes { value: length },
    )
}

/// What setting the eligibility threshold leads to.
pub open spec fn set_eligibility_threshold_result(
    s: State,
    call: CallView,
    admin: Address,
    value: u32,
) -> Result<State, Abort> {
    let c = s.config->0;
    changed(
        s,
        call,
        admin,
        setting_check(s, call, admin, value != 0),
        ConfigView { eligibility_threshold: value, ..c },
        Notice::EligibilitySet { admin, old_value: c.eligibility_threshold, new_value: value },
        Action::EligibilityThreshold { value },
    )
}

/// What setting the submission rate leads to.
pub open spec fn set_max_submissions_per_hour_result(
    s: State,
    call: CallView,
    admin: Address,
    value: u32,
) -> Result<State, Abort> {
    let c = s.config->0;
    changed(
        s,
        call,
        admin,
        setting_check(s, call, admin, true),
        ConfigView { max_submissions_per_hour: value, ..c },
        Notice::RateLimitSet { admin, old_value: c.max_submissions_per_hour, new_value: value },
        Action::RateLimit { value },
    )
}

/// What changing the asset registry leads to.
pub open spec fn update_asset_registry_result(
    s: State,
    call: CallView,
    admin: Address,
    new_registry: Address,
) -> Result<State, Abort> {
    match either(s.entry_check(call, admin), s.admin_check(admin)) {
        Some(e) => Err(e),
        None => if new_registry == zero_address() {
            Err(Abort::Error(LifecycleError::ZeroAddress))
        } else if s.engineer_registry is None {
            Err(Abort::Error(LifecycleError::NotInitialized))
        } else if s.engineer_registry == Some(new_registry) {
            Err(Abort::Error(LifecycleError::SameRegistryAddress))
        } else {
            Ok(
                State { asset_registry: Some(new_registry), ..s }.notify(
                    Notice::AssetRegistrySet { admin, registry: new_registry },
                ).audit(admin, call.now, Action::AssetRegistry { registry: new_registry }),
            )
        },
    }
}

/// What changing the engineer registry leads to.
pub open spec fn update_engineer_registry_result(
    s: State,
    call: CallView,
    admin: Address,
    new_registry: Address,
) -> Result<State, Abort> {
    match either(s.entry_check(call, admin), s.admin_check(admin)) {
        Some(e) => Err(e),
        None => if new_registry == zero_address() {
            Err(Abort::Error(LifecycleError::ZeroAddress))
        } else if s.asset_registry is None {
            Err(Abort::Error(LifecycleError::NotInitialized))
        } else if s.asset_registry == Some(new_registry) {
            Err(Abort::Error(LifecycleError::SameRegistryAddress))
        } else {
            Ok(
                State { engineer_registry: Some(new_registry), ..s }.notify(
                    Notice::EngineerRegistrySet { admin, registry: new_registry },
                ).audit(admin, call.now, Action::EngineerRegistry { registry: new_registry }),
            )
        },
    }
}

/// What setting the weight of a task type leads to.
pub open spec fn set_task_weight_result(
    s: State,
    call: CallView,
    admin: Address,
    task_type: Symbol,
    weight: u32,
) -> Result<State, Abort> {
    let c = s.config->0;
    changed(
        s,
        call,
        admin,
        setting_check(s, call, admin, weight != 0),
        ConfigView { task_weights: c.task_weights.insert(task_type, weight), ..c },
        Notice::TaskWeightSet { task_type, weight },
        Action::TaskWeight { task_type, weight },
    )
}

/// What setting the frequency weights of an asset type leads to: they are stored as they are
/// given, where acceptable weights can be read from them.
pub open spec fn update_scoring_weights_result(
    s: State,
    call: CallView,
    admin: Address,
    asset_type: Symbol,
    weights_json: Seq<u8>,
) -> Result<State, Abort> {
    match either(s.entry_check(call, admin), s.admin_check(admin)) {
        Some(e) => Err(e),
        None => if weights_in(weights_json) is None {
            Err(Abort::Error(LifecycleError::InvalidConfig))
        } else {
            Ok(
                State {
                    scoring_weights: s.scoring_weights.insert(asset_type, weights_json),
                    ..s
                }.announce(EventView::ScoringWeightsSet { asset_type, weights_json }).announce(
                    EventView::ScoringWeightsAudit {
                        admin,
                        timestamp: call.now,
                        asset_type,
                        weights_json,
                    },
                ),
            )
        },
    }
}

impl Lifecycle {
    /// Gives the contract its registries, its administrator and its first settings.
    pub fn initialize(
        &mut self,
        call: &Call,
        deployer: Address,
        asset_registry: Address,
        engineer_registry: Address,
        admin: Address,
        max_history: u32,
    ) -> (r: Result<(), Abort>)
        requires
            old(self)@.wf(),
        ensures
            outcome(
                r,
                old(self)@,
                final(self)@,
                initialize_result(
                    old(self)@,
                    call@,
                    deployer,
                    asset_registry,
                    engineer_registry,
                    admin,
                    max_history,
                ),
            ),
            final(self)@.wf(),
    {
        if let Some(e) = call.require_auth(deployer) {
            return Err(e);
        }
        if self.load_config().is_some() {
            return Err(Abort::Error(LifecycleError::AlreadyInitialized));
        }
        if max_history > MAX_INITIAL_HISTORY || asset_registry == engineer_registry {
            return Err(Abort::Error(LifecycleError::InvalidConfig));
        }
        self.set_asset_registry_addr(asset_registry);
        self.set_engineer_registry_addr(engineer_registry);
        self.store_config(
            Config {
                admin,
                admins: Vec::new(),
                admin_threshold: 0,
                max_history: if max_history == 0 {
                    DEFAULT_MAX_HISTORY
                } else {
                    max_history
                },
                score_increment: DEFAULT_SCORE_INCREMENT,
                decay_rate: DEFAULT_DECAY_RATE,
                decay_interval: DEFAULT_DECAY_INTERVAL,
                eligibility_threshold: DEFAULT_ELIGIBILITY_THRESHOLD,
                max_notes_length: DEFAULT_MAX_NOTES_LENGTH,
                task_weights: Table::new(),
                max_submissions_per_hour: DEFAULT_MAX_SUBMISSIONS_PER_HOUR,
            },
        );
        self.notify(Notice::Initialized { asset_registry, engineer_registry, admin });
        Ok(())
    }

    /// The settings, where `admin` may change them to a valid value.
    fn begin_setting(&self, call: &Call, admin: Address, valid: bool) -> (r: Result<Config, Abort>)
        ensures
            match setting_check(self@, call@, admin, valid) {
                Some(e) => r == Err::<Config, Abort>(e),
                None => r matches Ok(c) && self@.config == Some(c@),
            },
    {
        if let Some(e) = self.require_entry(call, admin) {
            return Err(e);
        }
        if !valid {
            return Err(Abort::Error(LifecycleError::InvalidConfig));
        }
        if let Some(e) = self.require_admin(admin) {
            return Err(e);
        }
        match self.load_config() {
            Some(c) => Ok(c),
            None => Err(Abort::Error(LifecycleError::NotInitialized)),
        }
    }

    /// Changes the points for a service.
    pub fn update_score_increment(
        &mut self,
        call: &Call,
        admin: Address,
        score_increment: u32,
    ) -> (r: Result<(), Abort>)
        requires
            old(self)@.wf(),
        ensures
            outcome(
                r,
                old(self)@,
                final(self)@,
                update_score_increment_result(old(self)@, call@, admin, score_increment),
            ),
            final(self)@.wf(),
    {
        let mut config = match self.begin_setting(call, admin, score_increment != 0) {
            Ok(c) => c,
            Err(e) => return Err(e),
        };
        let old_score_increment: u32 = config.score_increment;
        config.score_increment = score_increment;
        self.store_config(config);
        self.notify(
            Notice::ScoreIncrementUpdated {
                old_value: old_score_increment,
                new_value: score_increment,
            },
        );
        self.audit(admin, call.now, Action::ScoreIncrement { value: score_increment });
        Ok(())
    }

    /// Executes the proposal of [`Lifecycle::update_score_increment`].
    pub fn execute_update_score_increment(
        &mut self,
        call: &Call,
        admin: Address,
        score_increment: u32,
    ) -> (r: Result<(), Abort>)
        requires
            old(self)@.wf(),
        ensures
            outcome(
                r,
                old(self)@,
                final(self)@,
                execution(
                    old(self)@,
                    call@.now,
                    short_symbol(SC_INC),
                    |s: State| update_score_increment_result(s, call@, admin, score_increment),
                ),
            ),
            final(self)@.wf(),
    {
        let ghost before = self@;
        let op = Symbol::short(SC_INC);
        let p = match self.require_timelock_ready(call, op) {
            Ok(p) => p,
            Err(e) => return Err(e),
        };
        let r = self.update_score_increment(call, admin, score_increment);
        self.restore_timelock(r, op, p, Ghost(before))
    }

    /// Changes the points lost in each decay interval, and the interval.
    pub fn update_decay_config(
        &mut self,
        call: &Call,
        admin: Address,
        decay_rate: u32,
        decay_interval: u64,
    ) -> (r: Result<(), Abort>)
        requires
            old(self)@.wf(),
        ensures
            outcome(
                r,
                old(self)@,
                final(self)@,
                update_decay_config_result(old(self)@, call@, admin, decay_rate, decay_interval),
            ),
            final(self)@.wf(),
    {
        let mut config = match self.begin_setting(call, admin, decay_rate != 0 && decay_interval != 0) {
            Ok(c) => c,
            Err(e) => return Err(e),
        };
        let old_decay_rate: u32 = config.decay_rate;
        let old_decay_interval: u64 = config.decay_interval;
        config.decay_rate = decay_rate;
        config.decay_interval = decay_interval;
        self.store_config(config);
        self.notify(
            Notice::DecayUpdated {
                old_rate: old_decay_rate,
                new_rate: decay_rate,
                old_interval: old_decay_interval,
                new_interval: decay_interval,
            },
        );
        self.audit(admin, call.now, Action::Decay { rate: decay_rate, interval: decay_interval });
        Ok(())
    }

    /// Executes the proposal of [`Lifecycle::update_decay_config`].
    pub fn execute_update_decay_config(
        &mut self,
        call: &Call,
        admin: Address,
        decay_rate: u32,
        decay_interval: u64,
    ) -> (r: Result<(), Abort>)
        requires
            old(self)@.wf(),
        ensures
            outcome(
                r,
                old(self)@,
                final(self)@,
                execution(
                    old(self)@,
                    call@.now,
                    short_symbol(DEC_CFG),
                    |s: State| update_decay_config_result(s, call@, admin, decay_rate, decay_interval),
                ),
            ),
            final(self)@.wf(),
    {
        let ghost before = self@;
        let op = Symbol::short(DEC_CFG);
        let p = match self.require_timelock_ready(call, op) {
            Ok(p) => p,
            Err(e) => return Err(e),
        };
        let r = self.update_decay_config(call, admin, decay_rate, decay_interval);
        self.restore_timelock(r, op, p, Ghost(before))
    }

    /// Changes the score from which on an asset is eligible as collateral.
    pub fn update_eligibility_threshold(
        &mut self,
        call: &Call,
        admin: Address,
        threshold: u32,
    ) -> (r: Result<(), Abort>)
        requires
            old(self)@.wf(),
        ensures
            outcome(
                r,
                old(self)@,
                final(self)@,
                update_eligibility_threshold_result(old(self)@, call@, admin, threshold),
            ),
            final(self)@.wf(),
    {
        let mut config = match self.begin_setting(call, admin, true) {
            Ok(c) => c,
            Err(e) => return Err(e),
        };
        if threshold == 0 {
            return Err(Abort::Error(LifecycleError::InvalidConfig));
        }
        let old_eligibility_threshold: u32 = config.eligibility_threshold;
        config.eligibility_threshold = threshold;
        self.store_config(config);
        self.notify(
            Notice::EligibilityUpdated {
                old_value: old_eligibility_threshold,
                new_value: threshold,
            },
        );
        self.audit(admin, call.now, Action::Eligibility { value: threshold });
        Ok(())
    }

    /// Executes the proposal of [`Lifecycle::update_eligibility_threshold`].
    pub fn execute_update_eligibility(
        &mut self,
        call: &Call,
        admin: Address,
        threshold: u32,
    ) -> (r: Result<(), Abort>)
        requires
            old(self)@.wf(),
        ensures
            outcome(
                r,
                old(self)@,
                final(self)@,
                execution(
                    old(self)@,
                    call@.now,
                    short_symbol(ELIG),
                    |s: State| update_eligibility_threshold_result(s, call@, admin, threshold),
                ),
            ),
            final(self)@.wf(),
    {
        let ghost before = self@;
        let op = Symbol::short(ELIG);
        let p = match self.require_timelock_ready(call, op) {
            Ok(p) => p,
            Err(e) => return Err(e),
        };
        let r = self.update_eligibility_threshold(call, admin, threshold);
        self.restore_timelock(r, op, p, Ghost(before))
    }

    /// Changes the length of histories.
    pub fn update_max_history(
        &mut self,
        call: &Call,
        admin: Address,
        new_max: u32,
    ) -> (r: Result<(), Abort>)
        requires
            old(self)@.wf(),
        ensures
            outcome(
                r,
                old(self)@,
                final(self)@,
                update_max_history_result(old(self)@, call@, admin, new_max),
            ),
            final(self)@.wf(),
    {
        let mut config = match self.begin_setting(call, admin, new_max != 0) {
            Ok(c) => c,
            Err(e) => return Err(e),
        };
        config.max_history = new_max;
        self.store_config(config);
        self.notify(Notice::MaxHistoryUpdated { admin, value: new_max });
        self.audit(admin, call.now, Action::MaxHistory { value: new_max });
        Ok(())
    }

    /// Executes the proposal of [`Lifecycle::update_max_history`].
    pub fn execute_update_max_history(
        &mut self,
        call: &Call,
        admin: Address,
        new_max: u32,
    ) -> (r: Result<(), Abort>)
        requires
            old(self)@.wf(),
        ensures
            outcome(
                r,
                old(self)@,
                final(self)@,
                execution(
                    old(self)@,
                    call@.now,
                    short_symbol(MAX_HIST),
                    |s: State| update_max_history_result(s, call@, admin, new_max),
                ),
            ),
            final(self)@.wf(),
    {
        let ghost before = self@;
        let op = Symbol::short(MAX_HIST);
        let p = match self.require_timelock_ready(call, op) {
            Ok(p) => p,
            Err(e) => return Err(e),
        };
        let r = self.update_max_history(call, admin, new_max);
        self.restore_timelock(r, op, p, Ghost(before))
    }

    /// Changes the largest length of notes.
    pub fn update_max_notes_length(
        &mut self,
        call: &Call,
        admin: Address,
        new_max: u32,
    ) -> (r: Result<(), Abort>)
        requires
            old(self)@.wf(),
        ensures
            outcome(
                r,
                old(self)@,
                final(self)@,
                update_max_notes_length_result(old(self)@, call@, admin, new_max),
            ),
            final(self)@.wf(),
    {
        let mut config = match self.begin_setting(call, admin, new_max != 0) {
            Ok(c) => c,
            Err(e) => return Err(e),
        };
        config.max_notes_length = new_max;
        self.store_config(config);
        self.notify(Notice::MaxNotesUpdated { admin, value: new_max });
        self.audit(admin, call.now, Action::MaxNotes { value: new_max });
        Ok(())
    }

    /// Executes the proposal of [`Lifecycle::update_max_notes_length`].
    pub fn execute_update_max_notes_length(
        &mut self,
        call: &Call,
        admin: Address,
        new_max: u32,
    ) -> (r: Result<(), Abort>)
        requires
            old(self)@.wf(),
        ensures
            outcome(
                r,
                old(self)@,
                final(self)@,
                execution(
                    old(self)@,
                    call@.now,
                    short_symbol(MAX_NOTE),
                    |s: State| update_max_notes_length_result(s, call@, admin, new_max),
                ),
            ),
            final(self)@.wf(),
    {
        let ghost before = self@;
        let op = Symbol::short(MAX_NOTE);
        let p = match self.require_timelock_ready(call, op) {
            Ok(p) => p,
            Err(e) => return Err(e),
        };
        let r = self.update_max_notes_length(call, admin, new_max);
        self.restore_timelock(r, op, p, Ghost(before))
    }

    /// Sets the largest length of notes.
    pub fn set_max_notes_length(
        &mut self,
        call: &Call,
        admin: Address,
        length: u32,
    ) -> (r: Result<(), Abort>)
        requires
            old(self)@.wf(),
        ensures
            outcome(
                r,
                old(self)@,
                final(self)@,
                set_max_notes_length_result(old(self)@, call@, admin, length),
            ),
            final(self)@.wf(),
    {
        let mut config = match self.begin_setting(call, admin, length != 0) {
            Ok(c) => c,
            Err(e) => return Err(e),
        };
        config.max_notes_length = length;
        self.store_config(config);
        self.notify(Notice::MaxNotesSet { admin, value: length });
        self.audit(admin, call.now, Action::MaxNotes { value: length });
        Ok(())
    }

    /// Sets the score from which on an asset is eligible as collateral.
    pub fn set_eligibility_threshold(
        &mut self,
        call: &Call,
        admin: Address,
        value: u32,
    ) -> (r: Result<(), Abort>)
        requires
            old(self)@.wf(),
        ensures
            outcome(
                r,
                old(self)@,
                final(self)@,
                set_eligibility_threshold_result(old(self)@, call@, admin, value),
            ),
            final(self)@.wf(),
    {
        let mut config = match self.begin_setting(call, admin, value != 0) {
            Ok(c) => c,
            Err(e) => return Err(e),
        };
        let old_eligibility_threshold: u32 = config.eligibility_threshold;
        config.eligibility_threshold = value;
        self.store_config(config);
        self.notify(
            Notice::EligibilitySet {
                admin,
                old_value: old_eligibility_threshold,
                new_value: value,
            },
        );
        self.audit(admin, call.now, Action::EligibilityThreshold { value });
        Ok(())
    }

    /// Sets the submissions an hour that an engineer is allowed, where zero stands for no limit.
    pub fn set_max_submissions_per_hour(
        &mut self,
        call: &Call,
        admin: Address,
        value: u32,
    ) -> (r: Result<(), Abort>)
        requires
            old(self)@.wf(),
        ensures
            outcome(
                r,
                old(self)@,
                final(self)@,
                set_max_submissions_per_hour_result(old(self)@, call@, admin, value),
            ),
            final(self)@.wf(),
    {
        let mut config = match self.begin_setting(call, admin, true) {
            Ok(c) => c,
            Err(e) => return Err(e),
        };
        let old_max_submissions_per_hour: u32 = config.max_submissions_per_hour;
        config.max_submissions_per_hour = value;
        self.store_config(config);
        self.notify(
            Notice::RateLimitSet {
                admin,
                old_value: old_max_submissions_per_hour,
                new_value: value,
            },
        );
        self.audit(admin, call.now, Action::RateLimit { value });
        Ok(())
    }

    /// Changes the address of the asset registry.
    pub fn update_asset_registry(
        &mut self,
        call: &Call,
        admin: Address,
        new_registry: Address,
    ) -> (r: Result<
        (),
        Abort,
    >)
        requires
            old(self)@.wf(),
        ensures
            outcome(
                r,
                old(self)@,
                final(self)@,
                update_asset_registry_result(old(self)@, call@, admin, new_registry),
            ),
            final(self)@.wf(),
    {
        if let Some(e) = self.require_entry(call, admin) {
            return Err(e);
        }
        if let Some(e) = self.require_admin(admin) {
            return Err(e);
        }
        if is_zero_address(new_registry) {
            return Err(Abort::Error(LifecycleError::ZeroAddress));
        }
        match self.get_engineer_registry() {
            Err(e) => return Err(e),
            Ok(other) => {
                if other == new_registry {
                    return Err(Abort::Error(LifecycleError::SameRegistryAddress));
                }
            },
        }
        self.set_asset_registry_addr(new_registry);
        self.notify(Notice::AssetRegistrySet { admin, registry: new_registry });
        self.audit(admin, call.now, Action::AssetRegistry { registry: new_registry });
        Ok(())
    }

    /// Executes the proposal of [`Lifecycle::update_asset_registry`].
    pub fn execute_update_asset_registry(
        &mut self,
        call: &Call,
        admin: Address,
        new_registry: Address,
    ) -> (r:
        Result<(), Abort>)
        requires
            old(self)@.wf(),
        ensures
            outcome(
                r,
                old(self)@,
                final(self)@,
                execution(
                    old(self)@,
                    call@.now,
                    short_symbol(AST_REG),
                    |s: State| update_asset_registry_result(s, call@, admin, new_registry),
                ),
            ),
            final(self)@.wf(),
    {
        let ghost before = self@;
        let op = Symbol::short(AST_REG);
        let p = match self.require_timelock_ready(call, op) {
            Ok(p) => p,
            Err(e) => return Err(e),
        };
        let r = self.update_asset_registry(call, admin, new_registry);
        self.restore_timelock(r, op, p, Ghost(before))
    }

    /// Changes the address of the engineer registry.
    pub fn update_engineer_registry(
        &mut self,
        call: &Call,
        admin: Address,
        new_registry: Address,
    ) -> (r: Result<
        (),
        Abort,
    >)
        requires
            old(self)@.wf(),
        ensures
            outcome(
                r,
                old(self)@,
                final(self)@,
                update_engineer_registry_result(old(self)@, call@, admin, new_registry),
            ),
            final(self)@.wf(),
    {
        if let Some(e) = self.require_entry(call, admin) {
            return Err(e);
        }
        if let Some(e) = self.require_admin(admin) {
            return Err(e);
        }
        if is_zero_address(new_registry) {
            return Err(Abort::Error(LifecycleError::ZeroAddress));
        }
        match self.get_asset_registry() {
            Err(e) => return Err(e),
            Ok(other) => {
                if other == new_registry {
                    return Err(Abort::Error(LifecycleError::SameRegistryAddress));
                }
            },
        }
        self.set_engineer_registry_addr(new_registry);
        self.notify(Notice::EngineerRegistrySet { admin, registry: new_registry });
        self.audit(admin, call.now, Action::EngineerRegistry { registry: new_registry });
        Ok(())
    }

    /// Executes the proposal of [`Lifecycle::update_engineer_registry`].
    pub fn execute_update_engineer_registry(
        &mut self,
        call: &Call,
        admin: Address,
        new_registry: Address,
    ) -> (r:
        Result<(), Abort>)
        requires
            old(self)@.wf(),
        ensures
            outcome(
                r,
                old(self)@,
                final(self)@,
                execution(
                    old(self)@,
                    call@.now,
                    short_symbol(ENG_REG),
                    |s: State| update_engineer_registry_result(s, call@, admin, new_registry),
                ),
            ),
            final(self)@.wf(),
    {
        let ghost before = self@;
        let op = Symbol::short(ENG_REG);
        let p = match self.require_timelock_ready(call, op) {
            Ok(p) => p,
            Err(e) => return Err(e),
        };
        let r = self.update_engineer_registry(call, admin, new_registry);
        self.restore_timelock(r, op, p, Ghost(before))
    }

    /// Sets what a service of the task type earns.
    pub fn set_task_weight(
        &mut self,
        call: &Call,
        admin: Address,
        task_type: Symbol,
        weight: u32,
    ) -> (r: Result<(), Abort>)
        requires
            old(self)@.wf(),
        ensures
            outcome(
                r,
                old(self)@,
                final(self)@,
                set_task_weight_result(old(self)@, call@, admin, task_type, weight),
            ),
            final(self)@.wf(),
    {
        let mut config = match self.begin_setting(call, admin, weight != 0) {
            Ok(c) => c,
            Err(e) => return Err(e),
        };
        config.task_weights.put(task_type, weight);
        self.store_config(config);
        self.notify(Notice::TaskWeightSet { task_type, weight });
        self.audit(admin, call.now, Action::TaskWeight { task_type, weight });
        Ok(())
    }

    /// Sets the frequency weights of the asset type.
    pub fn update_scoring_weights(
        &mut self,
        call: &Call,
        admin: Address,
        asset_type: Symbol,
        weights_json: &soroban_sdk::Bytes,
    ) -> (r: Result<(), Abort>)
        requires
            old(self)@.wf(),
        ensures
            outcome(
                r,
                old(self)@,
                final(self)@,
                update_scoring_weights_result(
                    old(self)@,
                    call@,
                    admin,
                    asset_type,
                    host_bytes(*weights_json),
                ),
            ),
            final(self)@.wf(),
    {
        if let Some(e) = self.require_entry(call, admin) {
            return Err(e);
        }
        if let Some(e) = self.require_admin(admin) {
            return Err(e);
        }
        if parse_frequency_weights(weights_json).is_none() {
            return Err(Abort::Error(LifecycleError::InvalidConfig));
        }
        self.store_scoring_weights(asset_type, read_bytes(weights_json));
        self.announce(
            Event::ScoringWeightsSet { asset_type, weights_json: read_bytes(weights_json) },
        );
        self.announce(
            Event::ScoringWeightsAudit {
                admin,
                timestamp: call.now,
                asset_type,
                weights_json: read_bytes(weights_json),
            },
        );
        Ok(())
    }

    /// The frequency weights of the asset type as they were given; empty where there are none.
    pub fn get_scoring_weights(&self, asset_type: Symbol) -> (r: Vec<u8>)
        ensures
            r@ == if self@.scoring_weights.contains_key(asset_type) {
                self@.scoring_weights[asset_type]
            } else {
                Seq::empty()
            },
    {
        match self.load_scoring_weights(asset_type) {
            Some(w) => copy_list(w),
            None => Vec::new(),
        }
    }

    /// The settings.
    pub fn get_config(&self) -> (r: Result<Config, Abort>)
        ensures
            match self@.config {
                Some(c) => r matches Ok(config) && config@ == c,
                None => r == Err::<Config, Abort>(Abort::Error(LifecycleError::NotInitialized)),
            },
    {
        match self.load_config() {
            Some(c) => Ok(c),
            None => Err(Abort::Error(LifecycleError::NotInitialized)),
        }
    }

    /// Whether one more submission of the engineer stays within the allowed rate.
    pub fn check_engineer_submission_rate(&self, call: &Call, engineer: Address) -> (r: Result<
        bool,
        Abort,
    >)
        ensures
            r == match self@.config {
                Some(c) => Ok(
                    within_rate(
                        self@.engineer(engineer).window,
                        call@.now,
                        c.max_submissions_per_hour,
                    ),
                ),
                None => Err::<bool, Abort>(Abort::Error(LifecycleError::NotInitialized)),
            },
    {
        match self.load_config() {
            Some(c) => {
                let worker = self.load_engineer(engineer);
                Ok(
                    engineer_within_submission_rate(
                        &worker,
                        call.now,
                        c.max_submissions_per_hour,
                    ),
                )
            },
            None => Err(Abort::Error(LifecycleError::NotInitialized)),
        }
    }
}

} // verus!
