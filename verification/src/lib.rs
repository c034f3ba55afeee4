//! Verified core of an asset-maintenance lifecycle contract.

pub mod answer_laws;
pub mod arith;
pub mod call;
pub mod call_laws;
pub mod collateral;
pub mod effect_laws;
pub mod engineers;
pub mod errors;
pub mod events;
pub mod formula_laws;
pub mod frame_laws;
pub mod governance;
pub mod governance_laws;
pub mod history;
pub mod host;
pub mod lists;
pub mod maintenance;
pub mod names;
pub mod ownership;
pub mod queries;
pub mod record_laws;
pub mod recurring;
pub mod score_laws;
pub mod scores;
pub mod scoring;
pub mod settings;
pub mod state;
pub mod storage;
pub mod table;
pub mod types;
pub mod upkeep;
pub mod validation;
pub mod weights;
