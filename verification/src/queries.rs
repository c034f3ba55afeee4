//! What can be asked about the maintenance of assets and the work of engineers.

use vstd::prelude::*;

use crate::arith::{capped64, mul_capped};
use crate::call::Call;
use crate::errors::{Abort, LifecycleError};
use crate::events::{Event, EventView};
use crate::history::{
    average_cost, average_cost_of, cost_history, cost_sum, costed, dated_cost, is_latest,
    latest_record, overdue, overdue_services, prediction, records_page, task_types, total_cost,
    try_predict_next_service,
};
use crate::lists::{copy_list, copy_page, copy_range, page};
use crate::names::{Address, Symbol};
use crate::state::Lifecycle;
use crate::types::{records, MaintenanceRecord};

verus! {

/// The most assets that are listed for an engineer at once.
pub const MAX_LISTED_ASSETS: usize = 100;

impl Lifecycle {
    /// The whole maintenance history of the asset, oldest first.
    pub fn get_maintenance_history(&self, call: &Call, asset_id: u64) -> (r: Result<
        Vec<MaintenanceRecord>,
        Abort,
    >)
        ensures
            match self@.asset_check(call@, asset_id) {
                Some(e) => r == Err::<Vec<MaintenanceRecord>, Abort>(e),
                None => r matches Ok(list) && records(list@) == self@.asset(asset_id).history,
            },
    {
        match self.verify_asset_exists(call, asset_id) {
            Err(e) => Err(e),
            Ok(_) => Ok(self.load_asset(asset_id).history),
        }
    }

    /// The whole maintenance history of the asset, where the asset is registered.
    pub fn get_maintenance_history_opt(&self, call: &Call, asset_id: u64) -> (r: Result<
        Option<Vec<MaintenanceRecord>>,
        Abort,
    >)
        ensures
            if self@.asset_registry is None {
                r == Err::<Option<Vec<MaintenanceRecord>>, Abort>(
                    Abort::Error(LifecycleError::NotInitialized),
                )
            } else if !call@.assets.contains_key(asset_id) {
                r == Ok::<Option<Vec<MaintenanceRecord>>, Abort>(None)
            } else {
                r matches Ok(Some(list)) && records(list@) == self@.asset(asset_id).history
            },
    {
        if let Err(e) = self.get_asset_registry() {
            return Err(e);
        }
        match call.asset(asset_id) {
            None => Ok(None),
            Some(_) => Ok(Some(self.load_asset(asset_id).history)),
        }
    }

    /// Up to `limit` records of the asset from place `offset` on, oldest first.
    pub fn get_maintenance_history_page(
        &self,
        call: &Call,
        asset_id: u64,
        offset: u32,
        limit: u32,
    ) -> (r: Result<Vec<MaintenanceRecord>, Abort>)
        ensures
            match self@.asset_check(call@, asset_id) {
                Some(e) => r == Err::<Vec<MaintenanceRecord>, Abort>(e),
                None => r matches Ok(list) && records(list@) == page(
                    self@.asset(asset_id).history,
                    offset as nat,
                    limit as nat,
                ),
            },
    {
        match self.verify_asset_exists(call, asset_id) {
            Err(e) => Err(e),
            Ok(_) => Ok(records_page(&self.load_asset(asset_id).history, offset, limit)),
        }
    }

    /// The record of the asset with the latest time, and the first of those that share it.
    pub fn get_last_service(&self, asset_id: u64) -> (r: Option<MaintenanceRecord>)
        ensures
            match r {
                None => self@.asset(asset_id).history.len() == 0,
                Some(record) => exists|i: int| #[trigger]
                    is_latest(self@.asset(asset_id).history, i) && record@ == self@.asset(
                        asset_id,
                    ).history[i],
            },
    {
        let asset = self.load_asset(asset_id);
        assert(records(asset.history@).len() == asset.history@.len());
        match latest_record(&asset.history) {
            None => None,
            Some(i) => {
                assert(is_latest(asset@.history, i as int));
                assert(asset@.history[i as int] == asset.history@[i as int]@);
                Some(asset.history[i].duplicate())
            },
        }
    }

    /// The same as [`Lifecycle::get_last_service`].
    pub fn get_last_maintenance(&self, asset_id: u64) -> (r: Option<MaintenanceRecord>)
        ensures
            match r {
                None => self@.asset(asset_id).history.len() == 0,
                Some(record) => exists|i: int| #[trigger]
                    is_latest(self@.asset(asset_id).history, i) && record@ == self@.asset(
                        asset_id,
                    ).history[i],
            },
    {
        self.get_last_service(asset_id)
    }

    /// The time of the latest maintenance event of the asset, where one was submitted.
    pub fn get_last_service_timestamp(&self, call: &Call, asset_id: u64) -> (r: Result<
        Option<u64>,
        Abort,
    >)
        ensures
            r == match self@.asset_check(call@, asset_id) {
                Some(e) => Err::<Option<u64>, Abort>(e),
                None => Ok(self@.asset(asset_id).last_service),
            },
    {
        match self.verify_asset_exists(call, asset_id) {
            Err(e) => Err(e),
            Ok(_) => Ok(self.load_asset(asset_id).last_service),
        }
    }

    /// What the maintenance of the asset has cost, or the largest number of 64 bits.
    pub fn get_total_maintenance_cost(&self, asset_id: u64) -> (total: u64)
        ensures
            total == capped64(cost_sum(self@.asset(asset_id).history)),
    {
        total_cost(&self.load_asset(asset_id).history)
    }

    /// The costs that the records of the asset name, each with its time before it.
    pub fn get_maintenance_cost_history(&self, asset_id: u64) -> (r: Vec<(u64, u64)>)
        ensures
            r@ == self@.asset(asset_id).history.filter(costed()).map_values(dated_cost()),
    {
        cost_history(&self.load_asset(asset_id).history)
    }

    /// The average of the costs that the records of the task type name; zero if none does.
    pub fn get_average_maintenance_interval_cost(
        &self,
        asset_id: u64,
        task_type: Symbol,
    ) -> (r: u64)
        ensures
            r == average_cost(self@.asset(asset_id).history, task_type),
    {
        average_cost_of(&self.load_asset(asset_id).history, task_type)
    }

    /// When the next service of the type is due.
    pub fn calculate_predicted_next_service(&self, asset_id: u64, task_type: Symbol) -> (r: Result<
        u64,
        Abort,
    >)
        ensures
            r == match self@.init_check() {
                Some(e) => Err::<u64, Abort>(e),
                None => match prediction(self@.asset(asset_id).history, task_type) {
                    Ok(due) => Ok::<u64, Abort>(due),
                    Err(e) => Err(Abort::Error(e)),
                },
            },
    {
        if self.load_config().is_none() {
            return Err(Abort::Error(LifecycleError::NotInitialized));
        }
        match try_predict_next_service(&self.load_asset(asset_id).history, task_type) {
            Ok(due) => Ok(due),
            Err(e) => Err(Abort::Error(e)),
        }
    }

    /// The types of service that are overdue, each with the time at which it was due; they are
    /// announced where there are any.
    pub fn get_maintenance_alerts(&mut self, call: &Call, asset_id: u64) -> (r: Vec<(Symbol, u64)>)
        requires
            old(self)@.wf(),
        ensures
            r@ == overdue(
                old(self)@.asset(asset_id).history,
                task_types(old(self)@.asset(asset_id).history),
                call@.now,
            ),
            final(self)@ == if r@.len() == 0 {
                old(self)@
            } else {
                old(self)@.announce(EventView::Alerts { asset_id, alerts: r@ })
            },
            final(self)@.wf(),
    {
        let alerts: Vec<(Symbol, u64)> = overdue_services(
            &self.load_asset(asset_id).history,
            call.now,
        );
        if alerts.len() > 0 {
            self.announce(Event::Alerts { asset_id, alerts: copy_list(&alerts) });
        }
        alerts
    }

    /// The first [`MAX_LISTED_ASSETS`] assets that the engineer has worked on.
    pub fn get_engineer_maintenance_history(&self, engineer: Address) -> (r: Vec<u64>)
        ensures
            r@ == page(self@.engineer(engineer).assets, 0, MAX_LISTED_ASSETS as nat),
    {
        let worker = self.load_engineer(engineer);
        let n: usize = worker.assets.len();
        let r = if n <= MAX_LISTED_ASSETS {
            copy_list(&worker.assets)
        } else {
            copy_range(&worker.assets, 0, MAX_LISTED_ASSETS)
        };
        assert(r@ =~= page(worker.assets@, 0, MAX_LISTED_ASSETS as nat));
        r
    }

    /// Up to `limit` assets that the engineer has worked on, from place `offset` on.
    pub fn get_engineer_history(&self, engineer: Address, offset: u32, limit: u32) -> (r: Vec<u64>)
        ensures
            r@ == page(self@.engineer(engineer).assets, offset as nat, limit as nat),
    {
        copy_page(&self.load_engineer(engineer).assets, offset, limit)
    }

    /// The same as [`Lifecycle::get_engineer_history`].
    pub fn get_eng_history_page(&self, engineer: Address, offset: u32, limit: u32) -> (r: Vec<u64>)
        ensures
            r@ == page(self@.engineer(engineer).assets, offset as nat, limit as nat),
    {
        self.get_engineer_history(engineer, offset, limit)
    }

    /// The assets on page `page_index` of those that the engineer has worked on, in pages of
    /// `page_size`, and how many there are in all.
    pub fn get_engineer_maintenance_history_page(
        &self,
        engineer: Address,
        page_index: u32,
        page_size: u32,
    ) -> (r: (Vec<u64>, u32))
        requires
            self@.wf(),
        ensures
            r.0@ == page(
                self@.engineer(engineer).assets,
                (page_index * page_size) as nat,
                page_size as nat,
            ),
            r.1 == self@.engineer(engineer).assets.len(),
    {
        let worker = self.load_engineer(engineer);
        let total: u32 = worker.assets.len() as u32;
        assert(page_index * page_size >= 0) by (nonlinear_arith)
            requires
                page_index >= 0,
                page_size >= 0,
        ;
        let start: u32 = mul_capped(page_index, page_size);
        let list = copy_page(&worker.assets, start, page_size);
        assert(list@ =~= page(worker.assets@, (page_index * page_size) as nat, page_size as nat));
        (list, total)
    }

    /// How many assets the engineer has worked on.
    pub fn get_eng_maint_hist_count(&self, engineer: Address) -> (n: u32)
        requires
            self@.wf(),
        ensures
            n == self@.engineer(engineer).assets.len(),
    {
        self.load_engineer(engineer).assets.len() as u32
    }

    /// The same as [`Lifecycle::get_eng_maint_hist_count`].
    pub fn get_engineer_history_count(&self, engineer: Address) -> (n: u32)
        requires
            self@.wf(),
        ensures
            n == self@.engineer(engineer).assets.len(),
    {
        self.get_eng_maint_hist_count(engineer)
    }

    /// The same as [`Lifecycle::get_eng_maint_hist_count`].
    pub fn get_eng_maint_count(&self, engineer: Address) -> (n: u32)
        requires
            self@.wf(),
        ensures
            n == self@.engineer(engineer).assets.len(),
    {
        self.get_eng_maint_hist_count(engineer)
    }

    /// The same as [`Lifecycle::get_eng_maint_hist_count`].
    pub fn eng_maintenance_history_count(&self, engineer: Address) -> (n: u32)
        requires
            self@.wf(),
        ensures
            n == self@.engineer(engineer).assets.len(),
    {
        self.get_eng_maint_hist_count(engineer)
    }
}

} // verus!
