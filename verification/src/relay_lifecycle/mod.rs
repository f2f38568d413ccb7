//! Bootstrap, update with rollback, and status of a relay server.
//!
//! Each operation is a state machine: it asks for one thing after the other (see [`step`]) and
//! decides what comes next. Whoever drives it runs the commands, asks the registry and reads the
//! clocks.
pub mod backups;
pub mod bootstrap;
pub mod check;
pub mod commands;
pub mod compose;
pub mod containers;
pub mod effects;
pub mod health;
pub mod history;
pub mod laws;
pub mod load;
pub mod os_release;
pub mod paths;
pub mod reports;
pub mod state;
pub mod status;
pub mod step;
pub mod update;

use crate::error::RustmoteError;
use crate::relay_lifecycle::bootstrap::{
    bootstrap_begin, bootstrap_wait, Bootstrap, BootstrapOptions, BootstrapReport,
};
use crate::relay_lifecycle::check::{
    check_begin, check_ok, check_wait, CheckUpdatesReport, UpdateCheck,
};
use crate::relay_lifecycle::health::{
    HealthCheck, HealthPhase, DEFAULT_HEALTH_CHECK_INTERVAL, DEFAULT_HEALTH_CHECK_TIMEOUT,
};
use crate::relay_lifecycle::status::{status_begin, status_ok, status_wait, Status, StatusReport};
use crate::relay_lifecycle::step::{awaits, Action, Step};
use crate::relay_lifecycle::update::{
    update_begin, update_wait, Update, UpdateOptions, UpdateReport,
};
use crate::time::TimeSpan;
use vstd::prelude::*;

verus! {

/// Begins the operations on a relay, with how long and how often its health is checked.
#[derive(Debug, Clone, Copy, PartialEq, Eq)]
pub struct RelayLifecycle {
    pub health_check_timeout: TimeSpan,
    pub health_check_interval: TimeSpan,
}

impl RelayLifecycle {
    /// A health check that has not begun.
    pub open spec fn fresh_health(self) -> HealthCheck {
        HealthCheck {
            timeout: self.health_check_timeout,
            interval: self.health_check_interval,
            deadline: 0,
            phase: HealthPhase::Begin,
        }
    }

    /// The defaults: half a minute, and every second.
    pub fn new() -> (r: RelayLifecycle)
        ensures
            r.health_check_timeout.spec_nanos() == DEFAULT_HEALTH_CHECK_TIMEOUT * 1_000_000_000,
            r.health_check_interval.spec_nanos() == DEFAULT_HEALTH_CHECK_INTERVAL * 1_000_000_000,
    {
        RelayLifecycle {
            health_check_timeout: TimeSpan::from_secs(DEFAULT_HEALTH_CHECK_TIMEOUT),
            health_check_interval: TimeSpan::from_secs(DEFAULT_HEALTH_CHECK_INTERVAL),
        }
    }

    /// Checks health for as long as given.
    pub fn with_health_check_timeout(self, t: TimeSpan) -> (r: RelayLifecycle)
        ensures
            r == (RelayLifecycle { health_check_timeout: t, ..self }),
    {
        RelayLifecycle {
            health_check_timeout: t,
            health_check_interval: self.health_check_interval,
        }
    }

    /// Checks health as often as given.
    pub fn with_health_check_interval(self, i: TimeSpan) -> (r: RelayLifecycle)
        ensures
            r == (RelayLifecycle { health_check_interval: i, ..self }),
    {
        RelayLifecycle {
            health_check_timeout: self.health_check_timeout,
            health_check_interval: i,
        }
    }

    /// Begins to install a relay.
    pub fn bootstrap(&self, opts: BootstrapOptions) -> (r: (
        Bootstrap,
        Step<Action, BootstrapReport, RustmoteError>,
    ))
        ensures
            (r.0@, r.1@) == bootstrap_begin(opts@, self.fresh_health()),
            r.0.wf(),
            awaits(r.1@, bootstrap_wait(r.0@)),
    {
        Bootstrap::begin(opts, self.health_check_timeout, self.health_check_interval)
    }

    /// Begins to look for newer images.
    pub fn check_updates(&self, install_path: &str) -> (r: (
        UpdateCheck,
        Step<Action, CheckUpdatesReport, RustmoteError>,
    ))
        ensures
            (r.0@, r.1@) == check_begin(install_path@),
            check_ok(r.0@),
            awaits(r.1@, check_wait(r.0@)),
    {
        UpdateCheck::begin(install_path)
    }

    /// Begins to update a relay.
    pub fn update(&self, opts: UpdateOptions) -> (r: (
        Update,
        Step<Action, UpdateReport, RustmoteError>,
    ))
        ensures
            (r.0@, r.1@) == update_begin(opts@, self.fresh_health()),
            r.0.wf(),
            awaits(r.1@, update_wait(r.0@)),
    {
        Update::begin(opts, self.health_check_timeout, self.health_check_interval)
    }

    /// Begins to ask how a relay is doing.
    pub fn status(&self, install_path: &str) -> (r: (
        Status,
        Step<Action, StatusReport, RustmoteError>,
    ))
        ensures
            (r.0@, r.1@) == status_begin(install_path@),
            status_ok(r.0@),
            awaits(r.1@, status_wait(r.0@)),
    {
        Status::begin(install_path)
    }
}

/// Where nothing else is said, health is checked for thirty seconds, every second. What is said
/// changes that alone.
pub proof fn health_is_checked_for_half_a_minute(
    r: RelayLifecycle,
    t: TimeSpan,
    longer: RelayLifecycle,
    rarer: RelayLifecycle,
)
    requires
        call_ensures(RelayLifecycle::new, (), r),
        call_ensures(RelayLifecycle::with_health_check_timeout, (r, t), longer),
        call_ensures(RelayLifecycle::with_health_check_interval, (r, t), rarer),
    ensures
        r.health_check_timeout.spec_nanos() == 30_000_000_000,
        r.health_check_interval.spec_nanos() == 1_000_000_000,
        longer.health_check_timeout == t,
        longer.health_check_interval == r.health_check_interval,
        rarer.health_check_interval == t,
        rarer.health_check_timeout == r.health_check_timeout,
{
}

/// Installations and updates check health for as long and as often as is set, from the beginning
/// on.
pub proof fn operations_check_health_as_set(
    lifecycle: &RelayLifecycle,
    to_install: BootstrapOptions,
    installation: (Bootstrap, Step<Action, BootstrapReport, RustmoteError>),
    to_update: UpdateOptions,
    update: (Update, Step<Action, UpdateReport, RustmoteError>),
)
    requires
        call_ensures(RelayLifecycle::bootstrap, (lifecycle, to_install), installation),
        call_ensures(RelayLifecycle::update, (lifecycle, to_update), update),
    ensures
        installation.0@.health.timeout == lifecycle.health_check_timeout,
        installation.0@.health.interval == lifecycle.health_check_interval,
        installation.0@.health.phase == HealthPhase::Begin,
        installation.0@.opts == to_install@,
        update.0@.health.timeout == lifecycle.health_check_timeout,
        update.0@.health.interval == lifecycle.health_check_interval,
        update.0@.health.phase == HealthPhase::Begin,
        update.0@.opts == to_update@,
{
}

} // verus!
