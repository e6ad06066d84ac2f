//! The failover state machine: per-tick liveness observations drive a
//! pending-switch decision with asymmetric fail-over and recover
//! thresholds, and a readiness gate commits the switch.

use vstd::prelude::*;

use crate::config::AppConfig;

verus! {

/// One of the two storage clusters the sidecar steers between.
#[derive(Debug, Copy, Clone, Eq, PartialEq, Structural)]
pub enum Cluster {
    Active,
    Passive,
}

/// Consecutive active failures that arm a fail-over while Active is primary.
pub const FAIL_THRESHOLD: u32 = 3;

/// Consecutive active successes that arm a recovery while Passive is primary.
pub const RECOVER_THRESHOLD: u32 = 5;

/// Liveness counters and the pending switch decision.
///
/// `last_switch` records the value of the manager's monotonic tick
/// counter at the moment of the most recent committed switch.
#[derive(Debug, Clone, Copy)]
pub struct FailoverState {
    pub primary: Cluster,
    pub last_active_ok: bool,
    pub last_passive_ok: bool,
    pub consecutive_active_fail: u32,
    pub consecutive_active_success: u32,
    pub consecutive_passive_success: u32,
    pub pending: Option<Cluster>,
    pub last_switch: Option<u64>,
}

/// Saturating increment of a counter.
pub open spec fn sat_inc(x: u32) -> u32 {
    if x == u32::MAX {
        x
    } else {
        (x + 1) as u32
    }
}

/// Saturating increment of the tick counter.
pub open spec fn sat_inc64(x: u64) -> u64 {
    if x == u64::MAX {
        x
    } else {
        (x + 1) as u64
    }
}

/// The initial failover state: Active primary, all counters zero.
pub open spec fn spec_init_state() -> FailoverState {
    FailoverState {
        primary: Cluster::Active,
        last_active_ok: false,
        last_passive_ok: false,
        consecutive_active_fail: 0,
        consecutive_active_success: 0,
        consecutive_passive_success: 0,
        pending: None,
        last_switch: None,
    }
}

/// The transition applied by one liveness observation: update the
/// last-seen flags, advance the saturating counters, and recompute the
/// pending switch from the current primary.
pub open spec fn spec_update(s: FailoverState, active_ok: bool, passive_ok: bool) -> FailoverState {
    let caf = if active_ok {
        0u32
    } else {
        sat_inc(s.consecutive_active_fail)
    };
    let cas = if active_ok {
        sat_inc(s.consecutive_active_success)
    } else {
        0u32
    };
    let cps = if passive_ok {
        sat_inc(s.consecutive_passive_success)
    } else {
        0u32
    };
    let pending = match s.primary {
        Cluster::Active => if !active_ok && caf >= FAIL_THRESHOLD && passive_ok {
            Some(Cluster::Passive)
        } else {
            None
        },
        Cluster::Passive => if active_ok && cas >= RECOVER_THRESHOLD {
            Some(Cluster::Active)
        } else {
            None
        },
    };
    FailoverState {
        primary: s.primary,
        last_active_ok: active_ok,
        last_passive_ok: passive_ok,
        consecutive_active_fail: caf,
        consecutive_active_success: cas,
        consecutive_passive_success: cps,
        pending,
        last_switch: s.last_switch,
    }
}

/// The transition applied by a committed switch: the destination becomes
/// primary, all counters reset, and the switch instant is recorded.
pub open spec fn spec_commit(s: FailoverState, to: Cluster, now_tick: u64) -> FailoverState {
    FailoverState {
        primary: to,
        last_active_ok: s.last_active_ok,
        last_passive_ok: s.last_passive_ok,
        consecutive_active_fail: 0,
        consecutive_active_success: 0,
        consecutive_passive_success: 0,
        pending: None,
        last_switch: Some(now_tick),
    }
}

/// One full tick: observe liveness, then commit the pending switch if
/// readiness (forced or observed) allows it.
pub open spec fn spec_tick(
    s: FailoverState,
    force_ready: bool,
    dest_ready: bool,
    active_ok: bool,
    passive_ok: bool,
    now_tick: u64,
) -> FailoverState {
    let s1 = spec_update(s, active_ok, passive_ok);
    match s1.pending {
        Some(to) => if force_ready || dest_ready {
            spec_commit(s1, to, now_tick)
        } else {
            s1
        },
        None => s1,
    }
}

impl FailoverState {
    /// A pending switch only ever targets the other cluster, and only
    /// after its threshold of consecutive observations.
    pub proof fn lemma_pending_needs_threshold(s: FailoverState, a: bool, p: bool)
        ensures
            spec_update(s, a, p).pending == Some(Cluster::Passive) ==> s.primary == Cluster::Active
                && !a && p && spec_update(s, a, p).consecutive_active_fail >= FAIL_THRESHOLD,
            spec_update(s, a, p).pending == Some(Cluster::Active) ==> s.primary == Cluster::Passive
                && a && spec_update(s, a, p).consecutive_active_success >= RECOVER_THRESHOLD,
    {
    }

    pub fn update_with(&mut self, active_ok: bool, passive_ok: bool)
        ensures
            *final(self) == spec_update(*old(self), active_ok, passive_ok),
    {
        self.last_active_ok = active_ok;
        self.last_passive_ok = passive_ok;

        if active_ok {
            if self.consecutive_active_success < u32::MAX {
                self.consecutive_active_success = self.consecutive_active_success + 1;
            }
            self.consecutive_active_fail = 0;
        } else {
            if self.consecutive_active_fail < u32::MAX {
                self.consecutive_active_fail = self.consecutive_active_fail + 1;
            }
            self.consecutive_active_success = 0;
        }

        if passive_ok {
            if self.consecutive_passive_success < u32::MAX {
                self.consecutive_passive_success = self.consecutive_passive_success + 1;
            }
        } else {
            self.consecutive_passive_success = 0;
        }

        self.pending = match self.primary {
            Cluster::Active => {
                if !active_ok && self.consecutive_active_fail >= FAIL_THRESHOLD && passive_ok {
                    Some(Cluster::Passive)
                } else {
                    None
                }
            },
            Cluster::Passive => {
                if active_ok && self.consecutive_active_success >= RECOVER_THRESHOLD {
                    Some(Cluster::Active)
                } else {
                    None
                }
            },
        };
    }

    pub fn commit_switch(&mut self, to: Cluster, now_tick: u64)
        ensures
            *final(self) == spec_commit(*old(self), to, now_tick),
    {
        self.primary = to;
        self.last_switch = Some(now_tick);
        self.consecutive_active_fail = 0;
        self.consecutive_active_success = 0;
        self.consecutive_passive_success = 0;
        self.pending = None;
    }

    pub fn pending(&self) -> (r: Option<Cluster>)
        ensures
            r == self.pending,
    {
        self.pending
    }
}

impl Default for FailoverState {
    fn default() -> (s: Self)
        ensures
            s == spec_init_state(),
    {
        FailoverState {
            primary: Cluster::Active,
            last_active_ok: false,
            last_passive_ok: false,
            consecutive_active_fail: 0,
            consecutive_active_success: 0,
            consecutive_passive_success: 0,
            pending: None,
            last_switch: None,
        }
    }
}

/// The default readiness probe's configuration. The probe itself pings
/// the destination cluster, which happens outside the library; here live
/// the keyspaces it may compare.
#[derive(Debug)]
pub struct DefaultSyncCheck {
    pub active_keyspace: Option<String>,
    pub passive_keyspace: Option<String>,
}

impl DefaultSyncCheck {
    pub fn with_keyspaces(active: &str, passive: &str) -> (r: Self)
        ensures
            r.active_keyspace matches Some(a) && a@ == active@,
            r.passive_keyspace matches Some(p) && p@ == passive@,
    {
        DefaultSyncCheck {
            active_keyspace: Some(active.to_owned()),
            passive_keyspace: Some(passive.to_owned()),
        }
    }
}

impl Default for DefaultSyncCheck {
    fn default() -> (r: Self)
        ensures
            r.active_keyspace is None && r.passive_keyspace is None,
    {
        DefaultSyncCheck { active_keyspace: None, passive_keyspace: None }
    }
}

/// Ticks the failover state from liveness observations and commits
/// switches once the readiness gate opens.
///
/// Ticks are counted in `ticks`, the manager's own monotonic clock.
#[derive(Debug)]
pub struct FailoverManager {
    state: FailoverState,
    sync: DefaultSyncCheck,
    force_ready: bool,
    ticks: u64,
}

impl FailoverManager {
    pub closed spec fn spec_state(&self) -> FailoverState {
        self.state
    }

    pub closed spec fn spec_force_ready(&self) -> bool {
        self.force_ready
    }

    pub closed spec fn spec_ticks(&self) -> u64 {
        self.ticks
    }

    pub closed spec fn spec_sync_active_keyspace(&self) -> Option<Seq<char>> {
        match self.sync.active_keyspace {
            Some(ref k) => Some(k@),
            None => None,
        }
    }

    pub closed spec fn spec_sync_passive_keyspace(&self) -> Option<Seq<char>> {
        match self.sync.passive_keyspace {
            Some(ref k) => Some(k@),
            None => None,
        }
    }

    pub fn new() -> (r: Self)
        ensures
            r.spec_state() == spec_init_state(),
            !r.spec_force_ready(),
            r.spec_ticks() == 0,
    {
        FailoverManager {
            state: FailoverState::default(),
            sync: DefaultSyncCheck::default(),
            force_ready: false,
            ticks: 0,
        }
    }

    /// A fresh manager whose readiness probe knows the configured
    /// keyspaces.
    pub fn new_with_config(cfg: &AppConfig) -> (r: Self)
        ensures
            r.spec_state() == spec_init_state(),
            !r.spec_force_ready(),
            r.spec_ticks() == 0,
            r.spec_sync_active_keyspace() == Some(cfg.active.keyspace@),
            r.spec_sync_passive_keyspace() == Some(cfg.passive.keyspace@),
    {
        FailoverManager {
            state: FailoverState::default(),
            sync: DefaultSyncCheck::with_keyspaces(
                cfg.active.keyspace.as_str(),
                cfg.passive.keyspace.as_str(),
            ),
            force_ready: false,
            ticks: 0,
        }
    }

    pub fn with_force_ready(self, v: bool) -> (r: Self)
        ensures
            r.spec_state() == self.spec_state(),
            r.spec_force_ready() == v,
            r.spec_ticks() == self.spec_ticks(),
    {
        FailoverManager { force_ready: v, ..self }
    }

    pub fn current_primary(&self) -> (r: Cluster)
        ensures
            r == self.spec_state().primary,
    {
        self.state.primary
    }

    pub fn last_switch(&self) -> (r: Option<u64>)
        ensures
            r == self.spec_state().last_switch,
    {
        self.state.last_switch
    }

    pub fn last_status(&self) -> (r: (bool, bool))
        ensures
            r.0 == self.spec_state().last_active_ok,
            r.1 == self.spec_state().last_passive_ok,
    {
        (self.state.last_active_ok, self.state.last_passive_ok)
    }

    /// The switch destination this tick's observation would leave
    /// pending, so that the caller can probe its readiness first.
    pub fn pending_after(&self, active_ok: bool, passive_ok: bool) -> (r: Option<Cluster>)
        ensures
            r == spec_update(self.spec_state(), active_ok, passive_ok).pending,
    {
        let mut probe = self.state;
        probe.update_with(active_ok, passive_ok);
        probe.pending()
    }

    /// One tick from synthetic liveness: observe, then commit the
    /// pending switch if forced or observed readiness allows.
    ///
    /// `dest_ready` reports whether the destination of the switch this
    /// observation leaves pending (see [`Self::pending_after`]) answered
    /// a liveness probe; it is ignored when nothing is pending.
    pub fn tick_with_status(&mut self, active_ok: bool, passive_ok: bool, dest_ready: bool)
        ensures
            final(self).spec_state() == spec_tick(
                old(self).spec_state(),
                old(self).spec_force_ready(),
                dest_ready,
                active_ok,
                passive_ok,
                sat_inc64(old(self).spec_ticks()),
            ),
            final(self).spec_ticks() == sat_inc64(old(self).spec_ticks()),
            final(self).spec_force_ready() == old(self).spec_force_ready(),
    {
        if self.ticks < u64::MAX {
            self.ticks = self.ticks + 1;
        }
        self.state.update_with(active_ok, passive_ok);
        if let Some(to) = self.state.pending() {
            if self.force_ready || dest_ready {
                self.state.commit_switch(to, self.ticks);
            }
        }
    }
}

impl Default for FailoverManager {
    fn default() -> (r: Self)
        ensures
            r.spec_state() == spec_init_state(),
            !r.spec_force_ready(),
            r.spec_ticks() == 0,
    {
        FailoverManager::new()
    }
}

/// Without forced readiness and with an unready destination, no tick
/// ever changes the primary: readiness gates every switch.
pub proof fn lemma_no_switch_without_readiness(
    s: FailoverState,
    active_ok: bool,
    passive_ok: bool,
    now_tick: u64,
)
    ensures
        spec_tick(s, false, false, active_ok, passive_ok, now_tick).primary == s.primary,
{
}

} // verus!
