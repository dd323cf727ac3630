//! The settings of a connection pool.
use vstd::prelude::*;

use crate::errors::{not_implemented, ErrorName, Fault};
#[allow(unused_imports)]
use crate::errors::FaultView;
use crate::session::value_or;
#[allow(unused_imports)]
use crate::session::or_default;
use crate::sqltext::normalize_connect_string;
#[allow(unused_imports)]
use crate::sqltext::without_protocol;
use crate::text::owned;

verus! {

/// The mode in which a caller waits a limited time for a connection.
pub const GETMODE_TIMEDWAIT: u32 = 2;

/// The settings that were given for a pool.
#[derive(Clone, Copy, PartialEq, Eq, Structural, Debug)]
pub struct PoolParams {
    pub min: Option<u32>,
    pub max: Option<u32>,
    pub increment: Option<u32>,
    pub homogeneous: Option<bool>,
    pub getmode: Option<u32>,
    pub max_lifetime_session: Option<u32>,
    pub ping_interval: Option<u32>,
    pub stmt_cache_size: Option<u32>,
    pub timeout: Option<u32>,
    pub wait_timeout: Option<u32>,
}

#[derive(Clone, Copy, PartialEq, Eq, Structural, Debug)]
pub struct PoolSettings {
    pub min: u32,
    pub max: u32,
    pub increment: u32,
    pub homogeneous: bool,
    pub getmode: u32,
    pub max_lifetime_session: u32,
    pub ping_interval: u32,
    pub stmt_cache_size: u32,
    pub timeout: u32,
    pub wait_timeout: u32,
}

#[derive(Clone, Copy, PartialEq, Eq, Structural, Debug)]
pub struct PoolCounts {
    pub opened: bool,
    pub open_count: u32,
    pub busy_count: u32,
}

pub struct Pool {
    pub dsn: String,
    pub username: String,
    pub name: String,
    pub settings: PoolSettings,
    pub counts: PoolCounts,
}

/// The settings with the defaults for those that were not given.
pub open spec fn with_defaults(p: PoolParams) -> PoolSettings {
    PoolSettings {
        min: or_default(p.min, 1),
        max: or_default(p.max, 2),
        increment: or_default(p.increment, 1),
        homogeneous: match p.homogeneous {
            Some(b) => b,
            None => true,
        },
        getmode: or_default(p.getmode, 0),
        max_lifetime_session: or_default(p.max_lifetime_session, 0),
        ping_interval: or_default(p.ping_interval, 60),
        stmt_cache_size: or_default(p.stmt_cache_size, 20),
        timeout: or_default(p.timeout, 0),
        wait_timeout: or_default(p.wait_timeout, 0),
    }
}

/// How long a caller waits for a connection.
pub open spec fn effective_wait(s: PoolSettings) -> u32 {
    if s.getmode == GETMODE_TIMEDWAIT {
        s.wait_timeout
    } else {
        0
    }
}

impl PoolSettings {
    pub open spec fn with_sizes(self, min: u32, max: u32, increment: u32) -> PoolSettings {
        PoolSettings { min, max, increment, ..self }
    }

    pub open spec fn with_getmode(self, value: u32) -> PoolSettings {
        PoolSettings {
            getmode: value,
            wait_timeout: if value == GETMODE_TIMEDWAIT {
                self.wait_timeout
            } else {
                0
            },
            ..self
        }
    }

    pub open spec fn with_wait_timeout(self, value: u32) -> PoolSettings {
        PoolSettings { wait_timeout: value, ..self }
    }

    pub open spec fn with_max_lifetime(self, value: u32) -> PoolSettings {
        PoolSettings { max_lifetime_session: value, ..self }
    }

    pub open spec fn with_ping_interval(self, value: u32) -> PoolSettings {
        PoolSettings { ping_interval: value, ..self }
    }

    pub open spec fn with_stmt_cache_size(self, value: u32) -> PoolSettings {
        PoolSettings { stmt_cache_size: value, ..self }
    }

    pub open spec fn with_timeout(self, value: u32) -> PoolSettings {
        PoolSettings { timeout: value, ..self }
    }
}

impl Pool {
    pub open spec fn made_of(self, dsn: String, username: String, p: PoolParams) -> bool {
        &&& self.dsn@ == without_protocol(dsn@)
        &&& self.username == username
        &&& self.name@ == Seq::<char>::empty()
        &&& self.settings == with_defaults(p)
        &&& self.counts == (PoolCounts { opened: true, open_count: 0, busy_count: 0 })
    }

    pub open spec fn closed(self) -> Pool {
        Pool { counts: PoolCounts { opened: false, open_count: 0, busy_count: 0 }, ..self }
    }

    pub open spec fn with_settings(self, settings: PoolSettings) -> Pool {
        Pool { settings, ..self }
    }

    pub fn new(dsn: String, username: String, p: PoolParams) -> (r: Self)
        ensures
            r.made_of(dsn, username, p),
    {
        Pool {
            dsn: normalize_connect_string(dsn),
            username,
            name: String::new(),
            settings: PoolSettings {
                min: value_or(p.min, 1),
                max: value_or(p.max, 2),
                increment: value_or(p.increment, 1),
                homogeneous: match p.homogeneous {
                    Some(b) => b,
                    None => true,
                },
                getmode: value_or(p.getmode, 0),
                max_lifetime_session: value_or(p.max_lifetime_session, 0),
                ping_interval: value_or(p.ping_interval, 60),
                stmt_cache_size: value_or(p.stmt_cache_size, 20),
                timeout: value_or(p.timeout, 0),
                wait_timeout: value_or(p.wait_timeout, 0),
            },
            counts: PoolCounts { opened: true, open_count: 0, busy_count: 0 },
        }
    }

    /// Closes the pool. A closed pool counts no connections.
    pub fn close(&mut self)
        ensures
            *final(self) == old(self).closed(),
    {
        self.counts = PoolCounts { opened: false, open_count: 0, busy_count: 0 };
    }

    pub fn get_wait_timeout(&self) -> (r: u32)
        ensures
            r == effective_wait(self.settings),
    {
        if self.settings.getmode == GETMODE_TIMEDWAIT {
            self.settings.wait_timeout
        } else {
            0
        }
    }

    pub fn reconfigure(&mut self, min: u32, max: u32, increment: u32)
        ensures
            *final(self) == old(self).with_settings(
                old(self).settings.with_sizes(min, max, increment),
            ),
    {
        self.settings.min = min;
        self.settings.max = max;
        self.settings.increment = increment;
    }

    /// Sets how callers wait. The time to wait is forgotten where none is waited.
    pub fn set_getmode(&mut self, value: u32)
        ensures
            *final(self) == old(self).with_settings(old(self).settings.with_getmode(value)),
    {
        self.settings.getmode = value;
        if value != GETMODE_TIMEDWAIT {
            self.settings.wait_timeout = 0;
        }
    }

    pub fn set_wait_timeout(&mut self, value: u32)
        ensures
            *final(self) == old(self).with_settings(old(self).settings.with_wait_timeout(value)),
    {
        self.settings.wait_timeout = value;
    }

    pub fn set_max_lifetime_session(&mut self, value: u32)
        ensures
            *final(self) == old(self).with_settings(old(self).settings.with_max_lifetime(value)),
    {
        self.settings.max_lifetime_session = value;
    }

    pub fn set_ping_interval(&mut self, value: u32)
        ensures
            *final(self) == old(self).with_settings(old(self).settings.with_ping_interval(value)),
    {
        self.settings.ping_interval = value;
    }

    pub fn set_stmt_cache_size(&mut self, value: u32)
        ensures
            *final(self) == old(self).with_settings(old(self).settings.with_stmt_cache_size(value)),
    {
        self.settings.stmt_cache_size = value;
    }

    pub fn set_timeout(&mut self, value: u32)
        ensures
            *final(self) == old(self).with_settings(old(self).settings.with_timeout(value)),
    {
        self.settings.timeout = value;
    }
}

/// The operations of a pool that always fail.
#[derive(Clone, Copy, PartialEq, Eq, Structural, Debug)]
pub enum PoolOperation {
    Acquire { tagged: bool },
    Drop,
    ReturnConnection,
    GetMaxSessionsPerShard,
    SetMaxSessionsPerShard,
    GetSodaMetadataCache,
    SetSodaMetadataCache,
}

/// Pools whose calls block, and pools whose calls are awaited.
#[derive(Clone, Copy, PartialEq, Eq, Structural, Debug)]
pub enum PoolKind {
    Blocking,
    Awaited,
}

pub open spec fn placeholder(name: Seq<char>) -> FaultView {
    FaultView::NotImplemented(
        name + " is a Rust shim placeholder; M1+ must route this through the oracledb crate"@,
    )
}

/// The operation asks first whether the pool is open.
pub open spec fn needs_open(kind: PoolKind, op: PoolOperation) -> bool {
    match op {
        PoolOperation::Acquire { tagged } => true,
        PoolOperation::Drop => kind == PoolKind::Awaited,
        PoolOperation::ReturnConnection => kind == PoolKind::Awaited,
        _ => false,
    }
}

/// The error with which an operation is answered.
pub open spec fn operation_fault(kind: PoolKind, opened: bool, op: PoolOperation) -> FaultView {
    if needs_open(kind, op) && !opened {
        FaultView::Named(ErrorName::PoolNotOpen)
    } else {
        match op {
            PoolOperation::Acquire { tagged: true } => FaultView::NotSupported {
                feature: "session tagging"@,
            },
            PoolOperation::Acquire { tagged: false } => placeholder(
                match kind {
                    PoolKind::Blocking => "ThinPoolImpl.acquire"@,
                    PoolKind::Awaited => "AsyncThinPoolImpl.acquire"@,
                },
            ),
            PoolOperation::Drop => placeholder(
                match kind {
                    PoolKind::Blocking => "ThinPoolImpl.drop"@,
                    PoolKind::Awaited => "AsyncThinPoolImpl.drop"@,
                },
            ),
            PoolOperation::ReturnConnection => placeholder(
                match kind {
                    PoolKind::Blocking => "ThinPoolImpl.return_connection"@,
                    PoolKind::Awaited => "AsyncThinPoolImpl.return_connection"@,
                },
            ),
            PoolOperation::GetMaxSessionsPerShard => FaultView::NotSupported {
                feature: "getting the maximum sessions per shard in a pool"@,
            },
            PoolOperation::SetMaxSessionsPerShard => FaultView::NotSupported {
                feature: "setting the maximum sessions per shard"@,
            },
            PoolOperation::GetSodaMetadataCache => FaultView::NotSupported {
                feature: "getting whether the SODA metadata cache is enabled"@,
            },
            PoolOperation::SetSodaMetadataCache => FaultView::NotSupported {
                feature: "setting whether the SODA metadata cache is enabled"@,
            },
        }
    }
}

fn not_supported(feature: &str) -> (r: Fault)
    ensures
        r@ == (FaultView::NotSupported { feature: feature@ }),
{
    Fault::NotSupported { feature: owned(feature) }
}

/// The error with which an operation is answered: a closed pool goes before anything else where
/// the operation asks for it.
pub fn refuse(kind: PoolKind, opened: bool, op: PoolOperation) -> (r: Fault)
    ensures
        r@ == operation_fault(kind, opened, op),
{
    let asks = match op {
        PoolOperation::Acquire { tagged: _ } => true,
        PoolOperation::Drop => kind == PoolKind::Awaited,
        PoolOperation::ReturnConnection => kind == PoolKind::Awaited,
        _ => false,
    };
    if asks && !opened {
        return Fault::Named(ErrorName::PoolNotOpen);
    }
    match op {
        PoolOperation::Acquire { tagged } => if tagged {
            not_supported("session tagging")
        } else {
            match kind {
                PoolKind::Blocking => not_implemented("ThinPoolImpl.acquire"),
                PoolKind::Awaited => not_implemented("AsyncThinPoolImpl.acquire"),
            }
        },
        PoolOperation::Drop => match kind {
            PoolKind::Blocking => not_implemented("ThinPoolImpl.drop"),
            PoolKind::Awaited => not_implemented("AsyncThinPoolImpl.drop"),
        },
        PoolOperation::ReturnConnection => match kind {
            PoolKind::Blocking => not_implemented("ThinPoolImpl.return_connection"),
            PoolKind::Awaited => not_implemented("AsyncThinPoolImpl.return_connection"),
        },
        PoolOperation::GetMaxSessionsPerShard => not_supported(
            "getting the maximum sessions per shard in a pool",
        ),
        PoolOperation::SetMaxSessionsPerShard => not_supported(
            "setting the maximum sessions per shard",
        ),
        PoolOperation::GetSodaMetadataCache => not_supported(
            "getting whether the SODA metadata cache is enabled",
        ),
        PoolOperation::SetSodaMetadataCache => not_supported(
            "setting whether the SODA metadata cache is enabled",
        ),
    }
}

/// Leaving the mode in which callers wait a limited time forgets the time, also for a later
/// return to it.
pub proof fn law_leaving_timed_wait_forgets(s: PoolSettings, mode: u32)
    requires
        mode != GETMODE_TIMEDWAIT,
    ensures
        ({
            let left = PoolSettings { getmode: mode, wait_timeout: 0, ..s };
            let back = PoolSettings { getmode: GETMODE_TIMEDWAIT, ..left };
            effective_wait(left) == 0 && effective_wait(back) == 0
        }),
{
}

/// What is given for a pool holds; the rest has its default. A new pool is open, and has no
/// connections.
pub proof fn law_given_settings_hold(pool: Pool, dsn: String, username: String, p: PoolParams)
    requires
        pool.made_of(dsn, username, p),
    ensures
        pool.username@ == username@ && pool.dsn@ == without_protocol(dsn@),
        p.min matches Some(n) ==> pool.settings.min == n,
        p.max matches Some(n) ==> pool.settings.max == n,
        p.increment matches Some(n) ==> pool.settings.increment == n,
        p.homogeneous matches Some(b) ==> pool.settings.homogeneous == b,
        p.getmode matches Some(n) ==> pool.settings.getmode == n,
        p.max_lifetime_session matches Some(n) ==> pool.settings.max_lifetime_session == n,
        p.ping_interval matches Some(n) ==> pool.settings.ping_interval == n,
        p.stmt_cache_size matches Some(n) ==> pool.settings.stmt_cache_size == n,
        p.timeout matches Some(n) ==> pool.settings.timeout == n,
        p.wait_timeout matches Some(n) ==> pool.settings.wait_timeout == n,
        p.min is None ==> pool.settings.min == 1,
        p.max is None ==> pool.settings.max == 2,
        p.increment is None ==> pool.settings.increment == 1,
        p.homogeneous is None ==> pool.settings.homogeneous,
        p.ping_interval is None ==> pool.settings.ping_interval == 60,
        p.stmt_cache_size is None ==> pool.settings.stmt_cache_size == 20,
        p.getmode is None ==> pool.settings.getmode == 0,
        pool.counts.opened && pool.counts.open_count == 0 && pool.counts.busy_count == 0,
{
}

/// A closed pool has no connections and keeps its settings; closing it again changes nothing.
pub proof fn law_closed_pool_counts_nothing(pool: Pool)
    ensures
        !pool.closed().counts.opened,
        pool.closed().counts.open_count == 0 && pool.closed().counts.busy_count == 0,
        pool.closed().settings == pool.settings && pool.closed().dsn == pool.dsn,
        pool.closed().closed() == pool.closed(),
{
}

/// Each setting of a pool changes itself alone, to what was given.
pub proof fn law_pool_settings_are_kept(s: PoolSettings, a: u32, b: u32, c: u32)
    ensures
        s.with_sizes(a, b, c).min == a && s.with_sizes(a, b, c).max == b && s.with_sizes(
            a,
            b,
            c,
        ).increment == c,
        s.with_sizes(a, b, c).with_sizes(s.min, s.max, s.increment) == s,
        s.with_max_lifetime(a).max_lifetime_session == a,
        s.with_max_lifetime(a).with_max_lifetime(s.max_lifetime_session) == s,
        s.with_ping_interval(a).ping_interval == a,
        s.with_ping_interval(a).with_ping_interval(s.ping_interval) == s,
        s.with_stmt_cache_size(a).stmt_cache_size == a,
        s.with_stmt_cache_size(a).with_stmt_cache_size(s.stmt_cache_size) == s,
        s.with_timeout(a).timeout == a,
        s.with_timeout(a).with_timeout(s.timeout) == s,
        s.with_wait_timeout(a).wait_timeout == a,
        s.with_wait_timeout(a).with_wait_timeout(s.wait_timeout) == s,
        s.with_getmode(a).getmode == a,
        a == 2 ==> s.with_getmode(a).wait_timeout == s.wait_timeout,
        a != 2 ==> s.with_getmode(a).wait_timeout == 0,
{
}

/// Callers wait for the time that was set exactly in the mode in which they wait a limited time.
pub proof fn law_wait_is_that_of_the_mode(s: PoolSettings, n: u32, mode: u32)
    ensures
        s.getmode == 2 ==> effective_wait(s.with_wait_timeout(n)) == n,
        s.getmode != 2 ==> effective_wait(s.with_wait_timeout(n)) == 0,
        mode != 2 ==> effective_wait(s.with_getmode(mode)) == 0,
{
}

/// A closed pool refuses, as such, exactly the operations that need it open: acquiring, and in an
/// awaited pool dropping and returning. Tags are refused as such in an open one.
pub proof fn law_closed_pool_refuses_connections(kind: PoolKind, opened: bool, op: PoolOperation)
    ensures
        operation_fault(kind, opened, op) == FaultView::Named(ErrorName::PoolNotOpen) <==> !opened
            && (op is Acquire || kind == PoolKind::Awaited && (op is Drop || op
            is ReturnConnection)),
        opened ==> (operation_fault(kind, opened, op) is NotImplemented <==> op
            == (PoolOperation::Acquire { tagged: false }) || op is Drop || op is ReturnConnection),
{
}

} // verus!
