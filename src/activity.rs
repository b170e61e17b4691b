use vstd::prelude::*;
use vstd::string::*;

use crate::named_map::NamedMap;

verus! {

/// What an activity event records.
#[derive(Debug, Clone, Copy, PartialEq, Eq, Structural)]
pub enum ActivityEventType {
    UserLogin,
    UserLogout,
    TokenRefresh,
    RelayConnected,
    RelayDisconnected,
    RelayAuthenticated,
    RelayTunnelCreated,
    RelayTunnelClosed,
    RdpServiceConnected,
    RdpServiceDisconnected,
    SshServiceConnected,
    SshServiceDisconnected,
    ServiceConnectionError,
    CredentialsRequested,
    CredentialsSaved,
    CredentialsUpdated,
    CredentialsDeleted,
    KeePassContainerImported,
    KeePassContainerExported,
    KeePassContainerTested,
    SettingsUpdated,
    UserProfileUpdated,
    ServerSyncCompleted,
    ServerSyncFailed,
    ActivityLogCleaned,
    ActivityLogExported,
}

/// How important an activity event is.
#[derive(Debug, Clone, Copy, PartialEq, Eq, Structural)]
pub enum ActivitySeverity {
    Info,
    Warning,
    Error,
    Critical,
}

/// The name of an event type.
pub open spec fn event_type_name(t: ActivityEventType) -> Seq<char> {
    match t {
        ActivityEventType::UserLogin => "UserLogin"@,
        ActivityEventType::UserLogout => "UserLogout"@,
        ActivityEventType::TokenRefresh => "TokenRefresh"@,
        ActivityEventType::RelayConnected => "RelayConnected"@,
        ActivityEventType::RelayDisconnected => "RelayDisconnected"@,
        ActivityEventType::RelayAuthenticated => "RelayAuthenticated"@,
        ActivityEventType::RelayTunnelCreated => "RelayTunnelCreated"@,
        ActivityEventType::RelayTunnelClosed => "RelayTunnelClosed"@,
        ActivityEventType::RdpServiceConnected => "RdpServiceConnected"@,
        ActivityEventType::RdpServiceDisconnected => "RdpServiceDisconnected"@,
        ActivityEventType::SshServiceConnected => "SshServiceConnected"@,
        ActivityEventType::SshServiceDisconnected => "SshServiceDisconnected"@,
        ActivityEventType::ServiceConnectionError => "ServiceConnectionError"@,
        ActivityEventType::CredentialsRequested => "CredentialsRequested"@,
        ActivityEventType::CredentialsSaved => "CredentialsSaved"@,
        ActivityEventType::CredentialsUpdated => "CredentialsUpdated"@,
        ActivityEventType::CredentialsDeleted => "CredentialsDeleted"@,
        ActivityEventType::KeePassContainerImported => "KeePassContainerImported"@,
        ActivityEventType::KeePassContainerExported => "KeePassContainerExported"@,
        ActivityEventType::KeePassContainerTested => "KeePassContainerTested"@,
        ActivityEventType::SettingsUpdated => "SettingsUpdated"@,
        ActivityEventType::UserProfileUpdated => "UserProfileUpdated"@,
        ActivityEventType::ServerSyncCompleted => "ServerSyncCompleted"@,
        ActivityEventType::ServerSyncFailed => "ServerSyncFailed"@,
        ActivityEventType::ActivityLogCleaned => "ActivityLogCleaned"@,
        ActivityEventType::ActivityLogExported => "ActivityLogExported"@,
    }
}

/// The name of a severity.
pub open spec fn severity_name(t: ActivitySeverity) -> Seq<char> {
    match t {
        ActivitySeverity::Info => "Info"@,
        ActivitySeverity::Warning => "Warning"@,
        ActivitySeverity::Error => "Error"@,
        ActivitySeverity::Critical => "Critical"@,
    }
}

impl ActivityEventType {
    /// The variant's name.
    pub fn name(&self) -> (r: &'static str)
        ensures
            r@ == event_type_name(*self),
    {
        match self {
            ActivityEventType::UserLogin => {
                proof { reveal_strlit("UserLogin"); }
                "UserLogin"
            },
            ActivityEventType::UserLogout => {
                proof { reveal_strlit("UserLogout"); }
                "UserLogout"
            },
            ActivityEventType::TokenRefresh => {
                proof { reveal_strlit("TokenRefresh"); }
                "TokenRefresh"
            },
            ActivityEventType::RelayConnected => {
                proof { reveal_strlit("RelayConnected"); }
                "RelayConnected"
            },
            ActivityEventType::RelayDisconnected => {
                proof { reveal_strlit("RelayDisconnected"); }
                "RelayDisconnected"
            },
            ActivityEventType::RelayAuthenticated => {
                proof { reveal_strlit("RelayAuthenticated"); }
                "RelayAuthenticated"
            },
            ActivityEventType::RelayTunnelCreated => {
                proof { reveal_strlit("RelayTunnelCreated"); }
                "RelayTunnelCreated"
            },
            ActivityEventType::RelayTunnelClosed => {
                proof { reveal_strlit("RelayTunnelClosed"); }
                "RelayTunnelClosed"
            },
            ActivityEventType::RdpServiceConnected => {
                proof { reveal_strlit("RdpServiceConnected"); }
                "RdpServiceConnected"
            },
            ActivityEventType::RdpServiceDisconnected => {
                proof { reveal_strlit("RdpServiceDisconnected"); }
                "RdpServiceDisconnected"
            },
            ActivityEventType::SshServiceConnected => {
                proof { reveal_strlit("SshServiceConnected"); }
                "SshServiceConnected"
            },
            ActivityEventType::SshServiceDisconnected => {
                proof { reveal_strlit("SshServiceDisconnected"); }
                "SshServiceDisconnected"
            },
            ActivityEventType::ServiceConnectionError => {
                proof { reveal_strlit("ServiceConnectionError"); }
                "ServiceConnectionError"
            },
            ActivityEventType::CredentialsRequested => {
                proof { reveal_strlit("CredentialsRequested"); }
                "CredentialsRequested"
            },
            ActivityEventType::CredentialsSaved => {
                proof { reveal_strlit("CredentialsSaved"); }
                "CredentialsSaved"
            },
            ActivityEventType::CredentialsUpdated => {
                proof { reveal_strlit("CredentialsUpdated"); }
                "CredentialsUpdated"
            },
            ActivityEventType::CredentialsDeleted => {
                proof { reveal_strlit("CredentialsDeleted"); }
                "CredentialsDeleted"
            },
            ActivityEventType::KeePassContainerImported => {
                proof { reveal_strlit("KeePassContainerImported"); }
                "KeePassContainerImported"
            },
            ActivityEventType::KeePassContainerExported => {
                proof { reveal_strlit("KeePassContainerExported"); }
                "KeePassContainerExported"
            },
            ActivityEventType::KeePassContainerTested => {
                proof { reveal_strlit("KeePassContainerTested"); }
                "KeePassContainerTested"
            },
            ActivityEventType::SettingsUpdated => {
                proof { reveal_strlit("SettingsUpdated"); }
                "SettingsUpdated"
            },
            ActivityEventType::UserProfileUpdated => {
                proof { reveal_strlit("UserProfileUpdated"); }
                "UserProfileUpdated"
            },
            ActivityEventType::ServerSyncCompleted => {
                proof { reveal_strlit("ServerSyncCompleted"); }
                "ServerSyncCompleted"
            },
            ActivityEventType::ServerSyncFailed => {
                proof { reveal_strlit("ServerSyncFailed"); }
                "ServerSyncFailed"
            },
            ActivityEventType::ActivityLogCleaned => {
                proof { reveal_strlit("ActivityLogCleaned"); }
                "ActivityLogCleaned"
            },
            ActivityEventType::ActivityLogExported => {
                proof { reveal_strlit("ActivityLogExported"); }
                "ActivityLogExported"
            },
        }
    }
}

impl ActivitySeverity {
    /// The variant's name.
    pub fn name(&self) -> (r: &'static str)
        ensures
            r@ == severity_name(*self),
    {
        match self {
            ActivitySeverity::Info => {
                proof { reveal_strlit("Info"); }
                "Info"
            },
            ActivitySeverity::Warning => {
                proof { reveal_strlit("Warning"); }
                "Warning"
            },
            ActivitySeverity::Error => {
                proof { reveal_strlit("Error"); }
                "Error"
            },
            ActivitySeverity::Critical => {
                proof { reveal_strlit("Critical"); }
                "Critical"
            },
        }
    }
}

/// One recorded event. `at` is the event's time in seconds since the Unix
/// epoch, where its timestamp text could be read.
pub struct ActivityEvent {
    pub id: String,
    pub event_type: ActivityEventType,
    pub timestamp: String,
    pub at: Option<i64>,
    pub description: String,
    pub details: Option<String>,
    pub service_id: Option<u128>,
    pub user_id: Option<String>,
    pub ip_address: Option<String>,
    pub severity: ActivitySeverity,
}

/// Which events to list. `start` and `end` are times in seconds since the
/// Unix epoch, where the given dates could be read.
pub struct ActivityFilter {
    pub event_type: Option<ActivityEventType>,
    pub severity: Option<ActivitySeverity>,
    pub service_id: Option<u128>,
    pub start: Option<i64>,
    pub end: Option<i64>,
    pub limit: Option<u32>,
    pub offset: Option<u32>,
}

/// An event passes a filter when it has the asked type, severity and
/// service, and its time, where known, lies within the asked bounds.
pub open spec fn passes(e: ActivityEvent, f: ActivityFilter) -> bool {
    &&& (f.event_type matches Some(t) ==> e.event_type == t)
    &&& (f.severity matches Some(s) ==> e.severity == s)
    &&& (f.service_id matches Some(id) ==> e.service_id == Some(id))
    &&& (f.start matches Some(s) ==> (e.at matches Some(t) ==> t >= s))
    &&& (f.end matches Some(end) ==> (e.at matches Some(t) ==> t <= end))
}

/// The events of `es` that pass `f`, in order.
pub open spec fn passing(es: Seq<ActivityEvent>, f: ActivityFilter) -> Seq<ActivityEvent>
    decreases es.len(),
{
    if es.len() == 0 {
        seq![]
    } else {
        passing(es.drop_last(), f) + if passes(es.last(), f) {
            seq![es.last()]
        } else {
            seq![]
        }
    }
}

/// The page that `offset` and `limit` select: nothing where the offset is
/// past the end; else from the offset on, at most `limit` events.
pub open spec fn page(s: Seq<ActivityEvent>, offset: Option<u32>, limit: Option<u32>) -> Seq<ActivityEvent> {
    let from = match offset {
        Some(o) => o as int,
        None => 0,
    };
    if offset is Some && from >= s.len() {
        seq![]
    } else {
        let rest = s.subrange(from, s.len() as int);
        match limit {
            Some(l) => if (l as int) < rest.len() {
                rest.take(l as int)
            } else {
                rest
            },
            None => rest,
        }
    }
}

fn copy_text(t: &Option<String>) -> (r: Option<String>)
    ensures
        r == *t,
{
    match t {
        Some(s) => Some(s.clone()),
        None => None,
    }
}

impl ActivityEvent {
    /// A field-for-field copy.
    pub fn copy(&self) -> (r: Self)
        ensures
            r == *self,
    {
        ActivityEvent {
            id: self.id.clone(),
            event_type: self.event_type,
            timestamp: self.timestamp.clone(),
            at: self.at,
            description: self.description.clone(),
            details: copy_text(&self.details),
            service_id: self.service_id,
            user_id: copy_text(&self.user_id),
            ip_address: copy_text(&self.ip_address),
            severity: self.severity,
        }
    }
}

impl ActivityFilter {
    /// Whether `event` passes the filter.
    pub fn matches(&self, event: &ActivityEvent) -> (r: bool)
        ensures
            r == passes(*event, *self),
    {
        if let Some(t) = self.event_type {
            if event.event_type != t {
                return false;
            }
        }
        if let Some(s) = self.severity {
            if event.severity != s {
                return false;
            }
        }
        if let Some(id) = self.service_id {
            match event.service_id {
                Some(e) => if e != id {
                    return false;
                },
                None => return false,
            }
        }
        if let (Some(s), Some(t)) = (self.start, event.at) {
            if t < s {
                return false;
            }
        }
        if let (Some(end), Some(t)) = (self.end, event.at) {
            if t > end {
                return false;
            }
        }
        true
    }
}

/// Summary counts of the activity log.
pub struct ActivityStats {
    pub total_events: u64,
    /// Events by type name, for the types that occur.
    pub events_by_type: NamedMap<u64>,
    /// Events by severity name, for the severities that occur.
    pub events_by_severity: NamedMap<u64>,
    pub events_last_24h: u64,
    pub events_last_7d: u64,
    pub events_last_30d: u64,
}

/// The number of events whose type is named `k`.
pub open spec fn type_count(es: Seq<ActivityEvent>, k: Seq<char>) -> nat
    decreases es.len(),
{
    if es.len() == 0 {
        0
    } else {
        type_count(es.drop_last(), k) + if event_type_name(es.last().event_type) == k {
            1nat
        } else {
            0
        }
    }
}

/// The number of events whose severity is named `k`.
pub open spec fn severity_count(es: Seq<ActivityEvent>, k: Seq<char>) -> nat
    decreases es.len(),
{
    if es.len() == 0 {
        0
    } else {
        severity_count(es.drop_last(), k) + if severity_name(es.last().severity) == k {
            1nat
        } else {
            0
        }
    }
}

/// The event's known time is at most `window` seconds before `now`.
pub open spec fn within(e: ActivityEvent, now: i64, window: int) -> bool {
    match e.at {
        Some(t) => now - t <= window,
        None => false,
    }
}

/// The number of events whose known time is at most `window` seconds before `now`.
pub open spec fn recent_count(es: Seq<ActivityEvent>, now: i64, window: int) -> nat
    decreases es.len(),
{
    if es.len() == 0 {
        0
    } else {
        recent_count(es.drop_last(), now, window) + if within(es.last(), now, window) {
            1nat
        } else {
            0
        }
    }
}

/// Seconds in a day.
pub const DAY: i64 = 86400;

fn is_within(e: &ActivityEvent, now: i64, window: i64) -> (r: bool)
    ensures
        r == within(*e, now, window as int),
{
    match e.at {
        Some(t) => (now as i128) - (t as i128) <= window as i128,
        None => false,
    }
}

/// Adds one to the count under `k`.
fn bump(m: &mut NamedMap<u64>, k: &str, bound: u64)
    requires
        old(m).wf(),
        old(m)@.contains_key(k@) ==> old(m)@[k@] < bound,
    ensures
        final(m).wf(),
        final(m)@ == old(m)@.insert(
            k@,
            if old(m)@.contains_key(k@) {
                (old(m)@[k@] + 1) as u64
            } else {
                1u64
            },
        ),
{
    let next: u64 = match m.get(k) {
        Some(c) => *c + 1,
        None => 1,
    };
    m.insert(String::from_str(k), next);
}

/// The activity log: the latest events first, at most `max_events` of them.
pub struct ActivityState {
    events: Vec<ActivityEvent>,
    max_events: usize,
}

impl ActivityState {
    pub closed spec fn events(&self) -> Seq<ActivityEvent> {
        self.events@
    }

    pub closed spec fn max_events(&self) -> nat {
        self.max_events as nat
    }

    pub open spec fn wf(&self) -> bool {
        self.events().len() <= self.max_events()
    }

    pub fn new(max_events: usize) -> (r: Self)
        ensures
            r.wf(),
            r.events() == Seq::<ActivityEvent>::empty(),
            r.max_events() == max_events,
    {
        ActivityState { events: Vec::new(), max_events }
    }

    /// Records `event` as the latest; the oldest events beyond the bound are dropped.
    pub fn add_event(&mut self, event: ActivityEvent)
        requires
            old(self).wf(),
        ensures
            final(self).wf(),
            final(self).max_events() == old(self).max_events(),
            final(self).events() == (seq![event] + old(self).events()).take(
                vstd::math::min(old(self).events().len() + 1 as int, old(self).max_events() as int),
            ),
    {
        self.events.insert(0, event);
        if self.events.len() > self.max_events {
            self.events.truncate(self.max_events);
        }
        assert(self.events@ =~= (seq![event] + old(self).events()).take(
            vstd::math::min(old(self).events().len() + 1 as int, old(self).max_events() as int),
        ));
    }

    /// The events that pass `filter`, latest first, and then the page that
    /// its offset and limit select; without a filter, all events.
    pub fn get_events(&self, filter: Option<ActivityFilter>) -> (r: Vec<ActivityEvent>)
        ensures
            filter is None ==> r@ == self.events(),
            filter matches Some(f) ==> r@ == page(passing(self.events(), f), f.offset, f.limit),
    {
        match filter {
            None => {
                let mut all: Vec<ActivityEvent> = Vec::new();
                let mut i: usize = 0;
                while i < self.events.len()
                    invariant
                        i <= self.events@.len(),
                        all@ == self.events@.subrange(0, i as int),
                    decreases self.events@.len() - i,
                {
                    all.push(self.events[i].copy());
                    assert(all@ =~= self.events@.subrange(0, i + 1));
                    i = i + 1;
                }
                assert(all@ =~= self.events@);
                all
            },
            Some(f) => {
                let mut kept: Vec<ActivityEvent> = Vec::new();
                let mut i: usize = 0;
                while i < self.events.len()
                    invariant
                        i <= self.events@.len(),
                        kept@ == passing(self.events@.subrange(0, i as int), f),
                    decreases self.events@.len() - i,
                {
                    proof {
                        let s = self.events@.subrange(0, i + 1);
                        assert(s.drop_last() =~= self.events@.subrange(0, i as int));
                        assert(s.last() == self.events@[i as int]);
                    }
                    if f.matches(&self.events[i]) {
                        kept.push(self.events[i].copy());
                    }
                    assert(kept@ =~= passing(self.events@.subrange(0, i + 1), f));
                    i = i + 1;
                }
                assert(self.events@.subrange(0, i as int) =~= self.events@);
                let ghost all = kept@;
                let from: usize = match f.offset {
                    Some(o) => o as usize,
                    None => 0,
                };
                if f.offset.is_some() && from >= kept.len() {
                    return Vec::new();
                }
                let mut out: Vec<ActivityEvent> = Vec::new();
                let mut j: usize = from;
                let end: usize = match f.limit {
                    Some(l) => if (l as usize) < kept.len() - from {
                        from + l as usize
                    } else {
                        kept.len()
                    },
                    None => kept.len(),
                };
                while j < end
                    invariant
                        from <= j <= end <= kept@.len(),
                        kept@ == all,
                        out@ == all.subrange(from as int, j as int),
                    decreases end - j,
                {
                    out.push(kept[j].copy());
                    assert(out@ =~= all.subrange(from as int, j + 1));
                    j = j + 1;
                }
                assert(out@ =~= page(all, f.offset, f.limit));
                out
            },
        }
    }

    /// Counts of the events: in all, by type, by severity, and those at most
    /// a day, a week and thirty days older than `now` (seconds since the
    /// Unix epoch).
    pub fn get_stats(&self, now: i64) -> (r: ActivityStats)
        requires
            self.events().len() <= u64::MAX,
        ensures
            r.total_events == self.events().len(),
            r.events_by_type.wf(),
            r.events_by_severity.wf(),
            forall|k: Seq<char>| #[trigger] r.events_by_type@.contains_key(k) <==> type_count(self.events(), k) > 0,
            forall|k: Seq<char>| #[trigger] r.events_by_type@.contains_key(k) ==> r.events_by_type@[k] == type_count(self.events(), k),
            forall|k: Seq<char>| #[trigger] r.events_by_severity@.contains_key(k) <==> severity_count(self.events(), k) > 0,
            forall|k: Seq<char>| #[trigger] r.events_by_severity@.contains_key(k) ==> r.events_by_severity@[k] == severity_count(self.events(), k),
            r.events_last_24h == recent_count(self.events(), now, DAY as int),
            r.events_last_7d == recent_count(self.events(), now, 7 * DAY),
            r.events_last_30d == recent_count(self.events(), now, 30 * DAY),
    {
        let mut by_type: NamedMap<u64> = NamedMap::new();
        let mut by_severity: NamedMap<u64> = NamedMap::new();
        let mut day: u64 = 0;
        let mut week: u64 = 0;
        let mut month: u64 = 0;
        let mut i: usize = 0;
        while i < self.events.len()
            invariant
                i <= self.events@.len(),
                self.events@.len() <= u64::MAX,
                by_type.wf(),
                by_severity.wf(),
                forall|k: Seq<char>| #[trigger] by_type@.contains_key(k) <==> type_count(self.events@.subrange(0, i as int), k) > 0,
                forall|k: Seq<char>| #[trigger] by_type@.contains_key(k) ==> by_type@[k] == type_count(self.events@.subrange(0, i as int), k),
                forall|k: Seq<char>| type_count(self.events@.subrange(0, i as int), k) <= i,
                forall|k: Seq<char>| #[trigger] by_severity@.contains_key(k) <==> severity_count(self.events@.subrange(0, i as int), k) > 0,
                forall|k: Seq<char>| #[trigger] by_severity@.contains_key(k) ==> by_severity@[k] == severity_count(self.events@.subrange(0, i as int), k),
                forall|k: Seq<char>| severity_count(self.events@.subrange(0, i as int), k) <= i,
                day == recent_count(self.events@.subrange(0, i as int), now, DAY as int),
                week == recent_count(self.events@.subrange(0, i as int), now, 7 * DAY),
                month == recent_count(self.events@.subrange(0, i as int), now, 30 * DAY),
                day <= i && week <= i && month <= i,
            decreases self.events@.len() - i,
        {
            let ghost prev = self.events@.subrange(0, i as int);
            let ghost next = self.events@.subrange(0, i + 1);
            proof {
                assert(next.drop_last() =~= prev);
                assert(next.last() == self.events@[i as int]);
            }
            let e = &self.events[i];
            let tn = e.event_type.name();
            let sn = e.severity.name();
            bump(&mut by_type, tn, i as u64 + 1);
            bump(&mut by_severity, sn, i as u64 + 1);
            if is_within(e, now, DAY) {
                day = day + 1;
            }
            if is_within(e, now, 7 * DAY) {
                week = week + 1;
            }
            if is_within(e, now, 30 * DAY) {
                month = month + 1;
            }
            proof {
                assert forall|k: Seq<char>| type_count(next, k) <= i + 1 by {
                    assert(type_count(prev, k) <= i);
                }
                assert forall|k: Seq<char>| severity_count(next, k) <= i + 1 by {
                    assert(severity_count(prev, k) <= i);
                }
                assert forall|k: Seq<char>| #[trigger] by_type@.contains_key(k) <==> type_count(next, k) > 0 by {
                    assert(type_count(next, k) == type_count(prev, k) + if event_type_name(e.event_type) == k { 1nat } else { 0 });
                }
                assert forall|k: Seq<char>| #[trigger] by_type@.contains_key(k) implies by_type@[k] == type_count(next, k) by {
                    assert(type_count(next, k) == type_count(prev, k) + if event_type_name(e.event_type) == k { 1nat } else { 0 });
                }
                assert forall|k: Seq<char>| #[trigger] by_severity@.contains_key(k) <==> severity_count(next, k) > 0 by {
                    assert(severity_count(next, k) == severity_count(prev, k) + if severity_name(e.severity) == k { 1nat } else { 0 });
                }
                assert forall|k: Seq<char>| #[trigger] by_severity@.contains_key(k) implies by_severity@[k] == severity_count(next, k) by {
                    assert(severity_count(next, k) == severity_count(prev, k) + if severity_name(e.severity) == k { 1nat } else { 0 });
                }
            }
            i = i + 1;
        }
        assert(self.events@.subrange(0, i as int) =~= self.events@);
        ActivityStats {
            total_events: self.events.len() as u64,
            events_by_type: by_type,
            events_by_severity: by_severity,
            events_last_24h: day,
            events_last_7d: week,
            events_last_30d: month,
        }
    }

    /// Drops every event; returns how many there were.
    pub fn cleanup_old_events(&mut self) -> (r: usize)
        requires
            old(self).wf(),
        ensures
            final(self).wf(),
            r == old(self).events().len(),
            final(self).events() == Seq::<ActivityEvent>::empty(),
            final(self).max_events() == old(self).max_events(),
    {
        let n = self.events.len();
        self.events.clear();
        n
    }
}

} // verus!
