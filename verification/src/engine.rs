use vstd::prelude::*;
use std::collections::HashMap;
use vstd::std_specs::iter::IteratorSpec;
use crate::domain::device_views;
use crate::models::{Device, DeviceView};
use crate::tray::{calculate_tray_status, spec_tray_status, TrayStatus};

verus! {

broadcast use {vstd::std_specs::hash::group_hash_axioms, vstd::seq_lib::group_seq_properties};

/// Check interval for a device found online, unless configured otherwise.
pub const DEFAULT_ONLINE_INTERVAL_SECS: u64 = 10;

/// Check interval for a device found offline, unless configured otherwise.
pub const DEFAULT_OFFLINE_INTERVAL_SECS: u64 = 2;

/// What a running monitor was started with.
struct MonitorEntry {
    ip: String,
    name: String,
}

/// Model of the monitoring bookkeeping.
pub struct EngineModel {
    /// Devices with a running monitor, with the address and name it runs with.
    pub monitors: Map<i64, (Seq<char>, Seq<char>)>,
    /// Last known status of each device: `None` until its first check.
    pub states: Map<i64, Option<bool>>,
    /// Status shown by the tray icon.
    pub tray: TrayStatus,
    pub online_interval_secs: u64,
    pub offline_interval_secs: u64,
}

/// Every device with a running monitor has a status entry, and the tray
/// shows the aggregate of the device statuses.
pub open spec fn engine_inv(m: EngineModel) -> bool {
    &&& m.monitors.dom().subset_of(m.states.dom())
    &&& m.tray == spec_tray_status(m.states)
}

/// The tray status to show after `states` changed: `None` when the tray
/// already shows the aggregate, else the new aggregate.
pub open spec fn tray_change(shown: TrayStatus, states: Map<i64, Option<bool>>) -> Option<TrayStatus> {
    if shown == spec_tray_status(states) {
        None
    } else {
        Some(spec_tray_status(states))
    }
}

/// Bookkeeping of the monitoring engine: which device monitors run with what
/// address and name, the last status of each device, the tray status and the
/// check intervals. The tasks that run the checks are kept by the caller,
/// which carries out what these methods decide.
pub struct MonitoringEngine {
    monitors: HashMap<i64, MonitorEntry>,
    device_states: HashMap<i64, Option<bool>>,
    tray_status: TrayStatus,
    online_interval_secs: u64,
    offline_interval_secs: u64,
}


/// What happens to the monitor of one listed device during a sync.
#[derive(Debug, Clone, Copy, PartialEq, Eq, Structural)]
pub enum SyncStep {
    /// A monitor already runs with the device's address and name.
    Keep,
    /// No monitor ran for the device: one is started.
    Start,
    /// The monitor ran with another address or name: it is stopped and a new
    /// one started, and the device's status is forgotten.
    Restart,
}

/// What the caller must carry out after a sync: stop the monitors of
/// `stopped`, then for each listed device, in order, do its step (stopping the
/// old monitor of a restarted device before starting the new one), then show
/// `tray` on the tray icon if it is there.
pub struct SyncPlan {
    pub stopped: Vec<i64>,
    pub steps: Vec<SyncStep>,
    pub tray: Option<TrayStatus>,
}

/// The ids of the listed devices.
pub open spec fn device_ids(devices: Seq<DeviceView>) -> Set<i64> {
    Set::new(|id: i64| exists|i: int| 0 <= i < devices.len() && #[trigger] devices[i].id == Some(id))
}

/// Every listed device has an id.
pub open spec fn all_have_ids(devices: Seq<DeviceView>) -> bool {
    forall|i: int| 0 <= i < devices.len() ==> (#[trigger] devices[i]).id is Some
}

/// The address and name a monitor for `d` runs with.
pub open spec fn monitor_key(d: DeviceView) -> (Seq<char>, Seq<char>) {
    (d.ip, d.name)
}

/// The monitors and statuses after syncing one listed device, and its step.
pub open spec fn sync_step(
    monitors: Map<i64, (Seq<char>, Seq<char>)>,
    states: Map<i64, Option<bool>>,
    d: DeviceView,
) -> (Map<i64, (Seq<char>, Seq<char>)>, Map<i64, Option<bool>>, SyncStep) {
    let id = d.id->0;
    if monitors.contains_key(id) && monitors[id] != monitor_key(d) {
        (monitors.insert(id, monitor_key(d)), states.insert(id, None), SyncStep::Restart)
    } else if !monitors.contains_key(id) {
        (
            monitors.insert(id, monitor_key(d)),
            if states.contains_key(id) {
                states
            } else {
                states.insert(id, None)
            },
            SyncStep::Start,
        )
    } else {
        (monitors, states, SyncStep::Keep)
    }
}

/// The monitors and statuses after syncing the listed devices one after the
/// other, and their steps.
pub open spec fn sync_fold(
    monitors: Map<i64, (Seq<char>, Seq<char>)>,
    states: Map<i64, Option<bool>>,
    devices: Seq<DeviceView>,
) -> (Map<i64, (Seq<char>, Seq<char>)>, Map<i64, Option<bool>>, Seq<SyncStep>)
    decreases devices.len(),
{
    if devices.len() == 0 {
        (monitors, states, Seq::empty())
    } else {
        let (m, s, steps) = sync_fold(monitors, states, devices.drop_last());
        let (m2, s2, step) = sync_step(m, s, devices.last());
        (m2, s2, steps.push(step))
    }
}

/// The bookkeeping after a sync with the listed devices: monitors and
/// statuses of devices no longer listed are dropped, then each listed device
/// is synced in order.
pub open spec fn synced(old: EngineModel, devices: Seq<DeviceView>) -> (EngineModel, Seq<SyncStep>) {
    let ids = device_ids(devices);
    let (m, s, steps) = sync_fold(old.monitors.restrict(ids), old.states.restrict(ids), devices);
    (EngineModel { monitors: m, states: s, tray: spec_tray_status(s), ..old }, steps)
}

proof fn lemma_sync_fold_inv(
    monitors: Map<i64, (Seq<char>, Seq<char>)>,
    states: Map<i64, Option<bool>>,
    devices: Seq<DeviceView>,
)
    requires
        monitors.dom().subset_of(states.dom()),
    ensures
        sync_fold(monitors, states, devices).0.dom().subset_of(sync_fold(monitors, states, devices).1.dom()),
    decreases devices.len(),
{
    if devices.len() > 0 {
        lemma_sync_fold_inv(monitors, states, devices.drop_last());
    }
}

/// The listed devices have pairwise distinct ids, as rows of the device table do.
pub open spec fn distinct_ids(devices: Seq<DeviceView>) -> bool {
    forall|i: int, j: int|
        0 <= i < j < devices.len() ==> (#[trigger] devices[i]).id != (#[trigger] devices[j]).id
}

/// The step a sync takes for a listed device, given the monitors before the
/// sync.
pub open spec fn classify(monitors: Map<i64, (Seq<char>, Seq<char>)>, d: DeviceView) -> SyncStep {
    let id = d.id->0;
    if monitors.contains_key(id) && monitors[id] == monitor_key(d) {
        SyncStep::Keep
    } else if monitors.contains_key(id) {
        SyncStep::Restart
    } else {
        SyncStep::Start
    }
}

/// The status of a listed device after a sync: kept when its monitor is
/// kept, forgotten when its monitor restarts, and a fresh `None` when a
/// monitor starts for a device that had no status.
pub open spec fn status_after(
    monitors: Map<i64, (Seq<char>, Seq<char>)>,
    states: Map<i64, Option<bool>>,
    d: DeviceView,
) -> Option<bool> {
    let id = d.id->0;
    match classify(monitors, d) {
        SyncStep::Keep => states[id],
        SyncStep::Restart => None,
        SyncStep::Start => if states.contains_key(id) {
            states[id]
        } else {
            None
        },
    }
}

/// Syncing adds the listed ids to both maps and removes none.
proof fn lemma_sync_fold_dom(
    monitors: Map<i64, (Seq<char>, Seq<char>)>,
    states: Map<i64, Option<bool>>,
    devices: Seq<DeviceView>,
)
    requires
        all_have_ids(devices),
        monitors.dom().subset_of(states.dom()),
    ensures
        sync_fold(monitors, states, devices).0.dom() == monitors.dom().union(device_ids(devices)),
        sync_fold(monitors, states, devices).1.dom() == states.dom().union(device_ids(devices)),
    decreases devices.len(),
{
    if devices.len() > 0 {
        let prefix = devices.drop_last();
        assert(all_have_ids(prefix)) by {
            assert forall|i: int| 0 <= i < prefix.len() implies (#[trigger] prefix[i]).id is Some by {
                assert(prefix[i] == devices[i]);
            }
        }
        lemma_sync_fold_dom(monitors, states, prefix);
        lemma_sync_fold_inv(monitors, states, prefix);
        let last = devices.last();
        assert(last.id is Some);
        assert(device_ids(devices) =~= device_ids(prefix).insert(last.id->0)) by {
            assert forall|id: i64| device_ids(devices).contains(id) implies device_ids(
                prefix,
            ).insert(last.id->0).contains(id) by {
                let i = choose|i: int| 0 <= i < devices.len() && #[trigger] devices[i].id == Some(id);
                if i < prefix.len() {
                    assert(prefix[i] == devices[i]);
                }
            }
            assert forall|id: i64| device_ids(prefix).contains(id) implies device_ids(
                devices,
            ).contains(id) by {
                let i = choose|i: int| 0 <= i < prefix.len() && #[trigger] prefix[i].id == Some(id);
                assert(prefix[i] == devices[i]);
            }
            assert(devices[devices.len() - 1].id == Some(last.id->0));
        }
        let (m, s, _) = sync_fold(monitors, states, prefix);
        assert(sync_fold(monitors, states, devices).0.dom() =~= m.dom().insert(last.id->0));
        assert(sync_fold(monitors, states, devices).1.dom() =~= s.dom().insert(last.id->0));
    }
}

/// With distinct ids, each listed device is synced against the monitors and
/// statuses from before the sync, and unlisted entries stay as they are.
proof fn lemma_sync_fold_distinct(
    monitors: Map<i64, (Seq<char>, Seq<char>)>,
    states: Map<i64, Option<bool>>,
    devices: Seq<DeviceView>,
)
    requires
        all_have_ids(devices),
        distinct_ids(devices),
        monitors.dom().subset_of(states.dom()),
    ensures
        ({
            let (m, s, steps) = sync_fold(monitors, states, devices);
            &&& steps.len() == devices.len()
            &&& forall|i: int|
                0 <= i < devices.len() ==> {
                    let id = (#[trigger] devices[i]).id->0;
                    &&& steps[i] == classify(monitors, devices[i])
                    &&& m.contains_key(id) && m[id] == monitor_key(devices[i])
                    &&& s.contains_key(id) && s[id] == status_after(monitors, states, devices[i])
                }
            &&& forall|k: i64|
                #![trigger device_ids(devices).contains(k)]
                !device_ids(devices).contains(k) ==> (m.contains_key(k) == monitors.contains_key(k)
                    && (monitors.contains_key(k) ==> m[k] == monitors[k]) && s.contains_key(k)
                    == states.contains_key(k) && (states.contains_key(k) ==> s[k] == states[k]))
        }),
    decreases devices.len(),
{
    if devices.len() > 0 {
        let prefix = devices.drop_last();
        assert(all_have_ids(prefix)) by {
            assert forall|i: int| 0 <= i < prefix.len() implies (#[trigger] prefix[i]).id is Some by {
                assert(prefix[i] == devices[i]);
            }
        }
        assert(distinct_ids(prefix)) by {
            assert forall|i: int, j: int| 0 <= i < j < prefix.len() implies (
            #[trigger] prefix[i]).id != (#[trigger] prefix[j]).id by {
                assert(prefix[i] == devices[i] && prefix[j] == devices[j]);
            }
        }
        lemma_sync_fold_distinct(monitors, states, prefix);
        let last = devices.last();
        let lid = last.id->0;
        assert(!device_ids(prefix).contains(lid)) by {
            if device_ids(prefix).contains(lid) {
                let i = choose|i: int| 0 <= i < prefix.len() && #[trigger] prefix[i].id == Some(lid);
                assert(prefix[i] == devices[i]);
                assert(devices[i].id != devices[devices.len() - 1].id);
            }
        }
        let (m, s, steps) = sync_fold(monitors, states, prefix);
        let (m2, s2, steps2) = sync_fold(monitors, states, devices);
        assert(m.contains_key(lid) == monitors.contains_key(lid));
        assert(steps2 == steps.push(sync_step(m, s, last).2));
        assert forall|i: int| 0 <= i < devices.len() implies {
            let id = (#[trigger] devices[i]).id->0;
            &&& steps2[i] == classify(monitors, devices[i])
            &&& m2.contains_key(id) && m2[id] == monitor_key(devices[i])
            &&& s2.contains_key(id) && s2[id] == status_after(monitors, states, devices[i])
        } by {
            if i < prefix.len() {
                assert(prefix[i] == devices[i]);
                assert(devices[i].id != devices[devices.len() - 1].id);
                assert(device_ids(prefix).contains(devices[i].id->0)) by {
                    assert(prefix[i].id == Some(devices[i].id->0));
                }
            }
        }
        assert forall|k: i64|
            #![trigger device_ids(devices).contains(k)]
            !device_ids(devices).contains(k) implies (m2.contains_key(k)
            == monitors.contains_key(k) && (monitors.contains_key(k) ==> m2[k] == monitors[k])
            && s2.contains_key(k) == states.contains_key(k) && (states.contains_key(k) ==> s2[k]
            == states[k])) by {
            assert(devices[devices.len() - 1].id == Some(lid));
            assert(k != lid);
            assert(!device_ids(prefix).contains(k)) by {
                if device_ids(prefix).contains(k) {
                    let i = choose|i: int| 0 <= i < prefix.len() && #[trigger] prefix[i].id == Some(k);
                    assert(prefix[i] == devices[i]);
                }
            }
        }
    }
}

/// After a sync, exactly the listed devices have a monitor and a status
/// entry.
pub proof fn lemma_sync_tracks_listed_devices(old: EngineModel, devices: Seq<DeviceView>)
    requires
        engine_inv(old),
        all_have_ids(devices),
    ensures
        synced(old, devices).0.monitors.dom() == device_ids(devices),
        synced(old, devices).0.states.dom() == device_ids(devices),
        engine_inv(synced(old, devices).0),
{
    let ids = device_ids(devices);
    lemma_sync_fold_dom(old.monitors.restrict(ids), old.states.restrict(ids), devices);
    lemma_sync_fold_inv(old.monitors.restrict(ids), old.states.restrict(ids), devices);
    assert(old.monitors.restrict(ids).dom().union(ids) =~= ids);
    assert(old.states.restrict(ids).dom().union(ids) =~= ids);
}

/// With distinct ids, a sync gives each listed device a monitor with its
/// current address and name; its monitor is kept when it already ran with
/// them (and its status is kept), restarted when it ran with others (and its
/// status forgotten), started when none ran.
pub proof fn lemma_sync_per_device(old: EngineModel, devices: Seq<DeviceView>)
    requires
        engine_inv(old),
        all_have_ids(devices),
        distinct_ids(devices),
    ensures
        ({
            let (new, steps) = synced(old, devices);
            forall|i: int|
                0 <= i < devices.len() ==> {
                    let id = (#[trigger] devices[i]).id->0;
                    &&& steps[i] == classify(old.monitors, devices[i])
                    &&& new.monitors[id] == monitor_key(devices[i])
                    &&& new.states[id] == status_after(old.monitors, old.states, devices[i])
                }
        }),
{
    let ids = device_ids(devices);
    let m0 = old.monitors.restrict(ids);
    let s0 = old.states.restrict(ids);
    lemma_sync_fold_distinct(m0, s0, devices);
    assert forall|i: int| 0 <= i < devices.len() implies classify(m0, #[trigger] devices[i])
        == classify(old.monitors, devices[i]) && status_after(m0, s0, devices[i]) == status_after(
        old.monitors,
        old.states,
        devices[i],
    ) by {
        assert(ids.contains(devices[i].id->0));
    }
}

/// With distinct ids, syncing again with the same devices keeps every
/// monitor, stops none and changes nothing.
pub proof fn lemma_sync_idempotent(old: EngineModel, devices: Seq<DeviceView>)
    requires
        engine_inv(old),
        all_have_ids(devices),
        distinct_ids(devices),
    ensures
        ({
            let (once, _) = synced(old, devices);
            let (twice, steps) = synced(once, devices);
            &&& twice == once
            &&& forall|i: int| 0 <= i < steps.len() ==> steps[i] == SyncStep::Keep
            &&& steps.len() == devices.len()
            &&& forall|k: i64| !(once.monitors.contains_key(k) && !device_ids(devices).contains(k))
        }),
{
    let ids = device_ids(devices);
    let (once, _) = synced(old, devices);
    lemma_sync_tracks_listed_devices(old, devices);
    lemma_sync_per_device(old, devices);
    assert(once.monitors.restrict(ids) =~= once.monitors);
    assert(once.states.restrict(ids) =~= once.states);
    lemma_sync_fold_distinct(once.monitors, once.states, devices);
    let (m, s, steps) = sync_fold(once.monitors, once.states, devices);
    assert forall|i: int| 0 <= i < devices.len() implies classify(
        once.monitors,
        #[trigger] devices[i],
    ) == SyncStep::Keep by {
        assert(ids.contains(devices[i].id->0));
    }
    assert forall|i: int| 0 <= i < steps.len() implies steps[i] == SyncStep::Keep by {
        assert(classify(once.monitors, devices[i]) == SyncStep::Keep);
    }
    assert forall|k: i64| m.contains_key(k) <==> once.monitors.contains_key(k) by {
        if ids.contains(k) {
            let i = choose|i: int| 0 <= i < devices.len() && #[trigger] devices[i].id == Some(k);
        }
    }
    assert forall|k: i64| s.contains_key(k) <==> once.states.contains_key(k) by {
        if ids.contains(k) {
            let i = choose|i: int| 0 <= i < devices.len() && #[trigger] devices[i].id == Some(k);
        }
    }
    assert(m =~= once.monitors) by {
        assert forall|k: i64| m.contains_key(k) implies m[k] == once.monitors[k] by {
            if ids.contains(k) {
                let i = choose|i: int| 0 <= i < devices.len() && #[trigger] devices[i].id == Some(k);
            }
        }
    }
    assert(s =~= once.states) by {
        assert forall|k: i64| s.contains_key(k) implies s[k] == once.states[k] by {
            if ids.contains(k) {
                let i = choose|i: int| 0 <= i < devices.len() && #[trigger] devices[i].id == Some(k);
            }
        }
    }
}

/// Whether a listed device has id `id`.
fn has_device_id(devices: &Vec<Device>, id: i64) -> (b: bool)
    ensures
        b == device_ids(device_views(devices@)).contains(id),
{
    let ghost views = device_views(devices@);
    let mut i: usize = 0;
    while i < devices.len()
        invariant
            i <= devices.len(),
            views == device_views(devices@),
            views.len() == devices.len(),
            forall|j: int| 0 <= j < i ==> views[j].id != Some(id),
        decreases devices.len() - i,
    {
        if devices[i].id == Some(id) {
            assert(views[i as int].id == Some(id));
            return true;
        }
        i = i + 1;
    }
    false
}

/// The keys of a map, each once.
fn map_keys<V>(m: &HashMap<i64, V>) -> (keys: Vec<i64>)
    ensures
        keys@.no_duplicates(),
        forall|k: i64| keys@.contains(k) <==> m@.contains_key(k),
{
    let ghost ks = vstd::std_specs::hash::spec_keys_iter(m).remaining();
    let mut keys: Vec<i64> = Vec::new();
    for k in it: m.keys()
        invariant
            it.seq() == ks,
            ks.unref().to_set() == m@.dom(),
            ks.no_duplicates(),
            keys@.len() == it.index(),
            forall|j: int| 0 <= j < it.index() ==> keys@[j] == *ks[j],
    {
        keys.push(*k);
    }
    proof {
        assert(keys@ =~= ks.unref());
        assert forall|k: i64| keys@.contains(k) <==> m@.contains_key(k) by {
            if keys@.contains(k) {
                assert(ks.unref().to_set().contains(k));
            }
            if m@.contains_key(k) {
                assert(ks.unref().to_set().contains(k));
            }
        }
    }
    keys
}

/// Drops the entries of `m` whose key is not the id of a listed device, and
/// returns the dropped keys.
fn retain_listed<V>(m: &mut HashMap<i64, V>, devices: &Vec<Device>) -> (removed: Vec<i64>)
    ensures
        final(m)@ == old(m)@.restrict(device_ids(device_views(devices@))),
        removed@.no_duplicates(),
        forall|k: i64|
            removed@.contains(k) <==> old(m)@.contains_key(k) && !device_ids(
                device_views(devices@),
            ).contains(k),
{
    let ghost ids = device_ids(device_views(devices@));
    let ghost start = m@;
    let keys = map_keys(m);
    let mut removed: Vec<i64> = Vec::new();
    let mut i: usize = 0;
    while i < keys.len()
        invariant
            ids == device_ids(device_views(devices@)),
            keys@.no_duplicates(),
            forall|k: i64| keys@.contains(k) <==> start.contains_key(k),
            i <= keys.len(),
            forall|k: i64|
                #![trigger m@.contains_key(k)]
                #![trigger start.contains_key(k)]
                m@.contains_key(k) <==> start.contains_key(k) && (ids.contains(k)
                    || !keys@.take(i as int).contains(k)),
            forall|k: i64| m@.contains_key(k) ==> m@[k] == start[k],
            removed@.no_duplicates(),
            forall|k: i64|
                #![trigger removed@.contains(k)]
                #![trigger keys@.take(i as int).contains(k)]
                removed@.contains(k) <==> keys@.take(i as int).contains(k) && !ids.contains(k),
        decreases keys.len() - i,
    {
        let k = keys[i];
        let listed = has_device_id(devices, k);
        let ghost before_r = removed@;
        let ghost seen = keys@.take(i as int);
        assert(keys@.take(i + 1) =~= seen.push(k));
        assert(!seen.contains(k)) by {
            if seen.contains(k) {
                let j = choose|j: int| 0 <= j < seen.len() && seen[j] == k;
                assert(keys@[j] == keys@[i as int]);
            }
        }
        if !listed {
            m.remove(&k);
            removed.push(k);
            assert(removed@ =~= before_r.push(k));
            assert(!before_r.contains(k));
        }
        proof {
            assert forall|q: i64| removed@.contains(q) <==> keys@.take(i + 1).contains(q)
                && !ids.contains(q) by {
                assert(seen.push(k).contains(q) <==> (seen.contains(q) || q == k));
                if !listed {
                    assert(before_r.push(k).contains(q) <==> (before_r.contains(q) || q == k));
                }
            }
            assert forall|q: i64| m@.contains_key(q) <==> start.contains_key(q) && (ids.contains(q)
                || !keys@.take(i + 1).contains(q)) by {
                assert(seen.push(k).contains(q) <==> (seen.contains(q) || q == k));
                if q == k {
                    assert(keys@.contains(k));
                }
            }
        }
        i = i + 1;
    }
    proof {
        assert(keys@.take(i as int) =~= keys@);
        assert forall|q: i64| m@.contains_key(q) <==> start.restrict(ids).contains_key(q) by {
            if start.contains_key(q) {
                assert(keys@.contains(q));
            }
        }
        assert(m@ =~= start.restrict(ids));
    }
    removed
}

impl View for MonitoringEngine {
    type V = EngineModel;

    closed spec fn view(&self) -> EngineModel {
        EngineModel {
            monitors: self.monitors@.map_values(|e: MonitorEntry| (e.ip@, e.name@)),
            states: self.device_states@,
            tray: self.tray_status,
            online_interval_secs: self.online_interval_secs,
            offline_interval_secs: self.offline_interval_secs,
        }
    }
}

impl MonitoringEngine {
    /// An engine with no monitor, a neutral tray and the default intervals.
    pub fn new() -> (e: MonitoringEngine)
        ensures
            e@.monitors == Map::<i64, (Seq<char>, Seq<char>)>::empty(),
            e@.states == Map::<i64, Option<bool>>::empty(),
            e@.tray == TrayStatus::Neutral,
            e@.online_interval_secs == DEFAULT_ONLINE_INTERVAL_SECS,
            e@.offline_interval_secs == DEFAULT_OFFLINE_INTERVAL_SECS,
            engine_inv(e@),
    {
        let e = MonitoringEngine {
            monitors: HashMap::new(),
            device_states: HashMap::new(),
            tray_status: TrayStatus::Neutral,
            online_interval_secs: DEFAULT_ONLINE_INTERVAL_SECS,
            offline_interval_secs: DEFAULT_OFFLINE_INTERVAL_SECS,
        };
        assert(e@.monitors =~= Map::<i64, (Seq<char>, Seq<char>)>::empty());
        assert(e@.states.dom() =~= Set::<i64>::empty());
        e
    }

    /// The status the tray shows.
    pub fn tray_status(&self) -> (s: TrayStatus)
        ensures
            s == self@.tray,
    {
        self.tray_status
    }

    /// The last known status of a device: `None` when it has no entry,
    /// `Some(None)` before its first check.
    pub fn device_status(&self, id: i64) -> (s: Option<Option<bool>>)
        ensures
            s == (if self@.states.contains_key(id) {
                Some(self@.states[id])
            } else {
                None
            }),
    {
        match self.device_states.get(&id) {
            Some(v) => Some(*v),
            None => None,
        }
    }

    /// Whether a monitor runs for a device.
    pub fn is_monitored(&self, id: i64) -> (b: bool)
        ensures
            b == self@.monitors.contains_key(id),
    {
        self.monitors.contains_key(&id)
    }

    /// Sets the check intervals for online and offline devices.
    pub fn set_intervals(&mut self, online_secs: u64, offline_secs: u64)
        requires
            engine_inv(old(self)@),
        ensures
            engine_inv(final(self)@),
            final(self)@ == (EngineModel {
                online_interval_secs: online_secs,
                offline_interval_secs: offline_secs,
                ..old(self)@
            }),
    {
        self.online_interval_secs = online_secs;
        self.offline_interval_secs = offline_secs;
    }

    /// How long a monitor waits before the next check of a device found
    /// `is_online`.
    pub fn check_interval_secs(&self, is_online: bool) -> (secs: u64)
        ensures
            secs == (if is_online {
                self@.online_interval_secs
            } else {
                self@.offline_interval_secs
            }),
    {
        if is_online {
            self.online_interval_secs
        } else {
            self.offline_interval_secs
        }
    }

    /// Brings the tray status in line with the device statuses and says
    /// which status the tray icon must now show, if it changed.
    fn refresh_tray(&mut self) -> (change: Option<TrayStatus>)
        ensures
            final(self)@ == (EngineModel { tray: spec_tray_status(old(self)@.states), ..old(self)@ }),
            change == tray_change(old(self)@.tray, old(self)@.states),
    {
        let next = calculate_tray_status(&self.device_states);
        if next == self.tray_status {
            None
        } else {
            self.tray_status = next;
            Some(next)
        }
    }

    /// Syncs the monitor of one listed device.
    fn sync_one(&mut self, d: &Device) -> (step: SyncStep)
        requires
            d.id is Some,
        ensures
            ({
                let (m, s, st) = sync_step(old(self)@.monitors, old(self)@.states, d@);
                &&& final(self)@ == (EngineModel { monitors: m, states: s, ..old(self)@ })
                &&& step == st
            }),
    {
        let ghost old_view = self@;
        let id = d.id.unwrap();
        let restart = match self.monitors.get(&id) {
            Some(e) => !(e.ip == d.ip) || !(e.name == d.name),
            None => false,
        };
        if restart {
            self.monitors.remove(&id);
            self.device_states.insert(id, None);
        }
        if !self.monitors.contains_key(&id) {
            if !self.device_states.contains_key(&id) {
                self.device_states.insert(id, None);
            }
            self.monitors.insert(id, MonitorEntry { ip: d.ip.clone(), name: d.name.clone() });
            proof {
                assert(self@.monitors =~= old_view.monitors.insert(id, monitor_key(d@)));
            }
            if restart {
                SyncStep::Restart
            } else {
                SyncStep::Start
            }
        } else {
            proof {
                assert(self@.monitors =~= old_view.monitors);
            }
            SyncStep::Keep
        }
    }

    /// Brings the monitors in line with the listed devices (each with its
    /// id): drops the monitors and statuses of devices no longer listed,
    /// starts a monitor for each new device, restarts the monitor of each
    /// device whose address or name changed (forgetting its status), then
    /// updates the tray status. Says what the caller must carry out.
    pub fn sync_devices(&mut self, devices: &Vec<Device>) -> (plan: SyncPlan)
        requires
            engine_inv(old(self)@),
            all_have_ids(device_views(devices@)),
        ensures
            final(self)@ == synced(old(self)@, device_views(devices@)).0,
            plan.steps@ == synced(old(self)@, device_views(devices@)).1,
            plan.tray == tray_change(old(self)@.tray, final(self)@.states),
            plan.stopped@.no_duplicates(),
            forall|k: i64|
                plan.stopped@.contains(k) <==> old(self)@.monitors.contains_key(k)
                    && !device_ids(device_views(devices@)).contains(k),
            engine_inv(final(self)@),
    {
        let ghost views = device_views(devices@);
        let ghost ids = device_ids(views);
        let ghost start = self@;
        let _ = retain_listed(&mut self.device_states, devices);
        let stopped = retain_listed(&mut self.monitors, devices);
        let ghost m0 = self@.monitors;
        let ghost s0 = self@.states;
        proof {
            assert(m0 =~= start.monitors.restrict(ids));
            assert(s0 =~= start.states.restrict(ids));
        }
        let mut steps: Vec<SyncStep> = Vec::new();
        let mut i: usize = 0;
        while i < devices.len()
            invariant
                views == device_views(devices@),
                views.len() == devices.len(),
                all_have_ids(views),
                i <= devices.len(),
                self@.monitors == sync_fold(m0, s0, views.take(i as int)).0,
                self@.states == sync_fold(m0, s0, views.take(i as int)).1,
                steps@ == sync_fold(m0, s0, views.take(i as int)).2,
                self@.tray == start.tray,
                self@.online_interval_secs == start.online_interval_secs,
                self@.offline_interval_secs == start.offline_interval_secs,
            decreases devices.len() - i,
        {
            assert(views[i as int] == devices@[i as int]@);
            let step = self.sync_one(&devices[i]);
            steps.push(step);
            proof {
                assert(views.take(i + 1).drop_last() =~= views.take(i as int));
                assert(views.take(i + 1).last() == views[i as int]);
            }
            i = i + 1;
        }
        proof {
            assert(views.take(i as int) =~= views);
            lemma_sync_fold_inv(m0, s0, views);
        }
        let tray = self.refresh_tray();
        SyncPlan { stopped, steps, tray }
    }

    /// Records the status found by a check of a device (`None` to forget
    /// it) and says which status the tray icon must now show, if it changed.
    pub fn record_status(&mut self, id: i64, status: Option<bool>) -> (change: Option<TrayStatus>)
        requires
            engine_inv(old(self)@),
        ensures
            final(self)@ == (EngineModel {
                states: old(self)@.states.insert(id, status),
                tray: spec_tray_status(old(self)@.states.insert(id, status)),
                ..old(self)@
            }),
            change == tray_change(old(self)@.tray, old(self)@.states.insert(id, status)),
            engine_inv(final(self)@),
    {
        self.device_states.insert(id, status);
        self.refresh_tray()
    }
}

} // verus!
