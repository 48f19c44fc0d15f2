//! The watched-device set. Whenever the topology or the configuration
//! changes, the event loop clears its volume-change watch registrations and
//! rebuilds them from the state: every entry with a lock flag whose device
//! resolves and is active is watched again. The plan returned here lists
//! those devices in table order; the caller registers a watch for each,
//! pushes a synthetic re-check event for each registration that succeeded,
//! runs the immediate unmute check where the entry asks for it, and shows
//! the locked tray icon exactly when at least one registration succeeded.

use vstd::prelude::*;

use crate::live::{live_find, live_has, live_get, live_wf};
use crate::state::{DeviceEntryView, PersistentState};
use crate::types::{DeviceType, LiveDevice, LiveDeviceView};

verus! {

/// One device to watch: its id and the parts of its settings the caller
/// needs after a successful registration.
#[derive(Debug, Clone)]
pub struct WatchCandidate {
    pub device_id: String,
    pub name: String,
    pub device_type: DeviceType,
    pub is_volume_locked: bool,
    pub is_unmute_locked: bool,
    pub notify_on_unmute_lock: bool,
}

#[verifier::ext_equal]
pub ghost struct WatchCandidateView {
    pub device_id: Seq<char>,
    pub name: Seq<char>,
    pub device_type: DeviceType,
    pub is_volume_locked: bool,
    pub is_unmute_locked: bool,
    pub notify_on_unmute_lock: bool,
}

impl View for WatchCandidate {
    type V = WatchCandidateView;

    open spec fn view(&self) -> WatchCandidateView {
        WatchCandidateView {
            device_id: self.device_id@,
            name: self.name@,
            device_type: self.device_type,
            is_volume_locked: self.is_volume_locked,
            is_unmute_locked: self.is_unmute_locked,
            notify_on_unmute_lock: self.notify_on_unmute_lock,
        }
    }
}

impl DeepView for WatchCandidate {
    type V = WatchCandidateView;

    open spec fn deep_view(&self) -> WatchCandidateView {
        self@
    }
}

/// Whether a table entry is watched under the snapshot: a lock flag is
/// set, the id resolves, and the device is active.
pub open spec fn spec_watchable(live: Seq<LiveDeviceView>, e: DeviceEntryView) -> bool {
    &&& e.settings.is_volume_locked || e.settings.is_unmute_locked
    &&& live_has(live, e.id)
    &&& live_get(live, e.id).is_active
}

/// The candidate built from a watchable entry.
pub open spec fn spec_candidate_of(e: DeviceEntryView) -> WatchCandidateView {
    WatchCandidateView {
        device_id: e.id,
        name: e.settings.name,
        device_type: e.settings.device_type,
        is_volume_locked: e.settings.is_volume_locked,
        is_unmute_locked: e.settings.is_unmute_locked,
        notify_on_unmute_lock: e.settings.notify_on_unmute_lock,
    }
}

/// The watch candidates of a table, in table order.
pub open spec fn spec_watch_plan(
    live: Seq<LiveDeviceView>,
    devices: Seq<DeviceEntryView>,
) -> Seq<WatchCandidateView>
    decreases devices.len(),
{
    if devices.len() == 0 {
        Seq::empty()
    } else {
        let rest = spec_watch_plan(live, devices.drop_last());
        if spec_watchable(live, devices.last()) {
            rest.push(spec_candidate_of(devices.last()))
        } else {
            rest
        }
    }
}

/// Rebuilds the watch plan: every stored entry with a lock flag whose
/// device resolves and is currently active, in table order. Entries that
/// do not resolve or are inactive are skipped this cycle, not dropped.
pub fn plan_watch_refresh(state: &PersistentState, live: &Vec<LiveDevice>) -> (candidates: Vec<
    WatchCandidate,
>)
    requires
        live_wf(live.deep_view()),
    ensures
        candidates.deep_view() == spec_watch_plan(live.deep_view(), state@.devices),
{
    let ghost lv = live.deep_view();
    let ghost devs = state@.devices;
    let mut candidates: Vec<WatchCandidate> = Vec::new();
    let n = state.devices.len();
    proof {
        assert(devs.take(0) =~= Seq::<DeviceEntryView>::empty());
    }
    for i in 0..n
        invariant
            lv == live.deep_view(),
            live_wf(lv),
            n == state.devices.len(),
            devs == state@.devices,
            candidates.deep_view() == spec_watch_plan(lv, devs.take(i as int)),
    {
        let ghost prefix = devs.take(i as int);
        let ghost prefix1 = devs.take(i as int + 1);
        proof {
            assert(prefix1.drop_last() =~= prefix);
            assert(prefix1.last() == devs[i as int]);
        }
        let entry = &state.devices[i];
        if entry.settings.is_volume_locked || entry.settings.is_unmute_locked {
            let active = match live_find(live, &entry.id) {
                Some(d) => d.is_active,
                None => false,
            };
            if active {
                candidates.push(
                    WatchCandidate {
                        device_id: entry.id.clone(),
                        name: entry.settings.name.clone(),
                        device_type: entry.settings.device_type,
                        is_volume_locked: entry.settings.is_volume_locked,
                        is_unmute_locked: entry.settings.is_unmute_locked,
                        notify_on_unmute_lock: entry.settings.notify_on_unmute_lock,
                    },
                );
                proof {
                    assert(candidates.deep_view() =~= spec_watch_plan(lv, prefix).push(
                        spec_candidate_of(devs[i as int]),
                    ));
                }
            }
        }
    }
    proof {
        assert(devs.take(n as int) =~= devs);
    }
    candidates
}

/// Which tray icon the refresh ends in: the locked variant exactly when at
/// least one device ended up watched.
pub fn tray_icon_locked(watched_count: usize) -> (locked: bool)
    ensures
        locked == (watched_count > 0),
{
    watched_count > 0
}

} // verus!
