//! Applying a tray-menu click to the state. The menu plumbing resolves the
//! clicked entry to a `MenuItemDeviceInfo`, reads the entry's check state
//! and, for a fresh volume lock, the device's current volume, and hands all
//! three here; the functions below perform the state change and report
//! whether the state must be persisted and whether the watched-device set
//! must be rebuilt. Every mutation preserves the pruning invariant
//! `StateView::is_pruned`.

use vstd::prelude::*;

use crate::state::{
    DeviceSettings, DeviceSettingsView, PersistentState, StateView, device_get, device_index,
    has_device, lemma_device_index_unique, lemma_insert_preserves_pruned,
    lemma_remove_at_contains, lemma_remove_preserves_pruned, lemma_swap_preserves_contains,
    list_contains, list_position, spec_devices_insert, spec_devices_remove, spec_position,
    with_notify_on_priority_restore, with_priority_list, with_switch_communication_device,
    with_switch_foreground_app,
};
use crate::types::{DeviceSettingType, DeviceType, MenuItemDeviceInfo};

verus! {

/// What a menu click asks the event loop to do next.
#[derive(Debug, Clone, Copy, PartialEq, Eq, Structural)]
pub struct MenuEventResult {
    pub should_save: bool,
    pub devices_changed: bool,
}

/// The session-only priority overrides, one per device type; never
/// persisted.
#[derive(Debug, Clone)]
pub struct TemporaryPriorities {
    pub output: Option<String>,
    pub input: Option<String>,
}

#[verifier::ext_equal]
pub ghost struct TemporaryPrioritiesView {
    pub output: Option<Seq<char>>,
    pub input: Option<Seq<char>>,
}

impl View for TemporaryPriorities {
    type V = TemporaryPrioritiesView;

    open spec fn view(&self) -> TemporaryPrioritiesView {
        TemporaryPrioritiesView { output: self.output.deep_view(), input: self.input.deep_view() }
    }
}

impl TemporaryPrioritiesView {
    pub open spec fn of_type(self, device_type: DeviceType) -> Option<Seq<char>> {
        match device_type {
            DeviceType::Output => self.output,
            DeviceType::Input => self.input,
        }
    }
}

impl TemporaryPriorities {
    pub fn new() -> (t: Self)
        ensures
            t@.output is None,
            t@.input is None,
    {
        TemporaryPriorities { output: None, input: None }
    }

    pub fn of_type(&self, device_type: DeviceType) -> (t: &Option<String>)
        ensures
            t.deep_view() == self@.of_type(device_type),
    {
        match device_type {
            DeviceType::Output => &self.output,
            DeviceType::Input => &self.input,
        }
    }
}

/// `t` with the override of `device_type` replaced.
pub open spec fn with_temporary(
    t: TemporaryPrioritiesView,
    device_type: DeviceType,
    v: Option<Seq<char>>,
) -> TemporaryPrioritiesView {
    match device_type {
        DeviceType::Output => TemporaryPrioritiesView { output: v, ..t },
        DeviceType::Input => TemporaryPrioritiesView { input: v, ..t },
    }
}

/// The settings a device starts from the first time a menu click touches
/// it: no locks, no notifications, volume zero.
pub open spec fn default_settings(device_type: DeviceType, name: Seq<char>) -> DeviceSettingsView {
    DeviceSettingsView {
        is_volume_locked: false,
        volume_percent: 0,
        notify_on_volume_lock: false,
        is_unmute_locked: false,
        notify_on_unmute_lock: false,
        device_type,
        name,
    }
}

pub open spec fn is_toggle_setting(setting: DeviceSettingType) -> bool {
    ||| setting == DeviceSettingType::VolumeLock
    ||| setting == DeviceSettingType::VolumeLockNotify
    ||| setting == DeviceSettingType::UnmuteLock
    ||| setting == DeviceSettingType::UnmuteLockNotify
}

/// The settings after one check-item toggle. Checking the volume lock
/// captures the device's current volume as the locked target; if that
/// volume could not be read, the lock stays off.
pub open spec fn spec_toggled(
    base: DeviceSettingsView,
    setting: DeviceSettingType,
    checked: bool,
    live_volume_percent: Option<u32>,
) -> DeviceSettingsView {
    match setting {
        DeviceSettingType::VolumeLock => if checked {
            match live_volume_percent {
                Some(v) => DeviceSettingsView { is_volume_locked: true, volume_percent: v, ..base },
                None => DeviceSettingsView { is_volume_locked: false, ..base },
            }
        } else {
            DeviceSettingsView { is_volume_locked: false, ..base }
        },
        DeviceSettingType::VolumeLockNotify => DeviceSettingsView {
            notify_on_volume_lock: checked,
            ..base
        },
        DeviceSettingType::UnmuteLock => DeviceSettingsView { is_unmute_locked: checked, ..base },
        DeviceSettingType::UnmuteLockNotify => DeviceSettingsView {
            notify_on_unmute_lock: checked,
            ..base
        },
        _ => base,
    }
}

/// The state after a toggle of one of the four per-device check items:
/// the entry is created on first touch, updated, and pruned when it ends
/// with no flag set and no priority list references it.
pub open spec fn spec_apply_setting_toggle(
    sv: StateView,
    id: Seq<char>,
    setting: DeviceSettingType,
    checked: bool,
    live_volume_percent: Option<u32>,
    name: Seq<char>,
    device_type: DeviceType,
) -> StateView {
    let base = if has_device(sv.devices, id) {
        device_get(sv.devices, id)
    } else {
        default_settings(device_type, name)
    };
    let upd = spec_toggled(base, setting, checked, live_volume_percent);
    if upd.any_flag() || sv.referenced(id) {
        StateView { devices: spec_devices_insert(sv.devices, id, upd), ..sv }
    } else {
        StateView { devices: spec_devices_remove(sv.devices, id), ..sv }
    }
}

/// Applies one toggle of a per-device check item.
pub fn apply_setting_toggle(
    state: &mut PersistentState,
    device_id: &String,
    device_type: DeviceType,
    name: &String,
    setting: DeviceSettingType,
    checked: bool,
    live_volume_percent: Option<u32>,
)
    requires
        old(state)@.wf(),
        is_toggle_setting(setting),
        live_volume_percent matches Some(v) ==> v <= 100,
    ensures
        final(state)@ == spec_apply_setting_toggle(
            old(state)@,
            device_id@,
            setting,
            checked,
            live_volume_percent,
            name@,
            device_type,
        ),
        final(state)@.wf(),
        old(state)@.is_pruned() ==> final(state)@.is_pruned(),
{
    let mut upd: DeviceSettings = match state.devices_get(device_id) {
        Some(s) => s.duplicate(),
        None => DeviceSettings {
            is_volume_locked: false,
            volume_percent: 0,
            notify_on_volume_lock: false,
            is_unmute_locked: false,
            notify_on_unmute_lock: false,
            device_type,
            name: name.clone(),
        },
    };
    match setting {
        DeviceSettingType::VolumeLock => {
            if checked {
                match live_volume_percent {
                    Some(v) => {
                        upd.volume_percent = v;
                        upd.is_volume_locked = true;
                    },
                    None => {
                        upd.is_volume_locked = false;
                    },
                }
            } else {
                upd.is_volume_locked = false;
            }
        },
        DeviceSettingType::VolumeLockNotify => {
            upd.notify_on_volume_lock = checked;
        },
        DeviceSettingType::UnmuteLock => {
            upd.is_unmute_locked = checked;
        },
        DeviceSettingType::UnmuteLockNotify => {
            upd.notify_on_unmute_lock = checked;
        },
        _ => {
        },
    }
    let garbage = !upd.is_volume_locked && !upd.is_unmute_locked && !upd.notify_on_volume_lock
        && !upd.notify_on_unmute_lock;
    if garbage {
        let in_output = list_contains(&state.output_priority_list, device_id);
        let in_input = list_contains(&state.input_priority_list, device_id);
        if !in_output && !in_input {
            state.devices_remove(device_id);
            proof {
                if old(state)@.is_pruned() {
                    lemma_remove_preserves_pruned(old(state)@, device_id@);
                }
            }
            return ;
        }
    }
    proof {
        if old(state)@.is_pruned() {
            lemma_insert_preserves_pruned(old(state)@, device_id@, upd@);
        }
    }
    state.devices_insert(device_id.clone(), upd);
}

/// The state after an add-to-priority click: appends the id to the list of
/// its type, creating a default device entry if none exists; a second add
/// of a listed id changes nothing.
pub open spec fn spec_add_to_priority(
    sv: StateView,
    id: Seq<char>,
    name: Seq<char>,
    device_type: DeviceType,
) -> StateView {
    let list = sv.priority_list(device_type);
    if list.contains(id) {
        sv
    } else {
        let pushed = with_priority_list(sv, device_type, list.push(id));
        if has_device(sv.devices, id) {
            pushed
        } else {
            StateView {
                devices: sv.devices.push(
                    crate::state::DeviceEntryView {
                        id,
                        settings: default_settings(device_type, name),
                    },
                ),
                ..pushed
            }
        }
    }
}

/// Appends a device to the priority list of its type.
pub fn add_to_priority(
    state: &mut PersistentState,
    device_id: &String,
    name: &String,
    device_type: DeviceType,
) -> (saved: bool)
    requires
        old(state)@.wf(),
    ensures
        final(state)@ == spec_add_to_priority(old(state)@, device_id@, name@, device_type),
        final(state)@.wf(),
        old(state)@.is_pruned() ==> final(state)@.is_pruned(),
        saved == !old(state)@.priority_list(device_type).contains(device_id@),
{
    let listed = list_contains(state.get_priority_list(device_type), device_id);
    if listed {
        return false;
    }
    match device_type {
        DeviceType::Output => state.output_priority_list.push(device_id.clone()),
        DeviceType::Input => state.input_priority_list.push(device_id.clone()),
    }
    let ghost mid = state@;
    proof {
        assert(mid == with_priority_list(
            old(state)@,
            device_type,
            old(state)@.priority_list(device_type).push(device_id@),
        ));
    }
    let present = match state.devices_get(device_id) {
        Some(_) => true,
        None => false,
    };
    if !present {
        state.devices.push(
            crate::state::DeviceEntry {
                id: device_id.clone(),
                settings: DeviceSettings {
                    is_volume_locked: false,
                    volume_percent: 0,
                    notify_on_volume_lock: false,
                    is_unmute_locked: false,
                    notify_on_unmute_lock: false,
                    device_type,
                    name: name.clone(),
                },
            },
        );
    }
    proof {
        assert(final(state)@ =~= spec_add_to_priority(old(state)@, device_id@, name@, device_type));
        let post = final(state)@;
        assert(post.wf());
        if old(state)@.is_pruned() {
            assert forall|i: int|
                0 <= i < post.devices.len() implies ((
            #[trigger] post.devices[i]).settings.any_flag() || post.referenced(
                post.devices[i].id,
            )) by {
                let oldlist = old(state)@.priority_list(device_type);
                assert(post.priority_list(device_type) == oldlist.push(device_id@));
                if i < old(state)@.devices.len() {
                    assert(post.devices[i] == old(state)@.devices[i]);
                    if !post.devices[i].settings.any_flag() {
                        assert(old(state)@.referenced(post.devices[i].id));
                        let l0 = old(state)@.output_priority_list;
                        let l1 = old(state)@.input_priority_list;
                        if l0.contains(post.devices[i].id) {
                            let w = choose|w: int| 0 <= w < l0.len() && l0[w] == post.devices[i].id;
                            assert(post.output_priority_list[w] == post.devices[i].id);
                        } else {
                            let w = choose|w: int| 0 <= w < l1.len() && l1[w] == post.devices[i].id;
                            assert(post.input_priority_list[w] == post.devices[i].id);
                        }
                    }
                } else {
                    assert(post.devices[i].id == device_id@);
                    assert(post.priority_list(device_type)[oldlist.len() as int] == device_id@);
                }
            }
        }
    }
    true
}

/// The state after a remove-from-priority click: deletes the first
/// occurrence of the id from the list of its type, and drops the device
/// entry when no flag keeps it alive.
pub open spec fn spec_remove_from_priority(
    sv: StateView,
    id: Seq<char>,
    device_type: DeviceType,
) -> StateView {
    let list = sv.priority_list(device_type);
    if !list.contains(id) {
        sv
    } else {
        let shrunk = with_priority_list(sv, device_type, list.remove(spec_position(list, id)));
        if has_device(sv.devices, id) && !device_get(sv.devices, id).any_flag() {
            StateView { devices: spec_devices_remove(shrunk.devices, id), ..shrunk }
        } else {
            shrunk
        }
    }
}

/// Removes a device from the priority list of its type.
pub fn remove_from_priority(
    state: &mut PersistentState,
    device_id: &String,
    device_type: DeviceType,
) -> (saved: bool)
    requires
        old(state)@.wf(),
    ensures
        final(state)@ == spec_remove_from_priority(old(state)@, device_id@, device_type),
        final(state)@.wf(),
        old(state)@.is_pruned() ==> final(state)@.is_pruned(),
        saved == old(state)@.priority_list(device_type).contains(device_id@),
{
    let pos = list_position(state.get_priority_list(device_type), device_id);
    let p = match pos {
        Some(p) => p,
        None => {
            return false;
        },
    };
    let ghost oldlist = old(state)@.priority_list(device_type);
    match device_type {
        DeviceType::Output => {
            self_remove(&mut state.output_priority_list, p);
        },
        DeviceType::Input => {
            self_remove(&mut state.input_priority_list, p);
        },
    }
    let ghost mid = state@;
    proof {
        assert(mid == with_priority_list(old(state)@, device_type, oldlist.remove(p as int)));
        lemma_remove_at_contains(oldlist, p as int);
    }
    let garbage = match state.devices_get(device_id) {
        Some(s) => !s.is_volume_locked && !s.is_unmute_locked && !s.notify_on_volume_lock
            && !s.notify_on_unmute_lock,
        None => false,
    };
    if garbage {
        state.devices_remove(device_id);
    }
    proof {
        assert(final(state)@ =~= spec_remove_from_priority(old(state)@, device_id@, device_type));
        if old(state)@.is_pruned() {
            let post = final(state)@;
            assert forall|i: int|
                0 <= i < post.devices.len() implies ((
            #[trigger] post.devices[i]).settings.any_flag() || post.referenced(
                post.devices[i].id,
            )) by {
                lemma_prune_helper_remove(old(state)@, mid, post, device_id@, device_type, i);
            }
        }
    }
    true
}

/// Inner step of the pruning argument for `remove_from_priority`: every
/// entry of the final table either keeps a flag or stays referenced.
#[verifier::rlimit(60)]
proof fn lemma_prune_helper_remove(
    pre: StateView,
    mid: StateView,
    post: StateView,
    id: Seq<char>,
    device_type: DeviceType,
    i: int,
)
    requires
        pre.wf(),
        pre.is_pruned(),
        pre.priority_list(device_type).contains(id),
        mid == with_priority_list(
            pre,
            device_type,
            pre.priority_list(device_type).remove(
                spec_position(pre.priority_list(device_type), id),
            ),
        ),
        post == if has_device(mid.devices, id) && !device_get(mid.devices, id).any_flag() {
            StateView { devices: spec_devices_remove(mid.devices, id), ..mid }
        } else {
            mid
        },
        0 <= i < post.devices.len(),
    ensures
        post.devices[i].settings.any_flag() || post.referenced(post.devices[i].id),
{
    let list = pre.priority_list(device_type);
    let p = spec_position(list, id);
    assert(0 <= p < list.len() && list[p] == id) by {
        let w = choose|w: int| 0 <= w < list.len() && list[w] == id;
        let q = choose|q: int|
            0 <= q < list.len() && list[q] == id && forall|j: int| 0 <= j < q ==> list[j] != id;
        assert(exists|q: int|
            0 <= q < list.len() && list[q] == id && forall|j: int| 0 <= j < q ==> list[j] != id)
            by {
            lemma_first_occurrence_exists(list, id, w);
        }
    }
    lemma_remove_at_contains(list, p);
    let removed_dev = has_device(mid.devices, id) && !device_get(mid.devices, id).any_flag();
    let e = post.devices[i];
    if removed_dev {
        if has_device(pre.devices, id) {
            let k = device_index(pre.devices, id);
            if i < k {
                assert(post.devices[i] == pre.devices[i]);
            } else {
                assert(post.devices[i] == pre.devices[i + 1]);
            }
        }
    } else {
        assert(post.devices[i] == pre.devices[i]);
    }
    if !e.settings.any_flag() {
        assert(pre.referenced(e.id));
        if removed_dev {
            assert(e.id != id) by {
                if e.id == id {
                    lemma_device_index_unique(pre.devices, id, if has_device(pre.devices, id)
                        && i >= device_index(pre.devices, id) {
                        i + 1
                    } else {
                        i
                    });
                }
            }
            if pre.output_priority_list.contains(e.id) {
                if device_type == DeviceType::Output {
                    assert(post.output_priority_list.contains(e.id));
                } else {
                    assert(post.output_priority_list == pre.output_priority_list);
                }
            } else {
                if device_type == DeviceType::Input {
                    assert(post.input_priority_list.contains(e.id));
                } else {
                    assert(post.input_priority_list == pre.input_priority_list);
                }
            }
        } else {
            if e.id == id {
                assert(e.settings.any_flag()) by {
                    lemma_device_index_unique(pre.devices, id, i);
                }
            } else {
                if pre.output_priority_list.contains(e.id) {
                    if device_type == DeviceType::Output {
                        assert(post.output_priority_list.contains(e.id));
                    } else {
                        assert(post.output_priority_list == pre.output_priority_list);
                    }
                } else {
                    if device_type == DeviceType::Input {
                        assert(post.input_priority_list.contains(e.id));
                    } else {
                        assert(post.input_priority_list == pre.input_priority_list);
                    }
                }
            }
        }
    }
}

/// If a value occurs in a sequence, it has a first occurrence.
pub proof fn lemma_first_occurrence_exists(l: Seq<Seq<char>>, x: Seq<char>, w: int)
    requires
        0 <= w < l.len(),
        l[w] == x,
    ensures
        exists|q: int|
            0 <= q < l.len() && l[q] == x && forall|j: int| 0 <= j < q ==> l[j] != x,
    decreases w,
{
    if forall|j: int| 0 <= j < w ==> l[j] != x {
        assert(0 <= w < l.len() && l[w] == x && forall|j: int| 0 <= j < w ==> l[j] != x);
    } else {
        let w2 = choose|j: int| 0 <= j < w && l[j] == x;
        lemma_first_occurrence_exists(l, x, w2);
    }
}

/// Removes index `p` from a list in place.
fn self_remove(list: &mut Vec<String>, p: usize)
    requires
        p < old(list).len(),
    ensures
        final(list).deep_view() == old(list).deep_view().remove(p as int),
{
    list.remove(p);
    proof {
        assert(final(list).deep_view() =~= old(list).deep_view().remove(p as int));
    }
}

/// The state after a move-up click: the id's first occurrence swaps with
/// its predecessor; at the top, or absent, nothing changes.
pub open spec fn spec_move_priority_up(
    sv: StateView,
    id: Seq<char>,
    device_type: DeviceType,
) -> StateView {
    let list = sv.priority_list(device_type);
    if list.contains(id) && spec_position(list, id) > 0 {
        let p = spec_position(list, id);
        with_priority_list(sv, device_type, list.update(p, list[p - 1]).update(p - 1, list[p]))
    } else {
        sv
    }
}

/// The state after a move-down click: the id's first occurrence swaps with
/// its successor; at the bottom, or absent, nothing changes.
pub open spec fn spec_move_priority_down(
    sv: StateView,
    id: Seq<char>,
    device_type: DeviceType,
) -> StateView {
    let list = sv.priority_list(device_type);
    if list.contains(id) && spec_position(list, id) + 1 < list.len() {
        let p = spec_position(list, id);
        with_priority_list(sv, device_type, list.update(p, list[p + 1]).update(p + 1, list[p]))
    } else {
        sv
    }
}

/// Swaps positions `p` and `q` of a list in place.
fn self_swap(list: &mut Vec<String>, p: usize, q: usize)
    requires
        p < old(list).len(),
        q < old(list).len(),
    ensures
        final(list).deep_view() == old(list).deep_view().update(
            p as int,
            old(list).deep_view()[q as int],
        ).update(q as int, old(list).deep_view()[p as int]),
{
    let a = list[p].clone();
    let b = list[q].clone();
    list[p] = b;
    list[q] = a;
    proof {
        assert(final(list).deep_view() =~= old(list).deep_view().update(
            p as int,
            old(list).deep_view()[q as int],
        ).update(q as int, old(list).deep_view()[p as int]));
    }
}

/// Moves a device one place up its priority list.
pub fn move_priority_up(
    state: &mut PersistentState,
    device_id: &String,
    device_type: DeviceType,
) -> (saved: bool)
    requires
        old(state)@.wf(),
    ensures
        final(state)@ == spec_move_priority_up(old(state)@, device_id@, device_type),
        final(state)@.wf(),
        old(state)@.is_pruned() ==> final(state)@.is_pruned(),
        saved == (old(state)@.priority_list(device_type).contains(device_id@) && spec_position(
            old(state)@.priority_list(device_type),
            device_id@,
        ) > 0),
{
    let pos = list_position(state.get_priority_list(device_type), device_id);
    let ghost oldlist = old(state)@.priority_list(device_type);
    if let Some(p) = pos {
        if p > 0 {
            match device_type {
                DeviceType::Output => self_swap(&mut state.output_priority_list, p, p - 1),
                DeviceType::Input => self_swap(&mut state.input_priority_list, p, p - 1),
            }
            proof {
                assert(final(state)@ == with_priority_list(
                    old(state)@,
                    device_type,
                    oldlist.update(p as int, oldlist[p - 1]).update(p - 1, oldlist[p as int]),
                ));
                lemma_swap_preserves_contains(oldlist, p as int, p - 1);
                assert(final(state)@ =~= spec_move_priority_up(
                    old(state)@,
                    device_id@,
                    device_type,
                ));
                if old(state)@.is_pruned() {
                    lemma_reorder_preserves_pruned(old(state)@, final(state)@);
                }
            }
            return true;
        }
    }
    false
}

/// Moves a device one place down its priority list.
pub fn move_priority_down(
    state: &mut PersistentState,
    device_id: &String,
    device_type: DeviceType,
) -> (saved: bool)
    requires
        old(state)@.wf(),
    ensures
        final(state)@ == spec_move_priority_down(old(state)@, device_id@, device_type),
        final(state)@.wf(),
        old(state)@.is_pruned() ==> final(state)@.is_pruned(),
        saved == (old(state)@.priority_list(device_type).contains(device_id@) && spec_position(
            old(state)@.priority_list(device_type),
            device_id@,
        ) + 1 < old(state)@.priority_list(device_type).len()),
{
    let pos = list_position(state.get_priority_list(device_type), device_id);
    let ghost oldlist = old(state)@.priority_list(device_type);
    let n = state.get_priority_list(device_type).len();
    if let Some(p) = pos {
        if p + 1 < n {
            match device_type {
                DeviceType::Output => self_swap(&mut state.output_priority_list, p, p + 1),
                DeviceType::Input => self_swap(&mut state.input_priority_list, p, p + 1),
            }
            proof {
                assert(final(state)@ == with_priority_list(
                    old(state)@,
                    device_type,
                    oldlist.update(p as int, oldlist[p + 1]).update(p + 1, oldlist[p as int]),
                ));
                lemma_swap_preserves_contains(oldlist, p as int, p + 1);
                assert(final(state)@ =~= spec_move_priority_down(
                    old(state)@,
                    device_id@,
                    device_type,
                ));
                if old(state)@.is_pruned() {
                    lemma_reorder_preserves_pruned(old(state)@, final(state)@);
                }
            }
            return true;
        }
    }
    false
}

/// A state whose lists hold the same ids and whose table is unchanged is
/// still pruned.
proof fn lemma_reorder_preserves_pruned(pre: StateView, post: StateView)
    requires
        pre.is_pruned(),
        post.devices == pre.devices,
        forall|x: Seq<char>|
            #[trigger] post.output_priority_list.contains(x) == pre.output_priority_list.contains(
                x,
            ),
        forall|x: Seq<char>|
            #[trigger] post.input_priority_list.contains(x) == pre.input_priority_list.contains(x),
    ensures
        post.is_pruned(),
{
}

/// Applies one tray-menu click. `checked` is the check state of the clicked
/// entry, `None` when the entry was not found or holds no check state;
/// `live_volume_percent` is the device's current volume, queried when the
/// click may capture a volume lock, `None` when the query failed. Returns
/// whether the state must be persisted and whether the watched-device set
/// must be rebuilt.
pub fn handle_menu_event(
    menu_info: &MenuItemDeviceInfo,
    checked: Option<bool>,
    live_volume_percent: Option<u32>,
    state: &mut PersistentState,
    temporary: &mut TemporaryPriorities,
) -> (result: MenuEventResult)
    requires
        old(state)@.wf(),
        live_volume_percent matches Some(v) ==> v <= 100,
    ensures
        final(state)@.wf(),
        old(state)@.is_pruned() ==> final(state)@.is_pruned(),
        if is_toggle_setting(menu_info.setting_type) {
            &&& final(temporary)@ == old(temporary)@
            &&& !result.devices_changed
            &&& match checked {
                Some(c) => final(state)@ == spec_apply_setting_toggle(
                    old(state)@,
                    menu_info.device_id@,
                    menu_info.setting_type,
                    c,
                    live_volume_percent,
                    menu_info.name@,
                    menu_info.device_type,
                ) && result.should_save,
                None => final(state)@ == old(state)@ && !result.should_save,
            }
        } else {
            match menu_info.setting_type {
                DeviceSettingType::AddToPriority => {
                    &&& final(temporary)@ == old(temporary)@
                    &&& !result.devices_changed
                    &&& final(state)@ == spec_add_to_priority(
                        old(state)@,
                        menu_info.device_id@,
                        menu_info.name@,
                        menu_info.device_type,
                    )
                    &&& result.should_save == !old(state)@.priority_list(
                        menu_info.device_type,
                    ).contains(menu_info.device_id@)
                },
                DeviceSettingType::RemoveFromPriority => {
                    &&& final(temporary)@ == old(temporary)@
                    &&& !result.devices_changed
                    &&& final(state)@ == spec_remove_from_priority(
                        old(state)@,
                        menu_info.device_id@,
                        menu_info.device_type,
                    )
                    &&& result.should_save == old(state)@.priority_list(
                        menu_info.device_type,
                    ).contains(menu_info.device_id@)
                },
                DeviceSettingType::MovePriorityUp => {
                    &&& final(temporary)@ == old(temporary)@
                    &&& !result.devices_changed
                    &&& final(state)@ == spec_move_priority_up(
                        old(state)@,
                        menu_info.device_id@,
                        menu_info.device_type,
                    )
                    &&& result.should_save == (old(state)@.priority_list(
                        menu_info.device_type,
                    ).contains(menu_info.device_id@) && spec_position(
                        old(state)@.priority_list(menu_info.device_type),
                        menu_info.device_id@,
                    ) > 0)
                },
                DeviceSettingType::MovePriorityDown => {
                    &&& final(temporary)@ == old(temporary)@
                    &&& !result.devices_changed
                    &&& result.should_save == (old(state)@.priority_list(
                        menu_info.device_type,
                    ).contains(menu_info.device_id@) && spec_position(
                        old(state)@.priority_list(menu_info.device_type),
                        menu_info.device_id@,
                    ) + 1 < old(state)@.priority_list(menu_info.device_type).len())
                    &&& final(state)@ == spec_move_priority_down(
                        old(state)@,
                        menu_info.device_id@,
                        menu_info.device_type,
                    )
                },
                DeviceSettingType::PriorityRestoreNotify => {
                    &&& final(temporary)@ == old(temporary)@
                    &&& !result.devices_changed
                    &&& match checked {
                        Some(c) => final(state)@ == with_notify_on_priority_restore(
                            old(state)@,
                            menu_info.device_type,
                            c,
                        ) && result.should_save,
                        None => final(state)@ == old(state)@ && !result.should_save,
                    }
                },
                DeviceSettingType::SwitchCommunicationDevice => {
                    &&& final(temporary)@ == old(temporary)@
                    &&& !result.devices_changed
                    &&& match checked {
                        Some(c) => final(state)@ == with_switch_communication_device(
                            old(state)@,
                            menu_info.device_type,
                            c,
                        ) && result.should_save,
                        None => final(state)@ == old(state)@ && !result.should_save,
                    }
                },
                DeviceSettingType::SwitchForegroundApp => {
                    &&& final(temporary)@ == old(temporary)@
                    &&& !result.devices_changed
                    &&& match checked {
                        Some(c) => final(state)@ == with_switch_foreground_app(
                            old(state)@,
                            menu_info.device_type,
                            c,
                        ) && result.should_save,
                        None => final(state)@ == old(state)@ && !result.should_save,
                    }
                },
                DeviceSettingType::SetTemporaryPriority => {
                    &&& final(state)@ == old(state)@
                    &&& !result.should_save
                    &&& match checked {
                        Some(c) => final(temporary)@ == with_temporary(
                            old(temporary)@,
                            menu_info.device_type,
                            if c {
                                Some(menu_info.device_id@)
                            } else {
                                None
                            },
                        ) && result.devices_changed,
                        None => final(temporary)@ == old(temporary)@ && !result.devices_changed,
                    }
                },
                _ => {
                    &&& final(state)@ == old(state)@
                    &&& final(temporary)@ == old(temporary)@
                    &&& !result.should_save
                    &&& !result.devices_changed
                },
            }
        },
{
    match menu_info.setting_type {
        DeviceSettingType::VolumeLock
        | DeviceSettingType::VolumeLockNotify
        | DeviceSettingType::UnmuteLock
        | DeviceSettingType::UnmuteLockNotify => {
            match checked {
                Some(c) => {
                    apply_setting_toggle(
                        state,
                        &menu_info.device_id,
                        menu_info.device_type,
                        &menu_info.name,
                        menu_info.setting_type,
                        c,
                        live_volume_percent,
                    );
                    MenuEventResult { should_save: true, devices_changed: false }
                },
                None => MenuEventResult { should_save: false, devices_changed: false },
            }
        },
        DeviceSettingType::AddToPriority => {
            let saved = add_to_priority(
                state,
                &menu_info.device_id,
                &menu_info.name,
                menu_info.device_type,
            );
            MenuEventResult { should_save: saved, devices_changed: false }
        },
        DeviceSettingType::RemoveFromPriority => {
            let saved = remove_from_priority(state, &menu_info.device_id, menu_info.device_type);
            MenuEventResult { should_save: saved, devices_changed: false }
        },
        DeviceSettingType::MovePriorityUp => {
            let saved = move_priority_up(state, &menu_info.device_id, menu_info.device_type);
            MenuEventResult { should_save: saved, devices_changed: false }
        },
        DeviceSettingType::MovePriorityDown => {
            let saved = move_priority_down(state, &menu_info.device_id, menu_info.device_type);
            MenuEventResult { should_save: saved, devices_changed: false }
        },
        DeviceSettingType::PriorityRestoreNotify => {
            match checked {
                Some(c) => {
                    state.set_notify_on_priority_restore(menu_info.device_type, c);
                    MenuEventResult { should_save: true, devices_changed: false }
                },
                None => MenuEventResult { should_save: false, devices_changed: false },
            }
        },
        DeviceSettingType::SwitchCommunicationDevice => {
            match checked {
                Some(c) => {
                    state.set_switch_communication_device(menu_info.device_type, c);
                    MenuEventResult { should_save: true, devices_changed: false }
                },
                None => MenuEventResult { should_save: false, devices_changed: false },
            }
        },
        DeviceSettingType::SwitchForegroundApp => {
            match checked {
                Some(c) => {
                    state.set_switch_foreground_app(menu_info.device_type, c);
                    MenuEventResult { should_save: true, devices_changed: false }
                },
                None => MenuEventResult { should_save: false, devices_changed: false },
            }
        },
        DeviceSettingType::SetTemporaryPriority => {
            match checked {
                Some(c) => {
                    let value = if c {
                        Some(menu_info.device_id.clone())
                    } else {
                        None
                    };
                    match menu_info.device_type {
                        DeviceType::Output => temporary.output = value,
                        DeviceType::Input => temporary.input = value,
                    }
                    MenuEventResult { should_save: false, devices_changed: true }
                },
                None => MenuEventResult { should_save: false, devices_changed: false },
            }
        },
        _ => MenuEventResult { should_save: false, devices_changed: false },
    }
}

} // verus!
