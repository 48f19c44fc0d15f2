//! The tray menu's content, computed as plain data. Rebuilding the menu
//! means: a section per device type listing the active devices with their
//! four check items, a priority section per type with move/remove rows,
//! add-device candidates and the three toggles, the session-override
//! submenus, and the fixed auto-launch and quit entries. The presenter
//! renders these models one to one; every label, enabled flag, check state
//! and click binding is decided here.

use vstd::prelude::*;

use crate::state::{
    DeviceEntryView, DeviceSettingsView, PersistentState, StateView, device_get, device_index,
    has_device, lemma_device_index_unique, list_contains,
};
use crate::text::{spec_dec_of, u64_to_string};
use crate::types::{DeviceSettingType, DeviceType, LiveDevice, LiveDeviceView, MenuItemDeviceInfo};

verus! {

/// A device as the menu shows it: identity, cleaned name, and the volume
/// and mute state read when the menu was opened.
#[derive(Debug, Clone)]
pub struct MenuDevice {
    pub id: String,
    pub name: String,
    pub volume_percent: u32,
    pub is_muted: bool,
}

#[verifier::ext_equal]
pub ghost struct MenuDeviceView {
    pub id: Seq<char>,
    pub name: Seq<char>,
    pub volume_percent: u32,
    pub is_muted: bool,
}

impl View for MenuDevice {
    type V = MenuDeviceView;

    open spec fn view(&self) -> MenuDeviceView {
        MenuDeviceView {
            id: self.id@,
            name: self.name@,
            volume_percent: self.volume_percent,
            is_muted: self.is_muted,
        }
    }
}

impl DeepView for MenuDevice {
    type V = MenuDeviceView;

    open spec fn deep_view(&self) -> MenuDeviceView {
        self@
    }
}

/// The label of a device row: name, a star when it is the default, the
/// volume percent, a mute mark, and a lock mark.
pub open spec fn spec_label(
    name: Seq<char>,
    volume_percent: u32,
    is_default: bool,
    is_locked: bool,
    is_muted: bool,
) -> Seq<char> {
    name + (if is_default {
        " \u{b7} \u{2606}"@
    } else {
        Seq::<char>::empty()
    }) + " \u{b7} "@ + spec_dec_of(volume_percent as nat) + "%"@ + (if is_muted {
        " \u{1f6ab}"@
    } else {
        Seq::<char>::empty()
    }) + (if is_locked {
        " \u{b7} \u{1f512}"@
    } else {
        Seq::<char>::empty()
    })
}

/// Renders a device row's label.
pub fn to_label(
    name: &String,
    volume_percent: u32,
    is_default: bool,
    is_locked: bool,
    is_muted: bool,
) -> (label: String)
    ensures
        label@ == spec_label(name@, volume_percent, is_default, is_locked, is_muted),
{
    let default_indicator: &str = if is_default {
        " \u{b7} \u{2606}"
    } else {
        ""
    };
    let locked_indicator: &str = if is_locked {
        " \u{b7} \u{1f512}"
    } else {
        ""
    };
    let muted_indicator: &str = if is_muted {
        " \u{1f6ab}"
    } else {
        ""
    };
    let label = name.clone().concat(default_indicator).concat(" \u{b7} ").concat(
        u64_to_string(volume_percent as u64).as_str(),
    ).concat("%").concat(muted_indicator).concat(locked_indicator);
    proof {
        reveal_strlit("");
        assert(label@ =~= spec_label(name@, volume_percent, is_default, is_locked, is_muted));
    }
    label
}

/// One check item of the menu: its label, whether it can be clicked, its
/// check mark, and what a click on it means.
#[derive(Debug, Clone)]
pub struct CheckItemModel {
    pub label: String,
    pub enabled: bool,
    pub checked: bool,
    pub info: MenuItemDeviceInfo,
}

#[verifier::ext_equal]
pub ghost struct CheckItemModelView {
    pub label: Seq<char>,
    pub enabled: bool,
    pub checked: bool,
    pub info: crate::types::MenuItemDeviceInfoView,
}

impl View for CheckItemModel {
    type V = CheckItemModelView;

    open spec fn view(&self) -> CheckItemModelView {
        CheckItemModelView {
            label: self.label@,
            enabled: self.enabled,
            checked: self.checked,
            info: self.info@,
        }
    }
}

impl DeepView for CheckItemModel {
    type V = CheckItemModelView;

    open spec fn deep_view(&self) -> CheckItemModelView {
        self@
    }
}

/// One device's submenu: its row label and the four check items, rendered
/// in the order volume lock, unmute lock, a separator, then the two notify
/// items.
#[derive(Debug, Clone)]
pub struct DeviceMenuEntry {
    pub label: String,
    pub volume_lock: CheckItemModel,
    pub unmute_lock: CheckItemModel,
    pub volume_notify: CheckItemModel,
    pub unmute_notify: CheckItemModel,
}

#[verifier::ext_equal]
pub ghost struct DeviceMenuEntryView {
    pub label: Seq<char>,
    pub volume_lock: CheckItemModelView,
    pub unmute_lock: CheckItemModelView,
    pub volume_notify: CheckItemModelView,
    pub unmute_notify: CheckItemModelView,
}

impl View for DeviceMenuEntry {
    type V = DeviceMenuEntryView;

    open spec fn view(&self) -> DeviceMenuEntryView {
        DeviceMenuEntryView {
            label: self.label@,
            volume_lock: self.volume_lock@,
            unmute_lock: self.unmute_lock@,
            volume_notify: self.volume_notify@,
            unmute_notify: self.unmute_notify@,
        }
    }
}

impl DeepView for DeviceMenuEntry {
    type V = DeviceMenuEntryView;

    open spec fn deep_view(&self) -> DeviceMenuEntryView {
        self@
    }
}

/// The flags shown for a device: its stored settings, or all-off when it
/// has no entry. Only the four flags of the result are meaningful.
pub open spec fn spec_shown_flags(sv: StateView, id: Seq<char>) -> DeviceSettingsView {
    if has_device(sv.devices, id) {
        device_get(sv.devices, id)
    } else {
        DeviceSettingsView {
            is_volume_locked: false,
            volume_percent: 0,
            notify_on_volume_lock: false,
            is_unmute_locked: false,
            notify_on_unmute_lock: false,
            device_type: DeviceType::Output,
            name: Seq::empty(),
        }
    }
}

pub open spec fn spec_check_info(
    id: Seq<char>,
    setting_type: DeviceSettingType,
    name: Seq<char>,
    device_type: DeviceType,
) -> crate::types::MenuItemDeviceInfoView {
    crate::types::MenuItemDeviceInfoView { device_id: id, setting_type, name, device_type }
}

/// The whole submenu model of one shown device.
pub open spec fn spec_device_menu_entry(
    sv: StateView,
    d: MenuDeviceView,
    device_type: DeviceType,
    default_id: Option<Seq<char>>,
) -> DeviceMenuEntryView {
    let flags = spec_shown_flags(sv, d.id);
    let is_locked = flags.is_volume_locked || flags.is_unmute_locked;
    DeviceMenuEntryView {
        label: spec_label(
            d.name,
            d.volume_percent,
            default_id == Some(d.id),
            is_locked,
            d.is_muted,
        ),
        volume_lock: CheckItemModelView {
            label: "Keep volume locked"@,
            enabled: true,
            checked: flags.is_volume_locked,
            info: spec_check_info(d.id, DeviceSettingType::VolumeLock, d.name, device_type),
        },
        unmute_lock: CheckItemModelView {
            label: "Keep unmuted"@,
            enabled: true,
            checked: flags.is_unmute_locked,
            info: spec_check_info(d.id, DeviceSettingType::UnmuteLock, d.name, device_type),
        },
        volume_notify: CheckItemModelView {
            label: "Notify on volume restore"@,
            enabled: flags.is_volume_locked,
            checked: flags.notify_on_volume_lock,
            info: spec_check_info(d.id, DeviceSettingType::VolumeLockNotify, d.name, device_type),
        },
        unmute_notify: CheckItemModelView {
            label: "Notify on unmute"@,
            enabled: flags.is_unmute_locked,
            checked: flags.notify_on_unmute_lock,
            info: spec_check_info(d.id, DeviceSettingType::UnmuteLockNotify, d.name, device_type),
        },
    }
}

/// The table after the menu refreshed one shown device's stored name and
/// type.
pub open spec fn spec_refresh_one(
    devices: Seq<DeviceEntryView>,
    d: MenuDeviceView,
    device_type: DeviceType,
) -> Seq<DeviceEntryView> {
    if has_device(devices, d.id) {
        let x = device_index(devices, d.id);
        devices.update(
            x,
            DeviceEntryView {
                id: devices[x].id,
                settings: DeviceSettingsView { name: d.name, device_type, ..devices[x].settings },
            },
        )
    } else {
        devices
    }
}

/// The table after the menu refreshed every shown device, in order.
pub open spec fn spec_refresh_names(
    devices: Seq<DeviceEntryView>,
    shown: Seq<MenuDeviceView>,
    device_type: DeviceType,
) -> Seq<DeviceEntryView>
    decreases shown.len(),
{
    if shown.len() == 0 {
        devices
    } else {
        spec_refresh_one(
            spec_refresh_names(devices, shown.drop_last(), device_type),
            shown.last(),
            device_type,
        )
    }
}

/// Builds one device section: the submenu model of every shown device, in
/// order, and refreshes the stored name and type of each shown device that
/// has an entry (so later menus and migration see current names).
pub fn append_device_list_to_menu(
    state: &mut PersistentState,
    shown: &Vec<MenuDevice>,
    device_type: DeviceType,
    default_id: &Option<String>,
) -> (entries: Vec<DeviceMenuEntry>)
    requires
        old(state)@.wf(),
    ensures
        entries.deep_view().len() == shown.deep_view().len(),
        forall|x: int|
            0 <= x < shown.deep_view().len() ==> entries.deep_view()[x] == spec_device_menu_entry(
                old(state)@,
                shown.deep_view()[x],
                device_type,
                default_id.deep_view(),
            ),
        final(state)@ == (StateView {
            devices: spec_refresh_names(old(state)@.devices, shown.deep_view(), device_type),
            ..old(state)@
        }),
        final(state)@.wf(),
        old(state)@.is_pruned() ==> final(state)@.is_pruned(),
{
    let ghost pre = state@;
    let mut entries: Vec<DeviceMenuEntry> = Vec::new();
    let n = shown.len();
    for x in 0..n
        invariant
            n == shown.len(),
            pre == state@,
            state@.wf(),
            entries.deep_view().len() == x,
            forall|y: int|
                0 <= y < x ==> entries.deep_view()[y] == spec_device_menu_entry(
                    pre,
                    shown.deep_view()[y],
                    device_type,
                    default_id.deep_view(),
                ),
    {
        let d = &shown[x];
        let (is_volume_locked, notify_on_volume_lock, is_unmute_locked, notify_on_unmute_lock) =
            match state.devices_get(&d.id) {
            Some(s) => (
                s.is_volume_locked,
                s.notify_on_volume_lock,
                s.is_unmute_locked,
                s.notify_on_unmute_lock,
            ),
            None => (false, false, false, false),
        };
        let is_default = match default_id {
            Some(def) => def.eq(&d.id),
            None => false,
        };
        let is_locked = is_volume_locked || is_unmute_locked;
        let label = to_label(&d.name, d.volume_percent, is_default, is_locked, d.is_muted);
        let entry = DeviceMenuEntry {
            label,
            volume_lock: CheckItemModel {
                label: String::from_str("Keep volume locked"),
                enabled: true,
                checked: is_volume_locked,
                info: MenuItemDeviceInfo {
                    device_id: d.id.clone(),
                    setting_type: DeviceSettingType::VolumeLock,
                    name: d.name.clone(),
                    device_type,
                },
            },
            unmute_lock: CheckItemModel {
                label: String::from_str("Keep unmuted"),
                enabled: true,
                checked: is_unmute_locked,
                info: MenuItemDeviceInfo {
                    device_id: d.id.clone(),
                    setting_type: DeviceSettingType::UnmuteLock,
                    name: d.name.clone(),
                    device_type,
                },
            },
            volume_notify: CheckItemModel {
                label: String::from_str("Notify on volume restore"),
                enabled: is_volume_locked,
                checked: notify_on_volume_lock,
                info: MenuItemDeviceInfo {
                    device_id: d.id.clone(),
                    setting_type: DeviceSettingType::VolumeLockNotify,
                    name: d.name.clone(),
                    device_type,
                },
            },
            unmute_notify: CheckItemModel {
                label: String::from_str("Notify on unmute"),
                enabled: is_unmute_locked,
                checked: notify_on_unmute_lock,
                info: MenuItemDeviceInfo {
                    device_id: d.id.clone(),
                    setting_type: DeviceSettingType::UnmuteLockNotify,
                    name: d.name.clone(),
                    device_type,
                },
            },
        };
        proof {
            assert(entry@ =~= spec_device_menu_entry(
                pre,
                shown.deep_view()[x as int],
                device_type,
                default_id.deep_view(),
            ));
        }
        let ghost prev = entries.deep_view();
        entries.push(entry);
        proof {
            assert(entries.deep_view() =~= prev.push(entry@));
        }
    }
    let ghost shown_seq = shown.deep_view();
    proof {
        assert(shown_seq.take(0) =~= Seq::<MenuDeviceView>::empty());
    }
    for x in 0..n
        invariant
            n == shown.len(),
            shown_seq == shown.deep_view(),
            state@.wf(),
            state@ == (StateView {
                devices: spec_refresh_names(pre.devices, shown_seq.take(x as int), device_type),
                ..pre
            }),
            pre.is_pruned() ==> state@.is_pruned(),
            entries.deep_view().len() == n,
            forall|y: int|
                0 <= y < n ==> entries.deep_view()[y] == spec_device_menu_entry(
                    pre,
                    shown.deep_view()[y],
                    device_type,
                    default_id.deep_view(),
                ),
    {
        let ghost prefix1 = shown_seq.take(x as int + 1);
        proof {
            assert(prefix1.drop_last() =~= shown_seq.take(x as int));
            assert(prefix1.last() == shown_seq[x as int]);
        }
        let ghost cur = state@;
        let d = &shown[x];
        let present = refresh_entry(state, &d.id, &d.name, device_type);
        proof {
            assert(state@.devices =~= spec_refresh_one(
                cur.devices,
                shown_seq[x as int],
                device_type,
            ));
            assert(state@ =~= (StateView {
                devices: spec_refresh_names(pre.devices, prefix1, device_type),
                ..pre
            }));
        }
    }
    proof {
        assert(shown_seq.take(n as int) =~= shown_seq);
    }
    entries
}

/// Refreshes one entry's stored name and type in place; no entry, no
/// change.
fn refresh_entry(
    state: &mut PersistentState,
    id: &String,
    name: &String,
    device_type: DeviceType,
) -> (present: bool)
    requires
        old(state)@.wf(),
    ensures
        final(state)@ == (StateView {
            devices: spec_refresh_one(
                old(state)@.devices,
                MenuDeviceView { id: id@, name: name@, volume_percent: 0, is_muted: false },
                device_type,
            ),
            ..old(state)@
        }),
        final(state)@.wf(),
        old(state)@.is_pruned() ==> final(state)@.is_pruned(),
        present == has_device(old(state)@.devices, id@),
{
    let n = state.devices.len();
    for i in 0..n
        invariant
            n == state.devices.len(),
            state@.wf(),
            state@ == old(state)@,
            forall|j: int| 0 <= j < i ==> state@.devices[j].id != id@,
    {
        if state.devices[i].id.eq(id) {
            proof {
                lemma_device_index_unique(state@.devices, id@, i as int);
            }
            let entry_id = state.devices[i].id.clone();
            let entry_settings = state.devices[i].settings.duplicate();
            state.devices[i] = crate::state::DeviceEntry {
                id: entry_id,
                settings: crate::state::DeviceSettings {
                    name: name.clone(),
                    device_type,
                    ..entry_settings
                },
            };
            proof {
                let ghost dview = MenuDeviceView {
                    id: id@,
                    name: name@,
                    volume_percent: 0,
                    is_muted: false,
                };
                assert(final(state)@.devices =~= spec_refresh_one(
                    old(state)@.devices,
                    dview,
                    device_type,
                ));
                assert(final(state)@ =~= (StateView {
                    devices: spec_refresh_one(old(state)@.devices, dview, device_type),
                    ..old(state)@
                }));
                let post = state@;
                assert(post.wf()) by {
                    assert(forall|a: int|
                        0 <= a < post.devices.len() ==> (#[trigger] post.devices[a]).id == old(
                            state,
                        )@.devices[a].id);
                    assert(forall|a: int|
                        0 <= a < post.devices.len() ==> (#[trigger] post.devices[a])
                            .settings.volume_percent
                            == old(state)@.devices[a].settings.volume_percent);
                }
                if old(state)@.is_pruned() {
                    assert(post.is_pruned()) by {
                        assert(forall|a: int|
                            0 <= a < post.devices.len() ==> ((#[trigger] post.devices[a])
                                .settings.any_flag() == old(state)@.devices[a].settings.any_flag()
                                && post.devices[a].id == old(state)@.devices[a].id));
                    }
                }
            }
            return true;
        }
    }
    proof {
        assert(!has_device(state@.devices, id@));
        assert(final(state)@ =~= (StateView {
            devices: spec_refresh_one(
                old(state)@.devices,
                MenuDeviceView { id: id@, name: name@, volume_percent: 0, is_muted: false },
                device_type,
            ),
            ..old(state)@
        }));
    }
    false
}

/// One row of a priority section: the numbered label, the device it
/// stands for, and which of its move buttons are enabled. A click on a
/// row's buttons means move-up, move-down or remove-from-priority for
/// `device_id` in this section's device type.
#[derive(Debug, Clone)]
pub struct PriorityRowModel {
    pub label: String,
    pub device_id: String,
    pub name: String,
    pub move_up_enabled: bool,
    pub move_down_enabled: bool,
}

#[verifier::ext_equal]
pub ghost struct PriorityRowModelView {
    pub label: Seq<char>,
    pub device_id: Seq<char>,
    pub name: Seq<char>,
    pub move_up_enabled: bool,
    pub move_down_enabled: bool,
}

impl View for PriorityRowModel {
    type V = PriorityRowModelView;

    open spec fn view(&self) -> PriorityRowModelView {
        PriorityRowModelView {
            label: self.label@,
            device_id: self.device_id@,
            name: self.name@,
            move_up_enabled: self.move_up_enabled,
            move_down_enabled: self.move_down_enabled,
        }
    }
}

impl DeepView for PriorityRowModel {
    type V = PriorityRowModelView;

    open spec fn deep_view(&self) -> PriorityRowModelView {
        self@
    }
}

/// A device offered under "Add device"; a click means add-to-priority.
#[derive(Debug, Clone)]
pub struct AddCandidateModel {
    pub device_id: String,
    pub name: String,
}

#[verifier::ext_equal]
pub ghost struct AddCandidateModelView {
    pub device_id: Seq<char>,
    pub name: Seq<char>,
}

impl View for AddCandidateModel {
    type V = AddCandidateModelView;

    open spec fn view(&self) -> AddCandidateModelView {
        AddCandidateModelView { device_id: self.device_id@, name: self.name@ }
    }
}

impl DeepView for AddCandidateModel {
    type V = AddCandidateModelView;

    open spec fn deep_view(&self) -> AddCandidateModelView {
        self@
    }
}

/// One of the section's three check toggles.
#[derive(Debug, Clone)]
pub struct ToggleModel {
    pub label: String,
    pub enabled: bool,
    pub checked: bool,
}

#[verifier::ext_equal]
pub ghost struct ToggleModelView {
    pub label: Seq<char>,
    pub enabled: bool,
    pub checked: bool,
}

impl View for ToggleModel {
    type V = ToggleModelView;

    open spec fn view(&self) -> ToggleModelView {
        ToggleModelView { label: self.label@, enabled: self.enabled, checked: self.checked }
    }
}

/// One device type's priority section.
#[derive(Debug, Clone)]
pub struct PriorityMenuModel {
    pub heading: String,
    pub rows: Vec<PriorityRowModel>,
    pub add_enabled: bool,
    pub add_candidates: Vec<AddCandidateModel>,
    pub notify_on_restore: ToggleModel,
    pub switch_communication: ToggleModel,
    pub switch_foreground: ToggleModel,
}

#[verifier::ext_equal]
pub ghost struct PriorityMenuModelView {
    pub heading: Seq<char>,
    pub rows: Seq<PriorityRowModelView>,
    pub add_enabled: bool,
    pub add_candidates: Seq<AddCandidateModelView>,
    pub notify_on_restore: ToggleModelView,
    pub switch_communication: ToggleModelView,
    pub switch_foreground: ToggleModelView,
}

impl View for PriorityMenuModel {
    type V = PriorityMenuModelView;

    open spec fn view(&self) -> PriorityMenuModelView {
        PriorityMenuModelView {
            heading: self.heading@,
            rows: self.rows.deep_view(),
            add_enabled: self.add_enabled,
            add_candidates: self.add_candidates.deep_view(),
            notify_on_restore: self.notify_on_restore@,
            switch_communication: self.switch_communication@,
            switch_foreground: self.switch_foreground@,
        }
    }
}

/// The name a priority row or override label shows for a device id: the
/// stored name, else the live name, else a placeholder.
pub open spec fn spec_listed_name(
    sv: StateView,
    live: Seq<LiveDeviceView>,
    id: Seq<char>,
) -> Seq<char> {
    if has_device(sv.devices, id) {
        device_get(sv.devices, id).name
    } else if crate::live::live_has(live, id) {
        crate::live::live_get(live, id).name
    } else {
        "Unknown Device"@
    }
}

pub open spec fn spec_priority_row(
    sv: StateView,
    live: Seq<LiveDeviceView>,
    id: Seq<char>,
    x: int,
    len: int,
) -> PriorityRowModelView {
    let name = spec_listed_name(sv, live, id);
    PriorityRowModelView {
        label: spec_dec_of((x + 1) as nat) + ". "@ + name,
        device_id: id,
        name,
        move_up_enabled: x > 0,
        move_down_enabled: x + 1 < len,
    }
}

/// The devices offered under "Add device": the shown devices not yet in
/// the list, in shown order.
pub open spec fn spec_add_candidates(
    shown: Seq<MenuDeviceView>,
    list: Seq<Seq<char>>,
) -> Seq<AddCandidateModelView>
    decreases shown.len(),
{
    if shown.len() == 0 {
        Seq::empty()
    } else {
        let rest = spec_add_candidates(shown.drop_last(), list);
        if list.contains(shown.last().id) {
            rest
        } else {
            rest.push(
                AddCandidateModelView { device_id: shown.last().id, name: shown.last().name },
            )
        }
    }
}

pub open spec fn spec_priority_heading(device_type: DeviceType) -> Seq<char> {
    match device_type {
        DeviceType::Output => "Default output device priority"@,
        DeviceType::Input => "Default input device priority"@,
    }
}

/// Everything one priority section must show.
pub open spec fn priority_model_ok(
    m: PriorityMenuModelView,
    sv: StateView,
    live: Seq<LiveDeviceView>,
    device_type: DeviceType,
    temporary: Option<Seq<char>>,
    shown: Seq<MenuDeviceView>,
) -> bool {
    let list = sv.priority_list(device_type);
    let toggles_enabled = list.len() > 0 || temporary is Some;
    &&& m.heading == spec_priority_heading(device_type)
    &&& m.rows.len() == list.len()
    &&& forall|x: int|
        0 <= x < list.len() ==> m.rows[x] == spec_priority_row(
            sv,
            live,
            list[x],
            x,
            list.len() as int,
        )
    &&& m.add_candidates == spec_add_candidates(shown, list)
    &&& m.add_enabled == (spec_add_candidates(shown, list).len() > 0)
    &&& m.notify_on_restore == (ToggleModelView {
        label: "Notify on priority restore"@,
        enabled: toggles_enabled,
        checked: sv.notify_on_priority_restore(device_type),
    })
    &&& m.switch_communication == (ToggleModelView {
        label: "Also switch default communication device"@,
        enabled: toggles_enabled,
        checked: sv.switch_communication_device(device_type),
    })
    &&& m.switch_foreground == (ToggleModelView {
        label: "Also switch foreground program"@,
        enabled: toggles_enabled,
        checked: sv.switch_foreground_app(device_type),
    })
}

/// Resolves the display name for a listed device id.
fn listed_name(state: &PersistentState, live: &Vec<LiveDevice>, id: &String) -> (name: String)
    requires
        state@.wf(),
        crate::live::live_wf(live.deep_view()),
    ensures
        name@ == spec_listed_name(state@, live.deep_view(), id@),
{
    match state.devices_get(id) {
        Some(s) => s.name.clone(),
        None => match crate::live::live_find(live, id) {
            Some(d) => d.name.clone(),
            None => String::from_str("Unknown Device"),
        },
    }
}

/// Builds one device type's priority section.
pub fn append_priority_list_to_menu(
    state: &PersistentState,
    live: &Vec<LiveDevice>,
    device_type: DeviceType,
    temporary: &Option<String>,
    shown: &Vec<MenuDevice>,
) -> (model: PriorityMenuModel)
    requires
        state@.wf(),
        crate::live::live_wf(live.deep_view()),
    ensures
        priority_model_ok(
            model@,
            state@,
            live.deep_view(),
            device_type,
            temporary.deep_view(),
            shown.deep_view(),
        ),
{
    let list = state.get_priority_list(device_type);
    let n = list.len();
    let mut rows: Vec<PriorityRowModel> = Vec::new();
    for x in 0..n
        invariant
            n == list.len(),
            state@.wf(),
            crate::live::live_wf(live.deep_view()),
            list.deep_view() == state@.priority_list(device_type),
            rows.deep_view().len() == x,
            forall|y: int|
                0 <= y < x ==> rows.deep_view()[y] == spec_priority_row(
                    state@,
                    live.deep_view(),
                    list.deep_view()[y],
                    y,
                    n as int,
                ),
    {
        let id = &list[x];
        let name = listed_name(state, live, id);
        let label = u64_to_string((x + 1) as u64).concat(". ").concat(name.as_str());
        let row = PriorityRowModel {
            label,
            device_id: id.clone(),
            name,
            move_up_enabled: x > 0,
            move_down_enabled: x + 1 < n,
        };
        proof {
            assert(row@ =~= spec_priority_row(
                state@,
                live.deep_view(),
                list.deep_view()[x as int],
                x as int,
                n as int,
            ));
        }
        let ghost prev = rows.deep_view();
        rows.push(row);
        proof {
            assert(rows.deep_view() =~= prev.push(row@));
        }
    }
    let ghost shown_seq = shown.deep_view();
    proof {
        assert(shown_seq.take(0) =~= Seq::<MenuDeviceView>::empty());
    }
    let mut add_candidates: Vec<AddCandidateModel> = Vec::new();
    let m = shown.len();
    for x in 0..m
        invariant
            m == shown.len(),
            state@.wf(),
            shown_seq == shown.deep_view(),
            list.deep_view() == state@.priority_list(device_type),
            add_candidates.deep_view() == spec_add_candidates(
                shown_seq.take(x as int),
                list.deep_view(),
            ),
    {
        let ghost prefix1 = shown_seq.take(x as int + 1);
        proof {
            assert(prefix1.drop_last() =~= shown_seq.take(x as int));
            assert(prefix1.last() == shown_seq[x as int]);
        }
        let d = &shown[x];
        if !list_contains(list, &d.id) {
            let ghost prev = add_candidates.deep_view();
            add_candidates.push(
                AddCandidateModel { device_id: d.id.clone(), name: d.name.clone() },
            );
            proof {
                assert(add_candidates.deep_view() =~= prev.push(
                    AddCandidateModelView {
                        device_id: shown_seq[x as int].id,
                        name: shown_seq[x as int].name,
                    },
                ));
            }
        }
    }
    proof {
        assert(shown_seq.take(m as int) =~= shown_seq);
    }
    let toggles_enabled = !list.is_empty() || temporary.is_some();
    let heading = match device_type {
        DeviceType::Output => String::from_str("Default output device priority"),
        DeviceType::Input => String::from_str("Default input device priority"),
    };
    let add_enabled = add_candidates.len() > 0;
    PriorityMenuModel {
        heading,
        rows,
        add_enabled,
        add_candidates,
        notify_on_restore: ToggleModel {
            label: String::from_str("Notify on priority restore"),
            enabled: toggles_enabled,
            checked: state.get_notify_on_priority_restore(device_type),
        },
        switch_communication: ToggleModel {
            label: String::from_str("Also switch default communication device"),
            enabled: toggles_enabled,
            checked: state.get_switch_communication_device(device_type),
        },
        switch_foreground: ToggleModel {
            label: String::from_str("Also switch foreground program"),
            enabled: toggles_enabled,
            checked: state.get_switch_foreground_app(device_type),
        },
    }
}

/// One device type's session-override submenu.
#[derive(Debug, Clone)]
pub struct TemporaryMenuModel {
    pub label: String,
    pub items: Vec<CheckItemModel>,
}

#[verifier::ext_equal]
pub ghost struct TemporaryMenuModelView {
    pub label: Seq<char>,
    pub items: Seq<CheckItemModelView>,
}

impl View for TemporaryMenuModel {
    type V = TemporaryMenuModelView;

    open spec fn view(&self) -> TemporaryMenuModelView {
        TemporaryMenuModelView { label: self.label@, items: self.items.deep_view() }
    }
}

pub open spec fn spec_temporary_prefix(device_type: DeviceType) -> Seq<char> {
    match device_type {
        DeviceType::Output => "Output device"@,
        DeviceType::Input => "Input device"@,
    }
}

/// Everything one session-override submenu must show.
pub open spec fn temporary_model_ok(
    m: TemporaryMenuModelView,
    sv: StateView,
    live: Seq<LiveDeviceView>,
    device_type: DeviceType,
    temporary: Option<Seq<char>>,
    shown: Seq<MenuDeviceView>,
) -> bool {
    &&& m.label == (match temporary {
        Some(tid) => spec_temporary_prefix(device_type) + ": "@ + spec_listed_name(sv, live, tid),
        None => spec_temporary_prefix(device_type),
    })
    &&& m.items.len() == shown.len()
    &&& forall|x: int|
        0 <= x < shown.len() ==> m.items[x] == (CheckItemModelView {
            label: shown[x].name,
            enabled: true,
            checked: temporary == Some(shown[x].id),
            info: spec_check_info(
                shown[x].id,
                DeviceSettingType::SetTemporaryPriority,
                shown[x].name,
                device_type,
            ),
        })
}

/// Builds one device type's session-override submenu.
pub fn build_temporary_menu(
    state: &PersistentState,
    live: &Vec<LiveDevice>,
    device_type: DeviceType,
    temporary: &Option<String>,
    shown: &Vec<MenuDevice>,
) -> (model: TemporaryMenuModel)
    requires
        state@.wf(),
        crate::live::live_wf(live.deep_view()),
    ensures
        temporary_model_ok(
            model@,
            state@,
            live.deep_view(),
            device_type,
            temporary.deep_view(),
            shown.deep_view(),
        ),
{
    let prefix: &str = match device_type {
        DeviceType::Output => "Output device",
        DeviceType::Input => "Input device",
    };
    let label = match temporary {
        Some(tid) => {
            let name = listed_name(state, live, tid);
            String::from_str(prefix).concat(": ").concat(name.as_str())
        },
        None => String::from_str(prefix),
    };
    let mut items: Vec<CheckItemModel> = Vec::new();
    let m = shown.len();
    for x in 0..m
        invariant
            m == shown.len(),
            items.deep_view().len() == x,
            forall|y: int|
                0 <= y < x ==> items.deep_view()[y] == (CheckItemModelView {
                    label: shown.deep_view()[y].name,
                    enabled: true,
                    checked: temporary.deep_view() == Some(shown.deep_view()[y].id),
                    info: spec_check_info(
                        shown.deep_view()[y].id,
                        DeviceSettingType::SetTemporaryPriority,
                        shown.deep_view()[y].name,
                        device_type,
                    ),
                }),
    {
        let d = &shown[x];
        let checked = match temporary {
            Some(tid) => tid.eq(&d.id),
            None => false,
        };
        let item = CheckItemModel {
            label: d.name.clone(),
            enabled: true,
            checked,
            info: MenuItemDeviceInfo {
                device_id: d.id.clone(),
                setting_type: DeviceSettingType::SetTemporaryPriority,
                name: d.name.clone(),
                device_type,
            },
        };
        proof {
            assert(item@ =~= (CheckItemModelView {
                label: shown.deep_view()[x as int].name,
                enabled: true,
                checked: temporary.deep_view() == Some(shown.deep_view()[x as int].id),
                info: spec_check_info(
                    shown.deep_view()[x as int].id,
                    DeviceSettingType::SetTemporaryPriority,
                    shown.deep_view()[x as int].name,
                    device_type,
                ),
            }));
        }
        let ghost prev = items.deep_view();
        items.push(item);
        proof {
            assert(items.deep_view() =~= prev.push(item@));
        }
    }
    TemporaryMenuModel { label, items }
}

/// The whole tray menu, top to bottom: the two device sections, the two
/// priority sections, the session-override heading and submenus, then the
/// auto-launch toggle and the quit entry, separated as the presenter
/// draws them.
#[derive(Debug, Clone)]
pub struct TrayMenuModel {
    pub output_devices_heading: String,
    pub output_devices: Vec<DeviceMenuEntry>,
    pub input_devices_heading: String,
    pub input_devices: Vec<DeviceMenuEntry>,
    pub output_priority: PriorityMenuModel,
    pub input_priority: PriorityMenuModel,
    pub temporary_heading: String,
    pub output_temporary: TemporaryMenuModel,
    pub input_temporary: TemporaryMenuModel,
    pub auto_launch_label: String,
    pub auto_launch_checked: bool,
    pub quit_label: String,
}

/// Rebuilds the whole tray menu model. The device sections refresh the
/// stored name and type of every shown device first (output, then input);
/// the priority and override sections read the refreshed state.
pub fn rebuild_tray_menu(
    state: &mut PersistentState,
    live: &Vec<LiveDevice>,
    shown_output: &Vec<MenuDevice>,
    shown_input: &Vec<MenuDevice>,
    temporary: &crate::menu::TemporaryPriorities,
    output_default_id: &Option<String>,
    input_default_id: &Option<String>,
    auto_launch_enabled: bool,
) -> (model: TrayMenuModel)
    requires
        old(state)@.wf(),
        crate::live::live_wf(live.deep_view()),
    ensures
        final(state)@ == (StateView {
            devices: spec_refresh_names(
                spec_refresh_names(
                    old(state)@.devices,
                    shown_output.deep_view(),
                    DeviceType::Output,
                ),
                shown_input.deep_view(),
                DeviceType::Input,
            ),
            ..old(state)@
        }),
        final(state)@.wf(),
        old(state)@.is_pruned() ==> final(state)@.is_pruned(),
        model.output_devices.deep_view().len() == shown_output.deep_view().len(),
        forall|x: int|
            0 <= x < shown_output.deep_view().len() ==> model.output_devices.deep_view()[x]
                == spec_device_menu_entry(
                old(state)@,
                shown_output.deep_view()[x],
                DeviceType::Output,
                output_default_id.deep_view(),
            ),
        model.input_devices.deep_view().len() == shown_input.deep_view().len(),
        forall|x: int|
            0 <= x < shown_input.deep_view().len() ==> model.input_devices.deep_view()[x]
                == spec_device_menu_entry(
                (StateView {
                    devices: spec_refresh_names(
                        old(state)@.devices,
                        shown_output.deep_view(),
                        DeviceType::Output,
                    ),
                    ..old(state)@
                }),
                shown_input.deep_view()[x],
                DeviceType::Input,
                input_default_id.deep_view(),
            ),
        priority_model_ok(
            model.output_priority@,
            final(state)@,
            live.deep_view(),
            DeviceType::Output,
            temporary@.output,
            shown_output.deep_view(),
        ),
        priority_model_ok(
            model.input_priority@,
            final(state)@,
            live.deep_view(),
            DeviceType::Input,
            temporary@.input,
            shown_input.deep_view(),
        ),
        temporary_model_ok(
            model.output_temporary@,
            final(state)@,
            live.deep_view(),
            DeviceType::Output,
            temporary@.output,
            shown_output.deep_view(),
        ),
        temporary_model_ok(
            model.input_temporary@,
            final(state)@,
            live.deep_view(),
            DeviceType::Input,
            temporary@.input,
            shown_input.deep_view(),
        ),
        model.output_devices_heading@ == "Output devices"@,
        model.input_devices_heading@ == "Input devices"@,
        model.temporary_heading@ == "Temporary default device priority"@,
        model.auto_launch_label@ == "Auto launch on startup"@,
        model.auto_launch_checked == auto_launch_enabled,
        model.quit_label@ == "Quit"@,
{
    let output_devices = append_device_list_to_menu(
        state,
        shown_output,
        DeviceType::Output,
        output_default_id,
    );
    let input_devices = append_device_list_to_menu(
        state,
        shown_input,
        DeviceType::Input,
        input_default_id,
    );
    let output_priority = append_priority_list_to_menu(
        state,
        live,
        DeviceType::Output,
        temporary.of_type(DeviceType::Output),
        shown_output,
    );
    let input_priority = append_priority_list_to_menu(
        state,
        live,
        DeviceType::Input,
        temporary.of_type(DeviceType::Input),
        shown_input,
    );
    let output_temporary = build_temporary_menu(
        state,
        live,
        DeviceType::Output,
        temporary.of_type(DeviceType::Output),
        shown_output,
    );
    let input_temporary = build_temporary_menu(
        state,
        live,
        DeviceType::Input,
        temporary.of_type(DeviceType::Input),
        shown_input,
    );
    TrayMenuModel {
        output_devices_heading: String::from_str("Output devices"),
        output_devices,
        input_devices_heading: String::from_str("Input devices"),
        input_devices,
        output_priority,
        input_priority,
        temporary_heading: String::from_str("Temporary default device priority"),
        output_temporary,
        input_temporary,
        auto_launch_label: String::from_str("Auto launch on startup"),
        auto_launch_checked: auto_launch_enabled,
        quit_label: String::from_str("Quit"),
    }
}

} // verus!
