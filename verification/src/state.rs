//! The persisted desired-state model: per-device lock/notify settings, the
//! two priority lists, and the global toggles. The device table is an
//! association vector with unique ids, read and written through the methods
//! here; `is_pruned` is the garbage-collection invariant that every mutation
//! of the state preserves.

use vstd::prelude::*;

use crate::types::DeviceType;

verus! {

/// The persisted settings of one device: which locks are active, the locked
/// volume as a whole percent, whether corrections notify, and the last-known
/// cleaned friendly name used for identity migration and display.
#[derive(Debug, Clone)]
pub struct DeviceSettings {
    pub is_volume_locked: bool,
    pub volume_percent: u32,
    pub notify_on_volume_lock: bool,
    pub is_unmute_locked: bool,
    pub notify_on_unmute_lock: bool,
    pub device_type: DeviceType,
    pub name: String,
}

#[verifier::ext_equal]
pub ghost struct DeviceSettingsView {
    pub is_volume_locked: bool,
    pub volume_percent: u32,
    pub notify_on_volume_lock: bool,
    pub is_unmute_locked: bool,
    pub notify_on_unmute_lock: bool,
    pub device_type: DeviceType,
    pub name: Seq<char>,
}

impl View for DeviceSettings {
    type V = DeviceSettingsView;

    open spec fn view(&self) -> DeviceSettingsView {
        DeviceSettingsView {
            is_volume_locked: self.is_volume_locked,
            volume_percent: self.volume_percent,
            notify_on_volume_lock: self.notify_on_volume_lock,
            is_unmute_locked: self.is_unmute_locked,
            notify_on_unmute_lock: self.notify_on_unmute_lock,
            device_type: self.device_type,
            name: self.name@,
        }
    }
}

impl DeviceSettingsView {
    /// Whether any of the four per-device flags is set. An entry with no
    /// flag set is retained only while a priority list references it.
    pub open spec fn any_flag(self) -> bool {
        self.is_volume_locked || self.is_unmute_locked || self.notify_on_volume_lock
            || self.notify_on_unmute_lock
    }

    /// A stored volume is a percentage: at most 100.
    pub open spec fn wf(self) -> bool {
        self.volume_percent <= 100
    }
}

impl DeviceSettings {
    /// A copy whose abstract value is known to equal this one's.
    pub fn duplicate(&self) -> (copy: Self)
        ensures
            copy@ == self@,
    {
        DeviceSettings {
            is_volume_locked: self.is_volume_locked,
            volume_percent: self.volume_percent,
            notify_on_volume_lock: self.notify_on_volume_lock,
            is_unmute_locked: self.is_unmute_locked,
            notify_on_unmute_lock: self.notify_on_unmute_lock,
            device_type: self.device_type,
            name: self.name.clone(),
        }
    }
}

/// One row of the device table.
#[derive(Debug, Clone)]
pub struct DeviceEntry {
    pub id: String,
    pub settings: DeviceSettings,
}

#[verifier::ext_equal]
pub ghost struct DeviceEntryView {
    pub id: Seq<char>,
    pub settings: DeviceSettingsView,
}

impl View for DeviceEntry {
    type V = DeviceEntryView;

    open spec fn view(&self) -> DeviceEntryView {
        DeviceEntryView { id: self.id@, settings: self.settings@ }
    }
}

impl DeepView for DeviceEntry {
    type V = DeviceEntryView;

    open spec fn deep_view(&self) -> DeviceEntryView {
        self@
    }
}

/// The root aggregate, loaded once at startup and owned exclusively by the
/// event-processing loop.
#[derive(Debug, Clone)]
pub struct PersistentState {
    pub devices: Vec<DeviceEntry>,
    pub output_priority_list: Vec<String>,
    pub input_priority_list: Vec<String>,
    pub notify_on_priority_restore_output: bool,
    pub notify_on_priority_restore_input: bool,
    pub switch_communication_device_output: bool,
    pub switch_communication_device_input: bool,
    pub switch_foreground_app_output: bool,
    pub switch_foreground_app_input: bool,
}

#[verifier::ext_equal]
pub ghost struct StateView {
    pub devices: Seq<DeviceEntryView>,
    pub output_priority_list: Seq<Seq<char>>,
    pub input_priority_list: Seq<Seq<char>>,
    pub notify_on_priority_restore_output: bool,
    pub notify_on_priority_restore_input: bool,
    pub switch_communication_device_output: bool,
    pub switch_communication_device_input: bool,
    pub switch_foreground_app_output: bool,
    pub switch_foreground_app_input: bool,
}

impl View for PersistentState {
    type V = StateView;

    open spec fn view(&self) -> StateView {
        StateView {
            devices: self.devices.deep_view(),
            output_priority_list: self.output_priority_list.deep_view(),
            input_priority_list: self.input_priority_list.deep_view(),
            notify_on_priority_restore_output: self.notify_on_priority_restore_output,
            notify_on_priority_restore_input: self.notify_on_priority_restore_input,
            switch_communication_device_output: self.switch_communication_device_output,
            switch_communication_device_input: self.switch_communication_device_input,
            switch_foreground_app_output: self.switch_foreground_app_output,
            switch_foreground_app_input: self.switch_foreground_app_input,
        }
    }
}

/// Whether the table holds an entry for `id`.
pub open spec fn has_device(devices: Seq<DeviceEntryView>, id: Seq<char>) -> bool {
    exists|i: int| 0 <= i < devices.len() && devices[i].id == id
}

/// The index of the entry for `id`; meaningful only when `has_device` holds
/// and the ids are unique.
pub open spec fn device_index(devices: Seq<DeviceEntryView>, id: Seq<char>) -> int {
    choose|i: int| 0 <= i < devices.len() && devices[i].id == id
}

/// The settings stored for `id`.
pub open spec fn device_get(devices: Seq<DeviceEntryView>, id: Seq<char>) -> DeviceSettingsView {
    devices[device_index(devices, id)].settings
}

/// Insert-or-overwrite: the table after storing `settings` under `id`.
pub open spec fn spec_devices_insert(
    devices: Seq<DeviceEntryView>,
    id: Seq<char>,
    settings: DeviceSettingsView,
) -> Seq<DeviceEntryView> {
    if has_device(devices, id) {
        devices.update(device_index(devices, id), DeviceEntryView { id, settings })
    } else {
        devices.push(DeviceEntryView { id, settings })
    }
}

/// The table after deleting the entry for `id`, if any.
pub open spec fn spec_devices_remove(
    devices: Seq<DeviceEntryView>,
    id: Seq<char>,
) -> Seq<DeviceEntryView> {
    if has_device(devices, id) {
        devices.remove(device_index(devices, id))
    } else {
        devices
    }
}

/// No two rows share an id.
pub open spec fn unique_ids(devices: Seq<DeviceEntryView>) -> bool {
    forall|i: int, j: int|
        0 <= i < devices.len() && 0 <= j < devices.len() && i != j ==> devices[i].id != devices[j].id
}

/// No two rows share an id, and every row's settings are well formed.
pub open spec fn devices_wf(devices: Seq<DeviceEntryView>) -> bool {
    &&& unique_ids(devices)
    &&& forall|i: int| 0 <= i < devices.len() ==> (#[trigger] devices[i]).settings.wf()
}

/// With unique ids, any matching index is the `device_index`.
pub proof fn lemma_device_index_unique(devices: Seq<DeviceEntryView>, id: Seq<char>, i: int)
    requires
        unique_ids(devices),
        0 <= i < devices.len(),
        devices[i].id == id,
    ensures
        has_device(devices, id),
        device_index(devices, id) == i,
{
    assert(has_device(devices, id));
    let j = device_index(devices, id);
    assert(0 <= j < devices.len() && devices[j].id == id);
    if i != j {
        assert(devices[i].id != devices[j].id);
    }
}

/// `sv` with the priority list of `device_type` replaced by `list`.
pub open spec fn with_priority_list(
    sv: StateView,
    device_type: DeviceType,
    list: Seq<Seq<char>>,
) -> StateView {
    match device_type {
        DeviceType::Output => StateView { output_priority_list: list, ..sv },
        DeviceType::Input => StateView { input_priority_list: list, ..sv },
    }
}

/// `sv` with the notify-on-priority-restore toggle of `device_type` set.
pub open spec fn with_notify_on_priority_restore(
    sv: StateView,
    device_type: DeviceType,
    notify: bool,
) -> StateView {
    match device_type {
        DeviceType::Output => StateView { notify_on_priority_restore_output: notify, ..sv },
        DeviceType::Input => StateView { notify_on_priority_restore_input: notify, ..sv },
    }
}

/// `sv` with the switch-communication-device toggle of `device_type` set.
pub open spec fn with_switch_communication_device(
    sv: StateView,
    device_type: DeviceType,
    switch: bool,
) -> StateView {
    match device_type {
        DeviceType::Output => StateView { switch_communication_device_output: switch, ..sv },
        DeviceType::Input => StateView { switch_communication_device_input: switch, ..sv },
    }
}

/// `sv` with the switch-foreground-app toggle of `device_type` set.
pub open spec fn with_switch_foreground_app(
    sv: StateView,
    device_type: DeviceType,
    switch: bool,
) -> StateView {
    match device_type {
        DeviceType::Output => StateView { switch_foreground_app_output: switch, ..sv },
        DeviceType::Input => StateView { switch_foreground_app_input: switch, ..sv },
    }
}

impl StateView {
    pub open spec fn priority_list(self, device_type: DeviceType) -> Seq<Seq<char>> {
        match device_type {
            DeviceType::Output => self.output_priority_list,
            DeviceType::Input => self.input_priority_list,
        }
    }

    pub open spec fn notify_on_priority_restore(self, device_type: DeviceType) -> bool {
        match device_type {
            DeviceType::Output => self.notify_on_priority_restore_output,
            DeviceType::Input => self.notify_on_priority_restore_input,
        }
    }

    pub open spec fn switch_communication_device(self, device_type: DeviceType) -> bool {
        match device_type {
            DeviceType::Output => self.switch_communication_device_output,
            DeviceType::Input => self.switch_communication_device_input,
        }
    }

    pub open spec fn switch_foreground_app(self, device_type: DeviceType) -> bool {
        match device_type {
            DeviceType::Output => self.switch_foreground_app_output,
            DeviceType::Input => self.switch_foreground_app_input,
        }
    }

    /// Whether `id` stands in either priority list.
    pub open spec fn referenced(self, id: Seq<char>) -> bool {
        self.output_priority_list.contains(id) || self.input_priority_list.contains(id)
    }

    /// The garbage-collection invariant: an entry whose four flags are all
    /// clear exists only while a priority list references its id.
    pub open spec fn is_pruned(self) -> bool {
        forall|i: int|
            0 <= i < self.devices.len() ==> ((#[trigger] self.devices[i]).settings.any_flag()
                || self.referenced(self.devices[i].id))
    }

    pub open spec fn wf(self) -> bool {
        devices_wf(self.devices)
    }

    /// The pruning invariant in its typed form: an entry with no flag set
    /// is referenced by the priority list of its own type. States built by
    /// the menu satisfy it, since a device is only ever added to the list
    /// of its own type.
    pub open spec fn is_pruned_typed(self) -> bool {
        forall|i: int|
            0 <= i < self.devices.len() ==> ((#[trigger] self.devices[i]).settings.any_flag()
                || self.priority_list(self.devices[i].settings.device_type).contains(
                self.devices[i].id,
            ))
    }
}

/// The typed pruning invariant implies the plain one.
pub proof fn lemma_pruned_typed_implies_pruned(sv: StateView)
    requires
        sv.is_pruned_typed(),
    ensures
        sv.is_pruned(),
{
    assert forall|i: int|
        0 <= i < sv.devices.len() implies ((#[trigger] sv.devices[i]).settings.any_flag()
        || sv.referenced(sv.devices[i].id)) by {
        if !sv.devices[i].settings.any_flag() {
            match sv.devices[i].settings.device_type {
                DeviceType::Output => {
                    assert(sv.output_priority_list.contains(sv.devices[i].id));
                },
                DeviceType::Input => {
                    assert(sv.input_priority_list.contains(sv.devices[i].id));
                },
            }
        }
    }
}

impl PersistentState {
    /// The state a fresh install starts from: nothing tracked, and both
    /// communication-device switches enabled.
    pub fn new() -> (s: Self)
        ensures
            s@.devices.len() == 0,
            s@.output_priority_list.len() == 0,
            s@.input_priority_list.len() == 0,
            !s@.notify_on_priority_restore_output,
            !s@.notify_on_priority_restore_input,
            s@.switch_communication_device_output,
            s@.switch_communication_device_input,
            !s@.switch_foreground_app_output,
            !s@.switch_foreground_app_input,
            s@.wf(),
            s@.is_pruned(),
    {
        PersistentState {
            devices: Vec::new(),
            output_priority_list: Vec::new(),
            input_priority_list: Vec::new(),
            notify_on_priority_restore_output: false,
            notify_on_priority_restore_input: false,
            switch_communication_device_output: true,
            switch_communication_device_input: true,
            switch_foreground_app_output: false,
            switch_foreground_app_input: false,
        }
    }

    pub fn get_priority_list(&self, device_type: DeviceType) -> (list: &Vec<String>)
        ensures
            list.deep_view() == self@.priority_list(device_type),
    {
        match device_type {
            DeviceType::Output => &self.output_priority_list,
            DeviceType::Input => &self.input_priority_list,
        }
    }

    pub fn set_notify_on_priority_restore(&mut self, device_type: DeviceType, notify: bool)
        ensures
            final(self)@ == with_notify_on_priority_restore(old(self)@, device_type, notify),
    {
        match device_type {
            DeviceType::Output => self.notify_on_priority_restore_output = notify,
            DeviceType::Input => self.notify_on_priority_restore_input = notify,
        }
    }

    pub fn get_notify_on_priority_restore(&self, device_type: DeviceType) -> (notify: bool)
        ensures
            notify == self@.notify_on_priority_restore(device_type),
    {
        match device_type {
            DeviceType::Output => self.notify_on_priority_restore_output,
            DeviceType::Input => self.notify_on_priority_restore_input,
        }
    }

    pub fn set_switch_communication_device(&mut self, device_type: DeviceType, switch: bool)
        ensures
            final(self)@ == with_switch_communication_device(old(self)@, device_type, switch),
    {
        match device_type {
            DeviceType::Output => self.switch_communication_device_output = switch,
            DeviceType::Input => self.switch_communication_device_input = switch,
        }
    }

    pub fn get_switch_communication_device(&self, device_type: DeviceType) -> (switch: bool)
        ensures
            switch == self@.switch_communication_device(device_type),
    {
        match device_type {
            DeviceType::Output => self.switch_communication_device_output,
            DeviceType::Input => self.switch_communication_device_input,
        }
    }

    pub fn set_switch_foreground_app(&mut self, device_type: DeviceType, switch: bool)
        ensures
            final(self)@ == with_switch_foreground_app(old(self)@, device_type, switch),
    {
        match device_type {
            DeviceType::Output => self.switch_foreground_app_output = switch,
            DeviceType::Input => self.switch_foreground_app_input = switch,
        }
    }

    pub fn get_switch_foreground_app(&self, device_type: DeviceType) -> (switch: bool)
        ensures
            switch == self@.switch_foreground_app(device_type),
    {
        match device_type {
            DeviceType::Output => self.switch_foreground_app_output,
            DeviceType::Input => self.switch_foreground_app_input,
        }
    }

    /// Looks up the settings stored for `id`.
    pub fn devices_get(&self, id: &String) -> (settings: Option<&DeviceSettings>)
        requires
            self@.wf(),
        ensures
            match settings {
                Some(s) => has_device(self@.devices, id@) && s@ == device_get(self@.devices, id@),
                None => !has_device(self@.devices, id@),
            },
    {
        let n = self.devices.len();
        for i in 0..n
            invariant
                n == self.devices.len(),
                self@.wf(),
                forall|j: int| 0 <= j < i ==> self@.devices[j].id != id@,
        {
            if self.devices[i].id.eq(id) {
                proof {
                    lemma_device_index_unique(self@.devices, id@, i as int);
                }
                return Some(&self.devices[i].settings);
            }
        }
        None
    }

    /// Stores `settings` under `id`, overwriting any previous entry.
    pub fn devices_insert(&mut self, id: String, settings: DeviceSettings)
        requires
            old(self)@.wf(),
        ensures
            final(self)@ == (StateView {
                devices: spec_devices_insert(old(self)@.devices, id@, settings@),
                ..old(self)@
            }),
            settings@.wf() ==> final(self)@.wf(),
    {
        let n = self.devices.len();
        for i in 0..n
            invariant
                n == self.devices.len(),
                self@.wf(),
                self@ == old(self)@,
                forall|j: int| 0 <= j < i ==> self@.devices[j].id != id@,
        {
            if self.devices[i].id.eq(&id) {
                proof {
                    lemma_device_index_unique(self@.devices, id@, i as int);
                }
                self.devices[i] = DeviceEntry { id, settings };
                proof {
                    assert(final(self)@.devices =~= spec_devices_insert(
                        old(self)@.devices,
                        id@,
                        settings@,
                    ));
                    assert(final(self)@ =~= (StateView {
                        devices: spec_devices_insert(old(self)@.devices, id@, settings@),
                        ..old(self)@
                    }));
                }
                return ;
            }
        }
        self.devices.push(DeviceEntry { id, settings });
        proof {
            assert(!has_device(old(self)@.devices, id@));
            assert(final(self)@.devices =~= spec_devices_insert(
                old(self)@.devices,
                id@,
                settings@,
            ));
            assert(final(self)@ =~= (StateView {
                devices: spec_devices_insert(old(self)@.devices, id@, settings@),
                ..old(self)@
            }));
        }
    }

    /// Deletes the entry for `id`, if any.
    pub fn devices_remove(&mut self, id: &String)
        requires
            old(self)@.wf(),
        ensures
            final(self)@ == (StateView {
                devices: spec_devices_remove(old(self)@.devices, id@),
                ..old(self)@
            }),
            final(self)@.wf(),
    {
        let n = self.devices.len();
        for i in 0..n
            invariant
                n == self.devices.len(),
                self@.wf(),
                self@ == old(self)@,
                forall|j: int| 0 <= j < i ==> self@.devices[j].id != id@,
        {
            if self.devices[i].id.eq(id) {
                proof {
                    lemma_device_index_unique(self@.devices, id@, i as int);
                }
                self.devices.remove(i);
                proof {
                    assert(final(self)@.devices =~= spec_devices_remove(old(self)@.devices, id@));
                    assert(final(self)@ =~= (StateView {
                        devices: spec_devices_remove(old(self)@.devices, id@),
                        ..old(self)@
                    }));
                }
                return ;
            }
        }
        proof {
            assert(!has_device(self@.devices, id@));
            assert(final(self)@ =~= (StateView {
                devices: spec_devices_remove(old(self)@.devices, id@),
                ..old(self)@
            }));
        }
    }
}

/// Whether `list` holds `id`.
pub fn list_contains(list: &Vec<String>, id: &String) -> (found: bool)
    ensures
        found == list.deep_view().contains(id@),
{
    let n = list.len();
    for i in 0..n
        invariant
            n == list.len(),
            forall|j: int| 0 <= j < i ==> list.deep_view()[j] != id@,
    {
        if list[i].eq(id) {
            proof {
                assert(list.deep_view()[i as int] == id@);
            }
            return true;
        }
    }
    proof {
        if list.deep_view().contains(id@) {
            let w = choose|w: int| 0 <= w < list.deep_view().len() && list.deep_view()[w] == id@;
            assert(list.deep_view()[w] != id@);
        }
    }
    false
}

/// Storing an entry that has a flag set, or whose id a priority list
/// references, keeps the state pruned.
pub proof fn lemma_insert_preserves_pruned(sv: StateView, id: Seq<char>, s: DeviceSettingsView)
    requires
        sv.is_pruned(),
        s.any_flag() || sv.referenced(id),
    ensures
        (StateView { devices: spec_devices_insert(sv.devices, id, s), ..sv }).is_pruned(),
{
    let post = StateView { devices: spec_devices_insert(sv.devices, id, s), ..sv };
    assert forall|i: int|
        0 <= i < post.devices.len() implies ((#[trigger] post.devices[i]).settings.any_flag()
        || post.referenced(post.devices[i].id)) by {
        if has_device(sv.devices, id) {
            let k = device_index(sv.devices, id);
            if i != k {
                assert(post.devices[i] == sv.devices[i]);
            }
        } else {
            if i < sv.devices.len() {
                assert(post.devices[i] == sv.devices[i]);
            }
        }
    }
}

/// Deleting an entry keeps the state pruned.
pub proof fn lemma_remove_preserves_pruned(sv: StateView, id: Seq<char>)
    requires
        sv.is_pruned(),
    ensures
        (StateView { devices: spec_devices_remove(sv.devices, id), ..sv }).is_pruned(),
{
    let post = StateView { devices: spec_devices_remove(sv.devices, id), ..sv };
    assert forall|i: int|
        0 <= i < post.devices.len() implies ((#[trigger] post.devices[i]).settings.any_flag()
        || post.referenced(post.devices[i].id)) by {
        if has_device(sv.devices, id) {
            let k = device_index(sv.devices, id);
            if i < k {
                assert(post.devices[i] == sv.devices[i]);
            } else {
                assert(post.devices[i] == sv.devices[i + 1]);
            }
        } else {
            assert(post.devices[i] == sv.devices[i]);
        }
    }
}

/// Swapping two positions of a sequence changes no membership.
pub proof fn lemma_swap_preserves_contains(l: Seq<Seq<char>>, p: int, q: int)
    requires
        0 <= p < l.len(),
        0 <= q < l.len(),
    ensures
        forall|x: Seq<char>|
            #[trigger] l.update(p, l[q]).update(q, l[p]).contains(x) == l.contains(x),
{
    let sw = l.update(p, l[q]).update(q, l[p]);
    assert forall|x: Seq<char>| #[trigger] sw.contains(x) == l.contains(x) by {
        if sw.contains(x) {
            let i = choose|i: int| 0 <= i < sw.len() && sw[i] == x;
            if i == q {
                assert(l[p] == x);
            } else if i == p {
                assert(l[q] == x);
            } else {
                assert(l[i] == x);
            }
            assert(l.contains(x));
        }
        if l.contains(x) {
            let i = choose|i: int| 0 <= i < l.len() && l[i] == x;
            if i == p {
                assert(sw[q] == x);
            } else if i == q {
                assert(sw[p] == x);
            } else {
                assert(sw[i] == x);
            }
            assert(sw.contains(x));
        }
    }
}

/// Removing one position of a sequence changes no membership of any other
/// value.
pub proof fn lemma_remove_at_contains(l: Seq<Seq<char>>, p: int)
    requires
        0 <= p < l.len(),
    ensures
        forall|x: Seq<char>|
            x != l[p] ==> #[trigger] l.remove(p).contains(x) == l.contains(x),
{
    let rm = l.remove(p);
    assert forall|x: Seq<char>| x != l[p] implies #[trigger] rm.contains(x) == l.contains(x) by {
        if rm.contains(x) {
            let i = choose|i: int| 0 <= i < rm.len() && rm[i] == x;
            if i < p {
                assert(l[i] == x);
            } else {
                assert(l[i + 1] == x);
            }
            assert(l.contains(x));
        }
        if l.contains(x) {
            let i = choose|i: int| 0 <= i < l.len() && l[i] == x;
            if i < p {
                assert(rm[i] == x);
            } else {
                assert(rm[i - 1] == x);
            }
            assert(rm.contains(x));
        }
    }
}

/// The position of the first occurrence of `id` in `list`.
pub open spec fn spec_position(list: Seq<Seq<char>>, id: Seq<char>) -> int {
    choose|i: int|
        0 <= i < list.len() && list[i] == id && forall|j: int| 0 <= j < i ==> list[j] != id
}

/// Finds the first occurrence of `id` in `list`.
pub fn list_position(list: &Vec<String>, id: &String) -> (pos: Option<usize>)
    ensures
        match pos {
            Some(p) => {
                &&& list.deep_view().contains(id@)
                &&& 0 <= p < list.len()
                &&& list.deep_view()[p as int] == id@
                &&& forall|j: int| 0 <= j < p ==> list.deep_view()[j] != id@
                &&& p == spec_position(list.deep_view(), id@)
            },
            None => !list.deep_view().contains(id@),
        },
{
    let n = list.len();
    for i in 0..n
        invariant
            n == list.len(),
            forall|j: int| 0 <= j < i ==> list.deep_view()[j] != id@,
    {
        if list[i].eq(id) {
            proof {
                assert(list.deep_view()[i as int] == id@);
                let p = spec_position(list.deep_view(), id@);
                assert(0 <= p < list.deep_view().len() && list.deep_view()[p] == id@
                    && forall|j: int| 0 <= j < p ==> list.deep_view()[j] != id@) by {
                    assert(0 <= i < list.deep_view().len() && list.deep_view()[i as int] == id@
                        && forall|j: int| 0 <= j < i ==> list.deep_view()[j] != id@);
                }
                if p < i {
                    assert(list.deep_view()[p] != id@);
                }
                if i < p {
                    assert(list.deep_view()[i as int] != id@);
                }
            }
            return Some(i);
        }
    }
    proof {
        if list.deep_view().contains(id@) {
            let w = choose|w: int| 0 <= w < list.deep_view().len() && list.deep_view()[w] == id@;
            assert(list.deep_view()[w] != id@);
        }
    }
    None
}

} // verus!
