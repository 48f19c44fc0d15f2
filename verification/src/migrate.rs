//! Device-identity migration. The operating system occasionally reissues a
//! device's id (after a driver reinstall, for instance); stored settings
//! would then be orphaned. Migration walks the stored entries against a
//! topology snapshot: entries whose id still resolves get their stored name
//! refreshed; entries whose id no longer resolves are relinked, by exact
//! cleaned-name match among active devices of their type, to the device's
//! new id, and the matching priority list is updated in place. An entry
//! that resolves nowhere is kept untouched, so an unplugged device keeps
//! its configuration.

use vstd::prelude::*;

use crate::live::{
    find_device_by_name_and_type, live_find, live_get, live_has, live_wf,
    spec_find_by_name_and_type,
};
use crate::state::{
    DeviceEntry, DeviceEntryView, DeviceSettings, DeviceSettingsView, PersistentState, StateView,
    device_index, has_device, lemma_pruned_typed_implies_pruned, list_position,
    spec_devices_insert, spec_devices_remove, spec_position, unique_ids, with_priority_list,
};
use crate::types::{LiveDevice, LiveDeviceView};

verus! {

/// An entry after the name-refresh pass: a resolvable id takes the
/// device's current name, any other entry stays as it is.
pub open spec fn spec_updated_entry(
    live: Seq<LiveDeviceView>,
    e: DeviceEntryView,
) -> DeviceEntryView {
    if live_has(live, e.id) {
        DeviceEntryView {
            id: e.id,
            settings: DeviceSettingsView { name: live_get(live, e.id).name, ..e.settings },
        }
    } else {
        e
    }
}

/// The whole table after the name-refresh pass.
pub open spec fn spec_update_names(
    live: Seq<LiveDeviceView>,
    devices: Seq<DeviceEntryView>,
) -> Seq<DeviceEntryView> {
    devices.map_values(|e: DeviceEntryView| spec_updated_entry(live, e))
}

/// The migration candidates: the entries whose id no longer resolves, in
/// table order.
pub open spec fn spec_candidates(
    live: Seq<LiveDeviceView>,
    devices: Seq<DeviceEntryView>,
) -> Seq<DeviceEntryView>
    decreases devices.len(),
{
    if devices.len() == 0 {
        Seq::empty()
    } else {
        let rest = spec_candidates(live, devices.drop_last());
        if live_has(live, devices.last().id) {
            rest
        } else {
            rest.push(devices.last())
        }
    }
}

/// One candidate's migration: when an active device of the candidate's
/// type carries its stored name, the entry moves from the old id to that
/// device's id and the first occurrence of the old id in the matching
/// priority list is replaced; when none does, nothing changes.
pub open spec fn spec_apply_migration(
    live: Seq<LiveDeviceView>,
    sv: StateView,
    cand: DeviceEntryView,
) -> StateView {
    match spec_find_by_name_and_type(live, cand.settings.name, cand.settings.device_type) {
        Some(new_id) => {
            let moved = StateView {
                devices: spec_devices_insert(
                    spec_devices_remove(sv.devices, cand.id),
                    new_id,
                    cand.settings,
                ),
                ..sv
            };
            let list = moved.priority_list(cand.settings.device_type);
            if list.contains(cand.id) {
                with_priority_list(
                    moved,
                    cand.settings.device_type,
                    list.update(spec_position(list, cand.id), new_id),
                )
            } else {
                moved
            }
        },
        None => sv,
    }
}

/// The candidates' migrations, applied in order.
pub open spec fn spec_apply_migrations(
    live: Seq<LiveDeviceView>,
    sv: StateView,
    cands: Seq<DeviceEntryView>,
) -> StateView
    decreases cands.len(),
{
    if cands.len() == 0 {
        sv
    } else {
        spec_apply_migrations(
            live,
            spec_apply_migration(live, sv, cands[0]),
            cands.drop_first(),
        )
    }
}

/// The whole migration: refresh the names of resolvable entries, then
/// migrate the unresolvable ones.
pub open spec fn spec_migrate(live: Seq<LiveDeviceView>, sv: StateView) -> StateView {
    spec_apply_migrations(
        live,
        StateView { devices: spec_update_names(live, sv.devices), ..sv },
        spec_candidates(live, sv.devices),
    )
}

/// Whether a name refresh is due somewhere in the table.
pub open spec fn spec_name_change(
    live: Seq<LiveDeviceView>,
    devices: Seq<DeviceEntryView>,
) -> bool {
    exists|j: int|
        0 <= j < devices.len() && live_has(live, (#[trigger] devices[j]).id) && live_get(
            live,
            devices[j].id,
        ).name != devices[j].settings.name
}

/// Whether some candidate can be relinked: an active device of its type
/// carries its stored name.
pub open spec fn spec_any_relink(
    live: Seq<LiveDeviceView>,
    cands: Seq<DeviceEntryView>,
) -> bool {
    exists|j: int|
        0 <= j < cands.len() && spec_find_by_name_and_type(
            live,
            (#[trigger] cands[j]).settings.name,
            cands[j].settings.device_type,
        ) is Some
}

/// What `migrate_device_ids` reports: whether the run changed anything — a
/// name refresh was due, or some unresolvable entry was relinked. A stale
/// entry that matches no live device is kept untouched and counts as no
/// change.
pub open spec fn spec_any_change(live: Seq<LiveDeviceView>, sv: StateView) -> bool {
    spec_name_change(live, sv.devices) || spec_any_relink(live, spec_candidates(live, sv.devices))
}

/// `a` differs from `b` at most in its device table.
pub open spec fn same_except_devices(a: StateView, b: StateView) -> bool {
    a == StateView { devices: a.devices, ..b }
}

/// Applies one candidate's migration to the state; reports whether the
/// candidate was relinked.
fn apply_one_migration(
    live: &Vec<LiveDevice>,
    state: &mut PersistentState,
    cand: &DeviceEntry,
) -> (relinked: bool)
    requires
        old(state)@.wf(),
        live_wf(live.deep_view()),
        cand@.settings.wf(),
    ensures
        final(state)@ == spec_apply_migration(live.deep_view(), old(state)@, cand@),
        final(state)@.wf(),
        relinked == (spec_find_by_name_and_type(
            live.deep_view(),
            cand@.settings.name,
            cand@.settings.device_type,
        ) is Some),
{
    let new_id = match find_device_by_name_and_type(
        live,
        &cand.settings.name,
        cand.settings.device_type,
    ) {
        Some(id) => id,
        None => {
            return false;
        },
    };
    state.devices_remove(&cand.id);
    state.devices_insert(new_id.clone(), cand.settings.duplicate());
    let ghost moved = state@;
    let pos = list_position(state.get_priority_list(cand.settings.device_type), &cand.id);
    if let Some(p) = pos {
        match cand.settings.device_type {
            crate::types::DeviceType::Output => {
                state.output_priority_list[p] = new_id;
            },
            crate::types::DeviceType::Input => {
                state.input_priority_list[p] = new_id;
            },
        }
        proof {
            let list = moved.priority_list(cand@.settings.device_type);
            assert(final(state)@ =~= with_priority_list(
                moved,
                cand@.settings.device_type,
                list.update(spec_position(list, cand@.id), new_id@),
            ));
            assert(final(state)@ =~= spec_apply_migration(live.deep_view(), old(state)@, cand@));
        }
    } else {
        proof {
            assert(final(state)@ =~= spec_apply_migration(live.deep_view(), old(state)@, cand@));
        }
    }
    true
}

/// Reconciles every stored device id against the snapshot: refreshes the
/// stored names of resolvable ids, relinks unresolvable ids by name among
/// active devices of their type, and reports whether any change occurred.
pub fn migrate_device_ids(live: &Vec<LiveDevice>, state: &mut PersistentState) -> (changed: bool)
    requires
        old(state)@.wf(),
        live_wf(live.deep_view()),
    ensures
        final(state)@ == spec_migrate(live.deep_view(), old(state)@),
        final(state)@.wf(),
        changed == spec_any_change(live.deep_view(), old(state)@),
        old(state)@.is_pruned_typed() ==> final(state)@.is_pruned_typed(),
        old(state)@.is_pruned_typed() ==> final(state)@.is_pruned(),
{
    proof {
        if old(state)@.is_pruned_typed() {
            lemma_migrate_preserves_pruned(live.deep_view(), old(state)@);
        }
    }
    let ghost lv = live.deep_view();
    let ghost pre = state@;
    let mut changed = false;
    let mut candidates: Vec<DeviceEntry> = Vec::new();
    let n = state.devices.len();
    proof {
        assert(pre.devices.take(0) =~= Seq::<DeviceEntryView>::empty());
    }
    for i in 0..n
        invariant
            lv == live.deep_view(),
            live_wf(lv),
            n == state.devices.len(),
            state@.wf(),
            same_except_devices(state@, pre),
            state@.devices.len() == pre.devices.len(),
            forall|j: int| 0 <= j < i ==> state@.devices[j] == spec_updated_entry(
                lv,
                #[trigger] pre.devices[j],
            ),
            forall|j: int| i <= j < n ==> state@.devices[j] == #[trigger] pre.devices[j],
            candidates.deep_view() == spec_candidates(lv, pre.devices.take(i as int)),
            forall|j: int|
                0 <= j < candidates.deep_view().len() ==> (#[trigger] candidates.deep_view()[j])
                    .settings.wf(),
            changed == spec_name_change(lv, pre.devices.take(i as int)),
    {
        let ghost prefix = pre.devices.take(i as int);
        let ghost prefix1 = pre.devices.take(i as int + 1);
        proof {
            assert(prefix1.drop_last() =~= prefix);
            assert(prefix1.last() == pre.devices[i as int]);
        }
        let found = match live_find(live, &state.devices[i].id) {
            Some(d) => Some(d.name.clone()),
            None => None,
        };
        match found {
            Some(current_name) => {
                let ghost cur = state@;
                if !current_name.eq(&state.devices[i].settings.name) {
                    changed = true;
                    let entry_id = state.devices[i].id.clone();
                    let entry_settings = state.devices[i].settings.duplicate();
                    state.devices[i] = DeviceEntry {
                        id: entry_id,
                        settings: DeviceSettings { name: current_name, ..entry_settings },
                    };
                }
                proof {
                    assert(state@.devices[i as int] =~= spec_updated_entry(
                        lv,
                        pre.devices[i as int],
                    ));
                    assert(spec_candidates(lv, prefix1) == spec_candidates(lv, prefix));
                    assert(state@.wf()) by {
                        assert(forall|a: int|
                            0 <= a < state@.devices.len() ==> (#[trigger] state@.devices[a]).id
                                == cur.devices[a].id);
                        assert(forall|a: int|
                            0 <= a < state@.devices.len() ==> (#[trigger] state@.devices[a])
                                .settings.volume_percent == cur.devices[a].settings.volume_percent);
                        assert(cur.wf());
                    }
                    if changed {
                        assert(spec_name_change(lv, prefix1));
                    } else {
                        assert(!spec_name_change(lv, prefix1)) by {
                            if spec_name_change(lv, prefix1) {
                                let w = choose|w: int|
                                    0 <= w < prefix1.len() && live_has(
                                        lv,
                                        (#[trigger] prefix1[w]).id,
                                    ) && live_get(lv, prefix1[w].id).name
                                        != prefix1[w].settings.name;
                                if w < i {
                                    assert(prefix[w] == prefix1[w]);
                                    assert(spec_name_change(lv, prefix));
                                }
                            }
                        }
                    }
                }
            },
            None => {
                let entry_id = state.devices[i].id.clone();
                let entry_settings = state.devices[i].settings.duplicate();
                candidates.push(DeviceEntry { id: entry_id, settings: entry_settings });
                proof {
                    assert(candidates.deep_view() =~= spec_candidates(lv, prefix).push(
                        pre.devices[i as int],
                    ));
                    assert(spec_candidates(lv, prefix1) == spec_candidates(lv, prefix).push(
                        pre.devices[i as int],
                    ));
                    assert(!spec_name_change(lv, prefix1) || spec_name_change(lv, prefix)) by {
                        if spec_name_change(lv, prefix1) {
                            let w = choose|w: int|
                                0 <= w < prefix1.len() && live_has(lv, (#[trigger] prefix1[w]).id)
                                    && live_get(lv, prefix1[w].id).name != prefix1[w].settings.name;
                            if w < i {
                                assert(prefix[w] == prefix1[w]);
                            }
                        }
                    }
                    assert(spec_name_change(lv, prefix) ==> spec_name_change(lv, prefix1)) by {
                        if spec_name_change(lv, prefix) {
                            let w = choose|w: int|
                                0 <= w < prefix.len() && live_has(lv, (#[trigger] prefix[w]).id)
                                    && live_get(lv, prefix[w].id).name != prefix[w].settings.name;
                            assert(prefix1[w] == prefix[w]);
                        }
                    }
                }
            },
        }
    }
    let ghost mid = state@;
    let ghost cands = candidates.deep_view();
    proof {
        assert(pre.devices.take(n as int) =~= pre.devices);
        assert(mid.devices =~= spec_update_names(lv, pre.devices));
        assert(mid =~= (StateView { devices: spec_update_names(lv, pre.devices), ..pre }));
        assert(cands == spec_candidates(lv, pre.devices));
        assert(cands.skip(0) =~= cands);
    }
    let m = candidates.len();
    proof {
        assert(cands.take(0) =~= Seq::<DeviceEntryView>::empty());
        assert(!spec_any_relink(lv, cands.take(0)));
        assert(spec_name_change(lv, pre.devices.take(n as int)) == spec_name_change(
            lv,
            pre.devices,
        ));
    }
    for k in 0..m
        invariant
            lv == live.deep_view(),
            live_wf(lv),
            m == candidates.len(),
            cands == candidates.deep_view(),
            state@.wf(),
            forall|j: int| 0 <= j < m ==> (#[trigger] cands[j]).settings.wf(),
            spec_apply_migrations(lv, state@, cands.skip(k as int)) == spec_apply_migrations(
                lv,
                mid,
                cands,
            ),
            changed == (spec_name_change(lv, pre.devices) || spec_any_relink(
                lv,
                cands.take(k as int),
            )),
    {
        let ghost tk = cands.take(k as int);
        let ghost tk1 = cands.take(k as int + 1);
        proof {
            assert(cands.skip(k as int)[0] == cands[k as int]);
            assert(cands.skip(k as int).drop_first() =~= cands.skip(k as int + 1));
            assert(forall|j: int| 0 <= j < k ==> tk1[j] == #[trigger] cands[j] && tk[j] == cands[j]);
            assert(tk1[k as int] == cands[k as int]);
        }
        let relinked = apply_one_migration(live, state, &candidates[k]);
        if relinked {
            changed = true;
        }
        proof {
            if spec_any_relink(lv, tk1) {
                let j = choose|j: int|
                    0 <= j < tk1.len() && spec_find_by_name_and_type(
                        lv,
                        (#[trigger] tk1[j]).settings.name,
                        tk1[j].settings.device_type,
                    ) is Some;
                if j < k {
                    assert(spec_find_by_name_and_type(
                        lv,
                        tk[j].settings.name,
                        tk[j].settings.device_type,
                    ) is Some);
                    assert(spec_any_relink(lv, tk));
                }
            }
            if spec_any_relink(lv, tk) {
                let j = choose|j: int|
                    0 <= j < tk.len() && spec_find_by_name_and_type(
                        lv,
                        (#[trigger] tk[j]).settings.name,
                        tk[j].settings.device_type,
                    ) is Some;
                assert(spec_find_by_name_and_type(
                    lv,
                    tk1[j].settings.name,
                    tk1[j].settings.device_type,
                ) is Some);
                assert(spec_any_relink(lv, tk1));
            }
            if relinked {
                assert(spec_find_by_name_and_type(
                    lv,
                    tk1[k as int].settings.name,
                    tk1[k as int].settings.device_type,
                ) is Some);
                assert(spec_any_relink(lv, tk1));
            }
        }
    }
    proof {
        assert(cands.skip(m as int) =~= Seq::<DeviceEntryView>::empty());
        assert(final(state)@ == spec_apply_migrations(lv, mid, cands));
        assert(cands.take(m as int) =~= cands);
    }
    changed
}

/// An entry on which migration has nothing left to do: a resolvable id
/// already carries the device's current name, and an unresolvable id
/// matches no active device of its type by name.
pub open spec fn spec_entry_settled(live: Seq<LiveDeviceView>, e: DeviceEntryView) -> bool {
    if live_has(live, e.id) {
        live_get(live, e.id).name == e.settings.name
    } else {
        spec_find_by_name_and_type(live, e.settings.name, e.settings.device_type) is None
    }
}

/// A state on which migration has nothing left to do.
pub open spec fn spec_migrated_fixed(live: Seq<LiveDeviceView>, sv: StateView) -> bool {
    forall|i: int|
        0 <= i < sv.devices.len() ==> spec_entry_settled(live, #[trigger] sv.devices[i])
}

/// A successful name search names an active snapshot entry of the searched
/// type that carries the searched name.
proof fn lemma_find_witness(
    live: Seq<LiveDeviceView>,
    name: Seq<char>,
    device_type: crate::types::DeviceType,
)
    ensures
        spec_find_by_name_and_type(live, name, device_type) matches Some(id) ==> exists|i: int|
            0 <= i < live.len() && (#[trigger] live[i]).id == id && live[i].name == name
                && live[i].device_type == device_type && live[i].is_active,
    decreases live.len(),
{
    if live.len() > 0 {
        lemma_find_witness(live.drop_first(), name, device_type);
        if !(live[0].is_active && live[0].device_type == device_type && live[0].name == name) {
            let r = spec_find_by_name_and_type(live, name, device_type);
            if r is Some {
                let id = r->Some_0;
                let i = choose|i: int|
                    0 <= i < live.drop_first().len() && (#[trigger] live.drop_first()[i]).id == id
                        && live.drop_first()[i].name == name && live.drop_first()[i].device_type
                        == device_type && live.drop_first()[i].is_active;
                assert(live[i + 1].id == id && live[i + 1].name == name && live[i
                    + 1].device_type == device_type && live[i + 1].is_active);
            }
        }
    }
}

/// In a well-formed snapshot, the device a successful name search names
/// resolves, and its current name is the searched name.
proof fn lemma_find_resolves(
    live: Seq<LiveDeviceView>,
    name: Seq<char>,
    device_type: crate::types::DeviceType,
    id: Seq<char>,
)
    requires
        crate::live::live_wf(live),
        spec_find_by_name_and_type(live, name, device_type) == Some(id),
    ensures
        live_has(live, id),
        live_get(live, id).name == name,
{
    lemma_find_witness(live, name, device_type);
    let i = choose|i: int|
        0 <= i < live.len() && (#[trigger] live[i]).id == id && live[i].name == name
            && live[i].device_type == device_type && live[i].is_active;
    crate::live::lemma_live_index_unique(live, id, i);
}

/// Each migration candidate is an entry of the table whose id does not
/// resolve.
proof fn lemma_candidates_from_table(live: Seq<LiveDeviceView>, devices: Seq<DeviceEntryView>)
    ensures
        forall|j: int|
            0 <= j < spec_candidates(live, devices).len() ==> exists|i: int|
                0 <= i < devices.len() && #[trigger] spec_candidates(live, devices)[j]
                    == devices[i] && !live_has(live, devices[i].id),
    decreases devices.len(),
{
    if devices.len() > 0 {
        let front = devices.drop_last();
        lemma_candidates_from_table(live, front);
        let cands = spec_candidates(live, devices);
        let rest = spec_candidates(live, front);
        assert forall|j: int| 0 <= j < cands.len() implies exists|i: int|
            0 <= i < devices.len() && #[trigger] cands[j] == devices[i] && !live_has(
                live,
                devices[i].id,
            ) by {
            if j < rest.len() {
                let i = choose|i: int|
                    0 <= i < front.len() && #[trigger] rest[j] == front[i] && !live_has(
                        live,
                        front[i].id,
                    );
                assert(front[i] == devices[i]);
                assert(cands[j] == devices[i] && !live_has(live, devices[i].id));
            } else {
                assert(cands[j] == devices.last());
                assert(cands[j] == devices[devices.len() - 1] && !live_has(
                    live,
                    devices[devices.len() - 1].id,
                ));
            }
        }
    }
}

/// Each unresolvable entry of the table appears among the candidates with
/// its settings.
proof fn lemma_candidates_complete(live: Seq<LiveDeviceView>, devices: Seq<DeviceEntryView>)
    ensures
        forall|i: int|
            0 <= i < devices.len() && !live_has(live, (#[trigger] devices[i]).id) ==> exists|
                j: int,
            |
                0 <= j < spec_candidates(live, devices).len() && #[trigger] spec_candidates(
                    live,
                    devices,
                )[j] == devices[i],
    decreases devices.len(),
{
    if devices.len() > 0 {
        let front = devices.drop_last();
        lemma_candidates_complete(live, front);
        let cands = spec_candidates(live, devices);
        let rest = spec_candidates(live, front);
        assert forall|i: int|
            0 <= i < devices.len() && !live_has(live, (#[trigger] devices[i]).id) implies exists|
            j: int,
        |
            0 <= j < cands.len() && #[trigger] cands[j] == devices[i] by {
            if i < devices.len() - 1 {
                assert(front[i] == devices[i]);
                let j = choose|j: int| 0 <= j < rest.len() && #[trigger] rest[j] == front[i];
                assert(cands[j] == devices[i]);
            } else {
                assert(cands[cands.len() - 1] == devices[i]);
            }
        }
    }
}

/// When no candidate can be relinked, the fold leaves the state alone.
proof fn lemma_fold_identity(
    live: Seq<LiveDeviceView>,
    sv: StateView,
    cands: Seq<DeviceEntryView>,
)
    requires
        forall|j: int|
            0 <= j < cands.len() ==> spec_find_by_name_and_type(
                live,
                (#[trigger] cands[j]).settings.name,
                cands[j].settings.device_type,
            ) is None,
    ensures
        spec_apply_migrations(live, sv, cands) == sv,
    decreases cands.len(),
{
    if cands.len() > 0 {
        assert(spec_apply_migration(live, sv, cands[0]) == sv);
        assert(forall|j: int|
            0 <= j < cands.drop_first().len() ==> #[trigger] cands.drop_first()[j] == cands[
                j + 1
            ]);
        lemma_fold_identity(live, sv, cands.drop_first());
    }
}

/// When every resolvable entry already carries its device's current name,
/// the name-refresh pass changes nothing.
proof fn lemma_update_names_identity(live: Seq<LiveDeviceView>, devices: Seq<DeviceEntryView>)
    requires
        forall|i: int|
            0 <= i < devices.len() && live_has(live, (#[trigger] devices[i]).id) ==> live_get(
                live,
                devices[i].id,
            ).name == devices[i].settings.name,
    ensures
        spec_update_names(live, devices) == devices,
{
    let upd = spec_update_names(live, devices);
    assert forall|i: int| 0 <= i < devices.len() implies upd[i] == devices[i] by {
        assert(upd[i] == spec_updated_entry(live, devices[i]));
        if live_has(live, devices[i].id) {
            assert(upd[i] =~= devices[i]);
        }
    }
    assert(upd =~= devices);
}

/// On a settled state migration is the identity.
pub proof fn lemma_migrate_fixed_point(live: Seq<LiveDeviceView>, sv: StateView)
    requires
        spec_migrated_fixed(live, sv),
    ensures
        spec_migrate(live, sv) == sv,
        !spec_any_change(live, sv),
{
    lemma_update_names_identity(live, sv.devices);
    assert(StateView { devices: spec_update_names(live, sv.devices), ..sv } =~= sv);
    let cands = spec_candidates(live, sv.devices);
    lemma_candidates_from_table(live, sv.devices);
    assert forall|j: int| 0 <= j < cands.len() implies spec_find_by_name_and_type(
        live,
        (#[trigger] cands[j]).settings.name,
        cands[j].settings.device_type,
    ) is None by {
        let i = choose|i: int|
            0 <= i < sv.devices.len() && cands[j] == sv.devices[i] && !live_has(
                live,
                sv.devices[i].id,
            );
        assert(spec_entry_settled(live, sv.devices[i]));
    }
    lemma_fold_identity(live, sv, cands);
    assert(!spec_name_change(live, sv.devices)) by {
        if spec_name_change(live, sv.devices) {
            let j = choose|j: int|
                0 <= j < sv.devices.len() && live_has(live, (#[trigger] sv.devices[j]).id)
                    && live_get(live, sv.devices[j].id).name != sv.devices[j].settings.name;
            assert(spec_entry_settled(live, sv.devices[j]));
        }
    }
    assert(!spec_any_relink(live, cands)) by {
        if spec_any_relink(live, cands) {
            let j = choose|j: int|
                0 <= j < cands.len() && spec_find_by_name_and_type(
                    live,
                    (#[trigger] cands[j]).settings.name,
                    cands[j].settings.device_type,
                ) is Some;
        }
    }
}

/// The invariant-carrying induction behind `lemma_migrate_establishes_fixed`:
/// folding the remaining candidates over a state whose resolvable entries
/// are name-correct, and whose unresolvable entries either await their
/// candidate or match nothing, ends settled.
proof fn lemma_fold_establishes(
    live: Seq<LiveDeviceView>,
    sv: StateView,
    cands: Seq<DeviceEntryView>,
)
    requires
        crate::live::live_wf(live),
        unique_ids(sv.devices),
        forall|i: int|
            0 <= i < sv.devices.len() && live_has(live, (#[trigger] sv.devices[i]).id)
                ==> live_get(live, sv.devices[i].id).name == sv.devices[i].settings.name,
        forall|i: int|
            0 <= i < sv.devices.len() && !live_has(live, (#[trigger] sv.devices[i]).id) ==> ((
            exists|j: int|
                0 <= j < cands.len() && (#[trigger] cands[j]).id == sv.devices[i].id
                    && cands[j].settings == sv.devices[i].settings)
                || spec_find_by_name_and_type(
                live,
                sv.devices[i].settings.name,
                sv.devices[i].settings.device_type,
            ) is None),
        forall|j: int| 0 <= j < cands.len() ==> !live_has(live, (#[trigger] cands[j]).id),
    ensures
        spec_migrated_fixed(live, spec_apply_migrations(live, sv, cands)),
    decreases cands.len(),
{
    if cands.len() == 0 {
        assert forall|i: int|
            0 <= i < sv.devices.len() implies spec_entry_settled(
            live,
            #[trigger] sv.devices[i],
        ) by {
            if !live_has(live, sv.devices[i].id) {
                assert(!(exists|j: int|
                    0 <= j < cands.len() && (#[trigger] cands[j]).id == sv.devices[i].id
                        && cands[j].settings == sv.devices[i].settings));
            }
        }
    } else {
        let c = cands[0];
        let rest = cands.drop_first();
        let sv1 = spec_apply_migration(live, sv, c);
        assert(forall|j: int| 0 <= j < rest.len() ==> #[trigger] rest[j] == cands[j + 1]);
        match spec_find_by_name_and_type(live, c.settings.name, c.settings.device_type) {
            Option::None => {
                assert(sv1 == sv);
                assert forall|i: int|
                    0 <= i < sv.devices.len() && !live_has(
                    live,
                    (#[trigger] sv.devices[i]).id,
                ) implies ((exists|j: int|
                    0 <= j < rest.len() && (#[trigger] rest[j]).id == sv.devices[i].id && rest[
                        j
                    ].settings == sv.devices[i].settings) || spec_find_by_name_and_type(
                    live,
                    sv.devices[i].settings.name,
                    sv.devices[i].settings.device_type,
                ) is None) by {
                    if exists|j: int|
                        0 <= j < cands.len() && (#[trigger] cands[j]).id == sv.devices[i].id
                            && cands[j].settings == sv.devices[i].settings {
                        let j = choose|j: int|
                            0 <= j < cands.len() && (#[trigger] cands[j]).id == sv.devices[i].id
                                && cands[j].settings == sv.devices[i].settings;
                        if j == 0 {
                            assert(spec_find_by_name_and_type(
                                live,
                                sv.devices[i].settings.name,
                                sv.devices[i].settings.device_type,
                            ) is None);
                        } else {
                            assert(rest[j - 1].id == sv.devices[i].id && rest[j - 1].settings
                                == sv.devices[i].settings);
                        }
                    }
                }
                lemma_fold_establishes(live, sv, rest);
            },
            Option::Some(new_id) => {
                lemma_find_resolves(live, c.settings.name, c.settings.device_type, new_id);
                let removed = spec_devices_remove(sv.devices, c.id);
                let inserted = spec_devices_insert(removed, new_id, c.settings);
                assert(sv1.devices == inserted);
                lemma_step_elements(live, sv.devices, c, new_id);
                assert forall|i: int|
                    0 <= i < sv1.devices.len() && live_has(
                    live,
                    (#[trigger] sv1.devices[i]).id,
                ) implies live_get(live, sv1.devices[i].id).name
                    == sv1.devices[i].settings.name by {
                    let e = sv1.devices[i];
                    if e.id == new_id && e.settings == c.settings {
                    } else {
                        let b = choose|b: int|
                            0 <= b < sv.devices.len() && sv.devices[b] == e && sv.devices[b].id
                                != c.id;
                    }
                }
                assert forall|i: int|
                    0 <= i < sv1.devices.len() && !live_has(
                    live,
                    (#[trigger] sv1.devices[i]).id,
                ) implies ((exists|j: int|
                    0 <= j < rest.len() && (#[trigger] rest[j]).id == sv1.devices[i].id && rest[
                        j
                    ].settings == sv1.devices[i].settings) || spec_find_by_name_and_type(
                    live,
                    sv1.devices[i].settings.name,
                    sv1.devices[i].settings.device_type,
                ) is None) by {
                    let e = sv1.devices[i];
                    assert(!(e.id == new_id && e.settings == c.settings));
                    let b = choose|b: int|
                        0 <= b < sv.devices.len() && sv.devices[b] == e && sv.devices[b].id
                            != c.id;
                    if exists|j: int|
                        0 <= j < cands.len() && (#[trigger] cands[j]).id == e.id && cands[
                            j
                        ].settings == e.settings {
                        let j = choose|j: int|
                            0 <= j < cands.len() && (#[trigger] cands[j]).id == e.id && cands[
                                j
                            ].settings == e.settings;
                        assert(j != 0);
                        assert(rest[j - 1].id == e.id && rest[j - 1].settings == e.settings);
                    }
                }
                lemma_fold_establishes(live, sv1, rest);
            },
        }
    }
}

/// Element-level facts about one successful migration step: the new table
/// keeps unique ids, its elements are the untouched old entries plus the
/// relinked one, and the induction hypotheses carry to it.
proof fn lemma_step_elements(
    live: Seq<LiveDeviceView>,
    devices: Seq<DeviceEntryView>,
    c: DeviceEntryView,
    new_id: Seq<char>,
)
    requires
        unique_ids(devices),
        live_has(live, new_id),
    ensures
        unique_ids(
            spec_devices_insert(spec_devices_remove(devices, c.id), new_id, c.settings),
        ),
        forall|a: int|
            0 <= a < spec_devices_insert(
                spec_devices_remove(devices, c.id),
                new_id,
                c.settings,
            ).len() ==> {
                let e = #[trigger] spec_devices_insert(
                    spec_devices_remove(devices, c.id),
                    new_id,
                    c.settings,
                )[a];
                (e.id == new_id && e.settings == c.settings) || (exists|b: int|
                    0 <= b < devices.len() && devices[b] == e && devices[b].id != c.id)
            },
{
    let removed = spec_devices_remove(devices, c.id);
    assert(unique_ids(removed)) by {
        if has_device(devices, c.id) {
            let k = device_index(devices, c.id);
            assert forall|i: int, j: int|
                0 <= i < removed.len() && 0 <= j < removed.len() && i != j implies removed[i].id
                != removed[j].id by {
                let oi: int = if i < k {
                    i
                } else {
                    i + 1
                };
                let oj: int = if j < k {
                    j
                } else {
                    j + 1
                };
                assert(removed[i] == devices[oi] && removed[j] == devices[oj]);
            }
        }
    }
    assert forall|i: int| 0 <= i < removed.len() implies exists|b: int|
        0 <= b < devices.len() && devices[b] == #[trigger] removed[i] && (has_device(
            devices,
            c.id,
        ) ==> b != device_index(devices, c.id)) by {
        if has_device(devices, c.id) {
            let k = device_index(devices, c.id);
            if i < k {
                assert(devices[i] == removed[i] && i != k);
            } else {
                assert(devices[i + 1] == removed[i] && i + 1 != k);
            }
        } else {
            assert(devices[i] == removed[i]);
        }
    }
    let inserted = spec_devices_insert(removed, new_id, c.settings);
    assert(unique_ids(inserted)) by {
        if has_device(removed, new_id) {
            let k2 = device_index(removed, new_id);
            assert(removed[k2].id == new_id);
            assert forall|i: int, j: int|
                0 <= i < inserted.len() && 0 <= j < inserted.len() && i != j implies inserted[
            i].id != inserted[j].id by {
                assert(inserted[i].id == removed[i].id && inserted[j].id == removed[j].id);
            }
        } else {
            assert forall|i: int, j: int|
                0 <= i < inserted.len() && 0 <= j < inserted.len() && i != j implies inserted[
            i].id != inserted[j].id by {
                if i < removed.len() && j < removed.len() {
                    assert(inserted[i].id == removed[i].id && inserted[j].id == removed[j].id);
                } else if i < removed.len() {
                    assert(inserted[j].id == new_id && inserted[i].id == removed[i].id);
                    if removed[i].id == new_id {
                        assert(has_device(removed, new_id));
                    }
                } else {
                    assert(inserted[i].id == new_id && inserted[j].id == removed[j].id);
                    if removed[j].id == new_id {
                        assert(has_device(removed, new_id));
                    }
                }
            }
        }
    }
    assert forall|a: int| 0 <= a < inserted.len() implies {
        let e = #[trigger] inserted[a];
        (e.id == new_id && e.settings == c.settings) || (exists|b: int|
            0 <= b < devices.len() && devices[b] == e && devices[b].id != c.id)
    } by {
        let e = inserted[a];
        if has_device(removed, new_id) {
            let k2 = device_index(removed, new_id);
            if a == k2 {
                assert(e.id == new_id && e.settings == c.settings);
            } else {
                assert(e == removed[a]);
                let b = choose|b: int|
                    0 <= b < devices.len() && devices[b] == removed[a] && (has_device(
                        devices,
                        c.id,
                    ) ==> b != device_index(devices, c.id));
                if has_device(devices, c.id) {
                    crate::state::lemma_device_index_unique(
                        devices,
                        c.id,
                        device_index(devices, c.id),
                    );
                    assert(devices[b].id != c.id) by {
                        if devices[b].id == c.id {
                            assert(b == device_index(devices, c.id)) by {
                                assert(unique_ids(devices));
                                let k = device_index(devices, c.id);
                                if b != k {
                                    assert(devices[b].id != devices[k].id);
                                }
                            }
                        }
                    }
                } else {
                    assert(devices[b].id != c.id) by {
                        if devices[b].id == c.id {
                            assert(has_device(devices, c.id));
                        }
                    }
                }
            }
        } else {
            if a == removed.len() {
                assert(e.id == new_id && e.settings == c.settings);
            } else {
                assert(e == removed[a]);
                let b = choose|b: int|
                    0 <= b < devices.len() && devices[b] == removed[a] && (has_device(
                        devices,
                        c.id,
                    ) ==> b != device_index(devices, c.id));
                assert(devices[b].id != c.id) by {
                    if devices[b].id == c.id {
                        assert(has_device(devices, c.id));
                        let k = device_index(devices, c.id);
                        if b != k {
                            assert(devices[b].id != devices[k].id);
                        }
                    }
                }
            }
        }
    }
}

/// Migration settles the state: after one run, every resolvable entry
/// carries its device's current name and every unresolvable entry matches
/// no active device of its type.
pub proof fn lemma_migrate_establishes_fixed(live: Seq<LiveDeviceView>, sv: StateView)
    requires
        crate::live::live_wf(live),
        unique_ids(sv.devices),
    ensures
        spec_migrated_fixed(live, spec_migrate(live, sv)),
{
    let updated = StateView { devices: spec_update_names(live, sv.devices), ..sv };
    let cands = spec_candidates(live, sv.devices);
    assert(unique_ids(updated.devices)) by {
        assert(forall|i: int|
            0 <= i < updated.devices.len() ==> (#[trigger] updated.devices[i]).id
                == sv.devices[i].id);
    }
    assert forall|i: int|
        0 <= i < updated.devices.len() && live_has(
        live,
        (#[trigger] updated.devices[i]).id,
    ) implies live_get(live, updated.devices[i].id).name == updated.devices[i].settings.name by {
        assert(updated.devices[i] == spec_updated_entry(live, sv.devices[i]));
    }
    lemma_candidates_complete(live, sv.devices);
    lemma_candidates_from_table(live, sv.devices);
    assert forall|i: int|
        0 <= i < updated.devices.len() && !live_has(
        live,
        (#[trigger] updated.devices[i]).id,
    ) implies ((exists|j: int|
        0 <= j < cands.len() && (#[trigger] cands[j]).id == updated.devices[i].id && cands[
            j
        ].settings == updated.devices[i].settings) || spec_find_by_name_and_type(
        live,
        updated.devices[i].settings.name,
        updated.devices[i].settings.device_type,
    ) is None) by {
        assert(updated.devices[i] == spec_updated_entry(live, sv.devices[i]));
        assert(updated.devices[i] == sv.devices[i]);
        let j = choose|j: int| 0 <= j < cands.len() && #[trigger] cands[j] == sv.devices[i];
        assert(cands[j].id == updated.devices[i].id && cands[j].settings
            == updated.devices[i].settings);
    }
    assert forall|j: int| 0 <= j < cands.len() implies !live_has(
        live,
        (#[trigger] cands[j]).id,
    ) by {
        let i = choose|i: int|
            0 <= i < sv.devices.len() && cands[j] == sv.devices[i] && !live_has(
                live,
                sv.devices[i].id,
            );
    }
    lemma_fold_establishes(live, updated, cands);
}

/// The candidates of a table with unique ids carry distinct ids.
proof fn lemma_candidates_unique(live: Seq<LiveDeviceView>, devices: Seq<DeviceEntryView>)
    requires
        unique_ids(devices),
    ensures
        forall|j1: int, j2: int|
            0 <= j1 < spec_candidates(live, devices).len() && 0 <= j2 < spec_candidates(
                live,
                devices,
            ).len() && j1 != j2 ==> spec_candidates(live, devices)[j1].id != spec_candidates(
                live,
                devices,
            )[j2].id,
    decreases devices.len(),
{
    if devices.len() > 0 {
        let front = devices.drop_last();
        assert(unique_ids(front)) by {
            assert(forall|i: int| 0 <= i < front.len() ==> front[i] == devices[i]);
        }
        lemma_candidates_unique(live, front);
        lemma_candidates_from_table(live, front);
        let cands = spec_candidates(live, devices);
        let rest = spec_candidates(live, front);
        assert forall|j1: int, j2: int|
            0 <= j1 < cands.len() && 0 <= j2 < cands.len() && j1 != j2 implies cands[j1].id
            != cands[j2].id by {
            if j1 < rest.len() && j2 < rest.len() {
                assert(cands[j1] == rest[j1] && cands[j2] == rest[j2]);
            } else {
                let (ja, jb) = if j1 < j2 {
                    (j1, j2)
                } else {
                    (j2, j1)
                };
                assert(ja < rest.len() && jb == rest.len());
                assert(cands[jb] == devices.last());
                let i = choose|i: int|
                    0 <= i < front.len() && #[trigger] rest[ja] == front[i] && !live_has(
                        live,
                        front[i].id,
                    );
                assert(front[i] == devices[i]);
                assert(devices[i].id != devices[devices.len() - 1].id);
            }
        }
    }
}

/// One migration step keeps the typed pruning invariant, and keeps every
/// remaining candidate's own-type reference, provided the step's candidate
/// is unresolvable and, when flagless, stands in its own type's list.
proof fn lemma_fold_preserves_typed(
    live: Seq<LiveDeviceView>,
    sv: StateView,
    cands: Seq<DeviceEntryView>,
)
    requires
        crate::live::live_wf(live),
        unique_ids(sv.devices),
        sv.is_pruned_typed(),
        forall|j: int| 0 <= j < cands.len() ==> !live_has(live, (#[trigger] cands[j]).id),
        forall|j: int|
            0 <= j < cands.len() ==> (!(#[trigger] cands[j]).settings.any_flag()
                ==> sv.priority_list(cands[j].settings.device_type).contains(cands[j].id)),
        forall|j1: int, j2: int|
            0 <= j1 < cands.len() && 0 <= j2 < cands.len() && j1 != j2 ==> cands[j1].id != cands[
                j2
            ].id,
    ensures
        spec_apply_migrations(live, sv, cands).is_pruned_typed(),
    decreases cands.len(),
{
    if cands.len() > 0 {
        let c = cands[0];
        let rest = cands.drop_first();
        let sv1 = spec_apply_migration(live, sv, c);
        assert(forall|j: int| 0 <= j < rest.len() ==> #[trigger] rest[j] == cands[j + 1]);
        match spec_find_by_name_and_type(live, c.settings.name, c.settings.device_type) {
            Option::None => {
                assert(sv1 == sv);
                lemma_fold_preserves_typed(live, sv, rest);
            },
            Option::Some(new_id) => {
                lemma_find_resolves(live, c.settings.name, c.settings.device_type, new_id);
                lemma_step_elements(live, sv.devices, c, new_id);
                let list = sv.priority_list(c.settings.device_type);
                let moved_list = sv1.priority_list(c.settings.device_type);
                if !c.settings.any_flag() {
                    assert(list.contains(c.id));
                }
                if list.contains(c.id) {
                    let p = spec_position(list, c.id);
                    assert(0 <= p < list.len() && list[p] == c.id) by {
                        let w = choose|w: int| 0 <= w < list.len() && list[w] == c.id;
                        crate::menu::lemma_first_occurrence_exists(list, c.id, w);
                    }
                    assert(moved_list == list.update(p, new_id));
                    assert(moved_list.contains(new_id)) by {
                        assert(moved_list[p] == new_id);
                    }
                    assert(forall|x: Seq<char>|
                        x != c.id && x != new_id && list.contains(x)
                            ==> #[trigger] moved_list.contains(x)) by {
                        assert forall|x: Seq<char>|
                            x != c.id && x != new_id && list.contains(x) implies
                            #[trigger] moved_list.contains(x) by {
                            let q = choose|q: int| 0 <= q < list.len() && list[q] == x;
                            assert(q != p);
                            assert(moved_list[q] == x);
                        }
                    }
                } else {
                    assert(moved_list == list);
                }
                let other = match c.settings.device_type {
                    crate::types::DeviceType::Output => crate::types::DeviceType::Input,
                    crate::types::DeviceType::Input => crate::types::DeviceType::Output,
                };
                assert(sv1.priority_list(other) == sv.priority_list(other));
                assert(sv1.is_pruned_typed()) by {
                    assert forall|i: int|
                        0 <= i < sv1.devices.len() implies ((#[trigger] sv1.devices[i])
                        .settings.any_flag() || sv1.priority_list(
                        sv1.devices[i].settings.device_type,
                    ).contains(sv1.devices[i].id)) by {
                        let e = sv1.devices[i];
                        if e.id == new_id {
                            assert(e.settings == c.settings) by {
                                if !(e.id == new_id && e.settings == c.settings) {
                                    let b = choose|b: int|
                                        0 <= b < sv.devices.len() && sv.devices[b] == e
                                            && sv.devices[b].id != c.id;
                                    let k2 = crate::state::device_index(sv1.devices, new_id);
                                    assert(has_device(sv1.devices, new_id)
                                        && sv1.devices[k2].id == new_id && sv1.devices[
                                    k2].settings == c.settings) by {
                                        lemma_insert_has(sv.devices, c, new_id);
                                    }
                                    if i != k2 {
                                        assert(sv1.devices[i].id != sv1.devices[k2].id);
                                    }
                                }
                            }
                            if !c.settings.any_flag() {
                                assert(moved_list.contains(new_id));
                            }
                        } else {
                            let b = choose|b: int|
                                0 <= b < sv.devices.len() && sv.devices[b] == e && sv.devices[
                                    b
                                ].id != c.id;
                            if !e.settings.any_flag() {
                                assert(sv.priority_list(e.settings.device_type).contains(e.id));
                                if e.settings.device_type == c.settings.device_type {
                                    assert(moved_list.contains(e.id));
                                }
                            }
                        }
                    }
                }
                assert forall|j: int|
                    0 <= j < rest.len() implies (!(#[trigger] rest[j]).settings.any_flag()
                    ==> sv1.priority_list(rest[j].settings.device_type).contains(
                    rest[j].id,
                )) by {
                    if !rest[j].settings.any_flag() {
                        assert(rest[j].id != c.id);
                        assert(rest[j].id != new_id) by {
                            assert(!live_has(live, rest[j].id));
                        }
                        if rest[j].settings.device_type == c.settings.device_type {
                            assert(moved_list.contains(rest[j].id));
                        }
                    }
                }
                lemma_fold_preserves_typed(live, sv1, rest);
            },
        }
    }
}

/// Inserting the relinked entry leaves it findable with its settings.
proof fn lemma_insert_has(devices: Seq<DeviceEntryView>, c: DeviceEntryView, new_id: Seq<char>)
    requires
        unique_ids(devices),
    ensures
        ({
            let inserted = spec_devices_insert(
                spec_devices_remove(devices, c.id),
                new_id,
                c.settings,
            );
            has_device(inserted, new_id) && inserted[device_index(inserted, new_id)].id == new_id
                && inserted[device_index(inserted, new_id)].settings == c.settings
        }),
{
    let removed = spec_devices_remove(devices, c.id);
    let inserted = spec_devices_insert(removed, new_id, c.settings);
    lemma_step_elements_unique(devices, c, new_id);
    if has_device(removed, new_id) {
        let k2 = device_index(removed, new_id);
        assert(inserted[k2].id == new_id && inserted[k2].settings == c.settings);
        crate::state::lemma_device_index_unique(inserted, new_id, k2);
    } else {
        assert(inserted[removed.len() as int].id == new_id && inserted[
            removed.len() as int
        ].settings == c.settings);
        crate::state::lemma_device_index_unique(inserted, new_id, removed.len() as int);
    }
}

/// The relinked table keeps unique ids.
proof fn lemma_step_elements_unique(
    devices: Seq<DeviceEntryView>,
    c: DeviceEntryView,
    new_id: Seq<char>,
)
    requires
        unique_ids(devices),
    ensures
        unique_ids(spec_devices_insert(spec_devices_remove(devices, c.id), new_id, c.settings)),
{
    let removed = spec_devices_remove(devices, c.id);
    assert(unique_ids(removed)) by {
        if has_device(devices, c.id) {
            let k = device_index(devices, c.id);
            assert forall|i: int, j: int|
                0 <= i < removed.len() && 0 <= j < removed.len() && i != j implies removed[i].id
                != removed[j].id by {
                let oi: int = if i < k {
                    i
                } else {
                    i + 1
                };
                let oj: int = if j < k {
                    j
                } else {
                    j + 1
                };
                assert(removed[i] == devices[oi] && removed[j] == devices[oj]);
            }
        }
    }
    let inserted = spec_devices_insert(removed, new_id, c.settings);
    assert(unique_ids(inserted)) by {
        if has_device(removed, new_id) {
            assert forall|i: int, j: int|
                0 <= i < inserted.len() && 0 <= j < inserted.len() && i != j implies inserted[
            i].id != inserted[j].id by {
                assert(inserted[i].id == removed[i].id && inserted[j].id == removed[j].id);
            }
        } else {
            assert forall|i: int, j: int|
                0 <= i < inserted.len() && 0 <= j < inserted.len() && i != j implies inserted[
            i].id != inserted[j].id by {
                if i < removed.len() && j < removed.len() {
                    assert(inserted[i].id == removed[i].id && inserted[j].id == removed[j].id);
                } else if i < removed.len() {
                    assert(inserted[j].id == new_id && inserted[i].id == removed[i].id);
                    if removed[i].id == new_id {
                        assert(has_device(removed, new_id));
                    }
                } else {
                    assert(inserted[i].id == new_id && inserted[j].id == removed[j].id);
                    if removed[j].id == new_id {
                        assert(has_device(removed, new_id));
                    }
                }
            }
        }
    }
}

/// Migration preserves the pruning invariant: on a state whose flagless
/// entries stand in their own type's priority list, a relink moves that
/// reference along with the entry, so no garbage entry appears.
pub proof fn lemma_migrate_preserves_pruned(live: Seq<LiveDeviceView>, sv: StateView)
    requires
        crate::live::live_wf(live),
        unique_ids(sv.devices),
        sv.is_pruned_typed(),
    ensures
        spec_migrate(live, sv).is_pruned_typed(),
        spec_migrate(live, sv).is_pruned(),
{
    let updated = StateView { devices: spec_update_names(live, sv.devices), ..sv };
    let cands = spec_candidates(live, sv.devices);
    assert(forall|i: int|
        0 <= i < updated.devices.len() ==> #[trigger] updated.devices[i] == spec_updated_entry(
            live,
            sv.devices[i],
        ));
    assert(unique_ids(updated.devices)) by {
        assert(forall|i: int|
            0 <= i < updated.devices.len() ==> (#[trigger] updated.devices[i]).id
                == sv.devices[i].id);
    }
    assert(updated.is_pruned_typed()) by {
        assert(forall|i: int|
            0 <= i < updated.devices.len() ==> ((#[trigger] updated.devices[i])
                .settings.any_flag() == sv.devices[i].settings.any_flag()
                && updated.devices[i].settings.device_type == sv.devices[i].settings.device_type
                && updated.devices[i].id == sv.devices[i].id));
    }
    lemma_candidates_from_table(live, sv.devices);
    lemma_candidates_unique(live, sv.devices);
    assert forall|j: int|
        0 <= j < cands.len() implies (!(#[trigger] cands[j]).settings.any_flag()
        ==> updated.priority_list(cands[j].settings.device_type).contains(cands[j].id)) by {
        let i = choose|i: int|
            0 <= i < sv.devices.len() && cands[j] == sv.devices[i] && !live_has(
                live,
                sv.devices[i].id,
            );
    }
    assert forall|j: int| 0 <= j < cands.len() implies !live_has(
        live,
        (#[trigger] cands[j]).id,
    ) by {
        let i = choose|i: int|
            0 <= i < sv.devices.len() && cands[j] == sv.devices[i] && !live_has(
                live,
                sv.devices[i].id,
            );
    }
    lemma_fold_preserves_typed(live, updated, cands);
    lemma_pruned_typed_implies_pruned(spec_migrate(live, sv));
}

/// Migration is idempotent: with an unchanged topology, running it on an
/// already-migrated state returns the state unchanged and reports that no
/// change occurred.
pub proof fn lemma_migrate_idempotent(live: Seq<LiveDeviceView>, sv: StateView)
    requires
        crate::live::live_wf(live),
        unique_ids(sv.devices),
    ensures
        spec_migrate(live, spec_migrate(live, sv)) == spec_migrate(live, sv),
        !spec_any_change(live, spec_migrate(live, sv)),
{
    lemma_migrate_establishes_fixed(live, sv);
    lemma_migrate_fixed_point(live, spec_migrate(live, sv));
}

} // verus!
