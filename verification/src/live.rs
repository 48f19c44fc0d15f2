//! Helpers over a topology snapshot: the `Vec<LiveDevice>` in which callers
//! record, for one moment, every device the backend can resolve. An id is
//! resolvable exactly when an entry carries it; an id is active when its
//! entry reports the active state.

use vstd::prelude::*;

use crate::types::{DeviceType, LiveDevice, LiveDeviceView};

verus! {

/// A snapshot lists each device once.
pub open spec fn live_wf(live: Seq<LiveDeviceView>) -> bool {
    forall|i: int, j: int|
        0 <= i < live.len() && 0 <= j < live.len() && i != j ==> live[i].id != live[j].id
}

/// Whether the snapshot resolves `id`.
pub open spec fn live_has(live: Seq<LiveDeviceView>, id: Seq<char>) -> bool {
    exists|i: int| 0 <= i < live.len() && live[i].id == id
}

/// The index of the entry for `id`; meaningful only when `live_has` holds
/// and the snapshot is well formed.
pub open spec fn live_index(live: Seq<LiveDeviceView>, id: Seq<char>) -> int {
    choose|i: int| 0 <= i < live.len() && live[i].id == id
}

/// The snapshot entry for `id`.
pub open spec fn live_get(live: Seq<LiveDeviceView>, id: Seq<char>) -> LiveDeviceView {
    live[live_index(live, id)]
}

/// Whether the device `id` currently reports the active state.
pub open spec fn spec_is_active(live: Seq<LiveDeviceView>, id: Seq<char>) -> bool {
    live_has(live, id) && live_get(live, id).is_active
}

pub proof fn lemma_live_index_unique(live: Seq<LiveDeviceView>, id: Seq<char>, i: int)
    requires
        live_wf(live),
        0 <= i < live.len(),
        live[i].id == id,
    ensures
        live_has(live, id),
        live_index(live, id) == i,
{
    assert(live_has(live, id));
    let j = live_index(live, id);
    if i != j {
        assert(live[i].id != live[j].id);
    }
}

/// Resolves `id` against the snapshot, as the backend would.
pub fn live_find<'a>(live: &'a Vec<LiveDevice>, id: &String) -> (found: Option<&'a LiveDevice>)
    requires
        live_wf(live.deep_view()),
    ensures
        match found {
            Some(d) => live_has(live.deep_view(), id@) && d@ == live_get(live.deep_view(), id@),
            None => !live_has(live.deep_view(), id@),
        },
{
    let n = live.len();
    for i in 0..n
        invariant
            n == live.len(),
            live_wf(live.deep_view()),
            forall|j: int| 0 <= j < i ==> live.deep_view()[j].id != id@,
    {
        if live[i].id.eq(id) {
            proof {
                lemma_live_index_unique(live.deep_view(), id@, i as int);
            }
            return Some(&live[i]);
        }
    }
    proof {
        if live_has(live.deep_view(), id@) {
            let w = live_index(live.deep_view(), id@);
            assert(live.deep_view()[w].id != id@);
        }
    }
    None
}

/// Whether `id` resolves and reports the active state.
pub fn live_is_active(live: &Vec<LiveDevice>, id: &String) -> (active: bool)
    requires
        live_wf(live.deep_view()),
    ensures
        active == spec_is_active(live.deep_view(), id@),
{
    match live_find(live, id) {
        Some(d) => d.is_active,
        None => false,
    }
}

/// The first snapshot entry that is active, of the given type, and carries
/// the given name; `None` when no active device of that type has the name.
/// Ties between devices sharing a name resolve to the first enumerated.
pub open spec fn spec_find_by_name_and_type(
    live: Seq<LiveDeviceView>,
    name: Seq<char>,
    device_type: DeviceType,
) -> Option<Seq<char>>
    decreases live.len(),
{
    if live.len() == 0 {
        None
    } else if live[0].is_active && live[0].device_type == device_type && live[0].name == name {
        Some(live[0].id)
    } else {
        spec_find_by_name_and_type(live.drop_first(), name, device_type)
    }
}

/// Searches the active devices of `device_type` for one named `name`,
/// first enumeration match first, as migration does.
pub fn find_device_by_name_and_type(
    live: &Vec<LiveDevice>,
    target_name: &String,
    device_type: DeviceType,
) -> (found: Option<String>)
    ensures
        found.deep_view() == spec_find_by_name_and_type(live.deep_view(), target_name@, device_type),
{
    let ghost all = live.deep_view();
    proof {
        assert(all.skip(0) =~= all);
    }
    let n = live.len();
    for i in 0..n
        invariant
            n == live.len(),
            all == live.deep_view(),
            spec_find_by_name_and_type(all, target_name@, device_type)
                == spec_find_by_name_and_type(all.skip(i as int), target_name@, device_type),
    {
        proof {
            assert(all.skip(i as int)[0] == all[i as int]);
            assert(all.skip(i as int).drop_first() =~= all.skip(i as int + 1));
        }
        if live[i].is_active && live[i].device_type == device_type && live[i].name.eq(target_name) {
            return Some(live[i].id.clone());
        }
    }
    proof {
        assert(all.skip(n as int) =~= Seq::<LiveDeviceView>::empty());
    }
    None
}

} // verus!
