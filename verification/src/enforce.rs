//! Priority enforcement: given the persisted priority order, the session
//! override, and the live topology, decide which device must be the default
//! and which default-device switches to issue. The caller performs the
//! returned switches and shows the returned notification through the
//! debouncer. Console and Multimedia are always driven to the same target;
//! Communications follows only when its per-type toggle is on.

use vstd::prelude::*;

use crate::debounce::{Notification, NotificationView};
use crate::live::{live_find, live_get, live_has, live_is_active, live_wf, spec_is_active};
use crate::state::{PersistentState, StateView};
use crate::types::{DeviceRole, DeviceType, LiveDevice, LiveDeviceView};

verus! {

/// One default-device switch to issue against the backend.
#[derive(Debug, Clone)]
pub struct SwitchAction {
    pub device_id: String,
    pub role: DeviceRole,
}

#[verifier::ext_equal]
pub ghost struct SwitchActionView {
    pub device_id: Seq<char>,
    pub role: DeviceRole,
}

impl View for SwitchAction {
    type V = SwitchActionView;

    open spec fn view(&self) -> SwitchActionView {
        SwitchActionView { device_id: self.device_id@, role: self.role }
    }
}

impl DeepView for SwitchAction {
    type V = SwitchActionView;

    open spec fn deep_view(&self) -> SwitchActionView {
        self@
    }
}

impl DeepView for Notification {
    type V = NotificationView;

    open spec fn deep_view(&self) -> NotificationView {
        self@
    }
}

/// What one enforcement pass decided: the switches to issue, whether any
/// switch was needed, and the notification to show if the user asked for
/// one.
#[derive(Debug, Clone)]
pub struct EnforcePlan {
    pub actions: Vec<SwitchAction>,
    pub switched: bool,
    pub notification: Option<Notification>,
}

#[verifier::ext_equal]
pub ghost struct EnforcePlanView {
    pub actions: Seq<SwitchActionView>,
    pub switched: bool,
    pub notification: Option<NotificationView>,
}

impl View for EnforcePlan {
    type V = EnforcePlanView;

    open spec fn view(&self) -> EnforcePlanView {
        EnforcePlanView {
            actions: self.actions.deep_view(),
            switched: self.switched,
            notification: self.notification.deep_view(),
        }
    }
}

/// The list enforcement scans: the session override first, then the
/// persisted order.
pub open spec fn spec_effective_list(
    sv: StateView,
    device_type: DeviceType,
    temporary: Option<Seq<char>>,
) -> Seq<Seq<char>> {
    match temporary {
        Some(t) => seq![t] + sv.priority_list(device_type),
        None => sv.priority_list(device_type),
    }
}

/// The first entry of `list` whose device is currently active.
pub open spec fn spec_first_active(
    list: Seq<Seq<char>>,
    live: Seq<LiveDeviceView>,
) -> Option<Seq<char>>
    decreases list.len(),
{
    if list.len() == 0 {
        None
    } else if spec_is_active(live, list[0]) {
        Some(list[0])
    } else {
        spec_first_active(list.drop_first(), live)
    }
}

/// The device enforcement wants as the default: the highest-priority active
/// entry of the effective list.
pub open spec fn spec_target(
    sv: StateView,
    device_type: DeviceType,
    temporary: Option<Seq<char>>,
    live: Seq<LiveDeviceView>,
) -> Option<Seq<char>> {
    spec_first_active(spec_effective_list(sv, device_type, temporary), live)
}

/// The display name enforcement reports for a switched-to device.
pub open spec fn spec_display_name(live: Seq<LiveDeviceView>, id: Seq<char>) -> Seq<char> {
    if live_has(live, id) {
        live_get(live, id).name
    } else {
        "Unknown Device"@
    }
}

pub open spec fn spec_restore_title(device_type: DeviceType) -> Seq<char> {
    match device_type {
        DeviceType::Output => "Default Output Device Restored"@,
        DeviceType::Input => "Default Input Device Restored"@,
    }
}

/// Everything one enforcement pass must decide, as a relation between the
/// inputs and the returned plan. `console_default` and `comm_default` are
/// the backend's current defaults for the Console and Communications roles,
/// `None` where the query failed (a failed query counts as wrong, so the
/// switch is issued).
pub open spec fn enforce_plan_ok(
    plan: EnforcePlanView,
    sv: StateView,
    device_type: DeviceType,
    temporary: Option<Seq<char>>,
    live: Seq<LiveDeviceView>,
    console_default: Option<Seq<char>>,
    comm_default: Option<Seq<char>>,
) -> bool {
    match spec_target(sv, device_type, temporary, live) {
        None => plan.actions.len() == 0 && !plan.switched && plan.notification is None,
        Some(t) => {
            let console_wrong = console_default != Some(t);
            let comm_wrong = sv.switch_communication_device(device_type) && comm_default != Some(
                t,
            );
            &&& plan.actions == (if console_wrong {
                seq![
                    SwitchActionView { device_id: t, role: DeviceRole::Console },
                    SwitchActionView { device_id: t, role: DeviceRole::Multimedia },
                ]
            } else {
                Seq::<SwitchActionView>::empty()
            }) + (if comm_wrong {
                seq![SwitchActionView { device_id: t, role: DeviceRole::Communications }]
            } else {
                Seq::<SwitchActionView>::empty()
            })
            &&& plan.switched == (console_wrong || comm_wrong)
            &&& match plan.notification {
                Some(n) => {
                    &&& plan.switched && sv.notify_on_priority_restore(device_type)
                    &&& n.key == "priority_restore_"@ + t
                    &&& n.title == spec_restore_title(device_type)
                    &&& n.body == "Switched to "@ + spec_display_name(live, t)
                        + " based on priority list."@
                },
                None => !(plan.switched && sv.notify_on_priority_restore(device_type)),
            }
        },
    }
}

/// Scans a priority list in order and returns the first entry whose device
/// is currently active; `None` when none is.
pub fn find_highest_priority_active_device(
    live: &Vec<LiveDevice>,
    priority_list: &Vec<String>,
) -> (found: Option<String>)
    requires
        live_wf(live.deep_view()),
    ensures
        found.deep_view() == spec_first_active(priority_list.deep_view(), live.deep_view()),
{
    let ghost all = priority_list.deep_view();
    proof {
        assert(all.skip(0) =~= all);
    }
    let n = priority_list.len();
    for i in 0..n
        invariant
            n == priority_list.len(),
            all == priority_list.deep_view(),
            live_wf(live.deep_view()),
            spec_first_active(all, live.deep_view()) == spec_first_active(
                all.skip(i as int),
                live.deep_view(),
            ),
    {
        proof {
            assert(all.skip(i as int)[0] == all[i as int]);
            assert(all.skip(i as int).drop_first() =~= all.skip(i as int + 1));
        }
        if live_is_active(live, &priority_list[i]) {
            return Some(priority_list[i].clone());
        }
    }
    proof {
        assert(all.skip(n as int) =~= Seq::<Seq<char>>::empty());
    }
    None
}

/// Whether `device_id` is the current default: the default query succeeded
/// and returned the same id.
pub fn is_default_device(default_id: &Option<String>, device_id: &String) -> (is_default: bool)
    ensures
        is_default == (default_id.deep_view() == Some(device_id@)),
{
    match default_id {
        Some(d) => d.eq(device_id),
        None => false,
    }
}

/// One enforcement pass for one device type.
pub fn enforce_priority_for_type(
    state: &PersistentState,
    device_type: DeviceType,
    temporary: &Option<String>,
    live: &Vec<LiveDevice>,
    console_default: &Option<String>,
    comm_default: &Option<String>,
) -> (plan: EnforcePlan)
    requires
        live_wf(live.deep_view()),
    ensures
        enforce_plan_ok(
            plan@,
            state@,
            device_type,
            temporary.deep_view(),
            live.deep_view(),
            console_default.deep_view(),
            comm_default.deep_view(),
        ),
{
    let target_opt: Option<String> = match temporary {
        Some(t) => {
            proof {
                let eff = spec_effective_list(state@, device_type, temporary.deep_view());
                assert(eff[0] == t@);
                assert(eff.drop_first() =~= state@.priority_list(device_type));
            }
            if live_is_active(live, t) {
                Some(t.clone())
            } else {
                find_highest_priority_active_device(live, state.get_priority_list(device_type))
            }
        },
        None => find_highest_priority_active_device(live, state.get_priority_list(device_type)),
    };
    let target = match target_opt {
        Some(t) => t,
        None => {
            return EnforcePlan { actions: Vec::new(), switched: false, notification: None };
        },
    };
    let ghost t = target@;
    let mut actions: Vec<SwitchAction> = Vec::new();
    let mut switched = false;
    let console_ok = is_default_device(console_default, &target);
    if !console_ok {
        actions.push(SwitchAction { device_id: target.clone(), role: DeviceRole::Console });
        actions.push(SwitchAction { device_id: target.clone(), role: DeviceRole::Multimedia });
        switched = true;
    }
    if state.get_switch_communication_device(device_type) {
        let comm_ok = is_default_device(comm_default, &target);
        if !comm_ok {
            actions.push(
                SwitchAction { device_id: target.clone(), role: DeviceRole::Communications },
            );
            switched = true;
        }
    }
    proof {
        let console_wrong = console_default.deep_view() != Some(t);
        let comm_wrong = state@.switch_communication_device(device_type)
            && comm_default.deep_view() != Some(t);
        assert(actions.deep_view() =~= (if console_wrong {
            seq![
                SwitchActionView { device_id: t, role: DeviceRole::Console },
                SwitchActionView { device_id: t, role: DeviceRole::Multimedia },
            ]
        } else {
            Seq::<SwitchActionView>::empty()
        }) + (if comm_wrong {
            seq![SwitchActionView { device_id: t, role: DeviceRole::Communications }]
        } else {
            Seq::<SwitchActionView>::empty()
        }));
    }
    let notification = if switched && state.get_notify_on_priority_restore(device_type) {
        let name: String = match live_find(live, &target) {
            Some(d) => d.name.clone(),
            None => String::from_str("Unknown Device"),
        };
        let key = String::from_str("priority_restore_").concat(target.as_str());
        let title = match device_type {
            DeviceType::Output => String::from_str("Default Output Device Restored"),
            DeviceType::Input => String::from_str("Default Input Device Restored"),
        };
        let body = String::from_str("Switched to ").concat(name.as_str()).concat(
            " based on priority list.",
        );
        Some(Notification { key, title, body })
    } else {
        None
    };
    EnforcePlan { actions, switched, notification }
}

/// Enforcement for both device types: the output pass, then the input pass,
/// each against its own session override and current defaults.
pub fn enforce_priorities(
    state: &PersistentState,
    temporary: &crate::menu::TemporaryPriorities,
    live: &Vec<LiveDevice>,
    output_console_default: &Option<String>,
    output_comm_default: &Option<String>,
    input_console_default: &Option<String>,
    input_comm_default: &Option<String>,
) -> (plans: (EnforcePlan, EnforcePlan))
    requires
        live_wf(live.deep_view()),
    ensures
        enforce_plan_ok(
            plans.0@,
            state@,
            DeviceType::Output,
            temporary@.output,
            live.deep_view(),
            output_console_default.deep_view(),
            output_comm_default.deep_view(),
        ),
        enforce_plan_ok(
            plans.1@,
            state@,
            DeviceType::Input,
            temporary@.input,
            live.deep_view(),
            input_console_default.deep_view(),
            input_comm_default.deep_view(),
        ),
{
    let output_plan = enforce_priority_for_type(
        state,
        DeviceType::Output,
        temporary.of_type(DeviceType::Output),
        live,
        output_console_default,
        output_comm_default,
    );
    let input_plan = enforce_priority_for_type(
        state,
        DeviceType::Input,
        temporary.of_type(DeviceType::Input),
        live,
        input_console_default,
        input_comm_default,
    );
    (output_plan, input_plan)
}

/// Priority selection is deterministic: with the list `[a, b, c]` of which
/// only `b` and `c` are active, enforcement targets `b`.
pub proof fn lemma_priority_selection_determinism(
    live: Seq<LiveDeviceView>,
    a: Seq<char>,
    b: Seq<char>,
    c: Seq<char>,
)
    requires
        !spec_is_active(live, a),
        spec_is_active(live, b),
        spec_is_active(live, c),
    ensures
        spec_first_active(seq![a, b, c], live) == Some(b),
{
    let l = seq![a, b, c];
    assert(l[0] == a);
    assert(l.drop_first() =~= seq![b, c]);
    assert(seq![b, c][0] == b);
    assert(spec_first_active(seq![b, c], live) == Some(b));
    assert(spec_first_active(l, live) == spec_first_active(seq![b, c], live));
}

/// An active session override is targeted ahead of the whole persisted
/// list, whatever that list's order.
pub proof fn lemma_temporary_override_wins(
    live: Seq<LiveDeviceView>,
    d: Seq<char>,
    list: Seq<Seq<char>>,
)
    requires
        spec_is_active(live, d),
    ensures
        spec_first_active(seq![d] + list, live) == Some(d),
{
    assert((seq![d] + list)[0] == d);
}

/// The same, stated of a whole enforcement pass: with an active override
/// set, that override is the pass's target, whatever the persisted list.
pub proof fn lemma_temporary_override_targets(
    sv: StateView,
    device_type: DeviceType,
    live: Seq<LiveDeviceView>,
    d: Seq<char>,
)
    requires
        spec_is_active(live, d),
    ensures
        spec_target(sv, device_type, Some(d), live) == Some(d),
{
    lemma_temporary_override_wins(live, d, sv.priority_list(device_type));
}

} // verus!
