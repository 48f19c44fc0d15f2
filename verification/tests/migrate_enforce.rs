use volume_locker::enforce::{
    enforce_priorities, enforce_priority_for_type, find_highest_priority_active_device,
    is_default_device,
};
use volume_locker::menu::TemporaryPriorities;
use volume_locker::migrate::migrate_device_ids;
use volume_locker::state::{DeviceEntry, DeviceSettings, PersistentState};
use volume_locker::types::{DeviceRole, DeviceType, LiveDevice};

fn settings(name: &str, device_type: DeviceType) -> DeviceSettings {
    DeviceSettings {
        is_volume_locked: true,
        volume_percent: 40,
        notify_on_volume_lock: false,
        is_unmute_locked: false,
        notify_on_unmute_lock: false,
        device_type,
        name: name.to_string(),
    }
}

fn live(id: &str, name: &str, device_type: DeviceType, is_active: bool) -> LiveDevice {
    LiveDevice {
        id: id.to_string(),
        name: name.to_string(),
        device_type,
        is_active,
    }
}

fn states_equal(a: &PersistentState, b: &PersistentState) -> bool {
    if a.devices.len() != b.devices.len() {
        return false;
    }
    for (x, y) in a.devices.iter().zip(b.devices.iter()) {
        if x.id != y.id
            || x.settings.name != y.settings.name
            || x.settings.device_type != y.settings.device_type
            || x.settings.is_volume_locked != y.settings.is_volume_locked
            || x.settings.volume_percent != y.settings.volume_percent
            || x.settings.notify_on_volume_lock != y.settings.notify_on_volume_lock
            || x.settings.is_unmute_locked != y.settings.is_unmute_locked
            || x.settings.notify_on_unmute_lock != y.settings.notify_on_unmute_lock
        {
            return false;
        }
    }
    a.output_priority_list == b.output_priority_list
        && a.input_priority_list == b.input_priority_list
        && a.notify_on_priority_restore_output == b.notify_on_priority_restore_output
        && a.notify_on_priority_restore_input == b.notify_on_priority_restore_input
        && a.switch_communication_device_output == b.switch_communication_device_output
        && a.switch_communication_device_input == b.switch_communication_device_input
        && a.switch_foreground_app_output == b.switch_foreground_app_output
        && a.switch_foreground_app_input == b.switch_foreground_app_input
}

#[test]
fn migration_relinks_device_and_priority_list() {
    let mut state = PersistentState::new();
    state.devices.push(DeviceEntry {
        id: "old-id".to_string(),
        settings: settings("Headset Mic", DeviceType::Input),
    });
    state.input_priority_list.push("old-id".to_string());

    let topology = vec![live("new-id", "Headset Mic", DeviceType::Input, true)];
    let changed = migrate_device_ids(&topology, &mut state);

    assert!(changed);
    assert_eq!(state.devices.len(), 1);
    assert_eq!(state.devices[0].id, "new-id");
    assert_eq!(state.devices[0].settings.name, "Headset Mic");
    assert_eq!(state.input_priority_list, vec!["new-id".to_string()]);
}

#[test]
fn migration_is_idempotent() {
    let mut state = PersistentState::new();
    state.devices.push(DeviceEntry {
        id: "old-out".to_string(),
        settings: settings("Speakers", DeviceType::Output),
    });
    state.devices.push(DeviceEntry {
        id: "gone".to_string(),
        settings: settings("Unplugged", DeviceType::Output),
    });
    state.devices.push(DeviceEntry {
        id: "renamed".to_string(),
        settings: settings("Old Name", DeviceType::Input),
    });
    state.output_priority_list.push("old-out".to_string());

    let topology = vec![
        live("new-out", "Speakers", DeviceType::Output, true),
        live("renamed", "New Name", DeviceType::Input, true),
    ];
    migrate_device_ids(&topology, &mut state);
    let after_first = state.clone();
    let changed_again = migrate_device_ids(&topology, &mut state);

    assert!(states_equal(&after_first, &state));
    // The second run changed nothing, and says so.
    assert!(!changed_again);
    let renamed = state
        .devices
        .iter()
        .find(|e| e.id == "renamed")
        .expect("the renamed device keeps its id");
    assert_eq!(renamed.settings.name, "New Name");
    assert!(state.devices.iter().any(|e| e.id == "new-out"));
    assert!(!state.devices.iter().any(|e| e.id == "old-out"));
    assert_eq!(state.output_priority_list, vec!["new-out".to_string()]);
}

#[test]
fn migration_with_settled_topology_reports_no_change() {
    let mut state = PersistentState::new();
    state.devices.push(DeviceEntry {
        id: "dev".to_string(),
        settings: settings("Speakers", DeviceType::Output),
    });
    let topology = vec![live("dev", "Speakers", DeviceType::Output, true)];
    assert!(!migrate_device_ids(&topology, &mut state));
    assert_eq!(state.devices[0].id, "dev");
}

#[test]
fn migration_keeps_unmatched_stale_entry() {
    let mut state = PersistentState::new();
    state.devices.push(DeviceEntry {
        id: "gone".to_string(),
        settings: settings("Unplugged", DeviceType::Output),
    });
    let topology = vec![live("other", "Different", DeviceType::Output, true)];
    let changed = migrate_device_ids(&topology, &mut state);
    // The stale entry stays untouched, and the run reports no change.
    assert!(!changed);
    assert_eq!(state.devices.len(), 1);
    assert_eq!(state.devices[0].id, "gone");
}

#[test]
fn migration_ignores_inactive_devices_when_matching_names() {
    let mut state = PersistentState::new();
    state.devices.push(DeviceEntry {
        id: "gone".to_string(),
        settings: settings("Speakers", DeviceType::Output),
    });
    let topology = vec![live("sleeping", "Speakers", DeviceType::Output, false)];
    migrate_device_ids(&topology, &mut state);
    assert_eq!(state.devices[0].id, "gone");
}

#[test]
fn priority_selection_picks_first_active() {
    let topology = vec![
        live("a", "A", DeviceType::Output, false),
        live("b", "B", DeviceType::Output, true),
        live("c", "C", DeviceType::Output, true),
    ];
    let list = vec!["a".to_string(), "b".to_string(), "c".to_string()];
    assert_eq!(
        find_highest_priority_active_device(&topology, &list),
        Some("b".to_string())
    );
}

#[test]
fn priority_enforcement_switches_console_and_multimedia_together() {
    let mut state = PersistentState::new();
    state.output_priority_list = vec!["a".to_string(), "b".to_string(), "c".to_string()];
    let topology = vec![
        live("a", "A", DeviceType::Output, false),
        live("b", "B", DeviceType::Output, true),
        live("c", "C", DeviceType::Output, true),
    ];
    let plan = enforce_priority_for_type(
        &state,
        DeviceType::Output,
        &None,
        &topology,
        &Some("c".to_string()),
        &Some("b".to_string()),
    );
    assert!(plan.switched);
    // Console is wrong: Console and Multimedia both switch to b; the
    // communication default is already b, so no third switch.
    assert_eq!(plan.actions.len(), 2);
    assert_eq!(plan.actions[0].device_id, "b");
    assert_eq!(plan.actions[0].role, DeviceRole::Console);
    assert_eq!(plan.actions[1].device_id, "b");
    assert_eq!(plan.actions[1].role, DeviceRole::Multimedia);
}

#[test]
fn temporary_override_wins_regardless_of_list_order() {
    let mut state = PersistentState::new();
    state.output_priority_list = vec!["a".to_string(), "b".to_string(), "c".to_string()];
    let topology = vec![
        live("a", "A", DeviceType::Output, false),
        live("b", "B", DeviceType::Output, true),
        live("c", "C", DeviceType::Output, true),
        live("d", "D", DeviceType::Output, true),
    ];
    let plan = enforce_priority_for_type(
        &state,
        DeviceType::Output,
        &Some("d".to_string()),
        &topology,
        &Some("b".to_string()),
        &Some("b".to_string()),
    );
    assert!(plan.switched);
    assert_eq!(plan.actions[0].device_id, "d");
}

#[test]
fn enforcement_without_active_candidate_does_nothing() {
    let mut state = PersistentState::new();
    state.output_priority_list = vec!["a".to_string()];
    let topology = vec![live("a", "A", DeviceType::Output, false)];
    let plan = enforce_priority_for_type(
        &state,
        DeviceType::Output,
        &None,
        &topology,
        &None,
        &None,
    );
    assert!(!plan.switched);
    assert!(plan.actions.is_empty());
    assert!(plan.notification.is_none());
}

#[test]
fn enforcement_respects_communication_toggle() {
    let mut state = PersistentState::new();
    state.output_priority_list = vec!["b".to_string()];
    state.switch_communication_device_output = false;
    let topology = vec![live("b", "B", DeviceType::Output, true)];
    let plan = enforce_priority_for_type(
        &state,
        DeviceType::Output,
        &None,
        &topology,
        &Some("b".to_string()),
        &Some("other".to_string()),
    );
    // Console is right and the communication switch is off: nothing to do.
    assert!(!plan.switched);
    assert!(plan.actions.is_empty());
}

#[test]
fn enforcement_notification_is_built_when_asked() {
    let mut state = PersistentState::new();
    state.output_priority_list = vec!["b".to_string()];
    state.notify_on_priority_restore_output = true;
    let topology = vec![live("b", "Nice Speakers", DeviceType::Output, true)];
    let plan = enforce_priority_for_type(
        &state,
        DeviceType::Output,
        &None,
        &topology,
        &Some("a".to_string()),
        &Some("b".to_string()),
    );
    let n = plan.notification.unwrap();
    assert_eq!(n.key, "priority_restore_b");
    assert_eq!(n.title, "Default Output Device Restored");
    assert_eq!(n.body, "Switched to Nice Speakers based on priority list.");
}

#[test]
fn enforce_priorities_runs_both_types() {
    let mut state = PersistentState::new();
    state.output_priority_list = vec!["out".to_string()];
    state.input_priority_list = vec!["mic".to_string()];
    let topology = vec![
        live("out", "Out", DeviceType::Output, true),
        live("mic", "Mic", DeviceType::Input, true),
    ];
    let temporary = TemporaryPriorities::new();
    let (output_plan, input_plan) = enforce_priorities(
        &state,
        &temporary,
        &topology,
        &None,
        &None,
        &None,
        &None,
    );
    assert_eq!(output_plan.actions[0].device_id, "out");
    assert_eq!(input_plan.actions[0].device_id, "mic");
    // A failed default query counts as wrong, so Communications switches too.
    assert_eq!(output_plan.actions.len(), 3);
    assert_eq!(output_plan.actions[2].role, DeviceRole::Communications);
}

#[test]
fn is_default_device_compares_resolved_default() {
    assert!(is_default_device(
        &Some("x".to_string()),
        &"x".to_string()
    ));
    assert!(!is_default_device(
        &Some("y".to_string()),
        &"x".to_string()
    ));
    assert!(!is_default_device(&None, &"x".to_string()));
}
