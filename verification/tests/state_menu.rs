use volume_locker::menu::{
    MenuEventResult, TemporaryPriorities, add_to_priority, apply_setting_toggle,
    handle_menu_event, move_priority_down, move_priority_up, remove_from_priority,
};
use volume_locker::state::{DeviceEntry, DeviceSettings, PersistentState};
use volume_locker::types::{DeviceSettingType, DeviceType, MenuItemDeviceInfo};
use volume_locker::watch::plan_watch_refresh;
use volume_locker::types::LiveDevice;

fn info(id: &str, setting_type: DeviceSettingType, device_type: DeviceType) -> MenuItemDeviceInfo {
    MenuItemDeviceInfo {
        device_id: id.to_string(),
        setting_type,
        name: format!("{id} name"),
        device_type,
    }
}

fn garbage_free(state: &PersistentState) -> bool {
    state.devices.iter().all(|e| {
        e.settings.is_volume_locked
            || e.settings.is_unmute_locked
            || e.settings.notify_on_volume_lock
            || e.settings.notify_on_unmute_lock
            || state.output_priority_list.contains(&e.id)
            || state.input_priority_list.contains(&e.id)
    })
}

#[test]
fn default_state_toggles() {
    let state = PersistentState::new();
    assert!(state.get_switch_communication_device(DeviceType::Output));
    assert!(state.get_switch_communication_device(DeviceType::Input));
    assert!(!state.get_notify_on_priority_restore(DeviceType::Output));
    assert!(!state.get_switch_foreground_app(DeviceType::Input));
    assert!(state.devices.is_empty());
}

#[test]
fn volume_lock_toggle_captures_current_volume() {
    let mut state = PersistentState::new();
    apply_setting_toggle(
        &mut state,
        &"dev".to_string(),
        DeviceType::Output,
        &"Speakers".to_string(),
        DeviceSettingType::VolumeLock,
        true,
        Some(62),
    );
    assert_eq!(state.devices.len(), 1);
    assert!(state.devices[0].settings.is_volume_locked);
    assert_eq!(state.devices[0].settings.volume_percent, 62);
    assert_eq!(state.devices[0].settings.name, "Speakers");
}

#[test]
fn volume_lock_toggle_without_volume_reading_stays_off() {
    let mut state = PersistentState::new();
    apply_setting_toggle(
        &mut state,
        &"dev".to_string(),
        DeviceType::Output,
        &"Speakers".to_string(),
        DeviceSettingType::VolumeLock,
        true,
        None,
    );
    // The lock could not capture a volume; the fresh entry is garbage and
    // is pruned.
    assert!(state.devices.is_empty());
    assert!(garbage_free(&state));
}

#[test]
fn unchecking_last_flag_prunes_unreferenced_entry() {
    let mut state = PersistentState::new();
    apply_setting_toggle(
        &mut state,
        &"dev".to_string(),
        DeviceType::Output,
        &"Speakers".to_string(),
        DeviceSettingType::UnmuteLock,
        true,
        None,
    );
    assert_eq!(state.devices.len(), 1);
    apply_setting_toggle(
        &mut state,
        &"dev".to_string(),
        DeviceType::Output,
        &"Speakers".to_string(),
        DeviceSettingType::UnmuteLock,
        false,
        None,
    );
    assert!(state.devices.is_empty());
    assert!(garbage_free(&state));
}

#[test]
fn unchecking_last_flag_keeps_entry_referenced_by_priority_list() {
    let mut state = PersistentState::new();
    add_to_priority(
        &mut state,
        &"dev".to_string(),
        &"Speakers".to_string(),
        DeviceType::Output,
    );
    apply_setting_toggle(
        &mut state,
        &"dev".to_string(),
        DeviceType::Output,
        &"Speakers".to_string(),
        DeviceSettingType::UnmuteLock,
        true,
        None,
    );
    apply_setting_toggle(
        &mut state,
        &"dev".to_string(),
        DeviceType::Output,
        &"Speakers".to_string(),
        DeviceSettingType::UnmuteLock,
        false,
        None,
    );
    assert_eq!(state.devices.len(), 1);
    assert!(garbage_free(&state));
}

#[test]
fn add_to_priority_is_idempotent_and_creates_entry() {
    let mut state = PersistentState::new();
    assert!(add_to_priority(
        &mut state,
        &"dev".to_string(),
        &"Speakers".to_string(),
        DeviceType::Output,
    ));
    assert!(!add_to_priority(
        &mut state,
        &"dev".to_string(),
        &"Speakers".to_string(),
        DeviceType::Output,
    ));
    assert_eq!(state.output_priority_list, vec!["dev".to_string()]);
    assert_eq!(state.devices.len(), 1);
    assert!(garbage_free(&state));
}

#[test]
fn remove_from_priority_prunes_flagless_entry() {
    let mut state = PersistentState::new();
    add_to_priority(
        &mut state,
        &"dev".to_string(),
        &"Speakers".to_string(),
        DeviceType::Output,
    );
    assert!(remove_from_priority(
        &mut state,
        &"dev".to_string(),
        DeviceType::Output,
    ));
    assert!(state.output_priority_list.is_empty());
    assert!(state.devices.is_empty());
    assert!(garbage_free(&state));
}

#[test]
fn remove_from_priority_keeps_locked_entry() {
    let mut state = PersistentState::new();
    add_to_priority(
        &mut state,
        &"dev".to_string(),
        &"Speakers".to_string(),
        DeviceType::Output,
    );
    apply_setting_toggle(
        &mut state,
        &"dev".to_string(),
        DeviceType::Output,
        &"Speakers".to_string(),
        DeviceSettingType::VolumeLock,
        true,
        Some(30),
    );
    remove_from_priority(&mut state, &"dev".to_string(), DeviceType::Output);
    assert_eq!(state.devices.len(), 1);
    assert!(garbage_free(&state));
}

#[test]
fn move_priority_up_and_down_swap_neighbours() {
    let mut state = PersistentState::new();
    for id in ["a", "b", "c"] {
        add_to_priority(
            &mut state,
            &id.to_string(),
            &format!("{id} name"),
            DeviceType::Input,
        );
    }
    assert!(move_priority_up(
        &mut state,
        &"b".to_string(),
        DeviceType::Input
    ));
    assert_eq!(
        state.input_priority_list,
        vec!["b".to_string(), "a".to_string(), "c".to_string()]
    );
    assert!(!move_priority_up(
        &mut state,
        &"b".to_string(),
        DeviceType::Input
    ));
    assert!(move_priority_down(
        &mut state,
        &"a".to_string(),
        DeviceType::Input
    ));
    assert_eq!(
        state.input_priority_list,
        vec!["b".to_string(), "c".to_string(), "a".to_string()]
    );
    assert!(!move_priority_down(
        &mut state,
        &"a".to_string(),
        DeviceType::Input
    ));
    assert!(garbage_free(&state));
}

#[test]
fn handle_menu_event_dispatches_and_reports() {
    let mut state = PersistentState::new();
    let mut temporary = TemporaryPriorities::new();

    let result = handle_menu_event(
        &info("dev", DeviceSettingType::UnmuteLock, DeviceType::Output),
        Some(true),
        None,
        &mut state,
        &mut temporary,
    );
    assert_eq!(
        result,
        MenuEventResult {
            should_save: true,
            devices_changed: false
        }
    );
    assert!(state.devices[0].settings.is_unmute_locked);

    // A click whose menu item was not found changes nothing.
    let result = handle_menu_event(
        &info("dev", DeviceSettingType::UnmuteLock, DeviceType::Output),
        None,
        None,
        &mut state,
        &mut temporary,
    );
    assert!(!result.should_save);

    let result = handle_menu_event(
        &info("dev", DeviceSettingType::SwitchCommunicationDevice, DeviceType::Output),
        Some(false),
        None,
        &mut state,
        &mut temporary,
    );
    assert!(result.should_save);
    assert!(!state.get_switch_communication_device(DeviceType::Output));

    let result = handle_menu_event(
        &info("dev", DeviceSettingType::SetTemporaryPriority, DeviceType::Output),
        Some(true),
        None,
        &mut state,
        &mut temporary,
    );
    assert_eq!(
        result,
        MenuEventResult {
            should_save: false,
            devices_changed: true
        }
    );
    assert_eq!(temporary.output, Some("dev".to_string()));

    let result = handle_menu_event(
        &info("dev", DeviceSettingType::SetTemporaryPriority, DeviceType::Output),
        Some(false),
        None,
        &mut state,
        &mut temporary,
    );
    assert!(result.devices_changed);
    assert_eq!(temporary.output, None);
}

#[test]
fn handle_menu_event_priority_restore_notify_flag() {
    let mut state = PersistentState::new();
    let mut temporary = TemporaryPriorities::new();
    let result = handle_menu_event(
        &info("", DeviceSettingType::PriorityRestoreNotify, DeviceType::Input),
        Some(true),
        None,
        &mut state,
        &mut temporary,
    );
    assert!(result.should_save);
    assert!(state.get_notify_on_priority_restore(DeviceType::Input));
}

#[test]
fn watch_plan_lists_locked_active_resolvable_devices() {
    let mut state = PersistentState::new();
    state.devices.push(DeviceEntry {
        id: "locked-active".to_string(),
        settings: DeviceSettings {
            is_volume_locked: true,
            volume_percent: 10,
            notify_on_volume_lock: false,
            is_unmute_locked: true,
            notify_on_unmute_lock: true,
            device_type: DeviceType::Output,
            name: "A".to_string(),
        },
    });
    state.devices.push(DeviceEntry {
        id: "locked-inactive".to_string(),
        settings: DeviceSettings {
            is_volume_locked: true,
            volume_percent: 10,
            notify_on_volume_lock: false,
            is_unmute_locked: false,
            notify_on_unmute_lock: false,
            device_type: DeviceType::Output,
            name: "B".to_string(),
        },
    });
    state.devices.push(DeviceEntry {
        id: "unlocked".to_string(),
        settings: DeviceSettings {
            is_volume_locked: false,
            volume_percent: 0,
            notify_on_volume_lock: true,
            is_unmute_locked: false,
            notify_on_unmute_lock: false,
            device_type: DeviceType::Output,
            name: "C".to_string(),
        },
    });
    let topology = vec![
        LiveDevice {
            id: "locked-active".to_string(),
            name: "A".to_string(),
            device_type: DeviceType::Output,
            is_active: true,
        },
        LiveDevice {
            id: "locked-inactive".to_string(),
            name: "B".to_string(),
            device_type: DeviceType::Output,
            is_active: false,
        },
        LiveDevice {
            id: "unlocked".to_string(),
            name: "C".to_string(),
            device_type: DeviceType::Output,
            is_active: true,
        },
    ];
    let plan = plan_watch_refresh(&state, &topology);
    assert_eq!(plan.len(), 1);
    assert_eq!(plan[0].device_id, "locked-active");
    assert!(plan[0].is_unmute_locked);
    assert!(plan[0].notify_on_unmute_lock);
}
