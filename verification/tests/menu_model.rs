use volume_locker::menu::TemporaryPriorities;
use volume_locker::menu_model::{
    MenuDevice, append_device_list_to_menu, append_priority_list_to_menu, build_temporary_menu,
    rebuild_tray_menu, to_label,
};
use volume_locker::state::{DeviceEntry, DeviceSettings, PersistentState};
use volume_locker::types::{DeviceSettingType, DeviceType, LiveDevice};

fn shown(id: &str, name: &str, volume_percent: u32, is_muted: bool) -> MenuDevice {
    MenuDevice {
        id: id.to_string(),
        name: name.to_string(),
        volume_percent,
        is_muted,
    }
}

fn entry(id: &str, name: &str, volume_locked: bool) -> DeviceEntry {
    DeviceEntry {
        id: id.to_string(),
        settings: DeviceSettings {
            is_volume_locked: volume_locked,
            volume_percent: 50,
            notify_on_volume_lock: false,
            is_unmute_locked: false,
            notify_on_unmute_lock: false,
            device_type: DeviceType::Output,
            name: name.to_string(),
        },
    }
}

#[test]
fn labels_carry_all_indicators() {
    assert_eq!(
        to_label(&"Speakers".to_string(), 55, false, false, false),
        "Speakers · 55%"
    );
    assert_eq!(
        to_label(&"Speakers".to_string(), 55, true, true, true),
        "Speakers · ☆ · 55% 🚫 · 🔒"
    );
    assert_eq!(
        to_label(&"Mic".to_string(), 0, false, true, false),
        "Mic · 0% · 🔒"
    );
}

#[test]
fn device_section_reflects_settings_and_refreshes_names() {
    let mut state = PersistentState::new();
    state.devices.push(entry("dev", "Old Name", true));
    let devices = vec![shown("dev", "New Name", 33, true), shown("other", "Other", 60, false)];
    let entries = append_device_list_to_menu(
        &mut state,
        &devices,
        DeviceType::Output,
        &Some("dev".to_string()),
    );
    assert_eq!(entries.len(), 2);
    // The shown flags come from the stored settings.
    assert!(entries[0].volume_lock.checked);
    assert!(entries[0].volume_notify.enabled);
    assert!(!entries[0].volume_notify.checked);
    assert!(!entries[0].unmute_lock.checked);
    assert!(!entries[0].unmute_notify.enabled);
    assert_eq!(entries[0].label, "New Name · ☆ · 33% 🚫 · 🔒");
    assert_eq!(
        entries[0].volume_lock.info.setting_type,
        DeviceSettingType::VolumeLock
    );
    // A device without an entry shows everything off.
    assert!(!entries[1].volume_lock.checked);
    assert_eq!(entries[1].label, "Other · 60%");
    // The stored name was refreshed; no entry was created for the other
    // device.
    assert_eq!(state.devices.len(), 1);
    assert_eq!(state.devices[0].settings.name, "New Name");
}

#[test]
fn priority_section_rows_and_candidates() {
    let mut state = PersistentState::new();
    state.devices.push(entry("a", "Device A", false));
    state.output_priority_list = vec!["a".to_string(), "missing".to_string()];
    let topology = vec![LiveDevice {
        id: "b".to_string(),
        name: "Device B".to_string(),
        device_type: DeviceType::Output,
        is_active: true,
    }];
    let devices = vec![shown("a", "Device A", 10, false), shown("b", "Device B", 20, false)];
    let model = append_priority_list_to_menu(
        &state,
        &topology,
        DeviceType::Output,
        &None,
        &devices,
    );
    assert_eq!(model.heading, "Default output device priority");
    assert_eq!(model.rows.len(), 2);
    assert_eq!(model.rows[0].label, "1. Device A");
    assert!(!model.rows[0].move_up_enabled);
    assert!(model.rows[0].move_down_enabled);
    // An id that neither the table nor the snapshot resolves shows the
    // placeholder.
    assert_eq!(model.rows[1].label, "2. Unknown Device");
    assert!(model.rows[1].move_up_enabled);
    assert!(!model.rows[1].move_down_enabled);
    // Only the unlisted shown device is offered for adding.
    assert!(model.add_enabled);
    assert_eq!(model.add_candidates.len(), 1);
    assert_eq!(model.add_candidates[0].device_id, "b");
    assert!(model.notify_on_restore.enabled);
    assert!(!model.notify_on_restore.checked);
    assert!(model.switch_communication.checked);
}

#[test]
fn priority_section_toggles_disabled_when_empty() {
    let state = PersistentState::new();
    let model = append_priority_list_to_menu(
        &state,
        &Vec::new(),
        DeviceType::Input,
        &None,
        &Vec::new(),
    );
    assert!(!model.notify_on_restore.enabled);
    assert!(!model.switch_communication.enabled);
    assert!(!model.switch_foreground.enabled);
    assert!(!model.add_enabled);
    assert!(model.rows.is_empty());
}

#[test]
fn temporary_submenu_shows_override() {
    let mut state = PersistentState::new();
    state.devices.push(entry("a", "Device A", false));
    let devices = vec![shown("a", "Device A", 10, false), shown("b", "Device B", 20, false)];
    let model = build_temporary_menu(
        &state,
        &Vec::new(),
        DeviceType::Output,
        &Some("a".to_string()),
        &devices,
    );
    assert_eq!(model.label, "Output device: Device A");
    assert_eq!(model.items.len(), 2);
    assert!(model.items[0].checked);
    assert!(!model.items[1].checked);
    assert_eq!(
        model.items[0].info.setting_type,
        DeviceSettingType::SetTemporaryPriority
    );

    let model = build_temporary_menu(
        &state,
        &Vec::new(),
        DeviceType::Input,
        &None,
        &Vec::new(),
    );
    assert_eq!(model.label, "Input device");
}

#[test]
fn full_rebuild_assembles_every_section() {
    let mut state = PersistentState::new();
    state.devices.push(entry("out", "Out Dev", true));
    state.output_priority_list = vec!["out".to_string()];
    let topology = vec![LiveDevice {
        id: "out".to_string(),
        name: "Out Dev".to_string(),
        device_type: DeviceType::Output,
        is_active: true,
    }];
    let outputs = vec![shown("out", "Out Dev", 40, false)];
    let inputs = vec![shown("mic", "Mic Dev", 80, false)];
    let temporary = TemporaryPriorities::new();
    let model = rebuild_tray_menu(
        &mut state,
        &topology,
        &outputs,
        &inputs,
        &temporary,
        &Some("out".to_string()),
        &None,
        true,
    );
    assert_eq!(model.output_devices_heading, "Output devices");
    assert_eq!(model.input_devices_heading, "Input devices");
    assert_eq!(model.output_devices.len(), 1);
    assert_eq!(model.input_devices.len(), 1);
    assert_eq!(model.output_priority.rows.len(), 1);
    assert!(model.input_priority.rows.is_empty());
    assert_eq!(model.temporary_heading, "Temporary default device priority");
    assert_eq!(model.output_temporary.label, "Output device");
    assert_eq!(model.auto_launch_label, "Auto launch on startup");
    assert!(model.auto_launch_checked);
    assert_eq!(model.quit_label, "Quit");
}
