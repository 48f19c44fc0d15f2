use volume_locker::debounce::NotificationTimes;
use volume_locker::reconcile::{
    check_and_unmute_device, get_unmute_notification_details, on_volume_changed,
    unmute_notification, volume_restored_notification,
};
use volume_locker::state::{DeviceEntry, DeviceSettings, PersistentState};
use volume_locker::types::DeviceType;
use volume_locker::volume::{convert_float_to_percent, convert_percent_to_float};

fn locked_state(target_percent: u32) -> PersistentState {
    let mut state = PersistentState::new();
    state.devices.push(DeviceEntry {
        id: "dev-1".to_string(),
        settings: DeviceSettings {
            is_volume_locked: true,
            volume_percent: target_percent,
            notify_on_volume_lock: true,
            is_unmute_locked: false,
            notify_on_unmute_lock: false,
            device_type: DeviceType::Output,
            name: "Speakers".to_string(),
        },
    });
    state
}

#[test]
fn volume_round_trip_all_percents() {
    for p in 0..=100u32 {
        assert_eq!(convert_float_to_percent(convert_percent_to_float(p)), p);
    }
}

#[test]
fn volume_round_trip_matches_float_reference() {
    // The same round trip computed in the backend's native floating point.
    for p in 0..=100u32 {
        let f = p as f32 / 100.0f32;
        let back = (f * 100.0f32).round() as u32;
        assert_eq!(back, p);
        let milli = (f * 1000.0f32).round() as u32;
        assert_eq!(convert_float_to_percent(milli), p);
    }
}

#[test]
fn convert_float_to_percent_rounds_half_up() {
    assert_eq!(convert_float_to_percent(0), 0);
    assert_eq!(convert_float_to_percent(4), 0);
    assert_eq!(convert_float_to_percent(5), 1);
    assert_eq!(convert_float_to_percent(994), 99);
    assert_eq!(convert_float_to_percent(995), 100);
    assert_eq!(convert_float_to_percent(1000), 100);
}

#[test]
fn lock_correction_converges_without_oscillation() {
    let state = locked_state(50);
    let id = "dev-1".to_string();

    // A live change to 70% demands exactly one correction back to 50%.
    let mut corrections = 0;
    let mut live_volume_percent = 70u32;
    let plan = on_volume_changed(&state, &id, live_volume_percent).expect("device is managed");
    if let Some(c) = &plan.volume_correction {
        assert_eq!(c.target_percent, 50);
        assert_eq!(c.target_volume, 500);
        assert_eq!(c.observed_percent, 70);
        live_volume_percent = c.target_percent;
        corrections += 1;
    }
    assert_eq!(corrections, 1);
    assert_eq!(live_volume_percent, 50);

    // The correction triggers its own change event; it must not correct again.
    let plan = on_volume_changed(&state, &id, live_volume_percent).expect("device is managed");
    assert!(plan.volume_correction.is_none());
}

#[test]
fn unmanaged_device_is_ignored() {
    let state = locked_state(50);
    assert!(on_volume_changed(&state, &"other".to_string(), 70).is_none());
}

#[test]
fn volume_at_target_needs_no_correction() {
    let state = locked_state(50);
    let plan = on_volume_changed(&state, &"dev-1".to_string(), 50).unwrap();
    assert!(plan.volume_correction.is_none());
    assert!(!plan.check_unmute);
}

#[test]
fn unlocked_device_is_left_alone() {
    let mut state = locked_state(50);
    state.devices[0].settings.is_volume_locked = false;
    let plan = on_volume_changed(&state, &"dev-1".to_string(), 70).unwrap();
    assert!(plan.volume_correction.is_none());
}

#[test]
fn debounce_suppresses_within_window_and_emits_after() {
    let mut times = NotificationTimes::new();
    let key = "volume_restore_dev-1".to_string();
    assert!(times.send_notification_debounced(&key, 1_000));
    // Within five seconds of the emission: suppressed.
    assert!(!times.send_notification_debounced(&key, 3_000));
    assert!(!times.send_notification_debounced(&key, 5_999));
    // Five seconds after the emission: emits again.
    assert!(times.send_notification_debounced(&key, 6_000));
    // And the window restarts from the new emission.
    assert!(!times.send_notification_debounced(&key, 10_999));
    assert!(times.send_notification_debounced(&key, 11_000));
}

#[test]
fn debounce_keys_are_independent() {
    let mut times = NotificationTimes::new();
    let a = "unmute_a".to_string();
    let b = "unmute_b".to_string();
    assert!(times.send_notification_debounced(&a, 0));
    assert!(times.send_notification_debounced(&b, 1));
    assert!(!times.send_notification_debounced(&a, 2));
    assert!(!times.send_notification_debounced(&b, 2));
}

#[test]
fn unmute_check_only_fires_on_muted() {
    assert!(check_and_unmute_device(Some(true)));
    assert!(!check_and_unmute_device(Some(false)));
    assert!(!check_and_unmute_device(None));
}

#[test]
fn unmute_notification_details_per_type() {
    let (title, suffix) = get_unmute_notification_details(DeviceType::Input);
    assert_eq!(title, "Input Device Unmuted");
    assert_eq!(suffix, "was unmuted due to Keep unmuted setting.");
    let (title, _) = get_unmute_notification_details(DeviceType::Output);
    assert_eq!(title, "Output Device Unmuted");
}

#[test]
fn unmute_notification_content() {
    let n = unmute_notification(
        &"dev-9".to_string(),
        &"Headset Mic".to_string(),
        DeviceType::Input,
        true,
    )
    .unwrap();
    assert_eq!(n.key, "unmute_dev-9");
    assert_eq!(n.title, "Input Device Unmuted");
    assert_eq!(n.body, "Headset Mic was unmuted due to Keep unmuted setting.");
    assert!(unmute_notification(
        &"dev-9".to_string(),
        &"Headset Mic".to_string(),
        DeviceType::Input,
        false,
    )
    .is_none());
}

#[test]
fn volume_restored_notification_content() {
    let state = locked_state(50);
    let plan = on_volume_changed(&state, &"dev-1".to_string(), 70).unwrap();
    let correction = plan.volume_correction.unwrap();
    let n = volume_restored_notification(&correction, &"Speakers".to_string(), true).unwrap();
    assert_eq!(n.key, "volume_restore_dev-1");
    assert_eq!(n.title, "Volume Restored");
    assert_eq!(
        n.body,
        "The volume of Speakers has been restored from 70% to 50%."
    );
}
