use volume_locker::device_id::{generate_device_id, unpack_device_id};
use volume_locker::types::DeviceType;
use volume_locker::update::{check, extract_release_tag, trim_version_prefix};

const TOKEN: &str = "\\\\?\\SWD#MMDEVAPI#";
const RENDER_SUFFIX: &str = "#{e6327cad-dcec-4949-ae8a-991e976a79d2}";
const CAPTURE_SUFFIX: &str = "#{2eef81be-33fa-4800-9670-1cd474972c3f}";

#[test]
fn generate_device_id_wraps_with_token_and_suffix() {
    let packed = generate_device_id("my-id", DeviceType::Output);
    assert_eq!(packed, format!("{TOKEN}my-id{RENDER_SUFFIX}"));
    let packed = generate_device_id("my-id", DeviceType::Input);
    assert_eq!(packed, format!("{TOKEN}my-id{CAPTURE_SUFFIX}"));
}

#[test]
fn unpack_device_id_round_trips() {
    for device_type in [DeviceType::Output, DeviceType::Input] {
        let packed = generate_device_id("{0.0.0.00000000}.{guid}", device_type);
        assert_eq!(unpack_device_id(&packed), "{0.0.0.00000000}.{guid}");
    }
}

#[test]
fn unpack_device_id_leaves_plain_id_alone() {
    assert_eq!(unpack_device_id("plain-id"), "plain-id");
    assert_eq!(unpack_device_id(""), "");
}

#[test]
fn unpack_device_id_strips_each_part_alone() {
    assert_eq!(unpack_device_id(&format!("{TOKEN}abc")), "abc");
    assert_eq!(unpack_device_id(&format!("abc{RENDER_SUFFIX}")), "abc");
    assert_eq!(unpack_device_id(&format!("abc{CAPTURE_SUFFIX}")), "abc");
}

#[test]
fn release_tag_extraction() {
    assert_eq!(
        extract_release_tag("https://github.com/felipecrs/volume-locker/releases/tag/v1.2.3"),
        "v1.2.3"
    );
    assert_eq!(extract_release_tag("no-slash"), "no-slash");
    assert_eq!(extract_release_tag("ends-with/"), "");
}

#[test]
fn version_prefix_trimming() {
    assert_eq!(trim_version_prefix("v1.2.3"), "1.2.3");
    assert_eq!(trim_version_prefix("1.2.3"), "1.2.3");
    assert_eq!(trim_version_prefix("vv2.0.0"), "2.0.0");
}

#[test]
fn update_check_detects_newer_release() {
    let url = "https://github.com/felipecrs/volume-locker/releases/tag/v2.1.0".to_string();
    let (info, notice) = check(false, Some(url.clone()), "2.0.5");
    let info = info.expect("a newer version is offered");
    assert_eq!(info.latest_version, "2.1.0");
    assert_eq!(info.release_url, url);
    assert_eq!(
        info.download_url,
        "https://github.com/felipecrs/volume-locker/releases/download/v2.1.0/volume-locker.exe"
    );
    let notice = notice.expect("the user is told");
    assert_eq!(notice.title, "Update Available");
    assert_eq!(
        notice.body,
        "Version 2.1.0 is available. Click 'Update' in the menu to install."
    );
    assert!(notice.long_duration);
}

#[test]
fn update_check_same_or_older_version_offers_nothing() {
    let url = "https://github.com/felipecrs/volume-locker/releases/tag/v2.1.0".to_string();
    let (info, notice) = check(false, Some(url.clone()), "2.1.0");
    assert!(info.is_none());
    assert!(notice.is_none());
    let (info, notice) = check(true, Some(url), "3.0.0");
    assert!(info.is_none());
    let notice = notice.expect("a manual check reports no update");
    assert_eq!(notice.title, "No Updates Available");
    assert!(!notice.long_duration);
}

#[test]
fn update_check_development_build_is_silent_on_automatic_check() {
    let url = "https://github.com/felipecrs/volume-locker/releases/tag/v2.1.0".to_string();
    let (info, notice) = check(false, Some(url.clone()), "0.0.0");
    assert!(info.is_some());
    assert!(notice.is_none());
    let (_, notice) = check(true, Some(url), "0.0.0");
    assert!(notice.is_some());
}

#[test]
fn update_check_failure_notifies_only_on_manual_check() {
    let (info, notice) = check(false, None, "1.0.0");
    assert!(info.is_none());
    assert!(notice.is_none());
    let (info, notice) = check(true, None, "1.0.0");
    assert!(info.is_none());
    let notice = notice.unwrap();
    assert_eq!(notice.title, "Update Check Failed");
    assert_eq!(
        notice.body,
        "Failed to check for updates. Please check your internet connection."
    );
}

#[test]
fn update_check_unparsable_latest_is_not_newer() {
    let url = "https://github.com/felipecrs/volume-locker/releases/latest".to_string();
    let (info, _) = check(false, Some(url), "1.0.0");
    assert!(info.is_none());
}
