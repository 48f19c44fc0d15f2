//! Volume/mute reconciliation: a volume-changed event for a tracked device
//! is compared against the locked targets, and the corrections to issue are
//! returned. A correction is not a toggle: the lock always wins, and the
//! externally changed volume is driven back to the stored percent. The
//! caller issues the returned set-volume or unmute call and, on success,
//! asks for the notification to show.

use vstd::prelude::*;

use crate::debounce::{Notification, NotificationView};
use crate::state::{DeviceSettingsView, PersistentState, device_get, has_device};
use crate::text::{spec_dec_of, u64_to_string};
use crate::types::DeviceType;

verus! {

/// A set-volume correction to issue: drive `device_id` from the observed
/// percent back to the locked target. `target_volume` is the target as a
/// full-scale fraction in thousandths, ready for the backend.
#[derive(Debug, Clone)]
pub struct VolumeCorrection {
    pub device_id: String,
    pub observed_percent: u32,
    pub target_percent: u32,
    pub target_volume: u32,
}

#[verifier::ext_equal]
pub ghost struct VolumeCorrectionView {
    pub device_id: Seq<char>,
    pub observed_percent: u32,
    pub target_percent: u32,
    pub target_volume: u32,
}

impl View for VolumeCorrection {
    type V = VolumeCorrectionView;

    open spec fn view(&self) -> VolumeCorrectionView {
        VolumeCorrectionView {
            device_id: self.device_id@,
            observed_percent: self.observed_percent,
            target_percent: self.target_percent,
            target_volume: self.target_volume,
        }
    }
}

impl DeepView for VolumeCorrection {
    type V = VolumeCorrectionView;

    open spec fn deep_view(&self) -> VolumeCorrectionView {
        self@
    }
}

/// What one volume-changed event asks the caller to do for a managed
/// device: issue the volume correction, if any, and run the unmute check
/// when the unmute lock is on; the flags and name carried along are the
/// entry's, for the notifications that may follow.
#[derive(Debug, Clone)]
pub struct ReconcilePlan {
    pub volume_correction: Option<VolumeCorrection>,
    pub check_unmute: bool,
    pub notify_on_volume_lock: bool,
    pub notify_on_unmute_lock: bool,
    pub device_type: DeviceType,
    pub name: String,
}

#[verifier::ext_equal]
pub ghost struct ReconcilePlanView {
    pub volume_correction: Option<VolumeCorrectionView>,
    pub check_unmute: bool,
    pub notify_on_volume_lock: bool,
    pub notify_on_unmute_lock: bool,
    pub device_type: DeviceType,
    pub name: Seq<char>,
}

impl View for ReconcilePlan {
    type V = ReconcilePlanView;

    open spec fn view(&self) -> ReconcilePlanView {
        ReconcilePlanView {
            volume_correction: self.volume_correction.deep_view(),
            check_unmute: self.check_unmute,
            notify_on_volume_lock: self.notify_on_volume_lock,
            notify_on_unmute_lock: self.notify_on_unmute_lock,
            device_type: self.device_type,
            name: self.name@,
        }
    }
}

/// The correction a volume lock demands on an observed percent: none while
/// the lock is off or the volume already equals the target.
pub open spec fn spec_volume_correction(
    id: Seq<char>,
    settings: DeviceSettingsView,
    observed_percent: u32,
) -> Option<VolumeCorrectionView> {
    if settings.is_volume_locked && observed_percent != settings.volume_percent {
        Some(
            VolumeCorrectionView {
                device_id: id,
                observed_percent,
                target_percent: settings.volume_percent,
                target_volume: (settings.volume_percent * 10) as u32,
            },
        )
    } else {
        None
    }
}

/// The whole plan one event demands of a managed device's settings.
pub open spec fn spec_reconcile_plan(
    id: Seq<char>,
    settings: DeviceSettingsView,
    observed_percent: u32,
) -> ReconcilePlanView {
    ReconcilePlanView {
        volume_correction: spec_volume_correction(id, settings, observed_percent),
        check_unmute: settings.is_unmute_locked,
        notify_on_volume_lock: settings.notify_on_volume_lock,
        notify_on_unmute_lock: settings.notify_on_unmute_lock,
        device_type: settings.device_type,
        name: settings.name,
    }
}

/// Handles a volume-changed event: `None` when the device is not managed
/// (the event is ignored), otherwise the plan its settings demand.
/// `new_volume_percent` is the event's volume rounded to a whole percent;
/// on a synthetic re-check event the caller queries the live volume first.
pub fn on_volume_changed(
    state: &PersistentState,
    device_id: &String,
    new_volume_percent: u32,
) -> (plan: Option<ReconcilePlan>)
    requires
        state@.wf(),
    ensures
        match plan {
            Some(p) => has_device(state@.devices, device_id@) && p@ == spec_reconcile_plan(
                device_id@,
                device_get(state@.devices, device_id@),
                new_volume_percent,
            ),
            None => !has_device(state@.devices, device_id@),
        },
{
    let settings = match state.devices_get(device_id) {
        Some(s) => s,
        None => {
            return None;
        },
    };
    let volume_correction = if settings.is_volume_locked
        && new_volume_percent != settings.volume_percent {
        Some(
            VolumeCorrection {
                device_id: device_id.clone(),
                observed_percent: new_volume_percent,
                target_percent: settings.volume_percent,
                target_volume: settings.volume_percent * 10,
            },
        )
    } else {
        None
    };
    Some(
        ReconcilePlan {
            volume_correction,
            check_unmute: settings.is_unmute_locked,
            notify_on_volume_lock: settings.notify_on_volume_lock,
            notify_on_unmute_lock: settings.notify_on_unmute_lock,
            device_type: settings.device_type,
            name: settings.name.clone(),
        },
    )
}

/// A lock correction converges and cannot oscillate: while the lock and
/// target stand, an observed volume equal to the target demands no
/// correction, and any other observed volume demands exactly the correction
/// back to the target — after which the observed volume equals the target.
pub proof fn lemma_lock_correction_converges(
    id: Seq<char>,
    settings: DeviceSettingsView,
    observed_percent: u32,
)
    requires
        settings.is_volume_locked,
    ensures
        spec_volume_correction(id, settings, settings.volume_percent) is None,
        observed_percent != settings.volume_percent ==> spec_volume_correction(
            id,
            settings,
            observed_percent,
        ) == Some(
            VolumeCorrectionView {
                device_id: id,
                observed_percent,
                target_percent: settings.volume_percent,
                target_volume: (settings.volume_percent * 10) as u32,
            },
        ),
{
}

/// Whether a mute reading demands an unmute call: only a device that
/// reports itself muted is unmuted; a failed reading skips the check.
pub fn check_and_unmute_device(is_muted: Option<bool>) -> (unmute: bool)
    ensures
        unmute == (is_muted == Some(true)),
{
    match is_muted {
        Some(true) => true,
        _ => false,
    }
}

pub open spec fn spec_unmute_title(device_type: DeviceType) -> Seq<char> {
    match device_type {
        DeviceType::Input => "Input Device Unmuted"@,
        DeviceType::Output => "Output Device Unmuted"@,
    }
}

pub open spec fn spec_unmute_suffix() -> Seq<char> {
    "was unmuted due to Keep unmuted setting."@
}

/// The title and message suffix of the unmute notification for a device
/// type.
pub fn get_unmute_notification_details(device_type: DeviceType) -> (details: (
    &'static str,
    &'static str,
))
    ensures
        details.0@ == spec_unmute_title(device_type),
        details.1@ == spec_unmute_suffix(),
{
    match device_type {
        DeviceType::Input => (
            "Input Device Unmuted",
            "was unmuted due to Keep unmuted setting.",
        ),
        DeviceType::Output => (
            "Output Device Unmuted",
            "was unmuted due to Keep unmuted setting.",
        ),
    }
}

/// The notification to show after a device was unmuted, when its settings
/// ask for one.
pub fn unmute_notification(
    device_id: &String,
    name: &String,
    device_type: DeviceType,
    notify: bool,
) -> (notification: Option<Notification>)
    ensures
        match notification {
            Some(n) => notify && n@ == (NotificationView {
                key: "unmute_"@ + device_id@,
                title: spec_unmute_title(device_type),
                body: name@ + " "@ + spec_unmute_suffix(),
            }),
            None => !notify,
        },
{
    if !notify {
        return None;
    }
    let (title, suffix) = get_unmute_notification_details(device_type);
    let key = String::from_str("unmute_").concat(device_id.as_str());
    let body = name.clone().concat(" ").concat(suffix);
    proof {
        assert(body@ == name@ + " "@ + spec_unmute_suffix());
    }
    Some(Notification { key, title: String::from_str(title), body })
}

/// The body of a volume-restored notification.
pub open spec fn spec_volume_restored_body(
    name: Seq<char>,
    observed_percent: u32,
    target_percent: u32,
) -> Seq<char> {
    "The volume of "@ + name + " has been restored from "@ + spec_dec_of(observed_percent as nat)
        + "% to "@ + spec_dec_of(target_percent as nat) + "%."@
}

/// The notification to show after a volume correction succeeded, when the
/// settings ask for one. `resolved_name` is the device's current name as
/// the backend reports it; the stored name in the correction's plan is the
/// fallback when that query failed.
pub fn volume_restored_notification(
    correction: &VolumeCorrection,
    name: &String,
    notify: bool,
) -> (notification: Option<Notification>)
    ensures
        match notification {
            Some(n) => notify && n@ == (NotificationView {
                key: "volume_restore_"@ + correction.device_id@,
                title: "Volume Restored"@,
                body: spec_volume_restored_body(
                    name@,
                    correction.observed_percent,
                    correction.target_percent,
                ),
            }),
            None => !notify,
        },
{
    if !notify {
        return None;
    }
    let key = String::from_str("volume_restore_").concat(correction.device_id.as_str());
    let body = String::from_str("The volume of ").concat(name.as_str()).concat(
        " has been restored from ",
    ).concat(u64_to_string(correction.observed_percent as u64).as_str()).concat("% to ").concat(
        u64_to_string(correction.target_percent as u64).as_str(),
    ).concat("%.");
    Some(Notification { key, title: String::from_str("Volume Restored"), body })
}

} // verus!
