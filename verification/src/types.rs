//! The basic classifications shared by the whole library.

use vstd::prelude::*;

verus! {

/// Whether a device plays audio (`Output`) or records it (`Input`).
/// Every device and every priority list is classified by one of these.
#[derive(Debug, Clone, Copy, PartialEq, Eq, Structural)]
pub enum DeviceType {
    Input,
    Output,
}

/// The operating system's three independent "default device" slots.
#[derive(Debug, Clone, Copy, PartialEq, Eq, Structural)]
pub enum DeviceRole {
    Console,
    Multimedia,
    Communications,
}

/// What a tray-menu entry does when it is clicked.
#[derive(Debug, Clone, Copy, PartialEq, Eq, Structural)]
pub enum DeviceSettingType {
    VolumeLock,
    VolumeLockNotify,
    UnmuteLock,
    UnmuteLockNotify,
    AddToPriority,
    RemoveFromPriority,
    MovePriorityUp,
    MovePriorityDown,
    MovePriorityToTop,
    MovePriorityToBottom,
    PriorityRestoreNotify,
    SwitchCommunicationDevice,
    SwitchForegroundApp,
    SetTemporaryPriority,
    OpenDevicesList,
    OpenDeviceProperties,
}

/// Binds a generated menu-entry identity to the device and setting it
/// controls. Rebuilt every time the menu is opened; never persisted.
#[derive(Debug, Clone)]
pub struct MenuItemDeviceInfo {
    pub device_id: String,
    pub setting_type: DeviceSettingType,
    pub name: String,
    pub device_type: DeviceType,
}

/// A device as the audio backend reports it at one moment: its identity,
/// cleaned friendly name, classification, and whether it is currently in the
/// active state. Functions that reconcile stored state against the live
/// topology take a snapshot `Vec<LiveDevice>` of every known device.
#[derive(Debug, Clone)]
pub struct LiveDevice {
    pub id: String,
    pub name: String,
    pub device_type: DeviceType,
    pub is_active: bool,
}

impl View for MenuItemDeviceInfo {
    type V = MenuItemDeviceInfoView;

    open spec fn view(&self) -> MenuItemDeviceInfoView {
        MenuItemDeviceInfoView {
            device_id: self.device_id@,
            setting_type: self.setting_type,
            name: self.name@,
            device_type: self.device_type,
        }
    }
}

#[verifier::ext_equal]
pub ghost struct MenuItemDeviceInfoView {
    pub device_id: Seq<char>,
    pub setting_type: DeviceSettingType,
    pub name: Seq<char>,
    pub device_type: DeviceType,
}

impl View for LiveDevice {
    type V = LiveDeviceView;

    open spec fn view(&self) -> LiveDeviceView {
        LiveDeviceView {
            id: self.id@,
            name: self.name@,
            device_type: self.device_type,
            is_active: self.is_active,
        }
    }
}

impl DeepView for LiveDevice {
    type V = LiveDeviceView;

    open spec fn deep_view(&self) -> LiveDeviceView {
        self@
    }
}

#[verifier::ext_equal]
pub ghost struct LiveDeviceView {
    pub id: Seq<char>,
    pub name: Seq<char>,
    pub device_type: DeviceType,
    pub is_active: bool,
}

} // verus!
