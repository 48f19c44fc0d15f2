//! Volume Locker core: priority enforcement and device-state reconciliation
//! for a user's audio devices.
//!
//! The library holds the decision logic of the utility: the persisted
//! desired-state model, device-identity migration, default-device priority
//! enforcement, volume/mute reconciliation, debounced notification, and the
//! watch-registration plan. Every function here is verified. The operating
//! system's audio backend, the tray menu, the state file and the toast
//! notifier are collaborators: callers query them, hand their answers to
//! these functions as plain values, and perform the actions the functions
//! return.

pub mod debounce;
pub mod device_id;
pub mod enforce;
pub mod live;
pub mod menu;
pub mod menu_model;
pub mod migrate;
pub mod names;
pub mod reconcile;
pub mod state;
pub mod text;
pub mod types;
pub mod update;
pub mod volume;
pub mod watch;
