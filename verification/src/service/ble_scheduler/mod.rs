//! Scheduling for the BLE transport.
//!
//! This is the piece that has to earn its keep. Home Assistant provides no BLE
//! queue of its own, and an ESP32 proxy has around three connection slots, so
//! a burst of commands that turns into a burst of connections is exactly how
//! Bluetooth control becomes unreliable.
//!
//! Three mechanisms, in the order they matter:
//!
//! 1. **Coalescing.** Commands for one device inside a short window merge into a
//!    single session. "On, 80%, warm white" arrives as three MQTT messages and
//!    leaves as one connection carrying three frames.
//! 2. **A concurrency gate**, defaulting to one session at a time, so we never
//!    contend with ourselves for connection slots.
//! 3. **A circuit breaker**, so a device that is out of range stops being
//!    retried and the router falls through to the cloud instead.
pub mod config;
pub mod notifications;
pub mod pending;
pub mod query;
pub mod scheduler;
pub mod session;

pub use config::{BleAddressOverrides, BleExclusions, BleSchedulerConfig, MalformedOverride};
pub use pending::{FrameError, MergeError, PendingOps};
pub use query::Query;
pub use notifications::{apply_notifications, apply_notifications_at, NotificationOutcome};
pub use scheduler::{
    BleScheduler, Breaker, DeviceQueue, DueSession, FailureNote, RunError, SessionStep,
};
pub use session::{
    build_job, exchange, session_outcome, JobFailed, NoSessionSlot, NothingToDo, SessionError,
    GOVEE_NOTIFY_CHAR, GOVEE_WRITE_CHAR,
};
