//! Presence tracking and response assembly for a small status gateway in
//! front of a music-playback daemon.
//!
//! The library holds the logic: the listener registry with its expiry rule,
//! the per-request decision procedure that turns daemon answers into a
//! response, and the error type that every failure is reported through.
//! Talking to the daemon and serving HTTP is left to the caller.

pub mod error;
pub mod listener;
pub mod registry;
pub mod request;

pub use error::{ServiceError, FAILURE_STATUS};
pub use listener::{ListenerId, LISTENER_ID_LEN};
pub use registry::{PresenceEntry, PresenceRegistry, PRESENCE_TTL_NANOS};
pub use request::{
    keep_well_formed, sharing_enabled, Action, Event, Outcome, OutputInfo, Report, Request, Stage,
};
