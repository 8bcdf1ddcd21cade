//! The core of a supervisor for one worker process: the message protocol,
//! the task registry, heartbeat monitoring, restart policy and the
//! supervisor's own state transitions, each with its contract.

pub mod clock;
pub mod dispatcher;
pub mod heartbeat;
pub mod laws;
pub mod listener;
pub mod manager;
pub mod models;
pub mod protocol;
pub mod repository;
pub mod text;
pub mod validation;
