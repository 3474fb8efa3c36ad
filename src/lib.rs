//! Mirror of an audio-routing daemon's object graph, with the decisions that
//! turn daemon events and user requests into notifications for a user interface.

pub mod index;
pub mod props;
pub mod types;
pub mod listener;
pub mod window;
