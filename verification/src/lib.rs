//! Speech-to-text for Jitsi Meet conferences.

pub mod conference;
pub mod model;
pub mod session;
pub mod text;
pub mod timestamp;
pub mod transcriber;
