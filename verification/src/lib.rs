//! Verified core of an install-free screen sharing client.

pub mod app;
pub mod capture;
pub mod fallback;
pub mod render;
pub mod signaling;
pub mod single;
pub mod text;
pub mod webrtc_client;
pub mod wire;
