//! Outbounds: where dispatched connections go.
pub mod http;
pub mod tcp;
pub mod vless;
