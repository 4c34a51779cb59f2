//! Wire protocols: VLESS and the Vision framing layer.
pub mod tls;
pub mod vision_poll;
pub mod vision_tls;
pub mod vless;
