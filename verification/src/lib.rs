//! Core logic of a small proxy: the VLESS request and response wire
//! format, the Vision framing layer that runs inside TLS, target addresses,
//! and the decisions that the inbound handlers make.
#![allow(unused_imports)]

pub mod buffer;
pub mod dispatcher;
pub mod error;
pub mod inbound;
pub mod network;
pub mod outbound;
pub mod pipeline;
pub mod protocol;
pub mod security;
pub mod text;
pub mod transport;
pub mod util;
