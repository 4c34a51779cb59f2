# alpha_ray

The core of a small proxy that speaks VLESS, with the Vision framing layer
inside TLS, and accepts SOCKS5 and HTTP `CONNECT` clients.

- `src/` is the verified library (Verus): the VLESS request and response
  headers (`protocol/vless.rs`), the Vision framing layer
  (`protocol/vision_tls.rs`), the poll-by-poll decisions of the TLS and
  Vision streams (`protocol/tls.rs`, `protocol/vision_poll.rs`), target
  addresses (`util.rs`), and the decisions the inbounds make (`inbound/`).
  `buffer.rs` gives `bytes::BytesMut` a model as a sequence of bytes.
- `app/` is the I/O around it: listeners and dialers on tokio, TLS sessions on
  rustls, the SOCKS5 and HTTP protocol crates, and `run`.
- `tests/` runs the library on concrete inputs.
