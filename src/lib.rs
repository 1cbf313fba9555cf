//! Core of a screen-capture streaming service: capture pacing, the bounded
//! frame ring that decouples capture from encoding, the encoder's sequencing,
//! packetizing for the wire, the loss-driven bitrate policy, the per-viewer
//! session state machine and registry, remote input decoding, and the
//! shutdown policy, with small formatting helpers for reports.
pub mod bitrate;
pub mod capture;
pub mod encoder;
pub mod input;
pub mod registry;
pub mod ring;
pub mod session;
pub mod shutdown;
pub mod transport;
pub mod utils;
