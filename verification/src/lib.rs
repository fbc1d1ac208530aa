//! Control logic for an operator tool that manages a network-filtering agent
//! registered as an OS service: discovery of configuration files, extraction
//! of launch arguments, normalization of service-manager status codes, and
//! the install / remove / status / diagnostics decision logic.
//!
//! All text handed to this library is represented as `Vec<char>`; the thin
//! executable shell around it converts between `String` and `Vec<char>` and
//! performs the actual OS calls.

pub mod diagnostics;
pub mod discovery;
pub mod lifecycle;
pub mod menu;
pub mod status;
pub mod text;
