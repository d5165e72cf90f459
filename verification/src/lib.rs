//! Verified core of AuralFlow: settings validation, model catalogue and
//! download checks, recorder state, WAV encoding, transcript text clean-up,
//! and the decisions taken around the keychain and the online service.

pub mod text;
pub mod error;
pub mod model;
pub mod config;
pub mod audio;
pub mod online;
pub mod credentials;
pub mod transcribe;
pub mod push_to_talk;
pub mod session;
pub mod paste;
