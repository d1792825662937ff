//! Verified core of a speech-to-text note taking application: transcript
//! parsing, document and workspace management, model catalogue, the
//! transcription context tracker and the application state machine.

pub mod text;
pub mod document;
pub mod ids;
pub mod clock;
pub mod paths;
pub mod workspace;
pub mod models;
pub mod backend;
pub mod app_state;
pub mod presentation;
pub mod config;
