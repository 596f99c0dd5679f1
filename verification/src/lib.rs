//! Offline voice dictation: the verified core.

pub mod audio;
pub mod calendar;
pub mod chars;
pub mod commands;
pub mod devices;
pub mod dictation;
pub mod download;
pub mod engine;
pub mod focus;
pub mod format;
pub mod hotkey;
pub mod json;
pub mod laws;
pub mod models;
pub mod onboarding;
pub mod overlay;
pub mod pattern;
pub mod perm;
pub mod platform;
pub mod polish;
pub mod prompts;
pub mod session;
pub mod settings;
pub mod shortcuts;
pub mod single;
pub mod state;
pub mod stats;
pub mod sys;
pub mod text;
pub mod tray;
pub mod vad;
pub mod words;
