//! Core logic of the MyIsland desktop island: lyric parsing and lookup,
//! plugin manifests, packages and ABI helpers, the packaging tool's
//! settings, configuration values and the settings window's controls,
//! localisation tables, the media session's timeline and session choice,
//! and the player's and the reminder's decisions, each stated and proved
//! with Verus.

pub mod text;
pub mod lyrics;
pub mod logger;
pub mod plugin_api;
pub mod plugin;
pub mod manifest;
pub mod zip_loader;
pub mod config;
pub mod i18n;
pub mod water_reminder;
pub mod media;
pub mod lyrics_fetch;
pub mod packager;
pub mod session;
pub mod settings;
pub mod cover;
pub mod screen;
pub mod player;
