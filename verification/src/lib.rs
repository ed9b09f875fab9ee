//! Reliquaint: catalog, tap and launch logic for a DOS/Amiga game launcher.

pub mod artwork;
pub mod catalog;
pub mod catalog_view;
pub mod commands;
pub mod companion;
pub mod companion_protocol;
pub mod companion_render;
pub mod doctor;
pub mod discovery;
pub mod draft;
pub mod error;
pub mod export;
pub mod game_install;
pub mod heuristic;
pub mod install_record;
pub mod known_taps;
pub mod launch;
pub mod listing;
pub mod manifest;
pub mod order;
pub mod paths;
pub mod runner;
pub mod setup;
pub mod sidecar;
pub mod subscriptions;
pub mod tap;
pub mod tap_fetch;
pub mod tap_ops;
pub mod tap_reorder;
pub mod text;
pub mod user_config;
pub mod wizard;
