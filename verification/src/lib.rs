//! The logic of a desktop launcher for a local DSH web service: configuration,
//! discovery, the managed runtime, the life cycle of the service process and the
//! decisions behind the windows, the tray and the updates.

pub mod adapters;
pub mod config;
pub mod path;
pub mod raw_path;
pub mod text;
pub mod update;
pub mod process;
pub mod session_monitor;
pub mod service;
pub mod monitor;
pub mod guarantees;
pub mod outcomes;
pub mod environment;
pub mod search_path;
pub mod version;
pub mod login_shell;
pub mod discovery;
pub mod profile;
pub mod managed;
pub mod install;
pub mod upgrade;
pub mod steps;
pub mod dock_blink;
pub mod opener;
pub mod content_view;
pub mod app_update;
pub mod commands;
