//! Rho: the verified core of a dual-pane file manager.

pub mod actions;
pub mod app;
pub mod app_dialogs;
pub mod app_laws;
pub mod app_panes;
pub mod app_queries;
pub mod app_update;
pub mod apps;
pub mod clock;
pub mod command;
pub mod conduct;
pub mod config;
pub mod dialog;
pub mod display;
pub mod docker;
pub mod dropbox;
pub mod entry;
pub mod filtering;
pub mod ftp;
pub mod git;
pub mod git_status;
pub mod keymap;
pub mod launch;
pub mod listing;
pub mod location;
pub mod message;
pub mod name_filter;
pub mod palette;
pub mod pane;
pub mod path;
pub mod process;
pub mod prompt;
pub mod quoting;
pub mod sorting;
pub mod ssh;
pub mod text;
pub mod transfer;
pub mod watch;
