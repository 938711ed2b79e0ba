//! Verified core of a Windows tray utility that hides desktop icons, the
//! taskbar and application windows.

pub mod text;
pub mod config;
pub mod state;
pub mod hotkeys;
pub mod discord;
pub mod tray;
pub mod icons;
pub mod taskbar;
pub mod profiles;
pub mod notifications;
pub mod startup;
pub mod updater;
pub mod win_ops;
pub mod commands;
pub mod ui;
