//! Volume keys wired to a GoXLR fader: the decisions of the tray application.
//!
//! The modules take in what the system tells — a message, a keystroke, a packet, a report of the
//! daemon — and give back what is to be done about it. Windows, the registry, files and the network
//! are left to the application around them.

// Text, the configuration and the mixer's channels.
pub mod text;
pub mod config;
pub mod visibility;
pub mod hotkey;
pub mod log;
pub mod autostart;

// Steps of the wheel and the daemon that they are sent to.
pub mod message;
pub mod hook;
pub mod json;
pub mod goxlr;

// What is shown.
pub mod draw;
pub mod icon;
pub mod osd;
pub mod tray;
pub mod settings;
pub mod widgets;
pub mod settings_view;
pub mod help_view;
