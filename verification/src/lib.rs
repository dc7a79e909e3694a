//! btkick: the verified core of a Bluetooth connector and terminal manager.
//!
//! Everything that decides something lives here: reading what `bluetoothctl`
//! prints, ordering devices, the escalation ladder that forces a connection,
//! and the state and screens of the terminal UI. Processes, files, threads and
//! the terminal itself belong to the program around this library.

pub mod bt;
pub mod cli;
pub mod config;
pub mod course;
pub mod engine;
pub mod ladder;
pub mod layout;
pub mod manager;
pub mod number;
pub mod order;
pub mod screen;
pub mod spammer;
pub mod sysfs;
pub mod text;
pub mod tiers;
pub mod tui;
pub mod view;
