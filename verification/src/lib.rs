//! Verified core of `pzmod-dli`, a tool that downloads Project Zomboid mods
//! from the Steam Workshop through SteamCMD and installs them into a mods
//! folder.
//!
//! The library holds the decisions the tool makes: where its configuration and
//! SteamCMD live, how the command line and the comma-separated item list are
//! read, which SteamCMD command is run, and the steps that move a downloaded
//! mod into place. Everything that touches the file system, the network, the
//! environment or the terminal is left to the program around it, which hands
//! the library plain values.

pub mod cli;
pub mod config;
pub mod host;
pub mod install;
pub mod path;
pub mod steamcmd;
pub mod text;
pub mod zomboid;
