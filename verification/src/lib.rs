//! Verified core of a skin-manager companion for the League of Legends client:
//! parsing of client session data, watcher state transitions, party-mode
//! bookkeeping, configuration edits, download planning and log buffering.
#![allow(unused_imports)]

pub mod text;
pub mod json;
pub mod champ_select;
pub mod config;
pub mod sorting;
pub mod party;
pub mod watcher;
pub mod misc;
pub mod signature;
pub mod flow;
pub mod injection_plan;
pub mod lockfile;
pub mod downloads;
pub mod chat;
pub mod friends;
pub mod logbuf;
pub mod settings;
pub mod laws;
pub mod lobby;
pub mod league_dir;
pub mod skin_paths;
