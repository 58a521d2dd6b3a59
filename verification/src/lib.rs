//! Core logic of a downloader for the Hitomi gallery service: index search,
//! image address synthesis, download scheduling and export metadata.

pub mod commands;
pub mod config;
pub mod download_manager;
pub mod errors;
pub mod events;
pub mod export;
pub mod extensions;
pub mod hitomi;
pub mod hitomi_client;
pub mod json;
pub mod pattern;
pub mod template;
pub mod text;
pub mod types;
pub mod utils;
