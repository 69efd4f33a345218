//! Game-data checking and plugin-feed logic for a Discord bot.
pub mod text;
pub mod gameinfo;
pub mod steam;
pub mod downloader;
pub mod gdcrunner;
pub mod manager;
pub mod parser;
pub mod embeds;
pub mod commands;
pub mod cache;

