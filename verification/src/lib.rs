//! A Discord bot that runs capture-the-flag challenges for the players of each guild.
pub mod models;
pub mod search;
pub mod text;
pub mod manager;
pub mod exchange;
pub mod controller;
pub mod repo;
pub mod bot;
pub mod commands;
