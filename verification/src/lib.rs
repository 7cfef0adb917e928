//! Request planning, response interpretation and credential resolution for a
//! command-line client of the Spaceship API.

pub mod account;
pub mod text;
pub mod json;
pub mod output;
pub mod yaml;
pub mod readme;
pub mod error;
pub mod client;
pub mod cli;
pub mod config;
pub mod commands;
