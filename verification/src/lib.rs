//! Decision and formatting logic of a small Windows helper that stands in as
//! the default browser: beatmap links go to the osu! client, every other link
//! goes to a real browser.

pub mod cli;
pub mod config;
pub mod download;
pub mod launch;
pub mod links;
pub mod listing_layout;
pub mod logfile;
pub mod registry;
pub mod text;
pub mod utils;
