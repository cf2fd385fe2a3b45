//! A personal RSS reader's core: the feed and article store, feed parsing and
//! discovery, OGP extraction, notification scheduling rules and the scripts
//! that the article viewer runs, each with a machine-checked contract.

pub mod clock;
pub mod commands;
pub mod db;
pub mod digest;
pub mod error;
pub mod feed;
pub mod models;
pub mod notification;
pub mod ogp;
pub mod sorting;
pub mod text;
pub mod web;
pub mod webview;
