//! Verified core of the kikan/mokumo shop platform.
pub mod backup;
pub mod calendar;
pub mod cookie;
pub mod data_plane;
pub mod db;
pub mod diagnostics;
pub mod events;
pub mod mail;
pub mod migrations;
pub mod scorecard;
pub mod server;
pub mod setup;
pub mod shop;
pub mod slug;
pub mod socket;
pub mod spa;
pub mod tenancy;
pub mod text;
