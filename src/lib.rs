//! Wi-Fi profile store: parsing and writing of NetworkManager connection
//! files, the sync-status check against the networks report, and the pure
//! parts of running the management script.
pub mod chars;
pub mod ansi;
pub mod network;
pub mod profile;
pub mod writer;
pub mod store;
pub mod collection;
pub mod runner;
pub mod dialog;
pub mod messages;
pub mod manager;
pub mod round_trip;
pub mod listing;
