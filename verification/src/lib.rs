//! Verified core of FastFileOCR: table decoding, document structure, downloads,
//! workspace state, preferences and update selection.
pub mod strings;
pub mod i18n;
pub mod table;
pub mod download;
pub mod document;
pub mod store;
pub mod models;
pub mod recognition;
pub mod runtimes;
pub mod checksum;
pub mod updates;
pub mod configuration;
pub mod export;
pub mod installer;
pub mod engine;
pub mod import;
