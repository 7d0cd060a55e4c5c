//! A small keyed file-hosting core: filename sanitisation, stored-name
//! generation, the upload ingestion state machine with size-limit
//! enforcement, and the download planning path, each with a verified
//! contract.

pub mod config;
pub mod download;
pub mod errors;
pub mod store;
pub mod laws;
pub mod names;
pub mod pipeline;
pub mod slug;
pub mod upload;
