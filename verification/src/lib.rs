//! Core of a screen-watching assistant: frame fingerprints, interpretation of
//! analyzer replies, alert de-duplication, tiered daily records and budgeted
//! context retrieval.

pub mod aggregate;
pub mod alert;
pub mod analysis;
pub mod capture;
pub mod config;
pub mod context;
pub mod fingerprint;
pub mod json;
pub mod model_error;
pub mod ratio;
pub mod records;
pub mod search;
pub mod storage;
pub mod text;
