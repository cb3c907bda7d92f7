//! Ingestion of a retailer's paginated product catalogue: unit and size
//! extraction from free text, department slugs, pagination and retry
//! policies, barcode matching against a known catalogue, and the price
//! observations that follow from it.
pub mod api;
pub mod config;
pub mod backoff;
pub mod departments;
pub mod image;
pub mod matcher;
pub mod number;
pub mod pagination;
pub mod prices;
pub mod query;
pub mod size;
pub mod text;
pub mod unit;
