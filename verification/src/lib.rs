//! A link-redirection library: short paths map to destination URLs, preview
//! crawlers get a rendered HTML card, end users get a redirect, and a
//! token-gated admin surface manages the mappings.

pub mod admin;
pub mod db;
pub mod error;
pub mod models;
pub mod routes;
pub mod text;
