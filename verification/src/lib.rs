//! The logic of a documentation host for Rust crates.
use vstd::prelude::*;

pub mod cache;
pub mod commands;
pub mod config;
pub mod consistency;
pub mod decimal;
pub mod downloads;
pub mod error;
pub mod escaped_uri;
pub mod file;
pub mod header;
pub mod html;
pub mod opentelemetry;
pub mod percent;
pub mod query;
pub mod query_map;
pub mod redirection;
pub mod redirector;
pub mod registry_api;
pub mod release;
pub mod rustdoc_page;
pub mod rustdoc_params;
pub mod rustdoc_path;
pub mod target_redirect;
pub mod text;
pub mod uri;
pub mod url_text;
pub mod version;

verus! {

} // verus!
