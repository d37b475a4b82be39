//! The settings that the web logic reads.
use vstd::prelude::*;

verus! {

/// The settings.
#[derive(Debug)]
pub struct Config {
    /// Whether responses are cached that would have to be purged when the content changes.
    pub cache_invalidatable_responses: bool,
    /// For how many seconds a browser may show stale content while it gets the new one.
    pub cache_control_stale_while_revalidate: Option<u32>,
    /// The largest file, in bytes, that is served.
    pub max_file_size: usize,
    /// The largest HTML file, in bytes, that is served.
    pub max_file_size_html: usize,
    /// The URL below which files in the storage are public.
    pub s3_static_root_path: String,
}

} // verus!
