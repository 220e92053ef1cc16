//! A server-side template-rendering cache layer.
//!
//! The crate renders named Handlebars templates against structured input
//! data, produces hashed content fingerprints (HTTP entity tags) for
//! conditional caching, keeps rendered output in a bounded
//! least-recently-used cache, and re-registers template source files whose
//! modification time advanced.

use vstd::prelude::*;

mod cache;
mod engine;
mod errors;
mod etag_match;
mod fingerprint;
mod manager;
mod minify;
mod reloadable;
mod response;

pub use cache::lemma_capacity_zero_no_op;
pub use cache::lemma_insert_bounded;
pub use cache::lemma_insert_evicts_lru;
pub use cache::lemma_insert_idempotent;
pub use cache::model_clear;
pub use cache::model_has_key;
pub use cache::model_index_of;
pub use cache::model_insert;
pub use cache::model_lookup;
pub use cache::model_wf;
pub use cache::CacheModel;
pub use cache::EntrySnap;
pub use cache::RenderCache;
pub use etag_match::lemma_conditional_match;
pub use etag_match::tags_contain;
pub use etag_match::EtagIfNoneMatch;
pub use fingerprint::compute_data_etag;
pub use fingerprint::fingerprint_of;
pub use fingerprint::lemma_fingerprint_deterministic;
pub use fingerprint::spec_header_of;
pub use fingerprint::Fingerprint;
pub use engine::template_syntax_ok;
pub use manager::build_response;
pub use manager::resolve_minify;
pub use manager::spec_resolve_minify;
pub use manager::some_render_gives;
pub use manager::valid_cache_hit;
pub use manager::valid_cached_build;
pub use manager::valid_fresh_response;
pub use manager::HandlebarsContextManager;
pub use manager::MinifyMode;
pub use minify::minified_of;
pub use minify::minify_html;
pub use errors::RegistrationError;
pub use errors::RenderError;
pub use reloadable::entry_after_scan;
pub use reloadable::entry_scan_error_is;
pub use reloadable::entry_scan_ok;
pub use reloadable::file_index_of;
pub use reloadable::files_contain;
pub use reloadable::names_distinct;
pub use reloadable::lemma_reload_version_tracks_change;
pub use reloadable::next_version;
pub use reloadable::reload_needed;
pub use reloadable::spec_obs_for;
pub use reloadable::ReloadableHandlebars;
pub use reloadable::TemplateFile;
pub use reloadable::TemplateObservation;
pub use response::HandlebarsResponse;
