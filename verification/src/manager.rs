//! The render orchestrator.
//!
//! One instance owns the reloadable template registry and the bounded
//! render cache, and composes the whole pipeline: render, fingerprint,
//! conditional match, optional minification, and the cache around it.

use vstd::prelude::*;

use crate::cache::model_clear;
use crate::cache::model_has_key;
use crate::cache::model_insert;
use crate::cache::model_lookup;
use crate::cache::model_wf;
use crate::cache::CacheModel;
use crate::cache::EntrySnap;
use crate::cache::RenderCache;
use crate::errors::RenderError;
use crate::etag_match::EtagIfNoneMatch;
use crate::fingerprint::compute_data_etag;
use crate::fingerprint::fingerprint_of;
use crate::fingerprint::Fingerprint;
use crate::minify::minified_of;
use crate::minify::minify_html;
use crate::reloadable::ReloadableHandlebars;
use crate::response::HandlebarsResponse;

verus! {

/// Whether rendered output is minified: always, never, or decided by the
/// configuration - minified in production, left alone in development.
#[derive(Clone, Copy, Debug)]
pub enum MinifyMode {
    Always,
    Never,
    Auto,
}

pub open spec fn spec_resolve_minify(mode: MinifyMode, development: bool) -> bool {
    match mode {
        MinifyMode::Always => true,
        MinifyMode::Never => false,
        MinifyMode::Auto => !development,
    }
}

/// Resolve a minify mode against the development flag.
pub fn resolve_minify(mode: MinifyMode, development: bool) -> (r: bool)
    ensures
        r == spec_resolve_minify(mode, development),
{
    match mode {
        MinifyMode::Always => true,
        MinifyMode::Never => false,
        MinifyMode::Auto => !development,
    }
}

/// What a response built from freshly rendered text must look like: when
/// the client's validator matches the text's fingerprint it is "not
/// modified"; otherwise it carries the text - minified when asked - and the
/// text's fingerprint.
pub open spec fn valid_fresh_response(
    client: EtagIfNoneMatch,
    minify: bool,
    html: Seq<char>,
    resp: HandlebarsResponse,
) -> bool {
    if client.spec_matches_tag(fingerprint_of(html)) {
        resp.is_not_modified()
    } else {
        &&& !resp.is_not_modified()
        &&& !resp.is_from_cache()
        &&& resp.spec_etag_weak() == true
        &&& resp.spec_etag_tag() == fingerprint_of(html)
        &&& if minify {
            minified_of(html) matches Some(m) && resp.spec_content() == m
        } else {
            resp.spec_content() == html
        }
    }
}

/// Decide the response for freshly rendered text: fingerprint it, evaluate
/// the conditional match - a match short-circuits, no minification is spent
/// on it - then minify if asked, failing closed on a minifier error.
pub fn build_response(
    etag_if_none_match: &EtagIfNoneMatch,
    minify: bool,
    html: String,
) -> (r: Result<HandlebarsResponse, RenderError>)
    ensures
        r matches Ok(resp) ==> valid_fresh_response(*etag_if_none_match, minify, html@, resp),
        r matches Err(e) ==> e is Minify,
        r is Err <==> !etag_if_none_match.spec_matches_tag(fingerprint_of(html@)) && minify
            && minified_of(html@) is None,
{
    let etag = compute_data_etag(html.as_str());
    if etag_if_none_match.weak_eq(&etag) {
        Ok(HandlebarsResponse::not_modified())
    } else if minify {
        match minify_html(html.as_str()) {
            Ok(minified) => Ok(HandlebarsResponse::build_not_cache(minified, &etag)),
            Err(message) => Err(RenderError::Minify { message }),
        }
    } else {
        Ok(HandlebarsResponse::build_not_cache(html, &etag))
    }
}

/// What answering from the cache must look like: "not modified" when the
/// client's validator matches the cached fingerprint, else the cached
/// content, marked as cache-backed.
pub open spec fn valid_cache_hit(
    client: EtagIfNoneMatch,
    e: EntrySnap,
    resp: HandlebarsResponse,
) -> bool {
    if client.spec_matches_tag(e.etag_tag) {
        resp.is_not_modified()
    } else {
        &&& !resp.is_not_modified()
        &&& resp.is_from_cache()
        &&& resp.spec_content() == e.content
        &&& resp.spec_etag_tag() == e.etag_tag
        &&& resp.spec_etag_weak() == e.etag_weak
    }
}

/// What a cache-aware build leaves behind on a cache miss, given the text
/// the engine rendered: a matched validator answers "not modified" and
/// caches nothing; otherwise the response carries the - possibly minified -
/// text marked as cache-backed, and the cache gains that content under the
/// key.
pub open spec fn valid_cached_build(
    client: EtagIfNoneMatch,
    minify: bool,
    key: Seq<char>,
    html: Seq<char>,
    resp: HandlebarsResponse,
    cache0: CacheModel,
    cache1: CacheModel,
) -> bool {
    if client.spec_matches_tag(fingerprint_of(html)) {
        resp.is_not_modified() && cache1 == cache0
    } else {
        &&& !resp.is_not_modified()
        &&& resp.is_from_cache()
        &&& resp.spec_etag_weak() == true
        &&& resp.spec_etag_tag() == fingerprint_of(html)
        &&& (if minify {
            minified_of(html) matches Some(m) && resp.spec_content() == m
        } else {
            resp.spec_content() == html
        })
        &&& cache1 == model_insert(
            cache0,
            EntrySnap {
                key,
                content: resp.spec_content(),
                etag_weak: true,
                etag_tag: fingerprint_of(html),
            },
        )
    }
}

/// Whether some rendered text explains this response and cache transition:
/// the engine's output is not pinned down, but whatever text it was, the
/// response and the cache treated it correctly.
pub open spec fn some_render_gives(
    client: EtagIfNoneMatch,
    minify: bool,
    key: Seq<char>,
    resp: HandlebarsResponse,
    cache0: CacheModel,
    cache1: CacheModel,
) -> bool {
    exists|html: Seq<char>| valid_cached_build(client, minify, key, html, resp, cache0, cache1)
}

/// The orchestrator: the reloadable registry plus the bounded render cache
/// and the development flag.
pub struct HandlebarsContextManager {
    /// The template registry; in development mode the surrounding
    /// application drives its reload scan once per inbound request.
    pub handlebars: ReloadableHandlebars,
    cache_table: RenderCache,
    development: bool,
}

impl HandlebarsContextManager {
    /// The registry this orchestrator owns, as a spec value.
    pub closed spec fn spec_handlebars(self) -> ReloadableHandlebars {
        self.handlebars
    }

    /// The render cache's mathematical image.
    pub closed spec fn spec_cache(self) -> CacheModel {
        self.cache_table.model()
    }

    pub closed spec fn is_development(self) -> bool {
        self.development
    }

    pub open spec fn wf(self) -> bool {
        self.spec_handlebars().wf() && model_wf(self.spec_cache())
    }

    /// Wrap a registry into an orchestrator with an empty cache of the given
    /// capacity; capacity zero disables caching.
    pub fn new(
        handlebars: ReloadableHandlebars,
        cache_capacity: usize,
        development: bool,
    ) -> (r: HandlebarsContextManager)
        requires
            handlebars.wf(),
        ensures
            r.wf(),
            r.spec_handlebars() == handlebars,
            r.spec_cache().cap == cache_capacity,
            r.spec_cache().entries == Seq::<EntrySnap>::empty(),
            r.is_development() == development,
    {
        HandlebarsContextManager {
            handlebars,
            cache_table: RenderCache::with_capacity(cache_capacity),
            development,
        }
    }

    /// Render a template by name; failures are surfaced, never swallowed.
    pub fn render(&self, name: &str, context: &serde_json::Value) -> (r: Result<
        String,
        RenderError,
    >)
        ensures
            r matches Err(e) ==> e is Engine,
    {
        self.handlebars.render(name, context)
    }

    /// Render, fingerprint, evaluate the conditional match, and minify as
    /// resolved from the mode; every outcome is a correct response for the
    /// text the engine handed back.
    pub fn build(
        &self,
        etag_if_none_match: &EtagIfNoneMatch,
        minify: MinifyMode,
        name: &str,
        context: &serde_json::Value,
    ) -> (r: Result<HandlebarsResponse, RenderError>)
        requires
            self.wf(),
        ensures
            r matches Ok(resp) ==> exists|html: Seq<char>|
                valid_fresh_response(
                    *etag_if_none_match,
                    spec_resolve_minify(minify, self.is_development()),
                    html,
                    resp,
                ),
            r matches Err(e) ==> e is Engine || (e is Minify && spec_resolve_minify(
                minify,
                self.is_development(),
            )),
    {
        match self.handlebars.render(name, context) {
            Err(e) => Err(e),
            Ok(html) => {
                let ghost html_view = html@;
                let minify_flag = resolve_minify(minify, self.development);
                let r = build_response(etag_if_none_match, minify_flag, html);
                proof {
                    if r is Ok {
                        assert(valid_fresh_response(
                            *etag_if_none_match,
                            spec_resolve_minify(minify, self.is_development()),
                            html_view,
                            r->Ok_0,
                        ));
                    }
                }
                r
            },
        }
    }

    /// Answer from the cache alone: nothing for a missing key; for a cached
    /// entry, "not modified" when the client's validator matches the cached
    /// fingerprint, else the cached content. Reading never promotes recency.
    pub fn build_from_cache(&self, etag_if_none_match: &EtagIfNoneMatch, key: &str) -> (r: Option<
        HandlebarsResponse,
    >)
        requires
            self.wf(),
        ensures
            match r {
                Some(resp) => model_lookup(self.spec_cache(), key@) matches Some(e)
                    && valid_cache_hit(*etag_if_none_match, e, resp),
                None => model_lookup(self.spec_cache(), key@) is None,
            },
    {
        match self.cache_table.get(key) {
            Some((content, etag)) => {
                if etag_if_none_match.weak_eq(&etag) {
                    Some(HandlebarsResponse::not_modified())
                } else {
                    Some(HandlebarsResponse::build_cache(content, &etag))
                }
            },
            None => None,
        }
    }

    /// The cache-aware build: answer from the cache when the key is there -
    /// still subject to the conditional match against the cached
    /// fingerprint - and otherwise render once, decide the response, and
    /// write content answers into the cache under the key. The expensive
    /// render-and-minify path runs at most once per cached key per eviction
    /// cycle.
    pub fn build_with_cache(
        &mut self,
        etag_if_none_match: &EtagIfNoneMatch,
        minify: MinifyMode,
        key: &str,
        name: &str,
        context: &serde_json::Value,
    ) -> (r: Result<HandlebarsResponse, RenderError>)
        requires
            old(self).wf(),
        ensures
            final(self).wf(),
            final(self).spec_handlebars() == old(self).spec_handlebars(),
            final(self).is_development() == old(self).is_development(),
            model_lookup(old(self).spec_cache(), key@) matches Some(e) ==> {
                &&& final(self).spec_cache() == old(self).spec_cache()
                &&& r matches Ok(resp) && valid_cache_hit(*etag_if_none_match, e, resp)
            },
            r matches Ok(resp) ==> model_lookup(old(self).spec_cache(), key@) is None
                ==> some_render_gives(
                *etag_if_none_match,
                spec_resolve_minify(minify, old(self).is_development()),
                key@,
                resp,
                old(self).spec_cache(),
                final(self).spec_cache(),
            ),
            r matches Err(e) ==> model_lookup(old(self).spec_cache(), key@) is None
                ==> final(self).spec_cache() == old(self).spec_cache() && (e is Engine
                || e is Minify),
    {
        match self.build_from_cache(etag_if_none_match, key) {
            Some(resp) => Ok(resp),
            None => {
                match self.handlebars.render(name, context) {
                    Err(e) => Err(e),
                    Ok(html) => {
                        let ghost html_view = html@;
                        let minify_flag = resolve_minify(minify, self.development);
                        match build_response(etag_if_none_match, minify_flag, html) {
                            Err(e) => Err(e),
                            Ok(resp) => {
                                match resp.into_html_and_etag() {
                                    None => {
                                        let unchanged = HandlebarsResponse::not_modified();
                                        proof {
                                            let c0 = old(self).spec_cache();
                                            let c1 = self.spec_cache();
                                            let mf = spec_resolve_minify(
                                                minify,
                                                old(self).is_development(),
                                            );
                                            assert(valid_cached_build(
                                                *etag_if_none_match,
                                                mf,
                                                key@,
                                                html_view,
                                                unchanged,
                                                c0,
                                                c1,
                                            ));
                                            assert(some_render_gives(
                                                *etag_if_none_match,
                                                mf,
                                                key@,
                                                unchanged,
                                                c0,
                                                c1,
                                            ));
                                        }
                                        Ok(unchanged)
                                    },
                                    Some((content, etag)) => {
                                        let out = HandlebarsResponse::build_cache(
                                            content.clone(),
                                            &etag,
                                        );
                                        let _previous = self.cache_table.insert(
                                            key.to_owned(),
                                            content,
                                            etag,
                                        );
                                        proof {
                                            let c0 = old(self).spec_cache();
                                            let c1 = self.spec_cache();
                                            let mf = spec_resolve_minify(
                                                minify,
                                                old(self).is_development(),
                                            );
                                            assert(valid_cached_build(
                                                *etag_if_none_match,
                                                mf,
                                                key@,
                                                html_view,
                                                out,
                                                c0,
                                                c1,
                                            ));
                                            assert(some_render_gives(
                                                *etag_if_none_match,
                                                mf,
                                                key@,
                                                out,
                                                c0,
                                                c1,
                                            ));
                                        }
                                        Ok(out)
                                    },
                                }
                            },
                        }
                    },
                }
            },
        }
    }

    /// Empty the render cache; its capacity stays.
    pub fn clear_cache(&mut self)
        requires
            old(self).wf(),
        ensures
            final(self).wf(),
            final(self).spec_cache() == model_clear(old(self).spec_cache()),
            final(self).spec_handlebars() == old(self).spec_handlebars(),
            final(self).is_development() == old(self).is_development(),
    {
        self.cache_table.clear();
    }

    /// How many entries the render cache currently holds.
    pub fn get_cache_size(&self) -> (r: usize)
        ensures
            r == self.spec_cache().entries.len(),
    {
        self.cache_table.size()
    }

    /// Whether the cache holds this key; never promotes recency.
    pub fn contains_key(&self, key: &str) -> (r: bool)
        requires
            self.wf(),
        ensures
            r == model_has_key(self.spec_cache(), key@),
    {
        self.cache_table.contains_key(key)
    }

    /// Read the cache entry under this key; never promotes recency.
    pub fn get(&self, key: &str) -> (r: Option<(String, Fingerprint)>)
        requires
            self.wf(),
        ensures
            match r {
                Some(p) => {
                    &&& model_lookup(self.spec_cache(), key@) matches Some(e)
                    &&& p.0@ == model_lookup(self.spec_cache(), key@)->0.content
                    &&& p.1.weak == model_lookup(self.spec_cache(), key@)->0.etag_weak
                    &&& p.1.tag@ == model_lookup(self.spec_cache(), key@)->0.etag_tag
                },
                None => model_lookup(self.spec_cache(), key@) is None,
            },
    {
        self.cache_table.get(key)
    }

    /// Insert a rendered content and its fingerprint under a key, returning
    /// the previous entry if one existed; with capacity zero this is a
    /// no-op.
    pub fn insert(&mut self, key: String, cache: (String, Fingerprint)) -> (r: Option<
        (String, Fingerprint),
    >)
        requires
            old(self).wf(),
        ensures
            final(self).wf(),
            final(self).spec_handlebars() == old(self).spec_handlebars(),
            final(self).is_development() == old(self).is_development(),
            final(self).spec_cache() == model_insert(
                old(self).spec_cache(),
                EntrySnap {
                    key: key@,
                    content: cache.0@,
                    etag_weak: cache.1.weak,
                    etag_tag: cache.1.tag@,
                },
            ),
            old(self).spec_cache().cap == 0 ==> r is None,
            old(self).spec_cache().cap > 0 ==> match r {
                Some(p) => {
                    &&& model_lookup(old(self).spec_cache(), key@) matches Some(e)
                    &&& p.0@ == model_lookup(old(self).spec_cache(), key@)->0.content
                    &&& p.1.weak == model_lookup(old(self).spec_cache(), key@)->0.etag_weak
                    &&& p.1.tag@ == model_lookup(old(self).spec_cache(), key@)->0.etag_tag
                },
                None => !model_has_key(old(self).spec_cache(), key@),
            },
    {
        let (content, etag) = cache;
        self.cache_table.insert(key, content, etag)
    }
}

} // verus!
