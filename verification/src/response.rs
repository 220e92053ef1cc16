//! The rendered-HTML response: either full content with its fingerprint, or
//! the bodiless "not modified" answer.

use vstd::prelude::*;

use crate::etag_match::EtagIfNoneMatch;
use crate::fingerprint::spec_header_of;
use crate::fingerprint::Fingerprint;

verus! {

/// The payload of a response that carries content.
#[derive(Debug)]
struct ResponseBody {
    content: String,
    etag: Fingerprint,
    from_cache: bool,
}

/// An HTML response: rendered content plus its fingerprint, or - when the
/// client's validator matched - the "not modified" answer without a body.
#[derive(Debug)]
pub struct HandlebarsResponse {
    inner: Option<ResponseBody>,
}

impl HandlebarsResponse {
    /// Whether this is the bodiless "not modified" answer.
    pub closed spec fn is_not_modified(self) -> bool {
        self.inner is None
    }

    /// The content carried; empty for "not modified".
    pub closed spec fn spec_content(self) -> Seq<char> {
        match self.inner {
            Some(body) => body.content@,
            None => Seq::empty(),
        }
    }

    /// The tag payload of the fingerprint carried; empty for "not modified".
    pub closed spec fn spec_etag_tag(self) -> Seq<char> {
        match self.inner {
            Some(body) => body.etag.tag@,
            None => Seq::empty(),
        }
    }

    /// The strength flag of the fingerprint carried; false for "not modified".
    pub closed spec fn spec_etag_weak(self) -> bool {
        match self.inner {
            Some(body) => body.etag.weak,
            None => false,
        }
    }

    /// Whether the content was handed out of the render cache rather than
    /// rendered for this response.
    pub closed spec fn is_from_cache(self) -> bool {
        match self.inner {
            Some(body) => body.from_cache,
            None => false,
        }
    }

    /// A response around freshly rendered content.
    pub fn build_not_cache(content: String, etag: &Fingerprint) -> (r: HandlebarsResponse)
        ensures
            !r.is_not_modified(),
            !r.is_from_cache(),
            r.spec_content() == content@,
            r.spec_etag_tag() == etag.tag@,
            r.spec_etag_weak() == etag.weak,
    {
        HandlebarsResponse {
            inner: Some(ResponseBody { content, etag: etag.clone(), from_cache: false }),
        }
    }

    /// A response around content taken from the render cache.
    pub fn build_cache(content: String, etag: &Fingerprint) -> (r: HandlebarsResponse)
        ensures
            !r.is_not_modified(),
            r.is_from_cache(),
            r.spec_content() == content@,
            r.spec_etag_tag() == etag.tag@,
            r.spec_etag_weak() == etag.weak,
    {
        HandlebarsResponse {
            inner: Some(ResponseBody { content, etag: etag.clone(), from_cache: true }),
        }
    }

    /// The bodiless "not modified" answer.
    pub fn not_modified() -> (r: HandlebarsResponse)
        ensures
            r.is_not_modified(),
    {
        HandlebarsResponse { inner: None }
    }

    /// Whether the client's validator weakly matches the fingerprint carried;
    /// false for "not modified", which carries none.
    pub fn weak_eq(&self, etag_if_none_match: &EtagIfNoneMatch) -> (r: bool)
        ensures
            r == (!self.is_not_modified() && etag_if_none_match.spec_matches_tag(
                self.spec_etag_tag(),
            )),
    {
        match &self.inner {
            Some(body) => etag_if_none_match.weak_eq(&body.etag),
            None => false,
        }
    }

    /// Take the content and fingerprint out, for handing them to the render
    /// cache; "not modified" carries none.
    pub fn into_html_and_etag(self) -> (r: Option<(String, Fingerprint)>)
        ensures
            match r {
                Some(p) => {
                    &&& !self.is_not_modified()
                    &&& p.0@ == self.spec_content()
                    &&& p.1.tag@ == self.spec_etag_tag()
                    &&& p.1.weak == self.spec_etag_weak()
                },
                None => self.is_not_modified(),
            },
    {
        match self.inner {
            Some(body) => Some((body.content, body.etag)),
            None => None,
        }
    }

    /// The HTTP shape of this response: a status code, the headers, and the
    /// body. Content answers are 200 with a Content-Type header, an ETag
    /// header in its quoted wire form, and the content as body; "not
    /// modified" is a bare 304.
    pub fn response_parts(self) -> (r: (u16, Vec<(String, String)>, String))
        ensures
            self.is_not_modified() ==> r.0 == 304 && r.1@.len() == 0 && r.2@.len() == 0,
            !self.is_not_modified() ==> {
                &&& r.0 == 200
                &&& r.1@.len() == 2
                &&& r.1@[0].0@ == "Content-Type"@
                &&& r.1@[0].1@ == "text/html; charset=utf-8"@
                &&& r.1@[1].0@ == "Etag"@
                &&& r.1@[1].1@ == spec_header_of(self.spec_etag_weak(), self.spec_etag_tag())
                &&& r.2@ == self.spec_content()
            },
    {
        match self.inner {
            Some(body) => {
                let mut headers: Vec<(String, String)> = Vec::new();
                headers.push(("Content-Type".to_owned(), "text/html; charset=utf-8".to_owned()));
                headers.push(("Etag".to_owned(), body.etag.to_header_string()));
                (200, headers, body.content)
            },
            None => {
                let headers: Vec<(String, String)> = Vec::new();
                let body = String::new();
                (304, headers, body)
            },
        }
    }
}

} // verus!
