//! Content fingerprints (HTTP entity tags) and their weak comparison.

use vstd::prelude::*;
use vstd::string::StringExecFns;

verus! {

/// The wire form of an entity tag: the payload in double quotes, prefixed
/// with `W/` when the tag is weak.
pub open spec fn spec_header_of(weak: bool, tag: Seq<char>) -> Seq<char> {
    if weak {
        "W/\""@ + tag + "\""@
    } else {
        "\""@ + tag + "\""@
    }
}

/// A content fingerprint (an HTTP entity tag): an opaque tag payload plus a
/// strong/weak comparison-strength flag.
#[derive(Debug)]
pub struct Fingerprint {
    /// Whether the tag only promises weak (semantic) equivalence.
    pub weak: bool,
    /// The opaque tag payload, without surrounding double quotes.
    pub tag: String,
}

/// The tag that the content checksum assigns to a text.
///
/// The checksum is computed over the text's UTF-8 bytes; since that encoding
/// is an injective function of the characters, the tag is a function of the
/// characters alone.
pub uninterp spec fn fingerprint_of(text: Seq<char>) -> Seq<char>;

/// Relies on `entity_tag::EntityTag::from_data`: a weak entity tag whose
/// payload is an XXH3-128 checksum of the bytes, base64-encoded, and so
/// depends on the input alone.
#[verifier::external_body]
pub fn compute_data_etag(data: &str) -> (r: Fingerprint)
    ensures
        r.weak == true,
        r.tag@ == fingerprint_of(data@),
{
    let etag = entity_tag::EntityTag::from_data(data.as_bytes());
    Fingerprint { weak: true, tag: etag.into_tag().into_owned() }
}

impl Fingerprint {
    /// Two fingerprints match weakly when their tag payloads are equal,
    /// whatever either strength flag says.
    pub open spec fn spec_weak_match(self, other: Fingerprint) -> bool {
        self.tag@ == other.tag@
    }

    /// Weak comparison: equality of the tag payloads, ignoring the flags.
    pub fn weak_eq(&self, other: &Fingerprint) -> (r: bool)
        ensures
            r == self.spec_weak_match(*other),
    {
        self.tag == other.tag
    }

    /// The full header value of this fingerprint, in its quoted wire form.
    pub fn to_header_string(&self) -> (r: String)
        ensures
            r@ == spec_header_of(self.weak, self.tag@),
    {
        let mut s = String::new();
        if self.weak {
            s.append("W/\"");
        } else {
            s.append("\"");
        }
        s.append(self.tag.as_str());
        s.append("\"");
        proof {
            assert(s@ =~= spec_header_of(self.weak, self.tag@));
        }
        s
    }
}

impl Clone for Fingerprint {
    fn clone(&self) -> (r: Self)
        ensures
            r == *self,
    {
        Fingerprint { weak: self.weak, tag: self.tag.clone() }
    }
}

/// Fingerprint determinism: one text always carries one tag, in every call
/// and in every process, so two fingerprints computed from equal texts match
/// under weak comparison.
pub proof fn lemma_fingerprint_deterministic(a: Fingerprint, b: Fingerprint, text: Seq<char>)
    requires
        a.tag@ == fingerprint_of(text),
        b.tag@ == fingerprint_of(text),
    ensures
        a.spec_weak_match(b),
{
}

} // verus!
