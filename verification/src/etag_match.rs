//! The conditional-match evaluator.
//!
//! A client may send no cache validator at all, a wildcard, or a list of
//! fingerprints. This evaluator is the sole authority for deciding whether a
//! response becomes "not modified" instead of carrying a full body.

use vstd::prelude::*;

use crate::fingerprint::Fingerprint;

verus! {

/// Whether some fingerprint of the list carries exactly this tag payload.
pub open spec fn tags_contain(v: Vec<Fingerprint>, tag: Seq<char>) -> bool {
    exists|i: int| 0 <= i < v@.len() && (#[trigger] v@[i]).tag@ == tag
}

/// The client-supplied cache validator of one request.
#[derive(Debug)]
pub enum EtagIfNoneMatch {
    /// No validator was sent: nothing matches, the content is always rendered.
    Absent,
    /// The wildcard validator: every fingerprint matches.
    Wildcard,
    /// An explicit list: a fingerprint matches when some element carries the
    /// same tag payload.
    Tags(Vec<Fingerprint>),
}

impl EtagIfNoneMatch {
    /// Whether this validator weakly matches a tag payload. Weak comparison
    /// looks at the payloads only and ignores every strength flag.
    pub open spec fn spec_matches_tag(self, tag: Seq<char>) -> bool {
        match self {
            EtagIfNoneMatch::Absent => false,
            EtagIfNoneMatch::Wildcard => true,
            EtagIfNoneMatch::Tags(v) => tags_contain(v, tag),
        }
    }

    /// Whether this validator weakly matches a fingerprint.
    pub open spec fn spec_weak_match(self, etag: Fingerprint) -> bool {
        self.spec_matches_tag(etag.tag@)
    }

    /// Weak comparison against a server fingerprint: false without a
    /// validator, true for the wildcard, and for a list true exactly when
    /// some element's tag payload equals the fingerprint's.
    pub fn weak_eq(&self, etag: &Fingerprint) -> (r: bool)
        ensures
            r == self.spec_weak_match(*etag),
    {
        match self {
            EtagIfNoneMatch::Absent => false,
            EtagIfNoneMatch::Wildcard => true,
            EtagIfNoneMatch::Tags(v) => {
                let n = v.len();
                let mut i: usize = 0;
                while i < n
                    invariant
                        *self == EtagIfNoneMatch::Tags(*v),
                        n == v@.len(),
                        i <= n,
                        forall|j: int| 0 <= j < i ==> (#[trigger] v@[j]).tag@ != etag.tag@,
                    decreases n - i,
                {
                    if v[i].weak_eq(etag) {
                        proof {
                            let jj = i as int;
                            assert(0 <= jj < v@.len() && v@[jj].tag@ == etag.tag@);
                            assert(tags_contain(*v, etag.tag@));
                        }
                        return true;
                    }
                    i = i + 1;
                }
                false
            },
        }
    }
}

/// Conditional match: an absent validator never matches, the wildcard always
/// matches, and a one-element list matches a fingerprint that carries the
/// same tag payload, whatever either strength flag says.
pub proof fn lemma_conditional_match(v: Vec<Fingerprint>, etag: Fingerprint)
    requires
        v@.len() == 1,
        v@[0].tag@ == etag.tag@,
    ensures
        !EtagIfNoneMatch::Absent.spec_weak_match(etag),
        EtagIfNoneMatch::Wildcard.spec_weak_match(etag),
        EtagIfNoneMatch::Tags(v).spec_weak_match(etag),
{
    let jj = 0int;
    assert(0 <= jj < v@.len() && v@[jj].tag@ == etag.tag@);
}

} // verus!
