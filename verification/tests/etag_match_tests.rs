use handlebars_response_cache::EtagIfNoneMatch;
use handlebars_response_cache::Fingerprint;

fn fp(weak: bool, tag: &str) -> Fingerprint {
    Fingerprint { weak, tag: tag.to_string() }
}

#[test]
fn absent_never_matches() {
    let client = EtagIfNoneMatch::Absent;
    assert!(!client.weak_eq(&fp(true, "abc")));
    assert!(!client.weak_eq(&fp(false, "")));
}

#[test]
fn wildcard_always_matches() {
    let client = EtagIfNoneMatch::Wildcard;
    assert!(client.weak_eq(&fp(true, "abc")));
    assert!(client.weak_eq(&fp(false, "anything")));
}

#[test]
fn single_tag_matches_regardless_of_flags() {
    let server = fp(true, "abc");
    assert!(EtagIfNoneMatch::Tags(vec![fp(true, "abc")]).weak_eq(&server));
    assert!(EtagIfNoneMatch::Tags(vec![fp(false, "abc")]).weak_eq(&server));
    let strong_server = fp(false, "abc");
    assert!(EtagIfNoneMatch::Tags(vec![fp(true, "abc")]).weak_eq(&strong_server));
}

#[test]
fn list_matches_when_any_element_matches() {
    let client = EtagIfNoneMatch::Tags(vec![fp(false, "one"), fp(true, "two"), fp(false, "three")]);
    assert!(client.weak_eq(&fp(true, "two")));
    assert!(client.weak_eq(&fp(false, "three")));
    assert!(!client.weak_eq(&fp(true, "four")));
}

#[test]
fn empty_list_matches_nothing() {
    let client = EtagIfNoneMatch::Tags(Vec::new());
    assert!(!client.weak_eq(&fp(true, "abc")));
}
