use handlebars_response_cache::compute_data_etag;
use handlebars_response_cache::Fingerprint;

#[test]
fn fingerprint_determinism() {
    let a = compute_data_etag("Hello, World!");
    let b = compute_data_etag("Hello, World!");
    assert_eq!(a.tag, b.tag);
    assert_eq!(a.weak, b.weak);
    assert!(a.weak_eq(&b));

    let owned = String::from("Hello, World!");
    let c = compute_data_etag(owned.as_str());
    assert_eq!(a.tag, c.tag);
}

#[test]
fn fingerprint_known_value() {
    // "foo" hashed with XXH3-128 and base64-encoded without padding
    let f = compute_data_etag("foo");
    assert_eq!(f.tag, "ea75LoNFQSGrbl9kB359ig");
    assert!(f.weak);
}

#[test]
fn fingerprint_empty_input() {
    let a = compute_data_etag("");
    let b = compute_data_etag("");
    assert_eq!(a.tag, b.tag);
    assert!(!a.tag.is_empty());
}

#[test]
fn fingerprint_sensitivity() {
    // pseudo-random single-character mutations never collide for these inputs
    let base = "The quick brown fox jumps over the lazy dog";
    let base_tag = compute_data_etag(base).tag;
    let mut state: u64 = 0x2545F4914F6CDD1D;
    for _ in 0..200 {
        state = state.wrapping_mul(6364136223846793005).wrapping_add(1442695040888963407);
        let pos = (state >> 33) as usize % base.len();
        let replacement = (b'a' + ((state >> 17) % 26) as u8) as char;
        let mut mutated: Vec<char> = base.chars().collect();
        if mutated[pos] == replacement {
            continue;
        }
        mutated[pos] = replacement;
        let mutated: String = mutated.into_iter().collect();
        let tag = compute_data_etag(mutated.as_str()).tag;
        assert_ne!(tag, base_tag, "collision for mutation {mutated:?}");
    }
}

#[test]
fn weak_eq_ignores_strength_flag() {
    let weak = Fingerprint { weak: true, tag: "abc".to_string() };
    let strong = Fingerprint { weak: false, tag: "abc".to_string() };
    let other = Fingerprint { weak: true, tag: "abd".to_string() };
    assert!(weak.weak_eq(&strong));
    assert!(strong.weak_eq(&weak));
    assert!(!weak.weak_eq(&other));
}

#[test]
fn header_string_quotes_the_tag() {
    let weak = Fingerprint { weak: true, tag: "abc".to_string() };
    let strong = Fingerprint { weak: false, tag: "abc".to_string() };
    assert_eq!(weak.to_header_string(), "W/\"abc\"");
    assert_eq!(strong.to_header_string(), "\"abc\"");
}
