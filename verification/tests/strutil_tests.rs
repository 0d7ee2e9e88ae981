use favicon_fetcher::links::IconAttrs;
use favicon_fetcher::score::{score_of_attrs, DEFAULT_APPLE_SCORE, DEFAULT_ICON_SCORE, SVG_SCORE};
use favicon_fetcher::strutil::{concat_str, find_scheme_marker, str_eq};

#[test]
fn str_eq_compares_characters() {
    assert!(str_eq("abc", "abc"));
    assert!(!str_eq("abc", "abd"));
    assert!(!str_eq("abc", "abcd"));
    assert!(str_eq("", ""));
    assert!(str_eq("naïve", "naïve"));
}

#[test]
fn concat_str_prefixes() {
    assert_eq!(concat_str("https://", "example.com"), "https://example.com");
    assert_eq!(concat_str("", "x"), "x");
}

#[test]
fn scheme_marker_is_found_only_when_present() {
    assert!(find_scheme_marker("https://example.com"));
    assert!(find_scheme_marker("://"));
    assert!(!find_scheme_marker("example.com"));
    assert!(!find_scheme_marker("a:/b"));
    assert!(!find_scheme_marker("example.com:8080"));
}

#[test]
fn svg_typed_link_scores_above_everything() {
    let a = IconAttrs {
        href: Some(String::from("/v.svg")),
        sizes: Some(String::from("512x512")),
        mime: Some(String::from("image/svg+xml")),
    };
    assert_eq!(score_of_attrs(&a, DEFAULT_ICON_SCORE), SVG_SCORE);
    assert_eq!(SVG_SCORE, u64::MAX);
}

#[test]
fn declared_sizes_score_their_leading_number() {
    let a = IconAttrs {
        href: Some(String::from("/a.png")),
        sizes: Some(String::from("32x32")),
        mime: None,
    };
    assert_eq!(score_of_attrs(&a, DEFAULT_ICON_SCORE), 32);
}

#[test]
fn missing_sizes_fall_back_to_the_tier_default() {
    let a = IconAttrs { href: Some(String::from("/a.png")), sizes: None, mime: None };
    assert_eq!(score_of_attrs(&a, DEFAULT_ICON_SCORE), 16);
    assert_eq!(score_of_attrs(&a, DEFAULT_APPLE_SCORE), 180);
}

#[test]
fn non_svg_mime_does_not_claim_the_svg_score() {
    let a = IconAttrs {
        href: Some(String::from("/a.png")),
        sizes: None,
        mime: Some(String::from("image/png")),
    };
    assert_eq!(score_of_attrs(&a, DEFAULT_ICON_SCORE), 16);
}
