use favicon_fetcher::orchestrate::{
    build_reply, classify_page_event, resolve_icon_url, validate_query, FaviconError,
    FaviconQuery, IconReply, PageEvent,
};

#[test]
fn bare_host_gets_https_scheme_and_canonical_form() {
    let q = FaviconQuery { url: String::from("example.com"), size: None };
    let (origin, size) = validate_query(&q).unwrap();
    assert_eq!(origin, "https://example.com/");
    assert_eq!(size, 32);
}

#[test]
fn existing_scheme_is_kept() {
    let q = FaviconQuery { url: String::from("http://already.example/x"), size: Some(64) };
    let (origin, size) = validate_query(&q).unwrap();
    assert_eq!(origin, "http://already.example/x");
    assert_eq!(size, 64);
}

#[test]
fn unresolvable_host_still_validates() {
    // A syntactically fine but unreachable host passes validation; the
    // Bad-Request classification comes from the failed fetch afterwards.
    let q = FaviconQuery { url: String::from("nonexistent.invalid"), size: None };
    let (origin, _) = validate_query(&q).unwrap();
    assert_eq!(origin, "https://nonexistent.invalid/");
}

#[test]
fn malformed_url_is_bad_request() {
    let q = FaviconQuery { url: String::from("http://["), size: None };
    assert_eq!(validate_query(&q), Err(FaviconError::BadRequest));
}

#[test]
fn zero_size_is_bad_request() {
    let q = FaviconQuery { url: String::from("example.com"), size: Some(0) };
    assert_eq!(validate_query(&q), Err(FaviconError::BadRequest));
}

#[test]
fn oversized_request_is_bad_request() {
    let q = FaviconQuery { url: String::from("example.com"), size: Some(5000) };
    assert_eq!(validate_query(&q), Err(FaviconError::BadRequest));
}

#[test]
fn failed_page_fetch_is_bad_request() {
    assert_eq!(classify_page_event(PageEvent::FetchFailed), Err(FaviconError::BadRequest));
    assert_eq!(classify_page_event(PageEvent::BadStatus), Err(FaviconError::BadRequest));
}

#[test]
fn undecodable_page_body_is_internal() {
    assert_eq!(classify_page_event(PageEvent::DecodeFailed), Err(FaviconError::Internal));
}

#[test]
fn fetched_page_passes_through() {
    let r = classify_page_event(PageEvent::Page(String::from("<html></html>")));
    assert_eq!(r, Ok(String::from("<html></html>")));
}

#[test]
fn status_codes_match_the_error_taxonomy() {
    assert_eq!(FaviconError::BadRequest.status_code(), 400);
    assert_eq!(FaviconError::NotFound.status_code(), 404);
    assert_eq!(FaviconError::Internal.status_code(), 500);
}

#[test]
fn empty_page_falls_back_to_favicon_ico_under_origin() {
    let r = resolve_icon_url("<html><head></head></html>", "https://example.com/");
    assert_eq!(r, Some(String::from("https://example.com/favicon.ico")));
}

#[test]
fn declared_icon_wins_over_fallback() {
    let html = r#"<html><head><link rel="icon" sizes="32x32" href="/a.png"></head></html>"#;
    let r = resolve_icon_url(html, "https://example.com/");
    assert_eq!(r, Some(String::from("https://example.com/a.png")));
}

#[test]
fn unusable_origin_resolves_to_nothing() {
    let r = resolve_icon_url("<html></html>", "not a url");
    assert_eq!(r, None);
}

#[test]
fn svg_content_passes_through_unmodified() {
    let body = b"<svg xmlns=\"http://www.w3.org/2000/svg\"></svg>".to_vec();
    let reply = build_reply("image/svg+xml", body.clone(), 32).unwrap();
    assert_eq!(reply.content_type(), "image/svg+xml");
    assert!(matches!(&reply, IconReply::Svg(_)));
    assert_eq!(reply.into_bytes(), body);
}

#[test]
fn undecodable_raster_bytes_are_internal() {
    let r = build_reply("image/png", vec![1, 2, 3, 4], 32);
    assert!(matches!(r, Err(FaviconError::Internal)));
}
