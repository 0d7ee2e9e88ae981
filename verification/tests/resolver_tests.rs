use favicon_fetcher::resolver::{
    basic_location_urls, fetch_favicon_url, select_best, Candidate,
};
use favicon_fetcher::score::parse_score;

#[test]
fn single_sized_icon_link_resolves_to_it() {
    let html = r#"<html><head><link rel="icon" sizes="32x32" href="/a.png"></head><body></body></html>"#;
    let r = fetch_favicon_url(html, "https://example.com/");
    assert_eq!(r, Some(String::from("https://example.com/a.png")));
}

#[test]
fn apple_touch_default_beats_plain_icon_default() {
    let html = r#"<html><head><link rel="icon" href="/a.png"><link rel="apple-touch-icon" href="/b.png"></head></html>"#;
    let r = fetch_favicon_url(html, "https://example.com/");
    assert_eq!(r, Some(String::from("https://example.com/b.png")));
}

#[test]
fn svg_typed_link_beats_any_raster_size() {
    let html = r#"<html><head><link rel="icon" sizes="512x512" href="/big.png"><link rel="icon" type="image/svg+xml" href="/v.svg"></head></html>"#;
    let r = fetch_favicon_url(html, "https://example.com/");
    assert_eq!(r, Some(String::from("https://example.com/v.svg")));
}

#[test]
fn no_links_and_unjoinable_base_yields_none() {
    let r = fetch_favicon_url("<html><head></head><body></body></html>", "not a url");
    assert_eq!(r, None);
}

#[test]
fn no_links_falls_back_to_well_known_favicon_ico() {
    let r = fetch_favicon_url("<html><head></head><body></body></html>", "https://example.com");
    assert_eq!(r, Some(String::from("https://example.com/favicon.ico")));
}

#[test]
fn relative_href_joins_against_base_path() {
    let html = r#"<html><head><link rel="icon" sizes="32x32" href="icons/fav.png"></head></html>"#;
    let r = fetch_favicon_url(html, "https://example.com/path/");
    assert_eq!(r, Some(String::from("https://example.com/path/icons/fav.png")));
}

#[test]
fn absolute_href_passes_through_unchanged() {
    let html =
        r#"<html><head><link rel="icon" sizes="32x32" href="https://cdn.example.com/x.png"></head></html>"#;
    let r = fetch_favicon_url(html, "https://example.com/path/");
    assert_eq!(r, Some(String::from("https://cdn.example.com/x.png")));
}

#[test]
fn shortcut_icon_rel_is_matched_too() {
    let html = r#"<html><head><link rel="shortcut icon" sizes="48x48" href="/s.ico"></head></html>"#;
    let r = fetch_favicon_url(html, "https://example.com/");
    assert_eq!(r, Some(String::from("https://example.com/s.ico")));
}

#[test]
fn equal_scores_pick_the_earliest_candidate() {
    let html = r#"<html><head><link rel="icon" sizes="32x32" href="/a.png"><link rel="icon" sizes="32x32" href="/b.png"></head></html>"#;
    let r = fetch_favicon_url(html, "https://example.com/");
    assert_eq!(r, Some(String::from("https://example.com/a.png")));
}

#[test]
fn unparseable_sizes_uses_icon_default() {
    // "any" scores the icon default 16, above the well-known 10.
    let html = r#"<html><head><link rel="icon" sizes="any" href="/a.png"></head></html>"#;
    let r = fetch_favicon_url(html, "https://example.com/");
    assert_eq!(r, Some(String::from("https://example.com/a.png")));
}

#[test]
fn link_without_href_is_skipped() {
    let html = r#"<html><head><link rel="icon" sizes="512x512"></head></html>"#;
    let r = fetch_favicon_url(html, "https://example.com/");
    assert_eq!(r, Some(String::from("https://example.com/favicon.ico")));
}

#[test]
fn select_best_picks_higher_score_in_either_order() {
    let a = Candidate { url: String::from("https://example.com/a.png"), score: 16 };
    let b = Candidate { url: String::from("https://example.com/b.png"), score: 180 };
    let r = select_best(&vec![
        Candidate { url: a.url.clone(), score: a.score },
        Candidate { url: b.url.clone(), score: b.score },
    ])
    .unwrap();
    assert_eq!(r.url, "https://example.com/b.png");
    assert_eq!(r.score, 180);
    let r2 = select_best(&vec![
        Candidate { url: b.url.clone(), score: b.score },
        Candidate { url: a.url.clone(), score: a.score },
    ])
    .unwrap();
    assert_eq!(r2.url, "https://example.com/b.png");
}

#[test]
fn select_best_of_empty_is_none() {
    let r = select_best(&Vec::new());
    assert!(r.is_none());
}

#[test]
fn parse_score_reads_leading_token() {
    assert_eq!(parse_score("32x32"), Some(32));
    assert_eq!(parse_score("180x180"), Some(180));
    assert_eq!(parse_score("64"), Some(64));
    assert_eq!(parse_score("007"), Some(7));
    assert_eq!(parse_score("12xanything"), Some(12));
}

#[test]
fn parse_score_rejects_unusable_tokens() {
    assert_eq!(parse_score("any"), None);
    assert_eq!(parse_score(""), None);
    assert_eq!(parse_score("x32"), None);
    assert_eq!(parse_score(" 32x32"), None);
    assert_eq!(parse_score("-5x-5"), None);
    assert_eq!(parse_score("2147483647"), Some(2147483647));
    assert_eq!(parse_score("2147483648"), None);
}

#[test]
fn basic_locations_join_in_probe_order() {
    let r = basic_location_urls("https://example.com").unwrap();
    assert_eq!(
        r,
        vec![
            String::from("https://example.com/favicon.ico"),
            String::from("https://example.com/favicon.png"),
            String::from("https://example.com/apple-touch-icon.png"),
            String::from("https://example.com/apple-touch-icon-precomposed.png"),
        ]
    );
}

#[test]
fn basic_locations_of_invalid_base_are_none() {
    assert!(basic_location_urls("not a url").is_none());
}
