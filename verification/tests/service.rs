use url_shortener::commands::CommandHandler;
use url_shortener::queries::QueryHandler;
use url_shortener::{ShortLink, ShortenerError, Slug, Stats, Url, UrlShortenerService};

fn url(s: &str) -> Url {
    Url(s.to_string())
}

fn slug(s: &str) -> Slug {
    Slug(s.to_string())
}

#[test]
fn scenario_random_slug_starts_at_zero() {
    let mut service = UrlShortenerService::new();
    let link = service
        .handle_create_short_link(url("https://x.com"), None)
        .expect("creation with a generated slug must succeed");
    let stats = service.get_stats(link.slug.clone()).expect("the new slug must be known");
    assert_eq!(stats.redirects, 0);
    assert_eq!(stats.link, link);
}

#[test]
fn scenario_duplicate_slug_rejected() {
    let mut service = UrlShortenerService::new();
    service
        .handle_create_short_link(url("https://x.com"), Some(slug("abc")))
        .expect("creation with a free slug must succeed");
    let second = service.handle_create_short_link(url("https://y.com"), Some(slug("abc")));
    assert_eq!(second, Err(ShortenerError::SlugAlreadyInUse));
    // the directory still maps abc to the first URL
    let stats = service.get_stats(slug("abc")).unwrap();
    assert_eq!(stats.link.url, url("https://x.com"));
}

#[test]
fn scenario_missing_slug_appends_nothing() {
    let mut service = UrlShortenerService::new();
    let before = service.event_count();
    let r = service.handle_redirect(slug("missing"));
    assert_eq!(r, Err(ShortenerError::SlugNotFound));
    assert_eq!(service.event_count(), before);
}

#[test]
fn scenario_change_then_redirect() {
    let mut service = UrlShortenerService::new();
    service
        .handle_create_short_link(url("https://x.com"), Some(slug("abc")))
        .expect("creation must succeed");
    service
        .handle_change_short_link(slug("abc"), url("https://z.com"))
        .expect("changing an existing slug must succeed");
    service.handle_redirect(slug("abc")).expect("redirecting an existing slug must succeed");
    let stats = service.get_stats(slug("abc")).unwrap();
    assert_eq!(
        stats,
        Stats { link: ShortLink { slug: slug("abc"), url: url("https://z.com") }, redirects: 1 }
    );
}

#[test]
fn invalid_url_rejected_on_create() {
    let mut service = UrlShortenerService::new();
    let r = service.handle_create_short_link(url(""), Some(slug("abc")));
    assert_eq!(r, Err(ShortenerError::InvalidUrl));
    assert_eq!(service.event_count(), 0);
    // the same URL validator guards creation with a generated slug
    let r = service.handle_create_short_link(url(""), None);
    assert_eq!(r, Err(ShortenerError::InvalidUrl));
    assert_eq!(service.event_count(), 0);
}

#[test]
fn invalid_url_rejected_on_change() {
    let mut service = UrlShortenerService::new();
    service
        .handle_create_short_link(url("https://x.com"), Some(slug("abc")))
        .expect("creation must succeed");
    let before = service.event_count();
    let r = service.handle_change_short_link(slug("abc"), url(""));
    assert_eq!(r, Err(ShortenerError::InvalidUrl));
    assert_eq!(service.event_count(), before);
    // the slug is checked before the URL
    let r = service.handle_change_short_link(slug("nope"), url(""));
    assert_eq!(r, Err(ShortenerError::SlugNotFound));
}

#[test]
fn missing_slug_on_change_and_stats() {
    let mut service = UrlShortenerService::new();
    let r = service.handle_change_short_link(slug("nope"), url("https://x.com"));
    assert_eq!(r, Err(ShortenerError::SlugNotFound));
    assert_eq!(service.get_stats(slug("nope")), Err(ShortenerError::SlugNotFound));
}

#[test]
fn slugs_are_case_sensitive() {
    let mut service = UrlShortenerService::new();
    service
        .handle_create_short_link(url("https://x.com"), Some(slug("abc")))
        .expect("creation must succeed");
    let r = service
        .handle_create_short_link(url("https://y.com"), Some(slug("ABC")))
        .expect("a slug differing only in case is a different slug");
    assert_eq!(r.slug, slug("ABC"));
    assert_eq!(service.get_stats(slug("ABC")).unwrap().link.url, url("https://y.com"));
    assert_eq!(service.get_stats(slug("abc")).unwrap().link.url, url("https://x.com"));
}

#[test]
fn monotonic_counting_interleaved() {
    let mut service = UrlShortenerService::new();
    service
        .handle_create_short_link(url("https://a.com"), Some(slug("a")))
        .expect("creation must succeed");
    service
        .handle_create_short_link(url("https://b.com"), Some(slug("b")))
        .expect("creation must succeed");
    for i in 0..5 {
        service.handle_redirect(slug("a")).expect("redirect of a known slug must succeed");
        if i % 2 == 0 {
            service.handle_redirect(slug("b")).expect("redirect of a known slug must succeed");
        }
        if i == 2 {
            service
                .handle_change_short_link(slug("a"), url("https://a2.com"))
                .expect("change of a known slug must succeed");
        }
        let _ = service.handle_redirect(slug("missing"));
    }
    assert_eq!(service.get_stats(slug("a")).unwrap().redirects, 5);
    assert_eq!(service.get_stats(slug("b")).unwrap().redirects, 3);
}

#[test]
fn idempotent_read() {
    let mut service = UrlShortenerService::new();
    service
        .handle_create_short_link(url("https://x.com"), Some(slug("abc")))
        .expect("creation must succeed");
    service.handle_redirect(slug("abc")).expect("redirect must succeed");
    let first = service.get_stats(slug("abc"));
    let second = service.get_stats(slug("abc"));
    assert_eq!(first, second);
}

#[test]
fn replay_equivalence_after_rebuild() {
    let mut service = UrlShortenerService::new();
    service
        .handle_create_short_link(url("https://x.com"), Some(slug("abc")))
        .expect("creation must succeed");
    service
        .handle_create_short_link(url("https://y.com"), Some(slug("xyz")))
        .expect("creation must succeed");
    service
        .handle_change_short_link(slug("abc"), url("https://z.com"))
        .expect("change must succeed");
    service.handle_redirect(slug("abc")).expect("redirect must succeed");
    service.handle_redirect(slug("abc")).expect("redirect must succeed");
    service.handle_redirect(slug("xyz")).expect("redirect must succeed");

    let abc_before = service.get_stats(slug("abc"));
    let xyz_before = service.get_stats(slug("xyz"));
    let events_before = service.event_count();

    // dropping and rebuilding the projections from the log changes nothing
    service.rebuild_projections();

    assert_eq!(service.event_count(), events_before);
    assert_eq!(service.get_stats(slug("abc")), abc_before);
    assert_eq!(service.get_stats(slug("xyz")), xyz_before);
    assert_eq!(service.get_stats(slug("abc")).unwrap().redirects, 2);
    assert_eq!(service.get_stats(slug("abc")).unwrap().link.url, url("https://z.com"));
}

#[test]
fn generated_slug_is_six_alphanumerics() {
    let mut service = UrlShortenerService::new();
    let link = service
        .handle_create_short_link(url("https://x.com"), None)
        .expect("creation with a generated slug must succeed");
    assert_eq!(link.slug.0.chars().count(), 6);
    assert!(link.slug.0.chars().all(|c| c.is_ascii_alphanumeric()));
    let other = service
        .handle_create_short_link(url("https://y.com"), None)
        .expect("a second generated slug must succeed");
    assert_eq!(other.slug.0.chars().count(), 6);
}

#[test]
fn event_count_tracks_successful_commands_only() {
    let mut service = UrlShortenerService::new();
    assert_eq!(service.event_count(), 0);
    service
        .handle_create_short_link(url("https://x.com"), Some(slug("abc")))
        .expect("creation must succeed");
    assert_eq!(service.event_count(), 1);
    let _ = service.handle_create_short_link(url("https://y.com"), Some(slug("abc")));
    assert_eq!(service.event_count(), 1);
    service.handle_redirect(slug("abc")).expect("redirect must succeed");
    assert_eq!(service.event_count(), 2);
    service
        .handle_change_short_link(slug("abc"), url("https://z.com"))
        .expect("change must succeed");
    assert_eq!(service.event_count(), 3);
    // queries never touch the log
    let _ = service.get_stats(slug("abc"));
    assert_eq!(service.event_count(), 3);
}
