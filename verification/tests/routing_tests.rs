use velocty::routing::{
    dispatch_root, dispatch_section, file_response, strip_slug_prefix, upload_file_path, Page,
    Route, Section,
};
use velocty::settings::Settings;

fn settings(pairs: &[(&str, &str)]) -> Settings {
    let mut s = Settings::new();
    for (k, v) in pairs {
        s.insert(k.to_string(), v.to_string());
    }
    s
}

fn page(r: &Option<Route>) -> Option<(Section, String, String)> {
    r.as_ref().map(|r| {
        let (kind, slug) = match &r.page {
            Page::List => ("list", String::new()),
            Page::ByCategory(s) => ("category", s.clone()),
            Page::ByTag(s) => ("tag", s.clone()),
            Page::Single(s) => ("single", s.clone()),
        };
        (r.section, kind.to_string(), slug)
    })
}

#[test]
fn slug_prefix_stripping() {
    assert_eq!(strip_slug_prefix("journal/post", "journal").as_deref(), Some("post"));
    assert_eq!(strip_slug_prefix("journal", "journal").as_deref(), Some(""));
    assert_eq!(strip_slug_prefix("journalx", "journal"), None);
    assert_eq!(strip_slug_prefix("x/y", "").as_deref(), Some("x/y"));
    assert_eq!(strip_slug_prefix("other", "journal"), None);
}

#[test]
fn section_pages() {
    assert!(matches!(dispatch_section(""), Some(Page::List)));
    assert!(matches!(dispatch_section("my-post"), Some(Page::Single(s)) if s == "my-post"));
    assert!(matches!(dispatch_section("category/news"), Some(Page::ByCategory(s)) if s == "news"));
    assert!(matches!(dispatch_section("tag/rust"), Some(Page::ByTag(s)) if s == "rust"));
    assert!(dispatch_section("a/b").is_none());
}

#[test]
fn journal_routes_with_defaults() {
    let s = Settings::new();
    assert_eq!(page(&dispatch_root(&s, Some("journal"))), Some((Section::Blog, "list".to_string(), String::new())));
    assert_eq!(page(&dispatch_root(&s, Some("journal/"))), Some((Section::Blog, "list".to_string(), String::new())));
    assert_eq!(page(&dispatch_root(&s, Some("journal/my-post"))), Some((Section::Blog, "single".to_string(), "my-post".to_string())));
    assert_eq!(page(&dispatch_root(&s, Some("journal/category/news"))), Some((Section::Blog, "category".to_string(), "news".to_string())));
    assert_eq!(page(&dispatch_root(&s, Some("journal/tag/rust"))), Some((Section::Blog, "tag".to_string(), "rust".to_string())));
    assert!(dispatch_root(&s, Some("journal/a/b")).is_none());
    assert!(dispatch_root(&s, Some("portfolio")).is_none());
    assert!(dispatch_root(&s, None).is_none());
}

#[test]
fn reserved_paths_are_never_claimed() {
    let s = settings(&[("blog_slug", "")]);
    assert!(dispatch_root(&s, Some("admin")).is_none());
    assert!(dispatch_root(&s, Some("static/app.css")).is_none());
    assert!(dispatch_root(&s, Some("sitemap.xml")).is_none());
    assert_eq!(page(&dispatch_root(&s, None)), Some((Section::Blog, "list".to_string(), String::new())));
    let custom = settings(&[("admin_slug", "backstage"), ("blog_slug", "")]);
    assert!(dispatch_root(&custom, Some("backstage/posts")).is_none());
}

#[test]
fn portfolio_routes_when_enabled() {
    let s = settings(&[("portfolio_enabled", "true"), ("journal_enabled", "false")]);
    assert_eq!(page(&dispatch_root(&s, Some("portfolio/shot"))), Some((Section::Portfolio, "single".to_string(), "shot".to_string())));
    assert!(dispatch_root(&s, Some("journal")).is_none());
    let both = settings(&[("portfolio_enabled", "true"), ("blog_slug", "")]);
    // The journal owns every path when its slug is empty, and it is tried first.
    assert_eq!(page(&dispatch_root(&both, Some("portfolio"))), Some((Section::Blog, "single".to_string(), "portfolio".to_string())));
}

#[test]
fn uploads_paths_and_responses() {
    assert_eq!(upload_file_path("/uploads/a.png").as_deref(), Some("website/site/uploads/a.png"));
    assert_eq!(upload_file_path("/etc/passwd"), None);
    let svg = file_response(vec![1, 2], "image/svg+xml", "private, max-age=3600");
    assert_eq!(
        svg.content_security_policy.as_deref(),
        Some("default-src 'none'; style-src 'unsafe-inline'; img-src 'self'")
    );
    assert_eq!(svg.bytes, vec![1, 2]);
    let png = file_response(vec![], "image/png", "x");
    assert!(png.content_security_policy.is_none());
    assert_eq!(png.content_type, "image/png");
}

#[test]
fn listing_pages() {
    let mut s = velocty::settings::Settings::new();
    let w = velocty::routing::page_window(&s, "blog_posts_per_page", None);
    assert_eq!((w.per_page, w.current_page, w.offset), (1, 1, 0));
    s.insert("blog_posts_per_page".to_string(), "10".to_string());
    let w = velocty::routing::page_window(&s, "blog_posts_per_page", Some(3));
    assert_eq!((w.per_page, w.current_page, w.offset), (10, 3, 20));
    let w = velocty::routing::page_window(&s, "blog_posts_per_page", Some(-4));
    assert_eq!((w.current_page, w.offset), (1, 0));
    assert_eq!(velocty::routing::total_pages(25, 10), 3);
    assert_eq!(velocty::routing::total_pages(30, 10), 3);
    assert_eq!(velocty::routing::total_pages(0, 10), 0);
    assert_eq!(velocty::routing::total_pages(1, 10), 1);
    assert_eq!(velocty::routing::total_pages(-5, 2), -2);
    assert_eq!(velocty::routing::total_pages(i64::MIN, 1), i64::MIN);
    assert_eq!(velocty::routing::total_pages(i64::MAX, 1), i64::MAX);
}
