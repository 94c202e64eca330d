use velocty::feeds::{
    build_portfolio_jsonld, build_post_jsonld, feed_count, generate_feed, generate_robots,
    generate_sitemap, FeedPost, JsonLdItem, JsonLdPost, SitemapEntry,
};
use velocty::seo::{
    build_analytics_scripts, build_meta, build_webmaster_meta, format_iso8601, format_rfc2822,
    format_ymd,
};
use velocty::settings::Settings;

fn settings(pairs: &[(&str, &str)]) -> Settings {
    let mut s = Settings::new();
    for (k, v) in pairs {
        s.insert(k.to_string(), v.to_string());
    }
    s
}

#[test]
fn meta_tags_default() {
    let s = Settings::new();
    assert_eq!(
        build_meta(&s, Some("Hello <World>"), None, "/about"),
        "<title>Hello &lt;World&gt; — Velocty</title>\n<meta name=\"description\" content=\"\">\n<link rel=\"canonical\" href=\"http://localhost:8000/about\">"
    );
    assert_eq!(
        build_meta(&s, None, Some("D"), "/"),
        "<title>Velocty</title>\n<meta name=\"description\" content=\"D\">\n<link rel=\"canonical\" href=\"http://localhost:8000/\">"
    );
}

#[test]
fn meta_tags_with_social_cards() {
    let s = settings(&[
        ("site_name", "Site"),
        ("seo_title_template", "{{site_name}} | {{title}}"),
        ("seo_open_graph", "1"),
        ("seo_twitter_cards", "true"),
        ("seo_canonical_base", "https://c.example"),
        ("seo_default_description", "Default \"desc\""),
    ]);
    assert_eq!(
        build_meta(&s, Some("Post"), None, "/p"),
        "<title>Site | Post</title>\n<meta name=\"description\" content=\"Default &quot;desc&quot;\">\n<link rel=\"canonical\" href=\"https://c.example/p\">\n<meta property=\"og:title\" content=\"Site | Post\">\n<meta property=\"og:description\" content=\"Default &quot;desc&quot;\">\n<meta property=\"og:url\" content=\"https://c.example/p\">\n<meta property=\"og:site_name\" content=\"Site\">\n<meta property=\"og:type\" content=\"website\">\n<meta name=\"twitter:card\" content=\"summary_large_image\">\n<meta name=\"twitter:title\" content=\"Site | Post\">\n<meta name=\"twitter:description\" content=\"Default &quot;desc&quot;\">"
    );
}

#[test]
fn webmaster_verification_tags() {
    assert_eq!(build_webmaster_meta(&Settings::new()), "");
    let s = settings(&[("seo_bing_verification", "b&1"), ("seo_google_verification", "g")]);
    assert_eq!(
        build_webmaster_meta(&s),
        "    <meta name=\"google-site-verification\" content=\"g\">\n    <meta name=\"msvalidate.01\" content=\"b&amp;1\">\n"
    );
}

#[test]
fn analytics_scripts() {
    assert_eq!(build_analytics_scripts(&Settings::new()), "");
    let ga = settings(&[("seo_ga_enabled", "true"), ("seo_ga_measurement_id", "G-1")]);
    assert_eq!(
        build_analytics_scripts(&ga),
        "<script async src=\"https://www.googletagmanager.com/gtag/js?id=G-1\"></script>\n<script>window.dataLayer=window.dataLayer||[];function gtag(){dataLayer.push(arguments);}gtag('js',new Date());gtag('config','G-1');</script>\n"
    );
    let consent = settings(&[("cookie_consent_enabled", "true"), ("seo_plausible_enabled", "true"), ("seo_plausible_domain", "x.org")]);
    assert_eq!(
        build_analytics_scripts(&consent),
        "<script type=\"text/plain\" data-consent=\"analytics\" defer data-domain=\"x.org\" src=\"https://plausible.io/js/script.js\"></script>\n"
    );
    let missing_id = settings(&[("seo_fathom_enabled", "true")]);
    assert_eq!(build_analytics_scripts(&missing_id), "");
    let umami = settings(&[("seo_umami_enabled", "true"), ("seo_umami_website_id", "w"), ("seo_umami_host", "https://u.example")]);
    assert_eq!(
        build_analytics_scripts(&umami),
        "<script defer src=\"https://u.example/script.js\" data-website-id=\"w\"></script>\n"
    );
}

#[test]
fn dates_in_zones() {
    assert_eq!(format_rfc2822(0, "UTC"), "Thu, 01 Jan 1970 00:00:00 +0000");
    assert_eq!(format_rfc2822(0, "Not/AZone"), "Thu, 01 Jan 1970 00:00:00 +0000");
    assert_eq!(format_rfc2822(0, "America/New_York"), "Wed, 31 Dec 1969 19:00:00 -0500");
    assert_eq!(format_iso8601(0, "Europe/Berlin"), "1970-01-01T01:00:00+01:00");
    assert_eq!(format_iso8601(0, "nowhere"), "1970-01-01T00:00:00+00:00");
    assert_eq!(format_ymd(86400), "1970-01-02");
}

#[test]
fn sitemap_listing() {
    let posts = vec![SitemapEntry { slug: "p".to_string(), updated_at: 0 }];
    let items = vec![SitemapEntry { slug: "i".to_string(), updated_at: 86400 }];
    assert_eq!(generate_sitemap(&Settings::new(), &posts, &items), None);
    let s = settings(&[("seo_sitemap_enabled", "true")]);
    assert_eq!(
        generate_sitemap(&s, &posts, &items).unwrap(),
        "<?xml version=\"1.0\" encoding=\"UTF-8\"?>\n<urlset xmlns=\"http://www.sitemaps.org/schemas/sitemap/0.9\">\n  <url><loc>http://localhost:8000</loc><changefreq>daily</changefreq><priority>1.0</priority></url>\n  <url><loc>http://localhost:8000/journal</loc><changefreq>daily</changefreq><priority>0.8</priority></url>\n  <url><loc>http://localhost:8000/portfolio</loc><changefreq>daily</changefreq><priority>0.8</priority></url>\n  <url><loc>http://localhost:8000/journal/p</loc><lastmod>1970-01-01</lastmod><priority>0.6</priority></url>\n  <url><loc>http://localhost:8000/portfolio/i</loc><lastmod>1970-01-02</lastmod><priority>0.6</priority></url>\n</urlset>"
    );
}

#[test]
fn robots_txt() {
    assert_eq!(generate_robots(&Settings::new()), "User-agent: *\nAllow: /");
    let s = settings(&[("seo_sitemap_enabled", "1"), ("site_url", "https://x.org")]);
    assert_eq!(generate_robots(&s), "User-agent: *\nAllow: /\nSitemap: https://x.org/sitemap.xml");
}

#[test]
fn post_structured_data() {
    let p = JsonLdPost {
        title: "Say \"hi\"".to_string(),
        slug: "p".to_string(),
        meta_description: None,
        featured_image: None,
        published_at: None,
        updated_at: 0,
    };
    assert_eq!(
        build_post_jsonld(&Settings::new(), &p),
        "<script type=\"application/ld+json\">\n{\n    \"@context\": \"https://schema.org\",\n    \"@type\": \"BlogPosting\",\n    \"headline\": \"Say \\\"hi\\\"\",\n    \"description\": \"\",\n    \"url\": \"http://localhost:8000/journal/p\",\n    \"datePublished\": \"\",\n    \"dateModified\": \"1970-01-01T00:00:00+00:00\",\n    \"publisher\": {\n        \"@type\": \"Organization\",\n        \"name\": \"Velocty\"\n    }\n}\n</script>"
    );
    let with_image = JsonLdPost { featured_image: Some("a.png".to_string()), published_at: Some(0), ..p };
    let out = build_post_jsonld(&Settings::new(), &with_image);
    assert!(out.contains("\"datePublished\": \"1970-01-01T00:00:00+00:00\""));
    assert!(out.ends_with("    },\n    \"image\": \"http://localhost:8000/uploads/a.png\"\n\n}\n</script>"));
}

#[test]
fn portfolio_structured_data() {
    let i = JsonLdItem {
        title: "Shot".to_string(),
        slug: "shot".to_string(),
        meta_description: Some("line\nbreak".to_string()),
        image_path: "img.jpg".to_string(),
    };
    assert_eq!(
        build_portfolio_jsonld(&Settings::new(), &i),
        "<script type=\"application/ld+json\">\n{\n    \"@context\": \"https://schema.org\",\n    \"@type\": \"ImageObject\",\n    \"name\": \"Shot\",\n    \"description\": \"line\\nbreak\",\n    \"contentUrl\": \"http://localhost:8000/uploads/img.jpg\",\n    \"url\": \"http://localhost:8000/portfolio/shot\",\n    \"publisher\": {\n        \"@type\": \"Organization\",\n        \"name\": \"Velocty\"\n    }\n}\n</script>"
    );
}

#[test]
fn rss_feed() {
    let s = settings(&[("site_name", "My & Blog")]);
    let posts = vec![FeedPost {
        title: "T".to_string(),
        slug: "s".to_string(),
        excerpt: Some("E<".to_string()),
        published_at: Some(0),
    }];
    assert_eq!(
        generate_feed(&s, &posts),
        "<?xml version=\"1.0\" encoding=\"UTF-8\"?>\n<rss version=\"2.0\" xmlns:atom=\"http://www.w3.org/2005/Atom\">\n<channel>\n    <title>My &amp; Blog</title>\n    <link>http://localhost:8000</link>\n    <description></description>\n    <atom:link href=\"http://localhost:8000/feed\" rel=\"self\" type=\"application/rss+xml\"/>\n    <language>en</language>\n    <lastBuildDate>Thu, 01 Jan 1970 00:00:00 +0000</lastBuildDate>\n    <item>\n        <title>T</title>\n        <link>http://localhost:8000/blog/s</link>\n        <guid isPermaLink=\"true\">http://localhost:8000/blog/s</guid>\n        <pubDate>Thu, 01 Jan 1970 00:00:00 +0000</pubDate>\n        <description>E&lt;</description>\n    </item>\n</channel>\n</rss>"
    );
    let empty = generate_feed(&Settings::new(), &vec![]);
    assert!(empty.ends_with("<language>en</language>\n</channel>\n</rss>"));
}

#[test]
fn rss_feed_count_clamped() {
    assert_eq!(feed_count(&Settings::new()), 25);
    assert_eq!(feed_count(&settings(&[("rss_feed_count", "500")])), 100);
    assert_eq!(feed_count(&settings(&[("rss_feed_count", "0")])), 1);
    assert_eq!(feed_count(&settings(&[("rss_feed_count", "ten")])), 25);
    assert_eq!(feed_count(&settings(&[("rss_feed_count", "10")])), 10);
}
