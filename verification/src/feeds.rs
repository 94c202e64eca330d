use vstd::prelude::*;
use crate::settings::{Settings, value_or, bool_setting};
use crate::text::{xml_escaped, json_escaped, parse_int, xml_escape, json_escape, owned, push_str, parse_i64};
use crate::seo::{or_empty, utc_text, date_in_zone, format_ymd, format_rfc2822, format_iso8601};

verus! {

// ── Sitemap and robots.txt ──────────────────────────────────────────

/// A published entry listed in the sitemap.
pub struct SitemapEntry {
    pub slug: String,
    /// The last change, in seconds since the Unix epoch (UTC).
    pub updated_at: i64,
}

/// Sitemap entries as slugs and change times.
pub open spec fn entry_views(es: Seq<SitemapEntry>) -> Seq<(Seq<char>, i64)> {
    es.map_values(|e: SitemapEntry| (e.slug@, e.updated_at))
}

/// The sitemap line of one entry under a section.
pub open spec fn entry_url(site: Seq<char>, section: Seq<char>, e: (Seq<char>, i64)) -> Seq<char> {
    "  <url><loc>"@ + site + seq!['/'] + section + seq!['/'] + e.0 + "</loc><lastmod>"@ + or_empty(
        utc_text(e.1, "%Y-%m-%d"@),
    ) + "</lastmod><priority>0.6</priority></url>\n"@
}

/// The sitemap lines of entries under a section, in order.
pub open spec fn entries_xml(site: Seq<char>, section: Seq<char>, es: Seq<(Seq<char>, i64)>) -> Seq<char>
    decreases es.len(),
{
    if es.len() == 0 {
        Seq::empty()
    } else {
        entries_xml(site, section, es.drop_last()) + entry_url(site, section, es.last())
    }
}

/// The sitemap head: the XML declaration, the `urlset` element and the home page, the
/// journal index and the portfolio index.
pub open spec fn sitemap_head(site: Seq<char>, blog: Seq<char>, portfolio: Seq<char>) -> Seq<char> {
    "<?xml version=\"1.0\" encoding=\"UTF-8\"?>\n<urlset xmlns=\"http://www.sitemaps.org/schemas/sitemap/0.9\">\n"@
        + "  <url><loc>"@ + site
        + "</loc><changefreq>daily</changefreq><priority>1.0</priority></url>\n"@
        + "  <url><loc>"@ + site + seq!['/'] + blog
        + "</loc><changefreq>daily</changefreq><priority>0.8</priority></url>\n"@
        + "  <url><loc>"@ + site + seq!['/'] + portfolio
        + "</loc><changefreq>daily</changefreq><priority>0.8</priority></url>\n"@
}

/// The sitemap for the given published posts and portfolio items, or `None` where
/// `seo_sitemap_enabled` is off.
pub open spec fn sitemap_spec(m: Map<Seq<char>, Seq<char>>, posts: Seq<(Seq<char>, i64)>, items: Seq<(Seq<char>, i64)>) -> Option<Seq<char>> {
    if !bool_setting(m, "seo_sitemap_enabled"@) {
        None
    } else {
        let site = value_or(m, "site_url"@, "http://localhost:8000"@);
        let blog = value_or(m, "blog_slug"@, "journal"@);
        let portfolio = value_or(m, "portfolio_slug"@, "portfolio"@);
        Some(sitemap_head(site, blog, portfolio) + entries_xml(site, blog, posts) + entries_xml(
            site,
            portfolio,
            items,
        ) + "</urlset>"@)
    }
}

fn push_entries(xml: &mut String, site: &str, section: &str, es: &Vec<SitemapEntry>)
    ensures
        final(xml)@ == old(xml)@ + entries_xml(site@, section@, entry_views(es@)),
{
    let ghost v = entry_views(es@);
    let ghost start = xml@;
    let mut i: usize = 0;
    proof {
        assert(v.take(0) =~= Seq::<(Seq<char>, i64)>::empty());
    }
    while i < es.len()
        invariant
            i <= es.len(),
            v == entry_views(es@),
            xml@ == start + entries_xml(site@, section@, v.take(i as int)),
        decreases es.len() - i,
    {
        let e = &es[i];
        let day = format_ymd(e.updated_at);
        push_str(xml, "  <url><loc>");
        push_str(xml, site);
        xml.push('/');
        push_str(xml, section);
        xml.push('/');
        push_str(xml, e.slug.as_str());
        push_str(xml, "</loc><lastmod>");
        push_str(xml, day.as_str());
        push_str(xml, "</lastmod><priority>0.6</priority></url>\n");
        proof {
            assert(v.take(i + 1).drop_last() =~= v.take(i as int));
            assert(v.take(i + 1).last() == (e.slug@, e.updated_at));
            assert(xml@ =~= start + entries_xml(site@, section@, v.take(i + 1)));
        }
        i = i + 1;
    }
    proof {
        assert(v.take(es@.len() as int) =~= v);
    }
}

/// Generates `sitemap.xml`, or `None` where the sitemap is switched off.
pub fn generate_sitemap(settings: &Settings, posts: &Vec<SitemapEntry>, items: &Vec<SitemapEntry>) -> (r: Option<String>)
    ensures
        opt_string(r) == sitemap_spec(settings@, entry_views(posts@), entry_views(items@)),
{
    if !settings.get_bool("seo_sitemap_enabled") {
        return None;
    }
    let site = settings.get_or("site_url", "http://localhost:8000");
    let blog = settings.get_or("blog_slug", "journal");
    let portfolio = settings.get_or("portfolio_slug", "portfolio");
    let mut xml = owned(
        "<?xml version=\"1.0\" encoding=\"UTF-8\"?>\n<urlset xmlns=\"http://www.sitemaps.org/schemas/sitemap/0.9\">\n",
    );
    push_str(&mut xml, "  <url><loc>");
    push_str(&mut xml, site.as_str());
    push_str(&mut xml, "</loc><changefreq>daily</changefreq><priority>1.0</priority></url>\n");
    push_str(&mut xml, "  <url><loc>");
    push_str(&mut xml, site.as_str());
    xml.push('/');
    push_str(&mut xml, blog.as_str());
    push_str(&mut xml, "</loc><changefreq>daily</changefreq><priority>0.8</priority></url>\n");
    push_str(&mut xml, "  <url><loc>");
    push_str(&mut xml, site.as_str());
    xml.push('/');
    push_str(&mut xml, portfolio.as_str());
    push_str(&mut xml, "</loc><changefreq>daily</changefreq><priority>0.8</priority></url>\n");
    proof {
        assert(xml@ =~= sitemap_head(site@, blog@, portfolio@));
    }
    let ghost head = xml@;
    push_entries(&mut xml, site.as_str(), blog.as_str(), posts);
    let ghost mid = xml@;
    push_entries(&mut xml, site.as_str(), portfolio.as_str(), items);
    push_str(&mut xml, "</urlset>");
    proof {
        assert(xml@ =~= head + entries_xml(site@, blog@, entry_views(posts@)) + entries_xml(
            site@,
            portfolio@,
            entry_views(items@),
        ) + "</urlset>"@);
    }
    Some(xml)
}

/// An optional `String` as optional characters.
pub open spec fn opt_string(o: Option<String>) -> Option<Seq<char>> {
    match o {
        Some(s) => Some(s@),
        None => None,
    }
}

/// `robots.txt`: the configured text (allowing everything by default) and, where the
/// sitemap is on, a line pointing at it.
pub open spec fn robots_spec(m: Map<Seq<char>, Seq<char>>) -> Seq<char> {
    value_or(m, "seo_robots_txt"@, "User-agent: *\nAllow: /"@) + (if bool_setting(
        m,
        "seo_sitemap_enabled"@,
    ) {
        "\nSitemap: "@ + value_or(m, "site_url"@, "http://localhost:8000"@) + "/sitemap.xml"@
    } else {
        Seq::empty()
    })
}

/// Generates `robots.txt` with the sitemap's URL.
pub fn generate_robots(settings: &Settings) -> (r: String)
    ensures
        r@ == robots_spec(settings@),
{
    let mut content = settings.get_or("seo_robots_txt", "User-agent: *\nAllow: /");
    let site = settings.get_or("site_url", "http://localhost:8000");
    let ghost before = content@;
    if settings.get_bool("seo_sitemap_enabled") {
        push_str(&mut content, "\nSitemap: ");
        push_str(&mut content, site.as_str());
        push_str(&mut content, "/sitemap.xml");
    }
    proof {
        assert(content@ =~= robots_spec(settings@));
    }
    content
}

// ── Structured data ─────────────────────────────────────────────────

/// What the structured data of a post needs.
pub struct JsonLdPost {
    pub title: String,
    pub slug: String,
    pub meta_description: Option<String>,
    pub featured_image: Option<String>,
    /// Seconds since the Unix epoch (UTC).
    pub published_at: Option<i64>,
    /// Seconds since the Unix epoch (UTC).
    pub updated_at: i64,
}

/// The text of an optional field, or the empty text.
pub open spec fn opt_text(o: Option<String>) -> Seq<char> {
    match o {
        Some(s) => s@,
        None => Seq::empty(),
    }
}

/// The `BlogPosting` JSON-LD of a post, with dates in the configured time zone.
pub open spec fn post_jsonld_spec(m: Map<Seq<char>, Seq<char>>, p: JsonLdPost) -> Seq<char> {
    let site_name = value_or(m, "site_name"@, "Velocty"@);
    let site = value_or(m, "site_url"@, "http://localhost:8000"@);
    let blog = value_or(m, "blog_slug"@, "journal"@);
    let tz = value_or(m, "timezone"@, "UTC"@);
    let published = match p.published_at {
        Some(t) => date_in_zone(t, tz, "%Y-%m-%dT%H:%M:%S%:z"@, "%Y-%m-%dT%H:%M:%S+00:00"@),
        None => Seq::empty(),
    };
    let modified = date_in_zone(
        p.updated_at,
        tz,
        "%Y-%m-%dT%H:%M:%S%:z"@,
        "%Y-%m-%dT%H:%M:%S+00:00"@,
    );
    let img = opt_text(p.featured_image);
    "<script type=\"application/ld+json\">\n{\n    \"@context\": \"https://schema.org\",\n    \"@type\": \"BlogPosting\",\n    \"headline\": \""@
        + json_escaped(p.title@) + "\",\n    \"description\": \""@ + json_escaped(
        opt_text(p.meta_description),
    ) + "\",\n    \"url\": \""@ + site + seq!['/'] + blog + seq!['/'] + p.slug@
        + "\",\n    \"datePublished\": \""@ + published + "\",\n    \"dateModified\": \""@
        + modified
        + "\",\n    \"publisher\": {\n        \"@type\": \"Organization\",\n        \"name\": \""@
        + json_escaped(site_name) + "\"\n    }"@ + (if img.len() > 0 {
        ",\n    \"image\": \""@ + site + "/uploads/"@ + json_escaped(img) + "\"\n"@
    } else {
        Seq::empty()
    }) + "\n}\n</script>"@
}

/// Builds the JSON-LD structured data of a blog post.
pub fn build_post_jsonld(settings: &Settings, post: &JsonLdPost) -> (r: String)
    ensures
        r@ == post_jsonld_spec(settings@, *post),
{
    let site_name = settings.get_or("site_name", "Velocty");
    let site = settings.get_or("site_url", "http://localhost:8000");
    let blog = settings.get_or("blog_slug", "journal");
    let tz = settings.get_or("timezone", "UTC");
    let published = match post.published_at {
        Some(t) => format_iso8601(t, tz.as_str()),
        None => String::new(),
    };
    let modified = format_iso8601(post.updated_at, tz.as_str());
    let desc: &str = match &post.meta_description {
        Some(d) => d.as_str(),
        None => "",
    };
    proof {
        reveal_strlit("");
        assert(""@ =~= Seq::<char>::empty());
    }
    let et = json_escape(post.title.as_str());
    let ed = json_escape(desc);
    let es = json_escape(site_name.as_str());
    let mut ld = owned(
        "<script type=\"application/ld+json\">\n{\n    \"@context\": \"https://schema.org\",\n    \"@type\": \"BlogPosting\",\n    \"headline\": \"",
    );
    push_str(&mut ld, et.as_str());
    push_str(&mut ld, "\",\n    \"description\": \"");
    push_str(&mut ld, ed.as_str());
    push_str(&mut ld, "\",\n    \"url\": \"");
    push_str(&mut ld, site.as_str());
    ld.push('/');
    push_str(&mut ld, blog.as_str());
    ld.push('/');
    push_str(&mut ld, post.slug.as_str());
    push_str(&mut ld, "\",\n    \"datePublished\": \"");
    push_str(&mut ld, published.as_str());
    push_str(&mut ld, "\",\n    \"dateModified\": \"");
    push_str(&mut ld, modified.as_str());
    push_str(
        &mut ld,
        "\",\n    \"publisher\": {\n        \"@type\": \"Organization\",\n        \"name\": \"",
    );
    push_str(&mut ld, es.as_str());
    push_str(&mut ld, "\"\n    }");
    let ghost body = ld@;
    let img: &str = match &post.featured_image {
        Some(i) => i.as_str(),
        None => "",
    };
    if !img.is_empty() {
        let ei = json_escape(img);
        push_str(&mut ld, ",\n    \"image\": \"");
        push_str(&mut ld, site.as_str());
        push_str(&mut ld, "/uploads/");
        push_str(&mut ld, ei.as_str());
        push_str(&mut ld, "\"\n");
    }
    let ghost with_img = ld@;
    push_str(&mut ld, "\n}\n</script>");
    proof {
        let tail: Seq<char> = if img@.len() > 0 {
            ",\n    \"image\": \""@ + site@ + "/uploads/"@ + json_escaped(img@) + "\"\n"@
        } else {
            Seq::empty()
        };
        assert(with_img =~= body + tail);
        assert(ld@ =~= post_jsonld_spec(settings@, *post));
    }
    ld
}

/// What the structured data of a portfolio item needs.
pub struct JsonLdItem {
    pub title: String,
    pub slug: String,
    pub meta_description: Option<String>,
    pub image_path: String,
}

/// The `ImageObject` JSON-LD of a portfolio item.
pub open spec fn item_jsonld_spec(m: Map<Seq<char>, Seq<char>>, i: JsonLdItem) -> Seq<char> {
    let site_name = value_or(m, "site_name"@, "Velocty"@);
    let site = value_or(m, "site_url"@, "http://localhost:8000"@);
    let portfolio = value_or(m, "portfolio_slug"@, "portfolio"@);
    "<script type=\"application/ld+json\">\n{\n    \"@context\": \"https://schema.org\",\n    \"@type\": \"ImageObject\",\n    \"name\": \""@
        + json_escaped(i.title@) + "\",\n    \"description\": \""@ + json_escaped(
        opt_text(i.meta_description),
    ) + "\",\n    \"contentUrl\": \""@ + site + "/uploads/"@ + i.image_path@
        + "\",\n    \"url\": \""@ + site + seq!['/'] + portfolio + seq!['/'] + i.slug@
        + "\",\n    \"publisher\": {\n        \"@type\": \"Organization\",\n        \"name\": \""@
        + json_escaped(site_name) + "\"\n    }\n}\n</script>"@
}

/// Builds the JSON-LD structured data of a portfolio item.
pub fn build_portfolio_jsonld(settings: &Settings, item: &JsonLdItem) -> (r: String)
    ensures
        r@ == item_jsonld_spec(settings@, *item),
{
    let site_name = settings.get_or("site_name", "Velocty");
    let site = settings.get_or("site_url", "http://localhost:8000");
    let portfolio = settings.get_or("portfolio_slug", "portfolio");
    let desc: &str = match &item.meta_description {
        Some(d) => d.as_str(),
        None => "",
    };
    proof {
        reveal_strlit("");
        assert(""@ =~= Seq::<char>::empty());
    }
    let et = json_escape(item.title.as_str());
    let ed = json_escape(desc);
    let es = json_escape(site_name.as_str());
    let mut ld = owned(
        "<script type=\"application/ld+json\">\n{\n    \"@context\": \"https://schema.org\",\n    \"@type\": \"ImageObject\",\n    \"name\": \"",
    );
    push_str(&mut ld, et.as_str());
    push_str(&mut ld, "\",\n    \"description\": \"");
    push_str(&mut ld, ed.as_str());
    push_str(&mut ld, "\",\n    \"contentUrl\": \"");
    push_str(&mut ld, site.as_str());
    push_str(&mut ld, "/uploads/");
    push_str(&mut ld, item.image_path.as_str());
    push_str(&mut ld, "\",\n    \"url\": \"");
    push_str(&mut ld, site.as_str());
    ld.push('/');
    push_str(&mut ld, portfolio.as_str());
    ld.push('/');
    push_str(&mut ld, item.slug.as_str());
    push_str(
        &mut ld,
        "\",\n    \"publisher\": {\n        \"@type\": \"Organization\",\n        \"name\": \"",
    );
    push_str(&mut ld, es.as_str());
    push_str(&mut ld, "\"\n    }\n}\n</script>");
    proof {
        assert(ld@ =~= item_jsonld_spec(settings@, *item));
    }
    ld
}

// ── RSS ─────────────────────────────────────────────────────────────

/// A published post in the RSS feed.
pub struct FeedPost {
    pub title: String,
    pub slug: String,
    pub excerpt: Option<String>,
    /// Seconds since the Unix epoch (UTC).
    pub published_at: Option<i64>,
}

/// The number of posts in the feed: `rss_feed_count` (25 where unset or not a
/// number), clamped to 1..=100.
pub open spec fn feed_count_spec(m: Map<Seq<char>, Seq<char>>) -> int {
    let n = match parse_int(
        value_or(m, "rss_feed_count"@, "25"@),
        i64::MIN as int,
        i64::MAX as int,
    ) {
        Some(v) => v,
        None => 25,
    };
    if n < 1 {
        1
    } else if n > 100 {
        100
    } else {
        n
    }
}

/// How many posts the feed lists.
pub fn feed_count(settings: &Settings) -> (r: i64)
    ensures
        r == feed_count_spec(settings@),
        1 <= r <= 100,
{
    let t = settings.get_or("rss_feed_count", "25");
    let n = match parse_i64(t.as_str()) {
        Some(v) => v,
        None => 25,
    };
    if n < 1 {
        1
    } else if n > 100 {
        100
    } else {
        n
    }
}

/// A feed date: RFC 2822 in the configured zone, or UTC.
pub open spec fn feed_date(secs: i64, tz: Seq<char>) -> Seq<char> {
    date_in_zone(secs, tz, "%a, %d %b %Y %H:%M:%S %z"@, "%a, %d %b %Y %H:%M:%S +0000"@)
}

/// Feed posts as title, slug, excerpt and publication time.
pub open spec fn feed_views(ps: Seq<FeedPost>) -> Seq<(Seq<char>, Seq<char>, Seq<char>, Option<i64>)> {
    ps.map_values(|p: FeedPost| (p.title@, p.slug@, opt_text(p.excerpt), p.published_at))
}

/// The `<item>` of one post.
pub open spec fn feed_item(
    url: Seq<char>,
    blog: Seq<char>,
    tz: Seq<char>,
    p: (Seq<char>, Seq<char>, Seq<char>, Option<i64>),
) -> Seq<char> {
    let link = url + seq!['/'] + blog + seq!['/'] + p.1;
    "    <item>\n        <title>"@ + xml_escaped(p.0) + "</title>\n        <link>"@ + link
        + "</link>\n        <guid isPermaLink=\"true\">"@ + link
        + "</guid>\n        <pubDate>"@ + (match p.3 {
        Some(t) => feed_date(t, tz),
        None => Seq::empty(),
    }) + "</pubDate>\n        <description>"@ + xml_escaped(p.2)
        + "</description>\n    </item>\n"@
}

/// The items of the feed, in order.
pub open spec fn feed_items(
    url: Seq<char>,
    blog: Seq<char>,
    tz: Seq<char>,
    ps: Seq<(Seq<char>, Seq<char>, Seq<char>, Option<i64>)>,
) -> Seq<char>
    decreases ps.len(),
{
    if ps.len() == 0 {
        Seq::empty()
    } else {
        feed_items(url, blog, tz, ps.drop_last()) + feed_item(url, blog, tz, ps.last())
    }
}

/// The RSS 2.0 feed of the given published posts (newest first).
pub open spec fn feed_spec(m: Map<Seq<char>, Seq<char>>, ps: Seq<(Seq<char>, Seq<char>, Seq<char>, Option<i64>)>) -> Seq<char> {
    let site_name = value_or(m, "site_name"@, "Velocty"@);
    let url = xml_escaped(value_or(m, "site_url"@, "http://localhost:8000"@));
    let tagline = value_or(m, "site_caption"@, Seq::empty());
    let tz = value_or(m, "timezone"@, "UTC"@);
    let blog = value_or(m, "blog_slug"@, "blog"@);
    let last_build = if ps.len() > 0 && ps[0].3 is Some {
        "    <lastBuildDate>"@ + feed_date(ps[0].3->0, tz) + "</lastBuildDate>\n"@
    } else {
        Seq::empty()
    };
    "<?xml version=\"1.0\" encoding=\"UTF-8\"?>\n<rss version=\"2.0\" xmlns:atom=\"http://www.w3.org/2005/Atom\">\n<channel>\n    <title>"@
        + xml_escaped(site_name) + "</title>\n    <link>"@ + url
        + "</link>\n    <description>"@ + xml_escaped(tagline)
        + "</description>\n    <atom:link href=\""@ + url
        + "/feed\" rel=\"self\" type=\"application/rss+xml\"/>\n    <language>en</language>\n"@
        + last_build + feed_items(url, blog, tz, ps) + "</channel>\n</rss>"@
}

fn push_feed_item(xml: &mut String, url: &str, blog: &str, tz: &str, p: &FeedPost)
    ensures
        final(xml)@ == old(xml)@ + feed_item(url@, blog@, tz@, (p.title@, p.slug@, opt_text(p.excerpt), p.published_at)),
{
    let et = xml_escape(p.title.as_str());
    let date = match p.published_at {
        Some(t) => format_rfc2822(t, tz),
        None => String::new(),
    };
    let excerpt: &str = match &p.excerpt {
        Some(e) => e.as_str(),
        None => "",
    };
    proof {
        reveal_strlit("");
        assert(""@ =~= Seq::<char>::empty());
    }
    let ee = xml_escape(excerpt);
    let mut link = owned(url);
    link.push('/');
    push_str(&mut link, blog);
    link.push('/');
    push_str(&mut link, p.slug.as_str());
    push_str(xml, "    <item>\n        <title>");
    push_str(xml, et.as_str());
    push_str(xml, "</title>\n        <link>");
    push_str(xml, link.as_str());
    push_str(xml, "</link>\n        <guid isPermaLink=\"true\">");
    push_str(xml, link.as_str());
    push_str(xml, "</guid>\n        <pubDate>");
    push_str(xml, date.as_str());
    push_str(xml, "</pubDate>\n        <description>");
    push_str(xml, ee.as_str());
    push_str(xml, "</description>\n    </item>\n");
    proof {
        assert(final(xml)@ =~= old(xml)@ + feed_item(
            url@,
            blog@,
            tz@,
            (p.title@, p.slug@, opt_text(p.excerpt), p.published_at),
        ));
    }
}

fn push_feed_head(xml: &mut String, site_name: &str, url: &str, tagline: &str)
    ensures
        final(xml)@ == old(xml)@
            + "<?xml version=\"1.0\" encoding=\"UTF-8\"?>\n<rss version=\"2.0\" xmlns:atom=\"http://www.w3.org/2005/Atom\">\n<channel>\n    <title>"@
            + xml_escaped(site_name@) + "</title>\n    <link>"@ + url@
            + "</link>\n    <description>"@ + xml_escaped(tagline@)
            + "</description>\n    <atom:link href=\""@ + url@
            + "/feed\" rel=\"self\" type=\"application/rss+xml\"/>\n    <language>en</language>\n"@,
{
    let en = xml_escape(site_name);
    let et = xml_escape(tagline);
    push_str(
        xml,
        "<?xml version=\"1.0\" encoding=\"UTF-8\"?>\n<rss version=\"2.0\" xmlns:atom=\"http://www.w3.org/2005/Atom\">\n<channel>\n    <title>",
    );
    push_str(xml, en.as_str());
    push_str(xml, "</title>\n    <link>");
    push_str(xml, url);
    push_str(xml, "</link>\n    <description>");
    push_str(xml, et.as_str());
    push_str(xml, "</description>\n    <atom:link href=\"");
    push_str(xml, url);
    push_str(xml, "/feed\" rel=\"self\" type=\"application/rss+xml\"/>\n    <language>en</language>\n");
    proof {
        assert(final(xml)@ =~= old(xml)@
            + "<?xml version=\"1.0\" encoding=\"UTF-8\"?>\n<rss version=\"2.0\" xmlns:atom=\"http://www.w3.org/2005/Atom\">\n<channel>\n    <title>"@
            + xml_escaped(site_name@) + "</title>\n    <link>"@ + url@
            + "</link>\n    <description>"@ + xml_escaped(tagline@)
            + "</description>\n    <atom:link href=\""@ + url@
            + "/feed\" rel=\"self\" type=\"application/rss+xml\"/>\n    <language>en</language>\n"@);
    }
}

/// Generates the RSS 2.0 feed for the published posts given (newest first, as many as
/// `feed_count` asks for).
pub fn generate_feed(settings: &Settings, posts: &Vec<FeedPost>) -> (r: String)
    ensures
        r@ == feed_spec(settings@, feed_views(posts@)),
{
    let site_name = settings.get_or("site_name", "Velocty");
    let site_url = settings.get_or("site_url", "http://localhost:8000");
    let tagline = settings.get_or_empty("site_caption");
    let tz = settings.get_or("timezone", "UTC");
    let blog = settings.get_or("blog_slug", "blog");
    let url = xml_escape(site_url.as_str());
    let ghost v = feed_views(posts@);
    let mut xml = String::new();
    push_feed_head(&mut xml, site_name.as_str(), url.as_str(), tagline.as_str());
    let ghost head = xml@;
    if posts.len() > 0 {
        match posts[0].published_at {
            Some(t) => {
                let d = format_rfc2822(t, tz.as_str());
                push_str(&mut xml, "    <lastBuildDate>");
                push_str(&mut xml, d.as_str());
                push_str(&mut xml, "</lastBuildDate>\n");
            },
            None => {},
        }
    }
    let ghost start = xml@;
    proof {
        let lb: Seq<char> = if v.len() > 0 && v[0].3 is Some {
            "    <lastBuildDate>"@ + feed_date(v[0].3->0, tz@) + "</lastBuildDate>\n"@
        } else {
            Seq::empty()
        };
        assert(start =~= head + lb);
        assert(v.take(0) =~= Seq::<(Seq<char>, Seq<char>, Seq<char>, Option<i64>)>::empty());
    }
    let mut i: usize = 0;
    while i < posts.len()
        invariant
            i <= posts.len(),
            v == feed_views(posts@),
            xml@ == start + feed_items(url@, blog@, tz@, v.take(i as int)),
        decreases posts.len() - i,
    {
        push_feed_item(&mut xml, url.as_str(), blog.as_str(), tz.as_str(), &posts[i]);
        proof {
            assert(v.take(i + 1).drop_last() =~= v.take(i as int));
            assert(xml@ =~= start + feed_items(url@, blog@, tz@, v.take(i + 1)));
        }
        i = i + 1;
    }
    push_str(&mut xml, "</channel>\n</rss>");
    proof {
        assert(v.take(posts@.len() as int) =~= v);
        assert(xml@ =~= feed_spec(settings@, v));
    }
    xml
}

} // verus!
