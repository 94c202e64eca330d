use vstd::prelude::*;
use crate::settings::{Settings, value_or, flag_on, bool_setting};
use crate::text::{
    html_escaped, replace_all, opt_view, html_escape, str_replace,
    owned, push_str,
};

verus! {

// ── Dates ───────────────────────────────────────────────────────────

/// The date formats the site writes.
pub open spec fn known_date_format(fmt: Seq<char>) -> bool {
    fmt == "%a, %d %b %Y %H:%M:%S %z"@ || fmt == "%a, %d %b %Y %H:%M:%S +0000"@ || fmt
        == "%Y-%m-%dT%H:%M:%S%:z"@ || fmt == "%Y-%m-%dT%H:%M:%S+00:00"@ || fmt == "%Y-%m-%d"@
}

/// What chrono writes for the UTC instant `secs` (seconds since the Unix epoch) with
/// the strftime-style format `fmt`; `None` where the instant is out of chrono's range.
pub uninterp spec fn utc_text(secs: i64, fmt: Seq<char>) -> Option<Seq<char>>;

/// What chrono writes for the instant `secs` in the IANA time zone `tz` (as
/// chrono-tz's table knows it) with the format `fmt`; `None` where `tz` is not a zone
/// name or the instant is out of range.
pub uninterp spec fn zoned_text(secs: i64, tz: Seq<char>, fmt: Seq<char>) -> Option<Seq<char>>;

/// Calls `chrono::DateTime::from_timestamp(secs, 0)` and `format(fmt)`. The result is
/// a function of the instant and the format; only the site's own valid formats are
/// passed, so the formatting cannot fail.
#[verifier::external_body]
fn format_utc(secs: i64, fmt: &str) -> (r: Option<String>)
    requires
        known_date_format(fmt@),
    ensures
        opt_view(r) == utc_text(secs, fmt@),
{
    match chrono::DateTime::from_timestamp(secs, 0) {
        Some(t) => Some(t.format(fmt).to_string()),
        None => None,
    }
}

/// Parses `tz` as a `chrono_tz::Tz`, then calls `with_timezone` and `format(fmt)` on
/// the instant. The result is a function of its arguments.
#[verifier::external_body]
fn format_in_zone(secs: i64, tz: &str, fmt: &str) -> (r: Option<String>)
    requires
        known_date_format(fmt@),
    ensures
        opt_view(r) == zoned_text(secs, tz@, fmt@),
{
    let zone: chrono_tz::Tz = tz.parse().ok()?;
    let t = chrono::DateTime::from_timestamp(secs, 0)?;
    Some(t.with_timezone(&zone).format(fmt).to_string())
}

/// Optional text, or the empty text.
pub open spec fn or_empty(o: Option<Seq<char>>) -> Seq<char> {
    match o {
        Some(s) => s,
        None => Seq::empty(),
    }
}

/// A date in the configured zone with `zoned_fmt`, falling back to UTC with
/// `utc_fmt` where the zone name is unknown.
pub open spec fn date_in_zone(secs: i64, tz: Seq<char>, zoned_fmt: Seq<char>, utc_fmt: Seq<char>) -> Seq<char> {
    match zoned_text(secs, tz, zoned_fmt) {
        Some(s) => s,
        None => or_empty(utc_text(secs, utc_fmt)),
    }
}

/// RFC 2822 date for RSS in the zone `tz`, or in UTC where `tz` is unknown.
pub fn format_rfc2822(secs: i64, tz: &str) -> (r: String)
    ensures
        r@ == date_in_zone(secs, tz@, "%a, %d %b %Y %H:%M:%S %z"@, "%a, %d %b %Y %H:%M:%S +0000"@),
{
    match format_in_zone(secs, tz, "%a, %d %b %Y %H:%M:%S %z") {
        Some(s) => s,
        None => match format_utc(secs, "%a, %d %b %Y %H:%M:%S +0000") {
            Some(s) => s,
            None => String::new(),
        },
    }
}

/// ISO 8601 date with offset for schema.org in the zone `tz`, or in UTC where `tz`
/// is unknown.
pub fn format_iso8601(secs: i64, tz: &str) -> (r: String)
    ensures
        r@ == date_in_zone(secs, tz@, "%Y-%m-%dT%H:%M:%S%:z"@, "%Y-%m-%dT%H:%M:%S+00:00"@),
{
    match format_in_zone(secs, tz, "%Y-%m-%dT%H:%M:%S%:z") {
        Some(s) => s,
        None => match format_utc(secs, "%Y-%m-%dT%H:%M:%S+00:00") {
            Some(s) => s,
            None => String::new(),
        },
    }
}

/// The UTC calendar date `YYYY-MM-DD` of `secs`.
pub fn format_ymd(secs: i64) -> (r: String)
    ensures
        r@ == or_empty(utc_text(secs, "%Y-%m-%d"@)),
{
    match format_utc(secs, "%Y-%m-%d") {
        Some(s) => s,
        None => String::new(),
    }
}

// ── Meta tags ───────────────────────────────────────────────────────

/// The page title: the title template (`{{title}} — {{site_name}}` by default) with
/// `{{title}}` and then `{{site_name}}` filled in; the site name alone for a page
/// without a title.
pub open spec fn page_title(m: Map<Seq<char>, Seq<char>>, title: Option<Seq<char>>) -> Seq<char> {
    let site_name = value_or(m, "site_name"@, "Velocty"@);
    match title {
        Some(t) => replace_all(
            replace_all(
                value_or(m, "seo_title_template"@, "{{title}} — {{site_name}}"@),
                "{{title}}"@,
                t,
            ),
            "{{site_name}}"@,
            site_name,
        ),
        None => site_name,
    }
}

/// The canonical URL of `path`: the canonical base (the site URL by default) and the
/// path.
pub open spec fn canonical_url(m: Map<Seq<char>, Seq<char>>, path: Seq<char>) -> Seq<char> {
    value_or(
        m,
        "seo_canonical_base"@,
        value_or(m, "site_url"@, "http://localhost:8000"@),
    ) + path
}

/// The basic tags: title, description and canonical link.
pub open spec fn basic_meta(title: Seq<char>, desc: Seq<char>, canonical: Seq<char>) -> Seq<char> {
    "<title>"@ + html_escaped(title) + "</title>\n<meta name=\"description\" content=\""@
        + html_escaped(desc) + "\">\n<link rel=\"canonical\" href=\""@ + html_escaped(canonical)
        + "\">"@
}

/// The Open Graph tags.
pub open spec fn og_meta(title: Seq<char>, desc: Seq<char>, canonical: Seq<char>, site: Seq<char>) -> Seq<char> {
    "\n<meta property=\"og:title\" content=\""@ + html_escaped(title)
        + "\">\n<meta property=\"og:description\" content=\""@ + html_escaped(desc)
        + "\">\n<meta property=\"og:url\" content=\""@ + html_escaped(canonical)
        + "\">\n<meta property=\"og:site_name\" content=\""@ + html_escaped(site)
        + "\">\n<meta property=\"og:type\" content=\"website\">"@
}

/// The Twitter card tags.
pub open spec fn twitter_meta(title: Seq<char>, desc: Seq<char>) -> Seq<char> {
    "\n<meta name=\"twitter:card\" content=\"summary_large_image\">\n<meta name=\"twitter:title\" content=\""@
        + html_escaped(title) + "\">\n<meta name=\"twitter:description\" content=\""@
        + html_escaped(desc) + "\">"@
}

/// The meta tags of a page: the basic tags, then Open Graph tags where
/// `seo_open_graph` is on, then Twitter card tags where `seo_twitter_cards` is on.
pub open spec fn meta_spec(
    m: Map<Seq<char>, Seq<char>>,
    title: Option<Seq<char>>,
    description: Option<Seq<char>>,
    path: Seq<char>,
) -> Seq<char> {
    let t = page_title(m, title);
    let d = match description {
        Some(d) => d,
        None => value_or(m, "seo_default_description"@, Seq::empty()),
    };
    let c = canonical_url(m, path);
    basic_meta(t, d, c) + (if bool_setting(m, "seo_open_graph"@) {
        og_meta(t, d, c, value_or(m, "site_name"@, "Velocty"@))
    } else {
        Seq::empty()
    }) + (if bool_setting(m, "seo_twitter_cards"@) {
        twitter_meta(t, d)
    } else {
        Seq::empty()
    })
}

fn title_of(settings: &Settings, title: Option<&str>) -> (r: String)
    ensures
        r@ == page_title(
            settings@,
            match title {
                Some(t) => Some(t@),
                None => None,
            },
        ),
{
    let site_name = settings.get_or("site_name", "Velocty");
    match title {
        Some(t) => {
            let template = settings.get_or("seo_title_template", "{{title}} — {{site_name}}");
            proof {
                reveal_strlit("{{title}}");
                reveal_strlit("{{site_name}}");
            }
            let a = str_replace(template.as_str(), "{{title}}", t);
            str_replace(a.as_str(), "{{site_name}}", site_name.as_str())
        },
        None => site_name,
    }
}

fn push_basic_meta(meta: &mut String, t: &str, d: &str, c: &str)
    ensures
        final(meta)@ == old(meta)@ + basic_meta(t@, d@, c@),
{
    let et = html_escape(t);
    let ed = html_escape(d);
    let ec = html_escape(c);
    push_str(meta, "<title>");
    push_str(meta, et.as_str());
    push_str(meta, "</title>\n<meta name=\"description\" content=\"");
    push_str(meta, ed.as_str());
    push_str(meta, "\">\n<link rel=\"canonical\" href=\"");
    push_str(meta, ec.as_str());
    push_str(meta, "\">");
    proof {
        assert(final(meta)@ =~= old(meta)@ + basic_meta(t@, d@, c@));
    }
}

fn push_og_meta(meta: &mut String, t: &str, d: &str, c: &str, site: &str)
    ensures
        final(meta)@ == old(meta)@ + og_meta(t@, d@, c@, site@),
{
    let et = html_escape(t);
    let ed = html_escape(d);
    let ec = html_escape(c);
    let es = html_escape(site);
    push_str(meta, "\n<meta property=\"og:title\" content=\"");
    push_str(meta, et.as_str());
    push_str(meta, "\">\n<meta property=\"og:description\" content=\"");
    push_str(meta, ed.as_str());
    push_str(meta, "\">\n<meta property=\"og:url\" content=\"");
    push_str(meta, ec.as_str());
    push_str(meta, "\">\n<meta property=\"og:site_name\" content=\"");
    push_str(meta, es.as_str());
    push_str(meta, "\">\n<meta property=\"og:type\" content=\"website\">");
    proof {
        assert(final(meta)@ =~= old(meta)@ + og_meta(t@, d@, c@, site@));
    }
}

fn push_twitter_meta(meta: &mut String, t: &str, d: &str)
    ensures
        final(meta)@ == old(meta)@ + twitter_meta(t@, d@),
{
    let et = html_escape(t);
    let ed = html_escape(d);
    push_str(
        meta,
        "\n<meta name=\"twitter:card\" content=\"summary_large_image\">\n<meta name=\"twitter:title\" content=\"",
    );
    push_str(meta, et.as_str());
    push_str(meta, "\">\n<meta name=\"twitter:description\" content=\"");
    push_str(meta, ed.as_str());
    push_str(meta, "\">");
    proof {
        assert(final(meta)@ =~= old(meta)@ + twitter_meta(t@, d@));
    }
}

/// Builds the meta tags of a page.
pub fn build_meta(settings: &Settings, title: Option<&str>, description: Option<&str>, path: &str) -> (r: String)
    ensures
        r@ == meta_spec(
            settings@,
            match title {
                Some(t) => Some(t@),
                None => None,
            },
            match description {
                Some(d) => Some(d@),
                None => None,
            },
            path@,
        ),
{
    let site_name = settings.get_or("site_name", "Velocty");
    let site_url = settings.get_or("site_url", "http://localhost:8000");
    let default_desc = settings.get_or_empty("seo_default_description");
    let canonical_base = settings.get_or("seo_canonical_base", site_url.as_str());
    let t = title_of(settings, title);
    let d: &str = match description {
        Some(d) => d,
        None => default_desc.as_str(),
    };
    let mut canonical = canonical_base;
    push_str(&mut canonical, path);
    let mut meta = String::new();
    push_basic_meta(&mut meta, t.as_str(), d, canonical.as_str());
    let ghost basic = meta@;
    if settings.get_bool("seo_open_graph") {
        push_og_meta(&mut meta, t.as_str(), d, canonical.as_str(), site_name.as_str());
    }
    let ghost with_og = meta@;
    if settings.get_bool("seo_twitter_cards") {
        push_twitter_meta(&mut meta, t.as_str(), d);
    }
    proof {
        let og: Seq<char> = if bool_setting(settings@, "seo_open_graph"@) {
            og_meta(t@, d@, canonical@, site_name@)
        } else {
            Seq::empty()
        };
        let tw: Seq<char> = if bool_setting(settings@, "seo_twitter_cards"@) {
            twitter_meta(t@, d@)
        } else {
            Seq::empty()
        };
        assert(with_og =~= basic + og);
        assert(meta@ =~= basic + og + tw);
    }
    meta
}

/// One search engine's verification tag, where its setting is non-empty.
pub open spec fn verification_tag(m: Map<Seq<char>, Seq<char>>, key: Seq<char>, name: Seq<char>) -> Seq<char> {
    let v = value_or(m, key, Seq::empty());
    if v.len() > 0 {
        "    <meta name=\""@ + name + "\" content=\""@ + html_escaped(v) + "\">"@ + seq!['\n']
    } else {
        Seq::empty()
    }
}

/// The verification tags of Google, Bing, Yandex, Pinterest and Baidu, in that order.
pub open spec fn webmaster_meta_spec(m: Map<Seq<char>, Seq<char>>) -> Seq<char> {
    verification_tag(m, "seo_google_verification"@, "google-site-verification"@)
        + verification_tag(m, "seo_bing_verification"@, "msvalidate.01"@) + verification_tag(
        m,
        "seo_yandex_verification"@,
        "yandex-verification"@,
    ) + verification_tag(m, "seo_pinterest_verification"@, "p:domain_verify"@)
        + verification_tag(m, "seo_baidu_verification"@, "baidu-site-verification"@)
}

fn push_verification(meta: &mut String, settings: &Settings, key: &str, name: &str)
    ensures
        final(meta)@ == old(meta)@ + verification_tag(settings@, key@, name@),
{
    let v = settings.get_or_empty(key);
    if !v.as_str().is_empty() {
        let e = html_escape(v.as_str());
        push_str(meta, "    <meta name=\"");
        push_str(meta, name);
        push_str(meta, "\" content=\"");
        push_str(meta, e.as_str());
        push_str(meta, "\">");
        meta.push('\n');
        proof {
            assert(final(meta)@ =~= old(meta)@ + verification_tag(settings@, key@, name@));
        }
    } else {
        proof {
            assert(final(meta)@ =~= old(meta)@ + verification_tag(settings@, key@, name@));
        }
    }
}

/// Builds the webmaster verification tags for every configured search engine.
pub fn build_webmaster_meta(settings: &Settings) -> (r: String)
    ensures
        r@ == webmaster_meta_spec(settings@),
{
    let mut meta = String::new();
    push_verification(&mut meta, settings, "seo_google_verification", "google-site-verification");
    push_verification(&mut meta, settings, "seo_bing_verification", "msvalidate.01");
    push_verification(&mut meta, settings, "seo_yandex_verification", "yandex-verification");
    push_verification(&mut meta, settings, "seo_pinterest_verification", "p:domain_verify");
    push_verification(&mut meta, settings, "seo_baidu_verification", "baidu-site-verification");
    proof {
        assert(meta@ =~= webmaster_meta_spec(settings@));
    }
    meta
}

// ── Analytics ───────────────────────────────────────────────────────

/// The opening of a script tag, and of an asynchronous one: both held back until
/// analytics consent where cookie consent is on.
pub open spec fn script_tags(m: Map<Seq<char>, Seq<char>>) -> (Seq<char>, Seq<char>) {
    if flag_on(m, "cookie_consent_enabled"@) {
        (
            "<script type=\"text/plain\" data-consent=\"analytics\""@,
            "<script type=\"text/plain\" data-consent=\"analytics\""@,
        )
    } else {
        ("<script"@, "<script async"@)
    }
}

/// A setting, or the empty text.
pub open spec fn get(m: Map<Seq<char>, Seq<char>>, k: Seq<char>) -> Seq<char> {
    value_or(m, k, Seq::empty())
}

/// A setting, or `d` where it is empty.
pub open spec fn get_or_nonempty(m: Map<Seq<char>, Seq<char>>, k: Seq<char>, d: Seq<char>) -> Seq<char> {
    if get(m, k).len() == 0 {
        d
    } else {
        get(m, k)
    }
}

/// Google Analytics (GA4), where enabled with a measurement id.
pub open spec fn ga_block(m: Map<Seq<char>, Seq<char>>, stag: Seq<char>, stag_async: Seq<char>) -> Seq<char> {
    let id = html_escaped(get(m, "seo_ga_measurement_id"@));
    if flag_on(m, "seo_ga_enabled"@) && get(m, "seo_ga_measurement_id"@).len() > 0 {
        stag_async + " src=\"https://www.googletagmanager.com/gtag/js?id="@ + id + "\"></script>\n"@
            + stag
            + ">window.dataLayer=window.dataLayer||[];function gtag(){dataLayer.push(arguments);}gtag('js',new Date());gtag('config','"@
            + id + "');</script>\n"@
    } else {
        Seq::empty()
    }
}

/// Plausible, where enabled with a domain; the host defaults to `https://plausible.io`.
pub open spec fn plausible_block(m: Map<Seq<char>, Seq<char>>, stag: Seq<char>) -> Seq<char> {
    if flag_on(m, "seo_plausible_enabled"@) && get(m, "seo_plausible_domain"@).len() > 0 {
        stag + " defer data-domain=\""@ + html_escaped(get(m, "seo_plausible_domain"@))
            + "\" src=\""@ + html_escaped(
            get_or_nonempty(m, "seo_plausible_host"@, "https://plausible.io"@),
        ) + "/js/script.js\"></script>\n"@
    } else {
        Seq::empty()
    }
}

/// Fathom, where enabled with a site id.
pub open spec fn fathom_block(m: Map<Seq<char>, Seq<char>>, stag: Seq<char>) -> Seq<char> {
    if flag_on(m, "seo_fathom_enabled"@) && get(m, "seo_fathom_site_id"@).len() > 0 {
        stag + " src=\"https://cdn.usefathom.com/script.js\" data-site=\""@ + html_escaped(
            get(m, "seo_fathom_site_id"@),
        ) + "\" defer></script>\n"@
    } else {
        Seq::empty()
    }
}

/// Matomo, where enabled with a URL and a site id.
pub open spec fn matomo_block(m: Map<Seq<char>, Seq<char>>, stag: Seq<char>) -> Seq<char> {
    if flag_on(m, "seo_matomo_enabled"@) && get(m, "seo_matomo_url"@).len() > 0 && get(
        m,
        "seo_matomo_site_id"@,
    ).len() > 0 {
        stag
            + ">var _paq=window._paq=window._paq||[];_paq.push(['trackPageView']);_paq.push(['enableLinkTracking']);(function(){var u='"@
            + html_escaped(get(m, "seo_matomo_url"@))
            + "/';_paq.push(['setTrackerUrl',u+'matomo.php']);_paq.push(['setSiteId','"@
            + html_escaped(get(m, "seo_matomo_site_id"@))
            + "']);var d=document,g=d.createElement('script'),s=d.getElementsByTagName('script')[0];g.async=true;g.src=u+'matomo.js';s.parentNode.insertBefore(g,s);})();</script>\n"@
    } else {
        Seq::empty()
    }
}

/// Cloudflare Web Analytics, where enabled with a token.
pub open spec fn cloudflare_block(m: Map<Seq<char>, Seq<char>>, stag: Seq<char>) -> Seq<char> {
    if flag_on(m, "seo_cloudflare_analytics_enabled"@) && get(
        m,
        "seo_cloudflare_analytics_token"@,
    ).len() > 0 {
        stag
            + " defer src=\"https://static.cloudflareinsights.com/beacon.min.js\" data-cf-beacon='{\"token\":\""@
            + html_escaped(get(m, "seo_cloudflare_analytics_token"@)) + "\"}'></script>\n"@
    } else {
        Seq::empty()
    }
}

/// Clicky, where enabled with a site id.
pub open spec fn clicky_block(m: Map<Seq<char>, Seq<char>>, stag_async: Seq<char>) -> Seq<char> {
    if flag_on(m, "seo_clicky_enabled"@) && get(m, "seo_clicky_site_id"@).len() > 0 {
        stag_async + " data-id=\""@ + html_escaped(get(m, "seo_clicky_site_id"@))
            + "\" src=\"//static.getclicky.com/js\"></script>\n"@
    } else {
        Seq::empty()
    }
}

/// Umami, where enabled with a website id; the host defaults to
/// `https://analytics.umami.is`.
pub open spec fn umami_block(m: Map<Seq<char>, Seq<char>>, stag: Seq<char>) -> Seq<char> {
    if flag_on(m, "seo_umami_enabled"@) && get(m, "seo_umami_website_id"@).len() > 0 {
        stag + " defer src=\""@ + html_escaped(
            get_or_nonempty(m, "seo_umami_host"@, "https://analytics.umami.is"@),
        ) + "/script.js\" data-website-id=\""@ + html_escaped(get(m, "seo_umami_website_id"@))
            + "\"></script>\n"@
    } else {
        Seq::empty()
    }
}

/// The script tags of every enabled analytics provider, in a fixed order.
pub open spec fn analytics_spec(m: Map<Seq<char>, Seq<char>>) -> Seq<char> {
    let (stag, stag_async) = script_tags(m);
    ga_block(m, stag, stag_async) + plausible_block(m, stag) + fathom_block(m, stag)
        + matomo_block(m, stag) + cloudflare_block(m, stag) + clicky_block(m, stag_async)
        + umami_block(m, stag)
}

fn push_ga(s: &mut String, settings: &Settings, stag: &str, stag_async: &str)
    ensures
        final(s)@ == old(s)@ + ga_block(settings@, stag@, stag_async@),
{
    let id = settings.get_or_empty("seo_ga_measurement_id");
    if settings.is_on("seo_ga_enabled") && !id.as_str().is_empty() {
        let e = html_escape(id.as_str());
        push_str(s, stag_async);
        push_str(s, " src=\"https://www.googletagmanager.com/gtag/js?id=");
        push_str(s, e.as_str());
        push_str(s, "\"></script>\n");
        push_str(s, stag);
        push_str(
            s,
            ">window.dataLayer=window.dataLayer||[];function gtag(){dataLayer.push(arguments);}gtag('js',new Date());gtag('config','",
        );
        push_str(s, e.as_str());
        push_str(s, "');</script>\n");
    }
    proof {
        assert(final(s)@ =~= old(s)@ + ga_block(settings@, stag@, stag_async@));
    }
}

fn push_plausible(s: &mut String, settings: &Settings, stag: &str)
    ensures
        final(s)@ == old(s)@ + plausible_block(settings@, stag@),
{
    let domain = settings.get_or_empty("seo_plausible_domain");
    if settings.is_on("seo_plausible_enabled") && !domain.as_str().is_empty() {
        let h = settings.get_or_empty("seo_plausible_host");
        let host = if h.as_str().is_empty() {
            owned("https://plausible.io")
        } else {
            h
        };
        let ed = html_escape(domain.as_str());
        let eh = html_escape(host.as_str());
        push_str(s, stag);
        push_str(s, " defer data-domain=\"");
        push_str(s, ed.as_str());
        push_str(s, "\" src=\"");
        push_str(s, eh.as_str());
        push_str(s, "/js/script.js\"></script>\n");
    }
    proof {
        assert(final(s)@ =~= old(s)@ + plausible_block(settings@, stag@));
    }
}

fn push_fathom(s: &mut String, settings: &Settings, stag: &str)
    ensures
        final(s)@ == old(s)@ + fathom_block(settings@, stag@),
{
    let id = settings.get_or_empty("seo_fathom_site_id");
    if settings.is_on("seo_fathom_enabled") && !id.as_str().is_empty() {
        let e = html_escape(id.as_str());
        push_str(s, stag);
        push_str(s, " src=\"https://cdn.usefathom.com/script.js\" data-site=\"");
        push_str(s, e.as_str());
        push_str(s, "\" defer></script>\n");
    }
    proof {
        assert(final(s)@ =~= old(s)@ + fathom_block(settings@, stag@));
    }
}

fn push_matomo(s: &mut String, settings: &Settings, stag: &str)
    ensures
        final(s)@ == old(s)@ + matomo_block(settings@, stag@),
{
    let url = settings.get_or_empty("seo_matomo_url");
    let site_id = settings.get_or_empty("seo_matomo_site_id");
    if settings.is_on("seo_matomo_enabled") && !url.as_str().is_empty()
        && !site_id.as_str().is_empty() {
        let eu = html_escape(url.as_str());
        let ei = html_escape(site_id.as_str());
        push_str(s, stag);
        push_str(
            s,
            ">var _paq=window._paq=window._paq||[];_paq.push(['trackPageView']);_paq.push(['enableLinkTracking']);(function(){var u='",
        );
        push_str(s, eu.as_str());
        push_str(s, "/';_paq.push(['setTrackerUrl',u+'matomo.php']);_paq.push(['setSiteId','");
        push_str(s, ei.as_str());
        push_str(
            s,
            "']);var d=document,g=d.createElement('script'),s=d.getElementsByTagName('script')[0];g.async=true;g.src=u+'matomo.js';s.parentNode.insertBefore(g,s);})();</script>\n",
        );
    }
    proof {
        assert(final(s)@ =~= old(s)@ + matomo_block(settings@, stag@));
    }
}

fn push_cloudflare(s: &mut String, settings: &Settings, stag: &str)
    ensures
        final(s)@ == old(s)@ + cloudflare_block(settings@, stag@),
{
    let token = settings.get_or_empty("seo_cloudflare_analytics_token");
    if settings.is_on("seo_cloudflare_analytics_enabled") && !token.as_str().is_empty() {
        let e = html_escape(token.as_str());
        push_str(s, stag);
        push_str(
            s,
            " defer src=\"https://static.cloudflareinsights.com/beacon.min.js\" data-cf-beacon='{\"token\":\"",
        );
        push_str(s, e.as_str());
        push_str(s, "\"}'></script>\n");
    }
    proof {
        assert(final(s)@ =~= old(s)@ + cloudflare_block(settings@, stag@));
    }
}

fn push_clicky(s: &mut String, settings: &Settings, stag_async: &str)
    ensures
        final(s)@ == old(s)@ + clicky_block(settings@, stag_async@),
{
    let id = settings.get_or_empty("seo_clicky_site_id");
    if settings.is_on("seo_clicky_enabled") && !id.as_str().is_empty() {
        let e = html_escape(id.as_str());
        push_str(s, stag_async);
        push_str(s, " data-id=\"");
        push_str(s, e.as_str());
        push_str(s, "\" src=\"//static.getclicky.com/js\"></script>\n");
    }
    proof {
        assert(final(s)@ =~= old(s)@ + clicky_block(settings@, stag_async@));
    }
}

fn push_umami(s: &mut String, settings: &Settings, stag: &str)
    ensures
        final(s)@ == old(s)@ + umami_block(settings@, stag@),
{
    let id = settings.get_or_empty("seo_umami_website_id");
    if settings.is_on("seo_umami_enabled") && !id.as_str().is_empty() {
        let h = settings.get_or_empty("seo_umami_host");
        let host = if h.as_str().is_empty() {
            owned("https://analytics.umami.is")
        } else {
            h
        };
        let eh = html_escape(host.as_str());
        let ei = html_escape(id.as_str());
        push_str(s, stag);
        push_str(s, " defer src=\"");
        push_str(s, eh.as_str());
        push_str(s, "/script.js\" data-website-id=\"");
        push_str(s, ei.as_str());
        push_str(s, "\"></script>\n");
    }
    proof {
        assert(final(s)@ =~= old(s)@ + umami_block(settings@, stag@));
    }
}

/// Builds the script tags for every enabled third-party analytics provider. With
/// cookie consent on, the scripts wait for analytics consent.
pub fn build_analytics_scripts(settings: &Settings) -> (r: String)
    ensures
        r@ == analytics_spec(settings@),
{
    let consent = settings.is_on("cookie_consent_enabled");
    let (stag, stag_async): (&str, &str) = if consent {
        (
            "<script type=\"text/plain\" data-consent=\"analytics\"",
            "<script type=\"text/plain\" data-consent=\"analytics\"",
        )
    } else {
        ("<script", "<script async")
    };
    let mut s = String::new();
    push_ga(&mut s, settings, stag, stag_async);
    push_plausible(&mut s, settings, stag);
    push_fathom(&mut s, settings, stag);
    push_matomo(&mut s, settings, stag);
    push_cloudflare(&mut s, settings, stag);
    push_clicky(&mut s, settings, stag_async);
    push_umami(&mut s, settings, stag);
    proof {
        assert(s@ =~= analytics_spec(settings@));
    }
    s
}

} // verus!
