use vstd::prelude::*;
use crate::settings::{Settings, value_or};
use crate::auth::at_least_one;
use vstd::arithmetic::div_mod::{lemma_fundamental_div_mod, lemma_mod_pos_bound};
use crate::text::{
    split_char, strip_prefix, trim_end_char, first_match_from, split_str, strip_prefix_str,
    str_trim_end_char, str_eq, chars_of, starts_with, str_starts_with, push_str,
    string_of_range, vec_find_from, opt_view, owned, lemma_first_match_from_contains,
    matches_at,
};

verus! {

// ── Public routes ───────────────────────────────────────────────────

/// A listing or single page of the journal or the portfolio.
#[derive(PartialEq, Eq, Structural, Clone, Copy, Debug)]
pub enum Section {
    Blog,
    Portfolio,
}

/// What a public path under a section shows.
pub enum Page<S> {
    /// The paginated list (the journal's posts, the portfolio's grid).
    List,
    /// Entries of the category with this slug.
    ByCategory(S),
    /// Entries with the tag with this slug.
    ByTag(S),
    /// The single entry with this slug.
    Single(S),
}

/// A resolved public route.
pub struct Route {
    pub section: Section,
    pub page: Page<String>,
}

/// A route as section and page over character sequences.
pub open spec fn page_view(p: Page<String>) -> Page<Seq<char>> {
    match p {
        Page::List => Page::List,
        Page::ByCategory(s) => Page::ByCategory(s@),
        Page::ByTag(s) => Page::ByTag(s@),
        Page::Single(s) => Page::Single(s@),
    }
}

/// An optional route as section and page over character sequences.
pub open spec fn route_view(r: Option<Route>) -> Option<(Section, Page<Seq<char>>)> {
    match r {
        Some(r) => Some((r.section, page_view(r.page))),
        None => None,
    }
}

/// First path segments that the catch-all router never claims, so that the admin,
/// static files, the API and the fixed pages are never intercepted.
pub open spec fn reserved_segment(seg: Seq<char>, admin_slug: Seq<char>) -> bool {
    seg == admin_slug || seg == "__adm"@ || seg == "static"@ || seg == "uploads"@ || seg
        == "api"@ || seg == "archives"@ || seg == "rss"@ || seg == "feed"@ || seg == "download"@
        || seg == "sitemap.xml"@ || seg == "robots.txt"@ || seg == "super"@ || seg
        == ".well-known"@ || seg == "favicon.ico"@ || seg == "contact"@ || seg == "search"@
        || seg == "privacy"@ || seg == "terms"@ || seg == "login"@ || seg == "logout"@ || seg
        == "setup"@ || seg == "mfa"@ || seg == "magic-link"@ || seg == "forgot-password"@ || seg
        == "reset-password"@ || seg == "passkey"@ || seg == "passkeys"@ || seg == "img"@ || seg
        == "tag"@ || seg == "category"@ || seg == "change-password"@
}

/// If the slug is empty the section owns `/` and every path; otherwise the path must
/// be the slug itself or the slug and `/`, and what follows is returned.
pub open spec fn strip_slug(path: Seq<char>, slug: Seq<char>) -> Option<Seq<char>> {
    if slug.len() == 0 {
        Some(path)
    } else if path == slug {
        Some(Seq::empty())
    } else {
        match strip_prefix(path, slug) {
            Some(rest) => strip_prefix(rest, seq!['/']),
            None => None,
        }
    }
}

/// What the rest of a path below a section's slug shows: the list for nothing, a
/// category or a tag for `category/<slug>` or `tag/<slug>`, a single entry for a
/// path without `/`, and nothing for any other path with a `/`.
pub open spec fn section_page(rest: Seq<char>) -> Option<Page<Seq<char>>> {
    if rest.len() == 0 {
        Some(Page::List)
    } else {
        match first_match_from(rest, seq!['/'], 0) {
            None => Some(Page::Single(rest)),
            Some(i) => {
                let head = rest.take(i);
                let tail = rest.skip(i + 1);
                if head == "category"@ {
                    Some(Page::ByCategory(tail))
                } else if head == "tag"@ {
                    Some(Page::ByTag(tail))
                } else {
                    None
                }
            },
        }
    }
}

/// The route that the catch-all router picks for `path` (empty for `/`), from the
/// section slugs and switches in the settings. The journal is tried before the
/// portfolio; once a section claims the path, its answer is final.
pub open spec fn route_of(m: Map<Seq<char>, Seq<char>>, path: Seq<char>) -> Option<(Section, Page<Seq<char>>)> {
    let blog_slug = value_or(m, "blog_slug"@, "journal"@);
    let portfolio_slug = value_or(m, "portfolio_slug"@, "portfolio"@);
    let journal_enabled = value_or(m, "journal_enabled"@, "true"@) != "false"@;
    let portfolio_enabled = value_or(m, "portfolio_enabled"@, "false"@) == "true"@;
    let p = trim_end_char(path, '/');
    let admin = value_or(m, "admin_slug"@, "admin"@);
    if reserved_segment(split_char(p, '/')[0], admin) {
        None
    } else if journal_enabled && strip_slug(p, blog_slug) is Some {
        match section_page(strip_slug(p, blog_slug)->0) {
            Some(pg) => Some((Section::Blog, pg)),
            None => None,
        }
    } else if portfolio_enabled && strip_slug(p, portfolio_slug) is Some {
        match section_page(strip_slug(p, portfolio_slug)->0) {
            Some(pg) => Some((Section::Portfolio, pg)),
            None => None,
        }
    } else {
        None
    }
}

/// Strips a section's slug from the front of a path, as `strip_slug` describes.
pub fn strip_slug_prefix(path: &str, slug: &str) -> (r: Option<String>)
    ensures
        opt_view(r) == strip_slug(path@, slug@),
{
    if slug.is_empty() {
        return Some(owned(path));
    }
    if str_eq(path, slug) {
        return Some(String::new());
    }
    match strip_prefix_str(path, slug) {
        Some(rest) => {
            proof {
                reveal_strlit("/");
                assert("/"@ =~= seq!['/']);
            }
            strip_prefix_str(rest.as_str(), "/")
        },
        None => None,
    }
}

fn is_reserved_segment(seg: &str, admin_slug: &str) -> (r: bool)
    ensures
        r == reserved_segment(seg@, admin_slug@),
{
    str_eq(seg, admin_slug) || str_eq(seg, "__adm") || str_eq(seg, "static") || str_eq(
        seg,
        "uploads",
    ) || str_eq(seg, "api") || str_eq(seg, "archives") || str_eq(seg, "rss") || str_eq(
        seg,
        "feed",
    ) || str_eq(seg, "download") || str_eq(seg, "sitemap.xml") || str_eq(seg, "robots.txt")
        || str_eq(seg, "super") || str_eq(seg, ".well-known") || str_eq(seg, "favicon.ico")
        || str_eq(seg, "contact") || str_eq(seg, "search") || str_eq(seg, "privacy") || str_eq(
        seg,
        "terms",
    ) || str_eq(seg, "login") || str_eq(seg, "logout") || str_eq(seg, "setup") || str_eq(
        seg,
        "mfa",
    ) || str_eq(seg, "magic-link") || str_eq(seg, "forgot-password") || str_eq(
        seg,
        "reset-password",
    ) || str_eq(seg, "passkey") || str_eq(seg, "passkeys") || str_eq(seg, "img") || str_eq(
        seg,
        "tag",
    ) || str_eq(seg, "category") || str_eq(seg, "change-password")
}

/// Reads the rest of a path below a section's slug, as `section_page` describes.
pub fn dispatch_section(rest: &str) -> (r: Option<Page<String>>)
    ensures
        match r {
            Some(p) => section_page(rest@) == Some(page_view(p)),
            None => section_page(rest@) is None,
        },
{
    if rest.is_empty() {
        return Some(Page::List);
    }
    let v = chars_of(rest);
    let slash = vec!['/'];
    proof {
        assert(slash@ =~= seq!['/']);
    }
    match vec_find_from(&v, &slash, 0) {
        None => Some(Page::Single(owned(rest))),
        Some(i) => {
            proof {
                lemma_first_match_from_contains(v@, slash@, 0);
                assert(matches_at(v@, slash@, i as int));
                assert(slash@.len() == 1);
                assert(i + 1 <= v@.len());
            }
            let head = string_of_range(&v, 0, i);
            let n = v.len();
            assert(i < n);
            let tail = string_of_range(&v, i + 1, n);
            proof {
                assert(v@.subrange(0, i as int) =~= v@.take(i as int));
                assert(v@.subrange(i + 1, v@.len() as int) =~= v@.skip(i + 1));
            }
            if str_eq(head.as_str(), "category") {
                Some(Page::ByCategory(tail))
            } else if str_eq(head.as_str(), "tag") {
                Some(Page::ByTag(tail))
            } else {
                None
            }
        },
    }
}

/// The core dispatcher: resolves a public path (`None` for `/`) against the section
/// slugs and switches in the settings.
pub fn dispatch_root(settings: &Settings, path: Option<&str>) -> (r: Option<Route>)
    ensures
        route_view(r) == route_of(
            settings@,
            match path {
                Some(p) => p@,
                None => Seq::empty(),
            },
        ),
{
    let blog_slug = settings.get_or("blog_slug", "journal");
    let portfolio_slug = settings.get_or("portfolio_slug", "portfolio");
    let journal_flag = settings.get_or("journal_enabled", "true");
    let journal_enabled = !str_eq(journal_flag.as_str(), "false");
    let portfolio_flag = settings.get_or("portfolio_enabled", "false");
    let portfolio_enabled = str_eq(portfolio_flag.as_str(), "true");
    let raw: &str = match path {
        Some(p) => p,
        None => "",
    };
    proof {
        reveal_strlit("");
        assert(""@ =~= Seq::<char>::empty());
    }
    let p = str_trim_end_char(raw, '/');
    let admin = settings.get_or("admin_slug", "admin");
    let segments = split_str(p.as_str(), '/');
    proof {
        assert(segments@.map_values(|s: String| s@)[0] == segments@[0]@);
    }
    if is_reserved_segment(segments[0].as_str(), admin.as_str()) {
        return None;
    }
    if journal_enabled {
        match strip_slug_prefix(p.as_str(), blog_slug.as_str()) {
            Some(rest) => {
                return match dispatch_section(rest.as_str()) {
                    Some(pg) => Some(Route { section: Section::Blog, page: pg }),
                    None => None,
                };
            },
            None => {},
        }
    }
    if portfolio_enabled {
        match strip_slug_prefix(p.as_str(), portfolio_slug.as_str()) {
            Some(rest) => {
                return match dispatch_section(rest.as_str()) {
                    Some(pg) => Some(Route { section: Section::Portfolio, page: pg }),
                    None => None,
                };
            },
            None => {},
        }
    }
    None
}

// ── Serving uploads ─────────────────────────────────────────────────

// ── Listing pages ───────────────────────────────────────────────────

/// Where one page of a listing starts.
pub struct PageWindow {
    /// Items per page: the listing's setting, at least 1.
    pub per_page: i64,
    /// The page shown: the requested one (1 where none is asked for), at least 1.
    pub current_page: i64,
    /// How many items come before the page.
    pub offset: i64,
}

/// The page shown for a request: the requested page (1 where none is asked for), at
/// least 1.
pub open spec fn page_number(page: Option<i64>) -> int {
    match page {
        Some(p) => if p < 1 {
            1
        } else {
            p as int
        },
        None => 1,
    }
}

/// The window of the requested page of a listing whose page size is the setting `key`
/// (`blog_posts_per_page` or `portfolio_items_per_page`).
pub fn page_window(settings: &Settings, key: &str, page: Option<i64>) -> (r: PageWindow)
    requires
        (page_number(page) - 1) * at_least_one(settings@, key@) <= i64::MAX,
    ensures
        r.per_page == at_least_one(settings@, key@),
        r.current_page == page_number(page),
        r.offset == (r.current_page - 1) * r.per_page,
{
    let v = settings.i64_or(key, 0);
    let per_page: i64 = if v < 1 {
        1
    } else {
        v
    };
    let current_page: i64 = match page {
        Some(p) => if p < 1 {
            1
        } else {
            p
        },
        None => 1,
    };
    assert(0 <= (current_page - 1) * per_page) by (nonlinear_arith)
        requires
            current_page >= 1,
            per_page >= 1,
    ;
    let offset = (current_page - 1) * per_page;
    PageWindow { per_page, current_page, offset }
}

/// The number of pages that `total` items fill at `per_page` items a page: the
/// quotient rounded up, the least `n` with `n * per_page >= total`.
pub fn total_pages(total: i64, per_page: i64) -> (r: i64)
    requires
        per_page >= 1,
    ensures
        r * per_page >= total,
        (r - 1) * per_page < total,
{
    if total >= 0 {
        let q = total / per_page;
        let m = total % per_page;
        proof {
            lemma_fundamental_div_mod(total as int, per_page as int);
            lemma_mod_pos_bound(total as int, per_page as int);
        }
        if m > 0 {
            assert((q + 1) * per_page >= total && q * per_page < total && q < i64::MAX) by (nonlinear_arith)
                requires
                    total == per_page * q + m,
                    0 < m < per_page,
                    total <= i64::MAX,
            ;
            q + 1
        } else {
            assert(q * per_page >= total && (q - 1) * per_page < total) by (nonlinear_arith)
                requires
                    total == per_page * q + m,
                    m == 0,
                    per_page >= 1,
            ;
            q
        }
    } else {
        let neg: i64 = -(total + 1);
        let q = neg / per_page;
        let m = neg % per_page;
        proof {
            lemma_fundamental_div_mod(neg as int, per_page as int);
            lemma_mod_pos_bound(neg as int, per_page as int);
        }
        assert(0 <= q <= neg) by (nonlinear_arith)
            requires
                neg == per_page * q + m,
                0 <= m < per_page,
                neg >= 0,
                per_page >= 1,
        ;
        if m + 1 == per_page {
            assert((-q - 1) * per_page >= total && (-q - 2) * per_page < total) by (nonlinear_arith)
                requires
                    neg == per_page * q + m,
                    m + 1 == per_page,
                    neg == -(total + 1),
                    per_page >= 1,
            ;
            -q - 1
        } else {
            assert((-q) * per_page >= total && (-q - 1) * per_page < total) by (nonlinear_arith)
                requires
                    neg == per_page * q + m,
                    0 <= m,
                    m + 1 < per_page,
                    neg == -(total + 1),
            ;
            -q
        }
    }
}

/// A file served from the uploads directory.
pub struct FileResponse {
    pub bytes: Vec<u8>,
    pub content_type: String,
    pub cache_control: String,
    pub content_security_policy: Option<String>,
}

/// The file behind a public `/uploads/...` path: the same path under `website/site`;
/// any other path is not served.
pub fn upload_file_path(path: &str) -> (r: Option<String>)
    ensures
        match r {
            Some(p) => starts_with(path@, "/uploads/"@) && p@ == "website/site"@ + path@,
            None => !starts_with(path@, "/uploads/"@),
        },
{
    if !str_starts_with(path, "/uploads/") {
        return None;
    }
    let mut p = owned("website/site");
    push_str(&mut p, path);
    Some(p)
}

/// The policy that keeps a served SVG from running script or loading anything.
pub open spec fn svg_csp() -> Seq<char> {
    "default-src 'none'; style-src 'unsafe-inline'; img-src 'self'"@
}

/// Wraps a file's bytes for serving; an SVG gets a content security policy that
/// forbids script.
pub fn file_response(bytes: Vec<u8>, mime: &str, cache_control: &str) -> (r: FileResponse)
    ensures
        r.bytes@ == bytes@,
        r.content_type@ == mime@,
        r.cache_control@ == cache_control@,
        mime@ == "image/svg+xml"@ ==> (r.content_security_policy matches Some(c) && c@
            == svg_csp()),
        mime@ != "image/svg+xml"@ ==> r.content_security_policy is None,
{
    let csp = if str_eq(mime, "image/svg+xml") {
        Some(owned("default-src 'none'; style-src 'unsafe-inline'; img-src 'self'"))
    } else {
        None
    };
    FileResponse {
        bytes,
        content_type: owned(mime),
        cache_control: owned(cache_control),
        content_security_policy: csp,
    }
}

/// What a section's slug leaves of a path puts the path back together: the path is the
/// slug itself with nothing left, or the slug, `/` and the rest.
pub proof fn strip_slug_rejoins(path: Seq<char>, slug: Seq<char>)
    requires
        slug.len() > 0,
        strip_slug(path, slug) is Some,
    ensures
        (path == slug && strip_slug(path, slug)->0.len() == 0) || path == slug + seq!['/']
            + strip_slug(path, slug)->0,
{
    if path != slug {
        let rest = path.skip(slug.len() as int);
        assert(path =~= slug + rest);
        assert(rest =~= seq!['/'] + rest.skip(1));
        assert(path =~= slug + seq!['/'] + rest.skip(1));
    }
}

/// A path whose first segment is reserved is never routed to a section.
pub proof fn reserved_paths_not_routed(m: Map<Seq<char>, Seq<char>>, path: Seq<char>)
    requires
        reserved_segment(
            split_char(trim_end_char(path, '/'), '/')[0],
            value_or(m, "admin_slug"@, "admin"@),
        ),
    ensures
        route_of(m, path) is None,
{
}

} // verus!
