use vstd::prelude::*;

use crate::text::{
    char_is_whitespace, chars_of, contains, count_matches, count_matches_from, decimal,
    first_match_from, is_ascii_alnum, is_ws, lemma_first_match_from_contains, lowercase,
    matches_at, owned, str_contains, str_eq, to_lowercase, usize_to_decimal, utf8_len,
    vec_contains, vec_find_from, vec_matches_at,
};

verus! {

/// Individual SEO check result.
#[derive(Debug)]
pub struct SeoIssue {
    pub code: String,
    /// "error", "warning" or "info".
    pub severity: String,
    pub message: String,
    pub points_lost: i32,
}

/// Full SEO audit result for a single content item.
#[derive(Debug)]
pub struct SeoAudit {
    /// 0 to 100.
    pub score: i32,
    /// "good", "needs_work" or "poor".
    pub grade: String,
    pub issues: Vec<SeoIssue>,
}

/// Input for scoring; works for both posts and portfolio items.
pub struct SeoInput<'a> {
    pub title: &'a str,
    pub slug: &'a str,
    pub meta_title: &'a str,
    pub meta_description: &'a str,
    pub body_html: &'a str,
    pub featured_image: &'a str,
    /// "post" or "portfolio".
    pub content_type: &'a str,
}

/// The mathematical content of one `SeoIssue`.
pub struct IssueSpec {
    pub code: Seq<char>,
    pub severity: Seq<char>,
    pub message: Seq<char>,
    pub points_lost: int,
}

impl View for SeoIssue {
    type V = IssueSpec;

    open spec fn view(&self) -> IssueSpec {
        IssueSpec {
            code: self.code@,
            severity: self.severity@,
            message: self.message@,
            points_lost: self.points_lost as int,
        }
    }
}

pub open spec fn issue(code: Seq<char>, severity: Seq<char>, message: Seq<char>, points: int) -> IssueSpec {
    IssueSpec { code, severity, message, points_lost: points }
}

pub open spec fn issue_views(v: Seq<SeoIssue>) -> Seq<IssueSpec> {
    v.map_values(|i: SeoIssue| i@)
}

/// Sum of the points lost over `issues`.
pub open spec fn total_points(issues: Seq<IssueSpec>) -> int
    decreases issues.len(),
{
    if issues.len() == 0 {
        0
    } else {
        total_points(issues.drop_last()) + issues.last().points_lost
    }
}

// ── Text analysis of the body ────────────────────────────────────────

/// The text left after removing tags: characters between `<` and `>` are dropped
/// and each `>` becomes a space; paired with whether the end lies inside a tag.
pub open spec fn strip_state(s: Seq<char>) -> (Seq<char>, bool)
    decreases s.len(),
{
    if s.len() == 0 {
        (Seq::empty(), false)
    } else {
        let prev = strip_state(s.drop_last());
        let c = s.last();
        if c == '<' {
            (prev.0, true)
        } else if c == '>' {
            (prev.0.push(' '), false)
        } else if !prev.1 {
            (prev.0.push(c), false)
        } else {
            prev
        }
    }
}

/// `html` with its tags removed (each closing `>` leaves a space).
pub open spec fn strip_html(html: Seq<char>) -> Seq<char> {
    strip_state(html).0
}

/// A word (a maximal run of non-whitespace characters) starts at `i`.
pub open spec fn word_start(s: Seq<char>, i: int) -> bool {
    0 <= i < s.len() && !is_ws(s[i]) && (i == 0 || is_ws(s[i - 1]))
}

/// The word starting at `i` counts: its UTF-8 encoding is longer than one byte, or it
/// is a single ASCII letter or digit. (A one-byte word is one ASCII character, and for
/// ASCII `is_alphanumeric` means letter or digit.)
pub open spec fn word_counts(s: Seq<char>, i: int) -> bool {
    let single = i + 1 == s.len() || is_ws(s[i + 1]);
    !single || (s[i] as u32) >= 0x80 || is_ascii_alnum(s[i])
}

/// The number of counted words starting before index `n`.
pub open spec fn words_before(s: Seq<char>, n: int) -> nat
    decreases n,
{
    if n <= 0 {
        0
    } else {
        words_before(s, n - 1) + if word_start(s, n - 1) && word_counts(s, n - 1) {
            1nat
        } else {
            0nat
        }
    }
}

/// The number of whitespace-separated words of `s`, leaving out words that are a single
/// ASCII character other than a letter or digit.
pub open spec fn word_count(s: Seq<char>) -> nat {
    words_before(s, s.len() as int)
}

/// Every `<img ` in `l` is followed somewhere by a `>`.
pub open spec fn img_tags_closed(l: Seq<char>) -> bool {
    forall|i: int|
        #[trigger] matches_at(l, "<img "@, i) ==> exists|j: int| i <= j < l.len() && l[j] == '>'
}

/// An image tag counts as lacking alt text: no `alt=` at all, or an empty one.
pub open spec fn tag_lacks_alt(tag: Seq<char>) -> bool {
    !contains(tag, "alt="@) || contains(tag, "alt=\"\""@) || contains(tag, "alt=''"@)
}

/// Number of image tags lacking alt text among those found scanning `l` from `pos`:
/// each `<img ` found runs to the next `>`, and the scan resumes after that `>`.
pub open spec fn imgs_without_alt_from(l: Seq<char>, pos: int) -> nat
    decreases l.len() + 1 - pos,
{
    if pos < 0 || pos > l.len() {
        0
    } else {
        match first_match_from(l, "<img "@, pos) {
            None => 0,
            Some(start) => match first_match_from(l, seq!['>'], start) {
                None => 0,
                Some(gt) => {
                    if gt < pos || gt >= l.len() {
                        0
                    } else {
                        (if tag_lacks_alt(l.subrange(start, gt + 1)) {
                            1nat
                        } else {
                            0nat
                        }) + imgs_without_alt_from(l, gt + 1)
                    }
                },
            },
        }
    }
}

// ── The checks ───────────────────────────────────────────────────────

/// The meta title when one is set, else the title.
pub open spec fn effective_title(title: Seq<char>, meta_title: Seq<char>) -> Seq<char> {
    if meta_title.len() == 0 {
        title
    } else {
        meta_title
    }
}

pub open spec fn title_issues(t: Seq<char>) -> Seq<IssueSpec> {
    if t.len() == 0 {
        seq![issue("meta_title_missing"@, "error"@, "Meta title is missing"@, 15)]
    } else if utf8_len(t) < 30 {
        seq![
            issue(
                "meta_title_short"@,
                "warning"@,
                "Meta title is too short ("@ + decimal(utf8_len(t)) + " chars, aim for 50-60)"@,
                5,
            ),
        ]
    } else if utf8_len(t) > 70 {
        seq![
            issue(
                "meta_title_long"@,
                "warning"@,
                "Meta title is too long ("@ + decimal(utf8_len(t))
                    + " chars, may be truncated in search results)"@,
                3,
            ),
        ]
    } else {
        Seq::empty()
    }
}

pub open spec fn description_issues(d: Seq<char>) -> Seq<IssueSpec> {
    if d.len() == 0 {
        seq![issue("meta_desc_missing"@, "error"@, "Meta description is missing"@, 15)]
    } else if utf8_len(d) < 70 {
        seq![
            issue(
                "meta_desc_short"@,
                "warning"@,
                "Meta description is too short ("@ + decimal(utf8_len(d))
                    + " chars, aim for 120-160)"@,
                5,
            ),
        ]
    } else if utf8_len(d) > 170 {
        seq![
            issue(
                "meta_desc_long"@,
                "warning"@,
                "Meta description is too long ("@ + decimal(utf8_len(d))
                    + " chars, may be truncated)"@,
                3,
            ),
        ]
    } else {
        Seq::empty()
    }
}

pub open spec fn slug_issues(s: Seq<char>) -> Seq<IssueSpec> {
    if s.len() == 0 {
        seq![issue("slug_missing"@, "error"@, "URL slug is missing"@, 10)]
    } else if utf8_len(s) > 75 {
        seq![
            issue(
                "slug_long"@,
                "warning"@,
                "URL slug is very long ("@ + decimal(utf8_len(s)) + " chars)"@,
                3,
            ),
        ]
    } else {
        Seq::empty()
    }
}

pub open spec fn image_issues(image: Seq<char>, content_type: Seq<char>) -> Seq<IssueSpec> {
    if image.len() == 0 || image == "placeholder.jpg"@ {
        let label = if content_type == "portfolio"@ {
            "Featured media"@
        } else {
            "Featured image"@
        };
        seq![issue("featured_image_missing"@, "warning"@, label + " is missing"@, 10)]
    } else {
        Seq::empty()
    }
}

pub open spec fn content_issues(body: Seq<char>, content_type: Seq<char>, wc: nat) -> Seq<IssueSpec> {
    if content_type == "post"@ {
        if wc == 0 {
            seq![issue("content_empty"@, "error"@, "Post has no content"@, 20)]
        } else if wc < 100 {
            seq![
                issue(
                    "content_thin"@,
                    "error"@,
                    "Content is very thin ("@ + decimal(wc) + " words, aim for 300+)"@,
                    15,
                ),
            ]
        } else if wc < 300 {
            seq![
                issue(
                    "content_short"@,
                    "warning"@,
                    "Content is short ("@ + decimal(wc) + " words, aim for 300+)"@,
                    5,
                ),
            ]
        } else {
            Seq::empty()
        }
    } else if wc < 20 && body.len() != 0 {
        seq![
            issue(
                "description_thin"@,
                "info"@,
                "Description is very short ("@ + decimal(wc) + " words)"@,
                3,
            ),
        ]
    } else {
        Seq::empty()
    }
}

pub open spec fn heading_issues(body: Seq<char>, content_type: Seq<char>, wc: nat) -> Seq<IssueSpec> {
    if content_type == "post"@ && wc > 100 && !(contains(body, "<h2"@) || contains(body, "<H2"@)) {
        seq![
            issue(
                "no_headings"@,
                "warning"@,
                "No H2 headings found — use headings to structure content"@,
                5,
            ),
        ]
    } else {
        Seq::empty()
    }
}

pub open spec fn alt_issues(body: Seq<char>) -> Seq<IssueSpec> {
    let imgs = count_matches(body, "<img "@);
    let no_alt = imgs_without_alt_from(lowercase(body), 0);
    if imgs > 0 && no_alt > 0 {
        seq![
            issue(
                "images_missing_alt"@,
                "warning"@,
                decimal(no_alt) + " of "@ + decimal(imgs) + " images missing alt text"@,
                5,
            ),
        ]
    } else {
        Seq::empty()
    }
}

pub open spec fn link_issues(body: Seq<char>, content_type: Seq<char>, wc: nat) -> Seq<IssueSpec> {
    if content_type == "post"@ && wc > 200 && !contains(body, "<a "@) {
        seq![
            issue(
                "no_links"@,
                "info"@,
                "No links found in content — consider adding internal or external links"@,
                3,
            ),
        ]
    } else {
        Seq::empty()
    }
}

/// The issues found for an item, in the order the checks run.
pub open spec fn audit_issues(
    title: Seq<char>,
    slug: Seq<char>,
    meta_title: Seq<char>,
    meta_description: Seq<char>,
    body: Seq<char>,
    image: Seq<char>,
    content_type: Seq<char>,
) -> Seq<IssueSpec> {
    let wc = word_count(strip_html(body));
    title_issues(effective_title(title, meta_title)) + description_issues(meta_description)
        + slug_issues(slug) + image_issues(image, content_type) + content_issues(
        body,
        content_type,
        wc,
    ) + heading_issues(body, content_type, wc) + alt_issues(body) + link_issues(
        body,
        content_type,
        wc,
    )
}

/// 100 minus the points lost, kept within 0..=100.
pub open spec fn score_of(points: int) -> int {
    if 100 - points < 0 {
        0
    } else if 100 - points > 100 {
        100
    } else {
        100 - points
    }
}

/// "good" from 80, "needs_work" from 50, "poor" below.
pub open spec fn grade_of(score: int) -> Seq<char> {
    if score >= 80 {
        "good"@
    } else if score >= 50 {
        "needs_work"@
    } else {
        "poor"@
    }
}

/// The body of an input can be scanned for images: every `<img ` in its lowercase
/// form is followed by a `>`.
pub open spec fn scannable(input: SeoInput) -> bool {
    img_tags_closed(lowercase(input.body_html@))
}

// ── Proof helpers ────────────────────────────────────────────────────

proof fn lemma_total_points_append(a: Seq<IssueSpec>, b: Seq<IssueSpec>)
    ensures
        total_points(a + b) == total_points(a) + total_points(b),
    decreases b.len(),
{
    if b.len() == 0 {
        assert(a + b =~= a);
    } else {
        lemma_total_points_append(a, b.drop_last());
        assert((a + b).drop_last() =~= a + b.drop_last());
    }
}

proof fn lemma_total_points_small(s: Seq<IssueSpec>)
    requires
        s.len() <= 1,
    ensures
        total_points(s) == if s.len() == 1 {
            s[0].points_lost
        } else {
            0
        },
{
    reveal_with_fuel(total_points, 2);
    if s.len() == 1 {
        assert(s.drop_last() =~= Seq::<IssueSpec>::empty());
    }
}

proof fn lemma_first_match_ge(h: Seq<char>, n: Seq<char>, from: int)
    ensures
        first_match_from(h, n, from) matches Some(i) ==> from <= i && matches_at(h, n, i),
    decreases h.len() + 1 - from,
{
    if from < 0 || from + n.len() > h.len() {
    } else if matches_at(h, n, from) {
    } else {
        lemma_first_match_ge(h, n, from + 1);
    }
}

proof fn lemma_char_match(h: Seq<char>, c: char, j: int)
    requires
        0 <= j < h.len(),
    ensures
        matches_at(h, seq![c], j) <==> h[j] == c,
{
    if h[j] == c {
        assert(h.subrange(j, j + 1) =~= seq![c]);
    } else {
        assert(h.subrange(j, j + 1)[0] != seq![c][0]);
    }
}

// ── Executable helpers ───────────────────────────────────────────────

fn make_issue(code: &str, severity: &str, message: String, points: i32) -> (r: SeoIssue)
    ensures
        r@ == issue(code@, severity@, message@, points as int),
{
    SeoIssue { code: owned(code), severity: owned(severity), message, points_lost: points }
}

/// `a` followed by the decimal form of `n` and then `b`.
fn message_with_number(a: &str, n: usize, b: &str) -> (r: String)
    ensures
        r@ == a@ + decimal(n as nat) + b@,
{
    let mut s = owned(a);
    let d = usize_to_decimal(n);
    s.append(d.as_str());
    s.append(b);
    s
}

/// Text of `html` with tags removed; each closing `>` becomes a space.
pub fn strip_html_tags(html: &str) -> (r: String)
    ensures
        r@ == strip_html(html@),
{
    let v = chars_of(html);
    let mut result = String::new();
    let mut in_tag = false;
    let mut i: usize = 0;
    while i < v.len()
        invariant
            i <= v.len(),
            (result@, in_tag) == strip_state(v@.take(i as int)),
        decreases v.len() - i,
    {
        let ch = v[i];
        proof {
            assert(v@.take(i + 1).drop_last() =~= v@.take(i as int));
        }
        if ch == '<' {
            in_tag = true;
        } else if ch == '>' {
            in_tag = false;
            result.push(' ');
        } else if !in_tag {
            result.push(ch);
        }
        i = i + 1;
    }
    proof {
        assert(v@.take(v.len() as int) =~= v@);
    }
    result
}

/// The number of whitespace-separated words of `text`, leaving out words that are a
/// single ASCII character other than a letter or digit.
pub fn count_words(text: &str) -> (r: usize)
    ensures
        r == word_count(text@),
{
    let v = chars_of(text);
    let mut count: usize = 0;
    let mut i: usize = 0;
    while i < v.len()
        invariant
            i <= v.len(),
            count == words_before(v@, i as int),
            count <= i,
        decreases v.len() - i,
    {
        let c = v[i];
        let starts = !char_is_whitespace(c) && (i == 0 || char_is_whitespace(v[i - 1]));
        if starts {
            let single = i + 1 == v.len() || char_is_whitespace(v[i + 1]);
            let u = c as u32;
            let alnum = ('a' <= c && c <= 'z') || ('A' <= c && c <= 'Z') || ('0' <= c && c
                <= '9');
            if !single || u >= 0x80 || alnum {
                count = count + 1;
            }
        }
        i = i + 1;
    }
    count
}

/// The number of non-overlapping occurrences of `needle` in `haystack`.
pub fn count_pattern(haystack: &str, needle: &str) -> (r: usize)
    ensures
        r == count_matches(haystack@, needle@),
{
    let h = chars_of(haystack);
    let n = chars_of(needle);
    if n.len() == 0 {
        return 0;
    }
    let mut count: usize = 0;
    let mut pos: usize = 0;
    while pos <= h.len() && n.len() <= h.len() - pos
        invariant
            n.len() > 0,
            pos <= h.len() + n.len(),
            count + count_matches_from(h@, n@, pos as int) == count_matches(h@, n@),
            count <= pos,
        decreases h.len() + n.len() - pos,
    {
        if vec_matches_at(&h, &n, pos) {
            count = count + 1;
            pos = pos + n.len();
        } else {
            pos = pos + 1;
        }
    }
    count
}

/// Whether every `<img ` of `l` is followed by a `>`.
fn img_tags_closed_exec(l: &Vec<char>) -> (r: bool)
    ensures
        r == img_tags_closed(l@),
{
    let img = chars_of("<img ");
    let gt = chars_of(">");
    proof {
        reveal_strlit(">");
        reveal_strlit("<img ");
        assert(gt@ =~= seq!['>']);
    }
    // Scanning backwards: `seen` says a `>` occurs at or after index `i`.
    let mut seen = false;
    let mut i: usize = l.len();
    while i > 0
        invariant
            i <= l.len(),
            img@ == "<img "@,
            seen == (exists|j: int| i <= j < l.len() && l@[j] == '>'),
            forall|k: int|
                i <= k && #[trigger] matches_at(l@, "<img "@, k) ==> exists|j: int|
                    k <= j < l.len() && l@[j] == '>',
        decreases i,
    {
        i = i - 1;
        if l[i] == '>' {
            seen = true;
        }
        if vec_matches_at(l, &img, i) && !seen {
            return false;
        }
        proof {
            if seen && l@[i as int] != '>' {
                let j = choose|j: int| i + 1 <= j < l.len() && l@[j] == '>';
                assert(i <= j);
            }
        }
    }
    true
}

/// Number of `<img ` tags (case-insensitive) whose alt text is missing or empty.
pub fn count_images_without_alt(html: &str) -> (r: usize)
    requires
        img_tags_closed(lowercase(html@)),
    ensures
        r == imgs_without_alt_from(lowercase(html@), 0),
{
    let lower = to_lowercase(html);
    let l = chars_of(lower.as_str());
    let img = chars_of("<img ");
    let gt = chars_of(">");
    let alt = chars_of("alt=");
    let alt_dq = chars_of("alt=\"\"");
    let alt_sq = chars_of("alt=''");
    proof {
        reveal_strlit(">");
        assert(gt@ =~= seq!['>']);
    }
    let mut count: usize = 0;
    let mut pos: usize = 0;
    while pos <= l.len()
        invariant
            pos <= l.len() + 1,
            l@ == lowercase(html@),
            img@ == "<img "@,
            gt@ == seq!['>'],
            alt@ == "alt="@,
            alt_dq@ == "alt=\"\""@,
            alt_sq@ == "alt=''"@,
            img_tags_closed(l@),
            count + imgs_without_alt_from(l@, pos as int) == imgs_without_alt_from(l@, 0),
            count <= pos,
        decreases l.len() + 1 - pos,
    {
        let found = vec_find_from(&l, &img, pos);
        proof {
            lemma_first_match_ge(l@, img@, pos as int);
        }
        match found {
            None => {
                return count;
            },
            Some(start) => {
                proof {
                    let j = choose|j: int| start <= j < l.len() && l@[j] == '>';
                    lemma_char_match(l@, '>', j);
                    lemma_first_match_from_contains(l@, seq!['>'], start as int);
                    lemma_first_match_ge(l@, seq!['>'], start as int);
                }
                let close = vec_find_from(&l, &gt, start);
                match close {
                    None => {
                        return count;
                    },
                    Some(g) => {
                        let mut tag: Vec<char> = Vec::new();
                        let mut k: usize = start;
                        while k <= g
                            invariant
                                start <= k <= g + 1,
                                g < l.len(),
                                tag@ == l@.subrange(start as int, k as int),
                            decreases g + 1 - k,
                        {
                            tag.push(l[k]);
                            k = k + 1;
                            assert(tag@ =~= l@.subrange(start as int, k as int));
                        }
                        if !vec_contains(&tag, &alt) || vec_contains(&tag, &alt_dq)
                            || vec_contains(&tag, &alt_sq) {
                            count = count + 1;
                        }
                        pos = g + 1;
                    },
                }
            },
        }
    }
    count
}

fn content_type_is(input: &SeoInput, which: &str) -> (r: bool)
    ensures
        r == (input.content_type@ == which@),
{
    str_eq(input.content_type, which)
}

/// A found issue list of at most one issue, with the points it loses.
fn single(code: &str, severity: &str, message: String, points: i32) -> (r: (Vec<SeoIssue>, i32))
    ensures
        issue_views(r.0@) == seq![issue(code@, severity@, message@, points as int)],
        r.1 == points,
{
    let mut v: Vec<SeoIssue> = Vec::new();
    v.push(make_issue(code, severity, message, points));
    assert(issue_views(v@) =~= seq![issue(code@, severity@, message@, points as int)]);
    (v, points)
}

fn none() -> (r: (Vec<SeoIssue>, i32))
    ensures
        issue_views(r.0@) == Seq::<IssueSpec>::empty(),
        r.1 == 0,
{
    let v: Vec<SeoIssue> = Vec::new();
    assert(issue_views(v@) =~= Seq::<IssueSpec>::empty());
    (v, 0)
}

fn check_title(t: &str) -> (r: (Vec<SeoIssue>, i32))
    ensures
        issue_views(r.0@) == title_issues(t@),
        r.1 == total_points(title_issues(t@)),
        0 <= r.1 <= 15,
{
    proof {
        lemma_total_points_small(title_issues(t@));
    }
    if t.is_empty() {
        single("meta_title_missing", "error", owned("Meta title is missing"), 15)
    } else {
        let len = t.len();
        if len < 30 {
            let m = message_with_number("Meta title is too short (", len, " chars, aim for 50-60)");
            single("meta_title_short", "warning", m, 5)
        } else if len > 70 {
            let m = message_with_number(
                "Meta title is too long (",
                len,
                " chars, may be truncated in search results)",
            );
            single("meta_title_long", "warning", m, 3)
        } else {
            none()
        }
    }
}

fn check_description(d: &str) -> (r: (Vec<SeoIssue>, i32))
    ensures
        issue_views(r.0@) == description_issues(d@),
        r.1 == total_points(description_issues(d@)),
        0 <= r.1 <= 15,
{
    proof {
        lemma_total_points_small(description_issues(d@));
    }
    if d.is_empty() {
        single("meta_desc_missing", "error", owned("Meta description is missing"), 15)
    } else {
        let len = d.len();
        if len < 70 {
            let m = message_with_number(
                "Meta description is too short (",
                len,
                " chars, aim for 120-160)",
            );
            single("meta_desc_short", "warning", m, 5)
        } else if len > 170 {
            let m = message_with_number(
                "Meta description is too long (",
                len,
                " chars, may be truncated)",
            );
            single("meta_desc_long", "warning", m, 3)
        } else {
            none()
        }
    }
}

fn check_slug(slug: &str) -> (r: (Vec<SeoIssue>, i32))
    ensures
        issue_views(r.0@) == slug_issues(slug@),
        r.1 == total_points(slug_issues(slug@)),
        0 <= r.1 <= 10,
{
    proof {
        lemma_total_points_small(slug_issues(slug@));
    }
    if slug.is_empty() {
        single("slug_missing", "error", owned("URL slug is missing"), 10)
    } else if slug.len() > 75 {
        let m = message_with_number("URL slug is very long (", slug.len(), " chars)");
        single("slug_long", "warning", m, 3)
    } else {
        none()
    }
}

fn check_image(input: &SeoInput) -> (r: (Vec<SeoIssue>, i32))
    ensures
        issue_views(r.0@) == image_issues(input.featured_image@, input.content_type@),
        r.1 == total_points(image_issues(input.featured_image@, input.content_type@)),
        0 <= r.1 <= 10,
{
    proof {
        lemma_total_points_small(image_issues(input.featured_image@, input.content_type@));
    }
    if input.featured_image.is_empty() || str_eq(input.featured_image, "placeholder.jpg") {
        let label = if content_type_is(input, "portfolio") {
            "Featured media"
        } else {
            "Featured image"
        };
        let mut m = owned(label);
        m.append(" is missing");
        single("featured_image_missing", "warning", m, 10)
    } else {
        none()
    }
}

fn check_content(input: &SeoInput, word_count: usize) -> (r: (Vec<SeoIssue>, i32))
    ensures
        issue_views(r.0@) == content_issues(
            input.body_html@,
            input.content_type@,
            word_count as nat,
        ),
        r.1 == total_points(
            content_issues(input.body_html@, input.content_type@, word_count as nat),
        ),
        0 <= r.1 <= 20,
{
    proof {
        lemma_total_points_small(
            content_issues(input.body_html@, input.content_type@, word_count as nat),
        );
    }
    if content_type_is(input, "post") {
        if word_count == 0 {
            single("content_empty", "error", owned("Post has no content"), 20)
        } else if word_count < 100 {
            let m = message_with_number(
                "Content is very thin (",
                word_count,
                " words, aim for 300+)",
            );
            single("content_thin", "error", m, 15)
        } else if word_count < 300 {
            let m = message_with_number("Content is short (", word_count, " words, aim for 300+)");
            single("content_short", "warning", m, 5)
        } else {
            none()
        }
    } else if word_count < 20 && !input.body_html.is_empty() {
        let m = message_with_number("Description is very short (", word_count, " words)");
        single("description_thin", "info", m, 3)
    } else {
        none()
    }
}

fn check_headings(input: &SeoInput, word_count: usize) -> (r: (Vec<SeoIssue>, i32))
    ensures
        issue_views(r.0@) == heading_issues(
            input.body_html@,
            input.content_type@,
            word_count as nat,
        ),
        r.1 == total_points(
            heading_issues(input.body_html@, input.content_type@, word_count as nat),
        ),
        0 <= r.1 <= 5,
{
    proof {
        lemma_total_points_small(
            heading_issues(input.body_html@, input.content_type@, word_count as nat),
        );
    }
    if content_type_is(input, "post") && word_count > 100 {
        let has_h2 = str_contains(input.body_html, "<h2") || str_contains(input.body_html, "<H2");
        if !has_h2 {
            return single(
                "no_headings",
                "warning",
                owned("No H2 headings found — use headings to structure content"),
                5,
            );
        }
    }
    none()
}

fn check_alt(input: &SeoInput) -> (r: (Vec<SeoIssue>, i32))
    requires
        scannable(*input),
    ensures
        issue_views(r.0@) == alt_issues(input.body_html@),
        r.1 == total_points(alt_issues(input.body_html@)),
        0 <= r.1 <= 5,
{
    proof {
        lemma_total_points_small(alt_issues(input.body_html@));
    }
    let img_count = count_pattern(input.body_html, "<img ");
    let img_no_alt = count_images_without_alt(input.body_html);
    if img_count > 0 && img_no_alt > 0 {
        let mut m = usize_to_decimal(img_no_alt);
        m.append(" of ");
        let d = usize_to_decimal(img_count);
        m.append(d.as_str());
        m.append(" images missing alt text");
        single("images_missing_alt", "warning", m, 5)
    } else {
        none()
    }
}

fn check_links(input: &SeoInput, word_count: usize) -> (r: (Vec<SeoIssue>, i32))
    ensures
        issue_views(r.0@) == link_issues(input.body_html@, input.content_type@, word_count as nat),
        r.1 == total_points(
            link_issues(input.body_html@, input.content_type@, word_count as nat),
        ),
        0 <= r.1 <= 3,
{
    proof {
        lemma_total_points_small(
            link_issues(input.body_html@, input.content_type@, word_count as nat),
        );
    }
    if content_type_is(input, "post") && word_count > 200 {
        if !str_contains(input.body_html, "<a ") {
            return single(
                "no_links",
                "info",
                owned("No links found in content — consider adding internal or external links"),
                3,
            );
        }
    }
    none()
}

/// Appends the issues of one check to `issues`, keeping the running total of points.
fn add_issues(
    issues: &mut Vec<SeoIssue>,
    total: i32,
    found: (Vec<SeoIssue>, i32),
    Ghost(prev): Ghost<Seq<IssueSpec>>,
    Ghost(added): Ghost<Seq<IssueSpec>>,
) -> (r: i32)
    requires
        issue_views(old(issues)@) == prev,
        total == total_points(prev),
        issue_views(found.0@) == added,
        found.1 == total_points(added),
        0 <= total <= 100,
        0 <= found.1 <= 20,
    ensures
        issue_views(final(issues)@) == prev + added,
        r == total_points(prev + added),
        r == total + found.1,
{
    let (mut v, p) = found;
    issues.append(&mut v);
    proof {
        assert(issue_views(issues@) =~= prev + added);
        lemma_total_points_append(prev, added);
    }
    total + p
}

/// Computes the SEO score of a content item: it starts at 100 and loses points for
/// each issue found. The body must be scannable for images (see `compute_score_checked`
/// for inputs that may not be).
pub fn compute_score(input: &SeoInput) -> (r: SeoAudit)
    requires
        scannable(*input),
    ensures
        issue_views(r.issues@) == audit_issues(
            input.title@,
            input.slug@,
            input.meta_title@,
            input.meta_description@,
            input.body_html@,
            input.featured_image@,
            input.content_type@,
        ),
        r.score as int == score_of(total_points(issue_views(r.issues@))),
        r.grade@ == grade_of(r.score as int),
        0 <= r.score <= 100,
{
    let ghost body = input.body_html@;
    let ghost ct = input.content_type@;
    let effective = if input.meta_title.is_empty() {
        input.title
    } else {
        input.meta_title
    };
    let body_text = strip_html_tags(input.body_html);
    let word_count = count_words(body_text.as_str());
    let ghost wc = word_count as nat;

    let mut issues: Vec<SeoIssue> = Vec::new();
    let ghost s0 = Seq::<IssueSpec>::empty();
    assert(issue_views(issues@) =~= s0);
    let ghost a1 = title_issues(effective_title(input.title@, input.meta_title@));
    let d = add_issues(&mut issues, 0, check_title(effective), Ghost(s0), Ghost(a1));
    let ghost s1 = s0 + a1;
    let ghost a2 = description_issues(input.meta_description@);
    let d = add_issues(&mut issues, d, check_description(input.meta_description), Ghost(s1), Ghost(a2));
    let ghost s2 = s1 + a2;
    let ghost a3 = slug_issues(input.slug@);
    let d = add_issues(&mut issues, d, check_slug(input.slug), Ghost(s2), Ghost(a3));
    let ghost s3 = s2 + a3;
    let ghost a4 = image_issues(input.featured_image@, ct);
    let d = add_issues(&mut issues, d, check_image(input), Ghost(s3), Ghost(a4));
    let ghost s4 = s3 + a4;
    let ghost a5 = content_issues(body, ct, wc);
    let d = add_issues(&mut issues, d, check_content(input, word_count), Ghost(s4), Ghost(a5));
    let ghost s5 = s4 + a5;
    let ghost a6 = heading_issues(body, ct, wc);
    let d = add_issues(&mut issues, d, check_headings(input, word_count), Ghost(s5), Ghost(a6));
    let ghost s6 = s5 + a6;
    let ghost a7 = alt_issues(body);
    let d = add_issues(&mut issues, d, check_alt(input), Ghost(s6), Ghost(a7));
    let ghost s7 = s6 + a7;
    let ghost a8 = link_issues(body, ct, wc);
    let deductions = add_issues(&mut issues, d, check_links(input, word_count), Ghost(s7), Ghost(a8));
    let ghost s8 = s7 + a8;
    assert(s8 =~= audit_issues(
        input.title@,
        input.slug@,
        input.meta_title@,
        input.meta_description@,
        body,
        input.featured_image@,
        ct,
    ));

    let score: i32 = if 100 - deductions < 0 {
        0
    } else if 100 - deductions > 100 {
        100
    } else {
        100 - deductions
    };
    let grade = if score >= 80 {
        owned("good")
    } else if score >= 50 {
        owned("needs_work")
    } else {
        owned("poor")
    };
    SeoAudit { score, grade, issues }
}

/// Computes the SEO score when the body can be scanned for images, and `None` when an
/// `<img ` tag in it is never closed by a `>`.
pub fn compute_score_checked(input: &SeoInput) -> (r: Option<SeoAudit>)
    ensures
        r is Some <==> scannable(*input),
        r matches Some(a) ==> issue_views(a.issues@) == audit_issues(
            input.title@,
            input.slug@,
            input.meta_title@,
            input.meta_description@,
            input.body_html@,
            input.featured_image@,
            input.content_type@,
        ) && a.score as int == score_of(total_points(issue_views(a.issues@))) && a.grade@
            == grade_of(a.score as int),
{
    let lower = to_lowercase(input.body_html);
    let l = chars_of(lower.as_str());
    if img_tags_closed_exec(&l) {
        Some(compute_score(input))
    } else {
        None
    }
}

/// Every issue in `s` costs points.
pub open spec fn all_cost(s: Seq<IssueSpec>) -> bool {
    forall|i: int| 0 <= i < s.len() ==> (#[trigger] s[i]).points_lost > 0
}

proof fn lemma_all_cost_concat(a: Seq<IssueSpec>, b: Seq<IssueSpec>)
    requires
        all_cost(a),
        all_cost(b),
    ensures
        all_cost(a + b),
{
    assert forall|i: int| 0 <= i < (a + b).len() implies (#[trigger] (a + b)[i]).points_lost > 0 by {
        if i < a.len() {
            assert((a + b)[i] == a[i]);
        } else {
            assert((a + b)[i] == b[i - a.len()]);
        }
    }
}

proof fn lemma_costly_total(s: Seq<IssueSpec>)
    requires
        all_cost(s),
    ensures
        total_points(s) >= s.len(),
    decreases s.len(),
{
    if s.len() > 0 {
        assert forall|i: int| 0 <= i < s.drop_last().len() implies (#[trigger] s.drop_last()[i]).points_lost > 0 by {
            assert(s.drop_last()[i] == s[i]);
        }
        lemma_costly_total(s.drop_last());
        assert(s.last() == s[s.len() - 1]);
    }
}

/// An item scores 100 exactly when its audit finds no issue, since every issue costs
/// points; and its grade is then "good".
pub proof fn perfect_score_iff_no_issues(
    title: Seq<char>,
    slug: Seq<char>,
    meta_title: Seq<char>,
    meta_description: Seq<char>,
    body: Seq<char>,
    image: Seq<char>,
    content_type: Seq<char>,
)
    ensures
        (score_of(total_points(audit_issues(title, slug, meta_title, meta_description, body, image, content_type)))
            == 100) == (audit_issues(title, slug, meta_title, meta_description, body, image, content_type).len()
            == 0),
        audit_issues(title, slug, meta_title, meta_description, body, image, content_type).len() == 0
            ==> grade_of(score_of(total_points(audit_issues(title, slug, meta_title, meta_description, body, image, content_type))))
            == "good"@,
{
    let wc = word_count(strip_html(body));
    let a = title_issues(effective_title(title, meta_title));
    let b = description_issues(meta_description);
    let c = slug_issues(slug);
    let d = image_issues(image, content_type);
    let e = content_issues(body, content_type, wc);
    let f = heading_issues(body, content_type, wc);
    let g = alt_issues(body);
    let h = link_issues(body, content_type, wc);
    assert(all_cost(a));
    assert(all_cost(b));
    assert(all_cost(c));
    assert(all_cost(d));
    assert(all_cost(e));
    assert(all_cost(f));
    assert(all_cost(g));
    assert(all_cost(h));
    lemma_all_cost_concat(a, b);
    lemma_all_cost_concat(a + b, c);
    lemma_all_cost_concat(a + b + c, d);
    lemma_all_cost_concat(a + b + c + d, e);
    lemma_all_cost_concat(a + b + c + d + e, f);
    lemma_all_cost_concat(a + b + c + d + e + f, g);
    lemma_all_cost_concat(a + b + c + d + e + f + g, h);
    let all = audit_issues(title, slug, meta_title, meta_description, body, image, content_type);
    assert(all == a + b + c + d + e + f + g + h);
    lemma_costly_total(all);
    if all.len() == 0 {
        assert(total_points(all) == 0);
    }
}

// ── Laws of the audit ────────────────────────────────────────────────

/// The check that reports an issue code, numbered in the order the checks run (0 for a
/// code no check reports).
pub open spec fn code_group(c: Seq<char>) -> int {
    if c == "meta_title_missing"@ || c == "meta_title_short"@ || c == "meta_title_long"@ {
        1
    } else if c == "meta_desc_missing"@ || c == "meta_desc_short"@ || c == "meta_desc_long"@ {
        2
    } else if c == "slug_missing"@ || c == "slug_long"@ {
        3
    } else if c == "featured_image_missing"@ {
        4
    } else if c == "content_empty"@ || c == "content_thin"@ || c == "content_short"@ || c
        == "description_thin"@ {
        5
    } else if c == "no_headings"@ {
        6
    } else if c == "images_missing_alt"@ {
        7
    } else if c == "no_links"@ {
        8
    } else {
        0
    }
}

/// An issue costs points and has one of the severities `error`, `warning`, `info`.
pub open spec fn sound_issue(i: IssueSpec) -> bool {
    i.points_lost > 0 && (i.severity == "error"@ || i.severity == "warning"@ || i.severity == "info"@)
}

/// Some issue in `s` has the code `c`.
pub open spec fn has_code(s: Seq<IssueSpec>, c: Seq<char>) -> bool {
    exists|i: int| 0 <= i < s.len() && (#[trigger] s[i]).code == c
}

/// The issues of `s` come from checks `lo..=hi`, each from a later check than the one
/// before it, and each is sound.
spec fn ordered_within(s: Seq<IssueSpec>, lo: int, hi: int) -> bool {
    &&& forall|i: int| 0 <= i < s.len() ==> lo <= code_group((#[trigger] s[i]).code) <= hi
    &&& forall|i: int, j: int| 0 <= i < j < s.len() ==> code_group((#[trigger] s[i]).code) < code_group(
        (#[trigger] s[j]).code,
    )
    &&& forall|i: int| 0 <= i < s.len() ==> sound_issue(#[trigger] s[i])
}

proof fn lemma_code_groups()
    ensures
        code_group("meta_title_missing"@) == 1,
        code_group("meta_title_short"@) == 1,
        code_group("meta_title_long"@) == 1,
        code_group("meta_desc_missing"@) == 2,
        code_group("meta_desc_short"@) == 2,
        code_group("meta_desc_long"@) == 2,
        code_group("slug_missing"@) == 3,
        code_group("slug_long"@) == 3,
        code_group("featured_image_missing"@) == 4,
        code_group("content_empty"@) == 5,
        code_group("content_thin"@) == 5,
        code_group("content_short"@) == 5,
        code_group("description_thin"@) == 5,
        code_group("no_headings"@) == 6,
        code_group("images_missing_alt"@) == 7,
        code_group("no_links"@) == 8,
        "meta_title_missing"@.len() == 18 && "meta_title_short"@.len() == 16 && "meta_title_long"@.len() == 15,
        "meta_desc_missing"@.len() == 17 && "meta_desc_short"@.len() == 15 && "meta_desc_long"@.len() == 14,
        "slug_missing"@.len() == 12 && "slug_long"@.len() == 9,
        "content_empty"@.len() == 13 && "content_thin"@.len() == 12 && "content_short"@.len() == 13
            && "description_thin"@.len() == 16,
        "content_empty"@[8] != "content_short"@[8],
{
    reveal_strlit("meta_title_missing");
    reveal_strlit("meta_title_short");
    reveal_strlit("meta_title_long");
    reveal_strlit("meta_desc_missing");
    reveal_strlit("meta_desc_short");
    reveal_strlit("meta_desc_long");
    reveal_strlit("slug_missing");
    reveal_strlit("slug_long");
    reveal_strlit("featured_image_missing");
    reveal_strlit("content_empty");
    reveal_strlit("content_thin");
    reveal_strlit("content_short");
    reveal_strlit("description_thin");
    reveal_strlit("no_headings");
    reveal_strlit("images_missing_alt");
    reveal_strlit("no_links");
    assert("meta_title_missing"@.len() == 18);
    assert("meta_title_short"@.len() == 16);
    assert("meta_title_long"@.len() == 15);
    assert("meta_desc_missing"@.len() == 17);
    assert("meta_desc_short"@.len() == 15);
    assert("meta_desc_long"@.len() == 14);
    assert("slug_missing"@.len() == 12);
    assert("slug_long"@.len() == 9);
    assert("featured_image_missing"@.len() == 22);
    assert("content_empty"@.len() == 13);
    assert("content_thin"@.len() == 12);
    assert("content_short"@.len() == 13);
    assert("description_thin"@.len() == 16);
    assert("no_headings"@.len() == 11);
    assert("images_missing_alt"@.len() == 18);
    assert("no_links"@.len() == 8);
    assert("meta_title_missing"@[0] != "images_missing_alt"@[0]);
    assert("meta_title_short"@[0] != "description_thin"@[0]);
    assert("meta_title_long"@[5] != "meta_desc_short"@[5]);
    assert("slug_missing"@[0] != "content_thin"@[0]);
    assert("content_empty"@[8] != "content_short"@[8]);
}

proof fn lemma_single_group(s: Seq<IssueSpec>, k: int)
    requires
        s.len() <= 1,
        s.len() == 1 ==> code_group(s[0].code) == k && sound_issue(s[0]),
    ensures
        ordered_within(s, k, k),
{
}

proof fn lemma_ordered_concat(a: Seq<IssueSpec>, b: Seq<IssueSpec>, lo: int, mid: int, hi: int)
    requires
        ordered_within(a, lo, mid),
        ordered_within(b, mid + 1, hi),
        lo <= mid < hi,
    ensures
        ordered_within(a + b, lo, hi),
{
    let s = a + b;
    assert forall|i: int| 0 <= i < s.len() implies lo <= code_group((#[trigger] s[i]).code) <= hi
        && sound_issue(s[i]) by {
        if i < a.len() {
            assert(s[i] == a[i]);
            assert(lo <= code_group(a[i].code) <= mid);
            assert(sound_issue(a[i]));
        } else {
            let t = i - a.len();
            assert(s[i] == b[t]);
            assert(mid + 1 <= code_group(b[t].code) <= hi);
            assert(sound_issue(b[t]));
        }
    }
    assert forall|i: int, j: int| 0 <= i < j < s.len() implies code_group((#[trigger] s[i]).code)
        < code_group((#[trigger] s[j]).code) by {
        if j < a.len() {
            assert(s[i] == a[i] && s[j] == a[j]);
        } else if i >= a.len() {
            assert(s[i] == b[i - a.len()] && s[j] == b[j - a.len()]);
        } else {
            assert(s[i] == a[i] && s[j] == b[j - a.len()]);
        }
    }
}

proof fn lemma_has_code_concat(a: Seq<IssueSpec>, b: Seq<IssueSpec>, c: Seq<char>)
    ensures
        has_code(a + b, c) == (has_code(a, c) || has_code(b, c)),
{
    let s = a + b;
    if has_code(s, c) {
        let i = choose|i: int| 0 <= i < s.len() && (#[trigger] s[i]).code == c;
        if i < a.len() {
            assert(a[i] == s[i]);
        } else {
            assert(b[i - a.len()] == s[i]);
        }
    }
    if has_code(a, c) {
        let i = choose|i: int| 0 <= i < a.len() && (#[trigger] a[i]).code == c;
        assert(s[i] == a[i]);
    }
    if has_code(b, c) {
        let i = choose|i: int| 0 <= i < b.len() && (#[trigger] b[i]).code == c;
        assert(s[i + a.len()] == b[i]);
    }
}

/// The eight checks' findings for an item, each ordered within its own check number.
proof fn lemma_groups_ordered(
    title: Seq<char>,
    slug: Seq<char>,
    meta_title: Seq<char>,
    meta_description: Seq<char>,
    body: Seq<char>,
    image: Seq<char>,
    content_type: Seq<char>,
)
    ensures
        ordered_within(title_issues(effective_title(title, meta_title)), 1, 1),
        ordered_within(description_issues(meta_description), 2, 2),
        ordered_within(slug_issues(slug), 3, 3),
        ordered_within(image_issues(image, content_type), 4, 4),
        ordered_within(content_issues(body, content_type, word_count(strip_html(body))), 5, 5),
        ordered_within(heading_issues(body, content_type, word_count(strip_html(body))), 6, 6),
        ordered_within(alt_issues(body), 7, 7),
        ordered_within(link_issues(body, content_type, word_count(strip_html(body))), 8, 8),
{
    let wc = word_count(strip_html(body));
    lemma_code_groups();
    lemma_single_group(title_issues(effective_title(title, meta_title)), 1);
    lemma_single_group(description_issues(meta_description), 2);
    lemma_single_group(slug_issues(slug), 3);
    lemma_single_group(image_issues(image, content_type), 4);
    lemma_single_group(content_issues(body, content_type, wc), 5);
    lemma_single_group(heading_issues(body, content_type, wc), 6);
    lemma_single_group(alt_issues(body), 7);
    lemma_single_group(link_issues(body, content_type, wc), 8);
}

/// Each check reports at most once: no two issues of an audit share a code, and they
/// come in the order the checks run. Every issue costs points and has the severity
/// `error`, `warning` or `info`.
pub proof fn audit_issues_distinct_and_sound(
    title: Seq<char>,
    slug: Seq<char>,
    meta_title: Seq<char>,
    meta_description: Seq<char>,
    body: Seq<char>,
    image: Seq<char>,
    content_type: Seq<char>,
)
    ensures
        forall|i: int, j: int|
            0 <= i < j < audit_issues(title, slug, meta_title, meta_description, body, image, content_type).len()
                ==> (#[trigger] audit_issues(title, slug, meta_title, meta_description, body, image, content_type)[i]).code
                != (#[trigger] audit_issues(title, slug, meta_title, meta_description, body, image, content_type)[j]).code,
        forall|i: int|
            0 <= i < audit_issues(title, slug, meta_title, meta_description, body, image, content_type).len()
                ==> sound_issue(
                #[trigger] audit_issues(title, slug, meta_title, meta_description, body, image, content_type)[i],
            ),
{
    let wc = word_count(strip_html(body));
    let a = title_issues(effective_title(title, meta_title));
    let b = description_issues(meta_description);
    let c = slug_issues(slug);
    let d = image_issues(image, content_type);
    let e = content_issues(body, content_type, wc);
    let f = heading_issues(body, content_type, wc);
    let g = alt_issues(body);
    let h = link_issues(body, content_type, wc);
    lemma_groups_ordered(title, slug, meta_title, meta_description, body, image, content_type);
    lemma_ordered_concat(a, b, 1, 1, 2);
    lemma_ordered_concat(a + b, c, 1, 2, 3);
    lemma_ordered_concat(a + b + c, d, 1, 3, 4);
    lemma_ordered_concat(a + b + c + d, e, 1, 4, 5);
    lemma_ordered_concat(a + b + c + d + e, f, 1, 5, 6);
    lemma_ordered_concat(a + b + c + d + e + f, g, 1, 6, 7);
    lemma_ordered_concat(a + b + c + d + e + f + g, h, 1, 7, 8);
    let all = audit_issues(title, slug, meta_title, meta_description, body, image, content_type);
    assert(all == a + b + c + d + e + f + g + h);
    assert forall|i: int, j: int| 0 <= i < j < all.len() implies (#[trigger] all[i]).code != (
    #[trigger] all[j]).code by {
        assert(code_group(all[i].code) < code_group(all[j].code));
    }
}

/// The audit reports `meta_desc_missing` exactly when the meta description is empty,
/// and `featured_image_missing` exactly when the featured image is empty or
/// `placeholder.jpg`.
pub proof fn audit_flags_missing_fields(
    title: Seq<char>,
    slug: Seq<char>,
    meta_title: Seq<char>,
    meta_description: Seq<char>,
    body: Seq<char>,
    image: Seq<char>,
    content_type: Seq<char>,
)
    ensures
        has_code(audit_issues(title, slug, meta_title, meta_description, body, image, content_type), "meta_desc_missing"@)
            == (meta_description.len() == 0),
        has_code(audit_issues(title, slug, meta_title, meta_description, body, image, content_type), "featured_image_missing"@)
            == (image.len() == 0 || image == "placeholder.jpg"@),
{
    let wc = word_count(strip_html(body));
    let a = title_issues(effective_title(title, meta_title));
    let b = description_issues(meta_description);
    let c = slug_issues(slug);
    let d = image_issues(image, content_type);
    let e = content_issues(body, content_type, wc);
    let f = heading_issues(body, content_type, wc);
    let g = alt_issues(body);
    let h = link_issues(body, content_type, wc);
    lemma_groups_ordered(title, slug, meta_title, meta_description, body, image, content_type);
    lemma_code_groups();
    let all = audit_issues(title, slug, meta_title, meta_description, body, image, content_type);
    assert(all == a + b + c + d + e + f + g + h);
    let ghost code_d = "meta_desc_missing"@;
    let ghost code_i = "featured_image_missing"@;
    lemma_not_in_group(a, 1, code_d);
    lemma_not_in_group(c, 3, code_d);
    lemma_not_in_group(d, 4, code_d);
    lemma_not_in_group(e, 5, code_d);
    lemma_not_in_group(f, 6, code_d);
    lemma_not_in_group(g, 7, code_d);
    lemma_not_in_group(h, 8, code_d);
    lemma_not_in_group(a, 1, code_i);
    lemma_not_in_group(b, 2, code_i);
    lemma_not_in_group(c, 3, code_i);
    lemma_not_in_group(e, 5, code_i);
    lemma_not_in_group(f, 6, code_i);
    lemma_not_in_group(g, 7, code_i);
    lemma_not_in_group(h, 8, code_i);
    for_all_codes_concat(a, b, c, d, e, f, g, h, code_d);
    for_all_codes_concat(a, b, c, d, e, f, g, h, code_i);
    if meta_description.len() == 0 {
        assert(b[0].code == code_d);
    } else if has_code(b, code_d) {
        assert(b[0].code == code_d);
        assert("meta_desc_short"@.len() == 15 && "meta_desc_long"@.len() == 14 && code_d.len() == 17) by {
            reveal_strlit("meta_desc_short");
            reveal_strlit("meta_desc_long");
            reveal_strlit("meta_desc_missing");
        }
    }
    if image.len() == 0 || image == "placeholder.jpg"@ {
        assert(d[0].code == code_i);
    }
}

/// Only its own check reports a code.
proof fn lemma_not_in_group(s: Seq<IssueSpec>, k: int, x: Seq<char>)
    requires
        ordered_within(s, k, k),
        code_group(x) != k,
    ensures
        !has_code(s, x),
{
    if has_code(s, x) {
        let i = choose|i: int| 0 <= i < s.len() && (#[trigger] s[i]).code == x;
        assert(code_group(s[i].code) == k);
    }
}

proof fn for_all_codes_concat(
    a: Seq<IssueSpec>,
    b: Seq<IssueSpec>,
    c: Seq<IssueSpec>,
    d: Seq<IssueSpec>,
    e: Seq<IssueSpec>,
    f: Seq<IssueSpec>,
    g: Seq<IssueSpec>,
    h: Seq<IssueSpec>,
    x: Seq<char>,
)
    ensures
        has_code(a + b + c + d + e + f + g + h, x) == (has_code(a, x) || has_code(b, x) || has_code(c, x)
            || has_code(d, x) || has_code(e, x) || has_code(f, x) || has_code(g, x) || has_code(h, x)),
{
    lemma_has_code_concat(a, b, x);
    lemma_has_code_concat(a + b, c, x);
    lemma_has_code_concat(a + b + c, d, x);
    lemma_has_code_concat(a + b + c + d, e, x);
    lemma_has_code_concat(a + b + c + d + e, f, x);
    lemma_has_code_concat(a + b + c + d + e + f, g, x);
    lemma_has_code_concat(a + b + c + d + e + f + g, h, x);
}

/// The findings of the `k`-th check (numbered as in `code_group`).
spec fn audit_part(
    title: Seq<char>,
    slug: Seq<char>,
    meta_title: Seq<char>,
    meta_description: Seq<char>,
    body: Seq<char>,
    image: Seq<char>,
    content_type: Seq<char>,
    k: int,
) -> Seq<IssueSpec> {
    let wc = word_count(strip_html(body));
    if k == 1 {
        title_issues(effective_title(title, meta_title))
    } else if k == 2 {
        description_issues(meta_description)
    } else if k == 3 {
        slug_issues(slug)
    } else if k == 4 {
        image_issues(image, content_type)
    } else if k == 5 {
        content_issues(body, content_type, wc)
    } else if k == 6 {
        heading_issues(body, content_type, wc)
    } else if k == 7 {
        alt_issues(body)
    } else {
        link_issues(body, content_type, wc)
    }
}

/// An audit reports a code exactly when the check that owns the code does.
proof fn lemma_code_from_own_check(
    title: Seq<char>,
    slug: Seq<char>,
    meta_title: Seq<char>,
    meta_description: Seq<char>,
    body: Seq<char>,
    image: Seq<char>,
    content_type: Seq<char>,
    x: Seq<char>,
)
    requires
        1 <= code_group(x) <= 8,
    ensures
        has_code(audit_issues(title, slug, meta_title, meta_description, body, image, content_type), x) == has_code(audit_part(title, slug, meta_title, meta_description, body, image, content_type, code_group(x)), x),
{
    let wc = word_count(strip_html(body));
    let a = title_issues(effective_title(title, meta_title));
    let b = description_issues(meta_description);
    let c = slug_issues(slug);
    let d = image_issues(image, content_type);
    let e = content_issues(body, content_type, wc);
    let f = heading_issues(body, content_type, wc);
    let g = alt_issues(body);
    let h = link_issues(body, content_type, wc);
    lemma_groups_ordered(title, slug, meta_title, meta_description, body, image, content_type);
    assert(audit_issues(title, slug, meta_title, meta_description, body, image, content_type) == a + b + c + d + e + f + g + h);
    for_all_codes_concat(a, b, c, d, e, f, g, h, x);
    let k = code_group(x);
    if k != 1 {
        lemma_not_in_group(a, 1, x);
    }
    if k != 2 {
        lemma_not_in_group(b, 2, x);
    }
    if k != 3 {
        lemma_not_in_group(c, 3, x);
    }
    if k != 4 {
        lemma_not_in_group(d, 4, x);
    }
    if k != 5 {
        lemma_not_in_group(e, 5, x);
    }
    if k != 6 {
        lemma_not_in_group(f, 6, x);
    }
    if k != 7 {
        lemma_not_in_group(g, 7, x);
    }
    if k != 8 {
        lemma_not_in_group(h, 8, x);
    }
}

/// Some issue of `s` is `e`.
spec fn has_issue(s: Seq<IssueSpec>, e: IssueSpec) -> bool {
    exists|i: int| 0 <= i < s.len() && s[i] == e
}

proof fn lemma_has_issue_concat(a: Seq<IssueSpec>, b: Seq<IssueSpec>, e: IssueSpec)
    ensures
        has_issue(a + b, e) ==> (has_issue(a, e) || has_issue(b, e)),
{
    if has_issue(a + b, e) {
        let i = choose|i: int| 0 <= i < (a + b).len() && (a + b)[i] == e;
        if i < a.len() {
            assert(a[i] == (a + b)[i]);
        } else {
            assert(b[i - a.len()] == (a + b)[i]);
        }
    }
}

/// A check's findings that include `e` consist of `e` alone, and `e`'s code is the
/// check's own.
proof fn lemma_issue_in_part(s: Seq<IssueSpec>, k: int, e: IssueSpec)
    requires
        ordered_within(s, k, k),
        has_issue(s, e),
    ensures
        s.len() == 1,
        s[0] == e,
        code_group(e.code) == k,
{
    let j = choose|j: int| 0 <= j < s.len() && s[j] == e;
    if s.len() > 1 {
        assert(code_group(s[0].code) < code_group(s[1].code));
    }
}

/// Every issue of an audit is the single finding of the check that owns its code.
proof fn lemma_issue_from_own_check(
    title: Seq<char>,
    slug: Seq<char>,
    meta_title: Seq<char>,
    meta_description: Seq<char>,
    body: Seq<char>,
    image: Seq<char>,
    content_type: Seq<char>,
    i: int,
)
    requires
        0 <= i < audit_issues(title, slug, meta_title, meta_description, body, image, content_type).len(),
    ensures
        1 <= code_group(audit_issues(title, slug, meta_title, meta_description, body, image, content_type)[i].code) <= 8,
        audit_part(title, slug, meta_title, meta_description, body, image, content_type, code_group(audit_issues(title, slug, meta_title, meta_description, body, image, content_type)[i].code)).len() == 1,
        audit_part(title, slug, meta_title, meta_description, body, image, content_type, code_group(audit_issues(title, slug, meta_title, meta_description, body, image, content_type)[i].code))[0] == audit_issues(title, slug, meta_title, meta_description, body, image, content_type)[i],
{
    let wc = word_count(strip_html(body));
    let a = title_issues(effective_title(title, meta_title));
    let b = description_issues(meta_description);
    let c = slug_issues(slug);
    let d = image_issues(image, content_type);
    let e = content_issues(body, content_type, wc);
    let f = heading_issues(body, content_type, wc);
    let g = alt_issues(body);
    let h = link_issues(body, content_type, wc);
    lemma_groups_ordered(title, slug, meta_title, meta_description, body, image, content_type);
    let all = audit_issues(title, slug, meta_title, meta_description, body, image, content_type);
    assert(all == a + b + c + d + e + f + g + h);
    let x = all[i];
    assert(has_issue(all, x));
    lemma_has_issue_concat(a + b + c + d + e + f + g, h, x);
    lemma_has_issue_concat(a + b + c + d + e + f, g, x);
    lemma_has_issue_concat(a + b + c + d + e, f, x);
    lemma_has_issue_concat(a + b + c + d, e, x);
    lemma_has_issue_concat(a + b + c, d, x);
    lemma_has_issue_concat(a + b, c, x);
    lemma_has_issue_concat(a, b, x);
    if has_issue(a, x) {
        lemma_issue_in_part(a, 1, x);
    } else if has_issue(b, x) {
        lemma_issue_in_part(b, 2, x);
    } else if has_issue(c, x) {
        lemma_issue_in_part(c, 3, x);
    } else if has_issue(d, x) {
        lemma_issue_in_part(d, 4, x);
    } else if has_issue(e, x) {
        lemma_issue_in_part(e, 5, x);
    } else if has_issue(f, x) {
        lemma_issue_in_part(f, 6, x);
    } else if has_issue(g, x) {
        lemma_issue_in_part(g, 7, x);
    } else {
        lemma_issue_in_part(h, 8, x);
    }
}

proof fn lemma_has_code_single(s: Seq<IssueSpec>, x: Seq<char>)
    requires
        s.len() <= 1,
    ensures
        has_code(s, x) == (s.len() == 1 && s[0].code == x),
{
    if s.len() == 1 && s[0].code == x {
        assert(s[0].code == x);
    }
}

/// The title check, on the meta title or else the title: `meta_title_missing` (an error
/// costing 15 points) when it is empty, `meta_title_short` (a warning costing 5) when it
/// is under 30 UTF-8 bytes, `meta_title_long` (a warning costing 3) when it is over 70.
pub proof fn audit_title_check(
    title: Seq<char>,
    slug: Seq<char>,
    meta_title: Seq<char>,
    meta_description: Seq<char>,
    body: Seq<char>,
    image: Seq<char>,
    content_type: Seq<char>,
)
    ensures
        has_code(audit_issues(title, slug, meta_title, meta_description, body, image, content_type), "meta_title_missing"@) == ((if meta_title.len() == 0 { title } else { meta_title }).len() == 0),
        forall|i: int| 0 <= i < audit_issues(title, slug, meta_title, meta_description, body, image, content_type).len() && (#[trigger] audit_issues(title, slug, meta_title, meta_description, body, image, content_type)[i]).code == "meta_title_missing"@
            ==> audit_issues(title, slug, meta_title, meta_description, body, image, content_type)[i].points_lost == 15 && audit_issues(title, slug, meta_title, meta_description, body, image, content_type)[i].severity == "error"@,
        has_code(audit_issues(title, slug, meta_title, meta_description, body, image, content_type), "meta_title_short"@) == ((if meta_title.len() == 0 { title } else { meta_title }).len() > 0 && utf8_len((if meta_title.len() == 0 { title } else { meta_title })) < 30),
        forall|i: int| 0 <= i < audit_issues(title, slug, meta_title, meta_description, body, image, content_type).len() && (#[trigger] audit_issues(title, slug, meta_title, meta_description, body, image, content_type)[i]).code == "meta_title_short"@
            ==> audit_issues(title, slug, meta_title, meta_description, body, image, content_type)[i].points_lost == 5 && audit_issues(title, slug, meta_title, meta_description, body, image, content_type)[i].severity == "warning"@,
        has_code(audit_issues(title, slug, meta_title, meta_description, body, image, content_type), "meta_title_long"@) == ((if meta_title.len() == 0 { title } else { meta_title }).len() > 0 && utf8_len((if meta_title.len() == 0 { title } else { meta_title })) > 70),
        forall|i: int| 0 <= i < audit_issues(title, slug, meta_title, meta_description, body, image, content_type).len() && (#[trigger] audit_issues(title, slug, meta_title, meta_description, body, image, content_type)[i]).code == "meta_title_long"@
            ==> audit_issues(title, slug, meta_title, meta_description, body, image, content_type)[i].points_lost == 3 && audit_issues(title, slug, meta_title, meta_description, body, image, content_type)[i].severity == "warning"@,
{
    lemma_code_groups();
    lemma_code_from_own_check(title, slug, meta_title, meta_description, body, image, content_type, "meta_title_missing"@);
    lemma_has_code_single(audit_part(title, slug, meta_title, meta_description, body, image, content_type, 1), "meta_title_missing"@);
    assert forall|i: int| 0 <= i < audit_issues(title, slug, meta_title, meta_description, body, image, content_type).len() && (#[trigger] audit_issues(title, slug, meta_title, meta_description, body, image, content_type)[i]).code == "meta_title_missing"@
        implies audit_issues(title, slug, meta_title, meta_description, body, image, content_type)[i].points_lost == 15 && audit_issues(title, slug, meta_title, meta_description, body, image, content_type)[i].severity == "error"@ by {
        lemma_issue_from_own_check(title, slug, meta_title, meta_description, body, image, content_type, i);
    }
    lemma_code_from_own_check(title, slug, meta_title, meta_description, body, image, content_type, "meta_title_short"@);
    lemma_has_code_single(audit_part(title, slug, meta_title, meta_description, body, image, content_type, 1), "meta_title_short"@);
    assert forall|i: int| 0 <= i < audit_issues(title, slug, meta_title, meta_description, body, image, content_type).len() && (#[trigger] audit_issues(title, slug, meta_title, meta_description, body, image, content_type)[i]).code == "meta_title_short"@
        implies audit_issues(title, slug, meta_title, meta_description, body, image, content_type)[i].points_lost == 5 && audit_issues(title, slug, meta_title, meta_description, body, image, content_type)[i].severity == "warning"@ by {
        lemma_issue_from_own_check(title, slug, meta_title, meta_description, body, image, content_type, i);
    }
    lemma_code_from_own_check(title, slug, meta_title, meta_description, body, image, content_type, "meta_title_long"@);
    lemma_has_code_single(audit_part(title, slug, meta_title, meta_description, body, image, content_type, 1), "meta_title_long"@);
    assert forall|i: int| 0 <= i < audit_issues(title, slug, meta_title, meta_description, body, image, content_type).len() && (#[trigger] audit_issues(title, slug, meta_title, meta_description, body, image, content_type)[i]).code == "meta_title_long"@
        implies audit_issues(title, slug, meta_title, meta_description, body, image, content_type)[i].points_lost == 3 && audit_issues(title, slug, meta_title, meta_description, body, image, content_type)[i].severity == "warning"@ by {
        lemma_issue_from_own_check(title, slug, meta_title, meta_description, body, image, content_type, i);
    }
}

/// The meta description check: `meta_desc_missing` (an error costing 15 points) when
/// it is empty, `meta_desc_short` (a warning costing 5) under 70 UTF-8 bytes,
/// `meta_desc_long` (a warning costing 3) over 170.
pub proof fn audit_description_check(
    title: Seq<char>,
    slug: Seq<char>,
    meta_title: Seq<char>,
    meta_description: Seq<char>,
    body: Seq<char>,
    image: Seq<char>,
    content_type: Seq<char>,
)
    ensures
        has_code(audit_issues(title, slug, meta_title, meta_description, body, image, content_type), "meta_desc_missing"@) == (meta_description.len() == 0),
        forall|i: int| 0 <= i < audit_issues(title, slug, meta_title, meta_description, body, image, content_type).len() && (#[trigger] audit_issues(title, slug, meta_title, meta_description, body, image, content_type)[i]).code == "meta_desc_missing"@
            ==> audit_issues(title, slug, meta_title, meta_description, body, image, content_type)[i].points_lost == 15 && audit_issues(title, slug, meta_title, meta_description, body, image, content_type)[i].severity == "error"@,
        has_code(audit_issues(title, slug, meta_title, meta_description, body, image, content_type), "meta_desc_short"@) == (meta_description.len() > 0 && utf8_len(meta_description) < 70),
        forall|i: int| 0 <= i < audit_issues(title, slug, meta_title, meta_description, body, image, content_type).len() && (#[trigger] audit_issues(title, slug, meta_title, meta_description, body, image, content_type)[i]).code == "meta_desc_short"@
            ==> audit_issues(title, slug, meta_title, meta_description, body, image, content_type)[i].points_lost == 5 && audit_issues(title, slug, meta_title, meta_description, body, image, content_type)[i].severity == "warning"@,
        has_code(audit_issues(title, slug, meta_title, meta_description, body, image, content_type), "meta_desc_long"@) == (meta_description.len() > 0 && utf8_len(meta_description) > 170),
        forall|i: int| 0 <= i < audit_issues(title, slug, meta_title, meta_description, body, image, content_type).len() && (#[trigger] audit_issues(title, slug, meta_title, meta_description, body, image, content_type)[i]).code == "meta_desc_long"@
            ==> audit_issues(title, slug, meta_title, meta_description, body, image, content_type)[i].points_lost == 3 && audit_issues(title, slug, meta_title, meta_description, body, image, content_type)[i].severity == "warning"@,
{
    lemma_code_groups();
    lemma_code_from_own_check(title, slug, meta_title, meta_description, body, image, content_type, "meta_desc_missing"@);
    lemma_has_code_single(audit_part(title, slug, meta_title, meta_description, body, image, content_type, 2), "meta_desc_missing"@);
    assert forall|i: int| 0 <= i < audit_issues(title, slug, meta_title, meta_description, body, image, content_type).len() && (#[trigger] audit_issues(title, slug, meta_title, meta_description, body, image, content_type)[i]).code == "meta_desc_missing"@
        implies audit_issues(title, slug, meta_title, meta_description, body, image, content_type)[i].points_lost == 15 && audit_issues(title, slug, meta_title, meta_description, body, image, content_type)[i].severity == "error"@ by {
        lemma_issue_from_own_check(title, slug, meta_title, meta_description, body, image, content_type, i);
    }
    lemma_code_from_own_check(title, slug, meta_title, meta_description, body, image, content_type, "meta_desc_short"@);
    lemma_has_code_single(audit_part(title, slug, meta_title, meta_description, body, image, content_type, 2), "meta_desc_short"@);
    assert forall|i: int| 0 <= i < audit_issues(title, slug, meta_title, meta_description, body, image, content_type).len() && (#[trigger] audit_issues(title, slug, meta_title, meta_description, body, image, content_type)[i]).code == "meta_desc_short"@
        implies audit_issues(title, slug, meta_title, meta_description, body, image, content_type)[i].points_lost == 5 && audit_issues(title, slug, meta_title, meta_description, body, image, content_type)[i].severity == "warning"@ by {
        lemma_issue_from_own_check(title, slug, meta_title, meta_description, body, image, content_type, i);
    }
    lemma_code_from_own_check(title, slug, meta_title, meta_description, body, image, content_type, "meta_desc_long"@);
    lemma_has_code_single(audit_part(title, slug, meta_title, meta_description, body, image, content_type, 2), "meta_desc_long"@);
    assert forall|i: int| 0 <= i < audit_issues(title, slug, meta_title, meta_description, body, image, content_type).len() && (#[trigger] audit_issues(title, slug, meta_title, meta_description, body, image, content_type)[i]).code == "meta_desc_long"@
        implies audit_issues(title, slug, meta_title, meta_description, body, image, content_type)[i].points_lost == 3 && audit_issues(title, slug, meta_title, meta_description, body, image, content_type)[i].severity == "warning"@ by {
        lemma_issue_from_own_check(title, slug, meta_title, meta_description, body, image, content_type, i);
    }
}

/// The slug check: `slug_missing` (an error costing 10 points) when it is empty,
/// `slug_long` (a warning costing 3) over 75 UTF-8 bytes.
pub proof fn audit_slug_check(
    title: Seq<char>,
    slug: Seq<char>,
    meta_title: Seq<char>,
    meta_description: Seq<char>,
    body: Seq<char>,
    image: Seq<char>,
    content_type: Seq<char>,
)
    ensures
        has_code(audit_issues(title, slug, meta_title, meta_description, body, image, content_type), "slug_missing"@) == (slug.len() == 0),
        forall|i: int| 0 <= i < audit_issues(title, slug, meta_title, meta_description, body, image, content_type).len() && (#[trigger] audit_issues(title, slug, meta_title, meta_description, body, image, content_type)[i]).code == "slug_missing"@
            ==> audit_issues(title, slug, meta_title, meta_description, body, image, content_type)[i].points_lost == 10 && audit_issues(title, slug, meta_title, meta_description, body, image, content_type)[i].severity == "error"@,
        has_code(audit_issues(title, slug, meta_title, meta_description, body, image, content_type), "slug_long"@) == (slug.len() > 0 && utf8_len(slug) > 75),
        forall|i: int| 0 <= i < audit_issues(title, slug, meta_title, meta_description, body, image, content_type).len() && (#[trigger] audit_issues(title, slug, meta_title, meta_description, body, image, content_type)[i]).code == "slug_long"@
            ==> audit_issues(title, slug, meta_title, meta_description, body, image, content_type)[i].points_lost == 3 && audit_issues(title, slug, meta_title, meta_description, body, image, content_type)[i].severity == "warning"@,
{
    lemma_code_groups();
    lemma_code_from_own_check(title, slug, meta_title, meta_description, body, image, content_type, "slug_missing"@);
    lemma_has_code_single(audit_part(title, slug, meta_title, meta_description, body, image, content_type, 3), "slug_missing"@);
    assert forall|i: int| 0 <= i < audit_issues(title, slug, meta_title, meta_description, body, image, content_type).len() && (#[trigger] audit_issues(title, slug, meta_title, meta_description, body, image, content_type)[i]).code == "slug_missing"@
        implies audit_issues(title, slug, meta_title, meta_description, body, image, content_type)[i].points_lost == 10 && audit_issues(title, slug, meta_title, meta_description, body, image, content_type)[i].severity == "error"@ by {
        lemma_issue_from_own_check(title, slug, meta_title, meta_description, body, image, content_type, i);
    }
    lemma_code_from_own_check(title, slug, meta_title, meta_description, body, image, content_type, "slug_long"@);
    lemma_has_code_single(audit_part(title, slug, meta_title, meta_description, body, image, content_type, 3), "slug_long"@);
    assert forall|i: int| 0 <= i < audit_issues(title, slug, meta_title, meta_description, body, image, content_type).len() && (#[trigger] audit_issues(title, slug, meta_title, meta_description, body, image, content_type)[i]).code == "slug_long"@
        implies audit_issues(title, slug, meta_title, meta_description, body, image, content_type)[i].points_lost == 3 && audit_issues(title, slug, meta_title, meta_description, body, image, content_type)[i].severity == "warning"@ by {
        lemma_issue_from_own_check(title, slug, meta_title, meta_description, body, image, content_type, i);
    }
}

/// The featured image check: `featured_image_missing` (a warning costing 10 points)
/// when the image is empty or `placeholder.jpg`.
pub proof fn audit_image_check(
    title: Seq<char>,
    slug: Seq<char>,
    meta_title: Seq<char>,
    meta_description: Seq<char>,
    body: Seq<char>,
    image: Seq<char>,
    content_type: Seq<char>,
)
    ensures
        has_code(audit_issues(title, slug, meta_title, meta_description, body, image, content_type), "featured_image_missing"@) == (image.len() == 0 || image == "placeholder.jpg"@),
        forall|i: int| 0 <= i < audit_issues(title, slug, meta_title, meta_description, body, image, content_type).len() && (#[trigger] audit_issues(title, slug, meta_title, meta_description, body, image, content_type)[i]).code == "featured_image_missing"@
            ==> audit_issues(title, slug, meta_title, meta_description, body, image, content_type)[i].points_lost == 10 && audit_issues(title, slug, meta_title, meta_description, body, image, content_type)[i].severity == "warning"@,
{
    lemma_code_groups();
    lemma_code_from_own_check(title, slug, meta_title, meta_description, body, image, content_type, "featured_image_missing"@);
    lemma_has_code_single(audit_part(title, slug, meta_title, meta_description, body, image, content_type, 4), "featured_image_missing"@);
    assert forall|i: int| 0 <= i < audit_issues(title, slug, meta_title, meta_description, body, image, content_type).len() && (#[trigger] audit_issues(title, slug, meta_title, meta_description, body, image, content_type)[i]).code == "featured_image_missing"@
        implies audit_issues(title, slug, meta_title, meta_description, body, image, content_type)[i].points_lost == 10 && audit_issues(title, slug, meta_title, meta_description, body, image, content_type)[i].severity == "warning"@ by {
        lemma_issue_from_own_check(title, slug, meta_title, meta_description, body, image, content_type, i);
    }
}

/// The content length check, on the words of the body's text: a post with none is
/// `content_empty` (an error costing 20 points), with under 100 `content_thin` (an error
/// costing 15), with under 300 `content_short` (a warning costing 5); any other item with
/// a non-empty body of under 20 words is `description_thin` (information costing 3).
pub proof fn audit_content_check(
    title: Seq<char>,
    slug: Seq<char>,
    meta_title: Seq<char>,
    meta_description: Seq<char>,
    body: Seq<char>,
    image: Seq<char>,
    content_type: Seq<char>,
)
    ensures
        has_code(audit_issues(title, slug, meta_title, meta_description, body, image, content_type), "content_empty"@) == (content_type == "post"@ && word_count(strip_html(body)) == 0),
        forall|i: int| 0 <= i < audit_issues(title, slug, meta_title, meta_description, body, image, content_type).len() && (#[trigger] audit_issues(title, slug, meta_title, meta_description, body, image, content_type)[i]).code == "content_empty"@
            ==> audit_issues(title, slug, meta_title, meta_description, body, image, content_type)[i].points_lost == 20 && audit_issues(title, slug, meta_title, meta_description, body, image, content_type)[i].severity == "error"@,
        has_code(audit_issues(title, slug, meta_title, meta_description, body, image, content_type), "content_thin"@) == (content_type == "post"@ && 0 < word_count(strip_html(body)) < 100),
        forall|i: int| 0 <= i < audit_issues(title, slug, meta_title, meta_description, body, image, content_type).len() && (#[trigger] audit_issues(title, slug, meta_title, meta_description, body, image, content_type)[i]).code == "content_thin"@
            ==> audit_issues(title, slug, meta_title, meta_description, body, image, content_type)[i].points_lost == 15 && audit_issues(title, slug, meta_title, meta_description, body, image, content_type)[i].severity == "error"@,
        has_code(audit_issues(title, slug, meta_title, meta_description, body, image, content_type), "content_short"@) == (content_type == "post"@ && 100 <= word_count(strip_html(body)) < 300),
        forall|i: int| 0 <= i < audit_issues(title, slug, meta_title, meta_description, body, image, content_type).len() && (#[trigger] audit_issues(title, slug, meta_title, meta_description, body, image, content_type)[i]).code == "content_short"@
            ==> audit_issues(title, slug, meta_title, meta_description, body, image, content_type)[i].points_lost == 5 && audit_issues(title, slug, meta_title, meta_description, body, image, content_type)[i].severity == "warning"@,
        has_code(audit_issues(title, slug, meta_title, meta_description, body, image, content_type), "description_thin"@) == (content_type != "post"@ && word_count(strip_html(body)) < 20 && body.len() != 0),
        forall|i: int| 0 <= i < audit_issues(title, slug, meta_title, meta_description, body, image, content_type).len() && (#[trigger] audit_issues(title, slug, meta_title, meta_description, body, image, content_type)[i]).code == "description_thin"@
            ==> audit_issues(title, slug, meta_title, meta_description, body, image, content_type)[i].points_lost == 3 && audit_issues(title, slug, meta_title, meta_description, body, image, content_type)[i].severity == "info"@,
{
    lemma_code_groups();
    lemma_code_from_own_check(title, slug, meta_title, meta_description, body, image, content_type, "content_empty"@);
    lemma_has_code_single(audit_part(title, slug, meta_title, meta_description, body, image, content_type, 5), "content_empty"@);
    assert forall|i: int| 0 <= i < audit_issues(title, slug, meta_title, meta_description, body, image, content_type).len() && (#[trigger] audit_issues(title, slug, meta_title, meta_description, body, image, content_type)[i]).code == "content_empty"@
        implies audit_issues(title, slug, meta_title, meta_description, body, image, content_type)[i].points_lost == 20 && audit_issues(title, slug, meta_title, meta_description, body, image, content_type)[i].severity == "error"@ by {
        lemma_issue_from_own_check(title, slug, meta_title, meta_description, body, image, content_type, i);
    }
    lemma_code_from_own_check(title, slug, meta_title, meta_description, body, image, content_type, "content_thin"@);
    lemma_has_code_single(audit_part(title, slug, meta_title, meta_description, body, image, content_type, 5), "content_thin"@);
    assert forall|i: int| 0 <= i < audit_issues(title, slug, meta_title, meta_description, body, image, content_type).len() && (#[trigger] audit_issues(title, slug, meta_title, meta_description, body, image, content_type)[i]).code == "content_thin"@
        implies audit_issues(title, slug, meta_title, meta_description, body, image, content_type)[i].points_lost == 15 && audit_issues(title, slug, meta_title, meta_description, body, image, content_type)[i].severity == "error"@ by {
        lemma_issue_from_own_check(title, slug, meta_title, meta_description, body, image, content_type, i);
    }
    lemma_code_from_own_check(title, slug, meta_title, meta_description, body, image, content_type, "content_short"@);
    lemma_has_code_single(audit_part(title, slug, meta_title, meta_description, body, image, content_type, 5), "content_short"@);
    assert forall|i: int| 0 <= i < audit_issues(title, slug, meta_title, meta_description, body, image, content_type).len() && (#[trigger] audit_issues(title, slug, meta_title, meta_description, body, image, content_type)[i]).code == "content_short"@
        implies audit_issues(title, slug, meta_title, meta_description, body, image, content_type)[i].points_lost == 5 && audit_issues(title, slug, meta_title, meta_description, body, image, content_type)[i].severity == "warning"@ by {
        lemma_issue_from_own_check(title, slug, meta_title, meta_description, body, image, content_type, i);
    }
    lemma_code_from_own_check(title, slug, meta_title, meta_description, body, image, content_type, "description_thin"@);
    lemma_has_code_single(audit_part(title, slug, meta_title, meta_description, body, image, content_type, 5), "description_thin"@);
    assert forall|i: int| 0 <= i < audit_issues(title, slug, meta_title, meta_description, body, image, content_type).len() && (#[trigger] audit_issues(title, slug, meta_title, meta_description, body, image, content_type)[i]).code == "description_thin"@
        implies audit_issues(title, slug, meta_title, meta_description, body, image, content_type)[i].points_lost == 3 && audit_issues(title, slug, meta_title, meta_description, body, image, content_type)[i].severity == "info"@ by {
        lemma_issue_from_own_check(title, slug, meta_title, meta_description, body, image, content_type, i);
    }
}

/// The headings check: a post with more than 100 words whose body holds neither `<h2`
/// nor `<H2` is `no_headings` (a warning costing 5 points).
pub proof fn audit_headings_check(
    title: Seq<char>,
    slug: Seq<char>,
    meta_title: Seq<char>,
    meta_description: Seq<char>,
    body: Seq<char>,
    image: Seq<char>,
    content_type: Seq<char>,
)
    ensures
        has_code(audit_issues(title, slug, meta_title, meta_description, body, image, content_type), "no_headings"@) == (content_type == "post"@ && word_count(strip_html(body)) > 100 && !contains(body, "<h2"@) && !contains(body, "<H2"@)),
        forall|i: int| 0 <= i < audit_issues(title, slug, meta_title, meta_description, body, image, content_type).len() && (#[trigger] audit_issues(title, slug, meta_title, meta_description, body, image, content_type)[i]).code == "no_headings"@
            ==> audit_issues(title, slug, meta_title, meta_description, body, image, content_type)[i].points_lost == 5 && audit_issues(title, slug, meta_title, meta_description, body, image, content_type)[i].severity == "warning"@,
{
    lemma_code_groups();
    lemma_code_from_own_check(title, slug, meta_title, meta_description, body, image, content_type, "no_headings"@);
    lemma_has_code_single(audit_part(title, slug, meta_title, meta_description, body, image, content_type, 6), "no_headings"@);
    assert forall|i: int| 0 <= i < audit_issues(title, slug, meta_title, meta_description, body, image, content_type).len() && (#[trigger] audit_issues(title, slug, meta_title, meta_description, body, image, content_type)[i]).code == "no_headings"@
        implies audit_issues(title, slug, meta_title, meta_description, body, image, content_type)[i].points_lost == 5 && audit_issues(title, slug, meta_title, meta_description, body, image, content_type)[i].severity == "warning"@ by {
        lemma_issue_from_own_check(title, slug, meta_title, meta_description, body, image, content_type, i);
    }
}

/// The image alt check: a body with an `<img ` tag, at least one of which (read in
/// lowercase) has no `alt=`, is `images_missing_alt` (a warning costing 5 points).
pub proof fn audit_alt_check(
    title: Seq<char>,
    slug: Seq<char>,
    meta_title: Seq<char>,
    meta_description: Seq<char>,
    body: Seq<char>,
    image: Seq<char>,
    content_type: Seq<char>,
)
    ensures
        has_code(audit_issues(title, slug, meta_title, meta_description, body, image, content_type), "images_missing_alt"@) == (count_matches(body, "<img "@) > 0 && imgs_without_alt_from(lowercase(body), 0) > 0),
        forall|i: int| 0 <= i < audit_issues(title, slug, meta_title, meta_description, body, image, content_type).len() && (#[trigger] audit_issues(title, slug, meta_title, meta_description, body, image, content_type)[i]).code == "images_missing_alt"@
            ==> audit_issues(title, slug, meta_title, meta_description, body, image, content_type)[i].points_lost == 5 && audit_issues(title, slug, meta_title, meta_description, body, image, content_type)[i].severity == "warning"@,
{
    lemma_code_groups();
    lemma_code_from_own_check(title, slug, meta_title, meta_description, body, image, content_type, "images_missing_alt"@);
    lemma_has_code_single(audit_part(title, slug, meta_title, meta_description, body, image, content_type, 7), "images_missing_alt"@);
    assert forall|i: int| 0 <= i < audit_issues(title, slug, meta_title, meta_description, body, image, content_type).len() && (#[trigger] audit_issues(title, slug, meta_title, meta_description, body, image, content_type)[i]).code == "images_missing_alt"@
        implies audit_issues(title, slug, meta_title, meta_description, body, image, content_type)[i].points_lost == 5 && audit_issues(title, slug, meta_title, meta_description, body, image, content_type)[i].severity == "warning"@ by {
        lemma_issue_from_own_check(title, slug, meta_title, meta_description, body, image, content_type, i);
    }
}

/// The links check: a post with more than 200 words whose body holds no `<a ` is
/// `no_links` (information costing 3 points).
pub proof fn audit_links_check(
    title: Seq<char>,
    slug: Seq<char>,
    meta_title: Seq<char>,
    meta_description: Seq<char>,
    body: Seq<char>,
    image: Seq<char>,
    content_type: Seq<char>,
)
    ensures
        has_code(audit_issues(title, slug, meta_title, meta_description, body, image, content_type), "no_links"@) == (content_type == "post"@ && word_count(strip_html(body)) > 200 && !contains(body, "<a "@)),
        forall|i: int| 0 <= i < audit_issues(title, slug, meta_title, meta_description, body, image, content_type).len() && (#[trigger] audit_issues(title, slug, meta_title, meta_description, body, image, content_type)[i]).code == "no_links"@
            ==> audit_issues(title, slug, meta_title, meta_description, body, image, content_type)[i].points_lost == 3 && audit_issues(title, slug, meta_title, meta_description, body, image, content_type)[i].severity == "info"@,
{
    lemma_code_groups();
    lemma_code_from_own_check(title, slug, meta_title, meta_description, body, image, content_type, "no_links"@);
    lemma_has_code_single(audit_part(title, slug, meta_title, meta_description, body, image, content_type, 8), "no_links"@);
    assert forall|i: int| 0 <= i < audit_issues(title, slug, meta_title, meta_description, body, image, content_type).len() && (#[trigger] audit_issues(title, slug, meta_title, meta_description, body, image, content_type)[i]).code == "no_links"@
        implies audit_issues(title, slug, meta_title, meta_description, body, image, content_type)[i].points_lost == 3 && audit_issues(title, slug, meta_title, meta_description, body, image, content_type)[i].severity == "info"@ by {
        lemma_issue_from_own_check(title, slug, meta_title, meta_description, body, image, content_type, i);
    }
}

/// The score is 100 less the points lost, kept within 0..=100; the grade is `good`
/// from 80, `needs_work` from 50, and `poor` below 50.
pub proof fn score_and_grade_thresholds(points: int, score: int)
    ensures
        0 <= points <= 100 ==> score_of(points) == 100 - points,
        points > 100 ==> score_of(points) == 0,
        points < 0 ==> score_of(points) == 100,
        score >= 80 ==> grade_of(score) == "good"@,
        50 <= score < 80 ==> grade_of(score) == "needs_work"@,
        score < 50 ==> grade_of(score) == "poor"@,
{
}

} // verus!
