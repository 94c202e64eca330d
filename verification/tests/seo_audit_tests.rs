use velocty::seo_audit::{
    compute_score, compute_score_checked, count_images_without_alt, count_pattern, count_words,
    strip_html_tags, SeoInput,
};

fn make_input<'a>(
    title: &'a str,
    meta_title: &'a str,
    meta_desc: &'a str,
    body: &'a str,
    image: &'a str,
    content_type: &'a str,
) -> SeoInput<'a> {
    SeoInput {
        title,
        slug: "test-slug",
        meta_title,
        meta_description: meta_desc,
        body_html: body,
        featured_image: image,
        content_type,
    }
}

#[test]
fn perfect_post_scores_100() {
    let body = "<h2>Introduction</h2><p>".to_string()
        + &"word ".repeat(350)
        + "</p><a href='/other'>link</a><img src='x.jpg' alt='photo'>";
    let input = make_input(
        "A Great Title That Is Fifty Characters Long Exactly",
        "A Great Title That Is Fifty Characters Long Exactly",
        "This is a meta description that is between 120 and 160 characters long, which is the ideal length for search engine results pages.",
        &body,
        "photo.jpg",
        "post",
    );
    let result = compute_score(&input);
    assert_eq!(result.score, 100);
    assert_eq!(result.grade, "good");
    assert!(result.issues.is_empty());
}

#[test]
fn missing_everything_scores_low() {
    let input = make_input("", "", "", "", "", "post");
    let result = compute_score(&input);
    assert!(result.score < 50);
    assert_eq!(result.grade, "poor");
    assert!(result.issues.len() >= 3);
}

#[test]
fn missing_meta_desc_deducts_15() {
    let body = "<h2>Heading</h2><p>".to_string() + &"word ".repeat(350) + "</p><a href='/x'>link</a>";
    let input = make_input(
        "A Good Title That Is Long Enough For SEO",
        "A Good Title That Is Long Enough For SEO",
        "",
        &body,
        "photo.jpg",
        "post",
    );
    let result = compute_score(&input);
    assert_eq!(result.score, 85);
    assert!(result.issues.iter().any(|i| i.code == "meta_desc_missing"));
}

#[test]
fn thin_content_deducts() {
    let input = make_input(
        "A Good Title That Is Long Enough For SEO",
        "A Good Title That Is Long Enough For SEO",
        "A good meta description that is between 120 and 160 characters long for search engine optimization purposes here.",
        "<p>Short post.</p>",
        "photo.jpg",
        "post",
    );
    let result = compute_score(&input);
    assert!(result.issues.iter().any(|i| i.code == "content_thin"));
}

#[test]
fn portfolio_without_image_deducts() {
    let input = make_input(
        "My Portfolio Item",
        "My Portfolio Item With Good Title",
        "A description for this portfolio item that is long enough to pass the check.",
        "",
        "placeholder.jpg",
        "portfolio",
    );
    let result = compute_score(&input);
    assert!(result.issues.iter().any(|i| i.code == "featured_image_missing"));
}

#[test]
fn images_without_alt_detected() {
    let body = "<p>Text</p><img src='a.jpg'><img src='b.jpg' alt='good'><img src='c.jpg' alt=''>";
    let input = make_input(
        "Title That Is Long Enough For Good SEO Score",
        "Title That Is Long Enough For Good SEO Score",
        "A meta description that is between 120 and 160 characters long for search engine optimization purposes here today.",
        body,
        "photo.jpg",
        "post",
    );
    let result = compute_score(&input);
    assert!(result.issues.iter().any(|i| i.code == "images_missing_alt"));
}

#[test]
fn strip_html_works() {
    assert_eq!(strip_html_tags("<p>Hello <b>world</b></p>").trim(), "Hello  world");
}

#[test]
fn count_words_works() {
    assert_eq!(count_words("Hello world, this is a test"), 6);
    assert_eq!(count_words(""), 0);
}

#[test]
fn grade_boundaries() {
    let body = "<h2>H</h2><p>".to_string() + &"word ".repeat(350) + "</p><a href='/x'>l</a>";
    let input = make_input(
        "Title That Is Long Enough",
        "Title That Is Long Enough",
        "A meta description that is between 120 and 160 characters long for search engine optimization purposes here today.",
        &body,
        "photo.jpg",
        "post",
    );
    let r = compute_score(&input);
    assert_eq!(r.grade, "good");
}

#[test]
fn score_is_100_minus_points_lost() {
    let input = make_input("", "", "", "", "", "post");
    let r = compute_score(&input);
    let lost: i32 = r.issues.iter().map(|i| i.points_lost).sum();
    assert_eq!(r.score, (100 - lost).max(0));
    assert!(r.score >= 0 && r.score <= 100);
}

#[test]
fn count_pattern_counts_non_overlapping() {
    assert_eq!(count_pattern("aaaa", "aa"), 2);
    assert_eq!(count_pattern("<h2>a</h2><h2>b</h2>", "<h2"), 2);
    assert_eq!(count_pattern("abc", "x"), 0);
}

#[test]
fn count_images_without_alt_counts_missing_and_empty() {
    let html = "<img src='a.jpg'><img src='b.jpg' alt='good'><img src='c.jpg' alt=''>";
    assert_eq!(count_images_without_alt(html), 2);
    assert_eq!(count_images_without_alt("<p>no images</p>"), 0);
}

#[test]
fn unscannable_body_is_refused_by_checked_scoring() {
    let input = make_input("T", "T", "D", "<img src='a.jpg'", "x.jpg", "post");
    assert!(compute_score_checked(&input).is_none());
    let ok = make_input("T", "T", "D", "<p>x</p>", "x.jpg", "post");
    assert!(compute_score_checked(&ok).is_some());
}

#[test]
fn each_check_reports_once_with_points() {
    let input = make_input("", "", "", "<p>short</p><img src=\"a.png\">", "", "post");
    let audit = compute_score(&input);
    let codes: Vec<&str> = audit.issues.iter().map(|i| i.code.as_str()).collect();
    for (i, a) in codes.iter().enumerate() {
        for b in &codes[i + 1..] {
            assert_ne!(a, b);
        }
    }
    for issue in &audit.issues {
        assert!(issue.points_lost > 0);
        assert!(["error", "warning", "info"].contains(&issue.severity.as_str()));
    }
    assert!(codes.contains(&"meta_desc_missing"));
    assert!(codes.contains(&"featured_image_missing"));
    let filled = make_input("t", "", "a description", "<p>x</p>", "photo.jpg", "post");
    let audit = compute_score(&filled);
    assert!(audit.issues.iter().all(|i| i.code != "meta_desc_missing" && i.code != "featured_image_missing"));
}
