use velocty::svg::{has_dangerous_uri, is_dangerous_attribute, is_dangerous_element, sanitize_svg};

#[test]
fn test_clean_svg_passes_through() {
    let svg = br#"<svg xmlns="http://www.w3.org/2000/svg" viewBox="0 0 100 100"><circle cx="50" cy="50" r="40" fill="red"/></svg>"#;
    let result = sanitize_svg(svg).unwrap();
    let out = String::from_utf8(result).unwrap();
    assert!(out.contains("<circle"));
    assert!(out.contains("fill=\"red\""));
}

#[test]
fn test_strips_script_element() {
    let svg = br#"<svg xmlns="http://www.w3.org/2000/svg"><script>alert('xss')</script><circle cx="50" cy="50" r="40"/></svg>"#;
    let result = sanitize_svg(svg).unwrap();
    let out = String::from_utf8(result).unwrap();
    assert!(!out.contains("<script"));
    assert!(!out.contains("alert"));
    assert!(out.contains("<circle"));
}

#[test]
fn test_strips_event_handlers() {
    let svg = br#"<svg xmlns="http://www.w3.org/2000/svg"><circle cx="50" cy="50" r="40" onload="alert(1)" onclick="evil()"/></svg>"#;
    let result = sanitize_svg(svg).unwrap();
    let out = String::from_utf8(result).unwrap();
    assert!(!out.contains("onload"));
    assert!(!out.contains("onclick"));
    assert!(out.contains("<circle"));
}

#[test]
fn test_strips_javascript_href() {
    let svg = br#"<svg xmlns="http://www.w3.org/2000/svg"><a href="javascript:alert(1)"><text>click</text></a></svg>"#;
    let result = sanitize_svg(svg).unwrap();
    let out = String::from_utf8(result).unwrap();
    assert!(!out.contains("javascript:"));
}

#[test]
fn test_strips_foreignobject() {
    let svg = br#"<svg xmlns="http://www.w3.org/2000/svg"><foreignObject><body xmlns="http://www.w3.org/1999/xhtml"><script>alert(1)</script></body></foreignObject></svg>"#;
    let result = sanitize_svg(svg).unwrap();
    let out = String::from_utf8(result).unwrap();
    assert!(!out.contains("foreignObject"));
    assert!(!out.contains("foreignobject"));
    assert!(!out.contains("<script"));
}

#[test]
fn test_strips_external_use() {
    let svg = br#"<svg xmlns="http://www.w3.org/2000/svg"><use href="https://evil.com/sprite.svg#icon"/></svg>"#;
    let result = sanitize_svg(svg).unwrap();
    let out = String::from_utf8(result).unwrap();
    assert!(!out.contains("evil.com"));
}

#[test]
fn test_allows_internal_use() {
    let svg = b"<svg xmlns=\"http://www.w3.org/2000/svg\"><defs><circle id=\"c\" cx=\"50\" cy=\"50\" r=\"40\"/></defs><use href=\"#c\"/></svg>";
    let result = sanitize_svg(svg).unwrap();
    let out = String::from_utf8(result).unwrap();
    assert!(out.contains("use"));
    assert!(out.contains("#c"));
}

#[test]
fn test_strips_data_uri_href() {
    let svg = br#"<svg xmlns="http://www.w3.org/2000/svg"><a href="data:text/html,<script>alert(1)</script>"><text>x</text></a></svg>"#;
    let result = sanitize_svg(svg).unwrap();
    let out = String::from_utf8(result).unwrap();
    assert!(!out.contains("data:text/html"));
}

#[test]
fn test_strips_style_expression() {
    let svg = br#"<svg xmlns="http://www.w3.org/2000/svg"><rect style="width:expression(alert(1))" width="100" height="100"/></svg>"#;
    let result = sanitize_svg(svg).unwrap();
    let out = String::from_utf8(result).unwrap();
    assert!(!out.contains("expression("));
}

#[test]
fn test_strips_comments() {
    let svg = br#"<svg xmlns="http://www.w3.org/2000/svg"><!-- [if IE]><script>alert(1)</script><![endif] --><circle cx="50" cy="50" r="40"/></svg>"#;
    let result = sanitize_svg(svg).unwrap();
    let out = String::from_utf8(result).unwrap();
    assert!(!out.contains("<!--"));
    assert!(!out.contains("alert"));
    assert!(out.contains("<circle"));
}

#[test]
fn test_strips_iframe_element() {
    let svg = br#"<svg xmlns="http://www.w3.org/2000/svg"><iframe src="https://evil.com"/></svg>"#;
    let result = sanitize_svg(svg).unwrap();
    let out = String::from_utf8(result).unwrap();
    assert!(!out.contains("iframe"));
}

#[test]
fn test_strips_embed_element() {
    let svg = br#"<svg xmlns="http://www.w3.org/2000/svg"><embed src="evil.swf"/></svg>"#;
    let result = sanitize_svg(svg).unwrap();
    let out = String::from_utf8(result).unwrap();
    assert!(!out.contains("embed"));
}

#[test]
fn dangerous_element_list() {
    assert!(is_dangerous_element("script"));
    assert!(is_dangerous_element("foreignobject"));
    assert!(is_dangerous_element("animatemotion"));
    assert!(!is_dangerous_element("circle"));
    assert!(!is_dangerous_element("Script"));
}

#[test]
fn event_handler_attributes() {
    assert!(is_dangerous_attribute("onclick"));
    assert!(is_dangerous_attribute("ONLOAD"));
    assert!(!is_dangerous_attribute("on"));
    assert!(!is_dangerous_attribute("fill"));
}

#[test]
fn dangerous_uri_schemes() {
    assert!(has_dangerous_uri("  JavaScript:alert(1)"));
    assert!(has_dangerous_uri("data:application/x-evil"));
    assert!(has_dangerous_uri("vbscript:x"));
    assert!(!has_dangerous_uri("https://example.com"));
    assert!(!has_dangerous_uri("data:image/png;base64,AAAA"));
}

#[test]
fn processing_instruction_and_doctype_dropped() {
    let svg = br#"<?xml version="1.0"?><?foo bar?><!DOCTYPE svg><svg xmlns="http://www.w3.org/2000/svg"><g/></svg>"#;
    let out = String::from_utf8(sanitize_svg(svg).unwrap()).unwrap();
    assert!(out.contains("<?xml"));
    assert!(!out.contains("<?foo"));
    assert!(!out.contains("DOCTYPE"));
    assert!(out.contains("<g"));
}

#[test]
fn malformed_svg_is_refused() {
    assert!(sanitize_svg(b"<svg><g></svg>").is_none());
}

#[test]
fn rebuilt_tags_are_written_exactly() {
    let out = velocty::svg::sanitize_svg(br#"<svg a="x&amp;y" onload="z" b='q"r'><g/></svg>"#).unwrap();
    assert_eq!(
        String::from_utf8(out).unwrap(),
        "<svg a=\"x&amp;amp;y\" b=\"q&quot;r\"><g/></svg>"
    );
    assert_eq!(velocty::svg::sanitize_svg(b"<svg><a></b></svg>"), None);
}
