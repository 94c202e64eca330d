use velocty::firewall::{
    bot_ban_due, cleanup_due, contains_path_traversal, contains_sqli, contains_xss,
    firewall_client_ip, firewall_exempt, firewall_rate_limited, firewall_scan, firewall_skips_path,
    is_proxy_ip, is_suspicious_bot, security_headers, threat_detail, threat_kind, ForwardHeaders,
    FwRateLimiter, FwThreat, NANOS_PER_SEC,
};
use velocty::firewall::{firewall_admit, firewall_bot_ban, firewall_response_headers, firewall_verdict, FwVerdict};
use velocty::settings::Settings;

fn settings(pairs: &[(&str, &str)]) -> Settings {
    let mut s = Settings::new();
    for (k, v) in pairs {
        s.insert(k.to_string(), v.to_string());
    }
    s
}

fn no_headers() -> ForwardHeaders {
    ForwardHeaders { cf_connecting_ip: None, true_client_ip: None, x_real_ip: None, x_forwarded_for: None }
}

#[test]
fn xss_patterns() {
    assert!(contains_xss("<SCRIPT>alert(1)</script>"));
    assert!(contains_xss("a onerror=b"));
    assert!(contains_xss("EVAL(x)"));
    assert!(!contains_xss("hello world"));
}

#[test]
fn sqli_patterns() {
    assert!(contains_sqli("1 UNION SELECT password"));
    assert!(contains_sqli("x' or '1'='1"));
    assert!(contains_sqli("waitfor delay '0:0:5'"));
    assert!(!contains_sqli("select your plan"));
}

#[test]
fn traversal_patterns() {
    assert!(contains_path_traversal("/../../etc/passwd"));
    assert!(contains_path_traversal("%2E%2E/x"));
    assert!(contains_path_traversal("C:\\Windows\\system32"));
    assert!(!contains_path_traversal("/blog/post"));
}

#[test]
fn bot_detection() {
    assert!(is_suspicious_bot(""));
    assert!(is_suspicious_bot("sqlmap/1.0"));
    assert!(is_suspicious_bot("curl"));
    assert!(is_suspicious_bot("python-requests scanner"));
    assert!(!is_suspicious_bot("python-requests/2.31"));
    assert!(!is_suspicious_bot("curl/8.0"));
    assert!(!is_suspicious_bot("Mozilla/5.0 (X11; Linux x86_64)"));
}

#[test]
fn rate_limiter_blocks_after_limit() {
    let mut l = FwRateLimiter::new();
    let t0 = 5 * NANOS_PER_SEC;
    assert!(!l.check("1.1.1.1", 2, 60, t0));
    assert!(!l.check("1.1.1.1", 2, 60, t0 + 1));
    assert!(l.check("1.1.1.1", 2, 60, t0 + 2));
    // Another address is counted on its own.
    assert!(!l.check("2.2.2.2", 2, 60, t0 + 3));
    assert_eq!(l.entry("1.1.1.1"), Some((3, t0)));
    // A full window later the address starts over.
    assert!(!l.check("1.1.1.1", 2, 60, t0 + 60 * NANOS_PER_SEC));
    assert_eq!(l.entry("1.1.1.1"), Some((1, t0 + 60 * NANOS_PER_SEC)));
}

#[test]
fn rate_limiter_cleanup_drops_stale_entries() {
    let mut l = FwRateLimiter::new();
    l.check("a", 10, 60, 0);
    l.check("b", 10, 60, 500 * NANOS_PER_SEC);
    l.cleanup(700 * NANOS_PER_SEC);
    assert_eq!(l.entry("a"), None);
    assert_eq!(l.entry("b"), Some((1, 500 * NANOS_PER_SEC)));
}

#[test]
fn rate_limit_settings() {
    let mut l = FwRateLimiter::new();
    assert!(!firewall_rate_limited(&mut l, "x", "1", "bad", 0));
    assert!(firewall_rate_limited(&mut l, "x", "1", "bad", 1));
    assert!(cleanup_due(0));
    assert!(cleanup_due(400));
    assert!(!cleanup_due(201));
    assert!(bot_ban_due("", 10));
    assert!(!bot_ban_due("20", 19));
}

#[test]
fn firewall_client_addresses() {
    let mut h = no_headers();
    h.x_forwarded_for = Some(" 9.9.9.9, 10.0.0.1".to_string());
    assert_eq!(firewall_client_ip("127.0.0.1", &h), "9.9.9.9");
    assert_eq!(firewall_client_ip("8.8.8.8", &h), "8.8.8.8");
    h.cf_connecting_ip = Some(" 4.4.4.4 ".to_string());
    assert_eq!(firewall_client_ip("192.168.1.2", &h), "4.4.4.4");
    assert!(is_proxy_ip("10.1.2.3"));
    assert!(!is_proxy_ip("11.1.2.3"));
    assert!(firewall_exempt("127.0.0.1", "127.0.0.1"));
    assert!(!firewall_exempt("127.0.0.1", "4.4.4.4"));
    assert!(firewall_skips_path("/static/app.js"));
    assert!(firewall_skips_path("/favicon.ico"));
    assert!(!firewall_skips_path("/blog"));
}

#[test]
fn firewall_scans_requests() {
    let (text, t) = firewall_scan("/search", "q=<script>", true, true, true);
    assert_eq!(text, "/search q=<script>");
    assert_eq!(t, Some(FwThreat::Xss));
    assert_eq!(firewall_scan("/search", "q=<script>", false, true, true).1, None);
    assert_eq!(firewall_scan("/x", "id=1 union select 2", true, true, true).1, Some(FwThreat::Sqli));
    assert_eq!(threat_kind(FwThreat::PathTraversal), "path_traversal");
    assert_eq!(threat_detail(FwThreat::Sqli), "SQL injection attempt detected");
}

#[test]
fn security_header_set() {
    assert!(security_headers(false, "https://x").is_empty());
    let h = security_headers(true, "http://x");
    assert_eq!(h.len(), 5);
    assert_eq!(h[0], ("X-Frame-Options", "SAMEORIGIN"));
    let hs = security_headers(true, "https://x");
    assert_eq!(hs[5], ("Strict-Transport-Security", "max-age=31536000; includeSubDomains"));
}

#[test]
fn admit_only_when_enabled() {
    let off = settings(&[]);
    assert_eq!(firewall_admit(&off, "/blog", "8.8.8.8", &no_headers()), None);
    let on = settings(&[("firewall_enabled", "true")]);
    assert_eq!(firewall_admit(&on, "/blog", "8.8.8.8", &no_headers()), Some("8.8.8.8".to_string()));
    assert_eq!(firewall_admit(&on, "/static/app.css", "8.8.8.8", &no_headers()), None);
    assert_eq!(firewall_admit(&on, "/favicon.ico", "8.8.8.8", &no_headers()), None);
    assert_eq!(firewall_admit(&on, "/blog", "127.0.0.1", &no_headers()), None);
    let fwd = ForwardHeaders { x_real_ip: Some(" 9.9.9.9 ".to_string()), ..no_headers() };
    assert_eq!(firewall_admit(&on, "/blog", "127.0.0.1", &fwd), Some("9.9.9.9".to_string()));
}

#[test]
fn verdict_rate_limit_then_ban_duration() {
    let s = settings(&[("fw_rate_limit_requests", "2"), ("fw_rate_limit_ban_duration", "2h")]);
    let mut l = FwRateLimiter::new();
    for n in 1..3u64 {
        assert!(matches!(firewall_verdict(&s, &mut l, "1.2.3.4", "/", "", "Firefox", n, n), FwVerdict::Pass));
    }
    match firewall_verdict(&s, &mut l, "1.2.3.4", "/", "", "Firefox", 3, 3) {
        FwVerdict::RateLimited { ban_duration } => assert_eq!(ban_duration, "2h"),
        _ => panic!("expected a rate limit"),
    }
    assert_eq!(l.entry("1.2.3.4"), Some((3, 1)));
}

#[test]
fn verdict_rate_limit_off_leaves_limiter() {
    let s = settings(&[("fw_rate_limit_enabled", "false"), ("fw_rate_limit_requests", "0")]);
    let mut l = FwRateLimiter::new();
    assert!(matches!(firewall_verdict(&s, &mut l, "1.2.3.4", "/", "", "Firefox", 0, 0), FwVerdict::Pass));
    assert_eq!(l.entry("1.2.3.4"), None);
}

#[test]
fn verdict_sweeps_on_every_200th_request() {
    let s = settings(&[]);
    let mut l = FwRateLimiter::new();
    let _ = firewall_verdict(&s, &mut l, "5.5.5.5", "/", "", "Firefox", 1, 0);
    let later = 700 * NANOS_PER_SEC;
    let _ = firewall_verdict(&s, &mut l, "6.6.6.6", "/", "", "Firefox", 200, later);
    assert_eq!(l.entry("5.5.5.5"), None);
    assert_eq!(l.entry("6.6.6.6"), Some((1, later)));
}

#[test]
fn verdict_injection_in_order() {
    let s = settings(&[("fw_injection_ban_duration", "30d")]);
    let mut l = FwRateLimiter::new();
    match firewall_verdict(&s, &mut l, "1.1.1.1", "/search", "q=<script>", "Firefox", 1, 0) {
        FwVerdict::Injection { threat, inspected, ban_duration } => {
            assert_eq!(threat, FwThreat::Xss);
            assert_eq!(inspected, "/search q=<script>");
            assert_eq!(ban_duration, "30d");
        }
        _ => panic!("expected an injection"),
    }
    let no_xss = settings(&[("fw_xss_protection", "false")]);
    match firewall_verdict(&no_xss, &mut l, "1.1.1.2", "/search", "q=<script>../", "Firefox", 2, 0) {
        FwVerdict::Injection { threat, ban_duration, .. } => {
            assert_eq!(threat, FwThreat::PathTraversal);
            assert_eq!(ban_duration, "7d");
        }
        _ => panic!("expected a traversal"),
    }
}

#[test]
fn verdict_bot_and_auto_ban() {
    let mut l = FwRateLimiter::new();
    let s = settings(&[]);
    assert!(matches!(
        firewall_verdict(&s, &mut l, "2.2.2.2", "/", "", "sqlmap/1.0", 1, 0),
        FwVerdict::SuspiciousBot { auto_ban: false }
    ));
    let ban = settings(&[("fw_bot_auto_ban", "true")]);
    assert!(matches!(
        firewall_verdict(&ban, &mut l, "2.2.2.3", "/", "", "", 2, 0),
        FwVerdict::SuspiciousBot { auto_ban: true }
    ));
    let quiet = settings(&[("fw_monitor_bots", "no")]);
    assert!(matches!(firewall_verdict(&quiet, &mut l, "2.2.2.4", "/", "", "curl", 3, 0), FwVerdict::Pass));
    assert_eq!(firewall_bot_ban(&s, 9), None);
    assert_eq!(firewall_bot_ban(&s, 10), Some("24h".to_string()));
    let custom = settings(&[("fw_bot_ban_threshold", "3"), ("fw_bot_ban_duration", "1w")]);
    assert_eq!(firewall_bot_ban(&custom, 3), Some("1w".to_string()));
}

#[test]
fn response_headers_from_settings() {
    assert_eq!(firewall_response_headers(&settings(&[])).len(), 5);
    let https = settings(&[("site_url", "https://example.com")]);
    let h = firewall_response_headers(&https);
    assert_eq!(h[5].0, "Strict-Transport-Security");
    assert!(firewall_response_headers(&settings(&[("fw_security_headers", "false")])).is_empty());
}

#[test]
fn only_private_172_addresses_are_proxies() {
    assert!(is_proxy_ip("172.16.0.1"));
    assert!(is_proxy_ip("172.31.255.1"));
    assert!(!is_proxy_ip("172.217.3.4"));
    assert!(!is_proxy_ip("172.32.0.1"));
    assert!(!is_proxy_ip("172.1.2.3"));
    let spoof = ForwardHeaders { cf_connecting_ip: Some("1.2.3.4".to_string()), ..no_headers() };
    assert_eq!(firewall_client_ip("172.217.3.4", &spoof), "172.217.3.4");
    assert_eq!(firewall_client_ip("172.20.0.9", &spoof), "1.2.3.4");
}

#[test]
fn blocked_requests_get_403() {
    let s = settings(&[("site_url", "https://example.com")]);
    let r = velocty::firewall::firewall_response(&s, true);
    assert_eq!(r.refusal, Some((403, "403 Forbidden")));
    assert!(r.headers.is_empty());
    let ok = velocty::firewall::firewall_response(&s, false);
    assert_eq!(ok.refusal, None);
    assert_eq!(ok.headers.len(), 6);
}
