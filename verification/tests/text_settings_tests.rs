use velocty::settings::Settings;
use velocty::text::{html_escape, json_escape, parse_i64, parse_u16, split_str, str_replace, str_trim, xml_escape};

#[test]
fn escaping() {
    assert_eq!(html_escape("<a href=\"x\">&'</a>"), "&lt;a href=&quot;x&quot;&gt;&amp;'&lt;/a&gt;");
    assert_eq!(xml_escape("'<&>\""), "&apos;&lt;&amp;&gt;&quot;");
    assert_eq!(json_escape("a\\b\"c\nd"), "a\\\\b\\\"c\\nd");
}

#[test]
fn replacing_and_splitting() {
    assert_eq!(str_replace("{{a}} and {{a}}", "{{a}}", "x"), "x and x");
    assert_eq!(str_replace("aaa", "aa", "b"), "ba");
    assert_eq!(split_str("a,,b", ','), vec!["a".to_string(), String::new(), "b".to_string()]);
    assert_eq!(split_str("", ','), vec![String::new()]);
    assert_eq!(str_trim("\t x \n"), "x");
}

#[test]
fn integer_parsing() {
    assert_eq!(parse_i64("-42"), Some(-42));
    assert_eq!(parse_i64("+7"), Some(7));
    assert_eq!(parse_i64("9223372036854775808"), None);
    assert_eq!(parse_u16("65535"), Some(65535));
    assert_eq!(parse_u16("65536"), None);
    assert_eq!(parse_u16("-1"), None);
}

#[test]
fn settings_read_back_inserts() {
    let mut s = Settings::new();
    assert!(s.get("k").is_none());
    s.insert("k".to_string(), "v1".to_string());
    s.insert("other".to_string(), "o".to_string());
    s.insert("k".to_string(), "v2".to_string());
    assert_eq!(s.get("k").map(|v| v.as_str()), Some("v2"));
    assert_eq!(s.get_or("missing", "d"), "d");
    assert!(!s.is_on("k"));
    s.insert("flag".to_string(), "1".to_string());
    assert!(s.get_bool("flag"));
    assert!(!s.is_on("flag"));
    s.insert("n".to_string(), "12".to_string());
    assert_eq!(s.i64_or("n", 0), 12);
    assert_eq!(s.i64_or("k", 5), 5);
}

fn test_store() -> Settings {
    Settings::new()
}

#[test]
fn test_setting_get_set() {
    let mut s = test_store();
    assert!(s.get("nonexistent_key_xyz").is_none());
    s.insert("test_key".to_string(), "hello".to_string());
    assert_eq!(s.get("test_key"), Some(&"hello".to_string()));
}

#[test]
fn test_setting_get_or() {
    let mut s = test_store();
    assert_eq!(s.get_or("missing", "fallback"), "fallback");
    s.insert("present".to_string(), "val".to_string());
    assert_eq!(s.get_or("present", "fallback"), "val");
}

#[test]
fn test_setting_get_bool() {
    let mut s = test_store();
    assert!(!s.get_bool("missing_bool"));
    s.insert("flag_true".to_string(), "true".to_string());
    s.insert("flag_one".to_string(), "1".to_string());
    s.insert("flag_false".to_string(), "false".to_string());
    assert!(s.get_bool("flag_true"));
    assert!(s.get_bool("flag_one"));
    assert!(!s.get_bool("flag_false"));
}

#[test]
fn test_setting_get_i64() {
    let mut s = test_store();
    assert_eq!(s.i64_or("missing_num", 0), 0);
    s.insert("num".to_string(), "42".to_string());
    assert_eq!(s.i64_or("num", 0), 42);
}

#[test]
fn test_setting_set_many() {
    let mut s = test_store();
    let batch = vec![
        ("batch_a".to_string(), "1".to_string()),
        ("batch_b".to_string(), "2".to_string()),
    ];
    s.set_many(&batch);
    assert_eq!(s.get("batch_a"), Some(&"1".to_string()));
    assert_eq!(s.get("batch_b"), Some(&"2".to_string()));
}

#[test]
fn test_setting_get_group() {
    let mut s = test_store();
    s.insert("grp_alpha".to_string(), "a".to_string());
    s.insert("grp_beta".to_string(), "b".to_string());
    s.insert("other_key".to_string(), "c".to_string());
    let group = s.group("grp_");
    assert_eq!(group.len(), 2);
    assert_eq!(group.get("grp_alpha").unwrap(), "a");
}

#[test]
fn test_setting_delete() {
    let mut s = test_store();
    s.insert("del_me".to_string(), "val".to_string());
    assert!(s.get("del_me").is_some());
    s.remove("del_me");
    assert!(s.get("del_me").is_none());
}

#[test]
fn insert_replaces_and_counts_names_once() {
    let mut s = test_store();
    s.insert("a".to_string(), "1".to_string());
    s.insert("b".to_string(), "2".to_string());
    s.insert("a".to_string(), "3".to_string());
    assert_eq!(s.len(), 2);
    assert_eq!(s.get("a").map(|v| v.as_str()), Some("3"));
    s.remove("a");
    s.remove("missing");
    assert_eq!(s.len(), 1);
    assert_eq!(s.get("b").map(|v| v.as_str()), Some("2"));
}

#[test]
fn seed_fills_missing_defaults_once() {
    let mut s = velocty::settings::Settings::new();
    s.insert("site_name".to_string(), "Mine".to_string());
    s.insert("privacy_policy_content".to_string(), String::new());
    s.insert("terms_of_use_content".to_string(), "Our terms".to_string());
    let defaults = vec![
        ("site_name".to_string(), "Velocty".to_string()),
        ("site_tagline".to_string(), "A CMS".to_string()),
        ("site_tagline".to_string(), "Another".to_string()),
        ("privacy_policy_content".to_string(), "Default privacy".to_string()),
        ("terms_of_use_content".to_string(), "Default terms".to_string()),
    ];
    let secret = velocty::settings::seed_settings(&mut s, &defaults).expect("a new secret");
    assert_eq!(secret.len(), 64);
    assert!(secret.chars().all(|c| c.is_ascii_hexdigit() && !c.is_ascii_uppercase()));
    assert_eq!(s.get("image_proxy_secret"), Some(&secret));
    assert_eq!(s.get("site_name").map(|v| v.as_str()), Some("Mine"));
    assert_eq!(s.get("site_tagline").map(|v| v.as_str()), Some("A CMS"));
    assert_eq!(s.get("privacy_policy_content").map(|v| v.as_str()), Some("Default privacy"));
    assert_eq!(s.get("terms_of_use_content").map(|v| v.as_str()), Some("Our terms"));
    assert_eq!(velocty::settings::seed_settings(&mut s, &defaults), None);
    assert_eq!(s.get("image_proxy_secret"), Some(&secret));
}
