use velocty::deploy::{
    canonical_path_within, deploy_keys_match, deploy_preflight_check, deploy_receive_check,
    deploy_settings_to_sync, deploy_summary, extension_of, is_allowed_deploy_extension,
    is_deploy_safe_setting, is_safe_upload_path, new_deploy_key, plan_upload, DeployRefusal,
    DeploySetting, DeployUpload, UploadAction,
};
use velocty::settings::Settings;

fn settings(pairs: &[(&str, &str)]) -> Settings {
    let mut s = Settings::new();
    for (k, v) in pairs {
        s.insert(k.to_string(), v.to_string());
    }
    s
}

#[test]
fn safe_upload_paths() {
    assert!(is_safe_upload_path("website/site/uploads/a.png", None));
    assert!(is_safe_upload_path("website/site/uploads\\a.png", None));
    assert!(!is_safe_upload_path("website/site/uploads/../db/velocty.db", None));
    assert!(!is_safe_upload_path("website/site/other/a.png", None));
    assert!(!is_safe_upload_path("website/site/uploads/a\0.png", None));
    assert!(is_safe_upload_path("website/site/uploads/a..b.png", None));
}

#[test]
fn canonical_paths_must_stay_in_uploads() {
    let p = "website/site/uploads/a.png";
    assert!(is_safe_upload_path(p, Some(("/srv/w/uploads", "/srv/w/uploads/a.png"))));
    assert!(!is_safe_upload_path(p, Some(("/srv/w/uploads", "/srv/w/uploadsX/a.png"))));
    assert!(!is_safe_upload_path(p, Some(("/srv/w/uploads", "/etc/passwd"))));
    assert!(canonical_path_within("/a/b/c", "/a/b"));
    assert!(canonical_path_within("/a/b", "/a/b"));
    assert!(!canonical_path_within("/a/bc", "/a/b"));
    assert!(!canonical_path_within("a/b/c", "/a/b"));
}

#[test]
fn path_extensions() {
    assert_eq!(extension_of("a/b.PNG").as_deref(), Some("PNG"));
    assert_eq!(extension_of("a/.svg"), None);
    assert_eq!(extension_of("a/b.tar.gz").as_deref(), Some("gz"));
    assert_eq!(extension_of("a/b."), Some(String::new()));
    assert_eq!(extension_of("a/b"), None);
    assert_eq!(extension_of("a/b.svg/").as_deref(), Some("svg"));
    assert_eq!(extension_of("a/.."), None);
}

#[test]
fn allowed_deploy_extensions() {
    assert!(is_allowed_deploy_extension("website/site/uploads/photo.JPG"));
    assert!(is_allowed_deploy_extension("website/site/uploads/font.woff2"));
    assert!(is_allowed_deploy_extension("website/site/uploads/doc.pdf"));
    assert!(!is_allowed_deploy_extension("website/site/uploads/run.exe"));
    assert!(!is_allowed_deploy_extension("website/site/uploads/.svg"));
    assert!(!is_allowed_deploy_extension("website/site/uploads/noext"));
}

#[test]
fn upload_plans() {
    let ok = DeployUpload { path: "/uploads/x.png".to_string(), data_base64: "aGVsbG8=".to_string() };
    match plan_upload(&ok, None) {
        UploadAction::Write { path, bytes } => {
            assert_eq!(path, "website/site/uploads/x.png");
            assert_eq!(bytes, b"hello".to_vec());
        }
        UploadAction::Skip => panic!("expected a write"),
    }
    let traversal = DeployUpload { path: "uploads/../x.png".to_string(), data_base64: "aGVsbG8=".to_string() };
    assert!(matches!(plan_upload(&traversal, None), UploadAction::Skip));
    let bad_data = DeployUpload { path: "uploads/x.png".to_string(), data_base64: "***".to_string() };
    assert!(matches!(plan_upload(&bad_data, None), UploadAction::Skip));
    let exe = DeployUpload { path: "uploads/x.exe".to_string(), data_base64: "aGVsbG8=".to_string() };
    assert!(matches!(plan_upload(&exe, None), UploadAction::Skip));
    let outside = DeployUpload { path: "db/velocty.png".to_string(), data_base64: "aGVsbG8=".to_string() };
    assert!(matches!(plan_upload(&outside, None), UploadAction::Skip));
}

#[test]
fn svg_uploads_are_sanitized() {
    // <svg><script>x</script><g/></svg>
    let data = "PHN2Zz48c2NyaXB0Png8L3NjcmlwdD48Zy8+PC9zdmc+";
    let up = DeployUpload { path: "uploads/i.SVG".to_string(), data_base64: data.to_string() };
    match plan_upload(&up, None) {
        UploadAction::Write { path, bytes } => {
            assert_eq!(path, "website/site/uploads/i.SVG");
            let text = String::from_utf8(bytes).unwrap();
            assert!(!text.contains("script"));
            assert!(text.contains("<g"));
        }
        UploadAction::Skip => panic!("expected a write"),
    }
    // "<svg><g></svg>" does not parse
    let broken = DeployUpload { path: "uploads/b.svg".to_string(), data_base64: "PHN2Zz48Zz48L3N2Zz4=".to_string() };
    assert!(matches!(plan_upload(&broken, None), UploadAction::Skip));
}

#[test]
fn deploy_key_checks() {
    assert_eq!(deploy_receive_check(&Settings::new(), "k"), Err(DeployRefusal::NoKey));
    let staging = settings(&[("deploy_receive_key", "secret")]);
    assert_eq!(deploy_receive_check(&staging, "nope"), Err(DeployRefusal::InvalidKey));
    assert_eq!(deploy_receive_check(&staging, "secret"), Err(DeployRefusal::NotProduction));
    let prod = settings(&[("deploy_receive_key", "secret"), ("site_environment", "production")]);
    assert_eq!(deploy_receive_check(&prod, "secret"), Ok(()));
    assert_eq!(DeployRefusal::NoKey.receive_message(), "No deploy receive key configured");
    assert_eq!(
        DeployRefusal::NoKey.preflight_message(),
        "This instance has no deploy receive key configured"
    );
    assert!(deploy_keys_match("abc", "abc"));
    assert!(!deploy_keys_match("abc", "abd"));
}

#[test]
fn preflight_reports_environment() {
    let s = settings(&[("deploy_receive_key", "k")]);
    let (env, name) = deploy_preflight_check(&s, "k").ok().unwrap();
    assert_eq!(env, "staging");
    assert_eq!(name, "Velocty");
    assert!(matches!(deploy_preflight_check(&s, "x"), Err(DeployRefusal::InvalidKey)));
}

#[test]
fn only_safe_settings_sync() {
    assert!(is_deploy_safe_setting("site_name"));
    assert!(is_deploy_safe_setting("contact_label"));
    assert!(!is_deploy_safe_setting("admin_email"));
    assert!(!is_deploy_safe_setting("deploy_receive_key"));
    let list = vec![
        DeploySetting { key: "site_name".to_string(), value: "A".to_string() },
        DeploySetting { key: "deploy_receive_key".to_string(), value: "x".to_string() },
        DeploySetting { key: "blog_label".to_string(), value: "B".to_string() },
    ];
    assert_eq!(deploy_settings_to_sync(&list), vec![0, 2]);
}

#[test]
fn deploy_summary_text() {
    assert_eq!(deploy_summary(2, 1, 3), "Deploy received: 2 posts, 1 portfolio items, 3 uploads");
    let k = new_deploy_key();
    assert_eq!(k.len(), 64);
    assert!(k.chars().all(|c| c.is_ascii_hexdigit()));
}

#[test]
fn upload_data_path_and_encoding() {
    assert_eq!(velocty::deploy::upload_target_path("//uploads/a.png"), "website/site/uploads/a.png");
    assert_eq!(velocty::deploy::encode_upload_data(b"hi!"), "aGkh");
    assert_eq!(velocty::deploy::encode_upload_data(b"ab"), "YWI=");
}

#[test]
fn upserts_by_slug_and_stats() {
    let existing = vec![Some(4), None, Some(9), None, None];
    let (plan, created, updated) = velocty::deploy::plan_upserts(&existing);
    assert_eq!(plan[0], velocty::deploy::Upsert::Update { id: 4 });
    assert_eq!(plan[1], velocty::deploy::Upsert::Create);
    assert_eq!((created, updated), (3, 2));
    assert_eq!(velocty::deploy::content_links(vec![]), None);
    assert_eq!(velocty::deploy::content_links(vec![1, 2]), Some(vec![1, 2]));
    let settings = vec![
        velocty::deploy::DeploySetting { key: "site_name".to_string(), value: "A".to_string() },
        velocty::deploy::DeploySetting { key: "admin_email".to_string(), value: "x".to_string() },
        velocty::deploy::DeploySetting { key: "blog_label".to_string(), value: "B".to_string() },
    ];
    let st = velocty::deploy::deploy_stats(&existing, &vec![None], 4, 7, 2, &settings);
    assert_eq!(
        (st.posts_created, st.posts_updated, st.portfolio_created, st.portfolio_updated),
        (3, 2, 1, 0)
    );
    assert_eq!((st.categories_synced, st.tags_synced, st.uploads_written, st.settings_synced), (4, 7, 2, 2));
}

#[test]
fn deploy_writes_only_safe_settings_and_the_key() {
    let incoming = vec![
        DeploySetting { key: "site_name".to_string(), value: "New".to_string() },
        DeploySetting { key: "admin_password".to_string(), value: "x".to_string() },
        DeploySetting { key: "blog_label".to_string(), value: "Journal".to_string() },
    ];
    let writes = velocty::deploy::deploy_setting_writes(&incoming, "k2".to_string());
    let expected: Vec<(String, String)> = vec![
        ("site_name".to_string(), "New".to_string()),
        ("blog_label".to_string(), "Journal".to_string()),
        ("deploy_receive_key".to_string(), "k2".to_string()),
    ];
    assert_eq!(writes, expected);
}

#[test]
fn preflight_accepts_the_configured_key() {
    let s = settings(&[("deploy_receive_key", "secret"), ("site_environment", "production")]);
    let (env, name) = deploy_preflight_check(&s, "secret").ok().expect("accepted");
    assert_eq!(env, "production");
    assert_eq!(name, "Velocty");
}
