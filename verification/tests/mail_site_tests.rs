use velocty::mail::{admin_reset_email, generate_temp_password, get_from_email, magic_link_email, reset_email};
use velocty::settings::Settings;
use velocty::site::{
    new_site_fields, site_db_path, site_uploads_dir, validate_super_setup, NewSiteForm, Site,
    SiteResolver, SuperSetupError, SuperSetupForm,
};

fn settings(pairs: &[(&str, &str)]) -> Settings {
    let mut s = Settings::new();
    for (k, v) in pairs {
        s.insert(k.to_string(), v.to_string());
    }
    s
}

#[test]
fn from_address_selection() {
    assert_eq!(get_from_email(&Settings::new()), None);
    assert_eq!(get_from_email(&settings(&[("email_from_address", "f@x.org")])).as_deref(), Some("f@x.org"));
    let gmail = settings(&[("email_gmail_enabled", "true"), ("email_gmail_address", "g@x.org"), ("email_smtp_enabled", "true"), ("email_smtp_username", "s@x.org")]);
    assert_eq!(get_from_email(&gmail).as_deref(), Some("g@x.org"));
    let gmail_empty = settings(&[("email_gmail_enabled", "true"), ("email_smtp_enabled", "true"), ("email_smtp_username", "s@x.org")]);
    assert_eq!(get_from_email(&gmail_empty), None);
    let api = settings(&[("email_mailgun_enabled", "true"), ("admin_email", "a@x.org")]);
    assert_eq!(get_from_email(&api).as_deref(), Some("a@x.org"));
}

#[test]
fn magic_link_email_text() {
    let s = settings(&[("site_url", "https://x.org/"), ("site_name", "Site")]);
    let m = magic_link_email(&s, "tok");
    assert_eq!(m.subject, "Sign in to Site — Magic Link");
    assert_eq!(
        m.body,
        "Hello,\n\nClick the link below to sign in to Site:\n\nhttps://x.org/admin/magic-link/verify?token=tok\n\nThis link expires in 15 minutes and can only be used once.\n\nIf you didn't request this, you can safely ignore this email.\n\n— Site\n"
    );
}

#[test]
fn reset_email_texts() {
    let s = settings(&[("admin_slug", "back")]);
    let r = reset_email(&s, "t1");
    assert_eq!(r.subject, "Reset your password — Velocty");
    assert!(r.body.contains("\n\nhttp://localhost:8000/back/reset-password?token=t1\n\n"));
    assert!(r.body.contains("expires in 30 minutes"));
    let a = admin_reset_email(&s, "Tmp#1");
    assert_eq!(a.subject, "Your password has been reset — Velocty");
    assert_eq!(
        a.body,
        "Hello,\n\nAn administrator has reset your password on Velocty.\n\nYour temporary password is:\n\nTmp#1\n\nPlease log in and change your password immediately:\nhttp://localhost:8000/back/login\n\n— Velocty\n"
    );
}

#[test]
fn temporary_passwords() {
    let p = generate_temp_password();
    assert_eq!(p.chars().count(), 12);
    assert!(p.chars().all(|c| "ABCDEFGHJKLMNPQRSTUVWXYZabcdefghjkmnpqrstuvwxyz23456789!@#$%".contains(c)));
}

#[test]
fn site_resolution() {
    let r = SiteResolver;
    assert!(r.skips("/super/login"));
    assert!(r.skips("/static/x.css"));
    assert!(!r.skips("/blog"));
    assert_eq!(r.hostname(Some("example.com:8000")), "example.com");
    assert_eq!(r.hostname(None), "localhost");
    let site = Site {
        id: 1,
        slug: "abc".to_string(),
        hostname: "h".to_string(),
        display_name: "H".to_string(),
        status: "suspended".to_string(),
        created_at: String::new(),
        updated_at: String::new(),
    };
    assert!(!r.serves(&site));
    assert_eq!(site_uploads_dir("abc"), "website/sites/abc/uploads");
    assert_eq!(site_db_path("abc"), "website/sites/abc/db/velocty.db");
}

#[test]
fn super_admin_forms() {
    let f = |e: &str, p: &str, c: &str| SuperSetupForm { email: e.to_string(), password: p.to_string(), confirm_password: c.to_string() };
    assert_eq!(validate_super_setup(&f(" ", "password", "password")), Err(SuperSetupError::EmailMissing));
    assert_eq!(validate_super_setup(&f("a@b", "pass", "pass")), Err(SuperSetupError::PasswordTooShort));
    assert_eq!(validate_super_setup(&f("a@b", "password", "passw0rd")), Err(SuperSetupError::PasswordMismatch));
    assert_eq!(validate_super_setup(&f("a@b", "password", "password")), Ok(()));
    let n = NewSiteForm { hostname: " a.org ".to_string(), display_name: "A".to_string() };
    assert_eq!(new_site_fields(&n), Some(("a.org".to_string(), "A".to_string())));
    let bad = NewSiteForm { hostname: "a.org".to_string(), display_name: "  ".to_string() };
    assert_eq!(new_site_fields(&bad), None);
}

#[test]
fn new_site_folders_and_tokens() {
    let dirs = velocty::site::site_subdirs("abc");
    assert_eq!(dirs, vec!["website/sites/abc/db", "website/sites/abc/uploads", "website/sites/abc/designs"]);
    let t = velocty::auth::new_token();
    assert_eq!(t.len(), 36);
    for (i, c) in t.chars().enumerate() {
        if [8, 13, 18, 23].contains(&i) {
            assert_eq!(c, '-');
        } else {
            assert!(c.is_ascii_digit() || ('a'..='f').contains(&c));
        }
    }
    assert_eq!(t.chars().nth(14), Some('4'));
    assert_ne!(velocty::auth::new_token(), t);
}
