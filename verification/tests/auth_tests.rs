use velocty::auth::{magic_link_decision, MagicLinkOutcome};
use velocty::auth::{
    passkey_finish_check, passkey_offered, passkey_pending_user_id, passkey_start_check,
    passkey_user_key, PasskeyRefusal,
};
use velocty::auth::{
    active_captcha, captcha_blocks_login, client_ip, failed_login_ban, failed_login_tracking,
    has_captcha_provider, has_spam_provider, hash_ip, hash_password, login_captcha_info,
    login_captcha_provider, login_decision, login_max_attempts, login_rate_allows, login_rate_key,
    login_redirect, magic_link_recipient, reset_link_allowed, role_guard, session_cookie_secure,
    session_expiry_hours, spam_providers, unknown_user_ban, validate_new_password,
    verify_captcha_with_settings, verify_password, CaptchaProvider, GuardOutcome, LoginOutcome,
    LoginUser, PasswordError, RoleRequirement, SessionUser, SpamProvider,
};
use velocty::auth::{akismet_request, akismet_verdict, captcha_needs_score, captcha_request};
use velocty::firewall::ForwardHeaders;
use velocty::settings::Settings;

const PASSWORD_HASH: &str = "$2a$04$UuTkLRZZ6QofpDOlMz32MuuxEHA43WOemOYHPz6.SjsVsyO1tDU96";

fn settings(pairs: &[(&str, &str)]) -> Settings {
    let mut s = Settings::new();
    for (k, v) in pairs {
        s.insert(k.to_string(), v.to_string());
    }
    s
}

fn headers(cf: Option<&str>, tc: Option<&str>, real: Option<&str>, xff: Option<&str>) -> ForwardHeaders {
    ForwardHeaders {
        cf_connecting_ip: cf.map(|s| s.to_string()),
        true_client_ip: tc.map(|s| s.to_string()),
        x_real_ip: real.map(|s| s.to_string()),
        x_forwarded_for: xff.map(|s| s.to_string()),
    }
}

fn user(role: &str, active: bool, mfa: bool, force: bool) -> LoginUser {
    LoginUser {
        id: 7,
        role: role.to_string(),
        active,
        password_hash: PASSWORD_HASH.to_string(),
        mfa_enabled: mfa,
        mfa_secret: if mfa { "JBSWY3DPEHPK3PXPJBSWY3DPEHPK3PXP".to_string() } else { String::new() },
        force_password_change: force,
    }
}

#[test]
fn client_ip_priority() {
    assert_eq!(client_ip(&headers(Some(" 1.2.3.4 "), Some("5.6.7.8"), None, None), Some("127.0.0.1")).0, "1.2.3.4");
    assert_eq!(client_ip(&headers(Some("  "), Some("5.6.7.8"), None, None), None).0, "5.6.7.8");
    assert_eq!(client_ip(&headers(None, None, Some("8.8.8.8"), Some("9.9.9.9")), None).0, "8.8.8.8");
    assert_eq!(client_ip(&headers(None, None, None, Some(" 9.9.9.9 , 10.0.0.1")), None).0, "9.9.9.9");
    assert_eq!(client_ip(&headers(None, None, None, Some(",10.0.0.1")), Some("127.0.0.1")).0, "127.0.0.1");
    assert_eq!(client_ip(&headers(None, None, None, None), None).0, "unknown");
}

#[test]
fn bcrypt_verification() {
    assert!(verify_password("password", PASSWORD_HASH));
    assert!(!verify_password("passw0rd", PASSWORD_HASH));
    assert!(!verify_password("password", "not a hash"));
}

#[test]
fn hashed_password_verifies() {
    let h = hash_password("correct horse").unwrap();
    assert!(h.starts_with("$2"));
    assert!(verify_password("correct horse", &h));
    assert!(!verify_password("correct horse!", &h));
}

#[test]
fn ip_hash_is_sha256_hex() {
    assert_eq!(hash_ip("abc"), "ba7816bf8f01cfea414140de5dae2223b00361a396177a9cb410ff61f20015ad");
    assert_eq!(hash_ip("127.0.0.1"), "12ca17b49af2289436f303e0166030a21e525d266e209267433801a8fd4071a0");
}

#[test]
fn login_decisions() {
    assert_eq!(login_decision(None, "password"), LoginOutcome::UnknownUser);
    assert_eq!(login_decision(Some(&user("admin", false, false, false)), "password"), LoginOutcome::Suspended);
    assert_eq!(login_decision(Some(&user("subscriber", true, false, false)), "password"), LoginOutcome::NoAdminAccess);
    assert_eq!(login_decision(Some(&user("admin", true, false, false)), "wrong"), LoginOutcome::WrongPassword);
    assert_eq!(login_decision(Some(&user("editor", true, true, false)), "password"), LoginOutcome::MfaRequired);
    assert_eq!(
        login_decision(Some(&user("author", true, false, true)), "password"),
        LoginOutcome::SessionStart { force_password_change: true }
    );
    assert_eq!(LoginOutcome::WrongPassword.error_message(), Some("Invalid credentials"));
    assert_eq!(LoginOutcome::MfaRequired.error_message(), None);
}

#[test]
fn login_rate_and_redirects() {
    assert_eq!(login_rate_key("1.2.3.4"), "login:1.2.3.4");
    assert_eq!(login_max_attempts(&Settings::new()), 1);
    assert_eq!(login_max_attempts(&settings(&[("login_rate_limit", "10")])), 10);
    assert!(login_rate_allows(&Settings::new(), 0));
    assert!(!login_rate_allows(&Settings::new(), 1));
    assert_eq!(login_redirect("admin", false), "/admin");
    assert_eq!(login_redirect("admin", true), "/admin/change-password");
    assert!(captcha_blocks_login(&Ok(false)));
    assert!(!captcha_blocks_login(&Ok(true)));
    assert!(!captcha_blocks_login(&Err("network".to_string())));
}

#[test]
fn firewall_login_bans() {
    assert!(!failed_login_tracking(&Settings::new()));
    assert_eq!(failed_login_ban(&Settings::new(), 100), None);
    let fw = settings(&[("firewall_enabled", "true")]);
    assert!(failed_login_tracking(&fw));
    assert_eq!(failed_login_ban(&fw, 4), None);
    assert_eq!(failed_login_ban(&fw, 5).as_deref(), Some("1h"));
    let custom = settings(&[("firewall_enabled", "true"), ("fw_failed_login_ban_threshold", "2"), ("fw_failed_login_ban_duration", "7d")]);
    assert_eq!(failed_login_ban(&custom, 2).as_deref(), Some("7d"));
    assert_eq!(unknown_user_ban(&fw), None);
    let ban = settings(&[("firewall_enabled", "true"), ("fw_ban_unknown_users", "true")]);
    assert_eq!(unknown_user_ban(&ban).as_deref(), Some("24h"));
}

#[test]
fn session_settings() {
    assert_eq!(session_expiry_hours(&Settings::new()), 1);
    assert_eq!(session_expiry_hours(&settings(&[("session_expiry_hours", "48")])), 48);
    assert!(!session_cookie_secure(&Settings::new()));
    assert!(session_cookie_secure(&settings(&[("site_url", "https://x.org")])));
    assert!(session_cookie_secure(&settings(&[("site_environment", "production")])));
}

#[test]
fn captcha_selection() {
    assert_eq!(verify_captcha_with_settings(&Settings::new()), None);
    let both = settings(&[("security_turnstile_enabled", "true"), ("security_hcaptcha_enabled", "true")]);
    assert_eq!(verify_captcha_with_settings(&both), Some(CaptchaProvider::Turnstile));
    assert!(has_captcha_provider(&both));
    let info = active_captcha(&settings(&[("security_recaptcha_enabled", "true"), ("security_recaptcha_site_key", "k")])).unwrap();
    assert_eq!((info.provider.as_str(), info.site_key.as_str(), info.version.as_str()), ("recaptcha", "k", "v3"));
    assert_eq!(login_captcha_provider(&settings(&[("login_captcha_provider", "hcaptcha")])), None);
    let login = settings(&[("login_captcha_enabled", "true"), ("login_captcha_provider", "hcaptcha"), ("security_hcaptcha_site_key", "h")]);
    assert_eq!(login_captcha_provider(&login), Some(CaptchaProvider::Hcaptcha));
    let li = login_captcha_info(&login).unwrap();
    assert_eq!((li.provider.as_str(), li.site_key.as_str(), li.version.as_str()), ("hcaptcha", "h", ""));
    assert!(login_captcha_info(&settings(&[("login_captcha_enabled", "true"), ("login_captcha_provider", "other")])).is_none());
}

#[test]
fn spam_provider_order() {
    assert!(!has_spam_provider(&Settings::new()));
    let s = settings(&[("security_oopspam_enabled", "true"), ("security_akismet_enabled", "true")]);
    assert_eq!(spam_providers(&s), vec![SpamProvider::Akismet, SpamProvider::OopSpam]);
    assert!(has_spam_provider(&s));
}

#[test]
fn new_password_rules() {
    assert_eq!(validate_new_password("short", "short"), Err(PasswordError::TooShort));
    assert_eq!(validate_new_password("longenough", "different"), Err(PasswordError::Mismatch));
    assert_eq!(validate_new_password("longenough", "longenough"), Ok(()));
    assert_eq!(PasswordError::TooShort.message(), "Password must be at least 8 characters.");
}

#[test]
fn role_guards() {
    let u = |role: &str| SessionUser { id: 1, email: String::new(), display_name: String::new(), role: role.to_string() };
    assert_eq!(role_guard(None, RoleRequirement::Any), GuardOutcome::Unauthorized);
    assert_eq!(role_guard(Some(&u("admin")), RoleRequirement::Admin), GuardOutcome::Allow);
    assert_eq!(role_guard(Some(&u("editor")), RoleRequirement::Admin), GuardOutcome::Forbidden);
    assert_eq!(role_guard(Some(&u("editor")), RoleRequirement::Editor), GuardOutcome::Allow);
    assert_eq!(role_guard(Some(&u("author")), RoleRequirement::Editor), GuardOutcome::Forbidden);
    assert_eq!(role_guard(Some(&u("author")), RoleRequirement::Author), GuardOutcome::Allow);
    assert_eq!(role_guard(Some(&u("subscriber")), RoleRequirement::Any), GuardOutcome::Allow);
}

#[test]
fn reset_and_magic_link_recipients() {
    let s = settings(&[("admin_email", "admin@x.org")]);
    assert_eq!(magic_link_recipient(&s, " admin@x.org ").as_deref(), Some("admin@x.org"));
    assert_eq!(magic_link_recipient(&s, "other@x.org"), None);
    assert_eq!(magic_link_recipient(&Settings::new(), ""), None);
    assert!(reset_link_allowed(true, "editor"));
    assert!(!reset_link_allowed(true, "subscriber"));
    assert!(!reset_link_allowed(false, "admin"));
}

#[test]
fn captcha_verification_requests() {
    assert_eq!(captcha_request(&Settings::new(), CaptchaProvider::Turnstile, "t", None).err(), Some("Turnstile secret key not configured"));
    let s = settings(&[("security_hcaptcha_secret_key", "sec"), ("security_hcaptcha_site_key", "site")]);
    let req = captcha_request(&s, CaptchaProvider::Hcaptcha, "tok", Some("1.2.3.4")).ok().unwrap();
    assert_eq!(req.url, "https://api.hcaptcha.com/siteverify");
    let pairs: Vec<(&str, &str)> = req.params.iter().map(|(k, v)| (k.as_str(), v.as_str())).collect();
    assert_eq!(pairs, vec![("secret", "sec"), ("response", "tok"), ("sitekey", "site"), ("remoteip", "1.2.3.4")]);
    let r = settings(&[("security_recaptcha_secret_key", "k")]);
    let req = captcha_request(&r, CaptchaProvider::Recaptcha, "tok", None).ok().unwrap();
    assert_eq!(req.params.len(), 2);
    assert!(captcha_needs_score(&r, CaptchaProvider::Recaptcha));
    assert!(!captcha_needs_score(&settings(&[("security_recaptcha_version", "v2")]), CaptchaProvider::Recaptcha));
    assert!(!captcha_needs_score(&r, CaptchaProvider::Turnstile));
}

#[test]
fn akismet_requests_and_answers() {
    assert_eq!(akismet_request(&Settings::new(), "s", "i", "u", "c", None, None, None).err(), Some("Akismet API key not configured"));
    let s = settings(&[("security_akismet_api_key", "abc")]);
    let req = akismet_request(&s, "https://b.io", "1.1.1.1", "UA", "hi", Some("Ann"), None, None).ok().unwrap();
    assert_eq!(req.url, "https://abc.rest.akismet.com/1.1/comment-check");
    let pairs: Vec<(&str, &str)> = req.params.iter().map(|(k, v)| (k.as_str(), v.as_str())).collect();
    assert_eq!(pairs, vec![
        ("blog", "https://b.io"),
        ("user_ip", "1.1.1.1"),
        ("user_agent", "UA"),
        ("comment_content", "hi"),
        ("comment_type", "comment"),
        ("comment_author", "Ann"),
    ]);
    assert_eq!(akismet_verdict(" true\n"), Some(true));
    assert_eq!(akismet_verdict("false"), Some(false));
    assert_eq!(akismet_verdict("invalid"), None);
}

fn passkey_user(method: &str, role: &str, active: bool) -> velocty::auth::PasskeyUser {
    velocty::auth::PasskeyUser { id: 7, auth_method: method.to_string(), role: role.to_string(), active }
}

#[test]
fn passkey_start_and_offer() {
    let pk = passkey_user("passkey", "admin", true);
    let pw = passkey_user("password", "admin", true);
    assert!(passkey_offered("a@b.c", Some(&pk), 1));
    assert!(!passkey_offered("", Some(&pk), 1));
    assert!(!passkey_offered("a@b.c", Some(&pk), 0));
    assert!(!passkey_offered("a@b.c", Some(&pw), 3));
    assert_eq!(passkey_start_check("", Some(&pk), 1), Err(PasskeyRefusal::EmailRequired));
    assert_eq!(passkey_start_check("a@b.c", None, 1), Err(PasskeyRefusal::InvalidCredentials));
    assert_eq!(passkey_start_check("a@b.c", Some(&pw), 1), Err(PasskeyRefusal::NotEnabled));
    assert_eq!(passkey_start_check("a@b.c", Some(&pk), 0), Err(PasskeyRefusal::NoPasskeys));
    assert_eq!(passkey_start_check("a@b.c", Some(&pk), 2), Ok(7));
    assert_eq!(PasskeyRefusal::NoPasskeys.message(), "No passkeys registered");
}

#[test]
fn passkey_finish_checks() {
    assert_eq!(passkey_user_key("tok"), "passkey_auth_user_tok");
    assert_eq!(passkey_pending_user_id("42"), Ok(42));
    assert_eq!(passkey_pending_user_id(""), Err(PasskeyRefusal::InvalidSessionState));
    assert_eq!(passkey_pending_user_id("4x"), Err(PasskeyRefusal::InvalidSessionState));
    assert_eq!(passkey_finish_check(None), Err(PasskeyRefusal::UserNotFound));
    assert_eq!(passkey_finish_check(Some(&passkey_user("passkey", "admin", false))), Err(PasskeyRefusal::Suspended));
    assert_eq!(
        passkey_finish_check(Some(&passkey_user("passkey", "subscriber", true))),
        Err(PasskeyRefusal::NoAdminAccess)
    );
    assert_eq!(passkey_finish_check(Some(&passkey_user("passkey", "editor", true))), Ok(()));
    assert_eq!(PasskeyRefusal::Suspended.message(), "Account is suspended or locked");
}

#[test]
fn spam_answers_and_keys() {
    let ok = |b: bool| -> Result<bool, String> { Ok(b) };
    assert!(!velocty::auth::spam_found(&vec![]));
    assert!(!velocty::auth::spam_found(&vec![ok(false), Err("down".to_string())]));
    assert!(velocty::auth::spam_found(&vec![Err("down".to_string()), ok(true)]));
    assert!(velocty::auth::cleantalk_verdict(Some(0)));
    assert!(!velocty::auth::cleantalk_verdict(Some(1)));
    assert!(!velocty::auth::cleantalk_verdict(None));
    assert!(velocty::auth::oopspam_verdict(Some(3)));
    assert!(!velocty::auth::oopspam_verdict(Some(2)));
    assert!(!velocty::auth::oopspam_verdict(None));
    let mut s = velocty::settings::Settings::new();
    assert_eq!(
        velocty::auth::spam_api_key(&s, velocty::auth::SpamProvider::OopSpam),
        Err("OOPSpam API key not configured")
    );
    s.insert("security_cleantalk_api_key".to_string(), "k1".to_string());
    assert_eq!(velocty::auth::spam_api_key(&s, velocty::auth::SpamProvider::CleanTalk), Ok("k1".to_string()));
}

#[test]
fn passkey_relying_party_from_site_url() {
    let rp = |url: Option<&str>| {
        let mut s = velocty::settings::Settings::new();
        if let Some(u) = url {
            s.insert("site_url".to_string(), u.to_string());
        }
        velocty::auth::passkey_relying_party(&s)
    };
    assert_eq!(rp(None), Ok(("localhost".to_string(), "http://localhost:8000/".to_string())));
    assert_eq!(
        rp(Some("https://example.com/blog")),
        Ok(("example.com".to_string(), "https://example.com/blog".to_string()))
    );
    assert_eq!(rp(Some("http://127.0.0.1:3000")), Ok(("localhost".to_string(), "http://localhost:3000/".to_string())));
    assert_eq!(rp(Some("data:text/plain,x")), Err("No host in site_url".to_string()));
    assert!(rp(Some("not a url")).unwrap_err().starts_with("Invalid site_url: "));
}

#[test]
fn magic_link_needs_an_active_account() {
    assert_eq!(magic_link_decision(None), MagicLinkOutcome::UnknownUser);
    assert_eq!(MagicLinkOutcome::UnknownUser.error_message(), Some("User not found"));
    assert_eq!(magic_link_decision(Some(&user("admin", false, false, false))), MagicLinkOutcome::Suspended);
    assert_eq!(MagicLinkOutcome::Suspended.error_message(), Some("This account is suspended or locked."));
    assert_eq!(magic_link_decision(Some(&user("admin", true, true, false))), MagicLinkOutcome::MfaRequired);
    assert_eq!(magic_link_decision(Some(&user("subscriber", true, false, false))), MagicLinkOutcome::SessionStart);
    assert_eq!(MagicLinkOutcome::SessionStart.error_message(), None);
}
