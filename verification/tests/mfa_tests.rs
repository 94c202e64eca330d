use velocty::mfa::{second_factor, second_factor_check, SecondFactor};
use velocty::mfa::{
    before_colon_of, build_totp, consume_recovery_code, generate_recovery_codes, generate_secret,
    pending_cookie_value, pending_user_id, qr_data_uri, verify_code, verify_code_at, MfaError,
};

const SECRET: &str = "JBSWY3DPEHPK3PXPJBSWY3DPEHPK3PXP";

#[test]
fn totp_build_errors() {
    assert!(matches!(build_totp("not base32!", "Velocty", "admin"), Err(MfaError::InvalidSecret)));
    assert!(matches!(build_totp("JBSWY3DP", "Velocty", "admin"), Err(MfaError::Totp)));
    assert!(matches!(build_totp(SECRET, "Vel:octy", "admin"), Err(MfaError::Totp)));
    assert!(matches!(build_totp(SECRET, "Velocty", "ad:min"), Err(MfaError::Totp)));
    assert!(build_totp(SECRET, "Velocty", "admin").is_ok());
}

#[test]
fn qr_code_is_png_data_uri() {
    let uri = qr_data_uri(SECRET, "Velocty", "admin@example.com").ok().unwrap();
    assert!(uri.starts_with("data:image/png;base64,"));
    assert!(uri.len() > "data:image/png;base64,".len());
    assert!(qr_data_uri("JBSWY3DP", "Velocty", "admin").unwrap_err().starts_with("TOTP error: "));
    assert!(qr_data_uri("not base32!", "Velocty", "admin").unwrap_err().starts_with("Invalid secret: "));
    assert_eq!(MfaError::Qr.message(), "QR error");
}

#[test]
fn verify_code_checks() {
    assert!(!verify_code(SECRET, "12345"));
    assert!(!verify_code("bad secret", "123456"));
    let t = totp_rs::TOTP::new(
        totp_rs::Algorithm::SHA1,
        6,
        1,
        30,
        totp_rs::Secret::Encoded(SECRET.to_string()).to_bytes().unwrap(),
        Some("Velocty".to_string()),
        "admin".to_string(),
    )
    .unwrap();
    let code = t.generate_current().unwrap();
    assert!(verify_code(SECRET, &code));
}

#[test]
fn generated_secret_builds() {
    let s = generate_secret();
    assert_eq!(s.len(), 32);
    assert!(build_totp(&s, "Velocty", "admin").is_ok());
}

#[test]
fn recovery_codes_shape() {
    let codes = generate_recovery_codes();
    assert_eq!(codes.len(), 10);
    for c in &codes {
        assert_eq!(c.len(), 9);
        for (i, ch) in c.chars().enumerate() {
            if i == 4 {
                assert_eq!(ch, '-');
            } else {
                assert!("ABCDEFGHJKLMNPQRSTUVWXYZ23456789".contains(ch));
            }
        }
    }
}

#[test]
fn recovery_codes_work_once() {
    let mut codes = vec!["ABCD-EFGH".to_string(), "JKLM-NPQR".to_string()];
    assert!(consume_recovery_code(&mut codes, "abcd-efgh"));
    assert_eq!(codes, vec!["JKLM-NPQR".to_string()]);
    assert!(!consume_recovery_code(&mut codes, "ABCD-EFGH"));
    assert_eq!(codes.len(), 1);
}

#[test]
fn pending_cookie_round_trip() {
    let v = pending_cookie_value(42, "tok");
    assert_eq!(v, "42:tok");
    assert_eq!(pending_user_id(&v), Some(42));
    assert_eq!(pending_user_id("x:1"), None);
    assert_eq!(pending_user_id("-5"), Some(-5));
    let edge = pending_cookie_value(i64::MIN, "a:b:c");
    assert_eq!(pending_user_id(&edge), Some(i64::MIN));
    assert_eq!(before_colon_of("a:b:c"), "a");
}

#[test]
fn verify_code_at_a_given_time() {
    let t = totp_rs::TOTP::new(
        totp_rs::Algorithm::SHA1,
        6,
        1,
        30,
        totp_rs::Secret::Encoded(SECRET.to_string()).to_bytes().unwrap(),
        Some("Velocty".to_string()),
        "admin".to_string(),
    )
    .unwrap();
    let now = 1_700_000_000u64;
    assert!(verify_code_at(SECRET, &t.generate(now), now));
    assert!(verify_code_at(SECRET, &t.generate(now - 30), now));
    assert!(verify_code_at(SECRET, &t.generate(now + 30), now));
    let far = t.generate(now + 3000);
    assert_eq!(verify_code_at(SECRET, &far, now), far == t.generate(now) || far == t.generate(now - 30) || far == t.generate(now + 30));
    assert!(!verify_code_at("bad secret", &t.generate(now), now));
}

#[test]
fn second_factor_recovery_codes() {
    let stored = r#"["ABCD-EFGH","IJKL-MNOP"]"#;
    assert!(matches!(second_factor(true, stored, "whatever"), SecondFactor::Totp));
    match second_factor(false, stored, "abcd-efgh") {
        SecondFactor::Recovery { remaining } => assert_eq!(remaining, r#"["IJKL-MNOP"]"#),
        _ => panic!("recovery code refused"),
    }
    assert!(matches!(second_factor(false, stored, "ZZZZ-ZZZZ"), SecondFactor::Invalid));
    assert!(matches!(second_factor(false, "not json", "ABCD-EFGH"), SecondFactor::Invalid));
    match second_factor_check("not base32!", stored, "  ijkl-mnop ") {
        SecondFactor::Recovery { remaining } => assert_eq!(remaining, r#"["ABCD-EFGH"]"#),
        _ => panic!("recovery code refused"),
    }
}
