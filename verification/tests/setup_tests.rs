use velocty::setup::{
    check_mongo_reply, ismaster_message, mongo_address, mongo_test_precheck, parse_mongo_host,
    setup_toml, validate_setup, MongoUriError, SetupError, SetupForm,
};

fn form() -> SetupForm {
    SetupForm {
        db_backend: "sqlite".to_string(),
        mongo_uri: None,
        mongo_db_name: None,
        mongo_auth_enabled: None,
        mongo_auth_mechanism: None,
        mongo_username: None,
        mongo_password: None,
        mongo_auth_db: None,
        site_name: "Site".to_string(),
        admin_email: "a@b.c".to_string(),
        password: "password1".to_string(),
        confirm_password: "password1".to_string(),
        accept_terms: Some("true".to_string()),
    }
}

#[test]
fn setup_validation_order() {
    assert_eq!(validate_setup(&form()), Ok(()));
    let mut f = form();
    f.db_backend = "postgres".to_string();
    assert_eq!(validate_setup(&f), Err(SetupError::NoBackend));
    let mut f = form();
    f.db_backend = "mongodb".to_string();
    assert_eq!(validate_setup(&f), Err(SetupError::MongoUriMissing));
    f.mongo_uri = Some("mongodb://h".to_string());
    assert_eq!(validate_setup(&f), Err(SetupError::MongoDbNameMissing));
    f.mongo_db_name = Some("db".to_string());
    f.mongo_auth_enabled = Some("true".to_string());
    assert_eq!(validate_setup(&f), Err(SetupError::MongoUsernameMissing));
    f.mongo_username = Some("u".to_string());
    assert_eq!(validate_setup(&f), Err(SetupError::MongoPasswordMissing));
    f.mongo_auth_mechanism = Some("x509".to_string());
    assert_eq!(validate_setup(&f), Ok(()));
    let mut f = form();
    f.admin_email = "  ".to_string();
    assert_eq!(validate_setup(&f), Err(SetupError::EmailMissing));
    let mut f = form();
    f.password = "short".to_string();
    assert_eq!(validate_setup(&f), Err(SetupError::PasswordTooShort));
    let mut f = form();
    f.confirm_password = "other".to_string();
    assert_eq!(validate_setup(&f), Err(SetupError::PasswordMismatch));
    let mut f = form();
    f.accept_terms = None;
    assert_eq!(validate_setup(&f), Err(SetupError::TermsNotAccepted));
    assert_eq!(SetupError::TermsNotAccepted.message(), "You must accept the Terms of Use and Privacy Policy.");
}

#[test]
fn setup_config_files() {
    assert_eq!(
        setup_toml(&form()),
        "[database]\nbackend = \"sqlite\"\npath = \"website/site/db/velocty.db\"\n"
    );
    let mut f = form();
    f.db_backend = "mongodb".to_string();
    f.mongo_uri = Some(" mongodb://db:27017 ".to_string());
    assert_eq!(
        setup_toml(&f),
        "[database]\nbackend = \"mongodb\"\nuri = \"mongodb://db:27017\"\nname = \"velocty\"\n"
    );
    f.mongo_auth_enabled = Some("true".to_string());
    f.mongo_username = Some("user".to_string());
    assert_eq!(
        setup_toml(&f),
        "[database]\nbackend = \"mongodb\"\nuri = \"mongodb://db:27017\"\nname = \"velocty\"\n\n[database.auth]\nmechanism = \"scram_sha256\"\nauth_db = \"admin\"\nusername = \"user\"\n"
    );
}

#[test]
fn mongo_uri_hosts() {
    assert_eq!(parse_mongo_host("mongodb://localhost:27018/db"), Ok(("localhost".to_string(), 27018)));
    assert_eq!(parse_mongo_host("mongodb+srv://user:pw@cluster.example.net/db?x=1"), Ok(("cluster.example.net".to_string(), 27017)));
    assert_eq!(parse_mongo_host("mongodb://a:1,b:2/db"), Ok(("a".to_string(), 1)));
    assert_eq!(parse_mongo_host("mongodb://h:port"), Err(MongoUriError::InvalidPort));
    assert_eq!(parse_mongo_host("mongodb://h:70000"), Err(MongoUriError::InvalidPort));
    assert_eq!(parse_mongo_host("http://h"), Err(MongoUriError::Scheme));
    assert_eq!(parse_mongo_host("mongodb://[::1]:27017"), Ok(("[::1]".to_string(), 27017)));
}

#[test]
fn mongo_test_answers() {
    let e = mongo_test_precheck("   ").err().unwrap();
    assert!(!e.ok);
    assert_eq!(e.message, "Connection URI is empty.");
    let e = mongo_test_precheck("redis://x").err().unwrap();
    assert_eq!(e.message, "Invalid URI: URI must start with mongodb:// or mongodb+srv://");
    assert_eq!(mongo_test_precheck(" mongodb://h ").ok(), Some(("h".to_string(), 27017)));
    assert_eq!(mongo_address("h", 27017), "h:27017");
}

#[test]
fn ismaster_handshake_bytes() {
    let m = ismaster_message();
    assert_eq!(m.len(), 55);
    assert_eq!(&m[0..4], &55i32.to_le_bytes());
    assert_eq!(&m[12..16], &2013i32.to_le_bytes());
    assert_eq!(&m[21..25], &34i32.to_le_bytes());
    let text = String::from_utf8_lossy(&m);
    assert!(text.contains("isMaster"));
    assert!(text.contains("admin"));
}

#[test]
fn mongo_reply_headers() {
    let mut h = [0u8; 16];
    h[0..4].copy_from_slice(&100i32.to_le_bytes());
    h[12..16].copy_from_slice(&2013i32.to_le_bytes());
    assert_eq!(check_mongo_reply(&h), Ok(()));
    h[0..4].copy_from_slice(&16i32.to_le_bytes());
    assert_eq!(check_mongo_reply(&h), Err(2013));
    h[0..4].copy_from_slice(&100i32.to_le_bytes());
    h[12..16].copy_from_slice(&(-7i32).to_le_bytes());
    assert_eq!(check_mongo_reply(&h), Err(-7));
}
