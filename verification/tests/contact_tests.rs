use velocty::contact::{contact_enabled, contact_rate_step, contact_submission, ContactOutcome};
use velocty::settings::Settings;

fn settings(pairs: &[(&str, &str)]) -> Settings {
    let mut s = Settings::new();
    for (k, v) in pairs {
        s.insert(k.to_string(), v.to_string());
    }
    s
}

#[test]
fn contact_form_switches() {
    assert!(!contact_enabled(&Settings::new()));
    assert!(!contact_enabled(&settings(&[("contact_page_enabled", "true")])));
    assert!(contact_enabled(&settings(&[("contact_page_enabled", "true"), ("contact_form_enabled", "true")])));
}

#[test]
fn contact_rate_limit_sixth_submission_refused() {
    let mut entry = None;
    for i in 0..5 {
        let (e, refused) = contact_rate_step(entry, 100 + i);
        assert!(!refused);
        entry = Some(e);
    }
    let (e, refused) = contact_rate_step(entry, 200);
    assert!(refused);
    assert_eq!(e, (6, 100));
    // A full window later the count starts over.
    let (e, refused) = contact_rate_step(Some(e), 1000);
    assert!(!refused);
    assert_eq!(e, (1, 1000));
}

#[test]
fn contact_submission_outcomes() {
    let s = settings(&[("admin_email", "admin@example.com"), ("site_name", "Blog")]);
    assert!(matches!(
        contact_submission(&s, Some("A"), Some("a@b.c"), Some("hi"), Some("bot")),
        ContactOutcome::Honeypot
    ));
    assert!(matches!(contact_submission(&s, Some("A"), Some(" "), Some("hi"), None), ContactOutcome::MissingFields));
    assert!(matches!(contact_submission(&s, None, Some("a@b.c"), Some("hi"), None), ContactOutcome::MissingFields));
    assert!(matches!(contact_submission(&s, Some("A"), Some("ab.c"), Some("hi"), None), ContactOutcome::InvalidEmail));
    assert!(matches!(
        contact_submission(&Settings::new(), Some("A"), Some("a@b.c"), Some("hi"), None),
        ContactOutcome::NotConfigured
    ));
    match contact_submission(&s, Some(" Ann "), Some("ann@x.org"), Some(" Hello\n"), Some("")) {
        ContactOutcome::Send { to, subject, body } => {
            assert_eq!(to, "admin@example.com");
            assert_eq!(subject, "[Blog] Contact from Ann");
            assert_eq!(body, "New contact form submission:\n\nName: Ann\nEmail: ann@x.org\n\nMessage:\nHello");
        }
        _ => panic!("expected a message to send"),
    }
}

#[test]
fn contact_notices() {
    assert_eq!(ContactOutcome::InvalidEmail.notice(), ("error", "Please enter a valid email address."));
    assert_eq!(ContactOutcome::Honeypot.notice(), ("success", "Message sent! Thank you."));
}
