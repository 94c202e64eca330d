use velocty::commerce::{
    base64_signature_matches, constant_time_eq, currency, download_limits, download_refusal,
    generate_license_key, generate_token, hex_signature_matches, license_key_of, license_text,
    checkout_config, razorpay_request_valid, return_url, stripe_redirect_urls, webhook_url, Provider, site_url, stripe_event_order, stripe_signature_parts,
    stripe_webhook_check, urlencoding, verify_razorpay_signature, verify_square_signature,
    verify_stripe_signature, CheckoutError, DownloadRefusal, RawBody, RazorpayVerifyRequest,
    StripeSignature, WebhookRefusal,
};
use velocty::commerce::{
    mollie_paid_order, mollie_payment_id, payoneer_webhook_order, twocheckout_reference,
};
use velocty::commerce::{complete_order, square_order_ref, square_webhook_check, CompletionRefusal, SquareSignature};
use velocty::settings::Settings;

fn settings(pairs: &[(&str, &str)]) -> Settings {
    let mut s = Settings::new();
    for (k, v) in pairs {
        s.insert(k.to_string(), v.to_string());
    }
    s
}

#[test]
fn constant_time_eq_is_equality() {
    assert!(constant_time_eq(b"abc", b"abc"));
    assert!(!constant_time_eq(b"abc", b"abd"));
    assert!(!constant_time_eq(b"abc", b"ab"));
    assert!(constant_time_eq(b"", b""));
}

#[test]
fn urlencoding_examples() {
    assert_eq!(urlencoding("hello world"), "hello+world");
    assert_eq!(urlencoding("a&b=c"), "a%26b%3Dc");
    assert_eq!(urlencoding("Az09-_.~"), "Az09-_.~");
    assert_eq!(urlencoding("é"), "%C3%A9");
    assert_eq!(urlencoding("€ x"), "%E2%82%AC+x");
}

#[test]
fn site_url_and_currency_defaults() {
    let empty = Settings::new();
    assert_eq!(site_url(&empty), "http://localhost:8000");
    assert_eq!(currency(&empty), "USD");
    let s = settings(&[("site_url", "https://shop.example"), ("commerce_currency", "EUR")]);
    assert_eq!(site_url(&s), "https://shop.example");
    assert_eq!(currency(&s), "EUR");
}

#[test]
fn later_setting_wins() {
    let s = settings(&[("commerce_currency", "EUR"), ("commerce_currency", "GBP")]);
    assert_eq!(currency(&s), "GBP");
}

#[test]
fn license_key_format() {
    assert_eq!(license_key_of(0x1234, 0xABCD, 0, 0xFFFF), "1234-ABCD-0000-FFFF");
    let k = generate_license_key();
    assert_eq!(k.len(), 19);
    for (i, c) in k.chars().enumerate() {
        if i == 4 || i == 9 || i == 14 {
            assert_eq!(c, '-');
        } else {
            assert!(c.is_ascii_hexdigit() && !c.is_ascii_lowercase());
        }
    }
}

#[test]
fn download_token_is_32_hex_chars() {
    let t = generate_token();
    assert_eq!(t.len(), 32);
    assert!(t.chars().all(|c| c.is_ascii_hexdigit() && !c.is_ascii_uppercase()));
    assert_ne!(generate_token(), t);
}

#[test]
fn download_limits_defaults_and_overrides() {
    assert_eq!(download_limits(&Settings::new()), (3, 48));
    let s = settings(&[("downloads_max_per_purchase", "5"), ("downloads_expiry_hours", "soon")]);
    assert_eq!(download_limits(&s), (5, 48));
}

#[test]
fn download_refusal_reason() {
    assert_eq!(download_refusal(3, 3), DownloadRefusal::LimitReached);
    assert_eq!(download_refusal(1, 3), DownloadRefusal::Expired);
    assert_eq!(DownloadRefusal::LimitReached.message(), "Download limit reached");
    assert_eq!(DownloadRefusal::Expired.message(), "Download link has expired");
}

#[test]
fn license_text_layout() {
    let s = settings(&[("site_name", "Shop"), ("downloads_license_template", "Terms")]);
    assert_eq!(
        license_text(&s, "Pic", "", 7, "2024-01-01", Some("ABCD")),
        "License for: Pic\nPurchased from: Shop\nTransaction: ORD-7\nDate: 2024-01-01\nLicense Key: ABCD\n\n---\n\nTerms"
    );
    assert_eq!(
        license_text(&Settings::new(), "Pic", "pi_9", 7, "d", None),
        "License for: Pic\nPurchased from: Velocty\nTransaction: pi_9\nDate: d\n\n---\n\n"
    );
}

#[test]
fn hex_signature_comparison() {
    assert!(hex_signature_matches(&[0xde, 0xad, 0x01], "dead01"));
    assert!(!hex_signature_matches(&[0xde, 0xad, 0x01], "DEAD01"));
    assert!(!hex_signature_matches(&[0xde, 0xad], "dead01"));
}

#[test]
fn base64_signature_comparison() {
    assert!(base64_signature_matches(&[1, 2, 3], "AQID"));
    assert!(base64_signature_matches(&[1, 2], "AQI="));
    assert!(!base64_signature_matches(&[1, 2, 3], "AQIE"));
}

#[test]
fn stripe_header_parts() {
    let (t, v) = stripe_signature_parts("t=123,v1=abc,v0=zzz");
    assert_eq!((t.as_str(), v.as_str()), ("123", "abc"));
    let (t, v) = stripe_signature_parts("v1=x");
    assert_eq!((t.as_str(), v.as_str()), ("", "x"));
    let (t, v) = stripe_signature_parts("t=1,t=2,v1=a,v1=b");
    assert_eq!((t.as_str(), v.as_str()), ("2", "b"));
}

#[test]
fn stripe_signature_checks() {
    let payload = br#"{"a":1}"#;
    let good = "t=123,v1=23bb607b7a6a9af618afa33c2f89bb80af43f81fafa2e1c9e6d5476100d7ad7b";
    assert!(verify_stripe_signature(payload, good, "whsec"));
    assert!(!verify_stripe_signature(payload, good, "other"));
    assert!(!verify_stripe_signature(b"{\"a\":2}", good, "whsec"));
    assert!(!verify_stripe_signature(payload, "v1=23bb607b", "whsec"));
}

#[test]
fn stripe_webhook_refusals() {
    let body = RawBody(br#"{"a":1}"#.to_vec());
    let sig = StripeSignature(
        "t=123,v1=23bb607b7a6a9af618afa33c2f89bb80af43f81fafa2e1c9e6d5476100d7ad7b".to_string(),
    );
    assert_eq!(stripe_webhook_check(&Settings::new(), &sig, &body), Err(WebhookRefusal::NoSecret));
    let wrong = settings(&[("stripe_webhook_secret", "nope")]);
    assert_eq!(stripe_webhook_check(&wrong, &sig, &body), Err(WebhookRefusal::BadSignature));
    let right = settings(&[("stripe_webhook_secret", "whsec")]);
    assert_eq!(stripe_webhook_check(&right, &sig, &body), Ok(()));
}

#[test]
fn square_signature_known_vector() {
    // HMAC-SHA256 with key "Jefe" over "what do ya want for nothing?" (RFC 4231, case 2).
    let sig = "W9zBRr9gdU5qBCQmCJV1x1oAPwidJzmDnexYuWTsOEM=";
    assert!(verify_square_signature("what do ya want ", b"for nothing?", sig, "Jefe"));
    assert!(!verify_square_signature("what do ya want ", b"for nothing!", sig, "Jefe"));
}

#[test]
fn razorpay_signature_checks() {
    let sig = "52115a0d3400de9e86aade1f1b6eba9e8974604f4e267a9e9a16633a4c8dd2cb";
    assert!(verify_razorpay_signature("order_1", "pay_1", sig, "secret"));
    assert!(!verify_razorpay_signature("order_1", "pay_2", sig, "secret"));
    let req = RazorpayVerifyRequest {
        order_id: 1,
        razorpay_order_id: "order_1".to_string(),
        razorpay_payment_id: "pay_1".to_string(),
        razorpay_signature: sig.to_string(),
        buyer_email: "a@b.c".to_string(),
        buyer_name: None,
    };
    assert!(razorpay_request_valid(&settings(&[("razorpay_key_secret", "secret")]), &req));
    assert!(!razorpay_request_valid(&Settings::new(), &req));
}

#[test]
fn stripe_event_selection() {
    assert_eq!(stripe_event_order("checkout.session.completed", "paid", "42"), Some(42));
    assert_eq!(stripe_event_order("checkout.session.completed", "unpaid", "42"), None);
    assert_eq!(stripe_event_order("invoice.paid", "paid", "42"), None);
    assert_eq!(stripe_event_order("checkout.session.completed", "paid", "x42"), None);
}

#[test]
fn payoneer_configuration() {
    assert!(matches!(checkout_config(&Settings::new(), Provider::Payoneer), Err(CheckoutError::NotEnabled)));
    let partial = settings(&[("commerce_payoneer_enabled", "true"), ("payoneer_client_id", "id")]);
    assert!(matches!(checkout_config(&partial, Provider::Payoneer), Err(CheckoutError::NotConfigured)));
    let full = settings(&[
        ("commerce_payoneer_enabled", "true"),
        ("payoneer_client_id", "id"),
        ("payoneer_client_secret", "sec"),
        ("payoneer_program_id", "prog"),
    ]);
    let c = checkout_config(&full, Provider::Payoneer).ok().unwrap();
    assert_eq!(c.api_base, "https://api.sandbox.payoneer.com");
    assert_eq!(c.credentials, vec!["id".to_string(), "sec".to_string(), "prog".to_string()]);
    let mut live = full;
    live.insert("payoneer_mode".to_string(), "live".to_string());
    assert_eq!(checkout_config(&live, Provider::Payoneer).ok().unwrap().api_base, "https://api.payoneer.com");
}

#[test]
fn provider_configuration() {
    let stripe = settings(&[("commerce_stripe_enabled", "true"), ("stripe_secret_key", "sk")]);
    let c = checkout_config(&stripe, Provider::Stripe).ok().unwrap();
    assert_eq!(c.credentials, vec!["sk".to_string()]);
    assert_eq!(c.api_base, "https://api.stripe.com");
    let square = settings(&[("commerce_square_enabled", "true"), ("square_access_token", "t")]);
    assert!(matches!(checkout_config(&square, Provider::Square), Err(CheckoutError::NotConfigured)));
    let two = settings(&[("commerce_2checkout_enabled", "true"), ("twocheckout_merchant_code", "m"), ("twocheckout_mode", "live")]);
    assert_eq!(checkout_config(&two, Provider::TwoCheckout).ok().unwrap().api_base, "https://www.2checkout.com/checkout/purchase");
    assert_eq!(CheckoutError::NotEnabled.message(Provider::Paypal), "PayPal is not enabled");
    assert_eq!(CheckoutError::NotConfigured.message(Provider::Stripe), "Stripe secret key not configured");
    assert_eq!(CheckoutError::NotConfigured.message(Provider::Mollie), "Mollie API key not configured");
    assert_eq!(CheckoutError::NotConfigured.message(Provider::TwoCheckout), "2Checkout merchant code not configured");
    assert_eq!(CheckoutError::NotConfigured.message(Provider::Square), "Square credentials not configured");
}

#[test]
fn provider_urls() {
    assert_eq!(return_url("https://s.io", Provider::Mollie, "12"), "https://s.io/api/mollie/return?order_id=12");
    assert_eq!(webhook_url("https://s.io", Provider::Square), "https://s.io/api/square/webhook");
    let (ok, cancel) = stripe_redirect_urls("https://s.io", 5, "pic");
    assert_eq!(ok, "https://s.io/api/stripe/success?session_id={CHECKOUT_SESSION_ID}&order_id=5");
    assert_eq!(cancel, "https://s.io/portfolio/pic");
}

#[test]
fn payoneer_payout_and_link() {
    assert_eq!(velocty::commerce::payoneer_payout_id("ab-12"), "velocty_ab-12");
    let link = velocty::commerce::payoneer_checkout_link;
    assert_eq!(link(Some("r".to_string()), Some("c".to_string()), None), Ok("r".to_string()));
    assert_eq!(link(None, Some("c".to_string()), Some("d".to_string())), Ok("c".to_string()));
    assert_eq!(link(None, None, Some("bad amount".to_string())), Err("bad amount".to_string()));
    assert_eq!(link(None, None, None), Err("Payoneer API error".to_string()));
}

#[test]
fn complete_only_pending_orders() {
    let s = settings(&[("site_url", "https://shop.example"), ("downloads_max_per_purchase", "5")]);
    assert_eq!(complete_order(&s, None).err(), Some(CompletionRefusal::OrderNotFound));
    assert_eq!(complete_order(&s, Some("completed")).err(), Some(CompletionRefusal::AlreadyCompleted));
    assert_eq!(CompletionRefusal::AlreadyCompleted.message(), "Order already completed");
    let c = complete_order(&s, Some("pending")).ok().expect("completed");
    assert_eq!(c.download_token.len(), 32);
    assert_eq!(c.license_key.len(), 19);
    assert_eq!(c.max_downloads, 5);
    assert_eq!(c.expiry_hours, 48);
    assert_eq!(c.download_url, format!("https://shop.example/download/{}", c.download_token));
}

#[test]
fn square_webhook_needs_key_and_signature() {
    let body = RawBody(b"{\"type\":\"payment.completed\"}".to_vec());
    let good = SquareSignature("9dhm6YRj5+q2qsDbLcP7IyVQ1fsUmpicuZF4ALg5jCg=".to_string());
    let none = settings(&[("site_url", "https://shop.example")]);
    assert_eq!(square_webhook_check(&none, &good, &body), Err(WebhookRefusal::NoSecret));
    let s = settings(&[("site_url", "https://shop.example"), ("square_webhook_signature_key", "sqkey")]);
    assert_eq!(square_webhook_check(&s, &good, &body), Ok(()));
    let bad = SquareSignature("AAAA".to_string());
    assert_eq!(square_webhook_check(&s, &bad, &body), Err(WebhookRefusal::BadSignature));
    assert_eq!(square_order_ref("Order #ab-1"), "ab-1");
    assert_eq!(square_order_ref("order ab-1"), "");
}

#[test]
fn provider_notifications() {
    assert_eq!(mollie_payment_id("id=tr_123"), "tr_123");
    assert_eq!(mollie_payment_id("tr_123"), "tr_123");
    assert_eq!(mollie_paid_order("paid", "42"), Some(42));
    assert_eq!(mollie_paid_order("open", "42"), None);
    assert_eq!(mollie_paid_order("paid", "x"), None);
    assert_eq!(payoneer_webhook_order("done", "velocty_ab"), Some("ab".to_string()));
    assert_eq!(payoneer_webhook_order("completed", "velocty_"), None);
    assert_eq!(payoneer_webhook_order("pending", "velocty_ab"), None);
    assert_eq!(payoneer_webhook_order("done", "other_ab"), None);
    assert_eq!(twocheckout_reference(17), "2co_17");
    assert_eq!(twocheckout_reference(-3), "2co_-3");
}
