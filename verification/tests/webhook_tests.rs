use base64::Engine;
use hmac::{Hmac, Mac};
use sha2::Sha256;
use velocty::commerce::{RawBody, SquareSignature, StripeSignature, WebhookRefusal};
use velocty::settings::Settings;
use velocty::webhooks::{mollie_reply_order, payoneer_webhook_outcome, square_webhook_outcome, stripe_webhook_outcome};

fn settings(pairs: &[(&str, &str)]) -> Settings {
    let mut s = Settings::new();
    for (k, v) in pairs {
        s.insert(k.to_string(), v.to_string());
    }
    s
}

fn mac(key: &str, msg: &[u8]) -> Vec<u8> {
    let mut m = <Hmac<Sha256> as Mac>::new_from_slice(key.as_bytes()).unwrap();
    m.update(msg);
    m.finalize().into_bytes().to_vec()
}

fn stripe_sig(body: &[u8], secret: &str) -> StripeSignature {
    let mut signed = b"77.".to_vec();
    signed.extend_from_slice(body);
    StripeSignature(format!("t=77,v1={}", hex::encode(mac(secret, &signed))))
}

fn square_sig(url: &str, body: &[u8], key: &str) -> SquareSignature {
    let mut signed = url.as_bytes().to_vec();
    signed.extend_from_slice(body);
    SquareSignature(base64::engine::general_purpose::STANDARD.encode(mac(key, &signed)))
}

#[test]
fn stripe_paid_checkout_completes_its_order() {
    let s = settings(&[("stripe_webhook_secret", "whsec")]);
    let body = br#"{"type":"checkout.session.completed","data":{"object":{"id":"cs_1","payment_status":"paid","metadata":{"order_id":"42"},"customer_details":{"email":"a@b.c"}}}}"#;
    let r = stripe_webhook_outcome(&s, &stripe_sig(body, "whsec"), &RawBody(body.to_vec()));
    let paid = r.ok().flatten().expect("order to complete");
    assert_eq!(paid.order_id, 42);
    assert_eq!(paid.session_id, "cs_1");
    assert_eq!(paid.buyer_email, "a@b.c");
}

#[test]
fn stripe_webhook_refusals_and_ignored_events() {
    let s = settings(&[("stripe_webhook_secret", "whsec")]);
    let unpaid = br#"{"type":"checkout.session.completed","data":{"object":{"payment_status":"unpaid","metadata":{"order_id":"42"}}}}"#;
    let r = stripe_webhook_outcome(&s, &stripe_sig(unpaid, "whsec"), &RawBody(unpaid.to_vec()));
    assert!(matches!(r, Ok(None)));
    let other = br#"{"type":"invoice.paid"}"#;
    assert!(matches!(stripe_webhook_outcome(&s, &stripe_sig(other, "whsec"), &RawBody(other.to_vec())), Ok(None)));
    let no_object = br#"{"type":"checkout.session.completed","data":{}}"#;
    let r = stripe_webhook_outcome(&s, &stripe_sig(no_object, "whsec"), &RawBody(no_object.to_vec()));
    assert!(matches!(r, Err(WebhookRefusal::NoEventObject)));
    let not_json = b"not json";
    let r = stripe_webhook_outcome(&s, &stripe_sig(not_json, "whsec"), &RawBody(not_json.to_vec()));
    assert!(matches!(r, Err(WebhookRefusal::NotJson)));
    let r = stripe_webhook_outcome(&s, &stripe_sig(other, "other"), &RawBody(other.to_vec()));
    assert!(matches!(r, Err(WebhookRefusal::BadSignature)));
    let r = stripe_webhook_outcome(&Settings::new(), &stripe_sig(other, "whsec"), &RawBody(other.to_vec()));
    assert!(matches!(r, Err(WebhookRefusal::NoSecret)));
}

#[test]
fn square_completed_payment_names_its_order() {
    let s = settings(&[("site_url", "https://shop.example"), ("square_webhook_signature_key", "sqkey")]);
    let url = "https://shop.example/api/square/webhook";
    let body = br#"{"type":"payment.completed","data":{"object":{"payment":{"id":"p1","note":"Order #u-9","buyer_email_address":"x@y.z"}}}}"#;
    let r = square_webhook_outcome(&s, &square_sig(url, body, "sqkey"), &RawBody(body.to_vec()));
    let paid = r.ok().flatten().expect("order to complete");
    assert_eq!(paid.order_ref, "u-9");
    assert_eq!(paid.payment_id, "p1");
    assert_eq!(paid.buyer_email, "x@y.z");
    let other_note = br#"{"type":"payment.completed","data":{"object":{"payment":{"id":"p1","note":"gift"}}}}"#;
    let r = square_webhook_outcome(&s, &square_sig(url, other_note, "sqkey"), &RawBody(other_note.to_vec()));
    assert!(matches!(r, Ok(None)));
    let not_json = b"{";
    let r = square_webhook_outcome(&s, &square_sig(url, not_json, "sqkey"), &RawBody(not_json.to_vec()));
    assert!(matches!(r, Err(WebhookRefusal::NotJson)));
}

#[test]
fn mollie_reply_names_a_paid_order() {
    let paid = br#"{"status":"paid","metadata":{"order_id":"17"},"details":{"consumerName":"Ann"}}"#;
    assert_eq!(mollie_reply_order(paid), Some((17, "Ann".to_string())));
    let open = br#"{"status":"open","metadata":{"order_id":"17"}}"#;
    assert_eq!(mollie_reply_order(open), None);
    assert_eq!(mollie_reply_order(br#"{"status":"paid","metadata":{"order_id":"x"}}"#), None);
    assert_eq!(mollie_reply_order(b"<html>"), None);
}

#[test]
fn payoneer_done_payout_names_its_order() {
    let body = br#"{"status":"done","payout_id":"velocty_ab12","payee_email":"p@q.r"}"#;
    let paid = payoneer_webhook_outcome(body).ok().flatten().expect("order to complete");
    assert_eq!(paid.order_ref, "ab12");
    assert_eq!(paid.payout_id, "velocty_ab12");
    assert_eq!(paid.payee_email, "p@q.r");
    assert!(matches!(payoneer_webhook_outcome(br#"{"status":"pending","payout_id":"velocty_ab12"}"#), Ok(None)));
    assert!(matches!(payoneer_webhook_outcome(br#"{"status":"done","payout_id":"velocty_"}"#), Ok(None)));
    assert!(matches!(payoneer_webhook_outcome(b"nope"), Err(WebhookRefusal::NotJson)));
}
