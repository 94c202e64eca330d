use vstd::prelude::*;
use crate::settings::{Settings, value_or};
use crate::text::{strip_prefix, strip_prefix_str, str_eq, parse_int};
use crate::commerce::{
    RawBody, SquareSignature, StripeSignature, WebhookRefusal, stripe_webhook_check, square_webhook_check,
    stripe_signature_valid, square_signature_valid, stripe_event_order, stripe_event_order_spec,
    mollie_paid_order, payoneer_webhook_order,
};

verus! {

// ── Reading a JSON body ─────────────────────────────────────────────

/// Whether `serde_json::from_slice::<serde_json::Value>` accepts `body`.
pub uninterp spec fn json_parses(body: Seq<u8>) -> bool;

/// What `serde_json::Value::pointer` finds at the JSON pointer `pointer` in the
/// document `body`: `None` where nothing is there, `Some(Some(t))` for a string `t`,
/// `Some(None)` for a value of another kind.
pub uninterp spec fn json_field(body: Seq<u8>, pointer: Seq<char>) -> Option<Option<Seq<char>>>;

/// A found field as plain text values.
pub open spec fn field_view(f: Option<Option<String>>) -> Option<Option<Seq<char>>> {
    match f {
        Some(Some(t)) => Some(Some(t@)),
        Some(None) => Some(None),
        None => None,
    }
}

/// The text of a field, empty where it is missing or not a string.
pub open spec fn text_or_empty(f: Option<Option<Seq<char>>>) -> Seq<char> {
    match f {
        Some(Some(t)) => t,
        _ => Seq::empty(),
    }
}

/// Parses `body` with `serde_json::from_slice` into a `serde_json::Value` and looks up
/// `pointer` with `Value::pointer`, keeping the text of a string value. `Err` exactly
/// where the body is not JSON; otherwise the field as `json_field` names it.
#[verifier::external_body]
fn json_field_at(body: &[u8], pointer: &str) -> (r: Result<Option<Option<String>>, ()>)
    ensures
        (r is Ok) == json_parses(body@),
        r matches Ok(f) ==> field_view(f) == json_field(body@, pointer@),
{
    match serde_json::from_slice::<serde_json::Value>(body) {
        Ok(v) => Ok(v.pointer(pointer).map(|x| x.as_str().map(|t| t.to_string()))),
        Err(_) => Err(()),
    }
}

/// The text at `pointer` in a body known to be JSON; empty where it is missing or
/// not a string.
fn json_text(body: &[u8], pointer: &str) -> (r: String)
    requires
        json_parses(body@),
    ensures
        r@ == text_or_empty(json_field(body@, pointer@)),
{
    match json_field_at(body, pointer) {
        Ok(Some(Some(t))) => t,
        _ => String::new(),
    }
}

// ── Stripe ──────────────────────────────────────────────────────────

/// A paid Stripe checkout: the order to complete, the checkout session's id and the
/// buyer's e-mail address.
pub struct StripePaid {
    pub order_id: i64,
    pub session_id: String,
    pub buyer_email: String,
}

/// What a Stripe webhook call comes to. It is refused (HTTP 400) where no secret is
/// configured, the signature does not match, the body is not JSON, or a
/// `checkout.session.completed` event has no `data.object`. Otherwise it is accepted
/// (HTTP 200), and a completed session that is paid and names a numeric order in its
/// metadata completes that order with the session's id and the customer's e-mail.
pub open spec fn stripe_webhook_spec(
    m: Map<Seq<char>, Seq<char>>,
    sig: Seq<char>,
    body: Seq<u8>,
) -> Result<Option<(int, Seq<char>, Seq<char>)>, WebhookRefusal> {
    let secret = value_or(m, "stripe_webhook_secret"@, Seq::empty());
    let event_type = text_or_empty(json_field(body, "/type"@));
    if secret.len() == 0 {
        Err(WebhookRefusal::NoSecret)
    } else if !stripe_signature_valid(body, sig, secret) {
        Err(WebhookRefusal::BadSignature)
    } else if !json_parses(body) {
        Err(WebhookRefusal::NotJson)
    } else if event_type != "checkout.session.completed"@ {
        Ok(None)
    } else if json_field(body, "/data/object"@) is None {
        Err(WebhookRefusal::NoEventObject)
    } else {
        match stripe_event_order_spec(
            event_type,
            text_or_empty(json_field(body, "/data/object/payment_status"@)),
            text_or_empty(json_field(body, "/data/object/metadata/order_id"@)),
        ) {
            Some(id) => Ok(
                Some(
                    (
                        id,
                        text_or_empty(json_field(body, "/data/object/id"@)),
                        text_or_empty(json_field(body, "/data/object/customer_details/email"@)),
                    ),
                ),
            ),
            None => Ok(None),
        }
    }
}

/// A Stripe outcome as plain values.
pub open spec fn stripe_outcome_view(r: Result<Option<StripePaid>, WebhookRefusal>) -> Result<
    Option<(int, Seq<char>, Seq<char>)>,
    WebhookRefusal,
> {
    match r {
        Ok(Some(p)) => Ok(Some((p.order_id as int, p.session_id@, p.buyer_email@))),
        Ok(None) => Ok(None),
        Err(e) => Err(e),
    }
}

/// Decides a Stripe webhook call from its settings, signature header and raw body:
/// see `stripe_webhook_spec`.
pub fn stripe_webhook_outcome(settings: &Settings, sig: &StripeSignature, body: &RawBody) -> (r: Result<
    Option<StripePaid>,
    WebhookRefusal,
>)
    ensures
        stripe_outcome_view(r) == stripe_webhook_spec(settings@, sig.0@, body.0@),
{
    match stripe_webhook_check(settings, sig, body) {
        Err(e) => return Err(e),
        Ok(()) => {},
    }
    let b = body.0.as_slice();
    let event_type = match json_field_at(b, "/type") {
        Err(()) => return Err(WebhookRefusal::NotJson),
        Ok(Some(Some(t))) => t,
        Ok(_) => String::new(),
    };
    if !str_eq(event_type.as_str(), "checkout.session.completed") {
        return Ok(None);
    }
    match json_field_at(b, "/data/object") {
        Ok(Some(_)) => {},
        _ => return Err(WebhookRefusal::NoEventObject),
    }
    let paid = json_text(b, "/data/object/payment_status");
    let order_ref = json_text(b, "/data/object/metadata/order_id");
    match stripe_event_order(event_type.as_str(), paid.as_str(), order_ref.as_str()) {
        Some(order_id) => {
            let session_id = json_text(b, "/data/object/id");
            let buyer_email = json_text(b, "/data/object/customer_details/email");
            Ok(Some(StripePaid { order_id, session_id, buyer_email }))
        },
        None => Ok(None),
    }
}

// ── Square ──────────────────────────────────────────────────────────

/// A completed Square payment: the order reference from its note, the payment's id
/// and the buyer's e-mail address.
pub struct SquarePaid {
    pub order_ref: String,
    pub payment_id: String,
    pub buyer_email: String,
}

/// What a Square webhook call comes to. It is refused (HTTP 400) where no signature
/// key is configured, the signature does not match for `{site_url}/api/square/webhook`,
/// or the body is not JSON. Otherwise it is accepted (HTTP 200), and a
/// `payment.completed` event whose payment's note reads `Order #<ref>` with a
/// non-empty reference completes that order with the payment's id and the buyer's
/// e-mail.
pub open spec fn square_webhook_spec(
    m: Map<Seq<char>, Seq<char>>,
    sig: Seq<char>,
    body: Seq<u8>,
) -> Result<Option<(Seq<char>, Seq<char>, Seq<char>)>, WebhookRefusal> {
    let key = value_or(m, "square_webhook_signature_key"@, Seq::empty());
    let url = value_or(m, "site_url"@, "http://localhost:8000"@) + "/api/square/webhook"@;
    let order_ref = match strip_prefix(text_or_empty(json_field(body, "/data/object/payment/note"@)), "Order #"@) {
        Some(rest) => rest,
        None => Seq::empty(),
    };
    if key.len() == 0 {
        Err(WebhookRefusal::NoSecret)
    } else if !square_signature_valid(url, body, sig, key) {
        Err(WebhookRefusal::BadSignature)
    } else if !json_parses(body) {
        Err(WebhookRefusal::NotJson)
    } else if text_or_empty(json_field(body, "/type"@)) != "payment.completed"@ || json_field(
        body,
        "/data/object/payment"@,
    ) is None || order_ref.len() == 0 {
        Ok(None)
    } else {
        Ok(
            Some(
                (
                    order_ref,
                    text_or_empty(json_field(body, "/data/object/payment/id"@)),
                    text_or_empty(json_field(body, "/data/object/payment/buyer_email_address"@)),
                ),
            ),
        )
    }
}

/// A Square outcome as plain values.
pub open spec fn square_outcome_view(r: Result<Option<SquarePaid>, WebhookRefusal>) -> Result<
    Option<(Seq<char>, Seq<char>, Seq<char>)>,
    WebhookRefusal,
> {
    match r {
        Ok(Some(p)) => Ok(Some((p.order_ref@, p.payment_id@, p.buyer_email@))),
        Ok(None) => Ok(None),
        Err(e) => Err(e),
    }
}

/// Decides a Square webhook call from its settings, signature header and raw body:
/// see `square_webhook_spec`.
pub fn square_webhook_outcome(settings: &Settings, sig: &SquareSignature, body: &RawBody) -> (r: Result<
    Option<SquarePaid>,
    WebhookRefusal,
>)
    ensures
        square_outcome_view(r) == square_webhook_spec(settings@, sig.0@, body.0@),
{
    match square_webhook_check(settings, sig, body) {
        Err(e) => return Err(e),
        Ok(()) => {},
    }
    let b = body.0.as_slice();
    let event_type = match json_field_at(b, "/type") {
        Err(()) => return Err(WebhookRefusal::NotJson),
        Ok(Some(Some(t))) => t,
        Ok(_) => String::new(),
    };
    if !str_eq(event_type.as_str(), "payment.completed") {
        return Ok(None);
    }
    match json_field_at(b, "/data/object/payment") {
        Ok(Some(_)) => {},
        _ => return Ok(None),
    }
    let note = json_text(b, "/data/object/payment/note");
    let order_ref = match strip_prefix_str(note.as_str(), "Order #") {
        Some(rest) => rest,
        None => String::new(),
    };
    if order_ref.as_str().is_empty() {
        return Ok(None);
    }
    let payment_id = json_text(b, "/data/object/payment/id");
    let buyer_email = json_text(b, "/data/object/payment/buyer_email_address");
    Ok(Some(SquarePaid { order_ref, payment_id, buyer_email }))
}

// ── Mollie ──────────────────────────────────────────────────────────

/// The order a Mollie payment reply (the JSON that `GET /v2/payments/{id}` answers)
/// completes, with the consumer name recorded as the buyer: a reply that is JSON, whose
/// `status` is `paid` and whose `metadata.order_id` is a number. Nothing otherwise.
pub open spec fn mollie_reply_spec(reply: Seq<u8>) -> Option<(int, Seq<char>)> {
    if json_parses(reply) && text_or_empty(json_field(reply, "/status"@)) == "paid"@ {
        match parse_int(text_or_empty(json_field(reply, "/metadata/order_id"@)), i64::MIN as int, i64::MAX as int) {
            Some(id) => Some((id, text_or_empty(json_field(reply, "/details/consumerName"@)))),
            None => None,
        }
    } else {
        None
    }
}

/// Reads a Mollie payment reply: see `mollie_reply_spec`.
pub fn mollie_reply_order(reply: &[u8]) -> (r: Option<(i64, String)>)
    ensures
        match r {
            Some((id, name)) => mollie_reply_spec(reply@) == Some((id as int, name@)),
            None => mollie_reply_spec(reply@) is None,
        },
{
    let status = match json_field_at(reply, "/status") {
        Err(()) => return None,
        Ok(Some(Some(t))) => t,
        Ok(_) => String::new(),
    };
    let order_ref = json_text(reply, "/metadata/order_id");
    match mollie_paid_order(status.as_str(), order_ref.as_str()) {
        Some(id) => Some((id, json_text(reply, "/details/consumerName"))),
        None => None,
    }
}

// ── Payoneer ────────────────────────────────────────────────────────

/// A finished Payoneer payout: the order reference, the payout's id and the payee's
/// e-mail address.
pub struct PayoneerPaid {
    pub order_ref: String,
    pub payout_id: String,
    pub payee_email: String,
}

/// What a Payoneer webhook body comes to: refused where it is not JSON; otherwise a
/// payout whose `status` is `done` or `completed` and whose `payout_id` reads
/// `velocty_<ref>` with a non-empty reference names that order, with the payout id and
/// the payee's e-mail. Nothing otherwise.
pub open spec fn payoneer_webhook_spec(body: Seq<u8>) -> Result<Option<(Seq<char>, Seq<char>, Seq<char>)>, WebhookRefusal> {
    let status = text_or_empty(json_field(body, "/status"@));
    let payout_id = text_or_empty(json_field(body, "/payout_id"@));
    if !json_parses(body) {
        Err(WebhookRefusal::NotJson)
    } else if (status == "done"@ || status == "completed"@) && (strip_prefix(payout_id, "velocty_"@) matches Some(
        rest,
    ) && rest.len() > 0) {
        Ok(Some((strip_prefix(payout_id, "velocty_"@)->0, payout_id, text_or_empty(json_field(body, "/payee_email"@)))))
    } else {
        Ok(None)
    }
}

/// Decides a Payoneer webhook body: see `payoneer_webhook_spec`.
pub fn payoneer_webhook_outcome(body: &[u8]) -> (r: Result<Option<PayoneerPaid>, WebhookRefusal>)
    ensures
        payoneer_webhook_spec(body@) == match r {
            Ok(Some(p)) => Ok(Some((p.order_ref@, p.payout_id@, p.payee_email@))),
            Ok(None) => Ok(None),
            Err(e) => Err(e),
        },
{
    let status = match json_field_at(body, "/status") {
        Err(()) => return Err(WebhookRefusal::NotJson),
        Ok(Some(Some(t))) => t,
        Ok(_) => String::new(),
    };
    let payout_id = json_text(body, "/payout_id");
    match payoneer_webhook_order(status.as_str(), payout_id.as_str()) {
        Some(order_ref) => {
            let payee_email = json_text(body, "/payee_email");
            Ok(Some(PayoneerPaid { order_ref, payout_id, payee_email }))
        },
        None => Ok(None),
    }
}

} // verus!
