use vstd::prelude::*;
use vstd::utf8::{encode_utf8, encode_scalar, decode_utf8, valid_utf8, encode_utf8_decode_utf8};
use crate::settings::{Settings, value_or, flag_on, i64_or};
use crate::text::{
    starts_with, strip_prefix, opt_view, split_char, lemma_split_char_extend, flat_map_chars, decimal_int, parse_int,
    opt_i64, split_str, strip_prefix_str, str_eq, owned, push_str, i64_to_decimal,
    concat_bytes, lemma_flat_map_push, lemma_take_push, chars_of, parse_i64,
};
use hmac::{Hmac, Mac};
use sha2::Sha256;
use base64::Engine;
use rand::Rng;

verus! {

// ── Hexadecimal and Base64 text ─────────────────────────────────────

/// The lowercase hexadecimal digit for `d < 16`.
pub open spec fn hex_digit_lower(d: int) -> char {
    if d < 10 {
        (d + 48) as char
    } else {
        (d + 87) as char
    }
}

/// The uppercase hexadecimal digit for `d < 16`.
pub open spec fn hex_digit_upper(d: int) -> char {
    if d < 10 {
        (d + 48) as char
    } else {
        (d + 55) as char
    }
}

/// Two lowercase hexadecimal digits per byte, high half first.
pub open spec fn hex_lower(b: Seq<u8>) -> Seq<char>
    decreases b.len(),
{
    if b.len() == 0 {
        Seq::empty()
    } else {
        hex_lower(b.drop_last()) + seq![
            hex_digit_lower(b.last() as int / 16),
            hex_digit_lower(b.last() as int % 16),
        ]
    }
}

/// `{:04X}` of `n`: four uppercase hexadecimal digits.
pub open spec fn hex4_upper(n: u16) -> Seq<char> {
    seq![
        hex_digit_upper(n as int / 4096),
        hex_digit_upper((n as int / 256) % 16),
        hex_digit_upper((n as int / 16) % 16),
        hex_digit_upper(n as int % 16),
    ]
}

/// The character of the standard Base64 alphabet for `v < 64`.
pub open spec fn b64_char(v: int) -> char {
    if v < 26 {
        (v + 65) as char
    } else if v < 52 {
        (v + 71) as char
    } else if v < 62 {
        (v - 4) as char
    } else if v == 62 {
        '+'
    } else {
        '/'
    }
}

/// Standard Base64 (RFC 4648 alphabet, `=` padding) of `b`.
pub open spec fn base64_std(b: Seq<u8>) -> Seq<char>
    decreases b.len(),
{
    if b.len() == 0 {
        Seq::empty()
    } else {
        let b0 = b[0] as int;
        let b1 = if b.len() > 1 { b[1] as int } else { 0 };
        let b2 = if b.len() > 2 { b[2] as int } else { 0 };
        let c0 = b64_char(b0 / 4);
        let c1 = b64_char((b0 % 4) * 16 + b1 / 16);
        let c2 = b64_char((b1 % 16) * 4 + b2 / 64);
        let c3 = b64_char(b2 % 64);
        if b.len() == 1 {
            seq![c0, c1, '=', '=']
        } else if b.len() == 2 {
            seq![c0, c1, c2, '=']
        } else {
            seq![c0, c1, c2, c3] + base64_std(b.skip(3))
        }
    }
}

/// Calls `hex::encode`, which writes each byte as two lowercase hexadecimal digits,
/// high half first.
#[verifier::external_body]
pub(crate) fn hex_encode(bytes: &[u8]) -> (r: String)
    ensures
        r@ == hex_lower(bytes@),
{
    hex::encode(bytes)
}

/// Calls `Engine::encode` of base64's `general_purpose::STANDARD` engine: the RFC 4648
/// standard alphabet with `=` padding.
#[verifier::external_body]
pub(crate) fn base64_encode(bytes: &[u8]) -> (r: String)
    ensures
        r@ == base64_std(bytes@),
{
    base64::engine::general_purpose::STANDARD.encode(bytes)
}

// ── Message authentication ──────────────────────────────────────────

/// The HMAC-SHA256 tag of `msg` under `key` (RFC 2104 over SHA-256), as the `hmac`
/// and `sha2` crates compute it.
pub uninterp spec fn hmac_sha256(key: Seq<u8>, msg: Seq<u8>) -> Seq<u8>;

/// Computes HMAC-SHA256 with `hmac::Hmac<sha2::Sha256>`: `new_from_slice(key)`, one
/// `update(msg)`, `finalize`. The result is `hmac_sha256` of the key and the message.
/// `new_from_slice` of that type accepts keys of every length (a key longer than the
/// block is hashed first), so the error arm is never taken.
#[verifier::external_body]
fn hmac_sha256_of(key: &[u8], msg: &[u8]) -> (r: Vec<u8>)
    ensures
        r@ == hmac_sha256(key@, msg@),
{
    match <Hmac<Sha256> as Mac>::new_from_slice(key) {
        Ok(mut mac) => {
            mac.update(msg);
            mac.finalize().into_bytes().to_vec()
        },
        Err(_) => Vec::new(),
    }
}

/// What `String::from_utf8_lossy` makes of `bytes`: the text, with each invalid
/// sequence replaced by U+FFFD.
pub uninterp spec fn utf8_lossy(bytes: Seq<u8>) -> Seq<char>;

/// Calls `String::from_utf8_lossy`. Its result depends on the bytes alone, and for
/// valid UTF-8 it is the decoded text unchanged, as std documents.
#[verifier::external_body]
fn lossy_text(bytes: &[u8]) -> (r: String)
    ensures
        r@ == utf8_lossy(bytes@),
        valid_utf8(bytes@) ==> r@ == decode_utf8(bytes@),
{
    String::from_utf8_lossy(bytes).into_owned()
}

// ── Randomness ──────────────────────────────────────────────────────

/// `n` bytes filled by `rand::thread_rng()`; nothing is promised of their values.
#[verifier::external_body]
pub(crate) fn random_bytes(n: usize) -> (r: Vec<u8>)
    ensures
        r@.len() == n,
{
    let mut b = vec![0u8; n];
    rand::thread_rng().fill(&mut b[..]);
    b
}

/// A `u16` from `rand::thread_rng()`; nothing is promised of its value.
#[verifier::external_body]
fn random_u16() -> (r: u16) {
    rand::thread_rng().gen()
}

// ── Comparison and encoding helpers ─────────────────────────────────

/// Compares two byte strings without stopping at the first difference, so that the
/// time taken does not tell where they differ.
pub fn constant_time_eq(a: &[u8], b: &[u8]) -> (r: bool)
    ensures
        r == (a@ == b@),
{
    if a.len() != b.len() {
        return false;
    }
    let mut diff: u8 = 0;
    let mut i: usize = 0;
    while i < a.len()
        invariant
            a.len() == b.len(),
            i <= a.len(),
            (diff == 0) == (forall|j: int| 0 <= j < i ==> a@[j] == b@[j]),
        decreases a.len() - i,
    {
        let x = a[i];
        let y = b[i];
        let d = diff;
        assert(((d | (x ^ y)) == 0) == (d == 0 && x == y)) by (bit_vector);
        diff = diff | (x ^ y);
        i = i + 1;
    }
    proof {
        if diff == 0 {
            assert(a@ =~= b@);
        }
    }
    diff == 0
}

fn hex_digit_upper_of(d: u8) -> (c: char)
    requires
        d < 16,
    ensures
        c == hex_digit_upper(d as int),
{
    if d < 10 {
        (d + 48) as char
    } else {
        (d + 55) as char
    }
}

/// Characters that pass through `urlencoding` unchanged.
pub open spec fn url_unreserved(c: char) -> bool {
    ('A' <= c && c <= 'Z') || ('a' <= c && c <= 'z') || ('0' <= c && c <= '9') || c == '-'
        || c == '_' || c == '.' || c == '~'
}

/// One byte of a character's UTF-8 encoding as `urlencoding` writes it: an unreserved
/// ASCII character unchanged, `+` for a space, else `%` and the byte's two uppercase
/// hexadecimal digits.
pub open spec fn url_encode_byte(b: u8) -> Seq<char> {
    if url_unreserved(b as char) {
        seq![b as char]
    } else if b == 32 {
        seq!['+']
    } else {
        seq!['%', hex_digit_upper(b as int / 16), hex_digit_upper(b as int % 16)]
    }
}

/// The encoding of a byte sequence, byte by byte.
pub open spec fn url_encode_bytes(b: Seq<u8>) -> Seq<char>
    decreases b.len(),
{
    if b.len() == 0 {
        Seq::empty()
    } else {
        url_encode_bytes(b.drop_last()) + url_encode_byte(b.last())
    }
}

/// The query-string encoding of `s`: its UTF-8 bytes percent-encoded, with unreserved
/// characters kept and a space written `+`.
pub open spec fn url_encode(s: Seq<char>) -> Seq<char> {
    url_encode_bytes(encode_utf8(s))
}

/// URL encoding for query parameters (form encoding of the text's UTF-8 bytes).
pub fn urlencoding(s: &str) -> (r: String)
    ensures
        r@ == url_encode(s@),
{
    let bytes = s.as_bytes();
    let mut r = String::new();
    let mut i: usize = 0;
    proof {
        assert(bytes@.take(0) =~= Seq::<u8>::empty());
    }
    while i < bytes.len()
        invariant
            i <= bytes@.len(),
            bytes@ == encode_utf8(s@),
            r@ == url_encode_bytes(bytes@.take(i as int)),
        decreases bytes.len() - i,
    {
        let x = bytes[i];
        proof {
            assert(bytes@.take(i + 1).drop_last() =~= bytes@.take(i as int));
            assert(bytes@.take(i + 1).last() == x);
        }
        let c = x as char;
        if ('A' <= c && c <= 'Z') || ('a' <= c && c <= 'z') || ('0' <= c && c <= '9') || c
            == '-' || c == '_' || c == '.' || c == '~' {
            r.push(c);
        } else if x == 32 {
            r.push('+');
        } else {
            r.push('%');
            r.push(hex_digit_upper_of(x / 16));
            r.push(hex_digit_upper_of(x % 16));
        }
        proof {
            assert(r@ =~= url_encode_bytes(bytes@.take(i as int)) + url_encode_byte(x));
        }
        i = i + 1;
    }
    proof {
        assert(bytes@.take(bytes@.len() as int) =~= bytes@);
    }
    r
}

/// `hex_lower` of a prefix grows by the two digits of the next byte.
pub(crate) proof fn lemma_hex_lower_len(b: Seq<u8>)
    ensures
        hex_lower(b).len() == 2 * b.len(),
    decreases b.len(),
{
    if b.len() > 0 {
        lemma_hex_lower_len(b.drop_last());
    }
}

// ── Site settings used by checkout ─────────────────────────────────

/// Base URL for webhooks and redirects.
pub fn site_url(settings: &Settings) -> (r: String)
    ensures
        r@ == value_or(settings@, "site_url"@, "http://localhost:8000"@),
{
    settings.get_or("site_url", "http://localhost:8000")
}

/// The shop's currency code.
pub fn currency(settings: &Settings) -> (r: String)
    ensures
        r@ == value_or(settings@, "commerce_currency"@, "USD"@),
{
    settings.get_or("commerce_currency", "USD")
}

// ── Download tokens and license keys ───────────────────────────────

/// A secure random token for downloads: 16 random bytes in lowercase hexadecimal.
pub fn generate_token() -> (r: String)
    ensures
        exists|b: Seq<u8>| b.len() == 16 && r@ == hex_lower(b),
        r@.len() == 32,
{
    let bytes = random_bytes(16);
    let r = hex_encode(bytes.as_slice());
    proof {
        lemma_hex_lower_len(bytes@);
    }
    r
}

/// The license key text for four 16-bit parts: `XXXX-XXXX-XXXX-XXXX` in uppercase
/// hexadecimal.
pub open spec fn license_key_text(a: u16, b: u16, c: u16, d: u16) -> Seq<char> {
    hex4_upper(a) + seq!['-'] + hex4_upper(b) + seq!['-'] + hex4_upper(c) + seq!['-']
        + hex4_upper(d)
}

fn push_hex4(s: &mut String, n: u16)
    ensures
        final(s)@ == old(s)@ + hex4_upper(n),
{
    s.push(hex_digit_upper_of((n / 4096) as u8));
    s.push(hex_digit_upper_of(((n / 256) % 16) as u8));
    s.push(hex_digit_upper_of(((n / 16) % 16) as u8));
    s.push(hex_digit_upper_of((n % 16) as u8));
    proof {
        assert(final(s)@ =~= old(s)@ + hex4_upper(n));
    }
}

/// Formats four 16-bit parts as a license key.
pub fn license_key_of(a: u16, b: u16, c: u16, d: u16) -> (r: String)
    ensures
        r@ == license_key_text(a, b, c, d),
{
    let mut s = String::new();
    push_hex4(&mut s, a);
    s.push('-');
    push_hex4(&mut s, b);
    s.push('-');
    push_hex4(&mut s, c);
    s.push('-');
    push_hex4(&mut s, d);
    proof {
        assert(s@ =~= license_key_text(a, b, c, d));
    }
    s
}

/// A license key in the format `XXXX-XXXX-XXXX-XXXX` from four random parts.
pub fn generate_license_key() -> (r: String)
    ensures
        exists|a: u16, b: u16, c: u16, d: u16| r@ == license_key_text(a, b, c, d),
{
    let a = random_u16();
    let b = random_u16();
    let c = random_u16();
    let d = random_u16();
    license_key_of(a, b, c, d)
}

/// The per-purchase download limit and link lifetime in hours that finalising an
/// order uses: `downloads_max_per_purchase` (3 where unset or not a number) and
/// `downloads_expiry_hours` (48 likewise).
pub fn download_limits(settings: &Settings) -> (r: (i64, i64))
    ensures
        r.0 == i64_or(settings@, "downloads_max_per_purchase"@, 3),
        r.1 == i64_or(settings@, "downloads_expiry_hours"@, 48),
{
    (settings.i64_or("downloads_max_per_purchase", 3), settings.i64_or("downloads_expiry_hours", 48))
}

/// What completing a paid order hands out: a download token with its limits and link,
/// and a license key.
pub struct CompletedOrder {
    pub download_token: String,
    pub license_key: String,
    pub max_downloads: i64,
    pub expiry_hours: i64,
    pub download_url: String,
}

/// Why a paid order cannot be completed.
#[derive(PartialEq, Eq, Structural, Clone, Copy, Debug)]
pub enum CompletionRefusal {
    OrderNotFound,
    AlreadyCompleted,
}

impl CompletionRefusal {
    /// The error returned for the order.
    pub fn message(&self) -> (r: &'static str)
        ensures
            *self == CompletionRefusal::OrderNotFound ==> r@ == "Order not found"@,
            *self == CompletionRefusal::AlreadyCompleted ==> r@ == "Order already completed"@,
    {
        match self {
            CompletionRefusal::OrderNotFound => "Order not found",
            CompletionRefusal::AlreadyCompleted => "Order already completed",
        }
    }
}

/// Completes a paid order whose stored status is `status` (`None` where no such order
/// exists): only a pending order is completed. It gets a fresh download token (16
/// random bytes in lowercase hexadecimal), the configured download limits, its link
/// `{site_url}/download/{token}` and a fresh license key.
pub fn complete_order(settings: &Settings, status: Option<&str>) -> (r: Result<CompletedOrder, CompletionRefusal>)
    ensures
        status is None ==> r == Err::<CompletedOrder, CompletionRefusal>(CompletionRefusal::OrderNotFound),
        status matches Some(st) && st@ != "pending"@ ==> r == Err::<CompletedOrder, CompletionRefusal>(
            CompletionRefusal::AlreadyCompleted,
        ),
        status matches Some(st) && st@ == "pending"@ ==> (r matches Ok(c) && {
            &&& exists|b: Seq<u8>| b.len() == 16 && c.download_token@ == hex_lower(b)
            &&& exists|a: u16, b: u16, x: u16, d: u16| c.license_key@ == license_key_text(a, b, x, d)
            &&& c.max_downloads == i64_or(settings@, "downloads_max_per_purchase"@, 3)
            &&& c.expiry_hours == i64_or(settings@, "downloads_expiry_hours"@, 48)
            &&& c.download_url@ == value_or(settings@, "site_url"@, "http://localhost:8000"@)
                + "/download/"@ + c.download_token@
        }),
{
    match status {
        None => Err(CompletionRefusal::OrderNotFound),
        Some(st) => {
            if !str_eq(st, "pending") {
                return Err(CompletionRefusal::AlreadyCompleted);
            }
            let (max_downloads, expiry_hours) = download_limits(settings);
            let download_token = generate_token();
            let license_key = generate_license_key();
            let mut download_url = site_url(settings);
            push_str(&mut download_url, "/download/");
            push_str(&mut download_url, download_token.as_str());
            Ok(CompletedOrder { download_token, license_key, max_downloads, expiry_hours, download_url })
        },
    }
}

/// Why a download link that is no longer valid is refused.
#[derive(PartialEq, Eq, Structural, Clone, Copy, Debug)]
pub enum DownloadRefusal {
    LimitReached,
    Expired,
}

impl DownloadRefusal {
    /// The message shown on the download page.
    pub fn message(&self) -> (r: &'static str)
        ensures
            *self == DownloadRefusal::LimitReached ==> r@ == "Download limit reached"@,
            *self == DownloadRefusal::Expired ==> r@ == "Download link has expired"@,
    {
        match self {
            DownloadRefusal::LimitReached => "Download limit reached",
            DownloadRefusal::Expired => "Download link has expired",
        }
    }
}

/// For an invalid download token: the limit was reached where every allowed download
/// was used, otherwise the link expired.
pub fn download_refusal(downloads_used: i64, max_downloads: i64) -> (r: DownloadRefusal)
    ensures
        (r == DownloadRefusal::LimitReached) == (downloads_used >= max_downloads),
{
    if downloads_used >= max_downloads {
        DownloadRefusal::LimitReached
    } else {
        DownloadRefusal::Expired
    }
}

/// The transaction reference printed on a license: the provider's order id, or
/// `ORD-` and the order number where the provider gave none.
pub open spec fn transaction_ref(provider_order_id: Seq<char>, order_id: int) -> Seq<char> {
    if provider_order_id.len() == 0 {
        seq!['O', 'R', 'D', '-'] + decimal_int(order_id)
    } else {
        provider_order_id
    }
}

/// The text of `license.txt`.
pub open spec fn license_text_spec(
    item_title: Seq<char>,
    site_name: Seq<char>,
    txn: Seq<char>,
    created_at: Seq<char>,
    license_key: Option<Seq<char>>,
    template: Seq<char>,
) -> Seq<char> {
    "License for: "@ + item_title + seq!['\n'] + "Purchased from: "@ + site_name + seq!['\n']
        + "Transaction: "@ + txn + seq!['\n'] + "Date: "@ + created_at + seq!['\n'] + (
    match license_key {
        Some(k) => "License Key: "@ + k + seq!['\n'],
        None => Seq::empty(),
    }) + "\n---\n\n"@ + template
}

/// The license file served for a completed order: the item, the site name setting
/// (`Velocty` where unset), the transaction, the order date, the license key if one
/// was issued, and the `downloads_license_template` setting.
pub fn license_text(
    settings: &Settings,
    item_title: &str,
    provider_order_id: &str,
    order_id: i64,
    created_at: &str,
    license_key: Option<&str>,
) -> (r: String)
    ensures
        r@ == license_text_spec(
            item_title@,
            value_or(settings@, "site_name"@, "Velocty"@),
            transaction_ref(provider_order_id@, order_id as int),
            created_at@,
            match license_key {
                Some(k) => Some(k@),
                None => None,
            },
            value_or(settings@, "downloads_license_template"@, Seq::empty()),
        ),
{
    let site_name = settings.get_or("site_name", "Velocty");
    let template = settings.get_or_empty("downloads_license_template");
    let mut txt = String::new();
    push_str(&mut txt, "License for: ");
    push_str(&mut txt, item_title);
    txt.push('\n');
    push_str(&mut txt, "Purchased from: ");
    push_str(&mut txt, site_name.as_str());
    txt.push('\n');
    push_str(&mut txt, "Transaction: ");
    if provider_order_id.is_empty() {
        push_str(&mut txt, "ORD-");
        let n = i64_to_decimal(order_id);
        push_str(&mut txt, n.as_str());
    } else {
        push_str(&mut txt, provider_order_id);
    }
    txt.push('\n');
    push_str(&mut txt, "Date: ");
    push_str(&mut txt, created_at);
    txt.push('\n');
    let ghost before_key = txt@;
    match license_key {
        Some(k) => {
            push_str(&mut txt, "License Key: ");
            push_str(&mut txt, k);
            txt.push('\n');
        },
        None => {},
    }
    push_str(&mut txt, "\n---\n\n");
    push_str(&mut txt, template.as_str());
    proof {
        reveal_strlit("ORD-");
        assert("ORD-"@ =~= seq!['O', 'R', 'D', '-']);
        let lk = match license_key {
            Some(k) => Some(k@),
            None => None,
        };
        assert(txt@ =~= license_text_spec(
            item_title@,
            site_name@,
            transaction_ref(provider_order_id@, order_id as int),
            created_at@,
            lk,
            template@,
        ));
    }
    txt
}

// ── Webhook signatures ──────────────────────────────────────────────

/// The value after `prefix` in the last comma-separated part of a signature header
/// that begins with `prefix`; empty where no part does.
pub open spec fn header_field(parts: Seq<Seq<char>>, prefix: Seq<char>) -> Seq<char>
    decreases parts.len(),
{
    if parts.len() == 0 {
        Seq::empty()
    } else if starts_with(parts.last(), prefix) {
        parts.last().skip(prefix.len() as int)
    } else {
        header_field(parts.drop_last(), prefix)
    }
}

/// The timestamp (`t=`) and signature (`v1=`) of a `Stripe-Signature` header.
pub open spec fn stripe_header(h: Seq<char>) -> (Seq<char>, Seq<char>) {
    let parts = split_char(h, ',');
    (header_field(parts, seq!['t', '=']), header_field(parts, seq!['v', '1', '=']))
}

/// Whether a Stripe webhook is authentic: the header has a timestamp and a signature,
/// and the signature is the lowercase hexadecimal HMAC-SHA256, under the webhook
/// secret, of the timestamp, a dot and the payload read as (lossy) UTF-8.
pub open spec fn stripe_signature_valid(payload: Seq<u8>, header: Seq<char>, secret: Seq<char>) -> bool {
    let (ts, sig) = stripe_header(header);
    ts.len() > 0 && sig.len() > 0 && hex_lower(
        hmac_sha256(encode_utf8(secret), encode_utf8(ts + seq!['.'] + utf8_lossy(payload))),
    ) == sig
}

/// A `Stripe-Signature` header written `t=<ts>,v1=<sig>`, with neither part empty nor
/// holding a comma, reads back as that timestamp and signature; so the webhook check
/// passes exactly where `sig` is the signature expected for `ts` and the payload.
pub proof fn stripe_header_reads_back(payload: Seq<u8>, ts: Seq<char>, sig: Seq<char>, secret: Seq<char>)
    requires
        ts.len() > 0,
        sig.len() > 0,
        forall|i: int| 0 <= i < ts.len() ==> ts[i] != ',',
        forall|i: int| 0 <= i < sig.len() ==> sig[i] != ',',
    ensures
        stripe_header(seq!['t', '='] + ts + seq![','] + seq!['v', '1', '='] + sig) == (ts, sig),
        stripe_signature_valid(payload, seq!['t', '='] + ts + seq![','] + seq!['v', '1', '='] + sig, secret)
            == (hex_lower(
            hmac_sha256(encode_utf8(secret), encode_utf8(ts + seq!['.'] + utf8_lossy(payload))),
        ) == sig),
{
    let t = seq!['t', '='] + ts;
    let v = seq!['v', '1', '='] + sig;
    let h = t + seq![','] + v;
    assert forall|i: int| 0 <= i < t.len() implies t[i] != ',' by {
        if i >= 2 {
            assert(t[i] == ts[i - 2]);
        }
    }
    assert forall|i: int| 0 <= i < v.len() implies v[i] != ',' by {
        if i >= 3 {
            assert(v[i] == sig[i - 3]);
        }
    }
    lemma_split_char_extend(Seq::<char>::empty(), t, ',');
    assert(Seq::<char>::empty() + t =~= t);
    assert(split_char(Seq::<char>::empty(), ',') =~= seq![Seq::<char>::empty()]);
    assert(split_char(t, ',') =~= seq![t]);
    let tc = t + seq![','];
    assert(tc.drop_last() =~= t);
    assert(split_char(tc, ',') =~= seq![t, Seq::<char>::empty()]);
    lemma_split_char_extend(tc, v, ',');
    assert(tc + v =~= h);
    let parts = split_char(h, ',');
    assert(parts =~= seq![t, v]);
    assert(v.take(3) =~= seq!['v', '1', '=']);
    assert(v.skip(3) =~= sig);
    assert(v.take(2) =~= seq!['v', '1']);
    assert(v.take(2)[0] != seq!['t', '='][0]);
    assert(!starts_with(v, seq!['t', '=']));
    assert(parts.drop_last() =~= seq![t]);
    assert(parts.last() == v);
    assert(header_field(parts, seq!['v', '1', '=']) == sig);
    assert(seq![t].last() == t);
    assert(t.take(2) =~= seq!['t', '=']);
    assert(t.skip(2) =~= ts);
    assert(starts_with(t, seq!['t', '=']));
    assert(header_field(seq![t], seq!['t', '=']) == ts);
    assert(header_field(parts, seq!['t', '=']) == ts);
    assert(h =~= seq!['t', '='] + ts + seq![','] + seq!['v', '1', '='] + sig);
}

fn last_field(parts: &Vec<String>, prefix: &str) -> (r: String)
    ensures
        r@ == header_field(parts@.map_values(|p: String| p@), prefix@),
{
    let ghost ps = parts@.map_values(|p: String| p@);
    let mut i: usize = parts.len();
    proof {
        assert(ps.take(i as int) =~= ps);
    }
    while i > 0
        invariant
            i <= parts.len(),
            ps == parts@.map_values(|p: String| p@),
            header_field(ps, prefix@) == header_field(ps.take(i as int), prefix@),
        decreases i,
    {
        let p = &parts[i - 1];
        proof {
            assert(ps.take(i as int).last() == p@);
            assert(ps.take(i as int).drop_last() =~= ps.take(i - 1));
        }
        match strip_prefix_str(p.as_str(), prefix) {
            Some(rest) => {
                return rest;
            },
            None => {},
        }
        i = i - 1;
    }
    proof {
        assert(ps.take(0) =~= Seq::<Seq<char>>::empty());
    }
    String::new()
}

/// Splits a `Stripe-Signature` header into its timestamp and signature.
pub fn stripe_signature_parts(header: &str) -> (r: (String, String))
    ensures
        (r.0@, r.1@) == stripe_header(header@),
{
    let parts = split_str(header, ',');
    proof {
        reveal_strlit("t=");
        reveal_strlit("v1=");
        assert("t="@ =~= seq!['t', '=']);
        assert("v1="@ =~= seq!['v', '1', '=']);
    }
    let ts = last_field(&parts, "t=");
    let sig = last_field(&parts, "v1=");
    (ts, sig)
}

/// Whether `signature` is the lowercase hexadecimal text of `mac`.
pub fn hex_signature_matches(mac: &[u8], signature: &str) -> (r: bool)
    ensures
        r == (hex_lower(mac@) == signature@),
{
    let expected = hex_encode(mac);
    str_eq(expected.as_str(), signature)
}

/// Verifies a Stripe webhook signature: HMAC-SHA256 of `timestamp.payload` with the
/// webhook secret.
pub fn verify_stripe_signature(payload: &[u8], sig_header: &str, secret: &str) -> (r: bool)
    ensures
        r == stripe_signature_valid(payload@, sig_header@, secret@),
{
    let (ts, sig) = stripe_signature_parts(sig_header);
    if ts.as_str().is_empty() || sig.as_str().is_empty() {
        return false;
    }
    let mut signed = ts.clone();
    signed.push('.');
    let text = lossy_text(payload);
    push_str(&mut signed, text.as_str());
    let mac = hmac_sha256_of(secret.as_bytes(), signed.as_str().as_bytes());
    proof {
        assert(signed@ =~= ts@ + seq!['.'] + utf8_lossy(payload@));
    }
    hex_signature_matches(mac.as_slice(), sig.as_str())
}

/// Whether a Square webhook is authentic: the signature is the Base64 HMAC-SHA256,
/// under the signature key, of the webhook URL followed by the payload.
pub open spec fn square_signature_valid(
    webhook_url: Seq<char>,
    payload: Seq<u8>,
    signature: Seq<char>,
    key: Seq<char>,
) -> bool {
    base64_std(hmac_sha256(encode_utf8(key), encode_utf8(webhook_url) + payload)) == signature
}

/// Whether `signature` is the Base64 text of `mac`, compared in constant time.
pub fn base64_signature_matches(mac: &[u8], signature: &str) -> (r: bool)
    ensures
        r == (base64_std(mac@) == signature@),
{
    let expected = base64_encode(mac);
    let r = constant_time_eq(expected.as_str().as_bytes(), signature.as_bytes());
    proof {
        encode_utf8_decode_utf8(expected@);
        encode_utf8_decode_utf8(signature@);
    }
    r
}

/// Verifies a Square webhook signature: HMAC-SHA256 of the webhook URL and the body
/// with the signature key, Base64-encoded.
pub fn verify_square_signature(webhook_url: &str, payload: &[u8], signature: &str, signature_key: &str) -> (r: bool)
    ensures
        r == square_signature_valid(webhook_url@, payload@, signature@, signature_key@),
{
    let msg = concat_bytes(webhook_url.as_bytes(), payload);
    let mac = hmac_sha256_of(signature_key.as_bytes(), msg.as_slice());
    base64_signature_matches(mac.as_slice(), signature)
}

/// Whether a Razorpay payment signature is authentic: the lowercase hexadecimal
/// HMAC-SHA256, under the key secret, of the Razorpay order id, `|` and the payment id.
pub open spec fn razorpay_signature_valid(
    order_id: Seq<char>,
    payment_id: Seq<char>,
    signature: Seq<char>,
    key_secret: Seq<char>,
) -> bool {
    hex_lower(hmac_sha256(encode_utf8(key_secret), encode_utf8(order_id + seq!['|'] + payment_id)))
        == signature
}

/// Verifies the signature that Razorpay returns with a payment.
pub fn verify_razorpay_signature(
    razorpay_order_id: &str,
    razorpay_payment_id: &str,
    razorpay_signature: &str,
    key_secret: &str,
) -> (r: bool)
    ensures
        r == razorpay_signature_valid(
            razorpay_order_id@,
            razorpay_payment_id@,
            razorpay_signature@,
            key_secret@,
        ),
{
    let mut msg = owned(razorpay_order_id);
    msg.push('|');
    push_str(&mut msg, razorpay_payment_id);
    proof {
        assert(msg@ =~= razorpay_order_id@ + seq!['|'] + razorpay_payment_id@);
    }
    let mac = hmac_sha256_of(key_secret.as_bytes(), msg.as_str().as_bytes());
    hex_signature_matches(mac.as_slice(), razorpay_signature)
}

/// The order that a verified Stripe event completes: a `checkout.session.completed`
/// event whose session is paid and whose metadata carries a numeric order id.
pub open spec fn stripe_event_order_spec(
    event_type: Seq<char>,
    payment_status: Seq<char>,
    order_id: Seq<char>,
) -> Option<int> {
    if event_type == "checkout.session.completed"@ && payment_status == "paid"@ {
        parse_int(order_id, i64::MIN as int, i64::MAX as int)
    } else {
        None
    }
}

/// Decides which order a verified Stripe webhook event finalises, if any.
pub fn stripe_event_order(event_type: &str, payment_status: &str, order_id: &str) -> (r: Option<i64>)
    ensures
        opt_i64(r) == stripe_event_order_spec(event_type@, payment_status@, order_id@),
{
    if str_eq(event_type, "checkout.session.completed") && str_eq(payment_status, "paid") {
        parse_i64(order_id)
    } else {
        None
    }
}

// ── Checkout configuration ──────────────────────────────────────────

/// A payment provider.
#[derive(PartialEq, Eq, Structural, Clone, Copy, Debug)]
pub enum Provider {
    Stripe,
    Paypal,
    Razorpay,
    Mollie,
    Square,
    TwoCheckout,
    Payoneer,
}

/// Why a checkout cannot start.
#[derive(PartialEq, Eq, Structural, Clone, Copy, Debug)]
pub enum CheckoutError {
    /// The provider is switched off in the settings.
    NotEnabled,
    /// The provider's credentials are missing.
    NotConfigured,
}

/// The setting that switches a provider on.
pub open spec fn enabled_key(p: Provider) -> Seq<char> {
    match p {
        Provider::Stripe => "commerce_stripe_enabled"@,
        Provider::Paypal => "commerce_paypal_enabled"@,
        Provider::Razorpay => "commerce_razorpay_enabled"@,
        Provider::Mollie => "commerce_mollie_enabled"@,
        Provider::Square => "commerce_square_enabled"@,
        Provider::TwoCheckout => "commerce_2checkout_enabled"@,
        Provider::Payoneer => "commerce_payoneer_enabled"@,
    }
}

/// The settings a provider needs, in the order they are handed out.
pub open spec fn credential_keys(p: Provider) -> Seq<Seq<char>> {
    match p {
        Provider::Stripe => seq!["stripe_secret_key"@],
        Provider::Paypal => seq!["paypal_client_id"@, "paypal_secret"@],
        Provider::Razorpay => seq!["razorpay_key_id"@, "razorpay_key_secret"@],
        Provider::Mollie => seq!["mollie_api_key"@],
        Provider::Square => seq!["square_access_token"@, "square_location_id"@],
        Provider::TwoCheckout => seq!["twocheckout_merchant_code"@],
        Provider::Payoneer => seq![
            "payoneer_client_id"@,
            "payoneer_client_secret"@,
            "payoneer_program_id"@,
        ],
    }
}

/// The base URL of a provider's API (for 2Checkout, of its hosted checkout): the live
/// one where the provider's mode setting is `live`, else the sandbox; providers
/// without a mode always use their one URL.
pub open spec fn api_base(m: Map<Seq<char>, Seq<char>>, p: Provider) -> Seq<char> {
    match p {
        Provider::Stripe => "https://api.stripe.com"@,
        Provider::Razorpay => "https://api.razorpay.com"@,
        Provider::Mollie => "https://api.mollie.com"@,
        Provider::Paypal => if flag_is(m, "paypal_mode"@, "live"@) {
            "https://api-m.paypal.com"@
        } else {
            "https://api-m.sandbox.paypal.com"@
        },
        Provider::Square => if flag_is(m, "square_mode"@, "live"@) {
            "https://connect.squareup.com"@
        } else {
            "https://connect.squareupsandbox.com"@
        },
        Provider::TwoCheckout => if flag_is(m, "twocheckout_mode"@, "live"@) {
            "https://www.2checkout.com/checkout/purchase"@
        } else {
            "https://sandbox.2checkout.com/checkout/purchase"@
        },
        Provider::Payoneer => if flag_is(m, "payoneer_mode"@, "live"@) {
            "https://api.payoneer.com"@
        } else {
            "https://api.sandbox.payoneer.com"@
        },
    }
}

/// The setting `k` is present with value `v`.
pub open spec fn flag_is(m: Map<Seq<char>, Seq<char>>, k: Seq<char>, v: Seq<char>) -> bool {
    m.contains_key(k) && m[k] == v
}

/// The values of the given settings (empty where unset).
pub open spec fn values_of(m: Map<Seq<char>, Seq<char>>, keys: Seq<Seq<char>>) -> Seq<Seq<char>> {
    keys.map_values(|k: Seq<char>| value_or(m, k, Seq::empty()))
}

/// What starting a checkout with a provider finds in the settings: the provider must
/// be enabled and every credential set; then its credentials and API base.
pub open spec fn checkout_spec(m: Map<Seq<char>, Seq<char>>, p: Provider) -> Result<(Seq<Seq<char>>, Seq<char>), CheckoutError> {
    let creds = values_of(m, credential_keys(p));
    if !flag_on(m, enabled_key(p)) {
        Err(CheckoutError::NotEnabled)
    } else if exists|i: int| 0 <= i < creds.len() && #[trigger] creds[i].len() == 0 {
        Err(CheckoutError::NotConfigured)
    } else {
        Ok((creds, api_base(m, p)))
    }
}

/// A provider's credentials and API base, ready for a checkout.
pub struct CheckoutConfig {
    /// The credential settings, in the order of `credential_keys`.
    pub credentials: Vec<String>,
    pub api_base: String,
}

fn enabled_key_of(p: Provider) -> (r: &'static str)
    ensures
        r@ == enabled_key(p),
{
    match p {
        Provider::Stripe => "commerce_stripe_enabled",
        Provider::Paypal => "commerce_paypal_enabled",
        Provider::Razorpay => "commerce_razorpay_enabled",
        Provider::Mollie => "commerce_mollie_enabled",
        Provider::Square => "commerce_square_enabled",
        Provider::TwoCheckout => "commerce_2checkout_enabled",
        Provider::Payoneer => "commerce_payoneer_enabled",
    }
}

fn credential_keys_of(p: Provider) -> (r: Vec<&'static str>)
    ensures
        r@.map_values(|k: &'static str| k@) == credential_keys(p),
{
    let r = match p {
        Provider::Stripe => vec!["stripe_secret_key"],
        Provider::Paypal => vec!["paypal_client_id", "paypal_secret"],
        Provider::Razorpay => vec!["razorpay_key_id", "razorpay_key_secret"],
        Provider::Mollie => vec!["mollie_api_key"],
        Provider::Square => vec!["square_access_token", "square_location_id"],
        Provider::TwoCheckout => vec!["twocheckout_merchant_code"],
        Provider::Payoneer => vec!["payoneer_client_id", "payoneer_client_secret", "payoneer_program_id"],
    };
    proof {
        assert(r@.map_values(|k: &'static str| k@) =~= credential_keys(p));
    }
    r
}

fn setting_is(settings: &Settings, key: &str, v: &str) -> (r: bool)
    ensures
        r == flag_is(settings@, key@, v@),
{
    match settings.get(key) {
        Some(x) => str_eq(x.as_str(), v),
        None => false,
    }
}

fn api_base_of(settings: &Settings, p: Provider) -> (r: String)
    ensures
        r@ == api_base(settings@, p),
{
    match p {
        Provider::Stripe => owned("https://api.stripe.com"),
        Provider::Razorpay => owned("https://api.razorpay.com"),
        Provider::Mollie => owned("https://api.mollie.com"),
        Provider::Paypal => if setting_is(settings, "paypal_mode", "live") {
            owned("https://api-m.paypal.com")
        } else {
            owned("https://api-m.sandbox.paypal.com")
        },
        Provider::Square => if setting_is(settings, "square_mode", "live") {
            owned("https://connect.squareup.com")
        } else {
            owned("https://connect.squareupsandbox.com")
        },
        Provider::TwoCheckout => if setting_is(settings, "twocheckout_mode", "live") {
            owned("https://www.2checkout.com/checkout/purchase")
        } else {
            owned("https://sandbox.2checkout.com/checkout/purchase")
        },
        Provider::Payoneer => if setting_is(settings, "payoneer_mode", "live") {
            owned("https://api.payoneer.com")
        } else {
            owned("https://api.sandbox.payoneer.com")
        },
    }
}

/// Reads a provider's checkout settings: it must be enabled and every credential it
/// needs set.
pub fn checkout_config(settings: &Settings, p: Provider) -> (r: Result<CheckoutConfig, CheckoutError>)
    ensures
        match r {
            Ok(c) => checkout_spec(settings@, p) == Ok::<(Seq<Seq<char>>, Seq<char>), CheckoutError>(
                (c.credentials@.map_values(|s: String| s@), c.api_base@),
            ),
            Err(e) => checkout_spec(settings@, p) == Err::<(Seq<Seq<char>>, Seq<char>), CheckoutError>(e),
        },
{
    if !settings.is_on(enabled_key_of(p)) {
        return Err(CheckoutError::NotEnabled);
    }
    let keys = credential_keys_of(p);
    let ghost want = values_of(settings@, credential_keys(p));
    let mut creds: Vec<String> = Vec::new();
    let mut missing = false;
    let mut i: usize = 0;
    while i < keys.len()
        invariant
            i <= keys.len(),
            keys@.map_values(|k: &'static str| k@) == credential_keys(p),
            want == values_of(settings@, credential_keys(p)),
            want.len() == keys.len(),
            creds@.map_values(|s: String| s@) == want.take(i as int),
            missing == (exists|j: int| 0 <= j < i && #[trigger] want[j].len() == 0),
        decreases keys.len() - i,
    {
        let v = settings.get_or_empty(keys[i]);
        proof {
            assert(keys@.map_values(|k: &'static str| k@)[i as int] == keys@[i as int]@);
            assert(want[i as int] == v@);
        }
        if v.as_str().is_empty() {
            missing = true;
        }
        let ghost before = creds@.map_values(|s: String| s@);
        creds.push(v);
        proof {
            assert(creds@.map_values(|s: String| s@) =~= before.push(want[i as int]));
            assert(want.take(i + 1) =~= want.take(i as int).push(want[i as int]));
        }
        i = i + 1;
    }
    if missing {
        return Err(CheckoutError::NotConfigured);
    }
    proof {
        assert(want.take(want.len() as int) =~= want);
    }
    Ok(CheckoutConfig { credentials: creds, api_base: api_base_of(settings, p) })
}

impl CheckoutError {
    /// The error answered for a provider's checkout.
    pub fn message(&self, p: Provider) -> (r: &'static str)
        ensures
            *self == CheckoutError::NotEnabled ==> r@ == provider_name(p) + " is not enabled"@,
            *self == CheckoutError::NotConfigured ==> r@ == provider_name(p) + match p {
                Provider::Stripe => " secret key not configured"@,
                Provider::Mollie => " API key not configured"@,
                Provider::TwoCheckout => " merchant code not configured"@,
                _ => " credentials not configured"@,
            },
    {
        let r = match (self, p) {
            (CheckoutError::NotEnabled, Provider::Stripe) => "Stripe is not enabled",
            (CheckoutError::NotEnabled, Provider::Paypal) => "PayPal is not enabled",
            (CheckoutError::NotEnabled, Provider::Razorpay) => "Razorpay is not enabled",
            (CheckoutError::NotEnabled, Provider::Mollie) => "Mollie is not enabled",
            (CheckoutError::NotEnabled, Provider::Square) => "Square is not enabled",
            (CheckoutError::NotEnabled, Provider::TwoCheckout) => "2Checkout is not enabled",
            (CheckoutError::NotEnabled, Provider::Payoneer) => "Payoneer is not enabled",
            (CheckoutError::NotConfigured, Provider::Stripe) => "Stripe secret key not configured",
            (CheckoutError::NotConfigured, Provider::Paypal) => "PayPal credentials not configured",
            (CheckoutError::NotConfigured, Provider::Razorpay) => "Razorpay credentials not configured",
            (CheckoutError::NotConfigured, Provider::Mollie) => "Mollie API key not configured",
            (CheckoutError::NotConfigured, Provider::Square) => "Square credentials not configured",
            (CheckoutError::NotConfigured, Provider::TwoCheckout) => "2Checkout merchant code not configured",
            (CheckoutError::NotConfigured, Provider::Payoneer) => "Payoneer credentials not configured",
        };
        proof {
            reveal_strlit("Stripe is not enabled");
            reveal_strlit("PayPal is not enabled");
            reveal_strlit("Razorpay is not enabled");
            reveal_strlit("Mollie is not enabled");
            reveal_strlit("Square is not enabled");
            reveal_strlit("2Checkout is not enabled");
            reveal_strlit("Payoneer is not enabled");
            reveal_strlit("Stripe secret key not configured");
            reveal_strlit("PayPal credentials not configured");
            reveal_strlit("Razorpay credentials not configured");
            reveal_strlit("Mollie API key not configured");
            reveal_strlit("Square credentials not configured");
            reveal_strlit("2Checkout merchant code not configured");
            reveal_strlit("Payoneer credentials not configured");
            reveal_strlit(" is not enabled");
            reveal_strlit(" secret key not configured");
            reveal_strlit(" API key not configured");
            reveal_strlit(" merchant code not configured");
            reveal_strlit(" credentials not configured");
            reveal_strlit("Stripe");
            reveal_strlit("PayPal");
            reveal_strlit("Razorpay");
            reveal_strlit("Mollie");
            reveal_strlit("Square");
            reveal_strlit("2Checkout");
            reveal_strlit("Payoneer");
        }
        assert(r@ =~= provider_name(p) + match *self {
            CheckoutError::NotEnabled => " is not enabled"@,
            CheckoutError::NotConfigured => match p {
                Provider::Stripe => " secret key not configured"@,
                Provider::Mollie => " API key not configured"@,
                Provider::TwoCheckout => " merchant code not configured"@,
                _ => " credentials not configured"@,
            },
        });
        r
    }
}

/// A provider's name as messages write it.
pub open spec fn provider_name(p: Provider) -> Seq<char> {
    match p {
        Provider::Stripe => "Stripe"@,
        Provider::Paypal => "PayPal"@,
        Provider::Razorpay => "Razorpay"@,
        Provider::Mollie => "Mollie"@,
        Provider::Square => "Square"@,
        Provider::TwoCheckout => "2Checkout"@,
        Provider::Payoneer => "Payoneer"@,
    }
}

/// The path segment of a provider's return and webhook routes.
pub open spec fn provider_route(p: Provider) -> Seq<char> {
    match p {
        Provider::Stripe => "stripe"@,
        Provider::Paypal => "paypal"@,
        Provider::Razorpay => "razorpay"@,
        Provider::Mollie => "mollie"@,
        Provider::Square => "square"@,
        Provider::TwoCheckout => "2checkout"@,
        Provider::Payoneer => "payoneer"@,
    }
}

fn provider_route_of(p: Provider) -> (r: &'static str)
    ensures
        r@ == provider_route(p),
{
    match p {
        Provider::Stripe => "stripe",
        Provider::Paypal => "paypal",
        Provider::Razorpay => "razorpay",
        Provider::Mollie => "mollie",
        Provider::Square => "square",
        Provider::TwoCheckout => "2checkout",
        Provider::Payoneer => "payoneer",
    }
}

/// Where a provider sends the buyer back after paying: `{base}/api/{provider}/return`
/// with the order reference.
pub fn return_url(base: &str, p: Provider, order_ref: &str) -> (r: String)
    ensures
        r@ == base@ + "/api/"@ + provider_route(p) + "/return?order_id="@ + order_ref@,
{
    let mut s = owned(base);
    push_str(&mut s, "/api/");
    push_str(&mut s, provider_route_of(p));
    push_str(&mut s, "/return?order_id=");
    push_str(&mut s, order_ref);
    s
}

/// Where a provider posts its payment notifications: `{base}/api/{provider}/webhook`.
pub fn webhook_url(base: &str, p: Provider) -> (r: String)
    ensures
        r@ == base@ + "/api/"@ + provider_route(p) + "/webhook"@,
{
    let mut s = owned(base);
    push_str(&mut s, "/api/");
    push_str(&mut s, provider_route_of(p));
    push_str(&mut s, "/webhook");
    s
}

/// The payout reference a Payoneer checkout carries for an order: `velocty_{uuid}`.
pub fn payoneer_payout_id(order_uuid: &str) -> (r: String)
    ensures
        r@ == "velocty_"@ + order_uuid@,
{
    let mut s = owned("velocty_");
    push_str(&mut s, order_uuid);
    s
}

/// What a Payoneer checkout reply leads to: its `redirect_url`, else its
/// `checkout_url`; without either, an error with the reply's `description` (or a
/// generic one).
pub fn payoneer_checkout_link(
    redirect_url: Option<String>,
    checkout_url: Option<String>,
    description: Option<String>,
) -> (r: Result<String, String>)
    ensures
        redirect_url matches Some(u) ==> r == Ok::<String, String>(u),
        redirect_url is None && checkout_url is Some ==> r == Ok::<String, String>(checkout_url->0),
        redirect_url is None && checkout_url is None ==> (r matches Err(e) && e@ == match description {
            Some(d) => d@,
            None => "Payoneer API error"@,
        }),
{
    match redirect_url {
        Some(u) => Ok(u),
        None => match checkout_url {
            Some(u) => Ok(u),
            None => match description {
                Some(d) => Err(d),
                None => Err(owned("Payoneer API error")),
            },
        },
    }
}

/// Stripe's success and cancel URLs for an order of the portfolio item `slug`.
pub fn stripe_redirect_urls(base: &str, order_id: i64, slug: &str) -> (r: (String, String))
    ensures
        r.0@ == base@ + "/api/stripe/success?session_id={CHECKOUT_SESSION_ID}&order_id="@
            + decimal_int(order_id as int),
        r.1@ == base@ + "/portfolio/"@ + slug@,
{
    let mut ok = owned(base);
    push_str(&mut ok, "/api/stripe/success?session_id={CHECKOUT_SESSION_ID}&order_id=");
    let n = i64_to_decimal(order_id);
    push_str(&mut ok, n.as_str());
    let mut cancel = owned(base);
    push_str(&mut cancel, "/portfolio/");
    push_str(&mut cancel, slug);
    (ok, cancel)
}

// ── Checkout requests ───────────────────────────────────────────────

/// Asks whether an email bought a portfolio item.
pub struct CheckPurchaseRequest {
    pub portfolio_id: i64,
    pub email: String,
}

/// Completes an order with any provider's order id.
pub struct GenericCaptureRequest {
    pub order_id: i64,
    pub provider_order_id: String,
    pub buyer_email: String,
    pub buyer_name: Option<String>,
}

/// Starts a Mollie payment.
pub struct MollieCreateRequest {
    pub portfolio_id: i64,
    pub buyer_email: Option<String>,
}

/// Starts a Payoneer checkout.
pub struct PayoneerCreateRequest {
    pub portfolio_id: i64,
    pub buyer_email: Option<String>,
}

/// Starts a PayPal order.
pub struct PaypalCreateRequest {
    pub portfolio_id: i64,
}

/// Captures a PayPal order.
pub struct PaypalCaptureRequest {
    pub order_id: String,
    pub paypal_order_id: String,
    pub buyer_email: String,
    pub buyer_name: Option<String>,
}

/// Starts a Razorpay order.
pub struct RazorpayCreateRequest {
    pub portfolio_id: i64,
    pub buyer_email: Option<String>,
}

/// Confirms a Razorpay payment with its signature.
pub struct RazorpayVerifyRequest {
    pub order_id: i64,
    pub razorpay_order_id: String,
    pub razorpay_payment_id: String,
    pub razorpay_signature: String,
    pub buyer_email: String,
    pub buyer_name: Option<String>,
}

/// The `x-square-hmacsha256-signature` header of a Square webhook.
pub struct SquareSignature(pub String);

/// Starts a Square payment.
pub struct SquareCreateRequest {
    pub portfolio_id: i64,
    pub buyer_email: Option<String>,
}

/// The raw body of a webhook, kept for signature checks.
pub struct RawBody(pub Vec<u8>);

/// The `Stripe-Signature` header of a Stripe webhook.
pub struct StripeSignature(pub String);

/// Starts a Stripe checkout session.
pub struct StripeCreateRequest {
    pub portfolio_id: i64,
    pub buyer_email: Option<String>,
}

/// Starts a 2Checkout hosted checkout.
pub struct TwoCheckoutCreateRequest {
    pub portfolio_id: i64,
    pub buyer_email: Option<String>,
}

/// Whether a Razorpay payment confirmation carries a valid signature under the key
/// secret setting (empty where unset).
pub fn razorpay_request_valid(settings: &Settings, req: &RazorpayVerifyRequest) -> (r: bool)
    ensures
        r == razorpay_signature_valid(
            req.razorpay_order_id@,
            req.razorpay_payment_id@,
            req.razorpay_signature@,
            value_or(settings@, "razorpay_key_secret"@, Seq::empty()),
        ),
{
    let secret = settings.get_or_empty("razorpay_key_secret");
    verify_razorpay_signature(
        req.razorpay_order_id.as_str(),
        req.razorpay_payment_id.as_str(),
        req.razorpay_signature.as_str(),
        secret.as_str(),
    )
}

/// Why a payment webhook is answered with HTTP 400.
#[derive(PartialEq, Eq, Structural, Clone, Copy, Debug)]
pub enum WebhookRefusal {
    /// No webhook secret is configured.
    NoSecret,
    /// The signature does not match.
    BadSignature,
    /// The body is not JSON.
    NotJson,
    /// A completed-checkout event carries no `data.object`.
    NoEventObject,
}

/// Checks a Stripe webhook: a secret must be configured (`stripe_webhook_secret`) and
/// the signature header must match the body under it.
pub fn stripe_webhook_check(settings: &Settings, sig: &StripeSignature, body: &RawBody) -> (r: Result<(), WebhookRefusal>)
    ensures
        (r == Err::<(), WebhookRefusal>(WebhookRefusal::NoSecret)) == (value_or(
            settings@,
            "stripe_webhook_secret"@,
            Seq::empty(),
        ).len() == 0),
        (r == Err::<(), WebhookRefusal>(WebhookRefusal::BadSignature)) == (value_or(
            settings@,
            "stripe_webhook_secret"@,
            Seq::empty(),
        ).len() > 0 && !stripe_signature_valid(
            body.0@,
            sig.0@,
            value_or(settings@, "stripe_webhook_secret"@, Seq::empty()),
        )),
        (r is Ok) == (value_or(settings@, "stripe_webhook_secret"@, Seq::empty()).len() > 0
            && stripe_signature_valid(body.0@, sig.0@, value_or(settings@, "stripe_webhook_secret"@, Seq::empty()))),
{
    let secret = settings.get_or_empty("stripe_webhook_secret");
    if secret.as_str().is_empty() {
        return Err(WebhookRefusal::NoSecret);
    }
    if !verify_stripe_signature(body.0.as_slice(), sig.0.as_str(), secret.as_str()) {
        return Err(WebhookRefusal::BadSignature);
    }
    Ok(())
}

/// Checks a Square webhook: a signature key must be configured
/// (`square_webhook_signature_key`) and the signature header must match the body for
/// the site's webhook URL `{site_url}/api/square/webhook`.
pub fn square_webhook_check(settings: &Settings, sig: &SquareSignature, body: &RawBody) -> (r: Result<(), WebhookRefusal>)
    ensures
        (r == Err::<(), WebhookRefusal>(WebhookRefusal::NoSecret)) == (value_or(
            settings@,
            "square_webhook_signature_key"@,
            Seq::empty(),
        ).len() == 0),
        (r == Err::<(), WebhookRefusal>(WebhookRefusal::BadSignature)) == (value_or(
            settings@,
            "square_webhook_signature_key"@,
            Seq::empty(),
        ).len() > 0 && !square_signature_valid(
            value_or(settings@, "site_url"@, "http://localhost:8000"@) + "/api/square/webhook"@,
            body.0@,
            sig.0@,
            value_or(settings@, "square_webhook_signature_key"@, Seq::empty()),
        )),
        (r is Ok) == (value_or(settings@, "square_webhook_signature_key"@, Seq::empty()).len() > 0
            && square_signature_valid(
            value_or(settings@, "site_url"@, "http://localhost:8000"@) + "/api/square/webhook"@,
            body.0@,
            sig.0@,
            value_or(settings@, "square_webhook_signature_key"@, Seq::empty()),
        )),
{
    let key = settings.get_or_empty("square_webhook_signature_key");
    let mut url = site_url(settings);
    push_str(&mut url, "/api/square/webhook");
    if key.as_str().is_empty() {
        return Err(WebhookRefusal::NoSecret);
    }
    if !verify_square_signature(url.as_str(), body.0.as_slice(), sig.0.as_str(), key.as_str()) {
        return Err(WebhookRefusal::BadSignature);
    }
    Ok(())
}

/// The order reference in a Square payment's note, written `Order #<uuid>`; empty
/// where the note has another form.
pub fn square_order_ref(note: &str) -> (r: String)
    ensures
        r@ == match strip_prefix(note@, "Order #"@) {
            Some(rest) => rest,
            None => Seq::empty(),
        },
{
    match strip_prefix_str(note, "Order #") {
        Some(rest) => rest,
        None => String::new(),
    }
}

/// The Mollie payment id a webhook posts: its body is `id=<payment id>`; a body of
/// another form is taken whole.
pub fn mollie_payment_id(body: &str) -> (r: String)
    ensures
        r@ == match strip_prefix(body@, "id="@) {
            Some(rest) => rest,
            None => body@,
        },
{
    match strip_prefix_str(body, "id=") {
        Some(rest) => rest,
        None => owned(body),
    }
}

/// The order a Mollie payment completes: where its status is `paid` and its
/// `order_id` metadata is a number.
pub fn mollie_paid_order(status: &str, order_id: &str) -> (r: Option<i64>)
    ensures
        opt_i64(r) == if status@ == "paid"@ {
            parse_int(order_id@, i64::MIN as int, i64::MAX as int)
        } else {
            None
        },
{
    if !str_eq(status, "paid") {
        return None;
    }
    parse_i64(order_id)
}

/// The order a Payoneer notification completes: where its status is `done` or
/// `completed` and its payout id is `velocty_` followed by a non-empty order reference.
pub fn payoneer_webhook_order(status: &str, payout_id: &str) -> (r: Option<String>)
    ensures
        opt_view(r) == if (status@ == "done"@ || status@ == "completed"@) && (strip_prefix(
            payout_id@,
            "velocty_"@,
        ) matches Some(rest) && rest.len() > 0) {
            strip_prefix(payout_id@, "velocty_"@)
        } else {
            None
        },
{
    if !(str_eq(status, "done") || str_eq(status, "completed")) {
        return None;
    }
    match strip_prefix_str(payout_id, "velocty_") {
        Some(rest) => {
            if rest.as_str().is_empty() {
                None
            } else {
                Some(rest)
            }
        },
        None => None,
    }
}

/// The provider reference recorded for a 2Checkout order: `2co_` and its number.
pub fn twocheckout_reference(order_id: i64) -> (r: String)
    ensures
        r@ == "2co_"@ + decimal_int(order_id as int),
{
    let mut s = owned("2co_");
    let n = i64_to_decimal(order_id);
    push_str(&mut s, n.as_str());
    s
}

proof fn lemma_url_bytes_concat(a: Seq<u8>, b: Seq<u8>)
    ensures
        url_encode_bytes(a + b) == url_encode_bytes(a) + url_encode_bytes(b),
    decreases b.len(),
{
    if b.len() == 0 {
        assert(a + b =~= a);
    } else {
        lemma_url_bytes_concat(a, b.drop_last());
        assert((a + b).drop_last() =~= a + b.drop_last());
        assert((a + b).last() == b.last());
    }
}

proof fn lemma_url_bytes_front(b: Seq<u8>)
    requires
        b.len() > 0,
    ensures
        url_encode_bytes(b) == url_encode_byte(b[0]) + url_encode_bytes(b.drop_first()),
{
    lemma_url_bytes_concat(seq![b[0]], b.drop_first());
    assert(seq![b[0]] + b.drop_first() =~= b);
    assert(seq![b[0]].drop_last() =~= Seq::<u8>::empty());
    let one = seq![b[0]];
    assert(one.len() == 1 && one.last() == b[0]);
    assert(url_encode_bytes(one.drop_last()) == Seq::<char>::empty());
    assert(url_encode_bytes(one) == url_encode_bytes(one.drop_last()) + url_encode_byte(one.last()));
    assert(url_encode_bytes(one) =~= url_encode_byte(b[0]));
}

proof fn lemma_ascii_scalar(c: char)
    requires
        (c as u32) < 128,
    ensures
        encode_scalar(c as u32) == seq![(c as u32) as u8],
        ((c as u32) as u8) as char == c,
{
    let v = c as u32;
    assert((v & 0x7F) == v) by (bit_vector)
        requires
            v < 128,
    ;
    assert((v as u8) as u32 == v) by (bit_vector)
        requires
            v < 128,
    ;
}

/// The value of an uppercase hexadecimal digit, or -1 for another character.
pub open spec fn hex_value(c: char) -> int {
    if '0' <= c && c <= '9' {
        c as int - 48
    } else if 'A' <= c && c <= 'F' {
        c as int - 55
    } else {
        -1
    }
}

/// The characters `urlencoding` writes: unreserved ones (uppercase hexadecimal digits
/// among them), `+` and `%`.
pub open spec fn url_output_char(c: char) -> bool {
    url_unreserved(c) || c == '+' || c == '%'
}

/// Form decoding: `+` is a space byte, `%` and two hexadecimal digits are that byte, any
/// other ASCII character is its own byte; `None` for a malformed escape or a
/// non-ASCII character.
pub open spec fn form_decode(r: Seq<char>) -> Option<Seq<u8>>
    decreases r.len(),
{
    if r.len() == 0 {
        Some(Seq::empty())
    } else if r[0] == '%' {
        if r.len() >= 3 && 0 <= hex_value(r[1]) && 0 <= hex_value(r[2]) {
            match form_decode(r.skip(3)) {
                Some(t) => Some(seq![(hex_value(r[1]) * 16 + hex_value(r[2])) as u8] + t),
                None => None,
            }
        } else {
            None
        }
    } else if r[0] == '+' {
        match form_decode(r.drop_first()) {
            Some(t) => Some(seq![32u8] + t),
            None => None,
        }
    } else if (r[0] as u32) < 128 {
        match form_decode(r.drop_first()) {
            Some(t) => Some(seq![(r[0] as u32) as u8] + t),
            None => None,
        }
    } else {
        None
    }
}

proof fn lemma_hex_digit_value(d: int)
    requires
        0 <= d < 16,
    ensures
        hex_value(hex_digit_upper(d)) == d,
        url_unreserved(hex_digit_upper(d)),
{
}

proof fn lemma_url_bytes_decode(b: Seq<u8>)
    ensures
        form_decode(url_encode_bytes(b)) == Some(b),
        forall|i: int| 0 <= i < url_encode_bytes(b).len() ==> url_output_char(#[trigger] url_encode_bytes(b)[i]),
    decreases b.len(),
{
    if b.len() > 0 {
        let x = b[0];
        let rest = b.drop_first();
        lemma_url_bytes_decode(rest);
        lemma_url_bytes_front(b);
        let p = url_encode_byte(x);
        let rr = url_encode_bytes(rest);
        let e = p + rr;
        assert(e == url_encode_bytes(b));
        if url_unreserved(x as char) {
            assert((x as char) as u32 == x as u32);
            assert(e[0] == x as char);
            assert(e.drop_first() =~= rr);
            assert(seq![x] + rest =~= b);
        } else if x == 32 {
            assert(e.drop_first() =~= rr);
            assert(seq![32u8] + rest =~= b);
        } else {
            lemma_hex_digit_value(x as int / 16);
            lemma_hex_digit_value(x as int % 16);
            assert(e.skip(3) =~= rr);
            assert((x as int / 16) * 16 + x as int % 16 == x as int);
            assert(seq![x] + rest =~= b);
        }
        assert forall|i: int| 0 <= i < e.len() implies url_output_char(#[trigger] e[i]) by {
            if i >= p.len() {
                assert(e[i] == rr[i - p.len()]);
            } else if !url_unreserved(x as char) && x != 32 && i > 0 {
                lemma_hex_digit_value(x as int / 16);
                lemma_hex_digit_value(x as int % 16);
            }
        }
    }
}

/// Form-decoding what `urlencoding` writes gives back the text's UTF-8 bytes (for ASCII
/// text, its own characters), and the encoding holds only unreserved characters, `+`
/// and `%`. As `form_decode` fails on a `%` that is not followed by two uppercase
/// hexadecimal digits, every escape in the encoding is well formed.
pub proof fn url_encoding_decodes_back(s: Seq<char>)
    ensures
        form_decode(url_encode(s)) == Some(encode_utf8(s)),
        forall|i: int| 0 <= i < url_encode(s).len() ==> url_output_char(#[trigger] url_encode(s)[i]),
{
    lemma_url_bytes_decode(encode_utf8(s));
}

/// Text made only of unreserved characters passes through `urlencoding` unchanged.
pub proof fn url_encode_keeps_unreserved(s: Seq<char>)
    requires
        forall|i: int| 0 <= i < s.len() ==> url_unreserved(#[trigger] s[i]),
    ensures
        url_encode(s) == s,
    decreases s.len(),
{
    if s.len() > 0 {
        let c = s[0];
        assert forall|i: int| 0 <= i < s.drop_first().len() implies url_unreserved(#[trigger] s.drop_first()[i]) by {
            assert(s.drop_first()[i] == s[i + 1]);
        }
        url_encode_keeps_unreserved(s.drop_first());
        assert(url_unreserved(c));
        lemma_ascii_scalar(c);
        let b = encode_utf8(s);
        assert(b == seq![(c as u32) as u8] + encode_utf8(s.drop_first()));
        assert(b[0] == (c as u32) as u8);
        assert(b.drop_first() =~= encode_utf8(s.drop_first()));
        lemma_url_bytes_front(b);
        assert(seq![c] + s.drop_first() =~= s);
    }
}


/// A license key has 19 characters: four groups of four separated by `-`.
pub proof fn license_key_shape(a: u16, b: u16, c: u16, d: u16)
    ensures
        license_key_text(a, b, c, d).len() == 19,
        license_key_text(a, b, c, d)[4] == '-',
        license_key_text(a, b, c, d)[9] == '-',
        license_key_text(a, b, c, d)[14] == '-',
{
}

} // verus!
