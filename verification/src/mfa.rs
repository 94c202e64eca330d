use vstd::prelude::*;
use vstd::utf8::{encode_utf8, encode_utf8_decode_utf8};
use crate::commerce::constant_time_eq;
use crate::text::{
    contains, parse_int, opt_i64, uppercase, str_eq, owned, push_str, chars_of, parse_i64,
    to_uppercase, i64_to_decimal, decimal_int, starts_with, decimal, decimal_parses_back, lemma_decimal_digits, is_digit,
    trim, str_trim,
};
use rand::Rng;

verus! {

/// `totp_rs::TOTP`, carried opaquely between the calls that build and use it.
#[verifier::external_type_specification]
#[verifier::external_body]
pub struct ExTotp(totp_rs::TOTP);

/// What `Secret::Encoded(s).to_bytes()` gives: the RFC 4648 Base32 decoding of `s`
/// without padding, or `None` where `s` is not such text.
pub uninterp spec fn base32_decoded(s: Seq<char>) -> Option<Seq<u8>>;

/// Calls `totp_rs::Secret::Encoded(..).to_bytes()`; a parse error gives its message.
#[verifier::external_body]
fn secret_bytes(secret_b32: &str) -> (r: Result<Vec<u8>, String>)
    ensures
        match r {
            Ok(b) => base32_decoded(secret_b32@) == Some(b@),
            Err(_) => base32_decoded(secret_b32@) is None,
        },
{
    totp_rs::Secret::Encoded(secret_b32.to_string()).to_bytes().map_err(|e| e.to_string())
}

/// The parameters `TOTP::new` accepts for 6 digits: a secret of at least 128 bits and
/// an issuer and account name without `:`.
pub open spec fn totp_accepts(secret: Seq<u8>, issuer: Seq<char>, account: Seq<char>) -> bool {
    secret.len() >= 16 && !contains(issuer, seq![':']) && !contains(account, seq![':'])
}

/// Calls `TOTP::new(Algorithm::SHA1, 6, 1, 30, secret, Some(issuer), account)`. It
/// succeeds exactly when the secret has at least 16 bytes and neither the issuer nor
/// the account name holds a `:` (six digits are always accepted); an error gives its
/// message.
#[verifier::external_body]
fn new_totp(secret: Vec<u8>, issuer: &str, account: &str) -> (r: Result<totp_rs::TOTP, String>)
    ensures
        r is Ok == totp_accepts(secret@, issuer@, account@),
{
    let issuer = Some(issuer.to_string());
    totp_rs::TOTP::new(totp_rs::Algorithm::SHA1, 6, 1, 30, secret, issuer, account.to_string())
        .map_err(|e| e.to_string())
}

/// What `TOTP::get_qr_base64` gives for the TOTP (SHA-1, six digits, one step of skew,
/// 30-second steps) with that secret, issuer and account name: the Base64 text of a PNG
/// of the QR code of its `otpauth://` URL, which depends on those parameters alone;
/// `None` where the URL does not fit in a QR code or the image cannot be encoded.
pub uninterp spec fn totp_qr_png(secret: Seq<u8>, issuer: Seq<char>, account: Seq<char>) -> Option<Seq<char>>;

/// Calls `TOTP::new(Algorithm::SHA1, 6, 1, 30, secret, Some(issuer), account)`, which
/// the caller has checked succeeds, and `get_qr_base64` on it; an error gives its
/// message.
#[verifier::external_body]
fn totp_qr_base64(secret: Vec<u8>, issuer: &str, account: &str) -> (r: Result<String, String>)
    requires
        totp_accepts(secret@, issuer@, account@),
    ensures
        match r {
            Ok(b) => totp_qr_png(secret@, issuer@, account@) == Some(b@),
            Err(_) => totp_qr_png(secret@, issuer@, account@) is None,
        },
{
    let issuer = Some(issuer.to_string());
    let t = totp_rs::TOTP::new(totp_rs::Algorithm::SHA1, 6, 1, 30, secret, issuer, account.to_string())
        .map_err(|e| e.to_string())?;
    t.get_qr_base64()
}

/// The code that `TOTP::generate(time)` gives for a SHA-1, six-digit, 30-second TOTP
/// over `secret`: the HOTP value of the secret for the time step `time / 30`.
pub uninterp spec fn totp_code(secret: Seq<u8>, time: u64) -> Seq<char>;

/// Calls `TOTP::generate(time)` on a SHA-1, six-digit, 30-second TOTP over `secret`
/// (`new_unchecked`: generating does not depend on the issuer or account name). The
/// code is the HOTP value modulo 10^6, written with six digits.
#[verifier::external_body]
fn totp_code_at(secret: &[u8], time: u64) -> (r: String)
    ensures
        r@ == totp_code(secret@, time),
        r@.len() == 6,
        forall|i: int| 0 <= i < 6 ==> is_digit(#[trigger] r@[i]),
{
    let alg = totp_rs::Algorithm::SHA1;
    totp_rs::TOTP::new_unchecked(alg, 6, 1, 30, secret.to_vec(), None, String::new()).generate(time)
}

/// The current time in whole seconds since the Unix epoch (`SystemTime::now()`), or
/// `None` where the clock is set before the epoch. Nothing is promised of its value.
#[verifier::external_body]
fn unix_seconds_now() -> (r: Option<u64>) {
    std::time::SystemTime::now().duration_since(std::time::UNIX_EPOCH).ok().map(|d| d.as_secs())
}

/// Calls `Secret::generate_secret().to_encoded()`: 20 random bytes (160 bits) in
/// Base32 without padding, which decodes back to those bytes.
#[verifier::external_body]
fn generated_secret() -> (r: String)
    ensures
        base32_decoded(r@) is Some,
        base32_decoded(r@)->0.len() == 20,
{
    totp_rs::Secret::generate_secret().to_encoded().to_string()
}

/// Why a TOTP cannot be built.
#[derive(PartialEq, Eq, Structural, Clone, Copy, Debug)]
pub enum MfaError {
    /// The secret is not Base32 text.
    InvalidSecret,
    /// The secret is too short, or the issuer or account name holds a `:`.
    Totp,
    /// The `otpauth://` URL does not fit in a QR code.
    Qr,
}

impl MfaError {
    /// The error's text, as it begins the messages `qr_data_uri` gives.
    pub fn message(&self) -> (r: &'static str)
        ensures
            *self == MfaError::InvalidSecret ==> r@ == "Invalid secret"@,
            *self == MfaError::Totp ==> r@ == "TOTP error"@,
            *self == MfaError::Qr ==> r@ == "QR error"@,
    {
        match self {
            MfaError::InvalidSecret => "Invalid secret",
            MfaError::Totp => "TOTP error",
            MfaError::Qr => "QR error",
        }
    }
}

/// The outcome of building a TOTP from a Base32 secret, issuer and account name.
pub open spec fn build_totp_result(secret_b32: Seq<char>, issuer: Seq<char>, account: Seq<char>) -> Option<MfaError> {
    match base32_decoded(secret_b32) {
        None => Some(MfaError::InvalidSecret),
        Some(b) => if totp_accepts(b, issuer, account) {
            None
        } else {
            Some(MfaError::Totp)
        },
    }
}

/// Builds a TOTP (SHA-1, six digits, one step of skew, 30-second steps) from a
/// Base32 secret.
pub fn build_totp(secret_b32: &str, issuer: &str, account: &str) -> (r: Result<totp_rs::TOTP, MfaError>)
    ensures
        match r {
            Ok(_) => build_totp_result(secret_b32@, issuer@, account@) is None,
            Err(e) => build_totp_result(secret_b32@, issuer@, account@) == Some(e),
        },
{
    let bytes = match secret_bytes(secret_b32) {
        Ok(b) => b,
        Err(_) => return Err(MfaError::InvalidSecret),
    };
    match new_totp(bytes, issuer, account) {
        Ok(t) => Ok(t),
        Err(_) => Err(MfaError::Totp),
    }
}

/// The prefix of a PNG data URI.
pub open spec fn png_data_uri_prefix() -> Seq<char> {
    "data:image/png;base64,"@
}

/// A QR code for the TOTP secret, as a data URI (PNG, Base64). Errors are
/// `Invalid secret: `, `TOTP error: ` or `QR error: ` followed by the cause.
pub fn qr_data_uri(secret_b32: &str, issuer: &str, account: &str) -> (r: Result<String, String>)
    ensures
        match base32_decoded(secret_b32@) {
            None => r matches Err(m) && starts_with(m@, "Invalid secret: "@),
            Some(b) => if !totp_accepts(b, issuer@, account@) {
                r matches Err(m) && starts_with(m@, "TOTP error: "@)
            } else {
                match totp_qr_png(b, issuer@, account@) {
                    Some(png) => r matches Ok(s) && s@ == png_data_uri_prefix() + png,
                    None => r matches Err(m) && starts_with(m@, "QR error: "@),
                }
            },
        },
{
    let bytes = match secret_bytes(secret_b32) {
        Ok(b) => b,
        Err(e) => return Err(prefixed("Invalid secret: ", e.as_str())),
    };
    let t = new_totp(bytes.clone(), issuer, account);
    if let Err(e) = t {
        return Err(prefixed("TOTP error: ", e.as_str()));
    }
    match totp_qr_base64(bytes, issuer, account) {
        Ok(b64) => Ok(prefixed("data:image/png;base64,", b64.as_str())),
        Err(e) => Err(prefixed("QR error: ", e.as_str())),
    }
}

/// `p` followed by `rest`.
fn prefixed(p: &str, rest: &str) -> (r: String)
    ensures
        r@ == p@ + rest@,
        starts_with(r@, p@),
{
    let mut s = owned(p);
    push_str(&mut s, rest);
    proof {
        assert(s@.take(p@.len() as int) =~= p@);
    }
    s
}

/// Whether `code` is accepted at Unix time `time` (in seconds) for a SHA-1, six-digit,
/// 30-second TOTP over `secret` with one step of skew: it equals the code of the time
/// step before, of, or after the one `time` falls in.
pub open spec fn code_accepted(secret: Seq<u8>, code: Seq<char>, time: u64) -> bool {
    exists|i: int|
        0 <= i < 3 && #[trigger] totp_code(secret, ((time / 30 - 1 + i) * 30) as u64) == code
}

/// Verifies a TOTP code against the secret (issuer `Velocty`, account `admin`) at Unix
/// time `time`: a secret that does not build a TOTP accepts no code; otherwise the
/// code must be the one for the time step before, of, or after `time`'s.
pub fn verify_code_at(secret_b32: &str, code: &str, time: u64) -> (r: bool)
    requires
        30 <= time <= u64::MAX - 60,
    ensures
        r == match base32_decoded(secret_b32@) {
            Some(b) => totp_accepts(b, "Velocty"@, "admin"@) && code_accepted(b, code@, time),
            None => false,
        },
        r ==> code@.len() == 6,
{
    let bytes = match secret_bytes(secret_b32) {
        Ok(b) => b,
        Err(_) => return false,
    };
    let copy = bytes.clone();
    proof {
        assert(copy@ =~= bytes@);
    }
    if new_totp(copy, "Velocty", "admin").is_err() {
        return false;
    }
    let base = time / 30 - 1;
    let mut i: u64 = 0;
    while i < 3
        invariant
            i <= 3,
            base == time / 30 - 1,
            30 <= time <= u64::MAX - 60,
            base32_decoded(secret_b32@) == Some(bytes@),
            totp_accepts(bytes@, "Velocty"@, "admin"@),
            forall|j: int| 0 <= j < i ==> #[trigger] totp_code(bytes@, ((time / 30 - 1 + j) * 30) as u64) != code@,
        decreases 3 - i,
    {
        let step_time = (base + i) * 30;
        let expected = totp_code_at(bytes.as_slice(), step_time);
        proof {
            encode_utf8_decode_utf8(expected@);
            encode_utf8_decode_utf8(code@);
        }
        if constant_time_eq(expected.as_str().as_bytes(), code.as_bytes()) {
            proof {
                let ii = i as int;
                assert(step_time == ((time / 30 - 1 + ii) * 30) as u64);
                assert(totp_code(bytes@, ((time / 30 - 1 + ii) * 30) as u64) == code@);
                assert(code_accepted(bytes@, code@, time));
            }
            return true;
        }
        i = i + 1;
    }
    false
}

/// Verifies a six-digit TOTP code against the secret (issuer `Velocty`, account
/// `admin`) at the current time (see `verify_code_at`). A secret that does not build a
/// TOTP accepts no code; otherwise the answer depends on the clock, which is read here;
/// a clock set before 30 seconds past the Unix epoch accepts nothing.
pub fn verify_code(secret_b32: &str, code: &str) -> (r: bool)
    ensures
        r ==> build_totp_result(secret_b32@, "Velocty"@, "admin"@) is None,
        r ==> code@.len() == 6,
        r ==> exists|t: u64| #[trigger] code_accepted(base32_decoded(secret_b32@)->0, code@, t),
{
    match unix_seconds_now() {
        Some(t) => {
            if 30 <= t && t <= u64::MAX - 60 {
                verify_code_at(secret_b32, code, t)
            } else {
                false
            }
        },
        None => false,
    }
}

/// A new TOTP secret: 160 random bits in Base32.
pub fn generate_secret() -> (r: String)
    ensures
        base32_decoded(r@) matches Some(b) && b.len() == 20,
{
    generated_secret()
}

// ── Recovery codes ──────────────────────────────────────────────────

/// The alphabet of recovery codes: capitals and digits without the easily confused
/// `I`, `O`, `0` and `1`.
pub open spec fn recovery_alphabet() -> Seq<char> {
    "ABCDEFGHJKLMNPQRSTUVWXYZ23456789"@
}

/// A recovery code: four alphabet characters, `-`, four more.
pub open spec fn is_recovery_code(c: Seq<char>) -> bool {
    c.len() == 9 && c[4] == '-' && forall|i: int|
        0 <= i < 9 && i != 4 ==> recovery_alphabet().contains(#[trigger] c[i])
}

/// A random index below `n` from `rand::thread_rng().gen_range(0..n)`.
#[verifier::external_body]
pub(crate) fn random_below(n: usize) -> (r: usize)
    requires
        n > 0,
    ensures
        r < n,
{
    rand::thread_rng().gen_range(0..n)
}

fn recovery_code(alphabet: &Vec<char>) -> (r: String)
    requires
        alphabet@ == recovery_alphabet(),
        alphabet@.len() == 32,
    ensures
        is_recovery_code(r@),
{
    let mut s = String::new();
    let mut i: usize = 0;
    while i < 9
        invariant
            i <= 9,
            alphabet@ == recovery_alphabet(),
            alphabet@.len() == 32,
            s@.len() == i,
            i > 4 ==> s@[4] == '-',
            forall|j: int| 0 <= j < i && j != 4 ==> recovery_alphabet().contains(#[trigger] s@[j]),
        decreases 9 - i,
    {
        if i == 4 {
            s.push('-');
        } else {
            let k = random_below(alphabet.len());
            let c = alphabet[k];
            let ghost before = s@;
            s.push(c);
            proof {
                assert(recovery_alphabet()[k as int] == c);
                assert(s@[i as int] == c);
                assert forall|j: int| 0 <= j < i + 1 && j != 4 implies recovery_alphabet().contains(
                    #[trigger] s@[j],
                ) by {
                    if j < i {
                        assert(s@[j] == before[j]);
                    }
                }
            }
        }
        i = i + 1;
    }
    s
}

/// Ten recovery codes, each four characters, `-`, four characters from the recovery
/// alphabet.
pub fn generate_recovery_codes() -> (r: Vec<String>)
    ensures
        r@.len() == 10,
        forall|i: int| 0 <= i < 10 ==> is_recovery_code(#[trigger] r@[i]@),
{
    let alphabet = chars_of("ABCDEFGHJKLMNPQRSTUVWXYZ23456789");
    proof {
        reveal_strlit("ABCDEFGHJKLMNPQRSTUVWXYZ23456789");
    }
    let mut codes: Vec<String> = Vec::new();
    let mut n: usize = 0;
    while n < 10
        invariant
            n <= 10,
            alphabet@ == recovery_alphabet(),
            alphabet@.len() == 32,
            codes@.len() == n,
            forall|i: int| 0 <= i < n ==> is_recovery_code(#[trigger] codes@[i]@),
        decreases 10 - n,
    {
        let c = recovery_code(&alphabet);
        codes.push(c);
        n = n + 1;
    }
    codes
}

/// Uses up a recovery code: the entered code, uppercased, is looked up among the
/// unused codes, and the first equal one is removed. Returns whether one was.
pub fn consume_recovery_code(codes: &mut Vec<String>, code: &str) -> (r: bool)
    ensures
        r == (exists|i: int| 0 <= i < old(codes)@.len() && #[trigger] old(codes)@[i]@ == uppercase(code@)),
        r ==> exists|i: int| 0 <= i < old(codes)@.len() && old(codes)@[i]@ == uppercase(code@)
            && (forall|j: int| 0 <= j < i ==> old(codes)@[j]@ != uppercase(code@))
            && final(codes)@ == old(codes)@.remove(i),
        !r ==> final(codes)@ == old(codes)@,
{
    let up = to_uppercase(code);
    let mut i: usize = 0;
    while i < codes.len()
        invariant
            i <= codes.len(),
            codes@ == old(codes)@,
            up@ == uppercase(code@),
            forall|j: int| 0 <= j < i ==> codes@[j]@ != up@,
        decreases codes.len() - i,
    {
        if str_eq(codes[i].as_str(), up.as_str()) {
            codes.remove(i);
            return true;
        }
        i = i + 1;
    }
    false
}

// ── Second factor ──────────────────────────────────────────────────

/// What `serde_json::from_str::<Vec<String>>` makes of `text`: the list of strings, or
/// `None` where the text is not a JSON array of strings.
pub uninterp spec fn json_string_list(text: Seq<char>) -> Option<Seq<Seq<char>>>;

/// The JSON text `serde_json::to_string` writes for a list of strings.
pub uninterp spec fn json_list_text(items: Seq<Seq<char>>) -> Seq<char>;

/// A list of strings as plain text values.
pub open spec fn strings_view(v: Seq<String>) -> Seq<Seq<char>> {
    v.map_values(|s: String| s@)
}

/// Reads a JSON array of strings with `serde_json::from_str::<Vec<String>>`; `None`
/// where the text is not one.
#[verifier::external_body]
fn parse_string_list(text: &str) -> (r: Option<Vec<String>>)
    ensures
        match r {
            Some(v) => json_string_list(text@) == Some(strings_view(v@)),
            None => json_string_list(text@) is None,
        },
{
    serde_json::from_str::<Vec<String>>(text).ok()
}

/// Writes a list of strings as a JSON array with `serde_json::to_string`. Serialising
/// strings does not fail, so the fallback `[]` is never used.
#[verifier::external_body]
fn write_string_list(items: &Vec<String>) -> (r: String)
    ensures
        r@ == json_list_text(strings_view(items@)),
{
    serde_json::to_string(items).unwrap_or_else(|_| "[]".to_string())
}

/// How a submitted second-factor code is accepted.
pub enum SecondFactor {
    /// It is the current TOTP code.
    Totp,
    /// It is an unused recovery code; `remaining` is the JSON list of the codes left.
    Recovery { remaining: String },
    /// It is neither.
    Invalid,
}

/// The unused recovery codes stored as JSON text; none where the text does not read.
pub open spec fn stored_codes(stored: Seq<char>) -> Seq<Seq<char>> {
    match json_string_list(stored) {
        Some(l) => l,
        None => Seq::empty(),
    }
}

/// Decides a second-factor code, given whether it was accepted as a TOTP code: a TOTP
/// code is accepted as is; otherwise the code, uppercased, must be one of the unused
/// recovery codes stored as JSON, and the first such code is used up.
pub fn second_factor(totp_ok: bool, stored: &str, code: &str) -> (r: SecondFactor)
    ensures
        (r is Totp) == totp_ok,
        !totp_ok ==> ((r is Invalid) == !stored_codes(stored@).contains(uppercase(code@))),
        r matches SecondFactor::Recovery { remaining } ==> !totp_ok && exists|i: int|
            0 <= i < stored_codes(stored@).len() && stored_codes(stored@)[i] == uppercase(code@) && (forall|
                j: int,
            | 0 <= j < i ==> stored_codes(stored@)[j] != uppercase(code@)) && remaining@ == json_list_text(
                stored_codes(stored@).remove(i),
            ),
{
    if totp_ok {
        return SecondFactor::Totp;
    }
    let mut codes = match parse_string_list(stored) {
        Some(v) => v,
        None => Vec::new(),
    };
    let ghost before = codes@;
    proof {
        assert(strings_view(before) =~= stored_codes(stored@));
    }
    if consume_recovery_code(&mut codes, code) {
        proof {
            let i = choose|i: int| 0 <= i < before.len() && before[i]@ == uppercase(code@)
                && (forall|j: int| 0 <= j < i ==> before[j]@ != uppercase(code@)) && codes@ == before.remove(i);
            assert(strings_view(codes@) =~= strings_view(before).remove(i));
            assert(strings_view(before)[i] == uppercase(code@));
            assert forall|j: int| 0 <= j < i implies strings_view(before)[j] != uppercase(code@) by {
                assert(strings_view(before)[j] == before[j]@);
            }
        }
        SecondFactor::Recovery { remaining: write_string_list(&codes) }
    } else {
        proof {
            if stored_codes(stored@).contains(uppercase(code@)) {
                let i = choose|i: int| 0 <= i < stored_codes(stored@).len() && stored_codes(stored@)[i] == uppercase(code@);
                assert(before[i]@ == strings_view(before)[i]);
            }
        }
        SecondFactor::Invalid
    }
}

/// Checks the code submitted on the second-factor page, trimmed: first as a TOTP code
/// of the secret at the current time (see `verify_code`), then as a recovery code (see
/// `second_factor`).
pub fn second_factor_check(secret_b32: &str, stored: &str, code: &str) -> (r: SecondFactor)
    ensures
        r is Totp ==> build_totp_result(secret_b32@, "Velocty"@, "admin"@) is None,
        !(r is Totp) ==> ((r is Invalid) == !stored_codes(stored@).contains(uppercase(trim(code@)))),
        r matches SecondFactor::Recovery { remaining } ==> exists|i: int|
            0 <= i < stored_codes(stored@).len() && stored_codes(stored@)[i] == uppercase(trim(code@)) && (forall|
                j: int,
            | 0 <= j < i ==> stored_codes(stored@)[j] != uppercase(trim(code@))) && remaining@ == json_list_text(
                stored_codes(stored@).remove(i),
            ),
{
    let c = str_trim(code);
    let ok = verify_code(secret_b32, c.as_str());
    second_factor(ok, stored, c.as_str())
}

// ── Pending login cookie ────────────────────────────────────────────

/// The pending-MFA cookie value: the user id, `:`, and a random token.
pub fn pending_cookie_value(user_id: i64, token: &str) -> (r: String)
    ensures
        r@ == decimal_int(user_id as int) + seq![':'] + token@,
{
    let mut s = i64_to_decimal(user_id);
    s.push(':');
    push_str(&mut s, token);
    s
}

/// `s` up to its first `:`.
pub open spec fn before_colon(s: Seq<char>) -> Seq<char>
    decreases s.len(),
{
    if s.len() == 0 {
        s
    } else if s[0] == ':' {
        Seq::empty()
    } else {
        seq![s[0]] + before_colon(s.drop_first())
    }
}

/// `s` up to its first `:`.
pub fn before_colon_of(value: &str) -> (r: String)
    ensures
        r@ == before_colon(value@),
{
    let v = chars_of(value);
    let mut i: usize = 0;
    proof {
        assert(v@.skip(0) =~= v@);
        assert(v@.take(0) + before_colon(v@) =~= before_colon(v@));
    }
    while i < v.len() && v[i] != ':'
        invariant
            i <= v.len(),
            v@ == value@,
            forall|j: int| 0 <= j < i ==> v@[j] != ':',
            before_colon(v@) == v@.take(i as int) + before_colon(v@.skip(i as int)),
        decreases v.len() - i,
    {
        proof {
            assert(v@.skip(i as int).drop_first() =~= v@.skip(i + 1));
            assert(v@.take(i + 1) =~= v@.take(i as int) + seq![v@[i as int]]);
        }
        i = i + 1;
    }
    proof {
        if i < v.len() {
            assert(before_colon(v@.skip(i as int)) == Seq::<char>::empty());
        } else {
            assert(v@.skip(i as int) =~= Seq::<char>::empty());
        }
        assert(v@.take(i as int) + Seq::<char>::empty() =~= v@.take(i as int));
    }
    let head = crate::text::string_of_range(&v, 0, i);
    proof {
        assert(v@.subrange(0, i as int) =~= v@.take(i as int));
    }
    head
}

/// The user id in a pending-MFA cookie value: the part before the first `:`, read as
/// an `i64`.
pub fn pending_user_id(value: &str) -> (r: Option<i64>)
    ensures
        opt_i64(r) == parse_int(before_colon(value@), i64::MIN as int, i64::MAX as int),
{
    let head = before_colon_of(value);
    parse_i64(head.as_str())
}

/// A recovery code works once: where it occurs once among the unused codes, removing
/// it leaves none equal to it.
pub proof fn recovery_code_single_use(codes: Seq<Seq<char>>, c: Seq<char>, i: int)
    requires
        0 <= i < codes.len(),
        codes[i] == c,
        forall|j: int| 0 <= j < codes.len() && j != i ==> codes[j] != c,
    ensures
        forall|j: int| 0 <= j < codes.remove(i).len() ==> (#[trigger] codes.remove(i)[j]) != c,
{
    assert forall|j: int| 0 <= j < codes.remove(i).len() implies (#[trigger] codes.remove(i)[j])
        != c by {
        if j < i {
            assert(codes.remove(i)[j] == codes[j]);
        } else {
            assert(codes.remove(i)[j] == codes[j + 1]);
        }
    }
}

proof fn lemma_before_colon_prefix(a: Seq<char>, t: Seq<char>)
    requires
        forall|i: int| 0 <= i < a.len() ==> a[i] != ':',
    ensures
        before_colon(a + seq![':'] + t) == a,
    decreases a.len(),
{
    if a.len() == 0 {
        assert((a + seq![':'] + t)[0] == ':');
    } else {
        assert((a + seq![':'] + t).drop_first() =~= a.drop_first() + seq![':'] + t);
        lemma_before_colon_prefix(a.drop_first(), t);
        assert(seq![a[0]] + a.drop_first() =~= a);
    }
}

/// The pending-login cookie set after a correct password names the same account when
/// it is read back at the second step, whatever its token.
pub proof fn pending_cookie_names_its_user(user_id: i64, token: Seq<char>)
    ensures
        parse_int(
            before_colon(decimal_int(user_id as int) + seq![':'] + token),
            i64::MIN as int,
            i64::MAX as int,
        ) == Some(user_id as int),
{
    let d = decimal_int(user_id as int);
    decimal_parses_back(user_id as int, i64::MIN as int, i64::MAX as int);
    let digits = if user_id < 0 {
        decimal((-user_id) as nat)
    } else {
        decimal(user_id as nat)
    };
    lemma_decimal_digits(if user_id < 0 {
        (-user_id) as nat
    } else {
        user_id as nat
    });
    assert forall|i: int| 0 <= i < d.len() implies d[i] != ':' by {
        if user_id < 0 {
            if i > 0 {
                assert(d[i] == digits[i - 1]);
                assert(is_digit(digits[i - 1]));
            }
        } else {
            assert(is_digit(digits[i]));
        }
    }
    lemma_before_colon_prefix(d, token);
}

} // verus!
