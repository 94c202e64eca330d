use vstd::prelude::*;
use vstd::utf8::encode_utf8;
use crate::settings::{Settings, value_or, flag_on, i64_or};
use crate::text::{
    trim, starts_with, utf8_len, parse_int, str_trim, str_eq, str_starts_with, owned, push_str, parse_i64,
    opt_view, decimal, usize_to_decimal,
};
use crate::firewall::{ForwardHeaders, first_field, first_field_of};
use crate::commerce::{hex_lower, hex_encode};
use sha2::{Digest, Sha256};

verus! {

// ── Client address ──────────────────────────────────────────────────

/// The client address a request is attributed to.
pub struct ClientIp(pub String);

/// The real client address: the first of `CF-Connecting-IP`, `True-Client-IP` and
/// `X-Real-IP` that is non-empty once trimmed, else the first entry of
/// `X-Forwarded-For` if it is non-empty once trimmed, else the socket peer address,
/// else `unknown`.
pub open spec fn client_ip_of(h: ForwardHeaders, socket: Option<Seq<char>>) -> Seq<char> {
    if h.cf_connecting_ip is Some && trim(h.cf_connecting_ip->0@).len() > 0 {
        trim(h.cf_connecting_ip->0@)
    } else if h.true_client_ip is Some && trim(h.true_client_ip->0@).len() > 0 {
        trim(h.true_client_ip->0@)
    } else if h.x_real_ip is Some && trim(h.x_real_ip->0@).len() > 0 {
        trim(h.x_real_ip->0@)
    } else if h.x_forwarded_for is Some && trim(first_field(h.x_forwarded_for->0@)).len() > 0 {
        trim(first_field(h.x_forwarded_for->0@))
    } else {
        match socket {
            Some(s) => s,
            None => "unknown"@,
        }
    }
}

fn trimmed_nonempty(h: &Option<String>) -> (r: Option<String>)
    ensures
        match r {
            Some(s) => h is Some && trim(h->0@).len() > 0 && s@ == trim(h->0@),
            None => !(h is Some && trim(h->0@).len() > 0),
        },
{
    match h {
        Some(v) => {
            let t = str_trim(v.as_str());
            if t.as_str().is_empty() {
                None
            } else {
                Some(t)
            }
        },
        None => None,
    }
}

/// Extracts the real client address from a request's headers and its socket peer.
pub fn client_ip(h: &ForwardHeaders, socket: Option<&str>) -> (r: ClientIp)
    ensures
        r.0@ == client_ip_of(
            *h,
            match socket {
                Some(s) => Some(s@),
                None => None,
            },
        ),
{
    match trimmed_nonempty(&h.cf_connecting_ip) {
        Some(ip) => return ClientIp(ip),
        None => {},
    }
    match trimmed_nonempty(&h.true_client_ip) {
        Some(ip) => return ClientIp(ip),
        None => {},
    }
    match trimmed_nonempty(&h.x_real_ip) {
        Some(ip) => return ClientIp(ip),
        None => {},
    }
    match &h.x_forwarded_for {
        Some(xff) => {
            let first = first_field_of(xff.as_str());
            let t = str_trim(first.as_str());
            if !t.as_str().is_empty() {
                return ClientIp(t);
            }
        },
        None => {},
    }
    match socket {
        Some(s) => ClientIp(owned(s)),
        None => ClientIp(owned("unknown")),
    }
}

// ── Passwords ───────────────────────────────────────────────────────

/// What `bcrypt::verify(password, hash)` returns: `Some(ok)` for `Ok(ok)`, `None`
/// for an error (a malformed hash).
pub uninterp spec fn bcrypt_verify(password: Seq<u8>, hash: Seq<char>) -> Option<bool>;

/// Calls `bcrypt::verify`. Its result depends on the password and the hash alone:
/// it re-hashes the password with the hash's own salt and cost.
#[verifier::external_body]
fn bcrypt_verify_call(password: &[u8], hash: &str) -> (r: Option<bool>)
    ensures
        r == bcrypt_verify(password@, hash@),
{
    match bcrypt::verify(password, hash) {
        Ok(b) => Some(b),
        Err(_) => None,
    }
}

/// Calls `bcrypt::hash` with `bcrypt::DEFAULT_COST` and a random salt. Where it
/// succeeds, `bcrypt::verify` of the same password against the new hash is `Ok(true)`:
/// verify re-hashes with the salt and cost recorded in the hash, under the same
/// truncation rule. An error (the OS gave no randomness) carries the error's text.
#[verifier::external_body]
fn bcrypt_hash_call(password: &[u8]) -> (r: Result<String, String>)
    ensures
        r matches Ok(h) ==> bcrypt_verify(password@, h@) == Some(true),
{
    match bcrypt::hash(password, bcrypt::DEFAULT_COST) {
        Ok(h) => Ok(h),
        Err(e) => Err(e.to_string()),
    }
}

/// Hashes a password with bcrypt.
pub fn hash_password(password: &str) -> (r: Result<String, String>)
    ensures
        r matches Ok(h) ==> bcrypt_verify(encode_utf8(password@), h@) == Some(true),
{
    bcrypt_hash_call(password.as_bytes())
}

/// Whether `password` matches the bcrypt `hash`; a malformed hash matches nothing.
pub fn verify_password(password: &str, hash: &str) -> (r: bool)
    ensures
        r == (bcrypt_verify(encode_utf8(password@), hash@) == Some(true)),
{
    match bcrypt_verify_call(password.as_bytes(), hash) {
        Some(b) => b,
        None => false,
    }
}

/// The SHA-256 digest of `bytes`.
pub uninterp spec fn sha256(bytes: Seq<u8>) -> Seq<u8>;

/// Calls `sha2::Sha256::digest`; the result is the SHA-256 digest of the input.
#[verifier::external_body]
fn sha256_of(bytes: &[u8]) -> (r: Vec<u8>)
    ensures
        r@ == sha256(bytes@),
{
    Sha256::digest(bytes).to_vec()
}

/// The stored form of a client address: its SHA-256 digest in lowercase hexadecimal.
pub fn hash_ip(ip: &str) -> (r: String)
    ensures
        r@ == hex_lower(sha256(encode_utf8(ip@))),
{
    let d = sha256_of(ip.as_bytes());
    hex_encode(d.as_slice())
}

// ── Sessions ────────────────────────────────────────────────────────

/// A setting read as an `i64` (0 where missing or not a number), at least 1.
pub open spec fn at_least_one(m: Map<Seq<char>, Seq<char>>, k: Seq<char>) -> int {
    if i64_or(m, k, 0) < 1 {
        1
    } else {
        i64_or(m, k, 0)
    }
}

/// How long a new session lasts, in hours: `session_expiry_hours`, at least 1.
pub fn session_expiry_hours(settings: &Settings) -> (r: i64)
    ensures
        r == at_least_one(settings@, "session_expiry_hours"@),
{
    let v = settings.i64_or("session_expiry_hours", 0);
    if v < 1 {
        1
    } else {
        v
    }
}

/// Whether the session cookie gets the `Secure` flag: the site URL is HTTPS or the
/// site runs as production.
pub open spec fn session_cookie_secure_spec(m: Map<Seq<char>, Seq<char>>) -> bool {
    starts_with(value_or(m, "site_url"@, Seq::empty()), "https://"@) || value_or(
        m,
        "site_environment"@,
        "staging"@,
    ) == "production"@
}

/// Decides the `Secure` flag of the session cookie.
pub fn session_cookie_secure(settings: &Settings) -> (r: bool)
    ensures
        r == session_cookie_secure_spec(settings@),
{
    let site_url = settings.get_or_empty("site_url");
    let env = settings.get_or("site_environment", "staging");
    str_starts_with(site_url.as_str(), "https://") || str_eq(env.as_str(), "production")
}

/// Whether another login may be tried: fewer recent sessions from the address than
/// `login_rate_limit` (at least 1).
pub fn login_rate_allows(settings: &Settings, recent_count: i64) -> (r: bool)
    ensures
        r == (recent_count < at_least_one(settings@, "login_rate_limit"@)),
{
    let v = settings.i64_or("login_rate_limit", 0);
    let max = if v < 1 {
        1
    } else {
        v
    };
    recent_count < max
}

// ── Login ───────────────────────────────────────────────────────────

/// What a login needs to know of the account an email belongs to.
pub struct LoginUser {
    pub id: i64,
    pub role: String,
    /// The account is neither suspended nor locked.
    pub active: bool,
    pub password_hash: String,
    pub mfa_enabled: bool,
    pub mfa_secret: String,
    pub force_password_change: bool,
}

/// The submitted login form.
pub struct LoginForm {
    pub email: String,
    pub password: String,
    pub captcha_token: Option<String>,
}

/// How a login attempt ends.
#[derive(PartialEq, Eq, Structural, Clone, Copy, Debug)]
pub enum LoginOutcome {
    /// No account has that email.
    UnknownUser,
    /// The account is suspended or locked.
    Suspended,
    /// Subscribers cannot use the admin panel.
    NoAdminAccess,
    /// The password does not match.
    WrongPassword,
    /// The password matched and a second factor is required.
    MfaRequired,
    /// The password matched; a session starts, and the password must be changed first
    /// where `force_password_change` holds.
    SessionStart { force_password_change: bool },
}

/// The outcome of a login with `password` for `user`.
pub open spec fn login_outcome(user: Option<LoginUser>, password: Seq<char>) -> LoginOutcome {
    match user {
        None => LoginOutcome::UnknownUser,
        Some(u) => if !u.active {
            LoginOutcome::Suspended
        } else if u.role@ == "subscriber"@ {
            LoginOutcome::NoAdminAccess
        } else if bcrypt_verify(encode_utf8(password), u.password_hash@) != Some(true) {
            LoginOutcome::WrongPassword
        } else if u.mfa_enabled && u.mfa_secret@.len() > 0 {
            LoginOutcome::MfaRequired
        } else {
            LoginOutcome::SessionStart { force_password_change: u.force_password_change }
        },
    }
}

/// Decides a login attempt once rate limit and captcha have passed: the account must
/// exist, be active, not be a subscriber, and the password must match; then MFA is
/// asked for where the account has it on.
pub fn login_decision(user: Option<&LoginUser>, password: &str) -> (r: LoginOutcome)
    ensures
        r == login_outcome(
            match user {
                Some(u) => Some(*u),
                None => None,
            },
            password@,
        ),
{
    match user {
        None => LoginOutcome::UnknownUser,
        Some(u) => {
            if !u.active {
                LoginOutcome::Suspended
            } else if str_eq(u.role.as_str(), "subscriber") {
                LoginOutcome::NoAdminAccess
            } else if !verify_password(password, u.password_hash.as_str()) {
                LoginOutcome::WrongPassword
            } else if u.mfa_enabled && !u.mfa_secret.as_str().is_empty() {
                LoginOutcome::MfaRequired
            } else {
                LoginOutcome::SessionStart { force_password_change: u.force_password_change }
            }
        },
    }
}

/// How following a valid magic link ends.
#[derive(PartialEq, Eq, Structural, Clone, Copy, Debug)]
pub enum MagicLinkOutcome {
    /// No account has the link's email.
    UnknownUser,
    /// The account is suspended or locked.
    Suspended,
    /// A second factor is required.
    MfaRequired,
    /// A session starts.
    SessionStart,
}

impl MagicLinkOutcome {
    /// The error shown for a refused magic link.
    pub fn error_message(&self) -> (r: Option<&'static str>)
        ensures
            *self == MagicLinkOutcome::UnknownUser ==> (r matches Some(m) && m@ == "User not found"@),
            *self == MagicLinkOutcome::Suspended ==> (r matches Some(m) && m@
                == "This account is suspended or locked."@),
            (*self == MagicLinkOutcome::MfaRequired || *self == MagicLinkOutcome::SessionStart) ==> r is None,
    {
        match self {
            MagicLinkOutcome::UnknownUser => Some("User not found"),
            MagicLinkOutcome::Suspended => Some("This account is suspended or locked."),
            _ => None,
        }
    }
}

/// Decides a valid magic link for the account its email belongs to: the account must
/// exist and be active; then MFA is asked for where the account has it on, and a
/// session starts otherwise. No password is involved.
pub fn magic_link_decision(user: Option<&LoginUser>) -> (r: MagicLinkOutcome)
    ensures
        r == match user {
            None => MagicLinkOutcome::UnknownUser,
            Some(u) => if !u.active {
                MagicLinkOutcome::Suspended
            } else if u.mfa_enabled && u.mfa_secret@.len() > 0 {
                MagicLinkOutcome::MfaRequired
            } else {
                MagicLinkOutcome::SessionStart
            },
        },
{
    match user {
        None => MagicLinkOutcome::UnknownUser,
        Some(u) => {
            if !u.active {
                MagicLinkOutcome::Suspended
            } else if u.mfa_enabled && !u.mfa_secret.as_str().is_empty() {
                MagicLinkOutcome::MfaRequired
            } else {
                MagicLinkOutcome::SessionStart
            }
        },
    }
}

impl LoginOutcome {
    /// The error shown on the login page for a refused login.
    pub fn error_message(&self) -> (r: Option<&'static str>)
        ensures
            (*self == LoginOutcome::UnknownUser || *self == LoginOutcome::WrongPassword) ==> (r
                matches Some(m) && m@ == "Invalid credentials"@),
            *self == LoginOutcome::Suspended ==> (r matches Some(m) && m@
                == "This account is suspended or locked. Contact an administrator."@),
            *self == LoginOutcome::NoAdminAccess ==> (r matches Some(m) && m@
                == "Your account does not have admin panel access."@),
            (*self == LoginOutcome::MfaRequired || *self is SessionStart) ==> r is None,
    {
        match self {
            LoginOutcome::UnknownUser => Some("Invalid credentials"),
            LoginOutcome::Suspended => Some(
                "This account is suspended or locked. Contact an administrator.",
            ),
            LoginOutcome::NoAdminAccess => Some("Your account does not have admin panel access."),
            LoginOutcome::WrongPassword => Some("Invalid credentials"),
            LoginOutcome::MfaRequired => None,
            LoginOutcome::SessionStart { .. } => None,
        }
    }
}

// ── Tokens ──────────────────────────────────────────────────────────

/// `s` is a version-4 UUID in its hyphenated lowercase form: 36 characters, `-` at
/// positions 8, 13, 18 and 23, lowercase hexadecimal digits elsewhere, and `4` (the
/// version) at position 14.
pub open spec fn v4_uuid_text(s: Seq<char>) -> bool {
    &&& s.len() == 36
    &&& forall|i: int|
        0 <= i < 36 ==> if i == 8 || i == 13 || i == 18 || i == 23 {
            #[trigger] s[i] == '-'
        } else {
            ('0' <= s[i] <= '9') || ('a' <= s[i] <= 'f')
        }
    &&& s[14] == '4'
}

/// Calls `uuid::Uuid::new_v4()` and `to_string`, whose `Display` writes the hyphenated
/// lowercase form; the version nibble of a v4 UUID is 4. Nothing is promised of the
/// random bits.
#[verifier::external_body]
fn uuid_v4_text() -> (r: String)
    ensures
        v4_uuid_text(r@),
{
    uuid::Uuid::new_v4().to_string()
}

/// A fresh random token, as sessions, pending sign-ins, e-mailed links and new site
/// folders use: a random version-4 UUID in hyphenated lowercase form.
pub fn new_token() -> (r: String)
    ensures
        v4_uuid_text(r@),
{
    uuid_v4_text()
}

// ── Passkey sign-in ─────────────────────────────────────────────────

/// What a passkey sign-in reads of the account.
pub struct PasskeyUser {
    pub id: i64,
    /// `password` or `passkey`.
    pub auth_method: String,
    pub role: String,
    /// The account is neither suspended nor locked.
    pub active: bool,
}

/// Why a passkey sign-in is refused before or after the authenticator answers.
#[derive(PartialEq, Eq, Structural, Clone, Copy, Debug)]
pub enum PasskeyRefusal {
    EmailRequired,
    InvalidCredentials,
    NotEnabled,
    NoPasskeys,
    InvalidSessionState,
    UserNotFound,
    Suspended,
    NoAdminAccess,
}

impl PasskeyRefusal {
    /// The error returned to the browser.
    pub fn message(&self) -> (r: &'static str)
        ensures
            *self == PasskeyRefusal::EmailRequired ==> r@ == "Email is required"@,
            *self == PasskeyRefusal::InvalidCredentials ==> r@ == "Invalid credentials"@,
            *self == PasskeyRefusal::NotEnabled ==> r@ == "Passkey not enabled for this account"@,
            *self == PasskeyRefusal::NoPasskeys ==> r@ == "No passkeys registered"@,
            *self == PasskeyRefusal::InvalidSessionState ==> r@ == "Invalid session state"@,
            *self == PasskeyRefusal::UserNotFound ==> r@ == "User not found"@,
            *self == PasskeyRefusal::Suspended ==> r@ == "Account is suspended or locked"@,
            *self == PasskeyRefusal::NoAdminAccess ==> r@ == "No admin panel access"@,
    {
        match self {
            PasskeyRefusal::EmailRequired => "Email is required",
            PasskeyRefusal::InvalidCredentials => "Invalid credentials",
            PasskeyRefusal::NotEnabled => "Passkey not enabled for this account",
            PasskeyRefusal::NoPasskeys => "No passkeys registered",
            PasskeyRefusal::InvalidSessionState => "Invalid session state",
            PasskeyRefusal::UserNotFound => "User not found",
            PasskeyRefusal::Suspended => "Account is suspended or locked",
            PasskeyRefusal::NoAdminAccess => "No admin panel access",
        }
    }
}

/// What `url::Url::parse` reads from `s`: `None` where `s` is not an absolute URL,
/// else the URL's host (`host_str`), its port where it is not the scheme's default
/// (`port`), and its serialization (`as_str`).
pub uninterp spec fn parsed_url(s: Seq<char>) -> Option<(Option<Seq<char>>, Option<u16>, Seq<char>)>;

/// Calls `url::Url::parse`, then `host_str`, `port` and `as_str` on the URL it gives;
/// on a parse error, its message.
#[verifier::external_body]
fn parse_url(s: &str) -> (r: Result<(Option<String>, Option<u16>, String), String>)
    ensures
        match r {
            Ok((host, port, text)) => parsed_url(s@) == Some((opt_view(host), port, text@)),
            Err(_) => parsed_url(s@) is None,
        },
{
    match url::Url::parse(s) {
        Ok(u) => Ok((u.host_str().map(|h| h.to_string()), u.port(), u.as_str().to_string())),
        Err(e) => Err(e.to_string()),
    }
}

/// The relying party (id and origin) that passkey ceremonies use for the site URL
/// `site`: its host, with the URL itself as origin; a local host (`localhost` or
/// `127.0.0.1`) is always `localhost`, with origin `http://localhost:<port>` (port 8000
/// where the URL names none). Errors: `site` is not a URL, or it has no host.
pub open spec fn relying_party_spec(site: Seq<char>, r: Result<(Seq<char>, Seq<char>), Seq<char>>) -> bool {
    match parsed_url(site) {
        None => r matches Err(m) && starts_with(m, "Invalid site_url: "@),
        Some((None, _, _)) => r == Err::<(Seq<char>, Seq<char>), Seq<char>>("No host in site_url"@),
        Some((Some(h), port, text)) => if h == "localhost"@ || h == "127.0.0.1"@ {
            let local = "http://localhost:"@ + decimal(
                match port {
                    Some(p) => p as nat,
                    None => 8000nat,
                },
            );
            match parsed_url(local) {
                Some((_, _, o)) => r == Ok::<(Seq<char>, Seq<char>), Seq<char>>(("localhost"@, o)),
                None => r is Err,
            }
        } else {
            r == Ok::<(Seq<char>, Seq<char>), Seq<char>>((h, text))
        },
    }
}

/// The relying party for passkeys from the `site_url` setting (`http://localhost:8000`
/// where it is not set); see `relying_party_spec`.
pub fn passkey_relying_party(settings: &Settings) -> (r: Result<(String, String), String>)
    ensures
        relying_party_spec(
            value_or(settings@, "site_url"@, "http://localhost:8000"@),
            match r {
                Ok((id, origin)) => Ok((id@, origin@)),
                Err(m) => Err(m@),
            },
        ),
{
    let site = settings.get_or("site_url", "http://localhost:8000");
    let (host, port, text) = match parse_url(site.as_str()) {
        Ok(parts) => parts,
        Err(e) => {
            let mut m = owned("Invalid site_url: ");
            push_str(&mut m, e.as_str());
            proof {
                assert(m@.take("Invalid site_url: "@.len() as int) =~= "Invalid site_url: "@);
            }
            return Err(m);
        },
    };
    let host = match host {
        Some(h) => h,
        None => {
            return Err(owned("No host in site_url"));
        },
    };
    if str_eq(host.as_str(), "localhost") || str_eq(host.as_str(), "127.0.0.1") {
        let p: u16 = match port {
            Some(p) => p,
            None => 8000,
        };
        let mut local = owned("http://localhost:");
        let digits = usize_to_decimal(p as usize);
        push_str(&mut local, digits.as_str());
        match parse_url(local.as_str()) {
            Ok((_, _, origin)) => Ok((owned("localhost"), origin)),
            Err(e) => Err(e),
        }
    } else {
        Ok((host, text))
    }
}

/// The account signs in with a passkey.
pub open spec fn uses_passkey(u: PasskeyUser) -> bool {
    u.auth_method@ == "passkey"@
}

/// Whether the login page offers a passkey for `email`: the email is given, names an
/// account that signs in with passkeys, and that account has at least one registered.
pub fn passkey_offered(email: &str, user: Option<&PasskeyUser>, passkey_count: i64) -> (r: bool)
    ensures
        r == (email@.len() > 0 && match user {
            Some(u) => uses_passkey(*u) && passkey_count > 0,
            None => false,
        }),
{
    if email.is_empty() {
        return false;
    }
    match user {
        Some(u) => str_eq(u.auth_method.as_str(), "passkey") && passkey_count > 0,
        None => false,
    }
}

/// Decides whether a passkey sign-in may start for `email`: the email is required,
/// must name an account, the account must sign in with passkeys and have at least one
/// registered. Gives the account's id.
pub fn passkey_start_check(email: &str, user: Option<&PasskeyUser>, credential_count: usize) -> (r:
    Result<i64, PasskeyRefusal>)
    ensures
        email@.len() == 0 ==> r == Err::<i64, PasskeyRefusal>(PasskeyRefusal::EmailRequired),
        email@.len() > 0 ==> r == match user {
            None => Err(PasskeyRefusal::InvalidCredentials),
            Some(u) => if !uses_passkey(*u) {
                Err(PasskeyRefusal::NotEnabled)
            } else if credential_count == 0 {
                Err(PasskeyRefusal::NoPasskeys)
            } else {
                Ok(u.id)
            },
        },
{
    if email.is_empty() {
        return Err(PasskeyRefusal::EmailRequired);
    }
    match user {
        None => Err(PasskeyRefusal::InvalidCredentials),
        Some(u) => {
            if !str_eq(u.auth_method.as_str(), "passkey") {
                Err(PasskeyRefusal::NotEnabled)
            } else if credential_count == 0 {
                Err(PasskeyRefusal::NoPasskeys)
            } else {
                Ok(u.id)
            }
        },
    }
}

/// The setting under which a pending passkey sign-in keeps its account id.
pub fn passkey_user_key(token: &str) -> (r: String)
    ensures
        r@ == "passkey_auth_user_"@ + token@,
{
    let mut k = owned("passkey_auth_user_");
    push_str(&mut k, token);
    k
}

/// The account id kept for a pending passkey sign-in, read back from its setting.
pub fn passkey_pending_user_id(stored: &str) -> (r: Result<i64, PasskeyRefusal>)
    ensures
        match parse_int(stored@, i64::MIN as int, i64::MAX as int) {
            Some(v) => r matches Ok(id) && id == v,
            None => r == Err::<i64, PasskeyRefusal>(PasskeyRefusal::InvalidSessionState),
        },
{
    match parse_i64(stored) {
        Some(v) => Ok(v),
        None => Err(PasskeyRefusal::InvalidSessionState),
    }
}

/// Decides whether the account of a pending passkey sign-in may finish it: it must
/// exist, be active and not be a subscriber.
pub fn passkey_finish_check(user: Option<&PasskeyUser>) -> (r: Result<(), PasskeyRefusal>)
    ensures
        r == match user {
            None => Err(PasskeyRefusal::UserNotFound),
            Some(u) => if !u.active {
                Err(PasskeyRefusal::Suspended)
            } else if u.role@ == "subscriber"@ {
                Err(PasskeyRefusal::NoAdminAccess)
            } else {
                Ok(())
            },
        },
{
    match user {
        None => Err(PasskeyRefusal::UserNotFound),
        Some(u) => {
            if !u.active {
                Err(PasskeyRefusal::Suspended)
            } else if str_eq(u.role.as_str(), "subscriber") {
                Err(PasskeyRefusal::NoAdminAccess)
            } else {
                Ok(())
            }
        },
    }
}

/// The rate-limit key of a login from `ip`.
pub fn login_rate_key(ip: &str) -> (r: String)
    ensures
        r@ == "login:"@ + ip@,
{
    let mut k = owned("login:");
    push_str(&mut k, ip);
    k
}

/// The number of login attempts allowed per window: `login_rate_limit`, at least 1.
pub fn login_max_attempts(settings: &Settings) -> (r: u64)
    ensures
        r as int == at_least_one(settings@, "login_rate_limit"@),
{
    let v = settings.i64_or("login_rate_limit", 0);
    if v < 1 {
        1
    } else {
        v as u64
    }
}

/// A captcha check blocks the login only where the provider answered "failed"; a
/// provider error lets the login go on.
pub fn captcha_blocks_login(result: &Result<bool, String>) -> (r: bool)
    ensures
        r == (*result == Ok::<bool, String>(false)),
{
    match result {
        Ok(b) => !*b,
        Err(_) => false,
    }
}

/// The firewall records failed logins: it is on (`firewall_enabled`, off by default)
/// and failed-login tracking is on (`fw_failed_login_tracking`, on by default).
pub open spec fn failed_login_tracking_spec(m: Map<Seq<char>, Seq<char>>) -> bool {
    value_or(m, "firewall_enabled"@, "false"@) == "true"@ && value_or(
        m,
        "fw_failed_login_tracking"@,
        "true"@,
    ) == "true"@
}

/// Whether failed logins are recorded by the firewall.
pub fn failed_login_tracking(settings: &Settings) -> (r: bool)
    ensures
        r == failed_login_tracking_spec(settings@),
{
    let fw = settings.get_or("firewall_enabled", "false");
    let tr = settings.get_or("fw_failed_login_tracking", "true");
    str_eq(fw.as_str(), "true") && str_eq(tr.as_str(), "true")
}

/// For a login with an unknown email: the ban to impose on the address, as its
/// duration text (`fw_unknown_user_ban_duration`, `24h` by default), where tracking is
/// on and `fw_ban_unknown_users` is `true`.
pub fn unknown_user_ban(settings: &Settings) -> (r: Option<String>)
    ensures
        match r {
            Some(d) => failed_login_tracking_spec(settings@) && value_or(
                settings@,
                "fw_ban_unknown_users"@,
                "false"@,
            ) == "true"@ && d@ == value_or(settings@, "fw_unknown_user_ban_duration"@, "24h"@),
            None => !(failed_login_tracking_spec(settings@) && value_or(
                settings@,
                "fw_ban_unknown_users"@,
                "false"@,
            ) == "true"@),
        },
{
    if !failed_login_tracking(settings) {
        return None;
    }
    let ban = settings.get_or("fw_ban_unknown_users", "false");
    if str_eq(ban.as_str(), "true") {
        Some(settings.get_or("fw_unknown_user_ban_duration", "24h"))
    } else {
        None
    }
}

/// The failed-login threshold: `fw_failed_login_ban_threshold` read as an `i64`, 5
/// where unset or not a number.
pub open spec fn failed_login_threshold(m: Map<Seq<char>, Seq<char>>) -> int {
    let t = value_or(m, "fw_failed_login_ban_threshold"@, "5"@);
    match parse_int(t, i64::MIN as int, i64::MAX as int) {
        Some(v) => v,
        None => 5,
    }
}

/// For a wrong password: the ban to impose on the address, as its duration text
/// (`fw_failed_login_ban_duration`, `1h` by default), where tracking is on and the
/// failed logins from the address in the last 15 minutes reach the threshold.
pub fn failed_login_ban(settings: &Settings, recent_failures: i64) -> (r: Option<String>)
    ensures
        match r {
            Some(d) => failed_login_tracking_spec(settings@) && recent_failures
                >= failed_login_threshold(settings@) && d@ == value_or(
                settings@,
                "fw_failed_login_ban_duration"@,
                "1h"@,
            ),
            None => !(failed_login_tracking_spec(settings@) && recent_failures
                >= failed_login_threshold(settings@)),
        },
{
    if !failed_login_tracking(settings) {
        return None;
    }
    let t = settings.get_or("fw_failed_login_ban_threshold", "5");
    let threshold = match crate::text::parse_i64(t.as_str()) {
        Some(v) => v,
        None => 5,
    };
    if recent_failures >= threshold {
        Some(settings.get_or("fw_failed_login_ban_duration", "1h"))
    } else {
        None
    }
}

/// Where a login that needs its second factor goes: `/{admin_slug}/mfa`.
pub fn mfa_redirect(admin_slug: &str) -> (r: String)
    ensures
        r@ == seq!['/'] + admin_slug@ + "/mfa"@,
{
    let mut s = String::new();
    s.push('/');
    push_str(&mut s, admin_slug);
    push_str(&mut s, "/mfa");
    s
}

/// Where a successful login goes: the password change page where the account must
/// change its password, else the dashboard.
pub fn login_redirect(admin_slug: &str, force_password_change: bool) -> (r: String)
    ensures
        force_password_change ==> r@ == seq!['/'] + admin_slug@ + "/change-password"@,
        !force_password_change ==> r@ == seq!['/'] + admin_slug@,
{
    let mut s = String::new();
    s.push('/');
    push_str(&mut s, admin_slug);
    if force_password_change {
        push_str(&mut s, "/change-password");
    }
    s
}

// ── Captcha and spam providers ──────────────────────────────────────

/// A captcha service.
#[derive(PartialEq, Eq, Structural, Clone, Copy, Debug)]
pub enum CaptchaProvider {
    Recaptcha,
    Turnstile,
    Hcaptcha,
}

/// What the login page needs to render a captcha.
pub struct CaptchaInfo {
    pub provider: String,
    pub site_key: String,
    pub version: String,
}

/// The captcha the login page uses, where `login_captcha_enabled` is `true` and
/// `login_captcha_provider` names a known service.
pub open spec fn login_captcha_provider_spec(m: Map<Seq<char>, Seq<char>>) -> Option<CaptchaProvider> {
    if !flag_on(m, "login_captcha_enabled"@) {
        None
    } else {
        let p = value_or(m, "login_captcha_provider"@, Seq::empty());
        if p == "recaptcha"@ {
            Some(CaptchaProvider::Recaptcha)
        } else if p == "turnstile"@ {
            Some(CaptchaProvider::Turnstile)
        } else if p == "hcaptcha"@ {
            Some(CaptchaProvider::Hcaptcha)
        } else {
            None
        }
    }
}

/// The provider a login's captcha token is verified with; `None` lets the login pass
/// without a check.
pub fn login_captcha_provider(settings: &Settings) -> (r: Option<CaptchaProvider>)
    ensures
        r == login_captcha_provider_spec(settings@),
{
    if !settings.is_on("login_captcha_enabled") {
        return None;
    }
    let p = settings.get_or_empty("login_captcha_provider");
    if str_eq(p.as_str(), "recaptcha") {
        Some(CaptchaProvider::Recaptcha)
    } else if str_eq(p.as_str(), "turnstile") {
        Some(CaptchaProvider::Turnstile)
    } else if str_eq(p.as_str(), "hcaptcha") {
        Some(CaptchaProvider::Hcaptcha)
    } else {
        None
    }
}

/// The first enabled of reCAPTCHA, Turnstile and hCaptcha.
pub open spec fn active_captcha_provider(m: Map<Seq<char>, Seq<char>>) -> Option<CaptchaProvider> {
    if flag_on(m, "security_recaptcha_enabled"@) {
        Some(CaptchaProvider::Recaptcha)
    } else if flag_on(m, "security_turnstile_enabled"@) {
        Some(CaptchaProvider::Turnstile)
    } else if flag_on(m, "security_hcaptcha_enabled"@) {
        Some(CaptchaProvider::Hcaptcha)
    } else {
        None
    }
}

/// The provider a public form's captcha token is verified with: the first enabled
/// one; `None` lets the form pass without a check.
pub fn verify_captcha_with_settings(settings: &Settings) -> (r: Option<CaptchaProvider>)
    ensures
        r == active_captcha_provider(settings@),
{
    if settings.is_on("security_recaptcha_enabled") {
        Some(CaptchaProvider::Recaptcha)
    } else if settings.is_on("security_turnstile_enabled") {
        Some(CaptchaProvider::Turnstile)
    } else if settings.is_on("security_hcaptcha_enabled") {
        Some(CaptchaProvider::Hcaptcha)
    } else {
        None
    }
}

/// The provider's name, its site key setting, and for reCAPTCHA its version setting
/// (`v3` where unset); the other services have no version.
pub open spec fn captcha_info_spec(m: Map<Seq<char>, Seq<char>>, p: CaptchaProvider) -> (Seq<char>, Seq<char>, Seq<char>) {
    match p {
        CaptchaProvider::Recaptcha => (
            "recaptcha"@,
            value_or(m, "security_recaptcha_site_key"@, Seq::empty()),
            value_or(m, "security_recaptcha_version"@, "v3"@),
        ),
        CaptchaProvider::Turnstile => (
            "turnstile"@,
            value_or(m, "security_turnstile_site_key"@, Seq::empty()),
            Seq::empty(),
        ),
        CaptchaProvider::Hcaptcha => (
            "hcaptcha"@,
            value_or(m, "security_hcaptcha_site_key"@, Seq::empty()),
            Seq::empty(),
        ),
    }
}

fn captcha_info(settings: &Settings, p: CaptchaProvider) -> (r: CaptchaInfo)
    ensures
        (r.provider@, r.site_key@, r.version@) == captcha_info_spec(settings@, p),
{
    match p {
        CaptchaProvider::Recaptcha => CaptchaInfo {
            provider: owned("recaptcha"),
            site_key: settings.get_or_empty("security_recaptcha_site_key"),
            version: settings.get_or("security_recaptcha_version", "v3"),
        },
        CaptchaProvider::Turnstile => CaptchaInfo {
            provider: owned("turnstile"),
            site_key: settings.get_or_empty("security_turnstile_site_key"),
            version: String::new(),
        },
        CaptchaProvider::Hcaptcha => CaptchaInfo {
            provider: owned("hcaptcha"),
            site_key: settings.get_or_empty("security_hcaptcha_site_key"),
            version: String::new(),
        },
    }
}

/// The captcha shown on the login page, if login captcha is on.
pub fn login_captcha_info(settings: &Settings) -> (r: Option<CaptchaInfo>)
    ensures
        match r {
            Some(i) => login_captcha_provider_spec(settings@) matches Some(p) && (
            i.provider@,
            i.site_key@,
            i.version@,
        ) == captcha_info_spec(settings@, p),
            None => login_captcha_provider_spec(settings@) is None,
        },
{
    match login_captcha_provider(settings) {
        Some(p) => Some(captcha_info(settings, p)),
        None => None,
    }
}

/// The captcha shown on public forms, if a provider is enabled.
pub fn active_captcha(settings: &Settings) -> (r: Option<CaptchaInfo>)
    ensures
        match r {
            Some(i) => active_captcha_provider(settings@) matches Some(p) && (
            i.provider@,
            i.site_key@,
            i.version@,
        ) == captcha_info_spec(settings@, p),
            None => active_captcha_provider(settings@) is None,
        },
{
    match verify_captcha_with_settings(settings) {
        Some(p) => Some(captcha_info(settings, p)),
        None => None,
    }
}

/// Whether any captcha provider is enabled.
pub fn has_captcha_provider(settings: &Settings) -> (r: bool)
    ensures
        r == (active_captcha_provider(settings@) is Some),
{
    verify_captcha_with_settings(settings).is_some()
}

/// A spam detection service.
#[derive(PartialEq, Eq, Structural, Clone, Copy, Debug)]
pub enum SpamProvider {
    Akismet,
    CleanTalk,
    OopSpam,
}

/// The enabled spam detection services, in the order content is checked with them.
pub open spec fn spam_providers_spec(m: Map<Seq<char>, Seq<char>>) -> Seq<SpamProvider> {
    (if flag_on(m, "security_akismet_enabled"@) {
        seq![SpamProvider::Akismet]
    } else {
        Seq::empty()
    }) + (if flag_on(m, "security_cleantalk_enabled"@) {
        seq![SpamProvider::CleanTalk]
    } else {
        Seq::empty()
    }) + (if flag_on(m, "security_oopspam_enabled"@) {
        seq![SpamProvider::OopSpam]
    } else {
        Seq::empty()
    })
}

/// The spam detection services to ask, in order; content is spam as soon as one of
/// them flags it, and a service that fails is passed over.
pub fn spam_providers(settings: &Settings) -> (r: Vec<SpamProvider>)
    ensures
        r@ == spam_providers_spec(settings@),
{
    let mut v: Vec<SpamProvider> = Vec::new();
    if settings.is_on("security_akismet_enabled") {
        v.push(SpamProvider::Akismet);
    }
    let ghost a = v@;
    if settings.is_on("security_cleantalk_enabled") {
        v.push(SpamProvider::CleanTalk);
    }
    let ghost b = v@;
    if settings.is_on("security_oopspam_enabled") {
        v.push(SpamProvider::OopSpam);
    }
    proof {
        assert(v@ =~= spam_providers_spec(settings@));
    }
    v
}

/// Whether any spam detection service is enabled.
pub fn has_spam_provider(settings: &Settings) -> (r: bool)
    ensures
        r == (spam_providers_spec(settings@).len() > 0),
{
    spam_providers(settings).len() > 0
}

/// Whether the answers of the spam services, in the order they were asked, flag the
/// content: one answer of "spam" is enough, and a service that failed counts as clean.
pub fn spam_found(answers: &Vec<Result<bool, String>>) -> (r: bool)
    ensures
        r == exists|i: int| 0 <= i < answers@.len() && answers@[i] == Ok::<bool, String>(true),
{
    let mut i: usize = 0;
    while i < answers.len()
        invariant
            i <= answers.len(),
            forall|j: int| 0 <= j < i ==> answers@[j] != Ok::<bool, String>(true),
        decreases answers.len() - i,
    {
        match &answers[i] {
            Ok(true) => {
                return true;
            },
            _ => {},
        }
        i = i + 1;
    }
    false
}

// ── Role guards ─────────────────────────────────────────────────────

/// The signed-in account a request acts for (its session resolved to an active user).
pub struct SessionUser {
    pub id: i64,
    pub email: String,
    pub display_name: String,
    pub role: String,
}

/// Any signed-in, active account.
pub struct AuthenticatedUser {
    pub user: SessionUser,
}

/// A signed-in administrator.
pub struct AdminUser {
    pub user: SessionUser,
}

/// A signed-in administrator or editor.
pub struct EditorUser {
    pub user: SessionUser,
}

/// A signed-in administrator, editor or author.
pub struct AuthorUser {
    pub user: SessionUser,
}

/// The least role a route asks for.
#[derive(PartialEq, Eq, Structural, Clone, Copy, Debug)]
pub enum RoleRequirement {
    Any,
    Author,
    Editor,
    Admin,
}

/// How a role guard answers.
#[derive(PartialEq, Eq, Structural, Clone, Copy, Debug)]
pub enum GuardOutcome {
    /// The request goes on with the user.
    Allow,
    /// Signed in, but the role is not enough.
    Forbidden,
    /// No valid session of an active account.
    Unauthorized,
}

/// A role meets a requirement: `admin` meets all; `editor` all but admin; `author`
/// author and any; every role meets "any".
pub open spec fn role_meets(role: Seq<char>, req: RoleRequirement) -> bool {
    match req {
        RoleRequirement::Any => true,
        RoleRequirement::Author => role == "admin"@ || role == "editor"@ || role == "author"@,
        RoleRequirement::Editor => role == "admin"@ || role == "editor"@,
        RoleRequirement::Admin => role == "admin"@,
    }
}

/// Roles are ordered admin > editor > author > any other: a role that meets a
/// requirement meets every lower one; `admin`, `editor` and `author` each meet the
/// requirement named after them (and so every lower one), while `author` does not meet
/// editor, `editor` does not meet admin, and `subscriber` meets only "any".
pub proof fn roles_are_ordered(role: Seq<char>)
    ensures
        role_meets(role, RoleRequirement::Admin) ==> role_meets(role, RoleRequirement::Editor),
        role_meets(role, RoleRequirement::Editor) ==> role_meets(role, RoleRequirement::Author),
        role_meets(role, RoleRequirement::Author) ==> role_meets(role, RoleRequirement::Any),
        role_meets("admin"@, RoleRequirement::Admin),
        role_meets("editor"@, RoleRequirement::Editor),
        role_meets("author"@, RoleRequirement::Author),
        role_meets("editor"@, RoleRequirement::Author),
        role_meets("admin"@, RoleRequirement::Author),
        !role_meets("author"@, RoleRequirement::Editor),
        !role_meets("editor"@, RoleRequirement::Admin),
        !role_meets("subscriber"@, RoleRequirement::Author),
        role_meets("subscriber"@, RoleRequirement::Any),
{
    assert("admin"@.len() == 5 && "editor"@.len() == 6 && "author"@.len() == 6 && "subscriber"@.len() == 10)
        by {
        reveal_strlit("admin");
        reveal_strlit("editor");
        reveal_strlit("author");
        reveal_strlit("subscriber");
    }
    assert("author"@[0] != "editor"@[0]) by {
        reveal_strlit("editor");
        reveal_strlit("author");
    }
}

/// Decides a role guard for the user a session resolved to, if any.
pub fn role_guard(user: Option<&SessionUser>, req: RoleRequirement) -> (r: GuardOutcome)
    ensures
        match user {
            None => r == GuardOutcome::Unauthorized,
            Some(u) => (r == GuardOutcome::Allow) == role_meets(u.role@, req) && (r
                == GuardOutcome::Forbidden) == !role_meets(u.role@, req),
        },
{
    match user {
        None => GuardOutcome::Unauthorized,
        Some(u) => {
            let role = u.role.as_str();
            let ok = match req {
                RoleRequirement::Any => true,
                RoleRequirement::Author => str_eq(role, "admin") || str_eq(role, "editor")
                    || str_eq(role, "author"),
                RoleRequirement::Editor => str_eq(role, "admin") || str_eq(role, "editor"),
                RoleRequirement::Admin => str_eq(role, "admin"),
            };
            if ok {
                GuardOutcome::Allow
            } else {
                GuardOutcome::Forbidden
            }
        },
    }
}

// ── Password forms ──────────────────────────────────────────────────

/// The form that changes the signed-in user's password.
pub struct ChangePasswordForm {
    pub new_password: String,
    pub confirm_password: String,
}

/// The form that asks for a password reset link.
pub struct ForgotForm {
    pub email: String,
}

/// The form that sets a new password with a reset token.
pub struct ResetForm {
    pub token: String,
    pub password: String,
    pub confirm_password: String,
}

/// The form that asks for a magic sign-in link.
pub struct MagicLinkForm {
    pub email: String,
    pub captcha_token: Option<String>,
}

/// The form with a second-factor code.
pub struct MfaForm {
    pub code: String,
}

/// Why a new password is refused.
#[derive(PartialEq, Eq, Structural, Clone, Copy, Debug)]
pub enum PasswordError {
    TooShort,
    Mismatch,
}

impl PasswordError {
    /// The message shown with the form.
    pub fn message(&self) -> (r: &'static str)
        ensures
            *self == PasswordError::TooShort ==> r@ == "Password must be at least 8 characters."@,
            *self == PasswordError::Mismatch ==> r@ == "Passwords do not match."@,
    {
        match self {
            PasswordError::TooShort => "Password must be at least 8 characters.",
            PasswordError::Mismatch => "Passwords do not match.",
        }
    }
}

/// Checks a new password and its confirmation: at least 8 bytes, and equal.
pub fn validate_new_password(password: &str, confirm: &str) -> (r: Result<(), PasswordError>)
    ensures
        (r == Err::<(), PasswordError>(PasswordError::TooShort)) == (utf8_len(password@) < 8),
        (r == Err::<(), PasswordError>(PasswordError::Mismatch)) == (utf8_len(password@) >= 8
            && password@ != confirm@),
        r is Ok == (utf8_len(password@) >= 8 && password@ == confirm@),
{
    if password.len() < 8 {
        return Err(PasswordError::TooShort);
    }
    if !str_eq(password, confirm) {
        return Err(PasswordError::Mismatch);
    }
    Ok(())
}

/// Who a magic sign-in link goes to: only the admin address, where it is set and the
/// form's email, trimmed, is exactly it. Every request is answered the same way.
pub fn magic_link_recipient(settings: &Settings, email: &str) -> (r: Option<String>)
    ensures
        match r {
            Some(a) => a@ == value_or(settings@, "admin_email"@, Seq::empty()) && a@.len() > 0
                && trim(email@) == a@,
            None => value_or(settings@, "admin_email"@, Seq::empty()).len() == 0 || trim(email@)
                != value_or(settings@, "admin_email"@, Seq::empty()),
        },
{
    let admin = settings.get_or_empty("admin_email");
    let e = str_trim(email);
    if !admin.as_str().is_empty() && str_eq(e.as_str(), admin.as_str()) {
        Some(admin)
    } else {
        None
    }
}

/// Whether an account may get a password reset link: it is active and not a
/// subscriber. Every request is answered the same way.
pub fn reset_link_allowed(active: bool, role: &str) -> (r: bool)
    ensures
        r == (active && role@ != "subscriber"@),
{
    active && !str_eq(role, "subscriber")
}

/// A password whose bcrypt hash is the account's stored hash gets past the password
/// check: an active account that is not a subscriber signs in (or is asked for its
/// second factor).
pub proof fn own_hash_passes_password_check(u: LoginUser, password: Seq<char>)
    requires
        u.active,
        u.role@ != "subscriber"@,
        bcrypt_verify(encode_utf8(password), u.password_hash@) == Some(true),
    ensures
        login_outcome(Some(u), password) == LoginOutcome::MfaRequired || login_outcome(
            Some(u),
            password,
        ) is SessionStart,
{
}

// ── Captcha verification requests ───────────────────────────────────

/// A verification request to a captcha service: its URL and form fields.
pub struct CaptchaRequest {
    pub url: String,
    pub params: Vec<(String, String)>,
}

/// The setting that holds a captcha service's secret key.
pub open spec fn captcha_secret_key(p: CaptchaProvider) -> Seq<char> {
    match p {
        CaptchaProvider::Recaptcha => "security_recaptcha_secret_key"@,
        CaptchaProvider::Turnstile => "security_turnstile_secret_key"@,
        CaptchaProvider::Hcaptcha => "security_hcaptcha_secret_key"@,
    }
}

/// A captcha service's verification endpoint.
pub open spec fn captcha_url(p: CaptchaProvider) -> Seq<char> {
    match p {
        CaptchaProvider::Recaptcha => "https://www.google.com/recaptcha/api/siteverify"@,
        CaptchaProvider::Turnstile => "https://challenges.cloudflare.com/turnstile/v0/siteverify"@,
        CaptchaProvider::Hcaptcha => "https://api.hcaptcha.com/siteverify"@,
    }
}

/// The form of a verification request: the secret and the token; for hCaptcha the
/// site key where it is set; the client address where it is known.
pub open spec fn captcha_params(
    m: Map<Seq<char>, Seq<char>>,
    p: CaptchaProvider,
    token: Seq<char>,
    ip: Option<Seq<char>>,
) -> Seq<(Seq<char>, Seq<char>)> {
    let site_key = value_or(m, "security_hcaptcha_site_key"@, Seq::empty());
    seq![("secret"@, value_or(m, captcha_secret_key(p), Seq::empty())), ("response"@, token)] + (
    if p == CaptchaProvider::Hcaptcha && site_key.len() > 0 {
        seq![("sitekey"@, site_key)]
    } else {
        Seq::empty()
    }) + match ip {
        Some(i) => seq![("remoteip"@, i)],
        None => Seq::empty(),
    }
}

/// The error where a captcha service has no secret key.
pub open spec fn missing_secret_message(p: CaptchaProvider) -> Seq<char> {
    match p {
        CaptchaProvider::Recaptcha => "reCAPTCHA secret key not configured"@,
        CaptchaProvider::Turnstile => "Turnstile secret key not configured"@,
        CaptchaProvider::Hcaptcha => "hCaptcha secret key not configured"@,
    }
}

/// Builds the request that verifies a captcha token, or the configuration error where
/// the service's secret key is not set.
pub fn captcha_request(settings: &Settings, p: CaptchaProvider, token: &str, remote_ip: Option<&str>) -> (r: Result<CaptchaRequest, &'static str>)
    ensures
        match r {
            Ok(req) => value_or(settings@, captcha_secret_key(p), Seq::empty()).len() > 0
                && req.url@ == captcha_url(p) && req.params@.map_values(
                |q: (String, String)| (q.0@, q.1@),
            ) == captcha_params(
                settings@,
                p,
                token@,
                match remote_ip {
                    Some(i) => Some(i@),
                    None => None,
                },
            ),
            Err(msg) => value_or(settings@, captcha_secret_key(p), Seq::empty()).len() == 0
                && msg@ == missing_secret_message(p),
        },
{
    let (key, url, missing): (&str, &str, &'static str) = match p {
        CaptchaProvider::Recaptcha => (
            "security_recaptcha_secret_key",
            "https://www.google.com/recaptcha/api/siteverify",
            "reCAPTCHA secret key not configured",
        ),
        CaptchaProvider::Turnstile => (
            "security_turnstile_secret_key",
            "https://challenges.cloudflare.com/turnstile/v0/siteverify",
            "Turnstile secret key not configured",
        ),
        CaptchaProvider::Hcaptcha => (
            "security_hcaptcha_secret_key",
            "https://api.hcaptcha.com/siteverify",
            "hCaptcha secret key not configured",
        ),
    };
    let secret = settings.get_or_empty(key);
    if secret.as_str().is_empty() {
        return Err(missing);
    }
    let mut params: Vec<(String, String)> = Vec::new();
    params.push((owned("secret"), secret));
    params.push((owned("response"), owned(token)));
    let ghost base = params@.map_values(|q: (String, String)| (q.0@, q.1@));
    if p == CaptchaProvider::Hcaptcha {
        let site_key = settings.get_or_empty("security_hcaptcha_site_key");
        if !site_key.as_str().is_empty() {
            params.push((owned("sitekey"), site_key));
        }
    }
    let ghost mid = params@.map_values(|q: (String, String)| (q.0@, q.1@));
    match remote_ip {
        Some(ip) => params.push((owned("remoteip"), owned(ip))),
        None => {},
    }
    proof {
        let site_key = value_or(settings@, "security_hcaptcha_site_key"@, Seq::empty());
        let sk: Seq<(Seq<char>, Seq<char>)> = if p == CaptchaProvider::Hcaptcha && site_key.len() > 0 {
            seq![("sitekey"@, site_key)]
        } else {
            Seq::empty()
        };
        let ipq: Seq<(Seq<char>, Seq<char>)> = match remote_ip {
            Some(i) => seq![("remoteip"@, i@)],
            None => Seq::empty(),
        };
        assert(base =~= seq![("secret"@, value_or(settings@, captcha_secret_key(p), Seq::empty())), ("response"@, token@)]);
        assert(mid =~= base + sk);
        assert(params@.map_values(|q: (String, String)| (q.0@, q.1@)) =~= mid + ipq);
    }
    Ok(CaptchaRequest { url: owned(url), params })
}

/// reCAPTCHA v3 answers also carry a score that must reach 0.5; other services and
/// reCAPTCHA v2 answer with success alone.
pub fn captcha_needs_score(settings: &Settings, p: CaptchaProvider) -> (r: bool)
    ensures
        r == (p == CaptchaProvider::Recaptcha && value_or(
            settings@,
            "security_recaptcha_version"@,
            "v3"@,
        ) == "v3"@),
{
    match p {
        CaptchaProvider::Recaptcha => {
            let v = settings.get_or("security_recaptcha_version", "v3");
            str_eq(v.as_str(), "v3")
        },
        _ => false,
    }
}

// ── Akismet ─────────────────────────────────────────────────────────

/// The Akismet comment-check form: blog, client address and agent, content and type
/// (`comment` by default), then the author and their email where known.
pub open spec fn akismet_params(
    site_url: Seq<char>,
    ip: Seq<char>,
    ua: Seq<char>,
    content: Seq<char>,
    author: Option<Seq<char>>,
    email: Option<Seq<char>>,
    comment_type: Option<Seq<char>>,
) -> Seq<(Seq<char>, Seq<char>)> {
    seq![
        ("blog"@, site_url),
        ("user_ip"@, ip),
        ("user_agent"@, ua),
        ("comment_content"@, content),
        ("comment_type"@, match comment_type { Some(t) => t, None => "comment"@ }),
    ] + match author {
        Some(a) => seq![("comment_author"@, a)],
        None => Seq::empty(),
    } + match email {
        Some(e) => seq![("comment_author_email"@, e)],
        None => Seq::empty(),
    }
}

/// An optional text as optional characters.
pub open spec fn opt_str(o: Option<&str>) -> Option<Seq<char>> {
    match o {
        Some(s) => Some(s@),
        None => None,
    }
}

/// Builds the Akismet comment-check request (its URL holds the API key), or the
/// configuration error where no key is set.
pub fn akismet_request(
    settings: &Settings,
    site_url: &str,
    user_ip: &str,
    user_agent: &str,
    content: &str,
    author: Option<&str>,
    author_email: Option<&str>,
    comment_type: Option<&str>,
) -> (r: Result<CaptchaRequest, &'static str>)
    ensures
        match r {
            Ok(req) => {
                let key = value_or(settings@, "security_akismet_api_key"@, Seq::empty());
                &&& key.len() > 0
                &&& req.url@ == "https://"@ + key + ".rest.akismet.com/1.1/comment-check"@
                &&& req.params@.map_values(|q: (String, String)| (q.0@, q.1@)) == akismet_params(
                    site_url@,
                    user_ip@,
                    user_agent@,
                    content@,
                    opt_str(author),
                    opt_str(author_email),
                    opt_str(comment_type),
                )
            },
            Err(msg) => value_or(settings@, "security_akismet_api_key"@, Seq::empty()).len() == 0
                && msg@ == "Akismet API key not configured"@,
        },
{
    let key = settings.get_or_empty("security_akismet_api_key");
    if key.as_str().is_empty() {
        return Err("Akismet API key not configured");
    }
    let mut url = owned("https://");
    push_str(&mut url, key.as_str());
    push_str(&mut url, ".rest.akismet.com/1.1/comment-check");
    let ctype: &str = match comment_type {
        Some(t) => t,
        None => "comment",
    };
    let mut params: Vec<(String, String)> = Vec::new();
    params.push((owned("blog"), owned(site_url)));
    params.push((owned("user_ip"), owned(user_ip)));
    params.push((owned("user_agent"), owned(user_agent)));
    params.push((owned("comment_content"), owned(content)));
    params.push((owned("comment_type"), owned(ctype)));
    let ghost base = params@.map_values(|q: (String, String)| (q.0@, q.1@));
    match author {
        Some(a) => params.push((owned("comment_author"), owned(a))),
        None => {},
    }
    let ghost mid = params@.map_values(|q: (String, String)| (q.0@, q.1@));
    match author_email {
        Some(e) => params.push((owned("comment_author_email"), owned(e))),
        None => {},
    }
    proof {
        let aq: Seq<(Seq<char>, Seq<char>)> = match author {
            Some(a) => seq![("comment_author"@, a@)],
            None => Seq::empty(),
        };
        let eq: Seq<(Seq<char>, Seq<char>)> = match author_email {
            Some(e) => seq![("comment_author_email"@, e@)],
            None => Seq::empty(),
        };
        assert(base =~= seq![
            ("blog"@, site_url@),
            ("user_ip"@, user_ip@),
            ("user_agent"@, user_agent@),
            ("comment_content"@, content@),
            ("comment_type"@, match opt_str(comment_type) { Some(t) => t, None => "comment"@ }),
        ]);
        assert(mid =~= base + aq);
        assert(params@.map_values(|q: (String, String)| (q.0@, q.1@)) =~= mid + eq);
    }
    Ok(CaptchaRequest { url, params })
}

/// Akismet answers `true` for spam and `false` for ham (surrounding whitespace
/// ignored); any other answer is an error.
pub fn akismet_verdict(body: &str) -> (r: Option<bool>)
    ensures
        r == (if trim(body@) == "true"@ {
            Some(true)
        } else if trim(body@) == "false"@ {
            Some(false)
        } else {
            None::<bool>
        }),
{
    let t = str_trim(body);
    if str_eq(t.as_str(), "true") {
        Some(true)
    } else if str_eq(t.as_str(), "false") {
        Some(false)
    } else {
        None
    }
}

/// The setting that holds a spam service's API key.
pub open spec fn spam_key_setting(p: SpamProvider) -> Seq<char> {
    match p {
        SpamProvider::Akismet => "security_akismet_api_key"@,
        SpamProvider::CleanTalk => "security_cleantalk_api_key"@,
        SpamProvider::OopSpam => "security_oopspam_api_key"@,
    }
}

/// The error for a spam service whose API key is not set.
pub open spec fn spam_key_missing(p: SpamProvider) -> Seq<char> {
    match p {
        SpamProvider::Akismet => "Akismet API key not configured"@,
        SpamProvider::CleanTalk => "CleanTalk API key not configured"@,
        SpamProvider::OopSpam => "OOPSpam API key not configured"@,
    }
}

/// A spam service's API key, or the configuration error where none is set.
pub fn spam_api_key(settings: &Settings, p: SpamProvider) -> (r: Result<String, &'static str>)
    ensures
        match r {
            Ok(k) => k@.len() > 0 && k@ == value_or(settings@, spam_key_setting(p), Seq::empty()),
            Err(m) => value_or(settings@, spam_key_setting(p), Seq::empty()).len() == 0 && m@
                == spam_key_missing(p),
        },
{
    let key = match p {
        SpamProvider::Akismet => settings.get_or_empty("security_akismet_api_key"),
        SpamProvider::CleanTalk => settings.get_or_empty("security_cleantalk_api_key"),
        SpamProvider::OopSpam => settings.get_or_empty("security_oopspam_api_key"),
    };
    if key.as_str().is_empty() {
        return Err(
            match p {
                SpamProvider::Akismet => "Akismet API key not configured",
                SpamProvider::CleanTalk => "CleanTalk API key not configured",
                SpamProvider::OopSpam => "OOPSpam API key not configured",
            },
        );
    }
    Ok(key)
}

/// CleanTalk's answer flags spam where its `allow` field is 0 (a missing field counts
/// as 1, allowed).
pub fn cleantalk_verdict(allow: Option<i64>) -> (r: bool)
    ensures
        r == (allow == Some(0i64)),
{
    match allow {
        Some(a) => a == 0,
        None => false,
    }
}

/// OOPSpam's answer flags spam where its `Score` (0 to 6; 0 when missing) is 3 or more.
pub fn oopspam_verdict(score: Option<i64>) -> (r: bool)
    ensures
        r == (score matches Some(x) && x >= 3),
{
    match score {
        Some(x) => x >= 3,
        None => false,
    }
}

} // verus!
