use vstd::prelude::*;
use crate::text::{
    trim, strip_prefix, split_char, first_match_from, parse_int, decimal, utf8_len,
    str_trim, str_eq, strip_prefix_str, split_str, chars_of, string_of_range,
    vec_find_from, parse_u16, owned, push_str, usize_to_decimal, lemma_first_match_from_contains,
    matches_at,
};

verus! {

// ── First-run setup form ────────────────────────────────────────────

/// The first-run setup form.
pub struct SetupForm {
    pub db_backend: String,
    pub mongo_uri: Option<String>,
    pub mongo_db_name: Option<String>,
    pub mongo_auth_enabled: Option<String>,
    pub mongo_auth_mechanism: Option<String>,
    pub mongo_username: Option<String>,
    pub mongo_password: Option<String>,
    pub mongo_auth_db: Option<String>,
    pub site_name: String,
    pub admin_email: String,
    pub password: String,
    pub confirm_password: String,
    pub accept_terms: Option<String>,
}

/// Why the setup form is refused.
#[derive(PartialEq, Eq, Structural, Clone, Copy, Debug)]
pub enum SetupError {
    NoBackend,
    MongoUriMissing,
    MongoDbNameMissing,
    MongoUsernameMissing,
    MongoPasswordMissing,
    EmailMissing,
    PasswordTooShort,
    PasswordMismatch,
    TermsNotAccepted,
}

impl SetupError {
    /// The message shown on the setup page.
    pub fn message(&self) -> (r: &'static str)
        ensures
            *self == SetupError::NoBackend ==> r@ == "Please select a database backend."@,
            *self == SetupError::MongoUriMissing ==> r@ == "MongoDB connection URI is required."@,
            *self == SetupError::MongoDbNameMissing ==> r@ == "MongoDB database name is required."@,
            *self == SetupError::MongoUsernameMissing ==> r@
                == "MongoDB username is required for the selected auth mechanism."@,
            *self == SetupError::MongoPasswordMissing ==> r@
                == "MongoDB password is required for the selected auth mechanism."@,
            *self == SetupError::EmailMissing ==> r@ == "Email is required."@,
            *self == SetupError::PasswordTooShort ==> r@ == "Password must be at least 8 characters."@,
            *self == SetupError::PasswordMismatch ==> r@ == "Passwords do not match."@,
            *self == SetupError::TermsNotAccepted ==> r@
                == "You must accept the Terms of Use and Privacy Policy."@,
    {
        match self {
            SetupError::NoBackend => "Please select a database backend.",
            SetupError::MongoUriMissing => "MongoDB connection URI is required.",
            SetupError::MongoDbNameMissing => "MongoDB database name is required.",
            SetupError::MongoUsernameMissing => "MongoDB username is required for the selected auth mechanism.",
            SetupError::MongoPasswordMissing => "MongoDB password is required for the selected auth mechanism.",
            SetupError::EmailMissing => "Email is required.",
            SetupError::PasswordTooShort => "Password must be at least 8 characters.",
            SetupError::PasswordMismatch => "Passwords do not match.",
            SetupError::TermsNotAccepted => "You must accept the Terms of Use and Privacy Policy.",
        }
    }
}

/// An optional form field, or `d` where it is absent.
pub open spec fn or_default(f: Option<String>, d: Seq<char>) -> Seq<char> {
    match f {
        Some(s) => s@,
        None => d,
    }
}

/// MongoDB authentication is switched on in the form.
pub open spec fn mongo_auth_on(f: SetupForm) -> bool {
    f.mongo_auth_enabled is Some && f.mongo_auth_enabled->0@ == "true"@
}

/// The first problem with a setup form, checked in order: the backend, then for
/// MongoDB the URI, database name and (with authentication other than X.509 and AWS)
/// username and password, then email, password length (bytes), confirmation and terms.
pub open spec fn setup_problem(f: SetupForm) -> Option<SetupError> {
    let backend = f.db_backend@;
    let mech = or_default(f.mongo_auth_mechanism, "scram_sha256"@);
    if backend != "sqlite"@ && backend != "mongodb"@ {
        Some(SetupError::NoBackend)
    } else if backend == "mongodb"@ && trim(or_default(f.mongo_uri, Seq::empty())).len() == 0 {
        Some(SetupError::MongoUriMissing)
    } else if backend == "mongodb"@ && trim(or_default(f.mongo_db_name, Seq::empty())).len() == 0 {
        Some(SetupError::MongoDbNameMissing)
    } else if backend == "mongodb"@ && mongo_auth_on(f) && mech != "x509"@ && mech != "aws"@
        && trim(or_default(f.mongo_username, Seq::empty())).len() == 0 {
        Some(SetupError::MongoUsernameMissing)
    } else if backend == "mongodb"@ && mongo_auth_on(f) && mech != "x509"@ && mech != "aws"@
        && trim(or_default(f.mongo_password, Seq::empty())).len() == 0 {
        Some(SetupError::MongoPasswordMissing)
    } else if trim(f.admin_email@).len() == 0 {
        Some(SetupError::EmailMissing)
    } else if utf8_len(f.password@) < 8 {
        Some(SetupError::PasswordTooShort)
    } else if f.password@ != f.confirm_password@ {
        Some(SetupError::PasswordMismatch)
    } else if !(f.accept_terms is Some && f.accept_terms->0@ == "true"@) {
        Some(SetupError::TermsNotAccepted)
    } else {
        None
    }
}

fn field_or<'a>(f: &'a Option<String>, d: &'a str) -> (r: &'a str)
    ensures
        r@ == or_default(*f, d@),
{
    match f {
        Some(s) => s.as_str(),
        None => d,
    }
}

fn is_true_field(f: &Option<String>) -> (r: bool)
    ensures
        r == (f is Some && f->0@ == "true"@),
{
    match f {
        Some(s) => str_eq(s.as_str(), "true"),
        None => false,
    }
}

/// Checks the setup form.
pub fn validate_setup(form: &SetupForm) -> (r: Result<(), SetupError>)
    ensures
        match r {
            Ok(()) => setup_problem(*form) is None,
            Err(e) => setup_problem(*form) == Some(e),
        },
{
    let backend = form.db_backend.as_str();
    let sqlite = str_eq(backend, "sqlite");
    let mongo = str_eq(backend, "mongodb");
    if !sqlite && !mongo {
        return Err(SetupError::NoBackend);
    }
    if mongo {
        let uri = str_trim(field_or(&form.mongo_uri, ""));
        let db = str_trim(field_or(&form.mongo_db_name, ""));
        proof {
            reveal_strlit("");
            assert(""@ =~= Seq::<char>::empty());
        }
        if uri.as_str().is_empty() {
            return Err(SetupError::MongoUriMissing);
        }
        if db.as_str().is_empty() {
            return Err(SetupError::MongoDbNameMissing);
        }
        if is_true_field(&form.mongo_auth_enabled) {
            let mech = field_or(&form.mongo_auth_mechanism, "scram_sha256");
            if !str_eq(mech, "x509") && !str_eq(mech, "aws") {
                let user = str_trim(field_or(&form.mongo_username, ""));
                if user.as_str().is_empty() {
                    return Err(SetupError::MongoUsernameMissing);
                }
                let pass = str_trim(field_or(&form.mongo_password, ""));
                if pass.as_str().is_empty() {
                    return Err(SetupError::MongoPasswordMissing);
                }
            }
        }
    }
    let email = str_trim(form.admin_email.as_str());
    if email.as_str().is_empty() {
        return Err(SetupError::EmailMissing);
    }
    if form.password.as_str().len() < 8 {
        return Err(SetupError::PasswordTooShort);
    }
    if !str_eq(form.password.as_str(), form.confirm_password.as_str()) {
        return Err(SetupError::PasswordMismatch);
    }
    if !is_true_field(&form.accept_terms) {
        return Err(SetupError::TermsNotAccepted);
    }
    Ok(())
}

/// The `velocty.toml` that setup writes for the chosen backend.
pub open spec fn setup_toml_spec(f: SetupForm) -> Seq<char> {
    if f.db_backend@ == "mongodb"@ {
        let base = "[database]\nbackend = \"mongodb\"\nuri = \""@ + trim(
            or_default(f.mongo_uri, "mongodb://localhost:27017"@),
        ) + "\"\nname = \""@ + trim(or_default(f.mongo_db_name, "velocty"@)) + "\"\n"@;
        if mongo_auth_on(f) {
            let user = trim(or_default(f.mongo_username, Seq::empty()));
            let pass = trim(or_default(f.mongo_password, Seq::empty()));
            base + "\n[database.auth]\nmechanism = \""@ + trim(
                or_default(f.mongo_auth_mechanism, "scram_sha256"@),
            ) + "\"\nauth_db = \""@ + trim(or_default(f.mongo_auth_db, "admin"@)) + "\"\n"@ + (
            if user.len() > 0 {
                "username = \""@ + user + "\"\n"@
            } else {
                Seq::empty()
            }) + (if pass.len() > 0 {
                "password = \""@ + pass + "\"\n"@
            } else {
                Seq::empty()
            })
        } else {
            base
        }
    } else {
        "[database]\nbackend = \"sqlite\"\npath = \"website/site/db/velocty.db\"\n"@
    }
}

/// Builds the configuration file for the backend chosen in the setup form.
pub fn setup_toml(form: &SetupForm) -> (r: String)
    ensures
        r@ == setup_toml_spec(*form),
{
    if !str_eq(form.db_backend.as_str(), "mongodb") {
        return owned("[database]\nbackend = \"sqlite\"\npath = \"website/site/db/velocty.db\"\n");
    }
    let uri = str_trim(field_or(&form.mongo_uri, "mongodb://localhost:27017"));
    let name = str_trim(field_or(&form.mongo_db_name, "velocty"));
    let mut t = owned("[database]\nbackend = \"mongodb\"\nuri = \"");
    push_str(&mut t, uri.as_str());
    push_str(&mut t, "\"\nname = \"");
    push_str(&mut t, name.as_str());
    push_str(&mut t, "\"\n");
    if is_true_field(&form.mongo_auth_enabled) {
        let mech = str_trim(field_or(&form.mongo_auth_mechanism, "scram_sha256"));
        let auth_db = str_trim(field_or(&form.mongo_auth_db, "admin"));
        push_str(&mut t, "\n[database.auth]\nmechanism = \"");
        push_str(&mut t, mech.as_str());
        push_str(&mut t, "\"\nauth_db = \"");
        push_str(&mut t, auth_db.as_str());
        push_str(&mut t, "\"\n");
        proof {
            reveal_strlit("");
            assert(""@ =~= Seq::<char>::empty());
        }
        let user = str_trim(field_or(&form.mongo_username, ""));
        let pass = str_trim(field_or(&form.mongo_password, ""));
        let ghost before_user = t@;
        if !user.as_str().is_empty() {
            push_str(&mut t, "username = \"");
            push_str(&mut t, user.as_str());
            push_str(&mut t, "\"\n");
        }
        let ghost before_pass = t@;
        if !pass.as_str().is_empty() {
            push_str(&mut t, "password = \"");
            push_str(&mut t, pass.as_str());
            push_str(&mut t, "\"\n");
        }
        proof {
            let us: Seq<char> = if user@.len() > 0 {
                "username = \""@ + user@ + "\"\n"@
            } else {
                Seq::empty()
            };
            let ps: Seq<char> = if pass@.len() > 0 {
                "password = \""@ + pass@ + "\"\n"@
            } else {
                Seq::empty()
            };
            assert(before_pass =~= before_user + us);
            assert(t@ =~= before_pass + ps);
        }
    }
    t
}

// ── MongoDB connection test ─────────────────────────────────────────

/// The body of a MongoDB connection test request.
pub struct TestMongoForm {
    pub uri: String,
}

/// The answer to a MongoDB connection test.
pub struct TestMongoResult {
    pub ok: bool,
    pub message: String,
}

/// Why a MongoDB URI yields no host to test.
#[derive(PartialEq, Eq, Structural, Clone, Copy, Debug)]
pub enum MongoUriError {
    /// The URI starts with neither `mongodb://` nor `mongodb+srv://`.
    Scheme,
    /// The port is not a number from 0 to 65535.
    InvalidPort,
}

impl MongoUriError {
    /// The error's text.
    pub fn message(&self) -> (r: &'static str)
        ensures
            *self == MongoUriError::Scheme ==> r@ == "URI must start with mongodb:// or mongodb+srv://"@,
            *self == MongoUriError::InvalidPort ==> r@ == "Invalid port in URI"@,
    {
        match self {
            MongoUriError::Scheme => "URI must start with mongodb:// or mongodb+srv://",
            MongoUriError::InvalidPort => "Invalid port in URI",
        }
    }
}

/// The index of the last `c` in `s`, if any.
pub open spec fn last_index(s: Seq<char>, c: char) -> Option<int>
    decreases s.len(),
{
    if s.len() == 0 {
        None
    } else if s.last() == c {
        Some(s.len() - 1)
    } else {
        last_index(s.drop_last(), c)
    }
}

/// The first host of a MongoDB URI after its scheme: credentials (up to the first
/// `@`) dropped, then the path and query (from the first `/`), then further hosts of
/// a replica set (from the first `,`).
pub open spec fn mongo_first_host(rest: Seq<char>) -> Seq<char> {
    let after_creds = match first_match_from(rest, seq!['@'], 0) {
        Some(p) => rest.skip(p + 1),
        None => rest,
    };
    split_char(split_char(after_creds, '/')[0], ',')[0]
}

/// The host and port to test for a MongoDB URI: the port after the last `:` of the
/// first host, 27017 where there is none.
pub open spec fn mongo_host_spec(uri: Seq<char>) -> Result<(Seq<char>, int), MongoUriError> {
    let rest = match strip_prefix(uri, "mongodb+srv://"@) {
        Some(r) => Some(r),
        None => strip_prefix(uri, "mongodb://"@),
    };
    match rest {
        None => Err(MongoUriError::Scheme),
        Some(r) => {
            let h = mongo_first_host(r);
            match last_index(h, ':') {
                Some(c) => match parse_int(h.skip(c + 1), 0, 65535) {
                    Some(p) => Ok((h.take(c), p)),
                    None => Err(MongoUriError::InvalidPort),
                },
                None => Ok((h, 27017)),
            }
        },
    }
}

fn first_part(s: &str, c: char) -> (r: String)
    ensures
        r@ == split_char(s@, c)[0],
{
    let parts = split_str(s, c);
    proof {
        assert(parts@.map_values(|p: String| p@)[0] == parts@[0]@);
    }
    parts[0].clone()
}

/// Parses a `mongodb://` or `mongodb+srv://` URI for the host and port of its first
/// host, for a TCP test.
pub fn parse_mongo_host(uri: &str) -> (r: Result<(String, u16), MongoUriError>)
    ensures
        match r {
            Ok((h, p)) => mongo_host_spec(uri@) == Ok::<(Seq<char>, int), MongoUriError>((h@, p as int)),
            Err(e) => mongo_host_spec(uri@) == Err::<(Seq<char>, int), MongoUriError>(e),
        },
{
    let rest = match strip_prefix_str(uri, "mongodb+srv://") {
        Some(r) => r,
        None => match strip_prefix_str(uri, "mongodb://") {
            Some(r) => r,
            None => return Err(MongoUriError::Scheme),
        },
    };
    let v = chars_of(rest.as_str());
    let at = vec!['@'];
    proof {
        assert(at@ =~= seq!['@']);
    }
    let after_creds = match vec_find_from(&v, &at, 0) {
        Some(p) => {
            proof {
                lemma_first_match_from_contains(v@, at@, 0);
                assert(matches_at(v@, at@, p as int));
            }
            let n = v.len();
            let s = string_of_range(&v, p + 1, n);
            proof {
                assert(v@.subrange(p + 1, n as int) =~= v@.skip(p + 1));
            }
            s
        },
        None => rest.clone(),
    };
    let host_part = first_part(after_creds.as_str(), '/');
    let h = first_part(host_part.as_str(), ',');
    let hv = chars_of(h.as_str());
    let mut i: usize = hv.len();
    proof {
        assert(hv@.take(i as int) =~= hv@);
    }
    while i > 0 && hv[i - 1] != ':'
        invariant
            i <= hv.len(),
            last_index(hv@, ':') == last_index(hv@.take(i as int), ':'),
        decreases i,
    {
        proof {
            assert(hv@.take(i as int).drop_last() =~= hv@.take(i - 1));
        }
        i = i - 1;
    }
    if i == 0 {
        proof {
            assert(hv@.take(0) =~= Seq::<char>::empty());
        }
        return Ok((h, 27017));
    }
    proof {
        assert(last_index(hv@.take(i as int), ':') == Some(i - 1));
    }
    let host = string_of_range(&hv, 0, i - 1);
    let port_text = string_of_range(&hv, i, hv.len());
    proof {
        assert(hv@.subrange(0, i - 1) =~= hv@.take(i - 1));
        assert(hv@.subrange(i as int, hv@.len() as int) =~= hv@.skip(i as int));
    }
    match parse_u16(port_text.as_str()) {
        Some(p) => Ok((host, p)),
        None => Err(MongoUriError::InvalidPort),
    }
}

/// The `isMaster` handshake: an OP_MSG (opcode 2013, request id 1) whose body is the
/// BSON document `{ isMaster: 1, $db: "admin" }`.
pub open spec fn ismaster_bytes() -> Seq<u8> {
    seq![
        // message length 55, request id 1, response to 0, opcode 2013
        55u8, 0, 0, 0, 1, 0, 0, 0, 0, 0, 0, 0, 0xdd, 0x07, 0, 0,
        // flag bits, section kind 0
        0, 0, 0, 0, 0,
        // document length 34
        34, 0, 0, 0,
        // int32 "isMaster" = 1
        0x10, 105, 115, 77, 97, 115, 116, 101, 114, 0, 1, 0, 0, 0,
        // string "$db" = "admin"
        0x02, 36, 100, 98, 0, 6, 0, 0, 0, 97, 100, 109, 105, 110, 0,
        // end of document
        0,
    ]
}

/// The bytes of the `isMaster` handshake sent to test a MongoDB server.
pub fn ismaster_message() -> (r: Vec<u8>)
    ensures
        r@ == ismaster_bytes(),
        r@.len() == 55,
{
    let r: Vec<u8> = vec![
        55u8, 0, 0, 0, 1, 0, 0, 0, 0, 0, 0, 0, 0xdd, 0x07, 0, 0,
        0, 0, 0, 0, 0,
        34, 0, 0, 0,
        0x10, 105, 115, 77, 97, 115, 116, 101, 114, 0, 1, 0, 0, 0,
        0x02, 36, 100, 98, 0, 6, 0, 0, 0, 97, 100, 109, 105, 110, 0,
        0,
    ];
    proof {
        assert(r@ =~= ismaster_bytes());
    }
    r
}

/// A little-endian `i32` from four bytes.
pub open spec fn le_i32(b0: u8, b1: u8, b2: u8, b3: u8) -> int {
    let u = b0 as int + 256 * b1 as int + 65536 * b2 as int + 16777216 * b3 as int;
    if u >= 0x8000_0000 {
        u - 0x1_0000_0000
    } else {
        u
    }
}

fn le_i32_of(b0: u8, b1: u8, b2: u8, b3: u8) -> (r: i32)
    ensures
        r as int == le_i32(b0, b1, b2, b3),
{
    let u: u64 = b0 as u64 + 256 * (b1 as u64) + 65536 * (b2 as u64) + 16777216 * (b3 as u64);
    if u >= 0x8000_0000 {
        (u as i64 - 0x1_0000_0000i64) as i32
    } else {
        u as i32
    }
}

/// A reply header shows a MongoDB server: its opcode (bytes 12 to 15) is OP_MSG and
/// its length (bytes 0 to 3) is more than the header's 16 bytes.
pub open spec fn mongo_reply_ok(h: Seq<u8>) -> bool {
    le_i32(h[12], h[13], h[14], h[15]) == 2013 && le_i32(h[0], h[1], h[2], h[3]) > 16
}

/// Reads the 16-byte header of the reply to the handshake: `Ok` where it shows a
/// MongoDB server, else the opcode that came back.
pub fn check_mongo_reply(header: &[u8]) -> (r: Result<(), i32>)
    requires
        header@.len() == 16,
    ensures
        r is Ok == mongo_reply_ok(header@),
        r matches Err(op) ==> op as int == le_i32(header@[12], header@[13], header@[14], header@[15]),
{
    let len = le_i32_of(header[0], header[1], header[2], header[3]);
    let op = le_i32_of(header[12], header[13], header[14], header[15]);
    if op == 2013 && len > 16 {
        Ok(())
    } else {
        Err(op)
    }
}

/// The address a test connects to: `host:port`.
pub fn mongo_address(host: &str, port: u16) -> (r: String)
    ensures
        r@ == host@ + seq![':'] + decimal(port as nat),
{
    let mut s = owned(host);
    s.push(':');
    let p = usize_to_decimal(port as usize);
    push_str(&mut s, p.as_str());
    s
}

/// The answer to a connection test whose URI is empty or yields no host; `None`
/// where the test goes on to connect.
pub fn mongo_test_precheck(uri: &str) -> (r: Result<(String, u16), TestMongoResult>)
    ensures
        trim(uri@).len() == 0 ==> (r matches Err(t) && !t.ok && t.message@ == "Connection URI is empty."@),
        trim(uri@).len() > 0 ==> match mongo_host_spec(trim(uri@)) {
            Ok((h, p)) => r matches Ok(hp) && hp.0@ == h && hp.1 as int == p,
            Err(e) => r matches Err(t) && !t.ok && (e == MongoUriError::Scheme ==> t.message@
                == "Invalid URI: "@ + "URI must start with mongodb:// or mongodb+srv://"@) && (e
                == MongoUriError::InvalidPort ==> t.message@ == "Invalid URI: "@ + "Invalid port in URI"@),
        },
{
    let u = str_trim(uri);
    if u.as_str().is_empty() {
        return Err(TestMongoResult { ok: false, message: owned("Connection URI is empty.") });
    }
    match parse_mongo_host(u.as_str()) {
        Ok(hp) => Ok(hp),
        Err(e) => {
            let mut m = owned("Invalid URI: ");
            push_str(&mut m, e.message());
            Err(TestMongoResult { ok: false, message: m })
        },
    }
}

} // verus!
