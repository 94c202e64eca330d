use vstd::prelude::*;
use crate::settings::{Settings, value_or, flag_on};
use crate::text::{trim_end_char, str_trim_end_char, owned, push_str, chars_of};
use crate::mfa::random_below;

verus! {

/// The email services sent through an API, whose sender is the admin address.
pub open spec fn api_provider_on(m: Map<Seq<char>, Seq<char>>) -> bool {
    flag_on(m, "email_resend_enabled"@) || flag_on(m, "email_ses_enabled"@) || flag_on(
        m,
        "email_postmark_enabled"@,
    ) || flag_on(m, "email_brevo_enabled"@) || flag_on(m, "email_sendpulse_enabled"@) || flag_on(
        m,
        "email_mailgun_enabled"@,
    ) || flag_on(m, "email_moosend_enabled"@) || flag_on(m, "email_mandrill_enabled"@) || flag_on(
        m,
        "email_sparkpost_enabled"@,
    )
}

/// Some non-empty text, else nothing.
pub open spec fn nonempty(s: Seq<char>) -> Option<Seq<char>> {
    if s.len() > 0 {
        Some(s)
    } else {
        None
    }
}

/// The sender address: the configured from address; else the Gmail address where
/// Gmail is on; else the SMTP user where SMTP is on; else the admin address where an
/// API service is on. An empty candidate gives no address.
pub open spec fn from_email_spec(m: Map<Seq<char>, Seq<char>>) -> Option<Seq<char>> {
    let from = value_or(m, "email_from_address"@, Seq::empty());
    if from.len() > 0 {
        Some(from)
    } else if flag_on(m, "email_gmail_enabled"@) {
        nonempty(value_or(m, "email_gmail_address"@, Seq::empty()))
    } else if flag_on(m, "email_smtp_enabled"@) {
        nonempty(value_or(m, "email_smtp_username"@, Seq::empty()))
    } else if api_provider_on(m) {
        nonempty(value_or(m, "admin_email"@, Seq::empty()))
    } else {
        None
    }
}

fn nonempty_setting(settings: &Settings, key: &str) -> (r: Option<String>)
    ensures
        match r {
            Some(s) => nonempty(value_or(settings@, key@, Seq::empty())) == Some(s@),
            None => nonempty(value_or(settings@, key@, Seq::empty())) is None,
        },
{
    let v = settings.get_or_empty(key);
    if v.as_str().is_empty() {
        None
    } else {
        Some(v)
    }
}

/// Determines the sender address of system emails.
pub fn get_from_email(settings: &Settings) -> (r: Option<String>)
    ensures
        match r {
            Some(s) => from_email_spec(settings@) == Some(s@),
            None => from_email_spec(settings@) is None,
        },
{
    let from = settings.get_or_empty("email_from_address");
    if !from.as_str().is_empty() {
        return Some(from);
    }
    if settings.is_on("email_gmail_enabled") {
        return nonempty_setting(settings, "email_gmail_address");
    }
    if settings.is_on("email_smtp_enabled") {
        return nonempty_setting(settings, "email_smtp_username");
    }
    if settings.is_on("email_resend_enabled") || settings.is_on("email_ses_enabled")
        || settings.is_on("email_postmark_enabled") || settings.is_on("email_brevo_enabled")
        || settings.is_on("email_sendpulse_enabled") || settings.is_on("email_mailgun_enabled")
        || settings.is_on("email_moosend_enabled") || settings.is_on("email_mandrill_enabled")
        || settings.is_on("email_sparkpost_enabled") {
        return nonempty_setting(settings, "admin_email");
    }
    None
}

/// The site name, site URL without trailing slashes, and admin slug that emails use.
pub open spec fn email_context(m: Map<Seq<char>, Seq<char>>) -> (Seq<char>, Seq<char>, Seq<char>) {
    (
        value_or(m, "site_name"@, "Velocty"@),
        trim_end_char(value_or(m, "site_url"@, "http://localhost:8000"@), '/'),
        value_or(m, "admin_slug"@, "admin"@),
    )
}

fn context_of(settings: &Settings) -> (r: (String, String, String))
    ensures
        (r.0@, r.1@, r.2@) == email_context(settings@),
{
    let site_name = settings.get_or("site_name", "Velocty");
    let url = settings.get_or("site_url", "http://localhost:8000");
    let base = str_trim_end_char(url.as_str(), '/');
    let slug = settings.get_or("admin_slug", "admin");
    (site_name, base, slug)
}

/// A message to send: subject and body.
pub struct EmailText {
    pub subject: String,
    pub body: String,
}

/// The magic-link sign-in email for `token`.
pub open spec fn magic_link_email_spec(m: Map<Seq<char>, Seq<char>>, token: Seq<char>) -> (Seq<char>, Seq<char>) {
    let (site, base, slug) = email_context(m);
    let link = base + seq!['/'] + slug + "/magic-link/verify?token="@ + token;
    (
        "Sign in to "@ + site + " — Magic Link"@,
        "Hello,\n\nClick the link below to sign in to "@ + site + ":\n\n"@ + link
            + "\n\nThis link expires in 15 minutes and can only be used once.\n\nIf you didn't request this, you can safely ignore this email.\n\n— "@
            + site + seq!['\n'],
    )
}

/// Builds the magic-link sign-in email.
pub fn magic_link_email(settings: &Settings, token: &str) -> (r: EmailText)
    ensures
        (r.subject@, r.body@) == magic_link_email_spec(settings@, token@),
{
    let (site, base, slug) = context_of(settings);
    let mut link = base;
    link.push('/');
    push_str(&mut link, slug.as_str());
    push_str(&mut link, "/magic-link/verify?token=");
    push_str(&mut link, token);
    let mut subject = owned("Sign in to ");
    push_str(&mut subject, site.as_str());
    push_str(&mut subject, " — Magic Link");
    let mut body = owned("Hello,\n\nClick the link below to sign in to ");
    push_str(&mut body, site.as_str());
    push_str(&mut body, ":\n\n");
    push_str(&mut body, link.as_str());
    push_str(
        &mut body,
        "\n\nThis link expires in 15 minutes and can only be used once.\n\nIf you didn't request this, you can safely ignore this email.\n\n— ",
    );
    push_str(&mut body, site.as_str());
    body.push('\n');
    proof {
        assert((subject@, body@) =~~= magic_link_email_spec(settings@, token@));
    }
    EmailText { subject, body }
}

/// The password reset email for `token`.
pub open spec fn reset_email_spec(m: Map<Seq<char>, Seq<char>>, token: Seq<char>) -> (Seq<char>, Seq<char>) {
    let (site, base, slug) = email_context(m);
    let link = base + seq!['/'] + slug + "/reset-password?token="@ + token;
    (
        "Reset your password — "@ + site,
        "Hello,\n\nA password reset was requested for your account on "@ + site
            + ".\n\nClick the link below to set a new password:\n\n"@ + link
            + "\n\nThis link expires in 30 minutes and can only be used once.\n\nIf you didn't request this, you can safely ignore this email.\n\n— "@
            + site + seq!['\n'],
    )
}

/// Builds the password reset email.
pub fn reset_email(settings: &Settings, token: &str) -> (r: EmailText)
    ensures
        (r.subject@, r.body@) == reset_email_spec(settings@, token@),
{
    let (site, base, slug) = context_of(settings);
    let mut link = base;
    link.push('/');
    push_str(&mut link, slug.as_str());
    push_str(&mut link, "/reset-password?token=");
    push_str(&mut link, token);
    let mut subject = owned("Reset your password — ");
    push_str(&mut subject, site.as_str());
    let mut body = owned("Hello,\n\nA password reset was requested for your account on ");
    push_str(&mut body, site.as_str());
    push_str(&mut body, ".\n\nClick the link below to set a new password:\n\n");
    push_str(&mut body, link.as_str());
    push_str(
        &mut body,
        "\n\nThis link expires in 30 minutes and can only be used once.\n\nIf you didn't request this, you can safely ignore this email.\n\n— ",
    );
    push_str(&mut body, site.as_str());
    body.push('\n');
    proof {
        assert((subject@, body@) =~~= reset_email_spec(settings@, token@));
    }
    EmailText { subject, body }
}

/// The email telling a user an administrator reset their password.
pub open spec fn admin_reset_email_spec(m: Map<Seq<char>, Seq<char>>, temp: Seq<char>) -> (Seq<char>, Seq<char>) {
    let (site, base, slug) = email_context(m);
    let login = base + seq!['/'] + slug + "/login"@;
    (
        "Your password has been reset — "@ + site,
        "Hello,\n\nAn administrator has reset your password on "@ + site
            + ".\n\nYour temporary password is:\n\n"@ + temp
            + "\n\nPlease log in and change your password immediately:\n"@ + login + "\n\n— "@
            + site + seq!['\n'],
    )
}

/// Builds the email for an administrator-initiated password reset.
pub fn admin_reset_email(settings: &Settings, temp_password: &str) -> (r: EmailText)
    ensures
        (r.subject@, r.body@) == admin_reset_email_spec(settings@, temp_password@),
{
    let (site, base, slug) = context_of(settings);
    let mut login = base;
    login.push('/');
    push_str(&mut login, slug.as_str());
    push_str(&mut login, "/login");
    let mut subject = owned("Your password has been reset — ");
    push_str(&mut subject, site.as_str());
    let mut body = owned("Hello,\n\nAn administrator has reset your password on ");
    push_str(&mut body, site.as_str());
    push_str(&mut body, ".\n\nYour temporary password is:\n\n");
    push_str(&mut body, temp_password);
    push_str(&mut body, "\n\nPlease log in and change your password immediately:\n");
    push_str(&mut body, login.as_str());
    push_str(&mut body, "\n\n— ");
    push_str(&mut body, site.as_str());
    body.push('\n');
    proof {
        assert((subject@, body@) =~~= admin_reset_email_spec(settings@, temp_password@));
    }
    EmailText { subject, body }
}

/// The characters of temporary passwords: letters and digits without the easily
/// confused ones, and five symbols.
pub open spec fn temp_password_alphabet() -> Seq<char> {
    "ABCDEFGHJKLMNPQRSTUVWXYZabcdefghjkmnpqrstuvwxyz23456789!@#$%"@
}

/// A random temporary password: 12 characters of the temporary-password alphabet.
pub fn generate_temp_password() -> (r: String)
    ensures
        r@.len() == 12,
        forall|i: int| 0 <= i < 12 ==> temp_password_alphabet().contains(#[trigger] r@[i]),
{
    let alphabet = chars_of("ABCDEFGHJKLMNPQRSTUVWXYZabcdefghjkmnpqrstuvwxyz23456789!@#$%");
    proof {
        reveal_strlit("ABCDEFGHJKLMNPQRSTUVWXYZabcdefghjkmnpqrstuvwxyz23456789!@#$%");
    }
    let mut s = String::new();
    let mut i: usize = 0;
    while i < 12
        invariant
            i <= 12,
            alphabet@ == temp_password_alphabet(),
            alphabet@.len() > 0,
            s@.len() == i,
            forall|j: int| 0 <= j < i ==> temp_password_alphabet().contains(#[trigger] s@[j]),
        decreases 12 - i,
    {
        let k = random_below(alphabet.len());
        let c = alphabet[k];
        let ghost before = s@;
        s.push(c);
        proof {
            assert(temp_password_alphabet()[k as int] == c);
            assert forall|j: int| 0 <= j < i + 1 implies temp_password_alphabet().contains(
                #[trigger] s@[j],
            ) by {
                if j < i {
                    assert(s@[j] == before[j]);
                }
            }
        }
        i = i + 1;
    }
    s
}

} // verus!
