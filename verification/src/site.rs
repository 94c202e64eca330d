use vstd::prelude::*;
use crate::text::{trim, starts_with, utf8_len, str_trim, str_eq, str_starts_with, owned, push_str};
use crate::mfa::before_colon;

verus! {

// ── Sites of a multi-site installation ──────────────────────────────

/// A site record of the central registry.
pub struct Site {
    pub id: i64,
    pub slug: String,
    pub hostname: String,
    pub display_name: String,
    pub status: String,
    pub created_at: String,
    pub updated_at: String,
}

/// The request fairing that picks the site a request is for by its `Host` header.
pub struct SiteResolver;

/// Paths the resolver leaves alone: the super-admin area and static files.
pub open spec fn resolver_skips_spec(path: Seq<char>) -> bool {
    starts_with(path, "/super"@) || starts_with(path, "/static"@)
}

impl SiteResolver {
    /// Whether a request path is left without a site.
    pub fn skips(&self, path: &str) -> (r: bool)
        ensures
            r == resolver_skips_spec(path@),
    {
        str_starts_with(path, "/super") || str_starts_with(path, "/static")
    }

    /// The host name a request is for: the `Host` header (`localhost` where there is
    /// none) up to its first `:`.
    pub fn hostname(&self, host: Option<&str>) -> (r: String)
        ensures
            r@ == before_colon(
                match host {
                    Some(h) => h@,
                    None => "localhost"@,
                },
            ),
    {
        let h: &str = match host {
            Some(h) => h,
            None => "localhost",
        };
        crate::mfa::before_colon_of(h)
    }

    /// Whether a registered site serves requests: only an active one does.
    pub fn serves(&self, site: &Site) -> (r: bool)
        ensures
            r == (site.status@ == "active"@),
    {
        str_eq(site.status.as_str(), "active")
    }
}

/// The directory of a site's files.
pub open spec fn site_dir(slug: Seq<char>) -> Seq<char> {
    "website/sites/"@ + slug
}

/// Where a site keeps its uploads.
pub fn site_uploads_dir(slug: &str) -> (r: String)
    ensures
        r@ == site_dir(slug@) + "/uploads"@,
{
    let mut s = owned("website/sites/");
    push_str(&mut s, slug);
    push_str(&mut s, "/uploads");
    s
}

/// Where a site keeps its database.
pub fn site_db_path(slug: &str) -> (r: String)
    ensures
        r@ == site_dir(slug@) + "/db/velocty.db"@,
{
    let mut s = owned("website/sites/");
    push_str(&mut s, slug);
    push_str(&mut s, "/db/velocty.db");
    s
}

/// The folders a new site gets: its `db`, `uploads` and `designs` directories.
pub fn site_subdirs(slug: &str) -> (r: Vec<String>)
    ensures
        r@.len() == 3,
        r@[0]@ == site_dir(slug@) + "/db"@,
        r@[1]@ == site_dir(slug@) + "/uploads"@,
        r@[2]@ == site_dir(slug@) + "/designs"@,
{
    let mut v: Vec<String> = Vec::new();
    let mut db = owned("website/sites/");
    push_str(&mut db, slug);
    push_str(&mut db, "/db");
    v.push(db);
    v.push(site_uploads_dir(slug));
    let mut designs = owned("website/sites/");
    push_str(&mut designs, slug);
    push_str(&mut designs, "/designs");
    v.push(designs);
    v
}

// ── Super-admin forms ───────────────────────────────────────────────

/// The form that creates the super administrator.
pub struct SuperSetupForm {
    pub email: String,
    pub password: String,
    pub confirm_password: String,
}

/// The super administrator's login form.
pub struct SuperLoginForm {
    pub email: String,
    pub password: String,
}

/// The form that registers a new site.
pub struct NewSiteForm {
    pub hostname: String,
    pub display_name: String,
}

/// The form that changes a site's status.
pub struct EditSiteForm {
    pub status: String,
}

/// Why the super-admin setup form is refused.
#[derive(PartialEq, Eq, Structural, Clone, Copy, Debug)]
pub enum SuperSetupError {
    EmailMissing,
    PasswordTooShort,
    PasswordMismatch,
}

impl SuperSetupError {
    /// The message shown on the setup page.
    pub fn message(&self) -> (r: &'static str)
        ensures
            *self == SuperSetupError::EmailMissing ==> r@ == "Email is required."@,
            *self == SuperSetupError::PasswordTooShort ==> r@
                == "Password must be at least 8 characters."@,
            *self == SuperSetupError::PasswordMismatch ==> r@ == "Passwords do not match."@,
    {
        match self {
            SuperSetupError::EmailMissing => "Email is required.",
            SuperSetupError::PasswordTooShort => "Password must be at least 8 characters.",
            SuperSetupError::PasswordMismatch => "Passwords do not match.",
        }
    }
}

/// The first problem with the super-admin setup form: an empty email, a password of
/// fewer than 8 bytes, or a confirmation that differs.
pub open spec fn super_setup_problem(f: SuperSetupForm) -> Option<SuperSetupError> {
    if trim(f.email@).len() == 0 {
        Some(SuperSetupError::EmailMissing)
    } else if utf8_len(f.password@) < 8 {
        Some(SuperSetupError::PasswordTooShort)
    } else if f.password@ != f.confirm_password@ {
        Some(SuperSetupError::PasswordMismatch)
    } else {
        None
    }
}

/// Checks the super-admin setup form.
pub fn validate_super_setup(form: &SuperSetupForm) -> (r: Result<(), SuperSetupError>)
    ensures
        match r {
            Ok(()) => super_setup_problem(*form) is None,
            Err(e) => super_setup_problem(*form) == Some(e),
        },
{
    let email = str_trim(form.email.as_str());
    if email.as_str().is_empty() {
        return Err(SuperSetupError::EmailMissing);
    }
    if form.password.as_str().len() < 8 {
        return Err(SuperSetupError::PasswordTooShort);
    }
    if !str_eq(form.password.as_str(), form.confirm_password.as_str()) {
        return Err(SuperSetupError::PasswordMismatch);
    }
    Ok(())
}

/// A new site needs a host name and a display name; both are stored trimmed. Returns
/// them, or `None` where either is empty once trimmed ("All fields are required.").
pub fn new_site_fields(form: &NewSiteForm) -> (r: Option<(String, String)>)
    ensures
        match r {
            Some((h, d)) => h@ == trim(form.hostname@) && d@ == trim(form.display_name@) && h@.len()
                > 0 && d@.len() > 0,
            None => trim(form.hostname@).len() == 0 || trim(form.display_name@).len() == 0,
        },
{
    let h = str_trim(form.hostname.as_str());
    let d = str_trim(form.display_name.as_str());
    if h.as_str().is_empty() || d.as_str().is_empty() {
        None
    } else {
        Some((h, d))
    }
}

} // verus!
