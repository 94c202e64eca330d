use vstd::prelude::*;
use crate::settings::{Settings, value_or, flag_on};
use crate::text::{contains, trim, str_trim, str_contains, owned, push_str};

verus! {

/// Submissions one address may make per window.
pub const CONTACT_MAX_PER_WINDOW: u32 = 5;

/// The contact form rate-limit window, in seconds.
pub const CONTACT_WINDOW_SECS: u64 = 900;

/// The contact page and its form are both switched on.
pub open spec fn contact_enabled_spec(m: Map<Seq<char>, Seq<char>>) -> bool {
    flag_on(m, "contact_page_enabled"@) && flag_on(m, "contact_form_enabled"@)
}

/// Whether the contact form accepts submissions at all; where it does not, the
/// route answers "not found".
pub fn contact_enabled(settings: &Settings) -> (r: bool)
    ensures
        r == contact_enabled_spec(settings@),
{
    settings.is_on("contact_page_enabled") && settings.is_on("contact_form_enabled")
}

/// An address's rate-limit entry after one more submission at second `now`, and
/// whether that submission is refused. A missing entry counts from zero at `now`; a
/// window that began at least `CONTACT_WINDOW_SECS` ago starts over with this
/// submission; otherwise the count goes up, refused submissions included, and more
/// than `CONTACT_MAX_PER_WINDOW` in the window are refused.
pub open spec fn contact_rate_next(entry: Option<(u32, u64)>, now: u64) -> ((int, u64), bool) {
    let (count, start) = match entry {
        Some(e) => e,
        None => (0u32, now),
    };
    if now >= start && now - start >= CONTACT_WINDOW_SECS {
        ((1, now), false)
    } else {
        ((count + 1, start), count + 1 > CONTACT_MAX_PER_WINDOW)
    }
}

/// Applies one submission at second `now` to an address's rate-limit entry. Returns
/// the new entry and whether the submission is refused.
pub fn contact_rate_step(entry: Option<(u32, u64)>, now: u64) -> (r: ((u32, u64), bool))
    requires
        entry matches Some(e) ==> e.0 < u32::MAX,
    ensures
        (r.0.0 as int, r.0.1) == contact_rate_next(entry, now).0,
        r.1 == contact_rate_next(entry, now).1,
{
    let (count, start) = match entry {
        Some(e) => e,
        None => (0u32, now),
    };
    if now >= start && now - start >= CONTACT_WINDOW_SECS {
        ((1, now), false)
    } else {
        ((count + 1, start), count + 1 > CONTACT_MAX_PER_WINDOW)
    }
}

/// The outcome of a contact form submission that passed the rate limit.
pub enum ContactOutcome {
    /// The hidden honeypot field was filled: the sender is told the message went out,
    /// and nothing is sent.
    Honeypot,
    /// Name, email or message is empty.
    MissingFields,
    /// The email has no `@` or no `.`.
    InvalidEmail,
    /// No `admin_email` is set.
    NotConfigured,
    /// Send `subject` and `body` to the `to` address.
    Send { to: String, subject: String, body: String },
}

/// A form field after trimming; an absent field counts as empty.
pub open spec fn field(f: Option<Seq<char>>) -> Seq<char> {
    match f {
        Some(s) => trim(s),
        None => Seq::empty(),
    }
}

/// The subject line of a contact message.
pub open spec fn contact_subject(site_name: Seq<char>, name: Seq<char>) -> Seq<char> {
    seq!['['] + site_name + "] Contact from "@ + name
}

/// The body of a contact message.
pub open spec fn contact_body(name: Seq<char>, email: Seq<char>, message: Seq<char>) -> Seq<char> {
    "New contact form submission:\n\nName: "@ + name + "\nEmail: "@ + email
        + "\n\nMessage:\n"@ + message
}

/// Decides what a contact form submission leads to. The fields are trimmed; the
/// honeypot is checked first, then that all fields are filled, then the email's
/// shape, then that an admin address is configured.
pub fn contact_submission(
    settings: &Settings,
    name: Option<&str>,
    email: Option<&str>,
    message: Option<&str>,
    honey: Option<&str>,
) -> (r: ContactOutcome)
    ensures
        ({
            let n = field(match name { Some(s) => Some(s@), None => None });
            let e = field(match email { Some(s) => Some(s@), None => None });
            let msg = field(match message { Some(s) => Some(s@), None => None });
            let h = field(match honey { Some(s) => Some(s@), None => None });
            let admin = value_or(settings@, "admin_email"@, Seq::empty());
            match r {
                ContactOutcome::Honeypot => h.len() > 0,
                ContactOutcome::MissingFields => h.len() == 0 && (n.len() == 0 || e.len() == 0
                    || msg.len() == 0),
                ContactOutcome::InvalidEmail => h.len() == 0 && n.len() > 0 && e.len() > 0
                    && msg.len() > 0 && (!contains(e, seq!['@']) || !contains(e, seq!['.'])),
                ContactOutcome::NotConfigured => h.len() == 0 && n.len() > 0 && e.len() > 0
                    && msg.len() > 0 && contains(e, seq!['@']) && contains(e, seq!['.'])
                    && admin.len() == 0,
                ContactOutcome::Send { to, subject, body } => h.len() == 0 && n.len() > 0
                    && e.len() > 0 && msg.len() > 0 && contains(e, seq!['@']) && contains(
                    e,
                    seq!['.'],
                ) && admin.len() > 0 && to@ == admin && subject@ == contact_subject(
                    value_or(settings@, "site_name"@, "Velocty"@),
                    n,
                ) && body@ == contact_body(n, e, msg),
            }
        }),
{
    let n = match name {
        Some(s) => str_trim(s),
        None => String::new(),
    };
    let e = match email {
        Some(s) => str_trim(s),
        None => String::new(),
    };
    let msg = match message {
        Some(s) => str_trim(s),
        None => String::new(),
    };
    let h = match honey {
        Some(s) => str_trim(s),
        None => String::new(),
    };
    if !h.as_str().is_empty() {
        return ContactOutcome::Honeypot;
    }
    if n.as_str().is_empty() || e.as_str().is_empty() || msg.as_str().is_empty() {
        return ContactOutcome::MissingFields;
    }
    proof {
        reveal_strlit("@");
        reveal_strlit(".");
        assert("@"@ =~= seq!['@']);
        assert("."@ =~= seq!['.']);
    }
    if !str_contains(e.as_str(), "@") || !str_contains(e.as_str(), ".") {
        return ContactOutcome::InvalidEmail;
    }
    let admin = settings.get_or_empty("admin_email");
    if admin.as_str().is_empty() {
        return ContactOutcome::NotConfigured;
    }
    let site_name = settings.get_or("site_name", "Velocty");
    let mut subject = String::new();
    subject.push('[');
    push_str(&mut subject, site_name.as_str());
    push_str(&mut subject, "] Contact from ");
    push_str(&mut subject, n.as_str());
    let mut body = owned("New contact form submission:\n\nName: ");
    push_str(&mut body, n.as_str());
    push_str(&mut body, "\nEmail: ");
    push_str(&mut body, e.as_str());
    push_str(&mut body, "\n\nMessage:\n");
    push_str(&mut body, msg.as_str());
    proof {
        assert(subject@ =~= contact_subject(site_name@, n@));
    }
    ContactOutcome::Send { to: admin, subject, body }
}

impl ContactOutcome {
    /// The notice shown on the contact page: its kind (`success` or `error`) and text.
    /// A sent message is announced by the caller once the mail went out.
    pub fn notice(&self) -> (r: (&'static str, &'static str))
        ensures
            self is Honeypot ==> r.0@ == "success"@ && r.1@ == "Message sent! Thank you."@,
            self is MissingFields ==> r.0@ == "error"@ && r.1@
                == "Please fill in all required fields."@,
            self is InvalidEmail ==> r.0@ == "error"@ && r.1@
                == "Please enter a valid email address."@,
            self is NotConfigured ==> r.0@ == "error"@ && r.1@
                == "Contact form is not configured. Please try again later."@,
            self is Send ==> r.0@ == "success"@ && r.1@
                == "Message sent! Thank you for getting in touch."@,
    {
        match self {
            ContactOutcome::Honeypot => ("success", "Message sent! Thank you."),
            ContactOutcome::MissingFields => ("error", "Please fill in all required fields."),
            ContactOutcome::InvalidEmail => ("error", "Please enter a valid email address."),
            ContactOutcome::NotConfigured => (
                "error",
                "Contact form is not configured. Please try again later.",
            ),
            ContactOutcome::Send { .. } => (
                "success",
                "Message sent! Thank you for getting in touch.",
            ),
        }
    }
}

/// Within a window, once five submissions were counted, every further one is refused.
pub proof fn contact_limit_holds_in_window(count: u32, start: u64, now: u64)
    requires
        count >= CONTACT_MAX_PER_WINDOW,
        now < start || now - start < CONTACT_WINDOW_SECS,
    ensures
        contact_rate_next(Some((count, start)), now).1,
{
}

/// A submission made a full window after the window began always passes and starts a
/// new window.
pub proof fn contact_window_resets(count: u32, start: u64, now: u64)
    requires
        now >= start,
        now - start >= CONTACT_WINDOW_SECS,
    ensures
        !contact_rate_next(Some((count, start)), now).1,
        contact_rate_next(Some((count, start)), now).0 == (1int, now),
{
}

} // verus!
