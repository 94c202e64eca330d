# velocty

The core of the Velocty CMS as a verified library: Verus checks every function in
`src/`, the public ones state what they return in `requires`/`ensures` contracts, and
the properties the system relies on are stated as proof functions next to the code
they are about.

## Layout

- `src/text.rs` – character-sequence specifications and string helpers (escaping,
  splitting, number parsing and printing).
- `src/settings.rs` – the settings table as a map, with start-up seeding.
- `src/firewall.rs` – request inspection, per-address rate limiting and the firewall's
  decision for each request.
- `src/svg.rs` – the SVG sanitiser: what is kept and dropped, event by event.
- `src/seo_audit.rs` – the SEO score of a post or portfolio item.
- `src/auth.rs`, `src/mfa.rs` – logins, passkeys, captcha and spam checks, role guards,
  TOTP and recovery codes.
- `src/commerce.rs` – checkout configuration, webhook signatures, orders, downloads and
  license keys.
- `src/webhooks.rs` – what a Stripe or Square webhook call comes to, read from its
  signed JSON body.
- `src/deploy.rs` – receiving a deploy bundle safely.
- `src/routing.rs`, `src/feeds.rs`, `src/seo.rs`, `src/mail.rs`, `src/contact.rs`,
  `src/setup.rs`, `src/site.rs` – routing, feeds and sitemaps, meta tags, e-mail texts,
  the contact form, first-run setup and multi-site records.
- `app/` – the I/O around the library: HTTP routes, calls to outside services, the
  store calls that the library's decisions ask for, the filesystem and the clock.
- `tests/` – tests run against the compiled library.

Calls into outside crates (quick-xml, serde_json, hmac/sha2, base64, hex, bcrypt,
totp-rs, rand, chrono, uuid, url) go through small trusted wrappers whose contracts say what those crates promise.
