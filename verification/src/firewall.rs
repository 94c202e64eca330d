use vstd::prelude::*;

use crate::settings::{Settings, flag_on, value_or};
use crate::text::{
    chars_of, contains, lowercase, owned, parse_i64, parse_int, parse_u64, push_str,
    starts_with, str_eq, str_starts_with, str_trim, to_lowercase, trim, vec_contains, decimal,
    usize_to_decimal,
};

verus! {

// ── Request inspection ───────────────────────────────────────────────

/// `l` contains one of the patterns that mark a cross-site scripting attempt.
pub open spec fn xss_in(l: Seq<char>) -> bool {
    contains(l, "<script"@) || contains(l, "javascript:"@) || contains(l, "onerror="@)
        || contains(l, "onload="@) || contains(l, "onmouseover="@) || contains(l, "onfocus="@)
        || contains(l, "onclick="@) || contains(l, "data:text/html"@) || contains(l, "vbscript:"@)
        || contains(l, "expression("@) || contains(l, "eval("@)
}

/// `l` contains one of the patterns that mark an SQL injection attempt.
pub open spec fn sqli_in(l: Seq<char>) -> bool {
    contains(l, "union select"@) || contains(l, "union all select"@) || contains(l, "' or '1'='1"@)
        || contains(l, "' or 1=1"@) || contains(l, "\" or 1=1"@) || contains(l, "or 1=1--"@)
        || contains(l, "'; drop "@) || contains(l, "; drop "@) || contains(l, "1=1 --"@)
        || contains(l, "/**/"@) || contains(l, "char("@) || contains(l, "concat("@) || contains(
        l,
        "information_schema"@,
    ) || contains(l, "sleep("@) || contains(l, "benchmark("@) || contains(l, "waitfor delay"@)
}

/// `l` contains one of the patterns that mark a path traversal attempt.
pub open spec fn traversal_in(l: Seq<char>) -> bool {
    contains(l, "../"@) || contains(l, "..\\"@) || contains(l, "%2e%2e"@) || contains(l, "%252e"@)
        || contains(l, "%00"@) || contains(l, "/etc/passwd"@) || contains(l, "/proc/self"@)
        || contains(l, "\\windows\\"@)
}

/// `l` is the user agent of a scanning tool, or a bare or malformed one.
pub open spec fn bot_in(l: Seq<char>) -> bool {
    contains(l, "sqlmap"@) || contains(l, "nikto"@) || contains(l, "nmap"@) || contains(
        l,
        "masscan"@,
    ) || contains(l, "zgrab"@) || contains(l, "gobuster"@) || contains(l, "dirbuster"@)
        || contains(l, "wpscan"@) || contains(l, "nuclei"@) || contains(l, "httpx"@) || (contains(
        l,
        "python-requests"@,
    ) && contains(l, "scan"@)) || starts_with(l, "-"@) || l == "mozilla"@ || l == "curl"@ || l
        == "wget"@
}

fn has(l: &Vec<char>, p: &str) -> (r: bool)
    ensures
        r == contains(l@, p@),
{
    let pv = chars_of(p);
    vec_contains(l, &pv)
}

fn lowered(s: &str) -> (r: Vec<char>)
    ensures
        r@ == lowercase(s@),
{
    let lower = to_lowercase(s);
    chars_of(lower.as_str())
}

/// XSS pattern detection (case-insensitive).
pub fn contains_xss(input: &str) -> (r: bool)
    ensures
        r == xss_in(lowercase(input@)),
{
    let l = lowered(input);
    has(&l, "<script") || has(&l, "javascript:") || has(&l, "onerror=") || has(&l, "onload=")
        || has(&l, "onmouseover=") || has(&l, "onfocus=") || has(&l, "onclick=") || has(
        &l,
        "data:text/html",
    ) || has(&l, "vbscript:") || has(&l, "expression(") || has(&l, "eval(")
}

/// SQL injection pattern detection (case-insensitive).
pub fn contains_sqli(input: &str) -> (r: bool)
    ensures
        r == sqli_in(lowercase(input@)),
{
    let l = lowered(input);
    has(&l, "union select") || has(&l, "union all select") || has(&l, "' or '1'='1") || has(
        &l,
        "' or 1=1",
    ) || has(&l, "\" or 1=1") || has(&l, "or 1=1--") || has(&l, "'; drop ") || has(
        &l,
        "; drop ",
    ) || has(&l, "1=1 --") || has(&l, "/**/") || has(&l, "char(") || has(&l, "concat(") || has(
        &l,
        "information_schema",
    ) || has(&l, "sleep(") || has(&l, "benchmark(") || has(&l, "waitfor delay")
}

/// Path traversal pattern detection (case-insensitive).
pub fn contains_path_traversal(input: &str) -> (r: bool)
    ensures
        r == traversal_in(lowercase(input@)),
{
    let l = lowered(input);
    has(&l, "../") || has(&l, "..\\") || has(&l, "%2e%2e") || has(&l, "%252e") || has(&l, "%00")
        || has(&l, "/etc/passwd") || has(&l, "/proc/self") || has(&l, "\\windows\\")
}

/// Suspicious bot user-agent detection: an empty user agent is suspicious, and so is
/// one that (lowercased) names a scanning tool or is bare.
pub fn is_suspicious_bot(ua: &str) -> (r: bool)
    ensures
        r == (ua@.len() == 0 || bot_in(lowercase(ua@))),
{
    if ua.is_empty() {
        return true;
    }
    let lower = to_lowercase(ua);
    let l = chars_of(lower.as_str());
    has(&l, "sqlmap") || has(&l, "nikto") || has(&l, "nmap") || has(&l, "masscan") || has(
        &l,
        "zgrab",
    ) || has(&l, "gobuster") || has(&l, "dirbuster") || has(&l, "wpscan") || has(&l, "nuclei")
        || has(&l, "httpx") || (has(&l, "python-requests") && has(&l, "scan"))
        || str_starts_with(lower.as_str(), "-") || str_eq(lower.as_str(), "mozilla") || str_eq(
        lower.as_str(),
        "curl",
    ) || str_eq(lower.as_str(), "wget")
}

// ── Per-IP rate limiting ─────────────────────────────────────────────

/// Nanoseconds in a second.
pub const NANOS_PER_SEC: u64 = 1_000_000_000;

/// Whole seconds from `since` to `now` (both in nanoseconds on one monotonic clock),
/// zero when `now` is earlier.
pub open spec fn elapsed_secs(now: u64, since: u64) -> int {
    if now >= since {
        (now - since) / (NANOS_PER_SEC as int)
    } else {
        0
    }
}

/// One client's request count and the start of its current window.
pub struct Bucket {
    pub ip: String,
    pub count: u64,
    pub since: u64,
}

/// Request counts per client IP over fixed windows. Times are nanoseconds read from one
/// monotonic clock.
pub struct FwRateLimiter {
    buckets: Vec<Bucket>,
}

/// The map from IP to (count, window start) that a list of buckets holds.
pub open spec fn buckets_map(b: Seq<Bucket>) -> Map<Seq<char>, (u64, u64)>
    decreases b.len(),
{
    if b.len() == 0 {
        Map::empty()
    } else {
        buckets_map(b.drop_last()).insert(b.last().ip@, (b.last().count, b.last().since))
    }
}

/// No IP occurs twice.
pub open spec fn unique_ips(b: Seq<Bucket>) -> bool {
    forall|i: int, j: int| 0 <= i < j < b.len() ==> b[i].ip@ != b[j].ip@
}

/// The entry a check leaves for an IP whose entry was `old` (or none), at `now`.
pub open spec fn checked_entry(old: Option<(u64, u64)>, window: u64, now: u64) -> (u64, u64) {
    let (count, since) = match old {
        Some(e) => e,
        None => (0u64, now),
    };
    if elapsed_secs(now, since) >= window {
        (1u64, now)
    } else {
        ((count + 1) as u64, since)
    }
}

/// Whether a check at `now` finds the IP over its limit.
pub open spec fn check_blocks(old: Option<(u64, u64)>, max_requests: u64, window: u64, now: u64) -> bool {
    let (count, since) = match old {
        Some(e) => e,
        None => (0u64, now),
    };
    elapsed_secs(now, since) < window && count + 1 > max_requests
}

/// The entry for `ip`, if any.
pub open spec fn entry_of(m: Map<Seq<char>, (u64, u64)>, ip: Seq<char>) -> Option<(u64, u64)> {
    if m.dom().contains(ip) {
        Some(m[ip])
    } else {
        None
    }
}

/// Entries whose window started less than 600 seconds before `now` stay.
pub open spec fn fresh(e: (u64, u64), now: u64) -> bool {
    elapsed_secs(now, e.1) < 600
}

proof fn lemma_buckets_map_index(b: Seq<Bucket>, i: int)
    requires
        unique_ips(b),
        0 <= i < b.len(),
    ensures
        buckets_map(b).dom().contains(b[i].ip@),
        buckets_map(b)[b[i].ip@] == (b[i].count, b[i].since),
    decreases b.len(),
{
    if i < b.len() - 1 {
        lemma_buckets_map_index(b.drop_last(), i);
    }
}

proof fn lemma_buckets_map_dom(b: Seq<Bucket>, k: Seq<char>)
    ensures
        buckets_map(b).dom().contains(k) <==> exists|i: int| 0 <= i < b.len() && b[i].ip@ == k,
    decreases b.len(),
{
    if b.len() > 0 {
        lemma_buckets_map_dom(b.drop_last(), k);
        if buckets_map(b.drop_last()).dom().contains(k) {
            let i = choose|i: int| 0 <= i < b.drop_last().len() && b.drop_last()[i].ip@ == k;
            assert(b[i].ip@ == k);
        }
        if exists|i: int| 0 <= i < b.len() && b[i].ip@ == k {
            let i = choose|i: int| 0 <= i < b.len() && b[i].ip@ == k;
            if i < b.len() - 1 {
                assert(b.drop_last()[i].ip@ == k);
            }
        }
    }
}

proof fn lemma_buckets_map_update(b: Seq<Bucket>, i: int, nb: Bucket)
    requires
        unique_ips(b),
        0 <= i < b.len(),
        nb.ip@ == b[i].ip@,
    ensures
        buckets_map(b.update(i, nb)) == buckets_map(b).insert(nb.ip@, (nb.count, nb.since)),
    decreases b.len(),
{
    let u = b.update(i, nb);
    if i == b.len() - 1 {
        assert(u.drop_last() =~= b.drop_last());
        if b.len() > 1 {
            lemma_buckets_map_dom(b.drop_last(), nb.ip@);
        }
        assert(buckets_map(u) =~= buckets_map(b).insert(nb.ip@, (nb.count, nb.since)));
    } else {
        assert(u.drop_last() =~= b.drop_last().update(i, nb));
        lemma_buckets_map_update(b.drop_last(), i, nb);
        assert(b.last().ip@ != nb.ip@);
        assert(buckets_map(u) =~= buckets_map(b).insert(nb.ip@, (nb.count, nb.since)));
    }
}

impl View for FwRateLimiter {
    type V = Map<Seq<char>, (u64, u64)>;

    closed spec fn view(&self) -> Map<Seq<char>, (u64, u64)> {
        buckets_map(self.buckets@)
    }
}

impl FwRateLimiter {
    #[verifier::type_invariant]
    closed spec fn inv(self) -> bool {
        unique_ips(self.buckets@)
    }

    /// An empty limiter.
    pub fn new() -> (r: Self)
        ensures
            r@ == Map::<Seq<char>, (u64, u64)>::empty(),
    {
        FwRateLimiter { buckets: Vec::new() }
    }

    /// The request count and window start recorded for `ip`.
    pub fn entry(&self, ip: &str) -> (r: Option<(u64, u64)>)
        ensures
            r == entry_of(self@, ip@),
    {
        proof {
            use_type_invariant(self);
            lemma_buckets_map_dom(self.buckets@, ip@);
        }
        let mut i: usize = 0;
        while i < self.buckets.len()
            invariant
                i <= self.buckets.len(),
                unique_ips(self.buckets@),
                forall|j: int| 0 <= j < i ==> self.buckets@[j].ip@ != ip@,
            decreases self.buckets.len() - i,
        {
            if str_eq(self.buckets[i].ip.as_str(), ip) {
                proof {
                    lemma_buckets_map_index(self.buckets@, i as int);
                }
                return Some((self.buckets[i].count, self.buckets[i].since));
            }
            i = i + 1;
        }
        None
    }

    /// Records a request from `ip` at `now` and returns true if the IP has exceeded
    /// `max_requests` within the current window of `window_secs` seconds. A request
    /// `window_secs` or more after the window began starts a new window, counted as one.
    pub fn check(&mut self, ip: &str, max_requests: u64, window_secs: u64, now: u64) -> (r: bool)
        requires
            entry_of(old(self)@, ip@) matches Some(e) ==> (elapsed_secs(now, e.1) < window_secs ==> e.0 < u64::MAX),
        ensures
            final(self)@ == old(self)@.insert(
                ip@,
                checked_entry(entry_of(old(self)@, ip@), window_secs, now),
            ),
            r == check_blocks(entry_of(old(self)@, ip@), max_requests, window_secs, now),
    {
        proof {
            use_type_invariant(&*self);
            lemma_buckets_map_dom(self.buckets@, ip@);
        }
        let mut i: usize = 0;
        while i < self.buckets.len() && !str_eq(self.buckets[i].ip.as_str(), ip)
            invariant
                i <= self.buckets.len(),
                unique_ips(self.buckets@),
                forall|j: int| 0 <= j < i ==> self.buckets@[j].ip@ != ip@,
            decreases self.buckets.len() - i,
        {
            i = i + 1;
        }
        if i == self.buckets.len() {
            // A new entry (0, now) is checked against the window at once.
            let (count, blocked) = if 0 >= window_secs {
                (1u64, false)
            } else {
                (1u64, 1 > max_requests)
            };
            let ghost old_b = self.buckets@;
            let b = Bucket { ip: owned(ip), count, since: now };
            let mut v: Vec<Bucket> = Vec::new();
            std::mem::swap(&mut v, &mut self.buckets);
            v.push(b);
            proof {
                assert(v@.drop_last() =~= old_b);
                assert forall|x: int, y: int| 0 <= x < y < v@.len() implies v@[x].ip@
                    != v@[y].ip@ by {
                    if y == v@.len() - 1 {
                        assert(v@[x] == old_b[x]);
                    }
                }
            }
            self.buckets = v;
            blocked
        } else {
            proof {
                lemma_buckets_map_index(self.buckets@, i as int);
            }
            let count = self.buckets[i].count;
            let since = self.buckets[i].since;
            let elapsed = if now >= since {
                (now - since) / NANOS_PER_SEC
            } else {
                0
            };
            let (new_count, new_since, blocked) = if elapsed >= window_secs {
                (1u64, now, false)
            } else {
                (count + 1, since, count + 1 > max_requests)
            };
            let ghost old_b = self.buckets@;
            let nb = Bucket { ip: owned(ip), count: new_count, since: new_since };
            let mut v: Vec<Bucket> = Vec::new();
            std::mem::swap(&mut v, &mut self.buckets);
            v.set(i, nb);
            proof {
                lemma_buckets_map_update(old_b, i as int, nb);
                assert forall|x: int, y: int| 0 <= x < y < v@.len() implies v@[x].ip@
                    != v@[y].ip@ by {
                    if x == i {
                        assert(v@[y] == old_b[y]);
                    } else if y == i {
                        assert(v@[x] == old_b[x]);
                    } else {
                        assert(v@[x] == old_b[x]);
                        assert(v@[y] == old_b[y]);
                    }
                }
            }
            self.buckets = v;
            blocked
        }
    }

    /// Drops the entries whose window began 600 seconds or more before `now`.
    pub fn cleanup(&mut self, now: u64)
        ensures
            final(self)@ == fresh_entries(old(self)@, now),
    {
        proof {
            use_type_invariant(&*self);
        }
        let ghost old_b = self.buckets@;
        let mut kept: Vec<Bucket> = Vec::new();
        let mut i: usize = 0;
        while i < self.buckets.len()
            invariant
                i <= self.buckets.len(),
                self.buckets@ == old_b,
                unique_ips(old_b),
                kept@ == filter_fresh(old_b.take(i as int), now),
            decreases self.buckets.len() - i,
        {
            let b = &self.buckets[i];
            let elapsed = if now >= b.since {
                (now - b.since) / NANOS_PER_SEC
            } else {
                0
            };
            proof {
                assert(old_b.take(i + 1).drop_last() =~= old_b.take(i as int));
            }
            if elapsed < 600 {
                kept.push(Bucket { ip: b.ip.clone(), count: b.count, since: b.since });
            }
            i = i + 1;
        }
        proof {
            assert(old_b.take(old_b.len() as int) =~= old_b);
            lemma_filter_fresh(old_b, now);
        }
        self.buckets = kept;
    }
}

/// The buckets whose window began less than 600 seconds before `now`, in order.
pub open spec fn filter_fresh(b: Seq<Bucket>, now: u64) -> Seq<Bucket>
    decreases b.len(),
{
    if b.len() == 0 {
        Seq::empty()
    } else if fresh((b.last().count, b.last().since), now) {
        filter_fresh(b.drop_last(), now).push(b.last())
    } else {
        filter_fresh(b.drop_last(), now)
    }
}

/// The entries of `m` whose window began less than 600 seconds before `now`.
pub open spec fn fresh_entries(m: Map<Seq<char>, (u64, u64)>, now: u64) -> Map<Seq<char>, (u64, u64)> {
    m.restrict(Set::new(|k: Seq<char>| m.dom().contains(k) && fresh(m[k], now)))
}

proof fn lemma_filter_fresh(b: Seq<Bucket>, now: u64)
    requires
        unique_ips(b),
    ensures
        unique_ips(filter_fresh(b, now)),
        buckets_map(filter_fresh(b, now)) == fresh_entries(buckets_map(b), now),
        forall|j: int|
            0 <= j < filter_fresh(b, now).len() ==> exists|x: int|
                0 <= x < b.len() && b[x].ip@ == (#[trigger] filter_fresh(b, now)[j]).ip@,
    decreases b.len(),
{
    if b.len() > 0 {
        let p = b.drop_last();
        let f = filter_fresh(p, now);
        lemma_filter_fresh(p, now);
        lemma_buckets_map_dom(p, b.last().ip@);
        assert forall|x: int| 0 <= x < p.len() implies p[x].ip@ != b.last().ip@ by {
            assert(b[x] == p[x]);
        }
        assert forall|j: int| 0 <= j < f.len() implies (#[trigger] f[j]).ip@ != b.last().ip@ by {
            let x = choose|x: int| 0 <= x < p.len() && p[x].ip@ == f[j].ip@;
            assert(b[x] == p[x]);
        }
        let m = buckets_map(b);
        let mp = buckets_map(p);
        if fresh((b.last().count, b.last().since), now) {
            let g = f.push(b.last());
            assert(g.drop_last() =~= f);
            assert forall|x: int, y: int| 0 <= x < y < g.len() implies g[x].ip@ != g[y].ip@ by {
                if y == g.len() - 1 {
                    assert(g[x] == f[x]);
                } else {
                    assert(g[x] == f[x]);
                    assert(g[y] == f[y]);
                }
            }
            assert forall|j: int| 0 <= j < g.len() implies exists|x: int|
                0 <= x < b.len() && b[x].ip@ == (#[trigger] g[j]).ip@ by {
                if j == g.len() - 1 {
                    assert(b[b.len() - 1].ip@ == g[j].ip@);
                } else {
                    let x = choose|x: int| 0 <= x < p.len() && p[x].ip@ == f[j].ip@;
                    assert(b[x] == p[x]);
                }
            }
            assert(buckets_map(g) =~= fresh_entries(m, now));
        } else {
            assert forall|j: int| 0 <= j < f.len() implies exists|x: int|
                0 <= x < b.len() && b[x].ip@ == (#[trigger] f[j]).ip@ by {
                let x = choose|x: int| 0 <= x < p.len() && p[x].ip@ == f[j].ip@;
                assert(b[x] == p[x]);
            }
            assert(buckets_map(f) =~= fresh_entries(m, now));
        }
    }
}


// ── Request decisions ────────────────────────────────────────────────

/// An optional string by its characters.
pub open spec fn opt_chars(o: Option<String>) -> Option<Seq<char>> {
    match o {
        Some(s) => Some(s@),
        None => None,
    }
}

/// `s` up to its first `,` (all of `s` when it has none), as `split(',').next()` gives.
pub open spec fn first_field(s: Seq<char>) -> Seq<char>
    decreases s.len(),
{
    if s.len() == 0 {
        s
    } else if s[0] == ',' {
        Seq::empty()
    } else {
        seq![s[0]] + first_field(s.drop_first())
    }
}

/// The request fairing that applies the firewall; its decisions are the functions of
/// this module.
pub struct FirewallFairing;

/// Headers that carry the client address when a reverse proxy forwards the request.
pub struct ForwardHeaders {
    /// `CF-Connecting-IP`
    pub cf_connecting_ip: Option<String>,
    /// `True-Client-IP`
    pub true_client_ip: Option<String>,
    /// `X-Real-IP`
    pub x_real_ip: Option<String>,
    /// `X-Forwarded-For`
    pub x_forwarded_for: Option<String>,
}

/// The prefix `172.<k>.` of an address in 172.16.0.0/12 (`k` from 16 to 31).
pub open spec fn private_172_prefix(k: nat) -> Seq<char> {
    "172."@ + decimal(k) + "."@
}

/// A loopback or private address (127.0.0.1, ::1, 10.0.0.0/8, 172.16.0.0/12,
/// 192.168.0.0/16), from which forwarding headers are trusted.
pub open spec fn is_proxy_address(ip: Seq<char>) -> bool {
    ip == "127.0.0.1"@ || ip == "::1"@ || starts_with(ip, "10."@) || (exists|k: nat|
        16 <= k <= 31 && starts_with(ip, #[trigger] private_172_prefix(k))) || starts_with(
        ip,
        "192.168."@,
    )
}

/// The address the firewall attributes a request to: behind a proxy, the first present
/// one of `CF-Connecting-IP`, `True-Client-IP`, `X-Real-IP` (trimmed), else the first
/// non-empty entry of `X-Forwarded-For`, else the socket address; otherwise the socket
/// address.
pub open spec fn firewall_ip(socket_ip: Seq<char>, h: ForwardHeaders) -> Seq<char> {
    if !is_proxy_address(socket_ip) {
        socket_ip
    } else if h.cf_connecting_ip is Some {
        trim(h.cf_connecting_ip->0@)
    } else if h.true_client_ip is Some {
        trim(h.true_client_ip->0@)
    } else if h.x_real_ip is Some {
        trim(h.x_real_ip->0@)
    } else if h.x_forwarded_for is Some && trim(first_field(h.x_forwarded_for->0@)).len() > 0 {
        trim(first_field(h.x_forwarded_for->0@))
    } else {
        socket_ip
    }
}

/// Whether `ip` lies in 172.16.0.0/12.
fn in_private_172(ip: &str) -> (r: bool)
    ensures
        r == exists|k: nat| 16 <= k <= 31 && starts_with(ip@, #[trigger] private_172_prefix(k)),
{
    let mut k: usize = 16;
    while k <= 31
        invariant
            16 <= k <= 32,
            forall|j: nat| 16 <= j < k ==> !starts_with(ip@, #[trigger] private_172_prefix(j)),
        decreases 32 - k,
    {
        let mut p = owned("172.");
        let d = usize_to_decimal(k);
        push_str(&mut p, d.as_str());
        push_str(&mut p, ".");
        proof {
            assert(p@ == private_172_prefix(k as nat));
        }
        if str_starts_with(ip, p.as_str()) {
            return true;
        }
        k = k + 1;
    }
    false
}

/// Whether `ip` is a loopback or private address.
pub fn is_proxy_ip(ip: &str) -> (r: bool)
    ensures
        r == is_proxy_address(ip@),
{
    str_eq(ip, "127.0.0.1") || str_eq(ip, "::1") || str_starts_with(ip, "10.") || in_private_172(ip)
        || str_starts_with(ip, "192.168.")
}

/// `s` up to its first `,`.
pub fn first_field_of(s: &str) -> (r: String)
    ensures
        r@ == first_field(s@),
{
    let v = chars_of(s);
    let mut i: usize = 0;
    assert(v@.skip(0) =~= v@);
    assert(v@.take(0) + first_field(v@) =~= first_field(v@));
    while i < v.len() && v[i] != ','
        invariant
            i <= v.len(),
            first_field(v@) == v@.take(i as int) + first_field(v@.skip(i as int)),
        decreases v.len() - i,
    {
        proof {
            assert(v@.skip(i as int).drop_first() =~= v@.skip(i + 1));
            assert(v@.take(i + 1) =~= v@.take(i as int) + seq![v@[i as int]]);
        }
        i = i + 1;
    }
    proof {
        if i < v.len() {
            assert(v@.skip(i as int)[0] == ',');
        } else {
            assert(v@.skip(i as int) =~= Seq::<char>::empty());
        }
        assert(v@.take(i as int) + Seq::<char>::empty() =~= v@.take(i as int));
        assert(v@.take(i as int) =~= v@.subrange(0, i as int));
    }
    let r = crate::text::string_of_range(&v, 0, i);
    r
}

/// The address a request is attributed to (see `firewall_ip`).
pub fn firewall_client_ip(socket_ip: &str, h: &ForwardHeaders) -> (r: String)
    ensures
        r@ == firewall_ip(socket_ip@, *h),
{
    if !is_proxy_ip(socket_ip) {
        return owned(socket_ip);
    }
    if let Some(v) = &h.cf_connecting_ip {
        return str_trim(v.as_str());
    }
    if let Some(v) = &h.true_client_ip {
        return str_trim(v.as_str());
    }
    if let Some(v) = &h.x_real_ip {
        return str_trim(v.as_str());
    }
    if let Some(v) = &h.x_forwarded_for {
        let f = first_field_of(v.as_str());
        let t = str_trim(f.as_str());
        if !t.as_str().is_empty() {
            return t;
        }
    }
    owned(socket_ip)
}

/// Paths the firewall leaves alone: static files and the favicon.
pub open spec fn skipped_path(path: Seq<char>) -> bool {
    starts_with(path, "/static"@) || path == "/favicon.ico"@
}

/// Whether the firewall leaves `path` alone.
pub fn firewall_skips_path(path: &str) -> (r: bool)
    ensures
        r == skipped_path(path@),
{
    str_starts_with(path, "/static") || str_eq(path, "/favicon.ico")
}

/// A real loopback connection whose address was not taken from a header is exempt.
pub open spec fn exempt(socket_ip: Seq<char>, ip: Seq<char>) -> bool {
    (socket_ip == "127.0.0.1"@ || socket_ip == "::1"@) && ip == socket_ip
}

/// Whether the request is exempt from the firewall (see `exempt`).
pub fn firewall_exempt(socket_ip: &str, ip: &str) -> (r: bool)
    ensures
        r == exempt(socket_ip@, ip@),
{
    (str_eq(socket_ip, "127.0.0.1") || str_eq(socket_ip, "::1")) && str_eq(ip, socket_ip)
}

/// The kinds of injection the firewall bans for.
#[derive(Debug, PartialEq, Eq, Structural, Clone, Copy)]
pub enum FwThreat {
    Xss,
    Sqli,
    PathTraversal,
}

/// The text inspected for a request: its path, a space, and its query.
pub open spec fn inspected_text(path: Seq<char>, query: Seq<char>) -> Seq<char> {
    path + " "@ + query
}

/// The first injection found in the inspected text, checking in order XSS, SQL
/// injection and path traversal, each only when its protection is on.
pub open spec fn scan_result(text: Seq<char>, xss_on: bool, sqli_on: bool, traversal_on: bool) -> Option<FwThreat> {
    if xss_on && xss_in(lowercase(text)) {
        Some(FwThreat::Xss)
    } else if sqli_on && sqli_in(lowercase(text)) {
        Some(FwThreat::Sqli)
    } else if traversal_on && traversal_in(lowercase(text)) {
        Some(FwThreat::PathTraversal)
    } else {
        None
    }
}

/// Inspects a request's path and query for injection attempts.
pub fn firewall_scan(path: &str, query: &str, xss_on: bool, sqli_on: bool, traversal_on: bool) -> (r: (String, Option<FwThreat>))
    ensures
        r.0@ == inspected_text(path@, query@),
        r.1 == scan_result(r.0@, xss_on, sqli_on, traversal_on),
{
    let mut text = owned(path);
    push_str(&mut text, " ");
    push_str(&mut text, query);
    let t = if xss_on && contains_xss(text.as_str()) {
        Some(FwThreat::Xss)
    } else if sqli_on && contains_sqli(text.as_str()) {
        Some(FwThreat::Sqli)
    } else if traversal_on && contains_path_traversal(text.as_str()) {
        Some(FwThreat::PathTraversal)
    } else {
        None
    };
    (text, t)
}

/// The event type and ban reason recorded for a threat.
pub fn threat_kind(t: FwThreat) -> (r: &'static str)
    ensures
        t == FwThreat::Xss ==> r@ == "xss"@,
        t == FwThreat::Sqli ==> r@ == "sqli"@,
        t == FwThreat::PathTraversal ==> r@ == "path_traversal"@,
{
    match t {
        FwThreat::Xss => "xss",
        FwThreat::Sqli => "sqli",
        FwThreat::PathTraversal => "path_traversal",
    }
}

/// The detail recorded with the ban for a threat.
pub fn threat_detail(t: FwThreat) -> (r: &'static str)
    ensures
        t == FwThreat::Xss ==> r@ == "XSS attempt detected"@,
        t == FwThreat::Sqli ==> r@ == "SQL injection attempt detected"@,
        t == FwThreat::PathTraversal ==> r@ == "Path traversal attempt detected"@,
{
    match t {
        FwThreat::Xss => "XSS attempt detected",
        FwThreat::Sqli => "SQL injection attempt detected",
        FwThreat::PathTraversal => "Path traversal attempt detected",
    }
}

/// A parsed `u64` setting, or `default` when it does not parse.
pub open spec fn u64_or(s: Seq<char>, default: u64) -> int {
    match parse_int(s, 0, u64::MAX as int) {
        Some(v) => v,
        None => default as int,
    }
}

/// A parsed `i64` setting, or `default` when it does not parse.
pub open spec fn i64_or(s: Seq<char>, default: i64) -> int {
    match parse_int(s, i64::MIN as int, i64::MAX as int) {
        Some(v) => v,
        None => default as int,
    }
}

/// The setting read as a `u64`, or `default`.
pub fn parse_u64_or(s: &str, default: u64) -> (r: u64)
    ensures
        r as int == u64_or(s@, default),
{
    match parse_u64(s) {
        Some(v) => v,
        None => default,
    }
}

/// The setting read as an `i64`, or `default`.
pub fn parse_i64_or(s: &str, default: i64) -> (r: i64)
    ensures
        r as int == i64_or(s@, default),
{
    match parse_i64(s) {
        Some(v) => v,
        None => default,
    }
}

/// Applies the configured rate limit to a request from `ip` at `now`: the limit and
/// window come from their settings (100 requests and 60 seconds when they do not parse).
/// Returns true when the request is over the limit.
pub fn firewall_rate_limited(
    limiter: &mut FwRateLimiter,
    ip: &str,
    max_setting: &str,
    window_setting: &str,
    now: u64,
) -> (r: bool)
    requires
        entry_of(old(limiter)@, ip@) matches Some(e) ==> (elapsed_secs(now, e.1) < u64_or(window_setting@, 60) ==> e.0
            < u64::MAX),
    ensures
        final(limiter)@ == old(limiter)@.insert(
            ip@,
            checked_entry(entry_of(old(limiter)@, ip@), u64_or(window_setting@, 60) as u64, now),
        ),
        r == check_blocks(
            entry_of(old(limiter)@, ip@),
            u64_or(max_setting@, 100) as u64,
            u64_or(window_setting@, 60) as u64,
            now,
        ),
{
    let max_req = parse_u64_or(max_setting, 100);
    let window = parse_u64_or(window_setting, 60);
    limiter.check(ip, max_req, window, now)
}

/// Stale limiter entries are dropped on every 200th request (counting from zero).
pub fn cleanup_due(request_number: u64) -> (r: bool)
    ensures
        r == (request_number % 200 == 0),
{
    request_number % 200 == 0
}

/// Whether a suspicious bot is banned: its recent events reach the threshold setting
/// (10 when it does not parse).
pub fn bot_ban_due(threshold_setting: &str, recent_events: i64) -> (r: bool)
    ensures
        r == (recent_events >= i64_or(threshold_setting@, 10)),
{
    let threshold = parse_i64_or(threshold_setting, 10);
    recent_events >= threshold
}

/// `r` is the list of security headers for a response: empty when they are disabled,
/// else the five fixed ones in order, then HSTS for a site served over https.
pub open spec fn header_list(r: Seq<(&'static str, &'static str)>, enabled: bool, site_url: Seq<char>) -> bool {
    &&& !enabled ==> r.len() == 0
    &&& enabled ==> r.len() == if starts_with(site_url, "https://"@) {
        6int
    } else {
        5int
    }
    &&& enabled ==> r[0].0@ == "X-Frame-Options"@ && r[0].1@ == "SAMEORIGIN"@
    &&& enabled ==> r[1].0@ == "X-Content-Type-Options"@ && r[1].1@ == "nosniff"@
    &&& enabled ==> r[2].0@ == "Referrer-Policy"@ && r[2].1@ == "strict-origin-when-cross-origin"@
    &&& enabled ==> r[3].0@ == "Permissions-Policy"@ && r[3].1@
        == "camera=(), microphone=(), geolocation=()"@
    &&& enabled ==> r[4].0@ == "X-XSS-Protection"@ && r[4].1@ == "1; mode=block"@
    &&& enabled && starts_with(site_url, "https://"@) ==> r[5].0@ == "Strict-Transport-Security"@
        && r[5].1@ == "max-age=31536000; includeSubDomains"@
}

/// The security headers set on responses when they are enabled; HSTS only for a site
/// served over https.
pub fn security_headers(enabled: bool, site_url: &str) -> (r: Vec<(&'static str, &'static str)>)
    ensures
        header_list(r@, enabled, site_url@),
{
    let mut v: Vec<(&'static str, &'static str)> = Vec::new();
    if enabled {
        v.push(("X-Frame-Options", "SAMEORIGIN"));
        v.push(("X-Content-Type-Options", "nosniff"));
        v.push(("Referrer-Policy", "strict-origin-when-cross-origin"));
        v.push(("Permissions-Policy", "camera=(), microphone=(), geolocation=()"));
        v.push(("X-XSS-Protection", "1; mode=block"));
        if str_starts_with(site_url, "https://") {
            v.push(("Strict-Transport-Security", "max-age=31536000; includeSubDomains"));
        }
    }
    v
}

// ── The request decision ────────────────────────────────────────────

/// A setting that is on unless it is set to something other than `"true"`.
pub open spec fn on_by_default(m: Map<Seq<char>, Seq<char>>, k: Seq<char>) -> bool {
    value_or(m, k, "true"@) == "true"@
}

/// The address a request is checked under, or `None` when the firewall leaves it alone:
/// the firewall is not switched on, the path is a static one, or the connection is a
/// real loopback one.
pub open spec fn admitted_ip(
    m: Map<Seq<char>, Seq<char>>,
    path: Seq<char>,
    socket_ip: Seq<char>,
    h: ForwardHeaders,
) -> Option<Seq<char>> {
    let ip = firewall_ip(socket_ip, h);
    if !flag_on(m, "firewall_enabled"@) || skipped_path(path) || exempt(socket_ip, ip) {
        None
    } else {
        Some(ip)
    }
}

/// Whether a setting that defaults to on is on.
pub fn setting_on_by_default(settings: &Settings, key: &str) -> (r: bool)
    ensures
        r == on_by_default(settings@, key@),
{
    let v = settings.get_or(key, "true");
    str_eq(v.as_str(), "true")
}

/// The address under which the firewall checks a request, or `None` when it lets the
/// request pass unchecked (see `admitted_ip`).
pub fn firewall_admit(settings: &Settings, path: &str, socket_ip: &str, h: &ForwardHeaders) -> (r:
    Option<String>)
    ensures
        opt_chars(r) == admitted_ip(settings@, path@, socket_ip@, *h),
{
    if !settings.is_on("firewall_enabled") || firewall_skips_path(path) {
        return None;
    }
    let ip = firewall_client_ip(socket_ip, h);
    if firewall_exempt(socket_ip, ip.as_str()) {
        None
    } else {
        Some(ip)
    }
}

/// What the firewall does with a checked request whose address is not banned.
pub enum FwVerdict {
    /// Let the request through.
    Pass,
    /// Over the rate limit: ban the address for `ban_duration`, record a `rate_limit`
    /// event and refuse the request.
    RateLimited { ban_duration: String },
    /// An injection attempt in `inspected`: ban the address for `ban_duration`, record
    /// the event and refuse the request.
    Injection { threat: FwThreat, inspected: String, ban_duration: String },
    /// A suspicious bot: record a `suspicious_bot` event; when `auto_ban` is set, count
    /// the address's recent such events and ban it as `firewall_bot_ban` says.
    SuspiciousBot { auto_ban: bool },
}

/// The limiter's entries once the periodic sweep for request number `n` has run.
pub open spec fn swept(m: Map<Seq<char>, (u64, u64)>, n: u64, now: u64) -> Map<Seq<char>, (u64, u64)> {
    if n % 200 == 0 {
        fresh_entries(m, now)
    } else {
        m
    }
}

/// The configured request limit per window (100 when it does not parse).
pub open spec fn limit_max(m: Map<Seq<char>, Seq<char>>) -> u64 {
    u64_or(value_or(m, "fw_rate_limit_requests"@, "100"@), 100) as u64
}

/// The configured window in seconds (60 when it does not parse).
pub open spec fn limit_window(m: Map<Seq<char>, Seq<char>>) -> u64 {
    u64_or(value_or(m, "fw_rate_limit_window"@, "60"@), 60) as u64
}

/// Whether request number `n` from `ip` at `now` is over the rate limit.
pub open spec fn rate_blocked(
    m: Map<Seq<char>, Seq<char>>,
    limits: Map<Seq<char>, (u64, u64)>,
    ip: Seq<char>,
    n: u64,
    now: u64,
) -> bool {
    on_by_default(m, "fw_rate_limit_enabled"@) && check_blocks(
        entry_of(swept(limits, n, now), ip),
        limit_max(m),
        limit_window(m),
        now,
    )
}

/// The injection found in a request's path and query, with each protection on unless
/// switched off.
pub open spec fn request_threat(m: Map<Seq<char>, Seq<char>>, path: Seq<char>, query: Seq<char>) -> Option<
    FwThreat,
> {
    scan_result(
        inspected_text(path, query),
        on_by_default(m, "fw_xss_protection"@),
        on_by_default(m, "fw_sqli_protection"@),
        on_by_default(m, "fw_path_traversal_protection"@),
    )
}

/// Decides request number `n` (counting from zero in this process) from `ip` at `now`,
/// whose address is not banned: first the rate limit (when on; every 200th request
/// first sweeps stale limiter entries), then the injection checks, then the bot check.
pub fn firewall_verdict(
    settings: &Settings,
    limiter: &mut FwRateLimiter,
    ip: &str,
    path: &str,
    query: &str,
    ua: &str,
    n: u64,
    now: u64,
) -> (r: FwVerdict)
    requires
        on_by_default(settings@, "fw_rate_limit_enabled"@) ==> (entry_of(old(limiter)@, ip@) matches Some(
            e,
        ) ==> (elapsed_secs(now, e.1) < limit_window(settings@) ==> e.0 < u64::MAX)),
    ensures
        on_by_default(settings@, "fw_rate_limit_enabled"@) ==> final(limiter)@ == swept(
            old(limiter)@,
            n,
            now,
        ).insert(
            ip@,
            checked_entry(entry_of(swept(old(limiter)@, n, now), ip@), limit_window(settings@), now),
        ),
        !on_by_default(settings@, "fw_rate_limit_enabled"@) ==> final(limiter)@ == old(limiter)@,
        (r is RateLimited) == rate_blocked(settings@, old(limiter)@, ip@, n, now),
        r matches FwVerdict::RateLimited { ban_duration } ==> ban_duration@ == value_or(
            settings@,
            "fw_rate_limit_ban_duration"@,
            "1h"@,
        ),
        !rate_blocked(settings@, old(limiter)@, ip@, n, now) ==> match request_threat(
            settings@,
            path@,
            query@,
        ) {
            Some(t) => r matches FwVerdict::Injection { threat, inspected, ban_duration } && threat
                == t && inspected@ == inspected_text(path@, query@) && ban_duration@ == value_or(
                settings@,
                "fw_injection_ban_duration"@,
                "7d"@,
            ),
            None => if on_by_default(settings@, "fw_monitor_bots"@) && (ua@.len() == 0 || bot_in(
                lowercase(ua@),
            )) {
                r == (FwVerdict::SuspiciousBot { auto_ban: flag_on(settings@, "fw_bot_auto_ban"@) })
            } else {
                r is Pass
            },
        },
{
    if setting_on_by_default(settings, "fw_rate_limit_enabled") {
        if cleanup_due(n) {
            limiter.cleanup(now);
        }
        proof {
            let before = old(limiter)@;
            if before.dom().contains(ip@) && limiter@.dom().contains(ip@) {
                assert(limiter@[ip@] == before[ip@]);
            }
        }
        let max_s = settings.get_or("fw_rate_limit_requests", "100");
        let win_s = settings.get_or("fw_rate_limit_window", "60");
        if firewall_rate_limited(limiter, ip, max_s.as_str(), win_s.as_str(), now) {
            return FwVerdict::RateLimited {
                ban_duration: settings.get_or("fw_rate_limit_ban_duration", "1h"),
            };
        }
    }
    let xss_on = setting_on_by_default(settings, "fw_xss_protection");
    let sqli_on = setting_on_by_default(settings, "fw_sqli_protection");
    let traversal_on = setting_on_by_default(settings, "fw_path_traversal_protection");
    let (inspected, found) = firewall_scan(path, query, xss_on, sqli_on, traversal_on);
    if let Some(t) = found {
        return FwVerdict::Injection {
            threat: t,
            inspected,
            ban_duration: settings.get_or("fw_injection_ban_duration", "7d"),
        };
    }
    if setting_on_by_default(settings, "fw_monitor_bots") && is_suspicious_bot(ua) {
        return FwVerdict::SuspiciousBot { auto_ban: settings.is_on("fw_bot_auto_ban") };
    }
    FwVerdict::Pass
}

/// The duration to ban a suspicious bot for, once its recent events are counted: the
/// configured one (24h by default) when the count reaches the threshold (10 when it does
/// not parse), else `None`.
pub fn firewall_bot_ban(settings: &Settings, recent_events: i64) -> (r: Option<String>)
    ensures
        (r is Some) == (recent_events >= i64_or(value_or(settings@, "fw_bot_ban_threshold"@, "10"@), 10)),
        r matches Some(d) ==> d@ == value_or(settings@, "fw_bot_ban_duration"@, "24h"@),
{
    let threshold = settings.get_or("fw_bot_ban_threshold", "10");
    if bot_ban_due(threshold.as_str(), recent_events) {
        Some(settings.get_or("fw_bot_ban_duration", "24h"))
    } else {
        None
    }
}

/// The security headers to set on a response: those of `security_headers`, when
/// `fw_security_headers` is on (it is by default), with HSTS for a `site_url` served
/// over https.
pub fn firewall_response_headers(settings: &Settings) -> (r: Vec<(&'static str, &'static str)>)
    ensures
        header_list(
            r@,
            on_by_default(settings@, "fw_security_headers"@),
            value_or(settings@, "site_url"@, ""@),
        ),
{
    let enabled = setting_on_by_default(settings, "fw_security_headers");
    let site_url = settings.get_or("site_url", "");
    security_headers(enabled, site_url.as_str())
}

/// What the firewall does to a response.
pub struct FwResponse {
    /// For a blocked request: status 403 with the body `403 Forbidden`.
    pub refusal: Option<(u16, &'static str)>,
    /// The headers to add.
    pub headers: Vec<(&'static str, &'static str)>,
}

/// The response to a request: a blocked request gets 403 with the body
/// `403 Forbidden` and no header added; any other response gets the security headers
/// (see `firewall_response_headers`).
pub fn firewall_response(settings: &Settings, blocked: bool) -> (r: FwResponse)
    ensures
        blocked ==> (r.refusal matches Some((status, body)) && status == 403 && body@ == "403 Forbidden"@
            && r.headers@.len() == 0),
        !blocked ==> r.refusal is None && header_list(
            r.headers@,
            on_by_default(settings@, "fw_security_headers"@),
            value_or(settings@, "site_url"@, ""@),
        ),
{
    if blocked {
        return FwResponse { refusal: Some((403, "403 Forbidden")), headers: Vec::new() };
    }
    FwResponse { refusal: None, headers: firewall_response_headers(settings) }
}

/// The limiter's entries after checks from `ip` at the given times, in order.
pub open spec fn run_checks(m: Map<Seq<char>, (u64, u64)>, ip: Seq<char>, window: u64, times: Seq<u64>) -> Map<Seq<char>, (u64, u64)>
    decreases times.len(),
{
    if times.len() == 0 {
        m
    } else {
        let before = run_checks(m, ip, window, times.drop_last());
        before.insert(ip, checked_entry(entry_of(before, ip), window, times.last()))
    }
}

/// A burst of requests from a new address within one window is counted one by one
/// from the first request's time, and exactly the requests after the first
/// `max_requests` are blocked.
pub proof fn burst_within_window(
    m: Map<Seq<char>, (u64, u64)>,
    ip: Seq<char>,
    max_requests: u64,
    window: u64,
    times: Seq<u64>,
)
    requires
        entry_of(m, ip) is None,
        times.len() > 0,
        times.len() < u64::MAX,
        window > 0,
        forall|j: int| 0 <= j < times.len() ==> elapsed_secs(#[trigger] times[j], times[0]) < window,
    ensures
        entry_of(run_checks(m, ip, window, times), ip) == Some((times.len() as u64, times[0])),
        forall|k: int|
            0 <= k < times.len() ==> check_blocks(
                entry_of(run_checks(m, ip, window, times.take(k)), ip),
                max_requests,
                window,
                #[trigger] times[k],
            ) == (k + 1 > max_requests),
    decreases times.len(),
{
    if times.len() == 1 {
        assert(times.drop_last() =~= Seq::<u64>::empty());
        assert(elapsed_secs(times[0], times[0]) == 0);
        assert(times.take(0) =~= Seq::<u64>::empty());
    } else {
        let prefix = times.drop_last();
        assert forall|j: int| 0 <= j < prefix.len() implies elapsed_secs(
            #[trigger] prefix[j],
            prefix[0],
        ) < window by {
            assert(prefix[j] == times[j]);
        }
        burst_within_window(m, ip, max_requests, window, prefix);
        assert(elapsed_secs(times.last(), times[0]) < window);
        assert forall|k: int| 0 <= k < times.len() implies check_blocks(
            entry_of(run_checks(m, ip, window, times.take(k)), ip),
            max_requests,
            window,
            #[trigger] times[k],
        ) == (k + 1 > max_requests) by {
            if k < prefix.len() {
                assert(times.take(k) =~= prefix.take(k));
                assert(prefix[k] == times[k]);
            } else {
                assert(times.take(k) =~= prefix);
                assert(elapsed_secs(times[k], times[0]) < window);
            }
        }
    }
}

/// A check changes no other address's entry.
pub proof fn check_is_per_address(m: Map<Seq<char>, (u64, u64)>, ip: Seq<char>, e: (u64, u64), other: Seq<char>)
    requires
        other != ip,
    ensures
        entry_of(m.insert(ip, e), other) == entry_of(m, other),
{
}

/// A request whose socket address is neither loopback nor private is attributed to
/// that address, whatever forwarding headers it carries: a remote client cannot choose
/// the address the firewall judges it by.
pub proof fn public_socket_cannot_set_client_ip(socket_ip: Seq<char>, h: ForwardHeaders)
    requires
        !is_proxy_address(socket_ip),
    ensures
        firewall_ip(socket_ip, h) == socket_ip,
{
}

/// With the firewall not switched on (`firewall_enabled` missing or not `true`), no
/// request is checked: none is banned, rate-limited or logged.
pub proof fn firewall_off_checks_nothing(
    m: Map<Seq<char>, Seq<char>>,
    path: Seq<char>,
    socket_ip: Seq<char>,
    h: ForwardHeaders,
)
    requires
        !flag_on(m, "firewall_enabled"@),
    ensures
        admitted_ip(m, path, socket_ip, h) is None,
{
}

/// A request that comes a full window or more after its address's window began
/// passes, whatever the count was, and starts a new window counted as one.
pub proof fn check_starts_new_window(c: u64, since: u64, max_requests: u64, window: u64, now: u64)
    requires
        elapsed_secs(now, since) >= window,
    ensures
        !check_blocks(Some((c, since)), max_requests, window, now),
        checked_entry(Some((c, since)), window, now) == (1u64, now),
{
}

/// Within one window, exactly the first `max_requests` requests from an address pass:
/// for a burst of requests from an address with no entry, all within one window of
/// the first, the `k`-th check (counting from zero) blocks exactly when `k` is
/// `max_requests` or more.
pub proof fn first_requests_in_window_pass(
    m: Map<Seq<char>, (u64, u64)>,
    ip: Seq<char>,
    max_requests: u64,
    window: u64,
    times: Seq<u64>,
    k: int,
)
    requires
        entry_of(m, ip) is None,
        0 <= k < times.len(),
        times.len() < u64::MAX,
        window > 0,
        forall|j: int| 0 <= j < times.len() ==> elapsed_secs(#[trigger] times[j], times[0]) < window,
    ensures
        check_blocks(entry_of(run_checks(m, ip, window, times.take(k)), ip), max_requests, window, times[k])
            == (k >= max_requests),
{
    burst_within_window(m, ip, max_requests, window, times);
}

// ── Laws of request inspection ───────────────────────────────────────

/// Every cross-site scripting pattern is caught: a request text whose lowercase form
/// `l` holds `<script`, a `javascript:` URI, an inline event handler (`onerror=`,
/// `onload=`, `onmouseover=`, `onfocus=`, `onclick=`), an HTML `data:` URI, a
/// `vbscript:` URI, a CSS `expression(` or an `eval(` call is an XSS attempt
/// (`contains_xss(s)` is `xss_in(lowercase(s))`).
pub proof fn xss_patterns_caught(l: Seq<char>)
    ensures
        contains(l, "<script"@) ==> xss_in(l),
        contains(l, "javascript:"@) ==> xss_in(l),
        contains(l, "onerror="@) ==> xss_in(l),
        contains(l, "onload="@) ==> xss_in(l),
        contains(l, "onmouseover="@) ==> xss_in(l),
        contains(l, "onfocus="@) ==> xss_in(l),
        contains(l, "onclick="@) ==> xss_in(l),
        contains(l, "data:text/html"@) ==> xss_in(l),
        contains(l, "vbscript:"@) ==> xss_in(l),
        contains(l, "expression("@) ==> xss_in(l),
        contains(l, "eval("@) ==> xss_in(l),
{
}

/// Every SQL injection pattern is caught: `UNION SELECT`, tautologies such as
/// `' OR 1=1`, stacked `; DROP`, comment tricks, and the `CHAR(`, `CONCAT(`,
/// `information_schema`, `SLEEP(`, `BENCHMARK(` and `WAITFOR DELAY` probes
/// (`contains_sqli(s)` is `sqli_in(lowercase(s))`).
pub proof fn sqli_patterns_caught(l: Seq<char>)
    ensures
        contains(l, "union select"@) ==> sqli_in(l),
        contains(l, "union all select"@) ==> sqli_in(l),
        contains(l, "' or '1'='1"@) ==> sqli_in(l),
        contains(l, "' or 1=1"@) ==> sqli_in(l),
        contains(l, "\" or 1=1"@) ==> sqli_in(l),
        contains(l, "or 1=1--"@) ==> sqli_in(l),
        contains(l, "'; drop "@) ==> sqli_in(l),
        contains(l, "; drop "@) ==> sqli_in(l),
        contains(l, "1=1 --"@) ==> sqli_in(l),
        contains(l, "/**/"@) ==> sqli_in(l),
        contains(l, "char("@) ==> sqli_in(l),
        contains(l, "concat("@) ==> sqli_in(l),
        contains(l, "information_schema"@) ==> sqli_in(l),
        contains(l, "sleep("@) ==> sqli_in(l),
        contains(l, "benchmark("@) ==> sqli_in(l),
        contains(l, "waitfor delay"@) ==> sqli_in(l),
{
}

/// Every path traversal pattern is caught: `../`, `..\`, their percent-encoded
/// forms, a NUL byte `%00`, and the `/etc/passwd`, `/proc/self` and `\windows\`
/// targets (`contains_path_traversal(s)` is `traversal_in(lowercase(s))`).
pub proof fn traversal_patterns_caught(l: Seq<char>)
    ensures
        contains(l, "../"@) ==> traversal_in(l),
        contains(l, "..\\"@) ==> traversal_in(l),
        contains(l, "%2e%2e"@) ==> traversal_in(l),
        contains(l, "%252e"@) ==> traversal_in(l),
        contains(l, "%00"@) ==> traversal_in(l),
        contains(l, "/etc/passwd"@) ==> traversal_in(l),
        contains(l, "/proc/self"@) ==> traversal_in(l),
        contains(l, "\\windows\\"@) ==> traversal_in(l),
{
}

/// Every scanner user agent is caught: the named tools, a `python-requests` agent
/// mentioning `scan`, an agent starting with `-`, and the bare agents `mozilla`, `curl`
/// and `wget`.
pub proof fn bot_agents_caught(l: Seq<char>)
    ensures
        contains(l, "sqlmap"@) ==> bot_in(l),
        contains(l, "nikto"@) ==> bot_in(l),
        contains(l, "nmap"@) ==> bot_in(l),
        contains(l, "masscan"@) ==> bot_in(l),
        contains(l, "zgrab"@) ==> bot_in(l),
        contains(l, "gobuster"@) ==> bot_in(l),
        contains(l, "dirbuster"@) ==> bot_in(l),
        contains(l, "wpscan"@) ==> bot_in(l),
        contains(l, "nuclei"@) ==> bot_in(l),
        contains(l, "httpx"@) ==> bot_in(l),
        contains(l, "python-requests"@) && contains(l, "scan"@) ==> bot_in(l),
        starts_with(l, "-"@) ==> bot_in(l),
        l == "mozilla"@ || l == "curl"@ || l == "wget"@ ==> bot_in(l),
{
}

} // verus!
