use vstd::prelude::*;
use crate::settings::{Settings, value_or};
use crate::text::{
    contains, starts_with, ends_with, split_char, trim_start_char, lowercase, split_str,
    str_contains, str_starts_with, str_ends_with, str_eq, owned, push_str, chars_of,
    string_of_range, str_trim_start_char, to_lowercase, usize_to_decimal, decimal,
};
use crate::commerce::{base64_encode, base64_std, constant_time_eq, hex_lower, hex_encode, random_bytes};
use crate::svg::{sanitize_svg, sanitized, xml_readable};
use base64::Engine;

verus! {

// ── Requests ────────────────────────────────────────────────────────

/// The body of a deploy preflight request.
pub struct PreflightRequest {
    pub key: String,
}

/// A post in a deploy bundle.
pub struct DeployPost {
    pub slug: String,
    pub title: String,
    pub content_json: String,
    pub content_html: String,
    pub excerpt: Option<String>,
    pub featured_image: Option<String>,
    pub meta_title: Option<String>,
    pub meta_description: Option<String>,
    pub status: String,
    pub published_at: Option<String>,
    pub category_slugs: Vec<String>,
    pub tag_names: Vec<String>,
}

/// A category in a deploy bundle.
pub struct DeployCategory {
    pub slug: String,
    pub name: String,
    pub description: Option<String>,
    pub category_type: String,
    pub parent_slug: Option<String>,
}

/// A tag in a deploy bundle.
pub struct DeployTag {
    pub slug: String,
    pub name: String,
}

/// An uploaded file in a deploy bundle: its path under the site directory and its
/// contents in Base64.
pub struct DeployUpload {
    pub path: String,
    pub data_base64: String,
}

/// A setting in a deploy bundle.
pub struct DeploySetting {
    pub key: String,
    pub value: String,
}

// ── Deploy key checks ───────────────────────────────────────────────

/// Why a deploy request is refused.
#[derive(PartialEq, Eq, Structural, Clone, Copy, Debug)]
pub enum DeployRefusal {
    /// This instance has no `deploy_receive_key`.
    NoKey,
    /// The key sent does not match.
    InvalidKey,
    /// Content is only received by a production instance.
    NotProduction,
}

impl DeployRefusal {
    /// The error a preflight request answers with.
    pub fn preflight_message(&self) -> (r: &'static str)
        ensures
            *self == DeployRefusal::NoKey ==> r@
                == "This instance has no deploy receive key configured"@,
            *self == DeployRefusal::InvalidKey ==> r@ == "Invalid deploy key"@,
            *self == DeployRefusal::NotProduction ==> r@
                == "This instance is not a production server"@,
    {
        match self {
            DeployRefusal::NoKey => "This instance has no deploy receive key configured",
            DeployRefusal::InvalidKey => "Invalid deploy key",
            DeployRefusal::NotProduction => "This instance is not a production server",
        }
    }

    /// The error a receive request answers with.
    pub fn receive_message(&self) -> (r: &'static str)
        ensures
            *self == DeployRefusal::NoKey ==> r@ == "No deploy receive key configured"@,
            *self == DeployRefusal::InvalidKey ==> r@ == "Invalid deploy key"@,
            *self == DeployRefusal::NotProduction ==> r@
                == "This instance is not a production server"@,
    {
        match self {
            DeployRefusal::NoKey => "No deploy receive key configured",
            DeployRefusal::InvalidKey => "Invalid deploy key",
            DeployRefusal::NotProduction => "This instance is not a production server",
        }
    }
}

/// The deploy key this instance expects (empty where unset).
pub open spec fn expected_deploy_key(m: Map<Seq<char>, Seq<char>>) -> Seq<char> {
    value_or(m, "deploy_receive_key"@, Seq::empty())
}

/// The environment this instance runs as (`staging` where unset).
pub open spec fn site_environment(m: Map<Seq<char>, Seq<char>>) -> Seq<char> {
    value_or(m, "site_environment"@, "staging"@)
}

/// Checks a preflight request: a key must be configured and the one sent must match
/// it. On success, returns the environment and the site name (`Velocty` where unset).
pub fn deploy_preflight_check(settings: &Settings, key: &str) -> (r: Result<(String, String), DeployRefusal>)
    ensures
        (r == Err::<(String, String), DeployRefusal>(DeployRefusal::NoKey)) == (expected_deploy_key(settings@).len() == 0),
        (r == Err::<(String, String), DeployRefusal>(DeployRefusal::InvalidKey)) == (
            expected_deploy_key(settings@).len() > 0 && key@ != expected_deploy_key(settings@)),
        (r is Ok) == (expected_deploy_key(settings@).len() > 0 && key@ == expected_deploy_key(settings@)),
        r matches Ok(p) ==> p.0@ == site_environment(settings@) && p.1@ == value_or(
            settings@,
            "site_name"@,
            "Velocty"@,
        ),
{
    let env = settings.get_or("site_environment", "staging");
    let expected = settings.get_or_empty("deploy_receive_key");
    if expected.as_str().is_empty() {
        return Err(DeployRefusal::NoKey);
    }
    if !deploy_keys_match(key, expected.as_str()) {
        return Err(DeployRefusal::InvalidKey);
    }
    let site_name = settings.get_or("site_name", "Velocty");
    Ok((env, site_name))
}

/// Compares a deploy key with the expected one in constant time.
pub fn deploy_keys_match(given: &str, expected: &str) -> (r: bool)
    ensures
        r == (given@ == expected@),
{
    let r = constant_time_eq(given.as_bytes(), expected.as_bytes());
    proof {
        vstd::utf8::encode_utf8_decode_utf8(given@);
        vstd::utf8::encode_utf8_decode_utf8(expected@);
    }
    r
}

/// Checks a receive request: a key must be configured, the one sent must match it,
/// and this instance must be the production server.
pub fn deploy_receive_check(settings: &Settings, key: &str) -> (r: Result<(), DeployRefusal>)
    ensures
        (r == Err::<(), DeployRefusal>(DeployRefusal::NoKey)) == (expected_deploy_key(settings@).len() == 0),
        (r == Err::<(), DeployRefusal>(DeployRefusal::InvalidKey)) == (expected_deploy_key(settings@).len() > 0
            && key@ != expected_deploy_key(settings@)),
        (r == Err::<(), DeployRefusal>(DeployRefusal::NotProduction)) == (expected_deploy_key(settings@).len() > 0
            && key@ == expected_deploy_key(settings@) && site_environment(settings@)
            != "production"@),
{
    let env = settings.get_or("site_environment", "staging");
    let expected = settings.get_or_empty("deploy_receive_key");
    if expected.as_str().is_empty() {
        return Err(DeployRefusal::NoKey);
    }
    if !deploy_keys_match(key, expected.as_str()) {
        return Err(DeployRefusal::InvalidKey);
    }
    if !str_eq(env.as_str(), "production") {
        return Err(DeployRefusal::NotProduction);
    }
    Ok(())
}

// ── Upload paths ────────────────────────────────────────────────────

/// Some `/`-separated part of `p` is `..`, which `Path::components` reads as a
/// parent-directory component.
pub open spec fn has_parent_component(p: Seq<char>) -> bool {
    exists|i: int| 0 <= i < split_char(p, '/').len() && #[trigger] split_char(p, '/')[i] == seq!['.', '.']
}

/// The lexical rule for upload paths: no NUL byte, no `..` component, and under
/// `website/site/uploads/` (or `website/site/uploads\`).
pub open spec fn upload_path_lexically_safe(p: Seq<char>) -> bool {
    !contains(p, seq!['\0']) && !has_parent_component(p) && (starts_with(
        p,
        "website/site/uploads/"@,
    ) || starts_with(p, "website/site/uploads\\"@))
}

/// The non-empty `/`-separated parts of a path, in order.
pub open spec fn nonempty_parts(parts: Seq<Seq<char>>) -> Seq<Seq<char>>
    decreases parts.len(),
{
    if parts.len() == 0 {
        Seq::empty()
    } else if parts.last().len() == 0 {
        nonempty_parts(parts.drop_last())
    } else {
        nonempty_parts(parts.drop_last()).push(parts.last())
    }
}

/// For paths as `canonicalize` returns them (absolute, no `.` or `..` parts):
/// `Path::starts_with`, which compares whole components.
pub open spec fn canonical_within(path: Seq<char>, base: Seq<char>) -> bool {
    let pc = nonempty_parts(split_char(path, '/'));
    let bc = nonempty_parts(split_char(base, '/'));
    starts_with(path, seq!['/']) == starts_with(base, seq!['/']) && bc.len() <= pc.len()
        && pc.take(bc.len() as int) == bc
}

/// The whole rule: lexically safe, and, where both the uploads directory and the path
/// exist on disk, the canonical path lies within the canonical uploads directory.
pub open spec fn upload_path_safe(p: Seq<char>, canonical: Option<(Seq<char>, Seq<char>)>) -> bool {
    upload_path_lexically_safe(p) && match canonical {
        Some((base, path)) => canonical_within(path, base),
        None => true,
    }
}

proof fn lemma_split_prefix_kept(x: Seq<char>, y: Seq<char>, c: char)
    ensures
        split_char(x + y, c).len() >= split_char(x, c).len(),
        forall|i: int| 0 <= i < split_char(x, c).len() - 1 ==> #[trigger] split_char(x + y, c)[i] == split_char(x, c)[i],
    decreases y.len(),
{
    if y.len() == 0 {
        assert(x + y =~= x);
    } else {
        assert((x + y).drop_last() =~= x + y.drop_last());
        assert((x + y).last() == y.last());
        lemma_split_prefix_kept(x, y.drop_last(), c);
        crate::text::lemma_split_char_nonempty(x + y.drop_last(), c);
    }
}

/// The upload path rules: a path holding a NUL byte, a path with a `..` component
/// (`a/../b`), and a path outside `website/site/uploads/` (or
/// `website/site/uploads\`) are all refused, whatever the disk says.
pub proof fn unsafe_upload_paths_refused(
    p: Seq<char>,
    pre: Seq<char>,
    post: Seq<char>,
    canonical: Option<(Seq<char>, Seq<char>)>,
)
    ensures
        contains(p, seq!['\0']) ==> !upload_path_safe(p, canonical),
        !starts_with(p, "website/site/uploads/"@) && !starts_with(p, "website/site/uploads\\"@)
            ==> !upload_path_safe(p, canonical),
        !upload_path_safe(pre + seq!['/', '.', '.', '/'] + post, canonical),
{
    let head = pre + seq!['/'];
    let x = head + seq!['.', '.'] + seq!['/'];
    assert(head.drop_last() =~= pre);
    assert(split_char(head, '/') == split_char(pre, '/').push(Seq::<char>::empty()));
    crate::text::lemma_split_char_extend(head, seq!['.', '.'], '/');
    let mid = head + seq!['.', '.'];
    assert(split_char(mid, '/').last() == Seq::<char>::empty() + seq!['.', '.']);
    assert(Seq::<char>::empty() + seq!['.', '.'] =~= seq!['.', '.']);
    assert(x.drop_last() =~= mid);
    let n = split_char(pre, '/').len() as int;
    assert(split_char(x, '/') == split_char(mid, '/').push(Seq::<char>::empty()));
    assert(split_char(x, '/')[n] == seq!['.', '.']);
    lemma_split_prefix_kept(x, post, '/');
    assert(pre + seq!['/', '.', '.', '/'] + post =~= x + post);
    assert(split_char(x + post, '/')[n] == seq!['.', '.']);
}

/// The settings a deploy may carry are exactly the site's name, caption, logo,
/// favicon, copyright text and the blog, portfolio and contact labels; the receive key
/// is never one of them.
pub proof fn deploy_safe_settings_listed(k: Seq<char>)
    ensures
        deploy_safe_setting(k) == ("site_name"@ == k || "site_caption"@ == k || "site_logo"@ == k
            || "site_favicon"@ == k || "copyright_text"@ == k || "blog_label"@ == k
            || "portfolio_label"@ == k || "contact_label"@ == k),
        !deploy_safe_setting("deploy_receive_key"@),
{
    assert("deploy_receive_key"@.len() == 18) by {
        reveal_strlit("deploy_receive_key");
    }
    assert("site_name"@.len() == 9 && "site_caption"@.len() == 12 && "site_logo"@.len() == 9
        && "site_favicon"@.len() == 12 && "copyright_text"@.len() == 14 && "blog_label"@.len() == 10
        && "portfolio_label"@.len() == 15 && "contact_label"@.len() == 13) by {
        reveal_strlit("site_name");
        reveal_strlit("site_caption");
        reveal_strlit("site_logo");
        reveal_strlit("site_favicon");
        reveal_strlit("copyright_text");
        reveal_strlit("blog_label");
        reveal_strlit("portfolio_label");
        reveal_strlit("contact_label");
    }
}

fn has_dotdot_part(p: &str) -> (r: bool)
    ensures
        r == has_parent_component(p@),
{
    let parts = split_str(p, '/');
    let ghost ps = parts@.map_values(|s: String| s@);
    let mut i: usize = 0;
    while i < parts.len()
        invariant
            i <= parts.len(),
            ps == parts@.map_values(|s: String| s@),
            ps == split_char(p@, '/'),
            forall|j: int| 0 <= j < i ==> ps[j] != seq!['.', '.'],
        decreases parts.len() - i,
    {
        proof {
            reveal_strlit("..");
            assert(".."@ =~= seq!['.', '.']);
        }
        if str_eq(parts[i].as_str(), "..") {
            proof {
                assert(ps[i as int] == parts@[i as int]@);
            }
            return true;
        }
        i = i + 1;
    }
    false
}

fn nonempty_parts_of(s: &str) -> (r: Vec<String>)
    ensures
        r@.map_values(|x: String| x@) == nonempty_parts(split_char(s@, '/')),
{
    let parts = split_str(s, '/');
    let ghost ps = parts@.map_values(|x: String| x@);
    let mut out: Vec<String> = Vec::new();
    let mut i: usize = 0;
    proof {
        assert(ps.take(0) =~= Seq::<Seq<char>>::empty());
        assert(out@.map_values(|x: String| x@) =~= Seq::<Seq<char>>::empty());
    }
    while i < parts.len()
        invariant
            i <= parts.len(),
            ps == parts@.map_values(|x: String| x@),
            out@.map_values(|x: String| x@) == nonempty_parts(ps.take(i as int)),
        decreases parts.len() - i,
    {
        proof {
            assert(ps.take(i + 1).drop_last() =~= ps.take(i as int));
            assert(ps.take(i + 1).last() == parts@[i as int]@);
        }
        let ghost before = out@.map_values(|x: String| x@);
        if !parts[i].as_str().is_empty() {
            out.push(parts[i].clone());
            proof {
                assert(out@.map_values(|x: String| x@) =~= before.push(parts@[i as int]@));
            }
        }
        i = i + 1;
    }
    proof {
        assert(ps.take(parts.len() as int) =~= ps);
    }
    out
}

/// Whether a canonical `path` lies within the canonical `base`, comparing whole
/// components.
pub fn canonical_path_within(path: &str, base: &str) -> (r: bool)
    ensures
        r == canonical_within(path@, base@),
{
    let pc = nonempty_parts_of(path);
    let bc = nonempty_parts_of(base);
    if str_starts_with(path, "/") != str_starts_with(base, "/") {
        proof {
            reveal_strlit("/");
            assert("/"@ =~= seq!['/']);
        }
        return false;
    }
    proof {
        reveal_strlit("/");
        assert("/"@ =~= seq!['/']);
    }
    if bc.len() > pc.len() {
        return false;
    }
    let ghost pv = pc@.map_values(|x: String| x@);
    let ghost bv = bc@.map_values(|x: String| x@);
    let mut i: usize = 0;
    while i < bc.len()
        invariant
            i <= bc.len() <= pc.len(),
            pv == pc@.map_values(|x: String| x@),
            bv == bc@.map_values(|x: String| x@),
            canonical_within(path@, base@) == (pv.take(bv.len() as int) == bv),
            forall|j: int| 0 <= j < i ==> pv[j] == bv[j],
        decreases bc.len() - i,
    {
        proof {
            assert(pv[i as int] == pc@[i as int]@);
            assert(bv[i as int] == bc@[i as int]@);
        }
        if !str_eq(pc[i].as_str(), bc[i].as_str()) {
            proof {
                assert(pv.take(bv.len() as int)[i as int] != bv[i as int]);
            }
            return false;
        }
        i = i + 1;
    }
    proof {
        assert(pv.take(bv.len() as int) =~= bv);
    }
    true
}

/// Validates that a file path resolves within `website/site/uploads/`, to prevent
/// path traversal. `canonical` holds the canonical uploads directory and the canonical
/// path, where both exist on disk.
pub fn is_safe_upload_path(path: &str, canonical: Option<(&str, &str)>) -> (r: bool)
    ensures
        r == upload_path_safe(
            path@,
            match canonical {
                Some((b, p)) => Some((b@, p@)),
                None => None,
            },
        ),
{
    proof {
        reveal_strlit("\0");
        assert("\0"@ =~= seq!['\0']);
    }
    if str_contains(path, "\0") {
        return false;
    }
    if has_dotdot_part(path) {
        return false;
    }
    if !str_starts_with(path, "website/site/uploads/") && !str_starts_with(
        path,
        "website/site/uploads\\",
    ) {
        return false;
    }
    match canonical {
        Some((base, p)) => canonical_path_within(p, base),
        None => true,
    }
}

// ── File extensions ─────────────────────────────────────────────────

/// The last component of a `/`-separated path, as `Path::file_name` gives it: empty
/// parts and `.` parts are passed over, and a final `..` has no file name.
pub open spec fn file_name(parts: Seq<Seq<char>>) -> Option<Seq<char>>
    decreases parts.len(),
{
    if parts.len() == 0 {
        None
    } else if parts.last().len() == 0 || parts.last() == seq!['.'] {
        file_name(parts.drop_last())
    } else if parts.last() == seq!['.', '.'] {
        None
    } else {
        Some(parts.last())
    }
}

/// The index of the last `.` in `s`, if any.
pub open spec fn last_dot(s: Seq<char>) -> Option<int>
    decreases s.len(),
{
    if s.len() == 0 {
        None
    } else if s.last() == '.' {
        Some(s.len() - 1)
    } else {
        last_dot(s.drop_last())
    }
}

/// `Path::extension` of a path: what follows the last `.` of the file name, where
/// that `.` is not the name's first character.
pub open spec fn path_extension(p: Seq<char>) -> Option<Seq<char>> {
    match file_name(split_char(p, '/')) {
        Some(name) => match last_dot(name) {
            Some(i) => if i == 0 {
                None
            } else {
                Some(name.skip(i + 1))
            },
            None => None,
        },
        None => None,
    }
}

/// The extensions a deploy may upload (media, fonts and PDF).
pub open spec fn allowed_extension(e: Seq<char>) -> bool {
    e == "jpg"@ || e == "jpeg"@ || e == "png"@ || e == "gif"@ || e == "webp"@ || e == "svg"@
        || e == "tiff"@ || e == "ico"@ || e == "avif"@ || e == "mp4"@ || e == "webm"@ || e
        == "mov"@ || e == "avi"@ || e == "woff2"@ || e == "woff"@ || e == "ttf"@ || e
        == "otf"@ || e == "pdf"@
}

/// The extension of `p`, lowercased (empty where it has none), is on the allowlist.
pub open spec fn deploy_extension_allowed(p: Seq<char>) -> bool {
    allowed_extension(
        lowercase(
            match path_extension(p) {
                Some(e) => e,
                None => Seq::empty(),
            },
        ),
    )
}

proof fn lemma_last_dot_suffix(a: Seq<char>, e: Seq<char>)
    requires
        forall|i: int| 0 <= i < e.len() ==> e[i] != '.',
    ensures
        last_dot(a + e) == last_dot(a),
    decreases e.len(),
{
    if e.len() > 0 {
        assert((a + e).drop_last() =~= a + e.drop_last());
        assert((a + e).last() == e.last());
        lemma_last_dot_suffix(a, e.drop_last());
    } else {
        assert(a + e =~= a);
    }
}

/// The extension of `dir/stem.ext` (a non-empty stem without `/`, a non-empty
/// extension without `/` or `.`) is `ext`.
proof fn lemma_extension_of_file(dir: Seq<char>, stem: Seq<char>, ext: Seq<char>)
    requires
        stem.len() > 0,
        ext.len() > 0,
        forall|i: int| 0 <= i < stem.len() ==> stem[i] != '/',
        forall|i: int| 0 <= i < ext.len() ==> ext[i] != '/' && ext[i] != '.',
    ensures
        path_extension(dir + seq!['/'] + stem + seq!['.'] + ext) == Some(ext),
{
    let head = dir + seq!['/'];
    let name = stem + seq!['.'] + ext;
    assert(dir + seq!['/'] + stem + seq!['.'] + ext =~= head + name);
    assert forall|i: int| 0 <= i < name.len() implies name[i] != '/' by {
        if i < stem.len() {
            assert(name[i] == stem[i]);
        } else if i > stem.len() {
            assert(name[i] == ext[i - stem.len() - 1]);
        }
    }
    crate::text::lemma_split_char_extend(head, name, '/');
    assert(head.drop_last() =~= dir);
    let parts = split_char(head + name, '/');
    assert(split_char(head, '/') == split_char(dir, '/').push(Seq::<char>::empty()));
    assert(parts.last() == Seq::<char>::empty() + name);
    assert(Seq::<char>::empty() + name =~= name);
    assert(name.len() >= 3);
    assert(file_name(parts) == Some(name));
    lemma_last_dot_suffix(stem + seq!['.'], ext);
    assert(stem + seq!['.'] + ext =~= (stem + seq!['.']) + ext);
    assert((stem + seq!['.']).last() == '.');
    assert(name.skip(stem.len() + 1 as int) =~= ext);
}

/// The deploy upload allowlist: a file `dir/stem.ext` is accepted exactly when its
/// extension, lowercased, is one of jpg, jpeg, png, gif, webp, svg, tiff, ico, avif,
/// mp4, webm, mov, avi, woff2, woff, ttf, otf or pdf.
pub proof fn deploy_extension_allowlist(dir: Seq<char>, stem: Seq<char>, ext: Seq<char>)
    requires
        stem.len() > 0,
        ext.len() > 0,
        forall|i: int| 0 <= i < stem.len() ==> stem[i] != '/',
        forall|i: int| 0 <= i < ext.len() ==> ext[i] != '/' && ext[i] != '.',
    ensures
        deploy_extension_allowed(dir + seq!['/'] + stem + seq!['.'] + ext) == ({
            let e = lowercase(ext);
            ||| ("jpg"@ == e || "jpeg"@ == e || "png"@ == e || "gif"@ == e || "webp"@ == e)
            ||| ("svg"@ == e || "tiff"@ == e || "ico"@ == e || "avif"@ == e)
            ||| ("mp4"@ == e || "webm"@ == e || "mov"@ == e || "avi"@ == e)
            ||| ("woff2"@ == e || "woff"@ == e || "ttf"@ == e || "otf"@ == e)
            ||| ("pdf"@ == e)
        }),
{
    lemma_extension_of_file(dir, stem, ext);
}

fn file_name_of(p: &str) -> (r: Option<String>)
    ensures
        opt_string(r) == file_name(split_char(p@, '/')),
{
    let parts = split_str(p, '/');
    let ghost ps = parts@.map_values(|x: String| x@);
    let mut i: usize = parts.len();
    proof {
        assert(ps.take(i as int) =~= ps);
        reveal_strlit(".");
        reveal_strlit("..");
        assert("."@ =~= seq!['.']);
        assert(".."@ =~= seq!['.', '.']);
    }
    while i > 0
        invariant
            i <= parts.len(),
            ps == parts@.map_values(|x: String| x@),
            ps == split_char(p@, '/'),
            file_name(ps) == file_name(ps.take(i as int)),
            "."@ == seq!['.'],
            ".."@ == seq!['.', '.'],
        decreases i,
    {
        let part = &parts[i - 1];
        proof {
            assert(ps.take(i as int).last() == part@);
            assert(ps.take(i as int).drop_last() =~= ps.take(i - 1));
        }
        if part.as_str().is_empty() || str_eq(part.as_str(), ".") {
            i = i - 1;
        } else if str_eq(part.as_str(), "..") {
            return None;
        } else {
            return Some(part.clone());
        }
    }
    proof {
        assert(ps.take(0) =~= Seq::<Seq<char>>::empty());
    }
    None
}

/// An optional `String` as optional characters.
pub open spec fn opt_string(o: Option<String>) -> Option<Seq<char>> {
    match o {
        Some(s) => Some(s@),
        None => None,
    }
}

/// `Path::extension` of `p`.
pub fn extension_of(p: &str) -> (r: Option<String>)
    ensures
        opt_string(r) == path_extension(p@),
{
    let name = match file_name_of(p) {
        Some(n) => n,
        None => return None,
    };
    let v = chars_of(name.as_str());
    let mut i: usize = v.len();
    proof {
        assert(v@.take(i as int) =~= v@);
    }
    while i > 0
        invariant
            i <= v.len(),
            v@ == name@,
            file_name(split_char(p@, '/')) == Some(name@),
            last_dot(v@) == last_dot(v@.take(i as int)),
        decreases i,
    {
        proof {
            assert(v@.take(i as int).last() == v@[i - 1]);
            assert(v@.take(i as int).drop_last() =~= v@.take(i - 1));
        }
        if v[i - 1] == '.' {
            proof {
                assert(last_dot(v@.take(i as int)) == Some(i - 1));
            }
            if i == 1 {
                return None;
            }
            let ext = string_of_range(&v, i, v.len());
            proof {
                assert(v@.subrange(i as int, v@.len() as int) =~= v@.skip(i as int));
            }
            return Some(ext);
        }
        i = i - 1;
    }
    proof {
        assert(v@.take(0) =~= Seq::<char>::empty());
    }
    None
}

/// Allowlist of file extensions permitted in deploy uploads.
pub fn is_allowed_deploy_extension(path: &str) -> (r: bool)
    ensures
        r == deploy_extension_allowed(path@),
{
    let ext = match extension_of(path) {
        Some(e) => e,
        None => String::new(),
    };
    let e = to_lowercase(ext.as_str());
    let s = e.as_str();
    str_eq(s, "jpg") || str_eq(s, "jpeg") || str_eq(s, "png") || str_eq(s, "gif") || str_eq(
        s,
        "webp",
    ) || str_eq(s, "svg") || str_eq(s, "tiff") || str_eq(s, "ico") || str_eq(s, "avif")
        || str_eq(s, "mp4") || str_eq(s, "webm") || str_eq(s, "mov") || str_eq(s, "avi")
        || str_eq(s, "woff2") || str_eq(s, "woff") || str_eq(s, "ttf") || str_eq(s, "otf")
        || str_eq(s, "pdf")
}

// ── Receiving uploads ───────────────────────────────────────────────

/// What Base64 decoding of `s` gives with base64's `general_purpose::STANDARD`
/// engine: the bytes, or `None` where `s` is not valid padded standard Base64.
pub uninterp spec fn base64_decoded(s: Seq<char>) -> Option<Seq<u8>>;

/// Calls `Engine::decode` of base64's `general_purpose::STANDARD` engine; the error
/// becomes `None`. The result is a function of the text alone.
#[verifier::external_body]
fn base64_decode(input: &str) -> (r: Option<Vec<u8>>)
    ensures
        match r {
            Some(b) => base64_decoded(input@) == Some(b@),
            None => base64_decoded(input@) is None,
        },
{
    match base64::engine::general_purpose::STANDARD.decode(input) {
        Ok(b) => Some(b),
        Err(_) => None,
    }
}

/// The file an upload goes to: its path, without leading slashes, under
/// `website/site/`.
pub open spec fn upload_target(path: Seq<char>) -> Seq<char> {
    "website/site/"@ + trim_start_char(path, '/')
}

/// The file under `website/site/` that an upload path names (see `upload_target`).
pub fn upload_target_path(path: &str) -> (r: String)
    ensures
        r@ == upload_target(path@),
{
    let rest = str_trim_start_char(path, '/');
    let mut full = owned("website/site/");
    push_str(&mut full, rest.as_str());
    full
}

/// An upload file's contents as sent to the deploying site: standard Base64.
pub fn encode_upload_data(bytes: &[u8]) -> (r: String)
    ensures
        r@ == base64_std(bytes@),
{
    base64_encode(bytes)
}

/// What receiving one upload does.
pub enum UploadAction {
    /// Nothing is written: the data is not Base64, the path is unsafe, the type is
    /// not allowed, or an SVG file could not be sanitised.
    Skip,
    /// Write `bytes` to `path`.
    Write { path: String, bytes: Vec<u8> },
}

/// The upload's target path, given the canonical uploads directory and canonical
/// target path where both exist on disk, passes `is_safe_upload_path`, and its type is
/// allowed.
pub open spec fn upload_accepted(target: Seq<char>, canonical: Option<(Seq<char>, Seq<char>)>) -> bool {
    upload_path_safe(target, canonical) && deploy_extension_allowed(target)
}

/// The target's name, lowercased, ends with `.svg`.
pub open spec fn is_svg_target(target: Seq<char>) -> bool {
    ends_with(lowercase(target), seq!['.', 's', 'v', 'g'])
}

/// What receiving one upload writes, if anything: to its target, where the data
/// decodes from Base64 and the target is safe and of an allowed type; an SVG file only
/// where it parses, and then in sanitised form; any other file as decoded.
pub open spec fn upload_outcome(
    data: Seq<char>,
    path: Seq<char>,
    canonical: Option<(Seq<char>, Seq<char>)>,
) -> Option<(Seq<char>, Seq<u8>)> {
    let target = upload_target(path);
    match base64_decoded(data) {
        None => None,
        Some(b) => if !upload_accepted(target, canonical) {
            None
        } else if is_svg_target(target) {
            if xml_readable(b) {
                Some((target, sanitized(b)))
            } else {
                None
            }
        } else {
            Some((target, b))
        },
    }
}

/// Decides what to do with one upload of a deploy bundle (see `upload_outcome`).
pub fn plan_upload(upload: &DeployUpload, canonical: Option<(&str, &str)>) -> (r: UploadAction)
    ensures
        match r {
            UploadAction::Write { path, bytes } => upload_outcome(
                upload.data_base64@,
                upload.path@,
                match canonical {
                    Some((b, p)) => Some((b@, p@)),
                    None => None,
                },
            ) == Some((path@, bytes@)),
            UploadAction::Skip => upload_outcome(
                upload.data_base64@,
                upload.path@,
                match canonical {
                    Some((b, p)) => Some((b@, p@)),
                    None => None,
                },
            ) is None,
        },
{
    let bytes = match base64_decode(upload.data_base64.as_str()) {
        Some(b) => b,
        None => return UploadAction::Skip,
    };
    let full = upload_target_path(upload.path.as_str());
    if !is_safe_upload_path(full.as_str(), canonical) {
        return UploadAction::Skip;
    }
    if !is_allowed_deploy_extension(full.as_str()) {
        return UploadAction::Skip;
    }
    let lower = to_lowercase(full.as_str());
    proof {
        reveal_strlit(".svg");
        assert(".svg"@ =~= seq!['.', 's', 'v', 'g']);
    }
    if str_ends_with(lower.as_str(), ".svg") {
        match sanitize_svg(bytes.as_slice()) {
            Some(clean) => UploadAction::Write { path: full, bytes: clean },
            None => UploadAction::Skip,
        }
    } else {
        UploadAction::Write { path: full, bytes }
    }
}

// ── Content sync ────────────────────────────────────────────────────

/// How one post or portfolio item of a deploy bundle is synced: the item with its slug
/// is updated where one exists, else a new one is created.
#[derive(PartialEq, Eq, Structural, Clone, Copy, Debug)]
pub enum Upsert {
    Create,
    Update { id: i64 },
}

/// The sync of an item, given the id of the existing item with its slug, if any.
pub open spec fn upsert_of(existing: Option<i64>) -> Upsert {
    match existing {
        Some(id) => Upsert::Update { id },
        None => Upsert::Create,
    }
}

/// How many of the items have no existing item with their slug.
pub open spec fn count_new(e: Seq<Option<i64>>) -> nat
    decreases e.len(),
{
    if e.len() == 0 {
        0
    } else {
        count_new(e.drop_last()) + if e.last() is None {
            1nat
        } else {
            0nat
        }
    }
}

proof fn lemma_count_new_bound(e: Seq<Option<i64>>)
    ensures
        count_new(e) <= e.len(),
    decreases e.len(),
{
    if e.len() > 0 {
        lemma_count_new_bound(e.drop_last());
    }
}

/// The syncs of a bundle's posts (or portfolio items), given for each the id of the
/// existing item with its slug, with the number created and the number updated.
pub fn plan_upserts(existing: &Vec<Option<i64>>) -> (r: (Vec<Upsert>, u64, u64))
    ensures
        r.0@.len() == existing@.len(),
        forall|i: int| 0 <= i < existing@.len() ==> #[trigger] r.0@[i] == upsert_of(existing@[i]),
        r.1 == count_new(existing@),
        r.1 + r.2 == existing@.len(),
{
    let mut out: Vec<Upsert> = Vec::new();
    let mut created: u64 = 0;
    let mut updated: u64 = 0;
    let mut i: usize = 0;
    while i < existing.len()
        invariant
            i <= existing@.len(),
            out@.len() == i,
            forall|j: int| 0 <= j < i ==> #[trigger] out@[j] == upsert_of(existing@[j]),
            created == count_new(existing@.take(i as int)),
            created + updated == i,
        decreases existing.len() - i,
    {
        proof {
            assert(existing@.take(i + 1).drop_last() =~= existing@.take(i as int));
            lemma_count_new_bound(existing@.take(i as int));
        }
        match existing[i] {
            Some(id) => {
                out.push(Upsert::Update { id });
                updated = updated + 1;
            },
            None => {
                out.push(Upsert::Create);
                created = created + 1;
            },
        }
        i = i + 1;
    }
    proof {
        assert(existing@.take(existing@.len() as int) =~= existing@);
    }
    (out, created, updated)
}

/// The categories (or tags) to link an item to: `None` where there are none, so that
/// the item's links are left as they are.
pub fn content_links(ids: Vec<i64>) -> (r: Option<Vec<i64>>)
    ensures
        ids@.len() == 0 ==> r is None,
        ids@.len() > 0 ==> (r matches Some(v) && v@ == ids@),
{
    if ids.len() == 0 {
        None
    } else {
        Some(ids)
    }
}

/// How many of the deployed settings may be stored.
pub open spec fn count_safe(s: Seq<DeploySetting>) -> nat
    decreases s.len(),
{
    if s.len() == 0 {
        0
    } else {
        count_safe(s.drop_last()) + if deploy_safe_setting(s.last().key@) {
            1nat
        } else {
            0nat
        }
    }
}

/// The counts a deploy reports.
pub struct DeployStats {
    pub posts_created: u64,
    pub posts_updated: u64,
    pub portfolio_created: u64,
    pub portfolio_updated: u64,
    pub categories_synced: u64,
    pub tags_synced: u64,
    pub uploads_written: u64,
    pub settings_synced: u64,
}

/// The counts of a deploy: posts and portfolio items created or updated as their
/// slugs are found, every category and tag of the bundle synced, the uploads written,
/// and the settings that may be stored.
pub fn deploy_stats(
    posts: &Vec<Option<i64>>,
    portfolio: &Vec<Option<i64>>,
    categories: u64,
    tags: u64,
    uploads_written: u64,
    settings: &Vec<DeploySetting>,
) -> (r: DeployStats)
    ensures
        r.posts_created == count_new(posts@),
        r.posts_created + r.posts_updated == posts@.len(),
        r.portfolio_created == count_new(portfolio@),
        r.portfolio_created + r.portfolio_updated == portfolio@.len(),
        r.categories_synced == categories,
        r.tags_synced == tags,
        r.uploads_written == uploads_written,
        r.settings_synced == count_safe(settings@),
{
    let (_, posts_created, posts_updated) = plan_upserts(posts);
    let (_, portfolio_created, portfolio_updated) = plan_upserts(portfolio);
    let mut safe: u64 = 0;
    let mut i: usize = 0;
    while i < settings.len()
        invariant
            i <= settings@.len(),
            safe == count_safe(settings@.take(i as int)),
            safe <= i,
        decreases settings.len() - i,
    {
        proof {
            assert(settings@.take(i + 1).drop_last() =~= settings@.take(i as int));
        }
        if is_deploy_safe_setting(settings[i].key.as_str()) {
            safe = safe + 1;
        }
        i = i + 1;
    }
    proof {
        assert(settings@.take(settings@.len() as int) =~= settings@);
    }
    DeployStats {
        posts_created,
        posts_updated,
        portfolio_created,
        portfolio_updated,
        categories_synced: categories,
        tags_synced: tags,
        uploads_written,
        settings_synced: safe,
    }
}

// ── Settings and key rotation ───────────────────────────────────────

/// The settings a deploy may overwrite on the receiving site.
pub open spec fn deploy_safe_setting(k: Seq<char>) -> bool {
    k == "site_name"@ || k == "site_caption"@ || k == "site_logo"@ || k == "site_favicon"@ || k
        == "copyright_text"@ || k == "blog_label"@ || k == "portfolio_label"@ || k
        == "contact_label"@
}

/// Whether a deployed setting may be stored.
pub fn is_deploy_safe_setting(key: &str) -> (r: bool)
    ensures
        r == deploy_safe_setting(key@),
{
    str_eq(key, "site_name") || str_eq(key, "site_caption") || str_eq(key, "site_logo")
        || str_eq(key, "site_favicon") || str_eq(key, "copyright_text") || str_eq(
        key,
        "blog_label",
    ) || str_eq(key, "portfolio_label") || str_eq(key, "contact_label")
}

/// The setting writes that the deployed settings make, in order: each one that may be
/// stored, as `(key, value)`.
pub open spec fn safe_writes(incoming: Seq<DeploySetting>) -> Seq<(Seq<char>, Seq<char>)>
    decreases incoming.len(),
{
    if incoming.len() == 0 {
        Seq::empty()
    } else {
        let rest = safe_writes(incoming.drop_last());
        if deploy_safe_setting(incoming.last().key@) {
            rest.push((incoming.last().key@, incoming.last().value@))
        } else {
            rest
        }
    }
}

/// All the setting writes of a received deploy: the deployed settings that may be
/// stored, then the receive key replaced by `new_key`.
pub open spec fn deploy_writes(incoming: Seq<DeploySetting>, new_key: Seq<char>) -> Seq<(Seq<char>, Seq<char>)> {
    safe_writes(incoming).push(("deploy_receive_key"@, new_key))
}

/// The settings after `writes` are made in order, later writes winning.
pub open spec fn apply_writes(m: Map<Seq<char>, Seq<char>>, writes: Seq<(Seq<char>, Seq<char>)>) -> Map<
    Seq<char>,
    Seq<char>,
>
    decreases writes.len(),
{
    if writes.len() == 0 {
        m
    } else {
        apply_writes(m, writes.drop_last()).insert(writes.last().0, writes.last().1)
    }
}

/// Writes as plain text pairs.
pub open spec fn writes_view(w: Seq<(String, String)>) -> Seq<(Seq<char>, Seq<char>)> {
    w.map_values(|p: (String, String)| (p.0@, p.1@))
}

/// The setting writes a received deploy makes (see `deploy_writes`): the store sets
/// each `(key, value)` in order.
pub fn deploy_setting_writes(incoming: &Vec<DeploySetting>, new_key: String) -> (r: Vec<(String, String)>)
    ensures
        writes_view(r@) == deploy_writes(incoming@, new_key@),
{
    let mut r: Vec<(String, String)> = Vec::new();
    let mut i: usize = 0;
    while i < incoming.len()
        invariant
            i <= incoming.len(),
            writes_view(r@) == safe_writes(incoming@.take(i as int)),
        decreases incoming.len() - i,
    {
        let ghost before = r@;
        assert(incoming@.take(i + 1).drop_last() =~= incoming@.take(i as int));
        if is_deploy_safe_setting(incoming[i].key.as_str()) {
            r.push((owned(incoming[i].key.as_str()), owned(incoming[i].value.as_str())));
            assert(writes_view(r@) =~= writes_view(before).push((incoming@[i as int].key@, incoming@[i as int].value@)));
        }
        i = i + 1;
    }
    assert(incoming@.take(incoming@.len() as int) =~= incoming@);
    let ghost before = r@;
    r.push((owned("deploy_receive_key"), new_key));
    assert(writes_view(r@) =~= writes_view(before).push(("deploy_receive_key"@, r@.last().1@)));
    r
}

proof fn lemma_safe_writes_keys(incoming: Seq<DeploySetting>)
    ensures
        forall|i: int| 0 <= i < safe_writes(incoming).len() ==> deploy_safe_setting(#[trigger] safe_writes(incoming)[i].0),
    decreases incoming.len(),
{
    if incoming.len() > 0 {
        lemma_safe_writes_keys(incoming.drop_last());
        let rest = safe_writes(incoming.drop_last());
        assert forall|i: int| 0 <= i < safe_writes(incoming).len() implies deploy_safe_setting(
            #[trigger] safe_writes(incoming)[i].0,
        ) by {
            if i < rest.len() {
                assert(safe_writes(incoming)[i] == rest[i]);
            }
        }
    }
}

proof fn lemma_apply_untouched(m: Map<Seq<char>, Seq<char>>, w: Seq<(Seq<char>, Seq<char>)>, k: Seq<char>)
    requires
        forall|i: int| 0 <= i < w.len() ==> (#[trigger] w[i]).0 != k,
    ensures
        apply_writes(m, w).dom().contains(k) == m.dom().contains(k),
        apply_writes(m, w)[k] == m[k],
    decreases w.len(),
{
    if w.len() > 0 {
        assert forall|i: int| 0 <= i < w.drop_last().len() implies (#[trigger] w.drop_last()[i]).0 != k by {
            assert(w.drop_last()[i] == w[i]);
        }
        lemma_apply_untouched(m, w.drop_last(), k);
        assert(w.last() == w[w.len() - 1]);
    }
}

/// A received deploy changes only the settings that may be deployed and the receive
/// key: the receive key becomes the new one, and every other setting that may not be
/// deployed keeps its value (or stays unset).
pub proof fn deploy_changes_only_safe_settings(
    m: Map<Seq<char>, Seq<char>>,
    incoming: Seq<DeploySetting>,
    new_key: Seq<char>,
    k: Seq<char>,
)
    ensures
        apply_writes(m, deploy_writes(incoming, new_key)).dom().contains("deploy_receive_key"@),
        apply_writes(m, deploy_writes(incoming, new_key))["deploy_receive_key"@] == new_key,
        k != "deploy_receive_key"@ && !deploy_safe_setting(k) ==> apply_writes(
            m,
            deploy_writes(incoming, new_key),
        ).dom().contains(k) == m.dom().contains(k) && apply_writes(m, deploy_writes(incoming, new_key))[k]
            == m[k],
{
    let w = deploy_writes(incoming, new_key);
    assert(w.drop_last() =~= safe_writes(incoming));
    if k != "deploy_receive_key"@ && !deploy_safe_setting(k) {
        lemma_safe_writes_keys(incoming);
        lemma_apply_untouched(m, safe_writes(incoming), k);
    }
}

/// The positions, in order, of the deployed settings that may be stored.
pub fn deploy_settings_to_sync(settings: &Vec<DeploySetting>) -> (r: Vec<usize>)
    ensures
        forall|i: int| 0 <= i < r@.len() ==> (r@[i] as int) < settings@.len()
            && deploy_safe_setting(settings@[r@[i] as int].key@),
        forall|i: int, j: int| 0 <= i < j < r@.len() ==> r@[i] < r@[j],
        forall|k: int| 0 <= k < settings@.len() && deploy_safe_setting(#[trigger] settings@[k].key@)
            ==> r@.contains(k as usize),
{
    let mut r: Vec<usize> = Vec::new();
    let mut i: usize = 0;
    while i < settings.len()
        invariant
            i <= settings.len(),
            forall|a: int| 0 <= a < r@.len() ==> (r@[a] as int) < i && deploy_safe_setting(
                settings@[r@[a] as int].key@,
            ),
            forall|a: int, b: int| 0 <= a < b < r@.len() ==> r@[a] < r@[b],
            forall|k: int| 0 <= k < i && deploy_safe_setting(#[trigger] settings@[k].key@)
                ==> r@.contains(k as usize),
        decreases settings.len() - i,
    {
        if is_deploy_safe_setting(settings[i].key.as_str()) {
            let ghost before = r@;
            r.push(i);
            proof {
                assert forall|k: int| 0 <= k < i + 1 && deploy_safe_setting(
                    #[trigger] settings@[k].key@,
                ) implies r@.contains(k as usize) by {
                    if k < i {
                        let a = choose|a: int| 0 <= a < before.len() && before[a] == k as usize;
                        assert(r@[a] == k as usize);
                    } else {
                        assert(r@[before.len() as int] == k as usize);
                    }
                }
            }
        }
        i = i + 1;
    }
    r
}

/// A fresh deploy key: 32 random bytes in lowercase hexadecimal.
pub fn new_deploy_key() -> (r: String)
    ensures
        exists|b: Seq<u8>| b.len() == 32 && r@ == hex_lower(b),
{
    let bytes = random_bytes(32);
    hex_encode(bytes.as_slice())
}

/// The audit-log line for a received deploy.
pub open spec fn deploy_summary_text(posts: nat, portfolio: nat, uploads: nat) -> Seq<char> {
    "Deploy received: "@ + decimal(posts) + " posts, "@ + decimal(portfolio)
        + " portfolio items, "@ + decimal(uploads) + " uploads"@
}

/// The audit-log line for a deploy of `posts` posts, `portfolio` portfolio items and
/// `uploads` uploads.
pub fn deploy_summary(posts: usize, portfolio: usize, uploads: usize) -> (r: String)
    ensures
        r@ == deploy_summary_text(posts as nat, portfolio as nat, uploads as nat),
{
    let mut s = owned("Deploy received: ");
    let a = usize_to_decimal(posts);
    push_str(&mut s, a.as_str());
    push_str(&mut s, " posts, ");
    let b = usize_to_decimal(portfolio);
    push_str(&mut s, b.as_str());
    push_str(&mut s, " portfolio items, ");
    let c = usize_to_decimal(uploads);
    push_str(&mut s, c.as_str());
    push_str(&mut s, " uploads");
    s
}

/// A deploy writes an upload only under `website/site/uploads/` (or its backslash
/// form), never through a `..` component or a NUL character, and, where the target
/// exists on disk, only within the canonical uploads directory.
pub proof fn written_uploads_stay_in_uploads(target: Seq<char>, canonical: Option<(Seq<char>, Seq<char>)>)
    requires
        upload_accepted(target, canonical),
    ensures
        starts_with(target, "website/site/uploads/"@) || starts_with(target, "website/site/uploads\\"@),
        !has_parent_component(target),
        !contains(target, seq!['\0']),
        canonical matches Some((base, path)) ==> canonical_within(path, base),
{
}

} // verus!
