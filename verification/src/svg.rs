use quick_xml::events::{BytesStart, Event};
use quick_xml::reader::Reader;
use quick_xml::Writer;
use vstd::prelude::*;
use vstd::utf8::{decode_utf8, encode_utf8, valid_utf8};

use crate::text::{
    contains, lowercase, owned, starts_with, str_contains, str_eq, str_starts_with, xml_escaped,
    str_trim, to_lowercase, trim, utf8_len,
};

verus! {

// ── Outside types and calls ──────────────────────────────────────────

#[verifier::external_type_specification]
#[verifier::external_body]
pub struct ExUtf8Error(core::str::Utf8Error);

/// `str::from_utf8` succeeds exactly on valid UTF-8, and the string it returns holds the
/// decoded characters.
pub assume_specification[ core::str::from_utf8 ](v: &[u8]) -> (r: Result<&str, core::str::Utf8Error>)
    ensures
        r is Ok <==> valid_utf8(v@),
        r matches Ok(s) ==> s@ == decode_utf8(v@),
;

#[verifier::external_type_specification]
#[verifier::external_body]
pub struct ExEvent<'a>(Event<'a>);

#[verifier::external_type_specification]
#[verifier::external_body]
#[verifier::reject_recursive_types(W)]
pub struct ExWriter<W>(Writer<W>);

/// Whether quick_xml's `Reader` (text not trimmed) reads `input` to the end of the
/// document without an error.
pub uninterp spec fn xml_readable(input: Seq<u8>) -> bool;

/// What sanitizing reads of the events quick_xml's `Reader` (text not trimmed) reads
/// from `input` up to the end of the document, in order: each event's kind and, for
/// start and empty-element tags, the raw name and raw attribute (key, value) pairs.
pub uninterp spec fn xml_tokens(input: Seq<u8>) -> Seq<SvgToken>;

/// The bytes quick_xml's `Writer` writes for the `k`-th event that its `Reader` reads
/// from `input`, written back as it was read.
pub uninterp spec fn xml_event_text(input: Seq<u8>, k: int) -> Seq<u8>;

/// The events read from one input, kept together with that input.
pub struct XmlEvents {
    events: Vec<Event<'static>>,
    input: Ghost<Seq<u8>>,
}

impl XmlEvents {
    /// The input the events were read from.
    pub closed spec fn source(&self) -> Seq<u8> {
        self.input@
    }

    /// The number of events.
    pub closed spec fn count(&self) -> nat {
        self.events@.len()
    }

    /// The number of events.
    fn len(&self) -> (r: usize)
        ensures
            r == self.count(),
    {
        self.events.len()
    }
}

/// Parses `input` with quick_xml's `Reader` (text not trimmed) and collects its events up
/// to the end of the document, or `None` at the first read error.
#[verifier::external_body]
fn xml_read_events(input: &[u8]) -> (r: Option<XmlEvents>)
    ensures
        (r is Some) == xml_readable(input@),
        r matches Some(d) ==> d.source() == input@ && d.count() == xml_tokens(input@).len(),
{
    let mut reader = Reader::from_reader(input);
    reader.config_mut().trim_text(false);
    let mut out = Vec::new();
    loop {
        match reader.read_event() {
            Ok(Event::Eof) => return Some(XmlEvents { events: out, input: Ghost(input@) }),
            Ok(e) => out.push(e.into_owned()),
            Err(_) => return None,
        }
    }
}

#[verifier::external_type_specification]
#[verifier::external_body]
pub struct ExBytesStart<'a>(BytesStart<'a>);

/// The raw bytes of a tag's name and of each of its attributes' key and value as
/// quick_xml reads them (`attributes().flatten()`: attributes that fail to parse are
/// passed over). Nothing is stated: the tag is opaque here.
#[verifier::external_body]
fn tag_parts(s: &BytesStart<'static>) -> (Vec<u8>, Vec<(Vec<u8>, Vec<u8>)>) {
    let attrs = s.attributes().flatten().map(|a| (a.key.as_ref().to_vec(), a.value.to_vec()));
    (s.name().as_ref().to_vec(), attrs.collect())
}

/// The kind of the `k`-th event read and, for start and empty tags, their `tag_parts`:
/// the `k`-th of `xml_tokens` of the input.
#[verifier::external_body]
fn svg_token(d: &XmlEvents, k: usize) -> (r: SvgToken)
    requires
        k < d.count(),
    ensures
        r == xml_tokens(d.source())[k as int],
{
    match &d.events[k] {
        Event::Start(s) => { let (name, attrs) = tag_parts(s); SvgToken::Start { name, attrs } },
        Event::Empty(s) => { let (name, attrs) = tag_parts(s); SvgToken::Empty { name, attrs } },
        Event::End(_) => SvgToken::End,
        Event::Text(_) => SvgToken::Text,
        Event::CData(_) => SvgToken::CData,
        Event::Comment(_) => SvgToken::Comment,
        Event::Decl(_) => SvgToken::Decl,
        Event::PI(_) => SvgToken::PI,
        Event::DocType(_) => SvgToken::DocType,
        Event::Eof => SvgToken::Eof,
    }
}

/// The bytes a quick_xml `Writer` over a byte vector holds so far.
pub uninterp spec fn xml_written(w: Writer<Vec<u8>>) -> Seq<u8>;

/// A quick_xml `Writer` over an empty byte vector (no indentation).
#[verifier::external_body]
fn xml_writer_new() -> (r: Writer<Vec<u8>>)
    ensures
        xml_written(r) == Seq::<u8>::empty(),
{
    Writer::new(Vec::new())
}

/// Writes the `k`-th event read as it was read: the writer appends that event's
/// written form. Writing into a byte vector cannot fail, so the result is always true.
#[verifier::external_body]
fn xml_write_event(w: &mut Writer<Vec<u8>>, d: &XmlEvents, k: usize) -> (r: bool)
    requires
        k < d.count(),
    ensures
        r,
        xml_written(*final(w)) == xml_written(*old(w)) + xml_event_text(d.source(), k as int),
{
    w.write_event(d.events[k].borrow()).is_ok()
}

/// Writes a start tag (or an empty-element tag) named `name` with the given attributes:
/// `<`, the name, each attribute as a space, its key, `="`, its value with `&`, `<`,
/// `>`, `'` and `"` escaped, and `"`, then `>` (or `/>`), as UTF-8. Writing into a byte
/// vector cannot fail, so the result is always true.
#[verifier::external_body]
fn xml_write_element(w: &mut Writer<Vec<u8>>, name: &str, attrs: &Vec<(String, String)>, empty: bool) -> (r: bool)
    ensures
        r,
        xml_written(*final(w)) == xml_written(*old(w)) + element_bytes(name@, pair_views(attrs@), empty),
{
    let tag = BytesStart::new(name).with_attributes(attrs.iter().map(|(k, v)| (k.as_str(), v.as_str())));
    let event = if empty { Event::Empty(tag) } else { Event::Start(tag) };
    w.write_event(event).is_ok()
}

/// The bytes written so far.
#[verifier::external_body]
fn xml_writer_bytes(w: Writer<Vec<u8>>) -> (r: Vec<u8>)
    ensures
        r@ == xml_written(w),
{
    w.into_inner()
}

// ── What sanitizing reads and decides ────────────────────────────────

/// What sanitizing reads of one parsed XML event: its kind, and for start and
/// empty-element tags the raw name and raw attribute (key, value) pairs.
pub enum SvgToken {
    Start { name: Vec<u8>, attrs: Vec<(Vec<u8>, Vec<u8>)> },
    Empty { name: Vec<u8>, attrs: Vec<(Vec<u8>, Vec<u8>)> },
    End,
    Text,
    CData,
    Comment,
    Decl,
    PI,
    DocType,
    Eof,
}

/// What to write for one event.
pub enum SvgAction {
    /// Write nothing.
    Drop,
    /// Write the event as it was read.
    Copy,
    /// Write a rebuilt tag holding only the kept attributes (decoded from UTF-8).
    Element { name: String, attrs: Vec<(String, String)>, empty: bool },
}

/// The mathematical content of an `SvgAction`.
pub enum PlanStep {
    Drop,
    Copy,
    Element { name: Seq<char>, attrs: Seq<(Seq<char>, Seq<char>)>, empty: bool },
}

pub open spec fn pair_views(a: Seq<(String, String)>) -> Seq<(Seq<char>, Seq<char>)> {
    a.map_values(|p: (String, String)| (p.0@, p.1@))
}

/// The attributes of a rebuilt tag as written: each as a space, its key, `="`, its
/// escaped value and `"`.
pub open spec fn attr_text(attrs: Seq<(Seq<char>, Seq<char>)>) -> Seq<char>
    decreases attrs.len(),
{
    if attrs.len() == 0 {
        Seq::empty()
    } else {
        attr_text(attrs.drop_last()) + seq![' '] + attrs.last().0 + seq!['=', '"'] + xml_escaped(
            attrs.last().1,
        ) + seq!['"']
    }
}

/// The bytes of a rebuilt start tag (or empty-element tag).
pub open spec fn element_bytes(name: Seq<char>, attrs: Seq<(Seq<char>, Seq<char>)>, empty: bool) -> Seq<u8> {
    encode_utf8(
        seq!['<'] + name + attr_text(attrs) + if empty {
            seq!['/', '>']
        } else {
            seq!['>']
        },
    )
}

/// What is written for step `k` of the plan for `input`: nothing for a dropped event,
/// exactly the rebuilt tag for a rebuilt element, and the event as read for a copied
/// one.
pub open spec fn step_bytes(s: PlanStep, input: Seq<u8>, k: int) -> Seq<u8> {
    match s {
        PlanStep::Drop => Seq::empty(),
        PlanStep::Element { name, attrs, empty } => element_bytes(name, attrs, empty),
        PlanStep::Copy => xml_event_text(input, k),
    }
}

/// What writing the first `n` steps of the plan for `input`'s events gives.
pub open spec fn written_prefix(input: Seq<u8>, n: int) -> Seq<u8>
    decreases n,
{
    if n <= 0 {
        Seq::empty()
    } else {
        written_prefix(input, n - 1) + step_bytes(plan(xml_tokens(input))[n - 1], input, n - 1)
    }
}

/// The sanitized form of `input`: the plan for its events, written out in order.
pub open spec fn sanitized(input: Seq<u8>) -> Seq<u8> {
    written_prefix(input, xml_tokens(input).len() as int)
}

impl View for SvgAction {
    type V = PlanStep;

    open spec fn view(&self) -> PlanStep {
        match self {
            SvgAction::Drop => PlanStep::Drop,
            SvgAction::Copy => PlanStep::Copy,
            SvgAction::Element { name, attrs, empty } => PlanStep::Element {
                name: name@,
                attrs: pair_views(attrs@),
                empty: *empty,
            },
        }
    }
}

/// The text of `b` when it is valid UTF-8, else `d`.
pub open spec fn decoded_or(b: Seq<u8>, d: Seq<char>) -> Seq<char> {
    if valid_utf8(b) {
        decode_utf8(b)
    } else {
        d
    }
}

/// Elements that can execute scripts or load external content.
pub open spec fn dangerous_element(tag: Seq<char>) -> bool {
    tag == "script"@ || tag == "foreignobject"@ || tag == "iframe"@ || tag == "embed"@ || tag
        == "object"@ || tag == "applet"@ || tag == "set"@ || tag == "animate"@ || tag
        == "animatetransform"@ || tag == "animatemotion"@ || tag == "handler"@ || tag
        == "listener"@
}

/// An event-handler attribute: `on` followed by at least one more character
/// (case-insensitive).
pub open spec fn event_handler_attr(name: Seq<char>) -> bool {
    starts_with(lowercase(name), "on"@) && utf8_len(lowercase(name)) > 2
}

/// A URI whose scheme can run script or embed a document.
pub open spec fn dangerous_uri(value: Seq<char>) -> bool {
    let t = lowercase(trim(value));
    starts_with(t, "javascript:"@) || starts_with(t, "data:text/html"@) || starts_with(
        t,
        "data:application"@,
    ) || starts_with(t, "vbscript:"@)
}

/// Attributes (lowercase names) that hold URIs.
pub open spec fn uri_attr(lname: Seq<char>) -> bool {
    lname == "href"@ || lname == "xlink:href"@ || lname == "src"@ || lname == "action"@ || lname
        == "formaction"@
}

/// An attribute survives sanitizing: it is not an event handler, not a URI attribute
/// with a dangerous scheme, and not a style holding `javascript:` or `expression(`.
pub open spec fn attr_kept(name: Seq<char>, value: Seq<char>) -> bool {
    let lname = lowercase(name);
    let lval = lowercase(value);
    !event_handler_attr(name) && !(uri_attr(lname) && dangerous_uri(value)) && !(lname == "style"@
        && (contains(lval, "javascript:"@) || contains(lval, "expression("@)))
}

/// The decoded (name, value) pairs of the attributes that survive, in order; bytes that
/// are not UTF-8 decode to the empty string.
pub open spec fn kept_attrs(a: Seq<(Vec<u8>, Vec<u8>)>) -> Seq<(Seq<char>, Seq<char>)>
    decreases a.len(),
{
    if a.len() == 0 {
        Seq::empty()
    } else {
        let n = decoded_or(a.last().0@, ""@);
        let v = decoded_or(a.last().1@, ""@);
        if attr_kept(n, v) {
            kept_attrs(a.drop_last()).push((n, v))
        } else {
            kept_attrs(a.drop_last())
        }
    }
}

/// A `<use>` reference to an external resource: an `href` or `xlink:href` whose trimmed
/// value begins with `http://`, `https://` or `//`.
pub open spec fn external_use(a: Seq<(Vec<u8>, Vec<u8>)>) -> bool {
    exists|i: int|
        0 <= i < a.len() && {
            let n = lowercase(decoded_or((#[trigger] a[i]).0@, ""@));
            let v = trim(decoded_or(a[i].1@, ""@));
            (n == "href"@ || n == "xlink:href"@) && (starts_with(v, "http://"@) || starts_with(
                v,
                "https://"@,
            ) || starts_with(v, "//"@))
        }
}

/// The lowercase tag name that elements are judged by ("" when the name is not UTF-8).
pub open spec fn tag_of(name: Seq<u8>) -> Seq<char> {
    lowercase(decoded_or(name, ""@))
}

/// One step of sanitizing: from the depth inside dropped elements and the next event, the
/// new depth and what to write. Comments, processing instructions and DOCTYPEs are always
/// dropped; an XML declaration is always kept.
pub open spec fn step(depth: nat, t: SvgToken) -> (nat, PlanStep) {
    match t {
        SvgToken::Start { name, attrs } => {
            if depth > 0 {
                (depth + 1, PlanStep::Drop)
            } else if dangerous_element(tag_of(name@)) {
                (1, PlanStep::Drop)
            } else {
                (
                    0,
                    PlanStep::Element {
                        name: decoded_or(name@, "g"@),
                        attrs: kept_attrs(attrs@),
                        empty: false,
                    },
                )
            }
        },
        SvgToken::End => {
            if depth > 0 {
                ((depth - 1) as nat, PlanStep::Drop)
            } else {
                (0, PlanStep::Copy)
            }
        },
        SvgToken::Empty { name, attrs } => {
            if depth > 0 || dangerous_element(tag_of(name@)) || (tag_of(name@) == "use"@
                && external_use(attrs@)) {
                (depth, PlanStep::Drop)
            } else {
                (
                    0,
                    PlanStep::Element {
                        name: decoded_or(name@, "g"@),
                        attrs: kept_attrs(attrs@),
                        empty: true,
                    },
                )
            }
        },
        SvgToken::Text | SvgToken::CData => {
            if depth > 0 {
                (depth, PlanStep::Drop)
            } else {
                (0, PlanStep::Copy)
            }
        },
        SvgToken::Decl => (depth, PlanStep::Copy),
        _ => (depth, PlanStep::Drop),
    }
}

/// The depth inside dropped elements after the first `n` events, and the plan for them.
pub open spec fn plan_prefix(t: Seq<SvgToken>, n: int) -> (nat, Seq<PlanStep>)
    decreases n,
{
    if n <= 0 {
        (0, Seq::empty())
    } else {
        let prev = plan_prefix(t, n - 1);
        let s = step(prev.0, t[n - 1]);
        (s.0, prev.1.push(s.1))
    }
}

/// What to write for each event of a document.
pub open spec fn plan(t: Seq<SvgToken>) -> Seq<PlanStep> {
    plan_prefix(t, t.len() as int).1
}

// ── Executable decisions ─────────────────────────────────────────────

fn decode_or<'a>(b: &'a Vec<u8>, d: &'a str) -> (r: &'a str)
    ensures
        r@ == decoded_or(b@, d@),
{
    match core::str::from_utf8(b.as_slice()) {
        Ok(s) => s,
        Err(_) => d,
    }
}

pub fn is_dangerous_element(tag: &str) -> (r: bool)
    ensures
        r == dangerous_element(tag@),
{
    str_eq(tag, "script") || str_eq(tag, "foreignobject") || str_eq(tag, "iframe") || str_eq(
        tag,
        "embed",
    ) || str_eq(tag, "object") || str_eq(tag, "applet") || str_eq(tag, "set") || str_eq(
        tag,
        "animate",
    ) || str_eq(tag, "animatetransform") || str_eq(tag, "animatemotion") || str_eq(
        tag,
        "handler",
    ) || str_eq(tag, "listener")
}

pub fn is_dangerous_attribute(name: &str) -> (r: bool)
    ensures
        r == event_handler_attr(name@),
{
    let lower = to_lowercase(name);
    str_starts_with(lower.as_str(), "on") && lower.as_str().len() > 2
}

pub fn has_dangerous_uri(value: &str) -> (r: bool)
    ensures
        r == dangerous_uri(value@),
{
    let t = str_trim(value);
    let l = to_lowercase(t.as_str());
    str_starts_with(l.as_str(), "javascript:") || str_starts_with(l.as_str(), "data:text/html")
        || str_starts_with(l.as_str(), "data:application") || str_starts_with(
        l.as_str(),
        "vbscript:",
    )
}

fn keeps_attribute(name: &str, value: &str) -> (r: bool)
    ensures
        r == attr_kept(name@, value@),
{
    if is_dangerous_attribute(name) {
        return false;
    }
    let lname = to_lowercase(name);
    let ln = lname.as_str();
    let is_uri = str_eq(ln, "href") || str_eq(ln, "xlink:href") || str_eq(ln, "src") || str_eq(
        ln,
        "action",
    ) || str_eq(ln, "formaction");
    if is_uri && has_dangerous_uri(value) {
        return false;
    }
    if str_eq(ln, "style") {
        let lval = to_lowercase(value);
        if str_contains(lval.as_str(), "javascript:") || str_contains(lval.as_str(), "expression(") {
            return false;
        }
    }
    true
}

fn clean_attributes(attrs: &Vec<(Vec<u8>, Vec<u8>)>) -> (r: Vec<(String, String)>)
    ensures
        pair_views(r@) == kept_attrs(attrs@),
{
    let mut out: Vec<(String, String)> = Vec::new();
    let mut i: usize = 0;
    while i < attrs.len()
        invariant
            i <= attrs.len(),
            pair_views(out@) == kept_attrs(attrs@.take(i as int)),
        decreases attrs.len() - i,
    {
        let n = decode_or(&attrs[i].0, "");
        let v = decode_or(&attrs[i].1, "");
        proof {
            assert(attrs@.take(i + 1).drop_last() =~= attrs@.take(i as int));
            reveal_strlit("");
        }
        if keeps_attribute(n, v) {
            let ghost before = out@;
            out.push((owned(n), owned(v)));
            proof {
                assert(pair_views(out@) =~= pair_views(before).push((n@, v@)));
            }
        }
        i = i + 1;
    }
    proof {
        assert(attrs@.take(attrs.len() as int) =~= attrs@);
    }
    out
}

fn has_external_use_href(attrs: &Vec<(Vec<u8>, Vec<u8>)>) -> (r: bool)
    ensures
        r == external_use(attrs@),
{
    let mut i: usize = 0;
    while i < attrs.len()
        invariant
            i <= attrs.len(),
            forall|j: int|
                0 <= j < i ==> !{
                    let n = lowercase(decoded_or((#[trigger] attrs@[j]).0@, ""@));
                    let v = trim(decoded_or(attrs@[j].1@, ""@));
                    (n == "href"@ || n == "xlink:href"@) && (starts_with(v, "http://"@)
                        || starts_with(v, "https://"@) || starts_with(v, "//"@))
                },
        decreases attrs.len() - i,
    {
        let name = decode_or(&attrs[i].0, "");
        let lower = to_lowercase(name);
        if str_eq(lower.as_str(), "href") || str_eq(lower.as_str(), "xlink:href") {
            let val = decode_or(&attrs[i].1, "");
            let trimmed = str_trim(val);
            let t = trimmed.as_str();
            if str_starts_with(t, "http://") || str_starts_with(t, "https://") || str_starts_with(
                t,
                "//",
            ) {
                return true;
            }
        }
        i = i + 1;
    }
    false
}

/// One step of sanitizing (see `step`).
pub fn sanitize_step(depth: usize, t: &SvgToken) -> (r: (usize, SvgAction))
    requires
        depth < usize::MAX,
    ensures
        (r.0 as nat, r.1@) == step(depth as nat, *t),
{
    match t {
        SvgToken::Start { name, attrs } => {
            let tag_src = decode_or(name, "");
            let tag = to_lowercase(tag_src);
            if depth > 0 {
                (depth + 1, SvgAction::Drop)
            } else if is_dangerous_element(tag.as_str()) {
                (1, SvgAction::Drop)
            } else {
                let n = decode_or(name, "g");
                (0, SvgAction::Element { name: owned(n), attrs: clean_attributes(attrs), empty: false })
            }
        },
        SvgToken::End => {
            if depth > 0 {
                (depth - 1, SvgAction::Drop)
            } else {
                (0, SvgAction::Copy)
            }
        },
        SvgToken::Empty { name, attrs } => {
            if depth > 0 {
                return (depth, SvgAction::Drop);
            }
            let tag_src = decode_or(name, "");
            let tag = to_lowercase(tag_src);
            if is_dangerous_element(tag.as_str()) {
                return (depth, SvgAction::Drop);
            }
            if str_eq(tag.as_str(), "use") && has_external_use_href(attrs) {
                return (depth, SvgAction::Drop);
            }
            let n = decode_or(name, "g");
            (0, SvgAction::Element { name: owned(n), attrs: clean_attributes(attrs), empty: true })
        },
        SvgToken::Text | SvgToken::CData => {
            if depth > 0 {
                (depth, SvgAction::Drop)
            } else {
                (0, SvgAction::Copy)
            }
        },
        SvgToken::Decl => (depth, SvgAction::Copy),
        _ => (depth, SvgAction::Drop),
    }
}

/// Decides, event by event, what a sanitized document keeps.
pub fn sanitize_plan(tokens: &Vec<SvgToken>) -> (r: Vec<SvgAction>)
    ensures
        r@.len() == tokens@.len(),
        forall|i: int| 0 <= i < r@.len() ==> (#[trigger] r@[i])@ == plan(tokens@)[i],
{
    let mut out: Vec<SvgAction> = Vec::new();
    let mut depth: usize = 0;
    let mut i: usize = 0;
    while i < tokens.len()
        invariant
            i <= tokens.len(),
            depth <= i,
            depth as nat == plan_prefix(tokens@, i as int).0,
            out@.len() == i,
            forall|j: int| 0 <= j < i ==> (#[trigger] out@[j])@ == plan_prefix(tokens@, i as int).1[j],
            plan_prefix(tokens@, i as int).1.len() == i,
        decreases tokens.len() - i,
    {
        let (d, a) = sanitize_step(depth, &tokens[i]);
        proof {
            let p = plan_prefix(tokens@, i as int);
            assert(plan_prefix(tokens@, i + 1) == (step(p.0, tokens@[i as int]).0, p.1.push(step(p.0, tokens@[i as int]).1)));
        }
        out.push(a);
        depth = d;
        i = i + 1;
    }
    out
}

/// Sanitizes an SVG file by removing dangerous elements (with everything inside them),
/// event-handler attributes, URI attributes with dangerous schemes, style attributes
/// with script, external `<use>` references, comments, processing instructions and
/// DOCTYPEs. Returns `None` exactly where the input does not parse; otherwise the
/// plan for the input's events written out: nothing for a dropped event, the rebuilt
/// tag for a kept element, the event as read for a copied one.
pub fn sanitize_svg(input: &[u8]) -> (r: Option<Vec<u8>>)
    ensures
        (r is Some) == xml_readable(input@),
        r matches Some(out) ==> out@ == sanitized(input@),
{
    let doc = match xml_read_events(input) {
        Some(d) => d,
        None => return None,
    };
    let ghost toks = xml_tokens(input@);
    let n = doc.len();
    let mut tokens: Vec<SvgToken> = Vec::new();
    let mut i: usize = 0;
    while i < n
        invariant
            i <= n,
            n == doc.count(),
            doc.source() == input@,
            toks == xml_tokens(input@),
            toks.len() == n,
            tokens@ == toks.take(i as int),
        decreases n - i,
    {
        let t = svg_token(&doc, i);
        proof {
            assert(toks.take(i + 1) =~= toks.take(i as int).push(t));
        }
        tokens.push(t);
        i = i + 1;
    }
    proof {
        assert(tokens@ =~= toks);
    }
    let actions = sanitize_plan(&tokens);
    let ghost steps = plan(toks);
    proof {
        lemma_plan_prefix_steps(toks, toks.len() as int);
    }
    let mut w = xml_writer_new();
    let mut k: usize = 0;
    while k < n
        invariant
            k <= n,
            n == doc.count(),
            doc.source() == input@,
            toks == xml_tokens(input@),
            actions@.len() == n,
            steps == plan(toks),
            steps.len() == n,
            forall|j: int| 0 <= j < actions@.len() ==> (#[trigger] actions@[j])@ == steps[j],
            xml_written(w) == written_prefix(input@, k as int),
        decreases n - k,
    {
        proof {
            assert(steps[k as int] == actions@[k as int]@);
        }
        let ok = match &actions[k] {
            SvgAction::Drop => true,
            SvgAction::Copy => xml_write_event(&mut w, &doc, k),
            SvgAction::Element { name, attrs, empty } => xml_write_element(&mut w, name.as_str(), attrs, *empty),
        };
        if !ok {
            return None;
        }
        proof {
            assert(xml_written(w) =~= written_prefix(input@, k as int) + step_bytes(steps[k as int], input@, k as int));
        }
        k = k + 1;
    }
    let out = xml_writer_bytes(w);
    Some(out)
}

// ── Laws of the sanitizing plan ─────────────────────────────────────

proof fn lemma_plan_prefix_steps(t: Seq<SvgToken>, n: int)
    requires
        0 <= n <= t.len(),
    ensures
        plan_prefix(t, n).1.len() == n,
        forall|i: int|
            0 <= i < n ==> plan_prefix(t, n).1[i] == #[trigger] step(plan_prefix(t, i).0, t[i]).1,
    decreases n,
{
    if n > 0 {
        lemma_plan_prefix_steps(t, n - 1);
        assert forall|i: int| 0 <= i < n implies plan_prefix(t, n).1[i] == #[trigger] step(
            plan_prefix(t, i).0,
            t[i],
        ).1 by {
            if i < n - 1 {
                assert(plan_prefix(t, n).1[i] == plan_prefix(t, n - 1).1[i]);
            }
        }
    }
}

/// Every attribute that `kept_attrs` keeps passes the attribute rules.
pub proof fn kept_attributes_pass_rules(a: Seq<(Vec<u8>, Vec<u8>)>)
    ensures
        forall|j: int|
            0 <= j < kept_attrs(a).len() ==> attr_kept(
                (#[trigger] kept_attrs(a)[j]).0,
                kept_attrs(a)[j].1,
            ),
    decreases a.len(),
{
    if a.len() > 0 {
        kept_attributes_pass_rules(a.drop_last());
        let prev = kept_attrs(a.drop_last());
        let n = decoded_or(a.last().0@, ""@);
        let v = decoded_or(a.last().1@, ""@);
        if attr_kept(n, v) {
            assert forall|j: int| 0 <= j < kept_attrs(a).len() implies attr_kept(
                (#[trigger] kept_attrs(a)[j]).0,
                kept_attrs(a)[j].1,
            ) by {
                if j < prev.len() {
                    assert(kept_attrs(a)[j] == prev[j]);
                }
            }
        }
    }
}

/// The plan has one step per event, and the step for an event is decided from the depth
/// inside dropped elements reached before it.
pub proof fn plan_steps(t: Seq<SvgToken>, i: int)
    requires
        0 <= i < t.len(),
    ensures
        plan(t).len() == t.len(),
        plan(t)[i] == step(plan_prefix(t, i).0, t[i]).1,
{
    lemma_plan_prefix_steps(t, t.len() as int);
}

/// Only start and empty-element tags are rebuilt, never one of a dangerous element, and
/// every attribute a rebuilt tag carries passes the attribute rules.
pub proof fn written_elements_are_safe(t: Seq<SvgToken>, i: int)
    requires
        0 <= i < t.len(),
        plan(t)[i] is Element,
    ensures
        match t[i] {
            SvgToken::Start { name, attrs } => !dangerous_element(tag_of(name@)),
            SvgToken::Empty { name, attrs } => !dangerous_element(tag_of(name@)),
            _ => false,
        },
        forall|j: int|
            0 <= j < plan(t)[i]->Element_attrs.len() ==> attr_kept(
                (#[trigger] plan(t)[i]->Element_attrs[j]).0,
                plan(t)[i]->Element_attrs[j].1,
            ),
{
    plan_steps(t, i);
    match t[i] {
        SvgToken::Start { name, attrs } => {
            kept_attributes_pass_rules(attrs@);
        },
        SvgToken::Empty { name, attrs } => {
            kept_attributes_pass_rules(attrs@);
        },
        _ => {},
    }
}

/// Comments, processing instructions and DOCTYPEs are never written.
pub proof fn comments_pis_doctypes_dropped(t: Seq<SvgToken>, i: int)
    requires
        0 <= i < t.len(),
        t[i] is Comment || t[i] is PI || t[i] is DocType,
    ensures
        plan(t)[i] == PlanStep::Drop,
{
    plan_steps(t, i);
}

/// Inside a dropped element nothing is written but an XML declaration.
pub proof fn nothing_written_inside_dropped_element(t: Seq<SvgToken>, i: int)
    requires
        0 <= i < t.len(),
        plan_prefix(t, i).0 > 0,
        !(t[i] is Decl),
    ensures
        plan(t)[i] == PlanStep::Drop,
{
    plan_steps(t, i);
}

/// A `<use/>` that references an external resource is never written.
pub proof fn external_use_dropped(t: Seq<SvgToken>, i: int)
    requires
        0 <= i < t.len(),
        t[i] matches SvgToken::Empty { name, attrs } && tag_of(name@) == "use"@ && external_use(
            attrs@,
        ),
    ensures
        plan(t)[i] == PlanStep::Drop,
{
    plan_steps(t, i);
}

/// The elements that can run script or load outside content (`script`,
/// `foreignObject`, `iframe`, `embed`, `object`, `applet`, the SMIL elements `set`,
/// `animate`, `animateTransform`, `animateMotion`, and `handler`, `listener`) are
/// dangerous, whatever the case of their name.
pub open spec fn listed_dangerous(x: Seq<char>) -> bool {
    x == "script"@ || x == "foreignobject"@ || x == "iframe"@ || x == "embed"@ || x == "object"@ || x == "applet"@ || x == "set"@ || x == "animate"@ || x == "animatetransform"@ || x == "animatemotion"@ || x == "handler"@ || x == "listener"@
}

/// Every listed element is dangerous, and a start or empty-element tag whose name,
/// lowercased, is a listed element is never written.
pub proof fn listed_elements_never_written(t: Seq<SvgToken>, i: int)
    requires
        0 <= i < t.len(),
    ensures
        forall|x: Seq<char>| listed_dangerous(x) ==> dangerous_element(x),
        (t[i] matches SvgToken::Start { name, attrs } && listed_dangerous(tag_of(name@))) ==> plan(t)[i]
            == PlanStep::Drop,
        (t[i] matches SvgToken::Empty { name, attrs } && listed_dangerous(tag_of(name@))) ==> plan(t)[i]
            == PlanStep::Drop,
{
    plan_steps(t, i);
}

/// The attribute rules: an event handler (a name that, lowercased, is `on` followed by
/// more), a URI attribute (`href`, `xlink:href`, `src`, `action`, `formaction`) whose
/// trimmed, lowercased value starts with `javascript:`, `vbscript:`, `data:text/html`
/// or `data:application`, and a `style` holding `javascript:` or `expression(` are all
/// removed.
pub proof fn attribute_rules(name: Seq<char>, value: Seq<char>)
    ensures
        starts_with(lowercase(name), "on"@) && utf8_len(lowercase(name)) > 2 ==> !attr_kept(name, value),
        (lowercase(name) == "href"@ || lowercase(name) == "xlink:href"@ || lowercase(name) == "src"@
            || lowercase(name) == "action"@ || lowercase(name) == "formaction"@) && (starts_with(
            lowercase(trim(value)),
            "javascript:"@,
        ) || starts_with(lowercase(trim(value)), "vbscript:"@) || starts_with(
            lowercase(trim(value)),
            "data:text/html"@,
        ) || starts_with(lowercase(trim(value)), "data:application"@)) ==> !attr_kept(name, value),
        lowercase(name) == "style"@ && (contains(lowercase(value), "javascript:"@) || contains(
            lowercase(value),
            "expression("@,
        )) ==> !attr_kept(name, value),
{
}

} // verus!
