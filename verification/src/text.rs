use vstd::prelude::*;
use vstd::utf8::encode_utf8;

verus! {

// ── Specifications over character sequences ─────────────────────────

/// The number of bytes in the UTF-8 encoding of `s`, as the `usize` that `str::len`
/// returns.
pub open spec fn utf8_len(s: Seq<char>) -> nat {
    (encode_utf8(s).len() as usize) as nat
}

/// `n` occurs in `h` starting at index `i`.
pub open spec fn matches_at(h: Seq<char>, n: Seq<char>, i: int) -> bool {
    0 <= i && i + n.len() <= h.len() && h.subrange(i, i + n.len()) == n
}

/// `n` occurs somewhere in `h`.
pub open spec fn contains(h: Seq<char>, n: Seq<char>) -> bool {
    exists|i: int| #[trigger] matches_at(h, n, i)
}

/// `h` begins with `n`.
pub open spec fn starts_with(h: Seq<char>, n: Seq<char>) -> bool {
    n.len() <= h.len() && h.take(n.len() as int) == n
}

/// `h` ends with `n`.
pub open spec fn ends_with(h: Seq<char>, n: Seq<char>) -> bool {
    n.len() <= h.len() && h.skip(h.len() - n.len()) == n
}

/// The first index at or after `from` where `n` occurs in `h`.
pub open spec fn first_match_from(h: Seq<char>, n: Seq<char>, from: int) -> Option<int>
    decreases h.len() + 1 - from,
{
    if from < 0 || from + n.len() > h.len() {
        None
    } else if matches_at(h, n, from) {
        Some(from)
    } else {
        first_match_from(h, n, from + 1)
    }
}

/// The number of non-overlapping occurrences of `n` in `h` at or after `from`,
/// found from left to right (what `str::matches(..).count()` returns).
pub open spec fn count_matches_from(h: Seq<char>, n: Seq<char>, from: int) -> nat
    decreases h.len() - from,
{
    if n.len() == 0 || from < 0 || from + n.len() > h.len() {
        0
    } else if matches_at(h, n, from) {
        1 + count_matches_from(h, n, from + n.len())
    } else {
        count_matches_from(h, n, from + 1)
    }
}

/// The number of non-overlapping occurrences of `n` in `h`.
pub open spec fn count_matches(h: Seq<char>, n: Seq<char>) -> nat {
    count_matches_from(h, n, 0)
}

/// The characters that Unicode gives the White_Space property; `char::is_whitespace`
/// tests for exactly these.
pub open spec fn is_ws(c: char) -> bool {
    let u = c as u32;
    (0x09 <= u && u <= 0x0d) || u == 0x20 || u == 0x85 || u == 0xa0 || u == 0x1680 || (0x2000
        <= u && u <= 0x200a) || u == 0x2028 || u == 0x2029 || u == 0x202f || u == 0x205f || u
        == 0x3000
}

/// ASCII letters and digits.
pub open spec fn is_ascii_alnum(c: char) -> bool {
    ('a' <= c && c <= 'z') || ('A' <= c && c <= 'Z') || ('0' <= c && c <= '9')
}

/// ASCII digits.
pub open spec fn is_digit(c: char) -> bool {
    '0' <= c && c <= '9'
}

/// Index of the first character of `s` that is not whitespace (or `s.len()`).
pub open spec fn leading_ws(s: Seq<char>) -> nat
    decreases s.len(),
{
    if s.len() > 0 && is_ws(s[0]) {
        1 + leading_ws(s.drop_first())
    } else {
        0
    }
}

/// Number of whitespace characters at the end of `s`.
pub open spec fn trailing_ws(s: Seq<char>) -> nat
    decreases s.len(),
{
    if s.len() > 0 && is_ws(s.last()) {
        1 + trailing_ws(s.drop_last())
    } else {
        0
    }
}

/// `s` without leading and trailing whitespace (what `str::trim` returns).
pub open spec fn trim(s: Seq<char>) -> Seq<char> {
    let t = s.skip(leading_ws(s) as int);
    t.take(t.len() - trailing_ws(t))
}

/// `s` without trailing `c` characters.
pub open spec fn trim_end_char(s: Seq<char>, c: char) -> Seq<char>
    decreases s.len(),
{
    if s.len() > 0 && s.last() == c {
        trim_end_char(s.drop_last(), c)
    } else {
        s
    }
}

/// `s` without leading `c` characters.
pub open spec fn trim_start_char(s: Seq<char>, c: char) -> Seq<char>
    decreases s.len(),
{
    if s.len() > 0 && s[0] == c {
        trim_start_char(s.drop_first(), c)
    } else {
        s
    }
}

/// Concatenation of `f(c)` for each character `c` of `s`.
pub open spec fn flat_map_chars(s: Seq<char>, f: spec_fn(char) -> Seq<char>) -> Seq<char>
    decreases s.len(),
{
    if s.len() == 0 {
        Seq::empty()
    } else {
        flat_map_chars(s.drop_last(), f) + f(s.last())
    }
}

/// One character escaped for HTML text and attribute values.
pub open spec fn html_escape_char(c: char) -> Seq<char> {
    if c == '&' {
        seq!['&', 'a', 'm', 'p', ';']
    } else if c == '<' {
        seq!['&', 'l', 't', ';']
    } else if c == '>' {
        seq!['&', 'g', 't', ';']
    } else if c == '"' {
        seq!['&', 'q', 'u', 'o', 't', ';']
    } else {
        seq![c]
    }
}

/// `&`, `<`, `>` and `"` replaced by their HTML entities.
pub open spec fn html_escaped(s: Seq<char>) -> Seq<char> {
    flat_map_chars(s, |c: char| html_escape_char(c))
}

/// One character escaped for XML: the HTML escapes and `'` as `&apos;`.
pub open spec fn xml_escape_char(c: char) -> Seq<char> {
    if c == '\'' {
        seq!['&', 'a', 'p', 'o', 's', ';']
    } else {
        html_escape_char(c)
    }
}

/// `&`, `<`, `>`, `"` and `'` replaced by their XML entities.
pub open spec fn xml_escaped(s: Seq<char>) -> Seq<char> {
    flat_map_chars(s, |c: char| xml_escape_char(c))
}

/// One character escaped for a JSON string literal: `\`, `"` and newline.
pub open spec fn json_escape_char(c: char) -> Seq<char> {
    if c == '\\' {
        seq!['\\', '\\']
    } else if c == '"' {
        seq!['\\', '"']
    } else if c == '\n' {
        seq!['\\', 'n']
    } else {
        seq![c]
    }
}

/// Backslashes, double quotes and newlines escaped for a JSON string literal.
pub open spec fn json_escaped(s: Seq<char>) -> Seq<char> {
    flat_map_chars(s, |c: char| json_escape_char(c))
}

/// The decimal digit for `d < 10`.
pub open spec fn digit_char(d: nat) -> char {
    if d == 0 {
        '0'
    } else if d == 1 {
        '1'
    } else if d == 2 {
        '2'
    } else if d == 3 {
        '3'
    } else if d == 4 {
        '4'
    } else if d == 5 {
        '5'
    } else if d == 6 {
        '6'
    } else if d == 7 {
        '7'
    } else if d == 8 {
        '8'
    } else {
        '9'
    }
}

/// The decimal representation of `n`, without leading zeros.
pub open spec fn decimal(n: nat) -> Seq<char>
    decreases n,
{
    if n < 10 {
        seq![digit_char(n)]
    } else {
        decimal(n / 10).push(digit_char(n % 10))
    }
}

/// The decimal representation of a signed integer.
pub open spec fn decimal_int(n: int) -> Seq<char> {
    if n < 0 {
        seq!['-'] + decimal((-n) as nat)
    } else {
        decimal(n as nat)
    }
}

/// The value of a sequence of ASCII digits.
pub open spec fn digits_value(d: Seq<char>) -> nat
    decreases d.len(),
{
    if d.len() == 0 {
        0
    } else {
        digits_value(d.drop_last()) * 10 + ((d.last() as int - '0' as int) as nat)
    }
}

/// All characters of `d` are ASCII digits.
pub open spec fn all_digits(d: Seq<char>) -> bool {
    forall|i: int| 0 <= i < d.len() ==> is_digit(#[trigger] d[i])
}

/// The integer that `str::parse` reads from `s` for an integer type whose range is
/// `[lo, hi]`: an optional `+` (or `-` for signed types), then one or more ASCII digits.
pub open spec fn parse_int(s: Seq<char>, lo: int, hi: int) -> Option<int> {
    let signed = lo < 0;
    if s.len() == 0 {
        None
    } else if (s[0] == '+' || s[0] == '-') && s.len() == 1 {
        None
    } else {
        let neg = s[0] == '-' && signed;
        let d = if s[0] == '+' || neg {
            s.drop_first()
        } else {
            s
        };
        let v: int = if neg {
            -(digits_value(d) as int)
        } else {
            digits_value(d) as int
        };
        if all_digits(d) && lo <= v <= hi {
            Some(v)
        } else {
            None
        }
    }
}

/// The pieces of `s` between occurrences of `c`, as `str::split` with a `char` pattern
/// yields them: one piece more than there are occurrences, empty pieces included.
pub open spec fn split_char(s: Seq<char>, c: char) -> Seq<Seq<char>>
    decreases s.len(),
{
    if s.len() == 0 {
        seq![Seq::<char>::empty()]
    } else {
        let rest = split_char(s.drop_last(), c);
        if s.last() == c {
            rest.push(Seq::<char>::empty())
        } else {
            rest.update(rest.len() - 1, rest.last().push(s.last()))
        }
    }
}

/// Appending text without the separator only extends the last piece.
pub(crate) proof fn lemma_split_char_extend(x: Seq<char>, b: Seq<char>, c: char)
    requires
        forall|i: int| 0 <= i < b.len() ==> b[i] != c,
    ensures
        split_char(x + b, c) == split_char(x, c).update(
            split_char(x, c).len() - 1,
            split_char(x, c).last() + b,
        ),
        split_char(x, c).len() > 0,
    decreases b.len(),
{
    lemma_split_char_nonempty(x, c);
    if b.len() == 0 {
        assert(x + b =~= x);
        assert(split_char(x, c).last() + b =~= split_char(x, c).last());
        assert(split_char(x, c).update(split_char(x, c).len() - 1, split_char(x, c).last())
            =~= split_char(x, c));
    } else {
        let b1 = b.drop_last();
        lemma_split_char_extend(x, b1, c);
        assert((x + b).drop_last() =~= x + b1);
        assert((x + b).last() == b.last());
        let rest = split_char(x + b1, c);
        assert(rest.last() == split_char(x, c).last() + b1);
        assert(rest.last().push(b.last()) =~= split_char(x, c).last() + b);
        assert(split_char(x + b, c) =~= split_char(x, c).update(
            split_char(x, c).len() - 1,
            split_char(x, c).last() + b,
        ));
    }
}

pub(crate) proof fn lemma_split_char_nonempty(x: Seq<char>, c: char)
    ensures
        split_char(x, c).len() > 0,
    decreases x.len(),
{
    if x.len() > 0 {
        lemma_split_char_nonempty(x.drop_last(), c);
    }
}

/// What `str::strip_prefix` gives: the rest of `s` after `p`, where `s` begins with `p`.
pub open spec fn strip_prefix(s: Seq<char>, p: Seq<char>) -> Option<Seq<char>> {
    if starts_with(s, p) {
        Some(s.skip(p.len() as int))
    } else {
        None
    }
}

/// An optional `String` as optional characters.
pub open spec fn opt_view(o: Option<String>) -> Option<Seq<char>> {
    match o {
        Some(s) => Some(s@),
        None => None,
    }
}

/// `s` from index `from` on with every non-overlapping occurrence of the non-empty
/// pattern `p` replaced by `r`, scanning left to right, as `str::replace` does.
pub open spec fn replace_from(s: Seq<char>, p: Seq<char>, r: Seq<char>, from: int) -> Seq<char>
    decreases s.len() - from,
{
    if p.len() == 0 || from < 0 || from > s.len() {
        s.skip(from)
    } else {
        match first_match_from(s, p, from) {
            None => s.skip(from),
            Some(i) => if i < from || i + p.len() > s.len() {
                s.skip(from)
            } else {
                s.subrange(from, i) + r + replace_from(s, p, r, i + p.len())
            },
        }
    }
}

/// `s` with every occurrence of the non-empty pattern `p` replaced by `r`.
pub open spec fn replace_all(s: Seq<char>, p: Seq<char>, r: Seq<char>) -> Seq<char> {
    replace_from(s, p, r, 0)
}

/// An optional `usize` as an optional integer.
pub open spec fn opt_usize(o: Option<usize>) -> Option<int> {
    match o {
        Some(v) => Some(v as int),
        None => None,
    }
}

/// An optional `u64` as an optional integer.
pub open spec fn opt_u64(o: Option<u64>) -> Option<int> {
    match o {
        Some(v) => Some(v as int),
        None => None,
    }
}

/// An optional `i64` as an optional integer.
pub open spec fn opt_i64(o: Option<i64>) -> Option<int> {
    match o {
        Some(v) => Some(v as int),
        None => None,
    }
}

/// An optional `u16` as an optional integer.
pub open spec fn opt_u16(o: Option<u16>) -> Option<int> {
    match o {
        Some(v) => Some(v as int),
        None => None,
    }
}

// ── Lemmas ───────────────────────────────────────────────────────────

pub proof fn lemma_flat_map_push(s: Seq<char>, c: char, f: spec_fn(char) -> Seq<char>)
    ensures
        flat_map_chars(s.push(c), f) == flat_map_chars(s, f) + f(c),
{
    assert(s.push(c).drop_last() =~= s);
}

pub proof fn lemma_take_push(s: Seq<char>, i: int)
    requires
        0 <= i < s.len(),
    ensures
        s.take(i + 1) == s.take(i).push(s[i]),
{
    assert(s.take(i + 1) =~= s.take(i).push(s[i]));
}

proof fn lemma_digits_value_monotone(d: Seq<char>, i: int)
    requires
        0 <= i <= d.len(),
    ensures
        digits_value(d.take(i)) <= digits_value(d),
    decreases d.len() - i,
{
    if i < d.len() {
        lemma_digits_value_monotone(d, i + 1);
        assert(d.take(i + 1).drop_last() =~= d.take(i));
    } else {
        assert(d.take(i) =~= d);
    }
}

pub(crate) proof fn lemma_decimal_digits(n: nat)
    ensures
        decimal(n).len() > 0,
        all_digits(decimal(n)),
        digits_value(decimal(n)) == n,
    decreases n,
{
    let m = n % 10;
    assert(digit_char(m) as int - '0' as int == m);
    if n < 10 {
        let d = decimal(n);
        assert(d.drop_last() =~= Seq::<char>::empty());
        assert(digits_value(d.drop_last()) == 0);
        assert(m == n);
        assert(d.last() == digit_char(n));
    } else {
        lemma_decimal_digits(n / 10);
        let d = decimal(n);
        assert(d.drop_last() =~= decimal(n / 10));
        assert(d.last() == digit_char(n % 10));
        assert forall|i: int| 0 <= i < d.len() implies is_digit(#[trigger] d[i]) by {
            if i < d.len() - 1 {
                assert(d[i] == decimal(n / 10)[i]);
            }
        }
        assert((n / 10) * 10 + n % 10 == n) by (nonlinear_arith);
        assert(digits_value(d) == digits_value(d.drop_last()) * 10 + ((d.last() as int - '0' as int) as nat));
        assert(digits_value(d.drop_last()) == n / 10);
    }
}

/// Printing an integer in decimal and reading it back with `str::parse` gives the
/// integer, for every integer in the range of the type it is read as.
pub proof fn decimal_parses_back(n: int, lo: int, hi: int)
    requires
        lo <= n <= hi,
    ensures
        parse_int(decimal_int(n), lo, hi) == Some(n),
{
    if n < 0 {
        lemma_decimal_digits((-n) as nat);
        let s = decimal_int(n);
        assert(s.drop_first() =~= decimal((-n) as nat));
    } else {
        lemma_decimal_digits(n as nat);
    }
}

// ── Executable character-sequence helpers ───────────────────────────

/// `String::push` appends one character to the end of the string.
pub assume_specification[ String::push ](s: &mut String, ch: char)
    ensures
        final(s)@ == old(s)@.push(ch),
;

/// The characters of `s`, in order, as a vector.
pub fn chars_of(s: &str) -> (v: Vec<char>)
    ensures
        v@ == s@,
{
    let mut v: Vec<char> = Vec::new();
    for c in it: s.chars()
        invariant
            v@ == it.seq().take(it.index() as int),
    {
        v.push(c);
    }
    v
}

/// Builds a `String` from the characters of `v` in `[from, to)`.
pub fn string_of_range(v: &Vec<char>, from: usize, to: usize) -> (s: String)
    requires
        from <= to <= v.len(),
    ensures
        s@ == v@.subrange(from as int, to as int),
{
    let mut s = String::new();
    let mut i: usize = from;
    while i < to
        invariant
            from <= i <= to <= v.len(),
            s@ == v@.subrange(from as int, i as int),
        decreases to - i,
    {
        s.push(v[i]);
        i = i + 1;
        assert(v@.subrange(from as int, i as int) =~= v@.subrange(from as int, i - 1).push(
            v@[i - 1],
        ));
    }
    s
}

/// A new `String` equal to `s`.
pub fn owned(s: &str) -> (r: String)
    ensures
        r@ == s@,
{
    s.to_owned()
}

/// Appends `t` to `s`.
pub fn push_str(s: &mut String, t: &str)
    ensures
        final(s)@ == old(s)@ + t@,
{
    s.append(t);
}

/// Whether `n` occurs in `h` at index `i`.
pub fn vec_matches_at(h: &Vec<char>, n: &Vec<char>, i: usize) -> (r: bool)
    ensures
        r == matches_at(h@, n@, i as int),
{
    if i > h.len() || n.len() > h.len() - i {
        return false;
    }
    let mut k: usize = 0;
    while k < n.len()
        invariant
            i + n.len() <= h.len(),
            k <= n.len(),
            forall|j: int| 0 <= j < k ==> h@[i + j] == n@[j],
        decreases n.len() - k,
    {
        if h[i + k] != n[k] {
            assert(h@.subrange(i as int, i + n.len())[k as int] != n@[k as int]);
            return false;
        }
        k = k + 1;
    }
    assert(h@.subrange(i as int, i + n.len()) =~= n@);
    true
}

/// The first index at or after `from` where `n` occurs in `h`.
pub fn vec_find_from(h: &Vec<char>, n: &Vec<char>, from: usize) -> (r: Option<usize>)
    ensures
        opt_usize(r) == first_match_from(h@, n@, from as int),
{
    let mut i = from;
    if i > h.len() || n.len() > h.len() - i {
        return None;
    }
    if n.len() == 0 {
        assert(h@.subrange(i as int, i as int) =~= n@);
        return Some(i);
    }
    while n.len() <= h.len() - i
        invariant
            n.len() > 0,
            from <= i,
            i <= h.len(),
            first_match_from(h@, n@, from as int) == first_match_from(h@, n@, i as int),
        decreases h.len() - i,
    {
        if vec_matches_at(h, n, i) {
            return Some(i);
        }
        i = i + 1;
    }
    None
}

/// Whether `n` occurs anywhere in `h`.
pub fn vec_contains(h: &Vec<char>, n: &Vec<char>) -> (r: bool)
    ensures
        r == contains(h@, n@),
{
    let found = vec_find_from(h, n, 0);
    proof {
        lemma_first_match_from_contains(h@, n@, 0);
    }
    found.is_some()
}

/// `first_match_from` finds a match exactly when one exists at or after `from`.
pub proof fn lemma_first_match_from_contains(h: Seq<char>, n: Seq<char>, from: int)
    requires
        0 <= from,
    ensures
        first_match_from(h, n, from) is Some <==> exists|i: int|
            from <= i && #[trigger] matches_at(h, n, i),
        first_match_from(h, n, from) matches Some(i) ==> from <= i && matches_at(h, n, i) && (
        forall|j: int| from <= j < i ==> !matches_at(h, n, j)),
    decreases h.len() + 1 - from,
{
    if from + n.len() > h.len() {
        assert forall|i: int| from <= i implies !#[trigger] matches_at(h, n, i) by {}
    } else if matches_at(h, n, from) {
    } else {
        lemma_first_match_from_contains(h, n, from + 1);
        assert forall|i: int| from <= i && #[trigger] matches_at(h, n, i) implies from + 1
            <= i by {}
    }
}

/// Whether `n` occurs in `h`.
pub fn str_contains(h: &str, n: &str) -> (r: bool)
    ensures
        r == contains(h@, n@),
{
    let hv = chars_of(h);
    let nv = chars_of(n);
    vec_contains(&hv, &nv)
}

/// Whether `h` begins with `n`.
pub fn str_starts_with(h: &str, n: &str) -> (r: bool)
    ensures
        r == starts_with(h@, n@),
{
    let hv = chars_of(h);
    let nv = chars_of(n);
    let r = vec_matches_at(&hv, &nv, 0);
    proof {
        if n@.len() <= h@.len() {
            assert(h@.subrange(0, n@.len() as int) =~= h@.take(n@.len() as int));
        }
    }
    r
}

/// Whether `h` ends with `n`.
pub fn str_ends_with(h: &str, n: &str) -> (r: bool)
    ensures
        r == ends_with(h@, n@),
{
    let hv = chars_of(h);
    let nv = chars_of(n);
    if nv.len() > hv.len() {
        return false;
    }
    let r = vec_matches_at(&hv, &nv, hv.len() - nv.len());
    proof {
        assert(h@.subrange(h@.len() - n@.len(), h@.len() as int) =~= h@.skip(
            h@.len() - n@.len(),
        ));
    }
    r
}

/// Whether `a` and `b` hold the same characters.
pub fn str_eq(a: &str, b: &str) -> (r: bool)
    ensures
        r == (a@ == b@),
{
    let av = chars_of(a);
    let bv = chars_of(b);
    if av.len() != bv.len() {
        return false;
    }
    let r = vec_matches_at(&av, &bv, 0);
    proof {
        assert(a@.subrange(0, b@.len() as int) =~= a@);
    }
    r
}

/// Splits `s` at every `c`, as `str::split` does.
pub fn split_str(s: &str, c: char) -> (r: Vec<String>)
    ensures
        r@.map_values(|p: String| p@) == split_char(s@, c),
        r@.len() >= 1,
{
    let v = chars_of(s);
    let mut parts: Vec<String> = Vec::new();
    let mut cur = String::new();
    let mut i: usize = 0;
    proof {
        assert(v@.take(0) =~= Seq::<char>::empty());
        assert(parts@.map_values(|p: String| p@).push(cur@) =~= seq![Seq::<char>::empty()]);
    }
    while i < v.len()
        invariant
            i <= v.len(),
            v@ == s@,
            split_char(v@.take(i as int), c) == parts@.map_values(|p: String| p@).push(cur@),
        decreases v.len() - i,
    {
        let ch = v[i];
        let ghost old_parts = parts@.map_values(|p: String| p@);
        let ghost old_cur = cur@;
        proof {
            assert(v@.take(i + 1).drop_last() =~= v@.take(i as int));
            assert(v@.take(i + 1).last() == ch);
        }
        if ch == c {
            let done = cur;
            parts.push(done);
            cur = String::new();
            proof {
                assert(parts@.map_values(|p: String| p@) =~= old_parts.push(old_cur));
            }
        } else {
            cur.push(ch);
            proof {
                assert(old_parts.push(old_cur).update(old_parts.len() as int, old_cur.push(ch))
                    =~= old_parts.push(cur@));
            }
        }
        i = i + 1;
    }
    proof {
        assert(v@.take(v@.len() as int) =~= v@);
    }
    let ghost before = parts@.map_values(|p: String| p@);
    parts.push(cur);
    proof {
        assert(parts@.map_values(|p: String| p@) =~= before.push(cur@));
    }
    parts
}

/// `s` without its first `n` characters.
pub fn skip_chars(s: &str, n: usize) -> (r: String)
    requires
        n <= s@.len(),
    ensures
        r@ == s@.skip(n as int),
{
    let v = chars_of(s);
    let r = string_of_range(&v, n, v.len());
    proof {
        assert(v@.subrange(n as int, v@.len() as int) =~= s@.skip(n as int));
    }
    r
}

/// The rest of `s` after `p`, as `str::strip_prefix` gives it.
pub fn strip_prefix_str(s: &str, p: &str) -> (r: Option<String>)
    ensures
        opt_view(r) == strip_prefix(s@, p@),
{
    if str_starts_with(s, p) {
        let n = chars_of(p).len();
        Some(skip_chars(s, n))
    } else {
        None
    }
}

/// The bytes of `a` followed by those of `b`.
pub fn concat_bytes(a: &[u8], b: &[u8]) -> (r: Vec<u8>)
    ensures
        r@ == a@ + b@,
{
    let mut r: Vec<u8> = Vec::new();
    let mut i: usize = 0;
    while i < a.len()
        invariant
            i <= a.len(),
            r@ == a@.take(i as int),
        decreases a.len() - i,
    {
        r.push(a[i]);
        i = i + 1;
        proof {
            assert(r@ =~= a@.take(i as int));
        }
    }
    let mut j: usize = 0;
    while j < b.len()
        invariant
            i == a.len(),
            j <= b.len(),
            r@ == a@ + b@.take(j as int),
        decreases b.len() - j,
    {
        r.push(b[j]);
        j = j + 1;
        proof {
            assert(r@ =~= a@ + b@.take(j as int));
        }
    }
    proof {
        assert(b@.take(b@.len() as int) =~= b@);
        assert(a@.take(a@.len() as int) =~= a@);
    }
    r
}

/// `s` with every occurrence of the non-empty pattern `p` replaced by `r`, as
/// `str::replace` does.
pub fn str_replace(s: &str, p: &str, r: &str) -> (out: String)
    requires
        p@.len() > 0,
    ensures
        out@ == replace_all(s@, p@, r@),
{
    let v = chars_of(s);
    let pv = chars_of(p);
    let mut out = String::new();
    let mut from: usize = 0;
    let mut done = false;
    while !done
        invariant
            from <= v.len(),
            v@ == s@,
            pv@ == p@,
            pv@.len() > 0,
            !done ==> replace_all(s@, p@, r@) == out@ + replace_from(s@, p@, r@, from as int),
            done ==> replace_all(s@, p@, r@) == out@,
        decreases v.len() - from + (if done { 0int } else { 1int }),
    {
        match vec_find_from(&v, &pv, from) {
            None => {
                let tail = string_of_range(&v, from, v.len());
                push_str(&mut out, tail.as_str());
                proof {
                    assert(v@.subrange(from as int, v@.len() as int) =~= v@.skip(from as int));
                }
                done = true;
            },
            Some(i) => {
                proof {
                    lemma_first_match_from_contains(v@, pv@, from as int);
                }
                let head = string_of_range(&v, from, i);
                push_str(&mut out, head.as_str());
                push_str(&mut out, r);
                from = i + pv.len();
            },
        }
    }
    out
}

/// Whether `c` is whitespace, as `char::is_whitespace` decides it.
pub fn char_is_whitespace(c: char) -> (r: bool)
    ensures
        r == is_ws(c),
{
    let u = c as u32;
    (0x09 <= u && u <= 0x0d) || u == 0x20 || u == 0x85 || u == 0xa0 || u == 0x1680 || (0x2000
        <= u && u <= 0x200a) || u == 0x2028 || u == 0x2029 || u == 0x202f || u == 0x205f || u
        == 0x3000
}

proof fn lemma_leading_ws(s: Seq<char>, i: int)
    requires
        0 <= i <= s.len(),
        forall|j: int| 0 <= j < i ==> is_ws(#[trigger] s[j]),
        i == s.len() || !is_ws(s[i]),
    ensures
        leading_ws(s) == i,
    decreases i,
{
    if i > 0 {
        lemma_leading_ws(s.drop_first(), i - 1);
    }
}

proof fn lemma_trailing_ws(s: Seq<char>, i: int)
    requires
        0 <= i <= s.len(),
        forall|j: int| s.len() - i <= j < s.len() ==> is_ws(#[trigger] s[j]),
        i == s.len() || !is_ws(s[s.len() - i - 1]),
    ensures
        trailing_ws(s) == i,
    decreases i,
{
    if i > 0 {
        lemma_trailing_ws(s.drop_last(), i - 1);
    }
}

/// `s` without leading and trailing whitespace.
pub fn str_trim(s: &str) -> (r: String)
    ensures
        r@ == trim(s@),
{
    let v = chars_of(s);
    let mut a: usize = 0;
    while a < v.len() && char_is_whitespace(v[a])
        invariant
            a <= v.len(),
            forall|j: int| 0 <= j < a ==> is_ws(#[trigger] v@[j]),
        decreases v.len() - a,
    {
        a = a + 1;
    }
    proof {
        lemma_leading_ws(v@, a as int);
    }
    let mut b: usize = v.len();
    while b > a && char_is_whitespace(v[b - 1])
        invariant
            a <= b <= v.len(),
            forall|j: int| b <= j < v.len() ==> is_ws(#[trigger] v@[j]),
        decreases b,
    {
        b = b - 1;
    }
    proof {
        let t = v@.skip(a as int);
        assert forall|j: int| t.len() - (v.len() - b) <= j < t.len() implies is_ws(
            #[trigger] t[j],
        ) by {
            assert(t[j] == v@[j + a]);
        }
        if b > a {
            assert(t[t.len() - (v.len() - b) - 1] == v@[b - 1]);
        }
        lemma_trailing_ws(t, (v.len() - b) as int);
        assert(t.take(t.len() - (v.len() - b)) =~= v@.subrange(a as int, b as int));
    }
    string_of_range(&v, a, b)
}

/// `s` without trailing `c` characters.
pub fn str_trim_end_char(s: &str, c: char) -> (r: String)
    ensures
        r@ == trim_end_char(s@, c),
{
    let v = chars_of(s);
    let mut b: usize = v.len();
    assert(v@.take(v.len() as int) =~= v@);
    while b > 0 && v[b - 1] == c
        invariant
            b <= v.len(),
            trim_end_char(v@, c) == trim_end_char(v@.take(b as int), c),
        decreases b,
    {
        assert(v@.take(b as int).drop_last() =~= v@.take(b - 1));
        b = b - 1;
    }
    proof {
        assert(v@.take(b as int) =~= v@.subrange(0, b as int));
    }
    string_of_range(&v, 0, b)
}

/// `s` without leading `c` characters.
pub fn str_trim_start_char(s: &str, c: char) -> (r: String)
    ensures
        r@ == trim_start_char(s@, c),
{
    let v = chars_of(s);
    let mut a: usize = 0;
    assert(v@.skip(0) =~= v@);
    while a < v.len() && v[a] == c
        invariant
            a <= v.len(),
            trim_start_char(v@, c) == trim_start_char(v@.skip(a as int), c),
        decreases v.len() - a,
    {
        assert(v@.skip(a as int).drop_first() =~= v@.skip(a + 1));
        a = a + 1;
    }
    proof {
        assert(v@.skip(a as int) =~= v@.subrange(a as int, v.len() as int));
    }
    string_of_range(&v, a, v.len())
}

/// Appends `f(c)` for each character of `s` to a new string, for the escapes below.
fn escape_with(s: &str, which: u8) -> (r: String)
    requires
        which <= 2,
    ensures
        which == 0 ==> r@ == html_escaped(s@),
        which == 1 ==> r@ == xml_escaped(s@),
        which == 2 ==> r@ == json_escaped(s@),
{
    let v = chars_of(s);
    let mut out = String::new();
    let mut i: usize = 0;
    while i < v.len()
        invariant
            i <= v.len(),
            which <= 2,
            which == 0 ==> out@ == html_escaped(v@.take(i as int)),
            which == 1 ==> out@ == xml_escaped(v@.take(i as int)),
            which == 2 ==> out@ == json_escaped(v@.take(i as int)),
        decreases v.len() - i,
    {
        let c = v[i];
        proof {
            lemma_take_push(v@, i as int);
            lemma_flat_map_push(v@.take(i as int), c, |c: char| html_escape_char(c));
            lemma_flat_map_push(v@.take(i as int), c, |c: char| xml_escape_char(c));
            lemma_flat_map_push(v@.take(i as int), c, |c: char| json_escape_char(c));
            reveal_strlit("&amp;");
            reveal_strlit("&lt;");
            reveal_strlit("&gt;");
            reveal_strlit("&quot;");
            reveal_strlit("&apos;");
            reveal_strlit("\\\\");
            reveal_strlit("\\\"");
            reveal_strlit("\\n");
        }
        if which == 2 {
            if c == '\\' {
                out.append("\\\\");
            } else if c == '"' {
                out.append("\\\"");
            } else if c == '\n' {
                out.append("\\n");
            } else {
                out.push(c);
            }
        } else if c == '&' {
            out.append("&amp;");
        } else if c == '<' {
            out.append("&lt;");
        } else if c == '>' {
            out.append("&gt;");
        } else if c == '"' {
            out.append("&quot;");
        } else if c == '\'' && which == 1 {
            out.append("&apos;");
        } else {
            out.push(c);
        }
        i = i + 1;
    }
    proof {
        assert(v@.take(v.len() as int) =~= v@);
    }
    out
}

/// `s` with `&`, `<`, `>` and `"` replaced by HTML entities.
pub fn html_escape(s: &str) -> (r: String)
    ensures
        r@ == html_escaped(s@),
{
    escape_with(s, 0)
}

/// `s` with `&`, `<`, `>`, `"` and `'` replaced by XML entities.
pub fn xml_escape(s: &str) -> (r: String)
    ensures
        r@ == xml_escaped(s@),
{
    escape_with(s, 1)
}

/// `s` with backslashes, double quotes and newlines escaped for a JSON string.
pub fn json_escape(s: &str) -> (r: String)
    ensures
        r@ == json_escaped(s@),
{
    escape_with(s, 2)
}

fn digit(d: usize) -> (c: char)
    requires
        d < 10,
    ensures
        c == digit_char(d as nat),
{
    if d == 0 {
        '0'
    } else if d == 1 {
        '1'
    } else if d == 2 {
        '2'
    } else if d == 3 {
        '3'
    } else if d == 4 {
        '4'
    } else if d == 5 {
        '5'
    } else if d == 6 {
        '6'
    } else if d == 7 {
        '7'
    } else if d == 8 {
        '8'
    } else {
        '9'
    }
}

/// The decimal representation of `n`.
pub fn usize_to_decimal(n: usize) -> (s: String)
    ensures
        s@ == decimal(n as nat),
    decreases n,
{
    if n < 10 {
        let mut s = String::new();
        s.push(digit(n));
        s
    } else {
        let mut s = usize_to_decimal(n / 10);
        s.push(digit(n % 10));
        s
    }
}

/// The decimal representation of `n`.
pub fn u64_to_decimal(n: u64) -> (s: String)
    ensures
        s@ == decimal(n as nat),
    decreases n,
{
    if n < 10 {
        let mut s = String::new();
        s.push(digit(n as usize));
        s
    } else {
        let mut s = u64_to_decimal(n / 10);
        s.push(digit((n % 10) as usize));
        s
    }
}

/// The decimal representation of a signed `n`.
pub fn i64_to_decimal(n: i64) -> (s: String)
    ensures
        s@ == decimal_int(n as int),
{
    if n < 0 {
        let m: u64 = if n == i64::MIN {
            9223372036854775808u64
        } else {
            (-n) as u64
        };
        let mut s = String::new();
        s.push('-');
        let d = u64_to_decimal(m);
        s.append(d.as_str());
        assert(s@ =~= seq!['-'] + decimal((-n) as nat));
        s
    } else {
        u64_to_decimal(n as u64)
    }
}

/// Reads the ASCII digits `d[start..]` as a number no larger than `max`.
fn parse_digits(d: &Vec<char>, start: usize, max: u64) -> (r: Option<u64>)
    requires
        start <= d.len(),
        max >= 9,
    ensures
        ({
            let ds = d@.skip(start as int);
            match r {
                Some(v) => all_digits(ds) && v == digits_value(ds) && v <= max,
                None => !all_digits(ds) || digits_value(ds) > max,
            }
        }),
{
    let ghost ds = d@.skip(start as int);
    let mut v: u64 = 0;
    let mut i: usize = start;
    while i < d.len()
        invariant
            start <= i <= d.len(),
            ds == d@.skip(start as int),
            all_digits(ds.take(i - start)),
            v == digits_value(ds.take(i - start)),
            v <= max,
            max >= 9,
        decreases d.len() - i,
    {
        let c = d[i];
        proof {
            assert(ds.take(i + 1 - start).drop_last() =~= ds.take(i - start));
            assert(ds[i - start] == c);
        }
        if !('0' <= c && c <= '9') {
            proof {
                assert(!is_digit(ds[i - start]));
            }
            return None;
        }
        let dv = (c as u32 - '0' as u32) as u64;
        if v > (max - dv) / 10 {
            proof {
                assert(v * 10 + dv > max) by (nonlinear_arith)
                    requires
                        v > (max - dv) / 10,
                        dv <= 9,
                        dv <= max || v >= 1,
                ;
                lemma_digits_value_monotone(ds, i + 1 - start);
            }
            return None;
        }
        proof {
            assert(v * 10 + dv <= max) by (nonlinear_arith)
                requires
                    v <= (max - dv) / 10,
                    dv <= max,
            ;
            assert forall|j: int| 0 <= j < ds.take(i + 1 - start).len() implies is_digit(
                #[trigger] ds.take(i + 1 - start)[j],
            ) by {
                if j < i - start {
                    assert(ds.take(i + 1 - start)[j] == ds.take(i - start)[j]);
                }
            }
        }
        v = v * 10 + dv;
        i = i + 1;
    }
    proof {
        assert(ds.take(i - start) =~= ds);
    }
    Some(v)
}

/// Reads `s` as `str::parse::<u64>()` does.
pub fn parse_u64(s: &str) -> (r: Option<u64>)
    ensures
        opt_u64(r) == parse_int(s@, 0, u64::MAX as int),
{
    let v = chars_of(s);
    if v.len() == 0 {
        return None;
    }
    if (v[0] == '+' || v[0] == '-') && v.len() == 1 {
        return None;
    }
    let start: usize = if v[0] == '+' {
        1
    } else {
        0
    };
    let r = parse_digits(&v, start, u64::MAX);
    proof {
        if start == 0 {
            assert(v@.skip(0) =~= v@);
        } else {
            assert(v@.skip(1) =~= v@.drop_first());
        }
    }
    r
}

/// Reads `s` as `str::parse::<i64>()` does.
pub fn parse_i64(s: &str) -> (r: Option<i64>)
    ensures
        opt_i64(r) == parse_int(s@, i64::MIN as int, i64::MAX as int),
{
    let v = chars_of(s);
    if v.len() == 0 {
        return None;
    }
    if (v[0] == '+' || v[0] == '-') && v.len() == 1 {
        return None;
    }
    let neg = v[0] == '-';
    let start: usize = if v[0] == '+' || neg {
        1
    } else {
        0
    };
    proof {
        if start == 0 {
            assert(v@.skip(0) =~= v@);
        } else {
            assert(v@.skip(1) =~= v@.drop_first());
        }
    }
    if neg {
        match parse_digits(&v, start, 9223372036854775808u64) {
            Some(m) => {
                if m == 9223372036854775808u64 {
                    Some(i64::MIN)
                } else {
                    Some(-(m as i64))
                }
            },
            None => None,
        }
    } else {
        match parse_digits(&v, start, 9223372036854775807u64) {
            Some(m) => Some(m as i64),
            None => None,
        }
    }
}

/// Reads `s` as `str::parse::<u16>()` does.
pub fn parse_u16(s: &str) -> (r: Option<u16>)
    ensures
        opt_u16(r) == parse_int(s@, 0, u16::MAX as int),
{
    let v = chars_of(s);
    if v.len() == 0 {
        return None;
    }
    if (v[0] == '+' || v[0] == '-') && v.len() == 1 {
        return None;
    }
    let start: usize = if v[0] == '+' {
        1
    } else {
        0
    };
    let r = parse_digits(&v, start, 65535);
    proof {
        if start == 0 {
            assert(v@.skip(0) =~= v@);
        } else {
            assert(v@.skip(1) =~= v@.drop_first());
        }
    }
    match r {
        Some(x) => Some(x as u16),
        None => None,
    }
}

// ── Case mapping (Unicode, by std) ──────────────────────────────────

/// What `str::to_lowercase` returns for `s`: the Unicode lowercase mapping.
pub uninterp spec fn lowercase(s: Seq<char>) -> Seq<char>;

/// What `str::to_uppercase` returns for `s`: the Unicode uppercase mapping.
pub uninterp spec fn uppercase(s: Seq<char>) -> Seq<char>;

/// Calls `str::to_lowercase`; the result is `lowercase` of the characters of `s`,
/// a function of `s` alone.
#[verifier::external_body]
pub(crate) fn to_lowercase(s: &str) -> (r: String)
    ensures
        r@ == lowercase(s@),
{
    s.to_lowercase()
}

/// Calls `str::to_uppercase`; the result is `uppercase` of the characters of `s`,
/// a function of `s` alone.
#[verifier::external_body]
pub(crate) fn to_uppercase(s: &str) -> (r: String)
    ensures
        r@ == uppercase(s@),
{
    s.to_uppercase()
}

/// Text escaped for HTML holds no raw `<`, `>` or `"`.
pub proof fn html_escaped_has_no_markup(s: Seq<char>)
    ensures
        forall|i: int|
            0 <= i < html_escaped(s).len() ==> (#[trigger] html_escaped(s)[i]) != '<'
                && html_escaped(s)[i] != '>' && html_escaped(s)[i] != '"',
    decreases s.len(),
{
    if s.len() > 0 {
        html_escaped_has_no_markup(s.drop_last());
        let prev = html_escaped(s.drop_last());
        let tail = html_escape_char(s.last());
        assert(html_escaped(s) == prev + tail);
        assert forall|i: int| 0 <= i < html_escaped(s).len() implies (#[trigger] html_escaped(
            s,
        )[i]) != '<' && html_escaped(s)[i] != '>' && html_escaped(s)[i] != '"' by {
            if i < prev.len() {
                assert(html_escaped(s)[i] == prev[i]);
            } else {
                assert(html_escaped(s)[i] == tail[i - prev.len()]);
            }
        }
    }
}

/// Text escaped for XML holds no raw `<`, `>`, `"` or `'`.
pub proof fn xml_escaped_has_no_markup(s: Seq<char>)
    ensures
        forall|i: int|
            0 <= i < xml_escaped(s).len() ==> (#[trigger] xml_escaped(s)[i]) != '<'
                && xml_escaped(s)[i] != '>' && xml_escaped(s)[i] != '"' && xml_escaped(s)[i]
                != '\'',
    decreases s.len(),
{
    if s.len() > 0 {
        xml_escaped_has_no_markup(s.drop_last());
        let prev = xml_escaped(s.drop_last());
        let tail = xml_escape_char(s.last());
        assert(xml_escaped(s) == prev + tail);
        assert forall|i: int| 0 <= i < xml_escaped(s).len() implies (#[trigger] xml_escaped(
            s,
        )[i]) != '<' && xml_escaped(s)[i] != '>' && xml_escaped(s)[i] != '"' && xml_escaped(s)[i]
            != '\'' by {
            if i < prev.len() {
                assert(xml_escaped(s)[i] == prev[i]);
            } else {
                assert(xml_escaped(s)[i] == tail[i - prev.len()]);
            }
        }
    }
}

/// Text without special characters passes through JSON escaping unchanged.
pub proof fn json_escape_keeps_plain_text(s: Seq<char>)
    requires
        forall|i: int| 0 <= i < s.len() ==> (#[trigger] s[i]) != '\\' && s[i] != '"' && s[i] != '\n',
    ensures
        json_escaped(s) == s,
    decreases s.len(),
{
    if s.len() > 0 {
        json_escape_keeps_plain_text(s.drop_last());
        assert(s.drop_last().push(s.last()) =~= s);
    }
}

} // verus!
