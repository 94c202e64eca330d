use vstd::prelude::*;
use crate::commerce::{hex_encode, hex_lower, lemma_hex_lower_len, random_bytes};
use crate::text::{parse_int, str_eq, str_starts_with, starts_with, owned, parse_i64};

verus! {

/// The site settings: a map from setting names to their values, as stored by the
/// settings table. A later `insert` of a name replaces what an earlier one gave it.
pub struct Settings {
    entries: Vec<(String, String)>,
}

/// The value that the last pair named `k` gives, if any pair is named `k`.
pub open spec fn lookup(pairs: Seq<(Seq<char>, Seq<char>)>, k: Seq<char>) -> Option<Seq<char>>
    decreases pairs.len(),
{
    if pairs.len() == 0 {
        None
    } else if pairs.last().0 == k {
        Some(pairs.last().1)
    } else {
        lookup(pairs.drop_last(), k)
    }
}

/// The value that the map `m` gives to `k`, if any.
pub open spec fn value_of(m: Map<Seq<char>, Seq<char>>, k: Seq<char>) -> Option<Seq<char>> {
    if m.contains_key(k) {
        Some(m[k])
    } else {
        None
    }
}

/// The value of `k` in `m`, or `default` where `m` has none.
pub open spec fn value_or(m: Map<Seq<char>, Seq<char>>, k: Seq<char>, default: Seq<char>) -> Seq<
    char,
> {
    if m.contains_key(k) {
        m[k]
    } else {
        default
    }
}

/// The setting `k` is present and its value is exactly `"true"`.
pub open spec fn flag_on(m: Map<Seq<char>, Seq<char>>, k: Seq<char>) -> bool {
    m.contains_key(k) && m[k] == seq!['t', 'r', 'u', 'e']
}

/// The setting `k` is present and its value is `"true"` or `"1"`.
pub open spec fn bool_setting(m: Map<Seq<char>, Seq<char>>, k: Seq<char>) -> bool {
    m.contains_key(k) && (m[k] == "true"@ || m[k] == "1"@)
}

/// The value of `k` read as an `i64`, or `default` where it is missing or not a number.
pub open spec fn i64_or(m: Map<Seq<char>, Seq<char>>, k: Seq<char>, default: int) -> int {
    if m.contains_key(k) && parse_int(m[k], i64::MIN as int, i64::MAX as int) is Some {
        parse_int(m[k], i64::MIN as int, i64::MAX as int)->0
    } else {
        default
    }
}

/// An optional `String` as an optional character sequence.
pub open spec fn opt_chars(o: Option<&String>) -> Option<Seq<char>> {
    match o {
        Some(s) => Some(s@),
        None => None,
    }
}

proof fn lemma_lookup_skip_tail(p: Seq<(Seq<char>, Seq<char>)>, k: Seq<char>, i: int)
    requires
        0 <= i <= p.len(),
        forall|j: int| i <= j < p.len() ==> (#[trigger] p[j]).0 != k,
    ensures
        lookup(p, k) == lookup(p.take(i), k),
    decreases p.len() - i,
{
    if i < p.len() {
        assert(p.drop_last().take(i) =~= p.take(i));
        lemma_lookup_skip_tail(p.drop_last(), k, i);
    } else {
        assert(p.take(i) =~= p);
    }
}

/// No name occurs twice.
pub open spec fn names_unique(p: Seq<(Seq<char>, Seq<char>)>) -> bool {
    forall|i: int, j: int| 0 <= i < j < p.len() ==> (#[trigger] p[i]).0 != (#[trigger] p[j]).0
}

/// The names that some pair has.
pub open spec fn name_set(p: Seq<(Seq<char>, Seq<char>)>) -> Set<Seq<char>> {
    Set::new(|k: Seq<char>| lookup(p, k) is Some)
}

/// The pairs whose names begin with `prefix`, in order.
pub open spec fn with_prefix(p: Seq<(Seq<char>, Seq<char>)>, prefix: Seq<char>) -> Seq<(Seq<char>, Seq<char>)>
    decreases p.len(),
{
    if p.len() == 0 {
        Seq::empty()
    } else if starts_with(p.last().0, prefix) {
        with_prefix(p.drop_last(), prefix).push(p.last())
    } else {
        with_prefix(p.drop_last(), prefix)
    }
}

/// `m` after setting each name of `d` to its value, in order.
pub open spec fn inserted_all(m: Map<Seq<char>, Seq<char>>, d: Seq<(Seq<char>, Seq<char>)>) -> Map<
    Seq<char>,
    Seq<char>,
>
    decreases d.len(),
{
    if d.len() == 0 {
        m
    } else {
        inserted_all(m, d.drop_last()).insert(d.last().0, d.last().1)
    }
}

proof fn lemma_unique_drop_last(p: Seq<(Seq<char>, Seq<char>)>)
    requires
        names_unique(p),
        p.len() > 0,
    ensures
        names_unique(p.drop_last()),
        forall|i: int| 0 <= i < p.len() - 1 ==> (#[trigger] p.drop_last()[i]).0 != p.last().0,
{
    assert forall|i: int, j: int| 0 <= i < j < p.drop_last().len() implies (
    #[trigger] p.drop_last()[i]).0 != (#[trigger] p.drop_last()[j]).0 by {
        assert(p.drop_last()[i] == p[i] && p.drop_last()[j] == p[j]);
    }
    assert forall|i: int| 0 <= i < p.len() - 1 implies (#[trigger] p.drop_last()[i]).0 != p.last().0 by {
        assert(p.drop_last()[i] == p[i]);
        assert(p[i].0 != p[p.len() - 1].0);
    }
}

proof fn lemma_lookup_some(p: Seq<(Seq<char>, Seq<char>)>, k: Seq<char>)
    ensures
        (lookup(p, k) is Some) == (exists|i: int| 0 <= i < p.len() && (#[trigger] p[i]).0 == k),
    decreases p.len(),
{
    if p.len() > 0 {
        lemma_lookup_some(p.drop_last(), k);
        if exists|i: int| 0 <= i < p.len() - 1 && (#[trigger] p.drop_last()[i]).0 == k {
            let i = choose|i: int| 0 <= i < p.len() - 1 && (#[trigger] p.drop_last()[i]).0 == k;
            assert(p[i] == p.drop_last()[i]);
        }
        if exists|i: int| 0 <= i < p.len() && (#[trigger] p[i]).0 == k {
            let i = choose|i: int| 0 <= i < p.len() && (#[trigger] p[i]).0 == k;
            if i < p.len() - 1 {
                assert(p.drop_last()[i] == p[i]);
            }
        }
    }
}

proof fn lemma_lookup_at(p: Seq<(Seq<char>, Seq<char>)>, i: int)
    requires
        names_unique(p),
        0 <= i < p.len(),
    ensures
        lookup(p, p[i].0) == Some(p[i].1),
    decreases p.len(),
{
    if i < p.len() - 1 {
        lemma_unique_drop_last(p);
        assert(p.drop_last()[i] == p[i]);
        lemma_lookup_at(p.drop_last(), i);
    }
}

proof fn lemma_replace_keeps_names(p: Seq<(Seq<char>, Seq<char>)>, i: int, v: Seq<char>)
    requires
        names_unique(p),
        0 <= i < p.len(),
    ensures
        names_unique(p.update(i, (p[i].0, v))),
        forall|k: Seq<char>| lookup(p.update(i, (p[i].0, v)), k) == if k == p[i].0 {
            Some(v)
        } else {
            lookup(p, k)
        },
{
    let q = p.update(i, (p[i].0, v));
    assert forall|a: int, b: int| 0 <= a < b < q.len() implies (#[trigger] q[a]).0 != (#[trigger] q[b]).0 by {
        assert(q[a].0 == p[a].0 && q[b].0 == p[b].0);
    }
    assert forall|k: Seq<char>| lookup(q, k) == if k == p[i].0 {
        Some(v)
    } else {
        lookup(p, k)
    } by {
        lemma_lookup_some(p, k);
        lemma_lookup_some(q, k);
        if k == p[i].0 {
            lemma_lookup_at(q, i);
        } else if exists|m: int| 0 <= m < p.len() && (#[trigger] p[m]).0 == k {
            let m = choose|m: int| 0 <= m < p.len() && (#[trigger] p[m]).0 == k;
            lemma_lookup_at(p, m);
            assert(q[m] == p[m]);
            lemma_lookup_at(q, m);
        } else {
            assert forall|m: int| 0 <= m < q.len() implies (#[trigger] q[m]).0 != k by {
                assert(q[m].0 == p[m].0);
            }
        }
    }
}

proof fn lemma_remove_keeps_names(p: Seq<(Seq<char>, Seq<char>)>, i: int)
    requires
        names_unique(p),
        0 <= i < p.len(),
    ensures
        names_unique(p.remove(i)),
        forall|k: Seq<char>| lookup(p.remove(i), k) == if k == p[i].0 {
            None
        } else {
            lookup(p, k)
        },
{
    let q = p.remove(i);
    assert forall|a: int, b: int| 0 <= a < b < q.len() implies (#[trigger] q[a]).0 != (#[trigger] q[b]).0 by {
        let a0 = if a < i { a } else { a + 1 };
        let b0 = if b < i { b } else { b + 1 };
        assert(q[a] == p[a0] && q[b] == p[b0]);
    }
    assert forall|k: Seq<char>| lookup(q, k) == if k == p[i].0 {
        None
    } else {
        lookup(p, k)
    } by {
        lemma_lookup_some(p, k);
        lemma_lookup_some(q, k);
        if exists|m: int| 0 <= m < q.len() && (#[trigger] q[m]).0 == k {
            let m = choose|m: int| 0 <= m < q.len() && (#[trigger] q[m]).0 == k;
            let m0 = if m < i { m } else { m + 1 };
            assert(q[m] == p[m0]);
            lemma_lookup_at(q, m);
            lemma_lookup_at(p, m0);
        } else if k != p[i].0 {
            assert forall|m: int| 0 <= m < p.len() implies (#[trigger] p[m]).0 != k by {
                if m < i {
                    assert(q[m] == p[m]);
                } else if m > i {
                    assert(q[m - 1] == p[m]);
                }
            }
        }
    }
}

proof fn lemma_lookup_with_prefix(p: Seq<(Seq<char>, Seq<char>)>, prefix: Seq<char>, k: Seq<char>)
    ensures
        lookup(with_prefix(p, prefix), k) == if starts_with(k, prefix) {
            lookup(p, k)
        } else {
            None
        },
    decreases p.len(),
{
    if p.len() > 0 {
        lemma_lookup_with_prefix(p.drop_last(), prefix, k);
        if starts_with(p.last().0, prefix) {
            let w = with_prefix(p.drop_last(), prefix).push(p.last());
            assert(w.drop_last() =~= with_prefix(p.drop_last(), prefix));
        }
    }
}

proof fn lemma_with_prefix_from(p: Seq<(Seq<char>, Seq<char>)>, prefix: Seq<char>)
    ensures
        forall|m: int| 0 <= m < with_prefix(p, prefix).len() ==> exists|i: int| 0 <= i < p.len() && #[trigger] with_prefix(p, prefix)[m] == #[trigger] p[i],
    decreases p.len(),
{
    if p.len() > 0 {
        lemma_with_prefix_from(p.drop_last(), prefix);
        let w0 = with_prefix(p.drop_last(), prefix);
        assert forall|m: int| 0 <= m < with_prefix(p, prefix).len() implies exists|i: int| 0 <= i < p.len() && #[trigger] with_prefix(p, prefix)[m] == #[trigger] p[i] by {
            if m < w0.len() {
                assert(with_prefix(p, prefix)[m] == w0[m]);
                let i = choose|i: int| 0 <= i < p.drop_last().len() && w0[m] == p.drop_last()[i];
                assert(p[i] == p.drop_last()[i]);
            } else {
                assert(with_prefix(p, prefix)[m] == p[p.len() - 1]);
            }
        }
    }
}

proof fn lemma_with_prefix_unique(p: Seq<(Seq<char>, Seq<char>)>, prefix: Seq<char>)
    requires
        names_unique(p),
    ensures
        names_unique(with_prefix(p, prefix)),
    decreases p.len(),
{
    if p.len() > 0 {
        lemma_unique_drop_last(p);
        lemma_with_prefix_unique(p.drop_last(), prefix);
        if starts_with(p.last().0, prefix) {
            let w0 = with_prefix(p.drop_last(), prefix);
            let w = w0.push(p.last());
            lemma_with_prefix_from(p.drop_last(), prefix);
            assert forall|a: int, b: int| 0 <= a < b < w.len() implies (#[trigger] w[a]).0 != (#[trigger] w[b]).0 by {
                if b < w0.len() {
                    assert(w[a] == w0[a] && w[b] == w0[b]);
                } else {
                    assert(w[a] == w0[a]);
                    let i = choose|i: int| 0 <= i < p.drop_last().len() && w0[a] == p.drop_last()[i];
                    assert(w[b] == p.last());
                }
            }
        }
    }
}

proof fn lemma_names_count(p: Seq<(Seq<char>, Seq<char>)>)
    requires
        names_unique(p),
    ensures
        name_set(p).finite(),
        name_set(p).len() == p.len(),
    decreases p.len(),
{
    if p.len() == 0 {
        assert(name_set(p) =~= Set::<Seq<char>>::empty());
    } else {
        lemma_unique_drop_last(p);
        lemma_names_count(p.drop_last());
        lemma_lookup_some(p.drop_last(), p.last().0);
        assert(name_set(p) =~= name_set(p.drop_last()).insert(p.last().0));
    }
}

impl Settings {
    /// The settings as name/value character sequences, in insertion order.
    pub closed spec fn pairs(&self) -> Seq<(Seq<char>, Seq<char>)> {
        self.entries@.map_values(|e: (String, String)| (e.0@, e.1@))
    }

    /// No settings at all.
    pub fn new() -> (s: Self)
        ensures
            s@ == Map::<Seq<char>, Seq<char>>::empty(),
    {
        let s = Settings { entries: Vec::new() };
        proof {
            assert(s.pairs() =~= Seq::<(Seq<char>, Seq<char>)>::empty());
            assert(s@ =~= Map::<Seq<char>, Seq<char>>::empty());
        }
        s
    }

    #[verifier::type_invariant]
    closed spec fn names_are_unique(&self) -> bool {
        names_unique(self.pairs())
    }

    /// The position of the pair named `key`, if any.
    fn position(&self, key: &str) -> (r: Option<usize>)
        ensures
            match r {
                Some(i) => i < self.pairs().len() && self.pairs()[i as int].0 == key@,
                None => forall|i: int| 0 <= i < self.pairs().len() ==> (#[trigger] self.pairs()[i]).0 != key@,
            },
    {
        let mut i: usize = 0;
        while i < self.entries.len()
            invariant
                i <= self.entries.len(),
                self.pairs().len() == self.entries.len(),
                forall|j: int| 0 <= j < i ==> (#[trigger] self.pairs()[j]).0 != key@,
            decreases self.entries.len() - i,
        {
            proof {
                assert(self.pairs()[i as int] == (self.entries@[i as int].0@, self.entries@[i as int].1@));
            }
            if str_eq(self.entries[i].0.as_str(), key) {
                return Some(i);
            }
            i = i + 1;
        }
        None
    }

    /// Sets `key` to `value`.
    pub fn insert(&mut self, key: String, value: String)
        ensures
            final(self)@ == old(self)@.insert(key@, value@),
    {
        proof {
            use_type_invariant(&*self);
        }
        let ghost before = self.pairs();
        match self.position(key.as_str()) {
            Some(i) => {
                let ghost k = key@;
                let ghost v = value@;
                let mut all: Vec<(String, String)> = Vec::new();
                std::mem::swap(&mut all, &mut self.entries);
                all.set(i, (key, value));
                proof {
                    assert(all@.map_values(|e: (String, String)| (e.0@, e.1@)) =~= before.update(i as int, (k, v)));
                    lemma_replace_keeps_names(before, i as int, v);
                }
                self.entries = all;
                proof {
                    assert(self.pairs() =~= before.update(i as int, (k, v)));
                    lemma_replace_keeps_names(before, i as int, v);
                    assert(self@ =~= old(self)@.insert(k, v));
                }
            },
            None => {
                let ghost k = key@;
                let ghost v = value@;
                let mut entries: Vec<(String, String)> = Vec::new();
                std::mem::swap(&mut entries, &mut self.entries);
                entries.push((key, value));
                proof {
                    assert(entries@.map_values(|e: (String, String)| (e.0@, e.1@)) =~= before.push((k, v)));
                    assert(before.push((k, v)).drop_last() =~= before);
                }
                self.entries = entries;
                proof {
                    assert(self.pairs() =~= before.push((k, v)));
                    assert(self.pairs().drop_last() =~= before);
                    assert(names_unique(self.pairs()));
                    assert(self@ =~= old(self)@.insert(k, v));
                }
            },
        }
    }

    /// Removes the setting `key`, if it is set.
    pub fn remove(&mut self, key: &str)
        ensures
            final(self)@ == old(self)@.remove(key@),
    {
        proof {
            use_type_invariant(&*self);
        }
        let ghost before = self.pairs();
        match self.position(key) {
            Some(i) => {
                let mut v: Vec<(String, String)> = Vec::new();
                std::mem::swap(&mut v, &mut self.entries);
                let _ = v.remove(i);
                proof {
                    assert(v@.map_values(|e: (String, String)| (e.0@, e.1@)) =~= before.remove(i as int));
                    lemma_remove_keeps_names(before, i as int);
                }
                self.entries = v;
                proof {
                    assert(self.pairs() =~= before.remove(i as int));
                    lemma_remove_keeps_names(before, i as int);
                    assert(self@ =~= old(self)@.remove(key@));
                }
            },
            None => {
                proof {
                    lemma_lookup_some(before, key@);
                    assert(self@ =~= old(self)@.remove(key@));
                }
            },
        }
    }

    /// Sets each name of `batch` to its value, in order.
    pub fn set_many(&mut self, batch: &Vec<(String, String)>)
        ensures
            final(self)@ == inserted_all(old(self)@, pair_views(batch@)),
    {
        let ghost d = pair_views(batch@);
        let mut i: usize = 0;
        while i < batch.len()
            invariant
                i <= batch.len(),
                d == pair_views(batch@),
                self@ == inserted_all(old(self)@, d.take(i as int)),
            decreases batch.len() - i,
        {
            proof {
                assert(d.take(i + 1).drop_last() =~= d.take(i as int));
                assert(d.take(i + 1).last() == (batch@[i as int].0@, batch@[i as int].1@));
            }
            self.insert(batch[i].0.clone(), batch[i].1.clone());
            i = i + 1;
        }
        proof {
            assert(d.take(d.len() as int) =~= d);
        }
    }

    /// The settings whose names begin with `prefix`.
    pub fn group(&self, prefix: &str) -> (r: Settings)
        ensures
            r@ == self@.restrict(Set::new(|k: Seq<char>| starts_with(k, prefix@))),
    {
        proof {
            use_type_invariant(self);
        }
        let ghost p = self.pairs();
        let mut kept: Vec<(String, String)> = Vec::new();
        let mut i: usize = 0;
        while i < self.entries.len()
            invariant
                i <= self.entries.len(),
                p == self.pairs(),
                p.len() == self.entries.len(),
                names_unique(p),
                kept@.map_values(|e: (String, String)| (e.0@, e.1@)) == with_prefix(p.take(i as int), prefix@),
            decreases self.entries.len() - i,
        {
            proof {
                assert(p.take(i + 1).drop_last() =~= p.take(i as int));
                assert(p.take(i + 1).last() == p[i as int]);
                assert(p[i as int] == (self.entries@[i as int].0@, self.entries@[i as int].1@));
            }
            if str_starts_with(self.entries[i].0.as_str(), prefix) {
                let ghost before = kept@.map_values(|e: (String, String)| (e.0@, e.1@));
                kept.push((self.entries[i].0.clone(), self.entries[i].1.clone()));
                proof {
                    assert(kept@.map_values(|e: (String, String)| (e.0@, e.1@)) =~= before.push(p[i as int]));
                }
            }
            i = i + 1;
        }
        proof {
            assert(p.take(p.len() as int) =~= p);
            lemma_with_prefix_unique(p, prefix@);
        }
        let r = Settings { entries: kept };
        proof {
            assert forall|k: Seq<char>| true implies lookup(r.pairs(), k) == (if starts_with(k, prefix@) {
                lookup(p, k)
            } else {
                None
            }) by {
                lemma_lookup_with_prefix(p, prefix@, k);
            }
            assert(r@ =~= self@.restrict(Set::new(|k: Seq<char>| starts_with(k, prefix@))));
        }
        r
    }

    /// The number of settings.
    pub fn len(&self) -> (r: usize)
        ensures
            r == self@.len(),
    {
        proof {
            use_type_invariant(self);
            lemma_names_count(self.pairs());
            assert(self@.dom() =~= name_set(self.pairs()));
        }
        self.entries.len()
    }

    /// The value of `key`, if it is set.
    pub fn get(&self, key: &str) -> (r: Option<&String>)
        ensures
            opt_chars(r) == value_of(self@, key@),
    {
        let ghost p = self.pairs();
        let mut i: usize = self.entries.len();
        let mut found = false;
        proof {
            assert(p.take(i as int) =~= p);
        }
        while i > 0 && !found
            invariant
                i <= self.entries.len(),
                p == self.pairs(),
                p.len() == self.entries.len(),
                !found ==> lookup(p, key@) == lookup(p.take(i as int), key@),
                found ==> i < self.entries.len() && p[i as int].0 == key@ && lookup(p, key@)
                    == Some(p[i as int].1),
            decreases i + (if found { 0int } else { 1int }),
        {
            let e = &self.entries[i - 1];
            proof {
                assert(p[i - 1] == (e.0@, e.1@));
            }
            if str_eq(e.0.as_str(), key) {
                found = true;
                proof {
                    assert(p.take(i as int).last() == p[i - 1]);
                }
            } else {
                proof {
                    assert(p.take(i as int).drop_last() =~= p.take(i - 1));
                }
            }
            i = i - 1;
        }
        proof {
            if !found {
                assert(p.take(0) =~= Seq::<(Seq<char>, Seq<char>)>::empty());
            }
        }
        if found {
            Some(&self.entries[i].1)
        } else {
            None
        }
    }

    /// The value of `key`, or `default` where it is not set.
    pub fn get_or(&self, key: &str, default: &str) -> (r: String)
        ensures
            r@ == value_or(self@, key@, default@),
    {
        match self.get(key) {
            Some(v) => v.clone(),
            None => owned(default),
        }
    }

    /// The value of `key`, or the empty string where it is not set.
    pub fn get_or_empty(&self, key: &str) -> (r: String)
        ensures
            r@ == value_or(self@, key@, Seq::empty()),
    {
        match self.get(key) {
            Some(v) => v.clone(),
            None => String::new(),
        }
    }

    /// Whether `key` is set to exactly `"true"`.
    pub fn is_on(&self, key: &str) -> (r: bool)
        ensures
            r == flag_on(self@, key@),
    {
        match self.get(key) {
            Some(v) => {
                proof {
                    reveal_strlit("true");
                    assert("true"@ =~= seq!['t', 'r', 'u', 'e']);
                }
                str_eq(v.as_str(), "true")
            },
            None => false,
        }
    }

    /// Whether `key` is set to `"true"` or `"1"`.
    pub fn get_bool(&self, key: &str) -> (r: bool)
        ensures
            r == bool_setting(self@, key@),
    {
        match self.get(key) {
            Some(v) => str_eq(v.as_str(), "true") || str_eq(v.as_str(), "1"),
            None => false,
        }
    }

    /// The value of `key` read as an `i64`, or `default` where it is missing or not
    /// a number.
    pub fn i64_or(&self, key: &str, default: i64) -> (r: i64)
        ensures
            r == i64_or(self@, key@, default as int),
    {
        match self.get(key) {
            Some(v) => match parse_i64(v.as_str()) {
                Some(n) => n,
                None => default,
            },
            None => default,
        }
    }
}

impl View for Settings {
    type V = Map<Seq<char>, Seq<char>>;

    closed spec fn view(&self) -> Map<Seq<char>, Seq<char>> {
        Map::new(
            |k: Seq<char>| lookup(self.pairs(), k) is Some,
            |k: Seq<char>| lookup(self.pairs(), k)->0,
        )
    }
}

// ── Seeding ─────────────────────────────────────────────────────────

/// Name/value pairs by their characters.
pub open spec fn pair_views(d: Seq<(String, String)>) -> Seq<(Seq<char>, Seq<char>)> {
    d.map_values(|e: (String, String)| (e.0@, e.1@))
}

/// `m` after writing the defaults in order, each only where its name is not yet set.
pub open spec fn with_defaults(m: Map<Seq<char>, Seq<char>>, d: Seq<(Seq<char>, Seq<char>)>) -> Map<
    Seq<char>,
    Seq<char>,
>
    decreases d.len(),
{
    if d.len() == 0 {
        m
    } else {
        let before = with_defaults(m, d.drop_last());
        if before.contains_key(d.last().0) {
            before
        } else {
            before.insert(d.last().0, d.last().1)
        }
    }
}

/// The settings that hold the legal pages' text.
pub open spec fn is_legal_page(k: Seq<char>) -> bool {
    k == "privacy_policy_content"@ || k == "terms_of_use_content"@
}

/// `m` after filling, in order, each legal page that is set to the empty text with its
/// non-empty default.
pub open spec fn backfilled(m: Map<Seq<char>, Seq<char>>, d: Seq<(Seq<char>, Seq<char>)>) -> Map<
    Seq<char>,
    Seq<char>,
>
    decreases d.len(),
{
    if d.len() == 0 {
        m
    } else {
        let before = backfilled(m, d.drop_last());
        let k = d.last().0;
        let v = d.last().1;
        if is_legal_page(k) && v.len() > 0 && before.contains_key(k) && before[k].len() == 0 {
            before.insert(k, v)
        } else {
            before
        }
    }
}

/// The setting that holds the image proxy's signing secret.
pub open spec fn proxy_secret_key() -> Seq<char> {
    "image_proxy_secret"@
}

/// `m` after seeding with the defaults `d`, where `secret` is the image proxy secret
/// written when none is set.
pub open spec fn seeded(m: Map<Seq<char>, Seq<char>>, d: Seq<(Seq<char>, Seq<char>)>, secret: Seq<char>) -> Map<
    Seq<char>,
    Seq<char>,
> {
    let filled = with_defaults(m, d);
    let keyed = if filled.contains_key(proxy_secret_key()) {
        filled
    } else {
        filled.insert(proxy_secret_key(), secret)
    };
    backfilled(keyed, d)
}

/// Seeds the settings on start-up: each default whose name is not set is written (the
/// first default of a name wins), an image proxy secret of 32 random bytes in lowercase
/// hexadecimal is generated where none is set, and each legal page set to the empty
/// text gets its non-empty default. Returns the secret it generated, if any.
pub fn seed_settings(settings: &mut Settings, defaults: &Vec<(String, String)>) -> (r: Option<String>)
    ensures
        match r {
            None => with_defaults(old(settings)@, pair_views(defaults@)).contains_key(
                proxy_secret_key(),
            ) && final(settings)@ == seeded(old(settings)@, pair_views(defaults@), Seq::empty()),
            Some(secret) => !with_defaults(old(settings)@, pair_views(defaults@)).contains_key(
                proxy_secret_key(),
            ) && (exists|b: Seq<u8>| b.len() == 32 && secret@ == hex_lower(b)) && final(settings)@
                == seeded(old(settings)@, pair_views(defaults@), secret@),
        },
{
    let ghost d = pair_views(defaults@);
    let ghost start = settings@;
    let mut i: usize = 0;
    while i < defaults.len()
        invariant
            i <= defaults.len(),
            d == pair_views(defaults@),
            settings@ == with_defaults(start, d.take(i as int)),
        decreases defaults.len() - i,
    {
        let k = &defaults[i].0;
        let v = &defaults[i].1;
        proof {
            assert(d.take(i + 1).drop_last() =~= d.take(i as int));
            assert(d.take(i + 1).last() == (k@, v@));
        }
        if settings.get(k.as_str()).is_none() {
            settings.insert(k.clone(), v.clone());
        }
        i = i + 1;
    }
    proof {
        assert(d.take(d.len() as int) =~= d);
    }
    let ghost filled = settings@;
    let generated = if settings.get("image_proxy_secret").is_none() {
        let bytes = random_bytes(32);
        let secret = hex_encode(bytes.as_slice());
        proof {
            lemma_hex_lower_len(bytes@);
        }
        settings.insert(owned("image_proxy_secret"), secret.clone());
        Some(secret)
    } else {
        None
    };
    let ghost keyed = settings@;
    let mut j: usize = 0;
    while j < defaults.len()
        invariant
            j <= defaults.len(),
            d == pair_views(defaults@),
            settings@ == backfilled(keyed, d.take(j as int)),
        decreases defaults.len() - j,
    {
        let k = &defaults[j].0;
        let v = &defaults[j].1;
        proof {
            assert(d.take(j + 1).drop_last() =~= d.take(j as int));
            assert(d.take(j + 1).last() == (k@, v@));
        }
        if (str_eq(k.as_str(), "privacy_policy_content") || str_eq(k.as_str(), "terms_of_use_content"))
            && !v.as_str().is_empty() {
            let empty = match settings.get(k.as_str()) {
                Some(cur) => cur.as_str().is_empty(),
                None => false,
            };
            if empty {
                settings.insert(k.clone(), v.clone());
            }
        }
        j = j + 1;
    }
    proof {
        assert(d.take(d.len() as int) =~= d);
    }
    generated
}

proof fn lemma_defaults_cover(m: Map<Seq<char>, Seq<char>>, d: Seq<(Seq<char>, Seq<char>)>, k: Seq<char>)
    ensures
        with_defaults(m, d).contains_key(k) <==> (m.contains_key(k) || exists|i: int|
            0 <= i < d.len() && (#[trigger] d[i]).0 == k),
        m.contains_key(k) ==> with_defaults(m, d)[k] == m[k],
    decreases d.len(),
{
    if d.len() > 0 {
        lemma_defaults_cover(m, d.drop_last(), k);
        if exists|i: int| 0 <= i < d.len() && (#[trigger] d[i]).0 == k {
            let i = choose|i: int| 0 <= i < d.len() && (#[trigger] d[i]).0 == k;
            if i < d.len() - 1 {
                assert(d.drop_last()[i] == d[i]);
            }
        }
        if exists|i: int| 0 <= i < d.len() - 1 && (#[trigger] d.drop_last()[i]).0 == k {
            let i = choose|i: int| 0 <= i < d.len() - 1 && (#[trigger] d.drop_last()[i]).0 == k;
            assert(d[i] == d.drop_last()[i]);
        }
    }
}

proof fn lemma_defaults_noop(m: Map<Seq<char>, Seq<char>>, d: Seq<(Seq<char>, Seq<char>)>)
    requires
        forall|i: int| 0 <= i < d.len() ==> m.contains_key((#[trigger] d[i]).0),
    ensures
        with_defaults(m, d) == m,
    decreases d.len(),
{
    if d.len() > 0 {
        assert forall|i: int| 0 <= i < d.drop_last().len() implies m.contains_key(
            (#[trigger] d.drop_last()[i]).0,
        ) by {
            assert(d.drop_last()[i] == d[i]);
        }
        lemma_defaults_noop(m, d.drop_last());
        assert(m.contains_key(d[d.len() - 1].0));
    }
}

proof fn lemma_backfill_keys(m: Map<Seq<char>, Seq<char>>, d: Seq<(Seq<char>, Seq<char>)>)
    ensures
        backfilled(m, d).dom() == m.dom(),
        forall|k: Seq<char>| #[trigger] m.contains_key(k) && !is_legal_page(k) ==> backfilled(m, d)[k] == m[k],
        forall|k: Seq<char>| #[trigger] m.contains_key(k) && m[k].len() > 0 ==> backfilled(m, d)[k] == m[k],
    decreases d.len(),
{
    if d.len() > 0 {
        lemma_backfill_keys(m, d.drop_last());
        let before = backfilled(m, d.drop_last());
        if is_legal_page(d.last().0) && d.last().1.len() > 0 && before.contains_key(d.last().0)
            && before[d.last().0].len() == 0 {
            assert(before.insert(d.last().0, d.last().1).dom() =~= before.dom());
        }
    }
}

proof fn lemma_backfill_fills(m: Map<Seq<char>, Seq<char>>, d: Seq<(Seq<char>, Seq<char>)>)
    ensures
        forall|i: int|
            0 <= i < d.len() && is_legal_page((#[trigger] d[i]).0) && d[i].1.len() > 0 && m.contains_key(d[i].0)
                ==> backfilled(m, d)[d[i].0].len() > 0,
        forall|k: Seq<char>| #[trigger] m.contains_key(k) && m[k].len() > 0 ==> backfilled(m, d)[k].len() > 0,
    decreases d.len(),
{
    if d.len() > 0 {
        lemma_backfill_fills(m, d.drop_last());
        lemma_backfill_keys(m, d.drop_last());
        let before = backfilled(m, d.drop_last());
        assert forall|i: int|
            0 <= i < d.len() && is_legal_page((#[trigger] d[i]).0) && d[i].1.len() > 0 && m.contains_key(d[i].0)
                implies backfilled(m, d)[d[i].0].len() > 0 by {
            if i < d.len() - 1 {
                assert(d.drop_last()[i] == d[i]);
            }
        }
    }
}

proof fn lemma_backfill_noop(m: Map<Seq<char>, Seq<char>>, d: Seq<(Seq<char>, Seq<char>)>)
    requires
        forall|i: int|
            0 <= i < d.len() && is_legal_page((#[trigger] d[i]).0) && d[i].1.len() > 0 && m.contains_key(d[i].0)
                ==> m[d[i].0].len() > 0,
    ensures
        backfilled(m, d) == m,
    decreases d.len(),
{
    if d.len() > 0 {
        assert forall|i: int|
            0 <= i < d.drop_last().len() && is_legal_page((#[trigger] d.drop_last()[i]).0) && d.drop_last()[i].1.len() > 0
                && m.contains_key(d.drop_last()[i].0) implies m[d.drop_last()[i].0].len() > 0 by {
            assert(d.drop_last()[i] == d[i]);
        }
        lemma_backfill_noop(m, d.drop_last());
        assert(d.last() == d[d.len() - 1]);
    }
}

/// Seeding keeps every setting already set, except a legal page set to the empty text,
/// and seeding what seeding gave changes nothing: the start-up seed can run on every
/// start.
pub proof fn seeding_keeps_and_settles(
    m: Map<Seq<char>, Seq<char>>,
    d: Seq<(Seq<char>, Seq<char>)>,
    secret: Seq<char>,
    other: Seq<char>,
    k: Seq<char>,
)
    ensures
        m.contains_key(k) && !(is_legal_page(k) && m[k].len() == 0) ==> seeded(m, d, secret).contains_key(k)
            && seeded(m, d, secret)[k] == m[k],
        seeded(seeded(m, d, secret), d, other) == seeded(m, d, secret),
{
    let filled = with_defaults(m, d);
    let keyed = if filled.contains_key(proxy_secret_key()) {
        filled
    } else {
        filled.insert(proxy_secret_key(), secret)
    };
    let s1 = backfilled(keyed, d);
    lemma_defaults_cover(m, d, k);
    lemma_backfill_keys(keyed, d);
    lemma_backfill_fills(keyed, d);
    if m.contains_key(k) && !(is_legal_page(k) && m[k].len() == 0) {
        if k != proxy_secret_key() || filled.contains_key(proxy_secret_key()) {
            assert(keyed[k] == m[k]);
        }
    }
    assert forall|i: int| 0 <= i < d.len() implies s1.contains_key((#[trigger] d[i]).0) by {
        lemma_defaults_cover(m, d, d[i].0);
    }
    lemma_defaults_noop(s1, d);
    assert(s1.contains_key(proxy_secret_key()));
    assert forall|i: int|
        0 <= i < d.len() && is_legal_page((#[trigger] d[i]).0) && d[i].1.len() > 0 && s1.contains_key(d[i].0)
            implies s1[d[i].0].len() > 0 by {
        lemma_defaults_cover(m, d, d[i].0);
    }
    lemma_backfill_noop(s1, d);
}

/// Reading a setting gives back what the last insert of that name wrote, and an insert
/// leaves every other name as it was.
pub proof fn read_after_insert(m: Map<Seq<char>, Seq<char>>, k: Seq<char>, v: Seq<char>, other: Seq<char>)
    ensures
        value_of(m.insert(k, v), k) == Some(v),
        other != k ==> value_of(m.insert(k, v), other) == value_of(m, other),
{
}

/// After a setting is removed, reading it gives nothing, and every other name reads as
/// before.
pub proof fn read_after_remove(m: Map<Seq<char>, Seq<char>>, k: Seq<char>, other: Seq<char>)
    ensures
        value_of(m.remove(k), k) == None::<Seq<char>>,
        other != k ==> value_of(m.remove(k), other) == value_of(m, other),
{
}

} // verus!
