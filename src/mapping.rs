//! String-keyed statistic records, the code-to-label mapping table, and the
//! normalization that renames record keys through the table.
use vstd::prelude::*;

verus! {

/// The map that a sequence of key/value pairs describes, a later pair for a
/// key replacing an earlier one.
pub open spec fn pairs_to_map(s: Seq<(Seq<char>, Seq<char>)>) -> Map<Seq<char>, Seq<char>>
    decreases s.len(),
{
    if s.len() == 0 {
        Map::empty()
    } else {
        pairs_to_map(s.drop_last()).insert(s.last().0, s.last().1)
    }
}

/// No key occurs twice.
pub open spec fn keys_distinct(s: Seq<(Seq<char>, Seq<char>)>) -> bool {
    forall|i: int, j: int| 0 <= i < j < s.len() ==> s[i].0 != s[j].0
}

/// The record that normalizing the pairs `s` through the mapping `m` gives:
/// each pair whose key has a label in `m` is kept under that label, the others
/// are dropped; where two keys share a label, the later pair wins.
pub open spec fn normalize_pairs(
    s: Seq<(Seq<char>, Seq<char>)>,
    m: Map<Seq<char>, Seq<char>>,
) -> Map<Seq<char>, Seq<char>>
    decreases s.len(),
{
    if s.len() == 0 {
        Map::empty()
    } else {
        let rest = normalize_pairs(s.drop_last(), m);
        let (c, v) = s.last();
        if m.contains_key(c) {
            rest.insert(m[c], v)
        } else {
            rest
        }
    }
}

/// A string-to-string map with unique keys, kept in insertion order.
pub struct StatMap {
    entries: Vec<(String, String)>,
}

impl View for StatMap {
    type V = Map<Seq<char>, Seq<char>>;

    open spec fn view(&self) -> Map<Seq<char>, Seq<char>> {
        pairs_to_map(self.pairs())
    }
}

impl StatMap {
    /// The entries as key/value character sequences, in insertion order.
    pub closed spec fn pairs(&self) -> Seq<(Seq<char>, Seq<char>)> {
        self.entries@.map_values(|p: (String, String)| (p.0@, p.1@))
    }

    pub open spec fn wf(&self) -> bool {
        keys_distinct(self.pairs())
    }

    pub fn new() -> (r: StatMap)
        ensures
            r.wf(),
            r.pairs().len() == 0,
            r@ == Map::<Seq<char>, Seq<char>>::empty(),
    {
        let r = StatMap { entries: Vec::new() };
        proof {
            assert(r.pairs() =~= Seq::<(Seq<char>, Seq<char>)>::empty());
        }
        r
    }

    /// Number of entries.
    pub fn len(&self) -> (r: usize)
        requires
            self.wf(),
        ensures
            r == self@.len(),
            r == self.pairs().len(),
    {
        proof {
            lemma_distinct_len(self.pairs());
        }
        self.entries.len()
    }

    /// The position of `key` among the entries.
    fn find(&self, key: &String) -> (r: Option<usize>)
        ensures
            match r {
                Some(i) => i < self.pairs().len() && self.pairs()[i as int].0 == key@,
                None => forall|i: int| 0 <= i < self.pairs().len() ==> self.pairs()[i].0 != key@,
            },
    {
        let mut i: usize = 0;
        while i < self.entries.len()
            invariant
                i <= self.entries@.len(),
                self.pairs().len() == self.entries@.len(),
                forall|j: int| 0 <= j < i ==> self.pairs()[j].0 != key@,
            decreases self.entries@.len() - i,
        {
            proof {
                assert(self.pairs()[i as int] == (self.entries@[i as int].0@, self.entries@[i as int].1@));
            }
            if self.entries[i].0.eq(key) {
                return Some(i);
            }
            i += 1;
        }
        None
    }

    /// The value stored under `key`.
    pub fn get(&self, key: &String) -> (r: Option<&String>)
        requires
            self.wf(),
        ensures
            match r {
                Some(v) => self@.contains_key(key@) && self@[key@] == v@,
                None => !self@.contains_key(key@),
            },
    {
        match self.find(key) {
            Some(i) => {
                proof {
                    lemma_value_at(self.pairs(), i as int);
                }
                Some(&self.entries[i].1)
            },
            None => {
                proof {
                    lemma_dom(self.pairs(), key@);
                }
                None
            },
        }
    }

    /// Stores `value` under `key`, replacing the value held there before.
    pub fn insert(&mut self, key: String, value: String)
        requires
            old(self).wf(),
        ensures
            final(self).wf(),
            final(self)@ == old(self)@.insert(key@, value@),
    {
        match self.find(&key) {
            Some(i) => {
                let ghost before = self.pairs();
                self.entries[i].1 = value;
                proof {
                    assert(self.pairs() =~= before.update(i as int, (key@, value@)));
                    lemma_update_value(before, i as int, value@);
                }
            },
            None => {
                let ghost before = self.pairs();
                self.entries.push((key, value));
                proof {
                    assert(self.pairs() =~= before.push((key@, value@)));
                    assert(self.pairs().drop_last() =~= before);
                }
            },
        }
    }

    /// A map holding the given pairs, a later pair for a key replacing an earlier one.
    pub fn from_pairs(pairs: Vec<(String, String)>) -> (r: StatMap)
        ensures
            r.wf(),
            r@ == pairs_to_map(pairs@.map_values(|p: (String, String)| (p.0@, p.1@))),
    {
        let ghost src = pairs@.map_values(|p: (String, String)| (p.0@, p.1@));
        let mut r = StatMap::new();
        let mut rest = pairs;
        let mut taken: Vec<(String, String)> = Vec::new();
        // Reverse once so that popping yields the pairs in the order given.
        while rest.len() > 0
            invariant
                src.len() == taken@.len() + rest@.len(),
                forall|j: int|
                    0 <= j < rest@.len() ==> (#[trigger] rest@[j]).0@ == src[j].0 && rest@[j].1@
                        == src[j].1,
                forall|j: int|
                    0 <= j < taken@.len() ==> (#[trigger] taken@[j]).0@ == src[src.len() - 1
                        - j].0 && taken@[j].1@ == src[src.len() - 1 - j].1,
            decreases rest@.len(),
        {
            let p = rest.pop().unwrap();
            taken.push(p);
        }
        while taken.len() > 0
            invariant
                r.wf(),
                src.len() >= taken@.len(),
                forall|j: int|
                    0 <= j < taken@.len() ==> (#[trigger] taken@[j]).0@ == src[src.len() - 1
                        - j].0 && taken@[j].1@ == src[src.len() - 1 - j].1,
                r@ == pairs_to_map(src.subrange(0, src.len() - taken@.len())),
            decreases taken@.len(),
        {
            let ghost k = src.len() - taken@.len();
            let p = taken.pop().unwrap();
            r.insert(p.0, p.1);
            proof {
                assert(src.subrange(0, k + 1).drop_last() =~= src.subrange(0, k));
            }
        }
        proof {
            assert(src.subrange(0, src.len() as int) =~= src);
        }
        r
    }

    /// The entries, in insertion order.
    pub fn entries(&self) -> (r: &Vec<(String, String)>)
        ensures
            r@.map_values(|p: (String, String)| (p.0@, p.1@)) == self.pairs(),
    {
        &self.entries
    }
}

/// The table from statistic codes to human labels.
pub struct Mapping {
    pub table: StatMap,
}

impl View for Mapping {
    type V = Map<Seq<char>, Seq<char>>;

    open spec fn view(&self) -> Map<Seq<char>, Seq<char>> {
        self.table@
    }
}

impl Mapping {
    pub open spec fn wf(&self) -> bool {
        self.table.wf()
    }

    /// A table holding the given code/label pairs; a later pair for a code
    /// replaces an earlier one.
    pub fn build(entries: Vec<(String, String)>) -> (r: Mapping)
        ensures
            r.wf(),
            r@ == pairs_to_map(entries@.map_values(|p: (String, String)| (p.0@, p.1@))),
    {
        Mapping { table: StatMap::from_pairs(entries) }
    }

    /// The label of `code`.
    pub fn lookup(&self, code: &String) -> (r: Option<&String>)
        requires
            self.wf(),
        ensures
            match r {
                Some(l) => self@.contains_key(code@) && self@[code@] == l@,
                None => !self@.contains_key(code@),
            },
    {
        self.table.get(code)
    }
}

/// Normalizes a record: each entry whose code has a label in `mapping` is kept
/// under that label with its value unchanged; every other entry is dropped.
pub fn normalize(record: &StatMap, mapping: &Mapping) -> (r: StatMap)
    requires
        mapping.wf(),
    ensures
        r.wf(),
        r@ == normalize_pairs(record.pairs(), mapping@),
{
    let ghost s = record.pairs();
    let entries = record.entries();
    let mut out = StatMap::new();
    let mut i: usize = 0;
    while i < entries.len()
        invariant
            i <= entries@.len(),
            s.len() == entries@.len(),
            forall|j: int|
                0 <= j < entries@.len() ==> (#[trigger] entries@[j]).0@ == s[j].0
                    && entries@[j].1@ == s[j].1,
            mapping.wf(),
            out.wf(),
            out@ == normalize_pairs(s.subrange(0, i as int), mapping@),
        decreases entries@.len() - i,
    {
        let (code, value) = &entries[i];
        proof {
            assert(s.subrange(0, i + 1).drop_last() =~= s.subrange(0, i as int));
        }
        match mapping.lookup(code) {
            Some(label) => {
                out.insert(label.clone(), value.clone());
            },
            None => {},
        }
        i += 1;
    }
    proof {
        assert(s.subrange(0, s.len() as int) =~= s);
    }
    out
}

/// Statistic records that a mapping table can normalize in place.
pub trait MapStats: Sized {
    /// Every record held is well formed.
    spec fn stats_wf(&self) -> bool;

    /// `self` is `before` with every record held normalized through `m`.
    spec fn stats_normalized(&self, before: &Self, m: Map<Seq<char>, Seq<char>>) -> bool;

    /// Normalizes every record held through `mapping`.
    fn map_stats(&mut self, mapping: &Mapping)
        requires
            old(self).stats_wf(),
            mapping.wf(),
        ensures
            final(self).stats_wf(),
            final(self).stats_normalized(old(self), mapping@),
    ;
}

impl MapStats for StatMap {
    open spec fn stats_wf(&self) -> bool {
        self.wf()
    }

    open spec fn stats_normalized(&self, before: &Self, m: Map<Seq<char>, Seq<char>>) -> bool {
        self@ == normalize_pairs(before.pairs(), m)
    }

    fn map_stats(&mut self, mapping: &Mapping) {
        *self = normalize(self, mapping);
    }
}

/// Normalizes every record held by each item of `items` in place.
pub fn map_all<T: MapStats>(items: &mut Vec<T>, mapping: &Mapping)
    requires
        mapping.wf(),
        forall|i: int| 0 <= i < old(items)@.len() ==> (#[trigger] old(items)@[i]).stats_wf(),
    ensures
        final(items)@.len() == old(items)@.len(),
        forall|i: int|
            0 <= i < final(items)@.len() ==> (#[trigger] final(items)@[i]).stats_wf()
                && final(items)@[i].stats_normalized(&old(items)@[i], mapping@),
{
    let ghost before = items@;
    let mut i: usize = 0;
    while i < items.len()
        invariant
            mapping.wf(),
            items@.len() == before.len(),
            i <= items@.len(),
            forall|j: int|
                0 <= j < i ==> (#[trigger] items@[j]).stats_wf() && items@[j].stats_normalized(
                    &before[j],
                    mapping@,
                ),
            forall|j: int| i <= j < items@.len() ==> #[trigger] items@[j] == before[j],
            forall|j: int| 0 <= j < before.len() ==> (#[trigger] before[j]).stats_wf(),
        decreases items@.len() - i,
    {
        items[i].map_stats(mapping);
        i += 1;
    }
}

proof fn lemma_dom(s: Seq<(Seq<char>, Seq<char>)>, k: Seq<char>)
    ensures
        pairs_to_map(s).contains_key(k) <==> exists|i: int| 0 <= i < s.len() && s[i].0 == k,
    decreases s.len(),
{
    if s.len() > 0 {
        lemma_dom(s.drop_last(), k);
        if pairs_to_map(s).contains_key(k) && k != s.last().0 {
            let i = choose|i: int| 0 <= i < s.drop_last().len() && s.drop_last()[i].0 == k;
            assert(s[i].0 == k);
        }
        if exists|i: int| 0 <= i < s.len() && s[i].0 == k {
            let i = choose|i: int| 0 <= i < s.len() && s[i].0 == k;
            if i < s.len() - 1 {
                assert(s.drop_last()[i].0 == k);
            }
        }
    }
}

proof fn lemma_value_at(s: Seq<(Seq<char>, Seq<char>)>, i: int)
    requires
        keys_distinct(s),
        0 <= i < s.len(),
    ensures
        pairs_to_map(s).contains_key(s[i].0),
        pairs_to_map(s)[s[i].0] == s[i].1,
    decreases s.len(),
{
    if i < s.len() - 1 {
        let t = s.drop_last();
        assert(keys_distinct(t));
        assert(t[i] == s[i]);
        lemma_value_at(t, i);
    }
}

proof fn lemma_update_value(s: Seq<(Seq<char>, Seq<char>)>, i: int, v: Seq<char>)
    requires
        keys_distinct(s),
        0 <= i < s.len(),
    ensures
        keys_distinct(s.update(i, (s[i].0, v))),
        pairs_to_map(s.update(i, (s[i].0, v))) == pairs_to_map(s).insert(s[i].0, v),
    decreases s.len(),
{
    let u = s.update(i, (s[i].0, v));
    assert(keys_distinct(u));
    if i == s.len() - 1 {
        assert(u.drop_last() =~= s.drop_last());
    } else {
        let t = s.drop_last();
        assert(keys_distinct(t));
        lemma_update_value(t, i, v);
        assert(u.drop_last() =~= t.update(i, (t[i].0, v)));
        assert(s.last().0 != s[i].0);
        assert(pairs_to_map(u) =~= pairs_to_map(s).insert(s[i].0, v));
    }
}

proof fn lemma_distinct_len(s: Seq<(Seq<char>, Seq<char>)>)
    requires
        keys_distinct(s),
    ensures
        pairs_to_map(s).dom().finite(),
        pairs_to_map(s).len() == s.len(),
    decreases s.len(),
{
    if s.len() > 0 {
        let t = s.drop_last();
        assert(keys_distinct(t));
        lemma_distinct_len(t);
        lemma_dom(t, s.last().0);
        assert(!pairs_to_map(t).contains_key(s.last().0));
    }
}

/// A mapping table is injective when no two codes share a label.
pub open spec fn injective(m: Map<Seq<char>, Seq<char>>) -> bool {
    forall|c1: Seq<char>, c2: Seq<char>|
        m.contains_key(c1) && m.contains_key(c2) && #[trigger] m[c1] == #[trigger] m[c2] ==> c1 == c2
}

/// Normalizing drops exactly the entries whose code the table lacks and keeps
/// the others under their labels: every mapped code of the record reappears
/// as its label, every key of the result is the label of a mapped code of the
/// record, and the result is no larger than the record.
pub proof fn lemma_normalize_renames_and_drops(record: &StatMap, mapping: &Mapping)
    requires
        record.wf(),
    ensures
        forall|c: Seq<char>|
            record@.contains_key(c) && mapping@.contains_key(c) ==> normalize_pairs(
                record.pairs(),
                mapping@,
            ).contains_key(#[trigger] mapping@[c]),
        forall|l: Seq<char>|
            #[trigger] normalize_pairs(record.pairs(), mapping@).contains_key(l) ==> exists|
                c: Seq<char>,
            |
                record@.contains_key(c) && mapping@.contains_key(c) && mapping@[c] == l,
        normalize_pairs(record.pairs(), mapping@).dom().finite(),
        normalize_pairs(record.pairs(), mapping@).len() <= record@.len(),
{
    let s = record.pairs();
    let m = mapping@;
    assert forall|c: Seq<char>| record@.contains_key(c) && m.contains_key(c) implies normalize_pairs(
        s,
        m,
    ).contains_key(#[trigger] m[c]) by {
        lemma_dom(s, c);
        let i = choose|i: int| 0 <= i < s.len() && s[i].0 == c;
        lemma_normalize_dom(s, m, m[c]);
    }
    assert forall|l: Seq<char>| #[trigger] normalize_pairs(s, m).contains_key(l) implies exists|
        c: Seq<char>,
    | record@.contains_key(c) && m.contains_key(c) && m[c] == l by {
        lemma_normalize_dom(s, m, l);
        let i = choose|i: int| 0 <= i < s.len() && m.contains_key(s[i].0) && m[s[i].0] == l;
        lemma_dom(s, s[i].0);
    }
    lemma_normalize_len(s, m);
    lemma_distinct_len(s);
}

/// With an injective table, every kept entry keeps its value.
pub proof fn lemma_normalize_keeps_values(record: &StatMap, mapping: &Mapping)
    requires
        record.wf(),
        injective(mapping@),
    ensures
        forall|c: Seq<char>|
            record@.contains_key(c) && mapping@.contains_key(c) ==> normalize_pairs(
                record.pairs(),
                mapping@,
            )[#[trigger] mapping@[c]] == record@[c],
{
    let s = record.pairs();
    let m = mapping@;
    assert forall|c: Seq<char>| record@.contains_key(c) && m.contains_key(c) implies normalize_pairs(
        s,
        m,
    )[#[trigger] m[c]] == record@[c] by {
        lemma_dom(s, c);
        let i = choose|i: int| 0 <= i < s.len() && s[i].0 == c;
        lemma_value_at(s, i);
        lemma_normalize_value(s, m, i);
    }
}

/// Normalizing an already normalized record again with the same code-keyed
/// table gives an empty record, as long as no label is itself a code: the
/// operation is not idempotent.
pub proof fn lemma_normalize_twice_is_empty(record: &StatMap, mapping: &Mapping, once: &StatMap)
    requires
        once@ == normalize_pairs(record.pairs(), mapping@),
        forall|c: Seq<char>| #[trigger]
            mapping@.contains_key(c) ==> !mapping@.contains_key(mapping@[c]),
    ensures
        normalize_pairs(once.pairs(), mapping@) == Map::<Seq<char>, Seq<char>>::empty(),
{
    let t = once.pairs();
    let m = mapping@;
    assert forall|j: int| 0 <= j < t.len() implies !m.contains_key(#[trigger] t[j].0) by {
        lemma_dom(t, t[j].0);
        lemma_normalize_dom(record.pairs(), m, t[j].0);
        let i = choose|i: int|
            0 <= i < record.pairs().len() && m.contains_key(record.pairs()[i].0) && m[record.pairs()[i].0]
                == t[j].0;
        assert(m.contains_key(record.pairs()[i].0));
    }
    lemma_normalize_none(t, m);
}

proof fn lemma_normalize_dom(s: Seq<(Seq<char>, Seq<char>)>, m: Map<Seq<char>, Seq<char>>, l: Seq<char>)
    ensures
        normalize_pairs(s, m).contains_key(l) <==> exists|i: int|
            0 <= i < s.len() && m.contains_key(s[i].0) && m[s[i].0] == l,
    decreases s.len(),
{
    if s.len() > 0 {
        let t = s.drop_last();
        lemma_normalize_dom(t, m, l);
        if exists|i: int| 0 <= i < t.len() && m.contains_key(t[i].0) && m[t[i].0] == l {
            let i = choose|i: int| 0 <= i < t.len() && m.contains_key(t[i].0) && m[t[i].0] == l;
            assert(s[i] == t[i]);
        }
        if exists|i: int| 0 <= i < s.len() && m.contains_key(s[i].0) && m[s[i].0] == l {
            let i = choose|i: int| 0 <= i < s.len() && m.contains_key(s[i].0) && m[s[i].0] == l;
            if i < s.len() - 1 {
                assert(t[i] == s[i]);
            }
        }
    }
}

proof fn lemma_normalize_value(s: Seq<(Seq<char>, Seq<char>)>, m: Map<Seq<char>, Seq<char>>, i: int)
    requires
        keys_distinct(s),
        injective(m),
        0 <= i < s.len(),
        m.contains_key(s[i].0),
    ensures
        normalize_pairs(s, m).contains_key(m[s[i].0]),
        normalize_pairs(s, m)[m[s[i].0]] == s[i].1,
    decreases s.len(),
{
    if i < s.len() - 1 {
        let t = s.drop_last();
        assert(keys_distinct(t));
        assert(t[i] == s[i]);
        lemma_normalize_value(t, m, i);
        let c = s.last().0;
        if m.contains_key(c) {
            assert(c != s[i].0);
            assert(m[c] != m[s[i].0]);
        }
    }
}

proof fn lemma_normalize_len(s: Seq<(Seq<char>, Seq<char>)>, m: Map<Seq<char>, Seq<char>>)
    ensures
        normalize_pairs(s, m).dom().finite(),
        normalize_pairs(s, m).len() <= s.len(),
    decreases s.len(),
{
    if s.len() > 0 {
        lemma_normalize_len(s.drop_last(), m);
    }
}

proof fn lemma_normalize_none(s: Seq<(Seq<char>, Seq<char>)>, m: Map<Seq<char>, Seq<char>>)
    requires
        forall|j: int| 0 <= j < s.len() ==> !m.contains_key(#[trigger] s[j].0),
    ensures
        normalize_pairs(s, m) == Map::<Seq<char>, Seq<char>>::empty(),
    decreases s.len(),
{
    if s.len() > 0 {
        let t = s.drop_last();
        assert forall|j: int| 0 <= j < t.len() implies !m.contains_key(#[trigger] t[j].0) by {
            assert(t[j] == s[j]);
        }
        lemma_normalize_none(t, m);
        assert(!m.contains_key(s[s.len() - 1].0));
    }
}

} // verus!
