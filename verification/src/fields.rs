//! A string-keyed map kept in key order, as a `BTreeMap<String, String>`.

use vstd::prelude::*;
use crate::text::{chars_of, owned};

verus! {

/// Whether `a` comes before `b` in the order of `String`: character by
/// character by code point (which is the order of their UTF-8 bytes), a
/// proper prefix first.
pub open spec fn text_less(a: Seq<char>, b: Seq<char>) -> bool
    decreases a.len(),
{
    if a.len() == 0 {
        b.len() > 0
    } else if b.len() == 0 {
        false
    } else if a[0] != b[0] {
        (a[0] as int) < (b[0] as int)
    } else {
        text_less(a.drop_first(), b.drop_first())
    }
}

/// No text comes before itself.
pub proof fn lemma_text_less_irreflexive(a: Seq<char>)
    ensures
        !text_less(a, a),
    decreases a.len(),
{
    if a.len() > 0 {
        lemma_text_less_irreflexive(a.drop_first());
    }
}

/// The order is transitive.
pub proof fn lemma_text_less_transitive(a: Seq<char>, b: Seq<char>, c: Seq<char>)
    requires
        text_less(a, b),
        text_less(b, c),
    ensures
        text_less(a, c),
    decreases a.len(),
{
    if a.len() > 0 && b.len() > 0 && c.len() > 0 && a[0] == b[0] && b[0] == c[0] {
        lemma_text_less_transitive(a.drop_first(), b.drop_first(), c.drop_first());
    }
}

/// Two different texts are ordered one way or the other.
pub proof fn lemma_text_less_total(a: Seq<char>, b: Seq<char>)
    ensures
        a == b || text_less(a, b) || text_less(b, a),
    decreases a.len(),
{
    if a.len() > 0 && b.len() > 0 {
        if a[0] == b[0] {
            lemma_text_less_total(a.drop_first(), b.drop_first());
            if a.drop_first() == b.drop_first() {
                assert(a =~= seq![a[0]] + a.drop_first());
                assert(b =~= seq![b[0]] + b.drop_first());
            }
        } else {
        }
    } else if a.len() == 0 && b.len() == 0 {
        assert(a =~= b);
    }
}

/// Whether `a` comes before `b`.
pub fn chars_less(a: &[char], b: &[char]) -> (r: bool)
    ensures
        r == text_less(a@, b@),
{
    let mut i: usize = 0;
    assert(a@.skip(0) =~= a@);
    assert(b@.skip(0) =~= b@);
    while i < a.len() && i < b.len()
        invariant
            i <= a.len(),
            i <= b.len(),
            text_less(a@, b@) == text_less(a@.skip(i as int), b@.skip(i as int)),
        decreases a.len() - i,
    {
        if a[i] != b[i] {
            return a[i] < b[i];
        }
        assert(a@.skip(i as int).drop_first() =~= a@.skip(i + 1));
        assert(b@.skip(i as int).drop_first() =~= b@.skip(i + 1));
        i = i + 1;
    }
    i == a.len() && i < b.len()
}

/// The text of a list of string pairs.
pub open spec fn text_pairs(entries: Seq<(String, String)>) -> Seq<(Seq<char>, Seq<char>)> {
    entries.map_values(|e: (String, String)| (e.0@, e.1@))
}

/// The map that a list of pairs gives, later pairs winning.
pub open spec fn pairs_map(p: Seq<(Seq<char>, Seq<char>)>) -> Map<Seq<char>, Seq<char>>
    decreases p.len(),
{
    if p.len() == 0 {
        Map::empty()
    } else {
        pairs_map(p.drop_last()).insert(p.last().0, p.last().1)
    }
}

/// Whether the keys of a list of pairs strictly increase.
pub open spec fn keys_increasing(p: Seq<(Seq<char>, Seq<char>)>) -> bool {
    forall|i: int, j: int| 0 <= i < j < p.len() ==> text_less(#[trigger] p[i].0, #[trigger] p[j].0)
}

/// A key is in the map of a list of pairs exactly when some pair has it.
pub proof fn lemma_pairs_map_dom(p: Seq<(Seq<char>, Seq<char>)>, k: Seq<char>)
    ensures
        pairs_map(p).contains_key(k) <==> exists|i: int| 0 <= i < p.len() && #[trigger] p[i].0 == k,
    decreases p.len(),
{
    if p.len() > 0 {
        lemma_pairs_map_dom(p.drop_last(), k);
        if pairs_map(p.drop_last()).contains_key(k) {
            let i = choose|i: int| 0 <= i < p.drop_last().len() && #[trigger] p.drop_last()[i].0 == k;
            assert(p[i].0 == k);
        }
        if exists|i: int| 0 <= i < p.len() && #[trigger] p[i].0 == k {
            let i = choose|i: int| 0 <= i < p.len() && #[trigger] p[i].0 == k;
            if i < p.len() - 1 {
                assert(p.drop_last()[i].0 == k);
            }
        }
    }
}

/// With increasing keys, each pair's value is the map's value for its key.
pub proof fn lemma_pairs_map_value(p: Seq<(Seq<char>, Seq<char>)>, i: int)
    requires
        keys_increasing(p),
        0 <= i < p.len(),
    ensures
        pairs_map(p).contains_key(p[i].0),
        pairs_map(p)[p[i].0] == p[i].1,
    decreases p.len(),
{
    if i < p.len() - 1 {
        assert(keys_increasing(p.drop_last()));
        assert(p.drop_last()[i] == p[i]);
        lemma_pairs_map_value(p.drop_last(), i);
        assert(text_less(p[i].0, p[p.len() - 1].0));
        lemma_text_less_irreflexive(p[i].0);
    }
}

/// A string-keyed map whose entries are kept in key order.
#[derive(Debug)]
pub struct FieldMap {
    entries: Vec<(String, String)>,
}

impl View for FieldMap {
    type V = Map<Seq<char>, Seq<char>>;

    closed spec fn view(&self) -> Map<Seq<char>, Seq<char>> {
        pairs_map(text_pairs(self.entries@))
    }
}

impl FieldMap {
    #[verifier::type_invariant]
    spec fn sorted(&self) -> bool {
        keys_increasing(text_pairs(self.entries@))
    }

    /// The entries in key order.
    pub closed spec fn pairs(&self) -> Seq<(Seq<char>, Seq<char>)> {
        text_pairs(self.entries@)
    }

    /// An empty map.
    pub fn new() -> (out: Self)
        ensures
            out@ == Map::<Seq<char>, Seq<char>>::empty(),
            out.pairs().len() == 0,
    {
        let out = FieldMap { entries: Vec::new() };
        assert(text_pairs(out.entries@) =~= Seq::empty());
        out
    }

    /// Writes `value` under `key`, replacing an earlier value.
    pub fn insert(&mut self, key: String, value: String)
        ensures
            final(self)@ == old(self)@.insert(key@, value@),
    {
        proof {
            use_type_invariant(&*self);
        }
        let ghost p = text_pairs(self.entries@);
        let kc = chars_of(key.as_str());
        let mut pos: usize = 0;
        while pos < self.entries.len()
            invariant
                pos <= self.entries.len(),
                p == text_pairs(self.entries@),
                kc@ == key@,
                forall|j: int| 0 <= j < pos ==> text_less(#[trigger] p[j].0, key@),
            ensures
                pos <= self.entries.len(),
                forall|j: int| 0 <= j < pos ==> text_less(#[trigger] p[j].0, key@),
                pos < self.entries.len() ==> !text_less(p[pos as int].0, key@),
            decreases self.entries.len() - pos,
        {
            let ec = chars_of(self.entries[pos].0.as_str());
            assert(p[pos as int].0 == ec@);
            if !chars_less(ec.as_slice(), kc.as_slice()) {
                break;
            }
            pos = pos + 1;
        }
        let same = if pos < self.entries.len() {
            let ec = chars_of(self.entries[pos].0.as_str());
            crate::text::chars_eq(ec.as_slice(), kc.as_slice())
        } else {
            false
        };
        let ghost new_pair = (key@, value@);
        let mut entries: Vec<(String, String)> = Vec::new();
        std::mem::swap(&mut entries, &mut self.entries);
        if same {
            entries.set(pos, (key, value));
            let ghost q = text_pairs(entries@);
            assert(q =~= p.update(pos as int, new_pair));
            proof {
                self.lemma_insert_replaces(p, q, pos as int, new_pair);
            }
        } else {
            entries.insert(pos, (key, value));
            let ghost q = text_pairs(entries@);
            assert(q =~= p.insert(pos as int, new_pair));
            proof {
                self.lemma_insert_adds(p, q, pos as int, new_pair);
            }
        }
        self.entries = entries;
    }

    proof fn lemma_insert_replaces(
        &self,
        p: Seq<(Seq<char>, Seq<char>)>,
        q: Seq<(Seq<char>, Seq<char>)>,
        pos: int,
        e: (Seq<char>, Seq<char>),
    )
        requires
            keys_increasing(p),
            0 <= pos < p.len(),
            p[pos].0 == e.0,
            q == p.update(pos, e),
        ensures
            keys_increasing(q),
            pairs_map(q) == pairs_map(p).insert(e.0, e.1),
    {
        assert forall|i: int, j: int| 0 <= i < j < q.len() implies text_less(
            #[trigger] q[i].0,
            #[trigger] q[j].0,
        ) by {
            assert(text_less(p[i].0, p[j].0));
        }
        assert forall|k: Seq<char>| #![auto]
            pairs_map(q).contains_key(k) <==> pairs_map(p).insert(e.0, e.1).contains_key(k) by {
            lemma_pairs_map_dom(q, k);
            lemma_pairs_map_dom(p, k);
            if exists|i: int| 0 <= i < p.len() && #[trigger] p[i].0 == k {
                let i = choose|i: int| 0 <= i < p.len() && #[trigger] p[i].0 == k;
                assert(q[i].0 == k);
            }
            if exists|i: int| 0 <= i < q.len() && #[trigger] q[i].0 == k {
                let i = choose|i: int| 0 <= i < q.len() && #[trigger] q[i].0 == k;
                if i != pos {
                    assert(p[i].0 == k);
                }
            }
        }
        assert forall|k: Seq<char>| #[trigger] pairs_map(q).contains_key(k) implies pairs_map(q)[k]
            == pairs_map(p).insert(e.0, e.1)[k] by {
            lemma_pairs_map_dom(q, k);
            let i = choose|i: int| 0 <= i < q.len() && #[trigger] q[i].0 == k;
            lemma_pairs_map_value(q, i);
            if i != pos {
                lemma_pairs_map_value(p, i);
                assert(text_less(p[i].0, p[pos].0) || text_less(p[pos].0, p[i].0));
                if i < pos {
                    assert(text_less(p[i].0, p[pos].0));
                } else {
                    assert(text_less(p[pos].0, p[i].0));
                }
                lemma_text_less_irreflexive(k);
            }
        }
        assert(pairs_map(q) =~= pairs_map(p).insert(e.0, e.1));
    }

    proof fn lemma_insert_adds(
        &self,
        p: Seq<(Seq<char>, Seq<char>)>,
        q: Seq<(Seq<char>, Seq<char>)>,
        pos: int,
        e: (Seq<char>, Seq<char>),
    )
        requires
            keys_increasing(p),
            0 <= pos <= p.len(),
            forall|j: int| 0 <= j < pos ==> text_less(#[trigger] p[j].0, e.0),
            pos < p.len() ==> !text_less(p[pos].0, e.0) && p[pos].0 != e.0,
            q == p.insert(pos, e),
        ensures
            keys_increasing(q),
            pairs_map(q) == pairs_map(p).insert(e.0, e.1),
    {
        if pos < p.len() {
            lemma_text_less_total(p[pos].0, e.0);
        }
        assert forall|j: int| pos <= j < p.len() implies text_less(e.0, #[trigger] p[j].0) by {
            if j > pos {
                assert(text_less(p[pos].0, p[j].0));
                lemma_text_less_transitive(e.0, p[pos].0, p[j].0);
            }
        }
        assert forall|i: int, j: int| 0 <= i < j < q.len() implies text_less(
            #[trigger] q[i].0,
            #[trigger] q[j].0,
        ) by {
            if j < pos {
                assert(text_less(p[i].0, p[j].0));
            } else if j == pos {
                assert(q[j] == e);
            } else if i < pos {
                assert(q[j] == p[j - 1]);
                assert(text_less(p[i].0, e.0));
                assert(text_less(e.0, p[j - 1].0));
                lemma_text_less_transitive(p[i].0, e.0, p[j - 1].0);
            } else if i == pos {
                assert(q[j] == p[j - 1]);
            } else {
                assert(text_less(p[i - 1].0, p[j - 1].0));
            }
        }
        assert forall|k: Seq<char>| #![auto]
            pairs_map(q).contains_key(k) <==> pairs_map(p).insert(e.0, e.1).contains_key(k) by {
            lemma_pairs_map_dom(q, k);
            lemma_pairs_map_dom(p, k);
            if exists|i: int| 0 <= i < p.len() && #[trigger] p[i].0 == k {
                let i = choose|i: int| 0 <= i < p.len() && #[trigger] p[i].0 == k;
                if i < pos {
                    assert(q[i].0 == k);
                } else {
                    assert(q[i + 1].0 == k);
                }
            }
            if k == e.0 {
                assert(q[pos].0 == k);
            }
            if exists|i: int| 0 <= i < q.len() && #[trigger] q[i].0 == k {
                let i = choose|i: int| 0 <= i < q.len() && #[trigger] q[i].0 == k;
                if i < pos {
                    assert(p[i].0 == k);
                } else if i > pos {
                    assert(p[i - 1].0 == k);
                }
            }
        }
        assert forall|k: Seq<char>| #[trigger] pairs_map(q).contains_key(k) implies pairs_map(q)[k]
            == pairs_map(p).insert(e.0, e.1)[k] by {
            lemma_pairs_map_dom(q, k);
            let i = choose|i: int| 0 <= i < q.len() && #[trigger] q[i].0 == k;
            lemma_pairs_map_value(q, i);
            if i < pos {
                lemma_pairs_map_value(p, i);
                assert(text_less(k, e.0));
                lemma_text_less_irreflexive(k);
            } else if i > pos {
                lemma_pairs_map_value(p, i - 1);
                assert(text_less(e.0, k));
                lemma_text_less_irreflexive(k);
            }
        }
        assert(pairs_map(q) =~= pairs_map(p).insert(e.0, e.1));
    }

    /// Writes `value` under the key `key`.
    pub fn insert_str(&mut self, key: &str, value: String)
        ensures
            final(self)@ == old(self)@.insert(key@, value@),
    {
        self.insert(owned(key), value);
    }

    /// The entries in increasing key order, each key once.
    pub fn entries(&self) -> (out: &[(String, String)])
        ensures
            text_pairs(out@) == self.pairs(),
            keys_increasing(text_pairs(out@)),
            pairs_map(text_pairs(out@)) == self@,
    {
        proof {
            use_type_invariant(self);
        }
        self.entries.as_slice()
    }

    /// The value written under `key`, if any.
    pub fn get(&self, key: &str) -> (out: Option<&String>)
        ensures
            match out {
                Some(v) => self@.contains_key(key@) && v@ == self@[key@],
                None => !self@.contains_key(key@),
            },
    {
        proof {
            use_type_invariant(self);
        }
        let ghost p = text_pairs(self.entries@);
        let mut i: usize = 0;
        while i < self.entries.len()
            invariant
                i <= self.entries.len(),
                p == text_pairs(self.entries@),
                keys_increasing(p),
                forall|j: int| 0 <= j < i ==> #[trigger] p[j].0 != key@,
            decreases self.entries.len() - i,
        {
            if crate::text::str_eq(self.entries[i].0.as_str(), key) {
                proof {
                    lemma_pairs_map_value(p, i as int);
                }
                return Some(&self.entries[i].1);
            }
            i = i + 1;
        }
        proof {
            lemma_pairs_map_dom(p, key@);
        }
        None
    }

    /// A copy of the map.
    pub fn copy(&self) -> (out: Self)
        ensures
            out@ == self@,
            out.pairs() == self.pairs(),
    {
        proof {
            use_type_invariant(self);
        }
        let mut entries: Vec<(String, String)> = Vec::new();
        let mut i: usize = 0;
        while i < self.entries.len()
            invariant
                i <= self.entries.len(),
                text_pairs(entries@) =~= text_pairs(self.entries@).take(i as int),
            decreases self.entries.len() - i,
        {
            let k = self.entries[i].0.clone();
            let v = self.entries[i].1.clone();
            let ghost before = entries@;
            entries.push((k, v));
            assert(text_pairs(entries@) =~= text_pairs(before).push((k@, v@)));
            i = i + 1;
        }
        assert(text_pairs(self.entries@).take(self.entries.len() as int) =~= text_pairs(
            self.entries@,
        ));
        FieldMap { entries }
    }
}

impl Clone for FieldMap {
    fn clone(&self) -> (out: Self)
        ensures
            out@ == self@,
    {
        self.copy()
    }
}

impl Default for FieldMap {
    fn default() -> (out: Self)
        ensures
            out@ == Map::<Seq<char>, Seq<char>>::empty(),
    {
        FieldMap::new()
    }
}

} // verus!
