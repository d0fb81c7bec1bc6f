//! A string-keyed map of any values kept in key order, as a
//! `BTreeMap<String, V>`.

use vstd::prelude::*;
use crate::fields::{chars_less, lemma_text_less_irreflexive, lemma_text_less_total, lemma_text_less_transitive, text_less};
use crate::text::chars_of;

verus! {

/// The keys' text of a list of pairs.
pub open spec fn keyed_pairs<T>(entries: Seq<(String, T)>) -> Seq<(Seq<char>, T)> {
    entries.map_values(|e: (String, T)| (e.0@, e.1))
}

/// The map that a list of pairs gives, later pairs winning.
pub open spec fn keyed_map<T>(p: Seq<(Seq<char>, T)>) -> Map<Seq<char>, T>
    decreases p.len(),
{
    if p.len() == 0 {
        Map::empty()
    } else {
        keyed_map(p.drop_last()).insert(p.last().0, p.last().1)
    }
}

/// Whether the keys of a list of pairs strictly increase.
pub open spec fn keys_increasing_g<T>(p: Seq<(Seq<char>, T)>) -> bool {
    forall|i: int, j: int| 0 <= i < j < p.len() ==> text_less(#[trigger] p[i].0, #[trigger] p[j].0)
}

/// A key is in the map of a list of pairs exactly when some pair has it.
pub proof fn lemma_keyed_map_dom<T>(p: Seq<(Seq<char>, T)>, k: Seq<char>)
    ensures
        keyed_map(p).contains_key(k) <==> exists|i: int| 0 <= i < p.len() && #[trigger] p[i].0 == k,
    decreases p.len(),
{
    if p.len() > 0 {
        lemma_keyed_map_dom(p.drop_last(), k);
        if keyed_map(p.drop_last()).contains_key(k) {
            let i = choose|i: int| 0 <= i < p.drop_last().len() && #[trigger] p.drop_last()[i].0 == k;
            assert(p[i].0 == k);
        }
        if exists|i: int| 0 <= i < p.len() && #[trigger] p[i].0 == k {
            let i = choose|i: int| 0 <= i < p.len() && #[trigger] p[i].0 == k;
            if i < p.len() - 1 {
                assert(p.drop_last()[i].0 == k);
            }
        }
    }
}

/// With increasing keys, each pair's value is the map's value for its key.
pub proof fn lemma_keyed_map_value<T>(p: Seq<(Seq<char>, T)>, i: int)
    requires
        keys_increasing_g(p),
        0 <= i < p.len(),
    ensures
        keyed_map(p).contains_key(p[i].0),
        keyed_map(p)[p[i].0] == p[i].1,
    decreases p.len(),
{
    if i < p.len() - 1 {
        assert(keys_increasing_g(p.drop_last()));
        assert(p.drop_last()[i] == p[i]);
        lemma_keyed_map_value(p.drop_last(), i);
        assert(text_less(p[i].0, p[p.len() - 1].0));
        lemma_text_less_irreflexive(p[i].0);
    }
}

/// A string-keyed map of any values, its entries kept in key order.
pub struct TextMap<T> {
    entries: Vec<(String, T)>,
}

impl<T> View for TextMap<T> {
    type V = Map<Seq<char>, T>;

    closed spec fn view(&self) -> Map<Seq<char>, T> {
        keyed_map(keyed_pairs(self.entries@))
    }
}

impl<T> TextMap<T> {
    #[verifier::type_invariant]
    spec fn sorted(&self) -> bool {
        keys_increasing_g(keyed_pairs(self.entries@))
    }

    /// The entries in key order.
    pub closed spec fn pairs(&self) -> Seq<(Seq<char>, T)> {
        keyed_pairs(self.entries@)
    }

    /// An empty map.
    pub fn new() -> (out: Self)
        ensures
            out@ == Map::<Seq<char>, T>::empty(),
            out.pairs().len() == 0,
    {
        let out = TextMap { entries: Vec::new() };
        assert(keyed_pairs(out.entries@) =~= Seq::empty());
        out
    }

    /// Writes `value` under `key`, replacing an earlier value.
    pub fn insert(&mut self, key: String, value: T)
        ensures
            final(self)@ == old(self)@.insert(key@, value),
    {
        proof {
            use_type_invariant(&*self);
        }
        let ghost p = keyed_pairs(self.entries@);
        let kc = chars_of(key.as_str());
        let mut pos: usize = 0;
        while pos < self.entries.len()
            invariant
                pos <= self.entries.len(),
                p == keyed_pairs(self.entries@),
                kc@ == key@,
                forall|j: int| 0 <= j < pos ==> text_less(#[trigger] p[j].0, key@),
            ensures
                pos <= self.entries.len(),
                forall|j: int| 0 <= j < pos ==> text_less(#[trigger] p[j].0, key@),
                pos < self.entries.len() ==> !text_less(p[pos as int].0, key@),
            decreases self.entries.len() - pos,
        {
            let ec = chars_of(self.entries[pos].0.as_str());
            assert(p[pos as int].0 == ec@);
            if !chars_less(ec.as_slice(), kc.as_slice()) {
                break;
            }
            pos = pos + 1;
        }
        let same = if pos < self.entries.len() {
            let ec = chars_of(self.entries[pos].0.as_str());
            crate::text::chars_eq(ec.as_slice(), kc.as_slice())
        } else {
            false
        };
        let ghost new_pair = (key@, value);
        let mut entries: Vec<(String, T)> = Vec::new();
        std::mem::swap(&mut entries, &mut self.entries);
        if same {
            entries.set(pos, (key, value));
            let ghost q = keyed_pairs(entries@);
            assert(q =~= p.update(pos as int, new_pair));
            proof {
                self.lemma_insert_replaces(p, q, pos as int, new_pair);
            }
        } else {
            entries.insert(pos, (key, value));
            let ghost q = keyed_pairs(entries@);
            assert(q =~= p.insert(pos as int, new_pair));
            proof {
                self.lemma_insert_adds(p, q, pos as int, new_pair);
            }
        }
        self.entries = entries;
    }

    proof fn lemma_insert_replaces(
        &self,
        p: Seq<(Seq<char>, T)>,
        q: Seq<(Seq<char>, T)>,
        pos: int,
        e: (Seq<char>, T),
    )
        requires
            keys_increasing_g(p),
            0 <= pos < p.len(),
            p[pos].0 == e.0,
            q == p.update(pos, e),
        ensures
            keys_increasing_g(q),
            keyed_map(q) == keyed_map(p).insert(e.0, e.1),
    {
        assert forall|i: int, j: int| 0 <= i < j < q.len() implies text_less(
            #[trigger] q[i].0,
            #[trigger] q[j].0,
        ) by {
            assert(text_less(p[i].0, p[j].0));
        }
        assert forall|k: Seq<char>| #![auto]
            keyed_map(q).contains_key(k) <==> keyed_map(p).insert(e.0, e.1).contains_key(k) by {
            lemma_keyed_map_dom(q, k);
            lemma_keyed_map_dom(p, k);
            if exists|i: int| 0 <= i < p.len() && #[trigger] p[i].0 == k {
                let i = choose|i: int| 0 <= i < p.len() && #[trigger] p[i].0 == k;
                assert(q[i].0 == k);
            }
            if exists|i: int| 0 <= i < q.len() && #[trigger] q[i].0 == k {
                let i = choose|i: int| 0 <= i < q.len() && #[trigger] q[i].0 == k;
                if i != pos {
                    assert(p[i].0 == k);
                }
            }
        }
        assert forall|k: Seq<char>| #[trigger] keyed_map(q).contains_key(k) implies keyed_map(q)[k]
            == keyed_map(p).insert(e.0, e.1)[k] by {
            lemma_keyed_map_dom(q, k);
            let i = choose|i: int| 0 <= i < q.len() && #[trigger] q[i].0 == k;
            lemma_keyed_map_value(q, i);
            if i != pos {
                lemma_keyed_map_value(p, i);
                assert(text_less(p[i].0, p[pos].0) || text_less(p[pos].0, p[i].0));
                if i < pos {
                    assert(text_less(p[i].0, p[pos].0));
                } else {
                    assert(text_less(p[pos].0, p[i].0));
                }
                lemma_text_less_irreflexive(k);
            }
        }
        assert(keyed_map(q) =~= keyed_map(p).insert(e.0, e.1));
    }

    proof fn lemma_insert_adds(
        &self,
        p: Seq<(Seq<char>, T)>,
        q: Seq<(Seq<char>, T)>,
        pos: int,
        e: (Seq<char>, T),
    )
        requires
            keys_increasing_g(p),
            0 <= pos <= p.len(),
            forall|j: int| 0 <= j < pos ==> text_less(#[trigger] p[j].0, e.0),
            pos < p.len() ==> !text_less(p[pos].0, e.0) && p[pos].0 != e.0,
            q == p.insert(pos, e),
        ensures
            keys_increasing_g(q),
            keyed_map(q) == keyed_map(p).insert(e.0, e.1),
    {
        if pos < p.len() {
            lemma_text_less_total(p[pos].0, e.0);
        }
        assert forall|j: int| pos <= j < p.len() implies text_less(e.0, #[trigger] p[j].0) by {
            if j > pos {
                assert(text_less(p[pos].0, p[j].0));
                lemma_text_less_transitive(e.0, p[pos].0, p[j].0);
            }
        }
        assert forall|i: int, j: int| 0 <= i < j < q.len() implies text_less(
            #[trigger] q[i].0,
            #[trigger] q[j].0,
        ) by {
            if j < pos {
                assert(text_less(p[i].0, p[j].0));
            } else if j == pos {
                assert(q[j] == e);
            } else if i < pos {
                assert(q[j] == p[j - 1]);
                assert(text_less(p[i].0, e.0));
                assert(text_less(e.0, p[j - 1].0));
                lemma_text_less_transitive(p[i].0, e.0, p[j - 1].0);
            } else if i == pos {
                assert(q[j] == p[j - 1]);
            } else {
                assert(text_less(p[i - 1].0, p[j - 1].0));
            }
        }
        assert forall|k: Seq<char>| #![auto]
            keyed_map(q).contains_key(k) <==> keyed_map(p).insert(e.0, e.1).contains_key(k) by {
            lemma_keyed_map_dom(q, k);
            lemma_keyed_map_dom(p, k);
            if exists|i: int| 0 <= i < p.len() && #[trigger] p[i].0 == k {
                let i = choose|i: int| 0 <= i < p.len() && #[trigger] p[i].0 == k;
                if i < pos {
                    assert(q[i].0 == k);
                } else {
                    assert(q[i + 1].0 == k);
                }
            }
            if k == e.0 {
                assert(q[pos].0 == k);
            }
            if exists|i: int| 0 <= i < q.len() && #[trigger] q[i].0 == k {
                let i = choose|i: int| 0 <= i < q.len() && #[trigger] q[i].0 == k;
                if i < pos {
                    assert(p[i].0 == k);
                } else if i > pos {
                    assert(p[i - 1].0 == k);
                }
            }
        }
        assert forall|k: Seq<char>| #[trigger] keyed_map(q).contains_key(k) implies keyed_map(q)[k]
            == keyed_map(p).insert(e.0, e.1)[k] by {
            lemma_keyed_map_dom(q, k);
            let i = choose|i: int| 0 <= i < q.len() && #[trigger] q[i].0 == k;
            lemma_keyed_map_value(q, i);
            if i < pos {
                lemma_keyed_map_value(p, i);
                assert(text_less(k, e.0));
                lemma_text_less_irreflexive(k);
            } else if i > pos {
                lemma_keyed_map_value(p, i - 1);
                assert(text_less(e.0, k));
                lemma_text_less_irreflexive(k);
            }
        }
        assert(keyed_map(q) =~= keyed_map(p).insert(e.0, e.1));
    }

    /// The value written under `key`, if any.
    pub fn get(&self, key: &str) -> (out: Option<&T>)
        ensures
            match out {
                Some(v) => self@.contains_key(key@) && *v == self@[key@],
                None => !self@.contains_key(key@),
            },
    {
        proof {
            use_type_invariant(self);
        }
        let ghost p = keyed_pairs(self.entries@);
        let mut i: usize = 0;
        while i < self.entries.len()
            invariant
                i <= self.entries.len(),
                p == keyed_pairs(self.entries@),
                keys_increasing_g(p),
                forall|j: int| 0 <= j < i ==> #[trigger] p[j].0 != key@,
            decreases self.entries.len() - i,
        {
            if crate::text::str_eq(self.entries[i].0.as_str(), key) {
                proof {
                    lemma_keyed_map_value(p, i as int);
                }
                return Some(&self.entries[i].1);
            }
            i = i + 1;
        }
        proof {
            lemma_keyed_map_dom(p, key@);
        }
        None
    }

    /// The entries in increasing key order, each key once.
    pub fn entries(&self) -> (out: &[(String, T)])
        ensures
            keyed_pairs(out@) == self.pairs(),
            keys_increasing_g(keyed_pairs(out@)),
            keyed_map(keyed_pairs(out@)) == self@,
    {
        proof {
            use_type_invariant(self);
        }
        self.entries.as_slice()
    }
}

} // verus!
