use vstd::prelude::*;

use crate::kv::KvPair;

verus! {

/// A body field as a pair of texts.
pub open spec fn kv_view(p: KvPair) -> (Seq<char>, Seq<char>) {
    (p.k@, p.v@)
}

/// The mapping that a sequence of fields gives when each field is inserted in
/// turn: a later field overwrites an earlier one with the same key.
pub open spec fn body_map(pairs: Seq<(Seq<char>, Seq<char>)>) -> Map<Seq<char>, Seq<char>>
    decreases pairs.len(),
{
    if pairs.len() == 0 {
        Map::empty()
    } else {
        body_map(pairs.drop_last()).insert(pairs.last().0, pairs.last().1)
    }
}

/// The keys of a sequence of fields, each once, in the order of its first
/// occurrence.
pub open spec fn first_keys(pairs: Seq<(Seq<char>, Seq<char>)>) -> Seq<Seq<char>>
    decreases pairs.len(),
{
    if pairs.len() == 0 {
        Seq::empty()
    } else if body_map(pairs.drop_last()).contains_key(pairs.last().0) {
        first_keys(pairs.drop_last())
    } else {
        first_keys(pairs.drop_last()).push(pairs.last().0)
    }
}

/// The key-to-value mapping of a request body. Keys are unique and kept in the
/// order in which they first appeared.
#[derive(Debug, Clone)]
pub struct EncodedBody {
    entries: Vec<(String, String)>,
}

impl EncodedBody {
    /// No key appears twice.
    pub closed spec fn wf(&self) -> bool {
        forall|i: int, j: int|
            0 <= i < j < self.entries@.len() ==> #[trigger] self.entries@[i].0@
                != #[trigger] self.entries@[j].0@
    }

    /// The keys, in order of each key's first appearance.
    pub closed spec fn keys(&self) -> Seq<Seq<char>> {
        self.entries@.map_values(|e: (String, String)| e.0@)
    }

    pub closed spec fn has_key(&self, k: Seq<char>) -> bool {
        exists|j: int| 0 <= j < self.entries@.len() && #[trigger] self.entries@[j].0@ == k
    }

    pub closed spec fn view(&self) -> Map<Seq<char>, Seq<char>> {
        Map::new(
            |k: Seq<char>| self.has_key(k),
            |k: Seq<char>|
                self.entries@[choose|j: int|
                    0 <= j < self.entries@.len() && #[trigger] self.entries@[j].0@ == k].1@,
        )
    }

    /// The entries, in order of each key's first appearance.
    pub fn entries(&self) -> (r: &Vec<(String, String)>)
        requires
            self.wf(),
        ensures
            r@.len() == self.keys().len(),
            forall|j: int| 0 <= j < r@.len() ==> (#[trigger] r@[j]).0@ == self.keys()[j],
            forall|a: int, b: int| 0 <= a < b < r@.len() ==> #[trigger] r@[a].0@ != #[trigger] r@[b].0@,
            forall|j: int|
                0 <= j < r@.len() ==> self@.contains_key(#[trigger] r@[j].0@) && self@[r@[j].0@]
                    == r@[j].1@,
            forall|k: Seq<char>|
                #[trigger] self@.contains_key(k) ==> exists|j: int| 0 <= j < r@.len() && #[trigger] r@[j].0@ == k,
    {
        proof {
            assert forall|j: int| 0 <= j < self.entries@.len() implies self@.contains_key(
                #[trigger] self.entries@[j].0@,
            ) && self@[self.entries@[j].0@] == self.entries@[j].1@ by {
                let k = self.entries@[j].0@;
                assert(self.has_key(k));
                let m = choose|m: int| 0 <= m < self.entries@.len() && #[trigger] self.entries@[m].0@ == k;
                if m < j {
                    assert(self.entries@[m].0@ != self.entries@[j].0@);
                } else if j < m {
                    assert(self.entries@[j].0@ != self.entries@[m].0@);
                }
            }
        }
        &self.entries
    }

    /// The number of distinct keys.
    pub fn len(&self) -> (r: usize)
        requires
            self.wf(),
        ensures
            r == self@.dom().len(),
    {
        proof {
            self.lemma_dom_len();
        }
        self.entries.len()
    }

    proof fn lemma_dom_len(&self)
        requires
            self.wf(),
        ensures
            self@.dom().len() == self.entries@.len(),
    {
        let keys = self.entries@.map_values(|e: (String, String)| e.0@);
        assert(keys.no_duplicates()) by {
            assert forall|i: int, j: int|
                0 <= i < keys.len() && 0 <= j < keys.len() && i != j implies keys[i]
                != keys[j] by {
                if i < j {
                    assert(self.entries@[i].0@ != self.entries@[j].0@);
                } else {
                    assert(self.entries@[j].0@ != self.entries@[i].0@);
                }
            }
        }
        assert(self@.dom() =~= keys.to_set()) by {
            assert forall|k: Seq<char>| self@.dom().contains(k) implies keys.to_set().contains(k) by {
                let j = choose|j: int| 0 <= j < self.entries@.len() && #[trigger] self.entries@[j].0@ == k;
                assert(keys[j] == k);
            }
            assert forall|k: Seq<char>| keys.to_set().contains(k) implies self@.dom().contains(k) by {
                let j = choose|j: int| 0 <= j < keys.len() && keys[j] == k;
                assert(self.entries@[j].0@ == k);
            }
        }
        keys.unique_seq_to_set();
    }
}

/// Encodes body fields in order into a mapping; where a key comes twice, the
/// later value wins.
pub fn encode_body(pairs: &Vec<KvPair>) -> (r: EncodedBody)
    ensures
        r.wf(),
        r@ == body_map(pairs@.map_values(|p: KvPair| kv_view(p))),
        r.keys() == first_keys(pairs@.map_values(|p: KvPair| kv_view(p))),
{
    let ghost ps = pairs@.map_values(|p: KvPair| kv_view(p));
    let mut entries: Vec<(String, String)> = Vec::new();
    let mut i: usize = 0;
    while i < pairs.len()
        invariant
            i <= pairs.len(),
            ps == pairs@.map_values(|p: KvPair| kv_view(p)),
            entries@.map_values(|e: (String, String)| e.0@) == first_keys(ps.subrange(0, i as int)),
            forall|a: int, b: int|
                0 <= a < b < entries@.len() ==> #[trigger] entries@[a].0@
                    != #[trigger] entries@[b].0@,
            forall|k: Seq<char>|
                #![trigger body_map(ps.subrange(0, i as int)).contains_key(k)]
                body_map(ps.subrange(0, i as int)).contains_key(k) <==> exists|j: int|
                    0 <= j < entries@.len() && #[trigger] entries@[j].0@ == k,
            forall|j: int|
                0 <= j < entries@.len() ==> body_map(ps.subrange(0, i as int))[#[trigger] entries@[j].0@]
                    == entries@[j].1@,
        decreases pairs.len() - i,
    {
        let ghost before = ps.subrange(0, i as int);
        let ghost after = ps.subrange(0, i as int + 1);
        assert(after.drop_last() =~= before);
        assert(after.last() == ps[i as int]);
        let key = pairs[i].k.clone();
        let value = pairs[i].v.clone();
        let mut j: usize = 0;
        while j < entries.len() && entries[j].0 != key
            invariant
                j <= entries@.len(),
                forall|m: int| 0 <= m < j ==> (#[trigger] entries@[m]).0@ != key@,
            decreases entries@.len() - j,
        {
            j = j + 1;
        }
        if j < entries.len() {
            let ghost old_entries = entries@;
            entries.set(j, (key, value));
            assert(body_map(before).contains_key(key@)) by {
                assert(old_entries[j as int].0@ == key@);
            }
            assert(entries@.map_values(|e: (String, String)| e.0@) =~= old_entries.map_values(
                |e: (String, String)| e.0@,
            ));
            assert forall|a: int, b: int| 0 <= a < b < entries@.len() implies #[trigger] entries@[a].0@
                != #[trigger] entries@[b].0@ by {
                assert(old_entries[a].0@ != old_entries[b].0@);
            }
            assert forall|k: Seq<char>|
                #![trigger body_map(after).contains_key(k)]
                body_map(after).contains_key(k) <==> exists|m: int|
                    0 <= m < entries@.len() && #[trigger] entries@[m].0@ == k by {
                if body_map(before).contains_key(k) {
                    let m = choose|m: int| 0 <= m < old_entries.len() && #[trigger] old_entries[m].0@ == k;
                    assert(entries@[m].0@ == k);
                }
                if exists|m: int| 0 <= m < entries@.len() && #[trigger] entries@[m].0@ == k {
                    let m = choose|m: int| 0 <= m < entries@.len() && #[trigger] entries@[m].0@ == k;
                    assert(old_entries[m].0@ == k);
                }
            }
            assert forall|m: int| 0 <= m < entries@.len() implies body_map(after)[#[trigger] entries@[m].0@]
                == entries@[m].1@ by {
                if m != j {
                    if m < j {
                        assert(old_entries[m].0@ != old_entries[j as int].0@);
                    } else {
                        assert(old_entries[j as int].0@ != old_entries[m].0@);
                    }
                }
            }
        } else {
            let ghost old_entries = entries@;
            assert(!body_map(before).contains_key(key@));
            entries.push((key, value));
            assert(entries@.map_values(|e: (String, String)| e.0@) =~= old_entries.map_values(
                |e: (String, String)| e.0@,
            ).push(key@));
            assert forall|k: Seq<char>|
                #![trigger body_map(after).contains_key(k)]
                body_map(after).contains_key(k) <==> exists|m: int|
                    0 <= m < entries@.len() && #[trigger] entries@[m].0@ == k by {
                if body_map(before).contains_key(k) {
                    let m = choose|m: int| 0 <= m < old_entries.len() && #[trigger] old_entries[m].0@ == k;
                    assert(entries@[m].0@ == k);
                }
                if k == key@ {
                    assert(entries@[j as int].0@ == k);
                }
                if exists|m: int| 0 <= m < entries@.len() && #[trigger] entries@[m].0@ == k {
                    let m = choose|m: int| 0 <= m < entries@.len() && #[trigger] entries@[m].0@ == k;
                    if m < old_entries.len() {
                        assert(old_entries[m].0@ == k);
                    }
                }
            }
        }
        i = i + 1;
    }
    assert(ps.subrange(0, i as int) =~= ps);
    let r = EncodedBody { entries };
    assert(r.keys() == first_keys(ps));
    assert(r@ =~= body_map(ps)) by {
        assert forall|k: Seq<char>| #[trigger] r@.contains_key(k) implies r@[k] == body_map(ps)[k] by {
            let j = choose|j: int| 0 <= j < r.entries@.len() && #[trigger] r.entries@[j].0@ == k;
            assert(body_map(ps.subrange(0, i as int))[r.entries@[j].0@] == r.entries@[j].1@);
        }
    }
    r
}

/// Where a key comes more than once among the fields, the encoded value for it
/// is the value of its last occurrence.
pub proof fn lemma_last_occurrence_wins(pairs: Seq<(Seq<char>, Seq<char>)>, i: int)
    requires
        0 <= i < pairs.len(),
        forall|j: int| i < j < pairs.len() ==> (#[trigger] pairs[j]).0 != pairs[i].0,
    ensures
        body_map(pairs).contains_key(pairs[i].0),
        body_map(pairs)[pairs[i].0] == pairs[i].1,
    decreases pairs.len(),
{
    if i < pairs.len() - 1 {
        let rest = pairs.drop_last();
        assert(pairs.last() == pairs[pairs.len() - 1]);
        assert forall|j: int| i < j < rest.len() implies (#[trigger] rest[j]).0 != rest[i].0 by {
            assert(rest[j] == pairs[j]);
        }
        lemma_last_occurrence_wins(rest, i);
    }
}

/// Encoding no fields gives the empty mapping, which is serialized as `{}`.
pub proof fn lemma_empty_body()
    ensures
        body_map(Seq::empty()) == Map::<Seq<char>, Seq<char>>::empty(),
{
}

} // verus!
