//! A small map keyed by a profile id and an item id, kept as a vector of entries
//! with no key twice.
use vstd::prelude::*;

use crate::text::{chars_of, str_eq, string_of};

verus! {

pub type PairKey = (Seq<char>, Seq<char>);

pub open spec fn entry_key<V>(e: (String, String, V)) -> PairKey {
    (e.0@, e.1@)
}

pub open spec fn pair_entries_map<V>(es: Seq<(String, String, V)>) -> Map<PairKey, V>
    decreases es.len(),
{
    if es.len() == 0 {
        Map::empty()
    } else {
        pair_entries_map(es.drop_last()).insert(entry_key(es.last()), es.last().2)
    }
}

pub open spec fn pair_keys_unique<V>(es: Seq<(String, String, V)>) -> bool {
    forall|i: int, j: int| 0 <= i < j < es.len() ==> entry_key(es[i]) != entry_key(es[j])
}

proof fn lemma_contains<V>(es: Seq<(String, String, V)>, k: PairKey)
    ensures
        pair_entries_map(es).contains_key(k) <==> exists|i: int|
            0 <= i < es.len() && entry_key(es[i]) == k,
    decreases es.len(),
{
    if es.len() > 0 {
        lemma_contains(es.drop_last(), k);
        if pair_entries_map(es.drop_last()).contains_key(k) {
            let i = choose|i: int| 0 <= i < es.drop_last().len() && entry_key(es.drop_last()[i]) == k;
            assert(entry_key(es[i]) == k);
        }
        if exists|i: int| 0 <= i < es.len() && entry_key(es[i]) == k {
            let i = choose|i: int| 0 <= i < es.len() && entry_key(es[i]) == k;
            if i < es.len() - 1 {
                assert(entry_key(es.drop_last()[i]) == k);
            }
        }
    }
}

proof fn lemma_at<V>(es: Seq<(String, String, V)>, i: int)
    requires
        pair_keys_unique(es),
        0 <= i < es.len(),
    ensures
        pair_entries_map(es).contains_key(entry_key(es[i])),
        pair_entries_map(es)[entry_key(es[i])] == es[i].2,
    decreases es.len(),
{
    if i < es.len() - 1 {
        let p = es.drop_last();
        assert(p[i] == es[i]);
        lemma_at(p, i);
        assert(entry_key(es[i]) != entry_key(es.last()));
    }
}

proof fn lemma_update<V>(es: Seq<(String, String, V)>, i: int, v: V)
    requires
        pair_keys_unique(es),
        0 <= i < es.len(),
    ensures
        pair_keys_unique(es.update(i, (es[i].0, es[i].1, v))),
        pair_entries_map(es.update(i, (es[i].0, es[i].1, v))) == pair_entries_map(es).insert(
            entry_key(es[i]),
            v,
        ),
    decreases es.len(),
{
    let u = es.update(i, (es[i].0, es[i].1, v));
    assert forall|a: int, b: int| 0 <= a < b < u.len() implies entry_key(u[a]) != entry_key(
        u[b],
    ) by {
        assert(entry_key(u[a]) == entry_key(es[a]) && entry_key(u[b]) == entry_key(es[b]));
    }
    if i == es.len() - 1 {
        assert(u.drop_last() =~= es.drop_last());
        assert(pair_entries_map(u) =~= pair_entries_map(es).insert(entry_key(es[i]), v));
    } else {
        let p = es.drop_last();
        lemma_update(p, i, v);
        assert(u.drop_last() =~= p.update(i, (p[i].0, p[i].1, v)));
        assert(entry_key(es[i]) != entry_key(es.last()));
        assert(pair_entries_map(u) =~= pair_entries_map(es).insert(entry_key(es[i]), v));
    }
}

proof fn lemma_push<V>(es: Seq<(String, String, V)>, e: (String, String, V))
    requires
        pair_keys_unique(es),
        !pair_entries_map(es).contains_key(entry_key(e)),
    ensures
        pair_keys_unique(es.push(e)),
        pair_entries_map(es.push(e)) == pair_entries_map(es).insert(entry_key(e), e.2),
{
    lemma_contains(es, entry_key(e));
    let q = es.push(e);
    assert(q.drop_last() == es);
    assert forall|a: int, b: int| 0 <= a < b < q.len() implies entry_key(q[a]) != entry_key(
        q[b],
    ) by {
        if b < q.len() - 1 {
            assert(q[a] == es[a] && q[b] == es[b]);
        } else {
            assert(q[a] == es[a]);
        }
    }
}

/// The entries whose key does not satisfy `drop`, in order.
pub open spec fn keep_entries<V>(es: Seq<(String, String, V)>, drop: spec_fn(PairKey) -> bool) -> Seq<
    (String, String, V),
>
    decreases es.len(),
{
    if es.len() == 0 {
        seq![]
    } else if drop(entry_key(es.last())) {
        keep_entries(es.drop_last(), drop)
    } else {
        keep_entries(es.drop_last(), drop).push(es.last())
    }
}

proof fn lemma_keep_keys<V>(es: Seq<(String, String, V)>, drop: spec_fn(PairKey) -> bool, x: PairKey)
    ensures
        (exists|i: int|
            0 <= i < keep_entries(es, drop).len() && entry_key(keep_entries(es, drop)[i]) == x)
            <==> (!drop(x) && exists|i: int| 0 <= i < es.len() && entry_key(es[i]) == x),
    decreases es.len(),
{
    if es.len() > 0 {
        let p = es.drop_last();
        lemma_keep_keys(p, drop, x);
        let w = keep_entries(es, drop);
        let wp = keep_entries(p, drop);
        if exists|i: int| 0 <= i < w.len() && entry_key(w[i]) == x {
            let i = choose|i: int| 0 <= i < w.len() && entry_key(w[i]) == x;
            if !drop(entry_key(es.last())) && i == w.len() - 1 {
                assert(entry_key(es[es.len() - 1]) == x);
            } else {
                assert(entry_key(wp[i]) == x);
                let j = choose|j: int| 0 <= j < p.len() && entry_key(p[j]) == x;
                assert(entry_key(es[j]) == x);
            }
        }
        if !drop(x) && exists|i: int| 0 <= i < es.len() && entry_key(es[i]) == x {
            let i = choose|i: int| 0 <= i < es.len() && entry_key(es[i]) == x;
            if i == es.len() - 1 {
                assert(entry_key(w[w.len() - 1]) == x);
            } else {
                assert(entry_key(p[i]) == x);
                let j = choose|j: int| 0 <= j < wp.len() && entry_key(wp[j]) == x;
                if !drop(entry_key(es.last())) {
                    assert(w[j] == wp[j]);
                }
            }
        }
    }
}

proof fn lemma_keep<V>(es: Seq<(String, String, V)>, drop: spec_fn(PairKey) -> bool)
    requires
        pair_keys_unique(es),
    ensures
        pair_keys_unique(keep_entries(es, drop)),
        pair_entries_map(keep_entries(es, drop)) == pair_entries_map(es).restrict(
            pair_entries_map(es).dom().filter(|k: PairKey| !drop(k)),
        ),
    decreases es.len(),
{
    let m = pair_entries_map(es);
    if es.len() == 0 {
        assert(pair_entries_map(keep_entries(es, drop)) =~= m.restrict(
            m.dom().filter(|k: PairKey| !drop(k)),
        ));
    } else {
        let p = es.drop_last();
        assert forall|a: int, b: int| 0 <= a < b < p.len() implies entry_key(p[a]) != entry_key(
            p[b],
        ) by {
            assert(p[a] == es[a] && p[b] == es[b]);
        }
        lemma_keep(p, drop);
        let wp = keep_entries(p, drop);
        let mp = pair_entries_map(p);
        lemma_contains(p, entry_key(es.last()));
        if exists|i: int| 0 <= i < p.len() && entry_key(p[i]) == entry_key(es.last()) {
            let i = choose|i: int| 0 <= i < p.len() && entry_key(p[i]) == entry_key(es.last());
            assert(entry_key(es[i]) == entry_key(es[es.len() - 1]));
        }
        if !drop(entry_key(es.last())) {
            let q = wp.push(es.last());
            lemma_keep_keys(p, drop, entry_key(es.last()));
            assert forall|a: int, b: int| 0 <= a < b < q.len() implies entry_key(q[a]) != entry_key(
                q[b],
            ) by {
                if b == q.len() - 1 {
                    if entry_key(q[a]) == entry_key(es.last()) {
                        assert(entry_key(wp[a]) == entry_key(es.last()));
                    }
                } else {
                    assert(q[a] == wp[a] && q[b] == wp[b]);
                }
            }
            assert(q.drop_last() == wp);
        }
        assert(pair_entries_map(keep_entries(es, drop)) =~= m.restrict(
            m.dom().filter(|k: PairKey| !drop(k)),
        ));
    }
}

/// Items by (profile id, item id).
pub struct PairMap<V> {
    entries: Vec<(String, String, V)>,
}

impl<V> View for PairMap<V> {
    type V = Map<PairKey, V>;

    closed spec fn view(&self) -> Map<PairKey, V> {
        pair_entries_map(self.entries@)
    }
}

impl<V> PairMap<V> {
    #[verifier::type_invariant]
    spec fn well_formed(&self) -> bool {
        pair_keys_unique(self.entries@)
    }

    pub fn new() -> (r: Self)
        ensures
            r@ == Map::<PairKey, V>::empty(),
    {
        PairMap { entries: Vec::new() }
    }

    fn index_of(&self, profile_id: &str, item_id: &str) -> (r: Option<usize>)
        ensures
            match r {
                Some(i) => i < self.entries@.len() && entry_key(self.entries@[i as int]) == (
                    profile_id@,
                    item_id@,
                ),
                None => !self@.contains_key((profile_id@, item_id@)),
            },
    {
        let mut i: usize = 0;
        while i < self.entries.len()
            invariant
                i <= self.entries@.len(),
                forall|j: int|
                    0 <= j < i ==> entry_key(#[trigger] self.entries@[j]) != (profile_id@, item_id@),
            decreases self.entries.len() - i,
        {
            if str_eq(self.entries[i].0.as_str(), profile_id) && str_eq(
                self.entries[i].1.as_str(),
                item_id,
            ) {
                return Some(i);
            }
            i += 1;
        }
        proof {
            lemma_contains(self.entries@, (profile_id@, item_id@));
        }
        None
    }

    pub fn contains(&self, profile_id: &str, item_id: &str) -> (r: bool)
        ensures
            r == self@.contains_key((profile_id@, item_id@)),
    {
        proof {
            use_type_invariant(self);
        }
        match self.index_of(profile_id, item_id) {
            Some(i) => {
                proof {
                    lemma_at(self.entries@, i as int);
                }
                true
            },
            None => false,
        }
    }

    pub fn get(&self, profile_id: &str, item_id: &str) -> (r: Option<&V>)
        ensures
            match r {
                Some(v) => self@.contains_key((profile_id@, item_id@)) && *v == self@[(
                    profile_id@,
                    item_id@,
                )],
                None => !self@.contains_key((profile_id@, item_id@)),
            },
    {
        proof {
            use_type_invariant(self);
        }
        match self.index_of(profile_id, item_id) {
            Some(i) => {
                proof {
                    lemma_at(self.entries@, i as int);
                }
                Some(&self.entries[i].2)
            },
            None => None,
        }
    }

    /// Sets the item under this key, replacing what was there.
    pub fn insert(&mut self, profile_id: &str, item_id: &str, value: V)
        ensures
            final(self)@ == old(self)@.insert((profile_id@, item_id@), value),
    {
        proof {
            use_type_invariant(&*self);
        }
        let found = self.index_of(profile_id, item_id);
        let mut es: Vec<(String, String, V)> = Vec::new();
        std::mem::swap(&mut es, &mut self.entries);
        match found {
            Some(i) => {
                proof {
                    lemma_update(es@, i as int, value);
                }
                let ghost before = es@;
                let (a, b, _old_value) = es.remove(i);
                es.insert(i, (a, b, value));
                assert(es@ =~= before.update(i as int, (before[i as int].0, before[i as int].1, value)));
            },
            None => {
                let e = (string_of(&chars_of(profile_id)), string_of(&chars_of(item_id)), value);
                proof {
                    lemma_push(es@, e);
                }
                es.push(e);
            },
        }
        self.entries = es;
    }

    /// Drops the entries whose key satisfies `drop`.
    fn retain_without(&mut self, profile_id: &str, item_id: Option<&str>)
        ensures
            final(self)@ == old(self)@.restrict(
                old(self)@.dom().filter(|k: PairKey| !pair_key_matches(k, profile_id@, opt_chars(item_id))),
            ),
    {
        proof {
            use_type_invariant(&*self);
        }
        let ghost drop = (|k: PairKey| pair_key_matches(k, profile_id@, opt_chars(item_id)));
        let mut es: Vec<(String, String, V)> = Vec::new();
        std::mem::swap(&mut es, &mut self.entries);
        let ghost all = es@;
        assert(all.skip(0) =~= all);
        let mut kept: Vec<(String, String, V)> = Vec::new();
        let mut rest = es;
        let ghost mut taken: int = 0;
        while rest.len() > 0
            invariant
                0 <= taken <= all.len(),
                rest@ == all.skip(taken),
                kept@ == keep_entries(all.take(taken), drop),
                drop == (|k: PairKey| pair_key_matches(k, profile_id@, opt_chars(item_id))),
            decreases rest.len(),
        {
            let e = rest.remove(0);
            proof {
                assert(e == all[taken]);
                assert(all.take(taken + 1).drop_last() =~= all.take(taken));
                assert(all.take(taken + 1).last() == all[taken]);
                assert(rest@ =~= all.skip(taken + 1));
            }
            let same_profile = str_eq(e.0.as_str(), profile_id);
            let same_item = match item_id {
                Some(it) => str_eq(e.1.as_str(), it),
                None => true,
            };
            let matches = same_profile && same_item;
            assert(matches == pair_key_matches(entry_key(e), profile_id@, opt_chars(item_id)));
            let ghost before = kept@;
            if !matches {
                kept.push(e);
            }
            proof {
                let t = all.take(taken + 1);
                assert(drop(entry_key(t.last())) == matches);
                assert(keep_entries(t, drop) == (if drop(entry_key(t.last())) {
                    keep_entries(t.drop_last(), drop)
                } else {
                    keep_entries(t.drop_last(), drop).push(t.last())
                }));
                assert(kept@ == keep_entries(t, drop));
                taken = taken + 1;
            }
        }
        assert(all.take(all.len() as int) == all);
        proof {
            lemma_keep(all, drop);
        }
        self.entries = kept;
    }

    /// Drops the item under this key.
    pub fn remove(&mut self, profile_id: &str, item_id: &str)
        ensures
            final(self)@ == old(self)@.remove((profile_id@, item_id@)),
    {
        self.retain_without(profile_id, Some(item_id));
        assert(self@ =~= old(self)@.remove((profile_id@, item_id@)));
    }

    /// Drops every item of this profile.
    pub fn remove_profile(&mut self, profile_id: &str)
        ensures
            final(self)@ == old(self)@.restrict(old(self)@.dom().filter(|k: PairKey| k.0 != profile_id@)),
    {
        self.retain_without(profile_id, None);
        assert(self@ =~= old(self)@.restrict(old(self)@.dom().filter(|k: PairKey| k.0 != profile_id@)));
    }
}

pub open spec fn opt_chars(o: Option<&str>) -> Option<Seq<char>> {
    match o {
        Some(s) => Some(s@),
        None => None,
    }
}

/// Whether a key belongs to this profile and, when an item is given, is that item.
pub open spec fn pair_key_matches(k: PairKey, profile_id: Seq<char>, item_id: Option<Seq<char>>) -> bool {
    k.0 == profile_id && match item_id {
        Some(i) => k.1 == i,
        None => true,
    }
}

} // verus!
