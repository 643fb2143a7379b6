//! The single source of truth for which profile runs which operation: at most one
//! operation per profile.
use vstd::prelude::*;

use super::model::{AccountOperation, OperationKind, OperationPhase};
use crate::text::{chars_of, str_eq, string_of};

verus! {

/// Operations by profile id.
pub struct OperationRegistry {
    operations: Vec<(String, AccountOperation)>,
}

pub open spec fn entries_map(es: Seq<(String, AccountOperation)>) -> Map<Seq<char>, AccountOperation>
    decreases es.len(),
{
    if es.len() == 0 {
        Map::empty()
    } else {
        entries_map(es.drop_last()).insert(es.last().0@, es.last().1)
    }
}

pub open spec fn keys_unique(es: Seq<(String, AccountOperation)>) -> bool {
    forall|i: int, j: int| 0 <= i < j < es.len() ==> es[i].0@ != es[j].0@
}

proof fn lemma_entries_map_contains(es: Seq<(String, AccountOperation)>, k: Seq<char>)
    ensures
        entries_map(es).contains_key(k) <==> exists|i: int| 0 <= i < es.len() && es[i].0@ == k,
    decreases es.len(),
{
    if es.len() > 0 {
        lemma_entries_map_contains(es.drop_last(), k);
        if entries_map(es.drop_last()).contains_key(k) {
            let i = choose|i: int| 0 <= i < es.drop_last().len() && es.drop_last()[i].0@ == k;
            assert(es[i].0@ == k);
        }
        if exists|i: int| 0 <= i < es.len() && es[i].0@ == k {
            let i = choose|i: int| 0 <= i < es.len() && es[i].0@ == k;
            if i < es.len() - 1 {
                assert(es.drop_last()[i].0@ == k);
            }
        }
    }
}

proof fn lemma_entries_map_at(es: Seq<(String, AccountOperation)>, i: int)
    requires
        keys_unique(es),
        0 <= i < es.len(),
    ensures
        entries_map(es).contains_key(es[i].0@),
        entries_map(es)[es[i].0@] == es[i].1,
    decreases es.len(),
{
    if i < es.len() - 1 {
        let p = es.drop_last();
        assert(p[i] == es[i]);
        lemma_entries_map_at(p, i);
        assert(es[i].0@ != es.last().0@);
    }
}

/// Replacing one entry's operation replaces it in the map.
proof fn lemma_entries_map_update(es: Seq<(String, AccountOperation)>, i: int, op: AccountOperation)
    requires
        keys_unique(es),
        0 <= i < es.len(),
    ensures
        keys_unique(es.update(i, (es[i].0, op))),
        entries_map(es.update(i, (es[i].0, op))) == entries_map(es).insert(es[i].0@, op),
    decreases es.len(),
{
    let u = es.update(i, (es[i].0, op));
    assert forall|a: int, b: int| 0 <= a < b < u.len() implies u[a].0@ != u[b].0@ by {
        assert(u[a].0@ == es[a].0@ && u[b].0@ == es[b].0@);
    }
    if i == es.len() - 1 {
        assert(u.drop_last() =~= es.drop_last());
        lemma_entries_map_contains(es.drop_last(), es[i].0@);
        assert(entries_map(u) =~= entries_map(es).insert(es[i].0@, op));
    } else {
        let p = es.drop_last();
        lemma_entries_map_update(p, i, op);
        assert(u.drop_last() =~= p.update(i, (p[i].0, op)));
        assert(es[i].0@ != es.last().0@);
        assert(entries_map(u) =~= entries_map(es).insert(es[i].0@, op));
    }
}

/// The entries whose key is not `k`, in order.
pub open spec fn without_key(es: Seq<(String, AccountOperation)>, k: Seq<char>) -> Seq<(String, AccountOperation)>
    decreases es.len(),
{
    if es.len() == 0 {
        seq![]
    } else if es.last().0@ == k {
        without_key(es.drop_last(), k)
    } else {
        without_key(es.drop_last(), k).push(es.last())
    }
}

proof fn lemma_without_key_keys(es: Seq<(String, AccountOperation)>, k: Seq<char>, x: Seq<char>)
    ensures
        (exists|i: int| 0 <= i < without_key(es, k).len() && without_key(es, k)[i].0@ == x) <==> (
        x != k && exists|i: int| 0 <= i < es.len() && es[i].0@ == x),
    decreases es.len(),
{
    if es.len() > 0 {
        let p = es.drop_last();
        lemma_without_key_keys(p, k, x);
        let w = without_key(es, k);
        let wp = without_key(p, k);
        if exists|i: int| 0 <= i < w.len() && w[i].0@ == x {
            let i = choose|i: int| 0 <= i < w.len() && w[i].0@ == x;
            if es.last().0@ != k && i == w.len() - 1 {
                assert(es[es.len() - 1].0@ == x);
            } else {
                assert(wp[i].0@ == x);
                let j = choose|j: int| 0 <= j < p.len() && p[j].0@ == x;
                assert(es[j].0@ == x);
            }
        }
        if x != k && exists|i: int| 0 <= i < es.len() && es[i].0@ == x {
            let i = choose|i: int| 0 <= i < es.len() && es[i].0@ == x;
            if i == es.len() - 1 {
                assert(w[w.len() - 1].0@ == x);
            } else {
                assert(p[i].0@ == x);
                let j = choose|j: int| 0 <= j < wp.len() && wp[j].0@ == x;
                if es.last().0@ != k {
                    assert(w[j] == wp[j]);
                }
            }
        }
    }
}

/// Dropping the entries of one key removes the key from the map.
proof fn lemma_entries_map_without(es: Seq<(String, AccountOperation)>, k: Seq<char>)
    requires
        keys_unique(es),
    ensures
        keys_unique(without_key(es, k)),
        entries_map(without_key(es, k)) == entries_map(es).remove(k),
    decreases es.len(),
{
    if es.len() == 0 {
        assert(entries_map(without_key(es, k)) =~= entries_map(es).remove(k));
    } else {
        let p = es.drop_last();
        assert forall|a: int, b: int| 0 <= a < b < p.len() implies p[a].0@ != p[b].0@ by {
            assert(p[a] == es[a] && p[b] == es[b]);
        }
        lemma_entries_map_without(p, k);
        let wp = without_key(p, k);
        if es.last().0@ != k {
            let q = wp.push(es.last());
            lemma_without_key_keys(p, k, es.last().0@);
            assert forall|a: int, b: int| 0 <= a < b < q.len() implies q[a].0@ != q[b].0@ by {
                if b == q.len() - 1 {
                    if q[a].0@ == es.last().0@ {
                        assert(wp[a].0@ == es.last().0@);
                        let j = choose|j: int| 0 <= j < p.len() && p[j].0@ == es.last().0@;
                        assert(es[j].0@ == es[es.len() - 1].0@);
                    }
                } else {
                    assert(q[a] == wp[a] && q[b] == wp[b]);
                }
            }
            assert(q.drop_last() == wp);
            assert(entries_map(q) =~= entries_map(es).remove(k));
        } else {
            assert(entries_map(wp) =~= entries_map(es).remove(k));
        }
    }
}

impl View for OperationRegistry {
    type V = Map<Seq<char>, AccountOperation>;

    closed spec fn view(&self) -> Map<Seq<char>, AccountOperation> {
        entries_map(self.operations@)
    }
}

impl OperationRegistry {
    #[verifier::type_invariant]
    spec fn well_formed(&self) -> bool {
        keys_unique(self.operations@)
    }

    pub fn new() -> (r: Self)
        ensures
            r@ == Map::<Seq<char>, AccountOperation>::empty(),
    {
        OperationRegistry { operations: Vec::new() }
    }

    fn index_of(&self, profile_id: &str) -> (r: Option<usize>)
        ensures
            match r {
                Some(i) => i < self.operations@.len() && self.operations@[i as int].0@
                    == profile_id@,
                None => !self@.contains_key(profile_id@),
            },
    {
        let mut i: usize = 0;
        while i < self.operations.len()
            invariant
                i <= self.operations@.len(),
                forall|j: int| 0 <= j < i ==> self.operations@[j].0@ != profile_id@,
            decreases self.operations.len() - i,
        {
            if str_eq(self.operations[i].0.as_str(), profile_id) {
                return Some(i);
            }
            i += 1;
        }
        proof {
            lemma_entries_map_contains(self.operations@, profile_id@);
        }
        None
    }

    /// The operation this profile runs, if any.
    pub fn get(&self, profile_id: &str) -> (r: Option<AccountOperation>)
        ensures
            r == (if self@.contains_key(profile_id@) {
                Some(self@[profile_id@])
            } else {
                None
            }),
    {
        proof {
            use_type_invariant(self);
        }
        match self.index_of(profile_id) {
            Some(i) => {
                proof {
                    lemma_entries_map_at(self.operations@, i as int);
                }
                Some(self.operations[i].1)
            },
            None => None,
        }
    }

    pub fn contains(&self, profile_id: &str) -> (r: bool)
        ensures
            r == self@.contains_key(profile_id@),
    {
        proof {
            use_type_invariant(self);
        }
        match self.index_of(profile_id) {
            Some(i) => {
                proof {
                    lemma_entries_map_at(self.operations@, i as int);
                }
                true
            },
            None => false,
        }
    }

    /// Starts `kind` for a profile that runs nothing; a busy profile is refused.
    pub fn begin(&mut self, profile_id: &str, kind: OperationKind) -> (r: bool)
        ensures
            r == !old(self)@.contains_key(profile_id@),
            r ==> final(self)@ == old(self)@.insert(profile_id@, (AccountOperation { kind, phase: OperationPhase::Running })),
            !r ==> final(self)@ == old(self)@,
    {
        proof {
            use_type_invariant(&*self);
        }
        if self.contains(profile_id) {
            return false;
        }
        let mut ops: Vec<(String, AccountOperation)> = Vec::new();
        let mut i: usize = 0;
        while i < self.operations.len()
            invariant
                i <= self.operations@.len(),
                ops@ == self.operations@.take(i as int),
            decreases self.operations.len() - i,
        {
            let (k, op) = (&self.operations[i].0, self.operations[i].1);
            ops.push((k.clone(), op));
            assert(ops@ =~= self.operations@.take(i + 1));
            i += 1;
        }
        assert(ops@ =~= self.operations@);
        let key = string_of(&chars_of(profile_id));
        let ghost before = ops@;
        ops.push((key, AccountOperation { kind, phase: OperationPhase::Running }));
        proof {
            lemma_entries_map_contains(before, profile_id@);
            assert(ops@.drop_last() == before);
            assert forall|a: int, b: int| 0 <= a < b < ops@.len() implies ops@[a].0@ != ops@[b].0@ by {
                if b < ops@.len() - 1 {
                    assert(ops@[a] == before[a] && ops@[b] == before[b]);
                } else {
                    assert(ops@[a] == before[a]);
                }
            }
        }
        self.operations = ops;
        true
    }

    /// Marks the profile's operation as stopping; nothing happens for an idle profile.
    pub fn mark_stopping(&mut self, profile_id: &str)
        ensures
            old(self)@.contains_key(profile_id@) ==> final(self)@ == old(self)@.insert(
                profile_id@,
                AccountOperation { phase: OperationPhase::Stopping, ..old(self)@[profile_id@] },
            ),
            !old(self)@.contains_key(profile_id@) ==> final(self)@ == old(self)@,
    {
        proof {
            use_type_invariant(&*self);
        }
        match self.index_of(profile_id) {
            Some(i) => {
                let op = self.operations[i].1;
                let stopped = AccountOperation { kind: op.kind, phase: OperationPhase::Stopping };
                proof {
                    lemma_entries_map_at(self.operations@, i as int);
                    lemma_entries_map_update(self.operations@, i as int, stopped);
                }
                let mut ops: Vec<(String, AccountOperation)> = Vec::new();
                let mut j: usize = 0;
                while j < self.operations.len()
                    invariant
                        j <= self.operations@.len(),
                        i < self.operations@.len(),
                        ops@ == self.operations@.update(i as int, (self.operations@[i as int].0, stopped)).take(j as int),
                    decreases self.operations.len() - j,
                {
                    let k = self.operations[j].0.clone();
                    let o = if j == i {
                        stopped
                    } else {
                        self.operations[j].1
                    };
                    ops.push((k, o));
                    assert(ops@ =~= self.operations@.update(i as int, (self.operations@[i as int].0, stopped)).take(j + 1));
                    j += 1;
                }
                assert(ops@ =~= self.operations@.update(i as int, (self.operations@[i as int].0, stopped)));
                self.operations = ops;
            },
            None => {},
        }
    }

    /// Forgets the profile's operation.
    pub fn finish(&mut self, profile_id: &str)
        ensures
            final(self)@ == old(self)@.remove(profile_id@),
    {
        proof {
            use_type_invariant(&*self);
        }
        let mut ops: Vec<(String, AccountOperation)> = Vec::new();
        let mut i: usize = 0;
        while i < self.operations.len()
            invariant
                i <= self.operations@.len(),
                ops@ == without_key(self.operations@.take(i as int), profile_id@),
            decreases self.operations.len() - i,
        {
            assert(self.operations@.take(i + 1).drop_last() =~= self.operations@.take(i as int));
            if !str_eq(self.operations[i].0.as_str(), profile_id) {
                ops.push((self.operations[i].0.clone(), self.operations[i].1));
            }
            assert(ops@ =~= without_key(self.operations@.take(i + 1), profile_id@));
            i += 1;
        }
        assert(self.operations@.take(self.operations@.len() as int) == self.operations@);
        proof {
            lemma_entries_map_without(self.operations@, profile_id@);
        }
        self.operations = ops;
    }
}

impl Default for OperationRegistry {
    fn default() -> (r: Self)
        ensures
            r@ == Map::<Seq<char>, AccountOperation>::empty(),
    {
        OperationRegistry::new()
    }
}

// ---------------------------------------------------------------------------
// Laws
// ---------------------------------------------------------------------------

/// An operation that was begun reads back as running, and finishing it leaves the
/// registry as it was before.
pub proof fn law_begin_then_get_and_finish(m: Map<Seq<char>, AccountOperation>, id: Seq<char>, kind: OperationKind)
    requires
        !m.contains_key(id),
    ensures
        m.insert(id, (AccountOperation { kind, phase: OperationPhase::Running }))[id] == (AccountOperation {
            kind,
            phase: OperationPhase::Running,
        }),
        m.insert(id, (AccountOperation { kind, phase: OperationPhase::Running })).remove(id) == m,
{
    assert(m.insert(id, (AccountOperation { kind, phase: OperationPhase::Running })).remove(id) =~= m);
}

/// Stopping keeps the kind of the operation and only changes its phase; other
/// profiles are untouched.
pub proof fn law_mark_stopping_keeps_kind(m: Map<Seq<char>, AccountOperation>, id: Seq<char>, other: Seq<char>)
    requires
        m.contains_key(id),
        other != id,
    ensures
        ({
            let n = m.insert(id, AccountOperation { phase: OperationPhase::Stopping, ..m[id] });
            &&& n[id].kind == m[id].kind
            &&& n[id].phase == OperationPhase::Stopping
            &&& n.contains_key(other) == m.contains_key(other)
            &&& m.contains_key(other) ==> n[other] == m[other]
        }),
{
}

} // verus!
