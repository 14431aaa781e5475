use vstd::prelude::*;

verus! {

/// A key that can be compared in executable code.
pub trait Key: Copy {
    fn same(&self, other: &Self) -> (r: bool)
        ensures
            r == (*self == *other),
    ;
}

impl Key for crate::math::LiveItemId {
    fn same(&self, other: &Self) -> (r: bool) {
        *self == *other
    }
}

impl Key for crate::area::Area {
    fn same(&self, other: &Self) -> (r: bool) {
        *self == *other
    }
}

/// The value of the first entry of `s` with key `k`: a list of pairs read as a map.
pub open spec fn lookup<K, V>(s: Seq<(K, V)>, k: K) -> Option<V>
    decreases s.len(),
{
    if s.len() == 0 {
        None
    } else if s[0].0 == k {
        Some(s[0].1)
    } else {
        lookup(s.drop_first(), k)
    }
}

/// No two entries share a key.
pub open spec fn distinct_keys<K, V>(s: Seq<(K, V)>) -> bool {
    forall|i: int, j: int| 0 <= i < j < s.len() ==> s[i].0 != s[j].0
}

/// The entry at `i` is the first with key `k`.
pub open spec fn first_with_key<K, V>(s: Seq<(K, V)>, k: K, i: int) -> bool {
    &&& 0 <= i < s.len()
    &&& s[i].0 == k
    &&& forall|j: int| 0 <= j < i ==> s[j].0 != k
}

pub proof fn lemma_lookup_first<K, V>(s: Seq<(K, V)>, k: K, i: int)
    requires
        first_with_key(s, k, i),
    ensures
        lookup(s, k) == Some(s[i].1),
    decreases i,
{
    if i > 0 {
        assert(s[0].0 != k);
        lemma_lookup_first(s.drop_first(), k, i - 1);
    }
}

pub proof fn lemma_lookup_absent<K, V>(s: Seq<(K, V)>, k: K)
    requires
        forall|j: int| 0 <= j < s.len() ==> s[j].0 != k,
    ensures
        lookup(s, k) == None::<V>,
    decreases s.len(),
{
    if s.len() > 0 {
        lemma_lookup_absent(s.drop_first(), k);
    }
}

/// Two lists with the same keys, and the same values wherever the key is `k`, agree on `k`.
pub proof fn lemma_lookup_congruent<K, V>(s: Seq<(K, V)>, t: Seq<(K, V)>, k: K)
    requires
        s.len() == t.len(),
        forall|j: int| 0 <= j < s.len() ==> s[j].0 == t[j].0 && (s[j].0 == k ==> s[j].1 == t[j].1),
    ensures
        lookup(s, k) == lookup(t, k),
    decreases s.len(),
{
    if s.len() > 0 {
        lemma_lookup_congruent(s.drop_first(), t.drop_first(), k);
    }
}

pub proof fn lemma_lookup_push<K, V>(s: Seq<(K, V)>, e: (K, V), k: K)
    ensures
        lookup(s.push(e), k) == (match lookup(s, k) {
            Some(v) => Some(v),
            None => if e.0 == k { Some(e.1) } else { None },
        }),
    decreases s.len(),
{
    if s.len() > 0 {
        assert(s.push(e).drop_first() =~= s.drop_first().push(e));
        lemma_lookup_push(s.drop_first(), e, k);
    } else {
        assert(s.push(e)[0] == e);
        assert(s.push(e).drop_first().len() == 0);
        assert(lookup(s.push(e).drop_first(), k) == None::<V>);
    }
}

/// Index of the first entry with key `k`.
pub fn find_key<K: Key, V>(s: &Vec<(K, V)>, k: K) -> (r: Option<usize>)
    ensures
        match r {
            Some(i) => first_with_key(s@, k, i as int) && lookup(s@, k) == Some(s@[i as int].1),
            None => (forall|j: int| 0 <= j < s@.len() ==> s@[j].0 != k) && lookup(s@, k) == None::<V>,
        },
{
    let mut i: usize = 0;
    while i < s.len()
        invariant
            i <= s@.len(),
            forall|j: int| 0 <= j < i ==> s@[j].0 != k,
        decreases s@.len() - i,
    {
        if s[i].0.same(&k) {
            proof {
                lemma_lookup_first(s@, k, i as int);
            }
            return Some(i);
        }
        i = i + 1;
    }
    proof {
        lemma_lookup_absent(s@, k);
    }
    None
}

/// Gives key `k` the value `v`: the first entry with that key is changed, or a new
/// entry is appended. Other keys keep their values.
pub fn set_key<K: Key, V>(s: &mut Vec<(K, V)>, k: K, v: V)
    ensures
        lookup(final(s)@, k) == Some(v),
        forall|k2: K| k2 != k ==> lookup(final(s)@, k2) == lookup(old(s)@, k2),
        distinct_keys(old(s)@) ==> distinct_keys(final(s)@),
        old(s)@.len() <= final(s)@.len() <= old(s)@.len() + 1,
        forall|i: int| 0 <= i < old(s)@.len() ==> #[trigger] final(s)@[i].0 == old(s)@[i].0,
        final(s)@.len() == old(s)@.len() + 1 ==> final(s)@.last() == (k, v),
{
    match find_key(s, k) {
        Some(i) => {
            s.set(i, (k, v));
            proof {
                lemma_lookup_first(s@, k, i as int);
                assert forall|k2: K| k2 != k implies lookup(s@, k2) == lookup(old(s)@, k2) by {
                    lemma_lookup_congruent(s@, old(s)@, k2);
                }
            }
        },
        None => {
            s.push((k, v));
            proof {
                lemma_lookup_push(old(s)@, (k, v), k);
                assert forall|k2: K| k2 != k implies lookup(s@, k2) == lookup(old(s)@, k2) by {
                    lemma_lookup_push(old(s)@, (k, v), k2);
                }
            }
        },
    }
}

/// Drops every entry with key `k`. Other keys keep their values.
pub fn remove_key<K: Key, V: Copy>(s: &mut Vec<(K, V)>, k: K)
    ensures
        lookup(final(s)@, k) == None::<V>,
        forall|k2: K| k2 != k ==> lookup(final(s)@, k2) == lookup(old(s)@, k2),
        distinct_keys(old(s)@) ==> distinct_keys(final(s)@),
{
    let mut kept: Vec<(K, V)> = Vec::new();
    let mut i: usize = 0;
    while i < s.len()
        invariant
            i <= s@.len(),
            forall|j: int| 0 <= j < kept@.len() ==> kept@[j].0 != k,
            forall|k2: K| k2 != k ==> lookup(kept@, k2) == lookup(s@.subrange(0, i as int), k2),
            distinct_keys(s@) ==> distinct_keys(kept@),
            distinct_keys(s@) ==> forall|m: int, j: int|
                0 <= m < kept@.len() && i <= j < s@.len() ==> kept@[m].0 != s@[j].0,
        decreases s@.len() - i,
    {
        let e = s[i];
        let ghost before = kept@;
        if !e.0.same(&k) {
            kept.push(e);
        }
        proof {
            assert(s@.subrange(0, i + 1) =~= s@.subrange(0, i as int).push(e));
            assert forall|k2: K| k2 != k implies lookup(kept@, k2) == lookup(s@.subrange(0, i + 1), k2) by {
                lemma_lookup_push(s@.subrange(0, i as int), e, k2);
                if e.0 != k {
                    lemma_lookup_push(before, e, k2);
                }
            }
        }
        i = i + 1;
    }
    proof {
        assert(s@.subrange(0, s@.len() as int) =~= s@);
        lemma_lookup_absent(kept@, k);
    }
    *s = kept;
}

} // verus!
