//! Tables keyed by text: association lists in which no key occurs twice and a
//! key keeps the place where it was first put.
use vstd::prelude::*;

use crate::text::{listed, same, texts};

verus! {

/// The keys of a list of pairs, in order.
pub open spec fn keys<V>(s: Seq<(String, V)>) -> Seq<Seq<char>> {
    s.map_values(|p: (String, V)| p.0@)
}

/// The index of the first pair with the key `k`, or the length of `s`.
pub open spec fn key_index<V>(s: Seq<(String, V)>, k: Seq<char>) -> int
    decreases s.len(),
{
    if s.len() == 0 || s[0].0@ == k {
        0
    } else {
        1 + key_index(s.skip(1), k)
    }
}

/// What a list of pairs maps each key to.
pub open spec fn as_map<V>(s: Seq<(String, V)>) -> Map<Seq<char>, V> {
    Map::new(|k: Seq<char>| key_index(s, k) < s.len(), |k: Seq<char>| s[key_index(s, k)].1)
}

/// Whether no key occurs twice.
pub open spec fn unique<V>(s: Seq<(String, V)>) -> bool {
    keys(s).no_duplicates()
}

/// The first index holds the key, and no earlier pair does.
pub proof fn lemma_key_index<V>(s: Seq<(String, V)>, k: Seq<char>)
    ensures
        0 <= key_index(s, k) <= s.len(),
        forall|i: int| 0 <= i < key_index(s, k) ==> (#[trigger] s[i]).0@ != k,
        key_index(s, k) < s.len() ==> s[key_index(s, k)].0@ == k,
    decreases s.len(),
{
    if s.len() > 0 && s[0].0@ != k {
        lemma_key_index(s.skip(1), k);
        assert forall|i: int| 0 <= i < key_index(s, k) implies (#[trigger] s[i]).0@ != k by {
            if i > 0 {
                assert(s.skip(1)[i - 1] == s[i]);
            }
        }
    }
}

/// A place with the key, and none before it, is the first index.
pub proof fn lemma_key_index_at<V>(s: Seq<(String, V)>, k: Seq<char>, i: int)
    requires
        0 <= i <= s.len(),
        forall|j: int| 0 <= j < i ==> (#[trigger] s[j]).0@ != k,
        i < s.len() ==> s[i].0@ == k,
    ensures
        key_index(s, k) == i,
{
    lemma_key_index(s, k);
}

/// A pair with a new key at the end of a list extends what the list maps.
pub proof fn lemma_push<V>(s: Seq<(String, V)>, p: (String, V))
    requires
        !keys(s).contains(p.0@),
    ensures
        as_map(s.push(p)) == as_map(s).insert(p.0@, p.1),
        keys(s.push(p)) == keys(s).push(p.0@),
{
    let t = s.push(p);
    let k = p.0@;
    assert forall|j: int| 0 <= j < s.len() implies (#[trigger] s[j]).0@ != k by {
        assert(keys(s)[j] == s[j].0@);
    }
    assert(keys(t) =~= keys(s).push(k));
    assert(forall|j: int| 0 <= j < s.len() ==> (#[trigger] t[j]) == s[j]);
    lemma_key_index_at(t, k, s.len() as int);
    assert forall|x: Seq<char>| x != k implies #[trigger] key_index(t, x) == (if key_index(s, x) < s.len() {
        key_index(s, x)
    } else {
        t.len() as int
    }) by {
        lemma_key_index(s, x);
        let n = key_index(s, x);
        lemma_key_index_at(t, x, if n < s.len() { n } else { t.len() as int });
    }
    assert forall|x: Seq<char>| as_map(t).contains_key(x) == as_map(s).insert(k, p.1).contains_key(x) by {
        lemma_key_index(s, x);
    }
    assert forall|x: Seq<char>| as_map(t).contains_key(x) implies as_map(t)[x] == as_map(s).insert(k, p.1)[x] by {
        lemma_key_index(s, x);
    }
    assert(as_map(t) =~= as_map(s).insert(k, p.1));
}

/// A key is mapped exactly where it occurs.
pub proof fn lemma_mapped<V>(s: Seq<(String, V)>, k: Seq<char>)
    ensures
        as_map(s).contains_key(k) == keys(s).contains(k),
{
    lemma_key_index(s, k);
    if as_map(s).contains_key(k) {
        assert(keys(s)[key_index(s, k)] == k);
    }
    if keys(s).contains(k) {
        let j = choose|j: int| 0 <= j < keys(s).len() && keys(s)[j] == k;
        assert(s[j].0@ == k);
    }
}

/// Dropping the pairs whose keys are not wanted restricts what a list maps.
pub proof fn lemma_filter<V>(s: Seq<(String, V)>, keep: spec_fn(Seq<char>) -> bool)
    requires
        unique(s),
    ensures
        ({
            let t = s.filter(|p: (String, V)| keep(p.0@));
            &&& unique(t)
            &&& as_map(t) == as_map(s).restrict(Set::new(keep))
            &&& forall|k: Seq<char>| #[trigger] keys(t).contains(k) ==> keys(s).contains(k) && keep(k)
        }),
    decreases s.len(),
{
    reveal(Seq::filter);
    let f = |p: (String, V)| keep(p.0@);
    let t = s.filter(f);
    if s.len() == 0 {
        assert(as_map(t) =~= as_map(s).restrict(Set::new(keep)));
    } else {
        let short = s.drop_last();
        let p = s.last();
        assert(s =~= short.push(p));
        assert(keys(s) =~= keys(short).push(p.0@));
        assert(!keys(short).contains(p.0@)) by {
            assert forall|j: int| 0 <= j < keys(short).len() implies keys(short)[j] != p.0@ by {
                assert(keys(s)[j] != keys(s)[s.len() - 1]);
            }
        }
        assert(unique(short)) by {
            assert forall|a: int, b: int| 0 <= a < b < short.len() implies keys(short)[a] != keys(short)[b] by {
                assert(keys(s)[a] != keys(s)[b]);
            }
        }
        lemma_filter(short, keep);
        lemma_push(short, p);
        let u = short.filter(f);
        if keep(p.0@) {
            assert(t == u.push(p));
            assert(!keys(u).contains(p.0@));
            lemma_push(u, p);
            assert forall|a: int, b: int| 0 <= a < b < t.len() implies keys(t)[a] != keys(t)[b] by {
                if b < u.len() {
                    assert(keys(u)[a] != keys(u)[b]);
                } else {
                    assert(keys(u).contains(keys(u)[a]));
                }
            }
            assert(unique(t));
        }
        assert(as_map(t) =~= as_map(s).restrict(Set::new(keep)));
        assert forall|k: Seq<char>| #[trigger] keys(t).contains(k) implies keys(s).contains(k) && keep(k) by {
            let j = choose|j: int| 0 <= j < keys(t).len() && keys(t)[j] == k;
            if j < u.len() {
                assert(keys(u)[j] == k);
                assert(keys(u).contains(k));
                let i = choose|i: int| 0 <= i < keys(short).len() && keys(short)[i] == k;
                assert(keys(s)[i] == k);
            } else {
                assert(keys(s)[s.len() - 1] == k);
            }
        }
    }
}

/// The index of the pair with the key `k`.
pub fn find<V>(v: &Vec<(String, V)>, k: &str) -> (r: Option<usize>)
    ensures
        r is Some == as_map(v@).contains_key(k@),
        r matches Some(i) ==> i < v.len() && i == key_index(v@, k@) && v@[i as int].0@ == k@
            && as_map(v@)[k@] == v@[i as int].1,
        r is None ==> forall|i: int| 0 <= i < v.len() ==> (#[trigger] v@[i]).0@ != k@,
{
    let mut i: usize = 0;
    while i < v.len()
        invariant
            i <= v.len(),
            forall|j: int| 0 <= j < i ==> (#[trigger] v@[j]).0@ != k@,
        decreases v.len() - i,
    {
        if same(v[i].0.as_str(), k) {
            proof {
                lemma_key_index_at(v@, k@, i as int);
            }
            return Some(i);
        }
        i += 1;
    }
    proof {
        lemma_key_index_at(v@, k@, i as int);
    }
    None
}

/// The keys after `k` was put: a key that is there keeps its place, a new one
/// comes last.
pub open spec fn keys_with(ks: Seq<Seq<char>>, k: Seq<char>) -> Seq<Seq<char>> {
    if ks.contains(k) {
        ks
    } else {
        ks.push(k)
    }
}

/// Maps `k` to `value`.
pub fn put<V>(v: &mut Vec<(String, V)>, k: String, value: V)
    requires
        unique(old(v)@),
    ensures
        unique(final(v)@),
        as_map(final(v)@) == as_map(old(v)@).insert(k@, value),
        keys(final(v)@) == keys_with(keys(old(v)@), k@),
{
    let ghost before = v@;
    match find(v, k.as_str()) {
        Some(i) => {
            let _ = v.remove(i);
            v.insert(i, (k, value));
            proof {
                assert(v@ == before.update(i as int, (k, value)));
                assert(keys(before)[i as int] == k@);
                assert(keys(v@) =~= keys(before));
                assert forall|x: Seq<char>| #[trigger] key_index(v@, x) == key_index(before, x) by {
                    lemma_key_index(before, x);
                    let n = key_index(before, x);
                    assert(forall|j: int| 0 <= j < before.len() ==> (#[trigger] v@[j]).0@ == before[j].0@);
                    lemma_key_index_at(v@, x, n);
                }
                lemma_same_index_only(before, k@);
                assert forall|x: Seq<char>| as_map(v@).contains_key(x) == as_map(before).insert(k@, value).contains_key(x) by {
                    assert(key_index(v@, x) == key_index(before, x));
                }
                assert forall|x: Seq<char>| as_map(v@).contains_key(x) implies as_map(v@)[x] == as_map(before).insert(k@, value)[x] by {
                    assert(key_index(v@, x) == key_index(before, x));
                    lemma_key_index(before, x);
                }
                assert(as_map(v@) =~= as_map(before).insert(k@, value));
            }
        },
        None => {
            v.push((k, value));
            proof {
                lemma_mapped(before, k@);
                lemma_push(before, (k, value));
            }
        },
    }
}

proof fn lemma_same_index_only<V>(s: Seq<(String, V)>, k: Seq<char>)
    requires
        key_index(s, k) < s.len(),
    ensures
        forall|x: Seq<char>|
            x != k && #[trigger] key_index(s, x) < s.len() ==> key_index(s, x) != key_index(s, k),
{
    lemma_key_index(s, k);
    assert forall|x: Seq<char>| x != k && #[trigger] key_index(s, x) < s.len() implies key_index(
        s,
        x,
    ) != key_index(s, k) by {
        lemma_key_index(s, x);
    }
}

/// Unmaps `k` and gives back what it was mapped to.
pub fn take<V>(v: &mut Vec<(String, V)>, k: &str) -> (r: Option<V>)
    requires
        unique(old(v)@),
    ensures
        unique(final(v)@),
        as_map(final(v)@) == as_map(old(v)@).remove(k@),
        r is Some == as_map(old(v)@).contains_key(k@),
        r matches Some(x) ==> x == as_map(old(v)@)[k@],
        keys(final(v)@) == keys(old(v)@).filter(|x: Seq<char>| x != k@),
{
    let ghost before = v@;
    let ghost keep = |x: Seq<char>| x != k@;
    match find(v, k) {
        None => {
            proof {
                assert(forall|j: int| 0 <= j < before.len() ==> keys(before)[j] != k@);
                lemma_filter_keeps_all(keys(before), keep);
                assert(as_map(v@) =~= as_map(before).remove(k@));
            }
            None
        },
        Some(i) => {
            let (_, x) = v.remove(i);
            proof {
                let n = i as int;
                assert(v@ == before.remove(n));
                assert(keys(v@) =~= keys(before).remove(n));
                assert(keys(before)[n] == k@);
                lemma_filter_drops_one(keys(before), n, keep);
                assert(unique(v@)) by {
                    assert forall|a: int, b: int| 0 <= a < b < v@.len() implies keys(v@)[a] != keys(v@)[b] by {
                        let a0 = if a < n { a } else { a + 1 };
                        let b0 = if b < n { b } else { b + 1 };
                        assert(keys(before)[a0] != keys(before)[b0]);
                    }
                }
                assert forall|y: Seq<char>| #[trigger] key_index(v@, y) == (if y == k@ {
                    v@.len() as int
                } else if key_index(before, y) < n {
                    key_index(before, y)
                } else {
                    key_index(before, y) - 1
                }) by {
                    lemma_key_index(before, y);
                    let m = key_index(before, y);
                    if y == k@ {
                        assert forall|j: int| 0 <= j < v@.len() implies (#[trigger] v@[j]).0@ != k@ by {
                            let j0 = if j < n { j } else { j + 1 };
                            assert(keys(before)[j0] != keys(before)[n]);
                        }
                        lemma_key_index_at(v@, y, v@.len() as int);
                    } else {
                        assert(m != n);
                        assert(m > n ==> before[n].0@ != y);
                        let t = if m < n { m } else { m - 1 };
                        assert forall|j: int| 0 <= j < t implies (#[trigger] v@[j]).0@ != y by {
                            let j0 = if j < n { j } else { j + 1 };
                            assert(before[j0].0@ != y);
                        }
                        lemma_key_index_at(v@, y, t);
                    }
                }
                assert forall|y: Seq<char>| as_map(v@).contains_key(y) == as_map(before).remove(k@).contains_key(y) by {
                    lemma_key_index(before, y);
                    assert(key_index(v@, y) == key_index(v@, y));
                }
                assert forall|y: Seq<char>| as_map(v@).contains_key(y) implies as_map(v@)[y] == as_map(before).remove(k@)[y] by {
                    lemma_key_index(before, y);
                    assert(key_index(v@, y) == key_index(v@, y));
                }
                assert(as_map(v@) =~= as_map(before).remove(k@));
            }
            Some(x)
        },
    }
}

/// One more element in front of the end is filtered by itself.
pub(crate) proof fn lemma_filter_step<A>(s: Seq<A>, n: int, keep: spec_fn(A) -> bool)
    requires
        0 <= n < s.len(),
    ensures
        s.take(n + 1).filter(keep) == if keep(s[n]) {
            s.take(n).filter(keep).push(s[n])
        } else {
            s.take(n).filter(keep)
        },
{
    reveal(Seq::filter);
    assert(s.take(n + 1).drop_last() == s.take(n));
}

/// The pairs whose keys are listed.
pub fn retain_listed<V>(v: Vec<(String, V)>, list: &Vec<String>) -> (r: Vec<(String, V)>)
    requires
        unique(v@),
    ensures
        unique(r@),
        as_map(r@) == as_map(v@).restrict(Set::new(|k: Seq<char>| texts(list@).contains(k))),
{
    let ghost all = v@;
    let ghost keep = |k: Seq<char>| texts(list@).contains(k);
    let ghost f = |p: (String, V)| keep(p.0@);
    let mut rest = v;
    let mut r: Vec<(String, V)> = Vec::new();
    let ghost mut n: int = 0;
    assert(all.take(0).filter(f) == Seq::<(String, V)>::empty()) by {
        reveal(Seq::filter);
    }
    while rest.len() > 0
        invariant
            0 <= n <= all.len(),
            rest@ == all.skip(n),
            keep == (|k: Seq<char>| texts(list@).contains(k)),
            f == (|p: (String, V)| keep(p.0@)),
            r@ == all.take(n).filter(f),
        decreases rest.len(),
    {
        let p = rest.remove(0);
        proof {
            assert(p == all[n]);
            lemma_filter_step(all, n, f);
            n = n + 1;
        }
        if listed(list, p.0.as_str()) {
            r.push(p);
        }
    }
    proof {
        assert(all.take(n) == all);
        lemma_filter(all, keep);
    }
    r
}

pub(crate) proof fn lemma_filter_keeps_all<A>(s: Seq<A>, keep: spec_fn(A) -> bool)
    requires
        forall|j: int| 0 <= j < s.len() ==> keep(s[j]),
    ensures
        s.filter(keep) == s,
    decreases s.len(),
{
    reveal(Seq::filter);
    if s.len() > 0 {
        lemma_filter_keeps_all(s.drop_last(), keep);
        assert(s == s.drop_last().push(s.last()));
    }
}

proof fn lemma_filter_drops_one<A>(s: Seq<A>, n: int, keep: spec_fn(A) -> bool)
    requires
        s.no_duplicates(),
        0 <= n < s.len(),
        forall|x: A| #[trigger] keep(x) == (x != s[n]),
    ensures
        s.filter(keep) == s.remove(n),
    decreases s.len(),
{
    reveal(Seq::filter);
    let short = s.drop_last();
    if n == s.len() - 1 {
        assert forall|j: int| 0 <= j < short.len() implies keep(short[j]) by {
            assert(s[j] != s[n]);
        }
        lemma_filter_keeps_all(short, keep);
        assert(s.remove(n) =~= short);
    } else {
        assert(short[n] == s[n]);
        lemma_filter_drops_one(short, n, keep);
        assert(s.last() != s[n]);
        assert(s.remove(n) =~= short.remove(n).push(s.last()));
    }
}

/// A table: each key is mapped to one value.
pub struct Table<V> {
    entries: Vec<(String, V)>,
}

impl<V> View for Table<V> {
    type V = Map<Seq<char>, V>;

    closed spec fn view(&self) -> Map<Seq<char>, V> {
        as_map(self.entries@)
    }
}

impl<V> Table<V> {
    #[verifier::type_invariant]
    spec fn well_formed(self) -> bool {
        unique(self.entries@)
    }

    /// The keys, in the order in which they were first put.
    pub closed spec fn order(&self) -> Seq<Seq<char>> {
        keys(self.entries@)
    }

    /// The keys in their order are all the keys.
    pub proof fn order_lists_the_keys(self)
        ensures
            forall|k: Seq<char>| #[trigger] self@.contains_key(k) == self.order().contains(k),
    {
        assert forall|k: Seq<char>| #[trigger] self@.contains_key(k) == self.order().contains(k) by {
            lemma_mapped(self.entries@, k);
        }
    }

    /// An empty table.
    pub fn new() -> (r: Self)
        ensures
            r@ == Map::<Seq<char>, V>::empty(),
            r.order() == Seq::<Seq<char>>::empty(),
    {
        let entries: Vec<(String, V)> = Vec::new();
        assert(keys(entries@) =~= seq![]);
        let r = Table { entries };
        assert(r@ =~= Map::<Seq<char>, V>::empty());
        r
    }

    /// The number of keys.
    pub fn len(&self) -> (r: usize)
        ensures
            r == self.order().len(),
    {
        self.entries.len()
    }

    /// What `k` is mapped to.
    pub fn get(&self, k: &str) -> (r: Option<&V>)
        ensures
            r is Some == self@.contains_key(k@),
            r matches Some(x) ==> *x == self@[k@],
    {
        match find(&self.entries, k) {
            Some(i) => Some(&self.entries[i].1),
            None => None,
        }
    }

    /// The key and the value at the place `i`.
    pub fn at(&self, i: usize) -> (r: (&String, &V))
        requires
            i < self.order().len(),
        ensures
            r.0@ == self.order()[i as int],
            self@.contains_key(r.0@),
            *r.1 == self@[r.0@],
    {
        proof {
            use_type_invariant(self);
            let s = self.entries@;
            let k = s[i as int].0@;
            assert forall|j: int| 0 <= j < i implies (#[trigger] s[j]).0@ != k by {
                assert(keys(s)[j] != keys(s)[i as int]);
            }
            lemma_key_index_at(s, k, i as int);
        }
        let p = &self.entries[i];
        (&p.0, &p.1)
    }

    /// Maps `k` to `value`.
    pub fn insert(&mut self, k: String, value: V)
        ensures
            final(self)@ == old(self)@.insert(k@, value),
            final(self).order() == keys_with(old(self).order(), k@),
    {
        proof {
            use_type_invariant(&*self);
        }
        let mut entries: Vec<(String, V)> = Vec::new();
        assert(keys(entries@) =~= seq![]);
        std::mem::swap(&mut entries, &mut self.entries);
        put(&mut entries, k, value);
        self.entries = entries;
    }

    /// Unmaps `k`.
    pub fn remove(&mut self, k: &str) -> (r: Option<V>)
        ensures
            final(self)@ == old(self)@.remove(k@),
            final(self).order() == old(self).order().filter(|x: Seq<char>| x != k@),
            r is Some == old(self)@.contains_key(k@),
            r matches Some(x) ==> x == old(self)@[k@],
    {
        proof {
            use_type_invariant(&*self);
        }
        let mut entries: Vec<(String, V)> = Vec::new();
        assert(keys(entries@) =~= seq![]);
        std::mem::swap(&mut entries, &mut self.entries);
        let r = take(&mut entries, k);
        self.entries = entries;
        r
    }
}

/// A key that is put into a table is there, and all the others stay where they are: a new
/// one comes last.
pub proof fn keys_keep_their_places(ks: Seq<Seq<char>>, k: Seq<char>, i: int)
    ensures
        keys_with(ks, k).contains(k),
        0 <= i < ks.len() ==> keys_with(ks, k)[i] == ks[i],
        keys_with(ks, k).len() == if ks.contains(k) {
            ks.len()
        } else {
            ks.len() + 1
        },
{
    if !ks.contains(k) {
        assert(keys_with(ks, k)[ks.len() as int] == k);
    }
}

/// A list of pairs in which no key occurs twice maps each key to the value beside it, and
/// no other key.
pub proof fn pairs_map_keys_to_values<V>(s: Seq<(String, V)>, i: int, k: Seq<char>)
    requires
        unique(s),
    ensures
        0 <= i < s.len() ==> as_map(s).contains_key(s[i].0@) && as_map(s)[s[i].0@] == s[i].1,
        as_map(s).contains_key(k) <==> exists|j: int| 0 <= j < s.len() && (#[trigger] s[j]).0@ == k,
        keys(s).len() == s.len(),
        0 <= i < s.len() ==> keys(s)[i] == s[i].0@,
        forall|a: int, b: int|
            0 <= a < b < s.len() ==> (#[trigger] s[a]).0@ != (#[trigger] s[b]).0@,
{
    assert forall|a: int, b: int| 0 <= a < b < s.len() implies (#[trigger] s[a]).0@ != (
    #[trigger] s[b]).0@ by {
        assert(keys(s)[a] != keys(s)[b]);
    }
    lemma_key_index(s, k);
    if 0 <= i < s.len() {
        lemma_key_index(s, s[i].0@);
        lemma_key_index_at(s, s[i].0@, i);
    }
}

} // verus!
