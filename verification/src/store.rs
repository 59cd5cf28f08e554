use vstd::prelude::*;

verus! {

/// Value of the first entry whose key reads as `key`, scanning `s` from
/// position `i` on.
pub open spec fn lookup_from<V: View>(
    s: Seq<(String, V)>,
    i: int,
    key: Seq<char>,
) -> Option<<V as View>::V>
    decreases s.len() - i,
{
    if i < 0 || i >= s.len() {
        None
    } else if s[i].0@ == key {
        Some(s[i].1@)
    } else {
        lookup_from(s, i + 1, key)
    }
}

/// Sum of `f` over the values of `s`, from position `i` on.
pub open spec fn sum_from<V: View>(
    s: Seq<(String, V)>,
    i: int,
    f: spec_fn(<V as View>::V) -> int,
) -> int
    decreases s.len() - i,
{
    if i < 0 || i >= s.len() {
        0
    } else {
        f(s[i].1@) + sum_from(s, i + 1, f)
    }
}

proof fn lemma_lookup_agree<V: View>(
    s1: Seq<(String, V)>,
    s2: Seq<(String, V)>,
    i: int,
    key: Seq<char>,
)
    requires
        s1.len() == s2.len(),
        forall|j: int| i <= j < s1.len() ==> s1[j] == s2[j],
    ensures
        lookup_from(s1, i, key) == lookup_from(s2, i, key),
    decreases s1.len() - i,
{
    if 0 <= i && i < s1.len() {
        lemma_lookup_agree(s1, s2, i + 1, key);
    }
}

proof fn lemma_lookup_update<V: View>(
    s: Seq<(String, V)>,
    u: int,
    p: (String, V),
    key: Seq<char>,
    i: int,
)
    requires
        0 <= i <= u < s.len(),
        s[u].0@ == p.0@,
        forall|j: int| i <= j < u ==> s[j].0@ != p.0@,
    ensures
        lookup_from(s.update(u, p), i, key) == (if key == p.0@ {
            Some(p.1@)
        } else {
            lookup_from(s, i, key)
        }),
    decreases u - i,
{
    if i == u {
        if key != p.0@ {
            lemma_lookup_agree(s.update(u, p), s, i + 1, key);
        }
    } else {
        lemma_lookup_update(s, u, p, key, i + 1);
    }
}

proof fn lemma_lookup_push<V: View>(s: Seq<(String, V)>, p: (String, V), key: Seq<char>, i: int)
    requires
        0 <= i <= s.len(),
    ensures
        lookup_from(s.push(p), i, key) == (if lookup_from(s, i, key) is Some {
            lookup_from(s, i, key)
        } else if key == p.0@ {
            Some(p.1@)
        } else {
            None
        }),
    decreases s.len() - i,
{
    if i == s.len() {
        assert(lookup_from(s.push(p), i + 1, key) is None);
    } else {
        lemma_lookup_push(s, p, key, i + 1);
    }
}

proof fn lemma_lookup_prefix<V: View>(s: Seq<(String, V)>, u: int, key: Seq<char>, i: int)
    requires
        0 <= i <= u < s.len(),
        s[u].0@ == key,
        forall|j: int| i <= j < u ==> s[j].0@ != key,
    ensures
        lookup_from(s, i, key) == Some(s[u].1@),
    decreases u - i,
{
    if i < u {
        lemma_lookup_prefix(s, u, key, i + 1);
    }
}

proof fn lemma_lookup_all_miss<V: View>(s: Seq<(String, V)>, key: Seq<char>, i: int)
    requires
        forall|j: int| i <= j < s.len() ==> s[j].0@ != key,
    ensures
        lookup_from(s, i, key) is None,
    decreases s.len() - i,
{
    if 0 <= i && i < s.len() {
        lemma_lookup_all_miss(s, key, i + 1);
    }
}

proof fn lemma_sum_agree<V: View>(
    s1: Seq<(String, V)>,
    s2: Seq<(String, V)>,
    i: int,
    f: spec_fn(<V as View>::V) -> int,
)
    requires
        s1.len() == s2.len(),
        forall|j: int| i <= j < s1.len() ==> s1[j] == s2[j],
    ensures
        sum_from(s1, i, f) == sum_from(s2, i, f),
    decreases s1.len() - i,
{
    if 0 <= i && i < s1.len() {
        lemma_sum_agree(s1, s2, i + 1, f);
    }
}

proof fn lemma_sum_update<V: View>(
    s: Seq<(String, V)>,
    u: int,
    p: (String, V),
    f: spec_fn(<V as View>::V) -> int,
    i: int,
)
    requires
        0 <= i <= u < s.len(),
    ensures
        sum_from(s.update(u, p), i, f) == sum_from(s, i, f) + f(p.1@) - f(s[u].1@),
    decreases u - i,
{
    if i == u {
        lemma_sum_agree(s.update(u, p), s, i + 1, f);
    } else {
        lemma_sum_update(s, u, p, f, i + 1);
    }
}

proof fn lemma_sum_push<V: View>(
    s: Seq<(String, V)>,
    p: (String, V),
    f: spec_fn(<V as View>::V) -> int,
    i: int,
)
    requires
        0 <= i <= s.len(),
    ensures
        sum_from(s.push(p), i, f) == sum_from(s, i, f) + f(p.1@),
    decreases s.len() - i,
{
    if i == s.len() {
        assert(sum_from(s.push(p), i + 1, f) == 0);
    } else {
        lemma_sum_push(s, p, f, i + 1);
    }
}

proof fn lemma_sum_nonneg<V: View>(s: Seq<(String, V)>, i: int, f: spec_fn(<V as View>::V) -> int)
    requires
        forall|v: <V as View>::V| #[trigger] f(v) >= 0,
    ensures
        sum_from(s, i, f) >= 0,
    decreases s.len() - i,
{
    if 0 <= i && i < s.len() {
        lemma_sum_nonneg(s, i + 1, f);
    }
}

proof fn lemma_sum_lower<V: View>(
    s: Seq<(String, V)>,
    u: int,
    f: spec_fn(<V as View>::V) -> int,
    i: int,
)
    requires
        0 <= i <= u < s.len(),
        forall|v: <V as View>::V| #[trigger] f(v) >= 0,
    ensures
        sum_from(s, i, f) >= f(s[u].1@),
    decreases u - i,
{
    if i == u {
        lemma_sum_nonneg(s, i + 1, f);
    } else {
        lemma_sum_lower(s, u, f, i + 1);
    }
}

proof fn lemma_lookup_index<V: View>(s: Seq<(String, V)>, i: int, key: Seq<char>) -> (j: int)
    requires
        0 <= i,
        lookup_from(s, i, key) is Some,
    ensures
        i <= j < s.len(),
        s[j].0@ == key,
        lookup_from(s, i, key) == Some(s[j].1@),
    decreases s.len() - i,
{
    if s[i].0@ == key {
        i
    } else {
        lemma_lookup_index(s, i + 1, key)
    }
}

/// A map from string keys to values, stored as a vector of entries with
/// pairwise distinct keys.
pub struct StrMap<V> {
    entries: Vec<(String, V)>,
}

impl<V: View> View for StrMap<V> {
    type V = Map<Seq<char>, <V as View>::V>;

    closed spec fn view(&self) -> Map<Seq<char>, <V as View>::V> {
        Map::new(
            |key: Seq<char>| lookup_from(self.entries@, 0, key) is Some,
            |key: Seq<char>| lookup_from(self.entries@, 0, key)->0,
        )
    }
}

impl<V: View> StrMap<V> {
    /// Keys are pairwise distinct.
    pub closed spec fn wf(&self) -> bool {
        forall|i: int, j: int|
            0 <= i < j < self.entries@.len() ==> self.entries@[i].0@ != self.entries@[j].0@
    }

    /// Sum of `f` over all stored values.
    pub closed spec fn sum(&self, f: spec_fn(<V as View>::V) -> int) -> int {
        sum_from(self.entries@, 0, f)
    }

    /// The stored value is never larger than the whole sum, for a
    /// non-negative summand.
    pub proof fn lemma_sum_at_least(&self, key: Seq<char>, f: spec_fn(<V as View>::V) -> int)
        requires
            self@.contains_key(key),
            forall|v: <V as View>::V| #[trigger] f(v) >= 0,
        ensures
            self.sum(f) >= f(self@[key]),
    {
        let j = lemma_lookup_index(self.entries@, 0, key);
        lemma_sum_lower(self.entries@, j, f, 0);
    }

    pub fn new() -> (m: StrMap<V>)
        ensures
            m.wf(),
            m@ == Map::<Seq<char>, <V as View>::V>::empty(),
            forall|f: spec_fn(<V as View>::V) -> int| #[trigger] m.sum(f) == 0,
    {
        let m = StrMap { entries: Vec::new() };
        proof {
            assert forall|key: Seq<char>| !(#[trigger] m@.dom().contains(key)) by {
                assert(lookup_from(m.entries@, 0, key) is None);
            }
            assert(m@ =~= Map::<Seq<char>, <V as View>::V>::empty());
        }
        m
    }

    /// A borrow of the value stored under `key`, if there is one.
    pub fn find(&self, key: &String) -> (r: Option<&V>)
        ensures
            match r {
                Some(v) => self@.contains_key(key@) && v@ == self@[key@],
                None => !self@.contains_key(key@),
            },
    {
        let n = self.entries.len();
        let mut i: usize = 0;
        while i < n
            invariant
                n == self.entries@.len(),
                0 <= i <= n,
                lookup_from(self.entries@, 0, key@) == lookup_from(self.entries@, i as int, key@),
            decreases n - i,
        {
            let e = &self.entries[i];
            if e.0 == *key {
                proof {
                    assert(lookup_from(self.entries@, i as int, key@) == Some(
                        self.entries@[i as int].1@,
                    ));
                }
                return Some(&e.1);
            }
            proof {
                assert(lookup_from(self.entries@, i as int, key@) == lookup_from(
                    self.entries@,
                    i as int + 1,
                    key@,
                ));
            }
            i += 1;
        }
        proof {
            assert(lookup_from(self.entries@, n as int, key@) is None);
        }
        None
    }

    /// Stores `value` under `key`, replacing the previous value if the key
    /// was already present.
    pub fn upsert(&mut self, key: String, value: V)
        requires
            old(self).wf(),
        ensures
            final(self).wf(),
            final(self)@ == old(self)@.insert(key@, value@),
            forall|f: spec_fn(<V as View>::V) -> int| #[trigger]
                final(self).sum(f) == old(self).sum(f) + f(value@) - (if old(
                    self,
                )@.contains_key(key@) {
                    f(old(self)@[key@])
                } else {
                    0
                }),
    {
        let ghost s0 = self.entries@;
        let ghost p: (String, V) = (key, value);
        let n = self.entries.len();
        let mut i: usize = 0;
        while i < n
            invariant
                n == self.entries@.len(),
                old(self).wf(),
                s0 == old(self).entries@,
                s0 == self.entries@,
                p == (key, value),
                0 <= i <= n,
                forall|j: int| 0 <= j < i ==> s0[j].0@ != key@,
            decreases n - i,
        {
            let e = &self.entries[i];
            if e.0 == key {
                self.entries[i] = (key, value);
                proof {
                    lemma_lookup_prefix(s0, i as int, p.0@, 0);
                    assert(old(self)@.contains_key(p.0@));
                    assert(old(self)@[p.0@] == s0[i as int].1@);
                    assert(self.entries@ == s0.update(i as int, p));
                    assert forall|k: Seq<char>| #[trigger] lookup_from(self.entries@, 0, k) == (
                    if k == p.0@ {
                        Some(p.1@)
                    } else {
                        lookup_from(s0, 0, k)
                    }) by {
                        lemma_lookup_update(s0, i as int, p, k, 0);
                    }
                    assert(self@ =~= old(self)@.insert(p.0@, p.1@));
                    assert forall|a: int, b: int|
                        0 <= a < b < self.entries@.len() implies self.entries@[a].0@
                        != self.entries@[b].0@ by {
                        assert(old(self).entries@[a].0@ != old(self).entries@[b].0@);
                        assert(self.entries@[a].0@ == s0[a].0@);
                        assert(self.entries@[b].0@ == s0[b].0@);
                    }
                    assert(self.wf());
                    assert forall|f: spec_fn(<V as View>::V) -> int| #[trigger]
                        self.sum(f) == old(self).sum(f) + f(p.1@) - f(old(self)@[p.0@]) by {
                        lemma_sum_update(s0, i as int, p, f, 0);
                    }
                }
                return;
            }
            i += 1;
        }
        self.entries.push((key, value));
        proof {
            lemma_lookup_all_miss(s0, p.0@, 0);
            assert(!old(self)@.contains_key(p.0@));
            assert(self.entries@ == s0.push(p));
            assert forall|k: Seq<char>| #[trigger] lookup_from(self.entries@, 0, k) == (if k
                == p.0@ {
                Some(p.1@)
            } else {
                lookup_from(s0, 0, k)
            }) by {
                lemma_lookup_push(s0, p, k, 0);
            }
            assert(self@ =~= old(self)@.insert(p.0@, p.1@));
            assert forall|a: int, b: int|
                0 <= a < b < self.entries@.len() implies self.entries@[a].0@
                != self.entries@[b].0@ by {
                if b < s0.len() {
                    assert(old(self).entries@[a].0@ != old(self).entries@[b].0@);
                } else {
                    assert(self.entries@[b] == p);
                    assert(s0[a].0@ != key@);
                }
            }
            assert(self.wf());
            assert forall|f: spec_fn(<V as View>::V) -> int| #[trigger]
                self.sum(f) == old(self).sum(f) + f(p.1@) by {
                lemma_sum_push(s0, p, f, 0);
            }
        }
    }
}

} // verus!
