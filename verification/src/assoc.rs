//! Small maps keyed by name, kept as vectors of pairs in which no name occurs
//! twice.

use crate::text::eq_str;
use vstd::prelude::*;

verus! {

/// The pairs as plain values.
pub open spec fn pairs_view<V>(v: Seq<(String, V)>) -> Seq<(Seq<char>, V)> {
    v.map_values(|p: (String, V)| (p.0@, p.1))
}

/// No name occurs twice.
pub open spec fn keys_distinct<V>(s: Seq<(Seq<char>, V)>) -> bool {
    forall|i: int, j: int| 0 <= i < j < s.len() ==> #[trigger] s[i].0 != #[trigger] s[j].0
}

/// The value recorded for `k`, if any.
pub open spec fn lookup<V>(s: Seq<(Seq<char>, V)>, k: Seq<char>) -> Option<V>
    decreases s.len(),
{
    if s.len() == 0 {
        None
    } else if s.last().0 == k {
        Some(s.last().1)
    } else {
        lookup(s.drop_last(), k)
    }
}

pub proof fn lemma_lookup_at<V>(s: Seq<(Seq<char>, V)>, i: int)
    requires
        0 <= i < s.len(),
        keys_distinct(s),
    ensures
        lookup(s, s[i].0) == Some(s[i].1),
    decreases s.len(),
{
    if i < s.len() - 1 {
        assert(s.last() == s[s.len() - 1]);
        assert(keys_distinct(s.drop_last())) by {
            assert forall|a: int, b: int| 0 <= a < b < s.drop_last().len() implies #[trigger] s.drop_last()[a].0
                != #[trigger] s.drop_last()[b].0 by {
                assert(s.drop_last()[a] == s[a]);
                assert(s.drop_last()[b] == s[b]);
            }
        }
        lemma_lookup_at(s.drop_last(), i);
    }
}

pub proof fn lemma_lookup_absent<V>(s: Seq<(Seq<char>, V)>, k: Seq<char>)
    requires
        forall|i: int| 0 <= i < s.len() ==> #[trigger] s[i].0 != k,
    ensures
        lookup(s, k) is None,
    decreases s.len(),
{
    if s.len() > 0 {
        assert(s.last() == s[s.len() - 1]);
        lemma_lookup_absent(s.drop_last(), k);
    }
}

pub proof fn lemma_lookup_update<V>(s: Seq<(Seq<char>, V)>, i: int, v: V)
    requires
        0 <= i < s.len(),
        keys_distinct(s),
    ensures
        lookup(s.update(i, (s[i].0, v)), s[i].0) == Some(v),
        forall|k: Seq<char>|
            k != s[i].0 ==> lookup(#[trigger] s.update(i, (s[i].0, v)), k) == lookup(s, k),
        keys_distinct(s.update(i, (s[i].0, v))),
    decreases s.len(),
{
    let t = s.update(i, (s[i].0, v));
    assert(t.last() == t[t.len() - 1]);
    assert(s.last() == s[s.len() - 1]);
    assert(keys_distinct(t)) by {
        assert forall|a: int, b: int| 0 <= a < b < t.len() implies #[trigger] t[a].0 != #[trigger] t[b].0 by {
            assert(t[a].0 == s[a].0);
            assert(t[b].0 == s[b].0);
        }
    }
    if i < s.len() - 1 {
        assert(keys_distinct(s.drop_last())) by {
            assert forall|a: int, b: int| 0 <= a < b < s.drop_last().len() implies #[trigger] s.drop_last()[a].0
                != #[trigger] s.drop_last()[b].0 by {
                assert(s.drop_last()[a] == s[a]);
                assert(s.drop_last()[b] == s[b]);
            }
        }
        assert(t.drop_last() =~= s.drop_last().update(i, (s[i].0, v)));
        lemma_lookup_update(s.drop_last(), i, v);
        assert forall|k: Seq<char>| k != s[i].0 implies lookup(
            #[trigger] s.update(i, (s[i].0, v)),
            k,
        ) == lookup(s, k) by {
            assert(lookup(s.drop_last().update(i, (s[i].0, v)), k) == lookup(s.drop_last(), k));
        }
    } else {
        assert(t.drop_last() =~= s.drop_last());
    }
}

/// Dropping the first pair forgets its name and keeps every other lookup.
pub proof fn lemma_lookup_drop_first<V>(s: Seq<(Seq<char>, V)>)
    requires
        s.len() > 0,
        keys_distinct(s),
    ensures
        keys_distinct(s.drop_first()),
        lookup(s.drop_first(), s[0].0) is None,
        forall|k: Seq<char>| k != s[0].0 ==> #[trigger] lookup(s.drop_first(), k) == lookup(s, k),
    decreases s.len(),
{
    let t = s.drop_first();
    assert(keys_distinct(t)) by {
        assert forall|a: int, b: int| 0 <= a < b < t.len() implies #[trigger] t[a].0 != #[trigger] t[b].0 by {
            assert(t[a] == s[a + 1]);
            assert(t[b] == s[b + 1]);
        }
    }
    assert forall|i: int| 0 <= i < t.len() implies #[trigger] t[i].0 != s[0].0 by {
        assert(t[i] == s[i + 1]);
    }
    lemma_lookup_absent(t, s[0].0);
    if s.len() > 1 {
        assert(keys_distinct(s.drop_last())) by {
            assert forall|a: int, b: int| 0 <= a < b < s.drop_last().len() implies #[trigger] s.drop_last()[a].0
                != #[trigger] s.drop_last()[b].0 by {
                assert(s.drop_last()[a] == s[a]);
                assert(s.drop_last()[b] == s[b]);
            }
        }
        lemma_lookup_drop_first(s.drop_last());
        assert(t.drop_last() =~= s.drop_last().drop_first());
        assert(t.last() == s.last());
        assert forall|k: Seq<char>| k != s[0].0 implies #[trigger] lookup(s.drop_first(), k) == lookup(
            s,
            k,
        ) by {
            assert(s.drop_last()[0] == s[0]);
            if t.last().0 != k {
                assert(lookup(t, k) == lookup(t.drop_last(), k));
                assert(lookup(s.drop_last().drop_first(), k) == lookup(s.drop_last(), k));
                assert(lookup(s, k) == lookup(s.drop_last(), k));
            }
        }
    } else {
        assert forall|k: Seq<char>| k != s[0].0 implies #[trigger] lookup(s.drop_first(), k) == lookup(
            s,
            k,
        ) by {
            assert(s.drop_last().len() == 0);
            assert(t.len() == 0);
            assert(s.last() == s[0]);
            assert(lookup(s.drop_last(), k) is None);
            assert(lookup(t, k) is None);
        }
    }
}

/// Where `key` is recorded, if it is.
pub fn find_key<V>(v: &Vec<(String, V)>, key: &str) -> (r: Option<usize>)
    ensures
        match r {
            Some(i) => i < v@.len() && v@[i as int].0@ == key@,
            None => forall|i: int| 0 <= i < v@.len() ==> #[trigger] v@[i].0@ != key@,
        },
{
    let mut i: usize = 0;
    while i < v.len()
        invariant
            0 <= i <= v@.len(),
            forall|j: int| 0 <= j < i ==> #[trigger] v@[j].0@ != key@,
        decreases v.len() - i,
    {
        if eq_str(&v[i].0, key) {
            return Some(i);
        }
        i = i + 1;
    }
    None
}

/// The value recorded for `key`, if any.
pub fn get_value<V: Copy>(v: &Vec<(String, V)>, key: &str) -> (r: Option<V>)
    requires
        keys_distinct(pairs_view(v@)),
    ensures
        r == lookup(pairs_view(v@), key@),
{
    match find_key(v, key) {
        Some(i) => {
            proof {
                lemma_lookup_at(pairs_view(v@), i as int);
            }
            Some(v[i].1)
        },
        None => {
            proof {
                assert forall|j: int| 0 <= j < pairs_view(v@).len() implies #[trigger] pairs_view(
                    v@,
                )[j].0 != key@ by {
                    assert(v@[j].0@ != key@);
                }
                lemma_lookup_absent(pairs_view(v@), key@);
            }
            None
        },
    }
}

/// Records `value` for `key`, replacing what was recorded for it.
pub fn set_value<V>(v: &mut Vec<(String, V)>, key: String, value: V)
    requires
        keys_distinct(pairs_view(old(v)@)),
    ensures
        keys_distinct(pairs_view(final(v)@)),
        final(v)@.len() <= old(v)@.len() + 1,
        lookup(pairs_view(final(v)@), key@) == Some(value),
        forall|k: Seq<char>|
            k != key@ ==> lookup(#[trigger] pairs_view(final(v)@), k) == lookup(
                pairs_view(old(v)@),
                k,
            ),
{
    let ghost before = pairs_view(v@);
    match find_key(v, key.as_str()) {
        Some(i) => {
            let ghost kv = key@;
            v.set(i, (key, value));
            proof {
                assert(pairs_view(v@) =~= before.update(i as int, (before[i as int].0, value)));
                lemma_lookup_update(before, i as int, value);
            }
        },
        None => {
            let ghost kv = key@;
            v.push((key, value));
            proof {
                let after = pairs_view(v@);
                assert(after =~= before.push((kv, value)));
                assert(after.drop_last() =~= before);
                assert(keys_distinct(after)) by {
                    assert forall|a: int, b: int| 0 <= a < b < after.len() implies #[trigger] after[a].0
                        != #[trigger] after[b].0 by {
                        if b == after.len() - 1 {
                            assert(after[a] == before[a]);
                            assert(old(v)@[a].0@ != kv);
                        } else {
                            assert(after[a] == before[a]);
                            assert(after[b] == before[b]);
                        }
                    }
                }
            }
        },
    }
}

} // verus!
