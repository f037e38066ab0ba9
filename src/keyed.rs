//! Tables keyed by account or motion identifier, held as a vector of pairs
//! with unique keys.
use vstd::prelude::*;

verus! {

/// The keys and values of a table, with each key seen as its characters.
pub open spec fn keyed_view<V>(s: Seq<(String, V)>) -> Seq<(Seq<char>, V)> {
    s.map_values(|e: (String, V)| (e.0@, e.1))
}

/// No key occurs twice.
pub open spec fn keys_unique<V>(s: Seq<(Seq<char>, V)>) -> bool {
    forall|i: int, j: int| 0 <= i < s.len() && 0 <= j < s.len() && i != j ==> s[i].0 != s[j].0
}

pub open spec fn has_key<V>(s: Seq<(Seq<char>, V)>, k: Seq<char>) -> bool {
    exists|i: int| 0 <= i < s.len() && s[i].0 == k
}

/// The value stored under `k`, if any.
pub open spec fn lookup<V>(s: Seq<(Seq<char>, V)>, k: Seq<char>) -> Option<V> {
    if has_key(s, k) {
        Some(s[choose|i: int| 0 <= i < s.len() && s[i].0 == k].1)
    } else {
        None
    }
}

/// In a table with unique keys, the entry at a position holding `k` is the one
/// that `lookup` finds.
pub proof fn lemma_lookup_at<V>(s: Seq<(Seq<char>, V)>, i: int)
    requires
        keys_unique(s),
        0 <= i < s.len(),
    ensures
        lookup(s, s[i].0) == Some(s[i].1),
{
    let k = s[i].0;
    assert(has_key(s, k));
    let j = choose|j: int| 0 <= j < s.len() && s[j].0 == k;
    assert(j == i);
}

/// Replacing the value at a position keeps the keys, changes what `lookup`
/// gives for that key and nothing else.
pub proof fn lemma_lookup_update<V>(s: Seq<(Seq<char>, V)>, i: int, v: V)
    requires
        keys_unique(s),
        0 <= i < s.len(),
    ensures
        keys_unique(s.update(i, (s[i].0, v))),
        forall|k: Seq<char>| #[trigger]
            lookup(s.update(i, (s[i].0, v)), k) == if k == s[i].0 {
                Some(v)
            } else {
                lookup(s, k)
            },
{
    let t = s.update(i, (s[i].0, v));
    assert forall|k: Seq<char>| #[trigger]
        lookup(t, k) == if k == s[i].0 {
            Some(v)
        } else {
            lookup(s, k)
        } by {
        if k == s[i].0 {
            lemma_lookup_at(t, i);
        } else {
            if has_key(s, k) {
                let j = choose|j: int| 0 <= j < s.len() && s[j].0 == k;
                assert(t[j].0 == k);
                lemma_lookup_at(t, j);
                lemma_lookup_at(s, j);
            } else {
                assert forall|j: int| 0 <= j < t.len() implies t[j].0 != k by {
                    if j != i {
                        assert(t[j] == s[j]);
                    }
                }
            }
        }
    }
}

/// Appending a new key keeps the keys unique and adds exactly that key.
pub proof fn lemma_lookup_push<V>(s: Seq<(Seq<char>, V)>, k: Seq<char>, v: V)
    requires
        keys_unique(s),
        !has_key(s, k),
    ensures
        keys_unique(s.push((k, v))),
        forall|q: Seq<char>| #[trigger]
            lookup(s.push((k, v)), q) == if q == k {
                Some(v)
            } else {
                lookup(s, q)
            },
{
    let t = s.push((k, v));
    assert forall|q: Seq<char>| #[trigger]
        lookup(t, q) == if q == k {
            Some(v)
        } else {
            lookup(s, q)
        } by {
        if q == k {
            lemma_lookup_at(t, s.len() as int);
        } else if has_key(s, q) {
            let j = choose|j: int| 0 <= j < s.len() && s[j].0 == q;
            lemma_lookup_at(t, j);
            lemma_lookup_at(s, j);
        } else {
            assert forall|j: int| 0 <= j < t.len() implies t[j].0 != q by {
                if j < s.len() {
                    assert(t[j] == s[j]);
                }
            }
        }
    }
}

/// Removing the entry at a position keeps the keys unique and drops exactly
/// that key.
pub proof fn lemma_lookup_remove<V>(s: Seq<(Seq<char>, V)>, i: int)
    requires
        keys_unique(s),
        0 <= i < s.len(),
    ensures
        keys_unique(s.remove(i)),
        forall|q: Seq<char>| #[trigger]
            lookup(s.remove(i), q) == if q == s[i].0 {
                None
            } else {
                lookup(s, q)
            },
{
    let t = s.remove(i);
    assert forall|a: int, b: int| 0 <= a < t.len() && 0 <= b < t.len() && a != b implies t[a].0
        != t[b].0 by {
        let a2 = if a < i { a } else { a + 1 };
        let b2 = if b < i { b } else { b + 1 };
        assert(t[a] == s[a2]);
        assert(t[b] == s[b2]);
    }
    assert forall|q: Seq<char>| #[trigger]
        lookup(t, q) == if q == s[i].0 {
            None
        } else {
            lookup(s, q)
        } by {
        if q == s[i].0 {
            assert forall|j: int| 0 <= j < t.len() implies t[j].0 != q by {
                let j2 = if j < i { j } else { j + 1 };
                assert(t[j] == s[j2]);
            }
        } else if has_key(s, q) {
            let j = choose|j: int| 0 <= j < s.len() && s[j].0 == q;
            let j1 = if j < i { j } else { j - 1 };
            assert(t[j1] == s[j]);
            lemma_lookup_at(t, j1);
            lemma_lookup_at(s, j);
        } else {
            assert forall|j: int| 0 <= j < t.len() implies t[j].0 != q by {
                let j2 = if j < i { j } else { j + 1 };
                assert(t[j] == s[j2]);
            }
        }
    }
}

/// The position of `k` in the table, if it is there.
pub fn find_key<V>(v: &Vec<(String, V)>, k: &String) -> (r: Option<usize>)
    requires
        keys_unique(keyed_view(v@)),
    ensures
        match r {
            Some(i) => i < v@.len() && v@[i as int].0@ == k@ && lookup(keyed_view(v@), k@)
                == Some(v@[i as int].1),
            None => !has_key(keyed_view(v@), k@) && lookup(keyed_view(v@), k@) is None,
        },
{
    let ghost s = keyed_view(v@);
    let mut i: usize = 0;
    while i < v.len()
        invariant
            i <= v@.len(),
            s == keyed_view(v@),
            keys_unique(s),
            forall|j: int| 0 <= j < i ==> s[j].0 != k@,
        decreases v@.len() - i,
    {
        if v[i].0 == *k {
            proof {
                lemma_lookup_at(s, i as int);
            }
            return Some(i);
        }
        i = i + 1;
    }
    None
}

/// Whether no key of the table occurs twice.
pub fn all_keys_unique<V>(v: &Vec<(String, V)>) -> (r: bool)
    ensures
        r == keys_unique(keyed_view(v@)),
{
    let ghost s = keyed_view(v@);
    let mut i: usize = 0;
    while i < v.len()
        invariant
            i <= v@.len(),
            s == keyed_view(v@),
            forall|a: int, b: int| 0 <= a < b < i ==> s[a].0 != s[b].0,
        decreases v@.len() - i,
    {
        let mut j: usize = 0;
        while j < i
            invariant
                j <= i < v@.len(),
                s == keyed_view(v@),
                forall|a: int| 0 <= a < j ==> s[a].0 != s[i as int].0,
            decreases i - j,
        {
            if v[j].0 == v[i].0 {
                assert(s[j as int].0 == s[i as int].0);
                return false;
            }
            j = j + 1;
        }
        i = i + 1;
    }
    assert forall|a: int, b: int| 0 <= a < s.len() && 0 <= b < s.len() && a != b implies s[a].0
        != s[b].0 by {
        if a > b {
            assert(s[b].0 != s[a].0);
        }
    }
    true
}

} // verus!
