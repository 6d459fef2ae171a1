//! Tables keyed by strings: a `Vec<(String, V)>` whose keys are distinct,
//! seen as a map from the key's characters to the value.

use vstd::prelude::*;
use vstd::string::*;
use crate::text::same_text;

verus! {

/// The keys of a table, in order.
pub open spec fn keys<V>(s: Seq<(String, V)>) -> Seq<Seq<char>> {
    s.map_values(|e: (String, V)| e.0@)
}

/// A table is well formed when no key occurs twice.
pub open spec fn distinct_keys<V>(s: Seq<(String, V)>) -> bool {
    keys(s).no_duplicates()
}

/// The map a table stands for; a later entry wins over an earlier one.
pub open spec fn as_map<V>(s: Seq<(String, V)>) -> Map<Seq<char>, V>
    decreases s.len(),
{
    if s.len() == 0 {
        Map::empty()
    } else {
        as_map(s.drop_last()).insert(s.last().0@, s.last().1)
    }
}

/// In a table with distinct keys, the map holds exactly the keys, each
/// with the value stored beside it.
pub proof fn lemma_as_map<V>(s: Seq<(String, V)>)
    requires
        distinct_keys(s),
    ensures
        forall|k: Seq<char>| #[trigger] as_map(s).contains_key(k) <==> keys(s).contains(k),
        forall|i: int| 0 <= i < s.len() ==> #[trigger] as_map(s)[s[i].0@] == s[i].1,
    decreases s.len(),
{
    if s.len() > 0 {
        let d = s.drop_last();
        let last = s.last();
        let n = s.len() - 1;
        assert(keys(d) =~= keys(s).drop_last());
        assert forall|a: int, b: int| 0 <= a < keys(d).len() && 0 <= b < keys(d).len() && a != b implies keys(d)[a] != keys(d)[b] by {
            assert(keys(s)[a] != keys(s)[b]);
        }
        lemma_as_map(d);
        assert(keys(s)[n] == last.0@);
        assert(!keys(d).contains(last.0@)) by {
            if keys(d).contains(last.0@) {
                let j = choose|j: int| 0 <= j < keys(d).len() && keys(d)[j] == last.0@;
                assert(keys(s)[j] == keys(s)[n]);
            }
        }
        assert(as_map(s) == as_map(d).insert(last.0@, last.1));
        assert forall|k: Seq<char>| #[trigger] as_map(s).contains_key(k) <==> keys(s).contains(k) by {
            if keys(s).contains(k) {
                let j = choose|j: int| 0 <= j < keys(s).len() && keys(s)[j] == k;
                if j < n {
                    assert(keys(d)[j] == k);
                    assert(as_map(d).contains_key(k));
                }
            }
            if as_map(s).contains_key(k) && k != last.0@ {
                assert(as_map(d).contains_key(k));
                let j = choose|j: int| 0 <= j < keys(d).len() && keys(d)[j] == k;
                assert(keys(s)[j] == k);
            }
        }
        assert forall|i: int| 0 <= i < s.len() implies #[trigger] as_map(s)[s[i].0@] == s[i].1 by {
            if i < n {
                assert(keys(s)[i] != keys(s)[n]);
                assert(d[i] == s[i]);
                assert(as_map(d)[d[i].0@] == d[i].1);
            }
        }
    }
}

/// Index of the entry with key `key`, or the table's length when there
/// is none.
pub fn find<V>(s: &Vec<(String, V)>, key: &str) -> (i: usize)
    ensures
        i <= s@.len(),
        i < s@.len() ==> s@[i as int].0@ == key@,
        i == s@.len() ==> !keys(s@).contains(key@),
{
    let mut i: usize = 0;
    while i < s.len()
        invariant
            i <= s@.len(),
            forall|j: int| 0 <= j < i ==> s@[j].0@ != key@,
        decreases s@.len() - i,
    {
        if same_text(s[i].0.as_str(), key) {
            return i;
        }
        i += 1;
    }
    assert forall|j: int| 0 <= j < keys(s@).len() implies keys(s@)[j] != key@ by {
        assert(s@[j].0@ != key@);
    }
    i
}

/// The value stored under `key`, if any.
pub fn lookup<'a, V>(s: &'a Vec<(String, V)>, key: &str) -> (r: Option<&'a V>)
    requires
        distinct_keys(s@),
    ensures
        match r {
            Some(v) => as_map(s@).contains_key(key@) && *v == as_map(s@)[key@],
            None => !as_map(s@).contains_key(key@),
        },
{
    proof {
        lemma_as_map(s@);
    }
    let i = find(s, key);
    if i < s.len() {
        assert(keys(s@)[i as int] == key@);
        assert(as_map(s@).contains_key(key@));
        assert(as_map(s@)[s@[i as int].0@] == s@[i as int].1);
        Some(&s[i].1)
    } else {
        None
    }
}

/// Store `v` under `key`, in place of an earlier value if there is one.
pub fn store<V>(s: &mut Vec<(String, V)>, key: String, v: V)
    requires
        distinct_keys(old(s)@),
    ensures
        distinct_keys(final(s)@),
        as_map(final(s)@) == as_map(old(s)@).insert(key@, v),
{
    let ghost before = s@;
    let ghost k = key@;
    proof {
        lemma_as_map(before);
    }
    let i = find(s, key.as_str());
    if i < s.len() {
        s.set(i, (key, v));
        proof {
            assert(keys(s@) =~= keys(before));
            lemma_as_map(s@);
            assert forall|x: Seq<char>| #[trigger] as_map(s@).contains_key(x) <==> as_map(before).insert(k, v).contains_key(x) by {
                if x == k {
                    assert(keys(before)[i as int] == k);
                }
            }
            assert forall|x: Seq<char>| #[trigger] as_map(s@).contains_key(x) implies as_map(s@)[x] == as_map(before).insert(k, v)[x] by {
                let j = choose|j: int| 0 <= j < keys(s@).len() && keys(s@)[j] == x;
                assert(as_map(s@)[s@[j].0@] == s@[j].1);
                if j != i {
                    assert(as_map(before)[before[j].0@] == before[j].1);
                    assert(keys(before)[j] != keys(before)[i as int]);
                }
            }
            assert(as_map(s@) =~= as_map(before).insert(k, v));
        }
    } else {
        s.push((key, v));
        proof {
            assert(s@.drop_last() =~= before);
            assert(keys(s@) =~= keys(before).push(k));
            assert forall|a: int, b: int| 0 <= a < b < keys(s@).len() implies keys(s@)[a] != keys(s@)[b] by {
                if b == before.len() {
                    assert(keys(before)[a] != k) by {
                        assert(keys(before).contains(keys(before)[a]));
                    }
                } else {
                    assert(keys(before)[a] != keys(before)[b]);
                }
            }
        }
    }
}

/// Remove the entry under `key`, if there is one.
pub fn discard<V>(s: &mut Vec<(String, V)>, key: &str)
    requires
        distinct_keys(old(s)@),
    ensures
        distinct_keys(final(s)@),
        as_map(final(s)@) == as_map(old(s)@).remove(key@),
{
    let ghost before = s@;
    proof {
        lemma_as_map(before);
    }
    let i = find(s, key);
    if i < s.len() {
        s.remove(i);
        proof {
            assert(keys(s@) =~= keys(before).remove(i as int));
            assert forall|a: int, b: int| 0 <= a < b < keys(s@).len() implies keys(s@)[a] != keys(s@)[b] by {
                let a2 = if a < i { a } else { a + 1 };
                let b2 = if b < i { b } else { b + 1 };
                assert(keys(before)[a2] != keys(before)[b2]);
            }
            lemma_as_map(s@);
            assert forall|x: Seq<char>| #[trigger] as_map(s@).contains_key(x) <==> as_map(before).remove(key@).contains_key(x) by {
                if keys(s@).contains(x) {
                    let j = choose|j: int| 0 <= j < keys(s@).len() && keys(s@)[j] == x;
                    let j2 = if j < i { j } else { j + 1 };
                    assert(keys(before)[j2] == x);
                    assert(keys(before)[j2] != keys(before)[i as int]);
                }
                if keys(before).contains(x) && x != key@ {
                    let j = choose|j: int| 0 <= j < keys(before).len() && keys(before)[j] == x;
                    assert(j != i);
                    let j2 = if j < i { j } else { j - 1 };
                    assert(keys(s@)[j2] == x);
                }
            }
            assert forall|x: Seq<char>| #[trigger] as_map(s@).contains_key(x) implies as_map(s@)[x] == as_map(before)[x] by {
                let j = choose|j: int| 0 <= j < keys(s@).len() && keys(s@)[j] == x;
                let j2 = if j < i { j } else { j + 1 };
                assert(s@[j] == before[j2]);
                assert(as_map(s@)[s@[j].0@] == s@[j].1);
                assert(as_map(before)[before[j2].0@] == before[j2].1);
            }
            assert(as_map(s@) =~= as_map(before).remove(key@));
        }
    } else {
        proof {
            assert(as_map(before) =~= as_map(before).remove(key@));
        }
    }
}

} // verus!
