//! Lists of key and value texts, read as maps.
use vstd::prelude::*;

use crate::text;

verus! {

/// What a list of entries holds under a key.
pub open spec fn found(entries: Seq<(String, String)>, key: Seq<char>) -> Option<Seq<char>>
    decreases entries.len(),
{
    if entries.len() == 0 {
        None
    } else if entries.last().0@ == key {
        Some(entries.last().1@)
    } else {
        found(entries.drop_last(), key)
    }
}

/// No key occurs twice.
pub open spec fn distinct(entries: Seq<(String, String)>) -> bool {
    forall|i: int, j: int| 0 <= i < j < entries.len() ==> (#[trigger] entries[i]).0@ != (#[trigger]
    entries[j]).0@
}

/// A list of entries as a map.
pub open spec fn as_map(entries: Seq<(String, String)>) -> Map<Seq<char>, Seq<char>> {
    Map::new(
        |k: Seq<char>| found(entries, k) is Some,
        |k: Seq<char>| found(entries, k)->0,
    )
}

/// The entries that no later one of the same key replaces.
pub open spec fn settled(entries: Seq<(String, String)>) -> Seq<(String, String)>
    decreases entries.len(),
{
    if entries.len() == 0 {
        Seq::empty()
    } else if found(entries.skip(1), entries[0].0@) is Some {
        settled(entries.skip(1))
    } else {
        seq![entries[0]] + settled(entries.skip(1))
    }
}

fn occurs_from(v: &Vec<(String, String)>, from: usize, key: &str) -> (r: bool)
    requires
        from <= v@.len(),
    ensures
        r == found(v@.skip(from as int), key@) is Some,
{
    let ghost rest = v@.skip(from as int);
    let mut i: usize = from;
    while i < v.len()
        invariant
            from <= i <= v@.len(),
            rest == v@.skip(from as int),
            forall|j: int| 0 <= j < i - from ==> (#[trigger] rest[j]).0@ != key@,
        decreases v.len() - i,
    {
        assert(rest[i - from] == v@[i as int]);
        if text::same(v[i].0.as_str(), key) {
            proof {
                lemma_found_index(rest, key@);
            }
            return true;
        }
        i += 1;
    }
    proof {
        lemma_found_index(rest, key@);
    }
    false
}

/// The entries a map made of the list would hold: of several with one key, the
/// last.
pub fn settle(v: &Vec<(String, String)>) -> (r: Vec<(String, String)>)
    ensures
        r@ == settled(v@),
{
    let mut r: Vec<(String, String)> = Vec::new();
    let mut i: usize = 0;
    assert(v@.skip(0) =~= v@);
    assert(r@ + settled(v@) =~= settled(v@));
    while i < v.len()
        invariant
            i <= v@.len(),
            r@ + settled(v@.skip(i as int)) == settled(v@),
        decreases v.len() - i,
    {
        let ghost here = v@.skip(i as int);
        let ghost before = r@;
        assert(here.skip(1) =~= v@.skip(i + 1));
        assert(here[0] == v@[i as int]);
        if !occurs_from(v, i + 1, v[i].0.as_str()) {
            r.push((v[i].0.clone(), v[i].1.clone()));
            assert(r@ =~= before.push(here[0]));
        }
        assert(r@ + settled(v@.skip(i + 1)) =~= before + settled(here));
        i += 1;
    }
    assert(v@.skip(i as int) =~= Seq::empty());
    assert(r@ + settled(v@.skip(i as int)) =~= r@);
    r
}

/// The keys ascend, byte by byte.
pub open spec fn ascending(entries: Seq<(String, String)>) -> bool {
    forall|i: int, j: int|
        0 <= i < j < entries.len() ==> text::before(
            (#[trigger] entries[i]).0@,
            (#[trigger] entries[j]).0@,
        )
}

pub proof fn lemma_found_index(entries: Seq<(String, String)>, key: Seq<char>)
    ensures
        found(entries, key) is Some <==> exists|i: int|
            0 <= i < entries.len() && (#[trigger] entries[i]).0@ == key,
    decreases entries.len(),
{
    if entries.len() > 0 {
        lemma_found_index(entries.drop_last(), key);
        let d = entries.drop_last();
        if found(d, key) is Some {
            let i = choose|i: int| 0 <= i < d.len() && (#[trigger] d[i]).0@ == key;
            assert(entries[i].0@ == key);
        }
        if exists|i: int| 0 <= i < entries.len() && (#[trigger] entries[i]).0@ == key {
            let i = choose|i: int| 0 <= i < entries.len() && (#[trigger] entries[i]).0@ == key;
            if i < d.len() {
                assert(d[i].0@ == key);
            } else {
                assert(entries.last() == entries[i]);
            }
        }
        if entries.last().0@ == key {
            assert(entries[entries.len() - 1].0@ == key);
        }
    }
}

pub proof fn lemma_found_at(entries: Seq<(String, String)>, i: int)
    requires
        distinct(entries),
        0 <= i < entries.len(),
    ensures
        found(entries, entries[i].0@) == Some(entries[i].1@),
    decreases entries.len(),
{
    if i < entries.len() - 1 {
        assert(entries[i].0@ != entries[entries.len() - 1].0@);
        let d = entries.drop_last();
        assert(distinct(d)) by {
            assert forall|a: int, b: int| 0 <= a < b < d.len() implies (#[trigger] d[a]).0@ != (
            #[trigger] d[b]).0@ by {
                assert(entries[a].0@ != entries[b].0@);
            }
        }
        lemma_found_at(d, i);
        assert(d[i] == entries[i]);
    }
}

pub proof fn lemma_replaced(entries: Seq<(String, String)>, i: int, e: (String, String), key: Seq<char>)
    requires
        distinct(entries),
        0 <= i < entries.len(),
        entries[i].0@ == e.0@,
    ensures
        found(entries.update(i, e), key) == (if key == e.0@ {
            Some(e.1@)
        } else {
            found(entries, key)
        }),
    decreases entries.len(),
{
    let u = entries.update(i, e);
    if i == entries.len() - 1 {
        assert(u.drop_last() =~= entries.drop_last());
    } else {
        let d = entries.drop_last();
        assert(distinct(d)) by {
            assert forall|a: int, b: int| 0 <= a < b < d.len() implies (#[trigger] d[a]).0@ != (
            #[trigger] d[b]).0@ by {
                assert(entries[a].0@ != entries[b].0@);
            }
        }
        assert(d[i] == entries[i]);
        lemma_replaced(d, i, e, key);
        assert(u.drop_last() =~= d.update(i, e));
        assert(entries[i].0@ != entries[entries.len() - 1].0@);
        assert(u.last() == entries.last());
    }
}

pub proof fn lemma_set_len(entries: Seq<(String, String)>)
    requires
        distinct(entries),
    ensures
        Set::new(|k: Seq<char>| found(entries, k) is Some).finite(),
        Set::new(|k: Seq<char>| found(entries, k) is Some).len() == entries.len(),
    decreases entries.len(),
{
    let s = Set::new(|k: Seq<char>| found(entries, k) is Some);
    if entries.len() == 0 {
        assert(s =~= Set::empty());
    } else {
        let d = entries.drop_last();
        assert(distinct(d)) by {
            assert forall|a: int, b: int| 0 <= a < b < d.len() implies (#[trigger] d[a]).0@ != (
            #[trigger] d[b]).0@ by {
                assert(entries[a].0@ != entries[b].0@);
            }
        }
        lemma_set_len(d);
        let t = Set::new(|k: Seq<char>| found(d, k) is Some);
        let last = entries.last().0@;
        lemma_found_index(d, last);
        assert(found(d, last) is None) by {
            if found(d, last) is Some {
                let i = choose|i: int| 0 <= i < d.len() && (#[trigger] d[i]).0@ == last;
                assert(entries[i].0@ != entries[entries.len() - 1].0@);
            }
        }
        assert(s =~= t.insert(last));
    }
}

/// Keys that ascend are distinct.
pub proof fn lemma_ascending_is_distinct(entries: Seq<(String, String)>)
    requires
        ascending(entries),
    ensures
        distinct(entries),
{
    assert forall|i: int, j: int| 0 <= i < j < entries.len() implies (#[trigger] entries[i]).0@ != (
    #[trigger] entries[j]).0@ by {
        assert(text::before(entries[i].0@, entries[j].0@));
        text::lemma_before_irreflexive(entries[i].0@);
    }
}

/// What a new key changes.
pub proof fn lemma_inserted(entries: Seq<(String, String)>, at: int, e: (String, String))
    requires
        distinct(entries),
        distinct(entries.insert(at, e)),
        0 <= at <= entries.len(),
    ensures
        as_map(entries.insert(at, e)) == as_map(entries).insert(e.0@, e.1@),
{
    let new = entries.insert(at, e);
    assert forall|k: Seq<char>|
        #![trigger found(new, k)]
        found(new, k) == (if k == e.0@ {
            Some(e.1@)
        } else {
            found(entries, k)
        }) by {
        lemma_found_index(new, k);
        lemma_found_index(entries, k);
        if k == e.0@ {
            assert(new[at] == e);
            lemma_found_at(new, at);
        } else if found(entries, k) is Some {
            let i = choose|i: int| 0 <= i < entries.len() && (#[trigger] entries[i]).0@ == k;
            lemma_found_at(entries, i);
            let j = if i < at {
                i
            } else {
                i + 1
            };
            assert(new[j] == entries[i]);
            lemma_found_at(new, j);
        } else if found(new, k) is Some {
            let j = choose|j: int| 0 <= j < new.len() && (#[trigger] new[j]).0@ == k;
            let i = if j < at {
                j
            } else {
                j - 1
            };
            assert(j != at);
            assert(entries[i] == new[j]);
        }
    }
    assert(as_map(new) =~= as_map(entries).insert(e.0@, e.1@));
}

/// What a new value of a key that is there changes.
pub proof fn lemma_updated(entries: Seq<(String, String)>, i: int, e: (String, String))
    requires
        distinct(entries),
        0 <= i < entries.len(),
        entries[i].0@ == e.0@,
    ensures
        as_map(entries.update(i, e)) == as_map(entries).insert(e.0@, e.1@),
{
    assert forall|k: Seq<char>|
        #![trigger found(entries.update(i, e), k)]
        found(entries.update(i, e), k) == (if k == e.0@ {
            Some(e.1@)
        } else {
            found(entries, k)
        }) by {
        lemma_replaced(entries, i, e, k);
    }
    assert(as_map(entries.update(i, e)) =~= as_map(entries).insert(e.0@, e.1@));
}

proof fn lemma_found_front(entries: Seq<(String, String)>, key: Seq<char>)
    requires
        entries.len() > 0,
    ensures
        found(entries, key) == (if found(entries.skip(1), key) is Some {
            found(entries.skip(1), key)
        } else if entries[0].0@ == key {
            Some(entries[0].1@)
        } else {
            None
        }),
    decreases entries.len(),
{
    let rest = entries.skip(1);
    if entries.len() > 1 {
        assert(rest.drop_last() =~= entries.drop_last().skip(1));
        lemma_found_front(entries.drop_last(), key);
        assert(rest.last() == entries.last());
        assert(entries.drop_last()[0] == entries[0]);
    } else {
        assert(found(entries.drop_last(), key) is None);
        assert(found(rest, key) is None);
    }
}

proof fn lemma_settled_found(entries: Seq<(String, String)>, key: Seq<char>)
    ensures
        found(settled(entries), key) == found(entries, key),
    decreases entries.len(),
{
    if entries.len() > 0 {
        let rest = entries.skip(1);
        lemma_found_front(entries, key);
        lemma_settled_found(rest, key);
        if found(rest, entries[0].0@) is None {
            let s = seq![entries[0]] + settled(rest);
            lemma_found_front(s, key);
            assert(s.skip(1) =~= settled(rest));
        }
    }
}

proof fn lemma_settled_distinct(entries: Seq<(String, String)>)
    ensures
        distinct(settled(entries)),
        distinct(entries) ==> settled(entries) == entries,
    decreases entries.len(),
{
    if entries.len() > 0 {
        let rest = entries.skip(1);
        let key = entries[0].0@;
        lemma_settled_distinct(rest);
        lemma_settled_found(rest, key);
        lemma_found_index(rest, key);
        if found(rest, key) is None {
            let s = settled(rest);
            lemma_found_index(s, key);
            let all = seq![entries[0]] + s;
            assert forall|i: int, j: int| 0 <= i < j < all.len() implies (#[trigger] all[i]).0@ != (
            #[trigger] all[j]).0@ by {
                assert(all[j] == s[j - 1]);
                if i > 0 {
                    assert(all[i] == s[i - 1]);
                }
            }
        }
        if distinct(entries) {
            assert forall|i: int, j: int| 0 <= i < j < rest.len() implies (#[trigger] rest[i]).0@
                != (#[trigger] rest[j]).0@ by {
                assert(entries[i + 1].0@ != entries[j + 1].0@);
            }
            if found(rest, key) is Some {
                let i = choose|i: int| 0 <= i < rest.len() && (#[trigger] rest[i]).0@ == key;
                assert(entries[0].0@ != entries[i + 1].0@);
            }
            assert(seq![entries[0]] + rest =~= entries);
        }
    } else {
        assert(settled(entries) =~= entries);
    }
}

/// A settled list names no key twice, reads as the same map, and is the list
/// itself where that named no key twice.
pub proof fn law_settling_keeps_the_map(entries: Seq<(String, String)>)
    ensures
        distinct(settled(entries)),
        as_map(settled(entries)) == as_map(entries),
        distinct(entries) ==> settled(entries) == entries,
{
    lemma_settled_distinct(entries);
    assert forall|k: Seq<char>|
        #![trigger found(entries, k)]
        found(settled(entries), k) == found(entries, k) by {
        lemma_settled_found(entries, k);
    }
    assert forall|k: Seq<char>|
        #![trigger found(settled(entries), k)]
        found(settled(entries), k) == found(entries, k) by {
        lemma_settled_found(entries, k);
    }
    assert(as_map(settled(entries)) =~= as_map(entries));
}

/// The last entry of a key is the one that is found.
pub proof fn law_the_last_entry_is_found(
    entries: Seq<(String, String)>,
    e: (String, String),
    key: Seq<char>,
)
    ensures
        found(entries.push(e), e.0@) == Some(e.1@),
        key != e.0@ ==> found(entries.push(e), key) == found(entries, key),
        found(Seq::empty(), key) is None,
{
    assert(entries.push(e).drop_last() =~= entries);
}

} // verus!
