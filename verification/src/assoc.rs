//! Tables keyed by name, kept as lists of (name, entry) pairs in which no name occurs twice.
use crate::text::str_eq;
use vstd::prelude::*;

verus! {

/// The names of a table.
pub open spec fn names<T>(s: Seq<(String, T)>) -> Seq<Seq<char>> {
    s.map_values(|e: (String, T)| e.0@)
}

/// No name occurs twice.
pub open spec fn distinct_names<T>(s: Seq<(String, T)>) -> bool {
    forall|i: int, j: int| 0 <= i < j < s.len() ==> s[i].0@ != s[j].0@
}

/// The table as a map from names to entries.
pub open spec fn table_map<T>(s: Seq<(String, T)>) -> Map<Seq<char>, T>
    decreases s.len(),
{
    if s.len() == 0 {
        Map::empty()
    } else {
        table_map(s.drop_last()).insert(s.last().0@, s.last().1)
    }
}

/// The names that a table maps are those of its entries.
pub proof fn lemma_table_dom<T>(s: Seq<(String, T)>, key: Seq<char>)
    ensures
        table_map(s).contains_key(key) <==> exists|k: int| 0 <= k < s.len() && s[k].0@ == key,
    decreases s.len(),
{
    if s.len() > 0 {
        lemma_table_dom(s.drop_last(), key);
        if table_map(s).contains_key(key) && s.last().0@ != key {
            let k = choose|k: int| 0 <= k < s.drop_last().len() && s.drop_last()[k].0@ == key;
            assert(s[k].0@ == key);
        }
        if exists|k: int| 0 <= k < s.len() && s[k].0@ == key {
            let k = choose|k: int| 0 <= k < s.len() && s[k].0@ == key;
            if k < s.len() - 1 {
                assert(s.drop_last()[k].0@ == key);
            }
        }
    }
}

/// In a table without repeated names, the entry of a name is the one stored beside it.
pub proof fn lemma_table_entry<T>(s: Seq<(String, T)>, k: int)
    requires
        distinct_names(s),
        0 <= k < s.len(),
    ensures
        table_map(s).contains_key(s[k].0@),
        table_map(s)[s[k].0@] == s[k].1,
    decreases s.len(),
{
    if k < s.len() - 1 {
        assert(distinct_names(s.drop_last()));
        lemma_table_entry(s.drop_last(), k);
        assert(s.drop_last()[k] == s[k]);
    }
}

/// Adding an entry under a new name adds it to the map.
pub proof fn lemma_table_push<T>(s: Seq<(String, T)>, e: (String, T))
    ensures
        table_map(s.push(e)) == table_map(s).insert(e.0@, e.1),
{
    assert(s.push(e).drop_last() =~= s);
}

/// Adding an entry under a name not yet present keeps the names distinct.
pub proof fn lemma_distinct_push<T>(s: Seq<(String, T)>, e: (String, T))
    requires
        distinct_names(s),
        !table_map(s).contains_key(e.0@),
    ensures
        distinct_names(s.push(e)),
{
    assert forall|i: int, j: int| 0 <= i < j < s.push(e).len() implies s.push(e)[i].0@ != s.push(e)[j].0@ by {
        if j == s.len() {
            if s[i].0@ == e.0@ {
                lemma_table_dom(s, e.0@);
            }
        }
    }
}

/// The position of the entry named `key`, if there is one.
pub fn find_name<T>(s: &Vec<(String, T)>, key: &str) -> (r: Option<usize>)
    ensures
        match r {
            Some(k) => k < s.len() && s@[k as int].0@ == key@,
            None => forall|k: int| 0 <= k < s.len() ==> s@[k].0@ != key@,
        },
{
    let mut k: usize = 0;
    while k < s.len()
        invariant
            k <= s.len(),
            forall|j: int| 0 <= j < k ==> s@[j].0@ != key@,
        decreases s.len() - k,
    {
        if str_eq(s[k].0.as_str(), key) {
            return Some(k);
        }
        k = k + 1;
    }
    None
}

/// What a search for `key` tells of the map of a table without repeated names.
pub proof fn lemma_find_name<T>(s: Seq<(String, T)>, key: Seq<char>, r: Option<usize>)
    requires
        distinct_names(s),
        match r {
            Some(k) => k < s.len() && s[k as int].0@ == key,
            None => forall|k: int| 0 <= k < s.len() ==> s[k].0@ != key,
        },
    ensures
        match r {
            Some(k) => table_map(s).contains_key(key) && table_map(s)[key] == s[k as int].1,
            None => !table_map(s).contains_key(key),
        },
{
    lemma_table_dom(s, key);
    if let Some(k) = r {
        lemma_table_entry(s, k as int);
    }
}

} // verus!
