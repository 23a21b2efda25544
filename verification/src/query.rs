//! Query strings of page addresses (`?key=value&key=value`).

use vstd::prelude::*;
use vstd::hash_map::StringHashMap;

use crate::text::{
    remove_all,
    remove_char,
    spec_split,
    spec_split_once,
    split_char,
    split_once,
};

verus! {

/// The `key=value` items of a query string: every `?` dropped, then split
/// at each `&`.
pub open spec fn query_items(loc: Seq<char>) -> Seq<Seq<char>> {
    spec_split(remove_all(loc, '?'), '&')
}

/// The keys and values of `items`, each item split at its first `=`;
/// items without `=` are skipped and a later key replaces an earlier one.
pub open spec fn pairs_map(items: Seq<Seq<char>>) -> Map<Seq<char>, Seq<char>>
    decreases items.len(),
{
    if items.len() == 0 {
        Map::empty()
    } else {
        let m = pairs_map(items.drop_last());
        match spec_split_once(items.last(), '=') {
            Some((k, v)) => m.insert(k, v),
            None => m,
        }
    }
}

/// The parameters of the query string `loc`.
pub open spec fn spec_query(loc: Seq<char>) -> Map<Seq<char>, Seq<char>> {
    pairs_map(query_items(loc))
}

pub fn query_parser(loc: &str) -> (r: StringHashMap<String>)
    ensures
        r@.dom() == spec_query(loc@).dom(),
        forall|k: Seq<char>| #[trigger] r@.contains_key(k) ==> r@[k]@ == spec_query(loc@)[k],
{
    let query_clean = remove_char(loc, '?');
    let items = split_char(query_clean.as_str(), '&');
    let mut ret: StringHashMap<String> = StringHashMap::new();
    let ghost all = query_items(loc@);
    let mut i: usize = 0;
    while i < items.len()
        invariant
            i <= items@.len(),
            items@.len() == all.len(),
            forall|j: int| 0 <= j < items@.len() ==> #[trigger] items@[j]@ == all[j],
            ret@.dom() == pairs_map(all.take(i as int)).dom(),
            forall|k: Seq<char>| #[trigger]
                ret@.contains_key(k) ==> ret@[k]@ == pairs_map(all.take(i as int))[k],
        decreases items@.len() - i,
    {
        assert(all.take(i + 1).drop_last() =~= all.take(i as int));
        assert(all.take(i + 1).last() == items@[i as int]@);
        if let Some((key, value)) = split_once(items[i].as_str(), '=') {
            ret.insert(key, value);
        }
        i = i + 1;
    }
    assert(all.take(items@.len() as int) =~= all);
    ret
}

} // verus!
