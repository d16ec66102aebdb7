//! Relative link resolution: rewrites `./path` targets through the caller's
//! permalink table.

use vstd::prelude::*;
use crate::text::{copy_range, starts_with, str_chars};
use crate::anchors::eq_chars;

verus! {

/// First-match lookup of `key` among the `(path, permalink)` rows of the table.
pub open spec fn lookup(table: Seq<(Seq<char>, Seq<char>)>, key: Seq<char>) -> Option<Seq<char>>
    decreases table.len(),
{
    if table.len() == 0 {
        None
    } else if table[0].0 == key {
        Some(table[0].1)
    } else {
        lookup(table.subrange(1, table.len() as int), key)
    }
}

/// The resolution of a relative link `./path`: the permalink the table records
/// for `path`, or nothing when `path` is absent.
pub open spec fn resolve_spec(table: Seq<(Seq<char>, Seq<char>)>, link: Seq<char>) -> Option<
    Seq<char>,
>
    recommends
        starts_with(link, seq!['.', '/']),
{
    lookup(table, link.subrange(2, link.len() as int))
}

/// Resolves a relative link target against the permalink table.
pub fn resolve_internal_link(link: &Vec<char>, table: &Vec<(String, String)>) -> (r: Option<
    String,
>)
    requires
        starts_with(link@, seq!['.', '/']),
    ensures
        r is Some <==> resolve_spec(table.deep_view(), link@) is Some,
        r is Some ==> r->0@ == resolve_spec(table.deep_view(), link@)->0,
{
    let key = copy_range(link, 2, link.len());
    let ghost full = table.deep_view();
    let mut i: usize = 0;
    proof {
        assert(full.subrange(0, full.len() as int) =~= full);
    }
    while i < table.len()
        invariant
            i <= table@.len(),
            full == table.deep_view(),
            key@ == link@.subrange(2, link@.len() as int),
            lookup(full, key@) == lookup(full.subrange(i as int, full.len() as int), key@),
        decreases table@.len() - i,
    {
        let ghost rest = full.subrange(i as int, full.len() as int);
        let kc = str_chars(table[i].0.as_str());
        if eq_chars(&kc, &key) {
            assert(rest[0].0 == key@);
            let v = table[i].1.clone();
            assert(v@ == lookup(full, key@)->0);
            return Some(v);
        }
        proof {
            assert(rest[0].0 != key@);
            assert(rest.subrange(1, rest.len() as int) =~= full.subrange(
                i + 1,
                full.len() as int,
            ));
        }
        i += 1;
    }
    proof {
        assert(full.subrange(i as int, full.len() as int) =~= Seq::<(Seq<char>, Seq<char>)>::empty());
    }
    None
}

} // verus!
