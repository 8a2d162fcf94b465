//! The catalog's governing properties, stated and proved once for all
//! inputs: what a built catalog contains, that rebuilding is
//! deterministic, that its order is strict on distinct file names, that
//! navigation round-trips, and that a removed entry's path is gone.

use crate::catalog::{
    catalog_of, catalog_order, child_image_kind, entry_le, image_entries_of, listing_has_image,
    lemma_catalog_order_total, next_index, prev_index, DirChildV, EntryV,
};
use crate::order::{
    bytes_lt, lemma_bytes_le_antisym, lemma_bytes_lt_trans, lemma_bytes_not_lt,
};
use vstd::prelude::*;
use vstd::relations::{
    antisymmetric, connected, irreflexive, strict_total_ordering, transitive,
};

verus! {

broadcast use {vstd::seq_lib::group_to_multiset_ensures, vstd::multiset::group_multiset_axioms};

proof fn lemma_image_entries_membership(s: Seq<DirChildV>, e: EntryV)
    ensures
        image_entries_of(s).contains(e) <==> listing_has_image(s, e),
    decreases s.len(),
{
    if s.len() == 0 {
    } else {
        let prefix = s.drop_last();
        lemma_image_entries_membership(prefix, e);
        let rest = image_entries_of(prefix);
        let entries = image_entries_of(s);
        assert(forall|k: int| 0 <= k < prefix.len() ==> #[trigger] prefix[k] == s[k]);
        match child_image_kind(s.last()) {
            Some(kind) => {
                let el = EntryV { path: s.last().path, name: s.last().name, kind: kind };
                assert(entries == rest.push(el));
                if entries.contains(e) {
                    let idx = choose|idx: int|
                        0 <= idx < entries.len() && entries[idx] == e;
                    if idx < rest.len() {
                        assert(rest[idx] == e);
                        assert(rest.contains(e));
                        let k = choose|k: int|
                            0 <= k < prefix.len() && child_image_kind(#[trigger] prefix[k])
                                == Some(e.kind) && prefix[k].path == e.path && prefix[k].name
                                == e.name;
                        assert(child_image_kind(s[k]) == Some(e.kind));
                    } else {
                        assert(e == el);
                        assert(child_image_kind(s[s.len() - 1]) == Some(e.kind));
                    }
                }
                if listing_has_image(s, e) {
                    let k = choose|k: int|
                        0 <= k < s.len() && child_image_kind(#[trigger] s[k]) == Some(e.kind)
                            && s[k].path == e.path && s[k].name == e.name;
                    if k < s.len() - 1 {
                        assert(child_image_kind(prefix[k]) == Some(e.kind));
                        assert(listing_has_image(prefix, e));
                        assert(rest.contains(e));
                        let idx = choose|idx: int|
                            0 <= idx < rest.len() && rest[idx] == e;
                        assert(entries[idx] == e);
                        assert(entries.contains(e));
                    } else {
                        assert(e =~= el);
                        assert(entries[entries.len() - 1] == e);
                        assert(entries.contains(e));
                    }
                }
            },
            None => {
                assert(entries == rest);
                if listing_has_image(s, e) {
                    let k = choose|k: int|
                        0 <= k < s.len() && child_image_kind(#[trigger] s[k]) == Some(e.kind)
                            && s[k].path == e.path && s[k].name == e.name;
                    assert(k < s.len() - 1);
                    assert(child_image_kind(prefix[k]) == Some(e.kind));
                    assert(listing_has_image(prefix, e));
                }
                if entries.contains(e) {
                    let k = choose|k: int|
                        0 <= k < prefix.len() && child_image_kind(#[trigger] prefix[k])
                            == Some(e.kind) && prefix[k].path == e.path && prefix[k].name
                            == e.name;
                    assert(child_image_kind(s[k]) == Some(e.kind));
                }
            },
        }
    }
}

/// A built catalog holds an entry exactly for each child of the listing
/// that is a supported image — the seed file among them — and so holds
/// nothing for any subdirectory, unreadable file or file of another
/// content type.
pub proof fn lemma_catalog_membership(s: Seq<DirChildV>, e: EntryV)
    ensures
        catalog_of(s).contains(e) <==> listing_has_image(s, e),
{
    lemma_catalog_order_total();
    image_entries_of(s).lemma_sort_by_ensures(catalog_order());
    lemma_image_entries_membership(s, e);
    assert(image_entries_of(s).to_multiset().contains(e) == catalog_of(s).to_multiset().contains(
        e,
    ));
}

/// Rebuilding from an unchanged directory listing yields the identical
/// catalog: what a catalog holds is a function of the listing alone.
pub proof fn lemma_catalog_deterministic(a: Seq<EntryV>, b: Seq<EntryV>, s: Seq<DirChildV>)
    requires
        a == catalog_of(s),
        b == catalog_of(s),
    ensures
        a == b,
{
}

/// Byte-wise comparison of file names is a strict total order.
pub proof fn lemma_byte_order_strict_total()
    ensures
        strict_total_ordering(|a: Seq<u8>, b: Seq<u8>| bytes_lt(a, b)),
{
    let r = |a: Seq<u8>, b: Seq<u8>| bytes_lt(a, b);
    assert(irreflexive(r));
    assert forall|a: Seq<u8>, b: Seq<u8>| #[trigger] r(a, b) && #[trigger] r(b, a) implies a
        == b by {
        lemma_bytes_le_antisym(a, b);
    }
    assert(antisymmetric(r));
    assert forall|a: Seq<u8>, b: Seq<u8>, c: Seq<u8>|
        #[trigger] r(a, b) && #[trigger] r(b, c) implies r(a, c) by {
        lemma_bytes_lt_trans(a, b, c);
    }
    assert(transitive(r));
    assert forall|a: Seq<u8>, b: Seq<u8>| a != b implies #[trigger] r(a, b) || #[trigger] r(
        b,
        a,
    ) by {
        if !bytes_lt(a, b) && !bytes_lt(b, a) {
            lemma_bytes_not_lt(a, b);
        }
    }
    assert(connected(r));
}

/// Pairwise distinct file names in a directory listing.
pub open spec fn distinct_names(s: Seq<DirChildV>) -> bool {
    forall|k1: int, k2: int|
        0 <= k1 < k2 < s.len() ==> (#[trigger] s[k1]).name != (#[trigger] s[k2]).name
}

proof fn lemma_image_entries_distinct(s: Seq<DirChildV>)
    requires
        distinct_names(s),
    ensures
        forall|x: int, y: int|
            0 <= x < y < image_entries_of(s).len() ==> (#[trigger] image_entries_of(s)[x]).name
                != (#[trigger] image_entries_of(s)[y]).name,
        forall|x: int|
            0 <= x < image_entries_of(s).len() ==> exists|k: int|
                0 <= k < s.len() && (#[trigger] image_entries_of(s)[x]).name == (#[trigger] s[k]).name,
    decreases s.len(),
{
    if s.len() == 0 {
    } else {
        let prefix = s.drop_last();
        assert(forall|k: int| 0 <= k < prefix.len() ==> #[trigger] prefix[k] == s[k]);
        assert(distinct_names(prefix));
        lemma_image_entries_distinct(prefix);
        let rest = image_entries_of(prefix);
        let entries = image_entries_of(s);
        assert forall|x: int|
            0 <= x < entries.len() implies exists|k: int|
                0 <= k < s.len() && (#[trigger] entries[x]).name == (#[trigger] s[k]).name by {
            if x < rest.len() {
                assert(entries[x] == rest[x]);
                let k = choose|k: int|
                    0 <= k < prefix.len() && rest[x].name == (#[trigger] prefix[k]).name;
                assert(0 <= k < s.len() && entries[x].name == s[k].name);
            } else {
                assert(entries[x].name == s[s.len() - 1].name);
            }
        }
        assert forall|x: int, y: int|
            0 <= x < y < entries.len() implies (#[trigger] entries[x]).name
                != (#[trigger] entries[y]).name by {
            if y < rest.len() {
                assert(entries[x] == rest[x] && entries[y] == rest[y]);
            } else {
                assert(entries[y].name == s[s.len() - 1].name);
                assert(entries[x] == rest[x]);
                let k = choose|k: int|
                    0 <= k < prefix.len() && rest[x].name == (#[trigger] prefix[k]).name;
                assert(s[k].name != s[s.len() - 1].name);
            }
        }
    }
}

/// On a listing with pairwise distinct file names — as one directory
/// always has — the catalog's entries ascend strictly, byte-wise, by
/// file name.
pub proof fn lemma_catalog_strictly_ordered(s: Seq<DirChildV>, i: int, j: int)
    requires
        distinct_names(s),
        0 <= i < j < catalog_of(s).len(),
    ensures
        bytes_lt(catalog_of(s)[i].name, catalog_of(s)[j].name),
{
    let entries = image_entries_of(s);
    let t = catalog_of(s);
    lemma_catalog_order_total();
    entries.lemma_sort_by_ensures(catalog_order());
    lemma_image_entries_distinct(s);
    assert(entries.no_duplicates()) by {
        assert forall|x: int, y: int|
            0 <= x < entries.len() && 0 <= y < entries.len() && x != y implies entries[x]
            != entries[y] by {
            if x < y {
                assert(entries[x].name != entries[y].name);
            } else {
                assert(entries[y].name != entries[x].name);
            }
        }
    }
    entries.lemma_multiset_has_no_duplicates();
    assert(forall|x: EntryV| t.to_multiset().contains(x) ==> t.to_multiset().count(x) == 1);
    t.lemma_multiset_has_no_duplicates_conv();
    assert(catalog_order()(t[i], t[j]));
    if t[i].name == t[j].name {
        assert(t.contains(t[i]) && t.contains(t[j]));
        lemma_catalog_membership(s, t[i]);
        lemma_catalog_membership(s, t[j]);
        let ki = choose|k: int|
            0 <= k < s.len() && child_image_kind(#[trigger] s[k]) == Some(t[i].kind) && s[k].path
                == t[i].path && s[k].name == t[i].name;
        let kj = choose|k: int|
            0 <= k < s.len() && child_image_kind(#[trigger] s[k]) == Some(t[j].kind) && s[k].path
                == t[j].path && s[k].name == t[j].name;
        if ki != kj {
            if ki < kj {
                assert(s[ki].name != s[kj].name);
            } else {
                assert(s[kj].name != s[ki].name);
            }
        }
        assert(ki == kj);
        assert(t[i] =~= t[j]);
    }
    assert(t[i].name != t[j].name);
    assert(entry_le(t[i], t[j]));
}

/// `next` then `prev` from any interior index returns to that index.
pub proof fn lemma_next_prev_roundtrip(len: usize, i: usize)
    requires
        i + 1 < len,
    ensures
        next_index(len as int, i as int) == Some((i + 1) as usize),
        prev_index(i as int + 1) == Some(i),
{
}

/// `prev` at index 0 and `next` at the last index return the no-wrap
/// boundary signal, not an error and not another index.
pub proof fn lemma_navigation_boundaries(len: usize, i: usize)
    requires
        i < len,
    ensures
        i + 1 == len ==> next_index(len as int, i as int) is None,
        i == 0 ==> prev_index(i as int) is None,
{
}

/// After removing the entry at `i` from a catalog whose entries carry
/// pairwise distinct paths — as entries of one directory always do — the
/// catalog is one entry shorter and no entry with the removed path
/// remains.
pub proof fn lemma_removed_path_gone(s: Seq<EntryV>, i: int)
    requires
        0 <= i < s.len(),
        forall|x: int, y: int|
            0 <= x < y < s.len() ==> (#[trigger] s[x]).path != (#[trigger] s[y]).path,
    ensures
        s.remove(i).len() == s.len() - 1,
        forall|k: int|
            0 <= k < s.remove(i).len() ==> (#[trigger] s.remove(i)[k]).path != s[i].path,
{
    let t = s.remove(i);
    assert forall|k: int| 0 <= k < t.len() implies (#[trigger] t[k]).path != s[i].path by {
        if k < i {
            assert(t[k] == s[k]);
            assert(s[k].path != s[i].path);
        } else {
            assert(t[k] == s[k + 1]);
            assert(s[i].path != s[k + 1].path);
        }
    }
}

} // verus!
