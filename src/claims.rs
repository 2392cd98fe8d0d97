use crate::ids::{bytes_eq, copy_bytes, lemma_bytes_deep_view};
use vstd::prelude::*;

verus! {

broadcast use lemma_bytes_deep_view;

/// The id list with `id` appended, unless it is already there.
pub open spec fn push_unique(ids: Seq<Seq<u8>>, id: Seq<u8>) -> Seq<Seq<u8>> {
    if ids.contains(id) {
        ids
    } else {
        ids.push(id)
    }
}

/// The id list with every occurrence of `id` taken out, order kept.
pub open spec fn without(ids: Seq<Seq<u8>>, id: Seq<u8>) -> Seq<Seq<u8>>
    decreases ids.len(),
{
    if ids.len() == 0 {
        ids
    } else {
        let rest = without(ids.drop_last(), id);
        if ids.last() == id {
            rest
        } else {
            rest.push(ids.last())
        }
    }
}

/// Whether `id` occurs in the list.
pub fn contains_id(ids: &Vec<Vec<u8>>, id: &Vec<u8>) -> (r: bool)
    ensures
        r == ids.deep_view().contains(id@),
{
    let mut i: usize = 0;
    while i < ids.len()
        invariant
            0 <= i <= ids@.len(),
            forall|j: int| 0 <= j < i ==> ids.deep_view()[j] != id@,
        decreases ids@.len() - i,
    {
        if bytes_eq(&ids[i], id) {
            assert(ids.deep_view()[i as int] == id@);
            return true;
        }
        i = i + 1;
    }
    false
}

/// Appends `id` unless the list already holds it.
pub fn push_unique_id(ids: &mut Vec<Vec<u8>>, id: Vec<u8>)
    ensures
        final(ids).deep_view() == push_unique(old(ids).deep_view(), id@),
{
    if !contains_id(ids, &id) {
        let ghost before = ids.deep_view();
        ids.push(id);
        assert(ids.deep_view() =~= before.push(id@));
    }
}

/// A copy of the list without `id`.
pub fn without_id(ids: &Vec<Vec<u8>>, id: &Vec<u8>) -> (r: Vec<Vec<u8>>)
    ensures
        r.deep_view() == without(ids.deep_view(), id@),
{
    let ghost all = ids.deep_view();
    let mut out: Vec<Vec<u8>> = Vec::new();
    let mut i: usize = 0;
    while i < ids.len()
        invariant
            0 <= i <= ids@.len(),
            all == ids.deep_view(),
            out.deep_view() == without(all.take(i as int), id@),
        decreases ids@.len() - i,
    {
        let ghost before = out.deep_view();
        assert(all.take(i + 1).drop_last() =~= all.take(i as int));
        if !bytes_eq(&ids[i], id) {
            out.push(copy_bytes(&ids[i]));
            assert(out.deep_view() =~= before.push(all[i as int]));
        }
        i = i + 1;
    }
    assert(all.take(ids@.len() as int) =~= all);
    out
}

/// Appending an id that is already present changes nothing, and the result
/// of an append holds the id exactly once when the list had no duplicates.
pub proof fn lemma_push_unique_once(ids: Seq<Seq<u8>>, id: Seq<u8>)
    requires
        ids.no_duplicates(),
    ensures
        push_unique(push_unique(ids, id), id) == push_unique(ids, id),
        push_unique(ids, id).no_duplicates(),
        push_unique(ids, id).contains(id),
        forall|i: int, j: int|
            0 <= i < push_unique(ids, id).len() && 0 <= j < push_unique(ids, id).len()
                && push_unique(ids, id)[i] == id && push_unique(ids, id)[j] == id ==> i == j,
{
    if !ids.contains(id) {
        let r = ids.push(id);
        assert(r[ids.len() as int] == id);
        assert forall|i: int, j: int| 0 <= i < r.len() && 0 <= j < r.len() && i != j implies r[i]
            != r[j] by {
            if i < ids.len() && j < ids.len() {
            } else if i < ids.len() {
                assert(ids.contains(r[i]));
            } else {
                assert(ids.contains(r[j]));
            }
        }
    }
}

/// Filtering keeps a list free of duplicates, and drops exactly the given id.
pub proof fn lemma_without(ids: Seq<Seq<u8>>, id: Seq<u8>)
    requires
        ids.no_duplicates(),
    ensures
        without(ids, id).no_duplicates(),
        !without(ids, id).contains(id),
        forall|x: Seq<u8>| x != id ==> (#[trigger] without(ids, id).contains(x) == ids.contains(x)),
    decreases ids.len(),
{
    if ids.len() > 0 {
        let init = ids.drop_last();
        assert(init.no_duplicates());
        lemma_without(init, id);
        assert(ids =~= init.push(ids.last()));
        assert forall|x: Seq<u8>| x != id implies (#[trigger] without(ids, id).contains(x)
            == ids.contains(x)) by {
            let wi = without(init, id);
            if ids.contains(x) && x != ids.last() {
                let k = choose|k: int| 0 <= k < ids.len() && ids[k] == x;
                assert(init[k] == x);
            }
            if init.contains(x) {
                let k = choose|k: int| 0 <= k < init.len() && init[k] == x;
                assert(ids[k] == x);
            }
            if ids.last() != id {
                let w = wi.push(ids.last());
                assert(w[wi.len() as int] == ids.last());
                if wi.contains(x) {
                    let k = choose|k: int| 0 <= k < wi.len() && wi[k] == x;
                    assert(w[k] == x);
                }
                if w.contains(x) && x != ids.last() {
                    let k = choose|k: int| 0 <= k < w.len() && w[k] == x;
                    assert(wi[k] == x);
                }
            }
            if x == ids.last() {
                assert(ids[ids.len() - 1] == x);
            }
        }
        if ids.last() != id {
            let w = without(ids, id);
            assert(!init.contains(ids.last()));
            assert(!without(init, id).contains(ids.last()));
            assert forall|i: int, j: int| 0 <= i < w.len() && 0 <= j < w.len() && i != j implies w[i]
                != w[j] by {
                let wi = without(init, id);
                if i < wi.len() && j < wi.len() {
                } else if i < wi.len() {
                    assert(wi.contains(w[i]));
                } else {
                    assert(wi.contains(w[j]));
                }
            }
        }
    }
}

} // verus!
