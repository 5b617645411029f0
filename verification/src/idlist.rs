//! Lists of identifiers that are kept as sets: nothing is listed twice, and the order in
//! which identifiers were added is kept.

use vstd::prelude::*;
use crate::oid::ObjectId;

verus! {

/// The list with `id` in it: unchanged where `id` is already listed, else with `id` at its
/// end.
pub open spec fn with_id(ids: Seq<ObjectId>, id: ObjectId) -> Seq<ObjectId> {
    if ids.contains(id) {
        ids
    } else {
        ids.push(id)
    }
}

/// The test that every identifier but `id` passes.
pub open spec fn other_than(id: ObjectId) -> spec_fn(ObjectId) -> bool {
    |x: ObjectId| x != id
}

/// The list without `id`: every other identifier stays, in its order.
pub open spec fn without_id(ids: Seq<ObjectId>, id: ObjectId) -> Seq<ObjectId> {
    ids.filter(other_than(id))
}

/// Adding an identifier lists it, keeps what was listed, and lists nothing twice that was
/// not listed twice before. Adding it again changes nothing.
pub proof fn lemma_with_id(ids: Seq<ObjectId>, id: ObjectId)
    ensures
        forall|x: ObjectId| with_id(ids, id).contains(x) <==> (ids.contains(x) || x == id),
        ids.no_duplicates() ==> with_id(ids, id).no_duplicates(),
        with_id(with_id(ids, id), id) == with_id(ids, id),
{
    if ids.contains(id) {
    } else {
        let grown = ids.push(id);
        assert(grown[ids.len() as int] == id);
        assert forall|x: ObjectId| grown.contains(x) <==> (ids.contains(x) || x == id) by {
            if ids.contains(x) {
                let i = choose|i: int| 0 <= i < ids.len() && ids[i] == x;
                assert(grown[i] == x);
            }
        }
    }
}

/// Removing an identifier leaves exactly the others, lists nothing twice that was not
/// listed twice before, and changes nothing where the identifier was not listed.
pub proof fn lemma_without_id(ids: Seq<ObjectId>, id: ObjectId)
    ensures
        forall|x: ObjectId| without_id(ids, id).contains(x) <==> (ids.contains(x) && x != id),
        ids.no_duplicates() ==> without_id(ids, id).no_duplicates(),
        !ids.contains(id) ==> without_id(ids, id) == ids,
        without_id(without_id(ids, id), id) == without_id(ids, id),
    decreases ids.len(),
{
    let keep = other_than(id);
    if ids.len() == 0 {
        assert(ids.filter(keep) =~= ids);
    } else {
        let rest = ids.drop_last();
        let last = ids.last();
        lemma_without_id(rest, id);
        assert(ids =~= rest.push(last));
        Seq::lemma_filter_push(rest, last, keep);
        let kept = without_id(ids, id);
        assert forall|x: ObjectId| kept.contains(x) <==> (ids.contains(x) && x != id) by {
            if kept.contains(x) {
                let i = choose|i: int| 0 <= i < kept.len() && kept[i] == x;
                if last != id && i == kept.len() - 1 {
                    assert(ids[ids.len() - 1] == x);
                } else {
                    assert(without_id(rest, id)[i] == x);
                    assert(rest.contains(x));
                    let j = choose|j: int| 0 <= j < rest.len() && rest[j] == x;
                    assert(ids[j] == x);
                }
            }
            if ids.contains(x) && x != id {
                let j = choose|j: int| 0 <= j < ids.len() && ids[j] == x;
                if j == ids.len() - 1 {
                    assert(kept[kept.len() - 1] == x);
                } else {
                    assert(rest[j] == x);
                    assert(without_id(rest, id).contains(x));
                    let i = choose|i: int|
                        0 <= i < without_id(rest, id).len() && without_id(rest, id)[i] == x;
                    assert(kept[i] == x);
                }
            }
        }
        if ids.no_duplicates() {
            assert(rest.no_duplicates());
            if last != id {
                assert(!rest.contains(last)) by {
                    if rest.contains(last) {
                        let j = choose|j: int| 0 <= j < rest.len() && rest[j] == last;
                        assert(ids[j] == ids[ids.len() - 1]);
                    }
                }
                assert(!without_id(rest, id).contains(last));
            }
        }
        if !ids.contains(id) {
            assert(!rest.contains(id)) by {
                if rest.contains(id) {
                    let j = choose|j: int| 0 <= j < rest.len() && rest[j] == id;
                    assert(ids[j] == id);
                }
            }
            assert(last != id) by {
                assert(ids[ids.len() - 1] == last);
            }
        }
        lemma_without_absent(kept, id);
    }
}

/// Removing an identifier that is not listed changes nothing.
proof fn lemma_without_absent(ids: Seq<ObjectId>, id: ObjectId)
    requires
        !ids.contains(id),
    ensures
        without_id(ids, id) == ids,
    decreases ids.len(),
{
    let keep = other_than(id);
    if ids.len() == 0 {
        assert(ids.filter(keep) =~= ids);
    } else {
        let rest = ids.drop_last();
        let last = ids.last();
        assert(ids =~= rest.push(last));
        assert(!rest.contains(id)) by {
            if rest.contains(id) {
                let j = choose|j: int| 0 <= j < rest.len() && rest[j] == id;
                assert(ids[j] == id);
            }
        }
        assert(ids[ids.len() - 1] == last);
        lemma_without_absent(rest, id);
        Seq::lemma_filter_push(rest, last, keep);
    }
}

/// Whether `id` is listed.
pub fn contains_id(ids: &Vec<ObjectId>, id: ObjectId) -> (found: bool)
    ensures
        found == ids@.contains(id),
{
    let mut i: usize = 0;
    while i < ids.len()
        invariant
            i <= ids.len(),
            forall|k: int| 0 <= k < i ==> ids@[k] != id,
        decreases ids.len() - i,
    {
        if ids[i] == id {
            return true;
        }
        i = i + 1;
    }
    false
}

/// Lists `id`, at the end, unless it is already listed.
pub fn insert_id(ids: &mut Vec<ObjectId>, id: ObjectId)
    ensures
        final(ids)@ == with_id(old(ids)@, id),
{
    if !contains_id(ids, id) {
        ids.push(id);
    }
}

/// Takes `id` off the list, wherever it stands.
pub fn remove_id(ids: &mut Vec<ObjectId>, id: ObjectId)
    ensures
        final(ids)@ == without_id(old(ids)@, id),
{
    let ghost keep = other_than(id);
    let mut kept: Vec<ObjectId> = Vec::new();
    let mut i: usize = 0;
    assert(ids@.take(0).filter(keep) =~= Seq::<ObjectId>::empty());
    while i < ids.len()
        invariant
            i <= ids.len(),
            keep == other_than(id),
            kept@ == ids@.take(i as int).filter(keep),
        decreases ids.len() - i,
    {
        proof {
            assert(ids@.take(i + 1) =~= ids@.take(i as int).push(ids@[i as int]));
            Seq::lemma_filter_push(ids@.take(i as int), ids@[i as int], keep);
        }
        if ids[i] != id {
            kept.push(ids[i]);
        }
        i = i + 1;
    }
    assert(ids@.take(i as int) =~= ids@);
    *ids = kept;
}

/// Whether some identifier is listed twice.
pub fn has_duplicates(ids: &Vec<ObjectId>) -> (twice: bool)
    ensures
        twice == !ids@.no_duplicates(),
{
    let mut i: usize = 0;
    while i < ids.len()
        invariant
            i <= ids.len(),
            forall|a: int, b: int| 0 <= a < b < ids.len() && a < i ==> ids@[a] != ids@[b],
        decreases ids.len() - i,
    {
        let mut j: usize = i + 1;
        while j < ids.len()
            invariant
                i < ids.len(),
                i < j <= ids.len(),
                forall|b: int| i < b < j ==> ids@[i as int] != ids@[b],
            decreases ids.len() - j,
        {
            if ids[i] == ids[j] {
                return true;
            }
            j = j + 1;
        }
        i = i + 1;
    }
    false
}

} // verus!
