//! Records kept in a list and read as a table from identifiers to values.

use vstd::prelude::*;
use crate::models::{Project, User};
use crate::oid::ObjectId;

verus! {

/// A record that is filed under an identifier of its own.
pub trait Record: View + Sized {
    spec fn key(&self) -> ObjectId;
}

impl Record for User {
    open spec fn key(&self) -> ObjectId {
        self.id
    }
}

impl Record for Project {
    open spec fn key(&self) -> ObjectId {
        self.id
    }
}

/// Whether some record of the list is filed under `id`.
pub open spec fn held<R: Record>(records: Seq<R>, id: ObjectId) -> bool {
    exists|i: int| 0 <= i < records.len() && #[trigger] records[i].key() == id
}

/// A place in the list at which a record is filed under `id`.
pub open spec fn slot<R: Record>(records: Seq<R>, id: ObjectId) -> int {
    choose|i: int| 0 <= i < records.len() && #[trigger] records[i].key() == id
}

/// No two records of the list are filed under one identifier.
pub open spec fn distinct<R: Record>(records: Seq<R>) -> bool {
    forall|i: int, j: int|
        0 <= i < j < records.len() ==> #[trigger] records[i].key() != #[trigger] records[j].key()
}

/// The identifiers under which the records of the list are filed, in the order of the
/// list.
pub open spec fn keys<R: Record>(records: Seq<R>) -> Seq<ObjectId> {
    Seq::new(records.len(), |i: int| records[i].key())
}

/// Whether `order` lists the identifiers in use in `records`, each once.
pub open spec fn lists_keys<V>(order: Seq<ObjectId>, records: Map<ObjectId, V>) -> bool {
    &&& order.no_duplicates()
    &&& forall|id: ObjectId| order.contains(id) <==> records.contains_key(id)
}

/// The table that the list stands for.
pub open spec fn table<R: Record>(records: Seq<R>) -> Map<ObjectId, R::V> {
    Map::new(|id: ObjectId| held(records, id), |id: ObjectId| records[slot(records, id)]@)
}

/// In a list of distinct records, the record at a place is the one that the table holds
/// under its identifier.
pub proof fn lemma_slot<R: Record>(records: Seq<R>, i: int)
    requires
        distinct(records),
        0 <= i < records.len(),
    ensures
        held(records, records[i].key()),
        slot(records, records[i].key()) == i,
        table(records).contains_key(records[i].key()),
        table(records)[records[i].key()] == records[i]@,
{
    let id = records[i].key();
    assert(held(records, id));
    let s = slot(records, id);
    assert(0 <= s < records.len() && records[s].key() == id);
    if s < i {
        assert(records[s].key() != records[i].key());
    } else if i < s {
        assert(records[i].key() != records[s].key());
    }
}

/// A table holds an identifier only where the list has a record under it.
pub proof fn lemma_held<R: Record>(records: Seq<R>, id: ObjectId)
    requires
        distinct(records),
        table(records).contains_key(id),
    ensures
        0 <= slot(records, id) < records.len(),
        records[slot(records, id)].key() == id,
        table(records)[id] == records[slot(records, id)]@,
{
}

/// Replacing a record by one under the same identifier replaces one entry of the table.
pub proof fn lemma_update<R: Record>(records: Seq<R>, i: int, record: R)
    requires
        distinct(records),
        0 <= i < records.len(),
        record.key() == records[i].key(),
    ensures
        distinct(records.update(i, record)),
        table(records.update(i, record)) == table(records).insert(record.key(), record@),
{
    let after = records.update(i, record);
    assert(distinct(after)) by {
        assert forall|a: int, b: int| 0 <= a < b < after.len() implies after[a].key()
            != after[b].key() by {
            assert(after[a].key() == records[a].key());
            assert(after[b].key() == records[b].key());
        }
    }
    assert forall|id: ObjectId| held(after, id) <==> held(records, id) by {
        if held(after, id) {
            let k = slot(after, id);
            assert(records[k].key() == id);
        }
        if held(records, id) {
            let k = slot(records, id);
            assert(after[k].key() == id);
        }
    }
    assert forall|id: ObjectId| held(after, id) implies #[trigger] table(after)[id] == table(
        records,
    ).insert(record.key(), record@)[id] by {
        let k = slot(after, id);
        lemma_slot(after, k);
        assert(records[k].key() == id);
        lemma_slot(records, k);
    }
    lemma_slot(records, i);
    assert(table(after) =~= table(records).insert(record.key(), record@));
}

/// Adding a record under an identifier that is not in use adds one entry to the table.
pub proof fn lemma_push<R: Record>(records: Seq<R>, record: R)
    requires
        distinct(records),
        !held(records, record.key()),
    ensures
        distinct(records.push(record)),
        table(records.push(record)) == table(records).insert(record.key(), record@),
{
    let after = records.push(record);
    assert(distinct(after)) by {
        assert forall|a: int, b: int| 0 <= a < b < after.len() implies after[a].key()
            != after[b].key() by {
            assert(after[a].key() == records[a].key());
            if b < records.len() {
                assert(after[b].key() == records[b].key());
            } else {
                assert(after[b].key() == record.key());
            }
        }
    }
    assert(after[records.len() as int].key() == record.key());
    assert forall|id: ObjectId| held(after, id) <==> (held(records, id) || id == record.key()) by {
        if held(after, id) {
            let k = slot(after, id);
            if k < records.len() {
                assert(records[k].key() == id);
            }
        }
        if held(records, id) {
            let k = slot(records, id);
            assert(after[k].key() == id);
        }
    }
    assert forall|id: ObjectId| held(after, id) implies #[trigger] table(after)[id] == table(
        records,
    ).insert(record.key(), record@)[id] by {
        let k = slot(after, id);
        lemma_slot(after, k);
        if k < records.len() {
            assert(records[k].key() == id);
            lemma_slot(records, k);
        }
    }
    assert(table(after) =~= table(records).insert(record.key(), record@));
}

/// The identifiers of a list of distinct records are the identifiers in use in its
/// table, each once.
pub proof fn lemma_keys<R: Record>(records: Seq<R>)
    requires
        distinct(records),
    ensures
        lists_keys(keys(records), table(records)),
{
    let order = keys(records);
    assert forall|i: int, j: int| 0 <= i < order.len() && 0 <= j < order.len() && i != j implies order[i]
        != order[j] by {
        if i < j {
            assert(records[i].key() != records[j].key());
        } else {
            assert(records[j].key() != records[i].key());
        }
    }
    assert forall|id: ObjectId| order.contains(id) <==> table(records).contains_key(id) by {
        if order.contains(id) {
            let i = choose|i: int| 0 <= i < order.len() && order[i] == id;
            assert(records[i].key() == id);
        }
        if held(records, id) {
            let i = slot(records, id);
            assert(order[i] == id);
        }
    }
}

/// Replacing a record by one under the same identifier keeps the order of the
/// identifiers.
pub proof fn lemma_keys_update<R: Record>(records: Seq<R>, i: int, record: R)
    requires
        0 <= i < records.len(),
        record.key() == records[i].key(),
    ensures
        keys(records.update(i, record)) == keys(records),
{
    assert(keys(records.update(i, record)) =~= keys(records));
}

/// Adding a record puts its identifier at the end.
pub proof fn lemma_keys_push<R: Record>(records: Seq<R>, record: R)
    ensures
        keys(records.push(record)) == keys(records).push(record.key()),
{
    assert(keys(records.push(record)) =~= keys(records).push(record.key()));
}

} // verus!
