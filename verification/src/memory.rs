use crate::ranking::{
    count_at_least, insert_ranked, lemma_added_record_is_listed, lemma_rank_position,
    lemma_top_push, rank_position, top_spec, truncated,
};
use crate::store::{record_views, NewRecord, NewRecordView, Record, RecordView, StoreError};
use vstd::prelude::*;
use vstd::string::*;

verus! {

/// Whether the identifiers of `records` count up from one, in the order of
/// the records.
pub open spec fn ids_in_order(records: Seq<RecordView>) -> bool {
    forall|i: int| 0 <= i < records.len() ==> (#[trigger] records[i]).id == i + 1
}

/// The record that a store makes of `record` under the identifier `id` at
/// the time `created_at`.
pub open spec fn stored(record: NewRecordView, id: i64, created_at: i64) -> RecordView {
    RecordView {
        id,
        created_at,
        latitude: record.latitude,
        longitude: record.longitude,
        description: record.description,
        score: record.score,
        status: record.status,
    }
}

/// A store that keeps its records in memory, in the order in which they
/// came, and takes no more of them than its capacity.
pub struct MemoryStore {
    records: Vec<Record>,
    limit: u32,
}

impl View for MemoryStore {
    type V = Seq<RecordView>;

    closed spec fn view(&self) -> Seq<RecordView> {
        record_views(self.records@)
    }
}

fn copy_record(record: &Record) -> (r: Record)
    ensures
        r@ == record@,
{
    Record {
        id: record.id,
        created_at: record.created_at,
        latitude: record.latitude,
        longitude: record.longitude,
        description: record.description.clone(),
        score: record.score,
        status: record.status.clone(),
    }
}

impl MemoryStore {
    #[verifier::type_invariant]
    spec fn well_formed(&self) -> bool {
        &&& ids_in_order(self@)
        &&& self.records@.len() <= self.limit
    }

    /// How many records the store takes.
    pub closed spec fn capacity(&self) -> nat {
        self.limit as nat
    }

    /// An empty store that takes `limit` records.
    pub fn new(limit: u32) -> (r: MemoryStore)
        ensures
            r@ == Seq::<RecordView>::empty(),
            r.capacity() == limit,
    {
        let store = MemoryStore { records: Vec::new(), limit };
        assert(store@ =~= Seq::<RecordView>::empty());
        store
    }

    /// How many records the store holds.
    pub fn len(&self) -> (r: usize)
        ensures
            r == self@.len(),
            r <= self.capacity(),
            ids_in_order(self@),
    {
        proof {
            use_type_invariant(self);
        }
        self.records.len()
    }

    /// Takes `record` at the time `now` and returns the identifier that it
    /// gave: one more than the number of records that it held. A store that is
    /// full refuses, and is left as it was.
    pub fn insert(&mut self, record: NewRecord, now: i64) -> (r: Result<i64, StoreError>)
        ensures
            final(self).capacity() == old(self).capacity(),
            ids_in_order(old(self)@),
            ids_in_order(final(self)@),
            match r {
                Ok(id) => {
                    &&& old(self)@.len() < old(self).capacity()
                    &&& id == old(self)@.len() + 1
                    &&& final(self)@ == old(self)@.push(stored(record@, id, now))
                },
                Err(error) => {
                    &&& old(self)@.len() >= old(self).capacity()
                    &&& final(self)@ == old(self)@
                    &&& error@ == "store is full"@
                },
            },
    {
        proof {
            use_type_invariant(&*self);
        }
        let held: usize = self.records.len();
        if held >= self.limit as usize {
            return Err(StoreError { detail: String::from_str("store is full") });
        }
        let id: i64 = held as i64 + 1;
        let ghost before = self@;
        let mut records: Vec<Record> = Vec::new();
        assert(record_views(records@) =~= Seq::<RecordView>::empty());
        core::mem::swap(&mut self.records, &mut records);
        records.push(
            Record {
                id,
                created_at: now,
                latitude: record.latitude,
                longitude: record.longitude,
                description: record.description,
                score: record.score,
                status: record.status,
            },
        );
        assert(record_views(records@) =~= before.push(stored(record@, id, now)));
        core::mem::swap(&mut self.records, &mut records);
        assert(self@ =~= before.push(stored(record@, id, now)));
        Ok(id)
    }

    /// The `n` records with the highest scores, the highest first. Of two
    /// records with the same score the one that came first stands first.
    pub fn top(&self, n: usize) -> (r: Vec<Record>)
        ensures
            record_views(r@) == top_spec(self@, n as nat),
    {
        let mut best: Vec<Record> = Vec::new();
        let mut i: usize = 0;
        assert(self@.take(0) =~= Seq::<RecordView>::empty());
        assert(record_views(best@) =~= Seq::<RecordView>::empty());
        while i < self.records.len()
            invariant
                i <= self.records.len(),
                record_views(best@) == top_spec(self@.take(i as int), n as nat),
            decreases self.records.len() - i,
        {
            let record = &self.records[i];
            let ghost before = record_views(best@);
            let mut k: usize = best.len();
            assert(before.take(k as int) =~= before);
            while k > 0 && best[k - 1].score < record.score
                invariant
                    k <= best.len(),
                    before == record_views(best@),
                    rank_position(before, record.score) == rank_position(
                        before.take(k as int),
                        record.score,
                    ),
                decreases k,
            {
                assert(before.take(k as int).last() == best@[k - 1]@);
                assert(before.take(k as int).drop_last() =~= before.take(k - 1));
                k = k - 1;
            }
            proof {
                if k > 0 {
                    assert(before.take(k as int).last() == best@[k - 1]@);
                }
                assert(rank_position(before, record.score) == k);
                assert(self@.take(i as int).push(record@) =~= self@.take(i + 1));
                lemma_top_push(self@.take(i as int), record@, n as nat);
                lemma_rank_position(before, record.score);
            }
            if k < n {
                best.insert(k, copy_record(record));
                assert(record_views(best@) =~= insert_ranked(before, record@));
                best.truncate(n);
                assert(record_views(best@) =~= truncated(insert_ranked(before, record@), n as nat));
            } else {
                assert(truncated(insert_ranked(before, record@), n as nat) =~= before);
            }
            i = i + 1;
        }
        assert(self@.take(i as int) =~= self@);
        best
    }
}

/// Identifiers that count up from one are all different.
pub proof fn lemma_ids_are_distinct(records: Seq<RecordView>)
    requires
        ids_in_order(records),
    ensures
        forall|i: int, j: int|
            0 <= i < j < records.len() ==> (#[trigger] records[i]).id != (#[trigger] records[j]).id,
{
}

/// Taking a record changes none of the records that the store held, and the
/// new record holds what was handed in and nothing of another record.
pub proof fn lemma_insert_keeps_records_apart(
    records: Seq<RecordView>,
    record: NewRecordView,
    now: i64,
)
    requires
        ids_in_order(records),
        records.len() < i64::MAX,
    ensures
        ({
            let after = records.push(stored(record, (records.len() + 1) as i64, now));
            &&& ids_in_order(after)
            &&& after.last().content() == record
            &&& forall|i: int| 0 <= i < records.len() ==> #[trigger] after[i] == records[i]
        }),
{
}

/// A record that has been taken is found again among the `n` highest, with
/// every field that was handed in, where fewer than `n` of the records held
/// before score as high or higher.
pub proof fn lemma_inserted_record_is_listed(
    records: Seq<RecordView>,
    record: NewRecordView,
    id: i64,
    now: i64,
    n: nat,
)
    requires
        count_at_least(records, record.score) < n,
    ensures
        ({
            let listed = top_spec(records.push(stored(record, id, now)), n);
            exists|k: int| 0 <= k < listed.len() && (#[trigger] listed[k]).content() == record
        }),
{
    let taken = stored(record, id, now);
    lemma_added_record_is_listed(records, taken, n);
    let listing = top_spec(records.push(taken), n);
    let k = choose|k: int| 0 <= k < listing.len() && listing[k] == taken;
    assert(listing[k].content() == record);
}

} // verus!
