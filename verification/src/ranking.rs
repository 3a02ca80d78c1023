use crate::store::RecordView;
use vstd::prelude::*;
use vstd::seq_lib::*;

verus! {

/// Whether the scores of `records` never rise from one record to the next.
pub open spec fn is_descending(records: Seq<RecordView>) -> bool {
    forall|i: int, j: int|
        0 <= i < j < records.len() ==>
            (#[trigger] records[i]).score >= (#[trigger] records[j]).score
}

/// Whether no two of `records` have the same score.
pub open spec fn has_distinct_scores(records: Seq<RecordView>) -> bool {
    forall|i: int, j: int|
        0 <= i < j < records.len() ==>
            (#[trigger] records[i]).score != (#[trigger] records[j]).score
}

/// Where a record with `score` goes into the ranked list `ranked`: behind
/// every record whose score is as high or higher.
pub open spec fn rank_position(ranked: Seq<RecordView>, score: i32) -> int
    decreases ranked.len(),
{
    if ranked.len() > 0 && ranked.last().score < score {
        rank_position(ranked.drop_last(), score)
    } else {
        ranked.len() as int
    }
}

/// The ranked list `ranked` with `record` put in at its place.
pub open spec fn insert_ranked(ranked: Seq<RecordView>, record: RecordView) -> Seq<RecordView> {
    ranked.insert(rank_position(ranked, record.score), record)
}

/// `records` in the order of their scores, the highest first. Records with
/// the same score keep the order in which they stand in `records`.
pub open spec fn ranked(records: Seq<RecordView>) -> Seq<RecordView>
    decreases records.len(),
{
    if records.len() == 0 {
        Seq::empty()
    } else {
        insert_ranked(ranked(records.drop_last()), records.last())
    }
}

/// The first `n` of `records`, or all of them where they are fewer.
pub open spec fn truncated(records: Seq<RecordView>, n: nat) -> Seq<RecordView> {
    if n < records.len() {
        records.take(n as int)
    } else {
        records
    }
}

/// The `n` records of `records` with the highest scores, the highest first.
pub open spec fn top_spec(records: Seq<RecordView>, n: nat) -> Seq<RecordView> {
    truncated(ranked(records), n)
}

/// How many of `records` have a score of `score` or more.
pub open spec fn count_at_least(records: Seq<RecordView>, score: i32) -> nat
    decreases records.len(),
{
    if records.len() == 0 {
        0
    } else {
        count_at_least(records.drop_last(), score) + if records.last().score >= score {
            1nat
        } else {
            0nat
        }
    }
}

/// The place that `rank_position` gives splits the list: from it on every
/// score is lower, and the one just before it is not.
pub proof fn lemma_rank_position(ranked: Seq<RecordView>, score: i32)
    ensures
        0 <= rank_position(ranked, score) <= ranked.len(),
        forall|k: int|
            rank_position(ranked, score) <= k < ranked.len() ==> (#[trigger] ranked[k]).score
                < score,
        rank_position(ranked, score) > 0 ==> ranked[rank_position(ranked, score) - 1].score
            >= score,
    decreases ranked.len(),
{
    if ranked.len() > 0 && ranked.last().score < score {
        let rest = ranked.drop_last();
        lemma_rank_position(rest, score);
        assert forall|k: int| rank_position(ranked, score) <= k < ranked.len() implies
            (#[trigger] ranked[k]).score < score by {
            if k < rest.len() {
                assert(rest[k] == ranked[k]);
            }
        }
    }
}

/// A place that splits the list as `rank_position` does is that place.
pub proof fn lemma_rank_position_is(ranked: Seq<RecordView>, score: i32, p: int)
    requires
        0 <= p <= ranked.len(),
        forall|k: int| p <= k < ranked.len() ==> (#[trigger] ranked[k]).score < score,
        p > 0 ==> ranked[p - 1].score >= score,
    ensures
        rank_position(ranked, score) == p,
    decreases ranked.len() - p,
{
    if p < ranked.len() {
        let rest = ranked.drop_last();
        assert forall|k: int| p <= k < rest.len() implies (#[trigger] rest[k]).score < score by {
            assert(rest[k] == ranked[k]);
        }
        lemma_rank_position_is(rest, score, p);
    }
}

/// Putting a record in at its place keeps a descending list descending.
pub proof fn lemma_insert_ranked_descending(ranked: Seq<RecordView>, record: RecordView)
    requires
        is_descending(ranked),
    ensures
        is_descending(insert_ranked(ranked, record)),
        insert_ranked(ranked, record).len() == ranked.len() + 1,
{
    let p = rank_position(ranked, record.score);
    lemma_rank_position(ranked, record.score);
    ranked.insert_ensures(p, record);
    let out = insert_ranked(ranked, record);
    assert forall|i: int, j: int| 0 <= i < j < out.len() implies
        (#[trigger] out[i]).score >= (#[trigger] out[j]).score by {
        if j < p {
            assert(out[i] == ranked[i] && out[j] == ranked[j]);
        } else if j == p {
            assert(out[i] == ranked[i]);
            if i < p - 1 {
                assert(ranked[i].score >= ranked[p - 1].score);
            }
        } else if i < p {
            assert(out[i] == ranked[i] && out[j] == ranked[j - 1]);
            if i < j - 1 {
                assert(ranked[i].score >= ranked[j - 1].score);
            }
        } else if i == p {
            assert(out[j] == ranked[j - 1]);
        } else {
            assert(out[i] == ranked[i - 1] && out[j] == ranked[j - 1]);
        }
    }
}

/// The ranked list holds the same records as the list it was made from, each
/// as often, and its scores never rise.
pub proof fn lemma_ranked(records: Seq<RecordView>)
    ensures
        ranked(records).len() == records.len(),
        ranked(records).to_multiset() == records.to_multiset(),
        is_descending(ranked(records)),
        forall|record: RecordView| ranked(records).contains(record) <==> records.contains(record),
    decreases records.len(),
{
    broadcast use to_multiset_contains;

    if records.len() > 0 {
        let rest = records.drop_last();
        lemma_ranked(rest);
        lemma_insert_ranked_descending(ranked(rest), records.last());
        lemma_rank_position(ranked(rest), records.last().score);
        to_multiset_insert(
            ranked(rest),
            rank_position(ranked(rest), records.last().score),
            records.last(),
        );
        to_multiset_build(rest, records.last());
        assert(rest.push(records.last()) =~= records);
    } else {
        assert(ranked(records) =~= records);
    }
    assert forall|record: RecordView| ranked(records).contains(record) <==> records.contains(
        record,
    ) by {
        to_multiset_contains(ranked(records), record);
        to_multiset_contains(records, record);
    }
}

/// Ranking keeps scores apart that were apart.
pub proof fn lemma_ranked_distinct(records: Seq<RecordView>)
    requires
        has_distinct_scores(records),
    ensures
        has_distinct_scores(ranked(records)),
    decreases records.len(),
{
    if records.len() > 0 {
        let rest = records.drop_last();
        let last = records.last();
        assert forall|i: int, j: int| 0 <= i < j < rest.len() implies
            (#[trigger] rest[i]).score != (#[trigger] rest[j]).score by {
            assert(rest[i] == records[i] && rest[j] == records[j]);
        }
        lemma_ranked_distinct(rest);
        lemma_ranked(rest);
        let before = ranked(rest);
        let p = rank_position(before, last.score);
        lemma_rank_position(before, last.score);
        before.insert_ensures(p, last);
        let out = ranked(records);
        assert forall|k: int| 0 <= k < before.len() implies (#[trigger] before[k]).score
            != last.score by {
            assert(before.contains(before[k]));
            assert(rest.contains(before[k]));
            let i = choose|i: int| 0 <= i < rest.len() && rest[i] == before[k];
            assert(rest[i] == records[i]);
            assert(records[i].score != records[records.len() - 1].score);
        }
        assert forall|i: int, j: int| 0 <= i < j < out.len() implies
            (#[trigger] out[i]).score != (#[trigger] out[j]).score by {
            let a = if i < p {
                i
            } else {
                i - 1
            };
            let b = if j < p {
                j
            } else {
                j - 1
            };
            if i == p {
                assert(out[j] == before[b]);
            } else if j == p {
                assert(out[i] == before[a]);
            } else {
                assert(out[i] == before[a] && out[j] == before[b]);
                assert(before[a].score != before[b].score);
            }
        }
    }
}

/// The highest `n` of a list with one more record come from the highest `n`
/// of the list alone: the record is put in at its place among them, and what
/// then stands beyond the first `n` is dropped.
pub proof fn lemma_top_push(records: Seq<RecordView>, record: RecordView, n: nat)
    ensures
        top_spec(records.push(record), n) == truncated(
            insert_ranked(top_spec(records, n), record),
            n,
        ),
{
    let all = ranked(records);
    let best = truncated(all, n);
    let p = rank_position(all, record.score);
    assert(records.push(record).drop_last() =~= records);
    assert(ranked(records.push(record)) == all.insert(p, record));
    lemma_ranked(records);
    lemma_rank_position(all, record.score);
    all.insert_ensures(p, record);
    if n < all.len() {
        assert forall|k: int| 0 <= k < n implies #[trigger] best[k] == all[k] by {}
        if p < n {
            lemma_rank_position_is(best, record.score, p);
            best.insert_ensures(p, record);
            assert(all.insert(p, record).take(n as int) =~= best.insert(p, record).take(n as int));
        } else {
            if n > 0 {
                if n < p {
                    assert(all[n - 1].score >= all[p - 1].score);
                }
                assert(best[n - 1] == all[n - 1]);
            }
            lemma_rank_position_is(best, record.score, n as int);
            best.insert_ensures(n as int, record);
            assert(all.insert(p, record).take(n as int) =~= best);
            assert(best.insert(n as int, record).take(n as int) =~= best);
        }
    }
}

proof fn lemma_count_all(records: Seq<RecordView>, score: i32)
    requires
        forall|k: int| 0 <= k < records.len() ==> (#[trigger] records[k]).score >= score,
    ensures
        count_at_least(records, score) == records.len(),
    decreases records.len(),
{
    if records.len() > 0 {
        let rest = records.drop_last();
        assert forall|k: int| 0 <= k < rest.len() implies (#[trigger] rest[k]).score >= score by {
            assert(rest[k] == records[k]);
        }
        lemma_count_all(rest, score);
    }
}

proof fn lemma_count_insert(records: Seq<RecordView>, p: int, record: RecordView, score: i32)
    requires
        0 <= p <= records.len(),
    ensures
        count_at_least(records.insert(p, record), score) == count_at_least(records, score)
            + if record.score >= score {
            1nat
        } else {
            0nat
        },
    decreases records.len() - p,
{
    let out = records.insert(p, record);
    records.insert_ensures(p, record);
    if p == records.len() {
        assert(out.drop_last() =~= records);
    } else {
        let rest = records.drop_last();
        rest.insert_ensures(p, record);
        assert(out.drop_last() =~= rest.insert(p, record));
        assert(out.last() == records.last());
        lemma_count_insert(rest, p, record, score);
    }
}

proof fn lemma_count_ranked(records: Seq<RecordView>, score: i32)
    ensures
        count_at_least(ranked(records), score) == count_at_least(records, score),
    decreases records.len(),
{
    if records.len() > 0 {
        let rest = records.drop_last();
        lemma_count_ranked(rest, score);
        lemma_rank_position(ranked(rest), records.last().score);
        lemma_count_insert(
            ranked(rest),
            rank_position(ranked(rest), records.last().score),
            records.last(),
            score,
        );
    }
}

proof fn lemma_rank_position_counts(ranked: Seq<RecordView>, score: i32)
    requires
        is_descending(ranked),
    ensures
        rank_position(ranked, score) == count_at_least(ranked, score),
    decreases ranked.len(),
{
    if ranked.len() > 0 {
        let rest = ranked.drop_last();
        assert forall|i: int, j: int| 0 <= i < j < rest.len() implies
            (#[trigger] rest[i]).score >= (#[trigger] rest[j]).score by {
            assert(rest[i] == ranked[i] && rest[j] == ranked[j]);
        }
        if ranked.last().score < score {
            lemma_rank_position_counts(rest, score);
        } else {
            assert forall|k: int| 0 <= k < rest.len() implies (#[trigger] rest[k]).score
                >= score by {
                assert(rest[k] == ranked[k]);
                assert(ranked[k].score >= ranked[ranked.len() - 1].score);
            }
            lemma_count_all(rest, score);
        }
    }
}

/// The listing of the highest scores is what it is called: at most `n`
/// records, all of them among `records`, the scores never rising, and no record
/// left out that has a higher score than one listed. Where all scores differ,
/// the listed scores fall strictly.
pub proof fn lemma_top_is_sorted_and_highest(records: Seq<RecordView>, n: nat)
    ensures
        ({
            let listed = top_spec(records, n);
            &&& listed.len() == if n < records.len() {
                n
            } else {
                records.len()
            }
            &&& is_descending(listed)
            &&& forall|k: int| 0 <= k < listed.len() ==> records.contains(#[trigger] listed[k])
            &&& forall|i: int, k: int|
                0 <= i < records.len() && 0 <= k < listed.len() ==> listed.contains(
                    #[trigger] records[i],
                ) || (#[trigger] listed[k]).score >= records[i].score
            &&& has_distinct_scores(records) ==> forall|i: int, j: int|
                0 <= i < j < listed.len() ==> (#[trigger] listed[i]).score > (
                #[trigger] listed[j]).score
        }),
{
    let all = ranked(records);
    let out = top_spec(records, n);
    lemma_ranked(records);
    assert forall|k: int| 0 <= k < out.len() implies #[trigger] out[k] == all[k] by {}
    assert forall|i: int, j: int| 0 <= i < j < out.len() implies
        (#[trigger] out[i]).score >= (#[trigger] out[j]).score by {
        assert(out[i] == all[i] && out[j] == all[j]);
    }
    assert forall|k: int| 0 <= k < out.len() implies records.contains(#[trigger] out[k]) by {
        assert(all.contains(all[k]));
    }
    assert forall|i: int, k: int| 0 <= i < records.len() && 0 <= k < out.len() implies
        out.contains(#[trigger] records[i],
    ) || (#[trigger] out[k]).score >= records[i].score by {
        assert(records.contains(records[i]));
        let at = choose|at: int| 0 <= at < all.len() && all[at] == records[i];
        if at < out.len() {
            assert(out[at] == records[i]);
        } else {
            assert(out[k] == all[k]);
            assert(all[k].score >= all[at].score);
        }
    }
    if has_distinct_scores(records) {
        lemma_ranked_distinct(records);
        assert forall|i: int, j: int| 0 <= i < j < out.len() implies
            (#[trigger] out[i]).score > (#[trigger] out[j]).score by {
            assert(out[i] == all[i] && out[j] == all[j]);
            assert(all[i].score >= all[j].score);
            assert(all[i].score != all[j].score);
        }
    }
}

/// A record that is added to the list is among the highest `n` of the new
/// list where fewer than `n` records of the old list score as high or higher.
pub proof fn lemma_added_record_is_listed(records: Seq<RecordView>, record: RecordView, n: nat)
    requires
        count_at_least(records, record.score) < n,
    ensures
        top_spec(records.push(record), n).contains(record),
{
    let all = ranked(records);
    let p = rank_position(all, record.score);
    lemma_ranked(records);
    lemma_rank_position(all, record.score);
    lemma_rank_position_counts(all, record.score);
    lemma_count_ranked(records, record.score);
    assert(records.push(record).drop_last() =~= records);
    all.insert_ensures(p, record);
    assert(top_spec(records.push(record), n)[p] == record);
}

/// A record that is added to the list does not change the highest `n` where
/// `n` records of the old list, or more, score as high or higher.
pub proof fn lemma_outranked_record_is_not_listed(
    records: Seq<RecordView>,
    record: RecordView,
    n: nat,
)
    requires
        count_at_least(records, record.score) >= n,
    ensures
        top_spec(records.push(record), n) == top_spec(records, n),
{
    let all = ranked(records);
    let p = rank_position(all, record.score);
    lemma_ranked(records);
    lemma_rank_position(all, record.score);
    lemma_rank_position_counts(all, record.score);
    lemma_count_ranked(records, record.score);
    assert(records.push(record).drop_last() =~= records);
    all.insert_ensures(p, record);
    assert(all.insert(p, record).take(n as int) =~= all.take(n as int));
    if n == all.len() {
        assert(all.take(n as int) =~= all);
    }
}

} // verus!
