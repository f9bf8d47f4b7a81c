//! Statistics of the knowledge base.
use vstd::prelude::*;

verus! {

/// The counts the statistics route answers with.
pub struct StatsResponse {
    pub document_count: usize,
    pub unique_tags: usize,
    pub active_documents: usize,
    pub deleted_documents: usize,
}

/// How many documents are not deleted, given whether each is deleted.
pub open spec fn active_count(deleted: Seq<bool>) -> nat {
    deleted.filter(|d: bool| !d).len()
}

/// Counts the documents that are not deleted.
pub fn count_active(deleted: &Vec<bool>) -> (res: usize)
    ensures
        res == active_count(deleted@),
        res <= deleted@.len(),
{
    let n = deleted.len();
    let mut count: usize = 0;
    let mut i: usize = 0;
    while i < n
        invariant
            n == deleted@.len(),
            i <= n,
            count == active_count(deleted@.take(i as int)),
            count <= i,
        decreases n - i,
    {
        proof {
            reveal(Seq::filter);
            assert(deleted@.take(i + 1).drop_last() =~= deleted@.take(i as int));
            assert(deleted@.take(i + 1).last() == deleted@[i as int]);
        }
        if !deleted[i] {
            count += 1;
        }
        i += 1;
    }
    assert(deleted@.take(n as int) =~= deleted@);
    count
}

/// The statistics, from whether each stored document is deleted and the
/// number of stored tags: all documents, the active ones, the deleted
/// ones, and the tags.
pub fn stats_response(deleted: &Vec<bool>, tag_count: usize) -> (res: StatsResponse)
    ensures
        res.document_count == deleted@.len(),
        res.active_documents == active_count(deleted@),
        res.deleted_documents == deleted@.len() - active_count(deleted@),
        res.unique_tags == tag_count,
{
    let active = count_active(deleted);
    StatsResponse {
        document_count: deleted.len(),
        unique_tags: tag_count,
        active_documents: active,
        deleted_documents: deleted.len() - active,
    }
}

/// The active count never exceeds the total count, and a store with no
/// documents has no active ones.
pub proof fn lemma_stats_add_up(deleted: Seq<bool>)
    ensures
        active_count(deleted) <= deleted.len(),
        deleted.len() == 0 ==> active_count(deleted) == 0,
{
    broadcast use vstd::seq_lib::group_filter_ensures;

    deleted.lemma_filter_len(|d: bool| !d);
    if deleted.len() == 0 {
        reveal(Seq::filter);
    }
}

/// Every document is counted once, as active or as deleted: the active
/// count and the number of deleted documents add up to all documents, and
/// one more document adds one to the active count exactly when it is not
/// deleted.
pub proof fn lemma_active_and_deleted_partition(deleted: Seq<bool>, more: bool)
    ensures
        active_count(deleted) + deleted.filter(|d: bool| d).len() == deleted.len(),
        active_count(deleted.push(more)) == active_count(deleted) + (if more {
            0int
        } else {
            1int
        }),
    decreases deleted.len(),
{
    reveal(Seq::filter);
    assert(deleted.push(more).drop_last() =~= deleted);
    if deleted.len() > 0 {
        lemma_active_and_deleted_partition(deleted.drop_last(), deleted.last());
    }
}

} // verus!
