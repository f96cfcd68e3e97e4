use vstd::prelude::*;

verus! {

/// Whether the loss average stops after `batches_count` batches: only a
/// limit `Some(max_batches)` stops it, once that many batches are counted.
pub open spec fn limit_reached(batches_count: nat, num_batches: Option<u32>) -> bool {
    match num_batches {
        Some(max_batches) => batches_count >= max_batches,
        None => false,
    }
}

/// Decides, after a batch has been counted, whether the loss average over a
/// data loader stops there. Without a limit it runs over every batch.
pub fn batch_limit_reached(batches_count: u32, num_batches: Option<u32>) -> (res: bool)
    ensures
        res == limit_reached(batches_count as nat, num_batches),
        num_batches is None ==> !res,
        num_batches matches Some(m) ==> (res <==> batches_count >= m),
{
    match num_batches {
        Some(max_batches) => batches_count >= max_batches,
        None => false,
    }
}

/// With a limit of `m` batches the average stops exactly once `m` batches are
/// counted: never before, and at every count from `m` on; without a limit it
/// never stops early. So with `m >= 1` and enough batches it averages over
/// exactly `m` of them.
pub proof fn lemma_batch_limit(batches_count: nat, m: u32)
    ensures
        limit_reached(batches_count, Some(m)) <==> batches_count >= m,
        !limit_reached(batches_count, None),
        1 <= m ==> !limit_reached((m - 1) as nat, Some(m)) && limit_reached(m as nat, Some(m)),
{
}

} // verus!
