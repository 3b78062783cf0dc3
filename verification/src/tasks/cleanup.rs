//! The eviction scheduler's sweep.
//!
//! A sweep deletes the bins that have been inactive for longer than the
//! expiry window. Liveness overrides expiry: a bin with an attached observer
//! is kept whatever its age and reconsidered by the next sweep.

use vstd::prelude::*;
use crate::config::CleanupConfig;
use crate::state::AppState;
use crate::websocket::{has_active_connections, is_live, BroadcastHub};

verus! {

/// The candidates that were observed live, in the candidates' order.
/// `counts[i]` is what the channel of `candidates[i]` reported: the number of
/// its receivers, or `None` for a bin without a channel. A candidate without
/// an observation is not live.
pub open spec fn live_among(candidates: Seq<u128>, counts: Seq<Option<usize>>) -> Seq<u128>
    decreases candidates.len(),
{
    if candidates.len() == 0 {
        Seq::empty()
    } else {
        let last = candidates.len() - 1;
        let before = live_among(candidates.drop_last(), counts);
        if last < counts.len() && is_live(counts[last]) {
            before.push(candidates[last])
        } else {
            before
        }
    }
}

/// A bin is among the live candidates exactly when it is a candidate whose
/// channel reported at least one receiver.
pub proof fn lemma_live_among(candidates: Seq<u128>, counts: Seq<Option<usize>>, id: u128)
    ensures
        live_among(candidates, counts).contains(id) <==> exists|i: int|
            0 <= i < candidates.len() && i < counts.len() && candidates[i] == id && is_live(
                #[trigger] counts[i],
            ),
    decreases candidates.len(),
{
    if candidates.len() > 0 {
        let last = candidates.len() - 1;
        let front = candidates.drop_last();
        let before = live_among(front, counts);
        lemma_live_among(front, counts, id);
        let kept = last < counts.len() && is_live(counts[last]);
        if live_among(candidates, counts).contains(id) {
            let k = choose|k: int|
                0 <= k < live_among(candidates, counts).len() && live_among(candidates, counts)[k]
                    == id;
            if kept && k == before.len() {
                assert(candidates[last] == id && is_live(counts[last]));
            } else {
                assert(before[k] == id);
                let i = choose|i: int|
                    0 <= i < front.len() && i < counts.len() && front[i] == id && is_live(
                        #[trigger] counts[i],
                    );
                assert(candidates[i] == id && is_live(counts[i]));
            }
        }
        if exists|i: int|
            0 <= i < candidates.len() && i < counts.len() && candidates[i] == id && is_live(
                #[trigger] counts[i],
            ) {
            let i = choose|i: int|
                0 <= i < candidates.len() && i < counts.len() && candidates[i] == id && is_live(
                    #[trigger] counts[i],
                );
            if i == last {
                assert(live_among(candidates, counts)[before.len() as int] == id);
            } else {
                assert(front[i] == id && is_live(counts[i]));
                let k = choose|k: int| 0 <= k < before.len() && before[k] == id;
                assert(live_among(candidates, counts)[k] == id);
            }
        }
    }
}

/// Selects the candidates to keep alive from what their channels reported:
/// exactly those whose channel has at least one receiver.
pub fn select_live(candidates: &Vec<u128>, counts: &Vec<Option<usize>>) -> (kept: Vec<u128>)
    ensures
        kept@ == live_among(candidates@, counts@),
{
    let mut kept: Vec<u128> = Vec::new();
    let mut i: usize = 0;
    assert(candidates@.take(0) =~= Seq::<u128>::empty());
    while i < candidates.len()
        invariant
            i <= candidates.len(),
            kept@ == live_among(candidates@.take(i as int), counts@),
        decreases candidates.len() - i,
    {
        assert(candidates@.take(i + 1).drop_last() =~= candidates@.take(i as int));
        if i < counts.len() && has_active_connections(counts[i]) {
            kept.push(candidates[i]);
        }
        i += 1;
    }
    assert(candidates@.take(i as int) =~= candidates@);
    kept
}

/// Asks the hub how many receivers the channel of each candidate has, in the
/// candidates' order. The counts are whatever the channels report at that
/// moment; a candidate without a channel is reported as `None`.
pub fn observe(hub: &BroadcastHub, candidates: &Vec<u128>) -> (counts: Vec<Option<usize>>)
    ensures
        counts@.len() == candidates@.len(),
        forall|i: int|
            0 <= i < counts@.len() ==> (#[trigger] counts@[i] is Some) == hub.channels().contains(
                candidates@[i],
            ),
{
    let mut counts: Vec<Option<usize>> = Vec::new();
    let mut i: usize = 0;
    while i < candidates.len()
        invariant
            i <= candidates.len(),
            counts@.len() == i,
            forall|k: int|
                0 <= k < i ==> (#[trigger] counts@[k] is Some) == hub.channels().contains(
                    candidates@[k],
                ),
        decreases candidates.len() - i,
    {
        counts.push(hub.receiver_count(candidates[i]));
        i += 1;
    }
    counts
}

/// What one sweep did.
pub struct SweepReport {
    /// The bins that were deleted, in creation order.
    pub deleted: Vec<u128>,
    /// The expired bins that were kept because an observer was attached.
    pub kept_alive: Vec<u128>,
    /// What the channel of each expired bin reported, in creation order: the
    /// number of its receivers, or `None` for a bin without a channel.
    pub receivers: Vec<Option<usize>>,
}

/// Runs one sweep at time `now`.
///
/// The candidates are the bins that have been inactive for more than
/// `config.bin_expiry_hours`. Each candidate's channel is asked for its
/// receivers, and the report holds the answers. The candidates kept alive
/// are exactly those whose channel reported at least one receiver. Exactly
/// the other candidates are deleted, with their captures and their broadcast
/// channels. Bins that have not expired, and channels of bins that were not
/// deleted, are untouched.
pub fn run_cleanup(state: &mut AppState, config: &CleanupConfig, now: i64) -> (report: SweepReport)
    requires
        old(state).db.wf(),
    ensures
        final(state).db.wf(),
        report.receivers@.len() == old(state).db@.expired_ids(now, config.bin_expiry_hours).len(),
        forall|i: int|
            0 <= i < report.receivers@.len() ==> (#[trigger] report.receivers@[i] is Some)
                == old(state).bin_channels.channels().contains(
                old(state).db@.expired_ids(now, config.bin_expiry_hours)[i],
            ),
        report.kept_alive@ == live_among(
            old(state).db@.expired_ids(now, config.bin_expiry_hours),
            report.receivers@,
        ),
        final(state).db@ == old(state).db@.swept(
            now,
            config.bin_expiry_hours,
            report.kept_alive@.to_set(),
        ),
        report.deleted@ == old(state).db@.swept_ids(
            now,
            config.bin_expiry_hours,
            report.kept_alive@.to_set(),
        ),
        final(state).bin_channels.channels() == old(state).bin_channels.channels().difference(
            report.deleted@.to_set(),
        ),
        final(state).limits == old(state).limits,
{
    let expired_bins = state.db.select_expired(now, config.bin_expiry_hours);
    let receivers = observe(&state.bin_channels, &expired_bins);
    let kept_alive = select_live(&expired_bins, &receivers);
    let deleted = state.db.sweep(now, config.bin_expiry_hours, &kept_alive);
    let ghost remaining = state.db@;
    let mut j: usize = 0;
    assert(deleted@.take(0).to_set() =~= Set::<u128>::empty());
    assert(state.bin_channels.channels().difference(Set::<u128>::empty())
        =~= state.bin_channels.channels());
    while j < deleted.len()
        invariant
            j <= deleted.len(),
            state.db.wf(),
            state.db@ == remaining,
            state.limits == old(state).limits,
            state.bin_channels.channels() == old(state).bin_channels.channels().difference(
                deleted@.take(j as int).to_set(),
            ),
        decreases deleted.len() - j,
    {
        state.bin_channels.remove(deleted[j]);
        proof {
            assert(deleted@.take(j + 1) =~= deleted@.take(j as int).push(deleted@[j as int]));
            deleted@.take(j as int).lemma_push_to_set_commute(deleted@[j as int]);
            assert(state.bin_channels.channels() =~= old(state).bin_channels.channels().difference(
                deleted@.take(j + 1).to_set(),
            ));
        }
        j += 1;
    }
    assert(deleted@.take(j as int) =~= deleted@);
    SweepReport { deleted, kept_alive, receivers }
}

} // verus!
