//! What the operations guarantee when they are combined.
//!
//! Each statement here is about the outcome predicates of the operations,
//! so it holds of every execution that the operations' contracts admit.

use vstd::prelude::*;
use vstd::utf8::encode_utf8;
use crate::config::LimitsConfig;
use crate::error::{fails_with, ApiError, ErrorKind};
use crate::handlers::{
    bin_cleared, bin_created, bin_deleted, captured, effective_cap, headers_size, newest,
    processed, request_deleted, request_logged,
};
use crate::models::{BinResponse, LoggedRequest, LoggedRequestView};
use crate::payload::HeaderView;
use crate::seq_lemmas::{
    filter_positions, lemma_filter_positions,
    lemma_filter_positions_exist, lemma_filter_removes_one,
};
use crate::store::{
    is_due, is_expired, other_than, survives, swept_away, BinView, StoreView,
};
use crate::tasks::cleanup::{lemma_live_among, live_among};
use crate::websocket::is_live;
use crate::utils::uuid::parsed_uuid;

verus! {

/// The store after `entries` were captured into the bin `bin_id`, one after
/// the other.
pub open spec fn captured_all(
    s: StoreView,
    bin_id: u128,
    entries: Seq<LoggedRequestView>,
    limits: LimitsConfig,
) -> StoreView
    decreases entries.len(),
{
    if entries.len() == 0 {
        s
    } else {
        captured(captured_all(s, bin_id, entries.drop_last(), limits), bin_id, entries.last(), limits)
    }
}

/// Cutting down to the cap, appending, and cutting down again keeps the same
/// captures as appending first and cutting down once.
pub proof fn lemma_newest_push(requests: Seq<LoggedRequestView>, entry: LoggedRequestView, cap: int)
    requires
        cap >= 0,
    ensures
        newest(newest(requests, cap).push(entry), cap) == newest(requests.push(entry), cap),
{
    assert(newest(newest(requests, cap).push(entry), cap) =~= newest(requests.push(entry), cap));
}

/// One capture: the bin's list is its old list with the entry appended, cut
/// down to the cap from the oldest end. Every other bin keeps its list.
pub proof fn lemma_capture_appends(
    s: StoreView,
    bin_id: u128,
    entry: LoggedRequestView,
    limits: LimitsConfig,
)
    requires
        s.wf(),
        s.has_bin(bin_id),
    ensures
        captured(s, bin_id, entry, limits).wf(),
        captured(s, bin_id, entry, limits).has_bin(bin_id),
        captured(s, bin_id, entry, limits).requests_of(bin_id) == newest(
            s.requests_of(bin_id).push(entry),
            effective_cap(limits),
        ),
        captured(s, bin_id, entry, limits).last_updated_of(bin_id) == entry.timestamp,
        forall|other: u128|
            other != bin_id ==> #[trigger] captured(s, bin_id, entry, limits).requests_of(other)
                == s.requests_of(other),
{
    s.lemma_with_requests(
        bin_id,
        newest(s.requests_of(bin_id).push(entry), effective_cap(limits)),
        entry.timestamp,
    );
}

/// Where the cap admits at least one capture, the entry just captured is the
/// newest of its bin: it is listed last.
pub proof fn lemma_capture_is_listed_last(
    s: StoreView,
    bin_id: u128,
    entry: LoggedRequestView,
    limits: LimitsConfig,
)
    requires
        s.wf(),
        s.has_bin(bin_id),
        effective_cap(limits) >= 1,
    ensures
        captured(s, bin_id, entry, limits).requests_of(bin_id).len() >= 1,
        captured(s, bin_id, entry, limits).requests_of(bin_id).last() == entry,
{
    lemma_capture_appends(s, bin_id, entry, limits);
}

/// Listing returns captures in the order in which they were captured,
/// whatever their timestamps: after a series of captures into a bin, the
/// bin's list is its old list followed by the new entries in capture order,
/// cut down to the cap from the oldest end.
pub proof fn lemma_list_follows_capture_order(
    s: StoreView,
    bin_id: u128,
    entries: Seq<LoggedRequestView>,
    limits: LimitsConfig,
)
    requires
        s.wf(),
        s.has_bin(bin_id),
        entries.len() > 0,
    ensures
        captured_all(s, bin_id, entries, limits).wf(),
        captured_all(s, bin_id, entries, limits).has_bin(bin_id),
        captured_all(s, bin_id, entries, limits).requests_of(bin_id) == newest(
            s.requests_of(bin_id) + entries,
            effective_cap(limits),
        ),
    decreases entries.len(),
{
    let cap = effective_cap(limits);
    let earlier = entries.drop_last();
    let before = captured_all(s, bin_id, earlier, limits);
    if earlier.len() == 0 {
        assert(before == s);
        lemma_capture_appends(s, bin_id, entries.last(), limits);
        assert(s.requests_of(bin_id).push(entries.last()) =~= s.requests_of(bin_id) + entries);
    } else {
        lemma_list_follows_capture_order(s, bin_id, earlier, limits);
        lemma_capture_appends(before, bin_id, entries.last(), limits);
        lemma_newest_push(s.requests_of(bin_id) + earlier, entries.last(), cap);
        assert((s.requests_of(bin_id) + earlier).push(entries.last()) =~= s.requests_of(bin_id)
            + entries);
    }
}

/// A bin that received more captures than its cap holds exactly `cap`
/// entries: the most recent `cap` of those captures, in capture order.
pub proof fn lemma_cap_keeps_most_recent(
    s: StoreView,
    bin_id: u128,
    entries: Seq<LoggedRequestView>,
    limits: LimitsConfig,
)
    requires
        s.wf(),
        s.has_bin(bin_id),
        entries.len() > effective_cap(limits),
    ensures
        captured_all(s, bin_id, entries, limits).requests_of(bin_id).len() == effective_cap(limits),
        captured_all(s, bin_id, entries, limits).requests_of(bin_id) == entries.skip(
            entries.len() - effective_cap(limits),
        ),
{
    lemma_list_follows_capture_order(s, bin_id, entries, limits);
    let cap = effective_cap(limits);
    let all = s.requests_of(bin_id) + entries;
    assert(newest(all, cap) =~= entries.skip(entries.len() - cap));
}

/// A capture into a bin that does not exist is refused with `NotFound` and
/// writes nothing.
pub proof fn lemma_capture_needs_bin(
    before: StoreView,
    limits: LimitsConfig,
    id: Seq<char>,
    request_id: u128,
    method: Seq<char>,
    headers: Seq<HeaderView>,
    body: Seq<u8>,
    now: i64,
    r: Result<LoggedRequest, ApiError>,
    after: StoreView,
)
    requires
        parsed_uuid(id) matches Some(bin_id) && !before.has_bin(bin_id),
        request_logged(before, limits, id, request_id, method, headers, body, now, r, after),
    ensures
        fails_with(r, ErrorKind::NotFound, "Bin not found"@),
        after == before,
{
}

/// A capture into a bin that was deleted is refused with `NotFound` and
/// writes nothing.
pub proof fn lemma_capture_after_delete(
    before: StoreView,
    limits: LimitsConfig,
    id: Seq<char>,
    deletion: Result<(), ApiError>,
    between: StoreView,
    request_id: u128,
    method: Seq<char>,
    headers: Seq<HeaderView>,
    body: Seq<u8>,
    now: i64,
    r: Result<LoggedRequest, ApiError>,
    after: StoreView,
)
    requires
        before.wf(),
        bin_deleted(before, id, deletion, between),
        deletion is Ok,
        request_logged(between, limits, id, request_id, method, headers, body, now, r, after),
    ensures
        fails_with(r, ErrorKind::NotFound, "Bin not found"@),
        after == between,
{
    let bin_id = parsed_uuid(id)->Some_0;
    before.lemma_without_bin_wf(bin_id);
}

/// Limits are inclusive: a request to an existing bin whose body and
/// serialised headers are no larger than their limits is accepted, under an
/// unused request identifier.
pub proof fn lemma_payload_at_limit_accepted(
    before: StoreView,
    limits: LimitsConfig,
    id: Seq<char>,
    request_id: u128,
    method: Seq<char>,
    headers: Seq<HeaderView>,
    body: Seq<u8>,
    now: i64,
    r: Result<LoggedRequest, ApiError>,
    after: StoreView,
)
    requires
        parsed_uuid(id) matches Some(bin_id) && before.has_bin(bin_id),
        !before.has_request(request_id),
        body.len() <= limits.max_body_size,
        headers_size(headers) <= limits.max_headers_size,
        request_logged(before, limits, id, request_id, method, headers, body, now, r, after),
    ensures
        r is Ok,
        r->Ok_0@ == processed(method, headers, body, request_id, now),
{
}

/// One byte over a limit is too much: a request to an existing bin whose
/// body or serialised headers exceed their limit is refused with
/// `PayloadTooLarge` and writes nothing.
pub proof fn lemma_payload_over_limit_refused(
    before: StoreView,
    limits: LimitsConfig,
    id: Seq<char>,
    request_id: u128,
    method: Seq<char>,
    headers: Seq<HeaderView>,
    body: Seq<u8>,
    now: i64,
    r: Result<LoggedRequest, ApiError>,
    after: StoreView,
)
    requires
        parsed_uuid(id) matches Some(bin_id) && before.has_bin(bin_id),
        body.len() > limits.max_body_size || headers_size(headers)
            > limits.max_headers_size,
        request_logged(before, limits, id, request_id, method, headers, body, now, r, after),
    ensures
        r is Err,
        r->Err_0.kind == ErrorKind::PayloadTooLarge,
        after == before,
{
}

/// A sweep never deletes a live bin, however long it has been inactive: the
/// bin is still there afterwards, with its captures and its activity time.
pub proof fn lemma_sweep_spares_live_bin(
    s: StoreView,
    now: i64,
    expiry_hours: i64,
    live: Set<u128>,
    bin_id: u128,
)
    requires
        s.wf(),
        s.has_bin(bin_id),
        live.contains(bin_id),
    ensures
        s.swept(now, expiry_hours, live).has_bin(bin_id),
        s.swept(now, expiry_hours, live).requests_of(bin_id) == s.requests_of(bin_id),
        s.swept(now, expiry_hours, live).last_updated_of(bin_id) == s.last_updated_of(bin_id),
{
    lemma_sweep_keeps(s, now, expiry_hours, live, bin_id);
}

/// A sweep never deletes a bin that has not expired, live or not.
pub proof fn lemma_sweep_spares_active_bin(
    s: StoreView,
    now: i64,
    expiry_hours: i64,
    live: Set<u128>,
    bin_id: u128,
)
    requires
        s.wf(),
        s.has_bin(bin_id),
        !is_expired(s.last_updated_of(bin_id), now, expiry_hours),
    ensures
        s.swept(now, expiry_hours, live).has_bin(bin_id),
        s.swept(now, expiry_hours, live).requests_of(bin_id) == s.requests_of(bin_id),
        s.swept(now, expiry_hours, live).last_updated_of(bin_id) == s.last_updated_of(bin_id),
{
    lemma_sweep_keeps(s, now, expiry_hours, live, bin_id);
}

/// A bin that survives a sweep is the bin it was.
proof fn lemma_sweep_keeps(s: StoreView, now: i64, expiry_hours: i64, live: Set<u128>, bin_id: u128)
    requires
        s.wf(),
        s.has_bin(bin_id),
        survives(now, expiry_hours, live)(s.bins[s.index_of(bin_id)]),
    ensures
        s.swept(now, expiry_hours, live).has_bin(bin_id),
        s.swept(now, expiry_hours, live).requests_of(bin_id) == s.requests_of(bin_id),
        s.swept(now, expiry_hours, live).last_updated_of(bin_id) == s.last_updated_of(bin_id),
{
    let keep = survives(now, expiry_hours, live);
    let after = s.swept(now, expiry_hours, live);
    let i = s.index_of(bin_id);
    s.bins.lemma_filter_contains(keep, i);
    let k = choose|k: int| 0 <= k < after.bins.len() && after.bins[k] == s.bins[i];
    assert(after.bins[k].id == bin_id);
    s.lemma_swept_wf(now, expiry_hours, live);
    after.lemma_index_unique(k);
}

/// Once no observer is attached and the inactivity window has elapsed, the
/// next sweep deletes the bin.
pub proof fn lemma_sweep_deletes_expired_bin(
    s: StoreView,
    now: i64,
    expiry_hours: i64,
    live: Set<u128>,
    bin_id: u128,
)
    requires
        s.wf(),
        s.has_bin(bin_id),
        !live.contains(bin_id),
        is_expired(s.last_updated_of(bin_id), now, expiry_hours),
    ensures
        !s.swept(now, expiry_hours, live).has_bin(bin_id),
{
    let keep = survives(now, expiry_hours, live);
    let after = s.swept(now, expiry_hours, live);
    let pos = lemma_filter_positions(s.bins, keep);
    if after.has_bin(bin_id) {
        let k = after.index_of(bin_id);
        assert(after.bins[k] == s.bins[pos[k]]);
        s.lemma_index_unique(pos[k]);
        s.bins.lemma_filter_pred(keep, k);
    }
}

/// Every bin that a sweep takes for expired is a bin of the store that has
/// expired, and no bin is taken twice.
pub proof fn lemma_expired_ids(s: StoreView, now: i64, expiry_hours: i64)
    requires
        s.wf(),
    ensures
        forall|i: int|
            0 <= i < s.expired_ids(now, expiry_hours).len() ==> s.has_bin(
                #[trigger] s.expired_ids(now, expiry_hours)[i],
            ) && is_expired(
                s.last_updated_of(s.expired_ids(now, expiry_hours)[i]),
                now,
                expiry_hours,
            ),
        forall|i: int, j: int|
            0 <= i < j < s.expired_ids(now, expiry_hours).len() ==> s.expired_ids(
                now,
                expiry_hours,
            )[i] != s.expired_ids(now, expiry_hours)[j],
{
    let due = is_due(now, expiry_hours);
    let ids = s.expired_ids(now, expiry_hours);
    let pos = lemma_filter_positions(s.bins, due);
    assert forall|i: int| 0 <= i < ids.len() implies s.has_bin(#[trigger] ids[i]) && is_expired(
        s.last_updated_of(ids[i]),
        now,
        expiry_hours,
    ) by {
        s.bins.lemma_filter_pred(due, i);
        assert(s.bins.filter(due)[i] == s.bins[pos[i]]);
        s.lemma_index_unique(pos[i]);
    }
    assert forall|i: int, j: int| 0 <= i < j < ids.len() implies ids[i] != ids[j] by {
        assert(s.bins.filter(due)[i] == s.bins[pos[i]]);
        assert(s.bins.filter(due)[j] == s.bins[pos[j]]);
        assert(pos[i] < pos[j]);
    }
}

/// A bin that a sweep keeps has not been deleted by it, and a bin that it
/// does not keep has.
proof fn lemma_swept_ids(s: StoreView, now: i64, expiry_hours: i64, live: Set<u128>, bin_id: u128)
    requires
        s.wf(),
        s.has_bin(bin_id),
    ensures
        s.swept_ids(now, expiry_hours, live).contains(bin_id) <==> !s.swept(
            now,
            expiry_hours,
            live,
        ).has_bin(bin_id),
        s.swept_ids(now, expiry_hours, live).contains(bin_id) <==> is_expired(
            s.last_updated_of(bin_id),
            now,
            expiry_hours,
        ) && !live.contains(bin_id),
{
    let gone = swept_away(now, expiry_hours, live);
    let ids = s.swept_ids(now, expiry_hours, live);
    let b = s.index_of(bin_id);
    let pos = lemma_filter_positions(s.bins, gone);
    if ids.contains(bin_id) {
        let k = choose|k: int| 0 <= k < ids.len() && ids[k] == bin_id;
        s.bins.lemma_filter_pred(gone, k);
        assert(s.bins.filter(gone)[k] == s.bins[pos[k]]);
        s.lemma_index_unique(pos[k]);
    }
    if gone(s.bins[b]) {
        s.bins.lemma_filter_contains(gone, b);
        let k = choose|k: int|
            0 <= k < s.bins.filter(gone).len() && s.bins.filter(gone)[k] == s.bins[b];
        assert(ids[k] == bin_id);
        lemma_sweep_deletes_expired_bin(s, now, expiry_hours, live, bin_id);
    } else {
        lemma_sweep_keeps(s, now, expiry_hours, live, bin_id);
    }
}

/// A bin with an attached observer is never swept, however long it has been
/// inactive: where the channel of an expired bin reports at least one
/// receiver, the sweep that acts on these reports keeps the bin, with its
/// captures and its activity time, and does not list it as deleted, so its
/// channel stays too. This holds of every sweep.
pub proof fn lemma_observed_bin_is_kept(
    s: StoreView,
    now: i64,
    expiry_hours: i64,
    receivers: Seq<Option<usize>>,
    i: int,
)
    requires
        s.wf(),
        0 <= i < s.expired_ids(now, expiry_hours).len(),
        i < receivers.len(),
        is_live(receivers[i]),
    ensures
        ({
            let candidates = s.expired_ids(now, expiry_hours);
            let live = live_among(candidates, receivers).to_set();
            let after = s.swept(now, expiry_hours, live);
            &&& s.has_bin(candidates[i])
            &&& after.has_bin(candidates[i])
            &&& after.requests_of(candidates[i]) == s.requests_of(candidates[i])
            &&& after.last_updated_of(candidates[i]) == s.last_updated_of(candidates[i])
            &&& !s.swept_ids(now, expiry_hours, live).contains(candidates[i])
        }),
{
    let candidates = s.expired_ids(now, expiry_hours);
    let live = live_among(candidates, receivers).to_set();
    lemma_expired_ids(s, now, expiry_hours);
    lemma_live_among(candidates, receivers, candidates[i]);
    assert(live.contains(candidates[i]));
    lemma_sweep_spares_live_bin(s, now, expiry_hours, live, candidates[i]);
    lemma_swept_ids(s, now, expiry_hours, live, candidates[i]);
}

/// Once its observers have detached and the inactivity window has elapsed,
/// the next sweep deletes the bin: where the channel of an expired bin
/// reports no receiver, or the bin has no channel, the sweep that acts on
/// these reports leaves no bin with its identifier and lists it as deleted,
/// so its channel goes too.
pub proof fn lemma_unobserved_bin_is_swept(
    s: StoreView,
    now: i64,
    expiry_hours: i64,
    receivers: Seq<Option<usize>>,
    i: int,
)
    requires
        s.wf(),
        0 <= i < s.expired_ids(now, expiry_hours).len(),
        !(i < receivers.len() && is_live(receivers[i])),
    ensures
        ({
            let candidates = s.expired_ids(now, expiry_hours);
            let live = live_among(candidates, receivers).to_set();
            &&& s.has_bin(candidates[i])
            &&& !s.swept(now, expiry_hours, live).has_bin(candidates[i])
            &&& s.swept_ids(now, expiry_hours, live).contains(candidates[i])
        }),
{
    let candidates = s.expired_ids(now, expiry_hours);
    let live = live_among(candidates, receivers).to_set();
    lemma_expired_ids(s, now, expiry_hours);
    lemma_live_among(candidates, receivers, candidates[i]);
    if live.contains(candidates[i]) {
        let j = choose|j: int|
            0 <= j < candidates.len() && j < receivers.len() && candidates[j] == candidates[i]
                && is_live(#[trigger] receivers[j]);
        if j < i {
            assert(candidates[j] != candidates[i]);
        } else if i < j {
            assert(candidates[i] != candidates[j]);
        }
    }
    lemma_sweep_deletes_expired_bin(s, now, expiry_hours, live, candidates[i]);
    lemma_swept_ids(s, now, expiry_hours, live, candidates[i]);
}

/// A bin that has not expired is never swept, whatever its channel reports.
pub proof fn lemma_active_bin_is_kept(
    s: StoreView,
    now: i64,
    expiry_hours: i64,
    receivers: Seq<Option<usize>>,
    bin_id: u128,
)
    requires
        s.wf(),
        s.has_bin(bin_id),
        !is_expired(s.last_updated_of(bin_id), now, expiry_hours),
    ensures
        ({
            let live = live_among(s.expired_ids(now, expiry_hours), receivers).to_set();
            let after = s.swept(now, expiry_hours, live);
            &&& after.has_bin(bin_id)
            &&& after.requests_of(bin_id) == s.requests_of(bin_id)
            &&& !s.swept_ids(now, expiry_hours, live).contains(bin_id)
        }),
{
    let live = live_among(s.expired_ids(now, expiry_hours), receivers).to_set();
    lemma_sweep_spares_active_bin(s, now, expiry_hours, live, bin_id);
    lemma_swept_ids(s, now, expiry_hours, live, bin_id);
}

/// Deleting a bin twice: the second call finds nothing, says `NotFound`, and
/// changes nothing.
pub proof fn lemma_delete_bin_twice(
    before: StoreView,
    id: Seq<char>,
    first: Result<(), ApiError>,
    between: StoreView,
    second: Result<(), ApiError>,
    after: StoreView,
)
    requires
        before.wf(),
        bin_deleted(before, id, first, between),
        first is Ok,
        bin_deleted(between, id, second, after),
    ensures
        fails_with(second, ErrorKind::NotFound, "Bin not found"@),
        after == between,
{
    let bin_id = parsed_uuid(id)->Some_0;
    before.lemma_without_bin_wf(bin_id);
}

/// Deleting a capture twice: the second call finds nothing, says `NotFound`,
/// and changes nothing.
pub proof fn lemma_delete_request_twice(
    before: StoreView,
    id: Seq<char>,
    earlier: i64,
    first: Result<(), ApiError>,
    between: StoreView,
    later: i64,
    second: Result<(), ApiError>,
    after: StoreView,
)
    requires
        request_deleted(before, id, earlier, first, between),
        first is Ok,
        request_deleted(between, id, later, second, after),
    ensures
        fails_with(second, ErrorKind::NotFound, "Request not found"@),
        after == between,
{
    let request_id = parsed_uuid(id)->Some_0;
    lemma_deleted_request_is_gone(before, request_id, earlier);
}

/// After a capture was deleted no bin holds its identifier.
pub proof fn lemma_deleted_request_is_gone(s: StoreView, request_id: u128, now: i64)
    ensures
        !s.without_request(request_id, now).has_request(request_id),
{
    let after = s.without_request(request_id, now);
    assert forall|i: int| 0 <= i < after.bins.len() implies !(#[trigger] after.bins[i]).holds(
        request_id,
    ) by {
        let bin = s.bins[i];
        assert(after.bins[i] == bin.without_request(request_id, now));
        if bin.holds(request_id) {
            let kept = bin.requests.filter(other_than(request_id));
            assert forall|k: int| 0 <= k < kept.len() implies kept[k].request_id != request_id by {
                bin.requests.lemma_filter_pred(other_than(request_id), k);
            }
        }
    }
}

/// Whether a stored capture respects the header limit.
pub open spec fn entry_within(entry: LoggedRequestView, limits: LimitsConfig) -> bool {
    encode_utf8(entry.headers).len() <= limits.max_headers_size
}

/// Whether a bin respects the bounds: it holds no more captures than the cap,
/// and each of them respects the header limit.
pub open spec fn bin_within(bin: BinView, limits: LimitsConfig) -> bool {
    &&& bin.requests.len() <= effective_cap(limits)
    &&& forall|k: int|
        0 <= k < bin.requests.len() ==> entry_within(#[trigger] bin.requests[k], limits)
}

/// Whether every bin of the store respects the bounds.
pub open spec fn within_limits(s: StoreView, limits: LimitsConfig) -> bool {
    forall|i: int| 0 <= i < s.bins.len() ==> bin_within(#[trigger] s.bins[i], limits)
}

/// Rewriting one bin with captures that respect the bounds keeps the store
/// within them.
proof fn lemma_with_requests_within(
    s: StoreView,
    limits: LimitsConfig,
    id: u128,
    requests: Seq<LoggedRequestView>,
    now: i64,
)
    requires
        within_limits(s, limits),
        bin_within(BinView { id, last_updated: now, requests }, limits),
    ensures
        within_limits(s.with_requests(id, requests, now), limits),
{
    let after = s.with_requests(id, requests, now);
    assert forall|i: int| 0 <= i < after.bins.len() implies bin_within(
        #[trigger] after.bins[i],
        limits,
    ) by {
        if s.has_bin(id) && i == s.index_of(id) {
        } else {
            assert(after.bins[i] == s.bins[i]);
        }
    }
}

/// The bounds hold of an empty store.
pub proof fn lemma_empty_store_within(limits: LimitsConfig)
    ensures
        within_limits(StoreView { bins: Seq::empty() }, limits),
{
}

/// Creating a bin keeps every bin within the bounds.
pub proof fn lemma_create_keeps_bounds(
    before: StoreView,
    limits: LimitsConfig,
    id: u128,
    now: i64,
    r: Result<BinResponse, ApiError>,
    after: StoreView,
)
    requires
        within_limits(before, limits),
        bin_created(before, id, now, r, after),
    ensures
        within_limits(after, limits),
{
    if !before.has_bin(id) {
        assert forall|i: int| 0 <= i < after.bins.len() implies bin_within(
            #[trigger] after.bins[i],
            limits,
        ) by {
            if i < before.bins.len() {
                assert(after.bins[i] == before.bins[i]);
            }
        }
    }
}

/// A capture keeps every bin within the bounds: the count cap is enforced
/// right after the insert, and an entry over the header limit is never
/// stored.
pub proof fn lemma_capture_keeps_bounds(
    before: StoreView,
    limits: LimitsConfig,
    id: Seq<char>,
    request_id: u128,
    method: Seq<char>,
    headers: Seq<HeaderView>,
    body: Seq<u8>,
    now: i64,
    r: Result<LoggedRequest, ApiError>,
    after: StoreView,
)
    requires
        before.wf(),
        within_limits(before, limits),
        request_logged(before, limits, id, request_id, method, headers, body, now, r, after),
    ensures
        within_limits(after, limits),
        r is Ok ==> after.requests_of(parsed_uuid(id)->Some_0).len() <= effective_cap(limits),
{
    if r is Ok {
        let bin_id = parsed_uuid(id)->Some_0;
        let entry = processed(method, headers, body, request_id, now);
        let appended = before.requests_of(bin_id).push(entry);
        let kept = newest(appended, effective_cap(limits));
        let i = before.index_of(bin_id);
        assert(bin_within(before.bins[i], limits));
        assert forall|k: int| 0 <= k < kept.len() implies entry_within(#[trigger] kept[k], limits) by {
            let offset = appended.len() - kept.len();
            assert(kept[k] == appended[k + offset]);
            if k + offset < before.requests_of(bin_id).len() {
                assert(appended[k + offset] == before.bins[i].requests[k + offset]);
            }
        }
        lemma_with_requests_within(before, limits, bin_id, kept, now);
        before.lemma_with_requests(bin_id, kept, now);
    }
}

/// Clearing a bin keeps every bin within the bounds.
pub proof fn lemma_clear_keeps_bounds(
    before: StoreView,
    limits: LimitsConfig,
    id: Seq<char>,
    now: i64,
    r: Result<usize, ApiError>,
    after: StoreView,
)
    requires
        within_limits(before, limits),
        bin_cleared(before, id, now, r, after),
    ensures
        within_limits(after, limits),
{
    if r is Ok {
        lemma_with_requests_within(before, limits, parsed_uuid(id)->Some_0, Seq::empty(), now);
    }
}

/// Deleting a capture keeps every bin within the bounds.
pub proof fn lemma_delete_request_keeps_bounds(
    before: StoreView,
    limits: LimitsConfig,
    id: Seq<char>,
    now: i64,
    r: Result<(), ApiError>,
    after: StoreView,
)
    requires
        within_limits(before, limits),
        request_deleted(before, id, now, r, after),
    ensures
        within_limits(after, limits),
{
    if r is Ok {
        let request_id = parsed_uuid(id)->Some_0;
        assert forall|i: int| 0 <= i < after.bins.len() implies bin_within(
            #[trigger] after.bins[i],
            limits,
        ) by {
            let bin = before.bins[i];
            assert(bin_within(bin, limits));
            assert(after.bins[i] == bin.without_request(request_id, now));
            if bin.holds(request_id) {
                let kept = bin.requests.filter(other_than(request_id));
                let pos = lemma_filter_positions(bin.requests, other_than(request_id));
                bin.requests.lemma_filter_len(other_than(request_id));
                assert forall|k: int| 0 <= k < kept.len() implies entry_within(
                    #[trigger] kept[k],
                    limits,
                ) by {
                    assert(kept[k] == bin.requests[pos[k]]);
                }
            }
        }
    }
}

/// Deleting a bin keeps every other bin within the bounds.
pub proof fn lemma_delete_bin_keeps_bounds(
    before: StoreView,
    limits: LimitsConfig,
    id: Seq<char>,
    r: Result<(), ApiError>,
    after: StoreView,
)
    requires
        within_limits(before, limits),
        bin_deleted(before, id, r, after),
    ensures
        within_limits(after, limits),
{
    if r is Ok {
        let i = before.index_of(parsed_uuid(id)->Some_0);
        assert forall|k: int| 0 <= k < after.bins.len() implies bin_within(
            #[trigger] after.bins[k],
            limits,
        ) by {
            let k0 = if k < i { k } else { k + 1 };
            assert(after.bins[k] == before.bins[k0]);
        }
    }
}

/// A sweep keeps every surviving bin within the bounds.
pub proof fn lemma_sweep_keeps_bounds(
    s: StoreView,
    limits: LimitsConfig,
    now: i64,
    expiry_hours: i64,
    live: Set<u128>,
)
    requires
        within_limits(s, limits),
    ensures
        within_limits(s.swept(now, expiry_hours, live), limits),
{
    let after = s.swept(now, expiry_hours, live);
    let pos = lemma_filter_positions(s.bins, survives(now, expiry_hours, live));
    assert forall|k: int| 0 <= k < after.bins.len() implies bin_within(
        #[trigger] after.bins[k],
        limits,
    ) by {
        assert(after.bins[k] == s.bins[pos[k]]);
    }
}

/// The identifier of the capture at position `k` of the bin at position `i`.
pub open spec fn request_at(s: StoreView, i: int, k: int) -> u128 {
    s.bins[i].requests[k].request_id
}

/// Whether `(i, k)` is the position of a capture in the store.
pub open spec fn is_position(s: StoreView, i: int, k: int) -> bool {
    0 <= i < s.bins.len() && 0 <= k < s.bins[i].requests.len()
}

/// Request identifiers are unique over the whole store: no two captures, in
/// one bin or in two, share one.
pub open spec fn unique_requests(s: StoreView) -> bool {
    forall|i: int, k: int, j: int, l: int|
        is_position(s, i, k) && is_position(s, j, l) && #[trigger] request_at(s, i, k)
            == #[trigger] request_at(s, j, l) ==> i == j && k == l
}

/// A store whose captures all come from distinct captures of a store with
/// unique request identifiers has unique request identifiers too. `bin_of`
/// and `slot_of` say where each capture of `after` comes from.
proof fn lemma_unique_by_origin(
    before: StoreView,
    after: StoreView,
    bin_of: spec_fn(int) -> int,
    slot_of: spec_fn(int, int) -> int,
)
    requires
        unique_requests(before),
        forall|i: int, k: int| #[trigger]
            is_position(after, i, k) ==> is_position(before, bin_of(i), slot_of(i, k))
                && request_at(after, i, k) == request_at(before, bin_of(i), slot_of(i, k)),
        forall|i: int, j: int|
            0 <= i < after.bins.len() && 0 <= j < after.bins.len() && #[trigger] bin_of(i)
                == #[trigger] bin_of(j) ==> i == j,
        forall|i: int, k: int, l: int|
            is_position(after, i, k) && is_position(after, i, l) && #[trigger] slot_of(i, k)
                == #[trigger] slot_of(i, l) ==> k == l,
    ensures
        unique_requests(after),
{
    assert forall|i: int, k: int, j: int, l: int|
        is_position(after, i, k) && is_position(after, j, l) && #[trigger] request_at(after, i, k)
            == #[trigger] request_at(after, j, l) implies i == j && k == l by {
        assert(request_at(before, bin_of(i), slot_of(i, k)) == request_at(
            before,
            bin_of(j),
            slot_of(j, l),
        ));
    }
}

/// Request identifiers are unique in an empty store.
pub proof fn lemma_empty_store_unique()
    ensures
        unique_requests(StoreView { bins: Seq::empty() }),
{
}

/// Creating a bin keeps request identifiers unique.
pub proof fn lemma_create_keeps_unique(
    before: StoreView,
    id: u128,
    now: i64,
    r: Result<BinResponse, ApiError>,
    after: StoreView,
)
    requires
        unique_requests(before),
        bin_created(before, id, now, r, after),
    ensures
        unique_requests(after),
{
    if !before.has_bin(id) {
        lemma_unique_by_origin(before, after, |i: int| i, |i: int, k: int| k);
    }
}

/// A capture keeps request identifiers unique: an identifier that is in use
/// is never stored a second time.
pub proof fn lemma_capture_keeps_unique(
    before: StoreView,
    limits: LimitsConfig,
    id: Seq<char>,
    request_id: u128,
    method: Seq<char>,
    headers: Seq<HeaderView>,
    body: Seq<u8>,
    now: i64,
    r: Result<LoggedRequest, ApiError>,
    after: StoreView,
)
    requires
        before.wf(),
        unique_requests(before),
        request_logged(before, limits, id, request_id, method, headers, body, now, r, after),
    ensures
        unique_requests(after),
{
    if r is Ok {
        let bin_id = parsed_uuid(id)->Some_0;
        let entry = processed(method, headers, body, request_id, now);
        let old_list = before.requests_of(bin_id);
        let appended = old_list.push(entry);
        let kept = newest(appended, effective_cap(limits));
        let offset = appended.len() - kept.len();
        let b = before.index_of(bin_id);
        assert(after.bins =~= before.bins.update(
            b,
            BinView { id: bin_id, last_updated: now, requests: kept },
        ));
        // Where a capture of `after` sits in the old list with the entry appended.
        let slot = |i: int, k: int| if i == b { k + offset } else { k };
        assert forall|i: int, k: int, j: int, l: int|
            is_position(after, i, k) && is_position(after, j, l) && #[trigger] request_at(
                after,
                i,
                k,
            ) == #[trigger] request_at(after, j, l) implies i == j && k == l by {
            let p = slot(i, k);
            let q = slot(j, l);
            let first_is_new = i == b && p == old_list.len();
            let second_is_new = j == b && q == old_list.len();
            if i == b {
                assert(after.bins[i].requests[k] == appended[p]);
            }
            if j == b {
                assert(after.bins[j].requests[l] == appended[q]);
            }
            if !first_is_new {
                assert(is_position(before, i, p));
                assert(request_at(after, i, k) == request_at(before, i, p));
            }
            if !second_is_new {
                assert(is_position(before, j, q));
                assert(request_at(after, j, l) == request_at(before, j, q));
            }
            if first_is_new && !second_is_new {
                assert(before.bins[j].holds(request_id));
                assert(before.has_request(request_id));
            }
            if second_is_new && !first_is_new {
                assert(before.bins[i].holds(request_id));
                assert(before.has_request(request_id));
            }
        }
    }
}

/// Clearing a bin keeps request identifiers unique.
pub proof fn lemma_clear_keeps_unique(
    before: StoreView,
    id: Seq<char>,
    now: i64,
    r: Result<usize, ApiError>,
    after: StoreView,
)
    requires
        unique_requests(before),
        bin_cleared(before, id, now, r, after),
    ensures
        unique_requests(after),
{
    if r is Ok {
        lemma_unique_by_origin(before, after, |i: int| i, |i: int, k: int| k);
    }
}

/// Deleting a capture keeps request identifiers unique.
pub proof fn lemma_delete_request_keeps_unique(
    before: StoreView,
    id: Seq<char>,
    now: i64,
    r: Result<(), ApiError>,
    after: StoreView,
)
    requires
        unique_requests(before),
        request_deleted(before, id, now, r, after),
    ensures
        unique_requests(after),
{
    if r is Ok {
        let request_id = parsed_uuid(id)->Some_0;
        let keep = other_than(request_id);
        let slot = |i: int, k: int|
            if before.bins[i].holds(request_id) {
                filter_positions(before.bins[i].requests, keep)[k]
            } else {
                k
            };
        assert forall|i: int, k: int| #[trigger] is_position(after, i, k) implies is_position(
            before,
            i,
            slot(i, k),
        ) && request_at(after, i, k) == request_at(before, i, slot(i, k)) by {
            assert(after.bins[i] == before.bins[i].without_request(request_id, now));
            if before.bins[i].holds(request_id) {
                lemma_filter_positions_exist(before.bins[i].requests, keep);
            }
        }
        assert forall|i: int, k: int, l: int|
            is_position(after, i, k) && is_position(after, i, l) && #[trigger] slot(i, k)
                == #[trigger] slot(i, l) implies k == l by {
            assert(after.bins[i] == before.bins[i].without_request(request_id, now));
            if before.bins[i].holds(request_id) {
                lemma_filter_positions_exist(before.bins[i].requests, keep);
            }
        }
        lemma_unique_by_origin(before, after, |i: int| i, slot);
    }
}

/// Deleting a bin keeps request identifiers unique.
pub proof fn lemma_delete_bin_keeps_unique(
    before: StoreView,
    id: Seq<char>,
    r: Result<(), ApiError>,
    after: StoreView,
)
    requires
        unique_requests(before),
        bin_deleted(before, id, r, after),
    ensures
        unique_requests(after),
{
    if r is Ok {
        let b = before.index_of(parsed_uuid(id)->Some_0);
        lemma_unique_by_origin(
            before,
            after,
            |i: int| if i < b { i } else { i + 1 },
            |i: int, k: int| k,
        );
    }
}

/// A sweep keeps request identifiers unique.
pub proof fn lemma_sweep_keeps_unique(s: StoreView, now: i64, expiry_hours: i64, live: Set<u128>)
    requires
        unique_requests(s),
    ensures
        unique_requests(s.swept(now, expiry_hours, live)),
{
    let keep = survives(now, expiry_hours, live);
    lemma_filter_positions_exist(s.bins, keep);
    let pos = filter_positions(s.bins, keep);
    lemma_unique_by_origin(
        s,
        s.swept(now, expiry_hours, live),
        |i: int| pos[i],
        |i: int, k: int| k,
    );
}

/// Where request identifiers are unique, deleting a capture removes exactly
/// that capture: the bin that holds it at position `(i, k)` loses the one
/// entry and is touched, and every other bin is left as it was.
pub proof fn lemma_delete_request_removes_one(s: StoreView, now: i64, i: int, k: int)
    requires
        unique_requests(s),
        is_position(s, i, k),
    ensures
        s.without_request(request_at(s, i, k), now).bins == s.bins.update(
            i,
            BinView {
                id: s.bins[i].id,
                last_updated: now,
                requests: s.bins[i].requests.remove(k),
            },
        ),
{
    let request_id = request_at(s, i, k);
    let keep = other_than(request_id);
    let after = s.without_request(request_id, now);
    assert forall|j: int| 0 <= j < s.bins.len() && j != i implies after.bins[j] == s.bins[j] by {
        if s.bins[j].holds(request_id) {
            let l = choose|l: int|
                0 <= l < s.bins[j].requests.len() && s.bins[j].requests[l].request_id == request_id;
            assert(request_at(s, j, l) == request_at(s, i, k));
        }
    }
    assert(s.bins[i].holds(request_id));
    assert forall|l: int| 0 <= l < s.bins[i].requests.len() && l != k implies keep(
        #[trigger] s.bins[i].requests[l],
    ) by {
        if s.bins[i].requests[l].request_id == request_id {
            assert(request_at(s, i, l) == request_at(s, i, k));
        }
    }
    lemma_filter_removes_one(s.bins[i].requests, keep, k);
    assert(after.bins =~= s.bins.update(
        i,
        BinView { id: s.bins[i].id, last_updated: now, requests: s.bins[i].requests.remove(k) },
    ));
}

} // verus!
