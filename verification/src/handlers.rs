//! The operations of the capture store, as its callers see them.
//!
//! Identifiers arrive as text and are validated before anything else
//! happens. An operation that fails leaves the store as it was.

use vstd::prelude::*;
use vstd::utf8::encode_utf8;
use crate::config::LimitsConfig;
use crate::error::{
    bad_request_error, fails_with, internal_error, not_found_error, payload_too_large_error,
    ApiError, ErrorKind,
};
use crate::models::{views_of, BinResponse, LoggedRequest, LoggedRequestView, PingQuery, PingResponse};
use crate::payload::{decode_body, header_views, headers_json, lossy_text, serialize_headers, HeaderView};
use crate::state::AppState;
use crate::store::StoreView;
use crate::utils::uuid::{
    format_uuid, is_random_uuid, new_uuid, parsed_uuid, uuid_text, validate_uuid,
};

verus! {

/// Checks that `id` is a well-formed identifier and returns its value;
/// anything else is an `InvalidIdentifier`.
pub fn validate_bin_id(id: &str) -> (r: Result<u128, ApiError>)
    ensures
        match parsed_uuid(id@) {
            Some(value) => r is Ok && r->Ok_0 == value,
            None => fails_with(r, ErrorKind::InvalidIdentifier, "Invalid UUID format"@),
        },
{
    match validate_uuid(id) {
        Ok(value) => Ok(value),
        Err(message) => Err(bad_request_error(message)),
    }
}

/// Reads the answer of the store's existence query: a count of zero means the
/// bin is missing, which is `NotFound`.
pub fn require_bin(count: i64) -> (r: Result<(), ApiError>)
    ensures
        count != 0 ==> r is Ok,
        count == 0 ==> fails_with(r, ErrorKind::NotFound, "Bin not found"@),
{
    if count == 0 {
        return Err(not_found_error("Bin not found".to_owned()));
    }
    Ok(())
}

/// Reads the answer of a delete statement: where no row matched, the row was
/// already deleted or never existed, which is `NotFound` with the given
/// message.
pub fn require_found(found: bool, message: &str) -> (r: Result<(), ApiError>)
    ensures
        found ==> r is Ok,
        !found ==> fails_with(r, ErrorKind::NotFound, message@),
{
    if !found {
        return Err(not_found_error(message.to_owned()));
    }
    Ok(())
}

/// Checks that the bin `id` exists; a missing bin is `NotFound`.
pub fn check_bin_exists(state: &AppState, id: u128) -> (r: Result<(), ApiError>)
    ensures
        state.db@.has_bin(id) ==> r is Ok,
        !state.db@.has_bin(id) ==> fails_with(r, ErrorKind::NotFound, "Bin not found"@),
{
    require_bin(state.db.count_bins(id))
}

/// The size in bytes of the stored form of a request's headers.
pub open spec fn headers_size(headers: Seq<HeaderView>) -> nat {
    encode_utf8(headers_json(headers)).len()
}

/// Whether a request's body is over its limit.
pub open spec fn body_too_large(body: Seq<u8>, limits: LimitsConfig) -> bool {
    body.len() > limits.max_body_size
}

/// Whether a request's serialised headers are over their limit.
pub open spec fn headers_too_large(headers: Seq<HeaderView>, limits: LimitsConfig) -> bool {
    headers_size(headers) > limits.max_headers_size
}

/// The entry that a request within the limits is stored as.
pub open spec fn processed(
    method: Seq<char>,
    headers: Seq<HeaderView>,
    body: Seq<u8>,
    request_id: u128,
    now: i64,
) -> LoggedRequestView {
    LoggedRequestView {
        method,
        headers: headers_json(headers),
        body: Some(lossy_text(body)),
        timestamp: now,
        request_id,
    }
}

/// Turns a raw request into the entry to store, or refuses it for its size.
///
/// The body is measured in bytes as it arrived, the headers in bytes as they
/// are serialised. A payload exactly at its limit is accepted; one byte more
/// is `PayloadTooLarge`. The body is checked first.
pub fn process_request_data(
    method: &str,
    headers: &Vec<(String, String)>,
    body: &[u8],
    limits: &LimitsConfig,
    request_id: u128,
    now: i64,
) -> (r: Result<LoggedRequest, ApiError>)
    ensures
        body_too_large(body@, *limits) ==> fails_with(
            r,
            ErrorKind::PayloadTooLarge,
            "Request body exceeds size limit"@,
        ),
        !body_too_large(body@, *limits) && headers_too_large(header_views(headers@), *limits)
            ==> fails_with(r, ErrorKind::PayloadTooLarge, "Request headers exceed size limit"@),
        !body_too_large(body@, *limits) && !headers_too_large(header_views(headers@), *limits)
            ==> r is Ok && r->Ok_0@ == processed(
            method@,
            header_views(headers@),
            body@,
            request_id,
            now,
        ),
{
    let body_str = decode_body(body);

    if body.len() > limits.max_body_size {
        return Err(payload_too_large_error("Request body exceeds size limit".to_owned()));
    }
    let headers_json = serialize_headers(headers);

    if headers_json.as_str().as_bytes().len() > limits.max_headers_size {
        return Err(payload_too_large_error("Request headers exceed size limit".to_owned()));
    }
    Ok(
        LoggedRequest {
            method: method.to_owned(),
            headers: headers_json,
            body: Some(body_str),
            timestamp: now,
            request_id,
        },
    )
}

/// How many captures a bin may hold: the configured cap, and none where the
/// cap is negative.
pub open spec fn effective_cap(limits: LimitsConfig) -> int {
    if limits.max_requests_per_bin < 0 {
        0
    } else {
        limits.max_requests_per_bin as int
    }
}

/// The `cap` most recent of `requests`, in their order; all of them where
/// there are no more than `cap`.
pub open spec fn newest(requests: Seq<LoggedRequestView>, cap: int) -> Seq<LoggedRequestView> {
    if requests.len() > cap {
        requests.skip(requests.len() - cap)
    } else {
        requests
    }
}

/// The store after the bin `bin_id` was cut down to its cap, oldest captures
/// first.
pub open spec fn limited(s: StoreView, bin_id: u128, limits: LimitsConfig) -> StoreView {
    s.with_requests(
        bin_id,
        newest(s.requests_of(bin_id), effective_cap(limits)),
        s.last_updated_of(bin_id),
    )
}

/// The store after `entry` was captured into the bin `bin_id`: the entry is
/// the bin's newest capture, the bin holds the most recent captures up to its
/// cap, and its activity time is the entry's timestamp.
pub open spec fn captured(
    s: StoreView,
    bin_id: u128,
    entry: LoggedRequestView,
    limits: LimitsConfig,
) -> StoreView {
    s.with_requests(
        bin_id,
        newest(s.requests_of(bin_id).push(entry), effective_cap(limits)),
        entry.timestamp,
    )
}

/// How many of a bin's `count` captures are over the cap and have to go: the
/// surplus over the cap, and all of them where the cap is negative.
pub open spec fn surplus(count: nat, limits: LimitsConfig) -> nat {
    if count > effective_cap(limits) {
        (count - effective_cap(limits)) as nat
    } else {
        0
    }
}

/// Decides how many of a bin's oldest captures to delete, from the number it
/// holds.
pub fn excess_requests(count: usize, limits: &LimitsConfig) -> (excess: usize)
    ensures
        excess == surplus(count as nat, *limits),
{
    let cap: usize = if limits.max_requests_per_bin < 0 {
        0
    } else if limits.max_requests_per_bin as u64 > usize::MAX as u64 {
        usize::MAX
    } else {
        limits.max_requests_per_bin as usize
    };
    if count > cap {
        count - cap
    } else {
        0
    }
}

/// Cuts the bin `bin_id` down to its cap by deleting its oldest captures, and
/// says how many were deleted.
pub fn enforce_request_limit(state: &mut AppState, bin_id: u128) -> (removed: usize)
    requires
        old(state).db.wf(),
    ensures
        final(state).db.wf(),
        final(state).db@ == limited(old(state).db@, bin_id, old(state).limits),
        removed == surplus(old(state).db@.requests_of(bin_id).len(), old(state).limits),
        final(state).bin_channels == old(state).bin_channels,
        final(state).limits == old(state).limits,
{
    let count = state.db.count_requests(bin_id);
    let excess = excess_requests(count, &state.limits);
    if excess > 0 {
        state.db.delete_oldest(bin_id, excess)
    } else {
        proof {
            let s = old(state).db@;
            if s.has_bin(bin_id) {
                assert(s.with_requests(bin_id, s.requests_of(bin_id), s.last_updated_of(bin_id)).bins
                    =~= s.bins);
            }
        }
        0
    }
}

/// Hands a captured entry to the observers of the bin `bin_id` and returns
/// how many there were. Publishing is best effort: without a channel or
/// without observers nothing is delivered and nothing fails.
pub fn send_websocket_notification(state: &AppState, bin_id: u128, request_data: &LoggedRequest) -> (delivered: usize)
    ensures
        !state.bin_channels.channels().contains(bin_id) ==> delivered == 0,
{
    if state.bin_channels.has_channel(bin_id) {
        state.bin_channels.publish(bin_id, request_data.duplicate())
    } else {
        0
    }
}

/// Refreshes the activity time of the bin `id`.
pub fn update_last_updated(state: &mut AppState, id: u128, now: i64)
    requires
        old(state).db.wf(),
    ensures
        final(state).db.wf(),
        final(state).db@ == old(state).db@.touched(id, now),
        final(state).bin_channels == old(state).bin_channels,
        final(state).limits == old(state).limits,
{
    state.db.touch(id, now);
}

/// Persists a processed request as the newest capture of the bin `bin_id`.
///
/// Fails with `NotFound` when the bin does not exist and with `StorageError`
/// when the request's identifier is already in use; a failure changes
/// nothing.
pub fn store_request_in_db(state: &mut AppState, bin_id: u128, request_data: LoggedRequest) -> (r:
    Result<(), ErrorKind>)
    requires
        old(state).db.wf(),
    ensures
        final(state).db.wf(),
        final(state).bin_channels == old(state).bin_channels,
        final(state).limits == old(state).limits,
        !old(state).db@.has_bin(bin_id) ==> r == Err::<(), ErrorKind>(ErrorKind::NotFound)
            && final(state).db@ == old(state).db@,
        old(state).db@.has_bin(bin_id) && old(state).db@.has_request(request_data.request_id)
            ==> r == Err::<(), ErrorKind>(ErrorKind::StorageError) && final(state).db@ == old(
            state,
        ).db@,
        old(state).db@.has_bin(bin_id) && !old(state).db@.has_request(request_data.request_id)
            ==> r is Ok && final(state).db@ == old(state).db@.with_requests(
            bin_id,
            old(state).db@.requests_of(bin_id).push(request_data@),
            old(state).db@.last_updated_of(bin_id),
        ),
{
    state.db.insert_request(bin_id, request_data)
}

/// What creating the bin `id` at `now` makes of the store `before`: the bin
/// is appended, empty, and the answer is its identifier's canonical text,
/// which reads back as `id`; unless the identifier is taken.
pub open spec fn bin_created(
    before: StoreView,
    id: u128,
    now: i64,
    r: Result<BinResponse, ApiError>,
    after: StoreView,
) -> bool {
    if before.has_bin(id) {
        fails_with(r, ErrorKind::StorageError, "Failed to insert bin"@) && after == before
    } else {
        &&& r is Ok
        &&& r->Ok_0.bin_id@ == uuid_text(id)
        &&& parsed_uuid(r->Ok_0.bin_id@) == Some(id)
        &&& after == before.with_bin(id, now)
    }
}

/// Creates the bin `id`, last active at `now`, and answers with the
/// identifier's canonical text.
pub fn create_bin_with_id(state: &mut AppState, id: u128, now: i64) -> (r: Result<
    BinResponse,
    ApiError,
>)
    requires
        old(state).db.wf(),
    ensures
        final(state).db.wf(),
        bin_created(old(state).db@, id, now, r, final(state).db@),
        final(state).db@.has_bin(id),
        forall|x: u128| x != id ==> final(state).db@.has_bin(x) == old(state).db@.has_bin(x),
        final(state).bin_channels == old(state).bin_channels,
        final(state).limits == old(state).limits,
{
    proof {
        if !old(state).db@.has_bin(id) {
            old(state).db@.lemma_with_bin(id, now);
        }
    }
    match state.db.insert_bin(id, now) {
        Ok(_) => Ok(BinResponse { bin_id: format_uuid(id) }),
        Err(_) => Err(internal_error("Failed to insert bin".to_owned())),
    }
}

/// Creates a bin under a fresh identifier, last active at `now`.
///
/// The identifier is a version 4 identifier drawn at random. Whatever it is,
/// the outcome is that of [`create_bin_with_id`] for it: on success the
/// answer names the new bin, which was not there before; on failure nothing
/// has changed.
pub fn create_bin(state: &mut AppState, now: i64) -> (r: Result<BinResponse, ApiError>)
    requires
        old(state).db.wf(),
    ensures
        final(state).db.wf(),
        exists|id: u128|
            is_random_uuid(id) && bin_created(old(state).db@, id, now, r, final(state).db@),
        final(state).bin_channels == old(state).bin_channels,
        final(state).limits == old(state).limits,
{
    let id = new_uuid();
    create_bin_with_id(state, id, now)
}

/// What capturing a request makes of the store `before`.
///
/// The identifier must be well formed (`InvalidIdentifier`) and name a bin
/// that exists (`NotFound`); body and headers must be within their limits
/// (`PayloadTooLarge`); the request's identifier must be unused
/// (`StorageError`). A refused capture leaves the store as it was. An
/// accepted one returns the stored entry and leaves the store as
/// [`captured`] describes.
pub open spec fn request_logged(
    before: StoreView,
    limits: LimitsConfig,
    id: Seq<char>,
    request_id: u128,
    method: Seq<char>,
    headers: Seq<HeaderView>,
    body: Seq<u8>,
    now: i64,
    r: Result<LoggedRequest, ApiError>,
    after: StoreView,
) -> bool {
    match parsed_uuid(id) {
        None => fails_with(r, ErrorKind::InvalidIdentifier, "Invalid UUID format"@) && after
            == before,
        Some(bin_id) => if !before.has_bin(bin_id) {
            fails_with(r, ErrorKind::NotFound, "Bin not found"@) && after == before
        } else if body_too_large(body, limits) {
            fails_with(r, ErrorKind::PayloadTooLarge, "Request body exceeds size limit"@) && after
                == before
        } else if headers_too_large(headers, limits) {
            fails_with(r, ErrorKind::PayloadTooLarge, "Request headers exceed size limit"@)
                && after == before
        } else if before.has_request(request_id) {
            fails_with(r, ErrorKind::StorageError, "Error logging request"@) && after == before
        } else {
            &&& r is Ok
            &&& r->Ok_0@ == processed(method, headers, body, request_id, now)
            &&& after == captured(
                before,
                bin_id,
                processed(method, headers, body, request_id, now),
                limits,
            )
        },
    }
}

/// Captures a request into the bin named by `id`, under the identifier
/// `request_id`.
///
/// On success the entry is stored as the bin's newest capture, the bin is cut
/// down to its cap (oldest captures first), its activity time becomes `now`,
/// and the entry is published to the bin's observers.
pub fn log_request_with_id(
    state: &mut AppState,
    id: &str,
    request_id: u128,
    method: &str,
    headers: &Vec<(String, String)>,
    body: &[u8],
    now: i64,
) -> (r: Result<LoggedRequest, ApiError>)
    requires
        old(state).db.wf(),
    ensures
        final(state).db.wf(),
        request_logged(
            old(state).db@,
            old(state).limits,
            id@,
            request_id,
            method@,
            header_views(headers@),
            body@,
            now,
            r,
            final(state).db@,
        ),
        forall|x: u128| final(state).db@.has_bin(x) == old(state).db@.has_bin(x),
        final(state).bin_channels == old(state).bin_channels,
        final(state).limits == old(state).limits,
{
    let bin_id = match validate_bin_id(id) {
        Ok(bin_id) => bin_id,
        Err(e) => {
            return Err(e);
        },
    };
    match check_bin_exists(state, bin_id) {
        Ok(_) => {},
        Err(e) => {
            return Err(e);
        },
    }
    let request_data = match process_request_data(
        method,
        headers,
        body,
        &state.limits,
        request_id,
        now,
    ) {
        Ok(request_data) => request_data,
        Err(e) => {
            return Err(e);
        },
    };
    match store_request_in_db(state, bin_id, request_data.duplicate()) {
        Ok(_) => {
            let ghost inserted = state.db@;
            enforce_request_limit(state, bin_id);
            let ghost trimmed = state.db@;
            update_last_updated(state, bin_id, now);
            send_websocket_notification(state, bin_id, &request_data);
            proof {
                let before = old(state).db@;
                let appended = before.requests_of(bin_id).push(request_data@);
                let kept = newest(appended, effective_cap(old(state).limits));
                before.lemma_with_requests(bin_id, appended, before.last_updated_of(bin_id));
                inserted.lemma_with_requests(bin_id, kept, inserted.last_updated_of(bin_id));
                before.lemma_with_requests_twice(
                    bin_id,
                    appended,
                    before.last_updated_of(bin_id),
                    kept,
                    inserted.last_updated_of(bin_id),
                );
                before.lemma_with_requests_twice(
                    bin_id,
                    kept,
                    inserted.last_updated_of(bin_id),
                    kept,
                    now,
                );
                before.lemma_with_requests(bin_id, kept, now);
            }
            Ok(request_data)
        },
        Err(ErrorKind::NotFound) => Err(not_found_error("Bin not found".to_owned())),
        Err(_) => Err(internal_error("Error logging request".to_owned())),
    }
}

/// Captures a request into the bin named by `id`, under a fresh identifier.
///
/// The identifier is a version 4 identifier drawn at random. Whatever it is,
/// the outcome is that of [`log_request_with_id`] for it.
pub fn log_request(
    state: &mut AppState,
    id: &str,
    method: &str,
    headers: &Vec<(String, String)>,
    body: &[u8],
    now: i64,
) -> (r: Result<LoggedRequest, ApiError>)
    requires
        old(state).db.wf(),
    ensures
        final(state).db.wf(),
        exists|request_id: u128|
            is_random_uuid(request_id) && request_logged(
                old(state).db@,
                old(state).limits,
                id@,
                request_id,
                method@,
                header_views(headers@),
                body@,
                now,
                r,
                final(state).db@,
            ),
        final(state).bin_channels == old(state).bin_channels,
        final(state).limits == old(state).limits,
{
    let request_id = new_uuid();
    log_request_with_id(state, id, request_id, method, headers, body, now)
}

/// What listing the bin named by `id` returns: its captures in ascending
/// insertion order.
pub open spec fn bin_inspected(
    s: StoreView,
    id: Seq<char>,
    r: Result<Vec<LoggedRequest>, ApiError>,
) -> bool {
    match parsed_uuid(id) {
        None => fails_with(r, ErrorKind::InvalidIdentifier, "Invalid UUID format"@),
        Some(bin_id) => if !s.has_bin(bin_id) {
            fails_with(r, ErrorKind::NotFound, "Bin not found"@)
        } else {
            r is Ok && views_of(r->Ok_0@) == s.requests_of(bin_id)
        },
    }
}

/// Lists the captures of the bin named by `id`, oldest first.
pub fn inspect_bin(state: &AppState, id: &str) -> (r: Result<Vec<LoggedRequest>, ApiError>)
    requires
        state.db.wf(),
    ensures
        bin_inspected(state.db@, id@, r),
{
    let bin_id = match validate_bin_id(id) {
        Ok(bin_id) => bin_id,
        Err(e) => {
            return Err(e);
        },
    };
    match check_bin_exists(state, bin_id) {
        Ok(_) => {},
        Err(e) => {
            return Err(e);
        },
    }
    Ok(state.db.select_requests(bin_id))
}

/// What deleting the bin named by `id` makes of the store `before`: the bin
/// and its captures are gone.
pub open spec fn bin_deleted(
    before: StoreView,
    id: Seq<char>,
    r: Result<(), ApiError>,
    after: StoreView,
) -> bool {
    match parsed_uuid(id) {
        None => fails_with(r, ErrorKind::InvalidIdentifier, "Invalid UUID format"@) && after
            == before,
        Some(bin_id) => if !before.has_bin(bin_id) {
            fails_with(r, ErrorKind::NotFound, "Bin not found"@) && after == before
        } else {
            r is Ok && after == before.without_bin(bin_id)
        },
    }
}

/// Deletes the bin named by `id` together with its captures. The bin's
/// broadcast channel, if it has one, stays in the registry.
pub fn delete_bin(state: &mut AppState, id: &str) -> (r: Result<(), ApiError>)
    requires
        old(state).db.wf(),
    ensures
        final(state).db.wf(),
        bin_deleted(old(state).db@, id@, r, final(state).db@),
        parsed_uuid(id@) matches Some(bin_id) ==> !final(state).db@.has_bin(bin_id),
        final(state).bin_channels == old(state).bin_channels,
        final(state).limits == old(state).limits,
{
    let uuid = match validate_bin_id(id) {
        Ok(uuid) => uuid,
        Err(e) => {
            return Err(e);
        },
    };
    proof {
        old(state).db@.lemma_without_bin_wf(uuid);
    }
    require_found(state.db.delete_bin(uuid), "Bin not found")
}

/// What deleting the capture named by `id` makes of the store `before`: the
/// capture is gone and the bin that owned it is touched at `now`.
pub open spec fn request_deleted(
    before: StoreView,
    id: Seq<char>,
    now: i64,
    r: Result<(), ApiError>,
    after: StoreView,
) -> bool {
    match parsed_uuid(id) {
        None => fails_with(r, ErrorKind::InvalidIdentifier, "Invalid UUID format"@) && after
            == before,
        Some(request_id) => if !before.has_request(request_id) {
            fails_with(r, ErrorKind::NotFound, "Request not found"@) && after == before
        } else {
            r is Ok && after == before.without_request(request_id, now)
        },
    }
}

/// Deletes the capture named by `id` and refreshes the activity time of the
/// bin that owned it.
pub fn delete_request(state: &mut AppState, id: &str, now: i64) -> (r: Result<(), ApiError>)
    requires
        old(state).db.wf(),
    ensures
        final(state).db.wf(),
        request_deleted(old(state).db@, id@, now, r, final(state).db@),
        forall|x: u128| final(state).db@.has_bin(x) == old(state).db@.has_bin(x),
        final(state).bin_channels == old(state).bin_channels,
        final(state).limits == old(state).limits,
{
    let uuid = match validate_bin_id(id) {
        Ok(uuid) => uuid,
        Err(e) => {
            return Err(e);
        },
    };
    proof {
        old(state).db@.lemma_without_request_bins(uuid, now);
    }
    proof {
        if !old(state).db@.has_request(uuid) {
            old(state).db@.lemma_without_absent_request(uuid, now);
        }
    }
    require_found(state.db.delete_request(uuid, now), "Request not found")
}

/// What clearing the bin named by `id` makes of the store `before`: the bin
/// is empty and touched at `now`, and the answer is the number of captures it
/// held.
pub open spec fn bin_cleared(
    before: StoreView,
    id: Seq<char>,
    now: i64,
    r: Result<usize, ApiError>,
    after: StoreView,
) -> bool {
    match parsed_uuid(id) {
        None => fails_with(r, ErrorKind::InvalidIdentifier, "Invalid UUID format"@) && after
            == before,
        Some(bin_id) => if !before.has_bin(bin_id) {
            fails_with(r, ErrorKind::NotFound, "Bin not found"@) && after == before
        } else {
            &&& r is Ok
            &&& r->Ok_0 == before.requests_of(bin_id).len()
            &&& after == before.with_requests(bin_id, Seq::empty(), now)
        },
    }
}

/// Deletes every capture of the bin named by `id`, refreshes the bin's
/// activity time, and returns how many captures were deleted.
pub fn clear_bin_requests(state: &mut AppState, id: &str, now: i64) -> (r: Result<usize, ApiError>)
    requires
        old(state).db.wf(),
    ensures
        final(state).db.wf(),
        bin_cleared(old(state).db@, id@, now, r, final(state).db@),
        forall|x: u128| final(state).db@.has_bin(x) == old(state).db@.has_bin(x),
        final(state).bin_channels == old(state).bin_channels,
        final(state).limits == old(state).limits,
{
    let bin_id = match validate_bin_id(id) {
        Ok(bin_id) => bin_id,
        Err(e) => {
            return Err(e);
        },
    };
    match check_bin_exists(state, bin_id) {
        Ok(_) => {},
        Err(e) => {
            return Err(e);
        },
    }
    let deleted_count = state.db.delete_requests(bin_id);
    update_last_updated(state, bin_id, now);
    proof {
        let before = old(state).db@;
        before.lemma_with_requests(bin_id, Seq::empty(), before.last_updated_of(bin_id));
        before.lemma_with_requests_twice(
            bin_id,
            Seq::empty(),
            before.last_updated_of(bin_id),
            Seq::empty(),
            now,
        );
        before.lemma_with_requests(bin_id, Seq::empty(), now);
    }
    Ok(deleted_count)
}

/// The message that a health check answers with: the caller's, or `pong`.
pub open spec fn ping_message(message: Option<String>) -> Seq<char> {
    match message {
        Some(text) => text@,
        None => "pong"@,
    }
}

/// Answers a health check, echoing the caller's message if there is one.
pub fn ping(query: PingQuery) -> (r: PingResponse)
    ensures
        r.ok,
        r.message@ == ping_message(query.message),
{
    let message = match query.message {
        Some(text) => text,
        None => "pong".to_owned(),
    };
    PingResponse { ok: true, message }
}

} // verus!
