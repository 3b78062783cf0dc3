//! The backing store: bins and the requests captured into them.
//!
//! The store keeps its bins in creation order, and inside each bin the
//! captures in insertion order. Order is by position, never by timestamp, so
//! captures that share a timestamp still have a definite sequence.

use vstd::prelude::*;
use crate::error::ErrorKind;
use crate::models::{views_of, LoggedRequest, LoggedRequestView};
use crate::seq_lemmas::{lemma_filter_positions, lemma_filter_take_none, lemma_filter_take_step};

verus! {

/// One bin with the captures it owns.
struct Bin {
    id: u128,
    last_updated: i64,
    requests: Vec<LoggedRequest>,
}

/// The mathematical value of a bin.
pub struct BinView {
    /// The bin's identifier.
    pub id: u128,
    /// When the bin was created or last mutated, in milliseconds.
    pub last_updated: i64,
    /// The bin's live captures, oldest first.
    pub requests: Seq<LoggedRequestView>,
}

impl View for Bin {
    type V = BinView;

    closed spec fn view(&self) -> BinView {
        BinView { id: self.id, last_updated: self.last_updated, requests: views_of(self.requests@) }
    }
}

/// The mathematical value of a store: its bins in creation order.
pub struct StoreView {
    pub bins: Seq<BinView>,
}

/// Milliseconds in one hour.
pub open spec fn hour_millis() -> int {
    3_600_000
}

/// Whether a bin last touched at `last_updated` has been inactive for more
/// than `expiry_hours` at time `now`.
pub open spec fn is_expired(last_updated: i64, now: i64, expiry_hours: i64) -> bool {
    last_updated + expiry_hours * hour_millis() < now
}

/// The captures that do not carry `request_id`.
pub open spec fn other_than(request_id: u128) -> spec_fn(LoggedRequestView) -> bool {
    |r: LoggedRequestView| r.request_id != request_id
}

impl BinView {
    /// Whether one of the bin's captures carries `request_id`.
    pub open spec fn holds(self, request_id: u128) -> bool {
        exists|k: int| 0 <= k < self.requests.len() && self.requests[k].request_id == request_id
    }

    /// The bin without the captures that carry `request_id`, refreshed at `now`
    /// if it held one.
    pub open spec fn without_request(self, request_id: u128, now: i64) -> BinView {
        if self.holds(request_id) {
            BinView {
                id: self.id,
                last_updated: now,
                requests: self.requests.filter(other_than(request_id)),
            }
        } else {
            self
        }
    }
}

/// The bins that have expired at `now`.
pub open spec fn is_due(now: i64, expiry_hours: i64) -> spec_fn(BinView) -> bool {
    |b: BinView| is_expired(b.last_updated, now, expiry_hours)
}

/// The bins that a sweep at `now` deletes: those that have expired and are
/// not named in `live`.
pub open spec fn swept_away(now: i64, expiry_hours: i64, live: Set<u128>) -> spec_fn(BinView) -> bool {
    |b: BinView| is_expired(b.last_updated, now, expiry_hours) && !live.contains(b.id)
}

/// The identifier of a bin.
pub open spec fn id_of() -> spec_fn(BinView) -> u128 {
    |b: BinView| b.id
}

/// The bins that a sweep at `now` keeps: those that have not expired, and
/// those named in `live`.
pub open spec fn survives(now: i64, expiry_hours: i64, live: Set<u128>) -> spec_fn(BinView) -> bool {
    |b: BinView| !is_expired(b.last_updated, now, expiry_hours) || live.contains(b.id)
}

impl StoreView {
    /// No two bins share an identifier.
    pub open spec fn wf(self) -> bool {
        forall|i: int, j: int|
            0 <= i < j < self.bins.len() ==> (#[trigger] self.bins[i]).id != (#[trigger] self.bins[j]).id
    }

    /// Whether a bin with this identifier exists.
    pub open spec fn has_bin(self, id: u128) -> bool {
        exists|i: int| 0 <= i < self.bins.len() && (#[trigger] self.bins[i]).id == id
    }

    /// The position of the bin with this identifier.
    pub open spec fn index_of(self, id: u128) -> int {
        choose|i: int| 0 <= i < self.bins.len() && (#[trigger] self.bins[i]).id == id
    }

    /// The live captures of a bin, oldest first; empty for a bin that does not exist.
    pub open spec fn requests_of(self, id: u128) -> Seq<LoggedRequestView> {
        if self.has_bin(id) {
            self.bins[self.index_of(id)].requests
        } else {
            Seq::empty()
        }
    }

    /// When a bin was last active.
    pub open spec fn last_updated_of(self, id: u128) -> i64 {
        self.bins[self.index_of(id)].last_updated
    }

    /// Whether some capture in some bin carries `request_id`.
    pub open spec fn has_request(self, request_id: u128) -> bool {
        exists|i: int| 0 <= i < self.bins.len() && (#[trigger] self.bins[i]).holds(request_id)
    }

    /// The store with a new, empty bin appended.
    pub open spec fn with_bin(self, id: u128, now: i64) -> StoreView {
        StoreView {
            bins: self.bins.push(BinView { id, last_updated: now, requests: Seq::empty() }),
        }
    }

    /// The store with the bin `id` holding `requests` and touched at `now`.
    /// A store without that bin is unchanged.
    pub open spec fn with_requests(
        self,
        id: u128,
        requests: Seq<LoggedRequestView>,
        now: i64,
    ) -> StoreView {
        if self.has_bin(id) {
            StoreView {
                bins: self.bins.update(
                    self.index_of(id),
                    BinView { id, last_updated: now, requests },
                ),
            }
        } else {
            self
        }
    }

    /// The store with the bin `id` touched at `now`.
    pub open spec fn touched(self, id: u128, now: i64) -> StoreView {
        self.with_requests(id, self.requests_of(id), now)
    }

    /// The store without the bin `id` and the captures it owned.
    pub open spec fn without_bin(self, id: u128) -> StoreView {
        if self.has_bin(id) {
            StoreView { bins: self.bins.remove(self.index_of(id)) }
        } else {
            self
        }
    }

    /// The store without the captures that carry `request_id`; each bin that
    /// held one is touched at `now`.
    pub open spec fn without_request(self, request_id: u128, now: i64) -> StoreView {
        StoreView { bins: self.bins.map_values(|b: BinView| b.without_request(request_id, now)) }
    }

    /// The identifiers of the bins that have expired at `now`, in creation order.
    pub open spec fn expired_ids(self, now: i64, expiry_hours: i64) -> Seq<u128> {
        self.bins.filter(is_due(now, expiry_hours)).map_values(id_of())
    }

    /// The store after a sweep: every bin that has expired at `now` and is not
    /// in `live` is gone, every other bin is untouched.
    pub open spec fn swept(self, now: i64, expiry_hours: i64, live: Set<u128>) -> StoreView {
        StoreView { bins: self.bins.filter(survives(now, expiry_hours, live)) }
    }

    /// The identifiers of the bins that a sweep deletes, in creation order.
    pub open spec fn swept_ids(self, now: i64, expiry_hours: i64, live: Set<u128>) -> Seq<u128> {
        self.bins.filter(swept_away(now, expiry_hours, live)).map_values(id_of())
    }

    /// Deleting a bin keeps the store well formed and leaves no bin with its
    /// identifier.
    pub proof fn lemma_without_bin_wf(self, id: u128)
        requires
            self.wf(),
        ensures
            self.without_bin(id).wf(),
            !self.without_bin(id).has_bin(id),
    {
        if self.has_bin(id) {
            let i = self.index_of(id);
            let after = self.without_bin(id);
            assert forall|a: int, b: int| 0 <= a < b < after.bins.len() implies (
            #[trigger] after.bins[a]).id != (#[trigger] after.bins[b]).id by {
                let a0 = if a < i { a } else { a + 1 };
                let b0 = if b < i { b } else { b + 1 };
                assert(after.bins[a] == self.bins[a0]);
                assert(after.bins[b] == self.bins[b0]);
            }
            assert forall|a: int| 0 <= a < after.bins.len() implies (#[trigger] after.bins[a]).id
                != id by {
                let a0 = if a < i { a } else { a + 1 };
                assert(after.bins[a] == self.bins[a0]);
                if a0 < i {
                    assert(self.bins[a0].id != self.bins[i].id);
                } else {
                    assert(self.bins[i].id != self.bins[a0].id);
                }
            }
        }
    }

    /// A sweep keeps the store well formed.
    pub proof fn lemma_swept_wf(self, now: i64, expiry_hours: i64, live: Set<u128>)
        requires
            self.wf(),
        ensures
            self.swept(now, expiry_hours, live).wf(),
    {
        let after = self.swept(now, expiry_hours, live);
        let pos = lemma_filter_positions(self.bins, survives(now, expiry_hours, live));
        assert forall|a: int, b: int| 0 <= a < b < after.bins.len() implies (
        #[trigger] after.bins[a]).id != (#[trigger] after.bins[b]).id by {
            assert(after.bins[a] == self.bins[pos[a]]);
            assert(after.bins[b] == self.bins[pos[b]]);
            assert(pos[a] < pos[b]);
        }
    }

    /// Rewriting one bin's captures and activity time changes that bin and
    /// nothing else: the same bins exist at the same positions, and every
    /// other bin keeps its captures and its activity time.
    pub proof fn lemma_with_requests(self, id: u128, requests: Seq<LoggedRequestView>, now: i64)
        requires
            self.wf(),
            self.has_bin(id),
        ensures
            self.with_requests(id, requests, now).wf(),
            self.with_requests(id, requests, now).bins.len() == self.bins.len(),
            self.with_requests(id, requests, now).requests_of(id) == requests,
            self.with_requests(id, requests, now).last_updated_of(id) == now,
            forall|x: u128| #[trigger] self.with_requests(id, requests, now).has_bin(x) == self.has_bin(x),
            forall|x: u128|
                self.has_bin(x) ==> #[trigger] self.with_requests(id, requests, now).index_of(x)
                    == self.index_of(x),
            forall|x: u128|
                x != id ==> #[trigger] self.with_requests(id, requests, now).requests_of(x)
                    == self.requests_of(x),
            forall|x: u128|
                x != id && self.has_bin(x) ==> #[trigger] self.with_requests(
                    id,
                    requests,
                    now,
                ).last_updated_of(x) == self.last_updated_of(x),
    {
        let after = self.with_requests(id, requests, now);
        let i = self.index_of(id);
        assert(after.bins.len() == self.bins.len());
        assert forall|k: int| 0 <= k < self.bins.len() implies (#[trigger] after.bins[k]).id
            == self.bins[k].id by {}
        assert forall|a: int, b: int| 0 <= a < b < after.bins.len() implies (
        #[trigger] after.bins[a]).id != (#[trigger] after.bins[b]).id by {
            assert(self.bins[a].id != self.bins[b].id);
        }
        assert forall|x: u128| #[trigger] after.has_bin(x) == self.has_bin(x) by {
            if self.has_bin(x) {
                let k = self.index_of(x);
                assert(after.bins[k].id == x);
            }
            if after.has_bin(x) {
                let k = after.index_of(x);
                assert(self.bins[k].id == x);
            }
        }
        assert forall|x: u128| self.has_bin(x) implies #[trigger] after.index_of(x)
            == self.index_of(x) by {
            let k = self.index_of(x);
            assert(after.bins[k].id == x);
            after.lemma_index_unique(k);
        }
        assert(after.index_of(id) == i);
        assert forall|x: u128| x != id implies #[trigger] after.requests_of(x) == self.requests_of(
            x,
        ) by {
            if self.has_bin(x) {
                assert(after.index_of(x) == self.index_of(x));
                assert(self.index_of(x) != i);
            }
        }
        assert forall|x: u128| x != id && self.has_bin(x) implies #[trigger] after.last_updated_of(
            x,
        ) == self.last_updated_of(x) by {
            assert(after.index_of(x) == self.index_of(x));
            assert(self.index_of(x) != i);
        }
    }

    /// Rewriting a bin twice is rewriting it once, with the later values.
    pub proof fn lemma_with_requests_twice(
        self,
        id: u128,
        first: Seq<LoggedRequestView>,
        earlier: i64,
        second: Seq<LoggedRequestView>,
        later: i64,
    )
        requires
            self.wf(),
        ensures
            self.with_requests(id, first, earlier).with_requests(id, second, later)
                == self.with_requests(id, second, later),
    {
        if self.has_bin(id) {
            self.lemma_with_requests(id, first, earlier);
            let mid = self.with_requests(id, first, earlier);
            assert(mid.has_bin(id));
            assert(mid.index_of(id) == self.index_of(id));
            assert(mid.with_requests(id, second, later).bins =~= self.with_requests(
                id,
                second,
                later,
            ).bins);
        }
    }

    /// Deleting a capture that no bin holds changes nothing.
    pub proof fn lemma_without_absent_request(self, request_id: u128, now: i64)
        requires
            !self.has_request(request_id),
        ensures
            self.without_request(request_id, now) == self,
    {
        assert forall|k: int| 0 <= k < self.bins.len() implies (#[trigger] self.bins[k]).without_request(
            request_id,
            now,
        ) == self.bins[k] by {
            assert(!self.bins[k].holds(request_id));
        }
        assert(self.without_request(request_id, now).bins =~= self.bins);
    }

    /// A new bin is there after it was added, empty; the bins that were there
    /// before are still there, and the store stays well formed if the
    /// identifier was free.
    pub proof fn lemma_with_bin(self, id: u128, now: i64)
        requires
            self.wf(),
            !self.has_bin(id),
        ensures
            self.with_bin(id, now).wf(),
            self.with_bin(id, now).has_bin(id),
            self.with_bin(id, now).requests_of(id) == Seq::<LoggedRequestView>::empty(),
            self.with_bin(id, now).last_updated_of(id) == now,
            forall|x: u128| x != id ==> #[trigger] self.with_bin(id, now).has_bin(x) == self.has_bin(x),
            forall|x: u128|
                x != id ==> #[trigger] self.with_bin(id, now).requests_of(x) == self.requests_of(x),
    {
        let after = self.with_bin(id, now);
        let last = self.bins.len() as int;
        assert(after.bins[last].id == id);
        assert forall|a: int, b: int| 0 <= a < b < after.bins.len() implies (
        #[trigger] after.bins[a]).id != (#[trigger] after.bins[b]).id by {
            if b < last {
                assert(self.bins[a].id != self.bins[b].id);
            } else {
                assert(self.bins[a].id != id);
            }
        }
        after.lemma_index_unique(last);
        assert forall|x: u128| x != id implies #[trigger] after.has_bin(x) == self.has_bin(x) by {
            if self.has_bin(x) {
                let k = self.index_of(x);
                assert(after.bins[k].id == x);
            }
            if after.has_bin(x) {
                let k = after.index_of(x);
                assert(self.bins[k].id == x);
            }
        }
        assert forall|x: u128| x != id implies #[trigger] after.requests_of(x) == self.requests_of(
            x,
        ) by {
            if self.has_bin(x) {
                let k = self.index_of(x);
                assert(after.bins[k].id == x);
                after.lemma_index_unique(k);
            }
        }
    }

    /// Deleting a capture deletes no bin and adds none.
    pub proof fn lemma_without_request_bins(self, request_id: u128, now: i64)
        ensures
            forall|x: u128| #[trigger]
                self.without_request(request_id, now).has_bin(x) == self.has_bin(x),
    {
        let after = self.without_request(request_id, now);
        assert forall|x: u128| #[trigger] after.has_bin(x) == self.has_bin(x) by {
            if self.has_bin(x) {
                let k = self.index_of(x);
                assert(after.bins[k].id == x);
            }
            if after.has_bin(x) {
                let k = after.index_of(x);
                assert(self.bins[k].id == x);
            }
        }
    }

    /// In a well-formed store a bin's position is determined by its identifier.
    pub proof fn lemma_index_unique(self, i: int)
        requires
            self.wf(),
            0 <= i < self.bins.len(),
        ensures
            self.has_bin(self.bins[i].id),
            self.index_of(self.bins[i].id) == i,
    {
        let id = self.bins[i].id;
        let j = self.index_of(id);
        assert(0 <= j < self.bins.len() && self.bins[j].id == id);
        if j < i {
            assert(self.bins[j].id != self.bins[i].id);
        } else if i < j {
            assert(self.bins[i].id != self.bins[j].id);
        }
    }
}

impl Bin {
    /// Whether one of the bin's captures carries `request_id`.
    fn holds(&self, request_id: u128) -> (r: bool)
        ensures
            r == self@.holds(request_id),
    {
        let mut k: usize = 0;
        while k < self.requests.len()
            invariant
                k <= self.requests.len(),
                forall|j: int| 0 <= j < k ==> self@.requests[j].request_id != request_id,
            decreases self.requests.len() - k,
        {
            if self.requests[k].request_id == request_id {
                assert(self@.requests[k as int].request_id == request_id);
                return true;
            }
            k += 1;
        }
        false
    }

    /// Appends a capture as the newest of the bin.
    fn append(&mut self, entry: LoggedRequest)
        ensures
            final(self)@ == (BinView {
                id: old(self)@.id,
                last_updated: old(self)@.last_updated,
                requests: old(self)@.requests.push(entry@),
            }),
    {
        self.requests.push(entry);
        assert(final(self)@.requests =~= old(self)@.requests.push(entry@));
    }

    /// Removes the `n` oldest captures, or all of them if there are fewer.
    fn drop_oldest(&mut self, n: usize) -> (removed: usize)
        ensures
            removed == if n <= old(self)@.requests.len() { n as int } else {
                old(self)@.requests.len() as int
            },
            final(self)@ == (BinView {
                id: old(self)@.id,
                last_updated: old(self)@.last_updated,
                requests: old(self)@.requests.skip(removed as int),
            }),
    {
        let mut removed: usize = 0;
        assert(self@.requests =~= old(self)@.requests.skip(0));
        while removed < n && self.requests.len() > 0
            invariant
                removed <= n,
                removed <= old(self)@.requests.len(),
                self@.id == old(self)@.id,
                self@.last_updated == old(self)@.last_updated,
                self@.requests == old(self)@.requests.skip(removed as int),
            decreases n - removed,
        {
            let ghost before = self@.requests;
            self.requests.remove(0);
            removed += 1;
            assert(self@.requests =~= before.skip(1));
            assert(before.skip(1) =~= old(self)@.requests.skip(removed as int));
        }
        removed
    }

    /// Removes every capture and says how many there were.
    fn clear(&mut self) -> (removed: usize)
        ensures
            removed == old(self)@.requests.len(),
            final(self)@ == (BinView {
                id: old(self)@.id,
                last_updated: old(self)@.last_updated,
                requests: Seq::empty(),
            }),
    {
        let removed = self.requests.len();
        self.requests.clear();
        assert(final(self)@.requests =~= Seq::<LoggedRequestView>::empty());
        removed
    }

    /// Removes the captures that carry `request_id`; a bin that held one is
    /// touched at `now`.
    fn remove_request(&mut self, request_id: u128, now: i64) -> (found: bool)
        ensures
            found == old(self)@.holds(request_id),
            final(self)@ == old(self)@.without_request(request_id, now),
    {
        let ghost orig = self@.requests;
        let ghost keep = other_than(request_id);
        let ghost mut j: int = 0;
        let mut k: usize = 0;
        let mut found = false;
        proof {
            lemma_filter_take_none(orig, keep);
            assert(self@.requests.take(0) =~= Seq::<LoggedRequestView>::empty());
            assert(self@.requests.skip(0) =~= orig.skip(0));
        }
        while k < self.requests.len()
            invariant
                0 <= j <= orig.len(),
                k <= self.requests.len(),
                self.requests.len() - k == orig.len() - j,
                self@.id == old(self)@.id,
                self@.last_updated == old(self)@.last_updated,
                orig == old(self)@.requests,
                keep == other_than(request_id),
                !found ==> self@.requests == orig,
                self@.requests.take(k as int) == orig.take(j).filter(keep),
                self@.requests.skip(k as int) == orig.skip(j),
                found == exists|i: int| 0 <= i < j && orig[i].request_id == request_id,
            decreases self.requests.len() - k,
        {
            let ghost before = self@.requests;
            proof {
                lemma_filter_take_step(orig, keep, j);
                assert(before[k as int] == before.skip(k as int)[0]);
                assert(orig[j] == orig.skip(j)[0]);
            }
            if self.requests[k].request_id == request_id {
                self.requests.remove(k);
                found = true;
                proof {
                    assert(self@.requests =~= before.remove(k as int));
                    assert(self@.requests.take(k as int) =~= before.take(k as int));
                    assert(self@.requests.skip(k as int) =~= before.skip(k as int).skip(1));
                    assert(orig.skip(j).skip(1) =~= orig.skip(j + 1));
                    j = j + 1;
                }
            } else {
                k += 1;
                proof {
                    assert(before.take(k as int) =~= before.take(k - 1).push(before[k - 1]));
                    assert(before.skip(k as int) =~= before.skip(k - 1).skip(1));
                    assert(orig.skip(j).skip(1) =~= orig.skip(j + 1));
                    j = j + 1;
                }
            }
        }
        proof {
            assert(self@.requests.take(k as int) =~= self@.requests);
            assert(orig.take(j) =~= orig);
        }
        if found {
            self.last_updated = now;
        }
        found
    }

    /// Copies of the bin's captures, oldest first.
    fn snapshot(&self) -> (r: Vec<LoggedRequest>)
        ensures
            views_of(r@) == self@.requests,
    {
        let mut out: Vec<LoggedRequest> = Vec::new();
        let mut k: usize = 0;
        while k < self.requests.len()
            invariant
                k <= self.requests.len(),
                views_of(out@) == self@.requests.take(k as int),
            decreases self.requests.len() - k,
        {
            let copy = self.requests[k].duplicate();
            let ghost before = out@;
            out.push(copy);
            k += 1;
            assert(views_of(out@) =~= views_of(before).push(copy@));
            assert(self@.requests.take(k as int) =~= self@.requests.take(k - 1).push(
                self@.requests[k - 1],
            ));
        }
        assert(self@.requests.take(k as int) =~= self@.requests);
        out
    }
}

/// The in-memory backing store.
pub struct CaptureStore {
    bins: Vec<Bin>,
}

impl View for CaptureStore {
    type V = StoreView;

    closed spec fn view(&self) -> StoreView {
        StoreView { bins: self.bins@.map_values(|b: Bin| b@) }
    }
}

impl CaptureStore {
    /// The store's invariant: no two bins share an identifier.
    pub open spec fn wf(&self) -> bool {
        self@.wf()
    }

    /// An empty store.
    pub fn new() -> (r: CaptureStore)
        ensures
            r.wf(),
            r@.bins == Seq::<BinView>::empty(),
    {
        let r = CaptureStore { bins: Vec::new() };
        assert(r@.bins =~= Seq::<BinView>::empty());
        r
    }

    /// The position of the bin `id`, if it exists.
    fn find_bin(&self, id: u128) -> (r: Option<usize>)
        ensures
            match r {
                Some(i) => i < self@.bins.len() && self@.bins[i as int].id == id
                    && self@.has_bin(id) && (self.wf() ==> self@.index_of(id) == i),
                None => !self@.has_bin(id),
            },
    {
        let mut i: usize = 0;
        while i < self.bins.len()
            invariant
                i <= self.bins.len(),
                forall|k: int| 0 <= k < i ==> (#[trigger] self@.bins[k]).id != id,
            decreases self.bins.len() - i,
        {
            if self.bins[i].id == id {
                proof {
                    assert(self@.bins[i as int].id == id);
                    if self.wf() {
                        self@.lemma_index_unique(i as int);
                    }
                }
                return Some(i);
            }
            i += 1;
        }
        None
    }

    /// How many bins carry the identifier `id`: one if the bin exists, none
    /// otherwise.
    pub fn count_bins(&self, id: u128) -> (r: i64)
        ensures
            r == if self@.has_bin(id) { 1i64 } else { 0i64 },
    {
        match self.find_bin(id) {
            Some(_) => 1,
            None => 0,
        }
    }

    /// Adds an empty bin `id`, last active at `now`.
    ///
    /// Identifiers are a primary key: the insert fails with `StorageError`,
    /// and changes nothing, exactly when the identifier is already taken.
    pub fn insert_bin(&mut self, id: u128, now: i64) -> (r: Result<(), ErrorKind>)
        requires
            old(self).wf(),
        ensures
            final(self).wf(),
            old(self)@.has_bin(id) ==> r == Err::<(), ErrorKind>(ErrorKind::StorageError)
                && final(self)@ == old(self)@,
            !old(self)@.has_bin(id) ==> r is Ok && final(self)@ == old(self)@.with_bin(id, now),
    {
        match self.find_bin(id) {
            Some(_) => Err(ErrorKind::StorageError),
            None => {
                self.bins.push(Bin { id, last_updated: now, requests: Vec::new() });
                proof {
                    assert(views_of(Seq::<LoggedRequest>::empty()) =~= Seq::empty());
                    assert(final(self)@.bins =~= old(self)@.with_bin(id, now).bins);
                }
                Ok(())
            },
        }
    }

    /// Whether some capture in some bin carries `request_id`.
    pub fn has_request(&self, request_id: u128) -> (r: bool)
        ensures
            r == self@.has_request(request_id),
    {
        let mut i: usize = 0;
        while i < self.bins.len()
            invariant
                i <= self.bins.len(),
                forall|k: int| 0 <= k < i ==> !(#[trigger] self@.bins[k]).holds(request_id),
            decreases self.bins.len() - i,
        {
            if self.bins[i].holds(request_id) {
                assert(self@.bins[i as int].holds(request_id));
                return true;
            }
            i += 1;
        }
        false
    }

    /// Stores `entry` as the newest capture of the bin `bin_id`.
    ///
    /// The insert is conditional on its parent: it fails with `NotFound` when
    /// the bin does not exist. Request identifiers are unique over the whole
    /// store: it fails with `StorageError` when the identifier is taken. A
    /// failed insert changes nothing. The bin's activity time is not touched.
    pub fn insert_request(&mut self, bin_id: u128, entry: LoggedRequest) -> (r: Result<
        (),
        ErrorKind,
    >)
        requires
            old(self).wf(),
        ensures
            final(self).wf(),
            !old(self)@.has_bin(bin_id) ==> r == Err::<(), ErrorKind>(ErrorKind::NotFound)
                && final(self)@ == old(self)@,
            old(self)@.has_bin(bin_id) && old(self)@.has_request(entry.request_id) ==> r == Err::<
                (),
                ErrorKind,
            >(ErrorKind::StorageError) && final(self)@ == old(self)@,
            old(self)@.has_bin(bin_id) && !old(self)@.has_request(entry.request_id) ==> r is Ok
                && final(self)@ == old(self)@.with_requests(
                bin_id,
                old(self)@.requests_of(bin_id).push(entry@),
                old(self)@.last_updated_of(bin_id),
            ),
    {
        match self.find_bin(bin_id) {
            None => Err(ErrorKind::NotFound),
            Some(i) => {
                if self.has_request(entry.request_id) {
                    return Err(ErrorKind::StorageError);
                }
                self.bins[i].append(entry);
                proof {
                    assert(final(self)@.bins =~= old(self)@.bins.update(
                        i as int,
                        final(self)@.bins[i as int],
                    ));
                }
                Ok(())
            },
        }
    }

    /// How many live captures the bin `bin_id` holds; none for a bin that does
    /// not exist.
    pub fn count_requests(&self, bin_id: u128) -> (r: usize)
        requires
            self.wf(),
        ensures
            r == self@.requests_of(bin_id).len(),
    {
        match self.find_bin(bin_id) {
            None => 0,
            Some(i) => self.bins[i].requests.len(),
        }
    }

    /// Deletes the `n` oldest captures of the bin `bin_id`, or all of them if
    /// it holds fewer, and says how many were deleted. The bin's activity time
    /// is not touched.
    pub fn delete_oldest(&mut self, bin_id: u128, n: usize) -> (removed: usize)
        requires
            old(self).wf(),
        ensures
            final(self).wf(),
            removed == if n <= old(self)@.requests_of(bin_id).len() { n as int } else {
                old(self)@.requests_of(bin_id).len() as int
            },
            final(self)@ == old(self)@.with_requests(
                bin_id,
                old(self)@.requests_of(bin_id).skip(removed as int),
                old(self)@.last_updated_of(bin_id),
            ),
    {
        match self.find_bin(bin_id) {
            None => 0,
            Some(i) => {
                let removed = self.bins[i].drop_oldest(n);
                proof {
                    assert(final(self)@.bins =~= old(self)@.bins.update(
                        i as int,
                        final(self)@.bins[i as int],
                    ));
                }
                removed
            },
        }
    }

    /// The captures of the bin `bin_id` in ascending insertion order; none for
    /// a bin that does not exist.
    pub fn select_requests(&self, bin_id: u128) -> (r: Vec<LoggedRequest>)
        requires
            self.wf(),
        ensures
            views_of(r@) == self@.requests_of(bin_id),
    {
        match self.find_bin(bin_id) {
            None => {
                let r: Vec<LoggedRequest> = Vec::new();
                assert(views_of(r@) =~= Seq::empty());
                r
            },
            Some(i) => self.bins[i].snapshot(),
        }
    }

    /// Deletes every capture of the bin `bin_id` and says how many there
    /// were. The bin's activity time is not touched.
    pub fn delete_requests(&mut self, bin_id: u128) -> (removed: usize)
        requires
            old(self).wf(),
        ensures
            final(self).wf(),
            removed == old(self)@.requests_of(bin_id).len(),
            final(self)@ == old(self)@.with_requests(
                bin_id,
                Seq::empty(),
                old(self)@.last_updated_of(bin_id),
            ),
    {
        match self.find_bin(bin_id) {
            None => 0,
            Some(i) => {
                let removed = self.bins[i].clear();
                proof {
                    assert(final(self)@.bins =~= old(self)@.bins.update(
                        i as int,
                        final(self)@.bins[i as int],
                    ));
                }
                removed
            },
        }
    }

    /// Deletes the capture that carries `request_id`, touches the bin that
    /// owned it at `now`, and says whether there was one.
    pub fn delete_request(&mut self, request_id: u128, now: i64) -> (found: bool)
        requires
            old(self).wf(),
        ensures
            final(self).wf(),
            found == old(self)@.has_request(request_id),
            final(self)@ == old(self)@.without_request(request_id, now),
    {
        let mut found = false;
        let mut i: usize = 0;
        while i < self.bins.len()
            invariant
                i <= self.bins.len(),
                self.bins.len() == old(self).bins.len(),
                forall|k: int|
                    0 <= k < i ==> (#[trigger] self@.bins[k]) == old(self)@.bins[k].without_request(
                        request_id,
                        now,
                    ),
                forall|k: int|
                    i <= k < self.bins.len() ==> (#[trigger] self@.bins[k]) == old(self)@.bins[k],
                found == exists|k: int| 0 <= k < i && (#[trigger] old(self)@.bins[k]).holds(request_id),
            decreases self.bins.len() - i,
        {
            let ghost before = self@;
            let hit = self.bins[i].remove_request(request_id, now);
            proof {
                assert(self@.bins =~= before.bins.update(i as int, self@.bins[i as int]));
                assert(before.bins[i as int] == old(self)@.bins[i as int]);
                if hit {
                    assert(old(self)@.bins[i as int].holds(request_id));
                }
            }
            found = found || hit;
            i += 1;
        }
        proof {
            assert(self@.bins =~= old(self)@.without_request(request_id, now).bins);
            assert forall|a: int, b: int| 0 <= a < b < self@.bins.len() implies (
            #[trigger] self@.bins[a]).id != (#[trigger] self@.bins[b]).id by {
                assert(old(self)@.bins[a].id != old(self)@.bins[b].id);
            }
        }
        found
    }

    /// Deletes the bin `id` together with the captures it owns, and says
    /// whether there was one.
    pub fn delete_bin(&mut self, id: u128) -> (found: bool)
        requires
            old(self).wf(),
        ensures
            final(self).wf(),
            found == old(self)@.has_bin(id),
            final(self)@ == old(self)@.without_bin(id),
    {
        match self.find_bin(id) {
            None => false,
            Some(i) => {
                self.bins.remove(i);
                proof {
                    assert(final(self)@.bins =~= old(self)@.bins.remove(i as int));
                    old(self)@.lemma_without_bin_wf(id);
                }
                true
            },
        }
    }

    /// Sets the activity time of the bin `id` to `now`. A store without that
    /// bin is unchanged.
    pub fn touch(&mut self, id: u128, now: i64)
        requires
            old(self).wf(),
        ensures
            final(self).wf(),
            final(self)@ == old(self)@.touched(id, now),
    {
        match self.find_bin(id) {
            None => {},
            Some(i) => {
                self.bins[i].last_updated = now;
                proof {
                    assert(final(self)@.bins =~= old(self)@.bins.update(
                        i as int,
                        final(self)@.bins[i as int],
                    ));
                }
            },
        }
    }

    /// The identifiers of the bins that have been inactive for more than
    /// `expiry_hours` at `now`, in creation order.
    pub fn select_expired(&self, now: i64, expiry_hours: i64) -> (r: Vec<u128>)
        ensures
            r@ == self@.expired_ids(now, expiry_hours),
    {
        let ghost due = is_due(now, expiry_hours);
        let mut out: Vec<u128> = Vec::new();
        let mut i: usize = 0;
        proof {
            lemma_filter_take_none(self@.bins, due);
        }
        while i < self.bins.len()
            invariant
                i <= self.bins.len(),
                due == is_due(now, expiry_hours),
                out@ == self@.bins.take(i as int).filter(due).map_values(id_of()),
            decreases self.bins.len() - i,
        {
            proof {
                lemma_filter_take_step(self@.bins, due, i as int);
            }
            let ghost before = out@;
            if expired(self.bins[i].last_updated, now, expiry_hours) {
                out.push(self.bins[i].id);
                assert(out@ =~= self@.bins.take(i + 1).filter(due).map_values(id_of()));
            }
            i += 1;
        }
        assert(self@.bins.take(i as int) =~= self@.bins);
        out
    }

    /// Deletes every bin that has been inactive for more than `expiry_hours`
    /// at `now` and is not named in `live`, together with its captures, and
    /// returns the identifiers of the deleted bins in creation order.
    ///
    /// A bin named in `live` is kept whatever its age, and a bin that has not
    /// expired is kept whether or not it is live. Kept bins are untouched.
    pub fn sweep(&mut self, now: i64, expiry_hours: i64, live: &Vec<u128>) -> (deleted: Vec<u128>)
        requires
            old(self).wf(),
        ensures
            final(self).wf(),
            final(self)@ == old(self)@.swept(now, expiry_hours, live@.to_set()),
            deleted@ == old(self)@.swept_ids(now, expiry_hours, live@.to_set()),
    {
        let ghost orig = self@.bins;
        let ghost keep = survives(now, expiry_hours, live@.to_set());
        let ghost gone = swept_away(now, expiry_hours, live@.to_set());
        let ghost mut j: int = 0;
        let mut deleted: Vec<u128> = Vec::new();
        let mut k: usize = 0;
        proof {
            lemma_filter_take_none(orig, keep);
            lemma_filter_take_none(orig, gone);
            assert(self@.bins.take(0) =~= Seq::<BinView>::empty());
            assert(self@.bins.skip(0) =~= orig.skip(0));
        }
        while k < self.bins.len()
            invariant
                0 <= j <= orig.len(),
                k <= self.bins.len(),
                self.bins.len() - k == orig.len() - j,
                orig == old(self)@.bins,
                keep == survives(now, expiry_hours, live@.to_set()),
                gone == swept_away(now, expiry_hours, live@.to_set()),
                self@.bins.take(k as int) == orig.take(j).filter(keep),
                self@.bins.skip(k as int) == orig.skip(j),
                deleted@ == orig.take(j).filter(gone).map_values(id_of()),
            decreases self.bins.len() - k,
        {
            let ghost before = self@.bins;
            proof {
                lemma_filter_take_step(orig, keep, j);
                lemma_filter_take_step(orig, gone, j);
                assert(before[k as int] == before.skip(k as int)[0]);
                assert(orig[j] == orig.skip(j)[0]);
                assert(live@.to_set().contains(orig[j].id) == live@.contains(orig[j].id));
            }
            let due = expired(self.bins[k].last_updated, now, expiry_hours);
            if due && !contains_id(live, self.bins[k].id) {
                deleted.push(self.bins[k].id);
                self.bins.remove(k);
                proof {
                    assert(self@.bins =~= before.remove(k as int));
                    assert(self@.bins.take(k as int) =~= before.take(k as int));
                    assert(self@.bins.skip(k as int) =~= before.skip(k as int).skip(1));
                    assert(orig.skip(j).skip(1) =~= orig.skip(j + 1));
                    assert(deleted@ =~= orig.take(j + 1).filter(gone).map_values(id_of()));
                    j = j + 1;
                }
            } else {
                k += 1;
                proof {
                    assert(before.take(k as int) =~= before.take(k - 1).push(before[k - 1]));
                    assert(before.skip(k as int) =~= before.skip(k - 1).skip(1));
                    assert(orig.skip(j).skip(1) =~= orig.skip(j + 1));
                    j = j + 1;
                }
            }
        }
        proof {
            assert(self@.bins.take(k as int) =~= self@.bins);
            assert(orig.take(j) =~= orig);
            old(self)@.lemma_swept_wf(now, expiry_hours, live@.to_set());
        }
        deleted
    }
}

/// Whether a bin last touched at `last_updated` has been inactive for more
/// than `expiry_hours` at time `now`.
pub fn expired(last_updated: i64, now: i64, expiry_hours: i64) -> (r: bool)
    ensures
        r == is_expired(last_updated, now, expiry_hours),
{
    let window: i128 = (expiry_hours as i128) * 3_600_000;
    (last_updated as i128) + window < (now as i128)
}

/// Whether `id` occurs in `ids`.
pub fn contains_id(ids: &Vec<u128>, id: u128) -> (r: bool)
    ensures
        r == ids@.contains(id),
{
    let mut i: usize = 0;
    while i < ids.len()
        invariant
            i <= ids.len(),
            forall|k: int| 0 <= k < i ==> ids@[k] != id,
        decreases ids.len() - i,
    {
        if ids[i] == id {
            return true;
        }
        i += 1;
    }
    false
}

} // verus!
