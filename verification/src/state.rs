//! The shared state that every operation works on.

use vstd::prelude::*;
use crate::config::LimitsConfig;
use crate::store::{CaptureStore, BinView};
use crate::websocket::BroadcastHub;

verus! {

/// The store, the broadcast registry and the bounds, constructed once and
/// handed to each operation.
pub struct AppState {
    /// The backing store.
    pub db: CaptureStore,
    /// The per-bin broadcast channels.
    pub bin_channels: BroadcastHub,
    /// The size and count bounds applied to captures.
    pub limits: LimitsConfig,
}

impl AppState {
    /// A state with an empty store, no channels and the given bounds.
    pub fn new(limits_config: &LimitsConfig) -> (r: AppState)
        ensures
            r.db.wf(),
            r.db@.bins == Seq::<BinView>::empty(),
            r.bin_channels.channels() == Set::<u128>::empty(),
            r.limits == *limits_config,
    {
        AppState { db: CaptureStore::new(), bin_channels: BroadcastHub::new(), limits: *limits_config }
    }
}

} // verus!
