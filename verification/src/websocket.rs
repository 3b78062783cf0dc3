//! The broadcast hub: a registry of per-bin channels that fan new captures
//! out to live observers.
//!
//! Delivery is at most once and best effort. Publishing never waits for an
//! observer: a channel keeps a bounded backlog, and an observer that falls
//! behind it loses the oldest messages.

use vstd::prelude::*;
use crate::error::{fails_with, ApiError, ErrorKind};
use crate::handlers::validate_bin_id;
use crate::models::LoggedRequest;
use crate::state::AppState;
use crate::utils::uuid::parsed_uuid;
use dashmap::DashMap;
use tokio::sync::broadcast::error::TryRecvError;
use tokio::sync::broadcast::{Receiver, Sender};

verus! {

/// `dashmap::DashMap`, the keyed registry. Opaque to the verifier.
#[verifier::external_type_specification]
#[verifier::external_body]
#[verifier::reject_recursive_types(K)]
#[verifier::reject_recursive_types(V)]
#[verifier::reject_recursive_types(S)]
pub struct ExDashMap<K, V, S>(DashMap<K, V, S>);

/// `tokio::sync::broadcast::Sender`, the sending half of a channel. Opaque
/// to the verifier.
#[verifier::external_type_specification]
#[verifier::external_body]
#[verifier::reject_recursive_types(T)]
pub struct ExSender<T>(Sender<T>);

/// `tokio::sync::broadcast::Receiver`, one observer's end of a channel.
/// Opaque to the verifier.
#[verifier::external_type_specification]
#[verifier::external_body]
#[verifier::reject_recursive_types(T)]
pub struct ExReceiver<T>(Receiver<T>);

/// The keys that a registry holds.
pub uninterp spec fn registered(map: DashMap<u128, Sender<LoggedRequest>>) -> Set<u128>;

/// How many messages a channel retains, at least, for observers that lag
/// behind.
pub const CHANNEL_CAPACITY: usize = 100;

/// Calls `DashMap::new`. Trusted: the new registry holds no key.
#[verifier::external_body]
fn registry_new() -> (map: DashMap<u128, Sender<LoggedRequest>>)
    ensures
        registered(map) == Set::<u128>::empty(),
{
    DashMap::new()
}

/// Calls `DashMap::get` and clones the sender found. Trusted: a sender comes
/// back exactly when the key is registered.
#[verifier::external_body]
fn registry_get(map: &DashMap<u128, Sender<LoggedRequest>>, id: u128) -> (r: Option<
    Sender<LoggedRequest>,
>)
    ensures
        r is Some == registered(*map).contains(id),
{
    map.get(&id).map(|entry| entry.value().clone())
}

/// Calls `DashMap::insert`, which would replace the sender of a registered
/// key: it is called for keys that are not registered only, so no channel
/// is ever replaced. Trusted: afterwards the key is registered, and no other
/// key is added or lost.
#[verifier::external_body]
fn registry_insert(map: &mut DashMap<u128, Sender<LoggedRequest>>, id: u128, tx: Sender<LoggedRequest>)
    requires
        !registered(*old(map)).contains(id),
    ensures
        registered(*final(map)) == registered(*old(map)).insert(id),
{
    map.insert(id, tx);
}

/// Calls `DashMap::remove`. Trusted: afterwards the key is not registered,
/// and no other key is added or lost.
#[verifier::external_body]
fn registry_remove(map: &mut DashMap<u128, Sender<LoggedRequest>>, id: u128)
    ensures
        registered(*final(map)) == registered(*old(map)).remove(id),
{
    map.remove(&id);
}

/// Calls `tokio::sync::broadcast::Sender::new`, which panics on a capacity of
/// zero or above `usize::MAX / 2`. Nothing is claimed of the channel.
#[verifier::external_body]
fn sender_new(capacity: usize) -> (tx: Sender<LoggedRequest>)
    requires
        0 < capacity <= usize::MAX / 2,
{
    Sender::new(capacity)
}

/// Calls `Sender::subscribe`. Nothing is claimed of the receiver.
#[verifier::external_body]
fn sender_subscribe(tx: &Sender<LoggedRequest>) -> (rx: Receiver<LoggedRequest>) {
    tx.subscribe()
}

/// Calls `Sender::send`. Trusted: the result is the number of receivers the
/// message was queued for, and `None` where there was none; a number that
/// comes back is never zero.
#[verifier::external_body]
fn sender_send(tx: &Sender<LoggedRequest>, payload: LoggedRequest) -> (r: Option<usize>)
    ensures
        r matches Some(n) ==> n > 0,
{
    tx.send(payload).ok()
}

/// Calls `Sender::receiver_count`. The count depends on which receivers are
/// still alive, so nothing is claimed of it.
#[verifier::external_body]
fn sender_receiver_count(tx: &Sender<LoggedRequest>) -> (n: usize) {
    tx.receiver_count()
}

/// What an observer finds when it polls its channel.
#[derive(Debug)]
pub enum Delivery {
    /// The next capture.
    Message(LoggedRequest),
    /// Nothing is waiting; more may come.
    Empty,
    /// The observer fell behind and this many messages were dropped.
    Lagged(u64),
    /// The channel was torn down; nothing more will come.
    Closed,
}

/// Calls `Receiver::try_recv`. What is waiting depends on the publishers, so
/// nothing is claimed of the outcome.
#[verifier::external_body]
fn receiver_try_recv(rx: &mut Receiver<LoggedRequest>) -> (r: Delivery) {
    match rx.try_recv() {
        Ok(message) => Delivery::Message(message),
        Err(TryRecvError::Empty) => Delivery::Empty,
        Err(TryRecvError::Lagged(skipped)) => Delivery::Lagged(skipped),
        Err(TryRecvError::Closed) => Delivery::Closed,
    }
}

/// One observer's subscription to a bin. The observer stays attached until
/// the handle is dropped.
pub struct ObserverHandle {
    receiver: Receiver<LoggedRequest>,
}

impl ObserverHandle {
    /// The receiver that the handle holds.
    pub closed spec fn receiver(self) -> Receiver<LoggedRequest> {
        self.receiver
    }

    /// Takes the next capture that is waiting for this observer, without
    /// blocking. What is waiting depends on what was published since the
    /// observer attached.
    pub fn try_next(&mut self) -> (r: Delivery) {
        receiver_try_recv(&mut self.receiver)
    }

    /// Gives up the handle for the receiver inside it, for a transport that
    /// awaits messages.
    pub fn into_receiver(self) -> (rx: Receiver<LoggedRequest>)
        ensures
            rx == self.receiver(),
    {
        self.receiver
    }
}

/// Whether a channel with `receivers` attached receivers keeps its bin alive:
/// a bin without a channel has no observer, and a channel needs at least one.
pub open spec fn is_live(receivers: Option<usize>) -> bool {
    receivers matches Some(n) && n > 0
}

/// Decides liveness from the number of receivers on a bin's channel, `None`
/// standing for a bin without a channel.
pub fn has_active_connections(receivers: Option<usize>) -> (r: bool)
    ensures
        r == is_live(receivers),
{
    match receivers {
        Some(n) => n > 0,
        None => false,
    }
}

/// How many observers a payload was handed to, from what the channel
/// answered: their number, and none where the channel had no observer.
pub fn delivered_to(sent: Option<usize>) -> (delivered: usize)
    ensures
        delivered == match sent {
            Some(n) => n,
            None => 0,
        },
{
    match sent {
        Some(n) => n,
        None => 0,
    }
}

/// The registry of per-bin channels.
pub struct BroadcastHub {
    channels: DashMap<u128, Sender<LoggedRequest>>,
}

impl BroadcastHub {
    /// The bins that have a channel.
    pub closed spec fn channels(&self) -> Set<u128> {
        registered(self.channels)
    }

    /// A hub without channels.
    pub fn new() -> (r: BroadcastHub)
        ensures
            r.channels() == Set::<u128>::empty(),
    {
        BroadcastHub { channels: registry_new() }
    }

    /// Whether the bin `bin_id` has a channel.
    pub fn has_channel(&self, bin_id: u128) -> (r: bool)
        ensures
            r == self.channels().contains(bin_id),
    {
        registry_get(&self.channels, bin_id).is_some()
    }

    /// Attaches a new observer to the bin `bin_id`.
    ///
    /// The bin's channel is created if it has none. If it has one, that
    /// channel is retrieved and the registry is left exactly as it was: a
    /// channel is never replaced, so the observers attached earlier stay
    /// attached. No other bin's channel is affected.
    pub fn subscribe(&mut self, bin_id: u128) -> (handle: ObserverHandle)
        ensures
            final(self).channels() == old(self).channels().insert(bin_id),
            old(self).channels().contains(bin_id) ==> *final(self) == *old(self),
    {
        let tx = match registry_get(&self.channels, bin_id) {
            Some(tx) => tx,
            None => {
                let tx = sender_new(CHANNEL_CAPACITY);
                let handle = ObserverHandle { receiver: sender_subscribe(&tx) };
                registry_insert(&mut self.channels, bin_id, tx);
                return handle;
            },
        };
        assert(self.channels().insert(bin_id) =~= self.channels());
        ObserverHandle { receiver: sender_subscribe(&tx) }
    }

    /// Hands `payload` to every observer attached to the bin `bin_id` and
    /// returns how many there were.
    ///
    /// Nothing is delivered, and nothing fails, when the bin has no channel
    /// or its channel has no observer. The registry is not changed.
    pub fn publish(&self, bin_id: u128, payload: LoggedRequest) -> (delivered: usize)
        ensures
            !self.channels().contains(bin_id) ==> delivered == 0,
    {
        match registry_get(&self.channels, bin_id) {
            Some(tx) => delivered_to(sender_send(&tx, payload)),
            None => 0,
        }
    }

    /// The number of observers attached to the bin `bin_id`, or `None` for a
    /// bin without a channel.
    pub fn receiver_count(&self, bin_id: u128) -> (r: Option<usize>)
        ensures
            r is Some == self.channels().contains(bin_id),
    {
        match registry_get(&self.channels, bin_id) {
            Some(tx) => Some(sender_receiver_count(&tx)),
            None => None,
        }
    }

    /// Whether at least one observer is attached to the bin `bin_id`. A bin
    /// without a channel is never live.
    pub fn liveness(&self, bin_id: u128) -> (r: bool)
        ensures
            r ==> self.channels().contains(bin_id),
    {
        has_active_connections(self.receiver_count(bin_id))
    }

    /// Discards the channel of the bin `bin_id`, if it has one. No other
    /// bin's channel is affected.
    pub fn remove(&mut self, bin_id: u128)
        ensures
            final(self).channels() == old(self).channels().remove(bin_id),
    {
        registry_remove(&mut self.channels, bin_id);
    }
}

/// Attaches a new observer to the bin named by `bin_id`.
///
/// The identifier must be well formed; the bin itself need not exist yet. The
/// bin's channel is created if it has none, and left as it is if it has one.
/// The store is not touched.
pub fn ws_handler(state: &mut AppState, bin_id: &str) -> (r: Result<ObserverHandle, ApiError>)
    ensures
        match parsed_uuid(bin_id@) {
            Some(id) => {
                &&& r is Ok
                &&& final(state).bin_channels.channels()
                    == old(state).bin_channels.channels().insert(id)
                &&& old(state).bin_channels.channels().contains(id) ==> final(state).bin_channels
                    == old(state).bin_channels
            },
            None => fails_with(r, ErrorKind::InvalidIdentifier, "Invalid UUID format"@)
                && final(state).bin_channels == old(state).bin_channels,
        },
        final(state).db == old(state).db,
        final(state).limits == old(state).limits,
{
    match validate_bin_id(bin_id) {
        Ok(id) => Ok(state.bin_channels.subscribe(id)),
        Err(e) => Err(e),
    }
}

/// What a transport does after looking at its subscription.
#[derive(Debug)]
pub enum SocketStep {
    /// Send this capture to the client, and stop if the send fails.
    Forward(LoggedRequest),
    /// Nothing to send yet: keep the subscription and look again.
    Wait,
    /// Release the subscription and close the connection.
    Close,
}

/// Decides what a transport does with what its subscription delivered: a
/// capture is forwarded; an idle channel is waited on; a closed channel, or
/// one on which this observer has fallen behind, ends the connection.
pub fn handle_socket(received: Delivery) -> (r: SocketStep)
    ensures
        match received {
            Delivery::Message(message) => r == SocketStep::Forward(message),
            Delivery::Empty => r is Wait,
            Delivery::Lagged(_) => r is Close,
            Delivery::Closed => r is Close,
        },
{
    match received {
        Delivery::Message(message) => SocketStep::Forward(message),
        Delivery::Empty => SocketStep::Wait,
        Delivery::Lagged(_) => SocketStep::Close,
        Delivery::Closed => SocketStep::Close,
    }
}

} // verus!
