//! Broadcast fanout over `tokio::sync::broadcast`: publish to every current
//! subscriber, dropping the event when there is none.
use vstd::prelude::*;

verus! {

#[verifier::external_type_specification]
#[verifier::external_body]
#[verifier::reject_recursive_types(T)]
pub struct ExBroadcastSender<T>(tokio::sync::broadcast::Sender<T>);

#[verifier::external_type_specification]
#[verifier::external_body]
#[verifier::reject_recursive_types(T)]
pub struct ExBroadcastReceiver<T>(tokio::sync::broadcast::Receiver<T>);

/// Default buffered capacity of a fanout channel.
pub const DEFAULT_CAPACITY: usize = 1024;

/// `tokio::sync::broadcast::channel`, keeping the sender; the receiver it
/// also makes is dropped at once, so the channel starts with no
/// subscriber. It panics on a capacity of 0 or above `usize::MAX / 2`, which
/// `requires` leaves out; the sender is opaque.
#[verifier::external_body]
fn broadcast_sender<T: Clone>(capacity: usize) -> (r: tokio::sync::broadcast::Sender<T>)
    requires
        0 < capacity <= usize::MAX / 2,
{
    let (tx, _rx) = tokio::sync::broadcast::channel(capacity);
    tx
}

/// `broadcast::Sender::send`: `None` when the channel has no receiver,
/// else the number of receivers it reached, at least one (the source
/// returns the error exactly when the receiver count is 0). The count
/// changes as receivers come and go, so it is not named.
#[verifier::external_body]
fn broadcast_send<T>(tx: &tokio::sync::broadcast::Sender<T>, value: T) -> (r: Option<usize>)
    ensures
        r matches Some(n) ==> n >= 1,
{
    match tx.send(value) {
        Ok(n) => Some(n),
        Err(_) => None,
    }
}

/// `broadcast::Sender::subscribe`: a receiver of the values sent after the
/// call. The receiver is opaque. It panics when the channel already has
/// `usize::MAX >> 2` receivers, a count that no memory can hold (each
/// receiver is a live value).
#[verifier::external_body]
fn broadcast_subscribe<T>(tx: &tokio::sync::broadcast::Sender<T>) -> (r: tokio::sync::broadcast::Receiver<T>) {
    tx.subscribe()
}

/// `broadcast::Sender::receiver_count`: the number of live receivers,
/// which other tasks change by subscribing and dropping, so nothing is
/// stated of it.
#[verifier::external_body]
fn broadcast_receiver_count<T>(tx: &tokio::sync::broadcast::Sender<T>) -> (r: usize) {
    tx.receiver_count()
}

/// What a publish reports for the outcome of the send: the number of
/// receivers reached, or 0 when the send found no receiver.
pub fn published_count(sent: Option<usize>) -> (r: usize)
    ensures
        r == match sent {
            Some(n) => n,
            None => 0,
        },
{
    match sent {
        Some(n) => n,
        None => 0,
    }
}

/// Typed broadcast fanout. Publishing with no subscriber drops the event;
/// a lagging receiver is told so by its own `recv` and keeps going.
#[verifier::reject_recursive_types(T)]
pub struct FanoutChannel<T: Clone + Send + 'static> {
    tx: tokio::sync::broadcast::Sender<T>,
}

impl<T: Clone + Send + 'static> FanoutChannel<T> {
    /// A channel buffering up to `cap` events per receiver (rounded up to
    /// a power of two); `cap` must be positive and at most `usize::MAX / 2`.
    pub fn with_capacity(cap: usize) -> (r: Self)
        requires
            0 < cap <= usize::MAX / 2,
    {
        FanoutChannel { tx: broadcast_sender(cap) }
    }

    /// Send to every current subscriber: the number reached, at least one,
    /// or 0 when there is no subscriber (normal operation).
    pub fn publish(&self, value: T) -> (r: usize) {
        let sent = broadcast_send(&self.tx, value);
        published_count(sent)
    }

    /// A new subscription, receiving what is published after this call.
    pub fn subscribe(&self) -> (r: tokio::sync::broadcast::Receiver<T>) {
        broadcast_subscribe(&self.tx)
    }

    /// The number of live subscriptions.
    pub fn receiver_count(&self) -> (r: usize) {
        broadcast_receiver_count(&self.tx)
    }
}

} // verus!
