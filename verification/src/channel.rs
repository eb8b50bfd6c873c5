//! The fan-out channel of a room: `tokio`'s broadcast channel of text frames.
//!
//! The channel is shared with every task that holds one of its ends, so no
//! contract here says what it holds or how many receivers it has.

use tokio::sync::broadcast::{Receiver, Sender};
use vstd::prelude::*;

verus! {

/// `tokio::sync::broadcast::Sender`, the end of a channel that publishes.
#[verifier::external_type_specification]
#[verifier::external_body]
#[verifier::reject_recursive_types(T)]
pub struct ExSender<T>(Sender<T>);

/// `tokio::sync::broadcast::Receiver`, an end of a channel that is handed
/// every frame published after it was made.
#[verifier::external_type_specification]
#[verifier::external_body]
#[verifier::reject_recursive_types(T)]
pub struct ExReceiver<T>(Receiver<T>);

/// Calls `tokio::sync::broadcast::Sender::new`, which makes a channel that
/// keeps up to `capacity` frames for a slow receiver and has no receiver yet.
/// It panics on a capacity of zero or above `usize::MAX / 2`, which the
/// precondition leaves out.
#[verifier::external_body]
pub(crate) fn open_channel(capacity: usize) -> (sender: Sender<String>)
    requires
        0 < capacity <= usize::MAX / 2,
{
    Sender::new(capacity)
}

/// Calls `tokio::sync::broadcast::Sender::clone`: another handle to the same
/// channel.
#[verifier::external_body]
pub(crate) fn share(sender: &Sender<String>) -> (handle: Sender<String>) {
    sender.clone()
}

/// Calls `tokio::sync::broadcast::Sender::subscribe`: a new receiver, which
/// sees the frames published from now on. The call panics only when the
/// channel already has `usize::MAX / 4` receivers, more than memory can hold.
#[verifier::external_body]
pub(crate) fn attach(sender: &Sender<String>) -> (receiver: Receiver<String>) {
    sender.subscribe()
}

/// Calls `tokio::sync::broadcast::Sender::send` and returns the number of
/// receivers that the frame was queued for: zero where `send` reports that
/// the channel has none. The count depends on who else holds the channel, so
/// nothing is claimed of it.
#[verifier::external_body]
pub(crate) fn publish(sender: &Sender<String>, frame: String) -> (receivers: usize) {
    match sender.send(frame) {
        Ok(receivers) => receivers,
        Err(_) => 0,
    }
}

} // verus!
