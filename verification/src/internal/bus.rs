use vstd::prelude::*;

use tokio::sync::broadcast::Receiver;
use tokio::sync::broadcast::Sender;

use crate::internal::packet::Packet;

verus! {

#[verifier::external_type_specification]
#[verifier::external_body]
#[verifier::reject_recursive_types(T)]
pub struct ExSender<T>(Sender<T>);

#[verifier::external_type_specification]
#[verifier::external_body]
#[verifier::reject_recursive_types(T)]
pub struct ExReceiver<T>(Receiver<T>);

/// What one poll of a bus subscription turned up.
pub enum BusPoll {
    /// A message was pending.
    Msg(Packet),
    /// Nothing is pending right now.
    Empty,
    /// The subscriber fell behind and this many messages were skipped.
    Lagged(u64),
    /// Every sender is gone.
    Closed,
}

/// Relies on tokio::sync::broadcast::Sender::subscribe: a fresh subscription
/// that sees only messages published after this call.
#[verifier::external_body]
pub(crate) fn bus_subscribe(s: &Sender<Packet>) -> Receiver<Packet> {
    s.subscribe()
}

/// Relies on tokio::sync::broadcast::Sender::send: it never blocks, and on
/// failure (no live subscriber) it hands the message back.
#[verifier::external_body]
pub(crate) fn bus_publish(s: &Sender<Packet>, m: Packet) -> (r: Result<usize, Packet>)
    ensures
        r matches Err(p) ==> p == m,
{
    match s.send(m) {
        Ok(n) => Ok(n),
        Err(tokio::sync::broadcast::error::SendError(p)) => Err(p),
    }
}

/// Relies on tokio::sync::broadcast::Receiver::try_recv, whose outcome
/// depends on what other tasks published: each variant is passed through.
#[verifier::external_body]
pub(crate) fn bus_try_recv(r: &mut Receiver<Packet>) -> BusPoll {
    match r.try_recv() {
        Ok(p) => BusPoll::Msg(p),
        Err(tokio::sync::broadcast::error::TryRecvError::Empty) => BusPoll::Empty,
        Err(tokio::sync::broadcast::error::TryRecvError::Lagged(n)) => BusPoll::Lagged(n),
        Err(tokio::sync::broadcast::error::TryRecvError::Closed) => BusPoll::Closed,
    }
}

} // verus!
