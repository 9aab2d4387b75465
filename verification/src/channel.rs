use vstd::prelude::*;
use crossbeam::channel::{Receiver, Sender};
use crate::utils::enums::AppMessage;

verus! {

/// `crossbeam::channel::Sender`, the end of a channel at which messages go in.
#[verifier::external_type_specification]
#[verifier::external_body]
#[verifier::reject_recursive_types(T)]
pub struct ExSender<T>(Sender<T>);

/// `crossbeam::channel::Receiver`, the end of a channel at which messages
/// come out.
#[verifier::external_type_specification]
#[verifier::external_body]
#[verifier::reject_recursive_types(T)]
pub struct ExReceiver<T>(Receiver<T>);

/// Whether the channel behind `tx` was made without a bound on the number
/// of messages that it holds, so that it is never full.
pub uninterp spec fn never_full(tx: Sender<AppMessage>) -> bool;

/// Whether `tx` and `rx` are the two ends of one channel.
pub uninterp spec fn same_channel(tx: Sender<AppMessage>, rx: Receiver<AppMessage>) -> bool;

/// `crossbeam::channel::unbounded`: the two ends of one new channel that
/// holds any number of messages.
#[verifier::external_body]
pub(crate) fn new_channel() -> (ends: (Sender<AppMessage>, Receiver<AppMessage>))
    ensures
        never_full(ends.0),
        same_channel(ends.0, ends.1),
{
    crossbeam::channel::unbounded()
}

/// `Receiver::try_recv`: the message at the head of the channel, taken off
/// it, or `None` where none waits or no sender is left. It does not wait.
/// What comes back depends on what was sent, so nothing is claimed of it.
#[verifier::external_body]
pub(crate) fn try_receive(rx: &Receiver<AppMessage>) -> (received: Option<AppMessage>) {
    rx.try_recv().ok()
}

/// `Sender::send`: puts `message` on the channel and says whether it did.
/// On a channel that can be full the method waits, so the contract asks for
/// one that cannot. The method fails only on a channel that is
/// disconnected, which a channel with a sender is once its last receiver is
/// gone. So the message is delivered where the caller has a receiver of the
/// same channel at hand (`held`), which cannot be gone during the call;
/// without one, nothing is claimed of the result.
#[verifier::external_body]
pub(crate) fn send_message(
    tx: &Sender<AppMessage>,
    held: Option<&Receiver<AppMessage>>,
    message: AppMessage,
) -> (delivered: bool)
    requires
        never_full(*tx),
    ensures
        match held {
            Some(rx) => same_channel(*tx, *rx) ==> delivered,
            None => true,
        },
{
    tx.send(message).is_ok()
}

} // verus!
