//! The wake-up channel towards the consumer of a job.
//!
//! Channels come from `crossbeam_channel`; nothing in this file is proved.
//! A notification carries no payload, and whether it arrives depends on the
//! receiving side alone, so the contracts here promise nothing about the
//! outcome of a send. A cloned handle is the sender it was cloned from.

use vstd::prelude::*;

verus! {

/// What a notification is about. The receiver re-polls the accessors of the
/// job of that kind to learn what changed.
#[derive(Clone, Copy, Debug, PartialEq, Eq, Structural)]
pub enum AsyncNotification {
    /// Something changed for the push job.
    Push,
}

/// `crossbeam_channel::Sender`, the sending half of a channel. It is opaque
/// to the verifier.
#[verifier::external_type_specification]
#[verifier::external_body]
#[verifier::reject_recursive_types(T)]
pub struct ExSender<T>(crossbeam_channel::Sender<T>);

/// Calls `crossbeam_channel::Sender::send`. The result tells whether the
/// message was handed to the channel; `send` fails exactly when every
/// receiver is gone, which no argument of this function decides, so nothing
/// is claimed of it. On a bounded channel `send` waits for room.
#[verifier::external_body]
pub(crate) fn send_notification(
    sender: &crossbeam_channel::Sender<AsyncNotification>,
    notification: AsyncNotification,
) -> (delivered: bool) {
    sender.send(notification).is_ok()
}

/// Calls `Clone::clone` of `crossbeam_channel::Sender`, which counts one
/// more sender of the channel and returns a handle that holds what `sender`
/// holds, the reference to that channel. The contract claims this much: the
/// handle equals `sender`, so what is sent through it goes to the channel of
/// `sender`.
#[verifier::external_body]
pub(crate) fn clone_sender(
    sender: &crossbeam_channel::Sender<AsyncNotification>,
) -> (handle: crossbeam_channel::Sender<AsyncNotification>)
    ensures
        handle == *sender,
{
    sender.clone()
}

} // verus!
