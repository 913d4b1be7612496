//! The sending halves of the bounded channels to other tasks, and what each
//! sender has queued on its channel.
//!
//! A sender is opaque; what it has queued, oldest first, is named for each
//! kind of message the shell sends. Messages that the other task has taken
//! off the channel stay in that record: it is the history of this sender,
//! not the current contents of the channel.

use vstd::prelude::*;
use crate::dbus::DbusSignal;
use crate::launcher::SearchMessage;
use crate::sway::SwayTask;

verus! {

#[verifier::external_type_specification]
#[verifier::external_body]
#[verifier::reject_recursive_types(T)]
pub struct ExSender<T>(futures::channel::mpsc::Sender<T>);

/// The tasks a sender to the sway connection has queued, oldest first.
pub uninterp spec fn tasks_queued(sender: futures::channel::mpsc::Sender<SwayTask>) -> Seq<SwayTask>;

/// The signal requests a sender to the D-Bus task has queued, oldest first.
pub uninterp spec fn signals_queued(sender: futures::channel::mpsc::Sender<DbusSignal>) -> Seq<
    DbusSignal,
>;

/// The messages a sender to the search worker has queued, oldest first.
pub uninterp spec fn searches_queued(sender: futures::channel::mpsc::Sender<SearchMessage>) -> Seq<
    SearchMessage,
>;

/// Queues `task` for the sway connection without waiting; whether it was
/// queued.
///
/// Trusted: `futures::channel::mpsc::Sender::try_send`. On `Ok` it has pushed
/// the message onto the channel's queue; on `Err` (the receiver is gone or
/// the channel is full) it hands the message back in the error and queues
/// nothing. Which of the two happens depends on the state of the channel.
#[verifier::external_body]
pub(crate) fn try_send_task(
    sender: &mut futures::channel::mpsc::Sender<SwayTask>,
    task: SwayTask,
) -> (queued: bool)
    ensures
        queued ==> tasks_queued(*final(sender)) == tasks_queued(*old(sender)).push(task),
        !queued ==> tasks_queued(*final(sender)) == tasks_queued(*old(sender)),
{
    sender.try_send(task).is_ok()
}

/// Queues `signal` for the D-Bus task without waiting; whether it was
/// queued.
///
/// Trusted: `futures::channel::mpsc::Sender::try_send`, as for
/// [`try_send_task`]: the message is pushed onto the queue exactly when the
/// call succeeds.
#[verifier::external_body]
pub(crate) fn try_send_signal(
    sender: &mut futures::channel::mpsc::Sender<DbusSignal>,
    signal: DbusSignal,
) -> (queued: bool)
    ensures
        queued ==> signals_queued(*final(sender)) == signals_queued(*old(sender)).push(signal),
        !queued ==> signals_queued(*final(sender)) == signals_queued(*old(sender)),
{
    sender.try_send(signal).is_ok()
}

/// Queues `message` for the search worker without waiting; whether it was
/// queued.
///
/// Trusted: `futures::channel::mpsc::Sender::try_send`, as for
/// [`try_send_task`]: the message is pushed onto the queue exactly when the
/// call succeeds.
#[verifier::external_body]
pub(crate) fn try_send_search(
    sender: &mut futures::channel::mpsc::Sender<SearchMessage>,
    message: SearchMessage,
) -> (queued: bool)
    ensures
        queued ==> searches_queued(*final(sender)) == searches_queued(*old(sender)).push(message),
        !queued ==> searches_queued(*final(sender)) == searches_queued(*old(sender)),
{
    sender.try_send(message).is_ok()
}

/// Another sender to the same channel.
///
/// Trusted: `Clone::clone` of `futures::channel::mpsc::Sender`, which makes a
/// new sender for the same channel; nothing is stated of it.
#[verifier::external_body]
pub(crate) fn clone_sender<T>(sender: &futures::channel::mpsc::Sender<T>) -> futures::channel::mpsc::Sender<T> {
    sender.clone()
}

} // verus!
