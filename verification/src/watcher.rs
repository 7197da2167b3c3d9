//! The handle through which callers queue requests to the registry.

use vstd::prelude::*;
use std::sync::mpsc::Sender;
use crate::event::{Error, ErrorModel};
use crate::registry::{Action, ActionModel};

verus! {

/// The sending half of a channel of the standard library.
#[verifier::external_type_specification]
#[verifier::external_body]
#[verifier::reject_recursive_types(T)]
pub struct ExSender<T>(Sender<T>);

/// Calls `std::sync::mpsc::Sender::send` and tells whether the value was
/// taken. Trusted, and nothing is claimed of the result: whether the channel
/// still has its receiver is not for the sender to know. A send does not
/// block and does not panic: a channel without receiver hands the value back.
#[verifier::external_body]
fn send_action(tx: &Sender<Action>, action: Action) -> (delivered: bool)
    opens_invariants none
    no_unwind
{
    tx.send(action).is_ok()
}

/// The message of the error that a closed action channel gives.
pub open spec fn channel_closed_message() -> Seq<char> {
    "Error sending to internal channel"@
}

/// The request to watch `path`.
pub fn watch_action(path: &str) -> (action: Action)
    ensures
        action@ == ActionModel::Watch(path@),
{
    Action::Watch(path.to_owned())
}

/// The request to stop watching `path`.
pub fn unwatch_action(path: &str) -> (action: Action)
    ensures
        action@ == ActionModel::Unwatch(path@),
{
    Action::Unwatch(path.to_owned())
}

/// What the caller is told of a send: success where the channel took the
/// action, else the generic error with the message of a closed channel.
pub fn send_outcome(delivered: bool) -> (outcome: Result<(), Error>)
    ensures
        delivered <==> outcome is Ok,
        !delivered ==> outcome.unwrap_err()@ == ErrorModel::Generic(channel_closed_message()),
{
    if delivered {
        Ok(())
    } else {
        Err(Error::Generic("Error sending to internal channel".to_owned()))
    }
}

/// The public handle of a running registry. `watch` and `unwatch` queue an
/// action; whether the watch came about shows on the event stream. Dropping
/// the handle queues `Stop`, once.
pub struct ReadDirectoryChangesWatcher {
    tx: Sender<Action>,
}

impl ReadDirectoryChangesWatcher {
    /// Wraps the sender of the action queue that a registry drains: the
    /// handle sends on that channel and on no other.
    pub fn new(action_tx: Sender<Action>) -> (made: Result<ReadDirectoryChangesWatcher, Error>)
        ensures
            made is Ok,
            made.unwrap().channel() == action_tx,
    {
        Ok(ReadDirectoryChangesWatcher { tx: action_tx })
    }

    /// Queues `Watch(path)`. Fails, with the generic error, only where the
    /// channel did not take the action. The handle stays on its channel.
    pub fn watch(&mut self, path: &str) -> (sent: Result<(), Error>)
        ensures
            final(self).channel() == old(self).channel(),
            sent is Err ==> sent.unwrap_err()@ == ErrorModel::Generic(channel_closed_message()),
    {
        let delivered = send_action(&self.tx, watch_action(path));
        send_outcome(delivered)
    }

    /// Queues `Unwatch(path)`. Fails as `watch` does.
    pub fn unwatch(&mut self, path: &str) -> (sent: Result<(), Error>)
        ensures
            final(self).channel() == old(self).channel(),
            sent is Err ==> sent.unwrap_err()@ == ErrorModel::Generic(channel_closed_message()),
    {
        let delivered = send_action(&self.tx, unwatch_action(path));
        send_outcome(delivered)
    }

    /// The channel on which the handle sends its actions.
    pub closed spec fn channel(&self) -> Sender<Action> {
        self.tx
    }
}

impl Drop for ReadDirectoryChangesWatcher {
    /// Queues `Stop`. A channel that no longer takes it has no registry left
    /// to stop.
    fn drop(&mut self)
        opens_invariants none
        no_unwind
    {
        let _ = send_action(&self.tx, Action::Stop);
    }
}

} // verus!
