//! Message kinds, and what a received reply comes to.

use vstd::prelude::*;

verus! {

/// The kinds of message on the bus.
#[derive(Clone, Copy, Debug, PartialEq, Eq, Structural)]
pub enum MessageType {
    /// Not a valid message.
    Invalid,
    /// A method call.
    MethodCall,
    /// The reply to a method call.
    MethodReturn,
    /// An error reply to a method call.
    Error,
    /// A signal emission.
    Signal,
}

/// What becomes of the answer to a call sent with a reply expected.
#[derive(Clone, Copy, Debug, PartialEq, Eq, Structural)]
pub enum ReplyAction {
    /// Hand the transport's own error, unchanged, to the caller.
    LocalError,
    /// Turn the error message into the remote error and hand that over.
    RemoteError,
    /// Hand the reply message over; its body is the result.
    Deliver,
}

/// Decides what the answer to a call comes to: the transport's own error if
/// it reported one; otherwise the remote error when the answer is an error
/// message; otherwise the answer itself.
pub fn reply_action(local_error: bool, message_type: MessageType) -> (r: ReplyAction)
    ensures
        local_error ==> r == ReplyAction::LocalError,
        !local_error && message_type == MessageType::Error ==> r == ReplyAction::RemoteError,
        !local_error && message_type != MessageType::Error ==> r == ReplyAction::Deliver,
{
    if local_error {
        ReplyAction::LocalError
    } else if message_type == MessageType::Error {
        ReplyAction::RemoteError
    } else {
        ReplyAction::Deliver
    }
}

} // verus!
