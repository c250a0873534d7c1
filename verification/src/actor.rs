//! The actors of a node: the calls they take, how large a mailbox is,
//! and how an actor that handles one call at a time runs.
//!
//! Mailboxes, handles and tasks belong to whoever runs the actors. What
//! stands here is a call and its reply, and what the runtime decides by.

use crate::error::CallError;
use tokio::sync::oneshot;
use vstd::prelude::*;

verus! {

/// `tokio::sync::oneshot::Sender`, the sending half of a channel that
/// carries one value. Nothing of its inside is known here.
#[verifier::external_type_specification]
#[verifier::external_body]
#[verifier::reject_recursive_types(T)]
pub struct ExSender<T>(oneshot::Sender<T>);

/// What a call gives back.
pub type CallResult<O> = Result<O, CallError>;

/// `oneshot::Sender::send`: hands the reply to the receiving half and
/// says whether that half was still there to take it.
#[verifier::external_body]
fn send_reply<O>(sender: oneshot::Sender<CallResult<O>>, output: CallResult<O>) -> (delivered:
    bool) {
    sender.send(output).is_ok()
}

/// `delivered` is what handing `output` to `sender` gave: whether the
/// receiving half was there to take it. Only the channel knows which of
/// the two it is; this says that it was asked, and with what.
pub closed spec fn sent<O>(
    sender: oneshot::Sender<CallResult<O>>,
    output: CallResult<O>,
    delivered: bool,
) -> bool {
    call_ensures(send_reply::<O>, (sender, output), delivered)
}

/// A call, or a union of calls, that can be answered with an error
/// whatever it holds.
pub trait CallSuperset: Sized {
    /// Answers the call with `error` and says whether the caller was
    /// still there.
    fn reply_error(self, error: CallError) -> (delivered: bool);
}

/// What goes into a call and what comes back.
pub trait CallConnectors {
    type Input;

    type Output;
}

/// A union of calls that takes the calls of type `C`.
pub trait CallInjection<C: CallConnectors>: CallSuperset {
    /// The union that holds `call`.
    spec fn injected(call: C) -> Self;

    /// Puts `call` into the union.
    fn inject(call: C) -> (union: Self)
        ensures
            union == Self::injected(call),
    ;
}

/// The channel on which the one reply to a call goes back.
#[derive(Debug)]
#[verifier::reject_recursive_types(O)]
pub struct ActorCallback<O> {
    sender: oneshot::Sender<CallResult<O>>,
}

impl<O> ActorCallback<O> {
    /// The sending half through which the callback replies.
    pub closed spec fn sender(self) -> oneshot::Sender<CallResult<O>> {
        self.sender
    }

    /// The callback was answered with `output`, and `delivered` is what
    /// its channel made of that.
    pub open spec fn replies(self, output: CallResult<O>, delivered: bool) -> bool {
        sent(self.sender(), output, delivered)
    }

    /// The callback was answered with `output`, whether or not the
    /// caller was still there.
    pub open spec fn answered(self, output: CallResult<O>) -> bool {
        exists|delivered: bool| self.replies(output, delivered)
    }

    /// The callback that replies through `sender`.
    pub fn new(sender: oneshot::Sender<CallResult<O>>) -> (callback: ActorCallback<O>)
        ensures
            callback.sender() == sender,
    {
        ActorCallback { sender }
    }

    /// Replies with `output` and says whether the caller was still there.
    pub fn reply(self, output: CallResult<O>) -> (delivered: bool)
        ensures
            self.replies(output, delivered),
    {
        send_reply(self.sender, output)
    }

    /// Replies with success.
    pub fn reply_ok(self, output: O) -> (delivered: bool)
        ensures
            self.replies(Ok(output), delivered),
    {
        self.reply(Ok(output))
    }
}

impl<O> CallSuperset for ActorCallback<O> {
    /// Replies with the error.
    fn reply_error(self, error: CallError) -> (delivered: bool)
        ensures
            self.replies(Err(error), delivered),
    {
        self.reply(Err(error))
    }
}

/// A call: its input, and the channel for its one reply.
#[derive(Debug)]
#[verifier::reject_recursive_types(O)]
pub struct ActorCall<I, O> {
    pub input: I,
    pub back: ActorCallback<O>,
}

impl<I, O> ActorCall<I, O> {
    /// The call was answered with `error` on its own channel, and
    /// `delivered` is what the channel made of that.
    pub open spec fn replies_error(self, error: CallError, delivered: bool) -> bool {
        self.back.replies(Err(error), delivered)
    }
}

impl<I, O> CallSuperset for ActorCall<I, O> {
    /// Replies with the error on the channel of the call.
    fn reply_error(self, error: CallError) -> (delivered: bool)
        ensures
            self.replies_error(error, delivered),
    {
        self.back.reply_error(error)
    }
}

impl<I, O> CallConnectors for ActorCall<I, O> {
    type Input = I;

    type Output = O;
}

impl<I, O> CallInjection<ActorCall<I, O>> for ActorCall<I, O> {
    open spec fn injected(call: ActorCall<I, O>) -> ActorCall<I, O> {
        call
    }

    fn inject(call: ActorCall<I, O>) -> (union: ActorCall<I, O>) {
        call
    }
}

/// The number of calls that a mailbox holds unless told otherwise.
pub const DEFAULT_CHANNEL_SIZE: usize = 10;

/// How an actor is spawned: the capacity of its mailbox.
#[derive(Debug, Clone, Copy, PartialEq, Eq, Structural)]
pub struct ActorOptions {
    pub channel_size: usize,
}

impl ActorOptions {
    /// Options with a mailbox of ten calls.
    pub fn new() -> (options: ActorOptions)
        ensures
            options.channel_size == DEFAULT_CHANNEL_SIZE,
    {
        ActorOptions { channel_size: DEFAULT_CHANNEL_SIZE }
    }

    /// Sets the capacity of the mailbox.
    pub fn set_channel_size(&mut self, size: usize)
        ensures
            final(self).channel_size == size,
    {
        self.channel_size = size;
    }

    /// The options with the capacity of the mailbox set.
    pub fn with_channel_size(self, size: usize) -> (options: ActorOptions)
        ensures
            options.channel_size == size,
    {
        ActorOptions { channel_size: size }
    }
}

/// What an actor that waits for its next call wakes up to.
#[derive(Debug, Clone, Copy, PartialEq, Eq, Structural)]
pub enum Wake {
    /// The node is shutting down.
    Cancelled,
    /// Every handle to the mailbox is gone.
    InboxClosed,
    /// A call came in.
    Call,
}

/// What an actor does after one turn of its loop.
#[derive(Debug, Clone, Copy, PartialEq, Eq, Structural)]
pub enum Turn {
    /// Handle the call that came in.
    Dispatch,
    /// Wait for the next call.
    Continue,
    /// End the actor without a failure.
    Exit,
    /// End the actor with the failure of its handler.
    Fail,
}

/// What an actor does on waking up: it ends cleanly when the node shuts
/// down or its mailbox is closed, and handles the call otherwise.
pub fn on_wake(wake: Wake) -> (turn: Turn)
    ensures
        turn == match wake {
            Wake::Cancelled => Turn::Exit,
            Wake::InboxClosed => Turn::Exit,
            Wake::Call => Turn::Dispatch,
        },
{
    match wake {
        Wake::Cancelled => Turn::Exit,
        Wake::InboxClosed => Turn::Exit,
        Wake::Call => Turn::Dispatch,
    }
}

/// What an actor does once its handler is through with a call: it goes
/// on where the handler succeeded, and ends with the failure otherwise.
pub fn on_handled(handler_failed: bool) -> (turn: Turn)
    ensures
        turn == if handler_failed {
            Turn::Fail
        } else {
            Turn::Continue
        },
{
    if handler_failed {
        Turn::Fail
    } else {
        Turn::Continue
    }
}

} // verus!
