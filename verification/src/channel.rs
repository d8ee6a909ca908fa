//! The channel between the pool's owner and its workers: a first-in,
//! first-out queue of messages that knows which of its two sides still exist.

use std::collections::VecDeque;
use vstd::prelude::*;
use crate::message::Message;

verus! {

/// Why a message could not be sent: no receiving handle is left.  The message
/// comes back to the sender unchanged.
pub struct SendError<J> {
    pub message: Message<J>,
}

/// Why no message was handed out.
#[derive(Clone, Copy, Debug, PartialEq, Eq, Structural)]
pub enum RecvError {
    /// Nothing is queued, but the sending side is still there: a message may
    /// come later.
    Empty,
    /// Nothing is queued and the sending side is gone: no message will ever
    /// come.
    Disconnected,
}

/// What a channel is, mathematically.
pub struct ChannelView<J> {
    /// The messages sent and not yet received, oldest first.
    pub queue: Seq<Message<J>>,
    /// Whether the sending handle still exists.
    pub sender_alive: bool,
    /// How many receiving handles exist.
    pub receivers: nat,
}

/// The pool's job queue: an unbounded first-in, first-out channel of
/// messages with one sending handle and any number of receiving handles.
///
/// The value is the channel's shared state.  A program with several threads
/// keeps it behind a lock, so that each operation below is one atomic step.
pub struct Channel<J> {
    queue: VecDeque<Message<J>>,
    sender_alive: bool,
    receivers: usize,
}

impl<J> View for Channel<J> {
    type V = ChannelView<J>;

    closed spec fn view(&self) -> ChannelView<J> {
        ChannelView {
            queue: self.queue@,
            sender_alive: self.sender_alive,
            receivers: self.receivers as nat,
        }
    }
}

impl<J> Channel<J> {
    /// A new, empty channel with its sending handle and one receiving handle.
    pub fn new() -> (channel: Channel<J>)
        ensures
            channel@.queue == Seq::<Message<J>>::empty(),
            channel@.sender_alive,
            channel@.receivers == 1,
    {
        Channel { queue: VecDeque::new(), sender_alive: true, receivers: 1 }
    }

    /// Appends `message` to the queue.  Fails, handing the message back and
    /// changing nothing, exactly when no receiving handle is left.
    pub fn send(&mut self, message: Message<J>) -> (sent: Result<(), SendError<J>>)
        ensures
            old(self)@.receivers == 0 ==> sent == Err::<(), SendError<J>>(SendError { message })
                && final(self)@ == old(self)@,
            old(self)@.receivers > 0 ==> sent is Ok && final(self)@ == (ChannelView {
                queue: old(self)@.queue.push(message),
                ..old(self)@
            }),
    {
        if self.receivers == 0 {
            Err(SendError { message })
        } else {
            self.queue.push_back(message);
            Ok(())
        }
    }

    /// Takes the oldest queued message.  With nothing queued it changes
    /// nothing and says whether a message may still come.
    pub fn recv(&mut self) -> (received: Result<Message<J>, RecvError>)
        ensures
            old(self)@.queue.len() > 0 ==> received == Ok::<Message<J>, RecvError>(
                old(self)@.queue[0],
            ) && final(self)@ == (ChannelView {
                queue: old(self)@.queue.drop_first(),
                ..old(self)@
            }),
            old(self)@.queue.len() == 0 ==> final(self)@ == old(self)@ && received == Err::<
                Message<J>,
                RecvError,
            >(if old(self)@.sender_alive { RecvError::Empty } else { RecvError::Disconnected }),
    {
        match self.queue.pop_front() {
            Some(message) => Ok(message),
            None => if self.sender_alive {
                Err(RecvError::Empty)
            } else {
                Err(RecvError::Disconnected)
            },
        }
    }

    /// How many messages are queued.
    pub fn pending(&self) -> (count: usize)
        ensures
            count == self@.queue.len(),
    {
        self.queue.len()
    }

    /// How many receiving handles exist.
    pub fn receivers(&self) -> (count: usize)
        ensures
            count == self@.receivers,
    {
        self.receivers
    }

    /// Whether the sending handle still exists.
    pub fn sender_alive(&self) -> (alive: bool)
        ensures
            alive == self@.sender_alive,
    {
        self.sender_alive
    }

    /// Records one more receiving handle.  The count stays where it is only
    /// when it cannot grow.
    pub fn attach_receiver(&mut self)
        ensures
            final(self)@ == (ChannelView {
                receivers: if old(self)@.receivers < usize::MAX {
                    old(self)@.receivers + 1
                } else {
                    old(self)@.receivers
                },
                ..old(self)@
            }),
    {
        if self.receivers < usize::MAX {
            self.receivers = self.receivers + 1;
        }
    }

    /// Records that one receiving handle is gone, if any was left.
    pub fn detach_receiver(&mut self)
        ensures
            final(self)@ == (ChannelView {
                receivers: if old(self)@.receivers > 0 {
                    (old(self)@.receivers - 1) as nat
                } else {
                    0
                },
                ..old(self)@
            }),
    {
        if self.receivers > 0 {
            self.receivers = self.receivers - 1;
        }
    }

    /// Records that the sending handle is gone.  Queued messages stay.
    pub fn close_sender(&mut self)
        ensures
            final(self)@ == (ChannelView { sender_alive: false, ..old(self)@ }),
    {
        self.sender_alive = false;
    }
}

} // verus!
