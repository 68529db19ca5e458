//! The two loops of a connection.
//!
//! A connection carries typed messages both ways. One loop writes what is
//! queued for the peer, one frame per message. The other reads frames and
//! forwards what they hold. A frame that cannot be understood is skipped; an
//! error of the connection ends both loops. The loops end independently when
//! their own side closes.
//!
//! The loops themselves wait on the socket and belong to the caller. What is
//! decided here is what each of them does with what happened.
use vstd::prelude::*;

verus! {

/// What the read loop got from the connection. `T` is the type of the
/// messages that the peer sends.
#[derive(Debug, Clone, PartialEq, Eq)]
pub enum Incoming<T> {
    /// A binary frame that holds a message.
    Message(T),
    /// A binary frame that holds no message of the expected type.
    Malformed,
    /// A frame that is not binary.
    Unexpected,
    /// The connection failed.
    Failed,
    /// The peer closed the connection.
    Closed,
}

/// Why a frame was skipped.
#[derive(Debug, Clone, Copy, PartialEq, Eq)]
pub enum Skipped {
    Malformed,
    Unexpected,
}

/// What the read loop does with what it got.
#[derive(Debug, Clone, PartialEq, Eq)]
pub enum ReadStep<T> {
    /// Hand the message to the consumer and go on.
    Forward(T),
    /// Note why the frame is skipped and go on.
    Skip(Skipped),
    /// End the loop.
    Stop,
}

/// What the write loop does after a write.
#[derive(Debug, Clone, Copy, PartialEq, Eq)]
pub enum WriteStep {
    /// Take the next message from the queue.
    Continue,
    /// End the loop.
    Stop,
}

/// Which of the two loops of a connection run.
#[derive(Debug, Clone, Copy, PartialEq, Eq)]
pub struct Link {
    pub reading: bool,
    pub writing: bool,
}

impl Link {
    /// The read loop's answer to `incoming`, and the link afterwards. While
    /// the loop runs, a message is forwarded, a frame that holds none is
    /// skipped, the peer's closing ends this loop, and a failure of the
    /// connection ends both. A loop that has ended stays ended.
    pub open spec fn read<T>(self, incoming: Incoming<T>) -> (Link, ReadStep<T>) {
        if !self.reading {
            (self, ReadStep::Stop)
        } else {
            match incoming {
                Incoming::Message(message) => (self, ReadStep::Forward(message)),
                Incoming::Malformed => (self, ReadStep::Skip(Skipped::Malformed)),
                Incoming::Unexpected => (self, ReadStep::Skip(Skipped::Unexpected)),
                Incoming::Failed => (Link { reading: false, writing: false }, ReadStep::Stop),
                Incoming::Closed => (Link { reading: false, ..self }, ReadStep::Stop),
            }
        }
    }

    /// The write loop's answer to the outcome of a write, and the link
    /// afterwards. The first write that fails ends the write loop and closes
    /// the receiving side with it.
    pub open spec fn written(self, ok: bool) -> (Link, WriteStep) {
        if !self.writing {
            (self, WriteStep::Stop)
        } else if ok {
            (self, WriteStep::Continue)
        } else {
            (Link { reading: false, writing: false }, WriteStep::Stop)
        }
    }

    /// A link with both loops running.
    pub fn new() -> (r: Link)
        ensures
            r == (Link { reading: true, writing: true }),
    {
        Link { reading: true, writing: true }
    }

    /// Takes what the read loop got and says what the loop does with it.
    pub fn on_incoming<T>(&mut self, incoming: Incoming<T>) -> (r: ReadStep<T>)
        ensures
            (*final(self), r) == old(self).read(incoming),
    {
        if !self.reading {
            return ReadStep::Stop;
        }
        match incoming {
            Incoming::Message(message) => ReadStep::Forward(message),
            Incoming::Malformed => ReadStep::Skip(Skipped::Malformed),
            Incoming::Unexpected => ReadStep::Skip(Skipped::Unexpected),
            Incoming::Failed => {
                self.reading = false;
                self.writing = false;
                ReadStep::Stop
            },
            Incoming::Closed => {
                self.reading = false;
                ReadStep::Stop
            },
        }
    }

    /// The consumer of the incoming messages is gone: both loops end.
    pub fn on_consumer_gone(&mut self)
        ensures
            *final(self) == (Link { reading: false, writing: false }),
    {
        self.reading = false;
        self.writing = false;
    }

    /// Takes the outcome of a write and says what the write loop does next.
    pub fn on_written(&mut self, ok: bool) -> (r: WriteStep)
        ensures
            (*final(self), r) == old(self).written(ok),
    {
        if !self.writing {
            return WriteStep::Stop;
        }
        if ok {
            WriteStep::Continue
        } else {
            self.reading = false;
            self.writing = false;
            WriteStep::Stop
        }
    }

    /// The queue of outgoing messages is closed and empty: the write loop
    /// ends, and the read loop goes on as it was.
    pub fn on_queue_closed(&mut self)
        ensures
            *final(self) == (Link { writing: false, ..*old(self) }),
    {
        self.writing = false;
    }
}

/// One frame that cannot be understood does not end the read loop: whatever
/// is skipped leaves the link as it was.
pub proof fn law_bad_frame_is_skipped<T>(link: Link, incoming: Incoming<T>)
    requires
        link.reading,
        incoming is Malformed || incoming is Unexpected,
    ensures
        link.read(incoming).0 == link,
        link.read(incoming).1 is Skip,
{
}

/// A loop that has ended does not start again: no event makes a link read or
/// write that did not before.
pub proof fn law_ended_loop_stays_ended<T>(link: Link, incoming: Incoming<T>, ok: bool)
    ensures
        link.read(incoming).0.reading ==> link.reading,
        link.read(incoming).0.writing ==> link.writing,
        link.written(ok).0.reading ==> link.reading,
        link.written(ok).0.writing ==> link.writing,
        !link.reading ==> link.read(incoming).1 is Stop,
        !link.writing ==> link.written(ok).1 is Stop,
{
}

} // verus!
