//! The reactor as contracts speak of it: the completions that the ring reports, the
//! states of the server, and the transitions between them.
//!
//! [`ServerView::outcome`] and [`ServerView::steps_to`] are the transition table: for
//! each state of a connection and each result of its completed operation, what is
//! to be done and in what state the server is left.

use crate::encoder::{descriptor, ring_len, Operation};
use crate::error::ServerError;
use crate::response::reply_to;
use vstd::prelude::*;

verus! {

/// Number of bytes in a receive buffer.
pub const RECEIVE_CAPACITY: usize = 2048;

/// One completed operation, as the ring reports it.
#[derive(Clone, Copy, PartialEq, Eq, Debug, Structural)]
pub struct Completion {
    /// The correlation identifier that the operation was submitted with.
    pub user_data: u64,
    /// The operation's result: the new descriptor of an accept, the number of bytes of
    /// a receive or a send, or a negative error code.
    pub result: i32,
}

impl Completion {
    /// The descriptor that the completion belongs to, if its correlation identifier
    /// stands for one.
    pub open spec fn fd(self) -> Option<i32> {
        descriptor(self.user_data)
    }
}

/// Why a connection was ended.
#[derive(Clone, Copy, PartialEq, Eq, Debug, Structural)]
pub enum CloseReason {
    /// The peer shut the connection down: a receive completed with no bytes.
    PeerClosed,
    /// A receive completed with a negative result.
    ReceiveFailed,
    /// A send completed with a negative result.
    SendFailed,
}

/// A connection's state as contracts speak of it.
pub enum Phase {
    /// The listening descriptor.
    Listening,
    /// A readiness check is in flight.
    AwaitingReadability,
    /// A receive is in flight into a buffer that holds `buffer`.
    Receiving { buffer: Seq<u8> },
    /// A send of the pending response is in flight.
    Sending,
}

/// A step as contracts speak of it: without the ring's entry.
pub enum Effect {
    /// The operation is to be submitted.
    Submit(Operation),
    /// The descriptor is to be closed.
    Close { fd: i32, reason: CloseReason },
}

/// The bytes that a receive with a positive `result` left in `buffer`.
pub open spec fn received(buffer: Seq<u8>, result: i32) -> Seq<u8>
    recommends
        result > 0,
{
    if result <= buffer.len() {
        buffer.subrange(0, result as int)
    } else {
        buffer
    }
}

/// The reactor's state as contracts speak of it.
#[verifier::ext_equal]
pub struct ServerView {
    /// The listening descriptor.
    pub listener: i32,
    /// Whether an accept is due: none has been handed out yet, or one has completed
    /// and the next one is not yet handed out.
    pub accept_due: bool,
    /// The correlation table.
    pub states: Map<i32, Phase>,
    /// The responses that wait to be sent, each under its connection's descriptor.
    pub pending: Map<i32, Seq<u8>>,
    /// The body of a response to the root request.
    pub document: Seq<u8>,
    /// The body of a response to any other request.
    pub not_found: Seq<u8>,
}

impl ServerView {
    /// The state of a server that was made for `listener` and has done nothing yet:
    /// both tables are empty, and the first accept is due. The listening descriptor
    /// enters the table when its first accept is handed out.
    pub open spec fn initial(listener: i32, document: Seq<u8>, not_found: Seq<u8>) -> ServerView {
        ServerView {
            listener,
            accept_due: true,
            states: Map::empty(),
            pending: Map::empty(),
            document,
            not_found,
        }
    }

    /// The state of the connection that `completion` belongs to, or `None` where the
    /// correlation table holds no such connection.
    pub open spec fn phase_of(self, completion: Completion) -> Option<Phase> {
        match completion.fd() {
            Some(fd) => if self.states.contains_key(fd) {
                Some(self.states[fd])
            } else {
                None
            },
            None => None,
        }
    }

    /// This state without the connection `fd`, in either table.
    pub open spec fn without(self, fd: i32) -> ServerView {
        ServerView { states: self.states.remove(fd), pending: self.pending.remove(fd), ..self }
    }

    /// The response to what a receive with a positive `result` left in `buffer`.
    pub open spec fn reply(self, buffer: Seq<u8>, result: i32) -> Seq<u8> {
        reply_to(self.document, self.not_found, received(buffer, result))
    }

    /// What handling `completion` in this state returns.
    pub open spec fn outcome(self, completion: Completion) -> Result<Effect, ServerError> {
        match self.phase_of(completion) {
            None => Err(ServerError::UnknownCorrelation),
            Some(phase) => {
                let fd = completion.fd().unwrap();
                match phase {
                    Phase::Listening => if completion.result < 0 {
                        Err(ServerError::AcceptFailed)
                    } else {
                        Ok(Effect::Submit(Operation::PollReadable { fd: completion.result }))
                    },
                    Phase::AwaitingReadability => Ok(
                        Effect::Submit(Operation::Receive { fd, len: RECEIVE_CAPACITY as u32 }),
                    ),
                    Phase::Receiving { buffer } => if completion.result > 0 {
                        Ok(
                            Effect::Submit(
                                Operation::Send {
                                    fd,
                                    len: ring_len(self.reply(buffer, completion.result).len()),
                                },
                            ),
                        )
                    } else if completion.result == 0 {
                        Ok(Effect::Close { fd, reason: CloseReason::PeerClosed })
                    } else {
                        Ok(Effect::Close { fd, reason: CloseReason::ReceiveFailed })
                    },
                    Phase::Sending => if completion.result >= 0 {
                        Ok(Effect::Submit(Operation::PollReadable { fd }))
                    } else {
                        Ok(Effect::Close { fd, reason: CloseReason::SendFailed })
                    },
                }
            },
        }
    }

    /// Whether handling `completion` in this state may leave the state `next`. All of
    /// `next` is fixed by this state and the completion, except for what a receive
    /// buffer holds that the step allocates: that is the kernel's to write.
    pub open spec fn steps_to(self, completion: Completion, next: ServerView) -> bool {
        match self.phase_of(completion) {
            None => next == self,
            Some(phase) => {
                let fd = completion.fd().unwrap();
                match phase {
                    Phase::Listening => if completion.result < 0 {
                        next == self
                    } else {
                        next == (ServerView {
                            accept_due: true,
                            states: self.states.insert(
                                completion.result,
                                Phase::AwaitingReadability,
                            ),
                            ..self
                        })
                    },
                    Phase::AwaitingReadability => {
                        &&& next.states.contains_key(fd)
                        &&& next.states[fd] matches Phase::Receiving { buffer }
                        &&& buffer.len() == RECEIVE_CAPACITY
                        &&& next == (ServerView {
                            states: self.states.insert(fd, next.states[fd]),
                            ..self
                        })
                    },
                    Phase::Receiving { buffer } => if completion.result > 0 {
                        next == (ServerView {
                            states: self.states.insert(fd, Phase::Sending),
                            pending: self.pending.insert(
                                fd,
                                self.reply(buffer, completion.result),
                            ),
                            ..self
                        })
                    } else {
                        next == self.without(fd)
                    },
                    Phase::Sending => if completion.result >= 0 {
                        next == (ServerView {
                            states: self.states.insert(fd, Phase::AwaitingReadability),
                            pending: self.pending.remove(fd),
                            ..self
                        })
                    } else {
                        next == self.without(fd)
                    },
                }
            },
        }
    }

    /// The accept that the start of a loop iteration hands out in this state, if one is
    /// due.
    pub open spec fn rearm_operation(self) -> Option<Operation> {
        if self.accept_due {
            Some(Operation::Accept { fd: self.listener })
        } else {
            None
        }
    }

    /// This state after the start of a loop iteration. Where an accept was due it has
    /// been handed out, and the table holds the listening descriptor for it.
    pub open spec fn rearmed(self) -> ServerView {
        if self.accept_due {
            ServerView {
                accept_due: false,
                states: self.states.insert(self.listener, Phase::Listening),
                ..self
            }
        } else {
            self
        }
    }
}

} // verus!
