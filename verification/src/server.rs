//! The reactor's state and its transitions.
//!
//! A [`Server`] holds the correlation table, which maps each live descriptor to the
//! state of its connection, and the responses that wait to be sent. It performs no
//! I/O. The loop around it pushes the entries that the server hands out, waits on the
//! ring, and hands each completion back, in the order in which the ring reports them.

use crate::encoder::{
    descriptor_of, encode_accept, encode_poll_readable, encode_receive, encode_send, ring_len,
    Operation, Submission,
};
use crate::error::ServerError;
use crate::model::{CloseReason, Completion, Effect, Phase, ServerView, RECEIVE_CAPACITY};
use crate::response::ResponseProducer;
use std::collections::HashMap;
use vstd::prelude::*;
use vstd::slice::slice_subrange;

verus! {

broadcast use vstd::std_specs::hash::group_hash_axioms;

/// The state of one descriptor in the correlation table. It tells which operation is
/// in flight for the descriptor.
#[derive(Debug)]
pub enum ConnectionState {
    /// The listening descriptor, with an accept in flight or due.
    Listening,
    /// A readiness check is in flight; no buffer is allocated yet.
    AwaitingReadability,
    /// A receive into `buffer` is in flight. Until its completion is handled the
    /// buffer is the operation's alone: the kernel writes to it.
    Receiving { buffer: Vec<u8> },
    /// A send of the pending response is in flight.
    Sending,
}

impl View for ConnectionState {
    type V = Phase;

    open spec fn view(&self) -> Phase {
        match self {
            ConnectionState::Listening => Phase::Listening,
            ConnectionState::AwaitingReadability => Phase::AwaitingReadability,
            ConnectionState::Receiving { buffer } => Phase::Receiving { buffer: buffer@ },
            ConnectionState::Sending => Phase::Sending,
        }
    }
}

/// What the loop has to do after a completion was handled.
#[derive(Debug)]
pub enum Step {
    /// Push this entry on the submission queue.
    Submit(Submission),
    /// Close the descriptor. Its connection is gone from both tables.
    Close { fd: i32, reason: CloseReason },
}

impl Step {
    /// Whether the entry of a step that submits is one of the step's operation.
    pub open spec fn agrees(self) -> bool {
        match self {
            Step::Submit(submission) => submission.agrees(),
            Step::Close { .. } => true,
        }
    }
}

impl View for Step {
    type V = Effect;

    open spec fn view(&self) -> Effect {
        match self {
            Step::Submit(submission) => Effect::Submit(submission.operation),
            Step::Close { fd, reason } => Effect::Close { fd: *fd, reason: *reason },
        }
    }
}

/// What handling the completions of one drain of the ring came to.
pub struct Drained {
    /// The steps for the completions that were handled, in the order of the
    /// completions.
    pub steps: Vec<Step>,
    /// The fault that stopped the handling, if one did. The faulty completion and
    /// those after it have changed nothing.
    pub fault: Option<ServerError>,
    /// The states that the server went through: the one before the first completion,
    /// and the one after each completion that was handled.
    pub states: Ghost<Seq<ServerView>>,
}

/// `libc::sockaddr` for an IPv4 address, with all its address bytes zero: the value
/// that the storage for a peer's address starts with. Nothing is claimed of it.
#[verifier::external_body]
fn inet_address() -> libc::sockaddr {
    libc::sockaddr { sa_family: libc::AF_INET as libc::sa_family_t, sa_data: [0; 14] }
}

/// The size of `libc::sockaddr_in` in bytes, by `std::mem::size_of`. libc lays the
/// structure out as two 16-bit fields, one 32-bit field and eight bytes: 16 in all.
#[verifier::external_body]
fn inet_address_len() -> (len: libc::socklen_t)
    ensures
        len == 16,
{
    std::mem::size_of::<libc::sockaddr_in>() as libc::socklen_t
}

/// The storage into which an accept writes the address of the peer.
pub struct ClientSocket {
    socket: libc::sockaddr,
    socket_len: libc::socklen_t,
}

impl ClientSocket {
    /// The number of address bytes that the storage announces to an accept.
    pub closed spec fn announced_len(&self) -> u32 {
        self.socket_len
    }

    /// Storage for an IPv4 peer address, which announces the 16 bytes of such an
    /// address.
    pub fn new() -> (client: ClientSocket)
        ensures
            client.announced_len() == 16,
    {
        ClientSocket { socket: inet_address(), socket_len: inet_address_len() }
    }

    /// The number of address bytes that the storage announces to an accept.
    pub fn address_len(&self) -> (len: u32)
        ensures
            len == self.announced_len(),
    {
        self.socket_len
    }
}

/// The listening descriptor of a server: one that operations can be tagged with.
struct Listener {
    fd: i32,
}

impl Listener {
    #[verifier::type_invariant]
    spec fn is_valid(self) -> bool {
        self.fd >= 0
    }
}

/// The reactor's state: the correlation table, the pending responses, and the flag of
/// the accept loop.
///
/// The entries that a server hands out refer to storage that the server owns: the
/// peer's address, a receive buffer of the table, a pending response. All of it lives
/// on the heap, so it stays in place where the server itself is moved. The server
/// lets go of it when it handles the completion of the operation, and not before, as
/// long as what it is handed are the completions of the operations in flight.
pub struct Server {
    server_fd: Listener,
    fd_event: HashMap<i32, ConnectionState>,
    fd_response: HashMap<i32, Vec<u8>>,
    client_socket: Box<ClientSocket>,
    accept_on: bool,
    producer: ResponseProducer,
}

/// The correlation table as contracts speak of it.
spec fn states_of(table: Map<i32, ConnectionState>) -> Map<i32, Phase> {
    Map::new(|fd: i32| table.contains_key(fd), |fd: i32| table[fd]@)
}

/// The pending responses as contracts speak of them.
spec fn pending_of(responses: Map<i32, Vec<u8>>) -> Map<i32, Seq<u8>> {
    Map::new(|fd: i32| responses.contains_key(fd), |fd: i32| responses[fd]@)
}

proof fn lemma_states_insert(table: Map<i32, ConnectionState>, fd: i32, state: ConnectionState)
    ensures
        states_of(table.insert(fd, state)) == states_of(table).insert(fd, state@),
{
    assert(states_of(table.insert(fd, state)) =~= states_of(table).insert(fd, state@));
}

proof fn lemma_states_remove(table: Map<i32, ConnectionState>, fd: i32)
    ensures
        states_of(table.remove(fd)) == states_of(table).remove(fd),
{
    assert(states_of(table.remove(fd)) =~= states_of(table).remove(fd));
}

proof fn lemma_pending_insert(responses: Map<i32, Vec<u8>>, fd: i32, bytes: Vec<u8>)
    ensures
        pending_of(responses.insert(fd, bytes)) == pending_of(responses).insert(fd, bytes@),
{
    assert(pending_of(responses.insert(fd, bytes)) =~= pending_of(responses).insert(fd, bytes@));
}

proof fn lemma_pending_remove(responses: Map<i32, Vec<u8>>, fd: i32)
    ensures
        pending_of(responses.remove(fd)) == pending_of(responses).remove(fd),
{
    assert(pending_of(responses.remove(fd)) =~= pending_of(responses).remove(fd));
}

impl View for Server {
    type V = ServerView;

    closed spec fn view(&self) -> ServerView {
        ServerView {
            listener: self.server_fd.fd,
            accept_due: self.accept_on,
            states: states_of(self.fd_event@),
            pending: pending_of(self.fd_response@),
            document: self.producer.document(),
            not_found: self.producer.not_found(),
        }
    }
}

impl ServerView {
    /// Whether handling `completions` one after the other, from this state on, goes
    /// through `states` and comes to `steps`, and is stopped by `fault` if by any.
    /// `states` begins with this state and holds the state after each completion that
    /// was handled. A completion is handled only when all before it were handled
    /// without a fault, and in the state that they left.
    pub open spec fn handles(
        self,
        completions: Seq<Completion>,
        states: Seq<ServerView>,
        steps: Seq<Step>,
        fault: Option<ServerError>,
    ) -> bool {
        &&& steps.len() <= completions.len()
        &&& states.len() == steps.len() + 1
        &&& states[0] == self
        &&& forall|i: int|
            #![trigger steps[i]]
            #![trigger states[i]]
            0 <= i < steps.len() ==> {
                &&& states[i].steps_to(completions[i], states[i + 1])
                &&& states[i].outcome(completions[i]) == Ok::<Effect, ServerError>(steps[i]@)
                &&& steps[i].agrees()
            }
        &&& match fault {
            Some(e) => {
                &&& steps.len() < completions.len()
                &&& states.last().outcome(completions[steps.len() as int]) == Err::<
                    Effect,
                    ServerError,
                >(e)
            },
            None => steps.len() == completions.len(),
        }
    }
}

impl Server {
    /// A server for the listening socket `server_fd`, which is bound and listens
    /// already. Both its tables are empty, and the first accept is due: the listening
    /// descriptor enters the table when [`Server::rearm_accept`] hands that accept
    /// out.
    pub fn new(server_fd: i32, producer: ResponseProducer) -> (server: Server)
        requires
            server_fd >= 0,
        ensures
            server@ == ServerView::initial(server_fd, producer.document(), producer.not_found()),
    {
        let fd_event: HashMap<i32, ConnectionState> = HashMap::new();
        let fd_response: HashMap<i32, Vec<u8>> = HashMap::new();
        let server = Server {
            server_fd: Listener { fd: server_fd },
            fd_event,
            fd_response,
            client_socket: Box::new(ClientSocket::new()),
            accept_on: true,
            producer,
        };
        assert(server@.states =~= Map::empty());
        assert(server@.pending =~= Map::empty());
        server
    }

    /// The accept loop controller, to be called at the start of each loop iteration,
    /// before the loop waits on the ring. Where an accept is due it hands out the
    /// entry for it, once, and enters the listening descriptor in the table as the
    /// owner of the accept. The entry refers to the server's storage for the peer's
    /// address, which announces its full size anew for every accept.
    pub fn rearm_accept(&mut self) -> (submission: Option<Submission>)
        ensures
            final(self)@ == old(self)@.rearmed(),
            match submission {
                Some(s) => old(self)@.rearm_operation() == Some(s.operation) && s.agrees(),
                None => old(self)@.rearm_operation().is_none(),
            },
    {
        proof {
            use_type_invariant(&self.server_fd);
        }
        if self.accept_on {
            proof {
                lemma_states_insert(self.fd_event@, self.server_fd.fd, ConnectionState::Listening);
            }
            self.fd_event.insert(self.server_fd.fd, ConnectionState::Listening);
            *self.client_socket = ClientSocket::new();
            let submission = encode_accept(
                self.server_fd.fd,
                &mut self.client_socket.socket,
                &mut self.client_socket.socket_len,
            );
            self.accept_on = false;
            Some(submission)
        } else {
            None
        }
    }

    /// Takes the connection `fd` that an accept returned into the table, asks for its
    /// readiness check, and notes that the next accept is due.
    fn accepted(&mut self, fd: i32) -> (submission: Submission)
        requires
            fd >= 0,
        ensures
            final(self)@ == (ServerView {
                accept_due: true,
                states: old(self)@.states.insert(fd, Phase::AwaitingReadability),
                ..old(self)@
            }),
            submission.operation == (Operation::PollReadable { fd }),
            submission.agrees(),
    {
        proof {
            lemma_states_insert(self.fd_event@, fd, ConnectionState::AwaitingReadability);
        }
        self.accept_on = true;
        self.fd_event.insert(fd, ConnectionState::AwaitingReadability);
        encode_poll_readable(fd)
    }

    /// Allocates the receive buffer of `fd`, which is readable, and asks for the
    /// receive into it.
    fn readable(&mut self, fd: i32) -> (submission: Submission)
        requires
            fd >= 0,
        ensures
            final(self)@.states.contains_key(fd),
            final(self)@.states[fd] matches Phase::Receiving { buffer } && buffer.len()
                == RECEIVE_CAPACITY,
            final(self)@ == (ServerView {
                states: old(self)@.states.insert(fd, final(self)@.states[fd]),
                ..old(self)@
            }),
            submission.operation == (Operation::Receive { fd, len: RECEIVE_CAPACITY as u32 }),
            submission.agrees(),
    {
        let mut buffer: Vec<u8> = vec![0u8; RECEIVE_CAPACITY];
        let submission = encode_receive(fd, &mut buffer);
        let state = ConnectionState::Receiving { buffer };
        proof {
            lemma_states_insert(self.fd_event@, fd, state);
        }
        self.fd_event.insert(fd, state);
        submission
    }

    /// Keeps `reply` as the pending response of `fd` and asks for it to be sent.
    fn respond(&mut self, fd: i32, reply: Vec<u8>) -> (submission: Submission)
        requires
            fd >= 0,
        ensures
            final(self)@ == (ServerView {
                states: old(self)@.states.insert(fd, Phase::Sending),
                pending: old(self)@.pending.insert(fd, reply@),
                ..old(self)@
            }),
            submission.operation == (Operation::Send { fd, len: ring_len(reply@.len()) }),
            submission.agrees(),
    {
        let submission = encode_send(fd, &reply);
        proof {
            lemma_states_insert(self.fd_event@, fd, ConnectionState::Sending);
            lemma_pending_insert(self.fd_response@, fd, reply);
        }
        self.fd_response.insert(fd, reply);
        self.fd_event.insert(fd, ConnectionState::Sending);
        submission
    }

    /// Discards the response of `fd`, which is sent, and asks for the readiness check
    /// that waits for the connection's next request.
    fn sent(&mut self, fd: i32) -> (submission: Submission)
        requires
            fd >= 0,
        ensures
            final(self)@ == (ServerView {
                states: old(self)@.states.insert(fd, Phase::AwaitingReadability),
                pending: old(self)@.pending.remove(fd),
                ..old(self)@
            }),
            submission.operation == (Operation::PollReadable { fd }),
            submission.agrees(),
    {
        proof {
            lemma_states_insert(self.fd_event@, fd, ConnectionState::AwaitingReadability);
            lemma_pending_remove(self.fd_response@, fd);
        }
        self.fd_response.remove(&fd);
        self.fd_event.insert(fd, ConnectionState::AwaitingReadability);
        encode_poll_readable(fd)
    }

    /// Removes the connection `fd` from both tables.
    fn forget(&mut self, fd: i32)
        ensures
            final(self)@ == old(self)@.without(fd),
    {
        proof {
            lemma_states_remove(self.fd_event@, fd);
            lemma_pending_remove(self.fd_response@, fd);
        }
        self.fd_event.remove(&fd);
        self.fd_response.remove(&fd);
    }

    /// Handles the completions of one drain of the ring, strictly in the order in
    /// which the ring reported them, each as [`Server::on_completion`] does. The
    /// first fault stops the handling: what came before it stays handled, the faulty
    /// completion and those after it change nothing.
    pub fn on_completions(&mut self, completions: &[Completion]) -> (drained: Drained)
        ensures
            old(self)@.handles(completions@, drained.states@, drained.steps@, drained.fault),
            drained.states@.last() == final(self)@,
    {
        let mut steps: Vec<Step> = Vec::new();
        let ghost mut states: Seq<ServerView> = seq![self@];
        let mut i: usize = 0;
        while i < completions.len()
            invariant
                i <= completions@.len(),
                states.last() == self@,
                old(self)@.handles(completions@.take(i as int), states, steps@, None),
            decreases completions@.len() - i,
        {
            match self.on_completion(completions[i]) {
                Ok(step) => {
                    steps.push(step);
                    proof {
                        states = states.push(self@);
                    }
                },
                Err(fault) => {
                    return Drained { steps, fault: Some(fault), states: Ghost(states) };
                },
            }
            i += 1;
        }
        assert(completions@.take(i as int) =~= completions@);
        Drained { steps, fault: None, states: Ghost(states) }
    }

    /// Writes `bytes` to the front of the receive buffer of `fd`, as far as they fit,
    /// and returns how many were written: what the kernel does to the buffer while a
    /// receive is in flight, for a loop that receives by other means. Returns `None`,
    /// and changes nothing, where no receive is in flight for `fd`.
    pub fn fill_receive_buffer(&mut self, fd: i32, bytes: &[u8]) -> (written: Option<usize>)
        ensures
            match written {
                Some(n) => {
                    &&& old(self)@.states.contains_key(fd)
                    &&& old(self)@.states[fd] matches Phase::Receiving { buffer }
                    &&& n == if bytes@.len() <= buffer.len() {
                        bytes@.len()
                    } else {
                        buffer.len()
                    }
                    &&& final(self)@ == (ServerView {
                        states: old(self)@.states.insert(
                            fd,
                            Phase::Receiving {
                                buffer: bytes@.subrange(0, n as int) + buffer.subrange(
                                    n as int,
                                    buffer.len() as int,
                                ),
                            },
                        ),
                        ..old(self)@
                    })
                },
                None => {
                    &&& !(old(self)@.states.contains_key(fd) && old(
                        self,
                    )@.states[fd] is Receiving)
                    &&& final(self)@ == old(self)@
                },
            },
    {
        let ghost before = self.fd_event@;
        proof {
            lemma_states_remove(before, fd);
        }
        match self.fd_event.remove(&fd) {
            Some(ConnectionState::Receiving { buffer }) => {
                let mut buffer = buffer;
                let ghost initial = buffer@;
                let n: usize = if bytes.len() <= buffer.len() {
                    bytes.len()
                } else {
                    buffer.len()
                };
                let mut i: usize = 0;
                while i < n
                    invariant
                        i <= n,
                        n <= bytes@.len(),
                        n <= initial.len(),
                        buffer@.len() == initial.len(),
                        buffer@ == bytes@.subrange(0, i as int) + initial.subrange(
                            i as int,
                            initial.len() as int,
                        ),
                    decreases n - i,
                {
                    buffer.set(i, bytes[i]);
                    i += 1;
                    assert(buffer@ =~= bytes@.subrange(0, i as int) + initial.subrange(
                        i as int,
                        initial.len() as int,
                    ));
                }
                let state = ConnectionState::Receiving { buffer };
                proof {
                    lemma_states_insert(before.remove(fd), fd, state);
                    assert(states_of(before).remove(fd).insert(fd, state@) =~= states_of(
                        before,
                    ).insert(fd, state@));
                }
                self.fd_event.insert(fd, state);
                Some(n)
            },
            Some(state) => {
                proof {
                    lemma_states_insert(before.remove(fd), fd, state);
                    assert(states_of(before).remove(fd).insert(fd, state@) =~= states_of(before));
                }
                self.fd_event.insert(fd, state);
                None
            },
            None => {
                assert(states_of(before).remove(fd) =~= states_of(before));
                None
            },
        }
    }

    /// The listening descriptor.
    pub fn listening_fd(&self) -> (fd: i32)
        ensures
            fd == self@.listener,
            fd >= 0,
    {
        proof {
            use_type_invariant(&self.server_fd);
        }
        self.server_fd.fd
    }

    /// Whether an accept is due: none has been handed out yet, or one has completed
    /// and the next one is not yet handed out.
    pub fn accept_due(&self) -> (due: bool)
        ensures
            due == self@.accept_due,
    {
        self.accept_on
    }

    /// The state of `fd` in the correlation table, or `None` where the table does not
    /// hold it.
    pub fn state_of(&self, fd: i32) -> (state: Option<&ConnectionState>)
        ensures
            match state {
                Some(s) => self@.states.contains_key(fd) && self@.states[fd] == s@,
                None => !self@.states.contains_key(fd),
            },
    {
        self.fd_event.get(&fd)
    }

    /// The response that waits to be sent to `fd`, or `None` where there is none.
    pub fn pending_response(&self, fd: i32) -> (bytes: Option<&Vec<u8>>)
        ensures
            match bytes {
                Some(b) => self@.pending.contains_key(fd) && self@.pending[fd] == b@,
                None => !self@.pending.contains_key(fd),
            },
    {
        self.fd_response.get(&fd)
    }

    /// The number of descriptors in the correlation table, the listening one included.
    pub fn connection_count(&self) -> (count: usize)
        ensures
            count == self@.states.len(),
    {
        assert(states_of(self.fd_event@).dom() =~= self.fd_event@.dom());
        self.fd_event.len()
    }

    /// The number of responses that wait to be sent.
    pub fn pending_count(&self) -> (count: usize)
        ensures
            count == self@.pending.len(),
    {
        assert(pending_of(self.fd_response@).dom() =~= self.fd_response@.dom());
        self.fd_response.len()
    }

    /// Handles one completion: looks up the connection that it belongs to, moves the
    /// connection to its next state, and says what the loop has to do for it.
    ///
    /// - A completion whose correlation identifier the table does not hold is the
    ///   fault `UnknownCorrelation`, and changes nothing.
    /// - On the listening descriptor, a negative result is the fault `AcceptFailed`
    ///   and changes nothing. Any other result is a new connection: it enters the
    ///   table awaiting readability, its readiness check is to be submitted, and the
    ///   next accept becomes due.
    /// - A completed readiness check allocates the receive buffer and asks for the
    ///   receive.
    /// - A receive of more than zero bytes produces the response to the bytes
    ///   received, keeps it as pending and asks for it to be sent. A receive of zero
    ///   bytes, or a failed one, removes the connection, which is to be closed.
    /// - A completed send discards the pending response and asks for the next
    ///   readiness check. A failed send removes the connection, which is to be closed.
    pub fn on_completion(&mut self, completion: Completion) -> (step: Result<Step, ServerError>)
        ensures
            old(self)@.steps_to(completion, final(self)@),
            match step {
                Ok(s) => old(self)@.outcome(completion) == Ok::<Effect, ServerError>(s@)
                    && s.agrees(),
                Err(e) => old(self)@.outcome(completion) == Err::<Effect, ServerError>(e),
            },
    {
        let fd: i32 = match descriptor_of(completion.user_data) {
            Some(fd) => fd,
            None => {
                return Err(ServerError::UnknownCorrelation);
            },
        };
        match self.fd_event.get(&fd) {
            None => Err(ServerError::UnknownCorrelation),
            Some(ConnectionState::Listening) => {
                if completion.result < 0 {
                    Err(ServerError::AcceptFailed)
                } else {
                    Ok(Step::Submit(self.accepted(completion.result)))
                }
            },
            Some(ConnectionState::AwaitingReadability) => Ok(Step::Submit(self.readable(fd))),
            Some(ConnectionState::Receiving { buffer }) => {
                if completion.result > 0 {
                    let reply = if completion.result as usize <= buffer.len() {
                        self.producer.produce(
                            slice_subrange(buffer.as_slice(), 0, completion.result as usize),
                        )
                    } else {
                        self.producer.produce(buffer.as_slice())
                    };
                    Ok(Step::Submit(self.respond(fd, reply)))
                } else if completion.result == 0 {
                    self.forget(fd);
                    Ok(Step::Close { fd, reason: CloseReason::PeerClosed })
                } else {
                    self.forget(fd);
                    Ok(Step::Close { fd, reason: CloseReason::ReceiveFailed })
                }
            },
            Some(ConnectionState::Sending) => {
                if completion.result >= 0 {
                    Ok(Step::Submit(self.sent(fd)))
                } else {
                    self.forget(fd);
                    Ok(Step::Close { fd, reason: CloseReason::SendFailed })
                }
            },
        }
    }
}

} // verus!
