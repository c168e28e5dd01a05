//! What holds of the reactor's transitions, whatever the ring reports.
//!
//! The laws speak of the states and outcomes of [`model`](crate::model), by which the
//! functions of [`Server`](crate::server::Server) are specified, so they hold of every
//! run of a loop that hands the server the ring's completions in order.

use crate::encoder::{ring_len, tag, Operation};
use crate::model::{CloseReason, Completion, Effect, Phase, ServerView, RECEIVE_CAPACITY};
use vstd::multiset::Multiset;
use vstd::prelude::*;

verus! {

/// The descriptors on which a step puts an operation in flight.
pub open spec fn submitted(effect: Effect) -> Multiset<i32> {
    match effect {
        Effect::Submit(operation) => Multiset::singleton(operation.fd()),
        Effect::Close { .. } => Multiset::empty(),
    }
}

/// The descriptors on which the start of a loop iteration puts an operation in flight.
pub open spec fn rearmed_accepts(state: ServerView) -> Multiset<i32> {
    match state.rearm_operation() {
        Some(operation) => Multiset::singleton(operation.fd()),
        None => Multiset::empty(),
    }
}

/// The invariant of the reactor, where `in_flight` holds each descriptor as often as
/// operations are in flight for it. Once an accept has been handed out the table
/// holds the listening descriptor: it is missing only while the first accept is due.
/// The listening descriptor alone is in the listening state. Exactly one operation is
/// in flight for each descriptor of the table, except for the listening descriptor
/// while its next accept is due; none is in flight for any other descriptor.
pub open spec fn one_in_flight_each(state: ServerView, in_flight: Multiset<i32>) -> bool {
    &&& !state.accept_due ==> state.states.contains_key(state.listener)
    &&& forall|fd: i32| #[trigger]
        state.states.contains_key(fd) ==> (state.states[fd] == Phase::Listening <==> fd
            == state.listener)
    &&& forall|fd: i32|
        #[trigger] in_flight.count(fd) == if state.states.contains_key(fd) && !(fd
            == state.listener && state.accept_due) {
            1nat
        } else {
            0nat
        }
}

/// The invariant holds of a new server, whose table is empty and for which nothing is
/// in flight yet.
pub proof fn law_initially_nothing_in_flight(listener: i32, document: Seq<u8>, not_found: Seq<u8>)
    ensures
        one_in_flight_each(ServerView::initial(listener, document, not_found), Multiset::empty()),
{
}

/// A new server knows no correlation identifier: until its first accept has been
/// handed out, every completion is the fault of an unknown correlation, that of the
/// listening descriptor too, and changes nothing.
pub proof fn law_new_server_knows_no_correlation(
    listener: i32,
    document: Seq<u8>,
    not_found: Seq<u8>,
    completion: Completion,
    next: ServerView,
)
    requires
        ServerView::initial(listener, document, not_found).steps_to(completion, next),
    ensures
        ServerView::initial(listener, document, not_found).outcome(completion) == Err::<
            Effect,
            crate::error::ServerError,
        >(crate::error::ServerError::UnknownCorrelation),
        next == ServerView::initial(listener, document, not_found),
{
}

/// The start of a loop iteration keeps the invariant, and after it the table holds
/// the listening descriptor and an accept is in flight on it: the listening
/// descriptor is without one only before the first iteration, and from the completion
/// of an accept to the start of the next iteration.
pub proof fn law_rearm_restores_the_accept(state: ServerView, in_flight: Multiset<i32>)
    requires
        one_in_flight_each(state, in_flight),
    ensures
        one_in_flight_each(state.rearmed(), in_flight.add(rearmed_accepts(state))),
        in_flight.add(rearmed_accepts(state)).count(state.listener) == 1,
        !state.rearmed().accept_due,
        state.rearmed().states.contains_key(state.listener),
        state.rearmed().states[state.listener] == Phase::Listening,
{
}

/// Starting a loop iteration twice hands out no second accept and changes nothing
/// more: there are never two accepts on the listening descriptor.
pub proof fn law_rearm_is_idempotent(state: ServerView)
    ensures
        state.rearmed().rearm_operation().is_none(),
        state.rearmed().rearmed() == state.rearmed(),
{
}

/// Handling the completion of an operation that is in flight keeps the invariant, so
/// that no descriptor ever has two operations in flight. The law holds of every
/// completion that the server handles without a fault, given that an accept never
/// returns a descriptor that the table still holds.
pub proof fn law_completion_keeps_one_in_flight(
    state: ServerView,
    in_flight: Multiset<i32>,
    completion: Completion,
    next: ServerView,
    effect: Effect,
)
    requires
        one_in_flight_each(state, in_flight),
        completion.fd() matches Some(fd) && in_flight.count(fd) > 0,
        state.steps_to(completion, next),
        state.outcome(completion) == Ok::<Effect, crate::error::ServerError>(effect),
        state.phase_of(completion) == Some(Phase::Listening) ==> !state.states.contains_key(
            completion.result,
        ),
    ensures
        one_in_flight_each(
            next,
            in_flight.remove(completion.fd().unwrap()).add(submitted(effect)),
        ),
{
}

/// A receive that completes with zero bytes ends the connection: the step is to close
/// the descriptor, and the state that follows is the one before without it.
pub proof fn law_peer_close_removes_the_connection(
    state: ServerView,
    completion: Completion,
    next: ServerView,
)
    requires
        state.phase_of(completion) matches Some(Phase::Receiving { .. }),
        completion.result == 0,
        state.steps_to(completion, next),
    ensures
        state.outcome(completion) == Ok::<Effect, crate::error::ServerError>(
            Effect::Close { fd: completion.fd().unwrap(), reason: CloseReason::PeerClosed },
        ),
        next == state.without(completion.fd().unwrap()),
        !next.states.contains_key(completion.fd().unwrap()),
        !next.pending.contains_key(completion.fd().unwrap()),
{
}

/// Whenever the step is to close a descriptor, neither table holds it any more: the
/// operating system can hand a descriptor out again only after both tables have
/// forgotten it.
pub proof fn law_closed_descriptor_is_in_no_table(
    state: ServerView,
    completion: Completion,
    next: ServerView,
    fd: i32,
    reason: CloseReason,
)
    requires
        state.steps_to(completion, next),
        state.outcome(completion) == Ok::<Effect, crate::error::ServerError>(
            Effect::Close { fd, reason },
        ),
    ensures
        completion.fd() == Some(fd),
        !next.states.contains_key(fd),
        !next.pending.contains_key(fd),
{
}

/// After a send has completed the connection waits for readability again, not for a
/// receive, and no response is pending for it.
pub proof fn law_send_completion_rearms_readability(
    state: ServerView,
    completion: Completion,
    next: ServerView,
)
    requires
        state.phase_of(completion) == Some(Phase::Sending),
        completion.result >= 0,
        state.steps_to(completion, next),
    ensures
        state.outcome(completion) == Ok::<Effect, crate::error::ServerError>(
            Effect::Submit(Operation::PollReadable { fd: completion.fd().unwrap() }),
        ),
        next.states.contains_key(completion.fd().unwrap()),
        next.states[completion.fd().unwrap()] == Phase::AwaitingReadability,
        !next.pending.contains_key(completion.fd().unwrap()),
{
}

/// One request and its response. From a connection that awaits readability, the
/// completions of its readiness check, of a receive of some bytes and of a send lead
/// through a receive and a send back to awaiting readability: the connection awaits
/// readability once in the cycle, at its end. Each step submits exactly the one
/// operation of the state it enters. The response is pending only while it is sent,
/// and the cycle leaves the table as it was.
pub proof fn law_request_cycle(
    start: ServerView,
    receiving: ServerView,
    sending: ServerView,
    end: ServerView,
    fd: i32,
    polled: i32,
    received: i32,
    sent: i32,
)
    requires
        fd >= 0,
        start.states.contains_key(fd),
        start.states[fd] == Phase::AwaitingReadability,
        received > 0,
        sent >= 0,
        start.steps_to(Completion { user_data: tag(fd), result: polled }, receiving),
        receiving.steps_to(Completion { user_data: tag(fd), result: received }, sending),
        sending.steps_to(Completion { user_data: tag(fd), result: sent }, end),
    ensures
        start.outcome(Completion { user_data: tag(fd), result: polled }) == Ok::<
            Effect,
            crate::error::ServerError,
        >(Effect::Submit(Operation::Receive { fd, len: RECEIVE_CAPACITY as u32 })),
        receiving.states.dom() == start.states.dom(),
        receiving.pending == start.pending,
        sending.states.dom() == start.states.dom(),
        receiving.states[fd] matches Phase::Receiving { buffer } && {
            &&& buffer.len() == RECEIVE_CAPACITY
            &&& sending.pending == start.pending.insert(fd, start.reply(buffer, received))
            &&& sending.pending.contains_key(fd)
            &&& sending.pending[fd] == start.reply(buffer, received)
            &&& receiving.outcome(Completion { user_data: tag(fd), result: received }) == Ok::<
                Effect,
                crate::error::ServerError,
            >(
                Effect::Submit(
                    Operation::Send { fd, len: ring_len(start.reply(buffer, received).len()) },
                ),
            )
        },
        sending.states[fd] == Phase::Sending,
        sending.outcome(Completion { user_data: tag(fd), result: sent }) == Ok::<
            Effect,
            crate::error::ServerError,
        >(Effect::Submit(Operation::PollReadable { fd })),
        end.states[fd] == Phase::AwaitingReadability,
        !end.pending.contains_key(fd),
        end.states == start.states,
        end.pending == start.pending.remove(fd),
        end.accept_due == start.accept_due,
{
}

/// Whether `after` is the state that comes next after `before` in the life of a
/// connection: a receive after the readiness check, the send after the receive, the
/// next readiness check after the send.
pub open spec fn comes_after(before: Phase, after: Phase) -> bool {
    match before {
        Phase::Listening => false,
        Phase::AwaitingReadability => after is Receiving,
        Phase::Receiving { .. } => after == Phase::Sending,
        Phase::Sending => after == Phase::AwaitingReadability,
    }
}

/// The states of a connection come in one order. A completion either leaves the state
/// of a descriptor as it is, or moves a connection on to the state that comes next;
/// and it moves on exactly the connection that it belongs to. So between two receives
/// of a connection lies exactly one readiness check. The law leaves out the accept
/// that returns the descriptor itself, which starts a connection anew.
pub proof fn law_connection_states_come_in_order(
    state: ServerView,
    completion: Completion,
    next: ServerView,
    fd: i32,
)
    requires
        state.steps_to(completion, next),
        state.states.contains_key(fd),
        next.states.contains_key(fd),
        !(state.phase_of(completion) == Some(Phase::Listening) && completion.result == fd),
    ensures
        next.states[fd] == state.states[fd] || comes_after(state.states[fd], next.states[fd]),
        next.states[fd] != state.states[fd] ==> completion.fd() == Some(fd),
        completion.fd() == Some(fd) && state.states[fd] != Phase::Listening ==> comes_after(
            state.states[fd],
            next.states[fd],
        ),
{
}

/// A completion touches its own connection only: every other descriptor keeps its
/// state and its pending response. The one completion that brings a descriptor in is
/// that of an accept, which returns it.
pub proof fn law_other_connections_are_untouched(
    state: ServerView,
    completion: Completion,
    next: ServerView,
    fd: i32,
)
    requires
        state.steps_to(completion, next),
        completion.fd() != Some(fd),
        !(state.phase_of(completion) == Some(Phase::Listening) && completion.result == fd),
    ensures
        next.states.contains_key(fd) == state.states.contains_key(fd),
        next.states.contains_key(fd) ==> next.states[fd] == state.states[fd],
        next.pending.contains_key(fd) == state.pending.contains_key(fd),
        next.pending.contains_key(fd) ==> next.pending[fd] == state.pending[fd],
{
}

/// What happens in a run of the loop.
pub enum Event {
    /// A loop iteration starts: the accept is handed out if it is due.
    IterationStart,
    /// The ring reports a completion, and the server handles it.
    Completed(Completion),
}

/// Whether `event` may lead from the state `before` to the state `after`.
pub open spec fn follows(before: ServerView, event: Event, after: ServerView) -> bool {
    match event {
        Event::IterationStart => after == before.rearmed(),
        Event::Completed(completion) => before.steps_to(completion, after),
    }
}

/// What is in flight after `event`, where `in_flight` was in flight before it: the
/// completed operation has left, and what the server handed out has come in.
pub open spec fn in_flight_after(before: ServerView, in_flight: Multiset<i32>, event: Event)
    -> Multiset<i32> {
    match event {
        Event::IterationStart => in_flight.add(rearmed_accepts(before)),
        Event::Completed(completion) => match (completion.fd(), before.outcome(completion)) {
            (Some(fd), Ok(effect)) => in_flight.remove(fd).add(submitted(effect)),
            _ => in_flight,
        },
    }
}

/// Whether `event` can come next in a run: a completion is that of an operation in
/// flight, the server handles it without a fault (a fault ends the run), and an accept
/// returns no descriptor that the table still holds.
pub open spec fn can_follow(before: ServerView, in_flight: Multiset<i32>, event: Event) -> bool {
    match event {
        Event::IterationStart => true,
        Event::Completed(completion) => {
            &&& completion.fd() matches Some(fd) && in_flight.count(fd) > 0
            &&& before.outcome(completion) is Ok
            &&& before.phase_of(completion) == Some(Phase::Listening)
                ==> !before.states.contains_key(completion.result)
        },
    }
}

/// What is in flight after the first `n` events of a run.
pub open spec fn in_flight_at(states: Seq<ServerView>, events: Seq<Event>, n: nat) -> Multiset<
    i32,
>
    decreases n,
{
    if n == 0 {
        Multiset::empty()
    } else {
        in_flight_after(
            states[n - 1],
            in_flight_at(states, events, (n - 1) as nat),
            events[n - 1],
        )
    }
}

/// Whether the `i`-th event of a run can come where it stands and leads from the
/// state before it to the state after it.
pub open spec fn step_holds(states: Seq<ServerView>, events: Seq<Event>, i: int) -> bool {
    &&& can_follow(states[i], in_flight_at(states, events, i as nat), events[i])
    &&& follows(states[i], events[i], states[i + 1])
}

/// Whether `states` are the states of a run of the loop from a new server on, with
/// `events` between them.
pub open spec fn is_run(states: Seq<ServerView>, events: Seq<Event>) -> bool {
    &&& states.len() == events.len() + 1
    &&& states[0] == ServerView::initial(
        states[0].listener,
        states[0].document,
        states[0].not_found,
    )
    &&& forall|i: int| 0 <= i < events.len() ==> #[trigger] step_holds(states, events, i)
}

/// In every run of the loop, however many connections are accepted and however their
/// completions interleave, the invariant holds after every event: no descriptor ever
/// has two operations in flight, and every connection of the table has one.
pub proof fn law_every_run_keeps_one_in_flight(
    states: Seq<ServerView>,
    events: Seq<Event>,
    n: nat,
)
    requires
        is_run(states, events),
        n <= events.len(),
    ensures
        one_in_flight_each(states[n as int], in_flight_at(states, events, n)),
        forall|fd: i32| #[trigger] in_flight_at(states, events, n).count(fd) <= 1,
    decreases n,
{
    if n == 0 {
        law_initially_nothing_in_flight(
            states[0].listener,
            states[0].document,
            states[0].not_found,
        );
    } else {
        let before = states[n - 1];
        let in_flight = in_flight_at(states, events, (n - 1) as nat);
        law_every_run_keeps_one_in_flight(states, events, (n - 1) as nat);
        assert(step_holds(states, events, n - 1));
        match events[n - 1] {
            Event::IterationStart => {
                law_rearm_restores_the_accept(before, in_flight);
            },
            Event::Completed(completion) => {
                law_completion_keeps_one_in_flight(
                    before,
                    in_flight,
                    completion,
                    states[n as int],
                    before.outcome(completion)->Ok_0,
                );
            },
        }
    }
}

/// In every run of the loop, an accept is in flight on the listening descriptor after
/// the start of each iteration: the listening descriptor is never without one for
/// longer than from the completion of an accept to the start of the next iteration.
pub proof fn law_accept_in_flight_after_every_iteration_start(
    states: Seq<ServerView>,
    events: Seq<Event>,
    i: nat,
)
    requires
        is_run(states, events),
        i < events.len(),
        events[i as int] is IterationStart,
    ensures
        in_flight_at(states, events, i + 1).count(states[i as int + 1].listener) == 1,
{
    law_every_run_keeps_one_in_flight(states, events, i);
    assert(step_holds(states, events, i as int));
    law_rearm_restores_the_accept(states[i as int], in_flight_at(states, events, i));
}

} // verus!
