//! The decisions of the server loop.
//!
//! The loop itself binds an address, takes requests from the transport and
//! hands them to a pool of worker threads. What it does next, given what
//! has just happened, is decided here.

use vstd::prelude::*;

verus! {

/// Where a server is in its life.
#[derive(Debug, Clone, Copy, PartialEq, Eq, Structural)]
pub enum ServerState {
    /// Routes and middleware may still be added; no connection is accepted.
    Created,
    /// Bound to an address and taking requests.
    Listening,
    /// At its end: nothing leads out of this state.
    Stopped,
}

/// What has happened to a server.
#[derive(Debug, Clone, Copy, PartialEq, Eq, Structural)]
pub enum ServerEvent {
    /// The address was bound.
    Bound,
    /// The address could not be bound.
    BindFailed,
    /// The transport has handed over a request.
    Accepted,
    /// A response was written back.
    Sent,
    /// A response could not be written back.
    SendFailed,
    /// The transport hands over no more requests.
    Closed,
}

/// What the loop has to do next.
#[derive(Debug, Clone, Copy, PartialEq, Eq, Structural)]
pub enum ServerAction {
    /// Start a pool of this many worker threads, and take requests.
    Serve(usize),
    /// Give up: the address could not be bound.
    FailBind,
    /// Give up: a pool without a worker thread serves nothing.
    FailNoWorkers,
    /// Submit the dispatch of the request to the pool.
    Dispatch,
    /// Record that a response could not be sent, and go on.
    LogSendFailure,
    /// Let the workers finish, and end.
    Finish,
    /// Nothing.
    Nothing,
}

/// The state that follows `state` when `event` happens to a server
/// configured with `threads` worker threads, and what the loop has to do.
pub open spec fn transition(state: ServerState, event: ServerEvent, threads: usize) -> (
    ServerState,
    ServerAction,
) {
    match state {
        ServerState::Created => match event {
            ServerEvent::Bound => if threads >= 1 {
                (ServerState::Listening, ServerAction::Serve(threads))
            } else {
                (ServerState::Stopped, ServerAction::FailNoWorkers)
            },
            ServerEvent::BindFailed => (ServerState::Stopped, ServerAction::FailBind),
            _ => (ServerState::Created, ServerAction::Nothing),
        },
        ServerState::Listening => match event {
            ServerEvent::Accepted => (ServerState::Listening, ServerAction::Dispatch),
            ServerEvent::SendFailed => (ServerState::Listening, ServerAction::LogSendFailure),
            ServerEvent::Closed => (ServerState::Stopped, ServerAction::Finish),
            _ => (ServerState::Listening, ServerAction::Nothing),
        },
        ServerState::Stopped => (ServerState::Stopped, ServerAction::Nothing),
    }
}

/// The state of one server loop.
#[derive(Debug, Clone, Copy)]
pub struct ServerLoop {
    state: ServerState,
    threads: usize,
}

impl ServerLoop {
    /// The state of the server.
    pub closed spec fn spec_state(&self) -> ServerState {
        self.state
    }

    /// The number of worker threads that the server is configured with.
    pub closed spec fn spec_threads(&self) -> usize {
        self.threads
    }

    /// A server that is not listening yet.
    pub fn new(threads: usize) -> (server: ServerLoop)
        ensures
            server.spec_state() == ServerState::Created,
            server.spec_threads() == threads,
    {
        ServerLoop { state: ServerState::Created, threads }
    }

    /// The state of the server.
    #[verifier::when_used_as_spec(spec_state)]
    pub fn state(&self) -> (state: ServerState)
        ensures
            state == self.spec_state(),
    {
        self.state
    }

    /// The number of worker threads that the server is configured with.
    #[verifier::when_used_as_spec(spec_threads)]
    pub fn threads(&self) -> (threads: usize)
        ensures
            threads == self.spec_threads(),
    {
        self.threads
    }

    /// Take note of `event` and say what the loop has to do next.
    pub fn step(&mut self, event: ServerEvent) -> (action: ServerAction)
        ensures
            (final(self).state(), action) == transition(
                old(self).state(),
                event,
                old(self).threads(),
            ),
            final(self).threads() == old(self).threads(),
    {
        let (state, action) = match self.state {
            ServerState::Created => match event {
                ServerEvent::Bound => if self.threads >= 1 {
                    (ServerState::Listening, ServerAction::Serve(self.threads))
                } else {
                    (ServerState::Stopped, ServerAction::FailNoWorkers)
                },
                ServerEvent::BindFailed => (ServerState::Stopped, ServerAction::FailBind),
                _ => (ServerState::Created, ServerAction::Nothing),
            },
            ServerState::Listening => match event {
                ServerEvent::Accepted => (ServerState::Listening, ServerAction::Dispatch),
                ServerEvent::SendFailed => (ServerState::Listening, ServerAction::LogSendFailure),
                ServerEvent::Closed => (ServerState::Stopped, ServerAction::Finish),
                _ => (ServerState::Listening, ServerAction::Nothing),
            },
            ServerState::Stopped => (ServerState::Stopped, ServerAction::Nothing),
        };
        self.state = state;
        action
    }
}

/// Nothing leads out of the stopped state, and nothing is done in it.
pub proof fn lemma_stopped_is_final(event: ServerEvent, threads: usize)
    ensures
        transition(ServerState::Stopped, event, threads) == (
            ServerState::Stopped,
            ServerAction::Nothing,
        ),
{
}

/// A server comes to listen only by binding its address, and keeps
/// listening until the transport closes.
pub proof fn lemma_listening(state: ServerState, event: ServerEvent, threads: usize)
    ensures
        transition(state, event, threads).0 == ServerState::Listening <==> (state
            == ServerState::Created && event == ServerEvent::Bound && threads >= 1) || (state
            == ServerState::Listening && event != ServerEvent::Closed),
{
}

/// A response that could not be sent is recorded, and the server keeps
/// listening.
pub proof fn lemma_send_failure_is_isolated(threads: usize)
    ensures
        transition(ServerState::Listening, ServerEvent::SendFailed, threads) == (
            ServerState::Listening,
            ServerAction::LogSendFailure,
        ),
{
}

/// A request is dispatched exactly while the server listens, and a pool is
/// only ever started with at least one worker thread.
pub proof fn lemma_actions(state: ServerState, event: ServerEvent, threads: usize)
    ensures
        transition(state, event, threads).1 == ServerAction::Dispatch <==> state
            == ServerState::Listening && event == ServerEvent::Accepted,
        forall|workers: usize|
            transition(state, event, threads).1 == ServerAction::Serve(workers) ==> workers
                == threads && workers >= 1,
{
}

} // verus!
