//! The life of one client connection, from the TLS handshake to its outcome.
//!
//! The supervisor performs no I/O. The driver reports what the last operation
//! produced and the supervisor answers with the next operation, until it hands
//! out the outcome of the connection. Addresses and I/O errors pass through it
//! untouched, so they can be of whatever type the driver uses.

use crate::relay::RelayError;
use crate::request::{Request, ServerResponse};
use crate::tunnel::TunnelStats;
use crate::validator::DestinationValidator;
use vstd::prelude::*;

verus! {

/// Why a connection failed.
#[derive(Debug, PartialEq, Eq)]
pub enum ConnectionError<E> {
    /// The TLS handshake failed; the connection counts as refused.
    Refused(E),
    /// An operation after the handshake failed with this error.
    Io(E),
    /// The driver reported something the supervisor had not asked for.
    Protocol,
}

/// How a connection ended.
#[derive(Debug, PartialEq, Eq)]
pub enum ConnectionOutcome<A, E> {
    /// The request used this method, which is not CONNECT.
    MethodRejected(String),
    /// The CONNECT target did not resolve or is not an allowed destination.
    DestinationRejected(String),
    /// The tunnel between the client address and the destination address ran
    /// to its end and carried this much.
    TunnelCompleted(A, A, TunnelStats),
    /// The connection failed.
    Failed(ConnectionError<E>),
}

/// What the driver reports to a supervisor.
#[derive(Debug, PartialEq, Eq)]
pub enum Event<A, E> {
    /// The connection was accepted.
    Start,
    /// The TLS handshake succeeded.
    HandshakeDone,
    /// The request line was parsed.
    Request(Request),
    /// The target was looked up: its socket address, or none.
    Resolved(Option<A>),
    /// The response was sent in full.
    ResponseSent,
    /// The write side of the client stream was shut down.
    Closed,
    /// The outbound connection is open.
    Connected,
    /// The tunnel has ended.
    TunnelEnded(Result<TunnelStats, RelayError<E>>),
    /// The operation last asked for failed.
    Failed(E),
}

/// What a supervisor asks of the driver.
#[derive(Debug, PartialEq, Eq)]
pub enum Action<A, E> {
    /// Perform the server side of the TLS handshake.
    Handshake,
    /// Read and parse one request line.
    ReadRequest,
    /// Look up the socket address of this target.
    Resolve(String),
    /// Send this response to the client.
    Respond(ServerResponse),
    /// Shut down the write side of the client stream.
    HalfClose,
    /// Open a connection to this address.
    Connect(A),
    /// Relay between the client and the destination until both directions
    /// have ended.
    RunTunnel {
        /// The address of the client.
        client: A,
        /// The address of the destination.
        dest: A,
    },
    /// The connection is over, with this outcome.
    Report(ConnectionOutcome<A, E>),
}

/// What a refused client is told about once the refusal is through.
#[derive(Debug, PartialEq, Eq)]
pub enum Rejection {
    /// The method that was not CONNECT.
    Method(String),
    /// The target that was not accepted.
    Destination(String),
}

/// The steps between a parsed request and a running tunnel or a rejection.
#[derive(Debug, PartialEq, Eq)]
pub enum Dispatch<A> {
    /// The lookup of this target is outstanding.
    Resolving(String),
    /// The error response is being sent.
    Refusing(Rejection),
    /// The error response is out; the half-close is outstanding.
    Closing(Rejection),
    /// The connection to this address is being opened.
    Connecting(A),
    /// The connection to this address is open; the "ok" is being sent.
    Confirming(A),
}

/// Where a connection stands.
#[derive(Debug, PartialEq, Eq)]
pub enum Stage<A> {
    /// Accepted; nothing done yet.
    Accepted,
    /// The TLS handshake is outstanding.
    Handshaking,
    /// The request line is outstanding.
    AwaitingRequest,
    /// The request is being acted on.
    Dispatching(Dispatch<A>),
    /// The tunnel to this address is running.
    Tunneling(A),
    /// The tunnel ran to its end.
    Completed,
    /// The request was refused, and the client told so.
    Rejected,
    /// The connection failed.
    Failed,
}

/// The state of one connection.
#[derive(Debug, PartialEq, Eq)]
pub struct Supervisor<A> {
    /// The address of the client.
    pub client: A,
    /// Where the connection stands.
    pub stage: Stage<A>,
}

/// Whether `method` asks for a tunnel.
pub open spec fn is_connect(method: Seq<char>) -> bool {
    method == "CONNECT"@
}

impl Rejection {
    /// The outcome that this rejection is reported as.
    pub open spec fn outcome<A, E>(self) -> ConnectionOutcome<A, E> {
        match self {
            Rejection::Method(method) => ConnectionOutcome::MethodRejected(method),
            Rejection::Destination(target) => ConnectionOutcome::DestinationRejected(target),
        }
    }
}

impl<A> Stage<A> {
    /// Whether the connection is over.
    pub open spec fn is_terminal(self) -> bool {
        self is Completed || self is Rejected || self is Failed
    }
}

impl<A: Copy> Supervisor<A> {
    /// A connection that was just accepted from `client`.
    pub open spec fn accepted(client: A) -> Supervisor<A> {
        Supervisor { client, stage: Stage::Accepted }
    }

    /// Whether `event` answers what a connection at this stage is waiting for.
    pub open spec fn in_turn<E>(self, event: Event<A, E>) -> bool {
        match self.stage {
            Stage::Accepted => event is Start,
            Stage::Handshaking => event is HandshakeDone || event is Failed,
            Stage::AwaitingRequest => event is Request || event is Failed,
            Stage::Dispatching(Dispatch::Resolving(_)) => event is Resolved || event is Failed,
            Stage::Dispatching(Dispatch::Refusing(_)) => event is ResponseSent || event is Failed,
            Stage::Dispatching(Dispatch::Closing(_)) => event is Closed || event is Failed,
            Stage::Dispatching(Dispatch::Connecting(_)) => event is Connected || event is Failed,
            Stage::Dispatching(Dispatch::Confirming(_)) => event is ResponseSent || event is Failed,
            Stage::Tunneling(_) => event is TunnelEnded || event is Failed,
            Stage::Completed | Stage::Rejected | Stage::Failed => false,
        }
    }

    /// The target that the destination policy is asked about when `event`
    /// arrives: the one being resolved, if the event brings its address.
    pub open spec fn consulted<E>(self, event: Event<A, E>) -> Option<Seq<char>> {
        match (self.stage, event) {
            (Stage::Dispatching(Dispatch::Resolving(target)), Event::Resolved(Some(_))) => Some(
                target@,
            ),
            _ => None,
        }
    }

    /// The answer of `policy` where `event` calls for one.
    pub open spec fn verdict<E>(self, event: Event<A, E>, policy: DestinationValidator) -> bool {
        match self.consulted(event) {
            Some(target) => policy.accepts(target),
            None => false,
        }
    }

    /// The connection fails with `error`, which is reported at once.
    pub open spec fn failed<E>(self, error: ConnectionError<E>) -> (Supervisor<A>, Action<A, E>) {
        (
            Supervisor { client: self.client, stage: Stage::Failed },
            Action::Report(ConnectionOutcome::Failed(error)),
        )
    }

    /// The connection moves to `stage` and asks for `action`.
    pub open spec fn moved<E>(self, stage: Stage<A>, action: Action<A, E>) -> (
        Supervisor<A>,
        Action<A, E>,
    ) {
        (Supervisor { client: self.client, stage }, action)
    }

    /// The client is refused: `response` is to be sent, and `rejection`
    /// reported once the client has been told.
    pub open spec fn refused<E>(self, response: ServerResponse, rejection: Rejection) -> (
        Supervisor<A>,
        Action<A, E>,
    ) {
        self.moved(Stage::Dispatching(Dispatch::Refusing(rejection)), Action::Respond(response))
    }

    /// The transition function: the state after `event` and what the
    /// supervisor asks for next. `allowed` is the answer of the destination
    /// policy; it is looked at only when `event` brings the address of the
    /// target.
    ///
    /// An event out of turn fails the connection. For the events in turn the
    /// table below gives, stage by stage, what follows. A failed handshake
    /// refuses the connection. A request with a method other than CONNECT is
    /// refused with "method not allowed". A target whose lookup gave no address,
    /// or failed, is refused with "bad request"; one that has an address but is
    /// not allowed is refused with "forbidden". A refusal is sent, then the
    /// client stream is half-closed, then the rejection is reported. Only a
    /// target that passed both gates is connected to; then the client is sent
    /// "ok", and then the tunnel runs. A tunnel that failed fails the
    /// connection, and so does any other operation that failed.
    pub open spec fn next<E>(self, event: Event<A, E>, allowed: bool) -> (
        Supervisor<A>,
        Action<A, E>,
    ) {
        if !self.in_turn(event) {
            self.failed(ConnectionError::Protocol)
        } else {
            match (self.stage, event) {
                (Stage::Accepted, Event::Start) => self.moved(
                    Stage::Handshaking,
                    Action::Handshake,
                ),
                (Stage::Handshaking, Event::HandshakeDone) => self.moved(
                    Stage::AwaitingRequest,
                    Action::ReadRequest,
                ),
                (Stage::Handshaking, Event::Failed(error)) => self.failed(
                    ConnectionError::Refused(error),
                ),
                (Stage::AwaitingRequest, Event::Request(request)) => if is_connect(
                    request.method@,
                ) {
                    self.moved(
                        Stage::Dispatching(Dispatch::Resolving(request.target)),
                        Action::Resolve(request.target),
                    )
                } else {
                    self.refused(
                        ServerResponse::MethodNotAllowed,
                        Rejection::Method(request.method),
                    )
                },
                (
                    Stage::Dispatching(Dispatch::Resolving(target)),
                    Event::Resolved(Some(dest)),
                ) => if allowed {
                    self.moved(
                        Stage::Dispatching(Dispatch::Connecting(dest)),
                        Action::Connect(dest),
                    )
                } else {
                    self.refused(ServerResponse::Forbidden, Rejection::Destination(target))
                },
                (Stage::Dispatching(Dispatch::Resolving(target)), _) => self.refused(
                    ServerResponse::BadRequest,
                    Rejection::Destination(target),
                ),
                (
                    Stage::Dispatching(Dispatch::Refusing(rejection)),
                    Event::ResponseSent,
                ) => self.moved(
                    Stage::Dispatching(Dispatch::Closing(rejection)),
                    Action::HalfClose,
                ),
                (Stage::Dispatching(Dispatch::Closing(rejection)), Event::Closed) => self.moved(
                    Stage::Rejected,
                    Action::Report(rejection.outcome()),
                ),
                (Stage::Dispatching(Dispatch::Connecting(dest)), Event::Connected) => self.moved(
                    Stage::Dispatching(Dispatch::Confirming(dest)),
                    Action::Respond(ServerResponse::Established),
                ),
                (
                    Stage::Dispatching(Dispatch::Confirming(dest)),
                    Event::ResponseSent,
                ) => self.moved(
                    Stage::Tunneling(dest),
                    Action::RunTunnel { client: self.client, dest },
                ),
                (Stage::Tunneling(dest), Event::TunnelEnded(Ok(stats))) => self.moved(
                    Stage::Completed,
                    Action::Report(ConnectionOutcome::TunnelCompleted(self.client, dest, stats)),
                ),
                (
                    Stage::Tunneling(_),
                    Event::TunnelEnded(Err(RelayError::Io(error))),
                ) => self.failed(ConnectionError::Io(error)),
                (_, Event::Failed(error)) => self.failed(ConnectionError::Io(error)),
                // What is left in turn is a tunnel that was itself driven out
                // of turn.
                _ => self.failed(ConnectionError::Protocol),
            }
        }
    }

    /// Takes charge of a connection that was just accepted from `client`.
    pub fn new(client: A) -> (supervisor: Supervisor<A>)
        ensures
            supervisor == Supervisor::accepted(client),
    {
        Supervisor { client, stage: Stage::Accepted }
    }

    fn fail<E>(client: A, error: ConnectionError<E>) -> (r: (Supervisor<A>, Action<A, E>))
        ensures
            r == Supervisor::accepted(client).failed(error),
    {
        (
            Supervisor { client, stage: Stage::Failed },
            Action::Report(ConnectionOutcome::Failed(error)),
        )
    }

    fn refuse<E>(client: A, response: ServerResponse, rejection: Rejection) -> (r: (
        Supervisor<A>,
        Action<A, E>,
    ))
        ensures
            r == Supervisor::accepted(client).refused::<E>(response, rejection),
    {
        (
            Supervisor { client, stage: Stage::Dispatching(Dispatch::Refusing(rejection)) },
            Action::Respond(response),
        )
    }

    /// Takes one event, with the answer of the destination policy given, and
    /// returns the state that follows together with the next thing to do.
    pub fn advance<E>(self, event: Event<A, E>, allowed: bool) -> (r: (
        Supervisor<A>,
        Action<A, E>,
    ))
        ensures
            r == self.next(event, allowed),
    {
        let client = self.client;
        match self.stage {
            Stage::Accepted => match event {
                Event::Start => (
                    Supervisor { client, stage: Stage::Handshaking },
                    Action::Handshake,
                ),
                _ => Self::fail(client, ConnectionError::Protocol),
            },
            Stage::Handshaking => match event {
                Event::HandshakeDone => (
                    Supervisor { client, stage: Stage::AwaitingRequest },
                    Action::ReadRequest,
                ),
                Event::Failed(error) => Self::fail(client, ConnectionError::Refused(error)),
                _ => Self::fail(client, ConnectionError::Protocol),
            },
            Stage::AwaitingRequest => match event {
                Event::Request(request) => {
                    let connect = "CONNECT".to_owned();
                    if request.method == connect {
                        let target = request.target.clone();
                        (
                            Supervisor {
                                client,
                                stage: Stage::Dispatching(Dispatch::Resolving(request.target)),
                            },
                            Action::Resolve(target),
                        )
                    } else {
                        Self::refuse(
                            client,
                            ServerResponse::MethodNotAllowed,
                            Rejection::Method(request.method),
                        )
                    }
                },
                Event::Failed(error) => Self::fail(client, ConnectionError::Io(error)),
                _ => Self::fail(client, ConnectionError::Protocol),
            },
            Stage::Dispatching(dispatch) => match dispatch {
                Dispatch::Resolving(target) => match event {
                    Event::Resolved(Some(dest)) => if allowed {
                        (
                            Supervisor {
                                client,
                                stage: Stage::Dispatching(Dispatch::Connecting(dest)),
                            },
                            Action::Connect(dest),
                        )
                    } else {
                        Self::refuse(
                            client,
                            ServerResponse::Forbidden,
                            Rejection::Destination(target),
                        )
                    },
                    Event::Resolved(None) | Event::Failed(_) => Self::refuse(
                        client,
                        ServerResponse::BadRequest,
                        Rejection::Destination(target),
                    ),
                    _ => Self::fail(client, ConnectionError::Protocol),
                },
                Dispatch::Refusing(rejection) => match event {
                    Event::ResponseSent => (
                        Supervisor {
                            client,
                            stage: Stage::Dispatching(Dispatch::Closing(rejection)),
                        },
                        Action::HalfClose,
                    ),
                    Event::Failed(error) => Self::fail(client, ConnectionError::Io(error)),
                    _ => Self::fail(client, ConnectionError::Protocol),
                },
                Dispatch::Closing(rejection) => match event {
                    Event::Closed => {
                        let outcome = match rejection {
                            Rejection::Method(method) => ConnectionOutcome::MethodRejected(method),
                            Rejection::Destination(target) => {
                                ConnectionOutcome::DestinationRejected(target)
                            },
                        };
                        (Supervisor { client, stage: Stage::Rejected }, Action::Report(outcome))
                    },
                    Event::Failed(error) => Self::fail(client, ConnectionError::Io(error)),
                    _ => Self::fail(client, ConnectionError::Protocol),
                },
                Dispatch::Connecting(dest) => match event {
                    Event::Connected => (
                        Supervisor {
                            client,
                            stage: Stage::Dispatching(Dispatch::Confirming(dest)),
                        },
                        Action::Respond(ServerResponse::Established),
                    ),
                    Event::Failed(error) => Self::fail(client, ConnectionError::Io(error)),
                    _ => Self::fail(client, ConnectionError::Protocol),
                },
                Dispatch::Confirming(dest) => match event {
                    Event::ResponseSent => (
                        Supervisor { client, stage: Stage::Tunneling(dest) },
                        Action::RunTunnel { client, dest },
                    ),
                    Event::Failed(error) => Self::fail(client, ConnectionError::Io(error)),
                    _ => Self::fail(client, ConnectionError::Protocol),
                },
            },
            Stage::Tunneling(dest) => match event {
                Event::TunnelEnded(Ok(stats)) => (
                    Supervisor { client, stage: Stage::Completed },
                    Action::Report(ConnectionOutcome::TunnelCompleted(client, dest, stats)),
                ),
                Event::TunnelEnded(Err(RelayError::Io(error))) => Self::fail(
                    client,
                    ConnectionError::Io(error),
                ),
                Event::TunnelEnded(Err(RelayError::Protocol)) => Self::fail(
                    client,
                    ConnectionError::Protocol,
                ),
                Event::Failed(error) => Self::fail(client, ConnectionError::Io(error)),
                _ => Self::fail(client, ConnectionError::Protocol),
            },
            Stage::Completed | Stage::Rejected | Stage::Failed => Self::fail(
                client,
                ConnectionError::Protocol,
            ),
        }
    }

    /// Takes one event and returns the state that follows together with the
    /// next thing to do. The destination policy is asked only when the event
    /// brings the address of the target, and then about the target exactly as
    /// the request gave it.
    pub fn step<E>(self, event: Event<A, E>, policy: &DestinationValidator) -> (r: (
        Supervisor<A>,
        Action<A, E>,
    ))
        ensures
            r == self.next(event, self.verdict(event, *policy)),
    {
        let allowed = match &self.stage {
            Stage::Dispatching(Dispatch::Resolving(target)) => match &event {
                Event::Resolved(Some(_)) => policy.matches(target.as_str()),
                _ => false,
            },
            _ => false,
        };
        self.advance(event, allowed)
    }
}

impl<A> Stage<A> {
    /// The most events a connection at this stage can still take before it is
    /// over.
    pub open spec fn steps_left(self) -> nat {
        match self {
            Stage::Accepted => 7,
            Stage::Handshaking => 6,
            Stage::AwaitingRequest => 5,
            Stage::Dispatching(Dispatch::Resolving(_)) => 4,
            Stage::Dispatching(Dispatch::Connecting(_)) => 3,
            Stage::Dispatching(Dispatch::Confirming(_)) => 2,
            Stage::Dispatching(Dispatch::Refusing(_)) => 2,
            Stage::Dispatching(Dispatch::Closing(_)) => 1,
            Stage::Tunneling(_) => 1,
            Stage::Completed | Stage::Rejected | Stage::Failed => 0,
        }
    }
}

impl<A: Copy> Supervisor<A> {
    /// The state reached from this one after `events`, taken in order, with
    /// `policy` deciding on the destination.
    pub open spec fn run<E>(
        self,
        events: Seq<Event<A, E>>,
        policy: DestinationValidator,
    ) -> Supervisor<A>
        decreases events.len(),
    {
        if events.len() == 0 {
            self
        } else {
            let before = self.run(events.drop_last(), policy);
            before.next(events.last(), before.verdict(events.last(), policy)).0
        }
    }

    /// What the supervisor asks for in answer to the last of `events`.
    pub open spec fn answer<E>(
        self,
        events: Seq<Event<A, E>>,
        policy: DestinationValidator,
    ) -> Action<A, E> {
        let before = self.run(events.drop_last(), policy);
        before.next(events.last(), before.verdict(events.last(), policy)).1
    }

    /// Whether every event of `events` answers what the supervisor was waiting
    /// for when it arrived.
    pub open spec fn well_driven<E>(
        self,
        events: Seq<Event<A, E>>,
        policy: DestinationValidator,
    ) -> bool
        decreases events.len(),
    {
        events.len() == 0 || (self.well_driven(events.drop_last(), policy) && self.run(
            events.drop_last(),
            policy,
        ).in_turn(events.last()))
    }
}

/// Whether `events` begin with a handshake, a CONNECT request, and the lookup
/// of its target to `dest`, and `policy` allows that target.
pub open spec fn passed_both_gates<A, E>(
    events: Seq<Event<A, E>>,
    policy: DestinationValidator,
    dest: A,
) -> bool {
    &&& events.len() >= 4
    &&& events[0] is Start
    &&& events[1] is HandshakeDone
    &&& events[2] matches Event::Request(request)
    &&& is_connect(request.method@)
    &&& policy.accepts(request.target@)
    &&& events[3] == Event::<A, E>::Resolved(Some(dest))
}

/// Whether `events` begin with a handshake and a request whose method is not
/// CONNECT.
pub open spec fn asked_for_other_method<A, E>(events: Seq<Event<A, E>>, method: String) -> bool {
    &&& events.len() >= 3
    &&& events[0] is Start
    &&& events[1] is HandshakeDone
    &&& events[2] matches Event::Request(request)
    &&& !is_connect(request.method@)
    &&& request.method == method
}

/// Whether `events` begin with a handshake, a CONNECT request for `target`,
/// and a lookup after which the target is turned away: it found no address, or
/// `policy` does not allow the target.
pub open spec fn turned_away<A, E>(
    events: Seq<Event<A, E>>,
    policy: DestinationValidator,
    target: String,
) -> bool {
    &&& events.len() >= 4
    &&& events[0] is Start
    &&& events[1] is HandshakeDone
    &&& events[2] matches Event::Request(request)
    &&& is_connect(request.method@)
    &&& request.target == target
    &&& match events[3] {
        Event::Resolved(Some(_)) => !policy.accepts(target@),
        Event::Resolved(None) | Event::Failed(_) => true,
        _ => false,
    }
}

/// What a stage says about the events that led to it.
spec fn explains<A, E>(
    stage: Stage<A>,
    events: Seq<Event<A, E>>,
    policy: DestinationValidator,
) -> bool {
    match stage {
        Stage::Accepted => events.len() == 0,
        Stage::Handshaking => events.len() == 1 && events[0] is Start,
        Stage::AwaitingRequest => events.len() == 2 && events[0] is Start && events[1]
            is HandshakeDone,
        Stage::Dispatching(Dispatch::Resolving(target)) => {
            &&& events.len() == 3
            &&& events[0] is Start
            &&& events[1] is HandshakeDone
            &&& events[2] matches Event::Request(request)
            &&& is_connect(request.method@)
            &&& request.target == target
        },
        Stage::Dispatching(Dispatch::Refusing(Rejection::Method(method))) => {
            &&& events.len() == 3
            &&& asked_for_other_method(events, method)
        },
        Stage::Dispatching(Dispatch::Refusing(Rejection::Destination(target))) => {
            &&& events.len() == 4
            &&& turned_away(events, policy, target)
        },
        Stage::Dispatching(Dispatch::Closing(Rejection::Method(method))) => {
            &&& events.len() == 4
            &&& asked_for_other_method(events, method)
            &&& events[3] is ResponseSent
        },
        Stage::Dispatching(Dispatch::Closing(Rejection::Destination(target))) => {
            &&& events.len() == 5
            &&& turned_away(events, policy, target)
            &&& events[4] is ResponseSent
        },
        Stage::Dispatching(Dispatch::Connecting(dest)) => {
            &&& events.len() == 4
            &&& passed_both_gates(events, policy, dest)
        },
        Stage::Dispatching(Dispatch::Confirming(dest)) => {
            &&& events.len() == 5
            &&& passed_both_gates(events, policy, dest)
            &&& events[4] is Connected
        },
        Stage::Tunneling(dest) => {
            &&& events.len() == 6
            &&& passed_both_gates(events, policy, dest)
            &&& events[4] is Connected
            &&& events[5] is ResponseSent
        },
        Stage::Completed | Stage::Rejected | Stage::Failed => events.len() >= 1,
    }
}

proof fn lemma_stage_explains_events<A: Copy, E>(
    client: A,
    events: Seq<Event<A, E>>,
    policy: DestinationValidator,
)
    ensures
        explains(Supervisor::accepted(client).run(events, policy).stage, events, policy),
        Supervisor::accepted(client).run(events, policy).client == client,
    decreases events.len(),
{
    if events.len() != 0 {
        let before = events.drop_last();
        lemma_stage_explains_events(client, before, policy);
        assert(forall|i: int| 0 <= i < before.len() ==> before[i] == events[i]);
    }
}

/// No event leaves a connection where it was: each one either ends the
/// connection or brings it strictly closer to its end. Nothing is retried.
pub proof fn lemma_each_event_brings_the_end_closer<A: Copy, E>(
    supervisor: Supervisor<A>,
    event: Event<A, E>,
    allowed: bool,
)
    ensures
        supervisor.next(event, allowed).0.client == supervisor.client,
        supervisor.next(event, allowed).0.stage.is_terminal() || supervisor.next(
            event,
            allowed,
        ).0.stage.steps_left() < supervisor.stage.steps_left(),
        supervisor.next(event, allowed).1 is Report <==> supervisor.next(
            event,
            allowed,
        ).0.stage.is_terminal(),
{
}

/// Every connection comes to an end, and soon: after seven events at the
/// latest it is over. The outcome is reported with the event that ends the
/// connection and with no event before.
pub proof fn lemma_every_connection_ends<A: Copy, E>(
    client: A,
    events: Seq<Event<A, E>>,
    policy: DestinationValidator,
)
    ensures
        Supervisor::accepted(client).run(events, policy).stage.steps_left() + events.len() <= 7
            || Supervisor::accepted(client).run(events, policy).stage.is_terminal(),
        events.len() >= 7 ==> Supervisor::accepted(client).run(events, policy).stage.is_terminal(),
        events.len() >= 1 ==> (Supervisor::accepted(client).answer(events, policy) is Report
            <==> Supervisor::accepted(client).run(events, policy).stage.is_terminal()),
    decreases events.len(),
{
    if events.len() != 0 {
        lemma_every_connection_ends(client, events.drop_last(), policy);
    }
}

/// Nothing is done for a destination before it is due. The handshake is asked
/// for once and the request once, first and second. A target is looked up only
/// for a CONNECT request. A connection is opened only to the address that the
/// lookup of the target gave, and only if the policy allows the target; the
/// client is told "ok" only after that connection is open, and the tunnel runs
/// only after the client was told, between this client and that address. So a
/// target that does not resolve or is not allowed never causes an outbound
/// connection, and a request that is not a CONNECT never causes a lookup.
pub proof fn lemma_tunnel_needs_both_gates<A: Copy, E>(
    client: A,
    events: Seq<Event<A, E>>,
    policy: DestinationValidator,
)
    requires
        events.len() >= 1,
    ensures
        match Supervisor::accepted(client).answer(events, policy) {
            Action::Handshake => events.len() == 1,
            Action::ReadRequest => events.len() == 2,
            Action::Resolve(target) => {
                &&& events.len() == 3
                &&& events[2] matches Event::Request(request)
                &&& is_connect(request.method@)
                &&& request.target == target
            },
            Action::Connect(dest) => events.len() == 4 && passed_both_gates(events, policy, dest),
            Action::Respond(ServerResponse::Established) => {
                &&& events.len() == 5
                &&& events[4] is Connected
                &&& exists|dest: A| passed_both_gates(events, policy, dest)
            },
            Action::RunTunnel { client: from, dest } => {
                &&& events.len() == 6
                &&& from == client
                &&& passed_both_gates(events, policy, dest)
                &&& events[4] is Connected
                &&& events[5] is ResponseSent
            },
            _ => true,
        },
{
    let before = events.drop_last();
    lemma_stage_explains_events(client, before, policy);
    assert(forall|i: int| 0 <= i < before.len() ==> before[i] == events[i]);
    let stage = Supervisor::accepted(client).run(before, policy).stage;
    if let Stage::Dispatching(Dispatch::Connecting(dest)) = stage {
        assert(passed_both_gates(events, policy, dest));
    }
}

/// A refusal reaches the client before the connection is closed on it. Each
/// rejection is reported only after the half-close, the half-close is asked
/// for only after the error response went out, and the response fits the
/// reason: "method not allowed" for a method other than CONNECT, "bad request"
/// for a target without an address, "forbidden" for a target with an address
/// that the policy does not allow.
pub proof fn lemma_rejections_are_answered_first<A: Copy, E>(
    client: A,
    events: Seq<Event<A, E>>,
    policy: DestinationValidator,
)
    requires
        events.len() >= 1,
    ensures
        match Supervisor::accepted(client).answer(events, policy) {
            Action::Respond(ServerResponse::MethodNotAllowed) => {
                &&& events.len() == 3
                &&& exists|method: String| asked_for_other_method(events, method)
            },
            Action::Respond(ServerResponse::BadRequest) => {
                &&& events.len() == 4
                &&& exists|target: String| turned_away(events, policy, target)
                &&& !(events[3] matches Event::Resolved(Some(_)))
            },
            Action::Respond(ServerResponse::Forbidden) => {
                &&& events.len() == 4
                &&& exists|target: String| turned_away(events, policy, target)
                &&& events[3] matches Event::Resolved(Some(_))
            },
            Action::HalfClose => {
                &&& events.last() is ResponseSent
                &&& Supervisor::accepted(client).answer(events.drop_last(), policy)
                    matches Action::Respond(response)
                &&& response != ServerResponse::Established
            },
            Action::Report(ConnectionOutcome::MethodRejected(method)) => {
                &&& events.len() == 5
                &&& asked_for_other_method(events, method)
                &&& events[3] is ResponseSent
                &&& events[4] is Closed
                &&& Supervisor::accepted(client).answer(events.drop_last(), policy) is HalfClose
            },
            Action::Report(ConnectionOutcome::DestinationRejected(target)) => {
                &&& events.len() == 6
                &&& turned_away(events, policy, target)
                &&& events[4] is ResponseSent
                &&& events[5] is Closed
                &&& Supervisor::accepted(client).answer(events.drop_last(), policy) is HalfClose
            },
            _ => true,
        },
{
    let before = events.drop_last();
    lemma_stage_explains_events(client, before, policy);
    assert(forall|i: int| 0 <= i < before.len() ==> before[i] == events[i]);
    let stage = Supervisor::accepted(client).run(before, policy).stage;
    match stage {
        Stage::AwaitingRequest => {
            if let Event::Request(request) = events.last() {
                assert(events[2] == events.last());
                if !is_connect(request.method@) {
                    assert(asked_for_other_method(events, request.method));
                }
            }
        },
        Stage::Dispatching(Dispatch::Resolving(target)) => {
            assert(events[3] == events.last());
            if Supervisor::accepted(client).answer(events, policy) is Respond {
                assert(turned_away(events, policy, target));
            }
        },
        Stage::Dispatching(Dispatch::Refusing(rejection)) => {
            let earlier = before.drop_last();
            lemma_stage_explains_events(client, earlier, policy);
            assert(forall|i: int| 0 <= i < earlier.len() ==> earlier[i] == events[i]);
        },
        Stage::Dispatching(Dispatch::Closing(rejection)) => {
            let earlier = before.drop_last();
            lemma_stage_explains_events(client, earlier, policy);
            assert(forall|i: int| 0 <= i < earlier.len() ==> earlier[i] == events[i]);
        },
        _ => {},
    }
}

/// An outcome keeps its cause. A connection is reported as refused only for a
/// failed handshake, and as failed with an I/O error only for a later operation
/// or a tunnel that failed with that very error; a lookup that failed fails
/// nothing. A completed tunnel is reported only for a tunnel that ran between
/// this client and the address that passed both gates, with the statistics
/// that the tunnel gave.
pub proof fn lemma_outcomes_keep_their_cause<A: Copy, E>(
    client: A,
    events: Seq<Event<A, E>>,
    policy: DestinationValidator,
)
    requires
        events.len() >= 1,
    ensures
        match Supervisor::accepted(client).answer(events, policy) {
            Action::Report(ConnectionOutcome::Failed(ConnectionError::Refused(error))) => {
                &&& events.len() == 2
                &&& events[0] is Start
                &&& events[1] == Event::<A, E>::Failed(error)
            },
            Action::Report(ConnectionOutcome::Failed(ConnectionError::Io(error))) => {
                &&& events.len() >= 3
                &&& !(Supervisor::accepted(client).run(events.drop_last(), policy).stage
                    matches Stage::Dispatching(Dispatch::Resolving(_)))
                &&& events.last() == Event::<A, E>::Failed(error) || events.last() == Event::<
                    A,
                    E,
                >::TunnelEnded(Err(RelayError::Io(error)))
            },
            Action::Report(ConnectionOutcome::Failed(ConnectionError::Protocol)) => {
                ||| !Supervisor::accepted(client).run(events.drop_last(), policy).in_turn(
                    events.last(),
                )
                ||| events.last() == Event::<A, E>::TunnelEnded(Err(RelayError::Protocol))
            },
            Action::Report(ConnectionOutcome::TunnelCompleted(from, dest, stats)) => {
                &&& events.len() == 7
                &&& from == client
                &&& passed_both_gates(events, policy, dest)
                &&& events[4] is Connected
                &&& events[5] is ResponseSent
                &&& events[6] == Event::<A, E>::TunnelEnded(Ok(stats))
            },
            _ => true,
        },
{
    let before = events.drop_last();
    lemma_stage_explains_events(client, before, policy);
    assert(forall|i: int| 0 <= i < before.len() ==> before[i] == events[i]);
    let stage = Supervisor::accepted(client).run(before, policy).stage;
    if let Stage::Tunneling(dest) = stage {
        assert(passed_both_gates(events, policy, dest));
    }
}

/// A connection has one outcome. While it is driven in turn, it is not over
/// before its last event, so nothing was reported before; and it is never
/// reported as driven out of turn, unless its tunnel was.
pub proof fn lemma_outcome_is_reported_once<A: Copy, E>(
    client: A,
    events: Seq<Event<A, E>>,
    policy: DestinationValidator,
)
    requires
        Supervisor::accepted(client).well_driven(events, policy),
        events.len() >= 1,
    ensures
        !Supervisor::accepted(client).run(events.drop_last(), policy).stage.is_terminal(),
        events.len() >= 2 ==> !(Supervisor::accepted(client).answer(events.drop_last(), policy)
            is Report),
        Supervisor::accepted(client).answer(events, policy) == Action::<A, E>::Report(
            ConnectionOutcome::Failed(ConnectionError::Protocol),
        ) ==> events.last() == Event::<A, E>::TunnelEnded(Err(RelayError::Protocol)),
{
    if events.len() >= 2 {
        lemma_every_connection_ends(client, events.drop_last(), policy);
    }
}

} // verus!
