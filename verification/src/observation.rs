//! What an observation reports, and the decisions of a resilient observation:
//! which update or failure to pass on, when to give up on a subscription and
//! how long to wait before subscribing again.
//!
//! The subscription itself, the waiting and the channel to the consumer belong
//! to the caller, which feeds each outcome to `Supervisor::step` and carries
//! out the returned action.
use vstd::prelude::*;
use crate::client::{backoff, min_reconnect_nanos, next_reconnect_delay, ReconnectOptions};
use crate::error::Error;
use crate::time::TimeSpan;

verus! {

/// A failure passed to the consumer of an observation.
#[derive(Debug)]
pub enum ObservationFailure {
    Transport { kind: std::io::ErrorKind, message: String },
    Decode(String),
    Lagged(u64),
    Ended,
    Reconnect(String),
}

impl Clone for ObservationFailure {
    fn clone(&self) -> (r: Self)
        ensures
            r == *self,
    {
        match self {
            ObservationFailure::Transport { kind, message } => ObservationFailure::Transport {
                kind: *kind,
                message: message.clone(),
            },
            ObservationFailure::Decode(message) => ObservationFailure::Decode(message.clone()),
            ObservationFailure::Lagged(dropped) => ObservationFailure::Lagged(*dropped),
            ObservationFailure::Ended => ObservationFailure::Ended,
            ObservationFailure::Reconnect(message) => ObservationFailure::Reconnect(
                message.clone(),
            ),
        }
    }
}

/// The error that the consumer receives for a failure.
pub open spec fn failure_error(failure: ObservationFailure) -> Error {
    match failure {
        ObservationFailure::Transport { kind, message } => Error::ObservationTransport {
            kind,
            message,
        },
        ObservationFailure::Decode(message) => Error::ObservationDecode(message),
        ObservationFailure::Lagged(dropped) => Error::ObservationLagged { dropped },
        ObservationFailure::Ended => Error::ObservationEnded,
        ObservationFailure::Reconnect(message) => Error::ObservationReconnect(message),
    }
}

impl ObservationFailure {
    pub fn into_error(self) -> (r: Error)
        ensures
            r == failure_error(self),
    {
        match self {
            ObservationFailure::Transport { kind, message } => Error::ObservationTransport {
                kind,
                message,
            },
            ObservationFailure::Decode(message) => Error::ObservationDecode(message),
            ObservationFailure::Lagged(dropped) => Error::ObservationLagged { dropped },
            ObservationFailure::Ended => Error::ObservationEnded,
            ObservationFailure::Reconnect(message) => Error::ObservationReconnect(message),
        }
    }
}

/// A receive error of the bounded channel that carries observations: the
/// receiver fell behind and `0` older messages were dropped.
#[derive(Clone, Copy, PartialEq, Eq, Structural, Debug)]
pub enum StreamRecvError {
    Lagged(u64),
}

/// What the consumer of an observation receives for one item of the channel.
pub open spec fn observation_item<T>(
    item: Option<Result<Result<T, ObservationFailure>, StreamRecvError>>,
) -> Option<Result<T, Error>> {
    match item {
        Some(Ok(Ok(value))) => Some(Ok(value)),
        Some(Ok(Err(failure))) => Some(Err(failure_error(failure))),
        Some(Err(StreamRecvError::Lagged(dropped))) => Some(
            Err(Error::ObservationLagged { dropped }),
        ),
        None => None,
    }
}

/// Maps a channel item to what the consumer receives: values pass through,
/// failures become errors, and a lag becomes `ObservationLagged`.
pub fn map_observation_item<T>(item: Option<Result<Result<T, ObservationFailure>, StreamRecvError>>) -> (r: Option<
    Result<T, Error>,
>)
    ensures
        r == observation_item(item),
{
    match item {
        Some(Ok(Ok(value))) => Some(Ok(value)),
        Some(Ok(Err(failure))) => Some(Err(failure.into_error())),
        Some(Err(StreamRecvError::Lagged(dropped))) => Some(
            Err(Error::ObservationLagged { dropped }),
        ),
        None => None,
    }
}

/// Whether the supervisor is following a subscription or waiting to make a
/// new one.
#[derive(Clone, Copy, PartialEq, Eq, Structural, Debug)]
pub enum SupervisorPhase {
    Observing,
    Reconnecting,
}

/// One outcome that the caller reports to the supervisor.
#[derive(Debug)]
pub enum SupervisorEvent {
    /// The subscription delivered a new snapshot.
    Update,
    /// The subscription delivered an error.
    Failure(Error),
    /// The subscription ended.
    Ended,
    /// After waiting, a new subscription was made.
    Reconnected,
    /// After waiting, a new subscription failed; the text describes why.
    ReconnectFailed(String),
}

/// A message for the consumer.
#[derive(Debug)]
pub enum Outgoing {
    /// The snapshot just received.
    Update,
    /// This failure.
    Failure(ObservationFailure),
    /// A reconnect failure whose text is the display text of this error.
    FailureDescribing(Error),
}

/// What the caller does after a step: send `message` when there is one, and
/// stop observing when it cannot be delivered and `stop_if_undelivered` holds.
#[derive(Debug)]
pub struct SupervisorAction {
    pub message: Option<Outgoing>,
    pub stop_if_undelivered: bool,
}

/// Model of a supervisor: the delays in nanoseconds.
pub struct SupervisorView {
    pub initial: nat,
    pub max: nat,
    pub delay: nat,
    pub saw_update: bool,
    pub phase: SupervisorPhase,
}

/// The decisions of a resilient observation.
pub struct Supervisor {
    reconnect: ReconnectOptions,
    delay: TimeSpan,
    saw_update: bool,
    phase: SupervisorPhase,
}

impl View for Supervisor {
    type V = SupervisorView;

    closed spec fn view(&self) -> SupervisorView {
        SupervisorView {
            initial: self.reconnect.initial_delay@,
            max: self.reconnect.max_delay@,
            delay: self.delay@,
            saw_update: self.saw_update,
            phase: self.phase,
        }
    }
}

/// The state after giving up on the current subscription: wait before the
/// next one, longer than before unless the subscription delivered an update.
pub open spec fn after_subscription(s: SupervisorView) -> SupervisorView {
    SupervisorView {
        delay: if s.saw_update {
            s.delay
        } else {
            backoff(s.delay, s.max)
        },
        phase: SupervisorPhase::Reconnecting,
        ..s
    }
}

/// The event is one that a followed subscription can deliver without ending:
/// an update, a lag, or an undecodable payload.
pub open spec fn within_subscription(event: SupervisorEvent) -> bool {
    match event {
        SupervisorEvent::Update => true,
        SupervisorEvent::Failure(error) => error is ObservationLagged || error is ObservationDecode,
        _ => false,
    }
}

/// The event ends a followed subscription: it ended, or failed otherwise than
/// by a lag or an undecodable payload.
pub open spec fn ends_subscription(event: SupervisorEvent) -> bool {
    match event {
        SupervisorEvent::Ended => true,
        SupervisorEvent::Failure(error) => !(error is ObservationLagged) && !(
        error is ObservationDecode),
        _ => false,
    }
}

/// The state after `event`, as `Supervisor::step` makes it.
pub open spec fn next_view(s: SupervisorView, event: SupervisorEvent) -> SupervisorView {
    match s.phase {
        SupervisorPhase::Observing => if event is Update {
            SupervisorView { delay: s.initial, saw_update: true, ..s }
        } else if ends_subscription(event) {
            after_subscription(s)
        } else {
            s
        },
        SupervisorPhase::Reconnecting => match event {
            SupervisorEvent::Reconnected => SupervisorView {
                saw_update: false,
                phase: SupervisorPhase::Observing,
                ..s
            },
            SupervisorEvent::ReconnectFailed(_) => SupervisorView {
                delay: backoff(s.delay, s.max),
                ..s
            },
            _ => s,
        },
    }
}

/// The state after each of `events` in turn.
pub open spec fn run(s: SupervisorView, events: Seq<SupervisorEvent>) -> SupervisorView
    decreases events.len(),
{
    if events.len() == 0 {
        s
    } else {
        next_view(run(s, events.drop_last()), events.last())
    }
}

/// Some event of `events` is an update.
pub open spec fn has_update(events: Seq<SupervisorEvent>) -> bool {
    exists|i: int| 0 <= i < events.len() && #[trigger] events[i] is Update
}

proof fn lemma_run_within(s: SupervisorView, body: Seq<SupervisorEvent>)
    requires
        s.phase == SupervisorPhase::Observing,
        !s.saw_update,
        forall|i: int| 0 <= i < body.len() ==> within_subscription(#[trigger] body[i]),
    ensures
        run(s, body).phase == SupervisorPhase::Observing,
        run(s, body).initial == s.initial,
        run(s, body).max == s.max,
        run(s, body).saw_update == has_update(body),
        run(s, body).delay == if has_update(body) {
            s.initial
        } else {
            s.delay
        },
    decreases body.len(),
{
    if body.len() > 0 {
        let rest = body.drop_last();
        assert forall|i: int| 0 <= i < rest.len() implies within_subscription(#[trigger] rest[i]) by {
            assert(rest[i] == body[i]);
        }
        lemma_run_within(s, rest);
        if has_update(rest) {
            let i = choose|i: int| 0 <= i < rest.len() && #[trigger] rest[i] is Update;
            assert(body[i] == rest[i]);
        }
        if has_update(body) && !(body.last() is Update) {
            let i = choose|i: int| 0 <= i < body.len() && #[trigger] body[i] is Update;
            assert(rest[i] == body[i]);
        }
        if body.last() is Update {
            assert(body[body.len() - 1] is Update);
        }
        assert(within_subscription(body[body.len() - 1]));
    }
}

/// Backoff over one subscription: a fresh subscription, made after waiting
/// `s.delay` (or the first one, with the initial delay), delivers events that
/// keep it going and then one that ends it. Afterwards the supervisor waits
/// to resubscribe, and the wait is the initial delay when the subscription
/// delivered an update, and otherwise twice the last wait, saturating, but
/// no more than the maximum.
pub proof fn lemma_subscription_backoff(
    s: SupervisorView,
    body: Seq<SupervisorEvent>,
    end: SupervisorEvent,
)
    requires
        s.phase == SupervisorPhase::Observing,
        !s.saw_update,
        forall|i: int| 0 <= i < body.len() ==> within_subscription(#[trigger] body[i]),
        ends_subscription(end),
    ensures
        run(s, body.push(end)).phase == SupervisorPhase::Reconnecting,
        run(s, body.push(end)).initial == s.initial,
        run(s, body.push(end)).max == s.max,
        run(s, body.push(end)).delay == if has_update(body) {
            s.initial
        } else {
            backoff(s.delay, s.max)
        },
{
    lemma_run_within(s, body);
    let events = body.push(end);
    assert(events.drop_last() =~= body);
    assert(events.last() == end);
}

/// Backoff over a failed resubscription: the wait doubles, saturating, but
/// grows no further than the maximum.
pub proof fn lemma_failed_resubscription_backoff(s: SupervisorView, message: String)
    requires
        s.phase == SupervisorPhase::Reconnecting,
    ensures
        run(s, seq![SupervisorEvent::ReconnectFailed(message)]).phase
            == SupervisorPhase::Reconnecting,
        run(s, seq![SupervisorEvent::ReconnectFailed(message)]).delay == backoff(s.delay, s.max),
{
    let events = seq![SupervisorEvent::ReconnectFailed(message)];
    assert(events.drop_last() =~= Seq::<SupervisorEvent>::empty());
    assert(run(s, events.drop_last()) == s);
    assert(events.last() == SupervisorEvent::ReconnectFailed(message));
}

/// A successful resubscription starts a fresh subscription that was made
/// after waiting the current delay.
pub proof fn lemma_resubscription_is_fresh(s: SupervisorView)
    requires
        s.phase == SupervisorPhase::Reconnecting,
    ensures
        run(s, seq![SupervisorEvent::Reconnected]) == (SupervisorView {
            saw_update: false,
            phase: SupervisorPhase::Observing,
            ..s
        }),
{
    let events = seq![SupervisorEvent::Reconnected];
    assert(events.drop_last() =~= Seq::<SupervisorEvent>::empty());
    assert(run(s, events.drop_last()) == s);
    assert(events.last() == SupervisorEvent::Reconnected);
}

impl Supervisor {
    #[verifier::type_invariant]
    spec fn wf(self) -> bool {
        &&& min_reconnect_nanos() <= self.reconnect.initial_delay@
        &&& self.reconnect.initial_delay@ <= self.delay@
        &&& self.delay@ <= self.reconnect.max_delay@
        &&& (self.phase == SupervisorPhase::Observing && self.saw_update ==> self.delay@
            == self.reconnect.initial_delay@)
    }

    /// A supervisor of a fresh subscription with the given backoff options,
    /// normalized: no wait is shorter than 100 ms nor longer than the maximum.
    pub fn new(reconnect: ReconnectOptions) -> (r: Supervisor)
        ensures
            r@.initial == crate::client::max_of(
                reconnect.initial_delay@,
                min_reconnect_nanos(),
            ),
            r@.max == crate::client::max_of(reconnect.max_delay@, r@.initial),
            r@.delay == r@.initial,
            !r@.saw_update,
            r@.phase == SupervisorPhase::Observing,
    {
        let reconnect = reconnect.normalized();
        Supervisor {
            reconnect,
            delay: reconnect.initial_delay,
            saw_update: false,
            phase: SupervisorPhase::Observing,
        }
    }

    pub fn phase(&self) -> (r: SupervisorPhase)
        ensures
            r == self@.phase,
    {
        self.phase
    }

    /// The wait before the next subscription. It is never below 100 ms nor
    /// outside the normalized range, and it is the initial delay while a
    /// subscription that delivered an update is followed.
    pub fn delay(&self) -> (r: TimeSpan)
        ensures
            r@ == self@.delay,
            min_reconnect_nanos() <= self@.initial <= r@ <= self@.max,
            self@.phase == SupervisorPhase::Observing && self@.saw_update ==> r@ == self@.initial,
    {
        proof {
            use_type_invariant(self);
        }
        self.delay
    }

    /// Decides what to do about `event`. An event that does not belong to the
    /// current phase changes nothing.
    pub fn step(&mut self, event: SupervisorEvent) -> (r: SupervisorAction)
        ensures
            min_reconnect_nanos() <= final(self)@.initial <= final(self)@.delay
                <= final(self)@.max,
            final(self)@ == next_view(old(self)@, event),
            final(self)@.initial == old(self)@.initial,
            final(self)@.max == old(self)@.max,
            match (old(self)@.phase, event) {
                (SupervisorPhase::Observing, SupervisorEvent::Update) => {
                    &&& final(self)@ == SupervisorView {
                        delay: old(self)@.initial,
                        saw_update: true,
                        ..old(self)@
                    }
                    &&& r.message matches Some(Outgoing::Update)
                    &&& r.stop_if_undelivered
                },
                (SupervisorPhase::Observing, SupervisorEvent::Failure(error)) => match error {
                    Error::ObservationLagged { dropped } => {
                        &&& final(self)@ == old(self)@
                        &&& r.message == Some(Outgoing::Failure(ObservationFailure::Lagged(dropped)))
                        &&& r.stop_if_undelivered
                    },
                    Error::ObservationDecode(message) => {
                        &&& final(self)@ == old(self)@
                        &&& r.message == Some(Outgoing::Failure(ObservationFailure::Decode(message)))
                        &&& r.stop_if_undelivered
                    },
                    Error::ObservationTransport { kind, message } => {
                        &&& final(self)@ == after_subscription(old(self)@)
                        &&& r.message == Some(
                            Outgoing::Failure(ObservationFailure::Transport { kind, message }),
                        )
                        &&& !r.stop_if_undelivered
                    },
                    _ => {
                        &&& final(self)@ == after_subscription(old(self)@)
                        &&& r.message == Some(Outgoing::FailureDescribing(error))
                        &&& !r.stop_if_undelivered
                    },
                },
                (SupervisorPhase::Observing, SupervisorEvent::Ended) => {
                    &&& final(self)@ == after_subscription(old(self)@)
                    &&& r.message == Some(Outgoing::Failure(ObservationFailure::Ended))
                    &&& !r.stop_if_undelivered
                },
                (SupervisorPhase::Reconnecting, SupervisorEvent::Reconnected) => {
                    &&& final(self)@ == SupervisorView {
                        saw_update: false,
                        phase: SupervisorPhase::Observing,
                        ..old(self)@
                    }
                    &&& r.message is None
                },
                (SupervisorPhase::Reconnecting, SupervisorEvent::ReconnectFailed(message)) => {
                    &&& final(self)@ == SupervisorView {
                        delay: backoff(old(self)@.delay, old(self)@.max),
                        ..old(self)@
                    }
                    &&& r.message == Some(
                        Outgoing::Failure(ObservationFailure::Reconnect(message)),
                    )
                    &&& r.stop_if_undelivered
                },
                _ => {
                    &&& final(self)@ == old(self)@
                    &&& r.message is None
                    &&& !r.stop_if_undelivered
                },
            },
    {
        proof {
            use_type_invariant(&*self);
        }
        let action = match (self.phase, event) {
            (SupervisorPhase::Observing, SupervisorEvent::Update) => {
                self.delay = self.reconnect.initial_delay;
                self.saw_update = true;
                SupervisorAction { message: Some(Outgoing::Update), stop_if_undelivered: true }
            },
            (SupervisorPhase::Observing, SupervisorEvent::Failure(error)) => match error {
                Error::ObservationLagged { dropped } => SupervisorAction {
                    message: Some(Outgoing::Failure(ObservationFailure::Lagged(dropped))),
                    stop_if_undelivered: true,
                },
                Error::ObservationDecode(message) => SupervisorAction {
                    message: Some(Outgoing::Failure(ObservationFailure::Decode(message))),
                    stop_if_undelivered: true,
                },
                Error::ObservationTransport { kind, message } => {
                    self.end_subscription();
                    SupervisorAction {
                        message: Some(
                            Outgoing::Failure(ObservationFailure::Transport { kind, message }),
                        ),
                        stop_if_undelivered: false,
                    }
                },
                other => {
                    self.end_subscription();
                    SupervisorAction {
                        message: Some(Outgoing::FailureDescribing(other)),
                        stop_if_undelivered: false,
                    }
                },
            },
            (SupervisorPhase::Observing, SupervisorEvent::Ended) => {
                self.end_subscription();
                SupervisorAction {
                    message: Some(Outgoing::Failure(ObservationFailure::Ended)),
                    stop_if_undelivered: false,
                }
            },
            (SupervisorPhase::Reconnecting, SupervisorEvent::Reconnected) => {
                self.saw_update = false;
                self.phase = SupervisorPhase::Observing;
                SupervisorAction { message: None, stop_if_undelivered: false }
            },
            (SupervisorPhase::Reconnecting, SupervisorEvent::ReconnectFailed(message)) => {
                self.delay = next_reconnect_delay(self.delay, self.reconnect.max_delay);
                SupervisorAction {
                    message: Some(Outgoing::Failure(ObservationFailure::Reconnect(message))),
                    stop_if_undelivered: true,
                }
            },
            _ => SupervisorAction { message: None, stop_if_undelivered: false },
        };
        proof {
            use_type_invariant(&*self);
        }
        action
    }

    fn end_subscription(&mut self)
        ensures
            final(self)@ == after_subscription(old(self)@),
    {
        proof {
            use_type_invariant(&*self);
        }
        if !self.saw_update {
            self.delay = next_reconnect_delay(self.delay, self.reconnect.max_delay);
        }
        self.phase = SupervisorPhase::Reconnecting;
    }
}

} // verus!
