//! The lifecycle of a synchronized client.
//!
//! The lifecycle is a state machine. A driver performs the task that the
//! machine is at and reports what came of it; the machine answers with the
//! effects to carry out, in order, and moves on.

use std::sync::Arc;
use vstd::arithmetic::power2;
use vstd::prelude::*;

use crate::duration::Duration;
use crate::error::{Error, ErrorKind};
use crate::snapshot::MixerSnapshot;
use crate::transport::Compatibility;

verus! {

/// How many events a subscriber may fall behind.
pub const EVENT_CAPACITY: usize = 32;

/// Calls the `clone` of `std::sync::Arc`: another pointer to the same snapshot.
#[verifier::external_body]
fn share(snapshot: &Arc<MixerSnapshot>) -> (r: Arc<MixerSnapshot>)
    ensures
        r == *snapshot,
{
    Arc::clone(snapshot)
}

/// The state of a synchronized client.
#[derive(Clone, Copy, Debug, PartialEq, Eq, Structural)]
#[non_exhaustive]
pub enum ConnectionState {
    Disconnected,
    Connecting,
    Synchronizing,
    Ready,
    ReadOnlyUnknownRevision,
    Reconnecting,
    Shutdown,
}

/// Something that happened to a synchronized client.
#[derive(Clone, Debug)]
#[non_exhaustive]
pub enum Event {
    StateChanged(ConnectionState),
    Snapshot(Arc<MixerSnapshot>),
    Resynchronized(Arc<MixerSnapshot>),
    LaggedAndResynchronized { skipped: u64, snapshot: Arc<MixerSnapshot> },
    Shutdown,
}

/// How long to wait before the next attempt to connect, in milliseconds: the
/// base doubles from 250 with each of the first attempts up to 4000, and a
/// factor of 80 to 120 percent that differs between attempts spreads it.
pub open spec fn backoff_millis(attempt: u32) -> nat {
    let base: nat = if attempt == 0 {
        250
    } else if attempt == 1 {
        500
    } else if attempt == 2 {
        1000
    } else if attempt == 3 {
        2000
    } else {
        4000
    };
    let spread: nat = ((attempt * 37) % 0x1_0000_0000) as nat % 41;
    base * (80 + spread) / 100
}

/// Returns how long to wait before the next attempt to connect.
pub fn backoff(attempt: u32) -> (r: Duration)
    ensures
        r@ == backoff_millis(attempt) * 1_000_000,
{
    let base: u64 = if attempt == 0 {
        250
    } else if attempt == 1 {
        500
    } else if attempt == 2 {
        1000
    } else if attempt == 3 {
        2000
    } else {
        4000
    };
    let spread: u64 = ((attempt as u64 * 37) % 0x1_0000_0000) % 41;
    proof {
        assert(base * (80 + spread) <= 4000 * 120) by (nonlinear_arith)
            requires
                base <= 4000,
                spread <= 40,
        ;
    }
    Duration::from_millis(base * (80 + spread) / 100)
}

/// The wait before any attempt to connect lies between 200 ms and 4800 ms.
pub proof fn law_backoff_is_bounded(attempt: u32)
    ensures
        200 <= backoff_millis(attempt) <= 4800,
{
    let spread = ((attempt * 37) % 0x1_0000_0000) as nat % 41;
    assert(250 * (80 + spread) >= 20000 && 4000 * (80 + spread) <= 480000);
}

/// From the fifth attempt on the wait lies between 3200 ms and 4800 ms.
pub proof fn law_backoff_levels_off(attempt: u32)
    requires
        attempt >= 4,
    ensures
        3200 <= backoff_millis(attempt) <= 4800,
{
}

/// The waits are spread: the waits before two attempts in a row differ. The
/// product that spreads them wraps around once in many millions of attempts;
/// there two waits may be the same.
pub proof fn law_backoff_is_jittered(attempt: u32)
    requires
        (attempt * 37) % 0x1_0000_0000 + 37 < 0x1_0000_0000,
        attempt < u32::MAX,
    ensures
        backoff_millis(attempt) != backoff_millis((attempt + 1) as u32),
{
    let product = (attempt * 37) % 0x1_0000_0000;
    assert(((attempt + 1) * 37) % 0x1_0000_0000 == product + 37) by {
        vstd::arithmetic::div_mod::lemma_small_mod((product + 37) as nat, 0x1_0000_0000);
        vstd::arithmetic::div_mod::lemma_add_mod_noop(attempt * 37, 37, 0x1_0000_0000);
    }
}

/// The wait before an attempt is a whole percentage, from 80 to 120, of a base
/// that starts at 250 ms and doubles with each of the first four failures. The
/// percentage starts at 80 and moves by 37, modulo 41, from one attempt to the
/// next, as long as the product of 37 and the attempt fits in 32 bits.
pub proof fn law_backoff_doubles(attempt: u32)
    ensures
        ({
            let doublings: nat = if attempt < 4 {
                attempt as nat
            } else {
                4
            };
            let percent = 80 + (attempt * 37) % 0x1_0000_0000 % 41;
            &&& 80 <= percent <= 120
            &&& 100 * backoff_millis(attempt) <= 250 * power2::pow2(doublings) * percent
            &&& 250 * power2::pow2(doublings) * percent < 100 * (backoff_millis(attempt) + 1)
        }),
{
    power2::lemma2_to64();
    let base: int = if attempt == 0 {
        250
    } else if attempt == 1 {
        500
    } else if attempt == 2 {
        1000
    } else if attempt == 3 {
        2000
    } else {
        4000
    };
    let percent = 80 + (attempt * 37) % 0x1_0000_0000 % 41;
    vstd::arithmetic::div_mod::lemma_fundamental_div_mod(base * percent, 100);
}

/// A client that never failed waits 200 ms after its first failure.
pub proof fn law_first_wait_is_short(attempt: u32)
    ensures
        backoff_millis(attempt) == 200 <==> attempt == 0,
{
    if attempt == 1 {
        assert((1u32 * 37) % 0x1_0000_0000 % 41 == 37);
    }
}

/// What the driver is to do, and what it reports then.
#[derive(Clone, Copy, Debug)]
pub enum Task {
    /// Look whether a shutdown was requested: [`Input::ShutdownFlag`].
    CheckShutdown,
    /// Discover and connect: [`Input::Connection`].
    Connect,
    /// Sleep this long, or until a shutdown is requested:
    /// [`Input::BackoffOver`].
    Backoff(Duration),
    /// Read a snapshot: [`Input::Snapshot`].
    ReadSnapshot,
    /// Wait for a notification, a mutation or a shutdown request:
    /// [`Input::Notification`], [`Input::Mutated`] or [`Input::ShutdownFlag`].
    Watch,
    /// Close the connection: [`Input::Closed`].
    Close,
    /// Nothing more: the lifecycle is over.
    Stop,
}

/// What the driver reports.
#[derive(Debug)]
pub enum Input {
    /// Whether a shutdown is requested.
    ShutdownFlag(bool),
    /// The compatibility of the connection, or nothing where it failed.
    Connection(Option<Compatibility>),
    /// The wait is over. The flag says that a shutdown was requested.
    BackoffOver(bool),
    /// The snapshot, or nothing where it could not be read.
    Snapshot(Option<Arc<MixerSnapshot>>),
    /// A notification came, or waiting for one failed.
    Notification(bool),
    /// Mutations were carried out, whether or not they succeeded.
    Mutated,
    /// The connection is closed.
    Closed,
}

/// What the driver carries out.
#[derive(Debug)]
pub enum Effect {
    /// Make this the latest snapshot.
    ReplaceSnapshot(Arc<MixerSnapshot>),
    /// Make this the state and tell the subscribers.
    Transition(ConnectionState),
    /// Tell the subscribers.
    Emit(Event),
    /// Cancel all fades.
    CancelFades,
}

/// Whether a mutation may be carried out.
#[derive(Debug)]
pub enum Admission {
    /// It may be carried out now.
    Now,
    /// It waits until the snapshot that is being read is there.
    AfterSnapshot,
    /// It fails with this error.
    Refused(Error),
}

/// Where the lifecycle is.
#[derive(Clone, Copy, Debug, PartialEq, Eq, Structural)]
pub enum Phase {
    /// Before an attempt to connect.
    Begin,
    /// Connecting.
    Connecting,
    /// Waiting after a failed attempt.
    BackingOff,
    /// Reading the first snapshot of a connection.
    Synchronizing,
    /// Closing a connection whose first snapshot could not be read.
    Abandoning,
    /// Synchronized and watching.
    Watching,
    /// Reading a later snapshot of a connection.
    Resynchronizing,
    /// Closing the connection for good.
    Closing,
    /// Over.
    Stopped,
}

/// What a lifecycle is.
pub struct LifecycleModel {
    pub phase: Phase,
    pub attempt: u32,
    pub state: ConnectionState,
    pub compatibility: Option<Compatibility>,
    pub snapshot: Option<Arc<MixerSnapshot>>,
}

/// The state of a client that is synchronized with this compatibility.
pub open spec fn synchronized_state(compatibility: Option<Compatibility>) -> ConnectionState {
    if compatibility == Some(Compatibility::Revision2) {
        ConnectionState::Ready
    } else {
        ConnectionState::ReadOnlyUnknownRevision
    }
}

impl LifecycleModel {
    /// A lifecycle that has not begun.
    pub open spec fn initial() -> Self {
        LifecycleModel {
            phase: Phase::Begin,
            attempt: 0,
            state: ConnectionState::Disconnected,
            compatibility: None,
            snapshot: None,
        }
    }

    /// The lifecycle in another phase.
    pub open spec fn at(self, phase: Phase) -> Self {
        LifecycleModel { phase, ..self }
    }

    /// The lifecycle in another phase and state.
    pub open spec fn moved(self, phase: Phase, state: ConnectionState) -> Self {
        LifecycleModel { phase, state, ..self }
    }

    /// The lifecycle after it took over a snapshot.
    pub open spec fn synchronized(self, snapshot: Arc<MixerSnapshot>) -> Self {
        LifecycleModel {
            phase: Phase::Watching,
            attempt: 0,
            state: synchronized_state(self.compatibility),
            snapshot: Some(snapshot),
            ..self
        }
    }

    /// The state in which an attempt to connect is announced.
    pub open spec fn attempt_state(self) -> ConnectionState {
        if self.attempt == 0 {
            ConnectionState::Connecting
        } else {
            ConnectionState::Reconnecting
        }
    }

    /// The lifecycle after a report.
    pub open spec fn after(self, input: Input) -> Self {
        match (self.phase, input) {
            (Phase::Begin, Input::ShutdownFlag(true)) => self.moved(
                Phase::Stopped,
                ConnectionState::Shutdown,
            ),
            (Phase::Begin, Input::ShutdownFlag(false)) => self.moved(
                Phase::Connecting,
                self.attempt_state(),
            ),
            (Phase::Connecting, Input::Connection(None)) => self.at(Phase::BackingOff),
            (Phase::Connecting, Input::Connection(Some(compatibility))) => LifecycleModel {
                compatibility: Some(compatibility),
                ..self.moved(Phase::Synchronizing, ConnectionState::Synchronizing)
            },
            (Phase::BackingOff, Input::BackoffOver(true)) => self.moved(
                Phase::Stopped,
                ConnectionState::Shutdown,
            ),
            (Phase::BackingOff, Input::BackoffOver(false)) => LifecycleModel {
                attempt: if self.attempt < u32::MAX {
                    (self.attempt + 1) as u32
                } else {
                    u32::MAX
                },
                ..self.at(Phase::Begin)
            },
            (Phase::Synchronizing, Input::Snapshot(Some(snapshot))) => self.synchronized(snapshot),
            (Phase::Synchronizing, Input::Snapshot(None)) => self.at(Phase::Abandoning),
            (Phase::Abandoning, Input::Closed) => self.at(Phase::Begin),
            (Phase::Watching, Input::ShutdownFlag(true)) => self.at(Phase::Closing),
            (Phase::Watching, Input::Notification(true)) => self.moved(
                Phase::Resynchronizing,
                ConnectionState::Synchronizing,
            ),
            (Phase::Watching, Input::Mutated) => self.moved(
                Phase::Resynchronizing,
                ConnectionState::Synchronizing,
            ),
            (Phase::Watching, Input::Notification(false)) => self.moved(
                Phase::Begin,
                ConnectionState::Reconnecting,
            ),
            (Phase::Resynchronizing, Input::Snapshot(Some(snapshot))) => self.synchronized(
                snapshot,
            ),
            (Phase::Resynchronizing, Input::Snapshot(None)) => self.moved(
                Phase::Begin,
                ConnectionState::Reconnecting,
            ),
            (Phase::Closing, Input::Closed) => self.moved(
                Phase::Stopped,
                ConnectionState::Shutdown,
            ),
            _ => self,
        }
    }

    /// The effects of a report, in order.
    pub open spec fn effects(self, input: Input) -> Seq<Effect> {
        match (self.phase, input) {
            (Phase::Begin, Input::ShutdownFlag(true)) => farewell(),
            (Phase::Begin, Input::ShutdownFlag(false)) => seq![
                Effect::Transition(self.attempt_state()),
            ],
            (Phase::Connecting, Input::Connection(Some(_))) => seq![
                Effect::Transition(ConnectionState::Synchronizing),
            ],
            (Phase::BackingOff, Input::BackoffOver(true)) => farewell(),
            (Phase::Synchronizing, Input::Snapshot(Some(snapshot))) => seq![
                Effect::ReplaceSnapshot(snapshot),
                Effect::Transition(synchronized_state(self.compatibility)),
                Effect::Emit(
                    if self.snapshot is Some {
                        Event::Resynchronized(snapshot)
                    } else {
                        Event::Snapshot(snapshot)
                    },
                ),
            ],
            (Phase::Watching, Input::ShutdownFlag(true)) => seq![Effect::CancelFades],
            (Phase::Watching, Input::Notification(true)) => seq![
                Effect::Transition(ConnectionState::Synchronizing),
            ],
            (Phase::Watching, Input::Mutated) => seq![
                Effect::Transition(ConnectionState::Synchronizing),
            ],
            (Phase::Watching, Input::Notification(false)) => seq![
                Effect::CancelFades,
                Effect::Transition(ConnectionState::Reconnecting),
            ],
            (Phase::Resynchronizing, Input::Snapshot(Some(snapshot))) => seq![
                Effect::ReplaceSnapshot(snapshot),
                Effect::Transition(synchronized_state(self.compatibility)),
                Effect::Emit(Event::Resynchronized(snapshot)),
            ],
            (Phase::Resynchronizing, Input::Snapshot(None)) => seq![
                Effect::CancelFades,
                Effect::Transition(ConnectionState::Reconnecting),
            ],
            (Phase::Closing, Input::Closed) => farewell(),
            _ => seq![],
        }
    }
}

/// Why a mutation is refused in a phase, if it is.
pub open spec fn admission(phase: Phase) -> Option<(ErrorKind, Seq<char>)> {
    match phase {
        Phase::Watching => None,
        Phase::Synchronizing => None,
        Phase::Resynchronizing => None,
        Phase::Closing => Some((ErrorKind::Shutdown, "synchronized client is shut down"@)),
        Phase::Stopped => Some((ErrorKind::Shutdown, "synchronized client is shut down"@)),
        _ => Some((ErrorKind::Transport, "Wave Link is not connected"@)),
    }
}

/// The effects that end a lifecycle.
pub open spec fn farewell() -> Seq<Effect> {
    seq![Effect::Transition(ConnectionState::Shutdown), Effect::Emit(Event::Shutdown)]
}

/// The lifecycle of a synchronized client.
#[derive(Debug)]
pub struct Lifecycle {
    phase: Phase,
    attempt: u32,
    state: ConnectionState,
    compatibility: Option<Compatibility>,
    snapshot: Option<Arc<MixerSnapshot>>,
}

impl View for Lifecycle {
    type V = LifecycleModel;

    closed spec fn view(&self) -> LifecycleModel {
        LifecycleModel {
            phase: self.phase,
            attempt: self.attempt,
            state: self.state,
            compatibility: self.compatibility,
            snapshot: self.snapshot,
        }
    }
}

/// Builds the effects that end a lifecycle.
fn farewell_effects() -> (r: Vec<Effect>)
    ensures
        r@ == farewell(),
{
    let effects: Vec<Effect> = vec![
        Effect::Transition(ConnectionState::Shutdown),
        Effect::Emit(Event::Shutdown),
    ];
    assert(effects@ =~= farewell());
    effects
}

impl Lifecycle {
    /// Makes a lifecycle that has not begun.
    #[must_use]
    pub fn new() -> (r: Self)
        ensures
            r@ == LifecycleModel::initial(),
            r@.phase == Phase::Begin,
            r@.attempt == 0,
            r@.state == ConnectionState::Disconnected,
            r@.compatibility is None,
            r@.snapshot is None,
    {
        Lifecycle {
            phase: Phase::Begin,
            attempt: 0,
            state: ConnectionState::Disconnected,
            compatibility: None,
            snapshot: None,
        }
    }

    /// Returns the task that the lifecycle is at.
    #[must_use]
    pub fn task(&self) -> (r: Task)
        ensures
            match self@.phase {
                Phase::Begin => r == Task::CheckShutdown,
                Phase::Connecting => r == Task::Connect,
                Phase::BackingOff => r matches Task::Backoff(wait) && wait@ == backoff_millis(
                    self@.attempt,
                ) * 1_000_000,
                Phase::Synchronizing => r == Task::ReadSnapshot,
                Phase::Abandoning => r == Task::Close,
                Phase::Watching => r == Task::Watch,
                Phase::Resynchronizing => r == Task::ReadSnapshot,
                Phase::Closing => r == Task::Close,
                Phase::Stopped => r == Task::Stop,
            },
    {
        match self.phase {
            Phase::Begin => Task::CheckShutdown,
            Phase::Connecting => Task::Connect,
            Phase::BackingOff => Task::Backoff(backoff(self.attempt)),
            Phase::Synchronizing => Task::ReadSnapshot,
            Phase::Abandoning => Task::Close,
            Phase::Watching => Task::Watch,
            Phase::Resynchronizing => Task::ReadSnapshot,
            Phase::Closing => Task::Close,
            Phase::Stopped => Task::Stop,
        }
    }

    /// Returns the state of the client.
    #[must_use]
    pub fn state(&self) -> (r: ConnectionState)
        ensures
            r == self@.state,
    {
        self.state
    }

    /// Decides whether a mutation may be carried out. While a snapshot of the
    /// connection is being read it waits for that; without a connection it is
    /// refused, and never kept for another connection.
    pub fn admits_mutation(&self) -> (r: Admission)
        ensures
            match admission(self@.phase) {
                None => match self@.phase {
                    Phase::Watching => r == Admission::Now,
                    _ => r == Admission::AfterSnapshot,
                },
                Some(refusal) => r matches Admission::Refused(error) && error@ == refusal,
            },
    {
        match self.phase {
            Phase::Watching => Admission::Now,
            Phase::Synchronizing => Admission::AfterSnapshot,
            Phase::Resynchronizing => Admission::AfterSnapshot,
            Phase::Closing => Admission::Refused(
                Error::new(ErrorKind::Shutdown, "synchronized client is shut down"),
            ),
            Phase::Stopped => Admission::Refused(
                Error::new(ErrorKind::Shutdown, "synchronized client is shut down"),
            ),
            _ => Admission::Refused(
                Error::new(ErrorKind::Transport, "Wave Link is not connected"),
            ),
        }
    }

    /// Takes over a snapshot.
    fn synchronize(&mut self, snapshot: Arc<MixerSnapshot>, first: bool) -> (r: Vec<Effect>)
        ensures
            final(self)@ == old(self)@.synchronized(snapshot),
            r@ == seq![
                Effect::ReplaceSnapshot(snapshot),
                Effect::Transition(synchronized_state(old(self)@.compatibility)),
                Effect::Emit(
                    if first {
                        Event::Snapshot(snapshot)
                    } else {
                        Event::Resynchronized(snapshot)
                    },
                ),
            ],
    {
        let ready = match self.compatibility {
            Some(compatibility) => compatibility.writes_allowed(),
            None => false,
        };
        let state = if ready {
            ConnectionState::Ready
        } else {
            ConnectionState::ReadOnlyUnknownRevision
        };
        let event = if first {
            Event::Snapshot(share(&snapshot))
        } else {
            Event::Resynchronized(share(&snapshot))
        };
        let effects: Vec<Effect> = vec![
            Effect::ReplaceSnapshot(share(&snapshot)),
            Effect::Transition(state),
            Effect::Emit(event),
        ];
        self.phase = Phase::Watching;
        self.attempt = 0;
        self.state = state;
        self.snapshot = Some(snapshot);
        assert(effects@ =~= seq![
            Effect::ReplaceSnapshot(snapshot),
            Effect::Transition(synchronized_state(old(self)@.compatibility)),
            Effect::Emit(
                if first {
                    Event::Snapshot(snapshot)
                } else {
                    Event::Resynchronized(snapshot)
                },
            ),
        ]);
        effects
    }

    /// Moves to another phase and state with a single announcement.
    fn announce(&mut self, phase: Phase, state: ConnectionState) -> (r: Vec<Effect>)
        ensures
            final(self)@ == old(self)@.moved(phase, state),
            r@ == seq![Effect::Transition(state)],
    {
        self.phase = phase;
        self.state = state;
        let effects: Vec<Effect> = vec![Effect::Transition(state)];
        assert(effects@ =~= seq![Effect::Transition(state)]);
        effects
    }

    /// Ends the lifecycle.
    fn end(&mut self) -> (r: Vec<Effect>)
        ensures
            final(self)@ == old(self)@.moved(Phase::Stopped, ConnectionState::Shutdown),
            r@ == farewell(),
    {
        self.phase = Phase::Stopped;
        self.state = ConnectionState::Shutdown;
        farewell_effects()
    }

    /// Gives up a connection that was synchronized.
    fn disconnect(&mut self) -> (r: Vec<Effect>)
        ensures
            final(self)@ == old(self)@.moved(Phase::Begin, ConnectionState::Reconnecting),
            r@ == seq![
                Effect::CancelFades,
                Effect::Transition(ConnectionState::Reconnecting),
            ],
    {
        self.phase = Phase::Begin;
        self.state = ConnectionState::Reconnecting;
        let effects: Vec<Effect> = vec![
            Effect::CancelFades,
            Effect::Transition(ConnectionState::Reconnecting),
        ];
        assert(effects@ =~= seq![
            Effect::CancelFades,
            Effect::Transition(ConnectionState::Reconnecting),
        ]);
        effects
    }

    /// Moves on after a report and returns the effects to carry out, in order.
    /// A report that does not belong to the task at hand changes nothing.
    pub fn step(&mut self, input: Input) -> (r: Vec<Effect>)
        ensures
            final(self)@ == old(self)@.after(input),
            r@ == old(self)@.effects(input),
    {
        match (self.phase, input) {
            (Phase::Begin, Input::ShutdownFlag(true)) => self.end(),
            (Phase::Begin, Input::ShutdownFlag(false)) => {
                let state = if self.attempt == 0 {
                    ConnectionState::Connecting
                } else {
                    ConnectionState::Reconnecting
                };
                self.announce(Phase::Connecting, state)
            },
            (Phase::Connecting, Input::Connection(None)) => {
                self.phase = Phase::BackingOff;
                Vec::new()
            },
            (Phase::Connecting, Input::Connection(Some(compatibility))) => {
                self.compatibility = Some(compatibility);
                self.announce(Phase::Synchronizing, ConnectionState::Synchronizing)
            },
            (Phase::BackingOff, Input::BackoffOver(true)) => self.end(),
            (Phase::BackingOff, Input::BackoffOver(false)) => {
                if self.attempt < u32::MAX {
                    self.attempt = self.attempt + 1;
                }
                self.phase = Phase::Begin;
                Vec::new()
            },
            (Phase::Synchronizing, Input::Snapshot(Some(snapshot))) => {
                let first = self.snapshot.is_none();
                self.synchronize(snapshot, first)
            },
            (Phase::Synchronizing, Input::Snapshot(None)) => {
                self.phase = Phase::Abandoning;
                Vec::new()
            },
            (Phase::Abandoning, Input::Closed) => {
                self.phase = Phase::Begin;
                Vec::new()
            },
            (Phase::Watching, Input::ShutdownFlag(true)) => {
                self.phase = Phase::Closing;
                let effects: Vec<Effect> = vec![Effect::CancelFades];
                assert(effects@ =~= seq![Effect::CancelFades]);
                effects
            },
            (Phase::Watching, Input::Notification(true)) => self.announce(
                Phase::Resynchronizing,
                ConnectionState::Synchronizing,
            ),
            (Phase::Watching, Input::Mutated) => self.announce(
                Phase::Resynchronizing,
                ConnectionState::Synchronizing,
            ),
            (Phase::Watching, Input::Notification(false)) => self.disconnect(),
            (Phase::Resynchronizing, Input::Snapshot(Some(snapshot))) => self.synchronize(
                snapshot,
                false,
            ),
            (Phase::Resynchronizing, Input::Snapshot(None)) => self.disconnect(),
            (Phase::Closing, Input::Closed) => self.end(),
            _ => Vec::new(),
        }
    }
}

/// What holds of every lifecycle: the announced state fits the phase, a client
/// that is ready may write, and one that is ready or read-only is synchronized
/// and has a snapshot.
pub open spec fn lifecycle_invariant(model: LifecycleModel) -> bool {
    &&& model.state == ConnectionState::Ready ==> model.compatibility == Some(
        Compatibility::Revision2,
    )
    &&& model.state == ConnectionState::ReadOnlyUnknownRevision ==> model.compatibility != Some(
        Compatibility::Revision2,
    )
    &&& model.state == ConnectionState::Ready || model.state
        == ConnectionState::ReadOnlyUnknownRevision ==> model.phase == Phase::Watching
        || model.phase == Phase::Closing
    &&& model.phase == Phase::Watching || model.phase == Phase::Closing ==> model.snapshot is Some
        && model.state == synchronized_state(model.compatibility)
    &&& model.phase == Phase::Resynchronizing ==> model.snapshot is Some
    &&& model.phase == Phase::Synchronizing || model.phase == Phase::Resynchronizing || model.phase
        == Phase::Abandoning ==> model.state == ConnectionState::Synchronizing
    &&& model.phase == Phase::Connecting || model.phase == Phase::BackingOff ==> model.state
        == ConnectionState::Connecting || model.state == ConnectionState::Reconnecting
    &&& model.phase == Phase::Stopped <==> model.state == ConnectionState::Shutdown
}

/// A new lifecycle satisfies the invariant, and every report keeps it.
pub proof fn law_lifecycle_invariant(model: LifecycleModel, input: Input)
    ensures
        lifecycle_invariant(LifecycleModel::initial()),
        lifecycle_invariant(model) ==> lifecycle_invariant(model.after(input)),
{
}

/// The lifecycle after a run of reports.
pub open spec fn after_all(model: LifecycleModel, inputs: Seq<Input>) -> LifecycleModel
    decreases inputs.len(),
{
    if inputs.len() == 0 {
        model
    } else {
        after_all(model, inputs.drop_last()).after(inputs.last())
    }
}

/// Every lifecycle satisfies the invariant at every moment, whatever was
/// reported.
pub proof fn law_every_lifecycle_is_sound(inputs: Seq<Input>)
    ensures
        lifecycle_invariant(after_all(LifecycleModel::initial(), inputs)),
    decreases inputs.len(),
{
    if inputs.len() > 0 {
        law_every_lifecycle_is_sound(inputs.drop_last());
        law_lifecycle_invariant(
            after_all(LifecycleModel::initial(), inputs.drop_last()),
            inputs.last(),
        );
    } else {
        law_lifecycle_invariant(LifecycleModel::initial(), Input::Mutated);
    }
}

/// A client that is ready, or read-only, holds a snapshot, whatever was reported
/// before.
pub proof fn law_ready_clients_hold_a_snapshot(inputs: Seq<Input>)
    ensures
        ({
            let model = after_all(LifecycleModel::initial(), inputs);
            model.state == ConnectionState::Ready || model.state
                == ConnectionState::ReadOnlyUnknownRevision ==> model.snapshot is Some
        }),
{
    law_every_lifecycle_is_sound(inputs);
}

/// A shutdown is final: a lifecycle that is over stays as it is and has no
/// further effects.
pub proof fn law_shutdown_is_final(model: LifecycleModel, inputs: Seq<Input>, next: Input)
    requires
        model.phase == Phase::Stopped,
    ensures
        after_all(model, inputs) == model,
        after_all(model, inputs).effects(next) =~= seq![],
    decreases inputs.len(),
{
    if inputs.len() > 0 {
        law_shutdown_is_final(model, inputs.drop_last(), inputs.last());
    }
}

/// A lifecycle ends with the announcement of the shutdown, and announces it
/// only then.
pub proof fn law_shutdown_is_announced_once(model: LifecycleModel, input: Input)
    requires
        model.phase != Phase::Stopped,
    ensures
        model.after(input).phase == Phase::Stopped <==> model.effects(input).contains(
            Effect::Emit(Event::Shutdown),
        ),
        model.after(input).phase == Phase::Stopped ==> model.effects(input) == farewell(),
{
    let effects = model.effects(input);
    if model.after(input).phase == Phase::Stopped {
        assert(effects[1] == Effect::Emit(Event::Shutdown));
    }
}

/// A snapshot is announced as the first one exactly once: only while no
/// snapshot was taken over before, and from then on one is held for ever.
pub proof fn law_first_snapshot_comes_once(
    model: LifecycleModel,
    input: Input,
    snapshot: Arc<MixerSnapshot>,
)
    requires
        lifecycle_invariant(model),
        model.effects(input).contains(Effect::Emit(Event::Snapshot(snapshot))),
    ensures
        model.snapshot is None,
        model.after(input).snapshot == Some(snapshot),
{
}

/// A snapshot that was taken over is only ever replaced by a later one, and
/// then the subscribers are told.
pub proof fn law_snapshots_are_kept(model: LifecycleModel, input: Input)
    ensures
        model.snapshot is Some ==> model.after(input).snapshot is Some,
        model.after(input).snapshot != model.snapshot ==> (model.after(
            input,
        ).snapshot matches Some(snapshot) && (model.effects(input).contains(
            Effect::Emit(Event::Snapshot(snapshot)),
        ) || model.effects(input).contains(Effect::Emit(Event::Resynchronized(snapshot))))),
{
    let effects = model.effects(input);
    if model.after(input).snapshot != model.snapshot {
        assert(effects[2] is Emit);
    }
}

/// Every change of state is announced: the last announced state is the state.
pub proof fn law_state_changes_are_announced(model: LifecycleModel, input: Input)
    ensures
        model.after(input).state != model.state ==> model.effects(input).contains(
            Effect::Transition(model.after(input).state),
        ),
        forall|state: ConnectionState| #[trigger]
            model.effects(input).contains(Effect::Transition(state)) ==> state == model.after(
                input,
            ).state,
{
    let effects = model.effects(input);
    let state = model.after(input).state;
    if state != model.state {
        assert(effects[0] == Effect::Transition(state) || effects[1] == Effect::Transition(state));
    }
}

/// A connection that is lost or shut down cancels all fades.
pub proof fn law_leaving_cancels_fades(model: LifecycleModel, input: Input)
    requires
        model.phase == Phase::Watching || model.phase == Phase::Resynchronizing,
        model.after(input).phase != Phase::Watching,
        model.after(input).phase != Phase::Resynchronizing,
    ensures
        model.effects(input).contains(Effect::CancelFades),
{
    assert(model.effects(input)[0] == Effect::CancelFades);
}

/// After a mutation the mixer is read again before anything else: the client is
/// ready again only with a new snapshot.
pub proof fn law_mutations_are_followed_by_a_snapshot(model: LifecycleModel)
    requires
        model.phase == Phase::Watching,
    ensures
        model.after(Input::Mutated).phase == Phase::Resynchronizing,
        forall|input: Input| #[trigger]
            model.after(Input::Mutated).after(input).phase == Phase::Watching
                ==> input matches Input::Snapshot(Some(_)),
{
}

/// A mutation that waits for a snapshot waits for nothing else: once the reading
/// is over it is carried out on the same connection, or refused.
pub proof fn law_waiting_mutations_are_decided(
    model: LifecycleModel,
    outcome: Option<Arc<MixerSnapshot>>,
)
    requires
        model.phase == Phase::Synchronizing || model.phase == Phase::Resynchronizing,
    ensures
        outcome is Some ==> model.after(Input::Snapshot(outcome)).phase == Phase::Watching
            && model.after(Input::Snapshot(outcome)).compatibility == model.compatibility,
        outcome is None ==> admission(model.after(Input::Snapshot(outcome)).phase) is Some,
{
}

/// Mutations of a client that is not synchronized leave no trace: they are not
/// queued for replay.
pub proof fn law_disconnected_mutations_are_not_queued(model: LifecycleModel)
    requires
        model.phase != Phase::Watching,
    ensures
        model.after(Input::Mutated) == model,
        model.effects(Input::Mutated) =~= seq![],
{
}

/// The attempts start over with every synchronization: a client that takes a
/// snapshot over has no failed attempts behind it. When it loses that connection,
/// the next attempt is announced as a first one, and if that fails, the wait is
/// that of a new client, 200 ms.
pub proof fn law_synchronizing_starts_the_attempts_over(model: LifecycleModel, input: Input)
    requires
        model.phase != Phase::Watching,
        model.after(input).phase == Phase::Watching,
    ensures
        model.after(input).attempt == 0,
        ({
            let lost = model.after(input).after(Input::Notification(false));
            let again = lost.after(Input::ShutdownFlag(false));
            let failed = again.after(Input::Connection(None));
            &&& lost.effects(Input::ShutdownFlag(false)) =~= seq![
                Effect::Transition(ConnectionState::Connecting),
            ]
            &&& again.state == ConnectionState::Connecting
            &&& failed.phase == Phase::BackingOff
            &&& backoff_millis(failed.attempt) == 200
        }),
{
    law_first_wait_is_short(0);
}

/// A client that watches has no failed attempts behind it, whatever was reported
/// before.
pub proof fn law_watching_clients_have_no_failed_attempts(inputs: Seq<Input>)
    ensures
        ({
            let model = after_all(LifecycleModel::initial(), inputs);
            model.phase == Phase::Watching || model.phase == Phase::Resynchronizing || model.phase
                == Phase::Closing ==> model.attempt == 0
        }),
    decreases inputs.len(),
{
    if inputs.len() > 0 {
        law_watching_clients_have_no_failed_attempts(inputs.drop_last());
    }
}

/// The attempts count failures to connect: each wait that ends without a shutdown
/// counts one more, as far as the counter goes, a snapshot that is taken over sets
/// them back to none, and nothing else changes them.
pub proof fn law_attempts_count_failures(model: LifecycleModel, input: Input)
    ensures
        ({
            let next = model.after(input);
            if model.phase == Phase::BackingOff && input == Input::BackoffOver(false) {
                next.attempt == if model.attempt == u32::MAX {
                    u32::MAX as int
                } else {
                    model.attempt + 1
                }
            } else if (model.phase == Phase::Synchronizing || model.phase == Phase::Resynchronizing)
                && input matches Input::Snapshot(Some(_)) {
                next.attempt == 0
            } else {
                next.attempt == model.attempt
            }
        }),
{
}

/// A run of failures is counted: after as many failed attempts in a row, each
/// with its wait, a client that began anew waits for the next attempt with that
/// many behind it.
pub proof fn law_failures_add_up(failures: Seq<Input>, count: nat)
    requires
        count < u32::MAX,
        failures.len() == 3 * count,
        forall|i: int|
            0 <= i < count ==> #[trigger] failures[3 * i] == Input::ShutdownFlag(false)
                && failures[3 * i + 1] == Input::Connection(None) && failures[3 * i + 2]
                == Input::BackoffOver(false),
    ensures
        after_all(LifecycleModel::initial(), failures).phase == Phase::Begin,
        after_all(LifecycleModel::initial(), failures).attempt == count,
        after_all(LifecycleModel::initial(), failures).snapshot is None,
    decreases count,
{
    if count > 0 {
        let before = failures.take(3 * (count - 1));
        assert forall|i: int| 0 <= i < count - 1 implies #[trigger] before[3 * i]
            == Input::ShutdownFlag(false) && before[3 * i + 1] == Input::Connection(None)
            && before[3 * i + 2] == Input::BackoffOver(false) by {
            assert(before[3 * i] == failures[3 * i]);
        }
        law_failures_add_up(before, (count - 1) as nat);
        let two = failures.drop_last();
        let one = two.drop_last();
        assert(one.drop_last() =~= before);
        assert(one.last() == failures[3 * (count - 1)]);
        assert(two.last() == failures[3 * (count - 1) + 1]);
        assert(failures.last() == failures[3 * (count - 1) + 2]);
        reveal_with_fuel(after_all, 4);
    }
}

/// A wait that ends without a shutdown leads to the next attempt, without an
/// announcement.
pub proof fn law_waits_lead_to_the_next_attempt(model: LifecycleModel)
    requires
        model.phase == Phase::BackingOff,
    ensures
        model.after(Input::BackoffOver(false)).phase == Phase::Begin,
        model.after(Input::BackoffOver(false)).state == model.state,
        model.effects(Input::BackoffOver(false)).len() == 0,
{
}

/// An attempt to connect begins when no shutdown is requested. It is announced as
/// connecting when no failure came before it, else as reconnecting, and as nothing
/// else.
pub proof fn law_attempts_are_announced(model: LifecycleModel)
    requires
        model.phase == Phase::Begin,
    ensures
        ({
            let next = model.after(Input::ShutdownFlag(false));
            let effects = model.effects(Input::ShutdownFlag(false));
            &&& next.phase == Phase::Connecting
            &&& effects.len() == 1
            &&& effects[0] == Effect::Transition(next.state)
            &&& model.attempt == 0 ==> next.state == ConnectionState::Connecting
            &&& model.attempt > 0 ==> next.state == ConnectionState::Reconnecting
        }),
{
}

/// A connection that is there is synchronized next, and its compatibility is
/// known from then on. One that failed is waited for, without an announcement.
pub proof fn law_connections_are_synchronized(model: LifecycleModel, compatibility: Compatibility)
    requires
        model.phase == Phase::Connecting,
    ensures
        ({
            let next = model.after(Input::Connection(Some(compatibility)));
            let effects = model.effects(Input::Connection(Some(compatibility)));
            &&& next.phase == Phase::Synchronizing
            &&& next.compatibility == Some(compatibility)
            &&& next.state == ConnectionState::Synchronizing
            &&& effects.len() == 1
            &&& effects[0] == Effect::Transition(ConnectionState::Synchronizing)
        }),
        model.after(Input::Connection(None)).phase == Phase::BackingOff,
        model.after(Input::Connection(None)).state == model.state,
        model.effects(Input::Connection(None)).len() == 0,
{
}

/// The compatibility is that of the latest connection: nothing else changes it.
pub proof fn law_compatibility_is_that_of_the_connection(model: LifecycleModel, input: Input)
    ensures
        model.after(input).compatibility == (if model.phase == Phase::Connecting {
            match input {
                Input::Connection(Some(compatibility)) => Some(compatibility),
                _ => model.compatibility,
            }
        } else {
            model.compatibility
        }),
{
}

/// A snapshot that was read is taken over: it becomes the latest one, then the
/// client is announced as ready where it may write and as read-only where it may
/// not, then the subscribers get the snapshot. They get it as the first one only
/// when there was none before.
pub proof fn law_snapshots_are_taken_over(model: LifecycleModel, snapshot: Arc<MixerSnapshot>)
    requires
        model.phase == Phase::Synchronizing || model.phase == Phase::Resynchronizing,
    ensures
        ({
            let next = model.after(Input::Snapshot(Some(snapshot)));
            let effects = model.effects(Input::Snapshot(Some(snapshot)));
            &&& next.phase == Phase::Watching
            &&& next.snapshot == Some(snapshot)
            &&& model.compatibility == Some(Compatibility::Revision2) ==> next.state
                == ConnectionState::Ready
            &&& model.compatibility != Some(Compatibility::Revision2) ==> next.state
                == ConnectionState::ReadOnlyUnknownRevision
            &&& effects.len() == 3
            &&& effects[0] == Effect::ReplaceSnapshot(snapshot)
            &&& effects[1] == Effect::Transition(next.state)
            &&& model.phase == Phase::Synchronizing && model.snapshot is None ==> effects[2]
                == Effect::Emit(Event::Snapshot(snapshot))
            &&& model.phase == Phase::Resynchronizing || model.snapshot is Some ==> effects[2]
                == Effect::Emit(Event::Resynchronized(snapshot))
        }),
{
}

/// The latest snapshot is the one that was read last: nothing else changes it.
pub proof fn law_latest_snapshot_is_the_last_read(model: LifecycleModel, input: Input)
    ensures
        model.after(input).snapshot == (if model.phase == Phase::Synchronizing || model.phase
            == Phase::Resynchronizing {
            match input {
                Input::Snapshot(Some(snapshot)) => Some(snapshot),
                _ => model.snapshot,
            }
        } else {
            model.snapshot
        }),
        forall|snapshot: Arc<MixerSnapshot>| #[trigger]
            model.effects(input).contains(Effect::ReplaceSnapshot(snapshot)) ==> model.after(
                input,
            ).snapshot == Some(snapshot),
{
}

/// A connection whose first snapshot cannot be read is closed without an
/// announcement, and the next attempt follows at once with as many failures
/// behind it as before.
pub proof fn law_unreadable_connections_are_abandoned(model: LifecycleModel)
    requires
        model.phase == Phase::Synchronizing,
    ensures
        ({
            let closing = model.after(Input::Snapshot(None));
            let closed = closing.after(Input::Closed);
            &&& closing.phase == Phase::Abandoning
            &&& model.effects(Input::Snapshot(None)).len() == 0
            &&& closed.phase == Phase::Begin
            &&& closing.effects(Input::Closed).len() == 0
            &&& closed.attempt == model.attempt
            &&& closed.state == model.state
        }),
{
}

/// A notification, or a mutation that was carried out, makes a watching client
/// read the mixer again, which is announced.
pub proof fn law_changes_are_read_again(model: LifecycleModel, input: Input)
    requires
        model.phase == Phase::Watching,
        input == Input::Notification(true) || input == Input::Mutated,
    ensures
        model.after(input).phase == Phase::Resynchronizing,
        model.after(input).state == ConnectionState::Synchronizing,
        model.after(input).snapshot == model.snapshot,
        model.effects(input).len() == 1,
        model.effects(input)[0] == Effect::Transition(ConnectionState::Synchronizing),
{
}

/// A synchronized connection that is lost, or whose later snapshot cannot be
/// read, is given up: the fades are cancelled, the client is announced as
/// reconnecting, and the next attempt follows at once.
pub proof fn law_lost_connections_are_made_again(model: LifecycleModel, input: Input)
    requires
        model.phase == Phase::Watching && input == Input::Notification(false) || model.phase
            == Phase::Resynchronizing && input == Input::Snapshot(None),
    ensures
        model.after(input).phase == Phase::Begin,
        model.after(input).state == ConnectionState::Reconnecting,
        model.effects(input).len() == 2,
        model.effects(input)[0] == Effect::CancelFades,
        model.effects(input)[1] == Effect::Transition(ConnectionState::Reconnecting),
{
}

/// A shutdown is obeyed wherever it is asked for: before an attempt and during a
/// wait the lifecycle ends at once; a synchronized client cancels its fades,
/// closes its connection and ends then. The end is announced as the state and as
/// an event.
pub proof fn law_shutdowns_are_obeyed(model: LifecycleModel, input: Input)
    requires
        model.phase == Phase::Begin && input == Input::ShutdownFlag(true) || model.phase
            == Phase::BackingOff && input == Input::BackoffOver(true) || model.phase
            == Phase::Watching && input == Input::ShutdownFlag(true),
    ensures
        ({
            let next = if model.phase == Phase::Watching {
                model.after(input).after(Input::Closed)
            } else {
                model.after(input)
            };
            let effects = if model.phase == Phase::Watching {
                model.after(input).effects(Input::Closed)
            } else {
                model.effects(input)
            };
            &&& next.phase == Phase::Stopped
            &&& next.state == ConnectionState::Shutdown
            &&& effects.len() == 2
            &&& effects[0] == Effect::Transition(ConnectionState::Shutdown)
            &&& effects[1] == Effect::Emit(Event::Shutdown)
            &&& model.phase == Phase::Watching ==> model.after(input).phase == Phase::Closing
                && model.after(input).state == model.state && model.effects(input).len() == 1
                && model.effects(input)[0] == Effect::CancelFades
        }),
{
}

/// Nothing but a request ends a lifecycle: without one it goes on for ever.
pub proof fn law_lifecycles_end_on_request_only(model: LifecycleModel, input: Input)
    requires
        model.phase != Phase::Stopped,
        model.after(input).phase == Phase::Stopped,
    ensures
        input == Input::ShutdownFlag(true) || input == Input::BackoffOver(true) || model.phase
            == Phase::Closing && input == Input::Closed,
{
}

/// Whether a report is one that a phase waits for.
pub open spec fn awaits(phase: Phase, input: Input) -> bool {
    match phase {
        Phase::Begin => input is ShutdownFlag,
        Phase::Connecting => input is Connection,
        Phase::BackingOff => input is BackoffOver,
        Phase::Synchronizing => input is Snapshot,
        Phase::Abandoning => input is Closed,
        Phase::Watching => input == Input::ShutdownFlag(true) || input is Notification
            || input is Mutated,
        Phase::Resynchronizing => input is Snapshot,
        Phase::Closing => input is Closed,
        Phase::Stopped => false,
    }
}

/// A report moves a lifecycle on exactly when its phase waits for it. Any other
/// changes nothing and has no effects.
pub proof fn law_stray_reports_change_nothing(model: LifecycleModel, input: Input)
    ensures
        awaits(model.phase, input) ==> model.after(input).phase != model.phase,
        !awaits(model.phase, input) ==> model.after(input) == model && model.effects(input).len()
            == 0,
{
}

/// A mutation is carried out at once on a synchronized connection, after the
/// snapshot while one of the connection is being read, and else never: without a
/// connection it fails as a failure of the transport, and once a shutdown was
/// asked for as a shutdown.
pub proof fn law_mutations_need_a_connection(phase: Phase)
    ensures
        admission(phase) is None <==> phase == Phase::Watching || phase == Phase::Synchronizing
            || phase == Phase::Resynchronizing,
        phase == Phase::Begin || phase == Phase::Connecting || phase == Phase::BackingOff || phase
            == Phase::Abandoning ==> admission(phase) == Some(
            (ErrorKind::Transport, "Wave Link is not connected"@),
        ),
        phase == Phase::Closing || phase == Phase::Stopped ==> admission(phase) == Some(
            (ErrorKind::Shutdown, "synchronized client is shut down"@),
        ),
{
}

/// A client keeps 32 events for its subscribers.
pub proof fn law_events_are_kept_for_subscribers()
    ensures
        EVENT_CAPACITY == 32,
{
}

/// What a subscriber gets from its channel.
#[derive(Debug)]
pub enum Received {
    /// An event.
    Event(Event),
    /// This many events were missed.
    Lagged(u64),
    /// The client is gone.
    Closed,
}

/// Turns what a subscriber got into the next event. A subscriber that fell
/// behind gets the latest complete snapshot instead of what it missed.
pub fn receive(received: Received, latest: Option<Arc<MixerSnapshot>>) -> (r: Result<Event, Error>)
    ensures
        match received {
            Received::Event(event) => r == Ok::<Event, Error>(event),
            Received::Lagged(skipped) => match latest {
                Some(snapshot) => r == Ok::<Event, Error>(
                    Event::LaggedAndResynchronized { skipped, snapshot },
                ),
                None => r matches Err(error) && error@ == (
                    ErrorKind::Protocol,
                    "subscriber lagged before a snapshot was available"@,
                ),
            },
            Received::Closed => r matches Err(error) && error@ == (
                ErrorKind::Shutdown,
                "synchronized client is shut down"@,
            ),
        },
{
    match received {
        Received::Event(event) => Ok(event),
        Received::Lagged(skipped) => match latest {
            Some(snapshot) => Ok(Event::LaggedAndResynchronized { skipped, snapshot }),
            None => Err(
                Error::new(
                    ErrorKind::Protocol,
                    "subscriber lagged before a snapshot was available",
                ),
            ),
        },
        Received::Closed => Err(
            Error::new(ErrorKind::Shutdown, "synchronized client is shut down"),
        ),
    }
}

/// Decides whether a client that waits to become ready is done. `closed` says
/// that the lifecycle is gone.
pub fn ready(latest: Option<Arc<MixerSnapshot>>, closed: bool) -> (r: Option<
    Result<Arc<MixerSnapshot>, Error>,
>)
    ensures
        match latest {
            Some(snapshot) => r == Some(Ok::<Arc<MixerSnapshot>, Error>(snapshot)),
            None => if closed {
                r matches Some(Err(error)) && error@ == (
                    ErrorKind::Shutdown,
                    "client shut down before becoming ready"@,
                )
            } else {
                r is None
            },
        },
{
    match latest {
        Some(snapshot) => Some(Ok(snapshot)),
        None => if closed {
            Some(Err(Error::new(ErrorKind::Shutdown, "client shut down before becoming ready")))
        } else {
            None
        },
    }
}

/// Returns what a shutdown comes to, given why the lifecycle failed, if it did.
pub fn shutdown_outcome(failure: Option<String>) -> (r: Result<(), Error>)
    ensures
        match failure {
            None => r is Ok,
            Some(reason) => r matches Err(error) && error@ == (
                ErrorKind::Shutdown,
                "lifecycle task failed: "@ + reason@,
            ),
        },
{
    match failure {
        None => Ok(()),
        Some(reason) => Err(
            Error::new(
                ErrorKind::Shutdown,
                "lifecycle task failed: ".to_owned().concat(reason.as_str()).as_str(),
            ),
        ),
    }
}

} // verus!
