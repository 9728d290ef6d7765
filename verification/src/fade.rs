//! Volume fades: how long, how often and where they end.

use vstd::prelude::*;
use vstd::std_specs::cmp::PartialEqSpec;

use crate::duration::Duration;
use crate::error::{Error, ErrorKind};
use crate::float_bits;
use crate::id::{ChannelId, MixId};
use crate::mutation::Operation;
use crate::transport::ErrorModel;
use crate::value::Volume;

verus! {

/// The longest fade, in nanoseconds.
pub const MAX_FADE_NANOS: u128 = 5_000_000_000;

/// The least time between two updates of a fade, in nanoseconds.
pub const FADE_STEP_NANOS: u128 = 34_000_000;

/// How the level moves over the length of a fade.
#[derive(Clone, Copy, Debug, PartialEq, Eq, Structural)]
#[non_exhaustive]
pub enum FadeCurve {
    /// The square of the progress.
    Perceptual,
    /// The progress itself.
    Linear,
}

impl Default for FadeCurve {
    fn default() -> (r: Self)
        ensures
            r == FadeCurve::Perceptual,
    {
        FadeCurve::Perceptual
    }
}

/// How long a fade takes and how the level moves.
#[derive(Clone, Copy, Debug)]
pub struct FadeOptions {
    pub duration: Duration,
    pub curve: FadeCurve,
}

impl Default for FadeOptions {
    fn default() -> (r: Self)
        ensures
            r.duration@ == 0,
            r.curve == FadeCurve::Perceptual,
    {
        FadeOptions { duration: Duration::from_millis(0), curve: FadeCurve::Perceptual }
    }
}

/// What a fade moves: the volume of a channel, or its volume in one mix.
#[derive(Debug)]
pub enum FadeTarget {
    Channel(ChannelId),
    ChannelMix(ChannelId, MixId),
}

/// A fade target's identifiers.
pub type TargetModel = (Seq<char>, Option<Seq<char>>);

impl View for FadeTarget {
    type V = TargetModel;

    open spec fn view(&self) -> TargetModel {
        match self {
            FadeTarget::Channel(channel) => (channel@, None),
            FadeTarget::ChannelMix(channel, mix) => (channel@, Some(mix@)),
        }
    }
}

impl Clone for FadeTarget {
    fn clone(&self) -> (r: Self)
        ensures
            r@ == self@,
    {
        match self {
            FadeTarget::Channel(channel) => FadeTarget::Channel(channel.clone()),
            FadeTarget::ChannelMix(channel, mix) => FadeTarget::ChannelMix(
                channel.clone(),
                mix.clone(),
            ),
        }
    }
}

impl PartialEq for FadeTarget {
    fn eq(&self, other: &Self) -> (r: bool) {
        match (self, other) {
            (FadeTarget::Channel(a), FadeTarget::Channel(b)) => *a == *b,
            (FadeTarget::ChannelMix(a, m), FadeTarget::ChannelMix(b, n)) => *a == *b && *m == *n,
            _ => false,
        }
    }
}

impl vstd::std_specs::cmp::PartialEqSpecImpl for FadeTarget {
    open spec fn obeys_eq_spec() -> bool {
        true
    }

    open spec fn eq_spec(&self, other: &Self) -> bool {
        self@ == other@
    }
}

impl Eq for FadeTarget {

}

/// Whether an operation sets the volume of a target to a level.
pub open spec fn sets_volume(operation: Operation, target: TargetModel, bits: u32) -> bool {
    match operation {
        Operation::SetChannelVolume { channel, volume } => target == (
            channel@,
            None::<Seq<char>>,
        ) && volume@ == bits,
        Operation::SetChannelMixVolume { channel, mix, volume } => target == (
            channel@,
            Some(mix@),
        ) && volume@ == bits,
        _ => false,
    }
}

impl FadeTarget {
    /// Returns the operation that sets the target's volume.
    pub fn operation(&self, volume: Volume) -> (r: Operation)
        ensures
            sets_volume(r, self@, volume@),
    {
        match self {
            FadeTarget::Channel(channel) => Operation::SetChannelVolume {
                channel: channel.clone(),
                volume,
            },
            FadeTarget::ChannelMix(channel, mix) => Operation::SetChannelMixVolume {
                channel: channel.clone(),
                mix: mix.clone(),
                volume,
            },
        }
    }
}

/// What the driver of a fade is to do, and what it reports then. Times count
/// from the start of the fade.
#[derive(Debug)]
pub enum FadeTask {
    /// Wait until this much time has passed: [`FadeInput::Woke`].
    Wait(Duration),
    /// Compute the level for this much time: [`FadeInput::Level`].
    Level { elapsed: Duration, start: Volume, end: Volume, options: FadeOptions },
    /// Write an intermediate level: [`FadeInput::Wrote`].
    Update(Operation),
    /// Write the target level: [`FadeInput::Wrote`].
    Finish(Operation),
    /// Nothing more: the fade is over, with this outcome.
    Done(Result<(), Error>),
}

/// What the driver of a fade reports.
#[derive(Debug)]
pub enum FadeInput {
    /// This much time has passed.
    Woke(Duration),
    /// The bits of the level.
    Level(u32),
    /// What came of a write.
    Wrote(Result<(), Error>),
}

/// Where a fade is.
pub enum FadePhase {
    /// Waiting for the next update.
    Waiting,
    /// Computing a level.
    Leveling,
    /// Writing this level.
    Writing(u32),
    /// Writing the target level.
    Finishing,
    /// Over, with this failure if there was one.
    Ended(Option<ErrorModel>),
}

/// What a fade is. Times are in nanoseconds.
pub struct FadeModel {
    pub target: TargetModel,
    pub start: u32,
    pub end: u32,
    pub length: nat,
    pub curve: FadeCurve,
    /// When the latest update was due; zero before the first.
    pub latest: nat,
    /// How many updates were due.
    pub updates: nat,
    pub phase: FadePhase,
}

/// The outcome of a write: the failure, if it is one.
pub open spec fn write_failure(outcome: Result<(), Error>) -> Option<ErrorModel> {
    match outcome {
        Ok(_) => None,
        Err(error) => Some(error@),
    }
}

impl FadeModel {
    /// A fade that has not begun. One of no length writes its target level at
    /// once.
    pub open spec fn planned(
        target: TargetModel,
        start: u32,
        end: u32,
        length: nat,
        curve: FadeCurve,
    ) -> Self {
        FadeModel {
            target,
            start,
            end,
            length,
            curve,
            latest: 0,
            updates: 0,
            phase: if length == 0 {
                FadePhase::Finishing
            } else {
                FadePhase::Waiting
            },
        }
    }

    /// The fade in another phase.
    pub open spec fn at(self, phase: FadePhase) -> Self {
        FadeModel { phase, ..self }
    }

    /// The fade after a report. An update is due once the step has passed since
    /// the latest one; once the fade's length has passed as well, the fade ends
    /// with its target level. The first write that fails ends it with its error.
    pub open spec fn after(self, input: FadeInput) -> Self {
        match (self.phase, input) {
            (FadePhase::Waiting, FadeInput::Woke(elapsed)) => if elapsed@ < self.latest
                + FADE_STEP_NANOS {
                self
            } else if elapsed@ >= self.length {
                self.at(FadePhase::Finishing)
            } else {
                FadeModel {
                    latest: elapsed@,
                    updates: self.updates + 1,
                    ..self.at(FadePhase::Leveling)
                }
            },
            (FadePhase::Leveling, FadeInput::Level(bits)) => if float_bits::single_in_unit(bits) {
                self.at(FadePhase::Writing(bits))
            } else {
                self.at(
                    FadePhase::Ended(
                        Some(
                            (
                                ErrorKind::InvalidValue,
                                "volume must be finite and between 0.0 and 1.0"@,
                            ),
                        ),
                    ),
                )
            },
            (FadePhase::Writing(_), FadeInput::Wrote(outcome)) => match write_failure(outcome) {
                Some(error) => self.at(FadePhase::Ended(Some(error))),
                None => self.at(FadePhase::Waiting),
            },
            (FadePhase::Finishing, FadeInput::Wrote(outcome)) => self.at(
                FadePhase::Ended(write_failure(outcome)),
            ),
            _ => self,
        }
    }

    /// Whether the fade asks for a task.
    pub open spec fn asks(self, task: FadeTask) -> bool {
        match self.phase {
            FadePhase::Waiting => task matches FadeTask::Wait(until) && until@ == self.latest
                + FADE_STEP_NANOS,
            FadePhase::Leveling => task matches FadeTask::Level { elapsed, start, end, options }
                && elapsed@ == self.latest && start@ == self.start && end@ == self.end
                && options.duration@ == self.length && options.curve == self.curve,
            FadePhase::Writing(bits) => task matches FadeTask::Update(operation) && sets_volume(
                operation,
                self.target,
                bits,
            ),
            FadePhase::Finishing => task matches FadeTask::Finish(operation) && sets_volume(
                operation,
                self.target,
                self.end,
            ),
            FadePhase::Ended(None) => task matches FadeTask::Done(Ok(_)),
            FadePhase::Ended(Some(error)) => task matches FadeTask::Done(Err(e)) && e@ == error,
        }
    }

    /// What holds of every fade: it is at most five seconds long, and each of its
    /// updates came at least a step after the one before.
    pub open spec fn paced(self) -> bool {
        &&& self.length <= MAX_FADE_NANOS
        &&& self.updates * FADE_STEP_NANOS <= self.latest
        &&& self.latest <= self.length
        &&& self.updates > 0 ==> self.latest < self.length
        &&& self.phase is Leveling ==> self.updates > 0
    }
}

/// Where a fade is.
#[derive(Debug)]
enum FadeStage {
    Waiting,
    Leveling,
    Writing(Volume),
    Finishing,
    Ended(Option<Error>),
}

/// What a stage is.
spec fn phase_of(stage: FadeStage) -> FadePhase {
    match stage {
        FadeStage::Waiting => FadePhase::Waiting,
        FadeStage::Leveling => FadePhase::Leveling,
        FadeStage::Writing(volume) => FadePhase::Writing(volume@),
        FadeStage::Finishing => FadePhase::Finishing,
        FadeStage::Ended(Some(error)) => FadePhase::Ended(Some(error@)),
        FadeStage::Ended(None) => FadePhase::Ended(None),
    }
}

/// A running fade. It never writes more often than the step allows, its last
/// write is exactly the target level, and a write that fails ends it.
#[derive(Debug)]
pub struct Fade {
    target: FadeTarget,
    start: Volume,
    end: Volume,
    options: FadeOptions,
    latest: u128,
    updates: u64,
    stage: FadeStage,
}

impl View for Fade {
    type V = FadeModel;

    closed spec fn view(&self) -> FadeModel {
        FadeModel {
            target: self.target@,
            start: self.start@,
            end: self.end@,
            length: self.options.duration@,
            curve: self.options.curve,
            latest: self.latest as nat,
            updates: self.updates as nat,
            phase: phase_of(self.stage),
        }
    }
}

impl Fade {
    #[verifier::type_invariant]
    spec fn well_formed(self) -> bool {
        self@.paced()
    }

    /// Plans a fade. A fade longer than five seconds is an
    /// [`ErrorKind::InvalidValue`] error.
    pub fn new(target: FadeTarget, start: Volume, end: Volume, options: FadeOptions) -> (r: Result<
        Self,
        Error,
    >)
        ensures
            match r {
                Ok(fade) => {
                    &&& options.duration@ <= 5_000_000_000
                    &&& fade@ == FadeModel::planned(
                        target@,
                        start@,
                        end@,
                        options.duration@,
                        options.curve,
                    )
                    &&& fade@.target == target@
                    &&& fade@.start == start@
                    &&& fade@.end == end@
                    &&& fade@.length == options.duration@
                    &&& fade@.curve == options.curve
                    &&& fade@.latest == 0
                    &&& fade@.updates == 0
                },
                Err(error) => options.duration@ > 5_000_000_000 && error@ == (
                    ErrorKind::InvalidValue,
                    "fade duration must be between 0 and 5000 ms"@,
                ),
            },
    {
        if options.duration.as_nanos() > MAX_FADE_NANOS {
            return Err(
                Error::new(
                    ErrorKind::InvalidValue,
                    "fade duration must be between 0 and 5000 ms",
                ),
            );
        }
        let stage = if options.duration.is_zero() {
            FadeStage::Finishing
        } else {
            FadeStage::Waiting
        };
        Ok(Fade { target, start, end, options, latest: 0, updates: 0, stage })
    }

    /// Returns the task that the fade is at.
    #[must_use]
    pub fn task(&self) -> (r: FadeTask)
        ensures
            self@.asks(r),
    {
        proof {
            use_type_invariant(self);
        }
        match &self.stage {
            FadeStage::Waiting => FadeTask::Wait(
                Duration::from_nanos(self.latest + FADE_STEP_NANOS),
            ),
            FadeStage::Leveling => FadeTask::Level {
                elapsed: Duration::from_nanos(self.latest),
                start: self.start,
                end: self.end,
                options: self.options,
            },
            FadeStage::Writing(volume) => FadeTask::Update(self.target.operation(*volume)),
            FadeStage::Finishing => FadeTask::Finish(self.target.operation(self.end)),
            FadeStage::Ended(None) => FadeTask::Done(Ok(())),
            FadeStage::Ended(Some(error)) => FadeTask::Done(Err(error.clone())),
        }
    }

    /// Moves on after a report. A report that does not belong to the task at
    /// hand changes nothing.
    #[must_use]
    pub fn step(self, input: FadeInput) -> (r: Self)
        ensures
            r@ == self@.after(input),
            r@.target == self@.target,
            r@.start == self@.start,
            r@.end == self@.end,
            r@.length == self@.length,
            r@.curve == self@.curve,
    {
        proof {
            use_type_invariant(&self);
        }
        let Fade { target, start, end, options, latest, updates, stage } = self;
        let mut due: u128 = latest;
        let mut count: u64 = updates;
        let next: FadeStage = match (stage, input) {
            (FadeStage::Waiting, FadeInput::Woke(elapsed)) => {
                let now: u128 = elapsed.as_nanos();
                if now < latest + FADE_STEP_NANOS {
                    FadeStage::Waiting
                } else if now >= options.duration.as_nanos() {
                    FadeStage::Finishing
                } else {
                    due = now;
                    count = updates + 1;
                    FadeStage::Leveling
                }
            },
            (FadeStage::Leveling, FadeInput::Level(bits)) => match Volume::new(bits) {
                Ok(volume) => FadeStage::Writing(volume),
                Err(error) => FadeStage::Ended(Some(error)),
            },
            (FadeStage::Writing(_), FadeInput::Wrote(Ok(_))) => FadeStage::Waiting,
            (FadeStage::Writing(_), FadeInput::Wrote(Err(error))) => FadeStage::Ended(
                Some(error),
            ),
            (FadeStage::Finishing, FadeInput::Wrote(Ok(_))) => FadeStage::Ended(None),
            (FadeStage::Finishing, FadeInput::Wrote(Err(error))) => FadeStage::Ended(Some(error)),
            (stage, _) => stage,
        };
        Fade { target, start, end, options, latest: due, updates: count, stage: next }
    }
}

/// A fade that is paced stays so, whatever is reported.
pub proof fn law_fades_stay_paced(model: FadeModel, input: FadeInput)
    requires
        model.paced(),
    ensures
        model.after(input).paced(),
{
}

/// The fade after a run of reports.
pub open spec fn fade_after(model: FadeModel, inputs: Seq<FadeInput>) -> FadeModel
    decreases inputs.len(),
{
    if inputs.len() == 0 {
        model
    } else {
        fade_after(model, inputs.drop_last()).after(inputs.last())
    }
}

/// Whether a phase writes.
pub open spec fn writes(phase: FadePhase) -> bool {
    phase is Writing || phase is Finishing
}

/// How many writes a fade asked for in a run of reports.
pub open spec fn writes_in(model: FadeModel, inputs: Seq<FadeInput>) -> nat
    decreases inputs.len(),
{
    if inputs.len() == 0 {
        if writes(model.phase) {
            1
        } else {
            0
        }
    } else {
        let before = fade_after(model, inputs.drop_last());
        let begun: nat = if !writes(before.phase) && writes(before.after(inputs.last()).phase) {
            1
        } else {
            0
        };
        writes_in(model, inputs.drop_last()) + begun
    }
}

/// Fades are paced: when a fade has had a number of updates, at least as many
/// steps of 34 ms have passed, which is fewer than thirty updates
/// for each second; there are at most 147 updates, and at most 148 writes with
/// the one that ends the fade.
pub proof fn law_fades_are_paced(
    target: TargetModel,
    start: u32,
    end: u32,
    length: nat,
    curve: FadeCurve,
    inputs: Seq<FadeInput>,
)
    requires
        length <= MAX_FADE_NANOS,
    ensures
        ({
            let planned = FadeModel::planned(target, start, end, length, curve);
            let model = fade_after(planned, inputs);
            &&& model.updates * FADE_STEP_NANOS <= model.latest
            &&& model.updates > 0 ==> model.updates * 1_000_000_000 < 30 * model.latest
            &&& model.updates <= 147
            &&& writes_in(planned, inputs) <= 148
        }),
{
    lemma_writes(target, start, end, length, curve, inputs);
}

/// A fade asked for at most one write for each update, and one to end it.
proof fn lemma_writes(
    target: TargetModel,
    start: u32,
    end: u32,
    length: nat,
    curve: FadeCurve,
    inputs: Seq<FadeInput>,
)
    requires
        length <= MAX_FADE_NANOS,
    ensures
        ({
            let planned = FadeModel::planned(target, start, end, length, curve);
            let model = fade_after(planned, inputs);
            &&& model.paced()
            &&& writes_in(planned, inputs) <= match model.phase {
                FadePhase::Waiting => model.updates as int,
                FadePhase::Leveling => model.updates - 1,
                FadePhase::Writing(_) => model.updates as int,
                _ => (model.updates + 1) as int,
            }
        }),
    decreases inputs.len(),
{
    if inputs.len() > 0 {
        let planned = FadeModel::planned(target, start, end, length, curve);
        lemma_writes(target, start, end, length, curve, inputs.drop_last());
        law_fades_stay_paced(fade_after(planned, inputs.drop_last()), inputs.last());
    }
}

/// Writes are spaced: the report that makes a waiting fade go on comes at least
/// one step of 34 ms after the start for each update so far and for the write
/// that follows.
pub proof fn law_fade_writes_are_spaced(model: FadeModel, elapsed: Duration)
    requires
        model.paced(),
        model.phase is Waiting,
        !(model.after(FadeInput::Woke(elapsed)).phase is Waiting),
    ensures
        elapsed@ >= (model.updates + 1) * FADE_STEP_NANOS,
        elapsed@ >= model.latest + FADE_STEP_NANOS,
{
}

/// The first write that fails ends the fade with its error.
pub proof fn law_failed_writes_end_the_fade(model: FadeModel, error: Error)
    requires
        writes(model.phase),
    ensures
        model.after(FadeInput::Wrote(Err(error))).phase == FadePhase::Ended(Some(error@)),
{
}

/// Nothing is written after a fade has ended: whatever is reported, its task is
/// to do nothing more.
pub proof fn law_ended_fades_write_nothing(
    model: FadeModel,
    inputs: Seq<FadeInput>,
    task: FadeTask,
)
    requires
        model.phase is Ended,
        fade_after(model, inputs).asks(task),
    ensures
        fade_after(model, inputs) == model,
        task is Done,
{
    lemma_ended(model, inputs);
}

/// A fade that has ended stays as it is.
proof fn lemma_ended(model: FadeModel, inputs: Seq<FadeInput>)
    requires
        model.phase is Ended,
    ensures
        fade_after(model, inputs) == model,
    decreases inputs.len(),
{
    if inputs.len() > 0 {
        lemma_ended(model, inputs.drop_last());
    }
}

/// A fade that ends without a failure ended with a write of exactly its target
/// level.
pub proof fn law_fades_end_at_their_target(model: FadeModel, input: FadeInput, task: FadeTask)
    requires
        !(model.phase is Ended),
        model.after(input).phase == FadePhase::Ended(None),
        model.asks(task),
    ensures
        task matches FadeTask::Finish(operation) && sets_volume(
            operation,
            model.target,
            model.end,
        ),
        input matches FadeInput::Wrote(Ok(_)),
{
}

/// Two targets are the same exactly when both are channels or both are channels
/// in a mix, with the same identifiers.
pub proof fn law_targets_are_told_apart(a: FadeTarget, b: FadeTarget)
    ensures
        a@ == b@ <==> match (a, b) {
            (FadeTarget::Channel(x), FadeTarget::Channel(y)) => x@ == y@,
            (FadeTarget::ChannelMix(x, m), FadeTarget::ChannelMix(y, n)) => x@ == y@ && m@ == n@,
            _ => false,
        },
        FadeTarget::obeys_eq_spec(),
        a.eq_spec(&b) <==> a@ == b@,
{
}

/// What a fade writes: an operation sets the volume of a channel exactly when it
/// is that channel's volume operation with these bits, and the volume of a
/// channel in a mix exactly when it is the operation for that channel and that
/// mix. No other operation belongs to a fade.
pub proof fn law_fades_write_volumes_of_their_target(
    target: FadeTarget,
    operation: Operation,
    bits: u32,
)
    ensures
        sets_volume(operation, target@, bits) <==> match target {
            FadeTarget::Channel(id) => operation matches Operation::SetChannelVolume {
                channel,
                volume,
            } && channel@ == id@ && volume@ == bits,
            FadeTarget::ChannelMix(id, in_mix) => operation matches Operation::SetChannelMixVolume {
                channel,
                mix,
                volume,
            } && channel@ == id@ && mix@ == in_mix@ && volume@ == bits,
        },
{
}

/// A fade is what it was planned as: whatever is reported, its target, its ends,
/// its length and its curve stay those that it was planned with.
pub proof fn law_plans_are_kept(
    target: TargetModel,
    start: u32,
    end: u32,
    length: nat,
    curve: FadeCurve,
    inputs: Seq<FadeInput>,
)
    ensures
        ({
            let model = fade_after(
                FadeModel::planned(target, start, end, length, curve),
                inputs,
            );
            &&& model.target == target
            &&& model.start == start
            &&& model.end == end
            &&& model.length == length
            &&& model.curve == curve
        }),
    decreases inputs.len(),
{
    if inputs.len() > 0 {
        law_plans_are_kept(target, start, end, length, curve, inputs.drop_last());
    }
}

/// Every level that a fade ever asks for is one between its planned ends, along
/// its planned curve and over its planned length, at a time before its end.
pub proof fn law_levels_follow_the_plan(
    target: TargetModel,
    start: u32,
    end: u32,
    length: nat,
    curve: FadeCurve,
    inputs: Seq<FadeInput>,
    task: FadeTask,
)
    requires
        length <= 5_000_000_000,
        fade_after(FadeModel::planned(target, start, end, length, curve), inputs).asks(task),
    ensures
        task matches FadeTask::Level { elapsed, start: from, end: to, options } ==> {
            &&& from@ == start
            &&& to@ == end
            &&& options.curve == curve
            &&& options.duration@ == length
            &&& 34_000_000 <= elapsed@ < length
        },
{
    let planned = FadeModel::planned(target, start, end, length, curve);
    law_plans_are_kept(target, start, end, length, curve, inputs);
    lemma_writes(target, start, end, length, curve, inputs);
    let model = fade_after(planned, inputs);
    if model.updates > 0 {
        assert(model.updates * FADE_STEP_NANOS >= FADE_STEP_NANOS);
    }
}

/// Every write that a fade ever asks for sets the volume of its planned target.
/// The one that is asked for as the last sets exactly the planned end.
pub proof fn law_writes_follow_the_plan(
    target: TargetModel,
    start: u32,
    end: u32,
    length: nat,
    curve: FadeCurve,
    inputs: Seq<FadeInput>,
    task: FadeTask,
)
    requires
        fade_after(FadeModel::planned(target, start, end, length, curve), inputs).asks(task),
    ensures
        task matches FadeTask::Finish(operation) ==> match operation {
            Operation::SetChannelVolume { channel, volume } => target.0 == channel@ && target.1
                == None::<Seq<char>> && volume@ == end,
            Operation::SetChannelMixVolume { channel, mix, volume } => target.0 == channel@
                && target.1 == Some(mix@) && volume@ == end,
            _ => false,
        },
        task matches FadeTask::Update(operation) ==> match operation {
            Operation::SetChannelVolume { channel, .. } => target.0 == channel@ && target.1
                == None::<Seq<char>>,
            Operation::SetChannelMixVolume { channel, mix, .. } => target.0 == channel@
                && target.1 == Some(mix@),
            _ => false,
        },
{
    law_plans_are_kept(target, start, end, length, curve, inputs);
}

/// A planned fade of no length asks for its last write at once. Any other waits
/// for one step of 34 ms first.
pub proof fn law_fades_begin(
    target: TargetModel,
    start: u32,
    end: u32,
    length: nat,
    curve: FadeCurve,
    task: FadeTask,
)
    requires
        FadeModel::planned(target, start, end, length, curve).asks(task),
    ensures
        length == 0 ==> task is Finish,
        length > 0 ==> (task matches FadeTask::Wait(until) && until@ == 34_000_000),
{
}

/// A waiting fade that wakes at a time goes by that time alone: too early, it
/// asks for the same wait again; before its length has passed, it asks for the
/// level of exactly that time; else it asks for its last write.
pub proof fn law_waking_fades_go_by_the_time(
    model: FadeModel,
    elapsed: Duration,
    before: FadeTask,
    task: FadeTask,
)
    requires
        model.asks(before),
        before is Wait,
        model.after(FadeInput::Woke(elapsed)).asks(task),
    ensures
        before matches FadeTask::Wait(until) && if elapsed@ < until@ {
            model.after(FadeInput::Woke(elapsed)) == model
        } else if elapsed@ < model.length {
            task matches FadeTask::Level { elapsed: at, .. } && at@ == elapsed@
        } else {
            task is Finish
        },
{
}

/// A level that was computed is written as it is: the next task sets exactly
/// these bits. Bits that are no volume end the fade as an invalid value, and
/// nothing more is written.
pub proof fn law_computed_levels_are_written(
    model: FadeModel,
    before: FadeTask,
    bits: u32,
    task: FadeTask,
)
    requires
        model.asks(before),
        before is Level,
        model.after(FadeInput::Level(bits)).asks(task),
    ensures
        bits <= 0x3f80_0000 || bits == 0x8000_0000 ==> (task matches FadeTask::Update(operation)
            && match operation {
            Operation::SetChannelVolume { volume, .. } => volume@ == bits,
            Operation::SetChannelMixVolume { volume, .. } => volume@ == bits,
            _ => false,
        }),
        bits > 0x3f80_0000 && bits != 0x8000_0000 ==> (task matches FadeTask::Done(Err(error))
            && error@ == (
            ErrorKind::InvalidValue,
            "volume must be finite and between 0.0 and 1.0"@,
        )),
{
    float_bits::lemma_unit_patterns(bits);
}

/// After an update that was written a fade waits for one step of 34 ms from the
/// time of that update. After its last write it is over and succeeded.
pub proof fn law_written_fades_go_on(model: FadeModel, before: FadeTask, task: FadeTask)
    requires
        model.asks(before),
        before is Update || before is Finish,
        model.after(FadeInput::Wrote(Ok(()))).asks(task),
    ensures
        before is Update ==> (task matches FadeTask::Wait(until) && until@ == model.latest
            + 34_000_000),
        before is Finish ==> task matches FadeTask::Done(Ok(_)),
{
}

/// A fade whose write fails is over with exactly that failure.
pub proof fn law_failed_writes_are_reported(
    model: FadeModel,
    before: FadeTask,
    error: Error,
    task: FadeTask,
)
    requires
        model.asks(before),
        before is Update || before is Finish,
        model.after(FadeInput::Wrote(Err(error))).asks(task),
    ensures
        task matches FadeTask::Done(Err(reported)) && reported@ == error@,
{
}

/// The time from which the next wait counts moves only when a fade wakes for an
/// update, and then to exactly that time; the updates are counted one by one.
pub proof fn law_updates_are_counted(model: FadeModel, input: FadeInput)
    ensures
        ({
            let next = model.after(input);
            ||| next.latest == model.latest && next.updates == model.updates && !(!(
            model.phase is Leveling) && next.phase is Leveling)
            ||| next.updates == model.updates + 1 && model.phase is Waiting
                && next.phase is Leveling && (input matches FadeInput::Woke(elapsed)
                && next.latest == elapsed@)
        }),
{
}

/// A report that does not answer the task at hand changes nothing.
pub proof fn law_stray_fade_reports_change_nothing(
    model: FadeModel,
    input: FadeInput,
    task: FadeTask,
)
    requires
        model.asks(task),
        !(task is Wait && input is Woke),
        !(task is Level && input is Level),
        !(task is Update && input is Wrote),
        !(task is Finish && input is Wrote),
    ensures
        model.after(input) == model,
{
}

/// The fades that are running, at most one for each target. Each start of a
/// fade has a ticket of its own; a fade goes on as long as its ticket runs.
#[derive(Debug)]
pub struct Fades {
    running: Vec<(FadeTarget, u64)>,
    next: u64,
}

/// Whether a list of running fades holds this target with this ticket.
pub open spec fn lists_fade(
    running: Seq<(FadeTarget, u64)>,
    target: TargetModel,
    ticket: u64,
) -> bool {
    exists|i: int|
        0 <= i < running.len() && (#[trigger] running[i]).0@ == target && running[i].1 == ticket
}

/// Drops the fades of one target from a list: all of them, or the one with the
/// given ticket.
fn without(
    running: Vec<(FadeTarget, u64)>,
    target: &FadeTarget,
    only: Option<u64>,
) -> (r: (Vec<(FadeTarget, u64)>, bool))
    ensures
        forall|other: TargetModel, ticket: u64| #[trigger]
            lists_fade(r.0@, other, ticket) <==> lists_fade(running@, other, ticket) && !(other
                == target@ && (only is None || only == Some(ticket))),
        r.1 == exists|ticket: u64|
            #[trigger] lists_fade(running@, target@, ticket) && (only is None || only == Some(
                ticket,
            )),
{
    let ghost all = running@;
    let mut kept: Vec<(FadeTarget, u64)> = Vec::new();
    let mut dropped = false;
    for slot in it: running
        invariant
            it.seq() == all,
            forall|other: TargetModel, ticket: u64| #[trigger]
                lists_fade(kept@, other, ticket) <==> lists_fade(
                    all.take(it.index() as int),
                    other,
                    ticket,
                ) && !(other == target@ && (only is None || only == Some(ticket))),
            dropped == exists|ticket: u64|
                #[trigger] lists_fade(all.take(it.index() as int), target@, ticket) && (only is None
                    || only == Some(ticket)),
    {
        let ghost at = it.index() as int;
        let ghost before = kept@;
        let ghost earlier = dropped;
        assert forall|other: TargetModel, ticket: u64| #[trigger]
            lists_fade(all.take(at + 1), other, ticket) <==> lists_fade(
                all.take(at),
                other,
                ticket,
            ) || (other == slot.0@ && ticket == slot.1) by {
            lemma_list_grows(all.take(at), slot, other, ticket);
            assert(all.take(at + 1) =~= all.take(at).push(slot));
        }
        let hit = slot.0 == *target && match only {
            None => true,
            Some(ticket) => ticket == slot.1,
        };
        if hit {
            dropped = true;
            assert(lists_fade(all.take(at + 1), target@, slot.1));
        } else {
            proof {
                assert forall|other: TargetModel, ticket: u64| #[trigger]
                    lists_fade(before.push(slot), other, ticket) <==> lists_fade(
                        before,
                        other,
                        ticket,
                    ) || (other == slot.0@ && ticket == slot.1) by {
                    lemma_list_grows(before, slot, other, ticket);
                }
            }
            kept.push(slot);
        }
        proof {
            if earlier {
                let ticket = choose|ticket: u64|
                    #[trigger] lists_fade(all.take(at), target@, ticket) && (only is None || only
                        == Some(ticket));
                assert(lists_fade(all.take(at + 1), target@, ticket));
            }
        }
    }
    assert(all.take(all.len() as int) =~= all);
    (kept, dropped)
}

/// A list that grew by one fade holds that fade and what it held before.
proof fn lemma_list_grows(
    running: Seq<(FadeTarget, u64)>,
    slot: (FadeTarget, u64),
    target: TargetModel,
    ticket: u64,
)
    ensures
        lists_fade(running.push(slot), target, ticket) <==> lists_fade(running, target, ticket) || (
        target == slot.0@ && ticket == slot.1),
{
    let longer = running.push(slot);
    assert(longer[running.len() as int] == slot);
    if lists_fade(running, target, ticket) {
        let i = choose|i: int|
            0 <= i < running.len() && (#[trigger] running[i]).0@ == target && running[i].1
                == ticket;
        assert(longer[i] == running[i]);
    }
    if lists_fade(longer, target, ticket) {
        let i = choose|i: int|
            0 <= i < longer.len() && (#[trigger] longer[i]).0@ == target && longer[i].1 == ticket;
        if i < running.len() {
            assert(running[i] == longer[i]);
        }
    }
}

/// Where some of the fades run on and no other, at most one runs for each target
/// still.
proof fn lemma_fewer_fades(before: Fades, after: Fades)
    requires
        before.one_for_each_target(),
        forall|target: TargetModel, ticket: u64| #[trigger]
            lists_fade(after.running@, target, ticket) ==> lists_fade(
                before.running@,
                target,
                ticket,
            ),
    ensures
        after.one_for_each_target(),
{
    assert forall|target: TargetModel, a: u64, b: u64| #[trigger]
        after.runs(target, a) && #[trigger] after.runs(target, b) implies a == b by {
        assert(before.runs(target, a) && before.runs(target, b));
    }
}

impl Fades {
    /// Whether the fade of this target with this ticket is running.
    pub closed spec fn runs(self, target: TargetModel, ticket: u64) -> bool {
        lists_fade(self.running@, target, ticket)
    }

    /// The ticket of the next fade.
    pub closed spec fn next_ticket(self) -> u64 {
        self.next
    }

    /// Whether at most one fade runs for each target.
    pub open spec fn one_for_each_target(self) -> bool {
        forall|target: TargetModel, a: u64, b: u64| #[trigger]
            self.runs(target, a) && #[trigger] self.runs(target, b) ==> a == b
    }

    #[verifier::type_invariant]
    spec fn well_formed(self) -> bool {
        &&& forall|target: TargetModel, ticket: u64| #[trigger]
            lists_fade(self.running@, target, ticket) ==> ticket < self.next
        &&& self.one_for_each_target()
    }

    #[must_use]
    pub fn new() -> (r: Self)
        ensures
            forall|target: TargetModel, ticket: u64| !r.runs(target, ticket),
            r.next_ticket() == 0,
            r.one_for_each_target(),
    {
        Fades { running: Vec::new(), next: 0 }
    }

    /// Starts a fade of a target. A fade of the same target that was running is
    /// replaced; fades of other targets go on. The ticket was never given out
    /// before. When the tickets run out, nothing is started and all fades go on.
    #[must_use]
    pub fn start(self, target: &FadeTarget) -> (r: (Self, Result<u64, Error>))
        ensures
            r.0.one_for_each_target(),
            match r.1 {
                Ok(ticket) => {
                    &&& self.next_ticket() < u64::MAX
                    &&& ticket == self.next_ticket()
                    &&& r.0.next_ticket() == ticket + 1
                    &&& forall|other: TargetModel, t: u64| self.runs(other, t) ==> t != ticket
                    &&& forall|other: TargetModel, t: u64| #[trigger]
                        r.0.runs(other, t) <==> if other == target@ {
                            t == ticket
                        } else {
                            self.runs(other, t)
                        }
                },
                Err(error) => {
                    &&& self.next_ticket() == u64::MAX
                    &&& error@ == (ErrorKind::Protocol, "fade ticket space exhausted"@)
                    &&& r.0 == self
                },
            },
    {
        proof {
            use_type_invariant(&self);
        }
        if self.next == u64::MAX {
            return (self, Err(Error::new(ErrorKind::Protocol, "fade ticket space exhausted")));
        }
        let ticket: u64 = self.next;
        let ghost before = self;
        let (mut running, _) = without(self.running, target, None);
        let ghost others = running@;
        let slot = (target.clone(), ticket);
        running.push(slot);
        proof {
            assert forall|other: TargetModel, t: u64| #[trigger]
                lists_fade(running@, other, t) <==> if other == target@ {
                    t == ticket
                } else {
                    before.runs(other, t)
                } by {
                lemma_list_grows(others, slot, other, t);
            }
        }
        (Fades { running, next: ticket + 1 }, Ok(ticket))
    }

    /// Returns whether the fade with this ticket is still running.
    #[must_use]
    pub fn is_running(&self, target: &FadeTarget, ticket: u64) -> (r: bool)
        ensures
            r == self.runs(target@, ticket),
            r ==> forall|other: u64| #[trigger] self.runs(target@, other) ==> other == ticket,
    {
        proof {
            use_type_invariant(self);
        }
        for i in 0..self.running.len()
            invariant
                self.one_for_each_target(),
                forall|j: int|
                    0 <= j < i ==> !((#[trigger] self.running@[j]).0@ == target@
                        && self.running@[j].1 == ticket),
        {
            if self.running[i].0 == *target && self.running[i].1 == ticket {
                assert(lists_fade(self.running@, target@, ticket));
                assert(self.runs(target@, ticket));
                return true;
            }
        }
        false
    }

    /// Ends the fade with this ticket. Another fade of the same target goes on.
    #[must_use]
    pub fn finish(self, target: &FadeTarget, ticket: u64) -> (r: Self)
        ensures
            r.next_ticket() == self.next_ticket(),
            r.one_for_each_target(),
            forall|other: TargetModel, t: u64| #[trigger]
                r.runs(other, t) <==> self.runs(other, t) && !(other == target@ && t == ticket),
    {
        proof {
            use_type_invariant(&self);
        }
        let ghost before = self;
        let (running, _) = without(self.running, target, Some(ticket));
        proof {
            lemma_fewer_fades(before, Fades { running, next: self.next });
        }
        Fades { running, next: self.next }
    }

    /// Cancels the fade of a target and returns whether one was running.
    #[must_use]
    pub fn cancel(self, target: &FadeTarget) -> (r: (Self, bool))
        ensures
            r.0.next_ticket() == self.next_ticket(),
            r.0.one_for_each_target(),
            r.1 == exists|ticket: u64| self.runs(target@, ticket),
            forall|other: TargetModel, t: u64| #[trigger]
                r.0.runs(other, t) <==> self.runs(other, t) && other != target@,
    {
        proof {
            use_type_invariant(&self);
        }
        let ghost before = self;
        let (running, dropped) = without(self.running, target, None);
        assert(dropped == exists|ticket: u64| before.runs(target@, ticket)) by {
            if dropped {
                let ticket = choose|ticket: u64|
                    #[trigger] lists_fade(before.running@, target@, ticket);
                assert(before.runs(target@, ticket));
            }
            if exists|ticket: u64| before.runs(target@, ticket) {
                let ticket = choose|ticket: u64| before.runs(target@, ticket);
                assert(lists_fade(before.running@, target@, ticket));
            }
        }
        proof {
            lemma_fewer_fades(before, Fades { running, next: self.next });
        }
        (Fades { running, next: self.next }, dropped)
    }

    /// Cancels all fades, as a disconnect or a shutdown does.
    #[must_use]
    pub fn cancel_all(self) -> (r: Self)
        ensures
            r.next_ticket() == self.next_ticket(),
            r.one_for_each_target(),
            forall|target: TargetModel, ticket: u64| !r.runs(target, ticket),
    {
        Fades { running: Vec::new(), next: self.next }
    }
}

/// At most one fade runs for each target: starting a fade of a target keeps it
/// so, whatever ran before, and leaves exactly the new one running for it.
pub proof fn law_a_started_fade_is_the_only_one(
    before: Fades,
    after: Fades,
    target: TargetModel,
    ticket: u64,
)
    requires
        before.one_for_each_target(),
        forall|other: TargetModel, t: u64| #[trigger]
            after.runs(other, t) <==> if other == target {
                t == ticket
            } else {
                before.runs(other, t)
            },
    ensures
        after.one_for_each_target(),
        forall|t: u64| #[trigger] after.runs(target, t) <==> t == ticket,
{
}

} // verus!
