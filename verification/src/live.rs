//! Live validation against a running Wave Link.
//!
//! The validation captures the current state, changes one property at a time by
//! a bounded amount and restores it at once, whether or not the change succeeded.
//! It is a state machine: a driver performs the task that the run is at and
//! reports what came of it.

use vstd::arithmetic::power2;
use vstd::prelude::*;

use crate::bound;
use crate::duration::Duration;
use crate::error::{Error, ErrorKind};
use crate::fade::{FadeCurve, FadeOptions};
use crate::float_bits;
use crate::id::{ChannelId, MixId};
use crate::json::{Fields, Json, JsonModel, JsonNumber, NumberKind};
use crate::level;
use crate::mutation::Operation;
use crate::snapshot::{Channel, MixerSnapshot};
use crate::text::same_text;
use crate::transport::ErrorModel;
use crate::value::Volume;

verus! {

/// What a live validation may do.
#[derive(Clone, Copy, Debug, PartialEq, Eq, Structural)]
pub enum LiveMode {
    Read,
    BoundedWrite,
}

/// Reads the mode by its name. Without a name the validation only reads.
pub fn live_mode(name: Option<&str>) -> (r: Result<LiveMode, Error>)
    ensures
        match name {
            None => r == Ok::<LiveMode, Error>(LiveMode::Read),
            Some(name) => if name@ == "read"@ {
                r == Ok::<LiveMode, Error>(LiveMode::Read)
            } else if name@ == "bounded-write"@ {
                r == Ok::<LiveMode, Error>(LiveMode::BoundedWrite)
            } else {
                r matches Err(error) && error@ == (
                    ErrorKind::CapabilityUnavailable,
                    "mode must be read or bounded-write"@,
                )
            },
        },
{
    match name {
        None => Ok(LiveMode::Read),
        Some(name) => if same_text(name, "read") {
            Ok(LiveMode::Read)
        } else if same_text(name, "bounded-write") {
            Ok(LiveMode::BoundedWrite)
        } else {
            Err(
                Error::new(ErrorKind::CapabilityUnavailable, "mode must be read or bounded-write"),
            )
        },
    }
}

/// The number that a member is.
pub open spec fn number_of(
    state: Map<Seq<char>, JsonModel>,
    key: Seq<char>,
) -> Option<NumberKind> {
    if state.contains_key(key) {
        match state[key] {
            JsonModel::Number(number) => Some(number),
            _ => None,
        }
    } else {
        None
    }
}

/// The truth value that a member is.
pub open spec fn boolean_of(state: Map<Seq<char>, JsonModel>, key: Seq<char>) -> Option<bool> {
    if state.contains_key(key) {
        match state[key] {
            JsonModel::Bool(b) => Some(b),
            _ => None,
        }
    } else {
        None
    }
}

/// Returns a member that has to be a number.
pub fn number(state: &Fields, key: &str) -> (r: Result<JsonNumber, Error>)
    ensures
        match number_of(state@, key@) {
            Some(number) => r matches Ok(n) && n@ == number,
            None => r matches Err(error) && error@ == (
                ErrorKind::CapabilityUnavailable,
                "live target omitted numeric "@ + key@,
            ),
        },
{
    match state.get(key) {
        Some(Json::Number(number)) => Ok(*number),
        _ => Err(
            Error::new(
                ErrorKind::CapabilityUnavailable,
                "live target omitted numeric ".to_owned().concat(key).as_str(),
            ),
        ),
    }
}

/// Returns a member that has to be a truth value.
pub fn boolean(state: &Fields, key: &str) -> (r: Result<bool, Error>)
    ensures
        match boolean_of(state@, key@) {
            Some(b) => r == Ok::<bool, Error>(b),
            None => r matches Err(error) && error@ == (
                ErrorKind::CapabilityUnavailable,
                "live target omitted boolean "@ + key@,
            ),
        },
{
    match state.get(key) {
        Some(Json::Bool(b)) => Ok(*b),
        _ => Err(
            Error::new(
                ErrorKind::CapabilityUnavailable,
                "live target omitted boolean ".to_owned().concat(key).as_str(),
            ),
        ),
    }
}

/// The captured state of the channel and the mix that the validation changes.
#[derive(Debug)]
pub struct LiveTargets {
    pub channel: ChannelId,
    pub channel_level: JsonNumber,
    pub channel_muted: bool,
    pub mix: MixId,
    pub mix_level: JsonNumber,
    pub mix_muted: bool,
}

/// Whether the targets are the first channel and the first mix of a snapshot,
/// with the state that they have there.
pub open spec fn captures(targets: LiveTargets, snapshot: MixerSnapshot) -> bool {
    &&& snapshot.channels@.len() > 0
    &&& snapshot.mixes@.len() > 0
    &&& targets.channel@ == snapshot.channels@[0].id@
    &&& targets.mix@ == snapshot.mixes@[0].id@
    &&& number_of(snapshot.channels@[0].state@, "level"@) == Some(targets.channel_level@)
    &&& boolean_of(snapshot.channels@[0].state@, "isMuted"@) == Some(targets.channel_muted)
    &&& number_of(snapshot.mixes@[0].state@, "level"@) == Some(targets.mix_level@)
    &&& boolean_of(snapshot.mixes@[0].state@, "isMuted"@) == Some(targets.mix_muted)
}

/// Why a snapshot has nothing to validate, if so: the first thing that it lacks.
pub open spec fn lacks(snapshot: MixerSnapshot) -> Option<Seq<char>> {
    if snapshot.channels@.len() == 0 {
        Some("bounded write validation requires one channel"@)
    } else if snapshot.mixes@.len() == 0 {
        Some("bounded write validation requires one mix"@)
    } else if number_of(snapshot.channels@[0].state@, "level"@) is None {
        Some("live target omitted numeric "@ + "level"@)
    } else if boolean_of(snapshot.channels@[0].state@, "isMuted"@) is None {
        Some("live target omitted boolean "@ + "isMuted"@)
    } else if number_of(snapshot.mixes@[0].state@, "level"@) is None {
        Some("live target omitted numeric "@ + "level"@)
    } else if boolean_of(snapshot.mixes@[0].state@, "isMuted"@) is None {
        Some("live target omitted boolean "@ + "isMuted"@)
    } else {
        None
    }
}

/// Captures the state that the validation changes.
pub fn live_targets(snapshot: &MixerSnapshot) -> (r: Result<LiveTargets, Error>)
    ensures
        match lacks(*snapshot) {
            Some(reason) => r matches Err(error) && error@ == (
                ErrorKind::CapabilityUnavailable,
                reason,
            ),
            None => r matches Ok(targets) && captures(targets, *snapshot),
        },
{
    if snapshot.channels.len() == 0 {
        return Err(
            Error::new(
                ErrorKind::CapabilityUnavailable,
                "bounded write validation requires one channel",
            ),
        );
    }
    if snapshot.mixes.len() == 0 {
        return Err(
            Error::new(
                ErrorKind::CapabilityUnavailable,
                "bounded write validation requires one mix",
            ),
        );
    }
    let channel = &snapshot.channels[0];
    let mix = &snapshot.mixes[0];
    let channel_level = match number(&channel.state, "level") {
        Ok(level) => level,
        Err(error) => {
            return Err(error);
        },
    };
    let channel_muted = match boolean(&channel.state, "isMuted") {
        Ok(muted) => muted,
        Err(error) => {
            return Err(error);
        },
    };
    let mix_level = match number(&mix.state, "level") {
        Ok(level) => level,
        Err(error) => {
            return Err(error);
        },
    };
    let mix_muted = match boolean(&mix.state, "isMuted") {
        Ok(muted) => muted,
        Err(error) => {
            return Err(error);
        },
    };
    Ok(
        LiveTargets {
            channel: channel.id.clone(),
            channel_level,
            channel_muted,
            mix: mix.id.clone(),
            mix_level,
            mix_muted,
        },
    )
}

/// The levels of a validation as the bits of single-precision numbers: what was
/// captured, and the bounded targets.
#[derive(Clone, Copy, Debug)]
pub struct LiveLevels {
    pub channel_level: u32,
    pub channel_target: Volume,
    pub mix_level: u32,
    pub mix_target: Volume,
}

/// Whether the levels are those of the targets: what was captured, rounded to
/// single precision, and the volumes one bounded step from it.
pub open spec fn levels_of(targets: LiveTargets, levels: LiveLevels) -> bool {
    &&& bound::bounded(
        targets.channel_level@,
        levels.channel_level,
        levels.channel_target@,
    )
    &&& bound::bounded(targets.mix_level@, levels.mix_level, levels.mix_target@)
}

/// Returns the levels of the targets. A captured level with no volume one step
/// from it is an [`ErrorKind::InvalidValue`] error.
pub fn live_levels(targets: &LiveTargets) -> (r: Result<LiveLevels, Error>)
    ensures
        match r {
            Ok(levels) => levels_of(*targets, levels),
            Err(error) => error@ == unrestorable_error() && forall|levels: LiveLevels|
                !levels_of(*targets, levels),
        },
{
    match (bound::bound(&targets.channel_level), bound::bound(&targets.mix_level)) {
        (Some((channel_level, channel_target)), Some((mix_level, mix_target))) => Ok(
            LiveLevels { channel_level, channel_target, mix_level, mix_target },
        ),
        _ => Err(
            Error::new(
                ErrorKind::InvalidValue,
                "volume must be finite and between 0.0 and 1.0",
            ),
        ),
    }
}

/// Whether two levels differ by at most a step and half of the least difference
/// that rounding allows below 1.0.
pub open spec fn within_step(a: u32, b: u32) -> bool {
    bound::distance(a, b) <= float_bits::single_value(bound::STEP) + power2::pow2(124)
}

/// Whether an operation is the change with this index: zero and two lower or
/// raise the volumes of the channel and the mix, one and three flip their mutes.
pub open spec fn changes(
    operation: Operation,
    targets: LiveTargets,
    levels: LiveLevels,
    index: int,
) -> bool {
    match operation {
        Operation::SetChannelVolume { channel, volume } => index == 0 && channel@
            == targets.channel@ && volume@ == levels.channel_target@,
        Operation::SetChannelMute { channel, muted } => index == 1 && channel@
            == targets.channel@ && muted == !targets.channel_muted,
        Operation::SetMixVolume { mix, volume } => index == 2 && mix@ == targets.mix@ && volume@
            == levels.mix_target@,
        Operation::SetMixMute { mix, muted } => index == 3 && mix@ == targets.mix@ && muted
            == !targets.mix_muted,
        _ => false,
    }
}

/// Whether an operation undoes the change with this index: it sets the same
/// property of the same target to its captured value.
pub open spec fn restores(
    operation: Operation,
    targets: LiveTargets,
    levels: LiveLevels,
    index: int,
) -> bool {
    match operation {
        Operation::SetChannelVolume { channel, volume } => index == 0 && channel@
            == targets.channel@ && volume@ == levels.channel_level,
        Operation::SetChannelMute { channel, muted } => index == 1 && channel@
            == targets.channel@ && muted == targets.channel_muted,
        Operation::SetMixVolume { mix, volume } => index == 2 && mix@ == targets.mix@ && volume@
            == levels.mix_level,
        Operation::SetMixMute { mix, muted } => index == 3 && mix@ == targets.mix@ && muted
            == targets.mix_muted,
        _ => false,
    }
}

/// Whether the captured level that a change restores is no volume.
pub open spec fn unrestorable(levels: LiveLevels, index: int) -> bool {
    ||| index == 0 && !float_bits::single_in_unit(levels.channel_level)
    ||| index == 2 && !float_bits::single_in_unit(levels.mix_level)
}

/// The error of a captured level that is no volume.
pub open spec fn unrestorable_error() -> ErrorModel {
    (ErrorKind::InvalidValue, "volume must be finite and between 0.0 and 1.0"@)
}

/// Returns the change with this index.
fn change(targets: &LiveTargets, levels: &LiveLevels, index: usize) -> (r: Operation)
    requires
        index < 4,
    ensures
        changes(r, *targets, *levels, index as int),
{
    match index {
        0 => Operation::SetChannelVolume {
            channel: targets.channel.clone(),
            volume: levels.channel_target,
        },
        1 => Operation::SetChannelMute {
            channel: targets.channel.clone(),
            muted: !targets.channel_muted,
        },
        2 => Operation::SetMixVolume { mix: targets.mix.clone(), volume: levels.mix_target },
        _ => Operation::SetMixMute { mix: targets.mix.clone(), muted: !targets.mix_muted },
    }
}

/// Returns what undoes the change with this index. A captured level that is no
/// volume could not be restored.
fn restoration(targets: &LiveTargets, levels: &LiveLevels, index: usize) -> (r: Result<
    Operation,
    Error,
>)
    requires
        index < 4,
    ensures
        match r {
            Ok(operation) => !unrestorable(*levels, index as int) && restores(
                operation,
                *targets,
                *levels,
                index as int,
            ),
            Err(error) => unrestorable(*levels, index as int) && error@ == unrestorable_error(),
        },
{
    match index {
        0 => match Volume::new(levels.channel_level) {
            Ok(volume) => Ok(
                Operation::SetChannelVolume { channel: targets.channel.clone(), volume },
            ),
            Err(error) => Err(error),
        },
        1 => Ok(
            Operation::SetChannelMute {
                channel: targets.channel.clone(),
                muted: targets.channel_muted,
            },
        ),
        2 => match Volume::new(levels.mix_level) {
            Ok(volume) => Ok(Operation::SetMixVolume { mix: targets.mix.clone(), volume }),
            Err(error) => Err(error),
        },
        _ => Ok(Operation::SetMixMute { mix: targets.mix.clone(), muted: targets.mix_muted }),
    }
}

/// The first channel with this identifier.
pub open spec fn first_channel(channels: Seq<Channel>, id: Seq<char>) -> Option<Channel>
    decreases channels.len(),
{
    if channels.len() == 0 {
        None
    } else if channels.first().id@ == id {
        Some(channels.first())
    } else {
        first_channel(channels.drop_first(), id)
    }
}

/// The level of the restored channel in a snapshot.
pub open spec fn restored_of(channels: Seq<Channel>, id: Seq<char>) -> Result<
    NumberKind,
    ErrorModel,
> {
    match first_channel(channels, id) {
        None => Err((ErrorKind::Protocol, "restored channel disappeared from snapshot"@)),
        Some(channel) => match number_of(channel.state@, "level"@) {
            Some(number) => Ok(number),
            None => Err(
                (ErrorKind::CapabilityUnavailable, "live target omitted numeric "@ + "level"@),
            ),
        },
    }
}

/// Returns the level of the restored channel. A channel that is gone is an
/// [`ErrorKind::Protocol`] error.
pub fn restored_level(snapshot: &MixerSnapshot, id: &ChannelId) -> (r: Result<JsonNumber, Error>)
    ensures
        match (r, restored_of(snapshot.channels@, id@)) {
            (Ok(level), Ok(number)) => level@ == number,
            (Err(error), Err(model)) => error@ == model,
            _ => false,
        },
{
    let ghost channels = snapshot.channels@;
    assert(channels.skip(0) =~= channels);
    for i in 0..snapshot.channels.len()
        invariant
            channels == snapshot.channels@,
            first_channel(channels, id@) == first_channel(channels.skip(i as int), id@),
    {
        let ghost rest = channels.skip(i as int);
        assert(rest.first() == channels[i as int]);
        assert(rest.drop_first() =~= channels.skip(i + 1));
        if snapshot.channels[i].id == *id {
            return number(&snapshot.channels[i].state, "level");
        }
    }
    Err(Error::new(ErrorKind::Protocol, "restored channel disappeared from snapshot"))
}

/// What the driver of a validation is to do, and what it reports then.
#[derive(Debug)]
pub enum LiveTask {
    /// Apply this: [`LiveInput::Applied`].
    Apply(Operation),
    /// Fade the channel's volume: [`LiveInput::Applied`].
    Fade { channel: ChannelId, start: Volume, end: Volume, options: FadeOptions },
    /// Read a snapshot: [`LiveInput::Snapshot`].
    ReadSnapshot,
    /// Nothing more: the validation is over, with this outcome.
    Done(Result<(), Error>),
}

/// What the driver of a validation reports.
#[derive(Debug)]
pub enum LiveInput {
    /// What came of a mutation or a fade.
    Applied(Result<(), Error>),
    /// What came of reading a snapshot.
    Snapshot(Result<MixerSnapshot, Error>),
}

/// Where a validation is.
#[derive(Debug)]
enum LiveStage {
    Mutating(usize),
    Restoring(usize, Option<Error>),
    Confirming(usize),
    Fading,
    Returning(Option<Error>),
    Verifying,
    Passed,
    Failed(Error),
}

/// Where a validation is, as a model.
pub enum LivePhase {
    /// Making the change with this index.
    Mutating(int),
    /// Undoing the change with this index, whose own failure is kept.
    Restoring(int, Option<ErrorModel>),
    /// Reading the mixer after the change with this index was undone.
    Confirming(int),
    /// Fading the channel.
    Fading,
    /// Undoing the fade, whose own failure is kept.
    Returning(Option<ErrorModel>),
    /// Reading the mixer after the fade was undone, to compare the channel's
    /// level with the captured one.
    Verifying,
    /// Over, without a failure.
    Passed,
    /// Over, with this failure.
    Failed(ErrorModel),
}

/// The failure that an outcome is, if it is one.
pub open spec fn failure_of(outcome: Result<(), Error>) -> Option<ErrorModel> {
    match outcome {
        Ok(_) => None,
        Err(error) => Some(error@),
    }
}

/// The phase that begins the change with this index. After the last change
/// comes the fade.
pub open spec fn begin_change(levels: LiveLevels, index: int) -> LivePhase {
    if index >= 4 {
        LivePhase::Fading
    } else if unrestorable(levels, index) {
        LivePhase::Failed(unrestorable_error())
    } else {
        LivePhase::Mutating(index)
    }
}

impl LivePhase {
    /// The phase after a report.
    pub open spec fn after(
        self,
        targets: LiveTargets,
        levels: LiveLevels,
        input: LiveInput,
    ) -> Self {
        match (self, input) {
            (LivePhase::Mutating(index), LiveInput::Applied(outcome)) => LivePhase::Restoring(
                index,
                failure_of(outcome),
            ),
            (LivePhase::Restoring(index, failure), LiveInput::Applied(outcome)) => match (
                failure,
                failure_of(outcome),
            ) {
                (Some(error), _) => LivePhase::Failed(error),
                (None, Some(error)) => LivePhase::Failed(error),
                (None, None) => LivePhase::Confirming(index),
            },
            (LivePhase::Confirming(index), LiveInput::Snapshot(Ok(_))) => begin_change(
                levels,
                index + 1,
            ),
            (LivePhase::Fading, LiveInput::Applied(outcome)) => LivePhase::Returning(
                failure_of(outcome),
            ),
            (LivePhase::Returning(failure), LiveInput::Applied(outcome)) => match (
                failure,
                failure_of(outcome),
            ) {
                (Some(error), _) => LivePhase::Failed(error),
                (None, Some(error)) => LivePhase::Failed(error),
                (None, None) => LivePhase::Verifying,
            },
            (LivePhase::Verifying, LiveInput::Snapshot(Ok(snapshot))) => match restored_of(
                snapshot.channels@,
                targets.channel@,
            ) {
                Ok(number) => if bound::shows(number, levels.channel_level) {
                    LivePhase::Passed
                } else {
                    LivePhase::Failed(
                        (ErrorKind::Protocol, "channel level restoration did not round trip"@),
                    )
                },
                Err(error) => LivePhase::Failed(error),
            },
            (LivePhase::Confirming(_), LiveInput::Snapshot(Err(error))) => LivePhase::Failed(
                error@,
            ),
            (LivePhase::Verifying, LiveInput::Snapshot(Err(error))) => LivePhase::Failed(error@),
            _ => self,
        }
    }

    /// Whether this phase asks for a task.
    pub open spec fn asks(self, targets: LiveTargets, levels: LiveLevels, task: LiveTask) -> bool {
        match self {
            LivePhase::Mutating(index) => task matches LiveTask::Apply(operation) && changes(
                operation,
                targets,
                levels,
                index,
            ),
            LivePhase::Restoring(index, _) => task matches LiveTask::Apply(operation) && restores(
                operation,
                targets,
                levels,
                index,
            ),
            LivePhase::Confirming(_) => task == LiveTask::ReadSnapshot,
            LivePhase::Fading => task matches LiveTask::Fade { channel, start, end, options }
                && channel@ == targets.channel@ && start@ == levels.channel_level && end@
                == levels.channel_target@ && options.duration@ == 250_000_000 && options.curve
                == FadeCurve::Perceptual,
            LivePhase::Returning(_) => task matches LiveTask::Apply(operation) && restores(
                operation,
                targets,
                levels,
                0,
            ),
            LivePhase::Verifying => task == LiveTask::ReadSnapshot,
            LivePhase::Passed => task matches LiveTask::Done(Ok(_)),
            LivePhase::Failed(error) => task matches LiveTask::Done(Err(e)) && e@ == error,
        }
    }

    /// What holds of every phase of a run: what was changed can be restored.
    pub open spec fn restorable(self, levels: LiveLevels) -> bool {
        match self {
            LivePhase::Mutating(index) => 0 <= index < 4 && !unrestorable(levels, index)
                && !unrestorable(levels, 0),
            LivePhase::Restoring(index, _) => 0 <= index < 4 && !unrestorable(levels, index)
                && !unrestorable(levels, 0),
            LivePhase::Passed => true,
            LivePhase::Failed(_) => true,
            LivePhase::Confirming(index) => 0 <= index < 4 && !unrestorable(levels, 0),
            _ => !unrestorable(levels, 0),
        }
    }
}

/// A validation that runs.
#[derive(Debug)]
pub struct LiveRun {
    targets: LiveTargets,
    levels: LiveLevels,
    stage: LiveStage,
}

/// What a stage is.
spec fn phase_of(stage: LiveStage) -> LivePhase {
    match stage {
        LiveStage::Mutating(index) => LivePhase::Mutating(index as int),
        LiveStage::Restoring(index, failure) => LivePhase::Restoring(
            index as int,
            match failure {
                Some(error) => Some(error@),
                None => None,
            },
        ),
        LiveStage::Confirming(index) => LivePhase::Confirming(index as int),
        LiveStage::Fading => LivePhase::Fading,
        LiveStage::Returning(failure) => LivePhase::Returning(
            match failure {
                Some(error) => Some(error@),
                None => None,
            },
        ),
        LiveStage::Verifying => LivePhase::Verifying,
        LiveStage::Passed => LivePhase::Passed,
        LiveStage::Failed(error) => LivePhase::Failed(error@),
    }
}

/// Begins the change with this index.
fn begin(targets: &LiveTargets, levels: &LiveLevels, index: usize) -> (r: LiveStage)
    ensures
        phase_of(r) == begin_change(*levels, index as int),
{
    if index >= 4 {
        return LiveStage::Fading;
    }
    match restoration(targets, levels, index) {
        Ok(_) => LiveStage::Mutating(index),
        Err(error) => LiveStage::Failed(error),
    }
}

/// Goes on to a stage, or fails.
fn go_on(outcome: Result<(), Error>, next: LiveStage) -> (r: LiveStage)
    ensures
        phase_of(r) == (match failure_of(outcome) {
            Some(error) => LivePhase::Failed(error),
            None => phase_of(next),
        }),
{
    match outcome {
        Ok(_) => next,
        Err(error) => LiveStage::Failed(error),
    }
}

impl LiveRun {
    /// What the validation changes.
    pub closed spec fn targets(self) -> LiveTargets {
        self.targets
    }

    /// The levels of the validation.
    pub closed spec fn levels(self) -> LiveLevels {
        self.levels
    }

    /// Where the validation is.
    pub closed spec fn phase(self) -> LivePhase {
        phase_of(self.stage)
    }

    #[verifier::type_invariant]
    spec fn well_formed(self) -> bool {
        self.phase().restorable(self.levels) && levels_of(self.targets, self.levels)
    }

    /// Starts a validation with the levels of its targets. A captured level with
    /// no volume one step from it is an [`ErrorKind::InvalidValue`] error.
    pub fn new(targets: LiveTargets) -> (r: Result<Self, Error>)
        ensures
            match r {
                Ok(run) => run.targets() == targets && levels_of(targets, run.levels())
                    && run.phase() == begin_change(run.levels(), 0),
                Err(error) => error@ == unrestorable_error() && forall|levels: LiveLevels|
                    !levels_of(targets, levels),
            },
    {
        match live_levels(&targets) {
            Ok(levels) => {
                let stage = begin(&targets, &levels, 0);
                Ok(LiveRun { targets, levels, stage })
            },
            Err(error) => Err(error),
        }
    }

    /// Returns the task that the validation is at.
    #[must_use]
    pub fn task(&self) -> (r: LiveTask)
        ensures
            self.phase().asks(self.targets(), self.levels(), r),
    {
        proof {
            use_type_invariant(self);
        }
        match &self.stage {
            LiveStage::Mutating(index) => LiveTask::Apply(
                change(&self.targets, &self.levels, *index),
            ),
            LiveStage::Restoring(index, _) => match restoration(
                &self.targets,
                &self.levels,
                *index,
            ) {
                Ok(operation) => LiveTask::Apply(operation),
                Err(error) => LiveTask::Done(Err(error)),
            },
            LiveStage::Confirming(_) => LiveTask::ReadSnapshot,
            LiveStage::Fading => match Volume::new(self.levels.channel_level) {
                Ok(start) => LiveTask::Fade {
                    channel: self.targets.channel.clone(),
                    start,
                    end: self.levels.channel_target,
                    options: FadeOptions {
                        duration: Duration::from_millis(250),
                        curve: FadeCurve::Perceptual,
                    },
                },
                Err(error) => LiveTask::Done(Err(error)),
            },
            LiveStage::Returning(_) => match restoration(&self.targets, &self.levels, 0) {
                Ok(operation) => LiveTask::Apply(operation),
                Err(error) => LiveTask::Done(Err(error)),
            },
            LiveStage::Verifying => LiveTask::ReadSnapshot,
            LiveStage::Passed => LiveTask::Done(Ok(())),
            LiveStage::Failed(error) => LiveTask::Done(Err(error.clone())),
        }
    }

    /// Moves on after a report. A report that does not belong to the task at
    /// hand changes nothing.
    #[must_use]
    pub fn step(self, input: LiveInput) -> (r: Self)
        ensures
            r.targets() == self.targets(),
            r.levels() == self.levels(),
            r.phase() == self.phase().after(self.targets(), self.levels(), input),
    {
        proof {
            use_type_invariant(&self);
        }
        let LiveRun { targets, levels, stage } = self;
        let next: LiveStage = match (stage, input) {
            (LiveStage::Mutating(index), LiveInput::Applied(Ok(_))) => LiveStage::Restoring(
                index,
                None,
            ),
            (LiveStage::Mutating(index), LiveInput::Applied(Err(error))) => LiveStage::Restoring(
                index,
                Some(error),
            ),
            (LiveStage::Restoring(_, Some(error)), LiveInput::Applied(_)) => LiveStage::Failed(
                error,
            ),
            (LiveStage::Restoring(index, None), LiveInput::Applied(outcome)) => go_on(
                outcome,
                LiveStage::Confirming(index),
            ),
            (LiveStage::Confirming(index), LiveInput::Snapshot(Ok(_))) => begin(
                &targets,
                &levels,
                index + 1,
            ),
            (LiveStage::Confirming(_), LiveInput::Snapshot(Err(error))) => LiveStage::Failed(
                error,
            ),
            (LiveStage::Fading, LiveInput::Applied(Ok(_))) => LiveStage::Returning(None),
            (LiveStage::Fading, LiveInput::Applied(Err(error))) => LiveStage::Returning(
                Some(error),
            ),
            (LiveStage::Returning(Some(error)), LiveInput::Applied(_)) => LiveStage::Failed(
                error,
            ),
            (LiveStage::Returning(None), LiveInput::Applied(outcome)) => go_on(
                outcome,
                LiveStage::Verifying,
            ),
            (LiveStage::Verifying, LiveInput::Snapshot(Ok(snapshot))) => match restored_level(
                &snapshot,
                &targets.channel,
            ) {
                Ok(number) => if bound::shows_level(&number, levels.channel_level) {
                    LiveStage::Passed
                } else {
                    LiveStage::Failed(
                        Error::new(
                            ErrorKind::Protocol,
                            "channel level restoration did not round trip",
                        ),
                    )
                },
                Err(error) => LiveStage::Failed(error),
            },
            (LiveStage::Verifying, LiveInput::Snapshot(Err(error))) => LiveStage::Failed(error),
            (stage, _) => stage,
        };
        LiveRun { targets, levels, stage: next }
    }
}

/// Begins the writing part of a validation, which only the bounded-write mode
/// has: without it nothing is written.
pub fn live_run(mode: LiveMode, snapshot: &MixerSnapshot) -> (r: Result<Option<LiveRun>, Error>)
    ensures
        r matches Ok(None) <==> mode == LiveMode::Read,
        mode == LiveMode::BoundedWrite ==> match lacks(*snapshot) {
            Some(reason) => r matches Err(error) && error@ == (
                ErrorKind::CapabilityUnavailable,
                reason,
            ),
            None => match r {
                Ok(Some(run)) => captures(run.targets(), *snapshot) && levels_of(
                    run.targets(),
                    run.levels(),
                ) && run.phase() == begin_change(run.levels(), 0),
                Ok(None) => false,
                Err(error) => error@ == unrestorable_error() && forall|
                    targets: LiveTargets,
                    levels: LiveLevels,
                |
                    captures(targets, *snapshot) ==> !#[trigger] levels_of(targets, levels),
            },
        },
{
    match mode {
        LiveMode::Read => Ok(None),
        LiveMode::BoundedWrite => match live_targets(snapshot) {
            Err(error) => Err(error),
            Ok(targets) => {
                let ghost captured = targets;
                match LiveRun::new(targets) {
                    Ok(run) => Ok(Some(run)),
                    Err(error) => {
                        assert forall|other: LiveTargets, levels: LiveLevels|
                            captures(other, *snapshot) implies !#[trigger] levels_of(
                            other,
                            levels,
                        ) by {
                            assert(!levels_of(captured, levels));
                        }
                        Err(error)
                    },
                }
            },
        },
    }
}

/// The levels that a validation writes are bounded: each differs from the level
/// that was captured of its target by at most the step of 0.02 and the rounding
/// of single precision, and so do the ends of the fade.
pub proof fn law_written_levels_are_bounded(
    phase: LivePhase,
    targets: LiveTargets,
    levels: LiveLevels,
    task: LiveTask,
)
    requires
        levels_of(targets, levels),
        phase.restorable(levels),
        phase.asks(targets, levels, task),
    ensures
        match task {
            LiveTask::Apply(Operation::SetChannelVolume { channel, volume }) => channel@
                == targets.channel@ && within_step(levels.channel_level, volume@),
            LiveTask::Apply(Operation::SetMixVolume { mix, volume }) => mix@ == targets.mix@
                && within_step(levels.mix_level, volume@),
            LiveTask::Fade { channel, start, end, .. } => channel@ == targets.channel@
                && within_step(levels.channel_level, start@) && within_step(
                levels.channel_level,
                end@,
            ),
            _ => true,
        },
{
    if !unrestorable(levels, 0) {
        bound::law_steps_are_bounded(levels.channel_level, levels.channel_target@);
    }
    if !unrestorable(levels, 2) {
        bound::law_steps_are_bounded(levels.mix_level, levels.mix_target@);
    }
}

/// Every phase of a run can restore what it changes: a run begins so, and every
/// report keeps it so.
pub proof fn law_runs_stay_restorable(
    phase: LivePhase,
    targets: LiveTargets,
    levels: LiveLevels,
    input: LiveInput,
)
    ensures
        begin_change(levels, 0).restorable(levels),
        phase.restorable(levels) ==> phase.after(targets, levels, input).restorable(levels),
{
}

/// A change is undone at once: whatever came of it, the next task is to set the
/// same property of the same target to its captured value. This holds of the
/// four changes and of the fade, which moves the property of the first change.
pub proof fn law_changes_are_undone_at_once(
    phase: LivePhase,
    targets: LiveTargets,
    levels: LiveLevels,
    outcome: Result<(), Error>,
    task: LiveTask,
)
    requires
        phase is Mutating || phase is Fading,
        phase.after(targets, levels, LiveInput::Applied(outcome)).asks(targets, levels, task),
    ensures
        task matches LiveTask::Apply(operation) && restores(
            operation,
            targets,
            levels,
            match phase {
                LivePhase::Mutating(index) => index,
                _ => 0,
            },
        ),
{
}

/// The failure of a change or of the fade is what the validation ends with, once
/// it was undone and whatever came of that.
pub proof fn law_failed_changes_fail_the_validation(
    phase: LivePhase,
    targets: LiveTargets,
    levels: LiveLevels,
    error: Error,
    undone: Result<(), Error>,
)
    requires
        phase is Mutating || phase is Fading,
    ensures
        phase.after(targets, levels, LiveInput::Applied(Err(error))).after(
            targets,
            levels,
            LiveInput::Applied(undone),
        ) == LivePhase::Failed(error@),
{
}

/// A validation passes only with a snapshot that shows the channel at its
/// captured level within the tolerance, and once it is over nothing changes its
/// outcome.
pub proof fn law_validations_pass_only_restored(
    phase: LivePhase,
    targets: LiveTargets,
    levels: LiveLevels,
    input: LiveInput,
)
    ensures
        phase.after(targets, levels, input) is Passed && !(phase is Passed) ==> phase is Verifying
            && (input matches LiveInput::Snapshot(Ok(snapshot)) && (restored_of(
            snapshot.channels@,
            targets.channel@,
        ) matches Ok(number) && bound::shows(number, levels.channel_level))),
        phase is Passed || phase is Failed ==> phase.after(targets, levels, input) == phase,
{
}

/// The properties that may be off their captured value in a phase: the one whose
/// change was asked for and is not undone yet.
pub open spec fn displaced(phase: LivePhase) -> Set<int> {
    match phase {
        LivePhase::Restoring(index, _) => set![index],
        LivePhase::Returning(_) => set![0],
        _ => set![],
    }
}

/// A validation leaves nothing behind: a property that may be off its captured
/// value stays so only until the next report of an applied operation, and the
/// operation that was then asked for restored it.
pub proof fn law_nothing_is_left_displaced(
    phase: LivePhase,
    targets: LiveTargets,
    levels: LiveLevels,
    outcome: Result<(), Error>,
    task: LiveTask,
    index: int,
)
    requires
        displaced(phase).contains(index),
        phase.asks(targets, levels, task),
    ensures
        task matches LiveTask::Apply(operation) && restores(operation, targets, levels, index),
        displaced(phase.after(targets, levels, LiveInput::Applied(outcome))) == Set::<int>::empty(),
{
    assert(displaced(phase.after(targets, levels, LiveInput::Applied(outcome)))
        =~= Set::<int>::empty());
}

/// A member counts as a number or a truth value exactly when it is there and is
/// one.
pub proof fn law_captured_members_are_of_their_sort(
    state: Map<Seq<char>, JsonModel>,
    key: Seq<char>,
    number: NumberKind,
    b: bool,
)
    ensures
        number_of(state, key) == Some(number) <==> state.contains_key(key) && state[key]
            == JsonModel::Number(number),
        boolean_of(state, key) == Some(b) <==> state.contains_key(key) && state[key]
            == JsonModel::Bool(b),
        number_of(state, key) is None <==> !state.contains_key(key) || !(state[key] is Number),
        boolean_of(state, key) is None <==> !state.contains_key(key) || !(state[key] is Bool),
{
}

/// A validation changes the first channel and the first mix, and captures their
/// levels and mutes as they are.
pub proof fn law_first_channel_and_mix_are_captured(targets: LiveTargets, snapshot: MixerSnapshot)
    ensures
        captures(targets, snapshot) <==> {
            let channel = snapshot.channels@[0].state@;
            let mix = snapshot.mixes@[0].state@;
            &&& snapshot.channels@.len() > 0
            &&& snapshot.mixes@.len() > 0
            &&& targets.channel@ == snapshot.channels@[0].id@
            &&& targets.mix@ == snapshot.mixes@[0].id@
            &&& channel.contains_key("level"@)
            &&& channel["level"@] == JsonModel::Number(targets.channel_level@)
            &&& channel.contains_key("isMuted"@)
            &&& channel["isMuted"@] == JsonModel::Bool(targets.channel_muted)
            &&& mix.contains_key("level"@)
            &&& mix["level"@] == JsonModel::Number(targets.mix_level@)
            &&& mix.contains_key("isMuted"@)
            &&& mix["isMuted"@] == JsonModel::Bool(targets.mix_muted)
        },
{
}

/// A snapshot has something to validate exactly when there is a channel and a mix
/// and the first of each has a level and a mute. What is told of one that has not
/// is the first thing that it lacks.
pub proof fn law_lacking_snapshots_are_told(snapshot: MixerSnapshot)
    ensures
        ({
            let channel = snapshot.channels@[0].state@;
            let mix = snapshot.mixes@[0].state@;
            let channel_level = channel.contains_key("level"@) && channel["level"@] is Number;
            let channel_mute = channel.contains_key("isMuted"@) && channel["isMuted"@] is Bool;
            let mix_level = mix.contains_key("level"@) && mix["level"@] is Number;
            let mix_mute = mix.contains_key("isMuted"@) && mix["isMuted"@] is Bool;
            if snapshot.channels@.len() == 0 {
                lacks(snapshot) == Some("bounded write validation requires one channel"@)
            } else if snapshot.mixes@.len() == 0 {
                lacks(snapshot) == Some("bounded write validation requires one mix"@)
            } else if !channel_level {
                lacks(snapshot) == Some("live target omitted numeric "@ + "level"@)
            } else if !channel_mute {
                lacks(snapshot) == Some("live target omitted boolean "@ + "isMuted"@)
            } else if !mix_level {
                lacks(snapshot) == Some("live target omitted numeric "@ + "level"@)
            } else if !mix_mute {
                lacks(snapshot) == Some("live target omitted boolean "@ + "isMuted"@)
            } else {
                lacks(snapshot) is None
            }
        }),
{
}

/// The four changes, in order: the channel's volume one bounded step away, its mute
/// flipped, the mix's volume one bounded step away, its mute flipped. There is no
/// other change.
pub proof fn law_changes_are_the_four(
    operation: Operation,
    targets: LiveTargets,
    levels: LiveLevels,
    index: int,
)
    ensures
        changes(operation, targets, levels, index) <==> {
            ||| index == 0 && (operation matches Operation::SetChannelVolume { channel, volume }
                && channel@ == targets.channel@ && volume@ == levels.channel_target@)
            ||| index == 1 && (operation matches Operation::SetChannelMute { channel, muted }
                && channel@ == targets.channel@ && muted != targets.channel_muted)
            ||| index == 2 && (operation matches Operation::SetMixVolume { mix, volume } && mix@
                == targets.mix@ && volume@ == levels.mix_target@)
            ||| index == 3 && (operation matches Operation::SetMixMute { mix, muted } && mix@
                == targets.mix@ && muted != targets.mix_muted)
        },
{
}

/// What undoes each of the four changes: the same operation on the same target with
/// the captured value.
pub proof fn law_restorations_undo_the_four(
    operation: Operation,
    targets: LiveTargets,
    levels: LiveLevels,
    index: int,
)
    ensures
        restores(operation, targets, levels, index) <==> {
            ||| index == 0 && (operation matches Operation::SetChannelVolume { channel, volume }
                && channel@ == targets.channel@ && volume@ == levels.channel_level)
            ||| index == 1 && (operation matches Operation::SetChannelMute { channel, muted }
                && channel@ == targets.channel@ && muted == targets.channel_muted)
            ||| index == 2 && (operation matches Operation::SetMixVolume { mix, volume } && mix@
                == targets.mix@ && volume@ == levels.mix_level)
            ||| index == 3 && (operation matches Operation::SetMixMute { mix, muted } && mix@
                == targets.mix@ && muted == targets.mix_muted)
        },
{
}

/// A change and what undoes it are sent with the same method, and a mute that is
/// changed is really changed.
pub proof fn law_changes_and_restorations_belong_together(
    change: Operation,
    restoration: Operation,
    targets: LiveTargets,
    levels: LiveLevels,
    index: int,
)
    requires
        changes(change, targets, levels, index),
        restores(restoration, targets, levels, index),
    ensures
        change.spec_method() == restoration.spec_method(),
        change matches Operation::SetChannelMute { muted: a, .. } ==> (
        restoration matches Operation::SetChannelMute { muted: b, .. } && a != b),
        change matches Operation::SetMixMute { muted: a, .. } ==> (
        restoration matches Operation::SetMixMute { muted: b, .. } && a != b),
{
}

/// A change that could not be undone is never made: one whose captured level is no
/// volume fails the validation as an invalid value before it is asked for. The mutes
/// can always be undone.
pub proof fn law_unrestorable_changes_are_not_made(levels: LiveLevels, index: int)
    requires
        0 <= index <= 4,
    ensures
        ({
            let level = if index == 0 {
                levels.channel_level
            } else {
                levels.mix_level
            };
            let volume = level <= 0x3f80_0000 || level == 0x8000_0000;
            if index == 4 {
                begin_change(levels, index) is Fading
            } else if (index == 0 || index == 2) && !volume {
                begin_change(levels, index) == LivePhase::Failed(
                    (ErrorKind::InvalidValue, "volume must be finite and between 0.0 and 1.0"@),
                )
            } else {
                begin_change(levels, index) == LivePhase::Mutating(index)
            }
        }),
{
    float_bits::lemma_unit_patterns(levels.channel_level);
    float_bits::lemma_unit_patterns(levels.mix_level);
}

/// A validation that meets no failure goes through its changes one after the other:
/// each is made, undone and confirmed by a snapshot before the next; after the
/// fourth the channel is faded, brought back and compared with a last snapshot.
pub proof fn law_validations_go_in_order(
    targets: LiveTargets,
    levels: LiveLevels,
    index: int,
    snapshot: MixerSnapshot,
)
    requires
        0 <= index < 4,
    ensures
        LivePhase::Mutating(index).after(targets, levels, LiveInput::Applied(Ok(())))
            == LivePhase::Restoring(index, None),
        LivePhase::Restoring(index, None).after(targets, levels, LiveInput::Applied(Ok(())))
            == LivePhase::Confirming(index),
        LivePhase::Confirming(index).after(targets, levels, LiveInput::Snapshot(Ok(snapshot)))
            == begin_change(levels, index + 1),
        LivePhase::Fading.after(targets, levels, LiveInput::Applied(Ok(())))
            == LivePhase::Returning(None),
        LivePhase::Returning(None).after(targets, levels, LiveInput::Applied(Ok(())))
            == LivePhase::Verifying,
{
}

/// Every failure ends a validation with exactly that failure: of a change or a fade
/// once it was undone, of an undoing or a reading at once.
pub proof fn law_failures_end_the_validation(
    targets: LiveTargets,
    levels: LiveLevels,
    index: int,
    error: Error,
)
    ensures
        LivePhase::Mutating(index).after(targets, levels, LiveInput::Applied(Err(error)))
            == LivePhase::Restoring(index, Some(error@)),
        LivePhase::Restoring(index, None).after(targets, levels, LiveInput::Applied(Err(error)))
            == LivePhase::Failed(error@),
        LivePhase::Confirming(index).after(targets, levels, LiveInput::Snapshot(Err(error)))
            == LivePhase::Failed(error@),
        LivePhase::Fading.after(targets, levels, LiveInput::Applied(Err(error)))
            == LivePhase::Returning(Some(error@)),
        LivePhase::Returning(None).after(targets, levels, LiveInput::Applied(Err(error)))
            == LivePhase::Failed(error@),
        LivePhase::Verifying.after(targets, levels, LiveInput::Snapshot(Err(error)))
            == LivePhase::Failed(error@),
{
}

/// What each phase asks of its driver: the change, its undoing, a snapshot, the fade
/// from the captured level to the bounded target within 250 ms along the perceptual
/// curve, its undoing, a last snapshot, and then nothing but the outcome.
pub proof fn law_phases_ask_for_their_task(
    phase: LivePhase,
    targets: LiveTargets,
    levels: LiveLevels,
    task: LiveTask,
)
    requires
        phase.asks(targets, levels, task),
    ensures
        match phase {
            LivePhase::Mutating(index) => task matches LiveTask::Apply(operation) && changes(
                operation,
                targets,
                levels,
                index,
            ),
            LivePhase::Restoring(index, _) => task matches LiveTask::Apply(operation) && restores(
                operation,
                targets,
                levels,
                index,
            ),
            LivePhase::Returning(_) => task matches LiveTask::Apply(operation) && restores(
                operation,
                targets,
                levels,
                0,
            ),
            LivePhase::Confirming(_) => task is ReadSnapshot,
            LivePhase::Verifying => task is ReadSnapshot,
            LivePhase::Fading => task matches LiveTask::Fade { channel, start, end, options } && {
                &&& channel@ == targets.channel@
                &&& start@ == levels.channel_level
                &&& end@ == levels.channel_target@
                &&& options.duration@ == 250_000_000
                &&& options.curve == FadeCurve::Perceptual
            },
            LivePhase::Passed => task matches LiveTask::Done(Ok(_)),
            LivePhase::Failed(error) => task matches LiveTask::Done(Err(e)) && e@ == error,
        },
{
}

/// A report that does not answer the task at hand changes nothing.
pub proof fn law_stray_live_reports_change_nothing(
    phase: LivePhase,
    targets: LiveTargets,
    levels: LiveLevels,
    input: LiveInput,
)
    requires
        input is Applied ==> phase is Confirming || phase is Verifying || phase is Passed
            || phase is Failed,
        input is Snapshot ==> !(phase is Confirming || phase is Verifying),
    ensures
        phase.after(targets, levels, input) == phase,
{
}

/// The restored channel is looked up by its identifier: it is the first one that has
/// it, and there is none exactly when no channel does.
pub proof fn law_channel_is_the_first_with_its_identifier(channels: Seq<Channel>, id: Seq<char>)
    ensures
        first_channel(channels, id) is None <==> forall|i: int|
            0 <= i < channels.len() ==> (#[trigger] channels[i]).id@ != id,
        first_channel(channels, id) matches Some(channel) ==> channel.id@ == id && exists|i: int|
            0 <= i < channels.len() && #[trigger] channels[i] == channel && forall|j: int|
                0 <= j < i ==> (#[trigger] channels[j]).id@ != id,
    decreases channels.len(),
{
    if channels.len() > 0 {
        let rest = channels.drop_first();
        law_channel_is_the_first_with_its_identifier(rest, id);
        assert forall|i: int| 0 <= i < rest.len() implies #[trigger] rest[i] == channels[i + 1] by {
        }
        if channels[0].id@ != id {
            if let Some(channel) = first_channel(rest, id) {
                let i = choose|i: int|
                    0 <= i < rest.len() && #[trigger] rest[i] == channel && forall|j: int|
                        0 <= j < i ==> (#[trigger] rest[j]).id@ != id;
                assert(channels[i + 1] == channel);
                assert forall|j: int| 0 <= j < i + 1 implies (#[trigger] channels[j]).id@ != id by {
                    if j > 0 {
                        assert(rest[j - 1] == channels[j]);
                    }
                }
            } else {
                assert forall|i: int| 0 <= i < channels.len() implies (#[trigger] channels[i]).id@
                    != id by {
                    if i > 0 {
                        assert(rest[i - 1] == channels[i]);
                    }
                }
            }
        } else {
            assert(channels[0].id@ == id);
        }
    }
}

/// The restored level is that of the first channel with the identifier. A channel
/// that is gone breaks the protocol, and one without a level lacks it.
pub proof fn law_restored_level_is_that_of_the_channel(
    channels: Seq<Channel>,
    id: Seq<char>,
    at: int,
)
    ensures
        (forall|i: int| 0 <= i < channels.len() ==> (#[trigger] channels[i]).id@ != id)
            ==> restored_of(channels, id) == Err::<NumberKind, ErrorModel>(
            (ErrorKind::Protocol, "restored channel disappeared from snapshot"@),
        ),
        0 <= at < channels.len() && channels[at].id@ == id && (forall|j: int|
            0 <= j < at ==> (#[trigger] channels[j]).id@ != id) ==> {
            let state = channels[at].state@;
            if state.contains_key("level"@) && state["level"@] is Number {
                restored_of(channels, id) == Ok::<NumberKind, ErrorModel>(state["level"@]->Number_0)
            } else {
                restored_of(channels, id) == Err::<NumberKind, ErrorModel>(
                    (ErrorKind::CapabilityUnavailable, "live target omitted numeric "@ + "level"@),
                )
            }
        },
{
    law_channel_is_the_first_with_its_identifier(channels, id);
    if let Some(channel) = first_channel(channels, id) {
        let i = choose|i: int|
            0 <= i < channels.len() && #[trigger] channels[i] == channel && forall|j: int|
                0 <= j < i ==> (#[trigger] channels[j]).id@ != id;
        assert(channels[i].id@ == id);
        if 0 <= at < channels.len() && channels[at].id@ == id && (forall|j: int|
            0 <= j < at ==> (#[trigger] channels[j]).id@ != id) {
            if i < at {
                assert(channels[i].id@ != id);
            }
            if at < i {
                assert(channels[at].id@ != id);
            }
        }
    }
}

/// The last snapshot decides: the validation passes where the restored channel shows
/// the captured level, and fails as a broken protocol where it shows another, or
/// with the error of a channel that is gone or has no level.
pub proof fn law_last_snapshot_decides(
    targets: LiveTargets,
    levels: LiveLevels,
    snapshot: MixerSnapshot,
)
    ensures
        ({
            let next = LivePhase::Verifying.after(
                targets,
                levels,
                LiveInput::Snapshot(Ok(snapshot)),
            );
            match restored_of(snapshot.channels@, targets.channel@) {
                Err(error) => next == LivePhase::Failed(error),
                Ok(number) => {
                    &&& bound::shows(number, levels.channel_level) ==> next is Passed
                    &&& !bound::shows(number, levels.channel_level) ==> next == LivePhase::Failed(
                        (ErrorKind::Protocol, "channel level restoration did not round trip"@),
                    )
                },
            }
        }),
{
}

/// The levels of a validation belong to their own targets: each captured level is that
/// of its target rounded to single precision, and each bounded target is the volume one
/// step from that.
pub proof fn law_levels_belong_to_their_targets(targets: LiveTargets, levels: LiveLevels)
    ensures
        levels_of(targets, levels) <==> {
            &&& level::number_narrows_to(targets.channel_level@, levels.channel_level)
            &&& level::number_narrows_to(targets.mix_level@, levels.mix_level)
            &&& bound::steps_to(levels.channel_level, levels.channel_target@)
            &&& bound::steps_to(levels.mix_level, levels.mix_target@)
            &&& float_bits::single_in_unit(levels.channel_target@)
            &&& float_bits::single_in_unit(levels.mix_target@)
        },
{
}

/// An outcome is a failure exactly when it is an error, and then it is that error.
pub proof fn law_outcomes_are_seen_as_they_are(outcome: Result<(), Error>)
    ensures
        match outcome {
            Ok(_) => failure_of(outcome) is None,
            Err(error) => failure_of(outcome) == Some(error@),
        },
        unrestorable_error() == (
            ErrorKind::InvalidValue,
            "volume must be finite and between 0.0 and 1.0"@,
        ),
{
}

} // verus!
