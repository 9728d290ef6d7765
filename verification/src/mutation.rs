//! Mutations of the mixer and ordered batches of them.

use vstd::prelude::*;

use crate::error;
use crate::error::Error;
use crate::id::{ChannelId, MixId};
use crate::float_bits;
use crate::json;
use crate::json::{Fields, Json, JsonModel, NumberKind};
use crate::level;
use crate::snapshot;
use crate::value::Volume;
use crate::wire::Encode;

verus! {

/// One change to the mixer.
#[derive(Clone, Debug, PartialEq)]
#[non_exhaustive]
pub enum Operation {
    SetChannelVolume { channel: ChannelId, volume: Volume },
    SetChannelMute { channel: ChannelId, muted: bool },
    SetChannelMixVolume { channel: ChannelId, mix: MixId, volume: Volume },
    SetChannelMixMute { channel: ChannelId, mix: MixId, muted: bool },
    SetMixVolume { mix: MixId, volume: Volume },
    SetMixMute { mix: MixId, muted: bool },
}

/// An object with an identifier and one other member.
pub open spec fn partial_object(id: Seq<char>, name: Seq<char>, value: JsonModel) -> JsonModel {
    JsonModel::Object(
        Map::<Seq<char>, JsonModel>::empty().insert("id"@, JsonModel::Text(id)).insert(
            name,
            value,
        ),
    )
}

impl Operation {
    /// The method that carries this operation.
    pub open spec fn spec_method(self) -> Seq<char> {
        match self {
            Operation::SetMixVolume { .. } => "setMix"@,
            Operation::SetMixMute { .. } => "setMix"@,
            _ => "setChannel"@,
        }
    }

    /// The parameters that carry this operation: the target's identifier and
    /// the one property that changes, and nothing else.
    pub open spec fn spec_params(self) -> JsonModel {
        match self {
            Operation::SetChannelVolume { channel, volume } => partial_object(
                channel@,
                "level"@,
                level::level_number(volume@),
            ),
            Operation::SetChannelMute { channel, muted } => partial_object(
                channel@,
                "isMuted"@,
                JsonModel::Bool(muted),
            ),
            Operation::SetChannelMixVolume { channel, mix, volume } => partial_object(
                channel@,
                "mixes"@,
                JsonModel::Array(
                    seq![partial_object(mix@, "level"@, level::level_number(volume@))],
                ),
            ),
            Operation::SetChannelMixMute { channel, mix, muted } => partial_object(
                channel@,
                "mixes"@,
                JsonModel::Array(seq![partial_object(mix@, "isMuted"@, JsonModel::Bool(muted))]),
            ),
            Operation::SetMixVolume { mix, volume } => partial_object(
                mix@,
                "level"@,
                level::level_number(volume@),
            ),
            Operation::SetMixMute { mix, muted } => partial_object(
                mix@,
                "isMuted"@,
                JsonModel::Bool(muted),
            ),
        }
    }

    /// Returns the method and the parameters that carry this operation.
    pub fn request(&self) -> (r: (&'static str, Json))
        ensures
            r.0@ == self.spec_method(),
            r.1@ == self.spec_params(),
    {
        match self {
            Operation::SetChannelVolume { channel, volume } => (
                "setChannel",
                partial(channel.as_str(), "level", volume.to_json()),
            ),
            Operation::SetChannelMute { channel, muted } => (
                "setChannel",
                partial(channel.as_str(), "isMuted", Json::Bool(*muted)),
            ),
            Operation::SetChannelMixVolume { channel, mix, volume } => (
                "setChannel",
                partial(
                    channel.as_str(),
                    "mixes",
                    single(partial(mix.as_str(), "level", volume.to_json())),
                ),
            ),
            Operation::SetChannelMixMute { channel, mix, muted } => (
                "setChannel",
                partial(
                    channel.as_str(),
                    "mixes",
                    single(partial(mix.as_str(), "isMuted", Json::Bool(*muted))),
                ),
            ),
            Operation::SetMixVolume { mix, volume } => (
                "setMix",
                partial(mix.as_str(), "level", volume.to_json()),
            ),
            Operation::SetMixMute { mix, muted } => (
                "setMix",
                partial(mix.as_str(), "isMuted", Json::Bool(*muted)),
            ),
        }
    }
}

/// Builds an object with an identifier and one other member.
fn partial(id: &str, name: &str, value: Json) -> (r: Json)
    ensures
        r@ == partial_object(id@, name@, value@),
{
    let mut fields = Fields::new();
    fields.insert("id", Json::Text(id.to_owned()));
    fields.insert(name, value);
    Json::Object(fields)
}

/// Builds a list of one item.
fn single(item: Json) -> (r: Json)
    ensures
        r@ == JsonModel::Array(seq![item@]),
{
    let mut items: Vec<Json> = Vec::new();
    let ghost model = item@;
    items.push(item);
    let list = Json::Array(items);
    assert(list@->Array_0 =~= seq![model]);
    list
}

/// Payloads are partial: besides the identifier of its target an operation
/// names exactly one property.
pub proof fn law_payloads_are_partial(operation: Operation)
    ensures
        operation.spec_params() matches JsonModel::Object(members) && exists|name: Seq<char>|
            name != "id"@ && members.dom() == set!["id"@, name],
{
    reveal_strlit("id");
    reveal_strlit("level");
    reveal_strlit("isMuted");
    reveal_strlit("mixes");
    let members = operation.spec_params()->Object_0;
    let name = match operation {
        Operation::SetChannelVolume { .. } => "level"@,
        Operation::SetChannelMute { .. } => "isMuted"@,
        Operation::SetChannelMixVolume { .. } => "mixes"@,
        Operation::SetChannelMixMute { .. } => "mixes"@,
        Operation::SetMixVolume { .. } => "level"@,
        Operation::SetMixMute { .. } => "isMuted"@,
    };
    assert("id"@.len() != name.len());
    assert(members.dom() =~= set!["id"@, name]);
}

/// The method goes by the kind of the target alone: the two operations on an
/// output mix are sent as changes of a mix, all others as changes of a channel,
/// whatever the identifiers and the values are.
pub proof fn law_methods_go_by_the_target(operation: Operation, other: Operation)
    ensures
        operation.spec_method() == "setMix"@ <==> operation is SetMixVolume
            || operation is SetMixMute,
        operation.spec_method() == "setChannel"@ <==> operation is SetChannelVolume
            || operation is SetChannelMute || operation is SetChannelMixVolume
            || operation is SetChannelMixMute,
        operation.spec_method() == other.spec_method() <==> (operation is SetMixVolume
            || operation is SetMixMute) == (other is SetMixVolume || other is SetMixMute),
{
    reveal_strlit("setMix");
    reveal_strlit("setChannel");
    assert("setMix"@.len() != "setChannel"@.len());
}

/// A payload holds the identifier of the target and the new value of the property
/// that changes, under its name on the wire, and nothing else. A level is written
/// as the double of exactly its value. A change within a mix holds the channel,
/// and in a list of one the mix with its change.
pub proof fn law_payloads_are_exact(operation: Operation)
    requires
        match operation {
            Operation::SetChannelVolume { volume, .. } => float_bits::single_in_unit(volume@),
            Operation::SetChannelMixVolume { volume, .. } => float_bits::single_in_unit(volume@),
            Operation::SetMixVolume { volume, .. } => float_bits::single_in_unit(volume@),
            _ => true,
        },
    ensures
        operation.spec_params() matches JsonModel::Object(members) && match operation {
            Operation::SetChannelVolume { channel, volume } => {
                &&& members.dom() == set!["id"@, "level"@]
                &&& members["id"@] == JsonModel::Text(channel@)
                &&& members["level"@] matches JsonModel::Number(NumberKind::Double(double))
                    && float_bits::widens_to(volume@, double)
            },
            Operation::SetChannelMute { channel, muted } => {
                &&& members.dom() == set!["id"@, "isMuted"@]
                &&& members["id"@] == JsonModel::Text(channel@)
                &&& members["isMuted"@] == JsonModel::Bool(muted)
            },
            Operation::SetChannelMixVolume { channel, mix, volume } => {
                &&& members.dom() == set!["id"@, "mixes"@]
                &&& members["id"@] == JsonModel::Text(channel@)
                &&& members["mixes"@] matches JsonModel::Array(list) && list.len() == 1 && (
                list[0] matches JsonModel::Object(change) && {
                    &&& change.dom() == set!["id"@, "level"@]
                    &&& change["id"@] == JsonModel::Text(mix@)
                    &&& change["level"@] matches JsonModel::Number(NumberKind::Double(double))
                        && float_bits::widens_to(volume@, double)
                })
            },
            Operation::SetChannelMixMute { channel, mix, muted } => {
                &&& members.dom() == set!["id"@, "mixes"@]
                &&& members["id"@] == JsonModel::Text(channel@)
                &&& members["mixes"@] matches JsonModel::Array(list) && list.len() == 1 && (
                list[0] matches JsonModel::Object(change) && {
                    &&& change.dom() == set!["id"@, "isMuted"@]
                    &&& change["id"@] == JsonModel::Text(mix@)
                    &&& change["isMuted"@] == JsonModel::Bool(muted)
                })
            },
            Operation::SetMixVolume { mix, volume } => {
                &&& members.dom() == set!["id"@, "level"@]
                &&& members["id"@] == JsonModel::Text(mix@)
                &&& members["level"@] matches JsonModel::Number(NumberKind::Double(double))
                    && float_bits::widens_to(volume@, double)
            },
            Operation::SetMixMute { mix, muted } => {
                &&& members.dom() == set!["id"@, "isMuted"@]
                &&& members["id"@] == JsonModel::Text(mix@)
                &&& members["isMuted"@] == JsonModel::Bool(muted)
            },
        },
{
    reveal_strlit("id");
    reveal_strlit("level");
    reveal_strlit("isMuted");
    reveal_strlit("mixes");
    assert("id"@.len() == 2 && "level"@.len() == 5 && "isMuted"@.len() == 7 && "mixes"@.len() == 5);
    let members = operation.spec_params()->Object_0;
    match operation {
        Operation::SetChannelVolume { volume, .. } => {
            float_bits::lemma_widened_exists(volume@);
            assert(members.dom() =~= set!["id"@, "level"@]);
        },
        Operation::SetChannelMute { .. } => {
            assert(members.dom() =~= set!["id"@, "isMuted"@]);
        },
        Operation::SetChannelMixVolume { volume, .. } => {
            float_bits::lemma_widened_exists(volume@);
            assert(members.dom() =~= set!["id"@, "mixes"@]);
            assert(members["mixes"@]->Array_0[0]->Object_0.dom() =~= set!["id"@, "level"@]);
        },
        Operation::SetChannelMixMute { .. } => {
            assert(members.dom() =~= set!["id"@, "mixes"@]);
            assert(members["mixes"@]->Array_0[0]->Object_0.dom() =~= set!["id"@, "isMuted"@]);
        },
        Operation::SetMixVolume { volume, .. } => {
            float_bits::lemma_widened_exists(volume@);
            assert(members.dom() =~= set!["id"@, "level"@]);
        },
        Operation::SetMixMute { .. } => {
            assert(members.dom() =~= set!["id"@, "isMuted"@]);
        },
    }
}

/// What an operation writes reads back: its payload, read as an entity, is the
/// target with exactly the property that the operation sets.
pub proof fn law_writes_read_back(operation: Operation)
    requires
        match operation {
            Operation::SetChannelVolume { volume, .. } => float_bits::single_in_unit(volume@),
            Operation::SetChannelMixVolume { volume, .. } => float_bits::single_in_unit(volume@),
            Operation::SetMixVolume { volume, .. } => float_bits::single_in_unit(volume@),
            _ => true,
        },
    ensures
        snapshot::entity_of(operation.spec_params()) matches Some(entity) && match operation {
            Operation::SetChannelVolume { channel, volume } => entity.id == channel@
                && level::level_of(entity.state["level"@]) == Some(volume@),
            Operation::SetChannelMute { channel, muted } => entity.id == channel@
                && json::bool_of(entity.state["isMuted"@]) == Some(muted),
            Operation::SetChannelMixVolume { channel, mix, volume } => entity.id == channel@ && (
            snapshot::mixes_of(entity.state) matches Some(states) && states.len() == 1
                && states[0].id == mix@ && states[0].volume == Some(volume@) && states[0].muted
                == None::<bool>),
            Operation::SetChannelMixMute { channel, mix, muted } => entity.id == channel@ && (
            snapshot::mixes_of(entity.state) matches Some(states) && states.len() == 1
                && states[0].id == mix@ && states[0].muted == Some(muted) && states[0].volume
                == None::<u32>),
            Operation::SetMixVolume { mix, volume } => entity.id == mix@ && level::level_of(
                entity.state["level"@],
            ) == Some(volume@),
            Operation::SetMixMute { mix, muted } => entity.id == mix@ && json::bool_of(
                entity.state["isMuted"@],
            ) == Some(muted),
        },
{
    reveal_strlit("id");
    reveal_strlit("name");
    reveal_strlit("level");
    reveal_strlit("isMuted");
    reveal_strlit("mixes");
    assert("id"@ != "name"@ && "id"@ != "level"@ && "id"@ != "isMuted"@ && "id"@ != "mixes"@) by {
        assert("id"@.len() == 2);
    }
    assert("name"@ != "level"@ && "name"@ != "isMuted"@ && "name"@ != "mixes"@) by {
        assert("name"@.len() == 4);
    }
    assert("level"@ != "isMuted"@) by {
        assert("level"@.len() == 5);
    }
    match operation {
        Operation::SetChannelVolume { volume, .. } => {
            level::law_level_round_trip(volume@);
        },
        Operation::SetChannelMixVolume { mix, volume, .. } => {
            level::law_level_round_trip(volume@);
            let item = partial_object(mix@, "level"@, level::level_number(volume@));
            let list = seq![item];
            assert(list[0] == item);
            assert(snapshot::mix_state_of(item) is Some);
        },
        Operation::SetChannelMixMute { mix, muted, .. } => {
            let item = partial_object(mix@, "isMuted"@, JsonModel::Bool(muted));
            let list = seq![item];
            assert(list[0] == item);
            assert(snapshot::mix_state_of(item) is Some);
        },
        Operation::SetMixVolume { volume, .. } => {
            level::law_level_round_trip(volume@);
        },
        _ => {},
    }
}

/// What became of an operation of a batch.
#[derive(Clone, Copy, Debug, PartialEq, Eq, Structural)]
#[non_exhaustive]
pub enum OperationStatus {
    Succeeded,
    Failed,
    NotAttempted,
}

/// An operation of a batch with what became of it.
#[derive(Clone, Debug)]
pub struct OperationResult {
    pub operation: Operation,
    pub status: OperationStatus,
    pub error: Option<String>,
}

/// What became of a batch, in the order of its operations.
#[derive(Clone, Debug)]
pub struct BatchResult {
    pub operations: Vec<OperationResult>,
}

impl Default for BatchResult {
    fn default() -> (r: Self)
        ensures
            r.operations@.len() == 0,
    {
        BatchResult { operations: Vec::new() }
    }
}

impl BatchResult {
    /// Whether every operation succeeded.
    pub open spec fn spec_succeeded(self) -> bool {
        forall|i: int|
            0 <= i < self.operations@.len() ==> (#[trigger] self.operations@[i]).status
                == OperationStatus::Succeeded
    }

    /// Returns whether every operation succeeded.
    #[must_use]
    pub fn succeeded(&self) -> (r: bool)
        ensures
            r == self.spec_succeeded(),
    {
        for i in 0..self.operations.len()
            invariant
                forall|j: int|
                    0 <= j < i ==> (#[trigger] self.operations@[j]).status
                        == OperationStatus::Succeeded,
        {
            if self.operations[i].status != OperationStatus::Succeeded {
                return false;
            }
        }
        true
    }
}

/// What became of one attempted operation: nothing where it succeeded, else the
/// line that its error prints.
pub open spec fn attempt_of(outcome: Result<(), Error>) -> Option<Seq<char>> {
    match outcome {
        Ok(_) => None,
        Err(error) => Some(error::error_line(error@)),
    }
}

/// Whether an operation's result says what became of the attempt. `attempted`
/// holds the attempts of the batch in order.
pub open spec fn reports(
    result: OperationResult,
    operation: Operation,
    index: int,
    attempted: Seq<Option<Seq<char>>>,
) -> bool {
    &&& result.operation == operation
    &&& if index >= attempted.len() {
        result.status == OperationStatus::NotAttempted && result.error is None
    } else {
        match attempted[index] {
            None => result.status == OperationStatus::Succeeded && result.error is None,
            Some(line) => result.status == OperationStatus::Failed && (
            result.error matches Some(text) && text@ == line),
        }
    }
}

/// Whether the attempts are those of a batch that stops at its first failure.
pub open spec fn stops_at_failure(attempted: Seq<Option<Seq<char>>>) -> bool {
    forall|i: int| 0 <= i < attempted.len() - 1 ==> (#[trigger] attempted[i]) is None
}

/// An ordered batch that is being applied, one operation after the other. It
/// stops at the first failure.
#[derive(Debug)]
pub struct Batch {
    done: Vec<OperationResult>,
    rest: Vec<Operation>,
    failed: bool,
}

/// The operations of a list in reverse order.
pub open spec fn reversed(operations: Seq<Operation>) -> Seq<Operation> {
    Seq::new(operations.len(), |i: int| operations[operations.len() - 1 - i])
}

impl Batch {
    /// All operations of the batch, in order.
    pub closed spec fn operations(self) -> Seq<Operation> {
        Seq::new(self.done@.len(), |i: int| self.done@[i].operation) + reversed(self.rest@)
    }

    /// The attempts made so far, in order.
    pub closed spec fn attempted(self) -> Seq<Option<Seq<char>>> {
        Seq::new(
            self.done@.len(),
            |i: int|
                match self.done@[i].error {
                    Some(text) => Some(text@),
                    None => None,
                },
        )
    }

    #[verifier::type_invariant]
    spec fn well_formed(self) -> bool {
        &&& stops_at_failure(self.attempted())
        &&& self.failed == (self.attempted().len() > 0 && self.attempted().last() is Some)
        &&& forall|i: int|
            0 <= i < self.done@.len() ==> reports(
                #[trigger] self.done@[i],
                self.done@[i].operation,
                i,
                self.attempted(),
            )
    }

    /// Starts a batch.
    #[must_use]
    pub fn new(operations: Vec<Operation>) -> (r: Self)
        ensures
            r.operations() == operations@,
            r.attempted().len() == 0,
    {
        let ghost all = operations@;
        let mut rest: Vec<Operation> = Vec::new();
        let mut waiting = operations;
        while waiting.len() > 0
            invariant
                waiting@.len() <= all.len(),
                waiting@ == all.take(waiting@.len() as int),
                rest@ == reversed(all.skip(waiting@.len() as int)),
            decreases waiting@.len(),
        {
            let ghost n = waiting@.len() as int;
            match waiting.pop() {
                Some(operation) => {
                    rest.push(operation);
                    assert(rest@ =~= reversed(all.skip(n - 1)));
                    assert(waiting@ =~= all.take(n - 1));
                },
                None => {},
            }
        }
        assert(all.skip(0) =~= all);
        let batch = Batch { done: Vec::new(), rest, failed: false };
        assert(batch.operations() =~= all);
        batch
    }

    /// Returns the operation to attempt next. There is none once one failed or
    /// all were attempted.
    pub fn current(&self) -> (r: Option<&Operation>)
        ensures
            match r {
                Some(operation) => self.attempted().len() < self.operations().len() && *operation
                    == self.operations()[self.attempted().len() as int] && forall|i: int|
                    0 <= i < self.attempted().len() ==> (#[trigger] self.attempted()[i]) is None,
                None => self.attempted().len() == self.operations().len() || (
                self.attempted().len() > 0 && self.attempted().last() is Some),
            },
    {
        proof {
            use_type_invariant(self);
        }
        if self.failed || self.rest.len() == 0 {
            None
        } else {
            Some(&self.rest[self.rest.len() - 1])
        }
    }

    /// Records what became of the operation that was to be attempted next.
    /// Where there is none, nothing is recorded.
    #[must_use]
    pub fn record(self, outcome: Result<(), Error>) -> (r: Self)
        ensures
            r.operations() == self.operations(),
            r.attempted() == (if self.attempted().len() == self.operations().len() || (
            self.attempted().len() > 0 && self.attempted().last() is Some) {
                self.attempted()
            } else {
                self.attempted().push(attempt_of(outcome))
            }),
    {
        proof {
            use_type_invariant(&self);
        }
        let ghost before = self;
        if self.failed {
            return self;
        }
        let Batch { mut done, mut rest, failed: _ } = self;
        match rest.pop() {
            None => Batch { done, rest, failed: false },
            Some(operation) => {
                let (result, failed) = match outcome {
                    Ok(_) => (
                        OperationResult {
                            operation,
                            status: OperationStatus::Succeeded,
                            error: None,
                        },
                        false,
                    ),
                    Err(error) => (
                        OperationResult {
                            operation,
                            status: OperationStatus::Failed,
                            error: Some(error.to_string()),
                        },
                        true,
                    ),
                };
                done.push(result);
                let ghost attempts = before.attempted().push(attempt_of(outcome));
                proof {
                    let after = Batch { done, rest, failed };
                    assert(after.attempted() =~= attempts);
                    assert(after.operations() =~= before.operations());
                    assert forall|i: int| 0 <= i < done@.len() implies reports(
                        #[trigger] done@[i],
                        done@[i].operation,
                        i,
                        attempts,
                    ) by {
                        if i < before.done@.len() {
                            assert(reports(
                                before.done@[i],
                                before.done@[i].operation,
                                i,
                                before.attempted(),
                            ));
                        }
                    }
                }
                Batch { done, rest, failed }
            },
        }
    }

    /// Ends the batch. Operations that were not attempted are reported as such.
    #[must_use]
    pub fn finish(self) -> (r: BatchResult)
        ensures
            self.attempted().len() <= self.operations().len(),
            stops_at_failure(self.attempted()),
            r.operations@.len() == self.operations().len(),
            forall|i: int|
                0 <= i < r.operations@.len() ==> reports(
                    #[trigger] r.operations@[i],
                    self.operations()[i],
                    i,
                    self.attempted(),
                ),
    {
        proof {
            use_type_invariant(&self);
        }
        let ghost all = self.operations();
        let ghost attempts = self.attempted();
        let Batch { mut done, mut rest, failed: _ } = self;
        let ghost attempted = done@.len();
        let ghost waiting = rest@;
        while rest.len() > 0
            invariant
                attempted == attempts.len(),
                all.len() == attempted + waiting.len(),
                rest@.len() <= waiting.len(),
                rest@ == waiting.take(rest@.len() as int),
                done@.len() == all.len() - rest@.len(),
                forall|i: int|
                    0 <= i < waiting.len() ==> all[attempted + i] == #[trigger] reversed(
                        waiting,
                    )[i],
                forall|i: int|
                    0 <= i < done@.len() ==> reports(#[trigger] done@[i], all[i], i, attempts),
            decreases rest@.len(),
        {
            let ghost n = rest@.len() as int;
            match rest.pop() {
                Some(operation) => {
                    assert(reversed(waiting)[waiting.len() - n] == operation);
                    done.push(
                        OperationResult {
                            operation,
                            status: OperationStatus::NotAttempted,
                            error: None,
                        },
                    );
                    assert(rest@ =~= waiting.take(n - 1));
                },
                None => {},
            }
        }
        BatchResult { operations: done }
    }
}

/// A batch that ran to its end succeeded exactly when no attempt failed.
pub proof fn law_batch_succeeds_without_failures(
    result: BatchResult,
    operations: Seq<Operation>,
    attempted: Seq<Option<Seq<char>>>,
)
    requires
        attempted.len() <= operations.len(),
        stops_at_failure(attempted),
        attempted.len() == operations.len() || attempted.len() > 0 && attempted.last() is Some,
        result.operations@.len() == operations.len(),
        forall|i: int|
            0 <= i < operations.len() ==> reports(
                #[trigger] result.operations@[i],
                operations[i],
                i,
                attempted,
            ),
    ensures
        result.spec_succeeded() <==> forall|i: int|
            0 <= i < attempted.len() ==> (#[trigger] attempted[i]) is None,
{
    if attempted.len() > 0 && attempted.last() is Some {
        let last = attempted.len() - 1;
        assert(reports(result.operations@[last], operations[last], last, attempted));
        assert(attempted[last] is Some);
    } else {
        assert forall|i: int| 0 <= i < attempted.len() implies (#[trigger] attempted[i]) is None by {
        }
    }
}

/// After the operation that failed, every operation of the batch is reported as
/// not attempted, and every operation before it as succeeded.
pub proof fn law_batch_stops_at_first_failure(
    result: BatchResult,
    operations: Seq<Operation>,
    attempted: Seq<Option<Seq<char>>>,
    failed: int,
    other: int,
)
    requires
        attempted.len() <= operations.len(),
        stops_at_failure(attempted),
        result.operations@.len() == operations.len(),
        forall|i: int|
            0 <= i < operations.len() ==> reports(
                #[trigger] result.operations@[i],
                operations[i],
                i,
                attempted,
            ),
        0 <= failed < operations.len(),
        0 <= other < operations.len(),
        result.operations@[failed].status == OperationStatus::Failed,
    ensures
        other < failed ==> result.operations@[other].status == OperationStatus::Succeeded,
        other > failed ==> result.operations@[other].status == OperationStatus::NotAttempted,
{
    assert(reports(result.operations@[failed], operations[failed], failed, attempted));
    assert(reports(result.operations@[other], operations[other], other, attempted));
    assert(failed == attempted.len() - 1) by {
        assert(attempted[failed] is Some);
    }
    if other < failed {
        assert(attempted[other] is None);
    }
}

/// What became of an attempt is kept: nothing where it succeeded, and where it
/// failed the line of its error, which names the kind and then the context.
pub proof fn law_attempts_are_kept(outcome: Result<(), Error>)
    ensures
        attempt_of(outcome) is None <==> outcome is Ok,
        outcome matches Err(error) ==> attempt_of(outcome) == Some(
            error@.0.spec_label() + ": "@ + error@.1,
        ),
{
}

/// A result tells of its own operation what became of it: an attempt without a
/// failure succeeded, one with a failure failed with that failure's line, and an
/// operation behind the last attempt was not attempted.
pub proof fn law_results_tell_what_became_of_each(
    result: OperationResult,
    operation: Operation,
    index: int,
    attempted: Seq<Option<Seq<char>>>,
)
    requires
        0 <= index,
        reports(result, operation, index, attempted),
    ensures
        result.operation == operation,
        result.status == OperationStatus::NotAttempted <==> index >= attempted.len(),
        result.status == OperationStatus::Succeeded <==> index < attempted.len()
            && attempted[index] is None,
        result.status == OperationStatus::Failed <==> index < attempted.len() && attempted[index]
            is Some,
        result.error is Some <==> result.status == OperationStatus::Failed,
        result.error matches Some(text) ==> attempted[index] == Some(text@),
{
}

/// A batch stops at its first failure: where one attempt failed, none follows.
pub proof fn law_nothing_is_attempted_after_a_failure(
    attempted: Seq<Option<Seq<char>>>,
    failed: int,
)
    requires
        stops_at_failure(attempted),
        0 <= failed < attempted.len(),
        attempted[failed] is Some,
    ensures
        attempted.len() == failed + 1,
{
}

/// A batch succeeded exactly when none of its operations did anything else; one
/// operation that failed or was not attempted is enough against it.
pub proof fn law_one_operation_fails_the_batch(result: BatchResult, index: int)
    ensures
        result.operations@.len() == 0 ==> result.spec_succeeded(),
        0 <= index < result.operations@.len() && result.operations@[index].status
            != OperationStatus::Succeeded ==> !result.spec_succeeded(),
        !result.spec_succeeded() ==> exists|i: int|
            0 <= i < result.operations@.len() && (#[trigger] result.operations@[i]).status
                != OperationStatus::Succeeded,
{
}

} // verus!
