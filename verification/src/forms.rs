//! The JSON forms of capabilities, states, operations, results and errors.
//!
//! A variant without parts is its name; a variant with parts is an object whose
//! one member has the variant's name and holds the parts.

use vstd::prelude::*;

use crate::capability::{Capabilities, ReadCapability, WriteCapability};
use crate::error::{Error, ErrorKind};
use crate::json;
use crate::json::{Fields, Json, JsonModel};
use crate::level;
use crate::mutation::{BatchResult, Operation, OperationResult, OperationStatus};
use crate::snapshot;
use crate::text::same_text;
use crate::value::MuteState;
use crate::wire;
use crate::wire::{decode_list, encode_list, Decode, Encode};

verus! {

/// The name of the variant that a JSON value is: a text, or an object with one
/// member that is null.
pub open spec fn variant_of(value: JsonModel) -> Option<Seq<char>> {
    match value {
        JsonModel::Text(name) => Some(name),
        JsonModel::Object(members) => if exists|name: Seq<char>| is_variant(members, name) {
            Some(choose|name: Seq<char>| is_variant(members, name))
        } else {
            None
        },
        _ => None,
    }
}

/// Whether the members are one of this name that is null.
pub open spec fn is_variant(members: Map<Seq<char>, JsonModel>, name: Seq<char>) -> bool {
    members == Map::<Seq<char>, JsonModel>::empty().insert(name, JsonModel::Null)
}

/// Reads the name of a variant.
fn variant_name(value: &Json) -> (r: Option<String>)
    ensures
        match r {
            Some(name) => variant_of(value@) == Some(name@),
            None => variant_of(value@) is None,
        },
{
    match value {
        Json::Text(name) => Some(name.clone()),
        Json::Object(fields) => {
            let ghost members = fields@;
            let count: usize = fields.len();
            if count != 1 {
                proof {
                    assert forall|name: Seq<char>| !is_variant(members, name) by {
                        if is_variant(members, name) {
                            assert(members.dom() =~= Set::<Seq<char>>::empty().insert(name));
                        }
                    }
                }
                return None;
            }
            let mut names: Vec<String> = fields.names();
            let ghost all = names@;
            let ghost only = members.dom().choose();
            proof {
                assert(members.dom().contains(only));
                assert(json::lists_name(all, only));
                assert(members.dom().remove(only).len() == 0);
                assert(members.dom().remove(only) =~= Set::<Seq<char>>::empty());
            }
            match names.pop() {
                None => None,
                Some(name) => {
                    proof {
                        assert(all[all.len() - 1] == name);
                        assert(json::lists_name(all, name@));
                        assert(members.contains_key(name@));
                        assert(!members.dom().remove(only).contains(name@));
                        assert(name@ == only);
                    }
                    match fields.get(name.as_str()) {
                        Some(Json::Null) => {
                            proof {
                                assert(members =~= Map::<Seq<char>, JsonModel>::empty().insert(
                                    name@,
                                    JsonModel::Null,
                                ));
                                assert(is_variant(members, name@));
                                let chosen = choose|other: Seq<char>| is_variant(members, other);
                                assert(members.contains_key(chosen));
                                assert(!members.dom().remove(only).contains(chosen));
                            }
                            Some(name)
                        },
                        _ => {
                            proof {
                                assert forall|other: Seq<char>| !is_variant(members, other) by {
                                    if is_variant(members, other) {
                                        assert(members.contains_key(other));
                                        assert(!members.dom().remove(only).contains(other));
                                        assert(members[other] == JsonModel::Null);
                                    }
                                }
                            }
                            None
                        },
                    }
                },
            }
        },
        _ => None,
    }
}

impl View for ReadCapability {
    type V = ReadCapability;

    open spec fn view(&self) -> ReadCapability {
        *self
    }
}

/// The name of a read capability.
pub open spec fn read_name(value: ReadCapability) -> Seq<char> {
    match value {
        ReadCapability::Application => "Application"@,
        ReadCapability::Channels => "Channels"@,
        ReadCapability::Mixes => "Mixes"@,
        ReadCapability::InputDevices => "InputDevices"@,
        ReadCapability::OutputDevices => "OutputDevices"@,
        ReadCapability::Notifications => "Notifications"@,
    }
}

/// The one that has this name, if there is one.
pub open spec fn read_named(name: Seq<char>) -> Option<ReadCapability> {
    if name == "Application"@ {
        Some(ReadCapability::Application)
    } else if name == "Channels"@ {
        Some(ReadCapability::Channels)
    } else if name == "Mixes"@ {
        Some(ReadCapability::Mixes)
    } else if name == "InputDevices"@ {
        Some(ReadCapability::InputDevices)
    } else if name == "OutputDevices"@ {
        Some(ReadCapability::OutputDevices)
    } else if name == "Notifications"@ {
        Some(ReadCapability::Notifications)
    } else {
        None
    }
}

impl Decode for ReadCapability {
    open spec fn decoded(value: JsonModel) -> Option<ReadCapability> {
        match variant_of(value) {
            Some(name) => read_named(name),
            None => None,
        }
    }

    fn decode(value: &Json) -> (r: Option<Self>) {
        match variant_name(value) {
            None => None,
            Some(name) => if same_text(name.as_str(), "Application") {
                Some(ReadCapability::Application)
            } else if same_text(name.as_str(), "Channels") {
                Some(ReadCapability::Channels)
            } else if same_text(name.as_str(), "Mixes") {
                Some(ReadCapability::Mixes)
            } else if same_text(name.as_str(), "InputDevices") {
                Some(ReadCapability::InputDevices)
            } else if same_text(name.as_str(), "OutputDevices") {
                Some(ReadCapability::OutputDevices)
            } else if same_text(name.as_str(), "Notifications") {
                Some(ReadCapability::Notifications)
            } else {
                None
            },
        }
    }
}

impl Encode for ReadCapability {
    open spec fn encoded(model: ReadCapability) -> JsonModel {
        JsonModel::Text(read_name(model))
    }

    fn to_json(&self) -> (r: Json) {
        let name: &'static str = match self {
            ReadCapability::Application => "Application",
            ReadCapability::Channels => "Channels",
            ReadCapability::Mixes => "Mixes",
            ReadCapability::InputDevices => "InputDevices",
            ReadCapability::OutputDevices => "OutputDevices",
            ReadCapability::Notifications => "Notifications",
        };
        Json::Text(name.to_owned())
    }
}

/// The name of a read capability reads back as it.
pub proof fn law_read_names_round_trip(value: ReadCapability)
    ensures
        ReadCapability::decoded(ReadCapability::encoded(value)) == Some(value),
{
    reveal_strlit("Application");
    reveal_strlit("Channels");
    reveal_strlit("Mixes");
    reveal_strlit("InputDevices");
    reveal_strlit("OutputDevices");
    reveal_strlit("Notifications");
    assert("Application"@.len() == 11 && "Application"@[0] == 'A'
        && "Channels"@.len() == 8 && "Channels"@[0] == 'C'
        && "Mixes"@.len() == 5 && "Mixes"@[0] == 'M'
        && "InputDevices"@.len() == 12 && "InputDevices"@[0] == 'I'
        && "OutputDevices"@.len() == 13 && "OutputDevices"@[0] == 'O'
        && "Notifications"@.len() == 13 && "Notifications"@[0] == 'N');
}

impl View for WriteCapability {
    type V = WriteCapability;

    open spec fn view(&self) -> WriteCapability {
        *self
    }
}

/// The name of a write capability.
pub open spec fn write_name(value: WriteCapability) -> Seq<char> {
    match value {
        WriteCapability::Volume => "Volume"@,
        WriteCapability::Mute => "Mute"@,
        WriteCapability::PerMixState => "PerMixState"@,
        WriteCapability::Routing => "Routing"@,
    }
}

/// The one that has this name, if there is one.
pub open spec fn write_named(name: Seq<char>) -> Option<WriteCapability> {
    if name == "Volume"@ {
        Some(WriteCapability::Volume)
    } else if name == "Mute"@ {
        Some(WriteCapability::Mute)
    } else if name == "PerMixState"@ {
        Some(WriteCapability::PerMixState)
    } else if name == "Routing"@ {
        Some(WriteCapability::Routing)
    } else {
        None
    }
}

impl Decode for WriteCapability {
    open spec fn decoded(value: JsonModel) -> Option<WriteCapability> {
        match variant_of(value) {
            Some(name) => write_named(name),
            None => None,
        }
    }

    fn decode(value: &Json) -> (r: Option<Self>) {
        match variant_name(value) {
            None => None,
            Some(name) => if same_text(name.as_str(), "Volume") {
                Some(WriteCapability::Volume)
            } else if same_text(name.as_str(), "Mute") {
                Some(WriteCapability::Mute)
            } else if same_text(name.as_str(), "PerMixState") {
                Some(WriteCapability::PerMixState)
            } else if same_text(name.as_str(), "Routing") {
                Some(WriteCapability::Routing)
            } else {
                None
            },
        }
    }
}

impl Encode for WriteCapability {
    open spec fn encoded(model: WriteCapability) -> JsonModel {
        JsonModel::Text(write_name(model))
    }

    fn to_json(&self) -> (r: Json) {
        let name: &'static str = match self {
            WriteCapability::Volume => "Volume",
            WriteCapability::Mute => "Mute",
            WriteCapability::PerMixState => "PerMixState",
            WriteCapability::Routing => "Routing",
        };
        Json::Text(name.to_owned())
    }
}

/// The name of a write capability reads back as it.
pub proof fn law_write_names_round_trip(value: WriteCapability)
    ensures
        WriteCapability::decoded(WriteCapability::encoded(value)) == Some(value),
{
    reveal_strlit("Volume");
    reveal_strlit("Mute");
    reveal_strlit("PerMixState");
    reveal_strlit("Routing");
    assert("Volume"@.len() == 6 && "Volume"@[0] == 'V'
        && "Mute"@.len() == 4 && "Mute"@[0] == 'M'
        && "PerMixState"@.len() == 11 && "PerMixState"@[0] == 'P'
        && "Routing"@.len() == 7 && "Routing"@[0] == 'R');
}

impl View for MuteState {
    type V = MuteState;

    open spec fn view(&self) -> MuteState {
        *self
    }
}

/// The name of a mute state.
pub open spec fn mute_state_name(value: MuteState) -> Seq<char> {
    match value {
        MuteState::Unmuted => "Unmuted"@,
        MuteState::Muted => "Muted"@,
    }
}

/// The one that has this name, if there is one.
pub open spec fn mute_state_named(name: Seq<char>) -> Option<MuteState> {
    if name == "Unmuted"@ {
        Some(MuteState::Unmuted)
    } else if name == "Muted"@ {
        Some(MuteState::Muted)
    } else {
        None
    }
}

impl Decode for MuteState {
    open spec fn decoded(value: JsonModel) -> Option<MuteState> {
        match variant_of(value) {
            Some(name) => mute_state_named(name),
            None => None,
        }
    }

    fn decode(value: &Json) -> (r: Option<Self>) {
        match variant_name(value) {
            None => None,
            Some(name) => if same_text(name.as_str(), "Unmuted") {
                Some(MuteState::Unmuted)
            } else if same_text(name.as_str(), "Muted") {
                Some(MuteState::Muted)
            } else {
                None
            },
        }
    }
}

impl Encode for MuteState {
    open spec fn encoded(model: MuteState) -> JsonModel {
        JsonModel::Text(mute_state_name(model))
    }

    fn to_json(&self) -> (r: Json) {
        let name: &'static str = match self {
            MuteState::Unmuted => "Unmuted",
            MuteState::Muted => "Muted",
        };
        Json::Text(name.to_owned())
    }
}

/// The name of a mute state reads back as it.
pub proof fn law_mute_state_names_round_trip(value: MuteState)
    ensures
        MuteState::decoded(MuteState::encoded(value)) == Some(value),
{
    reveal_strlit("Unmuted");
    reveal_strlit("Muted");
    assert("Unmuted"@.len() == 7 && "Unmuted"@[0] == 'U'
        && "Muted"@.len() == 5 && "Muted"@[0] == 'M');
}

impl View for OperationStatus {
    type V = OperationStatus;

    open spec fn view(&self) -> OperationStatus {
        *self
    }
}

/// The name of an operation status.
pub open spec fn status_name(value: OperationStatus) -> Seq<char> {
    match value {
        OperationStatus::Succeeded => "Succeeded"@,
        OperationStatus::Failed => "Failed"@,
        OperationStatus::NotAttempted => "NotAttempted"@,
    }
}

/// The one that has this name, if there is one.
pub open spec fn status_named(name: Seq<char>) -> Option<OperationStatus> {
    if name == "Succeeded"@ {
        Some(OperationStatus::Succeeded)
    } else if name == "Failed"@ {
        Some(OperationStatus::Failed)
    } else if name == "NotAttempted"@ {
        Some(OperationStatus::NotAttempted)
    } else {
        None
    }
}

impl Decode for OperationStatus {
    open spec fn decoded(value: JsonModel) -> Option<OperationStatus> {
        match variant_of(value) {
            Some(name) => status_named(name),
            None => None,
        }
    }

    fn decode(value: &Json) -> (r: Option<Self>) {
        match variant_name(value) {
            None => None,
            Some(name) => if same_text(name.as_str(), "Succeeded") {
                Some(OperationStatus::Succeeded)
            } else if same_text(name.as_str(), "Failed") {
                Some(OperationStatus::Failed)
            } else if same_text(name.as_str(), "NotAttempted") {
                Some(OperationStatus::NotAttempted)
            } else {
                None
            },
        }
    }
}

impl Encode for OperationStatus {
    open spec fn encoded(model: OperationStatus) -> JsonModel {
        JsonModel::Text(status_name(model))
    }

    fn to_json(&self) -> (r: Json) {
        let name: &'static str = match self {
            OperationStatus::Succeeded => "Succeeded",
            OperationStatus::Failed => "Failed",
            OperationStatus::NotAttempted => "NotAttempted",
        };
        Json::Text(name.to_owned())
    }
}

/// The name of an operation status reads back as it.
pub proof fn law_status_names_round_trip(value: OperationStatus)
    ensures
        OperationStatus::decoded(OperationStatus::encoded(value)) == Some(value),
{
    reveal_strlit("Succeeded");
    reveal_strlit("Failed");
    reveal_strlit("NotAttempted");
    assert("Succeeded"@.len() == 9 && "Succeeded"@[0] == 'S'
        && "Failed"@.len() == 6 && "Failed"@[0] == 'F'
        && "NotAttempted"@.len() == 12 && "NotAttempted"@[0] == 'N');
}

impl View for ErrorKind {
    type V = ErrorKind;

    open spec fn view(&self) -> ErrorKind {
        *self
    }
}

/// The name of an error kind.
pub open spec fn kind_name(value: ErrorKind) -> Seq<char> {
    match value {
        ErrorKind::InvalidValue => "InvalidValue"@,
        ErrorKind::UnsupportedRevision => "UnsupportedRevision"@,
        ErrorKind::CapabilityUnavailable => "CapabilityUnavailable"@,
        ErrorKind::AmbiguousName => "AmbiguousName"@,
        ErrorKind::Protocol => "Protocol"@,
        ErrorKind::Transport => "Transport"@,
        ErrorKind::Discovery => "Discovery"@,
        ErrorKind::Timeout => "Timeout"@,
        ErrorKind::Shutdown => "Shutdown"@,
    }
}

/// The one that has this name, if there is one.
pub open spec fn kind_named(name: Seq<char>) -> Option<ErrorKind> {
    if name == "InvalidValue"@ {
        Some(ErrorKind::InvalidValue)
    } else if name == "UnsupportedRevision"@ {
        Some(ErrorKind::UnsupportedRevision)
    } else if name == "CapabilityUnavailable"@ {
        Some(ErrorKind::CapabilityUnavailable)
    } else if name == "AmbiguousName"@ {
        Some(ErrorKind::AmbiguousName)
    } else if name == "Protocol"@ {
        Some(ErrorKind::Protocol)
    } else if name == "Transport"@ {
        Some(ErrorKind::Transport)
    } else if name == "Discovery"@ {
        Some(ErrorKind::Discovery)
    } else if name == "Timeout"@ {
        Some(ErrorKind::Timeout)
    } else if name == "Shutdown"@ {
        Some(ErrorKind::Shutdown)
    } else {
        None
    }
}

impl Decode for ErrorKind {
    open spec fn decoded(value: JsonModel) -> Option<ErrorKind> {
        match variant_of(value) {
            Some(name) => kind_named(name),
            None => None,
        }
    }

    fn decode(value: &Json) -> (r: Option<Self>) {
        match variant_name(value) {
            None => None,
            Some(name) => if same_text(name.as_str(), "InvalidValue") {
                Some(ErrorKind::InvalidValue)
            } else if same_text(name.as_str(), "UnsupportedRevision") {
                Some(ErrorKind::UnsupportedRevision)
            } else if same_text(name.as_str(), "CapabilityUnavailable") {
                Some(ErrorKind::CapabilityUnavailable)
            } else if same_text(name.as_str(), "AmbiguousName") {
                Some(ErrorKind::AmbiguousName)
            } else if same_text(name.as_str(), "Protocol") {
                Some(ErrorKind::Protocol)
            } else if same_text(name.as_str(), "Transport") {
                Some(ErrorKind::Transport)
            } else if same_text(name.as_str(), "Discovery") {
                Some(ErrorKind::Discovery)
            } else if same_text(name.as_str(), "Timeout") {
                Some(ErrorKind::Timeout)
            } else if same_text(name.as_str(), "Shutdown") {
                Some(ErrorKind::Shutdown)
            } else {
                None
            },
        }
    }
}

impl Encode for ErrorKind {
    open spec fn encoded(model: ErrorKind) -> JsonModel {
        JsonModel::Text(kind_name(model))
    }

    fn to_json(&self) -> (r: Json) {
        let name: &'static str = match self {
            ErrorKind::InvalidValue => "InvalidValue",
            ErrorKind::UnsupportedRevision => "UnsupportedRevision",
            ErrorKind::CapabilityUnavailable => "CapabilityUnavailable",
            ErrorKind::AmbiguousName => "AmbiguousName",
            ErrorKind::Protocol => "Protocol",
            ErrorKind::Transport => "Transport",
            ErrorKind::Discovery => "Discovery",
            ErrorKind::Timeout => "Timeout",
            ErrorKind::Shutdown => "Shutdown",
        };
        Json::Text(name.to_owned())
    }
}

/// The name of an error kind reads back as it.
pub proof fn law_kind_names_round_trip(value: ErrorKind)
    ensures
        ErrorKind::decoded(ErrorKind::encoded(value)) == Some(value),
{
    reveal_strlit("InvalidValue");
    reveal_strlit("UnsupportedRevision");
    reveal_strlit("CapabilityUnavailable");
    reveal_strlit("AmbiguousName");
    reveal_strlit("Protocol");
    reveal_strlit("Transport");
    reveal_strlit("Discovery");
    reveal_strlit("Timeout");
    reveal_strlit("Shutdown");
    assert("InvalidValue"@.len() == 12 && "InvalidValue"@[0] == 'I'
        && "UnsupportedRevision"@.len() == 19 && "UnsupportedRevision"@[0] == 'U'
        && "CapabilityUnavailable"@.len() == 21 && "CapabilityUnavailable"@[0] == 'C'
        && "AmbiguousName"@.len() == 13 && "AmbiguousName"@[0] == 'A'
        && "Protocol"@.len() == 8 && "Protocol"@[0] == 'P'
        && "Transport"@.len() == 9 && "Transport"@[0] == 'T'
        && "Discovery"@.len() == 9 && "Discovery"@[0] == 'D'
        && "Timeout"@.len() == 7 && "Timeout"@[0] == 'T'
        && "Shutdown"@.len() == 8 && "Shutdown"@[0] == 'S');
}

impl View for Operation {
    type V = Operation;

    open spec fn view(&self) -> Operation {
        *self
    }
}

/// An object without members.
pub open spec fn no_members() -> Map<Seq<char>, JsonModel> {
    Map::empty()
}

/// A variant with parts.
pub open spec fn tagged(name: Seq<char>, parts: Map<Seq<char>, JsonModel>) -> JsonModel {
    JsonModel::Object(no_members().insert(name, JsonModel::Object(parts)))
}

/// Writes a variant with parts.
fn write_tagged(name: &str, parts: Fields) -> (r: Json)
    ensures
        r@ == tagged(name@, parts@),
{
    let mut fields = Fields::new();
    fields.insert(name, Json::Object(parts));
    Json::Object(fields)
}

/// What an operation is as a JSON value.
pub open spec fn operation_json(operation: Operation) -> JsonModel {
    match operation {
        Operation::SetChannelVolume { channel, volume } => tagged(
            "SetChannelVolume"@,
            no_members().insert(
                "channel"@,
                JsonModel::Text(channel@),
            ).insert(
                "volume"@,
                level::level_number(volume@),
            ),
        ),
        Operation::SetChannelMute { channel, muted } => tagged(
            "SetChannelMute"@,
            no_members().insert(
                "channel"@,
                JsonModel::Text(channel@),
            ).insert(
                "muted"@,
                JsonModel::Bool(muted),
            ),
        ),
        Operation::SetChannelMixVolume { channel, mix, volume } => tagged(
            "SetChannelMixVolume"@,
            no_members().insert(
                "channel"@,
                JsonModel::Text(channel@),
            ).insert(
                "mix"@,
                JsonModel::Text(mix@),
            ).insert(
                "volume"@,
                level::level_number(volume@),
            ),
        ),
        Operation::SetChannelMixMute { channel, mix, muted } => tagged(
            "SetChannelMixMute"@,
            no_members().insert(
                "channel"@,
                JsonModel::Text(channel@),
            ).insert(
                "mix"@,
                JsonModel::Text(mix@),
            ).insert(
                "muted"@,
                JsonModel::Bool(muted),
            ),
        ),
        Operation::SetMixVolume { mix, volume } => tagged(
            "SetMixVolume"@,
            no_members().insert(
                "mix"@,
                JsonModel::Text(mix@),
            ).insert(
                "volume"@,
                level::level_number(volume@),
            ),
        ),
        Operation::SetMixMute { mix, muted } => tagged(
            "SetMixMute"@,
            no_members().insert(
                "mix"@,
                JsonModel::Text(mix@),
            ).insert(
                "muted"@,
                JsonModel::Bool(muted),
            ),
        ),
    }
}

impl Encode for Operation {
    open spec fn encoded(model: Operation) -> JsonModel {
        operation_json(model)
    }

    fn to_json(&self) -> (r: Json) {
        let mut parts = Fields::new();
        match self {
            Operation::SetChannelVolume { channel, volume } => {
                parts.insert("channel", Json::Text(channel.as_str().to_owned()));
                parts.insert("volume", level::write_level(volume.get()));
                write_tagged("SetChannelVolume", parts)
            },
            Operation::SetChannelMute { channel, muted } => {
                parts.insert("channel", Json::Text(channel.as_str().to_owned()));
                parts.insert("muted", Json::Bool(*muted));
                write_tagged("SetChannelMute", parts)
            },
            Operation::SetChannelMixVolume { channel, mix, volume } => {
                parts.insert("channel", Json::Text(channel.as_str().to_owned()));
                parts.insert("mix", Json::Text(mix.as_str().to_owned()));
                parts.insert("volume", level::write_level(volume.get()));
                write_tagged("SetChannelMixVolume", parts)
            },
            Operation::SetChannelMixMute { channel, mix, muted } => {
                parts.insert("channel", Json::Text(channel.as_str().to_owned()));
                parts.insert("mix", Json::Text(mix.as_str().to_owned()));
                parts.insert("muted", Json::Bool(*muted));
                write_tagged("SetChannelMixMute", parts)
            },
            Operation::SetMixVolume { mix, volume } => {
                parts.insert("mix", Json::Text(mix.as_str().to_owned()));
                parts.insert("volume", level::write_level(volume.get()));
                write_tagged("SetMixVolume", parts)
            },
            Operation::SetMixMute { mix, muted } => {
                parts.insert("mix", Json::Text(mix.as_str().to_owned()));
                parts.insert("muted", Json::Bool(*muted));
                write_tagged("SetMixMute", parts)
            },
        }
    }
}

impl View for OperationResult {
    type V = OperationResult;

    open spec fn view(&self) -> OperationResult {
        *self
    }
}

/// What an operation's result is as a JSON value.
pub open spec fn operation_result_json(result: OperationResult) -> JsonModel {
    JsonModel::Object(
        no_members().insert("operation"@, operation_json(result.operation)).insert(
            "status"@,
            JsonModel::Text(status_name(result.status)),
        ).insert("error"@, snapshot::text_or_null(snapshot::optional_view(result.error))),
    )
}

impl Encode for OperationResult {
    open spec fn encoded(model: OperationResult) -> JsonModel {
        operation_result_json(model)
    }

    fn to_json(&self) -> (r: Json) {
        let error: Json = match &self.error {
            Some(text) => Json::Text(text.clone()),
            None => Json::Null,
        };
        let mut fields = Fields::new();
        fields.insert("operation", self.operation.to_json());
        fields.insert("status", self.status.to_json());
        fields.insert("error", error);
        Json::Object(fields)
    }
}

impl View for BatchResult {
    type V = Seq<OperationResult>;

    open spec fn view(&self) -> Seq<OperationResult> {
        self.operations@
    }
}

impl Encode for BatchResult {
    open spec fn encoded(model: Seq<OperationResult>) -> JsonModel {
        JsonModel::Object(
            no_members().insert("operations"@, wire::encoded_list::<OperationResult>(model)),
        )
    }

    fn to_json(&self) -> (r: Json) {
        let mut fields = Fields::new();
        assert(wire::views(self.operations@) =~= self.operations@);
        fields.insert("operations", encode_list(&self.operations));
        Json::Object(fields)
    }
}

/// The two parts of a JSON value: the members of an object with these names, or
/// a list of exactly two.
pub open spec fn two_parts(value: JsonModel, first: Seq<char>, second: Seq<char>) -> Option<
    (JsonModel, JsonModel),
> {
    match value {
        JsonModel::Object(members) => if members.contains_key(first) && members.contains_key(
            second,
        ) {
            Some((members[first], members[second]))
        } else {
            None
        },
        JsonModel::Array(items) => if items.len() == 2 {
            Some((items[0], items[1]))
        } else {
            None
        },
        _ => None,
    }
}

/// Finds the two parts of a JSON value.
fn find_parts<'a>(value: &'a Json, first: &str, second: &str) -> (r: Option<(&'a Json, &'a Json)>)
    ensures
        match r {
            Some((a, b)) => two_parts(value@, first@, second@) == Some((a@, b@)),
            None => two_parts(value@, first@, second@) is None,
        },
{
    match value {
        Json::Object(fields) => match (fields.get(first), fields.get(second)) {
            (Some(a), Some(b)) => Some((a, b)),
            _ => None,
        },
        Json::Array(items) => {
            if items.len() != 2 {
                return None;
            }
            assert(value@->Array_0[0] == items@[0]@ && value@->Array_0[1] == items@[1]@);
            Some((&items[0], &items[1]))
        },
        _ => None,
    }
}

impl Decode for Error {
    open spec fn decoded(value: JsonModel) -> Option<(ErrorKind, Seq<char>)> {
        match two_parts(value, "kind"@, "context"@) {
            Some((kind, context)) => match (ErrorKind::decoded(kind), wire::text_of(context)) {
                (Some(kind), Some(text)) => Some((kind, text)),
                _ => None,
            },
            None => None,
        }
    }

    fn decode(value: &Json) -> (r: Option<Self>) {
        match find_parts(value, "kind", "context") {
            Some((kind, context)) => match (ErrorKind::decode(kind), context) {
                (Some(kind), Json::Text(text)) => Some(Error::new(kind, text.as_str())),
                _ => None,
            },
            None => None,
        }
    }
}

impl Encode for Error {
    open spec fn encoded(model: (ErrorKind, Seq<char>)) -> JsonModel {
        JsonModel::Object(
            no_members().insert("kind"@, JsonModel::Text(kind_name(model.0))).insert(
                "context"@,
                JsonModel::Text(model.1),
            ),
        )
    }

    fn to_json(&self) -> (r: Json) {
        let mut fields = Fields::new();
        fields.insert("kind", self.kind().to_json());
        fields.insert("context", Json::Text(self.context().to_owned()));
        Json::Object(fields)
    }
}

/// An error that was written reads back.
pub proof fn law_errors_round_trip(error: (ErrorKind, Seq<char>))
    ensures
        Error::decoded(Error::encoded(error)) == Some(error),
{
    reveal_strlit("kind");
    reveal_strlit("context");
    assert("kind"@.len() != "context"@.len());
    law_kind_names_round_trip(error.0);
}

/// What capabilities are.
#[verifier::ext_equal]
pub struct CapabilitiesModel {
    pub reads: Set<ReadCapability>,
    pub writes: Set<WriteCapability>,
}

impl View for Capabilities {
    type V = CapabilitiesModel;

    open spec fn view(&self) -> CapabilitiesModel {
        CapabilitiesModel { reads: self.reads(), writes: self.writes() }
    }
}

/// The items of a list that are in a set, in the order of the list.
pub open spec fn kept<T>(all: Seq<T>, set: Set<T>) -> Seq<T>
    decreases all.len(),
{
    if all.len() == 0 {
        Seq::empty()
    } else if set.contains(all.last()) {
        kept(all.drop_last(), set).push(all.last())
    } else {
        kept(all.drop_last(), set)
    }
}

/// What is kept of a list is what is in the list and in the set.
proof fn lemma_kept<T>(all: Seq<T>, set: Set<T>, item: T)
    ensures
        kept(all, set).contains(item) <==> all.contains(item) && set.contains(item),
    decreases all.len(),
{
    if all.len() > 0 {
        let rest = all.drop_last();
        lemma_kept(rest, set, item);
        assert(all =~= rest.push(all.last()));
        assert(all.contains(item) <==> rest.contains(item) || item == all.last()) by {
            lemma_pushed(rest, all.last(), item);
        }
        lemma_pushed(kept(rest, set), all.last(), item);
    }
}

/// A list that grew by one item holds it and what it held before.
proof fn lemma_pushed<T>(list: Seq<T>, last: T, item: T)
    ensures
        list.push(last).contains(item) <==> list.contains(item) || item == last,
{
    let longer = list.push(last);
    assert(longer[list.len() as int] == last);
    if list.contains(item) {
        let i = choose|i: int| 0 <= i < list.len() && list[i] == item;
        assert(longer[i] == item);
    }
}

/// Everything that can be read, in order.
pub open spec fn all_reads() -> Seq<ReadCapability> {
    seq![
        ReadCapability::Application,
        ReadCapability::Channels,
        ReadCapability::Mixes,
        ReadCapability::InputDevices,
        ReadCapability::OutputDevices,
        ReadCapability::Notifications,
    ]
}

/// Everything that can be changed, in order.
pub open spec fn all_writes() -> Seq<WriteCapability> {
    seq![
        WriteCapability::Volume,
        WriteCapability::Mute,
        WriteCapability::PerMixState,
        WriteCapability::Routing,
    ]
}

impl Decode for Capabilities {
    open spec fn decoded(value: JsonModel) -> Option<CapabilitiesModel> {
        match two_parts(value, "reads"@, "writes"@) {
            Some((reads, writes)) => match (
                wire::decoded_list::<ReadCapability>(reads),
                wire::decoded_list::<WriteCapability>(writes),
            ) {
                (Some(reads), Some(writes)) => Some(
                    CapabilitiesModel { reads: reads.to_set(), writes: writes.to_set() },
                ),
                _ => None,
            },
            None => None,
        }
    }

    fn decode(value: &Json) -> (r: Option<Self>) {
        match find_parts(value, "reads", "writes") {
            Some((reads, writes)) => match (
                decode_list::<ReadCapability>(reads),
                decode_list::<WriteCapability>(writes),
            ) {
                (Some(reads), Some(writes)) => {
                    assert(wire::views(reads@) =~= reads@);
                    assert(wire::views(writes@) =~= writes@);
                    Some(Capabilities::new(reads, writes))
                },
                _ => None,
            },
            None => None,
        }
    }
}

impl Encode for Capabilities {
    open spec fn encoded(model: CapabilitiesModel) -> JsonModel {
        JsonModel::Object(
            no_members().insert(
                "reads"@,
                wire::encoded_list::<ReadCapability>(kept(all_reads(), model.reads)),
            ).insert(
                "writes"@,
                wire::encoded_list::<WriteCapability>(kept(all_writes(), model.writes)),
            ),
        )
    }

    fn to_json(&self) -> (r: Json) {
        let every_read: Vec<ReadCapability> = vec![
            ReadCapability::Application,
            ReadCapability::Channels,
            ReadCapability::Mixes,
            ReadCapability::InputDevices,
            ReadCapability::OutputDevices,
            ReadCapability::Notifications,
        ];
        let every_write: Vec<WriteCapability> = vec![
            WriteCapability::Volume,
            WriteCapability::Mute,
            WriteCapability::PerMixState,
            WriteCapability::Routing,
        ];
        assert(every_read@ =~= all_reads());
        assert(every_write@ =~= all_writes());
        let mut reads: Vec<ReadCapability> = Vec::new();
        for i in 0..every_read.len()
            invariant
                every_read@ == all_reads(),
                reads@ == kept(all_reads().take(i as int), self.reads()),
        {
            if self.can_read(every_read[i]) {
                reads.push(every_read[i]);
            }
            assert(all_reads().take(i + 1).drop_last() =~= all_reads().take(i as int));
        }
        let mut writes: Vec<WriteCapability> = Vec::new();
        for i in 0..every_write.len()
            invariant
                every_write@ == all_writes(),
                writes@ == kept(all_writes().take(i as int), self.writes()),
        {
            if self.can_write(every_write[i]) {
                writes.push(every_write[i]);
            }
            assert(all_writes().take(i + 1).drop_last() =~= all_writes().take(i as int));
        }
        assert(all_reads().take(all_reads().len() as int) =~= all_reads());
        assert(all_writes().take(all_writes().len() as int) =~= all_writes());
        assert(wire::views(reads@) =~= reads@);
        assert(wire::views(writes@) =~= writes@);
        let mut fields = Fields::new();
        fields.insert("reads", encode_list(&reads));
        fields.insert("writes", encode_list(&writes));
        Json::Object(fields)
    }
}

/// Capabilities that were written read back.
pub proof fn law_capabilities_round_trip(model: CapabilitiesModel)
    ensures
        Capabilities::decoded(Capabilities::encoded(model)) == Some(model),
{
    reveal_strlit("reads");
    reveal_strlit("writes");
    assert("reads"@.len() != "writes"@.len());
    let reads = kept(all_reads(), model.reads);
    let writes = kept(all_writes(), model.writes);
    assert forall|i: int| 0 <= i < reads.len() implies ReadCapability::decoded(
        ReadCapability::encoded(#[trigger] reads[i]),
    ) == Some(reads[i]) by {
        law_read_names_round_trip(reads[i]);
    }
    assert forall|i: int| 0 <= i < writes.len() implies WriteCapability::decoded(
        WriteCapability::encoded(#[trigger] writes[i]),
    ) == Some(writes[i]) by {
        law_write_names_round_trip(writes[i]);
    }
    wire::law_lists_round_trip::<ReadCapability>(reads);
    wire::law_lists_round_trip::<WriteCapability>(writes);
    assert forall|capability: ReadCapability|
        reads.to_set().contains(capability) == model.reads.contains(capability) by {
        lemma_kept(all_reads(), model.reads, capability);
        let at = match capability {
            ReadCapability::Application => 0int,
            ReadCapability::Channels => 1int,
            ReadCapability::Mixes => 2int,
            ReadCapability::InputDevices => 3int,
            ReadCapability::OutputDevices => 4int,
            ReadCapability::Notifications => 5int,
        };
        assert(all_reads()[at] == capability);
    }
    assert forall|capability: WriteCapability|
        writes.to_set().contains(capability) == model.writes.contains(capability) by {
        lemma_kept(all_writes(), model.writes, capability);
        let at = match capability {
            WriteCapability::Volume => 0int,
            WriteCapability::Mute => 1int,
            WriteCapability::PerMixState => 2int,
            WriteCapability::Routing => 3int,
        };
        assert(all_writes()[at] == capability);
    }
    assert(reads.to_set() =~= model.reads);
    assert(writes.to_set() =~= model.writes);
}

/// A variant without parts is a text that is its name, or an object of one member
/// with that name that is null. Nothing else is one.
pub proof fn law_variants_are_named(value: JsonModel, name: Seq<char>)
    ensures
        variant_of(value) == Some(name) <==> match value {
            JsonModel::Text(text) => text == name,
            JsonModel::Object(members) => members.contains_key(name) && members[name]
                == JsonModel::Null && forall|other: Seq<char>| #[trigger]
                members.contains_key(other) ==> other == name,
            _ => false,
        },
{
    if let JsonModel::Object(members) = value {
        if exists|other: Seq<char>| is_variant(members, other) {
            let chosen = choose|other: Seq<char>| is_variant(members, other);
            assert(is_variant(members, chosen));
            assert(members.contains_key(chosen));
        }
        if members.contains_key(name) && members[name] == JsonModel::Null && forall|
            other: Seq<char>,
        | #[trigger]
            members.contains_key(other) ==> other == name {
            assert(members =~= Map::<Seq<char>, JsonModel>::empty().insert(name, JsonModel::Null));
            assert(is_variant(members, name));
        }
    }
}

/// A read capability is written as its name, and is read from exactly that.
pub proof fn law_read_forms_are_names(value: JsonModel, item: ReadCapability)
    ensures
        ReadCapability::encoded(item) == JsonModel::Text(
            match item {
                ReadCapability::Application => "Application"@,
                ReadCapability::Channels => "Channels"@,
                ReadCapability::Mixes => "Mixes"@,
                ReadCapability::InputDevices => "InputDevices"@,
                ReadCapability::OutputDevices => "OutputDevices"@,
                ReadCapability::Notifications => "Notifications"@,
            },
        ),
        ReadCapability::decoded(value) == Some(item) <==> variant_of(value) == Some(
            match item {
                ReadCapability::Application => "Application"@,
                ReadCapability::Channels => "Channels"@,
                ReadCapability::Mixes => "Mixes"@,
                ReadCapability::InputDevices => "InputDevices"@,
                ReadCapability::OutputDevices => "OutputDevices"@,
                ReadCapability::Notifications => "Notifications"@,
            },
        ),
{
    law_read_names_round_trip(item);
}

/// A write capability is written as its name, and is read from exactly that.
pub proof fn law_write_forms_are_names(value: JsonModel, item: WriteCapability)
    ensures
        WriteCapability::encoded(item) == JsonModel::Text(
            match item {
                WriteCapability::Volume => "Volume"@,
                WriteCapability::Mute => "Mute"@,
                WriteCapability::PerMixState => "PerMixState"@,
                WriteCapability::Routing => "Routing"@,
            },
        ),
        WriteCapability::decoded(value) == Some(item) <==> variant_of(value) == Some(
            match item {
                WriteCapability::Volume => "Volume"@,
                WriteCapability::Mute => "Mute"@,
                WriteCapability::PerMixState => "PerMixState"@,
                WriteCapability::Routing => "Routing"@,
            },
        ),
{
    law_write_names_round_trip(item);
}

/// A mute state is written as its name, and is read from exactly that.
pub proof fn law_mute_state_forms_are_names(value: JsonModel, item: MuteState)
    ensures
        MuteState::encoded(item) == JsonModel::Text(
            match item {
                MuteState::Unmuted => "Unmuted"@,
                MuteState::Muted => "Muted"@,
            },
        ),
        MuteState::decoded(value) == Some(item) <==> variant_of(value) == Some(
            match item {
                MuteState::Unmuted => "Unmuted"@,
                MuteState::Muted => "Muted"@,
            },
        ),
{
    law_mute_state_names_round_trip(item);
}

/// An operation status is written as its name, and is read from exactly that.
pub proof fn law_status_forms_are_names(value: JsonModel, item: OperationStatus)
    ensures
        OperationStatus::encoded(item) == JsonModel::Text(
            match item {
                OperationStatus::Succeeded => "Succeeded"@,
                OperationStatus::Failed => "Failed"@,
                OperationStatus::NotAttempted => "NotAttempted"@,
            },
        ),
        OperationStatus::decoded(value) == Some(item) <==> variant_of(value) == Some(
            match item {
                OperationStatus::Succeeded => "Succeeded"@,
                OperationStatus::Failed => "Failed"@,
                OperationStatus::NotAttempted => "NotAttempted"@,
            },
        ),
{
    law_status_names_round_trip(item);
}

/// An error kind is written as its name, and is read from exactly that.
pub proof fn law_kind_forms_are_names(value: JsonModel, item: ErrorKind)
    ensures
        ErrorKind::encoded(item) == JsonModel::Text(
            match item {
                ErrorKind::InvalidValue => "InvalidValue"@,
                ErrorKind::UnsupportedRevision => "UnsupportedRevision"@,
                ErrorKind::CapabilityUnavailable => "CapabilityUnavailable"@,
                ErrorKind::AmbiguousName => "AmbiguousName"@,
                ErrorKind::Protocol => "Protocol"@,
                ErrorKind::Transport => "Transport"@,
                ErrorKind::Discovery => "Discovery"@,
                ErrorKind::Timeout => "Timeout"@,
                ErrorKind::Shutdown => "Shutdown"@,
            },
        ),
        ErrorKind::decoded(value) == Some(item) <==> variant_of(value) == Some(
            match item {
                ErrorKind::InvalidValue => "InvalidValue"@,
                ErrorKind::UnsupportedRevision => "UnsupportedRevision"@,
                ErrorKind::CapabilityUnavailable => "CapabilityUnavailable"@,
                ErrorKind::AmbiguousName => "AmbiguousName"@,
                ErrorKind::Protocol => "Protocol"@,
                ErrorKind::Transport => "Transport"@,
                ErrorKind::Discovery => "Discovery"@,
                ErrorKind::Timeout => "Timeout"@,
                ErrorKind::Shutdown => "Shutdown"@,
            },
        ),
{
    law_kind_names_round_trip(item);
}

/// An operation is written as an object of one member with its name, which holds
/// exactly its parts under their names.
pub proof fn law_operations_are_written(operation: Operation)
    ensures
        Operation::encoded(operation) matches JsonModel::Object(members) && match operation {
            Operation::SetChannelVolume { channel, volume } => {
                &&& members.dom() == set!["SetChannelVolume"@]
                &&& members["SetChannelVolume"@] matches JsonModel::Object(parts) && {
                    &&& parts.dom() == set!["channel"@, "volume"@]
                    &&& parts["channel"@] == JsonModel::Text(channel@)
                    &&& parts["volume"@] == level::level_number(volume@)
                }
            },
            Operation::SetChannelMute { channel, muted } => {
                &&& members.dom() == set!["SetChannelMute"@]
                &&& members["SetChannelMute"@] matches JsonModel::Object(parts) && {
                    &&& parts.dom() == set!["channel"@, "muted"@]
                    &&& parts["channel"@] == JsonModel::Text(channel@)
                    &&& parts["muted"@] == JsonModel::Bool(muted)
                }
            },
            Operation::SetChannelMixVolume { channel, mix, volume } => {
                &&& members.dom() == set!["SetChannelMixVolume"@]
                &&& members["SetChannelMixVolume"@] matches JsonModel::Object(parts) && {
                    &&& parts.dom() == set!["channel"@, "mix"@, "volume"@]
                    &&& parts["channel"@] == JsonModel::Text(channel@)
                    &&& parts["mix"@] == JsonModel::Text(mix@)
                    &&& parts["volume"@] == level::level_number(volume@)
                }
            },
            Operation::SetChannelMixMute { channel, mix, muted } => {
                &&& members.dom() == set!["SetChannelMixMute"@]
                &&& members["SetChannelMixMute"@] matches JsonModel::Object(parts) && {
                    &&& parts.dom() == set!["channel"@, "mix"@, "muted"@]
                    &&& parts["channel"@] == JsonModel::Text(channel@)
                    &&& parts["mix"@] == JsonModel::Text(mix@)
                    &&& parts["muted"@] == JsonModel::Bool(muted)
                }
            },
            Operation::SetMixVolume { mix, volume } => {
                &&& members.dom() == set!["SetMixVolume"@]
                &&& members["SetMixVolume"@] matches JsonModel::Object(parts) && {
                    &&& parts.dom() == set!["mix"@, "volume"@]
                    &&& parts["mix"@] == JsonModel::Text(mix@)
                    &&& parts["volume"@] == level::level_number(volume@)
                }
            },
            Operation::SetMixMute { mix, muted } => {
                &&& members.dom() == set!["SetMixMute"@]
                &&& members["SetMixMute"@] matches JsonModel::Object(parts) && {
                    &&& parts.dom() == set!["mix"@, "muted"@]
                    &&& parts["mix"@] == JsonModel::Text(mix@)
                    &&& parts["muted"@] == JsonModel::Bool(muted)
                }
            },
        },
{
    reveal_strlit("channel");
    reveal_strlit("mix");
    reveal_strlit("volume");
    reveal_strlit("muted");
    assert("channel"@.len() == 7 && "mix"@.len() == 3 && "volume"@.len() == 6 && "muted"@.len()
        == 5);
    let members = Operation::encoded(operation)->Object_0;
    match operation {
        Operation::SetChannelVolume { .. } => {
            assert(members.dom() =~= set!["SetChannelVolume"@]);
            assert(members["SetChannelVolume"@]->Object_0.dom() =~= set!["channel"@, "volume"@]);
        },
        Operation::SetChannelMute { .. } => {
            assert(members.dom() =~= set!["SetChannelMute"@]);
            assert(members["SetChannelMute"@]->Object_0.dom() =~= set!["channel"@, "muted"@]);
        },
        Operation::SetChannelMixVolume { .. } => {
            assert(members.dom() =~= set!["SetChannelMixVolume"@]);
            assert(members["SetChannelMixVolume"@]->Object_0.dom() =~= set![
                "channel"@,
                "mix"@,
                "volume"@,
            ]);
        },
        Operation::SetChannelMixMute { .. } => {
            assert(members.dom() =~= set!["SetChannelMixMute"@]);
            assert(members["SetChannelMixMute"@]->Object_0.dom() =~= set![
                "channel"@,
                "mix"@,
                "muted"@,
            ]);
        },
        Operation::SetMixVolume { .. } => {
            assert(members.dom() =~= set!["SetMixVolume"@]);
            assert(members["SetMixVolume"@]->Object_0.dom() =~= set!["mix"@, "volume"@]);
        },
        Operation::SetMixMute { .. } => {
            assert(members.dom() =~= set!["SetMixMute"@]);
            assert(members["SetMixMute"@]->Object_0.dom() =~= set!["mix"@, "muted"@]);
        },
    }
}

/// The result of an operation is written with its operation, its status and its
/// error, which is null where there is none; the result of a batch with the results
/// of its operations, in order.
pub proof fn law_results_are_written(
    result: OperationResult,
    results: Seq<OperationResult>,
    at: int,
)
    ensures
        OperationResult::encoded(result) matches JsonModel::Object(members) && {
            &&& members.dom() == set!["operation"@, "status"@, "error"@]
            &&& members["operation"@] == Operation::encoded(result.operation)
            &&& members["status"@] == OperationStatus::encoded(result.status)
            &&& members["error"@] == match result.error {
                Some(text) => JsonModel::Text(text@),
                None => JsonModel::Null,
            }
        },
        BatchResult::encoded(results) matches JsonModel::Object(members) && {
            &&& members.dom() == set!["operations"@]
            &&& members["operations"@] matches JsonModel::Array(items) && items.len()
                == results.len() && (0 <= at < results.len() ==> items[at]
                == OperationResult::encoded(results[at]))
        },
{
    reveal_strlit("operation");
    reveal_strlit("status");
    reveal_strlit("error");
    assert("operation"@.len() == 9 && "status"@.len() == 6 && "error"@.len() == 5);
    assert(OperationResult::encoded(result)->Object_0.dom() =~= set![
        "operation"@,
        "status"@,
        "error"@,
    ]);
    assert(BatchResult::encoded(results)->Object_0.dom() =~= set!["operations"@]);
}

/// Two parts are found under their names in an object, whatever else it holds, and by
/// their places in a list of exactly two.
pub proof fn law_two_parts_are_found(value: JsonModel, first: Seq<char>, second: Seq<char>)
    ensures
        match value {
            JsonModel::Object(members) => two_parts(value, first, second) == (
            if members.contains_key(first) && members.contains_key(second) {
                Some((members[first], members[second]))
            } else {
                None
            }),
            JsonModel::Array(items) => two_parts(value, first, second) == (if items.len() == 2 {
                Some((items[0], items[1]))
            } else {
                None
            }),
            _ => two_parts(value, first, second) is None,
        },
{
}

/// An error is written with exactly its kind and its context, and is read from
/// those two parts.
pub proof fn law_error_forms(error: (ErrorKind, Seq<char>), value: JsonModel)
    ensures
        Error::encoded(error) matches JsonModel::Object(members) && {
            &&& members.dom() == set!["kind"@, "context"@]
            &&& members["kind"@] == ErrorKind::encoded(error.0)
            &&& members["context"@] == JsonModel::Text(error.1)
        },
        Error::decoded(value) == Some(error) <==> (two_parts(
            value,
            "kind"@,
            "context"@,
        ) matches Some(parts) && ErrorKind::decoded(parts.0) == Some(error.0) && parts.1
            == JsonModel::Text(error.1)),
{
    reveal_strlit("kind");
    reveal_strlit("context");
    assert("kind"@.len() != "context"@.len());
    assert(Error::encoded(error)->Object_0.dom() =~= set!["kind"@, "context"@]);
}

/// What is kept of a list is in the order of the list.
proof fn lemma_kept_in_order<T>(all: Seq<T>, set: Set<T>, rank: spec_fn(T) -> int)
    requires
        forall|i: int, j: int| 0 <= i < j < all.len() ==> rank(all[i]) < rank(all[j]),
    ensures
        forall|i: int, j: int|
            0 <= i < j < kept(all, set).len() ==> rank(kept(all, set)[i]) < rank(kept(all, set)[j]),
    decreases all.len(),
{
    if all.len() > 0 {
        let rest = all.drop_last();
        lemma_kept_in_order(rest, set, rank);
        let fewer = kept(rest, set);
        assert forall|i: int| 0 <= i < fewer.len() implies rank(#[trigger] fewer[i]) < rank(
            all.last(),
        ) by {
            lemma_kept(rest, set, fewer[i]);
            assert(fewer.contains(fewer[i]));
            let at = choose|at: int| 0 <= at < rest.len() && rest[at] == fewer[i];
            assert(rank(all[at]) < rank(all[all.len() - 1]));
        }
    }
}

/// The place of a read capability among all of them.
pub open spec fn read_place(capability: ReadCapability) -> int {
    match capability {
        ReadCapability::Application => 0,
        ReadCapability::Channels => 1,
        ReadCapability::Mixes => 2,
        ReadCapability::InputDevices => 3,
        ReadCapability::OutputDevices => 4,
        ReadCapability::Notifications => 5,
    }
}

/// The place of a write capability among all of them.
pub open spec fn write_place(capability: WriteCapability) -> int {
    match capability {
        WriteCapability::Volume => 0,
        WriteCapability::Mute => 1,
        WriteCapability::PerMixState => 2,
        WriteCapability::Routing => 3,
    }
}

/// Capabilities are written as the names of exactly what may be read and of exactly
/// what may be written, each once and in the order in which they are declared.
pub proof fn law_capabilities_are_written_in_order(model: CapabilitiesModel)
    ensures
        Capabilities::encoded(model) matches JsonModel::Object(members) && {
            &&& members.dom() == set!["reads"@, "writes"@]
            &&& exists|reads: Seq<ReadCapability>|
                {
                    &&& members["reads"@] == #[trigger] wire::encoded_list::<ReadCapability>(reads)
                    &&& reads.to_set() == model.reads
                    &&& forall|i: int, j: int|
                        0 <= i < j < reads.len() ==> read_place(#[trigger] reads[i]) < read_place(
                            #[trigger] reads[j],
                        )
                }
            &&& exists|writes: Seq<WriteCapability>|
                {
                    &&& members["writes"@] == #[trigger] wire::encoded_list::<WriteCapability>(
                        writes,
                    )
                    &&& writes.to_set() == model.writes
                    &&& forall|i: int, j: int|
                        0 <= i < j < writes.len() ==> write_place(#[trigger] writes[i])
                            < write_place(#[trigger] writes[j])
                }
        },
{
    reveal_strlit("reads");
    reveal_strlit("writes");
    assert("reads"@.len() != "writes"@.len());
    let members = Capabilities::encoded(model)->Object_0;
    assert(members.dom() =~= set!["reads"@, "writes"@]);
    let reads = kept(all_reads(), model.reads);
    let writes = kept(all_writes(), model.writes);
    lemma_kept_in_order(
        all_reads(),
        model.reads,
        |capability: ReadCapability| read_place(capability),
    );
    lemma_kept_in_order(
        all_writes(),
        model.writes,
        |capability: WriteCapability| write_place(capability),
    );
    assert(reads.to_set() =~= model.reads) by {
        assert forall|capability: ReadCapability|
            reads.to_set().contains(capability) == model.reads.contains(capability) by {
            lemma_kept(all_reads(), model.reads, capability);
            assert(all_reads()[read_place(capability)] == capability);
        }
    }
    assert(writes.to_set() =~= model.writes) by {
        assert forall|capability: WriteCapability|
            writes.to_set().contains(capability) == model.writes.contains(capability) by {
            lemma_kept(all_writes(), model.writes, capability);
            assert(all_writes()[write_place(capability)] == capability);
        }
    }
    assert(members["reads"@] == wire::encoded_list::<ReadCapability>(reads));
    assert(members["writes"@] == wire::encoded_list::<WriteCapability>(writes));
}

/// Capabilities are read from two lists of names, in any order and however often each
/// is named.
pub proof fn law_capabilities_are_read(value: JsonModel, model: CapabilitiesModel)
    ensures
        Capabilities::decoded(value) == Some(model) <==> (two_parts(
            value,
            "reads"@,
            "writes"@,
        ) matches Some(parts) && (wire::decoded_list::<ReadCapability>(
            parts.0,
        ) matches Some(reads) && (wire::decoded_list::<WriteCapability>(
            parts.1,
        ) matches Some(writes) && reads.to_set() == model.reads && writes.to_set()
            == model.writes))),
{
}

/// Capabilities, states, operations and their results stand for themselves: what is read
/// and written is the value that the caller has.
pub proof fn law_forms_stand_for_their_values(
    read: ReadCapability,
    write: WriteCapability,
    muted: MuteState,
    status: OperationStatus,
    kind: ErrorKind,
    operation: Operation,
    result: OperationResult,
    batch: BatchResult,
    capabilities: Capabilities,
)
    ensures
        read@ == read,
        write@ == write,
        muted@ == muted,
        status@ == status,
        kind@ == kind,
        operation@ == operation,
        result@ == result,
        batch@ == batch.operations@,
        capabilities@.reads == capabilities.reads(),
        capabilities@.writes == capabilities.writes(),
{
}

} // verus!
