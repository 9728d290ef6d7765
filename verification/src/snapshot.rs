//! The normalized mixer model and how it is read from JSON.

use vstd::prelude::*;

use crate::error;
use crate::error::{Error, ErrorKind};
use crate::id::{ChannelId, InputDeviceId, MixId, OutputDeviceId};
use crate::json;
use crate::json::{Fields, Json, JsonModel, JsonNumber, NumberKind};
use crate::level;
use crate::value::Volume;
use crate::wire;
use crate::wire::{decode_list, encode_list, read_list, Decode, Encode, Explain};

verus! {

/// The text that an optional member is: absent and null count as none.
/// `None` means that the member is present and no text.
pub open spec fn optional_text(value: Option<JsonModel>) -> Option<Option<Seq<char>>> {
    match value {
        None => Some(None),
        Some(JsonModel::Null) => Some(None),
        Some(JsonModel::Text(text)) => Some(Some(text)),
        Some(_) => None,
    }
}

/// The truth value that an optional member is: absent and null count as none.
/// `None` means that the member is present and no truth value.
pub open spec fn optional_bool(value: Option<JsonModel>) -> Option<Option<bool>> {
    match value {
        None => Some(None),
        Some(JsonModel::Null) => Some(None),
        Some(JsonModel::Bool(b)) => Some(Some(b)),
        Some(_) => None,
    }
}

/// The level that an optional member is: absent and null count as none.
/// `None` means that the member is present and denotes no level.
pub open spec fn optional_level(value: Option<JsonModel>) -> Option<Option<u32>> {
    match value {
        None => Some(None),
        Some(JsonModel::Null) => Some(None),
        Some(value) => match level::level_of(value) {
            Some(bits) => Some(Some(bits)),
            None => None,
        },
    }
}

/// Reads an optional text member.
fn read_optional_text(value: Option<&Json>) -> (r: Option<Option<String>>)
    ensures
        match (r, optional_text(json::viewed(value))) {
            (Some(Some(text)), Some(Some(model))) => text@ == model,
            (Some(None), Some(None)) => true,
            (None, None) => true,
            _ => false,
        },
{
    match value {
        None => Some(None),
        Some(Json::Null) => Some(None),
        Some(Json::Text(text)) => Some(Some(text.clone())),
        Some(_) => None,
    }
}

/// Reads an optional truth value member.
fn read_optional_bool(value: Option<&Json>) -> (r: Option<Option<bool>>)
    ensures
        r == optional_bool(json::viewed(value)),
{
    match value {
        None => Some(None),
        Some(Json::Null) => Some(None),
        Some(Json::Bool(b)) => Some(Some(*b)),
        Some(_) => None,
    }
}

/// Reads an optional level member.
fn read_optional_level(value: Option<&Json>) -> (r: Option<Option<Volume>>)
    ensures
        match (r, optional_level(json::viewed(value))) {
            (Some(Some(volume)), Some(Some(bits))) => volume@ == bits,
            (Some(None), Some(None)) => true,
            (None, None) => true,
            _ => false,
        },
{
    match value {
        None => Some(None),
        Some(Json::Null) => Some(None),
        Some(value) => match Volume::decode(value) {
            Some(volume) => Some(Some(volume)),
            None => None,
        },
    }
}

/// A named mixer entity: its identifier, its name and the rest of its state.
#[verifier::ext_equal]
pub struct EntityModel {
    pub id: Seq<char>,
    pub name: Option<Seq<char>>,
    pub state: Map<Seq<char>, JsonModel>,
}

/// What a JSON value is as an entity: an object with a text `id` and an
/// optional text `name`. All other members are its state.
pub open spec fn entity_of(value: JsonModel) -> Option<EntityModel> {
    match (json::member(value, "id"@), optional_text(json::member(value, "name"@))) {
        (Some(JsonModel::Text(id)), Some(name)) => Some(
            EntityModel { id, name, state: value->Object_0.remove("id"@).remove("name"@) },
        ),
        _ => None,
    }
}

/// Reads the parts of an entity.
fn decode_entity(value: &Json) -> (r: Option<(String, Option<String>, Fields)>)
    ensures
        match r {
            Some((id, name, state)) => entity_of(value@) == Some(
                EntityModel { id: id@, name: optional_view(name), state: state@ },
            ),
            None => entity_of(value@) is None,
        },
{
    match (value, value.get("id"), read_optional_text(value.get("name"))) {
        (Json::Object(fields), Some(Json::Text(id)), Some(name)) => {
            let mut state = fields.clone();
            let _ = state.remove("id");
            let _ = state.remove("name");
            Some((id.clone(), name, state))
        },
        _ => None,
    }
}

/// What is wrong with a value that is no entity of a type.
pub open spec fn entity_fault(value: JsonModel, expected: Seq<char>) -> Seq<char> {
    match value {
        JsonModel::Object(_) => match (
            json::member(value, "id"@),
            json::member(value, "name"@),
        ) {
            (Some(id), _) if !(id is Text) => wire::wrong_type(id, "a string"@),
            (_, Some(name)) if optional_text(Some(name)) is None => wire::wrong_type(
                name,
                "a string"@,
            ),
            _ => wire::missing_field("id"@),
        },
        _ => wire::wrong_type(value, expected),
    }
}

/// Tells what is wrong with a value that is no entity of a type.
fn explain_entity(value: &Json, expected: &str) -> (r: String)
    ensures
        r@ == entity_fault(value@, expected@),
{
    match value {
        Json::Object(_) => {
            match value.get("id") {
                None => {},
                Some(Json::Text(_)) => {},
                Some(id) => {
                    return wire::describe_type(id, "a string");
                },
            }
            match value.get("name") {
                None => {},
                Some(Json::Null) => {},
                Some(Json::Text(_)) => {},
                Some(name) => {
                    return wire::describe_type(name, "a string");
                },
            }
            wire::describe_missing("id")
        },
        _ => wire::describe_type(value, expected),
    }
}

/// What an optional text is as a JSON value.
pub open spec fn text_or_null(text: Option<Seq<char>>) -> JsonModel {
    match text {
        Some(text) => JsonModel::Text(text),
        None => JsonModel::Null,
    }
}

/// Writes an optional text.
fn write_optional_text(text: &Option<String>) -> (r: Json)
    ensures
        r@ == text_or_null(optional_view(*text)),
{
    match text {
        Some(text) => Json::Text(text.clone()),
        None => Json::Null,
    }
}

/// Adds a member to an object unless it has one of that name.
pub open spec fn with_member(
    members: Map<Seq<char>, JsonModel>,
    name: Seq<char>,
    value: JsonModel,
) -> Map<Seq<char>, JsonModel> {
    if members.contains_key(name) {
        members
    } else {
        members.insert(name, value)
    }
}

/// Adds a member to an object unless it has one of that name.
fn add_member(fields: &mut Fields, name: &str, value: Json)
    ensures
        final(fields)@ == with_member(old(fields)@, name@, value@),
{
    if fields.get(name).is_none() {
        fields.insert(name, value);
    }
}

/// What an entity is as a JSON value: its state with its identifier and its
/// name.
pub open spec fn entity_json(entity: EntityModel) -> JsonModel {
    JsonModel::Object(
        with_member(
            with_member(entity.state, "id"@, JsonModel::Text(entity.id)),
            "name"@,
            text_or_null(entity.name),
        ),
    )
}

/// Writes the parts of an entity.
fn encode_entity(id: &str, name: &Option<String>, state: &Fields) -> (r: Json)
    ensures
        r@ == entity_json(
            EntityModel { id: id@, name: optional_view(*name), state: state@ },
        ),
{
    let mut fields = state.clone();
    add_member(&mut fields, "id", Json::Text(id.to_owned()));
    add_member(&mut fields, "name", write_optional_text(name));
    Json::Object(fields)
}

/// An entity that was read reads back after it was written.
pub proof fn law_entities_round_trip(value: JsonModel, entity: EntityModel)
    requires
        entity_of(value) == Some(entity),
    ensures
        entity_of(entity_json(entity)) == Some(entity),
{
    reveal_strlit("id");
    reveal_strlit("name");
    assert("id"@ != "name"@) by {
        assert("id"@.len() != "name"@.len());
    }
    let members = entity_json(entity)->Object_0;
    assert(members.remove("id"@).remove("name"@) =~= entity.state);
}

/// The view of an optional text.
pub open spec fn optional_view(text: Option<String>) -> Option<Seq<char>> {
    match text {
        Some(text) => Some(text@),
        None => None,
    }
}

/// An input channel.
#[derive(Clone, Debug, PartialEq)]
pub struct Channel {
    pub id: ChannelId,
    pub name: Option<String>,
    pub state: Fields,
}

impl View for Channel {
    type V = EntityModel;

    open spec fn view(&self) -> EntityModel {
        EntityModel { id: self.id@, name: optional_view(self.name), state: self.state@ }
    }
}

impl Decode for Channel {
    open spec fn decoded(value: JsonModel) -> Option<EntityModel> {
        entity_of(value)
    }

    fn decode(value: &Json) -> (r: Option<Self>) {
        match decode_entity(value) {
            Some((id, name, state)) => Some(
                Channel { id: ChannelId::new(id.as_str()), name, state },
            ),
            None => None,
        }
    }
}

impl Explain for Channel {
    open spec fn fault(value: JsonModel) -> Seq<char> {
        entity_fault(value, "struct Channel"@)
    }

    fn explain(value: &Json) -> (r: String) {
        explain_entity(value, "struct Channel")
    }
}

impl Encode for Channel {
    open spec fn encoded(model: EntityModel) -> JsonModel {
        entity_json(model)
    }

    fn to_json(&self) -> (r: Json) {
        encode_entity(self.id.as_str(), &self.name, &self.state)
    }
}

/// An output mix.
#[derive(Clone, Debug, PartialEq)]
pub struct OutputMix {
    pub id: MixId,
    pub name: Option<String>,
    pub state: Fields,
}

impl View for OutputMix {
    type V = EntityModel;

    open spec fn view(&self) -> EntityModel {
        EntityModel { id: self.id@, name: optional_view(self.name), state: self.state@ }
    }
}

impl Decode for OutputMix {
    open spec fn decoded(value: JsonModel) -> Option<EntityModel> {
        entity_of(value)
    }

    fn decode(value: &Json) -> (r: Option<Self>) {
        match decode_entity(value) {
            Some((id, name, state)) => Some(
                OutputMix { id: MixId::new(id.as_str()), name, state },
            ),
            None => None,
        }
    }
}

impl Explain for OutputMix {
    open spec fn fault(value: JsonModel) -> Seq<char> {
        entity_fault(value, "struct OutputMix"@)
    }

    fn explain(value: &Json) -> (r: String) {
        explain_entity(value, "struct OutputMix")
    }
}

impl Encode for OutputMix {
    open spec fn encoded(model: EntityModel) -> JsonModel {
        entity_json(model)
    }

    fn to_json(&self) -> (r: Json) {
        encode_entity(self.id.as_str(), &self.name, &self.state)
    }
}

/// An input device.
#[derive(Clone, Debug, PartialEq)]
pub struct InputDevice {
    pub id: InputDeviceId,
    pub name: Option<String>,
    pub state: Fields,
}

impl View for InputDevice {
    type V = EntityModel;

    open spec fn view(&self) -> EntityModel {
        EntityModel { id: self.id@, name: optional_view(self.name), state: self.state@ }
    }
}

impl Decode for InputDevice {
    open spec fn decoded(value: JsonModel) -> Option<EntityModel> {
        entity_of(value)
    }

    fn decode(value: &Json) -> (r: Option<Self>) {
        match decode_entity(value) {
            Some((id, name, state)) => Some(
                InputDevice { id: InputDeviceId::new(id.as_str()), name, state },
            ),
            None => None,
        }
    }
}

impl Explain for InputDevice {
    open spec fn fault(value: JsonModel) -> Seq<char> {
        entity_fault(value, "struct InputDevice"@)
    }

    fn explain(value: &Json) -> (r: String) {
        explain_entity(value, "struct InputDevice")
    }
}

impl Encode for InputDevice {
    open spec fn encoded(model: EntityModel) -> JsonModel {
        entity_json(model)
    }

    fn to_json(&self) -> (r: Json) {
        encode_entity(self.id.as_str(), &self.name, &self.state)
    }
}

/// An output device.
#[derive(Clone, Debug, PartialEq)]
pub struct OutputDevice {
    pub id: OutputDeviceId,
    pub name: Option<String>,
    pub state: Fields,
}

impl View for OutputDevice {
    type V = EntityModel;

    open spec fn view(&self) -> EntityModel {
        EntityModel { id: self.id@, name: optional_view(self.name), state: self.state@ }
    }
}

impl Decode for OutputDevice {
    open spec fn decoded(value: JsonModel) -> Option<EntityModel> {
        entity_of(value)
    }

    fn decode(value: &Json) -> (r: Option<Self>) {
        match decode_entity(value) {
            Some((id, name, state)) => Some(
                OutputDevice { id: OutputDeviceId::new(id.as_str()), name, state },
            ),
            None => None,
        }
    }
}

impl Explain for OutputDevice {
    open spec fn fault(value: JsonModel) -> Seq<char> {
        entity_fault(value, "struct OutputDevice"@)
    }

    fn explain(value: &Json) -> (r: String) {
        explain_entity(value, "struct OutputDevice")
    }
}

impl Encode for OutputDevice {
    open spec fn encoded(model: EntityModel) -> JsonModel {
        entity_json(model)
    }

    fn to_json(&self) -> (r: Json) {
        encode_entity(self.id.as_str(), &self.name, &self.state)
    }
}

/// What Wave Link says of itself.
#[verifier::ext_equal]
pub struct ApplicationModel {
    pub app_id: Option<Seq<char>>,
    pub application_version: Option<Seq<char>>,
    pub build: Option<JsonModel>,
    pub interface_revision: u32,
    pub extra: Map<Seq<char>, JsonModel>,
}

/// The interface revision that a member is: an integer of 32 bits.
pub open spec fn revision_of(value: Option<JsonModel>) -> Option<u32> {
    match value {
        Some(JsonModel::Number(NumberKind::Unsigned(n))) => if n <= u32::MAX {
            Some(n as u32)
        } else {
            None
        },
        _ => None,
    }
}

/// The value that an optional member is: absent and null count as none.
pub open spec fn optional_value(value: Option<JsonModel>) -> Option<JsonModel> {
    match value {
        Some(JsonModel::Null) => None,
        other => other,
    }
}

/// What a JSON value is as application information.
pub open spec fn application_of(value: JsonModel) -> Option<ApplicationModel> {
    match (
        optional_text(json::member(value, "appId"@)),
        optional_text(json::member(value, "applicationVersion"@)),
        revision_of(json::member(value, "interfaceRevision"@)),
    ) {
        (Some(app_id), Some(application_version), Some(interface_revision)) => Some(
            ApplicationModel {
                app_id,
                application_version,
                build: optional_value(json::member(value, "build"@)),
                interface_revision,
                extra: value->Object_0.remove("appId"@).remove("applicationVersion"@).remove(
                    "build"@,
                ).remove("interfaceRevision"@),
            },
        ),
        _ => None,
    }
}

/// What Wave Link says of itself. Versions and builds are diagnostics; only the
/// interface revision decides what is compatible.
#[derive(Debug, PartialEq)]
pub struct ApplicationInfo {
    pub app_id: Option<String>,
    pub application_version: Option<String>,
    pub build: Option<Json>,
    pub interface_revision: u32,
    pub extra: Fields,
}

impl View for ApplicationInfo {
    type V = ApplicationModel;

    open spec fn view(&self) -> ApplicationModel {
        ApplicationModel {
            app_id: optional_view(self.app_id),
            application_version: optional_view(self.application_version),
            build: match self.build {
                Some(build) => Some(build@),
                None => None,
            },
            interface_revision: self.interface_revision,
            extra: self.extra@,
        }
    }
}

impl Clone for ApplicationInfo {
    fn clone(&self) -> (r: Self)
        ensures
            r@ == self@,
    {
        ApplicationInfo {
            app_id: copy_text(&self.app_id),
            application_version: copy_text(&self.application_version),
            build: match &self.build {
                Some(build) => Some(build.clone()),
                None => None,
            },
            interface_revision: self.interface_revision,
            extra: self.extra.clone(),
        }
    }
}

/// Copies an optional text.
fn copy_text(text: &Option<String>) -> (r: Option<String>)
    ensures
        optional_view(r) == optional_view(*text),
{
    match text {
        Some(text) => Some(text.clone()),
        None => None,
    }
}

/// Reads an interface revision.
fn read_revision(value: Option<&Json>) -> (r: Option<u32>)
    ensures
        r == revision_of(json::viewed(value)),
{
    match value {
        Some(value) => match value.as_u64() {
            Some(n) => if n <= u32::MAX as u64 {
                Some(n as u32)
            } else {
                None
            },
            None => None,
        },
        None => None,
    }
}

impl Decode for ApplicationInfo {
    open spec fn decoded(value: JsonModel) -> Option<ApplicationModel> {
        application_of(value)
    }

    fn decode(value: &Json) -> (r: Option<Self>) {
        match (
            value,
            read_optional_text(value.get("appId")),
            read_optional_text(value.get("applicationVersion")),
            read_revision(value.get("interfaceRevision")),
        ) {
            (
                Json::Object(fields),
                Some(app_id),
                Some(application_version),
                Some(interface_revision),
            ) => {
                let build: Option<Json> = match value.get("build") {
                    None => None,
                    Some(Json::Null) => None,
                    Some(build) => Some(build.clone()),
                };
                let mut extra = fields.clone();
                let _ = extra.remove("appId");
                let _ = extra.remove("applicationVersion");
                let _ = extra.remove("build");
                let _ = extra.remove("interfaceRevision");
                Some(
                    ApplicationInfo {
                        app_id,
                        application_version,
                        build,
                        interface_revision,
                        extra,
                    },
                )
            },
            _ => None,
        }
    }
}

/// What is wrong with a value that is no application information.
pub open spec fn application_fault(value: JsonModel) -> Seq<char> {
    let app_id = json::member(value, "appId"@);
    let version = json::member(value, "applicationVersion"@);
    let revision = json::member(value, "interfaceRevision"@);
    if !(value is Object) {
        wire::wrong_type(value, "struct ApplicationInfo"@)
    } else if optional_text(app_id) is None {
        wire::wrong_type(app_id->0, "a string"@)
    } else if optional_text(version) is None {
        wire::wrong_type(version->0, "a string"@)
    } else {
        match revision {
            None => wire::missing_field("interfaceRevision"@),
            Some(JsonModel::Number(NumberKind::Double(_))) => wire::wrong_type(
                revision->0,
                "u32"@,
            ),
            Some(JsonModel::Number(_)) => wire::wrong_value(revision->0, "u32"@),
            Some(other) => wire::wrong_type(other, "u32"@),
        }
    }
}

/// Returns a member that is present and no text.
fn no_text<'a>(value: &'a Json, name: &str) -> (r: Option<&'a Json>)
    ensures
        match r {
            Some(member) => json::member(value@, name@) == Some(member@) && optional_text(
                json::member(value@, name@),
            ) is None,
            None => optional_text(json::member(value@, name@)) is Some,
        },
{
    match value.get(name) {
        None => None,
        Some(Json::Null) => None,
        Some(Json::Text(_)) => None,
        Some(member) => Some(member),
    }
}

impl Explain for ApplicationInfo {
    open spec fn fault(value: JsonModel) -> Seq<char> {
        application_fault(value)
    }

    fn explain(value: &Json) -> (r: String) {
        match value {
            Json::Object(_) => {},
            _ => {
                return wire::describe_type(value, "struct ApplicationInfo");
            },
        }
        if let Some(member) = no_text(value, "appId") {
            return wire::describe_type(member, "a string");
        }
        if let Some(member) = no_text(value, "applicationVersion") {
            return wire::describe_type(member, "a string");
        }
        match value.get("interfaceRevision") {
            None => wire::describe_missing("interfaceRevision"),
            Some(member) => match member {
                Json::Number(number) => match number.kind() {
                    NumberKind::Double(_) => wire::describe_type(member, "u32"),
                    _ => wire::describe_value(member, "u32"),
                },
                _ => wire::describe_type(member, "u32"),
            },
        }
    }
}

/// What an optional value is as a JSON value.
pub open spec fn value_or_null(value: Option<JsonModel>) -> JsonModel {
    match value {
        Some(value) => value,
        None => JsonModel::Null,
    }
}

/// What application information is as a JSON value.
pub open spec fn application_json(application: ApplicationModel) -> JsonModel {
    JsonModel::Object(
        with_member(
            with_member(
                with_member(
                    with_member(
                        application.extra,
                        "appId"@,
                        text_or_null(application.app_id),
                    ),
                    "applicationVersion"@,
                    text_or_null(application.application_version),
                ),
                "build"@,
                value_or_null(application.build),
            ),
            "interfaceRevision"@,
            JsonModel::Number(NumberKind::Unsigned(application.interface_revision as u64)),
        ),
    )
}

impl Encode for ApplicationInfo {
    open spec fn encoded(model: ApplicationModel) -> JsonModel {
        application_json(model)
    }

    fn to_json(&self) -> (r: Json) {
        let build: Json = match &self.build {
            Some(build) => build.clone(),
            None => Json::Null,
        };
        let revision = JsonNumber::unsigned(self.interface_revision as u64);
        let mut fields = self.extra.clone();
        add_member(&mut fields, "appId", write_optional_text(&self.app_id));
        add_member(
            &mut fields,
            "applicationVersion",
            write_optional_text(&self.application_version),
        );
        add_member(&mut fields, "build", build);
        add_member(&mut fields, "interfaceRevision", Json::Number(revision));
        Json::Object(fields)
    }
}

/// The names of the members of application information differ.
proof fn lemma_application_names()
    ensures
        "appId"@ != "applicationVersion"@,
        "appId"@ != "build"@,
        "appId"@ != "interfaceRevision"@,
        "applicationVersion"@ != "build"@,
        "applicationVersion"@ != "interfaceRevision"@,
        "build"@ != "interfaceRevision"@,
{
    reveal_strlit("appId");
    reveal_strlit("applicationVersion");
    reveal_strlit("build");
    reveal_strlit("interfaceRevision");
    assert("appId"@[0] == 'a' && "build"@[0] == 'b');
    assert("appId"@.len() == 5 && "applicationVersion"@.len() == 18 && "build"@.len() == 5
        && "interfaceRevision"@.len() == 17);
}

/// Application information that was read reads back after it was written.
pub proof fn law_application_round_trips(value: JsonModel, application: ApplicationModel)
    requires
        application_of(value) == Some(application),
    ensures
        application_of(application_json(application)) == Some(application),
{
    lemma_application_names();
    let members = application_json(application)->Object_0;
    assert(members.remove("appId"@).remove("applicationVersion"@).remove("build"@).remove(
        "interfaceRevision"@,
    ) =~= application.extra);
}

/// The state of a channel in one of the mixes it takes part in.
#[verifier::ext_equal]
pub struct MixStateModel {
    pub id: Seq<char>,
    pub volume: Option<u32>,
    pub muted: Option<bool>,
    pub extra: Map<Seq<char>, JsonModel>,
}

/// What a JSON value is as a channel's state in a mix.
pub open spec fn mix_state_of(value: JsonModel) -> Option<MixStateModel> {
    match (
        json::member(value, "id"@),
        optional_level(json::member(value, "level"@)),
        optional_bool(json::member(value, "isMuted"@)),
    ) {
        (Some(JsonModel::Text(id)), Some(volume), Some(muted)) => Some(
            MixStateModel {
                id,
                volume,
                muted,
                extra: value->Object_0.remove("id"@).remove("level"@).remove("isMuted"@),
            },
        ),
        _ => None,
    }
}

/// The state of a channel in one of the mixes it takes part in.
#[derive(Clone, Debug, PartialEq)]
pub struct ChannelMixState {
    pub id: MixId,
    pub volume: Option<Volume>,
    pub muted: Option<bool>,
    pub extra: Fields,
}

impl View for ChannelMixState {
    type V = MixStateModel;

    open spec fn view(&self) -> MixStateModel {
        MixStateModel {
            id: self.id@,
            volume: match self.volume {
                Some(volume) => Some(volume@),
                None => None,
            },
            muted: self.muted,
            extra: self.extra@,
        }
    }
}

impl Decode for ChannelMixState {
    open spec fn decoded(value: JsonModel) -> Option<MixStateModel> {
        mix_state_of(value)
    }

    fn decode(value: &Json) -> (r: Option<Self>) {
        match (
            value,
            value.get("id"),
            read_optional_level(value.get("level")),
            read_optional_bool(value.get("isMuted")),
        ) {
            (Json::Object(fields), Some(Json::Text(id)), Some(volume), Some(muted)) => {
                let mut extra = fields.clone();
                let _ = extra.remove("id");
                let _ = extra.remove("level");
                let _ = extra.remove("isMuted");
                Some(ChannelMixState { id: MixId::new(id.as_str()), volume, muted, extra })
            },
            _ => None,
        }
    }
}

/// What is wrong with a value that is no channel's state in a mix.
pub open spec fn mix_state_fault(value: JsonModel) -> Seq<char> {
    let id = json::member(value, "id"@);
    let muted = json::member(value, "isMuted"@);
    let level = json::member(value, "level"@);
    if !(value is Object) {
        wire::wrong_type(value, "struct ChannelMixState"@)
    } else if id is Some && !(id->0 is Text) {
        wire::wrong_type(id->0, "a string"@)
    } else if optional_bool(muted) is None {
        wire::wrong_type(muted->0, "a boolean"@)
    } else if optional_level(level) is None {
        if level->0 is Number {
            error::error_line(
                (ErrorKind::InvalidValue, "volume must be finite and between 0.0 and 1.0"@),
            )
        } else {
            wire::wrong_type(level->0, "f32"@)
        }
    } else {
        wire::missing_field("id"@)
    }
}

impl Explain for ChannelMixState {
    open spec fn fault(value: JsonModel) -> Seq<char> {
        mix_state_fault(value)
    }

    fn explain(value: &Json) -> (r: String) {
        match value {
            Json::Object(_) => {},
            _ => {
                return wire::describe_type(value, "struct ChannelMixState");
            },
        }
        match value.get("id") {
            None => {},
            Some(Json::Text(_)) => {},
            Some(id) => {
                return wire::describe_type(id, "a string");
            },
        }
        match value.get("isMuted") {
            None => {},
            Some(Json::Null) => {},
            Some(Json::Bool(_)) => {},
            Some(muted) => {
                return wire::describe_type(muted, "a boolean");
            },
        }
        match value.get("level") {
            None => {},
            Some(Json::Null) => {},
            Some(level) => {
                if Volume::decode(level).is_none() {
                    return match level {
                        Json::Number(_) => Error::new(
                            ErrorKind::InvalidValue,
                            "volume must be finite and between 0.0 and 1.0",
                        ).to_string(),
                        _ => wire::describe_type(level, "f32"),
                    };
                }
            },
        }
        wire::describe_missing("id")
    }
}

/// What a channel's state in a mix is as a JSON value.
pub open spec fn mix_state_json(state: MixStateModel) -> JsonModel {
    JsonModel::Object(
        with_member(
            with_member(
                with_member(state.extra, "id"@, JsonModel::Text(state.id)),
                "level"@,
                match state.volume {
                    Some(bits) => level::level_number(bits),
                    None => JsonModel::Null,
                },
            ),
            "isMuted"@,
            match state.muted {
                Some(muted) => JsonModel::Bool(muted),
                None => JsonModel::Null,
            },
        ),
    )
}

impl Encode for ChannelMixState {
    open spec fn encoded(model: MixStateModel) -> JsonModel {
        mix_state_json(model)
    }

    fn to_json(&self) -> (r: Json) {
        let level: Json = match &self.volume {
            Some(volume) => volume.to_json(),
            None => Json::Null,
        };
        let muted: Json = match self.muted {
            Some(muted) => Json::Bool(muted),
            None => Json::Null,
        };
        let mut fields = self.extra.clone();
        add_member(&mut fields, "id", self.id.to_json());
        add_member(&mut fields, "level", level);
        add_member(&mut fields, "isMuted", muted);
        Json::Object(fields)
    }
}

/// A channel's state in a mix that was read reads back after it was written.
pub proof fn law_mix_states_round_trip(value: JsonModel, state: MixStateModel)
    requires
        mix_state_of(value) == Some(state),
    ensures
        mix_state_of(mix_state_json(state)) == Some(state),
{
    reveal_strlit("id");
    reveal_strlit("level");
    reveal_strlit("isMuted");
    assert("id"@.len() == 2 && "level"@.len() == 5 && "isMuted"@.len() == 7);
    if let Some(bits) = state.volume {
        level::lemma_level_in_unit(json::member(value, "level"@)->0, bits);
        level::law_level_round_trip(bits);
    }
    let members = mix_state_json(state)->Object_0;
    assert(members.remove("id"@).remove("level"@).remove("isMuted"@) =~= state.extra);
}

/// The mixes that a channel with this state takes part in, or nothing where
/// they are malformed. Absent and null count as none.
pub open spec fn mixes_of(state: Map<Seq<char>, JsonModel>) -> Option<Seq<MixStateModel>> {
    match optional_value(json::member(JsonModel::Object(state), "mixes"@)) {
        None => Some(Seq::empty()),
        Some(value) => wire::decoded_list::<ChannelMixState>(value),
    }
}

/// What is wrong with the mixes of a channel with this state.
pub open spec fn mixes_fault(state: Map<Seq<char>, JsonModel>) -> Seq<char> {
    wire::list_fault::<ChannelMixState>(
        json::member(JsonModel::Object(state), "mixes"@)->0,
    )
}

/// The first mix state with this identifier.
pub open spec fn first_mix(states: Seq<MixStateModel>, id: Seq<char>) -> Option<MixStateModel>
    decreases states.len(),
{
    if states.len() == 0 {
        None
    } else if states.first().id == id {
        Some(states.first())
    } else {
        first_mix(states.drop_first(), id)
    }
}

/// A mix is looked up by its identifier: there is none exactly when no state has
/// that identifier, and otherwise it is the state that has it while none before
/// it does.
pub proof fn law_mix_is_the_first_with_its_identifier(states: Seq<MixStateModel>, id: Seq<char>)
    ensures
        first_mix(states, id) is None <==> forall|i: int|
            0 <= i < states.len() ==> (#[trigger] states[i]).id != id,
        first_mix(states, id) matches Some(state) ==> state.id == id && exists|i: int|
            0 <= i < states.len() && #[trigger] states[i] == state && forall|j: int|
                0 <= j < i ==> (#[trigger] states[j]).id != id,
    decreases states.len(),
{
    if states.len() > 0 {
        let rest = states.drop_first();
        law_mix_is_the_first_with_its_identifier(rest, id);
        assert forall|i: int| 0 <= i < rest.len() implies #[trigger] rest[i] == states[i + 1] by {
        }
        if states[0].id != id {
            if let Some(state) = first_mix(rest, id) {
                let i = choose|i: int|
                    0 <= i < rest.len() && #[trigger] rest[i] == state && forall|j: int|
                        0 <= j < i ==> (#[trigger] rest[j]).id != id;
                assert(states[i + 1] == state);
                assert forall|j: int| 0 <= j < i + 1 implies (#[trigger] states[j]).id != id by {
                    if j > 0 {
                        assert(rest[j - 1] == states[j]);
                    }
                }
            } else {
                assert forall|i: int| 0 <= i < states.len() implies (#[trigger] states[i]).id
                    != id by {
                    if i > 0 {
                        assert(rest[i - 1] == states[i]);
                    }
                }
            }
        } else {
            assert(states[0].id == id);
        }
    }
}

impl Channel {
    /// Returns the normalized channel volume when Wave Link reported one. A
    /// `level` that is present but no normalized volume is an
    /// [`ErrorKind::Protocol`] error.
    pub fn volume(&self) -> (r: Result<Option<Volume>, Error>)
        ensures
            match json::member(JsonModel::Object(self.state@), "level"@) {
                None => r == Ok::<Option<Volume>, Error>(None),
                Some(value) => match level::level_of(value) {
                    Some(bits) => r matches Ok(Some(volume)) && volume@ == bits,
                    None => r matches Err(error) && error@ == (
                        ErrorKind::Protocol,
                        "level must be a number between 0.0 and 1.0"@,
                    ),
                },
            },
    {
        match self.state.get("level") {
            None => Ok(None),
            Some(value) => match Volume::decode(value) {
                Some(volume) => Ok(Some(volume)),
                None => Err(
                    Error::new(ErrorKind::Protocol, "level must be a number between 0.0 and 1.0"),
                ),
            },
        }
    }

    /// Returns whether the channel is muted when Wave Link reported it.
    #[must_use]
    pub fn muted(&self) -> (r: Option<bool>)
        ensures
            r == match json::member(JsonModel::Object(self.state@), "isMuted"@) {
                Some(value) => json::bool_of(value),
                None => None,
            },
    {
        match self.state.get("isMuted") {
            Some(value) => value.as_bool(),
            None => None,
        }
    }

    /// Returns the participating output mixes with normalized typed state. A
    /// `mixes` member that is present but malformed is an
    /// [`ErrorKind::Protocol`] error that tells what is wrong.
    pub fn participating_mixes(&self) -> (r: Result<Vec<ChannelMixState>, Error>)
        ensures
            match mixes_of(self.state@) {
                Some(states) => r matches Ok(mixes) && wire::views(mixes@) == states,
                None => r matches Err(error) && error@ == (
                    ErrorKind::Protocol,
                    mixes_fault(self.state@),
                ),
            },
    {
        match self.state.get("mixes") {
            None => {
                let mixes: Vec<ChannelMixState> = Vec::new();
                assert(wire::views(mixes@) =~= Seq::empty());
                Ok(mixes)
            },
            Some(Json::Null) => {
                let mixes: Vec<ChannelMixState> = Vec::new();
                assert(wire::views(mixes@) =~= Seq::empty());
                Ok(mixes)
            },
            Some(value) => match read_list::<ChannelMixState>(value) {
                Ok(mixes) => Ok(mixes),
                Err(fault) => Err(Error::new(ErrorKind::Protocol, fault.as_str())),
            },
        }
    }

    /// Looks up one participating mix by its identifier.
    #[verifier::loop_isolation(false)]
    pub fn mix(&self, id: &MixId) -> (r: Result<Option<ChannelMixState>, Error>)
        ensures
            match mixes_of(self.state@) {
                Some(states) => match first_mix(states, id@) {
                    Some(state) => r matches Ok(Some(mix)) && mix@ == state,
                    None => r matches Ok(None),
                },
                None => r matches Err(error) && error@ == (
                    ErrorKind::Protocol,
                    mixes_fault(self.state@),
                ),
            },
            mixes_of(self.state@) matches Some(states) ==> match r {
                Ok(Some(mix)) => mix@.id == id@ && exists|i: int|
                    0 <= i < states.len() && #[trigger] states[i] == mix@ && forall|j: int|
                        0 <= j < i ==> (#[trigger] states[j]).id != id@,
                Ok(None) => forall|i: int|
                    0 <= i < states.len() ==> (#[trigger] states[i]).id != id@,
                Err(_) => false,
            },
    {
        proof {
            if let Some(states) = mixes_of(self.state@) {
                law_mix_is_the_first_with_its_identifier(states, id@);
            }
        }
        match self.participating_mixes() {
            Err(error) => Err(error),
            Ok(mixes) => {
                let ghost states = wire::views(mixes@);
                assert(states.skip(0) =~= states);
                for mix in it: mixes
                    invariant
                        wire::views(it.seq()) == states,
                        mixes_of(self.state@) == Some(states),
                        first_mix(states, id@) == first_mix(states.skip(it.index() as int), id@),
                {
                    let ghost rest = states.skip(it.index() as int);
                    assert(rest.first() == mix@);
                    assert(rest.drop_first() =~= states.skip(it.index() + 1));
                    if mix.id == *id {
                        return Ok(Some(mix));
                    }
                }
                Ok(None)
            },
        }
    }
}

/// A complete normalized view of the mixer.
#[derive(Clone, Debug, PartialEq)]
pub struct MixerSnapshot {
    pub application: ApplicationInfo,
    pub channels: Vec<Channel>,
    pub mixes: Vec<OutputMix>,
    pub input_devices: Vec<InputDevice>,
    pub output_devices: Vec<OutputDevice>,
}

/// What a snapshot is.
#[verifier::ext_equal]
pub struct SnapshotModel {
    pub application: ApplicationModel,
    pub channels: Seq<EntityModel>,
    pub mixes: Seq<EntityModel>,
    pub input_devices: Seq<EntityModel>,
    pub output_devices: Seq<EntityModel>,
}

impl View for MixerSnapshot {
    type V = SnapshotModel;

    open spec fn view(&self) -> SnapshotModel {
        SnapshotModel {
            application: self.application@,
            channels: wire::views(self.channels@),
            mixes: wire::views(self.mixes@),
            input_devices: wire::views(self.input_devices@),
            output_devices: wire::views(self.output_devices@),
        }
    }
}

/// The parts of a snapshot in a JSON value: the members of an object, or a list
/// of exactly the five parts.
pub open spec fn snapshot_parts(value: JsonModel) -> Option<Seq<JsonModel>> {
    match value {
        JsonModel::Object(members) => if members.contains_key("application"@)
            && members.contains_key("channels"@) && members.contains_key("mixes"@)
            && members.contains_key("inputDevices"@) && members.contains_key("outputDevices"@) {
            Some(
                seq![
                    members["application"@],
                    members["channels"@],
                    members["mixes"@],
                    members["inputDevices"@],
                    members["outputDevices"@],
                ],
            )
        } else {
            None
        },
        JsonModel::Array(items) => if items.len() == 5 {
            Some(items)
        } else {
            None
        },
        _ => None,
    }
}

/// What five parts are as a snapshot.
pub open spec fn snapshot_of_parts(parts: Seq<JsonModel>) -> Option<SnapshotModel> {
    match (
        application_of(parts[0]),
        wire::decoded_list::<Channel>(parts[1]),
        wire::decoded_list::<OutputMix>(parts[2]),
        wire::decoded_list::<InputDevice>(parts[3]),
        wire::decoded_list::<OutputDevice>(parts[4]),
    ) {
        (
            Some(application),
            Some(channels),
            Some(mixes),
            Some(input_devices),
            Some(output_devices),
        ) => Some(
            SnapshotModel { application, channels, mixes, input_devices, output_devices },
        ),
        _ => None,
    }
}

/// What a JSON value is as a snapshot.
pub open spec fn snapshot_of(value: JsonModel) -> Option<SnapshotModel> {
    match snapshot_parts(value) {
        Some(parts) => snapshot_of_parts(parts),
        None => None,
    }
}

/// Reads a snapshot from its five parts.
fn decode_parts(
    application: &Json,
    channels: &Json,
    mixes: &Json,
    input_devices: &Json,
    output_devices: &Json,
) -> (r: Option<MixerSnapshot>)
    ensures
        match r {
            Some(snapshot) => snapshot_of_parts(
                seq![application@, channels@, mixes@, input_devices@, output_devices@],
            ) == Some(snapshot@),
            None => snapshot_of_parts(
                seq![application@, channels@, mixes@, input_devices@, output_devices@],
            ) is None,
        },
{
    match (
        ApplicationInfo::decode(application),
        decode_list::<Channel>(channels),
        decode_list::<OutputMix>(mixes),
        decode_list::<InputDevice>(input_devices),
        decode_list::<OutputDevice>(output_devices),
    ) {
        (
            Some(application),
            Some(channels),
            Some(mixes),
            Some(input_devices),
            Some(output_devices),
        ) => Some(
            MixerSnapshot { application, channels, mixes, input_devices, output_devices },
        ),
        _ => None,
    }
}

impl Decode for MixerSnapshot {
    open spec fn decoded(value: JsonModel) -> Option<SnapshotModel> {
        snapshot_of(value)
    }

    fn decode(value: &Json) -> (r: Option<Self>) {
        match value {
            Json::Object(fields) => match (
                fields.get("application"),
                fields.get("channels"),
                fields.get("mixes"),
                fields.get("inputDevices"),
                fields.get("outputDevices"),
            ) {
                (
                    Some(application),
                    Some(channels),
                    Some(mixes),
                    Some(input_devices),
                    Some(output_devices),
                ) => decode_parts(application, channels, mixes, input_devices, output_devices),
                _ => None,
            },
            Json::Array(items) => {
                if items.len() != 5 {
                    return None;
                }
                let ghost models = value@->Array_0;
                assert(models =~= seq![
                    items@[0]@,
                    items@[1]@,
                    items@[2]@,
                    items@[3]@,
                    items@[4]@,
                ]);
                decode_parts(&items[0], &items[1], &items[2], &items[3], &items[4])
            },
            _ => None,
        }
    }
}

/// What a snapshot is as a JSON value.
pub open spec fn snapshot_json(snapshot: SnapshotModel) -> JsonModel {
    JsonModel::Object(
        Map::<Seq<char>, JsonModel>::empty().insert(
            "application"@,
            application_json(snapshot.application),
        ).insert("channels"@, wire::encoded_list::<Channel>(snapshot.channels)).insert(
            "mixes"@,
            wire::encoded_list::<OutputMix>(snapshot.mixes),
        ).insert(
            "inputDevices"@,
            wire::encoded_list::<InputDevice>(snapshot.input_devices),
        ).insert(
            "outputDevices"@,
            wire::encoded_list::<OutputDevice>(snapshot.output_devices),
        ),
    )
}

impl Encode for MixerSnapshot {
    open spec fn encoded(model: SnapshotModel) -> JsonModel {
        snapshot_json(model)
    }

    fn to_json(&self) -> (r: Json) {
        let mut fields = Fields::new();
        fields.insert("application", self.application.to_json());
        fields.insert("channels", encode_list(&self.channels));
        fields.insert("mixes", encode_list(&self.mixes));
        fields.insert("inputDevices", encode_list(&self.input_devices));
        fields.insert("outputDevices", encode_list(&self.output_devices));
        Json::Object(fields)
    }
}

/// The entities of a list that was read read back after they were written.
proof fn lemma_entity_list_round_trips<T: Decode<V = EntityModel> + Encode>(
    value: JsonModel,
    entities: Seq<EntityModel>,
)
    requires
        wire::decoded_list::<T>(value) == Some(entities),
        forall|v: JsonModel| #[trigger] T::decoded(v) == entity_of(v),
        forall|e: EntityModel| #[trigger] T::encoded(e) == entity_json(e),
    ensures
        wire::decoded_list::<T>(wire::encoded_list::<T>(entities)) == Some(entities),
{
    let items = value->Array_0;
    assert forall|i: int| 0 <= i < entities.len() implies T::decoded(
        T::encoded(#[trigger] entities[i]),
    ) == Some(entities[i]) by {
        assert(T::decoded(items[i]) == Some(entities[i]));
        law_entities_round_trip(items[i], entities[i]);
    }
    wire::law_lists_round_trip::<T>(entities);
}

/// A snapshot that was read reads back after it was written.
pub proof fn law_snapshots_round_trip(value: JsonModel, snapshot: SnapshotModel)
    requires
        snapshot_of(value) == Some(snapshot),
    ensures
        snapshot_of(snapshot_json(snapshot)) == Some(snapshot),
{
    reveal_strlit("application");
    reveal_strlit("channels");
    reveal_strlit("mixes");
    reveal_strlit("inputDevices");
    reveal_strlit("outputDevices");
    assert("application"@.len() == 11 && "channels"@.len() == 8 && "mixes"@.len() == 5
        && "inputDevices"@.len() == 12 && "outputDevices"@.len() == 13);
    let parts = snapshot_parts(value)->0;
    law_application_round_trips(parts[0], snapshot.application);
    lemma_entity_list_round_trips::<Channel>(parts[1], snapshot.channels);
    lemma_entity_list_round_trips::<OutputMix>(parts[2], snapshot.mixes);
    lemma_entity_list_round_trips::<InputDevice>(parts[3], snapshot.input_devices);
    lemma_entity_list_round_trips::<OutputDevice>(parts[4], snapshot.output_devices);
}

/// Additive members are tolerated: a member that an entity does not know lands
/// in its state and changes nothing else.
pub proof fn law_unknown_entity_members_are_kept(
    members: Map<Seq<char>, JsonModel>,
    name: Seq<char>,
    value: JsonModel,
)
    requires
        name != "id"@,
        name != "name"@,
    ensures
        entity_of(JsonModel::Object(members.insert(name, value))) == match entity_of(
            JsonModel::Object(members),
        ) {
            Some(entity) => Some(
                EntityModel { state: entity.state.insert(name, value), ..entity },
            ),
            None => None,
        },
{
    assert(members.insert(name, value).remove("id"@).remove("name"@) =~= members.remove(
        "id"@,
    ).remove("name"@).insert(name, value));
}

/// Additive members are tolerated: a member that application information does
/// not know lands in its extra members and changes nothing else.
pub proof fn law_unknown_application_members_are_kept(
    members: Map<Seq<char>, JsonModel>,
    name: Seq<char>,
    value: JsonModel,
)
    requires
        name != "appId"@,
        name != "applicationVersion"@,
        name != "build"@,
        name != "interfaceRevision"@,
    ensures
        application_of(JsonModel::Object(members.insert(name, value))) == match application_of(
            JsonModel::Object(members),
        ) {
            Some(application) => Some(
                ApplicationModel { extra: application.extra.insert(name, value), ..application },
            ),
            None => None,
        },
{
    assert(members.insert(name, value).remove("appId"@).remove("applicationVersion"@).remove(
        "build"@,
    ).remove("interfaceRevision"@) =~= members.remove("appId"@).remove(
        "applicationVersion"@,
    ).remove("build"@).remove("interfaceRevision"@).insert(name, value));
}

/// Additive members are tolerated: a member that a mix state does not know lands
/// in its extra members and changes nothing else.
pub proof fn law_unknown_mix_state_members_are_kept(
    members: Map<Seq<char>, JsonModel>,
    name: Seq<char>,
    value: JsonModel,
)
    requires
        name != "id"@,
        name != "level"@,
        name != "isMuted"@,
    ensures
        mix_state_of(JsonModel::Object(members.insert(name, value))) == match mix_state_of(
            JsonModel::Object(members),
        ) {
            Some(state) => Some(MixStateModel { extra: state.extra.insert(name, value), ..state }),
            None => None,
        },
{
    assert(members.insert(name, value).remove("id"@).remove("level"@).remove("isMuted"@)
        =~= members.remove("id"@).remove("level"@).remove("isMuted"@).insert(name, value));
}

/// Optional members may be absent or null, which is the same, and else have to be
/// of their type.
pub proof fn law_optional_members_may_be_null(
    value: JsonModel,
    text: Seq<char>,
    b: bool,
    bits: u32,
)
    ensures
        optional_text(None) == Some(None::<Seq<char>>),
        optional_bool(None) == Some(None::<bool>),
        optional_level(None) == Some(None::<u32>),
        optional_value(None) == None::<JsonModel>,
        optional_text(Some(value)) == Some(None::<Seq<char>>) <==> value is Null,
        optional_bool(Some(value)) == Some(None::<bool>) <==> value is Null,
        optional_level(Some(value)) == Some(None::<u32>) <==> value is Null,
        optional_text(Some(value)) == Some(Some(text)) <==> value == JsonModel::Text(text),
        optional_bool(Some(value)) == Some(Some(b)) <==> value == JsonModel::Bool(b),
        optional_level(Some(value)) == Some(Some(bits)) <==> level::level_of(value) == Some(bits),
        optional_text(Some(value)) is None <==> !(value is Null || value is Text),
        optional_bool(Some(value)) is None <==> !(value is Null || value is Bool),
        optional_level(Some(value)) is None <==> !(value is Null) && level::level_of(value) is None,
        optional_value(Some(value)) == (if value is Null {
            None
        } else {
            Some(value)
        }),
{
}

/// What an entity is: an object whose `id` is a text and whose `name`, where there
/// is one that is not null, is a text. Its state is exactly its other members. It
/// is the same for channels, mixes and devices.
pub proof fn law_entities_are_read(value: JsonModel, entity: EntityModel)
    ensures
        Channel::decoded(value) == Some(entity) <==> (value matches JsonModel::Object(members) && {
            &&& members.contains_key("id"@)
            &&& members["id"@] == JsonModel::Text(entity.id)
            &&& match entity.name {
                Some(name) => members.contains_key("name"@) && members["name"@] == JsonModel::Text(
                    name,
                ),
                None => !members.contains_key("name"@) || members["name"@] == JsonModel::Null,
            }
            &&& entity.state == members.remove("id"@).remove("name"@)
        }),
        OutputMix::decoded(value) == Channel::decoded(value),
        InputDevice::decoded(value) == Channel::decoded(value),
        OutputDevice::decoded(value) == Channel::decoded(value),
{
}

/// When an entity is owed: an object with a text `id` and no `name`, a null one or
/// a text is read as an entity, whatever else it holds, and nothing else is.
pub proof fn law_entities_are_owed(value: JsonModel)
    ensures
        Channel::decoded(value) is Some <==> (value matches JsonModel::Object(members)
            && members.contains_key("id"@) && members["id"@] is Text && (!members.contains_key(
            "name"@,
        ) || members["name"@] is Null || members["name"@] is Text)),
{
}

/// An entity is written as its state with its identifier and its name, which is
/// null where there is none. Members of those names in the state stay as they are.
/// It is the same for channels, mixes and devices.
pub proof fn law_entities_are_written(entity: EntityModel, name: Seq<char>)
    ensures
        Channel::encoded(entity) matches JsonModel::Object(members) && {
            &&& members.contains_key("id"@)
            &&& members.contains_key("name"@)
            &&& !entity.state.contains_key("id"@) ==> members["id"@] == JsonModel::Text(entity.id)
            &&& !entity.state.contains_key("name"@) ==> members["name"@] == match entity.name {
                Some(text) => JsonModel::Text(text),
                None => JsonModel::Null,
            }
            &&& entity.state.contains_key(name) ==> members.contains_key(name) && members[name]
                == entity.state[name]
            &&& members.contains_key(name) ==> entity.state.contains_key(name) || name == "id"@
                || name == "name"@
        },
        OutputMix::encoded(entity) == Channel::encoded(entity),
        InputDevice::encoded(entity) == Channel::encoded(entity),
        OutputDevice::encoded(entity) == Channel::encoded(entity),
{
    reveal_strlit("id");
    reveal_strlit("name");
    assert("id"@.len() != "name"@.len());
}

/// What is wrong with a value that is no entity: it is no object of its type, or
/// the first of its identifier and its name is no text, or the identifier is
/// missing.
pub proof fn law_entity_faults_are_told(value: JsonModel, expected: Seq<char>)
    ensures
        Channel::fault(value) == entity_fault(value, "struct Channel"@),
        OutputMix::fault(value) == entity_fault(value, "struct OutputMix"@),
        InputDevice::fault(value) == entity_fault(value, "struct InputDevice"@),
        OutputDevice::fault(value) == entity_fault(value, "struct OutputDevice"@),
        !(value is Object) ==> entity_fault(value, expected) == "invalid type: "@ + wire::sort_of(
            value,
        ) + ", expected "@ + expected,
        value matches JsonModel::Object(members) ==> {
            let bad_id = members.contains_key("id"@) && !(members["id"@] is Text);
            let bad_name = members.contains_key("name"@) && !(members["name"@] is Null
                || members["name"@] is Text);
            &&& bad_id ==> entity_fault(value, expected) == "invalid type: "@ + wire::sort_of(
                members["id"@],
            ) + ", expected "@ + "a string"@
            &&& !bad_id && bad_name ==> entity_fault(value, expected) == "invalid type: "@
                + wire::sort_of(members["name"@]) + ", expected "@ + "a string"@
            &&& !bad_id && !bad_name ==> entity_fault(value, expected) == "missing field `"@
                + "id"@ + "`"@
        },
{
}

/// What application information is: an object whose `interfaceRevision` is a whole
/// number of 32 bits. Its identifier and version are texts where they are there,
/// its build is anything, absent and null count as none, and all other members are
/// kept.
pub proof fn law_application_is_read(value: JsonModel, application: ApplicationModel)
    ensures
        ApplicationInfo::decoded(value) == Some(application) <==> (
        value matches JsonModel::Object(members) && {
            &&& members.contains_key("interfaceRevision"@)
            &&& members["interfaceRevision"@] == JsonModel::Number(
                NumberKind::Unsigned(application.interface_revision as u64),
            )
            &&& match application.app_id {
                Some(text) => members.contains_key("appId"@) && members["appId"@]
                    == JsonModel::Text(text),
                None => !members.contains_key("appId"@) || members["appId"@] == JsonModel::Null,
            }
            &&& match application.application_version {
                Some(text) => members.contains_key("applicationVersion"@)
                    && members["applicationVersion"@] == JsonModel::Text(text),
                None => !members.contains_key("applicationVersion"@)
                    || members["applicationVersion"@] == JsonModel::Null,
            }
            &&& match application.build {
                Some(build) => members.contains_key("build"@) && members["build"@] == build
                    && !(build is Null),
                None => !members.contains_key("build"@) || members["build"@] == JsonModel::Null,
            }
            &&& application.extra == members.remove("appId"@).remove("applicationVersion"@).remove(
                "build"@,
            ).remove("interfaceRevision"@)
        }),
        application_of(value) == ApplicationInfo::decoded(value),
{
}

/// When application information is owed: whatever else an object holds, its
/// revision has to be a whole number of 32 bits, and its identifier and version
/// texts, null or absent.
pub proof fn law_application_is_owed(value: JsonModel)
    ensures
        ApplicationInfo::decoded(value) is Some <==> (value matches JsonModel::Object(members) && {
            &&& members.contains_key("interfaceRevision"@)
            &&& members["interfaceRevision"@] matches JsonModel::Number(NumberKind::Unsigned(n))
                && n <= 0xffff_ffff
            &&& !members.contains_key("appId"@) || members["appId"@] is Null || members["appId"@]
                is Text
            &&& !members.contains_key("applicationVersion"@) || members["applicationVersion"@]
                is Null || members["applicationVersion"@] is Text
        }),
{
}

/// What is wrong with a value that is no application information: it is no object,
/// or the first of its identifier, its version and its revision is of the wrong
/// type or out of range, or the revision is missing.
pub proof fn law_application_faults_are_told(value: JsonModel)
    ensures
        ApplicationInfo::fault(value) == application_fault(value),
        !(value is Object) ==> application_fault(value) == "invalid type: "@ + wire::sort_of(value)
            + ", expected "@ + "struct ApplicationInfo"@,
        value matches JsonModel::Object(members) ==> {
            let bad_id = members.contains_key("appId"@) && !(members["appId"@] is Null
                || members["appId"@] is Text);
            let bad_version = members.contains_key("applicationVersion"@) && !(
            members["applicationVersion"@] is Null || members["applicationVersion"@] is Text);
            let revision = members["interfaceRevision"@];
            &&& bad_id ==> application_fault(value) == "invalid type: "@ + wire::sort_of(
                members["appId"@],
            ) + ", expected "@ + "a string"@
            &&& !bad_id && bad_version ==> application_fault(value) == "invalid type: "@
                + wire::sort_of(members["applicationVersion"@]) + ", expected "@ + "a string"@
            &&& !bad_id && !bad_version ==> if !members.contains_key("interfaceRevision"@) {
                application_fault(value) == "missing field `"@ + "interfaceRevision"@ + "`"@
            } else if (revision matches JsonModel::Number(NumberKind::Unsigned(_))) || (
            revision matches JsonModel::Number(NumberKind::Negative(_))) {
                application_fault(value) == "invalid value: "@ + wire::sort_of(revision)
                    + ", expected "@ + "u32"@
            } else {
                application_fault(value) == "invalid type: "@ + wire::sort_of(revision)
                    + ", expected "@ + "u32"@
            }
        },
{
}

/// Application information is written with all of its members, null where there is
/// none. Its extra members stay as they are, also those of the same names.
pub proof fn law_application_is_written(application: ApplicationModel, name: Seq<char>)
    ensures
        ApplicationInfo::encoded(application) matches JsonModel::Object(members) && {
            &&& members.contains_key("appId"@)
            &&& !application.extra.contains_key("appId"@) ==> members["appId"@]
                == match application.app_id {
                Some(text) => JsonModel::Text(text),
                None => JsonModel::Null,
            }
            &&& members.contains_key("applicationVersion"@)
            &&& !application.extra.contains_key("applicationVersion"@) ==> members["applicationVersion"@]
                == match application.application_version {
                Some(text) => JsonModel::Text(text),
                None => JsonModel::Null,
            }
            &&& members.contains_key("build"@)
            &&& !application.extra.contains_key("build"@) ==> members["build"@]
                == match application.build {
                Some(build) => build,
                None => JsonModel::Null,
            }
            &&& members.contains_key("interfaceRevision"@)
            &&& !application.extra.contains_key("interfaceRevision"@)
                ==> members["interfaceRevision"@] == JsonModel::Number(
                NumberKind::Unsigned(application.interface_revision as u64),
            )
            &&& application.extra.contains_key(name) ==> members.contains_key(name)
                && members[name] == application.extra[name]
            &&& members.contains_key(name) ==> application.extra.contains_key(name) || name
                == "appId"@ || name == "applicationVersion"@ || name == "build"@ || name
                == "interfaceRevision"@
        },
{
    lemma_application_names();
}

/// What a channel's state in a mix is: an object whose `id` is a text. Its `level`
/// is a level and its `isMuted` a truth value where they are there, absent and null
/// count as none, and all other members are kept.
pub proof fn law_mix_states_are_read(value: JsonModel, state: MixStateModel)
    ensures
        ChannelMixState::decoded(value) == Some(state) <==> (
        value matches JsonModel::Object(members) && {
            &&& members.contains_key("id"@)
            &&& members["id"@] == JsonModel::Text(state.id)
            &&& match state.volume {
                Some(bits) => members.contains_key("level"@) && level::level_of(members["level"@])
                    == Some(bits),
                None => !members.contains_key("level"@) || members["level"@] == JsonModel::Null,
            }
            &&& match state.muted {
                Some(muted) => members.contains_key("isMuted"@) && members["isMuted"@]
                    == JsonModel::Bool(muted),
                None => !members.contains_key("isMuted"@) || members["isMuted"@] == JsonModel::Null,
            }
            &&& state.extra == members.remove("id"@).remove("level"@).remove("isMuted"@)
        }),
        mix_state_of(value) == ChannelMixState::decoded(value),
{
}

/// When a mix state is owed: whatever else an object holds, its identifier has to
/// be a text, its level a level and its mute a truth value, the latter two null or
/// absent otherwise.
pub proof fn law_mix_states_are_owed(value: JsonModel)
    ensures
        ChannelMixState::decoded(value) is Some <==> (value matches JsonModel::Object(members) && {
            &&& members.contains_key("id"@)
            &&& members["id"@] is Text
            &&& !members.contains_key("level"@) || members["level"@] is Null || level::level_of(
                members["level"@],
            ) is Some
            &&& !members.contains_key("isMuted"@) || members["isMuted"@] is Null
                || members["isMuted"@] is Bool
        }),
{
}

/// What is wrong with a value that is no mix state: it is no object, or the first
/// of its identifier, its mute and its level is wrong, or the identifier is
/// missing.
pub proof fn law_mix_state_faults_are_told(value: JsonModel)
    ensures
        ChannelMixState::fault(value) == mix_state_fault(value),
        !(value is Object) ==> mix_state_fault(value) == "invalid type: "@ + wire::sort_of(value)
            + ", expected "@ + "struct ChannelMixState"@,
        value matches JsonModel::Object(members) ==> {
            let bad_id = members.contains_key("id"@) && !(members["id"@] is Text);
            let bad_mute = members.contains_key("isMuted"@) && !(members["isMuted"@] is Null
                || members["isMuted"@] is Bool);
            let bad_level = members.contains_key("level"@) && !(members["level"@] is Null)
                && level::level_of(members["level"@]) is None;
            &&& bad_id ==> mix_state_fault(value) == "invalid type: "@ + wire::sort_of(
                members["id"@],
            ) + ", expected "@ + "a string"@
            &&& !bad_id && bad_mute ==> mix_state_fault(value) == "invalid type: "@ + wire::sort_of(
                members["isMuted"@],
            ) + ", expected "@ + "a boolean"@
            &&& !bad_id && !bad_mute && bad_level ==> mix_state_fault(value) == (
            if members["level"@] is Number {
                "invalid value"@ + ": "@ + "volume must be finite and between 0.0 and 1.0"@
            } else {
                "invalid type: "@ + wire::sort_of(members["level"@]) + ", expected "@ + "f32"@
            })
            &&& !bad_id && !bad_mute && !bad_level ==> mix_state_fault(value) == "missing field `"@
                + "id"@ + "`"@
        },
{
}

/// A mix state is written with all of its members, null where there is none. Its
/// extra members stay as they are, also those of the same names.
pub proof fn law_mix_states_are_written(state: MixStateModel, name: Seq<char>)
    ensures
        ChannelMixState::encoded(state) matches JsonModel::Object(members) && {
            &&& members.contains_key("id"@)
            &&& !state.extra.contains_key("id"@) ==> members["id"@] == JsonModel::Text(state.id)
            &&& members.contains_key("level"@)
            &&& !state.extra.contains_key("level"@) ==> members["level"@] == match state.volume {
                Some(bits) => level::level_number(bits),
                None => JsonModel::Null,
            }
            &&& members.contains_key("isMuted"@)
            &&& !state.extra.contains_key("isMuted"@) ==> members["isMuted"@] == match state.muted {
                Some(muted) => JsonModel::Bool(muted),
                None => JsonModel::Null,
            }
            &&& state.extra.contains_key(name) ==> members.contains_key(name) && members[name]
                == state.extra[name]
            &&& members.contains_key(name) ==> state.extra.contains_key(name) || name == "id"@
                || name == "level"@ || name == "isMuted"@
        },
{
    reveal_strlit("id");
    reveal_strlit("level");
    reveal_strlit("isMuted");
    assert("id"@.len() == 2 && "level"@.len() == 5 && "isMuted"@.len() == 7);
}

/// The mixes of a channel: none where the member is absent or null, the items of
/// its list in order where each is a mix state, and malformed in any other case.
pub proof fn law_mixes_are_read(
    state: Map<Seq<char>, JsonModel>,
    value: JsonModel,
    items: Seq<JsonModel>,
    at: int,
)
    ensures
        mixes_of(state.remove("mixes"@)) == Some(Seq::<MixStateModel>::empty()),
        mixes_of(state.insert("mixes"@, JsonModel::Null)) == Some(Seq::<MixStateModel>::empty()),
        !(value is Null || value is Array) ==> mixes_of(state.insert("mixes"@, value)) is None
            && mixes_fault(state.insert("mixes"@, value)) == "invalid type: "@ + wire::sort_of(
            value,
        ) + ", expected "@ + "a sequence"@,
        ({
            let listed = state.insert("mixes"@, JsonModel::Array(items));
            &&& mixes_of(listed) is Some <==> forall|i: int|
                0 <= i < items.len() ==> ChannelMixState::decoded(#[trigger] items[i]) is Some
            &&& mixes_of(listed) matches Some(mixes) ==> mixes.len() == items.len() && (0 <= at
                < items.len() ==> ChannelMixState::decoded(items[at]) == Some(mixes[at]))
            &&& wire::first_malformed::<ChannelMixState>(items, at) ==> mixes_fault(listed)
                == ChannelMixState::fault(items[at])
        }),
{
    wire::law_lists_are_read_item_by_item::<ChannelMixState>(items, at);
}

/// A snapshot is read from five parts, each with its own name or its own place in
/// a list of five, and all of them have to be well-formed.
pub proof fn law_snapshot_parts_are_named(value: JsonModel)
    ensures
        MixerSnapshot::decoded(value) == snapshot_of(value),
        value matches JsonModel::Object(members) ==> {
            let complete = members.contains_key("application"@) && members.contains_key(
                "channels"@,
            ) && members.contains_key("mixes"@) && members.contains_key("inputDevices"@)
                && members.contains_key("outputDevices"@);
            &&& !complete ==> snapshot_of(value) is None
            &&& complete ==> snapshot_of(value) == snapshot_of(
                JsonModel::Array(
                    seq![
                        members["application"@],
                        members["channels"@],
                        members["mixes"@],
                        members["inputDevices"@],
                        members["outputDevices"@],
                    ],
                ),
            )
        },
        value matches JsonModel::Array(parts) ==> {
            &&& parts.len() != 5 ==> snapshot_of(value) is None
            &&& snapshot_of(value) is Some <==> parts.len() == 5 && application_of(parts[0])
                is Some && wire::decoded_list::<Channel>(parts[1]) is Some && wire::decoded_list::<
                OutputMix,
            >(parts[2]) is Some && wire::decoded_list::<InputDevice>(parts[3]) is Some
                && wire::decoded_list::<OutputDevice>(parts[4]) is Some
            &&& snapshot_of(value) matches Some(snapshot) ==> {
                &&& application_of(parts[0]) == Some(snapshot.application)
                &&& wire::decoded_list::<Channel>(parts[1]) == Some(snapshot.channels)
                &&& wire::decoded_list::<OutputMix>(parts[2]) == Some(snapshot.mixes)
                &&& wire::decoded_list::<InputDevice>(parts[3]) == Some(snapshot.input_devices)
                &&& wire::decoded_list::<OutputDevice>(parts[4]) == Some(snapshot.output_devices)
            }
        },
        !(value is Object || value is Array) ==> snapshot_of(value) is None,
{
}

/// A snapshot is written as an object of exactly its five parts under their names.
pub proof fn law_snapshots_are_written(snapshot: SnapshotModel)
    ensures
        MixerSnapshot::encoded(snapshot) matches JsonModel::Object(members) && {
            &&& members.dom() == set![
                "application"@,
                "channels"@,
                "mixes"@,
                "inputDevices"@,
                "outputDevices"@,
            ]
            &&& members["application"@] == ApplicationInfo::encoded(snapshot.application)
            &&& members["channels"@] == wire::encoded_list::<Channel>(snapshot.channels)
            &&& members["mixes"@] == wire::encoded_list::<OutputMix>(snapshot.mixes)
            &&& members["inputDevices"@] == wire::encoded_list::<InputDevice>(
                snapshot.input_devices,
            )
            &&& members["outputDevices"@] == wire::encoded_list::<OutputDevice>(
                snapshot.output_devices,
            )
        },
{
    reveal_strlit("application");
    reveal_strlit("channels");
    reveal_strlit("mixes");
    reveal_strlit("inputDevices");
    reveal_strlit("outputDevices");
    assert("application"@.len() == 11 && "channels"@.len() == 8 && "mixes"@.len() == 5
        && "inputDevices"@.len() == 12 && "outputDevices"@.len() == 13);
    assert(snapshot_json(snapshot)->Object_0.dom() =~= set![
        "application"@,
        "channels"@,
        "mixes"@,
        "inputDevices"@,
        "outputDevices"@,
    ]);
}

/// An optional text is seen as it is, and written as itself or as null.
pub proof fn law_optional_texts_are_seen_as_they_are(text: String, written: Seq<char>)
    ensures
        optional_view(Some(text)) == Some(text@),
        optional_view(None) is None,
        text_or_null(Some(written)) == JsonModel::Text(written),
        text_or_null(None) == JsonModel::Null,
{
}

/// Channels, mixes and devices are seen by their fields: the identifier, the name where
/// there is one, and the state.
pub proof fn law_entities_are_seen_by_their_fields(
    channel: Channel,
    mix: OutputMix,
    input: InputDevice,
    output: OutputDevice,
)
    ensures
        channel@.id == channel.id@,
        channel@.name == optional_view(channel.name),
        channel@.state == channel.state@,
        mix@.id == mix.id@,
        mix@.name == optional_view(mix.name),
        mix@.state == mix.state@,
        input@.id == input.id@,
        input@.name == optional_view(input.name),
        input@.state == input.state@,
        output@.id == output.id@,
        output@.name == optional_view(output.name),
        output@.state == output.state@,
{
}

/// Application information, mix states and snapshots are seen by their fields.
pub proof fn law_models_are_seen_by_their_fields(
    application: ApplicationInfo,
    state: ChannelMixState,
    snapshot: MixerSnapshot,
)
    ensures
        application@.app_id == optional_view(application.app_id),
        application@.application_version == optional_view(application.application_version),
        application.build matches Some(build) ==> application@.build == Some(build@),
        application.build is None ==> application@.build is None,
        application@.interface_revision == application.interface_revision,
        application@.extra == application.extra@,
        state@.id == state.id@,
        state.volume matches Some(volume) ==> state@.volume == Some(volume@),
        state.volume is None ==> state@.volume is None,
        state@.muted == state.muted,
        state@.extra == state.extra@,
        snapshot@.application == snapshot.application@,
        snapshot@.channels == wire::views(snapshot.channels@),
        snapshot@.mixes == wire::views(snapshot.mixes@),
        snapshot@.input_devices == wire::views(snapshot.input_devices@),
        snapshot@.output_devices == wire::views(snapshot.output_devices@),
{
}

} // verus!
