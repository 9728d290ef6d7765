//! How models are read from JSON and written as JSON.

use vstd::prelude::*;

use crate::id::{ChannelId, InputDeviceId, MixId, OutputDeviceId};
use crate::json::{Json, JsonModel, NumberKind};

verus! {

/// A type that is read from a JSON value.
pub trait Decode: View + Sized {
    /// What a JSON value is as this type, or nothing where it is malformed.
    spec fn decoded(value: JsonModel) -> Option<Self::V>;

    /// Reads the value.
    fn decode(value: &Json) -> (r: Option<Self>)
        ensures
            match r {
                Some(item) => Self::decoded(value@) == Some(item@),
                None => Self::decoded(value@) is None,
            },
    ;
}

/// What a JSON value is as a list of items. Every item has to be well-formed.
pub open spec fn decoded_list<T: Decode>(value: JsonModel) -> Option<Seq<T::V>> {
    match value {
        JsonModel::Array(items) => if forall|i: int|
            0 <= i < items.len() ==> T::decoded(#[trigger] items[i]) is Some {
            Some(Seq::new(items.len(), |i: int| T::decoded(items[i])->0))
        } else {
            None
        },
        _ => None,
    }
}

/// The views of a list of items.
pub open spec fn views<T: View>(items: Seq<T>) -> Seq<T::V> {
    Seq::new(items.len(), |i: int| items[i]@)
}

/// Reads a list of items.
pub fn decode_list<T: Decode>(value: &Json) -> (r: Option<Vec<T>>)
    ensures
        match r {
            Some(items) => decoded_list::<T>(value@) == Some(views(items@)),
            None => decoded_list::<T>(value@) is None,
        },
{
    match value {
        Json::Array(values) => {
            let ghost models = value@->Array_0;
            let mut items: Vec<T> = Vec::new();
            let mut i: usize = 0;
            while i < values.len()
                invariant
                    i <= values@.len(),
                    value == Json::Array(*values),
                    value@ == JsonModel::Array(models),
                    models.len() == values@.len(),
                    items@.len() == i,
                    forall|j: int|
                        0 <= j < i ==> T::decoded(#[trigger] models[j]) == Some(items@[j]@),
                decreases values@.len() - i,
            {
                assert(models[i as int] == values@[i as int]@);
                match T::decode(&values[i]) {
                    Some(item) => {
                        items.push(item);
                    },
                    None => {
                        return None;
                    },
                }
                i = i + 1;
            }
            assert(decoded_list::<T>(value@)->0 =~= views(items@));
            Some(items)
        },
        _ => None,
    }
}

/// The word for what a JSON value is. It holds nothing of the value itself:
/// diagnostics hold no payload.
pub open spec fn sort_of(value: JsonModel) -> Seq<char> {
    match value {
        JsonModel::Null => "null"@,
        JsonModel::Bool(_) => "boolean"@,
        JsonModel::Number(NumberKind::Double(_)) => "floating point"@,
        JsonModel::Number(_) => "integer"@,
        JsonModel::Text(_) => "string"@,
        JsonModel::Array(_) => "sequence"@,
        JsonModel::Object(_) => "map"@,
    }
}

/// Returns the word for what a JSON value is.
fn sort(value: &Json) -> (r: &'static str)
    ensures
        r@ == sort_of(value@),
{
    match value {
        Json::Null => "null",
        Json::Bool(_) => "boolean",
        Json::Number(number) => match number.kind() {
            NumberKind::Double(_) => "floating point",
            _ => "integer",
        },
        Json::Text(_) => "string",
        Json::Array(_) => "sequence",
        Json::Object(_) => "map",
    }
}

/// The fault of a value that is not of the expected type.
pub open spec fn wrong_type(value: JsonModel, expected: Seq<char>) -> Seq<char> {
    "invalid type: "@ + sort_of(value) + ", expected "@ + expected
}

/// The fault of a value that is of the expected type and out of its range.
pub open spec fn wrong_value(value: JsonModel, expected: Seq<char>) -> Seq<char> {
    "invalid value: "@ + sort_of(value) + ", expected "@ + expected
}

/// The fault of an object without a member that it needs.
pub open spec fn missing_field(name: Seq<char>) -> Seq<char> {
    "missing field `"@ + name + "`"@
}

/// Faults hold no payload: they tell of what sort a value is and nothing of what
/// it says.
pub proof fn law_faults_hold_no_payload(a: JsonModel, b: JsonModel, expected: Seq<char>)
    requires
        sort_of(a) == sort_of(b),
    ensures
        wrong_type(a, expected) == wrong_type(b, expected),
        wrong_value(a, expected) == wrong_value(b, expected),
{
}

/// Describes a value that is not of the expected type.
pub(crate) fn describe_type(value: &Json, expected: &str) -> (r: String)
    ensures
        r@ == wrong_type(value@, expected@),
{
    "invalid type: ".to_owned().concat(sort(value)).concat(", expected ").concat(expected)
}

/// Describes a value that is out of range.
pub(crate) fn describe_value(value: &Json, expected: &str) -> (r: String)
    ensures
        r@ == wrong_value(value@, expected@),
{
    "invalid value: ".to_owned().concat(sort(value)).concat(", expected ").concat(expected)
}

/// Describes a member that is missing.
pub(crate) fn describe_missing(name: &str) -> (r: String)
    ensures
        r@ == missing_field(name@),
{
    "missing field `".to_owned().concat(name).concat("`")
}

/// A type that can tell what is wrong with a malformed value. Members are looked
/// at in the order of their names, and the first fault counts; a missing member
/// comes last.
pub trait Explain: Decode {
    /// What is wrong with a value that is malformed.
    spec fn fault(value: JsonModel) -> Seq<char>;

    /// Tells what is wrong with a value that is malformed.
    fn explain(value: &Json) -> (r: String)
        ensures
            r@ == Self::fault(value@),
    ;
}

/// Whether an item of a list is the first that is malformed.
pub open spec fn first_malformed<T: Decode>(items: Seq<JsonModel>, at: int) -> bool {
    &&& 0 <= at < items.len()
    &&& T::decoded(items[at]) is None
    &&& forall|j: int| 0 <= j < at ==> T::decoded(#[trigger] items[j]) is Some
}

/// What is wrong with a value that is no list of well-formed items: it is no
/// list, or its first malformed item has this fault.
pub open spec fn list_fault<T: Explain>(value: JsonModel) -> Seq<char> {
    match value {
        JsonModel::Array(items) => T::fault(
            items[choose|at: int| first_malformed::<T>(items, at)],
        ),
        _ => wrong_type(value, "a sequence"@),
    }
}

/// Reads a list of items, or tells what is wrong with it.
pub fn read_list<T: Explain>(value: &Json) -> (r: Result<Vec<T>, String>)
    ensures
        match r {
            Ok(items) => decoded_list::<T>(value@) == Some(views(items@)),
            Err(fault) => decoded_list::<T>(value@) is None && fault@ == list_fault::<T>(value@),
        },
{
    match value {
        Json::Array(values) => {
            let ghost models = value@->Array_0;
            let mut items: Vec<T> = Vec::new();
            let mut i: usize = 0;
            while i < values.len()
                invariant
                    i <= values@.len(),
                    value == Json::Array(*values),
                    value@ == JsonModel::Array(models),
                    models.len() == values@.len(),
                    items@.len() == i,
                    forall|j: int|
                        0 <= j < i ==> T::decoded(#[trigger] models[j]) == Some(items@[j]@),
                decreases values@.len() - i,
            {
                assert(models[i as int] == values@[i as int]@);
                match T::decode(&values[i]) {
                    Some(item) => {
                        items.push(item);
                    },
                    None => {
                        proof {
                            assert(first_malformed::<T>(models, i as int));
                            let at = choose|at: int| first_malformed::<T>(models, at);
                            assert(at == i) by {
                                if at < i {
                                    assert(T::decoded(models[at]) is Some);
                                }
                                if i < at {
                                    assert(T::decoded(models[i as int]) is Some);
                                }
                            }
                        }
                        return Err(T::explain(&values[i]));
                    },
                }
                i = i + 1;
            }
            assert(decoded_list::<T>(value@)->0 =~= views(items@));
            Ok(items)
        },
        _ => Err(describe_type(value, "a sequence")),
    }
}

/// A type that is written as a JSON value.
pub trait Encode: View {
    /// What this type is as a JSON value.
    spec fn encoded(model: Self::V) -> JsonModel;

    /// Writes the value.
    fn to_json(&self) -> (r: Json)
        ensures
            r@ == Self::encoded(self@),
    ;
}

/// What a list of items is as a JSON value.
pub open spec fn encoded_list<T: Encode>(models: Seq<T::V>) -> JsonModel {
    JsonModel::Array(Seq::new(models.len(), |i: int| T::encoded(models[i])))
}

/// Writes a list of items.
pub fn encode_list<T: Encode>(items: &Vec<T>) -> (r: Json)
    ensures
        r@ == encoded_list::<T>(views(items@)),
{
    let mut values: Vec<Json> = Vec::new();
    for i in 0..items.len()
        invariant
            values@.len() == i,
            forall|j: int|
                0 <= j < i ==> (#[trigger] values@[j])@ == T::encoded(items@[j]@),
    {
        values.push(items[i].to_json());
    }
    let list = Json::Array(values);
    assert(list@->Array_0 =~= encoded_list::<T>(views(items@))->Array_0);
    list
}

/// The text that a JSON value is, when it is one.
pub open spec fn text_of(value: JsonModel) -> Option<Seq<char>> {
    match value {
        JsonModel::Text(text) => Some(text),
        _ => None,
    }
}

impl Decode for ChannelId {
    open spec fn decoded(value: JsonModel) -> Option<Seq<char>> {
        text_of(value)
    }

    fn decode(value: &Json) -> (r: Option<Self>) {
        match value {
            Json::Text(text) => Some(ChannelId::new(text.as_str())),
            _ => None,
        }
    }
}

impl Encode for ChannelId {
    open spec fn encoded(model: Seq<char>) -> JsonModel {
        JsonModel::Text(model)
    }

    fn to_json(&self) -> (r: Json) {
        Json::Text(self.as_str().to_owned())
    }
}

impl Decode for MixId {
    open spec fn decoded(value: JsonModel) -> Option<Seq<char>> {
        text_of(value)
    }

    fn decode(value: &Json) -> (r: Option<Self>) {
        match value {
            Json::Text(text) => Some(MixId::new(text.as_str())),
            _ => None,
        }
    }
}

impl Encode for MixId {
    open spec fn encoded(model: Seq<char>) -> JsonModel {
        JsonModel::Text(model)
    }

    fn to_json(&self) -> (r: Json) {
        Json::Text(self.as_str().to_owned())
    }
}

impl Decode for InputDeviceId {
    open spec fn decoded(value: JsonModel) -> Option<Seq<char>> {
        text_of(value)
    }

    fn decode(value: &Json) -> (r: Option<Self>) {
        match value {
            Json::Text(text) => Some(InputDeviceId::new(text.as_str())),
            _ => None,
        }
    }
}

impl Encode for InputDeviceId {
    open spec fn encoded(model: Seq<char>) -> JsonModel {
        JsonModel::Text(model)
    }

    fn to_json(&self) -> (r: Json) {
        Json::Text(self.as_str().to_owned())
    }
}

impl Decode for OutputDeviceId {
    open spec fn decoded(value: JsonModel) -> Option<Seq<char>> {
        text_of(value)
    }

    fn decode(value: &Json) -> (r: Option<Self>) {
        match value {
            Json::Text(text) => Some(OutputDeviceId::new(text.as_str())),
            _ => None,
        }
    }
}

impl Encode for OutputDeviceId {
    open spec fn encoded(model: Seq<char>) -> JsonModel {
        JsonModel::Text(model)
    }

    fn to_json(&self) -> (r: Json) {
        Json::Text(self.as_str().to_owned())
    }
}

/// An identifier that was written reads back as the same identifier.
pub proof fn law_identifiers_round_trip(id: Seq<char>)
    ensures
        ChannelId::decoded(ChannelId::encoded(id)) == Some(id),
        MixId::decoded(MixId::encoded(id)) == Some(id),
        InputDeviceId::decoded(InputDeviceId::encoded(id)) == Some(id),
        OutputDeviceId::decoded(OutputDeviceId::encoded(id)) == Some(id),
{
}

/// A list whose items read back reads back as a whole.
pub proof fn law_lists_round_trip<T: Decode + Encode>(models: Seq<<T as View>::V>)
    requires
        forall|i: int|
            0 <= i < models.len() ==> T::decoded(T::encoded(#[trigger] models[i])) == Some(
                models[i],
            ),
    ensures
        decoded_list::<T>(encoded_list::<T>(models)) == Some(models),
{
    let items = encoded_list::<T>(models)->Array_0;
    assert forall|i: int| 0 <= i < items.len() implies T::decoded(#[trigger] items[i]) == Some(
        models[i],
    ) by {
        assert(items[i] == T::encoded(models[i]));
    }
    assert(decoded_list::<T>(encoded_list::<T>(models))->0 =~= models);
}

/// A list is read item by item: what is read is as long as the list, and each of
/// its items is what the value at the same place is. It is malformed as soon as
/// one item is, and then the first of them is what is wrong with it.
pub proof fn law_lists_are_read_item_by_item<T: Explain>(items: Seq<JsonModel>, at: int)
    ensures
        (forall|i: int| 0 <= i < items.len() ==> T::decoded(#[trigger] items[i]) is Some)
            <==> decoded_list::<T>(JsonModel::Array(items)) is Some,
        decoded_list::<T>(JsonModel::Array(items)) matches Some(list) ==> list.len() == items.len()
            && (0 <= at < items.len() ==> T::decoded(items[at]) == Some(list[at])),
        0 <= at < items.len() && T::decoded(items[at]) is None ==> decoded_list::<T>(
            JsonModel::Array(items),
        ) is None,
        0 <= at < items.len() && T::decoded(items[at]) is None && (forall|j: int|
            0 <= j < at ==> T::decoded(#[trigger] items[j]) is Some) ==> list_fault::<T>(
            JsonModel::Array(items),
        ) == T::fault(items[at]),
        first_malformed::<T>(items, at) <==> 0 <= at < items.len() && T::decoded(items[at]) is None
            && (forall|j: int| 0 <= j < at ==> T::decoded(#[trigger] items[j]) is Some),
{
    if first_malformed::<T>(items, at) {
        let chosen = choose|other: int| first_malformed::<T>(items, other);
        assert(first_malformed::<T>(items, chosen));
        if chosen < at {
            assert(T::decoded(items[chosen]) is Some);
        }
        if at < chosen {
            assert(T::decoded(items[at]) is Some);
        }
    }
}

/// What is no list is none, whatever it is, and is told by its sort.
pub proof fn law_only_lists_are_lists<T: Explain>(value: JsonModel)
    requires
        !(value is Array),
    ensures
        decoded_list::<T>(value) is None,
        list_fault::<T>(value) == "invalid type: "@ + sort_of(value) + ", expected "@
            + "a sequence"@,
{
}

/// The views of a list are those of its items, in order.
pub proof fn law_views_are_taken_item_by_item<T: View>()
    ensures
        forall|items: Seq<T>| (#[trigger] views(items)).len() == items.len(),
        forall|items: Seq<T>, i: int|
            #![trigger views(items)[i]]
            #![trigger views(items), items[i]]
            0 <= i < items.len() ==> views(items)[i] == items[i]@,
{
}

/// A list is written item by item, in order.
pub proof fn law_lists_are_written_item_by_item<T: Encode>(models: Seq<T::V>, at: int)
    ensures
        encoded_list::<T>(models) matches JsonModel::Array(items) && items.len() == models.len()
            && (0 <= at < models.len() ==> items[at] == T::encoded(models[at])),
{
}

/// Values are told by their sort, and numbers by whether they are whole.
pub proof fn law_sorts_are_named(value: JsonModel)
    ensures
        match value {
            JsonModel::Null => sort_of(value) == "null"@,
            JsonModel::Bool(_) => sort_of(value) == "boolean"@,
            JsonModel::Number(NumberKind::Unsigned(_)) => sort_of(value) == "integer"@,
            JsonModel::Number(NumberKind::Negative(_)) => sort_of(value) == "integer"@,
            JsonModel::Number(NumberKind::Double(_)) => sort_of(value) == "floating point"@,
            JsonModel::Text(_) => sort_of(value) == "string"@,
            JsonModel::Array(_) => sort_of(value) == "sequence"@,
            JsonModel::Object(_) => sort_of(value) == "map"@,
        },
{
}

/// A fault tells the sort of the value and what was expected, or the name of what
/// is missing.
pub proof fn law_faults_are_worded(value: JsonModel, expected: Seq<char>)
    ensures
        wrong_type(value, expected) == "invalid type: "@ + sort_of(value) + ", expected "@
            + expected,
        wrong_value(value, expected) == "invalid value: "@ + sort_of(value) + ", expected "@
            + expected,
        missing_field(expected) == "missing field `"@ + expected + "`"@,
{
}

/// Identifiers are texts: each text is the identifier that it spells, and nothing
/// else is one.
pub proof fn law_identifiers_are_texts(value: JsonModel, text: Seq<char>)
    ensures
        ChannelId::decoded(value) == Some(text) <==> value == JsonModel::Text(text),
        MixId::decoded(value) == Some(text) <==> value == JsonModel::Text(text),
        InputDeviceId::decoded(value) == Some(text) <==> value == JsonModel::Text(text),
        OutputDeviceId::decoded(value) == Some(text) <==> value == JsonModel::Text(text),
        ChannelId::encoded(text) == JsonModel::Text(text),
        MixId::encoded(text) == JsonModel::Text(text),
        InputDeviceId::encoded(text) == JsonModel::Text(text),
        OutputDeviceId::encoded(text) == JsonModel::Text(text),
{
}

} // verus!
