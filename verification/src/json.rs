//! JSON values of the wire protocol.

use vstd::prelude::*;
use vstd::std_specs::cmp::PartialEqSpec;

use serde_json::Value;

use crate::error::{Error, ErrorKind};
use crate::float_bits;
use crate::json_codec;
use crate::json_codec::Node;
use crate::text;
use crate::text::same_text;

verus! {

/// The three forms in which a JSON number is held.
#[derive(Clone, Copy, Debug, PartialEq, Eq, Structural)]
pub enum NumberKind {
    /// An integer that is not negative.
    Unsigned(u64),
    /// A negative integer.
    Negative(i64),
    /// The bits of a finite double-precision number.
    Double(u64),
}

/// What a JSON value is, independent of how it is stored: an object is a map
/// from names to values.
#[verifier::ext_equal]
pub enum JsonModel {
    Null,
    Bool(bool),
    Number(NumberKind),
    Text(Seq<char>),
    Array(Seq<JsonModel>),
    Object(Map<Seq<char>, JsonModel>),
}

/// Whether a number is held in its proper form.
pub open spec fn proper_number(kind: NumberKind) -> bool {
    match kind {
        NumberKind::Unsigned(_) => true,
        NumberKind::Negative(value) => value < 0,
        NumberKind::Double(bits) => float_bits::double_finite(bits),
    }
}

/// A JSON number; its view is the form in which it is held.
#[derive(Clone, Copy, Debug)]
pub struct JsonNumber {
    kind: NumberKind,
}

impl View for JsonNumber {
    type V = NumberKind;

    closed spec fn view(&self) -> NumberKind {
        self.kind
    }
}

impl JsonNumber {
    #[verifier::type_invariant]
    spec fn well_formed(self) -> bool {
        proper_number(self.kind)
    }

    /// Makes a number from an integer that is not negative.
    pub fn unsigned(value: u64) -> (r: Self)
        ensures
            r@ == NumberKind::Unsigned(value),
    {
        JsonNumber { kind: NumberKind::Unsigned(value) }
    }

    /// Makes a number from an integer.
    pub fn signed(value: i64) -> (r: Self)
        ensures
            r@ == (if value < 0 {
                NumberKind::Negative(value)
            } else {
                NumberKind::Unsigned(value as u64)
            }),
    {
        if value < 0 {
            JsonNumber { kind: NumberKind::Negative(value) }
        } else {
            JsonNumber { kind: NumberKind::Unsigned(value as u64) }
        }
    }

    /// Makes a number from the bits of a double. Infinities and NaNs are not
    /// JSON numbers.
    pub fn double(bits: u64) -> (r: Option<Self>)
        ensures
            match r {
                Some(number) => float_bits::double_finite(bits) && number@ == NumberKind::Double(
                    bits,
                ),
                None => !float_bits::double_finite(bits),
            },
    {
        if float_bits::is_finite_double(bits) {
            Some(JsonNumber { kind: NumberKind::Double(bits) })
        } else {
            None
        }
    }

    /// Returns the form in which the number is held.
    pub fn kind(&self) -> (r: NumberKind)
        ensures
            r == self@,
            proper_number(r),
    {
        proof {
            use_type_invariant(self);
        }
        self.kind
    }
}

/// A JSON value.
#[derive(Debug)]
pub enum Json {
    Null,
    Bool(bool),
    Number(JsonNumber),
    Text(String),
    Array(Vec<Json>),
    Object(Fields),
}

/// The members of a JSON object; the view is the map from names to values.
#[derive(Debug)]
pub struct Fields {
    entries: Vec<(String, Json)>,
}

/// The map that a list of members makes. A later member replaces an earlier one
/// of the same name.
pub open spec fn members_model(entries: Seq<(String, Json)>) -> Map<Seq<char>, JsonModel>
    decreases entries,
{
    if entries.len() == 0 {
        Map::empty()
    } else {
        members_model(entries.drop_last()).insert(entries.last().0@, entries.last().1.model())
    }
}

impl Json {
    /// What this value is.
    pub open spec fn model(self) -> JsonModel
        decreases self,
    {
        match self {
            Json::Null => JsonModel::Null,
            Json::Bool(value) => JsonModel::Bool(value),
            Json::Number(number) => JsonModel::Number(number@),
            Json::Text(text) => JsonModel::Text(text@),
            Json::Array(items) => JsonModel::Array(
                Seq::new(
                    items@.len(),
                    |i: int|
                        if 0 <= i < items@.len() {
                            items@[i].model()
                        } else {
                            JsonModel::Null
                        },
                ),
            ),
            Json::Object(fields) => JsonModel::Object(fields.model()),
        }
    }
}

impl Fields {
    /// The map from names to values.
    pub closed spec fn model(self) -> Map<Seq<char>, JsonModel>
        decreases self,
    {
        members_model(self.entries@)
    }
}

impl View for Json {
    type V = JsonModel;

    open spec fn view(&self) -> JsonModel {
        self.model()
    }
}

impl View for Fields {
    type V = Map<Seq<char>, JsonModel>;

    open spec fn view(&self) -> Map<Seq<char>, JsonModel> {
        self.model()
    }
}

/// Whether no two members have the same name.
pub open spec fn distinct_names(entries: Seq<(String, Json)>) -> bool {
    forall|i: int, j: int|
        0 <= i < j < entries.len() ==> (#[trigger] entries[i]).0@ != (#[trigger] entries[j]).0@
}

/// A name is in the map exactly when some member has it.
proof fn lemma_member_names(entries: Seq<(String, Json)>, name: Seq<char>)
    ensures
        members_model(entries).contains_key(name) <==> exists|i: int|
            0 <= i < entries.len() && (#[trigger] entries[i]).0@ == name,
    decreases entries.len(),
{
    if entries.len() > 0 {
        let rest = entries.drop_last();
        lemma_member_names(rest, name);
        if entries.last().0@ == name {
            assert(entries[entries.len() - 1].0@ == name);
        }
        if members_model(rest).contains_key(name) {
            let i = choose|i: int| 0 <= i < rest.len() && (#[trigger] rest[i]).0@ == name;
            assert(entries[i].0@ == name);
        }
        if exists|i: int| 0 <= i < entries.len() && (#[trigger] entries[i]).0@ == name {
            let i = choose|i: int| 0 <= i < entries.len() && (#[trigger] entries[i]).0@ == name;
            if i < entries.len() - 1 {
                assert(rest[i].0@ == name);
            }
        }
    }
}

/// The map holds each member's value under its name.
proof fn lemma_member_value(entries: Seq<(String, Json)>, i: int)
    requires
        distinct_names(entries),
        0 <= i < entries.len(),
    ensures
        members_model(entries).contains_key(entries[i].0@),
        members_model(entries)[entries[i].0@] == entries[i].1.model(),
    decreases entries.len(),
{
    if i < entries.len() - 1 {
        let rest = entries.drop_last();
        assert(rest[i] == entries[i]);
        assert(distinct_names(rest)) by {
            assert forall|a: int, b: int| 0 <= a < b < rest.len() implies (#[trigger] rest[a]).0@ != (
            #[trigger] rest[b]).0@ by {
                assert(entries[a].0@ != entries[b].0@);
            }
        }
        lemma_member_value(rest, i);
        assert(entries[i].0@ != entries[entries.len() - 1].0@);
    }
}

/// Taking out one member takes its name out of the map and changes nothing
/// else.
proof fn lemma_member_removed(entries: Seq<(String, Json)>, at: int)
    requires
        distinct_names(entries),
        0 <= at < entries.len(),
    ensures
        distinct_names(entries.remove(at)),
        members_model(entries.remove(at)) == members_model(entries).remove(entries[at].0@),
{
    let rest = entries.remove(at);
    let name = entries[at].0@;
    assert forall|a: int, b: int| 0 <= a < b < rest.len() implies (#[trigger] rest[a]).0@ != (
    #[trigger] rest[b]).0@ by {
        let x = if a < at {
            a
        } else {
            a + 1
        };
        let y = if b < at {
            b
        } else {
            b + 1
        };
        assert(rest[a] == entries[x]);
        assert(rest[b] == entries[y]);
        assert(entries[x].0@ != entries[y].0@);
    }
    let before = members_model(entries).remove(name);
    let after = members_model(rest);
    assert forall|key: Seq<char>| #[trigger]
        after.dom().contains(key) == before.dom().contains(key) && (after.dom().contains(key)
            ==> after[key] == before[key]) by {
        lemma_member_names(entries, key);
        lemma_member_names(rest, key);
        if after.contains_key(key) {
            let i = choose|i: int| 0 <= i < rest.len() && (#[trigger] rest[i]).0@ == key;
            let x = if i < at {
                i
            } else {
                i + 1
            };
            assert(rest[i] == entries[x]);
            assert(entries[x].0@ != entries[at].0@);
            lemma_member_value(rest, i);
            lemma_member_value(entries, x);
        }
        if before.contains_key(key) {
            let x = choose|i: int| 0 <= i < entries.len() && (#[trigger] entries[i]).0@ == key;
            let i = if x < at {
                x
            } else {
                x - 1
            };
            assert(rest[i] == entries[x]);
        }
    }
    assert(after.dom() =~= before.dom());
    assert(after =~= before);
}

/// There are as many names in the map as there are members.
proof fn lemma_member_count(entries: Seq<(String, Json)>)
    requires
        distinct_names(entries),
    ensures
        members_model(entries).dom().finite(),
        members_model(entries).dom().len() == entries.len(),
    decreases entries.len(),
{
    if entries.len() > 0 {
        let rest = entries.drop_last();
        assert(distinct_names(rest)) by {
            assert forall|a: int, b: int| 0 <= a < b < rest.len() implies (#[trigger] rest[a]).0@
                != (#[trigger] rest[b]).0@ by {
                assert(entries[a].0@ != entries[b].0@);
            }
        }
        lemma_member_count(rest);
        lemma_member_names(rest, entries.last().0@);
        if members_model(rest).contains_key(entries.last().0@) {
            let i = choose|i: int|
                0 <= i < rest.len() && (#[trigger] rest[i]).0@ == entries.last().0@;
            assert(entries[i].0@ != entries[entries.len() - 1].0@);
        }
        assert(members_model(entries).dom() =~= members_model(rest).dom().insert(
            entries.last().0@,
        ));
    } else {
        assert(members_model(entries).dom() =~= Set::<Seq<char>>::empty());
    }
}

/// Whether a list holds this name.
pub open spec fn lists_name(names: Seq<String>, name: Seq<char>) -> bool {
    exists|i: int| 0 <= i < names.len() && (#[trigger] names[i])@ == name
}

/// Whether a list of names ascends.
pub open spec fn ascending(names: Seq<String>) -> bool {
    forall|i: int, j: int|
        0 <= i < j < names.len() ==> text::precedes((#[trigger] names[i])@, (#[trigger] names[j])@)
}

/// A new name that is put behind the names that precede it leaves a list
/// ascending.
proof fn lemma_insert_ascending(names: Seq<String>, at: int, name: String)
    requires
        ascending(names),
        0 <= at <= names.len(),
        !lists_name(names, name@),
        forall|j: int| 0 <= j < at ==> text::precedes((#[trigger] names[j])@, name@),
        at < names.len() ==> !text::precedes(names[at]@, name@),
    ensures
        ascending(names.insert(at, name)),
        forall|other: Seq<char>| #[trigger]
            lists_name(names.insert(at, name), other) <==> lists_name(names, other) || other
                == name@,
{
    let longer = names.insert(at, name);
    if at < names.len() {
        assert(names[at]@ != name@);
        text::lemma_precedes_total(names[at]@, name@);
    }
    assert forall|i: int, j: int| 0 <= i < j < longer.len() implies text::precedes(
        (#[trigger] longer[i])@,
        (#[trigger] longer[j])@,
    ) by {
        if i == at {
            if j - 1 > at {
                assert(text::precedes(names[at]@, names[j - 1]@));
                text::lemma_precedes_transitive(name@, names[at]@, names[j - 1]@);
            }
        } else if j == at {
            assert(longer[i] == names[i]);
        } else {
            let x = if i < at {
                i
            } else {
                i - 1
            };
            let y = if j < at {
                j
            } else {
                j - 1
            };
            assert(longer[i] == names[x]);
            assert(longer[j] == names[y]);
        }
    }
    assert forall|other: Seq<char>| #[trigger]
        lists_name(longer, other) <==> lists_name(names, other) || other == name@ by {
        assert(longer[at] == name);
        if lists_name(names, other) {
            let i = choose|i: int| 0 <= i < names.len() && (#[trigger] names[i])@ == other;
            assert(longer[if i < at {
                i
            } else {
                i + 1
            }]@ == other);
        }
        if lists_name(longer, other) {
            let i = choose|i: int| 0 <= i < longer.len() && (#[trigger] longer[i])@ == other;
            if i != at {
                assert(names[if i < at {
                    i
                } else {
                    i - 1
                }]@ == other);
            }
        }
    }
}

impl Fields {
    #[verifier::type_invariant]
    spec fn well_formed(self) -> bool {
        distinct_names(self.entries@)
    }

    /// Makes an object without members.
    pub fn new() -> (r: Self)
        ensures
            r@ == Map::<Seq<char>, JsonModel>::empty(),
    {
        Fields { entries: Vec::new() }
    }

    /// Finds the position of the member with this name.
    fn position(&self, name: &str) -> (r: Option<usize>)
        ensures
            match r {
                Some(i) => i < self.entries@.len() && self.entries@[i as int].0@ == name@
                    && self@.contains_key(name@) && self@[name@]
                    == self.entries@[i as int].1.model(),
                None => !self@.contains_key(name@),
            },
    {
        proof {
            use_type_invariant(self);
            lemma_member_names(self.entries@, name@);
        }
        let mut i: usize = 0;
        while i < self.entries.len()
            invariant
                i <= self.entries@.len(),
                distinct_names(self.entries@),
                forall|j: int| 0 <= j < i ==> (#[trigger] self.entries@[j]).0@ != name@,
            decreases self.entries@.len() - i,
        {
            if same_text(self.entries[i].0.as_str(), name) {
                proof {
                    lemma_member_value(self.entries@, i as int);
                }
                return Some(i);
            }
            i = i + 1;
        }
        None
    }

    /// Looks a member up by its name.
    pub fn get(&self, name: &str) -> (r: Option<&Json>)
        ensures
            match r {
                Some(value) => self@.contains_key(name@) && value@ == self@[name@],
                None => !self@.contains_key(name@),
            },
    {
        match self.position(name) {
            Some(i) => Some(&self.entries[i].1),
            None => None,
        }
    }

    /// Returns whether there is a member with this name.
    pub fn contains_key(&self, name: &str) -> (r: bool)
        ensures
            r == self@.contains_key(name@),
    {
        self.position(name).is_some()
    }

    /// Returns how many members there are.
    pub fn len(&self) -> (r: usize)
        ensures
            self@.dom().finite(),
            r == self@.dom().len(),
    {
        proof {
            use_type_invariant(self);
            lemma_member_count(self.entries@);
        }
        self.entries.len()
    }

    /// Returns the names of all members, in ascending order.
    pub fn names(&self) -> (r: Vec<String>)
        ensures
            forall|i: int, j: int|
                0 <= i < j < r@.len() ==> text::precedes(
                    (#[trigger] r@[i])@,
                    (#[trigger] r@[j])@,
                ),
            forall|name: Seq<char>|
                self@.contains_key(name) <==> #[trigger] lists_name(r@, name),
    {
        proof {
            use_type_invariant(self);
        }
        let mut names: Vec<String> = Vec::new();
        let mut k: usize = 0;
        while k < self.entries.len()
            invariant
                k <= self.entries@.len(),
                distinct_names(self.entries@),
                ascending(names@),
                forall|name: Seq<char>| #[trigger]
                    lists_name(names@, name) <==> exists|j: int|
                        0 <= j < k && (#[trigger] self.entries@[j]).0@ == name,
            decreases self.entries@.len() - k,
        {
            let ghost before = names@;
            let name: String = self.entries[k].0.clone();
            let ghost added = name;
            let mut at: usize = 0;
            assert(!lists_name(before, name@)) by {
                if lists_name(before, name@) {
                    let j = choose|j: int|
                        0 <= j < k && (#[trigger] self.entries@[j]).0@ == name@;
                    assert(self.entries@[j].0@ != self.entries@[k as int].0@);
                }
            }
            while at < names.len() && text::text_precedes(names[at].as_str(), name.as_str())
                invariant
                    at <= names@.len(),
                    names@ == before,
                    forall|j: int| 0 <= j < at ==> text::precedes((#[trigger] before[j])@, name@),
                ensures
                    at <= names@.len(),
                    names@ == before,
                    forall|j: int| 0 <= j < at ==> text::precedes((#[trigger] before[j])@, name@),
                    at < before.len() ==> !text::precedes(before[at as int]@, name@),
                decreases names@.len() - at,
            {
                at = at + 1;
            }
            names.insert(at, name);
            proof {
                lemma_insert_ascending(before, at as int, added);
                assert forall|other: Seq<char>| #[trigger]
                    lists_name(names@, other) <==> exists|j: int|
                        0 <= j < k + 1 && (#[trigger] self.entries@[j]).0@ == other by {
                    assert(self.entries@[k as int].0@ == added@);
                    if lists_name(names@, other) && other != added@ {
                        assert(lists_name(before, other));
                        let j = choose|j: int|
                            0 <= j < k && (#[trigger] self.entries@[j]).0@ == other;
                        assert(self.entries@[j].0@ == other);
                    }
                    if exists|j: int| 0 <= j < k + 1 && (#[trigger] self.entries@[j]).0@ == other {
                        let j = choose|j: int|
                            0 <= j < k + 1 && (#[trigger] self.entries@[j]).0@ == other;
                        if j < k {
                            assert(lists_name(before, other));
                        }
                    }
                }
            }
            k = k + 1;
        }
        proof {
            assert forall|name: Seq<char>|
                self@.contains_key(name) <==> #[trigger] lists_name(names@, name) by {
                lemma_member_names(self.entries@, name);
            }
        }
        names
    }

    /// Takes the member with this name out, if there is one.
    pub fn remove(&mut self, name: &str) -> (r: Option<Json>)
        ensures
            final(self)@ == old(self)@.remove(name@),
            match r {
                Some(value) => old(self)@.contains_key(name@) && value@ == old(self)@[name@],
                None => !old(self)@.contains_key(name@),
            },
    {
        match self.position(name) {
            Some(i) => {
                proof {
                    use_type_invariant(&*self);
                    lemma_member_removed(self.entries@, i as int);
                }
                let mut entries: Vec<(String, Json)> = Vec::new();
                std::mem::swap(&mut entries, &mut self.entries);
                let (_, value) = entries.remove(i);
                self.entries = entries;
                Some(value)
            },
            None => {
                assert(self@.remove(name@) =~= self@);
                None
            },
        }
    }

    /// Sets the member with this name, replacing the value that it had.
    pub fn insert(&mut self, name: &str, value: Json)
        ensures
            final(self)@ == old(self)@.insert(name@, value@),
    {
        let ghost before = self@;
        let _ = self.remove(name);
        proof {
            use_type_invariant(&*self);
            lemma_member_names(self.entries@, name@);
            assert(before.remove(name@).insert(name@, value@) =~= before.insert(name@, value@));
        }
        let mut entries: Vec<(String, Json)> = Vec::new();
        std::mem::swap(&mut entries, &mut self.entries);
        let ghost shorter = entries@;
        entries.push((name.to_owned(), value));
        assert(entries@.drop_last() =~= shorter);
        self.entries = entries;
    }
}

/// The member of an object with this name; other values have no members.
pub open spec fn member(value: JsonModel, name: Seq<char>) -> Option<JsonModel> {
    match value {
        JsonModel::Object(members) => if members.contains_key(name) {
            Some(members[name])
        } else {
            None
        },
        _ => None,
    }
}

/// What an optional value is.
pub open spec fn viewed(value: Option<&Json>) -> Option<JsonModel> {
    match value {
        Some(value) => Some(value@),
        None => None,
    }
}

/// The integer that a value is, when it is one that is not negative.
pub open spec fn unsigned_of(value: JsonModel) -> Option<u64> {
    match value {
        JsonModel::Number(NumberKind::Unsigned(n)) => Some(n),
        _ => None,
    }
}

/// The truth value that a value is, when it is one.
pub open spec fn bool_of(value: JsonModel) -> Option<bool> {
    match value {
        JsonModel::Bool(b) => Some(b),
        _ => None,
    }
}

/// Whether two numbers are equal. Integers and doubles never are, and the two
/// zeros of the doubles are.
pub open spec fn same_number(a: NumberKind, b: NumberKind) -> bool {
    a == b || match (a, b) {
        (NumberKind::Double(x), NumberKind::Double(y)) => float_bits::double_pattern(x) == 0
            && float_bits::double_pattern(y) == 0,
        _ => false,
    }
}

/// Whether two values are equal.
pub open spec fn same_json(a: JsonModel, b: JsonModel) -> bool
    decreases a,
{
    match (a, b) {
        (JsonModel::Null, JsonModel::Null) => true,
        (JsonModel::Bool(x), JsonModel::Bool(y)) => x == y,
        (JsonModel::Number(x), JsonModel::Number(y)) => same_number(x, y),
        (JsonModel::Text(x), JsonModel::Text(y)) => x == y,
        (JsonModel::Array(x), JsonModel::Array(y)) => {
            &&& x.len() == y.len()
            &&& forall|i: int| 0 <= i < x.len() ==> same_json(#[trigger] x[i], y[i])
        },
        (JsonModel::Object(x), JsonModel::Object(y)) => {
            &&& x.dom() == y.dom()
            &&& forall|name: Seq<char>|
                x.contains_key(name) ==> same_json(#[trigger] x[name], y[name])
        },
        _ => false,
    }
}

/// Decides whether two numbers are equal.
fn numbers_equal(a: NumberKind, b: NumberKind) -> (r: bool)
    ensures
        r == same_number(a, b),
{
    match (a, b) {
        (NumberKind::Unsigned(x), NumberKind::Unsigned(y)) => x == y,
        (NumberKind::Negative(x), NumberKind::Negative(y)) => x == y,
        (NumberKind::Double(x), NumberKind::Double(y)) => x == y || (x == 0 || x
            == float_bits::DOUBLE_SIGN) && (y == 0 || y == float_bits::DOUBLE_SIGN),
        _ => false,
    }
}

impl Json {
    /// Looks up the member of an object with this name.
    pub fn get(&self, name: &str) -> (r: Option<&Json>)
        ensures
            viewed(r) == member(self@, name@),
    {
        match self {
            Json::Object(fields) => fields.get(name),
            _ => None,
        }
    }

    /// Returns the integer that this value is, if it is one that is not
    /// negative.
    pub fn as_u64(&self) -> (r: Option<u64>)
        ensures
            r == unsigned_of(self@),
    {
        match self {
            Json::Number(number) => match number.kind() {
                NumberKind::Unsigned(value) => Some(value),
                _ => None,
            },
            _ => None,
        }
    }

    /// Returns the truth value that this value is, if it is one.
    pub fn as_bool(&self) -> (r: Option<bool>)
        ensures
            r == bool_of(self@),
    {
        match self {
            Json::Bool(value) => Some(*value),
            _ => None,
        }
    }

    /// Decides whether two values are equal.
    fn equals(&self, other: &Json) -> (r: bool)
        ensures
            r == same_json(self@, other@),
        decreases self,
    {
        match (self, other) {
            (Json::Null, Json::Null) => true,
            (Json::Bool(x), Json::Bool(y)) => *x == *y,
            (Json::Number(x), Json::Number(y)) => numbers_equal(x.kind(), y.kind()),
            (Json::Text(x), Json::Text(y)) => *x == *y,
            (Json::Array(x), Json::Array(y)) => {
                if x.len() != y.len() {
                    return false;
                }
                let mut i: usize = 0;
                while i < x.len()
                    invariant
                        i <= x@.len() == y@.len(),
                        self == Json::Array(*x),
                        other == Json::Array(*y),
                        self@ matches JsonModel::Array(a) && other@ matches JsonModel::Array(b)
                            && forall|j: int| 0 <= j < i ==> same_json(#[trigger] a[j], b[j]),
                    decreases x@.len() - i,
                {
                    assert(decreases_to!(self => x@[i as int]));
                    if !x[i].equals(&y[i]) {
                        assert(self@ matches JsonModel::Array(a) && a[i as int] == x@[i as int]@);
                        assert(other@ matches JsonModel::Array(b) && b[i as int] == y@[i as int]@);
                        return false;
                    }
                    i = i + 1;
                }
                true
            },
            (Json::Object(x), Json::Object(y)) => x.equals(y),
            _ => false,
        }
    }
}

impl Fields {
    /// Decides whether two objects have the same names with equal values.
    fn equals(&self, other: &Fields) -> (r: bool)
        ensures
            r == same_json(JsonModel::Object(self@), JsonModel::Object(other@)),
        decreases self,
    {
        proof {
            use_type_invariant(self);
            use_type_invariant(other);
        }
        let mut i: usize = 0;
        while i < self.entries.len()
            invariant
                i <= self.entries@.len(),
                distinct_names(self.entries@),
                forall|j: int|
                    #![trigger self.entries@[j]]
                    0 <= j < i ==> other@.contains_key(self.entries@[j].0@) && same_json(
                        self.entries@[j].1@,
                        other@[self.entries@[j].0@],
                    ),
            decreases self.entries@.len() - i,
        {
            proof {
                lemma_member_value(self.entries@, i as int);
            }
            match other.get(self.entries[i].0.as_str()) {
                Some(value) => {
                    assert(decreases_to!(self => self.entries@[i as int].1));
                    if !self.entries[i].1.equals(value) {
                        return false;
                    }
                },
                None => {
                    return false;
                },
            }
            i = i + 1;
        }
        let mut k: usize = 0;
        while k < other.entries.len()
            invariant
                k <= other.entries@.len(),
                distinct_names(other.entries@),
                forall|j: int|
                    0 <= j < k ==> self@.contains_key((#[trigger] other.entries@[j]).0@),
            decreases other.entries@.len() - k,
        {
            proof {
                lemma_member_value(other.entries@, k as int);
            }
            if self.get(other.entries[k].0.as_str()).is_none() {
                return false;
            }
            k = k + 1;
        }
        proof {
            assert forall|name: Seq<char>|
                self@.dom().contains(name) == other@.dom().contains(name) by {
                lemma_member_names(self.entries@, name);
                lemma_member_names(other.entries@, name);
            }
            assert(self@.dom() =~= other@.dom());
            assert forall|name: Seq<char>| self@.contains_key(name) implies same_json(
                #[trigger] self@[name],
                other@[name],
            ) by {
                lemma_member_names(self.entries@, name);
                let j = choose|j: int|
                    0 <= j < self.entries@.len() && (#[trigger] self.entries@[j]).0@ == name;
                lemma_member_value(self.entries@, j);
            }
        }
        true
    }
}

impl PartialEq for Json {
    fn eq(&self, other: &Self) -> (r: bool) {
        self.equals(other)
    }
}

impl vstd::std_specs::cmp::PartialEqSpecImpl for Json {
    open spec fn obeys_eq_spec() -> bool {
        true
    }

    open spec fn eq_spec(&self, other: &Self) -> bool {
        same_json(self@, other@)
    }
}

impl PartialEq for Fields {
    fn eq(&self, other: &Self) -> (r: bool) {
        self.equals(other)
    }
}

impl vstd::std_specs::cmp::PartialEqSpecImpl for Fields {
    open spec fn obeys_eq_spec() -> bool {
        true
    }

    open spec fn eq_spec(&self, other: &Self) -> bool {
        same_json(JsonModel::Object(self@), JsonModel::Object(other@))
    }
}

impl Clone for Json {
    fn clone(&self) -> (r: Self)
        ensures
            r@ == self@,
        decreases self,
    {
        match self {
            Json::Null => Json::Null,
            Json::Bool(value) => Json::Bool(*value),
            Json::Number(number) => Json::Number(*number),
            Json::Text(text) => Json::Text(text.clone()),
            Json::Array(items) => {
                let mut copy: Vec<Json> = Vec::new();
                let mut i: usize = 0;
                while i < items.len()
                    invariant
                        i <= items@.len(),
                        copy@.len() == i,
                        self == Json::Array(*items),
                        forall|j: int| 0 <= j < i ==> (#[trigger] copy@[j])@ == items@[j]@,
                    decreases items@.len() - i,
                {
                    assert(decreases_to!(self->Array_0 => items@[i as int]));
                    copy.push(items[i].clone());
                    i = i + 1;
                }
                let copied = Json::Array(copy);
                assert(copied@->Array_0 =~= self@->Array_0);
                copied
            },
            Json::Object(fields) => Json::Object(fields.clone()),
        }
    }
}

impl Clone for Fields {
    fn clone(&self) -> (r: Self)
        ensures
            r@ == self@,
        decreases self,
    {
        proof {
            use_type_invariant(self);
        }
        let mut copy: Vec<(String, Json)> = Vec::new();
        let mut i: usize = 0;
        while i < self.entries.len()
            invariant
                i <= self.entries@.len(),
                copy@.len() == i,
                distinct_names(self.entries@),
                forall|j: int|
                    0 <= j < i ==> (#[trigger] copy@[j]).0@ == self.entries@[j].0@ && copy@[j].1@
                        == self.entries@[j].1@,
                members_model(copy@) == members_model(self.entries@.take(i as int)),
            decreases self.entries@.len() - i,
        {
            assert(decreases_to!(self => self.entries@[i as int].1));
            let ghost before = copy@;
            copy.push((self.entries[i].0.clone(), self.entries[i].1.clone()));
            assert(copy@.drop_last() =~= before);
            assert(self.entries@.take(i + 1).drop_last() =~= self.entries@.take(i as int));
            i = i + 1;
        }
        assert(self.entries@.take(i as int) =~= self.entries@);
        Fields { entries: copy }
    }
}

impl Json {
    /// Takes over a value of `serde_json`.
    fn import(value: Value) -> (r: Json)
        ensures
            r@ == json_codec::json_of(value),
        decreases json_codec::json_of(value),
    {
        let ghost whole = json_codec::json_of(value);
        match json_codec::open_value(value) {
            Node::Null => Json::Null,
            Node::Bool(b) => Json::Bool(b),
            Node::Number(number) => Json::Number(import_number(&number)),
            Node::Text(text) => Json::Text(text),
            Node::Array(values) => {
                let ghost all = values@;
                let mut items: Vec<Json> = Vec::new();
                for item in it: values
                    invariant
                        it.seq() == all,
                        whole == json_codec::json_of(value),
                        whole == JsonModel::Array(
                            Seq::new(all.len(), |i: int| json_codec::json_of(all[i])),
                        ),
                        items@.len() == it.index(),
                        forall|j: int|
                            0 <= j < items@.len() ==> (#[trigger] items@[j])@
                                == json_codec::json_of(all[j]),
                {
                    assert(whole->Array_0[it.index() as int] == json_codec::json_of(item));
                    assert(decreases_to!(whole => whole->Array_0[it.index() as int]));
                    items.push(Json::import(item));
                }
                let result = Json::Array(items);
                assert(result@->Array_0 =~= whole->Array_0);
                result
            },
            Node::Object(values) => {
                let ghost all = values@;
                let ghost members = whole->Object_0;
                let mut fields = Fields::new();
                for entry in it: values
                    invariant
                        it.seq() == all,
                        whole == json_codec::json_of(value),
                        whole == JsonModel::Object(members),
                        json_codec::holds_members(members, all),
                        forall|j: int|
                            0 <= j < it.index() ==> fields@.contains_key((#[trigger] all[j]).0@)
                                && fields@[all[j].0@] == json_codec::json_of(all[j].1),
                        forall|name: Seq<char>| #[trigger]
                            fields@.contains_key(name) ==> exists|j: int|
                                0 <= j < it.index() && (#[trigger] all[j]).0@ == name,
                {
                    let ghost at = it.index() as int;
                    let (name, inner) = entry;
                    assert(all[at] == (name, inner));
                    assert(members.contains_key(name@) && members[name@] == json_codec::json_of(
                        inner,
                    ));
                    assert(decreases_to!(whole => whole->Object_0[name@]));
                    let ghost before = fields@;
                    fields.insert(name.as_str(), Json::import(inner));
                    assert forall|j: int| 0 <= j < at implies before[(#[trigger] all[j]).0@]
                        == fields@[all[j].0@] by {
                        assert(all[j].0@ != all[at].0@);
                    }
                    assert forall|key: Seq<char>| #[trigger] fields@.contains_key(key) implies exists|
                        j: int,
                    | 0 <= j < at + 1 && (#[trigger] all[j]).0@ == key by {
                        if key == name@ {
                            assert(all[at].0@ == key);
                        } else {
                            assert(before.contains_key(key));
                        }
                    }
                }
                assert(fields@ =~= members) by {
                    assert(fields@.dom() =~= members.dom());
                }
                Json::Object(fields)
            },
        }
    }
}

/// Takes over a number of `serde_json`.
fn import_number(value: &Value) -> (r: JsonNumber)
    requires
        json_codec::json_of(*value) is Number,
    ensures
        JsonModel::Number(r@) == json_codec::json_of(*value),
{
    match json_codec::value_as_u64(value) {
        Some(n) => JsonNumber::unsigned(n),
        None => match json_codec::value_as_i64(value) {
            Some(n) => JsonNumber::signed(n),
            None => match json_codec::value_as_double(value) {
                Some(bits) => JsonNumber { kind: NumberKind::Double(bits) },
                None => JsonNumber::unsigned(0),
            },
        },
    }
}

/// Hands a number to `serde_json`.
fn export_number(number: &JsonNumber) -> (r: Value)
    ensures
        json_codec::json_of(r) == JsonModel::Number(number@),
{
    match number.kind() {
        NumberKind::Unsigned(n) => json_codec::value_from_unsigned(n),
        NumberKind::Negative(n) => json_codec::value_from_negative(n),
        NumberKind::Double(bits) => json_codec::value_from_double(bits),
    }
}

impl Json {
    /// Hands the value to `serde_json`.
    fn export(&self) -> (r: Value)
        ensures
            json_codec::json_of(r) == self@,
        decreases self,
    {
        match self {
            Json::Null => json_codec::close_value(Node::Null),
            Json::Bool(b) => json_codec::close_value(Node::Bool(*b)),
            Json::Number(number) => export_number(number),
            Json::Text(text) => json_codec::close_value(Node::Text(text.clone())),
            Json::Array(items) => {
                let mut values: Vec<Value> = Vec::new();
                let mut i: usize = 0;
                while i < items.len()
                    invariant
                        i <= items@.len(),
                        values@.len() == i,
                        self == Json::Array(*items),
                        forall|j: int|
                            0 <= j < i ==> json_codec::json_of(#[trigger] values@[j])
                                == items@[j]@,
                    decreases items@.len() - i,
                {
                    assert(decreases_to!(self->Array_0 => items@[i as int]));
                    values.push(items[i].export());
                    i = i + 1;
                }
                let ghost all = values@;
                let result = json_codec::close_value(Node::Array(values));
                assert(Seq::new(all.len(), |j: int| json_codec::json_of(all[j]))
                    =~= self@->Array_0);
                result
            },
            Json::Object(fields) => {
                let values = fields.export();
                let ghost all = values@;
                let result = json_codec::close_value(Node::Object(values));
                proof {
                    let made = json_codec::json_of(result)->Object_0;
                    lemma_same_members(made, fields@, all);
                }
                result
            },
        }
    }

    /// Renders the value as compact JSON text. A text value parses back as
    /// itself.
    #[must_use]
    pub fn to_text(&self) -> (r: String)
        ensures
            r@ == json_codec::rendered(self@),
            self@ is Text ==> json_codec::parsed(r@) == Ok::<JsonModel, Seq<char>>(self@),
    {
        json_codec::value_to_text(&self.export())
    }
}

/// Two maps that hold the same members are the same.
proof fn lemma_same_members(
    a: Map<Seq<char>, JsonModel>,
    b: Map<Seq<char>, JsonModel>,
    entries: Seq<(String, Value)>,
)
    requires
        json_codec::holds_members(a, entries),
        json_codec::holds_members(b, entries),
    ensures
        a == b,
{
    assert(a.dom() =~= b.dom());
    assert(a =~= b);
}

impl Fields {
    /// Hands the members to `serde_json`.
    fn export(&self) -> (r: Vec<(String, Value)>)
        ensures
            json_codec::holds_members(self@, r@),
        decreases self,
    {
        proof {
            use_type_invariant(self);
        }
        let mut values: Vec<(String, Value)> = Vec::new();
        let mut i: usize = 0;
        while i < self.entries.len()
            invariant
                i <= self.entries@.len(),
                values@.len() == i,
                distinct_names(self.entries@),
                forall|j: int|
                    0 <= j < i ==> (#[trigger] values@[j]).0@ == self.entries@[j].0@
                        && json_codec::json_of(values@[j].1) == self.entries@[j].1@,
            decreases self.entries@.len() - i,
        {
            assert(decreases_to!(self => self.entries@[i as int].1));
            values.push((self.entries[i].0.clone(), self.entries[i].1.export()));
            i = i + 1;
        }
        proof {
            assert forall|a: int, b: int| 0 <= a < b < values@.len() implies (
            #[trigger] values@[a]).0@ != (#[trigger] values@[b]).0@ by {
                assert(self.entries@[a].0@ != self.entries@[b].0@);
            }
            assert forall|j: int| 0 <= j < values@.len() implies self@.contains_key(
                (#[trigger] values@[j]).0@,
            ) && self@[values@[j].0@] == json_codec::json_of(values@[j].1) by {
                lemma_member_value(self.entries@, j);
            }
            assert forall|name: Seq<char>| #[trigger] self@.contains_key(name) implies exists|
                j: int,
            | 0 <= j < values@.len() && (#[trigger] values@[j]).0@ == name by {
                lemma_member_names(self.entries@, name);
                let j = choose|j: int|
                    0 <= j < self.entries@.len() && (#[trigger] self.entries@[j]).0@ == name;
                assert(values@[j].0@ == name);
            }
        }
        values
    }
}

/// Parses JSON text. Text that is not JSON is an [`ErrorKind::Protocol`] error
/// with the parser's message.
pub fn parse_json(text: &str) -> (r: Result<Json, Error>)
    ensures
        match (r, json_codec::parsed(text@)) {
            (Ok(value), Ok(model)) => value@ == model,
            (Err(error), Err(message)) => error@ == (ErrorKind::Protocol, message),
            _ => false,
        },
{
    match json_codec::value_from_text(text) {
        Ok(value) => Ok(Json::import(value)),
        Err(message) => Err(Error::new(ErrorKind::Protocol, message.as_str())),
    }
}

/// Members are found by their name: an object has exactly its own, and no other
/// value has any. A member that is set is found, and leaves the others as they were.
pub proof fn law_members_are_found_by_name(
    value: JsonModel,
    members: Map<Seq<char>, JsonModel>,
    name: Seq<char>,
    other: Seq<char>,
)
    ensures
        !(value is Object) ==> member(value, name) is None,
        members.contains_key(name) ==> member(JsonModel::Object(members), name) == Some(
            members[name],
        ),
        !members.contains_key(name) ==> member(JsonModel::Object(members), name) is None,
        member(JsonModel::Object(members.insert(name, value)), name) == Some(value),
        name != other ==> member(JsonModel::Object(members.insert(name, value)), other) == member(
            JsonModel::Object(members),
            other,
        ),
        member(JsonModel::Object(members.remove(name)), name) is None,
{
}

/// A value counts as an integer that is not negative, or as a truth value, exactly
/// when it is one.
pub proof fn law_values_are_of_one_sort(value: JsonModel, number: u64, b: bool)
    ensures
        unsigned_of(value) == Some(number) <==> value == JsonModel::Number(
            NumberKind::Unsigned(number),
        ),
        bool_of(value) == Some(b) <==> value == JsonModel::Bool(b),
{
}

/// What a value is, is what it holds.
pub proof fn law_values_are_what_they_hold(value: Json, at: int)
    ensures
        match value {
            Json::Null => value@ == JsonModel::Null,
            Json::Bool(b) => value@ == JsonModel::Bool(b),
            Json::Number(number) => value@ == JsonModel::Number(number@),
            Json::Text(text) => value@ == JsonModel::Text(text@),
            Json::Array(items) => value@ matches JsonModel::Array(models) && models.len()
                == items@.len() && (0 <= at < items@.len() ==> models[at] == items@[at]@),
            Json::Object(fields) => value@ == JsonModel::Object(fields@),
        },
{
}

/// Every value equals itself.
pub proof fn law_values_equal_themselves(value: JsonModel)
    ensures
        same_json(value, value),
    decreases value,
{
    match value {
        JsonModel::Array(items) => {
            assert forall|i: int| 0 <= i < items.len() implies same_json(
                #[trigger] items[i],
                items[i],
            ) by {
                law_values_equal_themselves(items[i]);
            }
        },
        JsonModel::Object(members) => {
            assert forall|name: Seq<char>| members.contains_key(name) implies same_json(
                #[trigger] members[name],
                members[name],
            ) by {
                law_values_equal_themselves(members[name]);
            }
        },
        _ => {},
    }
}

/// Values are equal when they are of the same sort and equal in all of their parts.
/// Numbers are equal when they are held in the same form with the same value, and
/// the two zeros among the doubles are.
pub proof fn law_equality_goes_by_the_parts(a: JsonModel, b: JsonModel)
    ensures
        same_json(a, b) <==> match (a, b) {
            (JsonModel::Null, JsonModel::Null) => true,
            (JsonModel::Bool(x), JsonModel::Bool(y)) => x == y,
            (JsonModel::Text(x), JsonModel::Text(y)) => x == y,
            (JsonModel::Number(x), JsonModel::Number(y)) => x == y || match (x, y) {
                (NumberKind::Double(p), NumberKind::Double(q)) => (p == 0 || p
                    == 0x8000_0000_0000_0000) && (q == 0 || q == 0x8000_0000_0000_0000),
                _ => false,
            },
            (JsonModel::Array(x), JsonModel::Array(y)) => x.len() == y.len() && forall|i: int|
                0 <= i < x.len() ==> same_json(#[trigger] x[i], y[i]),
            (JsonModel::Object(x), JsonModel::Object(y)) => x.dom() == y.dom() && forall|
                name: Seq<char>,
            |
                x.contains_key(name) ==> same_json(#[trigger] x[name], y[name]),
            _ => false,
        },
{
}

/// Two values of the JSON type are equal exactly when what they are is equal, and
/// two objects when their members are.
pub proof fn law_equality_is_that_of_the_model(a: Json, b: Json, x: Fields, y: Fields)
    ensures
        Json::obeys_eq_spec(),
        Fields::obeys_eq_spec(),
        a.eq_spec(&b) <==> same_json(a@, b@),
        x.eq_spec(&y) <==> same_json(JsonModel::Object(x@), JsonModel::Object(y@)),
{
}

/// A value that may be there is seen exactly when it is.
pub proof fn law_values_are_seen_as_they_are(value: Json)
    ensures
        viewed(Some(&value)) == Some(value@),
        viewed(None) is None,
{
}

} // verus!
