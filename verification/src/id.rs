//! Opaque identifiers that Wave Link assigns.

use vstd::prelude::*;
use vstd::std_specs::cmp::PartialEqSpec;

verus! {

/// Identifies a channel; its view is the text of the identifier.
#[derive(Debug, Hash)]
pub struct ChannelId {
    text: String,
}

impl View for ChannelId {
    type V = Seq<char>;

    closed spec fn view(&self) -> Seq<char> {
        self.text@
    }
}

impl ChannelId {
    #[must_use]
    pub fn new(text: &str) -> (r: Self)
        ensures
            r@ == text@,
    {
        ChannelId { text: text.to_owned() }
    }

    #[must_use]
    pub fn as_str(&self) -> (r: &str)
        ensures
            r@ == self@,
    {
        self.text.as_str()
    }
}

impl Clone for ChannelId {
    fn clone(&self) -> (r: Self)
        ensures
            r@ == self@,
    {
        ChannelId { text: self.text.clone() }
    }
}

impl PartialEq for ChannelId {
    fn eq(&self, other: &Self) -> (r: bool) {
        self.text == other.text
    }
}

impl vstd::std_specs::cmp::PartialEqSpecImpl for ChannelId {
    open spec fn obeys_eq_spec() -> bool {
        true
    }

    open spec fn eq_spec(&self, other: &Self) -> bool {
        self@ == other@
    }
}

impl Eq for ChannelId {

}

/// Identifies an output mix; its view is the text of the identifier.
#[derive(Debug, Hash)]
pub struct MixId {
    text: String,
}

impl View for MixId {
    type V = Seq<char>;

    closed spec fn view(&self) -> Seq<char> {
        self.text@
    }
}

impl MixId {
    #[must_use]
    pub fn new(text: &str) -> (r: Self)
        ensures
            r@ == text@,
    {
        MixId { text: text.to_owned() }
    }

    #[must_use]
    pub fn as_str(&self) -> (r: &str)
        ensures
            r@ == self@,
    {
        self.text.as_str()
    }
}

impl Clone for MixId {
    fn clone(&self) -> (r: Self)
        ensures
            r@ == self@,
    {
        MixId { text: self.text.clone() }
    }
}

impl PartialEq for MixId {
    fn eq(&self, other: &Self) -> (r: bool) {
        self.text == other.text
    }
}

impl vstd::std_specs::cmp::PartialEqSpecImpl for MixId {
    open spec fn obeys_eq_spec() -> bool {
        true
    }

    open spec fn eq_spec(&self, other: &Self) -> bool {
        self@ == other@
    }
}

impl Eq for MixId {

}

/// Identifies an input device; its view is the text of the identifier.
#[derive(Debug, Hash)]
pub struct InputDeviceId {
    text: String,
}

impl View for InputDeviceId {
    type V = Seq<char>;

    closed spec fn view(&self) -> Seq<char> {
        self.text@
    }
}

impl InputDeviceId {
    #[must_use]
    pub fn new(text: &str) -> (r: Self)
        ensures
            r@ == text@,
    {
        InputDeviceId { text: text.to_owned() }
    }

    #[must_use]
    pub fn as_str(&self) -> (r: &str)
        ensures
            r@ == self@,
    {
        self.text.as_str()
    }
}

impl Clone for InputDeviceId {
    fn clone(&self) -> (r: Self)
        ensures
            r@ == self@,
    {
        InputDeviceId { text: self.text.clone() }
    }
}

impl PartialEq for InputDeviceId {
    fn eq(&self, other: &Self) -> (r: bool) {
        self.text == other.text
    }
}

impl vstd::std_specs::cmp::PartialEqSpecImpl for InputDeviceId {
    open spec fn obeys_eq_spec() -> bool {
        true
    }

    open spec fn eq_spec(&self, other: &Self) -> bool {
        self@ == other@
    }
}

impl Eq for InputDeviceId {

}

/// Identifies an output device; its view is the text of the identifier.
#[derive(Debug, Hash)]
pub struct OutputDeviceId {
    text: String,
}

impl View for OutputDeviceId {
    type V = Seq<char>;

    closed spec fn view(&self) -> Seq<char> {
        self.text@
    }
}

impl OutputDeviceId {
    #[must_use]
    pub fn new(text: &str) -> (r: Self)
        ensures
            r@ == text@,
    {
        OutputDeviceId { text: text.to_owned() }
    }

    #[must_use]
    pub fn as_str(&self) -> (r: &str)
        ensures
            r@ == self@,
    {
        self.text.as_str()
    }
}

impl Clone for OutputDeviceId {
    fn clone(&self) -> (r: Self)
        ensures
            r@ == self@,
    {
        OutputDeviceId { text: self.text.clone() }
    }
}

impl PartialEq for OutputDeviceId {
    fn eq(&self, other: &Self) -> (r: bool) {
        self.text == other.text
    }
}

impl vstd::std_specs::cmp::PartialEqSpecImpl for OutputDeviceId {
    open spec fn obeys_eq_spec() -> bool {
        true
    }

    open spec fn eq_spec(&self, other: &Self) -> bool {
        self@ == other@
    }
}

impl Eq for OutputDeviceId {

}

/// Two identifiers are equal exactly when they are spelled the same.
pub proof fn law_identifiers_equal_by_their_text(
    channels: (ChannelId, ChannelId),
    mixes: (MixId, MixId),
    inputs: (InputDeviceId, InputDeviceId),
    outputs: (OutputDeviceId, OutputDeviceId),
)
    ensures
        ChannelId::obeys_eq_spec(),
        MixId::obeys_eq_spec(),
        InputDeviceId::obeys_eq_spec(),
        OutputDeviceId::obeys_eq_spec(),
        channels.0.eq_spec(&channels.1) <==> channels.0@ == channels.1@,
        mixes.0.eq_spec(&mixes.1) <==> mixes.0@ == mixes.1@,
        inputs.0.eq_spec(&inputs.1) <==> inputs.0@ == inputs.1@,
        outputs.0.eq_spec(&outputs.1) <==> outputs.0@ == outputs.1@,
{
}

} // verus!
