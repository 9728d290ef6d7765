//! Typed building blocks for an unofficial Wave Link RPC SDK.
//!
//! The library holds everything the SDK decides: validated values, the mixer
//! model, the JSON-RPC exchange, compatibility gating, batches, fades and the
//! connection lifecycle. It performs no I/O. A driver owns the socket and the
//! clock, feeds what it observes into the library and carries out the steps
//! that the library answers with.

pub mod bound;
pub mod capability;
pub mod discovery;
pub mod duration;
pub mod error;
pub mod fade;
pub mod float_bits;
pub mod forms;
pub mod id;
pub mod json;
pub mod json_codec;
pub mod level;
pub mod lifecycle;
pub mod live;
pub mod mutation;
pub mod snapshot;
pub mod text;
pub mod transport;
pub mod value;
pub mod wire;

pub use capability::{Capabilities, ReadCapability, WriteCapability};
pub use discovery::{Discovery, Endpoint, Metadata, PACKAGE_LOCAL_STATE};
pub use duration::Duration;
pub use error::{Error, ErrorKind};
pub use fade::{Fade, FadeCurve, FadeInput, FadeOptions, FadeTarget, FadeTask, Fades};
pub use id::{ChannelId, InputDeviceId, MixId, OutputDeviceId};
pub use json::{parse_json, Fields, Json, JsonNumber};
pub use lifecycle::{Admission, ConnectionState, Effect, Event, Input, Lifecycle, Received, Task};
pub use mutation::{Batch, BatchResult, Operation, OperationResult, OperationStatus};
pub use snapshot::{
    ApplicationInfo, Channel, ChannelMixState, InputDevice, MixerSnapshot, OutputDevice, OutputMix,
};
pub use transport::{
    Compatibility, Incoming, Notice, Request, Requests, SnapshotProgress, SnapshotReader,
    WaveLinkClient,
};
pub use value::{Gain, MixBalance, MuteState, Volume};
pub use wire::{decode_list, encode_list, read_list, Decode, Encode, Explain};
