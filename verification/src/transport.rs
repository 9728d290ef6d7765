//! The JSON-RPC exchange and the compatibility gate.

use vstd::prelude::*;

use crate::capability::{Capabilities, ReadCapability, WriteCapability};
use crate::duration::Duration;
use crate::error::{Error, ErrorKind};
use crate::json;
use crate::json::{Fields, Json, JsonModel, JsonNumber, NumberKind};
use crate::json_codec;
use crate::mutation::Operation;
use crate::snapshot;
use crate::snapshot::{
    ApplicationInfo, Channel, InputDevice, MixerSnapshot, OutputDevice, OutputMix,
};
use crate::wire;
use crate::wire::{Decode, Explain};

verus! {

/// The origin that Wave Link expects of its clients.
pub const ORIGIN_VALUE: &'static str = "streamdeck://";

/// What an error is: its kind and its context.
pub type ErrorModel = (ErrorKind, Seq<char>);

/// How far the SDK understands a Wave Link interface.
#[derive(Clone, Copy, Debug, PartialEq, Eq, Structural)]
pub enum Compatibility {
    Revision2,
    ReadOnlyUnknownRevision(u32),
}

impl Compatibility {
    /// Returns whether writes are allowed.
    #[must_use]
    pub fn writes_allowed(self) -> (r: bool)
        ensures
            r == (self == Compatibility::Revision2),
    {
        match self {
            Compatibility::Revision2 => true,
            Compatibility::ReadOnlyUnknownRevision(_) => false,
        }
    }
}

/// Wraps a failure of the transport.
pub fn map_transport(reason: &str) -> (r: Error)
    ensures
        r@ == (ErrorKind::Transport, reason@),
{
    Error::new(ErrorKind::Transport, reason)
}

/// Returns how long a request may take.
pub fn request_timeout() -> (r: Duration)
    ensures
        r@ == 5_000_000_000,
{
    Duration::from_secs(5)
}

/// Returns how long a close handshake may take.
pub fn close_timeout() -> (r: Duration)
    ensures
        r@ == 500_000_000,
{
    Duration::from_millis(500)
}

/// The object that asks for a method.
pub open spec fn request_model(id: u64, method: Seq<char>, params: JsonModel) -> JsonModel {
    JsonModel::Object(
        Map::<Seq<char>, JsonModel>::empty().insert("jsonrpc"@, JsonModel::Text("2.0"@)).insert(
            "id"@,
            JsonModel::Number(NumberKind::Unsigned(id)),
        ).insert("method"@, JsonModel::Text(method)).insert("params"@, params),
    )
}

/// Numbers the requests of one connection; the view is the next number.
#[derive(Debug)]
pub struct Requests {
    next_id: u64,
}

impl View for Requests {
    type V = u64;

    closed spec fn view(&self) -> u64 {
        self.next_id
    }
}

/// A request that waits for its response.
#[derive(Debug)]
pub struct Request {
    id: u64,
    method: String,
    text: String,
}

impl Request {
    /// The number that its response carries.
    pub closed spec fn spec_id(self) -> u64 {
        self.id
    }

    /// The method that it asks for.
    pub closed spec fn spec_method(self) -> Seq<char> {
        self.method@
    }

    /// The text to send.
    pub closed spec fn spec_text(self) -> Seq<char> {
        self.text@
    }
}

impl Requests {
    /// Starts the numbers of a connection.
    #[must_use]
    pub fn new() -> (r: Self)
        ensures
            r@ == 1,
    {
        Requests { next_id: 1 }
    }

    /// Opens a connection: its first request asks what Wave Link is, before
    /// anything else is known.
    #[must_use]
    pub fn open() -> (r: (Self, Request))
        ensures
            r.0@ == 2,
            r.1.spec_id() == 1,
            r.1.spec_method() == "getApplicationInfo"@,
            r.1.spec_text() == json_codec::rendered(
                request_model(1, "getApplicationInfo"@, JsonModel::Null),
            ),
    {
        (Requests { next_id: 2 }, request(1, "getApplicationInfo", Json::Null))
    }

    /// Makes a request. Its number was not used on this connection before. When
    /// the numbers run out this is an [`ErrorKind::Protocol`] error.
    pub fn begin(&mut self, method: &str, params: Json) -> (r: Result<Request, Error>)
        ensures
            match r {
                Ok(request) => {
                    &&& old(self)@ < u64::MAX
                    &&& final(self)@ == old(self)@ + 1
                    &&& request.spec_id() == old(self)@
                    &&& request.spec_method() == method@
                    &&& request.spec_text() == json_codec::rendered(
                        request_model(old(self)@, method@, params@),
                    )
                },
                Err(error) => {
                    &&& old(self)@ == u64::MAX
                    &&& final(self)@ == old(self)@
                    &&& error@ == (ErrorKind::Protocol, "JSON-RPC request ID space exhausted"@)
                },
            },
    {
        let id: u64 = self.next_id;
        if id == u64::MAX {
            return Err(Error::new(ErrorKind::Protocol, "JSON-RPC request ID space exhausted"));
        }
        self.next_id = id + 1;
        Ok(request(id, method, params))
    }
}

/// Makes the request with this number.
fn request(id: u64, method: &str, params: Json) -> (r: Request)
    ensures
        r.spec_id() == id,
        r.spec_method() == method@,
        r.spec_text() == json_codec::rendered(request_model(id, method@, params@)),
{
    let mut fields = Fields::new();
    fields.insert("jsonrpc", Json::Text("2.0".to_owned()));
    fields.insert("id", Json::Number(JsonNumber::unsigned(id)));
    fields.insert("method", Json::Text(method.to_owned()));
    fields.insert("params", params);
    let text = Json::Object(fields).to_text();
    Request { id, method: method.to_owned(), text }
}

/// What the transport delivers.
#[derive(Debug)]
pub enum Incoming {
    /// A text message.
    Text(String),
    /// A ping with its payload.
    Ping(Vec<u8>),
    /// A close message.
    Close,
    /// Any other message.
    Other,
    /// A failure, for this reason.
    Failed(String),
    /// The end of the connection.
    Ended,
}

/// The context of an error about a connection that ended.
pub open spec fn closed_error() -> ErrorModel {
    (ErrorKind::Transport, "Wave Link closed the connection"@)
}

/// The error of a request that Wave Link answered with an error. What the answer
/// says is not part of it: diagnostics hold no payload.
pub open spec fn refused_error() -> ErrorModel {
    (ErrorKind::Protocol, "Wave Link answered with an error"@)
}

/// The answer that a JSON value is to the request with this number. Nothing
/// means that it is no answer to that request.
pub open spec fn response_to(id: u64, value: JsonModel) -> Option<Result<JsonModel, ErrorModel>> {
    if (match json::member(value, "id"@) {
        Some(number) => json::unsigned_of(number),
        None => None,
    }) != Some(id) {
        None
    } else {
        match (json::member(value, "error"@), json::member(value, "result"@)) {
            (Some(_), _) => Some(Err(refused_error())),
            (None, Some(result)) => Some(Ok(result)),
            (None, None) => Some(
                Err((ErrorKind::Protocol, "JSON-RPC response omitted result"@)),
            ),
        }
    }
}

/// The answer that what was delivered is to the request with this number.
pub open spec fn answer_to(id: u64, incoming: Incoming) -> Option<Result<JsonModel, ErrorModel>> {
    match incoming {
        Incoming::Ended => Some(Err(closed_error())),
        Incoming::Failed(reason) => Some(Err((ErrorKind::Transport, reason@))),
        Incoming::Text(text) => match json_codec::parsed(text@) {
            Ok(value) => response_to(id, value),
            Err(message) => Some(Err((ErrorKind::Protocol, message))),
        },
        _ => None,
    }
}

/// What an answer is.
pub open spec fn answer_view(answer: Option<Result<Json, Error>>) -> Option<
    Result<JsonModel, ErrorModel>,
> {
    match answer {
        None => None,
        Some(Ok(value)) => Some(Ok(value@)),
        Some(Err(error)) => Some(Err(error@)),
    }
}

impl Request {
    /// Returns the number that the response carries.
    #[must_use]
    pub fn id(&self) -> (r: u64)
        ensures
            r == self.spec_id(),
    {
        self.id
    }

    /// Returns the text to send.
    #[must_use]
    pub fn text(&self) -> (r: &str)
        ensures
            r@ == self.spec_text(),
    {
        self.text.as_str()
    }

    /// Decides whether what was delivered ends the wait, and with what answer.
    pub fn receive(&self, incoming: Incoming) -> (r: Option<Result<Json, Error>>)
        ensures
            answer_view(r) == answer_to(self.spec_id(), incoming),
    {
        match incoming {
            Incoming::Ended => Some(Err(map_transport("Wave Link closed the connection"))),
            Incoming::Failed(reason) => Some(Err(map_transport(reason.as_str()))),
            Incoming::Text(text) => match json::parse_json(text.as_str()) {
                Ok(value) => self.respond(value),
                Err(error) => Some(Err(error)),
            },
            _ => None,
        }
    }

    /// Decides whether a JSON value answers this request, and how.
    pub fn respond(&self, value: Json) -> (r: Option<Result<Json, Error>>)
        ensures
            answer_view(r) == response_to(self.spec_id(), value@),
    {
        let number: Option<u64> = match value.get("id") {
            Some(number) => number.as_u64(),
            None => None,
        };
        match number {
            None => {
                return None;
            },
            Some(number) => {
                if number != self.id {
                    return None;
                }
            },
        }
        match value.get("error") {
            Some(_) => Some(
                Err(Error::new(ErrorKind::Protocol, "Wave Link answered with an error")),
            ),
            None => match value.get("result") {
                Some(result) => Some(Ok(result.clone())),
                None => Some(
                    Err(Error::new(ErrorKind::Protocol, "JSON-RPC response omitted result")),
                ),
            },
        }
    }

    /// Returns the error of a request that was not answered in time.
    pub fn timed_out(&self) -> (r: Error)
        ensures
            r@ == (ErrorKind::Timeout, self.spec_method() + " timed out"@),
    {
        Error::new(
            ErrorKind::Timeout,
            self.method.clone().concat(" timed out").as_str(),
        )
    }
}

/// What a client that waits for notifications does with what was delivered.
#[derive(Debug)]
pub enum Notice {
    /// Nothing: it waits on.
    Ignored,
    /// It answers a ping with a pong of this payload and waits on.
    Pong(Vec<u8>),
    /// Something changed: the wait is over.
    Changed,
    /// The wait is over with this error.
    Failed(Error),
}

/// Whether a JSON value is a notification: it names a method and carries no
/// number.
pub open spec fn is_notification_model(value: JsonModel) -> bool {
    json::member(value, "id"@) is None && json::member(value, "method"@) is Some
}

/// Decides whether a JSON value is a notification.
pub fn is_notification(value: &Json) -> (r: bool)
    ensures
        r == is_notification_model(value@),
        r == (value@ matches JsonModel::Object(members) && !members.contains_key("id"@)
            && members.contains_key("method"@)),
{
    value.get("id").is_none() && value.get("method").is_some()
}

/// Decides what a client that waits for notifications does with what was
/// delivered.
pub fn notice(incoming: Incoming) -> (r: Notice)
    ensures
        match incoming {
            Incoming::Ended => r matches Notice::Failed(error) && error@ == closed_error(),
            Incoming::Close => r matches Notice::Failed(error) && error@ == closed_error(),
            Incoming::Failed(reason) => r matches Notice::Failed(error) && error@ == (
                ErrorKind::Transport,
                reason@,
            ),
            Incoming::Ping(payload) => r == Notice::Pong(payload),
            Incoming::Other => r == Notice::Ignored,
            Incoming::Text(text) => match json_codec::parsed(text@) {
                Ok(value) => r == (if is_notification_model(value) {
                    Notice::Changed
                } else {
                    Notice::Ignored
                }),
                Err(message) => r matches Notice::Failed(error) && error@ == (
                    ErrorKind::Protocol,
                    message,
                ),
            },
        },
{
    match incoming {
        Incoming::Ended => Notice::Failed(map_transport("Wave Link closed the connection")),
        Incoming::Close => Notice::Failed(map_transport("Wave Link closed the connection")),
        Incoming::Failed(reason) => Notice::Failed(map_transport(reason.as_str())),
        Incoming::Ping(payload) => Notice::Pong(payload),
        Incoming::Other => Notice::Ignored,
        Incoming::Text(text) => match json::parse_json(text.as_str()) {
            Ok(value) => if is_notification(&value) {
                Notice::Changed
            } else {
                Notice::Ignored
            },
            Err(error) => Notice::Failed(error),
        },
    }
}

/// The items of a collection response: the response itself where it is a list,
/// else the member of the given name.
pub open spec fn collection_items(
    method: Seq<char>,
    wrapper: Seq<char>,
    value: JsonModel,
) -> Result<JsonModel, ErrorModel> {
    match value {
        JsonModel::Array(_) => Ok(value),
        JsonModel::Object(members) => if members.contains_key(wrapper) {
            Ok(members[wrapper])
        } else {
            Err((ErrorKind::Protocol, method + " response omitted "@ + wrapper))
        },
        _ => Err((ErrorKind::Protocol, method + " returned a non-collection result"@)),
    }
}

/// What a collection response is as a list of typed items.
pub open spec fn collection_of<T: Explain>(
    method: Seq<char>,
    wrapper: Seq<char>,
    value: JsonModel,
) -> Result<Seq<T::V>, ErrorModel> {
    match collection_items(method, wrapper, value) {
        Err(error) => Err(error),
        Ok(items) => match wire::decoded_list::<T>(items) {
            Some(list) => Ok(list),
            None => Err((ErrorKind::Protocol, wire::list_fault::<T>(items))),
        },
    }
}

/// Reads a collection response. Both a bare list and an object that wraps it
/// are understood.
pub fn read_collection<T: Explain>(method: &str, wrapper: &str, value: Json) -> (r: Result<
    Vec<T>,
    Error,
>)
    ensures
        match r {
            Ok(items) => collection_of::<T>(method@, wrapper@, value@) == Ok::<
                Seq<T::V>,
                ErrorModel,
            >(wire::views(items@)),
            Err(error) => collection_of::<T>(method@, wrapper@, value@) == Err::<
                Seq<T::V>,
                ErrorModel,
            >(error@),
        },
{
    let items: Json = match value {
        Json::Array(values) => Json::Array(values),
        Json::Object(fields) => {
            let mut members = fields;
            match members.remove(wrapper) {
                Some(items) => items,
                None => {
                    return Err(
                        Error::new(
                            ErrorKind::Protocol,
                            method.to_owned().concat(" response omitted ").concat(
                                wrapper,
                            ).as_str(),
                        ),
                    );
                },
            }
        },
        _ => {
            return Err(
                Error::new(
                    ErrorKind::Protocol,
                    method.to_owned().concat(" returned a non-collection result").as_str(),
                ),
            );
        },
    };
    match wire::read_list::<T>(&items) {
        Ok(list) => Ok(list),
        Err(fault) => Err(Error::new(ErrorKind::Protocol, fault.as_str())),
    }
}

/// A snapshot that is being read, one collection after the other.
#[derive(Debug)]
pub enum SnapshotReader {
    Channels,
    Mixes { channels: Vec<Channel> },
    InputDevices { channels: Vec<Channel>, mixes: Vec<OutputMix> },
    OutputDevices {
        channels: Vec<Channel>,
        mixes: Vec<OutputMix>,
        input_devices: Vec<InputDevice>,
    },
}

/// What reading a response leads to.
#[derive(Debug)]
pub enum SnapshotProgress {
    /// The next collection is to be read.
    More(SnapshotReader),
    /// The snapshot is complete.
    Complete(MixerSnapshot),
}

impl SnapshotReader {
    /// The method that reads the next collection.
    pub open spec fn spec_method(self) -> Seq<char> {
        match self {
            SnapshotReader::Channels => "getChannels"@,
            SnapshotReader::Mixes { .. } => "getMixes"@,
            SnapshotReader::InputDevices { .. } => "getInputDevices"@,
            SnapshotReader::OutputDevices { .. } => "getOutputDevices"@,
        }
    }

    /// Returns the method that reads the next collection.
    #[must_use]
    pub fn method(&self) -> (r: &'static str)
        ensures
            r@ == self.spec_method(),
    {
        match self {
            SnapshotReader::Channels => "getChannels",
            SnapshotReader::Mixes { .. } => "getMixes",
            SnapshotReader::InputDevices { .. } => "getInputDevices",
            SnapshotReader::OutputDevices { .. } => "getOutputDevices",
        }
    }

    /// Makes the request that reads the next collection. It has no parameters.
    pub fn request(&self, requests: &mut Requests) -> (r: Result<Request, Error>)
        ensures
            match r {
                Ok(request) => {
                    &&& old(requests)@ < u64::MAX
                    &&& final(requests)@ == old(requests)@ + 1
                    &&& request.spec_id() == old(requests)@
                    &&& request.spec_method() == self.spec_method()
                    &&& request.spec_text() == json_codec::rendered(
                        request_model(old(requests)@, self.spec_method(), JsonModel::Null),
                    )
                },
                Err(error) => {
                    &&& old(requests)@ == u64::MAX
                    &&& final(requests)@ == old(requests)@
                    &&& error@ == (ErrorKind::Protocol, "JSON-RPC request ID space exhausted"@)
                },
            },
    {
        requests.begin(self.method(), Json::Null)
    }

    /// Whether reading a response as the next collection leads to this.
    pub open spec fn leads_to(
        self,
        application: snapshot::ApplicationModel,
        response: JsonModel,
        r: Result<SnapshotProgress, Error>,
    ) -> bool {
        match self {
            SnapshotReader::Channels => match collection_of::<Channel>(
                "getChannels"@,
                "channels"@,
                response,
            ) {
                Ok(list) => r matches Ok(SnapshotProgress::More(SnapshotReader::Mixes { channels }))
                    && wire::views(channels@) == list,
                Err(error) => r matches Err(e) && e@ == error,
            },
            SnapshotReader::Mixes { channels } => match collection_of::<OutputMix>(
                "getMixes"@,
                "mixes"@,
                response,
            ) {
                Ok(list) => r matches Ok(
                    SnapshotProgress::More(SnapshotReader::InputDevices { channels: c, mixes }),
                ) && c == channels && wire::views(mixes@) == list,
                Err(error) => r matches Err(e) && e@ == error,
            },
            SnapshotReader::InputDevices { channels, mixes } => match collection_of::<InputDevice>(
                "getInputDevices"@,
                "inputDevices"@,
                response,
            ) {
                Ok(list) => r matches Ok(
                    SnapshotProgress::More(
                        SnapshotReader::OutputDevices { channels: c, mixes: m, input_devices },
                    ),
                ) && c == channels && m == mixes && wire::views(input_devices@) == list,
                Err(error) => r matches Err(e) && e@ == error,
            },
            SnapshotReader::OutputDevices { channels, mixes, input_devices } => match collection_of::<
                OutputDevice,
            >("getOutputDevices"@, "outputDevices"@, response) {
                Ok(list) => r matches Ok(SnapshotProgress::Complete(made)) && made.application@
                    == application && made.channels == channels && made.mixes == mixes
                    && made.input_devices == input_devices && wire::views(
                    made.output_devices@,
                ) == list,
                Err(error) => r matches Err(e) && e@ == error,
            },
        }
    }

    /// Reads a response as the next collection.
    pub fn accept(self, application: &ApplicationInfo, response: Json) -> (r: Result<
        SnapshotProgress,
        Error,
    >)
        ensures
            self.leads_to(application@, response@, r),
    {
        match self {
            SnapshotReader::Channels => match read_collection::<Channel>(
                "getChannels",
                "channels",
                response,
            ) {
                Ok(channels) => Ok(SnapshotProgress::More(SnapshotReader::Mixes { channels })),
                Err(error) => Err(error),
            },
            SnapshotReader::Mixes { channels } => match read_collection::<OutputMix>(
                "getMixes",
                "mixes",
                response,
            ) {
                Ok(mixes) => Ok(
                    SnapshotProgress::More(SnapshotReader::InputDevices { channels, mixes }),
                ),
                Err(error) => Err(error),
            },
            SnapshotReader::InputDevices { channels, mixes } => match read_collection::<
                InputDevice,
            >("getInputDevices", "inputDevices", response) {
                Ok(input_devices) => Ok(
                    SnapshotProgress::More(
                        SnapshotReader::OutputDevices { channels, mixes, input_devices },
                    ),
                ),
                Err(error) => Err(error),
            },
            SnapshotReader::OutputDevices { channels, mixes, input_devices } => match read_collection::<
                OutputDevice,
            >("getOutputDevices", "outputDevices", response) {
                Ok(output_devices) => Ok(
                    SnapshotProgress::Complete(
                        MixerSnapshot {
                            application: application.clone(),
                            channels,
                            mixes,
                            input_devices,
                            output_devices,
                        },
                    ),
                ),
                Err(error) => Err(error),
            },
        }
    }
}

/// A snapshot that was read from four responses holds the application
/// information of the connection and what each response is as its collection.
pub proof fn law_snapshot_is_complete(
    application: snapshot::ApplicationModel,
    responses: (JsonModel, JsonModel, JsonModel, JsonModel),
    results: (
        Result<SnapshotProgress, Error>,
        Result<SnapshotProgress, Error>,
        Result<SnapshotProgress, Error>,
        Result<SnapshotProgress, Error>,
    ),
    readers: (SnapshotReader, SnapshotReader, SnapshotReader),
    made: MixerSnapshot,
)
    requires
        SnapshotReader::Channels.leads_to(application, responses.0, results.0),
        results.0 == Ok::<SnapshotProgress, Error>(SnapshotProgress::More(readers.0)),
        readers.0.leads_to(application, responses.1, results.1),
        results.1 == Ok::<SnapshotProgress, Error>(SnapshotProgress::More(readers.1)),
        readers.1.leads_to(application, responses.2, results.2),
        results.2 == Ok::<SnapshotProgress, Error>(SnapshotProgress::More(readers.2)),
        readers.2.leads_to(application, responses.3, results.3),
        results.3 == Ok::<SnapshotProgress, Error>(SnapshotProgress::Complete(made)),
    ensures
        made.application@ == application,
        collection_of::<Channel>("getChannels"@, "channels"@, responses.0) == Ok::<
            Seq<snapshot::EntityModel>,
            ErrorModel,
        >(wire::views(made.channels@)),
        collection_of::<OutputMix>("getMixes"@, "mixes"@, responses.1) == Ok::<
            Seq<snapshot::EntityModel>,
            ErrorModel,
        >(wire::views(made.mixes@)),
        collection_of::<InputDevice>("getInputDevices"@, "inputDevices"@, responses.2) == Ok::<
            Seq<snapshot::EntityModel>,
            ErrorModel,
        >(wire::views(made.input_devices@)),
        collection_of::<OutputDevice>("getOutputDevices"@, "outputDevices"@, responses.3) == Ok::<
            Seq<snapshot::EntityModel>,
            ErrorModel,
        >(wire::views(made.output_devices@)),
{
}

/// Reading changes nothing: the methods that open a connection and read a
/// snapshot are none of those that carry an operation.
pub proof fn law_reads_carry_no_operation(reader: SnapshotReader, operation: Operation)
    ensures
        reader.spec_method() != operation.spec_method(),
        "getApplicationInfo"@ != operation.spec_method(),
{
    reveal_strlit("getChannels");
    reveal_strlit("getMixes");
    reveal_strlit("getInputDevices");
    reveal_strlit("getOutputDevices");
    reveal_strlit("getApplicationInfo");
    reveal_strlit("setChannel");
    reveal_strlit("setMix");
    assert(reader.spec_method()[0] == 'g' && "getApplicationInfo"@[0] == 'g');
    assert(operation.spec_method()[0] == 's');
}

/// What an interface revision is compatible with. Revision one is unsupported;
/// other revisions than two are unknown and read-only.
pub open spec fn compatibility_of(revision: u32) -> Option<Compatibility> {
    if revision == 2 {
        Some(Compatibility::Revision2)
    } else if revision == 1 {
        None
    } else {
        Some(Compatibility::ReadOnlyUnknownRevision(revision))
    }
}

/// The reads that every connection may make.
pub open spec fn supported_reads() -> Set<ReadCapability> {
    set![
        ReadCapability::Application,
        ReadCapability::Channels,
        ReadCapability::Mixes,
        ReadCapability::InputDevices,
        ReadCapability::OutputDevices,
    ]
}

/// The writes that a connection may make.
pub open spec fn supported_writes(compatibility: Compatibility) -> Set<WriteCapability> {
    match compatibility {
        Compatibility::Revision2 => set![
            WriteCapability::Volume,
            WriteCapability::Mute,
            WriteCapability::PerMixState,
        ],
        Compatibility::ReadOnlyUnknownRevision(_) => Set::empty(),
    }
}

/// A client that passed the compatibility gate.
#[derive(Debug)]
pub struct WaveLinkClient {
    application: ApplicationInfo,
    compatibility: Compatibility,
    capabilities: Capabilities,
}

impl WaveLinkClient {
    /// What Wave Link said of itself.
    pub closed spec fn application(self) -> snapshot::ApplicationModel {
        self.application@
    }

    /// How far the interface is understood.
    pub closed spec fn spec_compatibility(self) -> Compatibility {
        self.compatibility
    }

    #[verifier::type_invariant]
    spec fn well_formed(self) -> bool {
        &&& compatibility_of(self.application@.interface_revision) == Some(self.compatibility)
        &&& self.capabilities.reads() == supported_reads()
        &&& self.capabilities.writes() == supported_writes(self.compatibility)
    }

    /// Performs the mandatory compatibility gate on the answer to
    /// `getApplicationInfo`. An answer that is no application information is an
    /// [`ErrorKind::Protocol`] error, an unsupported interface revision an
    /// [`ErrorKind::UnsupportedRevision`] error.
    pub fn connect(answer: Json) -> (r: Result<Self, Error>)
        ensures
            match snapshot::application_of(answer@) {
                None => r matches Err(error) && error@ == (
                    ErrorKind::Protocol,
                    snapshot::application_fault(answer@),
                ),
                Some(application) => match compatibility_of(application.interface_revision) {
                    None => r matches Err(error) && error@ == (
                        ErrorKind::UnsupportedRevision,
                        "interface revision 1 is not supported"@,
                    ),
                    Some(compatibility) => r matches Ok(client) && client.application()
                        == application && client.spec_compatibility() == compatibility,
                },
            },
    {
        match ApplicationInfo::decode(&answer) {
            None => Err(
                Error::new(ErrorKind::Protocol, ApplicationInfo::explain(&answer).as_str()),
            ),
            Some(application) => {
                let revision: u32 = application.interface_revision;
                if revision == 1 {
                    return Err(
                        Error::new(
                            ErrorKind::UnsupportedRevision,
                            "interface revision 1 is not supported",
                        ),
                    );
                }
                let compatibility = if revision == 2 {
                    Compatibility::Revision2
                } else {
                    Compatibility::ReadOnlyUnknownRevision(revision)
                };
                let capabilities = capabilities_for(compatibility);
                Ok(WaveLinkClient { application, compatibility, capabilities })
            },
        }
    }

    /// Returns what Wave Link said of itself.
    #[must_use]
    pub fn application_info(&self) -> (r: &ApplicationInfo)
        ensures
            r@ == self.application(),
    {
        &self.application
    }

    /// Returns how far the interface is understood.
    #[must_use]
    pub fn compatibility(&self) -> (r: Compatibility)
        ensures
            r == self.spec_compatibility(),
            compatibility_of(self.application().interface_revision) == Some(r),
    {
        proof {
            use_type_invariant(self);
        }
        self.compatibility
    }

    /// Returns what may be read and written.
    #[must_use]
    pub fn capabilities(&self) -> (r: &Capabilities)
        ensures
            r.reads() == supported_reads(),
            r.writes() == supported_writes(self.spec_compatibility()),
    {
        proof {
            use_type_invariant(self);
        }
        &self.capabilities
    }

    /// Makes the request for one mutation. Where writes are locked this is an
    /// [`ErrorKind::UnsupportedRevision`] error and no request is made.
    pub fn apply(&self, requests: &mut Requests, operation: &Operation) -> (r: Result<
        Request,
        Error,
    >)
        ensures
            if self.spec_compatibility() != Compatibility::Revision2 {
                &&& r matches Err(error) && error@ == (
                    ErrorKind::UnsupportedRevision,
                    "writes are locked for this interface revision"@,
                )
                &&& final(requests)@ == old(requests)@
            } else {
                match r {
                    Ok(request) => {
                        &&& old(requests)@ < u64::MAX
                        &&& final(requests)@ == old(requests)@ + 1
                        &&& request.spec_id() == old(requests)@
                        &&& request.spec_method() == operation.spec_method()
                        &&& request.spec_text() == json_codec::rendered(
                            request_model(
                                old(requests)@,
                                operation.spec_method(),
                                operation.spec_params(),
                            ),
                        )
                    },
                    Err(error) => {
                        &&& old(requests)@ == u64::MAX
                        &&& final(requests)@ == old(requests)@
                        &&& error@ == (
                            ErrorKind::Protocol,
                            "JSON-RPC request ID space exhausted"@,
                        )
                    },
                }
            },
    {
        if !self.compatibility.writes_allowed() {
            return Err(
                Error::new(
                    ErrorKind::UnsupportedRevision,
                    "writes are locked for this interface revision",
                ),
            );
        }
        let (method, params) = operation.request();
        requests.begin(method, params)
    }
}

/// Returns the capabilities of a connection.
fn capabilities_for(compatibility: Compatibility) -> (r: Capabilities)
    ensures
        r.reads() == supported_reads(),
        r.writes() == supported_writes(compatibility),
{
    let reads: Vec<ReadCapability> = vec![
        ReadCapability::Application,
        ReadCapability::Channels,
        ReadCapability::Mixes,
        ReadCapability::InputDevices,
        ReadCapability::OutputDevices,
    ];
    let writes: Vec<WriteCapability> = if compatibility.writes_allowed() {
        vec![WriteCapability::Volume, WriteCapability::Mute, WriteCapability::PerMixState]
    } else {
        Vec::new()
    };
    proof {
        assert(reads@[0] == ReadCapability::Application);
        assert(reads@[1] == ReadCapability::Channels);
        assert(reads@[2] == ReadCapability::Mixes);
        assert(reads@[3] == ReadCapability::InputDevices);
        assert(reads@[4] == ReadCapability::OutputDevices);
        assert(reads@.to_set() =~= supported_reads());
        if compatibility == Compatibility::Revision2 {
            assert(writes@[0] == WriteCapability::Volume);
            assert(writes@[1] == WriteCapability::Mute);
            assert(writes@[2] == WriteCapability::PerMixState);
        }
        assert(writes@.to_set() =~= supported_writes(compatibility));
    }
    Capabilities::new(reads, writes)
}

/// Revisions other than two are write-locked: none of them has a write
/// capability, and on none of them writes are allowed.
pub proof fn law_other_revisions_are_write_locked(revision: u32, compatibility: Compatibility)
    requires
        revision != 2,
        compatibility_of(revision) == Some(compatibility),
    ensures
        compatibility != Compatibility::Revision2,
        forall|capability: WriteCapability| !supported_writes(compatibility).contains(capability),
{
}

/// Output routing is never writable, and notifications are no read of their own.
pub proof fn law_routing_stays_disabled(compatibility: Compatibility)
    ensures
        !supported_writes(compatibility).contains(WriteCapability::Routing),
        !supported_reads().contains(ReadCapability::Notifications),
{
}

/// Errors hold no payload: an error answer comes to the same error whatever it
/// says.
pub proof fn law_error_answers_are_not_quoted(
    id: u64,
    members: Map<Seq<char>, JsonModel>,
    error: JsonModel,
)
    requires
        members.contains_key("id"@),
        members["id"@] == JsonModel::Number(NumberKind::Unsigned(id)),
    ensures
        response_to(id, JsonModel::Object(members.insert("error"@, error))) == Some(
            Err::<JsonModel, ErrorModel>(refused_error()),
        ),
{
    reveal_strlit("id");
    reveal_strlit("error");
    assert("id"@.len() != "error"@.len());
}

/// A response answers only the request whose number it carries.
pub proof fn law_answers_match_requests(a: u64, b: u64, value: JsonModel)
    requires
        a != b,
        response_to(a, value) is Some,
    ensures
        response_to(b, value) is None,
{
}

/// A collection reads the same whether it comes as a bare list or wrapped in an
/// object, whatever other members that object has.
pub proof fn law_wrapped_collections_read_the_same<T: Explain>(
    method: Seq<char>,
    wrapper: Seq<char>,
    items: Seq<JsonModel>,
    members: Map<Seq<char>, JsonModel>,
)
    requires
        members.contains_key(wrapper),
        members[wrapper] == JsonModel::Array(items),
    ensures
        collection_of::<T>(method, wrapper, JsonModel::Object(members)) == collection_of::<T>(
            method,
            wrapper,
            JsonModel::Array(items),
        ),
{
}

/// A notification is an object that names a method and carries no number. What
/// else it carries does not matter, and no other value is one.
pub proof fn law_notifications_name_a_method_and_no_number(
    members: Map<Seq<char>, JsonModel>,
    other: JsonModel,
)
    ensures
        is_notification_model(JsonModel::Object(members)) <==> members.contains_key("method"@)
            && !members.contains_key("id"@),
        !(other is Object) ==> !is_notification_model(other),
{
}

/// Additive members are tolerated: a member that is neither the number nor the
/// method does not change whether an object is a notification, whatever it holds.
pub proof fn law_notifications_may_carry_anything(
    members: Map<Seq<char>, JsonModel>,
    name: Seq<char>,
    value: JsonModel,
)
    requires
        name != "id"@,
        name != "method"@,
    ensures
        is_notification_model(JsonModel::Object(members.insert(name, value)))
            == is_notification_model(JsonModel::Object(members)),
        is_notification_model(JsonModel::Object(members.remove(name))) == is_notification_model(
            JsonModel::Object(members),
        ),
{
}

/// What a message is to a client that waits for notifications does not depend on
/// what its method is called, and giving it a number makes it none.
pub proof fn law_every_method_notifies(
    members: Map<Seq<char>, JsonModel>,
    method: JsonModel,
    number: JsonModel,
)
    requires
        !members.contains_key("id"@),
    ensures
        is_notification_model(JsonModel::Object(members.insert("method"@, method))),
        !is_notification_model(
            JsonModel::Object(members.insert("method"@, method).insert("id"@, number)),
        ),
{
    reveal_strlit("id");
    reveal_strlit("method");
    assert("id"@.len() != "method"@.len());
}

/// A request is an object of exactly four members: the version of the protocol,
/// its number, its method and its parameters.
pub proof fn law_requests_are_exact(id: u64, method: Seq<char>, params: JsonModel)
    ensures
        request_model(id, method, params) matches JsonModel::Object(members) && {
            &&& members.contains_key("jsonrpc"@)
            &&& members["jsonrpc"@] == JsonModel::Text("2.0"@)
            &&& members.contains_key("id"@)
            &&& members["id"@] == JsonModel::Number(NumberKind::Unsigned(id))
            &&& members.contains_key("method"@)
            &&& members["method"@] == JsonModel::Text(method)
            &&& members.contains_key("params"@)
            &&& members["params"@] == params
            &&& forall|name: Seq<char>| #[trigger]
                members.contains_key(name) ==> name == "jsonrpc"@ || name == "id"@ || name
                    == "method"@ || name == "params"@
        },
{
    lemma_request_names();
}

/// The names of the members of requests and responses differ.
proof fn lemma_request_names()
    ensures
        "jsonrpc"@ != "id"@,
        "jsonrpc"@ != "method"@,
        "jsonrpc"@ != "params"@,
        "id"@ != "method"@,
        "id"@ != "params"@,
        "method"@ != "params"@,
        "id"@ != "error"@,
        "id"@ != "result"@,
        "error"@ != "result"@,
{
    reveal_strlit("jsonrpc");
    reveal_strlit("id");
    reveal_strlit("method");
    reveal_strlit("params");
    reveal_strlit("error");
    reveal_strlit("result");
    assert("jsonrpc"@.len() == 7 && "id"@.len() == 2 && "method"@.len() == 6 && "params"@.len()
        == 6 && "error"@.len() == 5 && "result"@.len() == 6);
    assert("method"@[0] == 'm' && "params"@[0] == 'p');
}

/// Requests tell their number, method and parameters apart: two that are the same
/// object are the same request.
pub proof fn law_requests_are_told_apart(
    a: (u64, Seq<char>, JsonModel),
    b: (u64, Seq<char>, JsonModel),
)
    requires
        request_model(a.0, a.1, a.2) == request_model(b.0, b.1, b.2),
    ensures
        a == b,
{
    law_requests_are_exact(a.0, a.1, a.2);
    law_requests_are_exact(b.0, b.1, b.2);
}

/// A response that carries a request's number and a result, and no error, answers
/// that request with exactly that result, whatever else it carries.
pub proof fn law_results_are_handed_out(
    id: u64,
    members: Map<Seq<char>, JsonModel>,
    result: JsonModel,
)
    requires
        !members.contains_key("error"@),
    ensures
        response_to(
            id,
            JsonModel::Object(
                members.insert("id"@, JsonModel::Number(NumberKind::Unsigned(id))).insert(
                    "result"@,
                    result,
                ),
            ),
        ) == Some(Ok::<JsonModel, ErrorModel>(result)),
{
    lemma_request_names();
}

/// What answers a request: exactly the objects that carry its number as a whole
/// number. Of those, one with an error member refuses it, whatever the error and
/// whether or not there is a result, one without either breaks the protocol, and
/// any other hands out its result.
pub proof fn law_answers_go_by_number_error_and_result(id: u64, value: JsonModel)
    ensures
        response_to(id, value) is Some <==> (value matches JsonModel::Object(members)
            && members.contains_key("id"@) && members["id"@] == JsonModel::Number(
            NumberKind::Unsigned(id),
        )),
        response_to(id, value) matches Some(answer) ==> {
            let members = value->Object_0;
            &&& members.contains_key("error"@) ==> answer == Err::<JsonModel, ErrorModel>(
                (ErrorKind::Protocol, "Wave Link answered with an error"@),
            )
            &&& !members.contains_key("error"@) && members.contains_key("result"@) ==> answer
                == Ok::<JsonModel, ErrorModel>(members["result"@])
            &&& !members.contains_key("error"@) && !members.contains_key("result"@) ==> answer
                == Err::<JsonModel, ErrorModel>(
                (ErrorKind::Protocol, "JSON-RPC response omitted result"@),
            )
        },
{
}

/// What a client that waits for an answer makes of a delivery: an end and a
/// failure of the connection end the wait as failures of the transport, a text
/// that is no JSON ends it with the parser's message, a text that is JSON counts
/// as the response that it is, and anything else is passed over.
pub proof fn law_deliveries_are_understood(id: u64, incoming: Incoming)
    ensures
        match incoming {
            Incoming::Ended => answer_to(id, incoming) == Some(
                Err::<JsonModel, ErrorModel>(
                    (ErrorKind::Transport, "Wave Link closed the connection"@),
                ),
            ),
            Incoming::Failed(reason) => answer_to(id, incoming) == Some(
                Err::<JsonModel, ErrorModel>((ErrorKind::Transport, reason@)),
            ),
            Incoming::Text(text) => match json_codec::parsed(text@) {
                Ok(value) => answer_to(id, incoming) == response_to(id, value),
                Err(message) => answer_to(id, incoming) == Some(
                    Err::<JsonModel, ErrorModel>((ErrorKind::Protocol, message)),
                ),
            },
            Incoming::Ping(_) => answer_to(id, incoming) is None,
            Incoming::Close => answer_to(id, incoming) is None,
            Incoming::Other => answer_to(id, incoming) is None,
        },
        closed_error() == (ErrorKind::Transport, "Wave Link closed the connection"@),
        refused_error() == (ErrorKind::Protocol, "Wave Link answered with an error"@),
{
}

/// No message is both: what answers a request is no notification, and a
/// notification answers no request.
pub proof fn law_answers_are_no_notifications(id: u64, value: JsonModel)
    ensures
        !(response_to(id, value) is Some && is_notification_model(value)),
{
}

/// Where a collection is found: a list is the collection itself, an object holds
/// it under the wrapper's name whatever else it holds, and without that member,
/// or as any other value, a response breaks the protocol and is told by its
/// method.
pub proof fn law_collections_are_found(method: Seq<char>, wrapper: Seq<char>, value: JsonModel)
    ensures
        match value {
            JsonModel::Array(_) => collection_items(method, wrapper, value) == Ok::<
                JsonModel,
                ErrorModel,
            >(value),
            JsonModel::Object(members) => collection_items(method, wrapper, value) == (
            if members.contains_key(wrapper) {
                Ok::<JsonModel, ErrorModel>(members[wrapper])
            } else {
                Err::<JsonModel, ErrorModel>(
                    (ErrorKind::Protocol, method + " response omitted "@ + wrapper),
                )
            }),
            _ => collection_items(method, wrapper, value) == Err::<JsonModel, ErrorModel>(
                (ErrorKind::Protocol, method + " returned a non-collection result"@),
            ),
        },
{
}

/// What a collection reads as: every item, in order, each read on its own. One
/// malformed item makes the whole collection malformed, and the first of them is
/// what the error tells of.
pub proof fn law_collections_are_read_item_by_item<T: Explain>(
    method: Seq<char>,
    wrapper: Seq<char>,
    items: Seq<JsonModel>,
    at: int,
)
    ensures
        ({
            let read = collection_of::<T>(method, wrapper, JsonModel::Array(items));
            &&& read matches Ok(list) ==> list.len() == items.len() && (0 <= at < items.len()
                ==> T::decoded(items[at]) == Some(list[at]))
            &&& (forall|i: int| 0 <= i < items.len() ==> T::decoded(#[trigger] items[i]) is Some)
                ==> read is Ok
            &&& wire::first_malformed::<T>(items, at) ==> read == Err::<Seq<T::V>, ErrorModel>(
                (ErrorKind::Protocol, T::fault(items[at])),
            )
        }),
{
    wire::law_lists_are_read_item_by_item::<T>(items, at);
}

/// A member of a wrapped response that is no list breaks the protocol.
pub proof fn law_wrapped_values_must_be_lists<T: Explain>(
    method: Seq<char>,
    wrapper: Seq<char>,
    members: Map<Seq<char>, JsonModel>,
)
    requires
        members.contains_key(wrapper),
        !(members[wrapper] is Array),
    ensures
        collection_of::<T>(method, wrapper, JsonModel::Object(members)) == Err::<
            Seq<T::V>,
            ErrorModel,
        >(
            (
                ErrorKind::Protocol,
                "invalid type: "@ + wire::sort_of(members[wrapper]) + ", expected "@
                    + "a sequence"@,
            ),
        ),
{
}

/// A snapshot is read in four steps: channels, mixes, input devices and output
/// devices, each with the method of its name.
pub proof fn law_snapshots_are_read_in_order(reader: SnapshotReader)
    ensures
        reader.spec_method() == "getChannels"@ <==> reader is Channels,
        reader.spec_method() == "getMixes"@ <==> reader is Mixes,
        reader.spec_method() == "getInputDevices"@ <==> reader is InputDevices,
        reader.spec_method() == "getOutputDevices"@ <==> reader is OutputDevices,
{
    reveal_strlit("getChannels");
    reveal_strlit("getMixes");
    reveal_strlit("getInputDevices");
    reveal_strlit("getOutputDevices");
    assert("getChannels"@.len() == 11 && "getMixes"@.len() == 8 && "getInputDevices"@.len() == 15
        && "getOutputDevices"@.len() == 16);
}

/// Each step reads one collection: a well-formed response leads to the next step,
/// or completes the snapshot, with what was read so far unchanged; a malformed one
/// ends the reading with its error.
pub proof fn law_reading_goes_step_by_step(
    reader: SnapshotReader,
    application: snapshot::ApplicationModel,
    response: JsonModel,
    result: Result<SnapshotProgress, Error>,
)
    requires
        reader.leads_to(application, response, result),
    ensures
        match reader {
            SnapshotReader::Channels => match collection_of::<Channel>(
                "getChannels"@,
                "channels"@,
                response,
            ) {
                Ok(list) => result matches Ok(SnapshotProgress::More(next))
                    && (next matches SnapshotReader::Mixes { channels }
                    && channels@.len() == list.len() && forall|i: int|
                    0 <= i < list.len() ==> (#[trigger] channels@[i])@ == list[i]),
                Err(error) => result matches Err(e) && e@ == error,
            },
            SnapshotReader::Mixes { channels } => match collection_of::<OutputMix>(
                "getMixes"@,
                "mixes"@,
                response,
            ) {
                Ok(list) => result matches Ok(SnapshotProgress::More(next))
                    && (next matches SnapshotReader::InputDevices { channels: kept, mixes } && kept
                    == channels && mixes@.len() == list.len() && forall|i: int|
                    0 <= i < list.len() ==> (#[trigger] mixes@[i])@ == list[i]),
                Err(error) => result matches Err(e) && e@ == error,
            },
            SnapshotReader::InputDevices { channels, mixes } => match collection_of::<InputDevice>(
                "getInputDevices"@,
                "inputDevices"@,
                response,
            ) {
                Ok(list) => result matches Ok(SnapshotProgress::More(next))
                    && (next matches SnapshotReader::OutputDevices {
                    channels: kept,
                    mixes: also,
                    input_devices,
                } && kept == channels && also == mixes && input_devices@.len() == list.len()
                    && forall|i: int|
                    0 <= i < list.len() ==> (#[trigger] input_devices@[i])@ == list[i]),
                Err(error) => result matches Err(e) && e@ == error,
            },
            SnapshotReader::OutputDevices { channels, mixes, input_devices } => match collection_of::<
                OutputDevice,
            >("getOutputDevices"@, "outputDevices"@, response) {
                Ok(list) => result matches Ok(SnapshotProgress::Complete(made)) && made.application@
                    == application && made.channels == channels && made.mixes == mixes
                    && made.input_devices == input_devices && made.output_devices@.len()
                    == list.len() && forall|i: int|
                    0 <= i < list.len() ==> (#[trigger] made.output_devices@[i])@ == list[i],
                Err(error) => result matches Err(e) && e@ == error,
            },
        },
{
    wire::law_views_are_taken_item_by_item::<Channel>();
    wire::law_views_are_taken_item_by_item::<OutputMix>();
    wire::law_views_are_taken_item_by_item::<InputDevice>();
    wire::law_views_are_taken_item_by_item::<OutputDevice>();
}

/// The interface revision alone decides: two may be read and written, one is not
/// supported, and any other may be read under its own number.
pub proof fn law_revisions_decide(revision: u32, other: u32)
    ensures
        compatibility_of(revision) == Some(Compatibility::Revision2) <==> revision == 2,
        compatibility_of(revision) is None <==> revision == 1,
        compatibility_of(revision) == Some(Compatibility::ReadOnlyUnknownRevision(other))
            <==> revision == other && revision != 1 && revision != 2,
{
}

/// Every connection may read the application, channels, mixes and devices. A
/// connection of revision two may write volumes, mutes and the state within a
/// mix, and any other connection nothing at all.
pub proof fn law_capabilities_go_by_the_revision(
    read: ReadCapability,
    write: WriteCapability,
    revision: u32,
)
    ensures
        supported_reads().contains(read) <==> read != ReadCapability::Notifications,
        supported_writes(Compatibility::Revision2).contains(write) <==> write
            != WriteCapability::Routing,
        !supported_writes(Compatibility::ReadOnlyUnknownRevision(revision)).contains(write),
{
}

/// An answer is seen as it is: the value that it hands out, or the kind and the context
/// of its error.
pub proof fn law_answers_are_seen_as_they_are(value: Json, error: Error)
    ensures
        answer_view(None) is None,
        answer_view(Some(Ok(value))) == Some(Ok::<JsonModel, ErrorModel>(value@)),
        answer_view(Some(Err(error))) == Some(Err::<JsonModel, ErrorModel>(error@)),
{
}

/// A response in which no collection is found is no collection of any type, for the
/// same reason.
pub proof fn law_responses_without_a_collection_fail<T: Explain>(
    method: Seq<char>,
    wrapper: Seq<char>,
    value: JsonModel,
)
    ensures
        value matches JsonModel::Object(members) && !members.contains_key(wrapper)
            ==> collection_of::<T>(method, wrapper, value) == Err::<Seq<T::V>, ErrorModel>(
            (ErrorKind::Protocol, method + " response omitted "@ + wrapper),
        ),
        !(value is Object || value is Array) ==> collection_of::<T>(method, wrapper, value) == Err::<
            Seq<T::V>,
            ErrorModel,
        >((ErrorKind::Protocol, method + " returned a non-collection result"@)),
{
}

} // verus!
