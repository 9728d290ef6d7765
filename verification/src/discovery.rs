//! Where Wave Link listens.

use std::path::PathBuf;
use vstd::prelude::*;

use crate::error::{Error, ErrorKind};
use crate::text;

verus! {

/// Declares `std::path::PathBuf`.
#[verifier::external_type_specification]
#[verifier::external_body]
pub struct ExPathBuf(std::path::PathBuf);

/// Specifies the `clone` of `std::path::PathBuf`: a duplicate of the path.
pub assume_specification[ <std::path::PathBuf as Clone>::clone ](
    path: &std::path::PathBuf,
) -> (r: std::path::PathBuf)
    ensures
        r == *path,
;

/// The path that `std::path::Path::join` makes of a directory and a relative
/// path: a path of the platform that the directory is a path of, with that
/// platform's separators.
pub uninterp spec fn joined(directory: PathBuf, relative: Seq<char>) -> PathBuf;

/// Calls `std::path::Path::join`: the relative path adjoined to the directory.
/// The result is named [`joined`]; it depends on nothing but the two, and no
/// file is looked at.
#[verifier::external_body]
fn join_path(directory: &PathBuf, relative: &str) -> (r: PathBuf)
    ensures
        r == joined(*directory, relative@),
{
    directory.join(relative)
}

/// Where the Microsoft Store package keeps its metadata file, relative to the
/// local application data directory.
pub const PACKAGE_LOCAL_STATE: &'static str =
    "Packages/Elgato.WaveLink_g54w8ztgkx496/LocalState/ws-info.json";

/// A loopback endpoint; its view is the port, which is never zero.
#[derive(Clone, Copy, Debug, PartialEq, Eq)]
pub struct Endpoint {
    port: u16,
}

impl View for Endpoint {
    type V = u16;

    closed spec fn view(&self) -> u16 {
        self.port
    }
}

/// The address of the loopback WebSocket on a port.
pub open spec fn loopback_url(port: u16) -> Seq<char> {
    "ws://127.0.0.1:"@ + text::decimal(port as nat)
}

impl Endpoint {
    #[verifier::type_invariant]
    spec fn well_formed(self) -> bool {
        self.port != 0
    }

    /// Creates a validated loopback endpoint. Port zero is an
    /// [`ErrorKind::Discovery`] error.
    pub fn new(port: u16) -> (r: Result<Self, Error>)
        ensures
            match r {
                Ok(endpoint) => port != 0 && endpoint@ == port,
                Err(error) => port == 0 && error@ == (
                    ErrorKind::Discovery,
                    "Wave Link advertised port zero"@,
                ),
            },
    {
        if port == 0 {
            return Err(Error::new(ErrorKind::Discovery, "Wave Link advertised port zero"));
        }
        Ok(Endpoint { port })
    }

    #[must_use]
    pub fn port(&self) -> (r: u16)
        ensures
            r == self@,
            r != 0,
    {
        proof {
            use_type_invariant(self);
        }
        self.port
    }

    /// Returns the address of the loopback WebSocket.
    #[must_use]
    pub fn websocket_url(&self) -> (r: String)
        ensures
            r@ == loopback_url(self@),
    {
        "ws://127.0.0.1:".to_owned().concat(text::decimal_text(self.port).as_str())
    }
}

/// What came of reading the metadata file.
#[derive(Clone, Debug)]
pub enum Metadata {
    /// The file could not be read, for this reason.
    Unreadable(String),
    /// The file is no metadata, for this reason.
    Malformed(String),
    /// The file advertises this port.
    Port(u16),
}

/// Finds Wave Link by its metadata file.
#[derive(Debug)]
pub struct Discovery {
    metadata_path: PathBuf,
}

impl Discovery {
    /// The metadata file.
    pub closed spec fn path(self) -> PathBuf {
        self.metadata_path
    }

    /// Locates the Microsoft Store metadata file in the local application data
    /// directory, whether or not it exists. Without such a directory this is an
    /// [`ErrorKind::Discovery`] error.
    pub fn msix_default(local_app_data: Option<PathBuf>) -> (r: Result<Self, Error>)
        ensures
            match local_app_data {
                Some(directory) => r matches Ok(discovery) && discovery.path() == joined(
                    directory,
                    "Packages/Elgato.WaveLink_g54w8ztgkx496/LocalState/ws-info.json"@,
                ),
                None => r matches Err(error) && error@ == (
                    ErrorKind::Discovery,
                    "LOCALAPPDATA is not set; automatic discovery requires Windows"@,
                ),
            },
    {
        match local_app_data {
            Some(directory) => Ok(
                Discovery::from_metadata_path(join_path(&directory, PACKAGE_LOCAL_STATE)),
            ),
            None => Err(
                Error::new(
                    ErrorKind::Discovery,
                    "LOCALAPPDATA is not set; automatic discovery requires Windows",
                ),
            ),
        }
    }

    #[must_use]
    pub fn from_metadata_path(path: PathBuf) -> (r: Self)
        ensures
            r.path() == path,
    {
        Discovery { metadata_path: path }
    }

    #[must_use]
    pub fn metadata_path(&self) -> (r: &PathBuf)
        ensures
            *r == self.path(),
    {
        &self.metadata_path
    }

    /// Validates the advertised loopback endpoint, given what came of reading
    /// the metadata file.
    pub fn discover(&self, metadata: Metadata) -> (r: Result<Endpoint, Error>)
        ensures
            match metadata {
                Metadata::Unreadable(reason) => r matches Err(error) && error@ == (
                    ErrorKind::Discovery,
                    reason@,
                ),
                Metadata::Malformed(reason) => r matches Err(error) && error@ == (
                    ErrorKind::Discovery,
                    "invalid ws-info.json: "@ + reason@,
                ),
                Metadata::Port(port) => match r {
                    Ok(endpoint) => port != 0 && endpoint@ == port,
                    Err(error) => port == 0 && error@ == (
                        ErrorKind::Discovery,
                        "Wave Link advertised port zero"@,
                    ),
                },
            },
    {
        match metadata {
            Metadata::Unreadable(reason) => Err(
                Error::new(ErrorKind::Discovery, reason.as_str()),
            ),
            Metadata::Malformed(reason) => Err(
                Error::new(
                    ErrorKind::Discovery,
                    "invalid ws-info.json: ".to_owned().concat(reason.as_str()).as_str(),
                ),
            ),
            Metadata::Port(port) => Endpoint::new(port),
        }
    }
}

impl Clone for Discovery {
    fn clone(&self) -> (r: Self)
        ensures
            r.path() == self.path(),
    {
        Discovery { metadata_path: self.metadata_path.clone() }
    }
}

/// The address of a port names the loopback interface and then the port in decimal
/// notation, so that two ports never share an address.
pub proof fn law_addresses_are_loopback(port: u16, other: u16)
    ensures
        loopback_url(port).take("ws://127.0.0.1:"@.len() as int) == "ws://127.0.0.1:"@,
        text::decimal_value(loopback_url(port).skip("ws://127.0.0.1:"@.len() as int)) == port,
        forall|i: int|
            "ws://127.0.0.1:"@.len() <= i < loopback_url(port).len() ==> '0'
                <= #[trigger] loopback_url(port)[i] <= '9',
        loopback_url(port) == loopback_url(other) ==> port == other,
{
    let start = "ws://127.0.0.1:"@;
    text::law_decimals_denote_their_number(port as nat);
    text::law_decimals_denote_their_number(other as nat);
    assert(loopback_url(port).take(start.len() as int) =~= start);
    assert(loopback_url(port).skip(start.len() as int) =~= text::decimal(port as nat));
    assert(loopback_url(other).skip(start.len() as int) =~= text::decimal(other as nat));
    assert forall|i: int| start.len() <= i < loopback_url(port).len() implies '0'
        <= #[trigger] loopback_url(port)[i] <= '9' by {
        assert(loopback_url(port)[i] == text::decimal(port as nat)[i - start.len()]);
    }
}

} // verus!
