//! The one error type shared by the endpoints and the configuration code.

use vstd::prelude::*;
use serde_json::Error as JsonFault;
use toml::de::Error as TomlDecodeFault;
use toml::ser::Error as TomlEncodeFault;
use zmq::Error as ZmqFault;

verus! {

#[verifier::external_type_specification]
#[verifier::external_body]
pub struct ExIoError(std::io::Error);

#[verifier::external_type_specification]
#[verifier::external_body]
pub struct ExJsonError(JsonFault);

#[verifier::external_type_specification]
#[verifier::external_body]
pub struct ExTomlDeError(TomlDecodeFault);

#[verifier::external_type_specification]
#[verifier::external_body]
pub struct ExTomlSerError(TomlEncodeFault);

#[verifier::external_type_specification]
#[verifier::external_body]
pub struct ExZmqError(ZmqFault);

pub type Result<T> = core::result::Result<T, Error>;

#[derive(Debug)]
pub enum Error {
    /// I/O failure
    IoError(std::io::Error),
    /// JSON de/serialization failure
    JsonError(serde_json::Error),
    /// Expected the bytes to be `UTF-8`, but they're not
    NotUtf8Error(Vec<u8>),
    /// Failed to deserialize from TOML file
    TomlDeserializeError(toml::de::Error),
    /// Failed to serialize to TOML file
    TomlSerializeError(toml::ser::Error),
    /// ZeroMQ failure
    ZmqError(zmq::Error),
    /// The peer answered with something other than the acknowledgment token;
    /// holds the decoded reply text
    UnexpectedReply(String),
}


impl From<std::io::Error> for Error {
    fn from(e: std::io::Error) -> (r: Self)
        ensures
            r == Error::IoError(e),
    {
        Error::IoError(e)
    }
}

impl vstd::std_specs::convert::FromSpecImpl<std::io::Error> for Error {
    open spec fn obeys_from_spec() -> bool {
        true
    }

    open spec fn from_spec(e: std::io::Error) -> Error {
        Error::IoError(e)
    }
}

impl From<JsonFault> for Error {
    fn from(e: JsonFault) -> (r: Self)
        ensures
            r == Error::JsonError(e),
    {
        Error::JsonError(e)
    }
}

impl vstd::std_specs::convert::FromSpecImpl<JsonFault> for Error {
    open spec fn obeys_from_spec() -> bool {
        true
    }

    open spec fn from_spec(e: JsonFault) -> Error {
        Error::JsonError(e)
    }
}

impl From<TomlDecodeFault> for Error {
    fn from(e: TomlDecodeFault) -> (r: Self)
        ensures
            r == Error::TomlDeserializeError(e),
    {
        Error::TomlDeserializeError(e)
    }
}

impl vstd::std_specs::convert::FromSpecImpl<TomlDecodeFault> for Error {
    open spec fn obeys_from_spec() -> bool {
        true
    }

    open spec fn from_spec(e: TomlDecodeFault) -> Error {
        Error::TomlDeserializeError(e)
    }
}

impl From<TomlEncodeFault> for Error {
    fn from(e: TomlEncodeFault) -> (r: Self)
        ensures
            r == Error::TomlSerializeError(e),
    {
        Error::TomlSerializeError(e)
    }
}

impl vstd::std_specs::convert::FromSpecImpl<TomlEncodeFault> for Error {
    open spec fn obeys_from_spec() -> bool {
        true
    }

    open spec fn from_spec(e: TomlEncodeFault) -> Error {
        Error::TomlSerializeError(e)
    }
}

impl From<ZmqFault> for Error {
    fn from(e: ZmqFault) -> (r: Self)
        ensures
            r == Error::ZmqError(e),
    {
        Error::ZmqError(e)
    }
}

impl vstd::std_specs::convert::FromSpecImpl<ZmqFault> for Error {
    open spec fn obeys_from_spec() -> bool {
        true
    }

    open spec fn from_spec(e: ZmqFault) -> Error {
        Error::ZmqError(e)
    }
}

} // verus!
