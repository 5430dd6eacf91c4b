//! What can go wrong between a client and the server that it asked for.

use vstd::prelude::*;
use vstd::string::to_string_from_display_ensures;

verus! {

/// A failure. The last four carry the text of a failure that happened outside this library.
#[derive(Debug)]
pub enum ProxyError {
    UnknownServer(String),
    InvalidServerId(String),
    ChildExited { id: String, reason: String },
    UnknownSession(String),
    Config(String),
    Io(String),
    Json(String),
    Toml(String),
    TomlSer(String),
}

pub type Result<T> = std::result::Result<T, ProxyError>;

impl ProxyError {
    /// The sentence that tells a person what went wrong.
    pub open spec fn message(&self) -> Seq<char> {
        match self {
            ProxyError::UnknownServer(id) => "unknown server: "@ + id@,
            ProxyError::InvalidServerId(id) => "invalid server id: "@ + id@,
            ProxyError::ChildExited { id, reason } => "child process for "@ + id@
                + " exited unexpectedly: "@ + reason@,
            ProxyError::UnknownSession(id) => "session "@ + id@ + " not found"@,
            ProxyError::Config(text) => "config error: "@ + text@,
            ProxyError::Io(text) => "io error: "@ + text@,
            ProxyError::Json(text) => "json error: "@ + text@,
            ProxyError::Toml(text) => "toml error: "@ + text@,
            ProxyError::TomlSer(text) => "toml serialization error: "@ + text@,
        }
    }

    /// The sentence that tells a person what went wrong.
    pub fn to_string(&self) -> (text: String)
        ensures
            text@ == self.message(),
    {
        match self {
            ProxyError::UnknownServer(id) => "unknown server: ".to_owned().concat(id.as_str()),
            ProxyError::InvalidServerId(id) => "invalid server id: ".to_owned().concat(id.as_str()),
            ProxyError::ChildExited { id, reason } => "child process for ".to_owned().concat(
                id.as_str(),
            ).concat(" exited unexpectedly: ").concat(reason.as_str()),
            ProxyError::UnknownSession(id) => "session ".to_owned().concat(id.as_str()).concat(
                " not found",
            ),
            ProxyError::Config(text) => "config error: ".to_owned().concat(text.as_str()),
            ProxyError::Io(text) => "io error: ".to_owned().concat(text.as_str()),
            ProxyError::Json(text) => "json error: ".to_owned().concat(text.as_str()),
            ProxyError::Toml(text) => "toml error: ".to_owned().concat(text.as_str()),
            ProxyError::TomlSer(text) => "toml serialization error: ".to_owned().concat(
                text.as_str(),
            ),
        }
    }
}

/// An error of the file system or of a stream. Only its text is taken.
#[verifier::external_type_specification]
#[verifier::external_body]
pub struct ExIoError(std::io::Error);

impl From<std::io::Error> for ProxyError {
    fn from(e: std::io::Error) -> (r: Self)
        ensures
            r matches ProxyError::Io(text) && to_string_from_display_ensures(&e, text),
    {
        ProxyError::Io(e.to_string())
    }
}

impl vstd::std_specs::convert::FromSpecImpl<std::io::Error> for ProxyError {
    open spec fn obeys_from_spec() -> bool {
        false
    }

    open spec fn from_spec(e: std::io::Error) -> Self {
        arbitrary()
    }
}

/// An error of reading or writing JSON. Only its text is taken.
#[verifier::external_type_specification]
#[verifier::external_body]
pub struct ExJsonError(serde_json::Error);

impl From<serde_json::Error> for ProxyError {
    fn from(e: serde_json::Error) -> (r: Self)
        ensures
            r matches ProxyError::Json(text) && to_string_from_display_ensures(&e, text),
    {
        ProxyError::Json(e.to_string())
    }
}

impl vstd::std_specs::convert::FromSpecImpl<serde_json::Error> for ProxyError {
    open spec fn obeys_from_spec() -> bool {
        false
    }

    open spec fn from_spec(e: serde_json::Error) -> Self {
        arbitrary()
    }
}

/// An error of reading TOML. Only its text is taken.
#[verifier::external_type_specification]
#[verifier::external_body]
pub struct ExTomlError(toml::de::Error);

impl From<toml::de::Error> for ProxyError {
    fn from(e: toml::de::Error) -> (r: Self)
        ensures
            r matches ProxyError::Toml(text) && to_string_from_display_ensures(&e, text),
    {
        ProxyError::Toml(e.to_string())
    }
}

impl vstd::std_specs::convert::FromSpecImpl<toml::de::Error> for ProxyError {
    open spec fn obeys_from_spec() -> bool {
        false
    }

    open spec fn from_spec(e: toml::de::Error) -> Self {
        arbitrary()
    }
}

/// An error of writing TOML. Only its text is taken.
#[verifier::external_type_specification]
#[verifier::external_body]
pub struct ExTomlSerError(toml::ser::Error);

impl From<toml::ser::Error> for ProxyError {
    fn from(e: toml::ser::Error) -> (r: Self)
        ensures
            r matches ProxyError::TomlSer(text) && to_string_from_display_ensures(&e, text),
    {
        ProxyError::TomlSer(e.to_string())
    }
}

impl vstd::std_specs::convert::FromSpecImpl<toml::ser::Error> for ProxyError {
    open spec fn obeys_from_spec() -> bool {
        false
    }

    open spec fn from_spec(e: toml::ser::Error) -> Self {
        arbitrary()
    }
}

/// The sentence of an error names just what the error is about, whole, in its place.
pub proof fn law_sentences_name_what_went_wrong(a: String, b: String)
    ensures
        ProxyError::UnknownServer(a).message() == "unknown server: "@ + a@,
        ProxyError::InvalidServerId(a).message() == "invalid server id: "@ + a@,
        (ProxyError::ChildExited { id: a, reason: b }).message() == "child process for "@ + a@
            + " exited unexpectedly: "@ + b@,
        ProxyError::UnknownSession(a).message() == "session "@ + a@ + " not found"@,
        ProxyError::Config(a).message() == "config error: "@ + a@,
        ProxyError::Io(a).message() == "io error: "@ + a@,
        ProxyError::Json(a).message() == "json error: "@ + a@,
        ProxyError::Toml(a).message() == "toml error: "@ + a@,
        ProxyError::TomlSer(a).message() == "toml serialization error: "@ + a@,
{
}

} // verus!
