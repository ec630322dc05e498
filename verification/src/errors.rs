//! Error taxonomy of the supervisor. Outside error values are carried as their
//! rendered text so that the rest of the library stays fully checkable.
use vstd::prelude::*;

verus! {

pub type TogetherResult<T> = Result<T, TogetherError>;

#[derive(Debug)]
pub enum TogetherError {
    Io(String),
    TomlSerialize(String),
    TomlDeserialize(String),
    ChannelRecvError,
    PopenErrorError(String),
    InternalError(TogetherInternalError),
    DynError(String),
}

#[derive(Debug)]
pub enum TogetherInternalError {
    ProcessFailedToExit,
    UnexpectedResponse,
    InvalidConfigExtension,
}

impl TogetherError {
    /// A short human-readable description, in place of a `Display` rendering.
    pub fn describe(&self) -> (s: String)
        ensures
            s@.len() > 0,
    {
        let d: &str = match self {
            TogetherError::Io(_) => "IO error",
            TogetherError::TomlSerialize(_) => "TOML serialization error",
            TogetherError::TomlDeserialize(_) => "TOML deserialization error",
            TogetherError::ChannelRecvError => "Channel receive error",
            TogetherError::PopenErrorError(_) => "Process error",
            TogetherError::InternalError(TogetherInternalError::ProcessFailedToExit) => {
                "Process failed to exit"
            },
            TogetherError::InternalError(TogetherInternalError::UnexpectedResponse) => {
                "Unexpected response from process"
            },
            TogetherError::InternalError(TogetherInternalError::InvalidConfigExtension) => {
                "Unsupported configuration file extension"
            },
            TogetherError::DynError(_) => "Error",
        };
        proof {
            reveal_strlit("IO error");
            reveal_strlit("TOML serialization error");
            reveal_strlit("TOML deserialization error");
            reveal_strlit("Channel receive error");
            reveal_strlit("Process error");
            reveal_strlit("Process failed to exit");
            reveal_strlit("Unexpected response from process");
            reveal_strlit("Unsupported configuration file extension");
            reveal_strlit("Error");
        }
        d.to_owned()
    }

    /// The inner text carried by the error, where one was recorded.
    pub fn detail(&self) -> (s: Option<&String>)
        ensures
            match self {
                TogetherError::Io(t) => s == Some(t),
                TogetherError::TomlSerialize(t) => s == Some(t),
                TogetherError::TomlDeserialize(t) => s == Some(t),
                TogetherError::PopenErrorError(t) => s == Some(t),
                TogetherError::DynError(t) => s == Some(t),
                _ => s is None,
            },
    {
        match self {
            TogetherError::Io(t) => Some(t),
            TogetherError::TomlSerialize(t) => Some(t),
            TogetherError::TomlDeserialize(t) => Some(t),
            TogetherError::PopenErrorError(t) => Some(t),
            TogetherError::DynError(t) => Some(t),
            TogetherError::ChannelRecvError => None,
            TogetherError::InternalError(_) => None,
        }
    }
}

impl From<TogetherInternalError> for TogetherError {
    fn from(e: TogetherInternalError) -> (r: TogetherError) {
        TogetherError::InternalError(e)
    }
}

impl vstd::std_specs::convert::FromSpecImpl<TogetherInternalError> for TogetherError {
    open spec fn obeys_from_spec() -> bool {
        true
    }

    open spec fn from_spec(e: TogetherInternalError) -> TogetherError {
        TogetherError::InternalError(e)
    }
}

} // verus!
