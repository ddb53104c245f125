//! The error taxonomy of the library.

use vstd::prelude::*;
use vstd::string::StringExecFns;

verus! {

/// A failure while resolving a descriptor or listing resources against the
/// cloud APIs.
#[derive(Debug, PartialEq, Eq)]
pub enum ResolutionError {
    /// The service answered, but the identified resource does not exist.
    NotFound,
    /// The descriptor does not match the resolver it was handed to.
    InvalidDescriptor,
    /// A lower-level transport or authentication failure, with its report.
    TransportError(String),
}

/// A failure of the persistence or resolution subsystem.
#[derive(Debug, PartialEq, Eq)]
pub enum Error {
    /// The workspace file could not be opened, created or written.
    IoError,
    /// The on-disk content does not match the workspace schema.
    DeserializationError,
    /// The in-memory state could not be encoded.
    SerializationError,
    /// A cloud-side resolution failure.
    Resolution(ResolutionError),
    /// A catch-all for unclassified lower-level failures.
    Unknown,
}

impl Clone for ResolutionError {
    fn clone(&self) -> (r: Self)
        ensures
            r == *self,
    {
        match self {
            ResolutionError::NotFound => ResolutionError::NotFound,
            ResolutionError::InvalidDescriptor => ResolutionError::InvalidDescriptor,
            ResolutionError::TransportError(m) => ResolutionError::TransportError(m.clone()),
        }
    }
}

impl Clone for Error {
    fn clone(&self) -> (r: Self)
        ensures
            r == *self,
    {
        match self {
            Error::IoError => Error::IoError,
            Error::DeserializationError => Error::DeserializationError,
            Error::SerializationError => Error::SerializationError,
            Error::Resolution(e) => Error::Resolution(e.clone()),
            Error::Unknown => Error::Unknown,
        }
    }
}

impl ResolutionError {
    /// The text under which the failure is reported.
    pub open spec fn message_view(self) -> Seq<char> {
        match self {
            ResolutionError::NotFound => "Resource not found"@,
            ResolutionError::InvalidDescriptor => "Invalid resource descriptor"@,
            ResolutionError::TransportError(m) => "AWS SDK error: "@ + m@,
        }
    }

    /// Renders the failure for the application's log panel.
    pub fn message(&self) -> (r: String)
        ensures
            r@ == self.message_view(),
    {
        match self {
            ResolutionError::NotFound => "Resource not found".to_owned(),
            ResolutionError::InvalidDescriptor => "Invalid resource descriptor".to_owned(),
            ResolutionError::TransportError(m) => {
                "AWS SDK error: ".to_owned().concat(m.as_str())
            }
        }
    }
}

impl Error {
    /// The text under which the error is reported.
    pub open spec fn message_view(self) -> Seq<char> {
        match self {
            Error::IoError => "I/O error"@,
            Error::DeserializationError => "Deserialization error"@,
            Error::SerializationError => "Serialization error"@,
            Error::Resolution(e) => e.message_view(),
            Error::Unknown => "Unknown error"@,
        }
    }

    /// Renders the error for the application's log panel.
    pub fn message(&self) -> (r: String)
        ensures
            r@ == self.message_view(),
    {
        match self {
            Error::IoError => "I/O error".to_owned(),
            Error::DeserializationError => "Deserialization error".to_owned(),
            Error::SerializationError => "Serialization error".to_owned(),
            Error::Resolution(e) => e.message(),
            Error::Unknown => "Unknown error".to_owned(),
        }
    }
}

impl From<ResolutionError> for Error {
    fn from(e: ResolutionError) -> (r: Error) {
        Error::Resolution(e)
    }
}

impl vstd::std_specs::convert::FromSpecImpl<ResolutionError> for Error {
    open spec fn obeys_from_spec() -> bool {
        true
    }

    open spec fn from_spec(e: ResolutionError) -> Error {
        Error::Resolution(e)
    }
}

/// The shape of a failure reported by the cloud SDK, reduced to its
/// variant; the surrounding application converts the SDK's own error type
/// into this one before asking for a classification.
#[derive(Clone, Copy, Debug, PartialEq, Eq, Structural)]
pub enum SdkFailureKind {
    /// The request failed during construction and was never dispatched.
    Construction,
    /// The request timed out.
    Timeout,
    /// The request failed during dispatch; no response was received.
    Dispatch,
    /// A response was received but could not be parsed.
    Response,
    /// The service itself answered with an error.
    Service,
    /// Any shape the SDK may add later.
    Other,
}

/// Classifies a cloud SDK failure: failures below the service keep their
/// report as a transport error; an error answered by the service itself,
/// or an unrecognised shape, stays unclassified.
pub fn classify_sdk_failure(kind: SdkFailureKind, message: String) -> (r: Error)
    ensures
        (kind == SdkFailureKind::Service || kind == SdkFailureKind::Other) ==> r
            == Error::Unknown,
        !(kind == SdkFailureKind::Service || kind == SdkFailureKind::Other) ==> r
            == Error::Resolution(ResolutionError::TransportError(message)),
{
    match kind {
        SdkFailureKind::Construction => Error::Resolution(
            ResolutionError::TransportError(message),
        ),
        SdkFailureKind::Timeout => Error::Resolution(ResolutionError::TransportError(message)),
        SdkFailureKind::Dispatch => Error::Resolution(ResolutionError::TransportError(message)),
        SdkFailureKind::Response => Error::Resolution(ResolutionError::TransportError(message)),
        SdkFailureKind::Service => Error::Unknown,
        SdkFailureKind::Other => Error::Unknown,
    }
}

} // verus!
