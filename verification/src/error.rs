//! The errors of the component service and of the calls to the registry.

use vstd::prelude::*;
use vstd::string::*;
use crate::model::{ComponentId, ComponentVersion};

verus! {

/// Status of a remote call that did not succeed.
#[derive(Clone, Copy, Debug, PartialEq, Eq, Hash, Structural)]
pub enum StatusCode {
    Cancelled,
    Unknown,
    InvalidArgument,
    DeadlineExceeded,
    NotFound,
    AlreadyExists,
    PermissionDenied,
    ResourceExhausted,
    FailedPrecondition,
    Aborted,
    OutOfRange,
    Unimplemented,
    Internal,
    Unavailable,
    DataLoss,
    Unauthenticated,
}

/// Why one call to the registry failed.
#[derive(Clone, Debug, PartialEq, Eq)]
pub enum GrpcError {
    /// The connection could not be made or broke down.
    Transport(String),
    /// The call ended with a status other than success.
    Status { code: StatusCode, message: String },
    /// The registry answered with an error of its own.
    Domain(String),
    /// The answer did not have the expected shape.
    Unexpected(String),
}

/// Mathematical value of a [`GrpcError`].
pub enum GrpcErrorView {
    Transport(Seq<char>),
    Status { code: StatusCode, message: Seq<char> },
    Domain(Seq<char>),
    Unexpected(Seq<char>),
}

impl View for GrpcError {
    type V = GrpcErrorView;

    open spec fn view(&self) -> GrpcErrorView {
        match self {
            GrpcError::Transport(m) => GrpcErrorView::Transport(m@),
            GrpcError::Status { code, message } => GrpcErrorView::Status {
                code: *code,
                message: message@,
            },
            GrpcError::Domain(m) => GrpcErrorView::Domain(m@),
            GrpcError::Unexpected(m) => GrpcErrorView::Unexpected(m@),
        }
    }
}

/// A failed call is worth repeating exactly when the transport failed or
/// the status says that the service is unavailable.
pub open spec fn retriable(error: GrpcErrorView) -> bool {
    match error {
        GrpcErrorView::Transport(_) => true,
        GrpcErrorView::Status { code, .. } => code == StatusCode::Unavailable,
        GrpcErrorView::Domain(_) => false,
        GrpcErrorView::Unexpected(_) => false,
    }
}

/// The text that stands for a failed call in the reason of an error.
pub open spec fn describe(error: GrpcErrorView) -> Seq<char> {
    match error {
        GrpcErrorView::Transport(m) => "gRPC transport error: "@ + m,
        GrpcErrorView::Status { message, .. } => "gRPC status error: "@ + message,
        GrpcErrorView::Domain(m) => "gRPC domain error: "@ + m,
        GrpcErrorView::Unexpected(m) => "Unexpected error: "@ + m,
    }
}

pub fn is_grpc_retriable(error: &GrpcError) -> (r: bool)
    ensures
        r == retriable(error@),
{
    match error {
        GrpcError::Transport(_) => true,
        GrpcError::Status { code, .. } => match code {
            StatusCode::Unavailable => true,
            _ => false,
        },
        GrpcError::Domain(_) => false,
        GrpcError::Unexpected(_) => false,
    }
}

impl GrpcError {
    /// The error as one line of text.
    pub fn to_string(&self) -> (r: String)
        ensures
            r@ == describe(self@),
    {
        match self {
            GrpcError::Transport(m) => String::from_str("gRPC transport error: ").concat(
                m.as_str(),
            ),
            GrpcError::Status { message, .. } => String::from_str("gRPC status error: ").concat(
                message.as_str(),
            ),
            GrpcError::Domain(m) => String::from_str("gRPC domain error: ").concat(m.as_str()),
            GrpcError::Unexpected(m) => String::from_str("Unexpected error: ").concat(m.as_str()),
        }
    }
}

/// An error of the component service, as its callers see it.
#[derive(Clone, Debug, PartialEq, Eq)]
pub enum GolemError {
    /// The raw bytes of a component could not be fetched.
    ComponentDownloadFailed {
        component_id: ComponentId,
        component_version: ComponentVersion,
        reason: String,
    },
    /// The engine could not compile the raw bytes of a component.
    ComponentParseFailed {
        component_id: ComponentId,
        component_version: ComponentVersion,
        reason: String,
    },
    /// No metadata could be had for a component.
    GetLatestVersionOfComponentFailed { component_id: ComponentId, reason: String },
    /// A task or a file operation failed in a way that has no kind of its own.
    Unknown { details: String },
    /// The metadata of a component did not have the expected shape.
    Unexpected { message: String },
}

/// Mathematical value of a [`GolemError`].
pub enum GolemErrorView {
    ComponentDownloadFailed {
        component_id: ComponentId,
        component_version: ComponentVersion,
        reason: Seq<char>,
    },
    ComponentParseFailed {
        component_id: ComponentId,
        component_version: ComponentVersion,
        reason: Seq<char>,
    },
    GetLatestVersionOfComponentFailed { component_id: ComponentId, reason: Seq<char> },
    Unknown { details: Seq<char> },
    Unexpected { message: Seq<char> },
}

impl View for GolemError {
    type V = GolemErrorView;

    open spec fn view(&self) -> GolemErrorView {
        match self {
            GolemError::ComponentDownloadFailed { component_id, component_version, reason } => {
                GolemErrorView::ComponentDownloadFailed {
                    component_id: *component_id,
                    component_version: *component_version,
                    reason: reason@,
                }
            },
            GolemError::ComponentParseFailed { component_id, component_version, reason } => {
                GolemErrorView::ComponentParseFailed {
                    component_id: *component_id,
                    component_version: *component_version,
                    reason: reason@,
                }
            },
            GolemError::GetLatestVersionOfComponentFailed { component_id, reason } => {
                GolemErrorView::GetLatestVersionOfComponentFailed {
                    component_id: *component_id,
                    reason: reason@,
                }
            },
            GolemError::Unknown { details } => GolemErrorView::Unknown { details: details@ },
            GolemError::Unexpected { message } => GolemErrorView::Unexpected { message: message@ },
        }
    }
}

impl GolemError {
    /// An error without a kind of its own, with the given details.
    pub fn unknown(details: String) -> (r: GolemError)
        ensures
            r@ == (GolemErrorView::Unknown { details: details@ }),
    {
        GolemError::Unknown { details }
    }
}

/// The error of a download that failed for good.
pub open spec fn download_error(
    error: GrpcErrorView,
    component_id: ComponentId,
    component_version: ComponentVersion,
) -> GolemErrorView {
    GolemErrorView::ComponentDownloadFailed {
        component_id,
        component_version,
        reason: describe(error),
    }
}

/// The error of a metadata fetch that failed for good: an answer of the
/// wrong shape keeps its message, anything else becomes the reason why no
/// version could be had.
pub open spec fn latest_version_error(
    error: GrpcErrorView,
    component_id: ComponentId,
) -> GolemErrorView {
    match error {
        GrpcErrorView::Unexpected(m) => GolemErrorView::Unexpected { message: m },
        _ => GolemErrorView::GetLatestVersionOfComponentFailed {
            component_id,
            reason: describe(error),
        },
    }
}

pub fn grpc_component_download_error(
    error: GrpcError,
    component_id: &ComponentId,
    component_version: ComponentVersion,
) -> (r: GolemError)
    ensures
        r@ == download_error(error@, *component_id, component_version),
{
    GolemError::ComponentDownloadFailed {
        component_id: *component_id,
        component_version,
        reason: error.to_string(),
    }
}

pub fn grpc_get_latest_version_error(error: GrpcError, component_id: &ComponentId) -> (r:
    GolemError)
    ensures
        r@ == latest_version_error(error@, *component_id),
{
    match error {
        GrpcError::Unexpected(message) => GolemError::Unexpected { message },
        other => GolemError::GetLatestVersionOfComponentFailed {
            component_id: *component_id,
            reason: other.to_string(),
        },
    }
}

} // verus!
