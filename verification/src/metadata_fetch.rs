//! Fetching the metadata of a component from the registry, step by step.

use vstd::prelude::*;
use vstd::string::*;
use crate::error::{
    grpc_get_latest_version_error, latest_version_error, GolemError, GolemErrorView, GrpcError,
    GrpcErrorView,
};
use crate::metadata::{ComponentMetadata, ComponentMetadataView};
use crate::model::ComponentId;
use crate::producer::next_attempt;
use crate::registry::{decode_metadata_response, decode_response, GetComponentMetadataResponse};
use crate::retry::{decide, on_failure, RetryConfig, RetryDecision};

verus! {

/// Where the fetch of a component's metadata stands.
#[derive(Debug, Clone, Copy, PartialEq, Eq, Structural)]
pub enum MetadataFetchState {
    /// The registry has been asked; `attempts` tries have been started.
    Fetching { attempts: u64 },
    /// The fetch pauses after `attempts` failed tries.
    Pausing { attempts: u64 },
    /// The fetch has ended.
    Finished,
}

/// What the surroundings report to the fetch.
#[derive(Debug)]
pub enum MetadataEvent<E> {
    /// The answer of the registry, or why the try failed.
    Answered(Result<GetComponentMetadataResponse<E>, GrpcError>),
    /// The pause is over.
    PauseOver,
}

/// What the surroundings are to do next.
#[derive(Debug)]
pub enum MetadataAction<E> {
    /// Ask the registry: one try.
    Fetch,
    /// Wait for so many milliseconds, then report that the pause is over.
    Pause { millis: u64 },
    /// The fetch has ended with this outcome. After a success the size of
    /// the answer is noted.
    Finish(Result<ComponentMetadata<E>, GolemError>),
}

/// Mathematical value of a [`MetadataAction`].
pub enum MetadataActionView<E> {
    Fetch,
    Pause { millis: u64 },
    Finish(Result<ComponentMetadataView<E>, GolemErrorView>),
}

impl<E> View for MetadataAction<E> {
    type V = MetadataActionView<E>;

    open spec fn view(&self) -> MetadataActionView<E> {
        match self {
            MetadataAction::Fetch => MetadataActionView::Fetch,
            MetadataAction::Pause { millis } => MetadataActionView::Pause { millis: *millis },
            MetadataAction::Finish(Ok(m)) => MetadataActionView::Finish(Ok(m@)),
            MetadataAction::Finish(Err(e)) => MetadataActionView::Finish(Err(e@)),
        }
    }
}

/// What follows a failed try: a pause and another try where the failure
/// is worth repeating and a try is left, else the end.
pub open spec fn after_failed_try<E>(
    component_id: ComponentId,
    retries: RetryConfig,
    attempts: u64,
    error: GrpcErrorView,
) -> (MetadataFetchState, MetadataActionView<E>) {
    match decide(retries, attempts, error) {
        RetryDecision::RetryAfter(millis) => (
            MetadataFetchState::Pausing { attempts },
            MetadataActionView::Pause { millis },
        ),
        RetryDecision::GiveUp => (
            MetadataFetchState::Finished,
            MetadataActionView::Finish(Err(latest_version_error(error, component_id))),
        ),
    }
}

/// The state after an event, and what is to be done next. An answer that
/// decodes ends the fetch with the metadata; any other answer is a failed
/// try, as is a try without an answer.
pub open spec fn metadata_step<E>(
    component_id: ComponentId,
    retries: RetryConfig,
    state: MetadataFetchState,
    event: MetadataEvent<E>,
) -> (MetadataFetchState, MetadataActionView<E>) {
    match (state, event) {
        (MetadataFetchState::Fetching { attempts }, MetadataEvent::Answered(Ok(response))) => {
            match decode_response(response) {
                Ok(metadata) => (
                    MetadataFetchState::Finished,
                    MetadataActionView::Finish(Ok(metadata)),
                ),
                Err(error) => after_failed_try(component_id, retries, attempts, error),
            }
        },
        (MetadataFetchState::Fetching { attempts }, MetadataEvent::Answered(Err(error))) => {
            after_failed_try(component_id, retries, attempts, error@)
        },
        (MetadataFetchState::Pausing { attempts }, MetadataEvent::PauseOver) => (
            MetadataFetchState::Fetching { attempts: next_attempt(attempts) },
            MetadataActionView::Fetch,
        ),
        _ => (
            MetadataFetchState::Finished,
            MetadataActionView::Finish(
                Err(GolemErrorView::Unknown { details: "Unexpected event"@ }),
            ),
        ),
    }
}

/// The fetch of the metadata of one component.
#[derive(Debug)]
pub struct MetadataFetch {
    component_id: ComponentId,
    retries: RetryConfig,
    state: MetadataFetchState,
}

fn failed_try<E>(
    component_id: &ComponentId,
    retries: &RetryConfig,
    attempts: u64,
    error: GrpcError,
) -> (r: (MetadataFetchState, MetadataAction<E>))
    ensures
        (r.0, r.1@) == after_failed_try::<E>(*component_id, *retries, attempts, error@),
{
    match on_failure(retries, attempts, &error) {
        RetryDecision::RetryAfter(millis) => (
            MetadataFetchState::Pausing { attempts },
            MetadataAction::Pause { millis },
        ),
        RetryDecision::GiveUp => (
            MetadataFetchState::Finished,
            MetadataAction::Finish(Err(grpc_get_latest_version_error(error, component_id))),
        ),
    }
}

impl MetadataFetch {
    pub closed spec fn component_id(&self) -> ComponentId {
        self.component_id
    }

    pub closed spec fn retries(&self) -> RetryConfig {
        self.retries
    }

    pub closed spec fn state(&self) -> MetadataFetchState {
        self.state
    }

    /// Starts the fetch: the first thing to do is to ask the registry.
    pub fn start<E>(component_id: ComponentId, retries: RetryConfig) -> (r: (
        MetadataFetch,
        MetadataAction<E>,
    ))
        ensures
            r.0.component_id() == component_id,
            r.0.retries() == retries,
            r.0.state() == (MetadataFetchState::Fetching { attempts: 1 }),
            r.1@ == MetadataActionView::<E>::Fetch,
    {
        (
            MetadataFetch {
                component_id,
                retries,
                state: MetadataFetchState::Fetching { attempts: 1 },
            },
            MetadataAction::Fetch,
        )
    }

    /// Where the fetch stands.
    pub fn current(&self) -> (r: MetadataFetchState)
        ensures
            r == self.state(),
    {
        self.state
    }

    /// Takes note of what the surroundings report, and says what they are
    /// to do next.
    pub fn step<E>(&mut self, event: MetadataEvent<E>) -> (r: MetadataAction<E>)
        ensures
            final(self).component_id() == old(self).component_id(),
            final(self).retries() == old(self).retries(),
            (final(self).state(), r@) == metadata_step(
                old(self).component_id(),
                old(self).retries(),
                old(self).state(),
                event,
            ),
    {
        let (state, action) = match (self.state, event) {
            (MetadataFetchState::Fetching { attempts }, MetadataEvent::Answered(Ok(response))) => {
                match decode_metadata_response(response) {
                    Ok(metadata) => (
                        MetadataFetchState::Finished,
                        MetadataAction::Finish(Ok(metadata)),
                    ),
                    Err(error) => failed_try(&self.component_id, &self.retries, attempts, error),
                }
            },
            (MetadataFetchState::Fetching { attempts }, MetadataEvent::Answered(Err(error))) => {
                failed_try(&self.component_id, &self.retries, attempts, error)
            },
            (MetadataFetchState::Pausing { attempts }, MetadataEvent::PauseOver) => {
                let next = if attempts < u64::MAX {
                    attempts + 1
                } else {
                    attempts
                };
                (MetadataFetchState::Fetching { attempts: next }, MetadataAction::Fetch)
            },
            _ => (
                MetadataFetchState::Finished,
                MetadataAction::Finish(
                    Err(GolemError::Unknown { details: String::from_str("Unexpected event") }),
                ),
            ),
        };
        self.state = state;
        action
    }
}

/// An answer whose metadata decodes ends the fetch with metadata of the
/// size and the version that the registry reported.
pub proof fn lemma_metadata_as_reported<E>(
    component_id: ComponentId,
    retries: RetryConfig,
    attempts: u64,
    response: GetComponentMetadataResponse<E>,
    metadata: ComponentMetadataView<E>,
)
    requires
        metadata_step(
            component_id,
            retries,
            MetadataFetchState::Fetching { attempts },
            MetadataEvent::Answered(Ok(response)),
        ).1 == MetadataActionView::Finish(Ok(metadata)),
    ensures
        response matches GetComponentMetadataResponse::Success(Some(view))
            && view.versioned_component_id matches Some(id) && metadata.version == id.version
            && metadata.size == view.component_size,
{
}

} // verus!
