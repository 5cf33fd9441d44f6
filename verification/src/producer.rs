//! The computation of a compiled component, step by step.
//!
//! The computation alternates between work that only the surroundings can
//! do (asking the store of compiled components, fetching bytes, pausing,
//! compiling) and decisions. The decisions are made here: the surroundings
//! report what their work gave, and are told what to do next.

use vstd::prelude::*;
use vstd::string::*;
use crate::download::{assemble, assemble_download, DownloadFrame};
use crate::error::{
    download_error, grpc_component_download_error, GolemError, GolemErrorView, GrpcError,
};
use crate::model::ComponentKey;
use crate::retry::{decide, on_failure, RetryConfig, RetryDecision};

verus! {

/// Where the computation of a compiled component stands.
#[derive(Debug, Clone, Copy, PartialEq, Eq, Structural)]
pub enum ProducerState {
    /// The store of compiled components has been asked.
    ProbingStore,
    /// The bytes are being fetched; `attempts` tries have been started.
    Fetching { attempts: u64 },
    /// The computation pauses after `attempts` failed tries.
    Pausing { attempts: u64 },
    /// The bytes are being compiled.
    Compiling,
    /// The compiled component is being put into the store.
    Storing,
    /// The computation has ended.
    Finished,
}

/// What the surroundings report to the computation. `A` is the compiled
/// component, which the computation carries and never reads.
#[derive(Debug)]
pub enum ProducerEvent<A> {
    /// The answer of the store of compiled components, or why it gave none.
    StoreProbed(Result<Option<A>, String>),
    /// The frames of a finished download, or why the try failed.
    Downloaded(Result<Vec<DownloadFrame>, GrpcError>),
    /// The bytes of a local file, or why they could not be read.
    BytesRead(Result<Vec<u8>, String>),
    /// The pause is over.
    PauseOver,
    /// The compiled component, or why the bytes could not be compiled.
    Compiled(Result<A, String>),
    /// The task that compiled the bytes did not come back.
    CompileAborted(String),
    /// The store of compiled components has taken the component, or has
    /// not; either way the component comes back.
    Stored { artifact: A, result: Result<(), String> },
}

/// What the surroundings are to do next.
#[derive(Debug)]
pub enum ProducerAction<A> {
    /// Ask the store of compiled components for the component.
    ProbeStore,
    /// Fetch the bytes of the component: one try.
    Fetch,
    /// Wait for so many milliseconds, then report that the pause is over.
    Pause { millis: u64 },
    /// Compile the bytes away from the cooperative tasks. The number of
    /// bytes is the size of the answer that was fetched.
    Compile { bytes: Vec<u8> },
    /// Note how long the compilation took, and put the compiled component
    /// into the store.
    Store { artifact: A },
    /// The computation has ended with this outcome.
    Finish(Result<A, GolemError>),
}

/// Mathematical value of a [`ProducerAction`].
pub enum ProducerActionView<A> {
    ProbeStore,
    Fetch,
    Pause { millis: u64 },
    Compile { bytes: Seq<u8> },
    Store { artifact: A },
    Finish(Result<A, GolemErrorView>),
}

impl<A> View for ProducerAction<A> {
    type V = ProducerActionView<A>;

    open spec fn view(&self) -> ProducerActionView<A> {
        match self {
            ProducerAction::ProbeStore => ProducerActionView::ProbeStore,
            ProducerAction::Fetch => ProducerActionView::Fetch,
            ProducerAction::Pause { millis } => ProducerActionView::Pause { millis: *millis },
            ProducerAction::Compile { bytes } => ProducerActionView::Compile { bytes: bytes@ },
            ProducerAction::Store { artifact } => ProducerActionView::Store { artifact: *artifact },
            ProducerAction::Finish(Ok(a)) => ProducerActionView::Finish(Ok(*a)),
            ProducerAction::Finish(Err(e)) => ProducerActionView::Finish(Err(e@)),
        }
    }
}

/// The number of the next try.
pub open spec fn next_attempt(attempts: u64) -> u64 {
    if attempts < u64::MAX {
        (attempts + 1) as u64
    } else {
        attempts
    }
}

/// The end of a computation that was told something that it did not wait
/// for.
pub open spec fn out_of_turn<A>() -> (ProducerState, ProducerActionView<A>) {
    (
        ProducerState::Finished,
        ProducerActionView::Finish(
            Err(GolemErrorView::Unknown { details: "Unexpected event"@ }),
        ),
    )
}

/// What follows a failed try to fetch the bytes: a pause and another try
/// where the failure is worth repeating and a try is left, else the end.
pub open spec fn after_failed_fetch<A>(
    key: ComponentKey,
    retries: RetryConfig,
    attempts: u64,
    error: crate::error::GrpcErrorView,
) -> (ProducerState, ProducerActionView<A>) {
    match decide(retries, attempts, error) {
        RetryDecision::RetryAfter(millis) => (
            ProducerState::Pausing { attempts },
            ProducerActionView::Pause { millis },
        ),
        RetryDecision::GiveUp => (
            ProducerState::Finished,
            ProducerActionView::Finish(
                Err(download_error(error, key.component_id, key.component_version)),
            ),
        ),
    }
}

/// The state after an event, and what is to be done next.
///
/// A compiled component from the store ends the computation at once. A
/// miss of the store, or a fault of it, leads to the bytes: fetched with
/// bounded retries, then compiled. A component that was compiled is handed
/// to the store, and ends the computation whether or not the store took it.
pub open spec fn producer_step<A>(
    key: ComponentKey,
    retries: RetryConfig,
    state: ProducerState,
    event: ProducerEvent<A>,
) -> (ProducerState, ProducerActionView<A>) {
    match (state, event) {
        (ProducerState::ProbingStore, ProducerEvent::StoreProbed(Ok(Some(artifact)))) => (
            ProducerState::Finished,
            ProducerActionView::Finish(Ok(artifact)),
        ),
        (ProducerState::ProbingStore, ProducerEvent::StoreProbed(_)) => (
            ProducerState::Fetching { attempts: 1 },
            ProducerActionView::Fetch,
        ),
        (ProducerState::Fetching { attempts }, ProducerEvent::Downloaded(Ok(frames))) => {
            match assemble(frames@) {
                Ok(bytes) => (ProducerState::Compiling, ProducerActionView::Compile { bytes }),
                Err(error) => after_failed_fetch(key, retries, attempts, error),
            }
        },
        (ProducerState::Fetching { attempts }, ProducerEvent::Downloaded(Err(error))) => {
            after_failed_fetch(key, retries, attempts, error@)
        },
        (ProducerState::Fetching { attempts }, ProducerEvent::BytesRead(Ok(bytes))) => (
            ProducerState::Compiling,
            ProducerActionView::Compile { bytes: bytes@ },
        ),
        (ProducerState::Fetching { attempts }, ProducerEvent::BytesRead(Err(details))) => (
            ProducerState::Finished,
            ProducerActionView::Finish(Err(GolemErrorView::Unknown { details: details@ })),
        ),
        (ProducerState::Pausing { attempts }, ProducerEvent::PauseOver) => (
            ProducerState::Fetching { attempts: next_attempt(attempts) },
            ProducerActionView::Fetch,
        ),
        (ProducerState::Compiling, ProducerEvent::Compiled(Ok(artifact))) => (
            ProducerState::Storing,
            ProducerActionView::Store { artifact },
        ),
        (ProducerState::Compiling, ProducerEvent::Compiled(Err(reason))) => (
            ProducerState::Finished,
            ProducerActionView::Finish(
                Err(
                    GolemErrorView::ComponentParseFailed {
                        component_id: key.component_id,
                        component_version: key.component_version,
                        reason: reason@,
                    },
                ),
            ),
        ),
        (ProducerState::Compiling, ProducerEvent::CompileAborted(details)) => (
            ProducerState::Finished,
            ProducerActionView::Finish(Err(GolemErrorView::Unknown { details: details@ })),
        ),
        (ProducerState::Storing, ProducerEvent::Stored { artifact, result }) => (
            ProducerState::Finished,
            ProducerActionView::Finish(Ok(artifact)),
        ),
        _ => out_of_turn(),
    }
}

/// The computation of one compiled component.
#[derive(Debug)]
pub struct Producer {
    key: ComponentKey,
    retries: RetryConfig,
    state: ProducerState,
}

fn failed_fetch<A>(
    key: &ComponentKey,
    retries: &RetryConfig,
    attempts: u64,
    error: GrpcError,
) -> (r: (ProducerState, ProducerAction<A>))
    ensures
        (r.0, r.1@) == after_failed_fetch::<A>(*key, *retries, attempts, error@),
{
    match on_failure(retries, attempts, &error) {
        RetryDecision::RetryAfter(millis) => (
            ProducerState::Pausing { attempts },
            ProducerAction::Pause { millis },
        ),
        RetryDecision::GiveUp => (
            ProducerState::Finished,
            ProducerAction::Finish(
                Err(grpc_component_download_error(error, &key.component_id, key.component_version)),
            ),
        ),
    }
}

fn unexpected<A>() -> (r: (ProducerState, ProducerAction<A>))
    ensures
        (r.0, r.1@) == out_of_turn::<A>(),
{
    (
        ProducerState::Finished,
        ProducerAction::Finish(
            Err(GolemError::Unknown { details: String::from_str("Unexpected event") }),
        ),
    )
}

impl Producer {
    pub closed spec fn key(&self) -> ComponentKey {
        self.key
    }

    pub closed spec fn retries(&self) -> RetryConfig {
        self.retries
    }

    pub closed spec fn state(&self) -> ProducerState {
        self.state
    }

    /// Starts the computation of the component with the given key: the
    /// first thing to do is to ask the store of compiled components.
    pub fn start<A>(key: ComponentKey, retries: RetryConfig) -> (r: (Producer, ProducerAction<A>))
        ensures
            r.0.key() == key,
            r.0.retries() == retries,
            r.0.state() == ProducerState::ProbingStore,
            r.1@ == ProducerActionView::<A>::ProbeStore,
    {
        (Producer { key, retries, state: ProducerState::ProbingStore }, ProducerAction::ProbeStore)
    }

    /// Where the computation stands.
    pub fn current(&self) -> (r: ProducerState)
        ensures
            r == self.state(),
    {
        self.state
    }

    /// Takes note of what the surroundings report, and says what they are
    /// to do next.
    pub fn step<A>(&mut self, event: ProducerEvent<A>) -> (r: ProducerAction<A>)
        ensures
            final(self).key() == old(self).key(),
            final(self).retries() == old(self).retries(),
            (final(self).state(), r@) == producer_step(
                old(self).key(),
                old(self).retries(),
                old(self).state(),
                event,
            ),
    {
        let (state, action) = match self.state {
            ProducerState::ProbingStore => match event {
                ProducerEvent::StoreProbed(Ok(Some(artifact))) => (
                    ProducerState::Finished,
                    ProducerAction::Finish(Ok(artifact)),
                ),
                ProducerEvent::StoreProbed(_) => (
                    ProducerState::Fetching { attempts: 1 },
                    ProducerAction::Fetch,
                ),
                _ => unexpected(),
            },
            ProducerState::Fetching { attempts } => match event {
                ProducerEvent::Downloaded(Ok(frames)) => match assemble_download(frames) {
                    Ok(bytes) => (ProducerState::Compiling, ProducerAction::Compile { bytes }),
                    Err(error) => failed_fetch(&self.key, &self.retries, attempts, error),
                },
                ProducerEvent::Downloaded(Err(error)) => failed_fetch(
                    &self.key,
                    &self.retries,
                    attempts,
                    error,
                ),
                ProducerEvent::BytesRead(Ok(bytes)) => (
                    ProducerState::Compiling,
                    ProducerAction::Compile { bytes },
                ),
                ProducerEvent::BytesRead(Err(details)) => (
                    ProducerState::Finished,
                    ProducerAction::Finish(Err(GolemError::Unknown { details })),
                ),
                _ => unexpected(),
            },
            ProducerState::Pausing { attempts } => match event {
                ProducerEvent::PauseOver => {
                    let next = if attempts < u64::MAX {
                        attempts + 1
                    } else {
                        attempts
                    };
                    (ProducerState::Fetching { attempts: next }, ProducerAction::Fetch)
                },
                _ => unexpected(),
            },
            ProducerState::Compiling => match event {
                ProducerEvent::Compiled(Ok(artifact)) => (
                    ProducerState::Storing,
                    ProducerAction::Store { artifact },
                ),
                ProducerEvent::Compiled(Err(reason)) => (
                    ProducerState::Finished,
                    ProducerAction::Finish(
                        Err(
                            GolemError::ComponentParseFailed {
                                component_id: self.key.component_id,
                                component_version: self.key.component_version,
                                reason,
                            },
                        ),
                    ),
                ),
                ProducerEvent::CompileAborted(details) => (
                    ProducerState::Finished,
                    ProducerAction::Finish(Err(GolemError::Unknown { details })),
                ),
                _ => unexpected(),
            },
            ProducerState::Storing => match event {
                ProducerEvent::Stored { artifact, result } => (
                    ProducerState::Finished,
                    ProducerAction::Finish(Ok(artifact)),
                ),
                _ => unexpected(),
            },
            ProducerState::Finished => unexpected(),
        };
        self.state = state;
        action
    }
}

/// How many tries to fetch the bytes a series of events leads to.
pub open spec fn fetches<A>(
    key: ComponentKey,
    retries: RetryConfig,
    state: ProducerState,
    events: Seq<ProducerEvent<A>>,
) -> nat
    decreases events.len(),
{
    if events.len() == 0 {
        0
    } else {
        let (next, action) = producer_step(key, retries, state, events[0]);
        (if action is Fetch {
            1nat
        } else {
            0nat
        }) + fetches(key, retries, next, events.drop_first())
    }
}

/// How many tries to fetch the bytes can still follow in a state.
pub open spec fn fetches_left(retries: RetryConfig, state: ProducerState) -> nat {
    match state {
        ProducerState::ProbingStore => if retries.max_attempts > 1 {
            retries.max_attempts as nat
        } else {
            1
        },
        ProducerState::Fetching { attempts } => if retries.max_attempts > attempts {
            (retries.max_attempts - attempts) as nat
        } else {
            0
        },
        ProducerState::Pausing { attempts } => if retries.max_attempts > attempts + 1 {
            (retries.max_attempts - attempts) as nat
        } else {
            1
        },
        _ => 0,
    }
}

proof fn lemma_step_fetches_left<A>(
    key: ComponentKey,
    retries: RetryConfig,
    state: ProducerState,
    event: ProducerEvent<A>,
)
    ensures
        (if producer_step(key, retries, state, event).1 is Fetch {
            1nat
        } else {
            0nat
        }) + fetches_left(retries, producer_step(key, retries, state, event).0) <= fetches_left(
            retries,
            state,
        ),
{
}

/// The effort is bounded: whatever the surroundings report, the bytes of
/// a component are fetched at most as often as the configuration allows,
/// and once where it allows no try at all.
pub proof fn lemma_fetches_bounded<A>(
    key: ComponentKey,
    retries: RetryConfig,
    state: ProducerState,
    events: Seq<ProducerEvent<A>>,
)
    ensures
        fetches(key, retries, state, events) <= fetches_left(retries, state),
    decreases events.len(),
{
    if events.len() > 0 {
        lemma_step_fetches_left(key, retries, state, events[0]);
        lemma_fetches_bounded(
            key,
            retries,
            producer_step(key, retries, state, events[0]).0,
            events.drop_first(),
        );
    }
}

/// A fault of the store of compiled components never fails the
/// computation: where the store cannot be asked the bytes are fetched, and
/// where it does not take the compiled component the component is still
/// the outcome.
pub proof fn lemma_store_faults_ignored<A>(
    key: ComponentKey,
    retries: RetryConfig,
    fault: String,
    artifact: A,
)
    ensures
        producer_step::<A>(
            key,
            retries,
            ProducerState::ProbingStore,
            ProducerEvent::StoreProbed(Err(fault)),
        ) == (ProducerState::Fetching { attempts: 1 }, ProducerActionView::<A>::Fetch),
        producer_step(
            key,
            retries,
            ProducerState::Storing,
            ProducerEvent::Stored { artifact, result: Err(fault) },
        ) == (ProducerState::Finished, ProducerActionView::Finish(Ok(artifact))),
{
}

/// The event hands over a component that the store of compiled
/// components had.
pub open spec fn found_in_store<A>(state: ProducerState, event: ProducerEvent<A>, a: A) -> bool {
    state == ProducerState::ProbingStore && event == ProducerEvent::StoreProbed(Ok(Some(a)))
}

/// The event hands back a component that was compiled and offered to the
/// store of compiled components.
pub open spec fn back_from_store<A>(state: ProducerState, event: ProducerEvent<A>, a: A) -> bool {
    state == ProducerState::Storing && (event matches ProducerEvent::Stored { artifact, .. }
        && artifact == a)
}

/// A computation ends well only with a component that the store of
/// compiled components had, or with one that was compiled and offered to
/// the store; and a component is offered to the store exactly when it has
/// just been compiled.
pub proof fn lemma_outcome_origin<A>(
    key: ComponentKey,
    retries: RetryConfig,
    state: ProducerState,
    event: ProducerEvent<A>,
    a: A,
)
    ensures
        producer_step(key, retries, state, event).1 == ProducerActionView::Finish(Ok(a)) <==> (
        found_in_store(state, event, a) || back_from_store(state, event, a)),
        producer_step(key, retries, state, event).1 == (ProducerActionView::Store { artifact: a })
            <==> (state == ProducerState::Compiling && event == ProducerEvent::Compiled(Ok(a))),
{
}

} // verus!
